use mangle::symbol::{join, Identifier, Segment, Symbol};

fn ident(text: &str) -> Identifier {
    assert!(!text.is_empty());
    Identifier::new(text.to_string())
}

fn idents(texts: &[&str]) -> Vec<Identifier> {
    texts.iter().map(|t| ident(t)).collect()
}

#[test]
fn from_idents_three_segments() {
    let components = idents(&["cxxbridge05", "string", "new"]);
    let symbol = Symbol::from_idents(&components);
    assert_eq!(symbol.as_str(), "cxxbridge05$string$new");
}

#[test]
fn join_text_segments() {
    let segments = vec![
        Segment::Text("cxxbridge05".to_string()),
        Segment::Text("string".to_string()),
        Segment::Text("new".to_string()),
    ];
    assert_eq!(join(&segments).as_str(), "cxxbridge05$string$new");
}

#[test]
fn qualified_name_renders_namespace_then_identifier() {
    let segments = vec![Segment::QualifiedName(
        idents(&["org", "example"]),
        ident("Widget"),
    )];
    assert_eq!(join(&segments).as_str(), "org$example$Widget");
}

#[test]
fn prefix_with_prepends_literally() {
    let base = Symbol::from_idents(&idents(&["org", "example", "Widget"]));
    let derived = base.prefix_with("vec$");
    assert_eq!(derived.as_str(), "vec$org$example$Widget");
}

#[test]
fn prefix_derivation_preserves_base() {
    let base = Symbol::from_idents(&idents(&["org", "example", "Widget"]));
    let before = base.as_str().to_string();
    let derived = base.prefix_with("vec$");
    assert_eq!(derived.as_str(), format!("vec${}", before));
    assert_eq!(base.as_str(), before);
    let derived_again = base.prefix_with("box$");
    assert_eq!(derived_again.as_str(), "box$org$example$Widget");
}

#[test]
fn built_symbol_is_nonempty() {
    let lone = Symbol::from_idents(&idents(&["lone"]));
    assert!(!lone.as_str().is_empty());
    let joined = join(&vec![Segment::Index(0)]);
    assert!(!joined.as_str().is_empty());
}

#[test]
fn single_segment_has_no_separator() {
    let lone = Symbol::from_idents(&idents(&["lone"]));
    assert_eq!(lone.as_str(), "lone");
    assert!(!lone.as_str().contains('$'));
}

#[test]
fn separator_count_between_segments() {
    let segments = vec![
        Segment::Text("alpha".to_string()),
        Segment::Text("beta".to_string()),
        Segment::Text("gamma".to_string()),
    ];
    let symbol = join(&segments);
    let rendered = symbol.as_str();
    assert_eq!(rendered.matches('$').count(), 2);
    assert!(!rendered.starts_with('$'));
    assert!(!rendered.ends_with('$'));
}

#[test]
fn deterministic_rebuild() {
    let first = Symbol::from_idents(&idents(&["org", "example", "Widget"]));
    let second = Symbol::from_idents(&idents(&["org", "example", "Widget"]));
    assert_eq!(first.as_str().as_bytes(), second.as_str().as_bytes());
}

#[test]
fn qualified_name_matches_explicit_list() {
    let as_pair = join(&vec![Segment::QualifiedName(
        idents(&["a", "b"]),
        ident("c"),
    )]);
    let as_list = join(&vec![
        Segment::Identifier(ident("a")),
        Segment::Identifier(ident("b")),
        Segment::Identifier(ident("c")),
    ]);
    assert_eq!(as_pair.as_str(), "a$b$c");
    assert_eq!(as_list.as_str(), "a$b$c");
}

#[test]
fn index_segment_renders_decimal() {
    let segments = vec![Segment::Text("op".to_string()), Segment::Index(12)];
    assert_eq!(join(&segments).as_str(), "op$12");
    assert_eq!(join(&vec![Segment::Index(0)]).as_str(), "0");
    assert_eq!(
        join(&vec![Segment::Index(40507), Segment::Text("x".to_string())]).as_str(),
        "40507$x"
    );
}

#[test]
fn nested_symbol_embedded_verbatim() {
    let base = Symbol::from_idents(&idents(&["org", "example", "Widget"]));
    let wrapped = join(&vec![
        Segment::Text("vec".to_string()),
        Segment::NestedSymbol(base),
    ]);
    assert_eq!(wrapped.as_str(), "vec$org$example$Widget");
}

#[test]
fn empty_namespace_contributes_nothing() {
    let segments = vec![
        Segment::Text("x".to_string()),
        Segment::NamespacePath(Vec::new()),
        Segment::Text("y".to_string()),
    ];
    assert_eq!(join(&segments).as_str(), "x$y");
}

#[test]
fn namespace_path_spreads_components() {
    let segments = vec![
        Segment::NamespacePath(idents(&["a", "b"])),
        Segment::Text("f".to_string()),
    ];
    assert_eq!(join(&segments).as_str(), "a$b$f");
}

#[test]
fn identifier_text_verbatim() {
    let id = ident("Widget");
    assert_eq!(id.as_str(), "Widget");
}
