//! The symbol builder: validated segments, concatenated with a fixed
//! separator, yielding an immutable flat symbol value.

use crate::digits::decimal_chars;
use crate::digits::decimal_string;
use crate::digits::lemma_decimal_chars_nonempty;
use vstd::prelude::*;

verus! {

/// The character placed between adjacent sub-segments of a mangled symbol.
pub const SEPARATOR: char = '$';

/// A mangled symbol consisting of sub-segments separated by `SEPARATOR`.
/// For example: `cxxbridge05$string$new`.
///
/// Rendered text is the symbol: textual equality of renderings is the
/// definition of symbol identity.
pub struct Symbol {
    text: String,
}

impl View for Symbol {
    type V = Seq<char>;

    closed spec fn view(&self) -> Seq<char> {
        self.text@
    }
}

/// The text left behind after one sub-segment is appended to an accumulator:
/// a separator goes in front of the new text unless the accumulator is still
/// empty.
pub open spec fn pushed(acc: Seq<char>, part: Seq<char>) -> Seq<char> {
    if acc.len() == 0 {
        part
    } else {
        acc + seq![SEPARATOR] + part
    }
}

/// One identifier-like naming component, the rendering of a single
/// hierarchical path element. Never empty.
pub struct Identifier {
    text: String,
}

impl View for Identifier {
    type V = Seq<char>;

    closed spec fn view(&self) -> Seq<char> {
        self.text@
    }
}

impl Identifier {
    #[verifier::type_invariant]
    spec fn wf(self) -> bool {
        self.text@.len() > 0
    }

    /// Wrap a non-empty component text.
    pub fn new(text: String) -> (r: Identifier)
        requires
            text@.len() > 0,
        ensures
            r@ == text@,
    {
        Identifier { text }
    }

    /// The component's text, verbatim. It is never empty: construction
    /// rules the empty text out.
    pub fn as_str(&self) -> (r: &str)
        ensures
            r@ == self@,
            r@.len() > 0,
    {
        proof {
            use_type_invariant(self);
        }
        self.text.as_str()
    }
}

/// The texts of the sub-segments that the components of an identifier list
/// contribute, in order.
pub open spec fn ident_texts(ids: Seq<Identifier>) -> Seq<Seq<char>> {
    ids.map_values(|id: Identifier| id@)
}

/// One naming segment: any value that renders itself as one or more
/// sub-segments of a symbol under construction. A closed set of variants
/// stands in for open-ended polymorphism over "can append itself".
pub enum Segment {
    /// A bare textual name, one sub-segment, rendered verbatim.
    Text(String),
    /// An unsigned index, one sub-segment, rendered in decimal; used to
    /// disambiguate otherwise identical generated helper names.
    Index(usize),
    /// A single hierarchical path component, one sub-segment.
    Identifier(Identifier),
    /// A previously built symbol, nested verbatim as one sub-segment,
    /// internal separators and all.
    NestedSymbol(Symbol),
    /// An ordered namespace path: each component becomes its own
    /// sub-segment, in order.
    NamespacePath(Vec<Identifier>),
    /// A namespace path followed by one terminal identifier: the path's
    /// components first, the identifier last.
    QualifiedName(Vec<Identifier>, Identifier),
}

/// The texts of the sub-segments a segment expands into, left to right,
/// depth first.
pub open spec fn seg_parts(seg: Segment) -> Seq<Seq<char>> {
    match seg {
        Segment::Text(t) => seq![t@],
        Segment::Index(n) => seq![decimal_chars(n as nat)],
        Segment::Identifier(id) => seq![id@],
        Segment::NestedSymbol(s) => seq![s@],
        Segment::NamespacePath(ids) => ident_texts(ids@),
        Segment::QualifiedName(ids, id) => ident_texts(ids@).push(id@),
    }
}

/// The sub-segment texts of a whole segment list, in order.
pub open spec fn list_parts(segs: Seq<Segment>) -> Seq<Seq<char>>
    decreases segs.len(),
{
    if segs.len() == 0 {
        Seq::empty()
    } else {
        seg_parts(segs.first()) + list_parts(segs.drop_first())
    }
}

/// The accumulator text after appending each of `parts` in turn.
pub open spec fn appended(acc: Seq<char>, parts: Seq<Seq<char>>) -> Seq<char>
    decreases parts.len(),
{
    if parts.len() == 0 {
        acc
    } else {
        appended(pushed(acc, parts.first()), parts.drop_first())
    }
}

/// The full rendering of a list of sub-segments: the parts joined by single
/// separators, with none leading and none trailing.
pub open spec fn joined(parts: Seq<Seq<char>>) -> Seq<char>
    decreases parts.len(),
{
    if parts.len() == 0 {
        Seq::empty()
    } else if parts.len() == 1 {
        parts.first()
    } else {
        parts.first() + seq![SEPARATOR] + joined(parts.drop_first())
    }
}

/// Construction succeeds exactly when there is something to append and the
/// first appended text is not empty; an empty first rendering onto the empty
/// accumulator is the one append that fails to lengthen it.
pub open spec fn buildable(parts: Seq<Seq<char>>) -> bool {
    parts.len() > 0 && parts[0].len() > 0
}

/// Appending a further sub-segment extends the accumulated parts at the end.
pub proof fn lemma_list_parts_push(segs: Seq<Segment>, seg: Segment)
    ensures
        list_parts(segs.push(seg)) == list_parts(segs) + seg_parts(seg),
    decreases segs.len(),
{
    if segs.len() == 0 {
        let p = segs.push(seg);
        assert(p.first() == seg);
        assert(p.drop_first().len() == 0);
        assert(list_parts(p) == seg_parts(seg) + list_parts(p.drop_first()));
        assert(list_parts(p.drop_first()) == Seq::<Seq<char>>::empty());
        assert(list_parts(segs) == Seq::<Seq<char>>::empty());
        assert(seg_parts(seg) + Seq::<Seq<char>>::empty() =~= Seq::<Seq<char>>::empty()
            + seg_parts(seg));
    } else {
        let p = segs.push(seg);
        assert(p.first() == segs.first());
        assert(p.drop_first() =~= segs.drop_first().push(seg));
        lemma_list_parts_push(segs.drop_first(), seg);
        assert(list_parts(p) == seg_parts(segs.first()) + (list_parts(segs.drop_first())
            + seg_parts(seg)));
        assert(list_parts(segs) == seg_parts(segs.first()) + list_parts(segs.drop_first()));
        assert(seg_parts(segs.first()) + (list_parts(segs.drop_first()) + seg_parts(seg)) =~= (
        seg_parts(segs.first()) + list_parts(segs.drop_first())) + seg_parts(seg));
    }
}

/// The parts of a segment list split around any position.
pub proof fn lemma_list_parts_split(segs: Seq<Segment>, i: int)
    requires
        0 <= i <= segs.len(),
    ensures
        list_parts(segs) == list_parts(segs.take(i)) + list_parts(segs.skip(i)),
    decreases i,
{
    if i == 0 {
        assert(segs.take(0) =~= Seq::<Segment>::empty());
        assert(segs.skip(0) =~= segs);
        assert(list_parts(segs) =~= list_parts(segs.take(0)) + list_parts(segs.skip(0)));
    } else {
        assert(segs.take(i).first() == segs.first());
        assert(segs.take(i).drop_first() =~= segs.drop_first().take(i - 1));
        assert(segs.skip(i) =~= segs.drop_first().skip(i - 1));
        lemma_list_parts_split(segs.drop_first(), i - 1);
        assert(list_parts(segs) =~= list_parts(segs.take(i)) + list_parts(segs.skip(i)));
    }
}

/// Appending a concatenation of part lists is appending one after the other.
pub proof fn lemma_appended_concat(acc: Seq<char>, a: Seq<Seq<char>>, b: Seq<Seq<char>>)
    ensures
        appended(acc, a + b) == appended(appended(acc, a), b),
    decreases a.len(),
{
    if a.len() == 0 {
        assert(a + b =~= b);
    } else {
        assert((a + b).first() == a.first());
        assert((a + b).drop_first() =~= a.drop_first() + b);
        lemma_appended_concat(pushed(acc, a.first()), a.drop_first(), b);
    }
}

/// Appending one more part onto an accumulated list.
pub proof fn lemma_appended_push(acc: Seq<char>, parts: Seq<Seq<char>>, part: Seq<char>)
    ensures
        appended(acc, parts.push(part)) == pushed(appended(acc, parts), part),
    decreases parts.len(),
{
    assert(parts.push(part) =~= parts + seq![part]);
    lemma_appended_concat(acc, parts, seq![part]);
    let mid = appended(acc, parts);
    assert(seq![part].drop_first() =~= Seq::<Seq<char>>::empty());
    assert(appended(mid, seq![part]) == appended(pushed(mid, part), Seq::empty()));
    assert(appended(pushed(mid, part), Seq::empty()) == pushed(mid, part));
}

/// Once the accumulator holds text, appending parts to it renders exactly
/// as joining the accumulator followed by those parts.
pub proof fn lemma_appended_joined(acc: Seq<char>, parts: Seq<Seq<char>>)
    requires
        acc.len() > 0,
    ensures
        appended(acc, parts) == joined(seq![acc] + parts),
    decreases parts.len(),
{
    if parts.len() == 0 {
        assert(seq![acc] + parts =~= seq![acc]);
        assert(joined(seq![acc]) == acc);
    } else {
        let stepped = acc + seq![SEPARATOR] + parts.first();
        assert(pushed(acc, parts.first()) == stepped);
        lemma_appended_joined(stepped, parts.drop_first());
        let lhs = seq![acc] + parts;
        assert(lhs.first() == acc);
        assert(lhs.drop_first() =~= parts);
        if parts.len() == 1 {
            assert(seq![stepped] + parts.drop_first() =~= seq![stepped]);
            assert(joined(seq![stepped]) == stepped);
            assert(appended(acc, parts) == stepped);
            assert(joined(lhs) == lhs.first() + seq![SEPARATOR] + joined(lhs.drop_first()));
            assert(joined(parts) == parts.first());
            assert(joined(lhs) == acc + seq![SEPARATOR] + parts.first());
        } else {
            let rhs = seq![stepped] + parts.drop_first();
            assert(rhs.first() == stepped);
            assert(rhs.drop_first() =~= parts.drop_first());
            assert(joined(rhs) == stepped + seq![SEPARATOR] + joined(parts.drop_first()));
            assert(joined(lhs) == acc + seq![SEPARATOR] + joined(parts));
            assert(joined(parts) == parts.first() + seq![SEPARATOR] + joined(parts.drop_first()));
            assert(joined(lhs) =~= joined(rhs));
        }
    }
}

/// Building from scratch over a buildable part list renders as the join of
/// the parts, and the result is never empty.
pub proof fn lemma_built_text(parts: Seq<Seq<char>>)
    requires
        buildable(parts),
    ensures
        appended(Seq::empty(), parts) == joined(parts),
        joined(parts).len() > 0,
{
    assert(parts.first() == parts[0]);
    assert(pushed(Seq::empty(), parts.first()) == parts.first());
    lemma_appended_joined(parts.first(), parts.drop_first());
    assert(seq![parts.first()] + parts.drop_first() =~= parts);
    if parts.len() >= 2 {
        assert(joined(parts) == parts.first() + seq![SEPARATOR] + joined(parts.drop_first()));
    }
}

impl Symbol {
    /// The symbol's rendered text, verbatim: no quoting, no escaping.
    pub fn as_str(&self) -> (r: &str)
        ensures
            r@ == self@,
    {
        self.text.as_str()
    }

    /// Append one rendered sub-segment, separated from what is already there.
    /// Every append must strictly lengthen the text; an append that would not
    /// (an empty rendering onto an empty symbol) is a caller-side logic error
    /// and is ruled out up front.
    fn push(&mut self, part: &str)
        requires
            old(self)@.len() > 0 || part@.len() > 0,
        ensures
            final(self)@ == pushed(old(self)@, part@),
            final(self)@.len() > old(self)@.len(),
    {
        if !self.text.as_str().is_empty() {
            self.text.append("$");
            proof {
                reveal_strlit("$");
                assert(self.text@ =~= old(self)@ + seq![SEPARATOR]);
            }
        }
        self.text.append(part);
        proof {
            assert(self@ =~= pushed(old(self)@, part@));
        }
    }

    /// Build a symbol from a non-empty ordered sequence of identifier-like
    /// components: each becomes one sub-segment, in order.
    pub fn from_idents(ids: &Vec<Identifier>) -> (r: Symbol)
        requires
            ids@.len() > 0,
        ensures
            r@ == joined(ident_texts(ids@)),
            r@.len() > 0,
    {
        let mut symbol = Symbol { text: String::new() };
        let head = &ids[0];
        proof {
            use_type_invariant(head);
        }
        push_idents(ids, &mut symbol);
        proof {
            assert(ident_texts(ids@)[0] == ids@[0]@);
            lemma_built_text(ident_texts(ids@));
        }
        symbol
    }

    /// Derive a new symbol whose text is `prefix` followed immediately by
    /// this symbol's text, with no separator in between; the base symbol is
    /// left untouched and stays reusable. Used, for example, to name a
    /// generated container specialization after its element type's symbol.
    pub fn prefix_with(&self, prefix: &str) -> (r: Symbol)
        ensures
            r@ == prefix@ + self@,
    {
        Symbol { text: prefix.to_owned().concat(self.text.as_str()) }
    }
}

/// Append every component of an identifier list, each as its own
/// sub-segment, in order.
fn push_idents(ids: &Vec<Identifier>, symbol: &mut Symbol)
    ensures
        final(symbol)@ == appended(old(symbol)@, ident_texts(ids@)),
{
    proof {
        assert(ident_texts(ids@.take(0)).len() == 0);
        assert(appended(old(symbol)@, ident_texts(ids@.take(0))) == old(symbol)@);
    }
    for i in 0..ids.len()
        invariant
            symbol@ == appended(old(symbol)@, ident_texts(ids@.take(i as int))),
    {
        let id = &ids[i];
        symbol.push(id.as_str());
        proof {
            let done = ids@.take(i as int);
            assert(ids@.take(i as int + 1) =~= done.push(ids@[i as int]));
            assert(ident_texts(done.push(ids@[i as int])) =~= ident_texts(done).push(
                ids@[i as int]@,
            ));
            lemma_appended_push(old(symbol)@, ident_texts(done), ids@[i as int]@);
        }
    }
    proof {
        assert(ids@.take(ids@.len() as int) =~= ids@);
    }
}

impl Segment {
    /// Render this segment into `symbol`: every variant appends its
    /// sub-segments in order, left to right, a compound segment fully before
    /// anything that follows it. The first text ever appended to an empty
    /// symbol must be non-empty; the rest is unconditional.
    pub fn write(&self, symbol: &mut Symbol)
        requires
            old(symbol)@.len() > 0 || seg_parts(*self).len() == 0 || seg_parts(
                *self,
            )[0].len() > 0,
        ensures
            final(symbol)@ == appended(old(symbol)@, seg_parts(*self)),
    {
        match self {
            Segment::Text(t) => {
                symbol.push(t.as_str());
                proof {
                    lemma_appended_single(old(symbol)@, t@);
                }
            },
            Segment::Index(n) => {
                let rendered = decimal_string(*n);
                proof {
                    lemma_decimal_chars_nonempty(*n as nat);
                }
                symbol.push(rendered.as_str());
                proof {
                    lemma_appended_single(old(symbol)@, decimal_chars(*n as nat));
                }
            },
            Segment::Identifier(id) => {
                symbol.push(id.as_str());
                proof {
                    lemma_appended_single(old(symbol)@, id@);
                }
            },
            Segment::NestedSymbol(nested) => {
                let rendered = nested.as_str();
                symbol.push(rendered);
                proof {
                    lemma_appended_single(old(symbol)@, nested@);
                }
            },
            Segment::NamespacePath(ids) => {
                push_idents(ids, symbol);
            },
            Segment::QualifiedName(ids, id) => {
                push_idents(ids, symbol);
                symbol.push(id.as_str());
                proof {
                    lemma_appended_push(old(symbol)@, ident_texts(ids@), id@);
                }
            },
        }
    }
}

/// Build a symbol from an explicit, ordered list of naming segments. The
/// list must expand to at least one sub-segment, and the first sub-segment's
/// text must be non-empty; every further append lengthens the text by
/// itself.
pub fn join(segments: &Vec<Segment>) -> (r: Symbol)
    requires
        buildable(list_parts(segments@)),
    ensures
        r@ == joined(list_parts(segments@)),
        r@.len() > 0,
{
    let mut symbol = Symbol { text: String::new() };
    proof {
        assert(list_parts(segments@.take(0)).len() == 0);
        assert(appended(Seq::empty(), list_parts(segments@.take(0))) == Seq::<char>::empty());
    }
    for i in 0..segments.len()
        invariant
            symbol@ == appended(Seq::empty(), list_parts(segments@.take(i as int))),
            buildable(list_parts(segments@)),
    {
        let seg = &segments[i];
        proof {
            let done = list_parts(segments@.take(i as int));
            lemma_list_parts_split(segments@, i as int);
            if symbol@.len() == 0 && seg_parts(segments@[i as int]).len() > 0 {
                if done.len() > 0 {
                    assert(done[0] == list_parts(segments@)[0]);
                    lemma_built_text(done);
                }
                let rest = segments@.skip(i as int);
                assert(rest.first() == segments@[i as int]);
                assert(rest.drop_first() =~= segments@.skip(i as int + 1));
                assert(list_parts(rest) == seg_parts(segments@[i as int]) + list_parts(
                    segments@.skip(i as int + 1),
                ));
                assert(seg_parts(segments@[i as int])[0] == list_parts(segments@)[0]);
            }
        }
        seg.write(&mut symbol);
        proof {
            let done = list_parts(segments@.take(i as int));
            assert(segments@.take(i as int + 1) =~= segments@.take(i as int).push(
                segments@[i as int],
            ));
            lemma_list_parts_push(segments@.take(i as int), segments@[i as int]);
            lemma_appended_concat(Seq::empty(), done, seg_parts(segments@[i as int]));
        }
    }
    proof {
        assert(segments@.take(segments@.len() as int) =~= segments@);
        lemma_built_text(list_parts(segments@));
    }
    symbol
}

/// Appending a single sub-segment is one push.
proof fn lemma_appended_single(acc: Seq<char>, part: Seq<char>)
    ensures
        appended(acc, seq![part]) == pushed(acc, part),
{
    assert(seq![part].first() == part);
    assert(seq![part].drop_first().len() == 0);
    assert(appended(pushed(acc, part), seq![part].drop_first()) == pushed(acc, part));
}

} // verus!
