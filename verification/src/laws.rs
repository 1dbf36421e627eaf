//! The builder's general guarantees, stated once over the rendering model
//! and proved for every input.

use crate::symbol::Identifier;
use crate::symbol::SEPARATOR;
use crate::symbol::Segment;
use crate::symbol::Symbol;
use crate::symbol::joined;
use crate::symbol::lemma_list_parts_push;
use crate::symbol::list_parts;
use crate::symbol::ident_texts;
use crate::symbol::seg_parts;
use vstd::prelude::*;

verus! {

/// How many times `c` occurs in `s`.
pub open spec fn count_char(s: Seq<char>, c: char) -> nat
    decreases s.len(),
{
    if s.len() == 0 {
        0
    } else {
        count_char(s.drop_last(), c) + (if s.last() == c {
            1nat
        } else {
            0nat
        })
    }
}

/// Occurrence counts add up over concatenation.
proof fn lemma_count_char_concat(a: Seq<char>, b: Seq<char>, c: char)
    ensures
        count_char(a + b, c) == count_char(a, c) + count_char(b, c),
    decreases b.len(),
{
    if b.len() == 0 {
        assert(a + b =~= a);
    } else {
        assert((a + b).drop_last() =~= a + b.drop_last());
        assert((a + b).last() == b.last());
        lemma_count_char_concat(a, b.drop_last(), c);
    }
}

/// A text in which `c` never occurs counts zero occurrences.
proof fn lemma_count_char_zero(s: Seq<char>, c: char)
    requires
        forall|j: int| 0 <= j < s.len() ==> s[j] != c,
    ensures
        count_char(s, c) == 0,
    decreases s.len(),
{
    if s.len() > 0 {
        lemma_count_char_zero(s.drop_last(), c);
    }
}

/// Separator placement: joining two or more non-empty, separator-free
/// sub-segments puts exactly one separator between each adjacent pair —
/// one fewer than there are sub-segments — and the builder itself never
/// contributes a leading or a trailing separator.
pub proof fn lemma_separator_placement(parts: Seq<Seq<char>>)
    requires
        parts.len() >= 1,
        forall|i: int| 0 <= i < parts.len() ==> (#[trigger] parts[i]).len() > 0,
        forall|i: int, j: int|
            0 <= i < parts.len() && 0 <= j < parts[i].len() ==> (#[trigger] parts[i][j])
                != SEPARATOR,
    ensures
        count_char(joined(parts), SEPARATOR) == parts.len() - 1,
        joined(parts).first() != SEPARATOR,
        joined(parts).last() != SEPARATOR,
    decreases parts.len(),
{
    if parts.len() == 1 {
        assert(parts.first() == parts[0]);
        lemma_count_char_zero(parts.first(), SEPARATOR);
    } else {
        let rest = parts.drop_first();
        assert(forall|i: int| 0 <= i < rest.len() ==> (#[trigger] rest[i]).len() > 0) by {
            assert(forall|i: int| 0 <= i < rest.len() ==> rest[i] == parts[i + 1]);
        }
        assert(forall|i: int, j: int|
            0 <= i < rest.len() && 0 <= j < rest[i].len() ==> (#[trigger] rest[i][j])
                != SEPARATOR) by {
            assert(forall|i: int| 0 <= i < rest.len() ==> rest[i] == parts[i + 1]);
        }
        lemma_separator_placement(rest);
        let head = parts.first() + seq![SEPARATOR];
        assert(joined(parts) == parts.first() + seq![SEPARATOR] + joined(rest));
        assert(parts.first() + seq![SEPARATOR] + joined(rest) =~= head + joined(rest));
        lemma_count_char_concat(head, joined(rest), SEPARATOR);
        lemma_count_char_concat(parts.first(), seq![SEPARATOR], SEPARATOR);
        lemma_count_char_zero(parts.first(), SEPARATOR);
        assert(seq![SEPARATOR].drop_last().len() == 0);
        assert(seq![SEPARATOR].last() == SEPARATOR);
        assert(count_char(seq![SEPARATOR].drop_last(), SEPARATOR) == 0);
        assert(count_char(seq![SEPARATOR], SEPARATOR) == 1);
        assert(joined(parts).first() == parts.first()[0]);
        assert(joined(parts).last() == joined(rest).last());
    }
}

/// Determinism: a symbol's rendered text is a function of the ordered
/// segment sequence alone, so any two symbols built from the same sequence
/// render identically.
pub proof fn lemma_deterministic(a: Symbol, b: Symbol, segs: Seq<Segment>)
    requires
        a@ == joined(list_parts(segs)),
        b@ == joined(list_parts(segs)),
    ensures
        a@ == b@,
{
}

/// The sub-segments contributed by a list of bare identifier segments are
/// exactly the identifiers' texts.
proof fn lemma_identifier_list_parts(ids: Seq<Identifier>)
    ensures
        list_parts(ids.map_values(|c: Identifier| Segment::Identifier(c))) == ident_texts(ids),
    decreases ids.len(),
{
    let mapped = ids.map_values(|c: Identifier| Segment::Identifier(c));
    if ids.len() == 0 {
        assert(list_parts(mapped) =~= ident_texts(ids));
    } else {
        assert(mapped.first() == Segment::Identifier(ids.first()));
        assert(mapped.drop_first() =~= ids.drop_first().map_values(
            |c: Identifier| Segment::Identifier(c),
        ));
        lemma_identifier_list_parts(ids.drop_first());
        assert(seg_parts(mapped.first()) == seq![ids.first()@]);
        assert(list_parts(mapped) =~= ident_texts(ids));
    }
}

/// Compositionality: one qualified-name segment renders exactly as the
/// explicit segment list of its namespace components followed by its
/// terminal identifier, sub-segment for sub-segment.
pub proof fn lemma_qualified_name_compositional(ns: Vec<Identifier>, id: Identifier)
    ensures
        list_parts(seq![Segment::QualifiedName(ns, id)]) == list_parts(
            ns@.map_values(|c: Identifier| Segment::Identifier(c)).push(Segment::Identifier(id)),
        ),
        joined(list_parts(seq![Segment::QualifiedName(ns, id)])) == joined(
            list_parts(
                ns@.map_values(|c: Identifier| Segment::Identifier(c)).push(
                    Segment::Identifier(id),
                ),
            ),
        ),
{
    let q = Segment::QualifiedName(ns, id);
    assert(seq![q].first() == q);
    assert(seq![q].drop_first().len() == 0);
    assert(list_parts(seq![q].drop_first()).len() == 0);
    assert(list_parts(seq![q]) =~= seg_parts(q));
    let mapped = ns@.map_values(|c: Identifier| Segment::Identifier(c));
    lemma_identifier_list_parts(ns@);
    lemma_list_parts_push(mapped, Segment::Identifier(id));
    assert(seg_parts(Segment::Identifier(id)) == seq![id@]);
    assert(ident_texts(ns@) + seq![id@] =~= ident_texts(ns@).push(id@));
    assert(list_parts(seq![q]) == list_parts(mapped.push(Segment::Identifier(id))));
}

} // verus!
