//! Semver precedence of pre-release tags and build metadata.
//!
//! A tag is a dot-separated list of identifiers, compared identifier by
//! identifier; a tag that runs out first comes first when all identifiers
//! so far are equal. Identifiers made of digits only come before all
//! others and are compared as numbers; the others are compared as text.

use crate::version::{flipped, VersionOrder};
use vstd::prelude::*;

verus! {

/// How `a` stands to `b` as integers.
pub open spec fn int_order(a: int, b: int) -> VersionOrder {
    if a < b {
        VersionOrder::Less
    } else if a == b {
        VersionOrder::Equal
    } else {
        VersionOrder::Greater
    }
}

/// `first`, unless it is `Equal`; then `second`.
pub open spec fn then_order(first: VersionOrder, second: VersionOrder) -> VersionOrder {
    if first != VersionOrder::Equal {
        first
    } else {
        second
    }
}

/// Text order: character by character by code point, a proper prefix
/// first. (`str`'s `Ord` compares UTF-8 bytes, which orders the same way.)
pub open spec fn text_order(a: Seq<char>, b: Seq<char>) -> VersionOrder
    decreases a.len(),
{
    if a.len() == 0 {
        if b.len() == 0 {
            VersionOrder::Equal
        } else {
            VersionOrder::Less
        }
    } else if b.len() == 0 {
        VersionOrder::Greater
    } else if a[0] != b[0] {
        int_order(a[0] as int, b[0] as int)
    } else {
        text_order(a.drop_first(), b.drop_first())
    }
}

/// An identifier made of ASCII digits only (the empty one included).
pub open spec fn is_numeric(s: Seq<char>) -> bool {
    forall|i: int| 0 <= i < s.len() ==> ('0' as int) <= (#[trigger] s[i] as int) <= ('9' as int)
}

/// The identifier without its leading zeros.
pub open spec fn trim_zeros(s: Seq<char>) -> Seq<char>
    decreases s.len(),
{
    if s.len() > 0 && s[0] == '0' {
        trim_zeros(s.drop_first())
    } else {
        s
    }
}

/// How two pre-release identifiers compare: numeric ones by length, then
/// as text (that is, as numbers, since they carry no leading zeros), below
/// all others; the others as text.
pub open spec fn pre_field_order(a: Seq<char>, b: Seq<char>) -> VersionOrder {
    if is_numeric(a) && is_numeric(b) {
        then_order(int_order(a.len() as int, b.len() as int), text_order(a, b))
    } else if is_numeric(a) {
        VersionOrder::Less
    } else if is_numeric(b) {
        VersionOrder::Greater
    } else {
        text_order(a, b)
    }
}

/// How two build-metadata identifiers compare: numeric ones by their value
/// (length and text without leading zeros), then by their whole length,
/// below all others; the others as text.
pub open spec fn build_field_order(a: Seq<char>, b: Seq<char>) -> VersionOrder {
    if is_numeric(a) && is_numeric(b) {
        then_order(
            int_order(trim_zeros(a).len() as int, trim_zeros(b).len() as int),
            then_order(text_order(trim_zeros(a), trim_zeros(b)), int_order(a.len() as int, b.len() as int)),
        )
    } else if is_numeric(a) {
        VersionOrder::Less
    } else if is_numeric(b) {
        VersionOrder::Greater
    } else {
        text_order(a, b)
    }
}

/// How two identifiers compare, in build metadata or in a pre-release tag.
pub open spec fn field_order(a: Seq<char>, b: Seq<char>, build: bool) -> VersionOrder {
    if build {
        build_field_order(a, b)
    } else {
        pre_field_order(a, b)
    }
}

/// Identifier lists compared identifier by identifier; where one list is a
/// proper prefix of the other, it comes first.
pub open spec fn fields_order(x: Seq<Seq<char>>, y: Seq<Seq<char>>, build: bool) -> VersionOrder
    decreases x.len(),
{
    if x.len() == 0 {
        if y.len() == 0 {
            VersionOrder::Equal
        } else {
            VersionOrder::Less
        }
    } else if y.len() == 0 {
        VersionOrder::Greater
    } else {
        then_order(field_order(x[0], y[0], build), fields_order(x.drop_first(), y.drop_first(), build))
    }
}

/// The dot-separated identifiers of a tag, as `str::split('.')` yields them
/// (an empty text gives one empty identifier).
pub open spec fn tag_fields(s: Seq<char>) -> Seq<Seq<char>>
    decreases s.len(),
{
    if s.len() == 0 {
        seq![Seq::empty()]
    } else {
        let rest = tag_fields(s.drop_last());
        if s.last() == '.' {
            rest.push(Seq::empty())
        } else {
            rest.update(rest.len() - 1, rest.last().push(s.last()))
        }
    }
}

/// How two pre-release tags compare (`semver::Prerelease`'s `Ord` on two
/// non-empty tags).
pub open spec fn prerelease_order(a: Seq<char>, b: Seq<char>) -> VersionOrder {
    fields_order(tag_fields(a), tag_fields(b), false)
}

/// How two build-metadata texts compare (`semver::BuildMetadata`'s `Ord`).
pub open spec fn build_order(a: Seq<char>, b: Seq<char>) -> VersionOrder {
    fields_order(tag_fields(a), tag_fields(b), true)
}

/// The orders `ab`, `bc` and `ac` of three values chain as a total order's
/// do: not above and not above give not above, strictly so where either
/// step is strict, and equal and equal give equal.
pub open spec fn chains(ab: VersionOrder, bc: VersionOrder, ac: VersionOrder) -> bool {
    &&& ab != VersionOrder::Greater && bc != VersionOrder::Greater ==> ac != VersionOrder::Greater
    &&& ab == VersionOrder::Less && bc != VersionOrder::Greater ==> ac == VersionOrder::Less
    &&& ab != VersionOrder::Greater && bc == VersionOrder::Less ==> ac == VersionOrder::Less
    &&& ab == VersionOrder::Equal && bc == VersionOrder::Equal ==> ac == VersionOrder::Equal
}

/// Text order is antisymmetric and chains.
pub proof fn lemma_text_order(a: Seq<char>, b: Seq<char>, c: Seq<char>)
    ensures
        text_order(a, b) == flipped(text_order(b, a)),
        chains(text_order(a, b), text_order(b, c), text_order(a, c)),
    decreases a.len(),
{
    if a.len() > 0 && b.len() > 0 && c.len() > 0 {
        lemma_text_order(a.drop_first(), b.drop_first(), c.drop_first());
        if a[0] == b[0] && b[0] == c[0] {
        } else if a[0] == b[0] {
            assert(text_order(a, c) == text_order(b, c));
        } else if b[0] == c[0] {
            assert(text_order(a, c) == text_order(a, b));
        }
    } else if a.len() > 0 && b.len() > 0 {
        lemma_text_order(a.drop_first(), b.drop_first(), c);
    }
}

/// Identifier order is antisymmetric and chains.
pub proof fn lemma_field_order(a: Seq<char>, b: Seq<char>, c: Seq<char>, build: bool)
    ensures
        field_order(a, b, build) == flipped(field_order(b, a, build)),
        chains(field_order(a, b, build), field_order(b, c, build), field_order(a, c, build)),
{
    lemma_text_order(a, b, c);
    lemma_text_order(b, a, c);
    lemma_text_order(trim_zeros(a), trim_zeros(b), trim_zeros(c));
    lemma_text_order(trim_zeros(b), trim_zeros(a), trim_zeros(c));
}

/// Identifier-list order is antisymmetric and chains.
pub proof fn lemma_fields_order(x: Seq<Seq<char>>, y: Seq<Seq<char>>, z: Seq<Seq<char>>, build: bool)
    ensures
        fields_order(x, y, build) == flipped(fields_order(y, x, build)),
        chains(fields_order(x, y, build), fields_order(y, z, build), fields_order(x, z, build)),
    decreases x.len(),
{
    if x.len() > 0 && y.len() > 0 && z.len() > 0 {
        lemma_fields_order(x.drop_first(), y.drop_first(), z.drop_first(), build);
        lemma_field_order(x[0], y[0], z[0], build);
    } else if x.len() > 0 && y.len() > 0 {
        lemma_fields_order(x.drop_first(), y.drop_first(), z, build);
        lemma_field_order(x[0], y[0], x[0], build);
    }
}

/// Pre-release order is antisymmetric and chains.
pub proof fn lemma_prerelease_order(a: Seq<char>, b: Seq<char>, c: Seq<char>)
    ensures
        prerelease_order(a, b) == flipped(prerelease_order(b, a)),
        chains(prerelease_order(a, b), prerelease_order(b, c), prerelease_order(a, c)),
{
    lemma_fields_order(tag_fields(a), tag_fields(b), tag_fields(c), false);
}

/// Build-metadata order is antisymmetric and chains.
pub proof fn lemma_build_order(a: Seq<char>, b: Seq<char>, c: Seq<char>)
    ensures
        build_order(a, b) == flipped(build_order(b, a)),
        chains(build_order(a, b), build_order(b, c), build_order(a, c)),
{
    lemma_fields_order(tag_fields(a), tag_fields(b), tag_fields(c), true);
}

} // verus!
