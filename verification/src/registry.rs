//! Choosing a crate version for a toolchain.
//!
//! Picks, among a crate's published versions, the highest one whose declared
//! MSRV does not exceed the target toolchain.

use crate::version::{
    lemma_semver_order, padded, parse_version, semver_order, semver_parse, SemVer, VersionOrder, VersionView,
};
use vstd::prelude::*;

verus! {

/// One published version of a crate, as crates.io lists it.
#[derive(Debug)]
pub struct CrateVersion {
    pub num: String,
    pub yanked: bool,
    pub rust_version: Option<String>,
}

/// The version that `num` parses to (meaningful where it parses).
pub open spec fn parsed_num(v: CrateVersion) -> VersionView {
    semver_parse(padded(v.num@))->0
}

/// A release that may be picked at all: not yanked, parseable, and not a
/// pre-release.
pub open spec fn is_candidate(v: CrateVersion) -> bool {
    &&& !v.yanked
    &&& semver_parse(padded(v.num@)) is Some
    &&& parsed_num(v).pre.len() == 0
}

/// A version whose declared minimum Rust version, if any, parses and does
/// not exceed `toolchain`.
pub open spec fn fits(v: CrateVersion, toolchain: VersionView) -> bool {
    match v.rust_version {
        None => true,
        Some(rv) => semver_parse(padded(rv@)) matches Some(r)
            && semver_order(r, toolchain) != VersionOrder::Greater,
    }
}

/// A candidate that fits `toolchain`.
pub open spec fn is_eligible(v: CrateVersion, toolchain: VersionView) -> bool {
    is_candidate(v) && fits(v, toolchain)
}

/// An eligible version that is also below `below`, where a bound is given.
pub open spec fn is_eligible_below(v: CrateVersion, toolchain: VersionView, below: Option<VersionView>) -> bool {
    &&& is_eligible(v, toolchain)
    &&& below matches Some(b) ==> semver_order(parsed_num(v), b) == VersionOrder::Less
}

/// The index of the highest version eligible below `below`: the earliest
/// one listed among those that no other such version exceeds.
pub open spec fn highest_eligible(
    versions: Seq<CrateVersion>,
    toolchain: VersionView,
    below: Option<VersionView>,
) -> Option<int>
    decreases versions.len(),
{
    if versions.len() == 0 {
        None
    } else {
        let i = versions.len() - 1;
        let prev = highest_eligible(versions.drop_last(), toolchain, below);
        if !is_eligible_below(versions[i], toolchain, below) {
            prev
        } else {
            match prev {
                None => Some(i),
                Some(j) => if semver_order(parsed_num(versions[i]), parsed_num(versions[j]))
                    == VersionOrder::Greater {
                    Some(i)
                } else {
                    Some(j)
                },
            }
        }
    }
}

/// The highest eligible version is one of the listed ones.
pub proof fn lemma_highest_eligible_in_range(
    versions: Seq<CrateVersion>,
    toolchain: VersionView,
    below: Option<VersionView>,
)
    ensures
        highest_eligible(versions, toolchain, below) matches Some(i) ==> 0 <= i < versions.len(),
    decreases versions.len(),
{
    if versions.len() > 0 {
        lemma_highest_eligible_in_range(versions.drop_last(), toolchain, below);
    }
}

/// The highest eligible version is eligible, and no eligible version is
/// above it; there is none exactly when nothing is eligible.
pub proof fn lemma_highest_eligible_is_highest(
    versions: Seq<CrateVersion>,
    toolchain: VersionView,
    below: Option<VersionView>,
)
    ensures
        match highest_eligible(versions, toolchain, below) {
            Some(i) => {
                &&& 0 <= i < versions.len()
                &&& is_eligible_below(versions[i], toolchain, below)
                &&& forall|j: int| 0 <= j < versions.len() && is_eligible_below(#[trigger] versions[j], toolchain, below)
                    ==> semver_order(parsed_num(versions[j]), parsed_num(versions[i])) != VersionOrder::Greater
            },
            None => forall|j: int| 0 <= j < versions.len() ==> !is_eligible_below(#[trigger] versions[j], toolchain, below),
        },
    decreases versions.len(),
{
    if versions.len() > 0 {
        let rest = versions.drop_last();
        let last = versions.len() - 1;
        lemma_highest_eligible_is_highest(rest, toolchain, below);
        let top = parsed_num(versions[last]);
        lemma_semver_order(top, top, top);
        assert forall|j: int| 0 <= j < last implies #[trigger] versions[j] == rest[j] by {}
        match highest_eligible(rest, toolchain, below) {
            Some(k) => {
                assert(versions[k] == rest[k]);
                if is_eligible_below(versions[last], toolchain, below) {
                    let a = parsed_num(versions[last]);
                    let b = parsed_num(versions[k]);
                    if semver_order(a, b) == VersionOrder::Greater {
                        assert forall|j: int| 0 <= j < versions.len() && is_eligible_below(#[trigger] versions[j], toolchain, below)
                            implies semver_order(parsed_num(versions[j]), a) != VersionOrder::Greater by {
                            if j < last {
                                assert(versions[j] == rest[j]);
                                lemma_semver_order(parsed_num(versions[j]), b, a);
                                lemma_semver_order(a, b, a);
                            }
                        }
                    } else {
                        assert forall|j: int| 0 <= j < versions.len() && is_eligible_below(#[trigger] versions[j], toolchain, below)
                            implies semver_order(parsed_num(versions[j]), b) != VersionOrder::Greater by {
                            if j < last {
                                assert(versions[j] == rest[j]);
                            }
                        }
                    }
                } else {
                    assert forall|j: int| 0 <= j < versions.len() && is_eligible_below(#[trigger] versions[j], toolchain, below)
                        implies semver_order(parsed_num(versions[j]), parsed_num(versions[k])) != VersionOrder::Greater by {
                        if j < last {
                            assert(versions[j] == rest[j]);
                        }
                    }
                }
            },
            None => {
                assert forall|j: int| 0 <= j < last implies !is_eligible_below(#[trigger] versions[j], toolchain, below) by {
                    assert(versions[j] == rest[j]);
                }
            },
        }
    }
}

/// A yanked version is never picked, whatever it declares: the version
/// picked, with or without a bound, is not yanked, and a listing whose
/// versions are all yanked yields none.
pub proof fn lemma_never_picks_yanked(
    versions: Seq<CrateVersion>,
    toolchain: VersionView,
    below: Option<VersionView>,
)
    ensures
        highest_eligible(versions, toolchain, below) matches Some(i) ==> !versions[i].yanked,
        (forall|j: int| 0 <= j < versions.len() ==> (#[trigger] versions[j]).yanked)
            ==> highest_eligible(versions, toolchain, below) is None,
{
    lemma_highest_eligible_is_highest(versions, toolchain, below);
}

/// What fits an older toolchain fits a newer one too.
pub proof fn lemma_fits_newer_toolchain(v: CrateVersion, older: VersionView, newer: VersionView)
    requires
        semver_order(older, newer) != VersionOrder::Greater,
    ensures
        fits(v, older) ==> fits(v, newer),
{
    if fits(v, older) && v.rust_version is Some {
        let r = semver_parse(padded(v.rust_version->0@))->0;
        lemma_semver_order(r, older, newer);
    }
}

/// A newer toolchain never gets no version, or a lower version, where an
/// older one gets one.
pub proof fn lemma_newer_toolchain_selects_no_lower(
    versions: Seq<CrateVersion>,
    older: VersionView,
    newer: VersionView,
)
    requires
        semver_order(older, newer) != VersionOrder::Greater,
        highest_eligible(versions, older, None) is Some,
    ensures
        highest_eligible(versions, newer, None) matches Some(b)
            && semver_order(
                parsed_num(versions[b]),
                parsed_num(versions[highest_eligible(versions, older, None)->0]),
            ) != VersionOrder::Less,
{
    let a = highest_eligible(versions, older, None)->0;
    lemma_highest_eligible_is_highest(versions, older, None);
    lemma_highest_eligible_is_highest(versions, newer, None);
    lemma_fits_newer_toolchain(versions[a], older, newer);
    assert(is_eligible_below(versions[a], newer, None));
    let b = highest_eligible(versions, newer, None)->0;
    lemma_semver_order(parsed_num(versions[a]), parsed_num(versions[b]), parsed_num(versions[a]));
}

/// The view of an optional bound.
pub open spec fn bound_view(below: Option<&SemVer>) -> Option<VersionView> {
    match below {
        Some(b) => Some(b@),
        None => None,
    }
}

/// Whether `v` is a release that fits `toolchain_version` (and lies below
/// `below`, where given); if so, the version it names.
fn eligible_version(v: &CrateVersion, toolchain_version: &SemVer, below: Option<&SemVer>) -> (r: Option<SemVer>)
    ensures
        match r {
            Some(p) => is_eligible_below(*v, toolchain_version@, bound_view(below)) && p@ == parsed_num(*v),
            None => !is_eligible_below(*v, toolchain_version@, bound_view(below)),
        },
{
    if v.yanked {
        return None;
    }
    let parsed = match parse_version(v.num.as_str()) {
        Ok(p) => p,
        Err(_) => return None,
    };
    if !parsed.is_release() {
        return None;
    }
    let compatible = match &v.rust_version {
        None => true,
        Some(rv) => match parse_version(rv.as_str()) {
            Ok(r) => r.order(toolchain_version) != VersionOrder::Greater,
            Err(_) => false,
        },
    };
    if !compatible {
        return None;
    }
    match below {
        Some(b) => if parsed.order(b) == VersionOrder::Less {
            Some(parsed)
        } else {
            None
        },
        None => Some(parsed),
    }
}

/// The highest listed version eligible below `below`.
fn highest_fitting(versions: &[CrateVersion], toolchain_version: &SemVer, below: Option<&SemVer>) -> (r: Option<String>)
    ensures
        match highest_eligible(versions@, toolchain_version@, bound_view(below)) {
            Some(i) => 0 <= i < versions@.len() && (r matches Some(num) && num@ == versions@[i].num@),
            None => r is None,
        },
        r is None <==> forall|i: int| 0 <= i < versions@.len()
            ==> !is_eligible_below(#[trigger] versions@[i], toolchain_version@, bound_view(below)),
        r matches Some(num) ==> exists|i: int| 0 <= i < versions@.len()
            && is_eligible_below(#[trigger] versions@[i], toolchain_version@, bound_view(below))
            && num@ == versions@[i].num@
            && forall|j: int| 0 <= j < versions@.len()
                && is_eligible_below(#[trigger] versions@[j], toolchain_version@, bound_view(below))
                ==> semver_order(parsed_num(versions@[j]), parsed_num(versions@[i])) != VersionOrder::Greater,
{
    let ghost tc = toolchain_version@;
    let ghost bv = bound_view(below);
    let mut best: Option<(usize, SemVer)> = None;
    let mut i: usize = 0;
    while i < versions.len()
        invariant
            i <= versions@.len(),
            tc == toolchain_version@,
            bv == bound_view(below),
            match best {
                None => highest_eligible(versions@.take(i as int), tc, bv) is None
                    && forall|j: int| 0 <= j < i ==> !is_eligible_below(#[trigger] versions@[j], tc, bv),
                Some((b, v)) => {
                    &&& highest_eligible(versions@.take(i as int), tc, bv) == Some(b as int)
                    &&& b < i
                    &&& is_eligible_below(versions@[b as int], tc, bv)
                    &&& v@ == parsed_num(versions@[b as int])
                    &&& forall|j: int| 0 <= j < i && is_eligible_below(#[trigger] versions@[j], tc, bv)
                        ==> semver_order(parsed_num(versions@[j]), v@) != VersionOrder::Greater
                },
            },
        decreases versions.len() - i,
    {
        let ghost prefix = versions@.take(i + 1);
        assert(prefix.drop_last() == versions@.take(i as int));
        assert(prefix[i as int] == versions@[i as int]);
        match eligible_version(&versions[i], toolchain_version, below) {
            None => {},
            Some(p) => {
                let replace = match &best {
                    None => true,
                    Some((_, v)) => p.order(v) == VersionOrder::Greater,
                };
                if replace {
                    proof {
                        lemma_semver_order(p@, p@, p@);
                        if let Some((b, v)) = &best {
                            assert forall|j: int| 0 <= j < i + 1 && is_eligible_below(#[trigger] versions@[j], tc, bv)
                                implies semver_order(parsed_num(versions@[j]), p@) != VersionOrder::Greater by {
                                if j < i {
                                    lemma_semver_order(parsed_num(versions@[j]), v@, p@);
                                    lemma_semver_order(p@, v@, p@);
                                }
                            }
                        }
                    }
                    best = Some((i, p));
                } else {
                    proof {
                        if let Some((b, v)) = &best {
                            assert(semver_order(p@, v@) != VersionOrder::Greater);
                        }
                    }
                }
            },
        }
        i = i + 1;
    }
    assert(versions@.take(versions@.len() as int) == versions@);
    proof {
        lemma_highest_eligible_in_range(versions@, tc, bv);
    }
    match best {
        None => None,
        Some((b, _)) => Some(versions[b].num.clone()),
    }
}

/// Among non-yanked, non-pre-release `versions`, the highest one whose
/// `rust_version` does not exceed `toolchain_version` (or has none).
pub fn select_compatible_version(versions: &[CrateVersion], toolchain_version: &SemVer) -> (r: Option<String>)
    ensures
        match highest_eligible(versions@, toolchain_version@, None) {
            Some(i) => 0 <= i < versions@.len() && (r matches Some(num) && num@ == versions@[i].num@),
            None => r is None,
        },
        r is None <==> forall|i: int| 0 <= i < versions@.len() ==> !is_eligible(#[trigger] versions@[i], toolchain_version@),
        r matches Some(num) ==> exists|i: int| 0 <= i < versions@.len()
            && is_eligible(#[trigger] versions@[i], toolchain_version@)
            && num@ == versions@[i].num@
            && forall|j: int| 0 <= j < versions@.len() && is_eligible(#[trigger] versions@[j], toolchain_version@)
                ==> semver_order(parsed_num(versions@[j]), parsed_num(versions@[i])) != VersionOrder::Greater,
{
    highest_fitting(versions, toolchain_version, None)
}

/// Among non-yanked, non-pre-release `versions` below `current`, the highest
/// one whose `rust_version` does not exceed `toolchain_version` (or has
/// none): the version a dependent is downgraded to.
pub fn select_downgrade_version(versions: &[CrateVersion], toolchain_version: &SemVer, current: &SemVer) -> (r: Option<String>)
    ensures
        match highest_eligible(versions@, toolchain_version@, Some(current@)) {
            Some(i) => 0 <= i < versions@.len() && (r matches Some(num) && num@ == versions@[i].num@),
            None => r is None,
        },
        r is None <==> forall|i: int| 0 <= i < versions@.len()
            ==> !is_eligible_below(#[trigger] versions@[i], toolchain_version@, Some(current@)),
        r matches Some(num) ==> exists|i: int| 0 <= i < versions@.len()
            && is_eligible_below(#[trigger] versions@[i], toolchain_version@, Some(current@))
            && num@ == versions@[i].num@
            && forall|j: int| 0 <= j < versions@.len()
                && is_eligible_below(#[trigger] versions@[j], toolchain_version@, Some(current@))
                ==> semver_order(parsed_num(versions@[j]), parsed_num(versions@[i])) != VersionOrder::Greater,
{
    highest_fitting(versions, toolchain_version, Some(current))
}

} // verus!
