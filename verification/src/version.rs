//! Semantic versions and toolchain version strings.
//!
//! Parses a possibly-abbreviated version string (e.g. "1.75") into a full
//! semantic version, and compares versions by semver precedence.

use crate::error::PinError;
use crate::precedence::{build_order, chains, lemma_build_order, lemma_prerelease_order, prerelease_order};
use crate::text::{count_char, lemma_occurrences_concat, occurrences};
use vstd::prelude::*;

verus! {

/// `semver::Version`, held inside [`SemVer`].
#[verifier::external_type_specification]
#[verifier::external_body]
pub struct ExSemverVersion(semver::Version);

/// What a version says: its three numbers, its pre-release tag and its
/// build metadata (each tag empty when absent).
pub struct VersionView {
    pub major: u64,
    pub minor: u64,
    pub patch: u64,
    pub pre: Seq<char>,
    pub build: Seq<char>,
}

/// How one version stands to another.
#[derive(Clone, Copy, Debug, PartialEq, Eq, Structural)]
pub enum VersionOrder {
    Less,
    Equal,
    Greater,
}

/// The order with the two sides swapped.
pub open spec fn flipped(o: VersionOrder) -> VersionOrder {
    match o {
        VersionOrder::Less => VersionOrder::Greater,
        VersionOrder::Equal => VersionOrder::Equal,
        VersionOrder::Greater => VersionOrder::Less,
    }
}

/// How `a` stands to `b` as numbers.
pub open spec fn number_order(a: u64, b: u64) -> VersionOrder {
    if a < b {
        VersionOrder::Less
    } else if a == b {
        VersionOrder::Equal
    } else {
        VersionOrder::Greater
    }
}

/// How `a` stands to `b` by major, then minor, then patch number.
pub open spec fn triple_order(a: VersionView, b: VersionView) -> VersionOrder {
    if a.major != b.major {
        number_order(a.major, b.major)
    } else if a.minor != b.minor {
        number_order(a.minor, b.minor)
    } else {
        number_order(a.patch, b.patch)
    }
}

/// A semantic version.
#[derive(Debug, PartialEq, Eq)]
pub struct SemVer {
    major: u64,
    minor: u64,
    patch: u64,
    pre: String,
    build: String,
    inner: semver::Version,
}

impl View for SemVer {
    type V = VersionView;

    closed spec fn view(&self) -> VersionView {
        VersionView {
            major: self.major,
            minor: self.minor,
            patch: self.patch,
            pre: self.pre@,
            build: self.build@,
        }
    }
}

/// What `semver::Version::parse` makes of a text: the version, or `None`
/// where it refuses the text.
pub uninterp spec fn semver_parse(text: Seq<char>) -> Option<VersionView>;

/// How pre-release tags stand: a release (no tag) is above any
/// pre-release; two releases are equal.
pub open spec fn pre_order(a: Seq<char>, b: Seq<char>) -> VersionOrder {
    if a.len() == 0 && b.len() == 0 {
        VersionOrder::Equal
    } else if a.len() == 0 {
        VersionOrder::Greater
    } else if b.len() == 0 {
        VersionOrder::Less
    } else {
        prerelease_order(a, b)
    }
}

/// How build metadata stands (two absent ones are equal).
pub open spec fn meta_order(a: Seq<char>, b: Seq<char>) -> VersionOrder {
    build_order(a, b)
}

/// How `a` stands to `b` under `semver::Version`'s derived `Ord`: by the
/// three numbers, then the pre-release tag, then the build metadata.
pub open spec fn semver_order(a: VersionView, b: VersionView) -> VersionOrder {
    if triple_order(a, b) != VersionOrder::Equal {
        triple_order(a, b)
    } else if pre_order(a.pre, b.pre) != VersionOrder::Equal {
        pre_order(a.pre, b.pre)
    } else {
        meta_order(a.build, b.build)
    }
}

/// Pre-release order, with releases above all pre-releases, is
/// antisymmetric and chains.
pub proof fn lemma_pre_order(a: Seq<char>, b: Seq<char>, c: Seq<char>)
    ensures
        pre_order(a, b) == flipped(pre_order(b, a)),
        chains(pre_order(a, b), pre_order(b, c), pre_order(a, c)),
{
    lemma_prerelease_order(a, b, c);
}

/// Semver precedence is antisymmetric and chains as a total order's does;
/// a version is equal to itself.
pub proof fn lemma_semver_order(a: VersionView, b: VersionView, c: VersionView)
    ensures
        semver_order(a, b) == flipped(semver_order(b, a)),
        chains(semver_order(a, b), semver_order(b, c), semver_order(a, c)),
        semver_order(a, a) == VersionOrder::Equal,
{
    lemma_pre_order(a.pre, b.pre, c.pre);
    lemma_pre_order(a.pre, a.pre, a.pre);
    lemma_build_order(a.build, b.build, c.build);
    lemma_build_order(a.build, a.build, a.build);
}

/// `semver::Version::parse`: the result is what [`semver_parse`] names.
#[verifier::external_body]
fn parse_semver(text: &str) -> (r: Result<SemVer, semver::Error>)
    ensures
        match r {
            Ok(v) => semver_parse(text@) == Some(v@),
            Err(_) => semver_parse(text@) is None,
        },
{
    match semver::Version::parse(text) {
        Ok(v) => Ok(SemVer {
            major: v.major,
            minor: v.minor,
            patch: v.patch,
            pre: v.pre.as_str().to_owned(),
            build: v.build.as_str().to_owned(),
            inner: v,
        }),
        Err(e) => Err(e),
    }
}

/// `semver::Version::new`: the given numbers, with no pre-release tag and
/// no build metadata (as its documentation says).
#[verifier::external_body]
fn new_semver(major: u64, minor: u64, patch: u64) -> (v: SemVer)
    ensures
        v@ == (VersionView { major, minor, patch, pre: Seq::empty(), build: Seq::empty() }),
{
    let inner = semver::Version::new(major, minor, patch);
    SemVer {
        major,
        minor,
        patch,
        pre: inner.pre.as_str().to_owned(),
        build: inner.build.as_str().to_owned(),
        inner,
    }
}

/// `Ord::cmp` of `semver::Version`, which is derived: major, minor, patch,
/// pre-release, then build metadata, in that order, as [`semver_order`]
/// spells out. An empty tag is the shared empty identifier, so two empty
/// tags are `Equal`; an empty pre-release tag is above a non-empty one
/// (`Prerelease::cmp`). Non-empty pre-release tags and build metadata are
/// compared identifier by identifier as `Prerelease::cmp` and
/// `BuildMetadata::cmp` do, which [`prerelease_order`] and [`build_order`]
/// write out. Every `SemVer` holds the `semver::Version` whose fields it
/// copies, since only `parse_semver` and `new_semver` build one.
#[verifier::external_body]
fn semver_cmp_versions(a: &SemVer, b: &SemVer) -> (r: VersionOrder)
    ensures
        r == semver_order(a@, b@),
{
    match a.inner.cmp(&b.inner) {
        std::cmp::Ordering::Less => VersionOrder::Less,
        std::cmp::Ordering::Equal => VersionOrder::Equal,
        std::cmp::Ordering::Greater => VersionOrder::Greater,
    }
}

impl SemVer {
    /// The version `major.minor.patch`, without pre-release tag or build
    /// metadata.
    pub fn new(major: u64, minor: u64, patch: u64) -> (v: SemVer)
        ensures
            v@ == (VersionView { major, minor, patch, pre: Seq::empty(), build: Seq::empty() }),
    {
        new_semver(major, minor, patch)
    }

    /// The major number.
    pub fn major(&self) -> (r: u64)
        ensures
            r == self@.major,
    {
        self.major
    }

    /// The minor number.
    pub fn minor(&self) -> (r: u64)
        ensures
            r == self@.minor,
    {
        self.minor
    }

    /// The patch number.
    pub fn patch(&self) -> (r: u64)
        ensures
            r == self@.patch,
    {
        self.patch
    }

    /// Whether the version has no pre-release tag.
    pub fn is_release(&self) -> (r: bool)
        ensures
            r == (self@.pre.len() == 0),
    {
        self.pre.as_str().is_empty()
    }

    /// How `self` stands to `other` by semver precedence.
    pub fn order(&self, other: &SemVer) -> (r: VersionOrder)
        ensures
            r == semver_order(self@, other@),
            r == flipped(semver_order(other@, self@)),
            self@ == other@ ==> r == VersionOrder::Equal,
    {
        proof {
            lemma_semver_order(self@, other@, self@);
            lemma_semver_order(self@, self@, self@);
        }
        semver_cmp_versions(self, other)
    }

    /// Whether `self` comes before `other`.
    pub fn is_less_than(&self, other: &SemVer) -> (r: bool)
        ensures
            r == (semver_order(self@, other@) == VersionOrder::Less),
    {
        semver_cmp_versions(self, other) == VersionOrder::Less
    }
}

/// The text handed to the semver parser for a version string: a missing
/// minor and patch number are filled in with zeros.
pub open spec fn padded(s: Seq<char>) -> Seq<char> {
    let dots = occurrences(s, '.');
    if dots == 0 {
        s + ".0.0"@
    } else if dots == 1 {
        s + ".0"@
    } else {
        s
    }
}

/// Padding always yields a text with at least the two dots of
/// `major.minor.patch`, and leaves a text that has them as it is.
pub proof fn lemma_padding_completes(s: Seq<char>)
    ensures
        occurrences(padded(s), '.') >= 2,
        occurrences(s, '.') >= 2 ==> padded(s) == s,
        occurrences(s, '.') < 2 ==> s.is_prefix_of(padded(s)),
{
    reveal_strlit(".0.0");
    reveal_strlit(".0");
    let two = ".0.0"@;
    let one = ".0"@;
    assert(occurrences(two, '.') == 2) by {
        reveal_with_fuel(occurrences, 5);
        assert(two.drop_last() =~= seq!['.', '0', '.']);
        assert(two.drop_last().drop_last() =~= seq!['.', '0']);
        assert(two.drop_last().drop_last().drop_last() =~= seq!['.']);
        assert(two.drop_last().drop_last().drop_last().drop_last() =~= Seq::<char>::empty());
    }
    assert(occurrences(one, '.') == 1) by {
        reveal_with_fuel(occurrences, 3);
        assert(one.drop_last() =~= seq!['.']);
        assert(one.drop_last().drop_last() =~= Seq::<char>::empty());
    }
    lemma_occurrences_concat(s, two, '.');
    lemma_occurrences_concat(s, one, '.');
    assert((s + two).subrange(0, s.len() as int) =~= s);
    assert((s + one).subrange(0, s.len() as int) =~= s);
}

/// `s` with its missing minor and patch numbers filled in as `0`.
pub fn pad_version(s: &str) -> (r: String)
    ensures
        r@ == padded(s@),
{
    let dots = count_char(s, '.');
    let mut r = s.to_owned();
    if dots == 0 {
        r.append(".0.0");
    } else if dots == 1 {
        r.append(".0");
    }
    r
}

/// Parse a possibly-abbreviated version string (e.g. "1.75" or "1.75.0") into
/// a full semantic version, padding missing minor/patch components with 0.
pub fn parse_version(s: &str) -> (r: Result<SemVer, PinError>)
    ensures
        match r {
            Ok(v) => semver_parse(padded(s@)) == Some(v@),
            Err(e) => semver_parse(padded(s@)) is None
                && (e matches PinError::InvalidVersion { version, .. } && version@ == s@),
        },
{
    let padded_text = pad_version(s);
    match parse_semver(padded_text.as_str()) {
        Ok(v) => Ok(v),
        Err(source) => Err(PinError::InvalidVersion { version: s.to_owned(), source }),
    }
}

/// The target toolchain, kept in both forms it's needed in: the exact
/// string cargo/rustup expect after `+` (a `SemVer` wouldn't necessarily
/// round-trip to it, e.g. "1.75" pads to "1.75.0"), and the parsed
/// `SemVer` used for MSRV comparisons.
#[derive(Debug)]
pub struct Toolchain {
    pub raw: String,
    pub version: SemVer,
}

impl Toolchain {
    /// The toolchain named `raw`, or the error of parsing it as a version.
    pub fn parse(raw: &str) -> (r: Result<Toolchain, PinError>)
        ensures
            match r {
                Ok(t) => t.raw@ == raw@ && semver_parse(padded(raw@)) == Some(t.version@),
                Err(e) => semver_parse(padded(raw@)) is None
                    && (e matches PinError::InvalidVersion { version, .. } && version@ == raw@),
            },
    {
        let version = parse_version(raw)?;
        Ok(Toolchain { raw: raw.to_owned(), version })
    }

    /// The `+<toolchain>` form `cargo`/`rustup` expect as an argument.
    pub fn arg(&self) -> (r: String)
        ensures
            r@ == "+"@ + self.raw@,
    {
        let mut r = String::new();
        r.append("+");
        r.append(self.raw.as_str());
        r
    }
}

impl SemVer {
    /// The version written exactly as `text` (no padding), or the error of
    /// parsing it.
    pub fn parse(text: &str) -> (r: Result<SemVer, PinError>)
        ensures
            match r {
                Ok(v) => semver_parse(text@) == Some(v@),
                Err(e) => semver_parse(text@) is None
                    && (e matches PinError::InvalidVersion { version, .. } && version@ == text@),
            },
    {
        match parse_semver(text) {
            Ok(v) => Ok(v),
            Err(source) => Err(PinError::InvalidVersion { version: text.to_owned(), source }),
        }
    }
}

/// `semver::VersionReq`, held inside [`Requirement`].
#[verifier::external_type_specification]
#[verifier::external_body]
pub struct ExVersionReq(semver::VersionReq);

/// A version requirement such as `^1.2` or `>=1.0, <2`.
#[derive(Debug)]
pub struct Requirement {
    text: String,
    inner: semver::VersionReq,
}

impl View for Requirement {
    type V = Seq<char>;

    /// The text the requirement was parsed from.
    closed spec fn view(&self) -> Seq<char> {
        self.text@
    }
}

/// Whether `semver::VersionReq::parse` accepts a text.
pub uninterp spec fn semver_req_parses(text: Seq<char>) -> bool;

/// Whether the requirement parsed from `req` matches the version `v`
/// (`semver::VersionReq::matches`).
pub uninterp spec fn semver_req_matches(req: Seq<char>, v: VersionView) -> bool;

/// `semver::VersionReq::parse`: it succeeds exactly where
/// [`semver_req_parses`] says, and the requirement keeps the text it was
/// parsed from.
#[verifier::external_body]
fn parse_semver_req(text: &str) -> (r: Result<Requirement, semver::Error>)
    ensures
        r is Ok <==> semver_req_parses(text@),
        r matches Ok(q) ==> q@ == text@,
{
    match semver::VersionReq::parse(text) {
        Ok(inner) => Ok(Requirement { text: text.to_owned(), inner }),
        Err(e) => Err(e),
    }
}

/// `semver::VersionReq::matches`: the result is what [`semver_req_matches`]
/// names for the requirement's text and the version. Every `Requirement`
/// holds the `semver::VersionReq` parsed from its text, since only
/// `parse_semver_req` builds one.
#[verifier::external_body]
fn semver_req_matches_version(req: &Requirement, v: &SemVer) -> (r: bool)
    ensures
        r == semver_req_matches(req@, v@),
{
    req.inner.matches(&v.inner)
}

impl Requirement {
    /// The requirement written as `text`, if it is one.
    pub fn parse(text: &str) -> (r: Option<Requirement>)
        ensures
            r is Some <==> semver_req_parses(text@),
            r matches Some(q) ==> q@ == text@,
    {
        match parse_semver_req(text) {
            Ok(q) => Some(q),
            Err(_) => None,
        }
    }

    /// Whether `v` satisfies the requirement.
    pub fn matches(&self, v: &SemVer) -> (r: bool)
        ensures
            r == semver_req_matches(self@, v@),
    {
        semver_req_matches_version(self, v)
    }
}

} // verus!
