//! Equality of version strings, tolerant of short forms.
//!
//! A version such as `"1"` or `"1.0"` is first padded to three components,
//! then read as a semantic version. Two versions that can both be read are
//! equal when their numbers and prerelease tags agree; otherwise the two
//! strings are compared as they were given.

use vstd::prelude::*;
use crate::text::{find_sole, occurs_once, str_eq};

verus! {

/// A semantic version, taken apart into plain values.
#[derive(Debug, Clone)]
pub struct SemVer {
    pub major: u64,
    pub minor: u64,
    pub patch: u64,
    /// The prerelease tag without its leading `-`; empty where there is none.
    pub pre: String,
    /// The build metadata without its leading `+`; empty where there is none.
    pub build: String,
}

/// The mathematical value of a `SemVer`.
pub struct SemVerModel {
    pub major: u64,
    pub minor: u64,
    pub patch: u64,
    pub pre: Seq<char>,
    pub build: Seq<char>,
}

impl View for SemVer {
    type V = SemVerModel;

    open spec fn view(&self) -> SemVerModel {
        SemVerModel {
            major: self.major,
            minor: self.minor,
            patch: self.patch,
            pre: self.pre@,
            build: self.build@,
        }
    }
}

/// The model of an optional version.
pub open spec fn parsed_view(p: Option<SemVer>) -> Option<SemVerModel> {
    match p {
        Some(v) => Some(v@),
        None => None,
    }
}

/// What `semver::Version::parse` makes of a text: the parts of the version
/// where the text follows the semantic-version grammar, `None` where it
/// does not.
pub uninterp spec fn semver_parse(text: Seq<char>) -> Option<SemVerModel>;

/// Calls `semver::Version::parse` and hands the parts of the version out as
/// plain values. The grammar is not restated here: the contract names the
/// outcome `semver_parse` and claims only that it depends on the text alone.
#[verifier::external_body]
pub(crate) fn parse_semver(text: &str) -> (r: Option<SemVer>)
    ensures
        parsed_view(r) == semver_parse(text@),
{
    match semver::Version::parse(text) {
        Ok(v) => Some(
            SemVer {
                major: v.major,
                minor: v.minor,
                patch: v.patch,
                pre: v.pre.as_str().to_string(),
                build: v.build.as_str().to_string(),
            },
        ),
        Err(_) => None,
    }
}

/// `c` is one of `0` to `9`.
pub open spec fn is_digit(c: char) -> bool {
    '0' <= c && c <= '9'
}

/// Every character of `v` is an ASCII digit (true of the empty text).
pub open spec fn all_digits(v: Seq<char>) -> bool {
    forall|i: int| 0 <= i < v.len() ==> is_digit(#[trigger] v[i])
}

/// A version text padded to three components: a text of digits alone is a
/// major version and gets `.0.0`; a text with exactly one `.` is
/// `major.minor` and gets `.0`; any other text stays as it is.
pub open spec fn normalized(v: Seq<char>) -> Seq<char> {
    if all_digits(v) {
        v + seq!['.', '0', '.', '0']
    } else if occurs_once(v, '.') {
        v + seq!['.', '0']
    } else {
        v
    }
}

/// The version that a text stands for, if it stands for one.
pub open spec fn canonical(v: Seq<char>) -> Option<SemVerModel> {
    semver_parse(normalized(v))
}

/// Equality of two versions: numbers and prerelease tag agree. Build
/// metadata takes no part.
pub open spec fn same_version(x: SemVerModel, y: SemVerModel) -> bool {
    &&& x.major == y.major
    &&& x.minor == y.minor
    &&& x.patch == y.patch
    &&& x.pre == y.pre
}

/// The verdict on two texts once each has been read, or has failed to be.
pub open spec fn verdict(
    a: Seq<char>,
    b: Seq<char>,
    pa: Option<SemVerModel>,
    pb: Option<SemVerModel>,
) -> bool {
    match (pa, pb) {
        (Some(x), Some(y)) => same_version(x, y),
        _ => a == b,
    }
}

/// Whether two version texts name the same version.
pub open spec fn versions_equal(a: Seq<char>, b: Seq<char>) -> bool {
    verdict(a, b, canonical(a), canonical(b))
}

/// Whether every character of `v` is an ASCII digit.
pub fn is_all_digits(v: &str) -> (r: bool)
    ensures
        r == all_digits(v@),
{
    let n: usize = v.unicode_len();
    let mut i: usize = 0;
    while i < n
        invariant
            i <= n,
            n == v@.len(),
            forall|j: int| 0 <= j < i ==> is_digit(#[trigger] v@[j]),
        decreases n - i,
    {
        let c = v.get_char(i);
        if !('0' <= c && c <= '9') {
            assert(!is_digit(v@[i as int]));
            return false;
        }
        i = i + 1;
    }
    true
}

/// Pads a version text to three components.
pub fn normalize(v: &str) -> (r: String)
    ensures
        r@ == normalized(v@),
{
    if is_all_digits(v) {
        proof {
            reveal_strlit(".0.0");
            assert(".0.0"@ =~= seq!['.', '0', '.', '0']);
        }
        String::from_str(v).concat(".0.0")
    } else if find_sole(v, '.').is_some() {
        proof {
            reveal_strlit(".0");
            assert(".0"@ =~= seq!['.', '0']);
        }
        String::from_str(v).concat(".0")
    } else {
        String::from_str(v)
    }
}

/// Reads a version text: pads it, then parses it as a semantic version.
pub fn canonical_version(v: &str) -> (r: Option<SemVer>)
    ensures
        parsed_view(r) == canonical(v@),
{
    let padded = normalize(v);
    parse_semver(padded.as_str())
}

impl SemVer {
    /// Whether `self` and `other` are the same version, build metadata aside.
    pub fn same_as(&self, other: &SemVer) -> (r: bool)
        ensures
            r == same_version(self@, other@),
    {
        self.major == other.major && self.minor == other.minor && self.patch == other.patch
            && self.pre == other.pre
    }
}

/// Decides on two texts from what reading each of them gave: two versions
/// are compared as versions; if either text could not be read, the texts
/// themselves are compared.
pub fn decide(a: &str, b: &str, pa: &Option<SemVer>, pb: &Option<SemVer>) -> (r: bool)
    ensures
        r == verdict(a@, b@, parsed_view(*pa), parsed_view(*pb)),
{
    match (pa, pb) {
        (Some(x), Some(y)) => x.same_as(y),
        _ => str_eq(a, b),
    }
}

/// Whether two version texts name the same version.
pub fn version_eq(a: &str, b: &str) -> (r: bool)
    ensures
        r == versions_equal(a@, b@),
{
    let pa = canonical_version(a);
    let pb = canonical_version(b);
    decide(a, b, &pa, &pb)
}

/// Values that can be compared with a version text.
pub trait VersionCompare {
    /// The version text that the value holds.
    spec fn version_text(&self) -> Seq<char>;

    /// Whether the value and `other` name the same version.
    fn version_eq(&self, other: &str) -> (r: bool)
        ensures
            r == versions_equal(self.version_text(), other@),
    ;
}

impl VersionCompare for String {
    open spec fn version_text(&self) -> Seq<char> {
        self@
    }

    fn version_eq(&self, other: &str) -> (r: bool) {
        self::version_eq(self.as_str(), other)
    }
}

/// Every text is equal to itself as a version.
pub proof fn version_eq_reflexive(v: Seq<char>)
    ensures
        versions_equal(v, v),
{
}

/// The order of the two texts does not matter.
pub proof fn version_eq_symmetric(a: Seq<char>, b: Seq<char>)
    ensures
        versions_equal(a, b) == versions_equal(b, a),
{
}

/// Where either text cannot be read as a version, the texts are equal as
/// versions exactly when they are the same text.
pub proof fn version_eq_falls_back(a: Seq<char>, b: Seq<char>)
    ensures
        canonical(a).is_none() || canonical(b).is_none() ==> versions_equal(a, b) == (a == b),
{
}

/// Where both texts can be read as versions, they are equal as versions
/// exactly when major, minor, patch and prerelease tag agree.
pub proof fn version_eq_compares_parts(a: Seq<char>, b: Seq<char>)
    ensures
        canonical(a).is_some() && canonical(b).is_some() ==> versions_equal(a, b) == same_version(
            canonical(a).unwrap(),
            canonical(b).unwrap(),
        ),
{
}

} // verus!
