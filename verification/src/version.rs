//! Semantic versions with three numeric components.

use crate::decimal::{
    decimal_text, is_number, lemma_decimal_text_injective, lemma_decimal_text_is_number,
    push_decimal,
};
use crate::text::{
    chars_of, lemma_run_end, lemma_run_ends_at, run_end, scan, string_of, CharClass,
};
use vstd::prelude::*;

verus! {

/// Three texts joined by dots.
pub open spec fn dotted(a: Seq<char>, b: Seq<char>, c: Seq<char>) -> Seq<char> {
    a + seq!['.'] + b + seq!['.'] + c
}

/// Three runs of digits joined by dots, whatever the digits are.
pub open spec fn is_version_shape(s: Seq<char>) -> bool {
    exists|a: Seq<char>, b: Seq<char>, c: Seq<char>|
        is_number(a) && is_number(b) && is_number(c) && s == #[trigger] dotted(a, b, c)
}

/// Where the parts of a dotted text lie in it.
pub proof fn lemma_dotted_layout(a: Seq<char>, b: Seq<char>, c: Seq<char>)
    ensures
        dotted(a, b, c).len() == a.len() + b.len() + c.len() + 2,
        forall|i: int| 0 <= i < a.len() ==> dotted(a, b, c)[i] == a[i],
        dotted(a, b, c)[a.len() as int] == '.',
        forall|i: int| 0 <= i < b.len() ==> dotted(a, b, c)[a.len() + 1 + i] == b[i],
        dotted(a, b, c)[(a.len() + 1 + b.len()) as int] == '.',
        forall|i: int| 0 <= i < c.len() ==> dotted(a, b, c)[a.len() + b.len() + 2 + i] == c[i],
{
}

/// A text is dotted from runs of digits in one way at most.
pub proof fn lemma_dotted_unique(
    a1: Seq<char>,
    b1: Seq<char>,
    c1: Seq<char>,
    a2: Seq<char>,
    b2: Seq<char>,
    c2: Seq<char>,
)
    requires
        is_number(a1) && is_number(b1) && is_number(c1),
        is_number(a2) && is_number(b2) && is_number(c2),
        dotted(a1, b1, c1) == dotted(a2, b2, c2),
    ensures
        a1 == a2 && b1 == b2 && c1 == c2,
{
    lemma_dotted_layout(a1, b1, c1);
    lemma_dotted_layout(a2, b2, c2);
    let s = dotted(a1, b1, c1);
    if a1.len() < a2.len() {
        assert(s[a1.len() as int] == a2[a1.len() as int]);
        assert(false);
    }
    if a2.len() < a1.len() {
        assert(s[a2.len() as int] == a1[a2.len() as int]);
        assert(false);
    }
    assert(a1 =~= a2) by {
        assert forall|i: int| 0 <= i < a1.len() implies a1[i] == a2[i] by {
            assert(s[i] == a1[i]);
        }
    }
    if b1.len() < b2.len() {
        assert(s[(a1.len() + 1 + b1.len()) as int] == b2[b1.len() as int]);
        assert(false);
    }
    if b2.len() < b1.len() {
        assert(s[(a1.len() + 1 + b2.len()) as int] == b1[b2.len() as int]);
        assert(false);
    }
    assert(b1 =~= b2) by {
        assert forall|i: int| 0 <= i < b1.len() implies b1[i] == b2[i] by {
            assert(s[a1.len() + 1 + i] == b1[i]);
        }
    }
    assert(c1 =~= c2) by {
        assert forall|i: int| 0 <= i < c1.len() implies c1[i] == c2[i] by {
            assert(s[a1.len() + b1.len() + 2 + i] == c1[i]);
        }
    }
}

/// The form of a version told by its runs of digits: a run from the start, a
/// dot, a second run, a dot, and a third run up to the end.
pub open spec fn shape_by_runs(s: Seq<char>) -> bool {
    let first = run_end(s, 0, CharClass::Digit);
    let second = run_end(s, first + 1, CharClass::Digit);
    let third = run_end(s, second + 1, CharClass::Digit);
    &&& 0 < first < s.len() && s[first] == '.'
    &&& first + 1 < second < s.len() && s[second] == '.'
    &&& second + 1 < third == s.len()
}

/// A text has the form of a version exactly if its runs of digits tell so.
pub proof fn lemma_shape_by_runs(s: Seq<char>)
    ensures
        is_version_shape(s) == shape_by_runs(s),
{
    let first = run_end(s, 0, CharClass::Digit);
    let second = run_end(s, first + 1, CharClass::Digit);
    let third = run_end(s, second + 1, CharClass::Digit);
    if shape_by_runs(s) {
        lemma_run_end(s, 0, CharClass::Digit);
        lemma_run_end(s, first + 1, CharClass::Digit);
        lemma_run_end(s, second + 1, CharClass::Digit);
        let a = s.subrange(0, first);
        let b = s.subrange(first + 1, second);
        let c = s.subrange(second + 1, s.len() as int);
        assert(s =~= dotted(a, b, c));
        assert(is_number(a) && is_number(b) && is_number(c));
    }
    if is_version_shape(s) {
        let (a, b, c) = choose|a: Seq<char>, b: Seq<char>, c: Seq<char>|
            is_number(a) && is_number(b) && is_number(c) && s == #[trigger] dotted(a, b, c);
        lemma_dotted_layout(a, b, c);
        let la = a.len() as int;
        let lb = b.len() as int;
        let lc = c.len() as int;
        assert forall|i: int| 0 <= i < la implies CharClass::Digit.holds(#[trigger] s[i]) by {
            assert(s[i] == a[i]);
        }
        lemma_run_ends_at(s, 0, la, CharClass::Digit);
        assert forall|i: int| la + 1 <= i < la + 1 + lb implies CharClass::Digit.holds(
            #[trigger] s[i],
        ) by {
            assert(s[la + 1 + (i - la - 1)] == b[i - la - 1]);
        }
        lemma_run_ends_at(s, la + 1, la + 1 + lb, CharClass::Digit);
        assert forall|i: int| la + lb + 2 <= i < la + lb + 2 + lc implies CharClass::Digit.holds(
            #[trigger] s[i],
        ) by {
            assert(s[la + lb + 2 + (i - la - lb - 2)] == c[i - la - lb - 2]);
        }
        lemma_run_ends_at(s, la + lb + 2, la + lb + 2 + lc, CharClass::Digit);
    }
}

/// A `major.minor.patch` version. Versions are ordered by their major, then
/// by their minor, then by their patch component.
#[derive(Clone, Copy, Debug, PartialEq, Eq, Structural, PartialOrd, Ord, Hash)]
pub struct Version {
    pub major: u64,
    pub minor: u64,
    pub patch: u64,
}

impl Version {
    /// `self` is strictly older than `other`: the components are compared in
    /// the order major, minor, patch.
    pub open spec fn precedes(self, other: Version) -> bool {
        ||| self.major < other.major
        ||| self.major == other.major && self.minor < other.minor
        ||| self.major == other.major && self.minor == other.minor && self.patch < other.patch
    }

    /// `self` is `other` or older.
    pub open spec fn at_most(self, other: Version) -> bool {
        self == other || self.precedes(other)
    }

    /// An upgrade from `self` to `other` keeps the major component and, while
    /// the major component is zero, the minor component too.
    pub open spec fn compatible_with(self, other: Version) -> bool {
        self.major == other.major && (self.major == 0 ==> self.minor == other.minor)
    }

    /// The text of the version: its three components in decimal, without
    /// leading zeros, joined by dots.
    pub open spec fn text(self) -> Seq<char> {
        dotted(
            decimal_text(self.major as nat),
            decimal_text(self.minor as nat),
            decimal_text(self.patch as nat),
        )
    }

    /// The version that `text` is the text of, if there is one.
    pub open spec fn from_text(text: Seq<char>) -> Option<Version> {
        if exists|v: Version| #[trigger] v.text() == text {
            Some(choose|v: Version| #[trigger] v.text() == text)
        } else {
            None
        }
    }

    /// Two versions with the same text are the same version.
    pub proof fn lemma_text_injective(a: Version, b: Version)
        requires
            a.text() == b.text(),
        ensures
            a == b,
    {
        lemma_decimal_text_is_number(a.major as nat);
        lemma_decimal_text_is_number(a.minor as nat);
        lemma_decimal_text_is_number(a.patch as nat);
        lemma_decimal_text_is_number(b.major as nat);
        lemma_decimal_text_is_number(b.minor as nat);
        lemma_decimal_text_is_number(b.patch as nat);
        lemma_dotted_unique(
            decimal_text(a.major as nat),
            decimal_text(a.minor as nat),
            decimal_text(a.patch as nat),
            decimal_text(b.major as nat),
            decimal_text(b.minor as nat),
            decimal_text(b.patch as nat),
        );
        lemma_decimal_text_injective(a.major as nat, b.major as nat);
        lemma_decimal_text_injective(a.minor as nat, b.minor as nat);
        lemma_decimal_text_injective(a.patch as nat, b.patch as nat);
    }

    /// Reading the text of a version gives the version back.
    pub proof fn lemma_from_text_of_text(v: Version)
        ensures
            Version::from_text(v.text()) == Some(v),
            is_version_shape(v.text()),
    {
        let w = choose|w: Version| #[trigger] w.text() == v.text();
        Version::lemma_text_injective(w, v);
        lemma_decimal_text_is_number(v.major as nat);
        lemma_decimal_text_is_number(v.minor as nat);
        lemma_decimal_text_is_number(v.patch as nat);
    }

    /// Whether `text` is three runs of digits joined by dots.
    pub fn has_shape(text: &str) -> (r: bool)
        ensures
            r == is_version_shape(text@),
    {
        let chars = chars_of(text);
        let n = chars.len();
        proof {
            lemma_shape_by_runs(chars@);
        }
        let first = scan(&chars, 0, CharClass::Digit);
        if first == 0 || first >= n || chars[first] != '.' {
            return false;
        }
        let second = scan(&chars, first + 1, CharClass::Digit);
        if second == first + 1 || second >= n || chars[second] != '.' {
            return false;
        }
        let third = scan(&chars, second + 1, CharClass::Digit);
        third > second + 1 && third == n
    }

    /// Reads a version from its text: `major.minor.patch`, each component in
    /// decimal without a leading zero and no larger than `u64::MAX`.
    pub fn parse(text: &str) -> (r: Option<Version>)
        ensures
            r == Version::from_text(text@),
    {
        if !Version::has_shape(text) {
            proof {
                assert forall|v: Version| #[trigger] v.text() != text@ by {
                    Version::lemma_from_text_of_text(v);
                }
            }
            return None;
        }
        let r = semver_parse(text);
        proof {
            if let Some(v) = r {
                Version::lemma_from_text_of_text(v);
            }
        }
        r
    }

    /// The text of the version.
    pub fn to_string(&self) -> (r: String)
        ensures
            r@ == self.text(),
    {
        let mut out: Vec<char> = Vec::new();
        push_decimal(&mut out, self.major);
        out.push('.');
        push_decimal(&mut out, self.minor);
        out.push('.');
        push_decimal(&mut out, self.patch);
        assert(out@ =~= self.text());
        string_of(&out)
    }

    pub fn new(major: u64, minor: u64, patch: u64) -> (v: Version)
        ensures
            v == (Version { major, minor, patch }),
    {
        Version { major, minor, patch }
    }

    pub fn lt(&self, other: &Version) -> (r: bool)
        ensures
            r == self.precedes(*other),
    {
        self.major < other.major || (self.major == other.major && (self.minor < other.minor || (
        self.minor == other.minor && self.patch < other.patch)))
    }

    pub fn is_compatible_with(&self, other: &Version) -> (r: bool)
        ensures
            r == self.compatible_with(*other),
    {
        self.major == other.major && (self.major != 0 || self.minor == other.minor)
    }
}

/// Calls `semver::Version::parse`. On three runs of digits joined by dots it
/// returns the version whose text is the input, and fails where there is none:
/// where a component has a leading zero or is larger than `u64::MAX`.
#[verifier::external_body]
fn semver_parse(text: &str) -> (r: Option<Version>)
    requires
        is_version_shape(text@),
    ensures
        r matches Some(v) ==> v.text() == text@,
        r is None ==> forall|v: Version| #[trigger] v.text() != text@,
{
    match semver::Version::parse(text) {
        Ok(v) => Some(Version { major: v.major, minor: v.minor, patch: v.patch }),
        Err(_) => None,
    }
}

} // verus!
