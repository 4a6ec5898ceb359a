//! Package references of the form `@namespace/name:major.minor.patch`.

use crate::text::{
    chars_of, is_run, lemma_run_end, lemma_run_ends_at, run_end, same_text, scan,
    string_of_range, CharClass,
};
use crate::version::{is_version_shape, Version};
use vstd::prelude::*;

verus! {

/// Why a text is no package reference.
#[derive(Clone, Copy, Debug, PartialEq, Eq, Structural, Hash)]
pub enum ParseError {
    /// The text is not of the form `@namespace/name:digits.digits.digits`.
    MalformedReference,
    /// The text has that form, but its digits are no version: a component has
    /// a leading zero or is too large.
    InvalidVersion,
}

/// A namespace or a package name: one or more ASCII letters, digits, `_` or
/// `-`.
pub open spec fn is_name(s: Seq<char>) -> bool {
    is_run(s, CharClass::Name)
}

/// `@namespace/name:version`.
pub open spec fn reference_text(namespace: Seq<char>, name: Seq<char>, version: Seq<char>) -> Seq<
    char,
> {
    seq!['@'] + namespace + seq!['/'] + name + seq![':'] + version
}

/// The form of a package reference, whatever the digits of its version are.
pub open spec fn is_reference(s: Seq<char>) -> bool {
    exists|namespace: Seq<char>, name: Seq<char>, version: Seq<char>|
        is_name(namespace) && is_name(name) && is_version_shape(version) && s
            == #[trigger] reference_text(namespace, name, version)
}

/// The mathematical value of a package reference.
pub struct DepView {
    pub namespace: Seq<char>,
    pub name: Seq<char>,
    pub version: Version,
}

impl DepView {
    /// Namespace and name are made of name characters.
    pub open spec fn wf(self) -> bool {
        is_name(self.namespace) && is_name(self.name)
    }

    /// The text of the reference.
    pub open spec fn text(self) -> Seq<char> {
        reference_text(self.namespace, self.name, self.version.text())
    }

    pub open spec fn is_local(self) -> bool {
        self.namespace == "local"@
    }

    /// The same package at another version.
    pub open spec fn upgrade_to(self, version: Version) -> DepView {
        DepView { namespace: self.namespace, name: self.name, version }
    }
}

/// What a text is read as: the reference it is the text of; failing that, why
/// it is none.
pub open spec fn parse_spec(s: Seq<char>) -> Result<DepView, ParseError> {
    if exists|d: DepView| d.wf() && #[trigger] d.text() == s {
        Ok(choose|d: DepView| d.wf() && #[trigger] d.text() == s)
    } else if is_reference(s) {
        Err(ParseError::InvalidVersion)
    } else {
        Err(ParseError::MalformedReference)
    }
}

/// Where the parts of a reference lie in its text.
pub proof fn lemma_reference_layout(namespace: Seq<char>, name: Seq<char>, version: Seq<char>)
    ensures
        ({
            let s = reference_text(namespace, name, version);
            let a = namespace.len() as int;
            let b = name.len() as int;
            &&& s.len() == a + b + version.len() + 3
            &&& s[0] == '@'
            &&& forall|i: int| 0 <= i < a ==> s[1 + i] == namespace[i]
            &&& s[1 + a] == '/'
            &&& forall|i: int| 0 <= i < b ==> s[a + 2 + i] == name[i]
            &&& s[a + 2 + b] == ':'
            &&& forall|i: int| 0 <= i < version.len() ==> s[a + b + 3 + i] == version[i]
        }),
{
}

/// A text is a reference in one way at most.
pub proof fn lemma_reference_unique(
    ns1: Seq<char>,
    name1: Seq<char>,
    ver1: Seq<char>,
    ns2: Seq<char>,
    name2: Seq<char>,
    ver2: Seq<char>,
)
    requires
        is_name(ns1) && is_name(name1),
        is_name(ns2) && is_name(name2),
        reference_text(ns1, name1, ver1) == reference_text(ns2, name2, ver2),
    ensures
        ns1 == ns2 && name1 == name2 && ver1 == ver2,
{
    lemma_reference_layout(ns1, name1, ver1);
    lemma_reference_layout(ns2, name2, ver2);
    let s = reference_text(ns1, name1, ver1);
    let a1 = ns1.len() as int;
    let a2 = ns2.len() as int;
    if a1 < a2 {
        assert(s[1 + a1] == ns2[a1]);
        assert(false);
    }
    if a2 < a1 {
        assert(s[1 + a2] == ns1[a2]);
        assert(false);
    }
    assert(ns1 =~= ns2) by {
        assert forall|i: int| 0 <= i < a1 implies ns1[i] == ns2[i] by {
            assert(s[1 + i] == ns1[i]);
        }
    }
    let b1 = name1.len() as int;
    let b2 = name2.len() as int;
    if b1 < b2 {
        assert(s[a1 + 2 + b1] == name2[b1]);
        assert(false);
    }
    if b2 < b1 {
        assert(s[a1 + 2 + b2] == name1[b2]);
        assert(false);
    }
    assert(name1 =~= name2) by {
        assert forall|i: int| 0 <= i < b1 implies name1[i] == name2[i] by {
            assert(s[a1 + 2 + i] == name1[i]);
        }
    }
    assert(ver1 =~= ver2) by {
        assert forall|i: int| 0 <= i < ver1.len() implies ver1[i] == ver2[i] by {
            assert(s[a1 + b1 + 3 + i] == ver1[i]);
        }
    }
}

/// The form of a reference told by its runs of name characters: `@`, a run,
/// `/`, a second run, `:`, and the form of a version up to the end.
pub open spec fn reference_by_runs(s: Seq<char>) -> bool {
    let slash = run_end(s, 1, CharClass::Name);
    let colon = run_end(s, slash + 1, CharClass::Name);
    &&& s.len() > 0 && s[0] == '@'
    &&& 1 < slash < s.len() && s[slash] == '/'
    &&& slash + 1 < colon < s.len() && s[colon] == ':'
    &&& is_version_shape(s.subrange(colon + 1, s.len() as int))
}

/// A text has the form of a reference exactly if its runs of name characters
/// tell so.
pub proof fn lemma_reference_by_runs(s: Seq<char>)
    ensures
        is_reference(s) == reference_by_runs(s),
{
    let slash = run_end(s, 1, CharClass::Name);
    let colon = run_end(s, slash + 1, CharClass::Name);
    if reference_by_runs(s) {
        lemma_run_end(s, 1, CharClass::Name);
        lemma_run_end(s, slash + 1, CharClass::Name);
        let namespace = s.subrange(1, slash);
        let name = s.subrange(slash + 1, colon);
        let version = s.subrange(colon + 1, s.len() as int);
        assert(s =~= reference_text(namespace, name, version));
        assert(is_name(namespace) && is_name(name));
    }
    if is_reference(s) {
        let (namespace, name, version) = choose|
            namespace: Seq<char>,
            name: Seq<char>,
            version: Seq<char>,
        |
            is_name(namespace) && is_name(name) && is_version_shape(version) && s
                == #[trigger] reference_text(namespace, name, version);
        lemma_reference_layout(namespace, name, version);
        let a = namespace.len() as int;
        let b = name.len() as int;
        assert forall|i: int| 1 <= i < 1 + a implies CharClass::Name.holds(#[trigger] s[i]) by {
            assert(s[1 + (i - 1)] == namespace[i - 1]);
        }
        lemma_run_ends_at(s, 1, 1 + a, CharClass::Name);
        assert forall|i: int| a + 2 <= i < a + 2 + b implies CharClass::Name.holds(
            #[trigger] s[i],
        ) by {
            assert(s[a + 2 + (i - a - 2)] == name[i - a - 2]);
        }
        lemma_run_ends_at(s, a + 2, a + 2 + b, CharClass::Name);
        assert(s.subrange(a + b + 3, s.len() as int) =~= version) by {
            assert forall|i: int| 0 <= i < version.len() implies s[a + b + 3 + i]
                == version[i] by {}
        }
    }
}

/// Two references with the same text are the same reference.
pub proof fn lemma_text_injective(a: DepView, b: DepView)
    requires
        a.wf(),
        b.wf(),
        a.text() == b.text(),
    ensures
        a == b,
{
    lemma_reference_unique(
        a.namespace,
        a.name,
        a.version.text(),
        b.namespace,
        b.name,
        b.version.text(),
    );
    Version::lemma_text_injective(a.version, b.version);
}

/// Reading the text of a reference gives the reference back.
pub proof fn lemma_parse_of_text(d: DepView)
    requires
        d.wf(),
    ensures
        parse_spec(d.text()) == Ok::<DepView, ParseError>(d),
        is_reference(d.text()),
{
    let e = choose|e: DepView| e.wf() && #[trigger] e.text() == d.text();
    lemma_text_injective(e, d);
    Version::lemma_from_text_of_text(d.version);
}

/// A package reference: a namespace, a package name and a version.
#[derive(Debug, PartialEq, Eq, Hash)]
pub struct TypstDep {
    namespace: String,
    name: String,
    version: Version,
}

impl View for TypstDep {
    type V = DepView;

    closed spec fn view(&self) -> DepView {
        DepView { namespace: self.namespace@, name: self.name@, version: self.version }
    }
}

impl Clone for TypstDep {
    fn clone(&self) -> (r: TypstDep)
        ensures
            r@ == self@,
    {
        proof {
            use_type_invariant(self);
        }
        TypstDep {
            namespace: self.namespace.clone(),
            name: self.name.clone(),
            version: self.version,
        }
    }
}

impl TypstDep {
    /// Every reference is well formed.
    #[verifier::type_invariant]
    pub open spec fn inv(&self) -> bool {
        self@.wf()
    }

    /// Reads a reference from its text.
    pub fn parse(text: &str) -> (r: Result<TypstDep, ParseError>)
        ensures
            match r {
                Ok(d) => parse_spec(text@) == Ok::<DepView, ParseError>(d@),
                Err(e) => parse_spec(text@) == Err::<DepView, ParseError>(e),
            },
            r matches Ok(d) ==> d@.wf() && d@.text() == text@,
            r is Err ==> forall|d: DepView| d.wf() ==> #[trigger] d.text() != text@,
            r matches Err(e) ==> (e is InvalidVersion <==> is_reference(text@)),
    {
        let chars = chars_of(text);
        let n = chars.len();
        let ghost s = chars@;
        proof {
            lemma_reference_by_runs(s);
            if !is_reference(s) {
                assert forall|d: DepView| d.wf() implies #[trigger] d.text() != s by {
                    lemma_parse_of_text(d);
                }
            }
        }
        if n == 0 || chars[0] != '@' {
            return Err(ParseError::MalformedReference);
        }
        let slash = scan(&chars, 1, CharClass::Name);
        if slash == 1 || slash >= n || chars[slash] != '/' {
            return Err(ParseError::MalformedReference);
        }
        let colon = scan(&chars, slash + 1, CharClass::Name);
        if colon == slash + 1 || colon >= n || chars[colon] != ':' {
            return Err(ParseError::MalformedReference);
        }
        let namespace = string_of_range(&chars, 1, slash);
        let name = string_of_range(&chars, slash + 1, colon);
        let tail = string_of_range(&chars, colon + 1, n);
        if !Version::has_shape(tail.as_str()) {
            return Err(ParseError::MalformedReference);
        }
        proof {
            lemma_run_end(s, 1, CharClass::Name);
            lemma_run_end(s, slash + 1, CharClass::Name);
            assert(s =~= reference_text(namespace@, name@, tail@));
        }
        match Version::parse(tail.as_str()) {
            None => {
                proof {
                    assert forall|d: DepView| d.wf() implies #[trigger] d.text() != s by {
                        if d.text() == s {
                            lemma_reference_unique(
                                d.namespace,
                                d.name,
                                d.version.text(),
                                namespace@,
                                name@,
                                tail@,
                            );
                        }
                    }
                }
                Err(ParseError::InvalidVersion)
            },
            Some(version) => {
                let dep = TypstDep { namespace, name, version };
                proof {
                    assert(dep@.text() == s);
                    lemma_parse_of_text(dep@);
                }
                Ok(dep)
            },
        }
    }

    /// The text of the reference.
    pub fn to_string(&self) -> (r: String)
        ensures
            r@ == self@.text(),
            parse_spec(r@) == Ok::<DepView, ParseError>(self@),
    {
        proof {
            use_type_invariant(self);
            lemma_parse_of_text(self@);
        }
        let mut out = String::from_str("@");
        out.append(self.namespace.as_str());
        out.append("/");
        out.append(self.name.as_str());
        out.append(":");
        let v = self.version.to_string();
        out.append(v.as_str());
        proof {
            reveal_strlit("@");
            reveal_strlit("/");
            reveal_strlit(":");
            assert("@"@ =~= seq!['@']);
            assert("/"@ =~= seq!['/']);
            assert(":"@ =~= seq![':']);
        }
        out
    }

    /// Whether the package lives in the namespace `local`.
    pub fn is_local(&self) -> (r: bool)
        ensures
            r == self@.is_local(),
    {
        same_text(self.namespace.as_str(), "local")
    }

    pub fn namespace(&self) -> (r: &str)
        ensures
            r@ == self@.namespace,
    {
        self.namespace.as_str()
    }

    pub fn name(&self) -> (r: &str)
        ensures
            r@ == self@.name,
    {
        self.name.as_str()
    }

    pub fn version(&self) -> (r: Version)
        ensures
            r == self@.version,
    {
        self.version
    }

    /// The same package at another version.
    pub fn upgrade_to(&self, version: Version) -> (r: TypstDep)
        ensures
            r@ == self@.upgrade_to(version),
    {
        proof {
            use_type_invariant(self);
        }
        TypstDep { namespace: self.namespace.clone(), name: self.name.clone(), version }
    }
}

} // verus!
