//! Which version a package reference is upgraded to.

use crate::catalog::{published, VersionCatalog};
use crate::text::same_text;
use crate::typstdep::{DepView, TypstDep};
use crate::version::Version;
use vstd::prelude::*;

verus! {

/// Why no upgrade can be planned for a package reference.
#[derive(Debug, PartialEq, Eq)]
pub enum UpgradeError {
    /// The package lives in a namespace other than `preview` and `local`.
    UnsupportedNamespace { package: TypstDep },
    /// The catalog does not list the package.
    PackageNotFound { package: TypstDep },
}

/// The mathematical value of an [`UpgradeError`].
pub enum UpgradeErrorView {
    UnsupportedNamespace { package: DepView },
    PackageNotFound { package: DepView },
}

impl View for UpgradeError {
    type V = UpgradeErrorView;

    open spec fn view(&self) -> UpgradeErrorView {
        match self {
            UpgradeError::UnsupportedNamespace { package } => {
                UpgradeErrorView::UnsupportedNamespace { package: package@ }
            },
            UpgradeError::PackageNotFound { package } => UpgradeErrorView::PackageNotFound {
                package: package@,
            },
        }
    }
}

impl UpgradeErrorView {
    /// The error in words.
    pub open spec fn message(self) -> Seq<char> {
        match self {
            UpgradeErrorView::UnsupportedNamespace { package } => "Unknown namespace "@
                + package.namespace + " for package "@ + package.text(),
            UpgradeErrorView::PackageNotFound { package } => "Package not found"@,
        }
    }
}

impl UpgradeError {
    /// The error in words.
    pub fn message(&self) -> (r: String)
        ensures
            r@ == self@.message(),
    {
        match self {
            UpgradeError::UnsupportedNamespace { package } => {
                let mut out = String::from_str("Unknown namespace ");
                out.append(package.namespace());
                out.append(" for package ");
                out.append(package.to_string().as_str());
                out
            },
            UpgradeError::PackageNotFound { .. } => String::from_str("Package not found"),
        }
    }
}

/// The versions of `versions` that are newer than `current`, in their order.
pub open spec fn newer_versions(versions: Seq<Version>, current: Version) -> Seq<Version> {
    versions.filter(|v: Version| current.precedes(v))
}

/// The newer versions are the listed versions that `current` precedes.
pub proof fn lemma_newer_versions(versions: Seq<Version>, current: Version)
    ensures
        forall|v: Version| #[trigger]
            newer_versions(versions, current).contains(v) <==> versions.contains(v)
                && current.precedes(v),
    decreases versions.len(),
{
    reveal(Seq::filter);
    let newer = newer_versions(versions, current);
    if versions.len() > 0 {
        let rest = versions.drop_last();
        let last = versions.last();
        lemma_newer_versions(rest, current);
        let before = newer_versions(rest, current);
        assert forall|v: Version| #[trigger]
            newer.contains(v) <==> versions.contains(v) && current.precedes(v) by {
            if newer.contains(v) {
                let i = choose|i: int| 0 <= i < newer.len() && newer[i] == v;
                if current.precedes(last) && i == newer.len() - 1 {
                    assert(versions[versions.len() - 1] == v);
                } else {
                    assert(before[i] == v);
                    assert(before.contains(v));
                    let j = choose|j: int| 0 <= j < rest.len() && rest[j] == v;
                    assert(versions[j] == v);
                }
            }
            if versions.contains(v) && current.precedes(v) {
                let j = choose|j: int| 0 <= j < versions.len() && versions[j] == v;
                if j == versions.len() - 1 {
                    assert(newer[newer.len() - 1] == v);
                } else {
                    assert(rest[j] == v);
                    assert(rest.contains(v));
                    assert(before.contains(v));
                    let i = choose|i: int| 0 <= i < before.len() && before[i] == v;
                    assert(newer[i] == v);
                }
            }
        }
    }
}

/// The candidates for an upgrade of `package`: nothing for a local package;
/// for a package of `preview`, the versions newer than its own that the
/// catalog lists under its name.
pub open spec fn candidates(catalog: Map<Seq<char>, Seq<Version>>, package: DepView) -> Result<
    Seq<Version>,
    UpgradeErrorView,
> {
    if package.is_local() {
        Ok(Seq::empty())
    } else if package.namespace != "preview"@ {
        Err(UpgradeErrorView::UnsupportedNamespace { package })
    } else {
        match published(catalog, package.name) {
            None => Err(UpgradeErrorView::PackageNotFound { package }),
            Some(versions) => Ok(newer_versions(versions, package.version)),
        }
    }
}

/// Whether an upgrade from `current` to `version` is allowed: any in
/// unrestricted mode, only a compatible one in compatible mode.
pub open spec fn eligible(current: Version, version: Version, compatible: bool) -> bool {
    compatible ==> current.compatible_with(version)
}

/// `version` is the newest of the eligible candidates.
pub open spec fn is_best(
    candidates: Seq<Version>,
    current: Version,
    compatible: bool,
    version: Version,
) -> bool {
    &&& candidates.contains(version)
    &&& eligible(current, version, compatible)
    &&& forall|i: int|
        0 <= i < candidates.len() && eligible(current, #[trigger] candidates[i], compatible)
            ==> candidates[i].at_most(version)
}

/// The newest of the eligible candidates; none where no candidate is eligible.
pub open spec fn best(candidates: Seq<Version>, current: Version, compatible: bool) -> Option<
    Version,
> {
    if exists|v: Version| is_best(candidates, current, compatible, v) {
        Some(choose|v: Version| is_best(candidates, current, compatible, v))
    } else {
        None
    }
}

/// At most one version is the newest of the eligible candidates.
pub proof fn lemma_best_unique(
    candidates: Seq<Version>,
    current: Version,
    compatible: bool,
    a: Version,
    b: Version,
)
    requires
        is_best(candidates, current, compatible, a),
        is_best(candidates, current, compatible, b),
    ensures
        a == b,
{
    let i = choose|i: int| 0 <= i < candidates.len() && candidates[i] == a;
    let j = choose|j: int| 0 <= j < candidates.len() && candidates[j] == b;
    assert(candidates[i].at_most(b));
    assert(candidates[j].at_most(a));
}

/// The newest of the eligible candidates is the one that [`best`] gives.
pub proof fn lemma_best_is(
    candidates: Seq<Version>,
    current: Version,
    compatible: bool,
    version: Version,
)
    requires
        is_best(candidates, current, compatible, version),
    ensures
        best(candidates, current, compatible) == Some(version),
{
    let chosen = choose|v: Version| is_best(candidates, current, compatible, v);
    lemma_best_unique(candidates, current, compatible, chosen, version);
}

/// Where a candidate is eligible, one of them is the newest.
pub proof fn lemma_best_exists(candidates: Seq<Version>, current: Version, compatible: bool)
    ensures
        best(candidates, current, compatible) is None <==> forall|i: int|
            0 <= i < candidates.len() ==> !eligible(current, #[trigger] candidates[i], compatible),
        best(candidates, current, compatible) matches Some(v) ==> is_best(
            candidates,
            current,
            compatible,
            v,
        ),
    decreases candidates.len(),
{
    if candidates.len() > 0 {
        let rest = candidates.drop_last();
        let last = candidates.last();
        lemma_best_exists(rest, current, compatible);
        assert(forall|i: int| 0 <= i < rest.len() ==> rest[i] == candidates[i]);
        let top: Option<Version> = match best(rest, current, compatible) {
            Some(v) => if eligible(current, last, compatible) && !last.at_most(v) {
                Some(last)
            } else {
                Some(v)
            },
            None => if eligible(current, last, compatible) {
                Some(last)
            } else {
                None
            },
        };
        if let Some(t) = top {
            if t == last {
                assert(candidates[candidates.len() - 1] == t);
            } else {
                let k = choose|k: int| 0 <= k < rest.len() && rest[k] == t;
                assert(candidates[k] == t);
            }
            assert forall|i: int|
                0 <= i < candidates.len() && eligible(
                    current,
                    #[trigger] candidates[i],
                    compatible,
                ) implies candidates[i].at_most(t) by {
                if i < rest.len() {
                    assert(rest[i] == candidates[i]);
                    match best(rest, current, compatible) {
                        Some(v) => {
                            assert(rest[i].at_most(v));
                        },
                        None => {},
                    }
                }
            }
            assert(is_best(candidates, current, compatible, t));
        } else {
            assert forall|i: int| 0 <= i < candidates.len() implies !eligible(
                current,
                #[trigger] candidates[i],
                compatible,
            ) by {
                if i < rest.len() {
                    assert(rest[i] == candidates[i]);
                }
            }
        }
    }
    if exists|v: Version| is_best(candidates, current, compatible, v) {
        let v = choose|v: Version| is_best(candidates, current, compatible, v);
        let k = choose|k: int| 0 <= k < candidates.len() && candidates[k] == v;
        assert(eligible(current, candidates[k], compatible));
    }
}

/// What is known of a package for planning its upgrade.
pub struct PackageUpgraderView {
    /// The package at its present version.
    pub pkg: DepView,
    /// The candidates: versions newer than the present one.
    pub ver: Seq<Version>,
}

impl PackageUpgraderView {
    /// Every candidate is newer than the present version.
    pub open spec fn wf(self) -> bool {
        forall|i: int| 0 <= i < self.ver.len() ==> self.pkg.version.precedes(#[trigger] self.ver[i])
    }

    /// The version to upgrade to.
    pub open spec fn next(self, compatible: bool) -> Option<Version> {
        best(self.ver, self.pkg.version, compatible)
    }
}

/// The version chosen in compatible mode is no newer than the one chosen in
/// unrestricted mode, which exists whenever the first does; and a chosen
/// version is newer than the present one.
pub proof fn lemma_next_monotone(upgrader: PackageUpgraderView)
    requires
        upgrader.wf(),
    ensures
        upgrader.next(true) matches Some(compatible) ==> upgrader.next(false) matches Some(newest)
            && compatible.at_most(newest),
        forall|compatible: bool|
            (#[trigger] upgrader.next(compatible)) matches Some(v)
                ==> upgrader.pkg.version.precedes(v),
{
    let current = upgrader.pkg.version;
    lemma_best_exists(upgrader.ver, current, true);
    lemma_best_exists(upgrader.ver, current, false);
    if let Some(c) = upgrader.next(true) {
        let k = choose|k: int| 0 <= k < upgrader.ver.len() && upgrader.ver[k] == c;
        assert(eligible(current, upgrader.ver[k], false));
    }
    assert forall|compatible: bool|
        (#[trigger] upgrader.next(compatible)) is Some implies current.precedes(
        upgrader.next(compatible)->0,
    ) by {
        lemma_best_exists(upgrader.ver, current, compatible);
        let v = upgrader.next(compatible)->0;
        let k = choose|k: int| 0 <= k < upgrader.ver.len() && upgrader.ver[k] == v;
        assert(current.precedes(upgrader.ver[k]));
    }
}

/// A package reference with the candidates for its upgrade.
pub struct PackageUpgrader {
    pkg: TypstDep,
    ver: Vec<Version>,
}

impl View for PackageUpgrader {
    type V = PackageUpgraderView;

    closed spec fn view(&self) -> PackageUpgraderView {
        PackageUpgraderView { pkg: self.pkg@, ver: self.ver@ }
    }
}

/// The versions of `versions` that are newer than `current`.
fn select_newer(versions: &Vec<Version>, current: &Version) -> (r: Vec<Version>)
    ensures
        r@ == newer_versions(versions@, *current),
{
    let mut out: Vec<Version> = Vec::new();
    let mut i: usize = 0;
    let ghost pred = |v: Version| current.precedes(v);
    proof {
        reveal(Seq::filter);
        assert(versions@.take(0) =~= Seq::<Version>::empty());
    }
    while i < versions.len()
        invariant
            i <= versions.len(),
            pred == |v: Version| current.precedes(v),
            out@ == versions@.take(i as int).filter(pred),
        decreases versions.len() - i,
    {
        let v = versions[i];
        proof {
            reveal(Seq::filter);
            let next = versions@.take(i + 1);
            assert(next.drop_last() =~= versions@.take(i as int));
            assert(next.last() == v);
        }
        if current.lt(&v) {
            out.push(v);
        }
        i += 1;
    }
    assert(versions@.take(versions.len() as int) =~= versions@);
    out
}

impl PackageUpgrader {
    /// Every candidate is newer than the present version.
    #[verifier::type_invariant]
    pub open spec fn inv(&self) -> bool {
        self@.wf()
    }

    /// The upgrader of `package` with the versions of `versions` that are
    /// newer than its own as candidates.
    pub fn with_versions(package: TypstDep, versions: &Vec<Version>) -> (r: PackageUpgrader)
        ensures
            r@.pkg == package@,
            r@.ver == newer_versions(versions@, package@.version),
            r@.wf(),
    {
        let current = package.version();
        let ver = select_newer(versions, &current);
        proof {
            broadcast use vstd::seq_lib::group_filter_ensures;
        }
        PackageUpgrader { pkg: package, ver }
    }

    /// The upgrader of `package`, with its candidates taken from `query`.
    pub fn build_with_query(package: &TypstDep, query: &VersionCatalog) -> (r: Result<
        PackageUpgrader,
        UpgradeError,
    >)
        ensures
            match r {
                Ok(upgrader) => upgrader@.pkg == package@ && candidates(query@, package@) == Ok::<
                    Seq<Version>,
                    UpgradeErrorView,
                >(upgrader@.ver) && upgrader@.wf(),
                Err(e) => candidates(query@, package@) == Err::<Seq<Version>, UpgradeErrorView>(e@),
            },
    {
        if package.is_local() {
            let none: Vec<Version> = Vec::new();
            return Ok(PackageUpgrader { pkg: package.clone(), ver: none });
        }
        if !same_text(package.namespace(), "preview") {
            return Err(UpgradeError::UnsupportedNamespace { package: package.clone() });
        }
        match query.lookup(package.name()) {
            None => Err(UpgradeError::PackageNotFound { package: package.clone() }),
            Some(versions) => Ok(PackageUpgrader::with_versions(package.clone(), &versions)),
        }
    }

    /// The package at its present version.
    pub fn package(&self) -> (r: &TypstDep)
        ensures
            r@ == self@.pkg,
    {
        &self.pkg
    }

    /// The package at the version to upgrade to: the newest candidate, in
    /// compatible mode the newest compatible one; none where there is no such
    /// candidate.
    pub fn next(&self, compatible: bool) -> (r: Option<TypstDep>)
        ensures
            match r {
                Some(dep) => self@.next(compatible) == Some(dep@.version) && dep@
                    == self@.pkg.upgrade_to(dep@.version) && self@.pkg.version.precedes(
                    dep@.version,
                ),
                None => self@.next(compatible) is None,
            },
            r matches Some(dep) ==> is_best(self@.ver, self@.pkg.version, compatible, dep@.version),
            r is None ==> forall|i: int|
                0 <= i < self@.ver.len() ==> !eligible(
                    self@.pkg.version,
                    #[trigger] self@.ver[i],
                    compatible,
                ),
    {
        proof {
            use_type_invariant(self);
        }
        let current = self.pkg.version();
        let mut top: Option<Version> = None;
        let mut i: usize = 0;
        while i < self.ver.len()
            invariant
                i <= self.ver.len(),
                current == self@.pkg.version,
                match top {
                    Some(v) => is_best(self.ver@.take(i as int), current, compatible, v),
                    None => forall|j: int|
                        0 <= j < i ==> !eligible(current, #[trigger] self.ver@[j], compatible),
                },
            decreases self.ver.len() - i,
        {
            let v = self.ver[i];
            let ghost seen = self.ver@.take(i as int);
            let ghost more = self.ver@.take(i + 1);
            proof {
                assert(forall|j: int| 0 <= j < i ==> more[j] == seen[j]);
                assert(more[i as int] == v);
            }
            if !compatible || current.is_compatible_with(&v) {
                let better = match top {
                    Some(t) => !v.lt(&t),
                    None => true,
                };
                if better {
                    proof {
                        if let Some(t) = top {
                            assert forall|j: int|
                                0 <= j < more.len() && eligible(
                                    current,
                                    #[trigger] more[j],
                                    compatible,
                                ) implies more[j].at_most(v) by {
                                if j < i {
                                    assert(seen[j].at_most(t));
                                }
                            }
                        }
                    }
                    top = Some(v);
                } else {
                    proof {
                        let t = top->0;
                        let k = choose|k: int| 0 <= k < seen.len() && seen[k] == t;
                        assert(more[k] == t);
                        assert forall|j: int|
                            0 <= j < more.len() && eligible(
                                current,
                                #[trigger] more[j],
                                compatible,
                            ) implies more[j].at_most(t) by {
                            if j < i {
                                assert(seen[j].at_most(t));
                            }
                        }
                    }
                }
            } else {
                proof {
                    if let Some(t) = top {
                        let k = choose|k: int| 0 <= k < seen.len() && seen[k] == t;
                        assert(more[k] == t);
                        assert forall|j: int|
                            0 <= j < more.len() && eligible(
                                current,
                                #[trigger] more[j],
                                compatible,
                            ) implies more[j].at_most(t) by {
                            if j < i {
                                assert(seen[j].at_most(t));
                            }
                        }
                    }
                }
            }
            i += 1;
        }
        proof {
            assert(self.ver@.take(i as int) =~= self.ver@);
            lemma_best_exists(self.ver@, current, compatible);
            if let Some(v) = top {
                lemma_best_is(self.ver@, current, compatible, v);
                let k = choose|k: int| 0 <= k < self.ver@.len() && self.ver@[k] == v;
                assert(self@.ver[k] == v);
                assert(self@.pkg.version.precedes(self@.ver[k]));
            }
        }
        match top {
            Some(v) => Some(self.pkg.upgrade_to(v)),
            None => None,
        }
    }
}

} // verus!
