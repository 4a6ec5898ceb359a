//! The catalog of the published versions of each package.

use crate::text::same_text;
use crate::version::Version;
use vstd::prelude::*;

verus! {

/// The versions of one package, in the order in which they were added.
struct CatalogEntry {
    name: String,
    versions: Vec<Version>,
}

/// Why the metadata of a registry is no catalog.
#[derive(Clone, Copy, Debug, PartialEq, Eq, Structural)]
pub enum CatalogError {
    /// The metadata is no list.
    NotAList,
    /// The entry at `index` is no object.
    NotAnObject { index: usize },
    /// The entry at `index` has no member `name`.
    NameNotFound { index: usize },
    /// The member `name` of the entry at `index` is no text.
    NameNotText { index: usize },
    /// The entry at `index` has no member `version`.
    VersionNotFound { index: usize },
    /// The member `version` of the entry at `index` is no text.
    VersionNotText { index: usize },
    /// The version of the entry at `index` is no version.
    InvalidVersion { index: usize },
}

impl CatalogError {
    /// The error in words.
    pub open spec fn spec_message(self) -> Seq<char> {
        match self {
            CatalogError::NotAList => "Invalid package metadata"@,
            CatalogError::NotAnObject { .. } => "Invalid package metadata"@,
            CatalogError::NameNotFound { .. } => "Package name not found"@,
            CatalogError::NameNotText { .. } => "Invalid package name"@,
            CatalogError::VersionNotFound { .. } => "Package version not found"@,
            CatalogError::VersionNotText { .. } => "Invalid package version"@,
            CatalogError::InvalidVersion { .. } => "Invalid package version"@,
        }
    }

    /// The error in words.
    pub fn message(&self) -> (r: &'static str)
        ensures
            r@ == self.spec_message(),
    {
        match self {
            CatalogError::NotAList => "Invalid package metadata",
            CatalogError::NotAnObject { .. } => "Invalid package metadata",
            CatalogError::NameNotFound { .. } => "Package name not found",
            CatalogError::NameNotText { .. } => "Invalid package name",
            CatalogError::VersionNotFound { .. } => "Package version not found",
            CatalogError::VersionNotText { .. } => "Invalid package version",
            CatalogError::InvalidVersion { .. } => "Invalid package version",
        }
    }
}

/// For each package name of the registry, the versions that were published
/// under it.
pub struct VersionCatalog {
    entries: Vec<CatalogEntry>,
}

/// The versions listed under `name`, or none where `name` is not listed.
pub open spec fn published(catalog: Map<Seq<char>, Seq<Version>>, name: Seq<char>) -> Option<
    Seq<Version>,
> {
    if catalog.contains_key(name) {
        Some(catalog[name])
    } else {
        None
    }
}

/// The catalog with `version` added at the end of the versions of `name`.
pub open spec fn with_version(
    catalog: Map<Seq<char>, Seq<Version>>,
    name: Seq<char>,
    version: Version,
) -> Map<Seq<char>, Seq<Version>> {
    catalog.insert(
        name,
        match published(catalog, name) {
            Some(versions) => versions.push(version),
            None => seq![version],
        },
    )
}

/// The catalog of a list of pairs of a package name and the text of a
/// version, each added in turn. An entry whose text is no version adds
/// nothing.
pub open spec fn catalog_of(entries: Seq<(Seq<char>, Seq<char>)>) -> Map<Seq<char>, Seq<Version>>
    decreases entries.len(),
{
    if entries.len() == 0 {
        Map::empty()
    } else {
        let rest = catalog_of(entries.drop_last());
        match Version::from_text(entries.last().1) {
            Some(version) => with_version(rest, entries.last().0, version),
            None => rest,
        }
    }
}

/// The names and the texts that a list of entries holds.
pub open spec fn entries_view(entries: Seq<(String, String)>) -> Seq<(Seq<char>, Seq<char>)> {
    entries.map_values(|e: (String, String)| (e.0@, e.1@))
}

/// The entry at `i` is the first one whose text is no version.
pub open spec fn is_first_invalid(entries: Seq<(Seq<char>, Seq<char>)>, i: int) -> bool {
    &&& 0 <= i < entries.len()
    &&& Version::from_text(entries[i].1) is None
    &&& forall|j: int| 0 <= j < i ==> Version::from_text(#[trigger] entries[j].1) is Some
}

impl View for VersionCatalog {
    type V = Map<Seq<char>, Seq<Version>>;

    closed spec fn view(&self) -> Map<Seq<char>, Seq<Version>> {
        Map::new(
            |name: Seq<char>| self.lists(name),
            |name: Seq<char>| self.entries[self.position(name)].versions@,
        )
    }
}

impl VersionCatalog {
    /// The entry at `i` is the first one of `name`.
    closed spec fn first_at(&self, name: Seq<char>, i: int) -> bool {
        &&& 0 <= i < self.entries.len()
        &&& self.entries[i].name@ == name
        &&& forall|j: int| 0 <= j < i ==> self.entries[j].name@ != name
    }

    closed spec fn lists(&self, name: Seq<char>) -> bool {
        exists|i: int| self.first_at(name, i)
    }

    closed spec fn position(&self, name: Seq<char>) -> int {
        choose|i: int| self.first_at(name, i)
    }

    /// A catalog that lists no package.
    pub fn new() -> (r: VersionCatalog)
        ensures
            r@ == Map::<Seq<char>, Seq<Version>>::empty(),
    {
        let r = VersionCatalog { entries: Vec::new() };
        assert(r@ =~= Map::<Seq<char>, Seq<Version>>::empty());
        r
    }

    /// The catalog of a list of registry entries, each a package name and the
    /// text of a version. It fails at the first entry whose text is no
    /// version.
    pub fn from_entries(entries: &Vec<(String, String)>) -> (r: Result<
        VersionCatalog,
        CatalogError,
    >)
        ensures
            match r {
                Ok(catalog) => catalog@ == catalog_of(entries_view(entries@)) && forall|j: int|
                    0 <= j < entries.len() ==> Version::from_text(
                        #[trigger] entries_view(entries@)[j].1,
                    ) is Some,
                Err(e) => e matches CatalogError::InvalidVersion { index } && is_first_invalid(
                    entries_view(entries@),
                    index as int,
                ),
            },
    {
        let mut catalog = VersionCatalog::new();
        let ghost all = entries_view(entries@);
        let mut i: usize = 0;
        assert(all.take(0) =~= Seq::<(Seq<char>, Seq<char>)>::empty());
        while i < entries.len()
            invariant
                i <= entries.len(),
                all == entries_view(entries@),
                catalog@ == catalog_of(all.take(i as int)),
                forall|j: int| 0 <= j < i ==> Version::from_text(#[trigger] all[j].1) is Some,
            decreases entries.len() - i,
        {
            let entry = &entries[i];
            proof {
                let next = all.take(i + 1);
                assert(next.drop_last() =~= all.take(i as int));
                assert(next.last() == (entry.0@, entry.1@));
            }
            match Version::parse(entry.1.as_str()) {
                None => {
                    return Err(CatalogError::InvalidVersion { index: i });
                },
                Some(version) => {
                    catalog.insert(entry.0.as_str(), version);
                },
            }
            i += 1;
        }
        assert(all.take(entries.len() as int) =~= all);
        Ok(catalog)
    }

    /// The place of `name` among the entries.
    fn find(&self, name: &str) -> (r: Option<usize>)
        ensures
            match r {
                Some(i) => self.first_at(name@, i as int) && self.position(name@) == i
                    && self.lists(name@),
                None => !self.lists(name@) && forall|j: int|
                    0 <= j < self.entries.len() ==> self.entries[j].name@ != name@,
            },
    {
        let mut i: usize = 0;
        while i < self.entries.len()
            invariant
                i <= self.entries.len(),
                forall|j: int| 0 <= j < i ==> self.entries[j].name@ != name@,
            decreases self.entries.len() - i,
        {
            if same_text(self.entries[i].name.as_str(), name) {
                return Some(i);
            }
            i += 1;
        }
        None
    }

    /// The versions published under `name`, in the order in which they were
    /// added; none where the catalog does not list `name`.
    pub fn lookup(&self, name: &str) -> (r: Option<Vec<Version>>)
        ensures
            match r {
                Some(versions) => published(self@, name@) == Some(versions@),
                None => published(self@, name@) is None,
            },
    {
        match self.find(name) {
            None => None,
            Some(i) => {
                let versions = &self.entries[i].versions;
                let mut copy: Vec<Version> = Vec::new();
                let mut k: usize = 0;
                while k < versions.len()
                    invariant
                        k <= versions.len(),
                        copy@ == versions@.take(k as int),
                    decreases versions.len() - k,
                {
                    copy.push(versions[k]);
                    k += 1;
                }
                assert(copy@ =~= versions@);
                Some(copy)
            },
        }
    }

    /// Adds `version` at the end of the versions of `name`.
    pub fn insert(&mut self, name: &str, version: Version)
        ensures
            final(self)@ == with_version(old(self)@, name@, version),
    {
        let ghost before = *self;
        let found = self.find(name);
        match found {
            Some(i) => {
                self.entries[i].versions.push(version);
            },
            None => {
                let mut versions: Vec<Version> = Vec::new();
                versions.push(version);
                self.entries.push(CatalogEntry { name: String::from_str(name), versions });
            },
        }
        proof {
            let at: int = match found {
                Some(i) => i as int,
                None => before.entries.len() as int,
            };
            assert(self.entries[at].name@ == name@);
            assert(forall|j: int|
                0 <= j < before.entries.len() ==> self.entries[j].name@ == before.entries[j].name@);
            assert(forall|j: int|
                0 <= j < before.entries.len() && j != at ==> self.entries[j].versions@
                    == before.entries[j].versions@);
            assert(self.first_at(name@, at));
            assert forall|n: Seq<char>, k: int|
                self.first_at(n, k) == (before.first_at(n, k) || (n == name@ && k == at)) by {
                if before.first_at(n, k) && n == name@ {
                    assert(before.first_at(n, before.position(n)));
                }
            }
            assert forall|n: Seq<char>| self.lists(n) implies self.first_at(
                n,
                self.position(n),
            ) by {}
            assert forall|n: Seq<char>| before.lists(n) implies before.first_at(
                n,
                before.position(n),
            ) by {}
            let after = with_version(before@, name@, version);
            assert forall|n: Seq<char>| after.contains_key(n) == self@.contains_key(n) by {
                if before.lists(n) {
                    assert(before.first_at(n, before.position(n)));
                    assert(self.first_at(n, before.position(n)));
                }
                if n == name@ {
                    assert(self.first_at(n, at));
                }
                if self.lists(n) {
                    let k = self.position(n);
                    assert(self.first_at(n, k));
                    assert(before.first_at(n, k) || n == name@);
                }
                assert(before@.contains_key(n) == before.lists(n));
                assert(self@.contains_key(n) == self.lists(n));
            }
            assert forall|n: Seq<char>| self@.contains_key(n) implies self@[n] == after[n] by {
                let k = self.position(n);
                assert(self.first_at(n, k));
                if n == name@ {
                    assert(k == at);
                    if found is Some {
                        assert(before.first_at(n, at));
                        assert(before.position(n) == at);
                    }
                } else {
                    assert(before.first_at(n, k));
                    assert(before.first_at(n, before.position(n)));
                }
            }
            assert(self@ =~= after);
        }
    }
}

} // verus!
