//! The metadata of the package registry, and how often it is asked for.

use crate::catalog::{catalog_of, CatalogError, VersionCatalog};
use crate::text::same_text;
use crate::version::Version;
use vstd::prelude::*;

verus! {

/// A value of the registry's metadata, as far as a catalog is read from it:
/// a text, a list, an object with its members in order, or anything else.
#[derive(Debug, PartialEq, Eq)]
pub enum Json {
    Text(String),
    List(Vec<Json>),
    Object(Vec<(String, Json)>),
    Other,
}

/// The place of the first member named `key` among `members`, looked for
/// from `from` on.
pub open spec fn member_index(members: Seq<(String, Json)>, key: Seq<char>, from: int) -> Option<
    int,
>
    decreases members.len() - from,
{
    if from < 0 || from >= members.len() {
        None
    } else if members[from].0@ == key {
        Some(from)
    } else {
        member_index(members, key, from + 1)
    }
}

/// The first member named `key` of an object.
pub open spec fn member(value: Json, key: Seq<char>) -> Option<Json> {
    match value {
        Json::Object(members) => match member_index(members@, key, 0) {
            Some(i) => Some(members@[i].1),
            None => None,
        },
        _ => None,
    }
}

/// Why an entry of the metadata names no package version, with 0 in place of
/// its index: it is no object, or its member `name` or its member `version`
/// is missing or no text.
pub open spec fn entry_fault(item: Json) -> Option<CatalogError> {
    if !(item is Object) {
        Some(CatalogError::NotAnObject { index: 0 })
    } else {
        match member(item, "name"@) {
            None => Some(CatalogError::NameNotFound { index: 0 }),
            Some(name) => if !(name is Text) {
                Some(CatalogError::NameNotText { index: 0 })
            } else {
                match member(item, "version"@) {
                    None => Some(CatalogError::VersionNotFound { index: 0 }),
                    Some(version) => if !(version is Text) {
                        Some(CatalogError::VersionNotText { index: 0 })
                    } else {
                        None
                    },
                }
            },
        }
    }
}

/// The name and the text of the version that a faultless entry holds.
pub open spec fn entry_of(item: Json) -> (Seq<char>, Seq<char>) {
    (member(item, "name"@)->0->Text_0@, member(item, "version"@)->0->Text_0@)
}

/// `fault` at the entry `index`.
pub open spec fn at_index(fault: CatalogError, index: usize) -> CatalogError {
    match fault {
        CatalogError::NotAList => CatalogError::NotAList,
        CatalogError::NotAnObject { .. } => CatalogError::NotAnObject { index },
        CatalogError::NameNotFound { .. } => CatalogError::NameNotFound { index },
        CatalogError::NameNotText { .. } => CatalogError::NameNotText { index },
        CatalogError::VersionNotFound { .. } => CatalogError::VersionNotFound { index },
        CatalogError::VersionNotText { .. } => CatalogError::VersionNotText { index },
        CatalogError::InvalidVersion { .. } => CatalogError::InvalidVersion { index },
    }
}

/// Why an entry names no package version, with its version read: a fault of
/// [`entry_fault`], or a text that is no version.
pub open spec fn entry_error(item: Json) -> Option<CatalogError> {
    match entry_fault(item) {
        Some(fault) => Some(fault),
        None => if Version::from_text(entry_of(item).1) is None {
            Some(CatalogError::InvalidVersion { index: 0 })
        } else {
            None
        },
    }
}

/// The names and version texts of a list of faultless entries.
pub open spec fn entries_of(items: Seq<Json>) -> Seq<(Seq<char>, Seq<char>)> {
    items.map_values(|item: Json| entry_of(item))
}

/// What reading a catalog from the metadata gives: the catalog of its
/// entries, or the error of the first entry that has one.
pub open spec fn catalog_of_metadata(value: Json) -> Result<
    Map<Seq<char>, Seq<Version>>,
    CatalogError,
> {
    match value {
        Json::List(items) => {
            if exists|i: int| is_first_error(items@, i) {
                let i = choose|i: int| is_first_error(items@, i);
                Err(at_index(entry_error(items@[i])->0, i as usize))
            } else {
                Ok(catalog_of(entries_of(items@)))
            }
        },
        _ => Err(CatalogError::NotAList),
    }
}

/// The entry at `i` is the first one with an error.
pub open spec fn is_first_error(items: Seq<Json>, i: int) -> bool {
    &&& 0 <= i < items.len()
    &&& entry_error(items[i]) is Some
    &&& forall|j: int| 0 <= j < i ==> entry_error(#[trigger] items[j]) is None
}

/// The first member named `key` of an object; none for another value.
fn get<'a>(value: &'a Json, key: &str) -> (r: Option<&'a Json>)
    ensures
        match r {
            Some(found) => member(*value, key@) == Some(*found),
            None => member(*value, key@) is None,
        },
{
    match value {
        Json::Object(members) => {
            let mut i: usize = 0;
            while i < members.len()
                invariant
                    *value is Object,
                    value->Object_0 == members,
                    i <= members.len(),
                    member_index(members@, key@, 0) == member_index(members@, key@, i as int),
                decreases members.len() - i,
            {
                if same_text(members[i].0.as_str(), key) {
                    return Some(&members[i].1);
                }
                i += 1;
            }
            None
        },
        _ => None,
    }
}

/// The name and the text of the version of one entry.
fn read_entry(item: &Json) -> (r: Result<(String, String), CatalogError>)
    ensures
        match r {
            Ok(entry) => entry_fault(*item) is None && (entry.0@, entry.1@) == entry_of(*item),
            Err(e) => entry_fault(*item) == Some(e),
        },
{
    match item {
        Json::Object(_) => {},
        _ => {
            return Err(CatalogError::NotAnObject { index: 0 });
        },
    }
    let name = match get(item, "name") {
        None => {
            return Err(CatalogError::NameNotFound { index: 0 });
        },
        Some(Json::Text(name)) => name,
        Some(_) => {
            return Err(CatalogError::NameNotText { index: 0 });
        },
    };
    let version = match get(item, "version") {
        None => {
            return Err(CatalogError::VersionNotFound { index: 0 });
        },
        Some(Json::Text(version)) => version,
        Some(_) => {
            return Err(CatalogError::VersionNotText { index: 0 });
        },
    };
    Ok((name.clone(), version.clone()))
}

impl VersionCatalog {
    /// Reads the catalog from the metadata of the registry: a list of objects,
    /// each with a text member `name` and a text member `version`. It fails at
    /// the first entry that is not of that form or whose version is no
    /// version.
    pub fn from_metadata(value: &Json) -> (r: Result<VersionCatalog, CatalogError>)
        ensures
            match r {
                Ok(catalog) => catalog_of_metadata(*value) == Ok::<
                    Map<Seq<char>, Seq<Version>>,
                    CatalogError,
                >(catalog@),
                Err(e) => catalog_of_metadata(*value) == Err::<
                    Map<Seq<char>, Seq<Version>>,
                    CatalogError,
                >(e),
            },
    {
        let items = match value {
            Json::List(items) => items,
            _ => {
                return Err(CatalogError::NotAList);
            },
        };
        let mut catalog = VersionCatalog::new();
        let mut i: usize = 0;
        let ghost all = entries_of(items@);
        assert(all.take(0) =~= Seq::<(Seq<char>, Seq<char>)>::empty());
        while i < items.len()
            invariant
                *value is List,
                value->List_0 == items,
                i <= items.len(),
                all == entries_of(items@),
                catalog@ == catalog_of(all.take(i as int)),
                forall|j: int| 0 <= j < i ==> entry_error(#[trigger] items@[j]) is None,
            decreases items.len() - i,
        {
            let fault: Option<CatalogError> = match read_entry(&items[i]) {
                Err(e) => Some(e),
                Ok(entry) => match Version::parse(entry.1.as_str()) {
                    None => Some(CatalogError::InvalidVersion { index: 0 }),
                    Some(version) => {
                        proof {
                            let next = all.take(i + 1);
                            assert(next.drop_last() =~= all.take(i as int));
                            assert(next.last() == entry_of(items@[i as int]));
                        }
                        catalog.insert(entry.0.as_str(), version);
                        None
                    },
                },
            };
            if let Some(e) = fault {
                proof {
                    assert(is_first_error(items@, i as int));
                    let k = choose|k: int| is_first_error(items@, k);
                    assert(k == i);
                }
                return Err(with_index(e, i));
            }
            i += 1;
        }
        proof {
            assert(all.take(items.len() as int) =~= all);
            assert forall|k: int| !is_first_error(items@, k) by {}
        }
        Ok(catalog)
    }
}

/// The catalog of a run: empty until it is populated from the metadata of the
/// registry, and the same from then on.
pub struct CatalogCache {
    catalog: Option<VersionCatalog>,
}

impl View for CatalogCache {
    type V = Option<Map<Seq<char>, Seq<Version>>>;

    closed spec fn view(&self) -> Option<Map<Seq<char>, Seq<Version>>> {
        match self.catalog {
            Some(catalog) => Some(catalog@),
            None => None,
        }
    }
}

impl CatalogCache {
    /// A cache that is not populated yet.
    pub fn new() -> (r: CatalogCache)
        ensures
            r@ is None,
    {
        CatalogCache { catalog: None }
    }

    /// The catalog, once the cache is populated.
    pub fn get(&self) -> (r: Option<&VersionCatalog>)
        ensures
            match r {
                Some(catalog) => self@ == Some(catalog@),
                None => self@ is None,
            },
    {
        match &self.catalog {
            Some(catalog) => Some(catalog),
            None => None,
        }
    }

    /// Whether the cache is populated.
    pub fn is_populated(&self) -> (r: bool)
        ensures
            r == self@ is Some,
    {
        self.catalog.is_some()
    }

    /// Populates the cache from the metadata of the registry, unless it is
    /// populated already: a populated cache stays as it is, whatever the
    /// metadata holds. Returns whether the cache was populated by this call.
    /// Where the metadata is no catalog, the cache stays empty.
    pub fn populate(&mut self, metadata: &Json) -> (r: Result<bool, CatalogError>)
        ensures
            match old(self)@ {
                Some(catalog) => final(self)@ == Some(catalog) && r == Ok::<bool, CatalogError>(
                    false,
                ),
                None => match catalog_of_metadata(*metadata) {
                    Ok(catalog) => final(self)@ == Some(catalog) && r == Ok::<bool, CatalogError>(
                        true,
                    ),
                    Err(e) => final(self)@ is None && r == Err::<bool, CatalogError>(e),
                },
            },
    {
        if self.catalog.is_some() {
            return Ok(false);
        }
        match VersionCatalog::from_metadata(metadata) {
            Ok(catalog) => {
                self.catalog = Some(catalog);
                Ok(true)
            },
            Err(e) => Err(e),
        }
    }
}

/// How often fetching the metadata is tried again after it has failed.
pub const FETCH_RETRIES: u32 = 5;

/// From how many milliseconds on a fetch is slow enough to be mentioned.
pub const SLOW_FETCH_MILLIS: u64 = 1000;

/// What to do after an attempt to fetch the metadata has failed.
#[derive(Clone, Copy, Debug, PartialEq, Eq, Structural)]
pub enum FetchStep {
    /// Try again, with `retries_left` further tries after that.
    Retry { retries_left: u32 },
    /// Give up: the metadata cannot be had.
    GiveUp,
}

/// What to do after an attempt has failed with `retries_left` tries left: try
/// again while one is left, give up when none is.
pub fn after_failed_fetch(retries_left: u32) -> (r: FetchStep)
    ensures
        r == if retries_left > 0 {
            FetchStep::Retry { retries_left: (retries_left - 1) as u32 }
        } else {
            FetchStep::GiveUp
        },
{
    if retries_left > 0 {
        FetchStep::Retry { retries_left: retries_left - 1 }
    } else {
        FetchStep::GiveUp
    }
}

/// Whether a fetch that took `elapsed_millis` milliseconds is mentioned.
pub fn is_slow_fetch(elapsed_millis: u64) -> (r: bool)
    ensures
        r == (elapsed_millis >= SLOW_FETCH_MILLIS),
{
    elapsed_millis >= SLOW_FETCH_MILLIS
}

/// `fault` at the entry `index`.
fn with_index(fault: CatalogError, index: usize) -> (r: CatalogError)
    ensures
        r == at_index(fault, index),
{
    match fault {
        CatalogError::NotAList => CatalogError::NotAList,
        CatalogError::NotAnObject { .. } => CatalogError::NotAnObject { index },
        CatalogError::NameNotFound { .. } => CatalogError::NameNotFound { index },
        CatalogError::NameNotText { .. } => CatalogError::NameNotText { index },
        CatalogError::VersionNotFound { .. } => CatalogError::VersionNotFound { index },
        CatalogError::VersionNotText { .. } => CatalogError::VersionNotText { index },
        CatalogError::InvalidVersion { .. } => CatalogError::InvalidVersion { index },
    }
}

} // verus!
