//! What the operator is told about the imports of a document.

use crate::typstdep::{DepView, TypstDep};
use crate::version::Version;
use vstd::prelude::*;

verus! {

/// What the operator is told about one import statement.
#[derive(Debug, PartialEq, Eq)]
pub enum Advisory {
    /// The source of the import is no string literal. Said in verbose mode.
    NonStringImport { text: String },
    /// The package is local and so not upgradable. Said in verbose mode.
    LocalPackage { package: TypstDep },
    /// The reference is moved to `version`. Where a newer, incompatible
    /// version was held back, `available` names it; otherwise this is said in
    /// verbose mode only.
    Update { package: TypstDep, version: Version, available: Option<Version> },
    /// The reference is at its newest allowed version. Said in verbose mode.
    UpToDate { package: TypstDep },
    /// The reference stays as it is though a newer, incompatible version
    /// exists.
    Unchanged { package: TypstDep, newest: Version },
}

/// The mathematical value of an [`Advisory`].
pub enum AdvisoryView {
    NonStringImport { text: Seq<char> },
    LocalPackage { package: DepView },
    Update { package: DepView, version: Version, available: Option<Version> },
    UpToDate { package: DepView },
    Unchanged { package: DepView, newest: Version },
}

impl View for Advisory {
    type V = AdvisoryView;

    open spec fn view(&self) -> AdvisoryView {
        match self {
            Advisory::NonStringImport { text } => AdvisoryView::NonStringImport { text: text@ },
            Advisory::LocalPackage { package } => AdvisoryView::LocalPackage { package: package@ },
            Advisory::Update { package, version, available } => AdvisoryView::Update {
                package: package@,
                version: *version,
                available: *available,
            },
            Advisory::UpToDate { package } => AdvisoryView::UpToDate { package: package@ },
            Advisory::Unchanged { package, newest } => AdvisoryView::Unchanged {
                package: package@,
                newest: *newest,
            },
        }
    }
}

/// The values of a list of advisories.
pub open spec fn advisories_view(advisories: Seq<Advisory>) -> Seq<AdvisoryView> {
    advisories.map_values(|a: Advisory| a@)
}

impl AdvisoryView {
    /// Whether the advisory is a warning, said in every mode, rather than a
    /// piece of information.
    pub open spec fn is_warning(self) -> bool {
        match self {
            AdvisoryView::Update { available, .. } => available is Some,
            AdvisoryView::Unchanged { .. } => true,
            _ => false,
        }
    }

    /// The word that heads the line.
    pub open spec fn motion(self) -> Seq<char> {
        match self {
            AdvisoryView::Update { .. } => "Update"@,
            AdvisoryView::Unchanged { .. } => "Unchanged"@,
            _ => "NOTE"@,
        }
    }

    /// The rest of the line.
    pub open spec fn message(self) -> Seq<char> {
        match self {
            AdvisoryView::NonStringImport { text } => "Cannot upgrade non-string module import: "@
                + text,
            AdvisoryView::LocalPackage { package } => "Local package "@ + package.text()
                + " is not upgradable"@,
            AdvisoryView::Update { package, version, available } => match available {
                Some(newest) => package.text() + " -> "@ + version.text() + " (available: "@
                    + newest.text() + ")"@,
                None => package.text() + " -> "@ + version.text(),
            },
            AdvisoryView::UpToDate { package } => "Package "@ + package.text()
                + " is already up-to-date"@,
            AdvisoryView::Unchanged { package, newest } => package.text() + " (available: "@
                + newest.text() + ")"@,
        }
    }
}

impl Advisory {
    /// Whether the advisory is a warning rather than a piece of information.
    pub fn is_warning(&self) -> (r: bool)
        ensures
            r == self@.is_warning(),
    {
        match self {
            Advisory::Update { available, .. } => available.is_some(),
            Advisory::Unchanged { .. } => true,
            _ => false,
        }
    }

    /// The word that heads the line.
    pub fn motion(&self) -> (r: &'static str)
        ensures
            r@ == self@.motion(),
    {
        match self {
            Advisory::Update { .. } => "Update",
            Advisory::Unchanged { .. } => "Unchanged",
            _ => "NOTE",
        }
    }

    /// The rest of the line.
    pub fn message(&self) -> (r: String)
        ensures
            r@ == self@.message(),
    {
        match self {
            Advisory::NonStringImport { text } => {
                let mut out = String::from_str("Cannot upgrade non-string module import: ");
                out.append(text.as_str());
                out
            },
            Advisory::LocalPackage { package } => {
                let mut out = String::from_str("Local package ");
                out.append(package.to_string().as_str());
                out.append(" is not upgradable");
                out
            },
            Advisory::Update { package, version, available } => {
                let mut out = package.to_string();
                out.append(" -> ");
                out.append(version.to_string().as_str());
                match available {
                    Some(newest) => {
                        out.append(" (available: ");
                        out.append(newest.to_string().as_str());
                        out.append(")");
                    },
                    None => {},
                }
                out
            },
            Advisory::UpToDate { package } => {
                let mut out = String::from_str("Package ");
                out.append(package.to_string().as_str());
                out.append(" is already up-to-date");
                out
            },
            Advisory::Unchanged { package, newest } => {
                let mut out = package.to_string();
                out.append(" (available: ");
                out.append(newest.to_string().as_str());
                out.append(")");
                out
            },
        }
    }
}

} // verus!
