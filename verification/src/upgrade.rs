//! Converting a document tree.

use crate::advisory::{advisories_view, Advisory, AdvisoryView};
use crate::catalog::VersionCatalog;
use crate::literal::{holds_quoted, quote, str_literal_value};
use crate::node::{DocumentNode, NodeKind, Tree};
use crate::planner::{PackageUpgrader, UpgradeError, UpgradeErrorView};
use crate::rewrite::{
    decide, import_literal, import_reference, import_source, is_inert, is_source_at,
    lemma_failure_stays, plan_import, plan_reference, rebuild, rewrite, rewrite_children,
    when_verbose, Plan, Rewritten, Settings, Swap,
};
use crate::text::same_text;
use crate::typstdep::TypstDep;
use vstd::prelude::*;

verus! {

/// What is decided about one reference.
#[derive(Debug, PartialEq, Eq)]
pub struct ReferencePlan {
    /// The reference to write in place of the present one, if any.
    pub target: Option<TypstDep>,
    /// Whether a newer, incompatible version was held back.
    pub incompatible: bool,
    /// What the operator is told.
    pub advisories: Vec<Advisory>,
}

impl View for ReferencePlan {
    type V = Plan;

    open spec fn view(&self) -> Plan {
        Plan {
            target: match self.target {
                Some(package) => Some(package@),
                None => None,
            },
            incompatible: self.incompatible,
            notes: advisories_view(self.advisories@),
        }
    }
}

/// The value of a pair of the text to replace and the text to write.
pub open spec fn swap_view(swap: Option<(String, String)>) -> Option<Swap> {
    match swap {
        Some(pair) => Some(Swap { from: pair.0@, to: pair.1@ }),
        None => None,
    }
}

/// The values of a list of nodes.
pub open spec fn nodes_view(nodes: Seq<DocumentNode>) -> Seq<Tree> {
    nodes.map_values(|n: DocumentNode| n@)
}

/// `note` in verbose mode, nothing otherwise.
fn note_when_verbose(verbose: bool, note: Advisory) -> (r: Vec<Advisory>)
    ensures
        advisories_view(r@) == when_verbose(verbose, note@),
{
    let mut notes: Vec<Advisory> = Vec::new();
    if verbose {
        notes.push(note);
    }
    assert(advisories_view(notes@) =~= when_verbose(verbose, note@));
    notes
}

/// What is decided about the package of `upgrader`, given its candidates.
pub fn decide_upgrade(upgrader: &PackageUpgrader, compatible: bool, verbose: bool) -> (r:
    ReferencePlan)
    ensures
        r@ == decide(upgrader@.pkg, upgrader@.ver, compatible, verbose),
{
    let package = upgrader.package();
    match upgrader.next(false) {
        None => ReferencePlan {
            target: None,
            incompatible: false,
            advisories: note_when_verbose(verbose, Advisory::UpToDate { package: package.clone() }),
        },
        Some(newest) => {
            if !compatible {
                let note = Advisory::Update {
                    package: package.clone(),
                    version: newest.version(),
                    available: None,
                };
                ReferencePlan {
                    target: Some(newest),
                    incompatible: false,
                    advisories: note_when_verbose(verbose, note),
                }
            } else {
                match upgrader.next(true) {
                    None => {
                        let mut advisories = note_when_verbose(
                            verbose,
                            Advisory::UpToDate { package: package.clone() },
                        );
                        let ghost said = advisories@;
                        let note = Advisory::Unchanged {
                            package: package.clone(),
                            newest: newest.version(),
                        };
                        advisories.push(note);
                        assert(advisories_view(advisories@) =~= advisories_view(said) + seq![
                            note@,
                        ]);
                        ReferencePlan { target: None, incompatible: true, advisories }
                    },
                    Some(next) => {
                        if next.version() == newest.version() {
                            let note = Advisory::Update {
                                package: package.clone(),
                                version: next.version(),
                                available: None,
                            };
                            ReferencePlan {
                                target: Some(next),
                                incompatible: false,
                                advisories: note_when_verbose(verbose, note),
                            }
                        } else {
                            let note = Advisory::Update {
                                package: package.clone(),
                                version: next.version(),
                                available: Some(newest.version()),
                            };
                            let mut advisories: Vec<Advisory> = Vec::new();
                            advisories.push(note);
                            assert(advisories_view(advisories@) =~= seq![note@]);
                            ReferencePlan { target: Some(next), incompatible: true, advisories }
                        }
                    },
                }
            }
        },
    }
}

/// The place of the source among the children of an import statement.
fn find_source(children: &Vec<DocumentNode>) -> (r: Option<usize>)
    ensures
        match r {
            Some(i) => i < children.len() && children[i as int]@.kind().is_expression()
                && forall|j: int| 0 <= j < i ==> !(#[trigger] children[j])@.kind().is_expression(),
            None => forall|j: int|
                0 <= j < children.len() ==> !(#[trigger] children[j])@.kind().is_expression(),
        },
{
    let mut i: usize = 0;
    while i < children.len()
        invariant
            i <= children.len(),
            forall|j: int| 0 <= j < i ==> !(#[trigger] children[j])@.kind().is_expression(),
        decreases children.len() - i,
    {
        if children[i].kind().holds_expression() {
            return Some(i);
        }
        i += 1;
    }
    None
}

/// The source of an import statement.
fn source_of(node: &DocumentNode) -> (r: Option<&DocumentNode>)
    ensures
        match r {
            Some(source) => import_source(node@) == Some(source@),
            None => import_source(node@) is None,
        },
{
    match node {
        DocumentNode::Leaf { .. } => None,
        DocumentNode::Inner { children, .. } => {
            let found = find_source(children);
            proof {
                let cs = node@.children();
                assert(forall|j: int| 0 <= j < cs.len() ==> cs[j] == children[j]@);
                if let Some(i) = found {
                    assert(is_source_at(cs, i as int));
                    let k = choose|k: int| is_source_at(cs, k);
                    assert(k == i);
                } else {
                    assert forall|k: int| !is_source_at(cs, k) by {
                        if 0 <= k < cs.len() {
                            assert(cs[k] == children[k]@);
                        }
                    }
                }
            }
            match found {
                Some(i) => Some(&children[i]),
                None => None,
            }
        },
    }
}

/// The text of the string literal that `node` imports from, where its source
/// is one.
pub fn literal_of(node: &DocumentNode) -> (r: Option<&str>)
    ensures
        match r {
            Some(text) => import_literal(node@) == Some(text@),
            None => import_literal(node@) is None,
        },
{
    match source_of(node) {
        None => None,
        Some(source) => {
            if source.kind() != NodeKind::Str {
                return None;
            }
            let text = source.leaf_text();
            if holds_quoted(text) {
                Some(text)
            } else {
                None
            }
        },
    }
}

/// The package that an import statement names.
pub fn reference_of(node: &DocumentNode) -> (r: Option<TypstDep>)
    ensures
        match r {
            Some(package) => import_reference(node@) == Some(package@),
            None => import_reference(node@) is None,
        },
{
    match literal_of(node) {
        None => None,
        Some(text) => {
            let value = str_literal_value(text);
            match TypstDep::parse(value.as_str()) {
                Ok(package) => Some(package),
                Err(_) => None,
            }
        },
    }
}

/// Whether converting the tree may ask the catalog: whether an import
/// statement that conversion comes to names a package outside the namespace
/// `local`. Where it does not, the tree comes back as it is from any catalog.
pub fn needs_catalog(node: &DocumentNode) -> (r: bool)
    ensures
        r == !is_inert(node@),
    decreases node,
{
    if node.kind() == NodeKind::ModuleImport {
        match reference_of(node) {
            Some(package) => !package.is_local(),
            None => false,
        }
    } else {
        match node {
            DocumentNode::Leaf { .. } => false,
            DocumentNode::Inner { children, .. } => {
                let mut i: usize = 0;
                while i < children.len()
                    invariant
                        node is Inner,
                        node->children == children,
                        !(node@.kind() is ModuleImport),
                        i <= children.len(),
                        forall|j: int| 0 <= j < i ==> is_inert(#[trigger] node@.children()[j]),
                    decreases children.len() - i,
                {
                    assert(decreases_to!(node => node->children));
                    assert(decreases_to!(node->children => node->children[i as int]));
                    assert(node@.children()[i as int] == children[i as int]@);
                    if needs_catalog(&children[i]) {
                        return true;
                    }
                    i += 1;
                }
                false
            },
        }
    }
}

/// Rewrites the package references of a document tree.
pub struct TypstNodeUpgrader<'a> {
    root: &'a DocumentNode,
    verbose: bool,
    compatible: bool,
    catalog: &'a VersionCatalog,
}

impl<'a> TypstNodeUpgrader<'a> {
    /// The tree to convert.
    pub closed spec fn root(&self) -> Tree {
        self.root@
    }

    /// The settings of the run.
    pub closed spec fn settings(&self) -> Settings {
        Settings { catalog: self.catalog@, compatible: self.compatible, verbose: self.verbose }
    }

    /// An upgrader of `root` that takes the published versions from
    /// `catalog`. With `compatible` it keeps to compatible upgrades; with
    /// `verbose` it says what it does with every import.
    pub fn new(
        root: &'a DocumentNode,
        verbose: bool,
        compatible: bool,
        catalog: &'a VersionCatalog,
    ) -> (r: Self)
        ensures
            r.root() == root@,
            r.settings() == (Settings { catalog: catalog@, compatible, verbose }),
    {
        Self { root, verbose, compatible, catalog }
    }

    /// Converts the whole tree. Returns the converted tree, whether a newer,
    /// incompatible version was held back anywhere, and what the operator is
    /// told, in the order of the document.
    pub fn convert(&self) -> (r: Result<(DocumentNode, bool, Vec<Advisory>), UpgradeError>)
        requires
            self.root().kind().is_root(),
        ensures
            match r {
                Ok((node, incompatible, advisories)) => rewrite(self.root(), self.settings())
                    == Ok::<Rewritten<Tree>, UpgradeErrorView>(
                    Rewritten { value: node@, incompatible, notes: advisories_view(advisories@) },
                ),
                Err(e) => rewrite(self.root(), self.settings()) == Err::<
                    Rewritten<Tree>,
                    UpgradeErrorView,
                >(e@),
            },
    {
        self.convert_recursively(self.root)
    }

    /// What is decided about the import of `value`, the value of a string
    /// literal.
    pub fn plan_reference(&self, value: &str) -> (r: Result<ReferencePlan, UpgradeError>)
        ensures
            match r {
                Ok(plan) => plan_reference(value@, self.settings()) == Ok::<Plan, UpgradeErrorView>(
                    plan@,
                ),
                Err(e) => plan_reference(value@, self.settings()) == Err::<Plan, UpgradeErrorView>(
                    e@,
                ),
            },
    {
        match TypstDep::parse(value) {
            Err(_) => {
                let advisories: Vec<Advisory> = Vec::new();
                assert(advisories_view(advisories@) =~= Seq::<AdvisoryView>::empty());
                Ok(ReferencePlan { target: None, incompatible: false, advisories })
            },
            Ok(package) => {
                if package.is_local() {
                    let advisories = note_when_verbose(
                        self.verbose,
                        Advisory::LocalPackage { package: package.clone() },
                    );
                    return Ok(ReferencePlan { target: None, incompatible: false, advisories });
                }
                match PackageUpgrader::build_with_query(&package, self.catalog) {
                    Err(e) => Err(e),
                    Ok(upgrader) => Ok(decide_upgrade(&upgrader, self.compatible, self.verbose)),
                }
            },
        }
    }

    /// What is decided about an import statement.
    pub fn plan_import(&self, node: &DocumentNode) -> (r: Result<ReferencePlan, UpgradeError>)
        ensures
            match r {
                Ok(plan) => plan_import(node@, self.settings()) == Ok::<Plan, UpgradeErrorView>(
                    plan@,
                ),
                Err(e) => plan_import(node@, self.settings()) == Err::<Plan, UpgradeErrorView>(e@),
            },
    {
        let source = source_of(node);
        let is_literal = match source {
            Some(s) => s.kind() == NodeKind::Str,
            None => false,
        };
        if !is_literal {
            let advisories = note_when_verbose(
                self.verbose,
                Advisory::NonStringImport { text: node.into_text() },
            );
            return Ok(ReferencePlan { target: None, incompatible: false, advisories });
        }
        match literal_of(node) {
            None => {
                let advisories: Vec<Advisory> = Vec::new();
                assert(advisories_view(advisories@) =~= Seq::<AdvisoryView>::empty());
                Ok(ReferencePlan { target: None, incompatible: false, advisories })
            },
            Some(text) => {
                let value = str_literal_value(text);
                self.plan_reference(value.as_str())
            },
        }
    }

    /// Converts `node`: an import statement by its plan, any other node child
    /// by child.
    fn convert_recursively(&self, node: &DocumentNode) -> (r: Result<
        (DocumentNode, bool, Vec<Advisory>),
        UpgradeError,
    >)
        ensures
            match r {
                Ok((converted, incompatible, advisories)) => rewrite(node@, self.settings())
                    == Ok::<Rewritten<Tree>, UpgradeErrorView>(
                    Rewritten {
                        value: converted@,
                        incompatible,
                        notes: advisories_view(advisories@),
                    },
                ),
                Err(e) => rewrite(node@, self.settings()) == Err::<
                    Rewritten<Tree>,
                    UpgradeErrorView,
                >(e@),
            },
        decreases node,
    {
        let mut has_incompat_versions = false;
        let mut advisories: Vec<Advisory> = Vec::new();
        let mut swap: Option<(String, String)> = None;
        assert(advisories_view(advisories@) =~= Seq::<AdvisoryView>::empty());
        if node.kind() == NodeKind::ModuleImport {
            let plan = match self.plan_import(node) {
                Err(e) => {
                    return Err(e);
                },
                Ok(plan) => plan,
            };
            match (plan.target, literal_of(node)) {
                (Some(package), Some(from)) => {
                    let text = package.to_string();
                    swap = Some((String::from_str(from), quote(text.as_str())));
                    has_incompat_versions = plan.incompatible;
                    advisories = plan.advisories;
                },
                _ => {
                    return Ok((node.duplicate(), plan.incompatible, plan.advisories));
                },
            }
        } else if node.len() == 0 {
            return Ok((node.duplicate(), false, advisories));
        }
        let ghost settings = self.settings();
        let ghost swapped = swap_view(swap);
        let ghost said = advisories_view(advisories@);
        let ghost held = has_incompat_versions;
        assert(rewrite(node@, settings) == rebuild(
            node@.kind(),
            held,
            said,
            rewrite_children(node@, node@.children().len(), swapped, settings),
        ));
        match node {
            DocumentNode::Leaf { .. } => Ok((node.duplicate(), has_incompat_versions, advisories)),
            DocumentNode::Inner { kind, children } => {
                let mut converted: Vec<DocumentNode> = Vec::new();
                let mut i: usize = 0;
                assert(nodes_view(converted@) =~= Seq::<Tree>::empty());
                assert(said + Seq::<AdvisoryView>::empty() =~= said);
                while i < children.len()
                    invariant
                        node is Inner,
                        node->children == children,
                        node@.children().len() == children.len(),
                        settings == self.settings(),
                        rewrite(node@, settings) == rebuild(
                            node@.kind(),
                            held,
                            said,
                            rewrite_children(node@, node@.children().len(), swapped, settings),
                        ),
                        swapped == swap_view(swap),
                        i <= children.len(),
                        rewrite_children(node@, i as nat, swapped, settings) matches Ok(rest)
                            && rest.value == nodes_view(converted@) && has_incompat_versions == (
                        held || rest.incompatible) && advisories_view(advisories@) == said
                            + rest.notes,
                    decreases children.len() - i,
                {
                    assert(decreases_to!(node => node->children));
                    assert(decreases_to!(node->children => node->children[i as int]));
                    let child = &children[i];
                    assert(node@.children()[i as int] == child@);
                    let ghost before = rewrite_children(node@, i as nat, swapped, settings)->Ok_0;
                    let replace = match &swap {
                        Some((from, _)) => child.kind() == NodeKind::Str && same_text(
                            child.leaf_text(),
                            from.as_str(),
                        ),
                        None => false,
                    };
                    if replace {
                        let to = match &swap {
                            Some((_, to)) => to.as_str(),
                            None => "",
                        };
                        let leaf = DocumentNode::leaf(NodeKind::Str, to);
                        converted.push(leaf);
                        assert(nodes_view(converted@) =~= before.value.push(leaf@));
                    } else {
                        match self.convert_recursively(child) {
                            Err(e) => {
                                proof {
                                    lemma_failure_stays(
                                        node@,
                                        (i + 1) as nat,
                                        children.len() as nat,
                                        swapped,
                                        settings,
                                    );
                                }
                                return Err(e);
                            },
                            Ok((next, incompatible, mut notes)) => {
                                let ghost old_notes = advisories@;
                                let ghost new_notes = notes@;
                                converted.push(next);
                                has_incompat_versions = has_incompat_versions || incompatible;
                                advisories.append(&mut notes);
                                assert(nodes_view(converted@) =~= before.value.push(next@));
                                assert(advisories_view(advisories@) =~= advisories_view(old_notes)
                                    + advisories_view(new_notes));
                                assert(said + (before.notes + advisories_view(new_notes)) =~= (said
                                    + before.notes) + advisories_view(new_notes));
                            },
                        }
                    }
                    i += 1;
                }
                let result = DocumentNode::Inner { kind: *kind, children: converted };
                proof {
                    let rest = rewrite_children(
                        node@,
                        children.len() as nat,
                        swapped,
                        settings,
                    )->Ok_0;
                    assert(result@.children() =~= rest.value);
                }
                Ok((result, has_incompat_versions, advisories))
            },
        }
    }
}

} // verus!
