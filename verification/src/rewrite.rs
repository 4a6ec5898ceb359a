//! What converting a document tree gives: the tree with its package
//! references moved to the versions to upgrade to, and what is said on the
//! way.

use crate::advisory::AdvisoryView;
use crate::literal::{is_quoted, literal_value, quoted};
use crate::node::{NodeKind, Tree};
use crate::planner::{best, candidates, UpgradeErrorView};
use crate::typstdep::{parse_spec, DepView};
use crate::version::Version;
use vstd::prelude::*;

verus! {

/// What a run is given besides the document: the catalog, whether only
/// compatible upgrades are allowed, and whether everything is to be said.
pub struct Settings {
    pub catalog: Map<Seq<char>, Seq<Version>>,
    pub compatible: bool,
    pub verbose: bool,
}

/// What is decided about one reference.
pub struct Plan {
    /// The reference to write in place of the present one, if any.
    pub target: Option<DepView>,
    /// Whether a newer, incompatible version was held back.
    pub incompatible: bool,
    /// What the operator is told.
    pub notes: Seq<AdvisoryView>,
}

/// `note` in verbose mode, nothing otherwise.
pub open spec fn when_verbose(verbose: bool, note: AdvisoryView) -> Seq<AdvisoryView> {
    if verbose {
        seq![note]
    } else {
        Seq::empty()
    }
}

/// What is decided about `package`, given the candidates for its upgrade.
///
/// In unrestricted mode the package moves to the newest candidate. In
/// compatible mode it moves to the newest compatible candidate, and a newer
/// candidate that is not compatible is held back: the plan tells so by
/// `incompatible` and by a warning, whether the package moves or not. Where
/// there is nothing to move to, that is said in verbose mode.
pub open spec fn decide(
    package: DepView,
    versions: Seq<Version>,
    compatible: bool,
    verbose: bool,
) -> Plan {
    let up_to_date = when_verbose(verbose, AdvisoryView::UpToDate { package });
    match best(versions, package.version, false) {
        None => Plan { target: None, incompatible: false, notes: up_to_date },
        Some(newest) => if !compatible {
            Plan {
                target: Some(package.upgrade_to(newest)),
                incompatible: false,
                notes: when_verbose(
                    verbose,
                    AdvisoryView::Update { package, version: newest, available: None },
                ),
            }
        } else {
            match best(versions, package.version, true) {
                None => Plan {
                    target: None,
                    incompatible: true,
                    notes: up_to_date + seq![
                        AdvisoryView::Unchanged { package, newest },
                    ],
                },
                Some(version) => if version == newest {
                    Plan {
                        target: Some(package.upgrade_to(version)),
                        incompatible: false,
                        notes: when_verbose(
                            verbose,
                            AdvisoryView::Update { package, version, available: None },
                        ),
                    }
                } else {
                    Plan {
                        target: Some(package.upgrade_to(version)),
                        incompatible: true,
                        notes: seq![
                            AdvisoryView::Update { package, version, available: Some(newest) },
                        ],
                    }
                },
            }
        },
    }
}

/// Nothing changes and nothing is said.
pub open spec fn silent() -> Plan {
    Plan { target: None, incompatible: false, notes: Seq::empty() }
}

/// What is decided about the import of `value`, the value of a string
/// literal: nothing where it is no package reference, nothing but a note
/// where the package is local, and otherwise what [`decide`] says of the
/// package and its candidates.
pub open spec fn plan_reference(value: Seq<char>, settings: Settings) -> Result<
    Plan,
    UpgradeErrorView,
> {
    match parse_spec(value) {
        Err(_) => Ok(silent()),
        Ok(package) => if package.is_local() {
            Ok(
                Plan {
                    target: None,
                    incompatible: false,
                    notes: when_verbose(settings.verbose, AdvisoryView::LocalPackage { package }),
                },
            )
        } else {
            match candidates(settings.catalog, package) {
                Err(e) => Err(e),
                Ok(versions) => Ok(
                    decide(package, versions, settings.compatible, settings.verbose),
                ),
            }
        },
    }
}

/// The child at `i` is the first expression among `children`.
pub open spec fn is_source_at(children: Seq<Tree>, i: int) -> bool {
    &&& 0 <= i < children.len()
    &&& children[i].kind().is_expression()
    &&& forall|j: int| 0 <= j < i ==> !(#[trigger] children[j]).kind().is_expression()
}

/// The source of an import statement: the first expression among its
/// children.
pub open spec fn import_source(node: Tree) -> Option<Tree> {
    if exists|i: int| is_source_at(node.children(), i) {
        Some(node.children()[choose|i: int| is_source_at(node.children(), i)])
    } else {
        None
    }
}

/// The text of the string literal that an import statement imports from,
/// where its source is one.
pub open spec fn import_literal(node: Tree) -> Option<Seq<char>> {
    match import_source(node) {
        Some(source) => if source.kind() is Str && is_quoted(source.payload()) {
            Some(source.payload())
        } else {
            None
        },
        None => None,
    }
}

/// What is decided about an import statement: what [`plan_reference`] says
/// of the value of its source where that is a string literal, and nothing
/// but a note in verbose mode where its source is something else.
pub open spec fn plan_import(node: Tree, settings: Settings) -> Result<Plan, UpgradeErrorView> {
    match import_source(node) {
        Some(source) if source.kind() is Str => if is_quoted(source.payload()) {
            plan_reference(literal_value(source.payload()), settings)
        } else {
            Ok(silent())
        },
        _ => Ok(
            Plan {
                target: None,
                incompatible: false,
                notes: when_verbose(
                    settings.verbose,
                    AdvisoryView::NonStringImport { text: node.text() },
                ),
            },
        ),
    }
}

/// A string literal to write in place of every string literal with the text
/// `from` among the children of an import statement.
pub struct Swap {
    pub from: Seq<char>,
    pub to: Seq<char>,
}

impl Swap {
    /// Whether `child` is one of the literals to replace.
    pub open spec fn hits(self, child: Tree) -> bool {
        child.kind() is Str && child.payload() == self.from
    }
}

/// A rewritten node, or a rewritten list of children, with what came of it.
pub struct Rewritten<T> {
    pub value: T,
    /// Whether a newer, incompatible version was held back anywhere.
    pub incompatible: bool,
    /// What the operator is told, in the order of the document.
    pub notes: Seq<AdvisoryView>,
}

/// An inner node of kind `kind` built from rewritten children, after
/// `said` was said and with `held` telling whether a version was held back
/// before; the failure where rewriting the children failed.
pub open spec fn rebuild(
    kind: NodeKind,
    held: bool,
    said: Seq<AdvisoryView>,
    rest: Result<Rewritten<Seq<Tree>>, UpgradeErrorView>,
) -> Result<Rewritten<Tree>, UpgradeErrorView> {
    match rest {
        Err(e) => Err(e),
        Ok(rest) => Ok(
            Rewritten {
                value: Tree::Inner { kind, children: rest.value },
                incompatible: held || rest.incompatible,
                notes: said + rest.notes,
            },
        ),
    }
}

/// The node rewritten.
///
/// An import statement is planned by [`plan_import`]. Without a target it
/// stays as it is, children included. With a target it is rebuilt: the
/// target's literal stands in place of each string literal among its children
/// that has the text of the source, and its other children are rewritten. A
/// node without children that is no import stays as it is. Any other node is
/// rebuilt from its rewritten children.
pub open spec fn rewrite(node: Tree, settings: Settings) -> Result<
    Rewritten<Tree>,
    UpgradeErrorView,
>
    decreases node, 1int,
{
    if node.kind() is ModuleImport {
        match plan_import(node, settings) {
            Err(e) => Err(e),
            Ok(plan) => match plan.target {
                None => Ok(
                    Rewritten { value: node, incompatible: plan.incompatible, notes: plan.notes },
                ),
                Some(package) => {
                    let swap = Swap {
                        from: import_literal(node).unwrap(),
                        to: quoted(package.text()),
                    };
                    rebuild(
                        node.kind(),
                        plan.incompatible,
                        plan.notes,
                        rewrite_children(node, node.children().len(), Some(swap), settings),
                    )
                },
            },
        }
    } else if node.children().len() == 0 {
        Ok(Rewritten { value: node, incompatible: false, notes: Seq::empty() })
    } else {
        rebuild(
            node.kind(),
            false,
            Seq::empty(),
            rewrite_children(node, node.children().len(), None, settings),
        )
    }
}

/// The first `n` children of `node` rewritten, in order. The first failure
/// ends it.
pub open spec fn rewrite_children(
    node: Tree,
    n: nat,
    swap: Option<Swap>,
    settings: Settings,
) -> Result<Rewritten<Seq<Tree>>, UpgradeErrorView>
    decreases node, 0int, n,
{
    if n == 0 || n > node.children().len() {
        Ok(Rewritten { value: Seq::empty(), incompatible: false, notes: Seq::empty() })
    } else {
        match rewrite_children(node, (n - 1) as nat, swap, settings) {
            Err(e) => Err(e),
            Ok(before) => {
                let child = node.children()[n - 1];
                if swap is Some && swap->0.hits(child) {
                    Ok(
                        Rewritten {
                            value: before.value.push(
                                Tree::Leaf { kind: NodeKind::Str, text: swap->0.to },
                            ),
                            incompatible: before.incompatible,
                            notes: before.notes,
                        },
                    )
                } else {
                    match rewrite(child, settings) {
                        Err(e) => Err(e),
                        Ok(r) => Ok(
                            Rewritten {
                                value: before.value.push(r.value),
                                incompatible: before.incompatible || r.incompatible,
                                notes: before.notes + r.notes,
                            },
                        ),
                    }
                }
            },
        }
    }
}

/// The package that an import statement names: the one that the value of
/// its string literal is the text of.
pub open spec fn import_reference(node: Tree) -> Option<DepView> {
    match import_literal(node) {
        Some(text) => match parse_spec(literal_value(text)) {
            Ok(package) => Some(package),
            Err(_) => None,
        },
        None => None,
    }
}

/// An import statement that names no package stays as it is, whatever the
/// catalog lists: one whose source is no string literal, and one whose
/// literal is not the text of a package reference.
pub proof fn lemma_other_import_stays(node: Tree, settings: Settings)
    requires
        node.kind() is ModuleImport,
        import_reference(node) is None,
    ensures
        rewrite(node, settings) matches Ok(r) && r.value == node && !r.incompatible,
{
}

/// An import statement that names a local package stays as it is, and
/// converting it does not fail, whatever the catalog lists.
pub proof fn lemma_local_import_stays(node: Tree, settings: Settings)
    requires
        node.kind() is ModuleImport,
        import_reference(node) matches Some(package) && package.is_local(),
    ensures
        rewrite(node, settings) matches Ok(r) && r.value == node && !r.incompatible,
{
}

/// No import statement that conversion comes to names a package outside the
/// namespace `local`.
pub open spec fn is_inert(node: Tree) -> bool
    decreases node,
{
    if node.kind() is ModuleImport {
        import_reference(node) matches Some(package) ==> package.is_local()
    } else {
        forall|i: int| 0 <= i < node.children().len() ==> is_inert(#[trigger] node.children()[i])
    }
}

/// A tree without a reference to a package outside `local` comes back as it
/// is, without a failure and without a version held back, whatever the
/// catalog lists.
pub proof fn lemma_inert_tree_stays(node: Tree, settings: Settings)
    requires
        is_inert(node),
    ensures
        rewrite(node, settings) matches Ok(r) && r.value == node && !r.incompatible,
    decreases node, 1int,
{
    if node.kind() is ModuleImport {
    } else if node.children().len() > 0 {
        lemma_inert_children_stay(node, node.children().len(), settings);
        let rest = rewrite_children(node, node.children().len(), None, settings)->Ok_0;
        assert(rest.value =~= node.children());
    }
}

/// The children of a node whose children are inert come back as they are.
pub proof fn lemma_inert_children_stay(node: Tree, n: nat, settings: Settings)
    requires
        n <= node.children().len(),
        forall|i: int| 0 <= i < node.children().len() ==> is_inert(#[trigger] node.children()[i]),
    ensures
        rewrite_children(node, n, None, settings) matches Ok(rest) && rest.value
            == node.children().take(n as int) && !rest.incompatible,
    decreases node, 0int, n,
{
    if n > 0 {
        lemma_inert_children_stay(node, (n - 1) as nat, settings);
        lemma_inert_tree_stays(node.children()[n - 1], settings);
        let before = rewrite_children(node, (n - 1) as nat, None, settings)->Ok_0;
        assert(before.value.push(node.children()[n - 1]) =~= node.children().take(n as int));
    } else {
        assert(node.children().take(0) =~= Seq::<Tree>::empty());
    }
}

/// Rewriting keeps the kind of a node.
pub proof fn lemma_rewrite_keeps_kind(node: Tree, settings: Settings)
    requires
        rewrite(node, settings) is Ok,
    ensures
        rewrite(node, settings)->Ok_0.value.kind() == node.kind(),
{
}

/// What the rewritten children are, one by one: the literal of the swap in
/// place of each child that the swap hits, and every other child rewritten.
pub proof fn lemma_rewritten_children(node: Tree, n: nat, swap: Option<Swap>, settings: Settings)
    requires
        n <= node.children().len(),
        rewrite_children(node, n, swap, settings) is Ok,
    ensures
        ({
            let rest = rewrite_children(node, n, swap, settings)->Ok_0;
            &&& rest.value.len() == n
            &&& forall|j: int|
                0 <= j < n ==> (#[trigger] rest.value[j]).kind() == node.children()[j].kind()
            &&& forall|j: int|
                #![trigger rest.value[j]]
                0 <= j < n ==> if swap is Some && swap->0.hits(node.children()[j]) {
                    rest.value[j] == (Tree::Leaf { kind: NodeKind::Str, text: swap->0.to })
                } else {
                    (rewrite(node.children()[j], settings) matches Ok(r) && rest.value[j]
                        == r.value)
                }
        }),
    decreases n,
{
    if n > 0 {
        lemma_rewritten_children(node, (n - 1) as nat, swap, settings);
        let child = node.children()[n - 1];
        if !(swap is Some && swap->0.hits(child)) {
            lemma_rewrite_keeps_kind(child, settings);
        }
    }
}

/// Once the rewriting of the children has failed, it stays failed.
pub proof fn lemma_failure_stays(node: Tree, k: nat, n: nat, swap: Option<Swap>, settings: Settings)
    requires
        1 <= k <= n <= node.children().len(),
        rewrite_children(node, k, swap, settings) is Err,
    ensures
        rewrite_children(node, n, swap, settings) == rewrite_children(node, k, swap, settings),
    decreases n - k,
{
    if k < n {
        lemma_failure_stays(node, k, (n - 1) as nat, swap, settings);
    }
}

} // verus!
