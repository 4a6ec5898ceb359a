//! A converted tree is a fixed point of conversion.

use crate::catalog::published;
use crate::decimal::{decimal_text, lemma_decimal_text_is_number};
use crate::literal::{is_quoted, lemma_literal_value_of_quoted, literal_value, quoted};
use crate::node::Tree;
use crate::planner::{
    best, candidates, eligible, lemma_best_exists, lemma_newer_versions, newer_versions,
    UpgradeErrorView,
};
use crate::rewrite::{
    decide, import_literal, import_source, is_source_at, lemma_rewritten_children, plan_import,
    plan_reference, rewrite, rewrite_children, Plan, Settings, Swap,
};
use crate::text::{is_digit, is_name_char};
use crate::typstdep::{
    lemma_parse_of_text, lemma_reference_layout, parse_spec, DepView, ParseError,
};
use crate::version::{lemma_dotted_layout, Version};
use vstd::prelude::*;

verus! {

/// The text of a version holds digits and dots.
pub proof fn lemma_version_text_chars(v: Version)
    ensures
        forall|i: int|
            0 <= i < v.text().len() ==> is_digit(#[trigger] v.text()[i]) || v.text()[i] == '.',
{
    let a = decimal_text(v.major as nat);
    let b = decimal_text(v.minor as nat);
    let c = decimal_text(v.patch as nat);
    lemma_decimal_text_is_number(v.major as nat);
    lemma_decimal_text_is_number(v.minor as nat);
    lemma_decimal_text_is_number(v.patch as nat);
    lemma_dotted_layout(a, b, c);
    let s = v.text();
    assert forall|i: int| 0 <= i < s.len() implies is_digit(#[trigger] s[i]) || s[i] == '.' by {
        if i < a.len() {
            assert(s[i] == a[i]);
        } else if i == a.len() {
        } else if i < a.len() + 1 + b.len() {
            assert(s[a.len() + 1 + (i - a.len() - 1)] == b[i - a.len() - 1]);
        } else if i == a.len() + 1 + b.len() {
        } else {
            let k = i - a.len() - b.len() - 2;
            assert(s[a.len() + b.len() + 2 + k] == c[k]);
        }
    }
}

/// The text of a reference holds no backslash.
pub proof fn lemma_reference_text_plain(d: DepView)
    requires
        d.wf(),
    ensures
        !d.text().contains('\\'),
{
    let s = d.text();
    let v = d.version.text();
    lemma_reference_layout(d.namespace, d.name, v);
    lemma_version_text_chars(d.version);
    let a = d.namespace.len() as int;
    let b = d.name.len() as int;
    assert forall|i: int| 0 <= i < s.len() implies s[i] != '\\' by {
        if i == 0 {
        } else if i < 1 + a {
            assert(s[1 + (i - 1)] == d.namespace[i - 1]);
            assert(is_name_char(d.namespace[i - 1]));
        } else if i == 1 + a {
        } else if i < a + 2 + b {
            assert(s[a + 2 + (i - a - 2)] == d.name[i - a - 2]);
            assert(is_name_char(d.name[i - a - 2]));
        } else if i == a + 2 + b {
        } else {
            let k = i - a - b - 3;
            assert(s[a + b + 3 + k] == v[k]);
            assert(is_digit(v[k]) || v[k] == '.');
        }
    }
}

/// A string literal that holds the text of a reference is read as that
/// reference.
pub proof fn lemma_reference_leaf_is_read(d: DepView)
    requires
        d.wf(),
    ensures
        is_quoted(quoted(d.text())),
        parse_spec(literal_value(quoted(d.text()))) == Ok::<DepView, ParseError>(d),
{
    lemma_reference_text_plain(d);
    lemma_literal_value_of_quoted(d.text());
    lemma_parse_of_text(d);
}

/// Once a package stands at the version chosen for it, no version is chosen
/// for it again: among the published versions that are newer than the chosen
/// one, none is eligible.
pub proof fn lemma_chosen_version_is_final(
    versions: Seq<Version>,
    current: Version,
    compatible: bool,
)
    requires
        best(newer_versions(versions, current), current, compatible) is Some,
    ensures
        best(
            newer_versions(
                versions,
                best(newer_versions(versions, current), current, compatible)->0,
            ),
            best(newer_versions(versions, current), current, compatible)->0,
            compatible,
        ) is None,
{
    let first = newer_versions(versions, current);
    let chosen = best(first, current, compatible)->0;
    let second = newer_versions(versions, chosen);
    lemma_best_exists(first, current, compatible);
    lemma_best_exists(second, chosen, compatible);
    lemma_newer_versions(versions, current);
    lemma_newer_versions(versions, chosen);
    assert(first.contains(chosen));
    assert forall|i: int| 0 <= i < second.len() implies !eligible(
        chosen,
        #[trigger] second[i],
        compatible,
    ) by {
        let w = second[i];
        assert(second.contains(w));
        assert(first.contains(w));
        let m = choose|m: int| 0 <= m < first.len() && first[m] == w;
        if eligible(chosen, w, compatible) {
            assert(eligible(current, first[m], compatible));
            assert(first[m].at_most(chosen));
        }
    }
}

/// A package that stands at the version chosen for it is left alone.
pub proof fn lemma_upgraded_reference_is_settled(package: DepView, settings: Settings)
    requires
        package.wf(),
        plan_reference(package.text(), settings) matches Ok(plan) && plan.target is Some,
    ensures
        ({
            let target = plan_reference(package.text(), settings)->Ok_0.target->0;
            &&& target.wf()
            &&& plan_reference(target.text(), settings) matches Ok(plan) && plan.target is None
        }),
{
    lemma_parse_of_text(package);
    let versions = published(settings.catalog, package.name)->0;
    let first = newer_versions(versions, package.version);
    let ver = candidates(settings.catalog, package)->Ok_0;
    assert(ver == first);
    let plan = decide(package, first, settings.compatible, settings.verbose);
    let target = plan.target->0;
    assert(target == package.upgrade_to(target.version));
    lemma_parse_of_text(target);
    assert(best(first, package.version, settings.compatible) == Some(target.version));
    lemma_chosen_version_is_final(versions, package.version, settings.compatible);
}

/// Converting a converted tree again gives the same tree.
pub proof fn lemma_rewrite_idempotent(node: Tree, settings: Settings)
    requires
        rewrite(node, settings) is Ok,
    ensures
        rewrite(rewrite(node, settings)->Ok_0.value, settings) matches Ok(again) && again.value
            == rewrite(node, settings)->Ok_0.value,
    decreases node, 1int,
{
    let first = rewrite(node, settings)->Ok_0;
    let n = node.children().len();
    if node.kind() is ModuleImport {
        let plan = plan_import(node, settings)->Ok_0;
        if plan.target is Some {
            let target = plan.target->0;
            let from = import_literal(node)->0;
            let value = literal_value(from);
            let package = parse_spec(value)->Ok_0;
            assert(plan_reference(value, settings) == Ok::<Plan, UpgradeErrorView>(plan));
            assert(package.wf() && package.text() == value);
            lemma_upgraded_reference_is_settled(package, settings);
            lemma_reference_leaf_is_read(target);
            let swap = Swap { from, to: quoted(target.text()) };
            lemma_rewritten_children(node, n, Some(swap), settings);
            let rest = rewrite_children(node, n, Some(swap), settings)->Ok_0;
            let i = choose|i: int| is_source_at(node.children(), i);
            assert(is_source_at(node.children(), i));
            assert(swap.hits(node.children()[i]));
            let after = first.value;
            assert(after.children() == rest.value);
            assert(is_source_at(after.children(), i)) by {
                assert(rest.value[i].kind() == node.children()[i].kind());
                assert forall|j: int| 0 <= j < i implies !(#[trigger] after.children()[
                    j
                ]).kind().is_expression() by {
                    assert(rest.value[j].kind() == node.children()[j].kind());
                }
            }
            let k = choose|k: int| is_source_at(after.children(), k);
            assert(k == i);
            assert(import_source(after) == Some(rest.value[i]));
        }
    } else if n > 0 {
        lemma_rewritten_children(node, n, None, settings);
        let after = first.value;
        assert forall|j: int| 0 <= j < n implies (rewrite(
            #[trigger] after.children()[j],
            settings,
        ) matches Ok(r) && r.value == after.children()[j]) by {
            lemma_rewrite_idempotent(node.children()[j], settings);
        }
        lemma_settled_children(after, n, settings);
        let rest = rewrite_children(after, n, None, settings)->Ok_0;
        assert(rest.value =~= after.children());
    }
}

/// Children that are fixed points one by one are rewritten to themselves.
pub proof fn lemma_settled_children(node: Tree, n: nat, settings: Settings)
    requires
        n <= node.children().len(),
        forall|j: int|
            0 <= j < n ==> (rewrite(#[trigger] node.children()[j], settings) matches Ok(r)
                && r.value == node.children()[j]),
    ensures
        rewrite_children(node, n, None, settings) matches Ok(rest) && rest.value
            == node.children().take(n as int),
    decreases n,
{
    if n > 0 {
        lemma_settled_children(node, (n - 1) as nat, settings);
        let before = rewrite_children(node, (n - 1) as nat, None, settings)->Ok_0;
        assert(before.value.push(node.children()[n - 1]) =~= node.children().take(n as int));
    } else {
        assert(node.children().take(0) =~= Seq::<Tree>::empty());
    }
}

} // verus!
