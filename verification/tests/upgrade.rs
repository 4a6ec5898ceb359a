use typst_syntax::ast::Expr;
use typst_syntax::{SyntaxKind, SyntaxNode};
use typst_upgrade::catalog::VersionCatalog;
use typst_upgrade::node::{DocumentNode, NodeKind};
use typst_upgrade::planner::{PackageUpgrader, UpgradeError};
use typst_upgrade::typstdep::TypstDep;
use typst_upgrade::advisory::Advisory;
use typst_upgrade::upgrade::TypstNodeUpgrader;
use typst_upgrade::version::Version;

fn version(text: &str) -> Version {
    Version::parse(text).unwrap()
}

fn versions(texts: &[&str]) -> Vec<Version> {
    texts.iter().map(|text| version(text)).collect()
}

fn mock_query() -> VersionCatalog {
    let mut catalog = VersionCatalog::new();
    for text in [
        "0.1.0", "0.1.1", "0.2.0", "0.2.1", "0.2.2", "1.0.0", "1.0.1", "1.1.0", "1.1.1", "2.0.0",
    ] {
        catalog.insert("pack1", version(text));
    }
    for text in ["0.1.0", "1.0.0", "1.1.0", "2.0.0"] {
        catalog.insert("pack2", version(text));
    }
    for text in ["0.1.0", "0.2.0", "1.0.0", "2.0.0", "3.0.0"] {
        catalog.insert("pack3", version(text));
    }
    catalog
}

fn document(node: &SyntaxNode) -> DocumentNode {
    let kind = match node.kind() {
        SyntaxKind::Markup => NodeKind::Markup,
        SyntaxKind::Code => NodeKind::Code,
        SyntaxKind::ModuleImport => NodeKind::ModuleImport,
        SyntaxKind::Str => NodeKind::Str,
        _ if node.cast::<Expr>().is_some() => NodeKind::Expression,
        _ => NodeKind::Other,
    };
    if node.children().len() == 0 {
        DocumentNode::Leaf { kind, text: node.leaf_text().to_string() }
    } else {
        DocumentNode::Inner { kind, children: node.children().map(document).collect() }
    }
}

fn upgraded(text: &str, verbose: bool, compatible: bool) -> (String, bool, Vec<Advisory>) {
    let root = document(&typst_syntax::parse(text));
    assert_eq!(root.into_text(), text);
    let catalog = mock_query();
    let (node, incompatible, advisories) =
        TypstNodeUpgrader::new(&root, verbose, compatible, &catalog).convert().unwrap();
    (node.into_text(), incompatible, advisories)
}

#[test]
fn next() {
    let package = TypstDep::parse("@preview/package:1.2.3").unwrap();

    let upgrader = PackageUpgrader::with_versions(package.clone(), &Vec::new());
    assert!(upgrader.next(true).is_none());
    assert!(upgrader.next(false).is_none());

    let upgrader = PackageUpgrader::with_versions(package.clone(), &versions(&["2.0.0"]));
    assert!(upgrader.next(true).is_none());

    let next_incompat = upgrader.next(false);
    assert!(next_incompat.is_some());

    let next_incompat = next_incompat.unwrap();
    assert_eq!(next_incompat.to_string(), "@preview/package:2.0.0");

    let upgrader =
        PackageUpgrader::with_versions(package, &versions(&["1.2.4", "1.3.0", "2.0.0"]));

    let next_compat = upgrader.next(true);
    assert!(next_compat.is_some());

    let next_compat = next_compat.unwrap();
    assert_eq!(next_compat.to_string(), "@preview/package:1.3.0");

    let next_incompat = upgrader.next(false);
    assert!(next_incompat.is_some());

    let next_incompat = next_incompat.unwrap();
    assert_eq!(next_incompat.to_string(), "@preview/package:2.0.0");
}

#[test]
fn upgrader_build() {
    let package = TypstDep::parse("@preview/pack1:1.1.0").unwrap();
    let upgrader = PackageUpgrader::build_with_query(&package, &mock_query()).unwrap();
    assert_eq!(upgrader.next(true).unwrap().to_string(), "@preview/pack1:1.1.1");
    assert_eq!(upgrader.next(false).unwrap().to_string(), "@preview/pack1:2.0.0");
}

#[test]
fn build_refuses_another_namespace() {
    let package = TypstDep::parse("@non-preview/package:1.2.3").unwrap();
    assert_eq!(package.namespace(), "non-preview");
    match PackageUpgrader::build_with_query(&package, &mock_query()) {
        Err(UpgradeError::UnsupportedNamespace { package: named }) => assert_eq!(named, package),
        _ => panic!("the namespace is not supported"),
    }
}

#[test]
fn build_has_no_candidate_for_a_local_package() {
    let package = TypstDep::parse("@local/pack1:0.1.0").unwrap();
    assert!(package.is_local());
    let upgrader = PackageUpgrader::build_with_query(&package, &mock_query()).unwrap();
    assert!(upgrader.next(true).is_none());
    assert!(upgrader.next(false).is_none());
}

#[test]
fn build_refuses_a_package_that_the_catalog_does_not_list() {
    let package = TypstDep::parse("@preview/pack9:1.2.3").unwrap();
    match PackageUpgrader::build_with_query(&package, &mock_query()) {
        Err(UpgradeError::PackageNotFound { package: named }) => assert_eq!(named, package),
        _ => panic!("the package is not listed"),
    }
}

#[test]
fn candidates_are_newer_than_the_package() {
    let package = TypstDep::parse("@preview/package:1.2.3").unwrap();
    let upgrader = PackageUpgrader::with_versions(
        package,
        &versions(&["0.9.0", "1.2.2", "1.2.3", "1.0.9"]),
    );
    assert!(upgrader.next(true).is_none());
    assert!(upgrader.next(false).is_none());
}

#[test]
fn major_zero_is_compatible_within_its_minor() {
    let package = TypstDep::parse("@preview/package:0.1.0").unwrap();
    let upgrader =
        PackageUpgrader::with_versions(package, &versions(&["0.1.1", "0.2.0", "1.0.0"]));
    assert_eq!(upgrader.next(true).unwrap().to_string(), "@preview/package:0.1.1");
    assert_eq!(upgrader.next(false).unwrap().to_string(), "@preview/package:1.0.0");
}

#[test]
fn compatible_choice_is_never_newer_than_the_unrestricted_one() {
    let catalog = mock_query();
    for text in ["@preview/pack1:0.1.0", "@preview/pack1:0.2.0", "@preview/pack1:1.0.0", "@preview/pack2:1.0.0", "@preview/pack3:0.1.0"] {
        let package = TypstDep::parse(text).unwrap();
        let upgrader = PackageUpgrader::build_with_query(&package, &catalog).unwrap();
        let newest = upgrader.next(false).unwrap().version();
        assert!(package.version().lt(&newest));
        if let Some(compatible) = upgrader.next(true) {
            assert!(package.version().lt(&compatible.version()));
            assert!(!newest.lt(&compatible.version()));
        }
    }
}

#[test]
fn end_to_end() {
    let text = "#import \"@preview/pack1:1.1.0\": *\n\nHello\n";

    let (compat, incompatible, advisories) = upgraded(text, false, true);
    assert_eq!(compat, "#import \"@preview/pack1:1.1.1\": *\n\nHello\n");
    assert!(incompatible);
    assert_eq!(
        advisories,
        vec![Advisory::Update {
            package: TypstDep::parse("@preview/pack1:1.1.0").unwrap(),
            version: version("1.1.1"),
            available: Some(version("2.0.0")),
        }]
    );

    let (incompat, incompatible, advisories) = upgraded(text, false, false);
    assert_eq!(incompat, "#import \"@preview/pack1:2.0.0\": *\n\nHello\n");
    assert!(!incompatible);
    assert!(advisories.is_empty());
}

#[test]
fn unaffected_sibling_is_kept() {
    let text = "#import \"@preview/pack1:1.1.0\"\n#let f(x) = {\n  import \"@local/mine:0.1.0\": a\n  x + 1\n}\n";
    let root = document(&typst_syntax::parse(text));
    let catalog = mock_query();
    let (node, _, _) = TypstNodeUpgrader::new(&root, false, false, &catalog).convert().unwrap();
    assert!(!node.same_as(&root));
    assert_ne!(node, root);
    let (old, new) = match (&root, &node) {
        (
            DocumentNode::Inner { children: old, .. },
            DocumentNode::Inner { children: new, .. },
        ) => (old, new),
        _ => panic!("a document has children"),
    };
    assert_eq!(old.len(), new.len());
    let changed: Vec<usize> = (0..old.len()).filter(|&i| old[i] != new[i]).collect();
    assert_eq!(changed.len(), 1);
    assert_eq!(new[changed[0]].into_text(), "import \"@preview/pack1:2.0.0\"");
    for i in 0..old.len() {
        if i != changed[0] {
            assert!(old[i].same_as(&new[i]));
            assert_eq!(old[i].into_text(), new[i].into_text());
        }
    }
}

#[test]
fn converting_again_changes_nothing() {
    let text = "#import \"@preview/pack1:0.2.0\"\n#import \"@preview/pack2:1.0.0\": a, b\n#import \"@preview/pack3:3.0.0\"\n";
    for compatible in [true, false] {
        let (once, _, _) = upgraded(text, true, compatible);
        let (twice, _, _) = upgraded(&once, true, compatible);
        assert_eq!(once, twice);
    }
    assert_eq!(
        upgraded(text, false, true).0,
        "#import \"@preview/pack1:0.2.2\"\n#import \"@preview/pack2:1.1.0\": a, b\n#import \"@preview/pack3:3.0.0\"\n"
    );
    assert_eq!(
        upgraded(text, false, false).0,
        "#import \"@preview/pack1:2.0.0\"\n#import \"@preview/pack2:2.0.0\": a, b\n#import \"@preview/pack3:3.0.0\"\n"
    );
}

#[test]
fn other_imports_stay_as_they_are() {
    let text = "#import \"lib.typ\": *\n#import \"../a/b.typ\"\n#import lib: f\n#import \"@preview/pack1\"\n#import \"@preview/pack1:01.0.0\"\n#include \"@preview/pack1:1.0.0\"\n#let s = \"@preview/pack1:1.0.0\"\n";
    for (verbose, compatible) in [(false, true), (false, false), (true, true), (true, false)] {
        let (converted, incompatible, advisories) = upgraded(text, verbose, compatible);
        assert_eq!(converted, text);
        assert!(!incompatible);
        if verbose {
            assert_eq!(
                advisories,
                vec![Advisory::NonStringImport { text: "import lib: f".to_string() }]
            );
        } else {
            assert!(advisories.is_empty());
        }
    }
}

#[test]
fn local_packages_stay_as_they_are() {
    let text = "#import \"@local/pack1:0.1.0\": *\n#import \"@local/unknown:1.0.0\"\n";
    let (converted, incompatible, advisories) = upgraded(text, false, true);
    assert_eq!(converted, text);
    assert!(!incompatible);
    assert!(advisories.is_empty());

    let (converted, incompatible, advisories) = upgraded(text, true, false);
    assert_eq!(converted, text);
    assert!(!incompatible);
    assert_eq!(
        advisories,
        vec![
            Advisory::LocalPackage { package: TypstDep::parse("@local/pack1:0.1.0").unwrap() },
            Advisory::LocalPackage { package: TypstDep::parse("@local/unknown:1.0.0").unwrap() },
        ]
    );
}

#[test]
fn withheld_upgrade_is_told() {
    let text = "#import \"@preview/pack3:0.2.0\"\n";
    let package = TypstDep::parse("@preview/pack3:0.2.0").unwrap();

    let (converted, incompatible, advisories) = upgraded(text, false, true);
    assert_eq!(converted, text);
    assert!(incompatible);
    assert_eq!(
        advisories,
        vec![Advisory::Unchanged { package: package.clone(), newest: version("3.0.0") }]
    );

    let (_, _, advisories) = upgraded(text, true, true);
    assert_eq!(
        advisories,
        vec![
            Advisory::UpToDate { package: package.clone() },
            Advisory::Unchanged { package: package.clone(), newest: version("3.0.0") },
        ]
    );

    let (converted, incompatible, advisories) = upgraded(text, true, false);
    assert_eq!(converted, "#import \"@preview/pack3:3.0.0\"\n");
    assert!(!incompatible);
    assert_eq!(
        advisories,
        vec![Advisory::Update { package, version: version("3.0.0"), available: None }]
    );
}

#[test]
fn compatible_upgrade_without_a_newer_one_is_silent() {
    let text = "#import \"@preview/pack1:0.2.1\"\n";
    let mut catalog = VersionCatalog::new();
    catalog.insert("pack1", version("0.2.1"));
    catalog.insert("pack1", version("0.2.2"));
    let root = document(&typst_syntax::parse(text));
    let (node, incompatible, advisories) =
        TypstNodeUpgrader::new(&root, false, true, &catalog).convert().unwrap();
    assert_eq!(node.into_text(), "#import \"@preview/pack1:0.2.2\"\n");
    assert!(!incompatible);
    assert!(advisories.is_empty());
}

#[test]
fn up_to_date_reference_is_told_in_verbose_mode() {
    let text = "#import \"@preview/pack1:2.0.0\"\n";
    let (converted, incompatible, advisories) = upgraded(text, true, true);
    assert_eq!(converted, text);
    assert!(!incompatible);
    assert_eq!(
        advisories,
        vec![Advisory::UpToDate { package: TypstDep::parse("@preview/pack1:2.0.0").unwrap() }]
    );
    assert!(upgraded(text, false, true).2.is_empty());
}

#[test]
fn escaped_literal_is_read_by_its_value() {
    let text = "#import \"@preview/pa\\u{63}k1:1.1.0\"\n";
    let (converted, _, _) = upgraded(text, false, false);
    assert_eq!(converted, "#import \"@preview/pack1:2.0.0\"\n");
}

#[test]
fn unsupported_namespace_fails() {
    let root = document(&typst_syntax::parse("#import \"@other/pack1:1.0.0\"\n"));
    let catalog = mock_query();
    match TypstNodeUpgrader::new(&root, false, true, &catalog).convert() {
        Err(UpgradeError::UnsupportedNamespace { package }) => {
            assert_eq!(package.to_string(), "@other/pack1:1.0.0")
        }
        _ => panic!("the namespace is not supported"),
    }
}

#[test]
fn unknown_package_fails() {
    let root = document(&typst_syntax::parse(
        "#import \"@preview/pack1:1.0.0\"\n#import \"@preview/nope:1.0.0\"\n#import \"@other/x:1.0.0\"\n",
    ));
    let catalog = mock_query();
    match TypstNodeUpgrader::new(&root, false, true, &catalog).convert() {
        Err(UpgradeError::PackageNotFound { package }) => {
            assert_eq!(package.to_string(), "@preview/nope:1.0.0")
        }
        _ => panic!("the package is not listed"),
    }
}

#[test]
fn code_tree_is_converted() {
    let root = document(&typst_syntax::parse_code("import \"@preview/pack2:0.1.0\": f"));
    assert_eq!(root.kind(), NodeKind::Code);
    let catalog = mock_query();
    let (node, incompatible, _) =
        TypstNodeUpgrader::new(&root, false, true, &catalog).convert().unwrap();
    assert_eq!(node.into_text(), "import \"@preview/pack2:0.1.0\": f");
    assert!(incompatible);
    let (node, _, _) = TypstNodeUpgrader::new(&root, false, false, &catalog).convert().unwrap();
    assert_eq!(node.into_text(), "import \"@preview/pack2:2.0.0\": f");
}

#[test]
fn hand_built_tree_is_converted() {
    let import = DocumentNode::inner(
        NodeKind::ModuleImport,
        vec![
            DocumentNode::leaf(NodeKind::Other, "import"),
            DocumentNode::leaf(NodeKind::Other, " "),
            DocumentNode::leaf(NodeKind::Str, "\"@preview/pack1:1.1.0\""),
        ],
    );
    let root = DocumentNode::inner(
        NodeKind::Markup,
        vec![DocumentNode::leaf(NodeKind::Other, "#"), import],
    );
    let catalog = mock_query();
    let (node, incompatible, _) =
        TypstNodeUpgrader::new(&root, false, true, &catalog).convert().unwrap();
    assert_eq!(node.into_text(), "#import \"@preview/pack1:1.1.1\"");
    assert!(incompatible);
    assert_eq!(root.into_text(), "#import \"@preview/pack1:1.1.0\"");
}

#[test]
#[should_panic]
fn should_not_upgrade_non_preview() {
    let package = TypstDep::parse("@non-preview/package:1.2.3").unwrap();
    assert_eq!(package.namespace(), "non-preview");
    PackageUpgrader::build_with_query(&package, &VersionCatalog::new()).unwrap();
}

#[test]
#[should_panic]
fn should_not_convert_illegal_root() {
    let root = document(&typst_syntax::parse_math("$1 + 2$"));
    let catalog = mock_query();
    assert!(root.kind().holds_root(), "Unexpected node kind: {:?}", root.kind());
    let _ = TypstNodeUpgrader::new(&root, false, true, &catalog).convert();
}
