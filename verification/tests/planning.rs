use typst_upgrade::advisory::Advisory;
use typst_upgrade::catalog::VersionCatalog;
use typst_upgrade::literal::{holds_quoted, quote};
use typst_upgrade::node::{DocumentNode, NodeKind};
use typst_upgrade::planner::{PackageUpgrader, UpgradeError};
use typst_upgrade::typstdep::TypstDep;
use typst_upgrade::upgrade::{
    decide_upgrade, literal_of, needs_catalog, reference_of, ReferencePlan, TypstNodeUpgrader,
};
use typst_upgrade::version::Version;

fn catalog() -> VersionCatalog {
    let mut catalog = VersionCatalog::new();
    for version in [(0, 1, 0), (0, 1, 1), (0, 2, 0), (1, 0, 0), (1, 1, 0), (2, 0, 0)] {
        catalog.insert("pack1", Version::new(version.0, version.1, version.2));
    }
    catalog
}

fn import(children: Vec<DocumentNode>) -> DocumentNode {
    let mut all = vec![
        DocumentNode::leaf(NodeKind::Other, "import"),
        DocumentNode::leaf(NodeKind::Other, " "),
    ];
    all.extend(children);
    DocumentNode::inner(NodeKind::ModuleImport, all)
}

fn literal(text: &str) -> DocumentNode {
    DocumentNode::leaf(NodeKind::Str, text)
}

fn dep(text: &str) -> TypstDep {
    TypstDep::parse(text).unwrap()
}

fn plan(value: &str, verbose: bool, compatible: bool) -> Result<ReferencePlan, UpgradeError> {
    let root = DocumentNode::inner(NodeKind::Markup, Vec::new());
    let catalog = catalog();
    TypstNodeUpgrader::new(&root, verbose, compatible, &catalog).plan_reference(value)
}

#[test]
fn quote_puts_a_text_between_double_quotes() {
    assert_eq!(quote("@preview/pack1:1.0.0"), "\"@preview/pack1:1.0.0\"");
    assert_eq!(quote(""), "\"\"");
}

#[test]
fn holds_quoted_tells_the_text_of_a_string_literal() {
    for text in ["\"\"", "\"a\"", "\"@preview/pack1:1.0.0\"", "\"a\"b\"", "\"é\""] {
        assert!(holds_quoted(text), "{:?}", text);
    }
    for text in ["", "\"", "a", "\"a", "a\"", "'a'", " \"a\"", "\"a\" "] {
        assert!(!holds_quoted(text), "{:?}", text);
    }
}

#[test]
fn literal_of_finds_the_source_of_an_import() {
    assert_eq!(literal_of(&import(vec![literal("\"lib.typ\"")])), Some("\"lib.typ\""));
    assert_eq!(
        literal_of(&import(vec![
            literal("\"a\""),
            DocumentNode::leaf(NodeKind::Other, ":"),
            literal("\"b\""),
        ])),
        Some("\"a\"")
    );
    assert_eq!(literal_of(&import(vec![literal("\"\"")])), Some("\"\""));
}

#[test]
fn literal_of_finds_nothing_without_a_string_literal_as_source() {
    assert_eq!(literal_of(&import(Vec::new())), None);
    assert_eq!(literal_of(&DocumentNode::leaf(NodeKind::ModuleImport, "import")), None);
    assert_eq!(
        literal_of(&import(vec![
            DocumentNode::leaf(NodeKind::Expression, "lib"),
            literal("\"a\""),
        ])),
        None
    );
    assert_eq!(literal_of(&import(vec![literal("\"")])), None);
    assert_eq!(literal_of(&import(vec![literal("a\"")])), None);
    assert_eq!(literal_of(&import(vec![literal("")])), None);
    assert_eq!(
        literal_of(&import(vec![DocumentNode::inner(NodeKind::Str, vec![literal("\"a\"")])])),
        None
    );
}

#[test]
fn reference_of_reads_the_package_of_an_import() {
    assert_eq!(
        reference_of(&import(vec![literal("\"@preview/pack1:1.0.0\"")])),
        Some(dep("@preview/pack1:1.0.0"))
    );
    assert_eq!(
        reference_of(&import(vec![literal("\"@preview/\\u{70}ack1:1.0.0\"")])),
        Some(dep("@preview/pack1:1.0.0"))
    );
    assert_eq!(reference_of(&import(vec![literal("\"lib.typ\"")])), None);
    assert_eq!(reference_of(&import(vec![literal("\"@preview/pack1:1.0\"")])), None);
    assert_eq!(reference_of(&import(vec![literal("\"\\@preview/pack1:1.0.0\"")])), None);
    assert_eq!(reference_of(&import(Vec::new())), None);
}

#[test]
fn needs_catalog_tells_a_remote_reference() {
    let remote = import(vec![literal("\"@preview/pack1:1.0.0\"")]);
    let other = import(vec![literal("\"@other/pack1:1.0.0\"")]);
    let local = import(vec![literal("\"@local/pack1:1.0.0\"")]);
    let file = import(vec![literal("\"lib.typ\"")]);
    assert!(needs_catalog(&remote));
    assert!(needs_catalog(&other));
    assert!(!needs_catalog(&local));
    assert!(!needs_catalog(&file));
    assert!(!needs_catalog(&literal("\"@preview/pack1:1.0.0\"")));
    assert!(!needs_catalog(&DocumentNode::inner(NodeKind::Markup, Vec::new())));

    let nested = |node: DocumentNode| {
        DocumentNode::inner(
            NodeKind::Markup,
            vec![
                DocumentNode::leaf(NodeKind::Other, "#"),
                DocumentNode::inner(NodeKind::Expression, vec![file_import(), node]),
            ],
        )
    };
    assert!(needs_catalog(&nested(remote)));
    assert!(!needs_catalog(&nested(local)));
}

fn file_import() -> DocumentNode {
    import(vec![literal("\"lib.typ\"")])
}

#[test]
fn a_tree_that_needs_no_catalog_comes_back_from_any() {
    let root = DocumentNode::inner(
        NodeKind::Markup,
        vec![
            file_import(),
            import(vec![literal("\"@local/pack1:0.1.0\"")]),
            import(vec![DocumentNode::leaf(NodeKind::Expression, "lib")]),
            DocumentNode::leaf(NodeKind::Other, "text"),
        ],
    );
    assert!(!needs_catalog(&root));
    for catalog in [VersionCatalog::new(), catalog()] {
        for compatible in [true, false] {
            let (node, incompatible, advisories) =
                TypstNodeUpgrader::new(&root, false, compatible, &catalog).convert().unwrap();
            assert!(node.same_as(&root));
            assert!(!incompatible);
            assert!(advisories.is_empty());
        }
    }
}

#[test]
fn plan_reference_ignores_what_is_no_reference() {
    for value in ["lib.typ", "", "@preview/pack1", "@preview/pack1:1.0.00", "@nowhere/x:1"] {
        let plan = plan(value, true, true).unwrap();
        assert_eq!(plan, ReferencePlan { target: None, incompatible: false, advisories: vec![] });
    }
}

#[test]
fn plan_reference_leaves_local_packages() {
    let quiet = plan("@local/pack1:0.1.0", false, true).unwrap();
    assert_eq!(quiet, ReferencePlan { target: None, incompatible: false, advisories: vec![] });
    let verbose = plan("@local/pack1:0.1.0", true, false).unwrap();
    assert_eq!(
        verbose,
        ReferencePlan {
            target: None,
            incompatible: false,
            advisories: vec![Advisory::LocalPackage { package: dep("@local/pack1:0.1.0") }],
        }
    );
}

#[test]
fn plan_reference_fails_for_what_the_catalog_cannot_answer() {
    assert_eq!(
        plan("@other/pack1:0.1.0", false, true),
        Err(UpgradeError::UnsupportedNamespace { package: dep("@other/pack1:0.1.0") })
    );
    assert_eq!(
        plan("@preview/pack2:0.1.0", false, true),
        Err(UpgradeError::PackageNotFound { package: dep("@preview/pack2:0.1.0") })
    );
}

#[test]
fn plan_reference_chooses_by_mode() {
    let package = dep("@preview/pack1:0.1.0");
    assert_eq!(
        plan("@preview/pack1:0.1.0", false, true).unwrap(),
        ReferencePlan {
            target: Some(dep("@preview/pack1:0.1.1")),
            incompatible: true,
            advisories: vec![Advisory::Update {
                package: package.clone(),
                version: Version::new(0, 1, 1),
                available: Some(Version::new(2, 0, 0)),
            }],
        }
    );
    assert_eq!(
        plan("@preview/pack1:0.1.0", false, false).unwrap(),
        ReferencePlan {
            target: Some(dep("@preview/pack1:2.0.0")),
            incompatible: false,
            advisories: vec![],
        }
    );
    assert_eq!(
        plan("@preview/pack1:2.0.0", true, true).unwrap(),
        ReferencePlan {
            target: None,
            incompatible: false,
            advisories: vec![Advisory::UpToDate { package: dep("@preview/pack1:2.0.0") }],
        }
    );
    assert_eq!(
        plan("@preview/pack1:9.0.0", false, false).unwrap(),
        ReferencePlan { target: None, incompatible: false, advisories: vec![] }
    );
}

#[test]
fn decide_upgrade_tells_what_it_holds_back() {
    let versions = vec![Version::new(1, 0, 0), Version::new(1, 2, 0), Version::new(3, 0, 0)];
    let held = PackageUpgrader::with_versions(dep("@preview/p:1.2.0"), &versions);
    assert_eq!(
        decide_upgrade(&held, true, false),
        ReferencePlan {
            target: None,
            incompatible: true,
            advisories: vec![Advisory::Unchanged {
                package: dep("@preview/p:1.2.0"),
                newest: Version::new(3, 0, 0),
            }],
        }
    );
    assert_eq!(
        decide_upgrade(&held, false, true),
        ReferencePlan {
            target: Some(dep("@preview/p:3.0.0")),
            incompatible: false,
            advisories: vec![Advisory::Update {
                package: dep("@preview/p:1.2.0"),
                version: Version::new(3, 0, 0),
                available: None,
            }],
        }
    );

    let within = PackageUpgrader::with_versions(dep("@preview/p:1.0.0"), &versions[..2].to_vec());
    assert_eq!(
        decide_upgrade(&within, true, true),
        ReferencePlan {
            target: Some(dep("@preview/p:1.2.0")),
            incompatible: false,
            advisories: vec![Advisory::Update {
                package: dep("@preview/p:1.0.0"),
                version: Version::new(1, 2, 0),
                available: None,
            }],
        }
    );
    assert_eq!(within.package(), &dep("@preview/p:1.0.0"));
}

#[test]
fn every_literal_with_the_text_of_the_source_is_replaced() {
    let node = import(vec![
        literal("\"@preview/pack1:1.0.0\""),
        DocumentNode::leaf(NodeKind::Other, ":"),
        literal("\"@preview/pack1:1.0.0\""),
        literal("\"@preview/pack1:0.1.0\""),
        DocumentNode::inner(
            NodeKind::Expression,
            vec![import(vec![literal("\"@preview/pack1:0.1.0\"")])],
        ),
    ]);
    let root = DocumentNode::inner(NodeKind::Code, vec![node]);
    let catalog = catalog();
    let (converted, incompatible, _) =
        TypstNodeUpgrader::new(&root, false, true, &catalog).convert().unwrap();
    assert_eq!(
        converted.into_text(),
        "import \"@preview/pack1:1.1.0\":\"@preview/pack1:1.1.0\"\"@preview/pack1:0.1.0\"import \"@preview/pack1:0.1.1\""
    );
    assert!(incompatible);
}
