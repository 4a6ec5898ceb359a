use regex::Regex;
use typst_upgrade::typstdep::{ParseError, TypstDep};

const SAMPLES: [&str; 24] = [
    "@preview/package:1.2.3",
    "@local/my-package:0.0.1",
    "@preview/cetz:0.3.4",
    "@a/b:0.0.0",
    "@A_1/B-2:10.20.30",
    "@preview/package:01.2.3",
    "@preview/package:1.2.03",
    "@preview/package:99999999999999999999.0.0",
    "@preview/package:1.2",
    "@preview/package:1.2.3.4",
    "@preview/package:1.2.3-rc.1",
    "@preview/package",
    "@preview:package/1.2.3",
    "@/package:1.2.3",
    "@preview/:1.2.3",
    "preview/package:1.2.3",
    "@pre view/package:1.2.3",
    "@preview/pack.age:1.2.3",
    "@preview/package:a.b.c",
    "@preview/package:1.2.3\n",
    "x@preview/package:1.2.3",
    "lib.typ",
    "../template/main.typ",
    "",
];

/// A reference is what the pattern matches from its first to its last
/// character, with a version that `semver` reads.
#[test]
fn parse_agrees_with_the_pattern_and_semver() {
    let pattern =
        Regex::new(r"^@(?P<namespace>[\w-]+)/(?P<name>[\w-]+):(?P<version>\d+\.\d+\.\d+)$")
            .unwrap();
    for text in SAMPLES {
        let expected = match pattern.captures(text).filter(|_| !text.ends_with('\n')) {
            None => Err(ParseError::MalformedReference),
            Some(found) => match semver::Version::parse(&found["version"]) {
                Err(_) => Err(ParseError::InvalidVersion),
                Ok(version) => Ok((
                    found["namespace"].to_string(),
                    found["name"].to_string(),
                    version.to_string(),
                )),
            },
        };
        let parsed = TypstDep::parse(text).map(|dep| {
            (dep.namespace().to_string(), dep.name().to_string(), dep.version().to_string())
        });
        assert_eq!(parsed, expected, "{:?}", text);
    }
}
