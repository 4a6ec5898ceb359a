use typst_upgrade::cmd::config::ConfigArgs;
use typst_upgrade::global::Config;

fn config(token: Option<&str>) -> Config {
    Config { token: token.map(String::from) }
}

#[test]
fn merge_prefers_the_other_token() {
    let merged = config(Some("old")).merge(&config(Some("new")));
    assert_eq!(merged.token.as_deref(), Some("new"));
}

#[test]
fn merge_keeps_the_token_that_the_other_leaves_open() {
    let merged = config(Some("old")).merge(&config(None));
    assert_eq!(merged.token.as_deref(), Some("old"));
}

#[test]
fn merge_of_two_empty_configurations_is_empty() {
    let merged = config(None).merge(&config(None));
    assert_eq!(merged.token, None);
}

#[test]
fn merge_is_associative_on_an_example() {
    let (a, b, c) = (config(Some("a")), config(None), config(Some("c")));
    let left = a.merge(&b).merge(&c);
    let right = a.merge(&b.merge(&c));
    assert_eq!(left.token, right.token);
    assert_eq!(left.token.as_deref(), Some("c"));
}

#[test]
fn config_arguments_lay_their_settings_over_the_stored_ones() {
    let args = ConfigArgs::new(true, config(Some("given")));
    assert!(args.list());
    assert_eq!(args.config().token.as_deref(), Some("given"));
    assert_eq!(args.updated(&config(Some("stored"))).token.as_deref(), Some("given"));

    let args = ConfigArgs::new(false, config(None));
    assert!(!args.list());
    assert_eq!(args.updated(&config(Some("stored"))).token.as_deref(), Some("stored"));
}
