use swc_plugin_ng_annotate::config::Mode;
use swc_plugin_ng_annotate::regexp::{build_regexp, default_regexp, is_match, RegexError};
use swc_plugin_ng_annotate::{PluginConfig, RenameEntry};

fn config(add: bool, remove: bool) -> PluginConfig {
    PluginConfig { add, remove, ..Default::default() }
}

fn entry(from: &str, to: &str) -> RenameEntry {
    RenameEntry { from: from.to_string(), to: to.to_string() }
}

#[test]
fn default_config_is_all_off() {
    let c = PluginConfig::default();
    assert!(!c.add);
    assert!(!c.remove);
    assert!(!c.single_quotes);
    assert!(c.regexp.is_none());
    assert!(c.rename.is_none());
    assert!(c.enable.is_none());
    assert!(c.mode().is_none());
}

#[test]
fn mode_follows_add_and_remove() {
    assert_eq!(config(true, false).mode(), Some(Mode::Add));
    assert_eq!(config(false, true).mode(), Some(Mode::Remove));
    assert_eq!(config(true, true).mode(), Some(Mode::Rebuild));
    assert_eq!(config(false, false).mode(), None);
}

#[test]
fn quote_char_follows_single_quotes() {
    let mut c = config(true, false);
    assert_eq!(c.quote_char(), '"');
    c.single_quotes = true;
    assert_eq!(c.quote_char(), '\'');
}

#[test]
fn rename_map_later_entry_wins() {
    let mut c = config(true, false);
    c.rename = Some(vec![entry("$a", "$aRenamed"), entry("$b", "$bRenamed"), entry("$a", "$aLater")]);
    let m = c.rename_map();
    assert_eq!(m.get("$a").map(|s| s.as_str()), Some("$aLater"));
    assert_eq!(m.get("$b").map(|s| s.as_str()), Some("$bRenamed"));
    assert_eq!(m.get("$c"), None);
}

#[test]
fn rename_map_absent_is_empty() {
    let c = config(true, false);
    let m = c.rename_map();
    assert_eq!(m.get("$a"), None);
}

#[test]
fn adf_enabled_only_by_its_name() {
    let mut c = config(true, false);
    assert!(!c.is_adf_enabled());
    c.enable = Some(vec!["something-else".to_string()]);
    assert!(!c.is_adf_enabled());
    c.enable = Some(vec!["something-else".to_string(), "angular-dashboard-framework".to_string()]);
    assert!(c.is_adf_enabled());
    c.enable = Some(vec![]);
    assert!(!c.is_adf_enabled());
}

#[test]
fn build_regexp_accepts_and_refuses() {
    let p = build_regexp("^myMod").expect("valid pattern");
    assert_eq!(p.source().as_str(), "^myMod");
    assert!(is_match(&p, "myMod.controllers"));
    assert!(!is_match(&p, "otherMod"));
    assert!(matches!(build_regexp("(unclosed"), Err(RegexError::Invalid)));
}

#[test]
fn default_regexp_matches_plain_names() {
    let p = default_regexp().expect("default pattern compiles");
    assert_eq!(p.source().as_str(), "^[a-zA-Z0-9_$.\\s]+$");
    assert!(is_match(&p, "myMod"));
    assert!(is_match(&p, "angular.module"));
    assert!(is_match(&p, "$app_1"));
    assert!(!is_match(&p, ""));
    assert!(!is_match(&p, "a-b"));
    assert!(!is_match(&p, "x()"));
}
