//! Which file events call for the settings to be read.

use dontspeakd::config_watch::{calls_for_reload, event_touches_config, is_relevant, WatchKind};
use std::path::Path;

/// The file names of an event's paths.
fn names(paths: &[&str]) -> Vec<Option<String>> {
    paths
        .iter()
        .map(|p| Path::new(p).file_name().map(|n| n.to_string_lossy().into_owned()))
        .collect()
}

#[test]
fn relevant_kinds_trigger_reload_others_dont() {
    assert!(is_relevant(WatchKind::Create));
    assert!(is_relevant(WatchKind::Modify));
    assert!(is_relevant(WatchKind::Remove));
    assert!(!is_relevant(WatchKind::Access));
    assert!(!is_relevant(WatchKind::Other));
    assert!(!is_relevant(WatchKind::Any));
}

#[test]
fn atomic_rename_shape_matches_by_name() {
    let paths = names(&[
        "/home/user/.config/dontspeak/config.toml.tmp12345",
        "/home/user/.config/dontspeak/config.toml",
    ]);
    assert!(event_touches_config(&paths, "config.toml"));
}

#[test]
fn sibling_file_write_does_not_match() {
    let paths = names(&["/home/user/.config/dontspeak/other.json"]);
    assert!(!event_touches_config(&paths, "config.toml"));
}

#[test]
fn only_one_matching_path_among_several_still_matches() {
    let paths = names(&[
        "/home/user/.config/dontspeak/other.json",
        "/home/user/.config/dontspeak/config.toml",
        "/home/user/.config/dontspeak/another.json",
    ]);
    assert!(event_touches_config(&paths, "config.toml"));
}

#[test]
fn empty_paths_does_not_match() {
    assert!(!event_touches_config(&Vec::new(), "config.toml"));
}

#[test]
fn a_reload_needs_both_the_kind_and_the_name() {
    let ours = names(&["/c/config.toml"]);
    let other = names(&["/c/other.json"]);
    assert!(calls_for_reload(WatchKind::Modify, &ours, "config.toml"));
    assert!(!calls_for_reload(WatchKind::Access, &ours, "config.toml"));
    assert!(!calls_for_reload(WatchKind::Modify, &other, "config.toml"));
}
