use rsopen::platform::Platform;
use rsopen::resolve::resolve;
use rsopen::resolve::Resolution;
use rsopen::scan::search_desktop_entries;
use rsopen::scan::search_paths;
use rsopen::scan::update_best;
use rsopen::scan::FileEntry;
use rsopen::scan::RawEntryFile;
use rsopen::scan::SearchResult;

fn file(name: &str, path: &str) -> FileEntry {
    FileEntry { name: name.to_string(), path: path.to_string() }
}

fn entry(path: &str, lines: &[&str]) -> RawEntryFile {
    RawEntryFile {
        path: path.to_string(),
        lines: lines.iter().map(|l| l.to_string()).collect(),
    }
}

#[test]
fn native_success_ends_run() {
    let r = resolve(Platform::Linux, "anything", true, &Vec::new(), &Vec::new(), &Vec::new());
    assert!(matches!(r, Resolution::Native));
}

#[test]
fn exact_desktop_entry_wins_with_score_zero() {
    // Query "firefox" against an entry whose display name is "Firefox":
    // resolves via the entry tier with score 0 and the recorded command,
    // even though lower tiers hold candidates of their own.
    let desktop = vec![entry(
        "/usr/share/applications/firefox.desktop",
        &["[Desktop Entry]", "Name=Firefox", "Exec=/usr/lib/firefox/firefox %u"],
    )];
    let common = vec![file("firefox-esr", "/usr/bin/firefox-esr")];
    let tree = vec![file("firefox", "/data/firefox")];
    let r = resolve(Platform::Linux, "firefox", false, &desktop, &common, &tree);
    match r {
        Resolution::Dispatch(sr) => {
            assert_eq!(sr.score, 0);
            assert!(sr.is_desktop);
            assert_eq!(sr.path, "/usr/share/applications/firefox.desktop");
            assert_eq!(sr.exec_cmd.as_deref(), Some("/usr/lib/firefox/firefox %u"));
        }
        other => panic!("expected a dispatch, got {:?}", other),
    }
}

#[test]
fn later_tier_exact_beats_earlier_fuzzy() {
    // Query "fire": the common tier only has a fuzzy candidate, the full
    // tree holds an exact one deeper down; the tree's exact match wins.
    let common = vec![file("firefox-esr", "/usr/bin/firefox-esr")];
    let tree = vec![file("fire", "/data/apps/fire")];
    let r = resolve(Platform::Linux, "fire", false, &Vec::new(), &common, &tree);
    match r {
        Resolution::Dispatch(sr) => {
            assert_eq!(sr.score, 0);
            assert!(!sr.is_desktop);
            assert_eq!(sr.path, "/data/apps/fire");
        }
        other => panic!("expected a dispatch, got {:?}", other),
    }
}

#[test]
fn earlier_tier_exact_short_circuits_later_exact() {
    // Both the common tier and the tree hold an exact match for "fire":
    // the earlier tier's entry is returned.
    let common = vec![file("firefox-esr", "/usr/bin/firefox-esr"), file("fire", "/usr/bin/fire")];
    let tree = vec![file("fire", "/data/apps/fire")];
    let r = resolve(Platform::Linux, "fire", false, &Vec::new(), &common, &tree);
    match r {
        Resolution::Dispatch(sr) => {
            assert_eq!(sr.score, 0);
            assert_eq!(sr.path, "/usr/bin/fire");
        }
        other => panic!("expected a dispatch, got {:?}", other),
    }
}

#[test]
fn nothing_matches_reports_not_found() {
    let common = vec![file("emacs", "/usr/bin/emacs")];
    let r = resolve(Platform::Linux, "zzz-nonexistent", false, &Vec::new(), &common, &Vec::new());
    match r {
        Resolution::NotFound(name) => assert_eq!(name, "zzz-nonexistent"),
        other => panic!("expected not-found, got {:?}", other),
    }
}

#[test]
fn fuzzy_best_is_lowest_score_across_tiers() {
    // "fired" is one edit from "fire", "firefox" is three: the common
    // tier's closer name wins even though the tree also matches.
    let common = vec![file("fired", "/usr/bin/fired")];
    let tree = vec![file("firefox", "/data/firefox")];
    let r = resolve(Platform::Linux, "fire", false, &Vec::new(), &common, &tree);
    match r {
        Resolution::Dispatch(sr) => {
            assert_eq!(sr.score, 1);
            assert_eq!(sr.path, "/usr/bin/fired");
        }
        other => panic!("expected a dispatch, got {:?}", other),
    }
}

#[test]
fn equal_scores_keep_the_earlier_tier() {
    // Both candidates are one edit away from "fire"; the tier scanned
    // first is retained.
    let common = vec![file("firee", "/usr/bin/firee")];
    let tree = vec![file("fired", "/data/fired")];
    let r = resolve(Platform::Linux, "fire", false, &Vec::new(), &common, &tree);
    match r {
        Resolution::Dispatch(sr) => {
            assert_eq!(sr.score, 1);
            assert_eq!(sr.path, "/usr/bin/firee");
        }
        other => panic!("expected a dispatch, got {:?}", other),
    }
}

#[test]
fn case_insensitive_query_scores_exact() {
    let entries = vec![file("FireFox", "/apps/FireFox")];
    let r = search_paths(Platform::Linux, &entries, &"fIrEfOx".to_lowercase());
    let sr = r.expect("expected a candidate");
    assert_eq!(sr.score, 0);
    assert_eq!(sr.path, "/apps/FireFox");
}

#[test]
fn desktop_last_occurrence_of_each_key_wins() {
    let files = vec![entry(
        "/apps/two.desktop",
        &["Name=One", "Exec=one", "Name=Two", "Exec=two %U"],
    )];
    let r = search_desktop_entries(Platform::Linux, &files, "two");
    let sr = r.expect("expected a candidate");
    assert_eq!(sr.score, 0);
    assert_eq!(sr.exec_cmd.as_deref(), Some("two %U"));
}

#[test]
fn desktop_entry_without_exec_is_skipped() {
    let files = vec![entry("/apps/half.desktop", &["Name=Half"])];
    let r = search_desktop_entries(Platform::Linux, &files, "half");
    assert!(r.is_none());
}

#[test]
fn desktop_keys_are_trimmed_before_matching() {
    let files = vec![entry("/apps/pad.desktop", &["  Name=Pad  ", "\tExec=pad --go"])];
    let r = search_desktop_entries(Platform::Linux, &files, "pad");
    let sr = r.expect("expected a candidate");
    assert_eq!(sr.score, 0);
    assert_eq!(sr.exec_cmd.as_deref(), Some("pad --go"));
}

#[test]
fn first_scored_entry_wins_ties_within_a_tier() {
    let entries = vec![file("fireA", "/a"), file("fireB", "/b")];
    let r = search_paths(Platform::Linux, &entries, "fire");
    let sr = r.expect("expected a candidate");
    assert_eq!(sr.score, 1);
    assert_eq!(sr.path, "/a");
}

#[test]
fn update_best_replaces_only_on_strictly_lower_score() {
    let a = SearchResult {
        path: "/a".to_string(),
        score: 3,
        exec_cmd: None,
        is_desktop: false,
    };
    let b = SearchResult {
        path: "/b".to_string(),
        score: 3,
        exec_cmd: None,
        is_desktop: false,
    };
    let c = SearchResult {
        path: "/c".to_string(),
        score: 2,
        exec_cmd: None,
        is_desktop: false,
    };
    let mut best: Option<SearchResult> = None;
    update_best(&mut best, a);
    assert_eq!(best.as_ref().unwrap().path, "/a");
    update_best(&mut best, b);
    assert_eq!(best.as_ref().unwrap().path, "/a");
    update_best(&mut best, c);
    assert_eq!(best.as_ref().unwrap().path, "/c");
    assert_eq!(best.as_ref().unwrap().score, 2);
}
