use rsopen::dispatch::dispatch_plan;
use rsopen::dispatch::ends_with_str;
use rsopen::dispatch::not_found_message;
use rsopen::dispatch::plain_launch_plan;
use rsopen::dispatch::split_exec_command;
use rsopen::dispatch::DispatchError;
use rsopen::matching::contains_str;
use rsopen::matching::eq_with_suffix;
use rsopen::matching::match_score;
use rsopen::matching::str_eq;
use rsopen::platform::get_common_paths;
use rsopen::platform::get_root_path;
use rsopen::platform::should_descend;
use rsopen::platform::Platform;
use rsopen::scan::parse_entry_lines;
use rsopen::scan::SearchResult;
use rsopen::text::filter_placeholder_tokens;
use rsopen::text::split_whitespace_tokens;
use rsopen::text::starts_with_str;
use rsopen::text::trim_spaces;

#[test]
fn exact_name_scores_zero() {
    assert_eq!(match_score(Platform::Linux, "firefox", "firefox"), Some(0));
}

#[test]
fn substring_scores_edit_distance() {
    // "firefox-esr" contains "fire" and is seven edits away from it.
    assert_eq!(match_score(Platform::Linux, "firefox-esr", "fire"), Some(7));
    assert_eq!(match_score(Platform::Linux, "firefox", "fire"), Some(3));
    assert_eq!(match_score(Platform::Linux, "fired", "fire"), Some(1));
}

#[test]
fn non_substring_is_never_scored() {
    // "flame" is close in edit distance but does not contain "fire".
    assert_eq!(match_score(Platform::Linux, "flame", "fire"), None);
    assert_eq!(match_score(Platform::Linux, "fir", "fire"), None);
    assert!(!contains_str("flame", "fire"));
}

#[test]
fn platform_suffix_counts_as_exact() {
    assert_eq!(match_score(Platform::Windows, "app.exe", "app"), Some(0));
    assert_eq!(match_score(Platform::MacOs, "app.app", "app"), Some(0));
    // On a platform without that suffix rule the same name is fuzzy.
    assert_eq!(match_score(Platform::Linux, "app.exe", "app"), Some(4));
}

#[test]
fn mixed_case_name_folds_before_scoring() {
    assert_eq!(match_score(Platform::Linux, &"FireFox".to_lowercase(), "firefox"), Some(0));
}

#[test]
fn string_primitives_behave() {
    assert!(str_eq("abc", "abc"));
    assert!(!str_eq("abc", "abd"));
    assert!(!str_eq("abc", "ab"));
    assert!(contains_str("firefox-esr", "fire"));
    assert!(contains_str("anything", ""));
    assert!(eq_with_suffix("app.exe", "app", ".exe"));
    assert!(!eq_with_suffix("app.exe", "app", ".app"));
    assert!(starts_with_str("/proc/1", "/proc"));
    assert!(!starts_with_str("/home", "/proc"));
    assert!(ends_with_str("Safari.app", ".app"));
    assert!(!ends_with_str("Safari", ".app"));
}

#[test]
fn trim_and_split() {
    assert_eq!(trim_spaces("  a b\t"), "a b");
    assert_eq!(trim_spaces("\r\n"), "");
    assert_eq!(trim_spaces("plain"), "plain");
    assert_eq!(split_whitespace_tokens("app %U --flag"), vec!["app", "%U", "--flag"]);
    assert_eq!(split_whitespace_tokens("  lots   of\tspace "), vec!["lots", "of", "space"]);
    assert!(split_whitespace_tokens("   ").is_empty());
    let toks: Vec<String> = vec!["app".to_string(), "%U".to_string(), "--flag".to_string()];
    assert_eq!(filter_placeholder_tokens(&toks), vec!["app", "--flag"]);
}

#[test]
fn exec_line_splits_and_drops_placeholders() {
    // `Exec=app %U --flag` dispatches as ["app", "--flag"].
    let c = split_exec_command("app %U --flag").expect("expected a command");
    assert_eq!(c.program, "app");
    assert_eq!(c.args, vec!["--flag"]);
}

#[test]
fn exec_line_of_only_placeholders_is_an_error() {
    assert!(split_exec_command("%U %F").is_none());
    let sr = SearchResult {
        path: "/apps/x.desktop".to_string(),
        score: 0,
        exec_cmd: Some("%U %F".to_string()),
        is_desktop: true,
    };
    let r = dispatch_plan(Platform::Linux, &sr);
    assert_eq!(r.unwrap_err(), DispatchError::EmptyExecLine);
}

#[test]
fn desktop_candidate_dispatches_via_its_command() {
    let sr = SearchResult {
        path: "/apps/x.desktop".to_string(),
        score: 0,
        exec_cmd: Some("/usr/bin/x --flag %u".to_string()),
        is_desktop: true,
    };
    let cmds = dispatch_plan(Platform::Linux, &sr).unwrap();
    assert_eq!(cmds.len(), 1);
    assert_eq!(cmds[0].program, "/usr/bin/x");
    assert_eq!(cmds[0].args, vec!["--flag"]);
}

#[test]
fn plain_path_fallback_chain_linux() {
    let cmds = plain_launch_plan(Platform::Linux, "/usr/bin/x");
    assert_eq!(cmds.len(), 3);
    assert_eq!(cmds[0].program, "xdg-open");
    assert_eq!(cmds[0].args, vec!["/usr/bin/x"]);
    assert_eq!(cmds[1].program, "/usr/bin/x");
    assert!(cmds[1].args.is_empty());
    assert_eq!(cmds[2].program, "sh");
    assert_eq!(cmds[2].args, vec!["/usr/bin/x"]);
}

#[test]
fn plain_path_fallback_chain_macos_and_windows() {
    let bundle = plain_launch_plan(Platform::MacOs, "/Applications/Safari.app");
    assert_eq!(bundle.len(), 2);
    assert_eq!(bundle[0].program, "open");
    assert_eq!(bundle[0].args, vec!["/Applications/Safari.app"]);
    assert_eq!(bundle[1].program, "/Applications/Safari.app");

    let plain = plain_launch_plan(Platform::MacOs, "/usr/local/bin/tool");
    assert_eq!(plain.len(), 1);
    assert_eq!(plain[0].program, "/usr/local/bin/tool");

    let win = plain_launch_plan(Platform::Windows, "C:\\Apps\\x.exe");
    assert_eq!(win.len(), 2);
    assert_eq!(win[0].program, "cmd");
    assert_eq!(win[0].args, vec!["/C", "start", "", "C:\\Apps\\x.exe"]);
}

#[test]
fn parse_entry_lines_requires_both_keys() {
    let both: Vec<String> =
        vec!["Name=App".to_string(), "Comment=c".to_string(), "Exec=app %u".to_string()];
    assert_eq!(parse_entry_lines(&both), Some(("App".to_string(), "app %u".to_string())));
    let name_only: Vec<String> = vec!["Name=App".to_string()];
    assert!(parse_entry_lines(&name_only).is_none());
    let exec_only: Vec<String> = vec!["Exec=app".to_string()];
    assert!(parse_entry_lines(&exec_only).is_none());
}

#[test]
fn common_paths_per_platform() {
    assert_eq!(
        get_common_paths(Platform::Linux),
        vec!["/usr/bin", "/usr/local/bin", "/opt", "/snap/bin", "/var/lib/flatpak/exports/bin"]
    );
    assert_eq!(
        get_common_paths(Platform::Windows),
        vec!["C:\\Program Files", "C:\\Program Files (x86)"]
    );
    assert_eq!(
        get_common_paths(Platform::MacOs),
        vec!["/Applications", "/System/Applications", "/Users/Shared/Applications"]
    );
    assert!(get_common_paths(Platform::Other).is_empty());
}

#[test]
fn root_path_per_platform() {
    assert_eq!(get_root_path(Platform::Windows), "C:\\");
    assert_eq!(get_root_path(Platform::Linux), "/");
}

#[test]
fn virtual_trees_are_pruned_on_linux_only() {
    assert!(!should_descend(Platform::Linux, "/proc/1"));
    assert!(!should_descend(Platform::Linux, "/sys"));
    assert!(!should_descend(Platform::Linux, "/dev/null"));
    assert!(!should_descend(Platform::Linux, "/run/user"));
    assert!(should_descend(Platform::Linux, "/home/user"));
    assert!(should_descend(Platform::Other, "/proc/1"));
}

#[test]
fn not_found_message_names_the_query() {
    let m = not_found_message("zzz-nonexistent");
    assert_eq!(m, "Could not find or launch application: zzz-nonexistent");
}
