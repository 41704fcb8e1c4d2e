use vstd::prelude::*;
use crate::text::is_prefix;
use crate::text::starts_with_str;

verus! {

/// Tag for the operating-system family the resolver is running on.
/// Selected once at startup; all platform-conditional behaviour
/// (directory lists, suffix rules, launch strategies) keys off it.
#[derive(Clone, Copy, PartialEq, Eq, Structural, Debug)]
pub enum Platform {
    Linux,
    MacOs,
    Windows,
    Other,
}

/// The fixed list of conventional installation directories that the
/// common-path tier scans, in priority order.
pub fn get_common_paths(p: Platform) -> (r: Vec<String>)
    ensures
        p == Platform::Windows ==> r.deep_view() =~= seq![
            "C:\\Program Files"@,
            "C:\\Program Files (x86)"@,
        ],
        p == Platform::MacOs ==> r.deep_view() =~= seq![
            "/Applications"@,
            "/System/Applications"@,
            "/Users/Shared/Applications"@,
        ],
        p == Platform::Linux ==> r.deep_view() =~= seq![
            "/usr/bin"@,
            "/usr/local/bin"@,
            "/opt"@,
            "/snap/bin"@,
            "/var/lib/flatpak/exports/bin"@,
        ],
        p == Platform::Other ==> r.deep_view() =~= Seq::<Seq<char>>::empty(),
{
    let mut r: Vec<String> = Vec::new();
    match p {
        Platform::Windows => {
            r.push("C:\\Program Files".to_owned());
            r.push("C:\\Program Files (x86)".to_owned());
        }
        Platform::MacOs => {
            r.push("/Applications".to_owned());
            r.push("/System/Applications".to_owned());
            r.push("/Users/Shared/Applications".to_owned());
        }
        Platform::Linux => {
            r.push("/usr/bin".to_owned());
            r.push("/usr/local/bin".to_owned());
            r.push("/opt".to_owned());
            r.push("/snap/bin".to_owned());
            r.push("/var/lib/flatpak/exports/bin".to_owned());
        }
        Platform::Other => {}
    }
    r
}

/// The root directory from which the full-tree tier starts.
pub fn get_root_path(p: Platform) -> (r: &'static str)
    ensures
        p == Platform::Windows ==> r@ == "C:\\"@,
        p != Platform::Windows ==> r@ == "/"@,
{
    match p {
        Platform::Windows => "C:\\",
        _ => "/",
    }
}

/// Whether directory entries themselves take part in matching: they do
/// only on platforms where application bundles are directories, and are
/// excluded elsewhere to avoid false positives from directory names.
pub open spec fn dirs_matchable(p: Platform) -> bool {
    p == Platform::MacOs || p == Platform::Other
}

pub fn dirs_match(p: Platform) -> (r: bool)
    ensures
        r == dirs_matchable(p),
{
    match p {
        Platform::MacOs => true,
        Platform::Other => true,
        Platform::Linux => false,
        Platform::Windows => false,
    }
}

/// The virtual and kernel-interface trees that the full-tree tier must
/// never descend into on systems that have them (process-info,
/// system-info, device-node and runtime-state trees).
pub open spec fn is_pruned_tree(p: Platform, path: Seq<char>) -> bool {
    p == Platform::Linux && (is_prefix("/proc"@, path) || is_prefix("/sys"@, path)
        || is_prefix("/dev"@, path) || is_prefix("/run"@, path))
}

/// Whether the full-tree scan may descend into `path`: everything is
/// allowed except the pruned virtual trees.
pub fn should_descend(p: Platform, path: &str) -> (r: bool)
    ensures
        r == !is_pruned_tree(p, path@),
{
    match p {
        Platform::Linux => {
            let pruned = starts_with_str(path, "/proc") || starts_with_str(path, "/sys")
                || starts_with_str(path, "/dev") || starts_with_str(path, "/run");
            !pruned
        }
        _ => true,
    }
}

} // verus!
