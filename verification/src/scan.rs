use vstd::prelude::*;
use vstd::string::StrSliceExecFns;
use crate::platform::Platform;
use crate::matching::lower_of;
use crate::matching::lowercase;
use crate::matching::match_score;
use crate::matching::score_of;
use crate::text::is_prefix;
use crate::text::starts_with_str;
use crate::text::trim_of;
use crate::text::trim_spaces;

verus! {

/// One candidate produced by a scanner: the unit of comparison across
/// all tiers. `score` is 0 for an exact match and the edit distance for
/// a fuzzy one; `exec_cmd` and `is_desktop` are set on structured-entry
/// candidates, which must be dispatched through their recorded command.
#[derive(Debug, Clone)]
pub struct SearchResult {
    pub path: String,
    pub score: usize,
    pub exec_cmd: Option<String>,
    pub is_desktop: bool,
}

/// A plain filesystem entry handed to a scanner: its bare file name and
/// its full path.
#[derive(Debug, Clone)]
pub struct FileEntry {
    pub name: String,
    pub path: String,
}

/// One structured descriptor file, read line by line but not yet parsed.
#[derive(Debug, Clone)]
pub struct RawEntryFile {
    pub path: String,
    pub lines: Vec<String>,
}

/// The best-so-far discipline shared by every scanner and by the
/// controller: a candidate replaces the current best only when its
/// score is strictly lower, so among equal scores the one discovered
/// first is retained.
pub fn update_best(best: &mut Option<SearchResult>, cand: SearchResult)
    ensures
        match *old(best) {
            Option::None => *final(best) == Some(cand),
            Option::Some(cur) => if cand.score < cur.score {
                *final(best) == Some(cand)
            } else {
                *final(best) == *old(best)
            },
        },
{
    let replace: bool = match &*best {
        Option::Some(cur) => cand.score < cur.score,
        Option::None => true,
    };
    if replace {
        *best = Some(cand);
    }
}

/// The result of folding the display name and launch command out of a
/// descriptor file's lines: for each of the two keys, the value after
/// the last line that carries it.
pub open spec fn parse_fold(
    lines: Seq<Seq<char>>,
    i: int,
    name: Option<Seq<char>>,
    exec: Option<Seq<char>>,
) -> (Option<Seq<char>>, Option<Seq<char>>)
    decreases lines.len() - i,
{
    if i < 0 || i >= lines.len() {
        (name, exec)
    } else {
        let l = trim_of(lines[i]);
        if is_prefix("Name="@, l) {
            parse_fold(lines, i + 1, Some(l.skip("Name="@.len() as int)), exec)
        } else if is_prefix("Exec="@, l) {
            parse_fold(lines, i + 1, name, Some(l.skip("Exec="@.len() as int)))
        } else {
            parse_fold(lines, i + 1, name, exec)
        }
    }
}

/// The display name and launch command of a descriptor file.
pub open spec fn parsed_entry(lines: Seq<Seq<char>>) -> (Option<Seq<char>>, Option<Seq<char>>) {
    parse_fold(lines, 0, None, None)
}

pub open spec fn opt_view(o: Option<String>) -> Option<Seq<char>> {
    match o {
        Option::None => None,
        Option::Some(s) => Some(s@),
    }
}

/// Extracts the display name (`Name=`) and launch command (`Exec=`)
/// from the lines of a descriptor file; the last occurrence of each key
/// wins, and the entry is rejected unless both are present.
pub fn parse_entry_lines(lines: &Vec<String>) -> (r: Option<(String, String)>)
    ensures
        match parsed_entry(lines.deep_view()) {
            (Some(n), Some(e)) => r matches Some(p) && p.0@ == n && p.1@ == e,
            _ => r is None,
        },
{
    let ghost ls = lines.deep_view();
    let mut name: Option<String> = None;
    let mut exec: Option<String> = None;
    let mut i: usize = 0;
    while i < lines.len()
        invariant
            i <= lines.len(),
            ls == lines.deep_view(),
            ls.len() == lines@.len(),
            parse_fold(ls, i as int, opt_view(name), opt_view(exec)) == parsed_entry(ls),
        decreases lines.len() - i,
    {
        let t = trim_spaces(lines[i].as_str());
        proof {
            assert(t@ == trim_of(ls[i as int]));
            reveal_strlit("Name=");
            reveal_strlit("Exec=");
        }
        let tlen = t.as_str().unicode_len();
        if starts_with_str(t.as_str(), "Name=") {
            let v = t.as_str().substring_char(5, tlen);
            proof {
                assert(v@ =~= trim_of(ls[i as int]).skip("Name="@.len() as int));
            }
            name = Some(v.to_owned());
        } else if starts_with_str(t.as_str(), "Exec=") {
            let v = t.as_str().substring_char(5, tlen);
            proof {
                assert(v@ =~= trim_of(ls[i as int]).skip("Exec="@.len() as int));
            }
            exec = Some(v.to_owned());
        }
        i = i + 1;
    }
    match (name, exec) {
        (Option::Some(n), Option::Some(e)) => Some((n, e)),
        _ => None,
    }
}

/// The score of one scan item: `None` for an item that yields no
/// scorable name (a descriptor missing one of its keys), otherwise the
/// matching primitive applied to the lowercase name.
pub open spec fn item_score(p: Platform, item: Option<Seq<char>>, q: Seq<char>) -> Option<nat> {
    match item {
        Option::None => None,
        Option::Some(nm) => score_of(p, lower_of(nm), q),
    }
}

/// One tier's scan, folded left to right from item `i` with best-so-far
/// `best`: each scorable item replaces the best only with a strictly
/// lower score, and a score of 0 stops the scan at once.
pub open spec fn scan_from(
    p: Platform,
    items: Seq<Option<Seq<char>>>,
    q: Seq<char>,
    i: int,
    best: Option<(int, nat)>,
) -> Option<(int, nat)>
    decreases items.len() - i,
{
    if i < 0 || i >= items.len() {
        best
    } else {
        match item_score(p, items[i], q) {
            Option::None => scan_from(p, items, q, i + 1, best),
            Option::Some(s) => {
                let nb = match best {
                    Option::None => Some((i, s)),
                    Option::Some(b) => if s < b.1 {
                        Some((i, s))
                    } else {
                        best
                    },
                };
                if s == 0 {
                    nb
                } else {
                    scan_from(p, items, q, i + 1, nb)
                }
            },
        }
    }
}

/// The outcome of scanning a whole tier: the index and score of the
/// winning item, if any.
pub open spec fn scan_result(p: Platform, items: Seq<Option<Seq<char>>>, q: Seq<char>) -> Option<
    (int, nat),
> {
    scan_from(p, items, q, 0, None)
}

/// The scan items of a list of plain filesystem entries.
pub open spec fn file_items(entries: Seq<FileEntry>) -> Seq<Option<Seq<char>>> {
    entries.map_values(|e: FileEntry| Some(e.name@))
}

/// The scorable display name of a descriptor file: present only when
/// both keys parse.
pub open spec fn entry_name_of(f: RawEntryFile) -> Option<Seq<char>> {
    match parsed_entry(f.lines.deep_view()) {
        (Some(n), Some(e)) => Some(n),
        _ => None,
    }
}

/// The launch command of a descriptor file (meaningful when the file
/// parses).
pub open spec fn entry_exec_of(f: RawEntryFile) -> Seq<char> {
    match parsed_entry(f.lines.deep_view()) {
        (_, Some(e)) => e,
        _ => Seq::empty(),
    }
}

/// The scan items of a list of descriptor files.
pub open spec fn desktop_items(files: Seq<RawEntryFile>) -> Seq<Option<Seq<char>>> {
    files.map_values(|f: RawEntryFile| entry_name_of(f))
}

/// How a plain-file scan's best-so-far relates to the fold state: the
/// candidate's fields come from the entry at the recorded index.
pub open spec fn file_best_ok(
    best: Option<SearchResult>,
    b: Option<(int, nat)>,
    entries: Seq<FileEntry>,
) -> bool {
    match b {
        Option::None => best is None,
        Option::Some(pair) => {
            &&& best matches Some(sr)
            &&& 0 <= pair.0 < entries.len()
            &&& sr.path@ == entries[pair.0].path@
            &&& sr.score as nat == pair.1
            &&& sr.exec_cmd is None
            &&& !sr.is_desktop
        },
    }
}

/// How a descriptor scan's best-so-far relates to the fold state.
pub open spec fn desktop_best_ok(
    best: Option<SearchResult>,
    b: Option<(int, nat)>,
    files: Seq<RawEntryFile>,
) -> bool {
    match b {
        Option::None => best is None,
        Option::Some(pair) => {
            &&& best matches Some(sr)
            &&& 0 <= pair.0 < files.len()
            &&& sr.path@ == files[pair.0].path@
            &&& sr.score as nat == pair.1
            &&& sr.is_desktop
            &&& sr.exec_cmd matches Some(ex)
            &&& ex@ == entry_exec_of(files[pair.0])
        },
    }
}

/// Scans a list of plain filesystem entries against the lowercase
/// query: first score-0 hit returned immediately, otherwise the
/// lowest-score hit with ties kept by the earlier entry, or none.
pub fn search_paths(p: Platform, entries: &Vec<FileEntry>, query: &str) -> (r: Option<
    SearchResult,
>)
    ensures
        file_best_ok(r, scan_result(p, file_items(entries@), query@), entries@),
{
    let ghost items = file_items(entries@);
    let mut best: Option<SearchResult> = None;
    let ghost mut bstate: Option<(int, nat)> = None;
    let mut idx: usize = 0;
    while idx < entries.len()
        invariant
            idx <= entries.len(),
            items == file_items(entries@),
            items.len() == entries@.len(),
            scan_from(p, items, query@, idx as int, bstate) == scan_result(p, items, query@),
            file_best_ok(best, bstate, entries@),
            bstate matches Some(b) ==> b.1 > 0,
        decreases entries.len() - idx,
    {
        let e = &entries[idx];
        let lname = lowercase(e.name.as_str());
        let sc = match_score(p, lname.as_str(), query);
        proof {
            assert(items[idx as int] == Some(e.name@));
        }
        match sc {
            Option::None => {},
            Option::Some(s) => {
                let cand = SearchResult {
                    path: e.path.clone(),
                    score: s,
                    exec_cmd: None,
                    is_desktop: false,
                };
                let ghost gc = cand;
                let ghost oldb = bstate;
                update_best(&mut best, cand);
                proof {
                    bstate = match oldb {
                        Option::None => Some((idx as int, s as nat)),
                        Option::Some(b) => if (s as nat) < b.1 {
                            Some((idx as int, s as nat))
                        } else {
                            oldb
                        },
                    };
                }
                if s == 0 {
                    return best;
                }
            },
        }
        idx = idx + 1;
    }
    best
}

/// Scans a list of descriptor files against the lowercase query:
/// unparsable files are skipped, the first score-0 display-name match
/// is returned immediately, otherwise the lowest-score match with ties
/// kept by the earlier file, or none.
pub fn search_desktop_entries(p: Platform, files: &Vec<RawEntryFile>, query: &str) -> (r: Option<
    SearchResult,
>)
    ensures
        desktop_best_ok(r, scan_result(p, desktop_items(files@), query@), files@),
{
    let ghost items = desktop_items(files@);
    let mut best: Option<SearchResult> = None;
    let ghost mut bstate: Option<(int, nat)> = None;
    let mut idx: usize = 0;
    while idx < files.len()
        invariant
            idx <= files.len(),
            items == desktop_items(files@),
            items.len() == files@.len(),
            scan_from(p, items, query@, idx as int, bstate) == scan_result(p, items, query@),
            desktop_best_ok(best, bstate, files@),
            bstate matches Some(b) ==> b.1 > 0,
        decreases files.len() - idx,
    {
        let f = &files[idx];
        proof {
            assert(items[idx as int] == entry_name_of(files@[idx as int]));
        }
        match parse_entry_lines(&f.lines) {
            Option::None => {},
            Option::Some(pair) => {
                let (nm, ex) = pair;
                let lname = lowercase(nm.as_str());
                let sc = match_score(p, lname.as_str(), query);
                match sc {
                    Option::None => {},
                    Option::Some(s) => {
                        let cand = SearchResult {
                            path: f.path.clone(),
                            score: s,
                            exec_cmd: Some(ex),
                            is_desktop: true,
                        };
                        let ghost gc = cand;
                        let ghost oldb = bstate;
                        update_best(&mut best, cand);
                        proof {
                            bstate = match oldb {
                                Option::None => Some((idx as int, s as nat)),
                                Option::Some(b) => if (s as nat) < b.1 {
                                    Some((idx as int, s as nat))
                                } else {
                                    oldb
                                },
                            };
                        }
                        if s == 0 {
                            return best;
                        }
                    },
                }
            },
        }
        idx = idx + 1;
    }
    best
}

/// Every pair the scan fold reports names a real item with that very
/// score: the scan invents nothing.
pub proof fn lemma_scan_from_sound(
    p: Platform,
    items: Seq<Option<Seq<char>>>,
    q: Seq<char>,
    k: int,
    b: Option<(int, nat)>,
)
    requires
        0 <= k <= items.len(),
        b matches Some(bb) ==> 0 <= bb.0 < items.len() && item_score(p, items[bb.0], q) == Some(
            bb.1,
        ),
    ensures
        scan_from(p, items, q, k, b) matches Some(r) ==> 0 <= r.0 < items.len() && item_score(
            p,
            items[r.0],
            q,
        ) == Some(r.1),
    decreases items.len() - k,
{
    if k < items.len() {
        match item_score(p, items[k], q) {
            Option::None => {
                lemma_scan_from_sound(p, items, q, k + 1, b);
            },
            Option::Some(s) => {
                let nb = match b {
                    Option::None => Some((k, s)),
                    Option::Some(bb) => if s < bb.1 {
                        Some((k, s))
                    } else {
                        b
                    },
                };
                if s != 0 {
                    lemma_scan_from_sound(p, items, q, k + 1, nb);
                }
            },
        }
    }
}

/// If no item from `k` on scores 0 and the best-so-far is not exact,
/// the scan fold cannot end with score 0: exact outcomes come only
/// from exact items.
pub proof fn lemma_scan_from_no_zero(
    p: Platform,
    items: Seq<Option<Seq<char>>>,
    q: Seq<char>,
    k: int,
    b: Option<(int, nat)>,
)
    requires
        0 <= k <= items.len(),
        forall|i: int| k <= i < items.len() ==> #[trigger] item_score(p, items[i], q) != Some(0nat),
        b matches Some(bb) ==> bb.1 > 0,
    ensures
        scan_from(p, items, q, k, b) matches Some(r) ==> r.1 > 0,
    decreases items.len() - k,
{
    if k < items.len() {
        match item_score(p, items[k], q) {
            Option::None => {
                lemma_scan_from_no_zero(p, items, q, k + 1, b);
            },
            Option::Some(s) => {
                let nb = match b {
                    Option::None => Some((k, s)),
                    Option::Some(bb) => if s < bb.1 {
                        Some((k, s))
                    } else {
                        b
                    },
                };
                assert(s != 0);
                lemma_scan_from_no_zero(p, items, q, k + 1, nb);
            },
        }
    }
}

/// If any item from `k` on scores 0, the scan fold ends with score 0:
/// an exact match is never missed and never overridden.
pub proof fn lemma_scan_from_finds_zero(
    p: Platform,
    items: Seq<Option<Seq<char>>>,
    q: Seq<char>,
    k: int,
    b: Option<(int, nat)>,
)
    requires
        0 <= k <= items.len(),
        exists|i: int| k <= i < items.len() && item_score(p, items[i], q) == Some(0nat),
    ensures
        scan_from(p, items, q, k, b) matches Some(r) && r.1 == 0,
    decreases items.len() - k,
{
    let i0 = choose|i: int| k <= i < items.len() && item_score(p, items[i], q) == Some(0nat);
    match item_score(p, items[k], q) {
        Option::None => {
            assert(i0 != k);
            lemma_scan_from_finds_zero(p, items, q, k + 1, b);
        },
        Option::Some(s) => {
            let nb = match b {
                Option::None => Some((k, s)),
                Option::Some(bb) => if s < bb.1 {
                    Some((k, s))
                } else {
                    b
                },
            };
            if s != 0 {
                assert(i0 != k);
                lemma_scan_from_finds_zero(p, items, q, k + 1, nb);
            }
        },
    }
}

} // verus!
