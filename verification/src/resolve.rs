use vstd::prelude::*;
use crate::platform::Platform;
use crate::matching::lower_of;
use crate::matching::lowercase;
use crate::scan::FileEntry;
use crate::scan::RawEntryFile;
use crate::scan::SearchResult;
use crate::scan::desktop_items;
use crate::scan::entry_exec_of;
use crate::scan::file_items;
use crate::scan::item_score;
use crate::scan::lemma_scan_from_finds_zero;
use crate::scan::lemma_scan_from_no_zero;
use crate::scan::lemma_scan_from_sound;
use crate::scan::scan_result;
use crate::scan::search_desktop_entries;
use crate::scan::search_paths;
use crate::scan::update_best;

verus! {

/// The outcome of one resolution run: the native launcher already
/// started the program, or a single best candidate is to be dispatched,
/// or nothing matched anywhere and the original query is reported.
#[derive(Debug)]
pub enum Resolution {
    Native,
    Dispatch(SearchResult),
    NotFound(String),
}

/// The structured-entry tier's scan outcome; only platforms with a
/// desktop-entry registry run this tier at all.
pub open spec fn desktop_scan_of(p: Platform, files: Seq<RawEntryFile>, q: Seq<char>) -> Option<
    (int, nat),
> {
    if p == Platform::Linux {
        scan_result(p, desktop_items(files), q)
    } else {
        None
    }
}

/// Tags a tier's scan outcome with the tier's priority rank.
pub open spec fn as_winner(tier: int, s: Option<(int, nat)>) -> Option<(int, int, nat)> {
    match s {
        Option::None => None,
        Option::Some(pair) => Some((tier, pair.0, pair.1)),
    }
}

/// Cross-tier best-of: the later outcome replaces the earlier only with
/// a strictly lower score.
pub open spec fn merge_best(a: Option<(int, int, nat)>, b: Option<(int, int, nat)>) -> Option<
    (int, int, nat),
> {
    match (a, b) {
        (Option::None, _) => b,
        (Option::Some(x), Option::None) => a,
        (Option::Some(x), Option::Some(y)) => if y.2 < x.2 {
            b
        } else {
            a
        },
    }
}

/// The candidate the controller dispatches, as (tier, index, score):
/// the first tier in priority order to report an exact match wins
/// outright; otherwise the globally lowest score wins, ties going to
/// the earlier tier.
pub open spec fn winner_of(
    d: Option<(int, nat)>,
    c: Option<(int, nat)>,
    t: Option<(int, nat)>,
) -> Option<(int, int, nat)> {
    if d matches Some(ds) && ds.1 == 0 {
        Some((0int, d->Some_0.0, 0nat))
    } else if c matches Some(cs) && cs.1 == 0 {
        Some((1int, c->Some_0.0, 0nat))
    } else if t matches Some(ts) && ts.1 == 0 {
        Some((2int, t->Some_0.0, 0nat))
    } else {
        merge_best(merge_best(as_winner(0, d), as_winner(1, c)), as_winner(2, t))
    }
}

/// The dispatched candidate carries the fields of the winning tier's
/// entry: its path, its true score, and — for the structured-entry
/// tier — its recorded launch command.
pub open spec fn dispatched_matches(
    w: (int, int, nat),
    dfiles: Seq<RawEntryFile>,
    cfiles: Seq<FileEntry>,
    tfiles: Seq<FileEntry>,
    sr: SearchResult,
) -> bool {
    if w.0 == 0 {
        &&& 0 <= w.1 < dfiles.len()
        &&& sr.path@ == dfiles[w.1].path@
        &&& sr.score as nat == w.2
        &&& sr.is_desktop
        &&& sr.exec_cmd matches Some(ex)
        &&& ex@ == entry_exec_of(dfiles[w.1])
    } else if w.0 == 1 {
        &&& 0 <= w.1 < cfiles.len()
        &&& sr.path@ == cfiles[w.1].path@
        &&& sr.score as nat == w.2
        &&& !sr.is_desktop
        &&& sr.exec_cmd is None
    } else {
        &&& 0 <= w.1 < tfiles.len()
        &&& sr.path@ == tfiles[w.1].path@
        &&& sr.score as nat == w.2
        &&& !sr.is_desktop
        &&& sr.exec_cmd is None
    }
}

/// The resolution controller. Given the original-case query, whether
/// the native launch already succeeded, and the three tiers' scanned
/// data in priority order, it produces the run's outcome: the winner
/// that `winner_of` names over the lowercase query, or a not-found
/// failure naming the original query.
pub fn resolve(
    p: Platform,
    app_name: &str,
    native_ok: bool,
    desktop: &Vec<RawEntryFile>,
    common: &Vec<FileEntry>,
    tree: &Vec<FileEntry>,
) -> (r: Resolution)
    ensures
        native_ok ==> r is Native,
        !native_ok ==> (match winner_of(
            desktop_scan_of(p, desktop@, lower_of(app_name@)),
            scan_result(p, file_items(common@), lower_of(app_name@)),
            scan_result(p, file_items(tree@), lower_of(app_name@)),
        ) {
            Option::None => r matches Resolution::NotFound(nm) && nm@ == app_name@,
            Option::Some(w) => r matches Resolution::Dispatch(sr) && dispatched_matches(
                w,
                desktop@,
                common@,
                tree@,
                sr,
            ),
        }),
{
    if native_ok {
        return Resolution::Native;
    }
    let query = lowercase(app_name);
    let ghost q = lower_of(app_name@);
    let ghost dscan = desktop_scan_of(p, desktop@, q);
    let ghost cscan = scan_result(p, file_items(common@), q);
    let ghost tscan = scan_result(p, file_items(tree@), q);

    let mut best: Option<SearchResult> = None;
    let ghost mut wbest: Option<(int, int, nat)> = None;

    if p == Platform::Linux {
        match search_desktop_entries(p, desktop, query.as_str()) {
            Option::Some(res) => {
                if res.score == 0 {
                    return Resolution::Dispatch(res);
                }
                let ghost gres = res;
                update_best(&mut best, res);
                proof {
                    wbest = as_winner(0, dscan);
                }
            },
            Option::None => {},
        }
    }
    match search_paths(p, common, query.as_str()) {
        Option::Some(res) => {
            if res.score == 0 {
                return Resolution::Dispatch(res);
            }
            let ghost gres = res;
            update_best(&mut best, res);
            proof {
                wbest = merge_best(wbest, as_winner(1, cscan));
            }
        },
        Option::None => {},
    }
    match search_paths(p, tree, query.as_str()) {
        Option::Some(res) => {
            if res.score == 0 {
                return Resolution::Dispatch(res);
            }
            let ghost gres = res;
            update_best(&mut best, res);
            proof {
                wbest = merge_best(wbest, as_winner(2, tscan));
            }
        },
        Option::None => {},
    }
    match best {
        Option::Some(res) => Resolution::Dispatch(res),
        Option::None => Resolution::NotFound(app_name.to_owned()),
    }
}

/// Tier priority is absolute: the first tier in priority order to
/// report an exact (score-0) outcome is the winner, whatever any later
/// tier reports.
pub proof fn lemma_tier_priority(d: Option<(int, nat)>, c: Option<(int, nat)>, t: Option<(int, nat)>)
    ensures
        d matches Some(ds) && ds.1 == 0 ==> winner_of(d, c, t) == Some((0int, d->Some_0.0, 0nat)),
        !(d matches Some(ds) && ds.1 == 0) && (c matches Some(cs) && cs.1 == 0) ==> winner_of(
            d,
            c,
            t,
        ) == Some((1int, c->Some_0.0, 0nat)),
        !(d matches Some(ds) && ds.1 == 0) && !(c matches Some(cs) && cs.1 == 0) && (t matches Some(
            ts,
        ) && ts.1 == 0) ==> winner_of(d, c, t) == Some((2int, t->Some_0.0, 0nat)),
{
}

/// Replace-if-lower is strict across tiers: a later outcome whose score
/// is equal (or worse) never displaces the one discovered first.
pub proof fn lemma_equal_score_keeps_earlier(a: Option<(int, int, nat)>, b: Option<(int, int, nat)>)
    requires
        a is Some,
        b matches Some(y) ==> y.2 >= a->Some_0.2,
    ensures
        merge_best(a, b) == a,
{
}

/// A query that matches some scanned entry exactly resolves with score
/// 0, whatever lower-priority tiers hold: the winner's score is 0, it
/// names an entry whose own score is 0, and it comes from the
/// highest-priority tier that holds an exact entry.
pub proof fn lemma_exact_match_resolves_exact(
    p: Platform,
    q: Seq<char>,
    dfiles: Seq<RawEntryFile>,
    cfiles: Seq<FileEntry>,
    tfiles: Seq<FileEntry>,
)
    requires
        (p == Platform::Linux && exists|i: int|
            0 <= i < dfiles.len() && item_score(p, desktop_items(dfiles)[i], q) == Some(0nat)) || (
        exists|i: int|
            0 <= i < cfiles.len() && item_score(p, file_items(cfiles)[i], q) == Some(0nat)) || (
        exists|i: int|
            0 <= i < tfiles.len() && item_score(p, file_items(tfiles)[i], q) == Some(0nat)),
    ensures
        winner_of(
            desktop_scan_of(p, dfiles, q),
            scan_result(p, file_items(cfiles), q),
            scan_result(p, file_items(tfiles), q),
        ) matches Some(w) && w.2 == 0,
        winner_of(
            desktop_scan_of(p, dfiles, q),
            scan_result(p, file_items(cfiles), q),
            scan_result(p, file_items(tfiles), q),
        ) matches Some(w) ==> (if w.0 == 0 {
            item_score(p, desktop_items(dfiles)[w.1], q) == Some(w.2)
        } else if w.0 == 1 {
            item_score(p, file_items(cfiles)[w.1], q) == Some(w.2)
        } else {
            item_score(p, file_items(tfiles)[w.1], q) == Some(w.2)
        }),
        p == Platform::Linux && (exists|i: int|
            0 <= i < dfiles.len() && item_score(p, desktop_items(dfiles)[i], q) == Some(0nat))
            ==> (winner_of(
            desktop_scan_of(p, dfiles, q),
            scan_result(p, file_items(cfiles), q),
            scan_result(p, file_items(tfiles), q),
        ) matches Some(w) && w.0 == 0),
        !(p == Platform::Linux && (exists|i: int|
            0 <= i < dfiles.len() && item_score(p, desktop_items(dfiles)[i], q) == Some(0nat)))
            && (exists|i: int|
            0 <= i < cfiles.len() && item_score(p, file_items(cfiles)[i], q) == Some(0nat))
            ==> (winner_of(
            desktop_scan_of(p, dfiles, q),
            scan_result(p, file_items(cfiles), q),
            scan_result(p, file_items(tfiles), q),
        ) matches Some(w) && w.0 == 1),
        !(p == Platform::Linux && (exists|i: int|
            0 <= i < dfiles.len() && item_score(p, desktop_items(dfiles)[i], q) == Some(0nat)))
            && !(exists|i: int|
            0 <= i < cfiles.len() && item_score(p, file_items(cfiles)[i], q) == Some(0nat)) && (
        exists|i: int|
            0 <= i < tfiles.len() && item_score(p, file_items(tfiles)[i], q) == Some(0nat))
            ==> (winner_of(
            desktop_scan_of(p, dfiles, q),
            scan_result(p, file_items(cfiles), q),
            scan_result(p, file_items(tfiles), q),
        ) matches Some(w) && w.0 == 2),
{
    let ditems = desktop_items(dfiles);
    let citems = file_items(cfiles);
    let titems = file_items(tfiles);
    assert(ditems.len() == dfiles.len());
    assert(citems.len() == cfiles.len());
    assert(titems.len() == tfiles.len());
    if p == Platform::Linux && exists|i: int|
        0 <= i < ditems.len() && item_score(p, ditems[i], q) == Some(0nat) {
        lemma_scan_from_finds_zero(p, ditems, q, 0, None);
    } else if exists|i: int| 0 <= i < citems.len() && item_score(p, citems[i], q) == Some(0nat) {
        if p == Platform::Linux {
            assert(forall|i: int|
                0 <= i < ditems.len() ==> #[trigger] item_score(p, ditems[i], q) != Some(0nat));
            lemma_scan_from_no_zero(p, ditems, q, 0, None);
        }
        lemma_scan_from_finds_zero(p, citems, q, 0, None);
    } else {
        if p == Platform::Linux {
            assert(forall|i: int|
                0 <= i < ditems.len() ==> #[trigger] item_score(p, ditems[i], q) != Some(0nat));
            lemma_scan_from_no_zero(p, ditems, q, 0, None);
        }
        assert(forall|i: int|
            0 <= i < citems.len() ==> #[trigger] item_score(p, citems[i], q) != Some(0nat));
        lemma_scan_from_no_zero(p, citems, q, 0, None);
        lemma_scan_from_finds_zero(p, titems, q, 0, None);
    }
    lemma_scan_from_sound(p, citems, q, 0, None);
    lemma_scan_from_sound(p, titems, q, 0, None);
    if p == Platform::Linux {
        lemma_scan_from_sound(p, ditems, q, 0, None);
    }
}

} // verus!
