//! The decisions of the search, completion, reconciliation and sweep rounds.
//! The rounds themselves wait on the source, the sink and the file system;
//! what they decide at each step is here.
use vstd::prelude::*;
use crate::episode::episode_eq;
use crate::model::{
    PullEntryFilter, FinishedTorrent, ParsedSearchResult, Profile, PullEntry, PullState, SearchConfig, SearchResult,
    Series, TorrentInfo, path_join, pull_key, relocate_dir_of,
};
use crate::parser::parse_title;
use crate::store::{Database, StoreError, deleted_pull, kb, torrent_key, saved_pull};
use crate::text::push_char;

verus! {

/// The age limit for a series: the larger of the search's and the series'
/// own where the series sets one, else the search's.
pub open spec fn effective_max_days(global: u64, own: Option<u64>) -> u64 {
    match own {
        Some(x) => if x > global { x } else { global },
        None => global,
    }
}

/// The query for a series: `<search prefix> <series name>`, or the name alone.
pub open spec fn query_of(profile: Profile, series: Series) -> Seq<char> {
    match profile.search_prefix {
        Some(p) => p@ + seq![' '] + series.name@,
        None => series.name@,
    }
}

/// A base directory with the series' name below it, adding a `/` unless the
/// base ends with one.
pub open spec fn under_base(base: Seq<char>, name: Seq<char>) -> Seq<char> {
    if base.len() > 0 && base.last() == '/' {
        base + name
    } else {
        base + seq!['/'] + name
    }
}

pub open spec fn opt_str(o: Option<String>) -> Option<Seq<char>> {
    match o {
        Some(s) => Some(s@),
        None => None,
    }
}

/// Where a series' episodes are filed: the series' own directory; else the
/// profile's default, else the search's, with the series' name below it.
pub open spec fn relocate_of(series: Series, profile: Profile, global: Option<String>) -> Option<
    Seq<char>,
> {
    match series.relocate {
        Some(r) => Some(r@),
        None => match profile.relocate {
            Some(b) => Some(under_base(b@, series.name@)),
            None => match global {
                Some(b) => Some(under_base(b@, series.name@)),
                None => None,
            },
        },
    }
}

/// A time as nanoseconds since the epoch, from whole seconds and the
/// nanoseconds past them.
pub open spec fn nanos_of(secs: i64, nanos: u32) -> int {
    secs * 1_000_000_000 + nanos
}

/// A hit is recent and healthy enough: published at most `days` days before
/// `now` (seconds since the epoch, and nanoseconds past them), with at least
/// `min_seeders` seeders.
pub open spec fn is_eligible(item: SearchResult, now: i64, now_nanos: u32, days: u64, min_seeders: u64) -> bool {
    nanos_of(now, now_nanos) - nanos_of(item.date, item.date_nanos) <= days * 86400 * 1_000_000_000
        && item.seeders >= min_seeders
}

/// A hit is taken: eligible, and the profile's pattern reads its title.
pub open spec fn is_taken(
    config: SearchConfig,
    series: Series,
    profile: Profile,
    item: SearchResult,
    now: i64,
    now_nanos: u32,
) -> bool {
    is_eligible(item, now, now_nanos, effective_max_days(config.max_days_old, series.max_days_old), config.min_seeders)
        && parse_title(profile.parse_regex@, item.title@) is Some
}

/// The hits that are taken, in the source's order.
pub open spec fn taken_items(
    config: SearchConfig,
    series: Series,
    profile: Profile,
    items: Seq<SearchResult>,
    now: i64,
    now_nanos: u32,
) -> Seq<SearchResult>
    decreases items.len(),
{
    if items.len() == 0 {
        Seq::empty()
    } else {
        let rest = taken_items(config, series, profile, items.drop_last(), now, now_nanos);
        if is_taken(config, series, profile, items.last(), now, now_nanos) {
            rest.push(items.last())
        } else {
            rest
        }
    }
}

/// A candidate built from a taken hit for a series.
pub open spec fn is_candidate_of(
    c: ParsedSearchResult,
    item: SearchResult,
    config: SearchConfig,
    series: Series,
    profile: Profile,
) -> bool {
    &&& c.result == item
    &&& Some(c.parsed@) == parse_title(profile.parse_regex@, item.title@)
    &&& c.profile@ == series.profile@
    &&& opt_str(c.relocate) == relocate_of(series, profile, config.relocate)
    &&& c.relocate_season == series.relocate_season
}

/// The age limit for a series.
pub fn max_days_for(global: u64, own: Option<u64>) -> (r: u64)
    ensures
        r == effective_max_days(global, own),
{
    match own {
        Some(x) => if x > global {
            x
        } else {
            global
        },
        None => global,
    }
}

/// The query sent to the source for a series.
pub fn search_query(profile: &Profile, series: &Series) -> (r: String)
    ensures
        r@ == query_of(*profile, *series),
{
    match &profile.search_prefix {
        Some(p) => {
            let mut q = p.clone();
            push_char(&mut q, ' ');
            q.append(series.name.as_str());
            q
        },
        None => series.name.clone(),
    }
}

/// Where a series' episodes are filed.
pub fn resolve_relocate(series: &Series, profile: &Profile, global: &Option<String>) -> (r: Option<
    String,
>)
    ensures
        opt_str(r) == relocate_of(*series, *profile, *global),
{
    match &series.relocate {
        Some(r) => Some(r.clone()),
        None => {
            let base = match &profile.relocate {
                Some(b) => b,
                None => match global {
                    Some(b) => b,
                    None => {
                        return None;
                    },
                },
            };
            let mut out = base.clone();
            let n = base.as_str().unicode_len();
            if n == 0 || base.as_str().get_char(n - 1) != '/' {
                push_char(&mut out, '/');
            }
            out.append(series.name.as_str());
            Some(out)
        },
    }
}

/// Whether a hit is recent and healthy enough.
pub fn eligible(item: &SearchResult, now: i64, now_nanos: u32, days: u64, min_seeders: u64) -> (r: bool)
    ensures
        r == is_eligible(*item, now, now_nanos, days, min_seeders),
{
    let at: i128 = now as i128 * 1_000_000_000 + now_nanos as i128;
    let published: i128 = item.date as i128 * 1_000_000_000 + item.date_nanos as i128;
    let limit: i128 = days as i128 * 86_400_000_000_000;
    at - published <= limit && item.seeders >= min_seeders
}

/// The candidates of one series from the source's hits, in the source's
/// order: each hit that is eligible and whose title the profile's pattern
/// reads, with where it is to be filed.
pub fn select_candidates(
    config: &SearchConfig,
    series: &Series,
    profile: &Profile,
    items: Vec<SearchResult>,
    now: i64,
    now_nanos: u32,
) -> (r: Vec<ParsedSearchResult>)
    ensures
        r.len() == taken_items(*config, *series, *profile, items@, now, now_nanos).len(),
        forall|i: int|
            0 <= i < r.len() ==> is_candidate_of(
                #[trigger] r@[i],
                taken_items(*config, *series, *profile, items@, now, now_nanos)[i],
                *config,
                *series,
                *profile,
            ),
{
    let days = max_days_for(config.max_days_old, series.max_days_old);
    let relocate = resolve_relocate(series, profile, &config.relocate);
    let ghost all = items@;
    let mut out: Vec<ParsedSearchResult> = Vec::new();
    assert(all.len() == items.len());
    let mut rest = items;
    let ghost n = all.len();
    let mut i: usize = 0;
    while rest.len() > 0
        invariant
            i + rest.len() == n,
            n == all.len(),
            n <= usize::MAX,
            rest@ == all.subrange(i as int, n as int),
            days == effective_max_days(config.max_days_old, series.max_days_old),
            opt_str(relocate) == relocate_of(*series, *profile, config.relocate),
            out.len() == taken_items(*config, *series, *profile, all.take(i as int), now, now_nanos).len(),
            forall|k: int|
                0 <= k < out.len() ==> is_candidate_of(
                    #[trigger] out@[k],
                    taken_items(*config, *series, *profile, all.take(i as int), now, now_nanos)[k],
                    *config,
                    *series,
                    *profile,
                ),
        decreases rest.len(),
    {
        let item = rest.remove(0);
        assert(rest@ =~= all.subrange(i + 1, n as int));
        let ghost before = taken_items(*config, *series, *profile, all.take(i as int), now, now_nanos);
        assert(item == all[i as int]);
        assert(all.take(i + 1).drop_last() =~= all.take(i as int));
        assert(all.take(i + 1).last() == item);
        if eligible(&item, now, now_nanos, days, config.min_seeders) {
            match profile.parse_name(item.title.as_str()) {
                Some(parsed) => {
                    let c = ParsedSearchResult {
                        result: item,
                        parsed,
                        profile: series.profile.clone(),
                        relocate: match &relocate {
                            Some(r) => Some(r.clone()),
                            None => None,
                        },
                        relocate_season: series.relocate_season,
                    };
                    out.push(c);
                },
                None => {},
            }
        }
        i = i + 1;
        proof {
            let after = taken_items(*config, *series, *profile, all.take(i as int), now, now_nanos);
            assert forall|k: int| 0 <= k < out.len() implies is_candidate_of(
                #[trigger] out@[k],
                after[k],
                *config,
                *series,
                *profile,
            ) by {
                if k < before.len() {
                    assert(after[k] == before[k]);
                }
            }
        }
    }
    assert(all.take(i as int) =~= all);
    assert(all.take(0) =~= Seq::<SearchResult>::empty());
    out
}

/// A new pull for a candidate that the sink has taken: downloading, under
/// the sink's id and hash, with no files yet.
pub fn new_pull(candidate: ParsedSearchResult, info: TorrentInfo) -> (r: PullEntry)
    ensures
        r.result == candidate,
        r.torrent_id == Some(info.id),
        r.torrent_hash == info.hash,
        r.state == PullState::Downloading,
        r.files@.len() == 0,
{
    PullEntry {
        result: candidate,
        torrent_id: Some(info.id),
        torrent_hash: info.hash,
        state: PullState::Downloading,
        files: Vec::new(),
    }
}

/// A candidate goes to the sink only when no pull with its key is stored.
pub open spec fn wants_push(m: Map<Seq<u8>, Seq<u8>>, c: ParsedSearchResult) -> bool {
    !m.contains_key(kb(torrent_key(pull_key(c.parsed))))
}

/// The store after a new downloading pull for a candidate is saved under
/// the sink's torrent id.
pub open spec fn saved_new(
    m: Map<Seq<u8>, Seq<u8>>,
    c: ParsedSearchResult,
    id: i64,
    record: Seq<u8>,
) -> Map<Seq<u8>, Seq<u8>> {
    m.insert(kb(torrent_key(pull_key(c.parsed))), record).insert(
        kb(crate::store::downloading_key(id)),
        kb(pull_key(c.parsed)),
    )
}

/// One step of a search round's push phase: a candidate whose key is stored
/// is skipped; otherwise, where the sink takes it (`answer` gives the new
/// torrent id), its new pull is saved, and where the sink refuses it the
/// store is left alone.
pub open spec fn push_step(
    m: Map<Seq<u8>, Seq<u8>>,
    c: ParsedSearchResult,
    answer: Option<i64>,
    record: Seq<u8>,
) -> Map<Seq<u8>, Seq<u8>> {
    if !wants_push(m, c) {
        m
    } else {
        match answer {
            Some(id) => saved_new(m, c, id, record),
            None => m,
        }
    }
}

/// The store after the push phase of a search round over the candidates in
/// order, with the sink's answer and the stored record for each candidate.
pub open spec fn search_round(
    m: Map<Seq<u8>, Seq<u8>>,
    cs: Seq<ParsedSearchResult>,
    sink: spec_fn(ParsedSearchResult) -> Option<i64>,
    records: spec_fn(ParsedSearchResult) -> Seq<u8>,
) -> Map<Seq<u8>, Seq<u8>>
    decreases cs.len(),
{
    if cs.len() == 0 {
        m
    } else {
        let m1 = search_round(m, cs.drop_last(), sink, records);
        push_step(m1, cs.last(), sink(cs.last()), records(cs.last()))
    }
}

proof fn lemma_new_pull_saved(m: Map<Seq<u8>, Seq<u8>>, c: ParsedSearchResult, id: i64, record: Seq<u8>)
    ensures
        saved_new(m, c, id, record).contains_key(kb(torrent_key(pull_key(c.parsed)))),
        forall|k: Seq<u8>| m.contains_key(k) ==> #[trigger] saved_new(m, c, id, record).contains_key(k),
{
}

proof fn lemma_round_settles(
    m: Map<Seq<u8>, Seq<u8>>,
    cs: Seq<ParsedSearchResult>,
    sink: spec_fn(ParsedSearchResult) -> Option<i64>,
    records: spec_fn(ParsedSearchResult) -> Seq<u8>,
)
    ensures
        forall|k: Seq<u8>| m.contains_key(k) ==> #[trigger] search_round(m, cs, sink, records).contains_key(k),
        forall|i: int|
            0 <= i < cs.len() ==> !wants_push(search_round(m, cs, sink, records), #[trigger] cs[i])
                || sink(cs[i]) is None,
    decreases cs.len(),
{
    if cs.len() > 0 {
        let n = cs.len();
        let prev = search_round(m, cs.drop_last(), sink, records);
        lemma_round_settles(m, cs.drop_last(), sink, records);
        let c = cs.last();
        if let Some(id) = sink(c) {
            lemma_new_pull_saved(prev, c, id, records(c));
        }
        let after = search_round(m, cs, sink, records);
        assert forall|i: int| 0 <= i < cs.len() implies !wants_push(after, #[trigger] cs[i]) || sink(
            cs[i],
        ) is None by {
            if i < n - 1 {
                assert(cs.drop_last()[i] == cs[i]);
            }
        }
    }
}

proof fn lemma_round_changes_nothing(
    m: Map<Seq<u8>, Seq<u8>>,
    cs: Seq<ParsedSearchResult>,
    sink: spec_fn(ParsedSearchResult) -> Option<i64>,
    records: spec_fn(ParsedSearchResult) -> Seq<u8>,
)
    requires
        forall|i: int| 0 <= i < cs.len() ==> !wants_push(m, #[trigger] cs[i]) || sink(cs[i]) is None,
    ensures
        search_round(m, cs, sink, records) == m,
    decreases cs.len(),
{
    if cs.len() > 0 {
        assert forall|i: int| 0 <= i < cs.drop_last().len() implies !wants_push(
            m,
            #[trigger] cs.drop_last()[i],
        ) || sink(cs.drop_last()[i]) is None by {
            assert(cs.drop_last()[i] == cs[i]);
        }
        lemma_round_changes_nothing(m, cs.drop_last(), sink, records);
        assert(!wants_push(m, cs[cs.len() - 1]) || sink(cs[cs.len() - 1]) is None);
    }
}

/// A search round run twice in succession, with the source giving the same
/// candidates and the sink the same answers, leaves the store as the first
/// round left it: every candidate is then stored, and so skipped, or was
/// refused by the sink, and is refused again. No pull is duplicated.
pub proof fn lemma_search_round_idempotent(
    m: Map<Seq<u8>, Seq<u8>>,
    cs: Seq<ParsedSearchResult>,
    sink: spec_fn(ParsedSearchResult) -> Option<i64>,
    records: spec_fn(ParsedSearchResult) -> Seq<u8>,
)
    ensures
        search_round(search_round(m, cs, sink, records), cs, sink, records) == search_round(
            m,
            cs,
            sink,
            records,
        ),
{
    lemma_round_settles(m, cs, sink, records);
    lemma_round_changes_nothing(search_round(m, cs, sink, records), cs, sink, records);
}

/// Saving the pull that `new_pull` makes is the save step of a search round.
pub proof fn lemma_new_pull_is_round_step(
    m: Map<Seq<u8>, Seq<u8>>,
    c: ParsedSearchResult,
    p: PullEntry,
    id: i64,
    record: Seq<u8>,
)
    requires
        p.result == c,
        p.torrent_id == Some(id),
    ensures
        saved_pull(m, p, record) == saved_new(m, c, id, record),
{
}

pub open spec fn starts_with(s: Seq<char>, p: Seq<char>) -> bool {
    p.len() <= s.len() && s.subrange(0, p.len() as int) == p
}

pub open spec fn patches_view(patches: Vec<(String, String)>) -> Seq<(Seq<char>, Seq<char>)> {
    patches@.map_values(|p: (String, String)| (p.0@, p.1@))
}

/// A download directory after the path patches: the first patch whose
/// prefix begins the directory replaces that prefix; with none, the
/// directory is unchanged.
pub open spec fn patched_dir(dir: Seq<char>, patches: Seq<(Seq<char>, Seq<char>)>) -> Seq<char>
    decreases patches.len(),
{
    if patches.len() == 0 {
        dir
    } else if starts_with(dir, patches[0].0) {
        patches[0].1 + dir.subrange(patches[0].0.len() as int, dir.len() as int)
    } else {
        patched_dir(dir, patches.drop_first())
    }
}

fn str_starts_with(s: &str, p: &str) -> (r: bool)
    ensures
        r == starts_with(s@, p@),
{
    let n = s.unicode_len();
    let m = p.unicode_len();
    if m > n {
        return false;
    }
    let mut i: usize = 0;
    while i < m
        invariant
            n == s@.len(),
            m == p@.len(),
            m <= n,
            i <= m,
            s@.subrange(0, i as int) == p@.subrange(0, i as int),
        decreases m - i,
    {
        if s.get_char(i) != p.get_char(i) {
            assert(s@.subrange(0, m as int)[i as int] != p@[i as int]);
            return false;
        }
        assert(s@.subrange(0, i + 1) =~= s@.subrange(0, i as int).push(s@[i as int]));
        assert(p@.subrange(0, i + 1) =~= p@.subrange(0, i as int).push(p@[i as int]));
        i = i + 1;
    }
    assert(p@.subrange(0, m as int) =~= p@);
    true
}

/// Applies the first path patch whose prefix begins the directory.
pub fn patch_path(dir: &str, patches: &Vec<(String, String)>) -> (r: String)
    ensures
        r@ == patched_dir(dir@, patches_view(*patches)),
{
    let ghost pv = patches_view(*patches);
    let mut j: usize = 0;
    assert(pv.subrange(0, pv.len() as int) =~= pv);
    while j < patches.len()
        invariant
            j <= patches.len(),
            pv == patches_view(*patches),
            pv.len() == patches.len(),
            patched_dir(dir@, pv) == patched_dir(dir@, pv.subrange(j as int, pv.len() as int)),
        decreases patches.len() - j,
    {
        let ghost tail = pv.subrange(j as int, pv.len() as int);
        assert(tail[0] == (patches@[j as int].0@, patches@[j as int].1@));
        let (from, to) = &patches[j];
        if str_starts_with(dir, from.as_str()) {
            let n = dir.unicode_len();
            let m = from.as_str().unicode_len();
            let rest = dir.substring_char(m, n);
            let mut out = to.clone();
            out.append(rest);
            return out;
        }
        assert(tail.drop_first() =~= pv.subrange(j + 1, pv.len() as int));
        j = j + 1;
    }
    assert(pv.subrange(j as int, pv.len() as int) =~= Seq::<(Seq<char>, Seq<char>)>::empty());
    dir.to_owned()
}

/// One file to relocate: from the download directory into the library.
#[derive(Clone, Debug)]
pub struct FileMove {
    pub from: String,
    pub to: String,
}

/// Records a finished torrent's files on its pull, and says which files are
/// to be moved: each from the patched download directory to the same name
/// under the pull's directory; none where the pull has no directory. Every
/// file is recorded, whether or not it is moved.
pub fn complete_pull(pull: &mut PullEntry, torrent: FinishedTorrent, patches: &Vec<(String, String)>) -> (moves: Vec<FileMove>)
    ensures
        final(pull).files@ == old(pull).files@ + torrent.files@,
        final(pull).result == old(pull).result,
        final(pull).torrent_id == old(pull).torrent_id,
        final(pull).torrent_hash == old(pull).torrent_hash,
        final(pull).state == old(pull).state,
        relocate_dir_of(old(pull).result) is None ==> moves.len() == 0,
        relocate_dir_of(old(pull).result) matches Some(d) ==> {
            &&& moves.len() == torrent.files.len()
            &&& forall|i: int|
                0 <= i < moves.len() ==> {
                    &&& (#[trigger] moves@[i]).from@ == path_join(
                        patched_dir(torrent.download_dir@, patches_view(*patches)),
                        torrent.files@[i]@,
                    )
                    &&& moves@[i].to@ == path_join(d, torrent.files@[i]@)
                }
        },
{
    let mut moves: Vec<FileMove> = Vec::new();
    let dir = pull.result.relocate_dir();
    let ghost start = pull.files@;
    let ghost names = torrent.files@;
    match dir {
        Some(dest) => {
            let from_dir = patch_path(torrent.download_dir.as_str(), patches);
            assert(names.len() == torrent.files.len());
            let mut files = torrent.files;
            let mut i: usize = 0;
            while files.len() > 0
                invariant
                    i + files.len() == names.len(),
                    names.len() <= usize::MAX,
                    files@ == names.subrange(i as int, names.len() as int),
                    pull.files@ == start + names.subrange(0, i as int),
                    pull.result == old(pull).result,
                    pull.torrent_id == old(pull).torrent_id,
                    pull.torrent_hash == old(pull).torrent_hash,
                    pull.state == old(pull).state,
                    relocate_dir_of(pull.result) == Some(dest@),
                    from_dir@ == patched_dir(torrent.download_dir@, patches_view(*patches)),
                    moves.len() == i,
                    forall|k: int|
                        0 <= k < i ==> {
                            &&& (#[trigger] moves@[k]).from@ == path_join(from_dir@, names[k]@)
                            &&& moves@[k].to@ == path_join(dest@, names[k]@)
                        },
                decreases files.len(),
            {
                let file = files.remove(0);
                assert(files@ =~= names.subrange(i + 1, names.len() as int));
                let to = crate::model::join_path(dest.as_str(), file.as_str());
                let from = crate::model::join_path(from_dir.as_str(), file.as_str());
                moves.push(FileMove { from, to });
                pull.files.push(file);
                assert(pull.files@ =~= start + names.subrange(0, i + 1));
                i = i + 1;
            }
            assert(names.subrange(0, i as int) =~= names);
        },
        None => {
            let mut files = torrent.files;
            pull.files.append(&mut files);
        },
    }
    moves
}

/// Whether nothing at the given paths exists.
pub fn all_absent(exists: &Vec<bool>) -> (r: bool)
    ensures
        r == forall|i: int| 0 <= i < exists.len() ==> !exists@[i],
{
    let mut i: usize = 0;
    while i < exists.len()
        invariant
            i <= exists.len(),
            forall|j: int| 0 <= j < i ==> !exists@[j],
        decreases exists.len() - i,
    {
        if exists[i] {
            return false;
        }
        i = i + 1;
    }
    true
}

/// The paths whose absence lets the sweep delete a pull: `None` for a pull
/// that is not finished or has no directory, which the sweep keeps; else the
/// directory itself where no files were recorded, or each recorded file
/// under it.
pub fn wipe_targets(pull: &PullEntry) -> (r: Option<Vec<String>>)
    ensures
        r is None <==> (pull.state != PullState::Finished || relocate_dir_of(pull.result) is None),
        r matches Some(ts) ==> relocate_dir_of(pull.result) matches Some(d) && (if pull.files.len()
            == 0 {
            ts.len() == 1 && ts@[0]@ == d
        } else {
            ts.len() == pull.files.len() && forall|i: int|
                0 <= i < ts.len() ==> (#[trigger] ts@[i])@ == path_join(d, pull.files@[i]@)
        }),
{
    if pull.state != PullState::Finished {
        return None;
    }
    let dir = match pull.result.relocate_dir() {
        Some(d) => d,
        None => {
            return None;
        },
    };
    let mut out: Vec<String> = Vec::new();
    if pull.files.len() == 0 {
        out.push(dir);
        return Some(out);
    }
    let mut i: usize = 0;
    while i < pull.files.len()
        invariant
            i <= pull.files.len(),
            out.len() == i,
            relocate_dir_of(pull.result) == Some(dir@),
            forall|k: int| 0 <= k < i ==> (#[trigger] out@[k])@ == path_join(dir@, pull.files@[k]@),
        decreases pull.files.len() - i,
    {
        out.push(crate::model::join_path(dir.as_str(), pull.files[i].as_str()));
        i = i + 1;
    }
    Some(out)
}

/// `clean` drops a pull when the sink no longer knows its torrent id, or
/// knows it under another hash (the id was reused).
pub open spec fn clean_drops_on(p: PullEntry, check: Option<Seq<char>>) -> bool {
    match check {
        None => true,
        Some(h) => h != p.torrent_hash@,
    }
}

pub open spec fn info_hash(check: Option<TorrentInfo>) -> Option<Seq<char>> {
    match check {
        None => None,
        Some(i) => Some(i.hash@),
    }
}

/// Whether `clean` deletes a pull, given what the sink answered for its id.
pub fn clean_verdict(pull: &PullEntry, check: &Option<TorrentInfo>) -> (r: bool)
    ensures
        r == clean_drops_on(*pull, info_hash(*check)),
{
    match check {
        None => true,
        Some(info) => !String::eq(&info.hash, &pull.torrent_hash),
    }
}

/// Whether `clean` deletes a pull, given the sink's hash for each torrent id
/// (`None` for an id it does not know). A pull without an id is passed over.
pub open spec fn clean_drops(p: PullEntry, sink: spec_fn(i64) -> Option<Seq<char>>) -> bool {
    match p.torrent_id {
        None => false,
        Some(id) => clean_drops_on(p, sink(id)),
    }
}

/// The store after `clean` has gone through the pulls in order.
pub open spec fn clean_store(
    m: Map<Seq<u8>, Seq<u8>>,
    ps: Seq<PullEntry>,
    sink: spec_fn(i64) -> Option<Seq<char>>,
) -> Map<Seq<u8>, Seq<u8>>
    decreases ps.len(),
{
    if ps.len() == 0 {
        m
    } else {
        let m1 = clean_store(m, ps.drop_last(), sink);
        if clean_drops(ps.last(), sink) {
            deleted_pull(m1, ps.last())
        } else {
            m1
        }
    }
}

/// The pulls that `clean` keeps, in order.
pub open spec fn clean_kept(ps: Seq<PullEntry>, sink: spec_fn(i64) -> Option<Seq<char>>) -> Seq<
    PullEntry,
>
    decreases ps.len(),
{
    if ps.len() == 0 {
        Seq::empty()
    } else {
        let r = clean_kept(ps.drop_last(), sink);
        if clean_drops(ps.last(), sink) {
            r
        } else {
            r.push(ps.last())
        }
    }
}

proof fn lemma_kept_survive(ps: Seq<PullEntry>, sink: spec_fn(i64) -> Option<Seq<char>>)
    ensures
        forall|i: int|
            0 <= i < clean_kept(ps, sink).len() ==> !clean_drops(#[trigger] clean_kept(ps, sink)[i], sink),
    decreases ps.len(),
{
    if ps.len() > 0 {
        lemma_kept_survive(ps.drop_last(), sink);
        let r = clean_kept(ps.drop_last(), sink);
        let k = clean_kept(ps, sink);
        assert forall|i: int| 0 <= i < k.len() implies !clean_drops(#[trigger] k[i], sink) by {
            if i < r.len() {
                assert(k[i] == r[i]);
            }
        }
    }
}

proof fn lemma_clean_nothing_to_drop(
    m: Map<Seq<u8>, Seq<u8>>,
    ps: Seq<PullEntry>,
    sink: spec_fn(i64) -> Option<Seq<char>>,
)
    requires
        forall|i: int| 0 <= i < ps.len() ==> !clean_drops(#[trigger] ps[i], sink),
    ensures
        clean_store(m, ps, sink) == m,
    decreases ps.len(),
{
    if ps.len() > 0 {
        assert(!clean_drops(ps[ps.len() - 1], sink));
        lemma_clean_nothing_to_drop(m, ps.drop_last(), sink);
    }
}

/// `clean` is idempotent: with the sink's answers unchanged, a second pass
/// over the pulls the first one kept deletes nothing and leaves the store
/// as the first pass left it.
pub proof fn lemma_clean_idempotent(
    m: Map<Seq<u8>, Seq<u8>>,
    ps: Seq<PullEntry>,
    sink: spec_fn(i64) -> Option<Seq<char>>,
)
    ensures
        forall|i: int|
            0 <= i < clean_kept(ps, sink).len() ==> !clean_drops(#[trigger] clean_kept(ps, sink)[i], sink),
        clean_store(clean_store(m, ps, sink), clean_kept(ps, sink), sink) == clean_store(m, ps, sink),
{
    lemma_kept_survive(ps, sink);
    lemma_clean_nothing_to_drop(clean_store(m, ps, sink), clean_kept(ps, sink), sink);
}

impl Database {
    /// Moves a pull to `Finished`: sets its state, takes out its torrent id,
    /// drops the index entry and saves it as `record`, the stored form of the
    /// finished pull. This is the one way a pull becomes finished, so a
    /// finished pull never has a torrent id.
    pub fn finish_pull(&mut self, pull: &mut PullEntry, record: &[u8]) -> (r: Result<(), StoreError>)
        ensures
            *final(pull) == (PullEntry { state: PullState::Finished, torrent_id: None, ..*old(pull) }),
            final(pull).state == PullState::Finished ==> final(pull).torrent_id is None,
            r is Ok ==> final(self)@ == crate::store::cleared_pull(old(self)@, *old(pull), record@),
            r matches Err(e) ==> e is Db,
    {
        pull.state = PullState::Finished;
        self.clear_torrent_id(pull, record)
    }

    /// Whether a candidate goes to the sink: no pull with its key is stored.
    pub fn candidate_wanted(&self, candidate: &ParsedSearchResult) -> (r: Result<bool, StoreError>)
        ensures
            r matches Ok(b) ==> b == wants_push(self@, *candidate),
            r matches Err(e) ==> e is Db,
    {
        let key = candidate.key();
        match self.exists_pull_entry(key.as_str()) {
            Ok(b) => Ok(!b),
            Err(e) => Err(e),
        }
    }

    /// One step of a search round's push phase, given the sink's answer for
    /// the candidate: a candidate whose key is stored is skipped; one the
    /// sink took is saved as a new downloading pull, `record` being the
    /// stored form of that pull; one the sink refused leaves the store alone.
    /// Returns the pull that was saved, if any.
    pub fn record_push(
        &mut self,
        candidate: ParsedSearchResult,
        answer: Option<TorrentInfo>,
        record: &[u8],
    ) -> (r: Result<Option<PullEntry>, StoreError>)
        ensures
            r is Ok ==> final(self)@ == push_step(old(self)@, candidate, answer_id(answer), record@),
            r matches Ok(Some(p)) ==> {
                &&& answer matches Some(info)
                &&& p.result == candidate
                &&& p.torrent_id == Some(info.id)
                &&& p.torrent_hash == info.hash
                &&& p.state == PullState::Downloading
                &&& p.files@.len() == 0
            },
            r matches Ok(None) ==> !(wants_push(old(self)@, candidate) && answer is Some),
            r matches Err(e) ==> e is Db,
    {
        let wanted = self.candidate_wanted(&candidate)?;
        if !wanted {
            return Ok(None);
        }
        match answer {
            None => Ok(None),
            Some(info) => {
                let ghost id = info.id;
                let pull = new_pull(candidate, info);
                proof {
                    lemma_new_pull_is_round_step(old(self)@, candidate, pull, id, record@);
                }
                self.save_pull(&pull, record)?;
                Ok(Some(pull))
            },
        }
    }

    /// One step of `clean`, given what the sink answered for the pull's
    /// torrent id: deletes the pull where the sink no longer knows the id or
    /// knows it under another hash, and otherwise leaves the store alone.
    /// Returns whether the pull was deleted.
    pub fn clean_step(&mut self, pull: PullEntry, check: &Option<TorrentInfo>) -> (r: Result<
        bool,
        StoreError,
    >)
        ensures
            r matches Ok(b) ==> b == clean_drops_on(pull, info_hash(*check)),
            r is Ok ==> final(self)@ == if clean_drops_on(pull, info_hash(*check)) {
                deleted_pull(old(self)@, pull)
            } else {
                old(self)@
            },
            r matches Err(e) ==> e is Db,
    {
        if clean_verdict(&pull, check) {
            self.delete_pull(pull)?;
            Ok(true)
        } else {
            Ok(false)
        }
    }
}

/// The torrent id the sink gave a candidate it took.
pub open spec fn answer_id(answer: Option<TorrentInfo>) -> Option<i64> {
    match answer {
        Some(info) => Some(info.id),
        None => None,
    }
}

/// `clean_step` is the step that `clean_store` takes for a pull with a
/// torrent id, when the sink's answer is the one for that id.
pub proof fn lemma_clean_step_is_model_step(
    m: Map<Seq<u8>, Seq<u8>>,
    p: PullEntry,
    sink: spec_fn(i64) -> Option<Seq<char>>,
    check: Option<TorrentInfo>,
)
    requires
        p.torrent_id matches Some(id) && sink(id) == info_hash(check),
    ensures
        clean_store(m, seq![p], sink) == if clean_drops_on(p, info_hash(check)) {
            deleted_pull(m, p)
        } else {
            m
        },
{
    assert(seq![p].drop_last() =~= Seq::<PullEntry>::empty());
    assert(clean_store(m, seq![p].drop_last(), sink) == m);
    assert(seq![p].last() == p);
}

/// `t` occurs in `s` at some position.
pub open spec fn contains_chars(s: Seq<char>, t: Seq<char>) -> bool {
    exists|i: int| 0 <= i && i + t.len() <= s.len() && #[trigger] s.subrange(i, i + t.len()) == t
}

fn str_contains(s: &str, t: &str) -> (r: bool)
    ensures
        r == contains_chars(s@, t@),
{
    let n = s.unicode_len();
    let m = t.unicode_len();
    if m > n {
        return false;
    }
    if m == 0 {
        assert(s@.subrange(0, 0 + t@.len() as int) =~= t@);
        return true;
    }
    let mut i: usize = 0;
    while i <= n - m
        invariant
            n == s@.len(),
            m == t@.len(),
            0 < m <= n,
            i <= n - m + 1,
            forall|j: int| 0 <= j < i ==> #[trigger] s@.subrange(j, j + m) != t@,
        decreases n - m + 1 - i,
    {
        let rest = s.substring_char(i, n);
        if str_starts_with(rest, t) {
            assert(rest@.subrange(0, m as int) =~= s@.subrange(i as int, i + t@.len() as int));
            return true;
        }
        assert(rest@.subrange(0, m as int) =~= s@.subrange(i as int, i + m));
        i = i + 1;
    }
    assert forall|j: int| 0 <= j && j + t@.len() <= s@.len() implies #[trigger] s@.subrange(
        j,
        j + t@.len(),
    ) != t@ by {
        assert(j < i);
    }
    false
}

/// A pull passes a filter: every condition that the filter sets holds of it.
pub open spec fn filter_keeps(f: PullEntryFilter, p: PullEntry) -> bool {
    &&& (f.profile matches Some(x) ==> p.result.profile@ == x@)
    &&& (f.title_contains matches Some(x) ==> contains_chars(p.result.parsed.title@, x@))
    &&& (f.title_is matches Some(x) ==> p.result.parsed.title@ == x@)
    &&& (f.season_is matches Some(x) ==> p.result.parsed.season == x)
    &&& (f.episode_is matches Some(x) ==> episode_eq(p.result.parsed.episode, x))
    &&& (f.state matches Some(x) ==> p.state == x)
}

impl PullEntryFilter {
    /// Whether a pull passes every condition the filter sets.
    pub fn matches(&self, pull: &PullEntry) -> (r: bool)
        ensures
            r == filter_keeps(*self, *pull),
    {
        if let Some(x) = &self.profile {
            if !String::eq(&pull.result.profile, x) {
                return false;
            }
        }
        if let Some(x) = &self.title_contains {
            if !str_contains(pull.result.parsed.title.as_str(), x.as_str()) {
                return false;
            }
        }
        if let Some(x) = &self.title_is {
            if !String::eq(&pull.result.parsed.title, x) {
                return false;
            }
        }
        if let Some(x) = self.season_is {
            if pull.result.parsed.season != x {
                return false;
            }
        }
        if let Some(x) = &self.episode_is {
            if !pull.result.parsed.episode.eq(x) {
                return false;
            }
        }
        if let Some(x) = self.state {
            if pull.state != x {
                return false;
            }
        }
        true
    }
}

/// What wakes the scheduler: one of its two timers, or a notification.
#[derive(Clone, Copy, Debug, PartialEq, Eq, Structural)]
pub enum Wakeup {
    SearchTimer,
    SearchNotified,
    ScanTimer,
    ScanNotified,
}

/// The round the scheduler runs next.
#[derive(Clone, Copy, Debug, PartialEq, Eq, Structural)]
pub enum Round {
    /// A search round: `clean`, then search every series and push new candidates.
    Search,
    /// A completion round: `clean`, then file every torrent the sink has finished.
    Scan,
}

/// The round a wakeup calls for: the search timer and notification start a
/// search round, the completion timer and notification a completion round.
pub fn round_for(w: Wakeup) -> (r: Round)
    ensures
        (w == Wakeup::SearchTimer || w == Wakeup::SearchNotified) <==> r == Round::Search,
{
    match w {
        Wakeup::SearchTimer | Wakeup::SearchNotified => Round::Search,
        Wakeup::ScanTimer | Wakeup::ScanNotified => Round::Scan,
    }
}

} // verus!
