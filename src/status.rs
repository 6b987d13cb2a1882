//! The status of a series: its pulls bucketed by season and episode.
use vstd::prelude::*;
use crate::episode::{Episode, EpisodeView, episode_eq, episode_lt, lemma_episode_order};
use crate::model::{ParsedSearchResult, PullEntry, PullState, Series};

verus! {

/// Where one episode stands, and the release it comes from.
#[derive(Clone, Debug)]
pub struct EpisodeStatus {
    pub state: PullState,
    pub source: ParsedSearchResult,
}

/// The episodes of one season, ordered by episode, each once.
#[derive(Clone, Debug)]
pub struct SeasonStatus {
    pub episodes: Vec<(Episode, EpisodeStatus)>,
}

/// A series with its seasons, ordered by season number, each once.
#[derive(Clone, Debug)]
pub struct SeriesStatus {
    pub series: Series,
    pub seasons: Vec<(u32, SeasonStatus)>,
}

pub type Seasons = Seq<(u32, SeasonStatus)>;

pub type Episodes = Seq<(Episode, EpisodeStatus)>;

pub open spec fn seasons_sorted(v: Seasons) -> bool {
    forall|i: int, j: int| 0 <= i < j < v.len() ==> #[trigger] v[i].0 < #[trigger] v[j].0
}

pub open spec fn episodes_sorted(v: Episodes) -> bool {
    forall|i: int, j: int| 0 <= i < j < v.len() ==> episode_lt(#[trigger] v[i].0, #[trigger] v[j].0)
}

/// Seasons in order, each with its episodes in order, and no season empty.
pub open spec fn all_sorted(v: Seasons) -> bool {
    &&& seasons_sorted(v)
    &&& forall|i: int| 0 <= i < v.len() ==> episodes_sorted(#[trigger] v[i].1.episodes@)
    &&& forall|i: int| 0 <= i < v.len() ==> (#[trigger] v[i]).1.episodes@.len() > 0
}

/// The status of an episode in a season's list, if it is there.
pub open spec fn find_episode(v: Episodes, e: EpisodeView) -> Option<EpisodeStatus>
    decreases v.len(),
{
    if v.len() == 0 {
        None
    } else if v[0].0@ == e {
        Some(v[0].1)
    } else {
        find_episode(v.drop_first(), e)
    }
}

/// The episode list of a season, if it is there.
pub open spec fn find_season(v: Seasons, s: u32) -> Option<Episodes>
    decreases v.len(),
{
    if v.len() == 0 {
        None
    } else if v[0].0 == s {
        Some(v[0].1.episodes@)
    } else {
        find_season(v.drop_first(), s)
    }
}

/// The status the buckets give an episode of a season.
pub open spec fn status_at(v: Seasons, s: u32, e: EpisodeView) -> Option<EpisodeStatus> {
    match find_season(v, s) {
        None => None,
        Some(eps) => find_episode(eps, e),
    }
}

/// The status that the last of the pulls in a slot gives it.
pub open spec fn last_status(ps: Seq<PullEntry>, s: u32, e: EpisodeView) -> Option<EpisodeStatus>
    decreases ps.len(),
{
    if ps.len() == 0 {
        None
    } else if ps.last().result.parsed.season == s && ps.last().result.parsed.episode@ == e {
        Some(EpisodeStatus { state: ps.last().state, source: ps.last().result })
    } else {
        last_status(ps.drop_last(), s, e)
    }
}

proof fn lemma_lt_by_view(a: Episode, a2: Episode, b: Episode)
    requires
        a@ == a2@,
    ensures
        episode_lt(a, b) == episode_lt(a2, b),
        episode_lt(b, a) == episode_lt(b, a2),
{
}

proof fn lemma_lt_views_differ(a: Episode, b: Episode)
    requires
        episode_lt(a, b),
    ensures
        a@ != b@,
{
    lemma_episode_order(a, b, a);
    if a@ == b@ {
        lemma_lt_by_view(a, b, a);
    }
}

proof fn lemma_find_episode_at(v: Episodes, i: int)
    requires
        episodes_sorted(v),
        0 <= i < v.len(),
    ensures
        find_episode(v, v[i].0@) == Some(v[i].1),
    decreases i,
{
    if i > 0 {
        lemma_lt_views_differ(v[0].0, v[i].0);
        assert(v.drop_first()[i - 1] == v[i]);
        lemma_find_episode_at(v.drop_first(), i - 1);
    }
}

proof fn lemma_find_episode_none(v: Episodes, e: EpisodeView)
    requires
        forall|i: int| 0 <= i < v.len() ==> (#[trigger] v[i]).0@ != e,
    ensures
        find_episode(v, e) is None,
    decreases v.len(),
{
    if v.len() > 0 {
        assert forall|i: int| 0 <= i < v.drop_first().len() implies (#[trigger] v.drop_first()[i]).0@
            != e by {
            assert(v.drop_first()[i] == v[i + 1]);
        }
        lemma_find_episode_none(v.drop_first(), e);
    }
}

proof fn lemma_find_season_at(v: Seasons, i: int)
    requires
        seasons_sorted(v),
        0 <= i < v.len(),
    ensures
        find_season(v, v[i].0) == Some(v[i].1.episodes@),
    decreases i,
{
    if i > 0 {
        assert(v.drop_first()[i - 1] == v[i]);
        lemma_find_season_at(v.drop_first(), i - 1);
    }
}

proof fn lemma_find_season_none(v: Seasons, s: u32)
    requires
        forall|i: int| 0 <= i < v.len() ==> (#[trigger] v[i]).0 != s,
    ensures
        find_season(v, s) is None,
    decreases v.len(),
{
    if v.len() > 0 {
        assert forall|i: int| 0 <= i < v.drop_first().len() implies (#[trigger] v.drop_first()[i]).0
            != s by {
            assert(v.drop_first()[i] == v[i + 1]);
        }
        lemma_find_season_none(v.drop_first(), s);
    }
}

/// What a sorted list gives each key, by index.
proof fn lemma_find_episode_iff(v: Episodes, e: EpisodeView)
    requires
        episodes_sorted(v),
    ensures
        (exists|i: int| 0 <= i < v.len() && (#[trigger] v[i]).0@ == e) || find_episode(v, e) is None,
{
    if !(exists|i: int| 0 <= i < v.len() && (#[trigger] v[i]).0@ == e) {
        lemma_find_episode_none(v, e);
    }
}

impl Episode {
    /// A copy of the episode.
    pub fn duplicate(&self) -> (r: Episode)
        ensures
            r@ == self@,
    {
        match self {
            Episode::Standard(n) => Episode::Standard(*n),
            Episode::Special(s) => Episode::Special(s.clone()),
        }
    }
}

/// Sets the status of an episode in a sorted list, keeping it sorted.
fn put_episode(v: &mut Vec<(Episode, EpisodeStatus)>, e: Episode, st: EpisodeStatus)
    requires
        episodes_sorted(old(v)@),
    ensures
        episodes_sorted(final(v)@),
        final(v)@.len() > 0,
        forall|x: EpisodeView|
            #[trigger] find_episode(final(v)@, x) == if x == e@ {
                Some(st)
            } else {
                find_episode(old(v)@, x)
            },
{
    let ghost old_v = v@;
    let mut i: usize = 0;
    while i < v.len() && matches!(v[i].0.compare(&e), core::cmp::Ordering::Less)
        invariant
            v@ == old_v,
            i <= v.len(),
            forall|j: int| 0 <= j < i ==> episode_lt(#[trigger] v@[j].0, e),
        decreases v.len() - i,
    {
        i = i + 1;
    }
    if i < v.len() && matches!(v[i].0.compare(&e), core::cmp::Ordering::Equal) {
        let ghost key = v@[i as int].0;
        let _ = v.remove(i);
        v.insert(i, (e, st));
        assert(v@ =~= old_v.update(i as int, (e, st)));
        assert(episode_eq(key, e));
        assert(key@ == e@);
        assert forall|a: int, b: int| 0 <= a < b < v@.len() implies episode_lt(
            #[trigger] v@[a].0,
            #[trigger] v@[b].0,
        ) by {
            assert(episode_lt(old_v[a].0, old_v[b].0));
            if a == i {
                lemma_lt_by_view(old_v[a].0, e, old_v[b].0);
            }
            if b == i {
                lemma_lt_by_view(old_v[b].0, e, old_v[a].0);
            }
        }
        assert forall|x: EpisodeView| #[trigger]
            find_episode(v@, x) == if x == e@ {
                Some(st)
            } else {
                find_episode(old_v, x)
            } by {
            if x == e@ {
                lemma_find_episode_at(v@, i as int);
            } else {
                lemma_find_episode_iff(old_v, x);
                if exists|j: int| 0 <= j < old_v.len() && (#[trigger] old_v[j]).0@ == x {
                    let j = choose|j: int| 0 <= j < old_v.len() && (#[trigger] old_v[j]).0@ == x;
                    lemma_find_episode_at(old_v, j);
                    assert(j != i);
                    assert(v@[j] == old_v[j]);
                    lemma_find_episode_at(v@, j);
                } else {
                    assert forall|j: int| 0 <= j < v@.len() implies (#[trigger] v@[j]).0@ != x by {
                        if j != i {
                            assert(v@[j] == old_v[j]);
                        }
                    }
                    lemma_find_episode_none(v@, x);
                }
            }
        }
    } else {
        proof {
            if i < v.len() {
                lemma_episode_order(v@[i as int].0, e, e);
                assert(episode_lt(e, v@[i as int].0));
            }
        }
        v.insert(i, (e, st));
        assert(forall|j: int| i < j < v@.len() ==> v@[j] == old_v[j - 1]);
        assert(forall|j: int| 0 <= j < i ==> v@[j] == old_v[j]);
        assert forall|a: int, b: int| 0 <= a < b < v@.len() implies episode_lt(
            #[trigger] v@[a].0,
            #[trigger] v@[b].0,
        ) by {
            if a < i && b < i {
                assert(episode_lt(old_v[a].0, old_v[b].0));
            } else if a < i && b == i {
            } else if a < i {
                assert(episode_lt(old_v[a].0, old_v[b - 1].0));
            } else if a == i {
                if b - 1 > i {
                    assert(episode_lt(old_v[i as int].0, old_v[b - 1].0));
                    lemma_episode_order(e, old_v[i as int].0, old_v[b - 1].0);
                }
            } else {
                assert(episode_lt(old_v[a - 1].0, old_v[b - 1].0));
            }
        }
        assert forall|x: EpisodeView| #[trigger]
            find_episode(v@, x) == if x == e@ {
                Some(st)
            } else {
                find_episode(old_v, x)
            } by {
            if x == e@ {
                lemma_find_episode_at(v@, i as int);
            } else {
                lemma_find_episode_iff(old_v, x);
                if exists|j: int| 0 <= j < old_v.len() && (#[trigger] old_v[j]).0@ == x {
                    let j = choose|j: int| 0 <= j < old_v.len() && (#[trigger] old_v[j]).0@ == x;
                    lemma_find_episode_at(old_v, j);
                    if j < i {
                        assert(v@[j] == old_v[j]);
                        lemma_find_episode_at(v@, j);
                    } else {
                        assert(v@[j + 1] == old_v[j]);
                        lemma_find_episode_at(v@, j + 1);
                    }
                } else {
                    assert forall|j: int| 0 <= j < v@.len() implies (#[trigger] v@[j]).0@ != x by {
                        if j < i {
                            assert(v@[j] == old_v[j]);
                        } else if j > i {
                            assert(v@[j] == old_v[j - 1]);
                        }
                    }
                    lemma_find_episode_none(v@, x);
                }
            }
        }
    }
}

/// Sets the status of an episode of a season, keeping every list sorted.
fn put_status(v: &mut Vec<(u32, SeasonStatus)>, s: u32, e: Episode, st: EpisodeStatus)
    requires
        all_sorted(old(v)@),
    ensures
        all_sorted(final(v)@),
        forall|x: u32, y: EpisodeView|
            #[trigger] status_at(final(v)@, x, y) == if x == s && y == e@ {
                Some(st)
            } else {
                status_at(old(v)@, x, y)
            },
{
    let ghost old_v = v@;
    let mut i: usize = 0;
    while i < v.len() && v[i].0 < s
        invariant
            v@ == old_v,
            i <= v.len(),
            forall|j: int| 0 <= j < i ==> (#[trigger] v@[j]).0 < s,
        decreases v.len() - i,
    {
        i = i + 1;
    }
    let ghost ev = e@;
    if i < v.len() && v[i].0 == s {
        let mut season = v.remove(i);
        let ghost old_eps = season.1.episodes@;
        assert(old_eps == old_v[i as int].1.episodes@);
        put_episode(&mut season.1.episodes, e, st);
        let ghost new_eps = season.1.episodes@;
        v.insert(i, season);
        assert(v@ =~= old_v.update(i as int, v@[i as int]));
        assert forall|j: int| 0 <= j < v@.len() implies episodes_sorted(#[trigger] v@[j].1.episodes@) by {
            if j != i {
                assert(v@[j] == old_v[j]);
            }
        }
        assert forall|j: int| 0 <= j < v@.len() implies (#[trigger] v@[j]).1.episodes@.len() > 0 by {
            if j != i {
                assert(v@[j] == old_v[j]);
            }
        }
        assert forall|a: int, b: int| 0 <= a < b < v@.len() implies #[trigger] v@[a].0
            < #[trigger] v@[b].0 by {
            assert(old_v[a].0 < old_v[b].0);
        }
        assert forall|x: u32, y: EpisodeView| #[trigger]
            status_at(v@, x, y) == if x == s && y == ev {
                Some(st)
            } else {
                status_at(old_v, x, y)
            } by {
            if x == s {
                lemma_find_season_at(v@, i as int);
                lemma_find_season_at(old_v, i as int);
                assert(find_episode(new_eps, y) == if y == ev {
                    Some(st)
                } else {
                    find_episode(old_eps, y)
                });
            } else if exists|j: int| 0 <= j < old_v.len() && (#[trigger] old_v[j]).0 == x {
                let j = choose|j: int| 0 <= j < old_v.len() && (#[trigger] old_v[j]).0 == x;
                lemma_find_season_at(old_v, j);
                assert(v@[j] == old_v[j]);
                lemma_find_season_at(v@, j);
            } else {
                lemma_find_season_none(old_v, x);
                assert forall|j: int| 0 <= j < v@.len() implies (#[trigger] v@[j]).0 != x by {
                    if j != i {
                        assert(v@[j] == old_v[j]);
                    }
                }
                lemma_find_season_none(v@, x);
            }
        }
    } else {
        let mut eps: Vec<(Episode, EpisodeStatus)> = Vec::new();
        eps.push((e, st));
        let ghost new_eps = eps@;
        assert(find_episode(new_eps, ev) == Some(st));
        assert forall|y: EpisodeView| y != ev implies find_episode(new_eps, y) is None by {
            assert(new_eps[0].0@ == ev);
            assert(new_eps.drop_first().len() == 0);
            assert(find_episode(new_eps.drop_first(), y) is None);
        }
        v.insert(i, (s, SeasonStatus { episodes: eps }));
        assert(forall|j: int| i < j < v@.len() ==> v@[j] == old_v[j - 1]);
        assert(forall|j: int| 0 <= j < i ==> v@[j] == old_v[j]);
        assert forall|j: int| 0 <= j < v@.len() implies episodes_sorted(#[trigger] v@[j].1.episodes@) by {
            if j < i {
                assert(v@[j] == old_v[j]);
            } else if j > i {
                assert(v@[j] == old_v[j - 1]);
            }
        }
        assert forall|j: int| 0 <= j < v@.len() implies (#[trigger] v@[j]).1.episodes@.len() > 0 by {
            if j < i {
                assert(v@[j] == old_v[j]);
            } else if j > i {
                assert(v@[j] == old_v[j - 1]);
            }
        }
        assert forall|a: int, b: int| 0 <= a < b < v@.len() implies #[trigger] v@[a].0
            < #[trigger] v@[b].0 by {
            if a < i && b < i {
                assert(old_v[a].0 < old_v[b].0);
            } else if a < i && b > i {
                assert(old_v[a].0 < old_v[b - 1].0);
            } else if a == i && b > i {
                if b - 1 > i {
                    assert(old_v[i as int].0 < old_v[b - 1].0);
                }
            } else if a > i {
                assert(old_v[a - 1].0 < old_v[b - 1].0);
            }
        }
        assert forall|x: u32, y: EpisodeView| #[trigger]
            status_at(v@, x, y) == if x == s && y == ev {
                Some(st)
            } else {
                status_at(old_v, x, y)
            } by {
            if x == s {
                lemma_find_season_at(v@, i as int);
                assert forall|j: int| 0 <= j < old_v.len() implies (#[trigger] old_v[j]).0 != x by {
                    if j >= i {
                        if j > i {
                            assert(old_v[i as int].0 < old_v[j].0);
                        }
                    }
                }
                lemma_find_season_none(old_v, x);
            } else if exists|j: int| 0 <= j < old_v.len() && (#[trigger] old_v[j]).0 == x {
                let j = choose|j: int| 0 <= j < old_v.len() && (#[trigger] old_v[j]).0 == x;
                lemma_find_season_at(old_v, j);
                if j < i {
                    lemma_find_season_at(v@, j);
                } else {
                    lemma_find_season_at(v@, j + 1);
                }
            } else {
                lemma_find_season_none(old_v, x);
                assert forall|j: int| 0 <= j < v@.len() implies (#[trigger] v@[j]).0 != x by {
                    if j < i {
                        assert(v@[j] == old_v[j]);
                    } else if j > i {
                        assert(v@[j] == old_v[j - 1]);
                    }
                }
                lemma_find_season_none(v@, x);
            }
        }
    }
}

/// Buckets a series' pulls by season and then by episode, both in order;
/// where two pulls share a slot, the later one stands.
pub fn series_status(series: Series, pulls: Vec<PullEntry>) -> (r: SeriesStatus)
    ensures
        r.series == series,
        all_sorted(r.seasons@),
        forall|i: int| 0 <= i < r.seasons.len() ==> (#[trigger] r.seasons@[i]).1.episodes.len() > 0,
        forall|s: u32, e: EpisodeView| #[trigger]
            status_at(r.seasons@, s, e) == last_status(pulls@, s, e),
{
    let ghost all = pulls@;
    let n = pulls.len();
    let mut rest = pulls;
    let mut seasons: Vec<(u32, SeasonStatus)> = Vec::new();
    let mut i: usize = 0;
    assert forall|s: u32, e: EpisodeView| #[trigger]
        status_at(seasons@, s, e) == last_status(all.take(0), s, e) by {
        assert(all.take(0).len() == 0);
    }
    while rest.len() > 0
        invariant
            i + rest.len() == n,
            n == all.len(),
            rest@ == all.subrange(i as int, n as int),
            all_sorted(seasons@),
            forall|s: u32, e: EpisodeView| #[trigger]
                status_at(seasons@, s, e) == last_status(all.take(i as int), s, e),
        decreases rest.len(),
    {
        let pull = rest.remove(0);
        assert(rest@ =~= all.subrange(i + 1, n as int));
        assert(pull == all[i as int]);
        let ghost prev = seasons@;
        let season = pull.result.parsed.season;
        let key = pull.result.parsed.episode.duplicate();
        let st = EpisodeStatus { state: pull.state, source: pull.result };
        put_status(&mut seasons, season, key, st);
        i = i + 1;
        assert(all.take(i as int).drop_last() =~= all.take(i - 1));
        assert(all.take(i as int).last() == pull);
    }
    assert(all.take(i as int) =~= all);
    SeriesStatus { series, seasons }
}

} // verus!
