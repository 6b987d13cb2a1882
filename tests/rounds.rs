use nyauser::status::series_status;
use nyauser::model::PullEntryFilter;
use nyauser::engine::{round_for, Round, Wakeup};
use nyauser::engine::{
    all_absent, clean_verdict, complete_pull, eligible, max_days_for, new_pull, patch_path,
    resolve_relocate, search_query, select_candidates, wipe_targets,
};
use nyauser::episode::Episode;
use nyauser::model::{
    default_relocate_season, default_source_sink, default_url, join_path, FinishedTorrent,
    ParsedSearchResult, Profile, PullEntry, PullState, SearchConfig, SearchResult, Series,
    StandardEpisode, TorrentInfo, TorrentStatus,
};
use nyauser::service::{Logger, LoggerLayer};

const SUBSPLEASE: &str = r"\[SubsPlease\] (?P<title>.*?) (?:S(?P<season>[0-9]{1,2}) )?- (?P<episode>(?:SP)?[0-9]{1,3}(?:\.\d)?)(?:v[0-9])? \(1080p\) \[(?P<checksum>[0-9a-zA-Z]{8})\]\.mkv";
const NOW: i64 = 1_700_000_000;

fn profile(relocate: Option<&str>) -> Profile {
    Profile {
        name: "sp".to_string(),
        search_prefix: Some("subsplease 1080p".to_string()),
        parse_regex: SUBSPLEASE.to_string(),
        relocate: relocate.map(|s| s.to_string()),
    }
}

fn series(relocate: Option<&str>, max_days_old: Option<u64>) -> Series {
    Series {
        name: "Foo".to_string(),
        profile: "sp".to_string(),
        max_days_old,
        relocate: relocate.map(|s| s.to_string()),
        relocate_season: true,
    }
}

fn config(relocate: Option<&str>) -> SearchConfig {
    SearchConfig {
        max_days_old: 7,
        min_seeders: 1,
        search_minutes: 30,
        completion_check_minutes: 5,
        source: "default".to_string(),
        sink: "default".to_string(),
        path_patch: vec![],
        relocate: relocate.map(|s| s.to_string()),
    }
}

fn hit(title: &str, seeders: u64, date: i64) -> SearchResult {
    SearchResult {
        title: title.to_string(),
        torrent_link: format!("http://example.invalid/{}.torrent", seeders),
        view_link: "http://example.invalid/view".to_string(),
        date,
        date_nanos: 0,
        date_offset: 0,
        seeders,
        leechers: 0,
        downloads: 0,
        size: 0,
    }
}

fn pull(relocate: Option<&str>, torrent_id: Option<i64>, hash: &str) -> PullEntry {
    PullEntry {
        result: ParsedSearchResult {
            result: hit("[SubsPlease] Foo - 03 (1080p) [ABCDEF12].mkv", 5, NOW),
            parsed: StandardEpisode {
                title: "Foo".to_string(),
                season: 1,
                episode: Episode::Standard(3),
                checksum: 0,
                ext: vec![],
            },
            profile: "sp".to_string(),
            relocate: relocate.map(|s| s.to_string()),
            relocate_season: true,
        },
        torrent_id,
        torrent_hash: hash.to_string(),
        state: PullState::Downloading,
        files: vec![],
    }
}

#[test]
fn defaults() {
    assert_eq!(default_source_sink(), "default");
    assert!(default_relocate_season());
    assert_eq!(default_url(), "https://nyaa.si/?page=rss&c=0_0&f=0&q=");
}

#[test]
fn age_limit_takes_the_larger() {
    assert_eq!(max_days_for(7, None), 7);
    assert_eq!(max_days_for(7, Some(3)), 7);
    assert_eq!(max_days_for(7, Some(30)), 30);
}

#[test]
fn query_composition() {
    assert_eq!(search_query(&profile(None), &series(None, None)), "subsplease 1080p Foo");
    let mut p = profile(None);
    p.search_prefix = None;
    assert_eq!(search_query(&p, &series(None, None)), "Foo");
}

#[test]
fn relocate_precedence() {
    let g = Some("/global".to_string());
    assert_eq!(resolve_relocate(&series(Some("/own"), None), &profile(Some("/p")), &g), Some("/own".to_string()));
    assert_eq!(resolve_relocate(&series(None, None), &profile(Some("/p/")), &g), Some("/p/Foo".to_string()));
    assert_eq!(resolve_relocate(&series(None, None), &profile(None), &g), Some("/global/Foo".to_string()));
    assert_eq!(resolve_relocate(&series(None, None), &profile(None), &None), None);
}

#[test]
fn eligibility_by_age_and_seeders() {
    assert!(eligible(&hit("x", 1, NOW - 7 * 86400), NOW, 0, 7, 1));
    assert!(!eligible(&hit("x", 1, NOW - 7 * 86400 - 1), NOW, 0, 7, 1));
    assert!(!eligible(&hit("x", 1, NOW - 7 * 86400), NOW, 1, 7, 1));
    let mut late = hit("x", 1, NOW - 7 * 86400);
    late.date_nanos = 5;
    assert!(eligible(&late, NOW, 5, 7, 1));
    assert!(!eligible(&hit("x", 0, NOW), NOW, 0, 7, 1));
    assert!(eligible(&hit("x", 0, i64::MIN), i64::MAX, 999_999_999, u64::MAX, 0));
}

#[test]
fn fresh_pull_candidate() {
    let items = vec![
        hit("[SubsPlease] Foo - 03 (1080p) [ABCDEF12].mkv", 5, NOW),
        hit("[SubsPlease] Foo - 02 (1080p) [ABCDEF12].mkv", 0, NOW),
        hit("[SubsPlease] Foo - 01 (1080p) [ABCDEF12].mkv", 5, NOW - 30 * 86400),
        hit("not a release", 5, NOW),
        hit("[SubsPlease] Foo - 04 (1080p) [ABCDEF12].mkv", 9, NOW),
    ];
    let c = select_candidates(&config(Some("/media")), &series(None, None), &profile(None), items, NOW, 0);
    assert_eq!(c.len(), 2);
    assert_eq!(c[0].key(), "Foo_S01E3");
    assert_eq!(c[1].key(), "Foo_S01E4");
    assert_eq!(c[0].relocate, Some("/media/Foo".to_string()));
    assert_eq!(c[0].profile, "sp");
    assert!(c[0].relocate_season);
    assert_eq!(c[1].result.seeders, 9);
}

#[test]
fn new_pull_is_downloading() {
    let c = pull(None, None, "").result;
    let p = new_pull(c, TorrentInfo { id: 7, hash: "H1".to_string(), status: TorrentStatus::InProgress });
    assert_eq!(p.torrent_id, Some(7));
    assert_eq!(p.torrent_hash, "H1");
    assert_eq!(p.state, PullState::Downloading);
    assert!(p.files.is_empty());
}

#[test]
fn path_patch_first_match_wins() {
    let patches = vec![
        ("/containerpath".to_string(), "/hostpath".to_string()),
        ("/container".to_string(), "/other".to_string()),
    ];
    assert_eq!(patch_path("/containerpath/abc", &patches), "/hostpath/abc");
    assert_eq!(patch_path("/container/abc", &patches), "/other/abc");
    assert_eq!(patch_path("/downloads", &patches), "/downloads");
    assert_eq!(patch_path("/downloads", &vec![]), "/downloads");
}

#[test]
fn path_join_rules() {
    assert_eq!(join_path("/a", "b"), "/a/b");
    assert_eq!(join_path("/a/", "b"), "/a/b");
    assert_eq!(join_path("", "b"), "b");
    assert_eq!(join_path("/a", "/b"), "/b");
}

#[test]
fn completion_with_relocate() {
    let mut p = pull(Some("/media"), Some(7), "H1");
    let t = FinishedTorrent { id: 7, download_dir: "/downloads".to_string(), files: vec!["foo_e03.mkv".to_string()] };
    let moves = complete_pull(&mut p, t, &vec![]);
    assert_eq!(moves.len(), 1);
    assert_eq!(moves[0].from, "/downloads/foo_e03.mkv");
    assert_eq!(moves[0].to, "/media/Season 1/foo_e03.mkv");
    assert_eq!(p.files, vec!["foo_e03.mkv".to_string()]);
    assert_eq!(p.torrent_id, Some(7));
}

#[test]
fn completion_with_path_patch() {
    let mut p = pull(Some("/media"), Some(7), "H1");
    let t = FinishedTorrent { id: 7, download_dir: "/containerpath/abc".to_string(), files: vec!["foo_e03.mkv".to_string()] };
    let moves = complete_pull(&mut p, t, &vec![("/containerpath".to_string(), "/hostpath".to_string())]);
    assert_eq!(moves[0].from, "/hostpath/abc/foo_e03.mkv");
}

#[test]
fn completion_without_relocate_records_files() {
    let mut p = pull(None, Some(7), "H1");
    let t = FinishedTorrent { id: 7, download_dir: "/d".to_string(), files: vec!["a".to_string(), "b".to_string()] };
    let moves = complete_pull(&mut p, t, &vec![]);
    assert!(moves.is_empty());
    assert_eq!(p.files, vec!["a".to_string(), "b".to_string()]);
}

#[test]
fn clean_verdicts() {
    let p = pull(None, Some(7), "H1");
    assert!(clean_verdict(&p, &None));
    let same = Some(TorrentInfo { id: 7, hash: "H1".to_string(), status: TorrentStatus::Finished });
    assert!(!clean_verdict(&p, &same));
    let drift = Some(TorrentInfo { id: 7, hash: "H2".to_string(), status: TorrentStatus::InProgress });
    assert!(clean_verdict(&p, &drift));
}

#[test]
fn wipe_targets_of_finished_pulls() {
    let mut p = pull(Some("/media"), None, "H1");
    assert_eq!(wipe_targets(&p), None);
    p.state = PullState::Finished;
    assert_eq!(wipe_targets(&p), Some(vec!["/media/Season 1".to_string()]));
    p.files = vec!["a.mkv".to_string(), "b.mkv".to_string()];
    assert_eq!(
        wipe_targets(&p),
        Some(vec!["/media/Season 1/a.mkv".to_string(), "/media/Season 1/b.mkv".to_string()])
    );
    assert!(all_absent(&vec![false, false]));
    assert!(!all_absent(&vec![false, true]));
    let q = pull(None, None, "H1");
    let mut q = q;
    q.state = PullState::Finished;
    assert_eq!(wipe_targets(&q), None);
}

#[test]
fn logger_wraps_service() {
    let l = Logger::new(5u32);
    assert_eq!(l.inner, 5);
    assert_eq!(LoggerLayer.layer("svc").inner, "svc");
}

fn pull_of(season: u32, episode: Episode, state: PullState, hash: &str) -> PullEntry {
    let mut p = pull(None, None, hash);
    p.result.parsed.season = season;
    p.result.parsed.episode = episode;
    p.state = state;
    p
}

#[test]
fn series_status_buckets_in_order() {
    let pulls = vec![
        pull_of(2, Episode::Standard(1), PullState::Downloading, "a"),
        pull_of(1, Episode::Special("OVA".to_string()), PullState::Finished, "b"),
        pull_of(1, Episode::Standard(3), PullState::Finished, "c"),
        pull_of(1, Episode::Standard(2), PullState::Downloading, "d"),
        pull_of(1, Episode::Standard(3), PullState::Downloading, "e"),
    ];
    let st = series_status(series(None, None), pulls);
    assert_eq!(st.series.name, "Foo");
    let seasons: Vec<u32> = st.seasons.iter().map(|s| s.0).collect();
    assert_eq!(seasons, vec![1, 2]);
    let eps: Vec<Episode> = st.seasons[0].1.episodes.iter().map(|e| e.0.clone()).collect();
    assert_eq!(
        eps,
        vec![Episode::Standard(2), Episode::Standard(3), Episode::Special("OVA".to_string())]
    );
    let third = &st.seasons[0].1.episodes[1].1;
    assert_eq!(third.state, PullState::Downloading);
    assert_eq!(st.seasons[1].1.episodes.len(), 1);
}

#[test]
fn series_status_of_no_pulls_is_empty() {
    let st = series_status(series(None, None), vec![]);
    assert!(st.seasons.is_empty());
}

#[test]
fn pull_filter_conditions() {
    let p = pull(None, Some(7), "H1");
    let all = PullEntryFilter { profile: None, title_contains: None, title_is: None, season_is: None, episode_is: None, state: None };
    assert!(all.matches(&p));
    let mut f = all.clone();
    f.title_contains = Some("oo".to_string());
    assert!(f.matches(&p));
    f.title_contains = Some("Bar".to_string());
    assert!(!f.matches(&p));
    let mut f = all.clone();
    f.profile = Some("other".to_string());
    assert!(!f.matches(&p));
    let mut f = all.clone();
    f.season_is = Some(1);
    f.episode_is = Some(Episode::Standard(3));
    f.title_is = Some("Foo".to_string());
    f.state = Some(PullState::Downloading);
    assert!(f.matches(&p));
    f.state = Some(PullState::Finished);
    assert!(!f.matches(&p));
    let mut f = all;
    f.title_contains = Some(String::new());
    assert!(f.matches(&p));
}

#[test]
fn wakeups_choose_rounds() {
    assert_eq!(round_for(Wakeup::SearchTimer), Round::Search);
    assert_eq!(round_for(Wakeup::SearchNotified), Round::Search);
    assert_eq!(round_for(Wakeup::ScanTimer), Round::Scan);
    assert_eq!(round_for(Wakeup::ScanNotified), Round::Scan);
}
