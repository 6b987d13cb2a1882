use nyauser::episode::Episode;
use nyauser::model::{ParsedSearchResult, Profile, PullState, SearchResult, StandardEpisode};
use nyauser::text::{decimal, parse_u32};

const SUBSPLEASE: &str = r"\[SubsPlease\] (?P<title>.*?) (?:S(?P<season>[0-9]{1,2}) )?- (?P<episode>(?:SP)?[0-9]{1,3}(?:\.\d)?)(?:v[0-9])? \(1080p\) \[(?P<checksum>[0-9a-zA-Z]{8})\]\.mkv";

fn subsplease() -> Profile {
    Profile {
        name: "sp".to_string(),
        search_prefix: Some("subsplease 1080p".to_string()),
        parse_regex: SUBSPLEASE.to_string(),
        relocate: None,
    }
}

fn hit(title: &str) -> SearchResult {
    SearchResult {
        title: title.to_string(),
        torrent_link: "http://example.invalid/t.torrent".to_string(),
        view_link: "http://example.invalid/view".to_string(),
        date: 1_700_000_000,
        date_nanos: 0,
        date_offset: 0,
        seeders: 5,
        leechers: 1,
        downloads: 10,
        size: 1024,
    }
}

fn parsed(title: &str, season: u32, episode: Episode) -> ParsedSearchResult {
    ParsedSearchResult {
        result: hit("x"),
        parsed: StandardEpisode {
            title: title.to_string(),
            season,
            episode,
            checksum: 0,
            ext: vec![],
        },
        profile: "sp".to_string(),
        relocate: None,
        relocate_season: true,
    }
}

#[test]
fn test_episode_order() {
    assert!(Episode::Standard(5) < Episode::Standard(10));
    assert!(Episode::Standard(15) < Episode::Special("test".to_string()));
    assert!(Episode::Special("2".to_string()) < Episode::Special("20".to_string()));
}

#[test]
fn pull_entry_test_episode_order() {
    assert!(Episode::Standard(5) < Episode::Standard(10));
    assert!(Episode::Standard(15) < Episode::Special("test".to_string()));
    assert!(Episode::Special("2".to_string()) < Episode::Special("20".to_string()));
}

#[test]
fn episode_order_is_total() {
    assert!(!(Episode::Standard(3) < Episode::Standard(3)));
    assert!(Episode::Special("a".to_string()) > Episode::Standard(u32::MAX));
    assert!(Episode::Special("ab".to_string()) < Episode::Special("b".to_string()));
    assert_eq!(Episode::Special("x".to_string()), Episode::Special("x".to_string()));
    assert_ne!(Episode::Standard(1), Episode::Special("1".to_string()));
}

#[test]
fn episode_parse_and_display() {
    assert_eq!(Episode::parse("12"), Episode::Standard(12));
    assert_eq!(Episode::parse("+7"), Episode::Standard(7));
    assert_eq!(Episode::parse("007"), Episode::Standard(7));
    assert_eq!(Episode::parse("12.5"), Episode::Special("12.5".to_string()));
    assert_eq!(Episode::parse("SP12"), Episode::Special("SP12".to_string()));
    assert_eq!(Episode::parse("4294967296"), Episode::Special("4294967296".to_string()));
    assert_eq!(Episode::parse("4294967295"), Episode::Standard(4294967295));
    assert_eq!(Episode::parse(""), Episode::Special(String::new()));
    assert_eq!(Episode::Standard(3).to_string(), "3");
    assert_eq!(Episode::Special("OVA".to_string()).to_string(), "OVA");
    assert_eq!(Episode::default(), Episode::Standard(0));
    let e: Episode = "42".parse().unwrap();
    assert_eq!(e, Episode::Standard(42));
}

#[test]
fn numerals() {
    assert_eq!(decimal(0), "0");
    assert_eq!(decimal(1234567890123), "1234567890123");
    assert_eq!(parse_u32("+"), None);
    assert_eq!(parse_u32("-1"), None);
    assert_eq!(parse_u32("99999999999"), None);
    assert_eq!(parse_u32("0042"), Some(42));
}

#[test]
fn pull_key_format() {
    assert_eq!(parsed("Foo", 1, Episode::Standard(3)).key(), "Foo_S01E3");
    assert_eq!(parsed("Foo", 12, Episode::Standard(113)).key(), "Foo_S12E113");
    assert_eq!(parsed("Bar Baz", 2, Episode::Special("SP12".to_string())).key(), "Bar Baz_S02ESP12");
}

#[test]
fn relocate_dir_joins_season() {
    let mut r = parsed("Foo", 1, Episode::Standard(3));
    assert_eq!(r.relocate_dir(), None);
    r.relocate = Some("/media".to_string());
    assert_eq!(r.relocate_dir(), Some("/media/Season 1".to_string()));
    r.relocate = Some("/media/".to_string());
    assert_eq!(r.relocate_dir(), Some("/media/Season 1".to_string()));
    r.relocate_season = false;
    assert_eq!(r.relocate_dir(), Some("/media/".to_string()));
}

#[test]
fn pull_state_names() {
    assert_eq!(PullState::Downloading.to_string(), "downloading");
    assert_eq!(PullState::Finished.to_string(), "finished");
    assert_eq!(PullState::parse("finished"), Some(PullState::Finished));
    assert_eq!(PullState::parse("downloading"), Some(PullState::Downloading));
    assert_eq!(PullState::parse("Finished"), None);
}

#[test]
fn parse_subsplease_title() {
    let p = subsplease();
    let e = p.parse_name("[SubsPlease] Foo - 03 (1080p) [ABCDEF12].mkv").unwrap();
    assert_eq!(e.title, "Foo");
    assert_eq!(e.season, 1);
    assert_eq!(e.episode, Episode::Standard(3));
    assert_eq!(e.checksum, 0x12EFCDAB);
    assert!(e.ext.is_empty());
}

#[test]
fn parse_with_season_and_special() {
    let p = subsplease();
    let e = p.parse_name("[SubsPlease] Some Show S2 - SP12 (1080p) [00000001].mkv").unwrap();
    assert_eq!(e.title, "Some Show");
    assert_eq!(e.season, 2);
    assert_eq!(e.episode, Episode::Special("SP12".to_string()));
    assert_eq!(e.checksum, 0x01000000);
}

#[test]
fn parse_rejects_mismatch_and_bad_checksum() {
    let p = subsplease();
    assert!(p.parse_name("[Other] Foo - 03 (1080p) [ABCDEF12].mkv").is_none());
    assert!(p.parse_name("[SubsPlease] Foo - 03 (1080p) [ZZZZZZZZ].mkv").is_none());
}

#[test]
fn parse_keeps_extra_groups() {
    let p = Profile {
        name: "x".to_string(),
        search_prefix: None,
        parse_regex: r"^(?P<title>\w+) (?P<group>\w+) (?P<season>\d+)x(?P<episode>\d+)$".to_string(),
        relocate: None,
    };
    let e = p.parse_name("Show grp 3x07").unwrap();
    assert_eq!(e.title, "Show");
    assert_eq!(e.season, 3);
    assert_eq!(e.episode, Episode::Standard(7));
    assert_eq!(e.ext, vec![("group".to_string(), "grp".to_string())]);
    let big = p.parse_name("Show grp 99999999999x07");
    assert!(big.is_none());
}

#[test]
fn from_captures_reads_groups_in_order() {
    let groups = vec![
        None,
        Some(("title".to_string(), Some("A".to_string()))),
        Some(("season".to_string(), None)),
        Some(("episode".to_string(), Some("OVA".to_string()))),
        Some(("checksum".to_string(), Some("01020304".to_string()))),
    ];
    let e = StandardEpisode::from_captures(&groups).unwrap();
    assert_eq!(e.title, "A");
    assert_eq!(e.season, 1);
    assert_eq!(e.episode, Episode::Special("OVA".to_string()));
    assert_eq!(e.checksum, 0x04030201);
    let bad = vec![Some(("checksum".to_string(), Some("010203".to_string())))];
    assert!(StandardEpisode::from_captures(&bad).is_none());
    let bad_season = vec![Some(("season".to_string(), Some("x".to_string())))];
    assert!(StandardEpisode::from_captures(&bad_season).is_none());
}

#[test]
fn episode_from_str_never_fails() {
    let e: Episode = "7".parse().unwrap();
    assert_eq!(e, Episode::Standard(7));
    let e: Episode = "7.5".parse().unwrap();
    assert_eq!(e, Episode::Special("7.5".to_string()));
}
