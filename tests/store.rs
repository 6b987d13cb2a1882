use nyauser::engine::clean_verdict;
use nyauser::model::{TorrentInfo, TorrentStatus};
use nyauser::episode::Episode;
use nyauser::model::{ParsedSearchResult, Profile, PullEntry, PullState, SearchResult, Series, StandardEpisode};
use nyauser::store::{Database, StoreError};

fn open() -> Database {
    let db = sled::Config::new().temporary(true).open().unwrap();
    Database::new(db)
}

fn pull(title: &str, episode: u32, torrent_id: Option<i64>) -> PullEntry {
    PullEntry {
        result: ParsedSearchResult {
            result: SearchResult {
                title: "t".to_string(),
                torrent_link: "l".to_string(),
                view_link: "v".to_string(),
                date: 0,
                date_nanos: 0,
        date_offset: 0,
                seeders: 1,
                leechers: 0,
                downloads: 0,
                size: 0,
            },
            parsed: StandardEpisode {
                title: title.to_string(),
                season: 1,
                episode: Episode::Standard(episode),
                checksum: 0,
                ext: vec![],
            },
            profile: "sp".to_string(),
            relocate: None,
            relocate_season: true,
        },
        torrent_id,
        torrent_hash: "H1".to_string(),
        state: PullState::Downloading,
        files: vec![],
    }
}

#[test]
fn save_pull_writes_record_and_index() {
    let mut db = open();
    let p = pull("Foo", 3, Some(7));
    db.save_pull(&p, b"rec").unwrap();
    assert!(db.exists_pull_entry("Foo_S01E3").unwrap());
    assert_eq!(db.get_pull_entry("Foo_S01E3").unwrap(), Some(b"rec".to_vec()));
    assert_eq!(db.get_pull_entry_from_torrent_id(7).unwrap(), Some(b"rec".to_vec()));
    assert_eq!(db.get_pull_entry_from_torrent_id(8).unwrap(), None);
    let listed = db.list_pull_entry_downloading().unwrap();
    assert_eq!(listed, vec![(b"downloading-7".to_vec(), b"rec".to_vec())]);
}

#[test]
fn negative_ids_are_indexed() {
    let mut db = open();
    db.save_pull(&pull("Foo", 3, Some(-12)), b"r").unwrap();
    assert_eq!(db.get_pull_entry_from_torrent_id(-12).unwrap(), Some(b"r".to_vec()));
}

#[test]
fn delete_pull_drops_both_keys() {
    let mut db = open();
    let p = pull("Foo", 3, Some(7));
    db.save_pull(&p, b"rec").unwrap();
    db.delete_pull(p).unwrap();
    assert!(!db.exists_pull_entry("Foo_S01E3").unwrap());
    assert_eq!(db.get_pull_entry_from_torrent_id(7).unwrap(), None);
    assert!(db.list_pull_entry_downloading().unwrap().is_empty());
}

#[test]
fn finish_pull_clears_index() {
    let mut db = open();
    let mut p = pull("Foo", 3, Some(7));
    db.save_pull(&p, b"rec").unwrap();
    db.finish_pull(&mut p, b"done").unwrap();
    assert_eq!(p.state, PullState::Finished);
    assert_eq!(p.torrent_id, None);
    assert_eq!(db.get_pull_entry("Foo_S01E3").unwrap(), Some(b"done".to_vec()));
    assert_eq!(db.get_pull_entry_from_torrent_id(7).unwrap(), None);
}

#[test]
fn clear_torrent_id_keeps_record() {
    let mut db = open();
    let mut p = pull("Foo", 3, Some(9));
    db.save_pull(&p, b"rec").unwrap();
    db.clear_torrent_id(&mut p, b"cleared").unwrap();
    assert_eq!(p.torrent_id, None);
    assert_eq!(p.state, PullState::Downloading);
    assert_eq!(db.get_pull_entry("Foo_S01E3").unwrap(), Some(b"cleared".to_vec()));
    assert!(db.list_pull_entry_downloading().unwrap().is_empty());
}

#[test]
fn dangling_index_is_an_error() {
    let mut db = open();
    let p = pull("Foo", 3, Some(7));
    db.save_pull(&p, b"rec").unwrap();
    let mut q = pull("Foo", 3, None);
    q.torrent_id = None;
    db.delete_pull(q).unwrap();
    assert!(matches!(db.list_pull_entry_downloading(), Err(StoreError::DanglingKey)));
}

#[test]
fn series_listing_by_prefix() {
    let mut db = open();
    db.save_pull(&pull("Foo", 1, None), b"f1").unwrap();
    db.save_pull(&pull("Foo", 2, None), b"f2").unwrap();
    db.save_pull(&pull("Foobar", 1, None), b"fb").unwrap();
    let foo: Vec<Vec<u8>> = db.list_pull_entry_series("Foo").unwrap().into_iter().map(|e| e.1).collect();
    assert_eq!(foo, vec![b"f1".to_vec(), b"f2".to_vec()]);
    assert_eq!(db.list_pull_entry().unwrap().len(), 3);
}

#[test]
fn profile_and_series_records() {
    let mut db = open();
    let p = Profile { name: "sp".to_string(), search_prefix: None, parse_regex: "x".to_string(), relocate: None };
    db.save_profile(&p, b"{}").unwrap();
    assert_eq!(db.get_profile("sp").unwrap(), Some(b"{}".to_vec()));
    assert_eq!(db.list_profile().unwrap().len(), 1);
    db.delete_profile("sp").unwrap();
    assert_eq!(db.get_profile("sp").unwrap(), None);
    let s = Series { name: "Foo".to_string(), profile: "sp".to_string(), max_days_old: None, relocate: None, relocate_season: true };
    db.save_series(&s, b"s").unwrap();
    assert_eq!(db.get_series("Foo").unwrap(), Some(b"s".to_vec()));
    assert_eq!(db.list_series().unwrap()[0].0, b"series-Foo".to_vec());
    db.delete_series("Foo").unwrap();
    assert!(db.list_series().unwrap().is_empty());
    db.flush().unwrap();
}

#[test]
fn second_search_round_finds_pull_stored() {
    // a candidate whose pull was saved in an earlier round is not pushed again
    let mut db = open();
    let p = pull("Foo", 3, Some(7));
    assert!(!db.exists_pull_entry(&p.key()).unwrap());
    db.save_pull(&p, b"rec").unwrap();
    assert!(db.exists_pull_entry(&p.key()).unwrap());
    assert_eq!(db.list_pull_entry().unwrap().len(), 1);
}

#[test]
fn clean_twice_changes_nothing_more() {
    let mut db = open();
    let kept = pull("Foo", 1, Some(1));
    let stale = pull("Foo", 2, Some(2));
    db.save_pull(&kept, b"k").unwrap();
    db.save_pull(&stale, b"s").unwrap();
    let sink = |id: i64| if id == 1 { Some(TorrentInfo { id, hash: "H1".to_string(), status: TorrentStatus::InProgress }) } else { None };
    for round in 0..2 {
        let listed = db.list_pull_entry_downloading().unwrap();
        for (key, _) in listed {
            let p = if key == b"downloading-1".to_vec() { pull("Foo", 1, Some(1)) } else { pull("Foo", 2, Some(2)) };
            if clean_verdict(&p, &sink(p.torrent_id.unwrap())) {
                assert_eq!(round, 0);
                db.delete_pull(p).unwrap();
            }
        }
    }
    assert_eq!(db.list_pull_entry().unwrap().len(), 1);
    assert_eq!(db.get_pull_entry_from_torrent_id(1).unwrap(), Some(b"k".to_vec()));
    assert_eq!(db.get_pull_entry_from_torrent_id(2).unwrap(), None);
}

fn info(id: i64, hash: &str) -> TorrentInfo {
    TorrentInfo { id, hash: hash.to_string(), status: TorrentStatus::InProgress }
}

#[test]
fn record_push_saves_once() {
    let mut db = open();
    let c = pull("Foo", 3, None).result;
    assert!(db.candidate_wanted(&c).unwrap());
    let saved = db.record_push(c.clone(), Some(info(7, "H1")), b"rec").unwrap().unwrap();
    assert_eq!(saved.torrent_id, Some(7));
    assert_eq!(saved.state, PullState::Downloading);
    assert!(!db.candidate_wanted(&c).unwrap());
    // a second round with the same answer changes nothing
    assert!(db.record_push(c.clone(), Some(info(8, "H2")), b"other").unwrap().is_none());
    assert_eq!(db.get_pull_entry("Foo_S01E3").unwrap(), Some(b"rec".to_vec()));
    assert_eq!(db.get_pull_entry_from_torrent_id(8).unwrap(), None);
}

#[test]
fn record_push_refused_stores_nothing() {
    let mut db = open();
    let c = pull("Foo", 4, None).result;
    assert!(db.record_push(c.clone(), None, b"").unwrap().is_none());
    assert!(db.candidate_wanted(&c).unwrap());
    assert!(db.list_pull_entry().unwrap().is_empty());
}

#[test]
fn clean_step_deletes_stale_and_keeps_live() {
    let mut db = open();
    db.save_pull(&pull("Foo", 1, Some(1)), b"a").unwrap();
    db.save_pull(&pull("Foo", 2, Some(2)), b"b").unwrap();
    db.save_pull(&pull("Foo", 3, Some(3)), b"c").unwrap();
    assert!(!db.clean_step(pull("Foo", 1, Some(1)), &Some(info(1, "H1"))).unwrap());
    assert!(db.clean_step(pull("Foo", 2, Some(2)), &None).unwrap());
    assert!(db.clean_step(pull("Foo", 3, Some(3)), &Some(info(3, "H2"))).unwrap());
    let listed = db.list_pull_entry_downloading().unwrap();
    assert_eq!(listed, vec![(b"downloading-1".to_vec(), b"a".to_vec())]);
    assert!(!db.clean_step(pull("Foo", 1, Some(1)), &Some(info(1, "H1"))).unwrap());
    assert_eq!(db.list_pull_entry_downloading().unwrap().len(), 1);
}

#[test]
fn downloading_listing_in_key_order() {
    let mut db = open();
    db.save_pull(&pull("Foo", 2, Some(20)), b"b").unwrap();
    db.save_pull(&pull("Foo", 1, Some(10)), b"a").unwrap();
    db.save_pull(&pull("Foo", 3, Some(3)), b"c").unwrap();
    let keys: Vec<Vec<u8>> = db.list_pull_entry_downloading().unwrap().into_iter().map(|e| e.0).collect();
    assert_eq!(keys, vec![b"downloading-10".to_vec(), b"downloading-20".to_vec(), b"downloading-3".to_vec()]);
}
