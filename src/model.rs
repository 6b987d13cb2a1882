//! The records the library keeps: search hits, parsed episodes, pulls,
//! profiles, series, and what the sink reports.
use vstd::prelude::*;
use crate::episode::{Episode, EpisodeView, episode_str};
use crate::text::{dec_str, dec_str2, push_char, push_decimal, push_decimal2};

verus! {

/// One raw hit from a source.
#[derive(Clone, Debug)]
pub struct SearchResult {
    pub title: String,
    pub torrent_link: String,
    pub view_link: String,
    /// Publication time, in seconds since the Unix epoch.
    pub date: i64,
    /// Nanoseconds past `date`.
    pub date_nanos: u32,
    /// The publication time's offset from UTC, in seconds east.
    pub date_offset: i32,
    pub seeders: u64,
    pub leechers: u64,
    pub downloads: u64,
    /// Size in bytes.
    pub size: u64,
}

/// The identification of one release, as a profile's pattern reads it from a title.
#[derive(Clone, Debug)]
pub struct StandardEpisode {
    pub title: String,
    pub season: u32,
    pub episode: Episode,
    pub checksum: u32,
    /// Further named captures, in the order of the pattern's groups.
    pub ext: Vec<(String, String)>,
}

/// The mathematical value of a parsed identification.
pub struct StandardEpisodeView {
    pub title: Seq<char>,
    pub season: u32,
    pub episode: EpisodeView,
    pub checksum: u32,
    pub ext: Seq<(Seq<char>, Seq<char>)>,
}

impl View for StandardEpisode {
    type V = StandardEpisodeView;

    open spec fn view(&self) -> StandardEpisodeView {
        StandardEpisodeView {
            title: self.title@,
            season: self.season,
            episode: self.episode@,
            checksum: self.checksum,
            ext: self.ext@.map_values(|p: (String, String)| (p.0@, p.1@)),
        }
    }
}

/// A search hit with its parsed identification and where it is to be filed.
#[derive(Clone, Debug)]
pub struct ParsedSearchResult {
    pub result: SearchResult,
    pub parsed: StandardEpisode,
    pub profile: String,
    pub relocate: Option<String>,
    pub relocate_season: bool,
}

#[derive(Clone, Copy, Debug, PartialEq, Eq, Structural)]
pub enum PullState {
    Downloading,
    Finished,
}

/// One tracked acquisition.
#[derive(Clone, Debug)]
pub struct PullEntry {
    pub result: ParsedSearchResult,
    pub torrent_id: Option<i64>,
    pub torrent_hash: String,
    pub state: PullState,
    /// File names recorded when the download completed.
    pub files: Vec<String>,
}

/// A pull together with its key, as listings hand it out.
#[derive(Clone, Debug)]
pub struct PullEntryNamed {
    pub id: String,
    pub pull_entry: PullEntry,
}

/// Conditions on pulls that a listing keeps; an absent one keeps every pull.
#[derive(Clone, Debug)]
pub struct PullEntryFilter {
    pub profile: Option<String>,
    pub title_contains: Option<String>,
    pub title_is: Option<String>,
    pub season_is: Option<u32>,
    pub episode_is: Option<Episode>,
    pub state: Option<PullState>,
}

/// How a provider's release titles are read, and where its series are filed by default.
#[derive(Clone, Debug)]
pub struct Profile {
    pub name: String,
    /// Prepended, with a space, to every query for a series of this profile.
    pub search_prefix: Option<String>,
    /// The pattern with named groups that release titles are read with.
    pub parse_regex: String,
    /// Default base directory; a series is filed under `<relocate>/<series name>`.
    pub relocate: Option<String>,
}

/// A tracked show.
#[derive(Clone, Debug)]
pub struct Series {
    pub name: String,
    /// The name of the profile to search with.
    pub profile: String,
    /// Overrides the search's `max_days_old` where it is larger.
    pub max_days_old: Option<u64>,
    /// Overrides the profile's default directory.
    pub relocate: Option<String>,
    /// Whether `Season <n>` is appended to the directory.
    pub relocate_season: bool,
}

/// Settings of the search engine.
#[derive(Clone, Debug)]
pub struct SearchConfig {
    /// How many days old a release may be to be considered.
    pub max_days_old: u64,
    /// The fewest seeders a release must have.
    pub min_seeders: u64,
    /// Minutes between search rounds.
    pub search_minutes: u64,
    /// Minutes between completion rounds.
    pub completion_check_minutes: u64,
    /// Name of the source to search.
    pub source: String,
    /// Name of the sink to download with.
    pub sink: String,
    /// Prefix rewrites of download directories, tried in order.
    pub path_patch: Vec<(String, String)>,
    /// Global default base directory.
    pub relocate: Option<String>,
}

#[derive(Clone, Copy, Debug, PartialEq, Eq, Structural)]
pub enum TorrentStatus {
    Finished,
    InProgress,
}

/// What the sink knows of one torrent.
#[derive(Clone, Debug)]
pub struct TorrentInfo {
    pub id: i64,
    pub hash: String,
    pub status: TorrentStatus,
}

/// A torrent that the sink has finished downloading.
#[derive(Clone, Debug)]
pub struct FinishedTorrent {
    pub id: i64,
    pub download_dir: String,
    pub files: Vec<String>,
}

/// Settings of the RSS index source.
#[derive(Clone, Debug)]
pub struct NyaaConfig {
    pub url: String,
}

/// The sources that can be configured, by kind.
#[derive(Clone, Debug)]
pub enum SourceConfig {
    Nyaa(NyaaConfig),
}

/// The source name used where the configuration names none.
pub fn default_source_sink() -> (r: String)
    ensures
        r@ == seq!['d', 'e', 'f', 'a', 'u', 'l', 't'],
{
    let r = String::from_str("default");
    proof {
        reveal_strlit("default");
    }
    r
}

/// Series are filed into season directories unless they say otherwise.
pub fn default_relocate_season() -> (r: bool)
    ensures
        r,
{
    true
}

/// The feed address searched where the configuration names none.
pub fn default_url() -> (r: String)
    ensures
        r@ == "https://nyaa.si/?page=rss&c=0_0&f=0&q="@,
{
    let r = String::from_str("https://nyaa.si/?page=rss&c=0_0&f=0&q=");
    r
}

/// The key of a pull: `<title>_S<season, two digits>E<episode>`.
pub open spec fn pull_key(p: StandardEpisode) -> Seq<char> {
    p.title@ + seq!['_', 'S'] + dec_str2(p.season as nat) + seq!['E'] + episode_str(p.episode)
}

/// The key depends on the parsed identification alone: results whose
/// parsed values agree have the same key, whatever else differs, so a key
/// survives storing and reloading a result that keeps its parsed value.
pub proof fn lemma_key_stable(a: ParsedSearchResult, b: ParsedSearchResult)
    requires
        a.parsed@ == b.parsed@,
    ensures
        pull_key(a.parsed) == pull_key(b.parsed),
{
}

/// `Path::join`: an absolute part replaces the base; otherwise the two are
/// joined with one separator.
pub open spec fn path_join(base: Seq<char>, part: Seq<char>) -> Seq<char> {
    if part.len() > 0 && part[0] == '/' {
        part
    } else if base.len() == 0 {
        part
    } else if base.last() == '/' {
        base + part
    } else {
        base + seq!['/'] + part
    }
}

/// The directory name of a season: `Season <n>`.
pub open spec fn season_dir(season: u32) -> Seq<char> {
    seq!['S', 'e', 'a', 's', 'o', 'n', ' '] + dec_str(season as nat)
}

/// Where a result is filed: nowhere without a base directory; else the
/// base, with the season's directory below it where that is asked for.
pub open spec fn relocate_dir_of(r: ParsedSearchResult) -> Option<Seq<char>> {
    match r.relocate {
        None => None,
        Some(base) => Some(
            if r.relocate_season {
                path_join(base@, season_dir(r.parsed.season))
            } else {
                base@
            },
        ),
    }
}

/// Joins two paths as `Path::join` does.
pub fn join_path(base: &str, part: &str) -> (r: String)
    ensures
        r@ == path_join(base@, part@),
{
    let bn = base.unicode_len();
    let pn = part.unicode_len();
    if pn > 0 && part.get_char(0) == '/' {
        return part.to_owned();
    }
    if bn == 0 {
        return part.to_owned();
    }
    let mut out = base.to_owned();
    if base.get_char(bn - 1) != '/' {
        push_char(&mut out, '/');
    }
    out.append(part);
    out
}

impl ParsedSearchResult {
    /// The pull key: `<title>_S<season, two digits>E<episode>`.
    pub fn key(&self) -> (r: String)
        ensures
            r@ == pull_key(self.parsed),
    {
        let mut s = self.parsed.title.clone();
        push_char(&mut s, '_');
        push_char(&mut s, 'S');
        push_decimal2(&mut s, self.parsed.season as u64);
        push_char(&mut s, 'E');
        let e = self.parsed.episode.to_string();
        s.append(e.as_str());
        assert(s@ =~= pull_key(self.parsed));
        s
    }

    /// The directory the result is filed into, if any.
    pub fn relocate_dir(&self) -> (r: Option<String>)
        ensures
            r matches Some(d) ==> relocate_dir_of(*self) == Some(d@),
            r is None <==> relocate_dir_of(*self) is None,
    {
        match &self.relocate {
            None => None,
            Some(base) => {
                if self.relocate_season {
                    let mut dir = String::new();
                    push_char(&mut dir, 'S');
                    push_char(&mut dir, 'e');
                    push_char(&mut dir, 'a');
                    push_char(&mut dir, 's');
                    push_char(&mut dir, 'o');
                    push_char(&mut dir, 'n');
                    push_char(&mut dir, ' ');
                    push_decimal(&mut dir, self.parsed.season as u64);
                    assert(dir@ =~= season_dir(self.parsed.season));
                    Some(join_path(base.as_str(), dir.as_str()))
                } else {
                    Some(base.clone())
                }
            },
        }
    }
}

impl PullEntry {
    /// The pull's key, that of its result.
    pub fn key(&self) -> (r: String)
        ensures
            r@ == pull_key(self.result.parsed),
    {
        self.result.key()
    }
}

impl PullState {
    /// The lower-case name of the state.
    pub fn to_string(&self) -> (r: String)
        ensures
            *self == PullState::Downloading ==> r@ == "downloading"@,
            *self == PullState::Finished ==> r@ == "finished"@,
    {
        match self {
            PullState::Downloading => String::from_str("downloading"),
            PullState::Finished => String::from_str("finished"),
        }
    }

    /// Reads a state from its lower-case name.
    pub fn parse(s: &str) -> (r: Option<PullState>)
        ensures
            r == (if s@ == "downloading"@ {
                Some(PullState::Downloading)
            } else if s@ == "finished"@ {
                Some(PullState::Finished)
            } else {
                None
            }),
    {
        let d = String::from_str("downloading");
        let f = String::from_str("finished");
        let owned = s.to_owned();
        if String::eq(&owned, &d) {
            Some(PullState::Downloading)
        } else if String::eq(&owned, &f) {
            Some(PullState::Finished)
        } else {
            None
        }
    }
}

} // verus!
