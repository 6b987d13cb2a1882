//! Reading a release title with a profile's pattern.
use vstd::prelude::*;
use crate::episode::{Episode, EpisodeView, episode_from_str};
use crate::model::{Profile, StandardEpisode, StandardEpisodeView};
use crate::text::{parse_u32, parse_u32_spec};

verus! {

/// The groups of a pattern in order, each with its name where it has one
/// and the text it captured where it took part in the match.
pub type Groups = Seq<Option<(Seq<char>, Option<Seq<char>>)>>;

/// What matching `text` against the pattern `pattern` yields: `None` where
/// the pattern does not compile or does not match; else the pattern's groups.
pub uninterp spec fn regex_groups(pattern: Seq<char>, text: Seq<char>) -> Option<Groups>;

pub open spec fn groups_view(g: Vec<Option<(String, Option<String>)>>) -> Groups {
    g@.map_values(
        |x: Option<(String, Option<String>)>|
            match x {
                None => None,
                Some(p) => Some(
                    (
                        p.0@,
                        match p.1 {
                            None => None,
                            Some(v) => Some(v@),
                        },
                    ),
                ),
            },
    )
}

/// Relies on `regex::Regex::new`, `Regex::captures` and `Regex::capture_names`:
/// the groups of a compiled pattern and what each captured, a function of
/// the pattern and the text alone.
#[verifier::external_body]
fn capture_groups(pattern: &str, text: &str) -> (r: Option<Vec<Option<(String, Option<String>)>>>)
    ensures
        r is None <==> regex_groups(pattern@, text@) is None,
        r matches Some(g) ==> regex_groups(pattern@, text@) == Some(groups_view(g)),
{
    let re = regex::Regex::new(pattern).ok()?;
    let caps = re.captures(text)?;
    Some(
        re.capture_names().map(
            |n| n.map(|n| (n.to_string(), caps.name(n).map(|m| m.as_str().to_string()))),
        ).collect(),
    )
}

pub open spec fn is_hex_digit(c: char) -> bool {
    ('0' <= c && c <= '9') || ('a' <= c && c <= 'f') || ('A' <= c && c <= 'F')
}

pub open spec fn hex_value(c: char) -> int {
    if '0' <= c && c <= '9' {
        c as u32 - '0' as u32
    } else if 'a' <= c && c <= 'f' {
        c as u32 - 'a' as u32 + 10
    } else {
        c as u32 - 'A' as u32 + 10
    }
}

/// Text that decodes as hexadecimal bytes: an even number of hex digits.
pub open spec fn hex_decodable(s: Seq<char>) -> bool {
    s.len() % 2 == 0 && forall|i: int| 0 <= i < s.len() ==> is_hex_digit(#[trigger] s[i])
}

/// The bytes that hexadecimal text stands for, two digits each.
pub open spec fn hex_bytes(s: Seq<char>) -> Seq<u8> {
    Seq::new((s.len() / 2) as nat, |i: int| (hex_value(s[2 * i]) * 16 + hex_value(s[2 * i + 1])) as u8)
}

/// Relies on `hex::decode`: pairs of hex digits, of either case, become
/// bytes; odd length or any other character is an error.
#[verifier::external_body]
fn decode_hex(s: &str) -> (r: Option<Vec<u8>>)
    ensures
        r is Some <==> hex_decodable(s@),
        r matches Some(v) ==> v@ == hex_bytes(s@),
{
    hex::decode(s).ok()
}

/// Four bytes read as a little-endian `u32`.
pub open spec fn le_u32(b: Seq<u8>) -> u32 {
    (b[0] as int + b[1] as int * 256 + b[2] as int * 65536 + b[3] as int * 16777216) as u32
}

/// The checksum that a `checksum` capture stands for: four bytes in hex,
/// little-endian.
pub open spec fn checksum_of(s: Seq<char>) -> Option<u32> {
    if hex_decodable(s) && hex_bytes(s).len() == 4 {
        Some(le_u32(hex_bytes(s)))
    } else {
        None
    }
}

/// Where parsing starts: season 1, all else empty.
pub open spec fn initial_episode() -> StandardEpisodeView {
    StandardEpisodeView {
        title: Seq::empty(),
        season: 1,
        episode: EpisodeView::Standard(0),
        checksum: 0,
        ext: Seq::empty(),
    }
}

/// The effect of one named capture on what has been read so far.
pub open spec fn apply_capture(out: StandardEpisodeView, name: Seq<char>, value: Seq<char>) -> Option<
    StandardEpisodeView,
> {
    if name == "title"@ {
        Some(StandardEpisodeView { title: value, ..out })
    } else if name == "season"@ {
        match parse_u32_spec(value) {
            Some(n) => Some(StandardEpisodeView { season: n, ..out }),
            None => None,
        }
    } else if name == "episode"@ {
        Some(StandardEpisodeView { episode: episode_from_str(value), ..out })
    } else if name == "checksum"@ {
        match checksum_of(value) {
            Some(c) => Some(StandardEpisodeView { checksum: c, ..out }),
            None => None,
        }
    } else {
        Some(StandardEpisodeView { ext: out.ext.push((name, value)), ..out })
    }
}

/// Reads the groups in order; unnamed groups and groups that did not take
/// part are passed over, and a capture that cannot be read fails the whole.
pub open spec fn apply_groups(groups: Groups) -> Option<StandardEpisodeView>
    decreases groups.len(),
{
    if groups.len() == 0 {
        Some(initial_episode())
    } else {
        match apply_groups(groups.drop_last()) {
            None => None,
            Some(out) => match groups.last() {
                Some((name, Some(value))) => apply_capture(out, name, value),
                _ => Some(out),
            },
        }
    }
}

/// What a profile's pattern reads from a title.
pub open spec fn parse_title(pattern: Seq<char>, title: Seq<char>) -> Option<StandardEpisodeView> {
    match regex_groups(pattern, title) {
        None => None,
        Some(g) => apply_groups(g),
    }
}

pub open spec fn opt_view(r: Option<StandardEpisode>) -> Option<StandardEpisodeView> {
    match r {
        None => None,
        Some(e) => Some(e@),
    }
}

proof fn lemma_failure_persists(g: Groups, k: int)
    requires
        0 <= k <= g.len(),
        apply_groups(g.take(k)) is None,
    ensures
        apply_groups(g) is None,
    decreases g.len() - k,
{
    if k < g.len() {
        assert(g.take(k + 1).drop_last() =~= g.take(k));
        lemma_failure_persists(g, k + 1);
    } else {
        assert(g.take(k) =~= g);
    }
}

fn read_checksum(s: &str) -> (r: Option<u32>)
    ensures
        r == checksum_of(s@),
{
    let bytes = decode_hex(s)?;
    if bytes.len() != 4 {
        return None;
    }
    let v: u64 = bytes[0] as u64 + bytes[1] as u64 * 256 + bytes[2] as u64 * 65536 + bytes[3] as u64
        * 16777216;
    Some(v as u32)
}

impl StandardEpisode {
    /// Builds the identification from a pattern's groups, in order: `title`
    /// sets the title; `season` must parse as a `u32`; `episode` is read as
    /// an episode; `checksum` must be four hex-encoded bytes, read
    /// little-endian; any other named group is kept in `ext`. The season is
    /// 1 where no group sets it.
    pub fn from_captures(groups: &Vec<Option<(String, Option<String>)>>) -> (r: Option<
        StandardEpisode,
    >)
        ensures
            opt_view(r) == apply_groups(groups_view(*groups)),
    {
        let mut out = StandardEpisode {
            title: String::new(),
            season: 1,
            episode: Episode::Standard(0),
            checksum: 0,
            ext: Vec::new(),
        };
        assert(out@.ext =~= Seq::<(Seq<char>, Seq<char>)>::empty());
        let ghost gv = groups_view(*groups);
        let mut i: usize = 0;
        assert(gv.take(0) =~= Seq::<Option<(Seq<char>, Option<Seq<char>>)>>::empty());
        while i < groups.len()
            invariant
                i <= groups.len(),
                gv == groups_view(*groups),
                apply_groups(gv.take(i as int)) == Some(out@),
            decreases groups.len() - i,
        {
            let ghost before = out@;
            assert(gv.take(i + 1).drop_last() =~= gv.take(i as int));
            assert(gv.take(i + 1).last() == gv[i as int]);
            match &groups[i] {
                Some((name, Some(value))) => {
                    let title = String::from_str("title");
                    let season = String::from_str("season");
                    let episode = String::from_str("episode");
                    let checksum = String::from_str("checksum");
                    if String::eq(name, &title) {
                        out.title = value.clone();
                    } else if String::eq(name, &season) {
                        match parse_u32(value.as_str()) {
                            Some(n) => {
                                out.season = n;
                            },
                            None => {
                                proof {
                                    lemma_failure_persists(gv, i + 1);
                                }
                                return None;
                            },
                        }
                    } else if String::eq(name, &episode) {
                        out.episode = Episode::parse(value.as_str());
                    } else if String::eq(name, &checksum) {
                        match read_checksum(value.as_str()) {
                            Some(c) => {
                                out.checksum = c;
                            },
                            None => {
                                proof {
                                    lemma_failure_persists(gv, i + 1);
                                }
                                return None;
                            },
                        }
                    } else {
                        out.ext.push((name.clone(), value.clone()));
                        assert(out@.ext =~= before.ext.push((name@, value@)));
                    }
                },
                _ => {},
            }
            i = i + 1;
        }
        assert(gv.take(i as int) =~= gv);
        Some(out)
    }
}

impl Profile {
    /// Reads a release title with this profile's pattern: `None` where the
    /// pattern does not match or a capture cannot be read.
    pub fn parse_name(&self, name: &str) -> (r: Option<StandardEpisode>)
        ensures
            opt_view(r) == parse_title(self.parse_regex@, name@),
    {
        match capture_groups(self.parse_regex.as_str(), name) {
            None => None,
            Some(groups) => StandardEpisode::from_captures(&groups),
        }
    }
}

} // verus!
