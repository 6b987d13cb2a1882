//! Episode numbers: a standard number or a special label, totally ordered.
use vstd::prelude::*;
use crate::text::{dec_str, decimal, parse_u32, parse_u32_spec};

verus! {

/// An episode: a plain number, or a special label such as `OVA` or `12.5`.
#[derive(Clone, Debug, Eq, Hash, Ord)]
pub enum Episode {
    Standard(u32),
    Special(String),
}

/// Lexicographic order of character sequences, by code point; for strings
/// this is the order of their UTF-8 bytes.
pub open spec fn chars_lt(a: Seq<char>, b: Seq<char>) -> bool
    decreases a.len(),
{
    if a.len() == 0 {
        b.len() > 0
    } else if b.len() == 0 {
        false
    } else if a[0] != b[0] {
        a[0] < b[0]
    } else {
        chars_lt(a.drop_first(), b.drop_first())
    }
}

/// Two episodes are the same episode.
pub open spec fn episode_eq(a: Episode, b: Episode) -> bool {
    match (a, b) {
        (Episode::Standard(x), Episode::Standard(y)) => x == y,
        (Episode::Special(x), Episode::Special(y)) => x@ == y@,
        _ => false,
    }
}

/// The order of episodes: numbers by value, labels lexicographically, and
/// every number before every label.
pub open spec fn episode_lt(a: Episode, b: Episode) -> bool {
    match (a, b) {
        (Episode::Standard(x), Episode::Standard(y)) => x < y,
        (Episode::Standard(_), Episode::Special(_)) => true,
        (Episode::Special(_), Episode::Standard(_)) => false,
        (Episode::Special(x), Episode::Special(y)) => chars_lt(x@, y@),
    }
}

pub open spec fn episode_cmp(a: Episode, b: Episode) -> core::cmp::Ordering {
    if episode_lt(a, b) {
        core::cmp::Ordering::Less
    } else if episode_eq(a, b) {
        core::cmp::Ordering::Equal
    } else {
        core::cmp::Ordering::Greater
    }
}

/// The text form of an episode: the number or the label, unadorned.
pub open spec fn episode_str(e: Episode) -> Seq<char> {
    match e {
        Episode::Standard(x) => dec_str(x as nat),
        Episode::Special(s) => s@,
    }
}

/// The mathematical value of an episode.
pub enum EpisodeView {
    Standard(u32),
    Special(Seq<char>),
}

impl View for Episode {
    type V = EpisodeView;

    open spec fn view(&self) -> EpisodeView {
        match self {
            Episode::Standard(n) => EpisodeView::Standard(*n),
            Episode::Special(s) => EpisodeView::Special(s@),
        }
    }
}

/// What reading `s` as an episode yields: a number where `s` parses as a
/// `u32`, a label otherwise.
pub open spec fn episode_from_str(s: Seq<char>) -> EpisodeView {
    match parse_u32_spec(s) {
        Some(n) => EpisodeView::Standard(n),
        None => EpisodeView::Special(s),
    }
}

fn chars_less(a: &str, b: &str) -> (r: bool)
    ensures
        r == chars_lt(a@, b@),
{
    let n = a.unicode_len();
    let m = b.unicode_len();
    let mut i: usize = 0;
    assert(a@.subrange(0, n as int) =~= a@);
    assert(b@.subrange(0, m as int) =~= b@);
    while i < n && i < m
        invariant
            n == a@.len(),
            m == b@.len(),
            i <= n,
            i <= m,
            chars_lt(a@, b@) == chars_lt(a@.subrange(i as int, n as int), b@.subrange(
                i as int,
                m as int,
            )),
        decreases n - i,
    {
        let x = a.get_char(i);
        let y = b.get_char(i);
        let ghost sa = a@.subrange(i as int, n as int);
        let ghost sb = b@.subrange(i as int, m as int);
        assert(sa[0] == x && sb[0] == y);
        if x != y {
            return x < y;
        }
        assert(sa.drop_first() =~= a@.subrange(i + 1, n as int));
        assert(sb.drop_first() =~= b@.subrange(i + 1, m as int));
        i = i + 1;
    }
    i < m
}

impl Episode {
    /// Reads an episode: a number where the text parses as one, a label otherwise.
    pub fn parse(s: &str) -> (r: Episode)
        ensures
            r@ == episode_from_str(s@),
    {
        match parse_u32(s) {
            Some(n) => Episode::Standard(n),
            None => Episode::Special(s.to_owned()),
        }
    }

    /// The text form: the number or the label, unadorned.
    pub fn to_string(&self) -> (r: String)
        ensures
            r@ == episode_str(*self),
    {
        match self {
            Episode::Standard(x) => decimal(*x as u64),
            Episode::Special(s) => s.clone(),
        }
    }
}

impl std::str::FromStr for Episode {
    type Err = ();

    fn from_str(s: &str) -> (r: Result<Episode, ()>)
        ensures
            r matches Ok(e) && e@ == episode_from_str(s@),
    {
        Ok(Episode::parse(s))
    }
}

impl Default for Episode {
    fn default() -> (r: Episode)
        ensures
            r == Episode::Standard(0),
    {
        Episode::Standard(0)
    }
}

impl PartialEq for Episode {
    fn eq(&self, other: &Episode) -> (r: bool)
        ensures
            r == episode_eq(*self, *other),
    {
        match (self, other) {
            (Episode::Standard(x), Episode::Standard(y)) => *x == *y,
            (Episode::Special(x), Episode::Special(y)) => String::eq(x, y),
            _ => false,
        }
    }
}

impl vstd::std_specs::cmp::PartialEqSpecImpl for Episode {
    open spec fn obeys_eq_spec() -> bool {
        true
    }

    open spec fn eq_spec(&self, other: &Episode) -> bool {
        episode_eq(*self, *other)
    }
}

impl Episode {
    /// Compares two episodes in their total order.
    pub fn compare(&self, other: &Episode) -> (r: core::cmp::Ordering)
        ensures
            r == episode_cmp(*self, *other),
    {
        match (self, other) {
            (Episode::Standard(x), Episode::Standard(y)) => {
                if *x < *y {
                    core::cmp::Ordering::Less
                } else if *x == *y {
                    core::cmp::Ordering::Equal
                } else {
                    core::cmp::Ordering::Greater
                }
            },
            (Episode::Standard(_), Episode::Special(_)) => core::cmp::Ordering::Less,
            (Episode::Special(_), Episode::Standard(_)) => core::cmp::Ordering::Greater,
            (Episode::Special(x), Episode::Special(y)) => {
                if chars_less(x.as_str(), y.as_str()) {
                    core::cmp::Ordering::Less
                } else if String::eq(x, y) {
                    core::cmp::Ordering::Equal
                } else {
                    core::cmp::Ordering::Greater
                }
            },
        }
    }
}

impl PartialOrd for Episode {
    fn partial_cmp(&self, other: &Episode) -> (r: Option<core::cmp::Ordering>)
        ensures
            r == Some(episode_cmp(*self, *other)),
    {
        Some(self.compare(other))
    }
}

impl vstd::std_specs::cmp::PartialOrdSpecImpl for Episode {
    open spec fn obeys_partial_cmp_spec() -> bool {
        true
    }

    open spec fn partial_cmp_spec(&self, other: &Episode) -> Option<core::cmp::Ordering> {
        Some(episode_cmp(*self, *other))
    }
}

proof fn lemma_chars_lt_irreflexive(a: Seq<char>)
    ensures
        !chars_lt(a, a),
    decreases a.len(),
{
    if a.len() > 0 {
        lemma_chars_lt_irreflexive(a.drop_first());
    }
}

proof fn lemma_chars_lt_total(a: Seq<char>, b: Seq<char>)
    ensures
        chars_lt(a, b) || chars_lt(b, a) || a == b,
        !(chars_lt(a, b) && chars_lt(b, a)),
    decreases a.len(),
{
    if a.len() > 0 && b.len() > 0 {
        if a[0] == b[0] {
            lemma_chars_lt_total(a.drop_first(), b.drop_first());
            if a.drop_first() == b.drop_first() {
                assert(a =~= seq![a[0]] + a.drop_first());
                assert(b =~= seq![b[0]] + b.drop_first());
            }
        }
    } else if a.len() == 0 && b.len() == 0 {
        assert(a =~= b);
    }
}

proof fn lemma_chars_lt_transitive(a: Seq<char>, b: Seq<char>, c: Seq<char>)
    requires
        chars_lt(a, b),
        chars_lt(b, c),
    ensures
        chars_lt(a, c),
    decreases a.len(),
{
    if a.len() > 0 && a[0] == b[0] && b[0] == c[0] {
        lemma_chars_lt_transitive(a.drop_first(), b.drop_first(), c.drop_first());
    }
}

/// The order of episodes: `Standard(a) < Standard(b)` exactly when `a < b`;
/// every standard episode comes before every special one; `Special(a) <
/// Special(b)` exactly when `a` is lexicographically before `b`. It is a
/// strict total order: irreflexive, transitive, and any two episodes are
/// equal or ordered one way, never both.
pub proof fn lemma_episode_order(a: Episode, b: Episode, c: Episode)
    ensures
        (a is Standard && b is Standard) ==> (episode_lt(a, b) <==> a->Standard_0 < b->Standard_0),
        (a is Standard && b is Special) ==> episode_lt(a, b) && !episode_lt(b, a),
        (a is Special && b is Special) ==> (episode_lt(a, b) <==> chars_lt(
            a->Special_0@,
            b->Special_0@,
        )),
        !episode_lt(a, a),
        episode_lt(a, b) && episode_lt(b, c) ==> episode_lt(a, c),
        episode_lt(a, b) || episode_lt(b, a) || episode_eq(a, b),
        !(episode_lt(a, b) && episode_lt(b, a)),
        episode_eq(a, b) ==> !episode_lt(a, b),
{
    if let Episode::Special(x) = a {
        lemma_chars_lt_irreflexive(x@);
        if let Episode::Special(y) = b {
            lemma_chars_lt_total(x@, y@);
            if x@ == y@ {
                lemma_chars_lt_irreflexive(y@);
            }
            if let Episode::Special(z) = c {
                if chars_lt(x@, y@) && chars_lt(y@, z@) {
                    lemma_chars_lt_transitive(x@, y@, z@);
                }
            }
        }
    }
}

} // verus!
