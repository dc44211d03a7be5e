//! Hostname extraction and matching, the basis of host-based credential
//! lookup. URL parsing itself is the `url` crate's; the scheme-defaulting,
//! the fallback for unparsable text, the case folding and the `www.`
//! stripping are verified here.

use vstd::prelude::*;

use crate::text::{contains_sub, lower_seq, spec_contains, to_lowercase_str};

verus! {

/// What the `url` crate makes of a piece of text: `None` when it does not
/// parse as a URL, otherwise the URL's host component ('' when the URL has
/// none). A function of the text alone.
pub uninterp spec fn host_of(s: Seq<char>) -> Option<Seq<char>>;

/// Relies on url::Url::parse and url::Url::host_str: whether the text parses
/// as a URL and, if so, its host component; both depend on the text alone.
#[verifier::external_body]
fn parse_url_host(s: &str) -> (r: Option<String>)
    ensures
        r matches Some(h) ==> host_of(s@) == Some(h@),
        r is None ==> host_of(s@) is None,
{
    match url::Url::parse(s) {
        Ok(u) => Some(u.host_str().unwrap_or("").to_string()),
        Err(_) => None,
    }
}

/// Index of the first occurrence of `c` in `s` (the length when absent).
pub open spec fn index_of_first(s: Seq<char>, c: char) -> int
    decreases s.len(),
{
    if s.len() == 0 {
        0
    } else if s[0] == c {
        0
    } else {
        1 + index_of_first(s.drop_first(), c)
    }
}

proof fn lemma_index_of_first(s: Seq<char>, c: char, r: int)
    requires
        0 <= r <= s.len(),
        forall|j: int| 0 <= j < r ==> s[j] != c,
        r < s.len() ==> s[r] == c,
    ensures
        index_of_first(s, c) == r,
    decreases s.len(),
{
    if s.len() == 0 {
    } else if s[0] == c {
        assert(r == 0) by {
            if r > 0 {
                assert(s[0] != c);
            }
        }
    } else {
        assert(r >= 1) by {
            if r == 0 {
                assert(s[r] == c);
            }
        }
        let t = s.drop_first();
        assert forall|j: int| 0 <= j < r - 1 implies t[j] != c by {
            assert(t[j] == s[j + 1]);
        }
        assert(r - 1 < t.len() ==> t[r - 1] == c) by {
            if r - 1 < t.len() {
                assert(t[r - 1] == s[r]);
            }
        }
        lemma_index_of_first(t, c, r - 1);
    }
}

/// The prefix of `s` before the first occurrence of `c` (all of `s` when
/// absent).
pub open spec fn prefix_until(s: Seq<char>, c: char) -> Seq<char> {
    s.take(index_of_first(s, c))
}

fn prefix_until_exec(s: &str, c: char) -> (r: String)
    ensures
        r@ == prefix_until(s@, c),
{
    let n = s.unicode_len();
    let mut i: usize = 0;
    while i < n
        invariant
            i <= n,
            n == s@.len(),
            forall|j: int| 0 <= j < i ==> s@[j] != c,
        ensures
            i <= n,
            forall|j: int| 0 <= j < i ==> s@[j] != c,
            i < n ==> s@[i as int] == c,
        decreases n - i,
    {
        if s.get_char(i) == c {
            break ;
        }
        i = i + 1;
    }
    proof {
        lemma_index_of_first(s@, c, i as int);
    }
    let pre = s.substring_char(0, i);
    assert(pre@ =~= prefix_until(s@, c));
    String::from_str(pre)
}

/// `h` with one leading "www." label removed, if it has one.
pub open spec fn spec_strip_www(h: Seq<char>) -> Seq<char> {
    if h.len() >= 4 && h[0] == 'w' && h[1] == 'w' && h[2] == 'w' && h[3] == '.' {
        h.skip(4)
    } else {
        h
    }
}

fn strip_www(s: &str) -> (r: String)
    ensures
        r@ == spec_strip_www(s@),
{
    let n = s.unicode_len();
    if n >= 4 && s.get_char(0) == 'w' && s.get_char(1) == 'w' && s.get_char(2) == 'w'
        && s.get_char(3) == '.' {
        let rest = s.substring_char(4, n);
        assert(rest@ =~= spec_strip_www(s@));
        String::from_str(rest)
    } else {
        String::from_str(s)
    }
}

/// Two extracted hostnames designate the same site: both are non-empty and
/// they agree once a leading "www." is dropped from each.
pub open spec fn spec_hosts_match(a: Seq<char>, b: Seq<char>) -> bool {
    a.len() > 0 && b.len() > 0 && spec_strip_www(a) == spec_strip_www(b)
}

/// Whether two extracted hostnames designate the same site.
pub fn hosts_match(host1: &str, host2: &str) -> (r: bool)
    ensures
        r == spec_hosts_match(host1@, host2@),
{
    if host1.unicode_len() == 0 || host2.unicode_len() == 0 {
        return false;
    }
    let s1 = strip_www(host1);
    let s2 = strip_www(host2);
    s1 == s2
}

/// The hostname this library reads out of a piece of text: the text is
/// parsed as a URL (with https assumed when no scheme is present) and the
/// host taken from it; text that does not parse falls back to its leading
/// run up to the first '/' and then ':'. The result is ASCII-lowercased;
/// empty means no hostname could be extracted.
pub open spec fn spec_hostname(u: Seq<char>) -> Seq<char> {
    let w = if spec_contains(u, "://"@) {
        u
    } else {
        "https://"@ + u
    };
    match host_of(w) {
        Some(h) => lower_seq(h),
        None => lower_seq(prefix_until(prefix_until(u, '/'), ':')),
    }
}

/// Extracts the hostname from a URL or host-like string, per
/// `spec_hostname`.
pub fn extract_hostname(url: &str) -> (h: String)
    ensures
        h@ == spec_hostname(url@),
{
    let with_scheme: String = if contains_sub(url, "://") {
        String::from_str(url)
    } else {
        String::from_str("https://").concat(url)
    };
    match parse_url_host(with_scheme.as_str()) {
        Some(hs) => to_lowercase_str(hs.as_str()),
        None => {
            let before_slash = prefix_until_exec(url, '/');
            let before_colon = prefix_until_exec(before_slash.as_str(), ':');
            to_lowercase_str(before_colon.as_str())
        },
    }
}

} // verus!
