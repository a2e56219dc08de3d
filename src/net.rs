//! Decisions around fetching the site's pages and downloading its images:
//! which hosts may be fetched, how links are made absolute, when a download
//! is tried again, and where a downloaded file goes.
use crate::command::opt_view;
use crate::text::{append_chars, chars_of, has_prefix, starts_with, string_of};
use crate::util::{sanitize_filename, sanitized};
use url::Url;
use vstd::prelude::*;

verus! {

/// What `Url::parse` makes of a text: nothing where it does not parse, else
/// the parsed URL's host, where it has one.
pub uninterp spec fn url_host_of(s: Seq<char>) -> Option<Option<Seq<char>>>;

/// The text of `v` resolved against the URL `base`: nothing where `base`
/// does not parse or `v` cannot be joined to it.
pub uninterp spec fn url_join_of(base: Seq<char>, v: Seq<char>) -> Option<Seq<char>>;

/// A parsed host as sequences of characters.
pub open spec fn opt_opt_view(o: Option<Option<String>>) -> Option<Option<Seq<char>>> {
    match o {
        Some(i) => Some(opt_view(i)),
        None => None,
    }
}

/// Relies on `url::Url::parse` and `Url::host_str`.
#[verifier::external_body]
fn parsed_host(s: &str) -> (r: Option<Option<String>>)
    ensures
        opt_opt_view(r) == url_host_of(s@),
{
    Url::parse(s).ok().map(|u| u.host_str().map(|h| h.to_string()))
}

/// Relies on `url::Url::parse`, `Url::join` and the URL's serialization.
#[verifier::external_body]
fn joined_url(base: &str, v: &str) -> (r: Option<String>)
    ensures
        opt_view(r) == url_join_of(base@, v@),
{
    Url::parse(base).ok().and_then(|b| b.join(v).ok()).map(|u| u.to_string())
}

/// Whether two texts parse as URLs with the same host (or both without one).
pub open spec fn same_host_spec(url: Seq<char>, base_url: Seq<char>) -> bool {
    url_host_of(url) is Some && url_host_of(base_url) is Some && url_host_of(url)->0
        == url_host_of(base_url)->0
}

/// Whether two links are on the same host.
pub fn same_host(url: &str, base_url: &str) -> (r: bool)
    ensures
        r == same_host_spec(url@, base_url@),
{
    match (parsed_host(url), parsed_host(base_url)) {
        (Some(u), Some(b)) => match (u, b) {
            (Some(x), Some(y)) => x == y,
            (None, None) => true,
            _ => false,
        },
        _ => false,
    }
}

/// Whether a page may be fetched: any link where no base is set, else only a
/// link on the base's host.
pub fn fetch_allowed(url: &str, base_url: &str) -> (r: bool)
    ensures
        r == (base_url@.len() == 0 || same_host_spec(url@, base_url@)),
{
    base_url.is_empty() || same_host(url, base_url)
}

/// A link of a page made absolute: links that start with `http` stay, a
/// protocol-relative link gets `https:` (after dropping two of four leading
/// slashes), and any other link is resolved against the base where there is
/// one and it resolves.
pub open spec fn resolved_url(v: Seq<char>, base_url: Seq<char>) -> Seq<char> {
    if has_prefix(v, "http"@) {
        v
    } else if has_prefix(v, "////"@) {
        "https:"@ + v.skip(2)
    } else if has_prefix(v, "//"@) {
        "https:"@ + v
    } else if base_url.len() == 0 {
        v
    } else if url_join_of(base_url, v) is Some {
        url_join_of(base_url, v)->0
    } else {
        v
    }
}

/// A link of a page made absolute.
pub fn resolve_url(v: &str, base_url: &str) -> (r: String)
    ensures
        r@ == resolved_url(v@, base_url@),
{
    let cs = chars_of(v);
    if starts_with(&cs, &chars_of("http")) {
        return String::from_str(v);
    }
    if starts_with(&cs, &chars_of("////")) {
        proof {
            reveal_strlit("////");
        }
        let mut out = chars_of("https:");
        append_chars(&mut out, &cs[2..cs.len()]);
        assert(cs@.subrange(2, cs@.len() as int) =~= cs@.skip(2));
        return string_of(&out);
    }
    if starts_with(&cs, &chars_of("//")) {
        let mut out = chars_of("https:");
        append_chars(&mut out, &cs);
        return string_of(&out);
    }
    if base_url.is_empty() {
        return String::from_str(v);
    }
    match joined_url(base_url, v) {
        Some(j) => j,
        None => String::from_str(v),
    }
}

/// How many times a download is tried.
pub const MAX_ATTEMPTS: u32 = 3;

/// What to do after a download attempt.
#[derive(Debug, Clone, Copy, PartialEq, Eq, Structural)]
pub enum RetryStep {
    /// The response came: write it out.
    Proceed,
    /// The attempts are used up: report the failure.
    GiveUp,
    /// Wait this many milliseconds, then try again.
    Wait(u64),
}

/// After attempt number `attempt` (from 1): go on with a successful
/// response; give up after `MAX_ATTEMPTS` failures; else wait 100 ms times
/// the attempt number and try again.
pub fn download_retry(attempt: u32, succeeded: bool) -> (r: RetryStep)
    requires
        attempt >= 1,
    ensures
        succeeded ==> r == RetryStep::Proceed,
        !succeeded && attempt >= MAX_ATTEMPTS ==> r == RetryStep::GiveUp,
        !succeeded && attempt < MAX_ATTEMPTS ==> r == RetryStep::Wait((100 * attempt) as u64),
{
    if succeeded {
        RetryStep::Proceed
    } else if attempt >= MAX_ATTEMPTS {
        RetryStep::GiveUp
    } else {
        RetryStep::Wait(100 * attempt as u64)
    }
}

/// The part of a link after its last `/` (all of it where it has none).
pub open spec fn last_segment(s: Seq<char>) -> Seq<char>
    decreases s.len(),
{
    if s.len() == 0 {
        s
    } else if s.last() == '/' {
        seq![]
    } else {
        last_segment(s.drop_last()).push(s.last())
    }
}

/// Where a downloaded image is saved: the directory, `/`, and the link's last
/// segment made safe as a file name.
pub fn download_file_path(save_path: &str, url: &str) -> (r: String)
    ensures
        r@ == save_path@ + seq!['/'] + sanitized(last_segment(url@)),
{
    let cs = chars_of(url);
    let mut start: usize = cs.len();
    while start > 0 && cs[start - 1] != '/'
        invariant
            cs@ == url@,
            start <= cs@.len(),
            forall|j: int| start <= j < cs@.len() ==> cs@[j] != '/',
        decreases start,
    {
        start = start - 1;
    }
    proof {
        lemma_last_segment(cs@, start as int);
    }
    let raw = string_of(&cs[start..cs.len()]);
    let name = sanitize_filename(raw.as_str());
    let mut out = chars_of(save_path);
    out.push('/');
    append_chars(&mut out, &chars_of(name.as_str()));
    string_of(&out)
}

proof fn lemma_last_segment(s: Seq<char>, start: int)
    requires
        0 <= start <= s.len(),
        forall|j: int| start <= j < s.len() ==> s[j] != '/',
        start > 0 ==> s[start - 1] == '/',
    ensures
        last_segment(s) == s.subrange(start, s.len() as int),
    decreases s.len(),
{
    if s.len() > start {
        lemma_last_segment(s.drop_last(), start);
        assert(s.drop_last().subrange(start, s.len() - 1).push(s.last()) =~= s.subrange(
            start,
            s.len() as int,
        ));
    } else if s.len() > 0 {
        assert(s.subrange(start, s.len() as int) =~= Seq::<char>::empty());
    }
}

} // verus!
