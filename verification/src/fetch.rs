//! Pages fetched from the wikipedia API (or the local cache): the links a page holds, how a
//! response is classified, how lagging replicas are retried, and where a page is cached.
use vstd::prelude::*;

use crate::entry::{Digest, Entry, md5_of};

verus! {

/// The message of a payload that is neither a page, a lag report nor a missing title.
pub const PARSE_ERROR: &'static str = "Unknown wikipedia payload";

/// The number of times a lagging request is sent again before the lag is reported.
pub const LAG_RETRIES: u32 = 4;

/// A link of a page, as the API reports it.
#[derive(Debug)]
pub struct Link {
    /// The namespace of the linked page; 0 is the main (article) namespace.
    pub ns: i32,
    pub exists: Option<String>,
    /// The title of the linked page.
    pub title: String,
}

/// The links section of a parsed page.
#[derive(Debug)]
pub struct Links {
    pub title: String,
    pub pageid: u32,
    pub links: Vec<Link>,
}

/// A successfully parsed page.
#[derive(Debug)]
pub struct Page {
    pub parse: Links,
}

/// A page reduced to what the slabs hold: its digest, its title and the titles of the
/// articles it links to.
#[derive(Debug)]
pub struct FetchEntry {
    pub digest: Digest,
    pub title: String,
    pub outbound: Vec<String>,
}

/// Why a page could not be had.
#[derive(Debug)]
pub enum FetchError {
    /// Reading or writing the local cache failed; the message of the error.
    IO(String),
    /// The HTTP client failed; the message of the error.
    Reqwest(String),
    /// The API answered with this HTTP status other than 200.
    Http(u16),
    /// The API reported replication lag; the lag in seconds, as the bits of an `f32`.
    Lag(u32),
    /// The requested title does not exist.
    MissingTitle,
    /// The payload could not be understood.
    Parse(String),
}

pub type FetchResult = Result<FetchEntry, FetchError>;

/// A link into the main (article) namespace.
pub open spec fn is_article_link(link: Link) -> bool {
    link.ns == 0
}

/// The title of a link.
pub open spec fn link_title(link: Link) -> Seq<char> {
    link.title@
}

/// The article links among `links`, in order.
pub open spec fn article_links(links: Seq<Link>) -> Seq<Link> {
    links.filter(|link: Link| is_article_link(link))
}

/// The titles of `links`, in order.
pub open spec fn titles_of(links: Seq<Link>) -> Seq<Seq<char>> {
    links.map_values(|link: Link| link_title(link))
}

/// The titles of the article links among `links`, in order.
pub open spec fn article_titles(links: Seq<Link>) -> Seq<Seq<char>> {
    titles_of(article_links(links))
}

/// The article links are exactly the links in namespace 0, in order.
proof fn lemma_article_links_are_namespace_zero(links: Seq<Link>)
    ensures
        article_links(links) == links.filter(|link: Link| link.ns == 0),
    decreases links.len(),
{
    reveal_with_fuel(Seq::filter, 1);
    if links.len() > 0 {
        lemma_article_links_are_namespace_zero(links.drop_last());
    }
}

/// The titles kept from a page are exactly the titles of its links in namespace 0, in
/// order: no link outside namespace 0 gives a title, and every link in namespace 0 does.
pub proof fn lemma_article_titles_are_namespace_zero(links: Seq<Link>)
    ensures
        article_titles(links) == links.filter(|link: Link| link.ns == 0).map_values(
            |link: Link| link.title@,
        ),
{
    lemma_article_links_are_namespace_zero(links);
    let kept = links.filter(|link: Link| link.ns == 0);
    assert(titles_of(kept) =~= kept.map_values(|link: Link| link.title@));
}

/// The views of a sequence of strings.
pub open spec fn texts(strings: Seq<String>) -> Seq<Seq<char>> {
    strings.map_values(|s: String| s@)
}

/// Reduces a parsed page to its entry: the digest of its title, its title, and the titles of
/// the pages it links to in the main namespace, in the order the page lists them.
pub fn extract_links_from(parsed: Page) -> (result: FetchResult)
    ensures
        result matches Ok(entry) && {
            &&& entry.digest@ == md5_of(parsed.parse.title@)
            &&& entry.title@ == parsed.parse.title@
            &&& texts(entry.outbound@) == article_titles(parsed.parse.links@)
            &&& texts(entry.outbound@) == parsed.parse.links@.filter(|link: Link| link.ns == 0).map_values(
                |link: Link| link.title@,
            )
        },
{
    proof {
        lemma_article_titles_are_namespace_zero(parsed.parse.links@);
    }
    let links = &parsed.parse.links;
    let mut outbound: Vec<String> = Vec::new();
    for i in 0..links.len()
        invariant
            texts(outbound@) == article_titles(links@.take(i as int)),
    {
        let ghost before = links@.take(i as int);
        let ghost after = links@.take(i + 1);
        proof {
            reveal_with_fuel(Seq::filter, 1);
            assert(after.drop_last() =~= before);
            assert(after.last() == links@[i as int]);
        }
        if links[i].ns == 0 {
            let ghost prev = outbound@;
            outbound.push(links[i].title.clone());
            proof {
                assert(article_links(after) == article_links(before).push(links@[i as int]));
                assert(titles_of(article_links(before).push(links@[i as int])) =~= titles_of(
                    article_links(before),
                ).push(links@[i as int].title@));
                assert(texts(outbound@) =~= texts(prev).push(links@[i as int].title@));
            }
        } else {
            assert(article_links(after) == article_links(before));
        }
    }
    assert(links@.take(links@.len() as int) =~= links@);
    let digest = Entry::get_digest(parsed.parse.title.as_str());
    Ok(FetchEntry { digest, title: parsed.parse.title, outbound })
}

/// What a payload is: `page` is the payload read as a page, where it reads as one; `lag` the
/// lag reported by the payload read as a lag report (as the bits of an `f32`), where it reads
/// as one; `missing_title` whether it reads as a missing-title report. A page is taken
/// first, then a lag report, then a missing title; anything else is a parse error.
pub fn classify_payload(page: Option<Page>, lag: Option<u32>, missing_title: bool) -> (result:
    FetchResult)
    ensures
        page matches Some(p) ==> (result matches Ok(entry) && {
            &&& entry.digest@ == md5_of(p.parse.title@)
            &&& entry.title@ == p.parse.title@
            &&& texts(entry.outbound@) == article_titles(p.parse.links@)
            &&& texts(entry.outbound@) == p.parse.links@.filter(|link: Link| link.ns == 0).map_values(
                |link: Link| link.title@,
            )
        }),
        page is None && lag is Some ==> (result matches Err(FetchError::Lag(l)) && l == lag->0),
        page is None && lag is None && missing_title ==> result matches Err(
            FetchError::MissingTitle,
        ),
        page is None && lag is None && !missing_title ==> (result matches Err(
            FetchError::Parse(message),
        ) && message@ == PARSE_ERROR@),
{
    if let Some(parsed) = page {
        return extract_links_from(parsed);
    }
    if let Some(lag_value) = lag {
        return Err(FetchError::Lag(lag_value));
    }
    if missing_title {
        return Err(FetchError::MissingTitle);
    }
    Err(FetchError::Parse(String::from_str(PARSE_ERROR)))
}

/// The URL that `url::Url::parse_with_params` makes of `root` with the query `params`, as
/// text, or None where `root` is not a URL.
pub uninterp spec fn url_with_params(root: Seq<char>, params: Seq<(Seq<char>, Seq<char>)>) -> Option<
    Seq<char>,
>;

/// The views of a sequence of string pairs.
pub open spec fn pair_texts(pairs: Seq<(String, String)>) -> Seq<(Seq<char>, Seq<char>)> {
    pairs.map_values(|pair: (String, String)| (pair.0@, pair.1@))
}

/// The query that asks the API for the links of the page `title`.
pub open spec fn links_query(title: Seq<char>) -> Seq<(Seq<char>, Seq<char>)> {
    seq![("action"@, "parse"@), ("format"@, "json"@), ("page"@, title), ("prop"@, "links"@)]
}

/// Trusted: `url::Url::parse_with_params(root, params)`, then `Url::as_str` of the parsed URL.
/// The contract claims only that the text is a function of `root` and `params` (the name
/// `url_with_params`), absent exactly where parsing fails; the URL grammar is not stated.
#[verifier::external_body]
fn parse_url_with_params(root: &str, params: &Vec<(String, String)>) -> (url: Option<String>)
    ensures
        match url {
            Some(text) => url_with_params(root@, pair_texts(params@)) == Some(text@),
            None => url_with_params(root@, pair_texts(params@)) is None,
        },
{
    match url::Url::parse_with_params(root, params.iter()) {
        Ok(parsed) => Some(parsed.as_str().to_string()),
        Err(_) => None,
    }
}

/// The query pairs that ask the API for the links of the page `title`.
fn links_query_pairs(title: &str) -> (pairs: Vec<(String, String)>)
    ensures
        pair_texts(pairs@) == links_query(title@),
{
    let mut pairs: Vec<(String, String)> = Vec::new();
    pairs.push((String::from_str("action"), String::from_str("parse")));
    pairs.push((String::from_str("format"), String::from_str("json")));
    pairs.push((String::from_str("page"), String::from_str(title)));
    pairs.push((String::from_str("prop"), String::from_str("links")));
    assert(pair_texts(pairs@) =~= links_query(title@));
    pairs
}

/// The API URL that asks `root_url` for the links of the page `title`.
pub fn build_url(root_url: &str, title: &str) -> (url: String)
    requires
        url_with_params(root_url@, links_query(title@)) is Some,
    ensures
        url_with_params(root_url@, links_query(title@)) == Some(url@),
{
    let pairs = links_query_pairs(title);
    let url = parse_url_with_params(root_url, &pairs);
    url.unwrap()
}

/// The API URL that asks `root_url` for the links of the page `title`, or None where
/// `root_url` is not a URL.
pub fn try_build_url(root_url: &str, title: &str) -> (url: Option<String>)
    ensures
        match url {
            Some(text) => url_with_params(root_url@, links_query(title@)) == Some(text@),
            None => url_with_params(root_url@, links_query(title@)) is None,
        },
{
    let pairs = links_query_pairs(title);
    match parse_url_with_params(root_url, &pairs) {
        Some(_) => Some(build_url(root_url, title)),
        None => None,
    }
}

/// The lowercase hexadecimal digit of `n`, for `n < 16`.
pub open spec fn hex_digit(n: u8) -> char {
    if n < 10 {
        (n + 48) as char
    } else {
        (n - 10 + 97) as char
    }
}

/// The two lowercase hexadecimal digits of a byte.
pub open spec fn hex_byte(b: u8) -> Seq<char> {
    seq![hex_digit(b / 16), hex_digit(b % 16)]
}

/// The lowercase hexadecimal digit of `n`.
fn hex_digit_of(n: u8) -> (digit: &'static str)
    requires
        n < 16,
    ensures
        digit@ == seq![hex_digit(n)],
{
    let digits = "0123456789abcdef";
    proof {
        reveal_strlit("0123456789abcdef");
    }
    let digit = digits.substring_char(n as usize, n as usize + 1);
    assert(digit@ =~= seq![hex_digit(n)]);
    digit
}

/// The two lowercase hexadecimal digits of a byte.
pub fn hex_of(b: u8) -> (text: String)
    ensures
        text@ == hex_byte(b),
{
    let mut text = String::from_str(hex_digit_of(b / 16));
    text.append(hex_digit_of(b % 16));
    assert(text@ =~= hex_byte(b));
    text
}

/// The directories, below the cache directory, that hold the cached page `title`: a
/// hierarchy built from the 16 low bits of the title's digest, 256 directories named by the
/// second byte, each holding 256 named by the first byte.
pub fn get_cache_directories_from(title: &str) -> (dirs: Vec<String>)
    ensures
        texts(dirs@) == seq![hex_byte(md5_of(title@)[1]), hex_byte(md5_of(title@)[0])],
{
    let digest = Entry::get_digest(title);
    let mut dirs: Vec<String> = Vec::new();
    dirs.push(hex_of(digest[1]));
    dirs.push(hex_of(digest[0]));
    assert(texts(dirs@) =~= seq![hex_byte(md5_of(title@)[1]), hex_byte(md5_of(title@)[0])]);
    dirs
}

/// Distinct bytes have distinct hexadecimal names, so pages whose digests differ in the
/// bytes that name their directories are cached in different directories.
pub proof fn lemma_hex_byte_injective(a: u8, b: u8)
    ensures
        hex_byte(a) == hex_byte(b) ==> a == b,
{
    if hex_byte(a) == hex_byte(b) {
        assert(hex_byte(a)[0] == hex_byte(b)[0]);
        assert(hex_byte(a)[1] == hex_byte(b)[1]);
        assert(a / 16 == b / 16);
        assert(a % 16 == b % 16);
    }
}

/// The HTTP status of a successful response.
pub const HTTP_OK: u16 = 200;

/// What an HTTP response with `status` gives: its body is read where the status is 200
/// (OK); any other status is the error `Http(status)`.
pub fn check_status(status: u16) -> (result: Result<(), FetchError>)
    ensures
        status == HTTP_OK <==> result is Ok,
        status != HTTP_OK ==> (result matches Err(FetchError::Http(s)) && s == status),
{
    if status == HTTP_OK {
        Ok(())
    } else {
        Err(FetchError::Http(status))
    }
}

/// The path of the API below the domain.
pub const API_PATH: &'static str = "w/api.php";

/// The URL of the API for `domain`: the API path appended, with a `/` between them unless
/// the domain already ends with one.
pub open spec fn api_root(domain: Seq<char>) -> Seq<char> {
    if domain.len() > 0 && domain.last() == '/' {
        domain + API_PATH@
    } else {
        domain + "/"@ + API_PATH@
    }
}

/// The URL of the API for `domain`, such as `https://en.wikipedia.org/w/api.php` for
/// `https://en.wikipedia.org/`.
pub fn get_api_root(domain: &str) -> (url: String)
    ensures
        url@ == api_root(domain@),
{
    let mut url = String::from_str(domain);
    let n = domain.unicode_len();
    if n == 0 || domain.get_char(n - 1) != '/' {
        url.append("/");
    }
    url.append(API_PATH);
    assert(url@ =~= api_root(domain@));
    url
}

/// A character with the Unicode property White_Space, as `char::is_whitespace` has it.
pub open spec fn is_white_space(c: char) -> bool {
    ||| '\u{9}' <= c && c <= '\u{d}'
    ||| c == ' '
    ||| c == '\u{85}'
    ||| c == '\u{a0}'
    ||| c == '\u{1680}'
    ||| '\u{2000}' <= c && c <= '\u{200a}'
    ||| c == '\u{2028}'
    ||| c == '\u{2029}'
    ||| c == '\u{202f}'
    ||| c == '\u{205f}'
    ||| c == '\u{3000}'
}

/// `s` without its leading and trailing white space, as `str::trim` gives it.
pub open spec fn trimmed(s: Seq<char>) -> Seq<char>
    decreases s.len(),
{
    if s.len() > 0 && is_white_space(s[0]) {
        trimmed(s.drop_first())
    } else if s.len() > 0 && is_white_space(s.last()) {
        trimmed(s.drop_last())
    } else {
        s
    }
}

/// Whether `c` has the Unicode property White_Space.
fn white_space(c: char) -> (found: bool)
    ensures
        found == is_white_space(c),
{
    ('\u{9}' <= c && c <= '\u{d}') || c == ' ' || c == '\u{85}' || c == '\u{a0}' || c
        == '\u{1680}' || ('\u{2000}' <= c && c <= '\u{200a}') || c == '\u{2028}' || c
        == '\u{2029}' || c == '\u{202f}' || c == '\u{205f}' || c == '\u{3000}'
}

/// The title of a requested page: the request without its leading and trailing white
/// space.
pub fn requested_title(title: &str) -> (trimmed_title: String)
    ensures
        trimmed_title@ == trimmed(title@),
{
    let n = title.unicode_len();
    let mut start: usize = 0;
    let mut end: usize = n;
    assert(title@ =~= title@.subrange(0, n as int));
    while start < end && white_space(title.get_char(start))
        invariant
            start <= end <= n,
            n == title@.len(),
            trimmed(title@) == trimmed(title@.subrange(start as int, end as int)),
        decreases end - start,
    {
        assert(title@.subrange(start as int, end as int)[0] == title@[start as int]);
        assert(title@.subrange(start as int, end as int).drop_first() =~= title@.subrange(
            start + 1,
            end as int,
        ));
        start = start + 1;
    }
    while start < end && white_space(title.get_char(end - 1))
        invariant
            start <= end <= n,
            n == title@.len(),
            start < end ==> !is_white_space(title@[start as int]),
            trimmed(title@) == trimmed(title@.subrange(start as int, end as int)),
        decreases end - start,
    {
        let ghost part = title@.subrange(start as int, end as int);
        assert(part[0] == title@[start as int]);
        assert(part.drop_last() =~= title@.subrange(start as int, end - 1));
        end = end - 1;
    }
    let ghost part = title@.subrange(start as int, end as int);
    if start < end {
        assert(part[0] == title@[start as int]);
        assert(part.last() == title@[end - 1]);
    }
    String::from_str(title.substring_char(start, end))
}

/// What to do with a response while lagging requests are retried.
#[derive(Debug, PartialEq, Eq, Structural)]
pub enum MaxlagAction {
    /// The page arrived: cache it and hand the response over.
    CacheAndReturn,
    /// Hand the response over as it is.
    Return,
    /// Wait out the lag, fetch the page again and look at the new response.
    RetryAfterDelay,
}

/// The retries left for a request whose replicas lag.
pub struct MaxlagRetry {
    pub tries: u32,
}

/// Whether a response reports lag.
pub open spec fn is_lag(response: FetchResult) -> bool {
    response matches Err(FetchError::Lag(_))
}

/// The action taken on a response with `tries` retries left, and the retries left afterwards:
/// a page is cached and returned, lag is retried while retries are left, and anything else
/// is returned.
pub open spec fn maxlag_step(tries: nat, response_is_page: bool, response_is_lag: bool) -> (
    MaxlagAction,
    nat,
) {
    if response_is_page {
        (MaxlagAction::CacheAndReturn, tries)
    } else if response_is_lag {
        if tries == 0 {
            (MaxlagAction::Return, tries)
        } else {
            (MaxlagAction::RetryAfterDelay, (tries - 1) as nat)
        }
    } else {
        (MaxlagAction::Return, tries)
    }
}

impl MaxlagRetry {
    /// The retry state of a fresh request.
    pub fn new() -> (state: MaxlagRetry)
        ensures
            state.tries == LAG_RETRIES,
    {
        MaxlagRetry { tries: LAG_RETRIES }
    }

    /// Decides what to do with `response`, and counts a retry when it is one.
    pub fn next_action(&mut self, response: &FetchResult) -> (action: MaxlagAction)
        ensures
            (action, final(self).tries as nat) == maxlag_step(
                old(self).tries as nat,
                response is Ok,
                is_lag(*response),
            ),
            response is Ok ==> action == MaxlagAction::CacheAndReturn && final(self).tries == old(
                self,
            ).tries,
            (response matches Err(FetchError::Lag(_))) && old(self).tries > 0 ==> action
                == MaxlagAction::RetryAfterDelay && final(self).tries == old(self).tries - 1,
            (response matches Err(FetchError::Lag(_))) && old(self).tries == 0 ==> action
                == MaxlagAction::Return && final(self).tries == 0,
            response is Err && !(response matches Err(FetchError::Lag(_))) ==> action
                == MaxlagAction::Return && final(self).tries == old(self).tries,
    {
        match response {
            Ok(_) => MaxlagAction::CacheAndReturn,
            Err(FetchError::Lag(_)) => {
                if self.tries == 0 {
                    MaxlagAction::Return
                } else {
                    self.tries = self.tries - 1;
                    MaxlagAction::RetryAfterDelay
                }
            },
            Err(_) => MaxlagAction::Return,
        }
    }
}

/// The number of retries made, from `tries` retries left, when every response reports lag.
pub open spec fn retries_under_lag(tries: nat) -> nat
    decreases tries,
{
    let (action, left) = maxlag_step(tries, false, true);
    if action == MaxlagAction::RetryAfterDelay {
        1 + retries_under_lag(left)
    } else {
        0
    }
}

/// Under persistent lag a request is retried exactly as many times as it has retries left,
/// and then the lag is returned: a fresh request is retried `LAG_RETRIES` times.
pub proof fn lemma_lag_retries_bounded(tries: nat)
    ensures
        retries_under_lag(tries) == tries,
        maxlag_step(0, false, true).0 == MaxlagAction::Return,
    decreases tries,
{
    if tries > 0 {
        lemma_lag_retries_bounded((tries - 1) as nat);
    }
}

/// A page is cached and returned whatever retries are left, after any number of retries.
pub proof fn lemma_page_always_cached(tries: nat, response_is_lag: bool)
    ensures
        maxlag_step(tries, true, response_is_lag) == (MaxlagAction::CacheAndReturn, tries),
{
}

/// A lag response is retried exactly while retries are left, and each retry uses one.
pub proof fn lemma_lag_uses_one_retry(tries: nat)
    ensures
        tries > 0 ==> maxlag_step(tries, false, true) == (
            MaxlagAction::RetryAfterDelay,
            (tries - 1) as nat,
        ),
        tries == 0 ==> maxlag_step(tries, false, true) == (MaxlagAction::Return, 0nat),
        maxlag_step(tries, false, false) == (MaxlagAction::Return, tries),
{
}

/// A response that is not lag ends the retries at once, whatever retries are left.
pub proof fn lemma_no_retry_without_lag(tries: nat, response_is_page: bool)
    ensures
        maxlag_step(tries, response_is_page, false).0 != MaxlagAction::RetryAfterDelay,
        response_is_page ==> maxlag_step(tries, response_is_page, true).0
            == MaxlagAction::CacheAndReturn,
{
}

} // verus!
