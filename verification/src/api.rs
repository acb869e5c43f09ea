//! The API of the service: how a request is answered, and where the API listens.
use vstd::prelude::*;

use crate::decimal::{all_digits, digits_value, sign_split, decimal_above_u16, is_decimal_above_u16, parse_i32, parse_u16, parsed_i32, parsed_u16};
use crate::fetch::pair_texts;
use crate::opt::clamped_depth;

verus! {

/// The port of the API when none is given.
pub const DEFAULT_API_PORT: u16 = 6457;

/// The port of the management interface.
pub const DEFAULT_MANAGEMENT_PORT: u16 = 6458;

/// The depth of the hierarchy when a request names none.
pub const DEFAULT_DEPTH: i32 = 2;

/// The one path (compared without regard to ASCII case) that the API answers.
pub const CONNECTIONS: &'static str = "connections";

/// Commands to the API task.
#[derive(Debug)]
pub enum ApiCommand {
    End,
}

/// A request for the links of a page.
#[derive(Debug)]
pub struct ApiRequest {
    pub title: String,
}

/// Where a request for connections starts.
#[derive(Debug)]
pub enum StartFrom {
    /// The title of a wikipedia page.
    Title(String),
    /// The URL of a wikipedia page.
    Url(String),
}

/// The answer to a request.
#[derive(Debug)]
pub enum ApiReply {
    /// 404, with this body.
    NotFound { body: String },
    /// The connections of the root page, to this depth.
    Connections { depth: i32, root: Option<StartFrom> },
}

/// An IPv4 socket address.
#[derive(Debug, Clone, Copy, PartialEq, Eq)]
pub struct SocketAddress {
    pub octets: [u8; 4],
    pub port: u16,
}

/// The socket address of the API when none is given: port 6457 on the loopback address.
pub open spec fn is_default_api_socket(address: SocketAddress) -> bool {
    &&& address.octets@ == seq![127u8, 0u8, 0u8, 1u8]
    &&& address.port == DEFAULT_API_PORT
}

/// The socket address of the API when none is given: port 6457 on the loopback address.
pub fn default_api_socket() -> (address: SocketAddress)
    ensures
        is_default_api_socket(address),
{
    let address = SocketAddress { octets: [127, 0, 0, 1], port: DEFAULT_API_PORT };
    assert(address.octets@ =~= seq![127u8, 0u8, 0u8, 1u8]);
    address
}

/// ASCII uppercase letters lowered; every other character kept.
pub open spec fn ascii_lower(c: char) -> char {
    if 'A' <= c && c <= 'Z' {
        ((c as int) + 32) as char
    } else {
        c
    }
}

/// `s` with its ASCII uppercase letters lowered.
pub open spec fn lowered(s: Seq<char>) -> Seq<char> {
    s.map_values(|c: char| ascii_lower(c))
}

/// The number of `/` in `s`.
pub open spec fn slash_count(s: Seq<char>) -> nat
    decreases s.len(),
{
    if s.len() == 0 {
        0
    } else if s.last() == '/' {
        slash_count(s.drop_last()) + 1
    } else {
        slash_count(s.drop_last())
    }
}

/// The index of the first `/` in `s`, or -1 where there is none.
pub open spec fn first_slash(s: Seq<char>) -> int
    decreases s.len(),
{
    if s.len() == 0 {
        -1
    } else if first_slash(s.drop_last()) >= 0 {
        first_slash(s.drop_last())
    } else if s.last() == '/' {
        s.len() - 1
    } else {
        -1
    }
}

/// The path splits at `/` into exactly two components, the second of which is
/// `connections` in any ASCII case.
pub open spec fn is_connections_path(path: Seq<char>) -> bool {
    slash_count(path) == 1 && lowered(path.subrange(first_slash(path) + 1, path.len() as int))
        == CONNECTIONS@
}

/// The value of the last query pair with `key`, as a map collected from the pairs holds it.
pub open spec fn param_value(pairs: Seq<(Seq<char>, Seq<char>)>, key: Seq<char>) -> Option<
    Seq<char>,
>
    decreases pairs.len(),
{
    if pairs.len() == 0 {
        None
    } else if pairs.last().0 == key {
        Some(pairs.last().1)
    } else {
        param_value(pairs.drop_last(), key)
    }
}

/// The name-value pairs of a form-urlencoded query, in order, as
/// `url::form_urlencoded::parse` decodes them.
pub uninterp spec fn form_urlencoded_pairs(query: Seq<char>) -> Seq<(Seq<char>, Seq<char>)>;

/// The query pairs of a request: those of its query, or none.
pub open spec fn request_pairs(query: Option<Seq<char>>) -> Seq<(Seq<char>, Seq<char>)> {
    match query {
        Some(q) => form_urlencoded_pairs(q),
        None => Seq::empty(),
    }
}

/// The text of an optional query.
pub open spec fn query_text(query: Option<&str>) -> Option<Seq<char>> {
    match query {
        Some(q) => Some(q@),
        None => None,
    }
}

/// The depth a request asks for: its `depth` parameter (2 where there is none) read as an
/// `i32` (2 where it is not one), held to 1 ..= 6.
pub open spec fn requested_depth(pairs: Seq<(Seq<char>, Seq<char>)>) -> int {
    let text = match param_value(pairs, "depth"@) {
        Some(value) => value,
        None => "2"@,
    };
    let depth = match parsed_i32(text) {
        Some(d) => d as int,
        None => DEFAULT_DEPTH as int,
    };
    clamped_depth(depth)
}

/// The depth of a request, stated on its last `depth` parameter: where it reads as an `i32`
/// `d`, the depth is `d` inside 1 ..= 6, 1 below and 6 above; where there is no such
/// parameter, or it does not read as an `i32`, the depth is 2.
pub proof fn lemma_requested_depth(pairs: Seq<(Seq<char>, Seq<char>)>)
    ensures
        match param_value(pairs, "depth"@) {
            Some(text) => match parsed_i32(text) {
                Some(d) => requested_depth(pairs) == if d < 1 {
                    1
                } else if d > 6 {
                    6
                } else {
                    d as int
                },
                None => requested_depth(pairs) == 2,
            },
            None => requested_depth(pairs) == 2,
        },
        1 <= requested_depth(pairs) <= 6,
{
    reveal_strlit("2");
    let two = "2"@;
    assert(two.len() == 1 && two[0] == '2');
    assert(sign_split(two, true) == (false, two));
    assert(two.drop_last() =~= Seq::<char>::empty());
    assert(digits_value(Seq::<char>::empty()) == 0);
    assert(two.last() == '2');
    assert(('2' as int) - ('0' as int) == 2);
    assert(digits_value(two) == 2);
    assert(all_digits(two));
}

/// The root of a request: its `title` parameter where it has one, else its `url` parameter.
pub open spec fn root_matches(root: Option<StartFrom>, pairs: Seq<(Seq<char>, Seq<char>)>) -> bool {
    match param_value(pairs, "title"@) {
        Some(title) => root matches Some(StartFrom::Title(t)) && t@ == title,
        None => match param_value(pairs, "url"@) {
            Some(url) => root matches Some(StartFrom::Url(u)) && u@ == url,
            None => root is None,
        },
    }
}

/// Trusted: `url::form_urlencoded::parse` of the bytes of `query`, each pair made owned.
/// The contract claims only that the pairs, in order, are a function of the query (the name
/// `form_urlencoded_pairs`); the decoding is not stated.
#[verifier::external_body]
fn query_pairs(query: &str) -> (pairs: Vec<(String, String)>)
    ensures
        pair_texts(pairs@) == form_urlencoded_pairs(query@),
{
    url::form_urlencoded::parse(query.as_bytes()).into_owned().collect()
}

/// The value of the last pair with `key`.
fn find_param(pairs: &Vec<(String, String)>, key: &str) -> (value: Option<String>)
    ensures
        match value {
            Some(v) => param_value(pair_texts(pairs@), key@) == Some(v@),
            None => param_value(pair_texts(pairs@), key@) is None,
        },
{
    let wanted = String::from_str(key);
    let mut i = pairs.len();
    assert(pairs@.take(i as int) =~= pairs@);
    while i > 0
        invariant
            i <= pairs.len(),
            wanted@ == key@,
            param_value(pair_texts(pairs@), key@) == param_value(
                pair_texts(pairs@.take(i as int)),
                key@,
            ),
        decreases i,
    {
        let ghost seen = pair_texts(pairs@.take(i as int));
        assert(seen.drop_last() =~= pair_texts(pairs@.take(i - 1)));
        assert(seen.last() == (pairs@[i - 1].0@, pairs@[i - 1].1@));
        if pairs[i - 1].0 == wanted {
            let value = pairs[i - 1].1.clone();
            assert(param_value(seen, key@) == Some(value@));
            return Some(value);
        }
        i = i - 1;
    }
    assert(pair_texts(pairs@.take(0)) =~= Seq::<(Seq<char>, Seq<char>)>::empty());
    None
}

/// Whether `path` splits at `/` into exactly two components, the second of which is
/// `connections` in any ASCII case.
fn is_connections(path: &str) -> (found: bool)
    ensures
        found == is_connections_path(path@),
{
    let n = path.unicode_len();
    let mut slashes: usize = 0;
    let mut first: usize = n;
    let mut i: usize = 0;
    while i < n
        invariant
            i <= n,
            n == path@.len(),
            slashes == slash_count(path@.take(i as int)),
            slashes <= i,
            first_slash(path@.take(i as int)) == (if first < n {
                first as int
            } else {
                -1
            }),
            first <= n,
            first < n ==> first < i,
            slashes > 0 <==> first < n,
        decreases n - i,
    {
        let c = path.get_char(i);
        assert(path@.take(i + 1).drop_last() =~= path@.take(i as int));
        if c == '/' {
            if first == n {
                first = i;
            }
            slashes = slashes + 1;
        }
        i = i + 1;
    }
    assert(path@.take(n as int) =~= path@);
    if slashes != 1 {
        return false;
    }
    let target = CONNECTIONS;
    proof {
        reveal_strlit("connections");
    }
    let rest = n - first - 1;
    if rest != target.unicode_len() {
        assert(lowered(path@.subrange(first + 1, n as int)).len() == rest);
        return false;
    }
    let mut j: usize = 0;
    while j < rest
        invariant
            j <= rest,
            first + 1 + rest == n,
            n == path@.len(),
            rest == target@.len(),
            target@ == CONNECTIONS@,
            slash_count(path@) == 1,
            first_slash(path@) == first as int,
            forall|k: int|
                0 <= k < j ==> ascii_lower(#[trigger] path@[first + 1 + k]) == target@[k],
        decreases rest - j,
    {
        let c = path.get_char(first + 1 + j);
        let lower = if 'A' <= c && c <= 'Z' {
            ((c as u32) + 32) as u8 as char
        } else {
            c
        };
        assert(lower == ascii_lower(c));
        assert(lowered(path@.subrange(first + 1, n as int))[j as int] == ascii_lower(c));
        if lower != target.get_char(j) {
            assert(lowered(path@.subrange(first + 1, n as int))[j as int] != target@[j as int]);
            return false;
        }
        j = j + 1;
    }
    assert forall|k: int| 0 <= k < rest implies lowered(path@.subrange(first + 1, n as int))[k]
        == target@[k] by {
        assert(ascii_lower(path@[first + 1 + k]) == target@[k]);
    }
    assert(lowered(path@.subrange(first + 1, n as int)) =~= target@);
    true
}

/// Answers a request: `is_get` whether it is a GET, `path` its path and `query` its query
/// string. Only a GET of `/connections` (in any ASCII case) is answered, with the depth and
/// the root that its query asks for; a GET of another path is not found, with a body that
/// names the path; any other method is not found, with an empty body.
pub fn api_reply(is_get: bool, path: &str, query: Option<&str>) -> (reply: ApiReply)
    ensures
        !is_get ==> (reply matches ApiReply::NotFound { body } && body@ == Seq::<char>::empty()),
        is_get && !is_connections_path(path@) ==> (reply matches ApiReply::NotFound { body }
            && body@ == "Nothing found at "@ + path@),
        is_get && is_connections_path(path@) ==> (reply matches ApiReply::Connections {
            depth,
            root,
        } && 1 <= depth <= 6 && (match param_value(
            request_pairs(query_text(query)),
            "depth"@,
        ) {
            Some(text) => match parsed_i32(text) {
                Some(d) => depth == if d < 1 {
                    1
                } else if d > 6 {
                    6
                } else {
                    d
                },
                None => depth == 2,
            },
            None => depth == 2,
        }) && depth == requested_depth(request_pairs(query_text(query))) && root_matches(
            root,
            request_pairs(query_text(query)),
        )),
{
    if !is_get {
        return ApiReply::NotFound { body: String::new() };
    }
    if !is_connections(path) {
        let body = String::from_str("Nothing found at ").concat(path);
        return ApiReply::NotFound { body };
    }
    proof {
        lemma_requested_depth(request_pairs(query_text(query)));
    }
    let pairs: Vec<(String, String)> = match query {
        Some(q) => query_pairs(q),
        None => Vec::new(),
    };
    assert(pair_texts(pairs@) =~= request_pairs(query_text(query)));
    let depth_text = match find_param(&pairs, "depth") {
        Some(value) => value,
        None => String::from_str("2"),
    };
    let asked = match parse_i32(depth_text.as_str()) {
        Some(d) => d,
        None => DEFAULT_DEPTH,
    };
    let depth = if asked < 1 {
        1
    } else if asked > 6 {
        6
    } else {
        asked
    };
    let root = match find_param(&pairs, "title") {
        Some(title) => Some(StartFrom::Title(title)),
        None => match find_param(&pairs, "url") {
            Some(url) => Some(StartFrom::Url(url)),
            None => None,
        },
    };
    ApiReply::Connections { depth, root }
}

/// The pattern of an IPv4 socket address on the command line: an optional dotted address
/// (group 1, octets in groups 2 to 5), then an optional `:` and port (group 6, port in
/// group 7).
pub const V4_PATTERN: &'static str = r"((\d{1,3})\.(\d{1,3})\.(\d{1,3})\.(\d{1,3}))?(:(\d{1,5}))?";

/// The groups that the regular expression `pattern` captures in `text` at its first match
/// (group 0 is the whole match), or None where `pattern` is not a valid regular expression
/// or does not match.
pub uninterp spec fn regex_captures(pattern: Seq<char>, text: Seq<char>) -> Option<
    Seq<Option<Seq<char>>>,
>;

/// The texts of captured groups.
pub open spec fn capture_texts(groups: Seq<Option<String>>) -> Seq<Option<Seq<char>>> {
    groups.map_values(
        |group: Option<String>|
            match group {
                Some(text) => Some(text@),
                None => None,
            },
    )
}

/// Group `i` of captured groups, None where there is no such group.
pub open spec fn group(groups: Seq<Option<Seq<char>>>, i: int) -> Option<Seq<char>> {
    if 0 <= i < groups.len() {
        groups[i]
    } else {
        None
    }
}

/// Trusted: `regex::Regex::new(pattern)`, then `Regex::captures` of `text`, each group taken
/// as its text. The contract claims only that the groups are a function of the pattern and
/// the text (the name `regex_captures`), absent exactly where the pattern is refused or does
/// not match; the matching itself is not stated.
#[verifier::external_body]
fn captures_of(pattern: &str, text: &str) -> (groups: Option<Vec<Option<String>>>)
    ensures
        match groups {
            Some(g) => regex_captures(pattern@, text@) == Some(capture_texts(g@)),
            None => regex_captures(pattern@, text@) is None,
        },
{
    let regex = regex::Regex::new(pattern).ok()?;
    let captures = regex.captures(text)?;
    let mut groups = Vec::new();
    for i in 0..captures.len() {
        match captures.get(i) {
            Some(found) => groups.push(Some(found.as_str().to_string())),
            None => groups.push(None),
        }
    }
    Some(groups)
}

/// The groups that `V4_PATTERN` captures in `text`.
pub open spec fn v4_pattern_captures(text: Seq<char>) -> Option<Seq<Option<Seq<char>>>> {
    regex_captures(V4_PATTERN@, text)
}

/// A captured octet that reads as a number up to 255.
pub open spec fn is_octet(group: Option<Seq<char>>) -> bool {
    group matches Some(text) && parsed_u16(text) matches Some(value) && value <= 255
}

/// Groups captured from an address that the address reader accepts: where a dotted address
/// was found, its four octets are numbers up to 255, and where a port was found, it is not
/// a string of ASCII digits above 65535.
pub open spec fn v4_groups_accepted(groups: Seq<Option<Seq<char>>>) -> bool {
    &&& group(groups, 1) is Some ==> is_octet(group(groups, 2)) && is_octet(group(groups, 3))
        && is_octet(group(groups, 4)) && is_octet(group(groups, 5))
    &&& group(groups, 7) matches Some(port) ==> !is_decimal_above_u16(port)
}

/// The address reader accepts `address`: the pattern does not match it, or it matches with
/// accepted groups.
pub open spec fn v4_address_accepted(address: Seq<char>) -> bool {
    match v4_pattern_captures(address) {
        Some(groups) => v4_groups_accepted(groups),
        None => true,
    }
}

/// Group `i` of captured groups, None where there is no such group.
fn group_of(groups: &Vec<Option<String>>, i: usize) -> (found: Option<&String>)
    ensures
        match found {
            Some(text) => group(capture_texts(groups@), i as int) == Some(text@),
            None => group(capture_texts(groups@), i as int) is None,
        },
{
    if i < groups.len() {
        match &groups[i] {
            Some(text) => Some(text),
            None => None,
        }
    } else {
        None
    }
}

/// Whether a captured octet reads as a number up to 255.
fn octet_accepted(found: Option<&String>) -> (accepted: bool)
    ensures
        accepted == is_octet(
            match found {
                Some(text) => Some(text@),
                None => None,
            },
        ),
{
    match found {
        Some(text) => match parse_u16(text.as_str()) {
            Some(value) => value <= 255,
            None => false,
        },
        None => false,
    }
}

/// Whether groups captured from an address are accepted.
pub fn v4_groups_accepted_exec(groups: &Vec<Option<String>>) -> (accepted: bool)
    ensures
        accepted == v4_groups_accepted(capture_texts(groups@)),
{
    if group_of(groups, 1).is_some() {
        if !(octet_accepted(group_of(groups, 2)) && octet_accepted(group_of(groups, 3))
            && octet_accepted(group_of(groups, 4)) && octet_accepted(group_of(groups, 5))) {
            return false;
        }
    }
    match group_of(groups, 7) {
        Some(port) => !decimal_above_u16(port.as_str()),
        None => true,
    }
}

/// Reads an IPv4 socket address given on the command line. Where the pattern does not match
/// there is none; otherwise the API listens on the default socket address, whatever address
/// was given.
pub fn try_v4_address(address_from_command_line: &str) -> (address: Option<SocketAddress>)
    requires
        v4_address_accepted(address_from_command_line@),
    ensures
        address is Some <==> v4_pattern_captures(address_from_command_line@) is Some,
        address matches Some(a) ==> is_default_api_socket(a),
{
    match captures_of(V4_PATTERN, address_from_command_line) {
        Some(_) => Some(default_api_socket()),
        None => None,
    }
}

/// The socket address on which the API listens, given `addr` on the command line: the
/// default socket address.
pub fn get_address(addr: &str) -> (address: SocketAddress)
    requires
        v4_address_accepted(addr@),
    ensures
        is_default_api_socket(address),
{
    match try_v4_address(addr) {
        Some(socket) => socket,
        None => default_api_socket(),
    }
}

/// The socket address on which the API listens, given `addr` on the command line, or None
/// where the address is refused (an octet that is not a number up to 255, or a port of
/// ASCII digits above 65535).
pub fn checked_address(addr: &str) -> (address: Option<SocketAddress>)
    ensures
        address is Some <==> v4_address_accepted(addr@),
        address matches Some(a) ==> is_default_api_socket(a),
{
    match captures_of(V4_PATTERN, addr) {
        Some(groups) => {
            if v4_groups_accepted_exec(&groups) {
                Some(get_address(addr))
            } else {
                None
            }
        },
        None => Some(get_address(addr)),
    }
}

} // verus!
