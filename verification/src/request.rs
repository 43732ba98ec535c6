//! What goes into a request to the site: its address and its headers.

use vstd::prelude::*;
use vstd::utf8::encode_utf8;
use base64::Engine;
use crate::config::{Config, Secrets};
use crate::text::{decimal, push_decimal, push_str, replace_all, replace_all_str};

verus! {

/// The characters that a URL carries as they are: ASCII letters, digits,
/// `-`, `.`, `_` and `~`.
pub open spec fn is_unreserved(b: u8) -> bool {
    ||| 48 <= b <= 57
    ||| 65 <= b <= 90
    ||| 97 <= b <= 122
    ||| b == 45
    ||| b == 46
    ||| b == 95
    ||| b == 126
}

/// The upper-case hexadecimal digit for `d < 16`.
pub open spec fn hex_upper(d: int) -> char {
    if d < 10 {
        (48 + d) as char
    } else {
        (55 + d) as char
    }
}

/// Percent-encoding of `bytes`: every byte that is not unreserved becomes
/// `%` and its two upper-case hexadecimal digits.
pub open spec fn percent_encode(bytes: Seq<u8>) -> Seq<char>
    decreases bytes.len(),
{
    if bytes.len() == 0 {
        Seq::empty()
    } else {
        let b = bytes[0];
        (if is_unreserved(b) {
            seq![b as char]
        } else {
            seq!['%', hex_upper((b / 16) as int), hex_upper((b % 16) as int)]
        }) + percent_encode(bytes.drop_first())
    }
}

/// The character of the standard Base64 alphabet (RFC 4648) for the
/// six-bit value `v`: `A`-`Z`, `a`-`z`, `0`-`9`, `+`, `/`.
pub open spec fn base64_char(v: int) -> char {
    if v < 26 {
        (65 + v) as char
    } else if v < 52 {
        (71 + v) as char
    } else if v < 62 {
        (v - 4) as char
    } else if v == 62 {
        '+'
    } else {
        '/'
    }
}

/// The standard Base64 encoding of `b`: each group of three bytes becomes
/// four characters of six bits each; a last group of one or two bytes is
/// padded with zero bits and completed with `=`.
pub open spec fn base64_bytes(b: Seq<u8>) -> Seq<char>
    decreases b.len(),
{
    let x = if b.len() > 0 { b[0] as int } else { 0 };
    let y = if b.len() > 1 { b[1] as int } else { 0 };
    let z = if b.len() > 2 { b[2] as int } else { 0 };
    if b.len() == 0 {
        Seq::empty()
    } else if b.len() == 1 {
        seq![base64_char(x / 4), base64_char((x % 4) * 16), '=', '=']
    } else if b.len() == 2 {
        seq![
            base64_char(x / 4),
            base64_char((x % 4) * 16 + y / 16),
            base64_char((y % 16) * 4),
            '=',
        ]
    } else {
        seq![
            base64_char(x / 4),
            base64_char((x % 4) * 16 + y / 16),
            base64_char((y % 16) * 4 + z / 64),
            base64_char(z % 64),
        ] + base64_bytes(b.skip(3))
    }
}

/// The standard Base64 encoding (RFC 4648 alphabet, with `=` padding) of
/// the UTF-8 encoding of `text`.
pub open spec fn base64_standard(text: Seq<char>) -> Seq<char> {
    base64_bytes(encode_utf8(text))
}

/// `urlencoding::encode`: percent-encodes every byte of the UTF-8
/// encoding of `data` except ASCII letters, digits, `-`, `.`, `_` and `~`,
/// with upper-case hexadecimal digits.
#[verifier::external_body]
fn url_encode(data: &str) -> (r: String)
    ensures
        r@ == percent_encode(encode_utf8(data@)),
{
    urlencoding::encode(data).into_owned()
}

/// `base64::engine::Engine::encode` with the `STANDARD` engine: the
/// standard Base64 encoding, with padding, of the UTF-8 bytes of `text`.
/// It panics when the length of the encoding does not fit in `usize`,
/// which `requires` leaves out.
#[verifier::external_body]
fn base64_encode(text: &str) -> (r: String)
    requires
        encode_utf8(text@).len() / 3 * 4 + 4 <= usize::MAX,
    ensures
        r@ == base64_standard(text@),
{
    base64::engine::general_purpose::STANDARD.encode(text)
}

/// The `User-Agent` header: the configured agent with every `VERSION`
/// replaced by the version of the program.
pub fn user_agent(configured: &str, version: &str) -> (s: String)
    ensures
        s@ == replace_all(configured@, "VERSION"@, version@),
{
    proof {
        reveal_strlit("VERSION");
    }
    replace_all_str(configured, "VERSION", version)
}

/// The `Authorization` header for the account: `Basic` and the Base64 of
/// `username:api_key`.
pub fn authorization(secrets: &Secrets) -> (s: String)
    requires
        encode_utf8(secrets.username@ + ":"@ + secrets.api_key@).len() <= usize::MAX / 2,
    ensures
        s@ == "Basic "@ + base64_standard(secrets.username@ + ":"@ + secrets.api_key@),
{
    let mut credentials = secrets.username.clone();
    push_str(&mut credentials, ":");
    push_str(&mut credentials, secrets.api_key.as_str());
    let encoded = base64_encode(credentials.as_str());
    let mut s = String::from_str("Basic ");
    push_str(&mut s, encoded.as_str());
    s
}

/// A header of a request: its name and value.
pub struct Header {
    pub name: String,
    pub value: String,
}

/// The headers of every request to the site, in order: the user agent
/// and the authorization.
pub fn request_headers(configured_agent: &str, version: &str, secrets: &Secrets) -> (h: Vec<Header>)
    requires
        encode_utf8(secrets.username@ + ":"@ + secrets.api_key@).len() <= usize::MAX / 2,
    ensures
        h@.len() == 2,
        h@[0].name@ == "User-Agent"@,
        h@[0].value@ == replace_all(configured_agent@, "VERSION"@, version@),
        h@[1].name@ == "Authorization"@,
        h@[1].value@ == "Basic "@ + base64_standard(secrets.username@ + ":"@ + secrets.api_key@),
{
    let mut h: Vec<Header> = Vec::new();
    h.push(Header { name: String::from_str("User-Agent"), value: user_agent(configured_agent, version) });
    h.push(Header { name: String::from_str("Authorization"), value: authorization(secrets) });
    h
}

/// The address of one page of search results for `tags`.
pub open spec fn page_address(domain: Seq<char>, limit: nat, tags: Seq<char>, page: nat) -> Seq<char> {
    "https://"@ + domain + "/posts.json?limit="@ + decimal(limit) + "&tags="@ + percent_encode(
        encode_utf8(tags),
    ) + "&page="@ + decimal(page)
}

/// The address of page `page` of the results for `tags`, with the
/// configured number of posts per page.
pub fn page_url(config: &Config, tags: &str, page: usize) -> (s: String)
    ensures
        s@ == page_address(config.domain@, config.posts_per_page as nat, tags@, page as nat),
{
    let mut s = String::from_str("https://");
    push_str(&mut s, config.domain.as_str());
    push_str(&mut s, "/posts.json?limit=");
    push_decimal(&mut s, config.posts_per_page as u64);
    push_str(&mut s, "&tags=");
    let encoded = url_encode(tags);
    push_str(&mut s, encoded.as_str());
    push_str(&mut s, "&page=");
    push_decimal(&mut s, page as u64);
    s
}

/// The addresses of page `page` of the results of each query, in order.
pub fn page_urls(config: &Config, queries: &Vec<String>, page: usize) -> (v: Vec<String>)
    ensures
        v@.len() == queries@.len(),
        forall|i: int|
            0 <= i < queries@.len() ==> #[trigger] v@[i]@ == page_address(
                config.domain@,
                config.posts_per_page as nat,
                queries@[i]@,
                page as nat,
            ),
{
    let mut v: Vec<String> = Vec::new();
    let mut k: usize = 0;
    while k < queries.len()
        invariant
            k <= queries@.len(),
            v@.len() == k,
            forall|i: int|
                0 <= i < k ==> #[trigger] v@[i]@ == page_address(
                    config.domain@,
                    config.posts_per_page as nat,
                    queries@[i]@,
                    page as nat,
                ),
        decreases queries.len() - k,
    {
        v.push(page_url(config, queries[k].as_str(), page));
        k += 1;
    }
    v
}

/// What a run of requests made one after the other does next.
#[derive(PartialEq, Eq, Structural, Clone, Copy, Debug)]
pub enum RequestStep {
    /// Send the request at `index`.
    Send { index: usize },
    /// Every request succeeded.
    Complete,
    /// A request failed: the rest are not sent.
    Stop,
}

/// The next step of a run of `total` requests sent in order, of which the
/// first `succeeded` have succeeded and, when `failed`, the one after them
/// failed: a failure stops the run, the next request is sent while some
/// remain, and the run is complete once all of them have succeeded.
pub fn next_request(succeeded: usize, failed: bool, total: usize) -> (s: RequestStep)
    requires
        succeeded <= total,
        failed ==> succeeded < total,
    ensures
        failed ==> s == RequestStep::Stop,
        !failed && succeeded < total ==> s == (RequestStep::Send { index: succeeded }),
        !failed && succeeded == total ==> s == RequestStep::Complete,
{
    if failed {
        RequestStep::Stop
    } else if succeeded < total {
        RequestStep::Send { index: succeeded }
    } else {
        RequestStep::Complete
    }
}

} // verus!
