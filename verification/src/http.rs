//! What the REST clients (Schema Registry, Kafka Connect) send and how they
//! read the answers: requests, Basic authentication, percent-encoded path
//! segments, base URLs, JSON bodies.

use vstd::prelude::*;

use crate::text::{push_char, strs, trim, trim_str};

verus! {

/// HTTP verbs the clients use.
#[derive(Debug, Clone, Copy, PartialEq, Eq, Structural)]
pub enum HttpMethod {
    Get,
    Post,
    Put,
    Delete,
}

/// A request to send: verb, URL, headers.
#[derive(Debug, Clone)]
pub struct HttpRequest {
    pub method: HttpMethod,
    pub url: String,
    pub headers: Vec<(String, String)>,
}

/// What came back: status code and body text.
#[derive(Debug, Clone)]
pub struct HttpResponse {
    pub status: u16,
    pub body: String,
}

// ---------- base64 ----------

pub open spec fn b64_table() -> Seq<char> {
    "ABCDEFGHIJKLMNOPQRSTUVWXYZabcdefghijklmnopqrstuvwxyz0123456789+/"@
}

/// The base64 digit of a 6-bit value.
pub open spec fn b64_digit(v: int) -> char {
    b64_table()[v]
}

/// Four output characters for up to three input bytes, `=`-padded.
pub open spec fn b64_group(g: Seq<u8>) -> Seq<char> {
    let b0 = g[0] as int;
    let b1 = if g.len() > 1 { g[1] as int } else { 0 };
    let b2 = if g.len() > 2 { g[2] as int } else { 0 };
    let n = b0 * 65536 + b1 * 256 + b2;
    seq![
        b64_digit((n / 262144) % 64),
        b64_digit((n / 4096) % 64),
        if g.len() > 1 { b64_digit((n / 64) % 64) } else { '=' },
        if g.len() > 2 { b64_digit(n % 64) } else { '=' },
    ]
}

/// Standard base64 (RFC 4648 alphabet, with padding).
pub open spec fn base64(data: Seq<u8>) -> Seq<char>
    decreases data.len(),
{
    if data.len() == 0 {
        Seq::empty()
    } else if data.len() <= 3 {
        b64_group(data)
    } else {
        b64_group(data.subrange(0, 3)) + base64(data.subrange(3, data.len() as int))
    }
}

/// The base64 alphabet: 0..25 are `A`..`Z`, 26..51 `a`..`z`, 52..61
/// `0`..`9`, then `+` and `/`.
pub proof fn law_b64_alphabet(v: int)
    requires
        0 <= v < 64,
    ensures
        0 <= v < 26 ==> b64_digit(v) as int == 'A' as int + v,
        26 <= v < 52 ==> b64_digit(v) as int == 'a' as int + (v - 26),
        52 <= v < 62 ==> b64_digit(v) as int == '0' as int + (v - 52),
        v == 62 ==> b64_digit(v) == '+',
        v == 63 ==> b64_digit(v) == '/',
{
    reveal_strlit("ABCDEFGHIJKLMNOPQRSTUVWXYZabcdefghijklmnopqrstuvwxyz0123456789+/");
    assert(b64_table().len() == 64);
    assert(b64_table()[0] == 'A');
    assert(b64_table()[1] == 'B');
    assert(b64_table()[2] == 'C');
    assert(b64_table()[3] == 'D');
    assert(b64_table()[4] == 'E');
    assert(b64_table()[5] == 'F');
    assert(b64_table()[6] == 'G');
    assert(b64_table()[7] == 'H');
    assert(b64_table()[8] == 'I');
    assert(b64_table()[9] == 'J');
    assert(b64_table()[10] == 'K');
    assert(b64_table()[11] == 'L');
    assert(b64_table()[12] == 'M');
    assert(b64_table()[13] == 'N');
    assert(b64_table()[14] == 'O');
    assert(b64_table()[15] == 'P');
    assert(b64_table()[16] == 'Q');
    assert(b64_table()[17] == 'R');
    assert(b64_table()[18] == 'S');
    assert(b64_table()[19] == 'T');
    assert(b64_table()[20] == 'U');
    assert(b64_table()[21] == 'V');
    assert(b64_table()[22] == 'W');
    assert(b64_table()[23] == 'X');
    assert(b64_table()[24] == 'Y');
    assert(b64_table()[25] == 'Z');
    assert(b64_table()[26] == 'a');
    assert(b64_table()[27] == 'b');
    assert(b64_table()[28] == 'c');
    assert(b64_table()[29] == 'd');
    assert(b64_table()[30] == 'e');
    assert(b64_table()[31] == 'f');
    assert(b64_table()[32] == 'g');
    assert(b64_table()[33] == 'h');
    assert(b64_table()[34] == 'i');
    assert(b64_table()[35] == 'j');
    assert(b64_table()[36] == 'k');
    assert(b64_table()[37] == 'l');
    assert(b64_table()[38] == 'm');
    assert(b64_table()[39] == 'n');
    assert(b64_table()[40] == 'o');
    assert(b64_table()[41] == 'p');
    assert(b64_table()[42] == 'q');
    assert(b64_table()[43] == 'r');
    assert(b64_table()[44] == 's');
    assert(b64_table()[45] == 't');
    assert(b64_table()[46] == 'u');
    assert(b64_table()[47] == 'v');
    assert(b64_table()[48] == 'w');
    assert(b64_table()[49] == 'x');
    assert(b64_table()[50] == 'y');
    assert(b64_table()[51] == 'z');
    assert(b64_table()[52] == '0');
    assert(b64_table()[53] == '1');
    assert(b64_table()[54] == '2');
    assert(b64_table()[55] == '3');
    assert(b64_table()[56] == '4');
    assert(b64_table()[57] == '5');
    assert(b64_table()[58] == '6');
    assert(b64_table()[59] == '7');
    assert(b64_table()[60] == '8');
    assert(b64_table()[61] == '9');
    assert(b64_table()[62] == '+');
    assert(b64_table()[63] == '/');
}

proof fn lemma_b64_digits_are_not_padding()
    ensures
        forall|i: int| 0 <= i < 64 ==> #[trigger] b64_table()[i] != '=',
{
    reveal_strlit("ABCDEFGHIJKLMNOPQRSTUVWXYZabcdefghijklmnopqrstuvwxyz0123456789+/");
    assert(b64_table().len() == 64);
    assert(b64_table()[0] == 'A');
    assert(b64_table()[1] == 'B');
    assert(b64_table()[2] == 'C');
    assert(b64_table()[3] == 'D');
    assert(b64_table()[4] == 'E');
    assert(b64_table()[5] == 'F');
    assert(b64_table()[6] == 'G');
    assert(b64_table()[7] == 'H');
    assert(b64_table()[8] == 'I');
    assert(b64_table()[9] == 'J');
    assert(b64_table()[10] == 'K');
    assert(b64_table()[11] == 'L');
    assert(b64_table()[12] == 'M');
    assert(b64_table()[13] == 'N');
    assert(b64_table()[14] == 'O');
    assert(b64_table()[15] == 'P');
    assert(b64_table()[16] == 'Q');
    assert(b64_table()[17] == 'R');
    assert(b64_table()[18] == 'S');
    assert(b64_table()[19] == 'T');
    assert(b64_table()[20] == 'U');
    assert(b64_table()[21] == 'V');
    assert(b64_table()[22] == 'W');
    assert(b64_table()[23] == 'X');
    assert(b64_table()[24] == 'Y');
    assert(b64_table()[25] == 'Z');
    assert(b64_table()[26] == 'a');
    assert(b64_table()[27] == 'b');
    assert(b64_table()[28] == 'c');
    assert(b64_table()[29] == 'd');
    assert(b64_table()[30] == 'e');
    assert(b64_table()[31] == 'f');
    assert(b64_table()[32] == 'g');
    assert(b64_table()[33] == 'h');
    assert(b64_table()[34] == 'i');
    assert(b64_table()[35] == 'j');
    assert(b64_table()[36] == 'k');
    assert(b64_table()[37] == 'l');
    assert(b64_table()[38] == 'm');
    assert(b64_table()[39] == 'n');
    assert(b64_table()[40] == 'o');
    assert(b64_table()[41] == 'p');
    assert(b64_table()[42] == 'q');
    assert(b64_table()[43] == 'r');
    assert(b64_table()[44] == 's');
    assert(b64_table()[45] == 't');
    assert(b64_table()[46] == 'u');
    assert(b64_table()[47] == 'v');
    assert(b64_table()[48] == 'w');
    assert(b64_table()[49] == 'x');
    assert(b64_table()[50] == 'y');
    assert(b64_table()[51] == 'z');
    assert(b64_table()[52] == '0');
    assert(b64_table()[53] == '1');
    assert(b64_table()[54] == '2');
    assert(b64_table()[55] == '3');
    assert(b64_table()[56] == '4');
    assert(b64_table()[57] == '5');
    assert(b64_table()[58] == '6');
    assert(b64_table()[59] == '7');
    assert(b64_table()[60] == '8');
    assert(b64_table()[61] == '9');
    assert(b64_table()[62] == '+');
    assert(b64_table()[63] == '/');
}

/// Base64 output comes in groups of four characters, one group per three
/// input bytes or part of them; a last group of one byte ends in `==`, of
/// two bytes in a single `=`, and a full last group has no padding.
pub proof fn law_base64_length_and_padding(data: Seq<u8>)
    ensures
        base64(data).len() == 4 * ((data.len() + 2) / 3),
        data.len() % 3 == 1 ==> base64(data)[base64(data).len() - 1] == '=' && base64(data)[base64(data).len() - 2] == '=',
        data.len() % 3 == 2 ==> base64(data)[base64(data).len() - 1] == '=' && base64(data)[base64(data).len() - 2] != '=',
        data.len() % 3 == 0 && data.len() > 0 ==> base64(data)[base64(data).len() - 1] != '=',
    decreases data.len(),
{
    lemma_b64_digits_are_not_padding();
    if data.len() > 3 {
        let rest = data.subrange(3, data.len() as int);
        law_base64_length_and_padding(rest);
        let g = b64_group(data.subrange(0, 3));
        assert(base64(data) == g + base64(rest));
        assert(base64(data)[base64(data).len() - 1] == base64(rest)[base64(rest).len() - 1]);
        assert(base64(data)[base64(data).len() - 2] == base64(rest)[base64(rest).len() - 2]);
    } else if data.len() > 0 {
        let n = data[0] as int * 65536 + (if data.len() > 1 { data[1] as int } else { 0 }) * 256 + (if data.len() > 2 { data[2] as int } else { 0 });
        assert(0 <= (n / 64) % 64 < 64 && 0 <= n % 64 < 64);
    }
}

/// A base URL keeps the configured text up to its trailing slashes: the
/// result does not end in `/`, and what was dropped is only slashes.
pub proof fn law_trim_slashes_drops_only_trailing_slashes(s: Seq<char>)
    ensures
        trim_slashes(s).len() <= s.len(),
        trim_slashes(s) == s.subrange(0, trim_slashes(s).len() as int),
        forall|k: int| trim_slashes(s).len() <= k < s.len() ==> #[trigger] s[k] == '/',
        trim_slashes(s).len() > 0 ==> trim_slashes(s).last() != '/',
    decreases s.len(),
{
    if s.len() > 0 && s.last() == '/' {
        let d = s.drop_last();
        law_trim_slashes_drops_only_trailing_slashes(d);
        assert forall|k: int| trim_slashes(s).len() <= k < s.len() implies #[trigger] s[k] == '/' by {
            if k < d.len() {
                assert(d[k] == s[k]);
            }
        }
        assert(trim_slashes(s) =~= s.subrange(0, trim_slashes(s).len() as int));
    } else {
        assert(s =~= s.subrange(0, s.len() as int));
    }
}

fn b64_digit_exec(v: u32) -> (c: char)
    requires
        v < 64,
    ensures
        c == b64_digit(v as int),
{
    let table = "ABCDEFGHIJKLMNOPQRSTUVWXYZabcdefghijklmnopqrstuvwxyz0123456789+/";
    proof {
        reveal_strlit("ABCDEFGHIJKLMNOPQRSTUVWXYZabcdefghijklmnopqrstuvwxyz0123456789+/");
    }
    table.get_char(v as usize)
}

/// Base64 of `data`.
pub fn base64_encode(data: &[u8]) -> (r: String)
    ensures
        r@ == base64(data@),
{
    let mut out = String::new();
    let mut i: usize = 0;
    let n = data.len();
    assert(data@.subrange(0, n as int) =~= data@);
    while i < n
        invariant
            n == data@.len(),
            i <= n,
            out@ + base64(data@.subrange(i as int, n as int)) == base64(data@),
        decreases n - i,
    {
        let ghost rest = data@.subrange(i as int, n as int);
        let left = n - i;
        let b0 = data[i] as u32;
        let b1 = if left > 1 { data[i + 1] as u32 } else { 0 };
        let b2 = if left > 2 { data[i + 2] as u32 } else { 0 };
        let v = b0 * 65536 + b1 * 256 + b2;
        let ghost g = if left <= 3 { rest } else { rest.subrange(0, 3) };
        assert(g[0] == data@[i as int]);
        assert(left > 1 ==> g[1] == data@[i + 1]);
        assert(left > 2 ==> g[2] == data@[i + 2]);
        let ghost before = out@;
        push_char(&mut out, b64_digit_exec((v / 262144) % 64));
        push_char(&mut out, b64_digit_exec((v / 4096) % 64));
        if left > 1 {
            push_char(&mut out, b64_digit_exec((v / 64) % 64));
        } else {
            push_char(&mut out, '=');
        }
        if left > 2 {
            push_char(&mut out, b64_digit_exec(v % 64));
        } else {
            push_char(&mut out, '=');
        }
        assert(out@ =~= before + b64_group(g));
        if left <= 3 {
            assert(data@.subrange(n as int, n as int) =~= Seq::<u8>::empty());
            i = n;
        } else {
            assert(rest.subrange(3, rest.len() as int) =~= data@.subrange(i + 3, n as int));
            i = i + 3;
        }
    }
    assert(data@.subrange(n as int, n as int) =~= Seq::<u8>::empty());
    out
}

/// The `Authorization` value for HTTP Basic authentication.
pub open spec fn basic_auth_value(user: Seq<char>, pass: Seq<char>) -> Seq<char> {
    "Basic "@ + base64(vstd::utf8::encode_utf8(user + ":"@ + pass))
}

/// `Basic base64(user:password)`.
pub fn basic_auth(user: &str, pass: &str) -> (r: String)
    ensures
        r@ == basic_auth_value(user@, pass@),
{
    let mut raw = String::from_str(user);
    raw.append(":");
    raw.append(pass);
    let encoded = base64_encode(raw.as_str().as_bytes());
    let mut out = String::from_str("Basic ");
    out.append(encoded.as_str());
    out
}

// ---------- percent-encoding ----------

/// Bytes sent as they are: ASCII letters, digits, `-` `.` `_` `~`.
pub open spec fn unreserved(b: u8) -> bool {
    (48 <= b <= 57) || (65 <= b <= 90) || (97 <= b <= 122) || b == 45 || b == 46 || b == 95 || b == 126
}

pub open spec fn hex_upper(v: int) -> char {
    "0123456789ABCDEF"@[v]
}

/// Every byte but the unreserved ones as `%XX` (upper-case hex).
pub open spec fn pct_encode(bytes: Seq<u8>) -> Seq<char>
    decreases bytes.len(),
{
    if bytes.len() == 0 {
        Seq::empty()
    } else {
        let b = bytes.last();
        pct_encode(bytes.drop_last()) + if unreserved(b) {
            seq![b as char]
        } else {
            seq!['%', hex_upper(b as int / 16), hex_upper(b as int % 16)]
        }
    }
}

/// `urlencoding::encode`: percent-encodes the UTF-8 bytes of `s`, keeping
/// only ASCII letters, digits, `-` `.` `_` `~`, with upper-case hex.
#[verifier::external_body]
pub(crate) fn percent_encode(s: &str) -> (r: String)
    ensures
        r@ == pct_encode(vstd::utf8::encode_utf8(s@)),
{
    urlencoding::encode(s).into_owned()
}

// ---------- endpoints ----------

/// Drops trailing `/` characters.
pub open spec fn trim_slashes(s: Seq<char>) -> Seq<char>
    decreases s.len(),
{
    if s.len() > 0 && s.last() == '/' {
        trim_slashes(s.drop_last())
    } else {
        s
    }
}

/// A base URL as configured, trimmed and without trailing slashes.
pub open spec fn base_url(url: Seq<char>) -> Seq<char> {
    trim_slashes(trim(url))
}

/// `url.trim().trim_end_matches('/')`.
pub fn normalize_base_url(url: &str) -> (r: String)
    ensures
        r@ == base_url(url@),
{
    let mut s = trim_str(url);
    while s.unicode_len() > 0 && s.get_char(s.unicode_len() - 1) == '/'
        invariant
            trim_slashes(s@) == base_url(url@),
        decreases s@.len(),
    {
        let _ = crate::text::pop_char(&mut s);
    }
    s
}

/// Credentials used: a non-empty user name with a password.
pub open spec fn credentials_of(username: Option<String>, password: Option<String>) -> Option<(Seq<char>, Seq<char>)> {
    match (username, password) {
        (Some(u), Some(p)) => if u@.len() > 0 { Some((u@, p@)) } else { None },
        _ => None,
    }
}

/// The credentials to send, if any.
pub fn credentials(username: &Option<String>, password: &Option<String>) -> (r: Option<(String, String)>)
    ensures
        match r {
            Some((u, p)) => credentials_of(*username, *password) == Some((u@, p@)),
            None => credentials_of(*username, *password) is None,
        },
{
    match (username, password) {
        (Some(u), Some(p)) => {
            if u.unicode_len() > 0 {
                Some((u.clone(), p.clone()))
            } else {
                None
            }
        },
        _ => None,
    }
}

/// The `Authorization` header for the credentials, if there are any.
pub open spec fn auth_headers(auth: Option<(Seq<char>, Seq<char>)>) -> Seq<(Seq<char>, Seq<char>)> {
    match auth {
        Some((u, p)) => seq![("Authorization"@, basic_auth_value(u, p))],
        None => Seq::empty(),
    }
}

pub open spec fn header_views(h: Seq<(String, String)>) -> Seq<(Seq<char>, Seq<char>)> {
    h.map_values(|e: (String, String)| (e.0@, e.1@))
}

pub open spec fn auth_view(a: Option<(String, String)>) -> Option<(Seq<char>, Seq<char>)> {
    match a {
        Some((u, p)) => Some((u@, p@)),
        None => None,
    }
}

/// Appends the `Authorization` header for `auth`, if any.
pub fn push_auth_header(headers: &mut Vec<(String, String)>, auth: &Option<(String, String)>)
    ensures
        header_views(final(headers)@) == header_views(old(headers)@) + auth_headers(auth_view(*auth)),
{
    let ghost before = header_views(headers@);
    match auth {
        Some((u, p)) => {
            let v = basic_auth(u.as_str(), p.as_str());
            headers.push((String::from_str("Authorization"), v));
            proof {
                reveal_strlit("Authorization");
            }
            assert(header_views(headers@) =~= before + auth_headers(auth_view(*auth)));
        },
        None => {
            assert(header_views(headers@) =~= before + auth_headers(auth_view(*auth)));
        },
    }
}

// ---------- JSON bodies ----------

/// What `serde_json` makes of a body expected to hold an array of strings:
/// the strings, or its error message.
pub uninterp spec fn json_string_array(body: Seq<char>) -> Result<Seq<Seq<char>>, Seq<char>>;

/// What `serde_json` makes of a body expected to hold an array of 32-bit
/// integers: the integers, or its error message.
pub uninterp spec fn json_i32_array(body: Seq<char>) -> Result<Seq<i32>, Seq<char>>;

/// What `serde_json` makes of a body expected to hold a string-to-string
/// object, read as a `BTreeMap<String, String>`: its entries in key order,
/// or the error message.
pub uninterp spec fn json_string_map_entries(body: Seq<char>) -> Result<Seq<(Seq<char>, Seq<char>)>, Seq<char>>;

/// `serde_json::to_string_pretty` of the string-to-string map the entries
/// make (a later entry replaces an earlier one with the same key).
pub uninterp spec fn pretty_json_object(entries: Seq<(Seq<char>, Seq<char>)>) -> Seq<char>;

/// `serde_json::from_str::<Vec<String>>`, with the error as its message.
#[verifier::external_body]
pub(crate) fn parse_string_array(body: &str) -> (r: Result<Vec<String>, String>)
    ensures
        match r {
            Ok(v) => json_string_array(body@) == Ok::<Seq<Seq<char>>, Seq<char>>(strs(v@)),
            Err(e) => json_string_array(body@) == Err::<Seq<Seq<char>>, Seq<char>>(e@),
        },
{
    serde_json::from_str::<Vec<String>>(body).map_err(|e| e.to_string())
}

/// `serde_json::from_str::<Vec<i32>>`, with the error as its message.
#[verifier::external_body]
pub(crate) fn parse_i32_array(body: &str) -> (r: Result<Vec<i32>, String>)
    ensures
        match r {
            Ok(v) => json_i32_array(body@) == Ok::<Seq<i32>, Seq<char>>(v@),
            Err(e) => json_i32_array(body@) == Err::<Seq<i32>, Seq<char>>(e@),
        },
{
    serde_json::from_str::<Vec<i32>>(body).map_err(|e| e.to_string())
}

/// `serde_json::from_str::<BTreeMap<String, String>>`, its entries in key
/// order, with the error as its message.
#[verifier::external_body]
pub(crate) fn parse_string_map(body: &str) -> (r: Result<Vec<(String, String)>, String>)
    ensures
        match r {
            Ok(v) => json_string_map_entries(body@) == Ok::<Seq<(Seq<char>, Seq<char>)>, Seq<char>>(header_views(v@)),
            Err(e) => json_string_map_entries(body@) == Err::<Seq<(Seq<char>, Seq<char>)>, Seq<char>>(e@),
        },
{
    serde_json::from_str::<std::collections::BTreeMap<String, String>>(body)
        .map(|m| m.into_iter().collect())
        .map_err(|e| e.to_string())
}

/// `serde_json::to_string_pretty` of the `BTreeMap<String, String>` the
/// entries make; that serialization cannot fail.
#[verifier::external_body]
pub(crate) fn pretty_object(entries: &[(String, String)]) -> (r: String)
    ensures
        r@ == pretty_json_object(header_views(entries@)),
{
    let m: std::collections::BTreeMap<String, String> = entries.iter().cloned().collect();
    serde_json::to_string_pretty(&m).unwrap_or_default()
}

} // verus!
