//! Authentication helpers: the claims carried by a NeuroKaraoke JWT, and the
//! pieces of the Discord OAuth2 authorization-code flow with PKCE (the code verifier
//! and its challenge, the authorization URL, the handling of the browser's requests
//! to the local callback server, and the request that trades the code for a token).

use base64::{Engine as _, engine::general_purpose::URL_SAFE_NO_PAD};
use sha2::{Digest as _, Sha256};
use vstd::prelude::*;
use vstd::utf8::encode_utf8;
use crate::api::{AuthContext, UserClaims};
use crate::ids::{is_random_uuid, new_uuid, parse_uuid, parsed_uuid};
use crate::text::{chars_of, contains_chars, has_substring, push_all, push_decimal, push_str, same_text, string_of, decimal, upper_digit};

verus! {

// ---------------------------------------------------------------------------
// Splitting text
// ---------------------------------------------------------------------------

/// The pieces of `s` between occurrences of `c` (`str::split` with a char): one more
/// piece than there are occurrences, empty pieces included.
pub open spec fn split_on(s: Seq<char>, c: char) -> Seq<Seq<char>>
    decreases s.len(),
{
    if s.len() == 0 {
        seq![seq![]]
    } else {
        let rest = split_on(s.drop_first(), c);
        if s[0] == c {
            seq![seq![]] + rest
        } else {
            rest.update(0, seq![s[0]] + rest[0])
        }
    }
}

proof fn lemma_split_on_nonempty(s: Seq<char>, c: char)
    ensures
        split_on(s, c).len() >= 1,
    decreases s.len(),
{
    if s.len() > 0 {
        lemma_split_on_nonempty(s.drop_first(), c);
    }
}

/// The pieces of `s` between occurrences of `c`.
pub fn split_char(s: &Vec<char>, c: char) -> (parts: Vec<Vec<char>>)
    ensures
        parts@.map_values(|p: Vec<char>| p@) == split_on(s@, c),
{
    let mut parts: Vec<Vec<char>> = Vec::new();
    parts.push(Vec::new());
    let mut i: usize = s.len();
    assert(s@.skip(s.len() as int) =~= Seq::<char>::empty());
    assert(parts@.map_values(|p: Vec<char>| p@) =~= split_on(s@.skip(i as int), c));
    while i > 0
        invariant
            i <= s.len(),
            parts@.map_values(|p: Vec<char>| p@) == split_on(s@.skip(i as int), c),
        decreases i,
    {
        i -= 1;
        let ghost rest = s@.skip(i + 1);
        assert(s@.skip(i as int).drop_first() =~= rest);
        assert(s@.skip(i as int)[0] == s@[i as int]);
        proof {
            lemma_split_on_nonempty(rest, c);
        }
        let ghost before = parts@.map_values(|p: Vec<char>| p@);
        if s[i] == c {
            parts.insert(0, Vec::new());
            assert(parts@.map_values(|p: Vec<char>| p@) =~= seq![Seq::<char>::empty()] + before);
        } else {
            let ghost old_parts = parts@;
            let mut first = parts.remove(0);
            assert(first@ == before[0]);
            first.insert(0, s[i]);
            assert(first@ =~= seq![s@[i as int]] + before[0]);
            parts.insert(0, first);
            assert forall|k: int| 0 <= k < parts.len() implies parts@[k]@ == before.update(0, seq![s@[i as int]] + before[0])[k] by {
                if k > 0 {
                    assert(parts@[k] == old_parts[k]);
                }
            }
            assert(parts@.map_values(|p: Vec<char>| p@) =~= before.update(0, seq![s@[i as int]] + before[0]));
        }
    }
    assert(s@.skip(0) =~= s@);
    parts
}

/// Whether `c` is white space (`char::is_whitespace`: the Unicode `White_Space` property).
pub open spec fn is_white(c: char) -> bool {
    let u = c as u32;
    (0x09 <= u <= 0x0d) || u == 0x20 || u == 0x85 || u == 0xa0 || u == 0x1680
        || (0x2000 <= u <= 0x200a) || u == 0x2028 || u == 0x2029 || u == 0x202f
        || u == 0x205f || u == 0x3000
}

fn is_white_char(c: char) -> (b: bool)
    ensures
        b == is_white(c),
{
    let u = c as u32;
    (0x09 <= u && u <= 0x0d) || u == 0x20 || u == 0x85 || u == 0xa0 || u == 0x1680
        || (0x2000 <= u && u <= 0x200a) || u == 0x2028 || u == 0x2029 || u == 0x202f
        || u == 0x205f || u == 0x3000
}

/// The maximal runs of non-white-space characters of `s` (`str::split_whitespace`).
pub open spec fn words(s: Seq<char>) -> Seq<Seq<char>>
    decreases s.len(),
{
    if s.len() == 0 {
        seq![]
    } else {
        let rest = words(s.drop_first());
        if is_white(s[0]) {
            rest
        } else if s.len() > 1 && !is_white(s[1]) {
            rest.update(0, seq![s[0]] + rest[0])
        } else {
            seq![seq![s[0]]] + rest
        }
    }
}

proof fn lemma_words_start(s: Seq<char>)
    ensures
        s.len() > 0 && !is_white(s[0]) ==> words(s).len() >= 1,
    decreases s.len(),
{
    if s.len() > 1 {
        lemma_words_start(s.drop_first());
        assert(s.drop_first()[0] == s[1]);
    }
}

/// The white-space separated words of `s`.
pub fn split_words(s: &Vec<char>) -> (ws: Vec<Vec<char>>)
    ensures
        ws@.map_values(|p: Vec<char>| p@) == words(s@),
{
    let mut ws: Vec<Vec<char>> = Vec::new();
    let mut i: usize = s.len();
    assert(s@.skip(s.len() as int) =~= Seq::<char>::empty());
    assert(ws@.map_values(|p: Vec<char>| p@) =~= words(s@.skip(i as int)));
    while i > 0
        invariant
            i <= s.len(),
            ws@.map_values(|p: Vec<char>| p@) == words(s@.skip(i as int)),
        decreases i,
    {
        i -= 1;
        let ghost rest = s@.skip(i + 1);
        assert(s@.skip(i as int).drop_first() =~= rest);
        assert(s@.skip(i as int)[0] == s@[i as int]);
        let ghost before = ws@.map_values(|p: Vec<char>| p@);
        if is_white_char(s[i]) {
        } else if i + 1 < s.len() && !is_white_char(s[i + 1]) {
            assert(s@.skip(i as int)[1] == s@[i + 1]);
            assert(rest[0] == s@[i + 1]);
            proof {
                lemma_words_start(rest);
            }
            let ghost old_ws = ws@;
            let mut first = ws.remove(0);
            assert(first@ == before[0]);
            first.insert(0, s[i]);
            assert(first@ =~= seq![s@[i as int]] + before[0]);
            ws.insert(0, first);
            assert forall|k: int| 0 <= k < ws.len() implies ws@[k]@ == before.update(0, seq![s@[i as int]] + before[0])[k] by {
                if k > 0 {
                    assert(ws@[k] == old_ws[k]);
                }
            }
            assert(ws@.map_values(|p: Vec<char>| p@) =~= before.update(0, seq![s@[i as int]] + before[0]));
        } else {
            let mut w: Vec<char> = Vec::new();
            w.push(s[i]);
            ws.insert(0, w);
            assert(ws@.map_values(|p: Vec<char>| p@) =~= seq![seq![s@[i as int]]] + before);
        }
    }
    assert(s@.skip(0) =~= s@);
    ws
}

// ---------------------------------------------------------------------------
// Tokens
// ---------------------------------------------------------------------------

/// Why the claims of a token could not be read.
#[derive(Debug, Clone, Copy, PartialEq, Eq, Structural)]
pub enum JwtError {
    /// The token is not three dot-separated segments.
    Malformed,
    /// The payload segment is not URL-safe Base64 without padding.
    Base64,
}

/// What the URL-safe, unpadded Base64 decoder of the `base64` crate gives for a text
/// (none when it rejects it).
pub uninterp spec fn url_safe_no_pad_decoded(text: Seq<char>) -> Option<Seq<u8>>;

/// Calls `URL_SAFE_NO_PAD.decode`; the result is named `url_safe_no_pad_decoded`.
#[verifier::external_body]
fn decode_url_safe_no_pad(text: &str) -> (r: Option<Vec<u8>>)
    ensures
        match r {
            Some(v) => url_safe_no_pad_decoded(text@) == Some(v@),
            None => url_safe_no_pad_decoded(text@) is None,
        },
{
    URL_SAFE_NO_PAD.decode(text).ok()
}

/// The payload segment of a token: the second of exactly three dot-separated segments.
pub open spec fn payload_segment(token: Seq<char>) -> Option<Seq<char>> {
    let segments = split_on(token, '.');
    if segments.len() == 3 { Some(segments[1]) } else { None }
}

/// The decoded payload of a token: the bytes its payload segment encodes.
pub open spec fn payload_bytes(token: Seq<char>) -> Result<Seq<u8>, JwtError> {
    match payload_segment(token) {
        None => Err(JwtError::Malformed),
        Some(seg) => match url_safe_no_pad_decoded(seg) {
            Some(bytes) => Ok(bytes),
            None => Err(JwtError::Base64),
        },
    }
}

/// The decoded payload of a token (its claims, as JSON bytes).
pub fn jwt_payload(token: &str) -> (r: Result<Vec<u8>, JwtError>)
    ensures
        match r {
            Ok(v) => payload_bytes(token@) == Ok::<Seq<u8>, JwtError>(v@),
            Err(e) => payload_bytes(token@) == Err::<Seq<u8>, JwtError>(e),
        },
{
    let cs = chars_of(token);
    let segments = split_char(&cs, '.');
    assert(segments@.map_values(|p: Vec<char>| p@).len() == segments.len());
    if segments.len() != 3 {
        return Err(JwtError::Malformed);
    }
    assert(segments@.map_values(|p: Vec<char>| p@)[1] == segments@[1]@);
    let seg = string_of(&segments[1]);
    match decode_url_safe_no_pad(seg.as_str()) {
        Some(bytes) => Ok(bytes),
        None => Err(JwtError::Base64),
    }
}

/// The account named by a token's claims: the id parsed as a UUID (a fresh random
/// version 4 UUID when it does not parse), the user name, no e-mail address.
pub fn user_claims(id: &str, username: String) -> (c: UserClaims)
    ensures
        c.username == username,
        c.email is None,
        parsed_uuid(id@) matches Some(u) ==> c.id == u,
        parsed_uuid(id@) is None ==> is_random_uuid(c.id),
{
    let uid = match parse_uuid(id) {
        Some(u) => u,
        None => new_uuid(),
    };
    UserClaims { id: uid, username, email: None }
}

/// The context of a successful login: the token and the account it names.
pub fn auth_context(token: String, user: UserClaims) -> (a: AuthContext)
    ensures
        a.token == token,
        a.user == user,
{
    AuthContext { token, user }
}

// ---------------------------------------------------------------------------
// Discord OAuth2
// ---------------------------------------------------------------------------

/// The client configuration parameters for the Neuro Karaoke Discord integration.
pub struct DiscordOAuthConfig {
    pub client_id: &'static str,
    pub redirect_uri: &'static str,
}

/// The official Discord application id of Neuro Karaoke.
pub const NEURO_KARAOKE_CLIENT_ID: &'static str = "1544639254188007494";

/// The local address Discord redirects to after sign-in.
pub const NEURO_KARAOKE_REDIRECT_URI: &'static str = "http://localhost:14442/auth/callback";

/// The Discord configuration of Neuro Karaoke.
pub fn neuro_karaoke_discord() -> (c: DiscordOAuthConfig)
    ensures
        c.client_id == NEURO_KARAOKE_CLIENT_ID,
        c.redirect_uri == NEURO_KARAOKE_REDIRECT_URI,
{
    DiscordOAuthConfig { client_id: NEURO_KARAOKE_CLIENT_ID, redirect_uri: NEURO_KARAOKE_REDIRECT_URI }
}

/// The address the local callback server listens on.
pub const CALLBACK_ADDRESS: &'static str = "127.0.0.1:14442";

/// A byte is left as is by percent-encoding: an ASCII letter or digit, or `-`, `.`, `_`, `~`.
pub open spec fn is_unreserved(b: u8) -> bool {
    (48 <= b <= 57) || (65 <= b <= 90) || (97 <= b <= 122) || b == 45 || b == 46 || b == 95 || b == 126
}

/// Percent-encoding of bytes: unreserved bytes as their character, any other byte as
/// `%` and two upper-case hexadecimal digits.
pub open spec fn percent_encoded(bytes: Seq<u8>) -> Seq<char>
    decreases bytes.len(),
{
    if bytes.len() == 0 {
        seq![]
    } else {
        let b = bytes[0];
        let head = if is_unreserved(b) {
            seq![b as char]
        } else {
            seq!['%', upper_digit((b / 16) as int), upper_digit((b % 16) as int)]
        };
        head + percent_encoded(bytes.drop_first())
    }
}

/// Calls `urlencoding::encode`, which percent-encodes every byte of the text's UTF-8
/// encoding except ASCII letters, digits, `-`, `_`, `.` and `~`.
#[verifier::external_body]
fn url_encode(text: &str) -> (r: String)
    ensures
        r@ == percent_encoded(encode_utf8(text@)),
{
    urlencoding::encode(text).into_owned()
}

// ---------------------------------------------------------------------------
// PKCE
// ---------------------------------------------------------------------------

/// What the URL-safe, unpadded Base64 encoder of the `base64` crate gives for bytes.
pub uninterp spec fn url_safe_no_pad_encoded(data: Seq<u8>) -> Seq<char>;

/// Calls `URL_SAFE_NO_PAD.encode`; the result is named `url_safe_no_pad_encoded`.
#[verifier::external_body]
fn encode_url_safe_no_pad(data: &[u8]) -> (r: String)
    ensures
        r@ == url_safe_no_pad_encoded(data@),
{
    URL_SAFE_NO_PAD.encode(data)
}

/// What SHA-256 (the `sha2` crate) gives for bytes.
pub uninterp spec fn sha256_digest(data: Seq<u8>) -> Seq<u8>;

/// Calls `Sha256::digest`: the 32-byte digest of the data, named `sha256_digest`.
#[verifier::external_body]
fn sha256(data: &[u8]) -> (r: Vec<u8>)
    ensures
        r@ == sha256_digest(data@),
        r@.len() == 32,
{
    Sha256::digest(data).to_vec()
}

/// Fills `n` bytes from the thread-local generator (`RngCore::fill_bytes` on
/// `rand::rng()`); which bytes is not stated.
#[verifier::external_body]
fn random_bytes(n: usize) -> (r: Vec<u8>)
    ensures
        r@.len() == n,
{
    let mut v = vec![0u8; n];
    rand::RngCore::fill_bytes(&mut rand::rng(), &mut v);
    v
}

/// The number of random bytes a code verifier is made of.
pub const CODE_VERIFIER_BYTES: usize = 64;

/// The code verifier made of some random bytes: their URL-safe Base64 without padding.
pub open spec fn code_verifier_of(bytes: Seq<u8>) -> Seq<char> {
    url_safe_no_pad_encoded(bytes)
}

/// The code verifier made of the given bytes.
pub fn code_verifier(bytes: &Vec<u8>) -> (v: String)
    ensures
        v@ == code_verifier_of(bytes@),
{
    encode_url_safe_no_pad(bytes.as_slice())
}

/// A fresh code verifier: 64 random bytes, in URL-safe Base64 without padding.
pub fn new_code_verifier() -> (v: String)
    ensures
        exists|bytes: Seq<u8>| bytes.len() == CODE_VERIFIER_BYTES && v@ == code_verifier_of(bytes),
{
    let bytes = random_bytes(CODE_VERIFIER_BYTES);
    let v = code_verifier(&bytes);
    assert(bytes@.len() == CODE_VERIFIER_BYTES && v@ == code_verifier_of(bytes@));
    v
}

/// The S256 challenge of a code verifier: the URL-safe Base64, without padding, of the
/// SHA-256 digest of the verifier's bytes.
pub open spec fn code_challenge_of(verifier: Seq<char>) -> Seq<char> {
    url_safe_no_pad_encoded(sha256_digest(encode_utf8(verifier)))
}

/// The S256 challenge of a code verifier.
pub fn code_challenge(verifier: &str) -> (c: String)
    ensures
        c@ == code_challenge_of(verifier@),
{
    let digest = sha256(verifier.as_bytes());
    encode_url_safe_no_pad(digest.as_slice())
}

// ---------------------------------------------------------------------------
// The authorization request and the callback
// ---------------------------------------------------------------------------

/// The Discord authorization URL of the code grant: the `identify` scope, the
/// percent-encoded redirect URI, and the S256 challenge.
pub open spec fn authorize_url_of(client_id: Seq<char>, redirect_uri: Seq<char>, challenge: Seq<char>) -> Seq<char> {
    "https://discord.com/oauth2/authorize?client_id="@ + client_id
        + "&response_type=code&redirect_uri="@ + percent_encoded(encode_utf8(redirect_uri))
        + "&scope=identify&code_challenge="@ + percent_encoded(encode_utf8(challenge))
        + "&code_challenge_method=S256"@
}

/// The Discord authorization URL, asking for a code to be exchanged with the verifier
/// whose challenge is `challenge`.
pub fn authorize_url(config: &DiscordOAuthConfig, challenge: &str) -> (u: String)
    ensures
        u@ == authorize_url_of(config.client_id@, config.redirect_uri@, challenge@),
{
    let mut out: Vec<char> = Vec::new();
    push_str(&mut out, "https://discord.com/oauth2/authorize?client_id=");
    push_str(&mut out, config.client_id);
    push_str(&mut out, "&response_type=code&redirect_uri=");
    let enc = url_encode(config.redirect_uri);
    push_str(&mut out, enc.as_str());
    push_str(&mut out, "&scope=identify&code_challenge=");
    let ch = url_encode(challenge);
    push_str(&mut out, ch.as_str());
    push_str(&mut out, "&code_challenge_method=S256");
    string_of(&out)
}

/// The page served once the code arrived.
pub const SUCCESS_HTML: &'static str = "<html><body style='font-family:sans-serif; text-align:center; padding-top:40px; background:#0A0E1A; color:white;'>
                <h2 style='color:#00D9FF;'>Authenticated Successfully!</h2>
                <p>You can close this tab and return to your Karaoke desktop application safely.</p>
            </body></html>";

/// The page served when Discord reports that sign-in failed.
pub const FAILURE_HTML: &'static str = "<html><body style='font-family:sans-serif; text-align:center; padding-top:40px; background:#0A0E1A; color:white;'>
                <h2 style='color:#FF6B9D;'>Sign-in was not completed.</h2>
                <p>You can close this tab and try again from the Karaoke desktop application.</p>
            </body></html>";

/// An HTTP/1.1 `200 OK` response carrying `body` as HTML, with its length in bytes.
pub open spec fn html_response_of(body: Seq<char>) -> Seq<char> {
    "HTTP/1.1 200 OK\r\nContent-Length: "@ + decimal((encode_utf8(body).len() as usize) as nat)
        + "\r\nContent-Type: text/html\r\nConnection: close\r\n\r\n"@ + body
}

/// An HTTP/1.1 `200 OK` response carrying `body` as HTML.
pub fn html_response(body: &str) -> (r: String)
    ensures
        r@ == html_response_of(body@),
{
    let mut out: Vec<char> = Vec::new();
    push_str(&mut out, "HTTP/1.1 200 OK\r\nContent-Length: ");
    let n = body.len();
    push_decimal(&mut out, n as u64);
    push_str(&mut out, "\r\nContent-Type: text/html\r\nConnection: close\r\n\r\n");
    push_str(&mut out, body);
    string_of(&out)
}

/// What `url::Url::parse` and `Url::query_pairs` give for a URL text: the decoded
/// query pairs in order (none when the text does not parse).
pub uninterp spec fn parsed_query(url: Seq<char>) -> Option<Seq<(Seq<char>, Seq<char>)>>;

/// Calls `Url::parse` and collects `query_pairs`; the result is named `parsed_query`.
#[verifier::external_body]
fn query_pairs_of(url: &str) -> (r: Option<Vec<(String, String)>>)
    ensures
        match r {
            Some(v) => parsed_query(url@) == Some(v@.map_values(|p: (String, String)| (p.0@, p.1@))),
            None => parsed_query(url@) is None,
        },
{
    url::Url::parse(url).ok().map(|u| u.query_pairs().map(|(k, v)| (k.into_owned(), v.into_owned())).collect())
}

/// What the callback server does with one request.
pub enum CallbackStep {
    /// Not the callback (no path, or no `code=` nor `error=` in it): wait for the next request.
    Skip,
    /// The code arrived: serve `SUCCESS_HTML` and go on with the exchange.
    Code(String),
    /// Discord reports an error (the user refused, say): serve `FAILURE_HTML`; the flow fails.
    Denied(String),
    /// The query names neither a `code` nor an `error`: wait for the next request.
    NoCode,
    /// The path does not form a URL: the flow fails.
    BadUrl,
}

/// The value of the first pair named `key`.
pub open spec fn first_value(pairs: Seq<(Seq<char>, Seq<char>)>, key: Seq<char>) -> Option<Seq<char>>
    decreases pairs.len(),
{
    if pairs.len() == 0 {
        None
    } else if pairs[0].0 == key {
        Some(pairs[0].1)
    } else {
        first_value(pairs.drop_first(), key)
    }
}

/// What the callback server does with one request, as a value of the specification.
pub enum CallbackOutcome {
    Skip,
    Code(Seq<char>),
    Denied(Seq<char>),
    NoCode,
    BadUrl,
}

impl View for CallbackStep {
    type V = CallbackOutcome;

    open spec fn view(&self) -> CallbackOutcome {
        match self {
            CallbackStep::Skip => CallbackOutcome::Skip,
            CallbackStep::Code(c) => CallbackOutcome::Code(c@),
            CallbackStep::Denied(e) => CallbackOutcome::Denied(e@),
            CallbackStep::NoCode => CallbackOutcome::NoCode,
            CallbackStep::BadUrl => CallbackOutcome::BadUrl,
        }
    }
}

/// The outcome for the query pairs of the callback: the first `code` value, else the
/// first `error` value.
pub open spec fn pairs_outcome(pairs: Seq<(Seq<char>, Seq<char>)>) -> CallbackOutcome {
    match first_value(pairs, "code"@) {
        Some(c) => CallbackOutcome::Code(c),
        None => match first_value(pairs, "error"@) {
            Some(e) => CallbackOutcome::Denied(e),
            None => CallbackOutcome::NoCode,
        },
    }
}

/// The step for a request line: the path is its second word; a path without `code=`
/// and without `error=` is not the callback; otherwise the path is read as a URL on
/// `http://localhost` and its query decides.
pub open spec fn callback_outcome(request_line: Seq<char>) -> CallbackOutcome {
    let ws = words(request_line);
    if ws.len() < 2 {
        CallbackOutcome::Skip
    } else if !has_substring(ws[1], "code="@) && !has_substring(ws[1], "error="@) {
        CallbackOutcome::Skip
    } else {
        match parsed_query("http://localhost"@ + ws[1]) {
            None => CallbackOutcome::BadUrl,
            Some(pairs) => pairs_outcome(pairs),
        }
    }
}

/// The index of the first pair named `key`, if any.
fn find_pair(pairs: &Vec<(String, String)>, key: &str) -> (r: Option<usize>)
    ensures
        match r {
            Some(i) => i < pairs.len()
                && first_value(pairs@.map_values(|p: (String, String)| (p.0@, p.1@)), key@) == Some(pairs@[i as int].1@),
            None => first_value(pairs@.map_values(|p: (String, String)| (p.0@, p.1@)), key@) is None,
        },
{
    let ghost views = pairs@.map_values(|p: (String, String)| (p.0@, p.1@));
    assert(views.skip(0) =~= views);
    let mut i: usize = 0;
    while i < pairs.len()
        invariant
            i <= pairs.len(),
            views == pairs@.map_values(|p: (String, String)| (p.0@, p.1@)),
            first_value(views, key@) == first_value(views.skip(i as int), key@),
        decreases pairs.len() - i,
    {
        assert(views.skip(i as int)[0] == views[i as int]);
        assert(views.skip(i as int).drop_first() =~= views.skip(i + 1));
        assert(views[i as int] == (pairs@[i as int].0@, pairs@[i as int].1@));
        if same_text(pairs[i].0.as_str(), key) {
            return Some(i);
        }
        i += 1;
    }
    assert(views.skip(i as int) =~= Seq::<(Seq<char>, Seq<char>)>::empty());
    None
}

/// What the callback server does with the request line `request_line`.
pub fn callback_step(request_line: &str) -> (step: CallbackStep)
    ensures
        step@ == callback_outcome(request_line@),
{
    let cs = chars_of(request_line);
    let ws = split_words(&cs);
    assert(ws@.map_values(|p: Vec<char>| p@).len() == ws.len());
    if ws.len() < 2 {
        return CallbackStep::Skip;
    }
    let path = &ws[1];
    assert(words(request_line@)[1] == path@);
    proof {
        reveal_strlit("code=");
        reveal_strlit("error=");
    }
    let code_marker = chars_of("code=");
    let error_marker = chars_of("error=");
    if !contains_chars(path, &code_marker) && !contains_chars(path, &error_marker) {
        return CallbackStep::Skip;
    }
    let mut full: Vec<char> = Vec::new();
    push_str(&mut full, "http://localhost");
    push_all(&mut full, path);
    let url = string_of(&full);
    match query_pairs_of(url.as_str()) {
        None => CallbackStep::BadUrl,
        Some(pairs) => {
            match find_pair(&pairs, "code") {
                Some(i) => CallbackStep::Code(pairs[i].1.clone()),
                None => match find_pair(&pairs, "error") {
                    Some(i) => CallbackStep::Denied(pairs[i].1.clone()),
                    None => CallbackStep::NoCode,
                },
            }
        },
    }
}

// ---------------------------------------------------------------------------
// The token exchange
// ---------------------------------------------------------------------------

/// Discord's token endpoint, where the code is exchanged for an access token.
pub const DISCORD_TOKEN_URL: &'static str = "https://discord.com/api/oauth2/token";

/// The percent-encoded form of a text.
pub open spec fn form_value(text: Seq<char>) -> Seq<char> {
    percent_encoded(encode_utf8(text))
}

/// The form body (`application/x-www-form-urlencoded`) of the token exchange: the
/// client, the grant type, the code, the redirect URI and the verifier.
pub open spec fn token_exchange_body_of(client_id: Seq<char>, redirect_uri: Seq<char>, code: Seq<char>, verifier: Seq<char>) -> Seq<char> {
    "client_id="@ + form_value(client_id) + "&grant_type=authorization_code&code="@ + form_value(code)
        + "&redirect_uri="@ + form_value(redirect_uri) + "&code_verifier="@ + form_value(verifier)
}

/// The form body that trades the callback's `code` for a Discord access token, proving
/// possession of `verifier`; it is posted to `DISCORD_TOKEN_URL`.
pub fn token_exchange_body(config: &DiscordOAuthConfig, code: &str, verifier: &str) -> (b: String)
    ensures
        b@ == token_exchange_body_of(config.client_id@, config.redirect_uri@, code@, verifier@),
{
    let mut out: Vec<char> = Vec::new();
    push_str(&mut out, "client_id=");
    let v = url_encode(config.client_id);
    push_str(&mut out, v.as_str());
    push_str(&mut out, "&grant_type=authorization_code&code=");
    let v = url_encode(code);
    push_str(&mut out, v.as_str());
    push_str(&mut out, "&redirect_uri=");
    let v = url_encode(config.redirect_uri);
    push_str(&mut out, v.as_str());
    push_str(&mut out, "&code_verifier=");
    let v = url_encode(verifier);
    push_str(&mut out, v.as_str());
    string_of(&out)
}

} // verus!
