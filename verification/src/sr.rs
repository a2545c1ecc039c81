//! Schema Registry: the requests that the client sends, and what it makes of
//! the replies.
use vstd::prelude::*;
use vstd::slice::slice_subrange;
use crate::avro::{avro_datum_check, avro_schema_check, decode_datum, parse_schema};
use crate::error::Error;
use crate::text::{
    lossy_utf8, utf8_lossy,
    int_text, push_int, push_replaced, replace_char, to_owned_string, trim,
    trim_end_char, trim_end_char_str, trim_str,
};

verus! {

/// The HTTP method of a request.
#[derive(Clone, Copy, Debug, PartialEq, Eq, Structural)]
pub enum HttpMethod {
    Get,
    Delete,
    Put,
}

/// A request to the Schema Registry.
#[derive(Clone, Debug)]
pub struct SrRequest {
    pub method: HttpMethod,
    pub url: String,
    pub authorization: Option<String>,
    pub content_type: Option<String>,
    pub body: Option<String>,
}

/// What came back for a request: it failed, its JSON could not be read, or
/// its body as read.
#[derive(Clone, Debug)]
pub enum SrReply<T> {
    Failed(String),
    Malformed(String),
    Body(T),
}

/// A subject of the registry.
#[derive(Clone, Debug)]
pub struct SrSubject {
    pub name: String,
}

/// One version of a subject's schema.
#[derive(Clone, Debug)]
pub struct SrVersion {
    pub id: i32,
    pub version: i32,
    pub schema: String,
    pub schema_type: String,
}

/// A Schema Registry endpoint.
#[derive(Clone, Debug)]
pub struct SrClient {
    url: String,
    user: String,
    password: String,
    skip_tls: bool,
}

/// The base URL that a configured URL stands for: trimmed, without trailing
/// slashes.
pub open spec fn normalized_url(url: Seq<char>) -> Seq<char> {
    trim_end_char(trim(url), '/')
}


proof fn lemma_trim_end_char_last(s: Seq<char>, c: char)
    ensures
        trim_end_char(s, c).len() > 0 ==> trim_end_char(s, c).last() != c,
    decreases s.len(),
{
    if s.len() > 0 && s.last() == c {
        lemma_trim_end_char_last(s.drop_last(), c);
    }
}

/// A registry's base URL never ends with a slash, so the request paths that
/// follow it are not doubled.
pub proof fn lemma_normalized_url_no_trailing_slash(url: Seq<char>)
    ensures
        normalized_url(url).len() > 0 ==> normalized_url(url).last() != '/',
{
    lemma_trim_end_char_last(trim(url), '/');
}

/// A subject name as it stands in a URL path: each `/` written `%2F`.
pub open spec fn encoded_subject(s: Seq<char>) -> Seq<char> {
    replace_char(s, '/', "%2F"@)
}


/// An encoded subject holds no `/`, so it stays one segment of the path.
pub proof fn lemma_encoded_subject_has_no_slash(s: Seq<char>)
    ensures
        forall|i: int| 0 <= i < encoded_subject(s).len() ==> encoded_subject(s)[i] != '/',
    decreases s.len(),
{
    reveal_strlit("%2F");
    if s.len() > 0 {
        lemma_encoded_subject_has_no_slash(s.drop_last());
        let a = encoded_subject(s.drop_last());
        let b = if s.last() == '/' {
            "%2F"@
        } else {
            seq![s.last()]
        };
        assert(encoded_subject(s) == a + b);
        assert forall|i: int| 0 <= i < (a + b).len() implies (a + b)[i] != '/' by {
            if i >= a.len() {
                assert((a + b)[i] == b[i - a.len()]);
            }
        }
    }
}

/// A subject name as it stands in a URL path: each `/` written `%2F`.
pub fn urlencoding(s: &str) -> (r: String)
    ensures
        r@ == encoded_subject(s@),
{
    let mut out = String::new();
    push_replaced(&mut out, s, '/', "%2F");
    out
}

/// The digit of the standard Base64 alphabet for a 6-bit value:
/// `A`-`Z`, `a`-`z`, `0`-`9`, `+`, `/`.
pub open spec fn base64_digit(v: nat) -> char {
    if v < 26 {
        (65 + v) as char
    } else if v < 52 {
        (71 + v) as char
    } else if v < 62 {
        (v - 4) as char
    } else if v == 62 {
        '+'
    } else {
        '/'
    }
}

/// The standard Base64 encoding of bytes: each group of three bytes as four
/// digits, a last group of one or two bytes padded with `=`.
pub open spec fn base64_bytes(b: Seq<u8>) -> Seq<char>
    decreases b.len(),
{
    if b.len() == 0 {
        Seq::empty()
    } else if b.len() == 1 {
        let n = b[0] as nat;
        seq![base64_digit(n / 4), base64_digit((n % 4) * 16), '=', '=']
    } else if b.len() == 2 {
        let n = (b[0] as nat) * 256 + (b[1] as nat);
        seq![base64_digit(n / 1024), base64_digit((n / 16) % 64), base64_digit((n % 16) * 4), '=']
    } else {
        let n = (b[0] as nat) * 65536 + (b[1] as nat) * 256 + (b[2] as nat);
        seq![
            base64_digit(n / 262144),
            base64_digit((n / 4096) % 64),
            base64_digit((n / 64) % 64),
            base64_digit(n % 64),
        ] + base64_bytes(b.subrange(3, b.len() as int))
    }
}

/// The standard, padded Base64 encoding of the UTF-8 bytes of `text`.
pub open spec fn base64_standard(text: Seq<char>) -> Seq<char> {
    base64_bytes(vstd::utf8::encode_utf8(text))
}

/// `base64::Engine::encode` with the standard engine (alphabet `A-Za-z0-9+/`,
/// `=` padding) applied to the UTF-8 bytes of `text`.
#[verifier::external_body]
fn base64_encode(text: &str) -> (r: String)
    ensures
        r@ == base64_standard(text@),
{
    base64::Engine::encode(&base64::engine::general_purpose::STANDARD, text)
}

/// A lower-case hexadecimal digit for a value below 16.
pub open spec fn hex_digit(d: nat) -> char {
    if d < 10 {
        (48 + d) as char
    } else {
        (87 + d) as char
    }
}

/// A character as a JSON string holds it: `"` and `\` escaped with a
/// backslash, backspace, tab, line feed, form feed and carriage return as
/// `\b`, `\t`, `\n`, `\f`, `\r`, other control characters below U+0020 as
/// `\u00` and two lower-case hex digits, everything else as it is.
pub open spec fn json_char(c: char) -> Seq<char> {
    let u = c as u32;
    if c == '"' {
        seq!['\\', '"']
    } else if c == '\\' {
        seq!['\\', '\\']
    } else if u == 8 {
        seq!['\\', 'b']
    } else if u == 9 {
        seq!['\\', 't']
    } else if u == 10 {
        seq!['\\', 'n']
    } else if u == 12 {
        seq!['\\', 'f']
    } else if u == 13 {
        seq!['\\', 'r']
    } else if u < 32 {
        seq!['\\', 'u', '0', '0', hex_digit((u / 16) as nat), hex_digit((u % 16) as nat)]
    } else {
        seq![c]
    }
}

/// The characters of a text as a JSON string holds them.
pub open spec fn json_escaped(s: Seq<char>) -> Seq<char>
    decreases s.len(),
{
    if s.len() == 0 {
        Seq::empty()
    } else {
        json_escaped(s.drop_last()) + json_char(s.last())
    }
}

/// A string in JSON notation: quoted, its characters escaped.
pub open spec fn json_string_literal(text: Seq<char>) -> Seq<char> {
    seq!['"'] + json_escaped(text) + seq!['"']
}

/// `serde_json::to_string` of a string: the string quoted and escaped as
/// JSON. For a `&str` it cannot fail; the empty text is kept for a failure
/// that does not occur.
#[verifier::external_body]
fn json_quote(text: &str) -> (r: String)
    ensures
        r@ == json_string_literal(text@),
{
    serde_json::to_string(text).unwrap_or_default()
}

/// The `Authorization` header for a user: none without a user, otherwise
/// `Basic` and the Base64 of `user:password`.
pub open spec fn basic_auth(user: Seq<char>, password: Seq<char>) -> Option<Seq<char>> {
    if user.len() == 0 {
        None
    } else {
        Some("Basic "@ + base64_standard(user + ":"@ + password))
    }
}

/// The view of an optional string.
pub open spec fn opt_view(o: Option<String>) -> Option<Seq<char>> {
    match o {
        Some(s) => Some(s@),
        None => None,
    }
}

/// The request has this method, URL, header, content type and body.
pub open spec fn is_request(
    r: SrRequest,
    method: HttpMethod,
    url: Seq<char>,
    auth: Option<Seq<char>>,
    content_type: Option<Seq<char>>,
    body: Option<Seq<char>>,
) -> bool {
    &&& r.method == method
    &&& r.url@ == url
    &&& opt_view(r.authorization) == auth
    &&& opt_view(r.content_type) == content_type
    &&& opt_view(r.body) == body
}

/// Whether a payload is framed for the registry: at least six bytes, the
/// first zero.
pub open spec fn is_framed(p: Seq<u8>) -> bool {
    p.len() >= 6 && p[0] == 0
}

/// The schema id of a framed payload: bytes one to four, big-endian.
pub open spec fn framed_schema_id(p: Seq<u8>) -> i32 {
    ((p[1] as u32) * 16777216 + (p[2] as u32) * 65536 + (p[3] as u32) * 256 + (p[4] as u32)) as i32
}

/// The reply read as its body, or the error with the prefix of its kind.
pub open spec fn reply_outcome<T>(
    reply: SrReply<T>,
    failed: Seq<char>,
    malformed: Seq<char>,
) -> Result<T, Seq<char>> {
    match reply {
        SrReply::Failed(e) => Err(failed + e@),
        SrReply::Malformed(e) => Err(malformed + e@),
        SrReply::Body(b) => Ok(b),
    }
}

/// The result matches the outcome: the same body, or an error with that text.
pub open spec fn matches_outcome<T>(r: Result<T, Error>, o: Result<T, Seq<char>>) -> bool {
    match (r, o) {
        (Ok(a), Ok(b)) => a == b,
        (Err(Error::Msg(t)), Err(m)) => t@ == m,
        _ => false,
    }
}

fn prefixed(prefix: &str, text: &str) -> (r: String)
    ensures
        r@ == prefix@ + text@,
{
    let mut s = to_owned_string(prefix);
    s.append(text);
    s
}

fn read_reply<T>(reply: SrReply<T>, failed: &str, malformed: &str) -> (r: Result<T, Error>)
    ensures
        matches_outcome(r, reply_outcome(reply, failed@, malformed@)),
{
    match reply {
        SrReply::Failed(e) => Err(Error::msg(prefixed(failed, e.as_str()))),
        SrReply::Malformed(e) => Err(Error::msg(prefixed(malformed, e.as_str()))),
        SrReply::Body(b) => Ok(b),
    }
}

impl SrClient {
    /// The base URL.
    pub closed spec fn base_url(&self) -> Seq<char> {
        self.url@
    }

    /// The user.
    pub closed spec fn user_name(&self) -> Seq<char> {
        self.user@
    }

    /// The password.
    pub closed spec fn user_password(&self) -> Seq<char> {
        self.password@
    }

    /// Whether TLS certificates go unchecked.
    pub closed spec fn skips_tls(&self) -> bool {
        self.skip_tls
    }

    /// The `Authorization` header of this client's requests.
    pub open spec fn auth(&self) -> Option<Seq<char>> {
        basic_auth(self.user_name(), self.user_password())
    }

    /// A client of the registry at `url`, or none where the URL is blank
    /// once trimmed and stripped of trailing slashes.
    pub fn new(url: String, user: String, password: String, skip_tls: bool) -> (r: Option<SrClient>)
        ensures
            r is None <==> normalized_url(url@).len() == 0,
            r matches Some(c) ==> {
                &&& c.base_url() == normalized_url(url@)
                &&& c.user_name() == user@
                &&& c.user_password() == password@
                &&& c.skips_tls() == skip_tls
            },
    {
        let base = to_owned_string(trim_end_char_str(trim_str(url.as_str()), '/'));
        if base.as_str().is_empty() {
            None
        } else {
            Some(SrClient { url: base, user, password, skip_tls })
        }
    }

    /// The base URL.
    pub fn url(&self) -> (r: &str)
        ensures
            r@ == self.base_url(),
    {
        self.url.as_str()
    }

    /// Whether TLS certificates go unchecked.
    pub fn skip_tls(&self) -> (r: bool)
        ensures
            r == self.skips_tls(),
    {
        self.skip_tls
    }

    /// The `Authorization` header: none without a user, else `Basic` and
    /// the Base64 of `user:password`.
    pub fn authorization(&self) -> (r: Option<String>)
        ensures
            opt_view(r) == self.auth(),
    {
        if self.user.as_str().is_empty() {
            None
        } else {
            let mut pair = self.user.clone();
            pair.append(":");
            pair.append(self.password.as_str());
            Some(prefixed("Basic ", base64_encode(pair.as_str()).as_str()))
        }
    }

    fn url_with(&self, path: &str) -> (r: String)
        ensures
            r@ == self.base_url() + path@,
    {
        let mut u = self.url.clone();
        u.append(path);
        u
    }

    fn subject_url(&self, path: &str, subject: &str) -> (r: String)
        ensures
            r@ == self.base_url() + path@ + encoded_subject(subject@),
    {
        let mut u = self.url_with(path);
        push_replaced(&mut u, subject, '/', "%2F");
        u
    }

    fn get(&self, url: String) -> (r: SrRequest)
        ensures
            is_request(r, HttpMethod::Get, url@, self.auth(), None, None),
    {
        SrRequest {
            method: HttpMethod::Get,
            url,
            authorization: self.authorization(),
            content_type: None,
            body: None,
        }
    }

    /// The request that lists the subjects.
    pub fn subjects_request(&self) -> (r: SrRequest)
        ensures
            is_request(r, HttpMethod::Get, self.base_url() + "/subjects"@, self.auth(), None, None),
    {
        self.get(self.url_with("/subjects"))
    }

    /// The subjects of the registry: `fetch` sends the listing request, and
    /// the names it read come back; a failure is reported with its kind.
    pub fn subjects<F: FnOnce(SrRequest) -> SrReply<Vec<String>>>(&self, fetch: F) -> (r: Result<Vec<String>, Error>)
        requires
            forall|q: SrRequest| call_requires(fetch, (q,)),
        ensures
            exists|q: SrRequest, reply: SrReply<Vec<String>>|
                {
                    &&& is_request(q, HttpMethod::Get, self.base_url() + "/subjects"@, self.auth(), None, None)
                    &&& call_ensures(fetch, (q,), reply)
                    &&& matches_outcome(r, reply_outcome(reply, "SR subjects: "@, "SR subjects json: "@))
                },
    {
        let q = self.subjects_request();
        let ghost gq = q;
        let reply = fetch(q);
        let ghost greply = reply;
        let r = read_reply(reply, "SR subjects: ", "SR subjects json: ");
        assert(call_ensures(fetch, (gq,), greply));
        r
    }

    /// The request that lists the versions of a subject.
    pub fn versions_request(&self, subject: &str) -> (r: SrRequest)
        ensures
            is_request(
                r,
                HttpMethod::Get,
                self.base_url() + "/subjects/"@ + encoded_subject(subject@) + "/versions"@,
                self.auth(),
                None,
                None,
            ),
    {
        let mut u = self.subject_url("/subjects/", subject);
        u.append("/versions");
        self.get(u)
    }

    /// The versions of a subject, as `fetch` read them.
    pub fn versions<F: FnOnce(SrRequest) -> SrReply<Vec<i32>>>(&self, subject: &str, fetch: F) -> (r: Result<Vec<i32>, Error>)
        requires
            forall|q: SrRequest| call_requires(fetch, (q,)),
        ensures
            exists|q: SrRequest, reply: SrReply<Vec<i32>>|
                {
                    &&& is_request(
                        q,
                        HttpMethod::Get,
                        self.base_url() + "/subjects/"@ + encoded_subject(subject@) + "/versions"@,
                        self.auth(),
                        None,
                        None,
                    )
                    &&& call_ensures(fetch, (q,), reply)
                    &&& matches_outcome(r, reply_outcome(reply, "SR versions: "@, "SR versions json: "@))
                },
    {
        let q = self.versions_request(subject);
        let ghost gq = q;
        let reply = fetch(q);
        let ghost greply = reply;
        let r = read_reply(reply, "SR versions: ", "SR versions json: ");
        assert(call_ensures(fetch, (gq,), greply));
        r
    }

    /// The request for one version of a subject's schema.
    pub fn schema_request(&self, subject: &str, version: i32) -> (r: SrRequest)
        ensures
            is_request(
                r,
                HttpMethod::Get,
                self.base_url() + "/subjects/"@ + encoded_subject(subject@) + "/versions/"@
                    + int_text(version as int),
                self.auth(),
                None,
                None,
            ),
    {
        let mut u = self.subject_url("/subjects/", subject);
        u.append("/versions/");
        push_int(&mut u, version as i64);
        self.get(u)
    }

    /// One version of a subject's schema, as `fetch` read it.
    pub fn schema<F: FnOnce(SrRequest) -> SrReply<SrVersion>>(&self, subject: &str, version: i32, fetch: F) -> (r: Result<SrVersion, Error>)
        requires
            forall|q: SrRequest| call_requires(fetch, (q,)),
        ensures
            exists|q: SrRequest, reply: SrReply<SrVersion>|
                {
                    &&& is_request(
                        q,
                        HttpMethod::Get,
                        self.base_url() + "/subjects/"@ + encoded_subject(subject@)
                            + "/versions/"@ + int_text(version as int),
                        self.auth(),
                        None,
                        None,
                    )
                    &&& call_ensures(fetch, (q,), reply)
                    &&& matches_outcome(r, reply_outcome(reply, "SR schema: "@, "SR schema json: "@))
                },
    {
        let q = self.schema_request(subject, version);
        let ghost gq = q;
        let reply = fetch(q);
        let ghost greply = reply;
        let r = read_reply(reply, "SR schema: ", "SR schema json: ");
        assert(call_ensures(fetch, (gq,), greply));
        r
    }

    /// The request that deletes a subject.
    pub fn delete_subject_request(&self, subject: &str) -> (r: SrRequest)
        ensures
            is_request(
                r,
                HttpMethod::Delete,
                self.base_url() + "/subjects/"@ + encoded_subject(subject@),
                self.auth(),
                None,
                None,
            ),
    {
        SrRequest {
            method: HttpMethod::Delete,
            url: self.subject_url("/subjects/", subject),
            authorization: self.authorization(),
            content_type: None,
            body: None,
        }
    }

    /// Deletes a subject; `fetch` sends the request, and what it returns is
    /// not read unless the request failed.
    pub fn delete_subject<T, F: FnOnce(SrRequest) -> SrReply<T>>(&self, subject: &str, fetch: F) -> (r: Result<(), Error>)
        requires
            forall|q: SrRequest| call_requires(fetch, (q,)),
        ensures
            exists|q: SrRequest, reply: SrReply<T>|
                {
                    &&& is_request(
                        q,
                        HttpMethod::Delete,
                        self.base_url() + "/subjects/"@ + encoded_subject(subject@),
                        self.auth(),
                        None,
                        None,
                    )
                    &&& call_ensures(fetch, (q,), reply)
                    &&& match reply {
                        SrReply::Failed(e) => r matches Err(Error::Msg(t)) && t@ == "SR delete: "@
                            + e@,
                        _ => r is Ok,
                    }
                },
    {
        let q = self.delete_subject_request(subject);
        let ghost gq = q;
        let reply = fetch(q);
        let ghost greply = reply;
        assert(call_ensures(fetch, (gq,), greply));
        match reply {
            SrReply::Failed(e) => Err(Error::msg(prefixed("SR delete: ", e.as_str()))),
            _ => Ok(()),
        }
    }

    /// The request that sets a subject's compatibility level: a `PUT` of
    /// `{"compatibility":<level>}`, sent without credentials.
    pub fn set_compatibility_request(&self, subject: &str, level: &str) -> (r: SrRequest)
        ensures
            is_request(
                r,
                HttpMethod::Put,
                self.base_url() + "/config/"@ + encoded_subject(subject@),
                None,
                Some("application/vnd.schemaregistry.v1+json"@),
                Some("{\"compatibility\":"@ + json_string_literal(level@) + "}"@),
            ),
    {
        let mut body = to_owned_string("{\"compatibility\":");
        body.append(json_quote(level).as_str());
        body.append("}");
        SrRequest {
            method: HttpMethod::Put,
            url: self.subject_url("/config/", subject),
            authorization: None,
            content_type: Some(to_owned_string("application/vnd.schemaregistry.v1+json")),
            body: Some(body),
        }
    }

    /// Sets a subject's compatibility level; only a failed request counts.
    pub fn set_compatibility<T, F: FnOnce(SrRequest) -> SrReply<T>>(&self, subject: &str, level: &str, fetch: F) -> (r: Result<(), Error>)
        requires
            forall|q: SrRequest| call_requires(fetch, (q,)),
        ensures
            exists|q: SrRequest, reply: SrReply<T>|
                {
                    &&& is_request(
                        q,
                        HttpMethod::Put,
                        self.base_url() + "/config/"@ + encoded_subject(subject@),
                        None,
                        Some("application/vnd.schemaregistry.v1+json"@),
                        Some("{\"compatibility\":"@ + json_string_literal(level@) + "}"@),
                    )
                    &&& call_ensures(fetch, (q,), reply)
                    &&& match reply {
                        SrReply::Failed(e) => r matches Err(Error::Msg(t)) && t@
                            == "SR compatibility: "@ + e@,
                        _ => r is Ok,
                    }
                },
    {
        let q = self.set_compatibility_request(subject, level);
        let ghost gq = q;
        let reply = fetch(q);
        let ghost greply = reply;
        assert(call_ensures(fetch, (gq,), greply));
        match reply {
            SrReply::Failed(e) => Err(Error::msg(prefixed("SR compatibility: ", e.as_str()))),
            _ => Ok(()),
        }
    }

    /// The request for the schema with an id.
    pub fn schema_by_id_request(&self, id: i32) -> (r: SrRequest)
        ensures
            is_request(
                r,
                HttpMethod::Get,
                self.base_url() + "/schemas/ids/"@ + int_text(id as int),
                self.auth(),
                None,
                None,
            ),
    {
        let mut u = self.url_with("/schemas/ids/");
        push_int(&mut u, id as i64);
        self.get(u)
    }

    /// Renders a record value. A payload that is not framed for the registry
    /// is read as UTF-8. A framed one names a schema: `fetch` looks it up by
    /// id and returns its `schema` text (empty where it has none). Without a
    /// schema the rest of the payload is read as UTF-8; with one it is
    /// decoded as Avro and written with `Debug`.
    pub fn decode<F: FnOnce(SrRequest) -> SrReply<String>>(&self, payload: &[u8], fetch: F) -> (r: Result<String, Error>)
        requires
            forall|q: SrRequest| call_requires(fetch, (q,)),
        ensures
            !is_framed(payload@) ==> (r matches Ok(t) && t@ == lossy_utf8(payload@)),
            is_framed(payload@) ==> exists|q: SrRequest, reply: SrReply<String>|
                #![trigger call_ensures(fetch, (q,), reply)]
                {
                    let id = framed_schema_id(payload@);
                    let body = payload@.subrange(5, payload@.len() as int);
                    &&& is_request(
                        q,
                        HttpMethod::Get,
                        self.base_url() + "/schemas/ids/"@ + int_text(id as int),
                        self.auth(),
                        None,
                        None,
                    )
                    &&& call_ensures(fetch, (q,), reply)
                    &&& match reply {
                        SrReply::Failed(e) => r matches Err(Error::Msg(t)) && t@ == "SR id "@
                            + int_text(id as int) + ": "@ + e@,
                        SrReply::Malformed(e) => r matches Err(Error::Msg(t)) && t@
                            == "SR id json: "@ + e@,
                        SrReply::Body(schema) => if schema@.len() == 0 {
                            r matches Ok(t) && t@ == lossy_utf8(body)
                        } else if avro_schema_check(schema@) is Some {
                            r matches Err(Error::Msg(t)) && t@ == "Avro schema: "@
                                + avro_schema_check(schema@).unwrap()
                        } else if avro_datum_check(schema@, body) is Some {
                            r matches Err(Error::Msg(t)) && t@ == "Avro decode: "@
                                + avro_datum_check(schema@, body).unwrap()
                        } else {
                            r matches Ok(t) && t@.len() > 0
                        },
                    }
                },
    {
        let n = payload.len();
        if n < 6 || payload[0] != 0 {
            return Ok(utf8_lossy(payload));
        }
        let id_bits: u32 = (payload[1] as u32) * 16777216 + (payload[2] as u32) * 65536
            + (payload[3] as u32) * 256 + (payload[4] as u32);
        let id = id_bits as i32;
        let body = slice_subrange(payload, 5, n);
        let q = self.schema_by_id_request(id);
        let ghost gq = q;
        let reply = fetch(q);
        let ghost greply = reply;
        assert(call_ensures(fetch, (gq,), greply));
        match reply {
            SrReply::Failed(e) => {
                let mut t = to_owned_string("SR id ");
                push_int(&mut t, id as i64);
                t.append(": ");
                t.append(e.as_str());
                Err(Error::msg(t))
            },
            SrReply::Malformed(e) => Err(Error::msg(prefixed("SR id json: ", e.as_str()))),
            SrReply::Body(schema_text) => {
                if schema_text.as_str().is_empty() {
                    return Ok(utf8_lossy(body));
                }
                match parse_schema(schema_text.as_str()) {
                    Err(e) => Err(Error::msg(prefixed("Avro schema: ", e.as_str()))),
                    Ok(schema) => match decode_datum(&schema, body) {
                        Ok(text) => Ok(text),
                        Err(e) => Err(Error::msg(prefixed("Avro decode: ", e.as_str()))),
                    },
                }
            },
        }
    }
}

} // verus!
