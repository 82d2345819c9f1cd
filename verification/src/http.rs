//! Requests and responses as scripts see them, and what becomes of a
//! response on the wire.

use vstd::prelude::*;
use vstd::string::*;
use vstd::utf8::{encode_utf8, valid_utf8};
use crate::decimal::{decimal_of_u64, spec_digits};
use crate::error::{ScriptError, ScriptErrorKind};
use crate::headers::{
    collect_headers, header_pairs, lemma_collected_to, lemma_names_given, lemma_names_kept,
    names_distinct, spec_collected,
};
use crate::text::{chars_of, str_eq};

verus! {

/// The HTTP extension of the runtime.
pub struct HttpExtension;

/// Host and port of a URI.
#[derive(Clone, Debug, PartialEq, Eq)]
pub struct Authority {
    pub host: String,
    pub port: Option<u16>,
}

/// A URI in its parts.
#[derive(Clone, Debug, PartialEq, Eq)]
pub struct Uri {
    pub scheme: Option<String>,
    pub authority: Option<Authority>,
    pub path: String,
    pub query: Option<String>,
}

/// An authority as a value.
pub struct AuthorityView {
    pub host: Seq<char>,
    pub port: Option<u16>,
}

/// A URI as a value.
pub struct UriView {
    pub scheme: Option<Seq<char>>,
    pub authority: Option<AuthorityView>,
    pub path: Seq<char>,
    pub query: Option<Seq<char>>,
}

impl View for Authority {
    type V = AuthorityView;

    open spec fn view(&self) -> AuthorityView {
        AuthorityView { host: self.host@, port: self.port }
    }
}

impl View for Uri {
    type V = UriView;

    open spec fn view(&self) -> UriView {
        UriView {
            scheme: match self.scheme {
                Some(s) => Some(s@),
                None => None,
            },
            authority: match self.authority {
                Some(a) => Some(a@),
                None => None,
            },
            path: self.path@,
            query: match self.query {
                Some(q) => Some(q@),
                None => None,
            },
        }
    }
}

/// The text of an authority: the host, and the port behind a colon where
/// there is one.
pub open spec fn spec_authority_text(authority: AuthorityView) -> Seq<char> {
    match authority.port {
        Some(port) => authority.host + ":"@ + spec_digits(port as nat),
        None => authority.host,
    }
}

/// The text of a URI: scheme and `://` where there is a scheme, the
/// authority where there is one, the path, and the query behind `?` where
/// there is one.
pub open spec fn spec_uri_text(uri: UriView) -> Seq<char> {
    (match uri.scheme {
        Some(scheme) => scheme + "://"@,
        None => Seq::empty(),
    }) + (match uri.authority {
        Some(authority) => spec_authority_text(authority),
        None => Seq::empty(),
    }) + uri.path + (match uri.query {
        Some(query) => "?"@ + query,
        None => Seq::empty(),
    })
}

/// The URI that `hyper` reads from `text`, in its parts; `None` where it
/// refuses the text.
pub uninterp spec fn uri_of_text(text: Seq<char>) -> Option<UriView>;

/// The view of an optional URI.
pub open spec fn optional_uri(uri: Option<Uri>) -> Option<UriView> {
    match uri {
        Some(u) => Some(u@),
        None => None,
    }
}

/// Calls `hyper::Uri::from_str` and copies scheme, host, port, path and
/// query out of what it read. The contract only names the result.
#[verifier::external_body]
fn uri_parse(text: &str) -> (uri: Option<Uri>)
    ensures
        optional_uri(uri) == uri_of_text(text@),
{
    match <hyper::Uri as std::str::FromStr>::from_str(text) {
        Ok(read) => Some(
            Uri {
                scheme: read.scheme_str().map(str::to_string),
                authority: read.authority().map(
                    |a| Authority { host: a.host().to_string(), port: a.port_u16() },
                ),
                path: read.path().to_string(),
                query: read.query().map(str::to_string),
            },
        ),
        Err(_) => None,
    }
}

impl Authority {
    /// A copy of this authority.
    pub fn duplicate(&self) -> (copy: Authority)
        ensures
            copy@ == self@,
    {
        Authority { host: self.host.clone(), port: self.port }
    }

    /// Writes this authority out.
    pub fn render(&self) -> (text: String)
        ensures
            text@ == spec_authority_text(self@),
    {
        let mut text = self.host.clone();
        match self.port {
            Some(port) => {
                text.append(":");
                text.append(decimal_of_u64(port as u64).as_str());
            },
            None => {},
        }
        text
    }
}

impl Uri {
    /// A copy of this URI.
    pub fn duplicate(&self) -> (copy: Uri)
        ensures
            copy@ == self@,
    {
        Uri {
            scheme: match &self.scheme {
                Some(s) => Some(s.clone()),
                None => None,
            },
            authority: match &self.authority {
                Some(a) => Some(a.duplicate()),
                None => None,
            },
            path: self.path.clone(),
            query: match &self.query {
                Some(q) => Some(q.clone()),
                None => None,
            },
        }
    }

    /// Reads a URI from text.
    pub fn parse(text: &str) -> (uri: Option<Uri>)
        ensures
            optional_uri(uri) == uri_of_text(text@),
    {
        uri_parse(text)
    }

    /// Writes this URI out.
    pub fn render(&self) -> (text: String)
        ensures
            text@ == spec_uri_text(self@),
    {
        let mut text = String::new();
        match &self.scheme {
            Some(scheme) => {
                text.append(scheme.as_str());
                text.append("://");
            },
            None => {},
        }
        match &self.authority {
            Some(authority) => {
                text.append(authority.render().as_str());
            },
            None => {},
        }
        text.append(self.path.as_str());
        match &self.query {
            Some(query) => {
                text.append("?");
                text.append(query.as_str());
            },
            None => {},
        }
        assert(text@ =~= spec_uri_text(self@));
        text
    }
}

/// A URI as a script may hand it over: in its parts, or as text.
#[derive(Clone, Debug, PartialEq, Eq)]
pub enum UriType {
    Uri(Uri),
    String(String),
}

impl UriType {
    /// The URI in its parts; `None` where the text is no URI.
    pub fn to_uri(&self) -> (uri: Option<Uri>)
        ensures
            optional_uri(uri) == match self {
                UriType::Uri(parts) => Some(parts@),
                UriType::String(text) => uri_of_text(text@),
            },
    {
        match self {
            UriType::Uri(parts) => Some(parts.duplicate()),
            UriType::String(text) => uri_parse(text.as_str()),
        }
    }
}

/// The body of a request or response: text where the bytes are UTF-8, else
/// the bytes.
#[derive(Clone, Debug, PartialEq, Eq)]
pub enum BodyType {
    Binary(Vec<u8>),
    Text(String),
}

/// The bytes that a body stands for.
pub open spec fn spec_body_bytes(body: BodyType) -> Seq<u8> {
    match body {
        BodyType::Binary(bytes) => bytes@,
        BodyType::Text(text) => encode_utf8(text@),
    }
}

/// Calls `String::from_utf8`, which gives the text exactly where the bytes
/// are valid UTF-8, and hands back `None` where they are not. The text that
/// comes back is the one whose UTF-8 form the bytes are.
#[verifier::external_body]
fn text_of_bytes(bytes: Vec<u8>) -> (text: Option<String>)
    ensures
        text is Some <==> valid_utf8(bytes@),
        text matches Some(t) ==> encode_utf8(t@) == bytes@,
{
    match String::from_utf8(bytes) {
        Ok(text) => Some(text),
        Err(_) => None,
    }
}

/// Reads bytes as text where they are UTF-8.
pub fn utf8_text(bytes: &Vec<u8>) -> (text: Option<String>)
    ensures
        text is Some <==> valid_utf8(bytes@),
        text matches Some(t) ==> encode_utf8(t@) == bytes@,
{
    text_of_bytes(bytes.clone())
}

impl BodyType {
    /// The body that `bytes` are: text where they are valid UTF-8, else
    /// the bytes as they are. Either way the body stands for `bytes`.
    pub fn from_bytes(bytes: Vec<u8>) -> (body: BodyType)
        ensures
            spec_body_bytes(body) == bytes@,
            body is Text <==> valid_utf8(bytes@),
    {
        match text_of_bytes(bytes.clone()) {
            Some(text) => BodyType::Text(text),
            None => BodyType::Binary(bytes),
        }
    }

    /// The bytes of this body.
    pub fn into_bytes(self) -> (bytes: Vec<u8>)
        ensures
            bytes@ == spec_body_bytes(self),
    {
        match self {
            BodyType::Binary(bytes) => bytes,
            BodyType::Text(text) => text.as_str().as_bytes_vec(),
        }
    }
}

/// A version of HTTP.
#[derive(Clone, Copy, Debug, PartialEq, Eq, Structural)]
pub enum Version {
    Http09,
    Http10,
    Http11,
    Http2,
    Http3,
}

/// How a version is written.
pub open spec fn spec_version_text(version: Version) -> Seq<char> {
    match version {
        Version::Http09 => "HTTP/0.9"@,
        Version::Http10 => "HTTP/1.0"@,
        Version::Http11 => "HTTP/1.1"@,
        Version::Http2 => "HTTP/2.0"@,
        Version::Http3 => "HTTP/3.0"@,
    }
}

/// The version that `text` is the writing of, if it is one.
pub open spec fn spec_version_of(text: Seq<char>) -> Option<Version> {
    if text == "HTTP/0.9"@ {
        Some(Version::Http09)
    } else if text == "HTTP/1.0"@ {
        Some(Version::Http10)
    } else if text == "HTTP/1.1"@ {
        Some(Version::Http11)
    } else if text == "HTTP/2.0"@ {
        Some(Version::Http2)
    } else if text == "HTTP/3.0"@ {
        Some(Version::Http3)
    } else {
        None
    }
}

/// What is said of text that is no version.
pub open spec fn bad_version_text(text: Seq<char>) -> Seq<char> {
    "'"@ + text + "' was not a valid HTTP version."@
}

/// Writes a version out.
pub fn version_text(version: Version) -> (text: String)
    ensures
        text@ == spec_version_text(version),
{
    match version {
        Version::Http09 => String::from_str("HTTP/0.9"),
        Version::Http10 => String::from_str("HTTP/1.0"),
        Version::Http11 => String::from_str("HTTP/1.1"),
        Version::Http2 => String::from_str("HTTP/2.0"),
        Version::Http3 => String::from_str("HTTP/3.0"),
    }
}

/// Reads a version. Any other text is an error that names the text.
pub fn string_to_version(text: &str) -> (result: Result<Version, ScriptError>)
    ensures
        match result {
            Ok(version) => spec_version_of(text@) == Some(version),
            Err(error) => spec_version_of(text@) is None && error.is(
                ScriptErrorKind::Deserialize,
                bad_version_text(text@),
            ),
        },
{
    if str_eq(text, "HTTP/0.9") {
        Ok(Version::Http09)
    } else if str_eq(text, "HTTP/1.0") {
        Ok(Version::Http10)
    } else if str_eq(text, "HTTP/1.1") {
        Ok(Version::Http11)
    } else if str_eq(text, "HTTP/2.0") {
        Ok(Version::Http2)
    } else if str_eq(text, "HTTP/3.0") {
        Ok(Version::Http3)
    } else {
        let mut message = String::from_str("'");
        message.append(text);
        message.append("' was not a valid HTTP version.");
        Err(ScriptError::DeserializeError(message))
    }
}

/// Every version is read back from its writing.
pub proof fn lemma_version_round_trip(version: Version)
    ensures
        spec_version_of(spec_version_text(version)) == Some(version),
{
    reveal_strlit("HTTP/0.9");
    reveal_strlit("HTTP/1.0");
    reveal_strlit("HTTP/1.1");
    reveal_strlit("HTTP/2.0");
    reveal_strlit("HTTP/3.0");
    assert("HTTP/0.9"@[5] == '0' && "HTTP/1.0"@[5] == '1' && "HTTP/1.1"@[5] == '1');
    assert("HTTP/2.0"@[5] == '2' && "HTTP/3.0"@[5] == '3');
    assert("HTTP/1.0"@[7] == '0' && "HTTP/1.1"@[7] == '1');
}

/// One header: a name and a value.
#[derive(Clone, Debug, PartialEq, Eq)]
pub struct Header {
    pub name: String,
    pub value: String,
}

/// A request as a script sees it, incoming or about to be sent.
#[derive(Clone, Debug, PartialEq, Eq)]
pub struct Request {
    pub uri: UriType,
    /// The URI without the routing label; only on incoming requests.
    pub context_uri: Option<UriType>,
    pub method: Option<String>,
    /// The headers, each name once.
    pub headers: Vec<Header>,
    pub version: Option<String>,
    pub body: Option<BodyType>,
}

/// A response as a script returns it, or as it gets one from outside.
#[derive(Clone, Debug, PartialEq, Eq)]
pub struct Response {
    pub status_code: Option<u16>,
    /// The headers, each name once.
    pub headers: Option<Vec<Header>>,
    pub body: Option<BodyType>,
}

/// A response as it goes out on the wire.
#[derive(Clone, Debug, PartialEq, Eq)]
pub struct HttpResponse {
    pub status: u16,
    /// The headers, each name once.
    pub headers: Vec<Header>,
    pub body: Vec<u8>,
}

/// The method of a request that names none.
pub open spec fn spec_method(method: Option<String>) -> Seq<char> {
    match method {
        Some(m) => m@,
        None => "GET"@,
    }
}

/// Whether `text` is the text of the URI `uri`.
pub open spec fn text_of_uri(text: UriType, uri: UriView) -> bool {
    text matches UriType::String(t) && t@ == spec_uri_text(uri)
}

impl Request {
    /// What holds of a request: no name occurs twice among its headers.
    pub open spec fn wf(self) -> bool {
        names_distinct(self.headers@)
    }

    /// The request that a script is handed for what came in. Both URIs are
    /// handed over as text; without a context URI the URI itself takes its
    /// place. Of the headers of one name the last is handed over.
    pub fn new(
        uri: &Uri,
        context_uri: Option<&Uri>,
        method: &str,
        headers: Vec<Header>,
        version: Version,
        body: Vec<u8>,
    ) -> (request: Request)
        ensures
            text_of_uri(request.uri, uri@),
            request.context_uri is Some,
            text_of_uri(
                request.context_uri.unwrap(),
                match context_uri {
                    Some(context) => context@,
                    None => uri@,
                },
            ),
            request.method is Some,
            request.method.unwrap()@ == method@,
            request.wf(),
            header_pairs(request.headers@) == spec_collected(header_pairs(headers@)),
            request.version is Some,
            request.version.unwrap()@ == spec_version_text(version),
            request.body is Some,
            spec_body_bytes(request.body.unwrap()) == body@,
            request.body.unwrap() is Text <==> valid_utf8(body@),
    {
        let context = match context_uri {
            Some(context) => context.render(),
            None => uri.render(),
        };
        Request {
            uri: UriType::String(uri.render()),
            context_uri: Some(UriType::String(context)),
            method: Some(String::from_str(method)),
            headers: collect_headers(&headers),
            version: Some(version_text(version)),
            body: Some(BodyType::from_bytes(body)),
        }
    }

    /// The method of this request: `GET` where none is named.
    pub fn method_or_get(&self) -> (method: String)
        ensures
            method@ == spec_method(self.method),
    {
        match &self.method {
            Some(m) => m.clone(),
            None => String::from_str("GET"),
        }
    }

    /// The version of this request: HTTP/1.1 where none is named, an error
    /// where what is named is no version.
    pub fn version_or_default(&self) -> (result: Result<Version, ScriptError>)
        ensures
            match self.version {
                None => result == Ok::<Version, ScriptError>(Version::Http11),
                Some(text) => match result {
                    Ok(version) => spec_version_of(text@) == Some(version),
                    Err(error) => spec_version_of(text@) is None && error.is(
                        ScriptErrorKind::Deserialize,
                        bad_version_text(text@),
                    ),
                },
            },
    {
        match &self.version {
            Some(text) => string_to_version(text.as_str()),
            None => Ok(Version::Http11),
        }
    }
}

/// The greatest length of the name of a header.
pub const MAX_HEADER_NAME: usize = 65_535;

/// Whether `c` may stand in the name of a header: a letter, a digit, or one
/// of the signs ``! " # $ % & ' * + - . ^ _ ` | ~``.
pub open spec fn header_name_char(c: char) -> bool {
    ||| ('!' <= c && c <= '\'')
    ||| c == '*'
    ||| c == '+'
    ||| c == '-'
    ||| c == '.'
    ||| ('0' <= c && c <= '9')
    ||| ('A' <= c && c <= 'Z')
    ||| ('^' <= c && c <= 'z')
    ||| c == '|'
    ||| c == '~'
}

/// Whether `name` can be the name of a header: it is not empty, not longer
/// than [`MAX_HEADER_NAME`], and every character may stand in one.
pub open spec fn header_name_parses(name: Seq<char>) -> bool {
    &&& 0 < name.len() <= MAX_HEADER_NAME
    &&& forall|i: int| 0 <= i < name.len() ==> header_name_char(#[trigger] name[i])
}

/// Whether `c` may stand in the value of a header: a tab, or any character
/// from the space on but for the delete character.
pub open spec fn header_value_char(c: char) -> bool {
    c == '\t' || (' ' <= c && c != '\u{7f}')
}

/// Whether `value` can be the value of a header: every character may stand
/// in one.
pub open spec fn header_value_parses(value: Seq<char>) -> bool {
    forall|i: int| 0 <= i < value.len() ==> header_value_char(#[trigger] value[i])
}

/// Calls `from_str` of `hyper::header::HeaderName` and tells whether it
/// took the name. It refuses the empty name and one of more than 65535
/// bytes, and looks every byte up in a table that lets through the letters
/// of ASCII, its digits and sixteen of its signs. A character outside
/// ASCII is made of bytes that the table refuses, so the bytes of a name
/// that is taken are as many as its characters.
#[verifier::external_body]
fn header_name_check(name: &str) -> (valid: bool)
    ensures
        valid == header_name_parses(name@),
{
    match <hyper::header::HeaderName as std::str::FromStr>::from_str(name) {
        Ok(_) => true,
        Err(_) => false,
    }
}

/// Whether `value` can be the value of a header, as `hyper` takes it: it
/// refuses a value that holds a byte below 32 other than the tab, or the
/// byte 127, and the bytes of a character outside ASCII are all above 127.
pub fn header_value_check(value: &str) -> (valid: bool)
    ensures
        valid == header_value_parses(value@),
{
    let chars = chars_of(value);
    let mut i: usize = 0;
    while i < chars.len()
        invariant
            i <= chars.len(),
            chars@ == value@,
            forall|k: int| 0 <= k < i ==> header_value_char(#[trigger] chars[k]),
        decreases chars.len() - i,
    {
        let c: char = chars[i];
        if !(c == '\t' || (' ' <= c && c != '\u{7f}')) {
            return false;
        }
        i = i + 1;
    }
    true
}

/// The header that goes out for a header that a script returned, once it
/// is known whether its name and its value are taken: none where the name
/// is none; else the header, with the empty value where its value is not
/// taken.
pub fn clean_header(header: &Header, name_taken: bool, value_taken: bool) -> (out: Option<
    Header,
>)
    ensures
        out is Some <==> name_taken,
        out matches Some(cleaned) ==> cleaned.name@ == header.name@ && cleaned.value@ == (
        if value_taken {
            header.value@
        } else {
            Seq::empty()
        }),
{
    if !name_taken {
        return None;
    }
    let value = if value_taken {
        header.value.clone()
    } else {
        String::new()
    };
    Some(Header { name: header.name.clone(), value })
}

/// What a script may answer with: a status from 100 to 599.
pub open spec fn spec_status_ok(status: u16) -> bool {
    100 <= status <= 599
}

/// The headers that go out for the names and values that a script
/// returned: each under its name, with its value where that can be the
/// value of a header and with the empty value where not.
pub open spec fn headers_cleaned(out: Seq<Header>, given: Seq<(Seq<char>, Seq<char>)>) -> bool {
    &&& out.len() == given.len()
    &&& forall|i: int|
        0 <= i < out.len() ==> (#[trigger] out[i]).name@ == given[i].0 && out[i].value@ == (
        if header_value_parses(given[i].1) {
            given[i].1
        } else {
            Seq::empty()
        })
}

/// The names and values that go out for a response, before they are
/// cleaned: those that the script returned, each name once with the value
/// that was given for it last.
pub open spec fn spec_sent(headers: Option<Vec<Header>>) -> Seq<(Seq<char>, Seq<char>)> {
    spec_collected(header_pairs(spec_headers(headers)))
}

/// Whether some header of `headers` has a name that is none.
pub open spec fn some_bad_name(headers: Seq<Header>) -> bool {
    exists|i: int| 0 <= i < headers.len() && !header_name_parses((#[trigger] headers[i]).name@)
}

/// The headers of a response that may have none.
pub open spec fn spec_headers(headers: Option<Vec<Header>>) -> Seq<Header> {
    match headers {
        Some(list) => list@,
        None => Seq::empty(),
    }
}

/// The status of a response that may name none: 200.
pub open spec fn spec_status(status: Option<u16>) -> u16 {
    match status {
        Some(code) => code,
        None => 200,
    }
}

/// Why a response cannot go out, if it cannot.
pub open spec fn response_refusal(response: Response) -> Option<Seq<char>> {
    if !spec_status_ok(spec_status(response.status_code)) {
        Some("invalid status code"@)
    } else if some_bad_name(spec_headers(response.headers)) {
        Some("invalid HTTP header name"@)
    } else {
        None
    }
}

impl HttpResponse {
    /// What holds of a response that goes out: no name occurs twice among
    /// its headers.
    pub open spec fn wf(self) -> bool {
        names_distinct(self.headers@)
    }
}

impl Response {
    /// What holds of a response: no name occurs twice among its headers.
    pub open spec fn wf(self) -> bool {
        names_distinct(spec_headers(self.headers))
    }

    /// Turns what a script returned into what goes out: the status, 200
    /// where none is named; the headers, each name once, values that
    /// cannot be sent replaced by the empty value; the bytes of the body,
    /// none where there is no body. A status outside 100 to 599 and a
    /// header name that is none are errors.
    pub fn into_http(self) -> (result: Result<HttpResponse, ScriptError>)
        ensures
            match result {
                Ok(out) => {
                    &&& response_refusal(self) is None
                    &&& out.wf()
                    &&& out.status == spec_status(self.status_code)
                    &&& headers_cleaned(out.headers@, spec_sent(self.headers))
                    &&& out.body@ == match self.body {
                        Some(body) => spec_body_bytes(body),
                        None => Seq::empty(),
                    }
                },
                Err(error) => response_refusal(self) == Some(error.text()) && error.kind()
                    == ScriptErrorKind::Runtime,
            },
    {
        let status: u16 = match self.status_code {
            Some(code) => code,
            None => 200,
        };
        if status < 100 || status > 599 {
            return Err(ScriptError::runtime("invalid status code"));
        }
        let kept: Vec<Header> = match &self.headers {
            Some(given) => collect_headers(given),
            None => Vec::new(),
        };
        let ghost given = header_pairs(spec_headers(self.headers));
        let ghost pairs = header_pairs(kept@);
        assert(pairs =~= spec_sent(self.headers));
        let mut headers: Vec<Header> = Vec::new();
        let mut i: usize = 0;
        while i < kept.len()
            invariant
                i <= kept.len(),
                given == header_pairs(spec_headers(self.headers)),
                pairs == header_pairs(kept@),
                pairs == spec_collected(given),
                spec_status_ok(spec_status(self.status_code)),
                headers_cleaned(headers@, pairs.subrange(0, i as int)),
                forall|k: int| 0 <= k < i ==> header_name_parses((#[trigger] pairs[k]).0),
            decreases kept.len() - i,
        {
            let header = &kept[i];
            let cleaned = clean_header(
                header,
                header_name_check(header.name.as_str()),
                header_value_check(header.value.as_str()),
            );
            match cleaned {
                Some(out) => {
                    headers.push(out);
                },
                None => {
                    proof {
                        assert(!header_name_parses(pairs[i as int].0));
                        lemma_names_given(given, i as int);
                        let at = choose|at: int|
                            0 <= at < given.len() && (#[trigger] given[at]).0 == pairs[i as int].0;
                        assert(spec_headers(self.headers)[at].name@ == given[at].0);
                    }
                    return Err(ScriptError::runtime("invalid HTTP header name"));
                },
            }
            i = i + 1;
        }
        proof {
            assert(pairs.subrange(0, i as int) =~= pairs);
            assert forall|at: int| 0 <= at < spec_headers(self.headers).len() implies header_name_parses(
                (#[trigger] spec_headers(self.headers)[at]).name@,
            ) by {
                lemma_names_kept(given, at);
                let k = choose|k: int| 0 <= k < pairs.len() && (#[trigger] pairs[k]).0 == given[at].0;
                assert(header_name_parses(pairs[k].0));
            }
            lemma_collected_to(given, given.len() as int);
            assert forall|a: int, b: int| 0 <= a < b < headers.len() implies (
            #[trigger] header_pairs(headers@)[a]).0 != (#[trigger] header_pairs(headers@)[b]).0 by {
                assert(headers@[a].name@ == pairs[a].0);
                assert(headers@[b].name@ == pairs[b].0);
            }
        }
        let body: Vec<u8> = match self.body {
            Some(body) => body.into_bytes(),
            None => Vec::new(),
        };
        Ok(HttpResponse { status, headers, body })
    }
}

} // verus!
