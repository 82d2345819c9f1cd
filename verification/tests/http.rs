use actias::error::ScriptError;
use actias::headers::collect_headers;
use actias::http::{
    header_value_check, string_to_version, utf8_text, version_text, Authority, BodyType, Header,
    HttpResponse, Request, Response, Uri, UriType, Version,
};

fn header(name: &str, value: &str) -> Header {
    Header { name: name.to_string(), value: value.to_string() }
}

fn answer_with(name: &str) -> Result<HttpResponse, ScriptError> {
    Response { status_code: None, headers: Some(vec![header(name, "v")]), body: None }.into_http()
}

fn may_stand_in_a_name(c: char) -> bool {
    c.is_ascii_alphanumeric() || "!\"#$%&'*+-.^_`|~".contains(c)
}

fn full() -> Uri {
    Uri {
        scheme: Some("https".to_string()),
        authority: Some(Authority { host: "example.org".to_string(), port: Some(8443) }),
        path: "/a/b".to_string(),
        query: Some("x=1".to_string()),
    }
}

#[test]
fn a_uri_is_written_from_its_parts() {
    assert_eq!(full().render(), "https://example.org:8443/a/b?x=1");
    let bare = Uri { scheme: None, authority: None, path: "/only".to_string(), query: None };
    assert_eq!(bare.render(), "/only");
    let no_port = Uri {
        scheme: Some("http".to_string()),
        authority: Some(Authority { host: "h".to_string(), port: None }),
        path: "/".to_string(),
        query: Some("".to_string()),
    };
    assert_eq!(no_port.render(), "http://h/?");
    assert_eq!(Authority { host: "h".to_string(), port: Some(0) }.render(), "h:0");
    assert_eq!(Authority { host: "h".to_string(), port: Some(65535) }.render(), "h:65535");
}

#[test]
fn a_uri_is_read_into_its_parts() {
    assert_eq!(Uri::parse("https://example.org:8443/a/b?x=1"), Some(full()));
    let path_only = Uri::parse("/x/y?q").unwrap();
    assert_eq!(path_only.scheme, None);
    assert_eq!(path_only.authority, None);
    assert_eq!(path_only.path, "/x/y");
    assert_eq!(path_only.query, Some("q".to_string()));
    assert_eq!(Uri::parse(""), None);
    assert_eq!(Uri::parse("http://bad host/"), None);
}

#[test]
fn a_uri_that_was_written_is_read_back() {
    assert_eq!(Uri::parse(&full().render()), Some(full()));
    assert_eq!(full().duplicate(), full());
}

#[test]
fn a_uri_is_taken_in_parts_or_as_text() {
    assert_eq!(UriType::Uri(full()).to_uri(), Some(full()));
    assert_eq!(
        UriType::String("https://example.org:8443/a/b?x=1".to_string()).to_uri(),
        Some(full())
    );
    assert_eq!(UriType::String("".to_string()).to_uri(), None);
}

#[test]
fn a_body_is_text_where_its_bytes_are_utf8() {
    assert_eq!(BodyType::from_bytes(b"hello".to_vec()), BodyType::Text("hello".to_string()));
    assert_eq!(
        BodyType::from_bytes("caf\u{e9}".as_bytes().to_vec()),
        BodyType::Text("caf\u{e9}".to_string())
    );
    assert_eq!(BodyType::from_bytes(vec![0xff, 0x00]), BodyType::Binary(vec![0xff, 0x00]));
    assert_eq!(BodyType::from_bytes(Vec::new()), BodyType::Text(String::new()));
}

#[test]
fn a_body_stands_for_its_bytes() {
    for bytes in [b"hello".to_vec(), vec![0xff, 0x00], Vec::new(), vec![0xc3, 0xa9], vec![0xc3]] {
        assert_eq!(BodyType::from_bytes(bytes.clone()).into_bytes(), bytes);
    }
    assert_eq!(BodyType::Text("hi".to_string()).into_bytes(), b"hi".to_vec());
}

#[test]
fn bytes_are_text_only_where_they_are_utf8() {
    assert_eq!(utf8_text(&b"return 1".to_vec()), Some("return 1".to_string()));
    assert_eq!(utf8_text(&vec![0xe2, 0x82, 0xac]), Some("\u{20ac}".to_string()));
    assert_eq!(utf8_text(&vec![0xe2, 0x82]), None);
    assert_eq!(utf8_text(&vec![0xed, 0xa0, 0x80]), None);
    assert_eq!(utf8_text(&vec![0xc0, 0x80]), None);
}

#[test]
fn versions_are_written_and_read() {
    let versions = [
        (Version::Http09, "HTTP/0.9"),
        (Version::Http10, "HTTP/1.0"),
        (Version::Http11, "HTTP/1.1"),
        (Version::Http2, "HTTP/2.0"),
        (Version::Http3, "HTTP/3.0"),
    ];
    for (version, text) in versions {
        assert_eq!(version_text(version), text);
        assert_eq!(string_to_version(text), Ok(version));
    }
}

#[test]
fn what_is_no_version_is_an_error_that_names_it() {
    assert_eq!(
        string_to_version("HTTP/4.0"),
        Err(ScriptError::DeserializeError("'HTTP/4.0' was not a valid HTTP version.".to_string()))
    );
    assert!(string_to_version("http/1.1").is_err());
    assert!(string_to_version("").is_err());
}

#[test]
fn an_incoming_request_is_handed_over_as_text() {
    let context = Uri { scheme: None, authority: None, path: "/b".to_string(), query: None };
    let headers = vec![Header { name: "a".to_string(), value: "b".to_string() }];
    let request =
        Request::new(&full(), Some(&context), "POST", headers.clone(), Version::Http2, vec![1, 255]);
    assert_eq!(request.uri, UriType::String("https://example.org:8443/a/b?x=1".to_string()));
    assert_eq!(request.context_uri, Some(UriType::String("/b".to_string())));
    assert_eq!(request.method, Some("POST".to_string()));
    assert_eq!(request.headers, headers);
    assert_eq!(request.version, Some("HTTP/2.0".to_string()));
    assert_eq!(request.body, Some(BodyType::Binary(vec![1, 255])));
    let plain = Request::new(&full(), None, "GET", Vec::new(), Version::Http11, Vec::new());
    assert_eq!(plain.context_uri, Some(plain.uri.clone()));
}

#[test]
fn a_request_without_method_and_version_is_a_get_over_http_1_1() {
    let request = Request {
        uri: UriType::String("/".to_string()),
        context_uri: None,
        method: None,
        headers: Vec::new(),
        version: None,
        body: None,
    };
    assert_eq!(request.method_or_get(), "GET");
    assert_eq!(request.version_or_default(), Ok(Version::Http11));
    let mut named = request.clone();
    named.method = Some("PUT".to_string());
    named.version = Some("HTTP/1.0".to_string());
    assert_eq!(named.method_or_get(), "PUT");
    assert_eq!(named.version_or_default(), Ok(Version::Http10));
    named.version = Some("1.0".to_string());
    assert!(named.version_or_default().is_err());
}

#[test]
fn of_the_headers_of_one_name_the_last_stays() {
    let given = vec![header("a", "1"), header("b", "2"), header("a", "3"), header("A", "4")];
    let kept = vec![header("b", "2"), header("a", "3"), header("A", "4")];
    assert_eq!(collect_headers(&given), kept);
    assert_eq!(collect_headers(&kept), kept);
    assert_eq!(collect_headers(&Vec::new()), Vec::new());
    let same = vec![header("a", "1"), header("a", "1"), header("a", "2")];
    assert_eq!(collect_headers(&same), vec![header("a", "2")]);
    let request = Request::new(&full(), None, "GET", given.clone(), Version::Http11, Vec::new());
    assert_eq!(request.headers, kept);
    let answer = Response { status_code: Some(204), headers: Some(given), body: None };
    assert_eq!(answer.into_http().unwrap().headers, kept);
}

#[test]
fn a_header_name_is_made_of_letters_digits_and_sixteen_signs() {
    for code in 0u32..=0x2ff {
        let c = char::from_u32(code).unwrap();
        let name = format!("x{}", c);
        assert_eq!(answer_with(&name).is_ok(), may_stand_in_a_name(c), "{:?}", name);
        assert_eq!(answer_with(&c.to_string()).is_ok(), may_stand_in_a_name(c), "{:?}", c);
    }
    assert!(answer_with("Content-Type").is_ok());
    assert!(answer_with("\"quoted\"").is_ok());
    assert!(answer_with("x-\u{1F600}").is_err());
    assert_eq!(
        answer_with("a b"),
        Err(ScriptError::RuntimeError("invalid HTTP header name".to_string()))
    );
}

#[test]
fn a_header_name_is_neither_empty_nor_longer_than_65535() {
    assert!(answer_with("").is_err());
    assert!(answer_with("a").is_ok());
    assert!(answer_with(&"a".repeat(64)).is_ok());
    assert!(answer_with(&"a".repeat(65)).is_ok());
    assert!(answer_with(&format!("{} ", "a".repeat(63))).is_err());
    assert!(answer_with(&format!("{} ", "a".repeat(64))).is_err());
    assert!(answer_with(&"a".repeat(65_535)).is_ok());
    assert!(answer_with(&"a".repeat(65_536)).is_err());
}

#[test]
fn a_header_value_is_taken_where_hyper_takes_it() {
    for code in 0u32..=0x2ff {
        let c = char::from_u32(code).unwrap();
        for value in [c.to_string(), format!("a{}b", c)] {
            let taken = hyper::header::HeaderValue::from_str(&value).is_ok();
            assert_eq!(header_value_check(&value), taken, "{:?}", value);
        }
    }
    assert!(header_value_check(""));
    assert!(header_value_check("text/html; charset=utf-8"));
    assert!(header_value_check("a\tb"));
    assert!(!header_value_check("a\nb"));
    assert!(!header_value_check("a\u{7f}"));
    assert!(header_value_check("\u{1F600}"));
}
