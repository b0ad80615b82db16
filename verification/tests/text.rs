use cookie::Cookie;
use hyper::{Method, Uri};
use hyper_serde::text::{
    deserialize_content_type, deserialize_cookie, deserialize_method, deserialize_mime,
    deserialize_tm, deserialize_uri, serialize_content_type, serialize_cookie, serialize_method,
    serialize_mime, serialize_tm, serialize_uri, cookie_serializable, tm_serializable,
    MIME_ERROR, METHOD_ERROR, TIME_FORMAT,
};
use hyper_serde::headers::{deserialize_headers, serialize_headers, Line};
use hyper_serde::Ser;
use hyperx::header::ContentType;
use mime::Mime;

#[test]
fn supported() {
    let m = deserialize_method("PUT").unwrap().into_inner();
    assert_eq!(m, Method::PUT);
    assert_eq!(serialize_method(&Ser::new(&m)), "PUT");

    let mime = deserialize_mime("text/plain").unwrap().into_inner();
    assert_eq!(mime, mime::TEXT_PLAIN);
    assert_eq!(serialize_mime(&Ser::new(&mime)), "text/plain");

    let ct = deserialize_content_type("application/json").unwrap().into_inner();
    assert_eq!(ct, ContentType::json());
    assert_eq!(serialize_content_type(&Ser::new(&ct)), "application/json");

    let uri = deserialize_uri("https://example.com/a?b=c").unwrap().into_inner();
    assert_eq!(uri.host(), Some("example.com"));
    assert_eq!(serialize_uri(&Ser::new(&uri)), "https://example.com/a?b=c");

    let c = deserialize_cookie("name=value; Path=/").unwrap().into_inner();
    assert_eq!(c.name(), "name");
    assert_eq!(c.value(), "value");
    assert_eq!(serialize_cookie(&Ser::new(&c)), "name=value; Path=/");

    let tm = deserialize_tm("2017-02-22T12:03:31Z").unwrap().into_inner();
    assert_eq!(tm.tm_year, 117);
    assert_eq!(tm.tm_mon, 1);
    assert_eq!(tm.tm_mday, 22);
    assert_eq!(serialize_tm(&Ser::new(&tm)), "2017-02-22T12:03:31Z");

    let headers = deserialize_headers(vec![("Host".to_string(), vec![b"example.com".to_vec()])])
        .into_inner();
    let written = serialize_headers(&Ser::new_pretty(&headers));
    assert_eq!(written.len(), 1);
    assert_eq!(written[0].0, "Host");
    match &written[0].1[..] {
        [Line::Text(t)] => assert_eq!(t, "example.com"),
        _ => panic!("expected one text line"),
    }
}

#[test]
fn method_errors() {
    assert_eq!(deserialize_method("").unwrap_err(), METHOD_ERROR);
    assert_eq!(deserialize_method("GE T").unwrap_err(), "invalid HTTP method");
    let custom = deserialize_method("FROB").unwrap().into_inner();
    assert_eq!(custom.as_str(), "FROB");
    let text = serialize_method(&Ser::new(&custom));
    assert_eq!(text, "FROB");
    let again = deserialize_method(text).unwrap().into_inner();
    assert_eq!(again, custom);
}

#[test]
fn mime_errors() {
    assert_eq!(deserialize_mime("not a mime").unwrap_err(), MIME_ERROR);
    assert_eq!(
        deserialize_content_type("text").unwrap_err(),
        "could not parse mime type"
    );
    let m: Mime = deserialize_mime("image/png").unwrap().into_inner();
    assert_eq!(m, mime::IMAGE_PNG);
}

#[test]
fn uri_errors() {
    let expected = "a b".parse::<Uri>().unwrap_err().to_string();
    assert_eq!(deserialize_uri("a b").unwrap_err(), expected);
}

#[test]
fn cookie_errors() {
    assert_eq!(deserialize_cookie("").unwrap_err(), "MissingPair");
    assert_eq!(deserialize_cookie("=value").unwrap_err(), "EmptyName");
    let expected = format!("{:?}", Cookie::parse("novalue").unwrap_err());
    assert_eq!(deserialize_cookie("novalue").unwrap_err(), expected);
}

#[test]
fn tm_errors() {
    assert_eq!(TIME_FORMAT, "%Y-%m-%dT%H:%M:%SZ");
    let expected = time::strptime("2017-02-22", TIME_FORMAT).unwrap_err().to_string();
    assert_eq!(deserialize_tm("2017-02-22").unwrap_err(), expected);
    assert!(deserialize_tm("2017-02-22T12:03:31+01:00").is_err());
}

#[test]
fn time_round_trip() {
    let text = "1999-12-31T23:59:60Z";
    let tm = deserialize_tm(text).unwrap().into_inner();
    assert!(tm_serializable(&tm));
    let written = serialize_tm(&Ser::new_pretty(&tm));
    assert_eq!(written, text);
    assert_eq!(deserialize_tm(&written).unwrap().into_inner(), tm);
}

#[test]
fn time_out_of_range_is_not_serializable() {
    let mut tm = deserialize_tm("2017-02-22T12:03:31Z").unwrap().into_inner();
    tm.tm_year = i32::MAX;
    assert!(!tm_serializable(&tm));
    tm.tm_year = 117;
    tm.tm_utcoff = i32::MIN;
    assert!(!tm_serializable(&tm));
    tm.tm_utcoff = 3600;
    assert!(tm_serializable(&tm));
    assert_eq!(serialize_tm(&Ser::new(&tm)), "2017-02-22T12:03:31+01:00");
}

#[test]
fn cookie_expiry_must_format() {
    let c = deserialize_cookie("a=b; Expires=Wed, 21 Oct 2015 07:28:00 GMT")
        .unwrap()
        .into_inner();
    assert!(cookie_serializable(&c));
    assert_eq!(
        serialize_cookie(&Ser::new(&c)),
        "a=b; Expires=Wed, 21 Oct 2015 07:28:00 GMT"
    );
    let mut bad = c.clone();
    let mut t = c.expires().unwrap();
    t.tm_wday = 9;
    bad.set_expires(t);
    assert!(!cookie_serializable(&bad));
    assert!(cookie_serializable(&Cookie::new("x", "y")));
}

#[test]
fn content_type_holds_its_mime() {
    let ct = deserialize_content_type("text/html; charset=utf-8").unwrap().into_inner();
    assert_eq!(ct.0, mime::TEXT_HTML_UTF_8);
    assert_eq!(
        serialize_content_type(&Ser::new_pretty(&ct)),
        serialize_mime(&Ser::new(&ct.0))
    );
}

#[test]
fn mime_text_reads_back_as_itself() {
    for text in ["TEXT/Plain; Charset=UTF-8", "image/svg+xml", "text/plain;", "*/*"] {
        let m = deserialize_mime(text).unwrap().into_inner();
        let written = serialize_mime(&Ser::new(&m));
        let again = deserialize_mime(&written).unwrap().into_inner();
        assert_eq!(serialize_mime(&Ser::new(&again)), written);
        assert_eq!(again, m);
    }
    let written = serialize_mime(&Ser::new(&mime::TEXT_PLAIN_UTF_8));
    assert_eq!(written, "text/plain; charset=utf-8");
    assert!(deserialize_mime(&written).is_ok());
}

#[test]
fn time_with_offset_does_not_read_back() {
    let mut tm = deserialize_tm("2017-02-22T12:03:31Z").unwrap().into_inner();
    tm.tm_utcoff = -5400;
    let written = serialize_tm(&Ser::new(&tm));
    assert_eq!(written, "2017-02-22T12:03:31-01:30");
    assert!(deserialize_tm(&written).is_err());
}

#[test]
fn empty_uri_does_not_read_back() {
    let uri = Uri::from(hyper::http::uri::PathAndQuery::from_static(""));
    let written = serialize_uri(&Ser::new(&uri));
    assert_eq!(written, "");
    assert!(deserialize_uri(&written).is_err());
}
