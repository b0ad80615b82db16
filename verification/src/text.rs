//! Values that are written out as a single string: HTTP methods, URIs, MIME
//! types, content types, cookies and times. Each is read from its text, and
//! written as its text, by the crate that defines it; this module makes those
//! calls, fixes their arguments and error messages, and states what the
//! results are in terms of names for the outside functions.
use cookie::Cookie;
use hyper::{Method, Uri};
use hyperx::header::ContentType;
use mime::Mime;
use std::str::FromStr;
use time::Tm;
use vstd::prelude::*;

use crate::{De, Ser};

verus! {

#[verifier::external_type_specification]
#[verifier::external_body]
pub struct ExMethod(Method);

#[verifier::external_type_specification]
#[verifier::external_body]
pub struct ExUri(Uri);

#[verifier::external_type_specification]
#[verifier::external_body]
pub struct ExMime(Mime);

#[verifier::external_type_specification]
#[verifier::external_body]
pub struct ExContentType(ContentType);

#[verifier::external_type_specification]
#[verifier::external_body]
pub struct ExCookie<'c>(Cookie<'c>);

#[verifier::external_type_specification]
#[verifier::external_body]
pub struct ExTm(Tm);

/// The format in which times are read: RFC 3339 in UTC.
pub const TIME_FORMAT: &'static str = "%Y-%m-%dT%H:%M:%SZ";

/// The message given when a MIME type cannot be read.
pub const MIME_ERROR: &'static str = "could not parse mime type";

/// The message that `http` gives for a text that is no HTTP method.
pub const METHOD_ERROR: &'static str = "invalid HTTP method";

/// The public fields of a `time::Tm`, as plain integers.
#[derive(Clone, Copy, Debug, PartialEq, Eq)]
pub struct TimeFields {
    pub sec: i32,
    pub min: i32,
    pub hour: i32,
    pub mday: i32,
    pub mon: i32,
    pub year: i32,
    pub wday: i32,
    pub yday: i32,
    pub isdst: i32,
    pub utcoff: i32,
    pub nsec: i32,
}

/// The method that `Method::from_str` reads from a text, if any.
pub uninterp spec fn parsed_method(text: Seq<char>) -> Option<Method>;

/// The text that `Method::as_ref` gives of a method.
pub uninterp spec fn method_str(m: Method) -> Seq<char>;

/// The MIME type that `Mime::from_str` reads from a text, if any.
pub uninterp spec fn parsed_mime(text: Seq<char>) -> Option<Mime>;

/// The text that `Mime`'s `Display` writes.
pub uninterp spec fn mime_display(m: Mime) -> Seq<char>;

/// The content-type header `ContentType(m)`.
pub uninterp spec fn content_type_wrap(m: Mime) -> ContentType;

/// The MIME type inside a content-type header (its field `.0`).
pub uninterp spec fn content_type_inner(c: ContentType) -> Mime;

/// What `Uri::from_str` reads from a text: the URI, or the text of its
/// error.
pub uninterp spec fn parsed_uri(text: Seq<char>) -> Result<Uri, Seq<char>>;

/// The text that `Uri`'s `Display` writes.
pub uninterp spec fn uri_display(u: Uri) -> Seq<char>;

/// What `Cookie::parse` followed by `Cookie::into_owned` reads from a text:
/// the cookie, or the debug text of its error.
pub uninterp spec fn parsed_cookie(text: Seq<char>) -> Result<Cookie<'static>, Seq<char>>;

/// The text that `Cookie`'s `Display` writes.
pub uninterp spec fn cookie_display(c: Cookie<'_>) -> Seq<char>;

/// The expiry time of a cookie (`Cookie::expires`).
pub uninterp spec fn cookie_expiry(c: Cookie<'_>) -> Option<Tm>;

/// What `time::strptime` reads from a text in a format: the time, or the
/// text of its error.
pub uninterp spec fn parsed_time(text: Seq<char>, format: Seq<char>) -> Result<Tm, Seq<char>>;

/// The text that `Tm::rfc3339` writes.
pub uninterp spec fn tm_rfc3339(t: Tm) -> Seq<char>;

/// The public fields of a time.
pub uninterp spec fn tm_fields(t: Tm) -> TimeFields;

/// A character that `http` allows in a method: a digit, an ASCII letter or
/// one of `! * + - . ^ _ ` | ~`.
pub open spec fn is_method_char(c: char) -> bool {
    ||| '0' <= c && c <= '9'
    ||| 'A' <= c && c <= 'Z'
    ||| 'a' <= c && c <= 'z'
    ||| c == '!' || c == '*' || c == '+' || c == '-' || c == '.'
    ||| c == '^' || c == '_' || c == '`' || c == '|' || c == '~'
}

/// A text that `http` reads as a method: non-empty, of method characters
/// only.
pub open spec fn is_method_text(text: Seq<char>) -> bool {
    text.len() > 0 && forall|i: int| 0 <= i < text.len() ==> #[trigger] is_method_char(text[i])
}

/// A cookie's text names it: the part before the first `;` holds a `=`.
pub open spec fn has_pair(text: Seq<char>) -> bool {
    exists|i: int|
        0 <= i < text.len() && #[trigger] text[i] == '=' && forall|j: int|
            0 <= j < i ==> #[trigger] text[j] != ';'
}

/// The time fields that `Tm::rfc3339` formats without overflow: the year
/// plus 1900, the month plus one and the size of the UTC offset must fit.
pub open spec fn rfc3339_formats(f: TimeFields) -> bool {
    &&& f.year <= i32::MAX - 1900
    &&& f.mon < i32::MAX
    &&& f.utcoff != i32::MIN
}

/// The time fields that `Tm::rfc822` formats without panicking: a week day
/// and a month that it has names for, and a year that fits.
pub open spec fn rfc822_formats(f: TimeFields) -> bool {
    &&& 0 <= f.wday <= 6
    &&& 0 <= f.mon <= 11
    &&& f.year <= i32::MAX - 1900
}

/// A cookie that `Cookie`'s `Display` writes without panicking: one without
/// an expiry time, or whose expiry time `rfc822` formats.
pub open spec fn cookie_formats(c: Cookie<'_>) -> bool {
    cookie_expiry(c) matches Some(t) ==> rfc822_formats(tm_fields(t))
}

/// The times that `time::strptime` reads in `TIME_FORMAT`: four digits of
/// year, a month, a day, an hour, a minute and a second in their ranges,
/// and every other field zero.
pub open spec fn read_time_fields(f: TimeFields) -> bool {
    &&& -1900 <= f.year <= 8099
    &&& 0 <= f.mon <= 11
    &&& 1 <= f.mday <= 31
    &&& 0 <= f.hour <= 23
    &&& 0 <= f.min <= 59
    &&& 0 <= f.sec <= 60
    &&& f.wday == 0 && f.yday == 0 && f.isdst == 0 && f.utcoff == 0 && f.nsec == 0
}

/// The times that `Tm::rfc3339` writes as text that `time::strptime` reads
/// back in `TIME_FORMAT` as the same time: those it reads whose year has
/// four digits (`rfc3339` does not pad the year).
pub open spec fn canonical_time_fields(f: TimeFields) -> bool {
    &&& read_time_fields(f)
    &&& 1000 <= f.year + 1900
}

/// `Method::from_str`: it accepts exactly the non-empty texts of method
/// characters (the table `METHOD_CHARS` of `http`), and the method's text is
/// then the text it was read from. Its error, `InvalidMethod`, displays as
/// "invalid HTTP method".
#[verifier::external_body]
fn parse_method(text: &str) -> (res: Result<Method, String>)
    ensures
        res is Ok <==> is_method_text(text@),
        res is Ok <==> parsed_method(text@) is Some,
        res matches Ok(m) ==> Some(m) == parsed_method(text@) && method_str(m) == text@,
        res matches Err(msg) ==> msg@ == METHOD_ERROR@,
{
    match Method::from_str(text) {
        Ok(m) => Ok(m),
        Err(e) => Err(e.to_string()),
    }
}

/// `Method::as_ref`: the text of a method. A method holds either a standard
/// name or bytes that `Method::from_bytes` checked, and `as_str` gives those
/// back; so its text is one that `Method::from_str` reads back as the same
/// method.
#[verifier::external_body]
fn method_text(m: &Method) -> (text: &str)
    ensures
        text@ == method_str(*m),
        is_method_text(text@),
        parsed_method(text@) == Some(*m),
{
    m.as_ref()
}

/// `Mime::from_str`.
#[verifier::external_body]
fn parse_mime(text: &str) -> (res: Option<Mime>)
    ensures
        res == parsed_mime(text@),
{
    Mime::from_str(text).ok()
}

/// `Mime` as `Display`: the text of a MIME type, which is its source text.
/// Every MIME type is a constant of `mime` or was read by `Mime::from_str`,
/// whose source text is the text read with its ASCII case folded where case
/// does not matter (and an empty parameter list dropped); reading such a
/// text again succeeds and gives the same source text.
#[verifier::external_body]
fn mime_text(m: &Mime) -> (text: String)
    ensures
        text@ == mime_display(*m),
        parsed_mime(text@) matches Some(m2) && mime_display(m2) == text@,
{
    m.to_string()
}

/// `ContentType(..)`: the content-type header of a MIME type, whose field
/// `.0` is that MIME type.
#[verifier::external_body]
fn content_type_of(m: Mime) -> (c: ContentType)
    ensures
        c == content_type_wrap(m),
        content_type_inner(c) == m,
{
    ContentType(m)
}

/// The MIME type inside a content-type header (its field `.0`).
#[verifier::external_body]
fn content_type_mime(c: &ContentType) -> (m: &Mime)
    ensures
        *m == content_type_inner(*c),
{
    &c.0
}

/// `Uri::from_str`; its error is displayed as text.
#[verifier::external_body]
fn parse_uri(text: &str) -> (res: Result<Uri, String>)
    ensures
        res is Ok <==> parsed_uri(text@) is Ok,
        res matches Ok(u) ==> parsed_uri(text@) matches Ok(v) && v == u,
        res matches Err(msg) ==> parsed_uri(text@) matches Err(e) && e == msg@,
{
    match Uri::from_str(text) {
        Ok(u) => Ok(u),
        Err(e) => Err(format!("{}", e)),
    }
}

/// `Uri` as `Display`: the text of a URI.
#[verifier::external_body]
fn uri_text(u: &Uri) -> (text: String)
    ensures
        text@ == uri_display(*u),
{
    u.to_string()
}

/// `Cookie::parse`, then `Cookie::into_owned`; its error is debug-formatted.
/// It fails with `MissingPair` exactly when the part before the first `;`
/// holds no `=`, and otherwise only with `EmptyName` (the name is blank; the
/// text is never percent-decoded). A cookie it reads has an expiry time only
/// where `strptime` read one with a week day and a month name, which
/// `rfc822` formats.
#[verifier::external_body]
fn parse_cookie(text: &str) -> (res: Result<Cookie<'static>, String>)
    ensures
        res is Ok <==> parsed_cookie(text@) is Ok,
        res matches Ok(c) ==> parsed_cookie(text@) matches Ok(v) && v == c,
        res matches Err(msg) ==> parsed_cookie(text@) matches Err(e) && e == msg@,
        res matches Ok(c) ==> has_pair(text@) && cookie_formats(c),
        res matches Err(msg) ==> if has_pair(text@) {
            msg@ == "EmptyName"@
        } else {
            msg@ == "MissingPair"@
        },
{
    match Cookie::parse(text) {
        Ok(c) => Ok(c.into_owned()),
        Err(e) => Err(format!("{:?}", e)),
    }
}

/// `Cookie::expires`: the expiry time of a cookie.
#[verifier::external_body]
fn cookie_expires(c: &Cookie<'_>) -> (t: Option<Tm>)
    ensures
        t == cookie_expiry(*c),
{
    c.expires()
}

/// `Cookie` as `Display`: the text of a cookie. It writes the expiry time
/// with `Tm::rfc822`, which panics on a week day or month it has no name
/// for, or a year that overflows; so those are required not to occur.
#[verifier::external_body]
fn cookie_text(c: &Cookie<'_>) -> (text: String)
    requires
        cookie_formats(*c),
    ensures
        text@ == cookie_display(*c),
{
    c.to_string()
}

/// `time::strptime`, in `TIME_FORMAT` only (other formats, such as `%s`,
/// can panic); its error is displayed as text. A time it reads in that
/// format has the fields that the format sets, in their ranges, and the
/// others zero.
#[verifier::external_body]
fn parse_time(text: &str, format: &str) -> (res: Result<Tm, String>)
    requires
        format@ == TIME_FORMAT@,
    ensures
        res is Ok <==> parsed_time(text@, format@) is Ok,
        res matches Ok(t) ==> parsed_time(text@, format@) matches Ok(v) && v == t,
        res matches Err(msg) ==> parsed_time(text@, format@) matches Err(e) && e == msg@,
        res matches Ok(t) ==> read_time_fields(tm_fields(t)),
{
    match time::strptime(text, format) {
        Ok(t) => Ok(t),
        Err(e) => Err(e.to_string()),
    }
}

/// The public fields of a `Tm`.
#[verifier::external_body]
fn time_fields(t: &Tm) -> (f: TimeFields)
    ensures
        f == tm_fields(*t),
{
    TimeFields {
        sec: t.tm_sec,
        min: t.tm_min,
        hour: t.tm_hour,
        mday: t.tm_mday,
        mon: t.tm_mon,
        year: t.tm_year,
        wday: t.tm_wday,
        yday: t.tm_yday,
        isdst: t.tm_isdst,
        utcoff: t.tm_utcoff,
        nsec: t.tm_nsec,
    }
}

/// `Tm::rfc3339` as `Display`: the RFC 3339 text of a time. It adds 1900 to
/// the year and one to the month and takes the size of the UTC offset, which
/// overflow outside `rfc3339_formats`. For a time in UTC with a four-digit
/// year of the kind that `strptime` reads in `TIME_FORMAT`, the text
/// is `YYYY-MM-DDTHH:MM:SSZ`, which `strptime` reads back as that time. For a
/// time with a UTC offset the text ends in `+hh:mm` or `-hh:mm` and holds no
/// `Z`, which `strptime` must read in `TIME_FORMAT`; so it reads no time.
#[verifier::external_body]
fn time_text(t: &Tm) -> (written: String)
    requires
        rfc3339_formats(tm_fields(*t)),
    ensures
        written@ == tm_rfc3339(*t),
        written@ == tm_rfc3339(*t) && canonical_time_fields(tm_fields(*t)) ==> (parsed_time(
            written@,
            TIME_FORMAT@,
        ) matches Ok(back) && back == *t),
        written@ == tm_rfc3339(*t) && tm_fields(*t).utcoff != 0 ==> parsed_time(
            written@,
            TIME_FORMAT@,
        ) is Err,
{
    t.rfc3339().to_string()
}

/// Reads an HTTP method from its text: the method that `Method::from_str`
/// gives, whose text is the text read. It succeeds exactly on non-empty
/// texts of method characters; a failure gives the message of `http`'s
/// `InvalidMethod`.
pub fn deserialize_method(text: &str) -> (res: Result<De<Method>, String>)
    ensures
        res is Ok <==> is_method_text(text@),
        res matches Ok(d) ==> Some(d.value()) == parsed_method(text@) && method_str(d.value())
            == text@,
        res is Err ==> parsed_method(text@) is None,
        res matches Err(msg) ==> msg@ == METHOD_ERROR@,
{
    match parse_method(text) {
        Ok(m) => Ok(De::new(m)),
        Err(e) => Err(e),
    }
}

/// Writes an HTTP method as its own text (`as_ref`), in either mode; the
/// text reads back as the same method.
pub fn serialize_method<'a>(ser: &Ser<'a, Method>) -> (text: &'a str)
    ensures
        text@ == method_str(ser.value()),
        is_method_text(text@),
        parsed_method(text@) == Some(ser.value()),
{
    method_text(ser.get())
}

/// Reads a MIME type from its text: the one that `Mime::from_str` gives; a
/// failure gives the message "could not parse mime type".
pub fn deserialize_mime(text: &str) -> (res: Result<De<Mime>, String>)
    ensures
        res is Ok <==> parsed_mime(text@) is Some,
        res matches Ok(d) ==> Some(d.value()) == parsed_mime(text@),
        res matches Err(msg) ==> msg@ == MIME_ERROR@,
{
    match parse_mime(text) {
        Some(m) => Ok(De::new(m)),
        None => Err(MIME_ERROR.to_owned()),
    }
}

/// Writes a MIME type as its `Display` text, in either mode. The text reads
/// back as a MIME type that is written as the same text.
pub fn serialize_mime(ser: &Ser<'_, Mime>) -> (text: String)
    ensures
        text@ == mime_display(ser.value()),
        parsed_mime(text@) matches Some(m) && mime_display(m) == text@,
{
    mime_text(ser.get())
}

/// Reads a content-type header: the header of the MIME type that
/// `deserialize_mime` reads from the text, with the same error.
pub fn deserialize_content_type(text: &str) -> (res: Result<De<ContentType>, String>)
    ensures
        res is Ok <==> parsed_mime(text@) is Some,
        res matches Ok(d) ==> parsed_mime(text@) matches Some(m) && d.value()
            == content_type_wrap(m) && content_type_inner(d.value()) == m,
        res matches Err(msg) ==> msg@ == MIME_ERROR@,
{
    match deserialize_mime(text) {
        Ok(m) => Ok(De::new(content_type_of(m.into_inner()))),
        Err(e) => Err(e),
    }
}

/// Writes a content-type header as the `Display` text of its MIME type, in
/// either mode. The text reads back as a content type whose MIME type is
/// written as the same text.
pub fn serialize_content_type(ser: &Ser<'_, ContentType>) -> (text: String)
    ensures
        text@ == mime_display(content_type_inner(ser.value())),
        parsed_mime(text@) matches Some(m) && mime_display(m) == text@,
{
    mime_text(content_type_mime(ser.get()))
}

/// Reads a URI from its text: the one that `Uri::from_str` gives; a failure
/// gives the text of `http`'s error.
pub fn deserialize_uri(text: &str) -> (res: Result<De<Uri>, String>)
    ensures
        res is Ok <==> parsed_uri(text@) is Ok,
        res matches Ok(d) ==> parsed_uri(text@) matches Ok(u) && u == d.value(),
        res matches Err(msg) ==> parsed_uri(text@) matches Err(e) && e == msg@,
{
    match parse_uri(text) {
        Ok(u) => Ok(De::new(u)),
        Err(e) => Err(e),
    }
}

/// Writes a URI as its `Display` text, in either mode.
pub fn serialize_uri(ser: &Ser<'_, Uri>) -> (text: String)
    ensures
        text@ == uri_display(ser.value()),
{
    uri_text(ser.get())
}

/// Reads a cookie from the text of a cookie header value: the one that
/// `Cookie::parse` gives, owning its parts. It fails with `MissingPair` when
/// the part before the first `;` has no `=`, else only with `EmptyName`. A
/// cookie it reads can always be written.
pub fn deserialize_cookie(text: &str) -> (res: Result<De<Cookie<'static>>, String>)
    ensures
        res is Ok <==> parsed_cookie(text@) is Ok,
        res matches Ok(d) ==> parsed_cookie(text@) matches Ok(c) && c == d.value() && cookie_formats(
            d.value(),
        ),
        res matches Err(msg) ==> parsed_cookie(text@) matches Err(e) && e == msg@,
        !has_pair(text@) ==> (res matches Err(msg) && msg@ == "MissingPair"@),
        res matches Err(msg) ==> (has_pair(text@) ==> msg@ == "EmptyName"@),
{
    match parse_cookie(text) {
        Ok(c) => Ok(De::new(c)),
        Err(e) => Err(e),
    }
}

/// Whether a cookie can be written: whether `Display` formats its expiry
/// time, if it has one, without panicking.
pub fn cookie_serializable(c: &Cookie<'_>) -> (ok: bool)
    ensures
        ok == cookie_formats(*c),
{
    match cookie_expires(c) {
        Some(t) => {
            let f = time_fields(&t);
            0 <= f.wday && f.wday <= 6 && 0 <= f.mon && f.mon <= 11 && f.year <= i32::MAX - 1900
        },
        None => true,
    }
}

/// Writes a cookie as its `Display` text, in either mode.
pub fn serialize_cookie<'c>(ser: &Ser<'_, Cookie<'c>>) -> (text: String)
    requires
        cookie_formats(ser.value()),
    ensures
        text@ == cookie_display(ser.value()),
{
    cookie_text(ser.get())
}

/// Reads a time in RFC 3339 form in UTC (`TIME_FORMAT`): the time that
/// `time::strptime` gives; a failure gives the text of `time`'s error. A
/// time it reads is in UTC, has its fields in range, and can always be
/// written.
pub fn deserialize_tm(text: &str) -> (res: Result<De<Tm>, String>)
    ensures
        res is Ok <==> parsed_time(text@, TIME_FORMAT@) is Ok,
        res matches Ok(d) ==> parsed_time(text@, TIME_FORMAT@) matches Ok(t) && t == d.value()
            && read_time_fields(tm_fields(d.value())) && rfc3339_formats(tm_fields(d.value())),
        res matches Err(msg) ==> parsed_time(text@, TIME_FORMAT@) matches Err(e) && e == msg@,
{
    match parse_time(text, TIME_FORMAT) {
        Ok(t) => Ok(De::new(t)),
        Err(e) => Err(e),
    }
}

/// Whether a time can be written: whether `rfc3339` formats it without
/// overflow.
pub fn tm_serializable(t: &Tm) -> (ok: bool)
    ensures
        ok == rfc3339_formats(tm_fields(*t)),
{
    let f = time_fields(t);
    f.year <= i32::MAX - 1900 && f.mon < i32::MAX && f.utcoff != i32::MIN
}

/// Writes a time as its RFC 3339 text, in either mode. A time in UTC with a
/// four-digit year, as `deserialize_tm` reads them, is written as text that
/// `deserialize_tm` reads back as the same time; a time with a UTC offset is
/// written as text that `deserialize_tm` refuses.
pub fn serialize_tm(ser: &Ser<'_, Tm>) -> (text: String)
    requires
        rfc3339_formats(tm_fields(ser.value())),
    ensures
        text@ == tm_rfc3339(ser.value()),
        canonical_time_fields(tm_fields(ser.value())) ==> (parsed_time(text@, TIME_FORMAT@) matches Ok(
            v,
        ) && v == ser.value()),
        tm_fields(ser.value()).utcoff != 0 ==> parsed_time(text@, TIME_FORMAT@) is Err,
{
    time_text(ser.get())
}

/// A time can be written as RFC 3339 text exactly when adding 1900 to its
/// year, adding one to its month and taking the size of its UTC offset do
/// not overflow: with any offset but `i32::MIN`, negative ones included, and
/// whatever its other fields hold.
pub proof fn lemma_rfc3339_formats_bounds(f: TimeFields)
    ensures
        rfc3339_formats(f) <==> (f.year <= i32::MAX - 1900 && f.mon < i32::MAX && f.utcoff
            != i32::MIN),
{
}

/// Whether a time can be written depends on its year, month and UTC offset
/// alone: its seconds, nanoseconds, week day, year day and the rest have no
/// say.
pub proof fn lemma_rfc3339_formats_depends_on(f: TimeFields, g: TimeFields)
    requires
        f.year == g.year,
        f.mon == g.mon,
        f.utcoff == g.utcoff,
    ensures
        rfc3339_formats(f) == rfc3339_formats(g),
{
}

/// Every time that `deserialize_tm` can read can be written.
pub proof fn lemma_read_times_format(f: TimeFields)
    requires
        read_time_fields(f),
    ensures
        rfc3339_formats(f),
{
}

/// An expiry time can be written as RFC 822 text exactly when its week day
/// is one of the seven (Sunday to Saturday), its month one of the twelve,
/// and its year plus 1900 does not overflow.
pub proof fn lemma_rfc822_formats_bounds(f: TimeFields)
    ensures
        rfc822_formats(f) <==> (0 <= f.wday <= 6 && 0 <= f.mon <= 11 && f.year <= i32::MAX
            - 1900),
{
}

/// A cookie can be written exactly when it has no expiry time, or its expiry
/// time has a week day from Sunday (0) to Saturday (6), a month from January
/// (0) to December (11), and a year that does not overflow.
pub proof fn lemma_cookie_formats_bounds(c: Cookie<'_>)
    ensures
        cookie_formats(c) <==> match cookie_expiry(c) {
            None => true,
            Some(t) => {
                &&& 0 <= tm_fields(t).wday <= 6
                &&& 0 <= tm_fields(t).mon <= 11
                &&& tm_fields(t).year <= i32::MAX - 1900
            },
        },
{
}

} // verus!
