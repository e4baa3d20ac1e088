//! Typed extraction of handler arguments from a request: path parameters,
//! query pairs, urlencoded forms, JSON values, raw bytes and decoded text,
//! with per-extractor configuration.

use vstd::prelude::*;

use crate::codec;
use crate::codec::charset_decoded;
use crate::codec::charset_known;
use crate::codec::form_decoded;
use crate::codec::json_parses;
use crate::error::Error;
use crate::error::JsonPayloadError;
use crate::error::UrlencodedError;
use crate::response::Response;
use crate::http::spec_lookup;
use crate::request::HttpRequest;
use crate::request::ReqModel;
use crate::strutil;
use crate::strutil::spec_all_digits;
use crate::strutil::spec_dec_val;
use crate::strutil::spec_ends_with_nocase;
use crate::strutil::spec_eq_nocase;
use crate::strutil::spec_find;
use crate::strutil::spec_split;
use crate::strutil::spec_starts_with_nocase;
use crate::strutil::spec_trim;
use vstd::utf8::decode_utf8;
use vstd::utf8::encode_utf8;
use vstd::utf8::valid_utf8;

verus! {

/// The essence of a content-type value: what stands before the first `;`,
/// with surrounding spaces removed.
pub open spec fn spec_essence(v: Seq<char>) -> Seq<char> {
    spec_trim(spec_split(v, ';')[0])
}

/// The essence of a content-type value.
pub fn essence_of(v: &str) -> (r: String)
    ensures
        r@ == spec_essence(v@),
{
    let parts = strutil::split_str(v, ';');
    proof {
        strutil::lemma_split_len(v@, ';');
        assert(parts.deep_view()[0] == parts@[0]@);
    }
    strutil::trim_spaces(parts[0].as_str())
}

/// The charset parameter among the `;`-separated parts of a content-type
/// value: the first part that begins `charset=` (ignoring ASCII case and
/// surrounding spaces), without that prefix.
pub open spec fn spec_find_charset(parts: Seq<Seq<char>>) -> Option<Seq<char>>
    decreases parts.len(),
{
    if parts.len() == 0 {
        None
    } else {
        let t = spec_trim(parts[0]);
        if spec_starts_with_nocase(t, "charset="@) {
            Some(t.skip("charset="@.len() as int))
        } else {
            spec_find_charset(parts.drop_first())
        }
    }
}

/// The declared charset of a request, read from the parameters of its
/// content-type header.
pub open spec fn spec_req_charset(headers: Seq<(Seq<char>, Seq<char>)>) -> Option<Seq<char>> {
    match spec_lookup(headers, "content-type"@) {
        None => None,
        Some(v) => spec_find_charset(spec_split(v, ';').drop_first()),
    }
}

/// The declared charset of a request, if any.
#[verifier::loop_isolation(false)]
pub fn req_charset(req: &HttpRequest) -> (r: Option<String>)
    ensures
        match r {
            Some(s) => spec_req_charset(req@.headers) == Some(s@),
            None => spec_req_charset(req@.headers) is None,
        },
{
    let v = match req.headers().get("content-type") {
        None => {
            return None;
        },
        Some(v) => v,
    };
    let parts = strutil::split_str(v.as_str(), ';');
    let ghost gparts = spec_split(v@, ';');
    let n = parts.len();
    proof {
        reveal_strlit("charset=");
        assert(gparts.drop_first() =~~= gparts.skip(1));
    }
    let mut i: usize = 1;
    while i < n
        invariant
            n == parts.len(),
            parts.deep_view() =~~= gparts,
            1 <= i <= n,
            spec_find_charset(gparts.skip(1)) == spec_find_charset(gparts.skip(i as int)),
        decreases n - i,
    {
        proof {
            assert(gparts.skip(i as int)[0] == gparts[i as int]);
            assert(gparts.skip(i as int).drop_first() =~~= gparts.skip(i as int + 1));
            assert(parts.deep_view()[i as int] == parts@[i as int]@);
            reveal_strlit("charset=");
        }
        let t = strutil::trim_spaces(parts[i].as_str());
        if strutil::starts_with_nocase(t.as_str(), "charset=") {
            let label = t.as_str().substring_char(8, t.as_str().unicode_len()).to_owned();
            proof {
                assert(label@ =~= spec_trim(gparts[i as int]).skip("charset="@.len() as int));
            }
            return Some(label);
        }
        i = i + 1;
    }
    proof {
        assert(gparts.skip(n as int) =~= Seq::<Seq<char>>::empty());
    }
    None
}

/// The mathematical model of a payload configuration.
pub ghost struct PayloadModel {
    pub limit: int,
    pub mimetype: Option<Seq<char>>,
}

/// Configuration for raw-payload extraction: a byte limit on the body and
/// an optional media type the request must declare.
pub struct PayloadConfig {
    limit: usize,
    mimetype: Option<String>,
}

impl View for PayloadConfig {
    type V = PayloadModel;

    closed spec fn view(&self) -> PayloadModel {
        PayloadModel {
            limit: self.limit as int,
            mimetype: match self.mimetype {
                Some(ref m) => Some(m@),
                None => None,
            },
        }
    }
}

/// Whether the request's content type satisfies the configured requirement:
/// with no requirement anything passes; otherwise the header must be
/// present, name a media type (hold a `/`), and equal the requirement up to
/// ASCII case and surrounding spaces.
pub open spec fn spec_mimetype_ok(req: ReqModel, mimetype: Option<Seq<char>>) -> bool {
    match mimetype {
        None => true,
        Some(m) => match spec_lookup(req.headers, "content-type"@) {
            None => false,
            Some(v) => spec_find(v, '/') is Some && spec_eq_nocase(spec_trim(v), m),
        },
    }
}

impl Default for PayloadConfig {
    /// The default configuration: a 256 KiB limit and no media-type
    /// requirement.
    fn default() -> (r: PayloadConfig)
        ensures
            r@ == (PayloadModel { limit: 262144int, mimetype: None::<Seq<char>> }),
    {
        PayloadConfig { limit: 262144, mimetype: None }
    }
}

impl PayloadConfig {
    /// Change the maximal size of the payload.
    pub fn limit(&mut self, limit: usize) -> (r: &mut PayloadConfig)
        ensures
            r@ == (PayloadModel { limit: limit as int, ..old(self)@ }),
            *final(self) == *final(r),
    {
        self.limit = limit;
        self
    }

    /// Set the required media type of the request.  By default none is
    /// enforced.
    pub fn mimetype(&mut self, mt: String) -> (r: &mut PayloadConfig)
        ensures
            r@ == (PayloadModel { mimetype: Some(mt@), ..old(self)@ }),
            *final(self) == *final(r),
    {
        self.mimetype = Some(mt);
        self
    }

    /// Check the request's content type against the configured requirement.
    pub fn check_mimetype(&self, req: &HttpRequest) -> (r: Result<(), Error>)
        ensures
            r is Ok <==> spec_mimetype_ok(req@, self@.mimetype),
            r matches Err(e) ==> e@.status == 400,
    {
        let m = match &self.mimetype {
            None => {
                return Ok(());
            },
            Some(m) => m,
        };
        match req.headers().get("content-type") {
            None => Err(Error::bad_request("content type is expected".to_owned())),
            Some(v) => {
                if strutil::find_char(v.as_str(), '/').is_none() {
                    return Err(Error::bad_request("can not parse content type".to_owned()));
                }
                let t = strutil::trim_spaces(v.as_str());
                if strutil::str_eq_nocase(t.as_str(), m.as_str()) {
                    Ok(())
                } else {
                    Err(Error::bad_request("unexpected content type".to_owned()))
                }
            },
        }
    }
}

/// Collect the request's body, enforcing the byte limit: the body when it
/// fits, a payload-too-large error when it does not.
pub fn read_body(req: &HttpRequest, limit: usize) -> (r: Result<Vec<u8>, Error>)
    ensures
        req@.body.len() <= limit ==> (r matches Ok(b) && b@ == req@.body),
        req@.body.len() > limit ==> (r matches Err(e) && e@.status == 413),
{
    if req.body().len() > limit {
        Err(Error::payload_too_large("payload is too large".to_owned()))
    } else {
        Ok(vstd::slice::slice_to_vec(req.body().as_slice()))
    }
}

/// The mathematical model of a body reader.
pub ghost struct BodyReaderModel {
    pub limit: int,
    pub buf: Seq<u8>,
}

/// Collects a body that arrives in chunks, up to a byte limit.  The
/// transport hands each chunk in as it arrives; a chunk that would take the
/// total over the limit fails the collection.
pub struct BodyReader {
    limit: usize,
    buf: Vec<u8>,
}

impl View for BodyReader {
    type V = BodyReaderModel;

    closed spec fn view(&self) -> BodyReaderModel {
        BodyReaderModel { limit: self.limit as int, buf: self.buf@ }
    }
}

impl BodyReader {
    pub fn new(limit: usize) -> (r: BodyReader)
        ensures
            r@ == (BodyReaderModel { limit: limit as int, buf: Seq::<u8>::empty() }),
    {
        BodyReader { limit, buf: Vec::new() }
    }

    /// Add the next chunk.  The collected bytes grow by the chunk, unless
    /// that would pass the limit, which fails the collection and leaves the
    /// collected bytes as they were.
    pub fn push_chunk(&mut self, chunk: &[u8]) -> (r: Result<(), Error>)
        requires
            old(self)@.buf.len() <= old(self)@.limit,
        ensures
            old(self)@.buf.len() + chunk@.len() <= old(self)@.limit ==> r is Ok && final(self)@
                == (BodyReaderModel { buf: old(self)@.buf + chunk@, ..old(self)@ }),
            old(self)@.buf.len() + chunk@.len() > old(self)@.limit ==> (r matches Err(e)
                && e@.status == 413) && final(self)@ == old(self)@,
            final(self)@.buf.len() <= final(self)@.limit,
    {
        if chunk.len() > self.limit - self.buf.len() {
            Err(Error::payload_too_large("payload is too large".to_owned()))
        } else {
            self.buf.extend_from_slice(chunk);
            proof {
                assert(self.buf@ =~= old(self)@.buf + chunk@);
            }
            Ok(())
        }
    }

    /// The collected body.
    pub fn finish(self) -> (r: Vec<u8>)
        ensures
            r@ == self@.buf,
    {
        self.buf
    }
}

/// Extract the raw body bytes of a request, checking the configured media
/// type and byte limit.
pub fn bytes_extract(req: &HttpRequest, cfg: &PayloadConfig) -> (r: Result<Vec<u8>, Error>)
    ensures
        match r {
            Ok(b) => spec_mimetype_ok(req@, cfg@.mimetype) && req@.body.len() <= cfg@.limit && b@
                == req@.body,
            Err(e) => !spec_mimetype_ok(req@, cfg@.mimetype) && e@.status == 400 || (
            spec_mimetype_ok(req@, cfg@.mimetype) && req@.body.len() > cfg@.limit && e@.status
                == 413),
        },
{
    if let Err(e) = cfg.check_mimetype(req) {
        return Err(e);
    }
    read_body(req, cfg.limit)
}

/// Whether a charset label declares UTF-8 directly.
pub open spec fn spec_utf8_label(label: Seq<char>) -> bool {
    spec_eq_nocase(label, "utf-8"@) || spec_eq_nocase(label, "utf8"@)
}

/// What extracting the body as text yields: the decoded text, or the status
/// code of the error.  The media type must pass, an unknown declared
/// charset is rejected, an over-long body is rejected, and the body must
/// decode strictly under the declared charset (UTF-8 when none or UTF-8 is
/// declared).
pub open spec fn spec_text_result(req: ReqModel, cfg: PayloadModel) -> Result<Seq<char>, u16> {
    if !spec_mimetype_ok(req, cfg.mimetype) {
        Err(400u16)
    } else {
        let cs = spec_req_charset(req.headers);
        let utf8 = cs is None || spec_utf8_label(cs->0);
        if !utf8 && !charset_known(cs->0) {
            Err(400u16)
        } else if req.body.len() > cfg.limit {
            Err(413u16)
        } else if utf8 {
            if valid_utf8(req.body) {
                Ok(decode_utf8(req.body))
            } else {
                Err(400u16)
            }
        } else {
            match charset_decoded(cs->0, req.body) {
                Some(text) => Ok(text),
                None => Err(400u16),
            }
        }
    }
}

/// Extract the body as text, decoding it according to the request's
/// declared charset: UTF-8 when none is declared, else a strict decode
/// under the declared one, failing the extraction on any decode error.
pub fn string_extract(req: &HttpRequest, cfg: &PayloadConfig) -> (r: Result<String, Error>)
    ensures
        match r {
            Ok(s) => spec_text_result(req@, cfg@) == Ok::<Seq<char>, u16>(s@),
            Err(e) => spec_text_result(req@, cfg@) == Err::<Seq<char>, u16>(e@.status),
        },
{
    if let Err(e) = cfg.check_mimetype(req) {
        return Err(e);
    }
    let label = match req_charset(req) {
        None => None,
        Some(label) => {
            if strutil::str_eq_nocase(label.as_str(), "utf-8") || strutil::str_eq_nocase(
                label.as_str(),
                "utf8",
            ) {
                None
            } else {
                // An unknown label is its own error, settled before the body
                // is read; whether the label is known does not depend on the
                // bytes, so probing with none decides it.
                let probe: [u8; 0] = [];
                if codec::decode_charset(label.as_str(), probe.as_slice()).is_none() {
                    return Err(Error::bad_request("unknown request charset".to_owned()));
                }
                Some(label)
            }
        },
    };
    let body = match read_body(req, cfg.limit) {
        Ok(b) => b,
        Err(e) => {
            return Err(e);
        },
    };
    match label {
        None => match String::from_utf8(body) {
            Ok(s) => Ok(s),
            Err(_) => Err(Error::bad_request("can not decode body".to_owned())),
        },
        Some(label) => match codec::decode_charset(label.as_str(), body.as_slice()) {
            Some(Some(s)) => Ok(s),
            Some(None) => Err(Error::bad_request("can not decode body".to_owned())),
            None => Err(Error::bad_request("unknown request charset".to_owned())),
        },
    }
}

/// Typed information extracted from the request's matched path parameters.
#[derive(Debug)]
pub struct Path<T> {
    pub inner: T,
}

impl<T> Path<T> {
    /// Deconstruct to the inner value.
    pub fn into_inner(self) -> (r: T)
        ensures
            r == self.inner,
    {
        self.inner
    }

    /// Borrow the inner value.
    pub fn as_ref(&self) -> (r: &T)
        ensures
            *r == self.inner,
    {
        &self.inner
    }
}

impl Path<Vec<String>> {
    /// All matched path parameter values, in declaration order.
    pub fn extract(req: &HttpRequest) -> (r: Path<Vec<String>>)
        ensures
            r.inner.deep_view() =~= req@.params.map_values(|p: (Seq<char>, Seq<char>)| p.1),
    {
        Path { inner: req.match_info().values() }
    }
}

impl Path<String> {
    /// The first positional path parameter.  Fails with a not-found error
    /// when no parameter was matched.
    pub fn extract_single(req: &HttpRequest) -> (r: Result<Path<String>, Error>)
        ensures
            match r {
                Ok(p) => req@.params.len() >= 1 && p.inner@ == req@.params[0].1,
                Err(e) => req@.params.len() == 0 && e@.status == 404,
            },
    {
        match req.match_info().value_at(0) {
            Some(v) => Ok(Path { inner: v.clone() }),
            None => Err(Error::not_found("path parameter is missing".to_owned())),
        }
    }

    /// The path parameter with the given name.  Fails with a not-found
    /// error when the pattern bound no such name.
    pub fn extract_named(req: &HttpRequest, name: &str) -> (r: Result<Path<String>, Error>)
        ensures
            match r {
                Ok(p) => spec_lookup(req@.params, name@) == Some(p.inner@),
                Err(e) => spec_lookup(req@.params, name@) is None && e@.status == 404,
            },
    {
        match req.match_info().get(name) {
            Some(v) => Ok(Path { inner: v.clone() }),
            None => Err(Error::not_found("path parameter is missing".to_owned())),
        }
    }
}

impl Path<(String, String)> {
    /// The first two positional path parameters.  Fails with a not-found
    /// error when fewer were matched.
    pub fn extract_pair(req: &HttpRequest) -> (r: Result<Path<(String, String)>, Error>)
        ensures
            match r {
                Ok(p) => req@.params.len() >= 2 && p.inner.0@ == req@.params[0].1 && p.inner.1@
                    == req@.params[1].1,
                Err(e) => req@.params.len() < 2 && e@.status == 404,
            },
    {
        let first = match req.match_info().value_at(0) {
            Some(v) => v.clone(),
            None => {
                return Err(Error::not_found("path parameter is missing".to_owned()));
            },
        };
        match req.match_info().value_at(1) {
            Some(v) => Ok(Path { inner: (first, v.clone()) }),
            None => Err(Error::not_found("path parameter is missing".to_owned())),
        }
    }
}

impl Path<u32> {
    /// The path parameter at the given position read as a decimal number.
    /// Fails with a not-found error when there is no such parameter or when
    /// it is not a decimal numeral whose value fits.
    pub fn extract_index_u32(req: &HttpRequest, index: usize) -> (r: Result<Path<u32>, Error>)
        ensures
            match r {
                Ok(p) => index < req@.params.len() && ({
                    let s = req@.params[index as int].1;
                    s.len() > 0 && spec_all_digits(s) && p.inner == spec_dec_val(s)
                }),
                Err(e) => e@.status == 404 && (index >= req@.params.len() || ({
                    let s = req@.params[index as int].1;
                    s.len() == 0 || !spec_all_digits(s) || spec_dec_val(s) > u32::MAX
                })),
            },
    {
        match req.match_info().value_at(index) {
            Some(v) => match strutil::parse_u32(v.as_str()) {
                Some(n) => Ok(Path { inner: n }),
                None => Err(Error::not_found("path parameter is not a number".to_owned())),
            },
            None => Err(Error::not_found("path parameter is missing".to_owned())),
        }
    }
}

/// The value under `key` among decoded key/value pairs: the first match,
/// if any.
pub fn pairs_get<'a>(pairs: &'a Vec<(String, String)>, key: &str) -> (r: Option<&'a String>)
    ensures
        match r {
            Some(v) => spec_lookup(pairs.deep_view(), key@) == Some(v@),
            None => spec_lookup(pairs.deep_view(), key@) is None,
        },
{
    let n = pairs.len();
    proof {
        assert(pairs.deep_view().skip(0) =~= pairs.deep_view());
    }
    for i in 0..n
        invariant
            n == pairs.len(),
            spec_lookup(pairs.deep_view(), key@) == spec_lookup(
                pairs.deep_view().skip(i as int),
                key@,
            ),
    {
        proof {
            assert(pairs.deep_view().skip(i as int).drop_first() =~= pairs.deep_view().skip(
                i as int + 1,
            ));
            assert(pairs.deep_view().skip(i as int)[0] == pairs@[i as int].deep_view());
        }
        if strutil::str_eq(pairs[i].0.as_str(), key) {
            return Some(&pairs[i].1);
        }
    }
    proof {
        assert(pairs.deep_view().skip(n as int) =~= Seq::<(Seq<char>, Seq<char>)>::empty());
    }
    None
}

/// Typed information extracted from the request's query string.
#[derive(Debug)]
pub struct Query<T>(pub T);

impl<T> Query<T> {
    /// Deconstruct to the inner value.
    pub fn into_inner(self) -> (r: T)
        ensures
            r == self.0,
    {
        self.0
    }
}

impl Query<Vec<(String, String)>> {
    /// The query string's decoded key/value pairs, in order.  Fails with a
    /// bad-request error when the query string is not a well-formed
    /// urlencoded form.
    pub fn extract(req: &HttpRequest) -> (r: Result<Query<Vec<(String, String)>>, Error>)
        ensures
            match r {
                Ok(q) => form_decoded(encode_utf8(req@.query)) == Some(q.0.deep_view()),
                Err(e) => form_decoded(encode_utf8(req@.query)) is None && e@.status == 400,
            },
    {
        match codec::parse_urlencoded(req.query_string().as_str().as_bytes()) {
            Some(pairs) => Ok(Query(pairs)),
            None => Err(Error::bad_request("can not parse query string".to_owned())),
        }
    }
}

/// Form extractor configuration: the byte limit on the body.
pub struct FormConfig {
    limit: usize,
}

impl View for FormConfig {
    type V = int;

    closed spec fn view(&self) -> int {
        self.limit as int
    }
}

impl Default for FormConfig {
    /// The default configuration: a 256 KiB limit.
    fn default() -> (r: FormConfig)
        ensures
            r@ == 262144int,
    {
        FormConfig { limit: 262144 }
    }
}

impl FormConfig {
    /// Change the maximal size of the payload.
    pub fn limit(&mut self, limit: usize) -> (r: &mut FormConfig)
        ensures
            r@ == limit as int,
            *final(self) == *final(r),
    {
        self.limit = limit;
        self
    }
}

/// Whether the request declares the urlencoded-form media type.
pub open spec fn spec_form_mime_ok(req: ReqModel) -> bool {
    match spec_lookup(req.headers, "content-type"@) {
        Some(v) => spec_eq_nocase(spec_essence(v), "application/x-www-form-urlencoded"@),
        None => false,
    }
}

/// What form extraction yields: the decoded pairs, or the first error among
/// wrong media type, over-long body and unparsable body.
pub open spec fn spec_form_result(req: ReqModel, limit: int) -> Result<
    Seq<(Seq<char>, Seq<char>)>,
    UrlencodedError,
> {
    if !spec_form_mime_ok(req) {
        Err(UrlencodedError::ContentType)
    } else if req.body.len() > limit {
        Err(UrlencodedError::Overflow)
    } else {
        match form_decoded(req.body) {
            Some(pairs) => Ok(pairs),
            None => Err(UrlencodedError::Parse),
        }
    }
}

/// Typed information extracted from a urlencoded form body.
#[derive(Debug)]
pub struct Form<T>(pub T);

impl<T> Form<T> {
    /// Deconstruct to the inner value.
    pub fn into_inner(self) -> (r: T)
        ensures
            r == self.0,
    {
        self.0
    }
}

impl Form<Vec<(String, String)>> {
    /// The body's decoded key/value pairs, in order.
    pub fn extract(req: &HttpRequest, cfg: &FormConfig) -> (r: Result<
        Form<Vec<(String, String)>>,
        UrlencodedError,
    >)
        ensures
            match r {
                Ok(f) => spec_form_result(req@, cfg@) == Ok::<_, UrlencodedError>(f.0.deep_view()),
                Err(e) => spec_form_result(req@, cfg@) == Err::<Seq<(Seq<char>, Seq<char>)>, _>(e),
            },
    {
        match req.headers().get("content-type") {
            None => {
                return Err(UrlencodedError::ContentType);
            },
            Some(v) => {
                let ess = essence_of(v.as_str());
                if !strutil::str_eq_nocase(ess.as_str(), "application/x-www-form-urlencoded") {
                    return Err(UrlencodedError::ContentType);
                }
            },
        }
        if req.body().len() > cfg.limit {
            return Err(UrlencodedError::Overflow);
        }
        match codec::parse_urlencoded(req.body().as_slice()) {
            Some(pairs) => Ok(Form(pairs)),
            None => Err(UrlencodedError::Parse),
        }
    }
}

impl Form<String> {
    /// Extract the form and require the field with the given name; its
    /// value is the result.  A missing field fails like an unparsable body.
    pub fn extract_field(req: &HttpRequest, cfg: &FormConfig, name: &str) -> (r: Result<
        Form<String>,
        UrlencodedError,
    >)
        ensures
            match r {
                Ok(f) => spec_form_result(req@, cfg@) matches Ok(pairs) && spec_lookup(pairs, name@)
                    == Some(f.0@),
                Err(e) => match spec_form_result(req@, cfg@) {
                    Ok(pairs) => spec_lookup(pairs, name@) is None && e == UrlencodedError::Parse,
                    Err(e2) => e == e2,
                },
            },
    {
        let form = match Form::extract(req, cfg) {
            Ok(f) => f,
            Err(e) => {
                return Err(e);
            },
        };
        match pairs_get(&form.0, name) {
            Some(v) => Ok(Form(v.clone())),
            None => Err(UrlencodedError::Parse),
        }
    }
}

/// JSON extractor configuration: the byte limit on the body.
pub struct JsonConfig {
    limit: usize,
}

impl View for JsonConfig {
    type V = int;

    closed spec fn view(&self) -> int {
        self.limit as int
    }
}

impl Default for JsonConfig {
    /// The default configuration: a 256 KiB limit.
    fn default() -> (r: JsonConfig)
        ensures
            r@ == 262144int,
    {
        JsonConfig { limit: 262144 }
    }
}

impl JsonConfig {
    /// Change the maximal size of the payload.
    pub fn limit(&mut self, limit: usize) -> (r: &mut JsonConfig)
        ensures
            r@ == limit as int,
            *final(self) == *final(r),
    {
        self.limit = limit;
        self
    }
}

/// Whether the request declares a JSON media type: the essence of its
/// content type ends in `/json` or `+json`.
pub open spec fn spec_json_mime_ok(req: ReqModel) -> bool {
    match spec_lookup(req.headers, "content-type"@) {
        Some(v) => spec_ends_with_nocase(spec_essence(v), "/json"@) || spec_ends_with_nocase(
            spec_essence(v),
            "+json"@,
        ),
        None => false,
    }
}

/// Which outcome JSON extraction takes: success, or the first error among
/// wrong media type, over-long body and unparsable body.  The parsed value
/// itself is opaque to the contract.
pub open spec fn spec_json_result(req: ReqModel, limit: int) -> Result<(), JsonPayloadError> {
    if !spec_json_mime_ok(req) {
        Err(JsonPayloadError::ContentType)
    } else if req.body.len() > limit {
        Err(JsonPayloadError::Overflow)
    } else if json_parses(req.body) {
        Ok(())
    } else {
        Err(JsonPayloadError::Deserialize)
    }
}

/// Typed information extracted from a JSON body, and a JSON responder.
#[derive(Debug)]
pub struct Json<T>(pub T);

impl<T> Json<T> {
    /// Deconstruct to the inner value.
    pub fn into_inner(self) -> (r: T)
        ensures
            r == self.0,
    {
        self.0
    }
}

/// A response with status 200 carrying the given text as a JSON body.
pub fn build_json_response(body: String) -> (r: Response)
    ensures
        r@.status == 200,
        r@.headers =~= seq![("content-type"@, "application/json"@)],
        r@.body == body@,
{
    let mut r = Response::new(200);
    r.append_header("content-type".to_owned(), "application/json".to_owned());
    r.set_body(body);
    proof {
        assert(r@.headers =~= seq![("content-type"@, "application/json"@)]);
    }
    r
}

impl Json<serde_json::Value> {
    /// The body parsed as a JSON value.
    pub fn extract(req: &HttpRequest, cfg: &JsonConfig) -> (r: Result<
        Json<serde_json::Value>,
        JsonPayloadError,
    >)
        ensures
            match r {
                Ok(_) => spec_json_result(req@, cfg@) is Ok,
                Err(e) => spec_json_result(req@, cfg@) == Err::<(), _>(e),
            },
    {
        let json_mime = match req.headers().get("content-type") {
            None => false,
            Some(v) => {
                let ess = essence_of(v.as_str());
                strutil::ends_with_nocase(ess.as_str(), "/json") || strutil::ends_with_nocase(
                    ess.as_str(),
                    "+json",
                )
            },
        };
        if !json_mime {
            return Err(JsonPayloadError::ContentType);
        }
        if req.body().len() > cfg.limit {
            return Err(JsonPayloadError::Overflow);
        }
        match codec::parse_json(req.body().as_slice()) {
            Some(value) => Ok(Json(value)),
            None => Err(JsonPayloadError::Deserialize),
        }
    }

    /// Respond with the value rendered as JSON.  The text of the body is
    /// whatever the serializer produces for the opaque value; the status
    /// and content type are pinned.
    pub fn respond_to(self, _req: &HttpRequest) -> (r: Result<Response, Error>)
        ensures
            match r {
                Ok(resp) => resp@.status == 200 && resp@.headers =~= seq![
                    ("content-type"@, "application/json"@),
                ],
                Err(e) => e@.status == 500,
            },
    {
        match codec::json_to_text(&self.0) {
            Some(text) => Ok(build_json_response(text)),
            None => Err(Error::internal("can not serialize json value".to_owned())),
        }
    }
}

/// Best-effort extraction: any failure of the wrapped extraction collapses
/// into `None`, dropping the error itself.
pub fn option_extract<T, E>(result: Result<T, E>) -> (r: Option<T>)
    ensures
        match result {
            Ok(v) => r == Some(v),
            Err(_) => r is None,
        },
{
    match result {
        Ok(v) => Some(v),
        Err(_) => None,
    }
}

/// Carry the wrapped extraction's outcome into the handler as a value: the
/// outer extraction always succeeds and the handler branches on the result.
pub fn result_extract<T, E>(result: Result<T, E>) -> (r: Result<T, E>)
    ensures
        r == result,
{
    result
}

} // verus!
