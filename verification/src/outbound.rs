//! Trusted bindings to the HTTP stack.
//!
//! Everything that touches the network, the filesystem, or reqwest's opaque
//! builder values lives here, behind small wrappers whose contracts state
//! only what reqwest's own source shows.  The dispatch logic that strings
//! these calls together is verified, in `dispatch`.

use vstd::prelude::*;

verus! {

#[verifier::external_type_specification]
#[verifier::external_body]
pub struct ExClient(reqwest::blocking::Client);

#[verifier::external_type_specification]
#[verifier::external_body]
pub struct ExClientBuilder(reqwest::blocking::ClientBuilder);

#[verifier::external_type_specification]
#[verifier::external_body]
pub struct ExWireBuilder(reqwest::blocking::RequestBuilder);

#[verifier::external_type_specification]
#[verifier::external_body]
pub struct ExWireResponse(reqwest::blocking::Response);

#[verifier::external_type_specification]
#[verifier::external_body]
pub struct ExForm(reqwest::blocking::multipart::Form);

#[verifier::external_type_specification]
#[verifier::external_body]
pub struct ExPart(reqwest::blocking::multipart::Part);

#[verifier::external_type_specification]
#[verifier::external_body]
pub struct ExHeaderName(reqwest::header::HeaderName);

#[verifier::external_type_specification]
#[verifier::external_body]
pub struct ExHeaderValue(reqwest::header::HeaderValue);

#[verifier::external_type_specification]
#[verifier::external_body]
pub struct ExInvalidHeaderName(reqwest::header::InvalidHeaderName);

#[verifier::external_type_specification]
#[verifier::external_body]
pub struct ExInvalidHeaderValue(reqwest::header::InvalidHeaderValue);

#[verifier::external_type_specification]
#[verifier::external_body]
pub struct ExToStrError(reqwest::header::ToStrError);

#[verifier::external_type_specification]
#[verifier::external_body]
pub struct ExReqwestError(reqwest::Error);

#[verifier::external_type_specification]
#[verifier::external_body]
pub struct ExIoError(std::io::Error);

/// The abstract value of one part of a multipart form: a text part holding a
/// value, or a file part advertising a filename.
#[verifier::ext_equal]
pub enum PartView {
    Text { value: Seq<char> },
    File { filename: Seq<char> },
}

/// The abstract value of one outbound wire request, as the builder records
/// it: the verb, the URL string it was created with, the header pairs
/// explicitly appended to it, in order, and its body.
#[verifier::ext_equal]
pub struct WireView {
    pub method: crate::request::Method,
    pub url: Seq<char>,
    pub headers: Seq<(reqwest::header::HeaderName, reqwest::header::HeaderValue)>,
    pub body: WireBody,
}

/// The abstract body of an outbound wire request: absent (no content type
/// set); the `application/x-www-form-urlencoded` encoding of the given
/// pairs, with that content type set unless a header already set one; or a
/// boundary-delimited `multipart/form-data` body holding the given parts,
/// with that content type set.
#[verifier::ext_equal]
pub enum WireBody {
    Empty,
    Form(Seq<(Seq<char>, Seq<char>)>),
    Multipart(Seq<(Seq<char>, PartView)>),
}

/// Whether a string is a valid wire header name; decided by
/// `HeaderName::from_bytes`, a function of the characters alone.
pub uninterp spec fn is_valid_header_name(s: Seq<char>) -> bool;

/// Whether a string is a valid wire header value; decided by
/// `HeaderValue::from_str`, a function of the characters alone.
pub uninterp spec fn is_valid_header_value(s: Seq<char>) -> bool;

/// The named parts a multipart form holds, in the order they were added.
pub uninterp spec fn form_parts(f: reqwest::blocking::multipart::Form) -> Seq<
    (Seq<char>, PartView),
>;

/// The abstract value of a single multipart part.
pub uninterp spec fn part_view(p: reqwest::blocking::multipart::Part) -> PartView;

/// The outbound request a builder describes; each wrapper below states how
/// one construction step changes it.
pub uninterp spec fn wire_view(rb: reqwest::blocking::RequestBuilder) -> WireView;

/// The parsed form of a header name; `HeaderName::from_bytes` is a function
/// of the characters alone.  Unconstrained on the strings the parse rejects,
/// where no name is ever produced.
pub uninterp spec fn header_name_of(s: Seq<char>) -> reqwest::header::HeaderName;

/// The parsed form of a header value, as `header_name_of`.
pub uninterp spec fn header_value_of(s: Seq<char>) -> reqwest::header::HeaderValue;

/// The outbound request whose dispatch produced this response.
pub uninterp spec fn origin_of(r: reqwest::blocking::Response) -> WireView;

/// The numeric status a response carries: a field of the response.
pub uninterp spec fn status_of(r: reqwest::blocking::Response) -> u16;

/// The header pairs a response carries, in wire order, one pair per
/// repetition of a name; meaningful where every value is visible ASCII,
/// the only case in which `wire_headers` hands them out.
pub uninterp spec fn header_pairs_of(r: reqwest::blocking::Response) -> Seq<
    (Seq<char>, Seq<char>),
>;

/// Relies on `reqwest::blocking::Client::builder`.
#[verifier::external_body]
pub(crate) fn client_builder() -> reqwest::blocking::ClientBuilder {
    reqwest::blocking::Client::builder()
}

/// Relies on `reqwest::blocking::ClientBuilder::build`: yields a client, or
/// a reqwest error when the backend cannot be initialised.
#[verifier::external_body]
pub(crate) fn client_build(b: reqwest::blocking::ClientBuilder) -> Result<
    reqwest::blocking::Client,
    reqwest::Error,
> {
    b.build()
}

/// Relies on `reqwest::blocking::Client::get`: starts a GET request to the
/// given URL, with no headers appended yet and no body.  A malformed URL is
/// recorded and surfaces when the request is sent.
#[verifier::external_body]
pub(crate) fn client_get(c: &reqwest::blocking::Client, url: &str) -> (r:
    reqwest::blocking::RequestBuilder)
    ensures
        wire_view(r) == (WireView {
            method: crate::request::Method::Get,
            url: url@,
            headers: Seq::empty(),
            body: WireBody::Empty,
        }),
{
    c.get(url)
}

/// Relies on `reqwest::blocking::Client::post`, as `client_get`.
#[verifier::external_body]
pub(crate) fn client_post(c: &reqwest::blocking::Client, url: &str) -> (r:
    reqwest::blocking::RequestBuilder)
    ensures
        wire_view(r) == (WireView {
            method: crate::request::Method::Post,
            url: url@,
            headers: Seq::empty(),
            body: WireBody::Empty,
        }),
{
    c.post(url)
}

/// Relies on `reqwest::blocking::Client::put`, as `client_get`.
#[verifier::external_body]
pub(crate) fn client_put(c: &reqwest::blocking::Client, url: &str) -> (r:
    reqwest::blocking::RequestBuilder)
    ensures
        wire_view(r) == (WireView {
            method: crate::request::Method::Put,
            url: url@,
            headers: Seq::empty(),
            body: WireBody::Empty,
        }),
{
    c.put(url)
}

/// Relies on `reqwest::header::HeaderName::from_bytes`: accepts exactly the
/// strings that are valid wire header names.
#[verifier::external_body]
pub(crate) fn parse_header_name(s: &str) -> (r: Result<
    reqwest::header::HeaderName,
    reqwest::header::InvalidHeaderName,
>)
    ensures
        r is Ok <==> is_valid_header_name(s@),
        r matches Ok(n) ==> n == header_name_of(s@),
{
    reqwest::header::HeaderName::from_bytes(s.as_bytes())
}

/// Relies on `reqwest::header::HeaderValue::from_str`: accepts exactly the
/// strings that are valid wire header values.
#[verifier::external_body]
pub(crate) fn parse_header_value(s: &str) -> (r: Result<
    reqwest::header::HeaderValue,
    reqwest::header::InvalidHeaderValue,
>)
    ensures
        r is Ok <==> is_valid_header_value(s@),
        r matches Ok(v) ==> v == header_value_of(s@),
{
    reqwest::header::HeaderValue::from_str(s)
}

/// Relies on `reqwest::blocking::RequestBuilder::header`: appends the
/// already-validated header to the outbound request, after any appended
/// earlier.
#[verifier::external_body]
pub(crate) fn wire_header(
    rb: reqwest::blocking::RequestBuilder,
    name: reqwest::header::HeaderName,
    value: reqwest::header::HeaderValue,
) -> (r: reqwest::blocking::RequestBuilder)
    ensures
        wire_view(r) == (WireView {
            method: wire_view(rb).method,
            url: wire_view(rb).url,
            headers: wire_view(rb).headers.push((name, value)),
            body: wire_view(rb).body,
        }),
{
    rb.header(name, value)
}

/// Relies on `reqwest::blocking::RequestBuilder::form`: serialises the pairs
/// as `application/x-www-form-urlencoded`, sets that content type, and makes
/// the encoding the request body.
#[verifier::external_body]
pub(crate) fn wire_form(
    rb: reqwest::blocking::RequestBuilder,
    fields: &Vec<(String, String)>,
) -> (r: reqwest::blocking::RequestBuilder)
    ensures
        wire_view(r) == (WireView {
            method: wire_view(rb).method,
            url: wire_view(rb).url,
            headers: wire_view(rb).headers,
            body: WireBody::Form(crate::strmap::str_pairs_view(fields@)),
        }),
{
    rb.form(fields)
}

/// Relies on `reqwest::blocking::RequestBuilder::multipart`: makes the form
/// the request body, `multipart/form-data` encoded.
#[verifier::external_body]
pub(crate) fn wire_multipart(
    rb: reqwest::blocking::RequestBuilder,
    f: reqwest::blocking::multipart::Form,
) -> (r: reqwest::blocking::RequestBuilder)
    ensures
        wire_view(r) == (WireView {
            method: wire_view(rb).method,
            url: wire_view(rb).url,
            headers: wire_view(rb).headers,
            body: WireBody::Multipart(form_parts(f)),
        }),
{
    rb.multipart(f)
}

/// Relies on `reqwest::blocking::RequestBuilder::send`: one synchronous
/// round trip.  Whether it succeeds the network decides; what comes back on
/// success is, by construction, a response to exactly this request.
#[verifier::external_body]
pub(crate) fn wire_send(rb: reqwest::blocking::RequestBuilder) -> (r: Result<
    reqwest::blocking::Response,
    reqwest::Error,
>)
    ensures
        r matches Ok(resp) ==> origin_of(resp) == wire_view(rb),
{
    rb.send()
}

/// Relies on `reqwest::blocking::multipart::Form::new`: an empty form.
#[verifier::external_body]
pub(crate) fn form_new() -> (f: reqwest::blocking::multipart::Form)
    ensures
        form_parts(f) == Seq::<(Seq<char>, PartView)>::empty(),
{
    reqwest::blocking::multipart::Form::new()
}

/// Relies on `reqwest::blocking::multipart::Form::text`: appends a text part
/// holding the value, under the given name.
#[verifier::external_body]
pub(crate) fn form_text(f: reqwest::blocking::multipart::Form, name: String, value: String) -> (r:
    reqwest::blocking::multipart::Form)
    ensures
        form_parts(r) == form_parts(f).push((name@, PartView::Text { value: value@ })),
{
    f.text(name, value)
}

/// Relies on `reqwest::blocking::multipart::Part::file`: opens the path and
/// yields a file part reading that file, or the I/O error when the open
/// fails.
#[verifier::external_body]
pub(crate) fn part_file(path: &str) -> (r: Result<
    reqwest::blocking::multipart::Part,
    std::io::Error,
>)
    ensures
        r matches Ok(p) ==> part_view(p) is File,
{
    reqwest::blocking::multipart::Part::file(path)
}

/// Relies on `reqwest::blocking::multipart::Part::file_name`: replaces the
/// part's advertised filename.
#[verifier::external_body]
pub(crate) fn part_with_filename(p: reqwest::blocking::multipart::Part, filename: String) -> (r:
    reqwest::blocking::multipart::Part)
    ensures
        part_view(p) is File ==> part_view(r) == (PartView::File { filename: filename@ }),
{
    p.file_name(filename)
}

/// Relies on `reqwest::blocking::multipart::Form::part`: appends the given
/// part under the given name.
#[verifier::external_body]
pub(crate) fn form_part(
    f: reqwest::blocking::multipart::Form,
    name: String,
    p: reqwest::blocking::multipart::Part,
) -> (r: reqwest::blocking::multipart::Form)
    ensures
        form_parts(r) == form_parts(f).push((name@, part_view(p))),
{
    f.part(name, p)
}

/// Relies on `reqwest::blocking::Response::status` and
/// `StatusCode::as_u16`: the numeric status of the reply, a plain field
/// read.
#[verifier::external_body]
pub(crate) fn wire_status(resp: &reqwest::blocking::Response) -> (s: u16)
    ensures
        s == status_of(*resp),
{
    resp.status().as_u16()
}

/// Relies on `reqwest::blocking::Response::headers` and
/// `HeaderValue::to_str`: the reply's headers as plain pairs, in the reply's
/// order (a repeated name yields one pair per repetition), or the error when
/// a value is not visible ASCII.
#[verifier::external_body]
pub(crate) fn wire_headers(resp: &reqwest::blocking::Response) -> (r: Result<
    Vec<(String, String)>,
    reqwest::header::ToStrError,
>)
    ensures
        r matches Ok(v) ==> crate::strmap::str_pairs_view(v@) == header_pairs_of(*resp),
{
    let mut out: Vec<(String, String)> = Vec::new();
    for (name, value) in resp.headers().iter() {
        out.push((name.as_str().to_owned(), value.to_str()?.to_owned()));
    }
    Ok(out)
}

/// Relies on `reqwest::blocking::Response::text`: the reply body decoded as
/// text, or the error when reading or decoding it fails.
#[verifier::external_body]
pub(crate) fn wire_text(r: reqwest::blocking::Response) -> Result<String, reqwest::Error> {
    r.text()
}

} // verus!
