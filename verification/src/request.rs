//! The request model: a mutable, incrementally built HTTP request and the
//! immutable response it yields.
//!
//! A `Request` fixes a method and URL at construction and accumulates
//! headers and a body.  The body is a tagged variant with exactly one active
//! case: absent, URL-form-encoded, or multipart.  Setting a form body
//! replaces any prior body; adding a multipart field when the body is not
//! already multipart discards the prior body and starts a fresh, empty
//! multipart form, discarding the supplied pair as well (a long-standing
//! quirk, kept deliberately: callers may depend on it).

use vstd::prelude::*;

use crate::strmap::StrMap;

verus! {

/// The HTTP verb of a request.  Construction is restricted to these three.
#[derive(Clone, Copy, PartialEq, Eq, Structural, Debug)]
pub enum Method {
    Get,
    Post,
    Put,
}

/// The two multipart field sets: plain text fields, and file fields whose
/// value is a local filesystem path.
pub struct MultipartForm {
    pub text: StrMap,
    pub file: StrMap,
}

impl MultipartForm {
    pub open spec fn wf(&self) -> bool {
        self.text.wf() && self.file.wf()
    }

    pub fn new() -> (r: MultipartForm)
        ensures
            r.wf(),
            r.text@ == Map::<Seq<char>, Seq<char>>::empty(),
            r.file@ == Map::<Seq<char>, Seq<char>>::empty(),
    {
        MultipartForm { text: StrMap::new(), file: StrMap::new() }
    }
}

/// The body of a not-yet-sent request: exactly one case is active.
pub enum RequestBody {
    Empty,
    FormEncoded(StrMap),
    Multipart(MultipartForm),
}

/// The abstract value of a request body.
pub enum BodyView {
    Empty,
    Form(Map<Seq<char>, Seq<char>>),
    Multi { text: Map<Seq<char>, Seq<char>>, file: Map<Seq<char>, Seq<char>> },
}

impl View for RequestBody {
    type V = BodyView;

    open spec fn view(&self) -> BodyView {
        match self {
            RequestBody::Empty => BodyView::Empty,
            RequestBody::FormEncoded(m) => BodyView::Form(m@),
            RequestBody::Multipart(f) => (BodyView::Multi { text: f.text@, file: f.file@ }),
        }
    }
}

impl RequestBody {
    pub open spec fn wf(&self) -> bool {
        match self {
            RequestBody::Empty => true,
            RequestBody::FormEncoded(m) => m.wf(),
            RequestBody::Multipart(f) => f.wf(),
        }
    }
}

/// How a body reacts to `multi_text`: an already-multipart body gains (or
/// overwrites) a text field; any other body is discarded for a fresh, empty
/// multipart form, and the supplied pair is discarded too (the kept quirk).
pub open spec fn body_after_multi_text(b: BodyView, k: Seq<char>, v: Seq<char>) -> BodyView {
    match b {
        BodyView::Multi { text, file } => (BodyView::Multi { text: text.insert(k, v), file }),
        _ => (BodyView::Multi { text: Map::empty(), file: Map::empty() }),
    }
}

/// How a body reacts to `multi_file`; symmetric to `body_after_multi_text`,
/// targeting the file-field set.
pub open spec fn body_after_multi_file(b: BodyView, k: Seq<char>, path: Seq<char>) -> BodyView {
    match b {
        BodyView::Multi { text, file } => (BodyView::Multi { text, file: file.insert(k, path) }),
        _ => (BodyView::Multi { text: Map::empty(), file: Map::empty() }),
    }
}

/// A mutable, not-yet-sent HTTP request.
pub struct Request {
    pub method: Method,
    pub url: String,
    pub headers: StrMap,
    pub body: RequestBody,
}

impl Request {
    pub open spec fn wf(&self) -> bool {
        self.headers.wf() && self.body.wf()
    }

    /// Upsert a header: keys are unique, the last write wins.
    pub fn header(&mut self, key: String, value: String)
        requires
            old(self).wf(),
        ensures
            final(self).wf(),
            final(self).headers@ == old(self).headers@.insert(key@, value@),
            final(self).method == old(self).method,
            final(self).url == old(self).url,
            final(self).body == old(self).body,
    {
        self.headers.insert(key, value);
    }

    /// Replace the body with a form-encoded body, unconditionally.
    pub fn form(&mut self, fields: StrMap)
        requires
            old(self).wf(),
            fields.wf(),
        ensures
            final(self).wf(),
            final(self).body@ == BodyView::Form(fields@),
            final(self).method == old(self).method,
            final(self).url == old(self).url,
            final(self).headers == old(self).headers,
    {
        self.body = RequestBody::FormEncoded(fields);
    }

    /// Add a multipart text field, per `body_after_multi_text`.
    pub fn multi_text(&mut self, key: String, value: String)
        requires
            old(self).wf(),
        ensures
            final(self).wf(),
            final(self).body@ == body_after_multi_text(old(self).body@, key@, value@),
            final(self).method == old(self).method,
            final(self).url == old(self).url,
            final(self).headers == old(self).headers,
    {
        match &mut self.body {
            RequestBody::Multipart(f) => {
                f.text.insert(key, value);
            },
            _ => {
                self.body = RequestBody::Multipart(MultipartForm::new());
            },
        }
    }

    /// Add a multipart file field, per `body_after_multi_file`.  The value is
    /// a filesystem path, read only at dispatch time.
    pub fn multi_file(&mut self, key: String, path: String)
        requires
            old(self).wf(),
        ensures
            final(self).wf(),
            final(self).body@ == body_after_multi_file(old(self).body@, key@, path@),
            final(self).method == old(self).method,
            final(self).url == old(self).url,
            final(self).headers == old(self).headers,
    {
        match &mut self.body {
            RequestBody::Multipart(f) => {
                f.file.insert(key, path);
            },
            _ => {
                self.body = RequestBody::Multipart(MultipartForm::new());
            },
        }
    }
}

/// Construct a GET request builder: no body, no headers, URL unvalidated
/// (a malformed URL surfaces only as a dispatch-time failure).
pub fn get(url: String) -> (r: Request)
    ensures
        r.wf(),
        r.method == Method::Get,
        r.url@ == url@,
        r.headers@ == Map::<Seq<char>, Seq<char>>::empty(),
        r.headers.entries() == Seq::<(Seq<char>, Seq<char>)>::empty(),
        r.body is Empty,
        r.body@ == BodyView::Empty,
{
    Request { method: Method::Get, url, headers: StrMap::new(), body: RequestBody::Empty }
}

/// Construct a POST request builder, as `get` does.
pub fn post(url: String) -> (r: Request)
    ensures
        r.wf(),
        r.method == Method::Post,
        r.url@ == url@,
        r.headers@ == Map::<Seq<char>, Seq<char>>::empty(),
        r.headers.entries() == Seq::<(Seq<char>, Seq<char>)>::empty(),
        r.body is Empty,
        r.body@ == BodyView::Empty,
{
    Request { method: Method::Post, url, headers: StrMap::new(), body: RequestBody::Empty }
}

/// An immutable response: numeric status, decoded body text, and a copy of
/// the reply's headers (last duplicate wins).
pub struct Reply {
    pub status: u16,
    pub body: String,
    pub headers: StrMap,
}

impl Reply {
    pub open spec fn wf(&self) -> bool {
        self.headers.wf()
    }

    /// Success is strict equality with 200, not the 2xx range.
    pub fn is_success(&self) -> (r: bool)
        ensures
            r == (self.status == 200),
    {
        self.status == 200
    }

    /// The decoded body text.
    pub fn text(&self) -> (r: &String)
        ensures
            r@ == self.body@,
    {
        &self.body
    }

    /// Look a response header up by name.
    pub fn header(&self, name: &str) -> (r: Option<&String>)
        requires
            self.wf(),
        ensures
            match r {
                Some(v) => self.headers@.contains_key(name@) && v@ == self.headers@[name@],
                None => !self.headers@.contains_key(name@),
            },
    {
        self.headers.get(name)
    }
}

/// Law: the body cases are mutually exclusive.  After a form body is set,
/// the first multipart-text call discards it entirely and yields an empty
/// multipart body, whatever the form held and whatever pair was supplied.
pub proof fn lemma_form_then_multi_text_discards(
    fields: Map<Seq<char>, Seq<char>>,
    k: Seq<char>,
    v: Seq<char>,
)
    ensures
        body_after_multi_text(BodyView::Form(fields), k, v) == (BodyView::Multi {
            text: Map::<Seq<char>, Seq<char>>::empty(),
            file: Map::<Seq<char>, Seq<char>>::empty(),
        }),
{
}

/// Law: header writes to one key collapse to the last one; after writing the
/// same key twice, the header set holds the second value, and is exactly the
/// set that a single write of the second value would have produced.
pub proof fn lemma_header_upsert(
    h: Map<Seq<char>, Seq<char>>,
    k: Seq<char>,
    v1: Seq<char>,
    v2: Seq<char>,
)
    ensures
        h.insert(k, v1).insert(k, v2) == h.insert(k, v2),
        h.insert(k, v1).insert(k, v2)[k] == v2,
        h.insert(k, v1).insert(k, v2).dom() == h.dom().insert(k),
{
    assert(h.insert(k, v1).insert(k, v2) =~= h.insert(k, v2));
    assert(h.insert(k, v1).insert(k, v2).dom() =~= h.dom().insert(k));
}

} // verus!
