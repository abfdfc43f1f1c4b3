//! The dispatcher: turns a finished `Request` into one outbound wire request
//! and decodes the reply.
//!
//! Header validation, body assembly (including the lenient skipping of file
//! fields whose path cannot be opened) and reply decoding are verified here;
//! the wire itself is reached through the trusted bindings in `outbound`.

use vstd::prelude::*;

use crate::outbound::PartView;
use crate::outbound::WireBody;
use crate::outbound::WireView;
use crate::outbound::client_builder;
use crate::outbound::client_build;
use crate::outbound::client_get;
use crate::outbound::client_post;
use crate::outbound::client_put;
use crate::outbound::form_new;
use crate::outbound::form_part;
use crate::outbound::form_parts;
use crate::outbound::form_text;
use crate::outbound::header_name_of;
use crate::outbound::header_pairs_of;
use crate::outbound::header_value_of;
use crate::outbound::is_valid_header_name;
use crate::outbound::is_valid_header_value;
use crate::outbound::parse_header_name;
use crate::outbound::parse_header_value;
use crate::outbound::origin_of;
use crate::outbound::part_file;
use crate::outbound::part_with_filename;
use crate::outbound::status_of;
use crate::outbound::wire_view;
use crate::outbound::wire_form;
use crate::outbound::wire_header;
use crate::outbound::wire_headers;
use crate::outbound::wire_multipart;
use crate::outbound::wire_send;
use crate::outbound::wire_status;
use crate::outbound::wire_text;
use crate::request::Method;
use crate::request::MultipartForm;
use crate::request::Reply;
use crate::request::Request;
use crate::request::RequestBody;
use crate::strmap::StrMap;
use crate::strmap::lemma_map_of_dom;
use crate::strmap::lemma_map_of_lookup;
use crate::strmap::map_of;
use crate::strmap::str_pairs_view;

verus! {

/// Why a dispatch failed.  `InvalidHeader`: a header could not be encoded
/// onto the wire.  `Transport`: the client could not be built or the round
/// trip itself failed (DNS, connect, timeout, malformed URL).  `Decode`: the
/// reply arrived but its body or a header value could not be decoded as
/// text.
#[derive(Clone, Copy, PartialEq, Eq, Structural, Debug)]
pub enum SendError {
    InvalidHeader,
    Transport,
    Decode,
}

/// A header set fails wire encoding exactly when some entry has an invalid
/// name or an invalid value.
pub open spec fn has_invalid_header(h: Map<Seq<char>, Seq<char>>) -> bool {
    exists|k: Seq<char>|
        #[trigger] h.contains_key(k) && !(is_valid_header_name(k) && is_valid_header_value(h[k]))
}

/// The final path segment: everything after the last `/`, or the whole
/// string when it has none.
pub open spec fn base_name_spec(s: Seq<char>) -> Seq<char>
    decreases s.len(),
{
    if s.len() == 0 {
        s
    } else if s.last() == '/' {
        Seq::empty()
    } else {
        base_name_spec(s.drop_last()).push(s.last())
    }
}

proof fn lemma_base_name_subrange(s: Seq<char>, cut: int)
    requires
        0 <= cut <= s.len(),
        forall|j: int| cut <= j < s.len() ==> s[j] != '/',
        cut > 0 ==> s[cut - 1] == '/',
    ensures
        base_name_spec(s) == s.subrange(cut, s.len() as int),
    decreases s.len(),
{
    if s.len() == 0 {
        assert(s.subrange(0, 0) =~= s);
    } else if s.last() == '/' {
        assert(cut == s.len());
        assert(s.subrange(cut, s.len() as int) =~= Seq::<char>::empty());
    } else {
        assert(cut < s.len());
        lemma_base_name_subrange(s.drop_last(), cut);
        assert(s.drop_last().subrange(cut, s.len() - 1).push(s.last()) =~= s.subrange(
            cut,
            s.len() as int,
        ));
    }
}

/// Derive the filename a file part advertises from the file's path.
pub fn base_name(path: &str) -> (r: String)
    ensures
        r@ == base_name_spec(path@),
{
    let n = path.unicode_len();
    let mut cut: usize = 0;
    for i in 0..n
        invariant
            n == path@.len(),
            cut <= i,
            cut > 0 ==> path@[cut - 1] == '/',
            forall|j: int| cut <= j < i ==> path@[j] != '/',
    {
        let c = path.get_char(i);
        if c == '/' {
            cut = i + 1;
        }
    }
    proof {
        lemma_base_name_subrange(path@, cut as int);
    }
    let sub = path.substring_char(cut, n);
    sub.to_owned()
}

/// Whether one multipart part could have arisen from a file field of `m`:
/// its name is a file-field key and its advertised filename is the base name
/// of that field's path.
pub open spec fn file_part_matches(m: &MultipartForm, p: (Seq<char>, PartView)) -> bool {
    m.file@.contains_key(p.0) && p.1 == (PartView::File {
        filename: base_name_spec(m.file@[p.0]),
    })
}

/// Whether `k1` and `k2` name entries of `es` standing in that order.
pub open spec fn file_keys_in_order(
    es: Seq<(Seq<char>, Seq<char>)>,
    k1: Seq<char>,
    k2: Seq<char>,
) -> bool {
    exists|i: int, j: int|
        0 <= i < j < es.len() && (#[trigger] es[i]).0 == k1 && (#[trigger] es[j]).0 == k2
}

/// The wire encodings of a header set's entries, in entry order.
pub open spec fn encoded_header_seq(es: Seq<(Seq<char>, Seq<char>)>) -> Seq<
    (reqwest::header::HeaderName, reqwest::header::HeaderValue),
> {
    Seq::new(es.len(), |i: int| (header_name_of(es[i].0), header_value_of(es[i].1)))
}

/// How an assembled multipart body relates to the builder's field sets:
/// every text field yields exactly one text part, first and in order; every
/// remaining part is a file part named by a file field, advertising the base
/// name of that field's path; no field name yields two parts; and the file
/// parts stand in the order of their fields.  Which file fields appear is
/// the disk's outcome: a field whose path could not be opened is skipped.
pub open spec fn multipart_matches(m: MultipartForm, parts: Seq<(Seq<char>, PartView)>) -> bool {
    &&& parts.len() >= m.text.entries().len()
    &&& forall|j: int|
        0 <= j < m.text.entries().len() ==> #[trigger] parts[j] == (m.text.entries()[j].0,
        PartView::Text { value: m.text.entries()[j].1 })
    &&& forall|j: int|
        m.text.entries().len() <= j < parts.len() ==> file_part_matches(&m, #[trigger] parts[j])
    &&& forall|p: int, q: int|
        m.text.entries().len() <= p < q < parts.len() ==> (#[trigger] parts[p]).0 != (
        #[trigger] parts[q]).0
    &&& forall|p: int, q: int|
        m.text.entries().len() <= p < q < parts.len() ==> file_keys_in_order(
            m.file.entries(),
            (#[trigger] parts[p]).0,
            (#[trigger] parts[q]).0,
        )
}

/// How the dispatched wire request relates to the builder: same verb, same
/// URL string, the validated encoding of every header entry in order, and
/// the body the active variant calls for.
pub open spec fn wire_matches_request(req: Request, w: WireView) -> bool {
    &&& w.method == req.method
    &&& w.url == req.url@
    &&& w.headers == encoded_header_seq(req.headers.entries())
    &&& match req.body {
        RequestBody::Empty => w.body is Empty,
        RequestBody::FormEncoded(fields) => w.body == WireBody::Form(fields.entries()),
        RequestBody::Multipart(m) => w.body matches WireBody::Multipart(parts)
            && multipart_matches(m, parts),
    }
}

/// Assemble the multipart wire form.  Every text field becomes one text
/// part, in order; every file field whose path can be opened becomes one
/// file part named by the field key and advertising the path's base name; a
/// file field whose path cannot be opened is skipped silently, never failing
/// the dispatch.
pub fn build_form(m: &MultipartForm) -> (f: reqwest::blocking::multipart::Form)
    requires
        m.wf(),
    ensures
        multipart_matches(*m, form_parts(f)),
{
    let mut f = form_new();
    let tn = m.text.entry_count();
    for i in 0..tn
        invariant
            tn == m.text.entries().len(),
            m.wf(),
            form_parts(f).len() == i,
            forall|j: int|
                0 <= j < i ==> #[trigger] form_parts(f)[j] == (m.text.entries()[j].0,
                PartView::Text { value: m.text.entries()[j].1 }),
    {
        let k = m.text.key_at(i).clone();
        let v = m.text.value_at(i).clone();
        f = form_text(f, k, v);
    }
    let fln = m.file.entry_count();
    let ghost mut owners: Seq<int> = Seq::empty();
    for i in 0..fln
        invariant
            tn == m.text.entries().len(),
            fln == m.file.entries().len(),
            m.wf(),
            form_parts(f).len() >= tn,
            forall|j: int|
                0 <= j < tn ==> #[trigger] form_parts(f)[j] == (m.text.entries()[j].0,
                PartView::Text { value: m.text.entries()[j].1 }),
            forall|j: int|
                tn <= j < form_parts(f).len() ==> file_part_matches(m, #[trigger] form_parts(f)[j]),
            forall|j: int, e: int|
                tn <= j < form_parts(f).len() && i <= e < fln ==> (#[trigger] form_parts(f)[j]).0
                    != (#[trigger] m.file.entries()[e]).0,
            forall|p: int, q: int|
                tn <= p < q < form_parts(f).len() ==> (#[trigger] form_parts(f)[p]).0 != (
                #[trigger] form_parts(f)[q]).0,
            owners.len() + tn == form_parts(f).len(),
            forall|j: int| 0 <= j < owners.len() ==> 0 <= #[trigger] owners[j] < i,
            forall|j1: int, j2: int|
                0 <= j1 < j2 < owners.len() ==> #[trigger] owners[j1] < #[trigger] owners[j2],
            forall|j: int|
                0 <= j < owners.len() ==> (#[trigger] form_parts(f)[tn + j]).0
                    == m.file.entries()[owners[j]].0,
    {
        let k = m.file.key_at(i).clone();
        let path = m.file.value_at(i);
        match part_file(path.as_str()) {
            Ok(p) => {
                let filename = base_name(path.as_str());
                let p = part_with_filename(p, filename);
                let ghost before = form_parts(f);
                f = form_part(f, k, p);
                proof {
                    lemma_map_of_lookup(m.file.entries(), i as int);
                    assert(form_parts(f) == before.push(
                        (m.file.entries()[i as int].0, PartView::File {
                            filename: base_name_spec(m.file.entries()[i as int].1),
                        }),
                    ));
                    assert forall|j: int, e: int|
                        tn <= j < form_parts(f).len() && i + 1 <= e < fln implies (
                    #[trigger] form_parts(f)[j]).0 != (#[trigger] m.file.entries()[e]).0 by {
                        if j == form_parts(f).len() - 1 {
                            assert(form_parts(f)[j].0 == m.file.entries()[i as int].0);
                        } else {
                            assert(form_parts(f)[j] == before[j]);
                            assert(before[j].0 != m.file.entries()[e].0);
                        }
                    }
                    assert forall|p2: int, q2: int|
                        tn <= p2 < q2 < form_parts(f).len() implies (#[trigger] form_parts(
                        f,
                    )[p2]).0 != (#[trigger] form_parts(f)[q2]).0 by {
                        if q2 == form_parts(f).len() - 1 {
                            assert(before[p2].0 != m.file.entries()[i as int].0);
                        }
                    }
                    owners = owners.push(i as int);
                    assert forall|j: int|
                        0 <= j < owners.len() implies (#[trigger] form_parts(f)[tn + j]).0
                        == m.file.entries()[owners[j]].0 by {
                        if j < owners.len() - 1 {
                            assert(owners[j] == owners.drop_last()[j]);
                            assert(form_parts(f)[tn + j] == before[tn + j]);
                        } else {
                            assert(owners[j] == i as int);
                            assert(tn + j == form_parts(f).len() - 1);
                        }
                    }
                }
            },
            Err(_) => {
                // The path cannot be opened: skip this file field and carry
                // on with the rest of the request.
            },
        }
    }
    proof {
        assert forall|p: int, q: int|
            tn <= p < q < form_parts(f).len() implies file_keys_in_order(
            m.file.entries(),
            (#[trigger] form_parts(f)[p]).0,
            (#[trigger] form_parts(f)[q]).0,
        ) by {
            let j1 = p - tn;
            let j2 = q - tn;
            assert(0 <= owners[j1] && owners[j1] < owners[j2] && owners[j2]
                < m.file.entries().len());
            assert(form_parts(f)[tn + j1].0 == m.file.entries()[owners[j1]].0);
            assert(form_parts(f)[tn + j2].0 == m.file.entries()[owners[j2]].0);
            assert(tn + j1 == p && tn + j2 == q);
        }
    }
    f
}

/// Validate and encode the header set for the wire.  Succeeds exactly when
/// every entry has a valid name and value; otherwise the whole dispatch is
/// abandoned, with no partial recovery.
fn encode_headers(headers: &StrMap) -> (r: Result<
    Vec<(reqwest::header::HeaderName, reqwest::header::HeaderValue)>,
    SendError,
>)
    requires
        headers.wf(),
    ensures
        r is Ok <==> !has_invalid_header(headers@),
        r is Err ==> r == Err::<
            Vec<(reqwest::header::HeaderName, reqwest::header::HeaderValue)>,
            SendError,
        >(SendError::InvalidHeader),
        r matches Ok(v) ==> v@ == encoded_header_seq(headers.entries()),
{
    let n = headers.entry_count();
    let mut out: Vec<(reqwest::header::HeaderName, reqwest::header::HeaderValue)> = Vec::new();
    for i in 0..n
        invariant
            n == headers.entries().len(),
            headers.wf(),
            out@.len() == i,
            forall|j: int|
                0 <= j < i ==> is_valid_header_name((#[trigger] headers.entries()[j]).0)
                    && is_valid_header_value(headers.entries()[j].1),
            forall|j: int|
                0 <= j < i ==> #[trigger] out@[j] == (header_name_of(headers.entries()[j].0),
                header_value_of(headers.entries()[j].1)),
    {
        let k = headers.key_at(i);
        let v = headers.value_at(i);
        let name = match parse_header_name(k.as_str()) {
            Ok(name) => name,
            Err(_) => {
                proof {
                    lemma_map_of_lookup(headers.entries(), i as int);
                }
                return Err(SendError::InvalidHeader);
            },
        };
        let value = match parse_header_value(v.as_str()) {
            Ok(value) => value,
            Err(_) => {
                proof {
                    lemma_map_of_lookup(headers.entries(), i as int);
                }
                return Err(SendError::InvalidHeader);
            },
        };
        out.push((name, value));
    }
    proof {
        assert(out@ =~= encoded_header_seq(headers.entries()));
        lemma_map_of_dom(headers.entries());
        if has_invalid_header(headers@) {
            let k = choose|k: Seq<char>|
                #[trigger] headers@.contains_key(k) && !(is_valid_header_name(k)
                    && is_valid_header_value(headers@[k]));
            let i = choose|i: int|
                0 <= i < headers.entries().len() && (#[trigger] headers.entries()[i]).0 == k;
            lemma_map_of_lookup(headers.entries(), i);
            assert(false);
        }
    }
    Ok(out)
}

impl Request {
    /// Dispatch this request in one synchronous round trip.
    ///
    /// Fails with `InvalidHeader` exactly when some header cannot be encoded
    /// onto the wire.  With encodable headers, the outcome is the network's:
    /// a reply, or `Transport` when the round trip (or the client set-up)
    /// fails, or `Decode` when the reply cannot be read as text.  Every
    /// transport failure surfaces as an error, never as a synthesised reply:
    /// a reply comes only from a completed round trip of a wire request that
    /// matches this builder (`wire_matches_request`), and carries that
    /// response's status and its headers folded last-duplicate-wins.  The
    /// reply body is the decoded text, whatever the stream yielded.
    pub fn send(&self) -> (r: Result<Reply, SendError>)
        requires
            self.wf(),
        ensures
            r == Err::<Reply, SendError>(SendError::InvalidHeader) <==> has_invalid_header(
                self.headers@,
            ),
            r matches Ok(reply) ==> reply.wf() && exists|resp: reqwest::blocking::Response|
                wire_matches_request(*self, #[trigger] origin_of(resp)) && reply.status
                    == status_of(resp) && reply.headers@ == map_of(header_pairs_of(resp)),
    {
        let mut encoded = match encode_headers(&self.headers) {
            Ok(encoded) => encoded,
            Err(e) => {
                return Err(e);
            },
        };
        let ghost full = encoded_header_seq(self.headers.entries());
        let client = match client_build(client_builder()) {
            Ok(c) => c,
            Err(_) => {
                return Err(SendError::Transport);
            },
        };
        let mut wire = match self.method {
            Method::Get => client_get(&client, self.url.as_str()),
            Method::Post => client_post(&client, self.url.as_str()),
            Method::Put => client_put(&client, self.url.as_str()),
        };
        proof {
            assert(full.skip(0) =~= full);
            assert(full.take(0) =~= Seq::<
                (reqwest::header::HeaderName, reqwest::header::HeaderValue),
            >::empty());
        }
        while encoded.len() > 0
            invariant
                encoded@.len() <= full.len(),
                encoded@ == full.skip(full.len() - encoded@.len()),
                full == encoded_header_seq(self.headers.entries()),
                wire_view(wire) == (WireView {
                    method: self.method,
                    url: self.url@,
                    headers: full.take(full.len() - encoded@.len()),
                    body: WireBody::Empty,
                }),
                !has_invalid_header(self.headers@),
            decreases encoded.len(),
        {
            let ghost d = full.len() - encoded@.len();
            let pair = encoded.remove(0);
            proof {
                assert(pair == full[d]);
                assert(encoded@ =~= full.skip(d + 1));
            }
            wire = wire_header(wire, pair.0, pair.1);
            proof {
                assert(full.take(d + 1) =~= full.take(d).push(full[d]));
            }
        }
        proof {
            assert(full.take(full.len() - encoded@.len()) =~= full);
        }
        let wire = match &self.body {
            RequestBody::Empty => wire,
            RequestBody::FormEncoded(fields) => {
                let pairs = fields.to_pairs();
                wire_form(wire, &pairs)
            },
            RequestBody::Multipart(m) => {
                let form = build_form(m);
                wire_multipart(wire, form)
            },
        };
        proof {
            assert(wire_matches_request(*self, wire_view(wire)));
        }
        let resp = match wire_send(wire) {
            Ok(resp) => resp,
            Err(_) => {
                return Err(SendError::Transport);
            },
        };
        let ghost gresp = resp;
        let status = wire_status(&resp);
        let raw_headers = match wire_headers(&resp) {
            Ok(raw) => raw,
            Err(_) => {
                return Err(SendError::Decode);
            },
        };
        let body = match wire_text(resp) {
            Ok(text) => text,
            Err(_) => {
                return Err(SendError::Decode);
            },
        };
        let ghost pv = header_pairs_of(gresp);
        let mut headers = StrMap::new();
        proof {
            assert(pv.take(0) =~= Seq::<(Seq<char>, Seq<char>)>::empty());
        }
        let hn = raw_headers.len();
        for i in 0..hn
            invariant
                hn == raw_headers@.len(),
                pv == str_pairs_view(raw_headers@),
                pv == header_pairs_of(gresp),
                headers.wf(),
                headers@ == map_of(pv.take(i as int)),
                status == status_of(gresp),
                wire_matches_request(*self, origin_of(gresp)),
                !has_invalid_header(self.headers@),
        {
            let k = raw_headers[i].0.clone();
            let v = raw_headers[i].1.clone();
            headers.insert(k, v);
            proof {
                assert(pv.take(i + 1).drop_last() =~= pv.take(i as int));
                assert(pv.take(i + 1).last() == pv[i as int]);
                assert(pv[i as int] == (raw_headers@[i as int].0@, raw_headers@[i as int].1@));
            }
        }
        let reply = Reply { status, body, headers };
        proof {
            assert(pv.take(hn as int) =~= pv);
            assert(reply.headers@ == map_of(header_pairs_of(gresp)));
            assert(exists|resp: reqwest::blocking::Response|
                wire_matches_request(*self, #[trigger] origin_of(resp)) && reply.status
                    == status_of(resp) && reply.headers@ == map_of(header_pairs_of(resp)));
        }
        Ok(reply)
    }
}

/// Absorb a dispatch failure into the sentinel reply: status 400, empty
/// body, no headers.  A successful reply passes through unchanged.
pub fn soften(res: Result<Reply, SendError>) -> (r: Reply)
    ensures
        match res {
            Ok(reply) => r == reply,
            Err(_) => r.status == 400 && r.body@ == Seq::<char>::empty() && r.headers@ == Map::<
                Seq<char>,
                Seq<char>,
            >::empty() && r.wf(),
        },
{
    match res {
        Ok(reply) => reply,
        Err(_) => Reply { status: 400, body: String::new(), headers: StrMap::new() },
    }
}

/// The fail-soft convenience entry point: one GET round trip.  Every
/// failure degrades to the sentinel reply; anything else is a decoded reply
/// to a plain GET of exactly this URL, with no headers and no body.
pub fn simple_get(url: String) -> (r: Reply)
    ensures
        r.wf(),
        (r.status == 400 && r.body@ == Seq::<char>::empty() && r.headers@ == Map::<
            Seq<char>,
            Seq<char>,
        >::empty()) || exists|resp: reqwest::blocking::Response|
            (#[trigger] origin_of(resp)) == (WireView {
                method: Method::Get,
                url: url@,
                headers: Seq::empty(),
                body: WireBody::Empty,
            }) && r.status == status_of(resp) && r.headers@ == map_of(header_pairs_of(resp)),
{
    let request = crate::request::get(url);
    let res = request.send();
    let ghost gres = res;
    let out = soften(res);
    proof {
        if gres is Ok {
            let reply = gres->Ok_0;
            let respw = choose|resp: reqwest::blocking::Response|
                wire_matches_request(request, #[trigger] origin_of(resp)) && reply.status
                    == status_of(resp) && reply.headers@ == map_of(header_pairs_of(resp));
            assert(encoded_header_seq(request.headers.entries()) =~= Seq::<
                (reqwest::header::HeaderName, reqwest::header::HeaderValue),
            >::empty());
            assert(origin_of(respw) =~= (WireView {
                method: Method::Get,
                url: request.url@,
                headers: Seq::empty(),
                body: WireBody::Empty,
            }));
            assert(out == reply && out.status == status_of(respw) && out.headers@ == map_of(
                header_pairs_of(respw),
            ));
        }
    }
    out
}

} // verus!


