//! HTTP requests and responses on the wire.

use prost::DecodeError;
use vstd::prelude::*;
use vstd::utf8::*;

use crate::headers::Headers;
use crate::vec_map;
use crate::wire;
use crate::wire::{WireMessage, WireType};

verus! {

/// One header: an entry of a map field.
pub struct HeaderEntry {
    pub name: String,
    pub value: String,
}

impl View for HeaderEntry {
    type V = (Seq<char>, Seq<char>);

    open spec fn view(&self) -> (Seq<char>, Seq<char>) {
        (self.name@, self.value@)
    }
}

impl WireMessage for HeaderEntry {
    open spec fn initial() -> (Seq<char>, Seq<char>) {
        (Seq::empty(), Seq::empty())
    }

    open spec fn read_field(
        m: (Seq<char>, Seq<char>),
        tag: u32,
        wire: WireType,
        s: Seq<u8>,
        depth: u32,
    ) -> Option<((Seq<char>, Seq<char>), Seq<u8>)> {
        if tag == 1 {
            match wire::read_string(wire, s) {
                Some((name, rest)) => Some(((name, m.1), rest)),
                None => None,
            }
        } else if tag == 2 {
            match wire::read_string(wire, s) {
                Some((value, rest)) => Some(((m.0, value), rest)),
                None => None,
            }
        } else {
            match wire::skipped(tag, wire, s, depth) {
                Some(rest) => Some((m, rest)),
                None => None,
            }
        }
    }

    open spec fn bytes_of(m: (Seq<char>, Seq<char>)) -> Seq<u8> {
        wire::implicit_string(1, m.0) + wire::implicit_string(2, m.1)
    }

    fn empty() -> (r: Self) {
        HeaderEntry { name: String::new(), value: String::new() }
    }

    fn merge_field<'a>(self, tag: u32, wire: WireType, buf: &'a [u8], depth: u32) -> (r: Result<
        (Self, &'a [u8]),
        DecodeError,
    >) {
        proof {
            wire::lemma_read_value_shorter(wire, buf@);
        }
        if tag == 1 {
            let (name, rest) = wire::decode_string(wire, buf)?;
            Ok((HeaderEntry { name, value: self.value }, rest))
        } else if tag == 2 {
            let (value, rest) = wire::decode_string(wire, buf)?;
            Ok((HeaderEntry { name: self.name, value }, rest))
        } else {
            let rest = wire::skip_field(tag, wire, buf, depth)?;
            Ok((self, rest))
        }
    }

    fn encode_raw(&self, buf: &mut Vec<u8>) {
        wire::put_string(1, &self.name, buf);
        wire::put_string(2, &self.value, buf);
    }
}

/// A header is read back as it was written, however deep it stands.
pub proof fn law_header_entry_round_trip(m: (Seq<char>, Seq<char>), depth: u32)
    requires
        HeaderEntry::bytes_of(m).len() <= u64::MAX,
    ensures
        wire::read_fields::<HeaderEntry>(HeaderEntry::initial(), HeaderEntry::bytes_of(m), depth) == Some(m),
{
    let none = Seq::<u8>::empty();
    let f2 = wire::implicit_string(2, m.1) + none;
    let m1 = (m.0, Seq::<char>::empty());
    assert(HeaderEntry::bytes_of(m) =~= wire::implicit_string(1, m.0) + f2);
    assert(m.0.len() == 0 ==> m.0 =~= Seq::<char>::empty());
    assert(m.1.len() == 0 ==> m.1 =~= Seq::<char>::empty());
    wire::lemma_implicit_string::<HeaderEntry>(HeaderEntry::initial(), 1, m.0, m1, f2, depth);
    wire::lemma_implicit_string::<HeaderEntry>(m1, 2, m.1, m, none, depth);
    assert(wire::read_fields::<HeaderEntry>(m, none, depth) == Some(m));
}

/// The headers from the one at `i` on, each as an entry of a map field.
pub open spec fn headers_field_from(tag: nat, headers: Seq<(Seq<char>, Seq<char>)>, i: int) -> Seq<u8>
    decreases headers.len() - i,
{
    if 0 <= i < headers.len() {
        wire::bytes_field(tag, HeaderEntry::bytes_of(headers[i])) + headers_field_from(
            tag,
            headers,
            i + 1,
        )
    } else {
        Seq::empty()
    }
}

/// The headers, each as an entry of a map field.
pub open spec fn headers_field(tag: nat, headers: Seq<(Seq<char>, Seq<char>)>) -> Seq<u8> {
    headers_field_from(tag, headers, 0)
}

/// The headers after one more entry of the map field, and what follows it. The entry counts as a
/// run of bytes, whatever wire type its key says.
pub open spec fn read_header(
    headers: Seq<(Seq<char>, Seq<char>)>,
    s: Seq<u8>,
    depth: u32,
) -> Option<(Seq<(Seq<char>, Seq<char>)>, Seq<u8>)> {
    match wire::read_nested::<HeaderEntry>(
        HeaderEntry::initial(),
        WireType::LengthDelimited,
        s,
        depth,
    ) {
        Some((entry, rest)) => Some((vec_map::inserted(headers, entry.0, entry.1), rest)),
        None => None,
    }
}

/// Reads one more entry of the map field into `headers`.
fn decode_header<'a>(headers: &mut Headers, buf: &'a [u8], depth: u32) -> (r: Result<
    &'a [u8],
    DecodeError,
>)
    ensures
        match r {
            Ok(rest) => rest@.len() <= buf@.len() && read_header(old(headers)@, buf@, depth) == Some(
                (final(headers)@, rest@),
            ),
            Err(_) => read_header(old(headers)@, buf@, depth) is None,
        },
{
    let (entry, rest) = wire::decode_nested(HeaderEntry::empty(), WireType::LengthDelimited, buf, depth)?;
    headers.insert(entry.name, entry.value);
    Ok(rest)
}

/// Appends the headers to `buf`, each as an entry of a map field.
fn encode_headers(tag: u32, headers: &Headers, buf: &mut Vec<u8>)
    requires
        1 <= tag <= wire::MAX_TAG,
    ensures
        final(buf)@ == old(buf)@ + headers_field(tag as nat, headers@),
{
    let n = headers.len();
    let mut i: usize = 0;
    while i < n
        invariant
            n == headers@.len(),
            i <= n,
            1 <= tag <= wire::MAX_TAG,
            buf@ + headers_field_from(tag as nat, headers@, i as int) == old(buf)@ + headers_field(
                tag as nat,
                headers@,
            ),
        decreases n - i,
    {
        let (name, value) = headers.entry(i);
        let ghost before = buf@;
        let entry = HeaderEntry { name: name.clone(), value: value.clone() };
        wire::encode_nested(tag, &entry, buf);
        i = i + 1;
        assert(buf@ + headers_field_from(tag as nat, headers@, i as int) =~= before
            + headers_field_from(tag as nat, headers@, i - 1));
    }
    assert(buf@ + headers_field_from(tag as nat, headers@, i as int) =~= buf@);
}

/// All headers are read one by one, and then the rest: `state(i)` is the message after the first
/// `i` of them.
proof fn lemma_headers_then_rest<M: WireMessage>(
    state: spec_fn(int) -> M::V,
    tag: u32,
    headers: Seq<(Seq<char>, Seq<char>)>,
    i: int,
    rest: Seq<u8>,
    depth: u32,
)
    requires
        1 <= depth,
        1 <= tag <= wire::MAX_TAG,
        vec_map::distinct_keys(headers),
        0 <= i <= headers.len(),
        headers_field_from(tag as nat, headers, i).len() <= u64::MAX,
        forall|j: int, s: Seq<u8>|
            #![trigger M::read_field(state(j), tag, WireType::LengthDelimited, s, depth)]
            0 <= j < headers.len() ==> (read_header(headers.take(j), s, depth) matches Some((found, after))
                ==> found == headers.take(j + 1) ==> M::read_field(
                state(j),
                tag,
                WireType::LengthDelimited,
                s,
                depth,
            ) == Some((state(j + 1), after))),
    ensures
        wire::read_fields::<M>(
            state(i),
            headers_field_from(tag as nat, headers, i) + rest,
            depth,
        ) == wire::read_fields::<M>(state(headers.len() as int), rest, depth),
    decreases headers.len() - i,
{
    if i < headers.len() {
        let entry = HeaderEntry::bytes_of(headers[i]);
        let later = headers_field_from(tag as nat, headers, i + 1);
        law_header_entry_round_trip(headers[i], (depth - 1) as u32);
        vec_map::lemma_inserted_next(headers, i);
        wire::law_bytes_round_trip(entry, later + rest);
        wire::lemma_bytes_then_rest::<M>(state(i), tag, entry, state(i + 1), later + rest, depth);
        assert(headers_field_from(tag as nat, headers, i) + rest =~= wire::bytes_field(
            tag as nat,
            entry,
        ) + (later + rest));
        lemma_headers_then_rest::<M>(state, tag, headers, i + 1, rest, depth);
    } else {
        assert(headers_field_from(tag as nat, headers, i) + rest =~= rest);
    }
}

/// Runs of bytes appended one after the other are one run.
proof fn lemma_join(
    s: Seq<u8>,
    f1: Seq<u8>,
    f2: Seq<u8>,
    f3: Seq<u8>,
    f4: Seq<u8>,
    f5: Seq<u8>,
    f6: Seq<u8>,
    f7: Seq<u8>,
)
    ensures
        s + f1 + f2 + f3 + f4 + f5 + f6 + f7 == s + (f1 + (f2 + (f3 + (f4 + (f5 + (f6 + f7)))))),
{
    assert(s + f1 + f2 + f3 + f4 + f5 + f6 + f7 =~= s + (f1 + (f2 + (f3 + (f4 + (f5 + (f6
        + f7)))))));
}

/// What a request on the wire holds.
pub struct RequestModel {
    pub request_id: Seq<u8>,
    pub path: Seq<char>,
    pub method: Seq<char>,
    pub querystring: Option<Seq<char>>,
    pub headers: Seq<(Seq<char>, Seq<char>)>,
    pub payload: Option<Seq<u8>>,
    pub port: u32,
}

/// A request on the wire.
#[derive(Debug)]
pub struct Request {
    pub request_id: Vec<u8>,
    pub path: String,
    pub method: String,
    pub querystring: Option<String>,
    pub headers: Headers,
    pub payload: Option<Vec<u8>>,
    pub port: u32,
}

impl View for Request {
    type V = RequestModel;

    open spec fn view(&self) -> RequestModel {
        RequestModel {
            request_id: self.request_id@,
            path: self.path@,
            method: self.method@,
            querystring: wire::string_option(self.querystring),
            headers: self.headers@,
            payload: wire::bytes_option(self.payload),
            port: self.port,
        }
    }
}

impl WireMessage for Request {
    open spec fn initial() -> RequestModel {
        RequestModel {
            request_id: Seq::empty(),
            path: Seq::empty(),
            method: Seq::empty(),
            querystring: None,
            headers: Seq::empty(),
            payload: None,
            port: 0,
        }
    }

    open spec fn read_field(
        m: RequestModel,
        tag: u32,
        wire: WireType,
        s: Seq<u8>,
        depth: u32,
    ) -> Option<(RequestModel, Seq<u8>)> {
        if tag == 1 {
            match wire::read_bytes(wire, s) {
                Some((v, rest)) => Some((RequestModel { request_id: v, ..m }, rest)),
                None => None,
            }
        } else if tag == 2 {
            match wire::read_string(wire, s) {
                Some((v, rest)) => Some((RequestModel { path: v, ..m }, rest)),
                None => None,
            }
        } else if tag == 3 {
            match wire::read_string(wire, s) {
                Some((v, rest)) => Some((RequestModel { method: v, ..m }, rest)),
                None => None,
            }
        } else if tag == 4 {
            match wire::read_string(wire, s) {
                Some((v, rest)) => Some((RequestModel { querystring: Some(v), ..m }, rest)),
                None => None,
            }
        } else if tag == 5 {
            match read_header(m.headers, s, depth) {
                Some((v, rest)) => Some((RequestModel { headers: v, ..m }, rest)),
                None => None,
            }
        } else if tag == 6 {
            match wire::read_bytes(wire, s) {
                Some((v, rest)) => Some((RequestModel { payload: Some(v), ..m }, rest)),
                None => None,
            }
        } else if tag == 7 {
            match wire::read_uint32(wire, s) {
                Some((v, rest)) => Some((RequestModel { port: v, ..m }, rest)),
                None => None,
            }
        } else {
            match wire::skipped(tag, wire, s, depth) {
                Some(rest) => Some((m, rest)),
                None => None,
            }
        }
    }

    open spec fn bytes_of(m: RequestModel) -> Seq<u8> {
        wire::implicit_bytes(1, m.request_id) + (wire::implicit_string(2, m.path) + (
        wire::implicit_string(3, m.method) + (wire::optional_string(4, m.querystring) + (
        headers_field(5, m.headers) + (wire::optional_bytes(6, m.payload) + wire::implicit_uint32(
            7,
            m.port,
        ))))))
    }

    fn empty() -> (r: Self) {
        Request {
            request_id: Vec::new(),
            path: String::new(),
            method: String::new(),
            querystring: None,
            headers: Headers::new(),
            payload: None,
            port: 0,
        }
    }

    fn merge_field<'a>(self, tag: u32, wire: WireType, buf: &'a [u8], depth: u32) -> (r: Result<
        (Self, &'a [u8]),
        DecodeError,
    >) {
        proof {
            wire::lemma_read_value_shorter(wire, buf@);
        }
        let mut m = self;
        if tag == 1 {
            let (v, rest) = wire::decode_bytes(wire, buf)?;
            m.request_id = v;
            Ok((m, rest))
        } else if tag == 2 {
            let (v, rest) = wire::decode_string(wire, buf)?;
            m.path = v;
            Ok((m, rest))
        } else if tag == 3 {
            let (v, rest) = wire::decode_string(wire, buf)?;
            m.method = v;
            Ok((m, rest))
        } else if tag == 4 {
            let (v, rest) = wire::decode_string(wire, buf)?;
            m.querystring = Some(v);
            Ok((m, rest))
        } else if tag == 5 {
            let rest = decode_header(&mut m.headers, buf, depth)?;
            Ok((m, rest))
        } else if tag == 6 {
            let (v, rest) = wire::decode_bytes(wire, buf)?;
            m.payload = Some(v);
            Ok((m, rest))
        } else if tag == 7 {
            let (v, rest) = wire::decode_uint32(wire, buf)?;
            m.port = v;
            Ok((m, rest))
        } else {
            let rest = wire::skip_field(tag, wire, buf, depth)?;
            Ok((m, rest))
        }
    }

    fn encode_raw(&self, buf: &mut Vec<u8>) {
        wire::put_bytes(1, &self.request_id, buf);
        wire::put_string(2, &self.path, buf);
        wire::put_string(3, &self.method, buf);
        wire::put_optional_string(4, &self.querystring, buf);
        encode_headers(5, &self.headers, buf);
        wire::put_optional_bytes(6, &self.payload, buf);
        wire::put_uint32(7, self.port, buf);
        proof {
            lemma_join(
                old(buf)@,
                wire::implicit_bytes(1, self.request_id@),
                wire::implicit_string(2, self.path@),
                wire::implicit_string(3, self.method@),
                wire::optional_string(4, wire::string_option(self.querystring)),
                headers_field(5, self.headers@),
                wire::optional_bytes(6, wire::bytes_option(self.payload)),
                wire::implicit_uint32(7, self.port),
            );
        }
    }
}

/// A request is read back as it was written, where one more level may nest.
pub proof fn law_request_round_trip(m: RequestModel, depth: u32)
    requires
        vec_map::distinct_keys(m.headers),
        1 <= depth,
        Request::bytes_of(m).len() <= u64::MAX,
    ensures
        wire::read_fields::<Request>(Request::initial(), Request::bytes_of(m), depth) == Some(m),
{
    let none = Seq::<u8>::empty();
    let s7 = wire::implicit_uint32(7, m.port) + none;
    let s6 = wire::optional_bytes(6, m.payload) + s7;
    let s5 = headers_field(5, m.headers) + s6;
    let s4 = wire::optional_string(4, m.querystring) + s5;
    let s3 = wire::implicit_string(3, m.method) + s4;
    let s2 = wire::implicit_string(2, m.path) + s3;
    let s1 = wire::implicit_bytes(1, m.request_id) + s2;
    assert(s1 =~= Request::bytes_of(m));
    let m0 = Request::initial();
    let m1 = RequestModel { request_id: m.request_id, ..m0 };
    let m2 = RequestModel { path: m.path, ..m1 };
    let m3 = RequestModel { method: m.method, ..m2 };
    let m4 = RequestModel { querystring: m.querystring, ..m3 };
    let state = |i: int| RequestModel { headers: m.headers.take(i), ..m4 };
    let m5 = RequestModel { headers: m.headers, ..m4 };
    let m6 = RequestModel { payload: m.payload, ..m5 };
    assert(m.request_id.len() == 0 ==> m.request_id =~= Seq::<u8>::empty());
    assert(m.path.len() == 0 ==> m.path =~= Seq::<char>::empty());
    assert(m.method.len() == 0 ==> m.method =~= Seq::<char>::empty());
    wire::lemma_implicit_bytes::<Request>(m0, 1, m.request_id, m1, s2, depth);
    wire::lemma_implicit_string::<Request>(m1, 2, m.path, m2, s3, depth);
    wire::lemma_implicit_string::<Request>(m2, 3, m.method, m3, s4, depth);
    wire::lemma_optional_string::<Request>(m3, 4, m.querystring, m4, s5, depth);
    assert(state(0) == m4) by {
        assert(m.headers.take(0) =~= Seq::<(Seq<char>, Seq<char>)>::empty());
    }
    assert(state(m.headers.len() as int) == m5) by {
        assert(m.headers.take(m.headers.len() as int) =~= m.headers);
    }
    lemma_headers_then_rest::<Request>(state, 5, m.headers, 0, s6, depth);
    wire::lemma_optional_bytes::<Request>(m5, 6, m.payload, m6, s7, depth);
    wire::lemma_implicit_uint32::<Request>(m6, 7, m.port, m, none, depth);
    assert(wire::read_fields::<Request>(m, none, depth) == Some(m));
}

/// What a response on the wire holds.
pub struct ResponseModel {
    pub request_id: Seq<u8>,
    pub status_code: u32,
    pub headers: Seq<(Seq<char>, Seq<char>)>,
    pub payload: Option<Seq<u8>>,
}

/// A response on the wire.
#[derive(Debug)]
pub struct Response {
    pub request_id: Vec<u8>,
    pub status_code: u32,
    pub headers: Headers,
    pub payload: Option<Vec<u8>>,
}

impl View for Response {
    type V = ResponseModel;

    open spec fn view(&self) -> ResponseModel {
        ResponseModel {
            request_id: self.request_id@,
            status_code: self.status_code,
            headers: self.headers@,
            payload: wire::bytes_option(self.payload),
        }
    }
}

impl WireMessage for Response {
    open spec fn initial() -> ResponseModel {
        ResponseModel {
            request_id: Seq::empty(),
            status_code: 0,
            headers: Seq::empty(),
            payload: None,
        }
    }

    open spec fn read_field(
        m: ResponseModel,
        tag: u32,
        wire: WireType,
        s: Seq<u8>,
        depth: u32,
    ) -> Option<(ResponseModel, Seq<u8>)> {
        if tag == 1 {
            match wire::read_bytes(wire, s) {
                Some((v, rest)) => Some((ResponseModel { request_id: v, ..m }, rest)),
                None => None,
            }
        } else if tag == 2 {
            match wire::read_uint32(wire, s) {
                Some((v, rest)) => Some((ResponseModel { status_code: v, ..m }, rest)),
                None => None,
            }
        } else if tag == 3 {
            match read_header(m.headers, s, depth) {
                Some((v, rest)) => Some((ResponseModel { headers: v, ..m }, rest)),
                None => None,
            }
        } else if tag == 4 {
            match wire::read_bytes(wire, s) {
                Some((v, rest)) => Some((ResponseModel { payload: Some(v), ..m }, rest)),
                None => None,
            }
        } else {
            match wire::skipped(tag, wire, s, depth) {
                Some(rest) => Some((m, rest)),
                None => None,
            }
        }
    }

    open spec fn bytes_of(m: ResponseModel) -> Seq<u8> {
        wire::implicit_bytes(1, m.request_id) + (wire::implicit_uint32(2, m.status_code) + (
        headers_field(3, m.headers) + wire::optional_bytes(4, m.payload)))
    }

    fn empty() -> (r: Self) {
        Response {
            request_id: Vec::new(),
            status_code: 0,
            headers: Headers::new(),
            payload: None,
        }
    }

    fn merge_field<'a>(self, tag: u32, wire: WireType, buf: &'a [u8], depth: u32) -> (r: Result<
        (Self, &'a [u8]),
        DecodeError,
    >) {
        proof {
            wire::lemma_read_value_shorter(wire, buf@);
        }
        let mut m = self;
        if tag == 1 {
            let (v, rest) = wire::decode_bytes(wire, buf)?;
            m.request_id = v;
            Ok((m, rest))
        } else if tag == 2 {
            let (v, rest) = wire::decode_uint32(wire, buf)?;
            m.status_code = v;
            Ok((m, rest))
        } else if tag == 3 {
            let rest = decode_header(&mut m.headers, buf, depth)?;
            Ok((m, rest))
        } else if tag == 4 {
            let (v, rest) = wire::decode_bytes(wire, buf)?;
            m.payload = Some(v);
            Ok((m, rest))
        } else {
            let rest = wire::skip_field(tag, wire, buf, depth)?;
            Ok((m, rest))
        }
    }

    fn encode_raw(&self, buf: &mut Vec<u8>) {
        wire::put_bytes(1, &self.request_id, buf);
        wire::put_uint32(2, self.status_code, buf);
        encode_headers(3, &self.headers, buf);
        wire::put_optional_bytes(4, &self.payload, buf);
        proof {
            let none = Seq::<u8>::empty();
            let f4 = wire::optional_bytes(4, wire::bytes_option(self.payload));
            lemma_join(
                old(buf)@,
                wire::implicit_bytes(1, self.request_id@),
                wire::implicit_uint32(2, self.status_code),
                headers_field(3, self.headers@),
                f4,
                none,
                none,
                none,
            );
            assert(f4 + (none + (none + none)) =~= f4);
            assert(buf@ + none + none + none =~= buf@);
        }
    }
}

/// A response is read back as it was written, where one more level may nest.
pub proof fn law_response_round_trip(m: ResponseModel, depth: u32)
    requires
        vec_map::distinct_keys(m.headers),
        1 <= depth,
        Response::bytes_of(m).len() <= u64::MAX,
    ensures
        wire::read_fields::<Response>(Response::initial(), Response::bytes_of(m), depth) == Some(m),
{
    let none = Seq::<u8>::empty();
    let s4 = wire::optional_bytes(4, m.payload) + none;
    let s3 = headers_field(3, m.headers) + s4;
    let s2 = wire::implicit_uint32(2, m.status_code) + s3;
    let s1 = wire::implicit_bytes(1, m.request_id) + s2;
    assert(s1 =~= Response::bytes_of(m));
    let m0 = Response::initial();
    let m1 = ResponseModel { request_id: m.request_id, ..m0 };
    let m2 = ResponseModel { status_code: m.status_code, ..m1 };
    let state = |i: int| ResponseModel { headers: m.headers.take(i), ..m2 };
    let m3 = ResponseModel { headers: m.headers, ..m2 };
    assert(m.request_id.len() == 0 ==> m.request_id =~= Seq::<u8>::empty());
    wire::lemma_implicit_bytes::<Response>(m0, 1, m.request_id, m1, s2, depth);
    wire::lemma_implicit_uint32::<Response>(m1, 2, m.status_code, m2, s3, depth);
    assert(state(0) == m2) by {
        assert(m.headers.take(0) =~= Seq::<(Seq<char>, Seq<char>)>::empty());
    }
    assert(state(m.headers.len() as int) == m3) by {
        assert(m.headers.take(m.headers.len() as int) =~= m.headers);
    }
    lemma_headers_then_rest::<Response>(state, 3, m.headers, 0, s4, depth);
    wire::lemma_optional_bytes::<Response>(m3, 4, m.payload, m, none, depth);
    assert(wire::read_fields::<Response>(m, none, depth) == Some(m));
}

/// What the message of an HTTP exchange on the wire holds.
pub enum MessageModel {
    Request(RequestModel),
    Response(ResponseModel),
}

/// The message of an HTTP exchange on the wire.
#[derive(Debug)]
pub enum Message {
    Request(Request),
    Response(Response),
}

impl View for Message {
    type V = MessageModel;

    open spec fn view(&self) -> MessageModel {
        match self {
            Message::Request(m) => MessageModel::Request(m@),
            Message::Response(m) => MessageModel::Response(m@),
        }
    }
}

impl MessageModel {
    /// Header names occur once.
    pub open spec fn wf(self) -> bool {
        match self {
            MessageModel::Request(m) => vec_map::distinct_keys(m.headers),
            MessageModel::Response(m) => vec_map::distinct_keys(m.headers),
        }
    }
}

/// The first field of a header is its name and the second its value.
pub proof fn law_header_entry_fields(
    m: (Seq<char>, Seq<char>),
    text: Seq<char>,
    rest: Seq<u8>,
    depth: u32,
)
    requires
        encode_utf8(text).len() <= u64::MAX,
    ensures
        HeaderEntry::initial().0.len() == 0,
        HeaderEntry::initial().1.len() == 0,
        wire::read_fields::<HeaderEntry>(m, wire::string_field(1, text) + rest, depth)
            == wire::read_fields::<HeaderEntry>((text, m.1), rest, depth),
        wire::read_fields::<HeaderEntry>(m, wire::string_field(2, text) + rest, depth)
            == wire::read_fields::<HeaderEntry>((m.0, text), rest, depth),
{
    wire::lemma_string_then_rest::<HeaderEntry>(m, 1, text, (text, m.1), rest, depth);
    wire::lemma_string_then_rest::<HeaderEntry>(m, 2, text, (m.0, text), rest, depth);
}

/// The fields of a request are, in this order, its ID, its path, its method, its query, a header, its
/// payload and its port. A field sets its member, a header its value under its name, and nothing
/// else.
pub proof fn law_request_fields(
    m: RequestModel,
    bytes: Seq<u8>,
    text: Seq<char>,
    header: (Seq<char>, Seq<char>),
    number: u32,
    rest: Seq<u8>,
    depth: u32,
)
    requires
        1 <= depth,
        bytes.len() <= u64::MAX,
        encode_utf8(text).len() <= u64::MAX,
        HeaderEntry::bytes_of(header).len() <= u64::MAX,
    ensures
        wire::read_fields::<Request>(m, wire::bytes_field(1, bytes) + rest, depth)
            == wire::read_fields::<Request>(RequestModel { request_id: bytes, ..m }, rest, depth),
        wire::read_fields::<Request>(m, wire::string_field(2, text) + rest, depth)
            == wire::read_fields::<Request>(RequestModel { path: text, ..m }, rest, depth),
        wire::read_fields::<Request>(m, wire::string_field(3, text) + rest, depth)
            == wire::read_fields::<Request>(RequestModel { method: text, ..m }, rest, depth),
        wire::read_fields::<Request>(m, wire::string_field(4, text) + rest, depth)
            == wire::read_fields::<Request>(
            RequestModel { querystring: Some(text), ..m },
            rest,
            depth,
        ),
        wire::read_fields::<Request>(
            m,
            wire::bytes_field(5, HeaderEntry::bytes_of(header)) + rest,
            depth,
        ) == wire::read_fields::<Request>(
            RequestModel { headers: vec_map::inserted(m.headers, header.0, header.1), ..m },
            rest,
            depth,
        ),
        wire::read_fields::<Request>(m, wire::bytes_field(6, bytes) + rest, depth)
            == wire::read_fields::<Request>(
            RequestModel { payload: Some(bytes), ..m },
            rest,
            depth,
        ),
        wire::read_fields::<Request>(m, wire::uint32_field(7, number) + rest, depth)
            == wire::read_fields::<Request>(RequestModel { port: number, ..m }, rest, depth),
{
    let entry = HeaderEntry::bytes_of(header);
    let headers = vec_map::inserted(m.headers, header.0, header.1);
    law_header_entry_round_trip(header, (depth - 1) as u32);
    wire::law_bytes_round_trip(entry, rest);
    wire::lemma_bytes_then_rest::<Request>(
        m,
        1,
        bytes,
        RequestModel { request_id: bytes, ..m },
        rest,
        depth,
    );
    wire::lemma_string_then_rest::<Request>(
        m,
        2,
        text,
        RequestModel { path: text, ..m },
        rest,
        depth,
    );
    wire::lemma_string_then_rest::<Request>(
        m,
        3,
        text,
        RequestModel { method: text, ..m },
        rest,
        depth,
    );
    wire::lemma_string_then_rest::<Request>(
        m,
        4,
        text,
        RequestModel { querystring: Some(text), ..m },
        rest,
        depth,
    );
    wire::lemma_bytes_then_rest::<Request>(
        m,
        5,
        entry,
        RequestModel { headers, ..m },
        rest,
        depth,
    );
    wire::lemma_bytes_then_rest::<Request>(
        m,
        6,
        bytes,
        RequestModel { payload: Some(bytes), ..m },
        rest,
        depth,
    );
    wire::lemma_uint32_then_rest::<Request>(
        m,
        7,
        number,
        RequestModel { port: number, ..m },
        rest,
        depth,
    );
}

/// The fields of a response are, in this order, the ID of its request, its status, a header and its
/// payload. A field sets its member, a header its value under its name, and nothing else.
pub proof fn law_response_fields(
    m: ResponseModel,
    bytes: Seq<u8>,
    header: (Seq<char>, Seq<char>),
    number: u32,
    rest: Seq<u8>,
    depth: u32,
)
    requires
        1 <= depth,
        bytes.len() <= u64::MAX,
        HeaderEntry::bytes_of(header).len() <= u64::MAX,
    ensures
        wire::read_fields::<Response>(m, wire::bytes_field(1, bytes) + rest, depth)
            == wire::read_fields::<Response>(
            ResponseModel { request_id: bytes, ..m },
            rest,
            depth,
        ),
        wire::read_fields::<Response>(m, wire::uint32_field(2, number) + rest, depth)
            == wire::read_fields::<Response>(
            ResponseModel { status_code: number, ..m },
            rest,
            depth,
        ),
        wire::read_fields::<Response>(
            m,
            wire::bytes_field(3, HeaderEntry::bytes_of(header)) + rest,
            depth,
        ) == wire::read_fields::<Response>(
            ResponseModel { headers: vec_map::inserted(m.headers, header.0, header.1), ..m },
            rest,
            depth,
        ),
        wire::read_fields::<Response>(m, wire::bytes_field(4, bytes) + rest, depth)
            == wire::read_fields::<Response>(
            ResponseModel { payload: Some(bytes), ..m },
            rest,
            depth,
        ),
{
    let entry = HeaderEntry::bytes_of(header);
    let headers = vec_map::inserted(m.headers, header.0, header.1);
    law_header_entry_round_trip(header, (depth - 1) as u32);
    wire::law_bytes_round_trip(entry, rest);
    wire::lemma_bytes_then_rest::<Response>(
        m,
        1,
        bytes,
        ResponseModel { request_id: bytes, ..m },
        rest,
        depth,
    );
    wire::lemma_uint32_then_rest::<Response>(
        m,
        2,
        number,
        ResponseModel { status_code: number, ..m },
        rest,
        depth,
    );
    wire::lemma_bytes_then_rest::<Response>(
        m,
        3,
        entry,
        ResponseModel { headers, ..m },
        rest,
        depth,
    );
    wire::lemma_bytes_then_rest::<Response>(
        m,
        4,
        bytes,
        ResponseModel { payload: Some(bytes), ..m },
        rest,
        depth,
    );
}

/// A request and a response of which no field was read are empty, and a field that is not known is
/// passed over.
pub proof fn law_unknown_fields(
    entry: (Seq<char>, Seq<char>),
    req: RequestModel,
    res: ResponseModel,
    tag: u32,
    wire: WireType,
    value: Seq<u8>,
    rest: Seq<u8>,
    depth: u32,
)
    requires
        3 <= tag <= wire::MAX_TAG,
        wire::skipped(tag, wire, value + rest, depth) == Some(rest),
    ensures
        Request::initial() == (RequestModel {
            request_id: Seq::empty(),
            path: Seq::empty(),
            method: Seq::empty(),
            querystring: None,
            headers: Seq::empty(),
            payload: None,
            port: 0,
        }),
        Response::initial() == (ResponseModel {
            request_id: Seq::empty(),
            status_code: 0,
            headers: Seq::empty(),
            payload: None,
        }),
        ({
            let field = wire::key(tag as nat, wire) + value;
            &&& wire::read_fields::<HeaderEntry>(entry, field + rest, depth)
                == wire::read_fields::<HeaderEntry>(entry, rest, depth)
            &&& 8 <= tag ==> wire::read_fields::<Request>(req, field + rest, depth)
                == wire::read_fields::<Request>(req, rest, depth)
            &&& 5 <= tag ==> wire::read_fields::<Response>(res, field + rest, depth)
                == wire::read_fields::<Response>(res, rest, depth)
        }),
{
    wire::lemma_field_then_rest::<HeaderEntry>(entry, tag, wire, value, entry, rest, depth);
    if 8 <= tag {
        wire::lemma_field_then_rest::<Request>(req, tag, wire, value, req, rest, depth);
    }
    if 5 <= tag {
        wire::lemma_field_then_rest::<Response>(res, tag, wire, value, res, rest, depth);
    }
}

/// A header is read whatever wire type its key says.
pub proof fn law_header_of_any_wire_type(
    req: RequestModel,
    res: ResponseModel,
    header: (Seq<char>, Seq<char>),
    wire: WireType,
    rest: Seq<u8>,
    depth: u32,
)
    requires
        1 <= depth,
        HeaderEntry::bytes_of(header).len() <= u64::MAX,
    ensures
        ({
            let entry = HeaderEntry::bytes_of(header);
            let value = wire::varint(entry.len()) + entry;
            &&& wire::read_fields::<Request>(req, wire::key(5, wire) + value + rest, depth)
                == wire::read_fields::<Request>(
                RequestModel { headers: vec_map::inserted(req.headers, header.0, header.1), ..req },
                rest,
                depth,
            )
            &&& wire::read_fields::<Response>(res, wire::key(3, wire) + value + rest, depth)
                == wire::read_fields::<Response>(
                ResponseModel {
                    headers: vec_map::inserted(res.headers, header.0, header.1),
                    ..res
                },
                rest,
                depth,
            )
        }),
{
    let entry = HeaderEntry::bytes_of(header);
    let value = wire::varint(entry.len()) + entry;
    law_header_entry_round_trip(header, (depth - 1) as u32);
    wire::law_bytes_round_trip(entry, rest);
    wire::lemma_field_then_rest::<Request>(
        req,
        5,
        wire,
        value,
        RequestModel { headers: vec_map::inserted(req.headers, header.0, header.1), ..req },
        rest,
        depth,
    );
    wire::lemma_field_then_rest::<Response>(
        res,
        3,
        wire,
        value,
        ResponseModel { headers: vec_map::inserted(res.headers, header.0, header.1), ..res },
        rest,
        depth,
    );
}

/// Nothing is read where a field is malformed: where its value is none of its kind, a message in it
/// is malformed or nests too deep, or a field that is not known cannot be stepped over.
pub proof fn law_malformed_fields(
    entry: (Seq<char>, Seq<char>),
    req: RequestModel,
    res: ResponseModel,
    tag: u32,
    wire: WireType,
    rest: Seq<u8>,
    depth: u32,
)
    requires
        1 <= tag <= wire::MAX_TAG,
    ensures
        ({
            let field = wire::key(tag as nat, wire) + rest;
            let unknown = wire::skipped(tag, wire, rest, depth) is None;
            let no_bytes = wire::read_bytes(wire, rest) is None;
            let no_text = wire::read_string(wire, rest) is None;
            let no_number = wire::read_uint32(wire, rest) is None;
            let no_header = wire::read_nested::<HeaderEntry>(
                HeaderEntry::initial(),
                WireType::LengthDelimited,
                rest,
                depth,
            ) is None;
            &&& (1 <= tag <= 2 && no_text) || (3 <= tag && unknown)
                ==> wire::read_fields::<HeaderEntry>(entry, field, depth) is None
            &&& ((tag == 1 || tag == 6) && no_bytes) || (2 <= tag <= 4 && no_text)
                || (tag == 5 && no_header) || (tag == 7 && no_number) || (8 <= tag && unknown)
                ==> wire::read_fields::<Request>(req, field, depth) is None
            &&& ((tag == 1 || tag == 4) && no_bytes) || (tag == 2 && no_number)
                || (tag == 3 && no_header) || (5 <= tag && unknown)
                ==> wire::read_fields::<Response>(res, field, depth) is None
        }),
{
    if HeaderEntry::read_field(entry, tag, wire, rest, depth) is None {
        wire::lemma_malformed_field::<HeaderEntry>(entry, tag, wire, rest, depth);
    }
    if Request::read_field(req, tag, wire, rest, depth) is None {
        wire::lemma_malformed_field::<Request>(req, tag, wire, rest, depth);
    }
    if Response::read_field(res, tag, wire, rest, depth) is None {
        wire::lemma_malformed_field::<Response>(res, tag, wire, rest, depth);
    }
}

/// The bytes of a header, a request and a response are their fields, in the order of their tags.
pub proof fn law_bytes_are_the_fields(
    entry: (Seq<char>, Seq<char>),
    req: RequestModel,
    res: ResponseModel,
)
    ensures
        HeaderEntry::bytes_of(entry) == wire::implicit_string(1, entry.0) + wire::implicit_string(
            2,
            entry.1,
        ),
        Request::bytes_of(req) == wire::implicit_bytes(1, req.request_id) + wire::implicit_string(
            2,
            req.path,
        ) + wire::implicit_string(3, req.method) + wire::optional_string(4, req.querystring)
            + headers_field(5, req.headers) + wire::optional_bytes(6, req.payload)
            + wire::implicit_uint32(7, req.port),
        Response::bytes_of(res) == wire::implicit_bytes(1, res.request_id) + wire::implicit_uint32(
            2,
            res.status_code,
        ) + headers_field(3, res.headers) + wire::optional_bytes(4, res.payload),
{
    lemma_join(
        Seq::empty(),
        wire::implicit_bytes(1, req.request_id),
        wire::implicit_string(2, req.path),
        wire::implicit_string(3, req.method),
        wire::optional_string(4, req.querystring),
        headers_field(5, req.headers),
        wire::optional_bytes(6, req.payload),
        wire::implicit_uint32(7, req.port),
    );
    assert(Seq::empty() + wire::implicit_bytes(1, req.request_id) =~= wire::implicit_bytes(
        1,
        req.request_id,
    ));
    assert(Seq::empty() + Request::bytes_of(req) =~= Request::bytes_of(req));
    assert(Response::bytes_of(res) =~= wire::implicit_bytes(1, res.request_id)
        + wire::implicit_uint32(2, res.status_code) + headers_field(3, res.headers)
        + wire::optional_bytes(4, res.payload));
}

/// Every header is a field of its own, in their order.
pub proof fn law_headers_are_fields(
    tag: nat,
    headers: Seq<(Seq<char>, Seq<char>)>,
    header: (Seq<char>, Seq<char>),
)
    ensures
        headers_field(tag, Seq::empty()).len() == 0,
        headers_field(tag, seq![header] + headers) == wire::bytes_field(
            tag,
            HeaderEntry::bytes_of(header),
        ) + headers_field(tag, headers),
{
    let more = seq![header] + headers;
    assert(more[0] == header);
    lemma_headers_field_shifted(tag, headers, more, 0);
}

/// Headers stand on the wire as they do behind another one.
proof fn lemma_headers_field_shifted(
    tag: nat,
    headers: Seq<(Seq<char>, Seq<char>)>,
    more: Seq<(Seq<char>, Seq<char>)>,
    i: int,
)
    requires
        0 <= i <= headers.len(),
        more.len() == headers.len() + 1,
        forall|j: int| 0 <= j < headers.len() ==> #[trigger] headers[j] == more[j + 1],
    ensures
        headers_field_from(tag, more, i + 1) == headers_field_from(tag, headers, i),
    decreases headers.len() - i,
{
    if i < headers.len() {
        assert(headers[i] == more[i + 1]);
        lemma_headers_field_shifted(tag, headers, more, i + 1);
    }
}

/// A header, a request and a response view as their members.
pub proof fn law_views(entry: HeaderEntry, req: Request, res: Response)
    ensures
        entry@.0 == entry.name@ && entry@.1 == entry.value@,
        req@.request_id == req.request_id@ && req@.path == req.path@ && req@.method == req.method@,
        req@.querystring == wire::string_option(req.querystring),
        req@.headers == req.headers@ && req@.port == req.port,
        req@.payload == wire::bytes_option(req.payload),
        res@.request_id == res.request_id@ && res@.status_code == res.status_code,
        res@.headers == res.headers@ && res@.payload == wire::bytes_option(res.payload),
        Message::Request(req)@ == MessageModel::Request(req@),
        Message::Response(res)@ == MessageModel::Response(res@),
{
}

} // verus!
