//! The Protobuf wire format: what a field looks like as bytes, how a message is read from bytes,
//! and the calls into `prost` that write and read single fields.

use prost::DecodeError;
use vstd::prelude::*;
use vstd::utf8::*;

verus! {

/// The error `prost` reports for malformed bytes.
#[verifier::external_type_specification]
#[verifier::external_body]
pub struct ExDecodeError(DecodeError);

/// How the value of a field is laid out after its key.
#[derive(Clone, Copy, Debug, PartialEq, Eq, Structural)]
pub enum WireType {
    Varint,
    SixtyFourBit,
    LengthDelimited,
    StartGroup,
    EndGroup,
    ThirtyTwoBit,
}

/// The largest tag that a key can carry.
pub const MAX_TAG: u32 = 536870911;

/// How deep messages and groups may nest.
pub const MAX_DEPTH: u32 = 100;

/// The number of a wire type in a key.
pub open spec fn wire_number(wire: WireType) -> nat {
    match wire {
        WireType::Varint => 0,
        WireType::SixtyFourBit => 1,
        WireType::LengthDelimited => 2,
        WireType::StartGroup => 3,
        WireType::EndGroup => 4,
        WireType::ThirtyTwoBit => 5,
    }
}

/// The wire type that has a given number, if there is one.
pub open spec fn wire_of_number(n: nat) -> Option<WireType> {
    if n == 0 {
        Some(WireType::Varint)
    } else if n == 1 {
        Some(WireType::SixtyFourBit)
    } else if n == 2 {
        Some(WireType::LengthDelimited)
    } else if n == 3 {
        Some(WireType::StartGroup)
    } else if n == 4 {
        Some(WireType::EndGroup)
    } else if n == 5 {
        Some(WireType::ThirtyTwoBit)
    } else {
        None
    }
}

/// A number in groups of seven bits, the lowest first; every byte but the last has its top bit set.
pub open spec fn varint(n: nat) -> Seq<u8>
    decreases n,
{
    if n < 128 {
        seq![n as u8]
    } else {
        seq![(128 + n % 128) as u8] + varint(n / 128)
    }
}

/// The key of a field.
pub open spec fn key(tag: nat, wire: WireType) -> Seq<u8> {
    varint(tag * 8 + wire_number(wire))
}

/// A field that holds a number.
pub open spec fn uint32_field(tag: nat, value: u32) -> Seq<u8> {
    key(tag, WireType::Varint) + varint(value as nat)
}

/// A field that holds a run of bytes.
pub open spec fn bytes_field(tag: nat, value: Seq<u8>) -> Seq<u8> {
    key(tag, WireType::LengthDelimited) + (varint(value.len()) + value)
}

/// A field that holds text.
pub open spec fn string_field(tag: nat, value: Seq<char>) -> Seq<u8> {
    bytes_field(tag, encode_utf8(value))
}

/// The number at the front of `s`, of which `k` bytes were read before, and what follows it.
/// A number has at most ten bytes and fits in 64 bits.
pub open spec fn read_varint_from(s: Seq<u8>, k: nat) -> Option<(nat, Seq<u8>)>
    decreases 10 - k,
{
    if k >= 10 || s.len() == 0 {
        None
    } else if s[0] < 128 {
        if k == 9 && s[0] >= 2 {
            None
        } else {
            Some((s[0] as nat, s.skip(1)))
        }
    } else {
        match read_varint_from(s.skip(1), k + 1) {
            Some((high, rest)) => Some(((s[0] - 128) as nat + 128 * high, rest)),
            None => None,
        }
    }
}

/// The number at the front of `s`, and what follows it.
pub open spec fn read_varint(s: Seq<u8>) -> Option<(nat, Seq<u8>)> {
    read_varint_from(s, 0)
}

/// The tag and the wire type at the front of `s`, and what follows them.
pub open spec fn read_key(s: Seq<u8>) -> Option<(nat, WireType, Seq<u8>)> {
    match read_varint(s) {
        Some((n, rest)) => match wire_of_number(n % 8) {
            Some(wire) => if 8 <= n <= u32::MAX {
                Some((n / 8, wire, rest))
            } else {
                None
            },
            None => None,
        },
        None => None,
    }
}

/// The number in a field of the given wire type, and what follows it. Higher bits than 32 are
/// dropped.
pub open spec fn read_uint32(wire: WireType, s: Seq<u8>) -> Option<(u32, Seq<u8>)> {
    if wire == WireType::Varint {
        match read_varint(s) {
            Some((n, rest)) => Some(((n % 0x1_0000_0000) as u32, rest)),
            None => None,
        }
    } else {
        None
    }
}

/// The run of bytes in a field of the given wire type, and what follows it.
pub open spec fn read_bytes(wire: WireType, s: Seq<u8>) -> Option<(Seq<u8>, Seq<u8>)> {
    if wire == WireType::LengthDelimited {
        match read_varint(s) {
            Some((n, rest)) => if n <= rest.len() {
                Some((rest.take(n as int), rest.skip(n as int)))
            } else {
                None
            },
            None => None,
        }
    } else {
        None
    }
}

/// The text in a field of the given wire type, and what follows it.
pub open spec fn read_string(wire: WireType, s: Seq<u8>) -> Option<(Seq<char>, Seq<u8>)> {
    match read_bytes(wire, s) {
        Some((body, rest)) => if valid_utf8(body) {
            Some((decode_utf8(body), rest))
        } else {
            None
        },
        None => None,
    }
}

/// What follows the value of an unknown field, where values may still nest `depth` deep.
pub open spec fn skipped(tag: u32, wire: WireType, s: Seq<u8>, depth: u32) -> Option<Seq<u8>>
    decreases depth, s.len(), 0nat,
{
    if depth == 0 {
        None
    } else if wire == WireType::StartGroup {
        group_rest(tag, s, (depth - 1) as u32)
    } else {
        single_rest(wire, s)
    }
}

/// What follows the value of a field that is not a group.
pub open spec fn single_rest(wire: WireType, s: Seq<u8>) -> Option<Seq<u8>> {
    match wire {
        WireType::Varint => match read_varint(s) {
            Some((_, rest)) => Some(rest),
            None => None,
        },
        WireType::SixtyFourBit => if s.len() >= 8 {
            Some(s.skip(8))
        } else {
            None
        },
        WireType::ThirtyTwoBit => if s.len() >= 4 {
            Some(s.skip(4))
        } else {
            None
        },
        WireType::LengthDelimited => match read_bytes(wire, s) {
            Some((_, rest)) => Some(rest),
            None => None,
        },
        _ => None,
    }
}

/// What follows a group, given the bytes after the group's opening key: fields, which may nest
/// `depth` deep, up to a closing key with the same tag.
pub open spec fn group_rest(tag: u32, s: Seq<u8>, depth: u32) -> Option<Seq<u8>>
    decreases depth, s.len(), 1nat,
{
    match read_key(s) {
        Some((inner, wire, after_key)) => if wire == WireType::EndGroup {
            if inner == tag {
                Some(after_key)
            } else {
                None
            }
        } else if after_key.len() < s.len() {
            match skipped(inner as u32, wire, after_key, depth) {
                Some(rest) => if rest.len() < s.len() {
                    group_rest(tag, rest, depth)
                } else {
                    None
                },
                None => None,
            }
        } else {
            None
        },
        None => None,
    }
}

/// Calls `prost::encoding::uint32::encode`, which appends the key and the number to `buf`.
#[verifier::external_body]
pub(crate) fn encode_uint32(tag: u32, value: u32, buf: &mut Vec<u8>)
    requires
        1 <= tag <= MAX_TAG,
    ensures
        final(buf)@ == old(buf)@ + uint32_field(tag as nat, value),
{
    prost::encoding::uint32::encode(tag, &value, buf)
}

/// Calls `prost::encoding::bytes::encode`, which appends the key, the length and the bytes to
/// `buf`.
#[verifier::external_body]
pub(crate) fn encode_bytes(tag: u32, value: &Vec<u8>, buf: &mut Vec<u8>)
    requires
        1 <= tag <= MAX_TAG,
    ensures
        final(buf)@ == old(buf)@ + bytes_field(tag as nat, value@),
{
    prost::encoding::bytes::encode(tag, value, buf)
}

/// Calls `prost::encoding::string::encode`, which appends the key, the length of the text in UTF-8
/// and its bytes to `buf`.
#[verifier::external_body]
pub(crate) fn encode_string(tag: u32, value: &String, buf: &mut Vec<u8>)
    requires
        1 <= tag <= MAX_TAG,
    ensures
        final(buf)@ == old(buf)@ + string_field(tag as nat, value@),
{
    prost::encoding::string::encode(tag, value, buf)
}

/// Calls `prost::encoding::decode_key`, which reads a number of at most 32 bits, takes its three
/// lowest bits for a wire type and the others for a tag, and fails on an unknown wire type and on
/// tag zero. Hands back the bytes it did not read.
#[verifier::external_body]
pub(crate) fn decode_key<'a>(buf: &'a [u8]) -> (r: Result<(u32, WireType, &'a [u8]), DecodeError>)
    ensures
        match r {
            Ok((tag, wire, rest)) => read_key(buf@) == Some((tag as nat, wire, rest@)),
            Err(_) => read_key(buf@) is None,
        },
{
    let mut rest = buf;
    let (tag, wire) = prost::encoding::decode_key(&mut rest)?;
    let wire = match wire {
        prost::encoding::WireType::Varint => WireType::Varint,
        prost::encoding::WireType::SixtyFourBit => WireType::SixtyFourBit,
        prost::encoding::WireType::LengthDelimited => WireType::LengthDelimited,
        prost::encoding::WireType::StartGroup => WireType::StartGroup,
        prost::encoding::WireType::EndGroup => WireType::EndGroup,
        prost::encoding::WireType::ThirtyTwoBit => WireType::ThirtyTwoBit,
    };
    Ok((tag, wire, rest))
}

/// Calls `prost::encoding::uint32::merge`, which demands a varint and keeps its lowest 32 bits.
/// Hands back the number and the bytes that were not read.
#[verifier::external_body]
pub(crate) fn decode_uint32<'a>(wire: WireType, buf: &'a [u8]) -> (r: Result<
    (u32, &'a [u8]),
    DecodeError,
>)
    ensures
        match r {
            Ok((value, rest)) => read_uint32(wire, buf@) == Some((value, rest@)),
            Err(_) => read_uint32(wire, buf@) is None,
        },
{
    let mut rest = buf;
    let mut value = 0u32;
    prost::encoding::uint32::merge((wire as u64).try_into()?, &mut value, &mut rest, Default::default())?;
    Ok((value, rest))
}

/// Calls `prost::encoding::bytes::merge`, which demands a length and that many bytes. Hands back
/// those bytes and the ones that were not read.
#[verifier::external_body]
pub(crate) fn decode_bytes<'a>(wire: WireType, buf: &'a [u8]) -> (r: Result<
    (Vec<u8>, &'a [u8]),
    DecodeError,
>)
    ensures
        match r {
            Ok((value, rest)) => read_bytes(wire, buf@) == Some((value@, rest@)),
            Err(_) => read_bytes(wire, buf@) is None,
        },
{
    let mut rest = buf;
    let mut value: Vec<u8> = Vec::new();
    prost::encoding::bytes::merge((wire as u64).try_into()?, &mut value, &mut rest, Default::default())?;
    Ok((value, rest))
}

/// Calls `prost::encoding::string::merge`, which demands a length and that many bytes of UTF-8.
/// Hands back the text and the bytes that were not read.
#[verifier::external_body]
pub(crate) fn decode_string<'a>(wire: WireType, buf: &'a [u8]) -> (r: Result<
    (String, &'a [u8]),
    DecodeError,
>)
    ensures
        match r {
            Ok((value, rest)) => read_string(wire, buf@) == Some((value@, rest@)),
            Err(_) => read_string(wire, buf@) is None,
        },
{
    let mut rest = buf;
    let mut value = String::new();
    prost::encoding::string::merge((wire as u64).try_into()?, &mut value, &mut rest, Default::default())?;
    Ok((value, rest))
}

/// Calls `prost::encoding::skip_field` on a field that is not a group, which steps over its value: a
/// number, four or eight bytes, or a length and that many bytes. It fails on a closing key. Hands
/// back the bytes that were not read, which are never more than there were.
#[verifier::external_body]
fn skip_single<'a>(tag: u32, wire: WireType, buf: &'a [u8]) -> (r: Result<&'a [u8], DecodeError>)
    requires
        wire != WireType::StartGroup,
    ensures
        match r {
            Ok(rest) => rest@.len() <= buf@.len() && single_rest(wire, buf@) == Some(rest@),
            Err(_) => single_rest(wire, buf@) is None,
        },
{
    let mut rest = buf;
    prost::encoding::skip_field((wire as u64).try_into()?, tag, &mut rest, Default::default())?;
    Ok(rest)
}

/// Calls `DecodeError::new`, which makes an error with that description. Nothing is said of it.
#[verifier::external_body]
fn malformed(description: &'static str) -> DecodeError {
    DecodeError::new(description)
}

/// Steps over the value of an unknown field, where values may still nest `depth` deep.
pub(crate) fn skip_field<'a>(tag: u32, wire: WireType, buf: &'a [u8], depth: u32) -> (r: Result<
    &'a [u8],
    DecodeError,
>)
    ensures
        match r {
            Ok(rest) => rest@.len() <= buf@.len() && skipped(tag, wire, buf@, depth) == Some(rest@),
            Err(_) => skipped(tag, wire, buf@, depth) is None,
        },
    decreases depth,
{
    if depth == 0 {
        return Err(malformed("recursion limit reached"));
    }
    if wire != WireType::StartGroup {
        return skip_single(tag, wire, buf);
    }
    let mut rest: &[u8] = buf;
    loop
        invariant
            depth > 0,
            rest@.len() <= buf@.len(),
            group_rest(tag, buf@, (depth - 1) as u32) == group_rest(tag, rest@, (depth - 1) as u32),
            skipped(tag, wire, buf@, depth) == group_rest(tag, buf@, (depth - 1) as u32),
        decreases rest@.len(),
    {
        proof {
            lemma_read_key_shorter(rest@);
        }
        let (inner, inner_wire, after_key) = decode_key(rest)?;
        if inner_wire == WireType::EndGroup {
            if inner != tag {
                return Err(malformed("unexpected end group tag"));
            }
            return Ok(after_key);
        }
        rest = skip_field(inner, inner_wire, after_key, depth - 1)?;
    }
}

/// A number that is written unless it is zero.
pub open spec fn implicit_uint32(tag: nat, value: u32) -> Seq<u8> {
    if value == 0 {
        Seq::empty()
    } else {
        uint32_field(tag, value)
    }
}

/// A run of bytes that is written unless it is empty.
pub open spec fn implicit_bytes(tag: nat, value: Seq<u8>) -> Seq<u8> {
    if value.len() == 0 {
        Seq::empty()
    } else {
        bytes_field(tag, value)
    }
}

/// A text that is written unless it is empty.
pub open spec fn implicit_string(tag: nat, value: Seq<char>) -> Seq<u8> {
    if value.len() == 0 {
        Seq::empty()
    } else {
        string_field(tag, value)
    }
}

/// A run of bytes that is written where it is there, also if it is empty.
pub open spec fn optional_bytes(tag: nat, value: Option<Seq<u8>>) -> Seq<u8> {
    match value {
        Some(v) => bytes_field(tag, v),
        None => Seq::empty(),
    }
}

/// A text that is written where it is there, also if it is empty.
pub open spec fn optional_string(tag: nat, value: Option<Seq<char>>) -> Seq<u8> {
    match value {
        Some(v) => string_field(tag, v),
        None => Seq::empty(),
    }
}

/// What an optional text views.
pub open spec fn string_option(value: Option<String>) -> Option<Seq<char>> {
    match value {
        Some(v) => Some(v@),
        None => None,
    }
}

/// What an optional run of bytes views.
pub open spec fn bytes_option(value: Option<Vec<u8>>) -> Option<Seq<u8>> {
    match value {
        Some(v) => Some(v@),
        None => None,
    }
}

/// Appends a number unless it is zero.
pub(crate) fn put_uint32(tag: u32, value: u32, buf: &mut Vec<u8>)
    requires
        1 <= tag <= MAX_TAG,
    ensures
        final(buf)@ == old(buf)@ + implicit_uint32(tag as nat, value),
{
    if value != 0 {
        encode_uint32(tag, value, buf);
    }
}

/// Appends a run of bytes unless it is empty.
pub(crate) fn put_bytes(tag: u32, value: &Vec<u8>, buf: &mut Vec<u8>)
    requires
        1 <= tag <= MAX_TAG,
    ensures
        final(buf)@ == old(buf)@ + implicit_bytes(tag as nat, value@),
{
    if value.len() > 0 {
        encode_bytes(tag, value, buf);
    }
}

/// Appends a text unless it is empty.
pub(crate) fn put_string(tag: u32, value: &String, buf: &mut Vec<u8>)
    requires
        1 <= tag <= MAX_TAG,
    ensures
        final(buf)@ == old(buf)@ + implicit_string(tag as nat, value@),
{
    if !value.as_str().is_empty() {
        encode_string(tag, value, buf);
    }
}

/// Appends a run of bytes where it is there.
pub(crate) fn put_optional_bytes(tag: u32, value: &Option<Vec<u8>>, buf: &mut Vec<u8>)
    requires
        1 <= tag <= MAX_TAG,
    ensures
        final(buf)@ == old(buf)@ + optional_bytes(tag as nat, bytes_option(*value)),
{
    if let Some(v) = value {
        encode_bytes(tag, v, buf);
    }
}

/// Appends a text where it is there.
pub(crate) fn put_optional_string(tag: u32, value: &Option<String>, buf: &mut Vec<u8>)
    requires
        1 <= tag <= MAX_TAG,
    ensures
        final(buf)@ == old(buf)@ + optional_string(tag as nat, string_option(*value)),
{
    if let Some(v) = value {
        encode_string(tag, v, buf);
    }
}

/// A message that is written as a run of fields and read back from one.
pub trait WireMessage: View + Sized {
    /// The message before any field was read.
    spec fn initial() -> Self::V;

    /// The message after one more field, given the bytes after the field's key, and what follows
    /// the field. `None` where the field is malformed, or nests more than `depth` deep.
    spec fn read_field(
        m: Self::V,
        tag: u32,
        wire: WireType,
        s: Seq<u8>,
        depth: u32,
    ) -> Option<(Self::V, Seq<u8>)>;

    /// The bytes of a message.
    spec fn bytes_of(m: Self::V) -> Seq<u8>;

    /// The message before any field was read.
    fn empty() -> (r: Self)
        ensures
            r@ == Self::initial(),
    ;

    /// Reads the value of one field, which may nest `depth` deep.
    fn merge_field<'a>(self, tag: u32, wire: WireType, buf: &'a [u8], depth: u32) -> (r: Result<
        (Self, &'a [u8]),
        DecodeError,
    >)
        ensures
            match r {
                Ok((m, rest)) => rest@.len() <= buf@.len() && Self::read_field(
                    self@,
                    tag,
                    wire,
                    buf@,
                    depth,
                ) == Some((m@, rest@)),
                Err(_) => Self::read_field(self@, tag, wire, buf@, depth) is None,
            },
    ;

    /// Appends the bytes of the message to `buf`.
    fn encode_raw(&self, buf: &mut Vec<u8>)
        ensures
            final(buf)@ == old(buf)@ + Self::bytes_of(self@),
    ;
}

/// The message after all fields of `s`, which may nest `depth` deep. `None` where a field is
/// malformed.
pub open spec fn read_fields<M: WireMessage>(m: M::V, s: Seq<u8>, depth: u32) -> Option<M::V>
    decreases s.len(),
{
    if s.len() == 0 {
        Some(m)
    } else {
        match read_key(s) {
            Some((tag, wire, after_key)) => match M::read_field(
                m,
                tag as u32,
                wire,
                after_key,
                depth,
            ) {
                Some((next, rest)) => if rest.len() < s.len() {
                    read_fields::<M>(next, rest, depth)
                } else {
                    None
                },
                None => None,
            },
            None => None,
        }
    }
}

/// The message that `s` holds.
pub open spec fn read_message<M: WireMessage>(s: Seq<u8>) -> Option<M::V> {
    read_fields::<M>(M::initial(), s, MAX_DEPTH)
}

/// A field that holds a message, read into `m`. The message takes one of the levels that are left.
pub open spec fn read_nested<M: WireMessage>(
    m: M::V,
    wire: WireType,
    s: Seq<u8>,
    depth: u32,
) -> Option<(M::V, Seq<u8>)> {
    if depth == 0 {
        None
    } else {
        match read_bytes(wire, s) {
            Some((body, rest)) => match read_fields::<M>(m, body, (depth - 1) as u32) {
                Some(next) => Some((next, rest)),
                None => None,
            },
            None => None,
        }
    }
}

/// Reads all fields of `buf` into `m`, which may nest `depth` deep.
fn merge_fields<M: WireMessage>(m: M, buf: &[u8], depth: u32) -> (r: Result<M, DecodeError>)
    ensures
        match r {
            Ok(next) => read_fields::<M>(m@, buf@, depth) == Some(next@),
            Err(_) => read_fields::<M>(m@, buf@, depth) is None,
        },
{
    let mut current: M = m;
    let mut rest: &[u8] = buf;
    while rest.len() > 0
        invariant
            read_fields::<M>(m@, buf@, depth) == read_fields::<M>(current@, rest@, depth),
        decreases rest@.len(),
    {
        proof {
            lemma_read_key_shorter(rest@);
        }
        let (tag, wire, after_key) = decode_key(rest)?;
        let (next, after_field) = current.merge_field(tag, wire, after_key, depth)?;
        current = next;
        rest = after_field;
    }
    Ok(current)
}

/// Reads all fields of `buf` into `m`.
pub fn merge<M: WireMessage>(m: M, buf: &[u8]) -> (r: Result<M, DecodeError>)
    ensures
        match r {
            Ok(next) => read_fields::<M>(m@, buf@, MAX_DEPTH) == Some(next@),
            Err(_) => read_fields::<M>(m@, buf@, MAX_DEPTH) is None,
        },
{
    merge_fields(m, buf, MAX_DEPTH)
}

/// Reads a message from the whole of `buf`.
pub fn decode<M: WireMessage>(buf: &[u8]) -> (r: Result<M, DecodeError>)
    ensures
        match r {
            Ok(m) => read_message::<M>(buf@) == Some(m@),
            Err(_) => read_message::<M>(buf@) is None,
        },
{
    merge(M::empty(), buf)
}

/// The bytes of a message in a buffer of their own.
pub fn encode_to_vec<M: WireMessage>(m: &M) -> (r: Vec<u8>)
    ensures
        r@ == M::bytes_of(m@),
{
    let mut buf: Vec<u8> = Vec::new();
    m.encode_raw(&mut buf);
    buf
}

/// Reads a field that holds a message into `m`, where the field may nest `depth` deep.
pub(crate) fn decode_nested<'a, M: WireMessage>(
    m: M,
    wire: WireType,
    buf: &'a [u8],
    depth: u32,
) -> (r: Result<(M, &'a [u8]), DecodeError>)
    ensures
        match r {
            Ok((next, rest)) => rest@.len() <= buf@.len() && read_nested::<M>(
                m@,
                wire,
                buf@,
                depth,
            ) == Some((next@, rest@)),
            Err(_) => read_nested::<M>(m@, wire, buf@, depth) is None,
        },
{
    proof {
        lemma_read_value_shorter(wire, buf@);
    }
    if depth == 0 {
        return Err(malformed("recursion limit reached"));
    }
    let (body, rest) = decode_bytes(wire, buf)?;
    let next = merge_fields(m, body.as_slice(), depth - 1)?;
    Ok((next, rest))
}

/// Appends a field that holds a message to `buf`.
pub(crate) fn encode_nested<M: WireMessage>(tag: u32, m: &M, buf: &mut Vec<u8>)
    requires
        1 <= tag <= MAX_TAG,
    ensures
        final(buf)@ == old(buf)@ + bytes_field(tag as nat, M::bytes_of(m@)),
{
    let body = encode_to_vec(m);
    encode_bytes(tag, &body, buf);
}

/// Reading a number leaves fewer bytes.
pub proof fn lemma_read_varint_shorter(s: Seq<u8>, k: nat)
    ensures
        read_varint_from(s, k) matches Some((_, rest)) ==> rest.len() < s.len(),
    decreases 10 - k,
{
    if k < 10 && s.len() > 0 && s[0] >= 128 {
        lemma_read_varint_shorter(s.skip(1), k + 1);
    }
}

/// Reading a key leaves fewer bytes.
pub proof fn lemma_read_key_shorter(s: Seq<u8>)
    ensures
        read_key(s) matches Some((_, _, rest)) ==> rest.len() < s.len(),
{
    lemma_read_varint_shorter(s, 0);
}

/// Reading the value of a field leaves fewer bytes.
pub proof fn lemma_read_value_shorter(wire: WireType, s: Seq<u8>)
    ensures
        read_uint32(wire, s) matches Some((_, rest)) ==> rest.len() < s.len(),
        read_bytes(wire, s) matches Some((_, rest)) ==> rest.len() < s.len(),
        read_string(wire, s) matches Some((_, rest)) ==> rest.len() < s.len(),
{
    lemma_read_varint_shorter(s, 0);
}

/// The numbers that fit in what is left of 64 bits after `k` bytes.
pub open spec fn varint_limit(k: nat) -> nat
    decreases 10 - k,
{
    if k >= 9 {
        2
    } else {
        128 * varint_limit(k + 1)
    }
}

/// A number is read back as it was written.
pub proof fn lemma_varint_round_trip_from(n: nat, k: nat, rest: Seq<u8>)
    requires
        k < 10,
        n < varint_limit(k),
    ensures
        read_varint_from(varint(n) + rest, k) == Some((n, rest)),
    decreases n,
{
    let s = varint(n) + rest;
    if n < 128 {
        assert(s.skip(1) =~= rest);
    } else {
        assert(s.skip(1) =~= varint(n / 128) + rest);
        lemma_varint_round_trip_from(n / 128, k + 1, rest);
    }
}

/// Every number of 64 bits is read back as it was written, whatever follows it.
pub proof fn law_varint_round_trip(n: u64, rest: Seq<u8>)
    ensures
        read_varint(varint(n as nat) + rest) == Some((n as nat, rest)),
{
    assert(varint_limit(0) == 0x1_0000_0000_0000_0000) by {
        reveal_with_fuel(varint_limit, 10);
    }
    lemma_varint_round_trip_from(n as nat, 0, rest);
}

/// Every key is read back as it was written, whatever follows it.
pub proof fn law_key_round_trip(tag: u32, wire: WireType, rest: Seq<u8>)
    requires
        1 <= tag <= MAX_TAG,
    ensures
        read_key(key(tag as nat, wire) + rest) == Some((tag as nat, wire, rest)),
{
    let n: u64 = (tag * 8 + wire_number(wire)) as u64;
    law_varint_round_trip(n, rest);
    assert(n / 8 == tag && n % 8 == wire_number(wire));
}

/// A run of bytes is read back as it was written, whatever follows it.
pub proof fn law_bytes_round_trip(value: Seq<u8>, rest: Seq<u8>)
    requires
        value.len() <= u64::MAX,
    ensures
        read_bytes(WireType::LengthDelimited, varint(value.len()) + value + rest) == Some(
            (value, rest),
        ),
{
    law_varint_round_trip(value.len() as u64, value + rest);
    assert(varint(value.len()) + value + rest =~= varint(value.len()) + (value + rest));
    assert((value + rest).take(value.len() as int) =~= value);
    assert((value + rest).skip(value.len() as int) =~= rest);
}

/// A text is read back as it was written, whatever follows it.
pub proof fn law_string_round_trip(value: Seq<char>, rest: Seq<u8>)
    requires
        encode_utf8(value).len() <= u64::MAX,
    ensures
        read_string(
            WireType::LengthDelimited,
            varint(encode_utf8(value).len()) + encode_utf8(value) + rest,
        ) == Some((value, rest)),
{
    law_bytes_round_trip(encode_utf8(value), rest);
    encode_utf8_valid_utf8(value);
    encode_utf8_decode_utf8(value);
}

/// A number is read back as it was written, whatever follows it.
pub proof fn law_uint32_round_trip(value: u32, rest: Seq<u8>)
    ensures
        read_uint32(WireType::Varint, varint(value as nat) + rest) == Some((value, rest)),
{
    law_varint_round_trip(value as u64, rest);
}

/// A field at the front is read first, and then the rest.
pub proof fn lemma_field_then_rest<M: WireMessage>(
    m: M::V,
    tag: u32,
    wire: WireType,
    value: Seq<u8>,
    next: M::V,
    rest: Seq<u8>,
    depth: u32,
)
    requires
        1 <= tag <= MAX_TAG,
        M::read_field(m, tag, wire, value + rest, depth) == Some((next, rest)),
    ensures
        read_fields::<M>(m, key(tag as nat, wire) + value + rest, depth) == read_fields::<M>(next, rest, depth),
{
    let s = key(tag as nat, wire) + value + rest;
    assert(s =~= key(tag as nat, wire) + (value + rest));
    law_key_round_trip(tag, wire, value + rest);
    lemma_read_key_shorter(s);
}

/// Nothing is read where the field at the front is malformed.
pub proof fn lemma_malformed_field<M: WireMessage>(
    m: M::V,
    tag: u32,
    wire: WireType,
    rest: Seq<u8>,
    depth: u32,
)
    requires
        1 <= tag <= MAX_TAG,
        M::read_field(m, tag, wire, rest, depth) is None,
    ensures
        read_fields::<M>(m, key(tag as nat, wire) + rest, depth) is None,
{
    law_key_round_trip(tag, wire, rest);
    lemma_read_key_shorter(key(tag as nat, wire) + rest);
}

/// A number at the front is read first, and then the rest.
pub proof fn lemma_uint32_then_rest<M: WireMessage>(
    m: M::V,
    tag: u32,
    value: u32,
    next: M::V,
    rest: Seq<u8>,
    depth: u32,
)
    requires
        1 <= tag <= MAX_TAG,
        read_uint32(WireType::Varint, varint(value as nat) + rest) == Some((value, rest)) ==> M::read_field(
            m,
            tag,
            WireType::Varint,
            varint(value as nat) + rest,
            depth,
        ) == Some((next, rest)),
    ensures
        read_fields::<M>(m, uint32_field(tag as nat, value) + rest, depth) == read_fields::<M>(next, rest, depth),
{
    law_uint32_round_trip(value, rest);
    lemma_field_then_rest::<M>(m, tag, WireType::Varint, varint(value as nat), next, rest, depth);
}

/// A run of bytes at the front is read first, and then the rest.
pub proof fn lemma_bytes_then_rest<M: WireMessage>(
    m: M::V,
    tag: u32,
    value: Seq<u8>,
    next: M::V,
    rest: Seq<u8>,
    depth: u32,
)
    requires
        1 <= tag <= MAX_TAG,
        value.len() <= u64::MAX,
        read_bytes(WireType::LengthDelimited, (varint(value.len()) + value) + rest) == Some((value, rest)) ==> M::read_field(
            m,
            tag,
            WireType::LengthDelimited,
            (varint(value.len()) + value) + rest,
            depth,
        ) == Some((next, rest)),
    ensures
        read_fields::<M>(m, bytes_field(tag as nat, value) + rest, depth) == read_fields::<M>(next, rest, depth),
{
    law_bytes_round_trip(value, rest);
    lemma_field_then_rest::<M>(m, tag, WireType::LengthDelimited, (varint(value.len()) + value), next, rest, depth);
}

/// A text at the front is read first, and then the rest.
pub proof fn lemma_string_then_rest<M: WireMessage>(
    m: M::V,
    tag: u32,
    value: Seq<char>,
    next: M::V,
    rest: Seq<u8>,
    depth: u32,
)
    requires
        1 <= tag <= MAX_TAG,
        encode_utf8(value).len() <= u64::MAX,
        read_string(WireType::LengthDelimited, (varint(encode_utf8(value).len()) + encode_utf8(value)) + rest) == Some((value, rest)) ==> M::read_field(
            m,
            tag,
            WireType::LengthDelimited,
            (varint(encode_utf8(value).len()) + encode_utf8(value)) + rest,
            depth,
        ) == Some((next, rest)),
    ensures
        read_fields::<M>(m, string_field(tag as nat, value) + rest, depth) == read_fields::<M>(next, rest, depth),
{
    law_string_round_trip(value, rest);
    lemma_field_then_rest::<M>(m, tag, WireType::LengthDelimited, (varint(encode_utf8(value).len()) + encode_utf8(value)), next, rest, depth);
}

/// A number that may have been left out, and then the rest.
pub proof fn lemma_implicit_uint32<M: WireMessage>(
    m: M::V,
    tag: u32,
    value: u32,
    next: M::V,
    rest: Seq<u8>,
    depth: u32,
)
    requires
        1 <= tag <= MAX_TAG,
        value == 0 ==> next == m,
        !(value == 0) && read_uint32(WireType::Varint, varint(value as nat) + rest) == Some((value, rest)) ==> M::read_field(
            m,
            tag,
            WireType::Varint,
            varint(value as nat) + rest,
            depth,
        ) == Some((next, rest)),
    ensures
        read_fields::<M>(m, implicit_uint32(tag as nat, value) + rest, depth) == read_fields::<M>(next, rest, depth),
{
    if value == 0 {
        assert(implicit_uint32(tag as nat, value) + rest =~= rest);
    } else {
        lemma_uint32_then_rest::<M>(m, tag, value, next, rest, depth);
    }
}

/// A run of bytes that may have been left out, and then the rest.
pub proof fn lemma_implicit_bytes<M: WireMessage>(
    m: M::V,
    tag: u32,
    value: Seq<u8>,
    next: M::V,
    rest: Seq<u8>,
    depth: u32,
)
    requires
        1 <= tag <= MAX_TAG,
        value.len() == 0 ==> next == m,
        value.len() <= u64::MAX,
        !(value.len() == 0) && read_bytes(WireType::LengthDelimited, (varint(value.len()) + value) + rest) == Some((value, rest)) ==> M::read_field(
            m,
            tag,
            WireType::LengthDelimited,
            (varint(value.len()) + value) + rest,
            depth,
        ) == Some((next, rest)),
    ensures
        read_fields::<M>(m, implicit_bytes(tag as nat, value) + rest, depth) == read_fields::<M>(next, rest, depth),
{
    if value.len() == 0 {
        assert(implicit_bytes(tag as nat, value) + rest =~= rest);
    } else {
        lemma_bytes_then_rest::<M>(m, tag, value, next, rest, depth);
    }
}

/// A text that may have been left out, and then the rest.
pub proof fn lemma_implicit_string<M: WireMessage>(
    m: M::V,
    tag: u32,
    value: Seq<char>,
    next: M::V,
    rest: Seq<u8>,
    depth: u32,
)
    requires
        1 <= tag <= MAX_TAG,
        value.len() == 0 ==> next == m,
        encode_utf8(value).len() <= u64::MAX,
        !(value.len() == 0) && read_string(WireType::LengthDelimited, (varint(encode_utf8(value).len()) + encode_utf8(value)) + rest) == Some((value, rest)) ==> M::read_field(
            m,
            tag,
            WireType::LengthDelimited,
            (varint(encode_utf8(value).len()) + encode_utf8(value)) + rest,
            depth,
        ) == Some((next, rest)),
    ensures
        read_fields::<M>(m, implicit_string(tag as nat, value) + rest, depth) == read_fields::<M>(next, rest, depth),
{
    if value.len() == 0 {
        assert(implicit_string(tag as nat, value) + rest =~= rest);
    } else {
        lemma_string_then_rest::<M>(m, tag, value, next, rest, depth);
    }
}

/// A run of bytes that may not be there, and then the rest.
pub proof fn lemma_optional_bytes<M: WireMessage>(
    m: M::V,
    tag: u32,
    value: Option<Seq<u8>>,
    next: M::V,
    rest: Seq<u8>,
    depth: u32,
)
    requires
        1 <= tag <= MAX_TAG,
        value is None ==> next == m,
        value is Some ==> (value->0).len() <= u64::MAX,
        !(value is None) && read_bytes(WireType::LengthDelimited, (varint((value->0).len()) + (value->0)) + rest) == Some((value->0, rest)) ==> M::read_field(
            m,
            tag,
            WireType::LengthDelimited,
            (varint((value->0).len()) + (value->0)) + rest,
            depth,
        ) == Some((next, rest)),
    ensures
        read_fields::<M>(m, optional_bytes(tag as nat, value) + rest, depth) == read_fields::<M>(next, rest, depth),
{
    if value is None {
        assert(optional_bytes(tag as nat, value) + rest =~= rest);
    } else {
        lemma_bytes_then_rest::<M>(m, tag, value->0, next, rest, depth);
    }
}

/// A text that may not be there, and then the rest.
pub proof fn lemma_optional_string<M: WireMessage>(
    m: M::V,
    tag: u32,
    value: Option<Seq<char>>,
    next: M::V,
    rest: Seq<u8>,
    depth: u32,
)
    requires
        1 <= tag <= MAX_TAG,
        value is None ==> next == m,
        value is Some ==> encode_utf8(value->0).len() <= u64::MAX,
        !(value is None) && read_string(WireType::LengthDelimited, (varint(encode_utf8(value->0).len()) + encode_utf8(value->0)) + rest) == Some((value->0, rest)) ==> M::read_field(
            m,
            tag,
            WireType::LengthDelimited,
            (varint(encode_utf8(value->0).len()) + encode_utf8(value->0)) + rest,
            depth,
        ) == Some((next, rest)),
    ensures
        read_fields::<M>(m, optional_string(tag as nat, value) + rest, depth) == read_fields::<M>(next, rest, depth),
{
    if value is None {
        assert(optional_string(tag as nat, value) + rest =~= rest);
    } else {
        lemma_string_then_rest::<M>(m, tag, value->0, next, rest, depth);
    }
}

/// The number that groups of seven bits stand for, the lowest first.
pub open spec fn number_in_groups(s: Seq<u8>) -> nat
    decreases s.len(),
{
    if s.len() == 0 {
        0
    } else {
        (s[0] % 128) as nat + 128 * number_in_groups(s.skip(1))
    }
}

/// A number is written as groups of seven bits that stand for it, the lowest first. Every byte but
/// the last has its top bit set, and the last is not zero where there is another.
pub proof fn law_varint(n: nat)
    ensures
        number_in_groups(varint(n)) == n,
        varint(n).len() > 0,
        forall|i: int| 0 <= i < varint(n).len() - 1 ==> #[trigger] varint(n)[i] >= 128,
        varint(n).last() < 128,
        varint(n).len() > 1 ==> varint(n).last() != 0,
    decreases n,
{
    reveal_with_fuel(number_in_groups, 2);
    if n < 128 {
        assert(varint(n).skip(1) =~= Seq::empty());
    } else {
        law_varint(n / 128);
        let rest = varint(n / 128);
        assert(varint(n).skip(1) =~= rest);
        assert(varint(n).last() == rest.last());
        assert forall|i: int| 0 <= i < varint(n).len() - 1 implies #[trigger] varint(n)[i]
            >= 128 by {
            if i > 0 {
                assert(varint(n)[i] == rest[i - 1]);
            }
        }
        if rest.len() == 1 {
            assert(rest.skip(1) =~= Seq::empty());
            assert(number_in_groups(rest) == rest[0] as nat);
        }
    }
}

/// A number is read from the bytes up to the first without a top bit, of which there are at most
/// ten, and is what their groups stand for. What follows them is left.
proof fn lemma_read_varint_from(s: Seq<u8>, k: nat, i: int)
    requires
        0 <= i < s.len(),
        k + i < 10,
        forall|j: int| 0 <= j < i ==> #[trigger] s[j] >= 128,
        s[i] < 128,
    ensures
        k + i < 9 || s[i] < 2 ==> read_varint_from(s, k) == Some(
            (number_in_groups(s.take(i + 1)), s.skip(i + 1)),
        ),
        k + i == 9 && s[i] >= 2 ==> read_varint_from(s, k) is None,
    decreases i,
{
    reveal_with_fuel(number_in_groups, 2);
    if i == 0 {
        assert(s.take(1).skip(1) =~= Seq::empty());
    } else {
        let rest = s.skip(1);
        assert(s[0] >= 128);
        assert forall|j: int| 0 <= j < i - 1 implies #[trigger] rest[j] >= 128 by {
            assert(rest[j] == s[j + 1]);
        }
        assert(rest[i - 1] == s[i]);
        lemma_read_varint_from(rest, k + 1, i - 1);
        assert(s.take(i + 1).skip(1) =~= rest.take(i));
        assert(rest.skip(i) =~= s.skip(i + 1));
    }
}

/// No number is read where none of the first bytes ends it.
proof fn lemma_read_no_varint_from(s: Seq<u8>, k: nat)
    requires
        forall|j: int| 0 <= j < s.len() && k + j < 10 ==> #[trigger] s[j] >= 128,
    ensures
        read_varint_from(s, k) is None,
    decreases 10 - k,
{
    if k < 10 && s.len() > 0 {
        let rest = s.skip(1);
        assert(s[0] >= 128);
        assert forall|j: int| 0 <= j < rest.len() && k + 1 + j < 10 implies #[trigger] rest[j]
            >= 128 by {
            assert(rest[j] == s[j + 1]);
        }
        lemma_read_no_varint_from(rest, k + 1);
    }
}

/// A number at the front is what the groups of the bytes up to the first without a top bit stand
/// for, and what follows them is left. There is none where ten bytes do not end it, or the tenth
/// holds more than one bit.
pub proof fn law_read_varint(s: Seq<u8>, i: int)
    requires
        0 <= i < s.len(),
        forall|j: int| 0 <= j < i ==> #[trigger] s[j] >= 128,
        s[i] < 128,
    ensures
        i < 9 || (i == 9 && s[i] < 2) ==> read_varint(s) == Some(
            (number_in_groups(s.take(i + 1)), s.skip(i + 1)),
        ),
        i > 9 || (i == 9 && s[i] >= 2) ==> read_varint(s) is None,
{
    if i < 10 {
        lemma_read_varint_from(s, 0, i);
    } else {
        lemma_read_no_varint_from(s, 0);
    }
}

/// No number is read from bytes that all have their top bit set.
pub proof fn law_no_varint(s: Seq<u8>)
    requires
        forall|j: int| 0 <= j < s.len() ==> #[trigger] s[j] >= 128,
    ensures
        read_varint(s) is None,
{
    lemma_read_no_varint_from(s, 0);
}

/// The number of a wire type tells it, and there are six.
pub proof fn law_wire_types(wire: WireType, n: nat)
    ensures
        match wire {
            WireType::Varint => wire_number(wire) == 0,
            WireType::SixtyFourBit => wire_number(wire) == 1,
            WireType::LengthDelimited => wire_number(wire) == 2,
            WireType::StartGroup => wire_number(wire) == 3,
            WireType::EndGroup => wire_number(wire) == 4,
            WireType::ThirtyTwoBit => wire_number(wire) == 5,
        },
        wire_of_number(wire_number(wire)) == Some(wire),
        wire_of_number(n) is Some <==> n <= 5,
{
}

/// A field is its key, in which the tag stands above the three bits of the wire type, and its value:
/// a number, or a length and that many bytes, which are those of the text where it holds text.
pub proof fn law_fields_on_the_wire(tag: nat, number: u32, bytes: Seq<u8>, text: Seq<char>)
    ensures
        uint32_field(tag, number) == varint(8 * tag) + varint(number as nat),
        bytes_field(tag, bytes) == varint(8 * tag + 2) + varint(bytes.len()) + bytes,
        string_field(tag, text) == varint(8 * tag + 2) + varint(encode_utf8(text).len())
            + encode_utf8(text),
{
    assert(bytes_field(tag, bytes) =~= varint(8 * tag + 2) + varint(bytes.len()) + bytes);
    let utf8 = encode_utf8(text);
    assert(string_field(tag, text) =~= varint(8 * tag + 2) + varint(utf8.len()) + utf8);
}

/// A key at the front is a number of 32 bits with a tag above zero and a known wire type.
pub proof fn law_read_key(s: Seq<u8>, n: nat, rest: Seq<u8>)
    requires
        read_varint(s) == Some((n, rest)),
    ensures
        read_key(s) is Some <==> 8 <= n <= 0xffff_ffff && n % 8 <= 5,
        read_key(s) matches Some((tag, wire, after)) ==> tag == n / 8 && wire_number(wire) == n % 8
            && after == rest,
{
}

/// A number is read from a varint alone, and its higher bits are dropped. Bytes are read from a
/// length alone, as many as it says, and text from bytes that are UTF-8.
pub proof fn law_read_values(wire: WireType, s: Seq<u8>, n: nat, rest: Seq<u8>)
    requires
        read_varint(s) == Some((n, rest)),
    ensures
        read_uint32(wire, s) is Some <==> wire is Varint,
        read_uint32(wire, s) matches Some((value, after)) ==> value as int == n as int % 0x1_0000_0000
            && after == rest,
        read_bytes(wire, s) is Some <==> wire is LengthDelimited && n <= rest.len(),
        read_bytes(wire, s) matches Some((body, after)) ==> body.len() == n && body + after == rest,
        read_string(wire, s) is Some <==> wire is LengthDelimited && n <= rest.len() && valid_utf8(
            rest.take(n as int),
        ),
        read_string(wire, s) matches Some((text, after)) ==> encode_utf8(text) + after == rest
            && encode_utf8(text).len() == n,
{
    if let Some((body, after)) = read_bytes(wire, s) {
        assert(body + after =~= rest);
        if valid_utf8(body) {
            decode_utf8_encode_utf8(body);
        }
    }
}

/// A field that is not known is stepped over, whatever it holds: a number, eight bytes, a length and
/// that many bytes, or four bytes. A closing key alone is no field, and nothing is stepped over once
/// no level is left.
pub proof fn law_unknown_field_is_skipped(
    tag: u32,
    wire: WireType,
    number: u64,
    bytes: Seq<u8>,
    rest: Seq<u8>,
    depth: u32,
)
    requires
        depth > 0,
        bytes.len() <= u64::MAX,
    ensures
        skipped(tag, WireType::Varint, varint(number as nat) + rest, depth) == Some(rest),
        bytes.len() == 8 ==> skipped(tag, WireType::SixtyFourBit, bytes + rest, depth) == Some(rest),
        bytes.len() == 4 ==> skipped(tag, WireType::ThirtyTwoBit, bytes + rest, depth) == Some(rest),
        skipped(tag, WireType::LengthDelimited, varint(bytes.len()) + bytes + rest, depth) == Some(
            rest,
        ),
        skipped(tag, WireType::EndGroup, rest, depth) is None,
        skipped(tag, wire, rest, 0) is None,
        rest.len() < 8 ==> skipped(tag, WireType::SixtyFourBit, rest, depth) is None,
        rest.len() < 4 ==> skipped(tag, WireType::ThirtyTwoBit, rest, depth) is None,
{
    law_varint_round_trip(number, rest);
    law_bytes_round_trip(bytes, rest);
    assert((bytes + rest).skip(bytes.len() as int) =~= rest);
}

/// A group is stepped over field by field up to its closing key, which has the tag of the group. The
/// fields in it take one of the levels that are left.
pub proof fn law_group_is_skipped(
    tag: u32,
    inner: u32,
    wire: WireType,
    value: Seq<u8>,
    rest: Seq<u8>,
    depth: u32,
)
    requires
        1 <= tag <= MAX_TAG,
        1 <= inner <= MAX_TAG,
        0 < depth,
    ensures
        skipped(tag, WireType::StartGroup, key(tag as nat, WireType::EndGroup) + rest, depth) == Some(
            rest,
        ),
        inner != tag ==> skipped(
            tag,
            WireType::StartGroup,
            key(inner as nat, WireType::EndGroup) + rest,
            depth,
        ) is None,
        wire != WireType::EndGroup && skipped(inner, wire, value + rest, (depth - 1) as u32) == Some(
            rest,
        ) ==> skipped(
            tag,
            WireType::StartGroup,
            key(inner as nat, wire) + (value + rest),
            depth,
        ) == skipped(tag, WireType::StartGroup, rest, depth),
{
    law_key_round_trip(tag, WireType::EndGroup, rest);
    law_key_round_trip(inner, WireType::EndGroup, rest);
    law_key_round_trip(inner, wire, value + rest);
    lemma_read_key_shorter(key(inner as nat, wire) + (value + rest));
}

/// What is written of a member that can be left out: nothing where it is zero, empty or missing, and
/// otherwise its field.
pub proof fn law_members_on_the_wire(
    tag: nat,
    number: u32,
    bytes: Seq<u8>,
    text: Seq<char>,
)
    ensures
        implicit_uint32(tag, 0).len() == 0,
        number != 0 ==> implicit_uint32(tag, number) == uint32_field(tag, number),
        bytes.len() == 0 ==> implicit_bytes(tag, bytes).len() == 0,
        bytes.len() > 0 ==> implicit_bytes(tag, bytes) == bytes_field(tag, bytes),
        text.len() == 0 ==> implicit_string(tag, text).len() == 0,
        text.len() > 0 ==> implicit_string(tag, text) == string_field(tag, text),
        optional_bytes(tag, None).len() == 0,
        optional_bytes(tag, Some(bytes)) == bytes_field(tag, bytes),
        optional_string(tag, None).len() == 0,
        optional_string(tag, Some(text)) == string_field(tag, text),
{
}

/// A message is read field by field from the whole of the bytes, with a hundred levels to nest in.
/// A field that holds a message takes one of them, and is refused where none is left.
pub proof fn law_read_message<M: WireMessage>(
    m: M::V,
    s: Seq<u8>,
    body: Seq<u8>,
    rest: Seq<u8>,
    depth: u32,
)
    requires
        body.len() <= u64::MAX,
    ensures
        read_message::<M>(s) == read_fields::<M>(M::initial(), s, 100),
        read_fields::<M>(m, Seq::empty(), depth) == Some(m),
        s.len() > 0 && read_key(s) is None ==> read_fields::<M>(m, s, depth) is None,
        read_nested::<M>(m, WireType::LengthDelimited, s, 0) is None,
        depth > 0 ==> read_nested::<M>(
            m,
            WireType::LengthDelimited,
            varint(body.len()) + body + rest,
            depth,
        ) == match read_fields::<M>(m, body, (depth - 1) as u32) {
            Some(next) => Some((next, rest)),
            None => None,
        },
{
    law_bytes_round_trip(body, rest);
}

/// A message in a field is read from a length and that many bytes alone.
pub proof fn law_nested_message_is_delimited<M: WireMessage>(
    m: M::V,
    wire: WireType,
    s: Seq<u8>,
    depth: u32,
)
    ensures
        wire != WireType::LengthDelimited ==> read_nested::<M>(m, wire, s, depth) is None,
        read_bytes(wire, s) is None ==> read_nested::<M>(m, wire, s, depth) is None,
{
}

/// An optional text views as its text where it is there, and so do optional bytes.
pub proof fn law_options(text: String, bytes: Vec<u8>)
    ensures
        string_option(Some(text)) == Some(text@),
        string_option(None) is None,
        bytes_option(Some(bytes)) == Some(bytes@),
        bytes_option(None) is None,
{
}

} // verus!
