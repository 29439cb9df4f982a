//! Collections of HTTP headers as HTTP clients take and give them, and the calls into
//! `reqwest::header` that fill and read them.

use reqwest::header::{HeaderMap, HeaderName, HeaderValue};
use vstd::prelude::*;
use vstd::utf8::*;

use crate::headers::Headers;
use crate::vec_map;

verus! {

/// A collection of headers.
#[verifier::external_type_specification]
#[verifier::external_body]
#[verifier::reject_recursive_types(T)]
pub struct ExHeaderMap<T>(HeaderMap<T>);

/// The value of a header.
#[verifier::external_type_specification]
#[verifier::external_body]
pub struct ExHeaderValue(HeaderValue);

/// What a collection of headers holds: for each name its values, the one added first in front.
pub uninterp spec fn header_values(map: HeaderMap<HeaderValue>) -> Map<Seq<char>, Seq<Seq<u8>>>;

/// How many names a collection of headers always has room for. With this many or more it may
/// refuse another header, depending on how the names hash.
pub const HEADER_ROOM: usize = 6554;

/// The longest name of a header.
pub const MAX_NAME_LEN: usize = 65535;

/// A character that can stand in the name of a header.
pub open spec fn is_name_char(c: char) -> bool {
    ||| '!' <= c <= '\''
    ||| c == '*' || c == '+' || c == '-' || c == '.'
    ||| '0' <= c <= '9'
    ||| 'A' <= c <= 'Z'
    ||| '^' <= c <= 'z'
    ||| c == '|' || c == '~'
}

/// The lower case of an ASCII letter, and every other character as it is.
pub open spec fn ascii_lower_char(c: char) -> char {
    if 'A' <= c <= 'Z' {
        (c as u32 + 32) as char
    } else {
        c
    }
}

/// The name of a header in its normal form, which is in lower case. `None` where the text is no
/// name.
pub open spec fn normal_name(s: Seq<char>) -> Option<Seq<char>> {
    if 1 <= s.len() <= MAX_NAME_LEN && (forall|i: int| 0 <= i < s.len() ==> is_name_char(
        #[trigger] s[i],
    )) {
        Some(s.map_values(|c: char| ascii_lower_char(c)))
    } else {
        None
    }
}

/// Calls `HeaderName::from_str`, which accepts one to 65535 of the characters that can stand in a
/// name, and puts them in lower case.
#[verifier::external_body]
fn parse_name(s: &str) -> (r: Option<String>)
    ensures
        match r {
            Some(name) => normal_name(s@) == Some(name@),
            None => normal_name(s@) is None,
        },
{
    s.parse::<HeaderName>().ok().map(|name| name.as_str().to_string())
}

/// A byte that can stand in the value of a header.
pub open spec fn is_value_byte(b: u8) -> bool {
    b >= 32 && b != 127 || b == 9
}

/// The bytes can be the value of a header.
pub open spec fn is_value(bytes: Seq<u8>) -> bool {
    forall|i: int| 0 <= i < bytes.len() ==> is_value_byte(#[trigger] bytes[i])
}

/// Calls `HeaderValue::from_str`, which accepts a text without control characters other than the
/// tab, and keeps its bytes.
#[verifier::external_body]
fn parse_value(s: &str) -> (r: Option<Vec<u8>>)
    ensures
        match r {
            Some(value) => is_value(encode_utf8(s@)) && value@ == encode_utf8(s@),
            None => !is_value(encode_utf8(s@)),
        },
{
    HeaderValue::from_str(s).ok().map(|value| value.as_bytes().to_vec())
}

/// No headers.
pub open spec fn no_values() -> Map<Seq<char>, Seq<Seq<u8>>> {
    Map::empty()
}

/// Calls `HeaderMap::new`, which holds no headers.
#[verifier::external_body]
fn new_map() -> (r: HeaderMap<HeaderValue>)
    ensures
        header_values(r) == no_values(),
{
    HeaderMap::new()
}

/// The values of a name, none where the name is not there.
pub open spec fn values_of(values: Map<Seq<char>, Seq<Seq<u8>>>, name: Seq<char>) -> Seq<Seq<u8>> {
    if values.contains_key(name) {
        values[name]
    } else {
        Seq::empty()
    }
}

/// The headers with one more value for a name, behind those it has.
pub open spec fn appended(
    values: Map<Seq<char>, Seq<Seq<u8>>>,
    name: Seq<char>,
    value: Seq<u8>,
) -> Map<Seq<char>, Seq<Seq<u8>>> {
    values.insert(name, values_of(values, name).push(value))
}

/// Calls `HeaderMap::try_append`, which adds a value to those of a name. It fails, and leaves the
/// collection as it is, where the collection cannot grow, which cannot happen while it holds fewer
/// names than `HEADER_ROOM`. From there on, whether it fails is not stated.
#[verifier::external_body]
fn try_append(map: &mut HeaderMap<HeaderValue>, name: &String, value: &Vec<u8>) -> (r: bool)
    requires
        normal_name(name@) == Some(name@),
        is_value(value@),
    ensures
        r ==> header_values(*final(map)) == appended(header_values(*old(map)), name@, value@),
        !r ==> header_values(*final(map)) == header_values(*old(map)),
        !r ==> header_values(*old(map)).dom().len() >= HEADER_ROOM,
{
    let name: HeaderName = name.parse().unwrap();
    map.try_append(name, HeaderValue::from_bytes(value).unwrap()).is_ok()
}

/// Calls `HeaderMap::contains_key`, which tells whether a name has a value.
#[verifier::external_body]
fn contains(map: &HeaderMap<HeaderValue>, name: &String) -> (r: bool)
    requires
        normal_name(name@) == Some(name@),
    ensures
        r == header_values(*map).contains_key(name@),
{
    map.contains_key(name.as_str())
}

/// What a collection holds once the headers were added to it in turn, without those whose name or
/// value is malformed.
pub open spec fn collected(headers: Seq<(Seq<char>, Seq<char>)>) -> Map<Seq<char>, Seq<Seq<u8>>>
    decreases headers.len(),
{
    if headers.len() == 0 {
        no_values()
    } else {
        let before = collected(headers.drop_last());
        let value = encode_utf8(headers.last().1);
        match normal_name(headers.last().0) {
            Some(name) => if is_value(value) {
                appended(before, name, value)
            } else {
                before
            },
            None => before,
        }
    }
}

/// Of each name only the value that was added first.
pub open spec fn first_values(values: Map<Seq<char>, Seq<Seq<u8>>>) -> Map<
    Seq<char>,
    Seq<Seq<u8>>,
> {
    values.map_values(|of_name: Seq<Seq<u8>>| of_name.take(1))
}

/// No more names are collected than there are headers, and each has a value.
proof fn lemma_collected(headers: Seq<(Seq<char>, Seq<char>)>)
    ensures
        collected(headers).dom().finite(),
        collected(headers).dom().len() <= headers.len(),
        forall|name: Seq<char>| #[trigger]
            collected(headers).contains_key(name) ==> collected(headers)[name].len() > 0,
        first_values(collected(headers)).dom() == collected(headers).dom(),
    decreases headers.len(),
{
    if headers.len() > 0 {
        lemma_collected(headers.drop_last());
    }
    assert(first_values(collected(headers)).dom() =~= collected(headers).dom());
}

/// A name in normal form stays as it is.
proof fn lemma_normal_name(s: Seq<char>)
    ensures
        normal_name(s) matches Some(name) ==> normal_name(name) == Some(name),
{
    if let Some(name) = normal_name(s) {
        assert forall|i: int| 0 <= i < name.len() implies is_name_char(#[trigger] name[i])
            && ascii_lower_char(name[i]) == name[i] by {
            assert(is_name_char(s[i]));
        }
        assert(name.map_values(|c: char| ascii_lower_char(c)) =~= name);
    }
}

/// Collects headers as an HTTP client takes them. Those whose name or value is malformed are left
/// out, and names that differ in case alone become one name with several values. `None` where they
/// are too many for one collection, which `HEADER_ROOM` of them never are.
pub fn hashmap_to_headermap(headers: &Headers) -> (r: Option<HeaderMap<HeaderValue>>)
    ensures
        match r {
            Some(map) => header_values(map) == collected(headers@),
            None => headers@.len() > HEADER_ROOM,
        },
{
    let n = headers.len();
    let mut r = new_map();
    let mut i: usize = 0;
    assert(headers@.take(0) =~= Seq::empty());
    while i < n
        invariant
            n == headers@.len(),
            i <= n,
            header_values(r) == collected(headers@.take(i as int)),
        decreases n - i,
    {
        let (name, value) = headers.entry(i);
        proof {
            lemma_collected(headers@.take(i as int));
            lemma_normal_name(name@);
            assert(headers@.take(i + 1).drop_last() =~= headers@.take(i as int));
        }
        match parse_name(name.as_str()) {
            Some(name) => match parse_value(value.as_str()) {
                Some(value) => {
                    if !try_append(&mut r, &name, &value) {
                        return None;
                    }
                },
                None => {},
            },
            None => {},
        }
        i = i + 1;
    }
    assert(headers@.take(n as int) =~= headers@);
    Some(r)
}

/// Collects headers as a WebSocket client takes them: of several values of one name only the first
/// is kept. `None` where they are too many for one collection, which `HEADER_ROOM` of them never
/// are.
pub fn first_headers(headers: &Headers) -> (r: Option<HeaderMap<HeaderValue>>)
    ensures
        match r {
            Some(map) => header_values(map) == first_values(collected(headers@)),
            None => headers@.len() > HEADER_ROOM,
        },
{
    let n = headers.len();
    let mut r = new_map();
    let mut i: usize = 0;
    assert(headers@.take(0) =~= Seq::empty());
    assert(header_values(r) =~= first_values(collected(headers@.take(0))));
    while i < n
        invariant
            n == headers@.len(),
            i <= n,
            header_values(r) == first_values(collected(headers@.take(i as int))),
        decreases n - i,
    {
        let (name, value) = headers.entry(i);
        let ghost before = collected(headers@.take(i as int));
        let ghost after = collected(headers@.take(i + 1));
        proof {
            lemma_collected(headers@.take(i as int));
            lemma_normal_name(name@);
            assert(headers@.take(i + 1).drop_last() =~= headers@.take(i as int));
        }
        match parse_name(name.as_str()) {
            Some(name) => match parse_value(value.as_str()) {
                Some(value) => {
                    assert(after == appended(before, name@, value@));
                    if !contains(&r, &name) {
                        if !try_append(&mut r, &name, &value) {
                            return None;
                        }
                        assert(after[name@].take(1) =~= seq![value@]);
                        assert(header_values(r)[name@] =~= seq![value@]);
                    } else {
                        assert(after[name@].take(1) =~= before[name@].take(1));
                    }
                    assert(header_values(r) =~= first_values(after));
                },
                None => {},
            },
            None => {},
        }
        i = i + 1;
    }
    assert(headers@.take(n as int) =~= headers@);
    Some(r)
}

/// What a collection holds once all of the entries were added to it in turn.
pub open spec fn append_all(entries: Seq<(Seq<char>, Seq<u8>)>) -> Map<Seq<char>, Seq<Seq<u8>>>
    decreases entries.len(),
{
    if entries.len() == 0 {
        no_values()
    } else {
        appended(append_all(entries.drop_last()), entries.last().0, entries.last().1)
    }
}

/// The entries with what their names and values view.
pub open spec fn entry_views(entries: Seq<(String, Vec<u8>)>) -> Seq<(Seq<char>, Seq<u8>)> {
    Seq::new(entries.len(), |i: int| (entries[i].0@, entries[i].1@))
}

/// Calls `HeaderMap::iter`, which hands out every value with its name. The values of a name come in
/// the order in which they were added, so adding what was handed out to an empty collection gives
/// the collection again. In which order the names come is not stated.
#[verifier::external_body]
fn entries(map: &HeaderMap<HeaderValue>) -> (r: Vec<(String, Vec<u8>)>)
    ensures
        append_all(entry_views(r@)) == header_values(*map),
        forall|i: int| 0 <= i < r@.len() ==> is_value(#[trigger] r@[i].1@),
{
    map.iter().map(|(name, value)| (name.as_str().to_string(), value.as_bytes().to_vec())).collect()
}

/// The bytes are visible ASCII characters and tabs.
pub open spec fn is_visible(bytes: Seq<u8>) -> bool {
    forall|i: int| 0 <= i < bytes.len() ==> 32 <= #[trigger] bytes[i] < 127 || bytes[i] == 9
}

/// ASCII characters as text.
pub open spec fn ascii_text(bytes: Seq<u8>) -> Seq<char> {
    Seq::new(bytes.len(), |i: int| bytes[i] as char)
}

/// Calls `HeaderValue::to_str`, which gives the text of a value of visible ASCII characters and
/// tabs, and fails on any other.
#[verifier::external_body]
fn value_text(value: &Vec<u8>) -> (r: Option<String>)
    requires
        is_value(value@),
    ensures
        match r {
            Some(text) => is_visible(value@) && text@ == ascii_text(value@),
            None => !is_visible(value@),
        },
{
    HeaderValue::from_bytes(value).unwrap().to_str().ok().map(|text| text.to_string())
}

/// Every value is text.
pub open spec fn all_visible(values: Map<Seq<char>, Seq<Seq<u8>>>) -> bool {
    forall|name: Seq<char>, i: int|
        values.contains_key(name) && 0 <= i < values[name].len() ==> is_visible(
            #[trigger] values[name][i],
        )
}

/// The text of the last value of a name.
pub open spec fn last_text(values: Map<Seq<char>, Seq<Seq<u8>>>, name: Seq<char>) -> Option<
    Seq<char>,
> {
    if values.contains_key(name) {
        Some(ascii_text(values[name].last()))
    } else {
        None
    }
}

/// Each entry is among the values of its name.
proof fn lemma_append_all(entries: Seq<(Seq<char>, Seq<u8>)>)
    ensures
        forall|name: Seq<char>| #[trigger]
            append_all(entries).contains_key(name) ==> append_all(entries)[name].len() > 0,
        all_visible(append_all(entries)) == (forall|i: int|
            0 <= i < entries.len() ==> is_visible(#[trigger] entries[i].1)),
    decreases entries.len(),
{
    if entries.len() > 0 {
        let rest = entries.drop_last();
        let before = append_all(rest);
        let after = append_all(entries);
        let (name, value) = entries.last();
        lemma_append_all(rest);
        assert(after[name].last() == value);
        if all_visible(after) {
            assert forall|i: int| 0 <= i < entries.len() implies is_visible(
                #[trigger] entries[i].1,
            ) by {
                assert(all_visible(before)) by {
                    assert forall|k: Seq<char>, j: int|
                        before.contains_key(k) && 0 <= j < before[k].len() implies is_visible(
                        #[trigger] before[k][j],
                    ) by {
                        assert(after[k][j] == before[k][j]);
                    }
                }
                if i < rest.len() {
                    assert(entries[i] == rest[i]);
                } else {
                    assert(is_visible(after[name][after[name].len() - 1]));
                }
            }
        }
        if forall|i: int| 0 <= i < entries.len() ==> is_visible(#[trigger] entries[i].1) {
            assert forall|i: int| 0 <= i < rest.len() implies is_visible(#[trigger] rest[i].1) by {
                assert(entries[i] == rest[i]);
            }
            assert(is_visible(entries[entries.len() - 1].1));
            assert forall|k: Seq<char>, j: int|
                after.contains_key(k) && 0 <= j < after[k].len() implies is_visible(
                #[trigger] after[k][j],
            ) by {
                if before.contains_key(k) && j < before[k].len() {
                    assert(after[k][j] == before[k][j]);
                } else {
                    assert(after[k][j] == value);
                }
            }
        }
    }
}

/// The headers by name, where every value is text: of several values of one name the last one
/// counts.
pub fn checked_headers(map: &HeaderMap<HeaderValue>) -> (r: Option<Headers>)
    ensures
        r is Some == all_visible(header_values(*map)),
        r matches Some(headers) ==> vec_map::distinct_keys(headers@) && forall|name: Seq<char>| #[trigger]
            vec_map::lookup(headers@, name) == last_text(header_values(*map), name),
{
    let entries = entries(map);
    let ghost views = entry_views(entries@);
    let mut r = Headers::new();
    let mut i: usize = 0;
    assert(views.take(0) =~= Seq::empty());
    while i < entries.len()
        invariant
            i <= entries.len(),
            views == entry_views(entries@),
            append_all(views) == header_values(*map),
            forall|k: int| 0 <= k < entries@.len() ==> is_value(#[trigger] entries@[k].1@),
            forall|k: int| 0 <= k < i ==> is_visible(#[trigger] views[k].1),
            vec_map::distinct_keys(r@),
            forall|name: Seq<char>| #[trigger]
                vec_map::lookup(r@, name) == last_text(append_all(views.take(i as int)), name),
        decreases entries.len() - i,
    {
        let (name, value) = &entries[i];
        let ghost before = append_all(views.take(i as int));
        let ghost after = append_all(views.take(i + 1));
        proof {
            assert(views.take(i + 1).drop_last() =~= views.take(i as int));
            assert(after == appended(before, name@, value@));
            lemma_append_all(views);
            assert(views[i as int].1 == value@);
        }
        match value_text(value) {
            Some(text) => {
                let ghost headers = r@;
                r.insert(name.clone(), text);
                proof {
                    assert forall|k: Seq<char>| #[trigger]
                        vec_map::lookup(r@, k) == last_text(after, k) by {
                        vec_map::law_inserted(headers, name@, text@, k);
                        assert(vec_map::lookup(headers, k) == last_text(before, k));
                    }
                    vec_map::law_inserted(headers, name@, text@, name@);
                }
            },
            None => {
                return None;
            },
        }
        i = i + 1;
    }
    proof {
        assert(views.take(i as int) =~= views);
        lemma_append_all(views);
    }
    Some(r)
}

/// The headers by name. Of several values of one name the last one counts.
pub fn headermap_to_hashmap(map: &HeaderMap<HeaderValue>) -> (r: Headers)
    requires
        all_visible(header_values(*map)),
    ensures
        vec_map::distinct_keys(r@),
        forall|name: Seq<char>| #[trigger]
            vec_map::lookup(r@, name) == last_text(header_values(*map), name),
{
    match checked_headers(map) {
        Some(headers) => headers,
        None => Headers::new(),
    }
}

/// A text of visible ASCII characters and tabs.
pub open spec fn is_visible_text(s: Seq<char>) -> bool {
    forall|i: int| 0 <= i < s.len() ==> ' ' <= #[trigger] s[i] <= '~' || s[i] == '\t'
}

/// Every name is in normal form, and every value is visible.
pub open spec fn is_plain(headers: Seq<(Seq<char>, Seq<char>)>) -> bool {
    forall|i: int|
        0 <= i < headers.len() ==> normal_name((#[trigger] headers[i]).0) == Some(headers[i].0)
            && is_visible_text(headers[i].1)
}

/// A visible text is its bytes.
proof fn lemma_visible_text(s: Seq<char>)
    requires
        is_visible_text(s),
    ensures
        is_value(encode_utf8(s)),
        is_visible(encode_utf8(s)),
        ascii_text(encode_utf8(s)) == s,
{
    assert(is_ascii_chars(s));
    is_ascii_chars_encode_utf8(s);
    let bytes = encode_utf8(s);
    assert forall|i: int| 0 <= i < bytes.len() implies is_value_byte(#[trigger] bytes[i]) && (32
        <= bytes[i] < 127 || bytes[i] == 9) && bytes[i] as char == s[i] by {
        assert(bytes[i] == s[i] as u8);
    }
    assert(ascii_text(bytes) =~= s);
}

/// Plain headers are collected one by one.
proof fn lemma_plain(headers: Seq<(Seq<char>, Seq<char>)>)
    requires
        vec_map::distinct_keys(headers),
        is_plain(headers),
    ensures
        forall|name: Seq<char>| #[trigger]
            collected(headers).contains_key(name) == vec_map::has_key(headers, name),
        forall|i: int|
            0 <= i < headers.len() ==> collected(headers)[(#[trigger] headers[i]).0] == seq![
                encode_utf8(headers[i].1),
            ],
    decreases headers.len(),
{
    if headers.len() > 0 {
        let rest = headers.drop_last();
        let last = headers.last();
        let before = collected(rest);
        let after = collected(headers);
        assert forall|i: int| 0 <= i < rest.len() implies rest[i] == headers[i] by {}
        lemma_plain(rest);
        assert(headers[headers.len() - 1] == last);
        lemma_visible_text(last.1);
        assert(after == appended(before, last.0, encode_utf8(last.1)));
        assert(!vec_map::has_key(rest, last.0));
        assert(after[last.0] =~= seq![encode_utf8(last.1)]);
        assert forall|i: int| 0 <= i < headers.len() implies after[(#[trigger] headers[i]).0]
            == seq![encode_utf8(headers[i].1)] by {
            if i < rest.len() {
                assert(rest[i].0 != last.0);
                assert(before[rest[i].0] == seq![encode_utf8(rest[i].1)]);
            }
        }
        assert forall|name: Seq<char>| #[trigger]
            after.contains_key(name) == vec_map::has_key(headers, name) by {
            assert(before.contains_key(name) == vec_map::has_key(rest, name));
            if vec_map::has_key(rest, name) {
                let i = vec_map::position(rest, name);
                assert(headers[i].0 == name);
            }
            if vec_map::has_key(headers, name) && name != last.0 {
                let i = vec_map::position(headers, name);
                assert(rest[i].0 == name);
            }
        }
    }
}

/// Headers that are collected for a client and read back again give every name the value that it
/// had, where the names are in lower case and the values are visible.
pub proof fn law_headers_are_read_back(headers: Seq<(Seq<char>, Seq<char>)>, name: Seq<char>)
    requires
        vec_map::distinct_keys(headers),
        is_plain(headers),
    ensures
        all_visible(collected(headers)),
        last_text(collected(headers), name) == vec_map::lookup(headers, name),
        first_values(collected(headers)) == collected(headers),
{
    let values = collected(headers);
    lemma_plain(headers);
    assert forall|k: Seq<char>| #[trigger] values.contains_key(k) implies values[k] == seq![
        encode_utf8(headers[vec_map::position(headers, k)].1),
    ] && is_visible(values[k][0]) && ascii_text(values[k][0]) == headers[vec_map::position(
        headers,
        k,
    )].1 by {
        assert(vec_map::has_key(headers, k));
        let i = vec_map::position(headers, k);
        assert(headers[i].0 == k);
        lemma_visible_text(headers[i].1);
    }
    assert(all_visible(values)) by {
        assert forall|k: Seq<char>, i: int|
            values.contains_key(k) && 0 <= i < values[k].len() implies is_visible(
            #[trigger] values[k][i],
        ) by {
            assert(i == 0);
        }
    }
    assert(first_values(values) =~= values) by {
        assert forall|k: Seq<char>| values.contains_key(k) implies #[trigger] values[k].take(1)
            == values[k] by {
            assert(values[k].take(1) =~= values[k]);
        }
    }
    assert(values.contains_key(name) == vec_map::has_key(headers, name));
}

/// A text is the name of a header exactly where it has one to 65535 characters and each is a letter
/// or a digit of ASCII or one of a few signs. In its normal form it has the same characters, with
/// the letters in lower case.
pub proof fn law_header_names(s: Seq<char>)
    ensures
        normal_name(s) is Some <==> 1 <= s.len() <= 65535 && forall|i: int|
            0 <= i < s.len() ==> {
                let c = #[trigger] s[i];
                ||| 'a' <= c <= 'z' || 'A' <= c <= 'Z' || '0' <= c <= '9'
                ||| c == '!' || c == '"' || c == '#' || c == '$' || c == '%' || c == '&'
                ||| c == '\'' || c == '*' || c == '+' || c == '-' || c == '.'
                ||| c == '^' || c == '_' || c == '`' || c == '|' || c == '~'
            },
        normal_name(s) matches Some(name) ==> name.len() == s.len() && forall|i: int|
            0 <= i < s.len() ==> #[trigger] name[i] == if 'A' <= s[i] <= 'Z' {
                (s[i] as u32 + 32) as char
            } else {
                s[i]
            },
{
    if normal_name(s) is Some {
        assert forall|i: int| 0 <= i < s.len() implies is_name_char(#[trigger] s[i]) by {}
    }
    if 1 <= s.len() <= 65535 && forall|i: int|
        0 <= i < s.len() ==> {
            let c = #[trigger] s[i];
            ||| 'a' <= c <= 'z' || 'A' <= c <= 'Z' || '0' <= c <= '9'
            ||| c == '!' || c == '"' || c == '#' || c == '$' || c == '%' || c == '&'
            ||| c == '\'' || c == '*' || c == '+' || c == '-' || c == '.'
            ||| c == '^' || c == '_' || c == '`' || c == '|' || c == '~'
        } {
        assert forall|i: int| 0 <= i < s.len() implies is_name_char(#[trigger] s[i]) by {}
    }
}

/// Two names that differ in the case of their letters alone are one name: their normal forms are
/// the same.
pub proof fn law_names_do_not_count_case(a: Seq<char>, b: Seq<char>)
    requires
        a.len() == b.len(),
        forall|i: int|
            #![trigger a[i]]
            #![trigger b[i]]
            0 <= i < a.len() ==> a[i] == b[i] || ('A' <= a[i] <= 'Z' && b[i] == (a[i] as u32
                + 32) as char) || ('A' <= b[i] <= 'Z' && a[i] == (b[i] as u32 + 32) as char),
    ensures
        normal_name(a) == normal_name(b),
{
    law_header_names(a);
    law_header_names(b);
    if normal_name(a) is Some {
        assert forall|i: int| 0 <= i < b.len() implies is_name_char(#[trigger] b[i]) by {
            assert(is_name_char(a[i]));
        }
    }
    if normal_name(b) is Some {
        assert forall|i: int| 0 <= i < a.len() implies is_name_char(#[trigger] a[i]) by {
            assert(is_name_char(b[i]));
        }
    }
    if normal_name(a) is Some {
        assert(normal_name(a)->0 =~= normal_name(b)->0);
    }
}

/// Bytes are the value of a header exactly where none of them is a control character other than the
/// tab.
pub proof fn law_header_values(bytes: Seq<u8>)
    ensures
        is_value(bytes) <==> forall|i: int|
            0 <= i < bytes.len() ==> (#[trigger] bytes[i] == 9 || (bytes[i] >= 32 && bytes[i]
                != 127)),
{
    if forall|i: int|
        0 <= i < bytes.len() ==> (#[trigger] bytes[i] == 9 || (bytes[i] >= 32 && bytes[i] != 127)) {
        assert forall|i: int| 0 <= i < bytes.len() implies is_value_byte(#[trigger] bytes[i]) by {}
    }
    if is_value(bytes) {
        assert forall|i: int| 0 <= i < bytes.len() implies (#[trigger] bytes[i] == 9 || (bytes[i]
            >= 32 && bytes[i] != 127)) by {
            assert(is_value_byte(bytes[i]));
        }
    }
}

/// The values collected for a name are those of the well-formed headers with that name, in whatever
/// case, all of them, each as often as it is there, and in their order. A name is there exactly
/// where it has such a header.
pub proof fn law_collected_are_the_valid(headers: Seq<(Seq<char>, Seq<char>)>, name: Seq<char>)
    ensures
        ({
            let valid = headers.filter(
                |h: (Seq<char>, Seq<char>)|
                    normal_name(h.0) == Some(name) && is_value(encode_utf8(h.1)),
            );
            &&& collected(headers).contains_key(name) <==> valid.len() > 0
            &&& valid.len() > 0 ==> collected(headers)[name].len() == valid.len()
            &&& forall|i: int|
                0 <= i < valid.len() ==> #[trigger] collected(headers)[name][i] == encode_utf8(
                    valid[i].1,
                )
        }),
    decreases headers.len(),
{
    reveal(Seq::filter);
    let pred = |h: (Seq<char>, Seq<char>)|
        normal_name(h.0) == Some(name) && is_value(encode_utf8(h.1));
    if headers.len() > 0 {
        law_collected_are_the_valid(headers.drop_last(), name);
        let before = collected(headers.drop_last());
        let after = collected(headers);
        let earlier = headers.drop_last().filter(pred);
        let valid = headers.filter(pred);
        if pred(headers.last()) {
            assert(valid == earlier.push(headers.last()));
            assert(after[name] == values_of(before, name).push(encode_utf8(headers.last().1)));
            assert forall|i: int| 0 <= i < valid.len() implies #[trigger] after[name][i]
                == encode_utf8(valid[i].1) by {
                if i < earlier.len() {
                    assert(before[name][i] == encode_utf8(earlier[i].1));
                }
            }
        } else {
            assert(valid == earlier);
            assert(after.contains_key(name) == before.contains_key(name));
            assert(before.contains_key(name) ==> after[name] == before[name]);
            assert forall|i: int| 0 <= i < valid.len() implies #[trigger] after[name][i]
                == encode_utf8(valid[i].1) by {
                assert(before[name][i] == encode_utf8(earlier[i].1));
            }
        }
    }
}

/// Every header with a well-formed name, in whatever case, and a well-formed value is collected: its
/// value is among those of its name in lower case.
pub proof fn law_valid_header_is_collected(headers: Seq<(Seq<char>, Seq<char>)>, i: int)
    requires
        0 <= i < headers.len(),
        1 <= headers[i].0.len() <= 65535,
        forall|k: int|
            0 <= k < headers[i].0.len() ==> {
                let c = #[trigger] headers[i].0[k];
                ||| 'a' <= c <= 'z' || 'A' <= c <= 'Z' || '0' <= c <= '9'
                ||| c == '!' || c == '"' || c == '#' || c == '$' || c == '%' || c == '&'
                ||| c == '\'' || c == '*' || c == '+' || c == '-' || c == '.'
                ||| c == '^' || c == '_' || c == '`' || c == '|' || c == '~'
            },
        forall|k: int|
            0 <= k < encode_utf8(headers[i].1).len() ==> (#[trigger] encode_utf8(headers[i].1)[k]
                == 9 || (encode_utf8(headers[i].1)[k] >= 32 && encode_utf8(headers[i].1)[k]
                != 127)),
    ensures
        ({
            let name = headers[i].0.map_values(
                |c: char|
                    if 'A' <= c <= 'Z' {
                        (c as u32 + 32) as char
                    } else {
                        c
                    },
            );
            &&& collected(headers).contains_key(name)
            &&& collected(headers)[name].contains(encode_utf8(headers[i].1))
        }),
{
    let name = headers[i].0.map_values(
        |c: char|
            if 'A' <= c <= 'Z' {
                (c as u32 + 32) as char
            } else {
                c
            },
    );
    law_header_names(headers[i].0);
    law_header_values(encode_utf8(headers[i].1));
    assert(normal_name(headers[i].0)->0 =~= name);
    let pred = |h: (Seq<char>, Seq<char>)|
        normal_name(h.0) == Some(name) && is_value(encode_utf8(h.1));
    let valid = headers.filter(pred);
    headers.lemma_filter_contains(pred, i);
    let k = choose|k: int| 0 <= k < valid.len() && valid[k] == headers[i];
    law_collected_are_the_valid(headers, name);
    assert(collected(headers)[name][k] == encode_utf8(headers[i].1));
}

/// How many values are collected for the names of a finite set.
pub open spec fn count_values(values: Map<Seq<char>, Seq<Seq<u8>>>, names: Set<Seq<char>>) -> nat
    decreases names.len(),
    when names.finite()
{
    if names.len() == 0 {
        0
    } else {
        let name = names.choose();
        values[name].len() + count_values(values, names.remove(name))
    }
}

/// One name, picked out, can be counted first.
proof fn lemma_count_values(
    values: Map<Seq<char>, Seq<Seq<u8>>>,
    names: Set<Seq<char>>,
    name: Seq<char>,
)
    requires
        names.finite(),
        names.contains(name),
    ensures
        count_values(values, names) == values[name].len() + count_values(
            values,
            names.remove(name),
        ),
    decreases names.len(),
{
    let first = names.choose();
    if first != name {
        lemma_count_values(values, names.remove(first), name);
        lemma_count_values(values, names.remove(name), first);
        assert(names.remove(first).remove(name) =~= names.remove(name).remove(first));
    }
}

/// Only the values of the names that are counted matter.
proof fn lemma_count_same(
    a: Map<Seq<char>, Seq<Seq<u8>>>,
    b: Map<Seq<char>, Seq<Seq<u8>>>,
    names: Set<Seq<char>>,
)
    requires
        names.finite(),
        forall|name: Seq<char>| names.contains(name) ==> #[trigger] a[name] == b[name],
    ensures
        count_values(a, names) == count_values(b, names),
    decreases names.len(),
{
    if names.len() > 0 {
        lemma_count_same(a, b, names.remove(names.choose()));
    }
}

/// As many values are collected in all as there are well-formed headers.
pub proof fn law_as_many_values_as_valid_headers(headers: Seq<(Seq<char>, Seq<char>)>)
    ensures
        collected(headers).dom().finite(),
        count_values(collected(headers), collected(headers).dom()) == headers.filter(
            |h: (Seq<char>, Seq<char>)| normal_name(h.0) is Some && is_value(encode_utf8(h.1)),
        ).len(),
    decreases headers.len(),
{
    reveal(Seq::filter);
    lemma_collected(headers);
    if headers.len() > 0 {
        let before = collected(headers.drop_last());
        let after = collected(headers);
        law_as_many_values_as_valid_headers(headers.drop_last());
        let value = encode_utf8(headers.last().1);
        if normal_name(headers.last().0) is Some && is_value(value) {
            let name = normal_name(headers.last().0)->0;
            let rest = after.dom().remove(name);
            lemma_count_values(after, after.dom(), name);
            lemma_count_same(before, after, rest);
            if before.contains_key(name) {
                lemma_count_values(before, before.dom(), name);
                assert(before.dom().remove(name) =~= rest);
            } else {
                assert(before.dom() =~= rest);
            }
        }
    }
}

/// Where only the first value of a name is kept, the names stay, and each has one value, the one
/// that was added first.
pub proof fn law_first_values(values: Map<Seq<char>, Seq<Seq<u8>>>, name: Seq<char>)
    ensures
        first_values(values).contains_key(name) == values.contains_key(name),
        values.contains_key(name) && values[name].len() > 0 ==> first_values(values)[name].len()
            == 1 && first_values(values)[name][0] == values[name][0],
{
}

/// A value that is read back as text has a character for every byte, with the same number.
pub proof fn law_text_of_a_value(bytes: Seq<u8>)
    ensures
        ascii_text(bytes).len() == bytes.len(),
        is_visible(bytes) <==> forall|i: int|
            0 <= i < bytes.len() ==> (#[trigger] bytes[i] == 9 || 32 <= bytes[i] <= 126),
        is_visible(bytes) ==> forall|i: int|
            0 <= i < bytes.len() ==> (#[trigger] ascii_text(bytes)[i]) as u32 == bytes[i] as u32,
{
}

/// Of several headers whose names differ in case alone, the one that is read back is the last
/// well-formed one.
pub proof fn law_last_valid_header_is_read_back(
    headers: Seq<(Seq<char>, Seq<char>)>,
    name: Seq<char>,
)
    ensures
        ({
            let valid = headers.filter(
                |h: (Seq<char>, Seq<char>)|
                    normal_name(h.0) == Some(name) && is_value(encode_utf8(h.1)),
            );
            last_text(collected(headers), name) == if valid.len() > 0 {
                Some(ascii_text(encode_utf8(valid[valid.len() - 1].1)))
            } else {
                None
            }
        }),
{
    law_collected_are_the_valid(headers, name);
    let valid = headers.filter(
        |h: (Seq<char>, Seq<char>)| normal_name(h.0) == Some(name) && is_value(encode_utf8(h.1)),
    );
    if valid.len() > 0 {
        assert(collected(headers)[name][valid.len() - 1] == encode_utf8(
            valid[valid.len() - 1].1,
        ));
    }
}

/// The values of a name are text exactly where all their bytes are visible ASCII characters and
/// tabs, and it is the last value that is read.
pub proof fn law_values_as_text(values: Map<Seq<char>, Seq<Seq<u8>>>, name: Seq<char>)
    ensures
        all_visible(values) <==> forall|n: Seq<char>, i: int, j: int|
            values.contains_key(n) && 0 <= i < values[n].len() && 0 <= j < values[n][i].len() ==> (
            #[trigger] values[n][i][j] == 9 || 32 <= values[n][i][j] <= 126),
        last_text(values, name) is Some <==> values.contains_key(name),
        values.contains_key(name) && values[name].len() > 0 ==> last_text(values, name) == Some(
            ascii_text(values[name][values[name].len() - 1]),
        ),
{
    if all_visible(values) {
        assert forall|n: Seq<char>, i: int, j: int|
            values.contains_key(n) && 0 <= i < values[n].len() && 0 <= j < values[n][i].len()
            implies (#[trigger] values[n][i][j] == 9 || 32 <= values[n][i][j] <= 126) by {
            assert(is_visible(values[n][i]));
        }
    }
    if forall|n: Seq<char>, i: int, j: int|
        values.contains_key(n) && 0 <= i < values[n].len() && 0 <= j < values[n][i].len() ==> (
        #[trigger] values[n][i][j] == 9 || 32 <= values[n][i][j] <= 126) {
        assert forall|n: Seq<char>, i: int|
            values.contains_key(n) && 0 <= i < values[n].len() implies is_visible(
            #[trigger] values[n][i],
        ) by {}
    }
}

/// Entries that are added in turn are all there, under their names and in their order.
pub proof fn law_all_entries_are_added(entries: Seq<(Seq<char>, Seq<u8>)>, name: Seq<char>)
    ensures
        ({
            let of_name = entries.filter(|e: (Seq<char>, Seq<u8>)| e.0 == name);
            &&& append_all(entries).contains_key(name) <==> of_name.len() > 0
            &&& of_name.len() > 0 ==> append_all(entries)[name].len() == of_name.len()
            &&& forall|i: int|
                0 <= i < of_name.len() ==> #[trigger] append_all(entries)[name][i] == of_name[i].1
        }),
    decreases entries.len(),
{
    reveal(Seq::filter);
    let pred = |e: (Seq<char>, Seq<u8>)| e.0 == name;
    if entries.len() > 0 {
        law_all_entries_are_added(entries.drop_last(), name);
        let before = append_all(entries.drop_last());
        let after = append_all(entries);
        let earlier = entries.drop_last().filter(pred);
        let of_name = entries.filter(pred);
        if pred(entries.last()) {
            assert(of_name == earlier.push(entries.last()));
            assert(after[name] == values_of(before, name).push(entries.last().1));
            assert forall|i: int| 0 <= i < of_name.len() implies #[trigger] after[name][i]
                == of_name[i].1 by {
                if i < earlier.len() {
                    assert(before[name][i] == earlier[i].1);
                }
            }
        } else {
            assert(of_name == earlier);
            assert forall|i: int| 0 <= i < of_name.len() implies #[trigger] after[name][i]
                == of_name[i].1 by {
                assert(before[name][i] == earlier[i].1);
            }
        }
    }
}

} // verus!
