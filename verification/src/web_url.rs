//! URLs and hosts, and the calls into `url` that parse and print them.

use vstd::prelude::*;

use crate::text;

verus! {

/// The error `url` reports for a malformed URL or host.
#[verifier::external_type_specification]
#[verifier::external_body]
pub struct ExParseError(url::ParseError);

/// What a URL holds.
pub struct UrlModel {
    pub text: Seq<char>,
    pub query: Option<Seq<char>>,
}

/// A parsed URL: its text, and the query in it, if there is one.
#[derive(Debug)]
pub struct Url {
    text: String,
    query: Option<String>,
}

impl View for Url {
    type V = UrlModel;

    closed spec fn view(&self) -> UrlModel {
        UrlModel {
            text: self.text@,
            query: match self.query {
                Some(q) => Some(q@),
                None => None,
            },
        }
    }
}

impl Url {
    /// The URL that a text stands for. There is none where its host is none.
    pub fn parse(input: &str) -> (r: Result<Url, url::ParseError>)
        ensures
            match r {
                Ok(u) => parsed_url(input@) == Some((u@.text, u@.query)),
                Err(_) => parsed_url(input@) is None,
            },
            forall|host: Seq<char>, port: u16, rest: Seq<char>|
                input@ == #[trigger] ws_text(host, port, rest) && has_no_delimiter(host)
                    && parsed_host(host) is None ==> r is Err,
    {
        parse_url(input)
    }

    /// The text of the URL.
    pub fn as_str(&self) -> (r: &str)
        ensures
            r@ == self@.text,
    {
        self.text.as_str()
    }

    /// The query of the URL.
    pub fn query(&self) -> (r: Option<&str>)
        ensures
            match r {
                Some(q) => self@.query == Some(q@),
                None => self@.query is None,
            },
    {
        match &self.query {
            Some(q) => Some(q.as_str()),
            None => None,
        }
    }
}

/// The query of a URL that must have one: it carries the token of the session.
pub fn session_token(url: &Url) -> (r: String)
    requires
        url@.query is Some,
    ensures
        url@.query == Some(r@),
{
    url.query().unwrap().to_owned()
}

impl Clone for Url {
    fn clone(&self) -> (r: Self)
        ensures
            r@ == self@,
    {
        Url {
            text: self.text.clone(),
            query: match &self.query {
                Some(q) => Some(q.clone()),
                None => None,
            },
        }
    }
}

/// The text and the query of the URL that `url::Url::parse` finds in a text. `None` where it fails.
pub uninterp spec fn parsed_url(input: Seq<char>) -> Option<(Seq<char>, Option<Seq<char>>)>;

/// The text of a WebSocket URL with that host and port, and what follows them.
pub open spec fn ws_text(host: Seq<char>, port: u16, rest: Seq<char>) -> Seq<char> {
    "ws://"@ + host + ":"@ + text::decimal(port as nat) + "/"@ + rest
}

/// The text holds none of the characters that set the host apart in a URL, and none that a URL does
/// not count.
pub open spec fn has_no_delimiter(host: Seq<char>) -> bool {
    forall|i: int|
        0 <= i < host.len() ==> !(seq!['/', '\\', '?', '#', '@', ':', '[', ']', '\t', '\n', '\r']).contains(
            #[trigger] host[i],
        )
}

/// Calls `url::Url::parse`. Whether a text is a URL, how it is written once parsed and what its
/// query is are a function of the text, which is left to the name `parsed_url`; nothing is said of
/// which error comes. The host in a WebSocket URL is parsed as `url::Host::parse` does it, so the
/// URL is refused where the host is.
#[verifier::external_body]
fn parse_url(input: &str) -> (r: Result<Url, url::ParseError>)
    ensures
        match r {
            Ok(u) => parsed_url(input@) == Some((u@.text, u@.query)),
            Err(_) => parsed_url(input@) is None,
        },
        forall|host: Seq<char>, port: u16, rest: Seq<char>|
            input@ == #[trigger] ws_text(host, port, rest) && has_no_delimiter(host)
                && parsed_host(host) is None ==> r is Err,
{
    let parsed = url::Url::parse(input)?;
    Ok(Url { text: parsed.to_string(), query: parsed.query().map(|q| q.to_string()) })
}

/// What a host holds.
pub enum HostModel {
    Domain(Seq<char>),
    Ipv4(u32),
    Ipv6(u128),
}

/// A host: a domain name, or an address as the number its octets make, the first the highest.
#[derive(Debug)]
pub enum Host {
    Domain(String),
    Ipv4(u32),
    Ipv6(u128),
}

impl View for Host {
    type V = HostModel;

    open spec fn view(&self) -> HostModel {
        match self {
            Host::Domain(d) => HostModel::Domain(d@),
            Host::Ipv4(a) => HostModel::Ipv4(*a),
            Host::Ipv6(a) => HostModel::Ipv6(*a),
        }
    }
}

impl Clone for Host {
    fn clone(&self) -> (r: Self)
        ensures
            r@ == self@,
    {
        match self {
            Host::Domain(d) => Host::Domain(d.clone()),
            Host::Ipv4(a) => Host::Ipv4(*a),
            Host::Ipv6(a) => Host::Ipv6(*a),
        }
    }
}

/// The text does not hold the mark of a label in Punycode, the form that internationalised labels
/// take.
pub open spec fn has_no_punycode(domain: Seq<char>) -> bool {
    forall|i: int|
        0 <= i <= domain.len() - 4 ==> #[trigger] domain.subrange(i, i + 4) != seq!['x', 'n', '-', '-']
}

/// What holds of every host that was parsed. An address is read as it is printed. So is a domain, or
/// it is refused, which only one with labels in Punycode can be.
pub open spec fn reads_back(host: HostModel) -> bool {
    match host {
        HostModel::Domain(d) => {
            &&& has_no_delimiter(d)
            &&& parsed_host(d) == Some(host) || (parsed_host(d) is None && !has_no_punycode(d))
        },
        _ => parsed_host(host_text(host)) == Some(host),
    }
}

impl Host {
    /// The host that a text stands for.
    pub fn parse(input: &str) -> (r: Result<Host, url::ParseError>)
        ensures
            match r {
                Ok(h) => parsed_host(input@) == Some(h@) && reads_back(h@),
                Err(_) => parsed_host(input@) is None,
            },
    {
        parse_host(input)
    }
}

/// The host that `url::Host::parse` finds in a text. `None` where it fails.
pub uninterp spec fn parsed_host(input: Seq<char>) -> Option<HostModel>;

/// Calls `url::Host::parse`. Whether a text is a host, and which one, is a function of the text,
/// which is left to the name `parsed_host`; nothing is said of which error comes. An address is
/// parsed again from its print. A domain comes out in a form that is parsed to itself, unless it has
/// a label in Punycode that is too long or otherwise refused, and has none of the characters that
/// are forbidden in a domain.
#[verifier::external_body]
fn parse_host(input: &str) -> (r: Result<Host, url::ParseError>)
    ensures
        match r {
            Ok(h) => parsed_host(input@) == Some(h@) && reads_back(h@),
            Err(_) => parsed_host(input@) is None,
        },
{
    Ok(
        match url::Host::parse(input)? {
            url::Host::Domain(domain) => Host::Domain(domain),
            url::Host::Ipv4(address) => Host::Ipv4(address.into()),
            url::Host::Ipv6(address) => Host::Ipv6(address.into()),
        },
    )
}

/// Four octets in decimal, with dots between them.
pub open spec fn dotted(address: u32) -> Seq<char> {
    text::decimal((address / 0x100_0000) as nat) + seq!['.'] + text::decimal(
        (address / 0x1_0000 % 0x100) as nat,
    ) + seq!['.'] + text::decimal((address / 0x100 % 0x100) as nat) + seq!['.'] + text::decimal(
        (address % 0x100) as nat,
    )
}

/// How `url::Host` prints an address of the sixth version.
pub uninterp spec fn ipv6_text(address: u128) -> Seq<char>;

/// How a host is printed.
pub open spec fn host_text(host: HostModel) -> Seq<char> {
    match host {
        HostModel::Domain(d) => d,
        HostModel::Ipv4(a) => dotted(a),
        HostModel::Ipv6(a) => ipv6_text(a),
    }
}

/// Calls `to_string` on a `url::Host`, which prints a domain as it is, an address of the fourth
/// version as four decimal octets with dots, and one of the sixth in a form that is left to the
/// name `ipv6_text`.
#[verifier::external_body]
pub(crate) fn host_to_string(host: &Host) -> (r: String)
    ensures
        r@ == host_text(host@),
        host matches Host::Ipv6(a) ==> r@ == ipv6_text(*a),
{
    let printable: url::Host<&str> = match host {
        Host::Domain(domain) => url::Host::Domain(domain.as_str()),
        Host::Ipv4(address) => url::Host::Ipv4((*address).into()),
        Host::Ipv6(address) => url::Host::Ipv6((*address).into()),
    };
    printable.to_string()
}

/// An address of the fourth version is printed as its octets in decimal, the first one in front.
pub proof fn law_address_in_print(address: u32, a: u8, b: u8, c: u8, d: u8)
    requires
        address == a * 0x100_0000 + b * 0x1_0000 + c * 0x100 + d,
    ensures
        dotted(address) == text::decimal(a as nat) + seq!['.'] + text::decimal(b as nat) + seq!['.']
            + text::decimal(c as nat) + seq!['.'] + text::decimal(d as nat),
{
    assert(address / 0x100_0000 == a && address / 0x1_0000 % 0x100 == b && address / 0x100 % 0x100
        == c && address % 0x100 == d) by (bit_vector)
        requires
            address == a * 0x100_0000 + b * 0x1_0000 + c * 0x100 + d,
    ;
}

/// A domain is printed as it is, an address of the fourth version as its four octets, and one of
/// the sixth as `url` prints it.
pub proof fn law_host_in_print(domain: Seq<char>, address: u32, wide: u128)
    ensures
        host_text(HostModel::Domain(domain)) == domain,
        host_text(HostModel::Ipv4(address)) == dotted(address),
        host_text(HostModel::Ipv6(wide)) == ipv6_text(wide),
{
}

/// Four numbers in decimal with dots between them.
pub open spec fn four_parts(a: nat, b: nat, c: nat, d: nat) -> Seq<char> {
    text::decimal(a) + seq!['.'] + text::decimal(b) + seq!['.'] + text::decimal(c) + seq!['.']
        + text::decimal(d)
}

/// Four numbers are told by their text.
proof fn lemma_four_parts(
    a1: nat,
    b1: nat,
    c1: nat,
    d1: nat,
    a2: nat,
    b2: nat,
    c2: nat,
    d2: nat,
)
    requires
        four_parts(a1, b1, c1, d1) == four_parts(a2, b2, c2, d2),
    ensures
        a1 == a2,
        b1 == b2,
        c1 == c2,
        d1 == d2,
{
    let dot = seq!['.'];
    let cd1 = text::decimal(c1) + dot + text::decimal(d1);
    let cd2 = text::decimal(c2) + dot + text::decimal(d2);
    let bcd1 = text::decimal(b1) + dot + cd1;
    let bcd2 = text::decimal(b2) + dot + cd2;
    assert(four_parts(a1, b1, c1, d1) =~= text::decimal(a1) + dot + bcd1);
    assert(four_parts(a2, b2, c2, d2) =~= text::decimal(a2) + dot + bcd2);
    lemma_split_at_dot(a1, a2, bcd1, bcd2);
    lemma_split_at_dot(b1, b2, cd1, cd2);
    lemma_split_at_dot(c1, c2, text::decimal(d1), text::decimal(d2));
    text::law_decimal_tells_numbers_apart(d1, d2);
}

/// Different addresses are printed differently.
pub proof fn law_print_tells_addresses_apart(a: u32, b: u32)
    requires
        host_text(HostModel::Ipv4(a)) == host_text(HostModel::Ipv4(b)),
    ensures
        a == b,
{
    lemma_four_parts(
        (a / 0x100_0000) as nat,
        (a / 0x1_0000 % 0x100) as nat,
        (a / 0x100 % 0x100) as nat,
        (a % 0x100) as nat,
        (b / 0x100_0000) as nat,
        (b / 0x1_0000 % 0x100) as nat,
        (b / 0x100 % 0x100) as nat,
        (b % 0x100) as nat,
    );
    assert(a == b) by (bit_vector)
        requires
            a / 0x100_0000 == b / 0x100_0000,
            a / 0x1_0000 % 0x100 == b / 0x1_0000 % 0x100,
            a / 0x100 % 0x100 == b / 0x100 % 0x100,
            a % 0x100 == b % 0x100,
    ;
}

/// A number in decimal ends at the dot behind it.
proof fn lemma_split_at_dot(m: nat, n: nat, a: Seq<char>, b: Seq<char>)
    requires
        text::decimal(m) + seq!['.'] + a == text::decimal(n) + seq!['.'] + b,
    ensures
        m == n,
        a == b,
{
    let dm = text::decimal(m);
    let dn = text::decimal(n);
    let whole = dm + seq!['.'] + a;
    let other = dn + seq!['.'] + b;
    text::law_decimal(m);
    text::law_decimal(n);
    assert(whole[dm.len() as int] == '.');
    assert(other[dn.len() as int] == '.');
    if dm.len() < dn.len() {
        assert(other[dm.len() as int] == dn[dm.len() as int]);
    }
    if dn.len() < dm.len() {
        assert(whole[dn.len() as int] == dm[dn.len() as int]);
    }
    assert(whole.take(dm.len() as int) =~= dm);
    assert(other.take(dm.len() as int) =~= dn);
    assert(whole.skip((dm.len() + 1) as int) =~= a);
    assert(other.skip((dm.len() + 1) as int) =~= b);
    text::law_decimal_tells_numbers_apart(m, n);
}

/// A text holds a character that sets the host apart exactly where one of its characters is such a
/// one.
pub proof fn law_delimiters(host: Seq<char>)
    ensures
        has_no_delimiter(host) <==> forall|i: int|
            0 <= i < host.len() ==> {
                let c = #[trigger] host[i];
                &&& c != '/' && c != '\\' && c != '?' && c != '#' && c != '@' && c != ':'
                &&& c != '[' && c != ']' && c != '\t' && c != '\n' && c != '\r'
            },
{
    let delimiters = seq!['/', '\\', '?', '#', '@', ':', '[', ']', '\t', '\n', '\r'];
    assert(delimiters[0] == '/' && delimiters[1] == '\\' && delimiters[2] == '?');
    assert(delimiters[3] == '#' && delimiters[4] == '@' && delimiters[5] == ':');
    assert(delimiters[6] == '[' && delimiters[7] == ']' && delimiters[8] == '\t');
    assert(delimiters[9] == '\n' && delimiters[10] == '\r');
}

/// A host views as its kind: a domain as its text, and an address as its number.
pub proof fn law_host_views_as_its_kind(domain: String, address: u32, wide: u128)
    ensures
        Host::Domain(domain)@ == HostModel::Domain(domain@),
        Host::Ipv4(address)@ == HostModel::Ipv4(address),
        Host::Ipv6(wide)@ == HostModel::Ipv6(wide),
{
}

} // verus!
