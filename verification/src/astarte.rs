//! What the device is told of the remote host: the values that Astarte sends, and the URL that they
//! make.

use url::ParseError;
use vstd::prelude::*;

use crate::text;
use crate::vec_map;
use crate::vec_map::VecMap;
use crate::web_url;
use crate::web_url::{Host, HostModel, Url};

verus! {

/// What goes wrong with the values from Astarte.
#[non_exhaustive]
#[derive(Debug)]
pub enum Error {
    /// A value has another type than it should.
    AstarteWrongType,
    /// The host or the URL is malformed.
    Parse(ParseError),
    /// The port is out of range.
    ParsePort(std::num::TryFromIntError),
    /// A value is missing.
    MissingUrlInfo(String),
}

/// What a value from Astarte is.
pub enum AstarteTypeModel {
    String(Seq<char>),
    Integer(i32),
    Other,
}

/// A value from Astarte, as far as it can be part of a URL.
#[derive(Debug)]
pub enum AstarteType {
    String(String),
    Integer(i32),
    Other,
}

impl View for AstarteType {
    type V = AstarteTypeModel;

    open spec fn view(&self) -> AstarteTypeModel {
        match self {
            AstarteType::String(s) => AstarteTypeModel::String(s@),
            AstarteType::Integer(n) => AstarteTypeModel::Integer(*n),
            AstarteType::Other => AstarteTypeModel::Other,
        }
    }
}

/// What there is to know of the remote host.
pub struct ConnectionInfoModel {
    pub host: HostModel,
    pub port: u16,
    pub session_token: Seq<char>,
}

/// Where the remote host is, and the token of the session with it.
#[derive(Debug)]
pub struct ConnectionInfo {
    host: Host,
    port: u16,
    session_token: String,
}

impl View for ConnectionInfo {
    type V = ConnectionInfoModel;

    closed spec fn view(&self) -> ConnectionInfoModel {
        ConnectionInfoModel {
            host: self.host@,
            port: self.port,
            session_token: self.session_token@,
        }
    }
}

impl Clone for ConnectionInfo {
    fn clone(&self) -> (r: Self)
        ensures
            r@ == self@,
    {
        ConnectionInfo {
            host: self.host.clone(),
            port: self.port,
            session_token: self.session_token.clone(),
        }
    }
}

/// The number of the address 127.0.0.1.
pub const LOCALHOST: u32 = 0x7f00_0001;

impl ConnectionInfoModel {
    /// How the host stands in the URL: as it is printed, but for the loopback address, which stands
    /// by its name.
    pub open spec fn url_host(self) -> Seq<char> {
        if self.host == HostModel::Ipv4(LOCALHOST) {
            "localhost"@
        } else {
            web_url::host_text(self.host)
        }
    }

    /// The text of the URL.
    pub open spec fn url_text(self) -> Seq<char> {
        "ws://"@ + self.url_host() + ":"@ + text::decimal(self.port as nat)
            + "/path?session_token="@ + self.session_token
    }

    /// The values that Astarte sends, by name.
    pub open spec fn aggregate(self) -> Seq<(Seq<char>, AstarteTypeModel)> {
        seq![
            ("host"@, AstarteTypeModel::String(web_url::host_text(self.host))),
            ("port"@, AstarteTypeModel::Integer(self.port as i32)),
            ("session_token"@, AstarteTypeModel::String(self.session_token)),
        ]
    }
}

/// The values with what they view.
pub open spec fn typed_entries(entries: Seq<(Seq<char>, AstarteType)>) -> Seq<
    (Seq<char>, AstarteTypeModel),
> {
    Seq::new(entries.len(), |i: int| (entries[i].0, entries[i].1@))
}

/// The three names differ.
proof fn lemma_names_differ()
    ensures
        "host"@ != "port"@,
        "host"@ != "session_token"@,
        "port"@ != "session_token"@,
{
    reveal_strlit("host");
    reveal_strlit("port");
    reveal_strlit("session_token");
    assert("host"@[0] == 'h');
    assert("port"@[0] == 'p');
    assert("session_token"@[0] == 's');
}

impl ConnectionInfo {
    pub fn new(host: Host, port: u16, session_token: String) -> (r: Self)
        ensures
            r@ == (ConnectionInfoModel { host: host@, port, session_token: session_token@ }),
    {
        Self { host, port, session_token }
    }

    /// The values that Astarte sends, by name. This always succeeds.
    pub fn astarte_aggregate(self) -> (r: Result<VecMap<String, AstarteType>, Error>)
        ensures
            r matches Ok(map) && typed_entries(map@) == self@.aggregate(),
    {
        let mut map: VecMap<String, AstarteType> = VecMap::new();
        let host = web_url::host_to_string(&self.host);
        proof {
            lemma_names_differ();
        }
        map.insert("host".to_owned(), AstarteType::String(host));
        map.insert("port".to_owned(), AstarteType::Integer(self.port as i32));
        map.insert("session_token".to_owned(), AstarteType::String(self.session_token));
        assert(typed_entries(map@) =~= self@.aggregate());
        Ok(map)
    }

    /// The text of the URL of the remote host.
    pub fn url_text(&self) -> (r: String)
        ensures
            r@ == self@.url_text(),
    {
        let mut url = "ws://".to_owned();
        match &self.host {
            Host::Ipv4(LOCALHOST) => url.append("localhost"),
            host => {
                let ip = web_url::host_to_string(host);
                url.append(ip.as_str())
            },
        }
        url.append(":");
        url.append(text::to_decimal(self.port).as_str());
        url.append("/path?session_token=");
        url.append(self.session_token.as_str());
        url
    }
}

/// The text of the URL of a domain is that of a WebSocket URL with the domain as its host.
proof fn lemma_url_text(info: ConnectionInfoModel)
    ensures
        info.host matches HostModel::Domain(d) ==> info.url_text() == web_url::ws_text(
            d,
            info.port,
            "path?session_token="@ + info.session_token,
        ),
{
    reveal_strlit("/path?session_token=");
    reveal_strlit("path?session_token=");
    reveal_strlit("/");
    if let HostModel::Domain(d) = info.host {
        assert("/path?session_token="@ =~= "/"@ + "path?session_token="@);
        assert(info.url_text() =~= web_url::ws_text(
            d,
            info.port,
            "path?session_token="@ + info.session_token,
        ));
    }
}

impl TryFrom<ConnectionInfo> for Url {
    type Error = Error;

    /// The URL of the remote host. For a host that was parsed it is the URL that the values make
    /// which Astarte sends for it, and there is none where they make none.
    fn try_from(value: ConnectionInfo) -> (r: Result<Self, Error>)
        ensures
            match web_url::parsed_url(value@.url_text()) {
                Some((text, query)) => r matches Ok(url) && url@.text == text && url@.query == query,
                None => r matches Err(Error::Parse(_)),
            },
            web_url::reads_back(value@.host) ==> makes(r, url_of(value@.aggregate())),
    {
        proof {
            lemma_url_text(value@);
        }
        let r = match Url::parse(value.url_text().as_str()) {
            Ok(url) => Ok(url),
            Err(err) => Err(Error::Parse(err)),
        };
        proof {
            if web_url::reads_back(value@.host) {
                law_aggregate_makes_url(value@);
            }
        }
        r
    }
}

impl vstd::std_specs::convert::TryFromSpecImpl<ConnectionInfo> for Url {
    open spec fn obeys_try_from_spec() -> bool {
        false
    }

    open spec fn try_from_spec(v: ConnectionInfo) -> Result<Self, Error> {
        arbitrary()
    }
}

/// What is wrong with the values from Astarte.
pub enum Problem {
    Missing(Seq<char>),
    WrongType,
    Host,
    Port,
    Url,
}

/// The error tells of the problem.
pub open spec fn tells(err: Error, problem: Problem) -> bool {
    match problem {
        Problem::Missing(what) => err matches Error::MissingUrlInfo(info) && info@ == what,
        Problem::WrongType => err is AstarteWrongType,
        Problem::Host => err is Parse,
        Problem::Port => err is ParsePort,
        Problem::Url => err is Parse,
    }
}

/// The host, the port and the token among the values. A missing value is told before one of a wrong
/// type, and the host before the port before the token.
pub open spec fn url_values(entries: Seq<(Seq<char>, AstarteTypeModel)>) -> Result<
    (Seq<char>, i32, Seq<char>),
    Problem,
> {
    match (
        vec_map::lookup(entries, "host"@),
        vec_map::lookup(entries, "port"@),
        vec_map::lookup(entries, "session_token"@),
    ) {
        (None, _, _) => Err(Problem::Missing("Missing host (IP or domain name)"@)),
        (_, None, _) => Err(Problem::Missing("Missing port value"@)),
        (_, _, None) => Err(Problem::Missing("Missing session_token"@)),
        (
            Some(AstarteTypeModel::String(host)),
            Some(AstarteTypeModel::Integer(port)),
            Some(AstarteTypeModel::String(session_token)),
        ) => Ok((host, port, session_token)),
        _ => Err(Problem::WrongType),
    }
}

/// What there is to know of the remote host, given the host that was parsed.
pub open spec fn info_of(
    host: Option<HostModel>,
    port: i32,
    session_token: Seq<char>,
) -> Result<ConnectionInfoModel, Problem> {
    match host {
        None => Err(Problem::Host),
        Some(host) => if 0 <= port <= u16::MAX {
            Ok(ConnectionInfoModel { host, port: port as u16, session_token })
        } else {
            Err(Problem::Port)
        },
    }
}

/// What there is to know of the remote host, given the host that was parsed.
pub fn connection_info(host: Result<Host, ParseError>, port: i32, session_token: String) -> (r:
    Result<ConnectionInfo, Error>)
    ensures
        match info_of(
            match host {
                Ok(host) => Some(host@),
                Err(_) => None,
            },
            port,
            session_token@,
        ) {
            Ok(info) => r matches Ok(i) && i@ == info,
            Err(problem) => r matches Err(err) && tells(err, problem),
        },
        host matches Err(parse) ==> r matches Err(Error::Parse(err)) && err == parse,
{
    let host = match host {
        Ok(host) => host,
        Err(err) => {
            return Err(Error::Parse(err));
        },
    };
    match u16::try_from(port) {
        Ok(port) => Ok(ConnectionInfo { host, port, session_token }),
        Err(err) => Err(Error::ParsePort(err)),
    }
}

/// The URL of the remote host, as its text and its query, that the values make.
pub open spec fn url_of(entries: Seq<(Seq<char>, AstarteTypeModel)>) -> Result<
    (Seq<char>, Option<Seq<char>>),
    Problem,
> {
    match url_values(entries) {
        Err(problem) => Err(problem),
        Ok((host, port, session_token)) => match info_of(
            web_url::parsed_host(host),
            port,
            session_token,
        ) {
            Err(problem) => Err(problem),
            Ok(info) => match web_url::parsed_url(info.url_text()) {
                Some(url) => Ok(url),
                None => Err(Problem::Url),
            },
        },
    }
}

/// The result gives the URL, as its text and its query, or tells of the problem.
pub open spec fn makes(
    r: Result<Url, Error>,
    url: Result<(Seq<char>, Option<Seq<char>>), Problem>,
) -> bool {
    match url {
        Ok((text, query)) => r matches Ok(url) && url@.text == text && url@.query == query,
        Err(problem) => r matches Err(err) && tells(err, problem),
    }
}

proof fn lemma_typed_lookup(entries: Seq<(Seq<char>, AstarteType)>, k: Seq<char>)
    requires
        vec_map::distinct_keys(entries),
    ensures
        vec_map::lookup(typed_entries(entries), k) == match vec_map::lookup(entries, k) {
            Some(v) => Some(v@),
            None => None,
        },
{
    let typed = typed_entries(entries);
    if vec_map::has_key(entries, k) {
        let i = vec_map::position(entries, k);
        assert(typed[i].0 == k);
        vec_map::lemma_position(typed, i);
    } else if vec_map::has_key(typed, k) {
        let i = vec_map::position(typed, k);
        assert(entries[i].0 == k);
    }
}

/// The URL of the remote host that the values from Astarte make.
pub fn retrieve_url(map: &VecMap<String, AstarteType>) -> (r: Result<Url, Error>)
    ensures
        makes(r, url_of(typed_entries(map@))),
{
    proof {
        use_type_invariant(map);
        lemma_typed_lookup(map@, "host"@);
        lemma_typed_lookup(map@, "port"@);
        lemma_typed_lookup(map@, "session_token"@);
    }
    let host = match map.get(&"host".to_owned()) {
        Some(host) => host,
        None => {
            return Err(Error::MissingUrlInfo("Missing host (IP or domain name)".to_owned()));
        },
    };
    let port = match map.get(&"port".to_owned()) {
        Some(port) => port,
        None => {
            return Err(Error::MissingUrlInfo("Missing port value".to_owned()));
        },
    };
    let session_token = match map.get(&"session_token".to_owned()) {
        Some(session_token) => session_token,
        None => {
            return Err(Error::MissingUrlInfo("Missing session_token".to_owned()));
        },
    };
    match (host, port, session_token) {
        (
            AstarteType::String(host),
            AstarteType::Integer(port),
            AstarteType::String(session_token),
        ) => {
            let host = Host::parse(host.as_str());
            match connection_info(host, *port, session_token.clone()) {
                Ok(info) => Url::try_from(info),
                Err(err) => Err(err),
            }
        },
        _ => Err(Error::AstarteWrongType),
    }
}

/// The values that are sent for a remote host make its URL again, where the host is read as it is
/// printed. Where its print is refused they make none, and the host is told.
pub proof fn law_aggregate_makes_url(info: ConnectionInfoModel)
    ensures
        url_values(info.aggregate()) == Ok::<(Seq<char>, i32, Seq<char>), Problem>(
            (web_url::host_text(info.host), info.port as i32, info.session_token),
        ),
        match web_url::parsed_host(web_url::host_text(info.host)) {
            Some(host) => host == info.host ==> url_of(info.aggregate())
                == match web_url::parsed_url(info.url_text()) {
                Some(url) => Ok(url),
                None => Err(Problem::Url),
            },
            None => url_of(info.aggregate()) == Err::<
                (Seq<char>, Option<Seq<char>>),
                Problem,
            >(Problem::Host),
        },
{
    let entries = info.aggregate();
    lemma_names_differ();
    assert(vec_map::distinct_keys(entries));
    vec_map::lemma_position(entries, 0);
    vec_map::lemma_position(entries, 1);
    vec_map::lemma_position(entries, 2);
}

/// For every kind of host the text that is parsed as the URL is the scheme, the host in print, or
/// `localhost` for the loopback address, the port in decimal, and the whole of the session token
/// behind its name.
pub proof fn law_url_text(host: HostModel, port: u16, session_token: Seq<char>)
    ensures
        (ConnectionInfoModel { host, port, session_token }).url_text() == "ws://"@ + (match host {
            HostModel::Ipv4(0x7f00_0001) => "localhost"@,
            HostModel::Ipv4(address) => web_url::dotted(address),
            HostModel::Ipv6(address) => web_url::ipv6_text(address),
            HostModel::Domain(domain) => domain,
        }) + ":"@ + text::decimal(port as nat) + "/path?session_token="@ + session_token,
{
}

/// The text of the URL ends with the session token, so that two hosts that differ in the token alone
/// have different texts.
pub proof fn law_url_tells_tokens_apart(a: ConnectionInfoModel, b: ConnectionInfoModel)
    requires
        a.host == b.host,
        a.port == b.port,
    ensures
        a.url_text().len() >= a.session_token.len(),
        a.url_text().skip(a.url_text().len() - a.session_token.len()) == a.session_token,
        a.url_text() == b.url_text() ==> a.session_token == b.session_token,
{
    law_url_text(a.host, a.port, a.session_token);
    law_url_text(b.host, b.port, b.session_token);
    let front = a.url_text().take(a.url_text().len() - a.session_token.len());
    assert(a.url_text().skip(a.url_text().len() - a.session_token.len()) =~= a.session_token);
    assert(b.url_text().skip(b.url_text().len() - b.session_token.len()) =~= b.session_token);
    assert(a.url_text() =~= front + a.session_token);
    assert(b.url_text() =~= front + b.session_token);
    if a.url_text() == b.url_text() {
        assert(a.session_token.len() == b.session_token.len());
    }
}

/// Two hosts that differ in the port alone have different texts.
pub proof fn law_url_tells_ports_apart(a: ConnectionInfoModel, b: ConnectionInfoModel)
    requires
        a.host == b.host,
        a.session_token == b.session_token,
        a.url_text() == b.url_text(),
    ensures
        a.port == b.port,
{
    let front = "ws://"@ + a.url_host() + ":"@;
    let back = "/path?session_token="@ + a.session_token;
    assert(a.url_text() =~= front + text::decimal(a.port as nat) + back);
    assert(b.url_text() =~= front + text::decimal(b.port as nat) + back);
    assert(text::decimal(a.port as nat).len() == text::decimal(b.port as nat).len());
    assert(a.url_text().subrange(
        front.len() as int,
        (front.len() + text::decimal(a.port as nat).len()) as int,
    ) =~= text::decimal(a.port as nat));
    assert(b.url_text().subrange(
        front.len() as int,
        (front.len() + text::decimal(b.port as nat).len()) as int,
    ) =~= text::decimal(b.port as nat));
    text::law_decimal_tells_numbers_apart(a.port as nat, b.port as nat);
}

/// The values that are sent are three: the host in print, the port and the token, each under its
/// name.
pub proof fn law_values_sent(info: ConnectionInfoModel)
    ensures
        info.aggregate().len() == 3,
        vec_map::distinct_keys(info.aggregate()),
        vec_map::lookup(info.aggregate(), "host"@) == Some(
            AstarteTypeModel::String(web_url::host_text(info.host)),
        ),
        vec_map::lookup(info.aggregate(), "port"@) == Some(
            AstarteTypeModel::Integer(info.port as i32),
        ),
        vec_map::lookup(info.aggregate(), "session_token"@) == Some(
            AstarteTypeModel::String(info.session_token),
        ),
{
    let entries = info.aggregate();
    lemma_names_differ();
    vec_map::lemma_position(entries, 0);
    vec_map::lemma_position(entries, 1);
    vec_map::lemma_position(entries, 2);
}

/// The URL is made of the values under their three names, whatever else was sent: with a host that
/// is parsed and a port in range, it is what the text with that host, that port and that token is
/// parsed to.
pub proof fn law_url_of_values(
    entries: Seq<(Seq<char>, AstarteTypeModel)>,
    host: Seq<char>,
    port: u16,
    session_token: Seq<char>,
    parsed: HostModel,
)
    requires
        vec_map::lookup(entries, "host"@) == Some(AstarteTypeModel::String(host)),
        vec_map::lookup(entries, "port"@) == Some(AstarteTypeModel::Integer(port as i32)),
        vec_map::lookup(entries, "session_token"@) == Some(
            AstarteTypeModel::String(session_token),
        ),
        web_url::parsed_host(host) == Some(parsed),
    ensures
        ({
            let text = "ws://"@ + (match parsed {
                HostModel::Ipv4(0x7f00_0001) => "localhost"@,
                HostModel::Ipv4(address) => web_url::dotted(address),
                HostModel::Ipv6(address) => web_url::ipv6_text(address),
                HostModel::Domain(domain) => domain,
            }) + ":"@ + text::decimal(port as nat) + "/path?session_token="@ + session_token;
            match web_url::parsed_url(text) {
                Some(url) => url_of(entries) == Ok::<(Seq<char>, Option<Seq<char>>), Problem>(url),
                None => url_of(entries) == Err::<(Seq<char>, Option<Seq<char>>), Problem>(
                    Problem::Url,
                ),
            }
        }),
{
    law_url_text(parsed, port, session_token);
}

/// There is no URL where one of the three values is missing or of another type, the host is
/// malformed, or the port is out of range, and the error tells which it is, in that order.
pub proof fn law_no_url(entries: Seq<(Seq<char>, AstarteTypeModel)>, r: Result<Url, Error>)
    requires
        makes(r, url_of(entries)),
    ensures
        match (
            vec_map::lookup(entries, "host"@),
            vec_map::lookup(entries, "port"@),
            vec_map::lookup(entries, "session_token"@),
        ) {
            (Some(host), Some(port), Some(token)) => {
                let typed = host is String && port is Integer && token is String;
                let parsed = web_url::parsed_host(host->String_0);
                &&& !typed ==> r is Err && r->Err_0 is AstarteWrongType
                &&& typed && parsed is None ==> r is Err && r->Err_0 is Parse
                &&& typed && parsed is Some && !(0 <= port->Integer_0 <= 65535) ==> r is Err
                    && r->Err_0 is ParsePort
                &&& typed ==> !(r is Err && r->Err_0 is AstarteWrongType)
                &&& 0 <= port->Integer_0 <= 65535 ==> !(r is Err && r->Err_0 is ParsePort)
                &&& !(r is Err && r->Err_0 is MissingUrlInfo)
            },
            (None, _, _) => r matches Err(Error::MissingUrlInfo(info)) && info@
                == "Missing host (IP or domain name)"@,
            (Some(_), None, _) => r matches Err(Error::MissingUrlInfo(info)) && info@
                == "Missing port value"@,
            (Some(_), Some(_), None) => r matches Err(Error::MissingUrlInfo(info)) && info@
                == "Missing session_token"@,
        },
{
}

/// A value views as its type, with what it holds, under its name.
pub proof fn law_typed_entries(entries: Seq<(Seq<char>, AstarteType)>, i: int)
    requires
        0 <= i < entries.len(),
    ensures
        typed_entries(entries).len() == entries.len(),
        typed_entries(entries)[i].0 == entries[i].0,
        match entries[i].1 {
            AstarteType::String(s) => typed_entries(entries)[i].1 == AstarteTypeModel::String(s@),
            AstarteType::Integer(n) => typed_entries(entries)[i].1 == AstarteTypeModel::Integer(n),
            AstarteType::Other => typed_entries(entries)[i].1 is Other,
        },
{
}

/// What there is to know of the remote host is the host that was parsed, the port where it is in
/// range, and the whole token. The host is told before the port.
pub proof fn law_connection_info(host: HostModel, port: i32, session_token: Seq<char>)
    ensures
        0 <= port <= 65535 ==> (info_of(Some(host), port, session_token) matches Ok(info)
            && info.host == host && info.port as int == port as int && info.session_token
            == session_token),
        !(0 <= port <= 65535) ==> info_of(Some(host), port, session_token) == Err::<
            ConnectionInfoModel,
            Problem,
        >(Problem::Port),
        info_of(None, port, session_token) == Err::<ConnectionInfoModel, Problem>(Problem::Host),
{
}

/// An error tells of a problem by its kind, and of what is missing by the text.
pub proof fn law_problems_are_told(err: Error, what: Seq<char>)
    ensures
        tells(err, Problem::Missing(what)) <==> (err matches Error::MissingUrlInfo(info) && info@
            == what),
        tells(err, Problem::WrongType) <==> err is AstarteWrongType,
        tells(err, Problem::Host) <==> err is Parse,
        tells(err, Problem::Port) <==> err is ParsePort,
        tells(err, Problem::Url) <==> err is Parse,
{
}

} // verus!
