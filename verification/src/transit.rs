//! The connection that the bytes of a file take: how it is described to the user,
//! and which relay is offered to the peer.

use vstd::prelude::*;

verus! {

/// How the two sides are connected.
#[derive(Debug)]
pub enum ConnectionType {
    /// Straight to the peer.
    Direct,
    /// Over a relay, whose name may be known.
    Relay { name: Option<String> },
}

/// An established connection.
#[derive(Debug)]
pub struct TransitInfo {
    /// Straight to the peer, or over a relay.
    pub conn_type: ConnectionType,
    /// The address at the other end, as text: the peer's, or the relay's.
    pub peer_addr: String,
}

/// Where a relay can be reached over TCP.
#[derive(Debug)]
pub struct DirectHint {
    pub hostname: String,
    pub port: u16,
}

/// A relay server that the two sides may meet at.
#[derive(Debug)]
pub struct RelayHint {
    /// What the relay is called, if it has a name.
    pub name: Option<String>,
    /// Its TCP endpoints.
    pub tcp: Vec<DirectHint>,
    /// The URLs of its WebSocket endpoints.
    pub ws: Vec<String>,
}

/// The words for a connection over the relay `name`. They are what the debug
/// format of `magic_wormhole::transit::ConnectionType` gives, which quotes the
/// name and escapes what cannot be shown.
pub uninterp spec fn named_relay_words(name: Seq<char>) -> Seq<char>;

/// A name of ASCII letters, digits, dots and dashes, as host names are.
pub open spec fn is_host_name(name: Seq<char>) -> bool {
    forall|k: int|
        0 <= k < name.len() ==> {
            let c = #[trigger] name[k];
            'a' <= c <= 'z' || 'A' <= c <= 'Z' || '0' <= c <= '9' || c == '.' || c == '-'
        }
}

/// The words for a connection over the relay `name`, where it is a host name.
pub open spec fn host_relay_words(name: Seq<char>) -> Seq<char> {
    "Relay { name: Some(\""@ + name + "\") }"@
}

/// The words for a kind of connection.
pub open spec fn connection_words(conn_type: ConnectionType) -> Seq<char> {
    match conn_type {
        ConnectionType::Direct => "Direct"@,
        ConnectionType::Relay { name: None } => "Relay { name: None }"@,
        ConnectionType::Relay { name: Some(name) } => named_relay_words(name@),
    }
}

/// The line that describes a connection.
pub open spec fn transit_line(info: TransitInfo) -> Seq<char> {
    connection_words(info.conn_type) + " peer="@ + info.peer_addr@
}

/// A connection is described by its kind and then by the whole address at the other
/// end: two connections of one kind differ in their lines as they do in their
/// addresses.
pub proof fn lines_tell_kind_and_address(info: TransitInfo, other: TransitInfo)
    ensures
        info.conn_type is Direct ==> transit_line(info) == "Direct peer="@ + info.peer_addr@,
        info.conn_type == (ConnectionType::Relay { name: None }) ==> transit_line(info)
            == "Relay { name: None } peer="@ + info.peer_addr@,
        info.conn_type matches ConnectionType::Relay { name: Some(name) } ==> transit_line(info)
            == named_relay_words(name@) + " peer="@ + info.peer_addr@,
        info.conn_type == other.conn_type && transit_line(info) == transit_line(other)
            ==> info.peer_addr@ == other.peer_addr@,
{
    reveal_strlit("Direct");
    reveal_strlit(" peer=");
    reveal_strlit("Direct peer=");
    reveal_strlit("Relay { name: None }");
    reveal_strlit("Relay { name: None } peer=");
    assert("Direct"@ + " peer="@ =~= "Direct peer="@);
    assert("Relay { name: None }"@ + " peer="@ =~= "Relay { name: None } peer="@);
    let front = connection_words(info.conn_type) + " peer="@;
    assert(transit_line(info).skip(front.len() as int) =~= info.peer_addr@);
    if info.conn_type == other.conn_type {
        assert(transit_line(other).skip(front.len() as int) =~= other.peer_addr@);
    }
}

/// The debug format of `magic_wormhole::transit::ConnectionType`.
///
/// Trusted: the format is the derived one, which prints the variant and, in
/// braces, its field. What it makes of a relay's name has a name of its own; a
/// host name comes out unchanged, in double quotes.
#[verifier::external_body]
fn connection_text(conn_type: &ConnectionType) -> (text: String)
    ensures
        match *conn_type {
            ConnectionType::Direct => text@ == "Direct"@,
            ConnectionType::Relay { name: None } => text@ == "Relay { name: None }"@,
            ConnectionType::Relay { name: Some(name) } => text@ == named_relay_words(name@) && (
            is_host_name(name@) ==> text@ == host_relay_words(name@)),
        },
{
    let outside = match conn_type {
        ConnectionType::Direct => magic_wormhole::transit::ConnectionType::Direct,
        ConnectionType::Relay { name } => magic_wormhole::transit::ConnectionType::Relay {
            name: name.clone(),
        },
    };
    format!("{:?}", outside)
}

/// The relay that is offered where none is configured.
///
/// Trusted: `magic_wormhole::transit::RelayHint::from_urls`, for the URL
/// `magic_wormhole::transit::DEFAULT_RELAY_SERVER` and without a name, accepts
/// the URL and gives one TCP endpoint, the host and the port of that URL, and no
/// WebSocket endpoint.
#[verifier::external_body]
fn default_relay_hint() -> (hint: RelayHint)
    ensures
        hint.name is None,
        hint.tcp@.len() == 1,
        hint.tcp@[0].hostname@ == "transit.magic-wormhole.io"@,
        hint.tcp@[0].port == 4001,
        hint.ws@.len() == 0,
{
    let url = magic_wormhole::transit::DEFAULT_RELAY_SERVER.parse().unwrap();
    let hint = magic_wormhole::transit::RelayHint::from_urls(None, [url]).unwrap();
    let tcp = hint.tcp.into_iter().map(|t| DirectHint { hostname: t.hostname, port: t.port });
    let ws = hint.ws.into_iter().map(|u| u.to_string());
    RelayHint { name: hint.name, tcp: tcp.collect(), ws: ws.collect() }
}

/// The line for a connection of which `words` tells the kind.
pub fn transit_text(words: &str, peer_addr: &str) -> (line: String)
    ensures
        line@ == words@ + " peer="@ + peer_addr@,
{
    words.to_owned().concat(" peer=").concat(peer_addr)
}

/// Describes a connection to the user: direct or over a relay, and the address
/// at the other end.
pub fn describe_transit(info: &TransitInfo) -> (line: String)
    ensures
        line@ == transit_line(*info),
        line@ == match info.conn_type {
            ConnectionType::Direct => "Direct"@,
            ConnectionType::Relay { name: None } => "Relay { name: None }"@,
            ConnectionType::Relay { name: Some(name) } => named_relay_words(name@),
        } + " peer="@ + info.peer_addr@,
        info.conn_type matches ConnectionType::Relay { name: Some(name) } ==> is_host_name(name@)
            ==> line@ == host_relay_words(name@) + " peer="@ + info.peer_addr@,
{
    let words = connection_text(&info.conn_type);
    transit_text(words.as_str(), info.peer_addr.as_str())
}

/// The relays that are offered to the peer: the public default one.
pub fn default_relay_hints() -> (hints: Vec<RelayHint>)
    ensures
        hints@.len() == 1,
        hints@[0].name is None,
        hints@[0].tcp@.len() == 1,
        hints@[0].tcp@[0].hostname@ == "transit.magic-wormhole.io"@,
        hints@[0].tcp@[0].port == 4001,
        hints@[0].ws@.len() == 0,
{
    let mut hints: Vec<RelayHint> = Vec::new();
    hints.push(default_relay_hint());
    hints
}

} // verus!
