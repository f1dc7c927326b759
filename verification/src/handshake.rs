//! The handshake: the client's `Hello`, and the server's answer to it.
use subtle::ConstantTimeEq;
use vstd::prelude::*;
use vstd::string::*;

use crate::text::{join, owned, push_decimal, decimal};

verus! {

/// Version of the wire protocol; it changes when the format changes
/// incompatibly.
pub const PROTOCOL_VERSION: u16 = 1;

/// The first message of a session, sent by the client right after the
/// WebSocket upgrade.
#[derive(Debug, Clone)]
pub struct Hello {
    pub protocol_version: u16,
    pub token: String,
    /// Informational name of the client, shown in server logs.
    pub client_name: Option<String>,
}

/// The server's reply to a [`Hello`].
#[derive(Debug, Clone)]
pub enum HelloAck {
    Accepted { server_name: String },
    Rejected { kind: HelloError, message: String },
}

/// Why the server refused a client.
#[derive(Debug, Clone, Copy, PartialEq, Eq, Structural)]
pub enum HelloError {
    UnsupportedVersion,
    AuthFailed,
    AlreadyConnected,
}

/// `subtle::ConstantTimeEq::ct_eq` on two byte slices, turned into a `bool`.
/// The crate's source answers `false` at once when the lengths differ and
/// otherwise compares every byte, so the answer is byte-wise equality.
#[verifier::external_body]
fn constant_time_eq(a: &[u8], b: &[u8]) -> (r: bool)
    ensures
        r == (a@ == b@),
{
    bool::from(a.ct_eq(b))
}

/// Compares a presented token with the expected one in time that does not
/// depend on where they differ.
pub fn tokens_match(presented: &str, expected: &str) -> (r: bool)
    ensures
        r == (presented@ == expected@),
{
    let r = constant_time_eq(presented.as_bytes(), expected.as_bytes());
    proof {
        if r {
            crate::text::lemma_utf8_injective(presented@, expected@);
        }
    }
    r
}

impl HelloError {
    /// The variant's name, as `{:?}` prints it.
    pub open spec fn spec_name(self) -> Seq<char> {
        match self {
            HelloError::UnsupportedVersion => "UnsupportedVersion"@,
            HelloError::AuthFailed => "AuthFailed"@,
            HelloError::AlreadyConnected => "AlreadyConnected"@,
        }
    }

    /// The variant's name, as `{:?}` prints it.
    pub fn name(&self) -> (r: String)
        ensures
            r@ == self.spec_name(),
    {
        match self {
            HelloError::UnsupportedVersion => owned("UnsupportedVersion"),
            HelloError::AuthFailed => owned("AuthFailed"),
            HelloError::AlreadyConnected => owned("AlreadyConnected"),
        }
    }
}

impl Hello {
    /// The `Hello` a client sends: this protocol version, its token and
    /// its optional name.
    pub fn new(token: String, client_name: Option<String>) -> (h: Hello)
        ensures
            h.protocol_version == PROTOCOL_VERSION,
            h.token == token,
            h.client_name == client_name,
    {
        Hello { protocol_version: PROTOCOL_VERSION, token, client_name }
    }
}

/// The text that refuses a client of another protocol version.
pub open spec fn version_mismatch_text(client_version: u16) -> Seq<char> {
    "server speaks v"@ + decimal(PROTOCOL_VERSION as nat) + ", client tried v"@ + decimal(
        client_version as nat,
    )
}

/// The text that refuses a wrong token.
pub open spec fn auth_failed_text() -> Seq<char> {
    "invalid token"@
}

/// The text that refuses a second client.
pub open spec fn already_connected_text() -> Seq<char> {
    "another client is already connected"@
}

/// The server's answer to `hello`: the version is checked first, then the
/// token, then whether another client holds the tunnel; a client that
/// passes all three is welcomed with the server's name.
pub fn answer_hello(hello: &Hello, expected_token: &str, tunnel_active: bool, server_name: &str) -> (ack: HelloAck)
    ensures
        hello.protocol_version != PROTOCOL_VERSION ==> (ack matches HelloAck::Rejected { kind, message }
            && kind == HelloError::UnsupportedVersion
            && message@ == version_mismatch_text(hello.protocol_version)),
        hello.protocol_version == PROTOCOL_VERSION && hello.token@ != expected_token@ ==> (
        ack matches HelloAck::Rejected { kind, message } && kind == HelloError::AuthFailed && message@
            == auth_failed_text()),
        hello.protocol_version == PROTOCOL_VERSION && hello.token@ == expected_token@
            && tunnel_active ==> (ack matches HelloAck::Rejected { kind, message } && kind
            == HelloError::AlreadyConnected && message@ == already_connected_text()),
        hello.protocol_version == PROTOCOL_VERSION && hello.token@ == expected_token@
            && !tunnel_active ==> (ack matches HelloAck::Accepted { server_name: name } && name@
            == server_name@),
{
    if hello.protocol_version != PROTOCOL_VERSION {
        let mut message = owned("server speaks v");
        push_decimal(&mut message, PROTOCOL_VERSION as u64);
        message.append(", client tried v");
        push_decimal(&mut message, hello.protocol_version as u64);
        return HelloAck::Rejected { kind: HelloError::UnsupportedVersion, message };
    }
    if !tokens_match(hello.token.as_str(), expected_token) {
        return HelloAck::Rejected { kind: HelloError::AuthFailed, message: owned("invalid token") };
    }
    if tunnel_active {
        return HelloAck::Rejected {
            kind: HelloError::AlreadyConnected,
            message: owned("another client is already connected"),
        };
    }
    HelloAck::Accepted { server_name: owned(server_name) }
}

/// The client's reading of the server's answer: the server's name when it
/// was accepted, else the refusal as `"{kind:?}: {message}"`.
pub fn interpret_ack(ack: &HelloAck) -> (r: Result<String, String>)
    ensures
        ack matches HelloAck::Accepted { server_name } ==> (r matches Ok(name) && name@ == server_name@),
        ack matches HelloAck::Rejected { kind, message } ==> (r matches Err(text) && text@
            == kind.spec_name() + ": "@ + message@),
{
    match ack {
        HelloAck::Accepted { server_name } => Ok(owned(server_name.as_str())),
        HelloAck::Rejected { kind, message } => {
            let head = join(kind.name().as_str(), ": ");
            Err(join(head.as_str(), message.as_str()))
        }
    }
}

/// A client refused for its version is told both versions: the text starts
/// with the server's own version and ends with the decimal rendering of the
/// version the client tried, which reads back as that version.
pub proof fn lemma_version_text_names_versions(client_version: u16)
    ensures
        ({
            let t = version_mismatch_text(client_version);
            let d = decimal(client_version as nat);
            &&& t.take(15) == "server speaks v"@
            &&& t.len() > d.len()
            &&& t.skip(t.len() - d.len()) == d
            &&& crate::text::digits_value(t.skip(t.len() - d.len())) == client_version
        }),
{
    reveal_strlit("server speaks v");
    reveal_strlit(", client tried v");
    crate::text::lemma_decimal_reads_back(client_version as nat);
    crate::text::lemma_decimal_reads_back(PROTOCOL_VERSION as nat);
    let t = version_mismatch_text(client_version);
    let d = decimal(client_version as nat);
    let head = "server speaks v"@ + decimal(PROTOCOL_VERSION as nat) + ", client tried v"@;
    assert(t == head + d);
    assert(t.skip(t.len() - d.len()) =~= d);
    assert(t.take(15) =~= "server speaks v"@);
}

/// The three refusals are told apart by their kind's name.
pub proof fn lemma_refusal_names_differ(a: HelloError, b: HelloError)
    ensures
        a.spec_name() == b.spec_name() <==> a == b,
{
    reveal_strlit("UnsupportedVersion");
    reveal_strlit("AuthFailed");
    reveal_strlit("AlreadyConnected");
    if a != b {
        assert(a.spec_name().len() != b.spec_name().len() || a.spec_name()[0] != b.spec_name()[0]
            || a.spec_name()[1] != b.spec_name()[1]);
    }
}

} // verus!
