//! The messages between clients and the kernel, the handshake that opens a
//! connection, and the length prefix that frames each message.
use vstd::prelude::*;
use crate::cli::{CliAction, CliActionResponse};
use crate::logging::LogLevel;
use crate::networking::subscription::{SubscribeTopic, UpdateMode, TopicPayload};
use crate::text::str_eq;

verus! {

/// The identifier of a client session.
pub type SessionID = u64;

/// The identifier of a physical connection.
pub type ConnectionID = u64;

/// What a client sends first to check that it speaks the same protocol.
#[derive(Debug)]
pub struct HandshakeRequest {
    /// Always `REKTAL`.
    pub magic_string: String,
    /// A hash of the message definitions the client was built with.
    pub protocol_hash: String,
    /// The client's version.
    pub client_version: String,
}

/// The kernel's answer to a handshake.
#[derive(Debug)]
pub enum HandshakeResponse {
    /// The protocols match (the wire format calls this variant `Ok`).
    Accepted,
    /// The protocols differ; the kernel's version is given.
    Mismatch { server_version: String },
}

/// Why a handshake failed.
#[derive(Debug)]
pub enum HandshakeError {
    /// The protocols differ.
    VersionMismatch { server_version: String, client_version: String },
    /// The request is not a handshake of this protocol.
    InvalidData(String),
}

/// The permissions of a user.
#[derive(Debug, PartialEq, Eq, Structural, Copy, Clone)]
pub enum UserRole {
    /// Edits the show and drives the outputs.
    Programmer,
    /// Edits the show without affecting the outputs.
    BlindProgrammer,
    /// Runs the show without editing it.
    Showrunner,
}

/// The displayed name of a role.
pub open spec fn role_name(r: UserRole) -> Seq<char> {
    match r {
        UserRole::Programmer => "programmer"@,
        UserRole::BlindProgrammer => "blind programmer"@,
        UserRole::Showrunner => "showrunner"@,
    }
}

impl UserRole {
    /// The role's displayed name.
    pub fn name(&self) -> (r: &'static str)
        ensures
            r@ == role_name(*self),
    {
        match self {
            UserRole::Programmer => "programmer",
            UserRole::BlindProgrammer => "blind programmer",
            UserRole::Showrunner => "showrunner",
        }
    }
}

/// A resource a client can lock for editing.
#[derive(Debug, PartialEq, Eq, Structural, Copy, Clone)]
pub enum EditableResource {
    Cuelist,
}

/// A message from a client.
#[derive(Debug)]
pub enum TcpClientMessage {
    /// Open a session.
    Login { password: String, user_name: String, user_role: UserRole },
    /// Close the session.
    Logout,
    /// Resume a session by its token.
    Relogin { user_id: SessionID, clear_subscriptions: bool },
    /// Receive updates of a topic.
    Subscribe { topic: SubscribeTopic, update_mode: UpdateMode },
    /// Stop receiving updates of a topic.
    Unsubscribe { topic: SubscribeTopic },
    /// Run a command line.
    ExecuteCommand { command: String, response_id: u32 },
    /// Execute an action.
    ExecuteImplicitCommand { command: CliAction, response_id: u32 },
    /// Ask for the edit lock of a resource.
    RequestEdit(EditableResource),
    /// Submit an edited resource.
    SubmitEdit { resource: EditableResource, new_data: Vec<u8> },
    /// Give the edit lock of a resource back.
    DropEditLock(EditableResource),
}

/// A message from the kernel.
#[derive(Debug)]
pub enum TcpServerMessage {
    /// The client is not logged in.
    Unauthenticated,
    /// A session was opened; its token.
    LoginOk { token: SessionID },
    /// Logging in failed.
    LoginFailed { reason: String },
    /// A session was resumed.
    ReloginOk { token: SessionID },
    /// Resuming a session failed.
    ReloginFailed { reason: String },
    /// The session was closed.
    LogoutOk,
    /// The kernel closed this connection.
    Kicked { reason: String },
    /// The output of a command line.
    CommandOutput { answer: (LogLevel, String), response_id: u32 },
    /// The answer to an action.
    ImplicitCommandOutput { answer: CliActionResponse, response_id: u32 },
    /// New data of a subscribed topic.
    TopicUpdate { data: TopicPayload },
    /// The edit lock was granted, with the resource.
    EditGranted { resource: EditableResource, current_data: Vec<u8> },
    /// The edit lock was refused.
    EditDenied { resource: EditableResource, reason: String },
    /// The edit lock was given back.
    DropEditAck(EditableResource),
    /// The kernel is shutting down.
    ShutdownAnnouncement,
}

/// Checks a handshake request against the kernel's protocol hash and
/// version: a wrong magic string is invalid data (nothing is answered); a
/// different hash is answered with a mismatch and refused; otherwise it is
/// answered with `Accepted` and accepted.
pub fn check_handshake(request: &HandshakeRequest, server_hash: &str, server_version: &str)
    -> (r: (Option<HandshakeResponse>, Result<(), HandshakeError>))
    ensures
        request.magic_string@ != "REKTAL"@ ==> r.0 is None && (r.1 matches Err(HandshakeError::InvalidData(m))
            && m@ == "Wrong magic string. Client is not an Rektal-Client"@),
        request.magic_string@ == "REKTAL"@ && request.protocol_hash@ != server_hash@ ==>
            (r.0 matches Some(HandshakeResponse::Mismatch { server_version: v }) && v@ == server_version@)
            && (r.1 matches Err(HandshakeError::VersionMismatch { server_version: v, client_version: c })
                && v@ == server_version@ && c@ == request.client_version@),
        request.magic_string@ == "REKTAL"@ && request.protocol_hash@ == server_hash@ ==>
            (r.0 matches Some(HandshakeResponse::Accepted)) && r.1 is Ok,
{
    if !str_eq(request.magic_string.as_str(), "REKTAL") {
        return (None, Err(HandshakeError::InvalidData("Wrong magic string. Client is not an Rektal-Client".to_owned())));
    }
    if !str_eq(request.protocol_hash.as_str(), server_hash) {
        return (
            Some(HandshakeResponse::Mismatch { server_version: server_version.to_owned() }),
            Err(HandshakeError::VersionMismatch {
                server_version: server_version.to_owned(),
                client_version: request.client_version.clone(),
            }),
        );
    }
    (Some(HandshakeResponse::Accepted), Ok(()))
}

/// The big-endian bytes of a 32-bit length.
pub open spec fn be_u32_bytes(n: u32) -> Seq<u8> {
    seq![(n / 0x1000000) as u8, ((n / 0x10000) % 256) as u8, ((n / 0x100) % 256) as u8, (n % 256) as u8]
}

/// The number four big-endian bytes denote.
pub open spec fn be_u32_value(b: Seq<u8>) -> nat {
    (b[0] as nat) * 0x1000000 + (b[1] as nat) * 0x10000 + (b[2] as nat) * 0x100 + (b[3] as nat)
}

/// The length prefix of a message of `len` bytes: the length as a 32-bit
/// number (its low 32 bits), big-endian.
pub fn frame_header(len: usize) -> (r: [u8; 4])
    ensures
        r@ == be_u32_bytes(len as u32),
{
    let n: u32 = #[verifier::truncate] (len as u32);
    [(n / 0x1000000) as u8, ((n / 0x10000) % 256) as u8, ((n / 0x100) % 256) as u8, (n % 256) as u8]
}

/// The length a prefix announces.
pub fn frame_length(header: [u8; 4]) -> (r: u32)
    ensures
        r as nat == be_u32_value(header@),
{
    (header[0] as u32) * 0x1000000 + (header[1] as u32) * 0x10000 + (header[2] as u32) * 0x100 + (header[3] as u32)
}

/// Reading back a prefix gives the length it was made from (modulo 2^32).
pub proof fn law_frame_round_trip(n: u32)
    ensures
        be_u32_value(be_u32_bytes(n)) == n,
{
    let b0 = (n / 0x1000000) as u8;
    let b1 = ((n / 0x10000) % 256) as u8;
    let b2 = ((n / 0x100) % 256) as u8;
    let b3 = (n % 256) as u8;
    assert(be_u32_bytes(n)[0] == b0 && be_u32_bytes(n)[1] == b1 && be_u32_bytes(n)[2] == b2 && be_u32_bytes(n)[3] == b3);
    assert((b0 as nat) * 0x1000000 + (b1 as nat) * 0x10000 + (b2 as nat) * 0x100 + (b3 as nat) == n) by (nonlinear_arith)
        requires
            b0 == n / 0x1000000,
            b1 == (n / 0x10000) % 256,
            b2 == (n / 0x100) % 256,
            b3 == n % 256,
            n <= 0xFFFF_FFFF,
    ;
}

} // verus!
