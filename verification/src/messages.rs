//! The messages exchanged with clients, and the effects a request has on
//! the streams that the server keeps open.

use vstd::prelude::*;
use crate::names::names;

verus! {

/// What a signal carries.
#[derive(Clone, Copy, Debug, PartialEq, Eq, Structural)]
pub enum SignalKind {
    SdpOffer,
    SdpAnswer,
    IceCandidate,
    MemberJoined,
    MemberLeft,
    HostChanged,
}

impl SignalKind {
    /// The number that stands for the kind on the wire.
    pub open spec fn wire_code(self) -> i32 {
        match self {
            SignalKind::SdpOffer => 0,
            SignalKind::SdpAnswer => 1,
            SignalKind::IceCandidate => 2,
            SignalKind::MemberJoined => 3,
            SignalKind::MemberLeft => 4,
            SignalKind::HostChanged => 5,
        }
    }

    /// The number that stands for the kind on the wire.
    pub fn code(self) -> (r: i32)
        ensures
            r == self.wire_code(),
    {
        match self {
            SignalKind::SdpOffer => 0,
            SignalKind::SdpAnswer => 1,
            SignalKind::IceCandidate => 2,
            SignalKind::MemberJoined => 3,
            SignalKind::MemberLeft => 4,
            SignalKind::HostChanged => 5,
        }
    }

    /// The kind that `code` stands for on the wire, if it stands for one.
    pub fn from_code(code: i32) -> (r: Option<SignalKind>)
        ensures
            match r {
                Some(kind) => kind.wire_code() == code,
                None => forall|kind: SignalKind| kind.wire_code() != code,
            },
    {
        match code {
            0 => Some(SignalKind::SdpOffer),
            1 => Some(SignalKind::SdpAnswer),
            2 => Some(SignalKind::IceCandidate),
            3 => Some(SignalKind::MemberJoined),
            4 => Some(SignalKind::MemberLeft),
            5 => Some(SignalKind::HostChanged),
            _ => None,
        }
    }

    /// The short name used in the server's log lines.
    pub fn label(self) -> (r: &'static str)
        ensures
            r@ == match self {
                SignalKind::SdpOffer => "offer"@,
                SignalKind::SdpAnswer => "answer"@,
                SignalKind::IceCandidate => "ice"@,
                _ => "unknown"@,
            },
    {
        match self {
            SignalKind::SdpOffer => "offer",
            SignalKind::SdpAnswer => "answer",
            SignalKind::IceCandidate => "ice",
            _ => "unknown",
        }
    }
}

/// A control-plane message: an SDP offer or answer, an ICE candidate, or a
/// membership or host event.
#[derive(Debug)]
pub struct Signal {
    pub from_user: String,
    pub to_user: String,
    pub session_id: String,
    pub kind: SignalKind,
    pub payload: String,
}

pub struct SignalView {
    pub from_user: Seq<char>,
    pub to_user: Seq<char>,
    pub session_id: Seq<char>,
    pub kind: SignalKind,
    pub payload: Seq<char>,
}

impl View for Signal {
    type V = SignalView;

    open spec fn view(&self) -> SignalView {
        SignalView {
            from_user: self.from_user@,
            to_user: self.to_user@,
            session_id: self.session_id@,
            kind: self.kind,
            payload: self.payload@,
        }
    }
}

impl Clone for Signal {
    fn clone(&self) -> (r: Self)
        ensures
            r@ == self@,
    {
        Signal {
            from_user: self.from_user.clone(),
            to_user: self.to_user.clone(),
            session_id: self.session_id.clone(),
            kind: self.kind,
            payload: self.payload.clone(),
        }
    }
}

/// The event signal that tells a session's streams about `payload`: it has
/// no addressee.
pub open spec fn event_signal(
    kind: SignalKind,
    from: Seq<char>,
    session_id: Seq<char>,
    payload: Seq<char>,
) -> SignalView {
    SignalView { from_user: from, to_user: Seq::empty(), session_id, kind, payload }
}

/// One chat line.
#[derive(Debug)]
pub struct ChatMessage {
    pub username: String,
    pub content: String,
    /// Unix seconds at the server.
    pub timestamp: i64,
}

pub struct ChatMessageView {
    pub username: Seq<char>,
    pub content: Seq<char>,
    pub timestamp: i64,
}

impl View for ChatMessage {
    type V = ChatMessageView;

    open spec fn view(&self) -> ChatMessageView {
        ChatMessageView {
            username: self.username@,
            content: self.content@,
            timestamp: self.timestamp,
        }
    }
}

/// One line of the public session list.
#[derive(Debug)]
pub struct SessionInfo {
    pub id: String,
    pub name: String,
    pub member_count: u32,
    pub is_public: bool,
    pub max_members: u32,
}

pub struct SessionInfoView {
    pub id: Seq<char>,
    pub name: Seq<char>,
    pub member_count: u32,
    pub is_public: bool,
    pub max_members: u32,
}

impl View for SessionInfo {
    type V = SessionInfoView;

    open spec fn view(&self) -> SessionInfoView {
        SessionInfoView {
            id: self.id@,
            name: self.name@,
            member_count: self.member_count,
            is_public: self.is_public,
            max_members: self.max_members,
        }
    }
}

/// An ICE server as the clients are told of it.
#[derive(Debug)]
pub struct IceServer {
    pub url: String,
    pub username: String,
    pub credential: String,
    pub name: String,
}

pub struct IceServerView {
    pub url: Seq<char>,
    pub username: Seq<char>,
    pub credential: Seq<char>,
    pub name: Seq<char>,
}

impl View for IceServer {
    type V = IceServerView;

    open spec fn view(&self) -> IceServerView {
        IceServerView {
            url: self.url@,
            username: self.username@,
            credential: self.credential@,
            name: self.name@,
        }
    }
}

/// The failure classes of the request surface.
#[derive(Clone, Copy, Debug, PartialEq, Eq, Structural)]
pub enum Code {
    NotFound,
    ResourceExhausted,
    InvalidArgument,
    Internal,
}

/// A failed request: its class and a message for the caller.
#[derive(Debug)]
pub struct Status {
    pub code: Code,
    pub message: String,
}

impl Status {
    pub fn not_found(message: &str) -> (r: Status)
        ensures
            r.code == Code::NotFound,
            r.message@ == message@,
    {
        Status { code: Code::NotFound, message: message.to_owned() }
    }

    pub fn resource_exhausted(message: &str) -> (r: Status)
        ensures
            r.code == Code::ResourceExhausted,
            r.message@ == message@,
    {
        Status { code: Code::ResourceExhausted, message: message.to_owned() }
    }

    pub fn invalid_argument(message: &str) -> (r: Status)
        ensures
            r.code == Code::InvalidArgument,
            r.message@ == message@,
    {
        Status { code: Code::InvalidArgument, message: message.to_owned() }
    }

    pub fn internal(message: &str) -> (r: Status)
        ensures
            r.code == Code::Internal,
            r.message@ == message@,
    {
        Status { code: Code::Internal, message: message.to_owned() }
    }
}

#[derive(Debug)]
pub struct GetServerInfoRequest {}

#[derive(Debug)]
pub struct GetServerInfoResponse {
    pub server_name: String,
    pub motd: String,
    pub ice_servers: Vec<IceServer>,
}

#[derive(Debug)]
pub struct ListSessionsRequest {}

#[derive(Debug)]
pub struct ListSessionsResponse {
    pub sessions: Vec<SessionInfo>,
}

#[derive(Debug)]
pub struct CreateSessionRequest {
    pub username: String,
    pub is_public: bool,
    pub max_members: u32,
}

#[derive(Debug)]
pub struct CreateSessionResponse {
    pub session_id: String,
    pub session_name: String,
    pub is_public: bool,
    pub max_members: u32,
    pub existing_peers: Vec<String>,
    pub host: String,
}

#[derive(Debug)]
pub struct JoinSessionRequest {
    pub session_id: String,
    pub username: String,
}

#[derive(Debug)]
pub struct JoinSessionResponse {
    pub session_id: String,
    pub session_name: String,
    pub is_public: bool,
    pub max_members: u32,
    pub existing_peers: Vec<String>,
    pub host: String,
}

#[derive(Debug)]
pub struct LeaveSessionRequest {
    pub session_id: String,
    pub username: String,
}

#[derive(Debug)]
pub struct LeaveSessionResponse {}

#[derive(Debug)]
pub struct GetMembersRequest {
    pub session_id: String,
}

#[derive(Debug)]
pub struct GetMembersResponse {
    pub members: Vec<String>,
}

#[derive(Debug)]
pub struct SendMessageRequest {
    pub session_id: String,
    pub username: String,
    pub content: String,
}

#[derive(Debug)]
pub struct SendMessageResponse {}

#[derive(Debug)]
pub struct SendSignalRequest {
    pub signal: Option<Signal>,
}

#[derive(Debug)]
pub struct SendSignalResponse {}

#[derive(Debug)]
pub struct StreamMessagesRequest {
    pub session_id: String,
    pub username: String,
}

#[derive(Debug)]
pub struct StreamSignalsRequest {
    pub session_id: String,
    pub username: String,
}

#[derive(Debug)]
pub struct StreamSessionUpdatesRequest {}

#[derive(Debug)]
pub struct StreamGlobalMembersRequest {}

#[derive(Debug)]
pub struct SessionsUpdatedEvent {
    pub sessions: Vec<SessionInfo>,
}

#[derive(Debug)]
pub struct GlobalMembersEvent {
    pub members: Vec<String>,
}

/// What a client is told of the session it created or joined.
#[verifier::ext_equal]
pub struct SessionReplyView {
    pub session_id: Seq<char>,
    pub session_name: Seq<char>,
    pub is_public: bool,
    pub max_members: u32,
    pub existing_peers: Seq<Seq<char>>,
    pub host: Seq<char>,
}

impl View for CreateSessionResponse {
    type V = SessionReplyView;

    open spec fn view(&self) -> SessionReplyView {
        SessionReplyView {
            session_id: self.session_id@,
            session_name: self.session_name@,
            is_public: self.is_public,
            max_members: self.max_members,
            existing_peers: names(self.existing_peers@),
            host: self.host@,
        }
    }
}

impl View for JoinSessionResponse {
    type V = SessionReplyView;

    open spec fn view(&self) -> SessionReplyView {
        SessionReplyView {
            session_id: self.session_id@,
            session_name: self.session_name@,
            is_public: self.is_public,
            max_members: self.max_members,
            existing_peers: names(self.existing_peers@),
            host: self.host@,
        }
    }
}

} // verus!
