//! The payloads that the client's commands hand to the user interface,
//! and how they are made from the server's messages.

use vstd::prelude::*;
use crate::client::state::{entry_views, IceServerEntry};
use crate::clock::{read_clock, timestamp_from_reading};
use crate::messages::{
    ChatMessage, CreateSessionResponse, GetServerInfoResponse, IceServerView,
    JoinSessionResponse, SessionInfo, SessionInfoView, SessionReplyView,
};
use crate::names::names;
use crate::service::server_views;

verus! {

/// The id of the session that every connected user can chat in.
pub const GLOBAL_SESSION_ID: &'static str = "__global__";

/// An ICE server, for the user interface.
#[derive(Clone, Debug)]
pub struct IceServerPayload {
    pub url: String,
    pub username: String,
    pub credential: String,
    pub name: String,
}

impl View for IceServerPayload {
    type V = IceServerView;

    open spec fn view(&self) -> IceServerView {
        IceServerView {
            url: self.url@,
            username: self.username@,
            credential: self.credential@,
            name: self.name@,
        }
    }
}

/// The payloads of a vector.
pub open spec fn payload_views(v: Seq<IceServerPayload>) -> Seq<IceServerView> {
    Seq::new(v.len(), |i: int| v[i]@)
}

/// What the server says of itself, for the user interface.
#[derive(Clone, Debug)]
pub struct ServerInfoPayload {
    pub server_name: String,
    pub motd: String,
    pub ice_servers: Vec<IceServerPayload>,
}

/// One line of the session list, for the user interface.
#[derive(Clone, Debug)]
pub struct SessionInfoPayload {
    pub id: String,
    pub name: String,
    pub member_count: u32,
    pub is_public: bool,
    pub max_members: u32,
}

impl View for SessionInfoPayload {
    type V = SessionInfoView;

    open spec fn view(&self) -> SessionInfoView {
        SessionInfoView {
            id: self.id@,
            name: self.name@,
            member_count: self.member_count,
            is_public: self.is_public,
            max_members: self.max_members,
        }
    }
}

/// The session that the user created or joined, for the user interface.
#[derive(Clone, Debug)]
pub struct SessionPayload {
    pub session_id: String,
    pub session_name: String,
    pub is_public: bool,
    pub max_members: u32,
    pub existing_peers: Vec<String>,
    pub host: String,
}

impl View for SessionPayload {
    type V = SessionReplyView;

    open spec fn view(&self) -> SessionReplyView {
        SessionReplyView {
            session_id: self.session_id@,
            session_name: self.session_name@,
            is_public: self.is_public,
            max_members: self.max_members,
            existing_peers: names(self.existing_peers@),
            host: self.host@,
        }
    }
}

/// One chat line, for the user interface.
#[derive(Clone, Debug)]
pub struct ChatMessagePayload {
    pub username: String,
    pub content: String,
    pub timestamp: i64,
}

impl SessionInfoPayload {
    /// The payload for a line of the server's session list.
    pub fn from_info(info: &SessionInfo) -> (r: Self)
        ensures
            r@ == info@,
    {
        SessionInfoPayload {
            id: info.id.clone(),
            name: info.name.clone(),
            member_count: info.member_count,
            is_public: info.is_public,
            max_members: info.max_members,
        }
    }
}

impl SessionPayload {
    /// The payload for the server's reply to a creation.
    pub fn from_created(reply: CreateSessionResponse) -> (r: Self)
        ensures
            r@ == reply@,
    {
        SessionPayload {
            session_id: reply.session_id,
            session_name: reply.session_name,
            is_public: reply.is_public,
            max_members: reply.max_members,
            existing_peers: reply.existing_peers,
            host: reply.host,
        }
    }

    /// The payload for the server's reply to a join.
    pub fn from_joined(reply: JoinSessionResponse) -> (r: Self)
        ensures
            r@ == reply@,
    {
        SessionPayload {
            session_id: reply.session_id,
            session_name: reply.session_name,
            is_public: reply.is_public,
            max_members: reply.max_members,
            existing_peers: reply.existing_peers,
            host: reply.host,
        }
    }
}

impl ChatMessagePayload {
    /// The payload for a chat line of the server.
    pub fn from_message(message: ChatMessage) -> (r: Self)
        ensures
            r.username@ == message.username@,
            r.content@ == message.content@,
            r.timestamp == message.timestamp,
    {
        ChatMessagePayload {
            username: message.username,
            content: message.content,
            timestamp: message.timestamp,
        }
    }
}

/// The current Unix time in whole seconds; 0 where the clock is set before
/// the start of Unix time.
pub fn unix_secs() -> i64 {
    timestamp_from_reading(read_clock())
}

/// The session list for the user interface: the server's lines, in order.
pub fn list_sessions(sessions: &Vec<SessionInfo>) -> (r: Vec<SessionInfoPayload>)
    ensures
        r@.len() == sessions@.len(),
        forall|i: int| 0 <= i < r@.len() ==> (#[trigger] r@[i])@ == sessions@[i]@,
{
    let mut out: Vec<SessionInfoPayload> = Vec::new();
    let mut i: usize = 0;
    while i < sessions.len()
        invariant
            i <= sessions.len(),
            out@.len() == i,
            forall|j: int| 0 <= j < i ==> (#[trigger] out@[j])@ == sessions@[j]@,
        decreases sessions.len() - i,
    {
        out.push(SessionInfoPayload::from_info(&sessions[i]));
        i += 1;
    }
    out
}

/// What the client keeps and what it shows of the server's reply to
/// `GetServerInfo`: the ICE servers as entries for its own use, and the
/// whole reply as a payload.
pub fn get_server_info(reply: GetServerInfoResponse) -> (r: (Vec<IceServerEntry>, ServerInfoPayload))
    ensures
        entry_views(r.0@) == server_views(reply.ice_servers@),
        payload_views(r.1.ice_servers@) == server_views(reply.ice_servers@),
        r.1.server_name@ == reply.server_name@,
        r.1.motd@ == reply.motd@,
{
    let mut entries: Vec<IceServerEntry> = Vec::new();
    let mut payloads: Vec<IceServerPayload> = Vec::new();
    let mut i: usize = 0;
    while i < reply.ice_servers.len()
        invariant
            i <= reply.ice_servers.len(),
            entry_views(entries@) == server_views(reply.ice_servers@).take(i as int),
            payload_views(payloads@) == server_views(reply.ice_servers@).take(i as int),
        decreases reply.ice_servers.len() - i,
    {
        let server = &reply.ice_servers[i];
        let entry = IceServerEntry {
            url: server.url.clone(),
            username: server.username.clone(),
            credential: server.credential.clone(),
            name: server.name.clone(),
        };
        let payload = IceServerPayload {
            url: server.url.clone(),
            username: server.username.clone(),
            credential: server.credential.clone(),
            name: server.name.clone(),
        };
        let ghost kept = entry_views(entries@);
        let ghost shown = payload_views(payloads@);
        entries.push(entry);
        payloads.push(payload);
        proof {
            assert(entry@ == server@);
            assert(payload@ == server@);
            assert(entry_views(entries@) =~= kept.push(server@));
            assert(payload_views(payloads@) =~= shown.push(server@));
            assert(server_views(reply.ice_servers@).take(i as int + 1) =~= server_views(
                reply.ice_servers@,
            ).take(i as int).push(server@));
        }
        i += 1;
    }
    proof {
        assert(server_views(reply.ice_servers@).take(i as int) =~= server_views(
            reply.ice_servers@,
        ));
    }
    (
        entries,
        ServerInfoPayload {
            server_name: reply.server_name,
            motd: reply.motd,
            ice_servers: payloads,
        },
    )
}

} // verus!
