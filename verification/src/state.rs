//! The server's state: the immutable server information, the session
//! registry, the user-to-session index and the global stream counts.

use vstd::prelude::*;
use dashmap::DashMap;
use crate::invariants::lemma_initial_consistent;
use crate::session::{code_in_use, lemma_initial_has_no_code};
use crate::messages::IceServerView;
use crate::model::{SessionView, StateView};
use crate::names::{clone_names, names};
use crate::registry::{
    index_entries, index_new, refs_new, registry_insert, registry_new, registry_sessions,
    stream_refs,
};
use crate::senders::{clone_senders, sender_views, SignalSender};

verus! {

/// The id of the session that every connected user can chat in.
pub const GLOBAL_SESSION_ID: &'static str = "__global__";

/// The backlog of a session's chat broadcast.
pub const BROADCAST_CAPACITY: usize = 256;

/// The backlog of the two change notifiers.
pub const NOTIFIER_CAPACITY: usize = 16;

/// The least member limit a created session can have.
pub const SESSION_MIN_MEMBERS: u32 = 2;

/// The greatest member limit a created session can have.
pub const SESSION_MAX_MEMBERS: u32 = 16;

/// An ICE server the server tells its clients of. A STUN entry has empty
/// credentials; a TURN entry has a name.
#[derive(Clone, Debug)]
pub struct IceServerConfig {
    pub url: String,
    pub username: String,
    pub credential: String,
    pub name: String,
}

impl View for IceServerConfig {
    type V = IceServerView;

    open spec fn view(&self) -> IceServerView {
        IceServerView {
            url: self.url@,
            username: self.username@,
            credential: self.credential@,
            name: self.name@,
        }
    }
}

/// The mutable half of a session.
#[derive(Debug)]
pub struct SessionInner {
    /// The host's name; empty in the global session.
    pub host: String,
    pub members: Vec<String>,
    pub signal_senders: Vec<SignalSender>,
}

impl Clone for SessionInner {
    fn clone(&self) -> (r: Self)
        ensures
            r.host@ == self.host@,
            names(r.members@) == names(self.members@),
            sender_views(r.signal_senders@) == sender_views(self.signal_senders@),
    {
        SessionInner {
            host: self.host.clone(),
            members: clone_names(&self.members),
            signal_senders: clone_senders(&self.signal_senders),
        }
    }
}

/// A session: its immutable attributes and its mutable half.
#[derive(Debug)]
pub struct SessionData {
    pub id: String,
    pub name: String,
    pub is_public: bool,
    /// 0 stands for no limit.
    pub max_members: u32,
    pub inner: SessionInner,
}

impl Clone for SessionData {
    fn clone(&self) -> (r: Self)
        ensures
            r@ == self@,
    {
        SessionData {
            id: self.id.clone(),
            name: self.name.clone(),
            is_public: self.is_public,
            max_members: self.max_members,
            inner: self.inner.clone(),
        }
    }
}

impl View for SessionData {
    type V = SessionView;

    open spec fn view(&self) -> SessionView {
        SessionView {
            id: self.id@,
            name: self.name@,
            is_public: self.is_public,
            max_members: self.max_members,
            host: self.inner.host@,
            members: names(self.inner.members@),
            signal_senders: sender_views(self.inner.signal_senders@),
        }
    }
}

/// Everything the server knows.
pub struct ServerState {
    pub server_name: String,
    pub motd: String,
    pub ice_servers: Vec<IceServerConfig>,
    /// The session registry, by session id.
    pub sessions: DashMap<String, SessionData>,
    /// The session each user is in: the authoritative record of membership.
    pub user_session_index: DashMap<String, String>,
    /// The number of open global message streams of each user. A user is in
    /// the global session while the count is at least one.
    pub global_stream_refs: DashMap<String, usize>,
}

impl View for ServerState {
    type V = StateView;

    open spec fn view(&self) -> StateView {
        StateView {
            sessions: registry_sessions(self.sessions),
            index: index_entries(self.user_session_index),
            refs: stream_refs(self.global_stream_refs),
        }
    }
}

impl ServerState {
    /// Whether `other` carries the same server information: name, message
    /// of the day and ICE servers.
    pub open spec fn same_info(&self, other: &ServerState) -> bool {
        &&& self.server_name == other.server_name
        &&& self.motd == other.motd
        &&& self.ice_servers == other.ice_servers
    }

    /// A server with the global session and nothing else.
    pub fn new(server_name: String, motd: String, ice_servers: Vec<IceServerConfig>) -> (r: Self)
        ensures
            r@ == StateView::initial(),
            r@.consistent(),
            r@.presence_consistent(),
            r@.streams_of_members(),
            !code_in_use(r@),
            r.server_name == server_name,
            r.motd == motd,
            r.ice_servers == ice_servers,
    {
        let global = SessionData {
            id: GLOBAL_SESSION_ID.to_owned(),
            name: "global".to_owned(),
            is_public: false,
            max_members: 0,
            inner: SessionInner {
                host: String::new(),
                members: Vec::new(),
                signal_senders: Vec::new(),
            },
        };
        proof {
            assert(global@ =~= SessionView::global());
            lemma_initial_consistent();
            lemma_initial_has_no_code();
        }
        let mut sessions = registry_new();
        registry_insert(&mut sessions, GLOBAL_SESSION_ID.to_owned(), global);
        ServerState {
            server_name,
            motd,
            ice_servers,
            sessions,
            user_session_index: index_new(),
            global_stream_refs: refs_new(),
        }
    }
}

} // verus!
