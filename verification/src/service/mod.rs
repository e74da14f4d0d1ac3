//! The request surface. Each handler is one step of the server: it reads
//! a request, changes the state, and returns the reply together with the
//! effects that the transport layer has to carry out on the open streams.

pub mod helpers;
pub mod messaging;
pub mod sessions;
pub mod signals;
pub mod streams;

use vstd::prelude::*;
use crate::messages::{
    ChatMessage, ChatMessageView, GetServerInfoRequest, GetServerInfoResponse, IceServer,
    IceServerView, Signal, SignalView, Status,
};
use crate::state::{IceServerConfig, ServerState};

verus! {

/// One signal to push down one signal pipe.
#[derive(Debug)]
pub struct Delivery {
    pub pipe: u64,
    pub signal: Signal,
}

/// The deliveries of a vector, as pairs of pipe and signal.
pub open spec fn delivery_views(v: Seq<Delivery>) -> Seq<(u64, SignalView)> {
    Seq::new(v.len(), |i: int| (v[i].pipe, v[i].signal@))
}

/// What a request asks of the transport layer once the state has changed.
#[derive(Debug)]
pub struct Effects {
    /// The signals to push, in this order.
    pub deliveries: Vec<Delivery>,
    /// The chat line to publish on the chat broadcast of the request's
    /// session.
    pub chat: Option<ChatMessage>,
    /// Whether to publish on the session-list notifier.
    pub sessions_changed: bool,
    /// Whether to publish on the global-members notifier.
    pub global_members_changed: bool,
    /// The session that this request took off the registry, whose chat
    /// broadcast is to be closed.
    pub removed_session: Option<String>,
}

#[verifier::ext_equal]
pub struct EffectsView {
    pub deliveries: Seq<(u64, SignalView)>,
    pub chat: Option<ChatMessageView>,
    pub sessions_changed: bool,
    pub global_members_changed: bool,
    pub removed_session: Option<Seq<char>>,
}

impl EffectsView {
    /// No effect at all.
    pub open spec fn none() -> EffectsView {
        EffectsView {
            deliveries: Seq::empty(),
            chat: None,
            sessions_changed: false,
            global_members_changed: false,
            removed_session: None,
        }
    }
}

impl View for Effects {
    type V = EffectsView;

    open spec fn view(&self) -> EffectsView {
        EffectsView {
            deliveries: delivery_views(self.deliveries@),
            chat: match self.chat {
                Some(message) => Some(message@),
                None => None,
            },
            sessions_changed: self.sessions_changed,
            global_members_changed: self.global_members_changed,
            removed_session: match self.removed_session {
                Some(id) => Some(id@),
                None => None,
            },
        }
    }
}

impl Effects {
    /// No effect at all.
    pub fn none() -> (r: Effects)
        ensures
            r@ == EffectsView::none(),
    {
        let r = Effects {
            deliveries: Vec::new(),
            chat: None,
            sessions_changed: false,
            global_members_changed: false,
            removed_session: None,
        };
        proof {
            assert(r@ =~= EffectsView::none());
        }
        r
    }
}

/// A reply and the effects that go with it.
#[derive(Debug)]
pub struct Reply<T> {
    pub message: T,
    pub effects: Effects,
}

/// What a stream's forwarding task has just seen.
#[derive(Clone, Copy, Debug, PartialEq, Eq, Structural)]
pub enum BridgeEvent {
    /// The client hung up.
    DownstreamClosed,
    /// The source has an item for the client.
    Item,
    /// Writing an item to the client failed.
    ForwardFailed,
    /// The task fell behind and the source dropped items.
    Lagged,
    /// The source is closed.
    SourceClosed,
}

/// What a stream's forwarding task does next.
#[derive(Clone, Copy, Debug, PartialEq, Eq, Structural)]
pub enum BridgeAction {
    /// Write the item to the client.
    Forward,
    /// Wait for the next event.
    Continue,
    /// End the task; `client_disconnected` says whether the client's side
    /// ended it.
    Stop { client_disconnected: bool },
}

/// The next action of a stream's forwarding task. A task that fell behind
/// goes on; it never ends on that account.
pub fn bridge_step(event: BridgeEvent) -> (action: BridgeAction)
    ensures
        action == match event {
            BridgeEvent::Item => BridgeAction::Forward,
            BridgeEvent::Lagged => BridgeAction::Continue,
            BridgeEvent::DownstreamClosed => BridgeAction::Stop { client_disconnected: true },
            BridgeEvent::ForwardFailed => BridgeAction::Stop { client_disconnected: true },
            BridgeEvent::SourceClosed => BridgeAction::Stop { client_disconnected: false },
        },
{
    match event {
        BridgeEvent::Item => BridgeAction::Forward,
        BridgeEvent::Lagged => BridgeAction::Continue,
        BridgeEvent::DownstreamClosed | BridgeEvent::ForwardFailed => BridgeAction::Stop {
            client_disconnected: true,
        },
        BridgeEvent::SourceClosed => BridgeAction::Stop { client_disconnected: false },
    }
}

/// The ICE servers of a configuration, as the clients see them.
pub open spec fn config_views(v: Seq<IceServerConfig>) -> Seq<IceServerView> {
    Seq::new(v.len(), |i: int| v[i]@)
}

/// The ICE servers of a reply.
pub open spec fn server_views(v: Seq<IceServer>) -> Seq<IceServerView> {
    Seq::new(v.len(), |i: int| v[i]@)
}

/// The server's name, its message of the day and its ICE servers, in the
/// order of the configuration.
pub fn get_server_info(state: &ServerState, _req: GetServerInfoRequest) -> (r: Result<
    GetServerInfoResponse,
    Status,
>)
    ensures
        r matches Ok(info) && info.server_name@ == state.server_name@ && info.motd@
            == state.motd@ && server_views(info.ice_servers@) == config_views(
            state.ice_servers@,
        ),
{
    let mut ice_servers: Vec<IceServer> = Vec::new();
    let mut i: usize = 0;
    while i < state.ice_servers.len()
        invariant
            i <= state.ice_servers.len(),
            server_views(ice_servers@) == config_views(state.ice_servers@).take(i as int),
        decreases state.ice_servers.len() - i,
    {
        let config = &state.ice_servers[i];
        let entry = IceServer {
            url: config.url.clone(),
            username: config.username.clone(),
            credential: config.credential.clone(),
            name: config.name.clone(),
        };
        let ghost copied = server_views(ice_servers@);
        ice_servers.push(entry);
        proof {
            assert(entry@ == state.ice_servers@[i as int]@);
            assert(server_views(ice_servers@) =~= copied.push(entry@));
            assert(server_views(ice_servers@) =~= config_views(state.ice_servers@).take(
                i as int + 1,
            ));
        }
        i += 1;
    }
    proof {
        assert(config_views(state.ice_servers@).take(i as int) =~= config_views(
            state.ice_servers@,
        ));
    }
    Ok(
        GetServerInfoResponse {
            server_name: state.server_name.clone(),
            motd: state.motd.clone(),
            ice_servers,
        },
    )
}

} // verus!
