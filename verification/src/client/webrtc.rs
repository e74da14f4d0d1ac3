//! Peer connections as far as the client decides on them: which ICE
//! servers a connection is made with, how its state is reported, and what
//! an incoming signal leads to.

use vstd::prelude::*;
use crate::client::commands::ChatMessagePayload;
use crate::client::state::{
    effective, entry_views, text_view, AppState, IceServerEntry, StreamKind,
};
use crate::messages::{IceServerView, Signal, SignalKind};

verus! {

/// The envelope of a chat line on the data channel between two peers.
#[derive(Debug)]
pub struct DataChannelMessage {
    pub username: String,
    pub content: String,
    pub timestamp: i64,
}

/// The state of the connection to a peer, for the user interface.
#[derive(Clone, Debug)]
pub struct PeerStatePayload {
    pub peer: String,
    /// One of "checking", "connected", "open", "disconnected", "closed".
    pub state: String,
}

/// A member joined or left, for the user interface.
#[derive(Clone, Debug)]
pub struct MemberEventPayload {
    pub username: String,
    pub joined: bool,
}

/// The state of a peer connection.
#[derive(Clone, Copy, Debug, PartialEq, Eq, Structural)]
pub enum PeerConnectionState {
    Unspecified,
    New,
    Connecting,
    Connected,
    Disconnected,
    Failed,
    Closed,
}

/// The STUN server used where the server names no ICE server.
pub const DEFAULT_STUN_URL: &'static str = "stun:stun.l.google.com:19302";

/// The ICE servers that a peer connection is made with: those in effect,
/// or the default STUN server where there are none.
pub open spec fn connection_servers(servers: Seq<IceServerView>) -> Seq<IceServerView> {
    if servers.len() == 0 {
        seq![
            IceServerView {
                url: DEFAULT_STUN_URL@,
                username: Seq::empty(),
                credential: Seq::empty(),
                name: Seq::empty(),
            },
        ]
    } else {
        servers
    }
}

/// The ICE servers that a peer connection is made with.
pub fn rtc_ice_servers(ice_servers: Vec<IceServerEntry>) -> (r: Vec<IceServerEntry>)
    ensures
        entry_views(r@) == connection_servers(entry_views(ice_servers@)),
{
    if ice_servers.len() == 0 {
        let mut servers: Vec<IceServerEntry> = Vec::new();
        servers.push(
            IceServerEntry {
                url: DEFAULT_STUN_URL.to_owned(),
                username: String::new(),
                credential: String::new(),
                name: String::new(),
            },
        );
        proof {
            assert(entry_views(servers@) =~= connection_servers(entry_views(ice_servers@)));
        }
        servers
    } else {
        ice_servers
    }
}

/// How the state of a peer connection is reported to the user interface;
/// the empty string stands for a state that is not reported.
pub fn peer_state_label(state: PeerConnectionState) -> (r: &'static str)
    ensures
        r@ == match state {
            PeerConnectionState::Connecting => "checking"@,
            PeerConnectionState::Connected => "connected"@,
            PeerConnectionState::Disconnected => "disconnected"@,
            PeerConnectionState::Failed => "disconnected"@,
            PeerConnectionState::Closed => "closed"@,
            _ => ""@,
        },
{
    match state {
        PeerConnectionState::Connecting => "checking",
        PeerConnectionState::Connected => "connected",
        PeerConnectionState::Disconnected => "disconnected",
        PeerConnectionState::Failed => "disconnected",
        PeerConnectionState::Closed => "closed",
        _ => "",
    }
}

/// What an incoming signal leads to.
#[derive(Debug)]
pub enum SignalAction {
    /// Answer the offer of `peer`: connect to them as the answering side.
    Answer { local_username: String, peer: String, session_id: String, offer: String },
    /// Hand the answer of `peer` to the connection with them.
    AcceptAnswer { peer: String, sdp: String },
    /// Hand the candidate of `peer` to the connection with them.
    AddIceCandidate { peer: String, candidate: String },
    /// Tell the user interface of a member who joined or left.
    MemberEvent { username: String, joined: bool },
    /// Nothing.
    Ignore,
}

/// What an incoming signal leads to, as plain values.
pub enum SignalActionView {
    Answer { local_username: Seq<char>, peer: Seq<char>, session_id: Seq<char>, offer: Seq<char> },
    AcceptAnswer { peer: Seq<char>, sdp: Seq<char> },
    AddIceCandidate { peer: Seq<char>, candidate: Seq<char> },
    MemberEvent { username: Seq<char>, joined: bool },
    Ignore,
}

impl View for SignalAction {
    type V = SignalActionView;

    open spec fn view(&self) -> SignalActionView {
        match self {
            SignalAction::Answer { local_username, peer, session_id, offer } => SignalActionView::Answer {
                local_username: local_username@,
                peer: peer@,
                session_id: session_id@,
                offer: offer@,
            },
            SignalAction::AcceptAnswer { peer, sdp } => SignalActionView::AcceptAnswer {
                peer: peer@,
                sdp: sdp@,
            },
            SignalAction::AddIceCandidate { peer, candidate } => SignalActionView::AddIceCandidate {
                peer: peer@,
                candidate: candidate@,
            },
            SignalAction::MemberEvent { username, joined } => SignalActionView::MemberEvent {
                username: username@,
                joined: *joined,
            },
            SignalAction::Ignore => SignalActionView::Ignore,
        }
    }
}

/// What a client in state `state` does with `signal`. An offer is
/// answered where the client has a user name and is in a session. An
/// answer or a candidate goes to the connection with its sender, where
/// there is one. A member event goes to the user interface. Anything else
/// is ignored.
pub fn handle_incoming_signal(state: &AppState, signal: Signal, peer_connected: bool) -> (r:
    SignalAction)
    ensures
        r@ == match signal.kind {
            SignalKind::SdpOffer => match (state.username, state.current_session_id) {
                (Some(name), Some(session)) => SignalActionView::Answer {
                    local_username: name@,
                    peer: signal.from_user@,
                    session_id: session@,
                    offer: signal.payload@,
                },
                _ => SignalActionView::Ignore,
            },
            SignalKind::SdpAnswer => if peer_connected {
                SignalActionView::AcceptAnswer { peer: signal.from_user@, sdp: signal.payload@ }
            } else {
                SignalActionView::Ignore
            },
            SignalKind::IceCandidate => if peer_connected {
                SignalActionView::AddIceCandidate {
                    peer: signal.from_user@,
                    candidate: signal.payload@,
                }
            } else {
                SignalActionView::Ignore
            },
            SignalKind::MemberJoined => SignalActionView::MemberEvent {
                username: signal.payload@,
                joined: true,
            },
            SignalKind::MemberLeft => SignalActionView::MemberEvent {
                username: signal.payload@,
                joined: false,
            },
            SignalKind::HostChanged => SignalActionView::Ignore,
        },
{
    match signal.kind {
        SignalKind::SdpOffer => {
            let local_username = match &state.username {
                Some(name) => name.clone(),
                None => {
                    return SignalAction::Ignore;
                },
            };
            let session_id = match &state.current_session_id {
                Some(session) => session.clone(),
                None => {
                    return SignalAction::Ignore;
                },
            };
            SignalAction::Answer {
                local_username,
                peer: signal.from_user,
                session_id,
                offer: signal.payload,
            }
        },
        SignalKind::SdpAnswer => {
            if peer_connected {
                SignalAction::AcceptAnswer { peer: signal.from_user, sdp: signal.payload }
            } else {
                SignalAction::Ignore
            }
        },
        SignalKind::IceCandidate => {
            if peer_connected {
                SignalAction::AddIceCandidate { peer: signal.from_user, candidate: signal.payload }
            } else {
                SignalAction::Ignore
            }
        },
        SignalKind::MemberJoined => SignalAction::MemberEvent {
            username: signal.payload,
            joined: true,
        },
        SignalKind::MemberLeft => SignalAction::MemberEvent {
            username: signal.payload,
            joined: false,
        },
        SignalKind::HostChanged => SignalAction::Ignore,
    }
}

/// What the client does, beyond the change of its state, when it enters the
/// peer mesh of a session.
#[derive(Debug)]
pub struct MeshEntry {
    /// The token of the signal stream that was open before, to cancel.
    pub cancelled: Option<u64>,
    /// The name to open the new signal stream under and the ICE servers to
    /// connect to the existing peers with; an error where no user name is
    /// set.
    pub setup: Result<(String, Vec<IceServerEntry>), String>,
}

/// Enters the peer mesh of `session_id`: the session becomes the current
/// one, and a signal stream under `token` takes the place of the one that
/// was open. The stream is opened before any offer is sent, so that the
/// answers can come in.
pub fn join_session_webrtc(state: &mut AppState, session_id: String, token: u64) -> (r: MeshEntry)
    ensures
        final(state).current_session_id == Some(session_id),
        final(state).token(StreamKind::Signals) == Some(token),
        forall|kind: StreamKind|
            kind != StreamKind::Signals ==> final(state).token(kind) == old(state).token(kind),
        final(state).username == old(state).username,
        final(state).ice_servers == old(state).ice_servers,
        final(state).selected_turn == old(state).selected_turn,
        final(state).force_relay == old(state).force_relay,
        r.cancelled == old(state).token(StreamKind::Signals),
        match r.setup {
            Ok((name, servers)) => old(state).username matches Some(set) && name@ == set@
                && entry_views(servers@) == effective(
                entry_views(old(state).ice_servers@),
                text_view(old(state).selected_turn),
            ),
            Err(message) => old(state).username.is_none() && message@ == "No username set"@,
        },
{
    state.current_session_id = Some(session_id);
    let ghost entered = *state;
    let cancelled = state.reset_stream(StreamKind::Signals, token);
    proof {
        assert(cancelled == entered.token(StreamKind::Signals));
        assert forall|kind: StreamKind| kind != StreamKind::Signals implies state.token(kind)
            == old(state).token(kind) by {
            assert(state.token(kind) == entered.token(kind));
        }
    }
    let setup = match state.get_username() {
        Ok(name) => Ok((name, state.effective_ice_servers())),
        Err(message) => Err(message),
    };
    MeshEntry { cancelled, setup }
}

/// Leaves the peer mesh: no session is current, and the signal stream is
/// closed. The result is the stream's token, to cancel.
pub fn leave_session_webrtc(state: &mut AppState) -> (r: Option<u64>)
    ensures
        final(state).current_session_id.is_none(),
        r == old(state).token(StreamKind::Signals),
        final(state).token(StreamKind::Signals).is_none(),
        forall|kind: StreamKind|
            kind != StreamKind::Signals ==> final(state).token(kind) == old(state).token(kind),
        final(state).username == old(state).username,
        final(state).ice_servers == old(state).ice_servers,
        final(state).selected_turn == old(state).selected_turn,
        final(state).force_relay == old(state).force_relay,
{
    let cancelled = state.cancel_stream(StreamKind::Signals);
    let ghost closed = *state;
    state.current_session_id = None;
    proof {
        assert forall|kind: StreamKind| kind != StreamKind::Signals implies state.token(kind)
            == old(state).token(kind) by {
            assert(state.token(kind) == closed.token(kind));
        }
    }
    cancelled
}

/// The envelope and the echo of a chat line that the user sends to the
/// peers of a session: the envelope goes out on every data channel, and
/// the echo shows the line to the sender at once.
pub fn send_session_message(username: String, content: String, timestamp: i64) -> (r: (
    DataChannelMessage,
    ChatMessagePayload,
))
    ensures
        r.0.username@ == username@,
        r.0.content@ == content@,
        r.0.timestamp == timestamp,
        r.1.username@ == username@,
        r.1.content@ == content@,
        r.1.timestamp == timestamp,
{
    let envelope = DataChannelMessage {
        username: username.clone(),
        content: content.clone(),
        timestamp,
    };
    (envelope, ChatMessagePayload { username, content, timestamp })
}

/// The payload for a chat line that came in on a data channel.
pub fn received_session_message(envelope: DataChannelMessage) -> (r: ChatMessagePayload)
    ensures
        r.username@ == envelope.username@,
        r.content@ == envelope.content@,
        r.timestamp == envelope.timestamp,
{
    ChatMessagePayload {
        username: envelope.username,
        content: envelope.content,
        timestamp: envelope.timestamp,
    }
}

} // verus!
