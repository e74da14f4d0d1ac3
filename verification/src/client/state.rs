//! What a client keeps between commands.

use vstd::prelude::*;
use crate::messages::IceServerView;

verus! {

/// A kind of server-push stream. A client has one stream of each kind at
/// most.
#[derive(Clone, Copy, Debug, PartialEq, Eq, Structural)]
pub enum StreamKind {
    Global,
    Signals,
    SessionUpdates,
    GlobalMembers,
    SessionMessages,
}

/// An ICE server as the client keeps it.
#[derive(Debug)]
pub struct IceServerEntry {
    pub url: String,
    pub username: String,
    pub credential: String,
    pub name: String,
}

impl View for IceServerEntry {
    type V = IceServerView;

    open spec fn view(&self) -> IceServerView {
        IceServerView {
            url: self.url@,
            username: self.username@,
            credential: self.credential@,
            name: self.name@,
        }
    }
}

impl Clone for IceServerEntry {
    fn clone(&self) -> (r: Self)
        ensures
            r@ == self@,
    {
        IceServerEntry {
            url: self.url.clone(),
            username: self.username.clone(),
            credential: self.credential.clone(),
            name: self.name.clone(),
        }
    }
}

/// The entries of a vector.
pub open spec fn entry_views(v: Seq<IceServerEntry>) -> Seq<IceServerView> {
    Seq::new(v.len(), |i: int| v[i]@)
}

/// Whether a URL names a STUN server.
pub open spec fn is_stun(url: Seq<char>) -> bool {
    "stun:"@.is_prefix_of(url) || "stuns:"@.is_prefix_of(url)
}

/// Whether a client that selected the TURN server `selected` uses `entry`:
/// every STUN server, and the TURN server of that name.
pub open spec fn in_effect(entry: IceServerView, selected: Option<Seq<char>>) -> bool {
    is_stun(entry.url) || (selected == Some(entry.name) && entry.name.len() > 0)
}

/// The entries of `all` that are in effect, in order.
pub open spec fn effective(all: Seq<IceServerView>, selected: Option<Seq<char>>) -> Seq<
    IceServerView,
>
    decreases all.len(),
{
    if all.len() == 0 {
        all
    } else if in_effect(all.last(), selected) {
        effective(all.drop_last(), selected).push(all.last())
    } else {
        effective(all.drop_last(), selected)
    }
}

/// `str::starts_with` with a string as pattern: whether `prefix` is a
/// prefix of `s`.
#[verifier::external_body]
fn starts_with(s: &str, prefix: &str) -> (r: bool)
    ensures
        r == prefix@.is_prefix_of(s@),
{
    s.starts_with(prefix)
}

/// The view of an optional string.
pub open spec fn text_view(s: Option<String>) -> Option<Seq<char>> {
    match s {
        Some(s) => Some(s@),
        None => None,
    }
}

/// The state of a client. The token of a stream kind stands for the
/// one-shot notifier that cancels the stream of that kind; the transport
/// layer keeps the notifiers under their tokens.
#[derive(Debug)]
pub struct AppState {
    pub username: Option<String>,
    pub global_cancel_tx: Option<u64>,
    pub signals_cancel_tx: Option<u64>,
    pub session_updates_cancel_tx: Option<u64>,
    pub global_members_cancel_tx: Option<u64>,
    pub session_messages_cancel_tx: Option<u64>,
    pub ice_servers: Vec<IceServerEntry>,
    /// The name of the TURN server the user selected; `None` for direct
    /// connections only.
    pub selected_turn: Option<String>,
    pub current_session_id: Option<String>,
    /// Whether only relayed candidates are used.
    pub force_relay: bool,
}

impl AppState {
    /// The token of the stream of `kind`, if one is open.
    pub open spec fn token(&self, kind: StreamKind) -> Option<u64> {
        match kind {
            StreamKind::Global => self.global_cancel_tx,
            StreamKind::Signals => self.signals_cancel_tx,
            StreamKind::SessionUpdates => self.session_updates_cancel_tx,
            StreamKind::GlobalMembers => self.global_members_cancel_tx,
            StreamKind::SessionMessages => self.session_messages_cancel_tx,
        }
    }

    /// Whether `other` differs from `self` in stream tokens at most.
    pub open spec fn same_settings(&self, other: &AppState) -> bool {
        &&& self.username == other.username
        &&& self.ice_servers == other.ice_servers
        &&& self.selected_turn == other.selected_turn
        &&& self.current_session_id == other.current_session_id
        &&& self.force_relay == other.force_relay
    }

    /// The tokens of the open streams, in the order of the kinds.
    pub open spec fn open_tokens(&self) -> Seq<u64> {
        token_seq(self.global_cancel_tx) + token_seq(self.signals_cancel_tx) + token_seq(
            self.session_updates_cancel_tx,
        ) + token_seq(self.global_members_cancel_tx) + token_seq(self.session_messages_cancel_tx)
    }

    /// A client that is not connected.
    pub fn new() -> (r: Self)
        ensures
            r.username.is_none(),
            forall|kind: StreamKind| r.token(kind).is_none(),
            r.ice_servers@.len() == 0,
            r.selected_turn.is_none(),
            r.current_session_id.is_none(),
            !r.force_relay,
    {
        AppState {
            username: None,
            global_cancel_tx: None,
            signals_cancel_tx: None,
            session_updates_cancel_tx: None,
            global_members_cancel_tx: None,
            session_messages_cancel_tx: None,
            ice_servers: Vec::new(),
            selected_turn: None,
            current_session_id: None,
            force_relay: false,
        }
    }

    /// The user's name, or an error where none is set.
    pub fn get_username(&self) -> (r: Result<String, String>)
        ensures
            match r {
                Ok(name) => self.username matches Some(set) && name@ == set@,
                Err(message) => self.username.is_none() && message@ == "No username set"@,
            },
    {
        match &self.username {
            Some(name) => Ok(name.clone()),
            None => Err("No username set".to_owned()),
        }
    }

    fn take_token(&mut self, kind: StreamKind) -> (r: Option<u64>)
        ensures
            r == old(self).token(kind),
            final(self).token(kind).is_none(),
            forall|other: StreamKind| other != kind ==> final(self).token(other) == old(self).token(other),
            final(self).same_settings(old(self)),
    {
        match kind {
            StreamKind::Global => self.global_cancel_tx.take(),
            StreamKind::Signals => self.signals_cancel_tx.take(),
            StreamKind::SessionUpdates => self.session_updates_cancel_tx.take(),
            StreamKind::GlobalMembers => self.global_members_cancel_tx.take(),
            StreamKind::SessionMessages => self.session_messages_cancel_tx.take(),
        }
    }

    /// Opens a stream of `kind` under `token`. The result is the token of
    /// the stream of that kind that was open before, which is to be
    /// cancelled: the new stream takes its place.
    pub fn reset_stream(&mut self, kind: StreamKind, token: u64) -> (r: Option<u64>)
        ensures
            r == old(self).token(kind),
            final(self).token(kind) == Some(token),
            forall|other: StreamKind| other != kind ==> final(self).token(other) == old(self).token(other),
            final(self).same_settings(old(self)),
    {
        let previous = self.take_token(kind);
        match kind {
            StreamKind::Global => {
                self.global_cancel_tx = Some(token);
            },
            StreamKind::Signals => {
                self.signals_cancel_tx = Some(token);
            },
            StreamKind::SessionUpdates => {
                self.session_updates_cancel_tx = Some(token);
            },
            StreamKind::GlobalMembers => {
                self.global_members_cancel_tx = Some(token);
            },
            StreamKind::SessionMessages => {
                self.session_messages_cancel_tx = Some(token);
            },
        }
        previous
    }

    /// Closes the stream of `kind`. The result is its token, which is to
    /// be cancelled; `None` where no such stream was open.
    pub fn cancel_stream(&mut self, kind: StreamKind) -> (r: Option<u64>)
        ensures
            r == old(self).token(kind),
            final(self).token(kind).is_none(),
            forall|other: StreamKind| other != kind ==> final(self).token(other) == old(self).token(other),
            final(self).same_settings(old(self)),
    {
        self.take_token(kind)
    }

    /// Closes every stream. The result holds the tokens to cancel, in the
    /// order of the kinds.
    pub fn cancel_all_streams(&mut self) -> (r: Vec<u64>)
        ensures
            r@ == old(self).open_tokens(),
            forall|kind: StreamKind| final(self).token(kind).is_none(),
            final(self).same_settings(old(self)),
    {
        let mut tokens: Vec<u64> = Vec::new();
        if let Some(token) = self.cancel_stream(StreamKind::Global) {
            tokens.push(token);
        }
        if let Some(token) = self.cancel_stream(StreamKind::Signals) {
            tokens.push(token);
        }
        if let Some(token) = self.cancel_stream(StreamKind::SessionUpdates) {
            tokens.push(token);
        }
        if let Some(token) = self.cancel_stream(StreamKind::GlobalMembers) {
            tokens.push(token);
        }
        if let Some(token) = self.cancel_stream(StreamKind::SessionMessages) {
            tokens.push(token);
        }
        proof {
            assert(tokens@ =~= old(self).open_tokens());
        }
        tokens
    }

    /// The ICE servers in effect: every STUN server and the TURN server
    /// that the user selected, in the order the server named them.
    pub fn effective_ice_servers(&self) -> (r: Vec<IceServerEntry>)
        ensures
            entry_views(r@) == effective(entry_views(self.ice_servers@), text_view(self.selected_turn)),
    {
        let ghost all = entry_views(self.ice_servers@);
        let ghost selected = text_view(self.selected_turn);
        let mut out: Vec<IceServerEntry> = Vec::new();
        let mut i: usize = 0;
        while i < self.ice_servers.len()
            invariant
                i <= self.ice_servers.len(),
                all == entry_views(self.ice_servers@),
                selected == text_view(self.selected_turn),
                entry_views(out@) == effective(all.take(i as int), selected),
            decreases self.ice_servers.len() - i,
        {
            let entry = &self.ice_servers[i];
            let stun = starts_with(entry.url.as_str(), "stun:") || starts_with(
                entry.url.as_str(),
                "stuns:",
            );
            let keep = stun || match &self.selected_turn {
                Some(name) => name.as_str().eq(entry.name.as_str()) && !entry.name.as_str().is_empty(),
                None => false,
            };
            proof {
                assert(all.take(i as int + 1).drop_last() =~= all.take(i as int));
                assert(all.take(i as int + 1).last() == entry@);
                assert(keep == in_effect(entry@, selected));
            }
            if keep {
                let copy = entry.clone();
                let ghost kept = entry_views(out@);
                out.push(copy);
                proof {
                    assert(entry_views(out@) =~= kept.push(entry@));
                }
            }
            i += 1;
        }
        proof {
            assert(all.take(i as int) =~= all);
        }
        out
    }

    /// Selects the TURN server of the given name; `None` selects none.
    pub fn set_turn_server(&mut self, name: Option<String>)
        ensures
            final(self).selected_turn == name,
            final(self).username == old(self).username,
            final(self).ice_servers == old(self).ice_servers,
            final(self).current_session_id == old(self).current_session_id,
            final(self).force_relay == old(self).force_relay,
            forall|kind: StreamKind| final(self).token(kind) == old(self).token(kind),
    {
        self.selected_turn = name;
    }

    /// Forgets the connection: the user's name and session are cleared and
    /// every stream is closed. The result holds the tokens to cancel.
    pub fn disconnect(&mut self) -> (r: Vec<u64>)
        ensures
            r@ == old(self).open_tokens(),
            forall|kind: StreamKind| final(self).token(kind).is_none(),
            final(self).username.is_none(),
            final(self).current_session_id.is_none(),
            final(self).ice_servers == old(self).ice_servers,
            final(self).selected_turn == old(self).selected_turn,
            final(self).force_relay == old(self).force_relay,
    {
        let tokens = self.cancel_all_streams();
        let ghost closed = *self;
        self.current_session_id = None;
        self.username = None;
        proof {
            assert forall|kind: StreamKind| self.token(kind).is_none() by {
                assert(closed.token(kind).is_none());
            }
        }
        tokens
    }
}

/// The token of a stream as a sequence: empty where there is none.
pub open spec fn token_seq(token: Option<u64>) -> Seq<u64> {
    match token {
        Some(t) => seq![t],
        None => Seq::empty(),
    }
}

} // verus!
