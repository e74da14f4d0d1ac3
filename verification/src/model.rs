//! The mathematical model of the server: what the registry, the
//! user-to-session index and the global stream counts hold, and how the
//! membership protocol changes them.

use vstd::prelude::*;
use crate::names::{with_name, without};
use crate::senders::{pipes, senders_with, senders_without};

verus! {

/// The reserved id of the global session, as characters.
pub open spec fn global_id() -> Seq<char> {
    "__global__"@
}

/// A session record.
#[verifier::ext_equal]
pub struct SessionView {
    pub id: Seq<char>,
    pub name: Seq<char>,
    pub is_public: bool,
    /// 0 stands for no limit.
    pub max_members: u32,
    pub host: Seq<char>,
    pub members: Seq<Seq<char>>,
    pub signal_senders: Seq<(Seq<char>, u64)>,
}

impl SessionView {
    /// Whether the session takes no further member.
    pub open spec fn full(self) -> bool {
        self.max_members > 0 && self.members.len() >= self.max_members
    }

    /// The record after `user` has left: gone from the members and the
    /// signal pipes; if `user` was host and somebody remains, the member who
    /// has been in the session longest becomes host.
    pub open spec fn leave(self, user: Seq<char>) -> SessionView {
        let members = without(self.members, user);
        SessionView {
            host: if self.host == user && members.len() > 0 {
                members[0]
            } else {
                self.host
            },
            members,
            signal_senders: senders_without(self.signal_senders, user),
            ..self
        }
    }

    /// The record after `user` has joined.
    pub open spec fn join(self, user: Seq<char>) -> SessionView {
        SessionView { members: with_name(self.members, user), ..self }
    }

    /// The record after `user` opened a signal stream fed by `pipe`.
    pub open spec fn register(self, user: Seq<char>, pipe: u64) -> SessionView {
        SessionView { signal_senders: senders_with(self.signal_senders, user, pipe), ..self }
    }

    /// The record after `user`'s signal stream is gone.
    pub open spec fn unregister(self, user: Seq<char>) -> SessionView {
        SessionView { signal_senders: senders_without(self.signal_senders, user), ..self }
    }

    /// The global session as it is when the server starts.
    pub open spec fn global() -> SessionView {
        SessionView {
            id: global_id(),
            name: "global"@,
            is_public: false,
            max_members: 0,
            host: Seq::empty(),
            members: Seq::empty(),
            signal_senders: Seq::empty(),
        }
    }

    /// A session that `host` has just created under `code`, nobody in it yet.
    pub open spec fn created(code: Seq<char>, host: Seq<char>, is_public: bool, max_members: u32)
        -> SessionView {
        SessionView {
            id: code,
            name: code,
            is_public,
            max_members,
            host,
            members: Seq::empty(),
            signal_senders: Seq::empty(),
        }
    }
}

/// What a successful leave hands to its caller.
#[verifier::ext_equal]
pub struct LeaveView {
    /// The pipes of the peers that remain.
    pub senders: Seq<u64>,
    pub is_public: bool,
    /// The new host and the pipes to tell of it, where the host changed.
    pub new_host: Option<(Seq<char>, Seq<u64>)>,
}

/// The mutable state of the server.
#[verifier::ext_equal]
pub struct StateView {
    /// The session registry, by session id.
    pub sessions: Map<Seq<char>, SessionView>,
    /// The session each user is in.
    pub index: Map<Seq<char>, Seq<char>>,
    /// The number of open global message streams of each user.
    pub refs: Map<Seq<char>, usize>,
}

impl StateView {
    /// The state of a server that has just started.
    pub open spec fn initial() -> StateView {
        StateView {
            sessions: Map::empty().insert(global_id(), SessionView::global()),
            index: Map::empty(),
            refs: Map::empty(),
        }
    }

    /// Whether the index binds `user` to `session_id`.
    pub open spec fn bound(self, user: Seq<char>, session_id: Seq<char>) -> bool {
        self.index.contains_key(user) && self.index[user] == session_id
    }

    /// Whether `user` is recorded as a member of `session_id`.
    pub open spec fn member(self, user: Seq<char>, session_id: Seq<char>) -> bool {
        self.sessions.contains_key(session_id) && self.sessions[session_id].members.contains(user)
    }

    /// The number of global message streams that `user` has open.
    pub open spec fn stream_count(self, user: Seq<char>) -> nat {
        if self.refs.contains_key(user) {
            self.refs[user] as nat
        } else {
            0
        }
    }

    /// The state after `user` asked to leave `session_id`. Nothing changes
    /// unless the index binds the user to that session. Otherwise the
    /// binding goes, the user leaves the record, and a session other than
    /// the global one is taken off the registry when nobody is left in it.
    pub open spec fn leave(self, session_id: Seq<char>, user: Seq<char>) -> StateView {
        if !self.bound(user, session_id) {
            self
        } else if !self.sessions.contains_key(session_id) {
            StateView { index: self.index.remove(user), ..self }
        } else {
            let after = self.sessions[session_id].leave(user);
            StateView {
                index: self.index.remove(user),
                sessions: if after.members.len() == 0 && session_id != global_id() {
                    self.sessions.remove(session_id)
                } else {
                    self.sessions.insert(session_id, after)
                },
                ..self
            }
        }
    }

    /// What the leave of `user` from `session_id` hands to its caller:
    /// nothing where the index does not bind the user to that session.
    pub open spec fn leave_info(self, session_id: Seq<char>, user: Seq<char>) -> Option<
        LeaveView,
    > {
        if !self.bound(user, session_id) {
            None
        } else if !self.sessions.contains_key(session_id) {
            Some(LeaveView { senders: Seq::empty(), is_public: false, new_host: None })
        } else {
            let before = self.sessions[session_id];
            let after = before.leave(user);
            Some(
                LeaveView {
                    senders: pipes(after.signal_senders),
                    is_public: before.is_public,
                    new_host: if before.host == user && after.members.len() > 0 {
                        Some((after.host, pipes(after.signal_senders)))
                    } else {
                        None
                    },
                },
            )
        }
    }

    /// The session that a join of `session_id` by `user` leaves first: the
    /// one the index binds the user to, where that is another one.
    pub open spec fn previous(self, session_id: Seq<char>, user: Seq<char>) -> Option<Seq<char>> {
        if self.index.contains_key(user) && self.index[user] != session_id {
            Some(self.index[user])
        } else {
            None
        }
    }

    /// The state after the automatic leave that precedes a join.
    pub open spec fn vacate(self, session_id: Seq<char>, user: Seq<char>) -> StateView {
        match self.previous(session_id, user) {
            Some(p) => self.leave(p, user),
            None => self,
        }
    }

    /// Whether a join of `session_id` finds its target after the automatic
    /// leave.
    pub open spec fn join_finds(self, session_id: Seq<char>, user: Seq<char>) -> bool {
        self.vacate(session_id, user).sessions.contains_key(session_id)
    }

    /// The state after `user` asked to join `session_id`: the user has left
    /// the session the index bound them to, if that was another one; then,
    /// where the target exists, the user is a member of it and bound to it.
    pub open spec fn join(self, session_id: Seq<char>, user: Seq<char>) -> StateView {
        let vacated = self.vacate(session_id, user);
        if !vacated.sessions.contains_key(session_id) {
            vacated
        } else {
            StateView {
                sessions: vacated.sessions.insert(
                    session_id,
                    vacated.sessions[session_id].join(user),
                ),
                index: vacated.index.insert(user, session_id),
                ..vacated
            }
        }
    }

    /// The state in which `code` names a session that `host` has just
    /// created and nobody has entered yet.
    pub open spec fn open_session(
        self,
        code: Seq<char>,
        host: Seq<char>,
        is_public: bool,
        max_members: u32,
    ) -> StateView {
        StateView {
            sessions: self.sessions.insert(
                code,
                SessionView::created(code, host, is_public, max_members),
            ),
            ..self
        }
    }

    /// The state after `host` created a session under `code`: the session
    /// exists with `host` as its only member, and `host` has left the
    /// session they were in before.
    pub open spec fn create(
        self,
        code: Seq<char>,
        host: Seq<char>,
        is_public: bool,
        max_members: u32,
    ) -> StateView {
        self.open_session(code, host, is_public, max_members).join(code, host)
    }

    /// The state after `pipe` was registered as `user`'s signal stream in
    /// `session_id`; unchanged where there is no such session.
    pub open spec fn register(self, session_id: Seq<char>, user: Seq<char>, pipe: u64)
        -> StateView {
        if self.sessions.contains_key(session_id) {
            StateView {
                sessions: self.sessions.insert(
                    session_id,
                    self.sessions[session_id].register(user, pipe),
                ),
                ..self
            }
        } else {
            self
        }
    }

    /// The state after `user`'s signal stream in `session_id` was taken off
    /// the record; unchanged where there is no such session.
    pub open spec fn unregister(self, session_id: Seq<char>, user: Seq<char>) -> StateView {
        if self.sessions.contains_key(session_id) {
            StateView {
                sessions: self.sessions.insert(
                    session_id,
                    self.sessions[session_id].unregister(user),
                ),
                ..self
            }
        } else {
            self
        }
    }

    /// The state after `user` opened one more global message stream: the
    /// count goes up by one, and with the first stream the user enters the
    /// global session.
    pub open spec fn open_global(self, user: Seq<char>) -> StateView
        recommends
            self.sessions.contains_key(global_id()),
            self.stream_count(user) < usize::MAX,
    {
        let count = self.stream_count(user);
        StateView {
            refs: self.refs.insert(user, (count + 1) as usize),
            sessions: if count == 0 {
                self.sessions.insert(global_id(), self.sessions[global_id()].join(user))
            } else {
                self.sessions
            },
            ..self
        }
    }

    /// The state after one of `user`'s global message streams closed: the
    /// count goes down by one, and with the last stream the user leaves the
    /// global session. A close that no open stream answers to changes
    /// nothing.
    pub open spec fn close_global(self, user: Seq<char>) -> StateView {
        let count = self.stream_count(user);
        if count == 0 {
            self
        } else if count == 1 {
            StateView {
                refs: self.refs.remove(user),
                sessions: if self.sessions.contains_key(global_id()) {
                    self.sessions.insert(
                        global_id(),
                        SessionView {
                            members: without(self.sessions[global_id()].members, user),
                            ..self.sessions[global_id()]
                        },
                    )
                } else {
                    self.sessions
                },
                ..self
            }
        } else {
            StateView { refs: self.refs.insert(user, (count - 1) as usize), ..self }
        }
    }
}

} // verus!
