//! What holds of the server's state between any two requests, and the
//! proofs that every step of the membership protocol keeps it so.

use vstd::prelude::*;
use crate::model::{global_id, SessionView, StateView};
use crate::senders::{
    distinct_senders, has_sender, lemma_senders_with_distinct, lemma_senders_with_has,
    lemma_senders_without_distinct, lemma_senders_without_has,
};
use crate::names::{
    lemma_with_name_no_duplicates, lemma_without_contains, lemma_without_no_duplicates, without,
};

verus! {

impl StateView {
    /// The global session is on the registry.
    pub open spec fn global_kept(self) -> bool {
        self.sessions.contains_key(global_id())
    }

    /// Every session is stored under its own id.
    pub open spec fn keyed_by_id(self) -> bool {
        forall|s: Seq<char>| #[trigger] self.sessions.contains_key(s) ==> self.sessions[s].id == s
    }

    /// No session lists a member twice.
    pub open spec fn members_distinct(self) -> bool {
        forall|s: Seq<char>| #[trigger]
            self.sessions.contains_key(s) ==> self.sessions[s].members.no_duplicates()
    }

    /// No user has two signal streams registered in one session.
    pub open spec fn senders_distinct(self) -> bool {
        forall|s: Seq<char>| #[trigger]
            self.sessions.contains_key(s) ==> distinct_senders(self.sessions[s].signal_senders)
    }

    /// The index and the member lists of the sessions other than the global
    /// one say the same: a user is a member of such a session exactly when
    /// the index binds the user to it.
    pub open spec fn index_consistent(self) -> bool {
        forall|u: Seq<char>, s: Seq<char>|
            #![trigger self.bound(u, s)]
            #![trigger self.member(u, s)]
            s != global_id() ==> (self.bound(u, s) <==> self.member(u, s))
    }

    /// No user is a member of two sessions other than the global one.
    pub open spec fn single_membership(self) -> bool {
        forall|u: Seq<char>, s: Seq<char>, t: Seq<char>|
            s != global_id() && t != global_id() && #[trigger] self.member(u, s)
                && #[trigger] self.member(u, t) ==> s == t
    }

    /// No session other than the global one is on the registry without a
    /// member.
    pub open spec fn no_empty_session(self) -> bool {
        forall|s: Seq<char>|
            s != global_id() && #[trigger] self.sessions.contains_key(s)
                ==> self.sessions[s].members.len() > 0
    }

    /// The host of every session other than the global one is one of its
    /// members, unless it has none.
    pub open spec fn host_present(self) -> bool {
        forall|s: Seq<char>|
            s != global_id() && #[trigger] self.sessions.contains_key(s)
                ==> self.sessions[s].members.contains(self.sessions[s].host)
                || self.sessions[s].members.len() == 0
    }

    /// What holds between any two requests, whatever the requests were.
    pub open spec fn consistent(self) -> bool {
        &&& self.global_kept()
        &&& self.keyed_by_id()
        &&& self.members_distinct()
        &&& self.senders_distinct()
        &&& self.index_consistent()
        &&& self.no_empty_session()
        &&& self.host_present()
    }

    /// In every session other than the global one, whoever has a signal
    /// stream open is a member.
    pub open spec fn streams_of_members(self) -> bool {
        forall|u: Seq<char>, s: Seq<char>|
            s != global_id() && self.sessions.contains_key(s) && #[trigger] has_sender(
                self.sessions[s].signal_senders,
                u,
            ) ==> self.sessions[s].members.contains(u)
    }

    /// No user is bound to the global session by the index.
    pub open spec fn global_unbound(self) -> bool {
        forall|u: Seq<char>| !#[trigger] self.bound(u, global_id())
    }

    /// A user is a member of the global session exactly while the user has
    /// a global message stream open.
    pub open spec fn presence_counted(self) -> bool {
        forall|u: Seq<char>|
            #![trigger self.member(u, global_id())]
            #![trigger self.stream_count(u)]
            self.member(u, global_id()) <==> self.stream_count(u) >= 1
    }

    /// What holds of the global session as long as nobody joins it by a
    /// join request: presence follows the open streams alone.
    pub open spec fn presence_consistent(self) -> bool {
        self.global_unbound() && self.presence_counted()
    }
}

/// A server that has just started is consistent.
pub proof fn lemma_initial_consistent()
    ensures
        StateView::initial().consistent(),
        StateView::initial().presence_consistent(),
        StateView::initial().streams_of_members(),
{
    let st = StateView::initial();
    assert(st.sessions.contains_key(global_id()));
    assert(st.sessions[global_id()] == SessionView::global());
    assert forall|u: Seq<char>| !st.member(u, global_id()) by {}
}

/// Membership by the index admits one session per user at most.
pub proof fn lemma_single_membership(st: StateView)
    requires
        st.index_consistent(),
    ensures
        st.single_membership(),
{
    assert forall|u: Seq<char>, s: Seq<char>, t: Seq<char>|
        s != global_id() && t != global_id() && #[trigger] st.member(u, s) && #[trigger] st.member(
            u,
            t,
        ) implies s == t by {
        assert(st.bound(u, s));
        assert(st.bound(u, t));
    }
}

/// How a leave changes the member lists: the leaver is out of the session
/// left, and nothing else changes.
pub proof fn lemma_leave_members(st: StateView, session_id: Seq<char>, user: Seq<char>)
    requires
        st.bound(user, session_id),
    ensures
        !st.leave(session_id, user).index.contains_key(user),
        !st.leave(session_id, user).member(user, session_id),
        forall|u: Seq<char>, s: Seq<char>|
            #![trigger st.leave(session_id, user).member(u, s)]
            (u != user || s != session_id) ==> (st.leave(session_id, user).member(u, s)
                <==> st.member(u, s)),
        forall|u: Seq<char>, s: Seq<char>|
            #![trigger st.leave(session_id, user).bound(u, s)]
            u != user ==> (st.leave(session_id, user).bound(u, s) <==> st.bound(u, s)),
{
    let after = st.leave(session_id, user);
    if st.sessions.contains_key(session_id) {
        let members = st.sessions[session_id].members;
        lemma_without_contains(members, user, user);
        assert forall|u: Seq<char>, s: Seq<char>|
            #![trigger after.member(u, s)]
            (u != user || s != session_id) implies (after.member(u, s) <==> st.member(u, s)) by {
            if s == session_id {
                lemma_without_contains(members, user, u);
                if without(members, user).len() == 0 && st.member(u, s) {
                    let i = choose|i: int|
                        0 <= i < without(members, user).len() && without(members, user)[i] == u;
                }
            }
        }
    }
}

/// A leave keeps the state consistent.
pub proof fn lemma_leave_consistent(st: StateView, session_id: Seq<char>, user: Seq<char>)
    requires
        st.consistent(),
    ensures
        st.leave(session_id, user).consistent(),
        st.presence_consistent() ==> st.leave(session_id, user).presence_consistent(),
        st.streams_of_members() ==> st.leave(session_id, user).streams_of_members(),
{
    let after = st.leave(session_id, user);
    if st.bound(user, session_id) {
        lemma_leave_members(st, session_id, user);
        if st.sessions.contains_key(session_id) {
            lemma_senders_without_distinct(st.sessions[session_id].signal_senders, user);
        }
        if st.streams_of_members() {
            assert forall|u: Seq<char>, s: Seq<char>|
                s != global_id() && after.sessions.contains_key(s) && #[trigger] has_sender(
                    after.sessions[s].signal_senders,
                    u,
                ) implies after.sessions[s].members.contains(u) by {
                if s == session_id {
                    let record = st.sessions[session_id];
                    lemma_senders_without_has(record.signal_senders, user, u);
                    lemma_without_contains(record.members, user, u);
                }
            }
        }
        if st.sessions.contains_key(session_id) {
            let record = st.sessions[session_id];
            let left = record.leave(user);
            lemma_without_no_duplicates(record.members, user);
            if session_id != global_id() && left.members.len() > 0 {
                if record.host == user {
                    assert(left.members[0] == left.host);
                } else {
                    lemma_without_contains(record.members, user, record.host);
                }
            }
        }
        assert forall|u: Seq<char>, s: Seq<char>|
            #![trigger after.bound(u, s)]
            #![trigger after.member(u, s)]
            s != global_id() implies (after.bound(u, s) <==> after.member(u, s)) by {
            if u == user {
                if s != session_id {
                    assert(st.member(u, s) <==> st.bound(u, s));
                }
            } else {
                assert(st.member(u, s) <==> st.bound(u, s));
            }
        }
        if st.presence_consistent() {
            assert(!st.bound(user, global_id()));
            assert forall|u: Seq<char>|
                #![trigger after.member(u, global_id())]
                #![trigger after.stream_count(u)]
                after.member(u, global_id()) <==> after.stream_count(u) >= 1 by {
                assert(after.member(u, global_id()) <==> st.member(u, global_id()));
                assert(after.stream_count(u) == st.stream_count(u));
            }
            assert forall|u: Seq<char>| !#[trigger] after.bound(u, global_id()) by {
                if u != user {
                    assert(!st.bound(u, global_id()));
                }
            }
        }
    }
}

/// How a join changes the member lists, once the joiner is bound to no
/// other session: the joiner is in the session joined, and nothing else
/// changes.
proof fn lemma_enter_members(st: StateView, session_id: Seq<char>, user: Seq<char>)
    requires
        st.sessions.contains_key(session_id),
        st.previous(session_id, user).is_none(),
    ensures
        st.join(session_id, user).bound(user, session_id),
        st.join(session_id, user).member(user, session_id),
        forall|u: Seq<char>, s: Seq<char>|
            #![trigger st.join(session_id, user).member(u, s)]
            (u != user || s != session_id) ==> (st.join(session_id, user).member(u, s)
                <==> st.member(u, s)),
        forall|u: Seq<char>, s: Seq<char>|
            #![trigger st.join(session_id, user).bound(u, s)]
            u != user ==> (st.join(session_id, user).bound(u, s) <==> st.bound(u, s)),
        forall|s: Seq<char>|
            #![trigger st.join(session_id, user).bound(user, s)]
            s != session_id ==> !st.join(session_id, user).bound(user, s),
{
    let after = st.join(session_id, user);
    let members = st.sessions[session_id].members;
    if !members.contains(user) {
        assert(members.push(user)[members.len() as int] == user);
    }
    assert forall|u: Seq<char>, s: Seq<char>|
        #![trigger after.member(u, s)]
        (u != user || s != session_id) implies (after.member(u, s) <==> st.member(u, s)) by {
        if s == session_id && !members.contains(user) {
            let grown = members.push(user);
            if members.contains(u) {
                let i = choose|i: int| 0 <= i < members.len() && members[i] == u;
                assert(grown[i] == u);
            }
            if grown.contains(u) {
                let i = choose|i: int| 0 <= i < grown.len() && grown[i] == u;
                assert(members[i] == u);
            }
        }
    }
}

/// A join keeps the state consistent, whether it finds its target or not.
pub proof fn lemma_join_consistent(st: StateView, session_id: Seq<char>, user: Seq<char>)
    requires
        st.consistent(),
    ensures
        st.join(session_id, user).consistent(),
        st.presence_consistent() && session_id != global_id() ==> st.join(
            session_id,
            user,
        ).presence_consistent(),
        st.streams_of_members() ==> st.join(session_id, user).streams_of_members(),
{
    let vacated = st.vacate(session_id, user);
    let after = st.join(session_id, user);
    match st.previous(session_id, user) {
        Some(p) => {
            lemma_leave_consistent(st, p, user);
            lemma_leave_members(st, p, user);
        },
        None => {},
    }
    assert(vacated.consistent());
    assert(vacated.previous(session_id, user).is_none());
    assert(after == vacated.join(session_id, user));
    if vacated.sessions.contains_key(session_id) {
        lemma_enter_members(vacated, session_id, user);
        let record = vacated.sessions[session_id];
        lemma_with_name_no_duplicates(record.members, user);
        if st.streams_of_members() {
            assert(vacated.streams_of_members());
            assert forall|u: Seq<char>, s: Seq<char>|
                s != global_id() && after.sessions.contains_key(s) && #[trigger] has_sender(
                    after.sessions[s].signal_senders,
                    u,
                ) implies after.sessions[s].members.contains(u) by {
                assert(has_sender(vacated.sessions[s].signal_senders, u));
            }
        }
        if session_id != global_id() {
            assert(record.members.len() > 0);
            assert(record.join(user).members.contains(record.host));
        }
        assert forall|u: Seq<char>, s: Seq<char>|
            #![trigger after.bound(u, s)]
            #![trigger after.member(u, s)]
            s != global_id() implies (after.bound(u, s) <==> after.member(u, s)) by {
            if u == user && s != session_id {
                assert(vacated.member(u, s) <==> vacated.bound(u, s));
                assert(!vacated.bound(u, s));
            } else if u != user {
                assert(vacated.member(u, s) <==> vacated.bound(u, s));
            }
        }
        if st.presence_consistent() && session_id != global_id() {
            assert(vacated.presence_consistent());
            assert forall|u: Seq<char>|
                #![trigger after.member(u, global_id())]
                #![trigger after.stream_count(u)]
                after.member(u, global_id()) <==> after.stream_count(u) >= 1 by {
                assert(after.member(u, global_id()) <==> vacated.member(u, global_id()));
                assert(after.stream_count(u) == vacated.stream_count(u));
            }
            assert forall|u: Seq<char>| !#[trigger] after.bound(u, global_id()) by {
                if u != user {
                    assert(!vacated.bound(u, global_id()));
                }
            }
        }
    }
}

/// Creating a session under an unused code keeps the state consistent.
pub proof fn lemma_create_consistent(
    st: StateView,
    code: Seq<char>,
    host: Seq<char>,
    is_public: bool,
    max_members: u32,
)
    requires
        st.consistent(),
        !st.sessions.contains_key(code),
    ensures
        st.create(code, host, is_public, max_members).consistent(),
        st.presence_consistent() ==> st.create(
            code,
            host,
            is_public,
            max_members,
        ).presence_consistent(),
        st.streams_of_members() ==> st.create(
            code,
            host,
            is_public,
            max_members,
        ).streams_of_members(),
{
    let opened = st.open_session(code, host, is_public, max_members);
    let after = st.create(code, host, is_public, max_members);
    let cleared = st.vacate(code, host);
    assert(!st.member(host, code));
    assert(!st.bound(host, code));
    match st.previous(code, host) {
        Some(p) => {
            lemma_leave_consistent(st, p, host);
            lemma_leave_members(st, p, host);
            assert(opened.leave(p, host) =~= cleared.open_session(
                code,
                host,
                is_public,
                max_members,
            ));
        },
        None => {},
    }
    let vacated = cleared.open_session(code, host, is_public, max_members);
    assert(opened.vacate(code, host) == vacated);
    assert(cleared.consistent());
    assert(!cleared.sessions.contains_key(code));
    assert(!cleared.index.contains_key(host));
    lemma_enter_members(vacated, code, host);
    let created = SessionView::created(code, host, is_public, max_members);
    assert(created.join(host).members =~= seq![host]);
    assert(seq![host][0] == host);
    assert forall|u: Seq<char>, s: Seq<char>|
        #![trigger after.bound(u, s)]
        #![trigger after.member(u, s)]
        s != global_id() implies (after.bound(u, s) <==> after.member(u, s)) by {
        if s == code {
            if u != host {
                assert(!cleared.member(u, s));
                assert(!cleared.bound(u, s));
                assert(!vacated.member(u, s));
            }
        } else {
            assert(cleared.member(u, s) <==> cleared.bound(u, s));
            assert(vacated.member(u, s) <==> cleared.member(u, s));
            if u == host {
                assert(!cleared.bound(u, s));
            }
        }
    }
    assert forall|s: Seq<char>| #[trigger] after.sessions.contains_key(s) implies after.sessions[s].id
        == s && after.sessions[s].members.no_duplicates() by {
        if s != code {
            assert(cleared.sessions.contains_key(s));
        }
    }
    assert forall|s: Seq<char>|
        s != global_id() && #[trigger] after.sessions.contains_key(s) implies after.sessions[s].members.len()
        > 0 && after.sessions[s].members.contains(after.sessions[s].host) by {
        if s != code {
            assert(cleared.sessions.contains_key(s));
        }
    }
    if st.streams_of_members() {
        assert(cleared.streams_of_members());
        assert forall|u: Seq<char>, s: Seq<char>|
            s != global_id() && after.sessions.contains_key(s) && #[trigger] has_sender(
                after.sessions[s].signal_senders,
                u,
            ) implies after.sessions[s].members.contains(u) by {
            if s != code {
                assert(has_sender(cleared.sessions[s].signal_senders, u));
                assert(cleared.member(u, s));
                assert(vacated.member(u, s));
                assert(after.member(u, s));
            }
        }
    }
    if st.presence_consistent() {
        assert(cleared.presence_consistent());
        assert forall|u: Seq<char>|
            #![trigger after.member(u, global_id())]
            #![trigger after.stream_count(u)]
            after.member(u, global_id()) <==> after.stream_count(u) >= 1 by {
            assert(after.member(u, global_id()) <==> cleared.member(u, global_id()));
            assert(after.stream_count(u) == cleared.stream_count(u));
        }
        assert forall|u: Seq<char>| !#[trigger] after.bound(u, global_id()) by {
            if u != host {
                assert(!cleared.bound(u, global_id()));
            }
        }
    }
}

/// Opening and closing signal streams keeps the state consistent: the
/// member lists and the index stay as they are.
pub proof fn lemma_register_consistent(
    st: StateView,
    session_id: Seq<char>,
    user: Seq<char>,
    pipe: u64,
)
    requires
        st.consistent(),
    ensures
        st.register(session_id, user, pipe).consistent(),
        st.unregister(session_id, user).consistent(),
        st.presence_consistent() ==> st.register(session_id, user, pipe).presence_consistent()
            && st.unregister(session_id, user).presence_consistent(),
        st.streams_of_members() && (st.member(user, session_id) || session_id == global_id())
            ==> st.register(session_id, user, pipe).streams_of_members(),
        st.streams_of_members() ==> st.unregister(session_id, user).streams_of_members(),
{
    let a = st.register(session_id, user, pipe);
    let b = st.unregister(session_id, user);
    if st.sessions.contains_key(session_id) {
        lemma_senders_without_distinct(st.sessions[session_id].signal_senders, user);
        lemma_senders_with_distinct(st.sessions[session_id].signal_senders, user, pipe);
    }
    if st.streams_of_members() {
        assert forall|u: Seq<char>, s: Seq<char>|
            s != global_id() && b.sessions.contains_key(s) && #[trigger] has_sender(
                b.sessions[s].signal_senders,
                u,
            ) implies b.sessions[s].members.contains(u) by {
            if s == session_id {
                lemma_senders_without_has(st.sessions[s].signal_senders, user, u);
            }
        }
        if st.member(user, session_id) || session_id == global_id() {
            assert forall|u: Seq<char>, s: Seq<char>|
                s != global_id() && a.sessions.contains_key(s) && #[trigger] has_sender(
                    a.sessions[s].signal_senders,
                    u,
                ) implies a.sessions[s].members.contains(u) by {
                if s == session_id {
                    lemma_senders_with_has(st.sessions[s].signal_senders, user, pipe, u);
                }
            }
        }
    }
    assert forall|u: Seq<char>, s: Seq<char>|
        #![trigger a.member(u, s)]
        #![trigger b.member(u, s)]
        (a.member(u, s) <==> st.member(u, s)) && (b.member(u, s) <==> st.member(u, s)) by {}
    assert forall|u: Seq<char>, s: Seq<char>|
        #![trigger a.bound(u, s)]
        #![trigger a.member(u, s)]
        s != global_id() implies (a.bound(u, s) <==> a.member(u, s)) by {
        assert(st.bound(u, s) <==> st.member(u, s));
    }
    assert forall|u: Seq<char>, s: Seq<char>|
        #![trigger b.bound(u, s)]
        #![trigger b.member(u, s)]
        s != global_id() implies (b.bound(u, s) <==> b.member(u, s)) by {
        assert(st.bound(u, s) <==> st.member(u, s));
    }
    assert forall|s: Seq<char>| #[trigger] a.sessions.contains_key(s) implies st.sessions.contains_key(
        s,
    ) by {}
    assert forall|s: Seq<char>| #[trigger] b.sessions.contains_key(s) implies st.sessions.contains_key(
        s,
    ) by {}
    if st.presence_consistent() {
        assert forall|u: Seq<char>|
            #![trigger a.member(u, global_id())]
            #![trigger a.stream_count(u)]
            a.member(u, global_id()) <==> a.stream_count(u) >= 1 by {
            assert(st.member(u, global_id()) <==> st.stream_count(u) >= 1);
        }
        assert forall|u: Seq<char>|
            #![trigger b.member(u, global_id())]
            #![trigger b.stream_count(u)]
            b.member(u, global_id()) <==> b.stream_count(u) >= 1 by {
            assert(st.member(u, global_id()) <==> st.stream_count(u) >= 1);
        }
        assert forall|u: Seq<char>| !#[trigger] a.bound(u, global_id()) by {
            assert(!st.bound(u, global_id()));
        }
        assert forall|u: Seq<char>| !#[trigger] b.bound(u, global_id()) by {
            assert(!st.bound(u, global_id()));
        }
    }
}

/// Opening a global message stream keeps the state consistent, and keeps
/// presence in step with the stream counts.
pub proof fn lemma_open_global_consistent(st: StateView, user: Seq<char>)
    requires
        st.consistent(),
        st.stream_count(user) < usize::MAX,
    ensures
        st.open_global(user).consistent(),
        st.presence_consistent() ==> st.open_global(user).presence_consistent(),
        st.streams_of_members() ==> st.open_global(user).streams_of_members(),
        st.open_global(user).stream_count(user) == st.stream_count(user) + 1,
{
    let after = st.open_global(user);
    if st.streams_of_members() {
        assert forall|u: Seq<char>, s: Seq<char>|
            s != global_id() && after.sessions.contains_key(s) && #[trigger] has_sender(
                after.sessions[s].signal_senders,
                u,
            ) implies after.sessions[s].members.contains(u) by {
            assert(has_sender(st.sessions[s].signal_senders, u));
        }
    }
    let record = st.sessions[global_id()];
    lemma_with_name_no_duplicates(record.members, user);
    assert forall|u: Seq<char>, s: Seq<char>|
        #![trigger after.member(u, s)]
        s != global_id() implies (after.member(u, s) <==> st.member(u, s)) by {}
    assert forall|u: Seq<char>, s: Seq<char>|
        #![trigger after.bound(u, s)]
        #![trigger after.member(u, s)]
        s != global_id() implies (after.bound(u, s) <==> after.member(u, s)) by {
        assert(st.bound(u, s) <==> st.member(u, s));
    }
    assert forall|s: Seq<char>| #[trigger] after.sessions.contains_key(s) implies st.sessions.contains_key(
        s,
    ) by {}
    if st.presence_consistent() {
        assert forall|u: Seq<char>|
            #![trigger after.member(u, global_id())]
            #![trigger after.stream_count(u)]
            after.member(u, global_id()) <==> after.stream_count(u) >= 1 by {
            assert(st.member(u, global_id()) <==> st.stream_count(u) >= 1);
        }
        assert forall|u: Seq<char>| !#[trigger] after.bound(u, global_id()) by {
            assert(!st.bound(u, global_id()));
        }
    }
}

/// Closing a global message stream keeps the state consistent, and keeps
/// presence in step with the stream counts.
pub proof fn lemma_close_global_consistent(st: StateView, user: Seq<char>)
    requires
        st.consistent(),
    ensures
        st.close_global(user).consistent(),
        st.presence_consistent() ==> st.close_global(user).presence_consistent(),
        st.streams_of_members() ==> st.close_global(user).streams_of_members(),
        st.stream_count(user) >= 1 ==> st.close_global(user).stream_count(user) == st.stream_count(
            user,
        ) - 1,
{
    let after = st.close_global(user);
    if st.streams_of_members() {
        assert forall|u: Seq<char>, s: Seq<char>|
            s != global_id() && after.sessions.contains_key(s) && #[trigger] has_sender(
                after.sessions[s].signal_senders,
                u,
            ) implies after.sessions[s].members.contains(u) by {
            assert(has_sender(st.sessions[s].signal_senders, u));
        }
    }
    let record = st.sessions[global_id()];
    lemma_without_no_duplicates(record.members, user);
    assert forall|u: Seq<char>, s: Seq<char>|
        #![trigger after.member(u, s)]
        s != global_id() implies (after.member(u, s) <==> st.member(u, s)) by {}
    assert forall|u: Seq<char>, s: Seq<char>|
        #![trigger after.bound(u, s)]
        #![trigger after.member(u, s)]
        s != global_id() implies (after.bound(u, s) <==> after.member(u, s)) by {
        assert(st.bound(u, s) <==> st.member(u, s));
    }
    assert forall|s: Seq<char>| #[trigger] after.sessions.contains_key(s) implies st.sessions.contains_key(
        s,
    ) by {}
    if st.presence_consistent() {
        assert forall|u: Seq<char>|
            #![trigger after.member(u, global_id())]
            #![trigger after.stream_count(u)]
            after.member(u, global_id()) <==> after.stream_count(u) >= 1 by {
            assert(st.member(u, global_id()) <==> st.stream_count(u) >= 1);
            lemma_without_contains(record.members, user, u);
        }
        assert forall|u: Seq<char>| !#[trigger] after.bound(u, global_id()) by {
            assert(!st.bound(u, global_id()));
        }
    }
}

} // verus!
