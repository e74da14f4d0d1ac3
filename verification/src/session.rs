//! The membership protocol: lobby codes, joining and leaving.

use vstd::prelude::*;
use uuid::Uuid;
use crate::clock::{read_clock, timestamp_from_secs};
use crate::invariants::{lemma_join_consistent, lemma_leave_consistent};
use crate::model::{global_id, LeaveView, StateView};
use crate::names::{insert_name, remove_name, same_text};
use crate::registry::{
    index_get, index_insert, index_remove_if, registry_contains, registry_insert, registry_remove,
};
use crate::senders::{collect_pipes, remove_sender};
use crate::state::{ServerState, GLOBAL_SESSION_ID};

verus! {

/// The number of characters in a lobby code.
pub const LOBBY_CODE_LEN: usize = 8;

/// The number of random draws after which `generate_lobby_code` gives up.
pub const LOBBY_CODE_ATTEMPTS: u32 = 0xffff_ffff;

/// `String::push`: appends one character.
///
/// Trusted: std documents `push` as appending the given `char` to the end
/// of the string.
pub assume_specification[ String::push ](s: &mut String, c: char)
    ensures
        final(s)@ == old(s)@.push(c),
;

/// `Uuid::new_v4`, as its sixteen bytes: a random UUID, of which nothing is
/// claimed.
#[verifier::external_body]
fn random_uuid_bytes() -> [u8; 16] {
    Uuid::new_v4().into_bytes()
}

/// The current Unix time in whole seconds; `None` where the clock is set
/// before the start of Unix time.
pub fn now_timestamp() -> Option<i64> {
    match read_clock() {
        Some(secs) => Some(timestamp_from_secs(secs)),
        None => None,
    }
}

/// The `index`-th character of the code alphabet: `A` to `Z`, then `0` to
/// `9`.
pub open spec fn lobby_char(index: int) -> char {
    if index < 26 {
        (65 + index) as char
    } else {
        (48 + index - 26) as char
    }
}

/// Whether `c` is a character of the code alphabet.
pub open spec fn is_code_char(c: char) -> bool {
    ('A' <= c && c <= 'Z') || ('0' <= c && c <= '9')
}

/// Whether `s` has the shape of a lobby code: eight characters, each an
/// upper-case letter or a digit.
pub open spec fn is_lobby_code(s: Seq<char>) -> bool {
    s.len() == 8 && forall|i: int| 0 <= i < 8 ==> is_code_char(#[trigger] s[i])
}

/// Whether the byte at `index` of a random UUID is random in all its
/// bits. Bytes 6 and 8 are not: they hold the version and the variant.
pub open spec fn is_random_byte(index: int) -> bool {
    index != 6 && index != 8
}

/// The number that the random bytes before `upto` spell in base 256, the
/// earliest byte first.
pub open spec fn random_number(bytes: Seq<u8>, upto: nat) -> nat
    decreases upto,
{
    if upto == 0 {
        0
    } else if is_random_byte(upto - 1) {
        random_number(bytes, (upto - 1) as nat) * 256 + bytes[upto - 1] as nat
    } else {
        random_number(bytes, (upto - 1) as nat)
    }
}

/// The `count` lowest digits of `n` in base 36, the lowest first, each as
/// its character of the code alphabet.
pub open spec fn code_digits(n: nat, count: nat) -> Seq<char>
    decreases count,
{
    if count == 0 {
        Seq::empty()
    } else {
        seq![lobby_char((n % 36) as int)] + code_digits(n / 36, (count - 1) as nat)
    }
}

/// The lobby code that the sixteen bytes of a random UUID stand for: the
/// eight lowest base-36 digits of the number that its fourteen random bytes
/// spell. That number is uniform over 2^112 values, so that no code is
/// more likely than another by more than one part in 2^70.
pub open spec fn code_of(bytes: Seq<u8>) -> Seq<char> {
    code_digits(random_number(bytes, 16), 8)
}

/// The number of values that the random bytes before `upto` can spell.
spec fn span(upto: nat) -> nat
    decreases upto,
{
    if upto == 0 {
        1
    } else if is_random_byte(upto - 1) {
        span((upto - 1) as nat) * 256
    } else {
        span((upto - 1) as nat)
    }
}

proof fn lemma_span(upto: nat)
    requires
        upto <= 16,
    ensures
        span(upto) <= 0x1_0000_0000_0000_0000_0000_0000_0000,
    decreases 16 - upto,
{
    if upto == 16 {
        reveal_with_fuel(span, 17);
    } else {
        lemma_span(upto + 1);
        assert(span(upto) <= span(upto + 1));
    }
}

fn lobby_char_at(index: u8) -> (c: char)
    requires
        index < 36,
    ensures
        c == lobby_char(index as int),
        is_code_char(c),
{
    if index < 26 {
        (65u8 + index) as char
    } else {
        (48u8 + (index - 26)) as char
    }
}

/// The lobby code for the sixteen bytes of a random UUID.
pub fn lobby_code_from_bytes(bytes: &[u8; 16]) -> (code: String)
    ensures
        code@ == code_of(bytes@),
        is_lobby_code(code@),
{
    let mut number: u128 = 0;
    let mut i: usize = 0;
    while i < 16
        invariant
            i <= 16,
            number == random_number(bytes@, i as nat),
            number < span(i as nat),
        decreases 16 - i,
    {
        proof {
            lemma_span(i as nat);
            lemma_span((i + 1) as nat);
        }
        if i != 6 && i != 8 {
            number = number * 256 + bytes[i] as u128;
        }
        i += 1;
    }
    let ghost drawn = number as nat;
    let mut code = String::new();
    let mut taken: usize = 0;
    while taken < LOBBY_CODE_LEN
        invariant
            taken <= 8,
            code@.len() == taken,
            code@ + code_digits(number as nat, (8 - taken) as nat) == code_digits(drawn, 8),
            forall|j: int| 0 <= j < taken ==> is_code_char(#[trigger] code@[j]),
        decreases 8 - taken,
    {
        let ghost written = code@;
        let ghost rest = code_digits((number / 36) as nat, (8 - taken - 1) as nat);
        let c = lobby_char_at((number % 36) as u8);
        code.push(c);
        proof {
            assert(code_digits(number as nat, (8 - taken) as nat) == seq![c] + rest);
            assert(code@ + rest =~= written + (seq![c] + rest));
        }
        number = number / 36;
        taken += 1;
    }
    proof {
        assert(code@ + code_digits(number as nat, 0) =~= code@);
    }
    code
}

/// The lobby code for sixteen random bytes, unless a session of `state`
/// has it already.
pub fn try_lobby_code(state: &ServerState, bytes: &[u8; 16]) -> (r: Option<String>)
    ensures
        is_lobby_code(code_of(bytes@)),
        match r {
            Some(code) => code@ == code_of(bytes@) && !state@.sessions.contains_key(code@),
            None => state@.sessions.contains_key(code_of(bytes@)),
        },
{
    let candidate = lobby_code_from_bytes(bytes);
    if registry_contains(&state.sessions, candidate.as_str()) {
        None
    } else {
        Some(candidate)
    }
}

/// Whether some session of `st` is stored under an id that has the shape
/// of a lobby code. Where none is, every draw gives an unused code.
pub open spec fn code_in_use(st: StateView) -> bool {
    exists|code: Seq<char>| is_lobby_code(code) && #[trigger] st.sessions.contains_key(code)
}

/// A server that has just started stores no session under a lobby code:
/// the id of the global session is none.
pub proof fn lemma_initial_has_no_code()
    ensures
        !code_in_use(StateView::initial()),
{
    reveal_strlit("__global__");
    assert forall|code: Seq<char>|
        is_lobby_code(code) implies !#[trigger] StateView::initial().sessions.contains_key(
        code,
    ) by {
        assert(global_id().len() == 10);
    }
}

/// A lobby code that no session of `state` has, drawn at random: the code
/// of the first draw that names no session. `None` after
/// `LOBBY_CODE_ATTEMPTS` draws that all named an existing session, which
/// takes a session stored under a lobby code: on a server without one the
/// first draw succeeds.
pub fn generate_lobby_code(state: &ServerState) -> (r: Option<String>)
    ensures
        r matches Some(code) ==> is_lobby_code(code@) && !state@.sessions.contains_key(code@),
        r.is_none() ==> code_in_use(state@),
{
    let mut attempts: u32 = 0;
    while attempts < LOBBY_CODE_ATTEMPTS
        invariant
            attempts <= LOBBY_CODE_ATTEMPTS,
            attempts > 0 ==> code_in_use(state@),
        decreases LOBBY_CODE_ATTEMPTS - attempts,
    {
        let bytes = random_uuid_bytes();
        if let Some(code) = try_lobby_code(state, &bytes) {
            return Some(code);
        }
        proof {
            assert(is_lobby_code(code_of(bytes@)) && state@.sessions.contains_key(code_of(bytes@)));
        }
        attempts += 1;
    }
    None
}

/// What a leave that took effect hands to its caller.
#[derive(Debug)]
pub struct LeaveInfo {
    /// The signal pipes of the peers that remain.
    pub senders: Vec<u64>,
    /// Whether the session is public: its line in the session list changed.
    pub is_public: bool,
    /// Where the leaver was host and somebody remains: the new host and the
    /// signal pipes to tell of it.
    pub new_host: Option<(String, Vec<u64>)>,
}

impl View for LeaveInfo {
    type V = LeaveView;

    open spec fn view(&self) -> LeaveView {
        LeaveView {
            senders: self.senders@,
            is_public: self.is_public,
            new_host: match self.new_host {
                Some((name, pipes)) => Some((name@, pipes@)),
                None => None,
            },
        }
    }
}

/// The view of what a join reports of its automatic leave.
pub open spec fn left_view(left: Option<(String, LeaveInfo)>) -> Option<(Seq<char>, LeaveView)> {
    match left {
        Some((id, info)) => Some((id@, info@)),
        None => None,
    }
}

/// What the automatic leave of a join hands to the caller: the session
/// left and the leave's outcome.
pub open spec fn auto_leave(st: StateView, session_id: Seq<char>, user: Seq<char>) -> Option<
    (Seq<char>, LeaveView),
> {
    match st.previous(session_id, user) {
        Some(p) => Some((p, st.leave_info(p, user).unwrap())),
        None => None,
    }
}

/// The message of a join that found no session.
pub open spec fn not_found_message(session_id: Seq<char>) -> Seq<char> {
    "Session '"@ + session_id + "' not found"@
}

/// Takes `username` out of `session_id`. Only the first of several leaves
/// takes effect: it removes the user's binding from the index, and the
/// others find no binding and return `None`. The leave that takes effect
/// removes the user from the members and the signal pipes, makes the
/// longest-standing remaining member host if the host left, and takes a
/// session other than the global one off the registry once it is empty.
pub fn leave_session_inner(state: &mut ServerState, session_id: &str, username: &str) -> (r:
    Option<LeaveInfo>)
    ensures
        final(state)@ == old(state)@.leave(session_id@, username@),
        final(state).same_info(old(state)),
        old(state)@.consistent() ==> final(state)@.consistent(),
        old(state)@.consistent() && old(state)@.streams_of_members()
            ==> final(state)@.streams_of_members(),
        old(state)@.consistent() && old(state)@.presence_consistent()
            ==> final(state)@.presence_consistent(),
        match r {
            Some(info) => old(state)@.leave_info(session_id@, username@) == Some(info@),
            None => old(state)@.leave_info(session_id@, username@).is_none(),
        },
{
    proof {
        if state@.consistent() {
            lemma_leave_consistent(state@, session_id@, username@);
        }
    }
    if !index_remove_if(&mut state.user_session_index, username, session_id) {
        return None;
    }
    let ghost before = old(state)@;
    let info = match registry_remove(&mut state.sessions, session_id) {
        Some(session) => {
            let mut session = session;
            let ghost record = session@;
            let was_host = same_text(&session.inner.host, username);
            remove_name(&mut session.inner.members, username);
            remove_sender(&mut session.inner.signal_senders, username);
            let senders = collect_pipes(&session.inner.signal_senders);
            let new_host = if was_host && session.inner.members.len() > 0 {
                let name = session.inner.members[0].clone();
                session.inner.host = name.clone();
                let host_senders = collect_pipes(&session.inner.signal_senders);
                Some((name, host_senders))
            } else {
                None
            };
            proof {
                assert(session@ =~= record.leave(username@));
            }
            let is_empty = session.inner.members.len() == 0;
            let is_global = session_id.eq(GLOBAL_SESSION_ID);
            let is_public = session.is_public;
            if !(is_empty && !is_global) {
                registry_insert(&mut state.sessions, session_id.to_owned(), session);
            }
            proof {
                assert(before.sessions.remove(session_id@).insert(
                    session_id@,
                    record.leave(username@),
                ) =~= before.sessions.insert(session_id@, record.leave(username@)));
            }
            let info = LeaveInfo { senders, is_public, new_host };
            proof {
                assert(info@ =~= before.leave_info(session_id@, username@).unwrap());
            }
            info
        },
        None => {
            let info = LeaveInfo { senders: Vec::new(), is_public: false, new_host: None };
            proof {
                assert(before.sessions.remove(session_id@) =~= before.sessions);
                assert(info@ =~= before.leave_info(session_id@, username@).unwrap());
            }
            info
        },
    };
    proof {
        assert(state@ =~= before.leave(session_id@, username@));
    }
    Some(info)
}

/// Puts `username` into `session_id`, after leaving the session the user
/// was in if that is another one. The result reports that automatic leave,
/// so that the caller can tell the session left. Fails where the target
/// does not exist; the automatic leave has taken effect even then.
pub fn join_session_inner(state: &mut ServerState, session_id: &str, username: &str) -> (r: Result<
    Option<(String, LeaveInfo)>,
    String,
>)
    ensures
        final(state)@ == old(state)@.join(session_id@, username@),
        final(state).same_info(old(state)),
        old(state)@.consistent() ==> final(state)@.consistent(),
        old(state)@.consistent() && old(state)@.streams_of_members()
            ==> final(state)@.streams_of_members(),
        old(state)@.consistent() && old(state)@.presence_consistent() && session_id@
            != global_id() ==> final(state)@.presence_consistent(),
        r is Ok <==> old(state)@.join_finds(session_id@, username@),
        r matches Ok(left) ==> left_view(left) == auto_leave(
            old(state)@,
            session_id@,
            username@,
        ),
        r matches Err(message) ==> message@ == not_found_message(session_id@),
{
    let ghost before = state@;
    proof {
        if before.consistent() {
            lemma_join_consistent(before, session_id@, username@);
        }
    }
    let left = match index_get(&state.user_session_index, username) {
        Some(previous) => {
            if same_text(&previous, session_id) {
                None
            } else {
                match leave_session_inner(state, previous.as_str(), username) {
                    Some(info) => Some((previous, info)),
                    None => None,
                }
            }
        },
        None => None,
    };
    let ghost vacated = state@;
    proof {
        assert(vacated == before.vacate(session_id@, username@));
        assert(left_view(left) == auto_leave(before, session_id@, username@));
    }
    match registry_remove(&mut state.sessions, session_id) {
        Some(session) => {
            let mut session = session;
            let ghost record = session@;
            insert_name(&mut session.inner.members, username);
            proof {
                assert(session@ =~= record.join(username@));
            }
            registry_insert(&mut state.sessions, session_id.to_owned(), session);
            index_insert(&mut state.user_session_index, username.to_owned(), session_id.to_owned());
            proof {
                assert(vacated.sessions.remove(session_id@).insert(
                    session_id@,
                    record.join(username@),
                ) =~= vacated.sessions.insert(session_id@, record.join(username@)));
                assert(state@ =~= before.join(session_id@, username@));
            }
            Ok(left)
        },
        None => {
            proof {
                assert(vacated.sessions.remove(session_id@) =~= vacated.sessions);
                assert(state@ =~= before.join(session_id@, username@));
            }
            let message = String::from_str("Session '").concat(session_id).concat("' not found");
            Err(message)
        },
    }
}

} // verus!
