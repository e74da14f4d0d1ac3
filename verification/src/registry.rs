//! The three concurrent maps of the server state, and what is assumed of
//! the `dashmap` operations used on them.
//!
//! Every function here that changes a map takes it by `&mut`: the server
//! state is changed by one request at a time, and what a map holds is then a
//! function of the map.

use vstd::prelude::*;
use dashmap::DashMap;
use crate::model::SessionView;
use crate::names::same_text;
use crate::state::SessionData;

verus! {

/// `dashmap::DashMap`, as an opaque type: nothing is known of a map but
/// what the functions below say of it.
#[verifier::external_type_specification]
#[verifier::external_body]
#[verifier::reject_recursive_types(K)]
#[verifier::reject_recursive_types(V)]
#[verifier::reject_recursive_types(S)]
pub struct ExDashMap<K, V, S>(DashMap<K, V, S>);

/// The sessions that a registry holds, by id.
pub uninterp spec fn registry_sessions(m: DashMap<String, SessionData>) -> Map<
    Seq<char>,
    SessionView,
>;

/// The session that an index binds each user to.
pub uninterp spec fn index_entries(m: DashMap<String, String>) -> Map<Seq<char>, Seq<char>>;

/// The stream count that a map keeps for each user.
pub uninterp spec fn stream_refs(m: DashMap<String, usize>) -> Map<Seq<char>, usize>;

/// `DashMap::new`: the new map is empty.
#[verifier::external_body]
pub(crate) fn registry_new() -> (m: DashMap<String, SessionData>)
    ensures
        registry_sessions(m) =~= Map::empty(),
{
    DashMap::new()
}

/// `DashMap::contains_key`: whether the map has an entry under `id`.
#[verifier::external_body]
pub(crate) fn registry_contains(m: &DashMap<String, SessionData>, id: &str) -> (r: bool)
    ensures
        r == registry_sessions(*m).contains_key(id@),
{
    m.contains_key(id)
}

/// `DashMap::get`: a copy of the session stored under `id`, if there is one.
#[verifier::external_body]
pub(crate) fn registry_get(m: &DashMap<String, SessionData>, id: &str) -> (r: Option<SessionData>)
    ensures
        r.is_some() == registry_sessions(*m).contains_key(id@),
        r matches Some(s) ==> s@ == registry_sessions(*m)[id@],
{
    m.get(id).map(|entry| entry.value().clone())
}

/// `DashMap::insert`: afterwards `id` maps to `session`, in place of what
/// it mapped to before; the other entries stay.
#[verifier::external_body]
pub(crate) fn registry_insert(m: &mut DashMap<String, SessionData>, id: String, session: SessionData)
    ensures
        registry_sessions(*final(m)) == registry_sessions(*old(m)).insert(id@, session@),
{
    m.insert(id, session);
}

/// `DashMap::remove`: the entry under `id` leaves the map and its session
/// is returned, if there was one; the other entries stay.
#[verifier::external_body]
pub(crate) fn registry_remove(m: &mut DashMap<String, SessionData>, id: &str) -> (r: Option<
    SessionData,
>)
    ensures
        r.is_some() == registry_sessions(*old(m)).contains_key(id@),
        r matches Some(s) ==> s@ == registry_sessions(*old(m))[id@],
        registry_sessions(*final(m)) == registry_sessions(*old(m)).remove(id@),
{
    m.remove(id).map(|(_, session)| session)
}

/// `DashMap::iter`: a copy of every entry, each once, in no stated order.
#[verifier::external_body]
pub(crate) fn registry_snapshot(m: &DashMap<String, SessionData>) -> (r: Vec<(String, SessionData)>)
    ensures
        forall|i: int|
            0 <= i < r.len() ==> registry_sessions(*m).contains_key((#[trigger] r[i]).0@)
                && r[i].1@ == registry_sessions(*m)[r[i].0@],
        forall|k: Seq<char>| #[trigger]
            registry_sessions(*m).contains_key(k) ==> exists|i: int|
                0 <= i < r.len() && (#[trigger] r[i]).0@ == k,
        forall|i: int, j: int| 0 <= i < j < r.len() ==> (#[trigger] r[i]).0@ != (#[trigger] r[j]).0@,
{
    m.iter().map(|entry| (entry.key().clone(), entry.value().clone())).collect()
}

/// `DashMap::new`: the new map is empty.
#[verifier::external_body]
pub(crate) fn index_new() -> (m: DashMap<String, String>)
    ensures
        index_entries(m) =~= Map::empty(),
{
    DashMap::new()
}

/// `DashMap::get`: a copy of the session id that `user` is bound to, if any.
#[verifier::external_body]
pub(crate) fn index_get(m: &DashMap<String, String>, user: &str) -> (r: Option<String>)
    ensures
        r.is_some() == index_entries(*m).contains_key(user@),
        r matches Some(id) ==> id@ == index_entries(*m)[user@],
{
    m.get(user).map(|entry| entry.value().clone())
}

/// `DashMap::insert`: afterwards `user` is bound to `session_id`, in place
/// of an earlier binding; the other entries stay.
#[verifier::external_body]
pub(crate) fn index_insert(m: &mut DashMap<String, String>, user: String, session_id: String)
    ensures
        index_entries(*final(m)) == index_entries(*old(m)).insert(user@, session_id@),
{
    m.insert(user, session_id);
}

/// `DashMap::remove_if`: the binding of `user` is removed if it is to
/// `session_id`, and the result says whether it was; otherwise the map
/// stays as it is.
#[verifier::external_body]
pub(crate) fn index_remove_if(m: &mut DashMap<String, String>, user: &str, session_id: &str) -> (r:
    bool)
    ensures
        r == (index_entries(*old(m)).contains_key(user@) && index_entries(*old(m))[user@]
            == session_id@),
        index_entries(*final(m)) == if r {
            index_entries(*old(m)).remove(user@)
        } else {
            index_entries(*old(m))
        },
{
    m.remove_if(user, |_, bound| same_text(bound, session_id)).is_some()
}

/// `DashMap::new`: the new map is empty.
#[verifier::external_body]
pub(crate) fn refs_new() -> (m: DashMap<String, usize>)
    ensures
        stream_refs(m) =~= Map::empty(),
{
    DashMap::new()
}

/// `DashMap::get`: the count kept for `user`, if any.
#[verifier::external_body]
pub(crate) fn refs_get(m: &DashMap<String, usize>, user: &str) -> (r: Option<usize>)
    ensures
        r == if stream_refs(*m).contains_key(user@) {
            Some(stream_refs(*m)[user@])
        } else {
            None
        },
{
    m.get(user).map(|entry| *entry.value())
}

/// `DashMap::insert`: afterwards the count of `user` is `count`; the other
/// entries stay.
#[verifier::external_body]
pub(crate) fn refs_insert(m: &mut DashMap<String, usize>, user: String, count: usize)
    ensures
        stream_refs(*final(m)) == stream_refs(*old(m)).insert(user@, count),
{
    m.insert(user, count);
}

/// `DashMap::remove`: afterwards no count is kept for `user`; the other
/// entries stay.
#[verifier::external_body]
pub(crate) fn refs_remove(m: &mut DashMap<String, usize>, user: &str)
    ensures
        stream_refs(*final(m)) == stream_refs(*old(m)).remove(user@),
{
    m.remove(user);
}

} // verus!
