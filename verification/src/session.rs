//! Sessions: a client's use of a device.

use vstd::prelude::*;
use dashmap::DashMap;
use crate::error::{AppError, AppErrorView};

verus! {

/// A session.
#[derive(Debug, Clone)]
pub struct SessionInfo {
    pub id: u16,
    pub client_id: u16,
    /// The index that the device had in the list when the session was made.
    pub device_idx: usize,
    /// The key of the device.
    pub device_key: String,
}

/// A [`SessionInfo`] with its key as a character sequence.
#[verifier::ext_equal]
pub struct SessionInfoView {
    pub id: u16,
    pub client_id: u16,
    pub device_idx: usize,
    pub device_key: Seq<char>,
}

impl View for SessionInfo {
    type V = SessionInfoView;

    open spec fn view(&self) -> SessionInfoView {
        SessionInfoView {
            id: self.id,
            client_id: self.client_id,
            device_idx: self.device_idx,
            device_key: self.device_key@,
        }
    }
}

impl SessionInfo {
    /// A copy of the session.
    pub fn copy(&self) -> (s: Self)
        ensures
            s@ == self@,
    {
        SessionInfo {
            id: self.id,
            client_id: self.client_id,
            device_idx: self.device_idx,
            device_key: self.device_key.clone(),
        }
    }
}

/// The sessions by their identifiers.
pub type SessionMap = DashMap<u16, SessionInfo>;

/// What a map of sessions holds, each session taken by its view.
pub uninterp spec fn sessions_by_id(m: SessionMap) -> Map<u16, SessionInfoView>;

/// `DashMap::new`: the new map holds nothing.
#[verifier::external_body]
fn session_map_new() -> (m: SessionMap)
    ensures
        sessions_by_id(m).is_empty(),
{
    DashMap::new()
}

/// `DashMap::insert`: the key gets the value, in place of any that it had.
#[verifier::external_body]
fn session_map_insert(m: &mut SessionMap, id: u16, info: SessionInfo)
    ensures
        sessions_by_id(*final(m)) == sessions_by_id(*old(m)).insert(id, info@),
{
    m.insert(id, info);
}

/// `DashMap::remove`: the key has no value any more; the value that it had is handed out.
#[verifier::external_body]
fn session_map_remove(m: &mut SessionMap, id: u16) -> (r: Option<SessionInfo>)
    ensures
        sessions_by_id(*final(m)) == sessions_by_id(*old(m)).remove(id),
        session_view(r) == if sessions_by_id(*old(m)).contains_key(id) {
            Some(sessions_by_id(*old(m))[id])
        } else {
            None
        },
{
    m.remove(&id).map(|e| e.1)
}

/// `DashMap::get`: a copy of the value of the key, if it has one.
#[verifier::external_body]
fn session_map_get(m: &SessionMap, id: u16) -> (r: Option<SessionInfo>)
    ensures
        session_view(r) == if sessions_by_id(*m).contains_key(id) {
            Some(sessions_by_id(*m)[id])
        } else {
            None
        },
{
    m.get(&id).map(|e| e.value().copy())
}

/// `DashMap::iter`: every key of the map with a copy of its value, each once, in an order
/// of which nothing is known.
#[verifier::external_body]
fn session_map_entries(m: &SessionMap) -> (r: Vec<(u16, SessionInfo)>)
    ensures
        forall|i: int|
            0 <= i < r@.len() ==> sessions_by_id(*m).contains_key((#[trigger] r@[i]).0)
                && sessions_by_id(*m)[r@[i].0] == r@[i].1@,
        forall|i: int, j: int| 0 <= i < j < r@.len() ==> (#[trigger] r@[i]).0 != (#[trigger] r@[j]).0,
        forall|id: u16| #[trigger]
            sessions_by_id(*m).contains_key(id) ==> exists|i: int|
                0 <= i < r@.len() && (#[trigger] r@[i]).0 == id,
{
    m.iter().map(|e| (*e.key(), e.value().copy())).collect()
}

/// An optional session, taken by its view.
pub open spec fn session_view(r: Option<SessionInfo>) -> Option<SessionInfoView> {
    match r {
        Some(s) => Some(s@),
        None => None,
    }
}

/// The sessions of a list, by their views.
pub open spec fn session_views(list: Seq<SessionInfo>) -> Seq<SessionInfoView> {
    list.map_values(|s: SessionInfo| s@)
}

/// All sessions that are open.
pub struct SessionManager {
    sessions: SessionMap,
    next_id: u16,
}

/// A [`SessionManager`] with its map as a mathematical map.
#[verifier::ext_equal]
pub struct SessionManagerView {
    pub sessions: Map<u16, SessionInfoView>,
    pub next_id: u16,
}

impl View for SessionManager {
    type V = SessionManagerView;

    closed spec fn view(&self) -> SessionManagerView {
        SessionManagerView {
            sessions: sessions_by_id(self.sessions),
            next_id: self.next_id,
        }
    }
}

impl SessionManagerView {
    /// The manager at the start.
    pub open spec fn initial() -> SessionManagerView {
        SessionManagerView { sessions: Map::empty(), next_id: 1 }
    }

    /// The manager once a session was made, with the next identifier.
    pub open spec fn create(
        self,
        client_id: u16,
        device_idx: usize,
        device_key: Seq<char>,
    ) -> SessionManagerView {
        let id = self.next_id;
        SessionManagerView {
            sessions: self.sessions.insert(
                id,
                SessionInfoView { id, client_id, device_idx, device_key },
            ),
            next_id: ((id + 1) % 65536) as u16,
        }
    }

    /// The manager once a session was closed.
    pub open spec fn close(self, id: u16) -> SessionManagerView {
        SessionManagerView { sessions: self.sessions.remove(id), ..self }
    }

    /// The session with an identifier.
    pub open spec fn get(self, id: u16) -> Result<SessionInfoView, AppErrorView> {
        if self.sessions.contains_key(id) {
            Ok(self.sessions[id])
        } else {
            Err(AppErrorView::UnknownSession(id))
        }
    }

    /// Whether a session belongs to a client.
    pub open spec fn owned(self, client_id: u16, id: u16) -> bool {
        self.sessions.contains_key(id) && self.sessions[id].client_id == client_id
    }

    /// The manager once all sessions of a client were closed.
    pub open spec fn close_all(self, client_id: u16) -> SessionManagerView {
        SessionManagerView {
            sessions: self.sessions.remove_keys(
                Set::new(|id: u16| self.owned(client_id, id)),
            ),
            ..self
        }
    }

    /// Whether a list names the sessions of a client, each once, in whatever order.
    pub open spec fn lists(self, client_id: u16, list: Seq<SessionInfoView>) -> bool {
        &&& forall|i: int|
            0 <= i < list.len() ==> self.owned(client_id, (#[trigger] list[i]).id)
                && self.sessions[list[i].id] == list[i]
        &&& forall|i: int, j: int|
            0 <= i < j < list.len() ==> (#[trigger] list[i]).id != (#[trigger] list[j]).id
        &&& forall|id: u16| #[trigger]
            self.owned(client_id, id) ==> exists|i: int|
                0 <= i < list.len() && (#[trigger] list[i]).id == id
    }

    /// Whether every session is filed under its own identifier.
    pub open spec fn wf(self) -> bool {
        forall|id: u16| #[trigger] self.sessions.contains_key(id) ==> self.sessions[id].id == id
    }
}

impl SessionManager {
    /// A manager without sessions; the first will get the identifier 1.
    pub fn new() -> (m: Self)
        ensures
            m@ == SessionManagerView::initial(),
            m@.wf(),
    {
        SessionManager { sessions: session_map_new(), next_id: 1 }
    }

    /// Makes a session and hands out its identifier.
    pub fn create(&mut self, client_id: u16, device_idx: usize, device_key: String) -> (r: Result<
        u16,
        AppError,
    >)
        ensures
            r == Ok::<u16, AppError>(old(self)@.next_id),
            final(self)@ == old(self)@.create(client_id, device_idx, device_key@),
            old(self)@.wf() ==> final(self)@.wf(),
    {
        let id: u16 = self.next_id;
        self.next_id = id.wrapping_add(1);
        session_map_insert(
            &mut self.sessions,
            id,
            SessionInfo { id, client_id, device_idx, device_key },
        );
        Ok(id)
    }

    /// Closes a session.
    pub fn close(&mut self, id: u16) -> (r: Result<(), AppError>)
        ensures
            final(self)@ == old(self)@.close(id),
            r == if old(self)@.sessions.contains_key(id) {
                Ok::<(), AppError>(())
            } else {
                Err(AppError::UnknownSession(id))
            },
            old(self)@.wf() ==> final(self)@.wf(),
    {
        match session_map_remove(&mut self.sessions, id) {
            Some(_) => Ok(()),
            None => Err(AppError::UnknownSession(id)),
        }
    }

    /// The session with an identifier.
    pub fn get(&self, id: u16) -> (r: Result<SessionInfo, AppError>)
        ensures
            match r {
                Ok(s) => self@.get(id) == Ok::<SessionInfoView, AppErrorView>(s@),
                Err(e) => self@.get(id) == Err::<SessionInfoView, AppErrorView>(e@),
            },
    {
        match session_map_get(&self.sessions, id) {
            Some(s) => Ok(s),
            None => Err(AppError::UnknownSession(id)),
        }
    }

    /// The sessions of a client, in no particular order.
    pub fn list_for_client(&self, client_id: u16) -> (list: Vec<SessionInfo>)
        requires
            self@.wf(),
        ensures
            self@.lists(client_id, session_views(list@)),
    {
        let entries = session_map_entries(&self.sessions);
        let mut list: Vec<SessionInfo> = Vec::new();
        let ghost mut from: Seq<int> = seq![];
        let mut k: usize = 0;
        while k < entries.len()
            invariant
                k <= entries@.len(),
                self@.wf(),
                list@.len() == from.len(),
                forall|i: int|
                    0 <= i < entries@.len() ==> self@.sessions.contains_key(
                        (#[trigger] entries@[i]).0,
                    ) && self@.sessions[entries@[i].0] == entries@[i].1@,
                forall|i: int| 0 <= i < from.len() ==> 0 <= #[trigger] from[i] < k,
                forall|i: int|
                    0 <= i < list@.len() ==> (#[trigger] list@[i])@ == entries@[from[i]].1@
                        && list@[i].client_id == client_id,
                forall|i: int, j: int|
                    0 <= i < j < list@.len() ==> #[trigger] from[i] < #[trigger] from[j],
                forall|e: int|
                    0 <= e < k && (#[trigger] entries@[e]).1@.client_id == client_id ==> exists|
                        i: int,
                    |
                        0 <= i < from.len() && #[trigger] from[i] == e,
            decreases entries@.len() - k,
        {
            if entries[k].1.client_id == client_id {
                let ghost before = from;
                list.push(entries[k].1.copy());
                proof {
                    from = from.push(k as int);
                    assert forall|e: int|
                        0 <= e < k + 1 && (#[trigger] entries@[e]).1@.client_id
                            == client_id implies exists|i: int|
                        0 <= i < from.len() && #[trigger] from[i] == e by {
                        if e == k {
                            assert(from[before.len() as int] == e);
                        } else {
                            let i = choose|i: int|
                                0 <= i < before.len() && #[trigger] before[i] == e;
                            assert(from[i] == e);
                        }
                    }
                }
            }
            k = k + 1;
        }
        proof {
            let views = session_views(list@);
            assert forall|i: int| 0 <= i < views.len() implies self@.owned(
                client_id,
                (#[trigger] views[i]).id,
            ) && self@.sessions[views[i].id] == views[i] by {
                assert(views[i] == list@[i]@);
                assert(self@.sessions.contains_key(entries@[from[i]].0));
            }
            assert forall|i: int, j: int| 0 <= i < j < views.len() implies (
            #[trigger] views[i]).id != (#[trigger] views[j]).id by {
                assert(views[i] == list@[i]@ && views[j] == list@[j]@);
                assert(entries@[from[i]].0 != entries@[from[j]].0);
                assert(self@.sessions.contains_key(entries@[from[i]].0));
                assert(self@.sessions.contains_key(entries@[from[j]].0));
            }
            assert forall|id: u16| #[trigger] self@.owned(client_id, id) implies exists|i: int|
                0 <= i < views.len() && (#[trigger] views[i]).id == id by {
                let e = choose|e: int| 0 <= e < entries@.len() && (#[trigger] entries@[e]).0 == id;
                assert(entries@[e].1@.client_id == client_id);
                let i = choose|i: int| 0 <= i < from.len() && #[trigger] from[i] == e;
                assert(views[i] == list@[i]@);
                assert(views[i].id == id);
            }
        }
        list
    }

    /// Closes all sessions of a client.
    pub fn close_all_for_client(&mut self, client_id: u16)
        ensures
            final(self)@ == old(self)@.close_all(client_id),
            old(self)@.wf() ==> final(self)@.wf(),
    {
        let entries = session_map_entries(&self.sessions);
        let ghost start = self@.sessions;
        let mut k: usize = 0;
        while k < entries.len()
            invariant
                k <= entries@.len(),
                start == old(self)@.sessions,
                self@.next_id == old(self)@.next_id,
                forall|i: int|
                    0 <= i < entries@.len() ==> start.contains_key((#[trigger] entries@[i]).0)
                        && start[entries@[i].0] == entries@[i].1@,
                forall|id: u16| #[trigger]
                    start.contains_key(id) ==> exists|i: int|
                        0 <= i < entries@.len() && (#[trigger] entries@[i]).0 == id,
                forall|id: u16| #[trigger]
                    self@.sessions.contains_key(id) ==> start.contains_key(id)
                        && self@.sessions[id] == start[id] && forall|i: int|
                        0 <= i < k && (#[trigger] entries@[i]).0 == id ==> start[id].client_id
                            != client_id,
                forall|id: u16|
                    start.contains_key(id) && start[id].client_id != client_id
                        ==> #[trigger] self@.sessions.contains_key(id),
            decreases entries@.len() - k,
        {
            let ghost before = self@.sessions;
            let ghost e = entries@[k as int];
            assert(start[e.0] == e.1@);
            if entries[k].1.client_id == client_id {
                let _ = session_map_remove(&mut self.sessions, entries[k].0);
                assert(self@.sessions == before.remove(e.0));
                assert forall|id: u16| #[trigger] self@.sessions.contains_key(
                    id,
                ) implies before.contains_key(id) && id != e.0 by {
                }
                assert forall|id: u16|
                    start.contains_key(id) && start[id].client_id
                        != client_id implies #[trigger] self@.sessions.contains_key(id) by {
                    assert(before.contains_key(id));
                    assert(id != e.0);
                }
            }
            k = k + 1;
        }
        assert(self@.sessions =~= old(self)@.close_all(client_id).sessions);
    }
}

/// A session that was made can be asked for, and it is what was made.
pub proof fn law_created_session_is_found(
    m: SessionManagerView,
    client_id: u16,
    device_idx: usize,
    device_key: Seq<char>,
)
    ensures
        m.create(client_id, device_idx, device_key).get(m.next_id) == Ok::<
            SessionInfoView,
            AppErrorView,
        >(SessionInfoView { id: m.next_id, client_id, device_idx, device_key }),
{
}

/// Making a session touches no other, and neither does closing one.
pub proof fn law_other_sessions_are_kept(
    m: SessionManagerView,
    client_id: u16,
    device_idx: usize,
    device_key: Seq<char>,
    id: u16,
    other: u16,
)
    ensures
        other != m.next_id ==> m.create(client_id, device_idx, device_key).get(other) == m.get(
            other,
        ),
        other != id ==> m.close(id).get(other) == m.get(other),
{
}

/// A session that was closed is unknown.
pub proof fn law_closed_session_is_unknown(m: SessionManagerView, id: u16)
    ensures
        m.close(id).get(id) == Err::<SessionInfoView, AppErrorView>(
            AppErrorView::UnknownSession(id),
        ),
{
}

/// Closing all sessions of a client leaves it none, and the sessions of others alone.
pub proof fn law_close_all_takes_only_own(
    m: SessionManagerView,
    client_id: u16,
    id: u16,
    list: Seq<SessionInfoView>,
)
    ensures
        !m.close_all(client_id).owned(client_id, id),
        !m.owned(client_id, id) ==> m.close_all(client_id).get(id) == m.get(id),
        m.close_all(client_id).lists(client_id, list) ==> list.len() == 0,
{
    let after = m.close_all(client_id);
    if after.lists(client_id, list) && list.len() > 0 {
        assert(after.owned(client_id, list[0].id));
    }
}

/// Any two lists of a client's sessions hold the same sessions.
pub proof fn law_lists_agree(
    m: SessionManagerView,
    client_id: u16,
    a: Seq<SessionInfoView>,
    b: Seq<SessionInfoView>,
)
    requires
        m.lists(client_id, a),
        m.lists(client_id, b),
    ensures
        a.to_multiset() == b.to_multiset(),
{
    assert forall|i: int, j: int| 0 <= i < a.len() && 0 <= j < a.len() && i != j implies a[i]
        != a[j] by {
        if i < j {
            assert(a[i].id != a[j].id);
        } else {
            assert(a[j].id != a[i].id);
        }
    }
    assert forall|i: int, j: int| 0 <= i < b.len() && 0 <= j < b.len() && i != j implies b[i]
        != b[j] by {
        if i < j {
            assert(b[i].id != b[j].id);
        } else {
            assert(b[j].id != b[i].id);
        }
    }
    a.lemma_multiset_has_no_duplicates();
    b.lemma_multiset_has_no_duplicates();
    a.to_multiset_ensures();
    b.to_multiset_ensures();
    assert forall|x: SessionInfoView| a.contains(x) <==> b.contains(x) by {
        if a.contains(x) {
            let i = choose|i: int| 0 <= i < a.len() && a[i] == x;
            assert(m.owned(client_id, a[i].id));
            let j = choose|j: int| 0 <= j < b.len() && (#[trigger] b[j]).id == x.id;
            assert(b[j] == x);
        }
        if b.contains(x) {
            let i = choose|i: int| 0 <= i < b.len() && b[i] == x;
            assert(m.owned(client_id, b[i].id));
            let j = choose|j: int| 0 <= j < a.len() && (#[trigger] a[j]).id == x.id;
            assert(a[j] == x);
        }
    }
    assert forall|x: SessionInfoView| a.to_multiset().count(x) == b.to_multiset().count(x) by {
        assert(a.to_multiset().contains(x) <==> a.contains(x));
        assert(b.to_multiset().contains(x) <==> b.contains(x));
    }
    assert(a.to_multiset() =~= b.to_multiset());
}

/// Sessions get identifiers one after the other, from one on; closing sessions does not change
/// which comes next.
pub proof fn law_session_numbers(
    m: SessionManagerView,
    client_id: u16,
    device_idx: usize,
    device_key: Seq<char>,
    id: u16,
)
    ensures
        SessionManagerView::initial().next_id == 1,
        SessionManagerView::initial().get(id) is Err,
        m.create(client_id, device_idx, device_key).next_id == m.next_id + 1 || m.next_id == 65535
            && m.create(client_id, device_idx, device_key).next_id == 0,
        m.close(id).next_id == m.next_id,
        m.close_all(client_id).next_id == m.next_id,
{
}

/// Closing all sessions of a client closes those that name it, and no others.
pub proof fn law_close_all_by_client(m: SessionManagerView, client_id: u16, id: u16)
    ensures
        m.get(id) matches Ok(s) ==> m.close_all(client_id).get(id) == if s.client_id == client_id {
            Err(AppErrorView::UnknownSession(id))
        } else {
            Ok(s)
        },
        m.get(id) is Err ==> m.close_all(client_id).get(id) is Err,
{
}

/// A list of a client's sessions holds sessions that can be asked for and that name the
/// client, each once, and all of them.
pub proof fn law_list_is_exact(
    m: SessionManagerView,
    client_id: u16,
    list: Seq<SessionInfoView>,
    i: int,
    id: u16,
)
    requires
        m.wf(),
        m.lists(client_id, list),
        0 <= i < list.len(),
    ensures
        list[i].client_id == client_id,
        m.get(list[i].id) == Ok::<_, AppErrorView>(list[i]),
        m.get(id) matches Ok(s) ==> (s.client_id == client_id ==> list.contains(s)),
        list.no_duplicates(),
{
    assert(m.owned(client_id, list[i].id));
    assert forall|a: int, b: int| 0 <= a < list.len() && 0 <= b < list.len() && a
        != b implies list[a] != list[b] by {
        if a < b {
            assert(list[a].id != list[b].id);
        } else {
            assert(list[b].id != list[a].id);
        }
    }
    if let Ok(s) = m.get(id) {
        if s.client_id == client_id {
            assert(m.owned(client_id, id));
            let j = choose|j: int| 0 <= j < list.len() && (#[trigger] list[j]).id == id;
            assert(list[j] == s);
        }
    }
}

/// A client has an empty list only if it has no session.
pub proof fn law_empty_list(m: SessionManagerView, client_id: u16, id: u16)
    requires
        m.lists(client_id, seq![]),
    ensures
        m.get(id) matches Ok(s) ==> s.client_id != client_id,
{
    if m.owned(client_id, id) {
        let j = choose|j: int|
            0 <= j < Seq::<SessionInfoView>::empty().len() && (#[trigger] Seq::<
                SessionInfoView,
            >::empty()[j]).id == id;
        assert(false);
    }
}

} // verus!
