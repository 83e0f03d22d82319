//! Stream ports and periodic writes: what each session of a client has running.
//!
//! Sockets and tasks belong to the caller, who knows them by numbers; the manager says
//! which of them to use, to stop and to let go.

use vstd::prelude::*;
use std::collections::HashMap;
use crate::client::ClientAddr;

verus! {

broadcast use vstd::std_specs::hash::group_hash_axioms;

/// A port that streams CAN frames to a client.
#[derive(Debug, Clone, Copy, PartialEq, Eq, Structural)]
pub struct StreamPort {
    pub local_port: u16,
    pub client_data_addr: ClientAddr,
    /// The number of the socket.
    pub socket: u64,
}

/// A client and a session as one number.
pub open spec fn spec_key(client_id: u16, session_id: u16) -> u32 {
    (client_id * 65536 + session_id) as u32
}

/// A client and a session as one number.
fn key(client_id: u16, session_id: u16) -> (k: u32)
    ensures
        k == spec_key(client_id, session_id),
{
    client_id as u32 * 65536 + session_id as u32
}

/// What runs for the sessions of clients.
pub struct StreamManager {
    ports: HashMap<u32, StreamPort>,
    periodic: HashMap<u32, u64>,
}

/// A [`StreamManager`] with its maps as mathematical maps from client and session.
#[verifier::ext_equal]
pub struct StreamManagerView {
    /// The stream ports.
    pub ports: Map<(u16, u16), StreamPort>,
    /// The numbers of the tasks that write periodically.
    pub periodic: Map<(u16, u16), u64>,
}

/// A map from client and session, out of one from their number.
pub open spec fn by_session<V>(m: Map<u32, V>) -> Map<(u16, u16), V> {
    Map::new(
        |p: (u16, u16)| m.contains_key(spec_key(p.0, p.1)),
        |p: (u16, u16)| m[spec_key(p.0, p.1)],
    )
}

impl View for StreamManager {
    type V = StreamManagerView;

    closed spec fn view(&self) -> StreamManagerView {
        StreamManagerView {
            ports: by_session(self.ports@),
            periodic: by_session(self.periodic@),
        }
    }
}

/// The value of a key, if it has one.
pub open spec fn lookup<K, V>(m: Map<K, V>, k: K) -> Option<V> {
    if m.contains_key(k) {
        Some(m[k])
    } else {
        None
    }
}

/// The entries of a client.
pub open spec fn keys_of(client_id: u16) -> Set<(u16, u16)> {
    Set::new(|p: (u16, u16)| p.0 == client_id)
}

/// Whether a list names the values of a client's entries, each as often as it occurs.
pub open spec fn values_of<V>(m: Map<(u16, u16), V>, client_id: u16, list: Seq<V>) -> bool {
    exists|ids: Seq<u16>| #[trigger] names_values(m, client_id, ids, list)
}

/// Whether `list` holds the values of a client's entries in the order of the sessions
/// `ids`, and `ids` names all sessions of the client that have an entry, each once.
pub open spec fn names_values<V>(
    m: Map<(u16, u16), V>,
    client_id: u16,
    ids: Seq<u16>,
    list: Seq<V>,
) -> bool {
    &&& ids.no_duplicates()
    &&& ids.len() == list.len()
    &&& forall|i: int|
        0 <= i < ids.len() ==> m.contains_key((client_id, #[trigger] ids[i])) && m[(
            client_id,
            ids[i],
        )] == list[i]
    &&& forall|s: u16| #[trigger] m.contains_key((client_id, s)) ==> ids.contains(s)
}

/// Inserting under a number is inserting under its client and session.
proof fn lemma_by_session_insert<V>(m: Map<u32, V>, client_id: u16, session_id: u16, v: V)
    ensures
        by_session(m.insert(spec_key(client_id, session_id), v)) == by_session(m).insert(
            (client_id, session_id),
            v,
        ),
{
    assert(by_session(m.insert(spec_key(client_id, session_id), v)) =~= by_session(m).insert(
        (client_id, session_id),
        v,
    ));
}

/// Removing a number is removing its client and session.
proof fn lemma_by_session_remove<V>(m: Map<u32, V>, client_id: u16, session_id: u16)
    ensures
        by_session(m.remove(spec_key(client_id, session_id))) == by_session(m).remove(
            (client_id, session_id),
        ),
{
    assert(by_session(m.remove(spec_key(client_id, session_id))) =~= by_session(m).remove(
        (client_id, session_id),
    ));
}

/// Takes all entries of a client out of a map, and lists their values.
fn take_client<V>(m: &mut HashMap<u32, V>, client_id: u16) -> (list: Vec<V>)
    ensures
        by_session(final(m)@) == by_session(old(m)@).remove_keys(keys_of(client_id)),
        values_of(by_session(old(m)@), client_id, list@),
{
    let ghost start = m@;
    let mut keys: Vec<u32> = Vec::new();
    let ghost mut from: Seq<int> = seq![];
    for k in it: m.keys()
        invariant
            it.seq().unref().to_set() == start.dom(),
            it.seq().no_duplicates(),
            keys@.no_duplicates(),
            forall|i: int|
                0 <= i < keys@.len() ==> start.contains_key(#[trigger] keys@[i]) && keys@[i]
                    / 65536 == client_id,
            from.len() == keys@.len(),
            forall|i: int| 0 <= i < from.len() ==> 0 <= #[trigger] from[i] < it.index(),
            forall|i: int| 0 <= i < keys@.len() ==> #[trigger] keys@[i] == *it.seq()[from[i]],
            forall|j: int|
                0 <= j < it.index() && *(#[trigger] it.seq()[j]) / 65536 == client_id
                    ==> keys@.contains(*it.seq()[j]),
    {
        let ghost before = keys@;
        assert(it.seq().unref()[it.index()] == *k);
        assert(it.seq().unref().to_set().contains(*k));
        if *k / 65536 == client_id as u32 {
            keys.push(*k);
            proof {
                from = from.push(it.index());
            }
            assert(keys@.no_duplicates()) by {
                assert forall|i: int| 0 <= i < before.len() implies before[i] != *k by {
                    assert(from[i] != it.index());
                    assert(it.seq()[from[i]] != it.seq()[it.index()]);
                }
            }
            assert forall|j: int|
                0 <= j < it.index() + 1 && *(#[trigger] it.seq()[j]) / 65536
                    == client_id implies keys@.contains(*it.seq()[j]) by {
                if j == it.index() {
                    assert(keys@[before.len() as int] == *k);
                } else {
                    let i = choose|i: int| 0 <= i < before.len() && before[i] == *it.seq()[j];
                    assert(keys@[i] == *it.seq()[j]);
                }
            }
        }
    }
    assert forall|k: u32| #[trigger] start.contains_key(k) && k / 65536
        == client_id implies keys@.contains(k) by {
    }
    let mut list: Vec<V> = Vec::new();
    let mut i: usize = 0;
    while i < keys.len()
        invariant
            i <= keys@.len(),
            keys@.no_duplicates(),
            list@.len() == i,
            forall|j: int| 0 <= j < keys@.len() ==> start.contains_key(#[trigger] keys@[j]),
            forall|j: int| 0 <= j < i ==> #[trigger] list@[j] == start[keys@[j]],
            forall|k: u32| #[trigger]
                m@.contains_key(k) <==> start.contains_key(k) && !keys@.take(i as int).contains(k),
            forall|k: u32| #[trigger] m@.contains_key(k) ==> m@[k] == start[k],
        decreases keys@.len() - i,
    {
        let ghost k = keys@[i as int];
        let ghost (done, now) = (keys@.take(i as int), keys@.take(i + 1));
        assert(!done.contains(k));
        assert(now =~= done.push(k));
        assert forall|x: u32| now.contains(x) <==> done.contains(x) || x == k by {
            if done.contains(x) {
                let j = choose|j: int| 0 <= j < done.len() && done[j] == x;
                assert(now[j] == x);
            }
            assert(now[i as int] == k);
        }
        if let Some(v) = m.remove(&keys[i]) {
            list.push(v);
        }
        i = i + 1;
    }
    proof {
        let ids = Seq::new(keys@.len(), |j: int| (keys@[j] % 65536) as u16);
        let all = by_session(start);
        assert(keys@.take(i as int) =~= keys@);
        assert forall|j: int| 0 <= j < keys@.len() implies spec_key(
            client_id,
            #[trigger] ids[j],
        ) == keys@[j] by {
        }
        assert forall|s: u16| #[trigger] all.contains_key((client_id, s)) implies ids.contains(
            s,
        ) by {
            let k = spec_key(client_id, s);
            assert(start.contains_key(k) && k / 65536 == client_id);
            let j = choose|j: int| 0 <= j < keys@.len() && keys@[j] == k;
            assert(ids[j] == s);
        }
        assert(names_values(all, client_id, ids, list@));
        assert(by_session(m@) =~= all.remove_keys(keys_of(client_id)));
    }
    list
}

/// The sockets of ports.
pub open spec fn sockets(ports: Seq<StreamPort>) -> Seq<u64> {
    ports.map_values(|p: StreamPort| p.socket)
}

impl StreamManagerView {
    /// The manager at the start.
    pub open spec fn initial() -> StreamManagerView {
        StreamManagerView { ports: Map::empty(), periodic: Map::empty() }
    }

    /// The manager once a stream port was opened.
    pub open spec fn open(self, client_id: u16, session_id: u16, port: StreamPort)
        -> StreamManagerView {
        StreamManagerView { ports: self.ports.insert((client_id, session_id), port), ..self }
    }

    /// The manager once a periodic write was started.
    pub open spec fn add_periodic(self, client_id: u16, session_id: u16, task: u64)
        -> StreamManagerView {
        StreamManagerView {
            periodic: self.periodic.insert((client_id, session_id), task),
            ..self
        }
    }

    /// The manager once a periodic write was stopped.
    pub open spec fn stop_periodic(self, client_id: u16, session_id: u16) -> StreamManagerView {
        StreamManagerView { periodic: self.periodic.remove((client_id, session_id)), ..self }
    }

    /// The manager once all that runs for a session was ended.
    pub open spec fn close(self, client_id: u16, session_id: u16) -> StreamManagerView {
        StreamManagerView {
            ports: self.ports.remove((client_id, session_id)),
            periodic: self.periodic.remove((client_id, session_id)),
        }
    }

    /// The manager once all that runs for a client was ended.
    pub open spec fn close_all(self, client_id: u16) -> StreamManagerView {
        StreamManagerView {
            ports: self.ports.remove_keys(keys_of(client_id)),
            periodic: self.periodic.remove_keys(keys_of(client_id)),
        }
    }

    /// Whether these are the tasks and the sockets of a client, in whatever order.
    pub open spec fn ended(self, client_id: u16, tasks: Seq<u64>, freed: Seq<u64>) -> bool {
        &&& values_of(self.periodic, client_id, tasks)
        &&& exists|ports: Seq<StreamPort>| #[trigger]
            values_of(self.ports, client_id, ports) && freed == sockets(ports)
    }

    /// The socket of a session.
    pub open spec fn socket(self, client_id: u16, session_id: u16) -> Option<u64> {
        match lookup(self.ports, (client_id, session_id)) {
            Some(p) => Some(p.socket),
            None => None,
        }
    }
}

impl StreamManager {
    /// A manager for which nothing runs.
    pub fn new() -> (m: Self)
        ensures
            m@ == StreamManagerView::initial(),
    {
        let m = StreamManager { ports: HashMap::new(), periodic: HashMap::new() };
        assert(m@.ports =~= Map::empty());
        assert(m@.periodic =~= Map::empty());
        m
    }

    /// Files a stream port that was opened. The socket of the port that it takes the place
    /// of is handed out.
    pub fn open(&mut self, client_id: u16, session_id: u16, port: StreamPort) -> (replaced: Option<
        u64,
    >)
        ensures
            final(self)@ == old(self)@.open(client_id, session_id, port),
            replaced == old(self)@.socket(client_id, session_id),
    {
        proof {
            lemma_by_session_insert(self.ports@, client_id, session_id, port);
        }
        match self.ports.insert(key(client_id, session_id), port) {
            Some(p) => Some(p.socket),
            None => None,
        }
    }

    /// Where a frame of a session is to be sent, if the session has a stream port.
    pub fn push_frame(&self, client_id: u16, session_id: u16) -> (r: Option<StreamPort>)
        ensures
            r == lookup(self@.ports, (client_id, session_id)),
    {
        match self.ports.get(&key(client_id, session_id)) {
            Some(p) => Some(*p),
            None => None,
        }
    }

    /// Ends all that runs for a session: the task to stop and the socket to let go.
    pub fn close(&mut self, client_id: u16, session_id: u16) -> (r: (Option<u64>, Option<u64>))
        ensures
            final(self)@ == old(self)@.close(client_id, session_id),
            r.0 == lookup(old(self)@.periodic, (client_id, session_id)),
            r.1 == old(self)@.socket(client_id, session_id),
    {
        let task = self.stop_periodic(client_id, session_id);
        proof {
            lemma_by_session_remove(self.ports@, client_id, session_id);
        }
        let socket = match self.ports.remove(&key(client_id, session_id)) {
            Some(p) => Some(p.socket),
            None => None,
        };
        (task, socket)
    }

    /// Ends all that runs for a client: the tasks to stop and the sockets to let go.
    pub fn close_all_for_client(&mut self, client_id: u16) -> (r: (Vec<u64>, Vec<u64>))
        ensures
            final(self)@ == old(self)@.close_all(client_id),
            old(self)@.ended(client_id, r.0@, r.1@),
    {
        let tasks = take_client(&mut self.periodic, client_id);
        let ports = take_client(&mut self.ports, client_id);
        let mut closed: Vec<u64> = Vec::new();
        for i in 0..ports.len()
            invariant
                closed@ == sockets(ports@).take(i as int),
        {
            closed.push(ports[i].socket);
            assert(closed@ =~= sockets(ports@).take(i + 1));
        }
        assert(sockets(ports@).take(ports@.len() as int) =~= sockets(ports@));
        assert(values_of(old(self)@.ports, client_id, ports@));
        (tasks, closed)
    }

    /// Files the task of a periodic write. The task that it takes the place of is handed
    /// out, to be stopped.
    pub fn add_periodic(&mut self, client_id: u16, session_id: u16, task: u64) -> (stopped: Option<
        u64,
    >)
        ensures
            final(self)@ == old(self)@.add_periodic(client_id, session_id, task),
            stopped == lookup(old(self)@.periodic, (client_id, session_id)),
    {
        let stopped = self.stop_periodic(client_id, session_id);
        proof {
            lemma_by_session_insert(self.periodic@, client_id, session_id, task);
        }
        self.periodic.insert(key(client_id, session_id), task);
        assert(self@.periodic =~= old(self)@.periodic.insert((client_id, session_id), task));
        stopped
    }

    /// Ends the periodic write of a session: the task to stop, if there is one.
    pub fn stop_periodic(&mut self, client_id: u16, session_id: u16) -> (stopped: Option<u64>)
        ensures
            final(self)@ == old(self)@.stop_periodic(client_id, session_id),
            stopped == lookup(old(self)@.periodic, (client_id, session_id)),
    {
        proof {
            lemma_by_session_remove(self.periodic@, client_id, session_id);
        }
        self.periodic.remove(&key(client_id, session_id))
    }
}

/// A session has at most one periodic write: after a second one was started only that one
/// is left.
pub proof fn law_one_periodic_write(
    m: StreamManagerView,
    client_id: u16,
    session_id: u16,
    first: u64,
    second: u64,
)
    ensures
        lookup(
            m.add_periodic(client_id, session_id, first).periodic,
            (client_id, session_id),
        ) == Some(first),
        m.add_periodic(client_id, session_id, first).add_periodic(client_id, session_id, second)
            == m.add_periodic(client_id, session_id, second),
{
    assert(m.add_periodic(client_id, session_id, first).add_periodic(
        client_id,
        session_id,
        second,
    ) =~= m.add_periodic(client_id, session_id, second));
}

/// Closing a session leaves nothing running for it, and touches no other session.
pub proof fn law_close_ends_session(
    m: StreamManagerView,
    client_id: u16,
    session_id: u16,
    other: (u16, u16),
)
    ensures
        lookup(m.close(client_id, session_id).ports, (client_id, session_id)) is None,
        lookup(m.close(client_id, session_id).periodic, (client_id, session_id)) is None,
        other != (client_id, session_id) ==> lookup(
            m.close(client_id, session_id).ports,
            other,
        ) == lookup(m.ports, other),
        other != (client_id, session_id) ==> lookup(
            m.close(client_id, session_id).periodic,
            other,
        ) == lookup(m.periodic, other),
{
}

/// Closing all sessions of a client leaves nothing running for it, and touches no other
/// client.
pub proof fn law_close_all_ends_client(
    m: StreamManagerView,
    client_id: u16,
    session_id: u16,
    other: (u16, u16),
)
    ensures
        lookup(m.close_all(client_id).ports, (client_id, session_id)) is None,
        lookup(m.close_all(client_id).periodic, (client_id, session_id)) is None,
        other.0 != client_id ==> lookup(m.close_all(client_id).ports, other) == lookup(
            m.ports,
            other,
        ),
        other.0 != client_id ==> lookup(m.close_all(client_id).periodic, other) == lookup(
            m.periodic,
            other,
        ),
{
}

/// Opening a port files it under its session. It touches no other session and no periodic
/// write.
pub proof fn law_open_files_port(
    m: StreamManagerView,
    client_id: u16,
    session_id: u16,
    port: StreamPort,
    other: (u16, u16),
)
    ensures
        lookup(m.open(client_id, session_id, port).ports, (client_id, session_id)) == Some(port),
        m.open(client_id, session_id, port).socket(client_id, session_id) == Some(port.socket),
        other != (client_id, session_id) ==> lookup(
            m.open(client_id, session_id, port).ports,
            other,
        ) == lookup(m.ports, other),
        lookup(m.open(client_id, session_id, port).periodic, other) == lookup(m.periodic, other),
{
}

/// Starting a periodic write files it under its session, and stopping it takes it away.
/// Neither touches another session or a stream port.
pub proof fn law_periodic_write_of_session(
    m: StreamManagerView,
    client_id: u16,
    session_id: u16,
    task: u64,
    other: (u16, u16),
)
    ensures
        lookup(
            m.add_periodic(client_id, session_id, task).periodic,
            (client_id, session_id),
        ) == Some(task),
        lookup(m.stop_periodic(client_id, session_id).periodic, (client_id, session_id)) is None,
        other != (client_id, session_id) ==> lookup(
            m.add_periodic(client_id, session_id, task).periodic,
            other,
        ) == lookup(m.periodic, other),
        other != (client_id, session_id) ==> lookup(
            m.stop_periodic(client_id, session_id).periodic,
            other,
        ) == lookup(m.periodic, other),
        lookup(m.add_periodic(client_id, session_id, task).ports, other) == lookup(m.ports, other),
        lookup(m.stop_periodic(client_id, session_id).ports, other) == lookup(m.ports, other),
{
}

/// The socket of a session is that of its port.
pub proof fn law_socket_of_port(m: StreamManagerView, client_id: u16, session_id: u16)
    ensures
        match lookup(m.ports, (client_id, session_id)) {
            Some(p) => m.socket(client_id, session_id) == Some(p.socket),
            None => m.socket(client_id, session_id) is None,
        },
{
}

/// At the start nothing runs.
pub proof fn law_nothing_runs_at_start(key: (u16, u16))
    ensures
        lookup(StreamManagerView::initial().ports, key) is None,
        lookup(StreamManagerView::initial().periodic, key) is None,
{
}

/// What is ended for a client are the tasks and sockets of its sessions, and all of them.
pub proof fn law_ended_is_exact(
    m: StreamManagerView,
    client_id: u16,
    tasks: Seq<u64>,
    freed: Seq<u64>,
    session_id: u16,
    i: int,
)
    requires
        m.ended(client_id, tasks, freed),
    ensures
        lookup(m.periodic, (client_id, session_id)) matches Some(t) ==> tasks.contains(t),
        m.socket(client_id, session_id) matches Some(s) ==> freed.contains(s),
        0 <= i < tasks.len() ==> exists|s: u16| #[trigger]
            lookup(m.periodic, (client_id, s)) == Some(tasks[i]),
        0 <= i < freed.len() ==> exists|s: u16| #[trigger]
            m.socket(client_id, s) == Some(freed[i]),
{
    let ids = choose|ids: Seq<u16>| #[trigger] names_values(m.periodic, client_id, ids, tasks);
    let ports = choose|ports: Seq<StreamPort>| #[trigger]
        values_of(m.ports, client_id, ports) && freed == sockets(ports);
    let owners = choose|ids: Seq<u16>| #[trigger] names_values(m.ports, client_id, ids, ports);
    if m.periodic.contains_key((client_id, session_id)) {
        let j = choose|j: int| 0 <= j < ids.len() && ids[j] == session_id;
        assert(tasks[j] == m.periodic[(client_id, session_id)]);
    }
    if m.ports.contains_key((client_id, session_id)) {
        let j = choose|j: int| 0 <= j < owners.len() && owners[j] == session_id;
        assert(freed[j] == m.ports[(client_id, session_id)].socket);
    }
    if 0 <= i < tasks.len() {
        assert(lookup(m.periodic, (client_id, ids[i])) == Some(tasks[i]));
    }
    if 0 <= i < freed.len() {
        assert(m.socket(client_id, owners[i]) == Some(freed[i]));
    }
}

/// Where no two sessions of a client share a task, none is ended twice.
pub proof fn law_ended_once(m: StreamManagerView, client_id: u16, tasks: Seq<u64>, freed: Seq<u64>)
    requires
        m.ended(client_id, tasks, freed),
        forall|s: u16, t: u16|
            s != t && #[trigger] lookup(m.periodic, (client_id, s)) is Some ==> lookup(
                m.periodic,
                (client_id, s),
            ) != #[trigger] lookup(m.periodic, (client_id, t)),
    ensures
        tasks.no_duplicates(),
{
    let ids = choose|ids: Seq<u16>| #[trigger] names_values(m.periodic, client_id, ids, tasks);
    assert forall|i: int, j: int| 0 <= i < tasks.len() && 0 <= j < tasks.len() && i
        != j implies tasks[i] != tasks[j] by {
        assert(ids[i] != ids[j]);
        assert(lookup(m.periodic, (client_id, ids[i])) == Some(tasks[i]));
        assert(lookup(m.periodic, (client_id, ids[j])) == Some(tasks[j]));
    }
}

} // verus!
