//! The registry of clients: which address has which identifier.

use vstd::prelude::*;
use dashmap::DashMap;

verus! {

/// `dashmap::DashMap`, a hash map that is split into shards.
#[verifier::external_type_specification]
#[verifier::external_body]
#[verifier::reject_recursive_types(K)]
#[verifier::reject_recursive_types(V)]
#[verifier::reject_recursive_types(S)]
pub struct ExDashMap<K, V, S>(dashmap::DashMap<K, V, S>);

/// An address that packets come from: IPv4 or IPv6, and a port. An IPv4 address is held in
/// the low bits of `ip`, with the last two fields zero.
#[derive(Debug, Clone, Copy, PartialEq, Eq, Structural)]
pub struct ClientAddr {
    pub v6: bool,
    pub ip: u128,
    pub port: u16,
    pub flowinfo: u32,
    pub scope_id: u32,
}

/// An address as the key of a map.
pub type AddrKey = (bool, u128, u16, u32, u32);

impl ClientAddr {
    /// The key of the address.
    #[verifier::allow_in_spec]
    pub fn key(self) -> AddrKey
        returns
            (self.v6, self.ip, self.port, self.flowinfo, self.scope_id),
    {
        (self.v6, self.ip, self.port, self.flowinfo, self.scope_id)
    }

    /// Another port of the same host.
    #[verifier::allow_in_spec]
    pub fn with_port(self, port: u16) -> ClientAddr
        returns
            (ClientAddr { v6: self.v6, ip: self.ip, port, flowinfo: 0, scope_id: 0 }),
    {
        ClientAddr { v6: self.v6, ip: self.ip, port, flowinfo: 0, scope_id: 0 }
    }
}

/// A client: its identifier and the address that it sends from.
#[derive(Debug, Clone, Copy, PartialEq, Eq, Structural)]
pub struct ClientInfo {
    pub id: u16,
    pub addr: ClientAddr,
}

/// The identifiers of clients by their addresses.
pub type AddrMap = DashMap<AddrKey, u16>;

/// The clients by their identifiers.
pub type IdMap = DashMap<u16, ClientInfo>;

/// What a map from addresses to identifiers holds.
pub uninterp spec fn ids_by_addr(m: AddrMap) -> Map<AddrKey, u16>;

/// What a map from identifiers to clients holds.
pub uninterp spec fn clients_by_id(m: IdMap) -> Map<u16, ClientInfo>;

/// `DashMap::new`: the new map holds nothing.
#[verifier::external_body]
fn addr_map_new() -> (m: AddrMap)
    ensures
        ids_by_addr(m).is_empty(),
{
    DashMap::new()
}

/// `DashMap::insert`: the key gets the value, in place of any that it had.
#[verifier::external_body]
fn addr_map_insert(m: &mut AddrMap, key: AddrKey, id: u16)
    ensures
        ids_by_addr(*final(m)) == ids_by_addr(*old(m)).insert(key, id),
{
    m.insert(key, id);
}

/// `DashMap::remove`: the key has no value any more.
#[verifier::external_body]
fn addr_map_remove(m: &mut AddrMap, key: AddrKey)
    ensures
        ids_by_addr(*final(m)) == ids_by_addr(*old(m)).remove(key),
{
    m.remove(&key);
}

/// `DashMap::get`: the value of the key, if it has one.
#[verifier::external_body]
fn addr_map_get(m: &AddrMap, key: AddrKey) -> (r: Option<u16>)
    ensures
        r == if ids_by_addr(*m).contains_key(key) {
            Some(ids_by_addr(*m)[key])
        } else {
            None
        },
{
    m.get(&key).map(|e| *e.value())
}

/// `DashMap::new`: the new map holds nothing.
#[verifier::external_body]
fn id_map_new() -> (m: IdMap)
    ensures
        clients_by_id(m).is_empty(),
{
    DashMap::new()
}

/// `DashMap::insert`: the key gets the value, in place of any that it had.
#[verifier::external_body]
fn id_map_insert(m: &mut IdMap, id: u16, info: ClientInfo)
    ensures
        clients_by_id(*final(m)) == clients_by_id(*old(m)).insert(id, info),
{
    m.insert(id, info);
}

/// `DashMap::remove`: the key has no value any more; the value that it had is handed out.
#[verifier::external_body]
fn id_map_remove(m: &mut IdMap, id: u16) -> (r: Option<ClientInfo>)
    ensures
        clients_by_id(*final(m)) == clients_by_id(*old(m)).remove(id),
        r == if clients_by_id(*old(m)).contains_key(id) {
            Some(clients_by_id(*old(m))[id])
        } else {
            None
        },
{
    m.remove(&id).map(|e| e.1)
}

/// `DashMap::get`: the value of the key, if it has one.
#[verifier::external_body]
fn id_map_get(m: &IdMap, id: u16) -> (r: Option<ClientInfo>)
    ensures
        r == if clients_by_id(*m).contains_key(id) {
            Some(clients_by_id(*m)[id])
        } else {
            None
        },
{
    m.get(&id).map(|e| *e.value())
}

/// The registry of clients: address to identifier, and identifier to client.
pub struct ClientRegistry {
    by_addr: AddrMap,
    by_id: IdMap,
    next_id: u16,
}

/// A [`ClientRegistry`] with its maps as mathematical maps.
#[verifier::ext_equal]
pub struct ClientRegistryView {
    pub by_addr: Map<AddrKey, u16>,
    pub by_id: Map<u16, ClientInfo>,
    pub next_id: u16,
}

impl View for ClientRegistry {
    type V = ClientRegistryView;

    closed spec fn view(&self) -> ClientRegistryView {
        ClientRegistryView {
            by_addr: ids_by_addr(self.by_addr),
            by_id: clients_by_id(self.by_id),
            next_id: self.next_id,
        }
    }
}

impl ClientRegistryView {
    /// The registry at the start.
    pub open spec fn initial() -> ClientRegistryView {
        ClientRegistryView { by_addr: Map::empty(), by_id: Map::empty(), next_id: 1 }
    }

    /// The identifier of an address.
    pub open spec fn id_at(self, addr: ClientAddr) -> Option<u16> {
        if self.by_addr.contains_key(addr.key()) {
            Some(self.by_addr[addr.key()])
        } else {
            None
        }
    }

    /// The client with an identifier.
    pub open spec fn client(self, id: u16) -> Option<ClientInfo> {
        if self.by_id.contains_key(id) {
            Some(self.by_id[id])
        } else {
            None
        }
    }

    /// The identifier that registering an address gives: the one it has, or the next one.
    pub open spec fn id_for(self, addr: ClientAddr) -> u16 {
        match self.id_at(addr) {
            Some(id) => id,
            None => self.next_id,
        }
    }

    /// The registry once an address was registered.
    pub open spec fn register(self, addr: ClientAddr) -> ClientRegistryView {
        if self.id_at(addr) is Some {
            self
        } else {
            let id = self.next_id;
            ClientRegistryView {
                by_addr: self.by_addr.insert(addr.key(), id),
                by_id: self.by_id.insert(id, ClientInfo { id, addr }),
                next_id: ((id + 1) % 65536) as u16,
            }
        }
    }

    /// The registry once a client was unregistered.
    pub open spec fn unregister(self, id: u16) -> ClientRegistryView {
        if self.by_id.contains_key(id) {
            ClientRegistryView {
                by_addr: self.by_addr.remove(self.by_id[id].addr.key()),
                by_id: self.by_id.remove(id),
                next_id: self.next_id,
            }
        } else {
            self
        }
    }

    /// The registry once a client moved to another address.
    pub open spec fn update_addr(self, id: u16, addr: ClientAddr) -> ClientRegistryView {
        if self.by_id.contains_key(id) {
            ClientRegistryView {
                by_addr: self.by_addr.remove(self.by_id[id].addr.key()).insert(addr.key(), id),
                by_id: self.by_id.insert(id, ClientInfo { addr, ..self.by_id[id] }),
                next_id: self.next_id,
            }
        } else {
            self
        }
    }

    /// Whether every client is filed under its own identifier.
    pub open spec fn wf(self) -> bool {
        forall|id: u16| #[trigger] self.by_id.contains_key(id) ==> self.by_id[id].id == id
    }

    /// Whether addresses and clients name each other: the address of every client leads to
    /// its identifier, and every address belongs to the client that it leads to.
    pub open spec fn paired(self) -> bool {
        &&& forall|id: u16| #[trigger]
            self.by_id.contains_key(id) ==> self.by_addr.contains_key(self.by_id[id].addr.key())
                && self.by_addr[self.by_id[id].addr.key()] == id
        &&& forall|a: AddrKey| #[trigger]
            self.by_addr.contains_key(a) ==> self.by_id.contains_key(self.by_addr[a])
                && self.by_id[self.by_addr[a]].addr.key() == a
    }
}

impl ClientRegistry {
    /// An empty registry; the first client will get the identifier 1.
    pub fn new() -> (r: Self)
        ensures
            r@ == ClientRegistryView::initial(),
    {
        ClientRegistry { by_addr: addr_map_new(), by_id: id_map_new(), next_id: 1 }
    }

    /// Registers an address and hands out its identifier. An address that is registered
    /// keeps the identifier that it has.
    pub fn register(&mut self, addr: ClientAddr) -> (id: u16)
        ensures
            id == old(self)@.id_for(addr),
            final(self)@ == old(self)@.register(addr),
    {
        if let Some(id) = addr_map_get(&self.by_addr, addr.key()) {
            return id;
        }
        let id: u16 = self.next_id;
        self.next_id = id.wrapping_add(1);
        addr_map_insert(&mut self.by_addr, addr.key(), id);
        id_map_insert(&mut self.by_id, id, ClientInfo { id, addr });
        id
    }

    /// Unregisters a client.
    pub fn unregister(&mut self, id: u16)
        ensures
            final(self)@ == old(self)@.unregister(id),
    {
        if let Some(info) = id_map_remove(&mut self.by_id, id) {
            addr_map_remove(&mut self.by_addr, info.addr.key());
        } else {
            assert(self@.by_id =~= old(self)@.by_id);
        }
    }

    /// The client with an identifier.
    pub fn get_by_id(&self, id: u16) -> (r: Option<ClientInfo>)
        ensures
            r == self@.client(id),
    {
        id_map_get(&self.by_id, id)
    }

    /// The identifier of an address.
    pub fn get_by_addr(&self, addr: &ClientAddr) -> (r: Option<u16>)
        ensures
            r == self@.id_at(*addr),
    {
        addr_map_get(&self.by_addr, addr.key())
    }

    /// Moves a client to another address.
    pub fn update_addr(&mut self, id: u16, new_addr: ClientAddr)
        ensures
            final(self)@ == old(self)@.update_addr(id, new_addr),
    {
        if let Some(info) = id_map_get(&self.by_id, id) {
            addr_map_remove(&mut self.by_addr, info.addr.key());
            addr_map_insert(&mut self.by_addr, new_addr.key(), id);
            id_map_insert(&mut self.by_id, id, ClientInfo { id: info.id, addr: new_addr });
        }
    }
}

/// Different addresses have different keys.
pub proof fn law_addr_keys(a: ClientAddr, b: ClientAddr)
    ensures
        a.key() == b.key() ==> a == b,
{
}

/// Registering an address twice gives the same identifier and changes nothing the second
/// time.
pub proof fn law_register_idempotent(r: ClientRegistryView, addr: ClientAddr)
    ensures
        r.register(addr).id_at(addr) == Some(r.id_for(addr)),
        r.register(addr).id_for(addr) == r.id_for(addr),
        r.register(addr).register(addr) == r.register(addr),
{
}

/// Registering an address leaves the identifiers of all others alone.
pub proof fn law_register_keeps_others(r: ClientRegistryView, addr: ClientAddr, other: ClientAddr)
    requires
        other != addr,
    ensures
        r.register(addr).id_at(other) == r.id_at(other),
{
}

/// Every operation keeps each client under its own identifier.
pub proof fn law_registry_wf(r: ClientRegistryView, id: u16, addr: ClientAddr)
    requires
        r.wf(),
    ensures
        ClientRegistryView::initial().wf(),
        r.register(addr).wf(),
        r.unregister(id).wf(),
        r.update_addr(id, addr).wf(),
{
}

/// Addresses and clients stay paired: through registering, unless an address is new and the
/// next identifier is in use; through unregistering; and through moving, unless a client
/// moves to the address of another.
pub proof fn law_registry_paired(r: ClientRegistryView, id: u16, addr: ClientAddr)
    requires
        r.paired(),
    ensures
        ClientRegistryView::initial().paired(),
        r.id_at(addr) is Some || !r.by_id.contains_key(r.next_id) ==> r.register(addr).paired(),
        r.unregister(id).paired(),
        r.client(id) is None || r.id_at(addr) is None || r.id_at(addr) == Some(id)
            ==> r.update_addr(id, addr).paired(),
{
}

/// An unregistered client is gone, and so is its address.
pub proof fn law_unregister_forgets(r: ClientRegistryView, id: u16)
    requires
        r.by_id.contains_key(id),
    ensures
        r.unregister(id).client(id) is None,
        r.unregister(id).id_at(r.by_id[id].addr) is None,
{
}

/// A client that moved is found at its new address and, unless it is the same, not at the
/// old one.
pub proof fn law_update_addr_moves(r: ClientRegistryView, id: u16, addr: ClientAddr)
    requires
        r.by_id.contains_key(id),
    ensures
        r.update_addr(id, addr).id_at(addr) == Some(id),
        r.update_addr(id, addr).client(id) == Some(ClientInfo { addr, ..r.by_id[id] }),
        r.by_id[id].addr != addr ==> r.update_addr(id, addr).id_at(r.by_id[id].addr) is None,
{
}

/// Unregistering a client leaves every other one alone: the clients under other identifiers,
/// and the identifiers at other addresses.
pub proof fn law_unregister_keeps_others(
    r: ClientRegistryView,
    id: u16,
    other_id: u16,
    other_addr: ClientAddr,
)
    ensures
        other_id != id ==> r.unregister(id).client(other_id) == r.client(other_id),
        (r.client(id) matches Some(c) ==> c.addr != other_addr) ==> r.unregister(id).id_at(
            other_addr,
        ) == r.id_at(other_addr),
        r.client(id) is None ==> r.unregister(id) == r,
        r.unregister(id).next_id == r.next_id,
{
}

/// A new address gets the next identifier, and a client that has both; the clients under other
/// identifiers stay. Identifiers are handed out one after the other, from one on.
pub proof fn law_new_client(r: ClientRegistryView, addr: ClientAddr, other_id: u16)
    requires
        r.id_at(addr) is None,
    ensures
        r.id_for(addr) == r.next_id,
        r.register(addr).client(r.next_id) == Some(ClientInfo { id: r.next_id, addr }),
        other_id != r.next_id ==> r.register(addr).client(other_id) == r.client(other_id),
        r.register(addr).next_id == r.next_id + 1 || r.next_id == 65535 && r.register(
            addr,
        ).next_id == 0,
{
}

/// At the start there is no client, and the first identifier is one.
pub proof fn law_first_client(id: u16, addr: ClientAddr)
    ensures
        ClientRegistryView::initial().client(id) is None,
        ClientRegistryView::initial().id_at(addr) is None,
        ClientRegistryView::initial().id_for(addr) == 1,
{
}

/// Moving a client leaves every other one alone, and moving a client that does not exist
/// changes nothing.
pub proof fn law_update_addr_keeps_others(
    r: ClientRegistryView,
    id: u16,
    addr: ClientAddr,
    other_id: u16,
    other_addr: ClientAddr,
)
    ensures
        other_id != id ==> r.update_addr(id, addr).client(other_id) == r.client(other_id),
        other_addr != addr && (r.client(id) matches Some(c) ==> c.addr != other_addr)
            ==> r.update_addr(id, addr).id_at(other_addr) == r.id_at(other_addr),
        r.client(id) is None ==> r.update_addr(id, addr) == r,
        r.update_addr(id, addr).next_id == r.next_id,
{
}

/// Another port of a host has the same address of the same family.
pub proof fn law_port_of_host(a: ClientAddr, port: u16)
    ensures
        a.with_port(port).v6 == a.v6,
        a.with_port(port).ip == a.ip,
        a.with_port(port).port == port,
        a.with_port(port).flowinfo == 0,
        a.with_port(port).scope_id == 0,
{
}

} // verus!
