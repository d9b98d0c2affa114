//! The directory of the peers that a node is connected to.
//!
//! A directory is modelled as a sequence of records in which no endpoint
//! occurs twice. The operations are first defined on such sequences; the
//! methods of [`NodeMap`] are then specified by those definitions.

use crate::address::{Address, Endpoint};
use vstd::prelude::*;

verus! {

/// What is known of the address that a peer listens on.
#[derive(Clone, Copy, Debug, PartialEq, Eq, Structural)]
pub enum NodeInfo {
    /// The peer has not announced an address.
    OldInfo,
    /// The address that the peer announced as its own.
    NewInfo(Address),
}

/// One entry of the directory: a connection and what its peer announced.
#[derive(Clone, Copy, Debug, PartialEq, Eq, Structural)]
pub struct PeerRecord {
    pub endpoint: Endpoint,
    pub info: NodeInfo,
}

/// A peer as a receiver of messages: where to send, and the address under
/// which the peer is known.
#[derive(Clone, Copy, Debug, PartialEq, Eq, Structural)]
pub struct NodeAddr {
    /// The public address of the peer.
    pub public: Address,
    /// The connection to send over.
    pub endpoint: Endpoint,
}

impl PeerRecord {
    /// The public address of the peer: the one it announced, or else the
    /// address that the transport observed for the connection.
    pub open spec fn public(self) -> Address {
        match self.info {
            NodeInfo::OldInfo => self.endpoint.addr,
            NodeInfo::NewInfo(announced) => announced,
        }
    }

    /// The record as a receiver.
    pub open spec fn receiver(self) -> NodeAddr {
        NodeAddr { public: self.public(), endpoint: self.endpoint }
    }

    fn resolve(&self) -> (address: Address)
        ensures
            address == self.public(),
    {
        match self.info {
            NodeInfo::OldInfo => self.endpoint.addr,
            NodeInfo::NewInfo(announced) => announced,
        }
    }
}

/// No endpoint has two records.
pub open spec fn distinct_endpoints(records: Seq<PeerRecord>) -> bool {
    forall|i: int, j: int|
        0 <= i < j < records.len() ==> (#[trigger] records[i]).endpoint != (
        #[trigger] records[j]).endpoint
}

/// Some record belongs to `endpoint`.
pub open spec fn knows(records: Seq<PeerRecord>, endpoint: Endpoint) -> bool {
    exists|i: int| 0 <= i < records.len() && (#[trigger] records[i]).endpoint == endpoint
}

/// The place of the record of `endpoint`, where there is one.
pub open spec fn index_of(records: Seq<PeerRecord>, endpoint: Endpoint) -> int {
    choose|i: int| 0 <= i < records.len() && (#[trigger] records[i]).endpoint == endpoint
}

/// The public address under which `endpoint` is known, if it is known.
pub open spec fn resolved(records: Seq<PeerRecord>, endpoint: Endpoint) -> Option<Address> {
    if knows(records, endpoint) {
        Some(records[index_of(records, endpoint)].public())
    } else {
        None
    }
}

/// The records after `endpoint` connected: a new endpoint gets a record
/// without an announced address at the end; a known endpoint keeps the record
/// it has, so that an announced address is never forgotten.
pub open spec fn registered(records: Seq<PeerRecord>, endpoint: Endpoint) -> Seq<PeerRecord> {
    if knows(records, endpoint) {
        records
    } else {
        records.push(PeerRecord { endpoint, info: NodeInfo::OldInfo })
    }
}

/// The records after `endpoint` announced `public`: the record of a known
/// endpoint is replaced where it stands, a new endpoint gets a record at the
/// end.
pub open spec fn announced(records: Seq<PeerRecord>, endpoint: Endpoint, public: Address) -> Seq<
    PeerRecord,
> {
    let record = PeerRecord { endpoint, info: NodeInfo::NewInfo(public) };
    if knows(records, endpoint) {
        records.update(index_of(records, endpoint), record)
    } else {
        records.push(record)
    }
}

/// The records after `endpoint` disconnected: its record is gone, the others
/// keep their order.
pub open spec fn removed(records: Seq<PeerRecord>, endpoint: Endpoint) -> Seq<PeerRecord> {
    if knows(records, endpoint) {
        records.remove(index_of(records, endpoint))
    } else {
        records
    }
}

/// The public address of each record, in the order of the records.
pub open spec fn public_addresses(records: Seq<PeerRecord>) -> Seq<Address> {
    records.map_values(|record: PeerRecord| record.public())
}

/// The list that a node hands to a peer that asks for it: its own address,
/// then the public address of every record.
pub open spec fn exported(own: Address, records: Seq<PeerRecord>) -> Seq<Address> {
    seq![own] + public_addresses(records)
}

/// Every record as a receiver, in the order of the records.
pub open spec fn receivers(records: Seq<PeerRecord>) -> Seq<NodeAddr> {
    records.map_values(|record: PeerRecord| record.receiver())
}

/// In a directory the record of an endpoint is found at one place only.
pub proof fn lemma_index_of(records: Seq<PeerRecord>, endpoint: Endpoint, i: int)
    requires
        distinct_endpoints(records),
        0 <= i < records.len(),
        records[i].endpoint == endpoint,
    ensures
        knows(records, endpoint),
        index_of(records, endpoint) == i,
{
    let j = index_of(records, endpoint);
    assert(0 <= j < records.len() && records[j].endpoint == endpoint);
    if i < j {
        assert(records[i].endpoint != records[j].endpoint);
    } else if j < i {
        assert(records[j].endpoint != records[i].endpoint);
    }
}

/// Registering, announcing and removing keep a directory a directory.
pub proof fn lemma_operations_keep_distinct(
    records: Seq<PeerRecord>,
    endpoint: Endpoint,
    public: Address,
)
    requires
        distinct_endpoints(records),
    ensures
        distinct_endpoints(registered(records, endpoint)),
        distinct_endpoints(announced(records, endpoint, public)),
        distinct_endpoints(removed(records, endpoint)),
{
    if knows(records, endpoint) {
        let at = index_of(records, endpoint);
        let after = announced(records, endpoint, public);
        assert forall|i: int, j: int| 0 <= i < j < after.len() implies (#[trigger] after[i]).endpoint
            != (#[trigger] after[j]).endpoint by {
            assert(after[i].endpoint == records[i].endpoint);
            assert(after[j].endpoint == records[j].endpoint);
        }
        let rest = removed(records, endpoint);
        assert forall|i: int, j: int| 0 <= i < j < rest.len() implies (#[trigger] rest[i]).endpoint
            != (#[trigger] rest[j]).endpoint by {
            let from_i = if i < at { i } else { i + 1 };
            let from_j = if j < at { j } else { j + 1 };
            assert(rest[i] == records[from_i]);
            assert(rest[j] == records[from_j]);
        }
    } else {
        let fresh = registered(records, endpoint);
        assert forall|i: int, j: int| 0 <= i < j < fresh.len() implies (#[trigger] fresh[i]).endpoint
            != (#[trigger] fresh[j]).endpoint by {
            if j < records.len() {
                assert(fresh[i] == records[i] && fresh[j] == records[j]);
            } else {
                assert(fresh[i] == records[i]);
                assert(fresh[j].endpoint == endpoint);
            }
        }
        let after = announced(records, endpoint, public);
        assert forall|i: int, j: int| 0 <= i < j < after.len() implies (#[trigger] after[i]).endpoint
            != (#[trigger] after[j]).endpoint by {
            if j < records.len() {
                assert(after[i] == records[i] && after[j] == records[j]);
            } else {
                assert(after[i] == records[i]);
                assert(after[j].endpoint == endpoint);
            }
        }
    }
}

/// Once a peer has announced an address, its endpoint resolves to that
/// address, whatever the directory held for it before; and the address stays
/// when the endpoint is registered as connected again.
pub proof fn lemma_announced_is_resolved(
    records: Seq<PeerRecord>,
    endpoint: Endpoint,
    public: Address,
)
    requires
        distinct_endpoints(records),
    ensures
        resolved(announced(records, endpoint, public), endpoint) == Some(public),
        resolved(registered(announced(records, endpoint, public), endpoint), endpoint) == Some(
            public,
        ),
{
    let after = announced(records, endpoint, public);
    lemma_operations_keep_distinct(records, endpoint, public);
    let at = if knows(records, endpoint) {
        index_of(records, endpoint)
    } else {
        records.len() as int
    };
    assert(after[at].endpoint == endpoint);
    lemma_index_of(after, endpoint, at);
}

/// A connected endpoint that has announced nothing resolves to the address
/// that the transport observed for it.
pub proof fn lemma_registered_is_resolved(records: Seq<PeerRecord>, endpoint: Endpoint)
    requires
        distinct_endpoints(records),
        !knows(records, endpoint),
    ensures
        resolved(registered(records, endpoint), endpoint) == Some(endpoint.addr),
{
    let after = registered(records, endpoint);
    lemma_operations_keep_distinct(records, endpoint, endpoint.addr);
    assert(after[records.len() as int].endpoint == endpoint);
    lemma_index_of(after, endpoint, records.len() as int);
}

/// A removed endpoint is forgotten: it resolves to no address, it is no
/// receiver, and the list for other peers holds the node's own address and
/// one address for each record that is left. The records of other endpoints
/// all stay.
pub proof fn lemma_removed_is_forgotten(own: Address, records: Seq<PeerRecord>, endpoint: Endpoint)
    requires
        distinct_endpoints(records),
    ensures
        !knows(removed(records, endpoint), endpoint),
        resolved(removed(records, endpoint), endpoint) is None,
        forall|i: int|
            0 <= i < receivers(removed(records, endpoint)).len() ==> (#[trigger] receivers(
                removed(records, endpoint),
            )[i]).endpoint != endpoint,
        exported(own, removed(records, endpoint)).len() == removed(records, endpoint).len() + 1,
        forall|record: PeerRecord|
            removed(records, endpoint).contains(record) <==> records.contains(record)
                && record.endpoint != endpoint,
{
    let rest = removed(records, endpoint);
    if knows(records, endpoint) {
        let at = index_of(records, endpoint);
        assert forall|i: int| 0 <= i < rest.len() implies (#[trigger] rest[i]).endpoint
            != endpoint by {
            let from = if i < at { i } else { i + 1 };
            assert(rest[i] == records[from]);
            if from < at {
                assert(records[from].endpoint != records[at].endpoint);
            } else {
                assert(records[at].endpoint != records[from].endpoint);
            }
        }
        assert forall|record: PeerRecord|
            rest.contains(record) <==> records.contains(record) && record.endpoint
                != endpoint by {
            if rest.contains(record) {
                let i = choose|i: int| 0 <= i < rest.len() && rest[i] == record;
                let from = if i < at { i } else { i + 1 };
                assert(rest[i] == records[from]);
            }
            if records.contains(record) && record.endpoint != endpoint {
                let from = choose|i: int| 0 <= i < records.len() && records[i] == record;
                let i = if from < at { from } else { from - 1 };
                assert(rest[i] == record);
            }
        }
    } else {
        assert forall|record: PeerRecord|
            rest.contains(record) <==> records.contains(record) && record.endpoint
                != endpoint by {
            if records.contains(record) {
                let from = choose|i: int| 0 <= i < records.len() && records[i] == record;
                assert(records[from].endpoint != endpoint);
            }
        }
    }
    assert forall|i: int| 0 <= i < receivers(rest).len() implies (#[trigger] receivers(
        rest,
    )[i]).endpoint != endpoint by {
        assert(rest[i].endpoint != endpoint);
    }
}

/// The peers of a node, each with the connection that leads to it, and the
/// node's own public address, which is fixed when the directory is made. No
/// endpoint has two records.
pub struct NodeMap {
    records: Vec<PeerRecord>,
    self_pub_addr: Address,
}

impl NodeMap {
    /// The records of the directory, oldest first.
    pub closed spec fn peers(&self) -> Seq<PeerRecord> {
        self.records@
    }

    /// The public address of the node that owns the directory.
    pub closed spec fn own_address(&self) -> Address {
        self.self_pub_addr
    }

    #[verifier::type_invariant]
    spec fn one_record_each(&self) -> bool {
        distinct_endpoints(self.records@)
    }

    /// An empty directory for the node with public address `self_pub_addr`.
    pub fn new(self_pub_addr: Address) -> (map: Self)
        ensures
            map.peers() == Seq::<PeerRecord>::empty(),
            map.own_address() == self_pub_addr,
    {
        NodeMap { records: Vec::new(), self_pub_addr }
    }

    /// The public address of the node that owns the directory.
    pub fn self_pub_addr(&self) -> (address: Address)
        ensures
            address == self.own_address(),
    {
        self.self_pub_addr
    }

    /// The number of peers. No endpoint has two records, in any directory.
    pub fn len(&self) -> (count: usize)
        ensures
            count == self.peers().len(),
            distinct_endpoints(self.peers()),
    {
        proof {
            use_type_invariant(self);
        }
        self.records.len()
    }

    fn find(&self, endpoint: Endpoint) -> (found: Option<usize>)
        ensures
            distinct_endpoints(self.peers()),
            found is Some <==> knows(self.peers(), endpoint),
            found matches Some(at) ==> at == index_of(self.peers(), endpoint) && at
                < self.peers().len() && self.peers()[at as int].endpoint == endpoint,
    {
        proof {
            use_type_invariant(self);
        }
        let mut at: usize = 0;
        while at < self.records.len()
            invariant
                at <= self.records.len(),
                distinct_endpoints(self.records@),
                forall|k: int| 0 <= k < at ==> (#[trigger] self.records@[k]).endpoint != endpoint,
            decreases self.records.len() - at,
        {
            if self.records[at].endpoint == endpoint {
                proof {
                    lemma_index_of(self.peers(), endpoint, at as int);
                }
                return Some(at);
            }
            at += 1;
        }
        None
    }

    /// Records that `endpoint` connected. A new endpoint is known by its
    /// observed address from now on; one that is known already keeps its
    /// record, announced address included.
    pub fn add_old_one(&mut self, endpoint: Endpoint)
        ensures
            final(self).peers() == registered(old(self).peers(), endpoint),
            final(self).own_address() == old(self).own_address(),
            distinct_endpoints(final(self).peers()),
    {
        let found = self.find(endpoint);
        proof {
            lemma_operations_keep_distinct(self.peers(), endpoint, endpoint.addr);
        }
        if found.is_none() {
            let mut records: Vec<PeerRecord> = Vec::new();
            std::mem::swap(&mut records, &mut self.records);
            records.push(PeerRecord { endpoint, info: NodeInfo::OldInfo });
            self.records = records;
        }
    }

    /// Records that the peer behind `endpoint` announced `pub_addr` as its
    /// public address, whether or not the endpoint was known before.
    pub fn add_new_one(&mut self, endpoint: Endpoint, pub_addr: Address)
        ensures
            final(self).peers() == announced(old(self).peers(), endpoint, pub_addr),
            final(self).own_address() == old(self).own_address(),
            distinct_endpoints(final(self).peers()),
    {
        let found = self.find(endpoint);
        proof {
            lemma_operations_keep_distinct(self.peers(), endpoint, pub_addr);
        }
        let record = PeerRecord { endpoint, info: NodeInfo::NewInfo(pub_addr) };
        let mut records: Vec<PeerRecord> = Vec::new();
        std::mem::swap(&mut records, &mut self.records);
        match found {
            Some(at) => {
                records.set(at, record);
            },
            None => {
                records.push(record);
            },
        }
        self.records = records;
    }

    /// Forgets `endpoint`. Nothing changes if it is not known.
    pub fn drop(&mut self, endpoint: Endpoint)
        ensures
            final(self).peers() == removed(old(self).peers(), endpoint),
            final(self).own_address() == old(self).own_address(),
            distinct_endpoints(final(self).peers()),
    {
        let found = self.find(endpoint);
        proof {
            lemma_operations_keep_distinct(self.peers(), endpoint, endpoint.addr);
        }
        if let Some(at) = found {
            let mut records: Vec<PeerRecord> = Vec::new();
            std::mem::swap(&mut records, &mut self.records);
            records.remove(at);
            self.records = records;
        }
    }

    /// The addresses to hand to a peer that asks whom this node knows: the
    /// node's own address first, then the public address of every peer.
    pub fn get_peers_list(&self) -> (list: Vec<Address>)
        ensures
            list@ == exported(self.own_address(), self.peers()),
            list@.len() == self.peers().len() + 1,
            list@[0] == self.own_address(),
    {
        let mut list: Vec<Address> = Vec::new();
        list.push(self.self_pub_addr);
        let mut at: usize = 0;
        while at < self.records.len()
            invariant
                at <= self.records.len(),
                list@.len() == at + 1,
                list@[0] == self.self_pub_addr,
                forall|k: int| 0 <= k < at ==> list@[k + 1] == (#[trigger] self.records@[k]).public(),
            decreases self.records.len() - at,
        {
            list.push(self.records[at].resolve());
            at += 1;
        }
        assert(list@ =~= exported(self.own_address(), self.peers()));
        list
    }

    /// Every peer as a receiver, with the address under which it is known.
    /// No two receivers share an endpoint.
    pub fn fetch_receivers(&self) -> (list: Vec<NodeAddr>)
        ensures
            list@ == receivers(self.peers()),
            distinct_endpoints(self.peers()),
    {
        proof {
            use_type_invariant(self);
        }
        let mut list: Vec<NodeAddr> = Vec::new();
        let mut at: usize = 0;
        while at < self.records.len()
            invariant
                at <= self.records.len(),
                list@.len() == at,
                forall|k: int| 0 <= k < at ==> list@[k] == (#[trigger] self.records@[k]).receiver(),
            decreases self.records.len() - at,
        {
            let record = &self.records[at];
            list.push(NodeAddr { public: record.resolve(), endpoint: record.endpoint });
            at += 1;
        }
        assert(list@ =~= receivers(self.peers()));
        list
    }

    /// The public address under which `endpoint` is known: `None` for an
    /// endpoint without a record.
    pub fn get_pub_addr(&self, endpoint: &Endpoint) -> (address: Option<Address>)
        ensures
            address == resolved(self.peers(), *endpoint),
    {
        match self.find(*endpoint) {
            Some(at) => Some(self.records[at].resolve()),
            None => None,
        }
    }
}

} // verus!
