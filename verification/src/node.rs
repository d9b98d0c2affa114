//! The node: what it does when it starts, when the network delivers
//! something, when a peer it dialed answers, and on every tick of its
//! emitter.
//!
//! A node never touches a socket. Each step takes what happened and returns
//! the actions to perform, in order; the program around the node performs
//! them and reports what came of them. Between two steps nothing of the node
//! changes, so a lock held for the length of one step keeps the directory
//! whole when the emitter runs beside the event loop.

use crate::address::{Address, Endpoint};
use crate::error::{Error, ErrorView};
use crate::message::{decode, Message, MessageView};
use crate::node_map::{
    announced, distinct_endpoints, exported, lemma_removed_is_forgotten, receivers, registered,
    removed, resolved, NodeAddr, NodeMap, PeerRecord,
};
use crate::render::{describe_failure, failure_text, listening_addr, listening_text};
use vstd::prelude::*;
use vstd::slice::slice_to_vec;

verus! {

/// What the transport reports to a node.
#[derive(Debug, PartialEq, Eq)]
pub enum NetEvent {
    /// A listener, named by the number of its resource, accepted a
    /// connection.
    Connected(Endpoint, usize),
    /// Bytes arrived over a connection.
    Message(Endpoint, Vec<u8>),
    /// A connection was lost.
    Disconnected(Endpoint),
}

/// Something for the operator to read.
#[derive(Debug, PartialEq, Eq)]
pub enum Notice {
    /// A list of peers arrived; the node dials these addresses.
    Discovered(Vec<Address>),
    /// The node sends a text to the peers with these addresses.
    Sending(String, Vec<Address>),
    /// A text arrived from the peer with this address; `None` where the
    /// sender is not known, as after its connection was lost.
    Received(Option<Address>, String),
    /// Something failed, and the node goes on.
    Failure(Error),
}

/// What a node asks the program around it to do.
#[derive(Debug, PartialEq, Eq)]
pub enum Action {
    /// Open a connection to the peer that was named when the node was made,
    /// and report the outcome with [`Node::seed_dialed`].
    Dial(String),
    /// Open a connection to this address, and report the outcome with
    /// [`Node::peer_dialed`].
    Connect(Address),
    /// Send the message over the connection.
    Send(Endpoint, Message),
    /// Tell the operator.
    Report(Notice),
}

/// A notice as a mathematical value.
pub enum NoticeView {
    Discovered(Seq<Address>),
    Sending(Seq<char>, Seq<Address>),
    Received(Option<Address>, Seq<char>),
    Failure(ErrorView),
}

/// An action as a mathematical value.
pub enum ActionView {
    Dial(Seq<char>),
    Connect(Address),
    Send(Endpoint, MessageView),
    Report(NoticeView),
}

impl View for Notice {
    type V = NoticeView;

    open spec fn view(&self) -> NoticeView {
        match self {
            Notice::Discovered(targets) => NoticeView::Discovered(targets@),
            Notice::Sending(text, to) => NoticeView::Sending(text@, to@),
            Notice::Received(from, text) => NoticeView::Received(*from, text@),
            Notice::Failure(error) => NoticeView::Failure(error@),
        }
    }
}

impl View for Action {
    type V = ActionView;

    open spec fn view(&self) -> ActionView {
        match self {
            Action::Dial(seed) => ActionView::Dial(seed@),
            Action::Connect(address) => ActionView::Connect(*address),
            Action::Send(to, message) => ActionView::Send(*to, message@),
            Action::Report(notice) => ActionView::Report(notice@),
        }
    }
}

impl Clone for NetEvent {
    fn clone(&self) -> (copy: NetEvent)
        ensures
            match (*self, copy) {
                (NetEvent::Connected(endpoint, listener), NetEvent::Connected(same, also)) => same
                    == endpoint && also == listener,
                (NetEvent::Message(sender, data), NetEvent::Message(same, bytes)) => same == sender
                    && bytes@ == data@,
                (NetEvent::Disconnected(endpoint), NetEvent::Disconnected(same)) => same
                    == endpoint,
                _ => false,
            },
    {
        match self {
            NetEvent::Connected(endpoint, listener) => NetEvent::Connected(*endpoint, *listener),
            NetEvent::Message(sender, data) => NetEvent::Message(
                *sender,
                slice_to_vec(data.as_slice()),
            ),
            NetEvent::Disconnected(endpoint) => NetEvent::Disconnected(*endpoint),
        }
    }
}

impl Clone for Notice {
    fn clone(&self) -> (copy: Notice)
        ensures
            copy@ == self@,
    {
        match self {
            Notice::Discovered(targets) => Notice::Discovered(slice_to_vec(targets.as_slice())),
            Notice::Sending(text, to) => Notice::Sending(text.clone(), slice_to_vec(to.as_slice())),
            Notice::Received(from, text) => Notice::Received(*from, text.clone()),
            Notice::Failure(error) => Notice::Failure(error.clone()),
        }
    }
}

impl Clone for Action {
    fn clone(&self) -> (copy: Action)
        ensures
            copy@ == self@,
    {
        match self {
            Action::Dial(seed) => Action::Dial(seed.clone()),
            Action::Connect(address) => Action::Connect(*address),
            Action::Send(to, message) => Action::Send(*to, message.clone()),
            Action::Report(notice) => Action::Report(notice.clone()),
        }
    }
}

/// The actions of a list as mathematical values.
pub open spec fn views(actions: Seq<Action>) -> Seq<ActionView> {
    actions.map_values(|action: Action| action@)
}

/// The addresses of `list` to dial, in the order of the list: each address
/// that is not in `known`, is not `sender`, and did not occur earlier in the
/// list.
pub open spec fn dial_targets(list: Seq<Address>, known: Seq<Address>, sender: Address) -> Seq<
    Address,
>
    decreases list.len(),
{
    if list.len() == 0 {
        Seq::empty()
    } else {
        let earlier = dial_targets(list.drop_last(), known, sender);
        let candidate = list.last();
        if known.contains(candidate) || candidate == sender || earlier.contains(candidate) {
            earlier
        } else {
            earlier.push(candidate)
        }
    }
}

/// The seed as the node keeps it.
pub open spec fn start_seed(peer: Option<String>) -> Option<Seq<char>> {
    match peer {
        Some(address) => Some(address@),
        None => None,
    }
}

/// What a starting node asks for: to dial the seed, if one was named.
pub open spec fn start_actions(seed: Option<Seq<char>>) -> Seq<ActionView> {
    match seed {
        Some(address) => seq![ActionView::Dial(address)],
        None => Seq::empty(),
    }
}

/// The text of the seed; empty where none was named.
pub open spec fn seed_text(seed: Option<Seq<char>>) -> Seq<char> {
    match seed {
        Some(address) => address,
        None => Seq::empty(),
    }
}

/// What a node does once the seed was dialed. Over a new connection it
/// first says who it is and then asks for the peers of the seed. A failure
/// is reported, and the node goes on without peers.
pub open spec fn seed_actions(
    own: Address,
    seed: Option<Seq<char>>,
    outcome: Result<Endpoint, String>,
) -> Seq<ActionView> {
    match outcome {
        Ok(endpoint) => seq![
            ActionView::Send(endpoint, MessageView::RetrievePubAddr(own)),
            ActionView::Send(endpoint, MessageView::RetrievePeerList),
        ],
        Err(reason) => seq![
            ActionView::Report(
                NoticeView::Failure(
                    ErrorView::NetworkConnectionError(failure_text(reason@, seed_text(seed))),
                ),
            ),
        ],
    }
}

/// What a node does once a peer from a list was dialed: over a new
/// connection it says who it is. A failure is reported, and the node goes on
/// with the other peers.
pub open spec fn peer_actions(own: Address, outcome: Result<Endpoint, String>) -> Seq<ActionView> {
    match outcome {
        Ok(endpoint) => seq![ActionView::Send(endpoint, MessageView::RetrievePubAddr(own))],
        Err(reason) => seq![
            ActionView::Report(NoticeView::Failure(ErrorView::NetworkConnectionError(reason@))),
        ],
    }
}

/// The records after a dial: a new connection is registered.
pub open spec fn peers_after_dial(
    peers: Seq<PeerRecord>,
    outcome: Result<Endpoint, String>,
) -> Seq<PeerRecord> {
    match outcome {
        Ok(endpoint) => registered(peers, endpoint),
        Err(_) => peers,
    }
}

/// The records after an event of the transport. A peer that announces its
/// address gets or changes its record, a lost connection loses its record,
/// and nothing else changes the directory: neither an accepted connection,
/// nor any other message, nor bytes that are no message.
pub open spec fn peers_after(peers: Seq<PeerRecord>, event: NetEvent) -> Seq<PeerRecord> {
    match event {
        NetEvent::Connected(_, _) => peers,
        NetEvent::Message(sender, data) => match decode(data@) {
            Ok(MessageView::RetrievePubAddr(public)) => announced(peers, sender, public),
            _ => peers,
        },
        NetEvent::Disconnected(endpoint) => removed(peers, endpoint),
    }
}

/// What a node does with the addresses it chose to dial: it tells the
/// operator, then asks for a connection to each in turn.
pub open spec fn dialing(targets: Seq<Address>) -> Seq<ActionView> {
    seq![ActionView::Report(NoticeView::Discovered(targets))] + targets.map_values(
        |address: Address| ActionView::Connect(address),
    )
}

/// What a node does about a message from `sender`.
pub open spec fn message_actions(
    own: Address,
    peers: Seq<PeerRecord>,
    sender: Endpoint,
    message: MessageView,
) -> Seq<ActionView> {
    match message {
        MessageView::RetrievePubAddr(_) => Seq::empty(),
        MessageView::RetrievePeerList => seq![
            ActionView::Send(sender, MessageView::RespondToListQuery(exported(own, peers))),
        ],
        MessageView::RespondToListQuery(list) => dialing(
            dial_targets(list, exported(own, peers), sender.addr),
        ),
        MessageView::RequestRandomInfo(text) => seq![
            ActionView::Report(NoticeView::Received(resolved(peers, sender), text)),
        ],
    }
}

/// What a node does about an event of the transport. Bytes that are no
/// message are reported and dropped.
pub open spec fn reaction(own: Address, peers: Seq<PeerRecord>, event: NetEvent) -> Seq<
    ActionView,
> {
    match event {
        NetEvent::Connected(_, _) => Seq::empty(),
        NetEvent::Message(sender, data) => match decode(data@) {
            Ok(message) => message_actions(own, peers, sender, message),
            Err(error) => seq![
                ActionView::Report(NoticeView::Failure(ErrorView::MalformedMessage(error))),
            ],
        },
        NetEvent::Disconnected(_) => Seq::empty(),
    }
}

/// The public address of each receiver.
pub open spec fn publics(to: Seq<NodeAddr>) -> Seq<Address> {
    to.map_values(|receiver: NodeAddr| receiver.public)
}

/// What a node does on a tick of its emitter with the text of this tick:
/// nothing if it has no receiver; else it tells the operator and sends the
/// text to every receiver in turn.
pub open spec fn emission(to: Seq<NodeAddr>, text: Seq<char>) -> Seq<ActionView> {
    if to.len() == 0 {
        Seq::empty()
    } else {
        seq![ActionView::Report(NoticeView::Sending(text, publics(to)))] + to.map_values(
            |receiver: NodeAddr|
                ActionView::Send(receiver.endpoint, MessageView::RequestRandomInfo(text)),
        )
    }
}

/// The action sends something over `endpoint`.
pub open spec fn sends_to(action: ActionView, endpoint: Endpoint) -> bool {
    action matches ActionView::Send(to, _) && to == endpoint
}

/// A list of peers is dialed exactly: an address is dialed if and only if
/// it is in the list, is not known already (the node's own address is), and
/// is not the address from which the list came; and none is dialed twice.
pub proof fn lemma_dial_targets(list: Seq<Address>, known: Seq<Address>, sender: Address)
    ensures
        forall|address: Address|
            #[trigger] dial_targets(list, known, sender).contains(address) <==> list.contains(
                address,
            ) && !known.contains(address) && address != sender,
        dial_targets(list, known, sender).no_duplicates(),
    decreases list.len(),
{
    let targets = dial_targets(list, known, sender);
    if list.len() == 0 {
    } else {
        let shorter = list.drop_last();
        let earlier = dial_targets(shorter, known, sender);
        let candidate = list.last();
        lemma_dial_targets(shorter, known, sender);
        assert forall|address: Address| #[trigger]
            targets.contains(address) <==> list.contains(address) && !known.contains(address)
                && address != sender by {
            if list.contains(address) {
                let i = choose|i: int| 0 <= i < list.len() && list[i] == address;
                if i < shorter.len() {
                    assert(shorter[i] == address);
                }
            }
            if shorter.contains(address) {
                let i = choose|i: int| 0 <= i < shorter.len() && shorter[i] == address;
                assert(list[i] == address);
            }
            assert(list[list.len() - 1] == candidate);
            if targets.contains(address) {
                let i = choose|i: int| 0 <= i < targets.len() && targets[i] == address;
                if i < earlier.len() {
                    assert(earlier[i] == address);
                }
            }
            if earlier.contains(address) {
                let i = choose|i: int| 0 <= i < earlier.len() && earlier[i] == address;
                assert(targets[i] == address);
            }
            if targets.len() > earlier.len() {
                assert(targets[targets.len() - 1] == candidate);
            }
        }
        assert forall|i: int, j: int| 0 <= i < targets.len() && 0 <= j < targets.len() && i
            != j implies targets[i] != targets[j] by {
            if i < earlier.len() {
                assert(earlier[i] == targets[i]);
            }
            if j < earlier.len() {
                assert(earlier[j] == targets[j]);
            }
        }
    }
}

/// A node never dials itself, nor the address from which the list came, nor
/// an address under which it knows a peer already.
pub proof fn lemma_never_dials_known(
    own: Address,
    peers: Seq<PeerRecord>,
    sender: Endpoint,
    list: Seq<Address>,
)
    ensures
        !dial_targets(list, exported(own, peers), sender.addr).contains(own),
        !dial_targets(list, exported(own, peers), sender.addr).contains(sender.addr),
        forall|i: int|
            0 <= i < peers.len() ==> !dial_targets(
                list,
                exported(own, peers),
                sender.addr,
            ).contains(#[trigger] peers[i].public()),
{
    let known = exported(own, peers);
    lemma_dial_targets(list, known, sender.addr);
    assert(known[0] == own);
    assert forall|i: int| 0 <= i < peers.len() implies !dial_targets(
        list,
        known,
        sender.addr,
    ).contains(#[trigger] peers[i].public()) by {
        assert(known[i + 1] == peers[i].public());
    }
}

/// From a list of its own address and two others, a node that knows
/// neither of the two yet dials exactly the two, less the address from which
/// the list came, and never its own address.
pub proof fn lemma_list_of_self_and_two(
    own: Address,
    peers: Seq<PeerRecord>,
    sender: Endpoint,
    first: Address,
    second: Address,
)
    requires
        forall|i: int|
            0 <= i < peers.len() ==> (#[trigger] peers[i]).public() != first && peers[i].public()
                != second,
    ensures
        ({
            let targets = dial_targets(
                seq![own, first, second],
                exported(own, peers),
                sender.addr,
            );
            forall|address: Address| #[trigger]
                targets.contains(address) <==> (address == first || address == second)
                    && address != sender.addr && address != own
        }),
{
    let list = seq![own, first, second];
    let known = exported(own, peers);
    lemma_dial_targets(list, known, sender.addr);
    assert(known[0] == own);
    assert(list[0] == own && list[1] == first && list[2] == second);
    assert forall|address: Address|
        (address == first || address == second) && address != own implies !known.contains(
        address,
    ) by {
        if known.contains(address) {
            let i = choose|i: int| 0 <= i < known.len() && known[i] == address;
            assert(i > 0);
            assert(known[i] == peers[i - 1].public());
        }
    }
}

/// Once a connection is lost, no tick of the emitter sends over it, as
/// long as its endpoint is not registered again.
pub proof fn lemma_no_emission_to_removed(
    peers: Seq<PeerRecord>,
    endpoint: Endpoint,
    text: Seq<char>,
)
    requires
        distinct_endpoints(peers),
    ensures
        forall|i: int|
            0 <= i < emission(receivers(removed(peers, endpoint)), text).len() ==> !sends_to(
                #[trigger] emission(receivers(removed(peers, endpoint)), text)[i],
                endpoint,
            ),
{
    let to = receivers(removed(peers, endpoint));
    let actions = emission(to, text);
    lemma_removed_is_forgotten(endpoint.addr, peers, endpoint);
    assert forall|i: int| 0 <= i < actions.len() implies !sends_to(
        #[trigger] actions[i],
        endpoint,
    ) by {
        if i > 0 {
            assert(to[i - 1].endpoint != endpoint);
        }
    }
}

/// A node without peers emits nothing.
pub proof fn lemma_no_emission_without_peers(text: Seq<char>)
    ensures
        emission(receivers(Seq::<PeerRecord>::empty()), text) == Seq::<ActionView>::empty(),
{
}

fn holds(list: &Vec<Address>, address: Address) -> (found: bool)
    ensures
        found == list@.contains(address),
{
    let mut at: usize = 0;
    while at < list.len()
        invariant
            at <= list.len(),
            forall|k: int| 0 <= k < at ==> list@[k] != address,
        decreases list.len() - at,
    {
        if list[at] == address {
            return true;
        }
        at += 1;
    }
    false
}

/// The addresses of `list` to dial: those that are not in `known`, are not
/// `sender`, and did not occur earlier in the list.
pub fn select_targets(list: &Vec<Address>, known: &Vec<Address>, sender: Address) -> (targets:
    Vec<Address>)
    ensures
        targets@ == dial_targets(list@, known@, sender),
{
    let mut targets: Vec<Address> = Vec::new();
    let mut at: usize = 0;
    assert(list@.take(0) =~= Seq::<Address>::empty());
    while at < list.len()
        invariant
            at <= list.len(),
            targets@ == dial_targets(list@.take(at as int), known@, sender),
        decreases list.len() - at,
    {
        let candidate = list[at];
        proof {
            let now = list@.take(at + 1);
            assert(now.drop_last() =~= list@.take(at as int));
            assert(now.last() == candidate);
        }
        if !holds(known, candidate) && candidate != sender && !holds(&targets, candidate) {
            targets.push(candidate);
        }
        at += 1;
    }
    assert(list@.take(at as int) =~= list@);
    targets
}

fn dial_all(targets: &Vec<Address>) -> (actions: Vec<Action>)
    ensures
        views(actions@) == dialing(targets@),
{
    let mut actions: Vec<Action> = Vec::new();
    actions.push(Action::Report(Notice::Discovered(slice_to_vec(targets.as_slice()))));
    assert(views(actions@) =~= dialing(targets@).take(1));
    let mut at: usize = 0;
    while at < targets.len()
        invariant
            at <= targets.len(),
            actions@.len() == at + 1,
            views(actions@) == dialing(targets@).take(at + 1),
        decreases targets.len() - at,
    {
        actions.push(Action::Connect(targets[at]));
        assert(views(actions@) =~= dialing(targets@).take(at + 2));
        at += 1;
    }
    assert(dialing(targets@).take(at + 1) =~= dialing(targets@));
    actions
}

/// The actions of one tick of the emitter with the text of this tick.
pub fn emit_to(to: &Vec<NodeAddr>, text: &String) -> (actions: Vec<Action>)
    ensures
        views(actions@) == emission(to@, text@),
{
    let mut actions: Vec<Action> = Vec::new();
    if to.len() == 0 {
        assert(views(actions@) =~= emission(to@, text@));
        return actions;
    }
    let mut addresses: Vec<Address> = Vec::new();
    let mut at: usize = 0;
    while at < to.len()
        invariant
            at <= to.len(),
            addresses@ == publics(to@).take(at as int),
        decreases to.len() - at,
    {
        addresses.push(to[at].public);
        assert(addresses@ =~= publics(to@).take(at + 1));
        at += 1;
    }
    assert(publics(to@).take(at as int) =~= publics(to@));
    actions.push(Action::Report(Notice::Sending(text.clone(), addresses)));
    let mut at: usize = 0;
    while at < to.len()
        invariant
            at <= to.len(),
            to.len() > 0,
            actions@.len() == at + 1,
            views(actions@) == emission(to@, text@).take(at + 1),
        decreases to.len() - at,
    {
        actions.push(Action::Send(to[at].endpoint, Message::RequestRandomInfo(text.clone())));
        assert(views(actions@) =~= emission(to@, text@).take(at + 2));
        at += 1;
    }
    assert(emission(to@, text@).take(at + 1) =~= emission(to@, text@));
    actions
}

/// Draws a name of two words joined by a hyphen with
/// `petname::Petnames::generate_one` on the default word lists. The words
/// are drawn at random, so nothing is promised of the text.
#[verifier::external_body]
fn generate_random_message() -> String {
    petname::Petnames::default().generate_one(2, "-")
}

/// A node of the network: its directory of peers, which knows the node's
/// own public address, the period of its emitter in seconds, and the seed it
/// was told to dial.
pub struct Node {
    connections: NodeMap,
    duration: u32,
    peer: Option<String>,
}

impl Node {
    /// The records of the node's directory, oldest first.
    pub closed spec fn peers(&self) -> Seq<PeerRecord> {
        self.connections.peers()
    }

    /// The public address of the node.
    pub closed spec fn address(&self) -> Address {
        self.connections.own_address()
    }

    /// The seconds between two ticks of the emitter.
    pub closed spec fn period(&self) -> u32 {
        self.duration
    }

    /// The address of the seed, as it was given.
    pub closed spec fn seed(&self) -> Option<Seq<char>> {
        match self.peer {
            Some(address) => Some(address@),
            None => None,
        }
    }

    /// A node for the given port, from the outcome of listening on
    /// [`listening_addr`] of that port: the address that the transport
    /// bound, or the reason why it could not. A node that listens has no
    /// peers yet. A node that cannot listen is not made; the error names the
    /// reason and the address.
    pub fn new(
        port: u32,
        duration: u32,
        peer: Option<String>,
        listening: Result<Address, String>,
    ) -> (made: Result<Node, Error>)
        ensures
            listening is Ok <==> made is Ok,
            made matches Ok(node) ==> {
                &&& listening == Ok::<Address, String>(node.address())
                &&& node.peers() == Seq::<PeerRecord>::empty()
                &&& node.period() == duration
                &&& node.seed() == start_seed(peer)
            },
            made matches Err(error) ==> listening matches Err(reason) && error@
                == ErrorView::NetworkListeningError(
                failure_text(reason@, listening_text(port as nat)),
            ),
    {
        match listening {
            Ok(address) => Ok(Node { connections: NodeMap::new(address), duration, peer }),
            Err(reason) => {
                let address = listening_addr(port);
                Err(Error::NetworkListeningError(describe_failure(reason.as_str(), address.as_str())))
            },
        }
    }

    /// The public address of the node.
    pub fn node_addr(&self) -> (address: Address)
        ensures
            address == self.address(),
    {
        self.connections.self_pub_addr()
    }

    /// The seconds between two ticks of the emitter.
    pub fn duration(&self) -> (seconds: u32)
        ensures
            seconds == self.period(),
    {
        self.duration
    }

    /// The address of the seed, as it was given.
    pub fn peer(&self) -> (seed: &Option<String>)
        ensures
            start_seed(*seed) == self.seed(),
    {
        &self.peer
    }

    /// The directory of the node. Its methods tell more of the peers: that
    /// no endpoint has two records is in the contract of [`NodeMap::len`].
    pub fn connections(&self) -> (directory: &NodeMap)
        ensures
            directory.peers() == self.peers(),
            directory.own_address() == self.address(),
    {
        &self.connections
    }

    /// Starts the node: asks for the seed to be dialed, if one was named.
    pub fn execute(&self) -> (actions: Vec<Action>)
        ensures
            views(actions@) == start_actions(self.seed()),
    {
        let mut actions: Vec<Action> = Vec::new();
        match &self.peer {
            Some(address) => {
                actions.push(Action::Dial(address.clone()));
            },
            None => {},
        }
        assert(views(actions@) =~= start_actions(self.seed()));
        actions
    }

    /// Takes the outcome of dialing the seed. A new connection is
    /// registered; over it the node says who it is before it asks for the
    /// peers of the seed. A failure is reported and changes nothing.
    pub fn seed_dialed(&mut self, outcome: Result<Endpoint, String>) -> (actions: Vec<Action>)
        ensures
            final(self).address() == old(self).address(),
            final(self).period() == old(self).period(),
            final(self).seed() == old(self).seed(),
            final(self).peers() == peers_after_dial(old(self).peers(), outcome),
            views(actions@) == seed_actions(old(self).address(), old(self).seed(), outcome),
    {
        let mut actions: Vec<Action> = Vec::new();
        match outcome {
            Ok(endpoint) => {
                self.connections.add_old_one(endpoint);
                actions.push(Action::Send(endpoint, Message::RetrievePubAddr(self.connections.self_pub_addr())));
                actions.push(Action::Send(endpoint, Message::RetrievePeerList));
            },
            Err(reason) => {
                let text = match &self.peer {
                    Some(address) => describe_failure(reason.as_str(), address.as_str()),
                    None => describe_failure(reason.as_str(), ""),
                };
                proof {
                    reveal_strlit("");
                    assert(""@ =~= Seq::<char>::empty());
                }
                actions.push(Action::Report(Notice::Failure(Error::NetworkConnectionError(text))));
            },
        }
        assert(views(actions@) =~= seed_actions(old(self).address(), old(self).seed(), outcome));
        actions
    }

    /// Takes the outcome of dialing a peer from a list. A new connection is
    /// registered, and over it the node says who it is. A failure is
    /// reported and changes nothing.
    pub fn peer_dialed(&mut self, outcome: Result<Endpoint, String>) -> (actions: Vec<Action>)
        ensures
            final(self).address() == old(self).address(),
            final(self).period() == old(self).period(),
            final(self).seed() == old(self).seed(),
            final(self).peers() == peers_after_dial(old(self).peers(), outcome),
            views(actions@) == peer_actions(old(self).address(), outcome),
    {
        let mut actions: Vec<Action> = Vec::new();
        match outcome {
            Ok(endpoint) => {
                self.connections.add_old_one(endpoint);
                actions.push(Action::Send(endpoint, Message::RetrievePubAddr(self.connections.self_pub_addr())));
            },
            Err(reason) => {
                actions.push(Action::Report(Notice::Failure(Error::NetworkConnectionError(reason))));
            },
        }
        assert(views(actions@) =~= peer_actions(old(self).address(), outcome));
        actions
    }

    /// Takes an event of the transport and says what to do about it.
    pub fn process_message(&mut self, event: NetEvent) -> (actions: Vec<Action>)
        ensures
            final(self).address() == old(self).address(),
            final(self).period() == old(self).period(),
            final(self).seed() == old(self).seed(),
            final(self).peers() == peers_after(old(self).peers(), event),
            views(actions@) == reaction(old(self).address(), old(self).peers(), event),
    {
        let mut actions: Vec<Action> = Vec::new();
        match event {
            NetEvent::Connected(_, _) => {},
            NetEvent::Message(sender, data) => {
                match Message::deserialize(data.as_slice()) {
                    Ok(Message::RetrievePubAddr(public)) => {
                        self.connections.add_new_one(sender, public);
                    },
                    Ok(Message::RetrievePeerList) => {
                        let list = self.connections.get_peers_list();
                        actions.push(Action::Send(sender, Message::RespondToListQuery(list)));
                    },
                    Ok(Message::RespondToListQuery(list)) => {
                        let known = self.connections.get_peers_list();
                        let targets = select_targets(&list, &known, sender.addr);
                        actions = dial_all(&targets);
                    },
                    Ok(Message::RequestRandomInfo(text)) => {
                        let from = self.connections.get_pub_addr(&sender);
                        actions.push(Action::Report(Notice::Received(from, text)));
                    },
                    Err(error) => {
                        actions.push(Action::Report(Notice::Failure(Error::MalformedMessage(error))));
                    },
                }
            },
            NetEvent::Disconnected(endpoint) => {
                self.connections.drop(endpoint);
            },
        }
        assert(views(actions@) =~= reaction(old(self).address(), old(self).peers(), event));
        actions
    }

    /// One tick of the emitter: nothing for a node without peers; else a
    /// freshly drawn text, announced to the operator and sent to every peer.
    /// Whatever text was drawn, the actions are those of [`emit_to`] for it.
    pub fn emit(&self) -> (actions: Vec<Action>)
        ensures
            self.peers().len() == 0 ==> actions@.len() == 0,
            exists|text: Seq<char>|
                views(actions@) == #[trigger] emission(receivers(self.peers()), text),
    {
        let to = self.connections.fetch_receivers();
        if to.len() == 0 {
            let actions: Vec<Action> = Vec::new();
            assert(views(actions@) =~= emission(receivers(self.peers()), Seq::<char>::empty()));
            return actions;
        }
        let text = generate_random_message();
        let actions = emit_to(&to, &text);
        assert(views(actions@) == emission(receivers(self.peers()), text@));
        actions
    }
}

} // verus!
