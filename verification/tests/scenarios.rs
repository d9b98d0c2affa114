use grapevine::address::{Address, Endpoint};
use grapevine::node::{Action, NetEvent, Node};
use grapevine::node_map::NodeAddr;

/// One end of a connection: the node that holds it and the endpoint under
/// which that node knows it.
#[derive(Clone, Copy, PartialEq, Debug)]
struct End {
    node: usize,
    endpoint: Endpoint,
}

/// Nodes joined by connections in memory. Port 9000 + i is where node i
/// listens; a dialing node is seen under a port of its own for each
/// connection.
struct Network {
    nodes: Vec<Node>,
    links: Vec<(End, End)>,
    inbox: Vec<(usize, NetEvent)>,
    sent: usize,
}

impl Network {
    fn new() -> Network {
        Network { nodes: Vec::new(), links: Vec::new(), inbox: Vec::new(), sent: 0 }
    }

    fn listening(index: usize) -> Address {
        Address::loopback(9000 + index as u16)
    }

    fn start(&mut self, seed: Option<usize>) -> usize {
        let index = self.nodes.len();
        let seed = seed.map(|node| format!("127.0.0.1:{}", 9000 + node));
        let node = Node::new(9000 + index as u32, 5, seed, Ok(Network::listening(index))).unwrap();
        self.nodes.push(node);
        let actions = self.nodes[index].execute();
        self.perform(index, actions);
        self.settle();
        index
    }

    fn connect(&mut self, from: usize, to: usize) -> Endpoint {
        let number = self.links.len();
        let near = Endpoint::new(2 * number, Network::listening(to));
        let far = Endpoint::new(2 * number + 1, Address::loopback(50000 + number as u16));
        self.links.push((End { node: from, endpoint: near }, End { node: to, endpoint: far }));
        self.inbox.push((to, NetEvent::Connected(far, 0)));
        near
    }

    fn other_end(&self, end: End) -> Option<End> {
        for (near, far) in &self.links {
            if *near == end {
                return Some(*far);
            }
            if *far == end {
                return Some(*near);
            }
        }
        None
    }

    fn perform(&mut self, index: usize, actions: Vec<Action>) {
        for action in actions {
            match action {
                Action::Dial(seed) => {
                    let port: usize = seed.rsplit(':').next().unwrap().parse().unwrap();
                    let endpoint = self.connect(index, port - 9000);
                    let next = self.nodes[index].seed_dialed(Ok(endpoint));
                    self.perform(index, next);
                }
                Action::Connect(address) => {
                    let target = (address.port() - 9000) as usize;
                    assert!(target < self.nodes.len());
                    assert_ne!(target, index);
                    let endpoint = self.connect(index, target);
                    let next = self.nodes[index].peer_dialed(Ok(endpoint));
                    self.perform(index, next);
                }
                Action::Send(endpoint, message) => {
                    let to = self.other_end(End { node: index, endpoint }).unwrap();
                    self.inbox.push((to.node, NetEvent::Message(to.endpoint, message.serialize())));
                    self.sent += 1;
                }
                Action::Report(_) => {}
            }
        }
    }

    fn settle(&mut self) {
        while !self.inbox.is_empty() {
            let (index, event) = self.inbox.remove(0);
            let actions = self.nodes[index].process_message(event);
            self.perform(index, actions);
        }
    }

    fn disconnect(&mut self, link: usize) {
        let (near, far) = self.links.remove(link);
        self.inbox.push((near.node, NetEvent::Disconnected(near.endpoint)));
        self.inbox.push((far.node, NetEvent::Disconnected(far.endpoint)));
        self.settle();
    }

    fn tick(&mut self, index: usize) -> usize {
        let before = self.sent;
        let actions = self.nodes[index].emit();
        self.perform(index, actions);
        self.settle();
        self.sent - before
    }

    fn known(&self, index: usize) -> Vec<Address> {
        let mut list = self.nodes[index].connections().get_peers_list();
        list.remove(0);
        list.sort_by_key(|address| address.port());
        list
    }
}

#[test]
fn two_nodes_learn_of_each_other() {
    let mut network = Network::new();
    let x = network.start(None);
    let y = network.start(Some(x));
    let (y_end, x_end) = network.links[0];
    assert_eq!((y_end.node, x_end.node), (y, x));
    // The dialing node knows the seed by the address it dialed.
    assert_eq!(
        network.nodes[y].connections().fetch_receivers(),
        vec![NodeAddr { public: Address::loopback(9000), endpoint: y_end.endpoint }]
    );
    // The seed saw the connection arrive from another port, and knows the
    // dialing node by the address it announced.
    assert_eq!(x_end.endpoint.addr(), Address::loopback(50000));
    assert_eq!(
        network.nodes[x].connections().get_pub_addr(&x_end.endpoint),
        Some(Address::loopback(9001))
    );
    assert_eq!(network.known(x), vec![Address::loopback(9001)]);
    assert_eq!(network.known(y), vec![Address::loopback(9000)]);
    // The list that came back held only the two of them: nobody was dialed.
    assert_eq!(network.links.len(), 1);
}

#[test]
fn three_nodes_form_a_full_mesh() {
    let mut network = Network::new();
    let x = network.start(None);
    let y = network.start(Some(x));
    let z = network.start(Some(x));
    assert_eq!(network.known(x), vec![Address::loopback(9001), Address::loopback(9002)]);
    assert_eq!(network.known(y), vec![Address::loopback(9000), Address::loopback(9002)]);
    assert_eq!(network.known(z), vec![Address::loopback(9000), Address::loopback(9001)]);
    assert_eq!(network.links.len(), 3);
}

#[test]
fn five_nodes_form_a_full_mesh_without_double_connections() {
    let mut network = Network::new();
    let first = network.start(None);
    for _ in 0..4 {
        network.start(Some(first));
    }
    for index in 0..5 {
        let others: Vec<Address> =
            (0..5).filter(|other| *other != index).map(Network::listening).collect();
        assert_eq!(network.known(index), others);
    }
    assert_eq!(network.links.len(), 10);
}

#[test]
fn lone_node_ticks_without_sending() {
    let mut network = Network::new();
    let x = network.start(None);
    assert_eq!(network.nodes[x].emit(), Vec::new());
    assert_eq!(network.tick(x), 0);
    assert!(network.links.is_empty());
}

#[test]
fn gossip_reaches_every_peer_and_changes_no_directory() {
    let mut network = Network::new();
    let x = network.start(None);
    let y = network.start(Some(x));
    let z = network.start(Some(x));
    let before: Vec<Vec<Address>> = vec![network.known(x), network.known(y), network.known(z)];
    assert_eq!(network.tick(x), 2);
    assert_eq!(network.tick(y), 2);
    assert_eq!(network.tick(z), 2);
    assert_eq!(vec![network.known(x), network.known(y), network.known(z)], before);
}

#[test]
fn lost_connection_gets_no_more_gossip() {
    let mut network = Network::new();
    let x = network.start(None);
    let y = network.start(Some(x));
    let z = network.start(Some(x));
    // The first connection is the one from y to x.
    network.disconnect(0);
    assert_eq!(network.known(x), vec![Address::loopback(9002)]);
    assert_eq!(network.known(y), vec![Address::loopback(9002)]);
    assert_eq!(network.known(z), vec![Address::loopback(9000), Address::loopback(9001)]);
    assert_eq!(network.tick(x), 1);
    assert_eq!(network.tick(y), 1);
    assert_eq!(network.tick(z), 2);
}
