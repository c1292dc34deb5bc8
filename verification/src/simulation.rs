//! The simulation: its nodes and the links between their ports, with the
//! rules that decide which requests to change them succeed.
use std::sync::Arc;
use vstd::prelude::*;
use crate::command::{concat2, concat3, write_error_text};
use crate::netdevsim::{LinkView, LinkedDevices, NetdevsimPort, PortView, link_joins};
use crate::node::{tshark_output_spec, NodeView, PTPNode};
use crate::text::{decimal, nth_word, push_decimal, str_eq, trim, trimmed, words};
use crate::topology::{Devlink, NodeConfig, Topology};

verus! {

/// A simulation: PTP nodes, and links between the ports of their devices.
pub struct Simulation {
    nodes: Vec<PTPNode>,
    devlinks: Vec<LinkedDevices>,
}

/// The plain values of a simulation.
pub struct SimulationView {
    pub nodes: Seq<NodeView>,
    pub devlinks: Seq<LinkView>,
}

/// The views of a sequence of nodes.
pub open spec fn nodes_view(nodes: Seq<PTPNode>) -> Seq<NodeView> {
    nodes.map_values(|n: PTPNode| n@)
}

/// The views of a sequence of links.
pub open spec fn links_view(links: Seq<LinkedDevices>) -> Seq<LinkView> {
    links.map_values(|l: LinkedDevices| l@)
}

impl View for Simulation {
    type V = SimulationView;

    closed spec fn view(&self) -> SimulationView {
        SimulationView { nodes: nodes_view(self.nodes@), devlinks: links_view(self.devlinks@) }
    }
}

/// The index of the first node named `name`.
pub open spec fn node_index(nodes: Seq<NodeView>, name: Seq<char>) -> Option<int>
    decreases nodes.len(),
{
    if nodes.len() == 0 {
        None
    } else {
        match node_index(nodes.drop_last(), name) {
            Some(i) => Some(i),
            None => if nodes.last().ns.name == name {
                Some(nodes.len() - 1)
            } else {
                None
            },
        }
    }
}

/// The index of the first link that joins `p1` and `p2`.
pub open spec fn link_index(links: Seq<LinkView>, p1: PortView, p2: PortView) -> Option<int>
    decreases links.len(),
{
    if links.len() == 0 {
        None
    } else {
        match link_index(links.drop_last(), p1, p2) {
            Some(i) => Some(i),
            None => if link_joins(links.last(), p1, p2) {
                Some(links.len() - 1)
            } else {
                None
            },
        }
    }
}

/// No two nodes share a name.
pub open spec fn names_unique(nodes: Seq<NodeView>) -> bool {
    forall|i: int, j: int|
        0 <= i < nodes.len() && 0 <= j < nodes.len() && i != j ==> nodes[i].ns.name
            != nodes[j].ns.name
}

/// No two links join the same two ports.
pub open spec fn links_distinct(links: Seq<LinkView>) -> bool {
    forall|i: int, j: int|
        0 <= i < links.len() && 0 <= j < links.len() && i != j ==> !link_joins(
            links[i],
            links[j].device1,
            links[j].device2,
        )
}

/// What every simulation keeps: distinct node names and no duplicate link.
pub open spec fn simulation_wf(s: SimulationView) -> bool {
    names_unique(s.nodes) && links_distinct(s.devlinks)
}

/// `"Node <name> not found"`.
pub open spec fn node_not_found(name: Seq<char>) -> Seq<char> {
    "Node "@ + name + " not found"@
}

/// `"Port <port> not found on node <name>"`.
pub open spec fn port_not_found(port: nat, name: Seq<char>) -> Seq<char> {
    "Port "@ + decimal(port) + " not found on node "@ + name
}

/// `"<n1>:<p1> and <n2>:<p2>"`, how messages name the two ends of a link.
pub open spec fn link_ends(n1: Seq<char>, p1: nat, n2: Seq<char>, p2: nat) -> Seq<char> {
    n1 + ":"@ + decimal(p1) + " and "@ + n2 + ":"@ + decimal(p2)
}

/// The ports that port `p1` of node `n1` and port `p2` of node `n2` name,
/// or the first lookup that fails.
pub open spec fn link_ports(
    s: SimulationView,
    n1: Seq<char>,
    p1: nat,
    n2: Seq<char>,
    p2: nat,
) -> Result<(PortView, PortView), Seq<char>> {
    match node_index(s.nodes, n1) {
        None => Err(node_not_found(n1)),
        Some(i1) => match node_index(s.nodes, n2) {
            None => Err(node_not_found(n2)),
            Some(i2) => if p1 >= s.nodes[i1].device.ports.len() {
                Err(port_not_found(p1, n1))
            } else if p2 >= s.nodes[i2].device.ports.len() {
                Err(port_not_found(p2, n2))
            } else {
                Ok((s.nodes[i1].device.ports[p1 as int], s.nodes[i2].device.ports[p2 as int]))
            },
        },
    }
}

/// The ports a new link would join, or why the link is refused: a failed
/// lookup, or a link that already joins them.
pub open spec fn new_link_ports(
    s: SimulationView,
    n1: Seq<char>,
    p1: nat,
    n2: Seq<char>,
    p2: nat,
) -> Result<(PortView, PortView), Seq<char>> {
    match link_ports(s, n1, p1, n2, p2) {
        Err(m) => Err(m),
        Ok((d1, d2)) => if link_index(s.devlinks, d1, d2) is Some {
            Err("Link between "@ + link_ends(n1, p1, n2, p2) + " already exists"@)
        } else {
            Ok((d1, d2))
        },
    }
}

/// The simulation after adding the link, given what writing the link
/// request gave; or why it is refused.
pub open spec fn add_link_spec(
    s: SimulationView,
    n1: Seq<char>,
    p1: nat,
    n2: Seq<char>,
    p2: nat,
    written: Result<(), Seq<char>>,
) -> Result<SimulationView, Seq<char>> {
    match new_link_ports(s, n1, p1, n2, p2) {
        Err(m) => Err(m),
        Ok((d1, d2)) => match written {
            Err(e) => Err(write_error_text("/sys/bus/netdevsim/link_device"@, e)),
            Ok(()) => Ok(
                SimulationView {
                    devlinks: s.devlinks.push(LinkView { device1: d1, device2: d2 }),
                    ..s
                },
            ),
        },
    }
}

/// The index of the link to remove, or why there is none.
pub open spec fn remove_link_index(
    s: SimulationView,
    n1: Seq<char>,
    p1: nat,
    n2: Seq<char>,
    p2: nat,
) -> Result<int, Seq<char>> {
    match link_ports(s, n1, p1, n2, p2) {
        Err(m) => Err(m),
        Ok((d1, d2)) => match link_index(s.devlinks, d1, d2) {
            None => Err("Link between "@ + link_ends(n1, p1, n2, p2) + " not found"@),
            Some(i) => Ok(i),
        },
    }
}

/// The total that numbers a new device: each node's port count taken as a
/// `u32`, summed.
pub open spec fn total_ports(nodes: Seq<NodeView>) -> nat
    decreases nodes.len(),
{
    if nodes.len() == 0 {
        0
    } else {
        total_ports(nodes.drop_last()) + (nodes.last().device.ports.len() % 0x1_0000_0000)
    }
}

/// `"Node with name <name> already exists"`.
pub open spec fn node_exists_text(name: Seq<char>) -> Seq<char> {
    "Node with name "@ + name + " already exists"@
}

/// One step of building a simulation from a topology.
pub enum SetupStep {
    /// Add a node named `name` with a device of `num_ports` ports.
    AddNode { name: String, num_ports: u8, ptp4l_args: Vec<String>, tshark: bool },
    /// Link port `port1` of node `dev1` to port `port2` of node `dev2`.
    AddLink { dev1: String, port1: usize, dev2: String, port2: usize },
}

/// The plain values of a setup step.
pub enum SetupStepView {
    AddNode { name: Seq<char>, num_ports: u8, ptp4l_args: Seq<Seq<char>>, tshark: bool },
    AddLink { dev1: Seq<char>, port1: usize, dev2: Seq<char>, port2: usize },
}

impl View for SetupStep {
    type V = SetupStepView;

    open spec fn view(&self) -> SetupStepView {
        match self {
            SetupStep::AddNode { name, num_ports, ptp4l_args, tshark } => SetupStepView::AddNode {
                name: name@,
                num_ports: *num_ports,
                ptp4l_args: ptp4l_args.deep_view(),
                tshark: *tshark,
            },
            SetupStep::AddLink { dev1, port1, dev2, port2 } => SetupStepView::AddLink {
                dev1: dev1@,
                port1: *port1,
                dev2: dev2@,
                port2: *port2,
            },
        }
    }
}

/// The step that adds the node of `c`; its port count taken as a `u8`.
pub open spec fn node_step(c: NodeConfig) -> SetupStepView {
    SetupStepView::AddNode {
        name: c.name@,
        num_ports: (c.num_ports % 256) as u8,
        ptp4l_args: c.ptp4l_args.deep_view(),
        tshark: c.tshark,
    }
}

/// The step that adds the link `l`.
pub open spec fn link_step(l: Devlink) -> SetupStepView {
    SetupStepView::AddLink { dev1: l.dev1@, port1: l.port1, dev2: l.dev2@, port2: l.port2 }
}

/// The steps that build a topology: every node in order, then every link.
pub open spec fn setup_steps(t: Topology) -> Seq<SetupStepView> {
    t.nodes@.map_values(|c: NodeConfig| node_step(c)) + t.devlinks@.map_values(
        |l: Devlink| link_step(l),
    )
}

/// One step of shutting a simulation down.
pub enum TeardownStep {
    /// Part the two ports of this link.
    Unlink(LinkedDevices),
    /// Stop this node's processes and remove its device.
    ShutdownNode(PTPNode),
}

/// The plain values of a teardown step.
pub enum TeardownView {
    Unlink(LinkView),
    ShutdownNode(NodeView),
}

impl View for TeardownStep {
    type V = TeardownView;

    open spec fn view(&self) -> TeardownView {
        match self {
            TeardownStep::Unlink(l) => TeardownView::Unlink(l@),
            TeardownStep::ShutdownNode(n) => TeardownView::ShutdownNode(n@),
        }
    }
}

/// The steps that shut `s` down: every link parted, in order, then every
/// node shut down, in order.
pub open spec fn teardown_spec(s: SimulationView) -> Seq<TeardownView> {
    s.devlinks.map_values(|l: LinkView| TeardownView::Unlink(l)) + s.nodes.map_values(
        |n: NodeView| TeardownView::ShutdownNode(n),
    )
}

/// What a new node needs: the id of its device, and the file its traffic
/// is captured to when it is captured.
pub struct NodePlan {
    pub device_id: u32,
    pub tshark_output: Option<String>,
}

/// The progress of building a simulation from a topology: its steps, how
/// many have succeeded, and the error of the step that failed, if one did.
pub struct TopologySetup {
    steps: Vec<SetupStep>,
    done: usize,
    error: Option<String>,
}

/// The plain values of a setup's progress.
pub struct TopologySetupView {
    pub steps: Seq<SetupStepView>,
    pub done: nat,
    pub error: Option<Seq<char>>,
}

impl View for TopologySetup {
    type V = TopologySetupView;

    closed spec fn view(&self) -> TopologySetupView {
        TopologySetupView {
            steps: self.steps@.map_values(|s: SetupStep| s@),
            done: self.done as nat,
            error: match self.error {
                Some(e) => Some(e@),
                None => None,
            },
        }
    }
}

/// Whether the setup has more to do: no step failed and some are left.
pub open spec fn setup_running(v: TopologySetupView) -> bool {
    v.error is None && v.done < v.steps.len()
}

impl TopologySetup {
    #[verifier::type_invariant]
    spec fn within(&self) -> bool {
        self.done <= self.steps@.len()
    }

    /// The setup of `topology`: its steps, none run yet.
    pub fn new(topology: &Topology) -> (r: TopologySetup)
        ensures
            r@ == (TopologySetupView { steps: setup_steps(*topology), done: 0, error: None }),
    {
        TopologySetup { steps: Simulation::from_topology(topology), done: 0, error: None }
    }

    /// The step to run next: the first that has not run, while none failed.
    pub fn current(&self) -> (r: Option<&SetupStep>)
        ensures
            setup_running(self@) ==> (r matches Some(st) && st@ == self@.steps[self@.done as int]),
            !setup_running(self@) ==> r is None,
    {
        proof {
            use_type_invariant(self);
        }
        if self.error.is_none() && self.done < self.steps.len() {
            Some(&self.steps[self.done])
        } else {
            None
        }
    }

    /// Records what running the current step gave: the setup goes on after
    /// a success and stops at the first failure.
    pub fn record(&mut self, outcome: Result<(), String>)
        requires
            setup_running(old(self)@),
        ensures
            final(self)@.steps == old(self)@.steps,
            outcome is Ok ==> final(self)@.done == old(self)@.done + 1 && final(self)@.error is None,
            outcome matches Err(e) ==> final(self)@.done == old(self)@.done && final(self)@.error
                == Some(e@),
    {
        proof {
            use_type_invariant(&*self);
        }
        match outcome {
            Ok(()) => {
                if self.done < self.steps.len() {
                    self.done = self.done + 1;
                }
            },
            Err(e) => {
                self.error = Some(e);
            },
        }
    }

    /// What building the simulation gave, once no step is left to run: the
    /// error of the step that failed, or success when every step ran.
    pub fn finish(self) -> (r: Result<(), String>)
        requires
            !setup_running(self@),
        ensures
            self@.error matches Some(e) ==> (r matches Err(m) && m@ == e),
            self@.error is None ==> r is Ok && self@.done == self@.steps.len(),
    {
        proof {
            use_type_invariant(&self);
        }
        match self.error {
            Some(e) => Err(e),
            None => Ok(()),
        }
    }
}

fn clone_strings(v: &Vec<String>) -> (r: Vec<String>)
    ensures
        r.deep_view() == v.deep_view(),
{
    let mut r: Vec<String> = Vec::new();
    let mut i: usize = 0;
    while i < v.len()
        invariant
            i <= v@.len(),
            r.deep_view() =~= v.deep_view().take(i as int),
        decreases v@.len() - i,
    {
        let ghost before = r.deep_view();
        r.push(v[i].clone());
        assert(r.deep_view() =~= before.push(v@[i as int]@));
        assert(v.deep_view().take(i + 1) =~= v.deep_view().take(i as int).push(v@[i as int]@));
        i += 1;
    }
    assert(v.deep_view().take(i as int) =~= v.deep_view());
    r
}

impl Simulation {
    #[verifier::type_invariant]
    spec fn well_formed(&self) -> bool {
        simulation_wf(self@)
    }

    /// A simulation with no node and no link.
    pub fn new() -> (r: Simulation)
        ensures
            r@.nodes.len() == 0,
            r@.devlinks.len() == 0,
            simulation_wf(r@),
    {
        let r = Simulation { nodes: Vec::new(), devlinks: Vec::new() };
        assert(r@.nodes =~= Seq::<NodeView>::empty());
        assert(r@.devlinks =~= Seq::<LinkView>::empty());
        r
    }

    /// The position of the node named `name` among the nodes, if there is one.
    pub fn node_position(&self, name: &str) -> (r: Option<usize>)
        ensures
            r matches Some(i) ==> node_index(self@.nodes, name@) == Some(i as int),
            r is None ==> node_index(self@.nodes, name@) is None,
            r matches Some(i) ==> i < self@.nodes.len(),
    {
        let mut i: usize = 0;
        while i < self.nodes.len()
            invariant
                i <= self.nodes@.len(),
                node_index(nodes_view(self.nodes@).take(i as int), name@) is None,
            decreases self.nodes@.len() - i,
        {
            assert(nodes_view(self.nodes@).take(i + 1).drop_last() =~= nodes_view(
                self.nodes@,
            ).take(i as int));
            assert(nodes_view(self.nodes@).take(i + 1).last() == self.nodes@[i as int]@);
            if str_eq(self.nodes[i].name(), name) {
                proof {
                    lemma_node_index_prefix(nodes_view(self.nodes@), name@, i as int);
                }
                return Some(i);
            }
            i += 1;
        }
        assert(nodes_view(self.nodes@).take(i as int) =~= nodes_view(self.nodes@));
        None
    }

    /// The node named `name`, if there is one.
    pub fn get_node(&self, name: &str) -> (r: Option<&PTPNode>)
        ensures
            node_index(self@.nodes, name@) matches Some(i) ==> (r matches Some(n) && n@
                == self@.nodes[i]),
            node_index(self@.nodes, name@) is None ==> r is None,
    {
        match self.node_position(name) {
            Some(i) => Some(&self.nodes[i]),
            None => None,
        }
    }

    fn lookup_port(&self, node_name: &str, port: usize) -> (r: Result<Arc<NetdevsimPort>, String>)
        requires
            node_index(self@.nodes, node_name@) is Some,
        ensures
            ({
                let i = node_index(self@.nodes, node_name@)->0;
                if port < self@.nodes[i].device.ports.len() {
                    r matches Ok(p) && p@ == self@.nodes[i].device.ports[port as int]
                } else {
                    r matches Err(m) && m@ == port_not_found(port as nat, node_name@)
                }
            }),
    {
        let i = self.node_position(node_name).unwrap();
        match self.nodes[i].port(port) {
            Some(p) => Ok(p),
            None => {
                let mut m = String::from_str("Port ");
                push_decimal(&mut m, port as u64);
                m.append(" not found on node ");
                m.append(node_name);
                Err(m)
            },
        }
    }

    fn link_ports_of(&self, node1_name: &str, port1: usize, node2_name: &str, port2: usize) -> (r:
        Result<(Arc<NetdevsimPort>, Arc<NetdevsimPort>), String>)
        ensures
            link_ports(self@, node1_name@, port1 as nat, node2_name@, port2 as nat) matches Ok(
                t,
            ) ==> (r matches Ok(d) && d.0@ == t.0 && d.1@ == t.1),
            link_ports(self@, node1_name@, port1 as nat, node2_name@, port2 as nat) matches Err(
                m,
            ) ==> (r matches Err(e) && e@ == m),
    {
        if self.node_position(node1_name).is_none() {
            return Err(concat3("Node ", node1_name, " not found"));
        }
        if self.node_position(node2_name).is_none() {
            return Err(concat3("Node ", node2_name, " not found"));
        }
        let dev1 = match self.lookup_port(node1_name, port1) {
            Ok(d) => d,
            Err(e) => return Err(e),
        };
        let dev2 = match self.lookup_port(node2_name, port2) {
            Ok(d) => d,
            Err(e) => return Err(e),
        };
        Ok((dev1, dev2))
    }

    fn find_link(&self, dev1: &Arc<NetdevsimPort>, dev2: &Arc<NetdevsimPort>) -> (r: Option<usize>)
        ensures
            r matches Some(i) ==> link_index(self@.devlinks, dev1@, dev2@) == Some(i as int),
            r is None ==> link_index(self@.devlinks, dev1@, dev2@) is None,
            r matches Some(i) ==> i < self@.devlinks.len(),
    {
        let mut i: usize = 0;
        while i < self.devlinks.len()
            invariant
                i <= self.devlinks@.len(),
                link_index(links_view(self.devlinks@).take(i as int), dev1@, dev2@) is None,
            decreases self.devlinks@.len() - i,
        {
            assert(links_view(self.devlinks@).take(i + 1).drop_last() =~= links_view(
                self.devlinks@,
            ).take(i as int));
            assert(links_view(self.devlinks@).take(i + 1).last() == self.devlinks@[i as int]@);
            if self.devlinks[i].matches(dev1, dev2) {
                proof {
                    lemma_link_index_prefix(links_view(self.devlinks@), dev1@, dev2@, i as int);
                }
                return Some(i);
            }
            i += 1;
        }
        assert(links_view(self.devlinks@).take(i as int) =~= links_view(self.devlinks@));
        None
    }

    fn link_message(node1_name: &str, port1: usize, node2_name: &str, port2: usize, tail: &str) -> (r:
        String)
        ensures
            r@ == "Link between "@ + link_ends(node1_name@, port1 as nat, node2_name@, port2 as nat)
                + tail@,
    {
        let mut m = String::from_str("Link between ");
        m.append(node1_name);
        m.append(":");
        push_decimal(&mut m, port1 as u64);
        m.append(" and ");
        m.append(node2_name);
        m.append(":");
        push_decimal(&mut m, port2 as u64);
        m.append(tail);
        assert(m@ =~= "Link between "@ + link_ends(node1_name@, port1 as nat, node2_name@, port2 as nat)
            + tail@);
        m
    }

    /// The two ports that a new link between port `port1` of node
    /// `node1_name` and port `port2` of node `node2_name` would join, or why
    /// such a link is refused.
    pub fn prepare_link(&self, node1_name: &str, port1: usize, node2_name: &str, port2: usize) -> (r:
        Result<(Arc<NetdevsimPort>, Arc<NetdevsimPort>), String>)
        ensures
            new_link_ports(self@, node1_name@, port1 as nat, node2_name@, port2 as nat) matches Ok(
                t,
            ) ==> (r matches Ok(d) && d.0@ == t.0 && d.1@ == t.1),
            new_link_ports(self@, node1_name@, port1 as nat, node2_name@, port2 as nat) matches Err(
                m,
            ) ==> (r matches Err(e) && e@ == m),
    {
        proof {
            reveal_strlit(" already exists");
        }
        let (dev1, dev2) = match self.link_ports_of(node1_name, port1, node2_name, port2) {
            Ok(d) => d,
            Err(e) => return Err(e),
        };
        if self.find_link(&dev1, &dev2).is_some() {
            return Err(Self::link_message(node1_name, port1, node2_name, port2, " already exists"));
        }
        Ok((dev1, dev2))
    }

    /// Links port `port1` of node `node1_name` to port `port2` of node
    /// `node2_name`, given what writing the link request for the ports that
    /// `prepare_link` gives returned.
    pub fn add_link(
        &mut self,
        node1_name: &str,
        port1: usize,
        node2_name: &str,
        port2: usize,
        written: Result<(), String>,
    ) -> (r: Result<(), String>)
        ensures
            ({
                let w = match written {
                    Ok(()) => Ok::<(), Seq<char>>(()),
                    Err(e) => Err::<(), Seq<char>>(e@),
                };
                match add_link_spec(old(self)@, node1_name@, port1 as nat, node2_name@, port2 as nat, w) {
                    Ok(v) => r is Ok && final(self)@ == v,
                    Err(m) => (r matches Err(e) && e@ == m) && final(self)@ == old(self)@,
                }
            }),
            simulation_wf(final(self)@),
    {
        proof {
            use_type_invariant(&*self);
        }
        let (dev1, dev2) = match self.prepare_link(node1_name, port1, node2_name, port2) {
            Ok(d) => d,
            Err(e) => return Err(e),
        };
        let link = match LinkedDevices::link(dev1, dev2, written) {
            Ok(l) => l,
            Err(e) => return Err(e),
        };
        proof {
            lemma_link_index_none(self@.devlinks, link@.device1, link@.device2);
        }
        let ghost before = self@;
        let mut links: Vec<LinkedDevices> = Vec::new();
        std::mem::swap(&mut links, &mut self.devlinks);
        let ghost lv = link@;
        links.push(link);
        proof {
            assert(links_view(links@) =~= before.devlinks.push(lv));
            lemma_push_distinct(before.devlinks, lv);
        }
        self.devlinks = links;
        assert(self@.devlinks =~= before.devlinks.push(link@));
        assert(self@.nodes =~= before.nodes);
        Ok(())
    }

    /// Removes the link between port `port1` of node `node1_name` and port
    /// `port2` of node `node2_name` and gives it back to be parted, or says
    /// why there is no such link.
    pub fn remove_link(&mut self, node1_name: &str, port1: usize, node2_name: &str, port2: usize) -> (r:
        Result<LinkedDevices, String>)
        ensures
            remove_link_index(old(self)@, node1_name@, port1 as nat, node2_name@, port2 as nat) matches Ok(
                i,
            ) ==> (r matches Ok(l) && l@ == old(self)@.devlinks[i] && final(self)@ == (
            SimulationView { devlinks: old(self)@.devlinks.remove(i), ..old(self)@ })),
            remove_link_index(old(self)@, node1_name@, port1 as nat, node2_name@, port2 as nat) matches Err(
                m,
            ) ==> (r matches Err(e) && e@ == m && final(self)@ == old(self)@),
            simulation_wf(final(self)@),
    {
        proof {
            use_type_invariant(&*self);
            reveal_strlit(" not found");
        }
        let (dev1, dev2) = match self.link_ports_of(node1_name, port1, node2_name, port2) {
            Ok(d) => d,
            Err(e) => return Err(e),
        };
        match self.find_link(&dev1, &dev2) {
            None => Err(Self::link_message(node1_name, port1, node2_name, port2, " not found")),
            Some(i) => {
                let ghost before = self@;
                let mut links: Vec<LinkedDevices> = Vec::new();
                std::mem::swap(&mut links, &mut self.devlinks);
                let l = links.remove(i);
                proof {
                    assert(links_view(links@) =~= before.devlinks.remove(i as int));
                    lemma_remove_distinct(before.devlinks, i as int);
                }
                self.devlinks = links;
                assert(self@.devlinks =~= before.devlinks.remove(i as int));
                assert(self@.nodes =~= before.nodes);
                proof {
                    use_type_invariant(&*self);
                }
                Ok(l)
            },
        }
    }

    /// The nodes of the simulation, in the order they were added.
    pub fn nodes(&self) -> (r: &Vec<PTPNode>)
        ensures
            nodes_view(r@) == self@.nodes,
    {
        &self.nodes
    }

    /// The links of the simulation, in the order they were made.
    pub fn devlinks(&self) -> (r: &Vec<LinkedDevices>)
        ensures
            links_view(r@) == self@.devlinks,
    {
        &self.devlinks
    }

    /// `Ok` when no node is named `name`; the refusal of a new node with
    /// that name otherwise.
    pub fn check_node_name(&self, name: &str) -> (r: Result<(), String>)
        ensures
            node_index(self@.nodes, name@) is None ==> r is Ok,
            node_index(self@.nodes, name@) is Some ==> (r matches Err(m) && m@ == node_exists_text(
                name@,
            )),
    {
        if self.node_position(name).is_some() {
            Err(concat3("Node with name ", name, " already exists"))
        } else {
            Ok(())
        }
    }

    /// What adding a node named `name` needs, or its refusal when a node
    /// has that name: the id of its device, one past the total of the
    /// nodes' port counts, and, when its traffic is captured, the capture
    /// file under `output_dir`.
    pub fn prepare_node(&self, name: &str, tshark: bool, output_dir: &str) -> (r: Result<
        NodePlan,
        String,
    >)
        requires
            node_index(self@.nodes, name@) is None ==> total_ports(self@.nodes) < u32::MAX,
        ensures
            node_index(self@.nodes, name@) is Some ==> (r matches Err(m) && m@ == node_exists_text(
                name@,
            )),
            node_index(self@.nodes, name@) is None ==> (r matches Ok(p) && p.device_id
                == total_ports(self@.nodes) + 1 && (tshark ==> (p.tshark_output matches Some(f)
                && f@ == tshark_output_spec(output_dir@, name@))) && (!tshark
                ==> p.tshark_output is None)),
    {
        match self.check_node_name(name) {
            Err(e) => Err(e),
            Ok(()) => {
                let device_id = self.next_device_id();
                let tshark_output = if tshark {
                    Some(PTPNode::tshark_output_file(output_dir, name))
                } else {
                    None
                };
                Ok(NodePlan { device_id, tshark_output })
            },
        }
    }

    /// Adds `node`, unless a node of the same name is there already.
    pub fn add_node(&mut self, node: PTPNode) -> (r: Result<(), String>)
        ensures
            node_index(old(self)@.nodes, node@.ns.name) is None ==> (r is Ok && final(self)@ == (
            SimulationView { nodes: old(self)@.nodes.push(node@), ..old(self)@ })),
            node_index(old(self)@.nodes, node@.ns.name) is Some ==> ((r matches Err(m) && m@
                == node_exists_text(node@.ns.name)) && final(self)@ == old(self)@),
            simulation_wf(final(self)@),
    {
        proof {
            use_type_invariant(&*self);
        }
        match self.check_node_name(node.name()) {
            Err(e) => Err(e),
            Ok(()) => {
                let ghost before = self@;
                let ghost nv = node@;
                proof {
                    lemma_node_index_none(before.nodes, nv.ns.name);
                }
                let mut nodes: Vec<PTPNode> = Vec::new();
                std::mem::swap(&mut nodes, &mut self.nodes);
                nodes.push(node);
                proof {
                    assert(nodes_view(nodes@) =~= before.nodes.push(nv));
                    assert(names_unique(before.nodes.push(nv)));
                }
                self.nodes = nodes;
                assert(self@.devlinks =~= before.devlinks);
                proof {
                    use_type_invariant(&*self);
                }
                Ok(())
            },
        }
    }

    /// The total of the nodes' port counts, if it is at most `u32::MAX`.
    pub fn total_ports(&self) -> (r: Option<u32>)
        ensures
            r matches Some(t) ==> t == total_ports(self@.nodes),
            r is None ==> total_ports(self@.nodes) > u32::MAX,
    {
        let mut acc: u64 = 0;
        let mut i: usize = 0;
        while i < self.nodes.len()
            invariant
                i <= self.nodes@.len(),
                acc == total_ports(nodes_view(self.nodes@).take(i as int)),
                acc <= u32::MAX,
            decreases self.nodes@.len() - i,
        {
            assert(nodes_view(self.nodes@).take(i + 1).drop_last() =~= nodes_view(
                self.nodes@,
            ).take(i as int));
            assert(nodes_view(self.nodes@).take(i + 1).last() == self.nodes@[i as int]@);
            let term: u64 = (self.nodes[i].num_ports() as u64) % 4294967296;
            acc = acc + term;
            if acc > 4294967295 {
                proof {
                    lemma_total_ports_prefix(nodes_view(self.nodes@), i + 1);
                }
                return None;
            }
            i += 1;
        }
        assert(nodes_view(self.nodes@).take(i as int) =~= nodes_view(self.nodes@));
        Some(acc as u32)
    }

    /// The id of the netdevsim device of the next node: one past the total
    /// of the nodes' port counts.
    pub fn next_device_id(&self) -> (r: u32)
        requires
            total_ports(self@.nodes) < u32::MAX,
        ensures
            r == total_ports(self@.nodes) + 1,
    {
        let t = self.total_ports().unwrap();
        t + 1
    }

    /// Records the delay set on port `port_index` of node `node_name`, and
    /// gives the port that the delay is to be written to; `None` when there
    /// is no such node.
    pub fn set_node_delay(&mut self, node_name: &str, port_index: u8, delay_sec: u32, delay_nsec: u32) -> (r:
        Option<Result<Arc<NetdevsimPort>, String>>)
        requires
            node_index(old(self)@.nodes, node_name@) matches Some(i) ==> (port_index as int) < old(
                self,
            )@.nodes[i].set_delays.len(),
        ensures
            node_index(old(self)@.nodes, node_name@) is None ==> (r is None && final(self)@ == old(
                self,
            )@),
            node_index(old(self)@.nodes, node_name@) matches Some(i) ==> ({
                let n = old(self)@.nodes[i];
                &&& final(self)@ == (SimulationView {
                    nodes: old(self)@.nodes.update(
                        i,
                        NodeView {
                            set_delays: n.set_delays.update(
                                port_index as int,
                                (delay_sec, delay_nsec),
                            ),
                            ..n
                        },
                    ),
                    ..old(self)@
                })
                &&& (port_index as int) < n.device.ports.len() ==> (r matches Some(Ok(p)) && p@
                    == n.device.ports[port_index as int])
                &&& (port_index as int) >= n.device.ports.len() ==> (r matches Some(Err(m)) && m@
                    == "Port index "@ + decimal(port_index as nat) + " out of range for node "@
                    + n.ns.name)
            }),
    {
        proof {
            use_type_invariant(&*self);
        }
        match self.node_position(node_name) {
            None => None,
            Some(i) => {
                let ghost before = self@;
                let mut nodes: Vec<PTPNode> = Vec::new();
                std::mem::swap(&mut nodes, &mut self.nodes);
                let mut node = nodes.remove(i);
                let r = node.set_delay(port_index, delay_sec, delay_nsec);
                let ghost nv = node@;
                nodes.insert(i, node);
                proof {
                    assert(nodes_view(nodes@) =~= before.nodes.update(i as int, nv));
                    assert(names_unique(before.nodes.update(i as int, nv)));
                }
                self.nodes = nodes;
                assert(self@.devlinks =~= before.devlinks);
                Some(r)
            },
        }
    }

    /// The steps that build a simulation from `topology`: each node in
    /// order, its port count taken as a `u8`, then each link in order.
    pub fn from_topology(topology: &Topology) -> (r: Vec<SetupStep>)
        ensures
            r@.map_values(|s: SetupStep| s@) == setup_steps(*topology),
    {
        let mut r: Vec<SetupStep> = Vec::new();
        let mut i: usize = 0;
        let ghost ns = topology.nodes@.map_values(|c: NodeConfig| node_step(c));
        let ghost ls = topology.devlinks@.map_values(|l: Devlink| link_step(l));
        while i < topology.nodes.len()
            invariant
                i <= topology.nodes@.len(),
                ns == topology.nodes@.map_values(|c: NodeConfig| node_step(c)),
                r@.map_values(|s: SetupStep| s@) =~= ns.take(i as int),
            decreases topology.nodes@.len() - i,
        {
            let c = &topology.nodes[i];
            let step = SetupStep::AddNode {
                name: c.name.clone(),
                num_ports: (c.num_ports % 256) as u8,
                ptp4l_args: clone_strings(&c.ptp4l_args),
                tshark: c.tshark,
            };
            assert(step@ == node_step(*c));
            r.push(step);
            assert(ns.take(i + 1) =~= ns.take(i as int).push(node_step(topology.nodes@[i as int])));
            i += 1;
        }
        assert(ns.take(i as int) =~= ns);
        let mut k: usize = 0;
        while k < topology.devlinks.len()
            invariant
                k <= topology.devlinks@.len(),
                ls == topology.devlinks@.map_values(|l: Devlink| link_step(l)),
                r@.map_values(|s: SetupStep| s@) =~= ns + ls.take(k as int),
            decreases topology.devlinks@.len() - k,
        {
            let l = &topology.devlinks[k];
            let step = SetupStep::AddLink {
                dev1: l.dev1.clone(),
                port1: l.port1,
                dev2: l.dev2.clone(),
                port2: l.port2,
            };
            assert(step@ == link_step(*l));
            let ghost before = r@.map_values(|s: SetupStep| s@);
            r.push(step);
            assert(r@.map_values(|s: SetupStep| s@) =~= before.push(link_step(*l)));
            assert(ls.take(k + 1) =~= ls.take(k as int).push(link_step(topology.devlinks@[k as int])));
            assert(ns + ls.take(k + 1) =~= (ns + ls.take(k as int)).push(link_step(*l)));
            k += 1;
        }
        assert(ls.take(k as int) =~= ls);
        r
    }

    /// Takes the simulation apart for shutting it down: every link is to be
    /// parted, in the order the links were made, before any node is shut
    /// down, in the order the nodes were added.
    pub fn shutdown(self) -> (r: Vec<TeardownStep>)
        ensures
            r@.map_values(|t: TeardownStep| t@) == teardown_spec(self@),
    {
        let ghost sv = self@;
        let Simulation { mut nodes, mut devlinks } = self;
        let ghost ls = sv.devlinks.map_values(|l: LinkView| TeardownView::Unlink(l));
        let ghost ns = sv.nodes.map_values(|n: NodeView| TeardownView::ShutdownNode(n));
        let mut r: Vec<TeardownStep> = Vec::new();
        let ghost total = devlinks@.len();
        assert(links_view(devlinks@) == sv.devlinks);
        while devlinks.len() > 0
            invariant
                links_view(devlinks@) == sv.devlinks.skip(total - devlinks@.len()),
                total == sv.devlinks.len(),
                devlinks@.len() <= total,
                ls == sv.devlinks.map_values(|l: LinkView| TeardownView::Unlink(l)),
                r@.map_values(|t: TeardownStep| t@) =~= ls.take(total - devlinks@.len()),
            decreases devlinks@.len(),
        {
            let ghost k = total - devlinks@.len();
            let ghost before = r@.map_values(|t: TeardownStep| t@);
            let ghost old_links = devlinks@;
            assert(links_view(old_links)[0] == old_links[0]@);
            assert(sv.devlinks.skip(k)[0] == sv.devlinks[k]);
            let l = devlinks.remove(0);
            assert(devlinks@ =~= old_links.skip(1));
            assert(links_view(old_links.skip(1)) =~= links_view(old_links).skip(1));
            assert(sv.devlinks.skip(k).skip(1) =~= sv.devlinks.skip(k + 1));
            assert(l@ == sv.devlinks[k]);
            r.push(TeardownStep::Unlink(l));
            assert(r@.map_values(|t: TeardownStep| t@) =~= before.push(TeardownView::Unlink(sv.devlinks[k])));
            assert(ls.take(k + 1) =~= ls.take(k).push(TeardownView::Unlink(sv.devlinks[k])));
            assert(links_view(devlinks@) =~= sv.devlinks.skip(k + 1));
        }
        assert(ls.take(total as int) =~= ls);
        let ghost ntotal = nodes@.len();
        assert(nodes_view(nodes@) == sv.nodes);
        assert(sv.nodes.skip(0) =~= sv.nodes);
        assert(ns.take(0) =~= Seq::<TeardownView>::empty());
        assert(ls + ns.take(0) =~= ls);
        while nodes.len() > 0
            invariant
                nodes_view(nodes@) == sv.nodes.skip(ntotal - nodes@.len()),
                ntotal == sv.nodes.len(),
                nodes@.len() <= ntotal,
                ns == sv.nodes.map_values(|n: NodeView| TeardownView::ShutdownNode(n)),
                r@.map_values(|t: TeardownStep| t@) =~= ls + ns.take(ntotal - nodes@.len()),
            decreases nodes@.len(),
        {
            let ghost k = ntotal - nodes@.len();
            let ghost before = r@.map_values(|t: TeardownStep| t@);
            let ghost old_nodes = nodes@;
            assert(nodes_view(old_nodes)[0] == old_nodes[0]@);
            assert(sv.nodes.skip(k)[0] == sv.nodes[k]);
            let n = nodes.remove(0);
            assert(nodes@ =~= old_nodes.skip(1));
            assert(nodes_view(old_nodes.skip(1)) =~= nodes_view(old_nodes).skip(1));
            assert(sv.nodes.skip(k).skip(1) =~= sv.nodes.skip(k + 1));
            assert(n@ == sv.nodes[k]);
            r.push(TeardownStep::ShutdownNode(n));
            assert(r@.map_values(|t: TeardownStep| t@) =~= before.push(TeardownView::ShutdownNode(sv.nodes[k])));
            assert(ns.take(k + 1) =~= ns.take(k).push(TeardownView::ShutdownNode(sv.nodes[k])));
            assert(ls + ns.take(k + 1) =~= (ls + ns.take(k)).push(TeardownView::ShutdownNode(sv.nodes[k])));
            assert(nodes_view(nodes@) =~= sv.nodes.skip(k + 1));
        }
        assert(ns.take(ntotal as int) =~= ns);
        r
    }
}

/// A first match found at `i`, with none before it, is the first index.
proof fn lemma_node_index_prefix(nodes: Seq<NodeView>, name: Seq<char>, i: int)
    requires
        0 <= i < nodes.len(),
        node_index(nodes.take(i), name) is None,
        nodes[i].ns.name == name,
    ensures
        node_index(nodes, name) == Some(i),
    decreases nodes.len(),
{
    if i < nodes.len() - 1 {
        assert(nodes.drop_last().take(i) =~= nodes.take(i));
        lemma_node_index_prefix(nodes.drop_last(), name, i);
    } else {
        assert(nodes.drop_last() =~= nodes.take(i));
    }
}

/// A first link found at `i`, with none before it, is the first index.
proof fn lemma_link_index_prefix(links: Seq<LinkView>, p1: PortView, p2: PortView, i: int)
    requires
        0 <= i < links.len(),
        link_index(links.take(i), p1, p2) is None,
        link_joins(links[i], p1, p2),
    ensures
        link_index(links, p1, p2) == Some(i),
    decreases links.len(),
{
    if i < links.len() - 1 {
        assert(links.drop_last().take(i) =~= links.take(i));
        lemma_link_index_prefix(links.drop_last(), p1, p2, i);
    } else {
        assert(links.drop_last() =~= links.take(i));
    }
}

/// No link joins two ports that `link_index` finds no link for.
proof fn lemma_link_index_none(links: Seq<LinkView>, p1: PortView, p2: PortView)
    requires
        link_index(links, p1, p2) is None,
    ensures
        forall|i: int| 0 <= i < links.len() ==> !link_joins(#[trigger] links[i], p1, p2),
    decreases links.len(),
{
    if links.len() > 0 {
        lemma_link_index_none(links.drop_last(), p1, p2);
        assert forall|i: int| 0 <= i < links.len() implies !link_joins(#[trigger] links[i], p1, p2) by {
            if i < links.len() - 1 {
                assert(links.drop_last()[i] == links[i]);
            }
        }
    }
}

/// Adding a link that joins no two ports already joined keeps links unique.
proof fn lemma_push_distinct(links: Seq<LinkView>, l: LinkView)
    requires
        links_distinct(links),
        forall|i: int| 0 <= i < links.len() ==> !link_joins(#[trigger] links[i], l.device1, l.device2),
    ensures
        links_distinct(links.push(l)),
{
    let n = links.push(l);
    assert forall|i: int, j: int|
        0 <= i < n.len() && 0 <= j < n.len() && i != j implies !link_joins(
        n[i],
        n[j].device1,
        n[j].device2,
    ) by {
        if i == links.len() {
            assert(!link_joins(links[j], l.device1, l.device2));
        } else if j == links.len() {
            assert(!link_joins(links[i], l.device1, l.device2));
        } else {
            assert(!link_joins(links[i], links[j].device1, links[j].device2));
        }
    }
}

/// Removing a link keeps links unique.
proof fn lemma_remove_distinct(links: Seq<LinkView>, k: int)
    requires
        links_distinct(links),
        0 <= k < links.len(),
    ensures
        links_distinct(links.remove(k)),
{
    let n = links.remove(k);
    assert forall|i: int, j: int|
        0 <= i < n.len() && 0 <= j < n.len() && i != j implies !link_joins(
        n[i],
        n[j].device1,
        n[j].device2,
    ) by {
        let a = if i < k { i } else { i + 1 };
        let b = if j < k { j } else { j + 1 };
        assert(n[i] == links[a]);
        assert(n[j] == links[b]);
        assert(!link_joins(links[a], links[b].device1, links[b].device2));
    }
}

/// No node has a name that `node_index` finds no node for.
proof fn lemma_node_index_none(nodes: Seq<NodeView>, name: Seq<char>)
    requires
        node_index(nodes, name) is None,
    ensures
        forall|i: int| 0 <= i < nodes.len() ==> (#[trigger] nodes[i]).ns.name != name,
    decreases nodes.len(),
{
    if nodes.len() > 0 {
        lemma_node_index_none(nodes.drop_last(), name);
        assert forall|i: int| 0 <= i < nodes.len() implies (#[trigger] nodes[i]).ns.name != name by {
            if i < nodes.len() - 1 {
                assert(nodes.drop_last()[i] == nodes[i]);
            }
        }
    }
}

/// The total of a prefix never exceeds the total.
proof fn lemma_total_ports_prefix(nodes: Seq<NodeView>, k: int)
    requires
        0 <= k <= nodes.len(),
    ensures
        total_ports(nodes.take(k)) <= total_ports(nodes),
    decreases nodes.len(),
{
    if k < nodes.len() {
        assert(nodes.drop_last().take(k) =~= nodes.take(k));
        lemma_total_ports_prefix(nodes.drop_last(), k);
    } else {
        assert(nodes.take(k) =~= nodes);
    }
}

/// `"/dev/ptp<index>"`, the device of a PTP hardware clock.
pub open spec fn phc_device_spec(phc_index: u32) -> Seq<char> {
    "/dev/ptp"@ + decimal(phc_index as nat)
}

/// The arguments of `phc_ctl` that read the clock `phc_index`.
pub fn phc_ctl_args(phc_index: u32) -> (r: Vec<String>)
    ensures
        r.deep_view() == seq![phc_device_spec(phc_index), "get"@],
{
    let mut dev = String::from_str("/dev/ptp");
    push_decimal(&mut dev, phc_index as u64);
    let r = vec![dev, String::from_str("get")];
    assert(r.deep_view() =~= seq![phc_device_spec(phc_index), "get"@]);
    r
}

/// The clock time that `phc_ctl ... get` printed: the fifth word of its
/// trimmed output; or why there is none.
pub fn phc_time_field(run: Result<String, String>) -> (r: Result<String, String>)
    ensures
        run matches Err(e) ==> (r matches Err(m) && m@ == "Failed to run phc_ctl: "@ + e@),
        run matches Ok(out) ==> (if words(trim(out@)).len() > 4 {
            r matches Ok(w) && w@ == words(trim(out@))[4]
        } else {
            r matches Err(m) && m@ == "Failed to parse phc_ctl output"@
        }),
{
    match run {
        Err(e) => Err(concat2("Failed to run phc_ctl: ", e.as_str())),
        Ok(out) => {
            let t = trimmed(out.as_str());
            match nth_word(t.as_str(), 4) {
                Some(w) => Ok(w),
                None => Err(String::from_str("Failed to parse phc_ctl output")),
            }
        },
    }
}

/// A link joins two ports in either order: asking for the ends swapped
/// asks for the same link.
pub proof fn lemma_link_joins_symmetric(l: LinkView, p1: PortView, p2: PortView)
    ensures
        link_joins(l, p1, p2) == link_joins(l, p2, p1),
{
}

proof fn lemma_link_index_last(links: Seq<LinkView>, p1: PortView, p2: PortView)
    requires
        links.len() > 0,
        link_index(links.drop_last(), p1, p2) is None,
        link_joins(links.last(), p1, p2),
    ensures
        link_index(links, p1, p2) == Some(links.len() - 1),
{
}

proof fn lemma_link_index_swap(links: Seq<LinkView>, p1: PortView, p2: PortView)
    ensures
        link_index(links, p1, p2) == link_index(links, p2, p1),
    decreases links.len(),
{
    if links.len() > 0 {
        lemma_link_index_swap(links.drop_last(), p1, p2);
    }
}

/// Once a link is added, asking to add it again, with its ends in either
/// order, is refused: the link already exists.
pub proof fn lemma_added_link_refused_again(
    s: SimulationView,
    n1: Seq<char>,
    p1: nat,
    n2: Seq<char>,
    p2: nat,
)
    requires
        add_link_spec(s, n1, p1, n2, p2, Ok(())) is Ok,
    ensures
        ({
            let t = add_link_spec(s, n1, p1, n2, p2, Ok(()))->Ok_0;
            &&& new_link_ports(t, n1, p1, n2, p2) == Err::<(PortView, PortView), Seq<char>>(
                "Link between "@ + link_ends(n1, p1, n2, p2) + " already exists"@,
            )
            &&& node_index(t.nodes, n1) is Some && node_index(t.nodes, n2) is Some
                ==> new_link_ports(t, n2, p2, n1, p1) == Err::<(PortView, PortView), Seq<char>>(
                "Link between "@ + link_ends(n2, p2, n1, p1) + " already exists"@,
            )
        }),
{
    let t = add_link_spec(s, n1, p1, n2, p2, Ok(()))->Ok_0;
    let (d1, d2) = new_link_ports(s, n1, p1, n2, p2)->Ok_0;
    assert(t.devlinks.drop_last() =~= s.devlinks);
    lemma_link_index_last(t.devlinks, d1, d2);
    lemma_link_index_swap(t.devlinks, d1, d2);
}

/// Adding a link and then removing it, with its ends in either order,
/// removes the link just added and leaves the links as they were.
pub proof fn lemma_add_then_remove_link(
    s: SimulationView,
    n1: Seq<char>,
    p1: nat,
    n2: Seq<char>,
    p2: nat,
)
    requires
        add_link_spec(s, n1, p1, n2, p2, Ok(())) is Ok,
    ensures
        ({
            let t = add_link_spec(s, n1, p1, n2, p2, Ok(()))->Ok_0;
            &&& remove_link_index(t, n1, p1, n2, p2) == Ok::<int, Seq<char>>(s.devlinks.len() as int)
            &&& t.devlinks.remove(s.devlinks.len() as int) == s.devlinks
            &&& t.nodes == s.nodes
        }),
{
    let t = add_link_spec(s, n1, p1, n2, p2, Ok(()))->Ok_0;
    let (d1, d2) = new_link_ports(s, n1, p1, n2, p2)->Ok_0;
    assert(t.devlinks.drop_last() =~= s.devlinks);
    lemma_link_index_last(t.devlinks, d1, d2);
    assert(t.devlinks.remove(s.devlinks.len() as int) =~= s.devlinks);
}

/// Removing a link that was just added with its ends swapped removes it too.
pub proof fn lemma_add_then_remove_link_swapped(
    s: SimulationView,
    n1: Seq<char>,
    p1: nat,
    n2: Seq<char>,
    p2: nat,
)
    requires
        add_link_spec(s, n1, p1, n2, p2, Ok(())) is Ok,
    ensures
        ({
            let t = add_link_spec(s, n1, p1, n2, p2, Ok(()))->Ok_0;
            remove_link_index(t, n2, p2, n1, p1) == Ok::<int, Seq<char>>(s.devlinks.len() as int)
        }),
{
    let t = add_link_spec(s, n1, p1, n2, p2, Ok(()))->Ok_0;
    let (d1, d2) = new_link_ports(s, n1, p1, n2, p2)->Ok_0;
    assert(t.devlinks.drop_last() =~= s.devlinks);
    lemma_link_index_last(t.devlinks, d1, d2);
    lemma_link_index_swap(t.devlinks, d1, d2);
}

/// Adding a link keeps what every simulation keeps: distinct node names
/// and no two links joining the same ports.
pub proof fn lemma_add_link_keeps_wf(
    s: SimulationView,
    n1: Seq<char>,
    p1: nat,
    n2: Seq<char>,
    p2: nat,
    written: Result<(), Seq<char>>,
)
    requires
        simulation_wf(s),
    ensures
        add_link_spec(s, n1, p1, n2, p2, written) matches Ok(t) ==> simulation_wf(t),
{
    if add_link_spec(s, n1, p1, n2, p2, written) is Ok {
        let (d1, d2) = new_link_ports(s, n1, p1, n2, p2)->Ok_0;
        lemma_link_index_none(s.devlinks, d1, d2);
        lemma_push_distinct(s.devlinks, LinkView { device1: d1, device2: d2 });
    }
}

/// Removing a link keeps what every simulation keeps.
pub proof fn lemma_remove_link_keeps_wf(
    s: SimulationView,
    n1: Seq<char>,
    p1: nat,
    n2: Seq<char>,
    p2: nat,
)
    requires
        simulation_wf(s),
    ensures
        remove_link_index(s, n1, p1, n2, p2) matches Ok(i) ==> simulation_wf(
            SimulationView { devlinks: s.devlinks.remove(i), ..s },
        ),
{
    if remove_link_index(s, n1, p1, n2, p2) is Ok {
        let i = remove_link_index(s, n1, p1, n2, p2)->Ok_0;
        let (d1, d2) = link_ports(s, n1, p1, n2, p2)->Ok_0;
        lemma_link_index_bounds(s.devlinks, d1, d2);
        lemma_remove_distinct(s.devlinks, i);
    }
}

proof fn lemma_link_index_bounds(links: Seq<LinkView>, p1: PortView, p2: PortView)
    ensures
        link_index(links, p1, p2) matches Some(i) ==> 0 <= i < links.len() && link_joins(
            links[i],
            p1,
            p2,
        ),
    decreases links.len(),
{
    if links.len() > 0 {
        lemma_link_index_bounds(links.drop_last(), p1, p2);
    }
}

/// A node added under a new name is the one found by that name, and adding
/// it keeps node names distinct.
pub proof fn lemma_added_node_found(s: SimulationView, n: NodeView)
    requires
        simulation_wf(s),
        node_index(s.nodes, n.ns.name) is None,
    ensures
        node_index(s.nodes.push(n), n.ns.name) == Some(s.nodes.len() as int),
        simulation_wf(SimulationView { nodes: s.nodes.push(n), ..s }),
{
    assert(s.nodes.push(n).drop_last() =~= s.nodes);
    lemma_node_index_none(s.nodes, n.ns.name);
    assert(names_unique(s.nodes.push(n)));
}

/// Once a node is added, adding another of the same name is refused.
pub proof fn lemma_added_node_refused_again(s: SimulationView, n: NodeView, m: NodeView)
    requires
        node_index(s.nodes, n.ns.name) is None,
        m.ns.name == n.ns.name,
    ensures
        node_index(s.nodes.push(n), m.ns.name) is Some,
{
    assert(s.nodes.push(n).drop_last() =~= s.nodes);
}

/// Looking a node up by name is exact: the node found has that very name
/// and no earlier node has it, and no node is found only when no node has it.
pub proof fn lemma_node_index_exact(nodes: Seq<NodeView>, name: Seq<char>)
    ensures
        node_index(nodes, name) matches Some(i) ==> {
            &&& 0 <= i < nodes.len()
            &&& nodes[i].ns.name == name
            &&& forall|j: int| 0 <= j < i ==> (#[trigger] nodes[j]).ns.name != name
        },
        node_index(nodes, name) is None <==> forall|i: int|
            0 <= i < nodes.len() ==> (#[trigger] nodes[i]).ns.name != name,
    decreases nodes.len(),
{
    if nodes.len() > 0 {
        let d = nodes.drop_last();
        lemma_node_index_exact(d, name);
        assert forall|i: int| 0 <= i < d.len() implies #[trigger] d[i] == nodes[i] by {}
        if node_index(d, name) is None {
            assert forall|j: int| 0 <= j < d.len() implies (#[trigger] nodes[j]).ns.name != name by {
                assert(d[j] == nodes[j]);
            }
            if nodes.last().ns.name != name {
                assert forall|i: int| 0 <= i < nodes.len() implies (#[trigger] nodes[i]).ns.name
                    != name by {
                    if i < d.len() {
                        assert(d[i] == nodes[i]);
                    }
                }
            }
        } else {
            let i = node_index(d, name)->0;
            assert(d[i] == nodes[i]);
            assert(nodes[i].ns.name == name);
            assert forall|j: int| 0 <= j < i implies (#[trigger] nodes[j]).ns.name != name by {
                assert(d[j] == nodes[j]);
            }
        }
    }
}

/// In a simulation, the node named `name` is the one at the position of a
/// node that bears that name.
pub proof fn lemma_node_index_of_named(s: SimulationView, name: Seq<char>, i: int)
    requires
        simulation_wf(s),
        0 <= i < s.nodes.len(),
        s.nodes[i].ns.name == name,
    ensures
        node_index(s.nodes, name) == Some(i),
{
    lemma_node_index_exact(s.nodes, name);
    if node_index(s.nodes, name) is None {
        assert(s.nodes[i].ns.name != name);
    } else {
        let k = node_index(s.nodes, name)->0;
        if k != i {
            assert(s.nodes[k].ns.name != s.nodes[i].ns.name);
        }
    }
}

/// Linking port `p1` of the node named `n1` to port `p2` of the node named
/// `n2` succeeds, and appends a link between exactly those two ports,
/// whenever both nodes exist, each port index is below its own node's port
/// count, and no link joins those two ports yet.
pub proof fn lemma_add_link_succeeds(
    s: SimulationView,
    n1: Seq<char>,
    p1: nat,
    n2: Seq<char>,
    p2: nat,
    i1: int,
    i2: int,
)
    requires
        simulation_wf(s),
        0 <= i1 < s.nodes.len(),
        0 <= i2 < s.nodes.len(),
        s.nodes[i1].ns.name == n1,
        s.nodes[i2].ns.name == n2,
        p1 < s.nodes[i1].device.ports.len(),
        p2 < s.nodes[i2].device.ports.len(),
        forall|k: int|
            0 <= k < s.devlinks.len() ==> !((#[trigger] s.devlinks[k]).device1.port_id
                == s.nodes[i1].device.ports[p1 as int].port_id && s.devlinks[k].device2.port_id
                == s.nodes[i2].device.ports[p2 as int].port_id) && !(s.devlinks[k].device1.port_id
                == s.nodes[i2].device.ports[p2 as int].port_id && s.devlinks[k].device2.port_id
                == s.nodes[i1].device.ports[p1 as int].port_id),
    ensures
        add_link_spec(s, n1, p1, n2, p2, Ok(())) == Ok::<SimulationView, Seq<char>>(
            SimulationView {
                devlinks: s.devlinks.push(
                    LinkView {
                        device1: s.nodes[i1].device.ports[p1 as int],
                        device2: s.nodes[i2].device.ports[p2 as int],
                    },
                ),
                ..s
            },
        ),
{
    lemma_node_index_of_named(s, n1, i1);
    lemma_node_index_of_named(s, n2, i2);
    let d1 = s.nodes[i1].device.ports[p1 as int];
    let d2 = s.nodes[i2].device.ports[p2 as int];
    lemma_link_index_bounds(s.devlinks, d1, d2);
    if link_index(s.devlinks, d1, d2) is Some {
        let k = link_index(s.devlinks, d1, d2)->0;
        assert(!link_joins(s.devlinks[k], d1, d2));
    }
}

/// Building from a topology adds every node in order, each with its own
/// configuration (its port count taken as a `u8`), and then makes every link
/// in order, as configured.
pub proof fn lemma_setup_steps_follow_topology(t: Topology)
    ensures
        setup_steps(t).len() == t.nodes@.len() + t.devlinks@.len(),
        forall|i: int|
            0 <= i < t.nodes@.len() ==> #[trigger] setup_steps(t)[i] == (SetupStepView::AddNode {
                name: t.nodes@[i].name@,
                num_ports: (t.nodes@[i].num_ports % 256) as u8,
                ptp4l_args: t.nodes@[i].ptp4l_args.deep_view(),
                tshark: t.nodes@[i].tshark,
            }),
        forall|j: int|
            0 <= j < t.devlinks@.len() ==> #[trigger] setup_steps(t)[t.nodes@.len() + j] == (
            SetupStepView::AddLink {
                dev1: t.devlinks@[j].dev1@,
                port1: t.devlinks@[j].port1,
                dev2: t.devlinks@[j].dev2@,
                port2: t.devlinks@[j].port2,
            }),
{
    let ns = t.nodes@.map_values(|c: NodeConfig| node_step(c));
    let ls = t.devlinks@.map_values(|l: Devlink| link_step(l));
    assert forall|i: int| 0 <= i < t.nodes@.len() implies #[trigger] setup_steps(t)[i] == (
    SetupStepView::AddNode {
        name: t.nodes@[i].name@,
        num_ports: (t.nodes@[i].num_ports % 256) as u8,
        ptp4l_args: t.nodes@[i].ptp4l_args.deep_view(),
        tshark: t.nodes@[i].tshark,
    }) by {
        assert((ns + ls)[i] == ns[i]);
    }
    assert forall|j: int| 0 <= j < t.devlinks@.len() implies #[trigger] setup_steps(t)[t.nodes@.len()
        + j] == (SetupStepView::AddLink {
        dev1: t.devlinks@[j].dev1@,
        port1: t.devlinks@[j].port1,
        dev2: t.devlinks@[j].dev2@,
        port2: t.devlinks@[j].port2,
    }) by {
        assert((ns + ls)[t.nodes@.len() + j] == ls[j]);
    }
}

} // verus!
