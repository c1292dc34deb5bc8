//! The topology that a simulation is built from: its nodes and the links
//! between their ports.
use vstd::prelude::*;

verus! {

/// A node of the topology: its name, how many ports its device has,
/// whether its traffic is captured, and the extra arguments of its ptp4l.
#[derive(Debug, Clone)]
pub struct NodeConfig {
    pub name: String,
    pub num_ports: usize,
    pub tshark: bool,
    pub ptp4l_args: Vec<String>,
}

/// A link of the topology, from port `port1` of node `dev1` to port
/// `port2` of node `dev2`.
#[derive(Debug, Clone)]
pub struct Devlink {
    pub dev1: String,
    pub port1: usize,
    pub dev2: String,
    pub port2: usize,
}

/// The nodes and the links of a simulation.
#[derive(Debug, Clone)]
pub struct Topology {
    pub nodes: Vec<NodeConfig>,
    pub devlinks: Vec<Devlink>,
}

} // verus!
