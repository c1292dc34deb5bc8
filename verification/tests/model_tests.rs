use std::sync::Arc;

use ptpsim::api::{delay_response, link_response, unlink_response};
use ptpsim::command::{require_ran, CommandOutcome};
use ptpsim::netdevsim::{phc_index_of, LinkedDevices, NetdevsimDevice, NetdevsimPort};
use ptpsim::netns::NetNamespace;
use ptpsim::node::{parse_ptp4l_line, report_from_captures, PTPNode, StartupAction};
use ptpsim::sim_logger::events_log_file;
use ptpsim::simulation::{phc_ctl_args, phc_time_field, SetupStep, Simulation, TeardownStep, TopologySetup};
use ptpsim::topology::{Devlink, NodeConfig, Topology};

fn namespace(fd: i32, name: &str) -> Arc<NetNamespace> {
    Arc::new(NetNamespace { file_descriptor: fd, name: name.to_string() })
}

fn device(ns: &Arc<NetNamespace>, id: u32, phc: u32, ports: u32) -> Arc<NetdevsimDevice> {
    let mut v = Vec::new();
    for i in 0..ports {
        v.push(Arc::new(NetdevsimPort {
            namespace: ns.clone(),
            ifindex: 10 + i,
            name: format!("eni{}np{}", id, i + 1),
            port_id: (id as u64) * 100 + i as u64,
        }));
    }
    Arc::new(NetdevsimDevice { ident: id, phc_index: phc, ports: v, namespace: ns.clone() })
}

fn node(fd: i32, name: &str, id: u32, ports: u8) -> PTPNode {
    let ns = namespace(fd, name);
    let dev = device(&ns, id, id, ports as u32);
    PTPNode::new(ns, dev, ports, "logs")
}

fn exited(success: bool, status: &str, stdout: &str) -> CommandOutcome {
    CommandOutcome::Exited {
        success,
        status: status.to_string(),
        stdout: stdout.to_string(),
    }
}

fn two_node_simulation() -> Simulation {
    let mut sim = Simulation::new();
    assert_eq!(sim.add_node(node(5, "a", 1, 2)), Ok(()));
    assert_eq!(sim.add_node(node(6, "b", 3, 2)), Ok(()));
    sim
}

#[test]
fn namespace_command_lines() {
    assert_eq!(NetNamespace::add_args("n1"), vec!["netns", "add", "n1"]);
    let ns = NetNamespace { file_descriptor: 3, name: "n1".to_string() };
    assert_eq!(ns.delete_args(), vec!["netns", "delete", "n1"]);
    assert_eq!(ns.loopback_up_args(), vec!["-n", "n1", "link", "set", "lo", "up"]);
    assert_eq!(ns.exec_args("ls", &["-l", "/tmp"]), vec!["netns", "exec", "n1", "ls", "-l", "/tmp"]);
    assert_eq!(NetNamespace::namespace_file("n1"), "/var/run/netns/n1");
    assert_eq!(NetNamespace::spawn_error("boom"), "Failed to spawn command: boom");
}

#[test]
fn namespace_creation_outcomes() {
    let ns = NetNamespace::create_namespace("n1", Ok(()), Ok(9)).unwrap();
    assert_eq!((ns.file_descriptor, ns.name.as_str()), (9, "n1"));
    assert_eq!(
        NetNamespace::create_namespace("n1", Err("no ip".to_string()), Ok(9)).err().unwrap(),
        "Failed to execute command: no ip"
    );
    assert_eq!(
        NetNamespace::create_namespace("n1", Ok(()), Err("missing".to_string())).err().unwrap(),
        "Failed to open namespace file: missing"
    );
}

#[test]
fn namespace_command_outcomes() {
    let ns = NetNamespace { file_descriptor: 3, name: "n1".to_string() };
    assert_eq!(ns.remove_netns(&exited(true, "exit status: 0", "")), Ok(()));
    assert_eq!(
        ns.remove_netns(&exited(false, "exit status: 1", "")),
        Err("Failed to delete namespace n1: Exit status exit status: 1".to_string())
    );
    assert_eq!(
        ns.remove_netns(&CommandOutcome::Failed("gone".to_string())),
        Err("Failed to delete namespace n1: gone".to_string())
    );
    assert_eq!(
        ns.bring_up_loopback(&exited(false, "exit status: 2", "")),
        Err("Failed to bring loopback up in namespace n1: Exit status exit status: 2".to_string())
    );
    assert_eq!(ns.run_command_in_namespace(exited(true, "exit status: 0", "out\n")), Ok("out\n".to_string()));
    assert_eq!(
        ns.run_command_in_namespace(exited(false, "exit status: 3", "out")),
        Err("Command exited with status: exit status: 3".to_string())
    );
    assert_eq!(
        ns.run_command_in_namespace(CommandOutcome::Failed("x".to_string())),
        Err("Failed to execute command: x".to_string())
    );
    assert_eq!(require_ran(&exited(false, "exit status: 1", "")), Ok(()));
}

#[test]
fn port_requests_and_outcomes() {
    let ns = namespace(7, "n1");
    let port = NetdevsimPort { namespace: ns.clone(), ifindex: 12, name: "eni1np1".to_string(), port_id: 1 };
    assert_eq!(port.set_delay_request(1, 500), "7:12 1 500");
    assert_eq!(NetdevsimPort::set_delay_path(), "/sys/bus/netdevsim/set_delay");
    assert_eq!(
        port.set_delay(Err("denied".to_string())),
        Err("Failed to write to /sys/bus/netdevsim/set_delay: denied".to_string())
    );
    assert_eq!(port.set_delay(Ok(())), Ok(()));
    assert_eq!(
        port.set_ip_address_args("10.0.0.1/24"),
        vec!["-n", "n1", "addr", "add", "10.0.0.1/24", "dev", "eni1np1"]
    );
    assert_eq!(
        port.set_ip_address("10.0.0.1/24", &exited(false, "exit status: 2", "")),
        Err("Failed to set IP address 10.0.0.1/24 on device eni1np1: Exit status exit status: 2".to_string())
    );
    assert_eq!(port.link_up_args(), vec!["-n", "n1", "link", "set", "eni1np1", "up"]);
    assert_eq!(port.link_down_args(), vec!["-n", "n1", "link", "set", "eni1np1", "down"]);
    assert_eq!(
        port.bring_link_up(&exited(false, "exit status: 1", "")),
        Err("Failed to bring link eni1np1 up: Exit status exit status: 1".to_string())
    );
    assert_eq!(
        port.bring_link_down(&exited(false, "exit status: 1", "")),
        Err("Failed to bring link eni1np1 down: Exit status exit status: 1".to_string())
    );
    assert_eq!(port.bring_link_up(&exited(true, "exit status: 0", "")), Ok(()));
    assert_eq!(
        port.bring_link_down(&CommandOutcome::Failed("e".to_string())),
        Err("Failed to execute command: e".to_string())
    );
}

#[test]
fn negative_descriptor_in_requests() {
    let port = NetdevsimPort { namespace: namespace(-1, "n"), ifindex: 2, name: "p".to_string(), port_id: 1 };
    assert_eq!(port.set_delay_request(0, 0), "-1:2 0 0");
}

#[test]
fn device_command_lines() {
    assert_eq!(NetdevsimDevice::new_device_script(3, 4, 1), "echo 3 4 1 > /sys/bus/netdevsim/new_device");
    let ns = NetNamespace { file_descriptor: 3, name: "n1".to_string() };
    assert_eq!(
        NetdevsimDevice::shell_args(&ns, "echo 1".to_string()),
        vec!["netns", "exec", "n1", "sh", "-c", "echo 1"]
    );
    assert_eq!(NetdevsimDevice::device_net_dir(3), "/sys/bus/netdevsim/devices/netdevsim3/net");
    assert_eq!(
        NetdevsimDevice::ifindex_file(3, "eni3np1"),
        "/sys/bus/netdevsim/devices/netdevsim3/net/eni3np1/ifindex"
    );
    let dev = device(&namespace(3, "n1"), 9, 0, 1);
    assert_eq!(dev.remove_device_script(), "echo 9 > /sys/bus/netdevsim/del_device");
    assert_eq!(dev.remove_device(&exited(false, "exit status: 1", "")), Ok(()));
    assert_eq!(
        dev.remove_device(&CommandOutcome::Failed("no sh".to_string())),
        Err("Failed to execute command: no sh".to_string())
    );
}

#[test]
fn device_listing_and_ifindex() {
    assert_eq!(
        NetdevsimDevice::device_names(3, Ok("eni3np1\neni3np2\n".to_string())),
        Ok(vec!["eni3np1".to_string(), "eni3np2".to_string()])
    );
    assert_eq!(
        NetdevsimDevice::device_names(3, Err("Command exited with status: exit status: 2".to_string())),
        Err("Failed to list devices in /sys/bus/netdevsim/devices/netdevsim3/net: Command exited with status: exit status: 2".to_string())
    );
    let ns = namespace(4, "n1");
    let p = NetdevsimDevice::port_from_ifindex(&ns, 3, "eni3np1".to_string(), &Ok("17\n".to_string()), 9).unwrap();
    assert_eq!((p.ifindex, p.name.as_str(), p.namespace.file_descriptor, p.port_id), (17, "eni3np1", 4, 9));
    assert_eq!(
        NetdevsimDevice::port_from_ifindex(&ns, 3, "eni3np1".to_string(), &Ok("x\n".to_string()), 9).err().unwrap(),
        "Failed to parse ifindex: invalid digit found in string"
    );
    assert_eq!(
        NetdevsimDevice::port_from_ifindex(&ns, 3, "eni3np1".to_string(), &Err("nope".to_string()), 9).err().unwrap(),
        "Failed to read ifindex from /sys/bus/netdevsim/devices/netdevsim3/net/eni3np1/ifindex: nope"
    );
}

const ETHTOOL: &str = "Time stamping parameters for eni1np1:\nCapabilities:\n\thardware-transmit\n\tsoftware-transmit\nPTP Hardware Clock: 2\nHardware timestamp provider index: 2\nHardware Transmit Timestamp Modes:\n\toff\n";

#[test]
fn phc_index_from_ethtool_output() {
    assert_eq!(phc_index_of(ETHTOOL), Ok(2));
    assert_eq!(phc_index_of("  Hardware timestamp provider index:  5 \nHardware timestamp provider index: 7\n"), Ok(7));
    assert_eq!(phc_index_of("Hardware timestamp provider index: 3:4\n"), Ok(3));
    assert_eq!(
        phc_index_of("PTP Hardware Clock: none\n"),
        Err("Failed to find PTP Hardware Clock index from ethtool output".to_string())
    );
    assert_eq!(
        phc_index_of("Hardware timestamp provider index: -1\n"),
        Err("Failed to parse PHC index: invalid digit found in string".to_string())
    );
    assert_eq!(
        phc_index_of("Hardware timestamp provider index:\n"),
        Err("Failed to parse PHC index: cannot parse integer from empty string".to_string())
    );
}

#[test]
fn device_from_parts() {
    let ns = namespace(4, "n1");
    let port = Arc::new(NetdevsimPort { namespace: ns.clone(), ifindex: 3, name: "p".to_string(), port_id: 1 });
    let dev = NetdevsimDevice::new(ns.clone(), 8, vec![port], ETHTOOL).unwrap();
    assert_eq!((dev.ident, dev.phc_index, dev.ports.len()), (8, 2, 1));
    assert!(NetdevsimDevice::new(ns, 8, vec![], "nothing").is_err());
}

#[test]
fn links_match_in_either_order() {
    let ns1 = namespace(3, "a");
    let ns2 = namespace(4, "b");
    let p1 = Arc::new(NetdevsimPort { namespace: ns1.clone(), ifindex: 10, name: "x".to_string(), port_id: 1 });
    let p2 = Arc::new(NetdevsimPort { namespace: ns2, ifindex: 11, name: "y".to_string(), port_id: 2 });
    let p3 = Arc::new(NetdevsimPort { namespace: ns1, ifindex: 10, name: "x".to_string(), port_id: 3 });
    let link = LinkedDevices::link(p1.clone(), p2.clone(), Ok(())).unwrap();
    assert!(link.matches(&p1, &p2));
    assert!(link.matches(&p2, &p1));
    assert!(!link.matches(&p1, &p1));
    assert!(!link.matches(&p3, &p2));
    assert!(!link.matches(&p2, &p3));
    assert_eq!(LinkedDevices::pair_request(&p1, &p2), "3:10 4:11");
    assert_eq!(link.unlink_request(), "3:10 4:11");
    assert_eq!(LinkedDevices::link_path(), "/sys/bus/netdevsim/link_device");
    assert_eq!(LinkedDevices::unlink_path(), "/sys/bus/netdevsim/unlink_device");
    assert_eq!(
        LinkedDevices::link(p1, p2, Err("busy".to_string())).err().unwrap(),
        "Failed to write to /sys/bus/netdevsim/link_device: busy"
    );
}

#[test]
fn node_accessors_and_delays() {
    let mut n = node(5, "a", 1, 2);
    assert_eq!(n.name(), "a");
    assert_eq!(n.output_dir(), "logs");
    assert_eq!(n.phc_index(), 1);
    assert_eq!(n.num_ports(), 2);
    assert_eq!(n.port(1).unwrap().name, "eni1np2");
    assert!(n.port(2).is_none());
    assert_eq!(n.current_delay(0), Some((0, 0)));
    assert_eq!(n.current_delay(2), None);
    let p = n.set_delay(1, 2, 300).unwrap();
    assert_eq!(p.name, "eni1np2");
    assert_eq!(n.current_delay(1), Some((2, 300)));
    assert_eq!(n.current_delay(0), Some((0, 0)));
    assert_eq!(n.phc_log_file(), "logs/phc_polling_a.yaml");
    assert_eq!(n.device().ident, 1);
    assert_eq!(n.namespace().file_descriptor, 5);
}

#[test]
fn delay_on_port_beyond_device_is_refused() {
    let ns = namespace(5, "a");
    let dev = device(&ns, 1, 1, 1);
    let mut n = PTPNode::new(ns, dev, 3, "logs");
    assert_eq!(n.set_delay(2, 1, 1).err().unwrap(), "Port index 2 out of range for node a");
    assert_eq!(n.current_delay(2), Some((1, 1)));
}

#[test]
fn ptp4l_and_tshark_arguments() {
    let ns = namespace(5, "a");
    let dev = device(&ns, 1, 1, 2);
    assert_eq!(
        PTPNode::ptp4l_command_args(&["-m", "-2"], &dev),
        vec!["-m", "-2", "-i", "eni1np1", "-i", "eni1np2"]
    );
    assert_eq!(PTPNode::tshark_args("out.pcap", &["-q"]), vec!["-w", "out.pcap", "-q"]);
    assert_eq!(PTPNode::tshark_output_file("logs", "a"), "logs/tshark_a.pcap");
}

#[test]
fn ptp4l_servo_line_is_parsed() {
    let r = parse_ptp4l_line(
        "ptp4l[3488.724]: master offset       -749 s2 freq     -38 path delay   1001829\n",
    )
    .unwrap();
    assert_eq!(r.offset_from_master, "-749");
    assert_eq!(r.state, "s2");
    assert_eq!(r.frequency, "-38");
    assert_eq!(r.path_delay, "1001829");
    let r = parse_ptp4l_line("ptp4l[1.5]: master offset 3 s0 freq +12 path delay 0").unwrap();
    assert_eq!((r.offset_from_master.as_str(), r.frequency.as_str()), ("3", "12"));
    assert!(parse_ptp4l_line("ptp4l[3488.724]: port 1: LISTENING to MASTER").is_none());
}

#[test]
fn nodes_with_one_name_are_refused() {
    let mut sim = two_node_simulation();
    assert_eq!(sim.add_node(node(7, "a", 5, 1)), Err("Node with name a already exists".to_string()));
    assert_eq!(sim.check_node_name("a"), Err("Node with name a already exists".to_string()));
    assert_eq!(sim.check_node_name("c"), Ok(()));
    assert_eq!(sim.nodes().len(), 2);
    assert_eq!(sim.get_node("b").unwrap().name(), "b");
    assert!(sim.get_node("c").is_none());
}

#[test]
fn device_ids_follow_the_port_total() {
    let mut sim = Simulation::new();
    assert_eq!(sim.total_ports(), Some(0));
    assert_eq!(sim.next_device_id(), 1);
    sim.add_node(node(5, "a", 1, 2)).unwrap();
    sim.add_node(node(6, "b", 3, 3)).unwrap();
    assert_eq!(sim.total_ports(), Some(5));
    assert_eq!(sim.next_device_id(), 6);
}

#[test]
fn links_are_added_once() {
    let mut sim = two_node_simulation();
    let (d1, d2) = sim.prepare_link("a", 0, "b", 1).unwrap();
    assert_eq!((d1.name.as_str(), d2.name.as_str()), ("eni1np1", "eni3np2"));
    assert_eq!(sim.add_link("a", 0, "b", 1, Ok(())), Ok(()));
    assert_eq!(sim.devlinks().len(), 1);
    assert_eq!(
        sim.add_link("a", 0, "b", 1, Ok(())),
        Err("Link between a:0 and b:1 already exists".to_string())
    );
    assert_eq!(
        sim.prepare_link("b", 1, "a", 0).err().unwrap(),
        "Link between b:1 and a:0 already exists"
    );
    assert_eq!(sim.devlinks().len(), 1);
}

#[test]
fn link_lookups_fail_in_order() {
    let mut sim = two_node_simulation();
    assert_eq!(sim.add_link("x", 9, "y", 9, Ok(())), Err("Node x not found".to_string()));
    assert_eq!(sim.add_link("a", 9, "y", 9, Ok(())), Err("Node y not found".to_string()));
    assert_eq!(sim.add_link("a", 9, "b", 9, Ok(())), Err("Port 9 not found on node a".to_string()));
    assert_eq!(sim.add_link("a", 1, "b", 9, Ok(())), Err("Port 9 not found on node b".to_string()));
    assert_eq!(
        sim.add_link("a", 1, "b", 0, Err("busy".to_string())),
        Err("Failed to write to /sys/bus/netdevsim/link_device: busy".to_string())
    );
    assert_eq!(sim.devlinks().len(), 0);
}

#[test]
fn removing_a_link_undoes_adding_it() {
    let mut sim = two_node_simulation();
    sim.add_link("a", 0, "b", 0, Ok(())).unwrap();
    sim.add_link("a", 1, "b", 1, Ok(())).unwrap();
    let l = sim.remove_link("b", 0, "a", 0).unwrap();
    assert_eq!((l.device1.name.as_str(), l.device2.name.as_str()), ("eni1np1", "eni3np1"));
    assert_eq!(sim.devlinks().len(), 1);
    assert_eq!(
        sim.remove_link("a", 0, "b", 0).err().unwrap(),
        "Link between a:0 and b:0 not found"
    );
    assert_eq!(sim.remove_link("q", 0, "b", 0).err().unwrap(), "Node q not found");
    assert_eq!(sim.add_link("a", 0, "b", 0, Ok(())), Ok(()));
}

#[test]
fn node_delays_through_the_simulation() {
    let mut sim = two_node_simulation();
    assert!(sim.set_node_delay("zz", 0, 1, 2).is_none());
    let p = sim.set_node_delay("b", 1, 3, 4).unwrap().unwrap();
    assert_eq!(p.name, "eni3np2");
    assert_eq!(sim.get_node("b").unwrap().current_delay(1), Some((3, 4)));
    assert_eq!(sim.get_node("a").unwrap().current_delay(1), Some((0, 0)));
}

#[test]
fn topology_steps_add_nodes_then_links() {
    let t = Topology {
        nodes: vec![
            NodeConfig { name: "a".to_string(), num_ports: 258, tshark: true, ptp4l_args: vec!["-m".to_string()] },
            NodeConfig { name: "b".to_string(), num_ports: 1, tshark: false, ptp4l_args: vec![] },
        ],
        devlinks: vec![Devlink { dev1: "a".to_string(), port1: 0, dev2: "b".to_string(), port2: 0 }],
    };
    let steps = Simulation::from_topology(&t);
    assert_eq!(steps.len(), 3);
    match &steps[0] {
        SetupStep::AddNode { name, num_ports, ptp4l_args, tshark } => {
            assert_eq!((name.as_str(), *num_ports, ptp4l_args.clone(), *tshark), ("a", 2, vec!["-m".to_string()], true));
        }
        _ => panic!("first step must add node a"),
    }
    match &steps[1] {
        SetupStep::AddNode { name, num_ports, .. } => assert_eq!((name.as_str(), *num_ports), ("b", 1)),
        _ => panic!("second step must add node b"),
    }
    match &steps[2] {
        SetupStep::AddLink { dev1, port1, dev2, port2 } => {
            assert_eq!((dev1.as_str(), *port1, dev2.as_str(), *port2), ("a", 0, "b", 0));
        }
        _ => panic!("third step must add the link"),
    }
}

#[test]
fn shutdown_gives_links_then_nodes() {
    let mut sim = two_node_simulation();
    sim.add_link("a", 0, "b", 0, Ok(())).unwrap();
    let steps = sim.shutdown();
    let order: Vec<String> = steps
        .iter()
        .map(|s| match s {
            TeardownStep::Unlink(l) => format!("unlink {}-{}", l.device1.name, l.device2.name),
            TeardownStep::ShutdownNode(n) => format!("node {}", n.name()),
        })
        .collect();
    assert_eq!(order, vec!["unlink eni1np1-eni3np1", "node a", "node b"]);
}

#[test]
fn phc_ctl_reading() {
    assert_eq!(phc_ctl_args(2), vec!["/dev/ptp2", "get"]);
    assert_eq!(
        phc_time_field(Ok("phc_ctl[46233.054]: clock time is 15747.599839000 or Wed Dec 31 23:22:27 1969\n".to_string())),
        Ok("15747.599839000".to_string())
    );
    assert_eq!(
        phc_time_field(Ok("phc_ctl: failed".to_string())),
        Err("Failed to parse phc_ctl output".to_string())
    );
    assert_eq!(
        phc_time_field(Err("Command exited with status: exit status: 1".to_string())),
        Err("Failed to run phc_ctl: Command exited with status: exit status: 1".to_string())
    );
    assert_eq!(events_log_file("out"), "out/events.yaml");
}

#[test]
fn api_answers() {
    assert_eq!(link_response("a", 0, "b", 1, &Ok(())), "Linked node a port 0 to node b port 1");
    assert_eq!(
        link_response("a", 0, "b", 1, &Err("Node a not found".to_string())),
        "Failed to link node a port 0 to node b port 1: Node a not found"
    );
    assert_eq!(unlink_response("a", 2, "b", 3, &Ok(())), "Unlinked node a port 2 from node b port 3");
    assert_eq!(
        unlink_response("a", 2, "b", 3, &Err("x".to_string())),
        "Failed to unlink node a port 2 from node b port 3: x"
    );
    assert_eq!(delay_response("a", 1, 0, 500, &None), "Node a not found");
    assert_eq!(
        delay_response("a", 1, 0, 500, &Some(Ok(()))),
        "Set delay on node a port 1 to 0 sec and 500 nsec"
    );
    assert_eq!(
        delay_response("a", 1, 0, 500, &Some(Err("bad".to_string()))),
        "Failed to set delay on node a port 1: bad"
    );
}

#[test]
fn ports_follow_the_listing_and_reads() {
    let ns = namespace(5, "n1");
    let names = vec!["eni1np1".to_string(), "eni1np2".to_string()];
    let reads = vec![Ok("7\n".to_string()), Ok("8\n".to_string())];
    let ports = NetdevsimDevice::ports_from_reads(&ns, 1, &names, &reads, 40).unwrap();
    assert_eq!(ports.len(), 2);
    assert_eq!((ports[0].name.as_str(), ports[0].ifindex, ports[0].port_id), ("eni1np1", 7, 40));
    assert_eq!((ports[1].name.as_str(), ports[1].ifindex, ports[1].port_id), ("eni1np2", 8, 41));
    assert_eq!(ports[1].namespace.name, "n1");
    let reads = vec![Ok("7\n".to_string()), Ok("x".to_string())];
    assert_eq!(
        NetdevsimDevice::ports_from_reads(&ns, 1, &names, &reads, 40).err().unwrap(),
        "Failed to parse ifindex: invalid digit found in string"
    );
    let reads = vec![Err("gone".to_string()), Ok("x".to_string())];
    assert_eq!(
        NetdevsimDevice::ports_from_reads(&ns, 1, &names, &reads, 40).err().unwrap(),
        "Failed to read ifindex from /sys/bus/netdevsim/devices/netdevsim1/net/eni1np1/ifindex: gone"
    );
    assert_eq!(NetdevsimDevice::ports_from_reads(&ns, 1, &vec![], &vec![], 0).unwrap().len(), 0);
    assert_eq!(NetdevsimDevice::ethtool_args(&ports), Some(vec!["-T".to_string(), "eni1np1".to_string()]));
    assert_eq!(NetdevsimDevice::ethtool_args(&vec![]), None);
}

#[test]
fn capture_groups_give_the_report() {
    let caps = Some(vec![
        Some("all".to_string()),
        Some("1.0".to_string()),
        Some("-5".to_string()),
        Some("s2".to_string()),
        Some("7".to_string()),
        Some("100".to_string()),
    ]);
    let r = report_from_captures(caps).unwrap();
    assert_eq!(
        (r.offset_from_master.as_str(), r.state.as_str(), r.frequency.as_str(), r.path_delay.as_str()),
        ("-5", "s2", "7", "100")
    );
    assert!(report_from_captures(None).is_none());
    assert!(report_from_captures(Some(vec![Some("x".to_string())])).is_none());
    let missing = Some(vec![None, None, Some("1".to_string()), None, Some("2".to_string()), Some("3".to_string())]);
    assert!(report_from_captures(missing).is_none());
}

#[test]
fn node_startup_brings_ports_up_before_ptp4l() {
    assert_eq!(PTPNode::device_script(4, 2), "echo 4 2 1 > /sys/bus/netdevsim/new_device");
    let ns = namespace(5, "a");
    let dev = device(&ns, 1, 1, 2);
    let steps = PTPNode::startup_actions(&dev, &["-m"]);
    let order: Vec<String> = steps
        .iter()
        .map(|s| match s {
            StartupAction::BringLinkUp(p) => format!("up {}", p.name),
            StartupAction::SpawnPtp4l(a) => format!("ptp4l {}", a.join(" ")),
        })
        .collect();
    assert_eq!(order, vec!["up eni1np1", "up eni1np2", "ptp4l -m -i eni1np1 -i eni1np2"]);
}

#[test]
fn node_plans() {
    let sim = two_node_simulation();
    assert_eq!(sim.prepare_node("a", false, "logs").err().unwrap(), "Node with name a already exists");
    let plan = sim.prepare_node("c", true, "logs").unwrap();
    assert_eq!(plan.device_id, 5);
    assert_eq!(plan.tshark_output, Some("logs/tshark_c.pcap".to_string()));
    assert_eq!(sim.prepare_node("c", false, "logs").unwrap().tshark_output, None);
}

fn small_topology() -> Topology {
    Topology {
        nodes: vec![NodeConfig { name: "a".to_string(), num_ports: 1, tshark: false, ptp4l_args: vec![] }],
        devlinks: vec![
            Devlink { dev1: "a".to_string(), port1: 0, dev2: "b".to_string(), port2: 0 },
            Devlink { dev1: "a".to_string(), port1: 1, dev2: "b".to_string(), port2: 1 },
        ],
    }
}

#[test]
fn setup_runs_every_step_when_all_succeed() {
    let mut setup = TopologySetup::new(&small_topology());
    let mut seen = 0;
    while let Some(step) = setup.current() {
        match step {
            SetupStep::AddNode { .. } => assert_eq!(seen, 0),
            SetupStep::AddLink { .. } => assert!(seen >= 1),
        }
        seen += 1;
        setup.record(Ok(()));
    }
    assert_eq!(seen, 3);
    assert_eq!(setup.finish(), Ok(()));
}

#[test]
fn setup_stops_at_the_first_error() {
    let mut setup = TopologySetup::new(&small_topology());
    let mut seen = 0;
    while setup.current().is_some() {
        seen += 1;
        if seen == 2 {
            setup.record(Err("Node b not found".to_string()));
        } else {
            setup.record(Ok(()));
        }
    }
    assert_eq!(seen, 2);
    assert_eq!(setup.finish(), Err("Node b not found".to_string()));
}
