//! A PTP node: a namespace with one netdevsim device whose ports ptp4l
//! drives, and the delays set on those ports.
use std::sync::Arc;
use vstd::prelude::*;
use crate::command::{concat4, share};
use crate::netdevsim::{DeviceView, NetdevsimDevice, NetdevsimPort, PortView, ports_view};
use crate::netns::{NetNamespace, NetNamespaceView};
use crate::servo::{servo_fields, servo_report};
use crate::text::{decimal, push_decimal};

verus! {

/// The model of a running PTP node: where its logs go, its namespace, its
/// device, and the delay last set on each port as (seconds, nanoseconds).
pub struct PTPNode {
    output_dir: String,
    ns: Arc<NetNamespace>,
    device: Arc<NetdevsimDevice>,
    set_delays: Vec<(u32, u32)>,
}

/// The plain values of a node.
pub struct NodeView {
    pub output_dir: Seq<char>,
    pub ns: NetNamespaceView,
    pub device: DeviceView,
    pub set_delays: Seq<(u32, u32)>,
}

impl View for PTPNode {
    type V = NodeView;

    closed spec fn view(&self) -> NodeView {
        NodeView {
            output_dir: self.output_dir@,
            ns: self.ns@,
            device: self.device@,
            set_delays: self.set_delays@,
        }
    }
}

/// The arguments that start ptp4l: the configured ones, then `-i` and the
/// name of each port of the device.
pub open spec fn ptp4l_args_spec(extra: Seq<Seq<char>>, ports: Seq<PortView>) -> Seq<Seq<char>>
    decreases ports.len(),
{
    if ports.len() == 0 {
        extra
    } else {
        ptp4l_args_spec(extra, ports.drop_last()) + seq!["-i"@, ports.last().name]
    }
}

/// The pattern of the ptp4l log lines that report the servo's state.
pub open spec fn ptp4l_pattern() -> Seq<char> {
    "ptp4l\\[(\\d+\\.\\d+)\\]: master offset\\s+(-?\\d+)\\s+([a-z0-9]+)\\s+freq\\s+[+]{0,1}(-?\\d+)\\s+path delay\\s+(\\d+)"@
}

/// The capture groups of the leftmost match of `pattern` in `haystack`,
/// group 0 being the whole match, as the `regex` crate finds them; `None`
/// when nothing matches.
pub uninterp spec fn regex_captures(pattern: Seq<char>, haystack: Seq<char>) -> Option<
    Seq<Option<Seq<char>>>,
>;

/// Compiles `pattern` with `regex::Regex::new` and searches `haystack` with
/// `Regex::captures`, handing back each group's text. The contract claims
/// only that the result is the `regex` crate's answer for these two texts
/// (`regex_captures`); a pattern that does not compile gives `None`.
#[verifier::external_body]
fn captures(pattern: &str, haystack: &str) -> (r: Option<Vec<Option<String>>>)
    ensures
        r.deep_view() == regex_captures(pattern@, haystack@),
{
    let re = match regex::Regex::new(pattern) {
        Ok(re) => re,
        Err(_) => return None,
    };
    let caps = re.captures(haystack)?;
    Some(caps.iter().map(|m| m.map(|m| m.as_str().to_string())).collect())
}

/// What a ptp4l servo line reports, as text: the offset from the master,
/// the servo state, the frequency adjustment and the path delay.
pub struct Ptp4lReport {
    pub offset_from_master: String,
    pub state: String,
    pub frequency: String,
    pub path_delay: String,
}

/// The report in a set of capture groups: groups 2 to 5, when all matched.
pub open spec fn report_of(caps: Option<Seq<Option<Seq<char>>>>) -> Option<
    (Seq<char>, Seq<char>, Seq<char>, Seq<char>),
> {
    match caps {
        Some(c) => if c.len() >= 6 && c[2] is Some && c[3] is Some && c[4] is Some && c[5] is Some {
            Some((c[2]->0, c[3]->0, c[4]->0, c[5]->0))
        } else {
            None
        },
        None => None,
    }
}

fn take_group(caps: &mut Vec<Option<String>>, i: usize) -> (r: Option<String>)
    requires
        i < old(caps)@.len(),
    ensures
        r.deep_view() == old(caps)@[i as int].deep_view(),
        final(caps)@.len() == old(caps)@.len(),
        forall|j: int| 0 <= j < old(caps)@.len() && j != i ==> final(caps)@[j] == old(caps)@[j],
{
    let mut r = None;
    std::mem::swap(&mut r, &mut caps[i]);
    r
}

/// The report in the capture groups of a servo line: groups 2 to 5, when
/// there are that many and all of them matched.
pub fn report_from_captures(caps: Option<Vec<Option<String>>>) -> (r: Option<Ptp4lReport>)
    ensures
        report_of(caps.deep_view()) matches Some(t) ==> (r matches Some(rep)
            && rep.offset_from_master@ == t.0 && rep.state@ == t.1 && rep.frequency@ == t.2
            && rep.path_delay@ == t.3),
        report_of(caps.deep_view()) is None ==> r is None,
{
    match caps {
        None => None,
        Some(mut c) => {
            let ghost c0 = c@;
            let ghost cv = c.deep_view();
            assert(cv.len() == c0.len());
            if c.len() < 6 {
                return None;
            }
            let g2 = take_group(&mut c, 2);
            let g3 = take_group(&mut c, 3);
            let g4 = take_group(&mut c, 4);
            let g5 = take_group(&mut c, 5);
            assert(cv[2] == c0[2].deep_view());
            assert(cv[3] == c0[3].deep_view());
            assert(cv[4] == c0[4].deep_view());
            assert(cv[5] == c0[5].deep_view());
            match (g2, g3, g4, g5) {
                (Some(offset), Some(state), Some(freq), Some(delay)) => Some(
                    Ptp4lReport {
                        offset_from_master: offset,
                        state,
                        frequency: freq,
                        path_delay: delay,
                    },
                ),
                _ => None,
            }
        },
    }
}

/// The report of a ptp4l log line, if the line is a servo line. A line of
/// the form `ptp4l[T]: master offset O S freq F path delay D` (ASCII digits,
/// spaces or tabs between the fields) is read from its text; any other
/// line is searched with the servo line's pattern.
pub fn parse_ptp4l_line(line: &str) -> (r: Option<Ptp4lReport>)
    ensures
        servo_fields(line@) matches Some(t) ==> (r matches Some(rep) && rep.offset_from_master@
            == t.0 && rep.state@ == t.1 && rep.frequency@ == t.2 && rep.path_delay@ == t.3),
        servo_fields(line@) is None ==> (report_of(regex_captures(ptp4l_pattern(), line@)) matches Some(
            t,
        ) ==> (r matches Some(rep) && rep.offset_from_master@ == t.0 && rep.state@ == t.1
            && rep.frequency@ == t.2 && rep.path_delay@ == t.3)),
        servo_fields(line@) is None ==> (report_of(regex_captures(ptp4l_pattern(), line@)) is None
            ==> r is None),
{
    match servo_report(line) {
        Some(rep) => Some(rep),
        None => {
            let pattern =
                "ptp4l\\[(\\d+\\.\\d+)\\]: master offset\\s+(-?\\d+)\\s+([a-z0-9]+)\\s+freq\\s+[+]{0,1}(-?\\d+)\\s+path delay\\s+(\\d+)";
            report_from_captures(captures(pattern, line))
        },
    }
}

/// One step of starting a node once its device exists.
pub enum StartupAction {
    /// Bring this port's link up.
    BringLinkUp(Arc<NetdevsimPort>),
    /// Start ptp4l in the node's namespace with these arguments.
    SpawnPtp4l(Vec<String>),
}

/// The plain values of a startup step.
pub enum StartupView {
    BringLinkUp(PortView),
    SpawnPtp4l(Seq<Seq<char>>),
}

impl View for StartupAction {
    type V = StartupView;

    open spec fn view(&self) -> StartupView {
        match self {
            StartupAction::BringLinkUp(p) => StartupView::BringLinkUp(p@),
            StartupAction::SpawnPtp4l(a) => StartupView::SpawnPtp4l(a.deep_view()),
        }
    }
}

/// The steps that start a node on `device`: every port's link brought up,
/// in order, and then ptp4l started on all of them.
pub open spec fn startup_spec(ports: Seq<PortView>, extra: Seq<Seq<char>>) -> Seq<StartupView> {
    ports.map_values(|p: PortView| StartupView::BringLinkUp(p)) + seq![
        StartupView::SpawnPtp4l(ptp4l_args_spec(extra, ports)),
    ]
}

/// `"<dir>/tshark_<name>.pcap"`, where a node's capture goes.
pub open spec fn tshark_output_spec(dir: Seq<char>, name: Seq<char>) -> Seq<char> {
    dir + "/tshark_"@ + name + ".pcap"@
}

/// `"<dir>/phc_polling_<name>.yaml"`, where a node's clock readings go.
pub open spec fn phc_log_spec(dir: Seq<char>, name: Seq<char>) -> Seq<char> {
    dir + "/phc_polling_"@ + name + ".yaml"@
}

impl PTPNode {
    /// The shell line that creates a node's device: `num_ports` ports, one queue.
    pub fn device_script(device_id: u32, num_ports: u8) -> (r: String)
        ensures
            r@ == "echo "@ + decimal(device_id as nat) + " "@ + decimal(num_ports as nat) + " "@
                + decimal(1) + " > /sys/bus/netdevsim/new_device"@,
    {
        NetdevsimDevice::new_device_script(device_id, num_ports, 1)
    }

    /// The steps that start a node on `device` with `ptp4l_args`: each
    /// port's link brought up, in order, before ptp4l starts.
    pub fn startup_actions(device: &NetdevsimDevice, ptp4l_args: &[&str]) -> (r: Vec<StartupAction>)
        ensures
            r@.map_values(|a: StartupAction| a@) == startup_spec(
                ports_view(device.ports@),
                ptp4l_args@.map_values(|a: &str| a@),
            ),
    {
        let ghost ps = ports_view(device.ports@);
        let ghost ups = ps.map_values(|p: PortView| StartupView::BringLinkUp(p));
        let mut r: Vec<StartupAction> = Vec::new();
        let mut i: usize = 0;
        while i < device.ports.len()
            invariant
                i <= device.ports@.len(),
                ps == ports_view(device.ports@),
                ups == ps.map_values(|p: PortView| StartupView::BringLinkUp(p)),
                r@.map_values(|a: StartupAction| a@) =~= ups.take(i as int),
            decreases device.ports@.len() - i,
        {
            let ghost before = r@.map_values(|a: StartupAction| a@);
            r.push(StartupAction::BringLinkUp(share(&device.ports[i])));
            assert(r@.map_values(|a: StartupAction| a@) =~= before.push(
                StartupView::BringLinkUp(device.ports@[i as int]@),
            ));
            assert(ups.take(i + 1) =~= ups.take(i as int).push(
                StartupView::BringLinkUp(device.ports@[i as int]@),
            ));
            i += 1;
        }
        assert(ups.take(i as int) =~= ups);
        let args = Self::ptp4l_command_args(ptp4l_args, device);
        let ghost before = r@.map_values(|a: StartupAction| a@);
        let ghost av = args.deep_view();
        r.push(StartupAction::SpawnPtp4l(args));
        assert(r@.map_values(|a: StartupAction| a@) =~= before.push(StartupView::SpawnPtp4l(av)));
        r
    }

    /// A node in namespace `ns` with `device`, no delay set on any of its
    /// `num_ports` ports.
    pub fn new(ns: Arc<NetNamespace>, device: Arc<NetdevsimDevice>, num_ports: u8, output_dir: &str) -> (r:
        PTPNode)
        ensures
            r@ == (NodeView {
                output_dir: output_dir@,
                ns: ns@,
                device: device@,
                set_delays: Seq::new(num_ports as nat, |i: int| (0u32, 0u32)),
            }),
    {
        let mut set_delays: Vec<(u32, u32)> = Vec::new();
        let mut i: u8 = 0;
        while i < num_ports
            invariant
                i <= num_ports,
                (set_delays@ =~= Seq::new(i as nat, |j: int| (0u32, 0u32))),
            decreases num_ports - i,
        {
            set_delays.push((0, 0));
            i += 1;
        }
        PTPNode { output_dir: String::from_str(output_dir), ns, device, set_delays }
    }

    /// The arguments that start ptp4l on `device`: `ptp4l_args`, then `-i`
    /// and each port's name.
    pub fn ptp4l_command_args(ptp4l_args: &[&str], device: &NetdevsimDevice) -> (r: Vec<String>)
        ensures
            r.deep_view() == ptp4l_args_spec(
                ptp4l_args@.map_values(|a: &str| a@),
                ports_view(device.ports@),
            ),
    {
        let mut r: Vec<String> = Vec::new();
        let mut i: usize = 0;
        while i < ptp4l_args.len()
            invariant
                i <= ptp4l_args@.len(),
                r.deep_view() =~= ptp4l_args@.map_values(|a: &str| a@).take(i as int),
            decreases ptp4l_args@.len() - i,
        {
            let ghost before = r.deep_view();
            r.push(String::from_str(ptp4l_args[i]));
            assert(r.deep_view() =~= before.push(ptp4l_args@[i as int]@));
            i += 1;
            assert(ptp4l_args@.map_values(|a: &str| a@).take(i as int) =~= ptp4l_args@.map_values(
                |a: &str| a@,
            ).take(i - 1).push(ptp4l_args@[i - 1]@));
        }
        let ghost extra = ptp4l_args@.map_values(|a: &str| a@);
        assert(extra.take(i as int) =~= extra);
        let mut k: usize = 0;
        while k < device.ports.len()
            invariant
                k <= device.ports@.len(),
                r.deep_view() == ptp4l_args_spec(extra, ports_view(device.ports@).take(k as int)),
            decreases device.ports@.len() - k,
        {
            let ghost before = r.deep_view();
            r.push(String::from_str("-i"));
            r.push(device.ports[k].name.clone());
            assert(r.deep_view() =~= before + seq!["-i"@, device.ports@[k as int]@.name]);
            assert(ports_view(device.ports@).take(k + 1).drop_last() =~= ports_view(
                device.ports@,
            ).take(k as int));
            k += 1;
        }
        assert(ports_view(device.ports@).take(k as int) =~= ports_view(device.ports@));
        r
    }

    /// The arguments that start tshark writing to `output_file`, then `xargs`.
    pub fn tshark_args(output_file: &str, xargs: &[&str]) -> (r: Vec<String>)
        ensures
            r.deep_view() == seq!["-w"@, output_file@] + xargs@.map_values(|a: &str| a@),
    {
        let mut r = vec![String::from_str("-w"), String::from_str(output_file)];
        let ghost head = seq!["-w"@, output_file@];
        assert(r.deep_view() =~= head);
        let mut i: usize = 0;
        while i < xargs.len()
            invariant
                i <= xargs@.len(),
                r.deep_view() =~= head + xargs@.map_values(|a: &str| a@).take(i as int),
            decreases xargs@.len() - i,
        {
            let ghost before = r.deep_view();
            r.push(String::from_str(xargs[i]));
            assert(r.deep_view() =~= before.push(xargs@[i as int]@));
            i += 1;
            assert(xargs@.map_values(|a: &str| a@).take(i as int) =~= xargs@.map_values(
                |a: &str| a@,
            ).take(i - 1).push(xargs@[i - 1]@));
        }
        assert(xargs@.map_values(|a: &str| a@).take(i as int) =~= xargs@.map_values(|a: &str| a@));
        r
    }

    /// The file a node named `name` captures its traffic to, under `output_dir`.
    pub fn tshark_output_file(output_dir: &str, name: &str) -> (r: String)
        ensures
            r@ == tshark_output_spec(output_dir@, name@),
    {
        concat4(output_dir, "/tshark_", name, ".pcap")
    }

    /// The file this node's clock readings go to.
    pub fn phc_log_file(&self) -> (r: String)
        ensures
            r@ == phc_log_spec(self@.output_dir, self@.ns.name),
    {
        concat4(self.output_dir.as_str(), "/phc_polling_", self.ns.name.as_str(), ".yaml")
    }

    /// The node's device.
    pub fn device(&self) -> (r: Arc<NetdevsimDevice>)
        ensures
            r@ == self@.device,
    {
        share(&self.device)
    }

    /// The node's namespace.
    pub fn namespace(&self) -> (r: Arc<NetNamespace>)
        ensures
            r@ == self@.ns,
    {
        share(&self.ns)
    }

    /// The index of the device's PTP hardware clock.
    pub fn phc_index(&self) -> (r: u32)
        ensures
            r == self@.device.phc_index,
    {
        self.device.phc_index
    }

    /// The node's name: that of its namespace.
    pub fn name(&self) -> (r: &str)
        ensures
            r@ == self@.ns.name,
    {
        self.ns.name.as_str()
    }

    /// The directory the node's logs go to.
    pub fn output_dir(&self) -> (r: &str)
        ensures
            r@ == self@.output_dir,
    {
        self.output_dir.as_str()
    }

    /// The number of ports of the node's device.
    pub fn num_ports(&self) -> (r: usize)
        ensures
            r == self@.device.ports.len(),
    {
        self.device.ports.len()
    }

    /// The port at `index` of the node's device, if there is one.
    pub fn port(&self, index: usize) -> (r: Option<Arc<NetdevsimPort>>)
        ensures
            index < self@.device.ports.len() ==> (r matches Some(p) && p@
                == self@.device.ports[index as int]),
            index >= self@.device.ports.len() ==> r is None,
    {
        if index < self.device.ports.len() {
            Some(share(&self.device.ports[index]))
        } else {
            None
        }
    }

    /// The delay last set on port `port_index`, if the node has that port.
    pub fn current_delay(&self, port_index: u8) -> (r: Option<(u32, u32)>)
        ensures
            (port_index as int) < self@.set_delays.len() ==> r == Some(
                self@.set_delays[port_index as int],
            ),
            (port_index as int) >= self@.set_delays.len() ==> r is None,
    {
        if (port_index as usize) < self.set_delays.len() {
            Some(self.set_delays[port_index as usize])
        } else {
            None
        }
    }

    /// Records the delay set on port `port_index`, and gives the device's
    /// port that the delay is to be written to, or why there is none.
    pub fn set_delay(&mut self, port_index: u8, delay_sec: u32, delay_nsec: u32) -> (r: Result<
        Arc<NetdevsimPort>,
        String,
    >)
        requires
            (port_index as int) < old(self)@.set_delays.len(),
        ensures
            final(self)@ == (NodeView {
                set_delays: old(self)@.set_delays.update(
                    port_index as int,
                    (delay_sec, delay_nsec),
                ),
                ..old(self)@
            }),
            (port_index as int) < old(self)@.device.ports.len() ==> (r matches Ok(p) && p@
                == old(self)@.device.ports[port_index as int]),
            (port_index as int) >= old(self)@.device.ports.len() ==> (r matches Err(m) && m@
                == "Port index "@ + decimal(port_index as nat) + " out of range for node "@ + old(
                self,
            )@.ns.name),
    {
        self.set_delays.set(port_index as usize, (delay_sec, delay_nsec));
        match self.port(port_index as usize) {
            Some(p) => Ok(p),
            None => {
                let mut m = String::from_str("Port index ");
                push_decimal(&mut m, port_index as u64);
                m.append(" out of range for node ");
                m.append(self.ns.name.as_str());
                Err(m)
            },
        }
    }
}

/// What `current_delay` reads back of a port is the delay that `set_delay`
/// last recorded on it; the other ports keep theirs.
pub proof fn lemma_delay_read_after_write(n: NodeView, port: int, delay: (u32, u32), other: int)
    requires
        0 <= port < n.set_delays.len(),
    ensures
        ({
            let m = NodeView { set_delays: n.set_delays.update(port, delay), ..n };
            &&& m.set_delays.len() == n.set_delays.len()
            &&& m.set_delays[port] == delay
            &&& (0 <= other < n.set_delays.len() && other != port) ==> m.set_delays[other]
                == n.set_delays[other]
        }),
{
}

} // verus!
