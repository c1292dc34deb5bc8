//! netdevsim devices and ports: the sysfs requests and `ip` command lines
//! that drive them, and the parsers for what the kernel reports about them.
use std::sync::Arc;
use vstd::prelude::*;
use crate::command::{
    concat2, concat4, execute_error, execute_error_text, require_ran, share,
    write_error_text, write_result, CommandOutcome, OutcomeView,
};
use crate::netns::{NetNamespace, NetNamespaceView};
use crate::text::{
    chars_of, decimal, find_char, find_from, has_prefix, int_error_message, int_error_text,
    is_unicode_whitespace,
    lemma_decimal_digits, lemma_parse_decimal, lemma_trim_padded, lines, lines_of, parse_u32,
    parse_u32_spec, push_decimal, push_signed_decimal, second_field,
    signed_decimal, starts_with, substring, trim, trim_bounds,
};

verus! {

/// A port of a netdevsim device, seen from the namespace that holds it.
/// `port_id` tells ports apart: no two ports of a simulation share one,
/// even where their other fields agree.
pub struct NetdevsimPort {
    pub namespace: Arc<NetNamespace>,
    pub ifindex: u32,
    pub name: String,
    pub port_id: u64,
}

/// The plain values of a port.
pub struct PortView {
    pub namespace: NetNamespaceView,
    pub ifindex: u32,
    pub name: Seq<char>,
    pub port_id: u64,
}

impl View for NetdevsimPort {
    type V = PortView;

    open spec fn view(&self) -> PortView {
        PortView {
            namespace: self.namespace@,
            ifindex: self.ifindex,
            name: self.name@,
            port_id: self.port_id,
        }
    }
}

/// A netdevsim device: its id on the netdevsim bus, the index of its PTP
/// hardware clock, and its ports.
pub struct NetdevsimDevice {
    pub ident: u32,
    pub phc_index: u32,
    pub ports: Vec<Arc<NetdevsimPort>>,
    pub namespace: Arc<NetNamespace>,
}

/// The plain values of a device.
pub struct DeviceView {
    pub ident: u32,
    pub phc_index: u32,
    pub ports: Seq<PortView>,
    pub namespace: NetNamespaceView,
}

/// The views of a sequence of shared ports.
pub open spec fn ports_view(ports: Seq<Arc<NetdevsimPort>>) -> Seq<PortView> {
    ports.map_values(|p: Arc<NetdevsimPort>| p@)
}

impl View for NetdevsimDevice {
    type V = DeviceView;

    open spec fn view(&self) -> DeviceView {
        DeviceView {
            ident: self.ident,
            phc_index: self.phc_index,
            ports: ports_view(self.ports@),
            namespace: self.namespace@,
        }
    }
}

/// Two netdevsim ports joined by a link.
pub struct LinkedDevices {
    pub device1: Arc<NetdevsimPort>,
    pub device2: Arc<NetdevsimPort>,
}

/// The plain values of a link.
pub struct LinkView {
    pub device1: PortView,
    pub device2: PortView,
}

impl View for LinkedDevices {
    type V = LinkView;

    open spec fn view(&self) -> LinkView {
        LinkView { device1: self.device1@, device2: self.device2@ }
    }
}

/// `"<namespace fd>:<ifindex>"`, the way netdevsim's sysfs files name a port.
pub open spec fn port_address(p: PortView) -> Seq<char> {
    signed_decimal(p.namespace.file_descriptor as int) + ":"@ + decimal(p.ifindex as nat)
}

/// The request that joins or parts two ports: both addresses, space-separated.
pub open spec fn pair_request(p1: PortView, p2: PortView) -> Seq<char> {
    port_address(p1) + " "@ + port_address(p2)
}

/// Whether a link joins the ports `p1` and `p2`, in either order: the
/// same ports, told apart by their ids.
pub open spec fn link_joins(l: LinkView, p1: PortView, p2: PortView) -> bool {
    (l.device1.port_id == p1.port_id && l.device2.port_id == p2.port_id) || (l.device1.port_id
        == p2.port_id && l.device2.port_id == p1.port_id)
}

/// The sysfs directory of the network devices of netdevsim device `id`.
pub open spec fn device_net_dir(id: u32) -> Seq<char> {
    "/sys/bus/netdevsim/devices/netdevsim"@ + decimal(id as nat) + "/net"@
}

/// The sysfs file that holds the ifindex of port `name` of device `id`.
pub open spec fn ifindex_file(id: u32, name: Seq<char>) -> Seq<char> {
    device_net_dir(id) + "/"@ + name + "/ifindex"@
}

/// The line of `ethtool -T` output that names the PTP hardware clock.
pub open spec fn phc_prefix() -> Seq<char> {
    "Hardware timestamp provider index:"@
}

/// Whether a line of `ethtool -T` output names the PTP hardware clock.
pub open spec fn is_phc_line(line: Seq<char>) -> bool {
    has_prefix(trim(line), phc_prefix())
}

/// The clock index that such a line gives: its trimmed second `:`-field.
pub open spec fn phc_field(line: Seq<char>) -> Seq<char> {
    trim(second_field(trim(line), ':').unwrap())
}

/// The clock index text of the last line of `ls` that names the clock.
pub open spec fn last_phc_field(ls: Seq<Seq<char>>) -> Option<Seq<char>>
    decreases ls.len(),
{
    if ls.len() == 0 {
        None
    } else if is_phc_line(ls.last()) {
        Some(phc_field(ls.last()))
    } else {
        last_phc_field(ls.drop_last())
    }
}

/// The index of the PTP hardware clock that `ethtool -T` reports, or why
/// there is none.
pub open spec fn phc_index_spec(output: Seq<char>) -> Result<u32, Seq<char>> {
    match last_phc_field(lines(output)) {
        None => Err("Failed to find PTP Hardware Clock index from ethtool output"@),
        Some(f) => match parse_u32_spec(f) {
            Ok(n) => Ok(n),
            Err(k) => Err("Failed to parse PHC index: "@ + int_error_text(k)),
        },
    }
}

/// The ifindex that reading a port's ifindex file gives, or why there is none.
pub open spec fn ifindex_spec(id: u32, name: Seq<char>, read: Result<Seq<char>, Seq<char>>) -> Result<
    u32,
    Seq<char>,
> {
    match read {
        Err(e) => Err("Failed to read ifindex from "@ + ifindex_file(id, name) + ": "@ + e),
        Ok(out) => match parse_u32_spec(trim(out)) {
            Ok(n) => Ok(n),
            Err(k) => Err("Failed to parse ifindex: "@ + int_error_text(k)),
        },
    }
}

/// The text view of a read's result.
pub open spec fn read_view(r: Result<String, String>) -> Result<Seq<char>, Seq<char>> {
    match r {
        Ok(o) => Ok(o@),
        Err(e) => Err(e@),
    }
}

/// The ports that the listed `names` and their ifindex `reads` give, in
/// order, numbered from `first`; or the first read that fails or does not parse.
pub open spec fn ports_spec(
    ns: NetNamespaceView,
    id: u32,
    names: Seq<Seq<char>>,
    reads: Seq<Result<Seq<char>, Seq<char>>>,
    first: nat,
) -> Result<Seq<PortView>, Seq<char>>
    decreases names.len(),
{
    if names.len() == 0 {
        Ok(Seq::empty())
    } else {
        match ports_spec(ns, id, names.drop_last(), reads.drop_last(), first) {
            Err(m) => Err(m),
            Ok(ps) => match ifindex_spec(id, names.last(), reads.last()) {
                Err(m) => Err(m),
                Ok(k) => Ok(
                    ps.push(
                        PortView {
                            namespace: ns,
                            ifindex: k,
                            name: names.last(),
                            port_id: (first + names.len() - 1) as u64,
                        },
                    ),
                ),
            },
        }
    }
}

/// Once a prefix of the reads gives an error, the whole does, with that error.
proof fn lemma_ports_spec_err(
    ns: NetNamespaceView,
    id: u32,
    names: Seq<Seq<char>>,
    reads: Seq<Result<Seq<char>, Seq<char>>>,
    first: nat,
    k: int,
)
    requires
        0 <= k <= names.len(),
        reads.len() == names.len(),
        ports_spec(ns, id, names.take(k), reads.take(k), first) is Err,
    ensures
        ports_spec(ns, id, names, reads, first) == ports_spec(
            ns,
            id,
            names.take(k),
            reads.take(k),
            first,
        ),
    decreases names.len() - k,
{
    if k < names.len() {
        let n1 = names.take(k + 1);
        let r1 = reads.take(k + 1);
        assert(n1.drop_last() =~= names.take(k));
        assert(r1.drop_last() =~= reads.take(k));
        lemma_ports_spec_err(ns, id, names, reads, first, k + 1);
    } else {
        assert(names.take(k) =~= names);
        assert(reads.take(k) =~= reads);
    }
}

proof fn lemma_find_before(s: Seq<char>, c: char, from: int, k: int)
    requires
        0 <= from <= k < s.len(),
        s[k] == c,
    ensures
        find_from(s, c, from) <= k,
    decreases k - from,
{
    if s[from] != c {
        lemma_find_before(s, c, from + 1, k);
    }
}

fn sub_vec(v: &Vec<char>, from: usize, to: usize) -> (r: Vec<char>)
    requires
        from <= to <= v@.len(),
    ensures
        r@ == v@.subrange(from as int, to as int),
{
    let mut r: Vec<char> = Vec::new();
    let mut i = from;
    while i < to
        invariant
            from <= i <= to <= v@.len(),
            r@ == v@.subrange(from as int, i as int),
        decreases to - i,
    {
        r.push(v[i]);
        i += 1;
        assert(r@ =~= v@.subrange(from as int, i as int));
    }
    r
}

/// The clock index text that a line of `ethtool -T` output names, if it names one.
fn phc_field_of(line: &String) -> (r: Option<String>)
    ensures
        is_phc_line(line@) ==> (r matches Some(f) && f@ == phc_field(line@)),
        !is_phc_line(line@) ==> r is None,
{
    let lv = chars_of(line.as_str());
    let (a, b) = trim_bounds(&lv, 0, lv.len());
    assert(lv@.subrange(0, lv@.len() as int) =~= lv@);
    let t = sub_vec(&lv, a, b);
    let prefix = chars_of("Hardware timestamp provider index:");
    if !starts_with(&t, &prefix) {
        return None;
    }
    proof {
        reveal_strlit("Hardware timestamp provider index:");
        assert(t@[33] == t@.subrange(0, 34)[33]);
        lemma_find_before(t@, ':', 0, 33);
    }
    let i = find_char(&t, ':', 0);
    let j = find_char(&t, ':', i + 1);
    let (x, y) = trim_bounds(&t, i + 1, j);
    assert(t@.subrange(x as int, y as int) =~= line@.subrange(a + x, a + y));
    Some(substring(line.as_str(), a + x, a + y))
}

impl NetdevsimPort {
    /// Whether `self` and `other` are the same port of the simulation.
    pub fn same_port(&self, other: &NetdevsimPort) -> (b: bool)
        ensures
            b == (self@.port_id == other@.port_id),
    {
        self.port_id == other.port_id
    }

    /// The sysfs file that sets a port's delay.
    pub fn set_delay_path() -> (r: &'static str)
        ensures
            r@ == "/sys/bus/netdevsim/set_delay"@,
    {
        "/sys/bus/netdevsim/set_delay"
    }

    /// The request that sets this port's delay: its address, then the
    /// seconds and nanoseconds, space-separated.
    pub fn set_delay_request(&self, delay_sec: u32, delay_nsec: u32) -> (r: String)
        ensures
            r@ == port_address(self@) + " "@ + decimal(delay_sec as nat) + " "@ + decimal(
                delay_nsec as nat,
            ),
    {
        let mut r = String::new();
        push_signed_decimal(&mut r, self.namespace.file_descriptor);
        r.append(":");
        push_decimal(&mut r, self.ifindex as u64);
        r.append(" ");
        push_decimal(&mut r, delay_sec as u64);
        r.append(" ");
        push_decimal(&mut r, delay_nsec as u64);
        assert(r@ =~= port_address(self@) + " "@ + decimal(delay_sec as nat) + " "@ + decimal(
            delay_nsec as nat,
        ));
        r
    }

    /// What writing the delay request gives.
    pub fn set_delay(&self, written: Result<(), String>) -> (r: Result<(), String>)
        ensures
            written is Ok ==> r is Ok,
            written matches Err(e) ==> r matches Err(m) && m@ == write_error_text(
                "/sys/bus/netdevsim/set_delay"@,
                e@,
            ),
    {
        write_result(Self::set_delay_path(), written)
    }

    /// The arguments of `ip` that give this port the address `ip_address`.
    pub fn set_ip_address_args(&self, ip_address: &str) -> (r: Vec<String>)
        ensures
            r.deep_view() == seq![
                "-n"@,
                self.namespace@.name,
                "addr"@,
                "add"@,
                ip_address@,
                "dev"@,
                self.name@,
            ],
    {
        let r = vec![
            String::from_str("-n"),
            self.namespace.name.clone(),
            String::from_str("addr"),
            String::from_str("add"),
            String::from_str(ip_address),
            String::from_str("dev"),
            self.name.clone(),
        ];
        assert(r.deep_view() =~= seq![
            "-n"@,
            self.namespace@.name,
            "addr"@,
            "add"@,
            ip_address@,
            "dev"@,
            self.name@,
        ]);
        r
    }

    /// What the outcome of `ip addr add` means.
    pub fn set_ip_address(&self, ip_address: &str, outcome: &CommandOutcome) -> (r: Result<
        (),
        String,
    >)
        ensures
            outcome@ matches OutcomeView::Failed(e) ==> r matches Err(m) && m@
                == execute_error_text(e),
            outcome@ matches OutcomeView::Exited { success, status, .. } ==> (if success {
                r is Ok
            } else {
                r matches Err(m) && m@ == "Failed to set IP address "@ + ip_address@
                    + " on device "@ + self.name@ + ": Exit status "@ + status
            }),
    {
        match outcome {
            CommandOutcome::Failed(e) => Err(execute_error(e.as_str())),
            CommandOutcome::Exited { success, status, .. } => {
                if *success {
                    Ok(())
                } else {
                    let mut m = concat4(
                        "Failed to set IP address ",
                        ip_address,
                        " on device ",
                        self.name.as_str(),
                    );
                    m.append(": Exit status ");
                    m.append(status.as_str());
                    Err(m)
                }
            },
        }
    }

    /// The arguments of `ip` that set this port's link `state` (`up` or `down`).
    fn link_set_args(&self, state: &str) -> (r: Vec<String>)
        ensures
            r.deep_view() == seq!["-n"@, self.namespace@.name, "link"@, "set"@, self.name@, state@],
    {
        let r = vec![
            String::from_str("-n"),
            self.namespace.name.clone(),
            String::from_str("link"),
            String::from_str("set"),
            self.name.clone(),
            String::from_str(state),
        ];
        assert(r.deep_view() =~= seq![
            "-n"@,
            self.namespace@.name,
            "link"@,
            "set"@,
            self.name@,
            state@,
        ]);
        r
    }

    /// The arguments of `ip` that bring this port's link up.
    pub fn link_up_args(&self) -> (r: Vec<String>)
        ensures
            r.deep_view() == seq!["-n"@, self.namespace@.name, "link"@, "set"@, self.name@, "up"@],
    {
        self.link_set_args("up")
    }

    /// The arguments of `ip` that bring this port's link down.
    pub fn link_down_args(&self) -> (r: Vec<String>)
        ensures
            r.deep_view() == seq![
                "-n"@,
                self.namespace@.name,
                "link"@,
                "set"@,
                self.name@,
                "down"@,
            ],
    {
        self.link_set_args("down")
    }

    /// What the outcome of bringing this port's link up means.
    pub fn bring_link_up(&self, outcome: &CommandOutcome) -> (r: Result<(), String>)
        ensures
            outcome@ matches OutcomeView::Failed(e) ==> r matches Err(m) && m@
                == execute_error_text(e),
            outcome@ matches OutcomeView::Exited { success, status, .. } ==> (if success {
                r is Ok
            } else {
                r matches Err(m) && m@ == "Failed to bring link "@ + self.name@
                    + " up: Exit status "@ + status
            }),
    {
        match outcome {
            CommandOutcome::Failed(e) => Err(execute_error(e.as_str())),
            CommandOutcome::Exited { success, status, .. } => {
                if *success {
                    Ok(())
                } else {
                    Err(
                        concat4(
                            "Failed to bring link ",
                            self.name.as_str(),
                            " up: Exit status ",
                            status.as_str(),
                        ),
                    )
                }
            },
        }
    }

    /// What the outcome of bringing this port's link down means.
    pub fn bring_link_down(&self, outcome: &CommandOutcome) -> (r: Result<(), String>)
        ensures
            outcome@ matches OutcomeView::Failed(e) ==> r matches Err(m) && m@
                == execute_error_text(e),
            outcome@ matches OutcomeView::Exited { success, status, .. } ==> (if success {
                r is Ok
            } else {
                r matches Err(m) && m@ == "Failed to bring link "@ + self.name@
                    + " down: Exit status "@ + status
            }),
    {
        match outcome {
            CommandOutcome::Failed(e) => Err(execute_error(e.as_str())),
            CommandOutcome::Exited { success, status, .. } => {
                if *success {
                    Ok(())
                } else {
                    Err(
                        concat4(
                            "Failed to bring link ",
                            self.name.as_str(),
                            " down: Exit status ",
                            status.as_str(),
                        ),
                    )
                }
            },
        }
    }
}


/// The index of the PTP hardware clock named by the last matching line of
/// `output`, as `ethtool -T` prints it.
pub fn phc_index_of(output: &str) -> (r: Result<u32, String>)
    ensures
        r matches Ok(n) ==> phc_index_spec(output@) == Ok::<u32, Seq<char>>(n),
        r matches Err(m) ==> phc_index_spec(output@) == Err::<u32, Seq<char>>(m@),
{
    let ls = lines_of(output);
    let mut found: Option<String> = None;
    let mut i: usize = 0;
    while i < ls.len()
        invariant
            i <= ls@.len(),
            ls.deep_view() == lines(output@),
            found matches Some(f) ==> last_phc_field(ls.deep_view().take(i as int)) == Some(f@),
            found is None ==> last_phc_field(ls.deep_view().take(i as int)) is None,
        decreases ls@.len() - i,
    {
        assert(ls.deep_view().take(i + 1).drop_last() =~= ls.deep_view().take(i as int));
        assert(ls.deep_view().take(i + 1).last() == ls@[i as int]@);
        match phc_field_of(&ls[i]) {
            Some(f) => {
                found = Some(f);
            },
            None => {},
        }
        i += 1;
    }
    assert(ls.deep_view().take(ls@.len() as int) =~= ls.deep_view());
    match found {
        None => Err(String::from_str("Failed to find PTP Hardware Clock index from ethtool output")),
        Some(f) => match parse_u32(f.as_str()) {
            Ok(n) => Ok(n),
            Err(k) => {
                let e = int_error_message(k);
                Err(concat2("Failed to parse PHC index: ", e.as_str()))
            },
        },
    }
}

impl NetdevsimDevice {
    /// The shell line that creates netdevsim device `id` with `ports` ports
    /// and `queues` queues.
    pub fn new_device_script(id: u32, ports: u8, queues: u8) -> (r: String)
        ensures
            r@ == "echo "@ + decimal(id as nat) + " "@ + decimal(ports as nat) + " "@ + decimal(
                queues as nat,
            ) + " > /sys/bus/netdevsim/new_device"@,
    {
        let mut r = String::from_str("echo ");
        push_decimal(&mut r, id as u64);
        r.append(" ");
        push_decimal(&mut r, ports as u64);
        r.append(" ");
        push_decimal(&mut r, queues as u64);
        r.append(" > /sys/bus/netdevsim/new_device");
        r
    }

    /// The arguments of `ip` that run `script` under `sh` in namespace `ns`.
    pub fn shell_args(ns: &NetNamespace, script: String) -> (r: Vec<String>)
        ensures
            r.deep_view() == seq!["netns"@, "exec"@, ns.name@, "sh"@, "-c"@, script@],
    {
        let r = vec![
            String::from_str("netns"),
            String::from_str("exec"),
            ns.name.clone(),
            String::from_str("sh"),
            String::from_str("-c"),
            script,
        ];
        assert(r.deep_view() =~= seq!["netns"@, "exec"@, ns.name@, "sh"@, "-c"@, script@]);
        r
    }

    /// The sysfs directory of the network devices of device `id`.
    pub fn device_net_dir(id: u32) -> (r: String)
        ensures
            r@ == device_net_dir(id),
    {
        let mut r = String::from_str("/sys/bus/netdevsim/devices/netdevsim");
        push_decimal(&mut r, id as u64);
        r.append("/net");
        r
    }

    /// The names of the ports of device `id`, one per line of the listing of
    /// its sysfs directory, or why the listing failed.
    pub fn device_names(id: u32, listing: Result<String, String>) -> (r: Result<Vec<String>, String>)
        ensures
            listing matches Ok(out) ==> (r matches Ok(names) && names.deep_view() == lines(out@)),
            listing matches Err(e) ==> (r matches Err(m) && m@ == "Failed to list devices in "@
                + device_net_dir(id) + ": "@ + e@),
    {
        match listing {
            Ok(out) => Ok(lines_of(out.as_str())),
            Err(e) => {
                let path = Self::device_net_dir(id);
                Err(concat4("Failed to list devices in ", path.as_str(), ": ", e.as_str()))
            },
        }
    }

    /// The sysfs file that holds the ifindex of port `name` of device `id`.
    pub fn ifindex_file(id: u32, name: &str) -> (r: String)
        ensures
            r@ == ifindex_file(id, name@),
    {
        let mut r = Self::device_net_dir(id);
        r.append("/");
        r.append(name);
        r.append("/ifindex");
        r
    }

    /// The port named `name` of device `id` in `in_namespace`, with id
    /// `port_id`, given what reading its ifindex file gave.
    pub fn port_from_ifindex(
        in_namespace: &Arc<NetNamespace>,
        id: u32,
        name: String,
        read: &Result<String, String>,
        port_id: u64,
    ) -> (r: Result<NetdevsimPort, String>)
        ensures
            match ifindex_spec(id, name@, read_view(*read)) {
                Ok(n) => r matches Ok(p) && p@ == (PortView {
                    namespace: in_namespace@,
                    ifindex: n,
                    name: name@,
                    port_id,
                }),
                Err(m) => r matches Err(e) && e@ == m,
            },
    {
        match read {
            Err(e) => {
                let path = Self::ifindex_file(id, name.as_str());
                Err(concat4("Failed to read ifindex from ", path.as_str(), ": ", e.as_str()))
            },
            Ok(out) => {
                let v = chars_of(out.as_str());
                let (a, b) = trim_bounds(&v, 0, v.len());
                assert(v@.subrange(0, v@.len() as int) =~= v@);
                let t = substring(out.as_str(), a, b);
                match parse_u32(t.as_str()) {
                    Ok(ifindex) => Ok(
                        NetdevsimPort { namespace: share(in_namespace), ifindex, name, port_id },
                    ),
                    Err(k) => {
                        let e = int_error_message(k);
                        Err(concat2("Failed to parse ifindex: ", e.as_str()))
                    },
                }
            },
        }
    }

    /// The ports of device `id` in `in_namespace`: one per listed name, in
    /// order, each with the ifindex its read gave and the ids `first_port_id`,
    /// `first_port_id + 1`, ...; or the first read that fails or does not parse.
    pub fn ports_from_reads(
        in_namespace: &Arc<NetNamespace>,
        id: u32,
        names: &Vec<String>,
        reads: &Vec<Result<String, String>>,
        first_port_id: u64,
    ) -> (r: Result<Vec<Arc<NetdevsimPort>>, String>)
        requires
            reads@.len() == names@.len(),
            first_port_id + names@.len() <= u64::MAX,
        ensures
            match ports_spec(
                in_namespace@,
                id,
                names.deep_view(),
                reads@.map_values(|x: Result<String, String>| read_view(x)),
                first_port_id as nat,
            ) {
                Ok(ps) => r matches Ok(v) && ports_view(v@) == ps,
                Err(m) => r matches Err(e) && e@ == m,
            },
    {
        let ghost rv = reads@.map_values(|x: Result<String, String>| read_view(x));
        let mut ports: Vec<Arc<NetdevsimPort>> = Vec::new();
        let mut i: usize = 0;
        assert(names.deep_view().take(0) =~= Seq::<Seq<char>>::empty());
        assert(rv.take(0) =~= Seq::<Result<Seq<char>, Seq<char>>>::empty());
        assert(ports_view(ports@) =~= Seq::<PortView>::empty());
        while i < names.len()
            invariant
                i <= names@.len(),
                reads@.len() == names@.len(),
                first_port_id + names@.len() <= u64::MAX,
                rv == reads@.map_values(|x: Result<String, String>| read_view(x)),
                ports_spec(
                    in_namespace@,
                    id,
                    names.deep_view().take(i as int),
                    rv.take(i as int),
                    first_port_id as nat,
                ) == Ok::<Seq<PortView>, Seq<char>>(ports_view(ports@)),
            decreases names@.len() - i,
        {
            let ghost pre_names = names.deep_view().take(i + 1);
            let ghost pre_reads = rv.take(i + 1);
            assert(pre_names.drop_last() =~= names.deep_view().take(i as int));
            assert(pre_reads.drop_last() =~= rv.take(i as int));
            assert(pre_names.last() == names@[i as int]@);
            assert(pre_reads.last() == read_view(reads@[i as int]));
            let port_id: u64 = first_port_id + i as u64;
            match Self::port_from_ifindex(in_namespace, id, names[i].clone(), &reads[i], port_id) {
                Ok(p) => {
                    let ghost before = ports_view(ports@);
                    ports.push(Arc::new(p));
                    assert(ports_view(ports@) =~= before.push(p@));
                },
                Err(e) => {
                    proof {
                        lemma_ports_spec_err(
                            in_namespace@,
                            id,
                            names.deep_view(),
                            rv,
                            first_port_id as nat,
                            i + 1,
                        );
                    }
                    return Err(e);
                },
            }
            i += 1;
        }
        assert(names.deep_view().take(i as int) =~= names.deep_view());
        assert(rv.take(i as int) =~= rv);
        Ok(ports)
    }

    /// The arguments of `ethtool` that query the clock of a device's first
    /// port; `None` for a device with no port.
    pub fn ethtool_args(ports: &Vec<Arc<NetdevsimPort>>) -> (r: Option<Vec<String>>)
        ensures
            ports@.len() == 0 ==> r is None,
            ports@.len() > 0 ==> (r matches Some(a) && a.deep_view() == seq![
                "-T"@,
                ports@[0]@.name,
            ]),
    {
        if ports.len() == 0 {
            None
        } else {
            let r = vec![String::from_str("-T"), ports[0].name.clone()];
            assert(r.deep_view() =~= seq!["-T"@, ports@[0]@.name]);
            Some(r)
        }
    }

    /// The device `id` in `in_namespace` with `ports`, its clock index taken
    /// from the output of `ethtool -T` on its first port.
    pub fn new(
        in_namespace: Arc<NetNamespace>,
        id: u32,
        ports: Vec<Arc<NetdevsimPort>>,
        ethtool_output: &str,
    ) -> (r: Result<NetdevsimDevice, String>)
        ensures
            phc_index_spec(ethtool_output@) matches Ok(phc) ==> (r matches Ok(d) && d@
                == DeviceView {
                ident: id,
                phc_index: phc,
                ports: ports_view(ports@),
                namespace: in_namespace@,
            }),
            phc_index_spec(ethtool_output@) matches Err(m) ==> (r matches Err(e) && e@ == m),
    {
        match phc_index_of(ethtool_output) {
            Ok(phc_index) => Ok(
                NetdevsimDevice { ident: id, phc_index, ports, namespace: in_namespace },
            ),
            Err(e) => Err(e),
        }
    }

    /// The shell line that removes this device from the netdevsim bus.
    pub fn remove_device_script(&self) -> (r: String)
        ensures
            r@ == "echo "@ + decimal(self.ident as nat) + " > /sys/bus/netdevsim/del_device"@,
    {
        let mut r = String::from_str("echo ");
        push_decimal(&mut r, self.ident as u64);
        r.append(" > /sys/bus/netdevsim/del_device");
        r
    }

    /// What running the removal gives: only a failure to run it is an error.
    pub fn remove_device(&self, outcome: &CommandOutcome) -> (r: Result<(), String>)
        ensures
            outcome@ matches OutcomeView::Failed(e) ==> (r matches Err(m) && m@
                == execute_error_text(e)),
            outcome@ is Exited ==> r is Ok,
    {
        require_ran(outcome)
    }
}

impl LinkedDevices {
    /// Whether this link joins `dev1` and `dev2`, in either order.
    pub fn matches(&self, dev1: &Arc<NetdevsimPort>, dev2: &Arc<NetdevsimPort>) -> (b: bool)
        ensures
            b == link_joins(self@, dev1@, dev2@),
    {
        (self.device1.same_port(dev1) && self.device2.same_port(dev2)) || (self.device1.same_port(
            dev2,
        ) && self.device2.same_port(dev1))
    }

    /// The request that names both ports of a link.
    pub fn pair_request(nsim1: &NetdevsimPort, nsim2: &NetdevsimPort) -> (r: String)
        ensures
            r@ == pair_request(nsim1@, nsim2@),
    {
        let mut r = String::new();
        push_signed_decimal(&mut r, nsim1.namespace.file_descriptor);
        r.append(":");
        push_decimal(&mut r, nsim1.ifindex as u64);
        r.append(" ");
        push_signed_decimal(&mut r, nsim2.namespace.file_descriptor);
        r.append(":");
        push_decimal(&mut r, nsim2.ifindex as u64);
        assert(r@ =~= pair_request(nsim1@, nsim2@));
        r
    }

    /// The sysfs file that links two ports.
    pub fn link_path() -> (r: &'static str)
        ensures
            r@ == "/sys/bus/netdevsim/link_device"@,
    {
        "/sys/bus/netdevsim/link_device"
    }

    /// The sysfs file that unlinks two ports.
    pub fn unlink_path() -> (r: &'static str)
        ensures
            r@ == "/sys/bus/netdevsim/unlink_device"@,
    {
        "/sys/bus/netdevsim/unlink_device"
    }

    /// The link between `nsim1` and `nsim2`, once their link request is written.
    pub fn link(
        nsim1: Arc<NetdevsimPort>,
        nsim2: Arc<NetdevsimPort>,
        written: Result<(), String>,
    ) -> (r: Result<LinkedDevices, String>)
        ensures
            written is Ok ==> (r matches Ok(l) && l@ == LinkView {
                device1: nsim1@,
                device2: nsim2@,
            }),
            written matches Err(e) ==> (r matches Err(m) && m@ == write_error_text(
                "/sys/bus/netdevsim/link_device"@,
                e@,
            )),
    {
        match write_result(Self::link_path(), written) {
            Ok(()) => Ok(LinkedDevices { device1: nsim1, device2: nsim2 }),
            Err(e) => Err(e),
        }
    }

    /// The request that parts the two ports of this link.
    pub fn unlink_request(&self) -> (r: String)
        ensures
            r@ == pair_request(self@.device1, self@.device2),
    {
        Self::pair_request(&self.device1, &self.device2)
    }
}

/// `find_from` skips characters other than `c` and stops at the first `c`.
proof fn lemma_find_at(s: Seq<char>, c: char, from: int, x: int)
    requires
        0 <= from <= x <= s.len(),
        forall|k: int| from <= k < x ==> s[k] != c,
        x == s.len() || s[x] == c,
    ensures
        find_from(s, c, from) == x,
    decreases x - from,
{
    if from < x {
        lemma_find_at(s, c, from + 1, x);
    }
}

/// Among lines of which exactly the one at `j` names the clock, the last
/// line that names it is that one.
proof fn lemma_last_phc_unique(ls: Seq<Seq<char>>, j: int)
    requires
        0 <= j < ls.len(),
        is_phc_line(ls[j]),
        forall|m: int| 0 <= m < ls.len() && m != j ==> !is_phc_line(#[trigger] ls[m]),
    ensures
        last_phc_field(ls) == Some(phc_field(ls[j])),
    decreases ls.len(),
{
    if j < ls.len() - 1 {
        let d = ls.drop_last();
        assert forall|m: int| 0 <= m < d.len() && m != j implies !is_phc_line(#[trigger] d[m]) by {
            assert(d[m] == ls[m]);
        }
        assert(!is_phc_line(ls[ls.len() - 1]));
        lemma_last_phc_unique(d, j);
    }
}

/// The clock index comes from the one line whose trimmed text begins with
/// `"Hardware timestamp provider index:"`: when exactly one line does, and
/// it holds the decimal `k` after that, with whitespace between, the index
/// is `k`, whatever the other lines say.
pub proof fn lemma_phc_index_from_its_line(output: Seq<char>, j: int, pad: Seq<char>, k: u32)
    requires
        0 <= j < lines(output).len(),
        trim(lines(output)[j]) == "Hardware timestamp provider index:"@ + pad + decimal(k as nat),
        forall|i: int| 0 <= i < pad.len() ==> is_unicode_whitespace(#[trigger] pad[i]),
        forall|m: int|
            0 <= m < lines(output).len() && m != j ==> !has_prefix(
                trim(#[trigger] lines(output)[m]),
                "Hardware timestamp provider index:"@,
            ),
    ensures
        phc_index_spec(output) == Ok::<u32, Seq<char>>(k),
{
    reveal_strlit("Hardware timestamp provider index:");
    let p = "Hardware timestamp provider index:"@;
    let d = decimal(k as nat);
    let t = p + pad + d;
    let ls = lines(output);
    assert(p.len() == 34);
    assert(t.subrange(0, 34) =~= p);
    assert(is_phc_line(ls[j]));
    assert forall|m: int| 0 <= m < ls.len() && m != j implies !is_phc_line(#[trigger] ls[m]) by {
        assert(!has_prefix(trim(ls[m]), p));
    }
    lemma_last_phc_unique(ls, j);
    lemma_decimal_digits(k as nat);
    assert forall|x: int| 0 <= x < 33 implies t[x] != ':' by {
        assert(t[x] == p[x]);
    }
    assert(t[33] == ':');
    lemma_find_at(t, ':', 0, 33);
    assert forall|x: int| 34 <= x < t.len() implies t[x] != ':' by {
        if x < 34 + pad.len() {
            assert(t[x] == pad[x - 34]);
        } else {
            assert(t[x] == d[x - 34 - pad.len()]);
        }
    }
    lemma_find_at(t, ':', 34, t.len() as int);
    assert(t.subrange(34, t.len() as int) =~= pad + d);
    lemma_trim_padded(pad, d);
    lemma_parse_decimal(k as nat);
}

} // verus!
