//! Network namespaces: the `ip netns` command lines and what their outcomes mean.
use vstd::prelude::*;
use crate::command::{concat2, concat4, execute_error, execute_error_text, CommandOutcome, OutcomeView};

verus! {

/// A network namespace, with the file descriptor that keeps it open.
pub struct NetNamespace {
    pub file_descriptor: i32,
    pub name: String,
}

/// The plain values of a namespace.
pub struct NetNamespaceView {
    pub file_descriptor: i32,
    pub name: Seq<char>,
}

impl View for NetNamespace {
    type V = NetNamespaceView;

    open spec fn view(&self) -> NetNamespaceView {
        NetNamespaceView { file_descriptor: self.file_descriptor, name: self.name@ }
    }
}

/// The arguments of `ip` that run `command` with `args` inside namespace `name`.
pub open spec fn exec_args_spec(name: Seq<char>, command: Seq<char>, args: Seq<Seq<char>>) -> Seq<
    Seq<char>,
> {
    seq!["netns"@, "exec"@, name, command] + args
}

/// The path of the file that names namespace `name`.
pub open spec fn namespace_file_spec(name: Seq<char>) -> Seq<char> {
    "/var/run/netns/"@ + name
}

impl NetNamespace {
    /// The arguments of `ip` that create namespace `name`.
    pub fn add_args(name: &str) -> (r: Vec<String>)
        ensures
            r.deep_view() == seq!["netns"@, "add"@, name@],
    {
        let r = vec![String::from_str("netns"), String::from_str("add"), String::from_str(name)];
        assert(r.deep_view() =~= seq!["netns"@, "add"@, name@]);
        r
    }

    /// The path of the file that names namespace `name`.
    pub fn namespace_file(name: &str) -> (r: String)
        ensures
            r@ == namespace_file_spec(name@),
    {
        concat2("/var/run/netns/", name)
    }

    /// The namespace that `ip netns add` and the opening of its file give:
    /// the command's failure first, then the file's, else the namespace
    /// with the descriptor of the opened file.
    pub fn create_namespace(name: &str, added: Result<(), String>, opened: Result<i32, String>) -> (r:
        Result<NetNamespace, String>)
        ensures
            added matches Err(e) ==> r matches Err(m) && m@ == execute_error_text(e@),
            added is Ok ==> (opened matches Err(e) ==> r matches Err(m) && m@
                == "Failed to open namespace file: "@ + e@),
            added is Ok ==> (opened matches Ok(fd) ==> r matches Ok(ns) && ns@
                == NetNamespaceView { file_descriptor: fd, name: name@ }),
    {
        match added {
            Err(e) => Err(execute_error(e.as_str())),
            Ok(()) => match opened {
                Err(e) => Err(concat2("Failed to open namespace file: ", e.as_str())),
                Ok(fd) => Ok(NetNamespace { file_descriptor: fd, name: String::from_str(name) }),
            },
        }
    }

    /// The arguments of `ip` that delete this namespace.
    pub fn delete_args(&self) -> (r: Vec<String>)
        ensures
            r.deep_view() == seq!["netns"@, "delete"@, self.name@],
    {
        let r = vec![String::from_str("netns"), String::from_str("delete"), self.name.clone()];
        assert(r.deep_view() =~= seq!["netns"@, "delete"@, self.name@]);
        r
    }

    /// What the outcome of `ip netns delete` means for this namespace.
    pub fn remove_netns(&self, outcome: &CommandOutcome) -> (r: Result<(), String>)
        ensures
            outcome@ matches OutcomeView::Failed(e) ==> r matches Err(m) && m@
                == "Failed to delete namespace "@ + self.name@ + ": "@ + e,
            outcome@ matches OutcomeView::Exited { success, status, .. } ==> (if success {
                r is Ok
            } else {
                r matches Err(m) && m@ == "Failed to delete namespace "@ + self.name@
                    + ": Exit status "@ + status
            }),
    {
        match outcome {
            CommandOutcome::Failed(e) => Err(
                concat4("Failed to delete namespace ", self.name.as_str(), ": ", e.as_str()),
            ),
            CommandOutcome::Exited { success, status, .. } => {
                if *success {
                    Ok(())
                } else {
                    Err(
                        concat4(
                            "Failed to delete namespace ",
                            self.name.as_str(),
                            ": Exit status ",
                            status.as_str(),
                        ),
                    )
                }
            },
        }
    }

    /// The arguments of `ip` that bring the loopback device of this namespace up.
    pub fn loopback_up_args(&self) -> (r: Vec<String>)
        ensures
            r.deep_view() == seq!["-n"@, self.name@, "link"@, "set"@, "lo"@, "up"@],
    {
        let r = vec![
            String::from_str("-n"),
            self.name.clone(),
            String::from_str("link"),
            String::from_str("set"),
            String::from_str("lo"),
            String::from_str("up"),
        ];
        assert(r.deep_view() =~= seq!["-n"@, self.name@, "link"@, "set"@, "lo"@, "up"@]);
        r
    }

    /// What the outcome of bringing the loopback device up means.
    pub fn bring_up_loopback(&self, outcome: &CommandOutcome) -> (r: Result<(), String>)
        ensures
            outcome@ matches OutcomeView::Failed(e) ==> r matches Err(m) && m@
                == execute_error_text(e),
            outcome@ matches OutcomeView::Exited { success, status, .. } ==> (if success {
                r is Ok
            } else {
                r matches Err(m) && m@ == "Failed to bring loopback up in namespace "@ + self.name@
                    + ": Exit status "@ + status
            }),
    {
        match outcome {
            CommandOutcome::Failed(e) => Err(execute_error(e.as_str())),
            CommandOutcome::Exited { success, status, .. } => {
                if *success {
                    Ok(())
                } else {
                    Err(
                        concat4(
                            "Failed to bring loopback up in namespace ",
                            self.name.as_str(),
                            ": Exit status ",
                            status.as_str(),
                        ),
                    )
                }
            },
        }
    }

    /// The arguments of `ip` that run `command` with `args` in this namespace.
    pub fn exec_args(&self, command: &str, args: &[&str]) -> (r: Vec<String>)
        ensures
            r.deep_view() == exec_args_spec(self.name@, command@, args@.map_values(|a: &str| a@)),
    {
        let mut r = vec![
            String::from_str("netns"),
            String::from_str("exec"),
            self.name.clone(),
            String::from_str(command),
        ];
        let ghost head = seq!["netns"@, "exec"@, self.name@, command@];
        assert(r.deep_view() =~= head);
        let mut i: usize = 0;
        while i < args.len()
            invariant
                i <= args@.len(),
                r.deep_view() =~= head + args@.map_values(|a: &str| a@).take(i as int),
            decreases args@.len() - i,
        {
            let ghost before = r.deep_view();
            r.push(String::from_str(args[i]));
            assert(r.deep_view() =~= before.push(args@[i as int]@));
            i += 1;
            assert(args@.map_values(|a: &str| a@).take(i as int) =~= args@.map_values(
                |a: &str| a@,
            ).take(i - 1).push(args@[i - 1]@));
        }
        assert(args@.map_values(|a: &str| a@).take(i as int) =~= args@.map_values(|a: &str| a@));
        r
    }

    /// The message of a command that could not be spawned in a namespace.
    pub fn spawn_error(e: &str) -> (r: String)
        ensures
            r@ == "Failed to spawn command: "@ + e@,
    {
        concat2("Failed to spawn command: ", e)
    }

    /// What the outcome of a command run to its end in this namespace gives:
    /// its output when it succeeded.
    pub fn run_command_in_namespace(&self, outcome: CommandOutcome) -> (r: Result<String, String>)
        ensures
            outcome@ matches OutcomeView::Failed(e) ==> r matches Err(m) && m@
                == execute_error_text(e),
            outcome@ matches OutcomeView::Exited { success, status, stdout } ==> (if success {
                r matches Ok(out) && out@ == stdout
            } else {
                r matches Err(m) && m@ == "Command exited with status: "@ + status
            }),
    {
        match outcome {
            CommandOutcome::Failed(e) => Err(execute_error(e.as_str())),
            CommandOutcome::Exited { success, status, stdout } => {
                if success {
                    Ok(stdout)
                } else {
                    Err(concat2("Command exited with status: ", status.as_str()))
                }
            },
        }
    }
}

} // verus!
