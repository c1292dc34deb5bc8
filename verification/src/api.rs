//! The answers of the simulation's control API.
use vstd::prelude::*;
use crate::text::{decimal, push_decimal};

verus! {

/// `"node <n1> port <p1> <joint> node <n2> port <p2>"`.
pub open spec fn link_phrase(n1: Seq<char>, p1: u8, joint: Seq<char>, n2: Seq<char>, p2: u8) -> Seq<
    char,
> {
    "node "@ + n1 + " port "@ + decimal(p1 as nat) + joint + "node "@ + n2 + " port "@ + decimal(
        p2 as nat,
    )
}

fn push_link_phrase(m: &mut String, n1: &str, p1: u8, joint: &str, n2: &str, p2: u8)
    ensures
        final(m)@ == old(m)@ + link_phrase(n1@, p1, joint@, n2@, p2),
{
    m.append("node ");
    m.append(n1);
    m.append(" port ");
    push_decimal(m, p1 as u64);
    m.append(joint);
    m.append("node ");
    m.append(n2);
    m.append(" port ");
    push_decimal(m, p2 as u64);
    assert(m@ =~= old(m)@ + link_phrase(n1@, p1, joint@, n2@, p2));
}

/// The answer to a request to link port `port1` of `node1` to port `port2`
/// of `node2`, given what the simulation made of it.
pub fn link_response(node1: &str, port1: u8, node2: &str, port2: u8, result: &Result<(), String>) -> (r:
    String)
    ensures
        result is Ok ==> r@ == "Linked "@ + link_phrase(node1@, port1, " to "@, node2@, port2),
        result matches Err(e) ==> r@ == "Failed to link "@ + link_phrase(
            node1@,
            port1,
            " to "@,
            node2@,
            port2,
        ) + ": "@ + e@,
{
    match result {
        Ok(()) => {
            let mut m = String::from_str("Linked ");
            push_link_phrase(&mut m, node1, port1, " to ", node2, port2);
            m
        },
        Err(e) => {
            let mut m = String::from_str("Failed to link ");
            push_link_phrase(&mut m, node1, port1, " to ", node2, port2);
            m.append(": ");
            m.append(e.as_str());
            m
        },
    }
}

/// The answer to a request to unlink port `port1` of `node1` from port
/// `port2` of `node2`, given what the simulation made of it.
pub fn unlink_response(node1: &str, port1: u8, node2: &str, port2: u8, result: &Result<(), String>) -> (r:
    String)
    ensures
        result is Ok ==> r@ == "Unlinked "@ + link_phrase(node1@, port1, " from "@, node2@, port2),
        result matches Err(e) ==> r@ == "Failed to unlink "@ + link_phrase(
            node1@,
            port1,
            " from "@,
            node2@,
            port2,
        ) + ": "@ + e@,
{
    match result {
        Ok(()) => {
            let mut m = String::from_str("Unlinked ");
            push_link_phrase(&mut m, node1, port1, " from ", node2, port2);
            m
        },
        Err(e) => {
            let mut m = String::from_str("Failed to unlink ");
            push_link_phrase(&mut m, node1, port1, " from ", node2, port2);
            m.append(": ");
            m.append(e.as_str());
            m
        },
    }
}

/// The answer to a request to set the delay of port `port` of `node`:
/// `None` when there is no such node, else what setting it gave.
pub fn delay_response(
    node: &str,
    port: u8,
    sec: u32,
    nsec: u32,
    result: &Option<Result<(), String>>,
) -> (r: String)
    ensures
        result is None ==> r@ == "Node "@ + node@ + " not found"@,
        result matches Some(Ok(())) ==> r@ == "Set delay on node "@ + node@ + " port "@ + decimal(
            port as nat,
        ) + " to "@ + decimal(sec as nat) + " sec and "@ + decimal(nsec as nat) + " nsec"@,
        result matches Some(Err(e)) ==> r@ == "Failed to set delay on node "@ + node@ + " port "@
            + decimal(port as nat) + ": "@ + e@,
{
    match result {
        None => {
            let mut m = String::from_str("Node ");
            m.append(node);
            m.append(" not found");
            m
        },
        Some(Ok(())) => {
            let mut m = String::from_str("Set delay on node ");
            m.append(node);
            m.append(" port ");
            push_decimal(&mut m, port as u64);
            m.append(" to ");
            push_decimal(&mut m, sec as u64);
            m.append(" sec and ");
            push_decimal(&mut m, nsec as u64);
            m.append(" nsec");
            m
        },
        Some(Err(e)) => {
            let mut m = String::from_str("Failed to set delay on node ");
            m.append(node);
            m.append(" port ");
            push_decimal(&mut m, port as u64);
            m.append(": ");
            m.append(e.as_str());
            m
        },
    }
}

} // verus!
