//! The VLAN operations: the command line that each one sends, and how the
//! device's answer to it is classified.
use vstd::prelude::*;
use crate::error::VlanError;
use crate::text::{chars_of, contains, decimal, occurs_in, push_decimal, push_str, string_of};

verus! {

/// One VLAN operation with its arguments.
#[derive(Debug)]
pub enum Operation {
    ListVlans,
    ShowVlan { vlan_id: u32 },
    CreateVlan { vlan_id: u32, vlan_name: String },
    DeleteVlan { vlan_id: u32 },
    RenameVlan { vlan_id: u32, vlan_name: String },
    AddPort { vlan_id: u32, port: u32, tagged: bool },
    /// Open question: this sends the `addPort` command without the
    /// membership word, not a command of its own. Whether the device reads
    /// that as a removal is not confirmed.
    RemovePort { vlan_id: u32, port: u32 },
}

pub open spec fn dec(n: u32) -> Seq<char> {
    decimal(n as nat)
}

/// The port operand of a command: unit 1, then the port.
pub open spec fn port_operand(port: u32) -> Seq<char> {
    "1:"@ + dec(port)
}

/// The command line that an operation sends.
pub open spec fn command_text(op: Operation) -> Seq<char> {
    match op {
        Operation::ListVlans => "bridge vlan summary all"@,
        Operation::ShowVlan { vlan_id } => "bridge vlan detail "@ + dec(vlan_id),
        Operation::CreateVlan { vlan_id, vlan_name } => "bridge vlan create "@ + dec(vlan_id)
            + seq![' '] + vlan_name@,
        Operation::DeleteVlan { vlan_id } => "bridge vlan delete "@ + dec(vlan_id) + " yes"@,
        Operation::RenameVlan { vlan_id, vlan_name } => "bridge vlan modify name "@ + dec(vlan_id)
            + seq![' '] + vlan_name@,
        Operation::AddPort { vlan_id, port, tagged } => "bridge vlan modify addPort "@ + dec(
            vlan_id,
        ) + seq![' '] + port_operand(port) + seq![' '] + (if tagged {
            "tagged"@
        } else {
            "untagged"@
        }),
        Operation::RemovePort { vlan_id, port } => "bridge vlan modify addPort "@ + dec(vlan_id)
            + seq![' '] + port_operand(port),
    }
}

/// What the device prints when an argument names nothing it knows.
pub open spec fn invalid_tail() -> Seq<char> {
    "\" is invalid."@
}

/// The marker of an unknown VLAN id.
pub open spec fn vlan_marker(vlan_id: u32) -> Seq<char> {
    seq!['"'] + dec(vlan_id) + invalid_tail()
}

/// The marker of an unknown port.
pub open spec fn port_marker(port: u32) -> Seq<char> {
    seq!['"'] + port_operand(port) + invalid_tail()
}

/// The marker that the detail command prints for any unknown argument.
pub open spec fn detail_marker() -> Seq<char> {
    "is invalid."@
}

/// The marker of a VLAN id that is taken.
pub open spec fn in_use_marker() -> Seq<char> {
    "VLAN ID in use by another VLAN."@
}

/// The error that the device's answer `text` to `op` reports, if any.
/// Markers are tried in order: an unknown VLAN before an unknown port.
pub open spec fn rejection(op: Operation, text: Seq<char>) -> Option<VlanError> {
    match op {
        Operation::ListVlans => None,
        Operation::ShowVlan { vlan_id } => if occurs_in(detail_marker(), text) {
            Some(VlanError::VlanNotFound { vlan_id })
        } else {
            None
        },
        Operation::CreateVlan { vlan_id, .. } => if occurs_in(in_use_marker(), text) {
            Some(VlanError::Exists { vlan_id })
        } else {
            None
        },
        Operation::DeleteVlan { vlan_id } | Operation::RenameVlan { vlan_id, .. } => if occurs_in(
            vlan_marker(vlan_id),
            text,
        ) {
            Some(VlanError::VlanNotFound { vlan_id })
        } else {
            None
        },
        Operation::AddPort { vlan_id, port, .. } | Operation::RemovePort { vlan_id, port } => {
            if occurs_in(vlan_marker(vlan_id), text) {
                Some(VlanError::VlanNotFound { vlan_id })
            } else if occurs_in(port_marker(port), text) {
                Some(VlanError::PortNotFound { port })
            } else {
                None
            }
        },
    }
}

/// Whether the device is left in an inline edit state by the rejection `e`,
/// from which a blank line brings it back.
pub open spec fn recovers(e: VlanError) -> bool {
    e is VlanNotFound || e is PortNotFound
}

/// The line sent to bring the device back from a rejected argument.
pub open spec fn recovery_text() -> Seq<char> {
    seq!['\n']
}

fn push_port_operand(out: &mut Vec<char>, port: u32)
    ensures
        final(out)@ == old(out)@ + port_operand(port),
{
    push_str(out, "1:");
    push_decimal(out, port);
    assert(final(out)@ =~= old(out)@ + port_operand(port));
}

/// The command line of `op`.
pub fn command_line(op: &Operation) -> (r: String)
    ensures
        r@ == command_text(*op),
{
    let mut out: Vec<char> = Vec::new();
    match op {
        Operation::ListVlans => {
            push_str(&mut out, "bridge vlan summary all");
        },
        Operation::ShowVlan { vlan_id } => {
            push_str(&mut out, "bridge vlan detail ");
            push_decimal(&mut out, *vlan_id);
        },
        Operation::CreateVlan { vlan_id, vlan_name } => {
            push_str(&mut out, "bridge vlan create ");
            push_decimal(&mut out, *vlan_id);
            out.push(' ');
            push_str(&mut out, vlan_name.as_str());
        },
        Operation::DeleteVlan { vlan_id } => {
            push_str(&mut out, "bridge vlan delete ");
            push_decimal(&mut out, *vlan_id);
            push_str(&mut out, " yes");
        },
        Operation::RenameVlan { vlan_id, vlan_name } => {
            push_str(&mut out, "bridge vlan modify name ");
            push_decimal(&mut out, *vlan_id);
            out.push(' ');
            push_str(&mut out, vlan_name.as_str());
        },
        Operation::AddPort { vlan_id, port, tagged } => {
            push_str(&mut out, "bridge vlan modify addPort ");
            push_decimal(&mut out, *vlan_id);
            out.push(' ');
            push_port_operand(&mut out, *port);
            out.push(' ');
            if *tagged {
                push_str(&mut out, "tagged");
            } else {
                push_str(&mut out, "untagged");
            }
        },
        Operation::RemovePort { vlan_id, port } => {
            push_str(&mut out, "bridge vlan modify addPort ");
            push_decimal(&mut out, *vlan_id);
            out.push(' ');
            push_port_operand(&mut out, *port);
        },
    }
    assert(out@ =~= command_text(*op));
    string_of(&out)
}

fn vlan_marker_chars(vlan_id: u32) -> (r: Vec<char>)
    ensures
        r@ == vlan_marker(vlan_id),
{
    let mut out: Vec<char> = Vec::new();
    out.push('"');
    push_decimal(&mut out, vlan_id);
    push_str(&mut out, "\" is invalid.");
    assert(out@ =~= vlan_marker(vlan_id));
    out
}

fn port_marker_chars(port: u32) -> (r: Vec<char>)
    ensures
        r@ == port_marker(port),
{
    let mut out: Vec<char> = Vec::new();
    out.push('"');
    push_port_operand(&mut out, port);
    push_str(&mut out, "\" is invalid.");
    assert(out@ =~= port_marker(port));
    out
}

/// The error that the device's answer `text` to `op` reports, if any.
pub fn classify(op: &Operation, text: &Vec<char>) -> (r: Option<VlanError>)
    ensures
        r == rejection(*op, text@),
{
    match op {
        Operation::ListVlans => None,
        Operation::ShowVlan { vlan_id } => {
            if contains(text, &chars_of("is invalid.")) {
                Some(VlanError::VlanNotFound { vlan_id: *vlan_id })
            } else {
                None
            }
        },
        Operation::CreateVlan { vlan_id, .. } => {
            if contains(text, &chars_of("VLAN ID in use by another VLAN.")) {
                Some(VlanError::Exists { vlan_id: *vlan_id })
            } else {
                None
            }
        },
        Operation::DeleteVlan { vlan_id } | Operation::RenameVlan { vlan_id, .. } => {
            if contains(text, &vlan_marker_chars(*vlan_id)) {
                Some(VlanError::VlanNotFound { vlan_id: *vlan_id })
            } else {
                None
            }
        },
        Operation::AddPort { vlan_id, port, .. } | Operation::RemovePort { vlan_id, port } => {
            if contains(text, &vlan_marker_chars(*vlan_id)) {
                Some(VlanError::VlanNotFound { vlan_id: *vlan_id })
            } else if contains(text, &port_marker_chars(*port)) {
                Some(VlanError::PortNotFound { port: *port })
            } else {
                None
            }
        },
    }
}

/// Whether the rejection `e` leaves the device in a state that the recovery
/// line must clear.
pub fn needs_recovery(e: &VlanError) -> (r: bool)
    ensures
        r == recovers(*e),
{
    match e {
        VlanError::VlanNotFound { .. } | VlanError::PortNotFound { .. } => true,
        _ => false,
    }
}

/// The line sent to bring the device back from a rejected argument.
pub fn recovery_line() -> (r: String)
    ensures
        r@ == recovery_text(),
{
    let mut out: Vec<char> = Vec::new();
    out.push('\n');
    assert(out@ =~= recovery_text());
    string_of(&out)
}

/// `p` occurs in any text that holds it between two others.
pub proof fn lemma_occurs_between(p: Seq<char>, x: Seq<char>, y: Seq<char>)
    ensures
        occurs_in(p, x + p + y),
{
    let t = x + p + y;
    assert(t.subrange(x.len() as int, x.len() + p.len() as int) =~= p);
}

/// An answer to the detail command that names the VLAN id as invalid is
/// classified as an unknown VLAN, and that rejection calls for recovery.
pub proof fn lemma_show_vlan_rejected(vlan_id: u32, text: Seq<char>)
    requires
        occurs_in(vlan_marker(vlan_id), text),
    ensures
        rejection(Operation::ShowVlan { vlan_id }, text) == Some(VlanError::VlanNotFound { vlan_id }),
        recovers(VlanError::VlanNotFound { vlan_id }),
{
    reveal_strlit("\" is invalid.");
    reveal_strlit("is invalid.");
    let m = vlan_marker(vlan_id);
    let i = choose|i: int| 0 <= i && i + m.len() <= text.len() && #[trigger] text.subrange(i, i + m.len()) == m;
    let d = detail_marker();
    let j = i + m.len() - d.len();
    assert(text.subrange(j, j + d.len()) =~= m.subrange(m.len() - d.len(), m.len() as int));
    assert(m.subrange(m.len() - d.len(), m.len() as int) =~= d);
}

/// An answer to a port command that names the VLAN id as invalid is
/// classified as an unknown VLAN, whatever it says of the port.
pub proof fn lemma_vlan_marker_first(vlan_id: u32, port: u32, tagged: bool, text: Seq<char>)
    requires
        occurs_in(vlan_marker(vlan_id), text),
    ensures
        rejection(Operation::AddPort { vlan_id, port, tagged }, text) == Some(
            VlanError::VlanNotFound { vlan_id },
        ),
        rejection(Operation::RemovePort { vlan_id, port }, text) == Some(
            VlanError::VlanNotFound { vlan_id },
        ),
{
}

/// An answer to a port command that holds both the VLAN and the port marker
/// is classified as an unknown VLAN in either order of the two.
pub proof fn lemma_marker_order_irrelevant(
    vlan_id: u32,
    port: u32,
    tagged: bool,
    a: Seq<char>,
    b: Seq<char>,
    c: Seq<char>,
)
    ensures
        rejection(
            Operation::AddPort { vlan_id, port, tagged },
            a + vlan_marker(vlan_id) + b + port_marker(port) + c,
        ) == rejection(
            Operation::AddPort { vlan_id, port, tagged },
            a + port_marker(port) + b + vlan_marker(vlan_id) + c,
        ),
        rejection(
            Operation::AddPort { vlan_id, port, tagged },
            a + vlan_marker(vlan_id) + b + port_marker(port) + c,
        ) == Some(VlanError::VlanNotFound { vlan_id }),
        rejection(
            Operation::RemovePort { vlan_id, port },
            a + vlan_marker(vlan_id) + b + port_marker(port) + c,
        ) == rejection(
            Operation::RemovePort { vlan_id, port },
            a + port_marker(port) + b + vlan_marker(vlan_id) + c,
        ),
        rejection(
            Operation::RemovePort { vlan_id, port },
            a + vlan_marker(vlan_id) + b + port_marker(port) + c,
        ) == Some(VlanError::VlanNotFound { vlan_id }),
{
    let vm = vlan_marker(vlan_id);
    let pm = port_marker(port);
    let t1 = a + vm + b + pm + c;
    let t2 = a + pm + b + vm + c;
    lemma_occurs_between(vm, a, b + pm + c);
    assert(a + vm + (b + pm + c) =~= t1);
    lemma_occurs_between(vm, a + pm + b, c);
    assert(a + pm + b + vm + c =~= t2);
    lemma_vlan_marker_first(vlan_id, port, tagged, t1);
    lemma_vlan_marker_first(vlan_id, port, tagged, t2);
}

/// An answer to the create command that reports the id as taken is
/// classified as an existing VLAN, and that rejection calls for no recovery.
pub proof fn lemma_create_taken(vlan_id: u32, vlan_name: String, text: Seq<char>)
    requires
        occurs_in(in_use_marker(), text),
    ensures
        rejection(Operation::CreateVlan { vlan_id, vlan_name }, text) == Some(
            VlanError::Exists { vlan_id },
        ),
        !recovers(VlanError::Exists { vlan_id }),
{
}

} // verus!
