//! Client-side logic for driving VLAN configuration on a managed switch whose
//! only management surface is a line-oriented text console.
//!
//! The library encodes each operation as the device's command line, sorts the
//! device's free-form answers into typed errors by their markers, parses the
//! VLAN summary and detail reports, and sequences one operation's exchange
//! (command, answer, recovery line) as a state machine that a session drives.

pub mod command;
pub mod error;
pub mod exchange;
pub mod ports;
pub mod report;
pub mod text;

pub use command::{classify, command_line, needs_recovery, recovery_line, Operation};
pub use error::{SuperStackError, VlanError};
pub use exchange::{Event, Exchange, Reply, Stage, Step};
pub use ports::{decode_ports, parse_ports};
pub use report::{parse_vlan_details, parse_vlan_summary, Vlan, VlanDetails};
