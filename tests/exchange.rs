use superstack::{
    classify, command_line, needs_recovery, recovery_line, Event, Exchange, Operation, Reply,
    Stage, Step, SuperStackError, VlanError,
};

fn respond(ex: Exchange, text: &str) -> Step {
    ex.step(Event::Response { text: text.to_string() })
}

fn finished(step: Step) -> Result<Reply, VlanError> {
    match step {
        Step::Finish { result } => result,
        Step::Send { line, .. } => panic!("expected the end, got a request to send {:?}", line),
    }
}

fn recovery(step: Step) -> Exchange {
    match step {
        Step::Send { next, line } => {
            assert_eq!(line, "\n");
            next
        }
        Step::Finish { result } => panic!("expected a recovery line, got {:?}", result),
    }
}

#[test]
fn command_lines_match_the_device_dialect() {
    assert_eq!(command_line(&Operation::ListVlans), "bridge vlan summary all");
    assert_eq!(command_line(&Operation::ShowVlan { vlan_id: 12 }), "bridge vlan detail 12");
    assert_eq!(
        command_line(&Operation::CreateVlan { vlan_id: 30, vlan_name: "Lab".to_string() }),
        "bridge vlan create 30 Lab"
    );
    assert_eq!(command_line(&Operation::DeleteVlan { vlan_id: 7 }), "bridge vlan delete 7 yes");
    assert_eq!(
        command_line(&Operation::RenameVlan { vlan_id: 7, vlan_name: "Ops".to_string() }),
        "bridge vlan modify name 7 Ops"
    );
    assert_eq!(
        command_line(&Operation::AddPort { vlan_id: 7, port: 24, tagged: true }),
        "bridge vlan modify addPort 7 1:24 tagged"
    );
    assert_eq!(
        command_line(&Operation::AddPort { vlan_id: 7, port: 3, tagged: false }),
        "bridge vlan modify addPort 7 1:3 untagged"
    );
    assert_eq!(
        command_line(&Operation::RemovePort { vlan_id: 4094, port: 0 }),
        "bridge vlan modify addPort 4094 1:0"
    );
    assert_eq!(
        command_line(&Operation::ShowVlan { vlan_id: u32::MAX }),
        "bridge vlan detail 4294967295"
    );
}

#[test]
fn start_sends_the_command() {
    let (ex, line) = Exchange::start(Operation::DeleteVlan { vlan_id: 9 });
    assert_eq!(line, "bridge vlan delete 9 yes");
    assert!(matches!(ex.stage, Stage::AwaitingReply));
}

#[test]
fn recovery_line_is_a_blank_line() {
    assert_eq!(recovery_line(), "\n");
}

#[test]
fn show_vlan_not_found_recovers_once() {
    let (ex, _) = Exchange::start(Operation::ShowVlan { vlan_id: 5 });
    let next = recovery(respond(ex, "bridge vlan detail 5\nError: \"5\" is invalid.\n"));
    assert!(matches!(next.stage, Stage::Recovering { error: VlanError::VlanNotFound { vlan_id: 5 } }));
    let result = finished(respond(next, "anything"));
    assert_eq!(result.err(), Some(VlanError::VlanNotFound { vlan_id: 5 }));
}

#[test]
fn show_vlan_success_parses_details() {
    let (ex, _) = Exchange::start(Operation::ShowVlan { vlan_id: 5 });
    let text = "Id: 5  Name: Finance  Type: Static\n\nUnit  Untagged  Tagged\nOther: x\n1  3  1,2\n";
    match finished(respond(ex, text)) {
        Ok(Reply::Details { details }) => {
            assert_eq!(details.id, 5);
            assert_eq!(details.name, "Finance");
            assert_eq!(details.untagged, vec![3]);
            assert_eq!(details.tagged, vec![1, 2]);
        }
        other => panic!("unexpected {:?}", other),
    }
}

#[test]
fn show_vlan_malformed_report_is_parse_error() {
    let (ex, _) = Exchange::start(Operation::ShowVlan { vlan_id: 5 });
    assert_eq!(finished(respond(ex, "garbage")).err(), Some(VlanError::Parse));
}

#[test]
fn list_vlans_parses_summary() {
    let (ex, _) = Exchange::start(Operation::ListVlans);
    match finished(respond(ex, "Summary\nId Name\n10  Engineering\n20  Sales\n")) {
        Ok(Reply::Vlans { vlans }) => {
            assert_eq!(vlans.len(), 2);
            assert_eq!((vlans[0].id, vlans[0].name.as_str()), (10, "Engineering"));
            assert_eq!((vlans[1].id, vlans[1].name.as_str()), (20, "Sales"));
        }
        other => panic!("unexpected {:?}", other),
    }
}

#[test]
fn add_port_both_markers_is_vlan_not_found() {
    let op = || Operation::AddPort { vlan_id: 5, port: 9, tagged: true };
    let texts = [
        "\"5\" is invalid. \"1:9\" is invalid.",
        "\"1:9\" is invalid. \"5\" is invalid.",
    ];
    for text in texts {
        let (ex, _) = Exchange::start(op());
        let next = recovery(respond(ex, text));
        assert_eq!(finished(respond(next, "")).err(), Some(VlanError::VlanNotFound { vlan_id: 5 }));
    }
}

#[test]
fn remove_port_both_markers_is_vlan_not_found() {
    for text in ["\"1:9\" is invalid.\n\"5\" is invalid.", "\"5\" is invalid.\"1:9\" is invalid."] {
        let (ex, _) = Exchange::start(Operation::RemovePort { vlan_id: 5, port: 9 });
        let next = recovery(respond(ex, text));
        assert_eq!(finished(respond(next, "")).err(), Some(VlanError::VlanNotFound { vlan_id: 5 }));
    }
}

#[test]
fn add_port_unknown_port() {
    let (ex, _) = Exchange::start(Operation::AddPort { vlan_id: 5, port: 9, tagged: false });
    let next = recovery(respond(ex, "Error: \"1:9\" is invalid."));
    assert_eq!(finished(respond(next, "")).err(), Some(VlanError::PortNotFound { port: 9 }));
}

#[test]
fn add_port_success() {
    let (ex, _) = Exchange::start(Operation::AddPort { vlan_id: 5, port: 9, tagged: false });
    assert!(matches!(finished(respond(ex, "ok")), Ok(Reply::Done)));
}

#[test]
fn marker_of_another_vlan_is_not_a_rejection() {
    let (ex, _) = Exchange::start(Operation::DeleteVlan { vlan_id: 5 });
    assert!(matches!(finished(respond(ex, "\"15\" is invalid.")), Ok(Reply::Done)));
    let (ex, _) = Exchange::start(Operation::RenameVlan { vlan_id: 5, vlan_name: "x".to_string() });
    assert!(matches!(finished(respond(ex, "\"55\" is invalid.")), Ok(Reply::Done)));
}

#[test]
fn delete_vlan_not_found_recovers() {
    let (ex, _) = Exchange::start(Operation::DeleteVlan { vlan_id: 7 });
    let next = recovery(respond(ex, "\"7\" is invalid."));
    assert_eq!(finished(respond(next, "")).err(), Some(VlanError::VlanNotFound { vlan_id: 7 }));
}

#[test]
fn rename_vlan_not_found_recovers() {
    let (ex, _) = Exchange::start(Operation::RenameVlan { vlan_id: 7, vlan_name: "a".to_string() });
    let next = recovery(respond(ex, "x \"7\" is invalid. y"));
    assert_eq!(finished(respond(next, "")).err(), Some(VlanError::VlanNotFound { vlan_id: 7 }));
}

#[test]
fn create_vlan_exists_without_recovery() {
    let (ex, _) = Exchange::start(Operation::CreateVlan { vlan_id: 10, vlan_name: "A".to_string() });
    let result = finished(respond(ex, "Error: VLAN ID in use by another VLAN.\n"));
    assert_eq!(result.err(), Some(VlanError::Exists { vlan_id: 10 }));
}

#[test]
fn create_vlan_success() {
    let (ex, _) = Exchange::start(Operation::CreateVlan { vlan_id: 10, vlan_name: "A".to_string() });
    assert!(matches!(finished(respond(ex, "done")), Ok(Reply::Done)));
}

#[test]
fn session_failure_ends_the_exchange() {
    let (ex, _) = Exchange::start(Operation::ListVlans);
    let r = finished(ex.step(Event::Failed { error: SuperStackError::Timeout }));
    assert_eq!(r.err(), Some(VlanError::Session { cause: SuperStackError::Timeout }));
}

#[test]
fn session_failure_during_recovery() {
    let (ex, _) = Exchange::start(Operation::ShowVlan { vlan_id: 3 });
    let next = recovery(respond(ex, "is invalid."));
    let r = finished(next.step(Event::Failed { error: SuperStackError::NotConnected }));
    assert_eq!(r.err(), Some(VlanError::Session { cause: SuperStackError::NotConnected }));
}

#[test]
fn classify_orders_markers() {
    let text: Vec<char> = "\"1:2\" is invalid. \"3\" is invalid.".chars().collect();
    let op = Operation::AddPort { vlan_id: 3, port: 2, tagged: true };
    assert_eq!(classify(&op, &text), Some(VlanError::VlanNotFound { vlan_id: 3 }));
    let op = Operation::AddPort { vlan_id: 4, port: 2, tagged: true };
    assert_eq!(classify(&op, &text), Some(VlanError::PortNotFound { port: 2 }));
    assert_eq!(classify(&Operation::ListVlans, &text), None);
}

#[test]
fn recovery_only_for_not_found() {
    assert!(needs_recovery(&VlanError::VlanNotFound { vlan_id: 1 }));
    assert!(needs_recovery(&VlanError::PortNotFound { port: 1 }));
    assert!(!needs_recovery(&VlanError::Exists { vlan_id: 1 }));
    assert!(!needs_recovery(&VlanError::Parse));
}

#[test]
fn session_error_converts() {
    assert_eq!(
        VlanError::from(SuperStackError::Login),
        VlanError::Session { cause: SuperStackError::Login }
    );
}
