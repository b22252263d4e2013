use superstack::{parse_vlan_details, parse_vlan_summary, VlanError};

#[test]
fn summary_two_rows_in_order() {
    let text = "VLAN summary\nId  Name\n10  Engineering\n20  Sales".to_string();
    let vlans = parse_vlan_summary(text).unwrap();
    assert_eq!(vlans.len(), 2);
    assert_eq!(vlans[0].id, 10);
    assert_eq!(vlans[0].name, "Engineering");
    assert_eq!(vlans[1].id, 20);
    assert_eq!(vlans[1].name, "Sales");
}

#[test]
fn summary_ignores_header_content() {
    let text = "123 456\n7  x y z\n10  Engineering\n20  Sales\n".to_string();
    let vlans = parse_vlan_summary(text).unwrap();
    assert_eq!(vlans.len(), 2);
    assert_eq!((vlans[0].id, vlans[0].name.as_str()), (10, "Engineering"));
    assert_eq!((vlans[1].id, vlans[1].name.as_str()), (20, "Sales"));
}

#[test]
fn summary_name_is_trimmed_and_keeps_inner_spaces() {
    let text = "h\nh\n30   Lab Network  \r".to_string();
    let vlans = parse_vlan_summary(text).unwrap();
    assert_eq!(vlans.len(), 1);
    assert_eq!(vlans[0].id, 30);
    assert_eq!(vlans[0].name, "Lab Network");
}

#[test]
fn summary_skips_lines_without_space() {
    let text = "h\nh\n\n10 A\nfooter\n".to_string();
    let vlans = parse_vlan_summary(text).unwrap();
    assert_eq!(vlans.len(), 1);
    assert_eq!(vlans[0].id, 10);
    assert_eq!(vlans[0].name, "A");
}

#[test]
fn summary_with_header_only_is_empty() {
    assert_eq!(parse_vlan_summary("a\nb".to_string()).unwrap().len(), 0);
    assert_eq!(parse_vlan_summary(String::new()).unwrap().len(), 0);
}

#[test]
fn summary_bad_id_is_parse_error() {
    let text = "h\nh\n10  A\nx1  B\n".to_string();
    assert_eq!(parse_vlan_summary(text).err(), Some(VlanError::Parse));
    let text = "h\nh\n 10 A\n".to_string();
    assert_eq!(parse_vlan_summary(text).err(), Some(VlanError::Parse));
}

fn detail_fixture() -> String {
    "Id: 5  Name: Finance  Type: Static\n\nUnit  Untagged  Tagged\n\nOther: x\n1  3  1,2\n"
        .to_string()
}

#[test]
fn details_fixture_parses() {
    let d = parse_vlan_details(detail_fixture()).unwrap();
    assert_eq!(d.id, 5);
    assert_eq!(d.name, "Finance");
    assert_eq!(d.untagged, vec![3]);
    assert_eq!(d.tagged, vec![1, 2]);
}

#[test]
fn details_with_none_and_ranges() {
    let text = "Id: 12    Name: Voice  \nA\nB\nPorts  none  1-3,2-4\n".to_string();
    let d = parse_vlan_details(text).unwrap();
    assert_eq!(d.id, 12);
    assert_eq!(d.name, "Voice");
    assert_eq!(d.untagged, Vec::<u32>::new());
    assert_eq!(d.tagged, vec![1, 2, 3, 2, 3, 4]);
}

#[test]
fn details_too_few_lines_is_parse_error() {
    let text = "Id: 5  Name: Finance\nA\n\nB\n".to_string();
    assert_eq!(parse_vlan_details(text).err(), Some(VlanError::Parse));
}

#[test]
fn details_bad_id_is_parse_error() {
    let text = "Id: five  Name: Finance\nA\nB\nP  3  4\n".to_string();
    assert_eq!(parse_vlan_details(text).err(), Some(VlanError::Parse));
}

#[test]
fn details_missing_name_is_parse_error() {
    let text = "Id: 5\nA\nB\nP  3  4\n".to_string();
    assert_eq!(parse_vlan_details(text).err(), Some(VlanError::Parse));
}

#[test]
fn details_missing_port_column_is_parse_error() {
    let text = "Id: 5  Name: F\nA\nB\nP  3\n".to_string();
    assert_eq!(parse_vlan_details(text).err(), Some(VlanError::Parse));
}

#[test]
fn summary_splits_at_tab() {
    let vlans = parse_vlan_summary("h\nh\n10\tEng".to_string()).unwrap();
    assert_eq!(vlans.len(), 1);
    assert_eq!(vlans[0].id, 10);
    assert_eq!(vlans[0].name, "Eng");
}

#[test]
fn summary_splits_at_mixed_whitespace_run() {
    let vlans = parse_vlan_summary("h\nh\n10\t  Eng Dept\n20 \t Sales\r\n".to_string()).unwrap();
    assert_eq!(vlans.len(), 2);
    assert_eq!((vlans[0].id, vlans[0].name.as_str()), (10, "Eng Dept"));
    assert_eq!((vlans[1].id, vlans[1].name.as_str()), (20, "Sales"));
}

#[test]
fn summary_skips_blank_lines() {
    let vlans = parse_vlan_summary("h\r\nh\r\n10  A\r\n\r\n   \n\t\n".to_string()).unwrap();
    assert_eq!(vlans.len(), 1);
    assert_eq!((vlans[0].id, vlans[0].name.as_str()), (10, "A"));
}
