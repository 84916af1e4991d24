use rpi_client::Interface;
use rpi_client::parser::ParseFault;
use rpi_client::parser::parse_interface_table;
use rpi_client::parser::parse_ports;
use rpi_client::parser::parse_vlan_table;
use rpi_client::parser::resolve_port;

fn iface(int_type: &str, module: u32, number: u32) -> Interface {
    Interface {
        int_type: int_type.to_string(),
        module,
        number,
        ip_address: "unassigned".to_string(),
        status: "up".to_string(),
    }
}

fn basic_interfaces() -> Vec<(u32, Interface)> {
    vec![(0, iface("FastEthernet", 0, 1)), (1, iface("FastEthernet", 0, 2))]
}

// Column layout: Name at 5, Status at 20, Ports at 32.
fn vlan_header() -> String {
    format!("{:<5}{:<15}{:<12}{}", "VLAN", "Name", "Status", "Ports")
}

fn vlan_line(nr: &str, name: &str, status: &str, ports: &str) -> String {
    format!("{:<5}{:<15}{:<12}{}", nr, name, status, ports)
}

#[test]
fn scenario_vlan_record_parses_to_fields() {
    let response = format!(
        "sh vlan brief\n{}\n{}",
        vlan_header(),
        vlan_line("10", "Engineering", "active", "Fa0/1, Fa0/2"),
    );
    let ifs = basic_interfaces();
    let vlans = parse_vlan_table(&response, &ifs).unwrap();
    assert_eq!(vlans.len(), 1);
    let v = vlans.get(&10).unwrap();
    assert_eq!(v.name, "Engineering");
    assert_eq!(v.status, "active");
    assert_eq!(v.ports, vec![0, 1]);
}

#[test]
fn rescrape_same_text_gives_identical_map() {
    let response = format!(
        "sh vlan brief\n{}\n{}\n{}",
        vlan_header(),
        vlan_line("10", "Engineering", "active", "Fa0/1"),
        vlan_line("20", "Sales", "active", "Fa0/2"),
    );
    let ifs = basic_interfaces();
    let first = parse_vlan_table(&response, &ifs).unwrap();
    let second = parse_vlan_table(&response, &ifs).unwrap();
    assert_eq!(first.len(), second.len());
    for (nr, v) in &first {
        let w = second.get(nr).unwrap();
        assert_eq!(v.name, w.name);
        assert_eq!(v.status, w.status);
        assert_eq!(v.ports, w.ports);
    }
}

#[test]
fn continuation_line_extends_last_record_in_order() {
    let continuation = format!("{:<32}{}", "", "Fa0/2");
    let response = format!(
        "sh vlan brief\n{}\n{}\n{}",
        vlan_header(),
        vlan_line("10", "Engineering", "active", "Fa0/1"),
        continuation,
    );
    let ifs = basic_interfaces();
    let vlans = parse_vlan_table(&response, &ifs).unwrap();
    let v = vlans.get(&10).unwrap();
    assert_eq!(v.ports, vec![0, 1]);
}

#[test]
fn continuation_without_record_fails() {
    let continuation = format!("{:<32}{}", "", "Fa0/1");
    let response = format!("sh vlan brief\n{}\n{}", vlan_header(), continuation);
    let ifs = basic_interfaces();
    let err = parse_vlan_table(&response, &ifs).unwrap_err();
    assert_eq!(err, ParseFault::ContinuationWithoutRecord);
}

#[test]
fn unknown_interface_reference_fails_not_dropped() {
    let response = format!(
        "sh vlan brief\n{}\n{}",
        vlan_header(),
        vlan_line("10", "Engineering", "active", "Ga0/9"),
    );
    let ifs = basic_interfaces();
    let err = parse_vlan_table(&response, &ifs).unwrap_err();
    assert_eq!(err, ParseFault::UnknownPort);
}

#[test]
fn dash_separator_lines_are_skipped() {
    let response = format!(
        "sh vlan brief\n{}\n---- ----------- ------ -----\n{}",
        vlan_header(),
        vlan_line("10", "Engineering", "active", ""),
    );
    let ifs = basic_interfaces();
    let vlans = parse_vlan_table(&response, &ifs).unwrap();
    assert!(vlans.get(&10).unwrap().ports.is_empty());
}

#[test]
fn empty_response_parses_to_empty_tables() {
    let ifs = basic_interfaces();
    assert!(parse_vlan_table("", &ifs).unwrap().is_empty());
    let (map, list) = parse_interface_table("").unwrap();
    assert!(map.is_empty());
    assert!(list.is_empty());
}

#[test]
fn duplicate_vlan_number_keeps_last_record() {
    let response = format!(
        "sh vlan brief\n{}\n{}\n{}",
        vlan_header(),
        vlan_line("10", "First", "active", ""),
        vlan_line("10", "Second", "suspended", ""),
    );
    let ifs = basic_interfaces();
    let vlans = parse_vlan_table(&response, &ifs).unwrap();
    assert_eq!(vlans.len(), 1);
    let v = vlans.get(&10).unwrap();
    assert_eq!(v.name, "Second");
    assert_eq!(v.status, "suspended");
}

#[test]
fn header_between_records_rebinds_column_offsets() {
    let wide_header = format!("{:<5}{:<20}{:<12}{}", "VLAN", "Name", "Status", "Ports");
    let wide_line = format!("{:<5}{:<20}{:<12}{}", "30", "Wide", "active", "");
    let response = format!(
        "sh vlan brief\n{}\n{}\n{}\n{}",
        vlan_header(),
        vlan_line("10", "Narrow", "active", ""),
        wide_header,
        wide_line,
    );
    let ifs = basic_interfaces();
    let vlans = parse_vlan_table(&response, &ifs).unwrap();
    assert_eq!(vlans.get(&10).unwrap().name, "Narrow");
    assert_eq!(vlans.get(&30).unwrap().name, "Wide");
}

#[test]
fn port_reference_too_short_is_format_fault() {
    let ifs = basic_interfaces();
    assert_eq!(resolve_port(&ifs, "F"), Err(ParseFault::PortFormat));
}

#[test]
fn port_reference_without_slash_is_format_fault() {
    let ifs = basic_interfaces();
    assert_eq!(resolve_port(&ifs, "Fa01"), Err(ParseFault::PortFormat));
}

#[test]
fn port_reference_bad_module_is_module_fault() {
    let ifs = basic_interfaces();
    assert_eq!(resolve_port(&ifs, "Fax/1"), Err(ParseFault::PortModule));
}

#[test]
fn port_reference_bad_number_is_number_fault() {
    let ifs = basic_interfaces();
    assert_eq!(resolve_port(&ifs, "Fa0/x"), Err(ParseFault::PortNumber));
}

#[test]
fn port_reference_is_trimmed_before_resolution() {
    let ifs = basic_interfaces();
    assert_eq!(resolve_port(&ifs, "  Fa0/2  "), Ok(1));
}

#[test]
fn port_list_resolves_in_encounter_order() {
    let ifs = basic_interfaces();
    assert_eq!(parse_ports(&ifs, "Fa0/2,Fa0/1"), Ok(vec![1, 0]));
    assert_eq!(parse_ports(&ifs, ""), Ok(vec![]));
}

#[test]
fn duplicate_interface_entries_resolve_to_last_id() {
    let ifs = vec![
        (0, iface("FastEthernet", 0, 1)),
        (1, iface("FastEthernet", 0, 1)),
    ];
    assert_eq!(resolve_port(&ifs, "Fa0/1"), Ok(1));
}

// Column layout: Interface at 0, IP-Address at 23, OK? at 39, Method at 43,
// Status at 50, Protocol at 72.
fn if_header() -> String {
    format!(
        "{:<23}{:<16}{:<4}{:<7}{:<22}{}",
        "Interface", "IP-Address", "OK?", "Method", "Status", "Protocol",
    )
}

fn if_line(name: &str, ip: &str, status: &str) -> String {
    format!("{:<23}{:<16}{:<4}{:<7}{:<22}{}", name, ip, "YES", "unset", status, "up")
}

#[test]
fn interface_table_parses_records_by_line_index() {
    let response = format!(
        "sh ip int brief\n{}\n{}\n{}",
        if_header(),
        if_line("FastEthernet0/1", "unassigned", "up"),
        if_line("GigabitEthernet0/2", "10.0.0.5", "down"),
    );
    let (map, list) = parse_interface_table(&response).unwrap();
    assert_eq!(map.len(), 2);
    assert_eq!(list.len(), 2);
    let fa = map.get(&1).unwrap();
    assert_eq!(fa.int_type, "FastEthernet");
    assert_eq!(fa.module, 0);
    assert_eq!(fa.number, 1);
    assert_eq!(fa.ip_address, "unassigned");
    assert_eq!(fa.status, "up");
    let gi = map.get(&2).unwrap();
    assert_eq!(gi.int_type, "GigabitEthernet");
    assert_eq!(gi.module, 0);
    assert_eq!(gi.number, 2);
    assert_eq!(gi.ip_address, "10.0.0.5");
    assert_eq!(gi.status, "down");
    assert_eq!(list[0].0, 1);
    assert_eq!(list[1].0, 2);
}

#[test]
fn interface_name_without_slash_gets_number_zero() {
    let response = format!("sh ip int brief\n{}\n{}", if_header(), if_line("Vlan1", "unassigned", "up"));
    let (map, _list) = parse_interface_table(&response).unwrap();
    let v = map.get(&1).unwrap();
    assert_eq!(v.int_type, "Vlan");
    assert_eq!(v.module, 1);
    assert_eq!(v.number, 0);
}

#[test]
fn interface_line_without_digit_fails() {
    let response = format!("sh ip int brief\n{}\n{}", if_header(), if_line("abc", "unassigned", "up"));
    let err = parse_interface_table(&response).unwrap_err();
    assert_eq!(err, ParseFault::InterfaceNoDigit);
}

#[test]
fn interface_line_with_bad_module_fails() {
    let response = format!(
        "sh ip int brief\n{}\n{}",
        if_header(),
        if_line("Fax1x/2", "unassigned", "up"),
    );
    let err = parse_interface_table(&response).unwrap_err();
    assert_eq!(err, ParseFault::InterfaceModule);
}
