use rpi_client::InterfaceDTO;
use rpi_client::NetworkDevice;
use rpi_client::StepResult;
use rpi_client::VlanDTO;

fn out(text: &str) -> StepResult {
    StepResult::Output { text: text.to_string() }
}

fn fail(message: &str) -> StepResult {
    StepResult::Failed { message: message.to_string() }
}

fn vlan_header() -> String {
    format!("{:<5}{:<15}{:<12}{}", "VLAN", "Name", "Status", "Ports")
}

fn vlan_line(nr: &str, name: &str, status: &str, ports: &str) -> String {
    format!("{:<5}{:<15}{:<12}{}", nr, name, status, ports)
}

fn if_header() -> String {
    format!(
        "{:<23}{:<16}{:<4}{:<7}{:<22}{}",
        "Interface", "IP-Address", "OK?", "Method", "Status", "Protocol",
    )
}

fn if_line(name: &str, ip: &str, status: &str) -> String {
    format!("{:<23}{:<16}{:<4}{:<7}{:<22}{}", name, ip, "YES", "unset", status, "up")
}

fn if_response() -> String {
    format!(
        "sh ip int brief\n{}\n{}\n{}",
        if_header(),
        if_line("FastEthernet0/1", "unassigned", "up"),
        if_line("FastEthernet0/2", "unassigned", "up"),
    )
}

fn scraped_device() -> NetworkDevice {
    let mut d = NetworkDevice::default();
    d.read_interfaces(&out(&if_response())).unwrap();
    d
}

#[test]
fn default_device_is_the_placeholder() {
    let d = NetworkDevice::default();
    assert_eq!(d.serial_number, "");
    assert_eq!(d.ip_address, "0.0.0.0");
    assert_eq!(d.s_port, "COM69");
    assert_eq!(d.hostname, "Router");
    assert!(d.vlans.is_empty());
    assert!(d.interfaces.is_empty());
    assert!(d.interface_list.is_empty());
    assert_eq!(d.startup_config, "");
    assert_eq!(d.running_config, "");
}

#[test]
fn read_running_config_stores_tail_after_echo_verbatim() {
    let mut d = NetworkDevice::default();
    let r = d.read_running_config(&out("sh running-config\nhostname Router\nend"));
    assert_eq!(r.unwrap(), "Successfully read running-config");
    assert_eq!(d.running_config, "hostname Router\nend");
}

#[test]
fn read_running_config_keeps_inner_line_endings() {
    let mut d = NetworkDevice::default();
    d.read_running_config(&out("sh running-config\r\nhostname Router\r\nend\r\n")).unwrap();
    assert_eq!(d.running_config, "hostname Router\r\nend\r\n");
}

#[test]
fn read_running_config_of_bare_echo_stores_nothing() {
    let mut d = NetworkDevice::default();
    d.read_running_config(&out("sh running-config")).unwrap();
    assert_eq!(d.running_config, "");
}

#[test]
fn read_running_config_failure_keeps_state() {
    let mut d = NetworkDevice::default();
    d.read_running_config(&out("sh running-config\nkept")).unwrap();
    let e = d.read_running_config(&fail("port gone")).unwrap_err();
    assert_eq!(e.message, "port gone");
    assert_eq!(d.running_config, "kept");
}

#[test]
fn read_startup_config_stores_text() {
    let mut d = NetworkDevice::default();
    let r = d.read_startup_config(&out("sh startup-config\nboot"));
    assert_eq!(r.unwrap(), "Successfully read startup-config");
    assert_eq!(d.startup_config, "boot");
}

#[test]
fn read_interfaces_replaces_map_and_list() {
    let d = scraped_device();
    assert_eq!(d.interfaces.len(), 2);
    assert_eq!(d.interface_list.len(), 2);
    assert_eq!(d.interfaces.get(&1).unwrap().number, 1);
    assert_eq!(d.interfaces.get(&2).unwrap().number, 2);
}

#[test]
fn read_interfaces_failure_reports_lookup_message() {
    let mut d = NetworkDevice::default();
    let e = d.read_interfaces(&fail("no carrier")).unwrap_err();
    assert_eq!(e.message, "Couldn't find device");
    assert!(d.interfaces.is_empty());
}

#[test]
fn read_vlans_resolves_against_last_interface_scrape() {
    let mut d = scraped_device();
    let response = format!(
        "sh vlan brief\n{}\n{}",
        vlan_header(),
        vlan_line("10", "Engineering", "active", "Fa0/1, Fa0/2"),
    );
    d.read_vlans(&out(&response)).unwrap();
    let v = d.vlans.get(&10).unwrap();
    assert_eq!(v.name, "Engineering");
    assert_eq!(v.ports, vec![1, 2]);
}

#[test]
fn read_vlans_fault_leaves_prior_vlans() {
    let mut d = scraped_device();
    let good = format!("sh vlan brief\n{}\n{}", vlan_header(), vlan_line("10", "Engineering", "active", ""));
    d.read_vlans(&out(&good)).unwrap();
    let bad = format!("sh vlan brief\n{}\n{}", vlan_header(), vlan_line("20", "Ghost", "active", "Ga9/9"));
    let e = d.read_vlans(&out(&bad)).unwrap_err();
    assert_eq!(e.message, "Couldn't resolve port against interfaces.");
    assert_eq!(d.vlans.len(), 1);
    assert!(d.vlans.contains_key(&10));
}

#[test]
fn read_vlans_before_any_interface_scrape_fails_on_references() {
    let mut d = NetworkDevice::default();
    let response = format!(
        "sh vlan brief\n{}\n{}",
        vlan_header(),
        vlan_line("10", "Engineering", "active", "Fa0/1"),
    );
    let e = d.read_vlans(&out(&response)).unwrap_err();
    assert_eq!(e.message, "Couldn't resolve port against interfaces.");
    assert!(d.vlans.is_empty());
}

#[test]
fn add_vlan_round_trip_yields_named_entry() {
    let mut d = scraped_device();
    let dto = VlanDTO { number: 20, name: "Test".to_string(), interfaces: vec![] };
    let scrape = format!("sh vlan brief\n{}\n{}", vlan_header(), vlan_line("20", "Test", "active", ""));
    let steps = vec![out(""), out(""), out(&scrape)];
    let r = d.add_vlan(&dto, &steps).unwrap();
    assert_eq!(r, "Successfully added vlan.");
    assert_eq!(d.vlans.get(&20).unwrap().name, "Test");
}

#[test]
fn add_vlan_commands_compose_the_session() {
    let dto = VlanDTO { number: 20, name: "Test".to_string(), interfaces: vec![] };
    let cs = NetworkDevice::add_vlan_commands(&dto);
    assert_eq!(cs.len(), 3);
    assert_eq!(cs[0], "en\n conf t\n vlan 20");
    assert_eq!(cs[1], "name Test");
    assert_eq!(cs[2], "sh vlan brief");
}

#[test]
fn add_vlan_reports_failing_step() {
    let mut d = scraped_device();
    let dto = VlanDTO { number: 20, name: "Test".to_string(), interfaces: vec![] };
    let e = d.add_vlan(&dto, &vec![fail("port jammed")]).unwrap_err();
    assert_eq!(e.message, "Couldn't add vlan, the numbering command failed: port jammed");
    let e2 = d.add_vlan(&dto, &vec![out(""), fail("port jammed")]).unwrap_err();
    assert_eq!(
        e2.message,
        "Couldn't add vlan, the naming command failed and the device may hold a half-configured vlan: port jammed",
    );
    assert!(d.vlans.is_empty());
}

#[test]
fn add_vlan_succeeds_even_if_scrape_command_fails() {
    let mut d = scraped_device();
    let dto = VlanDTO { number: 20, name: "Test".to_string(), interfaces: vec![] };
    let r = d.add_vlan(&dto, &vec![out(""), out(""), fail("late failure")]).unwrap();
    assert_eq!(r, "Successfully added vlan.");
    assert!(d.vlans.is_empty());
}

#[test]
fn remove_vlan_rescrapes_on_success() {
    let mut d = scraped_device();
    let seeded = format!(
        "sh vlan brief\n{}\n{}\n{}",
        vlan_header(),
        vlan_line("10", "Engineering", "active", ""),
        vlan_line("20", "Test", "active", ""),
    );
    d.read_vlans(&out(&seeded)).unwrap();
    let after = format!("sh vlan brief\n{}\n{}", vlan_header(), vlan_line("10", "Engineering", "active", ""));
    let r = d.remove_vlan(20, &vec![out(""), out(&after)]).unwrap();
    assert_eq!(r, "Successfully deleted vlan.");
    assert_eq!(d.vlans.len(), 1);
    assert!(!d.vlans.contains_key(&20));
}

#[test]
fn remove_vlan_commands_compose_the_session() {
    let cs = NetworkDevice::remove_vlan_commands(7);
    assert_eq!(cs.len(), 2);
    assert_eq!(cs[0], "en\n conf t\n no vlan 7");
    assert_eq!(cs[1], "sh vlan brief");
}

#[test]
fn get_interface_reports_missing_id() {
    let d = scraped_device();
    assert_eq!(d.get_interface(1).unwrap().number, 1);
    let e = d.get_interface(99).unwrap_err();
    assert_eq!(e.message, "Couldn't find interface.");
}

#[test]
fn configure_interface_commands_embed_the_record() {
    let d = scraped_device();
    let dto = InterfaceDTO {
        ip_address: "10.0.0.1".to_string(),
        mask: "255.255.255.0".to_string(),
        status: "up".to_string(),
    };
    let cs = d.configure_interface_commands(1, &dto).unwrap();
    assert_eq!(
        cs[0],
        "en \n conf t \n interface FastEthernet 0/1\n ip address 10.0.0.1 255.255.255.0 \n no shutdown",
    );
    assert_eq!(cs[1], "sh ip int brief");
    let e = d.configure_interface_commands(99, &dto).unwrap_err();
    assert_eq!(e.message, "Couldn't find interface.");
}

#[test]
fn configure_interface_applies_rescrape() {
    let mut d = scraped_device();
    let dto = InterfaceDTO {
        ip_address: "10.0.0.1".to_string(),
        mask: "255.255.255.0".to_string(),
        status: "up".to_string(),
    };
    let rescrape = format!(
        "sh ip int brief\n{}\n{}",
        if_header(),
        if_line("FastEthernet0/1", "10.0.0.1", "up"),
    );
    d.configure_interface(1, &dto, &vec![out(""), out(&rescrape)]).unwrap();
    assert_eq!(d.interfaces.len(), 1);
    assert_eq!(d.interfaces.get(&1).unwrap().ip_address, "10.0.0.1");
}

#[test]
fn configure_interface_reports_command_failure_with_cause() {
    let mut d = scraped_device();
    let dto = InterfaceDTO {
        ip_address: "10.0.0.1".to_string(),
        mask: "255.255.255.0".to_string(),
        status: "up".to_string(),
    };
    let e = d.configure_interface(1, &dto, &vec![fail("jammed")]).unwrap_err();
    assert_eq!(e.message, "Couldn't configure interface because: jammed");
    assert_eq!(d.interfaces.len(), 2);
}

#[test]
fn configure_interface_unknown_id_is_lookup_error() {
    let mut d = scraped_device();
    let dto = InterfaceDTO {
        ip_address: "10.0.0.1".to_string(),
        mask: "255.255.255.0".to_string(),
        status: "down".to_string(),
    };
    let e = d.configure_interface(99, &dto, &vec![]).unwrap_err();
    assert_eq!(e.message, "Couldn't find interface.");
}

#[test]
fn set_vlans_replaces_the_map() {
    let mut d = NetworkDevice::default();
    let mut m = std::collections::HashMap::new();
    m.insert(
        1,
        rpi_client::Vlan { name: "one".to_string(), status: "active".to_string(), ports: vec![] },
    );
    d.set_vlans(m);
    assert_eq!(d.vlans.len(), 1);
    assert_eq!(d.vlans.get(&1).unwrap().name, "one");
}
