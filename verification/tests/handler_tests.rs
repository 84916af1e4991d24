use std::collections::HashMap;

use rpi_client::InterfaceDTO;
use rpi_client::NetworkDevice;
use rpi_client::NetworkDevicesHandler;
use rpi_client::StepResult;
use rpi_client::VlanDTO;
use rpi_client::network_devices_handler::probe_hostname;
use rpi_client::network_devices_handler::probe_is_managed;

fn out(text: &str) -> StepResult {
    StepResult::Output { text: text.to_string() }
}

fn fail(message: &str) -> StepResult {
    StepResult::Failed { message: message.to_string() }
}

fn empty_handler() -> NetworkDevicesHandler {
    NetworkDevicesHandler { devices: HashMap::new() }
}

fn one_device_handler() -> NetworkDevicesHandler {
    let mut devices = HashMap::new();
    devices.insert(1, NetworkDevice::default());
    NetworkDevicesHandler { devices }
}

fn vlan_header() -> String {
    format!("{:<5}{:<15}{:<12}{}", "VLAN", "Name", "Status", "Ports")
}

fn vlan_line(nr: &str, name: &str, status: &str, ports: &str) -> String {
    format!("{:<5}{:<15}{:<12}{}", nr, name, status, ports)
}

fn if_response() -> String {
    let header = format!(
        "{:<23}{:<16}{:<4}{:<7}{:<22}{}",
        "Interface", "IP-Address", "OK?", "Method", "Status", "Protocol",
    );
    let line = format!(
        "{:<23}{:<16}{:<4}{:<7}{:<22}{}",
        "FastEthernet0/1", "unassigned", "YES", "unset", "up", "up",
    );
    format!("sh ip int brief\n{}\n{}", header, line)
}

#[test]
fn get_device_on_absent_id_is_an_error_not_a_panic() {
    let handler = empty_handler();
    let e = handler.get_device(999).unwrap_err();
    assert_eq!(e.message, "Couldn't find device.");
}

#[test]
fn get_device_finds_present_id() {
    let handler = one_device_handler();
    assert_eq!(handler.get_device(1).unwrap().hostname, "Router");
}

#[test]
fn add_vlan_on_missing_device_answers_status_400_with_json_body() {
    let mut handler = empty_handler();
    let dto = VlanDTO { number: 20, name: "Test".to_string(), interfaces: vec![] };
    let e = handler.add_vlan(42, &dto, &vec![]).unwrap_err();
    assert_eq!(e.message, "Couldn't find device.");
    assert_eq!(e.http_status(), 400);
    assert_eq!(e.http_body(), "{\"message\":\"Couldn't find device.\"}");
}

#[test]
fn add_vlan_delegates_to_the_device() {
    let mut handler = one_device_handler();
    let dto = VlanDTO { number: 20, name: "Test".to_string(), interfaces: vec![] };
    let scrape = format!("sh vlan brief\n{}\n{}", vlan_header(), vlan_line("20", "Test", "active", ""));
    let r = handler.add_vlan(1, &dto, &vec![out(""), out(""), out(&scrape)]).unwrap();
    assert_eq!(r, "Successfully added vlan.");
    let d = handler.get_device(1).unwrap();
    assert_eq!(d.vlans.get(&20).unwrap().name, "Test");
}

#[test]
fn remove_vlan_on_missing_device_fails() {
    let mut handler = empty_handler();
    let e = handler.remove_vlan(5, 10, &vec![]).unwrap_err();
    assert_eq!(e.message, "Couldn't find device.");
}

#[test]
fn change_hostname_sets_name_once_console_confirms() {
    let mut handler = one_device_handler();
    handler.change_hostname(1, "core-switch", &out("ok")).unwrap();
    assert_eq!(handler.get_device(1).unwrap().hostname, "core-switch");
}

#[test]
fn change_hostname_failure_keeps_name_and_reports() {
    let mut handler = one_device_handler();
    let e = handler.change_hostname(1, "core-switch", &fail("nope")).unwrap_err();
    assert_eq!(e.message, "Couldn't change hostname");
    assert_eq!(handler.get_device(1).unwrap().hostname, "Router");
}

#[test]
fn reload_configs_reads_running_then_startup() {
    let mut handler = one_device_handler();
    let steps = vec![out("sh running-config\nrun-a\nrun-b"), out("sh startup-config\nboot")];
    handler.reload_configs(1, &steps).unwrap();
    let d = handler.get_device(1).unwrap();
    assert_eq!(d.running_config, "run-a\nrun-b");
    assert_eq!(d.startup_config, "boot");
}

#[test]
fn reload_configs_keeps_running_when_startup_read_fails() {
    let mut handler = one_device_handler();
    let steps = vec![out("sh running-config\nrun"), fail("lost")];
    let e = handler.reload_configs(1, &steps).unwrap_err();
    assert_eq!(e.message, "lost");
    let d = handler.get_device(1).unwrap();
    assert_eq!(d.running_config, "run");
    assert_eq!(d.startup_config, "");
}

#[test]
fn configure_interface_on_missing_device_fails() {
    let mut handler = empty_handler();
    let dto = InterfaceDTO {
        ip_address: "10.0.0.1".to_string(),
        mask: "255.255.255.0".to_string(),
        status: "up".to_string(),
    };
    let e = handler.configure_interface(3, 1, &dto, &vec![]).unwrap_err();
    assert_eq!(e.message, "Couldn't find device.");
}

#[test]
fn bulk_read_interfaces_updates_each_listed_device() {
    let mut handler = one_device_handler();
    handler.read_interfaces(&vec![(1, out(&if_response()))]).unwrap();
    assert_eq!(handler.get_device(1).unwrap().interfaces.len(), 1);
}

#[test]
fn bulk_read_interfaces_stops_at_first_failure() {
    let mut devices = HashMap::new();
    devices.insert(1, NetworkDevice::default());
    devices.insert(2, NetworkDevice::default());
    let mut handler = NetworkDevicesHandler { devices };
    let e = handler
        .read_interfaces(&vec![(1, fail("dead")), (2, out(&if_response()))])
        .unwrap_err();
    assert_eq!(e.message, "Couldn't find device");
    assert!(handler.get_device(2).unwrap().interfaces.is_empty());
}

#[test]
fn bulk_read_vlans_skips_unknown_ids_and_failures() {
    let mut handler = one_device_handler();
    handler.read_interfaces(&vec![(1, out(&if_response()))]).unwrap();
    let table = format!(
        "sh vlan brief\n{}\n{}",
        vlan_header(),
        vlan_line("10", "Engineering", "active", "Fa0/1"),
    );
    handler.read_vlans(&vec![(7, out(&table)), (1, fail("noise")), (1, out(&table))]);
    let d = handler.get_device(1).unwrap();
    assert_eq!(d.vlans.get(&10).unwrap().ports, vec![1]);
}

#[test]
fn register_devices_assigns_sequential_ids_in_encounter_order() {
    let probes = vec![
        ("/dev/ttyUSB0".to_string(), "core".to_string()),
        ("/dev/ttyUSB1".to_string(), "edge".to_string()),
    ];
    let handler = NetworkDevicesHandler::register_devices(&probes);
    assert_eq!(handler.devices.len(), 2);
    let first = handler.get_device(1).unwrap();
    assert_eq!(first.s_port, "/dev/ttyUSB0");
    assert_eq!(first.hostname, "core");
    assert!(first.vlans.is_empty());
    assert!(first.interfaces.is_empty());
    let second = handler.get_device(2).unwrap();
    assert_eq!(second.s_port, "/dev/ttyUSB1");
    assert_eq!(second.hostname, "edge");
    assert!(handler.get_device(3).is_err());
}

#[test]
fn probe_classifies_by_vendor_marker() {
    assert!(probe_is_managed("Cisco IOS Software, C2960 ..."));
    assert!(!probe_is_managed("OpenWrt 21.02"));
}

#[test]
fn probe_hostname_takes_trimmed_text_after_first_break() {
    assert_eq!(probe_hostname("hostname\nSwitch1\r\n").unwrap(), "Switch1");
    assert_eq!(probe_hostname("no break at all"), None);
}
