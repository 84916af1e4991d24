use rpi_client::ExecutionError;
use rpi_client::Vlan;
use rpi_client::commands;
use rpi_client::text;

#[test]
fn split_lines_matches_console_line_endings() {
    let lines = text::split_lines("a\r\nb\nc");
    assert_eq!(lines, vec!["a", "b", "c"]);
    assert_eq!(text::split_lines(""), Vec::<String>::new());
    assert_eq!(text::split_lines("x\n"), vec!["x"]);
    assert_eq!(text::split_lines("\n"), vec![""]);
}

#[test]
fn split_commas_keeps_empty_pieces() {
    assert_eq!(text::split_commas("a,b"), vec!["a", "b"]);
    assert_eq!(text::split_commas("a,"), vec!["a", ""]);
    assert_eq!(text::split_commas(""), vec![""]);
}

#[test]
fn trim_removes_console_whitespace() {
    assert_eq!(text::trim_str("  up \r\n"), "up");
    assert_eq!(text::trim_str("\t\t"), "");
    assert_eq!(text::trim_str("solid"), "solid");
}

#[test]
fn substring_clamps_both_bounds() {
    assert_eq!(text::substring_clamped("abcdef", 1, 3), "bc");
    assert_eq!(text::substring_clamped("abcdef", 4, 99), "ef");
    assert_eq!(text::substring_clamped("abcdef", 5, 2), "");
    assert_eq!(text::substring_clamped("abcdef", 99, 100), "");
}

#[test]
fn find_reports_first_occurrence() {
    assert_eq!(text::find_str("VLAN Name Status", "Status"), Some(10));
    assert_eq!(text::find_str("VLAN Name", "Ports"), None);
    assert_eq!(text::find_str("aaa", "aa"), Some(0));
}

#[test]
fn contains_and_starts_with() {
    assert!(text::contains_str("Cisco IOS", "Cisco"));
    assert!(!text::contains_str("IOS", "Cisco"));
    assert!(text::starts_with_str("VLAN Name", "VLAN"));
    assert!(!text::starts_with_str("VLA", "VLAN"));
}

#[test]
fn parse_u32_follows_the_integer_grammar() {
    assert_eq!(text::parse_u32_str("10"), Some(10));
    assert_eq!(text::parse_u32_str("+123"), Some(123));
    assert_eq!(text::parse_u32_str("4294967295"), Some(u32::MAX));
    assert_eq!(text::parse_u32_str("4294967296"), None);
    assert_eq!(text::parse_u32_str(""), None);
    assert_eq!(text::parse_u32_str("+"), None);
    assert_eq!(text::parse_u32_str("12a"), None);
    assert_eq!(text::parse_u32_str("-1"), None);
    assert_eq!(text::parse_u32_str(" 7"), None);
}

#[test]
fn u32_renders_in_decimal() {
    assert_eq!(text::u32_to_dec(0), "0");
    assert_eq!(text::u32_to_dec(10), "10");
    assert_eq!(text::u32_to_dec(4294967295), "4294967295");
}

#[test]
fn show_commands_are_the_console_dialect() {
    assert_eq!(commands::show_running_config_command(), "sh running-config");
    assert_eq!(commands::show_startup_config_command(), "sh startup-config");
    assert_eq!(commands::show_vlan_brief_command(), "sh vlan brief");
    assert_eq!(commands::show_ip_int_brief_command(), "sh ip int brief");
    assert_eq!(commands::show_version_command(), "show version\n");
    assert_eq!(commands::ask_hostname_command(), "hostname\n");
}

#[test]
fn mutation_commands_embed_their_arguments() {
    assert_eq!(commands::add_vlan_command(10), "en\n conf t\n vlan 10");
    assert_eq!(commands::name_vlan_command("Engineering"), "name Engineering");
    assert_eq!(commands::remove_vlan_command(7), "en\n conf t\n no vlan 7");
    assert_eq!(commands::change_hostname_command("sw1"), "en \nconf t \nhostname sw1\n");
    assert!(commands::change_hostname_command("sw1").contains("hostname sw1"));
}

#[test]
fn status_up_embeds_no_shutdown_literal() {
    let c = commands::configure_interface_command(
        "FastEthernet", 0, 1, "10.0.0.1", "255.255.255.0", "up",
    );
    assert_eq!(
        c,
        "en \n conf t \n interface FastEthernet 0/1\n ip address 10.0.0.1 255.255.255.0 \n no shutdown",
    );
    assert!(c.contains("no shutdown"));
}

#[test]
fn status_down_embeds_shutdown_literal() {
    let c = commands::configure_interface_command(
        "FastEthernet", 0, 1, "10.0.0.1", "255.255.255.0", "down",
    );
    assert_eq!(
        c,
        "en \n conf t \n interface FastEthernet 0/1\n ip address 10.0.0.1 255.255.255.0 \n shutdown",
    );
    assert!(!c.contains("no shutdown"));
}

#[test]
fn other_status_embeds_empty_clause() {
    let c = commands::configure_interface_command(
        "FastEthernet", 0, 1, "10.0.0.1", "255.255.255.0", "sideways",
    );
    assert_eq!(
        c,
        "en \n conf t \n interface FastEthernet 0/1\n ip address 10.0.0.1 255.255.255.0 \n ",
    );
}

#[test]
fn default_vlan_is_the_placeholder() {
    let v = Vlan::default();
    assert_eq!(v.name, "Vlan1");
    assert_eq!(v.status, "Suspended");
    assert!(v.ports.is_empty());
}

#[test]
fn error_body_is_the_json_message_shape() {
    let e = ExecutionError { message: "boom".to_string() };
    assert_eq!(e.http_status(), 400);
    assert_eq!(e.http_body(), "{\"message\":\"boom\"}");
}
