//! Composition of the CLI command strings the engine sends.
//!
//! The console is stateless per call, so every configuration command embeds
//! its own privilege-escalation preamble (`en`, `conf t`).  Each builder's
//! contract pins the exact character sequence handed to the wire.

use vstd::prelude::*;
use vstd::string::StringExecFns;

use crate::interface::InterfaceV;
use crate::text::spec_u32_dec;
use crate::text::u32_to_dec;

verus! {

pub open spec fn spec_show_running_config() -> Seq<char> {
    "sh running-config"@
}

pub open spec fn spec_show_startup_config() -> Seq<char> {
    "sh startup-config"@
}

pub open spec fn spec_show_vlan_brief() -> Seq<char> {
    "sh vlan brief"@
}

pub open spec fn spec_show_ip_int_brief() -> Seq<char> {
    "sh ip int brief"@
}

pub open spec fn spec_show_version() -> Seq<char> {
    "show version\n"@
}

pub open spec fn spec_ask_hostname() -> Seq<char> {
    "hostname\n"@
}

pub open spec fn spec_add_vlan_command(number: u32) -> Seq<char> {
    "en\n conf t\n vlan "@ + spec_u32_dec(number as nat)
}

pub open spec fn spec_name_vlan_command(name: Seq<char>) -> Seq<char> {
    "name "@ + name
}

pub open spec fn spec_remove_vlan_command(vlan_id: u32) -> Seq<char> {
    "en\n conf t\n no vlan "@ + spec_u32_dec(vlan_id as nat)
}

/// The rename command embeds `hostname {name}` with the name as its own
/// word.
pub open spec fn spec_change_hostname_command(name: Seq<char>) -> Seq<char> {
    "en \nconf t \nhostname "@ + name + "\n"@
}

/// The administrative clause a configuration request's status token asks
/// for: `"up"` asks to enable, `"down"` to shut down, anything else adds
/// nothing.
pub open spec fn spec_status_clause(status: Seq<char>) -> Seq<char> {
    if status == "up"@ {
        "no shutdown"@
    } else if status == "down"@ {
        "shutdown"@
    } else {
        Seq::empty()
    }
}

/// The routed-interface configuration command: interface addressing from
/// the scraped record, address and mask from the request, and the
/// administrative clause last.
pub open spec fn spec_configure_interface_command(
    iface: InterfaceV,
    ip: Seq<char>,
    mask: Seq<char>,
    status: Seq<char>,
) -> Seq<char> {
    "en \n conf t \n interface "@ + iface.int_type + " "@ + spec_u32_dec(iface.module as nat)
        + "/"@ + spec_u32_dec(iface.number as nat) + "\n ip address "@ + ip + " "@ + mask + " \n "@
        + spec_status_clause(status)
}

pub fn show_running_config_command() -> (c: String)
    ensures
        c@ == spec_show_running_config(),
{
    "sh running-config".to_owned()
}

pub fn show_startup_config_command() -> (c: String)
    ensures
        c@ == spec_show_startup_config(),
{
    "sh startup-config".to_owned()
}

pub fn show_vlan_brief_command() -> (c: String)
    ensures
        c@ == spec_show_vlan_brief(),
{
    "sh vlan brief".to_owned()
}

pub fn show_ip_int_brief_command() -> (c: String)
    ensures
        c@ == spec_show_ip_int_brief(),
{
    "sh ip int brief".to_owned()
}

pub fn show_version_command() -> (c: String)
    ensures
        c@ == spec_show_version(),
{
    "show version\n".to_owned()
}

pub fn ask_hostname_command() -> (c: String)
    ensures
        c@ == spec_ask_hostname(),
{
    "hostname\n".to_owned()
}

pub fn add_vlan_command(number: u32) -> (c: String)
    ensures
        c@ == spec_add_vlan_command(number),
{
    let mut c = "en\n conf t\n vlan ".to_owned();
    c.append(u32_to_dec(number).as_str());
    c
}

pub fn name_vlan_command(name: &str) -> (c: String)
    ensures
        c@ == spec_name_vlan_command(name@),
{
    let mut c = "name ".to_owned();
    c.append(name);
    c
}

pub fn remove_vlan_command(vlan_id: u32) -> (c: String)
    ensures
        c@ == spec_remove_vlan_command(vlan_id),
{
    let mut c = "en\n conf t\n no vlan ".to_owned();
    c.append(u32_to_dec(vlan_id).as_str());
    c
}

pub fn change_hostname_command(name: &str) -> (c: String)
    ensures
        c@ == spec_change_hostname_command(name@),
{
    let mut c = "en \nconf t \nhostname ".to_owned();
    c.append(name);
    c.append("\n");
    proof {
        assert(c@ =~= spec_change_hostname_command(name@));
    }
    c
}

pub fn status_clause(status: &str) -> (c: String)
    ensures
        c@ == spec_status_clause(status@),
{
    if crate::text::str_eq(status, "up") {
        "no shutdown".to_owned()
    } else if crate::text::str_eq(status, "down") {
        "shutdown".to_owned()
    } else {
        let c = "".to_owned();
        proof {
            reveal_strlit("");
            assert(c@ =~= Seq::<char>::empty());
        }
        c
    }
}

pub fn configure_interface_command(
    int_type: &str,
    module: u32,
    number: u32,
    ip: &str,
    mask: &str,
    status: &str,
) -> (c: String)
    ensures
        forall|iface: InterfaceV|
            iface.int_type == int_type@ && iface.module == module && iface.number == number
                ==> c@ == #[trigger] spec_configure_interface_command(iface, ip@, mask@, status@),
{
    let mut c = "en \n conf t \n interface ".to_owned();
    c.append(int_type);
    c.append(" ");
    c.append(u32_to_dec(module).as_str());
    c.append("/");
    c.append(u32_to_dec(number).as_str());
    c.append("\n ip address ");
    c.append(ip);
    c.append(" ");
    c.append(mask);
    c.append(" \n ");
    c.append(status_clause(status).as_str());
    proof {
        assert forall|iface: InterfaceV|
            iface.int_type == int_type@ && iface.module == module && iface.number
                == number implies c@ == #[trigger] spec_configure_interface_command(
            iface,
            ip@,
            mask@,
            status@,
        ) by {
            assert(c@ =~= spec_configure_interface_command(iface, ip@, mask@, status@));
        }
    }
    c
}

} // verus!
