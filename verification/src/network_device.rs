//! One managed switch: its scraped state and the mutation state machine.
//!
//! The serial channel itself lives outside the library.  A caller sends the
//! command strings the [`crate::commands`] builders compose and hands each
//! console outcome back in as a [`StepResult`]; every decision taken on
//! such an outcome is made and proved here.  Scraped state is replaced
//! atomically: a fault leaves the prior maps untouched.

use std::collections::HashMap;

use vstd::prelude::*;
use vstd::string::StrSliceExecFns;
use vstd::string::StringExecFns;

use crate::execution_error::ExecutionError;
use crate::interface::Interface;
use crate::interface::InterfaceDTO;
use crate::interface::InterfaceV;
use crate::parser::ParseFault;
use crate::parser::if_list_map;
use crate::parser::if_map_view;
use crate::parser::parse_interface_table;
use crate::parser::parse_vlan_table;
use crate::parser::spec_parse_interface_table;
use crate::parser::spec_parse_vlan_table;
use crate::parser::vlan_map_view;
use crate::text::find_str;
use crate::text::lemma_find;
use crate::text::spec_find;
use crate::text::substring_clamped;
use crate::vlan::Vlan;
use crate::vlan::VlanDTO;
use crate::vlan::VlanV;

verus! {

broadcast use vstd::std_specs::hash::group_hash_axioms;

/// The outcome of one console exchange: the response text the device
/// returned, or the I/O error message the attempt ended with.
#[derive(Debug, Clone)]
pub enum StepResult {
    Output { text: String },
    Failed { message: String },
}

/// Mathematical model of a [`StepResult`].
pub ghost enum StepV {
    Output { text: Seq<char> },
    Failed { message: Seq<char> },
}

impl View for StepResult {
    type V = StepV;

    open spec fn view(&self) -> StepV {
        match self {
            StepResult::Output { text } => StepV::Output { text: text@ },
            StepResult::Failed { message } => StepV::Failed { message: message@ },
        }
    }
}

impl DeepView for StepResult {
    type V = StepV;

    open spec fn deep_view(&self) -> StepV {
        self.view()
    }
}

/// A valid transcript of a command sequence of planned length `n`: the
/// caller sends the commands in order and stops at the first failure, so
/// every outcome but the last reports output, and a short transcript ends
/// with the failure that cut it off.
pub open spec fn spec_transcript(t: Seq<StepV>, n: int) -> bool {
    &&& t.len() <= n
    &&& forall|i: int| 0 <= i < t.len() - 1 ==> t[i] is Output
    &&& t.len() < n ==> t.len() >= 1 && t.last() is Failed
}

/// The message each table fault surfaces as.
pub open spec fn spec_fault_message(f: ParseFault) -> Seq<char> {
    match f {
        ParseFault::ContinuationWithoutRecord => "Should be vlan present here."@,
        ParseFault::PortFormat => "Mod/Port format not correct."@,
        ParseFault::PortModule => "Couldn't parse port module."@,
        ParseFault::PortNumber => "Couldn't parse port number."@,
        ParseFault::UnknownPort => "Couldn't resolve port against interfaces."@,
        ParseFault::InterfaceNoDigit => "Couldn't find digit in interface name."@,
        ParseFault::InterfaceModule => "Couldn't parse interface module."@,
        ParseFault::LineOverflow => "Too many lines in table."@,
    }
}

/// Exec form of `spec_fault_message`.
pub fn fault_message(f: ParseFault) -> (m: String)
    ensures
        m@ == spec_fault_message(f),
{
    match f {
        ParseFault::ContinuationWithoutRecord => "Should be vlan present here.".to_owned(),
        ParseFault::PortFormat => "Mod/Port format not correct.".to_owned(),
        ParseFault::PortModule => "Couldn't parse port module.".to_owned(),
        ParseFault::PortNumber => "Couldn't parse port number.".to_owned(),
        ParseFault::UnknownPort => "Couldn't resolve port against interfaces.".to_owned(),
        ParseFault::InterfaceNoDigit => "Couldn't find digit in interface name.".to_owned(),
        ParseFault::InterfaceModule => "Couldn't parse interface module.".to_owned(),
        ParseFault::LineOverflow => "Too many lines in table.".to_owned(),
    }
}

/// One managed switch.  `vlans` and `interfaces` hold the last successful
/// scrape; `interface_list` holds the same interface records in encounter
/// order, which port resolution needs.
#[derive(Debug)]
pub struct NetworkDevice {
    pub serial_number: String,
    pub ip_address: String,
    pub s_port: String,
    pub hostname: String,
    pub vlans: HashMap<u32, Vlan>,
    pub interfaces: HashMap<u32, Interface>,
    pub interface_list: Vec<(u32, Interface)>,
    pub startup_config: String,
    pub running_config: String,
}

/// Mathematical model of a [`NetworkDevice`].
#[verifier::ext_equal]
pub ghost struct DeviceV {
    pub serial_number: Seq<char>,
    pub ip_address: Seq<char>,
    pub s_port: Seq<char>,
    pub hostname: Seq<char>,
    pub vlans: Map<u32, VlanV>,
    pub interfaces: Map<u32, InterfaceV>,
    pub interface_list: Seq<(u32, InterfaceV)>,
    pub startup_config: Seq<char>,
    pub running_config: Seq<char>,
}

impl View for NetworkDevice {
    type V = DeviceV;

    open spec fn view(&self) -> DeviceV {
        DeviceV {
            serial_number: self.serial_number@,
            ip_address: self.ip_address@,
            s_port: self.s_port@,
            hostname: self.hostname@,
            vlans: vlan_map_view(self.vlans@),
            interfaces: if_map_view(self.interfaces@),
            interface_list: self.interface_list.deep_view(),
            startup_config: self.startup_config@,
            running_config: self.running_config@,
        }
    }
}

impl DeepView for NetworkDevice {
    type V = DeviceV;

    open spec fn deep_view(&self) -> DeviceV {
        self.view()
    }
}

impl DeviceV {
    /// The interface map and the encounter-order list describe the same
    /// records: what one scrape produced.
    pub open spec fn wf(self) -> bool {
        self.interfaces == if_list_map(self.interface_list)
    }
}

pub open spec fn with_vlans(d: DeviceV, v: Map<u32, VlanV>) -> DeviceV {
    DeviceV { vlans: v, ..d }
}

pub open spec fn with_interfaces(d: DeviceV, l: Seq<(u32, InterfaceV)>) -> DeviceV {
    DeviceV { interfaces: if_list_map(l), interface_list: l, ..d }
}

pub open spec fn with_hostname(d: DeviceV, h: Seq<char>) -> DeviceV {
    DeviceV { hostname: h, ..d }
}

pub open spec fn with_running_config(d: DeviceV, c: Seq<char>) -> DeviceV {
    DeviceV { running_config: c, ..d }
}

pub open spec fn with_startup_config(d: DeviceV, c: Seq<char>) -> DeviceV {
    DeviceV { startup_config: c, ..d }
}

/// The response minus its echoed first line, verbatim: everything after
/// the first line break, unchanged — the shape in which a configuration
/// read is stored.  A response without a break is all echo and stores
/// nothing.
pub open spec fn spec_config_text(response: Seq<char>) -> Seq<char> {
    match spec_find(response, "\n"@) {
        Some(i) => response.skip(i + 1),
        None => Seq::empty(),
    }
}

fn config_tail(text: &str) -> (r: String)
    ensures
        r@ == spec_config_text(text@),
{
    let len: usize = text.unicode_len();
    match find_str(text, "\n") {
        Some(i) => {
            proof {
                lemma_find(text@, "\n"@);
                reveal_strlit("\n");
            }
            let tail: String = substring_clamped(text, i + 1, len);
            proof {
                assert(tail@ =~= text@.skip(i as int + 1));
            }
            tail
        },
        None => {
            let e = "".to_owned();
            proof {
                reveal_strlit("");
                assert(e@ =~= Seq::<char>::empty());
            }
            e
        },
    }
}

/// What reading the running configuration does to a device: on output the
/// text minus its echoed first line replaces the stored configuration, on
/// failure nothing changes and the I/O message surfaces.
pub open spec fn spec_read_running_config_tr(d: DeviceV, o: StepV) -> (DeviceV, Result<
    Seq<char>,
    Seq<char>,
>) {
    match o {
        StepV::Failed { message } => (d, Err(message)),
        StepV::Output { text } => (
            with_running_config(d, spec_config_text(text)),
            Ok("Successfully read running-config"@),
        ),
    }
}

/// The startup-configuration counterpart of `spec_read_running_config_tr`.
pub open spec fn spec_read_startup_config_tr(d: DeviceV, o: StepV) -> (DeviceV, Result<
    Seq<char>,
    Seq<char>,
>) {
    match o {
        StepV::Failed { message } => (d, Err(message)),
        StepV::Output { text } => (
            with_startup_config(d, spec_config_text(text)),
            Ok("Successfully read startup-config"@),
        ),
    }
}

/// What a VLAN scrape does to a device: on parsed output the VLAN map is
/// replaced wholesale, on an I/O failure or a table fault nothing changes
/// and the message surfaces.
pub open spec fn spec_read_vlans_tr(d: DeviceV, o: StepV) -> (DeviceV, Result<(), Seq<char>>) {
    match o {
        StepV::Failed { message } => (d, Err(message)),
        StepV::Output { text } => match spec_parse_vlan_table(text, d.interface_list) {
            Ok(vm) => (with_vlans(d, vm), Ok(())),
            Err(f) => (d, Err(spec_fault_message(f))),
        },
    }
}

/// What an interface scrape does to a device: on parsed output both the
/// interface map and the encounter-order list are replaced, on an I/O
/// failure the fixed lookup message surfaces, on a table fault its message
/// surfaces; in both failure cases nothing changes.
pub open spec fn spec_read_interfaces_tr(d: DeviceV, o: StepV) -> (DeviceV, Result<(), Seq<char>>) {
    match o {
        StepV::Failed { message } => (d, Err("Couldn't find device"@)),
        StepV::Output { text } => match spec_parse_interface_table(text) {
            Ok(l) => (with_interfaces(d, l), Ok(())),
            Err(f) => (d, Err(spec_fault_message(f))),
        },
    }
}

/// The error of a numbering step that failed: no command took effect.
pub open spec fn spec_numbering_failed_message(m: Seq<char>) -> Seq<char> {
    "Couldn't add vlan, the numbering command failed: "@ + m
}

/// The error of a naming step that failed after the numbering step
/// succeeded: the device may now hold a half-configured VLAN.
pub open spec fn spec_naming_failed_message(m: Seq<char>) -> Seq<char> {
    "Couldn't add vlan, the naming command failed and the device may hold a half-configured vlan: "@
        + m
}

/// What creating a VLAN does to a device, from the transcript of its three
/// commands (number, name, re-scrape).  A failure of either configuration
/// step surfaces an error that names the step — and, for the naming step,
/// that the device may be left partially configured; after both succeeded
/// the operation is a success, and the re-scrape is applied as
/// [`spec_read_vlans_tr`] does, except that a failed scrape command is
/// dropped.
pub open spec fn spec_add_vlan_tr(d: DeviceV, t: Seq<StepV>) -> (DeviceV, Result<
    Seq<char>,
    Seq<char>,
>) {
    if t.len() >= 1 && t[0] is Failed {
        (d, Err(spec_numbering_failed_message(t[0]->Failed_message)))
    } else if t.len() >= 2 && t[1] is Failed {
        (d, Err(spec_naming_failed_message(t[1]->Failed_message)))
    } else if t.len() >= 3 && t[2] is Failed {
        (d, Ok("Successfully added vlan."@))
    } else if t.len() >= 3 {
        match spec_parse_vlan_table(t[2]->Output_text, d.interface_list) {
            Ok(vm) => (with_vlans(d, vm), Ok("Successfully added vlan."@)),
            Err(f) => (d, Err(spec_fault_message(f))),
        }
    } else {
        (d, Err(Seq::empty()))
    }
}

/// What deleting a VLAN does to a device, from the transcript of its two
/// commands (delete, re-scrape).
pub open spec fn spec_remove_vlan_tr(d: DeviceV, t: Seq<StepV>) -> (DeviceV, Result<
    Seq<char>,
    Seq<char>,
>) {
    if t.len() >= 1 && t[0] is Failed {
        (d, Err(t[0]->Failed_message))
    } else if t.len() >= 2 && t[1] is Failed {
        (d, Ok("Successfully deleted vlan."@))
    } else if t.len() >= 2 {
        match spec_parse_vlan_table(t[1]->Output_text, d.interface_list) {
            Ok(vm) => (with_vlans(d, vm), Ok("Successfully deleted vlan."@)),
            Err(f) => (d, Err(spec_fault_message(f))),
        }
    } else {
        (d, Err(Seq::empty()))
    }
}

/// What configuring an interface does to a device, from the transcript of
/// its two commands (configure, re-scrape).  An id the last scrape did not
/// list is the lookup error, before anything is sent.
pub open spec fn spec_configure_interface_tr(d: DeviceV, interface_id: u32, t: Seq<StepV>) -> (
    DeviceV,
    Result<(), Seq<char>>,
) {
    if !d.interfaces.contains_key(interface_id) {
        (d, Err("Couldn't find interface."@))
    } else if t.len() >= 1 && t[0] is Failed {
        (d, Err("Couldn't configure interface because: "@ + t[0]->Failed_message))
    } else if t.len() >= 2 {
        spec_read_interfaces_tr(d, t[1])
    } else {
        (d, Err(Seq::empty()))
    }
}

impl Default for NetworkDevice {
    /// The placeholder device, attached to no real port.
    fn default() -> (d: NetworkDevice)
        ensures
            d@.serial_number == Seq::<char>::empty(),
            d@.ip_address == "0.0.0.0"@,
            d@.s_port == "COM69"@,
            d@.hostname == "Router"@,
            d@.vlans == Map::<u32, VlanV>::empty(),
            d@.interfaces == Map::<u32, InterfaceV>::empty(),
            d@.interface_list == Seq::<(u32, InterfaceV)>::empty(),
            d@.startup_config == Seq::<char>::empty(),
            d@.running_config == Seq::<char>::empty(),
            d@.wf(),
    {
        let d = NetworkDevice {
            serial_number: String::new(),
            ip_address: "0.0.0.0".to_owned(),
            s_port: "COM69".to_owned(),
            hostname: "Router".to_owned(),
            vlans: HashMap::new(),
            interfaces: HashMap::new(),
            interface_list: Vec::new(),
            startup_config: String::new(),
            running_config: String::new(),
        };
        proof {
            assert(d@.vlans =~= Map::<u32, VlanV>::empty());
            assert(d@.interfaces =~= Map::<u32, InterfaceV>::empty());
            assert(d@.interface_list =~= Seq::<(u32, InterfaceV)>::empty());
        }
        d
    }
}

impl NetworkDevice {
    /// Replaces the VLAN map wholesale.
    pub fn set_vlans(&mut self, vlans: HashMap<u32, Vlan>)
        ensures
            final(self)@ == with_vlans(old(self)@, vlan_map_view(vlans@)),
    {
        self.vlans = vlans;
    }

    /// Reads the running configuration from the console outcome.
    pub fn read_running_config(&mut self, outcome: &StepResult) -> (r: Result<
        String,
        ExecutionError,
    >)
        ensures
            ({
                let (d2, res) = spec_read_running_config_tr(old(self)@, outcome@);
                &&& final(self)@ == d2
                &&& match (r, res) {
                    (Ok(s), Ok(m)) => s@ == m,
                    (Err(e), Err(m)) => e.message@ == m,
                    _ => false,
                }
            }),
    {
        match outcome {
            StepResult::Failed { message } => Err(ExecutionError { message: message.clone() }),
            StepResult::Output { text } => {
                self.running_config = config_tail(text.as_str());
                Ok("Successfully read running-config".to_owned())
            },
        }
    }

    /// Reads the startup configuration from the console outcome.
    pub fn read_startup_config(&mut self, outcome: &StepResult) -> (r: Result<
        String,
        ExecutionError,
    >)
        ensures
            ({
                let (d2, res) = spec_read_startup_config_tr(old(self)@, outcome@);
                &&& final(self)@ == d2
                &&& match (r, res) {
                    (Ok(s), Ok(m)) => s@ == m,
                    (Err(e), Err(m)) => e.message@ == m,
                    _ => false,
                }
            }),
    {
        match outcome {
            StepResult::Failed { message } => Err(ExecutionError { message: message.clone() }),
            StepResult::Output { text } => {
                self.startup_config = config_tail(text.as_str());
                Ok("Successfully read startup-config".to_owned())
            },
        }
    }

    /// Re-derives the VLAN map from a `sh vlan brief` outcome.  The map is
    /// built in full before it replaces the old one; any fault leaves the
    /// device as it was.
    pub fn read_vlans(&mut self, outcome: &StepResult) -> (r: Result<(), ExecutionError>)
        ensures
            ({
                let (d2, res) = spec_read_vlans_tr(old(self)@, outcome@);
                &&& final(self)@ == d2
                &&& match (r, res) {
                    (Ok(u), Ok(v)) => true,
                    (Err(e), Err(m)) => e.message@ == m,
                    _ => false,
                }
            }),
    {
        match outcome {
            StepResult::Failed { message } => Err(ExecutionError { message: message.clone() }),
            StepResult::Output { text } => {
                match parse_vlan_table(text.as_str(), &self.interface_list) {
                    Ok(vlans) => {
                        self.vlans = vlans;
                        Ok(())
                    },
                    Err(f) => Err(ExecutionError { message: fault_message(f) }),
                }
            },
        }
    }

    /// Re-derives the interface map (and its encounter-order list) from a
    /// `sh ip int brief` outcome.  Replacement is atomic as for
    /// [`Self::read_vlans`].
    pub fn read_interfaces(&mut self, outcome: &StepResult) -> (r: Result<(), ExecutionError>)
        ensures
            ({
                let (d2, res) = spec_read_interfaces_tr(old(self)@, outcome@);
                &&& final(self)@ == d2
                &&& match (r, res) {
                    (Ok(u), Ok(v)) => true,
                    (Err(e), Err(m)) => e.message@ == m,
                    _ => false,
                }
            }),
            final(self)@.wf() || final(self)@ == old(self)@,
    {
        match outcome {
            StepResult::Failed { .. } => Err(
                ExecutionError { message: "Couldn't find device".to_owned() },
            ),
            StepResult::Output { text } => {
                match parse_interface_table(text.as_str()) {
                    Ok((map, list)) => {
                        self.interfaces = map;
                        self.interface_list = list;
                        Ok(())
                    },
                    Err(f) => Err(ExecutionError { message: fault_message(f) }),
                }
            },
        }
    }

    /// The command sequence that creates a VLAN and re-scrapes: number the
    /// VLAN, name it, read the table back.
    pub fn add_vlan_commands(vlan: &VlanDTO) -> (cs: Vec<String>)
        ensures
            cs.deep_view() == seq![
                crate::commands::spec_add_vlan_command(vlan.number),
                crate::commands::spec_name_vlan_command(vlan.name@),
                crate::commands::spec_show_vlan_brief(),
            ],
    {
        let mut cs: Vec<String> = Vec::new();
        cs.push(crate::commands::add_vlan_command(vlan.number));
        cs.push(crate::commands::name_vlan_command(vlan.name.as_str()));
        cs.push(crate::commands::show_vlan_brief_command());
        proof {
            assert(cs.deep_view() =~= seq![
                crate::commands::spec_add_vlan_command(vlan.number),
                crate::commands::spec_name_vlan_command(vlan.name@),
                crate::commands::spec_show_vlan_brief(),
            ]);
        }
        cs
    }

    /// The command sequence that deletes a VLAN and re-scrapes.
    pub fn remove_vlan_commands(vlan_id: u32) -> (cs: Vec<String>)
        ensures
            cs.deep_view() == seq![
                crate::commands::spec_remove_vlan_command(vlan_id),
                crate::commands::spec_show_vlan_brief(),
            ],
    {
        let mut cs: Vec<String> = Vec::new();
        cs.push(crate::commands::remove_vlan_command(vlan_id));
        cs.push(crate::commands::show_vlan_brief_command());
        proof {
            assert(cs.deep_view() =~= seq![
                crate::commands::spec_remove_vlan_command(vlan_id),
                crate::commands::spec_show_vlan_brief(),
            ]);
        }
        cs
    }

    /// The command sequence that configures an interface and re-scrapes,
    /// or the lookup error if the id names no scraped interface.
    pub fn configure_interface_commands(&self, interface_id: u32, interface_dto: &InterfaceDTO) -> (r:
        Result<Vec<String>, ExecutionError>)
        ensures
            match r {
                Ok(cs) => self@.interfaces.contains_key(interface_id) && cs.deep_view() == seq![
                    crate::commands::spec_configure_interface_command(
                        self@.interfaces[interface_id],
                        interface_dto.ip_address@,
                        interface_dto.mask@,
                        interface_dto.status@,
                    ),
                    crate::commands::spec_show_ip_int_brief(),
                ],
                Err(e) => !self@.interfaces.contains_key(interface_id) && e.message@
                    == "Couldn't find interface."@,
            },
    {
        let interface = match self.get_interface(interface_id) {
            Ok(i) => i,
            Err(e) => {
                return Err(e);
            },
        };
        let cmd = crate::commands::configure_interface_command(
            interface.int_type.as_str(),
            interface.module,
            interface.number,
            interface_dto.ip_address.as_str(),
            interface_dto.mask.as_str(),
            interface_dto.status.as_str(),
        );
        let mut cs: Vec<String> = Vec::new();
        cs.push(cmd);
        cs.push(crate::commands::show_ip_int_brief_command());
        proof {
            assert(cs.deep_view() =~= seq![
                crate::commands::spec_configure_interface_command(
                    self@.interfaces[interface_id],
                    interface_dto.ip_address@,
                    interface_dto.mask@,
                    interface_dto.status@,
                ),
                crate::commands::spec_show_ip_int_brief(),
            ]);
        }
        Ok(cs)
    }

    /// Creates a VLAN from a transcript of [`Self::add_vlan_commands`]: a
    /// failed numbering or naming step surfaces an error naming that step,
    /// the naming one also warning that the device may hold a
    /// half-configured VLAN; once both succeeded the operation reports
    /// success, and the trailing re-scrape replaces the VLAN map when it
    /// parses, surfaces a fault message when it does not, and is dropped
    /// when the scrape command itself failed.
    pub fn add_vlan(&mut self, vlan: &VlanDTO, steps: &Vec<StepResult>) -> (r: Result<
        String,
        ExecutionError,
    >)
        requires
            spec_transcript(steps.deep_view(), 3),
        ensures
            ({
                let (d2, res) = spec_add_vlan_tr(old(self)@, steps.deep_view());
                &&& final(self)@ == d2
                &&& match (r, res) {
                    (Ok(s), Ok(m)) => s@ == m,
                    (Err(e), Err(m)) => e.message@ == m,
                    _ => false,
                }
            }),
    {
        proof {
            assert(steps.deep_view().len() == steps.len());
        }
        match &steps[0] {
            StepResult::Failed { message } => {
                let mut m = "Couldn't add vlan, the numbering command failed: ".to_owned();
                m.append(message.as_str());
                return Err(ExecutionError { message: m });
            },
            StepResult::Output { .. } => {},
        }
        match &steps[1] {
            StepResult::Failed { message } => {
                let mut m =
                    "Couldn't add vlan, the naming command failed and the device may hold a half-configured vlan: ".to_owned();
                m.append(message.as_str());
                return Err(ExecutionError { message: m });
            },
            StepResult::Output { .. } => {},
        }
        match &steps[2] {
            StepResult::Failed { message } => Ok("Successfully added vlan.".to_owned()),
            StepResult::Output { text } => {
                match self.read_vlans(&steps[2]) {
                    Ok(()) => Ok("Successfully added vlan.".to_owned()),
                    Err(e) => Err(e),
                }
            },
        }
    }

    /// Deletes a VLAN from a transcript of [`Self::remove_vlan_commands`];
    /// the re-scrape is handled as in [`Self::add_vlan`].
    pub fn remove_vlan(&mut self, vlan_id: u32, steps: &Vec<StepResult>) -> (r: Result<
        String,
        ExecutionError,
    >)
        requires
            spec_transcript(steps.deep_view(), 2),
        ensures
            ({
                let (d2, res) = spec_remove_vlan_tr(old(self)@, steps.deep_view());
                &&& final(self)@ == d2
                &&& match (r, res) {
                    (Ok(s), Ok(m)) => s@ == m,
                    (Err(e), Err(m)) => e.message@ == m,
                    _ => false,
                }
            }),
    {
        proof {
            assert(steps.deep_view().len() == steps.len());
        }
        match &steps[0] {
            StepResult::Failed { message } => {
                return Err(ExecutionError { message: message.clone() });
            },
            StepResult::Output { .. } => {},
        }
        match &steps[1] {
            StepResult::Failed { message } => Ok("Successfully deleted vlan.".to_owned()),
            StepResult::Output { text } => {
                match self.read_vlans(&steps[1]) {
                    Ok(()) => Ok("Successfully deleted vlan.".to_owned()),
                    Err(e) => Err(e),
                }
            },
        }
    }

    /// Configures an interface from a transcript of
    /// [`Self::configure_interface_commands`]: an unknown id is the lookup
    /// error (no command was sent), a failed configuration command is
    /// reported with its cause, and the trailing interface re-scrape is
    /// applied as in [`Self::read_interfaces`].
    pub fn configure_interface(
        &mut self,
        interface_id: u32,
        interface_dto: &InterfaceDTO,
        steps: &Vec<StepResult>,
    ) -> (r: Result<(), ExecutionError>)
        requires
            old(self)@.interfaces.contains_key(interface_id) ==> spec_transcript(
                steps.deep_view(),
                2,
            ),
        ensures
            ({
                let (d2, res) = spec_configure_interface_tr(
                    old(self)@,
                    interface_id,
                    steps.deep_view(),
                );
                &&& final(self)@ == d2
                &&& match (r, res) {
                    (Ok(u), Ok(v)) => true,
                    (Err(e), Err(m)) => e.message@ == m,
                    _ => false,
                }
            }),
            final(self)@.wf() || final(self)@ == old(self)@,
    {
        if !self.interfaces.contains_key(&interface_id) {
            return Err(ExecutionError { message: "Couldn't find interface.".to_owned() });
        }
        proof {
            assert(steps.deep_view().len() == steps.len());
        }
        match &steps[0] {
            StepResult::Failed { message } => {
                let mut m = "Couldn't configure interface because: ".to_owned();
                m.append(message.as_str());
                return Err(ExecutionError { message: m });
            },
            StepResult::Output { .. } => {},
        }
        self.read_interfaces(&steps[1])
    }

    /// Looks an interface up by its id from the last scrape.
    pub fn get_interface(&self, interface_id: u32) -> (r: Result<&Interface, ExecutionError>)
        ensures
            match r {
                Ok(i) => self@.interfaces.contains_key(interface_id) && i@
                    == self@.interfaces[interface_id],
                Err(e) => !self@.interfaces.contains_key(interface_id) && e.message@
                    == "Couldn't find interface."@,
            },
    {
        match self.interfaces.get(&interface_id) {
            Some(interface) => Ok(interface),
            None => Err(ExecutionError { message: "Couldn't find interface.".to_owned() }),
        }
    }
}

} // verus!
