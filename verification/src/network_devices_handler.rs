//! The device registry: the one concurrency-safe aggregate the boundary
//! layer holds (behind its lock) and the entry points it calls.
//!
//! Discovery walks the serial ports outside the library; the registry's own
//! decisions — which probe response marks a managed device, what hostname
//! it reports, and what every mutation entry point does to the map — are
//! made and proved here.

use std::collections::HashMap;

use vstd::prelude::*;
use vstd::string::StrSliceExecFns;

use crate::execution_error::ExecutionError;
use crate::interface::InterfaceDTO;
use crate::network_device::DeviceV;
use crate::network_device::NetworkDevice;
use crate::network_device::StepResult;
use crate::network_device::StepV;
use crate::network_device::spec_add_vlan_tr;
use crate::network_device::spec_config_text;
use crate::network_device::spec_configure_interface_tr;
use crate::network_device::spec_read_interfaces_tr;
use crate::network_device::spec_read_vlans_tr;
use crate::network_device::spec_remove_vlan_tr;
use crate::network_device::spec_transcript;
use crate::network_device::with_hostname;
use crate::network_device::with_running_config;
use crate::network_device::with_startup_config;
use crate::text::contains_str;
use crate::text::find_str;
use crate::text::lemma_find;
use crate::text::spec_contains;
use crate::text::spec_find;
use crate::text::spec_trim;
use crate::text::substring_clamped;
use crate::text::trim_str;
use crate::vlan::VlanDTO;

verus! {

broadcast use vstd::std_specs::hash::group_hash_axioms;

/// The registry: every managed device, keyed by the id discovery assigned.
#[derive(Debug)]
pub struct NetworkDevicesHandler {
    pub devices: HashMap<u32, NetworkDevice>,
}

/// The model of an executable device map.
pub open spec fn device_map_view(m: Map<u32, NetworkDevice>) -> Map<u32, DeviceV> {
    m.map_values(|d: NetworkDevice| d@)
}

impl View for NetworkDevicesHandler {
    type V = Map<u32, DeviceV>;

    open spec fn view(&self) -> Map<u32, DeviceV> {
        device_map_view(self.devices@)
    }
}

/// A probe response marks a managed device exactly when it carries the
/// vendor marker.
pub open spec fn spec_probe_is_managed(response: Seq<char>) -> bool {
    spec_contains(response, "Cisco"@)
}

/// Exec form of `spec_probe_is_managed`.
pub fn probe_is_managed(response: &str) -> (r: bool)
    ensures
        r == spec_probe_is_managed(response@),
{
    contains_str(response, "Cisco")
}

/// The display name a hostname probe reports: everything after the first
/// line break, trimmed; a response without a break reports none.
pub open spec fn spec_probe_hostname(response: Seq<char>) -> Option<Seq<char>> {
    match spec_find(response, "\n"@) {
        None => None,
        Some(i) => Some(spec_trim(response.skip(i + 1))),
    }
}

/// Exec form of `spec_probe_hostname`.
pub fn probe_hostname(response: &str) -> (r: Option<String>)
    ensures
        match r {
            Some(h) => spec_probe_hostname(response@) == Some(h@),
            None => spec_probe_hostname(response@) is None,
        },
{
    let len: usize = response.unicode_len();
    match find_str(response, "\n") {
        None => None,
        Some(i) => {
            proof {
                lemma_find(response@, "\n"@);
                reveal_strlit("\n");
            }
            let tail: String = substring_clamped(response, i + 1, len);
            proof {
                assert(tail@ =~= response@.skip(i as int + 1));
            }
            Some(trim_str(tail.as_str()))
        },
    }
}

/// What an hostname change does to a device: the console confirmed the
/// command, so the stored hostname follows it; a failure changes nothing
/// and surfaces the fixed message.
pub open spec fn spec_change_hostname_tr(d: DeviceV, name: Seq<char>, o: StepV) -> (DeviceV, Result<
    (),
    Seq<char>,
>) {
    match o {
        StepV::Failed { message } => (d, Err("Couldn't change hostname"@)),
        StepV::Output { text } => (with_hostname(d, name), Ok(())),
    }
}

/// What a configuration reload does to a device: the running configuration
/// is read first and kept even when the startup read then fails; the first
/// failure surfaces.
pub open spec fn spec_reload_configs_tr(d: DeviceV, t: Seq<StepV>) -> (DeviceV, Result<
    (),
    Seq<char>,
>) {
    if t.len() >= 1 && t[0] is Failed {
        (d, Err(t[0]->Failed_message))
    } else if t.len() >= 2 {
        let d1 = with_running_config(d, spec_config_text(t[0]->Output_text));
        match t[1] {
            StepV::Failed { message } => (d1, Err(message)),
            StepV::Output { text } => (with_startup_config(d1, spec_config_text(text)), Ok(())),
        }
    } else {
        (d, Err(Seq::empty()))
    }
}

/// A VLAN bulk refresh applied to the registry, one outcome per device in
/// order; ids the registry does not hold are dropped, and a failed device
/// keeps its prior state.
pub open spec fn spec_bulk_read_vlans(m: Map<u32, DeviceV>, outs: Seq<(u32, StepV)>) -> Map<
    u32,
    DeviceV,
>
    decreases outs.len(),
{
    if outs.len() == 0 {
        m
    } else {
        let id = outs[0].0;
        let o = outs[0].1;
        let m1 = if m.contains_key(id) {
            m.insert(id, spec_read_vlans_tr(m[id], o).0)
        } else {
            m
        };
        spec_bulk_read_vlans(m1, outs.skip(1))
    }
}

/// An interface bulk refresh applied to the registry, stopping at the
/// first device whose refresh fails; devices already refreshed keep their
/// new state.
pub open spec fn spec_bulk_read_interfaces(m: Map<u32, DeviceV>, outs: Seq<(u32, StepV)>) -> (
    Map<u32, DeviceV>,
    Result<(), Seq<char>>,
)
    decreases outs.len(),
{
    if outs.len() == 0 {
        (m, Ok(()))
    } else {
        let id = outs[0].0;
        let o = outs[0].1;
        if m.contains_key(id) {
            let (d2, res) = spec_read_interfaces_tr(m[id], o);
            let m1 = m.insert(id, d2);
            match res {
                Err(e) => (m1, Err(e)),
                Ok(u) => spec_bulk_read_interfaces(m1, outs.skip(1)),
            }
        } else {
            spec_bulk_read_interfaces(m, outs.skip(1))
        }
    }
}

/// A device as discovery first registers it: attached to its probed port,
/// named by its hostname probe, with nothing scraped yet.
pub open spec fn spec_discovered_device(s_port: Seq<char>, hostname: Seq<char>) -> DeviceV {
    DeviceV {
        serial_number: Seq::empty(),
        ip_address: Seq::empty(),
        s_port,
        hostname,
        vlans: Map::empty(),
        interfaces: Map::empty(),
        interface_list: Seq::empty(),
        startup_config: Seq::empty(),
        running_config: Seq::empty(),
    }
}

impl NetworkDevicesHandler {
    /// Registers the devices discovery found — each a probed port path and
    /// the hostname it reported — under sequential ids from 1, in
    /// encounter order, with empty scraped state.  Each physical port is
    /// exclusively owned: the probe paths must be pairwise distinct, and no
    /// two registered devices then reference the same port.
    pub fn register_devices(probes: &Vec<(String, String)>) -> (h: NetworkDevicesHandler)
        requires
            probes@.len() <= u32::MAX,
            forall|j1: int, j2: int|
                0 <= j1 < j2 < probes@.len() ==> probes@[j1].0@ != probes@[j2].0@,
        ensures
            forall|k: u32| h@.contains_key(k) <==> 1 <= k <= probes@.len(),
            forall|j: int|
                0 <= j < probes@.len() ==> h@[(j + 1) as u32] == spec_discovered_device(
                    probes@[j].0@,
                    probes@[j].1@,
                ),
            forall|k1: u32, k2: u32|
                h@.contains_key(k1) && h@.contains_key(k2) && k1 != k2 ==> h@[k1].s_port
                    != h@[k2].s_port,
    {
        let mut devices: HashMap<u32, NetworkDevice> = HashMap::new();
        let n: usize = probes.len();
        let mut i: usize = 0;
        proof {
            assert(devices@ =~= Map::<u32, NetworkDevice>::empty());
        }
        while i < n
            invariant
                0 <= i <= n,
                n == probes.len(),
                n <= u32::MAX,
                forall|k: u32| device_map_view(devices@).contains_key(k) <==> 1 <= k <= i,
                forall|j: int|
                    0 <= j < i ==> device_map_view(devices@)[(j + 1) as u32]
                        == spec_discovered_device(probes@[j].0@, probes@[j].1@),
            decreases n - i,
        {
            let device = NetworkDevice {
                serial_number: String::new(),
                ip_address: String::new(),
                s_port: probes[i].0.clone(),
                hostname: probes[i].1.clone(),
                vlans: HashMap::new(),
                interfaces: HashMap::new(),
                interface_list: Vec::new(),
                startup_config: String::new(),
                running_config: String::new(),
            };
            let ghost dv = device@;
            let ghost prev = devices@;
            let id: u32 = (i as u32) + 1;
            devices.insert(id, device);
            proof {
                assert(dv =~= spec_discovered_device(probes@[i as int].0@, probes@[i as int].1@));
                assert(device_map_view(devices@) =~= device_map_view(prev).insert(id, dv));
            }
            i = i + 1;
        }
        let h = NetworkDevicesHandler { devices };
        proof {
            assert forall|k1: u32, k2: u32|
                h@.contains_key(k1) && h@.contains_key(k2) && k1 != k2 implies h@[k1].s_port
                != h@[k2].s_port by {
                assert(h@[k1] == spec_discovered_device(probes@[k1 - 1].0@, probes@[k1 - 1].1@));
                assert(h@[k2] == spec_discovered_device(probes@[k2 - 1].0@, probes@[k2 - 1].1@));
                if k1 < k2 {
                    assert(probes@[k1 - 1].0@ != probes@[k2 - 1].0@);
                } else {
                    assert(probes@[k2 - 1].0@ != probes@[k1 - 1].0@);
                }
            }
        }
        h
    }

    /// Looks a device up by id.
    pub fn get_device(&self, id: u32) -> (r: Result<&NetworkDevice, ExecutionError>)
        ensures
            match r {
                Ok(d) => self@.contains_key(id) && d@ == self@[id],
                Err(e) => !self@.contains_key(id) && e.message@ == "Couldn't find device."@,
            },
    {
        match self.devices.get(&id) {
            Some(device) => Ok(device),
            None => Err(ExecutionError { message: "Couldn't find device.".to_owned() }),
        }
    }

    /// Creates a VLAN on one device; see
    /// [`NetworkDevice::add_vlan`].
    pub fn add_vlan(&mut self, id: u32, vlan: &VlanDTO, steps: &Vec<StepResult>) -> (r: Result<
        String,
        ExecutionError,
    >)
        requires
            old(self)@.contains_key(id) ==> spec_transcript(steps.deep_view(), 3),
        ensures
            ({
                let m = old(self)@;
                if !m.contains_key(id) {
                    &&& final(self)@ == m
                    &&& r matches Err(e) && e.message@ == "Couldn't find device."@
                } else {
                    let (d2, res) = spec_add_vlan_tr(m[id], steps.deep_view());
                    &&& final(self)@ == m.insert(id, d2)
                    &&& match (r, res) {
                        (Ok(s), Ok(msg)) => s@ == msg,
                        (Err(e), Err(msg)) => e.message@ == msg,
                        _ => false,
                    }
                }
            }),
    {
        let ghost prev = self.devices@;
        match self.devices.remove(&id) {
            None => Err(ExecutionError { message: "Couldn't find device.".to_owned() }),
            Some(mut device) => {
                let r = device.add_vlan(vlan, steps);
                let ghost d2 = device@;
                self.devices.insert(id, device);
                proof {
                    assert(device_map_view(self.devices@) =~= device_map_view(prev).insert(
                        id,
                        d2,
                    ));
                }
                r
            },
        }
    }

    /// Deletes a VLAN on one device; see
    /// [`NetworkDevice::remove_vlan`].
    pub fn remove_vlan(&mut self, device_id: u32, vlan_id: u32, steps: &Vec<StepResult>) -> (r:
        Result<String, ExecutionError>)
        requires
            old(self)@.contains_key(device_id) ==> spec_transcript(steps.deep_view(), 2),
        ensures
            ({
                let m = old(self)@;
                if !m.contains_key(device_id) {
                    &&& final(self)@ == m
                    &&& r matches Err(e) && e.message@ == "Couldn't find device."@
                } else {
                    let (d2, res) = spec_remove_vlan_tr(m[device_id], steps.deep_view());
                    &&& final(self)@ == m.insert(device_id, d2)
                    &&& match (r, res) {
                        (Ok(s), Ok(msg)) => s@ == msg,
                        (Err(e), Err(msg)) => e.message@ == msg,
                        _ => false,
                    }
                }
            }),
    {
        let ghost prev = self.devices@;
        match self.devices.remove(&device_id) {
            None => Err(ExecutionError { message: "Couldn't find device.".to_owned() }),
            Some(mut device) => {
                let r = device.remove_vlan(vlan_id, steps);
                let ghost d2 = device@;
                self.devices.insert(device_id, device);
                proof {
                    assert(device_map_view(self.devices@) =~= device_map_view(prev).insert(
                        device_id,
                        d2,
                    ));
                }
                r
            },
        }
    }

    /// Renames one device.  The command is trusted once the console takes
    /// it: the stored hostname is set without a re-read.
    pub fn change_hostname(&mut self, device_id: u32, hostname: &str, outcome: &StepResult) -> (r:
        Result<(), ExecutionError>)
        ensures
            ({
                let m = old(self)@;
                if !m.contains_key(device_id) {
                    &&& final(self)@ == m
                    &&& r matches Err(e) && e.message@ == "Couldn't find device."@
                } else {
                    let (d2, res) = spec_change_hostname_tr(m[device_id], hostname@, outcome@);
                    &&& final(self)@ == m.insert(device_id, d2)
                    &&& match (r, res) {
                        (Ok(u), Ok(v)) => true,
                        (Err(e), Err(msg)) => e.message@ == msg,
                        _ => false,
                    }
                }
            }),
    {
        let ghost prev = self.devices@;
        match self.devices.remove(&device_id) {
            None => Err(ExecutionError { message: "Couldn't find device.".to_owned() }),
            Some(mut device) => {
                let r = match outcome {
                    StepResult::Failed { .. } => Err(
                        ExecutionError { message: "Couldn't change hostname".to_owned() },
                    ),
                    StepResult::Output { .. } => {
                        device.hostname = hostname.to_owned();
                        Ok(())
                    },
                };
                let ghost d2 = device@;
                self.devices.insert(device_id, device);
                proof {
                    assert(device_map_view(self.devices@) =~= device_map_view(prev).insert(
                        device_id,
                        d2,
                    ));
                }
                r
            },
        }
    }

    /// Configures an interface on one device; see
    /// [`NetworkDevice::configure_interface`].
    pub fn configure_interface(
        &mut self,
        device_id: u32,
        interface_id: u32,
        interface_dto: &InterfaceDTO,
        steps: &Vec<StepResult>,
    ) -> (r: Result<(), ExecutionError>)
        requires
            old(self)@.contains_key(device_id) && old(
                self,
            )@[device_id].interfaces.contains_key(interface_id) ==> spec_transcript(
                steps.deep_view(),
                2,
            ),
        ensures
            ({
                let m = old(self)@;
                if !m.contains_key(device_id) {
                    &&& final(self)@ == m
                    &&& r matches Err(e) && e.message@ == "Couldn't find device."@
                } else {
                    let (d2, res) = spec_configure_interface_tr(
                        m[device_id],
                        interface_id,
                        steps.deep_view(),
                    );
                    &&& final(self)@ == m.insert(device_id, d2)
                    &&& match (r, res) {
                        (Ok(u), Ok(v)) => true,
                        (Err(e), Err(msg)) => e.message@ == msg,
                        _ => false,
                    }
                }
            }),
    {
        let ghost prev = self.devices@;
        match self.devices.remove(&device_id) {
            None => Err(ExecutionError { message: "Couldn't find device.".to_owned() }),
            Some(mut device) => {
                let r = device.configure_interface(interface_id, interface_dto, steps);
                let ghost d2 = device@;
                self.devices.insert(device_id, device);
                proof {
                    assert(device_map_view(self.devices@) =~= device_map_view(prev).insert(
                        device_id,
                        d2,
                    ));
                }
                r
            },
        }
    }

    /// Re-reads both configurations of one device, running first; the
    /// first failure surfaces and ends the reload.
    pub fn reload_configs(&mut self, device_id: u32, steps: &Vec<StepResult>) -> (r: Result<
        (),
        ExecutionError,
    >)
        requires
            old(self)@.contains_key(device_id) ==> spec_transcript(steps.deep_view(), 2),
        ensures
            ({
                let m = old(self)@;
                if !m.contains_key(device_id) {
                    &&& final(self)@ == m
                    &&& r matches Err(e) && e.message@ == "Couldn't find device."@
                } else {
                    let (d2, res) = spec_reload_configs_tr(m[device_id], steps.deep_view());
                    &&& final(self)@ == m.insert(device_id, d2)
                    &&& match (r, res) {
                        (Ok(u), Ok(v)) => true,
                        (Err(e), Err(msg)) => e.message@ == msg,
                        _ => false,
                    }
                }
            }),
    {
        let ghost prev = self.devices@;
        match self.devices.remove(&device_id) {
            None => Err(ExecutionError { message: "Couldn't find device.".to_owned() }),
            Some(mut device) => {
                proof {
                    assert(steps.deep_view().len() == steps.len());
                }
                let r = match device.read_running_config(&steps[0]) {
                    Err(e) => Err(e),
                    Ok(_) => {
                        match device.read_startup_config(&steps[1]) {
                            Err(e) => Err(e),
                            Ok(_) => Ok(()),
                        }
                    },
                };
                let ghost d2 = device@;
                self.devices.insert(device_id, device);
                proof {
                    assert(device_map_view(self.devices@) =~= device_map_view(prev).insert(
                        device_id,
                        d2,
                    ));
                }
                r
            },
        }
    }

    /// Refreshes the VLAN map of every device an outcome is given for, in
    /// order.  A device whose refresh fails keeps its prior state; the
    /// refresh goes on with the rest.
    pub fn read_vlans(&mut self, outcomes: &Vec<(u32, StepResult)>)
        ensures
            final(self)@ == spec_bulk_read_vlans(old(self)@, outcomes.deep_view()),
    {
        let ghost outs = outcomes.deep_view();
        let n: usize = outcomes.len();
        let mut i: usize = 0;
        proof {
            assert(outs.skip(0) =~= outs);
        }
        while i < n
            invariant
                0 <= i <= n,
                n == outcomes.len(),
                outs == outcomes.deep_view(),
                spec_bulk_read_vlans(old(self)@, outs) == spec_bulk_read_vlans(
                    self@,
                    outs.skip(i as int),
                ),
            decreases n - i,
        {
            let ghost prev = self.devices@;
            proof {
                assert(outs.skip(i as int)[0] == outs[i as int]);
                assert(outs[i as int] == (outcomes[i as int].0, outcomes[i as int].1.deep_view()));
                assert(outs.skip(i as int).skip(1) =~= outs.skip(i as int + 1));
            }
            let id: u32 = outcomes[i].0;
            match self.devices.remove(&id) {
                None => {
                    proof {
                        assert(self.devices@ =~= prev);
                        assert(!device_map_view(prev).contains_key(id));
                    }
                },
                Some(mut device) => {
                    let ghost d0 = device@;
                    let _ = device.read_vlans(&outcomes[i].1);
                    let ghost d2 = device@;
                    self.devices.insert(id, device);
                    proof {
                        assert(device_map_view(prev).contains_key(id));
                        assert(device_map_view(prev)[id] == d0);
                        assert(device_map_view(self.devices@) =~= device_map_view(prev).insert(
                            id,
                            d2,
                        ));
                        assert(d2 == spec_read_vlans_tr(d0, outs[i as int].1).0);
                    }
                },
            }
            i = i + 1;
        }
        proof {
            assert(outs.skip(n as int) =~= Seq::<(u32, StepV)>::empty());
        }
    }

    /// Refreshes the interface map of every device an outcome is given
    /// for, in order, stopping at the first device whose refresh fails.
    pub fn read_interfaces(&mut self, outcomes: &Vec<(u32, StepResult)>) -> (r: Result<
        (),
        ExecutionError,
    >)
        ensures
            ({
                let (m2, res) = spec_bulk_read_interfaces(old(self)@, outcomes.deep_view());
                &&& final(self)@ == m2
                &&& match (r, res) {
                    (Ok(u), Ok(v)) => true,
                    (Err(e), Err(msg)) => e.message@ == msg,
                    _ => false,
                }
            }),
    {
        let ghost outs = outcomes.deep_view();
        let n: usize = outcomes.len();
        let mut i: usize = 0;
        proof {
            assert(outs.skip(0) =~= outs);
        }
        while i < n
            invariant
                0 <= i <= n,
                n == outcomes.len(),
                outs == outcomes.deep_view(),
                spec_bulk_read_interfaces(old(self)@, outs) == spec_bulk_read_interfaces(
                    self@,
                    outs.skip(i as int),
                ),
            decreases n - i,
        {
            let ghost prev = self.devices@;
            proof {
                assert(outs.skip(i as int)[0] == outs[i as int]);
                assert(outs[i as int] == (outcomes[i as int].0, outcomes[i as int].1.deep_view()));
                assert(outs.skip(i as int).skip(1) =~= outs.skip(i as int + 1));
            }
            let id: u32 = outcomes[i].0;
            match self.devices.remove(&id) {
                None => {
                    proof {
                        assert(self.devices@ =~= prev);
                        assert(!device_map_view(prev).contains_key(id));
                    }
                },
                Some(mut device) => {
                    let ghost d0 = device@;
                    let step = device.read_interfaces(&outcomes[i].1);
                    let ghost d2 = device@;
                    self.devices.insert(id, device);
                    proof {
                        assert(device_map_view(prev).contains_key(id));
                        assert(device_map_view(prev)[id] == d0);
                        assert(device_map_view(self.devices@) =~= device_map_view(prev).insert(
                            id,
                            d2,
                        ));
                        assert(d2 == spec_read_interfaces_tr(d0, outs[i as int].1).0);
                    }
                    if let Err(e) = step {
                        return Err(e);
                    }
                },
            }
            i = i + 1;
        }
        proof {
            assert(outs.skip(n as int) =~= Seq::<(u32, StepV)>::empty());
        }
        Ok(())
    }
}

} // verus!
