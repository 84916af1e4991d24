//! VLAN records as scraped from `sh vlan brief`, and the request shape used
//! to create one.

use vstd::prelude::*;
use vstd::string::StringExecFns;

verus! {

/// One VLAN of a device: its name, its free-text status token, and the ids
/// of the interfaces listed in its ports column, in encounter order.
#[derive(Debug, Clone)]
pub struct Vlan {
    pub name: String,
    pub status: String,
    pub ports: Vec<u32>,
}

/// Mathematical model of a [`Vlan`].
pub ghost struct VlanV {
    pub name: Seq<char>,
    pub status: Seq<char>,
    pub ports: Seq<u32>,
}

impl View for Vlan {
    type V = VlanV;

    open spec fn view(&self) -> VlanV {
        VlanV { name: self.name@, status: self.status@, ports: self.ports@ }
    }
}

impl DeepView for Vlan {
    type V = VlanV;

    open spec fn deep_view(&self) -> VlanV {
        self.view()
    }
}

impl Default for Vlan {
    /// The placeholder record: VLAN 1 suspended, with no ports.
    fn default() -> (v: Vlan)
        ensures
            v@.name == "Vlan1"@,
            v@.status == "Suspended"@,
            v@.ports == Seq::<u32>::empty(),
    {
        Vlan { name: "Vlan1".to_owned(), status: "Suspended".to_owned(), ports: Vec::new() }
    }
}

/// Request to create a VLAN: the number it shall carry, its name, and the
/// interfaces to associate with it.
#[derive(Debug, Clone)]
pub struct VlanDTO {
    pub number: u32,
    pub name: String,
    pub interfaces: Vec<u32>,
}

} // verus!
