//! Interface records as scraped from `sh ip int brief`, and the request
//! shape used to configure one.

use vstd::prelude::*;

verus! {

/// One interface of a device: its vendor family name (for instance
/// `FastEthernet`), its slot/port addressing, the assigned address text
/// (which may read `unassigned`), and its free-text status token.
#[derive(Debug, Clone)]
pub struct Interface {
    pub int_type: String,
    pub module: u32,
    pub number: u32,
    pub ip_address: String,
    pub status: String,
}

/// Mathematical model of an [`Interface`].
pub ghost struct InterfaceV {
    pub int_type: Seq<char>,
    pub module: u32,
    pub number: u32,
    pub ip_address: Seq<char>,
    pub status: Seq<char>,
}

impl View for Interface {
    type V = InterfaceV;

    open spec fn view(&self) -> InterfaceV {
        InterfaceV {
            int_type: self.int_type@,
            module: self.module,
            number: self.number,
            ip_address: self.ip_address@,
            status: self.status@,
        }
    }
}

impl DeepView for Interface {
    type V = InterfaceV;

    open spec fn deep_view(&self) -> InterfaceV {
        self.view()
    }
}

/// Request to configure an interface: the address and mask to assign and
/// the desired administrative state token (`"up"` or `"down"`).
#[derive(Debug, Clone)]
pub struct InterfaceDTO {
    pub ip_address: String,
    pub mask: String,
    pub status: String,
}

/// The administrative states a configuration request may ask for.
#[derive(Debug, Clone, Copy, PartialEq, Eq, Structural)]
pub enum InterfaceStatus {
    UP,
    DOWN,
}

} // verus!
