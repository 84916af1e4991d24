//! Control-plane engine for a fleet of Cisco-style switches managed over
//! serial console links.
//!
//! The library holds everything that can be stated and proved: the tabular
//! parsers for `sh vlan brief` and `sh ip int brief` output, the composition
//! of CLI command strings, the per-device mutation state machine, and the
//! device registry.  Serial and HTTP I/O live outside the library; callers
//! perform each console exchange and hand the outcome back in as a plain
//! value, so every decision taken on console text is verified here.

pub mod commands;
pub mod config_handler;
pub mod execution_error;
pub mod interface;
pub mod laws;
pub mod network_device;
pub mod network_devices_handler;
pub mod parser;
pub mod text;
pub mod vlan;

pub use config_handler::ConfigHandler;
pub use execution_error::ExecutionError;
pub use interface::Interface;
pub use interface::InterfaceDTO;
pub use interface::InterfaceStatus;
pub use network_device::NetworkDevice;
pub use network_device::StepResult;
pub use network_devices_handler::NetworkDevicesHandler;
pub use vlan::Vlan;
pub use vlan::VlanDTO;
