//! Privileged, session-scoped networking for wireless display casting: the logic of
//! a system bus helper that sets up a Wi-Fi Direct group for one session at a time
//! and manages temporary UFW allowances for it, and of its client.
use vstd::prelude::*;

pub mod address;
pub mod call_laws;
pub mod chain_laws;
pub mod client;
pub mod command;
pub mod comparison;
pub mod error;
pub mod firewall;
pub mod history;
pub mod listing;
pub mod number;
pub mod order;
pub mod procedure;
pub mod procedure_laws;
pub mod progress_laws;
pub mod rendering_laws;
pub mod respelling;
pub mod rule_form;
pub mod rule_laws;
pub mod service;
pub mod service_laws;
pub mod session_laws;
pub mod setup;
pub mod setup_laws;
pub mod spelling;
pub mod startup;
pub mod surface_laws;
pub mod table_laws;
pub mod text;
pub mod text_laws;
pub mod validation_laws;

verus! {

/// System bus name and interface of the installed helper.
pub const BUS_NAME: &'static str = "org.waycast.Network1";

/// Object path of the installed helper.
pub const OBJECT_PATH: &'static str = "/org/waycast/Network1";

/// Addressing returned by the helper after group configuration completes.
#[derive(Debug, PartialEq, Eq)]
pub struct SessionInfo {
    /// Kernel P2P data interface (not the discovery device).
    pub interface: String,
    /// Local IPv4 address on the group.
    pub local_ip: String,
    /// IPv4 address of the group owner.
    pub go_ip: String,
    /// RTSP port advertised by the validated sink.
    pub rtsp_port: u16,
}

impl Clone for SessionInfo {
    fn clone(&self) -> (copy: Self)
        ensures
            copy == *self,
    {
        SessionInfo {
            interface: self.interface.clone(),
            local_ip: self.local_ip.clone(),
            go_ip: self.go_ip.clone(),
            rtsp_port: self.rtsp_port,
        }
    }
}

} // verus!
