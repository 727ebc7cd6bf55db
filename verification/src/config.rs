//! Application configuration: the address under which short links are
//! published.

use vstd::prelude::*;

verus! {

/// Where the service publishes its links: protocol, host and port used
/// to render full short and admin URLs.
#[derive(Debug)]
pub struct AppConfig {
    pub base_url: String,
    pub server_port: String,
    pub protocol: String,
}

/// Mathematical image of an [`AppConfig`].
pub struct ConfigModel {
    pub base_url: Seq<char>,
    pub server_port: Seq<char>,
    pub protocol: Seq<char>,
}

impl View for AppConfig {
    type V = ConfigModel;

    open spec fn view(&self) -> ConfigModel {
        ConfigModel {
            base_url: self.base_url@,
            server_port: self.server_port@,
            protocol: self.protocol@,
        }
    }
}

impl Clone for AppConfig {
    /// A field-for-field copy.
    fn clone(&self) -> (r: Self)
        ensures
            r@ == self@,
    {
        AppConfig {
            base_url: self.base_url.clone(),
            server_port: self.server_port.clone(),
            protocol: self.protocol.clone(),
        }
    }
}

} // verus!
