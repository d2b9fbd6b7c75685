//! Application settings.
use vstd::prelude::*;

verus! {

/// Application settings, kept as JSON in the data directory.
#[derive(Debug)]
pub struct AppConfig {
    pub grid_rows: u8,
    pub grid_cols: u8,
    /// Address the host listens on, `ip:port`.
    pub listen_addr: String,
    /// Directory for keys, certificates and stores.
    pub data_dir: String,
    pub mdns_enabled: bool,
    pub log_level: String,
}

impl AppConfig {
    /// The default settings with data kept in `data_dir`: a 3 x 3 grid,
    /// listening on 0.0.0.0:7443, discovery on, log level "info".
    pub fn default_in(data_dir: String) -> (r: Self)
        ensures
            r.grid_rows == 3,
            r.grid_cols == 3,
            r.listen_addr@ == "0.0.0.0:7443"@,
            r.data_dir == data_dir,
            r.mdns_enabled,
            r.log_level@ == "info"@,
    {
        AppConfig {
            grid_rows: 3,
            grid_cols: 3,
            listen_addr: "0.0.0.0:7443".to_owned(),
            data_dir,
            mdns_enabled: true,
            log_level: "info".to_owned(),
        }
    }
}

} // verus!
