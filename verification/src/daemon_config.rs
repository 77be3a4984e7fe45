//! How the mounted file system is set up.

use vstd::prelude::*;
use crate::service::FSMetaService;
use crate::text::joined;

verus! {

pub const DEFAULT_STORE_LAYOUT_CONFIG_PATH: &'static str = "/opt/buckyos/etc/store_layout.json";

pub const DEFAULT_FS_DAEMON_CONFIG_PATH: &'static str = "/opt/buckyos/etc/fs_daemon.json";

/// A layout with fewer stores is refused.
pub const MIN_STORES: usize = 3;

/// Where to mount, and where the two configurations lie.
#[derive(Debug, Clone, PartialEq, Eq)]
pub struct FsDaemonRunOptions {
    pub mountpoint: String,
    pub store_config_path: String,
    pub service_config_path: String,
}

/// One store of a layout.
#[derive(Debug, Clone, PartialEq, Eq)]
pub struct StoreConfigEntry {
    pub store_id: Option<String>,
    pub path: String,
    pub capacity: Option<u64>,
    pub used: Option<u64>,
    pub readonly: bool,
    pub enabled: bool,
    pub weight: u32,
}

impl Default for StoreConfigEntry {
    /// A store is in use and writable unless it says otherwise.
    fn default() -> (r: Self)
        ensures
            r.store_id is None,
            r.path@ == Seq::<char>::empty(),
            r.capacity is None,
            r.used is None,
            !r.readonly,
            r.enabled,
            r.weight == 1,
    {
        StoreConfigEntry {
            store_id: None,
            path: String::new(),
            capacity: None,
            used: None,
            readonly: false,
            enabled: true,
            weight: 1,
        }
    }
}

/// The stores that content is spread over.
#[derive(Debug, Clone, PartialEq, Eq)]
pub struct StoreLayoutConfigFile {
    pub epoch: u64,
    pub stores: Vec<StoreConfigEntry>,
    pub total_capacity: Option<u64>,
    pub total_used: Option<u64>,
}

impl Default for StoreLayoutConfigFile {
    fn default() -> (r: Self)
        ensures
            r.epoch == 1,
            r.stores@.len() == 0,
            r.total_capacity is None,
            r.total_used is None,
    {
        StoreLayoutConfigFile {
            epoch: 1,
            stores: Vec::new(),
            total_capacity: None,
            total_used: None,
        }
    }
}

/// The services behind the mount.
#[derive(Debug, Clone, PartialEq, Eq)]
pub struct FsDaemonServiceConfig {
    pub instance_id: String,
    pub http_backend_links: Vec<(String, String)>,
    pub fs_buffer_dir: String,
    pub fs_meta_db_path: String,
    /// Zero means no limit.
    pub fs_buffer_size_limit: u64,
}

impl Default for FsDaemonServiceConfig {
    fn default() -> (r: Self)
        ensures
            r.instance_id@ == "default"@,
            r.http_backend_links@.len() == 0,
            r.fs_buffer_dir@ == "/opt/buckyos/var/fs_buffer"@,
            r.fs_meta_db_path@ == "/opt/buckyos/var/fs_meta/fs_meta.db"@,
            r.fs_buffer_size_limit == 0,
    {
        FsDaemonServiceConfig {
            instance_id: "default".to_owned(),
            http_backend_links: Vec::new(),
            fs_buffer_dir: "/opt/buckyos/var/fs_buffer".to_owned(),
            fs_meta_db_path: "/opt/buckyos/var/fs_meta/fs_meta.db".to_owned(),
            fs_buffer_size_limit: 0,
        }
    }
}

impl StoreLayoutConfigFile {
    /// Whether the layout read from `path` has enough stores; if not, what to say.
    pub fn check_stores(&self, path: &str) -> (r: Result<(), String>)
        ensures
            match r {
                Ok(_) => self.stores@.len() >= MIN_STORES,
                Err(text) => self.stores@.len() < MIN_STORES && text@ == "store config "@ + path@
                    + " must include at least 3 stores"@,
            },
    {
        if self.stores.len() < MIN_STORES {
            let mut text: String = joined("store config ", path);
            text.append(" must include at least 3 stores");
            return Err(text);
        }
        Ok(())
    }
}

/// Holds the metadata service until it is started.
pub struct FsMetaServiceRunner {
    pub service: Option<FSMetaService>,
}

impl FsMetaServiceRunner {
    pub fn new(service: FSMetaService) -> (r: Self)
        ensures
            r.service == Some(service),
    {
        FsMetaServiceRunner { service: Some(service) }
    }

    /// Hands the service over; it can be started once.
    pub fn start_in_process(self) -> (r: Result<FSMetaService, String>)
        ensures
            match r {
                Ok(s) => self.service == Some(s),
                Err(text) => self.service is None && text@ == "fs_meta runner already started"@,
            },
    {
        match self.service {
            Some(s) => Ok(s),
            None => Err("fs_meta runner already started".to_owned()),
        }
    }
}

} // verus!
