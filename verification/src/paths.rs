//! Fixed locations on the target system.
use vstd::prelude::*;

verus! {

/// Directory of symbolic links named after filesystem labels.
pub const BY_LABEL_PATH: &'static str = "/dev/disk/by-label";

/// Where the SEED device is mounted.
pub const MOUNT_PATH: &'static str = "/run/hero-init/seed";

/// Directory of per-device attributes, each with a `size` file in sectors.
pub const DEVICE_CAPACITY_PATH: &'static str = "/sys/class/block";

/// The system host name file.
pub const HOSTNAME_PATH: &'static str = "/etc/hostname";

/// The host table.
pub const HOSTS_FILE_PATH: &'static str = "/etc/hosts";

/// Where the instance identifier is kept between boots.
pub const INSTANCE_ID_PATH: &'static str = "/var/lib/hero-init/instance-id";

/// Where the set of completed modules is kept between boots.
pub const HERO_STATE_PATH: &'static str = "/var/lib/hero-init/state";

/// Netplan configuration written by this tool.
pub const NET_PLAN_CONFIG_PATH: &'static str = "/etc/netplan/01-hero-init.yaml";

/// ifupdown interfaces file.
pub const IF_UP_DOWN_CONFIG_PATH: &'static str = "/etc/network/interfaces";

/// The user database.
pub const PASSWD_FILE_PATH: &'static str = "/etc/passwd";

/// Directory of sudoers drop-in files.
pub const SUDOERS_PATH: &'static str = "/etc/sudoers.d";

/// Login shell given to created users.
pub const BASH_PATH: &'static str = "/bin/bash";

/// Directory of the log file.
pub const HERO_LOG_DIR_PATH: &'static str = "/var/log/hero-init";

/// The log file.
pub const HERO_LOG_PATH: &'static str = "/var/log/hero-init/hero-init.log";

/// The log file used when the usual one cannot be opened.
pub const HERO_LOG_FALLBACK_PATH: &'static str = "/tmp/hero-init.log";

} // verus!
