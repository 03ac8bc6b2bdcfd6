//! Snapshots of a root file system: making, changing, deploying and deleting them.
//!
//! The operations do nothing themselves. Each one makes requests of its surroundings and goes
//! on with the replies, which it takes from a [`host::Host`]. Where a reply is not known yet,
//! the operation stops at the request; it is run again once the reply is there. What an
//! operation asks for, in which order and depending on which replies, is its script, and its
//! contract says that it follows that script.

pub mod changing;
pub mod chroots;
pub mod clearing;
pub mod cloning;
pub mod config;
pub mod deployment;
pub mod dirs;
pub mod editing;
pub mod exchange;
pub mod exchanging;
pub mod growing;
pub mod guard;
pub mod guarding;
pub mod handling;
pub mod host;
pub mod laws;
pub mod model;
pub mod mounting;
pub mod mounts;
pub mod outcomes;
pub mod owed;
pub mod packages;
pub mod paths;
pub mod placing;
pub mod possible;
pub mod profile;
pub mod profiles;
pub mod reading;
pub mod rebuild;
pub mod rebuilding;
pub mod record;
pub mod recovery;
pub mod request;
pub mod script;
pub mod settling;
pub mod snapshots;
pub mod spreading;
pub mod supplying;
pub mod system;
pub mod telling;
pub mod text;
pub mod trees;
pub mod triage;
pub mod triaging;

pub use crate::chroots::{
    chr_delete, chroot_check, chroot_exec, chroot_in, post_transactions, posttrans, prepare,
    snapshot_unlock,
};
pub use crate::config::{comment_after_hash, snapshot_config_get, Options};
pub use crate::deployment::{
    check_mutability, deploy, deploy_recovery, get_aux_tmp, get_current_snapshot,
    get_next_snapshot, get_part, get_recovery_aux_tmp, get_recovery_tmp, get_tmp, live_unlock,
    print_tmp, tmp_delete,
};
pub use crate::dirs::{allow_dir_mut, remove_dir_content};
pub use crate::editing::{chroot, snapshot_config_edit, snapshot_profile_edit};
pub use crate::exchange::{export, get_import_snapshot_name, import, import_base};
pub use crate::host::{yes_no, Halt, Host};
pub use crate::mounts::{ash_mounts, ash_umounts, is_efi, is_mounted};
pub use crate::packages::{
    ash_version, diff, fixdb, install, install_live, install_profile, install_profile_live,
    is_pkg_installed, list, noninteractive_update, refresh, uninstall, uninstall_live,
    uninstall_profile, uninstall_profile_live, upgrade, which_snapshot_has,
};
pub use crate::profile::{read_profile, Profile};
pub use crate::profiles::{check_profile, is_system_locked, is_system_pkg};
pub use crate::rebuild::{hollow, rebuild, rebuild_base, rebuild_prep, reset};
pub use crate::request::{
    Entry, Error, ErrorKind, ExitStatus, LocalTime, MountMode, Reply, Request,
};
pub use crate::script::Build;
pub use crate::snapshots::{
    branch_create, clone_as_tree, clone_branch, clone_recursive, clone_under, delete_node,
    find_new, immutability_disable, immutability_enable, rollback, snapshot_base_new,
    temp_snapshots_clear, update_etc, write_desc,
};
pub use crate::system::{
    check_update, efi_boot_order, list_subvolumes, switch_to_windows, sync_time,
};
pub use crate::trees::{
    tree_install, tree_remove, tree_run, tree_show, tree_sync, tree_upgrade,
};
pub use crate::triage::{install_triage, uninstall_triage};
