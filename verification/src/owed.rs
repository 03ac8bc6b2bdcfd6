//! Success is owed: on which inputs each operation can succeed.

use vstd::prelude::*;
use crate::chroots::{
    chr_delete_script, chroot_exec_script, chroot_in_script, collect, collect_all, drop_there,
    drop_three, identity_script, keep_copy, post_transactions_script, posttrans_script,
    prepare_script,
};
use crate::config::{dir_list, settings, snapshot_config_get_script};
use crate::deployment::{
    backup_script, check_mutability_script, clear_slot, deploy_recovery_script, deploy_script,
    deployed_script, enter_dirs_script, get_current_snapshot_script, get_next_snapshot_script,
    get_recovery_tmp_script, get_tmp_script, mounts_script, note_recovery_script, other_line,
    place_recovery_script, place_script, rename_script, tmp_delete_script, writable_root,
    writable_script,
};
use crate::dirs::{
    entries_script, listing_end, mount_dirs_script, mount_mutable_dirs_script, remove_any_fn,
    remove_dir_content_script, unmount_mutable_dirs_script,
};
use crate::editing::{
    apply_edit_script, chroot_command, chroot_script, chroot_shell_script, edit_config_script,
    edit_profile_script, keep_changes_script, own_editor_script,
};
use crate::guard::{base_fixed, guard_script, in_use, missing, ready_script};
use crate::mounts::{ash_mounts_script, ash_umounts_script};
use crate::packages::{
    carry_out_script, distro_script, if_section, install_end_script, install_in_live_script,
    install_live_script, install_profile_live_script, install_profile_script, install_script,
    load_old_script, load_script, presets_script, read_script, renew_recovery_script,
    uninstall_end_script, uninstall_live_script, uninstall_profile_live_script,
    uninstall_profile_script, uninstall_script, upgrade_end_script, upgrade_guard_script,
    upgrade_script, upgraded_script,
};
use crate::paths::{chr, entries_of, fstab, mutable_mark, rootfs, snap_file, Volume};
use crate::possible::{
    can, can_give, can_given, gives, lemma_gives_chain, lemma_gives_confirm, lemma_gives_flag,
    lemma_gives_listing, lemma_gives_text,
};
use crate::profile::{keys_of, Table};
use crate::profiles::{
    apply_script, check_profile_script, dedup, new_profile, rewrite_script, sync_each,
    sync_services, without,
};
use crate::rebuild::{
    arm_script, collect_three_script, disarm_script, hollow_keep_script, hollow_script,
    rebuild_base_script, rebuild_copy_script, rebuild_guard_script, rebuild_prep_script,
    rebuild_script, reset_consent_script, reset_question, reset_run_script, reset_script,
    restart_question,
};
use crate::request::{Answer, Fault, Req};
use crate::script::{
    chain, confirm, crash, done, each, flag, give, listing, profile, sure, text, warn, Build,
    Script,
};
use crate::snapshots::{
    branch_create_script, clone_as_tree_script, clone_branch_script, clone_under_script,
    copy_snapshot_script, delete_node_script, delete_one_fn, delete_one_script, erase_one_script,
    erase_script, find_new_script, free_number, full_list_script, grow_script,
    immutability_disable_script, immutability_enable_script, new_node_script, permit_script,
    rollback_script, snapshot_base_new_script, subvolumes_script, unmark_script, unused,
    update_etc_script, write_desc_script,
};
use crate::text::{decimal, lines, trimmed, trimmed_end};
use crate::trees::{
    branches_script, first_upgrade_script, free_script, job_script, profile_end_script,
    run_in_script, spread_fn, spread_script, sync_in_script, sync_live_script, tree_install_script,
    tree_job_script, tree_jobs_script, tree_remove_script, tree_run_script, tree_sync_script,
    tree_there_script, tree_upgrade_script, upgrade_in_script, Task,
};

verus! {

/// No options are set.
pub open spec fn no_options() -> Map<Seq<char>, Seq<char>> {
    Map::empty()
}

broadcast proof fn can_remove_dir_content(dir: Seq<char>)
    ensures
        #[trigger] can(remove_dir_content_script(dir)),
{
    broadcast use crate::possible::group_can;

    let none: (Seq<Seq<char>>, Option<Fault>) = (seq![], None);
    let ask = Req::ListDir { path: dir };
    reveal(entries_script);
    reveal(remove_dir_content_script);
    lemma_gives_listing(ask, none);
    let k = |found: (Seq<Seq<char>>, Option<Fault>)|
        if entries_of(dir, found.0) {
            give(found)
        } else {
            Script::End(Err(crate::script::Stop::Misfit))
        };
    assert(gives(k(none), none));
    lemma_gives_chain(listing(ask), k, none, none);
    assert(entries_script(dir) == chain(listing(ask), k));
    let k2 = |found: (Seq<Seq<char>>, Option<Fault>)|
        chain(each(found.0, remove_any_fn()), |u: ()| listing_end(found.1));
    assert(can(k2(none)));
    can_given(entries_script(dir), k2, none);
    assert(remove_dir_content_script(dir) == chain(entries_script(dir), k2));
}

broadcast proof fn can_drop_there(v: Volume, id: Seq<char>)
    ensures
        #[trigger] can(drop_there(v, id)),
{
    broadcast use crate::possible::group_can;

    reveal(drop_there);
}

broadcast proof fn can_drop_three(id: Seq<char>)
    ensures
        #[trigger] can(drop_three(id)),
{
    broadcast use {crate::possible::group_can, can_drop_there};

    reveal(drop_three);
}

broadcast proof fn can_chr_delete(snapshot: Seq<char>)
    ensures
        #[trigger] can(chr_delete_script(snapshot)),
{
    broadcast use {crate::possible::group_can, can_drop_three};

    reveal(chr_delete_script);
}

broadcast proof fn can_ash_mounts(i: Seq<char>, prefix: Seq<char>)
    ensures
        #[trigger] can(ash_mounts_script(i, prefix)),
{
    broadcast use crate::possible::group_can;

    reveal(ash_mounts_script);
}

broadcast proof fn can_ash_umounts(i: Seq<char>, prefix: Seq<char>)
    ensures
        #[trigger] can(ash_umounts_script(i, prefix)),
{
    broadcast use crate::possible::group_can;

    reveal(ash_umounts_script);
}

broadcast proof fn can_config(build: Build, snapshot: Seq<char>)
    ensures
        #[trigger] gives(snapshot_config_get_script(build, snapshot), no_options()),
{
    let file = crate::config::config_file(snapshot);
    let ask = Req::IsFile { path: file };
    let read = Req::ReadText { path: file };
    let none: Seq<char> = seq![];
    reveal(snapshot_config_get_script);
    lemma_gives_flag(ask, true);
    lemma_gives_text(read, none);
    let k2 = |content: Seq<char>| give(settings(lines(content)));
    assert(settings(lines(none)) =~= no_options());
    assert(gives(k2(none), no_options()));
    lemma_gives_chain(sure(text(read)), k2, none, no_options());
    let k = |there: bool|
        if !there {
            give(crate::config::default_options(build))
        } else {
            chain(
                crate::script::sure(text(Req::ReadText { path: crate::config::config_file(snapshot) })),
                |content: Seq<char>| give(settings(lines(content))),
            )
        };
    assert(k(true) == chain(sure(text(read)), k2));
    lemma_gives_chain(flag(ask), k, true, no_options());
    assert(snapshot_config_get_script(build, snapshot) == chain(flag(ask), k));
}

broadcast proof fn can_mount_dirs(home: Seq<char>, store: Seq<char>, root: Seq<char>)
    ensures
        #[trigger] can(
            mount_dirs_script(home, store, root, Seq::<Seq<char>>::empty()),
        ),
{
    broadcast use crate::possible::group_can;

    reveal(mount_dirs_script);
}

broadcast proof fn can_mount_mutable_dirs(build: Build, snapshot: Seq<char>)
    ensures
        #[trigger] can(mount_mutable_dirs_script(build, snapshot)),
{
    broadcast use {
        crate::possible::group_can,
        crate::possible::can_given,
        can_config,
        can_mount_dirs,
    };

    reveal(mount_mutable_dirs_script);
    assert(gives(snapshot_config_get_script(build, snapshot), no_options()));
    assert(dir_list(no_options(), "mutable_dirs"@) =~= Seq::<Seq<char>>::empty());
    assert(dir_list(no_options(), "mutable_dirs_shared"@) =~= Seq::<Seq<char>>::empty());
}

broadcast proof fn can_unmount_mutable_dirs(build: Build, id: Seq<char>, named: Seq<char>)
    ensures
        #[trigger] can(unmount_mutable_dirs_script(build, id, named)),
{
    broadcast use {
        crate::possible::group_can,
        crate::possible::can_given,
        can_config,
    };

    reveal(unmount_mutable_dirs_script);
    assert(gives(snapshot_config_get_script(build, id), no_options()));
    assert(dir_list(no_options(), "mutable_dirs"@) =~= Seq::<Seq<char>>::empty());
    assert(dir_list(no_options(), "mutable_dirs_shared"@) =~= Seq::<Seq<char>>::empty());
}

broadcast proof fn can_identity(id: Seq<char>)
    ensures
        #[trigger] can(identity_script(id)),
{
    broadcast use crate::possible::group_can;

    reveal(identity_script);
}

/// A temporary copy of any snapshot can be made.
pub broadcast proof fn can_prepare(build: Build, snapshot: Seq<char>)
    ensures
        #[trigger] can(prepare_script(build, snapshot)),
{
    broadcast use {
        crate::possible::group_can,
        can_chr_delete,
        can_ash_mounts,
        can_mount_mutable_dirs,
        can_identity,
    };

    reveal(prepare_script);
}

broadcast proof fn can_collect(v: Volume, snapshot: Seq<char>, rest: Seq<char>)
    ensures
        #[trigger] can(collect(v, snapshot, rest)),
{
    broadcast use {crate::possible::group_can, can_remove_dir_content};

    reveal(collect);
}

broadcast proof fn can_collect_all(snapshot: Seq<char>)
    ensures
        #[trigger] can(collect_all(snapshot)),
{
    broadcast use {crate::possible::group_can, can_collect};

    reveal(collect_all);
}

broadcast proof fn can_keep_copy(id: Seq<char>, snapshot: Seq<char>)
    ensures
        #[trigger] can(keep_copy(id, snapshot)),
{
    broadcast use crate::possible::group_can;

    reveal(keep_copy);
}

/// The temporary copy of any snapshot can take its place.
pub broadcast proof fn can_post_transactions(build: Build, snapshot: Seq<char>)
    ensures
        #[trigger] can(post_transactions_script(build, snapshot)),
{
    broadcast use {
        crate::possible::group_can,
        can_collect_all,
        can_drop_three,
        can_drop_there,
        can_keep_copy,
        can_ash_umounts,
        can_unmount_mutable_dirs,
        can_chr_delete,
    };

    reveal(post_transactions_script);
}

broadcast proof fn can_guard(verb: Seq<char>, snapshot: Seq<char>)
    requires
        snapshot != "0"@,
    ensures
        #[trigger] can(guard_script(verb, snapshot)),
{
    broadcast use crate::possible::group_can;

    reveal(guard_script);
}

/// Working on the temporary copy of a snapshot can succeed.
pub broadcast group group_owed {
    can_remove_dir_content,
    can_drop_there,
    can_drop_three,
    can_chr_delete,
    can_ash_mounts,
    can_ash_umounts,
    can_config,
    can_identity,
    can_prepare,
    can_collect,
    can_keep_copy,
    can_post_transactions,
    can_guard,
}

/// Packages can be installed in every snapshot but the base one, whichever they are, and removed
/// from it.
pub proof fn law_install_owed(build: Build, snapshot: Seq<char>, pkgs: Seq<Seq<char>>, noconfirm: bool)
    requires
        snapshot != "0"@,
    ensures
        can(install_script(build, snapshot, pkgs, noconfirm)),
        can(uninstall_script(build, snapshot, pkgs, noconfirm)),
{
    broadcast use {crate::possible::group_can, group_owed};

    reveal(install_script);
    reveal(install_end_script);
    reveal(uninstall_script);
    reveal(uninstall_end_script);
}

broadcast proof fn can_get_tmp()
    ensures
        #[trigger] can(get_tmp_script()),
{
    broadcast use {crate::possible::group_can, crate::possible::can_any};

    reveal(get_tmp_script);
    reveal(mounts_script);
}

broadcast proof fn can_get_current_snapshot()
    ensures
        #[trigger] can(get_current_snapshot_script()),
{
    broadcast use crate::possible::group_can;

    reveal(get_current_snapshot_script);
}

broadcast proof fn can_backup(tmp: Seq<char>)
    ensures
        #[trigger] can(backup_script(tmp)),
{
    broadcast use crate::possible::group_can;

    reveal(backup_script);
}

broadcast proof fn can_clear_slot(tmp: Seq<char>)
    ensures
        #[trigger] can(clear_slot(tmp)),
{
    broadcast use crate::possible::group_can;

    reveal(clear_slot);
}

broadcast proof fn can_tmp_delete(secondary: bool)
    ensures
        #[trigger] can(tmp_delete_script(secondary)),
{
    broadcast use {
        crate::possible::group_can,
        crate::possible::can_any,
        can_get_tmp,
        can_clear_slot,
    };

    reveal(tmp_delete_script);
}

broadcast proof fn can_writable(snapshot: Seq<char>, tmp: Seq<char>)
    ensures
        #[trigger] can(writable_script(snapshot, tmp)),
{
    broadcast use crate::possible::group_can;

    let k = |mutable: bool|
        if mutable {
            chain(
                text(Req::ReadText { path: fstab(tmp) }),
                |content: Seq<char>|
                    match writable_root(content, tmp) {
                        Some(new) => done(Req::WriteText { path: fstab(tmp), text: new }),
                        None => give(()),
                    },
            )
        } else {
            give(())
        };
    reveal(writable_script);
    reveal(check_mutability_script);
    let ask = Req::Exists { path: mutable_mark(snapshot) };
    lemma_gives_flag(ask, false);
    assert(can(k(false)));
    can_given(sure(flag(ask)), k, false);
    assert(writable_script(snapshot, tmp) == chain(sure(flag(ask)), k));
}

broadcast proof fn can_enter_dirs(
    options: Map<Seq<char>, Seq<char>>,
    snapshot: Seq<char>,
    tmp: Seq<char>,
)
    ensures
        #[trigger] can(enter_dirs_script(options, snapshot, tmp)),
{
    broadcast use crate::possible::group_can;

    reveal(enter_dirs_script);
}

broadcast proof fn can_place(
    build: Build,
    snapshot: Seq<char>,
    tmp: Seq<char>,
    secondary: bool,
    reset: bool,
)
    ensures
        #[trigger] can(place_script(build, snapshot, tmp, secondary, reset)),
{
    broadcast use {
        crate::possible::group_can,
        crate::possible::can_any,
        can_writable,
        can_enter_dirs,
    };

    can_config(build, snapshot);
    assert(can(snapshot_config_get_script(build, snapshot)));
    reveal(place_script);
}

/// Every snapshot can be deployed.
pub broadcast proof fn can_deploy(build: Build, snapshot: Seq<char>, secondary: bool, reset: bool)
    ensures
        #[trigger] can(deploy_script(build, snapshot, secondary, reset)),
{
    broadcast use {
        crate::possible::group_can,
        crate::possible::can_any,
        can_get_tmp,
        can_backup,
        can_tmp_delete,
        can_place,
    };

    reveal(deploy_script);
}

broadcast proof fn can_rename(tmp: Seq<char>)
    ensures
        #[trigger] can(rename_script(tmp)),
{
    broadcast use crate::possible::group_can;

    reveal(rename_script);
}

broadcast proof fn can_note_recovery(build: Build, tmp: Seq<char>)
    ensures
        #[trigger] can(note_recovery_script(build, tmp)),
{
    broadcast use {crate::possible::group_can, group_owed};

    reveal(note_recovery_script);
}

broadcast proof fn can_place_recovery(
    build: Build,
    options: Map<Seq<char>, Seq<char>>,
    tmp: Seq<char>,
)
    ensures
        #[trigger] can(place_recovery_script(build, options, tmp)),
{
    broadcast use {
        crate::possible::group_can,
        can_clear_slot,
        can_rename,
        can_writable,
        can_enter_dirs,
        can_note_recovery,
    };

    reveal(place_recovery_script);
}

/// The recovery deployment can be renewed.
pub broadcast proof fn can_deploy_recovery(build: Build)
    ensures
        #[trigger] can(deploy_recovery_script(build)),
{
    broadcast use {
        crate::possible::group_can,
        crate::possible::can_any,
        can_place_recovery,
    };

    can_config(build, "0"@);
    assert(can(snapshot_config_get_script(build, "0"@)));
    assert(can(get_recovery_tmp_script())) by {
        reveal(get_recovery_tmp_script);
    }
    reveal(deploy_recovery_script);
}

/// Every snapshot but the base one can be upgraded, and the base one too where that is allowed.
pub proof fn law_upgrade_owed(build: Build, snapshot: Seq<char>, baseup: bool, noconfirm: bool)
    requires
        snapshot != "0"@ || baseup,
    ensures
        can(upgrade_script(build, snapshot, baseup, noconfirm)),
{
    broadcast use {crate::possible::group_can, group_owed, can_deploy_recovery};

    assert(can(upgrade_guard_script(snapshot, baseup))) by {
        reveal(upgrade_guard_script);
    }
    assert(can(renew_recovery_script(build, baseup))) by {
        reveal(renew_recovery_script);
    }
    assert(can(upgraded_script(build, snapshot, baseup))) by {
        reveal(upgraded_script);
    }
    reveal(upgrade_script);
    reveal(upgrade_end_script);
}

// ------------------------------------------------------------------ profiles

broadcast proof fn can_chroot_exec(root: Seq<char>, cmd: Seq<char>)
    ensures
        #[trigger] can(chroot_exec_script(root, cmd)),
{
    broadcast use crate::possible::group_can;

    reveal(chroot_exec_script);
}

broadcast proof fn can_carry_out(
    build: Build,
    snapshot: Seq<char>,
    p: Table,
    live: Option<Seq<char>>,
    noconfirm: bool,
    root: Seq<char>,
)
    ensures
        #[trigger] can(carry_out_script(build, snapshot, p, live, noconfirm, root)),
{
    broadcast use {crate::possible::group_can, can_chroot_exec};

    assert(can(presets_script(build, snapshot, p))) by {
        reveal(presets_script);
    }
    assert forall|section: Seq<char>, req: Req| can(#[trigger] if_section(p, section, req)) by {}
    reveal(carry_out_script);
}

broadcast proof fn can_read(path: Seq<char>)
    ensures
        #[trigger] can(read_script(path)),
{
    broadcast use crate::possible::group_can;

    reveal(read_script);
    let ask = Req::ReadProfile { path };
    let p: Table = seq![];
    assert(gives(profile(ask), p)) by {
        reveal_with_fuel(gives, 2);
        if let Script::Ask(_, c) = profile(ask) {
            assert(gives(c(Answer::Profile(p)), p));
        }
    }
    assert(can(profile(ask)));
}

broadcast proof fn can_load(
    file: Seq<char>,
    force: bool,
    user: Seq<char>,
    snapshot: Seq<char>,
    live: Option<Seq<char>>,
)
    ensures
        #[trigger] can(load_script(file, force, user, snapshot, live)),
{
    broadcast use {crate::possible::group_can, can_read};

    reveal(load_script);
}

broadcast proof fn can_load_old(file: Seq<char>, user: Seq<char>)
    ensures
        #[trigger] can(load_old_script(file, user)),
{
    broadcast use {crate::possible::group_can, can_read};

    reveal(load_old_script);
}

broadcast proof fn can_distro()
    ensures
        #[trigger] can(distro_script()),
{
    broadcast use crate::possible::group_can;

    reveal(distro_script);
}

/// A profile can be installed in every snapshot but the base one, and removed from it.
pub proof fn law_profile_owed(
    build: Build,
    snapshot: Seq<char>,
    name: Seq<char>,
    force: bool,
    secondary: bool,
    user: Seq<char>,
    noconfirm: bool,
)
    requires
        snapshot != "0"@,
    ensures
        can(install_profile_script(build, snapshot, name, force, secondary, user, noconfirm)),
        can(uninstall_profile_script(build, snapshot, name, user, noconfirm)),
{
    broadcast use {
        crate::possible::group_can,
        crate::possible::can_any,
        group_owed,
        can_carry_out,
        can_load,
        can_load_old,
        can_distro,
        can_chroot_exec,
    };

    assert forall|p: Table, section: Seq<char>, req: Req| can(
        #[trigger] if_section(p, section, req),
    ) by {}
    reveal(install_profile_script);
    reveal(uninstall_profile_script);
}

/// Packages and profiles can be installed in the deployment that runs, and removed from it.
pub proof fn law_live_owed(
    build: Build,
    snapshot: Seq<char>,
    pkgs: Seq<Seq<char>>,
    name: Seq<char>,
    force: bool,
    user: Seq<char>,
    noconfirm: bool,
)
    ensures
        can(install_live_script(pkgs, noconfirm)),
        can(uninstall_live_script(pkgs, noconfirm)),
        can(install_profile_live_script(build, snapshot, name, force, user, noconfirm)),
        can(uninstall_profile_live_script(snapshot, name, user, noconfirm)),
{
    broadcast use {
        crate::possible::group_can,
        crate::possible::can_any,
        group_owed,
        can_get_tmp,
        can_get_current_snapshot,
        can_carry_out,
        can_load,
        can_load_old,
        can_distro,
        can_chroot_exec,
    };

    assert forall|p: Table, section: Seq<char>, req: Req| can(
        #[trigger] if_section(p, section, req),
    ) by {}
    assert(can(install_live_script(pkgs, noconfirm))) by {
        reveal(install_live_script);
    }
    assert(can(uninstall_live_script(pkgs, noconfirm))) by {
        reveal(uninstall_live_script);
    }
    assert(can(install_profile_live_script(build, snapshot, name, force, user, noconfirm))) by {
        reveal(install_in_live_script);
        reveal(install_profile_live_script);
    }
    assert(can(uninstall_profile_live_script(snapshot, name, user, noconfirm))) by {
        reveal(uninstall_profile_live_script);
    }
}

// --------------------------------------------------------------------- trees

broadcast proof fn can_free(snapshot: Seq<char>, complaint: Seq<char>)
    ensures
        #[trigger] can(free_script(snapshot, complaint)),
{
    broadcast use crate::possible::group_can;

    reveal(free_script);
}

/// A task can be done for every snapshot but the base one; running a command, upgrading and
/// synchronising even for that one.
pub proof fn law_job_owed(build: Build, job: Task, snapshot: Seq<char>)
    requires
        snapshot != "0"@ || job is Run || job is Upgrade || job is Sync,
    ensures
        can(job_script(build, job, snapshot)),
{
    broadcast use {
        crate::possible::group_can,
        group_owed,
        can_free,
        can_chroot_exec,
    };

    assert(can(post_transactions_script(build, snapshot)));
    match job {
        Task::Install { pkg, noconfirm } => {
            law_install_owed(build, snapshot, seq![pkg], noconfirm);
        },
        Task::InstallProfile { profile, user_profile, force, secondary, noconfirm } => {
            law_profile_owed(
                build,
                snapshot,
                profile,
                force,
                secondary,
                user_profile,
                noconfirm,
            );
            reveal(profile_end_script);
        },
        Task::Remove { pkg, noconfirm } => {
            law_install_owed(build, snapshot, seq![pkg], noconfirm);
        },
        Task::RemoveProfile { profile, user_profile, noconfirm } => {
            law_profile_owed(build, snapshot, profile, true, true, user_profile, noconfirm);
            reveal(profile_end_script);
        },
        Task::Run { cmd } => {
            reveal(run_in_script);
        },
        Task::Upgrade => {
            reveal(upgrade_in_script);
        },
        Task::Sync { from, live } => {
            lemma_sync_live_owed(snapshot, live);
            reveal(sync_in_script);
        },
    }
    reveal(job_script);
}

proof fn lemma_sync_live_owed(snapshot: Seq<char>, live: bool)
    ensures
        can(sync_live_script(snapshot, live)),
{
    broadcast use {
        crate::possible::group_can,
        crate::possible::can_any,
        can_get_tmp,
        can_get_current_snapshot,
    };

    reveal(sync_live_script);
}

broadcast proof fn can_branches(build: Build, t: u64, treename: Seq<char>, job: Task)
    ensures
        #[trigger] can(branches_script(build, t, treename, job)),
{
    broadcast use crate::possible::group_can;

    reveal(branches_script);
}

/// The operations on a tree can succeed for every snapshot but the base one; running a command,
/// upgrading and synchronising even for that one.
pub proof fn law_tree_owed(
    build: Build,
    treename: Seq<char>,
    pkgs: Seq<Seq<char>>,
    profiles: Seq<Seq<char>>,
    force: bool,
    user_profiles: Seq<Seq<char>>,
    noconfirm: bool,
    secondary: bool,
    cmd: Seq<char>,
    offline: bool,
    live: bool,
)
    ensures
        treename != "0"@ ==> can(
            tree_install_script(
                build,
                treename,
                pkgs,
                profiles,
                force,
                user_profiles,
                noconfirm,
                secondary,
            ),
        ),
        treename != "0"@ ==> can(
            tree_remove_script(build, treename, pkgs, profiles, user_profiles, noconfirm),
        ),
        can(tree_run_script(build, treename, cmd)),
        can(tree_upgrade_script(build, treename)),
        can(tree_sync_script(build, treename, offline, live)),
{
    broadcast use {crate::possible::group_can, can_branches, can_free};

    assert forall|verb: Seq<char>| can(#[trigger] tree_there_script(verb, treename)) by {
        reveal(tree_there_script);
    }
    assert forall|job: Task| job is Run || job is Upgrade implies can(
        #[trigger] tree_job_script(build, treename, job),
    ) by {
        law_job_owed(build, job, treename);
        reveal(tree_job_script);
    }
    reveal(tree_run_script);
    reveal(tree_upgrade_script);
    assert(can(tree_upgrade_script(build, treename)));
    assert(can(first_upgrade_script(build, treename, offline))) by {
        reveal(first_upgrade_script);
    }
    assert(can(tree_sync_script(build, treename, offline, live))) by {
        reveal(tree_sync_script);
    }
    if treename != "0"@ {
        assert forall|jobs: Seq<Task>| can(#[trigger] tree_jobs_script(build, treename, jobs)) by {
            assert forall|job: Task| can(#[trigger] spread_fn(build, 0u64, treename)(job)) by {
                law_job_owed(build, job, treename);
                reveal(spread_script);
            }
            reveal(tree_jobs_script);
        }
        reveal(tree_install_script);
        reveal(tree_remove_script);
    }
}

// ----------------------------------------------------- rebuilding and resetting

broadcast proof fn can_rebuild_prep(snapshot: Seq<char>)
    ensures
        #[trigger] can(rebuild_prep_script(snapshot)),
{
    broadcast use {crate::possible::group_can, group_owed};

    assert(can(collect_three_script(snapshot))) by {
        reveal(collect_three_script);
    }
    reveal(rebuild_prep_script);
}

broadcast proof fn can_grow(entry: spec_fn(u64) -> Req)
    ensures
        #[trigger] can(grow_script(entry)),
{
    broadcast use crate::possible::group_can;

    reveal(grow_script);
}

broadcast proof fn can_write_desc(snapshot: Seq<char>, desc: Seq<char>, overwrite: bool)
    ensures
        #[trigger] can(write_desc_script(snapshot, desc, overwrite)),
{
    broadcast use crate::possible::group_can;

    reveal(write_desc_script);
}

broadcast proof fn can_check_mutability(snapshot: Seq<char>)
    ensures
        #[trigger] can(check_mutability_script(snapshot)),
{
    reveal(check_mutability_script);
    let ask = Req::Exists { path: mutable_mark(snapshot) };
    lemma_gives_flag(ask, true);
}

/// Every snapshot but the base one can be rebuilt, and so can the base one in its place.
pub proof fn law_rebuild_owed(build: Build, snapshot: Seq<char>, snap_num: i32, desc: Seq<char>)
    ensures
        snapshot != "0"@ ==> can(rebuild_script(build, snapshot, snap_num, desc)),
        can(rebuild_base_script(build)),
{
    broadcast use {
        crate::possible::group_can,
        crate::possible::can_any,
        group_owed,
        can_unmount_mutable_dirs,
        can_rebuild_prep,
        can_grow,
        can_write_desc,
        can_check_mutability,
    };

    let id = decimal(snap_num as int);
    if snapshot != "0"@ {
        assert(can(rebuild_guard_script(snapshot, id))) by {
            reveal(rebuild_guard_script);
        }
        assert forall|mutable: bool| can(
            #[trigger] rebuild_copy_script(build, snapshot, id, mutable),
        ) by {
            reveal(rebuild_copy_script);
        }
        reveal(rebuild_script);
    }
    reveal(rebuild_base_script);
}

broadcast proof fn can_posttrans(snapshot: Seq<char>)
    ensures
        #[trigger] can(posttrans_script(snapshot)),
{
    broadcast use {crate::possible::group_can, group_owed};

    reveal(posttrans_script);
}

/// Every snapshot but the base one can be made hollow, and its mutability changed.
pub proof fn law_hollow_owed(build: Build, snapshot: Seq<char>)
    requires
        snapshot != "0"@,
    ensures
        can(hollow_script(build, snapshot)),
        can(immutability_disable_script(snapshot)),
        can(immutability_enable_script(snapshot)),
{
    broadcast use {
        crate::possible::group_can,
        group_owed,
        can_posttrans,
        can_deploy,
        can_write_desc,
    };

    assert(can(immutability_disable_script(snapshot))) by {
        reveal(check_mutability_script);
        reveal(immutability_disable_script);
    }
    assert(can(immutability_enable_script(snapshot))) by {
        reveal(check_mutability_script);
        assert(can(unmark_script(snapshot))) by {
            reveal(unmark_script);
        }
        reveal(immutability_enable_script);
    }
    assert(can(hollow_keep_script(build, snapshot))) by {
        broadcast use {crate::possible::can_any, can_check_mutability};

        reveal(hollow_keep_script);
    }
    reveal(hollow_script);
}

/// The system can be reset.
pub proof fn law_reset_owed(build: Build)
    ensures
        can(reset_script(build)),
{
    broadcast use {crate::possible::group_can, group_owed, can_deploy};

    assert forall|current: Seq<char>| can(#[trigger] arm_script(build, current)) by {
        reveal(arm_script);
    }
    assert(can(disarm_script(build))) by {
        reveal(disarm_script);
    }
    let none: Seq<Seq<char>> = seq![];
    assert forall|current: Seq<char>| can(#[trigger] reset_run_script(build, current, none)) by {
        reveal(reset_run_script);
    }
    assert(gives(reset_consent_script(), true)) by {
        reveal(reset_consent_script);
        let k = |sure_of_it: bool|
            if sure_of_it {
                confirm(restart_question())
            } else {
                give(false)
            };
        lemma_gives_confirm(reset_question(), true);
        lemma_gives_confirm(restart_question(), true);
        lemma_gives_chain(confirm(reset_question()), k, true, true);
    }
    assert(can(reset_script(build))) by {
        broadcast use {
            crate::possible::can_any,
            crate::possible::can_given,
            can_get_current_snapshot,
        };

        reveal(reset_script);
    }
}

// ----------------------------------------------------------------- the tree

broadcast proof fn can_full_list(dir: Seq<char>)
    ensures
        #[trigger] gives(full_list_script(dir), Seq::<Seq<char>>::empty()),
{
    let ask = Req::ListDir { path: dir };
    let none: (Seq<Seq<char>>, Option<Fault>) = (seq![], None);
    reveal(full_list_script);
    lemma_gives_listing(ask, none);
    let k = |found: (Seq<Seq<char>>, Option<Fault>)|
        match found.1 {
            Some(_) => crash(),
            None => give(found.0),
        };
    assert(gives(k(none), Seq::<Seq<char>>::empty()));
    lemma_gives_chain(sure(listing(ask)), k, none, Seq::<Seq<char>>::empty());
}

broadcast proof fn can_find_new()
    ensures
        #[trigger] can(find_new_script()),
{
    let none: Seq<Seq<char>> = Seq::empty();
    let b = full_list_script("/.snapshots/boot"@);
    let e = full_list_script("/.snapshots/etc"@);
    let v = full_list_script("/.snapshots/var"@);
    let r = full_list_script("/.snapshots/rootfs"@);
    can_full_list("/.snapshots/boot"@);
    can_full_list("/.snapshots/etc"@);
    can_full_list("/.snapshots/var"@);
    can_full_list("/.snapshots/rootfs"@);
    reveal(find_new_script);
    assert(gives(subvolumes_script(), none)) by {
        reveal(subvolumes_script);
        let k4 = |boots: Seq<Seq<char>>, etcs: Seq<Seq<char>>, vars: Seq<Seq<char>>|
            |roots: Seq<Seq<char>>| give(roots + vars + etcs + boots);
        let k3 = |boots: Seq<Seq<char>>, etcs: Seq<Seq<char>>|
            |vars: Seq<Seq<char>>|
                chain(
                    full_list_script("/.snapshots/rootfs"@),
                    |roots: Seq<Seq<char>>| give(roots + vars + etcs + boots),
                );
        let k2 = |boots: Seq<Seq<char>>|
            |etcs: Seq<Seq<char>>|
                chain(
                    full_list_script("/.snapshots/var"@),
                    |vars: Seq<Seq<char>>|
                        chain(
                            full_list_script("/.snapshots/rootfs"@),
                            |roots: Seq<Seq<char>>| give(roots + vars + etcs + boots),
                        ),
                );
        let k1 = |boots: Seq<Seq<char>>|
            chain(
                full_list_script("/.snapshots/etc"@),
                |etcs: Seq<Seq<char>>|
                    chain(
                        full_list_script("/.snapshots/var"@),
                        |vars: Seq<Seq<char>>|
                            chain(
                                full_list_script("/.snapshots/rootfs"@),
                                |roots: Seq<Seq<char>>| give(roots + vars + etcs + boots),
                            ),
                    ),
            );
        assert(none + none + none + none =~= none);
        assert(gives(k4(none, none, none)(none), none));
        lemma_gives_chain(r, k4(none, none, none), none, none);
        assert(k3(none, none)(none) == chain(r, k4(none, none, none)));
        lemma_gives_chain(v, k3(none, none), none, none);
        assert(k2(none)(none) == chain(v, k3(none, none)));
        lemma_gives_chain(e, k2(none), none, none);
        assert(k1(none) == chain(e, k2(none)));
        lemma_gives_chain(b, k1, none, none);
    }
    let k = |paths: Seq<Seq<char>>|
        match free_number(paths, 1) {
            Some(i) => give(i),
            None => crash(),
        };
    assert(unused(none, 1));
    assert(free_number(none, 1) == Some(1i32));
    can_give(1i32);
    assert(can(k(none)));
    can_given(subvolumes_script(), k, none);
}

broadcast proof fn can_new_node(
    snapshot: Seq<char>,
    i: i32,
    entry: spec_fn(u64) -> Req,
    desc: Seq<char>,
)
    ensures
        #[trigger] can(new_node_script(snapshot, i, entry, desc)),
{
    broadcast use {crate::possible::group_can, can_grow, can_write_desc};

    assert(can(copy_snapshot_script(snapshot, i))) by {
        broadcast use {crate::possible::can_any, can_check_mutability};

        reveal(copy_snapshot_script);
    }
    reveal(new_node_script);
}

/// Every snapshot can be branched and cloned, and a new one made from the base snapshot.
pub proof fn law_new_owed(build: Build, snapshot: Seq<char>, branch: Seq<char>, desc: Seq<char>)
    ensures
        can(branch_create_script(snapshot, desc)),
        can(clone_as_tree_script(snapshot, desc)),
        can(clone_branch_script(snapshot)),
        can(clone_under_script(snapshot, branch)),
        can(snapshot_base_new_script(desc)),
        can(rollback_script(build)),
{
    broadcast use {
        crate::possible::group_can,
        crate::possible::can_any,
        can_find_new,
        can_new_node,
        can_grow,
        can_write_desc,
        can_deploy,
    };

    assert(can(branch_create_script(snapshot, desc))) by {
        reveal(branch_create_script);
    }
    assert forall|from: Seq<char>, told: Seq<char>| can(
        #[trigger] clone_as_tree_script(from, told),
    ) by {
        reveal(clone_as_tree_script);
    }
    assert(can(clone_branch_script(snapshot))) by {
        reveal(clone_branch_script);
    }
    assert(can(clone_under_script(snapshot, branch))) by {
        reveal(clone_under_script);
    }
    assert(can(snapshot_base_new_script(desc))) by {
        reveal(snapshot_base_new_script);
    }
    assert(can(rollback_script(build))) by {
        reveal(rollback_script);
    }
}

// ----------------------------------------------------------- working in a copy

broadcast proof fn can_check_profile(build: Build, snapshot: Seq<char>)
    ensures
        #[trigger] can(check_profile_script(build, snapshot)),
{
    broadcast use {crate::possible::group_can, crate::possible::can_given};

    let none: Table = seq![];
    let list: Seq<Seq<char>> = seq![];
    let file = new_profile(snapshot);
    assert(without(list, list) =~= list);
    assert(list + list =~= list);
    assert(keys_of(none, "system-packages"@) =~= list);
    assert(keys_of(none, "profile-packages"@) =~= list);
    assert(keys_of(none, "enable-services"@) =~= list);
    assert(keys_of(none, "disable-services"@) =~= list);
    assert(can(apply_script(build, snapshot, none, none))) by {
        reveal(apply_script);
    }
    assert(can(rewrite_script(build, snapshot, list, none))) by {
        assert(gives(sync_each(build, file, crate::profiles::spellings(list), list, none), none));
        assert(gives(sync_services(snapshot, file, "enable-services"@, true, none), none)) by {
            reveal(sync_services);
        }
        assert(gives(sync_services(snapshot, file, "disable-services"@, false, none), none)) by {
            reveal(sync_services);
        }
        assert(gives(dedup(file, list, list, none), none));
        reveal(rewrite_script);
    }
    reveal(check_profile_script);
}

/// Commands can be run in every snapshot but the base one.
pub proof fn law_chroot_owed(build: Build, snapshot: Seq<char>, cmds: Seq<Seq<char>>)
    requires
        snapshot != "0"@,
    ensures
        can(chroot_script(build, snapshot, cmds)),
{
    broadcast use {
        crate::possible::group_can,
        group_owed,
        can_chroot_exec,
        can_check_profile,
    };

    assert(can(keep_changes_script(build, snapshot))) by {
        reveal(keep_changes_script);
    }
    assert forall|cmd: Seq<char>| can(#[trigger] chroot_command(build, snapshot)(cmd)) by {}
    assert(can(chroot_shell_script(build, snapshot))) by {
        reveal(chroot_in_script);
        reveal(chroot_shell_script);
    }
    reveal(chroot_script);
}

// ------------------------------------------------------- deleting and editing

proof fn lemma_current_given()
    ensures
        gives(get_current_snapshot_script(), Seq::<char>::empty()),
{
    let none: Seq<char> = Seq::empty();
    let read = Req::ReadText { path: "/usr/share/ash/snap"@ };
    reveal(get_current_snapshot_script);
    lemma_gives_text(read, none);
    let k = |content: Seq<char>| give(trimmed_end(content));
    assert(trimmed_end(none) =~= none);
    assert(gives(k(none), none));
    lemma_gives_chain(sure(text(read)), k, none, none);
}

proof fn lemma_next_given()
    ensures
        gives(get_next_snapshot_script(), Seq::<char>::empty()),
{
    let none: Seq<char> = Seq::empty();
    let empty: (Seq<Seq<char>>, Option<Fault>) = (seq![], None);
    assert(can(get_tmp_script())) by {
        broadcast use can_get_tmp;

    }
    let tmp = choose|tmp: Seq<char>| gives(get_tmp_script(), tmp);
    let read = Req::ReadLines { path: "/.snapshots/ash/deploy-tmp"@ };
    assert(gives(deployed_script(seq![]), none)) by {
        reveal(deployed_script);
        let ask = Req::IsFile { path: snap_file(seq![]) };
        let k = |there: bool|
            if there {
                chain(
                    sure(text(Req::ReadText { path: snap_file(seq![]) })),
                    |content: Seq<char>| give(trimmed(content)),
                )
            } else {
                give(seq![])
            };
        lemma_gives_flag(ask, false);
        assert(gives(k(false), none));
        lemma_gives_chain(flag(ask), k, false, none);
    }
    reveal(get_next_snapshot_script);
    let k2 = |found: (Seq<Seq<char>>, Option<Fault>)|
        match other_line(found.0, tmp) {
            Some(name) => deployed_script(name),
            None => match found.1 {
                Some(_) => crash(),
                None => deployed_script(seq![]),
            },
        };
    let k1 = |tmp: Seq<char>|
        chain(
            sure(listing(Req::ReadLines { path: "/.snapshots/ash/deploy-tmp"@ })),
            |read: (Seq<Seq<char>>, Option<Fault>)|
                match other_line(read.0, tmp) {
                    Some(name) => deployed_script(name),
                    None => match read.1 {
                        Some(_) => crash(),
                        None => deployed_script(seq![]),
                    },
                },
        );
    lemma_gives_listing(read, empty);
    assert(k2(empty) == deployed_script(seq![]));
    lemma_gives_chain(sure(listing(read)), k2, empty, none);
    assert(k1(tmp) == chain(sure(listing(read)), k2));
    lemma_gives_chain(get_tmp_script(), k1, tmp, none);
}

/// Snapshots that have a name and are not the base one can be deleted, whether it is to be asked or
/// not.
pub proof fn law_delete_owed(snapshots: Seq<Seq<char>>, quiet: bool, nuke: bool)
    requires
        forall|i: int|
            0 <= i < snapshots.len() ==> (#[trigger] snapshots[i]).len() > 0 && snapshots[i]
                != "0"@,
    ensures
        can(delete_node_script(snapshots, quiet, nuke)),
{
    broadcast use {crate::possible::group_can, can_clear_slot};

    let none: Seq<char> = Seq::empty();
    lemma_current_given();
    lemma_next_given();
    let f = delete_one_fn(none, none, quiet, nuke);
    assert forall|i: int| 0 <= i < snapshots.len() implies can(f(#[trigger] snapshots[i])) by {
        let snapshot = snapshots[i];
        assert(can(permit_script(snapshot, none, none, quiet, nuke))) by {
            reveal(permit_script);
        }
        assert(can(erase_one_script(snapshot))) by {
            reveal(erase_one_script);
        }
        assert(can(erase_script(snapshot))) by {
            reveal(erase_script);
        }
        reveal(delete_one_script);
    }
    assert(can(each(snapshots, f)));
    reveal(delete_node_script);
    let k2 = |next: Seq<char>| each(snapshots, delete_one_fn(none, next, quiet, nuke));
    assert(can(k2(none)));
    can_given(get_next_snapshot_script(), k2, none);
    let k1 = |current: Seq<char>|
        chain(
            get_next_snapshot_script(),
            |next: Seq<char>| each(snapshots, delete_one_fn(current, next, quiet, nuke)),
        );
    assert(k1(none) == chain(get_next_snapshot_script(), k2));
    can_given(get_current_snapshot_script(), k1, none);
}

/// The configuration and the profile of every snapshot but the base one can be edited, and the etc
/// subvolume of the one that runs can be brought up to date.
pub proof fn law_edit_owed(build: Build, snapshot: Seq<char>)
    requires
        snapshot != "0"@,
    ensures
        gives(ready_script("chroot"@, snapshot), true),
        can(chain(prepare_script(build, snapshot), |u: ()| edit_config_script(build, snapshot))),
        can(edit_profile_script(snapshot)),
        can(apply_edit_script(build, snapshot)),
        can(update_etc_script()),
{
    broadcast use {crate::possible::group_can, group_owed, can_check_profile};

    let none: Seq<char> = Seq::empty();
    assert(gives(ready_script("chroot"@, snapshot), true)) by {
        reveal(ready_script);
        let a = Req::Exists { path: rootfs(snapshot) };
        let b = Req::Exists { path: rootfs(chr(snapshot)) };
        lemma_gives_flag(a, true);
        lemma_gives_flag(b, false);
        let k2 = |busy: bool|
            if busy {
                chain(warn(in_use(snapshot)), |u: ()| give(false))
            } else if snapshot == "0"@ {
                chain(warn(base_fixed()), |u: ()| give(false))
            } else {
                give(true)
            };
        assert(gives(k2(false), true));
        lemma_gives_chain(flag(b), k2, false, true);
        let k1 = |there: bool|
            if !there {
                chain(warn(missing("chroot"@, snapshot)), |u: ()| give(false))
            } else {
                chain(
                    flag(Req::Exists { path: rootfs(chr(snapshot)) }),
                    |busy: bool|
                        if busy {
                            chain(warn(in_use(snapshot)), |u: ()| give(false))
                        } else if snapshot == "0"@ {
                            chain(warn(base_fixed()), |u: ()| give(false))
                        } else {
                            give(true)
                        },
                )
            };
        assert(k1(true) == chain(flag(b), k2));
        lemma_gives_chain(flag(a), k1, true, true);
    }
    assert forall|file: Seq<char>| can(#[trigger] own_editor_script(file)) by {
        reveal(own_editor_script);
    }
    assert(can(edit_config_script(build, snapshot))) by {
        reveal(edit_config_script);
    }
    assert(can(edit_profile_script(snapshot))) by {
        reveal(edit_profile_script);
    }
    assert(can(apply_edit_script(build, snapshot))) by {
        reveal(apply_edit_script);
    }
    assert(can(update_etc_script())) by {
        broadcast use {crate::possible::can_any, crate::possible::can_given, can_get_tmp};

        lemma_current_given();
        reveal_strlit("0");
        assert("0"@.len() == 1);
        assert(none.len() == 0);
        reveal(check_mutability_script);
        reveal(update_etc_script);
    }
}

}
