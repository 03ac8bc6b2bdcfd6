//! What holds of the operations as a whole.

use vstd::prelude::*;
use crate::chroots::{
    chr_delete_script, chroot_exec_script, chroot_in_script, collect, collect_all, drop_hard,
    drop_there, drop_three, identity_script, keep_copy, post_transactions_script, posttrans_script,
    prepare_script, snapshot_unlock_script,
};
use crate::config::snapshot_config_get_script;
use crate::deployment::{
    aux_tmp, backup_script, check_mutability_script, clear_aux, clear_slot, deploy_beside,
    deploy_plan, deploy_script, enter_dirs_script, get_current_snapshot_script, get_tmp_script,
    is_slot, law_aux_tmp, law_running_slot, mounts_script, place_script, running_slot,
    tmp_delete_script, writable_script,
};
use crate::dirs::{
    allow_dir_mut_script, entries_script, listing_end, mount_dirs_script, mount_mutable_dirs_script,
    private_dirs, remove_any, remove_any_fn, remove_dir_content_script, shared_dirs,
    unmount_mutable_dirs_script,
};
use crate::editing::{
    apply_edit_script, chroot_script, chroot_shell_script, edit_config_script, edit_profile_script,
    keep_changes_script, own_editor_script, snapshot_config_edit_script,
    snapshot_profile_edit_script, try_editors,
};
use crate::guard::{guard_script, if_ready, in_use, missing, ready_script, when_ready};
use crate::model::{
    leads, lemma_leads_chain, lemma_leads_keeping, lemma_leads_sure, lemma_leads_text,
    lemma_leads_weaker, Model,
};
use crate::mounts::{ash_mounts_script, ash_umounts_script, is_mounted_script};
use crate::packages::{
    carry_out_script, distro_script, install_end_script, install_profile_script, install_script,
    load_old_script, load_script, presets_script, read_script, refresh_end_script,
    refresh_run_script, refresh_script, renew_recovery_script, uninstall_end_script,
    uninstall_profile_script, uninstall_script, upgrade_end_script, upgrade_guard_script,
    upgrade_script, upgraded_script,
};
use crate::paths::{chr, desc_file, entries_of, entry_of, rootfs, snap_file, stem, volume, Volume};
use crate::profile::{table_without, Table};
use crate::profiles::{
    apply_script, check_profile_script, dedup, prune_rest, prune_services, rewrite_script,
    sync_each, sync_one, sync_pkgs, sync_rest, sync_services, sync_system,
};
use crate::rebuild::{hollow_script, rebuild_guard_script, rebuild_script, wipe};
use crate::request::{Answer, ErrorKind, Fault, Req};
use crate::script::{
    all_done, asks_only, chain, each, fail, fails, flag, give, gives_only, lemma_asks_chain,
    lemma_asks_given, run, text, Build, Halted, Run, Script, Session, Stop,
};
use crate::snapshots::{
    copy_snapshot_script, grow_script, immutability_disable_script, immutability_enable_script,
    new_node_script, unmark_script, write_desc_script,
};
use crate::system::sync_time_script;
use crate::text::{decimal, lines, occurs_at};
use crate::trees::{
    free_script, job_script, profile_end_script, run_in_script, sync_in_script, sync_live_script,
    tree_job_script, tree_there_script, tree_upgrade_script, upgrade_in_script, Task,
};

verus! {

broadcast use crate::script::group_asks;

// ------------------------------------------------------- what is left alone

/// The path is that of a subvolume of one of the snapshots `ids`.
pub open spec fn within(path: Seq<char>, ids: Set<Seq<char>>) -> bool {
    exists|v: Volume, id: Seq<char>| ids.contains(id) && path == #[trigger] volume(v, id)
}

/// Neither text begins with the other.
pub open spec fn parted(a: Seq<char>, b: Seq<char>) -> bool {
    !occurs_at(a, b, 0) && !occurs_at(b, a, 0)
}

/// The path is not in a directory of subvolumes, nor does it lead to one.
pub open spec fn apart(path: Seq<char>) -> bool {
    &&& parted(path, "/.snapshots/boot/"@)
    &&& parted(path, "/.snapshots/etc/"@)
    &&& parted(path, "/.snapshots/var/"@)
    &&& parted(path, "/.snapshots/rootfs/"@)
}

/// The path is that of a subvolume of one of the snapshots `ids`, or of something in it.
pub open spec fn inside(path: Seq<char>, ids: Set<Seq<char>>) -> bool {
    exists|v: Volume, id: Seq<char>|
        ids.contains(id) && (path == #[trigger] volume(v, id) || occurs_at(
            path,
            stem(volume(v, id)),
            0,
        ))
}

/// What stands at the path belongs to one of the snapshots `ids`, or to none, by the text of the
/// path: links and `..` are not followed.
pub open spec fn placed(path: Seq<char>, ids: Set<Seq<char>>) -> bool {
    inside(path, ids) || apart(path)
}

/// A request deletes, creates, replaces or opens no subvolume but those of the snapshots `ids`,
/// and writes, copies or removes nothing in a subvolume but in theirs.
pub open spec fn confined(ids: Set<Seq<char>>) -> spec_fn(Req) -> bool {
    |req: Req|
        match req {
            Req::DeleteSubvolume { path } => within(path, ids),
            Req::SnapshotSubvolume { from, to, read_only } => within(to, ids),
            Req::CreateSubvolume { path } => within(path, ids),
            Req::SetReadOnly { path, read_only } => within(path, ids),
            Req::CreateFile { path } => placed(path, ids),
            Req::RemoveFile { path } => placed(path, ids),
            Req::RemoveTree { path } => placed(path, ids),
            Req::MakeDirs { path } => placed(path, ids),
            Req::CopyFile { from, to } => placed(to, ids),
            Req::CopyTree { from, to } => placed(to, ids),
            Req::WriteText { path, text } => placed(path, ids),
            Req::RewriteText { path, text } => placed(path, ids),
            Req::AppendText { path, text } => placed(path, ids),
            Req::WriteProfile { path, profile } => placed(path, ids),
            _ => true,
        }
}

/// All that a directory holds belongs to one of the snapshots `ids`, or to none.
pub open spec fn yields(dir: Seq<char>, ids: Set<Seq<char>>) -> bool {
    forall|path: Seq<char>| #[trigger] entry_of(dir, path) ==> placed(path, ids)
}

/// Where a path parts from those of the directories of subvolumes by its name below
/// `/.snapshots/`.
proof fn lemma_apart(path: Seq<char>)
    requires
        path.len() > 12,
        path[12] == 'a' || path[12] == 'm',
    ensures
        apart(path),
{
    reveal_strlit("/.snapshots/boot/");
    reveal_strlit("/.snapshots/etc/");
    reveal_strlit("/.snapshots/var/");
    reveal_strlit("/.snapshots/rootfs/");
    lemma_parted(path, "/.snapshots/boot/"@, 12);
    lemma_parted(path, "/.snapshots/etc/"@, 12);
    lemma_parted(path, "/.snapshots/var/"@, 12);
    lemma_parted(path, "/.snapshots/rootfs/"@, 12);
}

proof fn lemma_parted(a: Seq<char>, b: Seq<char>, i: int)
    requires
        0 <= i < a.len(),
        i < b.len(),
        a[i] != b[i],
    ensures
        parted(a, b),
{
    if occurs_at(a, b, 0) {
        assert(a.subrange(0, b.len() as int)[i] == a[i]);
    }
    if occurs_at(b, a, 0) {
        assert(b.subrange(0, a.len() as int)[i] == b[i]);
    }
}

/// What stands below a subvolume is placed at its snapshot.
pub broadcast proof fn placed_below(v: Volume, id: Seq<char>, rest: Seq<char>, ids: Set<Seq<char>>)
    requires
        ids.contains(id),
        rest.len() > 0,
        rest[0] == '/',
    ensures
        #[trigger] placed(volume(v, id) + rest, ids),
{
    reveal_strlit("/");
    let path = volume(v, id) + rest;
    let start = stem(volume(v, id));
    assert(path.subrange(0, start.len() as int) =~= start);
}

/// What stands below a subvolume is placed at its snapshot.
pub broadcast proof fn placed_further(
    v: Volume,
    id: Seq<char>,
    a: Seq<char>,
    b: Seq<char>,
    ids: Set<Seq<char>>,
)
    requires
        ids.contains(id),
        a.len() > 0,
        a[0] == '/',
    ensures
        #[trigger] placed(volume(v, id) + a + b, ids),
{
    assert(volume(v, id) + a + b =~= volume(v, id) + (a + b));
    placed_below(v, id, a + b, ids);
}

/// A subvolume is placed at its snapshot.
pub broadcast proof fn placed_itself(v: Volume, id: Seq<char>, ids: Set<Seq<char>>)
    requires
        ids.contains(id),
    ensures
        #[trigger] placed(volume(v, id), ids),
{
}

/// A description belongs to no subvolume.
pub broadcast proof fn placed_description(id: Seq<char>, ids: Set<Seq<char>>)
    ensures
        #[trigger] placed(desc_file(id), ids),
{
    reveal_strlit("/.snapshots/ash/snapshots/");
    lemma_apart(desc_file(id));
}

/// A mutable directory that is shared belongs to no subvolume.
pub broadcast proof fn placed_shared(dir: Seq<char>, ids: Set<Seq<char>>)
    ensures
        #[trigger] placed(shared_dirs() + dir, ids),
{
    reveal_strlit("/.snapshots/mutable_dirs/");
    lemma_apart(shared_dirs() + dir);
}

/// A mutable directory of a snapshot belongs to no subvolume.
pub broadcast proof fn placed_private(snapshot: Seq<char>, dir: Seq<char>, ids: Set<Seq<char>>)
    ensures
        #[trigger] placed(private_dirs(snapshot) + "/"@ + dir, ids),
{
    reveal_strlit("/.snapshots/mutable_dirs/snapshot-");
    lemma_apart(private_dirs(snapshot) + "/"@ + dir);
}

/// What a subvolume holds is placed at its snapshot.
pub broadcast proof fn yields_itself(v: Volume, id: Seq<char>, ids: Set<Seq<char>>)
    requires
        ids.contains(id),
    ensures
        #[trigger] yields(volume(v, id), ids),
{
}

proof fn lemma_yields_apart(dir: Seq<char>, ids: Set<Seq<char>>)
    requires
        dir.len() > 12,
        dir[12] == 'm',
    ensures
        yields(dir, ids),
{
    assert forall|path: Seq<char>| #[trigger] entry_of(dir, path) implies placed(path, ids) by {
        let start = stem(dir);
        assert(path.subrange(0, start.len() as int)[12] == path[12]);
        lemma_apart(path);
    }
}

/// The shared mutable directories belong to no subvolume.
pub broadcast proof fn yields_shared(ids: Set<Seq<char>>)
    ensures
        #[trigger] yields(shared_dirs(), ids),
{
    reveal_strlit("/.snapshots/mutable_dirs/");
    lemma_yields_apart(shared_dirs(), ids);
}

/// The mutable directories of a snapshot belong to no subvolume.
pub broadcast proof fn yields_private(snapshot: Seq<char>, ids: Set<Seq<char>>)
    ensures
        #[trigger] yields(private_dirs(snapshot), ids),
{
    reveal_strlit("/.snapshots/mutable_dirs/snapshot-");
    lemma_yields_apart(private_dirs(snapshot), ids);
}

/// Where the paths that operations write to are placed.
pub broadcast group group_placed {
    placed_below,
    placed_further,
    placed_itself,
    placed_description,
    placed_shared,
    placed_private,
    yields_itself,
    yields_shared,
    yields_private,
}

/// What is written below the root of a snapshot begins with a slash.
proof fn lemma_slashes()
    ensures
        "/"@.len() > 0 && "/"@[0] == '/',
        "/boot"@.len() > 0 && "/boot"@[0] == '/',
        "/etc"@.len() > 0 && "/etc"@[0] == '/',
        "/var"@.len() > 0 && "/var"@[0] == '/',
        "/etc/fstab"@.len() > 0 && "/etc/fstab"@[0] == '/',
        "/etc/machine-id"@.len() > 0 && "/etc/machine-id"@[0] == '/',
        "/etc/ash/profile"@.len() > 0 && "/etc/ash/profile"@[0] == '/',
        "/.snapshots/ash"@.len() > 0 && "/.snapshots/ash"@[0] == '/',
        "/.snapshots/ash/fstree"@.len() > 0 && "/.snapshots/ash/fstree"@[0] == '/',
        "/usr/share/ash/mutable"@.len() > 0 && "/usr/share/ash/mutable"@[0] == '/',
        "/usr/share/ash/snap"@.len() > 0 && "/usr/share/ash/snap"@[0] == '/',
{
    reveal_strlit("/");
    reveal_strlit("/boot");
    reveal_strlit("/etc");
    reveal_strlit("/var");
    reveal_strlit("/etc/fstab");
    reveal_strlit("/etc/machine-id");
    reveal_strlit("/etc/ash/profile");
    reveal_strlit("/.snapshots/ash");
    reveal_strlit("/.snapshots/ash/fstree");
    reveal_strlit("/usr/share/ash/mutable");
    reveal_strlit("/usr/share/ash/snap");
}

/// Whatever is asked about a path, or done to it, when it is removed.
pub open spec fn removable(path: Seq<char>, ok: spec_fn(Req) -> bool) -> bool {
    &&& ok(Req::IsFile { path })
    &&& ok(Req::IsSymlink { path })
    &&& ok(Req::IsDir { path })
    &&& ok(Req::RemoveFile { path })
    &&& ok(Req::RemoveTree { path })
}

proof fn lemma_remove_each(paths: Seq<Seq<char>>, ok: spec_fn(Req) -> bool)
    requires
        forall|i: int| 0 <= i < paths.len() ==> removable(#[trigger] paths[i], ok),
    ensures
        asks_only(each(paths, remove_any_fn()), ok),
    decreases paths.len(),
{
    reveal(remove_any);
    if paths.len() > 0 {
        let rest = paths.drop_first();
        assert forall|i: int| 0 <= i < rest.len() implies removable(#[trigger] rest[i], ok) by {
            assert(rest[i] == paths[i + 1]);
        }
        lemma_remove_each(rest, ok);
        assert(removable(paths[0], ok));
    }
}

/// What is done with the things that a directory was found to hold.
pub open spec fn remove_found() -> spec_fn((Seq<Seq<char>>, Option<Fault>)) -> Script<()> {
    |found: (Seq<Seq<char>>, Option<Fault>)|
        chain(each(found.0, remove_any_fn()), |u: ()| listing_end(found.1))
}

/// To empty a directory is to remove only what it holds.
pub proof fn lemma_emptying(dir: Seq<char>, ok: spec_fn(Req) -> bool)
    requires
        ok(Req::ListDir { path: dir }),
        forall|path: Seq<char>| #[trigger] entry_of(dir, path) ==> removable(path, ok),
    ensures
        asks_only(remove_dir_content_script(dir), ok),
{
    broadcast use crate::script::lemma_ends_follow;

    reveal(remove_dir_content_script);
    let good = |found: (Seq<Seq<char>>, Option<Fault>)| entries_of(dir, found.0);
    assert(asks_only(entries_script(dir), ok) && gives_only(entries_script(dir), good)) by {
        reveal(entries_script);
    }
    assert forall|found: (Seq<Seq<char>>, Option<Fault>)| good(found) implies asks_only(
        #[trigger] remove_found()(found),
        ok,
    ) by {
        assert forall|i: int| 0 <= i < found.0.len() implies removable(
            #[trigger] found.0[i],
            ok,
        ) by {
            assert(entry_of(dir, found.0[i]));
        }
        lemma_remove_each(found.0, ok);
    }
    lemma_asks_given(entries_script(dir), remove_found(), good, ok);
    assert(remove_dir_content_script(dir) == chain(entries_script(dir), remove_found()));
}

/// `remove_dir_content` is confined to the snapshots that it is for.
pub broadcast proof fn calm_remove_dir_content(dir: Seq<char>, ids: Set<Seq<char>>)
    requires
        yields(dir, ids),
    ensures
        #[trigger] asks_only(remove_dir_content_script(dir), confined(ids)),
{
    lemma_emptying(dir, confined(ids));
}

/// `allow_dir_mut` is confined to the snapshots that it is for.
pub broadcast proof fn calm_allow_dir_mut(path: Seq<char>, ids: Set<Seq<char>>)
    ensures
        #[trigger] asks_only(allow_dir_mut_script(path), confined(ids)),
{
    reveal(allow_dir_mut_script);
}

/// `is_mounted` is confined to the snapshots that it is for.
pub broadcast proof fn calm_is_mounted(path: Seq<char>, ids: Set<Seq<char>>)
    ensures
        #[trigger] asks_only(is_mounted_script(path), confined(ids)),
{
    reveal(is_mounted_script);
}

/// `ash_mounts` is confined to the snapshots that it is for.
pub broadcast proof fn calm_ash_mounts(i: Seq<char>, chr: Seq<char>, ids: Set<Seq<char>>)
    ensures
        #[trigger] asks_only(ash_mounts_script(i, chr), confined(ids)),
{
    reveal(ash_mounts_script);
}

/// `ash_umounts` is confined to the snapshots that it is for.
pub broadcast proof fn calm_ash_umounts(i: Seq<char>, chr: Seq<char>, ids: Set<Seq<char>>)
    ensures
        #[trigger] asks_only(ash_umounts_script(i, chr), confined(ids)),
{
    reveal(ash_umounts_script);
}

/// `snapshot_config_get` is confined to the snapshots that it is for.
pub broadcast proof fn calm_snapshot_config_get(build: Build, snapshot: Seq<char>, ids: Set<Seq<char>>)
    ensures
        #[trigger] asks_only(snapshot_config_get_script(build, snapshot), confined(ids)),
{
    reveal(snapshot_config_get_script);
}

/// `mount_dirs` is confined to the snapshots that it is for.
pub broadcast proof fn calm_mount_dirs(
    store: Seq<char>,
    prefix: Seq<char>,
    root: Seq<char>,
    dirs: Seq<Seq<char>>,
    ids: Set<Seq<char>>,
)
    requires
        yields(store, ids),
        forall|dir: Seq<char>| placed(#[trigger] (prefix + dir), ids),
        forall|dir: Seq<char>| placed(#[trigger] (root + "/"@ + dir), ids),
    ensures
        #[trigger] asks_only(mount_dirs_script(store, prefix, root, dirs), confined(ids)),
{
    broadcast use group_placed;
    broadcast use {calm_remove_dir_content, calm_allow_dir_mut};

    reveal(mount_dirs_script);
}

/// `mount_mutable_dirs` is confined to the snapshots that it is for.
pub broadcast proof fn calm_mount_mutable_dirs(build: Build, snapshot: Seq<char>, ids: Set<Seq<char>>)
    requires
        ids.contains(chr(snapshot)),
    ensures
        #[trigger] asks_only(mount_mutable_dirs_script(build, snapshot), confined(ids)),
{
    broadcast use group_placed;
    broadcast use {calm_snapshot_config_get, calm_mount_dirs};

    lemma_slashes();
    reveal(mount_mutable_dirs_script);
}

/// `unmount_mutable_dirs` is confined to the snapshots that it is for.
pub broadcast proof fn calm_unmount_mutable_dirs(
    build: Build,
    id: Seq<char>,
    named: Seq<char>,
    ids: Set<Seq<char>>,
)
    ensures
        #[trigger] asks_only(unmount_mutable_dirs_script(build, id, named), confined(ids)),
{
    broadcast use {calm_snapshot_config_get, calm_allow_dir_mut, calm_is_mounted};

    reveal(unmount_mutable_dirs_script);
}

/// `identity` is confined to the snapshots that it is for.
pub broadcast proof fn calm_identity(id: Seq<char>, ids: Set<Seq<char>>)
    requires
        ids.contains(id),
    ensures
        #[trigger] asks_only(identity_script(id), confined(ids)),
{
    broadcast use group_placed;

    lemma_slashes();
    reveal(identity_script);
}

/// `collect` is confined to the snapshots that it is for.
pub broadcast proof fn calm_collect(
    v: Volume,
    snapshot: Seq<char>,
    rest: Seq<char>,
    ids: Set<Seq<char>>,
)
    requires
        ids.contains(chr(snapshot)),
    ensures
        #[trigger] asks_only(collect(v, snapshot, rest), confined(ids)),
{
    broadcast use {calm_remove_dir_content, group_placed};

    reveal(collect);
}

/// `collect_all` is confined to the snapshots that it is for.
pub broadcast proof fn calm_collect_all(snapshot: Seq<char>, ids: Set<Seq<char>>)
    requires
        ids.contains(chr(snapshot)),
    ensures
        #[trigger] asks_only(collect_all(snapshot), confined(ids)),
{
    broadcast use calm_collect;

    reveal(collect_all);
}

/// `chroot_exec` is confined to the snapshots that it is for.
pub broadcast proof fn calm_chroot_exec(path: Seq<char>, cmd: Seq<char>, ids: Set<Seq<char>>)
    ensures
        #[trigger] asks_only(chroot_exec_script(path, cmd), confined(ids)),
{
    reveal(chroot_exec_script);
}

/// `chroot_in` is confined to the snapshots that it is for.
pub broadcast proof fn calm_chroot_in(path: Seq<char>, ids: Set<Seq<char>>)
    ensures
        #[trigger] asks_only(chroot_in_script(path), confined(ids)),
{
    reveal(chroot_in_script);
}

/// `guard` is confined to the snapshots that it is for.
pub broadcast proof fn calm_guard(verb: Seq<char>, snapshot: Seq<char>, ids: Set<Seq<char>>)
    ensures
        #[trigger] asks_only(guard_script(verb, snapshot), confined(ids)),
{
    reveal(guard_script);
}

/// `ready` is confined to the snapshots that it is for.
pub broadcast proof fn calm_ready(verb: Seq<char>, snapshot: Seq<char>, ids: Set<Seq<char>>)
    ensures
        #[trigger] asks_only(ready_script(verb, snapshot), confined(ids)),
{
    reveal(ready_script);
}

/// `sync_time` is confined to the snapshots that it is for.
pub broadcast proof fn calm_sync_time(ids: Set<Seq<char>>)
    ensures
        #[trigger] asks_only(sync_time_script(), confined(ids)),
{
    reveal(sync_time_script);
}

/// `get_tmp` is confined to the snapshots that it is for.
pub broadcast proof fn calm_get_tmp(ids: Set<Seq<char>>)
    ensures
        #[trigger] asks_only(get_tmp_script(), confined(ids)),
{
    reveal(get_tmp_script);
    reveal(mounts_script);
}

/// `distro` is confined to the snapshots that it is for.
pub broadcast proof fn calm_distro(ids: Set<Seq<char>>)
    ensures
        #[trigger] asks_only(distro_script(), confined(ids)),
{
    reveal(distro_script);
}

/// `load` is confined to the snapshots that it is for.
pub broadcast proof fn calm_load(
    file: Seq<char>,
    force: bool,
    user: Seq<char>,
    snapshot: Seq<char>,
    live: Option<Seq<char>>,
    ids: Set<Seq<char>>,
)
    ensures
        #[trigger] asks_only(load_script(file, force, user, snapshot, live), confined(ids)),
{
    reveal(load_script);
    reveal(read_script);
}

/// `load_old` is confined to the snapshots that it is for.
pub broadcast proof fn calm_load_old(file: Seq<char>, user: Seq<char>, ids: Set<Seq<char>>)
    ensures
        #[trigger] asks_only(load_old_script(file, user), confined(ids)),
{
    reveal(load_old_script);
    reveal(read_script);
}

/// `carry_out` is confined to the snapshots that it is for.
pub broadcast proof fn calm_carry_out(
    build: Build,
    snapshot: Seq<char>,
    p: Table,
    live: Option<Seq<char>>,
    noconfirm: bool,
    root: Seq<char>,
    ids: Set<Seq<char>>,
)
    ensures
        #[trigger] asks_only(carry_out_script(build, snapshot, p, live, noconfirm, root), confined(ids)),
{
    broadcast use calm_chroot_exec;

    reveal(carry_out_script);
    reveal(presets_script);
}

/// `apply` is confined to the snapshots that it is for.
pub broadcast proof fn calm_apply(
    build: Build,
    snapshot: Seq<char>,
    o: Table,
    n: Table,
    ids: Set<Seq<char>>,
)
    ensures
        #[trigger] asks_only(apply_script(build, snapshot, o, n), confined(ids)),
{
    reveal(apply_script);
}

/// `sync_one` is confined to the snapshots that it is for.
pub broadcast proof fn calm_sync_one(
    build: Build,
    file: Seq<char>,
    installed: Seq<Seq<char>>,
    pkg: Seq<char>,
    t: Table,
    ids: Set<Seq<char>>,
)
    requires
        placed(file, ids),
    ensures
        #[trigger] asks_only(sync_one(build, file, installed, pkg, t), confined(ids)),
{
    reveal(sync_one);
    reveal(sync_system);
    reveal(sync_pkgs);
}

/// `sync_each` is confined to the snapshots that it is for.
pub broadcast proof fn calm_sync_each(
    build: Build,
    file: Seq<char>,
    installed: Seq<Seq<char>>,
    todo: Seq<Seq<char>>,
    t: Table,
    ids: Set<Seq<char>>,
)
    requires
        placed(file, ids),
    ensures
        #[trigger] asks_only(sync_each(build, file, installed, todo, t), confined(ids)),
    decreases todo.len(),
{
    if todo.len() > 0 {
        let rest = todo.drop_first();
        calm_sync_one(build, file, installed, todo[0], t, ids);
        assert forall|t1: Table|
            asks_only(#[trigger] sync_rest(build, file, installed, rest)(t1), confined(ids)) by {
            calm_sync_each(build, file, installed, rest, t1, ids);
        }
        lemma_asks_chain(
            sync_one(build, file, installed, todo[0], t),
            sync_rest(build, file, installed, rest),
            confined(ids),
        );
    }
}

/// `prune_services` is confined to the snapshots that it is for.
pub broadcast proof fn calm_prune_services(
    snapshot: Seq<char>,
    section: Seq<char>,
    wanted: bool,
    todo: Seq<Seq<char>>,
    t: Table,
    ids: Set<Seq<char>>,
)
    ensures
        #[trigger] asks_only(prune_services(snapshot, section, wanted, todo, t), confined(ids)),
    decreases todo.len(),
{
    if todo.len() > 0 {
        let rest = todo.drop_first();
        let next = prune_rest(snapshot, section, wanted, rest, todo[0], t);
        assert forall|on: bool| asks_only(#[trigger] next(on), confined(ids)) by {
            calm_prune_services(snapshot, section, wanted, rest, t, ids);
            calm_prune_services(
                snapshot,
                section,
                wanted,
                rest,
                table_without(t, section, todo[0]),
                ids,
            );
        }
        lemma_asks_chain(
            flag(Req::ServiceEnabled { snapshot, service: todo[0] }),
            next,
            confined(ids),
        );
    }
}

/// `dedup` is confined to the snapshots that it is for.
pub broadcast proof fn calm_dedup(
    file: Seq<char>,
    todo: Seq<Seq<char>>,
    pkgs: Seq<Seq<char>>,
    t: Table,
    ids: Set<Seq<char>>,
)
    requires
        placed(file, ids),
    ensures
        #[trigger] asks_only(dedup(file, todo, pkgs, t), confined(ids)),
    decreases todo.len(),
{
    if todo.len() > 0 {
        let rest = todo.drop_first();
        calm_dedup(file, rest, pkgs, t, ids);
        calm_dedup(
            file,
            rest,
            pkgs,
            table_without(t, "profile-packages"@, todo[0]),
            ids,
        );
    }
}

/// `check_profile` is confined to the snapshots that it is for.
pub broadcast proof fn calm_check_profile(build: Build, snapshot: Seq<char>, ids: Set<Seq<char>>)
    requires
        ids.contains(chr(snapshot)),
    ensures
        #[trigger] asks_only(check_profile_script(build, snapshot), confined(ids)),
{
    broadcast use group_placed;
    broadcast use {calm_apply, calm_sync_each, calm_prune_services, calm_dedup};

    lemma_slashes();
    reveal(check_profile_script);
    reveal(rewrite_script);
    reveal(sync_services);
}

/// `try_editors` is confined to the snapshots that it is for.
pub broadcast proof fn calm_try_editors(names: Seq<Seq<char>>, file: Seq<char>, ids: Set<Seq<char>>)
    ensures
        #[trigger] asks_only(try_editors(names, file), confined(ids)),
    decreases names.len(),
{
    if names.len() > 0 {
        calm_try_editors(names.drop_first(), file, ids);
    }
}

/// `chr_delete` is confined to the snapshots that it is for.
pub broadcast proof fn calm_chr_delete(snapshot: Seq<char>, ids: Set<Seq<char>>)
    requires
        ids.contains(chr(snapshot)),
    ensures
        #[trigger] asks_only(chr_delete_script(snapshot), confined(ids)),
{
    broadcast use {calm_remove_dir_content, group_placed};

    reveal(chr_delete_script);
    reveal(drop_three);
    reveal(drop_there);
    reveal(drop_hard);
}

/// `prepare` is confined to the snapshots that it is for.
pub broadcast proof fn calm_prepare(build: Build, snapshot: Seq<char>, ids: Set<Seq<char>>)
    requires
        ids.contains(chr(snapshot)),
    ensures
        #[trigger] asks_only(prepare_script(build, snapshot), confined(ids)),
{
    broadcast use {
        calm_chr_delete,
        calm_ash_mounts,
        calm_mount_mutable_dirs,
        calm_identity,
        group_placed,
    };

    lemma_slashes();
    reveal(prepare_script);
}

/// `post_transactions` is confined to the snapshots that it is for.
pub broadcast proof fn calm_post_transactions(build: Build, snapshot: Seq<char>, ids: Set<Seq<char>>)
    requires
        ids.contains(snapshot),
        ids.contains(chr(snapshot)),
    ensures
        #[trigger] asks_only(post_transactions_script(build, snapshot), confined(ids)),
{
    broadcast use {
        calm_chr_delete,
        calm_collect_all,
        calm_ash_umounts,
        calm_unmount_mutable_dirs,
    };

    reveal(post_transactions_script);
    reveal(drop_three);
    reveal(drop_there);
    reveal(keep_copy);
}

/// The operations that are confined to the snapshots that they are for.
pub broadcast group group_calm {
    calm_remove_dir_content,
    calm_allow_dir_mut,
    calm_is_mounted,
    calm_ash_mounts,
    calm_ash_umounts,
    calm_snapshot_config_get,
    calm_mount_dirs,
    calm_mount_mutable_dirs,
    calm_unmount_mutable_dirs,
    calm_identity,
    calm_collect,
    calm_collect_all,
    calm_chroot_exec,
    calm_chroot_in,
    calm_guard,
    calm_ready,
    calm_sync_time,
    calm_get_tmp,
    calm_distro,
    calm_load,
    calm_load_old,
    calm_carry_out,
    calm_apply,
    calm_sync_one,
    calm_check_profile,
    calm_try_editors,
    calm_chr_delete,
    calm_prepare,
    calm_post_transactions,
}

/// What is done to the temporary copy of a snapshot leaves all subvolumes alone but those of
/// the copy.
pub proof fn law_temporary_copy(build: Build, snapshot: Seq<char>)
    ensures
        asks_only(chr_delete_script(snapshot), confined(set![chr(snapshot)])),
        asks_only(snapshot_unlock_script(snapshot), confined(set![chr(snapshot)])),
        asks_only(prepare_script(build, snapshot), confined(set![chr(snapshot)])),
{
    broadcast use {group_calm, group_placed};

    reveal(snapshot_unlock_script);
    reveal(drop_three);
    reveal(drop_there);
    reveal(drop_hard);
}

/// A request deletes, creates, replaces or opens no subvolume but those of a snapshot and of
/// its temporary copy, and changes nothing in a subvolume but in theirs.
pub open spec fn own(snapshot: Seq<char>) -> spec_fn(Req) -> bool {
    confined(set![snapshot, chr(snapshot)])
}

/// A change of one snapshot leaves the subvolumes of all others alone, whatever the
/// surroundings reply.
pub proof fn law_one_snapshot(
    build: Build,
    snapshot: Seq<char>,
    pkgs: Seq<Seq<char>>,
    cmds: Seq<Seq<char>>,
    noconfirm: bool,
)
    ensures
        ({
            let own = own(snapshot);
            &&& asks_only(post_transactions_script(build, snapshot), own)
            &&& asks_only(posttrans_script(snapshot), own)
            &&& asks_only(install_script(build, snapshot, pkgs, noconfirm), own)
            &&& asks_only(uninstall_script(build, snapshot, pkgs, noconfirm), own)
            &&& asks_only(upgrade_script(build, snapshot, false, noconfirm), own)
            &&& asks_only(refresh_script(build, snapshot), own)
            &&& asks_only(chroot_script(build, snapshot, cmds), own)
            &&& asks_only(snapshot_config_edit_script(build, snapshot), own)
            &&& asks_only(snapshot_profile_edit_script(build, snapshot), own)
            &&& asks_only(immutability_enable_script(snapshot), own)
            &&& asks_only(immutability_disable_script(snapshot), own)
        }),
{
    broadcast use {group_calm, group_placed};

    let own = own(snapshot);
    lemma_slashes();
    assert(asks_only(posttrans_script(snapshot), own)) by {
        reveal(posttrans_script);
    }
    assert(asks_only(install_script(build, snapshot, pkgs, noconfirm), own)) by {
        reveal(install_script);
        reveal(install_end_script);
    }
    assert(asks_only(uninstall_script(build, snapshot, pkgs, noconfirm), own)) by {
        reveal(uninstall_script);
        reveal(uninstall_end_script);
    }
    assert(asks_only(upgrade_script(build, snapshot, false, noconfirm), own)) by {
        reveal(upgrade_script);
        reveal(upgrade_guard_script);
        reveal(upgrade_end_script);
        reveal(upgraded_script);
        reveal(renew_recovery_script);
    }
    assert(asks_only(refresh_script(build, snapshot), own)) by {
        reveal(refresh_script);
        reveal(refresh_run_script);
        reveal(refresh_end_script);
    }
    assert(asks_only(chroot_script(build, snapshot, cmds), own)) by {
        reveal(chroot_script);
        reveal(chroot_shell_script);
        reveal(keep_changes_script);
    }
    assert(asks_only(snapshot_config_edit_script(build, snapshot), own)) by {
        reveal(snapshot_config_edit_script);
        reveal(edit_config_script);
        reveal(own_editor_script);
    }
    assert(asks_only(snapshot_profile_edit_script(build, snapshot), own)) by {
        reveal(snapshot_profile_edit_script);
        reveal(edit_profile_script);
        reveal(own_editor_script);
        reveal(apply_edit_script);
    }
    assert(asks_only(immutability_enable_script(snapshot), own)) by {
        reveal(immutability_enable_script);
        reveal(check_mutability_script);
        reveal(unmark_script);
    }
    assert(asks_only(immutability_disable_script(snapshot), own)) by {
        reveal(immutability_disable_script);
        reveal(check_mutability_script);
        reveal(write_desc_script);
    }
}

/// A profile that is installed in a snapshot or removed from it leaves the subvolumes of all
/// others alone.
pub proof fn law_profile_in_one_snapshot(
    build: Build,
    snapshot: Seq<char>,
    name: Seq<char>,
    force: bool,
    secondary: bool,
    user: Seq<char>,
    noconfirm: bool,
)
    ensures
        asks_only(
            install_profile_script(build, snapshot, name, force, secondary, user, noconfirm),
            own(snapshot),
        ),
        asks_only(
            uninstall_profile_script(build, snapshot, name, user, noconfirm),
            own(snapshot),
        ),
{
    broadcast use group_calm;

    assert(asks_only(
        install_profile_script(build, snapshot, name, force, secondary, user, noconfirm),
        own(snapshot),
    )) by {
        reveal(install_profile_script);
    }
    assert(asks_only(
        uninstall_profile_script(build, snapshot, name, user, noconfirm),
        own(snapshot),
    )) by {
        reveal(uninstall_profile_script);
    }
}

/// What is done to the snapshots of a tree is done to each by itself: a job leaves the
/// subvolumes of all snapshots alone but those of the one that it is for.
pub proof fn law_job_in_one_snapshot(build: Build, job: Task, snapshot: Seq<char>)
    ensures
        asks_only(job_script(build, job, snapshot), own(snapshot)),
{
    broadcast use group_calm;

    reveal(job_script);
    match job {
        Task::Install { pkg, noconfirm } => {
            law_one_snapshot(build, snapshot, seq![pkg], seq![], noconfirm);
        },
        Task::Remove { pkg, noconfirm } => {
            law_one_snapshot(build, snapshot, seq![pkg], seq![], noconfirm);
        },
        Task::InstallProfile { profile, user_profile, force, secondary, noconfirm } => {
            law_profile_in_one_snapshot(
                build,
                snapshot,
                profile,
                force,
                secondary,
                user_profile,
                noconfirm,
            );
            reveal(profile_end_script);
        },
        Task::RemoveProfile { profile, user_profile, noconfirm } => {
            law_profile_in_one_snapshot(
                build,
                snapshot,
                profile,
                false,
                false,
                user_profile,
                noconfirm,
            );
            reveal(profile_end_script);
        },
        Task::Run { cmd } => {
            reveal(run_in_script);
            reveal(free_script);
        },
        Task::Upgrade => {
            reveal(upgrade_in_script);
            reveal(free_script);
        },
        Task::Sync { from, live } => {
            reveal(sync_in_script);
            reveal(sync_live_script);
            reveal(get_current_snapshot_script);
            reveal(free_script);
        },
    }
}

/// After a failed attempt to install, remove, upgrade or refresh, only the temporary copy is
/// deleted: the snapshot stays as it was.
pub proof fn law_failure_is_discarded(
    build: Build,
    snapshot: Seq<char>,
    pkgs: Seq<Seq<char>>,
    baseup: bool,
    e: Fault,
)
    ensures
        ({
            let copy = confined(set![chr(snapshot)]);
            &&& asks_only(install_end_script(build, snapshot, Err(e)), copy)
            &&& asks_only(uninstall_end_script(build, snapshot, pkgs, Err(e)), copy)
            &&& asks_only(upgrade_end_script(build, snapshot, baseup, Err(e)), copy)
            &&& asks_only(refresh_end_script(build, snapshot, Err(e)), copy)
            &&& fails(install_end_script(build, snapshot, Err(e)))
            &&& fails(upgrade_end_script(build, snapshot, baseup, Err(e)))
        }),
{
    broadcast use group_calm;
    broadcast use crate::script::lemma_ends_follow;

    reveal(install_end_script);
    reveal(uninstall_end_script);
    reveal(upgrade_end_script);
    reveal(refresh_end_script);
}

// --------------------------------------------------------- the base snapshot

/// A request only looks whether something is there.
pub open spec fn looks() -> spec_fn(Req) -> bool {
    |req: Req| req is Exists
}

/// A request only looks whether something is there, or shows a complaint.
pub open spec fn looks_or_complains() -> spec_fn(Req) -> bool {
    |req: Req| req is Exists || req is Eprint
}

/// A request only looks whether something is there, or asks for the distribution.
pub open spec fn looks_or_asks_distro() -> spec_fn(Req) -> bool {
    |req: Req| req is Exists || req is DistroId
}

/// No request at all.
pub open spec fn silence() -> spec_fn(Req) -> bool {
    |req: Req| false
}

proof fn lemma_base_guard(verb: Seq<char>)
    ensures
        asks_only(guard_script(verb, "0"@), looks()),
        asks_only(guard_script(verb, "0"@), looks_or_asks_distro()),
        fails(guard_script(verb, "0"@)),
{
    broadcast use crate::script::lemma_ends_follow;

    reveal(guard_script);
}

proof fn lemma_base_ready(verb: Seq<char>, p: Script<()>)
    ensures
        asks_only(if_ready(verb, "0"@, p), looks_or_complains()),
{
    broadcast use crate::script::lemma_ends_follow;

    reveal(ready_script);
    let no = |may: bool| !may;
    assert(gives_only(ready_script(verb, "0"@), no));
    lemma_asks_given(ready_script(verb, "0"@), when_ready(p), no, looks_or_complains());
}

/// The base snapshot is not changed: nothing is asked for but whether snapshots are there, and
/// the operation fails, or complains and does nothing.
pub proof fn law_base_is_kept(
    build: Build,
    pkgs: Seq<Seq<char>>,
    cmds: Seq<Seq<char>>,
    noconfirm: bool,
    snap_num: i32,
    desc: Seq<char>,
)
    ensures
        asks_only(install_script(build, "0"@, pkgs, noconfirm), looks()),
        fails(install_script(build, "0"@, pkgs, noconfirm)),
        asks_only(uninstall_script(build, "0"@, pkgs, noconfirm), looks()),
        fails(uninstall_script(build, "0"@, pkgs, noconfirm)),
        asks_only(upgrade_script(build, "0"@, false, noconfirm), looks()),
        fails(upgrade_script(build, "0"@, false, noconfirm)),
        asks_only(chroot_script(build, "0"@, cmds), looks()),
        fails(chroot_script(build, "0"@, cmds)),
        asks_only(hollow_script(build, "0"@), looks()),
        fails(hollow_script(build, "0"@)),
        asks_only(rebuild_script(build, "0"@, snap_num, desc), looks()),
        fails(rebuild_script(build, "0"@, snap_num, desc)),
        asks_only(refresh_script(build, "0"@), looks_or_complains()),
        asks_only(snapshot_config_edit_script(build, "0"@), looks_or_complains()),
        asks_only(snapshot_profile_edit_script(build, "0"@), looks_or_complains()),
        asks_only(immutability_enable_script("0"@), silence()),
        fails(immutability_enable_script("0"@)),
        asks_only(immutability_disable_script("0"@), silence()),
        fails(immutability_disable_script("0"@)),
{
    broadcast use {crate::script::lemma_stuck_asks, crate::script::lemma_stuck_fails};

    lemma_base_guard("install"@);
    lemma_base_guard("remove"@);
    lemma_base_guard("clone"@);
    lemma_base_guard("make hollow"@);
    reveal(install_script);
    reveal(uninstall_script);
    reveal(upgrade_script);
    reveal(chroot_script);
    reveal(hollow_script);
    reveal(rebuild_script);
    assert(asks_only(upgrade_guard_script("0"@, false), looks()) && fails(
        upgrade_guard_script("0"@, false),
    )) by {
        broadcast use crate::script::lemma_ends_follow;

        reveal(upgrade_guard_script);
    }
    let id = decimal(snap_num as int);
    assert(asks_only(rebuild_guard_script("0"@, id), looks()) && fails(
        rebuild_guard_script("0"@, id),
    )) by {
        broadcast use crate::script::lemma_ends_follow;

        reveal(rebuild_guard_script);
    }
    lemma_base_ready("refresh"@, refresh_run_script(build, "0"@));
    reveal(refresh_script);
    assert(asks_only(snapshot_config_edit_script(build, "0"@), looks_or_complains())) by {
        reveal(snapshot_config_edit_script);
        lemma_any_ready("chroot"@);
    }
    assert(asks_only(snapshot_profile_edit_script(build, "0"@), looks_or_complains())) by {
        reveal(snapshot_profile_edit_script);
        lemma_any_ready("chroot"@);
    }
    reveal(immutability_enable_script);
    reveal(immutability_disable_script);
}

proof fn lemma_any_ready(verb: Seq<char>)
    ensures
        forall|p: Script<()>|
            #[trigger] asks_only(if_ready(verb, "0"@, p), looks_or_complains()),
{
    assert forall|p: Script<()>|
        #[trigger] asks_only(if_ready(verb, "0"@, p), looks_or_complains()) by {
        lemma_base_ready(verb, p);
    }
}

/// A profile is neither installed in the base snapshot nor removed from it.
pub proof fn law_base_keeps_profiles(
    build: Build,
    name: Seq<char>,
    force: bool,
    secondary: bool,
    user: Seq<char>,
    noconfirm: bool,
)
    ensures
        asks_only(
            install_profile_script(build, "0"@, name, force, secondary, user, noconfirm),
            looks_or_asks_distro(),
        ),
        fails(install_profile_script(build, "0"@, name, force, secondary, user, noconfirm)),
        asks_only(
            uninstall_profile_script(build, "0"@, name, user, noconfirm),
            looks_or_asks_distro(),
        ),
        fails(uninstall_profile_script(build, "0"@, name, user, noconfirm)),
{
    broadcast use {
        crate::script::lemma_stuck_asks,
        crate::script::lemma_stuck_fails,
        crate::script::lemma_then_fails,
    };

    lemma_base_guard("install"@);
    lemma_base_guard("uninstall"@);
    reveal(install_profile_script);
    reveal(uninstall_profile_script);
    reveal(distro_script);
}

// ----------------------------------------------------- deployments and copies

/// The deployments, and the one that is kept to roll back to.
pub open spec fn deployments() -> Set<Seq<char>> {
    set![
        "rollback"@,
        "deploy"@,
        "deploy-aux"@,
        "deploy-secondary"@,
        "deploy-aux-secondary"@,
    ]
}

proof fn lemma_get_tmp(ok: spec_fn(Req) -> bool)
    requires
        ok(Req::ReadText { path: "/proc/mounts"@ }),
    ensures
        asks_only(get_tmp_script(), ok),
        gives_only(get_tmp_script(), |tmp: Seq<char>| is_slot(tmp)),
{
    broadcast use crate::script::lemma_ends_follow;

    reveal(get_tmp_script);
    reveal(mounts_script);
    assert forall|mounts: Seq<Seq<char>>| is_slot(#[trigger] running_slot(mounts)) by {
        law_running_slot(mounts);
    }
}

proof fn lemma_tmp_delete(secondary: bool)
    ensures
        asks_only(tmp_delete_script(secondary), confined(deployments())),
{
    let ids = deployments();
    lemma_get_tmp(confined(ids));
    assert forall|tmp: Seq<char>| is_slot(tmp) implies asks_only(
        #[trigger] clear_aux(secondary)(tmp),
        confined(ids),
    ) by {
        law_aux_tmp(tmp, secondary);
        reveal(clear_slot);
    }
    reveal(tmp_delete_script);
    lemma_asks_given(
        get_tmp_script(),
        clear_aux(secondary),
        |tmp: Seq<char>| is_slot(tmp),
        confined(ids),
    );
}

proof fn lemma_place(
    build: Build,
    snapshot: Seq<char>,
    tmp: Seq<char>,
    secondary: bool,
    reset: bool,
    ids: Set<Seq<char>>,
)
    requires
        ids.contains(tmp),
    ensures
        asks_only(place_script(build, snapshot, tmp, secondary, reset), confined(ids)),
{
    let ok = confined(ids);
    lemma_slashes();
    assert(asks_only(all_done(deploy_plan(snapshot, tmp)), ok)) by {
        broadcast use group_placed;

    }
    assert(asks_only(writable_script(snapshot, tmp), ok)) by {
        broadcast use group_placed;

        reveal(writable_script);
        reveal(check_mutability_script);
    }
    assert forall|options: Map<Seq<char>, Seq<char>>|
        asks_only(#[trigger] enter_dirs_script(options, snapshot, tmp), ok) by {
        broadcast use group_placed;

        reveal(enter_dirs_script);
    }
    assert(placed(snap_file(tmp), ids)) by {
        broadcast use group_placed;

    }
    broadcast use calm_snapshot_config_get;

    reveal(place_script);
}

proof fn lemma_backup(tmp: Seq<char>, ids: Set<Seq<char>>)
    requires
        ids.contains("rollback"@),
    ensures
        asks_only(backup_script(tmp), confined(ids)),
{
    reveal(backup_script);
}

/// To deploy a snapshot changes no subvolumes but those of the deployments: all snapshots, the
/// deployed one among them, stay as they are.
pub proof fn law_deploy_keeps_snapshots(
    build: Build,
    snapshot: Seq<char>,
    secondary: bool,
    reset: bool,
)
    ensures
        asks_only(deploy_script(build, snapshot, secondary, reset), confined(deployments())),
{
    let ids = deployments();
    let ok = confined(ids);
    lemma_get_tmp(ok);
    lemma_tmp_delete(secondary);
    assert forall|tmp: Seq<char>| is_slot(tmp) implies asks_only(
        #[trigger] deploy_beside(build, snapshot, secondary, reset)(tmp),
        ok,
    ) by {
        law_aux_tmp(tmp, secondary);
        lemma_backup(tmp, ids);
        lemma_place(build, snapshot, aux_tmp(tmp, secondary), secondary, reset, ids);
    }
    lemma_asks_given(
        get_tmp_script(),
        deploy_beside(build, snapshot, secondary, reset),
        |tmp: Seq<char>| is_slot(tmp),
        ok,
    );
    reveal(deploy_script);
}

/// Surroundings in which the deployment `tmp` is running.
pub open spec fn running(tmp: Seq<char>) -> Model<()> {
    Model {
        fits: |s: (), req: Req, a: Answer|
            req == (Req::ReadText { path: "/proc/mounts"@ }) ==> match a {
                Answer::Text(content) => running_slot(lines(content)) == tmp,
                _ => true,
            },
        step: |s: (), req: Req, a: Answer| (),
    }
}

/// Requests that are confined to the snapshots `ids`, in surroundings without a state.
pub open spec fn only(ids: Set<Seq<char>>) -> spec_fn((), Req) -> bool {
    |s: (), req: Req| confined(ids)(req)
}

/// Any end, in surroundings without a state.
pub open spec fn any_end<T>() -> spec_fn((), T) -> bool {
    |s: (), v: T| true
}

proof fn lemma_only<T>(p: Script<T>, tmp: Seq<char>, ids: Set<Seq<char>>)
    requires
        asks_only(p, confined(ids)),
    ensures
        leads(p, running(tmp), (), only(ids), any_end()),
{
    let inv = |s: ()| true;
    lemma_leads_keeping(p, running(tmp), (), only(ids), inv, confined(ids));
    lemma_leads_weaker(p, running(tmp), (), only(ids), |s: (), v: T| inv(s), any_end());
}

proof fn lemma_running(tmp: Seq<char>, ids: Set<Seq<char>>)
    ensures
        leads(get_tmp_script(), running(tmp), (), only(ids), |s: (), v: Seq<char>| v == tmp),
{
    let m = running(tmp);
    let ok = only(ids);
    let read = Req::ReadText { path: "/proc/mounts"@ };
    let fine = |s: (), content: Seq<char>| running_slot(lines(content)) == tmp;
    let found = |s: (), mounts: Seq<Seq<char>>| running_slot(mounts) == tmp;
    lemma_leads_text(read, m, (), ok, fine);
    lemma_leads_sure(text(read), m, (), ok, fine);
    reveal(mounts_script);
    lemma_leads_chain(
        crate::script::sure(text(read)),
        |content: Seq<char>| give(lines(content)),
        m,
        (),
        ok,
        fine,
        found,
    );
    reveal(get_tmp_script);
    lemma_leads_chain(
        mounts_script(),
        |mounts: Seq<Seq<char>>| give(running_slot(mounts)),
        m,
        (),
        ok,
        found,
        |s: (), v: Seq<char>| v == tmp,
    );
}

proof fn lemma_tmp_delete_spares(tmp: Seq<char>, secondary: bool, ids: Set<Seq<char>>)
    requires
        ids.contains(aux_tmp(tmp, secondary)),
    ensures
        leads(tmp_delete_script(secondary), running(tmp), (), only(ids), any_end()),
{
    let is_it = |s: (), v: Seq<char>| v == tmp;
    lemma_running(tmp, ids);
    reveal(tmp_delete_script);
    assert(asks_only(clear_slot(aux_tmp(tmp, secondary)), confined(ids))) by {
        reveal(clear_slot);
    }
    lemma_only(clear_slot(aux_tmp(tmp, secondary)), tmp, ids);
    lemma_leads_chain(
        get_tmp_script(),
        clear_aux(secondary),
        running(tmp),
        (),
        only(ids),
        is_it,
        any_end(),
    );
}

/// The running deployment is left alone: while `tmp` is running, `tmp_delete` changes nothing but
/// the deployment that takes its place, and `deploy` nothing but that one and the one that is
/// kept to roll back to.
pub proof fn law_running_is_spared(
    build: Build,
    snapshot: Seq<char>,
    secondary: bool,
    reset: bool,
    tmp: Seq<char>,
)
    requires
        is_slot(tmp),
    ensures
        ({
            let aux = aux_tmp(tmp, secondary);
            &&& aux != tmp
            &&& tmp != "rollback"@
            &&& leads(
                tmp_delete_script(secondary),
                running(tmp),
                (),
                only(set![aux]),
                any_end(),
            )
            &&& leads(
                deploy_script(build, snapshot, secondary, reset),
                running(tmp),
                (),
                only(set!["rollback"@, aux]),
                any_end(),
            )
        }),
{
    let aux = aux_tmp(tmp, secondary);
    let ids = set!["rollback"@, aux];
    let m = running(tmp);
    let ok = only(ids);
    law_aux_tmp(tmp, secondary);
    lemma_rollback_is_no_slot(tmp);
    lemma_tmp_delete_spares(tmp, secondary, set![aux]);
    lemma_tmp_delete_spares(tmp, secondary, ids);
    lemma_running(tmp, ids);
    let mark = seq![
        Req::UpdateBoot { snapshot, secondary },
        Req::SetDefault { path: rootfs(tmp) },
    ];
    let place = place_script(build, snapshot, aux, secondary, reset);
    lemma_backup(tmp, ids);
    lemma_place(build, snapshot, aux, secondary, reset, ids);
    lemma_only(backup_script(tmp), tmp, ids);
    lemma_only(all_done(mark), tmp, ids);
    lemma_only(place, tmp, ids);
    let last = chain(tmp_delete_script(secondary), |u: ()| place);
    lemma_leads_chain(tmp_delete_script(secondary), |u: ()| place, m, (), ok, any_end(), any_end());
    let later = chain(all_done(mark), |u: ()| last);
    lemma_leads_chain(all_done(mark), |u: ()| last, m, (), ok, any_end(), any_end());
    lemma_leads_chain(backup_script(tmp), |u: ()| later, m, (), ok, any_end(), any_end());
    let beside = deploy_beside(build, snapshot, secondary, reset);
    assert(beside(tmp) == chain(backup_script(tmp), |u: ()| later));
    let is_it = |s: (), v: Seq<char>| v == tmp;
    lemma_leads_chain(get_tmp_script(), beside, m, (), ok, is_it, any_end());
    reveal(deploy_script);
    let look = flag(Req::Exists { path: rootfs(snapshot) });
    lemma_only(look, tmp, ids);
    let begin = |there: bool|
        if !there {
            fail(ErrorKind::NotFound, missing("deploy"@, snapshot))
        } else {
            chain(get_tmp_script(), beside)
        };
    lemma_leads_chain(look, begin, m, (), ok, any_end(), any_end());
    assert(deploy_script(build, snapshot, secondary, reset) == chain(look, begin));
}

proof fn lemma_rollback_is_no_slot(tmp: Seq<char>)
    requires
        is_slot(tmp),
    ensures
        tmp != "rollback"@,
{
    reveal_strlit("rollback");
    reveal_strlit("deploy");
    reveal_strlit("deploy-aux");
    reveal_strlit("deploy-secondary");
    reveal_strlit("deploy-aux-secondary");
    assert("rollback"@[0] == 'r');
}

/// A new snapshot is made of subvolumes of its own number only.
pub proof fn law_new_snapshot(snapshot: Seq<char>, i: i32, entry: spec_fn(u64) -> Req, desc: Seq<char>)
    requires
        forall|t: u64| (#[trigger] entry(t)) is AddChild || entry(t) is AddSibling || entry(
            t,
        ) is AddToBase,
    ensures
        asks_only(
            new_node_script(snapshot, i, entry, desc),
            confined(set![decimal(i as int)]),
        ),
{
    broadcast use group_placed;

    lemma_slashes();
    reveal(new_node_script);
    reveal(copy_snapshot_script);
    reveal(check_mutability_script);
    reveal(grow_script);
    reveal(write_desc_script);
}

/// A reset deletes neither the running snapshot nor the base snapshot.
pub proof fn law_reset_spares(current: Seq<char>, snapshot: Seq<char>)
    requires
        snapshot == current || snapshot == "0"@,
    ensures
        asks_only(wipe(current)(snapshot), looks()),
{
}

// ------------------------------------------------------------------- in use

/// The next answers say that a snapshot is there, and that its temporary copy is there too.
pub open spec fn answers_in_use(s: Session) -> bool {
    &&& s.asked.len() + 2 <= s.answers.len()
    &&& s.answers[s.asked.len() as int] == Answer::Flag(true)
    &&& s.answers[s.asked.len() as int + 1] == Answer::Flag(true)
}

/// A run that only looked for a snapshot and its temporary copy, and failed as it is in use.
pub open spec fn refused<T>(s: Session, snapshot: Seq<char>, r: Run<T>) -> bool {
    &&& r.now == s.after(Req::Exists { path: rootfs(snapshot) }).after(
        Req::Exists { path: rootfs(chr(snapshot)) },
    )
    &&& r.out == Err::<T, Halted>(
        Halted::Stopped(
            Stop::Failed(Fault { kind: ErrorKind::Unsupported, text: in_use(snapshot) }),
        ),
    )
}

proof fn lemma_guard_in_use(s: Session, verb: Seq<char>, snapshot: Seq<char>)
    requires
        answers_in_use(s),
    ensures
        refused(s, snapshot, run(s, guard_script(verb, snapshot))),
{
    broadcast use crate::script::group_run;

    reveal(guard_script);
    reveal_with_fuel(run, 3);
    let t = s.after(Req::Exists { path: rootfs(snapshot) });
    assert(s.ready());
    assert(t.ready());
}

/// A snapshot whose temporary copy is there is not changed: after the look for the copy there
/// is no other request, and the failure says that the snapshot is in use.
pub proof fn law_in_use(
    s: Session,
    build: Build,
    snapshot: Seq<char>,
    pkgs: Seq<Seq<char>>,
    cmds: Seq<Seq<char>>,
    baseup: bool,
    noconfirm: bool,
    snap_num: i32,
    desc: Seq<char>,
)
    requires
        answers_in_use(s),
    ensures
        refused(s, snapshot, run(s, install_script(build, snapshot, pkgs, noconfirm))),
        refused(s, snapshot, run(s, uninstall_script(build, snapshot, pkgs, noconfirm))),
        refused(s, snapshot, run(s, upgrade_script(build, snapshot, baseup, noconfirm))),
        refused(s, snapshot, run(s, chroot_script(build, snapshot, cmds))),
        refused(s, snapshot, run(s, hollow_script(build, snapshot))),
        refused(s, snapshot, run(s, rebuild_script(build, snapshot, snap_num, desc))),
        refused(s, snapshot, run(s, tree_upgrade_script(build, snapshot))),
{
    broadcast use crate::script::group_run;

    lemma_guard_in_use(s, "install"@, snapshot);
    lemma_guard_in_use(s, "remove"@, snapshot);
    lemma_guard_in_use(s, "clone"@, snapshot);
    lemma_guard_in_use(s, "make hollow"@, snapshot);
    reveal(install_script);
    reveal(uninstall_script);
    reveal(chroot_script);
    reveal(hollow_script);
    let t = s.after(Req::Exists { path: rootfs(snapshot) });
    assert(s.ready());
    assert(t.ready());
    let id = decimal(snap_num as int);
    assert(refused(s, snapshot, run(s, upgrade_guard_script(snapshot, baseup)))) by {
        reveal(upgrade_guard_script);
        reveal_with_fuel(run, 3);
    }
    assert(refused(s, snapshot, run(s, rebuild_guard_script(snapshot, id)))) by {
        reveal(rebuild_guard_script);
        reveal_with_fuel(run, 3);
    }
    assert(refused(s, snapshot, run(s, tree_upgrade_script(build, snapshot)))) by {
        reveal(tree_upgrade_script);
        reveal(tree_job_script);
        reveal(tree_there_script);
        reveal(job_script);
        reveal(upgrade_in_script);
        reveal(free_script);
        reveal_with_fuel(run, 3);
    }
    reveal(upgrade_script);
    reveal(rebuild_script);
}

}
