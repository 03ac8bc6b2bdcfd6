//! What the operations come to: which copies are made of which, what the package manager is
//! asked to do, and what is shown.

use vstd::prelude::*;
use crate::chroots::{
    chr_delete_script, collect, collect_all, copy_three, drop_hard, drop_there, drop_three,
    fill_three, identity_plan, identity_script, keep_copy, post_transactions_script, prepare_script,
};
use crate::config::snapshot_config_get_script;
use crate::dirs::{
    allow_dir_mut_script, entries_script, mount_dirs_script, mount_mutable_dirs_script, remove_any,
    remove_dir_content_script, unmount_mutable_dirs_script,
};
use crate::guard::guard_script;
use crate::mounts::{ash_mounts_script, ash_umounts_script, is_mounted_script};
use crate::paths::{chr, copy_plan, mutable_mark, rootfs, snap, volume, Volume};
use crate::record::{did, got, others, record, sift};
use crate::request::{Answer, Req};
use crate::script::{all_done, asks_only, done, flag, run, Build, Session};

verus! {

// ------------------------------------------------------------- housekeeping

/// Looking around, reading what is kept below `/.snapshots`, mounting, making directories and
/// removing.
pub open spec fn background(req: Req) -> bool {
    match req {
        Req::Exists { .. } => true,
        Req::IsFile { .. } => true,
        Req::IsSymlink { .. } => true,
        Req::IsDir { .. } => true,
        Req::ReadText { path } => path.len() > 1 && path[1] == '.',
        Req::ListDir { .. } => true,
        Req::RemoveFile { .. } => true,
        Req::RemoveTree { .. } => true,
        Req::MakeDirs { .. } => true,
        Req::Mount { .. } => true,
        Req::Unmount { .. } => true,
        Req::MountPoints => true,
        Req::DeleteSubvolume { .. } => true,
        _ => false,
    }
}

/// The requests of `keep` are none of the background.
pub open spec fn spares(keep: spec_fn(Req) -> bool) -> bool {
    forall|req: Req| #[trigger] keep(req) ==> !background(req)
}

pub broadcast proof fn quiet_remove_dir_content(dir: Seq<char>, keep: spec_fn(Req) -> bool)
    requires
        spares(keep),
    ensures
        #[trigger] asks_only(remove_dir_content_script(dir), others(keep)),
{
    broadcast use crate::script::group_asks;

    reveal(remove_dir_content_script);
    reveal(entries_script);
    reveal(remove_any);
}

pub broadcast proof fn quiet_drop_there(v: Volume, id: Seq<char>, keep: spec_fn(Req) -> bool)
    requires
        spares(keep),
    ensures
        #[trigger] asks_only(drop_there(v, id), others(keep)),
{
    broadcast use crate::script::group_asks;

    reveal(drop_there);
}

pub broadcast proof fn quiet_drop_three(id: Seq<char>, keep: spec_fn(Req) -> bool)
    requires
        spares(keep),
    ensures
        #[trigger] asks_only(drop_three(id), others(keep)),
{
    broadcast use {crate::script::group_asks, quiet_drop_there};

    reveal(drop_three);
}

pub broadcast proof fn quiet_chr_delete(snapshot: Seq<char>, keep: spec_fn(Req) -> bool)
    requires
        spares(keep),
    ensures
        #[trigger] asks_only(chr_delete_script(snapshot), others(keep)),
{
    broadcast use {crate::script::group_asks, quiet_drop_three, quiet_remove_dir_content};

    reveal(chr_delete_script);
    reveal(drop_hard);
}

pub broadcast proof fn quiet_ash_mounts(i: Seq<char>, prefix: Seq<char>, keep: spec_fn(Req) -> bool)
    requires
        spares(keep),
    ensures
        #[trigger] asks_only(ash_mounts_script(i, prefix), others(keep)),
{
    broadcast use crate::script::group_asks;

    reveal(ash_mounts_script);
}

pub broadcast proof fn quiet_ash_umounts(i: Seq<char>, prefix: Seq<char>, keep: spec_fn(Req) -> bool)
    requires
        spares(keep),
    ensures
        #[trigger] asks_only(ash_umounts_script(i, prefix), others(keep)),
{
    broadcast use crate::script::group_asks;

    reveal(ash_umounts_script);
}

pub broadcast proof fn quiet_snapshot_config_get(
    build: Build,
    snapshot: Seq<char>,
    keep: spec_fn(Req) -> bool,
)
    requires
        spares(keep),
    ensures
        #[trigger] asks_only(snapshot_config_get_script(build, snapshot), others(keep)),
{
    broadcast use crate::script::group_asks;

    reveal_strlit("/.snapshots/etc/etc-");
    reveal(snapshot_config_get_script);
}

pub broadcast proof fn quiet_mount_dirs(
    store: Seq<char>,
    prefix: Seq<char>,
    root: Seq<char>,
    dirs: Seq<Seq<char>>,
    keep: spec_fn(Req) -> bool,
)
    requires
        spares(keep),
    ensures
        #[trigger] asks_only(mount_dirs_script(store, prefix, root, dirs), others(keep)),
{
    broadcast use {crate::script::group_asks, quiet_remove_dir_content};

    reveal(mount_dirs_script);
    reveal(allow_dir_mut_script);
}

pub broadcast proof fn quiet_mount_mutable_dirs(
    build: Build,
    snapshot: Seq<char>,
    keep: spec_fn(Req) -> bool,
)
    requires
        spares(keep),
    ensures
        #[trigger] asks_only(mount_mutable_dirs_script(build, snapshot), others(keep)),
{
    broadcast use {crate::script::group_asks, quiet_mount_dirs, quiet_snapshot_config_get};

    reveal(mount_mutable_dirs_script);
}

pub broadcast proof fn quiet_unmount_mutable_dirs(
    build: Build,
    id: Seq<char>,
    named: Seq<char>,
    keep: spec_fn(Req) -> bool,
)
    requires
        spares(keep),
    ensures
        #[trigger] asks_only(unmount_mutable_dirs_script(build, id, named), others(keep)),
{
    broadcast use {crate::script::group_asks, quiet_snapshot_config_get};

    reveal(unmount_mutable_dirs_script);
    reveal(allow_dir_mut_script);
    reveal(is_mounted_script);
}

/// Housekeeping makes none of the requests that `keep` singles out.
pub broadcast group group_quiet {
    quiet_remove_dir_content,
    quiet_drop_there,
    quiet_drop_three,
    quiet_chr_delete,
    quiet_ash_mounts,
    quiet_ash_umounts,
    quiet_snapshot_config_get,
    quiet_mount_dirs,
    quiet_mount_mutable_dirs,
    quiet_unmount_mutable_dirs,
}

// ------------------------------------------------------------------- copies

/// All requests but those of the background.
pub open spec fn deeds() -> spec_fn(Req) -> bool {
    |req: Req| !background(req)
}

/// The four subvolumes of `to` were made from those of `from`.
pub open spec fn copied(from: Seq<char>, to: Seq<char>, read_only: bool) -> Seq<(Req, Answer)> {
    did(
        seq![
            Req::SnapshotSubvolume {
                from: volume(Volume::Boot, from),
                to: volume(Volume::Boot, to),
                read_only,
            },
            Req::SnapshotSubvolume {
                from: volume(Volume::Etc, from),
                to: volume(Volume::Etc, to),
                read_only,
            },
            Req::SnapshotSubvolume {
                from: volume(Volume::Var, from),
                to: volume(Volume::Var, to),
                read_only,
            },
            Req::SnapshotSubvolume { from: rootfs(from), to: rootfs(to), read_only },
        ],
    )
}

/// A temporary copy of a snapshot was made, writable: its root, and then its other subvolumes,
/// whose content was put at their places in that root. It was given the identity of the running
/// system and the tree of snapshots, and, but for the base snapshot, the package cache.
#[verifier::opaque]
pub open spec fn prepared(snapshot: Seq<char>, systemd: bool) -> Seq<(Req, Answer)> {
    let id = chr(snapshot);
    did(
        seq![
            Req::SnapshotSubvolume { from: rootfs(snapshot), to: rootfs(id), read_only: false },
            Req::SnapshotSubvolume {
                from: volume(Volume::Boot, snapshot),
                to: volume(Volume::Boot, id),
                read_only: false,
            },
            Req::SnapshotSubvolume {
                from: volume(Volume::Etc, snapshot),
                to: volume(Volume::Etc, id),
                read_only: false,
            },
            Req::SnapshotSubvolume {
                from: volume(Volume::Var, snapshot),
                to: volume(Volume::Var, id),
                read_only: false,
            },
            Req::CopyTree { from: volume(Volume::Boot, id) + "/."@, to: rootfs(id) + "/boot"@ },
            Req::CopyTree { from: volume(Volume::Etc, id) + "/."@, to: rootfs(id) + "/etc"@ },
            Req::CopyTree { from: volume(Volume::Var, id) + "/."@, to: rootfs(id) + "/var"@ },
        ],
    ) + identified(id, systemd) + if snapshot == "0"@ {
        did(seq![])
    } else {
        did(seq![Req::CopyCache { snapshot, into_chroot: true }])
    }
}

/// The root of `id` was given the tree of snapshots and, where the system runs systemd, the
/// identity of the machine.
pub open spec fn identified(id: Seq<char>, systemd: bool) -> Seq<(Req, Answer)> {
    let tree = Req::CopyFile {
        from: "/.snapshots/ash/fstree"@,
        to: rootfs(id) + "/.snapshots/ash/fstree"@,
    };
    if systemd {
        did(
            seq![
                Req::CopyFile { from: "/etc/machine-id"@, to: rootfs(id) + "/etc/machine-id"@ },
                tree,
            ],
        )
    } else {
        did(seq![tree])
    }
}

/// The boot, etc and var subvolumes of the temporary copy of a snapshot were filled from the
/// directories of the same names in its root, and the package cache was kept (that of the base
/// snapshot cleaned).
pub open spec fn gathered(snapshot: Seq<char>) -> Seq<(Req, Answer)> {
    let id = chr(snapshot);
    did(
        seq![
            Req::CopyTree { from: rootfs(id) + "/boot/."@, to: volume(Volume::Boot, id) },
            Req::CopyTree { from: rootfs(id) + "/etc/."@, to: volume(Volume::Etc, id) },
            Req::CopyCache { snapshot, into_chroot: false },
        ],
    ) + (if snapshot == "0"@ {
        did(seq![Req::CleanCache { snapshot }])
    } else {
        did(seq![])
    }) + did(seq![Req::CopyTree { from: rootfs(id) + "/var/."@, to: volume(Volume::Var, id) }])
}

/// The temporary copy of a snapshot took the place of the snapshot: its subvolumes were filled
/// from its root, and then the four subvolumes of the snapshot were made from them.
#[verifier::opaque]
pub open spec fn kept(snapshot: Seq<char>, read_only: bool) -> Seq<(Req, Answer)> {
    gathered(snapshot) + copied(chr(snapshot), snapshot, read_only)
}

pub proof fn lemma_collect(s: Session, v: Volume, snapshot: Seq<char>, rest: Seq<char>)
    requires
        run(s, collect(v, snapshot, rest)).out is Ok,
    ensures
        record(s, collect(v, snapshot, rest), deeds()) == did(
            seq![
                Req::CopyTree {
                    from: rootfs(chr(snapshot)) + rest,
                    to: volume(v, chr(snapshot)),
                },
            ],
        ),
{
    broadcast use {group_quiet, crate::record::group_ok};

    assert(spares(deeds()));
    reveal(collect);
}

proof fn lemma_collect_all(s: Session, snapshot: Seq<char>)
    requires
        run(s, collect_all(snapshot)).out is Ok,
    ensures
        record(s, collect_all(snapshot), deeds()) == gathered(snapshot),
{
    broadcast use {group_quiet, crate::record::group_ok};

    assert(spares(deeds()));
    reveal(collect_all);
    assert forall|t: Session, v: Volume, rest: Seq<char>|
        run(t, #[trigger] collect(v, snapshot, rest)).out is Ok implies
        #[trigger] record(t, collect(v, snapshot, rest), deeds()) == did(
            seq![
                Req::CopyTree {
                    from: rootfs(chr(snapshot)) + rest,
                    to: volume(v, chr(snapshot)),
                },
            ],
        ) by {
        lemma_collect(t, v, snapshot, rest);
    }
}

pub proof fn lemma_keep_copy(s: Session, id: Seq<char>, snapshot: Seq<char>) -> (read_only: bool)
    requires
        run(s, keep_copy(id, snapshot)).out is Ok,
    ensures
        record(s, keep_copy(id, snapshot), deeds()) == copied(id, snapshot, read_only),
        got(
            s,
            run(s, keep_copy(id, snapshot)).now,
            Req::Exists { path: rootfs(id) + "/usr/share/ash/mutable"@ },
            Answer::Flag(!read_only),
        ),
{
    broadcast use {group_quiet, crate::script::group_asks, crate::record::group_ok};

    assert(spares(deeds()));
    reveal(keep_copy);
    let mark = Req::Exists { path: mutable_mark(id) };
    assert(record(s, keep_copy(id, snapshot), deeds()).len() >= 0);
    crate::record::got_flag(s, mark);
    let read_only = s.next() != Answer::Flag(true);
    assert(record(s, keep_copy(id, snapshot), deeds()) == copied(id, snapshot, read_only));
    let k = |mutable: bool| all_done(copy_plan(id, snapshot, !mutable));
    crate::record::got_chain(s, flag(mark), k, mark, s.next());
    read_only
}

/// After a `post_transactions` that succeeds, the boot, etc and var subvolumes of the temporary
/// copy were filled from the directories of the same names in its root, and the four subvolumes
/// of the snapshot were then made from those of the temporary copy: writable where the temporary
/// copy was found marked as mutable, and read-only where not.
#[verifier::rlimit(40)]
pub proof fn law_post_transactions(s: Session, build: Build, snapshot: Seq<char>)
    ensures
        run(s, post_transactions_script(build, snapshot)).out is Ok ==> exists|read_only: bool|
            record(s, post_transactions_script(build, snapshot), deeds()) == #[trigger] kept(
                snapshot,
                read_only,
            ) && got(
                s,
                run(s, post_transactions_script(build, snapshot)).now,
                Req::Exists { path: rootfs(chr(snapshot)) + "/usr/share/ash/mutable"@ },
                Answer::Flag(!read_only),
            ),
{
    broadcast use {group_quiet, crate::record::group_ok, crate::record::got_chain};

    assert(spares(deeds()));
    reveal(kept);
    reveal(post_transactions_script);
    if run(s, post_transactions_script(build, snapshot)).out is Ok {
        assert(record(s, post_transactions_script(build, snapshot), deeds()).len() >= 0);
        lemma_collect_all(s, snapshot);
        let t = run(s, collect_all(snapshot)).now;
        let t = run(t, drop_three(snapshot)).now;
        let t = run(t, drop_there(Volume::Rootfs, snapshot)).now;
        let read_only = lemma_keep_copy(t, chr(snapshot), snapshot);
        assert(record(s, post_transactions_script(build, snapshot), deeds()) =~= kept(
            snapshot,
            read_only,
        ));
    }
}

pub proof fn lemma_identity(s: Session, id: Seq<char>) -> (systemd: bool)
    requires
        run(s, identity_script(id)).out is Ok,
    ensures
        record(s, identity_script(id), deeds()) == identified(id, systemd),
{
    broadcast use {crate::script::group_asks, crate::record::group_ok};

    reveal(identity_script);
    let ask = Req::Exists { path: "/etc/systemd"@ };
    crate::record::run_flag(s, ask);
    let systemd = s.next() == Answer::Flag(true);
    assert(record(s, identity_script(id), deeds()).len() >= 0);
    let t = run(s, flag(ask)).now;
    let plan = identity_plan(id, systemd);
    crate::record::record_all_done(t, plan, deeds());
    assert(sift(did(plan), deeds()) =~= identified(id, systemd)) by {
        reveal_with_fuel(sift, 4);
    }
    systemd
}

/// After a `prepare` that succeeds, there is a temporary copy of the snapshot that is writable.
/// Its four subvolumes were made from those of the snapshot, and the content of its boot, etc
/// and var subvolumes was put into the directories of the same names in its root.
#[verifier::rlimit(40)]
pub proof fn law_prepare(s: Session, build: Build, snapshot: Seq<char>)
    ensures
        run(s, prepare_script(build, snapshot)).out is Ok ==> exists|systemd: bool|
            record(s, prepare_script(build, snapshot), deeds()) == #[trigger] prepared(
                snapshot,
                systemd,
            ),
{
    broadcast use {group_quiet, crate::record::group_ok};

    assert(spares(deeds()));
    let id = chr(snapshot);
    reveal(prepared);
    reveal(prepare_script);
    if run(s, prepare_script(build, snapshot)).out is Ok {
        assert(record(s, prepare_script(build, snapshot), deeds()).len() >= 0);
        let t = run(s, chr_delete_script(snapshot)).now;
        let t = run(t, done(snap(Volume::Rootfs, snapshot, id, false))).now;
        let t = run(t, ash_mounts_script(snapshot, "chr"@)).now;
        let t = run(t, mount_mutable_dirs_script(build, snapshot)).now;
        let t = run(t, all_done(copy_three(snapshot, id) + fill_three(id, id))).now;
        let systemd = lemma_identity(t, id);
        assert(record(s, prepare_script(build, snapshot), deeds()) =~= prepared(
            snapshot,
            systemd,
        ));
    }
}

/// The record is that of a snapshot of which a temporary copy was made.
pub open spec fn makes_ready(d: Seq<(Req, Answer)>, snapshot: Seq<char>) -> bool {
    exists|systemd: bool| d == #[trigger] prepared(snapshot, systemd)
}

/// The record is that of a snapshot whose place its temporary copy took.
pub open spec fn keeps(d: Seq<(Req, Answer)>, snapshot: Seq<char>) -> bool {
    exists|read_only: bool| d == #[trigger] kept(snapshot, read_only)
}

/// What `prepare` leaves on record.
pub broadcast proof fn ok_prepare(s: Session, build: Build, snapshot: Seq<char>)
    requires
        run(s, prepare_script(build, snapshot)).out is Ok,
    ensures
        makes_ready(#[trigger] record(s, prepare_script(build, snapshot), deeds()), snapshot),
{
    law_prepare(s, build, snapshot);
}

/// What `post_transactions` leaves on record.
pub broadcast proof fn ok_post_transactions(s: Session, build: Build, snapshot: Seq<char>)
    requires
        run(s, post_transactions_script(build, snapshot)).out is Ok,
    ensures
        keeps(#[trigger] record(s, post_transactions_script(build, snapshot), deeds()), snapshot),
{
    law_post_transactions(s, build, snapshot);
}

/// What was guarded was only looked at.
pub broadcast proof fn quiet_guard(verb: Seq<char>, snapshot: Seq<char>, keep: spec_fn(Req) -> bool)
    requires
        spares(keep),
    ensures
        #[trigger] asks_only(guard_script(verb, snapshot), others(keep)),
{
    broadcast use crate::script::group_asks;

    reveal(guard_script);
}

/// What the operations on a temporary copy leave on record.
pub broadcast group group_outcomes {
    group_quiet,
    quiet_guard,
    ok_prepare,
    ok_post_transactions,
}

}
