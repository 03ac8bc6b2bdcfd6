//! What mounting and releasing come to.

use vstd::prelude::*;
use crate::chroots::{
    chr_delete_script, collect, collect_all, copy_three, drop_hard, drop_there, drop_three,
    fill_three, identity_script, keep_copy, post_transactions_script, prepare_script,
};
use crate::config::{dir_list, snapshot_config_get_script};
use crate::dirs::{
    allow_dir_mut_script, entries_script, may_be_mutable, mount_allowed, mount_dir,
    mount_dirs_script, mount_mutable_dirs_script, private_dirs, remove_any,
    remove_dir_content_script, shared_dirs, unmount_mutable_dirs_script,
};
use crate::mounts::{
    ash_mounts_script, ash_umounts_script, first_mounts, is_efi_script, is_mounted_script,
    last_mounts, last_releases, release,
};
use crate::paths::{chr, rootfs, snap, volume, Volume};
use crate::placing::all_of_it;
use crate::record::{did, got, in_turn, others, record, record_each};
use crate::request::{Answer, MountMode, Req};
use crate::script::{
    all_done, asks_only, done, each, flag, gives_only, lemma_asks_given, run, Build, Session,
};

verus! {

/// Mounting and releasing.
pub open spec fn mountings() -> spec_fn(Req) -> bool {
    |req: Req| req is Mount || req is Unmount
}

/// A directory of the running system was mounted at the same place below `root`.
pub open spec fn shared_at(root: Seq<char>, dir: Seq<char>, fstype: Seq<char>, mode: MountMode) -> Req {
    Req::Mount { source: dir, target: root + dir, fstype, mode }
}

/// What a root needs of the running system was mounted below it: the root itself, and each
/// directory at the same place. `/etc` and `/var` are those of the running system only where
/// `full` holds.
#[verifier::opaque]
pub open spec fn mounted(root: Seq<char>, full: bool, efi: bool) -> Seq<Req> {
    seq![
        Req::Mount { source: root, target: root, fstype: "btrfs"@, mode: MountMode::Slave },
        shared_at(root, "/dev"@, "btrfs"@, MountMode::Slave),
    ] + (if full {
        seq![shared_at(root, "/etc"@, "btrfs"@, MountMode::Slave)]
    } else {
        seq![]
    }) + seq![
        shared_at(root, "/home"@, "btrfs"@, MountMode::Slave),
        shared_at(root, "/proc"@, "proc"@, MountMode::Hardened),
        shared_at(root, "/root"@, "btrfs"@, MountMode::Slave),
        shared_at(root, "/run"@, "tmpfs"@, MountMode::Slave),
        shared_at(root, "/sys"@, "sysfs"@, MountMode::Slave),
        shared_at(root, "/tmp"@, "tmpfs"@, MountMode::RecursiveSlave),
    ] + (if full {
        seq![shared_at(root, "/var"@, "btrfs"@, MountMode::Slave)]
    } else {
        seq![]
    }) + (if efi {
        seq![
            shared_at(
                root,
                "/sys/firmware/efi/efivars"@,
                "efivarfs"@,
                MountMode::RecursiveSlave,
            ),
        ]
    } else {
        seq![]
    }) + seq![shared_at(root, "/etc/resolv.conf"@, "btrfs"@, MountMode::Slave)]
}

/// What a root needs was mounted below the root of the deployment or temporary copy.
pub open spec fn mounted_at(i: Seq<char>, prefix: Seq<char>, efi: bool) -> Seq<Req> {
    mounted(rootfs(prefix + i), prefix != "chr"@, efi)
}

/// What was mounted below a root was released, in the reverse order: at once where it is the
/// file of name servers, the variables of the firmware or `/var`, and otherwise as soon as it is
/// no longer in use.
pub open spec fn unmounts(list: Seq<Req>, mounts: Seq<Req>) -> bool {
    &&& list.len() == mounts.len()
    &&& forall|i: int|
        0 <= i < list.len() ==> (#[trigger] list[i] matches Req::Unmount { target, detach }
            && mounts[mounts.len() - 1 - i] matches Req::Mount { source, target: at, .. } && target
            == at && detach == !(source == "/etc/resolv.conf"@ || source
            == "/sys/firmware/efi/efivars"@ || source == "/var"@))
}

/// What `ash_mounts` leaves on record, whatever else is kept.
pub proof fn lemma_ash_mounts(
    s: Session,
    i: Seq<char>,
    prefix: Seq<char>,
    keep: spec_fn(Req) -> bool,
) -> (efi: bool)
    requires
        run(s, ash_mounts_script(i, prefix)).out is Ok,
        forall|req: Req| #[trigger] mountings()(req) ==> keep(req),
        !keep(Req::Exists { path: "/sys/firmware/efi"@ }),
    ensures
        record(s, ash_mounts_script(i, prefix), keep) == did(mounted_at(i, prefix, efi)),
        got(
            s,
            run(s, ash_mounts_script(i, prefix)).now,
            Req::Exists { path: "/sys/firmware/efi"@ },
            Answer::Flag(efi),
        ),
{
    broadcast use {
        crate::record::group_ok,
        crate::record::got_chain,
        crate::record::got_flag,
    };

    let p = ash_mounts_script(i, prefix);
    let root = rootfs(prefix + i);
    let full = prefix != "chr"@;
    reveal(mounted);
    reveal(ash_mounts_script);
    let first = first_mounts(root, full);
    assert forall|n: int| 0 <= n < first.len() implies keep(#[trigger] first[n]) by {
        assert(mountings()(first[n]));
    }
    assert(record(s, p, keep).len() >= 0);
    let t = run(s, all_done(first)).now;
    let efi = t.next() == Answer::Flag(true);
    let ask = Req::Exists { path: "/sys/firmware/efi"@ };
    assert(record(t, is_efi_script(), keep).len() >= 0);
    assert(got(t, run(t, flag(ask)).now, ask, Answer::Flag(efi)));
    let last = last_mounts(root, efi);
    assert forall|n: int| 0 <= n < last.len() implies keep(#[trigger] last[n]) by {
        assert(mountings()(last[n]));
    }
    assert(record(s, p, keep) =~= did(mounted_at(i, prefix, efi)));
    assert(got(s, run(s, p).now, ask, Answer::Flag(efi)));
    efi
}

/// After an `ash_mounts` that succeeds, the parts of the running system are mounted below the
/// root of the deployment or temporary copy, each at the same place; those of the firmware where
/// the machine was started by EFI.
pub proof fn law_ash_mounts(s: Session, i: Seq<char>, prefix: Seq<char>)
    ensures
        run(s, ash_mounts_script(i, prefix)).out is Ok ==> exists|efi: bool|
            record(s, ash_mounts_script(i, prefix), mountings()) == did(
                #[trigger] mounted_at(i, prefix, efi),
            ) && got(
                s,
                run(s, ash_mounts_script(i, prefix)).now,
                Req::Exists { path: "/sys/firmware/efi"@ },
                Answer::Flag(efi),
            ),
{
    if run(s, ash_mounts_script(i, prefix)).out is Ok {
        let efi = lemma_ash_mounts(s, i, prefix, mountings());
        assert(did(mounted_at(i, prefix, efi)).len() >= 0);
    }
}

proof fn lemma_unmounts(i: Seq<char>, prefix: Seq<char>, efi: bool)
    ensures
        ({
            let root = rootfs(prefix + i);
            unmounts(
                seq![release(root, "/etc/resolv.conf"@, false)] + last_releases(
                    root,
                    prefix != "chr"@,
                    efi,
                ),
                mounted_at(i, prefix, efi),
            )
        }),
{
    reveal(mounted);
    reveal_strlit("/etc/resolv.conf");
    reveal_strlit("/sys/firmware/efi/efivars");
    reveal_strlit("/var");
    reveal_strlit("/tmp");
    reveal_strlit("/sys");
    reveal_strlit("/run");
    reveal_strlit("/root");
    reveal_strlit("/proc");
    reveal_strlit("/home");
    reveal_strlit("/etc");
    reveal_strlit("/dev");
    reveal_strlit("/.snapshots/rootfs/snapshot-");
    let root = rootfs(prefix + i);
    assert(root[1] == '.' && root.len() > 25);
    assert("/var"@[1] == 'v' && "/tmp"@[1] == 't' && "/sys"@[1] == 's' && "/run"@[1] == 'r'
        && "/root"@[1] == 'r' && "/proc"@[1] == 'p' && "/home"@[1] == 'h' && "/etc"@[1] == 'e'
        && "/dev"@[1] == 'd');
}

/// What `ash_umounts` leaves on record, whatever else is kept.
pub proof fn lemma_ash_umounts(
    s: Session,
    i: Seq<char>,
    prefix: Seq<char>,
    keep: spec_fn(Req) -> bool,
) -> (r: (bool, Seq<Req>))
    requires
        run(s, ash_umounts_script(i, prefix)).out is Ok,
        forall|req: Req| #[trigger] mountings()(req) ==> keep(req),
        !keep(Req::Exists { path: "/sys/firmware/efi"@ }),
    ensures
        unmounts(r.1, mounted_at(i, prefix, r.0)),
        record(s, ash_umounts_script(i, prefix), keep) == did(r.1),
        got(
            s,
            run(s, ash_umounts_script(i, prefix)).now,
            Req::Exists { path: "/sys/firmware/efi"@ },
            Answer::Flag(r.0),
        ),
{
    broadcast use {
        crate::record::group_ok,
        crate::record::got_chain,
        crate::record::got_flag,
    };

    let p = ash_umounts_script(i, prefix);
    let root = rootfs(prefix + i);
    let full = prefix != "chr"@;
    reveal(ash_umounts_script);
    assert(record(s, p, keep).len() >= 0);
    let first = release(root, "/etc/resolv.conf"@, false);
    assert(mountings()(first));
    let t = run(s, done(first)).now;
    let efi = t.next() == Answer::Flag(true);
    let ask = Req::Exists { path: "/sys/firmware/efi"@ };
    assert(record(t, is_efi_script(), keep).len() >= 0);
    assert(got(t, run(t, flag(ask)).now, ask, Answer::Flag(efi)));
    let last = last_releases(root, full, efi);
    assert forall|n: int| 0 <= n < last.len() implies keep(#[trigger] last[n]) by {
        assert(mountings()(last[n]));
    }
    let list = seq![first] + last;
    assert(record(s, p, keep) =~= did(list));
    assert(got(s, run(s, p).now, ask, Answer::Flag(efi)));
    lemma_unmounts(i, prefix, efi);
    (efi, list)
}

/// After an `ash_umounts` that succeeds, all that `ash_mounts` mounts was released, the last
/// mount first.
pub proof fn law_ash_umounts(s: Session, i: Seq<char>, prefix: Seq<char>)
    ensures
        run(s, ash_umounts_script(i, prefix)).out is Ok ==> exists|efi: bool, list: Seq<Req>|
            #[trigger] unmounts(list, mounted_at(i, prefix, efi))
                && record(s, ash_umounts_script(i, prefix), mountings()) == did(list) && got(
                s,
                run(s, ash_umounts_script(i, prefix)).now,
                Req::Exists { path: "/sys/firmware/efi"@ },
                Answer::Flag(efi),
            ),
{
    if run(s, ash_umounts_script(i, prefix)).out is Ok {
        let r = lemma_ash_umounts(s, i, prefix, mountings());
        assert(unmounts(r.1, mounted_at(i, prefix, r.0)));
    }
}

/// A directory that may be mutable, and is one of the running system, was bound below `root` to
/// the directory of the same name at `store`; any other was left alone.
pub open spec fn bound_if(
    d: Seq<(Req, Answer)>,
    store: Seq<char>,
    root: Seq<char>,
    dir: Seq<char>,
    is_dir: bool,
) -> bool {
    d == seq![(Req::IsDir { path: "/"@ + dir }, Answer::Flag(is_dir))] + if is_dir
        && may_be_mutable(dir) {
        did(
            seq![
                Req::MakeDirs { path: store + dir },
                Req::MakeDirs { path: root + "/"@ + dir },
                Req::Mount {
                    source: store + dir,
                    target: root + "/"@ + dir,
                    fstype: "btrfs"@,
                    mode: MountMode::Bind,
                },
            ],
        )
    } else {
        did(seq![])
    }
}

/// The same, as a demand on a record and a directory.
pub open spec fn binding(store: Seq<char>, root: Seq<char>) -> spec_fn(
    Seq<(Req, Answer)>,
    Seq<char>,
) -> bool {
    |d: Seq<(Req, Answer)>, dir: Seq<char>|
        exists|is_dir: bool| #[trigger] bound_if(d, store, root, dir, is_dir)
}

proof fn lemma_mount_dir(s: Session, store: Seq<char>, root: Seq<char>, dir: Seq<char>)
    requires
        run(s, mount_dir(store, root)(dir)).out is Ok,
    ensures
        binding(store, root)(record(s, mount_dir(store, root)(dir), all_of_it()), dir),
{
    broadcast use crate::record::group_ok;

    let p = mount_dir(store, root)(dir);
    assert(record(s, p, all_of_it()).len() >= 0);
    reveal(allow_dir_mut_script);
    assert(record(s, allow_dir_mut_script(dir), all_of_it()).len() >= 0);
    let is_dir = s.next() == Answer::Flag(true);
    assert(bound_if(record(s, p, all_of_it()), store, root, dir, is_dir));
}

/// The mutable directories were bound below `root`, after what was at `home` before was removed.
pub open spec fn bound_all(
    d: Seq<(Req, Answer)>,
    home: Seq<char>,
    store: Seq<char>,
    root: Seq<char>,
    dirs: Seq<Seq<char>>,
) -> bool {
    if dirs.len() == 0 {
        d.len() == 0
    } else {
        exists|there: bool, emptied: Seq<(Req, Answer)>, rest: Seq<(Req, Answer)>|
            #![trigger looked_for(home, there), emptied + rest]
            d == looked_for(home, there) + (emptied + rest) && (!there ==> emptied.len() == 0)
                && in_turn(rest, dirs, binding(store, root))
    }
}

/// It was asked whether something is there.
pub open spec fn looked_for(path: Seq<char>, there: bool) -> Seq<(Req, Answer)> {
    seq![(Req::Exists { path }, Answer::Flag(there))]
}

proof fn lemma_mount_dirs(
    s: Session,
    home: Seq<char>,
    store: Seq<char>,
    root: Seq<char>,
    dirs: Seq<Seq<char>>,
)
    requires
        run(s, mount_dirs_script(home, store, root, dirs)).out is Ok,
    ensures
        bound_all(
            record(s, mount_dirs_script(home, store, root, dirs), all_of_it()),
            home,
            store,
            root,
            dirs,
        ),
{
    broadcast use crate::record::group_ok;

    let p = mount_dirs_script(home, store, root, dirs);
    reveal(mount_dirs_script);
    let d = record(s, p, all_of_it());
    assert(d.len() >= 0);
    if dirs.len() > 0 {
        let there = s.next() == Answer::Flag(true);
        let t = run(s, flag(Req::Exists { path: home })).now;
        let emptied = if there {
            record(t, remove_dir_content_script(home), all_of_it())
        } else {
            seq![]
        };
        let t = if there {
            run(t, remove_dir_content_script(home)).now
        } else {
            t
        };
        let f = mount_dir(store, root);
        assert forall|u: Session, x: Seq<char>| run(u, f(x)).out is Ok implies binding(store, root)(
            #[trigger] record(u, f(x), all_of_it()),
            x,
        ) by {
            lemma_mount_dir(u, store, root, x);
        }
        record_each(t, dirs, f, all_of_it(), binding(store, root));
        let rest = record(t, each(dirs, f), all_of_it());
        assert(d =~= looked_for(home, there) + (emptied + rest));
    }
}

/// The mutable directories that the configuration of a snapshot names are bound below the root of
/// its temporary copy: its own to those that are kept for the snapshot, and the shared ones to
/// those that are kept for all.
pub proof fn law_mutable_dirs(s: Session, build: Build, snapshot: Seq<char>)
    ensures
        run(s, mount_mutable_dirs_script(build, snapshot)).out is Ok ==> exists|
            own: Seq<(Req, Answer)>,
            shared: Seq<(Req, Answer)>,
        | ({
            let config = snapshot_config_get_script(build, snapshot);
            let options = run(s, config).out->Ok_0;
            let root = rootfs(chr(snapshot));
            let home = "/.snapshots/mutable_dirs/snapshot-"@ + snapshot;
            &&& run(s, config).out is Ok
            &&& record(s, mount_mutable_dirs_script(build, snapshot), all_of_it()) == record(
                s,
                config,
                all_of_it(),
            ) + #[trigger] (own + shared)
            &&& bound_all(own, home, home + "/"@, root, dir_list(options, "mutable_dirs"@))
            &&& bound_all(
                shared,
                "/.snapshots/mutable_dirs/"@,
                "/.snapshots/mutable_dirs/"@,
                root,
                dir_list(options, "mutable_dirs_shared"@),
            )
        }),
{
    broadcast use crate::record::group_ok;

    let p = mount_mutable_dirs_script(build, snapshot);
    reveal(mount_mutable_dirs_script);
    if run(s, p).out is Ok {
        assert(record(s, p, all_of_it()).len() >= 0);
        let config = snapshot_config_get_script(build, snapshot);
        let options = run(s, config).out->Ok_0;
        let t = run(s, config).now;
        let root = rootfs(chr(snapshot));
        let home = private_dirs(snapshot);
        let first = mount_dirs_script(
            home,
            home + "/"@,
            root,
            dir_list(options, "mutable_dirs"@),
        );
        lemma_mount_dirs(t, home, home + "/"@, root, dir_list(options, "mutable_dirs"@));
        let own = record(t, first, all_of_it());
        let t = run(t, first).now;
        let dirs = dir_list(options, "mutable_dirs_shared"@);
        lemma_mount_dirs(t, shared_dirs(), shared_dirs(), root, dirs);
        let shared = record(
            t,
            mount_dirs_script(shared_dirs(), shared_dirs(), root, dirs),
            all_of_it(),
        );
        assert(record(s, p, all_of_it()) =~= record(s, config, all_of_it()) + (own + shared));
    }
}

/// Mounts that bind directories below `root` to those of the same names that are kept for a
/// snapshot or for all.
pub open spec fn binds_only(snapshot: Seq<char>, root: Seq<char>) -> spec_fn(Req) -> bool {
    |req: Req|
        match req {
            Req::Mount { source, target, fstype, mode } => exists|dir: Seq<char>|
                #[trigger] may_be_mutable(dir) && target == root + "/"@ + dir && (source
                    == "/.snapshots/mutable_dirs/snapshot-"@ + snapshot + "/"@ + dir || source
                    == "/.snapshots/mutable_dirs/"@ + dir) && fstype == "btrfs"@ && mode
                    == MountMode::Bind,
            Req::Unmount { .. } => false,
            _ => true,
        }
}

proof fn lemma_binds_only(build: Build, snapshot: Seq<char>)
    ensures
        asks_only(
            mount_mutable_dirs_script(build, snapshot),
            binds_only(snapshot, rootfs(chr(snapshot))),
        ),
{
    broadcast use crate::script::group_asks;

    let root = rootfs(chr(snapshot));
    let ok = binds_only(snapshot, root);
    reveal(mount_mutable_dirs_script);
    reveal(snapshot_config_get_script);
    assert forall|dirs: Seq<Seq<char>>, home: Seq<char>, store: Seq<char>|
        store == private_dirs(snapshot) + "/"@ || store == shared_dirs() implies asks_only(
        #[trigger] mount_dirs_script(home, store, root, dirs),
        ok,
    ) by {
        reveal(mount_dirs_script);
        reveal(remove_dir_content_script);
        reveal(entries_script);
        reveal(remove_any);
        assert forall|dir: Seq<char>| asks_only(#[trigger] mount_dir(store, root)(dir), ok) by {
            reveal(allow_dir_mut_script);
            lemma_mount_allowed(snapshot, store, root, dir);
        }
    }
}

proof fn lemma_mount_allowed(snapshot: Seq<char>, store: Seq<char>, root: Seq<char>, dir: Seq<char>)
    requires
        store == private_dirs(snapshot) + "/"@ || store == shared_dirs(),
    ensures
        asks_only(mount_dir(store, root)(dir), binds_only(snapshot, root)),
{
    broadcast use {crate::script::group_asks, crate::script::lemma_ends_follow};

    let ok = binds_only(snapshot, root);
    let p = allow_dir_mut_script(dir);
    let good = |b: bool| b ==> may_be_mutable(dir);
    assert(asks_only(p, ok) && gives_only(p, good)) by {
        reveal(allow_dir_mut_script);
    }
    lemma_asks_given(p, mount_allowed(store, root, dir), good, ok);
}

proof fn lemma_empty_still(dir: Seq<char>)
    ensures
        asks_only(remove_dir_content_script(dir), others(mountings())),
{
    broadcast use crate::script::group_asks;

    reveal(remove_dir_content_script);
    reveal(entries_script);
    reveal(remove_any);
}

proof fn lemma_drop_still(v: Volume, id: Seq<char>)
    ensures
        asks_only(drop_there(v, id), others(mountings())),
{
    broadcast use crate::script::group_asks;

    reveal(drop_there);
}

proof fn lemma_still(snapshot: Seq<char>)
    ensures
        asks_only(chr_delete_script(snapshot), others(mountings())),
        asks_only(drop_three(snapshot), others(mountings())),
        asks_only(drop_there(Volume::Rootfs, snapshot), others(mountings())),
{
    broadcast use crate::script::group_asks;

    lemma_empty_still(rootfs(chr(snapshot)));
    assert forall|v: Volume, id: Seq<char>| asks_only(
        #[trigger] drop_there(v, id),
        others(mountings()),
    ) by {
        lemma_drop_still(v, id);
    }
    reveal(chr_delete_script);
    reveal(drop_three);
    reveal(drop_hard);
}

proof fn lemma_prepare_still(snapshot: Seq<char>)
    ensures
        asks_only(identity_script(chr(snapshot)), others(mountings())),
        asks_only(
            all_done(copy_three(snapshot, chr(snapshot)) + fill_three(chr(snapshot), chr(snapshot))),
            others(mountings()),
        ),
{
    broadcast use crate::script::group_asks;

    reveal(identity_script);
}

proof fn lemma_collect_still(snapshot: Seq<char>)
    ensures
        asks_only(collect_all(snapshot), others(mountings())),
{
    broadcast use crate::script::group_asks;

    assert forall|v: Volume, rest: Seq<char>| asks_only(
        #[trigger] collect(v, snapshot, rest),
        others(mountings()),
    ) by {
        lemma_empty_still(volume(v, chr(snapshot)));
        reveal(collect);
    }
    reveal(collect_all);
}

proof fn lemma_keep_still(snapshot: Seq<char>)
    ensures
        asks_only(keep_copy(chr(snapshot), snapshot), others(mountings())),
{
    broadcast use crate::script::group_asks;

    reveal(keep_copy);
}

proof fn lemma_releases_only(build: Build, snapshot: Seq<char>)
    ensures
        asks_only(
            unmount_mutable_dirs_script(build, snapshot, snapshot),
            releases_only(rootfs(chr(snapshot))),
        ),
{
    broadcast use crate::script::group_asks;

    reveal(unmount_mutable_dirs_script);
    reveal(snapshot_config_get_script);
    reveal(allow_dir_mut_script);
    reveal(is_mounted_script);
}

/// After a `prepare` that succeeds, the parts of the running system are mounted below the root of
/// the temporary copy of the snapshot. What else was mounted are mutable directories, bound below
/// that root to those that are kept for the snapshot or for all. Nothing was released.
pub proof fn law_prepare_mounts(s: Session, build: Build, snapshot: Seq<char>)
    ensures
        run(s, prepare_script(build, snapshot)).out is Ok ==> exists|
            efi: bool,
            rest: Seq<(Req, Answer)>,
        |
            record(s, prepare_script(build, snapshot), mountings()) == did(
                #[trigger] mounted_at(snapshot, "chr"@, efi),
            ) + rest && #[trigger] all_in(rest, binds_only(snapshot, rootfs(chr(snapshot)))),
{
    broadcast use crate::record::group_ok;

    let p = prepare_script(build, snapshot);
    let id = chr(snapshot);
    reveal(prepare_script);
    if run(s, p).out is Ok {
        lemma_still(snapshot);
        lemma_prepare_still(snapshot);
        assert(record(s, p, mountings()).len() >= 0);
        let t = run(s, chr_delete_script(snapshot)).now;
        let t = run(t, done(snap(Volume::Rootfs, snapshot, id, false))).now;
        law_ash_mounts(t, snapshot, "chr"@);
        let efi = choose|efi: bool|
            record(t, ash_mounts_script(snapshot, "chr"@), mountings()) == did(
                #[trigger] mounted_at(snapshot, "chr"@, efi),
            );
        let t = run(t, ash_mounts_script(snapshot, "chr"@)).now;
        let rest = record(t, mount_mutable_dirs_script(build, snapshot), mountings());
        let ok = binds_only(snapshot, rootfs(id));
        lemma_binds_only(build, snapshot);
        crate::record::lemma_record_only(
            t,
            mount_mutable_dirs_script(build, snapshot),
            mountings(),
            ok,
        );
        assert(all_in(rest, ok));
        assert(record(s, p, mountings()) =~= did(mounted_at(snapshot, "chr"@, efi)) + rest);
    }
}

/// Every request on record is one of `ok`.
pub open spec fn all_in(d: Seq<(Req, Answer)>, ok: spec_fn(Req) -> bool) -> bool {
    forall|i: int| 0 <= i < d.len() ==> ok((#[trigger] d[i]).0)
}

/// Releasing directories below `root`.
pub open spec fn releases_only(root: Seq<char>) -> spec_fn(Req) -> bool {
    |req: Req|
        match req {
            Req::Mount { .. } => false,
            Req::Unmount { target, detach } => detach && exists|dir: Seq<char>|
                target == #[trigger] (root + "/"@ + dir),
            _ => true,
        }
}

/// After a `post_transactions` that succeeds, all that was mounted below the root of the temporary
/// copy was released, the last mount first. What else was released are directories below that
/// root. Nothing was mounted.
pub proof fn law_post_transactions_releases(s: Session, build: Build, snapshot: Seq<char>)
    ensures
        run(s, post_transactions_script(build, snapshot)).out is Ok ==> exists|
            efi: bool,
            list: Seq<Req>,
            rest: Seq<(Req, Answer)>,
        |
            #[trigger] unmounts(list, mounted_at(snapshot, "chr"@, efi)) && record(
                s,
                post_transactions_script(build, snapshot),
                mountings(),
            ) == did(list) + rest && #[trigger] all_in(
                rest,
                releases_only(rootfs(chr(snapshot))),
            ),
{
    broadcast use crate::record::group_ok;

    let p = post_transactions_script(build, snapshot);
    let id = chr(snapshot);
    reveal(post_transactions_script);
    if run(s, p).out is Ok {
        lemma_still(snapshot);
        lemma_collect_still(snapshot);
        lemma_keep_still(snapshot);
        assert(record(s, p, mountings()).len() >= 0);
        let t = run(s, collect_all(snapshot)).now;
        let t = run(t, drop_three(snapshot)).now;
        let t = run(t, drop_there(Volume::Rootfs, snapshot)).now;
        let t = run(t, keep_copy(id, snapshot)).now;
        law_ash_umounts(t, snapshot, "chr"@);
        let (efi, list) = choose|efi: bool, list: Seq<Req>|
            #[trigger] unmounts(list, mounted_at(snapshot, "chr"@, efi)) && record(
                t,
                ash_umounts_script(snapshot, "chr"@),
                mountings(),
            ) == did(list);
        let t = run(t, ash_umounts_script(snapshot, "chr"@)).now;
        let last = unmount_mutable_dirs_script(build, snapshot, snapshot);
        let rest = record(t, last, mountings());
        let ok = releases_only(rootfs(id));
        lemma_releases_only(build, snapshot);
        crate::record::lemma_record_only(t, last, mountings(), ok);
        assert(all_in(rest, ok));
        assert(record(s, p, mountings()) =~= did(list) + rest);
    }
}

}
