//! The temporary copy of a snapshot in which changes are made.

use vstd::prelude::*;
use crate::dirs::{
    mount_mutable_dirs, mount_mutable_dirs_script, remove_dir_content, remove_dir_content_script,
    unmount_mutable_dirs, unmount_mutable_dirs_script,
};
use crate::guard::exists_at;
use crate::host::{attempt, failure, ran, sure, Halt, Host};
use crate::mounts::{
    ash_mounts, ash_mounts_script, ash_umounts, ash_umounts_script, is_mounted, is_mounted_script,
};
use crate::paths::{
    below, chr, chr_name, copy_plan, copy_requests, drop_request, drop_volume, mutable_mark, rootfs,
    rootfs_path, snap, snap_request, volume, volume_path, Volume,
};
use crate::request::{ErrorKind, ExitStatus, Fault, Req, Request};
use crate::script::{all_done, chain, done, fail, flag, give, status, text, Build, Script};
use crate::text::{cat, cat3, cat4, contains, holds, same};

verus! {

broadcast use crate::script::group_run;

// ------------------------------------------------------------------ deleting

/// Deletes a subvolume where it is there.
#[verifier::opaque]
pub open spec fn drop_there(v: Volume, id: Seq<char>) -> Script<()> {
    chain(
        flag(Req::Exists { path: volume(v, id) }),
        |there: bool|
            if there {
                done(drop_volume(v, id))
            } else {
                give(())
            },
    )
}

/// Deletes a subvolume, after emptying it where it cannot be deleted at once.
#[verifier::opaque]
pub open spec fn drop_hard(path: Seq<char>) -> Script<()> {
    chain(
        crate::script::attempt(done(Req::DeleteSubvolume { path })),
        |tried: Result<(), Fault>|
            match tried {
                Ok(_) => give(()),
                Err(_) => chain(
                    remove_dir_content_script(path),
                    |u: ()| done(Req::DeleteSubvolume { path }),
                ),
            },
    )
}

/// Deletes the boot, etc and var subvolumes of `id` that are there.
#[verifier::opaque]
pub open spec fn drop_three(id: Seq<char>) -> Script<()> {
    chain(
        drop_there(Volume::Boot, id),
        |u: ()| chain(drop_there(Volume::Etc, id), |u: ()| drop_there(Volume::Var, id)),
    )
}

/// What `chr_delete` does.
#[verifier::opaque]
pub open spec fn chr_delete_script(snapshot: Seq<char>) -> Script<()> {
    chain(
        drop_three(chr(snapshot)),
        |u: ()|
            chain(
                flag(Req::Exists { path: rootfs(chr(snapshot)) }),
                |there: bool|
                    if there {
                        drop_hard(rootfs(chr(snapshot)))
                    } else {
                        give(())
                    },
            ),
    )
}

/// What `snapshot_unlock` does.
#[verifier::opaque]
pub open spec fn snapshot_unlock_script(snapshot: Seq<char>) -> Script<()> {
    let root = rootfs(chr(snapshot));
    chain(
        flag(Req::Exists { path: root }),
        |there: bool|
            if !there {
                give(())
            } else {
                chain(
                    is_mounted_script(root),
                    |mounted: bool|
                        chain(
                            if mounted {
                                done(Req::Unmount { target: root, detach: true })
                            } else {
                                give(())
                            },
                            |u: ()| chain(drop_three(chr(snapshot)), |u: ()| drop_hard(root)),
                        ),
                )
            },
    )
}

/// Deletes a subvolume where it is there.
pub fn delete_there(host: &mut Host, v: Volume, id: &str) -> (r: Result<(), Halt>)
    ensures
        ran(old(host)@, final(host)@, r, drop_there(v, id@)),
{
    reveal(drop_there);
    if exists_at(host, volume_path(v, id))? {
        host.done(drop_request(v, id))
    } else {
        Ok(())
    }
}

fn delete_hard(host: &mut Host, path: &str) -> (r: Result<(), Halt>)
    ensures
        ran(old(host)@, final(host)@, r, drop_hard(path@)),
{
    reveal(drop_hard);
    let tried = attempt(host.done(Request::DeleteSubvolume { path: path.to_owned() }))?;
    match tried {
        Ok(_) => Ok(()),
        Err(_) => {
            remove_dir_content(host, path)?;
            host.done(Request::DeleteSubvolume { path: path.to_owned() })
        },
    }
}

/// Deletes the boot, etc and var subvolumes of `id` that are there.
pub fn delete_three(host: &mut Host, id: &str) -> (r: Result<(), Halt>)
    ensures
        ran(old(host)@, final(host)@, r, drop_three(id@)),
{
    reveal(drop_three);
    delete_there(host, Volume::Boot, id)?;
    delete_there(host, Volume::Etc, id)?;
    delete_there(host, Volume::Var, id)
}

/// Deletes the temporary copy of a snapshot.
pub fn chr_delete(host: &mut Host, snapshot: &str) -> (r: Result<(), Halt>)
    ensures
        ran(old(host)@, final(host)@, r, chr_delete_script(snapshot@)),
{
    reveal(chr_delete_script);
    let id = chr_name(snapshot);
    delete_three(host, id.as_str())?;
    if exists_at(host, rootfs_path(id.as_str()))? {
        delete_hard(host, rootfs_path(id.as_str()).as_str())
    } else {
        Ok(())
    }
}

/// Removes the temporary copy of a snapshot, so that the snapshot can be used again.
pub fn snapshot_unlock(host: &mut Host, snapshot: &str) -> (r: Result<(), Halt>)
    ensures
        ran(old(host)@, final(host)@, r, snapshot_unlock_script(snapshot@)),
{
    reveal(snapshot_unlock_script);
    let id = chr_name(snapshot);
    let root = rootfs_path(id.as_str());
    if !exists_at(host, root.clone())? {
        return Ok(());
    }
    if is_mounted(host, root.as_str())? {
        host.done(Request::Unmount { target: root.clone(), detach: true })?;
    }
    delete_three(host, id.as_str())?;
    delete_hard(host, root.as_str())
}

// ----------------------------------------------------------------- preparing

/// Copies the contents of a subvolume.
pub open spec fn fill(from: Seq<char>, to: Seq<char>) -> Req {
    Req::CopyTree { from, to }
}

/// The boot, etc and var subvolumes of `from` as those of `to`.
pub open spec fn copy_three(from: Seq<char>, to: Seq<char>) -> Seq<Req> {
    seq![
        snap(Volume::Boot, from, to, false),
        snap(Volume::Etc, from, to, false),
        snap(Volume::Var, from, to, false),
    ]
}

/// Copies the boot, etc and var subvolumes of `from` into the root of `to`.
pub open spec fn fill_three(from: Seq<char>, to: Seq<char>) -> Seq<Req> {
    seq![
        fill(volume(Volume::Boot, from) + "/."@, rootfs(to) + "/boot"@),
        fill(volume(Volume::Etc, from) + "/."@, rootfs(to) + "/etc"@),
        fill(volume(Volume::Var, from) + "/."@, rootfs(to) + "/var"@),
    ]
}

/// Brings the machine's identity and the tree of snapshots into the root of `id`.
pub open spec fn identity_plan(id: Seq<char>, systemd: bool) -> Seq<Req> {
    let machine = if systemd {
        seq![Req::CopyFile { from: "/etc/machine-id"@, to: rootfs(id) + "/etc/machine-id"@ }]
    } else {
        seq![]
    };
    machine + seq![
        Req::MakeDirs { path: rootfs(id) + "/.snapshots/ash"@ },
        Req::CopyFile {
            from: "/.snapshots/ash/fstree"@,
            to: rootfs(id) + "/.snapshots/ash/fstree"@,
        },
    ]
}

/// Brings the machine's identity and the tree of snapshots into the root of `id`.
#[verifier::opaque]
pub open spec fn identity_script(id: Seq<char>) -> Script<()> {
    chain(
        flag(Req::Exists { path: "/etc/systemd"@ }),
        |systemd: bool| all_done(identity_plan(id, systemd)),
    )
}

/// What `prepare` does.
#[verifier::opaque]
pub open spec fn prepare_script(build: Build, snapshot: Seq<char>) -> Script<()> {
    let id = chr(snapshot);
    chain(
        chr_delete_script(snapshot),
        |u: ()|
            chain(
                done(snap(Volume::Rootfs, snapshot, id, false)),
                |u: ()|
                    chain(
                        ash_mounts_script(snapshot, "chr"@),
                        |u: ()|
                            chain(
                                mount_mutable_dirs_script(build, snapshot),
                                |u: ()|
                                    chain(
                                        all_done(copy_three(snapshot, id) + fill_three(id, id)),
                                        |u: ()|
                                            chain(
                                                identity_script(id),
                                                |u: ()|
                                                    if snapshot != "0"@ {
                                                        done(
                                                            Req::CopyCache {
                                                                snapshot,
                                                                into_chroot: true,
                                                            },
                                                        )
                                                    } else {
                                                        give(())
                                                    },
                                            ),
                                    ),
                            ),
                    ),
            ),
    )
}

/// The boot, etc and var subvolumes of `from` as those of `to`.
pub fn copy_three_requests(from: &str, to: &str) -> (r: Vec<Request>)
    ensures
        r.deep_view() == copy_three(from@, to@),
{
    let r = vec![
        snap_request(Volume::Boot, from, to, false),
        snap_request(Volume::Etc, from, to, false),
        snap_request(Volume::Var, from, to, false),
    ];
    assert(r.deep_view() =~= copy_three(from@, to@));
    r
}

fn fill_request(v: Volume, from: &str, to: &str, dir: &str) -> (r: Request)
    ensures
        r.deep_view() == fill(volume(v, from@) + "/."@, rootfs(to@) + dir@),
{
    Request::CopyTree { from: cat(volume_path(v, from).as_str(), "/."), to: below(to, dir) }
}

/// Adds to a plan the copies of the boot, etc and var subvolumes into a root.
pub fn push_fill_three(plan: &mut Vec<Request>, from: &str, to: &str)
    ensures
        final(plan).deep_view() == old(plan).deep_view() + fill_three(from@, to@),
{
    let ghost seen = plan.deep_view();
    plan.push(fill_request(Volume::Boot, from, to, "/boot"));
    plan.push(fill_request(Volume::Etc, from, to, "/etc"));
    plan.push(fill_request(Volume::Var, from, to, "/var"));
    assert(plan.deep_view() =~= seen + fill_three(from@, to@));
}

/// Brings the machine's identity and the tree of snapshots into the root of `id`.
pub fn copy_identity(host: &mut Host, id: &str) -> (r: Result<(), Halt>)
    ensures
        ran(old(host)@, final(host)@, r, identity_script(id@)),
{
    reveal(identity_script);
    let systemd = exists_at(host, "/etc/systemd".to_owned())?;
    let mut plan: Vec<Request> = Vec::new();
    if systemd {
        plan.push(
            Request::CopyFile {
                from: "/etc/machine-id".to_owned(),
                to: below(id, "/etc/machine-id"),
            },
        );
    }
    plan.push(Request::MakeDirs { path: below(id, "/.snapshots/ash") });
    plan.push(
        Request::CopyFile {
            from: "/.snapshots/ash/fstree".to_owned(),
            to: below(id, "/.snapshots/ash/fstree"),
        },
    );
    assert(plan.deep_view() =~= identity_plan(id@, systemd));
    host.all_done(plan)
}

/// Makes the temporary copy of a snapshot, ready for programs to run in.
pub fn prepare(host: &mut Host, snapshot: &str) -> (r: Result<(), Halt>)
    ensures
        ran(old(host)@, final(host)@, r, prepare_script(old(host)@.build, snapshot@)),
{
    reveal(prepare_script);
    let id = chr_name(snapshot);
    chr_delete(host, snapshot)?;
    host.done(snap_request(Volume::Rootfs, snapshot, id.as_str(), false))?;
    ash_mounts(host, snapshot, "chr")?;
    mount_mutable_dirs(host, snapshot)?;
    let mut plan = copy_three_requests(snapshot, id.as_str());
    push_fill_three(&mut plan, id.as_str(), id.as_str());
    host.all_done(plan)?;
    copy_identity(host, id.as_str())?;
    if !same(snapshot, "0") {
        host.done(Request::CopyCache { snapshot: snapshot.to_owned(), into_chroot: true })
    } else {
        Ok(())
    }
}

// ----------------------------------------------------------------- finishing

/// Refills a subvolume of the temporary copy from its root.
#[verifier::opaque]
pub open spec fn collect(v: Volume, snapshot: Seq<char>, rest: Seq<char>) -> Script<()> {
    chain(
        remove_dir_content_script(volume(v, chr(snapshot))),
        |u: ()| done(fill(rootfs(chr(snapshot)) + rest, volume(v, chr(snapshot)))),
    )
}

/// Brings what the root of the temporary copy holds into its other subvolumes.
#[verifier::opaque]
pub open spec fn collect_all(snapshot: Seq<char>) -> Script<()> {
    chain(
        collect(Volume::Boot, snapshot, "/boot/."@),
        |u: ()|
            chain(
                collect(Volume::Etc, snapshot, "/etc/."@),
                |u: ()|
                    chain(
                        done(Req::CopyCache { snapshot, into_chroot: false }),
                        |u: ()|
                            chain(
                                if snapshot == "0"@ {
                                    done(Req::CleanCache { snapshot })
                                } else {
                                    give(())
                                },
                                |u: ()| collect(Volume::Var, snapshot, "/var/."@),
                            ),
                    ),
            ),
    )
}

/// Makes a snapshot anew from the temporary copy `id`, writable where the copy is marked as
/// mutable.
#[verifier::opaque]
pub open spec fn keep_copy(id: Seq<char>, snapshot: Seq<char>) -> Script<()> {
    chain(
        flag(Req::Exists { path: mutable_mark(id) }),
        |mutable: bool| all_done(copy_plan(id, snapshot, !mutable)),
    )
}

/// What `post_transactions` does.
#[verifier::opaque]
pub open spec fn post_transactions_script(build: Build, snapshot: Seq<char>) -> Script<()> {
    chain(
        collect_all(snapshot),
        |u: ()|
            chain(
                drop_three(snapshot),
                |u: ()|
                    chain(
                        drop_there(Volume::Rootfs, snapshot),
                        |u: ()|
                            chain(
                                keep_copy(chr(snapshot), snapshot),
                                |u: ()|
                                    chain(
                                        ash_umounts_script(snapshot, "chr"@),
                                        |u: ()|
                                            chain(
                                                unmount_mutable_dirs_script(
                                                    build,
                                                    snapshot,
                                                    snapshot,
                                                ),
                                                |u: ()| chr_delete_script(snapshot),
                                            ),
                                    ),
                            ),
                    ),
            ),
    )
}

/// Puts the subvolumes of the temporary copy in place of those of the snapshot.
pub open spec fn posttrans_plan(snapshot: Seq<char>) -> Seq<Req> {
    let id = chr(snapshot);
    seq![
        drop_volume(Volume::Etc, snapshot),
        drop_volume(Volume::Var, snapshot),
        drop_volume(Volume::Boot, snapshot),
        snap(Volume::Etc, id, snapshot, true),
        snap(Volume::Var, id, snapshot, true),
        snap(Volume::Rootfs, id, snapshot, true),
        snap(Volume::Boot, id, snapshot, true),
    ]
}

/// The mount of the temporary copy inside itself.
pub open spec fn inner_mount(snapshot: Seq<char>) -> Seq<char> {
    rootfs(chr(snapshot)) + rootfs(chr(snapshot)) + "/"@
}

/// What `posttrans` does.
#[verifier::opaque]
pub open spec fn posttrans_script(snapshot: Seq<char>) -> Script<()> {
    chain(
        done(drop_volume(Volume::Rootfs, snapshot)),
        |u: ()|
            chain(
                collect(Volume::Etc, snapshot, "/etc/*"@),
                |u: ()|
                    chain(
                        collect(Volume::Var, snapshot, "/var/*"@),
                        |u: ()|
                            chain(
                                collect(Volume::Boot, snapshot, "/boot/*"@),
                                |u: ()|
                                    chain(
                                        all_done(posttrans_plan(snapshot)),
                                        |u: ()|
                                            chain(
                                                crate::script::sure(
                                                    done(
                                                        Req::Unmount {
                                                            target: inner_mount(snapshot),
                                                            detach: true,
                                                        },
                                                    ),
                                                ),
                                                |u: ()| chr_delete_script(snapshot),
                                            ),
                                    ),
                            ),
                    ),
            ),
    )
}

/// Refills a subvolume of the temporary copy from its root.
pub fn refill(host: &mut Host, v: Volume, snapshot: &str, rest: &str) -> (r: Result<(), Halt>)
    ensures
        ran(old(host)@, final(host)@, r, collect(v, snapshot@, rest@)),
{
    reveal(collect);
    let id = chr_name(snapshot);
    let to = volume_path(v, id.as_str());
    remove_dir_content(host, to.as_str())?;
    host.done(Request::CopyTree { from: below(id.as_str(), rest), to })
}

fn refill_all(host: &mut Host, snapshot: &str) -> (r: Result<(), Halt>)
    ensures
        ran(old(host)@, final(host)@, r, collect_all(snapshot@)),
{
    reveal(collect_all);
    refill(host, Volume::Boot, snapshot, "/boot/.")?;
    refill(host, Volume::Etc, snapshot, "/etc/.")?;
    host.done(Request::CopyCache { snapshot: snapshot.to_owned(), into_chroot: false })?;
    if same(snapshot, "0") {
        host.done(Request::CleanCache { snapshot: snapshot.to_owned() })?;
    }
    refill(host, Volume::Var, snapshot, "/var/.")
}

/// Makes a snapshot anew from the temporary copy `id`.
pub fn keep(host: &mut Host, id: &str, snapshot: &str) -> (r: Result<(), Halt>)
    ensures
        ran(old(host)@, final(host)@, r, keep_copy(id@, snapshot@)),
{
    reveal(keep_copy);
    let mutable = exists_at(host, below(id, "/usr/share/ash/mutable"))?;
    host.all_done(copy_requests(id, snapshot, !mutable))
}

/// Puts the temporary copy in place of the snapshot, and removes it.
pub fn post_transactions(host: &mut Host, snapshot: &str) -> (r: Result<(), Halt>)
    ensures
        ran(old(host)@, final(host)@, r, post_transactions_script(old(host)@.build, snapshot@)),
{
    reveal(post_transactions_script);
    refill_all(host, snapshot)?;
    delete_three(host, snapshot)?;
    delete_there(host, Volume::Rootfs, snapshot)?;
    keep(host, chr_name(snapshot).as_str(), snapshot)?;
    ash_umounts(host, snapshot, "chr")?;
    unmount_mutable_dirs(host, snapshot, snapshot)?;
    chr_delete(host, snapshot)
}

/// Puts a hollow temporary copy in place of the snapshot, and removes it.
pub fn posttrans(host: &mut Host, snapshot: &str) -> (r: Result<(), Halt>)
    ensures
        ran(old(host)@, final(host)@, r, posttrans_script(snapshot@)),
{
    reveal(posttrans_script);
    let id = chr_name(snapshot);
    host.done(drop_request(Volume::Rootfs, snapshot))?;
    refill(host, Volume::Etc, snapshot, "/etc/*")?;
    refill(host, Volume::Var, snapshot, "/var/*")?;
    refill(host, Volume::Boot, snapshot, "/boot/*")?;
    let plan = vec![
        drop_request(Volume::Etc, snapshot),
        drop_request(Volume::Var, snapshot),
        drop_request(Volume::Boot, snapshot),
        snap_request(Volume::Etc, id.as_str(), snapshot, true),
        snap_request(Volume::Var, id.as_str(), snapshot, true),
        snap_request(Volume::Rootfs, id.as_str(), snapshot, true),
        snap_request(Volume::Boot, id.as_str(), snapshot, true),
    ];
    assert(plan.deep_view() =~= posttrans_plan(snapshot@));
    host.all_done(plan)?;
    let root = rootfs_path(id.as_str());
    let target = cat3(root.as_str(), root.as_str(), "/");
    sure(host.done(Request::Unmount { target, detach: true }))?;
    chr_delete(host, snapshot)
}

// ---------------------------------------------------------- running programs

/// A command line that `sh` runs.
pub open spec fn shell(line: Seq<char>) -> Req {
    Req::Run { program: "sh"@, args: seq!["-c"@, line] }
}

/// Whether a program succeeded.
pub open spec fn success(code: ExitStatus) -> bool {
    code.code == Some(0i32)
}

/// What `chroot_check` does.
#[verifier::opaque]
pub open spec fn chroot_check_script() -> Script<bool> {
    chain(
        crate::script::sure(text(Req::ReadText { path: "/proc/mounts"@ })),
        |mounts: Seq<char>| give(!holds(mounts, "/.snapshots btrfs"@)),
    )
}

/// What `chroot_exec` does.
#[verifier::opaque]
pub open spec fn chroot_exec_script(path: Seq<char>, cmd: Seq<char>) -> Script<()> {
    chain(
        status(shell("chroot "@ + path + " "@ + cmd)),
        |code: ExitStatus|
            if success(code) {
                give(())
            } else {
                fail(ErrorKind::Other, "Failed to run "@ + cmd + "."@)
            },
    )
}

/// What `chroot_in` does.
#[verifier::opaque]
pub open spec fn chroot_in_script(path: Seq<char>) -> Script<ExitStatus> {
    status(Req::Run { program: "chroot"@, args: seq![path] })
}

/// A command line that `sh` runs.
pub fn shell_request(line: String) -> (r: Request)
    ensures
        r.deep_view() == shell(line@),
{
    let ghost said = line@;
    let args = vec!["-c".to_owned(), line];
    assert(args.deep_view() =~= seq!["-c"@, said]);
    Request::Run { program: "sh".to_owned(), args }
}

/// Whether a program succeeded.
pub fn succeeded(code: ExitStatus) -> (r: bool)
    ensures
        r == success(code),
{
    match code.code {
        Some(n) => n == 0,
        None => false,
    }
}

/// Whether this is inside a chroot: the snapshots are not mounted there.
pub fn chroot_check(host: &mut Host) -> (r: Result<bool, Halt>)
    ensures
        ran(old(host)@, final(host)@, r, chroot_check_script()),
{
    reveal(chroot_check_script);
    let mounts = sure(host.text(Request::ReadText { path: "/proc/mounts".to_owned() }))?;
    Ok(!contains(mounts.as_str(), "/.snapshots btrfs"))
}

/// Runs a command in a chroot.
pub fn chroot_exec(host: &mut Host, path: &str, cmd: &str) -> (r: Result<(), Halt>)
    ensures
        ran(old(host)@, final(host)@, r, chroot_exec_script(path@, cmd@)),
{
    reveal(chroot_exec_script);
    let code = host.status(shell_request(cat4("chroot ", path, " ", cmd)))?;
    if succeeded(code) {
        Ok(())
    } else {
        Err(failure(ErrorKind::Other, cat3("Failed to run ", cmd, ".")))
    }
}

/// Enters a chroot.
pub fn chroot_in(host: &mut Host, path: &str) -> (r: Result<ExitStatus, Halt>)
    ensures
        ran(old(host)@, final(host)@, r, chroot_in_script(path@)),
{
    reveal(chroot_in_script);
    let args = vec![path.to_owned()];
    assert(args.deep_view() =~= seq![path@]);
    host.status(Request::Run { program: "chroot".to_owned(), args })
}

}
