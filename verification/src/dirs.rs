//! Directories that are emptied, and those of a snapshot that stay writable.

use vstd::prelude::*;
use crate::config::{dir_list, listed_dirs, snapshot_config_get, snapshot_config_get_script};
use crate::host::{failure, ran, sure, Halt, Host};
use crate::mounts::{is_mounted, is_mounted_script};
use crate::paths::{are_entries, chr, chr_name, entries_of, rootfs, rootfs_path};
use crate::request::{Error, ErrorKind, Fault, MountMode, Req, Request};
use crate::script::{
    all_done, asks_only, chain, done, each, fail, flag, give, gives_only, lemma_asks_given, listing,
    run, Build, Script, Stop,
};
use crate::text::{cat, cat3, occurs_at, same, starts_with, trim_end_char, without_trailing};

verus! {

broadcast use crate::script::group_run;

// ---------------------------------------------------------- what is in them

/// What a directory holds, up to the first thing that cannot be read. A reply that names anything
/// else is of the wrong kind.
#[verifier::opaque]
pub open spec fn entries_script(dir: Seq<char>) -> Script<(Seq<Seq<char>>, Option<Fault>)> {
    chain(
        listing(Req::ListDir { path: dir }),
        |found: (Seq<Seq<char>>, Option<Fault>)|
            if entries_of(dir, found.0) {
                give(found)
            } else {
                Script::End(Err(Stop::Misfit))
            },
    )
}

/// What a directory holds, up to the first thing that cannot be read.
pub fn dir_entries(host: &mut Host, dir: &str) -> (r: Result<
    (Vec<String>, Option<Error>),
    Halt,
>)
    ensures
        ran(old(host)@, final(host)@, r, entries_script(dir@)),
{
    reveal(entries_script);
    let found = host.listing(Request::ListDir { path: dir.to_owned() })?;
    if are_entries(dir, &found.0) {
        Ok(found)
    } else {
        Err(Halt::Misfit)
    }
}

// ------------------------------------------------------ emptying a directory

/// Removes what stands at a path, whatever it is.
#[verifier::opaque]
pub open spec fn remove_any(path: Seq<char>) -> Script<()> {
    chain(
        flag(Req::IsFile { path }),
        |file: bool|
            if file {
                done(Req::RemoveFile { path })
            } else {
                chain(
                    flag(Req::IsSymlink { path }),
                    |link: bool|
                        if link {
                            done(Req::RemoveFile { path })
                        } else {
                            chain(
                                flag(Req::IsDir { path }),
                                |dir: bool|
                                    if dir {
                                        done(Req::RemoveTree { path })
                                    } else {
                                        give(())
                                    },
                            )
                        },
                )
            },
    )
}

/// `remove_any`, as a value.
pub open spec fn remove_any_fn() -> spec_fn(Seq<char>) -> Script<()> {
    |path: Seq<char>| remove_any(path)
}

/// How a listing ends: well, or broken off by an error.
pub open spec fn listing_end(broken: Option<Fault>) -> Script<()> {
    match broken {
        Some(e) => Script::End(Err(Stop::Failed(e))),
        None => give(()),
    }
}

/// What `remove_dir_content` does.
#[verifier::opaque]
pub open spec fn remove_dir_content_script(dir: Seq<char>) -> Script<()> {
    chain(
        entries_script(dir),
        |found: (Seq<Seq<char>>, Option<Fault>)|
            chain(each(found.0, remove_any_fn()), |u: ()| listing_end(found.1)),
    )
}

fn remove_one(host: &mut Host, path: &str) -> (r: Result<(), Halt>)
    ensures
        ran(old(host)@, final(host)@, r, remove_any(path@)),
{
    reveal(remove_any);
    if host.flag(Request::IsFile { path: path.to_owned() })? {
        host.done(Request::RemoveFile { path: path.to_owned() })
    } else if host.flag(Request::IsSymlink { path: path.to_owned() })? {
        host.done(Request::RemoveFile { path: path.to_owned() })
    } else if host.flag(Request::IsDir { path: path.to_owned() })? {
        host.done(Request::RemoveTree { path: path.to_owned() })
    } else {
        Ok(())
    }
}

fn remove_all(host: &mut Host, paths: &Vec<String>) -> (r: Result<(), Halt>)
    ensures
        ran(old(host)@, final(host)@, r, each(paths.deep_view(), remove_any_fn())),
{
    let ghost all = paths.deep_view();
    let mut i: usize = 0;
    assert(all.skip(0) =~= all);
    while i < paths.len()
        invariant
            i <= paths.len(),
            all == paths.deep_view(),
            run(old(host)@, each(all, remove_any_fn())) == run(
                host@,
                each(all.skip(i as int), remove_any_fn()),
            ),
        decreases paths.len() - i,
    {
        assert(all.skip(i as int).drop_first() =~= all.skip(i + 1));
        assert(all.skip(i as int)[0] == paths[i as int]@);
        remove_one(host, paths[i].as_str())?;
        i += 1;
    }
    Ok(())
}

/// Removes what a directory holds.
pub fn remove_dir_content(host: &mut Host, dir_path: &str) -> (r: Result<(), Halt>)
    ensures
        ran(old(host)@, final(host)@, r, remove_dir_content_script(dir_path@)),
{
    reveal(remove_dir_content_script);
    let (paths, broken) = dir_entries(host, dir_path)?;
    remove_all(host, &paths)?;
    match broken {
        Some(e) => Err(Halt::Failed(e)),
        None => Ok(()),
    }
}

// ------------------------------------------------------- mutable directories

/// Whether a directory belongs to the system and stays as it is.
pub open spec fn reserved(name: Seq<char>) -> bool {
    ||| name == "bin"@
    ||| name == "dev"@
    ||| name == "lib"@
    ||| name == "lib64"@
    ||| name == "proc"@
    ||| name == "sbin"@
    ||| name == "usr"@
    ||| name == "usr/bin"@
    ||| name == "usr/lib"@
    ||| name == "usr/lib64"@
    ||| name == "usr/sbin"@
}

/// Whether a directory may be mutable, if it is there: it is none of the system's, and is named
/// relative to the root.
pub open spec fn may_be_mutable(path: Seq<char>) -> bool {
    !reserved(without_trailing(path, '/')) && !occurs_at(path, "/"@, 0)
}

/// What `allow_dir_mut` does.
#[verifier::opaque]
pub open spec fn allow_dir_mut_script(path: Seq<char>) -> Script<bool> {
    chain(
        flag(Req::IsDir { path: "/"@ + path }),
        |dir: bool| give(dir && may_be_mutable(path)),
    )
}

fn is_reserved(name: &str) -> (r: bool)
    ensures
        r == reserved(name@),
{
    same(name, "bin") || same(name, "dev") || same(name, "lib") || same(name, "lib64") || same(
        name,
        "proc",
    ) || same(name, "sbin") || same(name, "usr") || same(name, "usr/bin") || same(name, "usr/lib")
        || same(name, "usr/lib64") || same(name, "usr/sbin")
}

/// Whether a directory may be mutable.
pub fn allow_dir_mut(host: &mut Host, mount_path: &str) -> (r: Result<bool, Halt>)
    ensures
        ran(old(host)@, final(host)@, r, allow_dir_mut_script(mount_path@)),
{
    reveal(allow_dir_mut_script);
    let dir = host.flag(Request::IsDir { path: cat("/", mount_path) })?;
    Ok(
        dir && !is_reserved(trim_end_char(mount_path, '/').as_str()) && !starts_with(
            mount_path,
            "/",
        ),
    )
}

/// Where the mutable directories of a snapshot are kept.
pub open spec fn private_dirs(snapshot: Seq<char>) -> Seq<char> {
    "/.snapshots/mutable_dirs/snapshot-"@ + snapshot
}

/// Where the mutable directories that all snapshots share are kept.
pub open spec fn shared_dirs() -> Seq<char> {
    "/.snapshots/mutable_dirs/"@
}

/// Makes a directory and mounts it below `root`.
pub open spec fn mount_dir_plan(prefix: Seq<char>, root: Seq<char>, dir: Seq<char>) -> Seq<Req> {
    seq![
        Req::MakeDirs { path: prefix + dir },
        Req::MakeDirs { path: root + "/"@ + dir },
        Req::Mount {
            source: prefix + dir,
            target: root + "/"@ + dir,
            fstype: "btrfs"@,
            mode: MountMode::Bind,
        },
    ]
}

/// Mounts a directory below `root` where that is allowed.
pub open spec fn mount_allowed(prefix: Seq<char>, root: Seq<char>, dir: Seq<char>) -> spec_fn(
    bool,
) -> Script<()> {
    |allowed: bool|
        if allowed {
            all_done(mount_dir_plan(prefix, root, dir))
        } else {
            give(())
        }
}

/// Mounts a directory below `root` where it may be mutable.
pub open spec fn mount_dir(prefix: Seq<char>, root: Seq<char>) -> spec_fn(Seq<char>) -> Script<()> {
    |dir: Seq<char>| chain(allow_dir_mut_script(dir), mount_allowed(prefix, root, dir))
}

/// Empties `store`, and mounts directories from it below `root`.
#[verifier::opaque]
pub open spec fn mount_dirs_script(
    store: Seq<char>,
    prefix: Seq<char>,
    root: Seq<char>,
    dirs: Seq<Seq<char>>,
) -> Script<()> {
    if dirs.len() == 0 {
        give(())
    } else {
        chain(
            flag(Req::Exists { path: store }),
            |there: bool|
                chain(
                    if there {
                        remove_dir_content_script(store)
                    } else {
                        give(())
                    },
                    |u: ()| each(dirs, mount_dir(prefix, root)),
                ),
        )
    }
}

/// Mounts the mutable directories of a snapshot in its temporary copy.
#[verifier::opaque]
pub open spec fn mount_mutable_dirs_script(build: Build, snapshot: Seq<char>) -> Script<()> {
    let root = rootfs(chr(snapshot));
    chain(
        snapshot_config_get_script(build, snapshot),
        |options: Map<Seq<char>, Seq<char>>|
            chain(
                mount_dirs_script(
                    private_dirs(snapshot),
                    private_dirs(snapshot) + "/"@,
                    root,
                    dir_list(options, "mutable_dirs"@),
                ),
                |u: ()|
                    mount_dirs_script(
                        shared_dirs(),
                        shared_dirs(),
                        root,
                        dir_list(options, "mutable_dirs_shared"@),
                    ),
            ),
    )
}

fn mount_one(host: &mut Host, prefix: &str, root: &str, dir: &str) -> (r: Result<(), Halt>)
    ensures
        ran(old(host)@, final(host)@, r, mount_dir(prefix@, root@)(dir@)),
{
    if allow_dir_mut(host, dir)? {
        let plan = vec![
            Request::MakeDirs { path: cat(prefix, dir) },
            Request::MakeDirs { path: cat3(root, "/", dir) },
            Request::Mount {
                source: cat(prefix, dir),
                target: cat3(root, "/", dir),
                fstype: "btrfs".to_owned(),
                mode: MountMode::Bind,
            },
        ];
        assert(plan.deep_view() =~= mount_dir_plan(prefix@, root@, dir@));
        host.all_done(plan)
    } else {
        Ok(())
    }
}

fn mount_each(host: &mut Host, prefix: &str, root: &str, dirs: &Vec<String>) -> (r: Result<
    (),
    Halt,
>)
    ensures
        ran(old(host)@, final(host)@, r, each(dirs.deep_view(), mount_dir(prefix@, root@))),
{
    let ghost all = dirs.deep_view();
    let ghost f = mount_dir(prefix@, root@);
    let mut i: usize = 0;
    assert(all.skip(0) =~= all);
    while i < dirs.len()
        invariant
            i <= dirs.len(),
            all == dirs.deep_view(),
            f == mount_dir(prefix@, root@),
            run(old(host)@, each(all, f)) == run(host@, each(all.skip(i as int), f)),
        decreases dirs.len() - i,
    {
        assert(all.skip(i as int).drop_first() =~= all.skip(i + 1));
        assert(all.skip(i as int)[0] == dirs[i as int]@);
        mount_one(host, prefix, root, dirs[i].as_str())?;
        i += 1;
    }
    Ok(())
}

fn mount_dirs(host: &mut Host, store: &str, prefix: &str, root: &str, dirs: &Vec<String>) -> (r:
    Result<(), Halt>)
    ensures
        ran(
            old(host)@,
            final(host)@,
            r,
            mount_dirs_script(store@, prefix@, root@, dirs.deep_view()),
        ),
{
    reveal(mount_dirs_script);
    if dirs.len() == 0 {
        return Ok(());
    }
    if host.flag(Request::Exists { path: store.to_owned() })? {
        remove_dir_content(host, store)?;
    }
    mount_each(host, prefix, root, dirs)
}

/// Mounts the mutable directories of a snapshot in its temporary copy.
pub fn mount_mutable_dirs(host: &mut Host, snapshot: &str) -> (r: Result<(), Halt>)
    ensures
        ran(
            old(host)@,
            final(host)@,
            r,
            mount_mutable_dirs_script(old(host)@.build, snapshot@),
        ),
{
    reveal(mount_mutable_dirs_script);
    let root = rootfs_path(chr_name(snapshot).as_str());
    let store = cat("/.snapshots/mutable_dirs/snapshot-", snapshot);
    let options = snapshot_config_get(host, snapshot)?;
    mount_dirs(
        host,
        store.as_str(),
        cat(store.as_str(), "/").as_str(),
        root.as_str(),
        &listed_dirs(&options, "mutable_dirs"),
    )?;
    mount_dirs(
        host,
        "/.snapshots/mutable_dirs/",
        "/.snapshots/mutable_dirs/",
        root.as_str(),
        &listed_dirs(&options, "mutable_dirs_shared"),
    )
}

// ---------------------------------------------------------------- unmounting

/// The complaint about an option that names a directory which may not be mutable.
pub open spec fn bad_option(option: Seq<char>, snapshot: Seq<char>) -> Seq<char> {
    "Please insert valid value for "@ + option + " in /.snapshots/etc/etc-"@ + snapshot
        + "/ash/ash.conf"@
}

/// Unmounts a directory below `root`; one that may not be mutable is an error.
pub open spec fn unmount_dir(root: Seq<char>, complaint: Seq<char>) -> spec_fn(Seq<char>) -> Script<
    (),
> {
    |dir: Seq<char>|
        chain(
            allow_dir_mut_script(dir),
            |allowed: bool|
                if !allowed {
                    fail(ErrorKind::InvalidInput, complaint)
                } else {
                    chain(
                        is_mounted_script(root + "/"@ + dir),
                        |mounted: bool|
                            if mounted {
                                crate::script::sure(
                                    done(Req::Unmount { target: root + "/"@ + dir, detach: true }),
                                )
                            } else {
                                give(())
                            },
                    )
                },
        )
}

/// Unmounts the mutable directories of the snapshot `id` from its temporary copy; complaints
/// name the snapshot `named`.
#[verifier::opaque]
pub open spec fn unmount_mutable_dirs_script(
    build: Build,
    id: Seq<char>,
    named: Seq<char>,
) -> Script<()> {
    let root = rootfs(chr(id));
    chain(
        snapshot_config_get_script(build, id),
        |options: Map<Seq<char>, Seq<char>>|
            chain(
                each(
                    dir_list(options, "mutable_dirs"@),
                    unmount_dir(root, bad_option("mutable_dirs"@, named)),
                ),
                |u: ()|
                    each(
                        dir_list(options, "mutable_dirs_shared"@),
                        unmount_dir(root, bad_option("mutable_dirs_shared"@, named)),
                    ),
            ),
    )
}

fn unmount_one(host: &mut Host, root: &str, complaint: &str, dir: &str) -> (r: Result<(), Halt>)
    ensures
        ran(old(host)@, final(host)@, r, unmount_dir(root@, complaint@)(dir@)),
{
    if !allow_dir_mut(host, dir)? {
        return Err(failure(ErrorKind::InvalidInput, complaint.to_owned()));
    }
    let target = cat3(root, "/", dir);
    if is_mounted(host, target.as_str())? {
        sure(host.done(Request::Unmount { target, detach: true }))
    } else {
        Ok(())
    }
}

fn unmount_each(host: &mut Host, root: &str, complaint: &str, dirs: &Vec<String>) -> (r: Result<
    (),
    Halt,
>)
    ensures
        ran(old(host)@, final(host)@, r, each(dirs.deep_view(), unmount_dir(root@, complaint@))),
{
    let ghost all = dirs.deep_view();
    let ghost f = unmount_dir(root@, complaint@);
    let mut i: usize = 0;
    assert(all.skip(0) =~= all);
    while i < dirs.len()
        invariant
            i <= dirs.len(),
            all == dirs.deep_view(),
            f == unmount_dir(root@, complaint@),
            run(old(host)@, each(all, f)) == run(host@, each(all.skip(i as int), f)),
        decreases dirs.len() - i,
    {
        assert(all.skip(i as int).drop_first() =~= all.skip(i + 1));
        assert(all.skip(i as int)[0] == dirs[i as int]@);
        unmount_one(host, root, complaint, dirs[i].as_str())?;
        i += 1;
    }
    Ok(())
}

fn option_complaint(option: &str, snapshot: &str) -> (r: String)
    ensures
        r@ == bad_option(option@, snapshot@),
{
    crate::text::cat5(
        "Please insert valid value for ",
        option,
        " in /.snapshots/etc/etc-",
        snapshot,
        "/ash/ash.conf",
    )
}

/// Unmounts the mutable directories of the snapshot `id` from its temporary copy.
pub fn unmount_mutable_dirs(host: &mut Host, id: &str, named: &str) -> (r: Result<(), Halt>)
    ensures
        ran(
            old(host)@,
            final(host)@,
            r,
            unmount_mutable_dirs_script(old(host)@.build, id@, named@),
        ),
{
    reveal(unmount_mutable_dirs_script);
    let root = rootfs_path(chr_name(id).as_str());
    let options = snapshot_config_get(host, id)?;
    unmount_each(
        host,
        root.as_str(),
        option_complaint("mutable_dirs", named).as_str(),
        &listed_dirs(&options, "mutable_dirs"),
    )?;
    unmount_each(
        host,
        root.as_str(),
        option_complaint("mutable_dirs_shared", named).as_str(),
        &listed_dirs(&options, "mutable_dirs_shared"),
    )
}

// --------------------------------------------------------------------- laws

/// A request mounts no directory below `root` but one that may be mutable.
pub open spec fn mounts_only_mutable(root: Seq<char>) -> spec_fn(Req) -> bool {
    |req: Req|
        match req {
            Req::Mount { source, target, fstype, mode } => exists|dir: Seq<char>| #[trigger]
                may_be_mutable(dir) && target == root + "/"@ + dir,
            _ => true,
        }
}

proof fn lemma_allow_dir_mut(dir: Seq<char>, ok: spec_fn(Req) -> bool)
    requires
        ok(Req::IsDir { path: "/"@ + dir }),
    ensures
        asks_only(allow_dir_mut_script(dir), ok),
        gives_only(allow_dir_mut_script(dir), |allowed: bool| allowed ==> may_be_mutable(dir)),
{
    broadcast use crate::script::group_asks;
    broadcast use crate::script::lemma_ends_follow;

    reveal(allow_dir_mut_script);
}

/// Whatever the options of a snapshot name, none of the system's directories is made mutable.
pub proof fn law_reserved_dirs(build: Build, snapshot: Seq<char>)
    ensures
        asks_only(
            mount_mutable_dirs_script(build, snapshot),
            mounts_only_mutable(rootfs(chr(snapshot))),
        ),
{
    broadcast use crate::script::group_asks;

    let root = rootfs(chr(snapshot));
    let ok = mounts_only_mutable(root);
    assert forall|prefix: Seq<char>, dir: Seq<char>|
        asks_only(#[trigger] mount_dir(prefix, root)(dir), ok) by {
        let good = |allowed: bool| allowed ==> may_be_mutable(dir);
        lemma_allow_dir_mut(dir, ok);
        lemma_asks_given(
            allow_dir_mut_script(dir),
            mount_allowed(prefix, root, dir),
            good,
            ok,
        );
    }
    reveal(mount_mutable_dirs_script);
    reveal(mount_dirs_script);
    reveal(remove_dir_content_script);
    reveal(entries_script);
    reveal(remove_any);
    reveal(snapshot_config_get_script);
}

}
