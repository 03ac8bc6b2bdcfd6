//! Installing, removing and upgrading packages.

use vstd::prelude::*;
use crate::chroots::{
    chr_delete, chr_delete_script, chroot_exec, chroot_exec_script, post_transactions,
    post_transactions_script, prepare, prepare_script,
};
use crate::deployment::{
    deploy_recovery, deploy_recovery_script, get_current_snapshot, get_current_snapshot_script,
    get_tmp, get_tmp_script,
};
use crate::guard::{
    base_fixed, exists_at, guard, guard_script, if_ready, in_use, in_use_text, missing,
    missing_text, ready,
};
use crate::host::{attempt, failure, ran, sure, Halt, Host};
use crate::mounts::{ash_mounts, ash_mounts_script, ash_umounts, ash_umounts_script};
use crate::paths::{chr, chr_name, rootfs, rootfs_path};
use crate::profile::{has_section, keys_of, Profile, Table};
use crate::request::{ErrorKind, Fault, Req, Request};
use crate::script::{
    chain, done, each, fail, flag, give, profile, run, say, text, texts, tree, warn, Build, Script,
};
use crate::system::{sync_time, sync_time_script};
use crate::text::{
    cat3, cat4, cat5, copied, debug_list, debug_text, listed, replace, replaced, same,
};

verus! {

broadcast use crate::script::group_run;

// ------------------------------------------------------------------- queries

/// What `ash_version` does.
#[verifier::opaque]
pub open spec fn ash_version_script() -> Script<Seq<char>> {
    text(Req::PkgQuery { pkg: "ash"@ })
}

/// What `list` does.
#[verifier::opaque]
pub open spec fn list_script(snapshot: Seq<char>, chr: Seq<char>, exclude: bool) -> Script<
    Seq<Seq<char>>,
> {
    if exclude {
        texts(Req::NoDepPkgList { snapshot, chr })
    } else {
        texts(Req::PkgList { snapshot, chr })
    }
}

/// What `is_pkg_installed` does.
#[verifier::opaque]
pub open spec fn is_pkg_installed_script(snapshot: Seq<char>, pkg: Seq<char>) -> Script<bool> {
    chain(
        texts(Req::PkgList { snapshot, chr: ""@ }),
        |pkgs: Seq<Seq<char>>| give(pkgs.contains(pkg)),
    )
}

/// Those of `todo` that have a package, behind those that were found before.
pub open spec fn holders(todo: Seq<Seq<char>>, pkg: Seq<char>, found: Seq<Seq<char>>) -> Script<
    Seq<Seq<char>>,
>
    decreases todo.len(),
{
    if todo.len() == 0 {
        give(found)
    } else {
        chain(
            is_pkg_installed_script(todo[0], pkg),
            |has: bool|
                holders(
                    todo.drop_first(),
                    pkg,
                    if has {
                        found.push(todo[0])
                    } else {
                        found
                    },
                ),
        )
    }
}

/// Shows which snapshots have a package, where any has it.
pub open spec fn report(snapshots: Seq<Seq<char>>) -> spec_fn(Seq<char>) -> Script<()> {
    |pkg: Seq<char>|
        chain(
            holders(snapshots, pkg, seq![]),
            |found: Seq<Seq<char>>|
                if found.len() > 0 {
                    say("Package(s) "@ + pkg + " installed in "@ + debug_text(found) + "."@)
                } else {
                    give(())
                },
        )
}

/// What `which_snapshot_has` does.
#[verifier::opaque]
pub open spec fn which_snapshot_has_script(pkgs: Seq<Seq<char>>) -> Script<()> {
    chain(
        crate::script::sure(tree(Req::LoadTree)),
        |t: u64|
            chain(
                texts(Req::ChildrenOf { tree: t, name: "root"@ }),
                |snapshots: Seq<Seq<char>>| each(pkgs, report(snapshots)),
            ),
    )
}

/// What `diff` does.
#[verifier::opaque]
pub open spec fn diff_script(first: Seq<char>, second: Seq<char>) -> Script<()> {
    chain(
        crate::script::attempt(done(Req::SnapshotDiff { first, second })),
        |tried: Result<(), Fault>|
            match tried {
                Ok(_) => give(()),
                Err(e) => warn(e.text),
            },
    )
}

/// What `fixdb` does.
#[verifier::opaque]
pub open spec fn fixdb_script(build: Build, snapshot: Seq<char>) -> Script<()> {
    if build.pacman {
        done(Req::FixPackageDb { snapshot })
    } else {
        give(())
    }
}

/// What `noninteractive_update` does.
#[verifier::opaque]
pub open spec fn noninteractive_update_script(snapshot: Seq<char>) -> Script<()> {
    done(Req::AutoUpgrade { snapshot })
}

/// The installed version of this program.
pub fn ash_version(host: &mut Host) -> (r: Result<String, Halt>)
    ensures
        ran(old(host)@, final(host)@, r, ash_version_script()),
{
    reveal(ash_version_script);
    host.text(Request::PkgQuery { pkg: "ash".to_owned() })
}

/// The packages of a snapshot, or those that no other one needs.
pub fn list(host: &mut Host, snapshot: &str, chr: &str, exclude: bool) -> (r: Result<
    Vec<String>,
    Halt,
>)
    ensures
        ran(old(host)@, final(host)@, r, list_script(snapshot@, chr@, exclude)),
{
    reveal(list_script);
    if exclude {
        host.texts(Request::NoDepPkgList { snapshot: snapshot.to_owned(), chr: chr.to_owned() })
    } else {
        host.texts(Request::PkgList { snapshot: snapshot.to_owned(), chr: chr.to_owned() })
    }
}

/// Whether a snapshot has a package.
pub fn is_pkg_installed(host: &mut Host, snapshot: &str, pkg: &str) -> (r: Result<bool, Halt>)
    ensures
        ran(old(host)@, final(host)@, r, is_pkg_installed_script(snapshot@, pkg@)),
{
    reveal(is_pkg_installed_script);
    let pkgs = host.texts(
        Request::PkgList { snapshot: snapshot.to_owned(), chr: "".to_owned() },
    )?;
    Ok(listed(&pkgs, pkg))
}

fn find_holders(host: &mut Host, snapshots: &Vec<String>, pkg: &str) -> (r: Result<
    Vec<String>,
    Halt,
>)
    ensures
        ran(old(host)@, final(host)@, r, holders(snapshots.deep_view(), pkg@, seq![])),
{
    let ghost all = snapshots.deep_view();
    let mut found: Vec<String> = Vec::new();
    let mut i: usize = 0;
    assert(all.skip(0) =~= all);
    assert(found.deep_view() =~= seq![]);
    while i < snapshots.len()
        invariant
            i <= snapshots.len(),
            all == snapshots.deep_view(),
            run(old(host)@, holders(all, pkg@, seq![])) == run(
                host@,
                holders(all.skip(i as int), pkg@, found.deep_view()),
            ),
        decreases snapshots.len() - i,
    {
        assert(all.skip(i as int).drop_first() =~= all.skip(i + 1));
        assert(all.skip(i as int)[0] == snapshots[i as int]@);
        let ghost before = found.deep_view();
        if is_pkg_installed(host, snapshots[i].as_str(), pkg)? {
            found.push(snapshots[i].clone());
            assert(found.deep_view() =~= before.push(snapshots[i as int]@));
        }
        i += 1;
    }
    Ok(found)
}

/// Shows for each package which snapshots have it.
pub fn which_snapshot_has(host: &mut Host, pkgs: Vec<String>) -> (r: Result<(), Halt>)
    ensures
        ran(old(host)@, final(host)@, r, which_snapshot_has_script(pkgs.deep_view())),
{
    reveal(which_snapshot_has_script);
    let t = sure(host.tree(Request::LoadTree))?;
    let snapshots = host.texts(Request::ChildrenOf { tree: t, name: "root".to_owned() })?;
    let ghost all = pkgs.deep_view();
    let ghost f = report(snapshots.deep_view());
    let mut i: usize = 0;
    assert(all.skip(0) =~= all);
    while i < pkgs.len()
        invariant
            i <= pkgs.len(),
            all == pkgs.deep_view(),
            f == report(snapshots.deep_view()),
            run(old(host)@, which_snapshot_has_script(all)) == run(
                host@,
                each(all.skip(i as int), f),
            ),
        decreases pkgs.len() - i,
    {
        assert(all.skip(i as int).drop_first() =~= all.skip(i + 1));
        assert(all.skip(i as int)[0] == pkgs[i as int]@);
        let found = find_holders(host, &snapshots, pkgs[i].as_str())?;
        if found.len() > 0 {
            let names = debug_list(&found);
            host.say(
                cat5("Package(s) ", pkgs[i].as_str(), " installed in ", names.as_str(), "."),
            )?;
        }
        i += 1;
    }
    Ok(())
}

/// Shows how the packages of two snapshots differ.
pub fn diff(host: &mut Host, snapshot1: &str, snapshot2: &str) -> (r: Result<(), Halt>)
    ensures
        ran(old(host)@, final(host)@, r, diff_script(snapshot1@, snapshot2@)),
{
    reveal(diff_script);
    let req = Request::SnapshotDiff { first: snapshot1.to_owned(), second: snapshot2.to_owned() };
    match attempt(host.done(req))? {
        Ok(_) => Ok(()),
        Err(e) => host.warn(e.text),
    }
}

/// Repairs the package database of a snapshot, where the package manager needs that.
pub fn fixdb(host: &mut Host, snapshot: &str) -> (r: Result<(), Halt>)
    ensures
        ran(old(host)@, final(host)@, r, fixdb_script(old(host)@.build, snapshot@)),
{
    reveal(fixdb_script);
    if host.build().pacman {
        host.done(Request::FixPackageDb { snapshot: snapshot.to_owned() })
    } else {
        Ok(())
    }
}

/// Upgrades a snapshot without asking.
pub fn noninteractive_update(host: &mut Host, snapshot: &str) -> (r: Result<(), Halt>)
    ensures
        ran(old(host)@, final(host)@, r, noninteractive_update_script(snapshot@)),
{
    reveal(noninteractive_update_script);
    host.done(Request::AutoUpgrade { snapshot: snapshot.to_owned() })
}

// ----------------------------------------------------------- single packages

/// What follows on an attempt to install: the changes are kept, or discarded.
#[verifier::opaque]
pub open spec fn install_end_script(
    build: Build,
    snapshot: Seq<char>,
    tried: Result<(), Fault>,
) -> Script<()> {
    match tried {
        Ok(_) => post_transactions_script(build, snapshot),
        Err(_) => chain(
            chr_delete_script(snapshot),
            |u: ()| fail(ErrorKind::Interrupted, "Install failed and changes discarded."@),
        ),
    }
}

/// What `install` does.
#[verifier::opaque]
pub open spec fn install_script(
    build: Build,
    snapshot: Seq<char>,
    pkgs: Seq<Seq<char>>,
    noconfirm: bool,
) -> Script<()> {
    chain(
        guard_script("install"@, snapshot),
        |u: ()|
            chain(
                crate::script::attempt(done(Req::InstallPackages { snapshot, pkgs, noconfirm })),
                |tried: Result<(), Fault>| install_end_script(build, snapshot, tried),
            ),
    )
}

/// What `install_live` does.
#[verifier::opaque]
pub open spec fn install_live_script(pkgs: Seq<Seq<char>>, noconfirm: bool) -> Script<()> {
    chain(
        get_current_snapshot_script(),
        |snapshot: Seq<char>|
            chain(
                get_tmp_script(),
                |tmp: Seq<char>|
                    chain(
                        crate::script::sure(ash_mounts_script(tmp, ""@)),
                        |u: ()|
                            chain(
                                done(Req::InstallLive { snapshot, tmp, pkgs, noconfirm }),
                                |u: ()| crate::script::sure(ash_umounts_script(tmp, ""@)),
                            ),
                    ),
            ),
    )
}

/// The note that packages were removed.
pub open spec fn removed_note(pkgs: Seq<Seq<char>>, snapshot: Seq<char>) -> Seq<char> {
    "Package(s) "@ + debug_text(pkgs) + " removed from snapshot "@ + snapshot + " successfully."@
}

/// The note that packages were installed.
pub open spec fn installed_note(pkgs: Seq<Seq<char>>, snapshot: Seq<char>) -> Seq<char> {
    "Package(s) "@ + debug_text(pkgs) + " installed in snapshot "@ + snapshot + " successfully."@
}

/// What follows on an attempt to remove: the changes are kept, or discarded.
#[verifier::opaque]
pub open spec fn uninstall_end_script(
    build: Build,
    snapshot: Seq<char>,
    pkgs: Seq<Seq<char>>,
    tried: Result<(), Fault>,
) -> Script<()> {
    match tried {
        Ok(_) => chain(
            post_transactions_script(build, snapshot),
            |u: ()| say(removed_note(pkgs, snapshot)),
        ),
        Err(_) => chain(
            crate::script::sure(chr_delete_script(snapshot)),
            |u: ()| warn("Remove failed and changes discarded."@),
        ),
    }
}

/// What `uninstall` does.
#[verifier::opaque]
pub open spec fn uninstall_script(
    build: Build,
    snapshot: Seq<char>,
    pkgs: Seq<Seq<char>>,
    noconfirm: bool,
) -> Script<()> {
    chain(
        guard_script("remove"@, snapshot),
        |u: ()|
            chain(
                prepare_script(build, snapshot),
                |u: ()|
                    chain(
                        crate::script::attempt(
                            done(Req::UninstallPackages { snapshot, pkgs, noconfirm }),
                        ),
                        |tried: Result<(), Fault>|
                            uninstall_end_script(build, snapshot, pkgs, tried),
                    ),
            ),
    )
}

/// What `uninstall_live` does.
#[verifier::opaque]
pub open spec fn uninstall_live_script(pkgs: Seq<Seq<char>>, noconfirm: bool) -> Script<()> {
    chain(
        get_tmp_script(),
        |tmp: Seq<char>|
            chain(
                crate::script::sure(ash_mounts_script(tmp, ""@)),
                |u: ()|
                    chain(
                        done(Req::UninstallLive { tmp, pkgs, noconfirm }),
                        |u: ()| crate::script::sure(ash_umounts_script(tmp, ""@)),
                    ),
            ),
    )
}

/// Installs packages in a snapshot.
pub fn install(host: &mut Host, snapshot: &str, pkgs: &Vec<String>, noconfirm: bool) -> (r: Result<
    (),
    Halt,
>)
    ensures
        ran(
            old(host)@,
            final(host)@,
            r,
            install_script(old(host)@.build, snapshot@, pkgs.deep_view(), noconfirm),
        ),
{
    reveal(install_script);
    guard(host, "install", snapshot)?;
    let req = Request::InstallPackages {
        snapshot: snapshot.to_owned(),
        pkgs: copied(pkgs),
        noconfirm,
    };
    reveal(install_end_script);
    match attempt(host.done(req))? {
        Ok(_) => post_transactions(host, snapshot),
        Err(_) => {
            chr_delete(host, snapshot)?;
            Err(
                failure(
                    ErrorKind::Interrupted,
                    "Install failed and changes discarded.".to_owned(),
                ),
            )
        },
    }
}

/// Installs packages in the running deployment.
pub fn install_live(host: &mut Host, pkgs: &Vec<String>, noconfirm: bool) -> (r: Result<(), Halt>)
    ensures
        ran(old(host)@, final(host)@, r, install_live_script(pkgs.deep_view(), noconfirm)),
{
    reveal(install_live_script);
    let snapshot = get_current_snapshot(host)?;
    let tmp = get_tmp(host)?;
    sure(ash_mounts(host, tmp.as_str(), ""))?;
    host.done(
        Request::InstallLive { snapshot, tmp: tmp.clone(), pkgs: copied(pkgs), noconfirm },
    )?;
    sure(ash_umounts(host, tmp.as_str(), ""))
}

/// The note that packages were removed.
pub fn removed_text(pkgs: &Vec<String>, snapshot: &str) -> (r: String)
    ensures
        r@ == removed_note(pkgs.deep_view(), snapshot@),
{
    cat5(
        "Package(s) ",
        debug_list(pkgs).as_str(),
        " removed from snapshot ",
        snapshot,
        " successfully.",
    )
}

/// The note that packages were installed.
pub fn installed_text(pkgs: &Vec<String>, snapshot: &str) -> (r: String)
    ensures
        r@ == installed_note(pkgs.deep_view(), snapshot@),
{
    cat5(
        "Package(s) ",
        debug_list(pkgs).as_str(),
        " installed in snapshot ",
        snapshot,
        " successfully.",
    )
}

/// Removes packages from a snapshot.
pub fn uninstall(host: &mut Host, snapshot: &str, pkgs: &Vec<String>, noconfirm: bool) -> (r: Result<
    (),
    Halt,
>)
    ensures
        ran(
            old(host)@,
            final(host)@,
            r,
            uninstall_script(old(host)@.build, snapshot@, pkgs.deep_view(), noconfirm),
        ),
{
    reveal(uninstall_script);
    guard(host, "remove", snapshot)?;
    prepare(host, snapshot)?;
    let req = Request::UninstallPackages {
        snapshot: snapshot.to_owned(),
        pkgs: copied(pkgs),
        noconfirm,
    };
    reveal(uninstall_end_script);
    match attempt(host.done(req))? {
        Ok(_) => {
            post_transactions(host, snapshot)?;
            host.say(removed_text(pkgs, snapshot))
        },
        Err(_) => {
            sure(chr_delete(host, snapshot))?;
            host.warn("Remove failed and changes discarded.".to_owned())
        },
    }
}

/// Removes packages from the running deployment.
pub fn uninstall_live(host: &mut Host, pkgs: &Vec<String>, noconfirm: bool) -> (r: Result<(), Halt>)
    ensures
        ran(old(host)@, final(host)@, r, uninstall_live_script(pkgs.deep_view(), noconfirm)),
{
    reveal(uninstall_live_script);
    let tmp = get_tmp(host)?;
    sure(ash_mounts(host, tmp.as_str(), ""))?;
    host.done(Request::UninstallLive { tmp: tmp.clone(), pkgs: copied(pkgs), noconfirm })?;
    sure(ash_umounts(host, tmp.as_str(), ""))
}

// ------------------------------------------------------ whole snapshots

/// Checks that a snapshot may be upgraded; the base snapshot only where `baseup`.
#[verifier::opaque]
pub open spec fn upgrade_guard_script(snapshot: Seq<char>, baseup: bool) -> Script<()> {
    chain(
        flag(Req::Exists { path: rootfs(snapshot) }),
        |there: bool|
            if !there {
                fail(ErrorKind::NotFound, missing("upgrade"@, snapshot))
            } else {
                chain(
                    flag(Req::Exists { path: rootfs(chr(snapshot)) }),
                    |busy: bool|
                        if busy {
                            fail(ErrorKind::Unsupported, in_use(snapshot))
                        } else if snapshot == "0"@ && !baseup {
                            fail(ErrorKind::Unsupported, base_fixed())
                        } else {
                            give(())
                        },
                )
            },
    )
}

/// After an upgrade of the base snapshot, its recovery deployment is made anew.
#[verifier::opaque]
pub open spec fn renew_recovery_script(build: Build, baseup: bool) -> Script<()> {
    if baseup {
        chain(
            crate::script::attempt(deploy_recovery_script(build)),
            |tried: Result<(), Fault>|
                match tried {
                    Ok(_) => give(()),
                    Err(_) => fail(ErrorKind::Other, "Failed to deploy recovery snapshot."@),
                },
        )
    } else {
        give(())
    }
}

/// What follows on a successful upgrade.
#[verifier::opaque]
pub open spec fn upgraded_script(build: Build, snapshot: Seq<char>, baseup: bool) -> Script<()> {
    chain(
        crate::script::attempt(post_transactions_script(build, snapshot)),
        |kept: Result<(), Fault>|
            match kept {
                Ok(_) => chain(
                    renew_recovery_script(build, baseup),
                    |u: ()| say("Snapshot "@ + snapshot + " upgraded successfully."@),
                ),
                Err(_) => give(()),
            },
    )
}

/// What follows on an attempt to upgrade: the changes are kept, or discarded.
#[verifier::opaque]
pub open spec fn upgrade_end_script(
    build: Build,
    snapshot: Seq<char>,
    baseup: bool,
    tried: Result<(), Fault>,
) -> Script<()> {
    match tried {
        Ok(_) => upgraded_script(build, snapshot, baseup),
        Err(_) => chain(
            chr_delete_script(snapshot),
            |u: ()| fail(ErrorKind::Other, "Upgrade failed and changes discarded."@),
        ),
    }
}

/// What `upgrade` does.
#[verifier::opaque]
pub open spec fn upgrade_script(
    build: Build,
    snapshot: Seq<char>,
    baseup: bool,
    noconfirm: bool,
) -> Script<()> {
    chain(
        upgrade_guard_script(snapshot, baseup),
        |u: ()|
            chain(
                crate::script::attempt(done(Req::UpgradePackages { snapshot, noconfirm })),
                |tried: Result<(), Fault>| upgrade_end_script(build, snapshot, baseup, tried),
            ),
    )
}

/// What follows on an attempt to refresh: the changes are kept, or discarded.
#[verifier::opaque]
pub open spec fn refresh_end_script(
    build: Build,
    snapshot: Seq<char>,
    tried: Result<(), Fault>,
) -> Script<()> {
    match tried {
        Ok(_) => chain(
            post_transactions_script(build, snapshot),
            |u: ()| say("Snapshot "@ + snapshot + " refreshed successfully."@),
        ),
        Err(_) => chain(
            chr_delete_script(snapshot),
            |u: ()| warn("Refresh failed and changes discarded."@),
        ),
    }
}

/// Refreshes a snapshot that may be changed.
#[verifier::opaque]
pub open spec fn refresh_run_script(build: Build, snapshot: Seq<char>) -> Script<()> {
    chain(
        sync_time_script(),
        |u: ()|
            chain(
                prepare_script(build, snapshot),
                |u: ()|
                    chain(
                        crate::script::attempt(done(Req::RefreshPackages { snapshot })),
                        |tried: Result<(), Fault>| refresh_end_script(build, snapshot, tried),
                    ),
            ),
    )
}

/// What `refresh` does.
#[verifier::opaque]
pub open spec fn refresh_script(build: Build, snapshot: Seq<char>) -> Script<()> {
    if_ready("refresh"@, snapshot, refresh_run_script(build, snapshot))
}

fn upgrade_guard(host: &mut Host, snapshot: &str, baseup: bool) -> (r: Result<(), Halt>)
    ensures
        ran(old(host)@, final(host)@, r, upgrade_guard_script(snapshot@, baseup)),
{
    reveal(upgrade_guard_script);
    if !exists_at(host, rootfs_path(snapshot))? {
        Err(failure(ErrorKind::NotFound, missing_text("upgrade", snapshot)))
    } else if exists_at(host, rootfs_path(chr_name(snapshot).as_str()))? {
        Err(failure(ErrorKind::Unsupported, in_use_text(snapshot)))
    } else if same(snapshot, "0") && !baseup {
        Err(
            failure(
                ErrorKind::Unsupported,
                "Changing base snapshot is not allowed.".to_owned(),
            ),
        )
    } else {
        Ok(())
    }
}

fn renew_recovery(host: &mut Host, baseup: bool) -> (r: Result<(), Halt>)
    ensures
        ran(old(host)@, final(host)@, r, renew_recovery_script(old(host)@.build, baseup)),
{
    reveal(renew_recovery_script);
    if baseup {
        match attempt(deploy_recovery(host))? {
            Ok(_) => Ok(()),
            Err(_) => Err(
                failure(ErrorKind::Other, "Failed to deploy recovery snapshot.".to_owned()),
            ),
        }
    } else {
        Ok(())
    }
}

fn upgraded(host: &mut Host, snapshot: &str, baseup: bool) -> (r: Result<(), Halt>)
    ensures
        ran(old(host)@, final(host)@, r, upgraded_script(old(host)@.build, snapshot@, baseup)),
{
    reveal(upgraded_script);
    match attempt(post_transactions(host, snapshot))? {
        Ok(_) => {
            renew_recovery(host, baseup)?;
            host.say(cat3("Snapshot ", snapshot, " upgraded successfully."))
        },
        Err(_) => Ok(()),
    }
}

/// Upgrades a snapshot; the base snapshot only where `baseup`.
pub fn upgrade(host: &mut Host, snapshot: &str, baseup: bool, noconfirm: bool) -> (r: Result<
    (),
    Halt,
>)
    ensures
        ran(
            old(host)@,
            final(host)@,
            r,
            upgrade_script(old(host)@.build, snapshot@, baseup, noconfirm),
        ),
{
    reveal(upgrade_script);
    upgrade_guard(host, snapshot, baseup)?;
    let req = Request::UpgradePackages { snapshot: snapshot.to_owned(), noconfirm };
    reveal(upgrade_end_script);
    match attempt(host.done(req))? {
        Ok(_) => upgraded(host, snapshot, baseup),
        Err(_) => {
            chr_delete(host, snapshot)?;
            Err(
                failure(ErrorKind::Other, "Upgrade failed and changes discarded.".to_owned()),
            )
        },
    }
}

/// Refreshes the package database of a snapshot.
pub fn refresh(host: &mut Host, snapshot: &str) -> (r: Result<(), Halt>)
    ensures
        ran(old(host)@, final(host)@, r, refresh_script(old(host)@.build, snapshot@)),
{
    reveal(refresh_script);
    if !ready(host, "refresh", snapshot)? {
        return Ok(());
    }
    refresh_run(host, snapshot)
}

fn refresh_run(host: &mut Host, snapshot: &str) -> (r: Result<(), Halt>)
    ensures
        ran(old(host)@, final(host)@, r, refresh_run_script(old(host)@.build, snapshot@)),
{
    reveal(refresh_run_script);
    reveal(refresh_end_script);
    sync_time(host)?;
    prepare(host, snapshot)?;
    let req = Request::RefreshPackages { snapshot: snapshot.to_owned() };
    match attempt(host.done(req))? {
        Ok(_) => {
            post_transactions(host, snapshot)?;
            host.say(cat3("Snapshot ", snapshot, " refreshed successfully."))
        },
        Err(_) => {
            chr_delete(host, snapshot)?;
            host.warn("Refresh failed and changes discarded.".to_owned())
        },
    }
}

// ------------------------------------------------------------------ profiles

/// The name of the distribution, without the mark of this system.
#[verifier::opaque]
pub open spec fn distro_script() -> Script<Seq<char>> {
    chain(
        text(Req::DistroId),
        |distro: Seq<char>| give(replaced(distro, "_ashos"@, ""@)),
    )
}

/// The file of a profile for a distribution.
pub open spec fn profile_file(name: Seq<char>, distro: Seq<char>) -> Seq<char> {
    "/usr/share/ash/profiles/"@ + name + "/"@ + distro
}

/// Reads a profile; that it cannot be read is not provided for.
#[verifier::opaque]
pub open spec fn read_script(path: Seq<char>) -> Script<Table> {
    crate::script::sure(profile(Req::ReadProfile { path }))
}

/// The packages that bring the profiles along.
pub open spec fn profile_pkgs() -> Seq<Seq<char>> {
    seq!["ash-profiles"@]
}

/// Installing packages, in the deployment `live` where there is one.
pub open spec fn install_req(
    snapshot: Seq<char>,
    live: Option<Seq<char>>,
    pkgs: Seq<Seq<char>>,
    noconfirm: bool,
) -> Req {
    match live {
        None => Req::InstallPackages { snapshot, pkgs, noconfirm },
        Some(tmp) => Req::InstallLive { snapshot, tmp, pkgs, noconfirm },
    }
}

/// Reads the profile that is to be installed: the file `file`, which `force` installs first,
/// or the user's own.
#[verifier::opaque]
pub open spec fn load_script(
    file: Seq<char>,
    force: bool,
    user: Seq<char>,
    snapshot: Seq<char>,
    live: Option<Seq<char>>,
) -> Script<Table> {
    chain(
        flag(Req::IsFile { path: file }),
        |there: bool|
            if there && !force && user.len() == 0 {
                read_script(file)
            } else if force {
                chain(
                    say("Installing AshOS profiles..."@),
                    |u: ()|
                        chain(
                            done(install_req(snapshot, live, profile_pkgs(), true)),
                            |u: ()| read_script(file),
                        ),
                )
            } else if user.len() > 0 {
                read_script(user)
            } else {
                chain(
                    flag(Req::IsFile { path: file }),
                    |again: bool|
                        if !again {
                            fail(ErrorKind::NotFound, "Please install ash-profiles package."@)
                        } else {
                            give(seq![])
                        },
                )
            },
    )
}

/// Presets need the user repository.
#[verifier::opaque]
pub open spec fn presets_script(build: Build, snapshot: Seq<char>, p: Table) -> Script<()> {
    if build.pacman && has_section(p, "presets"@) {
        chain(
            flag(Req::AurEnabled { snapshot }),
            |on: bool|
                if on {
                    give(())
                } else {
                    fail(ErrorKind::Unsupported, "Please enable AUR."@)
                },
        )
    } else {
        give(())
    }
}

/// A request that is made where a profile has a section.
pub open spec fn if_section(p: Table, section: Seq<char>, req: Req) -> Script<()> {
    if has_section(p, section) {
        done(req)
    } else {
        give(())
    }
}

/// Runs a command in a chroot.
pub open spec fn exec_in(root: Seq<char>) -> spec_fn(Seq<char>) -> Script<()> {
    |cmd: Seq<char>| chroot_exec_script(root, cmd)
}

/// Carries out a profile: packages, services and commands.
#[verifier::opaque]
pub open spec fn carry_out_script(
    build: Build,
    snapshot: Seq<char>,
    p: Table,
    live: Option<Seq<char>>,
    noconfirm: bool,
    root: Seq<char>,
) -> Script<()> {
    chain(
        presets_script(build, snapshot, p),
        |u: ()|
            chain(
                if_section(
                    p,
                    "profile-packages"@,
                    install_req(snapshot, live, keys_of(p, "profile-packages"@), noconfirm),
                ),
                |u: ()|
                    chain(
                        if_section(
                            p,
                            "disable-services"@,
                            Req::DisableServices {
                                snapshot,
                                services: keys_of(p, "disable-services"@),
                                chr: "chr"@,
                            },
                        ),
                        |u: ()|
                            chain(
                                if_section(
                                    p,
                                    "enable-services"@,
                                    Req::EnableServices {
                                        snapshot,
                                        services: keys_of(p, "enable-services"@),
                                        chr: "chr"@,
                                    },
                                ),
                                |u: ()| each(keys_of(p, "install-commands"@), exec_in(root)),
                            ),
                    ),
            ),
    )
}

/// The note that a profile is about to be installed.
pub open spec fn updating_note(name: Seq<char>) -> Seq<char> {
    "Updating the system before installing "@ + name + " profile..."@
}

/// What `install_profile` does.
#[verifier::opaque]
pub open spec fn install_profile_script(
    build: Build,
    snapshot: Seq<char>,
    name: Seq<char>,
    force: bool,
    secondary: bool,
    user: Seq<char>,
    noconfirm: bool,
) -> Script<bool> {
    chain(
        distro_script(),
        |distro: Seq<char>|
            chain(
                guard_script("install"@, snapshot),
                |u: ()|
                    chain(
                        say(updating_note(name)),
                        |u: ()|
                            chain(
                                done(Req::AutoUpgrade { snapshot }),
                                |u: ()|
                                    chain(
                                        prepare_script(build, snapshot),
                                        |u: ()|
                                            chain(
                                                load_script(
                                                    profile_file(name, distro),
                                                    force,
                                                    user,
                                                    snapshot,
                                                    None,
                                                ),
                                                |p: Table|
                                                    chain(
                                                        carry_out_script(
                                                            build,
                                                            snapshot,
                                                            p,
                                                            None,
                                                            noconfirm,
                                                            rootfs(chr(snapshot)),
                                                        ),
                                                        |u: ()| give(secondary),
                                                    ),
                                            ),
                                    ),
                            ),
                    ),
            ),
    )
}

/// Installs a profile in the upgraded deployment `tmp`.
#[verifier::opaque]
pub open spec fn install_in_live_script(
    build: Build,
    snapshot: Seq<char>,
    file: Seq<char>,
    tmp: Seq<char>,
    force: bool,
    user: Seq<char>,
    noconfirm: bool,
) -> Script<()> {
    chain(
        load_script(file, force, user, snapshot, Some(tmp)),
        |p: Table|
            chain(
                carry_out_script(build, snapshot, p, Some(tmp), noconfirm, rootfs(snapshot)),
                |u: ()| crate::script::sure(ash_umounts_script(tmp, ""@)),
            ),
    )
}

/// What `install_profile_live` does.
#[verifier::opaque]
pub open spec fn install_profile_live_script(
    build: Build,
    snapshot: Seq<char>,
    name: Seq<char>,
    force: bool,
    user: Seq<char>,
    noconfirm: bool,
) -> Script<()> {
    chain(
        distro_script(),
        |distro: Seq<char>|
            chain(
                get_tmp_script(),
                |tmp: Seq<char>|
                    chain(
                        say(
                            updating_note(
                                if user.len() == 0 {
                                    name
                                } else {
                                    user
                                },
                            ),
                        ),
                        |u: ()|
                            chain(
                                ash_mounts_script(tmp, ""@),
                                |u: ()|
                                    chain(
                                        crate::script::attempt(
                                            done(Req::UpgradeLive { tmp, noconfirm }),
                                        ),
                                        |tried: Result<(), Fault>|
                                            match tried {
                                                Ok(_) => install_in_live_script(
                                                    build,
                                                    snapshot,
                                                    profile_file(name, distro),
                                                    tmp,
                                                    force,
                                                    user,
                                                    noconfirm,
                                                ),
                                                Err(_) => fail(
                                                    ErrorKind::Interrupted,
                                                    "System update failed."@,
                                                ),
                                            },
                                    ),
                            ),
                    ),
            ),
    )
}

/// Reads the profile that is to be removed; there may be none.
#[verifier::opaque]
pub open spec fn load_old_script(file: Seq<char>, user: Seq<char>) -> Script<Table> {
    chain(
        flag(Req::IsFile { path: file }),
        |there: bool|
            if there && user.len() == 0 {
                read_script(file)
            } else if user.len() > 0 {
                read_script(user)
            } else {
                give(seq![])
            },
    )
}

/// What `uninstall_profile` does.
#[verifier::opaque]
pub open spec fn uninstall_profile_script(
    build: Build,
    snapshot: Seq<char>,
    name: Seq<char>,
    user: Seq<char>,
    noconfirm: bool,
) -> Script<()> {
    chain(
        distro_script(),
        |distro: Seq<char>|
            chain(
                guard_script("uninstall"@, snapshot),
                |u: ()|
                    chain(
                        prepare_script(build, snapshot),
                        |u: ()|
                            chain(
                                load_old_script(profile_file(name, distro), user),
                                |p: Table|
                                    chain(
                                        each(
                                            keys_of(p, "uninstall-commands"@),
                                            exec_in(rootfs(chr(snapshot))),
                                        ),
                                        |u: ()|
                                            if_section(
                                                p,
                                                "profile-packages"@,
                                                Req::UninstallPackages {
                                                    snapshot,
                                                    pkgs: keys_of(p, "profile-packages"@),
                                                    noconfirm,
                                                },
                                            ),
                                    ),
                            ),
                    ),
            ),
    )
}

/// What `uninstall_profile_live` does.
#[verifier::opaque]
pub open spec fn uninstall_profile_live_script(
    snapshot: Seq<char>,
    name: Seq<char>,
    user: Seq<char>,
    noconfirm: bool,
) -> Script<()> {
    chain(
        distro_script(),
        |distro: Seq<char>|
            chain(
                get_tmp_script(),
                |tmp: Seq<char>|
                    chain(
                        ash_mounts_script(tmp, ""@),
                        |u: ()|
                            chain(
                                load_old_script(profile_file(name, distro), user),
                                |p: Table|
                                    chain(
                                        if_section(
                                            p,
                                            "profile-packages"@,
                                            Req::UninstallLive {
                                                tmp,
                                                pkgs: keys_of(p, "profile-packages"@),
                                                noconfirm,
                                            },
                                        ),
                                        |u: ()|
                                            chain(
                                                each(
                                                    keys_of(p, "uninstall-commands"@),
                                                    exec_in(rootfs(snapshot)),
                                                ),
                                                |u: ()|
                                                    crate::script::sure(
                                                        ash_umounts_script(tmp, ""@),
                                                    ),
                                            ),
                                    ),
                            ),
                    ),
            ),
    )
}

fn distro_name(host: &mut Host) -> (r: Result<String, Halt>)
    ensures
        ran(old(host)@, final(host)@, r, distro_script()),
{
    reveal(distro_script);
    proof {
        reveal_strlit("_ashos");
    }
    let distro = host.text(Request::DistroId)?;
    Ok(replace(distro.as_str(), "_ashos", ""))
}

fn profile_path(name: &str, distro: &str) -> (r: String)
    ensures
        r@ == profile_file(name@, distro@),
{
    cat4("/usr/share/ash/profiles/", name, "/", distro)
}

fn read(host: &mut Host, path: &str) -> (r: Result<Profile, Halt>)
    ensures
        ran(old(host)@, final(host)@, r, read_script(path@)),
{
    reveal(read_script);
    sure(host.profile(Request::ReadProfile { path: path.to_owned() }))
}

fn install_request(snapshot: &str, live: &Option<String>, pkgs: Vec<String>, noconfirm: bool) -> (r:
    Request)
    ensures
        r.deep_view() == install_req(snapshot@, live.deep_view(), pkgs.deep_view(), noconfirm),
{
    match live {
        None => Request::InstallPackages { snapshot: snapshot.to_owned(), pkgs, noconfirm },
        Some(tmp) => Request::InstallLive {
            snapshot: snapshot.to_owned(),
            tmp: tmp.clone(),
            pkgs,
            noconfirm,
        },
    }
}

fn load(host: &mut Host, file: &str, force: bool, user: &str, snapshot: &str, live: &Option<String>) -> (r:
    Result<Profile, Halt>)
    ensures
        ran(
            old(host)@,
            final(host)@,
            r,
            load_script(file@, force, user@, snapshot@, live.deep_view()),
        ),
{
    reveal(load_script);
    let there = host.flag(Request::IsFile { path: file.to_owned() })?;
    if there && !force && user.is_empty() {
        read(host, file)
    } else if force {
        host.say("Installing AshOS profiles...".to_owned())?;
        let pkgs = vec!["ash-profiles".to_owned()];
        assert(pkgs.deep_view() =~= profile_pkgs());
        host.done(install_request(snapshot, live, pkgs, true))?;
        read(host, file)
    } else if !user.is_empty() {
        read(host, user)
    } else if !host.flag(Request::IsFile { path: file.to_owned() })? {
        Err(failure(ErrorKind::NotFound, "Please install ash-profiles package.".to_owned()))
    } else {
        Ok(Profile::empty())
    }
}

fn check_presets(host: &mut Host, snapshot: &str, p: &Profile) -> (r: Result<(), Halt>)
    ensures
        ran(
            old(host)@,
            final(host)@,
            r,
            presets_script(old(host)@.build, snapshot@, p.deep_view()),
        ),
{
    reveal(presets_script);
    if host.build().pacman && p.has("presets") {
        if host.flag(Request::AurEnabled { snapshot: snapshot.to_owned() })? {
            Ok(())
        } else {
            Err(failure(ErrorKind::Unsupported, "Please enable AUR.".to_owned()))
        }
    } else {
        Ok(())
    }
}

fn done_if_section(host: &mut Host, p: &Profile, section: &str, req: Request) -> (r: Result<
    (),
    Halt,
>)
    ensures
        ran(old(host)@, final(host)@, r, if_section(p.deep_view(), section@, req.deep_view())),
{
    if p.has(section) {
        host.done(req)
    } else {
        Ok(())
    }
}

fn exec_each(host: &mut Host, root: &str, cmds: &Vec<String>) -> (r: Result<(), Halt>)
    ensures
        ran(old(host)@, final(host)@, r, each(cmds.deep_view(), exec_in(root@))),
{
    let ghost all = cmds.deep_view();
    let ghost f = exec_in(root@);
    let mut i: usize = 0;
    assert(all.skip(0) =~= all);
    while i < cmds.len()
        invariant
            i <= cmds.len(),
            all == cmds.deep_view(),
            f == exec_in(root@),
            run(old(host)@, each(all, f)) == run(host@, each(all.skip(i as int), f)),
        decreases cmds.len() - i,
    {
        assert(all.skip(i as int).drop_first() =~= all.skip(i + 1));
        assert(all.skip(i as int)[0] == cmds[i as int]@);
        chroot_exec(host, root, cmds[i].as_str())?;
        i += 1;
    }
    Ok(())
}

fn carry_out(
    host: &mut Host,
    snapshot: &str,
    p: &Profile,
    live: &Option<String>,
    noconfirm: bool,
    root: &str,
) -> (r: Result<(), Halt>)
    ensures
        ran(
            old(host)@,
            final(host)@,
            r,
            carry_out_script(
                old(host)@.build,
                snapshot@,
                p.deep_view(),
                live.deep_view(),
                noconfirm,
                root@,
            ),
        ),
{
    reveal(carry_out_script);
    check_presets(host, snapshot, p)?;
    done_if_section(
        host,
        p,
        "profile-packages",
        install_request(snapshot, live, p.keys("profile-packages"), noconfirm),
    )?;
    done_if_section(
        host,
        p,
        "disable-services",
        Request::DisableServices {
            snapshot: snapshot.to_owned(),
            services: p.keys("disable-services"),
            chr: "chr".to_owned(),
        },
    )?;
    done_if_section(
        host,
        p,
        "enable-services",
        Request::EnableServices {
            snapshot: snapshot.to_owned(),
            services: p.keys("enable-services"),
            chr: "chr".to_owned(),
        },
    )?;
    exec_each(host, root, &p.keys("install-commands"))
}

/// Installs a profile in a snapshot that it prepares; gives back `secondary`.
pub fn install_profile(
    host: &mut Host,
    snapshot: &str,
    profile: &str,
    force: bool,
    secondary: bool,
    user_profile: &str,
    noconfirm: bool,
) -> (r: Result<bool, Halt>)
    ensures
        ran(
            old(host)@,
            final(host)@,
            r,
            install_profile_script(
                old(host)@.build,
                snapshot@,
                profile@,
                force,
                secondary,
                user_profile@,
                noconfirm,
            ),
        ),
{
    reveal(install_profile_script);
    let distro = distro_name(host)?;
    let file = profile_path(profile, distro.as_str());
    guard(host, "install", snapshot)?;
    host.say(cat3("Updating the system before installing ", profile, " profile..."))?;
    host.done(Request::AutoUpgrade { snapshot: snapshot.to_owned() })?;
    prepare(host, snapshot)?;
    let p = load(host, file.as_str(), force, user_profile, snapshot, &None)?;
    let root = rootfs_path(chr_name(snapshot).as_str());
    carry_out(host, snapshot, &p, &None, noconfirm, root.as_str())?;
    Ok(secondary)
}

fn install_in_live(
    host: &mut Host,
    snapshot: &str,
    file: &str,
    tmp: &str,
    force: bool,
    user: &str,
    noconfirm: bool,
) -> (r: Result<(), Halt>)
    ensures
        ran(
            old(host)@,
            final(host)@,
            r,
            install_in_live_script(
                old(host)@.build,
                snapshot@,
                file@,
                tmp@,
                force,
                user@,
                noconfirm,
            ),
        ),
{
    reveal(install_in_live_script);
    let live = Some(tmp.to_owned());
    let p = load(host, file, force, user, snapshot, &live)?;
    carry_out(host, snapshot, &p, &live, noconfirm, rootfs_path(snapshot).as_str())?;
    sure(ash_umounts(host, tmp, ""))
}

/// Installs a profile in the running deployment.
pub fn install_profile_live(
    host: &mut Host,
    snapshot: &str,
    profile: &str,
    force: bool,
    user_profile: &str,
    noconfirm: bool,
) -> (r: Result<(), Halt>)
    ensures
        ran(
            old(host)@,
            final(host)@,
            r,
            install_profile_live_script(
                old(host)@.build,
                snapshot@,
                profile@,
                force,
                user_profile@,
                noconfirm,
            ),
        ),
{
    reveal(install_profile_live_script);
    let distro = distro_name(host)?;
    let file = profile_path(profile, distro.as_str());
    let tmp = get_tmp(host)?;
    let shown = if user_profile.is_empty() {
        profile
    } else {
        user_profile
    };
    host.say(cat3("Updating the system before installing ", shown, " profile..."))?;
    ash_mounts(host, tmp.as_str(), "")?;
    match attempt(host.done(Request::UpgradeLive { tmp: tmp.clone(), noconfirm }))? {
        Ok(_) => install_in_live(
            host,
            snapshot,
            file.as_str(),
            tmp.as_str(),
            force,
            user_profile,
            noconfirm,
        ),
        Err(_) => Err(failure(ErrorKind::Interrupted, "System update failed.".to_owned())),
    }
}

fn load_old(host: &mut Host, file: &str, user: &str) -> (r: Result<Profile, Halt>)
    ensures
        ran(old(host)@, final(host)@, r, load_old_script(file@, user@)),
{
    reveal(load_old_script);
    let there = host.flag(Request::IsFile { path: file.to_owned() })?;
    if there && user.is_empty() {
        read(host, file)
    } else if !user.is_empty() {
        read(host, user)
    } else {
        Ok(Profile::empty())
    }
}

/// Removes a profile from a snapshot that it prepares.
pub fn uninstall_profile(
    host: &mut Host,
    snapshot: &str,
    profile: &str,
    user_profile: &str,
    noconfirm: bool,
) -> (r: Result<(), Halt>)
    ensures
        ran(
            old(host)@,
            final(host)@,
            r,
            uninstall_profile_script(
                old(host)@.build,
                snapshot@,
                profile@,
                user_profile@,
                noconfirm,
            ),
        ),
{
    reveal(uninstall_profile_script);
    let distro = distro_name(host)?;
    let file = profile_path(profile, distro.as_str());
    guard(host, "uninstall", snapshot)?;
    prepare(host, snapshot)?;
    let p = load_old(host, file.as_str(), user_profile)?;
    let root = rootfs_path(chr_name(snapshot).as_str());
    exec_each(host, root.as_str(), &p.keys("uninstall-commands"))?;
    done_if_section(
        host,
        &p,
        "profile-packages",
        Request::UninstallPackages {
            snapshot: snapshot.to_owned(),
            pkgs: p.keys("profile-packages"),
            noconfirm,
        },
    )
}

/// Removes a profile from the running deployment.
pub fn uninstall_profile_live(
    host: &mut Host,
    snapshot: &str,
    profile: &str,
    user_profile: &str,
    noconfirm: bool,
) -> (r: Result<(), Halt>)
    ensures
        ran(
            old(host)@,
            final(host)@,
            r,
            uninstall_profile_live_script(snapshot@, profile@, user_profile@, noconfirm),
        ),
{
    reveal(uninstall_profile_live_script);
    let distro = distro_name(host)?;
    let file = profile_path(profile, distro.as_str());
    let tmp = get_tmp(host)?;
    ash_mounts(host, tmp.as_str(), "")?;
    let p = load_old(host, file.as_str(), user_profile)?;
    done_if_section(
        host,
        &p,
        "profile-packages",
        Request::UninstallLive {
            tmp: tmp.clone(),
            pkgs: p.keys("profile-packages"),
            noconfirm,
        },
    )?;
    exec_each(host, rootfs_path(snapshot).as_str(), &p.keys("uninstall-commands"))?;
    sure(ash_umounts(host, tmp.as_str(), ""))
}

}
