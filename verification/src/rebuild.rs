//! Rebuilding, hollowing and resetting.

use vstd::prelude::*;
use crate::chroots::{
    chr_delete, chr_delete_script, collect, copy_three, copy_three_requests, keep, keep_copy,
    post_transactions, post_transactions_script, posttrans, posttrans_script, prepare,
    prepare_script, refill,
};
use crate::deployment::{
    check_mutability, check_mutability_script, deploy, deploy_script, get_current_snapshot,
    get_current_snapshot_script,
};
use crate::dirs::{unmount_mutable_dirs, unmount_mutable_dirs_script};
use crate::guard::{
    base_fixed, exists_at, guard, guard_script, in_use, in_use_text, missing, missing_text,
};
use crate::host::{attempt, failure, ran, sure, yes_no, Halt, Host};
use crate::mounts::{ash_mounts, ash_mounts_script, ash_umounts, ash_umounts_script};
use crate::paths::{
    below, chr, chr_name, mutable_mark, rootfs, rootfs_path, snap, snap_request, volume_path,
    Volume,
};
use crate::profile::Table;
use crate::profiles::old_profile;
use crate::request::{ErrorKind, Fault, MountMode, Req, Request};
use crate::script::{
    all_done, chain, confirm, done, each, fail, flag, give, profile, run, texts, tree, Build,
    Script,
};
use crate::snapshots::{
    as_base, delete_node, delete_node_script, grow_base, grow_script, immutability_enable,
    immutability_enable_script, write_desc, write_desc_script,
};
use crate::text::{cat, cat3, decimal, number, same};

verus! {

broadcast use crate::script::group_run;

// ---------------------------------------------------------------- rebuilding

/// What `rebuild_prep` does.
#[verifier::opaque]
pub open spec fn rebuild_prep_script(snapshot: Seq<char>) -> Script<()> {
    chain(
        crate::script::sure(profile(Req::ReadProfile { path: old_profile(snapshot) })),
        |p: Table|
            chain(
                all_done(
                    seq![
                        Req::CreateSubvolume { path: rootfs(chr(snapshot)) },
                        Req::Bootstrap { snapshot },
                    ],
                ),
                |u: ()|
                    chain(
                        ash_mounts_script(snapshot, "chr"@),
                        |u: ()|
                            chain(
                                done(Req::SystemConfig { snapshot, profile: p }),
                                |u: ()|
                                    chain(
                                        all_done(copy_three(snapshot, chr(snapshot))),
                                        |u: ()| collect_three_script(snapshot),
                                    ),
                            ),
                    ),
            ),
    )
}

/// Brings what the root of the temporary copy holds into its other subvolumes.
#[verifier::opaque]
pub open spec fn collect_three_script(snapshot: Seq<char>) -> Script<()> {
    chain(
        collect(Volume::Boot, snapshot, "/boot/."@),
        |u: ()|
            chain(
                collect(Volume::Etc, snapshot, "/etc/."@),
                |u: ()| collect(Volume::Var, snapshot, "/var/."@),
            ),
    )
}

/// Copies the rebuilt temporary copy of `snapshot` as that of `id`.
pub open spec fn stage_plan(snapshot: Seq<char>, id: Seq<char>, read_only: bool) -> Seq<Req> {
    seq![
        snap(Volume::Rootfs, chr(snapshot), chr(id), read_only),
        snap(Volume::Boot, chr(snapshot), chr(id), read_only),
        snap(Volume::Etc, chr(snapshot), chr(id), read_only),
        Req::CopyCache { snapshot, into_chroot: false },
        snap(Volume::Var, chr(snapshot), chr(id), read_only),
    ]
}

/// Checks that a snapshot can be rebuilt under the number `id`.
#[verifier::opaque]
pub open spec fn rebuild_guard_script(snapshot: Seq<char>, id: Seq<char>) -> Script<()> {
    chain(
        flag(Req::Exists { path: rootfs(snapshot) }),
        |there: bool|
            if !there {
                fail(ErrorKind::NotFound, missing("rebuild"@, snapshot))
            } else {
                chain(
                    crate::script::sure(flag(Req::Exists { path: rootfs(chr(snapshot)) })),
                    |busy: bool|
                        if busy {
                            fail(ErrorKind::Unsupported, in_use(snapshot))
                        } else {
                            chain(
                                crate::script::sure(flag(Req::Exists { path: rootfs(chr(id)) })),
                                |taken: bool|
                                    if taken {
                                        fail(ErrorKind::Unsupported, in_use(id))
                                    } else if snapshot == "0"@ {
                                        fail(ErrorKind::Unsupported, base_fixed())
                                    } else {
                                        give(())
                                    },
                            )
                        },
                )
            },
    )
}

/// Makes the rebuilt temporary copy of `snapshot` the snapshot `id`.
#[verifier::opaque]
pub open spec fn rebuild_copy_script(
    build: Build,
    snapshot: Seq<char>,
    id: Seq<char>,
    mutable: bool,
) -> Script<()> {
    chain(
        all_done(stage_plan(snapshot, id, !mutable)),
        |u: ()|
            chain(
                ash_umounts_script(snapshot, "chr"@),
                |u: ()|
                    chain(
                        chr_delete_script(snapshot),
                        |u: ()|
                            chain(
                                keep_copy(chr(id), id),
                                |u: ()|
                                    chain(
                                        unmount_mutable_dirs_script(build, id, snapshot),
                                        |u: ()|
                                            chain(
                                                chr_delete_script(id),
                                                |u: ()|
                                                    if mutable {
                                                        done(
                                                            Req::CreateFile {
                                                                path: mutable_mark(id),
                                                            },
                                                        )
                                                    } else {
                                                        give(())
                                                    },
                                            ),
                                    ),
                            ),
                    ),
            ),
    )
}

/// The description of a rebuilt snapshot.
pub open spec fn rebuild_of(snapshot: Seq<char>) -> Seq<char> {
    "rebuild of "@ + snapshot + "."@
}

/// What `rebuild` does.
#[verifier::opaque]
pub open spec fn rebuild_script(build: Build, snapshot: Seq<char>, snap_num: i32, desc: Seq<char>) -> Script<
    i32,
> {
    let id = decimal(snap_num as int);
    chain(
        rebuild_guard_script(snapshot, id),
        |u: ()|
            chain(
                check_mutability_script(snapshot),
                |mutable: bool|
                    chain(
                        rebuild_prep_script(snapshot),
                        |u: ()|
                            chain(
                                rebuild_copy_script(build, snapshot, id, mutable),
                                |u: ()|
                                    chain(
                                        grow_script(as_base(snap_num)),
                                        |u: ()|
                                            chain(
                                                write_desc_script(
                                                    id,
                                                    if desc.len() == 0 {
                                                        rebuild_of(snapshot)
                                                    } else {
                                                        desc
                                                    },
                                                    true,
                                                ),
                                                |u: ()| give(snap_num),
                                            ),
                                    ),
                            ),
                    ),
            ),
    )
}

/// What `rebuild_base` does.
#[verifier::opaque]
pub open spec fn rebuild_base_script(build: Build) -> Script<()> {
    chain(
        flag(Req::Exists { path: rootfs(chr("0"@)) }),
        |busy: bool|
            if busy {
                fail(ErrorKind::Unsupported, in_use("0"@))
            } else {
                chain(
                    crate::script::attempt(rebuild_prep_script("0"@)),
                    |tried: Result<(), Fault>|
                        match tried {
                            Ok(_) => post_transactions_script(build, "0"@),
                            Err(_) => chain(
                                chr_delete_script("0"@),
                                |u: ()|
                                    fail(
                                        ErrorKind::Other,
                                        "Rebuild failed and changes discarded."@,
                                    ),
                            ),
                        },
                )
            },
    )
}

fn refill_three(host: &mut Host, snapshot: &str) -> (r: Result<(), Halt>)
    ensures
        ran(old(host)@, final(host)@, r, collect_three_script(snapshot@)),
{
    reveal(collect_three_script);
    refill(host, Volume::Boot, snapshot, "/boot/.")?;
    refill(host, Volume::Etc, snapshot, "/etc/.")?;
    refill(host, Volume::Var, snapshot, "/var/.")
}

/// Builds the temporary copy of a snapshot from nothing.
pub fn rebuild_prep(host: &mut Host, snapshot: &str) -> (r: Result<(), Halt>)
    ensures
        ran(old(host)@, final(host)@, r, rebuild_prep_script(snapshot@)),
{
    reveal(rebuild_prep_script);
    let id = chr_name(snapshot);
    let file = cat(volume_path(Volume::Etc, snapshot).as_str(), "/ash/profile");
    let p = sure(host.profile(Request::ReadProfile { path: file }))?;
    let plan = vec![
        Request::CreateSubvolume { path: rootfs_path(id.as_str()) },
        Request::Bootstrap { snapshot: snapshot.to_owned() },
    ];
    assert(plan.deep_view() =~= seq![
        Req::CreateSubvolume { path: rootfs(chr(snapshot@)) },
        Req::Bootstrap { snapshot: snapshot@ },
    ]);
    host.all_done(plan)?;
    ash_mounts(host, snapshot, "chr")?;
    host.done(Request::SystemConfig { snapshot: snapshot.to_owned(), profile: p })?;
    host.all_done(copy_three_requests(snapshot, id.as_str()))?;
    refill_three(host, snapshot)
}

fn rebuild_guard(host: &mut Host, snapshot: &str, id: &str) -> (r: Result<(), Halt>)
    ensures
        ran(old(host)@, final(host)@, r, rebuild_guard_script(snapshot@, id@)),
{
    reveal(rebuild_guard_script);
    if !exists_at(host, rootfs_path(snapshot))? {
        Err(failure(ErrorKind::NotFound, missing_text("rebuild", snapshot)))
    } else if sure(exists_at(host, rootfs_path(chr_name(snapshot).as_str())))? {
        Err(failure(ErrorKind::Unsupported, in_use_text(snapshot)))
    } else if sure(exists_at(host, rootfs_path(chr_name(id).as_str())))? {
        Err(failure(ErrorKind::Unsupported, in_use_text(id)))
    } else if same(snapshot, "0") {
        Err(
            failure(
                ErrorKind::Unsupported,
                "Changing base snapshot is not allowed.".to_owned(),
            ),
        )
    } else {
        Ok(())
    }
}

fn rebuild_copy(host: &mut Host, snapshot: &str, id: &str, mutable: bool) -> (r: Result<(), Halt>)
    ensures
        ran(
            old(host)@,
            final(host)@,
            r,
            rebuild_copy_script(old(host)@.build, snapshot@, id@, mutable),
        ),
{
    reveal(rebuild_copy_script);
    let from = chr_name(snapshot);
    let to = chr_name(id);
    let plan = vec![
        snap_request(Volume::Rootfs, from.as_str(), to.as_str(), !mutable),
        snap_request(Volume::Boot, from.as_str(), to.as_str(), !mutable),
        snap_request(Volume::Etc, from.as_str(), to.as_str(), !mutable),
        Request::CopyCache { snapshot: snapshot.to_owned(), into_chroot: false },
        snap_request(Volume::Var, from.as_str(), to.as_str(), !mutable),
    ];
    assert(plan.deep_view() =~= stage_plan(snapshot@, id@, !mutable));
    host.all_done(plan)?;
    ash_umounts(host, snapshot, "chr")?;
    chr_delete(host, snapshot)?;
    keep(host, to.as_str(), id)?;
    unmount_mutable_dirs(host, id, snapshot)?;
    chr_delete(host, id)?;
    if mutable {
        host.done(Request::CreateFile { path: below(id, "/usr/share/ash/mutable") })
    } else {
        Ok(())
    }
}

/// Builds a snapshot from nothing, with the configuration and packages of another one.
pub fn rebuild(host: &mut Host, snapshot: &str, snap_num: i32, desc: &str) -> (r: Result<i32, Halt>)
    ensures
        ran(
            old(host)@,
            final(host)@,
            r,
            rebuild_script(old(host)@.build, snapshot@, snap_num, desc@),
        ),
{
    reveal(rebuild_script);
    let id = number(snap_num);
    rebuild_guard(host, snapshot, id.as_str())?;
    let mutable = check_mutability(host, snapshot)?;
    rebuild_prep(host, snapshot)?;
    rebuild_copy(host, snapshot, id.as_str(), mutable)?;
    grow_base(host, snap_num)?;
    let text = if desc.is_empty() {
        cat3("rebuild of ", snapshot, ".")
    } else {
        desc.to_owned()
    };
    write_desc(host, id.as_str(), text.as_str(), true)?;
    Ok(snap_num)
}

/// Builds the base snapshot from nothing.
pub fn rebuild_base(host: &mut Host) -> (r: Result<(), Halt>)
    ensures
        ran(old(host)@, final(host)@, r, rebuild_base_script(old(host)@.build)),
{
    reveal(rebuild_base_script);
    if exists_at(host, rootfs_path(chr_name("0").as_str()))? {
        return Err(failure(ErrorKind::Unsupported, in_use_text("0")));
    }
    match attempt(rebuild_prep(host, "0"))? {
        Ok(_) => post_transactions(host, "0"),
        Err(_) => {
            chr_delete(host, "0")?;
            Err(
                failure(ErrorKind::Other, "Rebuild failed and changes discarded.".to_owned()),
            )
        },
    }
}

// ----------------------------------------------------------------- hollowing

/// Keeps a hollow snapshot and deploys it.
#[verifier::opaque]
pub open spec fn hollow_keep_script(build: Build, snapshot: Seq<char>) -> Script<()> {
    chain(
        posttrans_script(snapshot),
        |u: ()|
            chain(
                check_mutability_script(snapshot),
                |mutable: bool|
                    chain(
                        if mutable {
                            immutability_enable_script(snapshot)
                        } else {
                            give(())
                        },
                        |u: ()|
                            chain(
                                deploy_script(build, snapshot, false, false),
                                |target: Seq<char>| give(()),
                            ),
                    ),
            ),
    )
}

/// The running root in place of that of the temporary copy.
pub open spec fn hollow_mount(snapshot: Seq<char>) -> Req {
    Req::Mount {
        source: "/"@,
        target: rootfs(chr(snapshot)),
        fstype: "btrfs"@,
        mode: MountMode::RecursiveSlave,
    }
}

/// The question that is put once a snapshot is hollow.
pub open spec fn hollow_question(snapshot: Seq<char>) -> Seq<char> {
    "Snapshot "@ + snapshot
        + " is now hollow! Whenever done, type yes to deploy and no to discard."@
}

/// What `hollow` does.
#[verifier::opaque]
pub open spec fn hollow_script(build: Build, snapshot: Seq<char>) -> Script<()> {
    chain(
        guard_script("make hollow"@, snapshot),
        |u: ()|
            chain(
                prepare_script(build, snapshot),
                |u: ()|
                    chain(
                        done(hollow_mount(snapshot)),
                        |u: ()|
                            chain(
                                confirm(hollow_question(snapshot)),
                                |yes: bool|
                                    if yes {
                                        hollow_keep_script(build, snapshot)
                                    } else {
                                        chain(
                                            chr_delete_script(snapshot),
                                            |u: ()|
                                                fail(
                                                    ErrorKind::Interrupted,
                                                    "No changes applied on snapshot "@ + snapshot
                                                        + "."@,
                                                ),
                                        )
                                    },
                            ),
                    ),
            ),
    )
}

fn hollow_keep(host: &mut Host, snapshot: &str) -> (r: Result<(), Halt>)
    ensures
        ran(old(host)@, final(host)@, r, hollow_keep_script(old(host)@.build, snapshot@)),
{
    reveal(hollow_keep_script);
    posttrans(host, snapshot)?;
    if check_mutability(host, snapshot)? {
        immutability_enable(host, snapshot)?;
    }
    deploy(host, snapshot, false, false)?;
    Ok(())
}

/// Opens a snapshot to changes from the running system, until the user says that it is done.
pub fn hollow(host: &mut Host, snapshot: &str) -> (r: Result<(), Halt>)
    ensures
        ran(old(host)@, final(host)@, r, hollow_script(old(host)@.build, snapshot@)),
{
    reveal(hollow_script);
    guard(host, "make hollow", snapshot)?;
    prepare(host, snapshot)?;
    host.done(
        Request::Mount {
            source: "/".to_owned(),
            target: rootfs_path(chr_name(snapshot).as_str()),
            fstype: "btrfs".to_owned(),
            mode: MountMode::RecursiveSlave,
        },
    )?;
    let question = cat3(
        "Snapshot ",
        snapshot,
        " is now hollow! Whenever done, type yes to deploy and no to discard.",
    );
    if yes_no(host, question.as_str())? {
        hollow_keep(host, snapshot)
    } else {
        chr_delete(host, snapshot)?;
        Err(
            failure(
                ErrorKind::Interrupted,
                cat3("No changes applied on snapshot ", snapshot, "."),
            ),
        )
    }
}

// ----------------------------------------------------------------- resetting

/// The question before all snapshots are deleted.
pub open spec fn reset_question() -> Seq<char> {
    "All snapshots will be permanently deleted and cannot be retrieved, are you absolutely certain you want to continue?"@
}

/// The question before the restart.
pub open spec fn restart_question() -> Seq<char> {
    "The system will restart automatically to complete the reset. Do you want to continue?"@
}

/// The two questions; the second comes only after a yes.
#[verifier::opaque]
pub open spec fn reset_consent_script() -> Script<bool> {
    chain(
        confirm(reset_question()),
        |sure_of_it: bool|
            if sure_of_it {
                confirm(restart_question())
            } else {
                give(false)
            },
    )
}

/// What is run at the next start: the snapshot that is running now is deleted.
pub open spec fn reset_job(current: Seq<char>) -> Seq<char> {
    "#!/bin/sh\n/usr/sbin/ash del -q -n -s "@ + current
        + "\ncp /etc/rc.local.bak /etc/rc.local\nexit 0"@
}

/// Leaves in the base snapshot what is to be run at the next start.
#[verifier::opaque]
pub open spec fn arm_script(build: Build, current: Seq<char>) -> Script<()> {
    let root = rootfs(chr("0"@));
    chain(
        prepare_script(build, "0"@),
        |u: ()|
            chain(
                all_done(
                    seq![
                        Req::CopyFile {
                            from: root + "/etc/rc.local"@,
                            to: root + "/etc/rc.local.bak"@,
                        },
                        Req::RewriteText {
                            path: root + "/etc/rc.local"@,
                            text: reset_job(current),
                        },
                    ],
                ),
                |u: ()| post_transactions_script(build, "0"@),
            ),
    )
}

/// Takes what is to be run at the next start out of the base snapshot again.
#[verifier::opaque]
pub open spec fn disarm_script(build: Build) -> Script<()> {
    let root = rootfs(chr("0"@));
    chain(
        prepare_script(build, "0"@),
        |u: ()|
            chain(
                done(
                    Req::CopyFile {
                        from: root + "/etc/rc.local.bak"@,
                        to: root + "/etc/rc.local"@,
                    },
                ),
                |u: ()| post_transactions_script(build, "0"@),
            ),
    )
}

/// Deletes a snapshot that is there, unless it is running or is the base snapshot.
pub open spec fn wipe(current: Seq<char>) -> spec_fn(Seq<char>) -> Script<()> {
    |snapshot: Seq<char>|
        chain(
            flag(Req::Exists { path: rootfs(snapshot) }),
            |there: bool|
                if there && snapshot != current && snapshot != "0"@ {
                    delete_node_script(seq![snapshot], true, true)
                } else {
                    give(())
                },
        )
}

/// Deploys the base snapshot and deletes the others.
#[verifier::opaque]
pub open spec fn reset_run_script(
    build: Build,
    current: Seq<char>,
    snapshots: Seq<Seq<char>>,
) -> Script<()> {
    chain(
        arm_script(build, current),
        |u: ()|
            chain(
                crate::script::attempt(deploy_script(build, "0"@, false, true)),
                |tried: Result<Seq<char>, Fault>|
                    match tried {
                        Ok(_) => chain(
                            disarm_script(build),
                            |u: ()| each(snapshots, wipe(current)),
                        ),
                        Err(_) => fail(ErrorKind::Other, "Failed to deploy base snapshot."@),
                    },
            ),
    )
}

/// What `reset` does.
#[verifier::opaque]
pub open spec fn reset_script(build: Build) -> Script<()> {
    chain(
        get_current_snapshot_script(),
        |current: Seq<char>|
            chain(
                reset_consent_script(),
                |consent: bool|
                    if !consent {
                        fail(ErrorKind::Interrupted, "Aborted."@)
                    } else {
                        chain(
                            crate::script::sure(tree(Req::LoadTree)),
                            |t: u64|
                                chain(
                                    texts(Req::ChildrenOf { tree: t, name: "root"@ }),
                                    |snapshots: Seq<Seq<char>>|
                                        reset_run_script(build, current, snapshots),
                                ),
                        )
                    },
            ),
    )
}

fn reset_consent(host: &mut Host) -> (r: Result<bool, Halt>)
    ensures
        ran(old(host)@, final(host)@, r, reset_consent_script()),
{
    reveal(reset_consent_script);
    if yes_no(
        host,
        "All snapshots will be permanently deleted and cannot be retrieved, are you absolutely certain you want to continue?",
    )? {
        yes_no(
            host,
            "The system will restart automatically to complete the reset. Do you want to continue?",
        )
    } else {
        Ok(false)
    }
}

fn arm(host: &mut Host, current: &str) -> (r: Result<(), Halt>)
    ensures
        ran(old(host)@, final(host)@, r, arm_script(old(host)@.build, current@)),
{
    reveal(arm_script);
    let id = chr_name("0");
    prepare(host, "0")?;
    let plan = vec![
        Request::CopyFile {
            from: below(id.as_str(), "/etc/rc.local"),
            to: below(id.as_str(), "/etc/rc.local.bak"),
        },
        Request::RewriteText {
            path: below(id.as_str(), "/etc/rc.local"),
            text: cat3(
                "#!/bin/sh\n/usr/sbin/ash del -q -n -s ",
                current,
                "\ncp /etc/rc.local.bak /etc/rc.local\nexit 0",
            ),
        },
    ];
    assert(plan.deep_view() =~= seq![
        Req::CopyFile {
            from: rootfs(chr("0"@)) + "/etc/rc.local"@,
            to: rootfs(chr("0"@)) + "/etc/rc.local.bak"@,
        },
        Req::RewriteText {
            path: rootfs(chr("0"@)) + "/etc/rc.local"@,
            text: reset_job(current@),
        },
    ]);
    host.all_done(plan)?;
    post_transactions(host, "0")
}

fn disarm(host: &mut Host) -> (r: Result<(), Halt>)
    ensures
        ran(old(host)@, final(host)@, r, disarm_script(old(host)@.build)),
{
    reveal(disarm_script);
    let id = chr_name("0");
    prepare(host, "0")?;
    host.done(
        Request::CopyFile {
            from: below(id.as_str(), "/etc/rc.local.bak"),
            to: below(id.as_str(), "/etc/rc.local"),
        },
    )?;
    post_transactions(host, "0")
}

fn wipe_each(host: &mut Host, current: &str, snapshots: &Vec<String>) -> (r: Result<(), Halt>)
    ensures
        ran(old(host)@, final(host)@, r, each(snapshots.deep_view(), wipe(current@))),
{
    let ghost all = snapshots.deep_view();
    let ghost f = wipe(current@);
    let mut i: usize = 0;
    assert(all.skip(0) =~= all);
    while i < snapshots.len()
        invariant
            i <= snapshots.len(),
            all == snapshots.deep_view(),
            f == wipe(current@),
            run(old(host)@, each(all, f)) == run(host@, each(all.skip(i as int), f)),
        decreases snapshots.len() - i,
    {
        assert(all.skip(i as int).drop_first() =~= all.skip(i + 1));
        assert(all.skip(i as int)[0] == snapshots[i as int]@);
        let snapshot = snapshots[i].as_str();
        let there = exists_at(host, rootfs_path(snapshot))?;
        if there && !same(snapshot, current) && !same(snapshot, "0") {
            let one = vec![snapshot.to_owned()];
            assert(one.deep_view() =~= seq![snapshot@]);
            delete_node(host, &one, true, true)?;
        }
        i += 1;
    }
    Ok(())
}

fn reset_run(host: &mut Host, current: &str, snapshots: &Vec<String>) -> (r: Result<(), Halt>)
    ensures
        ran(
            old(host)@,
            final(host)@,
            r,
            reset_run_script(old(host)@.build, current@, snapshots.deep_view()),
        ),
{
    reveal(reset_run_script);
    arm(host, current)?;
    match attempt(deploy(host, "0", false, true))? {
        Ok(_) => {
            disarm(host)?;
            wipe_each(host, current, snapshots)
        },
        Err(_) => Err(failure(ErrorKind::Other, "Failed to deploy base snapshot.".to_owned())),
    }
}

/// Goes back to the base snapshot and deletes all others.
pub fn reset(host: &mut Host) -> (r: Result<(), Halt>)
    ensures
        ran(old(host)@, final(host)@, r, reset_script(old(host)@.build)),
{
    reveal(reset_script);
    let current = get_current_snapshot(host)?;
    if !reset_consent(host)? {
        return Err(failure(ErrorKind::Interrupted, "Aborted.".to_owned()));
    }
    let t = sure(host.tree(Request::LoadTree))?;
    let snapshots = host.texts(Request::ChildrenOf { tree: t, name: "root".to_owned() })?;
    reset_run(host, current.as_str(), &snapshots)
}

}
