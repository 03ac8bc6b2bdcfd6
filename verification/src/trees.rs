//! Doing the same to a snapshot and to all those under it.

use vstd::prelude::*;
use crate::chroots::{
    chr_delete, chr_delete_script, chroot_exec, chroot_exec_script, post_transactions,
    post_transactions_script, prepare, prepare_script,
};
use crate::deployment::{get_current_snapshot, get_current_snapshot_script, get_tmp, get_tmp_script};
use crate::guard::{exists_at, in_use, in_use_text};
use crate::host::{attempt, failure, ran, sure, Halt, Host};
use crate::packages::{
    install, install_profile, install_profile_script, install_script, uninstall, uninstall_profile,
    uninstall_profile_script, uninstall_script,
};
use crate::paths::{chr, chr_name, rootfs, rootfs_path};
use crate::request::{ErrorKind, Fault, Req, Request};
use crate::script::{
    chain, done, each, fail, flag, give, run, say, texts, tree, warn, Build, Script,
};
use crate::text::{cat3, cat5, same};

verus! {

broadcast use crate::script::group_run;

// ---------------------------------------------------------------------- jobs

/// What is done to one snapshot.
pub enum Job {
    /// Installs a package.
    Install { pkg: String, noconfirm: bool },
    /// Installs a profile.
    InstallProfile {
        profile: String,
        user_profile: String,
        force: bool,
        secondary: bool,
        noconfirm: bool,
    },
    /// Removes a package.
    Remove { pkg: String, noconfirm: bool },
    /// Removes a profile.
    RemoveProfile { profile: String, user_profile: String, noconfirm: bool },
    /// Runs a command.
    Run { cmd: String },
    /// Upgrades it.
    Upgrade,
    /// Brings the packages of another snapshot over, and where `live` to the running
    /// deployment.
    Sync { from: String, live: bool },
}

/// What a job says.
pub enum Task {
    Install { pkg: Seq<char>, noconfirm: bool },
    InstallProfile {
        profile: Seq<char>,
        user_profile: Seq<char>,
        force: bool,
        secondary: bool,
        noconfirm: bool,
    },
    Remove { pkg: Seq<char>, noconfirm: bool },
    RemoveProfile { profile: Seq<char>, user_profile: Seq<char>, noconfirm: bool },
    Run { cmd: Seq<char> },
    Upgrade,
    Sync { from: Seq<char>, live: bool },
}

impl DeepView for Job {
    type V = Task;

    open spec fn deep_view(&self) -> Task {
        match self {
            Job::Install { pkg, noconfirm } => Task::Install {
                pkg: pkg@,
                noconfirm: *noconfirm,
            },
            Job::InstallProfile { profile, user_profile, force, secondary, noconfirm } => {
                Task::InstallProfile {
                    profile: profile@,
                    user_profile: user_profile@,
                    force: *force,
                    secondary: *secondary,
                    noconfirm: *noconfirm,
                }
            },
            Job::Remove { pkg, noconfirm } => Task::Remove { pkg: pkg@, noconfirm: *noconfirm },
            Job::RemoveProfile { profile, user_profile, noconfirm } => Task::RemoveProfile {
                profile: profile@,
                user_profile: user_profile@,
                noconfirm: *noconfirm,
            },
            Job::Run { cmd } => Task::Run { cmd: cmd@ },
            Job::Upgrade => Task::Upgrade,
            Job::Sync { from, live } => Task::Sync { from: from@, live: *live },
        }
    }
}

/// The complaint about a snapshot of a tree whose temporary copy is there.
pub open spec fn tree_in_use(snapshot: Seq<char>) -> Seq<char> {
    "Snapshot "@ + snapshot
        + " appears to be in use. If you're certain it's not in use, clear lock with 'ash unlock -s "@
        + snapshot + "."@
}

/// Fails with `complaint` where the temporary copy of a snapshot is there.
#[verifier::opaque]
pub open spec fn free_script(snapshot: Seq<char>, complaint: Seq<char>) -> Script<()> {
    chain(
        flag(Req::Exists { path: rootfs(chr(snapshot)) }),
        |busy: bool|
            if busy {
                fail(ErrorKind::Unsupported, complaint)
            } else {
                give(())
            },
    )
}

/// Keeps the changes of a profile, or discards them where the profile failed.
#[verifier::opaque]
pub open spec fn profile_end_script(
    build: Build,
    snapshot: Seq<char>,
    failed: bool,
    complaint: Seq<char>,
) -> Script<()> {
    if failed {
        chain(chr_delete_script(snapshot), |u: ()| fail(ErrorKind::Other, complaint))
    } else {
        post_transactions_script(build, snapshot)
    }
}

/// Runs a command in a snapshot that is free.
#[verifier::opaque]
pub open spec fn run_in_script(build: Build, snapshot: Seq<char>, cmd: Seq<char>) -> Script<()> {
    chain(
        free_script(snapshot, tree_in_use(snapshot)),
        |u: ()|
            chain(
                prepare_script(build, snapshot),
                |u: ()|
                    chain(
                        chroot_exec_script(rootfs(chr(snapshot)), cmd),
                        |u: ()| post_transactions_script(build, snapshot),
                    ),
            ),
    )
}

/// Upgrades a snapshot that is free.
#[verifier::opaque]
pub open spec fn upgrade_in_script(snapshot: Seq<char>) -> Script<()> {
    chain(
        free_script(snapshot, in_use(snapshot)),
        |u: ()|
            chain(
                crate::script::attempt(done(Req::AutoUpgrade { snapshot })),
                |tried: Result<(), Fault>|
                    match tried {
                        Ok(_) => give(()),
                        Err(_) => fail(
                            ErrorKind::Other,
                            "Failed to auto upgrade tree "@ + snapshot + "."@,
                        ),
                    },
            ),
    )
}

/// Brings the packages of a snapshot over to the running deployment, where it is running.
#[verifier::opaque]
pub open spec fn sync_live_script(snapshot: Seq<char>, live: bool) -> Script<()> {
    if live {
        chain(
            get_current_snapshot_script(),
            |current: Seq<char>|
                if snapshot == current {
                    chain(
                        get_tmp_script(),
                        |tmp: Seq<char>|
                            done(Req::SyncTrees { from: snapshot, to: tmp, chr: ""@ }),
                    )
                } else {
                    give(())
                },
        )
    } else {
        give(())
    }
}

/// Brings the packages of `from` over to a snapshot that is free.
#[verifier::opaque]
pub open spec fn sync_in_script(build: Build, snapshot: Seq<char>, from: Seq<char>, live: bool) -> Script<
    (),
> {
    chain(
        free_script(snapshot, tree_in_use(snapshot)),
        |u: ()|
            chain(
                prepare_script(build, snapshot),
                |u: ()|
                    chain(
                        done(Req::SyncTrees { from, to: snapshot, chr: "chr"@ }),
                        |u: ()|
                            chain(
                                sync_live_script(snapshot, live),
                                |u: ()| post_transactions_script(build, snapshot),
                            ),
                    ),
            ),
    )
}

/// What a job does to a snapshot.
#[verifier::opaque]
pub open spec fn job_script(build: Build, job: Task, snapshot: Seq<char>) -> Script<()> {
    match job {
        Task::Install { pkg, noconfirm } => install_script(build, snapshot, seq![pkg], noconfirm),
        Task::InstallProfile { profile, user_profile, force, secondary, noconfirm } => chain(
            crate::script::attempt(
                install_profile_script(
                    build,
                    snapshot,
                    profile,
                    force,
                    secondary,
                    user_profile,
                    noconfirm,
                ),
            ),
            |tried: Result<bool, Fault>|
                profile_end_script(
                    build,
                    snapshot,
                    tried is Err,
                    "Failed to install and changes discarded."@,
                ),
        ),
        Task::Remove { pkg, noconfirm } => uninstall_script(build, snapshot, seq![pkg], noconfirm),
        Task::RemoveProfile { profile, user_profile, noconfirm } => chain(
            crate::script::attempt(
                uninstall_profile_script(build, snapshot, profile, user_profile, noconfirm),
            ),
            |tried: Result<(), Fault>|
                profile_end_script(
                    build,
                    snapshot,
                    tried is Err,
                    "Failed to remove and changes discarded."@,
                ),
        ),
        Task::Run { cmd } => run_in_script(build, snapshot, cmd),
        Task::Upgrade => upgrade_in_script(snapshot),
        Task::Sync { from, live } => sync_in_script(build, snapshot, from, live),
    }
}

fn free_or(host: &mut Host, snapshot: &str, complaint: String) -> (r: Result<(), Halt>)
    ensures
        ran(old(host)@, final(host)@, r, free_script(snapshot@, complaint@)),
{
    reveal(free_script);
    if exists_at(host, rootfs_path(chr_name(snapshot).as_str()))? {
        Err(failure(ErrorKind::Unsupported, complaint))
    } else {
        Ok(())
    }
}

fn tree_in_use_text(snapshot: &str) -> (r: String)
    ensures
        r@ == tree_in_use(snapshot@),
{
    cat5(
        "Snapshot ",
        snapshot,
        " appears to be in use. If you're certain it's not in use, clear lock with 'ash unlock -s ",
        snapshot,
        ".",
    )
}

fn profile_end(host: &mut Host, snapshot: &str, failed: bool, complaint: &str) -> (r: Result<
    (),
    Halt,
>)
    ensures
        ran(
            old(host)@,
            final(host)@,
            r,
            profile_end_script(old(host)@.build, snapshot@, failed, complaint@),
        ),
{
    reveal(profile_end_script);
    if failed {
        chr_delete(host, snapshot)?;
        Err(failure(ErrorKind::Other, complaint.to_owned()))
    } else {
        post_transactions(host, snapshot)
    }
}

fn run_in(host: &mut Host, snapshot: &str, cmd: &str) -> (r: Result<(), Halt>)
    ensures
        ran(old(host)@, final(host)@, r, run_in_script(old(host)@.build, snapshot@, cmd@)),
{
    reveal(run_in_script);
    free_or(host, snapshot, tree_in_use_text(snapshot))?;
    prepare(host, snapshot)?;
    chroot_exec(host, rootfs_path(chr_name(snapshot).as_str()).as_str(), cmd)?;
    post_transactions(host, snapshot)
}

fn upgrade_in(host: &mut Host, snapshot: &str) -> (r: Result<(), Halt>)
    ensures
        ran(old(host)@, final(host)@, r, upgrade_in_script(snapshot@)),
{
    reveal(upgrade_in_script);
    free_or(host, snapshot, in_use_text(snapshot))?;
    match attempt(host.done(Request::AutoUpgrade { snapshot: snapshot.to_owned() }))? {
        Ok(_) => Ok(()),
        Err(_) => Err(
            failure(ErrorKind::Other, cat3("Failed to auto upgrade tree ", snapshot, ".")),
        ),
    }
}

fn sync_live(host: &mut Host, snapshot: &str, live: bool) -> (r: Result<(), Halt>)
    ensures
        ran(old(host)@, final(host)@, r, sync_live_script(snapshot@, live)),
{
    reveal(sync_live_script);
    if live {
        let current = get_current_snapshot(host)?;
        if same(snapshot, current.as_str()) {
            let tmp = get_tmp(host)?;
            return host.done(
                Request::SyncTrees { from: snapshot.to_owned(), to: tmp, chr: "".to_owned() },
            );
        }
    }
    Ok(())
}

fn sync_in(host: &mut Host, snapshot: &str, from: &str, live: bool) -> (r: Result<(), Halt>)
    ensures
        ran(
            old(host)@,
            final(host)@,
            r,
            sync_in_script(old(host)@.build, snapshot@, from@, live),
        ),
{
    reveal(sync_in_script);
    free_or(host, snapshot, tree_in_use_text(snapshot))?;
    prepare(host, snapshot)?;
    host.done(
        Request::SyncTrees {
            from: from.to_owned(),
            to: snapshot.to_owned(),
            chr: "chr".to_owned(),
        },
    )?;
    sync_live(host, snapshot, live)?;
    post_transactions(host, snapshot)
}

fn install_one(host: &mut Host, snapshot: &str, pkg: &str, noconfirm: bool) -> (r: Result<(), Halt>)
    ensures
        ran(
            old(host)@,
            final(host)@,
            r,
            install_script(old(host)@.build, snapshot@, seq![pkg@], noconfirm),
        ),
{
    let pkgs = vec![pkg.to_owned()];
    assert(pkgs.deep_view() =~= seq![pkg@]);
    install(host, snapshot, &pkgs, noconfirm)
}

fn remove_one(host: &mut Host, snapshot: &str, pkg: &str, noconfirm: bool) -> (r: Result<(), Halt>)
    ensures
        ran(
            old(host)@,
            final(host)@,
            r,
            uninstall_script(old(host)@.build, snapshot@, seq![pkg@], noconfirm),
        ),
{
    let pkgs = vec![pkg.to_owned()];
    assert(pkgs.deep_view() =~= seq![pkg@]);
    uninstall(host, snapshot, &pkgs, noconfirm)
}

/// Does a job to a snapshot.
pub fn perform(host: &mut Host, job: &Job, snapshot: &str) -> (r: Result<(), Halt>)
    ensures
        ran(
            old(host)@,
            final(host)@,
            r,
            job_script(old(host)@.build, job.deep_view(), snapshot@),
        ),
{
    reveal(job_script);
    match job {
        Job::Install { pkg, noconfirm } => install_one(host, snapshot, pkg.as_str(), *noconfirm),
        Job::InstallProfile { profile, user_profile, force, secondary, noconfirm } => {
            let tried = attempt(
                install_profile(
                    host,
                    snapshot,
                    profile.as_str(),
                    *force,
                    *secondary,
                    user_profile.as_str(),
                    *noconfirm,
                ),
            )?;
            let failed = tried.is_err();
            profile_end(host, snapshot, failed, "Failed to install and changes discarded.")
        },
        Job::Remove { pkg, noconfirm } => remove_one(host, snapshot, pkg.as_str(), *noconfirm),
        Job::RemoveProfile { profile, user_profile, noconfirm } => {
            let tried = attempt(
                uninstall_profile(
                    host,
                    snapshot,
                    profile.as_str(),
                    user_profile.as_str(),
                    *noconfirm,
                ),
            )?;
            let failed = tried.is_err();
            profile_end(host, snapshot, failed, "Failed to remove and changes discarded.")
        },
        Job::Run { cmd } => run_in(host, snapshot, cmd.as_str()),
        Job::Upgrade => upgrade_in(host, snapshot),
        Job::Sync { from, live } => sync_in(host, snapshot, from.as_str(), *live),
    }
}

// ------------------------------------------------------------------ branches

/// Does a job to a branch of a tree, unless it is the tree's own snapshot.
pub open spec fn branch_step(build: Build, treename: Seq<char>, job: Task) -> spec_fn(
    Seq<char>,
) -> Script<()> {
    |branch: Seq<char>|
        if branch == treename {
            give(())
        } else {
            chain(
                say(treename + ", "@ + branch),
                |u: ()| job_script(build, job, branch),
            )
        }
}

/// Does a job to all snapshots under one.
#[verifier::opaque]
pub open spec fn branches_script(build: Build, t: u64, treename: Seq<char>, job: Task) -> Script<
    (),
> {
    chain(
        texts(Req::OrderOf { tree: t, name: treename }),
        |order: Seq<Seq<char>>| each(order, branch_step(build, treename, job)),
    )
}

/// Does a job to a snapshot and to all those under it.
#[verifier::opaque]
pub open spec fn spread_script(build: Build, t: u64, treename: Seq<char>, job: Task) -> Script<()> {
    chain(
        job_script(build, job, treename),
        |u: ()| branches_script(build, t, treename, job),
    )
}

/// `spread_script` for each of some jobs.
pub open spec fn spread_fn(build: Build, t: u64, treename: Seq<char>) -> spec_fn(Task) -> Script<()> {
    |job: Task| spread_script(build, t, treename, job)
}

fn each_branch(host: &mut Host, treename: &str, job: &Job, order: &Vec<String>) -> (r: Result<
    (),
    Halt,
>)
    ensures
        ran(
            old(host)@,
            final(host)@,
            r,
            each(
                order.deep_view(),
                branch_step(old(host)@.build, treename@, job.deep_view()),
            ),
        ),
{
    let ghost all = order.deep_view();
    let ghost build = host@.build;
    let ghost f = branch_step(build, treename@, job.deep_view());
    let mut i: usize = 0;
    assert(all.skip(0) =~= all);
    while i < order.len()
        invariant
            i <= order.len(),
            all == order.deep_view(),
            build == host@.build,
            build == old(host)@.build,
            f == branch_step(build, treename@, job.deep_view()),
            run(old(host)@, each(all, f)) == run(host@, each(all.skip(i as int), f)),
        decreases order.len() - i,
    {
        assert(all.skip(i as int).drop_first() =~= all.skip(i + 1));
        assert(all.skip(i as int)[0] == order[i as int]@);
        let branch = order[i].as_str();
        if !same(branch, treename) {
            host.say(cat3(treename, ", ", branch))?;
            perform(host, job, branch)?;
        }
        i += 1;
    }
    Ok(())
}

fn all_branches(host: &mut Host, t: u64, treename: &str, job: &Job) -> (r: Result<(), Halt>)
    ensures
        ran(
            old(host)@,
            final(host)@,
            r,
            branches_script(old(host)@.build, t, treename@, job.deep_view()),
        ),
{
    reveal(branches_script);
    let order = host.texts(Request::OrderOf { tree: t, name: treename.to_owned() })?;
    each_branch(host, treename, job, &order)
}

fn spread(host: &mut Host, t: u64, treename: &str, job: &Job) -> (r: Result<(), Halt>)
    ensures
        ran(
            old(host)@,
            final(host)@,
            r,
            spread_script(old(host)@.build, t, treename@, job.deep_view()),
        ),
{
    reveal(spread_script);
    perform(host, job, treename)?;
    all_branches(host, t, treename, job)
}

fn spread_each(host: &mut Host, t: u64, treename: &str, jobs: &Vec<Job>) -> (r: Result<(), Halt>)
    ensures
        ran(
            old(host)@,
            final(host)@,
            r,
            each(jobs.deep_view(), spread_fn(old(host)@.build, t, treename@)),
        ),
{
    let ghost all = jobs.deep_view();
    let ghost build = host@.build;
    let ghost f = spread_fn(build, t, treename@);
    let mut i: usize = 0;
    assert(all.skip(0) =~= all);
    while i < jobs.len()
        invariant
            i <= jobs.len(),
            all == jobs.deep_view(),
            build == host@.build,
            build == old(host)@.build,
            f == spread_fn(build, t, treename@),
            run(old(host)@, each(all, f)) == run(host@, each(all.skip(i as int), f)),
        decreases jobs.len() - i,
    {
        assert(all.skip(i as int).drop_first() =~= all.skip(i + 1));
        assert(all.skip(i as int)[0] == jobs[i as int].deep_view());
        spread(host, t, treename, &jobs[i])?;
        i += 1;
    }
    Ok(())
}

// --------------------------------------------------------------------- trees

/// The complaint about a tree that is not there.
pub open spec fn tree_missing(verb: Seq<char>, treename: Seq<char>) -> Seq<char> {
    "Cannot "@ + verb + " as tree "@ + treename + " doesn't exist."@
}

/// The jobs that install what was asked for: packages, else profiles, else the user's own.
pub open spec fn install_jobs(
    pkgs: Seq<Seq<char>>,
    profiles: Seq<Seq<char>>,
    force: bool,
    user_profiles: Seq<Seq<char>>,
    noconfirm: bool,
    secondary: bool,
) -> Seq<Task> {
    if pkgs.len() > 0 {
        Seq::new(pkgs.len(), |i: int| Task::Install { pkg: pkgs[i], noconfirm })
    } else if profiles.len() > 0 {
        Seq::new(
            profiles.len(),
            |i: int|
                Task::InstallProfile {
                    profile: profiles[i],
                    user_profile: ""@,
                    force,
                    secondary,
                    noconfirm,
                },
        )
    } else {
        Seq::new(
            user_profiles.len(),
            |i: int|
                Task::InstallProfile {
                    profile: ""@,
                    user_profile: user_profiles[i],
                    force,
                    secondary,
                    noconfirm,
                },
        )
    }
}

/// The jobs that remove what was asked for.
pub open spec fn remove_jobs(
    pkgs: Seq<Seq<char>>,
    profiles: Seq<Seq<char>>,
    user_profiles: Seq<Seq<char>>,
    noconfirm: bool,
) -> Seq<Task> {
    if pkgs.len() > 0 {
        Seq::new(pkgs.len(), |i: int| Task::Remove { pkg: pkgs[i], noconfirm })
    } else if profiles.len() > 0 {
        Seq::new(
            profiles.len(),
            |i: int|
                Task::RemoveProfile { profile: profiles[i], user_profile: ""@, noconfirm },
        )
    } else {
        Seq::new(
            user_profiles.len(),
            |i: int|
                Task::RemoveProfile { profile: ""@, user_profile: user_profiles[i], noconfirm },
        )
    }
}

/// Does jobs to a tree that is there.
#[verifier::opaque]
pub open spec fn tree_jobs_script(build: Build, treename: Seq<char>, jobs: Seq<Task>) -> Script<()> {
    chain(
        flag(Req::Exists { path: rootfs(treename) }),
        |there: bool|
            if !there {
                warn(tree_missing("remove"@, treename))
            } else {
                chain(
                    crate::script::sure(tree(Req::LoadTree)),
                    |t: u64| each(jobs, spread_fn(build, t, treename)),
                )
            },
    )
}

/// What `tree_install` does.
#[verifier::opaque]
pub open spec fn tree_install_script(
    build: Build,
    treename: Seq<char>,
    pkgs: Seq<Seq<char>>,
    profiles: Seq<Seq<char>>,
    force: bool,
    user_profiles: Seq<Seq<char>>,
    noconfirm: bool,
    secondary: bool,
) -> Script<()> {
    tree_jobs_script(
        build,
        treename,
        install_jobs(pkgs, profiles, force, user_profiles, noconfirm, secondary),
    )
}

/// What `tree_remove` does.
#[verifier::opaque]
pub open spec fn tree_remove_script(
    build: Build,
    treename: Seq<char>,
    pkgs: Seq<Seq<char>>,
    profiles: Seq<Seq<char>>,
    user_profiles: Seq<Seq<char>>,
    noconfirm: bool,
) -> Script<()> {
    tree_jobs_script(build, treename, remove_jobs(pkgs, profiles, user_profiles, noconfirm))
}

/// Fails where a tree is not there.
#[verifier::opaque]
pub open spec fn tree_there_script(verb: Seq<char>, treename: Seq<char>) -> Script<()> {
    chain(
        flag(Req::Exists { path: rootfs(treename) }),
        |there: bool|
            if there {
                give(())
            } else {
                fail(ErrorKind::NotFound, tree_missing(verb, treename))
            },
    )
}

/// Does a job to a tree, which is loaded only once its own snapshot is done.
#[verifier::opaque]
pub open spec fn tree_job_script(build: Build, treename: Seq<char>, job: Task) -> Script<()> {
    chain(
        tree_there_script("update"@, treename),
        |u: ()|
            chain(
                job_script(build, job, treename),
                |u: ()|
                    chain(
                        crate::script::sure(tree(Req::LoadTree)),
                        |t: u64| branches_script(build, t, treename, job),
                    ),
            ),
    )
}

/// What `tree_run` does.
#[verifier::opaque]
pub open spec fn tree_run_script(build: Build, treename: Seq<char>, cmd: Seq<char>) -> Script<()> {
    tree_job_script(build, treename, Task::Run { cmd })
}

/// What `tree_upgrade` does.
#[verifier::opaque]
pub open spec fn tree_upgrade_script(build: Build, treename: Seq<char>) -> Script<()> {
    tree_job_script(build, treename, Task::Upgrade)
}

/// Upgrades a tree before it is synchronised, unless that is ruled out.
#[verifier::opaque]
pub open spec fn first_upgrade_script(build: Build, treename: Seq<char>, force_offline: bool) -> Script<
    (),
> {
    if force_offline {
        give(())
    } else {
        chain(
            crate::script::attempt(tree_upgrade_script(build, treename)),
            |tried: Result<(), Fault>|
                match tried {
                    Ok(_) => give(()),
                    Err(_) => fail(
                        ErrorKind::Other,
                        "Failed to upgrade tree "@ + treename + "."@,
                    ),
                },
        )
    }
}

/// What `tree_sync` does.
#[verifier::opaque]
pub open spec fn tree_sync_script(
    build: Build,
    treename: Seq<char>,
    force_offline: bool,
    live: bool,
) -> Script<()> {
    chain(
        tree_there_script("sync"@, treename),
        |u: ()|
            chain(
                free_script(treename, tree_in_use(treename)),
                |u: ()|
                    chain(
                        first_upgrade_script(build, treename, force_offline),
                        |u: ()|
                            chain(
                                crate::script::sure(tree(Req::LoadTree)),
                                |t: u64|
                                    branches_script(
                                        build,
                                        t,
                                        treename,
                                        Task::Sync { from: treename, live },
                                    ),
                            ),
                    ),
            ),
    )
}

/// What `tree_show` does.
#[verifier::opaque]
pub open spec fn tree_show_script() -> Script<()> {
    chain(
        crate::script::sure(tree(Req::LoadTree)),
        |t: u64| done(Req::PrintTree { tree: t }),
    )
}

fn tree_missing_text(verb: &str, treename: &str) -> (r: String)
    ensures
        r@ == tree_missing(verb@, treename@),
{
    cat5("Cannot ", verb, " as tree ", treename, " doesn't exist.")
}

fn install_list(
    pkgs: &Vec<String>,
    profiles: &Vec<String>,
    force: bool,
    user_profiles: &Vec<String>,
    noconfirm: bool,
    secondary: bool,
) -> (r: Vec<Job>)
    ensures
        r.deep_view() == install_jobs(
            pkgs.deep_view(),
            profiles.deep_view(),
            force,
            user_profiles.deep_view(),
            noconfirm,
            secondary,
        ),
{
    let ghost said = install_jobs(
        pkgs.deep_view(),
        profiles.deep_view(),
        force,
        user_profiles.deep_view(),
        noconfirm,
        secondary,
    );
    let mut r: Vec<Job> = Vec::new();
    let own = pkgs.len() == 0 && profiles.len() == 0;
    let names = if pkgs.len() > 0 {
        pkgs
    } else if profiles.len() > 0 {
        profiles
    } else {
        user_profiles
    };
    let mut i: usize = 0;
    assert(said.len() == names.len());
    while i < names.len()
        invariant
            i <= names.len(),
            said.len() == names.len(),
            r.deep_view() =~= said.take(i as int),
            said == install_jobs(
                pkgs.deep_view(),
                profiles.deep_view(),
                force,
                user_profiles.deep_view(),
                noconfirm,
                secondary,
            ),
            own == (pkgs.len() == 0 && profiles.len() == 0),
            names == if pkgs.len() > 0 {
                pkgs
            } else if profiles.len() > 0 {
                profiles
            } else {
                user_profiles
            },
        decreases names.len() - i,
    {
        let ghost before = r.deep_view();
        let name = names[i].clone();
        assert(name@ == names.deep_view()[i as int]);
        if pkgs.len() > 0 {
            r.push(Job::Install { pkg: name, noconfirm });
        } else if own {
            r.push(
                Job::InstallProfile {
                    profile: "".to_owned(),
                    user_profile: name,
                    force,
                    secondary,
                    noconfirm,
                },
            );
        } else {
            r.push(
                Job::InstallProfile {
                    profile: name,
                    user_profile: "".to_owned(),
                    force,
                    secondary,
                    noconfirm,
                },
            );
        }
        assert(r.deep_view() =~= before.push(said[i as int]));
        i += 1;
    }
    assert(said.take(said.len() as int) =~= said);
    r
}

fn remove_list(
    pkgs: &Vec<String>,
    profiles: &Vec<String>,
    user_profiles: &Vec<String>,
    noconfirm: bool,
) -> (r: Vec<Job>)
    ensures
        r.deep_view() == remove_jobs(
            pkgs.deep_view(),
            profiles.deep_view(),
            user_profiles.deep_view(),
            noconfirm,
        ),
{
    let ghost said = remove_jobs(
        pkgs.deep_view(),
        profiles.deep_view(),
        user_profiles.deep_view(),
        noconfirm,
    );
    let mut r: Vec<Job> = Vec::new();
    let own = pkgs.len() == 0 && profiles.len() == 0;
    let names = if pkgs.len() > 0 {
        pkgs
    } else if profiles.len() > 0 {
        profiles
    } else {
        user_profiles
    };
    let mut i: usize = 0;
    assert(said.len() == names.len());
    while i < names.len()
        invariant
            i <= names.len(),
            said.len() == names.len(),
            r.deep_view() =~= said.take(i as int),
            said == remove_jobs(
                pkgs.deep_view(),
                profiles.deep_view(),
                user_profiles.deep_view(),
                noconfirm,
            ),
            own == (pkgs.len() == 0 && profiles.len() == 0),
            names == if pkgs.len() > 0 {
                pkgs
            } else if profiles.len() > 0 {
                profiles
            } else {
                user_profiles
            },
        decreases names.len() - i,
    {
        let ghost before = r.deep_view();
        let name = names[i].clone();
        assert(name@ == names.deep_view()[i as int]);
        if pkgs.len() > 0 {
            r.push(Job::Remove { pkg: name, noconfirm });
        } else if own {
            r.push(
                Job::RemoveProfile {
                    profile: "".to_owned(),
                    user_profile: name,
                    noconfirm,
                },
            );
        } else {
            r.push(
                Job::RemoveProfile {
                    profile: name,
                    user_profile: "".to_owned(),
                    noconfirm,
                },
            );
        }
        assert(r.deep_view() =~= before.push(said[i as int]));
        i += 1;
    }
    assert(said.take(said.len() as int) =~= said);
    r
}

fn tree_jobs(host: &mut Host, treename: &str, jobs: &Vec<Job>) -> (r: Result<(), Halt>)
    ensures
        ran(
            old(host)@,
            final(host)@,
            r,
            tree_jobs_script(old(host)@.build, treename@, jobs.deep_view()),
        ),
{
    reveal(tree_jobs_script);
    if !exists_at(host, rootfs_path(treename))? {
        host.warn(tree_missing_text("remove", treename))
    } else {
        let t = sure(host.tree(Request::LoadTree))?;
        spread_each(host, t, treename, jobs)
    }
}

/// Installs packages or profiles in a snapshot and in all those under it.
pub fn tree_install(
    host: &mut Host,
    treename: &str,
    pkgs: &Vec<String>,
    profiles: &Vec<String>,
    force: bool,
    user_profiles: &Vec<String>,
    noconfirm: bool,
    secondary: bool,
) -> (r: Result<(), Halt>)
    ensures
        ran(
            old(host)@,
            final(host)@,
            r,
            tree_install_script(
                old(host)@.build,
                treename@,
                pkgs.deep_view(),
                profiles.deep_view(),
                force,
                user_profiles.deep_view(),
                noconfirm,
                secondary,
            ),
        ),
{
    reveal(tree_install_script);
    let jobs = install_list(pkgs, profiles, force, user_profiles, noconfirm, secondary);
    tree_jobs(host, treename, &jobs)
}

/// Removes packages or profiles from a snapshot and from all those under it.
pub fn tree_remove(
    host: &mut Host,
    treename: &str,
    pkgs: &Vec<String>,
    profiles: &Vec<String>,
    user_profiles: &Vec<String>,
    noconfirm: bool,
) -> (r: Result<(), Halt>)
    ensures
        ran(
            old(host)@,
            final(host)@,
            r,
            tree_remove_script(
                old(host)@.build,
                treename@,
                pkgs.deep_view(),
                profiles.deep_view(),
                user_profiles.deep_view(),
                noconfirm,
            ),
        ),
{
    reveal(tree_remove_script);
    let jobs = remove_list(pkgs, profiles, user_profiles, noconfirm);
    tree_jobs(host, treename, &jobs)
}

fn tree_there(host: &mut Host, verb: &str, treename: &str) -> (r: Result<(), Halt>)
    ensures
        ran(old(host)@, final(host)@, r, tree_there_script(verb@, treename@)),
{
    reveal(tree_there_script);
    if exists_at(host, rootfs_path(treename))? {
        Ok(())
    } else {
        Err(failure(ErrorKind::NotFound, tree_missing_text(verb, treename)))
    }
}

fn tree_job(host: &mut Host, treename: &str, job: &Job) -> (r: Result<(), Halt>)
    ensures
        ran(
            old(host)@,
            final(host)@,
            r,
            tree_job_script(old(host)@.build, treename@, job.deep_view()),
        ),
{
    reveal(tree_job_script);
    tree_there(host, "update", treename)?;
    perform(host, job, treename)?;
    let t = sure(host.tree(Request::LoadTree))?;
    all_branches(host, t, treename, job)
}

/// Runs a command in a snapshot and in all those under it.
pub fn tree_run(host: &mut Host, treename: &str, cmd: &str) -> (r: Result<(), Halt>)
    ensures
        ran(old(host)@, final(host)@, r, tree_run_script(old(host)@.build, treename@, cmd@)),
{
    reveal(tree_run_script);
    tree_job(host, treename, &Job::Run { cmd: cmd.to_owned() })
}

/// Upgrades a snapshot and all those under it.
pub fn tree_upgrade(host: &mut Host, treename: &str) -> (r: Result<(), Halt>)
    ensures
        ran(old(host)@, final(host)@, r, tree_upgrade_script(old(host)@.build, treename@)),
{
    reveal(tree_upgrade_script);
    tree_job(host, treename, &Job::Upgrade)
}

fn first_upgrade(host: &mut Host, treename: &str, force_offline: bool) -> (r: Result<(), Halt>)
    ensures
        ran(
            old(host)@,
            final(host)@,
            r,
            first_upgrade_script(old(host)@.build, treename@, force_offline),
        ),
{
    reveal(first_upgrade_script);
    if force_offline {
        return Ok(());
    }
    match attempt(tree_upgrade(host, treename))? {
        Ok(_) => Ok(()),
        Err(_) => Err(
            failure(ErrorKind::Other, cat3("Failed to upgrade tree ", treename, ".")),
        ),
    }
}

/// Brings the packages of a snapshot over to all those under it.
pub fn tree_sync(host: &mut Host, treename: &str, force_offline: bool, live: bool) -> (r: Result<
    (),
    Halt,
>)
    ensures
        ran(
            old(host)@,
            final(host)@,
            r,
            tree_sync_script(old(host)@.build, treename@, force_offline, live),
        ),
{
    reveal(tree_sync_script);
    tree_there(host, "sync", treename)?;
    free_or(host, treename, tree_in_use_text(treename))?;
    first_upgrade(host, treename, force_offline)?;
    let t = sure(host.tree(Request::LoadTree))?;
    let job = Job::Sync { from: treename.to_owned(), live };
    all_branches(host, t, treename, &job)
}

/// Shows the tree of snapshots.
pub fn tree_show(host: &mut Host) -> (r: Result<(), Halt>)
    ensures
        ran(old(host)@, final(host)@, r, tree_show_script()),
{
    reveal(tree_show_script);
    let t = sure(host.tree(Request::LoadTree))?;
    host.done(Request::PrintTree { tree: t })
}

}
