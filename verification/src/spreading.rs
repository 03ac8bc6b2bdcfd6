//! What the operations on a snapshot and all that is below it in the tree come to.

use vstd::prelude::*;
use crate::chroots::{chroot_exec_script, post_transactions_script, prepare_script};
use crate::deployment::{get_current_snapshot_script, get_tmp_script};
use crate::handling::{installs, law_install, law_uninstall, uninstalls};
use crate::outcomes::{deeds, keeps, makes_ready, spares};
use crate::paths::{chr, rootfs};
use crate::placing::{law_get_tmp, tells};
use crate::record::{did, in_turn, others, record, record_each};
use crate::request::{Answer, Req};
use crate::script::{
    asks_only, attempt, done, each, flag, run, say, sure, texts, tree, Build, Session,
};
use crate::supplying::{
    asked_current, installs_profile, law_chroot_exec, law_install_profile, law_uninstall_profile,
    lemma_current, running_in, uninstalls_profile,
};
use crate::text::trimmed_end;
use crate::trees::{
    branch_step, branches_script, first_upgrade_script, free_script, install_jobs, job_script,
    profile_end_script, remove_jobs, run_in_script, spread_fn, spread_script, sync_in_script,
    sync_live_script, tree_install_script, tree_job_script, tree_jobs_script, tree_remove_script,
    tree_run_script, tree_sync_script, tree_there_script, tree_upgrade_script, upgrade_in_script,
    Task,
};

verus! {

/// A command was run in the temporary copy of a snapshot, which then took its place.
pub open spec fn runs_kept(d: Seq<(Req, Answer)>, snapshot: Seq<char>, cmd: Seq<char>) -> bool {
    exists|before: Seq<(Req, Answer)>, middle: Seq<(Req, Answer)>, after: Seq<(Req, Answer)>|
        #![trigger makes_ready(before, snapshot), keeps(after, snapshot), before + middle]
        makes_ready(before, snapshot) && keeps(after, snapshot) && running_in(
            rootfs(chr(snapshot)),
        )(middle, cmd) && d == before + middle + after
}

/// Where the snapshot is the one that runs, it was synchronised to the deployment that runs, if
/// that was asked for.
pub open spec fn synced_live(d: Seq<(Req, Answer)>, snapshot: Seq<char>, live: bool) -> bool {
    if live {
        exists|note: Seq<char>| #[trigger] synced_as(d, snapshot, note)
    } else {
        d.len() == 0
    }
}

/// The same, where it is noted which snapshot runs.
pub open spec fn synced_as(d: Seq<(Req, Answer)>, snapshot: Seq<char>, note: Seq<char>) -> bool {
    if trimmed_end(note) == snapshot {
        exists|running: Seq<(Req, Answer)>, tmp: Seq<char>|
            #[trigger] tells(running, tmp) && d == asked_current(note) + running + did(
                seq![Req::SyncTrees { from: snapshot, to: tmp, chr: ""@ }],
            )
    } else {
        d == asked_current(note)
    }
}

/// A snapshot was synchronised with another one in its temporary copy, which then took its place.
pub open spec fn syncs(
    d: Seq<(Req, Answer)>,
    snapshot: Seq<char>,
    from: Seq<char>,
    live: bool,
) -> bool {
    exists|before: Seq<(Req, Answer)>, middle: Seq<(Req, Answer)>, after: Seq<(Req, Answer)>|
        #![trigger makes_ready(before, snapshot), synced_live(middle, snapshot, live), keeps(after, snapshot)]
        makes_ready(before, snapshot) && synced_live(middle, snapshot, live) && keeps(
            after,
            snapshot,
        ) && d == before + did(seq![Req::SyncTrees { from, to: snapshot, chr: "chr"@ }]) + middle
            + after
}

/// What a task does to a snapshot.
pub open spec fn performs(d: Seq<(Req, Answer)>, build: Build, job: Task, snapshot: Seq<char>) -> bool {
    match job {
        Task::Install { pkg, noconfirm } => installs(d, snapshot, seq![pkg], noconfirm),
        Task::InstallProfile { profile, user_profile, force, secondary, noconfirm } => exists|
            first: Seq<(Req, Answer)>,
            after: Seq<(Req, Answer)>,
        |
            #[trigger] installs_profile(
                first,
                build,
                snapshot,
                profile,
                force,
                user_profile,
                noconfirm,
            ) && #[trigger] keeps(after, snapshot) && d == first + after,
        Task::Remove { pkg, noconfirm } => uninstalls(d, snapshot, seq![pkg], noconfirm),
        Task::RemoveProfile { profile, user_profile, noconfirm } => exists|
            first: Seq<(Req, Answer)>,
            after: Seq<(Req, Answer)>,
        |
            #[trigger] uninstalls_profile(first, snapshot, profile, user_profile, noconfirm)
                && #[trigger] keeps(after, snapshot) && d == first + after,
        Task::Run { cmd } => runs_kept(d, snapshot, cmd),
        Task::Upgrade => d == did(seq![Req::AutoUpgrade { snapshot }]),
        Task::Sync { from, live } => syncs(d, snapshot, from, live),
    }
}

proof fn lemma_free(snapshot: Seq<char>, complaint: Seq<char>)
    ensures
        asks_only(free_script(snapshot, complaint), others(deeds())),
{
    broadcast use crate::script::group_asks;

    reveal(free_script);
}

proof fn lemma_run_in(s: Session, build: Build, snapshot: Seq<char>, cmd: Seq<char>)
    requires
        run(s, run_in_script(build, snapshot, cmd)).out is Ok,
    ensures
        runs_kept(record(s, run_in_script(build, snapshot, cmd), deeds()), snapshot, cmd),
{
    broadcast use {crate::outcomes::group_outcomes, crate::record::group_ok};

    assert(spares(deeds()));
    let p = run_in_script(build, snapshot, cmd);
    let free = free_script(snapshot, crate::trees::tree_in_use(snapshot));
    reveal(run_in_script);
    lemma_free(snapshot, crate::trees::tree_in_use(snapshot));
    assert(record(s, p, deeds()).len() >= 0);
    let t = run(s, free).now;
    let before = record(t, prepare_script(build, snapshot), deeds());
    let t = run(t, prepare_script(build, snapshot)).now;
    let exec = chroot_exec_script(rootfs(chr(snapshot)), cmd);
    law_chroot_exec(t, rootfs(chr(snapshot)), cmd);
    let middle = record(t, exec, deeds());
    let t = run(t, exec).now;
    let after = record(t, post_transactions_script(build, snapshot), deeds());
    assert(makes_ready(before, snapshot) && keeps(after, snapshot));
    assert(record(s, p, deeds()) =~= before + middle + after);
}

proof fn lemma_upgrade_in(s: Session, snapshot: Seq<char>)
    requires
        run(s, upgrade_in_script(snapshot)).out is Ok,
    ensures
        record(s, upgrade_in_script(snapshot), deeds()) == did(seq![Req::AutoUpgrade { snapshot }]),
{
    broadcast use crate::record::group_ok;

    let p = upgrade_in_script(snapshot);
    reveal(upgrade_in_script);
    lemma_free(snapshot, crate::guard::in_use(snapshot));
    assert(record(s, p, deeds()).len() >= 0);
    let t = run(s, free_script(snapshot, crate::guard::in_use(snapshot))).now;
    let order = Req::AutoUpgrade { snapshot };
    assert(run(t, attempt(done(order))).out->Ok_0 is Ok);
    assert(record(s, p, deeds()) =~= did(seq![order]));
}

proof fn lemma_sync_live(s: Session, snapshot: Seq<char>, live: bool)
    requires
        run(s, sync_live_script(snapshot, live)).out is Ok,
    ensures
        synced_live(record(s, sync_live_script(snapshot, live), deeds()), snapshot, live),
{
    broadcast use crate::record::group_ok;

    let p = sync_live_script(snapshot, live);
    reveal(sync_live_script);
    let d = record(s, p, deeds());
    assert(d.len() >= 0);
    if live {
        reveal_strlit("/usr/share/ash/snap");
        lemma_current(s, deeds());
        let note = s.next()->Text_0;
        let t = run(s, get_current_snapshot_script()).now;
        if trimmed_end(note) == snapshot {
            law_get_tmp(t);
            let running = record(t, get_tmp_script(), deeds());
            let tmp = run(t, get_tmp_script()).out->Ok_0;
            assert(tells(running, tmp));
            assert(d =~= asked_current(note) + running + did(
                seq![Req::SyncTrees { from: snapshot, to: tmp, chr: ""@ }],
            ));
        } else {
            assert(d =~= asked_current(note));
        }
        assert(synced_as(d, snapshot, note));
    }
}

proof fn lemma_sync_in(s: Session, build: Build, snapshot: Seq<char>, from: Seq<char>, live: bool)
    requires
        run(s, sync_in_script(build, snapshot, from, live)).out is Ok,
    ensures
        syncs(record(s, sync_in_script(build, snapshot, from, live), deeds()), snapshot, from, live),
{
    broadcast use {crate::outcomes::group_outcomes, crate::record::group_ok};

    assert(spares(deeds()));
    let p = sync_in_script(build, snapshot, from, live);
    let free = free_script(snapshot, crate::trees::tree_in_use(snapshot));
    reveal(sync_in_script);
    lemma_free(snapshot, crate::trees::tree_in_use(snapshot));
    assert(record(s, p, deeds()).len() >= 0);
    let t = run(s, free).now;
    let before = record(t, prepare_script(build, snapshot), deeds());
    let t = run(t, prepare_script(build, snapshot)).now;
    let order = Req::SyncTrees { from, to: snapshot, chr: "chr"@ };
    let t = run(t, done(order)).now;
    lemma_sync_live(t, snapshot, live);
    let middle = record(t, sync_live_script(snapshot, live), deeds());
    let t = run(t, sync_live_script(snapshot, live)).now;
    let after = record(t, post_transactions_script(build, snapshot), deeds());
    assert(makes_ready(before, snapshot) && synced_live(middle, snapshot, live) && keeps(
        after,
        snapshot,
    ));
    assert(record(s, p, deeds()) =~= before + did(seq![order]) + middle + after);
}

proof fn lemma_profile_end(s: Session, build: Build, snapshot: Seq<char>, bad: bool, complaint: Seq<char>)
    requires
        run(s, profile_end_script(build, snapshot, bad, complaint)).out is Ok,
    ensures
        !bad,
        keeps(record(s, profile_end_script(build, snapshot, bad, complaint), deeds()), snapshot),
{
    broadcast use {crate::outcomes::ok_post_transactions, crate::record::group_ok};

    reveal(profile_end_script);
    assert(record(s, profile_end_script(build, snapshot, bad, complaint), deeds()).len() >= 0);
}

/// A task that succeeds on a snapshot does what it says to that snapshot.
pub proof fn law_job(s: Session, build: Build, job: Task, snapshot: Seq<char>)
    ensures
        run(s, job_script(build, job, snapshot)).out is Ok ==> performs(
            record(s, job_script(build, job, snapshot), deeds()),
            build,
            job,
            snapshot,
        ),
{
    let p = job_script(build, job, snapshot);
    reveal(job_script);
    if run(s, p).out is Ok {
        match job {
            Task::Install { pkg, noconfirm } => {
                law_install(s, build, snapshot, seq![pkg], noconfirm);
            },
            Task::InstallProfile { profile, user_profile, force, secondary, noconfirm } => {
                lemma_install_profile_job(
                    s,
                    build,
                    snapshot,
                    profile,
                    user_profile,
                    force,
                    secondary,
                    noconfirm,
                );
            },
            Task::Remove { pkg, noconfirm } => {
                law_uninstall(s, build, snapshot, seq![pkg], noconfirm);
            },
            Task::RemoveProfile { profile, user_profile, noconfirm } => {
                lemma_uninstall_profile_job(s, build, snapshot, profile, user_profile, noconfirm);
            },
            Task::Run { cmd } => {
                lemma_run_in(s, build, snapshot, cmd);
            },
            Task::Upgrade => {
                lemma_upgrade_in(s, snapshot);
            },
            Task::Sync { from, live } => {
                lemma_sync_in(s, build, snapshot, from, live);
            },
        }
    }
}

proof fn lemma_install_profile_job(
    s: Session,
    build: Build,
    snapshot: Seq<char>,
    profile: Seq<char>,
    user_profile: Seq<char>,
    force: bool,
    secondary: bool,
    noconfirm: bool,
)
    requires
        run(
            s,
            job_script(
                build,
                Task::InstallProfile { profile, user_profile, force, secondary, noconfirm },
                snapshot,
            ),
        ).out is Ok,
    ensures
        performs(
            record(
                s,
                job_script(
                    build,
                    Task::InstallProfile { profile, user_profile, force, secondary, noconfirm },
                    snapshot,
                ),
                deeds(),
            ),
            build,
            Task::InstallProfile { profile, user_profile, force, secondary, noconfirm },
            snapshot,
        ),
{
    broadcast use crate::record::group_ok;

    let job = Task::InstallProfile { profile, user_profile, force, secondary, noconfirm };
    let p = job_script(build, job, snapshot);
    reveal(job_script);
    assert(record(s, p, deeds()).len() >= 0);
    let q = crate::packages::install_profile_script(
        build,
        snapshot,
        profile,
        force,
        secondary,
        user_profile,
        noconfirm,
    );
    let t = run(s, attempt(q)).now;
    let bad = run(s, attempt(q)).out->Ok_0 is Err;
    let complaint = "Failed to install and changes discarded."@;
    lemma_profile_end(t, build, snapshot, bad, complaint);
    law_install_profile(
        s,
        build,
        snapshot,
        profile,
        force,
        secondary,
        user_profile,
        noconfirm,
    );
    let first = record(s, q, deeds());
    let after = record(t, profile_end_script(build, snapshot, bad, complaint), deeds());
    assert(installs_profile(first, build, snapshot, profile, force, user_profile, noconfirm));
    assert(keeps(after, snapshot));
    assert(record(s, p, deeds()) =~= first + after);
}

proof fn lemma_uninstall_profile_job(
    s: Session,
    build: Build,
    snapshot: Seq<char>,
    profile: Seq<char>,
    user_profile: Seq<char>,
    noconfirm: bool,
)
    requires
        run(
            s,
            job_script(
                build,
                Task::RemoveProfile { profile, user_profile, noconfirm },
                snapshot,
            ),
        ).out is Ok,
    ensures
        performs(
            record(
                s,
                job_script(
                    build,
                    Task::RemoveProfile { profile, user_profile, noconfirm },
                    snapshot,
                ),
                deeds(),
            ),
            build,
            Task::RemoveProfile { profile, user_profile, noconfirm },
            snapshot,
        ),
{
    broadcast use crate::record::group_ok;

    let job = Task::RemoveProfile { profile, user_profile, noconfirm };
    let p = job_script(build, job, snapshot);
    reveal(job_script);
    assert(record(s, p, deeds()).len() >= 0);
    let q = crate::packages::uninstall_profile_script(
        build,
        snapshot,
        profile,
        user_profile,
        noconfirm,
    );
    let t = run(s, attempt(q)).now;
    let bad = run(s, attempt(q)).out->Ok_0 is Err;
    let complaint = "Failed to remove and changes discarded."@;
    lemma_profile_end(t, build, snapshot, bad, complaint);
    law_uninstall_profile(s, build, snapshot, profile, user_profile, noconfirm);
    let first = record(s, q, deeds());
    let after = record(t, profile_end_script(build, snapshot, bad, complaint), deeds());
    assert(uninstalls_profile(first, snapshot, profile, user_profile, noconfirm));
    assert(keeps(after, snapshot));
    assert(record(s, p, deeds()) =~= first + after);
}

/// A task was announced and done for one snapshot of a tree. The one that the tree is named by is
/// left out.
pub open spec fn at_branch(
    d: Seq<(Req, Answer)>,
    build: Build,
    treename: Seq<char>,
    job: Task,
    branch: Seq<char>,
) -> bool {
    if branch == treename {
        d.len() == 0
    } else {
        exists|rest: Seq<(Req, Answer)>|
            #[trigger] performs(rest, build, job, branch) && d == did(
                seq![Req::Print { text: treename + ", "@ + branch }],
            ) + rest
    }
}

/// The same, as a demand on a record and a snapshot.
pub open spec fn branching(build: Build, treename: Seq<char>, job: Task) -> spec_fn(
    Seq<(Req, Answer)>,
    Seq<char>,
) -> bool {
    |d: Seq<(Req, Answer)>, branch: Seq<char>| at_branch(d, build, treename, job, branch)
}

/// It was asked in which order the snapshots of a tree come.
pub open spec fn ordered(t: u64, treename: Seq<char>, order: Seq<Seq<char>>) -> Seq<(Req, Answer)> {
    seq![(Req::OrderOf { tree: t, name: treename }, Answer::Texts(order))]
}

/// A task was done for each snapshot below one, in the order of the tree.
pub open spec fn spreads(
    d: Seq<(Req, Answer)>,
    build: Build,
    t: u64,
    treename: Seq<char>,
    job: Task,
) -> bool {
    exists|order: Seq<Seq<char>>, rest: Seq<(Req, Answer)>|
        #[trigger] in_turn(rest, order, branching(build, treename, job)) && d == ordered(
            t,
            treename,
            order,
        ) + rest
}

proof fn lemma_branches(s: Session, build: Build, t: u64, treename: Seq<char>, job: Task)
    requires
        run(s, branches_script(build, t, treename, job)).out is Ok,
    ensures
        spreads(
            record(s, branches_script(build, t, treename, job), deeds()),
            build,
            t,
            treename,
            job,
        ),
{
    broadcast use crate::record::group_ok;

    let p = branches_script(build, t, treename, job);
    reveal(branches_script);
    assert(record(s, p, deeds()).len() >= 0);
    let order = s.next()->Texts_0;
    let u = run(s, texts(Req::OrderOf { tree: t, name: treename })).now;
    let f = branch_step(build, treename, job);
    assert forall|v: Session, x: Seq<char>| run(v, f(x)).out is Ok implies branching(
        build,
        treename,
        job,
    )(#[trigger] record(v, f(x), deeds()), x) by {
        lemma_branch_step(v, build, treename, job, x);
    }
    record_each(u, order, f, deeds(), branching(build, treename, job));
    let rest = record(u, each(order, f), deeds());
    assert(record(s, p, deeds()) =~= ordered(t, treename, order) + rest);
}

proof fn lemma_branch_step(s: Session, build: Build, treename: Seq<char>, job: Task, branch: Seq<char>)
    requires
        run(s, branch_step(build, treename, job)(branch)).out is Ok,
    ensures
        at_branch(
            record(s, branch_step(build, treename, job)(branch), deeds()),
            build,
            treename,
            job,
            branch,
        ),
{
    broadcast use crate::record::group_ok;

    let p = branch_step(build, treename, job)(branch);
    assert(record(s, p, deeds()).len() >= 0);
    if branch != treename {
        let t = run(s, say(treename + ", "@ + branch)).now;
        law_job(t, build, job, branch);
        let rest = record(t, job_script(build, job, branch), deeds());
        assert(performs(rest, build, job, branch));
        assert(record(s, p, deeds()) =~= did(
            seq![Req::Print { text: treename + ", "@ + branch }],
        ) + rest);
    }
}

/// A task was done for a snapshot, and then for each one below it.
pub open spec fn everywhere(
    d: Seq<(Req, Answer)>,
    build: Build,
    t: u64,
    treename: Seq<char>,
    job: Task,
) -> bool {
    exists|own: Seq<(Req, Answer)>, rest: Seq<(Req, Answer)>|
        #[trigger] performs(own, build, job, treename) && #[trigger] spreads(
            rest,
            build,
            t,
            treename,
            job,
        ) && d == own + rest
}

/// The same, as a demand on a record and a task.
pub open spec fn all_over(build: Build, t: u64, treename: Seq<char>) -> spec_fn(
    Seq<(Req, Answer)>,
    Task,
) -> bool {
    |d: Seq<(Req, Answer)>, job: Task| everywhere(d, build, t, treename, job)
}

proof fn lemma_spread(s: Session, build: Build, t: u64, treename: Seq<char>, job: Task)
    requires
        run(s, spread_script(build, t, treename, job)).out is Ok,
    ensures
        everywhere(
            record(s, spread_script(build, t, treename, job), deeds()),
            build,
            t,
            treename,
            job,
        ),
{
    broadcast use crate::record::group_ok;

    let p = spread_script(build, t, treename, job);
    reveal(spread_script);
    assert(record(s, p, deeds()).len() >= 0);
    law_job(s, build, job, treename);
    let own = record(s, job_script(build, job, treename), deeds());
    let u = run(s, job_script(build, job, treename)).now;
    lemma_branches(u, build, t, treename, job);
    let rest = record(u, branches_script(build, t, treename, job), deeds());
    assert(performs(own, build, job, treename) && spreads(rest, build, t, treename, job));
    assert(record(s, p, deeds()) =~= own + rest);
}

/// The tree was loaded.
pub open spec fn tree_loaded(t: u64) -> Seq<(Req, Answer)> {
    seq![(Req::LoadTree, Answer::Tree(t))]
}

/// The tasks were done one after the other, each for a snapshot and for each one below it; or
/// there is only a warning that the snapshot is not there.
pub open spec fn all_jobs(
    d: Seq<(Req, Answer)>,
    build: Build,
    treename: Seq<char>,
    jobs: Seq<Task>,
) -> bool {
    ||| d == did(
        seq![
            Req::Eprint { text: "Cannot "@ + "remove"@ + " as tree "@ + treename + " doesn't exist."@ },
        ],
    )
    ||| exists|t: u64, rest: Seq<(Req, Answer)>|
        #[trigger] in_turn(rest, jobs, all_over(build, t, treename)) && d == tree_loaded(t) + rest
}

proof fn lemma_tree_jobs(s: Session, build: Build, treename: Seq<char>, jobs: Seq<Task>)
    requires
        run(s, tree_jobs_script(build, treename, jobs)).out is Ok,
    ensures
        all_jobs(
            record(s, tree_jobs_script(build, treename, jobs), deeds()),
            build,
            treename,
            jobs,
        ),
{
    broadcast use crate::record::group_ok;

    let p = tree_jobs_script(build, treename, jobs);
    reveal(tree_jobs_script);
    let d = record(s, p, deeds());
    assert(d.len() >= 0);
    let u = run(s, flag(Req::Exists { path: rootfs(treename) })).now;
    if s.next() == Answer::Flag(true) {
        let t = u.next()->Tree_0;
        let u = run(u, sure(tree(Req::LoadTree))).now;
        let f = spread_fn(build, t, treename);
        assert forall|v: Session, x: Task| run(v, f(x)).out is Ok implies all_over(
            build,
            t,
            treename,
        )(#[trigger] record(v, f(x), deeds()), x) by {
            lemma_spread(v, build, t, treename, x);
        }
        record_each(u, jobs, f, deeds(), all_over(build, t, treename));
        let rest = record(u, each(jobs, f), deeds());
        assert(d =~= tree_loaded(t) + rest);
    } else {
        assert(d =~= did(
            seq![
                Req::Eprint { text: "Cannot "@ + "remove"@ + " as tree "@ + treename + " doesn't exist."@ },
            ],
        ));
    }
}

/// A `tree_install` that succeeds installs each of the packages, and where none is given each of
/// the profiles, and where none of these is given each of the profiles of the user, in the
/// snapshot and in each one below it, with the given confirmation and force.
pub proof fn law_tree_install(
    s: Session,
    build: Build,
    treename: Seq<char>,
    pkgs: Seq<Seq<char>>,
    profiles: Seq<Seq<char>>,
    force: bool,
    user_profiles: Seq<Seq<char>>,
    noconfirm: bool,
    secondary: bool,
)
    ensures
        ({
            let p = tree_install_script(
                build,
                treename,
                pkgs,
                profiles,
                force,
                user_profiles,
                noconfirm,
                secondary,
            );
            run(s, p).out is Ok ==> all_jobs(
                record(s, p, deeds()),
                build,
                treename,
                if pkgs.len() > 0 {
                    pkgs.map_values(|pkg: Seq<char>| Task::Install { pkg, noconfirm })
                } else if profiles.len() > 0 {
                    profiles.map_values(
                        |profile: Seq<char>|
                            Task::InstallProfile {
                                profile,
                                user_profile: ""@,
                                force,
                                secondary,
                                noconfirm,
                            },
                    )
                } else {
                    user_profiles.map_values(
                        |user_profile: Seq<char>|
                            Task::InstallProfile {
                                profile: ""@,
                                user_profile,
                                force,
                                secondary,
                                noconfirm,
                            },
                    )
                },
            )
        }),
{
    reveal(tree_install_script);
    let jobs = install_jobs(pkgs, profiles, force, user_profiles, noconfirm, secondary);
    if run(s, tree_jobs_script(build, treename, jobs)).out is Ok {
        lemma_tree_jobs(s, build, treename, jobs);
        if pkgs.len() > 0 {
            assert(jobs =~= pkgs.map_values(|pkg: Seq<char>| Task::Install { pkg, noconfirm }));
        } else if profiles.len() > 0 {
            assert(jobs =~= profiles.map_values(
                |profile: Seq<char>|
                    Task::InstallProfile {
                        profile,
                        user_profile: ""@,
                        force,
                        secondary,
                        noconfirm,
                    },
            ));
        } else {
            assert(jobs =~= user_profiles.map_values(
                |user_profile: Seq<char>|
                    Task::InstallProfile {
                        profile: ""@,
                        user_profile,
                        force,
                        secondary,
                        noconfirm,
                    },
            ));
        }
    }
}

/// A `tree_remove` that succeeds removes each of the packages, and where none is given each of
/// the profiles, and where none of these is given each of the profiles of the user, from the
/// snapshot and from each one below it, with the given confirmation.
pub proof fn law_tree_remove(
    s: Session,
    build: Build,
    treename: Seq<char>,
    pkgs: Seq<Seq<char>>,
    profiles: Seq<Seq<char>>,
    user_profiles: Seq<Seq<char>>,
    noconfirm: bool,
)
    ensures
        ({
            let p = tree_remove_script(build, treename, pkgs, profiles, user_profiles, noconfirm);
            run(s, p).out is Ok ==> all_jobs(
                record(s, p, deeds()),
                build,
                treename,
                if pkgs.len() > 0 {
                    pkgs.map_values(|pkg: Seq<char>| Task::Remove { pkg, noconfirm })
                } else if profiles.len() > 0 {
                    profiles.map_values(
                        |profile: Seq<char>|
                            Task::RemoveProfile { profile, user_profile: ""@, noconfirm },
                    )
                } else {
                    user_profiles.map_values(
                        |user_profile: Seq<char>|
                            Task::RemoveProfile { profile: ""@, user_profile, noconfirm },
                    )
                },
            )
        }),
{
    reveal(tree_remove_script);
    let jobs = remove_jobs(pkgs, profiles, user_profiles, noconfirm);
    if run(s, tree_jobs_script(build, treename, jobs)).out is Ok {
        lemma_tree_jobs(s, build, treename, jobs);
        if pkgs.len() > 0 {
            assert(jobs =~= pkgs.map_values(|pkg: Seq<char>| Task::Remove { pkg, noconfirm }));
        } else if profiles.len() > 0 {
            assert(jobs =~= profiles.map_values(
                |profile: Seq<char>|
                    Task::RemoveProfile { profile, user_profile: ""@, noconfirm },
            ));
        } else {
            assert(jobs =~= user_profiles.map_values(
                |user_profile: Seq<char>|
                    Task::RemoveProfile { profile: ""@, user_profile, noconfirm },
            ));
        }
    }
}

/// A task was done for a snapshot; then the tree was loaded, and the task was done for each one
/// below it.
pub open spec fn grown_over(
    d: Seq<(Req, Answer)>,
    build: Build,
    treename: Seq<char>,
    job: Task,
) -> bool {
    exists|own: Seq<(Req, Answer)>, t: u64, rest: Seq<(Req, Answer)>|
        #[trigger] performs(own, build, job, treename) && #[trigger] spreads(
            rest,
            build,
            t,
            treename,
            job,
        ) && d == own + tree_loaded(t) + rest
}

proof fn lemma_there(verb: Seq<char>, treename: Seq<char>)
    ensures
        asks_only(tree_there_script(verb, treename), others(deeds())),
{
    broadcast use crate::script::group_asks;

    reveal(tree_there_script);
}

proof fn lemma_tree_job(s: Session, build: Build, treename: Seq<char>, job: Task)
    requires
        run(s, tree_job_script(build, treename, job)).out is Ok,
    ensures
        grown_over(
            record(s, tree_job_script(build, treename, job), deeds()),
            build,
            treename,
            job,
        ),
{
    broadcast use crate::record::group_ok;

    let p = tree_job_script(build, treename, job);
    reveal(tree_job_script);
    lemma_there("update"@, treename);
    assert(record(s, p, deeds()).len() >= 0);
    let u = run(s, tree_there_script("update"@, treename)).now;
    law_job(u, build, job, treename);
    let own = record(u, job_script(build, job, treename), deeds());
    let u = run(u, job_script(build, job, treename)).now;
    let t = u.next()->Tree_0;
    let u = run(u, sure(tree(Req::LoadTree))).now;
    lemma_branches(u, build, t, treename, job);
    let rest = record(u, branches_script(build, t, treename, job), deeds());
    assert(performs(own, build, job, treename) && spreads(rest, build, t, treename, job));
    assert(record(s, p, deeds()) =~= own + tree_loaded(t) + rest);
}

/// A `tree_run` that succeeds runs the command in the snapshot and in each one below it.
pub proof fn law_tree_run(s: Session, build: Build, treename: Seq<char>, cmd: Seq<char>)
    ensures
        run(s, tree_run_script(build, treename, cmd)).out is Ok ==> grown_over(
            record(s, tree_run_script(build, treename, cmd), deeds()),
            build,
            treename,
            Task::Run { cmd },
        ),
{
    reveal(tree_run_script);
    if run(s, tree_run_script(build, treename, cmd)).out is Ok {
        lemma_tree_job(s, build, treename, Task::Run { cmd });
    }
}

/// A `tree_upgrade` that succeeds upgrades the packages of the snapshot and of each one below it.
pub proof fn law_tree_upgrade(s: Session, build: Build, treename: Seq<char>)
    ensures
        run(s, tree_upgrade_script(build, treename)).out is Ok ==> grown_over(
            record(s, tree_upgrade_script(build, treename), deeds()),
            build,
            treename,
            Task::Upgrade,
        ),
{
    reveal(tree_upgrade_script);
    if run(s, tree_upgrade_script(build, treename)).out is Ok {
        lemma_tree_job(s, build, treename, Task::Upgrade);
    }
}

/// A `tree_sync` that succeeds upgrades the tree, unless it is to stay offline, and then
/// synchronises each snapshot below the given one with that one.
pub proof fn law_tree_sync(
    s: Session,
    build: Build,
    treename: Seq<char>,
    force_offline: bool,
    live: bool,
)
    ensures
        run(s, tree_sync_script(build, treename, force_offline, live)).out is Ok ==> exists|
            first: Seq<(Req, Answer)>,
            t: u64,
            rest: Seq<(Req, Answer)>,
        |
            record(s, tree_sync_script(build, treename, force_offline, live), deeds())
                == #[trigger] (first + tree_loaded(t)) + rest && #[trigger] spreads(
                rest,
                build,
                t,
                treename,
                Task::Sync { from: treename, live },
            ) && (if force_offline {
                first.len() == 0
            } else {
                grown_over(first, build, treename, Task::Upgrade)
            }),
{
    broadcast use crate::record::group_ok;

    let p = tree_sync_script(build, treename, force_offline, live);
    reveal(tree_sync_script);
    reveal(first_upgrade_script);
    if run(s, p).out is Ok {
        lemma_there("sync"@, treename);
        lemma_free(treename, crate::trees::tree_in_use(treename));
        assert(record(s, p, deeds()).len() >= 0);
        let u = run(s, tree_there_script("sync"@, treename)).now;
        let u = run(u, free_script(treename, crate::trees::tree_in_use(treename))).now;
        let up = first_upgrade_script(build, treename, force_offline);
        let first = record(u, up, deeds());
        assert(first.len() >= 0);
        if !force_offline {
            assert(run(u, attempt(tree_upgrade_script(build, treename))).out->Ok_0 is Ok);
            law_tree_upgrade(u, build, treename);
            assert(first =~= record(u, tree_upgrade_script(build, treename), deeds()));
        }
        let u = run(u, up).now;
        let t = u.next()->Tree_0;
        let u = run(u, sure(tree(Req::LoadTree))).now;
        let job = Task::Sync { from: treename, live };
        lemma_branches(u, build, t, treename, job);
        let rest = record(u, branches_script(build, t, treename, job), deeds());
        assert(record(s, p, deeds()) =~= (first + tree_loaded(t)) + rest);
    }
}

}
