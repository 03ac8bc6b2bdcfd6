//! What is refused, and what becomes of a temporary copy when the work in it fails.

use vstd::prelude::*;
use crate::chroots::{chr_delete_script, prepare_script};
use crate::deployment::{deploy_beside, deploy_script, get_tmp_script};
use crate::editing::{
    apply_edit_script, chroot_script, edit_config_script, edit_profile_script,
    snapshot_config_edit_script, snapshot_profile_edit_script,
};
use crate::exchange::{import_guard_script, import_script};
use crate::guard::{guard_script, ready_script};
use crate::packages::{
    install_end_script, install_profile_script, install_script, refresh_end_script,
    refresh_run_script, refresh_script, uninstall_end_script, uninstall_profile_script,
    uninstall_script, upgrade_end_script, upgrade_guard_script, upgrade_script,
};
use crate::paths::{chr, rootfs};
use crate::placing::all_of_it;
use crate::profiles::check_profile_script;
use crate::rebuild::{
    hollow_script, rebuild_base_script, rebuild_guard_script, rebuild_prep_script, rebuild_script,
};
use crate::record::{did, got, record};
use crate::request::{Answer, ErrorKind, Fault, Req};
use crate::script::{chain, flag, run, sure, warn, Build, Halted, Run, Script, Session, Stop};
use crate::system::sync_time_script;
use crate::text::decimal;

verus! {

/// It was asked whether something is there.
pub open spec fn asked_of(path: Seq<char>, there: bool) -> (Req, Answer) {
    (Req::Exists { path }, Answer::Flag(there))
}

/// The fault with which an operation refuses.
pub open spec fn fault(kind: ErrorKind, text: Seq<char>) -> Fault {
    Fault { kind, text }
}

/// The record ends with a request that failed with this fault.
pub open spec fn broke(d: Seq<(Req, Answer)>, f: Fault) -> bool {
    d.len() > 0 && d.last().1 == Answer::Failed(f)
}

/// What is said of a snapshot that is in use.
pub open spec fn busy_text(snapshot: Seq<char>) -> Seq<char> {
    "Snapshot "@ + snapshot
        + " appears to be in use. If you're certain it's not in use, clear lock with 'ash unlock -s "@
        + snapshot + "'."@
}

/// A guarded operation goes on exactly where the snapshot is there, its temporary copy is not, and
/// it is not the base snapshot. It is refused exactly where one of these does not hold, and fails
/// otherwise only where it cannot be found out.
pub proof fn law_guard(s: Session, verb: Seq<char>, snapshot: Seq<char>)
    ensures
        ({
            let p = guard_script(verb, snapshot);
            let d = record(s, p, all_of_it());
            let root = rootfs(snapshot);
            let copy = rootfs(chr(snapshot));
            match run(s, p).out {
                Ok(_) => snapshot != "0"@ && d == seq![asked_of(root, true), asked_of(copy, false)],
                Err(Halted::Stopped(Stop::Failed(f))) => {
                    ||| broke(d, f)
                    ||| d == seq![asked_of(root, false)] && f == fault(
                        ErrorKind::NotFound,
                        "Cannot "@ + verb + " as snapshot "@ + snapshot + " doesn't exist."@,
                    )
                    ||| d == seq![asked_of(root, true), asked_of(copy, true)] && f == fault(
                        ErrorKind::Unsupported,
                        busy_text(snapshot),
                    )
                    ||| snapshot == "0"@ && d == seq![asked_of(root, true), asked_of(copy, false)]
                        && f == fault(
                        ErrorKind::Unsupported,
                        "Changing base snapshot is not allowed."@,
                    )
                },
                Err(Halted::Stopped(e)) => e == Stop::Misfit,
                Err(Halted::Pending(_)) => true,
            }
        }),
{
    broadcast use {
        crate::script::group_run,
        crate::record::record_follow,
        crate::record::record_ask,
        crate::record::record_end,
        crate::record::run_flag,
    };

    let p = guard_script(verb, snapshot);
    let d = record(s, p, all_of_it());
    let root = rootfs(snapshot);
    let copy = rootfs(chr(snapshot));
    reveal(guard_script);
    let t = run(s, flag(Req::Exists { path: root })).now;
    if s.ready() {
        match s.next() {
            Answer::Flag(true) => {
                if t.ready() {
                    assert(d =~= seq![
                        asked_of(root, true),
                        (Req::Exists { path: copy }, t.next()),
                    ]);
                    assert(t.next() is Failed ==> d.last().1 == t.next());
                }
            },
            Answer::Flag(false) => {
                assert(d =~= seq![asked_of(root, false)]);
            },
            _ => {
                assert(d =~= seq![(Req::Exists { path: root }, s.next())]);
            },
        }
    }
}

/// An upgrade goes on exactly where the snapshot is there, its temporary copy is not, and it is not
/// the base snapshot unless that one is meant. It is refused exactly where one of these does not
/// hold, and fails otherwise only where it cannot be found out.
pub proof fn law_upgrade_guard(s: Session, snapshot: Seq<char>, baseup: bool)
    ensures
        ({
            let p = upgrade_guard_script(snapshot, baseup);
            let d = record(s, p, all_of_it());
            let root = rootfs(snapshot);
            let copy = rootfs(chr(snapshot));
            match run(s, p).out {
                Ok(_) => (snapshot != "0"@ || baseup) && d == seq![
                    asked_of(root, true),
                    asked_of(copy, false),
                ],
                Err(Halted::Stopped(Stop::Failed(f))) => {
                    ||| broke(d, f)
                    ||| d == seq![asked_of(root, false)] && f == fault(
                        ErrorKind::NotFound,
                        "Cannot "@ + "upgrade"@ + " as snapshot "@ + snapshot + " doesn't exist."@,
                    )
                    ||| d == seq![asked_of(root, true), asked_of(copy, true)] && f == fault(
                        ErrorKind::Unsupported,
                        busy_text(snapshot),
                    )
                    ||| snapshot == "0"@ && !baseup && d == seq![
                        asked_of(root, true),
                        asked_of(copy, false),
                    ] && f == fault(
                        ErrorKind::Unsupported,
                        "Changing base snapshot is not allowed."@,
                    )
                },
                Err(Halted::Stopped(e)) => e == Stop::Misfit,
                Err(Halted::Pending(_)) => true,
            }
        }),
{
    broadcast use {
        crate::script::group_run,
        crate::record::record_follow,
        crate::record::record_ask,
        crate::record::record_end,
        crate::record::run_flag,
    };

    let p = upgrade_guard_script(snapshot, baseup);
    let d = record(s, p, all_of_it());
    let root = rootfs(snapshot);
    let copy = rootfs(chr(snapshot));
    reveal(upgrade_guard_script);
    let t = run(s, flag(Req::Exists { path: root })).now;
    if s.ready() {
        match s.next() {
            Answer::Flag(true) => {
                if t.ready() {
                    assert(d =~= seq![
                        asked_of(root, true),
                        (Req::Exists { path: copy }, t.next()),
                    ]);
                    assert(t.next() is Failed ==> d.last().1 == t.next());
                }
            },
            Answer::Flag(false) => {
                assert(d =~= seq![asked_of(root, false)]);
            },
            _ => {
                assert(d =~= seq![(Req::Exists { path: root }, s.next())]);
            },
        }
    }
}

/// The snapshot is there, its temporary copy is not, and it is not the base snapshot.
pub open spec fn free_to_change(s: Session, now: Session, snapshot: Seq<char>) -> bool {
    &&& snapshot != "0"@
    &&& got(s, now, Req::Exists { path: rootfs(snapshot) }, Answer::Flag(true))
    &&& got(s, now, Req::Exists { path: rootfs(chr(snapshot)) }, Answer::Flag(false))
}

proof fn lemma_guarded(s: Session, verb: Seq<char>, snapshot: Seq<char>)
    requires
        run(s, guard_script(verb, snapshot)).out is Ok,
    ensures
        free_to_change(s, run(s, guard_script(verb, snapshot)).now, snapshot),
{
    broadcast use {
        crate::script::group_run,
        crate::record::group_ok,
        crate::record::got_chain,
        crate::record::got_flag,
    };

    let p = guard_script(verb, snapshot);
    reveal(guard_script);
    assert(record(s, p, all_of_it()).len() >= 0);
    let a = Req::Exists { path: rootfs(snapshot) };
    let b = Req::Exists { path: rootfs(chr(snapshot)) };
    let t = run(s, flag(a)).now;
    assert(got(s, run(s, flag(a)).now, a, Answer::Flag(true)));
    assert(got(t, run(t, flag(b)).now, b, Answer::Flag(false)));
    assert(got(s, run(s, p).now, a, Answer::Flag(true)));
    assert(got(s, run(s, p).now, b, Answer::Flag(false)));
}

/// Installing, removing, hollowing and working in a snapshot succeed only where the snapshot was
/// found to be there, its temporary copy not, and where it is not the base snapshot.
pub proof fn law_guarded(
    s: Session,
    build: Build,
    snapshot: Seq<char>,
    pkgs: Seq<Seq<char>>,
    name: Seq<char>,
    force: bool,
    secondary: bool,
    user: Seq<char>,
    noconfirm: bool,
    cmds: Seq<Seq<char>>,
)
    ensures
        ({
            let install = install_script(build, snapshot, pkgs, noconfirm);
            let uninstall = uninstall_script(build, snapshot, pkgs, noconfirm);
            let profile = install_profile_script(
                build,
                snapshot,
                name,
                force,
                secondary,
                user,
                noconfirm,
            );
            let unprofile = uninstall_profile_script(build, snapshot, name, user, noconfirm);
            let hollow = hollow_script(build, snapshot);
            let work = chroot_script(build, snapshot, cmds);
            &&& run(s, install).out is Ok ==> free_to_change(s, run(s, install).now, snapshot)
            &&& run(s, uninstall).out is Ok ==> free_to_change(s, run(s, uninstall).now, snapshot)
            &&& run(s, profile).out is Ok ==> free_to_change(s, run(s, profile).now, snapshot)
            &&& run(s, unprofile).out is Ok ==> free_to_change(s, run(s, unprofile).now, snapshot)
            &&& run(s, hollow).out is Ok ==> free_to_change(s, run(s, hollow).now, snapshot)
            &&& run(s, work).out is Ok ==> free_to_change(s, run(s, work).now, snapshot)
        }),
{
    broadcast use {crate::record::ok_chain, crate::record::got_chain};

    assert forall|t: Session, verb: Seq<char>| #[trigger]
        run(t, guard_script(verb, snapshot)).out is Ok implies free_to_change(
        t,
        run(t, guard_script(verb, snapshot)).now,
        snapshot,
    ) by {
        lemma_guarded(t, verb, snapshot);
    }
    let install = install_script(build, snapshot, pkgs, noconfirm);
    assert(run(s, install).out is Ok ==> free_to_change(s, run(s, install).now, snapshot)) by {
        reveal(install_script);
        assert(record(s, install, all_of_it()).len() >= 0);
    }
    let uninstall = uninstall_script(build, snapshot, pkgs, noconfirm);
    assert(run(s, uninstall).out is Ok ==> free_to_change(s, run(s, uninstall).now, snapshot)) by {
        reveal(uninstall_script);
        assert(record(s, uninstall, all_of_it()).len() >= 0);
    }
    let profile = install_profile_script(
        build,
        snapshot,
        name,
        force,
        secondary,
        user,
        noconfirm,
    );
    assert(run(s, profile).out is Ok ==> free_to_change(s, run(s, profile).now, snapshot)) by {
        reveal(install_profile_script);
        assert(record(s, profile, all_of_it()).len() >= 0);
    }
    let unprofile = uninstall_profile_script(build, snapshot, name, user, noconfirm);
    assert(run(s, unprofile).out is Ok ==> free_to_change(s, run(s, unprofile).now, snapshot)) by {
        reveal(uninstall_profile_script);
        assert(record(s, unprofile, all_of_it()).len() >= 0);
    }
    let hollow = hollow_script(build, snapshot);
    assert(run(s, hollow).out is Ok ==> free_to_change(s, run(s, hollow).now, snapshot)) by {
        reveal(hollow_script);
        assert(record(s, hollow, all_of_it()).len() >= 0);
    }
    let work = chroot_script(build, snapshot, cmds);
    assert(run(s, work).out is Ok ==> free_to_change(s, run(s, work).now, snapshot)) by {
        reveal(chroot_script);
        assert(record(s, work, all_of_it()).len() >= 0);
    }
}

/// After a moment, a run went on by deleting the temporary copy of a snapshot. Where that worked it
/// ended with this refusal.
pub open spec fn discarded<T>(r: Run<T>, t: Session, snapshot: Seq<char>, f: Fault) -> bool {
    let wipe = run(t, chr_delete_script(snapshot));
    match wipe.out {
        Ok(_) => r.now == wipe.now && r.out == Err::<T, Halted>(Halted::Stopped(Stop::Failed(f))),
        Err(e) => r.now == wipe.now && r.out == Err::<T, Halted>(e),
    }
}

/// Where the package manager fails to install packages, the temporary copy is deleted and the
/// operation fails.
pub proof fn law_install_discards(
    s: Session,
    build: Build,
    snapshot: Seq<char>,
    pkgs: Seq<Seq<char>>,
    noconfirm: bool,
)
    ensures
        ({
            let order = Req::InstallPackages { snapshot, pkgs, noconfirm };
            let t = run(s, guard_script("install"@, snapshot)).now;
            run(s, guard_script("install"@, snapshot)).out is Ok && t.ready() && t.next() is Failed
                ==> discarded(
                run(s, install_script(build, snapshot, pkgs, noconfirm)),
                t.after(order),
                snapshot,
                fault(ErrorKind::Interrupted, "Install failed and changes discarded."@),
            )
        }),
{
    broadcast use {crate::script::group_run, crate::record::run_done};

    reveal(install_script);
    reveal(install_end_script);
}

/// Where the package manager fails to upgrade packages, the temporary copy is deleted and the
/// operation fails.
pub proof fn law_upgrade_discards(
    s: Session,
    build: Build,
    snapshot: Seq<char>,
    baseup: bool,
    noconfirm: bool,
)
    ensures
        ({
            let order = Req::UpgradePackages { snapshot, noconfirm };
            let guard = upgrade_guard_script(snapshot, baseup);
            let t = run(s, guard).now;
            run(s, guard).out is Ok && t.ready() && t.next() is Failed ==> discarded(
                run(s, upgrade_script(build, snapshot, baseup, noconfirm)),
                t.after(order),
                snapshot,
                fault(ErrorKind::Other, "Upgrade failed and changes discarded."@),
            )
        }),
{
    broadcast use {crate::script::group_run, crate::record::run_done};

    reveal(upgrade_script);
    reveal(upgrade_end_script);
}

/// Where a profile that was edited cannot be applied, the temporary copy is deleted and the
/// operation fails.
pub proof fn law_edit_discards(s: Session, build: Build, snapshot: Seq<char>)
    ensures
        run(s, check_profile_script(build, snapshot)).out matches Err(
            Halted::Stopped(Stop::Failed(_)),
        ) ==> discarded(
            run(s, apply_edit_script(build, snapshot)),
            run(s, check_profile_script(build, snapshot)).now,
            snapshot,
            fault(ErrorKind::Other, "Failed to apply changes."@),
        ),
{
    broadcast use crate::script::group_run;

    reveal(apply_edit_script);
}

/// Where the base snapshot cannot be built anew, the temporary copy is deleted and the operation
/// fails.
pub proof fn law_rebuild_base_discards(s: Session, build: Build)
    ensures
        ({
            let t = s.after(Req::Exists { path: rootfs(chr("0"@)) });
            s.ready() && s.next() == Answer::Flag(false) ==> (run(
                t,
                rebuild_prep_script("0"@),
            ).out matches Err(Halted::Stopped(Stop::Failed(_))) ==> discarded(
                run(s, rebuild_base_script(build)),
                run(t, rebuild_prep_script("0"@)).now,
                "0"@,
                fault(ErrorKind::Other, "Rebuild failed and changes discarded."@),
            ))
        }),
{
    broadcast use {crate::script::group_run, crate::record::run_flag};

    reveal(rebuild_base_script);
}

/// A `deploy` succeeds only where the snapshot was found to be there, and is refused only where it
/// was found not to be.
pub proof fn law_deploy_guarded(
    s: Session,
    build: Build,
    snapshot: Seq<char>,
    secondary: bool,
    reset: bool,
)
    ensures
        ({
            let p = deploy_script(build, snapshot, secondary, reset);
            let ask = Req::Exists { path: rootfs(snapshot) };
            &&& run(s, p).out is Ok ==> got(s, run(s, p).now, ask, Answer::Flag(true))
            &&& s.ready() && s.next() == Answer::Flag(false) ==> run(s, p).now == s.after(ask)
                && run(s, p).out == Err::<Seq<char>, Halted>(
                Halted::Stopped(
                    Stop::Failed(
                        fault(
                            ErrorKind::NotFound,
                            "Cannot "@ + "deploy"@ + " as snapshot "@ + snapshot
                                + " doesn't exist."@,
                        ),
                    ),
                ),
            )
            &&& s.ready() && s.next() == Answer::Flag(true) ==> run(s, p) == run(
                s.after(ask),
                chain(get_tmp_script(), deploy_beside(build, snapshot, secondary, reset)),
            )
        }),
{
    broadcast use {
        crate::script::group_run,
        crate::record::ok_chain,
        crate::record::run_flag,
        crate::record::got_chain,
        crate::record::got_flag,
    };

    let p = deploy_script(build, snapshot, secondary, reset);
    let ask = Req::Exists { path: rootfs(snapshot) };
    reveal(deploy_script);
    if run(s, p).out is Ok {
        assert(record(s, p, all_of_it()).len() >= 0);
        assert(got(s, run(s, flag(ask)).now, ask, Answer::Flag(true)));
    }
}

/// A `rebuild` succeeds only where the snapshot was found to be there and not to be the base
/// snapshot, and neither its temporary copy nor that of the new snapshot to be there.
pub proof fn law_rebuild_guarded(
    s: Session,
    build: Build,
    snapshot: Seq<char>,
    snap_num: i32,
    desc: Seq<char>,
)
    ensures
        ({
            let p = rebuild_script(build, snapshot, snap_num, desc);
            run(s, p).out is Ok ==> free_to_change(s, run(s, p).now, snapshot) && got(
                s,
                run(s, p).now,
                Req::Exists { path: rootfs(chr(decimal(snap_num as int))) },
                Answer::Flag(false),
            )
        }),
{
    broadcast use {
        crate::record::group_ok,
        crate::record::got_chain,
        crate::record::got_flag,
    };

    let p = rebuild_script(build, snapshot, snap_num, desc);
    let id = decimal(snap_num as int);
    reveal(rebuild_script);
    reveal(rebuild_guard_script);
    if run(s, p).out is Ok {
        assert(record(s, p, all_of_it()).len() >= 0);
        let g = rebuild_guard_script(snapshot, id);
        assert(record(s, g, all_of_it()).len() >= 0);
        let a = Req::Exists { path: rootfs(snapshot) };
        let b = Req::Exists { path: rootfs(chr(snapshot)) };
        let c = Req::Exists { path: rootfs(chr(id)) };
        let t = run(s, flag(a)).now;
        assert(got(s, run(s, flag(a)).now, a, Answer::Flag(true)));
        assert(got(t, run(t, flag(b)).now, b, Answer::Flag(false)));
        let u = run(t, sure(flag(b))).now;
        assert(got(u, run(u, flag(c)).now, c, Answer::Flag(false)));
        assert(got(s, run(s, g).now, a, Answer::Flag(true)));
        assert(got(s, run(s, g).now, b, Answer::Flag(false)));
        assert(got(s, run(s, g).now, c, Answer::Flag(false)));
    }
}

/// An `import` succeeds only where no temporary copy of the snapshot of that number was found, and
/// the file was.
pub proof fn law_import_guarded(
    s: Session,
    build: Build,
    snapshot: i32,
    path: Seq<char>,
    desc: Seq<char>,
    tmp: Seq<char>,
)
    ensures
        ({
            let p = import_script(build, snapshot, path, desc, tmp);
            run(s, p).out is Ok ==> got(
                s,
                run(s, p).now,
                Req::Exists { path: rootfs(chr(decimal(snapshot as int))) },
                Answer::Flag(false),
            ) && got(s, run(s, p).now, Req::IsFile { path }, Answer::Flag(true))
        }),
{
    broadcast use {
        crate::record::group_ok,
        crate::record::got_chain,
        crate::record::got_flag,
    };

    let p = import_script(build, snapshot, path, desc, tmp);
    let id = decimal(snapshot as int);
    reveal(import_script);
    reveal(import_guard_script);
    if run(s, p).out is Ok {
        assert(record(s, p, all_of_it()).len() >= 0);
        let g = import_guard_script(path, id);
        assert(record(s, g, all_of_it()).len() >= 0);
        let a = Req::Exists { path: rootfs(chr(id)) };
        let b = Req::IsFile { path };
        let t = run(s, flag(a)).now;
        assert(got(s, run(s, flag(a)).now, a, Answer::Flag(false)));
        assert(got(t, run(t, flag(b)).now, b, Answer::Flag(true)));
        assert(got(s, run(s, g).now, a, Answer::Flag(false)));
        assert(got(s, run(s, g).now, b, Answer::Flag(true)));
    }
}

/// After a moment, a run went on by deleting the temporary copy of a snapshot. Where that worked, a
/// warning was given.
pub open spec fn given_up(r: Run<()>, t: Session, snapshot: Seq<char>, note: Seq<char>) -> bool {
    let wipe = run(t, chr_delete_script(snapshot));
    wipe.out is Ok ==> r == run(wipe.now, warn(note))
}

/// Where the package manager fails to remove packages, the temporary copy is deleted and there is a
/// warning.
pub proof fn law_uninstall_discards(
    s: Session,
    build: Build,
    snapshot: Seq<char>,
    pkgs: Seq<Seq<char>>,
    noconfirm: bool,
)
    ensures
        ({
            let order = Req::UninstallPackages { snapshot, pkgs, noconfirm };
            let t = run(s, guard_script("remove"@, snapshot)).now;
            let u = run(t, prepare_script(build, snapshot)).now;
            run(s, guard_script("remove"@, snapshot)).out is Ok && run(
                t,
                prepare_script(build, snapshot),
            ).out is Ok && u.ready() && u.next() is Failed ==> given_up(
                run(s, uninstall_script(build, snapshot, pkgs, noconfirm)),
                u.after(order),
                snapshot,
                "Remove failed and changes discarded."@,
            )
        }),
{
    broadcast use {crate::script::group_run, crate::record::run_done};

    reveal(uninstall_script);
    reveal(uninstall_end_script);
}

/// Where the package manager fails to refresh packages, the temporary copy is deleted and there is a
/// warning.
pub proof fn law_refresh_discards(s: Session, build: Build, snapshot: Seq<char>)
    ensures
        ({
            let order = Req::RefreshPackages { snapshot };
            let t = run(s, sync_time_script()).now;
            let u = run(t, prepare_script(build, snapshot)).now;
            run(s, sync_time_script()).out is Ok && run(
                t,
                prepare_script(build, snapshot),
            ).out is Ok && u.ready() && u.next() is Failed ==> given_up(
                run(s, refresh_run_script(build, snapshot)),
                u.after(order),
                snapshot,
                "Refresh failed and changes discarded."@,
            )
        }),
{
    broadcast use {crate::script::group_run, crate::record::run_done};

    reveal(refresh_run_script);
    reveal(refresh_end_script);
}

/// Whether a snapshot may be worked on: exactly where it is there, its temporary copy is not, and it
/// is not the base snapshot. Otherwise there is a warning that says which of these does not hold.
pub proof fn law_ready(s: Session, verb: Seq<char>, snapshot: Seq<char>)
    ensures
        ({
            let p = ready_script(verb, snapshot);
            let d = record(s, p, all_of_it());
            let root = rootfs(snapshot);
            let copy = rootfs(chr(snapshot));
            run(s, p).out matches Ok(may) ==> if may {
                snapshot != "0"@ && d == seq![asked_of(root, true), asked_of(copy, false)]
            } else {
                ||| d == seq![asked_of(root, false)] + did(
                    seq![
                        Req::Eprint {
                            text: "Cannot "@ + verb + " as snapshot "@ + snapshot
                                + " doesn't exist."@,
                        },
                    ],
                )
                ||| d == seq![asked_of(root, true), asked_of(copy, true)] + did(
                    seq![Req::Eprint { text: busy_text(snapshot) }],
                )
                ||| snapshot == "0"@ && d == seq![asked_of(root, true), asked_of(copy, false)]
                    + did(seq![Req::Eprint { text: "Changing base snapshot is not allowed."@ }])
            }
        }),
{
    broadcast use crate::record::group_ok;

    let p = ready_script(verb, snapshot);
    reveal(ready_script);
    if run(s, p).out is Ok {
        let d = record(s, p, all_of_it());
        assert(d.len() >= 0);
        let root = rootfs(snapshot);
        let copy = rootfs(chr(snapshot));
        let t = run(s, flag(Req::Exists { path: root })).now;
        if s.next() == Answer::Flag(false) {
            assert(d =~= seq![asked_of(root, false)] + did(
                seq![
                    Req::Eprint {
                        text: "Cannot "@ + verb + " as snapshot "@ + snapshot + " doesn't exist."@,
                    },
                ],
            ));
        } else if t.next() == Answer::Flag(true) {
            assert(d =~= seq![asked_of(root, true), asked_of(copy, true)] + did(
                seq![Req::Eprint { text: busy_text(snapshot) }],
            ));
        } else if snapshot == "0"@ {
            assert(d =~= seq![asked_of(root, true), asked_of(copy, false)] + did(
                seq![Req::Eprint { text: "Changing base snapshot is not allowed."@ }],
            ));
        } else {
            assert(d =~= seq![asked_of(root, true), asked_of(copy, false)]);
        }
    }
}

/// A run does nothing after the look at the snapshot where that may not be worked on.
pub open spec fn idle_unless_ready(
    s: Session,
    verb: Seq<char>,
    snapshot: Seq<char>,
    r: Run<()>,
    inner: Script<()>,
) -> bool {
    let look = run(s, ready_script(verb, snapshot));
    match look.out {
        Ok(true) => r == run(look.now, inner),
        Ok(false) => r.now == look.now && r.out is Ok,
        Err(e) => r.now == look.now && r.out == Err::<(), Halted>(e),
    }
}

/// Refreshing a snapshot and editing what belongs to it go on exactly where the snapshot may be worked
/// on.
pub proof fn law_idle_unless_ready(s: Session, build: Build, snapshot: Seq<char>)
    ensures
        idle_unless_ready(
            s,
            "refresh"@,
            snapshot,
            run(s, refresh_script(build, snapshot)),
            refresh_run_script(build, snapshot),
        ),
        idle_unless_ready(
            s,
            "chroot"@,
            snapshot,
            run(s, snapshot_config_edit_script(build, snapshot)),
            chain(
                prepare_script(build, snapshot),
                |u: ()| edit_config_script(build, snapshot),
            ),
        ),
        idle_unless_ready(
            s,
            "chroot"@,
            snapshot,
            run(s, snapshot_profile_edit_script(build, snapshot)),
            chain(
                prepare_script(build, snapshot),
                |u: ()|
                    chain(
                        edit_profile_script(snapshot),
                        |u: ()| apply_edit_script(build, snapshot),
                    ),
            ),
        ),
{
    broadcast use crate::script::group_run;

    reveal(refresh_script);
    reveal(snapshot_config_edit_script);
    reveal(snapshot_profile_edit_script);
}

}
