//! What the operations on packages come to.

use vstd::prelude::*;
use crate::chroots::{collect, collect_all, keep_copy, post_transactions_script, prepare_script};
use crate::deployment::{deploy_recovery_script, recovery_aux_tmp};
use crate::guard::{base_fixed, guard_script, in_use, missing, ready_script};
use crate::outcomes::{deeds, keeps, makes_ready, spares};
use crate::packages::{
    install_end_script, install_script, refresh_end_script, refresh_run_script, refresh_script,
    removed_note, renew_recovery_script, uninstall_end_script, uninstall_script, upgrade_end_script,
    upgrade_guard_script, upgrade_script, upgraded_script,
};
use crate::paths::rootfs;
use crate::placing::{law_deploy_recovery, recovers};
use crate::record::{did, others, record};
use crate::request::{Answer, ExitStatus, Fault, Req};
use crate::script::{asks_only, attempt, done, flag, run, text, Build, Session};
use crate::system::{header_date, sync_time_script};
use crate::text::debug_text;

verus! {

/// Packages were installed in a snapshot, whose temporary copy then took its place.
pub open spec fn installs(
    d: Seq<(Req, Answer)>,
    snapshot: Seq<char>,
    pkgs: Seq<Seq<char>>,
    noconfirm: bool,
) -> bool {
    exists|after: Seq<(Req, Answer)>|
        #[trigger] keeps(after, snapshot) && d == did(
            seq![Req::InstallPackages { snapshot, pkgs, noconfirm }],
        ) + after
}

/// In every `install` that succeeds, the package manager installed the given packages in the
/// snapshot, with the given confirmation, and the temporary copy then took its place.
pub proof fn law_install(
    s: Session,
    build: Build,
    snapshot: Seq<char>,
    pkgs: Seq<Seq<char>>,
    noconfirm: bool,
)
    ensures
        run(s, install_script(build, snapshot, pkgs, noconfirm)).out is Ok ==> installs(
            record(s, install_script(build, snapshot, pkgs, noconfirm), deeds()),
            snapshot,
            pkgs,
            noconfirm,
        ),
{
    broadcast use {crate::outcomes::group_outcomes, crate::record::group_ok};

    assert(spares(deeds()));
    let p = install_script(build, snapshot, pkgs, noconfirm);
    let order = Req::InstallPackages { snapshot, pkgs, noconfirm };
    reveal(install_script);
    reveal(install_end_script);
    if run(s, p).out is Ok {
        assert(record(s, p, deeds()).len() >= 0);
        let t = run(s, guard_script("install"@, snapshot)).now;
        let t = run(t, attempt(done(order))).now;
        let after = record(t, post_transactions_script(build, snapshot), deeds());
        assert(record(s, p, deeds()) =~= did(seq![order]) + after);
    }
}

/// Packages were removed from the temporary copy of a snapshot. Where that worked, the temporary
/// copy then took the place of the snapshot, and that was told; where not, there is only a
/// warning.
pub open spec fn uninstalls(
    d: Seq<(Req, Answer)>,
    snapshot: Seq<char>,
    pkgs: Seq<Seq<char>>,
    noconfirm: bool,
) -> bool {
    let order = Req::UninstallPackages { snapshot, pkgs, noconfirm };
    ||| exists|before: Seq<(Req, Answer)>, after: Seq<(Req, Answer)>|
        #[trigger] makes_ready(before, snapshot) && #[trigger] keeps(after, snapshot) && d == before
            + did(seq![order]) + after + did(
            seq![
                Req::Print {
                    text: "Package(s) "@ + debug_text(pkgs) + " removed from snapshot "@ + snapshot
                        + " successfully."@,
                },
            ],
        )
    ||| exists|before: Seq<(Req, Answer)>, e: Fault|
        makes_ready(before, snapshot) && d == #[trigger] failed(before, order, e) + did(
            seq![Req::Eprint { text: "Remove failed and changes discarded."@ }],
        )
}

/// An `uninstall` that succeeds makes a temporary copy of the snapshot and has the package
/// manager remove the given packages from it, with the given confirmation. Where that worked, the
/// temporary copy took the place of the snapshot and the note of success was shown; where it
/// failed, there is only a warning.
#[verifier::rlimit(40)]
pub proof fn law_uninstall(
    s: Session,
    build: Build,
    snapshot: Seq<char>,
    pkgs: Seq<Seq<char>>,
    noconfirm: bool,
)
    ensures
        run(s, uninstall_script(build, snapshot, pkgs, noconfirm)).out is Ok ==> uninstalls(
            record(s, uninstall_script(build, snapshot, pkgs, noconfirm), deeds()),
            snapshot,
            pkgs,
            noconfirm,
        ),
{
    broadcast use {crate::outcomes::group_outcomes, crate::record::group_ok};

    assert(spares(deeds()));
    let p = uninstall_script(build, snapshot, pkgs, noconfirm);
    let order = Req::UninstallPackages { snapshot, pkgs, noconfirm };
    reveal(uninstall_script);
    reveal(uninstall_end_script);
    if run(s, p).out is Ok {
        assert(record(s, p, deeds()).len() >= 0);
        let t = run(s, guard_script("remove"@, snapshot)).now;
        let before = record(t, prepare_script(build, snapshot), deeds());
        let t = run(t, prepare_script(build, snapshot)).now;
        let a = t.next();
        let t = run(t, attempt(done(order))).now;
        let after = record(t, post_transactions_script(build, snapshot), deeds());
        assert(makes_ready(before, snapshot));
        if a is Done {
            assert(keeps(after, snapshot));
            assert(record(s, p, deeds()) =~= before + did(seq![order]) + after + did(
                seq![Req::Print { text: removed_note(pkgs, snapshot) }],
            ));
        } else {
            assert(record(s, p, deeds()) =~= failed(before, order, a->Failed_0) + did(
                seq![Req::Eprint { text: "Remove failed and changes discarded."@ }],
            ));
        }
    }
}

/// After `before`, a request failed.
pub open spec fn failed(before: Seq<(Req, Answer)>, req: Req, e: Fault) -> Seq<(Req, Answer)> {
    before + seq![(req, Answer::Failed(e))]
}

/// The snapshot says that it was upgraded only after it was: the packages of the snapshot were
/// upgraded with the given confirmation, and the temporary copy took its place. Where the base
/// snapshot is meant, the recovery deployment was renewed too.
pub open spec fn upgraded(
    d: Seq<(Req, Answer)>,
    snapshot: Seq<char>,
    baseup: bool,
    noconfirm: bool,
) -> bool {
    exists|after: Seq<(Req, Answer)>, recovery: Seq<(Req, Answer)>|
        #[trigger] keeps(after, snapshot) && #[trigger] renewed(recovery, baseup) && d == did(
            seq![Req::UpgradePackages { snapshot, noconfirm }],
        ) + after + recovery + did(
            seq![Req::Print { text: "Snapshot "@ + snapshot + " upgraded successfully."@ }],
        )
}

/// The recovery deployment was renewed, where that was asked for.
pub open spec fn renewed(d: Seq<(Req, Answer)>, baseup: bool) -> bool {
    if baseup {
        exists|tmp: Seq<char>, content: Seq<char>|
            #[trigger] recovers(d, recovery_aux_tmp(tmp), content)
    } else {
        d.len() == 0
    }
}

/// In every `upgrade` that succeeds, the package manager upgraded the packages of the snapshot,
/// with the given confirmation, before anything else was done. Either the temporary copy then
/// took the place of the snapshot and the note of success was shown, or nothing was shown.
#[verifier::rlimit(40)]
pub proof fn law_upgrade(s: Session, build: Build, snapshot: Seq<char>, baseup: bool, noconfirm: bool)
    ensures
        run(s, upgrade_script(build, snapshot, baseup, noconfirm)).out is Ok ==> ({
            let d = record(s, upgrade_script(build, snapshot, baseup, noconfirm), deeds());
            &&& d.len() > 0 && d[0] == (
                Req::UpgradePackages { snapshot, noconfirm },
                Answer::Done,
            )
            &&& upgraded(d, snapshot, baseup, noconfirm) || forall|i: int|
                0 <= i < d.len() ==> !((#[trigger] d[i]).0 is Print)
        }),
{
    broadcast use {crate::outcomes::group_outcomes, crate::record::group_ok};

    assert(spares(deeds()));
    let p = upgrade_script(build, snapshot, baseup, noconfirm);
    let order = Req::UpgradePackages { snapshot, noconfirm };
    let post = post_transactions_script(build, snapshot);
    let note = Req::Print { text: "Snapshot "@ + snapshot + " upgraded successfully."@ };
    reveal(upgrade_script);
    reveal(upgrade_end_script);
    reveal(upgraded_script);
    if run(s, p).out is Ok {
        let guard = upgrade_guard_script(snapshot, baseup);
        assert(asks_only(guard, others(deeds()))) by {
            broadcast use crate::script::group_asks;

            reveal(upgrade_guard_script);
        }
        let d = record(s, p, deeds());
        assert(d.len() >= 0);
        let t = run(s, guard).now;
        let t = run(t, attempt(done(order))).now;
        let after = record(t, post, deeds());
        let u = run(t, attempt(post)).now;
        if run(t, attempt(post)).out->Ok_0 is Ok {
            let recovery = record(u, renew_recovery_script(build, baseup), deeds());
            lemma_renew(u, build, baseup);
            assert(keeps(after, snapshot) && renewed(recovery, baseup));
            assert(d =~= did(seq![order]) + after + recovery + did(seq![note]));
        } else {
            assert(d =~= did(seq![order]) + after);
            let silent = |req: Req| !(req is Print);
            lemma_post_silent(build, snapshot);
            crate::record::lemma_record_only(t, post, deeds(), silent);
            assert forall|i: int| 0 <= i < d.len() implies !((#[trigger] d[i]).0 is Print) by {
                if i > 0 {
                    assert(d[i] == after[i - 1]);
                }
            }
        }
    }
}

proof fn lemma_renew(s: Session, build: Build, baseup: bool)
    requires
        run(s, renew_recovery_script(build, baseup)).out is Ok,
    ensures
        renewed(record(s, renew_recovery_script(build, baseup), deeds()), baseup),
{
    broadcast use crate::record::group_ok;

    reveal(renew_recovery_script);
    let p = renew_recovery_script(build, baseup);
    assert(record(s, p, deeds()).len() >= 0);
    if baseup {
        assert(record(s, p, deeds()) =~= record(s, deploy_recovery_script(build), deeds()));
        law_deploy_recovery(s, build);
    }
}

proof fn lemma_post_silent(build: Build, snapshot: Seq<char>)
    ensures
        asks_only(post_transactions_script(build, snapshot), |req: Req| !(req is Print)),
{
    broadcast use {crate::script::group_asks, crate::outcomes::group_quiet};

    let prints = |req: Req| req is Print;
    assert(spares(prints));
    assert(others(prints) =~= (|req: Req| !(req is Print)));
    reveal(post_transactions_script);
    reveal(collect_all);
    reveal(collect);
    reveal(keep_copy);
    assert(asks_only(post_transactions_script(build, snapshot), others(prints)));
}

/// The clock was set by the date that the answer of a web server carries.
pub open spec fn clock_set(d: Seq<(Req, Answer)>) -> bool {
    exists|header: Seq<char>, date: Seq<char>, code: ExitStatus|
        #![trigger fetched(header), set_by(date, code)]
        header_date(header) == Some(date) && d == seq![fetched(header), set_by(date, code)]
}

/// The head of a web page was fetched.
pub open spec fn fetched(header: Seq<char>) -> (Req, Answer) {
    (Req::Fetch { url: "https://google.com"@ }, Answer::Text(header))
}

/// The clock was set to a date.
pub open spec fn set_by(date: Seq<char>, code: ExitStatus) -> (Req, Answer) {
    (
        Req::RunQuiet { program: "date"@, args: seq!["-s"@, "\"("@ + date + ")Z\""@] },
        Answer::Status(code),
    )
}

/// `sync_time` sets the clock by the date that the answer of a web server carries.
pub proof fn law_sync_time(s: Session)
    ensures
        run(s, sync_time_script()).out is Ok ==> clock_set(record(s, sync_time_script(), deeds())),
{
    broadcast use crate::record::group_ok;

    let p = sync_time_script();
    reveal(sync_time_script);
    if run(s, p).out is Ok {
        assert(record(s, p, deeds()).len() >= 0);
        let header = s.next()->Text_0;
        let date = header_date(header)->Some_0;
        let t = run(s, text(Req::Fetch { url: "https://google.com"@ })).now;
        let code = t.next()->Status_0;
        assert(record(s, p, deeds()) =~= seq![fetched(header), set_by(date, code)]);
    }
}

/// A `refresh` that succeeds only warns where the snapshot is not there, in use, or the base
/// snapshot. Otherwise it sets the clock, makes a temporary copy of the snapshot and has the
/// package manager refresh its packages. Where that worked, the temporary copy took the place of
/// the snapshot and the note of success was shown; where it failed, there is only a warning.
#[verifier::rlimit(40)]
pub proof fn law_refresh(s: Session, build: Build, snapshot: Seq<char>)
    ensures
        run(s, refresh_script(build, snapshot)).out is Ok ==> ({
            let d = record(s, refresh_script(build, snapshot), deeds());
            let order = Req::RefreshPackages { snapshot };
            ||| refused(d, "refresh"@, snapshot)
            ||| exists|
                clock: Seq<(Req, Answer)>,
                before: Seq<(Req, Answer)>,
                after: Seq<(Req, Answer)>,
            |
                #[trigger] clock_set(clock) && #[trigger] makes_ready(before, snapshot)
                    && #[trigger] keeps(after, snapshot) && d == clock + before + did(seq![order])
                    + after + did(
                    seq![
                        Req::Print { text: "Snapshot "@ + snapshot + " refreshed successfully."@ },
                    ],
                )
            ||| exists|clock: Seq<(Req, Answer)>, before: Seq<(Req, Answer)>, e: Fault|
                #[trigger] clock_set(clock) && makes_ready(before, snapshot) && d == clock
                    + #[trigger] failed(before, order, e) + did(
                    seq![Req::Eprint { text: "Refresh failed and changes discarded."@ }],
                )
        }),
{
    broadcast use {crate::outcomes::group_outcomes, crate::record::group_ok};

    assert(spares(deeds()));
    let p = refresh_script(build, snapshot);
    let order = Req::RefreshPackages { snapshot };
    reveal(refresh_script);
    reveal(refresh_run_script);
    reveal(refresh_end_script);
    if run(s, p).out is Ok {
        let d = record(s, p, deeds());
        assert(d.len() >= 0);
        lemma_ready(s, "refresh"@, snapshot);
        let t = run(s, ready_script("refresh"@, snapshot)).now;
        if run(s, ready_script("refresh"@, snapshot)).out->Ok_0 {
            law_sync_time(t);
            let clock = record(t, sync_time_script(), deeds());
            let t = run(t, sync_time_script()).now;
            let before = record(t, prepare_script(build, snapshot), deeds());
            let t = run(t, prepare_script(build, snapshot)).now;
            let a = t.next();
            let t = run(t, attempt(done(order))).now;
            let after = record(t, post_transactions_script(build, snapshot), deeds());
            assert(clock_set(clock) && makes_ready(before, snapshot));
            if a is Done {
                assert(keeps(after, snapshot));
                assert(d =~= clock + before + did(seq![order]) + after + did(
                    seq![
                        Req::Print { text: "Snapshot "@ + snapshot + " refreshed successfully."@ },
                    ],
                ));
            } else {
                assert(d =~= clock + failed(before, order, a->Failed_0) + did(
                    seq![Req::Eprint { text: "Refresh failed and changes discarded."@ }],
                ));
            }
        } else {
            assert(d =~= record(s, ready_script("refresh"@, snapshot), deeds()));
        }
    }
}

/// There is only a warning: the snapshot is not there, in use, or the base snapshot.
pub open spec fn refused(d: Seq<(Req, Answer)>, verb: Seq<char>, snapshot: Seq<char>) -> bool {
    ||| d == did(
        seq![
            Req::Eprint { text: "Cannot "@ + verb + " as snapshot "@ + snapshot + " doesn't exist."@ },
        ],
    )
    ||| d == did(
        seq![
            Req::Eprint {
                text: "Snapshot "@ + snapshot
                    + " appears to be in use. If you're certain it's not in use, clear lock with 'ash unlock -s "@
                    + snapshot + "'."@,
            },
        ],
    )
    ||| snapshot == "0"@ && d == did(
        seq![Req::Eprint { text: "Changing base snapshot is not allowed."@ }],
    )
}

/// What is asked of a snapshot before it is worked on.
pub proof fn lemma_ready(s: Session, verb: Seq<char>, snapshot: Seq<char>)
    requires
        run(s, ready_script(verb, snapshot)).out is Ok,
    ensures
        ({
            let d = record(s, ready_script(verb, snapshot), deeds());
            if run(s, ready_script(verb, snapshot)).out->Ok_0 {
                d == Seq::<(Req, Answer)>::empty() && snapshot != "0"@
            } else {
                refused(d, verb, snapshot)
            }
        }),
{
    broadcast use crate::record::group_ok;

    let p = ready_script(verb, snapshot);
    reveal(ready_script);
    let d = record(s, p, deeds());
    assert(d.len() >= 0);
    let t = run(s, flag(Req::Exists { path: rootfs(snapshot) })).now;
    if s.next() == Answer::Flag(false) {
        assert(d =~= did(seq![Req::Eprint { text: missing(verb, snapshot) }]));
    } else if t.next() == Answer::Flag(true) {
        assert(d =~= did(seq![Req::Eprint { text: in_use(snapshot) }]));
    } else if snapshot == "0"@ {
        assert(d =~= did(seq![Req::Eprint { text: base_fixed() }]));
    } else {
        assert(d =~= Seq::<(Req, Answer)>::empty());
    }
}

}
