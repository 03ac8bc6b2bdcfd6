//! What installing and removing on request comes to.

use vstd::prelude::*;
use crate::chroots::post_transactions_script;
use crate::deployment::{deploy_script, get_current_snapshot_script};
use crate::handling::{law_uninstall, uninstalls};
use crate::outcomes::{deeds, keeps, spares};
use crate::packages::{
    install_live_script, install_profile_live_script, install_profile_script, install_script,
    uninstall_live_script, uninstall_profile_live_script, uninstall_profile_script,
};
use crate::placing::{deploys, law_deploy, tells};
use crate::rebuilding::{lemma_confirm, settled_by};
use crate::record::{did, record};
use crate::request::{Answer, Fault, Req};
use crate::script::{attempt, confirm, run, say, Build, Halted, Script, Session, Stop};
use crate::supplying::{
    asked_current, installs_profile, law_install_profile, law_uninstall_profile, lemma_current,
    uninstalls_profile,
};
use crate::text::{debug_text, trimmed_end};
use crate::triage::{
    discard_script, if_running, install_triage_script, keep_installed_script, not_running,
    offer_script, pkgs_in_live_script, pkgs_in_script, pkgs_out_live_script, profile_in_live_script,
    profile_in_script, profile_out_live_script, profile_out_script, spoken, tell,
    uninstall_triage_script,
};

verus! {

/// An operation was tried; its success was told by a note, its failure by its own words.
pub open spec fn told<T>(d: Seq<(Req, Answer)>, p: Script<T>, note: Seq<char>) -> bool {
    ||| exists|t: Session|
        #[trigger] run(t, p).out is Ok && d == record(t, p, deeds()) + did(
            seq![Req::Print { text: note }],
        )
    ||| exists|t: Session, e: Fault|
        #[trigger] failed_with(t, p, e) && d == record(t, p, deeds()) + did(
            seq![Req::Eprint { text: e.text }],
        )
}

/// A run of the operation fails.
pub open spec fn failed_with<T>(t: Session, p: Script<T>, e: Fault) -> bool {
    run(t, p).out == Err::<T, Halted>(Halted::Stopped(Stop::Failed(e)))
}

/// The deployment of a snapshot was offered to the user. On a yes it was deployed, to the kind of
/// deployment that was asked for, and that was told; a failure is passed over.
pub open spec fn offered(
    d: Seq<(Req, Answer)>,
    build: Build,
    snapshot: Seq<char>,
    secondary: bool,
) -> bool {
    exists|talk: Seq<(Req, Answer)>, yes: bool, rest: Seq<(Req, Answer)>|
        #![trigger settled_by(talk, "Would you like to proceed with the deployment of snapshot "@ + snapshot + "?"@, yes), talk + rest]
        settled_by(
            talk,
            "Would you like to proceed with the deployment of snapshot "@ + snapshot + "?"@,
            yes,
        ) && d == talk + rest && (if yes {
            deployed_or_not(rest, build, snapshot, secondary)
        } else {
            rest.len() == 0
        })
}

/// A snapshot was deployed, which was told, or that failed.
pub open spec fn deployed_or_not(
    d: Seq<(Req, Answer)>,
    build: Build,
    snapshot: Seq<char>,
    secondary: bool,
) -> bool {
    ||| exists|
        running: Seq<(Req, Answer)>,
        tmp: Seq<char>,
        target: Seq<char>,
        rest: Seq<(Req, Answer)>,
    |
        #[trigger] tells(running, tmp) && #[trigger] deploys(
            rest,
            snapshot,
            tmp,
            secondary,
            false,
            target,
        ) && d == running + rest + did(
            seq![Req::Print { text: "Snapshot "@ + snapshot + " deployed to '/'."@ }],
        )
    ||| exists|t: Session, e: Fault|
        #[trigger] failed_with(t, deploy_script(build, snapshot, secondary, false), e) && d
            == record(t, deploy_script(build, snapshot, secondary, false), deeds())
}

proof fn lemma_offer(s: Session, build: Build, snapshot: Seq<char>, secondary: bool)
    requires
        run(s, offer_script(build, snapshot, secondary)).out is Ok,
    ensures
        offered(
            record(s, offer_script(build, snapshot, secondary), deeds()),
            build,
            snapshot,
            secondary,
        ),
{
    broadcast use crate::record::group_ok;

    let p = offer_script(build, snapshot, secondary);
    reveal(offer_script);
    let d = record(s, p, deeds());
    assert(d.len() >= 0);
    let msg = "Would you like to proceed with the deployment of snapshot "@ + snapshot + "?"@;
    lemma_confirm(s, msg);
    let talk = record(s, confirm(msg), deeds());
    let yes = run(s, confirm(msg)).out->Ok_0;
    let t = run(s, confirm(msg)).now;
    if yes {
        let q = deploy_script(build, snapshot, secondary, false);
        let made = record(t, q, deeds());
        if run(t, attempt(q)).out->Ok_0 is Ok {
            law_deploy(t, build, snapshot, secondary, false);
            let note = did(
                seq![Req::Print { text: "Snapshot "@ + snapshot + " deployed to '/'."@ }],
            );
            let rest = made + note;
            let target = run(t, q).out->Ok_0;
            let (running, tmp, more) = choose|
                running: Seq<(Req, Answer)>,
                tmp: Seq<char>,
                more: Seq<(Req, Answer)>,
            |
                #[trigger] tells(running, tmp) && #[trigger] deploys(
                    more,
                    snapshot,
                    tmp,
                    secondary,
                    false,
                    target,
                ) && made == running + more;
            assert(rest =~= running + more + note);
            assert(deployed_or_not(rest, build, snapshot, secondary));
            assert(d =~= talk + rest);
        } else {
            let e = run(t, attempt(q)).out->Ok_0->Err_0;
            assert(failed_with(t, q, e));
            assert(deployed_or_not(made, build, snapshot, secondary));
            assert(d =~= talk + made);
        }
    } else {
        let rest: Seq<(Req, Answer)> = seq![];
        assert(d =~= talk + rest);
    }
}

proof fn lemma_tell<T>(s: Session, p: Script<T>, note: Seq<char>, whole: Script<()>)
    requires
        run(s, whole).out is Ok,
        run(s, attempt(p)).out is Ok,
        ({
            let r: Result<(), Fault> = match run(s, attempt(p)).out->Ok_0 {
                Ok(_) => Ok(()),
                Err(e) => Err(e),
            };
            &&& run(run(s, attempt(p)).now, tell(r, note)).out is Ok
            &&& record(s, whole, deeds()) == record(s, attempt(p), deeds()) + record(
                run(s, attempt(p)).now,
                tell(r, note),
                deeds(),
            )
        }),
    ensures
        told(record(s, whole, deeds()), p, note),
{
    broadcast use crate::record::group_ok;

    let d = record(s, whole, deeds());
    match run(s, attempt(p)).out->Ok_0 {
        Ok(_) => {
            assert(d =~= record(s, p, deeds()) + did(seq![Req::Print { text: note }]));
            assert(run(s, p).out is Ok);
        },
        Err(e) => {
            assert(d =~= record(s, p, deeds()) + did(seq![Req::Eprint { text: e.text }]));
            assert(failed_with(s, p, e));
        },
    }
}

/// A profile was installed in a snapshot. Where that worked and the temporary copy took the place
/// of the snapshot, it was told and the deployment offered; otherwise there are warnings.
pub open spec fn profile_came_in(
    d: Seq<(Req, Answer)>,
    build: Build,
    snapshot: Seq<char>,
    name: Seq<char>,
    force: bool,
    user: Seq<char>,
    noconfirm: bool,
    secondary: bool,
) -> bool {
    let shown = if user.len() == 0 {
        name
    } else {
        user
    };
    let bad = Req::Eprint { text: "Install failed and changes discarded!"@ };
    ||| exists|first: Seq<(Req, Answer)>, after: Seq<(Req, Answer)>, offer: Seq<(Req, Answer)>|
        #![trigger installs_profile(first, build, snapshot, name, force, user, noconfirm), keeps(after, snapshot), offered(offer, build, snapshot, secondary)]
        installs_profile(first, build, snapshot, name, force, user, noconfirm) && keeps(
            after,
            snapshot,
        ) && offered(offer, build, snapshot, secondary) && d == first + after + did(
            seq![
                Req::Print {
                    text: "Profile "@ + shown + " installed in snapshot "@ + snapshot
                        + " successfully."@,
                },
            ],
        ) + offer
    ||| exists|first: Seq<(Req, Answer)>, t: Session, e: Fault|
        #![trigger installs_profile(first, build, snapshot, name, force, user, noconfirm), failed_with(t, post_transactions_script(build, snapshot), e)]
        installs_profile(first, build, snapshot, name, force, user, noconfirm) && failed_with(
            t,
            post_transactions_script(build, snapshot),
            e,
        ) && d == first + record(t, post_transactions_script(build, snapshot), deeds()) + did(
            seq![bad],
        )
    ||| exists|t: Session, e: Fault|
        #[trigger] failed_with(
            t,
            install_profile_script(build, snapshot, name, force, secondary, user, noconfirm),
            e,
        ) && d == record(
            t,
            install_profile_script(build, snapshot, name, force, secondary, user, noconfirm),
            deeds(),
        ) + did(seq![Req::Eprint { text: e.text }, bad])
}

#[verifier::rlimit(40)]
proof fn lemma_profile_in(
    s: Session,
    build: Build,
    snapshot: Seq<char>,
    name: Seq<char>,
    force: bool,
    user: Seq<char>,
    noconfirm: bool,
    secondary: bool,
)
    requires
        run(
            s,
            profile_in_script(build, snapshot, name, force, user, noconfirm, secondary),
        ).out is Ok,
    ensures
        profile_came_in(
            record(
                s,
                profile_in_script(build, snapshot, name, force, user, noconfirm, secondary),
                deeds(),
            ),
            build,
            snapshot,
            name,
            force,
            user,
            noconfirm,
            secondary,
        ),
{
    broadcast use {crate::outcomes::group_outcomes, crate::record::group_ok};

    assert(spares(deeds()));
    let p = profile_in_script(build, snapshot, name, force, user, noconfirm, secondary);
    let q = install_profile_script(build, snapshot, name, force, secondary, user, noconfirm);
    let post = post_transactions_script(build, snapshot);
    let bad = Req::Eprint { text: "Install failed and changes discarded!"@ };
    reveal(profile_in_script);
    reveal(keep_installed_script);
    reveal(discard_script);
    let d = record(s, p, deeds());
    assert(d.len() >= 0);
    let first = record(s, q, deeds());
    let t = run(s, attempt(q)).now;
    if run(s, attempt(q)).out->Ok_0 is Ok {
        law_install_profile(s, build, snapshot, name, force, secondary, user, noconfirm);
        assert(installs_profile(first, build, snapshot, name, force, user, noconfirm));
        let keep = keep_installed_script(build, snapshot, spoken(name, user), secondary);
        assert(record(t, keep, deeds()).len() >= 0);
        let after = record(t, post, deeds());
        let u = run(t, attempt(post)).now;
        if run(t, attempt(post)).out->Ok_0 is Ok {
            let note = crate::triage::profile_installed(spoken(name, user), snapshot);
            let v = run(u, say(note)).now;
            lemma_offer(v, build, snapshot, secondary);
            let offer = record(v, offer_script(build, snapshot, secondary), deeds());
            assert(keeps(after, snapshot) && offered(offer, build, snapshot, secondary));
            assert(record(t, keep, deeds()) =~= after + (did(seq![Req::Print { text: note }])
                + offer));
            assert(d =~= first + after + did(seq![Req::Print { text: note }]) + offer);
        } else {
            let e = run(t, attempt(post)).out->Ok_0->Err_0;
            assert(failed_with(t, post, e));
            assert(d =~= first + after + did(seq![bad]));
        }
    } else {
        let e = run(s, attempt(q)).out->Ok_0->Err_0;
        assert(failed_with(s, q, e));
        assert(d =~= first + did(seq![Req::Eprint { text: e.text }, bad]));
    }
}

/// A profile was removed from a snapshot. Where that worked and the temporary copy took the place
/// of the snapshot, it was told; otherwise there are warnings.
pub open spec fn profile_went_out(
    d: Seq<(Req, Answer)>,
    build: Build,
    snapshot: Seq<char>,
    name: Seq<char>,
    user: Seq<char>,
    noconfirm: bool,
) -> bool {
    let shown = if user.len() == 0 {
        name
    } else {
        user
    };
    let bad = Req::Eprint { text: "Uninstall failed and changes discarded!"@ };
    ||| exists|first: Seq<(Req, Answer)>, after: Seq<(Req, Answer)>|
        #[trigger] uninstalls_profile(first, snapshot, name, user, noconfirm) && #[trigger] keeps(
            after,
            snapshot,
        ) && d == first + after + did(
            seq![
                Req::Print {
                    text: "Profile "@ + shown + " removed from snapshot "@ + snapshot
                        + " successfully."@,
                },
            ],
        )
    ||| exists|first: Seq<(Req, Answer)>, t: Session, e: Fault|
        #![trigger uninstalls_profile(first, snapshot, name, user, noconfirm), failed_with(t, post_transactions_script(build, snapshot), e)]
        uninstalls_profile(first, snapshot, name, user, noconfirm) && failed_with(
            t,
            post_transactions_script(build, snapshot),
            e,
        ) && d == first + record(t, post_transactions_script(build, snapshot), deeds()) + did(
            seq![bad],
        )
    ||| exists|t: Session, e: Fault|
        #[trigger] failed_with(
            t,
            uninstall_profile_script(build, snapshot, name, user, noconfirm),
            e,
        ) && d == record(
            t,
            uninstall_profile_script(build, snapshot, name, user, noconfirm),
            deeds(),
        ) + did(seq![Req::Eprint { text: e.text }, bad])
}

#[verifier::rlimit(40)]
proof fn lemma_profile_out(
    s: Session,
    build: Build,
    snapshot: Seq<char>,
    name: Seq<char>,
    user: Seq<char>,
    noconfirm: bool,
)
    requires
        run(s, profile_out_script(build, snapshot, name, user, noconfirm)).out is Ok,
    ensures
        profile_went_out(
            record(s, profile_out_script(build, snapshot, name, user, noconfirm), deeds()),
            build,
            snapshot,
            name,
            user,
            noconfirm,
        ),
{
    broadcast use {crate::outcomes::group_outcomes, crate::record::group_ok};

    assert(spares(deeds()));
    let p = profile_out_script(build, snapshot, name, user, noconfirm);
    let q = uninstall_profile_script(build, snapshot, name, user, noconfirm);
    let post = post_transactions_script(build, snapshot);
    let bad = Req::Eprint { text: "Uninstall failed and changes discarded!"@ };
    reveal(profile_out_script);
    reveal(discard_script);
    let d = record(s, p, deeds());
    assert(d.len() >= 0);
    let first = record(s, q, deeds());
    let t = run(s, attempt(q)).now;
    if run(s, attempt(q)).out->Ok_0 is Ok {
        law_uninstall_profile(s, build, snapshot, name, user, noconfirm);
        assert(uninstalls_profile(first, snapshot, name, user, noconfirm));
        let after = record(t, post, deeds());
        if run(t, attempt(post)).out->Ok_0 is Ok {
            let note = crate::triage::profile_removed(spoken(name, user), snapshot);
            assert(keeps(after, snapshot));
            assert(d =~= first + after + did(seq![Req::Print { text: note }]));
        } else {
            let e = run(t, attempt(post)).out->Ok_0->Err_0;
            assert(failed_with(t, post, e));
            assert(d =~= first + after + did(seq![bad]));
        }
    } else {
        let e = run(s, attempt(q)).out->Ok_0->Err_0;
        assert(failed_with(s, q, e));
        assert(d =~= first + did(seq![Req::Eprint { text: e.text }, bad]));
    }
}

/// Something was done only where the snapshot is the one that runs; otherwise that is told.
pub open spec fn only_live(
    d: Seq<(Req, Answer)>,
    snapshot: Seq<char>,
    inner: spec_fn(Seq<(Req, Answer)>) -> bool,
) -> bool {
    ||| exists|note: Seq<char>|
        trimmed_end(note) != snapshot && d == #[trigger] asked_current(note) + did(
            seq![
                Req::Eprint {
                    text:
                        "Can't use the live option with any other snapshot than the current one."@,
                },
            ],
        )
    ||| exists|note: Seq<char>, again: Seq<char>, rest: Seq<(Req, Answer)>|
        trimmed_end(note) == snapshot && d == #[trigger] asked_current(note)
            + #[trigger] (asked_current(again) + rest) && (if trimmed_end(again) == snapshot {
            inner(rest)
        } else {
            rest.len() == 0
        })
}

proof fn lemma_if_running(
    s: Session,
    snapshot: Seq<char>,
    live: Script<()>,
    inner: spec_fn(Seq<(Req, Answer)>) -> bool,
)
    requires
        run(s, if_running(snapshot, live)).out is Ok,
        forall|t: Session| #[trigger] run(t, live).out is Ok ==> inner(record(t, live, deeds())),
    ensures
        only_live(record(s, if_running(snapshot, live), deeds()), snapshot, inner),
{
    broadcast use crate::record::group_ok;

    let p = if_running(snapshot, live);
    let d = record(s, p, deeds());
    assert(d.len() >= 0);
    reveal_strlit("/usr/share/ash/snap");
    lemma_current(s, deeds());
    let note = s.next()->Text_0;
    let t = run(s, get_current_snapshot_script()).now;
    if trimmed_end(note) != snapshot {
        assert(d =~= asked_current(note) + did(seq![Req::Eprint { text: not_running() }]));
    } else {
        lemma_current(t, deeds());
        let again = t.next()->Text_0;
        let u = run(t, get_current_snapshot_script()).now;
        let rest = if trimmed_end(again) == snapshot {
            record(u, live, deeds())
        } else {
            seq![]
        };
        assert(trimmed_end(again) == snapshot ==> run(u, live).out is Ok);
        assert(d =~= asked_current(note) + (asked_current(again) + rest));
    }
}

/// `install_triage` installs the packages where packages but no profile are given, and the profile
/// where one is given, by its name or by the user; in the snapshot, or in the deployment that runs
/// where that is asked for, and then only if the snapshot is the one that runs.
pub proof fn law_install_triage(
    s: Session,
    build: Build,
    snapshot: Seq<char>,
    live: bool,
    pkgs: Seq<Seq<char>>,
    name: Seq<char>,
    force: bool,
    user: Seq<char>,
    noconfirm: bool,
    secondary: bool,
)
    ensures
        ({
            let p = install_triage_script(
                build,
                snapshot,
                live,
                pkgs,
                name,
                force,
                user,
                noconfirm,
                secondary,
            );
            let d = record(s, p, deeds());
            let note = "Package(s) "@ + debug_text(pkgs) + " installed in snapshot "@ + snapshot
                + " successfully."@;
            let shown = if user.len() == 0 {
                name
            } else {
                user
            };
            run(s, p).out is Ok ==> if name.len() == 0 && pkgs.len() > 0 {
                if live {
                    only_live(
                        d,
                        snapshot,
                        |r: Seq<(Req, Answer)>| told(r, install_live_script(pkgs, noconfirm), note),
                    )
                } else {
                    told(d, install_script(build, snapshot, pkgs, noconfirm), note)
                }
            } else if name.len() > 0 || user.len() > 0 {
                if live {
                    only_live(
                        d,
                        snapshot,
                        |r: Seq<(Req, Answer)>|
                            told(
                                r,
                                install_profile_live_script(
                                    build,
                                    snapshot,
                                    name,
                                    force,
                                    user,
                                    noconfirm,
                                ),
                                "Profile "@ + shown + " installed in current/live snapshot."@,
                            ),
                    )
                } else {
                    profile_came_in(
                        d,
                        build,
                        snapshot,
                        name,
                        force,
                        user,
                        noconfirm,
                        secondary,
                    )
                }
            } else {
                !live ==> d.len() == 0
            }
        }),
{
    broadcast use crate::record::group_ok;

    let p = install_triage_script(
        build,
        snapshot,
        live,
        pkgs,
        name,
        force,
        user,
        noconfirm,
        secondary,
    );
    reveal(install_triage_script);
    let note = "Package(s) "@ + debug_text(pkgs) + " installed in snapshot "@ + snapshot
        + " successfully."@;
    if run(s, p).out is Ok {
        if name.len() == 0 && pkgs.len() > 0 {
            if live {
                let q = pkgs_in_live_script(snapshot, pkgs, noconfirm);
                let inner = |r: Seq<(Req, Answer)>|
                    told(r, install_live_script(pkgs, noconfirm), note);
                assert forall|t: Session| #[trigger] run(t, q).out is Ok implies inner(
                    record(t, q, deeds()),
                ) by {
                    reveal(pkgs_in_live_script);
                    assert(record(t, q, deeds()).len() >= 0);
                    lemma_tell(t, install_live_script(pkgs, noconfirm), note, q);
                }
                lemma_if_running(s, snapshot, q, inner);
            } else {
                let q = pkgs_in_script(build, snapshot, pkgs, noconfirm);
                reveal(pkgs_in_script);
                assert(record(s, q, deeds()).len() >= 0);
                lemma_tell(s, install_script(build, snapshot, pkgs, noconfirm), note, q);
            }
        } else if name.len() > 0 || user.len() > 0 {
            if live {
                let told_so = "Profile "@ + spoken(name, user)
                    + " installed in current/live snapshot."@;
                let q = profile_in_live_script(build, snapshot, name, force, user, noconfirm);
                let op = install_profile_live_script(
                    build,
                    snapshot,
                    name,
                    force,
                    user,
                    noconfirm,
                );
                let inner = |r: Seq<(Req, Answer)>| told(r, op, told_so);
                assert forall|t: Session| #[trigger] run(t, q).out is Ok implies inner(
                    record(t, q, deeds()),
                ) by {
                    reveal(profile_in_live_script);
                    assert(record(t, q, deeds()).len() >= 0);
                    lemma_tell(t, op, told_so, q);
                }
                lemma_if_running(s, snapshot, q, inner);
                assert(inner =~= (|r: Seq<(Req, Answer)>|
                    told(
                        r,
                        install_profile_live_script(build, snapshot, name, force, user, noconfirm),
                        "Profile "@ + (if user.len() == 0 {
                            name
                        } else {
                            user
                        }) + " installed in current/live snapshot."@,
                    )));
            } else {
                lemma_profile_in(s, build, snapshot, name, force, user, noconfirm, secondary);
            }
        }
    }
}

/// `uninstall_triage` removes the packages where packages but no profile are given, and the
/// profile where one is given, by its name or by the user; from the snapshot, or from the
/// deployment that runs where that is asked for, and then only if the snapshot is the one that
/// runs.
pub proof fn law_uninstall_triage(
    s: Session,
    build: Build,
    snapshot: Seq<char>,
    live: bool,
    pkgs: Seq<Seq<char>>,
    name: Seq<char>,
    user: Seq<char>,
    noconfirm: bool,
)
    ensures
        ({
            let p = uninstall_triage_script(
                build,
                snapshot,
                live,
                pkgs,
                name,
                user,
                noconfirm,
            );
            let d = record(s, p, deeds());
            let note = "Package(s) "@ + debug_text(pkgs) + " removed from snapshot "@ + snapshot
                + " successfully."@;
            let shown = if user.len() == 0 {
                name
            } else {
                user
            };
            run(s, p).out is Ok ==> if name.len() == 0 && pkgs.len() > 0 {
                if live {
                    only_live(
                        d,
                        snapshot,
                        |r: Seq<(Req, Answer)>|
                            told(r, uninstall_live_script(pkgs, noconfirm), note),
                    )
                } else {
                    uninstalls(d, snapshot, pkgs, noconfirm)
                }
            } else if name.len() > 0 || user.len() > 0 {
                if live {
                    only_live(
                        d,
                        snapshot,
                        |r: Seq<(Req, Answer)>|
                            told(
                                r,
                                uninstall_profile_live_script(snapshot, name, user, noconfirm),
                                "Profile "@ + shown + " removed from current/live snapshot."@,
                            ),
                    )
                } else {
                    profile_went_out(d, build, snapshot, name, user, noconfirm)
                }
            } else {
                !live ==> d.len() == 0
            }
        }),
{
    broadcast use crate::record::group_ok;

    let p = uninstall_triage_script(build, snapshot, live, pkgs, name, user, noconfirm);
    reveal(uninstall_triage_script);
    let note = "Package(s) "@ + debug_text(pkgs) + " removed from snapshot "@ + snapshot
        + " successfully."@;
    if run(s, p).out is Ok {
        if name.len() == 0 && pkgs.len() > 0 {
            if live {
                let q = pkgs_out_live_script(snapshot, pkgs, noconfirm);
                let inner = |r: Seq<(Req, Answer)>|
                    told(r, uninstall_live_script(pkgs, noconfirm), note);
                assert forall|t: Session| #[trigger] run(t, q).out is Ok implies inner(
                    record(t, q, deeds()),
                ) by {
                    reveal(pkgs_out_live_script);
                    assert(record(t, q, deeds()).len() >= 0);
                    lemma_tell(t, uninstall_live_script(pkgs, noconfirm), note, q);
                }
                lemma_if_running(s, snapshot, q, inner);
            } else {
                law_uninstall(s, build, snapshot, pkgs, noconfirm);
            }
        } else if name.len() > 0 || user.len() > 0 {
            if live {
                let told_so = "Profile "@ + spoken(name, user)
                    + " removed from current/live snapshot."@;
                let q = profile_out_live_script(snapshot, name, user, noconfirm);
                let op = uninstall_profile_live_script(snapshot, name, user, noconfirm);
                let inner = |r: Seq<(Req, Answer)>| told(r, op, told_so);
                assert forall|t: Session| #[trigger] run(t, q).out is Ok implies inner(
                    record(t, q, deeds()),
                ) by {
                    reveal(profile_out_live_script);
                    assert(record(t, q, deeds()).len() >= 0);
                    lemma_tell(t, op, told_so, q);
                }
                lemma_if_running(s, snapshot, q, inner);
                assert(inner =~= (|r: Seq<(Req, Answer)>|
                    told(
                        r,
                        uninstall_profile_live_script(snapshot, name, user, noconfirm),
                        "Profile "@ + (if user.len() == 0 {
                            name
                        } else {
                            user
                        }) + " removed from current/live snapshot."@,
                    )));
            } else {
                lemma_profile_out(s, build, snapshot, name, user, noconfirm);
            }
        }
    }
}

}
