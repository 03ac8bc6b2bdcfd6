//! What working in the temporary copy of a snapshot comes to.

use vstd::prelude::*;
use crate::chroots::{
    chroot_exec_script, chroot_in_script, post_transactions_script, prepare_script, shell, success,
};
use crate::editing::{
    apply_edit_script, chroot_command, chroot_script, chroot_shell_script, edit_config_script,
    edit_profile_script, editors, keep_changes_script, own_editor_script,
    snapshot_config_edit_script, snapshot_profile_edit_script, try_editors,
};
use crate::exchanging::shell_ran;
use crate::guard::{guard_script, ready_script};
use crate::handling::{lemma_ready, refused};
use crate::mounting::all_in;
use crate::outcomes::{deeds, keeps, makes_ready, spares};
use crate::paths::{chr, rootfs, volume, Volume};
use crate::profile::{keys_of, Table};
use crate::profiles::{
    apply_script, check_profile_script, dedup, if_any, new_profile, old_profile, prune_rest,
    prune_services, rewrite_script, sync_each, sync_one, sync_pkgs, sync_rest, sync_services,
    sync_system, system_change, without,
};
use crate::record::{did, in_turn, record, record_each};
use crate::request::{Answer, ExitStatus, Fault, Req};
use crate::script::{
    asks_only, attempt, chain, done, each, flag, lemma_asks_chain, profile, run, status, sure,
    texts, warn, Build, Halted, Session, Stop,
};
use crate::supplying::{did_if, enter, read_from};

verus! {

// ------------------------------------------------------------------ profiles

/// A profile was applied in the temporary copy of a snapshot. The packages and services that are
/// only in the new one were installed and enabled, those that are only in the old one removed
/// and disabled; a package that only moved between the two lists was not removed.
#[verifier::opaque]
pub open spec fn applied(d: Seq<(Req, Answer)>, snapshot: Seq<char>, o: Table, n: Table) -> bool {
    let old_system = keys_of(o, "system-packages"@);
    let old_pkgs = keys_of(o, "profile-packages"@);
    let new_system = keys_of(n, "system-packages"@);
    let new_pkgs = keys_of(n, "profile-packages"@);
    let add_system = without(new_system, old_system);
    let add_pkgs = without(new_pkgs, old_pkgs);
    let off = without(keys_of(o, "enable-services"@), keys_of(n, "enable-services"@)) + without(
        keys_of(n, "disable-services"@),
        keys_of(o, "disable-services"@),
    );
    let on = without(keys_of(n, "enable-services"@), keys_of(o, "enable-services"@));
    let drop_system = without(without(old_system, new_system), new_pkgs);
    let drop_pkgs = without(without(old_pkgs, new_pkgs), new_system);
    d == did_if(
        add_system.len() > 0,
        Req::InstallInChroot { snapshot, pkgs: add_system, noconfirm: true },
    ) + did_if(
        add_pkgs.len() > 0,
        Req::InstallInChroot { snapshot, pkgs: add_pkgs, noconfirm: true },
    ) + did_if(
        off.len() > 0,
        Req::DisableServices { snapshot, services: off, chr: "chr"@ },
    ) + did_if(on.len() > 0, Req::EnableServices { snapshot, services: on, chr: "chr"@ }) + (did_if(
        drop_system.len() > 0,
        Req::UninstallInChroot { snapshot, pkgs: drop_system, noconfirm: true },
    ) + did_if(
        drop_pkgs.len() > 0,
        Req::UninstallInChroot { snapshot, pkgs: drop_pkgs, noconfirm: true },
    ))
}

proof fn lemma_if_any(s: Session, list: Seq<Seq<char>>, req: Req)
    requires
        run(s, if_any(list, req)).out is Ok,
        !crate::outcomes::background(req),
    ensures
        record(s, if_any(list, req), deeds()) == did_if(list.len() > 0, req),
{
    broadcast use crate::record::group_ok;

    reveal(did_if);
    assert(record(s, if_any(list, req), deeds()) =~= did_if(list.len() > 0, req));
}

proof fn lemma_system_change(
    s: Session,
    build: Build,
    list: Seq<Seq<char>>,
    req: Req,
    complaint: Seq<char>,
)
    requires
        run(s, system_change(build, list, req, complaint)).out is Ok,
        !crate::outcomes::background(req),
    ensures
        list.len() > 0 ==> !build.lock,
        record(s, system_change(build, list, req, complaint), deeds()) == did_if(
            list.len() > 0,
            req,
        ),
{
    if !(list.len() > 0 && build.lock) {
        lemma_if_any(s, list, req);
    }
}

/// Where a profile is applied with success, the packages and services that are only in the new
/// one are installed and enabled, and those that are only in the old one removed and disabled.
/// While system packages are locked, none of them changes.
#[verifier::rlimit(40)]
pub proof fn law_apply(s: Session, build: Build, snapshot: Seq<char>, o: Table, n: Table)
    ensures
        run(s, apply_script(build, snapshot, o, n)).out is Ok ==> applied(
            record(s, apply_script(build, snapshot, o, n), deeds()),
            snapshot,
            o,
            n,
        ),
{
    broadcast use crate::record::ok_chain;

    let p = apply_script(build, snapshot, o, n);
    reveal(apply_script);
    reveal(applied);
    if run(s, p).out is Ok {
        assert(record(s, p, deeds()).len() >= 0);
        let old_system = keys_of(o, "system-packages"@);
        let old_pkgs = keys_of(o, "profile-packages"@);
        let new_system = keys_of(n, "system-packages"@);
        let new_pkgs = keys_of(n, "profile-packages"@);
        let add_system = without(new_system, old_system);
        let add_pkgs = without(new_pkgs, old_pkgs);
        let off = without(keys_of(o, "enable-services"@), keys_of(n, "enable-services"@)) + without(
            keys_of(n, "disable-services"@),
            keys_of(o, "disable-services"@),
        );
        let on = without(keys_of(n, "enable-services"@), keys_of(o, "enable-services"@));
        let drop_system = without(without(old_system, new_system), new_pkgs);
        let drop_pkgs = without(without(old_pkgs, new_pkgs), new_system);
        let r1 = Req::InstallInChroot { snapshot, pkgs: add_system, noconfirm: true };
        let no1 = "Install system package(s) is not allowed."@;
        lemma_system_change(s, build, add_system, r1, no1);
        let t = run(s, system_change(build, add_system, r1, no1)).now;
        let r2 = Req::InstallInChroot { snapshot, pkgs: add_pkgs, noconfirm: true };
        lemma_if_any(t, add_pkgs, r2);
        let t = run(t, if_any(add_pkgs, r2)).now;
        let r3 = Req::DisableServices { snapshot, services: off, chr: "chr"@ };
        lemma_if_any(t, off, r3);
        let t = run(t, if_any(off, r3)).now;
        let r4 = Req::EnableServices { snapshot, services: on, chr: "chr"@ };
        lemma_if_any(t, on, r4);
        let t = run(t, if_any(on, r4)).now;
        let r5 = Req::UninstallInChroot { snapshot, pkgs: drop_system, noconfirm: true };
        let no5 = "Remove system package(s) is not allowed."@;
        lemma_system_change(t, build, drop_system, r5, no5);
        let t = run(t, system_change(build, drop_system, r5, no5)).now;
        let r6 = Req::UninstallInChroot { snapshot, pkgs: drop_pkgs, noconfirm: true };
        lemma_if_any(t, drop_pkgs, r6);
        crate::record::lemma_row(
            did_if(add_system.len() > 0, r1),
            did_if(add_pkgs.len() > 0, r2),
            did_if(off.len() > 0, r3),
            did_if(on.len() > 0, r4),
            did_if(drop_system.len() > 0, r5) + did_if(drop_pkgs.len() > 0, r6),
        );
    }
}

/// Requests that settle the profile in the temporary copy of a snapshot: it is written there and
/// nowhere else, services are looked up in that snapshot, and packages are locked there.
pub open spec fn settles(snapshot: Seq<char>) -> spec_fn(Req) -> bool {
    |req: Req|
        match req {
            Req::WriteProfile { path, .. } => path == rootfs(chr(snapshot)) + "/etc/ash/profile"@,
            Req::ServiceEnabled { snapshot: at, .. } => at == snapshot,
            Req::LockPackages { snapshot: at, .. } => at == snapshot,
            _ => false,
        }
}

/// The profile of a snapshot was checked: the one that the snapshot had and the one in its
/// temporary copy were read, the difference was applied, and the profile was settled with what is
/// then installed there. Last, its packages were locked.
#[verifier::opaque]
pub open spec fn checked(d: Seq<(Req, Answer)>, snapshot: Seq<char>) -> bool {
    exists|
        o: Table,
        n: Table,
        change: Seq<(Req, Answer)>,
        installed: Seq<Seq<char>>,
        rest: Seq<(Req, Answer)>,
        last: Table,
    |
        #![trigger read_from(volume(Volume::Etc, snapshot) + "/ash/profile"@, o), read_from(rootfs(chr(snapshot)) + "/etc/ash/profile"@, n), applied(change, snapshot, o, n), told_installed(snapshot, installed), settled_as(rest, snapshot, last)]
        applied(change, snapshot, o, n) && settled_as(rest, snapshot, last) && d == read_from(
            volume(Volume::Etc, snapshot) + "/ash/profile"@,
            o,
        ) + read_from(rootfs(chr(snapshot)) + "/etc/ash/profile"@, n) + change + told_installed(
            snapshot,
            installed,
        ) + rest
}

/// It was asked which packages are installed in the temporary copy of a snapshot.
pub open spec fn told_installed(snapshot: Seq<char>, installed: Seq<Seq<char>>) -> Seq<(Req, Answer)> {
    seq![(Req::NoDepPkgList { snapshot, chr: "chr"@ }, Answer::Texts(installed))]
}

/// The profile was settled, and last its packages were locked.
pub open spec fn settled_as(d: Seq<(Req, Answer)>, snapshot: Seq<char>, last: Table) -> bool {
    &&& all_in(d, settles(snapshot))
    &&& d.len() > 0 && d.last() == (Req::LockPackages { snapshot, profile: last }, Answer::Done)
}

proof fn lemma_rewrite_settles(build: Build, snapshot: Seq<char>, installed: Seq<Seq<char>>, n: Table)
    ensures
        asks_only(rewrite_script(build, snapshot, installed, n), settles(snapshot)),
{
    broadcast use crate::script::group_asks;

    let ok = settles(snapshot);
    let file = new_profile(snapshot);
    assert forall|list: Seq<Seq<char>>, todo: Seq<Seq<char>>, table: Table| asks_only(
        #[trigger] sync_each(build, file, list, todo, table),
        ok,
    ) by {
        lemma_sync_settles(build, snapshot, list, todo, table);
    }
    assert forall|section: Seq<char>, wanted: bool, table: Table| asks_only(
        #[trigger] sync_services(snapshot, file, section, wanted, table),
        ok,
    ) by {
        reveal(sync_services);
        assert forall|todo: Seq<Seq<char>>, x: Table| asks_only(
            #[trigger] prune_services(snapshot, section, wanted, todo, x),
            ok,
        ) by {
            lemma_prune_settles(snapshot, section, wanted, todo, x);
        }
    }
    assert forall|todo: Seq<Seq<char>>, pkgs: Seq<Seq<char>>, x: Table| asks_only(
        #[trigger] dedup(file, todo, pkgs, x),
        ok,
    ) by {
        lemma_dedup_settles(snapshot, todo, pkgs, x);
    }
    reveal(rewrite_script);
}

proof fn lemma_sync_settles(
    build: Build,
    snapshot: Seq<char>,
    list: Seq<Seq<char>>,
    todo: Seq<Seq<char>>,
    x: Table,
)
    ensures
        asks_only(sync_each(build, new_profile(snapshot), list, todo, x), settles(snapshot)),
    decreases todo.len(),
{
    broadcast use crate::script::group_asks;

    let file = new_profile(snapshot);
    let ok = settles(snapshot);
    if todo.len() > 0 {
        let rest = todo.drop_first();
        assert forall|y: Table| asks_only(#[trigger] sync_system(build, file, list, y), ok) by {
            reveal(sync_system);
        }
        assert forall|y: Table| asks_only(#[trigger] sync_pkgs(file, list, y), ok) by {
            reveal(sync_pkgs);
        }
        let one = sync_one(build, file, list, todo[0], x);
        assert(asks_only(one, ok)) by {
            reveal(sync_one);
        }
        assert forall|y: Table| asks_only(
            #[trigger] sync_rest(build, file, list, rest)(y),
            ok,
        ) by {
            lemma_sync_settles(build, snapshot, list, rest, y);
        }
        lemma_asks_chain(one, sync_rest(build, file, list, rest), ok);
        assert(sync_each(build, file, list, todo, x) == chain(
            one,
            sync_rest(build, file, list, rest),
        ));
    }
}

proof fn lemma_prune_settles(
    snapshot: Seq<char>,
    section: Seq<char>,
    wanted: bool,
    todo: Seq<Seq<char>>,
    x: Table,
)
    ensures
        asks_only(prune_services(snapshot, section, wanted, todo, x), settles(snapshot)),
    decreases todo.len(),
{
    broadcast use crate::script::group_asks;

    if todo.len() > 0 {
        let rest = todo.drop_first();
        assert forall|on: bool| asks_only(
            #[trigger] prune_rest(snapshot, section, wanted, rest, todo[0], x)(on),
            settles(snapshot),
        ) by {
            lemma_prune_settles(
                snapshot,
                section,
                wanted,
                rest,
                if on == wanted {
                    x
                } else {
                    crate::profile::table_without(x, section, todo[0])
                },
            );
        }
        let ask = Req::ServiceEnabled { snapshot, service: todo[0] };
        let k = prune_rest(snapshot, section, wanted, rest, todo[0], x);
        lemma_asks_chain(flag(ask), k, settles(snapshot));
        assert(prune_services(snapshot, section, wanted, todo, x) == chain(flag(ask), k));
    }
}

proof fn lemma_dedup_settles(
    snapshot: Seq<char>,
    todo: Seq<Seq<char>>,
    pkgs: Seq<Seq<char>>,
    x: Table,
)
    ensures
        asks_only(dedup(new_profile(snapshot), todo, pkgs, x), settles(snapshot)),
    decreases todo.len(),
{
    broadcast use crate::script::group_asks;

    if todo.len() > 0 {
        let rest = todo.drop_first();
        if pkgs.contains(todo[0]) {
            lemma_dedup_settles(
                snapshot,
                rest,
                pkgs,
                crate::profile::table_without(x, "profile-packages"@, todo[0]),
            );
        } else {
            lemma_dedup_settles(snapshot, rest, pkgs, x);
        }
    }
}

proof fn lemma_rewrite(
    s: Session,
    build: Build,
    snapshot: Seq<char>,
    installed: Seq<Seq<char>>,
    n: Table,
) -> (last: Table)
    requires
        run(s, rewrite_script(build, snapshot, installed, n)).out is Ok,
    ensures
        settled_as(
            record(s, rewrite_script(build, snapshot, installed, n), deeds()),
            snapshot,
            last,
        ),
{
    broadcast use crate::record::group_ok;

    let p = rewrite_script(build, snapshot, installed, n);
    lemma_rewrite_settles(build, snapshot, installed, n);
    crate::record::lemma_record_only(s, p, deeds(), settles(snapshot));
    reveal(rewrite_script);
    let d = record(s, p, deeds());
    assert(d.len() >= 0);
    let file = new_profile(snapshot);
    let p1 = sync_each(build, file, crate::profiles::spellings(installed), installed, n);
    let t1 = run(s, p1).out->Ok_0;
    let u = run(s, p1).now;
    let p2 = sync_services(snapshot, file, "enable-services"@, true, t1);
    let t2 = run(u, p2).out->Ok_0;
    let u = run(u, p2).now;
    let p3 = sync_services(snapshot, file, "disable-services"@, false, t2);
    let t3 = run(u, p3).out->Ok_0;
    let u = run(u, p3).now;
    let p4 = dedup(
        file,
        keys_of(t3, "system-packages"@),
        keys_of(t3, "profile-packages"@),
        t3,
    );
    let t4 = run(u, p4).out->Ok_0;
    let u = run(u, p4).now;
    let order = Req::LockPackages { snapshot, profile: t4 };
    assert(record(u, done(order), deeds()) == did(seq![order]));
    assert(d.last() == did(seq![order]).last());
    t4
}

/// What `check_profile` leaves on record.
#[verifier::rlimit(40)]
pub proof fn law_check_profile_record(s: Session, build: Build, snapshot: Seq<char>)
    ensures
        run(s, check_profile_script(build, snapshot)).out is Ok ==> checked(
            record(s, check_profile_script(build, snapshot), deeds()),
            snapshot,
        ),
{
    broadcast use crate::record::group_ok;

    let p = check_profile_script(build, snapshot);
    reveal(check_profile_script);
    reveal(checked);
    if run(s, p).out is Ok {
        let d = record(s, p, deeds());
        assert(d.len() >= 0);
        let o = s.next()->Profile_0;
        let t = run(s, sure(profile(Req::ReadProfile { path: old_profile(snapshot) }))).now;
        let n = t.next()->Profile_0;
        let t = run(t, sure(profile(Req::ReadProfile { path: new_profile(snapshot) }))).now;
        law_apply(t, build, snapshot, o, n);
        let apply = apply_script(build, snapshot, o, n);
        let change = record(t, apply, deeds());
        let t = run(t, apply).now;
        let installed = t.next()->Texts_0;
        let t = run(t, texts(Req::NoDepPkgList { snapshot, chr: "chr"@ })).now;
        let last = lemma_rewrite(t, build, snapshot, installed, n);
        let rest = record(t, rewrite_script(build, snapshot, installed, n), deeds());
        let a = read_from(volume(Volume::Etc, snapshot) + "/ash/profile"@, o);
        let b = read_from(rootfs(chr(snapshot)) + "/etc/ash/profile"@, n);
        assert(applied(change, snapshot, o, n) && settled_as(rest, snapshot, last));
        crate::record::lemma_row(a, b, change, told_installed(snapshot, installed), rest);
        assert(d =~= a + (b + (change + (told_installed(snapshot, installed) + rest))));
    }
}

// ------------------------------------------------------------------- editing

/// It was asked whether an editor is there.
pub open spec fn sought(name: Seq<char>, code: ExitStatus) -> (Req, Answer) {
    shell_ran("[ -x \"$(command -v "@ + name + ")\" ]"@, code)
}

/// Editors were sought in order; the first that is there was run on the file.
pub open spec fn edited_by(
    d: Seq<(Req, Answer)>,
    names: Seq<Seq<char>>,
    file: Seq<char>,
    k: int,
) -> bool {
    &&& 0 <= k < names.len() && d.len() == k + 2
    &&& forall|j: int|
        0 <= j <= k ==> (#[trigger] d[j]).1 is Status && d[j] == sought(
            names[j],
            d[j].1->Status_0,
        ) && success(d[j].1->Status_0) == (j == k)
    &&& d[k + 1].1 is Status && d[k + 1] == shell_ran(
        names[k] + " "@ + file,
        d[k + 1].1->Status_0,
    )
}

/// Editors were sought, and none is there.
pub open spec fn no_editor(d: Seq<(Req, Answer)>, names: Seq<Seq<char>>) -> bool {
    &&& d.len() == names.len()
    &&& forall|j: int|
        0 <= j < d.len() ==> (#[trigger] d[j]).1 is Status && d[j] == sought(
            names[j],
            d[j].1->Status_0,
        ) && !success(d[j].1->Status_0)
}

proof fn lemma_try_editors(s: Session, names: Seq<Seq<char>>, file: Seq<char>)
    requires
        run(s, try_editors(names, file)).out is Ok,
    ensures
        ({
            let d = record(s, try_editors(names, file), deeds());
            if run(s, try_editors(names, file)).out->Ok_0 {
                exists|k: int| #[trigger] edited_by(d, names, file, k)
            } else {
                no_editor(d, names)
            }
        }),
    decreases names.len(),
{
    broadcast use crate::record::group_ok;

    let p = try_editors(names, file);
    let d = record(s, p, deeds());
    if names.len() > 0 {
        let ask = status(shell("[ -x \"$(command -v "@ + names[0] + ")\" ]"@));
        assert(d.len() >= 0);
        let code = s.next()->Status_0;
        let t = run(s, sure(ask)).now;
        if success(code) {
            assert(d =~= seq![
                sought(names[0], code),
                shell_ran(names[0] + " "@ + file, t.next()->Status_0),
            ]);
            assert(edited_by(d, names, file, 0));
        } else {
            let rest = names.drop_first();
            lemma_try_editors(t, rest, file);
            let e = record(t, try_editors(rest, file), deeds());
            assert(d =~= seq![sought(names[0], code)] + e);
            if run(t, try_editors(rest, file)).out->Ok_0 {
                let k = choose|k: int| #[trigger] edited_by(e, rest, file, k);
                assert forall|j: int| 0 <= j <= k + 1 implies (#[trigger] d[j]).1 is Status && d[j]
                    == sought(names[j], d[j].1->Status_0) && success(d[j].1->Status_0) == (j == k
                    + 1) by {
                    if j > 0 {
                        assert(d[j] == e[j - 1]);
                        assert(names[j] == rest[j - 1]);
                    }
                }
                assert(d[k + 2] == e[k + 1]);
                assert(edited_by(d, names, file, k + 1));
            } else {
                assert forall|j: int| 0 <= j < d.len() implies (#[trigger] d[j]).1 is Status && d[j]
                    == sought(names[j], d[j].1->Status_0) && !success(d[j].1->Status_0) by {
                    if j > 0 {
                        assert(d[j] == e[j - 1]);
                        assert(names[j] == rest[j - 1]);
                    }
                }
            }
        }
    }
}

/// The editors that are sought, in order.
pub open spec fn known_editors() -> Seq<Seq<char>> {
    seq!["nano"@, "vi"@, "vim"@, "nvim"@, "micro"@]
}

/// A file was edited: with the editor that the user chose, or the first known one that is there.
pub open spec fn edits(d: Seq<(Req, Answer)>, file: Seq<char>) -> bool {
    ||| exists|code: ExitStatus|
        d == seq![
            (Req::EnvSet { name: "EDITOR"@ }, Answer::Flag(true)),
            #[trigger] shell_ran("$EDITOR "@ + file, code),
        ]
    ||| exists|rest: Seq<(Req, Answer)>, k: int|
        #[trigger] edited_by(rest, known_editors(), file, k) && d == seq![
            (Req::EnvSet { name: "EDITOR"@ }, Answer::Flag(false)),
        ] + rest
}

/// No editor is there, which was told.
pub open spec fn edits_not(d: Seq<(Req, Answer)>) -> bool {
    exists|rest: Seq<(Req, Answer)>|
        #[trigger] no_editor(rest, known_editors()) && d == seq![
            (Req::EnvSet { name: "EDITOR"@ }, Answer::Flag(false)),
        ] + rest + did(seq![Req::Eprint { text: "No text editor available!"@ }])
}

proof fn lemma_edit_profile(s: Session, snapshot: Seq<char>)
    requires
        run(s, edit_profile_script(snapshot)).out is Ok,
    ensures
        edits(
            record(s, edit_profile_script(snapshot), deeds()),
            rootfs(chr(snapshot)) + "/etc/ash/profile"@,
        ),
{
    broadcast use crate::record::group_ok;

    let p = edit_profile_script(snapshot);
    let file = rootfs(chr(snapshot)) + "/etc/ash/profile"@;
    reveal(edit_profile_script);
    reveal(own_editor_script);
    let d = record(s, p, deeds());
    assert(d.len() >= 0);
    let ask = Req::EnvSet { name: "EDITOR"@ };
    let t = run(s, flag(ask)).now;
    if s.next() == Answer::Flag(true) {
        let code = t.next()->Status_0;
        assert(d =~= seq![(ask, Answer::Flag(true)), shell_ran("$EDITOR "@ + file, code)]);
    } else {
        lemma_try_editors(t, editors(), file);
        assert(editors() =~= known_editors());
        let rest = record(t, try_editors(editors(), file), deeds());
        let k = choose|k: int| #[trigger] edited_by(rest, known_editors(), file, k);
        assert(d =~= seq![(ask, Answer::Flag(false))] + rest);
        assert(edited_by(rest, known_editors(), file, k));
    }
}

/// A `snapshot_profile_edit` that succeeds only warns where the snapshot is not there, in use, or
/// the base snapshot. Otherwise the profile in a temporary copy of the snapshot was edited and
/// checked, and the temporary copy then took the place of the snapshot.
#[verifier::rlimit(40)]
pub proof fn law_snapshot_profile_edit(s: Session, build: Build, snapshot: Seq<char>)
    ensures
        run(s, snapshot_profile_edit_script(build, snapshot)).out is Ok ==> ({
            let d = record(s, snapshot_profile_edit_script(build, snapshot), deeds());
            ||| refused(d, "chroot"@, snapshot)
            ||| exists|
                before: Seq<(Req, Answer)>,
                edit: Seq<(Req, Answer)>,
                check: Seq<(Req, Answer)>,
                after: Seq<(Req, Answer)>,
            |
                #![trigger makes_ready(before, snapshot), edits(edit, rootfs(chr(snapshot)) + "/etc/ash/profile"@), checked(check, snapshot), keeps(after, snapshot)]
                makes_ready(before, snapshot) && edits(
                    edit,
                    rootfs(chr(snapshot)) + "/etc/ash/profile"@,
                ) && checked(check, snapshot) && keeps(after, snapshot) && d == before + edit + check
                    + after
        }),
{
    broadcast use {crate::outcomes::group_outcomes, crate::record::group_ok};

    assert(spares(deeds()));
    let p = snapshot_profile_edit_script(build, snapshot);
    reveal(snapshot_profile_edit_script);
    reveal(apply_edit_script);
    if run(s, p).out is Ok {
        let d = record(s, p, deeds());
        assert(d.len() >= 0);
        let ready = ready_script("chroot"@, snapshot);
        lemma_ready(s, "chroot"@, snapshot);
        let t = run(s, ready).now;
        if run(s, ready).out->Ok_0 {
            let before = record(t, prepare_script(build, snapshot), deeds());
            let t = run(t, prepare_script(build, snapshot)).now;
            lemma_edit_profile(t, snapshot);
            let edit = record(t, edit_profile_script(snapshot), deeds());
            let t = run(t, edit_profile_script(snapshot)).now;
            assert(record(t, apply_edit_script(build, snapshot), deeds()).len() >= 0);
            let q = check_profile_script(build, snapshot);
            assert(run(t, attempt(q)).out->Ok_0 is Ok);
            law_check_profile_record(t, build, snapshot);
            let check = record(t, q, deeds());
            let t = run(t, attempt(q)).now;
            let after = record(t, post_transactions_script(build, snapshot), deeds());
            assert(makes_ready(before, snapshot) && edits(
                edit,
                rootfs(chr(snapshot)) + "/etc/ash/profile"@,
            ) && checked(check, snapshot) && keeps(after, snapshot));
            crate::record::lemma_row(before, edit, check, after, Seq::empty());
            assert(d =~= before + edit + check + after);
        } else {
            assert(d =~= record(s, ready, deeds()));
        }
    }
}

/// A `snapshot_config_edit` that succeeds only warns where the snapshot is not there, in use, or
/// the base snapshot. Otherwise the configuration in a temporary copy of the snapshot was edited,
/// if there is an editor, and the temporary copy then took the place of the snapshot.
pub proof fn law_snapshot_config_edit(s: Session, build: Build, snapshot: Seq<char>)
    ensures
        run(s, snapshot_config_edit_script(build, snapshot)).out is Ok ==> ({
            let d = record(s, snapshot_config_edit_script(build, snapshot), deeds());
            ||| refused(d, "chroot"@, snapshot)
            ||| exists|
                before: Seq<(Req, Answer)>,
                edit: Seq<(Req, Answer)>,
                after: Seq<(Req, Answer)>,
            |
                #![trigger makes_ready(before, snapshot), keeps(after, snapshot), before + edit]
                makes_ready(before, snapshot) && (edits(
                    edit,
                    rootfs(chr(snapshot)) + "/etc/ash/ash.conf"@,
                ) || edits_not(edit)) && keeps(after, snapshot) && d == before + edit + after
        }),
{
    broadcast use {crate::outcomes::group_outcomes, crate::record::group_ok};

    assert(spares(deeds()));
    let p = snapshot_config_edit_script(build, snapshot);
    reveal(snapshot_config_edit_script);
    if run(s, p).out is Ok {
        let d = record(s, p, deeds());
        assert(d.len() >= 0);
        let ready = ready_script("chroot"@, snapshot);
        lemma_ready(s, "chroot"@, snapshot);
        let t = run(s, ready).now;
        if run(s, ready).out->Ok_0 {
            let before = record(t, prepare_script(build, snapshot), deeds());
            let t = run(t, prepare_script(build, snapshot)).now;
            let (edit, after) = lemma_edit_config(t, build, snapshot);
            assert(makes_ready(before, snapshot) && keeps(after, snapshot));
            assert(d =~= before + edit + after);
        } else {
            assert(d =~= record(s, ready, deeds()));
        }
    }
}

proof fn lemma_edit_config(s: Session, build: Build, snapshot: Seq<char>) -> (r: (
    Seq<(Req, Answer)>,
    Seq<(Req, Answer)>,
))
    requires
        run(s, edit_config_script(build, snapshot)).out is Ok,
    ensures
        edits(r.0, rootfs(chr(snapshot)) + "/etc/ash/ash.conf"@) || edits_not(r.0),
        keeps(r.1, snapshot),
        record(s, edit_config_script(build, snapshot), deeds()) == r.0 + r.1,
{
    broadcast use {crate::outcomes::ok_post_transactions, crate::record::group_ok};

    let p = edit_config_script(build, snapshot);
    let file = rootfs(chr(snapshot)) + "/etc/ash/ash.conf"@;
    reveal(edit_config_script);
    reveal(own_editor_script);
    let d = record(s, p, deeds());
    assert(d.len() >= 0);
    let ask = Req::EnvSet { name: "EDITOR"@ };
    let t = run(s, flag(ask)).now;
    let post = post_transactions_script(build, snapshot);
    if s.next() == Answer::Flag(true) {
        let code = t.next()->Status_0;
        let edit = seq![(ask, Answer::Flag(true)), shell_ran("$EDITOR "@ + file, code)];
        let t = run(t, own_editor_script(file)).now;
        let after = record(t, post, deeds());
        assert(edits(edit, file));
        assert(d =~= edit + after);
        (edit, after)
    } else {
        lemma_try_editors(t, editors(), file);
        assert(editors() =~= known_editors());
        let rest = record(t, try_editors(editors(), file), deeds());
        let found = run(t, try_editors(editors(), file)).out->Ok_0;
        let t = run(t, try_editors(editors(), file)).now;
        if found {
            let k = choose|k: int| #[trigger] edited_by(rest, known_editors(), file, k);
            let edit = seq![(ask, Answer::Flag(false))] + rest;
            let after = record(t, post, deeds());
            assert(edited_by(rest, known_editors(), file, k));
            assert(edits(edit, file));
            assert(d =~= edit + after);
            (edit, after)
        } else {
            let note = "No text editor available!"@;
            let edit = seq![(ask, Answer::Flag(false))] + rest + did(
                seq![Req::Eprint { text: note }],
            );
            let t = run(t, warn(note)).now;
            let after = record(t, post, deeds());
            assert(no_editor(rest, known_editors()));
            assert(edits_not(edit));
            assert(d =~= edit + after);
            (edit, after)
        }
    }
}

// ------------------------------------------------------------------- working

/// What was done in the temporary copy was kept: the profile was checked, and the temporary copy
/// took the place of the snapshot. Where the check fails nothing more is done; where the copy
/// cannot take that place, that is told.
pub open spec fn kept_changes(d: Seq<(Req, Answer)>, build: Build, snapshot: Seq<char>) -> bool {
    let post = post_transactions_script(build, snapshot);
    ||| exists|check: Seq<(Req, Answer)>, after: Seq<(Req, Answer)>|
        #[trigger] checked(check, snapshot) && #[trigger] keeps(after, snapshot) && d == check
            + after
    ||| exists|t: Session|
        #[trigger] run(t, check_profile_script(build, snapshot)).out is Err && d == record(
            t,
            check_profile_script(build, snapshot),
            deeds(),
        )
    ||| exists|check: Seq<(Req, Answer)>, t: Session, e: Fault|
        #[trigger] checked(check, snapshot) && #[trigger] run(
            t,
            post_transactions_script(build, snapshot),
        ).out == Err::<(), Halted>(Halted::Stopped(Stop::Failed(e))) && d == check + record(
            t,
            post,
            deeds(),
        ) + did(seq![#[trigger] complaint(e)])
}

/// It is told that a temporary copy cannot take the place of its snapshot.
pub open spec fn complaint(e: Fault) -> Req {
    Req::Eprint { text: "post_transactions error: "@ + e.text }
}

proof fn lemma_keep_changes(s: Session, build: Build, snapshot: Seq<char>)
    requires
        run(s, keep_changes_script(build, snapshot)).out is Ok,
    ensures
        kept_changes(record(s, keep_changes_script(build, snapshot), deeds()), build, snapshot),
{
    broadcast use {crate::outcomes::group_outcomes, crate::record::group_ok};

    assert(spares(deeds()));
    let p = keep_changes_script(build, snapshot);
    let q = check_profile_script(build, snapshot);
    let post = post_transactions_script(build, snapshot);
    reveal(keep_changes_script);
    let d = record(s, p, deeds());
    assert(d.len() >= 0);
    let check = record(s, q, deeds());
    let t = run(s, attempt(q)).now;
    if run(s, attempt(q)).out->Ok_0 is Ok {
        law_check_profile_record(s, build, snapshot);
        assert(checked(check, snapshot));
        let after = record(t, post, deeds());
        if run(t, attempt(post)).out->Ok_0 is Ok {
            assert(keeps(after, snapshot));
            assert(d =~= check + after);
        } else {
            let e = run(t, attempt(post)).out->Ok_0->Err_0;
            assert(run(t, post).out == Err::<(), Halted>(Halted::Stopped(Stop::Failed(e))));
            assert(d =~= check + after + did(seq![complaint(e)]));
        }
    } else {
        assert(run(s, q).out is Err);
        assert(d =~= check);
    }
}

/// A command in a root.
pub open spec fn command(root: Seq<char>, cmd: Seq<char>) -> Req {
    Req::Run { program: "sh"@, args: seq!["-c"@, "chroot "@ + root + " "@ + cmd] }
}

/// A request was made of the shell, and ended like this.
pub open spec fn shell_end(req: Req, a: Answer) -> Seq<(Req, Answer)> {
    seq![(req, a)]
}

/// A temporary copy of a snapshot was made, a command was run in it, and where that ended with
/// success, what was done was kept.
pub open spec fn worked_in(
    d: Seq<(Req, Answer)>,
    build: Build,
    snapshot: Seq<char>,
    cmd: Seq<char>,
) -> bool {
    let root = rootfs(chr(snapshot));
    ||| exists|t: Session|
        #[trigger] run(t, prepare_script(build, snapshot)).out is Err && d == record(
            t,
            prepare_script(build, snapshot),
            deeds(),
        )
    ||| exists|before: Seq<(Req, Answer)>, a: Answer|
        #[trigger] makes_ready(before, snapshot) && d == before + #[trigger] shell_end(
            command(rootfs(chr(snapshot)), cmd),
            a,
        ) && !(a is Status && a->Status_0.code == Some(0i32))
    ||| exists|before: Seq<(Req, Answer)>, code: ExitStatus, rest: Seq<(Req, Answer)>|
        #[trigger] makes_ready(before, snapshot) && #[trigger] kept_changes(rest, build, snapshot)
            && code.code == Some(0i32) && d == before + #[trigger] shell_end(
            command(root, cmd),
            Answer::Status(code),
        ) + rest
}

/// The same, as a demand on a record and a command.
pub open spec fn working(build: Build, snapshot: Seq<char>) -> spec_fn(
    Seq<(Req, Answer)>,
    Seq<char>,
) -> bool {
    |d: Seq<(Req, Answer)>, cmd: Seq<char>| worked_in(d, build, snapshot, cmd)
}

proof fn lemma_chroot_command(s: Session, build: Build, snapshot: Seq<char>, cmd: Seq<char>)
    requires
        run(s, chroot_command(build, snapshot)(cmd)).out is Ok,
    ensures
        worked_in(
            record(s, chroot_command(build, snapshot)(cmd), deeds()),
            build,
            snapshot,
            cmd,
        ),
{
    broadcast use {crate::outcomes::group_outcomes, crate::record::group_ok};

    assert(spares(deeds()));
    let p = chroot_command(build, snapshot)(cmd);
    let ready = prepare_script(build, snapshot);
    let root = rootfs(chr(snapshot));
    let exec = chroot_exec_script(root, cmd);
    let d = record(s, p, deeds());
    assert(d.len() >= 0);
    let before = record(s, ready, deeds());
    let t = run(s, attempt(ready)).now;
    if run(s, attempt(ready)).out->Ok_0 is Ok {
        assert(makes_ready(before, snapshot));
        let a = t.next();
        assert(record(t, exec, deeds()) =~= shell_end(command(root, cmd), a) && (run(
            t,
            exec,
        ).out is Ok <==> a is Status && a->Status_0.code == Some(0i32))) by {
            lemma_exec(t, root, cmd);
        }
        let u = run(t, attempt(exec)).now;
        if run(t, attempt(exec)).out->Ok_0 is Ok {
            lemma_keep_changes(u, build, snapshot);
            let rest = record(u, keep_changes_script(build, snapshot), deeds());
            assert(d =~= before + shell_end(command(root, cmd), Answer::Status(a->Status_0)) + rest);
        } else {
            assert(d =~= before + shell_end(command(root, cmd), a));
        }
    } else {
        assert(run(s, ready).out is Err);
        assert(d =~= before);
    }
}

proof fn lemma_exec(s: Session, root: Seq<char>, cmd: Seq<char>)
    requires
        run(s, attempt(chroot_exec_script(root, cmd))).out is Ok,
    ensures
        record(s, chroot_exec_script(root, cmd), deeds()) == shell_end(command(root, cmd), s.next()),
        run(s, chroot_exec_script(root, cmd)).out is Ok <==> s.next() is Status
            && s.next()->Status_0.code == Some(0i32),
{
    broadcast use {
        crate::script::group_run,
        crate::record::record_follow,
        crate::record::record_ask,
        crate::record::record_end,
        crate::record::run_status,
    };

    reveal(chroot_exec_script);
    reveal_with_fuel(run, 2);
    assert(record(s, chroot_exec_script(root, cmd), deeds()) =~= shell_end(
        command(root, cmd),
        s.next(),
    ));
}

/// A `chroot` with commands that succeeds runs them in order, each in a temporary copy of the
/// snapshot of its own, and keeps what each did that ended with success.
pub proof fn law_chroot(s: Session, build: Build, snapshot: Seq<char>, cmds: Seq<Seq<char>>)
    requires
        cmds.len() > 0,
    ensures
        run(s, chroot_script(build, snapshot, cmds)).out is Ok ==> in_turn(
            record(s, chroot_script(build, snapshot, cmds), deeds()),
            cmds,
            working(build, snapshot),
        ),
{
    broadcast use {crate::outcomes::group_outcomes, crate::record::group_ok};

    assert(spares(deeds()));
    let p = chroot_script(build, snapshot, cmds);
    reveal(chroot_script);
    if run(s, p).out is Ok {
        assert(record(s, p, deeds()).len() >= 0);
        let t = run(s, guard_script("clone"@, snapshot)).now;
        let f = chroot_command(build, snapshot);
        assert forall|u: Session, x: Seq<char>| run(u, f(x)).out is Ok implies working(
            build,
            snapshot,
        )(#[trigger] record(u, f(x), deeds()), x) by {
            lemma_chroot_command(u, build, snapshot, x);
        }
        record_each(t, cmds, f, deeds(), working(build, snapshot));
        assert(record(s, p, deeds()) =~= record(t, each(cmds, f), deeds()));
    }
}

/// A `chroot` without commands that succeeds runs a shell in a temporary copy of the snapshot, and
/// keeps what was done there where the shell ended by itself.
pub proof fn law_chroot_shell(s: Session, build: Build, snapshot: Seq<char>)
    ensures
        run(s, chroot_script(build, snapshot, seq![])).out is Ok ==> ({
            let d = record(s, chroot_script(build, snapshot, seq![]), deeds());
            ||| exists|t: Session|
                #[trigger] run(t, prepare_script(build, snapshot)).out is Err && d == record(
                    t,
                    prepare_script(build, snapshot),
                    deeds(),
                )
            ||| exists|before: Seq<(Req, Answer)>, code: ExitStatus, rest: Seq<(Req, Answer)>|
                #![trigger makes_ready(before, snapshot), shell_end(enter(rootfs(chr(snapshot))), Answer::Status(code)), before + rest]
                makes_ready(before, snapshot) && d == before + shell_end(
                    enter(rootfs(chr(snapshot))),
                    Answer::Status(code),
                ) + rest && (if code.code is Some {
                    kept_changes(rest, build, snapshot)
                } else {
                    rest.len() == 0
                })
        }),
{
    broadcast use {crate::outcomes::group_outcomes, crate::record::group_ok};

    assert(spares(deeds()));
    let p = chroot_script(build, snapshot, seq![]);
    reveal(chroot_script);
    reveal(chroot_shell_script);
    reveal(chroot_in_script);
    if run(s, p).out is Ok {
        let d = record(s, p, deeds());
        assert(d.len() >= 0);
        let t = run(s, guard_script("clone"@, snapshot)).now;
        assert(record(t, chroot_shell_script(build, snapshot), deeds()).len() >= 0);
        let ready = prepare_script(build, snapshot);
        let root = rootfs(chr(snapshot));
        let before = record(t, ready, deeds());
        let u = run(t, attempt(ready)).now;
        if run(t, attempt(ready)).out->Ok_0 is Ok {
            assert(makes_ready(before, snapshot));
            let code = u.next()->Status_0;
            let v = run(u, chroot_in_script(root)).now;
            let rest = if code.code is Some {
                record(v, keep_changes_script(build, snapshot), deeds())
            } else {
                seq![]
            };
            if code.code is Some {
                lemma_keep_changes(v, build, snapshot);
            }
            assert((before + rest).len() >= 0);
            assert(d =~= before + shell_end(enter(root), Answer::Status(code)) + rest);
        } else {
            assert(run(t, ready).out is Err);
            assert(d =~= before);
        }
    }
}

}
