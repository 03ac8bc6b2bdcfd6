//! What the operations on the running deployment, on profiles and on lists of packages come to.

use vstd::prelude::*;
use crate::chroots::{chroot_exec_script, chroot_in_script, prepare_script};
use crate::deployment::{
    get_current_snapshot_script, get_tmp_script, live_unlock_script, mounts_script, running_slot,
};
use crate::guard::guard_script;
use crate::mounting::{lemma_ash_mounts, lemma_ash_umounts, mounted_at, unmounts};
use crate::mounts::ash_mounts_script;
use crate::outcomes::{background, deeds, makes_ready, spares};
use crate::packages::{
    carry_out_script, distro_script, exec_in, if_section, install_in_live_script,
    install_live_script, install_profile_live_script, install_profile_script, install_req,
    load_old_script, load_script, presets_script, profile_file, read_script, uninstall_live_script,
    uninstall_profile_live_script, uninstall_profile_script, updating_note,
};
use crate::paths::{chr, rootfs};
use crate::placing::{looked, ok_get_tmp, tells};
use crate::profile::{has_section, keys_of, Table};
use crate::record::{did, in_turn, record, record_each};
use crate::request::{Answer, ExitStatus, Req};
use crate::script::{attempt, done, each, run, say, text, Build, Session};
use crate::text::{lines, replaced, trimmed_end};

verus! {

/// All requests but those of the background, and mounting and releasing.
pub open spec fn live_deeds() -> spec_fn(Req) -> bool {
    |req: Req| !background(req) || req is Mount || req is Unmount
}

/// It was read which snapshot runs.
pub open spec fn asked_current(content: Seq<char>) -> Seq<(Req, Answer)> {
    seq![(Req::ReadText { path: "/usr/share/ash/snap"@ }, Answer::Text(content))]
}

proof fn lemma_running(s: Session)
    requires
        run(s, get_tmp_script()).out is Ok,
    ensures
        s.next() is Text,
        record(s, get_tmp_script(), live_deeds()) == looked(s.next()->Text_0),
        run(s, get_tmp_script()).out->Ok_0 == running_slot(lines(s.next()->Text_0)),
{
    broadcast use crate::record::group_ok;

    reveal(get_tmp_script);
    reveal(mounts_script);
    reveal_strlit("/proc/mounts");
    assert(record(s, get_tmp_script(), live_deeds()).len() >= 0);
    assert(record(s, get_tmp_script(), live_deeds()) =~= looked(s.next()->Text_0));
}

pub proof fn lemma_current(s: Session, keep: spec_fn(Req) -> bool)
    requires
        run(s, get_current_snapshot_script()).out is Ok,
        keep(Req::ReadText { path: "/usr/share/ash/snap"@ }),
    ensures
        s.next() is Text,
        record(s, get_current_snapshot_script(), keep) == asked_current(s.next()->Text_0),
        run(s, get_current_snapshot_script()).out->Ok_0 == trimmed_end(s.next()->Text_0),
{
    broadcast use crate::record::group_ok;

    reveal(get_current_snapshot_script);
    assert(record(s, get_current_snapshot_script(), keep).len() >= 0);
    assert(record(s, get_current_snapshot_script(), keep) =~= asked_current(s.next()->Text_0));
}

/// `get_current_snapshot` gives what is noted in the running deployment, without the white space
/// at its end.
pub proof fn law_get_current_snapshot(s: Session)
    ensures
        run(s, get_current_snapshot_script()).out matches Ok(snapshot) ==> exists|content: Seq<char>|
            record(s, get_current_snapshot_script(), deeds()) == #[trigger] asked_current(content)
                && snapshot == trimmed_end(content),
{
    if run(s, get_current_snapshot_script()).out is Ok {
        reveal_strlit("/usr/share/ash/snap");
        lemma_current(s, deeds());
        assert(asked_current(s.next()->Text_0).len() >= 0);
    }
}

/// Something was done in the root of the running deployment while the parts of the running system
/// were mounted below it; they were released again.
pub open spec fn done_live(
    d: Seq<(Req, Answer)>,
    tmp: Seq<char>,
    order: Req,
    answer: Answer,
) -> bool {
    exists|efi: bool, still: bool, list: Seq<Req>|
        #![trigger mounted_at(tmp, ""@, efi), unmounts(list, mounted_at(tmp, ""@, still))]
        unmounts(list, mounted_at(tmp, ""@, still)) && d == did(mounted_at(tmp, ""@, efi)) + seq![
            (order, answer),
        ] + did(list)
}

/// An `install_live` that succeeds has the package manager install the given packages, with the
/// given confirmation, in the deployment that runs, of the snapshot that is noted there.
pub proof fn law_install_live(s: Session, pkgs: Seq<Seq<char>>, noconfirm: bool)
    ensures
        run(s, install_live_script(pkgs, noconfirm)).out is Ok ==> exists|
            note: Seq<char>,
            mounts: Seq<char>,
            rest: Seq<(Req, Answer)>,
        |
            record(s, install_live_script(pkgs, noconfirm), live_deeds())
                == #[trigger] asked_current(note) + #[trigger] looked(mounts) + rest
                && #[trigger] done_live(
                rest,
                running_slot(lines(mounts)),
                Req::InstallLive {
                    snapshot: trimmed_end(note),
                    tmp: running_slot(lines(mounts)),
                    pkgs,
                    noconfirm,
                },
                Answer::Done,
            ),
{
    broadcast use crate::record::group_ok;

    let p = install_live_script(pkgs, noconfirm);
    reveal(install_live_script);
    if run(s, p).out is Ok {
        reveal_strlit("/usr/share/ash/snap");
        assert(record(s, p, live_deeds()).len() >= 0);
        lemma_current(s, live_deeds());
        let note = s.next()->Text_0;
        let t = run(s, get_current_snapshot_script()).now;
        lemma_running(t);
        let mounts = t.next()->Text_0;
        let tmp = running_slot(lines(mounts));
        let t = run(t, get_tmp_script()).now;
        let efi = lemma_ash_mounts(t, tmp, ""@, live_deeds());
        let t = run(t, ash_mounts_script(tmp, ""@)).now;
        let order = Req::InstallLive { snapshot: trimmed_end(note), tmp, pkgs, noconfirm };
        let t = run(t, done(order)).now;
        let r = lemma_ash_umounts(t, tmp, ""@, live_deeds());
        let rest = did(mounted_at(tmp, ""@, efi)) + seq![(order, Answer::Done)] + did(r.1);
        assert(done_live(rest, tmp, order, Answer::Done));
        assert(record(s, p, live_deeds()) =~= asked_current(note) + looked(mounts) + rest);
    }
}

/// An `uninstall_live` that succeeds has the package manager remove the given packages, with the
/// given confirmation, from the deployment that runs.
pub proof fn law_uninstall_live(s: Session, pkgs: Seq<Seq<char>>, noconfirm: bool)
    ensures
        run(s, uninstall_live_script(pkgs, noconfirm)).out is Ok ==> exists|
            mounts: Seq<char>,
            rest: Seq<(Req, Answer)>,
        |
            record(s, uninstall_live_script(pkgs, noconfirm), live_deeds()) == #[trigger] looked(
                mounts,
            ) + rest && #[trigger] done_live(
                rest,
                running_slot(lines(mounts)),
                Req::UninstallLive { tmp: running_slot(lines(mounts)), pkgs, noconfirm },
                Answer::Done,
            ),
{
    broadcast use crate::record::group_ok;

    let p = uninstall_live_script(pkgs, noconfirm);
    reveal(uninstall_live_script);
    if run(s, p).out is Ok {
        assert(record(s, p, live_deeds()).len() >= 0);
        lemma_running(s);
        let mounts = s.next()->Text_0;
        let tmp = running_slot(lines(mounts));
        let t = run(s, get_tmp_script()).now;
        let efi = lemma_ash_mounts(t, tmp, ""@, live_deeds());
        let t = run(t, ash_mounts_script(tmp, ""@)).now;
        let order = Req::UninstallLive { tmp, pkgs, noconfirm };
        let t = run(t, done(order)).now;
        let r = lemma_ash_umounts(t, tmp, ""@, live_deeds());
        let rest = did(mounted_at(tmp, ""@, efi)) + seq![(order, Answer::Done)] + did(r.1);
        assert(done_live(rest, tmp, order, Answer::Done));
        assert(record(s, p, live_deeds()) =~= looked(mounts) + rest);
    }
}

/// A `live_unlock` that succeeds runs a shell in the root of the deployment that runs.
pub proof fn law_live_unlock(s: Session)
    ensures
        run(s, live_unlock_script()).out is Ok ==> exists|
            mounts: Seq<char>,
            code: ExitStatus,
            rest: Seq<(Req, Answer)>,
        |
            record(s, live_unlock_script(), live_deeds()) == #[trigger] looked(mounts) + rest
                && #[trigger] done_live(
                rest,
                running_slot(lines(mounts)),
                enter(rootfs(running_slot(lines(mounts)))),
                Answer::Status(code),
            ),
{
    broadcast use crate::record::group_ok;

    let p = live_unlock_script();
    reveal(live_unlock_script);
    reveal(chroot_in_script);
    if run(s, p).out is Ok {
        assert(record(s, p, live_deeds()).len() >= 0);
        lemma_running(s);
        let mounts = s.next()->Text_0;
        let tmp = running_slot(lines(mounts));
        let t = run(s, get_tmp_script()).now;
        let efi = lemma_ash_mounts(t, tmp, ""@, live_deeds());
        let t = run(t, ash_mounts_script(tmp, ""@)).now;
        let order = enter(rootfs(tmp));
        let answer = t.next();
        let t = run(t, chroot_in_script(rootfs(tmp))).now;
        let r = lemma_ash_umounts(t, tmp, ""@, live_deeds());
        let rest = did(mounted_at(tmp, ""@, efi)) + seq![(order, answer)] + did(r.1);
        assert(done_live(rest, tmp, order, answer));
        assert(answer == Answer::Status(answer->Status_0));
        assert(record(s, p, live_deeds()) =~= looked(mounts) + rest);
    }
}

/// A shell is run in a root.
pub open spec fn enter(root: Seq<char>) -> Req {
    Req::Run { program: "chroot"@, args: seq![root] }
}

// ----------------------------------------------------------------- profiles

/// A command was run in a root, and worked.
pub open spec fn ran_in(root: Seq<char>, cmd: Seq<char>, code: ExitStatus) -> Seq<(Req, Answer)> {
    seq![
        (
            Req::Run { program: "sh"@, args: seq!["-c"@, "chroot "@ + root + " "@ + cmd] },
            Answer::Status(code),
        ),
    ]
}

/// The same, as a demand on a record and a command.
pub open spec fn running_in(root: Seq<char>) -> spec_fn(Seq<(Req, Answer)>, Seq<char>) -> bool {
    |d: Seq<(Req, Answer)>, cmd: Seq<char>|
        exists|code: ExitStatus| d == #[trigger] ran_in(root, cmd, code) && code.code == Some(0i32)
}

/// A `chroot_exec` succeeds only where the command was run in the root and ended with success.
pub proof fn law_chroot_exec(s: Session, root: Seq<char>, cmd: Seq<char>)
    ensures
        run(s, chroot_exec_script(root, cmd)).out is Ok ==> running_in(root)(
            record(s, chroot_exec_script(root, cmd), deeds()),
            cmd,
        ),
{
    broadcast use crate::record::group_ok;

    let p = chroot_exec_script(root, cmd);
    reveal(chroot_exec_script);
    if run(s, p).out is Ok {
        assert(record(s, p, deeds()).len() >= 0);
        let code = s.next()->Status_0;
        assert(record(s, p, deeds()) =~= ran_in(root, cmd, code));
    }
}

proof fn lemma_exec_each(s: Session, root: Seq<char>, cmds: Seq<Seq<char>>)
    requires
        run(s, each(cmds, exec_in(root))).out is Ok,
    ensures
        in_turn(record(s, each(cmds, exec_in(root)), deeds()), cmds, running_in(root)),
{
    assert forall|u: Session, x: Seq<char>| run(u, exec_in(root)(x)).out is Ok implies running_in(
        root,
    )(#[trigger] record(u, exec_in(root)(x), deeds()), x) by {
        law_chroot_exec(u, root, x);
    }
    record_each(s, cmds, exec_in(root), deeds(), running_in(root));
}

/// The order that installs packages: in the temporary copy of a snapshot, or in the deployment
/// that runs.
pub open spec fn install_order(
    snapshot: Seq<char>,
    live: Option<Seq<char>>,
    pkgs: Seq<Seq<char>>,
    noconfirm: bool,
) -> Req {
    match live {
        None => Req::InstallPackages { snapshot, pkgs, noconfirm },
        Some(tmp) => Req::InstallLive { snapshot, tmp, pkgs, noconfirm },
    }
}

/// An order was carried out, if it was called for.
#[verifier::opaque]
pub open spec fn did_if(called: bool, order: Req) -> Seq<(Req, Answer)> {
    if called {
        did(seq![order])
    } else {
        did(seq![])
    }
}

/// A profile was carried out: its packages were installed, its services disabled and enabled, and
/// its commands run in the root, one after the other. Where it needs the user repository, that
/// was found to be enabled.
#[verifier::opaque]
pub open spec fn carried_out(
    d: Seq<(Req, Answer)>,
    build: Build,
    snapshot: Seq<char>,
    p: Table,
    live: Option<Seq<char>>,
    noconfirm: bool,
    root: Seq<char>,
) -> bool {
    exists|cmds: Seq<(Req, Answer)>|
        #[trigger] in_turn(cmds, keys_of(p, "install-commands"@), running_in(root)) && d == (
        if build.pacman && has_section(p, "presets"@) {
            seq![(Req::AurEnabled { snapshot }, Answer::Flag(true))]
        } else {
            did(seq![])
        }) + did_if(
            has_section(p, "profile-packages"@),
            install_order(snapshot, live, keys_of(p, "profile-packages"@), noconfirm),
        ) + did_if(
            has_section(p, "disable-services"@),
            Req::DisableServices {
                snapshot,
                services: keys_of(p, "disable-services"@),
                chr: "chr"@,
            },
        ) + did_if(
            has_section(p, "enable-services"@),
            Req::EnableServices {
                snapshot,
                services: keys_of(p, "enable-services"@),
                chr: "chr"@,
            },
        ) + cmds
}

#[verifier::rlimit(40)]
proof fn lemma_carry_out(
    s: Session,
    build: Build,
    snapshot: Seq<char>,
    p: Table,
    live: Option<Seq<char>>,
    noconfirm: bool,
    root: Seq<char>,
)
    requires
        run(s, carry_out_script(build, snapshot, p, live, noconfirm, root)).out is Ok,
    ensures
        carried_out(
            record(s, carry_out_script(build, snapshot, p, live, noconfirm, root), deeds()),
            build,
            snapshot,
            p,
            live,
            noconfirm,
            root,
        ),
{
    broadcast use crate::record::ok_chain;

    let q = carry_out_script(build, snapshot, p, live, noconfirm, root);
    reveal(carried_out);
    reveal(carry_out_script);
    assert(record(s, q, deeds()).len() >= 0);
    let aur = presets_script(build, snapshot, p);
    lemma_presets(s, build, snapshot, p);
    let first = record(s, aur, deeds());
    let t = run(s, aur).now;
    let install = install_req(snapshot, live, keys_of(p, "profile-packages"@), noconfirm);
    lemma_if_section(t, p, "profile-packages"@, install);
    let t = run(t, if_section(p, "profile-packages"@, install)).now;
    let off = Req::DisableServices {
        snapshot,
        services: keys_of(p, "disable-services"@),
        chr: "chr"@,
    };
    lemma_if_section(t, p, "disable-services"@, off);
    let t = run(t, if_section(p, "disable-services"@, off)).now;
    let on = Req::EnableServices {
        snapshot,
        services: keys_of(p, "enable-services"@),
        chr: "chr"@,
    };
    lemma_if_section(t, p, "enable-services"@, on);
    let t = run(t, if_section(p, "enable-services"@, on)).now;
    let cmds = keys_of(p, "install-commands"@);
    lemma_exec_each(t, root, cmds);
    let last = record(t, each(cmds, exec_in(root)), deeds());
    assert(in_turn(last, cmds, running_in(root)));
    crate::record::lemma_row(
        first,
        did_if(has_section(p, "profile-packages"@), install),
        did_if(has_section(p, "disable-services"@), off),
        did_if(has_section(p, "enable-services"@), on),
        last,
    );
}

proof fn lemma_if_section(s: Session, p: Table, section: Seq<char>, req: Req)
    requires
        run(s, if_section(p, section, req)).out is Ok,
        !background(req),
    ensures
        record(s, if_section(p, section, req), deeds()) == did_if(has_section(p, section), req),
{
    broadcast use crate::record::group_ok;

    reveal(did_if);
    assert(record(s, if_section(p, section, req), deeds()) =~= did_if(has_section(p, section), req));
}

proof fn lemma_presets(s: Session, build: Build, snapshot: Seq<char>, p: Table)
    requires
        run(s, presets_script(build, snapshot, p)).out is Ok,
    ensures
        record(s, presets_script(build, snapshot, p), deeds()) == if build.pacman && has_section(
            p,
            "presets"@,
        ) {
            seq![(Req::AurEnabled { snapshot }, Answer::Flag(true))]
        } else {
            did(seq![])
        },
{
    broadcast use crate::record::group_ok;

    let q = presets_script(build, snapshot, p);
    reveal(presets_script);
    assert(record(s, q, deeds()).len() >= 0);
    if build.pacman && has_section(p, "presets"@) {
        assert(record(s, q, deeds()) =~= seq![(Req::AurEnabled { snapshot }, Answer::Flag(true))]);
    } else {
        assert(record(s, q, deeds()) =~= did(seq![]));
    }
}

/// A profile was read.
pub open spec fn read_from(path: Seq<char>, p: Table) -> Seq<(Req, Answer)> {
    seq![(Req::ReadProfile { path }, Answer::Profile(p))]
}

/// The profile to install was read: the one of the distribution, after the packages of profiles
/// were installed where that is forced, or the one that the user gave. Where there is neither,
/// it is empty.
#[verifier::opaque]
pub open spec fn loaded(
    d: Seq<(Req, Answer)>,
    p: Table,
    file: Seq<char>,
    force: bool,
    user: Seq<char>,
    snapshot: Seq<char>,
    live: Option<Seq<char>>,
) -> bool {
    if force {
        d == did(
            seq![
                Req::Print { text: "Installing AshOS profiles..."@ },
                install_order(snapshot, live, seq!["ash-profiles"@], true),
            ],
        ) + read_from(file, p)
    } else if user.len() > 0 {
        d == read_from(user, p)
    } else {
        d == read_from(file, p) || d.len() == 0 && p.len() == 0
    }
}

proof fn lemma_load(
    s: Session,
    file: Seq<char>,
    force: bool,
    user: Seq<char>,
    snapshot: Seq<char>,
    live: Option<Seq<char>>,
)
    requires
        run(s, load_script(file, force, user, snapshot, live)).out is Ok,
    ensures
        loaded(
            record(s, load_script(file, force, user, snapshot, live), deeds()),
            run(s, load_script(file, force, user, snapshot, live)).out->Ok_0,
            file,
            force,
            user,
            snapshot,
            live,
        ),
{
    broadcast use crate::record::group_ok;

    let q = load_script(file, force, user, snapshot, live);
    reveal(loaded);
    reveal(load_script);
    reveal(read_script);
    let d = record(s, q, deeds());
    assert(d.len() >= 0);
    let p = run(s, q).out->Ok_0;
    let order = install_order(snapshot, live, seq!["ash-profiles"@], true);
    let there = s.next() == Answer::Flag(true);
    if there && !force && user.len() == 0 {
        assert(d =~= read_from(file, p));
    } else if force {
        assert(d =~= did(
            seq![Req::Print { text: "Installing AshOS profiles..."@ }, order],
        ) + read_from(file, p));
    } else if user.len() > 0 {
        assert(d =~= read_from(user, p));
    } else {
        assert(d.len() == 0 && p.len() == 0);
    }
}

/// It was asked which distribution this is; profiles are named without the mark of AshOS.
pub open spec fn asked_distro(d: Seq<(Req, Answer)>, distro: Seq<char>) -> bool {
    exists|id: Seq<char>|
        #[trigger] distro_answer(id) == d && distro == replaced(id, "_ashos"@, ""@)
}

/// The distribution was told.
pub open spec fn distro_answer(id: Seq<char>) -> Seq<(Req, Answer)> {
    seq![(Req::DistroId, Answer::Text(id))]
}

proof fn lemma_distro(s: Session)
    requires
        run(s, distro_script()).out is Ok,
    ensures
        asked_distro(record(s, distro_script(), deeds()), run(s, distro_script()).out->Ok_0),
{
    broadcast use crate::record::group_ok;

    reveal(distro_script);
    assert(record(s, distro_script(), deeds()).len() >= 0);
    let id = s.next()->Text_0;
    assert(record(s, distro_script(), deeds()) =~= distro_answer(id));
}

/// The packages of a snapshot were upgraded, a temporary copy of it was made, and a profile was
/// read and carried out in that copy.
#[verifier::opaque]
pub open spec fn installs_profile(
    d: Seq<(Req, Answer)>,
    build: Build,
    snapshot: Seq<char>,
    name: Seq<char>,
    force: bool,
    user: Seq<char>,
    noconfirm: bool,
) -> bool {
    exists|
        first: Seq<(Req, Answer)>,
        distro: Seq<char>,
        before: Seq<(Req, Answer)>,
        p: Table,
        reading: Seq<(Req, Answer)>,
        rest: Seq<(Req, Answer)>,
    |
        #![trigger asked_distro(first, distro), makes_ready(before, snapshot), loaded(reading, p, "/usr/share/ash/profiles/"@ + name + "/"@ + distro, force, user, snapshot, None), carried_out(rest, build, snapshot, p, None, noconfirm, rootfs(chr(snapshot)))]
        asked_distro(first, distro) && makes_ready(before, snapshot) && loaded(
            reading,
            p,
            "/usr/share/ash/profiles/"@ + name + "/"@ + distro,
            force,
            user,
            snapshot,
            None,
        ) && carried_out(
            rest,
            build,
            snapshot,
            p,
            None,
            noconfirm,
            rootfs(chr(snapshot)),
        ) && d == first + did(
            seq![
                Req::Print {
                    text: "Updating the system before installing "@ + name + " profile..."@,
                },
                Req::AutoUpgrade { snapshot },
            ],
        ) + before + reading + rest
}

/// An `install_profile` that succeeds has the packages of the snapshot upgraded, makes a temporary
/// copy of it, reads the profile for this distribution and carries it out in that copy. It gives
/// back whether the secondary deployment is meant.
#[verifier::rlimit(40)]
pub proof fn law_install_profile(
    s: Session,
    build: Build,
    snapshot: Seq<char>,
    name: Seq<char>,
    force: bool,
    secondary: bool,
    user: Seq<char>,
    noconfirm: bool,
)
    ensures
        run(
            s,
            install_profile_script(build, snapshot, name, force, secondary, user, noconfirm),
        ).out matches Ok(second) ==> second == secondary && installs_profile(
            record(
                s,
                install_profile_script(build, snapshot, name, force, secondary, user, noconfirm),
                deeds(),
            ),
            build,
            snapshot,
            name,
            force,
            user,
            noconfirm,
        ),
{
    broadcast use {crate::outcomes::group_outcomes, crate::record::group_ok};

    assert(spares(deeds()));
    let q = install_profile_script(build, snapshot, name, force, secondary, user, noconfirm);
    reveal(installs_profile);
    reveal(install_profile_script);
    if run(s, q).out is Ok {
        let d = record(s, q, deeds());
        assert(d.len() >= 0);
        lemma_distro(s);
        let first = record(s, distro_script(), deeds());
        let distro = run(s, distro_script()).out->Ok_0;
        let t = run(s, distro_script()).now;
        let t = run(t, guard_script("install"@, snapshot)).now;
        let note = Req::Print { text: updating_note(name) };
        let order = Req::AutoUpgrade { snapshot };
        let t = run(t, say(updating_note(name))).now;
        let t = run(t, done(order)).now;
        let before = record(t, prepare_script(build, snapshot), deeds());
        let t = run(t, prepare_script(build, snapshot)).now;
        let file = "/usr/share/ash/profiles/"@ + name + "/"@ + distro;
        let load = load_script(file, force, user, snapshot, None);
        lemma_load(t, file, force, user, snapshot, None);
        let reading = record(t, load, deeds());
        let p = run(t, load).out->Ok_0;
        let t = run(t, load).now;
        let root = rootfs(chr(snapshot));
        lemma_carry_out(t, build, snapshot, p, None, noconfirm, root);
        let rest = record(
            t,
            carry_out_script(build, snapshot, p, None, noconfirm, root),
            deeds(),
        );
        assert(asked_distro(first, distro) && makes_ready(before, snapshot));
        crate::record::lemma_row(first, did(seq![note, order]), before, reading, rest);
        assert(did(seq![note, order]) =~= did(seq![note]) + did(seq![order]));
        assert(d =~= first + (did(seq![note]) + (did(seq![order]) + (before + (reading + rest)))));
        assert(d =~= first + (did(seq![note, order]) + (before + (reading + rest))));
    }
}

/// The profile to remove was read: the one of the distribution, or the one that the user gave.
/// Where there is neither, it is empty.
pub open spec fn loaded_old(
    d: Seq<(Req, Answer)>,
    p: Table,
    file: Seq<char>,
    user: Seq<char>,
) -> bool {
    if user.len() > 0 {
        d == read_from(user, p)
    } else {
        d == read_from(file, p) || d.len() == 0 && p.len() == 0
    }
}

proof fn lemma_load_old(s: Session, file: Seq<char>, user: Seq<char>)
    requires
        run(s, load_old_script(file, user)).out is Ok,
    ensures
        loaded_old(
            record(s, load_old_script(file, user), deeds()),
            run(s, load_old_script(file, user)).out->Ok_0,
            file,
            user,
        ),
{
    broadcast use crate::record::group_ok;

    let q = load_old_script(file, user);
    reveal(load_old_script);
    reveal(read_script);
    let d = record(s, q, deeds());
    assert(d.len() >= 0);
    let p = run(s, q).out->Ok_0;
    if user.len() > 0 {
        assert(d =~= read_from(user, p));
    } else if s.next() == Answer::Flag(true) {
        assert(d =~= read_from(file, p));
    } else {
        assert(d.len() == 0 && p.len() == 0);
    }
}

/// A temporary copy of a snapshot was made, a profile was read, its commands for removal were run
/// in that copy, and its packages were removed.
#[verifier::opaque]
pub open spec fn uninstalls_profile(
    d: Seq<(Req, Answer)>,
    snapshot: Seq<char>,
    name: Seq<char>,
    user: Seq<char>,
    noconfirm: bool,
) -> bool {
    exists|
        first: Seq<(Req, Answer)>,
        distro: Seq<char>,
        before: Seq<(Req, Answer)>,
        p: Table,
        reading: Seq<(Req, Answer)>,
        cmds: Seq<(Req, Answer)>,
    |
        #![trigger asked_distro(first, distro), makes_ready(before, snapshot), loaded_old(reading, p, "/usr/share/ash/profiles/"@ + name + "/"@ + distro, user), in_turn(cmds, keys_of(p, "uninstall-commands"@), running_in(rootfs(chr(snapshot))))]
        asked_distro(first, distro) && makes_ready(before, snapshot) && loaded_old(
            reading,
            p,
            "/usr/share/ash/profiles/"@ + name + "/"@ + distro,
            user,
        ) && in_turn(
            cmds,
            keys_of(p, "uninstall-commands"@),
            running_in(rootfs(chr(snapshot))),
        ) && d == first + before + reading + cmds + did_if(
            has_section(p, "profile-packages"@),
            Req::UninstallPackages {
                snapshot,
                pkgs: keys_of(p, "profile-packages"@),
                noconfirm,
            },
        )
}

/// An `uninstall_profile` that succeeds makes a temporary copy of the snapshot, reads the profile
/// for this distribution, runs its commands for removal in that copy, one after the other, and
/// has its packages removed, with the given confirmation.
#[verifier::rlimit(40)]
pub proof fn law_uninstall_profile(
    s: Session,
    build: Build,
    snapshot: Seq<char>,
    name: Seq<char>,
    user: Seq<char>,
    noconfirm: bool,
)
    ensures
        run(s, uninstall_profile_script(build, snapshot, name, user, noconfirm)).out is Ok ==> uninstalls_profile(
            record(
                s,
                uninstall_profile_script(build, snapshot, name, user, noconfirm),
                deeds(),
            ),
            snapshot,
            name,
            user,
            noconfirm,
        ),
{
    broadcast use {crate::outcomes::group_outcomes, crate::record::group_ok};

    assert(spares(deeds()));
    let q = uninstall_profile_script(build, snapshot, name, user, noconfirm);
    reveal(uninstalls_profile);
    reveal(uninstall_profile_script);
    if run(s, q).out is Ok {
        let d = record(s, q, deeds());
        assert(d.len() >= 0);
        lemma_distro(s);
        let first = record(s, distro_script(), deeds());
        let distro = run(s, distro_script()).out->Ok_0;
        let t = run(s, distro_script()).now;
        let t = run(t, guard_script("uninstall"@, snapshot)).now;
        let before = record(t, prepare_script(build, snapshot), deeds());
        let t = run(t, prepare_script(build, snapshot)).now;
        let file = "/usr/share/ash/profiles/"@ + name + "/"@ + distro;
        let load = load_old_script(file, user);
        lemma_load_old(t, file, user);
        let reading = record(t, load, deeds());
        let p = run(t, load).out->Ok_0;
        let t = run(t, load).now;
        let root = rootfs(chr(snapshot));
        let list = keys_of(p, "uninstall-commands"@);
        lemma_exec_each(t, root, list);
        let cmds = record(t, each(list, exec_in(root)), deeds());
        let t = run(t, each(list, exec_in(root))).now;
        let order = Req::UninstallPackages {
            snapshot,
            pkgs: keys_of(p, "profile-packages"@),
            noconfirm,
        };
        lemma_if_section(t, p, "profile-packages"@, order);
        let last = did_if(has_section(p, "profile-packages"@), order);
        assert(asked_distro(first, distro) && makes_ready(before, snapshot));
        crate::record::lemma_row(first, before, reading, cmds, last);
        assert(d =~= first + (before + (reading + (cmds + last))));
    }
}

proof fn lemma_install_in_live(
    s: Session,
    build: Build,
    snapshot: Seq<char>,
    file: Seq<char>,
    tmp: Seq<char>,
    force: bool,
    user: Seq<char>,
    noconfirm: bool,
) -> (r: (Table, Seq<(Req, Answer)>, Seq<(Req, Answer)>))
    requires
        run(
            s,
            install_in_live_script(build, snapshot, file, tmp, force, user, noconfirm),
        ).out is Ok,
    ensures
        loaded(r.1, r.0, file, force, user, snapshot, Some(tmp)),
        carried_out(r.2, build, snapshot, r.0, Some(tmp), noconfirm, rootfs(snapshot)),
        record(
            s,
            install_in_live_script(build, snapshot, file, tmp, force, user, noconfirm),
            deeds(),
        ) == r.1 + r.2,
{
    broadcast use {crate::outcomes::group_outcomes, crate::record::group_ok};

    assert(spares(deeds()));
    let q = install_in_live_script(build, snapshot, file, tmp, force, user, noconfirm);
    reveal(install_in_live_script);
    assert(record(s, q, deeds()).len() >= 0);
    let load = load_script(file, force, user, snapshot, Some(tmp));
    lemma_load(s, file, force, user, snapshot, Some(tmp));
    let reading = record(s, load, deeds());
    let p = run(s, load).out->Ok_0;
    let t = run(s, load).now;
    let root = rootfs(snapshot);
    lemma_carry_out(t, build, snapshot, p, Some(tmp), noconfirm, root);
    let rest = record(
        t,
        carry_out_script(build, snapshot, p, Some(tmp), noconfirm, root),
        deeds(),
    );
    assert(record(s, q, deeds()) =~= reading + rest);
    (p, reading, rest)
}

/// An `install_profile_live` that succeeds has the packages of the deployment that runs upgraded,
/// with the given confirmation, reads the profile for this distribution and carries it out in
/// that deployment, its commands in the root of the snapshot.
#[verifier::rlimit(60)]
pub proof fn law_install_profile_live(
    s: Session,
    build: Build,
    snapshot: Seq<char>,
    name: Seq<char>,
    force: bool,
    user: Seq<char>,
    noconfirm: bool,
)
    ensures
        run(
            s,
            install_profile_live_script(build, snapshot, name, force, user, noconfirm),
        ).out is Ok ==> exists|
            first: Seq<(Req, Answer)>,
            distro: Seq<char>,
            running: Seq<(Req, Answer)>,
            tmp: Seq<char>,
            p: Table,
            reading: Seq<(Req, Answer)>,
            rest: Seq<(Req, Answer)>,
        |
            #![trigger asked_distro(first, distro), tells(running, tmp), loaded(reading, p, "/usr/share/ash/profiles/"@ + name + "/"@ + distro, force, user, snapshot, Some(tmp)), carried_out(rest, build, snapshot, p, Some(tmp), noconfirm, rootfs(snapshot))]
            asked_distro(first, distro) && tells(running, tmp) && loaded(
                reading,
                p,
                "/usr/share/ash/profiles/"@ + name + "/"@ + distro,
                force,
                user,
                snapshot,
                Some(tmp),
            ) && carried_out(
                rest,
                build,
                snapshot,
                p,
                Some(tmp),
                noconfirm,
                rootfs(snapshot),
            ) && record(
                s,
                install_profile_live_script(build, snapshot, name, force, user, noconfirm),
                deeds(),
            ) == first + running + did(
                seq![
                    Req::Print {
                        text: "Updating the system before installing "@ + (if user.len() == 0 {
                            name
                        } else {
                            user
                        }) + " profile..."@,
                    },
                    Req::UpgradeLive { tmp, noconfirm },
                ],
            ) + reading + rest,
{
    broadcast use {crate::outcomes::group_outcomes, crate::record::group_ok, ok_get_tmp};

    assert(spares(deeds()));
    let q = install_profile_live_script(build, snapshot, name, force, user, noconfirm);
    reveal(install_profile_live_script);
    if run(s, q).out is Ok {
        let d = record(s, q, deeds());
        assert(d.len() >= 0);
        lemma_distro(s);
        let first = record(s, distro_script(), deeds());
        let distro = run(s, distro_script()).out->Ok_0;
        let t = run(s, distro_script()).now;
        let running = record(t, get_tmp_script(), deeds());
        let tmp = run(t, get_tmp_script()).out->Ok_0;
        let t = run(t, get_tmp_script()).now;
        let told = updating_note(
            if user.len() == 0 {
                name
            } else {
                user
            },
        );
        let note = Req::Print { text: told };
        let order = Req::UpgradeLive { tmp, noconfirm };
        let t = run(t, say(told)).now;
        let t = run(t, ash_mounts_script(tmp, ""@)).now;
        let t = run(t, attempt(done(order))).now;
        let file = "/usr/share/ash/profiles/"@ + name + "/"@ + distro;
        assert(profile_file(name, distro) == file);
        let (p, reading, rest) = lemma_install_in_live(
            t,
            build,
            snapshot,
            file,
            tmp,
            force,
            user,
            noconfirm,
        );
        assert(asked_distro(first, distro) && tells(running, tmp));
        crate::record::lemma_row(first, running, did(seq![note, order]), reading, rest);
        assert(did(seq![note, order]) =~= did(seq![note]) + did(seq![order]));
        assert(did(seq![note]) + (did(seq![order]) + (reading + rest)) =~= did(
            seq![note, order],
        ) + (reading + rest));
        assert(d =~= first + (running + (did(seq![note]) + (did(seq![order]) + (reading + rest)))));
    }
}

/// An `uninstall_profile_live` that succeeds reads the profile for this distribution, has its
/// packages removed from the deployment that runs, with the given confirmation, and runs its
/// commands for removal in the root of the snapshot, one after the other.
#[verifier::rlimit(40)]
pub proof fn law_uninstall_profile_live(
    s: Session,
    snapshot: Seq<char>,
    name: Seq<char>,
    user: Seq<char>,
    noconfirm: bool,
)
    ensures
        run(s, uninstall_profile_live_script(snapshot, name, user, noconfirm)).out is Ok ==> exists|
            first: Seq<(Req, Answer)>,
            distro: Seq<char>,
            running: Seq<(Req, Answer)>,
            tmp: Seq<char>,
            p: Table,
            reading: Seq<(Req, Answer)>,
            cmds: Seq<(Req, Answer)>,
        |
            #![trigger asked_distro(first, distro), tells(running, tmp), loaded_old(reading, p, "/usr/share/ash/profiles/"@ + name + "/"@ + distro, user), in_turn(cmds, keys_of(p, "uninstall-commands"@), running_in(rootfs(snapshot)))]
            asked_distro(first, distro) && tells(running, tmp) && loaded_old(
                reading,
                p,
                "/usr/share/ash/profiles/"@ + name + "/"@ + distro,
                user,
            ) && in_turn(
                cmds,
                keys_of(p, "uninstall-commands"@),
                running_in(rootfs(snapshot)),
            ) && record(
                s,
                uninstall_profile_live_script(snapshot, name, user, noconfirm),
                deeds(),
            ) == first + running + reading + did_if(
                has_section(p, "profile-packages"@),
                Req::UninstallLive { tmp, pkgs: keys_of(p, "profile-packages"@), noconfirm },
            ) + cmds,
{
    broadcast use {crate::outcomes::group_outcomes, crate::record::group_ok, ok_get_tmp};

    assert(spares(deeds()));
    let q = uninstall_profile_live_script(snapshot, name, user, noconfirm);
    reveal(uninstall_profile_live_script);
    if run(s, q).out is Ok {
        let d = record(s, q, deeds());
        assert(d.len() >= 0);
        lemma_distro(s);
        let first = record(s, distro_script(), deeds());
        let distro = run(s, distro_script()).out->Ok_0;
        let t = run(s, distro_script()).now;
        let running = record(t, get_tmp_script(), deeds());
        let tmp = run(t, get_tmp_script()).out->Ok_0;
        let t = run(t, get_tmp_script()).now;
        let t = run(t, ash_mounts_script(tmp, ""@)).now;
        let file = "/usr/share/ash/profiles/"@ + name + "/"@ + distro;
        let load = load_old_script(file, user);
        lemma_load_old(t, file, user);
        let reading = record(t, load, deeds());
        let p = run(t, load).out->Ok_0;
        let t = run(t, load).now;
        let order = Req::UninstallLive { tmp, pkgs: keys_of(p, "profile-packages"@), noconfirm };
        lemma_if_section(t, p, "profile-packages"@, order);
        let middle = did_if(has_section(p, "profile-packages"@), order);
        let t = run(t, if_section(p, "profile-packages"@, order)).now;
        let root = rootfs(snapshot);
        let list = keys_of(p, "uninstall-commands"@);
        lemma_exec_each(t, root, list);
        let cmds = record(t, each(list, exec_in(root)), deeds());
        assert(asked_distro(first, distro) && tells(running, tmp));
        crate::record::lemma_row(first, running, reading, middle, cmds);
        assert(d =~= first + (running + (reading + (middle + cmds))));
    }
}

}
