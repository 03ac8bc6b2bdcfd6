//! What rebuilding, hollowing and resetting come to.

use vstd::prelude::*;
use crate::chroots::{
    chr_delete_script, collect, copy_three, post_transactions_script, posttrans_plan,
    posttrans_script, prepare_script,
};
use crate::clearing::{deleting, erasures, family, law_delete_node};
use crate::deployment::{check_mutability_script, deploy_script, get_current_snapshot_script};
use crate::growing::{found_mutable, grown, lemma_grow};
use crate::guard::guard_script;
use crate::mounting::{all_in, looked_for};
use crate::mounts::{ash_mounts_script, ash_umounts_script};
use crate::outcomes::{copied, deeds, keeps, lemma_collect, lemma_keep_copy, makes_ready, spares};
use crate::paths::{chr, desc_file, drop_volume, mutable_mark, rootfs, volume, Volume};
use crate::placing::{deploys, law_deploy, rewritten, tells};
use crate::profile::Table;
use crate::profiles::old_profile;
use crate::rebuild::{
    arm_script, collect_three_script, disarm_script, hollow_keep_script, hollow_mount,
    hollow_question, hollow_script, rebuild_base_script, rebuild_copy_script, rebuild_guard_script,
    rebuild_prep_script, rebuild_script, reset_consent_script, reset_job, reset_question,
    reset_run_script, reset_script, restart_question, stage_plan, wipe,
};
use crate::record::{did, got, in_turn, others, record};
use crate::request::{Answer, MountMode, Req};
use crate::script::{
    all_done, asks_only, attempt, choice, confirm, done, each, flag, give, law_choice, profile, run,
    sure, texts, tree, Build, Session,
};
use crate::snapshots::{
    as_base, delete_node_script, immutability_enable_script, unmark_script, write_desc_script,
};
use crate::supplying::{asked_current, lemma_current};
use crate::text::{decimal, replaced, trimmed_end};

verus! {

/// A snapshot was built anew in its temporary copy: bootstrapped, configured by the profile that
/// was read from the snapshot, and its boot, etc and var subvolumes, made from those of the
/// snapshot, filled from the new root.
#[verifier::opaque]
pub open spec fn rebuilt(snapshot: Seq<char>, p: Table) -> Seq<(Req, Answer)> {
    let id = chr(snapshot);
    seq![
        (
            Req::ReadProfile { path: volume(Volume::Etc, snapshot) + "/ash/profile"@ },
            Answer::Profile(p),
        ),
    ] + did(
        seq![
            Req::CreateSubvolume { path: rootfs(id) },
            Req::Bootstrap { snapshot },
            Req::SystemConfig { snapshot, profile: p },
            Req::SnapshotSubvolume {
                from: volume(Volume::Boot, snapshot),
                to: volume(Volume::Boot, id),
                read_only: false,
            },
            Req::SnapshotSubvolume {
                from: volume(Volume::Etc, snapshot),
                to: volume(Volume::Etc, id),
                read_only: false,
            },
            Req::SnapshotSubvolume {
                from: volume(Volume::Var, snapshot),
                to: volume(Volume::Var, id),
                read_only: false,
            },
            Req::CopyTree { from: rootfs(id) + "/boot/."@, to: volume(Volume::Boot, id) },
            Req::CopyTree { from: rootfs(id) + "/etc/."@, to: volume(Volume::Etc, id) },
            Req::CopyTree { from: rootfs(id) + "/var/."@, to: volume(Volume::Var, id) },
        ],
    )
}

/// After a `rebuild_prep` that succeeds, the temporary copy was bootstrapped and configured with
/// the very profile that the snapshot had, whatever it holds.
pub proof fn law_rebuild_prep(s: Session, snapshot: Seq<char>)
    ensures
        run(s, rebuild_prep_script(snapshot)).out is Ok ==> exists|p: Table|
            record(s, rebuild_prep_script(snapshot), deeds()) == #[trigger] rebuilt(snapshot, p),
{
    broadcast use {crate::outcomes::group_outcomes, crate::record::group_ok};

    assert(spares(deeds()));
    let q = rebuild_prep_script(snapshot);
    reveal(rebuilt);
    reveal(rebuild_prep_script);
    reveal(collect_three_script);
    if run(s, q).out is Ok {
        assert(record(s, q, deeds()).len() >= 0);
        let id = chr(snapshot);
        let p = s.next()->Profile_0;
        let t = run(s, sure(profile(Req::ReadProfile { path: old_profile(snapshot) }))).now;
        let t = run(
            t,
            all_done(
                seq![Req::CreateSubvolume { path: rootfs(id) }, Req::Bootstrap { snapshot }],
            ),
        ).now;
        let t = run(t, ash_mounts_script(snapshot, "chr"@)).now;
        let t = run(t, done(Req::SystemConfig { snapshot, profile: p })).now;
        let t = run(t, all_done(copy_three(snapshot, id))).now;
        lemma_collect(t, Volume::Boot, snapshot, "/boot/."@);
        let t = run(t, collect(Volume::Boot, snapshot, "/boot/."@)).now;
        lemma_collect(t, Volume::Etc, snapshot, "/etc/."@);
        let t = run(t, collect(Volume::Etc, snapshot, "/etc/."@)).now;
        lemma_collect(t, Volume::Var, snapshot, "/var/."@);
        assert(record(s, q, deeds()) =~= rebuilt(snapshot, p));
    }
}

/// What was built anew in the temporary copy of a snapshot was copied to that of the new one.
pub open spec fn staged(snapshot: Seq<char>, id: Seq<char>, read_only: bool) -> Seq<(Req, Answer)> {
    did(
        seq![
            Req::SnapshotSubvolume {
                from: rootfs(chr(snapshot)),
                to: rootfs(chr(id)),
                read_only,
            },
            Req::SnapshotSubvolume {
                from: volume(Volume::Boot, chr(snapshot)),
                to: volume(Volume::Boot, chr(id)),
                read_only,
            },
            Req::SnapshotSubvolume {
                from: volume(Volume::Etc, chr(snapshot)),
                to: volume(Volume::Etc, chr(id)),
                read_only,
            },
            Req::CopyCache { snapshot, into_chroot: false },
            Req::SnapshotSubvolume {
                from: volume(Volume::Var, chr(snapshot)),
                to: volume(Volume::Var, chr(id)),
                read_only,
            },
        ],
    )
}

/// A snapshot that was built anew became the snapshot `id`.
pub open spec fn settled(
    snapshot: Seq<char>,
    id: Seq<char>,
    mutable: bool,
    read_only: bool,
) -> Seq<(Req, Answer)> {
    staged(snapshot, id, !mutable) + copied(chr(id), id, read_only) + if mutable {
        did(seq![Req::CreateFile { path: rootfs(id) + "/usr/share/ash/mutable"@ }])
    } else {
        did(seq![])
    }
}

proof fn lemma_rebuild_copy(
    s: Session,
    build: Build,
    snapshot: Seq<char>,
    id: Seq<char>,
    mutable: bool,
) -> (read_only: bool)
    requires
        run(s, rebuild_copy_script(build, snapshot, id, mutable)).out is Ok,
    ensures
        record(s, rebuild_copy_script(build, snapshot, id, mutable), deeds()) == settled(
            snapshot,
            id,
            mutable,
            read_only,
        ),
        found_mutable(
            s,
            run(s, rebuild_copy_script(build, snapshot, id, mutable)).now,
            chr(id),
            !read_only,
        ),
{
    broadcast use {
        crate::outcomes::group_outcomes,
        crate::record::group_ok,
        crate::record::got_chain,
    };

    assert(spares(deeds()));
    let p = rebuild_copy_script(build, snapshot, id, mutable);
    reveal(rebuild_copy_script);
    assert(record(s, p, deeds()).len() >= 0);
    let t = run(s, all_done(stage_plan(snapshot, id, !mutable))).now;
    let t = run(t, ash_umounts_script(snapshot, "chr"@)).now;
    let t = run(t, chr_delete_script(snapshot)).now;
    let read_only = lemma_keep_copy(t, chr(id), id);
    assert(record(s, p, deeds()) =~= settled(snapshot, id, mutable, read_only));
    read_only
}

/// A `rebuild` that succeeds builds the snapshot anew in its temporary copy, from the profile
/// that it has, and makes the snapshot of the given number from that, mutable if it was. The new
/// snapshot is put at the root of the tree and described, and its number is given.
#[verifier::rlimit(40)]
pub proof fn law_rebuild(s: Session, build: Build, snapshot: Seq<char>, snap_num: i32, desc: Seq<char>)
    ensures
        run(s, rebuild_script(build, snapshot, snap_num, desc)).out matches Ok(n) ==> n == snap_num
            && exists|p: Table, mutable: bool, read_only: bool, t: u64|
            #![trigger rebuilt(snapshot, p), settled(snapshot, decimal(snap_num as int), mutable, read_only), grown(t, Req::AddToBase { tree: t, node: snap_num })]
            record(s, rebuild_script(build, snapshot, snap_num, desc), deeds()) == rebuilt(
                snapshot,
                p,
            ) + settled(snapshot, decimal(snap_num as int), mutable, read_only) + grown(
                t,
                Req::AddToBase { tree: t, node: snap_num },
            ) + rewritten(
                "/.snapshots/ash/snapshots/"@ + decimal(snap_num as int) + "-desc"@,
                if desc.len() == 0 {
                    "rebuild of "@ + snapshot + "."@
                } else {
                    desc
                },
            ) && found_mutable(
                s,
                run(s, rebuild_script(build, snapshot, snap_num, desc)).now,
                snapshot,
                mutable,
            ) && found_mutable(
                s,
                run(s, rebuild_script(build, snapshot, snap_num, desc)).now,
                chr(decimal(snap_num as int)),
                !read_only,
            ),
{
    broadcast use {
        crate::outcomes::group_outcomes,
        crate::record::group_ok,
        crate::record::got_chain,
    };

    assert(spares(deeds()));
    let q = rebuild_script(build, snapshot, snap_num, desc);
    let id = decimal(snap_num as int);
    reveal(rebuild_script);
    reveal(check_mutability_script);
    reveal(write_desc_script);
    if run(s, q).out is Ok {
        let guard = rebuild_guard_script(snapshot, id);
        assert(asks_only(guard, others(deeds()))) by {
            broadcast use crate::script::group_asks;

            reveal(rebuild_guard_script);
        }
        assert(record(s, q, deeds()).len() >= 0);
        let t = run(s, guard).now;
        let mark = Req::Exists { path: mutable_mark(snapshot) };
        let mutable = t.next() == Answer::Flag(true);
        crate::record::got_flag(t, mark);
        let t = run(t, check_mutability_script(snapshot)).now;
        law_rebuild_prep(t, snapshot);
        let p = choose|p: Table|
            record(t, rebuild_prep_script(snapshot), deeds()) == #[trigger] rebuilt(snapshot, p);
        let t = run(t, rebuild_prep_script(snapshot)).now;
        let read_only = lemma_rebuild_copy(t, build, snapshot, id, mutable);
        let t = run(t, rebuild_copy_script(build, snapshot, id, mutable)).now;
        let n = lemma_grow(t, as_base(snap_num));
        let note = rewritten(
            "/.snapshots/ash/snapshots/"@ + id + "-desc"@,
            if desc.len() == 0 {
                "rebuild of "@ + snapshot + "."@
            } else {
                desc
            },
        );
        let entry = Req::AddToBase { tree: n, node: snap_num };
        assert(record(s, q, deeds()) =~= rebuilt(snapshot, p) + settled(
            snapshot,
            id,
            mutable,
            read_only,
        ) + grown(n, entry) + note);
    }
}

/// A `rebuild_base` that succeeds builds the base snapshot anew in its temporary copy, from the
/// profile that it has, and the temporary copy then takes its place.
pub proof fn law_rebuild_base(s: Session, build: Build)
    ensures
        run(s, rebuild_base_script(build)).out is Ok ==> exists|
            p: Table,
            after: Seq<(Req, Answer)>,
        |
            #[trigger] keeps(after, "0"@) && record(s, rebuild_base_script(build), deeds())
                == #[trigger] rebuilt("0"@, p) + after,
{
    broadcast use {
        crate::script::group_asks,
        crate::outcomes::ok_post_transactions,
        crate::record::group_ok,
    };

    let q = rebuild_base_script(build);
    reveal(rebuild_base_script);
    if run(s, q).out is Ok {
        assert(record(s, q, deeds()).len() >= 0);
        let t = run(s, flag(Req::Exists { path: rootfs(chr("0"@)) })).now;
        assert(run(t, attempt(rebuild_prep_script("0"@))).out->Ok_0 is Ok);
        law_rebuild_prep(t, "0"@);
        let p = choose|p: Table|
            record(t, rebuild_prep_script("0"@), deeds()) == #[trigger] rebuilt("0"@, p);
        let t = run(t, attempt(rebuild_prep_script("0"@))).now;
        let after = record(t, post_transactions_script(build, "0"@), deeds());
        assert(record(s, q, deeds()) =~= rebuilt("0"@, p) + after);
    }
}

// ---------------------------------------------------- hollowing and resetting

/// A question was put to the user, and the line that was typed last settled it.
pub open spec fn settled_by(d: Seq<(Req, Answer)>, msg: Seq<char>, yes: bool) -> bool {
    &&& all_in(
        d,
        |req: Req|
            req == (Req::Print { text: msg + " (y/n)"@ }) || req == Req::ReadLine || req
                == (Req::Eprint { text: "Invalid choice!"@ }),
    )
    &&& d.len() > 0 && d.last().0 == Req::ReadLine
    &&& d.last().1 matches Answer::Text(line) && choice(line) == Some(yes)
}

/// What a question leaves on record.
pub proof fn lemma_confirm(s: Session, msg: Seq<char>)
    requires
        run(s, confirm(msg)).out is Ok,
    ensures
        settled_by(
            record(s, confirm(msg), deeds()),
            msg,
            run(s, confirm(msg)).out->Ok_0,
        ),
{
    let p = confirm(msg);
    let ok = |req: Req|
        req == (Req::Print { text: msg + " (y/n)"@ }) || req == Req::ReadLine || req
            == (Req::Eprint { text: "Invalid choice!"@ });
    assert(asks_only(p, deeds()) && asks_only(p, ok)) by {
        broadcast use crate::script::group_asks;

    }
    crate::record::lemma_record_whole(s, p, deeds());
    crate::record::lemma_record_only(s, p, deeds(), ok);
    crate::record::lemma_run_grows(s, p);
    law_choice(s, msg);
}

/// After a `posttrans` that succeeds, the etc, var and boot subvolumes of the temporary copy were
/// filled from what is in the directories of the same names in its root, and the four subvolumes
/// of the snapshot were then made from those of the temporary copy, read-only.
pub proof fn law_posttrans(s: Session, snapshot: Seq<char>)
    ensures
        run(s, posttrans_script(snapshot)).out is Ok ==> record(
            s,
            posttrans_script(snapshot),
            deeds(),
        ) == kept_hollow(snapshot),
{
    broadcast use {crate::outcomes::group_outcomes, crate::record::group_ok};

    assert(spares(deeds()));
    let p = posttrans_script(snapshot);
    reveal(posttrans_script);
    reveal(kept_hollow);
    if run(s, p).out is Ok {
        assert(record(s, p, deeds()).len() >= 0);
        let id = chr(snapshot);
        let t = run(s, done(drop_volume(Volume::Rootfs, snapshot))).now;
        lemma_collect(t, Volume::Etc, snapshot, "/etc/*"@);
        let t = run(t, collect(Volume::Etc, snapshot, "/etc/*"@)).now;
        lemma_collect(t, Volume::Var, snapshot, "/var/*"@);
        let t = run(t, collect(Volume::Var, snapshot, "/var/*"@)).now;
        lemma_collect(t, Volume::Boot, snapshot, "/boot/*"@);
        let t = run(t, collect(Volume::Boot, snapshot, "/boot/*"@)).now;
        lemma_posttrans_plan(t, snapshot);
        assert(record(s, p, deeds()) =~= kept_hollow(snapshot));
    }
}

/// A temporary copy took the place of its snapshot, read-only.
#[verifier::opaque]
pub open spec fn kept_hollow(snapshot: Seq<char>) -> Seq<(Req, Answer)> {
    let id = chr(snapshot);
    did(
        seq![
            Req::CopyTree { from: rootfs(id) + "/etc/*"@, to: volume(Volume::Etc, id) },
            Req::CopyTree { from: rootfs(id) + "/var/*"@, to: volume(Volume::Var, id) },
            Req::CopyTree { from: rootfs(id) + "/boot/*"@, to: volume(Volume::Boot, id) },
            Req::SnapshotSubvolume {
                from: volume(Volume::Etc, id),
                to: volume(Volume::Etc, snapshot),
                read_only: true,
            },
            Req::SnapshotSubvolume {
                from: volume(Volume::Var, id),
                to: volume(Volume::Var, snapshot),
                read_only: true,
            },
            Req::SnapshotSubvolume { from: rootfs(id), to: rootfs(snapshot), read_only: true },
            Req::SnapshotSubvolume {
                from: volume(Volume::Boot, id),
                to: volume(Volume::Boot, snapshot),
                read_only: true,
            },
        ],
    )
}

proof fn lemma_posttrans_plan(s: Session, snapshot: Seq<char>)
    requires
        run(s, all_done(posttrans_plan(snapshot))).out is Ok,
    ensures
        record(s, all_done(posttrans_plan(snapshot)), deeds()) == kept_hollow(snapshot).skip(3),
{
    let plan = posttrans_plan(snapshot);
    reveal(kept_hollow);
    crate::record::record_all_done(s, plan, deeds());
    let first = did(plan).take(3);
    let last = did(plan).skip(3);
    assert(did(plan) =~= first + last);
    crate::record::lemma_sift_add(first, last, deeds());
    crate::record::lemma_sift_none(first, deeds());
    crate::record::lemma_sift_all(last, deeds());
    assert(last =~= kept_hollow(snapshot).skip(3));
}

/// A `hollow` that succeeds makes a temporary copy of the snapshot, asks the user, and on a yes
/// puts the temporary copy in the place of the snapshot and deploys it. A snapshot that is marked
/// as mutable is made immutable first.
#[verifier::rlimit(40)]
pub proof fn law_hollow(s: Session, build: Build, snapshot: Seq<char>)
    ensures
        run(s, hollow_script(build, snapshot)).out is Ok ==> exists|
            before: Seq<(Req, Answer)>,
            talk: Seq<(Req, Answer)>,
            locked: Seq<(Req, Answer)>,
            running: Seq<(Req, Answer)>,
            tmp: Seq<char>,
            target: Seq<char>,
            rest: Seq<(Req, Answer)>,
        |
            #![trigger makes_ready(before, snapshot), settled_by(talk, "Snapshot "@ + snapshot + " is now hollow! Whenever done, type yes to deploy and no to discard."@, true), locks(locked, snapshot), tells(running, tmp), deploys(rest, snapshot, tmp, false, false, target)]
            got(
                s,
                run(s, hollow_script(build, snapshot)).now,
                Req::Mount {
                    source: "/"@,
                    target: rootfs(chr(snapshot)),
                    fstype: "btrfs"@,
                    mode: MountMode::RecursiveSlave,
                },
                Answer::Done,
            ) && makes_ready(before, snapshot) && settled_by(talk, "Snapshot "@ + snapshot + " is now hollow! Whenever done, type yes to deploy and no to discard."@, true)
                && locks(locked, snapshot) && tells(running, tmp) && deploys(
                rest,
                snapshot,
                tmp,
                false,
                false,
                target,
            ) && record(s, hollow_script(build, snapshot), deeds()) == before + talk + (kept_hollow(
                snapshot,
            ) + locked) + running + rest,
{
    broadcast use {
        crate::outcomes::group_outcomes,
        crate::record::group_ok,
        crate::record::got_chain,
    };

    assert(spares(deeds()));
    let p = hollow_script(build, snapshot);
    reveal(hollow_script);
    if run(s, p).out is Ok {
        assert(record(s, p, deeds()).len() >= 0);
        let t = run(s, guard_script("make hollow"@, snapshot)).now;
        let before = record(t, prepare_script(build, snapshot), deeds());
        let t = run(t, prepare_script(build, snapshot)).now;
        crate::record::got_done(t, hollow_mount(snapshot));
        let t = run(t, done(hollow_mount(snapshot))).now;
        let ask = confirm(hollow_question(snapshot));
        lemma_confirm(t, hollow_question(snapshot));
        let talk = record(t, ask, deeds());
        let yes = run(t, ask).out->Ok_0;
        let t = run(t, ask).now;
        assert(yes);
        let (locked, running, tmp, target, rest) = lemma_hollow_keep(t, build, snapshot);
        assert(got(s, run(s, p).now, hollow_mount(snapshot), Answer::Done));
        assert(makes_ready(before, snapshot) && settled_by(talk, hollow_question(snapshot), true));
        assert(locks(locked, snapshot) && tells(running, tmp) && deploys(
            rest,
            snapshot,
            tmp,
            false,
            false,
            target,
        ));
        crate::record::lemma_row(
            before,
            talk,
            kept_hollow(snapshot) + locked,
            running,
            rest,
        );
        assert(record(s, p, deeds()) =~= before + (talk + ((kept_hollow(snapshot) + locked) + (running
            + rest))));
    }
}

/// A snapshot that is mutable was made immutable: its root read-only, and the note taken out of
/// its description.
pub open spec fn locks(d: Seq<(Req, Answer)>, snapshot: Seq<char>) -> bool {
    ||| d.len() == 0
    ||| exists|desc: Seq<char>|
        d == did(
            seq![
                Req::SetReadOnly { path: rootfs(snapshot), read_only: true },
                #[trigger] without_note("/.snapshots/ash/snapshots/"@ + snapshot + "-desc"@, desc),
            ],
        )
}

/// A description is written without the note that its snapshot is mutable.
pub open spec fn without_note(path: Seq<char>, desc: Seq<char>) -> Req {
    Req::WriteText { path, text: replaced(desc, " MUTABLE "@, ""@) }
}

proof fn lemma_lock(s: Session, snapshot: Seq<char>)
    requires
        run(s, immutability_enable_script(snapshot)).out is Ok,
    ensures
        locks(record(s, immutability_enable_script(snapshot), deeds()), snapshot),
{
    broadcast use crate::record::group_ok;

    let p = immutability_enable_script(snapshot);
    reveal(immutability_enable_script);
    reveal(check_mutability_script);
    reveal(unmark_script);
    reveal_strlit("/.snapshots/ash/snapshots/");
    let d = record(s, p, deeds());
    assert(d.len() >= 0);
    let order = Req::SetReadOnly { path: rootfs(snapshot), read_only: true };
    let t = run(s, flag(Req::Exists { path: rootfs(snapshot) })).now;
    let t = run(t, check_mutability_script(snapshot)).now;
    let t = run(t, done(Req::RemoveFile { path: mutable_mark(snapshot) })).now;
    let t = run(t, sure(done(order))).now;
    assert(record(t, unmark_script(snapshot), deeds()).len() >= 0);
    let desc = t.next()->Text_0;
    assert(d =~= did(seq![order, without_note(desc_file(snapshot), desc)]));
}

#[verifier::rlimit(40)]
proof fn lemma_hollow_keep(s: Session, build: Build, snapshot: Seq<char>) -> (r: (
    Seq<(Req, Answer)>,
    Seq<(Req, Answer)>,
    Seq<char>,
    Seq<char>,
    Seq<(Req, Answer)>,
))
    requires
        run(s, hollow_keep_script(build, snapshot)).out is Ok,
    ensures
        locks(r.0, snapshot),
        tells(r.1, r.2),
        deploys(r.4, snapshot, r.2, false, false, r.3),
        record(s, hollow_keep_script(build, snapshot), deeds()) == (kept_hollow(snapshot) + r.0) + (
        r.1 + r.4),
{
    broadcast use crate::record::group_ok;

    let p = hollow_keep_script(build, snapshot);
    reveal(hollow_keep_script);
    reveal(check_mutability_script);
    assert(record(s, p, deeds()).len() >= 0);
    law_posttrans(s, snapshot);
    let t = run(s, posttrans_script(snapshot)).now;
    let mutable = t.next() == Answer::Flag(true);
    let t = run(t, check_mutability_script(snapshot)).now;
    let lock = if mutable {
        immutability_enable_script(snapshot)
    } else {
        give(())
    };
    let locked = record(t, lock, deeds());
    if mutable {
        lemma_lock(t, snapshot);
    }
    let t = run(t, lock).now;
    let deploy = deploy_script(build, snapshot, false, false);
    law_deploy(t, build, snapshot, false, false);
    let target = run(t, deploy).out->Ok_0;
    let (running, tmp, rest) = choose|
        running: Seq<(Req, Answer)>,
        tmp: Seq<char>,
        rest: Seq<(Req, Answer)>,
    |
        #[trigger] tells(running, tmp) && #[trigger] deploys(
            rest,
            snapshot,
            tmp,
            false,
            false,
            target,
        ) && record(t, deploy, deeds()) == running + rest;
    assert(record(s, p, deeds()) =~= (kept_hollow(snapshot) + locked) + (running + rest));
    (locked, running, tmp, target, rest)
}

/// The base snapshot was changed by way of its temporary copy, by one plan.
pub open spec fn changed_base(d: Seq<(Req, Answer)>, plan: Seq<Req>) -> bool {
    exists|before: Seq<(Req, Answer)>, after: Seq<(Req, Answer)>|
        #[trigger] makes_ready(before, "0"@) && #[trigger] keeps(after, "0"@) && d == before + did(
            plan,
        ) + after
}

/// The start of the system was armed: what ran at the start was set aside, and in its place the
/// snapshot `current` is deleted and what was set aside is put back.
pub open spec fn armed(d: Seq<(Req, Answer)>, current: Seq<char>) -> bool {
    let root = rootfs(chr("0"@));
    changed_base(
        d,
        seq![
            Req::CopyFile { from: root + "/etc/rc.local"@, to: root + "/etc/rc.local.bak"@ },
            Req::RewriteText {
                path: root + "/etc/rc.local"@,
                text: "#!/bin/sh\n/usr/sbin/ash del -q -n -s "@ + current
                    + "\ncp /etc/rc.local.bak /etc/rc.local\nexit 0"@,
            },
        ],
    )
}

/// What was set aside was put back in the base snapshot.
pub open spec fn disarmed(d: Seq<(Req, Answer)>) -> bool {
    let root = rootfs(chr("0"@));
    changed_base(
        d,
        seq![Req::CopyFile { from: root + "/etc/rc.local.bak"@, to: root + "/etc/rc.local"@ }],
    )
}

proof fn lemma_arm(s: Session, build: Build, current: Seq<char>)
    requires
        run(s, arm_script(build, current)).out is Ok,
    ensures
        armed(record(s, arm_script(build, current), deeds()), current),
{
    broadcast use {crate::outcomes::group_outcomes, crate::record::group_ok};

    let p = arm_script(build, current);
    let root = rootfs(chr("0"@));
    reveal(arm_script);
    assert(record(s, p, deeds()).len() >= 0);
    let before = record(s, prepare_script(build, "0"@), deeds());
    let t = run(s, prepare_script(build, "0"@)).now;
    let plan = seq![
        Req::CopyFile { from: root + "/etc/rc.local"@, to: root + "/etc/rc.local.bak"@ },
        Req::RewriteText { path: root + "/etc/rc.local"@, text: reset_job(current) },
    ];
    let t = run(t, all_done(plan)).now;
    let after = record(t, post_transactions_script(build, "0"@), deeds());
    assert(makes_ready(before, "0"@) && keeps(after, "0"@));
    assert(record(s, p, deeds()) =~= before + did(plan) + after);
}

proof fn lemma_disarm(s: Session, build: Build)
    requires
        run(s, disarm_script(build)).out is Ok,
    ensures
        disarmed(record(s, disarm_script(build), deeds())),
{
    broadcast use {crate::outcomes::group_outcomes, crate::record::group_ok};

    let p = disarm_script(build);
    let root = rootfs(chr("0"@));
    reveal(disarm_script);
    assert(record(s, p, deeds()).len() >= 0);
    let before = record(s, prepare_script(build, "0"@), deeds());
    let t = run(s, prepare_script(build, "0"@)).now;
    let order = Req::CopyFile {
        from: root + "/etc/rc.local.bak"@,
        to: root + "/etc/rc.local"@,
    };
    let t = run(t, done(order)).now;
    let after = record(t, post_transactions_script(build, "0"@), deeds());
    assert(makes_ready(before, "0"@) && keeps(after, "0"@));
    assert(record(s, p, deeds()) =~= before + did(seq![order]) + after);
}

/// The base snapshot was deployed, with the start of the system armed before and disarmed after.
pub open spec fn base_deployed(d: Seq<(Req, Answer)>, current: Seq<char>) -> bool {
    exists|
        first: Seq<(Req, Answer)>,
        running: Seq<(Req, Answer)>,
        tmp: Seq<char>,
        target: Seq<char>,
        middle: Seq<(Req, Answer)>,
        last: Seq<(Req, Answer)>,
    |
        #![trigger armed(first, current), tells(running, tmp), deploys(middle, "0"@, tmp, false, true, target), disarmed(last)]
        armed(first, current) && tells(running, tmp) && deploys(
            middle,
            "0"@,
            tmp,
            false,
            true,
            target,
        ) && disarmed(last) && d == first + running + middle + last
}

#[verifier::rlimit(40)]
proof fn lemma_reset_run(
    s: Session,
    build: Build,
    current: Seq<char>,
    snapshots: Seq<Seq<char>>,
) -> (r: (Seq<(Req, Answer)>, Session))
    requires
        run(s, reset_run_script(build, current, snapshots)).out is Ok,
    ensures
        base_deployed(r.0, current),
        run(r.1, each(snapshots, wipe(current))).out is Ok,
        record(s, reset_run_script(build, current, snapshots), deeds()) == r.0 + record(
            r.1,
            each(snapshots, wipe(current)),
            deeds(),
        ),
{
    broadcast use crate::record::group_ok;

    let p = reset_run_script(build, current, snapshots);
    reveal(reset_run_script);
    assert(record(s, p, deeds()).len() >= 0);
    lemma_arm(s, build, current);
    let first = record(s, arm_script(build, current), deeds());
    let t = run(s, arm_script(build, current)).now;
    let deploy = deploy_script(build, "0"@, false, true);
    assert(run(t, attempt(deploy)).out->Ok_0 is Ok);
    law_deploy(t, build, "0"@, false, true);
    let target = run(t, deploy).out->Ok_0;
    let (running, tmp, middle) = choose|
        running: Seq<(Req, Answer)>,
        tmp: Seq<char>,
        middle: Seq<(Req, Answer)>,
    |
        #[trigger] tells(running, tmp) && #[trigger] deploys(
            middle,
            "0"@,
            tmp,
            false,
            true,
            target,
        ) && record(t, deploy, deeds()) == running + middle;
    let t = run(t, attempt(deploy)).now;
    lemma_disarm(t, build);
    let last = record(t, disarm_script(build), deeds());
    let t = run(t, disarm_script(build)).now;
    let wiped = record(t, each(snapshots, wipe(current)), deeds());
    assert(armed(first, current) && disarmed(last));
    let d = first + running + middle + last;
    assert(base_deployed(d, current));
    crate::record::lemma_row(first, running, middle, last, wiped);
    assert(record(s, p, deeds()) =~= first + ((running + middle) + (last + wiped)));
    assert(first + ((running + middle) + (last + wiped)) =~= d + wiped);
    (d, t)
}

/// A `reset` that succeeds asked the user twice and got a yes both times. It arms the start of the
/// system against the snapshot that runs, deploys the base snapshot, and then goes through the
/// snapshots at the root of the tree.
#[verifier::rlimit(40)]
pub proof fn law_reset(s: Session, build: Build)
    ensures
        run(s, reset_script(build)).out is Ok ==> exists|
            note: Seq<char>,
            sure_of_it: Seq<(Req, Answer)>,
            restart: Seq<(Req, Answer)>,
            t: u64,
            snapshots: Seq<Seq<char>>,
            made: Seq<(Req, Answer)>,
            u: Session,
        |
            #![trigger asked_current(note), settled_by(sure_of_it, "All snapshots will be permanently deleted and cannot be retrieved, are you absolutely certain you want to continue?"@, true), settled_by(restart, "The system will restart automatically to complete the reset. Do you want to continue?"@, true), family("root"@, t, snapshots), base_deployed(made, trimmed_end(note)), run(u, each(snapshots, wipe(trimmed_end(note))))]
            settled_by(sure_of_it, "All snapshots will be permanently deleted and cannot be retrieved, are you absolutely certain you want to continue?"@, true) && settled_by(
                restart,
                "The system will restart automatically to complete the reset. Do you want to continue?"@,
                true,
            ) && base_deployed(made, trimmed_end(note)) && run(
                u,
                each(snapshots, wipe(trimmed_end(note))),
            ).out is Ok && record(s, reset_script(build), deeds()) == asked_current(note) + (
            sure_of_it + restart) + family("root"@, t, snapshots) + made + record(
                u,
                each(snapshots, wipe(trimmed_end(note))),
                deeds(),
            ),
{
    broadcast use crate::record::group_ok;

    let p = reset_script(build);
    reveal(reset_script);
    reveal(reset_consent_script);
    if run(s, p).out is Ok {
        reveal_strlit("/usr/share/ash/snap");
        assert(record(s, p, deeds()).len() >= 0);
        lemma_current(s, deeds());
        let note = s.next()->Text_0;
        let current = trimmed_end(note);
        let v = run(s, get_current_snapshot_script()).now;
        assert(record(v, reset_consent_script(), deeds()).len() >= 0);
        lemma_confirm(v, reset_question());
        let sure_of_it = record(v, confirm(reset_question()), deeds());
        let w = run(v, confirm(reset_question())).now;
        assert(run(v, confirm(reset_question())).out->Ok_0);
        lemma_confirm(w, restart_question());
        let restart = record(w, confirm(restart_question()), deeds());
        assert(record(v, reset_consent_script(), deeds()) =~= sure_of_it + restart);
        let v = run(v, reset_consent_script()).now;
        let t = v.next()->Tree_0;
        let v = run(v, sure(tree(Req::LoadTree))).now;
        let snapshots = v.next()->Texts_0;
        let v = run(v, texts(Req::ChildrenOf { tree: t, name: "root"@ })).now;
        let (made, u) = lemma_reset_run(v, build, current, snapshots);
        let wiped = record(u, each(snapshots, wipe(current)), deeds());
        crate::record::lemma_row(
            asked_current(note),
            sure_of_it + restart,
            family("root"@, t, snapshots),
            made,
            wiped,
        );
        assert(record(s, p, deeds()) =~= asked_current(note) + ((sure_of_it + restart) + (family(
            "root"@,
            t,
            snapshots,
        ) + (made + wiped))));
    }
}

/// When the system is reset, a snapshot that is there is deleted with what is below it in the tree,
/// unless it is the one that runs or the base snapshot.
pub proof fn law_wipe(s: Session, current: Seq<char>, snapshot: Seq<char>)
    ensures
        run(s, wipe(current)(snapshot)).out is Ok ==> exists|there: bool, rest: Seq<(Req, Answer)>|
            record(s, wipe(current)(snapshot), erasures()) == #[trigger] (looked_for(
                rootfs(snapshot),
                there,
            ) + rest) && (if there && snapshot != current && snapshot != "0"@ {
                in_turn(rest, seq![snapshot], deleting())
            } else {
                rest.len() == 0
            }),
{
    broadcast use crate::record::group_ok;

    let p = wipe(current)(snapshot);
    if run(s, p).out is Ok {
        assert(record(s, p, erasures()).len() >= 0);
        let there = s.next() == Answer::Flag(true);
        let t = run(s, flag(Req::Exists { path: rootfs(snapshot) })).now;
        let rest = if there && snapshot != current && snapshot != "0"@ {
            law_delete_node(t, seq![snapshot], true, true);
            record(t, delete_node_script(seq![snapshot], true, true), erasures())
        } else {
            seq![]
        };
        assert(record(s, p, erasures()) =~= looked_for(rootfs(snapshot), there) + rest);
    }
}

}
