//! What deploying and rebuilding come to.

use vstd::prelude::*;
use crate::chroots::{post_transactions_script, prepare_script};
use crate::config::{dir_list, snapshot_config_get_script};
use crate::dirs::{private_dirs, shared_dirs};
use crate::deployment::{
    aux_tmp, backup_script, check_mutability_script, clear_slot, deploy_beside, deploy_plan,
    deploy_recovery_script, deploy_script, enter_dir, enter_dir_plan, enter_dirs_script,
    get_recovery_tmp_script, get_tmp_script, mounts_script, note_recovery_script,
    place_recovery_script, place_script, recovery_aux_tmp, recovery_file, rename_script,
    running_slot, table_for, tmp_delete_script, writable_root, writable_script,
};
use crate::outcomes::{copied, deeds, keeps, makes_ready, spares};
use crate::paths::{chr, rootfs, snap_file, volume, Volume};
use crate::record::{did, got, others, record, sift};
use crate::request::{Answer, Req};
use crate::script::{all_done, asks_only, chain, done, each, flag, run, text, Build, Session};
use crate::text::{lines, trimmed};

verus! {

/// What is mounted was read.
pub open spec fn looked(content: Seq<char>) -> Seq<(Req, Answer)> {
    seq![(Req::ReadText { path: "/proc/mounts"@ }, Answer::Text(content))]
}

/// By what was read, the deployment that runs is `tmp`.
pub open spec fn tells(d: Seq<(Req, Answer)>, tmp: Seq<char>) -> bool {
    exists|content: Seq<char>| d == #[trigger] looked(content) && tmp == running_slot(lines(content))
}

/// `get_tmp` reads what is mounted and tells which deployment runs.
pub proof fn law_get_tmp(s: Session)
    ensures
        run(s, get_tmp_script()).out matches Ok(tmp) ==> tells(
            record(s, get_tmp_script(), deeds()),
            tmp,
        ),
{
    broadcast use crate::record::group_ok;

    reveal(get_tmp_script);
    reveal(mounts_script);
    if run(s, get_tmp_script()).out is Ok {
        assert(record(s, get_tmp_script(), deeds()).len() >= 0);
        reveal_strlit("/proc/mounts");
        assert(record(s, get_tmp_script(), deeds()) =~= looked(s.next()->Text_0));
    }
}

/// What `get_tmp` leaves on record.
pub broadcast proof fn ok_get_tmp(s: Session)
    requires
        run(s, get_tmp_script()).out is Ok,
    ensures
        tells(#[trigger] record(s, get_tmp_script(), deeds()), run(s, get_tmp_script()).out->Ok_0),
{
    law_get_tmp(s);
}

proof fn lemma_backup(s: Session, tmp: Seq<char>)
    requires
        run(s, backup_script(tmp)).out is Ok,
    ensures
        record(s, backup_script(tmp), deeds()) == copied(tmp, "rollback"@, true),
{
    broadcast use {crate::script::group_asks, crate::record::group_ok};

    reveal(backup_script);
}

proof fn lemma_clear_slot(tmp: Seq<char>)
    ensures
        asks_only(clear_slot(tmp), others(deeds())),
{
    broadcast use crate::script::group_asks;

    reveal(clear_slot);
}

proof fn lemma_tmp_delete(s: Session, secondary: bool) -> (tmp: Seq<char>)
    requires
        run(s, tmp_delete_script(secondary)).out is Ok,
    ensures
        tells(record(s, tmp_delete_script(secondary), deeds()), tmp),
{
    broadcast use {crate::record::group_ok, ok_get_tmp};

    reveal(tmp_delete_script);
    assert(record(s, tmp_delete_script(secondary), deeds()).len() >= 0);
    let tmp = run(s, get_tmp_script()).out->Ok_0;
    lemma_clear_slot(aux_tmp(tmp, secondary));
    assert(record(s, tmp_delete_script(secondary), deeds()) =~= record(
        s,
        get_tmp_script(),
        deeds(),
    ));
    tmp
}

/// The content of the boot, etc and var subvolumes of `from` was put into the directories of the
/// same names in the root of `to`.
pub open spec fn filled(from: Seq<char>, to: Seq<char>) -> Seq<(Req, Answer)> {
    did(
        seq![
            Req::CopyTree { from: volume(Volume::Boot, from) + "/."@, to: rootfs(to) + "/boot"@ },
            Req::CopyTree { from: volume(Volume::Etc, from) + "/."@, to: rootfs(to) + "/etc"@ },
            Req::CopyTree { from: volume(Volume::Var, from) + "/."@, to: rootfs(to) + "/var"@ },
        ],
    )
}

proof fn lemma_deploy_plan(s: Session, snapshot: Seq<char>, tmp: Seq<char>)
    requires
        run(s, all_done(deploy_plan(snapshot, tmp))).out is Ok,
    ensures
        record(s, all_done(deploy_plan(snapshot, tmp)), deeds()) == copied(snapshot, tmp, false)
            + filled(snapshot, tmp),
{
    let plan = deploy_plan(snapshot, tmp);
    crate::record::record_all_done(s, plan, deeds());
    let first = copied(snapshot, tmp, false);
    let dirs = did(
        seq![
            Req::MakeDirs { path: rootfs(tmp) + "/boot"@ },
            Req::MakeDirs { path: rootfs(tmp) + "/etc"@ },
            Req::MakeDirs { path: rootfs(tmp) + "/var"@ },
        ],
    );
    let last = filled(snapshot, tmp);
    assert(did(plan) =~= first + dirs + last);
    crate::record::lemma_sift_add(first + dirs, last, deeds());
    crate::record::lemma_sift_add(first, dirs, deeds());
    crate::record::lemma_sift_all(first, deeds());
    crate::record::lemma_sift_all(last, deeds());
    crate::record::lemma_sift_none(dirs, deeds());
}

/// Lines were added to the table of file systems of a deployment, one for each of these
/// directories, by which it is bound there to the directory of the same name at `prefix`.
pub open spec fn bound(prefix: Seq<char>, tmp: Seq<char>, dirs: Seq<Seq<char>>) -> Seq<(Req, Answer)> {
    Seq::new(
        dirs.len(),
        |i: int|
            (
                Req::AppendText {
                    path: rootfs(tmp) + "/etc/fstab"@,
                    text: prefix + dirs[i] + " /"@ + dirs[i] + " none defaults,bind 0 0\n"@,
                },
                Answer::Done,
            ),
    )
}

proof fn lemma_enter_each(s: Session, prefix: Seq<char>, tmp: Seq<char>, dirs: Seq<Seq<char>>)
    requires
        run(s, each(dirs, enter_dir(prefix, tmp))).out is Ok,
    ensures
        record(s, each(dirs, enter_dir(prefix, tmp)), deeds()) == bound(prefix, tmp, dirs),
    decreases dirs.len(),
{
    broadcast use crate::record::group_ok;

    let f = enter_dir(prefix, tmp);
    if dirs.len() == 0 {
        assert(bound(prefix, tmp, dirs) =~= Seq::empty());
    } else {
        let rest = dirs.drop_first();
        let k = |u: ()| each(dirs.drop_first(), f);
        assert(each(dirs, f) == chain(f(dirs[0]), k));
        assert(record(s, each(dirs, f), deeds()).len() >= 0);
        let t = run(s, f(dirs[0])).now;
        lemma_enter_each(t, prefix, tmp, rest);
        let plan = enter_dir_plan(prefix, tmp, dirs[0]);
        crate::record::record_all_done(s, plan, deeds());
        reveal_with_fuel(sift, 4);
        assert(sift(did(plan), deeds()) =~= seq![bound(prefix, tmp, dirs)[0]]);
        assert(seq![bound(prefix, tmp, dirs)[0]] + bound(prefix, tmp, rest) =~= bound(
            prefix,
            tmp,
            dirs,
        ));
    }
}

/// The table of file systems of a deployment was made fit for it: the root made writable where
/// the snapshot is mutable, and its mutable directories bound, its own and the shared ones.
pub open spec fn fitted(
    table: Seq<(Req, Answer)>,
    options: Map<Seq<char>, Seq<char>>,
    snapshot: Seq<char>,
    tmp: Seq<char>,
) -> bool {
    let dirs = bound(
        "/.snapshots/mutable_dirs/snapshot-"@ + snapshot + "/"@,
        tmp,
        dir_list(options, "mutable_dirs"@),
    ) + bound("/.snapshots/mutable_dirs/"@, tmp, dir_list(options, "mutable_dirs_shared"@));
    ||| table == dirs
    ||| exists|text: Seq<char>| table == #[trigger] rewritten(rootfs(tmp) + "/etc/fstab"@, text) + dirs
}

/// A file was written.
pub open spec fn rewritten(path: Seq<char>, text: Seq<char>) -> Seq<(Req, Answer)> {
    did(seq![Req::WriteText { path, text }])
}

#[verifier::rlimit(40)]
proof fn lemma_fit(
    s: Session,
    options: Map<Seq<char>, Seq<char>>,
    snapshot: Seq<char>,
    tmp: Seq<char>,
)
    requires
        run(s, writable_script(snapshot, tmp)).out is Ok,
        ({
            let t = run(s, writable_script(snapshot, tmp)).now;
            run(t, enter_dirs_script(options, snapshot, tmp)).out is Ok
        }),
    ensures
        ({
            let t = run(s, writable_script(snapshot, tmp)).now;
            fitted(
                record(s, writable_script(snapshot, tmp), deeds()) + record(
                    t,
                    enter_dirs_script(options, snapshot, tmp),
                    deeds(),
                ),
                options,
                snapshot,
                tmp,
            )
        }),
{
    broadcast use crate::record::group_ok;

    let t = run(s, writable_script(snapshot, tmp)).now;
    let dirs = bound(
        "/.snapshots/mutable_dirs/snapshot-"@ + snapshot + "/"@,
        tmp,
        dir_list(options, "mutable_dirs"@),
    ) + bound("/.snapshots/mutable_dirs/"@, tmp, dir_list(options, "mutable_dirs_shared"@));
    assert(record(t, enter_dirs_script(options, snapshot, tmp), deeds()) =~= dirs) by {
        reveal(enter_dirs_script);
        assert(record(t, enter_dirs_script(options, snapshot, tmp), deeds()).len() >= 0);
        let first = each(
            dir_list(options, "mutable_dirs"@),
            enter_dir(private_dirs(snapshot) + "/"@, tmp),
        );
        lemma_enter_each(
            t,
            private_dirs(snapshot) + "/"@,
            tmp,
            dir_list(options, "mutable_dirs"@),
        );
        lemma_enter_each(
            run(t, first).now,
            shared_dirs(),
            tmp,
            dir_list(options, "mutable_dirs_shared"@),
        );
    }
    let d = record(s, writable_script(snapshot, tmp), deeds());
    assert(d == Seq::<(Req, Answer)>::empty() || exists|text: Seq<char>|
        d == #[trigger] rewritten(rootfs(tmp) + "/etc/fstab"@, text)) by {
        reveal(writable_script);
        reveal(check_mutability_script);
        assert(d.len() >= 0);
        let t1 = run(s, check_mutability_script(snapshot)).now;
        reveal_strlit("/.snapshots/rootfs/snapshot-");
        if s.next() == Answer::Flag(true) {
            let content = t1.next()->Text_0;
            if let Some(new) = writable_root(content, tmp) {
                assert(d =~= rewritten(rootfs(tmp) + "/etc/fstab"@, new));
            }
        }
    }
    assert(Seq::<(Req, Answer)>::empty() + dirs =~= dirs);
}

/// Every request.
pub open spec fn all_of_it() -> spec_fn(Req) -> bool {
    |req: Req| true
}

/// The root of a deployment is made writable where the snapshot is marked as mutable: the table
/// of file systems of the deployment is read and written back without the first `,ro` after its
/// name. Otherwise that table is left alone.
pub proof fn law_writable(s: Session, snapshot: Seq<char>, tmp: Seq<char>)
    ensures
        run(s, writable_script(snapshot, tmp)).out is Ok ==> ({
            let d = record(s, writable_script(snapshot, tmp), all_of_it());
            let mark = Req::Exists { path: rootfs(snapshot) + "/usr/share/ash/mutable"@ };
            let table = rootfs(tmp) + "/etc/fstab"@;
            &&& d.len() > 0 && d[0].0 == mark
            &&& d[0].1 == Answer::Flag(false) ==> d.len() == 1
            &&& d[0].1 == Answer::Flag(true) ==> d.len() > 1 && d[1].0 == (Req::ReadText {
                path: table,
            }) && (d[1].1 matches Answer::Text(content) && match writable_root(content, tmp) {
                Some(new) => d.skip(2) == rewritten(table, new),
                None => d.len() == 2,
            })
            &&& d[0].1 is Flag
        }),
{
    broadcast use crate::record::group_ok;

    let p = writable_script(snapshot, tmp);
    reveal(writable_script);
    reveal(check_mutability_script);
    if run(s, p).out is Ok {
        let d = record(s, p, all_of_it());
        assert(d.len() >= 0);
        let t1 = run(s, check_mutability_script(snapshot)).now;
        if s.next() == Answer::Flag(true) {
            let content = t1.next()->Text_0;
            if let Some(new) = writable_root(content, tmp) {
                assert(d.skip(2) =~= rewritten(rootfs(tmp) + "/etc/fstab"@, new));
            }
        }
    }
}

/// A snapshot was put into a deployment: the four subvolumes of the deployment were made from
/// those of the snapshot, writable, its root was filled from the others and its table of file
/// systems fitted, and it was noted there which snapshot it is of.
pub open spec fn placed_in(d: Seq<(Req, Answer)>, snapshot: Seq<char>, tmp: Seq<char>) -> bool {
    exists|table: Seq<(Req, Answer)>, options: Map<Seq<char>, Seq<char>>|
        #[trigger] fitted(table, options, snapshot, tmp) && d == copied(snapshot, tmp, false)
            + filled(snapshot, tmp) + table + rewritten(
            rootfs(tmp) + "/usr/share/ash/snap"@,
            snapshot,
        )
}

#[verifier::rlimit(40)]
proof fn lemma_place(
    s: Session,
    build: Build,
    snapshot: Seq<char>,
    tmp: Seq<char>,
    secondary: bool,
    reset: bool,
)
    requires
        run(s, place_script(build, snapshot, tmp, secondary, reset)).out is Ok,
    ensures
        ({
            let p = place_script(build, snapshot, tmp, secondary, reset);
            let target = run(s, p).out->Ok_0;
            exists|made: Seq<(Req, Answer)>|
                #[trigger] placed_in(made, snapshot, tmp) && record(s, p, deeds()) == made + seq![
                    (Req::SwitchTmp { secondary, reset }, Answer::Text(target)),
                    (Req::SetDefault { path: rootfs(tmp) }, Answer::Done),
                ]
        }),
{
    broadcast use {crate::outcomes::group_outcomes, crate::record::group_ok};

    assert(spares(deeds()));
    let p = place_script(build, snapshot, tmp, secondary, reset);
    reveal(place_script);
    assert(record(s, p, deeds()).len() >= 0);
    let options = run(s, snapshot_config_get_script(build, snapshot)).out->Ok_0;
    let t = run(s, snapshot_config_get_script(build, snapshot)).now;
    lemma_deploy_plan(t, snapshot, tmp);
    let t = run(t, all_done(deploy_plan(snapshot, tmp))).now;
    lemma_fit(t, options, snapshot, tmp);
    let u = run(t, writable_script(snapshot, tmp)).now;
    let table = record(t, writable_script(snapshot, tmp), deeds()) + record(
        u,
        enter_dirs_script(options, snapshot, tmp),
        deeds(),
    );
    let note = rewritten(rootfs(tmp) + "/usr/share/ash/snap"@, snapshot);
    let made = copied(snapshot, tmp, false) + filled(snapshot, tmp) + table + note;
    assert(placed_in(made, snapshot, tmp));
    let target = run(s, p).out->Ok_0;
    assert(record(s, p, deeds()) =~= made + seq![
        (Req::SwitchTmp { secondary, reset }, Answer::Text(target)),
        (Req::SetDefault { path: rootfs(tmp) }, Answer::Done),
    ]);
}

/// While the deployment `tmp` runs, a snapshot was deployed.
pub open spec fn deploys(
    d: Seq<(Req, Answer)>,
    snapshot: Seq<char>,
    tmp: Seq<char>,
    secondary: bool,
    reset: bool,
    target: Seq<char>,
) -> bool {
    let slot = aux_tmp(tmp, secondary);
    exists|again: Seq<(Req, Answer)>, now: Seq<char>, made: Seq<(Req, Answer)>|
        #![trigger tells(again, now), placed_in(made, snapshot, aux_tmp(tmp, secondary))]
        tells(again, now) && placed_in(made, snapshot, aux_tmp(tmp, secondary)) && d == copied(
            tmp,
            "rollback"@,
            true,
        ) + did(
            seq![Req::UpdateBoot { snapshot, secondary }, Req::SetDefault { path: rootfs(tmp) }],
        ) + again + made + seq![
            (Req::SwitchTmp { secondary, reset }, Answer::Text(target)),
            (Req::SetDefault { path: rootfs(slot) }, Answer::Done),
        ]
}

#[verifier::rlimit(40)]
proof fn lemma_deploy_beside(
    s: Session,
    build: Build,
    snapshot: Seq<char>,
    tmp: Seq<char>,
    secondary: bool,
    reset: bool,
)
    requires
        run(s, deploy_beside(build, snapshot, secondary, reset)(tmp)).out is Ok,
    ensures
        deploys(
            record(s, deploy_beside(build, snapshot, secondary, reset)(tmp), deeds()),
            snapshot,
            tmp,
            secondary,
            reset,
            run(s, deploy_beside(build, snapshot, secondary, reset)(tmp)).out->Ok_0,
        ),
{
    broadcast use crate::record::group_ok;

    let p = deploy_beside(build, snapshot, secondary, reset)(tmp);
    let slot = aux_tmp(tmp, secondary);
    assert(record(s, p, deeds()).len() >= 0);
    lemma_backup(s, tmp);
    let t = run(s, backup_script(tmp)).now;
    let plan = seq![
        Req::UpdateBoot { snapshot, secondary },
        Req::SetDefault { path: rootfs(tmp) },
    ];
    let t = run(t, all_done(plan)).now;
    let now = lemma_tmp_delete(t, secondary);
    let again = record(t, tmp_delete_script(secondary), deeds());
    let t = run(t, tmp_delete_script(secondary)).now;
    lemma_place(t, build, snapshot, slot, secondary, reset);
    let target = run(s, p).out->Ok_0;
    let made = choose|made: Seq<(Req, Answer)>|
        #[trigger] placed_in(made, snapshot, slot) && record(
            t,
            place_script(build, snapshot, slot, secondary, reset),
            deeds(),
        ) == made + seq![
            (Req::SwitchTmp { secondary, reset }, Answer::Text(target)),
            (Req::SetDefault { path: rootfs(slot) }, Answer::Done),
        ];
    assert(record(s, p, deeds()) =~= copied(tmp, "rollback"@, true) + did(plan) + again + made
        + seq![
        (Req::SwitchTmp { secondary, reset }, Answer::Text(target)),
        (Req::SetDefault { path: rootfs(slot) }, Answer::Done),
    ]);
    assert(tells(again, now) && placed_in(made, snapshot, aux_tmp(tmp, secondary)));
}

/// A `deploy` that succeeds copies the running deployment to the rollback, updates the boot entry
/// for the snapshot, and puts the snapshot into the other deployment of the kind that was asked
/// for. Last the boot target is switched, and the default subvolume is set to the root of that
/// deployment. The target that is given is the one that the boot was switched to.
#[verifier::rlimit(40)]
pub proof fn law_deploy(
    s: Session,
    build: Build,
    snapshot: Seq<char>,
    secondary: bool,
    reset: bool,
)
    ensures
        run(s, deploy_script(build, snapshot, secondary, reset)).out matches Ok(target) ==> exists|
            running: Seq<(Req, Answer)>,
            tmp: Seq<char>,
            rest: Seq<(Req, Answer)>,
        |
            #[trigger] tells(running, tmp) && #[trigger] deploys(
                rest,
                snapshot,
                tmp,
                secondary,
                reset,
                target,
            ) && record(s, deploy_script(build, snapshot, secondary, reset), deeds()) == running
                + rest,
{
    broadcast use {crate::record::group_ok, ok_get_tmp};

    let p = deploy_script(build, snapshot, secondary, reset);
    reveal(deploy_script);
    if run(s, p).out is Ok {
        assert(record(s, p, deeds()).len() >= 0);
        let t = run(s, flag(Req::Exists { path: rootfs(snapshot) })).now;
        let running = record(t, get_tmp_script(), deeds());
        let tmp = run(t, get_tmp_script()).out->Ok_0;
        let t = run(t, get_tmp_script()).now;
        lemma_deploy_beside(t, build, snapshot, tmp, secondary, reset);
        let rest = record(t, deploy_beside(build, snapshot, secondary, reset)(tmp), deeds());
        assert(record(s, p, deeds()) =~= running + rest);
    }
}

// ----------------------------------------------------------------- recovery

/// The name of the recovery deployment was read where it is noted, or is the first one's.
pub open spec fn named_recovery(s: Session, now: Session, tmp: Seq<char>) -> bool {
    let file = rootfs("0"@) + "/usr/share/ash/rec-tmp"@;
    ||| got(s, now, Req::IsFile { path: file }, Answer::Flag(false)) && tmp == "recovery-deploy"@
    ||| exists|content: Seq<char>|
        #[trigger] got_note(s, now, file, content) && tmp == trimmed(content)
}

/// A file was read.
pub open spec fn got_note(s: Session, now: Session, path: Seq<char>, content: Seq<char>) -> bool {
    got(s, now, Req::ReadText { path }, Answer::Text(content))
}

proof fn lemma_recovery_name(s: Session)
    requires
        run(s, get_recovery_tmp_script()).out is Ok,
    ensures
        record(s, get_recovery_tmp_script(), deeds()) == Seq::<(Req, Answer)>::empty(),
        named_recovery(
            s,
            run(s, get_recovery_tmp_script()).now,
            run(s, get_recovery_tmp_script()).out->Ok_0,
        ),
{
    broadcast use {
        crate::record::group_ok,
        crate::record::got_chain,
        crate::record::got_flag,
        crate::record::got_text,
    };

    reveal(get_recovery_tmp_script);
    reveal_strlit("/.snapshots/rootfs/snapshot-");
    let p = get_recovery_tmp_script();
    let file = rootfs("0"@) + "/usr/share/ash/rec-tmp"@;
    assert(record(s, p, deeds()).len() >= 0);
    assert(record(s, p, deeds()) =~= Seq::<(Req, Answer)>::empty());
    let ask = Req::IsFile { path: file };
    let read = Req::ReadText { path: file };
    let t = run(s, flag(ask)).now;
    if s.next() == Answer::Flag(true) {
        let content = t.next()->Text_0;
        assert(got(t, run(t, text(read)).now, read, Answer::Text(content)));
        assert(got_note(s, run(s, p).now, file, content));
    } else {
        assert(got(s, run(s, flag(ask)).now, ask, Answer::Flag(false)));
        assert(got(s, run(s, p).now, ask, Answer::Flag(false)));
    }
}

/// `get_recovery_tmp` gives the name that is noted in the base snapshot, without the white space
/// around it, and the name of the first recovery deployment where none is noted.
pub proof fn law_get_recovery_tmp(s: Session)
    ensures
        run(s, get_recovery_tmp_script()).out matches Ok(tmp) ==> named_recovery(
            s,
            run(s, get_recovery_tmp_script()).now,
            tmp,
        ),
{
    if run(s, get_recovery_tmp_script()).out is Ok {
        lemma_recovery_name(s);
    }
}

/// The base snapshot was put into a recovery deployment, whose table of file systems, as it was
/// read, was first turned to it.
pub open spec fn placed_recovery(
    d: Seq<(Req, Answer)>,
    slot: Seq<char>,
    content: Seq<char>,
) -> bool {
    exists|table: Seq<(Req, Answer)>, options: Map<Seq<char>, Seq<char>>|
        #[trigger] fitted(table, options, "0"@, slot) && d == copied("0"@, slot, false) + filled(
            "0"@,
            slot,
        ) + rewritten(rootfs(slot) + "/etc/fstab"@, table_for(content, slot)) + table + did(
            seq![
                Req::WriteText { path: rootfs(slot) + "/usr/share/ash/snap"@, text: "0"@ },
                Req::SwitchRecoveryTmp,
            ],
        )
}

/// The name of the recovery deployment was noted in the base snapshot, by way of its temporary
/// copy.
pub open spec fn noted_recovery(d: Seq<(Req, Answer)>, slot: Seq<char>) -> bool {
    exists|before: Seq<(Req, Answer)>, after: Seq<(Req, Answer)>|
        #[trigger] makes_ready(before, "0"@) && #[trigger] keeps(after, "0"@) && d == before
            + rewritten(rootfs("chr0"@) + "/usr/share/ash/rec-tmp"@, slot) + after
}

proof fn lemma_note_recovery(s: Session, build: Build, slot: Seq<char>)
    requires
        run(s, note_recovery_script(build, slot)).out is Ok,
    ensures
        noted_recovery(record(s, note_recovery_script(build, slot), deeds()), slot),
{
    broadcast use {crate::outcomes::group_outcomes, crate::record::group_ok};

    let p = note_recovery_script(build, slot);
    reveal(note_recovery_script);
    assert(chr("0"@) =~= "chr0"@) by {
        reveal_strlit("chr");
        reveal_strlit("0");
        reveal_strlit("chr0");
    }
    assert(record(s, p, deeds()).len() >= 0);
    let before = record(s, prepare_script(build, "0"@), deeds());
    let t = run(s, prepare_script(build, "0"@)).now;
    let order = Req::WriteText { path: recovery_file(chr("0"@)), text: slot };
    let t = run(t, done(order)).now;
    let after = record(t, post_transactions_script(build, "0"@), deeds());
    assert(record(s, p, deeds()) =~= before + rewritten(
        rootfs("chr0"@) + "/usr/share/ash/rec-tmp"@,
        slot,
    ) + after);
}

proof fn lemma_rename(s: Session, slot: Seq<char>) -> (content: Seq<char>)
    requires
        run(s, rename_script(slot)).out is Ok,
    ensures
        record(s, rename_script(slot), deeds()) == rewritten(
            rootfs(slot) + "/etc/fstab"@,
            table_for(content, slot),
        ),
        got_note(s, run(s, rename_script(slot)).now, rootfs(slot) + "/etc/fstab"@, content),
{
    broadcast use {
        crate::record::group_ok,
        crate::record::got_chain,
        crate::record::got_text,
    };

    reveal(rename_script);
    reveal_strlit("/.snapshots/rootfs/snapshot-");
    let file = rootfs(slot) + "/etc/fstab"@;
    let read = Req::ReadText { path: file };
    assert(record(s, rename_script(slot), deeds()).len() >= 0);
    let content = s.next()->Text_0;
    assert(record(s, rename_script(slot), deeds()) =~= rewritten(file, table_for(content, slot)));
    assert(got(s, run(s, text(read)).now, read, Answer::Text(content)));
    assert(got(s, run(s, rename_script(slot)).now, read, Answer::Text(content)));
    content
}

#[verifier::rlimit(40)]
proof fn lemma_place_recovery(
    s: Session,
    build: Build,
    options: Map<Seq<char>, Seq<char>>,
    slot: Seq<char>,
)
    requires
        run(s, place_recovery_script(build, options, slot)).out is Ok,
    ensures
        exists|content: Seq<char>, made: Seq<(Req, Answer)>, noted: Seq<(Req, Answer)>|
            #[trigger] placed_recovery(made, slot, content) && #[trigger] noted_recovery(
                noted,
                slot,
            ) && record(s, place_recovery_script(build, options, slot), deeds()) == made + noted
                && got_note(
                s,
                run(s, place_recovery_script(build, options, slot)).now,
                rootfs(slot) + "/etc/fstab"@,
                content,
            ),
{
    broadcast use {
        crate::outcomes::group_outcomes,
        crate::record::group_ok,
        crate::record::got_chain,
        crate::record::got_text,
    };

    let p = place_recovery_script(build, options, slot);
    reveal(place_recovery_script);
    assert(record(s, p, deeds()).len() >= 0);
    lemma_clear_slot(slot);
    let t = run(s, clear_slot(slot)).now;
    lemma_deploy_plan(t, "0"@, slot);
    let t = run(t, all_done(deploy_plan("0"@, slot))).now;
    let file = rootfs(slot) + "/etc/fstab"@;
    let content = lemma_rename(t, slot);
    let t = run(t, rename_script(slot)).now;
    lemma_fit(t, options, "0"@, slot);
    let u = run(t, writable_script("0"@, slot)).now;
    let table = record(t, writable_script("0"@, slot), deeds()) + record(
        u,
        enter_dirs_script(options, "0"@, slot),
        deeds(),
    );
    let t = run(u, enter_dirs_script(options, "0"@, slot)).now;
    let plan = seq![
        Req::WriteText { path: snap_file(slot), text: "0"@ },
        Req::SwitchRecoveryTmp,
    ];
    let t = run(t, all_done(plan)).now;
    lemma_note_recovery(t, build, slot);
    let noted = record(t, note_recovery_script(build, slot), deeds());
    let made = copied("0"@, slot, false) + filled("0"@, slot) + rewritten(
        file,
        table_for(content, slot),
    ) + table + did(plan);
    assert(placed_recovery(made, slot, content));
    let first = copied("0"@, slot, false) + filled("0"@, slot);
    let turned = rewritten(file, table_for(content, slot));
    crate::record::lemma_row(first, turned, table, did(plan), noted);
    assert(record(s, p, deeds()) =~= first + (turned + (table + (did(plan) + noted))));
    assert(record(s, p, deeds()) =~= made + noted);
    assert(got(
        s,
        run(s, p).now,
        Req::ReadText { path: file },
        Answer::Text(content),
    ));
}

/// The base snapshot was deployed as the recovery deployment `slot`.
pub open spec fn recovers(d: Seq<(Req, Answer)>, slot: Seq<char>, content: Seq<char>) -> bool {
    exists|made: Seq<(Req, Answer)>, noted: Seq<(Req, Answer)>|
        #[trigger] placed_recovery(made, slot, content) && #[trigger] noted_recovery(noted, slot)
            && d == did(seq![Req::UpdateBoot { snapshot: "0"@, secondary: false }]) + made + noted
}

/// A `deploy_recovery` that succeeds updates the boot entry for the base snapshot, puts the base
/// snapshot into the recovery deployment beside the one that is noted, switches the recovery
/// target, and notes the name of that deployment in the base snapshot.
#[verifier::rlimit(40)]
pub proof fn law_deploy_recovery(s: Session, build: Build)
    ensures
        run(s, deploy_recovery_script(build)).out is Ok ==> exists|tmp: Seq<char>, content: Seq<char>|
            #[trigger] named_recovery(s, run(s, deploy_recovery_script(build)).now, tmp)
                && #[trigger] recovers(
                record(s, deploy_recovery_script(build), deeds()),
                recovery_aux_tmp(tmp),
                content,
            ) && got_note(
                s,
                run(s, deploy_recovery_script(build)).now,
                rootfs(recovery_aux_tmp(tmp)) + "/etc/fstab"@,
                content,
            ),
{
    broadcast use {
        crate::outcomes::group_outcomes,
        crate::record::group_ok,
        crate::record::got_chain,
    };

    assert(spares(deeds()));
    let p = deploy_recovery_script(build);
    reveal(deploy_recovery_script);
    if run(s, p).out is Ok {
        assert(record(s, p, deeds()).len() >= 0);
        lemma_recovery_name(s);
        let tmp = run(s, get_recovery_tmp_script()).out->Ok_0;
        let slot = recovery_aux_tmp(tmp);
        let t = run(s, get_recovery_tmp_script()).now;
        let file = rootfs("0"@) + "/usr/share/ash/rec-tmp"@;
        assert(named_recovery(s, run(s, p).now, tmp)) by {
            if exists|content: Seq<char>|
                #[trigger] got_note(s, t, file, content) && tmp == trimmed(content) {
                let content = choose|content: Seq<char>|
                    #[trigger] got_note(s, t, file, content) && tmp == trimmed(content);
                assert(got_note(s, run(s, p).now, file, content));
            }
        }
        let order = Req::UpdateBoot { snapshot: "0"@, secondary: false };
        let t = run(t, done(order)).now;
        let options = run(t, snapshot_config_get_script(build, "0"@)).out->Ok_0;
        let t = run(t, snapshot_config_get_script(build, "0"@)).now;
        lemma_place_recovery(t, build, options, slot);
        let (content, made, noted) = choose|
            content: Seq<char>,
            made: Seq<(Req, Answer)>,
            noted: Seq<(Req, Answer)>,
        |
            #[trigger] placed_recovery(made, slot, content) && #[trigger] noted_recovery(
                noted,
                slot,
            ) && record(t, place_recovery_script(build, options, slot), deeds()) == made + noted
                && got_note(
                t,
                run(t, place_recovery_script(build, options, slot)).now,
                rootfs(slot) + "/etc/fstab"@,
                content,
            );
        assert(record(s, p, deeds()) =~= did(seq![order]) + made + noted);
        assert(recovers(record(s, p, deeds()), slot, content));
        assert(got_note(s, run(s, p).now, rootfs(slot) + "/etc/fstab"@, content));
    }
}

// -------------------------------------------------------------- directories

/// The directories that the boot, etc and var subvolumes are put into were made in a root.
pub open spec fn has_dirs(s: Session, now: Session, tmp: Seq<char>) -> bool {
    &&& got(s, now, Req::MakeDirs { path: rootfs(tmp) + "/boot"@ }, Answer::Done)
    &&& got(s, now, Req::MakeDirs { path: rootfs(tmp) + "/etc"@ }, Answer::Done)
    &&& got(s, now, Req::MakeDirs { path: rootfs(tmp) + "/var"@ }, Answer::Done)
}

proof fn lemma_plan_dirs(s: Session, snapshot: Seq<char>, tmp: Seq<char>)
    requires
        run(s, all_done(deploy_plan(snapshot, tmp))).out is Ok,
    ensures
        has_dirs(s, run(s, all_done(deploy_plan(snapshot, tmp))).now, tmp),
{
    let plan = deploy_plan(snapshot, tmp);
    crate::record::lemma_got_all_done(s, plan, 4);
    crate::record::lemma_got_all_done(s, plan, 5);
    crate::record::lemma_got_all_done(s, plan, 6);
}

/// A `deploy` that succeeds makes the directories in the root of the deployment that the boot, etc
/// and var subvolumes are put into.
pub proof fn law_deploy_dirs(
    s: Session,
    build: Build,
    snapshot: Seq<char>,
    secondary: bool,
    reset: bool,
)
    ensures
        run(s, deploy_script(build, snapshot, secondary, reset)).out is Ok ==> exists|
            content: Seq<char>,
        |
            #[trigger] got_note(
                s,
                run(s, deploy_script(build, snapshot, secondary, reset)).now,
                "/proc/mounts"@,
                content,
            ) && has_dirs(
                s,
                run(s, deploy_script(build, snapshot, secondary, reset)).now,
                aux_tmp(running_slot(lines(content)), secondary),
            ),
{
    broadcast use {
        crate::record::ok_chain,
        crate::record::ok_sure,
        crate::record::run_flag,
        crate::record::run_text,
        crate::record::got_chain,
        crate::record::got_text,
    };

    let p = deploy_script(build, snapshot, secondary, reset);
    reveal(deploy_script);
    reveal(get_tmp_script);
    reveal(mounts_script);
    reveal(place_script);
    if run(s, p).out is Ok {
        assert(record(s, p, deeds()).len() >= 0);
        let t = run(s, flag(Req::Exists { path: rootfs(snapshot) })).now;
        assert(record(t, get_tmp_script(), deeds()).len() >= 0);
        assert(record(t, mounts_script(), deeds()).len() >= 0);
        let read = Req::ReadText { path: "/proc/mounts"@ };
        let content = t.next()->Text_0;
        assert(got(t, run(t, text(read)).now, read, Answer::Text(content)));
        assert(got(t, run(t, mounts_script()).now, read, Answer::Text(content)));
        assert(got(t, run(t, get_tmp_script()).now, read, Answer::Text(content)));
        let tmp = running_slot(lines(content));
        assert(run(t, get_tmp_script()).out->Ok_0 == tmp);
        let slot = aux_tmp(tmp, secondary);
        let u = run(t, get_tmp_script()).now;
        let beside = deploy_beside(build, snapshot, secondary, reset)(tmp);
        assert(record(u, beside, deeds()).len() >= 0);
        let v = run(u, backup_script(tmp)).now;
        let plan = seq![
            Req::UpdateBoot { snapshot, secondary },
            Req::SetDefault { path: rootfs(tmp) },
        ];
        let v = run(v, all_done(plan)).now;
        let v = run(v, tmp_delete_script(secondary)).now;
        let place = place_script(build, snapshot, slot, secondary, reset);
        assert(record(v, place, deeds()).len() >= 0);
        let w = run(v, snapshot_config_get_script(build, snapshot)).now;
        lemma_plan_dirs(w, snapshot, slot);
        assert(has_dirs(v, run(v, place).now, slot));
        assert(has_dirs(u, run(u, beside).now, slot));
        assert(got_note(s, run(s, p).now, "/proc/mounts"@, content));
        assert(has_dirs(s, run(s, p).now, slot));
    }
}

}
