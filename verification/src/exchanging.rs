//! What the exchange of snapshots comes to.

use vstd::prelude::*;
use crate::chroots::{copy_three, post_transactions_script, shell};
use crate::dirs::mount_mutable_dirs_script;
use crate::exchange::{
    abandon_script, base_question, export_script, first_snapshot, fit_out_script,
    get_import_snapshot_name_script, import_base_script, import_guard_script, import_script,
    receive_script, send_line, settle_script, stamp_text, table_copy, take_over_script,
};
use crate::growing::{grown, lemma_grow};
use crate::mounts::ash_mounts_script;
use crate::outcomes::{deeds, identified, keeps, lemma_identity, spares};
use crate::paths::{chr, file_name, rootfs, volume, Volume};
use crate::placing::{all_of_it, rewritten};
use crate::rebuilding::{lemma_confirm, settled_by};
use crate::record::{did, got, others, record};
use crate::request::{Answer, ExitStatus, Fault, Found, LocalTime, Req};
use crate::script::{
    all_done, asks_only, attempt, confirm, done, flag, run, say, status, sure, time, Build, Session,
};
use crate::snapshots::{as_base, write_desc_script};
use crate::text::{decimal, holds};

verus! {

/// A shell was given a line.
pub open spec fn shell_ran(line: Seq<char>, code: ExitStatus) -> (Req, Answer) {
    (Req::Run { program: "sh"@, args: seq!["-c"@, line] }, Answer::Status(code))
}

/// An `export` that succeeds asks for the local time and sends the root of the snapshot,
/// compressed, to a file in the given directory that is named by the snapshot and the time.
pub proof fn law_export(s: Session, snapshot: Seq<char>, dest: Seq<char>)
    ensures
        run(s, export_script(snapshot, dest)).out is Ok ==> exists|t: LocalTime, code: ExitStatus|
            record(s, export_script(snapshot, dest), all_of_it()) == seq![
                (Req::LocalTime, Answer::Time(t)),
                #[trigger] shell_ran(
                    "sudo btrfs send /.snapshots/rootfs/snapshot-"@ + snapshot + " | zstd -o "@
                        + dest + "/snapshot-"@ + (snapshot + "."@ + stamp_text(t) + ".zst"@),
                    code,
                ),
            ],
{
    broadcast use crate::record::group_ok;

    let p = export_script(snapshot, dest);
    reveal(export_script);
    reveal_with_fuel(run, 2);
    if run(s, p).out is Ok {
        assert(record(s, p, all_of_it()).len() >= 0);
        let t = s.next()->Time_0;
        let u = run(s, time(Req::LocalTime)).now;
        let code = u.next()->Status_0;
        assert(record(s, p, all_of_it()) =~= seq![
            (Req::LocalTime, Answer::Time(t)),
            shell_ran(send_line(snapshot, dest, stamp_text(t)), code),
        ]);
    }
}

/// The name is that of the first directory found that is a snapshot.
pub open spec fn first_found(list: Seq<Found>, name: Seq<char>) -> bool {
    exists|i: int|
        0 <= i < list.len() && #[trigger] list[i].is_dir && holds(list[i].path, "snapshot-"@)
            && file_name(list[i].path) == Some(name) && forall|j: int|
            0 <= j < i ==> !((#[trigger] list[j]).is_dir && holds(list[j].path, "snapshot-"@))
}

/// What was found holds no snapshot.
pub open spec fn none_found(list: Seq<Found>) -> bool {
    forall|j: int|
        0 <= j < list.len() ==> !((#[trigger] list[j]).is_dir && holds(list[j].path, "snapshot-"@))
}

proof fn lemma_first(list: Seq<Found>)
    ensures
        match first_snapshot(list) {
            Some(path) => exists|i: int|
                0 <= i < list.len() && #[trigger] list[i].is_dir && holds(
                    list[i].path,
                    "snapshot-"@,
                ) && list[i].path == path && forall|j: int|
                    0 <= j < i ==> !((#[trigger] list[j]).is_dir && holds(
                        list[j].path,
                        "snapshot-"@,
                    )),
            None => none_found(list),
        },
    decreases list.len(),
{
    if list.len() > 0 && !(list[0].is_dir && holds(list[0].path, "snapshot-"@)) {
        let rest = list.drop_first();
        lemma_first(rest);
        match first_snapshot(rest) {
            Some(path) => {
                let i = choose|i: int|
                    0 <= i < rest.len() && #[trigger] rest[i].is_dir && holds(
                        rest[i].path,
                        "snapshot-"@,
                    ) && rest[i].path == path && forall|j: int|
                        0 <= j < i ==> !((#[trigger] rest[j]).is_dir && holds(
                            rest[j].path,
                            "snapshot-"@,
                        ));
                assert(list[i + 1] == rest[i]);
                assert forall|j: int| 0 <= j < i + 1 implies !((#[trigger] list[j]).is_dir && holds(
                    list[j].path,
                    "snapshot-"@,
                )) by {
                    if j > 0 {
                        assert(list[j] == rest[j - 1]);
                    }
                }
            },
            None => {
                assert forall|j: int| 0 <= j < list.len() implies !((#[trigger] list[j]).is_dir
                    && holds(list[j].path, "snapshot-"@)) by {
                    if j > 0 {
                        assert(list[j] == rest[j - 1]);
                    }
                }
            },
        }
    }
}

/// The top of a directory was walked.
pub open spec fn walked(path: Seq<char>, list: Seq<Found>, e: Option<Fault>) -> Seq<(Req, Answer)> {
    seq![(Req::WalkTop { path }, Answer::Entries(list, e))]
}

/// `get_import_snapshot_name` walks the top of the directory and gives the name of the first
/// directory in it that is a snapshot, or nothing where there is none.
pub proof fn law_get_import_snapshot_name(s: Session, path: Seq<char>)
    ensures
        run(s, get_import_snapshot_name_script(path)).out matches Ok(found) ==> exists|
            list: Seq<Found>,
            e: Option<Fault>,
        |
            record(s, get_import_snapshot_name_script(path), deeds()) == #[trigger] walked(
                path,
                list,
                e,
            ) && match found {
                Some(name) => first_found(list, name),
                None => e is None && none_found(list),
            },
{
    broadcast use crate::record::group_ok;

    let p = get_import_snapshot_name_script(path);
    reveal(get_import_snapshot_name_script);
    reveal_with_fuel(run, 2);
    if run(s, p).out is Ok {
        assert(record(s, p, deeds()).len() >= 0);
        let list = s.next()->Entries_0;
        let e = s.next()->Entries_1;
        lemma_first(list);
        assert(record(s, p, deeds()) =~= walked(path, list, e));
        let found = run(s, p).out->Ok_0;
        if let Some(name) = found {
            let dir = first_snapshot(list)->Some_0;
            assert(file_name(dir) == Some(name));
            let i = choose|i: int|
                0 <= i < list.len() && #[trigger] list[i].is_dir && holds(
                    list[i].path,
                    "snapshot-"@,
                ) && list[i].path == dir && forall|j: int|
                    0 <= j < i ==> !((#[trigger] list[j]).is_dir && holds(
                        list[j].path,
                        "snapshot-"@,
                    ));
            assert(list[i].is_dir);
            assert(first_found(list, name));
        }
    }
}

/// A snapshot was received into a directory, found there by its name, and its root made that of
/// the temporary copy of the snapshot `id`, writable.
pub open spec fn received(
    d: Seq<(Req, Answer)>,
    path: Seq<char>,
    tmp: Seq<char>,
    id: Seq<char>,
    name: Seq<char>,
) -> bool {
    exists|code: ExitStatus, list: Seq<Found>, e: Option<Fault>, stopped: bool|
        #![trigger shell_ran("btrfs receive -f "@ + path + " "@ + tmp, code), walked(tmp, list, e), broken_off(stopped)]
        first_found(list, name) && d == did(
            seq![
                Req::WatchInterrupts,
                Req::Print { text: "Receiving a snapshot, please wait..."@ },
            ],
        ) + seq![shell_ran("btrfs receive -f "@ + path + " "@ + tmp, code)] + walked(tmp, list, e)
            + did(
            seq![
                Req::SnapshotSubvolume {
                    from: tmp + "/"@ + name,
                    to: rootfs(chr(id)),
                    read_only: false,
                },
            ],
        ) + broken_off(stopped)
}

/// It was asked whether the user broke off.
pub open spec fn broken_off(stopped: bool) -> Seq<(Req, Answer)> {
    seq![(Req::Interrupted, Answer::Flag(stopped))]
}

proof fn lemma_take_over(s: Session, from: Seq<char>, id: Seq<char>) -> (stopped: bool)
    requires
        run(s, take_over_script(from, id)).out is Ok,
    ensures
        record(s, take_over_script(from, id), deeds()) == did(
            seq![Req::SnapshotSubvolume { from, to: rootfs(chr(id)), read_only: false }],
        ) + broken_off(stopped),
        got(
            s,
            run(s, take_over_script(from, id)).now,
            Req::DeleteSubvolume { path: from },
            Answer::Done,
        ),
{
    broadcast use {crate::record::group_ok, crate::record::got_chain, crate::record::got_done};

    let p = take_over_script(from, id);
    reveal(take_over_script);
    assert(record(s, p, deeds()).len() >= 0);
    assert(asks_only(abandon_script(from), others(deeds()))) by {
        broadcast use crate::script::group_asks;

        reveal(abandon_script);
    }
    let order = Req::SnapshotSubvolume { from, to: rootfs(chr(id)), read_only: false };
    let t = run(s, done(order)).now;
    let stopped = t.next() == Answer::Flag(true);
    let t = run(t, flag(Req::Interrupted)).now;
    let t = if stopped {
        run(t, abandon_script(from)).now
    } else {
        t
    };
    assert(got(
        t,
        run(t, done(Req::DeleteSubvolume { path: from })).now,
        Req::DeleteSubvolume { path: from },
        Answer::Done,
    ));
    assert(record(s, p, deeds()) =~= did(seq![order]) + broken_off(stopped));
    stopped
}

#[verifier::rlimit(40)]
proof fn lemma_receive(s: Session, path: Seq<char>, tmp: Seq<char>, id: Seq<char>)
    requires
        run(s, receive_script(path, tmp, id)).out is Ok,
    ensures
        received(
            record(s, receive_script(path, tmp, id), deeds()),
            path,
            tmp,
            id,
            run(s, receive_script(path, tmp, id)).out->Ok_0,
        ),
        got(
            s,
            run(s, receive_script(path, tmp, id)).now,
            Req::DeleteSubvolume {
                path: tmp + "/"@ + run(s, receive_script(path, tmp, id)).out->Ok_0,
            },
            Answer::Done,
        ),
{
    broadcast use {crate::record::group_ok, crate::record::got_chain};

    let p = receive_script(path, tmp, id);
    reveal(receive_script);
    assert(record(s, p, deeds()).len() >= 0);
    let note = "Receiving a snapshot, please wait..."@;
    let t = run(s, sure(done(Req::WatchInterrupts))).now;
    let t = run(t, say(note)).now;
    let line = "btrfs receive -f "@ + path + " "@ + tmp;
    let code = t.next()->Status_0;
    let t = run(t, status(shell(line))).now;
    let find = get_import_snapshot_name_script(tmp);
    law_get_import_snapshot_name(t, tmp);
    let name = run(t, find).out->Ok_0->Some_0;
    let (list, e) = choose|list: Seq<Found>, e: Option<Fault>|
        record(t, find, deeds()) == #[trigger] walked(tmp, list, e) && first_found(list, name);
    let t = run(t, find).now;
    let from = tmp + "/"@ + name;
    let stopped = lemma_take_over(t, from, id);
    let last = did(
        seq![Req::SnapshotSubvolume { from, to: rootfs(chr(id)), read_only: false }],
    ) + broken_off(stopped);
    let first = did(seq![Req::WatchInterrupts, Req::Print { text: note }]);
    assert(record(s, p, deeds()) =~= first + seq![shell_ran(line, code)] + walked(tmp, list, e)
        + did(
        seq![Req::SnapshotSubvolume { from, to: rootfs(chr(id)), read_only: false }],
    ) + broken_off(stopped));
}

/// A root that was received was fitted out: the table of file systems is that of the base
/// snapshot, and so are the boot, etc and var subvolumes.
pub open spec fn fitted_out(d: Seq<(Req, Answer)>, id: Seq<char>) -> bool {
    exists|code: ExitStatus, systemd: bool|
        d == #[trigger] table_copied(id, code) + did(
            seq![
                Req::SnapshotSubvolume {
                    from: volume(Volume::Boot, "0"@),
                    to: volume(Volume::Boot, chr(id)),
                    read_only: false,
                },
                Req::SnapshotSubvolume {
                    from: volume(Volume::Etc, "0"@),
                    to: volume(Volume::Etc, chr(id)),
                    read_only: false,
                },
                Req::SnapshotSubvolume {
                    from: volume(Volume::Var, "0"@),
                    to: volume(Volume::Var, chr(id)),
                    read_only: false,
                },
            ],
        ) + #[trigger] identified(chr(id), systemd)
}

/// The table of file systems of the base snapshot was copied.
pub open spec fn table_copied(id: Seq<char>, code: ExitStatus) -> Seq<(Req, Answer)> {
    seq![
        (
            Req::Run {
                program: "cp"@,
                args: seq![
                    "-r"@,
                    "--reflink=auto"@,
                    rootfs("0"@) + "/etc/fstab"@,
                    rootfs(chr(id)) + "/etc/fstab"@,
                ],
            },
            Answer::Status(code),
        ),
    ]
}

proof fn lemma_fit_out(s: Session, build: Build, id: Seq<char>)
    requires
        run(s, fit_out_script(build, id)).out is Ok,
    ensures
        fitted_out(record(s, fit_out_script(build, id), deeds()), id),
{
    broadcast use {crate::outcomes::group_quiet, crate::record::group_ok};

    assert(spares(deeds()));
    let p = fit_out_script(build, id);
    reveal(fit_out_script);
    assert(record(s, p, deeds()).len() >= 0);
    let code = s.next()->Status_0;
    let t = run(s, status(table_copy(id))).now;
    let t = run(t, ash_mounts_script(id, "chr"@)).now;
    let t = run(t, mount_mutable_dirs_script(build, id)).now;
    let t = run(t, all_done(copy_three("0"@, chr(id)))).now;
    let systemd = lemma_identity(t, chr(id));
    assert(record(s, p, deeds()) =~= table_copied(id, code) + did(copy_three("0"@, chr(id)))
        + identified(chr(id), systemd));
}

/// The temporary copy took the place of the snapshot, or the attempt failed on the way.
pub open spec fn kept_or_failed(d: Seq<(Req, Answer)>, build: Build, id: Seq<char>) -> bool {
    ||| keeps(d, id)
    ||| exists|t: Session|
        #[trigger] run(t, post_transactions_script(build, id)).out is Err && d == record(
            t,
            post_transactions_script(build, id),
            deeds(),
        )
}

proof fn lemma_settle(s: Session, build: Build, id: Seq<char>)
    requires
        run(s, settle_script(build, id)).out is Ok,
    ensures
        kept_or_failed(record(s, settle_script(build, id), deeds()), build, id),
{
    broadcast use {crate::outcomes::group_outcomes, crate::record::group_ok};

    assert(spares(deeds()));
    let p = settle_script(build, id);
    reveal(settle_script);
    assert(record(s, p, deeds()).len() >= 0);
    let post = post_transactions_script(build, id);
    let d = record(s, post, deeds());
    assert(record(s, p, deeds()) =~= d);
    if run(s, attempt(post)).out->Ok_0 is Ok {
        assert(keeps(d, id));
    } else {
        assert(run(s, post).out is Err);
    }
}

proof fn lemma_import_guard(path: Seq<char>, id: Seq<char>)
    ensures
        asks_only(import_guard_script(path, id), others(deeds())),
{
    broadcast use crate::script::group_asks;

    reveal(import_guard_script);
}

/// An `import` that succeeds receives a snapshot from the file, fits it out with what the base
/// snapshot has, puts it in the place of the snapshot of the given number, enters that at the
/// root of the tree and describes it.
#[verifier::rlimit(40)]
pub proof fn law_import(
    s: Session,
    build: Build,
    snapshot: i32,
    path: Seq<char>,
    desc: Seq<char>,
    tmp: Seq<char>,
)
    ensures
        run(s, import_script(build, snapshot, path, desc, tmp)).out is Ok ==> exists|
            first: Seq<(Req, Answer)>,
            name: Seq<char>,
            fit: Seq<(Req, Answer)>,
            after: Seq<(Req, Answer)>,
            t: u64,
        |
            #![trigger received(first, path, tmp, decimal(snapshot as int), name), fitted_out(fit, decimal(snapshot as int)), kept_or_failed(after, build, decimal(snapshot as int)), grown(t, Req::AddToBase { tree: t, node: snapshot })]
            received(first, path, tmp, decimal(snapshot as int), name) && fitted_out(
                fit,
                decimal(snapshot as int),
            ) && kept_or_failed(after, build, decimal(snapshot as int)) && record(
                s,
                import_script(build, snapshot, path, desc, tmp),
                deeds(),
            ) == first + fit + after + grown(
                t,
                Req::AddToBase { tree: t, node: snapshot },
            ) + rewritten(
                "/.snapshots/ash/snapshots/"@ + decimal(snapshot as int) + "-desc"@,
                if desc.len() == 0 {
                    "imported snapshot"@
                } else {
                    desc
                },
            ) && got(
                s,
                run(s, import_script(build, snapshot, path, desc, tmp)).now,
                Req::DeleteSubvolume { path: tmp + "/"@ + name },
                Answer::Done,
            ),
{
    broadcast use {crate::record::group_ok, crate::record::got_chain};

    let p = import_script(build, snapshot, path, desc, tmp);
    let id = decimal(snapshot as int);
    reveal(import_script);
    reveal(write_desc_script);
    if run(s, p).out is Ok {
        lemma_import_guard(path, id);
        assert(record(s, p, deeds()).len() >= 0);
        let t = run(s, import_guard_script(path, id)).now;
        lemma_receive(t, path, tmp, id);
        let first = record(t, receive_script(path, tmp, id), deeds());
        let name = run(t, receive_script(path, tmp, id)).out->Ok_0;
        let t = run(t, receive_script(path, tmp, id)).now;
        lemma_fit_out(t, build, id);
        let fit = record(t, fit_out_script(build, id), deeds());
        let t = run(t, fit_out_script(build, id)).now;
        lemma_settle(t, build, id);
        let after = record(t, settle_script(build, id), deeds());
        let t = run(t, settle_script(build, id)).now;
        let n = lemma_grow(t, as_base(snapshot));
        let entry = Req::AddToBase { tree: n, node: snapshot };
        let note = rewritten(
            "/.snapshots/ash/snapshots/"@ + id + "-desc"@,
            if desc.len() == 0 {
                "imported snapshot"@
            } else {
                desc
            },
        );
        assert(received(first, path, tmp, id, name) && fitted_out(fit, id) && kept_or_failed(
            after,
            build,
            id,
        ));
        crate::record::lemma_row(first, fit, after, grown(n, entry), note);
        assert(record(s, p, deeds()) =~= first + (fit + (after + (grown(n, entry) + note))));
    }
}

/// An `import_base` that succeeds asked the user and got a yes. It receives a snapshot from the
/// file as the temporary copy of the base snapshot, cleans the package cache, fits the copy out
/// with what the base snapshot has, and gives the name of what was received.
#[verifier::rlimit(40)]
pub proof fn law_import_base(s: Session, build: Build, path: Seq<char>, tmp: Seq<char>)
    ensures
        run(s, import_base_script(build, path, tmp)).out matches Ok(name) ==> exists|
            talk: Seq<(Req, Answer)>,
            first: Seq<(Req, Answer)>,
            fit: Seq<(Req, Answer)>,
        |
            #![trigger settled_by(talk, "This process will change your base snapshot. Are you certain that you wish to proceed?"@, true), received(first, path, tmp, "0"@, name), fitted_out(fit, "0"@)]
            settled_by(talk, "This process will change your base snapshot. Are you certain that you wish to proceed?"@, true) && received(first, path, tmp, "0"@, name)
                && fitted_out(fit, "0"@) && record(
                s,
                import_base_script(build, path, tmp),
                deeds(),
            ) == talk + first + did(seq![Req::CleanCache { snapshot: "0"@ }]) + fit,
{
    broadcast use crate::record::group_ok;

    let p = import_base_script(build, path, tmp);
    reveal(import_base_script);
    if run(s, p).out is Ok {
        lemma_import_guard(path, "0"@);
        assert(record(s, p, deeds()).len() >= 0);
        let t = run(s, import_guard_script(path, "0"@)).now;
        lemma_confirm(t, base_question());
        let talk = record(t, confirm(base_question()), deeds());
        assert(run(t, confirm(base_question())).out->Ok_0);
        let t = run(t, confirm(base_question())).now;
        lemma_receive(t, path, tmp, "0"@);
        let receive = receive_script(path, tmp, "0"@);
        let first = record(t, receive, deeds());
        let name = run(t, receive).out->Ok_0;
        let t = run(t, receive).now;
        let order = Req::CleanCache { snapshot: "0"@ };
        let t = run(t, done(order)).now;
        lemma_fit_out(t, build, "0"@);
        let fit = record(t, fit_out_script(build, "0"@), deeds());
        assert(received(first, path, tmp, "0"@, name) && fitted_out(fit, "0"@));
        assert(record(s, p, deeds()) =~= talk + first + did(seq![order]) + fit);
    }
}

}
