//! Bringing snapshots in from files, and sending them out.

use vstd::prelude::*;
use crate::chroots::{
    chr_delete, chr_delete_script, copy_identity, copy_three, copy_three_requests, identity_script,
    post_transactions, post_transactions_script, shell, shell_request,
};
use crate::dirs::{mount_mutable_dirs, mount_mutable_dirs_script};
use crate::guard::{exists_at, in_use, in_use_text};
use crate::host::{attempt, failure, ran, sure, yes_no, Halt, Host};
use crate::mounts::{ash_mounts, ash_mounts_script};
use crate::paths::{below, chr, chr_name, file_name, name_of, rootfs, rootfs_path};
use crate::request::{Entry, ErrorKind, ExitStatus, Fault, Found, LocalTime, Req, Request};
use crate::script::{
    all_done, chain, confirm, crash, done, entries, fail, flag, give, say, status, time, Build,
    Script, Stop,
};
use crate::snapshots::{as_base, grow_base, grow_script, write_desc, write_desc_script};
use crate::text::{cat, cat3, cat4, cat5, contains, decimal, holds, number, padded};

verus! {

broadcast use crate::script::group_run;

// ------------------------------------------------------------------- sending

/// Whether a year has a day more than others.
pub open spec fn leap(year: int) -> bool {
    year % 4 == 0 && (year % 100 != 0 || year % 400 == 0)
}

/// How many days a month has.
pub open spec fn month_days(year: int, month: int) -> int {
    if month == 2 {
        if leap(year) {
            29
        } else {
            28
        }
    } else if month == 4 || month == 6 || month == 9 || month == 11 {
        30
    } else {
        31
    }
}

/// The numbers make a date and a time of day; the years are those that `chrono` knows.
pub open spec fn moment(t: LocalTime) -> bool {
    &&& -262143 <= t.year <= 262142
    &&& 1 <= t.month <= 12
    &&& 1 <= t.day <= month_days(t.year as int, t.month as int)
    &&& t.hour <= 23
    &&& t.minute <= 59
    &&& t.second <= 59
}

/// A year in at least four digits, with a sign where it has more or is negative.
pub open spec fn year_text(year: int) -> Seq<char> {
    if 0 <= year <= 9999 {
        padded(year as nat, 4)
    } else if year < 0 {
        seq!['-'] + padded((-year) as nat, 4)
    } else {
        seq!['+'] + padded(year as nat, 4)
    }
}

/// A moment as digits: the date, a hyphen and the time of day.
pub open spec fn stamp_text(t: LocalTime) -> Seq<char> {
    year_text(t.year as int) + padded(t.month as nat, 2) + padded(t.day as nat, 2) + seq!['-']
        + padded(t.hour as nat, 2) + padded(t.minute as nat, 2) + padded(t.second as nat, 2)
}

/// Calls `NaiveDate::from_ymd_opt`, `NaiveDate::and_hms_opt` and `NaiveDateTime::format` of
/// `chrono`. Claimed: there is a text exactly where the numbers make a date and a time of day,
/// and for this layout it is the year, month, day, a hyphen, the hour, minute and second, each
/// filled up with zeros.
#[verifier::external_body]
fn format_time(t: LocalTime, layout: &str) -> (r: Option<String>)
    requires
        layout@ == "%Y%m%d-%H%M%S"@,
    ensures
        match r {
            Some(text) => moment(t) && text@ == stamp_text(t),
            None => !moment(t),
        },
{
    let day = chrono::NaiveDate::from_ymd_opt(t.year, t.month, t.day)?;
    let moment = day.and_hms_opt(t.hour, t.minute, t.second)?;
    Some(moment.format(layout).to_string())
}

/// A moment as digits, where the numbers make one.
pub fn stamp(t: LocalTime) -> (r: Option<String>)
    ensures
        match r {
            Some(text) => moment(t) && text@ == stamp_text(t),
            None => !moment(t),
        },
{
    format_time(t, "%Y%m%d-%H%M%S")
}

/// The command that sends a snapshot to a file.
pub open spec fn send_line(snapshot: Seq<char>, dest: Seq<char>, stamp: Seq<char>) -> Seq<char> {
    "sudo btrfs send /.snapshots/rootfs/snapshot-"@ + snapshot + " | zstd -o "@ + dest
        + "/snapshot-"@ + (snapshot + "."@ + stamp + ".zst"@)
}

/// What `export` does.
#[verifier::opaque]
pub open spec fn export_script(snapshot: Seq<char>, dest: Seq<char>) -> Script<()> {
    chain(
        time(Req::LocalTime),
        |t: LocalTime|
            if moment(t) {
                chain(
                    status(shell(send_line(snapshot, dest, stamp_text(t)))),
                    |code: ExitStatus| give(()),
                )
            } else {
                Script::End(Err(Stop::Misfit))
            },
    )
}

/// Sends a snapshot to a file in the directory `dest`, named after the time.
pub fn export(host: &mut Host, snapshot: &str, dest: &str) -> (r: Result<(), Halt>)
    ensures
        ran(old(host)@, final(host)@, r, export_script(snapshot@, dest@)),
{
    reveal(export_script);
    let t = host.time(Request::LocalTime)?;
    match stamp(t) {
        Some(digits) => {
            let line = cat5(
                "sudo btrfs send /.snapshots/rootfs/snapshot-",
                snapshot,
                " | zstd -o ",
                dest,
                "/snapshot-",
            );
            let file = cat4(snapshot, ".", digits.as_str(), ".zst");
            host.status(shell_request(cat(line.as_str(), file.as_str())))?;
            Ok(())
        },
        None => Err(Halt::Misfit),
    }
}

// ----------------------------------------------------------------- receiving

/// The path of the first directory that has `snapshot-` in its path.
pub open spec fn first_snapshot(list: Seq<Found>) -> Option<Seq<char>>
    decreases list.len(),
{
    if list.len() == 0 {
        None
    } else if list[0].is_dir && holds(list[0].path, "snapshot-"@) {
        Some(list[0].path)
    } else {
        first_snapshot(list.drop_first())
    }
}

/// What `get_import_snapshot_name` does.
#[verifier::opaque]
pub open spec fn get_import_snapshot_name_script(path: Seq<char>) -> Script<Option<Seq<char>>> {
    chain(
        entries(Req::WalkTop { path }),
        |found: (Seq<Found>, Option<Fault>)|
            match first_snapshot(found.0) {
                Some(dir) => match file_name(dir) {
                    Some(name) => give(Some(name)),
                    None => crash(),
                },
                None => match found.1 {
                    Some(_) => crash(),
                    None => give(None),
                },
            },
    )
}

/// Ends the process after an interrupt, once the received snapshot is deleted.
#[verifier::opaque]
pub open spec fn abandon_script(from: Seq<char>) -> Script<()> {
    chain(
        crate::script::sure(flag(Req::Exists { path: from })),
        |there: bool|
            if there {
                chain(
                    done(Req::DeleteSubvolume { path: from }),
                    |u: ()| Script::End(Err(Stop::Exited(1))),
                )
            } else {
                give(())
            },
    )
}

/// Makes the received snapshot at `from` the root of the temporary copy of `id`.
#[verifier::opaque]
pub open spec fn take_over_script(from: Seq<char>, id: Seq<char>) -> Script<()> {
    chain(
        done(Req::SnapshotSubvolume { from, to: rootfs(chr(id)), read_only: false }),
        |u: ()|
            chain(
                flag(Req::Interrupted),
                |stopped: bool|
                    chain(
                        if stopped {
                            abandon_script(from)
                        } else {
                            give(())
                        },
                        |u: ()| done(Req::DeleteSubvolume { path: from }),
                    ),
            ),
    )
}

/// Receives a snapshot from the file `path` by way of the directory `tmp`, as the root of the
/// temporary copy of `id`; gives the name under which it was sent.
#[verifier::opaque]
pub open spec fn receive_script(path: Seq<char>, tmp: Seq<char>, id: Seq<char>) -> Script<
    Seq<char>,
> {
    chain(
        crate::script::sure(done(Req::WatchInterrupts)),
        |u: ()|
            chain(
                say("Receiving a snapshot, please wait..."@),
                |u: ()|
                    chain(
                        status(shell("btrfs receive -f "@ + path + " "@ + tmp)),
                        |code: ExitStatus|
                            chain(
                                get_import_snapshot_name_script(tmp),
                                |found: Option<Seq<char>>|
                                    match found {
                                        None => crash(),
                                        Some(name) => chain(
                                            take_over_script(tmp + "/"@ + name, id),
                                            |u: ()| give(name),
                                        ),
                                    },
                            ),
                    ),
            ),
    )
}

/// The copy of the base snapshot's file system table.
pub open spec fn table_copy(id: Seq<char>) -> Req {
    Req::Run {
        program: "cp"@,
        args: seq![
            "-r"@,
            "--reflink=auto"@,
            rootfs("0"@) + "/etc/fstab"@,
            rootfs(chr(id)) + "/etc/fstab"@,
        ],
    }
}

/// Makes a received root a temporary copy in which programs can run.
#[verifier::opaque]
pub open spec fn fit_out_script(build: Build, id: Seq<char>) -> Script<()> {
    chain(
        status(table_copy(id)),
        |code: ExitStatus|
            chain(
                ash_mounts_script(id, "chr"@),
                |u: ()|
                    chain(
                        mount_mutable_dirs_script(build, id),
                        |u: ()|
                            chain(
                                all_done(copy_three("0"@, chr(id))),
                                |u: ()|
                                    chain(
                                        identity_script(chr(id)),
                                        |u: ()|
                                            chain(
                                                flag(
                                                    Req::Exists {
                                                        path: rootfs(chr(id)) + "/usr/sbin/ash"@,
                                                    },
                                                ),
                                                |there: bool|
                                                    if there {
                                                        give(())
                                                    } else {
                                                        fail(
                                                            ErrorKind::NotFound,
                                                            "/usr/sbin/ash doesn't exist."@,
                                                        )
                                                    },
                                            ),
                                    ),
                            ),
                    ),
            ),
    )
}

/// Puts the temporary copy of `id` in place, or discards it where that fails.
#[verifier::opaque]
pub open spec fn settle_script(build: Build, id: Seq<char>) -> Script<()> {
    chain(
        crate::script::attempt(post_transactions_script(build, id)),
        |tried: Result<(), Fault>|
            match tried {
                Ok(_) => give(()),
                Err(_) => chr_delete_script(id),
            },
    )
}

/// Checks that a snapshot can be received from a file as `id`.
#[verifier::opaque]
pub open spec fn import_guard_script(path: Seq<char>, id: Seq<char>) -> Script<()> {
    chain(
        flag(Req::Exists { path: rootfs(chr(id)) }),
        |busy: bool|
            if busy {
                fail(ErrorKind::Unsupported, in_use(id))
            } else {
                chain(
                    flag(Req::IsFile { path }),
                    |there: bool|
                        if there {
                            give(())
                        } else {
                            fail(
                                ErrorKind::NotFound,
                                "The snapshot "@ + path + " doesn't exist."@,
                            )
                        },
                )
            },
    )
}

/// What `import` does.
#[verifier::opaque]
pub open spec fn import_script(
    build: Build,
    snapshot: i32,
    path: Seq<char>,
    desc: Seq<char>,
    tmp: Seq<char>,
) -> Script<()> {
    let id = decimal(snapshot as int);
    chain(
        import_guard_script(path, id),
        |u: ()|
            chain(
                receive_script(path, tmp, id),
                |name: Seq<char>|
                    chain(
                        fit_out_script(build, id),
                        |u: ()|
                            chain(
                                settle_script(build, id),
                                |u: ()|
                                    chain(
                                        grow_script(as_base(snapshot)),
                                        |u: ()|
                                            write_desc_script(
                                                id,
                                                if desc.len() == 0 {
                                                    "imported snapshot"@
                                                } else {
                                                    desc
                                                },
                                                true,
                                            ),
                                    ),
                            ),
                    ),
            ),
    )
}

/// The question before the base snapshot is replaced.
pub open spec fn base_question() -> Seq<char> {
    "This process will change your base snapshot. Are you certain that you wish to proceed?"@
}

/// What `import_base` does.
#[verifier::opaque]
pub open spec fn import_base_script(build: Build, path: Seq<char>, tmp: Seq<char>) -> Script<
    Seq<char>,
> {
    chain(
        import_guard_script(path, "0"@),
        |u: ()|
            chain(
                confirm(base_question()),
                |yes: bool|
                    if !yes {
                        fail(ErrorKind::Interrupted, "Aborted."@)
                    } else {
                        chain(
                            receive_script(path, tmp, "0"@),
                            |name: Seq<char>|
                                chain(
                                    done(Req::CleanCache { snapshot: "0"@ }),
                                    |u: ()|
                                        chain(fit_out_script(build, "0"@), |u: ()| give(name)),
                                ),
                        )
                    },
            ),
    )
}

fn find_snapshot(list: &Vec<Entry>) -> (r: Option<String>)
    ensures
        r.deep_view() == first_snapshot(list.deep_view()),
{
    let ghost all = list.deep_view();
    let mut i: usize = 0;
    assert(all.skip(0) =~= all);
    while i < list.len()
        invariant
            i <= list.len(),
            all == list.deep_view(),
            first_snapshot(all) == first_snapshot(all.skip(i as int)),
        decreases list.len() - i,
    {
        assert(all.skip(i as int).drop_first() =~= all.skip(i + 1));
        assert(all.skip(i as int)[0] == list[i as int].deep_view());
        if list[i].is_dir && contains(list[i].path.as_str(), "snapshot-") {
            return Some(list[i].path.clone());
        }
        i += 1;
    }
    None
}

/// The name of the snapshot that was received in a directory.
pub fn get_import_snapshot_name(host: &mut Host, path: &str) -> (r: Result<Option<String>, Halt>)
    ensures
        ran(old(host)@, final(host)@, r, get_import_snapshot_name_script(path@)),
{
    reveal(get_import_snapshot_name_script);
    let (list, broken) = host.entries(Request::WalkTop { path: path.to_owned() })?;
    match find_snapshot(&list) {
        Some(dir) => match name_of(dir.as_str()) {
            Some(name) => Ok(Some(name)),
            None => Err(Halt::Panicked),
        },
        None => match broken {
            Some(_) => Err(Halt::Panicked),
            None => Ok(None),
        },
    }
}

fn abandon(host: &mut Host, from: &str) -> (r: Result<(), Halt>)
    ensures
        ran(old(host)@, final(host)@, r, abandon_script(from@)),
{
    reveal(abandon_script);
    if sure(exists_at(host, from.to_owned()))? {
        host.done(Request::DeleteSubvolume { path: from.to_owned() })?;
        Err(Halt::Exited(1))
    } else {
        Ok(())
    }
}

fn take_over(host: &mut Host, from: &str, id: &str) -> (r: Result<(), Halt>)
    ensures
        ran(old(host)@, final(host)@, r, take_over_script(from@, id@)),
{
    reveal(take_over_script);
    host.done(
        Request::SnapshotSubvolume {
            from: from.to_owned(),
            to: rootfs_path(chr_name(id).as_str()),
            read_only: false,
        },
    )?;
    if host.flag(Request::Interrupted)? {
        abandon(host, from)?;
    }
    host.done(Request::DeleteSubvolume { path: from.to_owned() })
}

fn receive(host: &mut Host, path: &str, tmp: &str, id: &str) -> (r: Result<String, Halt>)
    ensures
        ran(old(host)@, final(host)@, r, receive_script(path@, tmp@, id@)),
{
    reveal(receive_script);
    sure(host.done(Request::WatchInterrupts))?;
    host.say("Receiving a snapshot, please wait...".to_owned())?;
    host.status(shell_request(cat4("btrfs receive -f ", path, " ", tmp)))?;
    match get_import_snapshot_name(host, tmp)? {
        None => Err(Halt::Panicked),
        Some(name) => {
            take_over(host, cat3(tmp, "/", name.as_str()).as_str(), id)?;
            Ok(name)
        },
    }
}

fn fit_out(host: &mut Host, id: &str) -> (r: Result<(), Halt>)
    ensures
        ran(old(host)@, final(host)@, r, fit_out_script(old(host)@.build, id@)),
{
    reveal(fit_out_script);
    let copy = chr_name(id);
    let args = vec![
        "-r".to_owned(),
        "--reflink=auto".to_owned(),
        below("0", "/etc/fstab"),
        below(copy.as_str(), "/etc/fstab"),
    ];
    assert(args.deep_view() =~= seq![
        "-r"@,
        "--reflink=auto"@,
        rootfs("0"@) + "/etc/fstab"@,
        rootfs(chr(id@)) + "/etc/fstab"@,
    ]);
    host.status(Request::Run { program: "cp".to_owned(), args })?;
    ash_mounts(host, id, "chr")?;
    mount_mutable_dirs(host, id)?;
    host.all_done(copy_three_requests("0", copy.as_str()))?;
    copy_identity(host, copy.as_str())?;
    if exists_at(host, below(copy.as_str(), "/usr/sbin/ash"))? {
        Ok(())
    } else {
        Err(failure(ErrorKind::NotFound, "/usr/sbin/ash doesn't exist.".to_owned()))
    }
}

fn settle(host: &mut Host, id: &str) -> (r: Result<(), Halt>)
    ensures
        ran(old(host)@, final(host)@, r, settle_script(old(host)@.build, id@)),
{
    reveal(settle_script);
    match attempt(post_transactions(host, id))? {
        Ok(_) => Ok(()),
        Err(_) => chr_delete(host, id),
    }
}

fn import_guard(host: &mut Host, path: &str, id: &str) -> (r: Result<(), Halt>)
    ensures
        ran(old(host)@, final(host)@, r, import_guard_script(path@, id@)),
{
    reveal(import_guard_script);
    if exists_at(host, rootfs_path(chr_name(id).as_str()))? {
        Err(failure(ErrorKind::Unsupported, in_use_text(id)))
    } else if !host.flag(Request::IsFile { path: path.to_owned() })? {
        Err(failure(ErrorKind::NotFound, cat3("The snapshot ", path, " doesn't exist.")))
    } else {
        Ok(())
    }
}

/// Brings in a snapshot from the file `path`, by way of the directory `tmp_dir`.
pub fn import(host: &mut Host, snapshot: i32, path: &str, desc: &str, tmp_dir: &str) -> (r: Result<
    (),
    Halt,
>)
    ensures
        ran(
            old(host)@,
            final(host)@,
            r,
            import_script(old(host)@.build, snapshot, path@, desc@, tmp_dir@),
        ),
{
    reveal(import_script);
    let id = number(snapshot);
    import_guard(host, path, id.as_str())?;
    receive(host, path, tmp_dir, id.as_str())?;
    fit_out(host, id.as_str())?;
    settle(host, id.as_str())?;
    grow_base(host, snapshot)?;
    if desc.is_empty() {
        write_desc(host, id.as_str(), "imported snapshot", true)
    } else {
        write_desc(host, id.as_str(), desc, true)
    }
}

/// Brings in a base snapshot from the file `path`, by way of the directory `tmp_dir`; gives
/// the name under which it was sent.
pub fn import_base(host: &mut Host, path: &str, tmp_dir: &str) -> (r: Result<String, Halt>)
    ensures
        ran(
            old(host)@,
            final(host)@,
            r,
            import_base_script(old(host)@.build, path@, tmp_dir@),
        ),
{
    reveal(import_base_script);
    import_guard(host, path, "0")?;
    if !yes_no(
        host,
        "This process will change your base snapshot. Are you certain that you wish to proceed?",
    )? {
        return Err(failure(ErrorKind::Interrupted, "Aborted.".to_owned()));
    }
    let name = receive(host, path, tmp_dir, "0")?;
    host.done(Request::CleanCache { snapshot: "0".to_owned() })?;
    fit_out(host, "0")?;
    Ok(name)
}

}
