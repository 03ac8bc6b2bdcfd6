//! Deployments: the copies of snapshots that the machine is started from.

use vstd::prelude::*;
use crate::chroots::{
    chroot_in, chroot_in_script, fill_three, post_transactions, post_transactions_script, prepare,
    prepare_script, push_fill_three,
};
use crate::config::{
    dir_list, listed_dirs, snapshot_config_get, snapshot_config_get_script, Options,
};
use crate::dirs::{private_dirs, shared_dirs};
use crate::guard::{exists_at, missing, missing_text};
use crate::host::{failure, ran, sure, Halt, Host};
use crate::mounts::{ash_mounts, ash_mounts_script, ash_umounts, ash_umounts_script};
use crate::paths::{
    below, chr, chr_name, copy_plan, copy_requests, drop_plan, drop_request, drop_requests,
    drop_volume, fstab, mutable_mark, rootfs, rootfs_path, snap_file, Volume,
};
use crate::request::{ErrorKind, ExitStatus, Fault, Req, Request};
use crate::script::{
    all_done, chain, crash, done, each, fail, flag, give, listing, run, text, Build, Script,
};
use crate::text::{
    cat, cat3, cat4, contains, find, first_at, holds, lemma_find, lemma_find_some,
    lemma_replaced_whole, lines, occurs_at, replace, replaced, same, split_before, split_lines,
    split_once, trim, trim_end, trimmed, trimmed_end,
};

verus! {

broadcast use crate::script::group_run;

// --------------------------------------------------------------------- slots

/// The mounts of the root say that the deployment `name` is running.
pub open spec fn mentions(mounts: Seq<Seq<char>>, name: Seq<char>) -> bool {
    exists|i: int|
        0 <= i < mounts.len() && holds(#[trigger] mounts[i], " / btrfs"@) && holds(mounts[i], name)
}

/// The deployment that is running.
pub open spec fn running_slot(mounts: Seq<Seq<char>>) -> Seq<char> {
    if mentions(mounts, "deploy-aux-secondary"@) {
        "deploy-aux-secondary"@
    } else if mentions(mounts, "deploy-secondary"@) {
        "deploy-secondary"@
    } else if mentions(mounts, "deploy-aux"@) {
        "deploy-aux"@
    } else {
        "deploy"@
    }
}

/// The deployment that is running, recovery deployments among them.
pub open spec fn shown_slot(mounts: Seq<Seq<char>>) -> Seq<char> {
    if mentions(mounts, "recovery-deploy-aux"@) {
        "recovery-deploy-aux"@
    } else if mentions(mounts, "recovery-deploy"@) {
        "recovery-deploy"@
    } else {
        running_slot(mounts)
    }
}

/// The deployment that takes the place of `tmp`, among the secondary ones or the others.
pub open spec fn aux_tmp(tmp: Seq<char>, secondary: bool) -> Seq<char> {
    if secondary {
        if tmp == "deploy-aux-secondary"@ {
            "deploy-secondary"@
        } else if tmp == "deploy-aux"@ {
            "deploy-aux-secondary"@
        } else if tmp == "deploy"@ {
            "deploy-secondary"@
        } else {
            replaced(tmp, "deploy-secondary"@, "deploy-aux-secondary"@)
        }
    } else if tmp == "deploy-aux"@ {
        "deploy"@
    } else if tmp == "deploy-aux-secondary"@ {
        "deploy-aux"@
    } else if tmp == "deploy-secondary"@ {
        "deploy"@
    } else {
        replaced(tmp, "deploy"@, "deploy-aux"@)
    }
}

/// The recovery deployment that takes the place of `tmp`.
pub open spec fn recovery_aux_tmp(tmp: Seq<char>) -> Seq<char> {
    if tmp == "recovery-deploy-aux"@ {
        "recovery-deploy"@
    } else {
        replaced(tmp, "recovery-deploy"@, "recovery-deploy-aux"@)
    }
}

/// The lines of the table of mounts.
#[verifier::opaque]
pub open spec fn mounts_script() -> Script<Seq<Seq<char>>> {
    chain(
        crate::script::sure(text(Req::ReadText { path: "/proc/mounts"@ })),
        |content: Seq<char>| give(lines(content)),
    )
}

/// What `get_tmp` does.
#[verifier::opaque]
pub open spec fn get_tmp_script() -> Script<Seq<char>> {
    chain(mounts_script(), |mounts: Seq<Seq<char>>| give(running_slot(mounts)))
}

/// What `print_tmp` does.
#[verifier::opaque]
pub open spec fn print_tmp_script() -> Script<Seq<char>> {
    chain(mounts_script(), |mounts: Seq<Seq<char>>| give(shown_slot(mounts)))
}

/// The file that names the recovery deployment, below the root of `id`.
pub open spec fn recovery_file(id: Seq<char>) -> Seq<char> {
    rootfs(id) + "/usr/share/ash/rec-tmp"@
}

/// What `get_recovery_tmp` does.
#[verifier::opaque]
pub open spec fn get_recovery_tmp_script() -> Script<Seq<char>> {
    chain(
        flag(Req::IsFile { path: recovery_file("0"@) }),
        |there: bool|
            if there {
                chain(
                    crate::script::sure(text(Req::ReadText { path: recovery_file("0"@) })),
                    |content: Seq<char>| give(trimmed(content)),
                )
            } else {
                give("recovery-deploy"@)
            },
    )
}

/// Deletes a deployment where it is there.
#[verifier::opaque]
pub open spec fn clear_slot(tmp: Seq<char>) -> Script<()> {
    chain(
        flag(Req::Exists { path: rootfs(tmp) }),
        |there: bool|
            if there {
                all_done(drop_plan(tmp))
            } else {
                give(())
            },
    )
}

/// Deletes the deployment that takes the place of one.
pub open spec fn clear_aux(secondary: bool) -> spec_fn(Seq<char>) -> Script<()> {
    |tmp: Seq<char>| clear_slot(aux_tmp(tmp, secondary))
}

/// What `tmp_delete` does.
#[verifier::opaque]
pub open spec fn tmp_delete_script(secondary: bool) -> Script<()> {
    chain(get_tmp_script(), clear_aux(secondary))
}

fn mentioned(mounts: &Vec<String>, name: &str) -> (r: bool)
    ensures
        r == mentions(mounts.deep_view(), name@),
{
    let ghost all = mounts.deep_view();
    let mut i: usize = 0;
    while i < mounts.len()
        invariant
            i <= mounts.len(),
            all == mounts.deep_view(),
            forall|j: int|
                0 <= j < i ==> !(holds(#[trigger] all[j], " / btrfs"@) && holds(all[j], name@)),
        decreases mounts.len() - i,
    {
        if contains(mounts[i].as_str(), " / btrfs") && contains(mounts[i].as_str(), name) {
            assert(holds(all[i as int], " / btrfs"@) && holds(all[i as int], name@));
            return true;
        }
        i += 1;
    }
    false
}

fn slot_of(mounts: &Vec<String>) -> (r: String)
    ensures
        r@ == running_slot(mounts.deep_view()),
{
    if mentioned(mounts, "deploy-aux-secondary") {
        "deploy-aux-secondary".to_owned()
    } else if mentioned(mounts, "deploy-secondary") {
        "deploy-secondary".to_owned()
    } else if mentioned(mounts, "deploy-aux") {
        "deploy-aux".to_owned()
    } else {
        "deploy".to_owned()
    }
}

fn mount_lines(host: &mut Host) -> (r: Result<Vec<String>, Halt>)
    ensures
        ran(old(host)@, final(host)@, r, mounts_script()),
{
    reveal(mounts_script);
    let content = sure(host.text(Request::ReadText { path: "/proc/mounts".to_owned() }))?;
    Ok(split_lines(content.as_str()))
}

/// The deployment that is running.
pub fn get_tmp(host: &mut Host) -> (r: Result<String, Halt>)
    ensures
        ran(old(host)@, final(host)@, r, get_tmp_script()),
{
    reveal(get_tmp_script);
    let mounts = mount_lines(host)?;
    Ok(slot_of(&mounts))
}

/// The deployment that is running, recovery deployments among them.
pub fn print_tmp(host: &mut Host) -> (r: Result<String, Halt>)
    ensures
        ran(old(host)@, final(host)@, r, print_tmp_script()),
{
    reveal(print_tmp_script);
    let mounts = mount_lines(host)?;
    if mentioned(&mounts, "recovery-deploy-aux") {
        Ok("recovery-deploy-aux".to_owned())
    } else if mentioned(&mounts, "recovery-deploy") {
        Ok("recovery-deploy".to_owned())
    } else {
        Ok(slot_of(&mounts))
    }
}

/// The deployment that takes the place of `tmp`.
pub fn get_aux_tmp(tmp: String, secondary: bool) -> (r: String)
    ensures
        r@ == aux_tmp(tmp@, secondary),
{
    proof {
        reveal_strlit("deploy-secondary");
        reveal_strlit("deploy");
    }
    let now = tmp.as_str();
    if secondary {
        if same(now, "deploy-aux-secondary") {
            "deploy-secondary".to_owned()
        } else if same(now, "deploy-aux") {
            "deploy-aux-secondary".to_owned()
        } else if same(now, "deploy") {
            "deploy-secondary".to_owned()
        } else {
            replace(now, "deploy-secondary", "deploy-aux-secondary")
        }
    } else if same(now, "deploy-aux") {
        "deploy".to_owned()
    } else if same(now, "deploy-aux-secondary") {
        "deploy-aux".to_owned()
    } else if same(now, "deploy-secondary") {
        "deploy".to_owned()
    } else {
        replace(now, "deploy", "deploy-aux")
    }
}

/// The recovery deployment that takes the place of `tmp`.
pub fn get_recovery_aux_tmp(tmp: &str) -> (r: String)
    ensures
        r@ == recovery_aux_tmp(tmp@),
{
    proof {
        reveal_strlit("recovery-deploy");
    }
    if same(tmp, "recovery-deploy-aux") {
        "recovery-deploy".to_owned()
    } else {
        replace(tmp, "recovery-deploy", "recovery-deploy-aux")
    }
}

/// The recovery deployment that was made last.
pub fn get_recovery_tmp(host: &mut Host) -> (r: Result<String, Halt>)
    ensures
        ran(old(host)@, final(host)@, r, get_recovery_tmp_script()),
{
    reveal(get_recovery_tmp_script);
    let file = below("0", "/usr/share/ash/rec-tmp");
    if host.flag(Request::IsFile { path: file.clone() })? {
        let content = sure(host.text(Request::ReadText { path: file }))?;
        Ok(trim(content.as_str()))
    } else {
        Ok("recovery-deploy".to_owned())
    }
}

/// Deletes a deployment where it is there.
pub fn delete_slot(host: &mut Host, tmp: &str) -> (r: Result<(), Halt>)
    ensures
        ran(old(host)@, final(host)@, r, clear_slot(tmp@)),
{
    reveal(clear_slot);
    if exists_at(host, rootfs_path(tmp))? {
        host.all_done(drop_requests(tmp))
    } else {
        Ok(())
    }
}

/// Deletes the deployment that takes the place of the running one.
pub fn tmp_delete(host: &mut Host, secondary: bool) -> (r: Result<(), Halt>)
    ensures
        ran(old(host)@, final(host)@, r, tmp_delete_script(secondary)),
{
    reveal(tmp_delete_script);
    let tmp = get_tmp(host)?;
    let tmp = get_aux_tmp(tmp, secondary);
    delete_slot(host, tmp.as_str())
}

// ----------------------------------------------------------- what is running

/// What `get_current_snapshot` does.
#[verifier::opaque]
pub open spec fn get_current_snapshot_script() -> Script<Seq<char>> {
    chain(
        crate::script::sure(text(Req::ReadText { path: "/usr/share/ash/snap"@ })),
        |content: Seq<char>| give(trimmed_end(content)),
    )
}

/// The first line that is not `tmp`.
pub open spec fn other_line(list: Seq<Seq<char>>, tmp: Seq<char>) -> Option<Seq<char>>
    decreases list.len(),
{
    if list.len() == 0 {
        None
    } else if list[0] != tmp {
        Some(list[0])
    } else {
        other_line(list.drop_first(), tmp)
    }
}

/// What `get_next_snapshot` does.
#[verifier::opaque]
pub open spec fn get_next_snapshot_script() -> Script<Seq<char>> {
    chain(
        get_tmp_script(),
        |tmp: Seq<char>|
            chain(
                crate::script::sure(
                    listing(Req::ReadLines { path: "/.snapshots/ash/deploy-tmp"@ }),
                ),
                |read: (Seq<Seq<char>>, Option<Fault>)|
                    match other_line(read.0, tmp) {
                        Some(name) => deployed_script(name),
                        None => match read.1 {
                            Some(_) => crash(),
                            None => deployed_script(seq![]),
                        },
                    },
            ),
    )
}

/// The snapshot that the deployment `name` was made from; nothing where that is not noted.
#[verifier::opaque]
pub open spec fn deployed_script(name: Seq<char>) -> Script<Seq<char>> {
    chain(
        flag(Req::IsFile { path: snap_file(name) }),
        |there: bool|
            if there {
                chain(
                    crate::script::sure(text(Req::ReadText { path: snap_file(name) })),
                    |content: Seq<char>| give(trimmed(content)),
                )
            } else {
                give(seq![])
            },
    )
}

/// What `get_part` does.
#[verifier::opaque]
pub open spec fn get_part_script() -> Script<Seq<char>> {
    chain(
        crate::script::sure(text(Req::ReadText { path: "/.snapshots/ash/part"@ })),
        |content: Seq<char>|
            crate::script::sure(text(Req::DevicePath { uuid: trimmed_end(content) })),
    )
}

/// What `live_unlock` does.
#[verifier::opaque]
pub open spec fn live_unlock_script() -> Script<()> {
    chain(
        get_tmp_script(),
        |tmp: Seq<char>|
            chain(
                ash_mounts_script(tmp, ""@),
                |u: ()|
                    chain(
                        chroot_in_script(rootfs(tmp)),
                        |code: ExitStatus| ash_umounts_script(tmp, ""@),
                    ),
            ),
    )
}

/// The snapshot that is running.
pub fn get_current_snapshot(host: &mut Host) -> (r: Result<String, Halt>)
    ensures
        ran(old(host)@, final(host)@, r, get_current_snapshot_script()),
{
    reveal(get_current_snapshot_script);
    let content = sure(host.text(Request::ReadText { path: "/usr/share/ash/snap".to_owned() }))?;
    Ok(trim_end(content.as_str()))
}

fn first_other(list: &Vec<String>, tmp: &str) -> (r: Option<String>)
    ensures
        r.deep_view() == other_line(list.deep_view(), tmp@),
{
    let ghost all = list.deep_view();
    let mut i: usize = 0;
    assert(all.skip(0) =~= all);
    while i < list.len()
        invariant
            i <= list.len(),
            all == list.deep_view(),
            other_line(all, tmp@) == other_line(all.skip(i as int), tmp@),
        decreases list.len() - i,
    {
        assert(all.skip(i as int).drop_first() =~= all.skip(i + 1));
        assert(all.skip(i as int)[0] == list[i as int]@);
        if !same(list[i].as_str(), tmp) {
            return Some(list[i].clone());
        }
        i += 1;
    }
    None
}

fn deployed(host: &mut Host, name: &str) -> (r: Result<String, Halt>)
    ensures
        ran(old(host)@, final(host)@, r, deployed_script(name@)),
{
    reveal(deployed_script);
    let file = below(name, "/usr/share/ash/snap");
    if host.flag(Request::IsFile { path: file.clone() })? {
        let content = sure(host.text(Request::ReadText { path: file }))?;
        Ok(trim(content.as_str()))
    } else {
        let none = String::new();
        assert(none@ =~= seq![]);
        Ok(none)
    }
}

/// The snapshot that is deployed beside the running one.
pub fn get_next_snapshot(host: &mut Host) -> (r: Result<String, Halt>)
    ensures
        ran(old(host)@, final(host)@, r, get_next_snapshot_script()),
{
    reveal(get_next_snapshot_script);
    let tmp = get_tmp(host)?;
    let (list, broken) = sure(
        host.listing(Request::ReadLines { path: "/.snapshots/ash/deploy-tmp".to_owned() }),
    )?;
    match first_other(&list, tmp.as_str()) {
        Some(name) => deployed(host, name.as_str()),
        None => match broken {
            Some(_) => Err(Halt::Panicked),
            None => {
                let none = String::new();
                assert(none@ =~= seq![]);
                deployed(host, none.as_str())
            },
        },
    }
}

/// The device of the partition that holds the snapshots.
pub fn get_part(host: &mut Host) -> (r: Result<String, Halt>)
    ensures
        ran(old(host)@, final(host)@, r, get_part_script()),
{
    reveal(get_part_script);
    let content = sure(
        host.text(Request::ReadText { path: "/.snapshots/ash/part".to_owned() }),
    )?;
    sure(host.text(Request::DevicePath { uuid: trim_end(content.as_str()) }))
}

/// A shell in the running deployment.
pub fn live_unlock(host: &mut Host) -> (r: Result<(), Halt>)
    ensures
        ran(old(host)@, final(host)@, r, live_unlock_script()),
{
    reveal(live_unlock_script);
    let tmp = get_tmp(host)?;
    ash_mounts(host, tmp.as_str(), "")?;
    chroot_in(host, rootfs_path(tmp.as_str()).as_str())?;
    ash_umounts(host, tmp.as_str(), "")
}

// ----------------------------------------------------- the file system table

/// The table in which the root is no longer mounted read-only: the first `,ro` from the entry
/// of `tmp` on is taken out.
pub open spec fn writable_root(content: Seq<char>, tmp: Seq<char>) -> Option<Seq<char>> {
    match find(content, "snapshot-"@ + tmp) {
        Some(i) => {
            let rest = content.skip(i);
            match find(rest, ",ro"@) {
                Some(j) => Some(content.take(i) + rest.take(j) + rest.skip(j + ",ro"@.len())),
                None => None,
            }
        },
        None => None,
    }
}

/// The deployment that a table was made for.
pub open spec fn table_slot(content: Seq<char>) -> Seq<char> {
    if holds(content, "deploy-aux"@) && !holds(content, "secondary"@) {
        "deploy-aux"@
    } else if holds(content, "secondary"@) && !holds(content, "aux"@) {
        "deploy-secondary"@
    } else if holds(content, "aux-secondary"@) {
        "deploy-aux-secondary"@
    } else {
        "deploy"@
    }
}

/// A subvolume renamed throughout a table.
pub open spec fn moved(content: Seq<char>, stem: Seq<char>, from: Seq<char>, to: Seq<char>) -> Seq<
    char,
> {
    replaced(content, stem + from, stem + to)
}

/// A table brought over to the deployment `tmp`.
pub open spec fn table_for(content: Seq<char>, tmp: Seq<char>) -> Seq<char> {
    let src = table_slot(content);
    let boot = moved(content, "@.snapshots_linux/boot/boot-"@, src, tmp);
    let etc = moved(boot, "@.snapshots_linux/etc/etc-"@, src, tmp);
    let var = moved(etc, "@.snapshots_linux/var/var-"@, src, tmp);
    moved(var, "@.snapshots_linux/rootfs/snapshot-"@, src, tmp)
}

/// What `check_mutability` does.
#[verifier::opaque]
pub open spec fn check_mutability_script(snapshot: Seq<char>) -> Script<bool> {
    crate::script::sure(flag(Req::Exists { path: mutable_mark(snapshot) }))
}

/// Makes the root of a deployment writable where the snapshot is mutable.
#[verifier::opaque]
pub open spec fn writable_script(snapshot: Seq<char>, tmp: Seq<char>) -> Script<()> {
    chain(
        check_mutability_script(snapshot),
        |mutable: bool|
            if mutable {
                chain(
                    text(Req::ReadText { path: fstab(tmp) }),
                    |content: Seq<char>|
                        match writable_root(content, tmp) {
                            Some(new) => done(Req::WriteText { path: fstab(tmp), text: new }),
                            None => give(()),
                        },
                )
            } else {
                give(())
            },
    )
}

/// Brings the table of a deployment over to it.
#[verifier::opaque]
pub open spec fn rename_script(tmp: Seq<char>) -> Script<()> {
    chain(
        text(Req::ReadText { path: fstab(tmp) }),
        |content: Seq<char>|
            done(Req::WriteText { path: fstab(tmp), text: table_for(content, tmp) }),
    )
}

/// Enters a mutable directory in the table of a deployment.
pub open spec fn enter_dir_plan(prefix: Seq<char>, tmp: Seq<char>, dir: Seq<char>) -> Seq<Req> {
    seq![
        Req::MakeDirs { path: prefix + dir },
        Req::MakeDirs { path: rootfs(tmp) + "/"@ + dir },
        Req::AppendText {
            path: fstab(tmp),
            text: prefix + dir + " /"@ + dir + " none defaults,bind 0 0\n"@,
        },
    ]
}

/// Enters a mutable directory in the table of a deployment.
pub open spec fn enter_dir(prefix: Seq<char>, tmp: Seq<char>) -> spec_fn(Seq<char>) -> Script<()> {
    |dir: Seq<char>| all_done(enter_dir_plan(prefix, tmp, dir))
}

/// Enters the mutable directories of a snapshot in the table of a deployment.
#[verifier::opaque]
pub open spec fn enter_dirs_script(
    options: Map<Seq<char>, Seq<char>>,
    snapshot: Seq<char>,
    tmp: Seq<char>,
) -> Script<()> {
    chain(
        each(
            dir_list(options, "mutable_dirs"@),
            enter_dir(private_dirs(snapshot) + "/"@, tmp),
        ),
        |u: ()| each(dir_list(options, "mutable_dirs_shared"@), enter_dir(shared_dirs(), tmp)),
    )
}

/// Whether a snapshot is mutable.
pub fn check_mutability(host: &mut Host, snapshot: &str) -> (r: Result<bool, Halt>)
    ensures
        ran(old(host)@, final(host)@, r, check_mutability_script(snapshot@)),
{
    reveal(check_mutability_script);
    sure(exists_at(host, below(snapshot, "/usr/share/ash/mutable")))
}

/// The table in which the root is no longer mounted read-only.
pub fn make_root_writable(content: &str, tmp: &str) -> (r: Option<String>)
    ensures
        r.deep_view() == writable_root(content@, tmp@),
{
    match split_before(content, cat("snapshot-", tmp).as_str()) {
        Some((left, rest)) => match split_once(rest.as_str(), ",ro") {
            Some((mid, tail)) => Some(cat3(left.as_str(), mid.as_str(), tail.as_str())),
            None => None,
        },
        None => None,
    }
}

fn find_table_slot(content: &str) -> (r: String)
    ensures
        r@ == table_slot(content@),
{
    if contains(content, "deploy-aux") && !contains(content, "secondary") {
        "deploy-aux".to_owned()
    } else if contains(content, "secondary") && !contains(content, "aux") {
        "deploy-secondary".to_owned()
    } else if contains(content, "aux-secondary") {
        "deploy-aux-secondary".to_owned()
    } else {
        "deploy".to_owned()
    }
}

/// A table brought over to the deployment `tmp`.
pub fn rename_table(content: &str, tmp: &str) -> (r: String)
    ensures
        r@ == table_for(content@, tmp@),
{
    proof {
        reveal_strlit("@.snapshots_linux/boot/boot-");
        reveal_strlit("@.snapshots_linux/etc/etc-");
        reveal_strlit("@.snapshots_linux/var/var-");
        reveal_strlit("@.snapshots_linux/rootfs/snapshot-");
    }
    let src = find_table_slot(content);
    let boot = replace(
        content,
        cat("@.snapshots_linux/boot/boot-", src.as_str()).as_str(),
        cat("@.snapshots_linux/boot/boot-", tmp).as_str(),
    );
    let etc = replace(
        boot.as_str(),
        cat("@.snapshots_linux/etc/etc-", src.as_str()).as_str(),
        cat("@.snapshots_linux/etc/etc-", tmp).as_str(),
    );
    let var = replace(
        etc.as_str(),
        cat("@.snapshots_linux/var/var-", src.as_str()).as_str(),
        cat("@.snapshots_linux/var/var-", tmp).as_str(),
    );
    replace(
        var.as_str(),
        cat("@.snapshots_linux/rootfs/snapshot-", src.as_str()).as_str(),
        cat("@.snapshots_linux/rootfs/snapshot-", tmp).as_str(),
    )
}

fn open_root(host: &mut Host, snapshot: &str, tmp: &str) -> (r: Result<(), Halt>)
    ensures
        ran(old(host)@, final(host)@, r, writable_script(snapshot@, tmp@)),
{
    reveal(writable_script);
    if check_mutability(host, snapshot)? {
        let file = below(tmp, "/etc/fstab");
        let content = host.text(Request::ReadText { path: file.clone() })?;
        match make_root_writable(content.as_str(), tmp) {
            Some(new) => host.done(Request::WriteText { path: file, text: new }),
            None => Ok(()),
        }
    } else {
        Ok(())
    }
}

fn move_table(host: &mut Host, tmp: &str) -> (r: Result<(), Halt>)
    ensures
        ran(old(host)@, final(host)@, r, rename_script(tmp@)),
{
    reveal(rename_script);
    let file = below(tmp, "/etc/fstab");
    let content = host.text(Request::ReadText { path: file.clone() })?;
    host.done(Request::WriteText { path: file, text: rename_table(content.as_str(), tmp) })
}

fn enter_each(host: &mut Host, prefix: &str, tmp: &str, dirs: &Vec<String>) -> (r: Result<(), Halt>)
    ensures
        ran(old(host)@, final(host)@, r, each(dirs.deep_view(), enter_dir(prefix@, tmp@))),
{
    let ghost all = dirs.deep_view();
    let ghost f = enter_dir(prefix@, tmp@);
    let mut i: usize = 0;
    assert(all.skip(0) =~= all);
    while i < dirs.len()
        invariant
            i <= dirs.len(),
            all == dirs.deep_view(),
            f == enter_dir(prefix@, tmp@),
            run(old(host)@, each(all, f)) == run(host@, each(all.skip(i as int), f)),
        decreases dirs.len() - i,
    {
        assert(all.skip(i as int).drop_first() =~= all.skip(i + 1));
        assert(all.skip(i as int)[0] == dirs[i as int]@);
        let dir = dirs[i].as_str();
        let source = cat(prefix, dir);
        let line = cat4(source.as_str(), " /", dir, " none defaults,bind 0 0\n");
        let plan = vec![
            Request::MakeDirs { path: source },
            Request::MakeDirs { path: cat3(rootfs_path(tmp).as_str(), "/", dir) },
            Request::AppendText { path: below(tmp, "/etc/fstab"), text: line },
        ];
        assert(plan.deep_view() =~= enter_dir_plan(prefix@, tmp@, dir@));
        host.all_done(plan)?;
        i += 1;
    }
    Ok(())
}

fn enter_dirs(host: &mut Host, options: &Options, snapshot: &str, tmp: &str) -> (r: Result<
    (),
    Halt,
>)
    ensures
        ran(
            old(host)@,
            final(host)@,
            r,
            enter_dirs_script(options.deep_view(), snapshot@, tmp@),
        ),
{
    reveal(enter_dirs_script);
    let store = cat3("/.snapshots/mutable_dirs/snapshot-", snapshot, "/");
    enter_each(host, store.as_str(), tmp, &listed_dirs(options, "mutable_dirs"))?;
    enter_each(
        host,
        "/.snapshots/mutable_dirs/",
        tmp,
        &listed_dirs(options, "mutable_dirs_shared"),
    )
}

// ----------------------------------------------------------------- deploying

/// Keeps the running deployment `tmp` as the one to roll back to.
#[verifier::opaque]
pub open spec fn backup_script(tmp: Seq<char>) -> Script<()> {
    chain(
        flag(Req::Exists { path: rootfs("rollback"@) }),
        |there: bool|
            chain(
                if there {
                    all_done(
                        seq![
                            drop_volume(Volume::Rootfs, "rollback"@),
                            drop_volume(Volume::Boot, "rollback"@),
                            drop_volume(Volume::Etc, "rollback"@),
                            drop_volume(Volume::Var, "rollback"@),
                        ],
                    )
                } else {
                    give(())
                },
                |u: ()| all_done(copy_plan(tmp, "rollback"@, true)),
            ),
    )
}

/// Makes the deployment `tmp` of a snapshot.
pub open spec fn deploy_plan(snapshot: Seq<char>, tmp: Seq<char>) -> Seq<Req> {
    copy_plan(snapshot, tmp, false) + seq![
        Req::MakeDirs { path: rootfs(tmp) + "/boot"@ },
        Req::MakeDirs { path: rootfs(tmp) + "/etc"@ },
        Req::MakeDirs { path: rootfs(tmp) + "/var"@ },
    ] + fill_three(snapshot, tmp)
}

/// Makes the deployment `tmp` of a snapshot and switches to it.
#[verifier::opaque]
pub open spec fn place_script(
    build: Build,
    snapshot: Seq<char>,
    tmp: Seq<char>,
    secondary: bool,
    reset: bool,
) -> Script<Seq<char>> {
    chain(
        snapshot_config_get_script(build, snapshot),
        |options: Map<Seq<char>, Seq<char>>|
            chain(
                all_done(deploy_plan(snapshot, tmp)),
                |u: ()|
                    chain(
                        writable_script(snapshot, tmp),
                        |u: ()|
                            chain(
                                enter_dirs_script(options, snapshot, tmp),
                                |u: ()|
                                    chain(
                                        done(
                                            Req::WriteText {
                                                path: snap_file(tmp),
                                                text: snapshot,
                                            },
                                        ),
                                        |u: ()|
                                            chain(
                                                text(Req::SwitchTmp { secondary, reset }),
                                                |target: Seq<char>|
                                                    chain(
                                                        done(
                                                            Req::SetDefault { path: rootfs(tmp) },
                                                        ),
                                                        |u: ()| give(target),
                                                    ),
                                            ),
                                    ),
                            ),
                    ),
            ),
    )
}

/// Deploys a snapshot that is there, while the deployment `tmp` is running.
pub open spec fn deploy_beside(
    build: Build,
    snapshot: Seq<char>,
    secondary: bool,
    reset: bool,
) -> spec_fn(Seq<char>) -> Script<Seq<char>> {
    |tmp: Seq<char>|
        chain(
            backup_script(tmp),
            |u: ()|
                chain(
                    all_done(
                        seq![
                            Req::UpdateBoot { snapshot, secondary },
                            Req::SetDefault { path: rootfs(tmp) },
                        ],
                    ),
                    |u: ()|
                        chain(
                            tmp_delete_script(secondary),
                            |u: ()|
                                place_script(
                                    build,
                                    snapshot,
                                    aux_tmp(tmp, secondary),
                                    secondary,
                                    reset,
                                ),
                        ),
                ),
        )
}

/// What `deploy` does.
#[verifier::opaque]
pub open spec fn deploy_script(
    build: Build,
    snapshot: Seq<char>,
    secondary: bool,
    reset: bool,
) -> Script<Seq<char>> {
    chain(
        flag(Req::Exists { path: rootfs(snapshot) }),
        |there: bool|
            if !there {
                fail(ErrorKind::NotFound, missing("deploy"@, snapshot))
            } else {
                chain(get_tmp_script(), deploy_beside(build, snapshot, secondary, reset))
            },
    )
}

/// Notes in the base snapshot which recovery deployment it has.
#[verifier::opaque]
pub open spec fn note_recovery_script(build: Build, tmp: Seq<char>) -> Script<()> {
    chain(
        prepare_script(build, "0"@),
        |u: ()|
            chain(
                done(Req::WriteText { path: recovery_file(chr("0"@)), text: tmp }),
                |u: ()| post_transactions_script(build, "0"@),
            ),
    )
}

/// Makes the recovery deployment `tmp`.
#[verifier::opaque]
pub open spec fn place_recovery_script(
    build: Build,
    options: Map<Seq<char>, Seq<char>>,
    tmp: Seq<char>,
) -> Script<()> {
    chain(
        clear_slot(tmp),
        |u: ()|
            chain(
                all_done(deploy_plan("0"@, tmp)),
                |u: ()|
                    chain(
                        rename_script(tmp),
                        |u: ()|
                            chain(
                                writable_script("0"@, tmp),
                                |u: ()|
                                    chain(
                                        enter_dirs_script(options, "0"@, tmp),
                                        |u: ()|
                                            chain(
                                                all_done(
                                                    seq![
                                                        Req::WriteText {
                                                            path: snap_file(tmp),
                                                            text: "0"@,
                                                        },
                                                        Req::SwitchRecoveryTmp,
                                                    ],
                                                ),
                                                |u: ()| note_recovery_script(build, tmp),
                                            ),
                                    ),
                            ),
                    ),
            ),
    )
}

/// What `deploy_recovery` does.
#[verifier::opaque]
pub open spec fn deploy_recovery_script(build: Build) -> Script<()> {
    chain(
        get_recovery_tmp_script(),
        |tmp: Seq<char>|
            chain(
                done(Req::UpdateBoot { snapshot: "0"@, secondary: false }),
                |u: ()|
                    chain(
                        snapshot_config_get_script(build, "0"@),
                        |options: Map<Seq<char>, Seq<char>>|
                            place_recovery_script(build, options, recovery_aux_tmp(tmp)),
                    ),
            ),
    )
}

fn backup(host: &mut Host, tmp: &str) -> (r: Result<(), Halt>)
    ensures
        ran(old(host)@, final(host)@, r, backup_script(tmp@)),
{
    reveal(backup_script);
    if exists_at(host, rootfs_path("rollback"))? {
        let plan = vec![
            drop_request(Volume::Rootfs, "rollback"),
            drop_request(Volume::Boot, "rollback"),
            drop_request(Volume::Etc, "rollback"),
            drop_request(Volume::Var, "rollback"),
        ];
        assert(plan.deep_view() =~= seq![
            drop_volume(Volume::Rootfs, "rollback"@),
            drop_volume(Volume::Boot, "rollback"@),
            drop_volume(Volume::Etc, "rollback"@),
            drop_volume(Volume::Var, "rollback"@),
        ]);
        host.all_done(plan)?;
    }
    host.all_done(copy_requests(tmp, "rollback", true))
}

fn deploy_requests(snapshot: &str, tmp: &str) -> (r: Vec<Request>)
    ensures
        r.deep_view() == deploy_plan(snapshot@, tmp@),
{
    let mut plan = copy_requests(snapshot, tmp, false);
    let ghost first = plan.deep_view();
    plan.push(Request::MakeDirs { path: below(tmp, "/boot") });
    plan.push(Request::MakeDirs { path: below(tmp, "/etc") });
    plan.push(Request::MakeDirs { path: below(tmp, "/var") });
    assert(plan.deep_view() =~= first + seq![
        Req::MakeDirs { path: rootfs(tmp@) + "/boot"@ },
        Req::MakeDirs { path: rootfs(tmp@) + "/etc"@ },
        Req::MakeDirs { path: rootfs(tmp@) + "/var"@ },
    ]);
    push_fill_three(&mut plan, snapshot, tmp);
    plan
}

fn place(host: &mut Host, snapshot: &str, tmp: &str, secondary: bool, reset: bool) -> (r: Result<
    String,
    Halt,
>)
    ensures
        ran(
            old(host)@,
            final(host)@,
            r,
            place_script(old(host)@.build, snapshot@, tmp@, secondary, reset),
        ),
{
    reveal(place_script);
    let options = snapshot_config_get(host, snapshot)?;
    host.all_done(deploy_requests(snapshot, tmp))?;
    open_root(host, snapshot, tmp)?;
    enter_dirs(host, &options, snapshot, tmp)?;
    host.done(
        Request::WriteText {
            path: below(tmp, "/usr/share/ash/snap"),
            text: snapshot.to_owned(),
        },
    )?;
    let target = host.text(Request::SwitchTmp { secondary, reset })?;
    host.done(Request::SetDefault { path: rootfs_path(tmp) })?;
    Ok(target)
}

/// Deploys a snapshot, and names the deployment.
pub fn deploy(host: &mut Host, snapshot: &str, secondary: bool, reset: bool) -> (r: Result<
    String,
    Halt,
>)
    ensures
        ran(
            old(host)@,
            final(host)@,
            r,
            deploy_script(old(host)@.build, snapshot@, secondary, reset),
        ),
{
    reveal(deploy_script);
    if !exists_at(host, rootfs_path(snapshot))? {
        return Err(failure(ErrorKind::NotFound, missing_text("deploy", snapshot)));
    }
    let tmp = get_tmp(host)?;
    backup(host, tmp.as_str())?;
    let plan = vec![
        Request::UpdateBoot { snapshot: snapshot.to_owned(), secondary },
        Request::SetDefault { path: rootfs_path(tmp.as_str()) },
    ];
    assert(plan.deep_view() =~= seq![
        Req::UpdateBoot { snapshot: snapshot@, secondary },
        Req::SetDefault { path: rootfs(tmp@) },
    ]);
    host.all_done(plan)?;
    tmp_delete(host, secondary)?;
    let tmp = get_aux_tmp(tmp, secondary);
    place(host, snapshot, tmp.as_str(), secondary, reset)
}

fn note_recovery(host: &mut Host, tmp: &str) -> (r: Result<(), Halt>)
    ensures
        ran(old(host)@, final(host)@, r, note_recovery_script(old(host)@.build, tmp@)),
{
    reveal(note_recovery_script);
    prepare(host, "0")?;
    host.done(
        Request::WriteText {
            path: below(chr_name("0").as_str(), "/usr/share/ash/rec-tmp"),
            text: tmp.to_owned(),
        },
    )?;
    post_transactions(host, "0")
}

fn place_recovery(host: &mut Host, options: &Options, tmp: &str) -> (r: Result<(), Halt>)
    ensures
        ran(
            old(host)@,
            final(host)@,
            r,
            place_recovery_script(old(host)@.build, options.deep_view(), tmp@),
        ),
{
    reveal(place_recovery_script);
    delete_slot(host, tmp)?;
    host.all_done(deploy_requests("0", tmp))?;
    move_table(host, tmp)?;
    open_root(host, "0", tmp)?;
    enter_dirs(host, options, "0", tmp)?;
    let plan = vec![
        Request::WriteText { path: below(tmp, "/usr/share/ash/snap"), text: "0".to_owned() },
        Request::SwitchRecoveryTmp,
    ];
    assert(plan.deep_view() =~= seq![
        Req::WriteText { path: snap_file(tmp@), text: "0"@ },
        Req::SwitchRecoveryTmp,
    ]);
    host.all_done(plan)?;
    note_recovery(host, tmp)
}

/// Deploys the base snapshot for recovery.
pub fn deploy_recovery(host: &mut Host) -> (r: Result<(), Halt>)
    ensures
        ran(old(host)@, final(host)@, r, deploy_recovery_script(old(host)@.build)),
{
    reveal(deploy_recovery_script);
    let tmp = get_recovery_tmp(host)?;
    host.done(Request::UpdateBoot { snapshot: "0".to_owned(), secondary: false })?;
    let options = snapshot_config_get(host, "0")?;
    let tmp = get_recovery_aux_tmp(tmp.as_str());
    place_recovery(host, &options, tmp.as_str())
}

// --------------------------------------------------------------------- laws

/// The name of a deployment.
pub open spec fn is_slot(name: Seq<char>) -> bool {
    ||| name == "deploy"@
    ||| name == "deploy-aux"@
    ||| name == "deploy-secondary"@
    ||| name == "deploy-aux-secondary"@
}

/// The name of a secondary deployment.
pub open spec fn is_secondary_slot(name: Seq<char>) -> bool {
    name == "deploy-secondary"@ || name == "deploy-aux-secondary"@
}

/// The deployments have different names.
pub proof fn lemma_slots_differ()
    ensures
        "deploy"@ != "deploy-aux"@,
        "deploy"@ != "deploy-secondary"@,
        "deploy"@ != "deploy-aux-secondary"@,
        "deploy-aux"@ != "deploy-secondary"@,
        "deploy-aux"@ != "deploy-aux-secondary"@,
        "deploy-secondary"@ != "deploy-aux-secondary"@,
{
    reveal_strlit("deploy");
    reveal_strlit("deploy-aux");
    reveal_strlit("deploy-secondary");
    reveal_strlit("deploy-aux-secondary");
    assert("deploy"@.len() == 6);
    assert("deploy-aux"@.len() == 10);
    assert("deploy-secondary"@.len() == 16);
    assert("deploy-aux-secondary"@.len() == 20);
}

/// One of the four deployments is running: the one that a mount of the root names, or the first
/// where none of the others is named.
pub proof fn law_running_slot(mounts: Seq<Seq<char>>)
    ensures
        is_slot(running_slot(mounts)),
        running_slot(mounts) == "deploy-aux-secondary"@ <==> mentions(
            mounts,
            "deploy-aux-secondary"@,
        ),
        running_slot(mounts) == "deploy-secondary"@ <==> !mentions(mounts, "deploy-aux-secondary"@)
            && mentions(mounts, "deploy-secondary"@),
        running_slot(mounts) == "deploy-aux"@ <==> !mentions(mounts, "deploy-aux-secondary"@)
            && !mentions(mounts, "deploy-secondary"@) && mentions(mounts, "deploy-aux"@),
{
    lemma_slots_differ();
}

/// What takes the place of a deployment is another one, secondary where that was asked for;
/// among deployments of the same sort, the two take each other's place. Of the other sort, the
/// second one goes with the second, and the first with the first.
pub proof fn law_aux_tmp(tmp: Seq<char>, secondary: bool)
    requires
        is_slot(tmp),
    ensures
        is_slot(aux_tmp(tmp, secondary)),
        aux_tmp(tmp, secondary) != tmp,
        is_secondary_slot(aux_tmp(tmp, secondary)) == secondary,
        is_secondary_slot(tmp) == secondary ==> aux_tmp(aux_tmp(tmp, secondary), secondary) == tmp,
        is_aux_slot(aux_tmp(tmp, secondary)) == (is_aux_slot(tmp) == (is_secondary_slot(tmp)
            != secondary)),
{
    lemma_slots_differ();
    reveal_strlit("deploy-secondary");
    reveal_strlit("deploy");
    lemma_replaced_whole("deploy-secondary"@, "deploy-aux-secondary"@);
    lemma_replaced_whole("deploy"@, "deploy-aux"@);
}

/// The name of the second deployment of its kind.
pub open spec fn is_aux_slot(name: Seq<char>) -> bool {
    name == "deploy-aux"@ || name == "deploy-aux-secondary"@
}

/// The name of a recovery deployment.
pub open spec fn is_recovery_slot(name: Seq<char>) -> bool {
    name == "recovery-deploy"@ || name == "recovery-deploy-aux"@
}

/// The two recovery deployments take each other's place.
pub proof fn law_recovery_aux_tmp(tmp: Seq<char>)
    requires
        is_recovery_slot(tmp),
    ensures
        is_recovery_slot(recovery_aux_tmp(tmp)),
        recovery_aux_tmp(tmp) != tmp,
        recovery_aux_tmp(recovery_aux_tmp(tmp)) == tmp,
{
    reveal_strlit("recovery-deploy");
    reveal_strlit("recovery-deploy-aux");
    assert("recovery-deploy"@.len() == 15);
    assert("recovery-deploy-aux"@.len() == 19);
    lemma_replaced_whole("recovery-deploy"@, "recovery-deploy-aux"@);
}

/// Making the root of a table writable takes out three characters and changes nothing else.
pub proof fn law_writable_root(content: Seq<char>, tmp: Seq<char>)
    ensures
        match writable_root(content, tmp) {
            Some(new) => exists|i: int|
                0 <= i && i + 3 <= content.len() && #[trigger] content.subrange(i, i + 3) == ",ro"@
                    && new == content.take(i) + content.skip(i + 3),
            None => true,
        },
{
    reveal_strlit(",ro");
    let pattern = "snapshot-"@ + tmp;
    if let Some(new) = writable_root(content, tmp) {
        lemma_find_some(content, pattern);
        let i = find(content, pattern)->0;
        let rest = content.skip(i);
        lemma_find_some(rest, ",ro"@);
        let j = find(rest, ",ro"@)->0;
        assert(content.subrange(i + j, i + j + 3) =~= rest.subrange(j, j + 3));
        assert(content.take(i) + rest.take(j) =~= content.take(i + j));
        assert(rest.skip(j + 3) =~= content.skip(i + j + 3));
        assert(content.subrange(i + j, i + j + 3) == ",ro"@);
    }
}

/// There is no `@` in a text.
pub open spec fn no_at(s: Seq<char>) -> bool {
    forall|i: int| 0 <= i < s.len() ==> #[trigger] s[i] != '@'
}

proof fn lemma_not_held(s: Seq<char>, p: Seq<char>)
    requires
        no_at(s),
        p.len() > 0,
        p[0] == '@',
    ensures
        !holds(s, p),
{
    if holds(s, p) {
        let i = choose|i: int| occurs_at(s, p, i);
        assert(s.subrange(i, i + p.len())[0] == s[i]);
    }
}

/// Where a text begins with `@` and another has only one, the one stands in the other there or not at
/// all.
proof fn lemma_only_there(a: Seq<char>, b: Seq<char>, p: Seq<char>, i: int)
    requires
        no_at(a),
        no_at(b),
        p.len() > 0,
        p[0] == '@',
        occurs_at(a + seq!['@'] + b, p, i),
    ensures
        i == a.len(),
{
    let s = a + seq!['@'] + b;
    assert(s.subrange(i, i + p.len())[0] == s[i]);
    if i < a.len() {
        assert(s[i] == a[i]);
    } else if i > a.len() {
        assert(s[i] == b[i - a.len() - 1]);
    }
}

proof fn lemma_moved(
    a: Seq<char>,
    b: Seq<char>,
    stem: Seq<char>,
    from: Seq<char>,
    to: Seq<char>,
)
    requires
        no_at(a),
        no_at(b),
        stem.len() > 0,
        stem[0] == '@',
        no_at(stem.drop_first()),
        no_at(from),
    ensures
        moved(a + (stem + from) + b, stem, from, to) == a + (stem + to) + b,
{
    let p = stem + from;
    let s = a + p + b;
    let n = a.len() as int;
    let after = stem.drop_first() + from + b;
    assert(s =~= a + seq!['@'] + after);
    assert(no_at(after));
    assert(s.subrange(n, n + p.len()) =~= p);
    assert(occurs_at(s, p, n));
    assert forall|j: int| 0 <= j < n implies !occurs_at(s, p, j) by {
        if occurs_at(s, p, j) {
            lemma_only_there(a, after, p, j);
        }
    }
    assert(first_at(s, p, n));
    lemma_find(s, p, n);
    assert(s.skip(n + p.len()) =~= b);
    assert(s.take(n) =~= a);
    assert(p[0] == '@');
    lemma_not_held(b, p);
    assert(replaced(b, p, stem + to) == b);
    assert(a + (stem + to) + b =~= s.take(n) + (stem + to) + replaced(
        s.skip(n + p.len()),
        p,
        stem + to,
    ));
}

/// A place that is not named is not turned.
proof fn lemma_unmoved(
    a: Seq<char>,
    b: Seq<char>,
    other: Seq<char>,
    stem: Seq<char>,
    from: Seq<char>,
    to: Seq<char>,
)
    requires
        no_at(a),
        no_at(b),
        other.len() > 18,
        stem.len() > 18,
        other[0] == '@',
        stem[0] == '@',
        no_at(other.drop_first()),
        other[18] != stem[18],
    ensures
        moved(a + other + b, stem, from, to) == a + other + b,
{
    let p = stem + from;
    let s = a + other + b;
    let after = other.drop_first() + b;
    assert(s =~= a + seq!['@'] + after);
    assert(no_at(after));
    if holds(s, p) {
        let i = choose|i: int| occurs_at(s, p, i);
        lemma_only_there(a, after, p, i);
        assert(s.subrange(i, i + p.len())[18] == s[i + 18]);
        assert(s[i + 18] == other[18]);
        assert(p[18] == stem[18]);
    }
}

/// The stems of the four kinds of subvolumes in a table of file systems.
pub open spec fn table_stem(v: Volume) -> Seq<char> {
    match v {
        Volume::Boot => "@.snapshots_linux/boot/boot-"@,
        Volume::Etc => "@.snapshots_linux/etc/etc-"@,
        Volume::Var => "@.snapshots_linux/var/var-"@,
        Volume::Rootfs => "@.snapshots_linux/rootfs/snapshot-"@,
    }
}

proof fn lemma_stem(v: Volume)
    ensures
        table_stem(v).len() > 18,
        table_stem(v)[0] == '@',
        no_at(table_stem(v).drop_first()),
        table_stem(v)[18] == match v {
            Volume::Boot => 'b',
            Volume::Etc => 'e',
            Volume::Var => 'v',
            Volume::Rootfs => 'r',
        },
{
    reveal_strlit("@.snapshots_linux/boot/boot-");
    reveal_strlit("@.snapshots_linux/etc/etc-");
    reveal_strlit("@.snapshots_linux/var/var-");
    reveal_strlit("@.snapshots_linux/rootfs/snapshot-");
}

proof fn lemma_slot_no_at(content: Seq<char>)
    ensures
        no_at(table_slot(content)),
{
    reveal_strlit("deploy");
    reveal_strlit("deploy-aux");
    reveal_strlit("deploy-secondary");
    reveal_strlit("deploy-aux-secondary");
}

/// A table of file systems is turned to a deployment: where it names a subvolume of any of the four
/// kinds of the deployment that it was for, it names that of the new one in its place, and the rest
/// is left as it is.
#[verifier::rlimit(40)]
pub proof fn law_table_for(v: Volume, a: Seq<char>, src: Seq<char>, b: Seq<char>, tmp: Seq<char>)
    requires
        no_at(a),
        no_at(b),
        no_at(tmp),
        table_slot(a + (table_stem(v) + src) + b) == src,
    ensures
        table_for(a + (table_stem(v) + src) + b, tmp) == a + (table_stem(v) + tmp) + b,
{
    lemma_slot_no_at(a + (table_stem(v) + src) + b);
    lemma_stem(Volume::Boot);
    lemma_stem(Volume::Etc);
    lemma_stem(Volume::Var);
    lemma_stem(Volume::Rootfs);
    let boot = table_stem(Volume::Boot);
    let etc = table_stem(Volume::Etc);
    let var = table_stem(Volume::Var);
    let root = table_stem(Volume::Rootfs);
    let old = table_stem(v) + src;
    let new = table_stem(v) + tmp;
    assert(no_at(old.drop_first())) by {
        assert(old.drop_first() =~= table_stem(v).drop_first() + src);
    }
    assert(no_at(new.drop_first())) by {
        assert(new.drop_first() =~= table_stem(v).drop_first() + tmp);
    }
    lemma_moved(a, b, table_stem(v), src, tmp);
    match v {
        Volume::Boot => {
            lemma_unmoved(a, b, new, etc, src, tmp);
            lemma_unmoved(a, b, new, var, src, tmp);
            lemma_unmoved(a, b, new, root, src, tmp);
        },
        Volume::Etc => {
            lemma_unmoved(a, b, old, boot, src, tmp);
            lemma_unmoved(a, b, new, var, src, tmp);
            lemma_unmoved(a, b, new, root, src, tmp);
        },
        Volume::Var => {
            lemma_unmoved(a, b, old, boot, src, tmp);
            lemma_unmoved(a, b, old, etc, src, tmp);
            lemma_unmoved(a, b, new, root, src, tmp);
        },
        Volume::Rootfs => {
            lemma_unmoved(a, b, old, boot, src, tmp);
            lemma_unmoved(a, b, old, etc, src, tmp);
            lemma_unmoved(a, b, old, var, src, tmp);
        },
    }
}

}
