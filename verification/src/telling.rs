//! What the operations that look something up, and those that empty directories, come to.

use vstd::prelude::*;
use crate::chroots::chroot_check_script;
use crate::config::{default_options, settings, snapshot_config_get_script};
use crate::deployment::{
    check_mutability_script, deployed_script, get_next_snapshot_script, get_part_script,
    get_tmp_script, mounts_script, other_line, print_tmp_script, running_slot, shown_slot,
};
use crate::dirs::{
    allow_dir_mut_script, entries_script, may_be_mutable, remove_any, remove_any_fn,
    remove_dir_content_script,
};
use crate::growing::{lemma_survey, surveyed};
use crate::mounts::is_mounted_script;
use crate::packages::{
    ash_version_script, diff_script, fixdb_script, holders, is_pkg_installed_script, list_script,
    noninteractive_update_script, report, which_snapshot_has_script,
};
use crate::paths::{entries_of, has_path, rootfs, volume, Volume};
use crate::placing::{all_of_it, looked};
use crate::record::{did, in_turn, record, record_each};
use crate::request::{Answer, Fault, Req};
use crate::script::{each, flag, listing, run, sure, text, texts, tree, Build, Session};
use crate::snapshots::{clear_temporary, subvolumes_script, temp_snapshots_clear_script, temporary};
use crate::system::check_update_script;
use crate::text::{debug_text, holds, lines, trimmed, trimmed_end};
use crate::trees::tree_show_script;

verus! {

// ------------------------------------------------------------------ packages

/// `ash_version` gives what the package manager says of the package `ash`.
pub proof fn law_ash_version(s: Session)
    ensures
        run(s, ash_version_script()).out matches Ok(v) ==> record(
            s,
            ash_version_script(),
            all_of_it(),
        ) == seq![(Req::PkgQuery { pkg: "ash"@ }, Answer::Text(v))],
{
    broadcast use crate::record::group_ok;

    reveal(ash_version_script);
    let p = ash_version_script();
    if run(s, p).out is Ok {
        assert(record(s, p, all_of_it()) =~= seq![(Req::PkgQuery { pkg: "ash"@ }, s.next())]);
    }
}

/// `list` gives the packages of the snapshot or of its temporary copy, without those that are
/// only there for others where that is asked for.
pub proof fn law_list(s: Session, snapshot: Seq<char>, prefix: Seq<char>, exclude: bool)
    ensures
        run(s, list_script(snapshot, prefix, exclude)).out matches Ok(list) ==> record(
            s,
            list_script(snapshot, prefix, exclude),
            all_of_it(),
        ) == seq![
            (
                if exclude {
                    Req::NoDepPkgList { snapshot, chr: prefix }
                } else {
                    Req::PkgList { snapshot, chr: prefix }
                },
                Answer::Texts(list),
            ),
        ],
{
    broadcast use crate::record::group_ok;

    reveal(list_script);
    let p = list_script(snapshot, prefix, exclude);
    if run(s, p).out is Ok {
        assert(record(s, p, all_of_it()) =~= seq![
            (
                if exclude {
                    Req::NoDepPkgList { snapshot, chr: prefix }
                } else {
                    Req::PkgList { snapshot, chr: prefix }
                },
                s.next(),
            ),
        ]);
    }
}

/// The packages of a snapshot were listed.
pub open spec fn listed_in(snapshot: Seq<char>, list: Seq<Seq<char>>) -> Seq<(Req, Answer)> {
    seq![(Req::PkgList { snapshot, chr: ""@ }, Answer::Texts(list))]
}

/// `is_pkg_installed` tells whether the package is among those of the snapshot.
pub proof fn law_is_pkg_installed(s: Session, snapshot: Seq<char>, pkg: Seq<char>)
    ensures
        run(s, is_pkg_installed_script(snapshot, pkg)).out matches Ok(has) ==> exists|
            list: Seq<Seq<char>>,
        |
            record(s, is_pkg_installed_script(snapshot, pkg), all_of_it()) == #[trigger] listed_in(
                snapshot,
                list,
            ) && has == list.contains(pkg),
{
    broadcast use crate::record::group_ok;

    reveal(is_pkg_installed_script);
    let p = is_pkg_installed_script(snapshot, pkg);
    if run(s, p).out is Ok {
        assert(record(s, p, all_of_it()).len() >= 0);
        let list = s.next()->Texts_0;
        assert(record(s, p, all_of_it()) =~= listed_in(snapshot, list));
    }
}

/// The packages of each of these snapshots were listed.
pub open spec fn listed_each(snapshots: Seq<Seq<char>>, lists: Seq<Seq<Seq<char>>>) -> Seq<
    (Req, Answer),
> {
    Seq::new(
        snapshots.len(),
        |i: int| (Req::PkgList { snapshot: snapshots[i], chr: ""@ }, Answer::Texts(lists[i])),
    )
}

/// Those snapshots in whose list the package is, in order.
pub open spec fn owners(
    snapshots: Seq<Seq<char>>,
    lists: Seq<Seq<Seq<char>>>,
    pkg: Seq<char>,
) -> Seq<Seq<char>>
    decreases snapshots.len(),
{
    if snapshots.len() == 0 {
        seq![]
    } else if lists[0].contains(pkg) {
        seq![snapshots[0]] + owners(snapshots.drop_first(), lists.drop_first(), pkg)
    } else {
        owners(snapshots.drop_first(), lists.drop_first(), pkg)
    }
}

proof fn lemma_holders(
    s: Session,
    todo: Seq<Seq<char>>,
    pkg: Seq<char>,
    found: Seq<Seq<char>>,
) -> (lists: Seq<Seq<Seq<char>>>)
    requires
        run(s, holders(todo, pkg, found)).out is Ok,
    ensures
        lists.len() == todo.len(),
        record(s, holders(todo, pkg, found), all_of_it()) == listed_each(todo, lists),
        run(s, holders(todo, pkg, found)).out->Ok_0 == found + owners(todo, lists, pkg),
    decreases todo.len(),
{
    broadcast use crate::record::group_ok;

    let p = holders(todo, pkg, found);
    if todo.len() == 0 {
        let lists: Seq<Seq<Seq<char>>> = seq![];
        assert(listed_each(todo, lists) =~= Seq::empty());
        assert(found + owners(todo, lists, pkg) =~= found);
        lists
    } else {
        assert(record(s, p, all_of_it()).len() >= 0);
        let ask = is_pkg_installed_script(todo[0], pkg);
        law_is_pkg_installed(s, todo[0], pkg);
        let has = run(s, ask).out->Ok_0;
        let list = choose|list: Seq<Seq<char>>|
            record(s, ask, all_of_it()) == #[trigger] listed_in(todo[0], list) && has
                == list.contains(pkg);
        let t = run(s, ask).now;
        let more = if has {
            found.push(todo[0])
        } else {
            found
        };
        let rest = lemma_holders(t, todo.drop_first(), pkg, more);
        let lists = seq![list] + rest;
        assert(lists.drop_first() =~= rest);
        assert(record(s, p, all_of_it()) =~= listed_each(todo, lists)) by {
            assert(record(s, p, all_of_it()) == listed_in(todo[0], list) + listed_each(
                todo.drop_first(),
                rest,
            ));
        }
        assert(more + owners(todo.drop_first(), rest, pkg) =~= found + owners(todo, lists, pkg));
        lists
    }
}

/// Of a package it was told in which of the snapshots it is installed, if it is in any.
pub open spec fn reported(
    d: Seq<(Req, Answer)>,
    snapshots: Seq<Seq<char>>,
    pkg: Seq<char>,
    lists: Seq<Seq<Seq<char>>>,
) -> bool {
    let found = owners(snapshots, lists, pkg);
    &&& lists.len() == snapshots.len()
    &&& d == listed_each(snapshots, lists) + if found.len() > 0 {
        did(
            seq![
                Req::Print {
                    text: "Package(s) "@ + pkg + " installed in "@ + debug_text(found) + "."@,
                },
            ],
        )
    } else {
        did(seq![])
    }
}

/// The same, as a demand on a record and a package.
pub open spec fn reporting(snapshots: Seq<Seq<char>>) -> spec_fn(Seq<(Req, Answer)>, Seq<char>) -> bool {
    |d: Seq<(Req, Answer)>, pkg: Seq<char>|
        exists|lists: Seq<Seq<Seq<char>>>| #[trigger] reported(d, snapshots, pkg, lists)
}

/// The tree was loaded, and what is at its root was listed.
pub open spec fn roots_listed(t: u64, snapshots: Seq<Seq<char>>) -> Seq<(Req, Answer)> {
    seq![
        (Req::LoadTree, Answer::Tree(t)),
        (Req::ChildrenOf { tree: t, name: "root"@ }, Answer::Texts(snapshots)),
    ]
}

/// `which_snapshot_has` tells of each package, in order, in which of the snapshots of the tree it
/// is installed.
pub proof fn law_which_snapshot_has(s: Session, pkgs: Seq<Seq<char>>)
    ensures
        run(s, which_snapshot_has_script(pkgs)).out is Ok ==> exists|
            t: u64,
            snapshots: Seq<Seq<char>>,
            rest: Seq<(Req, Answer)>,
        |
            record(s, which_snapshot_has_script(pkgs), all_of_it()) == #[trigger] roots_listed(
                t,
                snapshots,
            ) + rest && #[trigger] in_turn(rest, pkgs, reporting(snapshots)),
{
    broadcast use crate::record::group_ok;

    let p = which_snapshot_has_script(pkgs);
    reveal(which_snapshot_has_script);
    if run(s, p).out is Ok {
        assert(record(s, p, all_of_it()).len() >= 0);
        let n = s.next()->Tree_0;
        let t = run(s, sure(tree(Req::LoadTree))).now;
        let snapshots = t.next()->Texts_0;
        let t = run(t, texts(Req::ChildrenOf { tree: n, name: "root"@ })).now;
        let f = report(snapshots);
        assert forall|u: Session, x: Seq<char>| run(u, f(x)).out is Ok implies reporting(snapshots)(
            #[trigger] record(u, f(x), all_of_it()),
            x,
        ) by {
            lemma_report(u, snapshots, x);
        }
        record_each(t, pkgs, f, all_of_it(), reporting(snapshots));
        let rest = record(t, each(pkgs, f), all_of_it());
        assert(record(s, p, all_of_it()) =~= roots_listed(n, snapshots) + rest);
    }
}

proof fn lemma_report(s: Session, snapshots: Seq<Seq<char>>, pkg: Seq<char>)
    requires
        run(s, report(snapshots)(pkg)).out is Ok,
    ensures
        reporting(snapshots)(record(s, report(snapshots)(pkg), all_of_it()), pkg),
{
    broadcast use crate::record::group_ok;

    let p = report(snapshots)(pkg);
    let d = record(s, p, all_of_it());
    assert(d.len() >= 0);
    let none: Seq<Seq<char>> = seq![];
    let lists = lemma_holders(s, snapshots, pkg, none);
    let found = owners(snapshots, lists, pkg);
    assert(none + found =~= found);
    if found.len() > 0 {
        assert(d =~= listed_each(snapshots, lists) + did(
            seq![
                Req::Print {
                    text: "Package(s) "@ + pkg + " installed in "@ + debug_text(found) + "."@,
                },
            ],
        ));
    } else {
        assert(d =~= listed_each(snapshots, lists) + did(seq![]));
    }
    assert(reported(d, snapshots, pkg, lists));
}

/// `diff` has the two snapshots compared, in the given order, and shows a failure.
pub proof fn law_diff(s: Session, first: Seq<char>, second: Seq<char>)
    ensures
        run(s, diff_script(first, second)).out is Ok ==> ({
            let d = record(s, diff_script(first, second), all_of_it());
            let order = Req::SnapshotDiff { first, second };
            ||| d == did(seq![order])
            ||| d.len() == 2 && d[0].0 == order && (d[0].1 matches Answer::Failed(e) && d[1] == (
                Req::Eprint { text: e.text },
                Answer::Done,
            ))
        }),
{
    broadcast use crate::record::group_ok;

    let p = diff_script(first, second);
    reveal(diff_script);
    if run(s, p).out is Ok {
        let d = record(s, p, all_of_it());
        assert(d.len() >= 0);
        let order = Req::SnapshotDiff { first, second };
        if s.next() is Done {
            assert(d =~= did(seq![order]));
        } else {
            assert(d =~= seq![(order, s.next())] + did(
                seq![Req::Eprint { text: s.next()->Failed_0.text }],
            ));
        }
    }
}

/// `fixdb` has the package database of the snapshot mended where the package manager is pacman,
/// and does nothing where it is not.
pub proof fn law_fixdb(s: Session, build: Build, snapshot: Seq<char>)
    ensures
        run(s, fixdb_script(build, snapshot)).out is Ok ==> record(
            s,
            fixdb_script(build, snapshot),
            all_of_it(),
        ) == if build.pacman {
            did(seq![Req::FixPackageDb { snapshot }])
        } else {
            did(seq![])
        },
{
    broadcast use crate::record::group_ok;

    reveal(fixdb_script);
    let p = fixdb_script(build, snapshot);
    if run(s, p).out is Ok {
        assert(record(s, p, all_of_it()) =~= if build.pacman {
            did(seq![Req::FixPackageDb { snapshot }])
        } else {
            did(seq![])
        });
    }
}

/// `noninteractive_update` has the packages of the snapshot upgraded.
pub proof fn law_noninteractive_update(s: Session, snapshot: Seq<char>)
    ensures
        run(s, noninteractive_update_script(snapshot)).out is Ok ==> record(
            s,
            noninteractive_update_script(snapshot),
            all_of_it(),
        ) == did(seq![Req::AutoUpgrade { snapshot }]),
{
    broadcast use crate::record::group_ok;

    reveal(noninteractive_update_script);
}

// --------------------------------------------------------------- deployments

/// `get_part` gives the path of the device that is noted, the white space at its end apart.
pub proof fn law_get_part(s: Session)
    ensures
        run(s, get_part_script()).out matches Ok(path) ==> exists|note: Seq<char>|
            record(s, get_part_script(), all_of_it()) == #[trigger] device_of(note, path),
{
    broadcast use crate::record::group_ok;

    let p = get_part_script();
    reveal(get_part_script);
    if run(s, p).out is Ok {
        assert(record(s, p, all_of_it()).len() >= 0);
        let note = s.next()->Text_0;
        let path = run(s, p).out->Ok_0;
        assert(record(s, p, all_of_it()) =~= device_of(note, path));
    }
}

/// The device that is noted was looked up.
pub open spec fn device_of(note: Seq<char>, path: Seq<char>) -> Seq<(Req, Answer)> {
    seq![
        (Req::ReadText { path: "/.snapshots/ash/part"@ }, Answer::Text(note)),
        (Req::DevicePath { uuid: trimmed_end(note) }, Answer::Text(path)),
    ]
}

/// `print_tmp` reads what is mounted and tells which deployment runs, of the recovery too.
pub proof fn law_print_tmp(s: Session)
    ensures
        run(s, print_tmp_script()).out matches Ok(tmp) ==> exists|content: Seq<char>|
            record(s, print_tmp_script(), all_of_it()) == #[trigger] looked(content) && tmp
                == shown_slot(lines(content)),
{
    broadcast use crate::record::group_ok;

    let p = print_tmp_script();
    reveal(print_tmp_script);
    reveal(mounts_script);
    if run(s, p).out is Ok {
        assert(record(s, p, all_of_it()).len() >= 0);
        assert(record(s, p, all_of_it()) =~= looked(s.next()->Text_0));
    }
}

/// `chroot_check` tells whether the directory of snapshots is not mounted.
pub proof fn law_chroot_check(s: Session)
    ensures
        run(s, chroot_check_script()).out matches Ok(inside) ==> exists|content: Seq<char>|
            record(s, chroot_check_script(), all_of_it()) == #[trigger] looked(content) && inside
                == !holds(content, "/.snapshots btrfs"@),
{
    broadcast use crate::record::group_ok;

    let p = chroot_check_script();
    reveal(chroot_check_script);
    if run(s, p).out is Ok {
        assert(record(s, p, all_of_it()).len() >= 0);
        assert(record(s, p, all_of_it()) =~= looked(s.next()->Text_0));
    }
}

/// `check_mutability` tells whether the snapshot is marked as mutable.
pub proof fn law_check_mutability(s: Session, snapshot: Seq<char>)
    ensures
        run(s, check_mutability_script(snapshot)).out matches Ok(mutable) ==> record(
            s,
            check_mutability_script(snapshot),
            all_of_it(),
        ) == seq![
            (
                Req::Exists { path: rootfs(snapshot) + "/usr/share/ash/mutable"@ },
                Answer::Flag(mutable),
            ),
        ],
{
    broadcast use crate::record::group_ok;

    let p = check_mutability_script(snapshot);
    reveal(check_mutability_script);
    if run(s, p).out is Ok {
        assert(record(s, p, all_of_it()).len() >= 0);
        assert(record(s, p, all_of_it()) =~= seq![
            (Req::Exists { path: crate::paths::mutable_mark(snapshot) }, s.next()),
        ]);
    }
}

/// `is_mounted` tells whether something is mounted at the path.
pub proof fn law_is_mounted(s: Session, path: Seq<char>)
    ensures
        run(s, is_mounted_script(path)).out matches Ok(mounted) ==> exists|list: Seq<Seq<char>>|
            record(s, is_mounted_script(path), all_of_it()) == #[trigger] mount_points(list)
                && mounted == has_path(list, path),
{
    broadcast use crate::record::group_ok;

    let p = is_mounted_script(path);
    reveal(is_mounted_script);
    if run(s, p).out is Ok {
        assert(record(s, p, all_of_it()).len() >= 0);
        assert(record(s, p, all_of_it()) =~= mount_points(s.next()->Texts_0));
    }
}

/// The places were listed at which something is mounted.
pub open spec fn mount_points(list: Seq<Seq<char>>) -> Seq<(Req, Answer)> {
    seq![(Req::MountPoints, Answer::Texts(list))]
}

/// `allow_dir_mut` tells whether the running system has such a directory and it may be mutable.
pub proof fn law_allow_dir_mut(s: Session, path: Seq<char>)
    ensures
        run(s, allow_dir_mut_script(path)).out matches Ok(allowed) ==> exists|is_dir: bool|
            record(s, allow_dir_mut_script(path), all_of_it()) == #[trigger] dir_found(path, is_dir)
                && allowed == (is_dir && may_be_mutable(path)),
{
    broadcast use crate::record::group_ok;

    let p = allow_dir_mut_script(path);
    reveal(allow_dir_mut_script);
    if run(s, p).out is Ok {
        assert(record(s, p, all_of_it()).len() >= 0);
        let is_dir = s.next() == Answer::Flag(true);
        assert(record(s, p, all_of_it()) =~= dir_found(path, is_dir));
    }
}

/// It was asked whether a path below the root is that of a directory.
pub open spec fn dir_found(path: Seq<char>, is_dir: bool) -> Seq<(Req, Answer)> {
    seq![(Req::IsDir { path: "/"@ + path }, Answer::Flag(is_dir))]
}

/// `snapshot_config_get` gives the settings in the configuration of the snapshot, and the default
/// ones where it has no configuration.
pub proof fn law_snapshot_config_get(s: Session, build: Build, snapshot: Seq<char>)
    ensures
        run(s, snapshot_config_get_script(build, snapshot)).out matches Ok(options) ==> ({
            let d = record(s, snapshot_config_get_script(build, snapshot), all_of_it());
            let file = volume(Volume::Etc, snapshot) + "/ash/ash.conf"@;
            ||| d == seq![(Req::IsFile { path: file }, Answer::Flag(false))] && options
                == default_options(build)
            ||| d.len() == 2 && d[0] == (Req::IsFile { path: file }, Answer::Flag(true)) && d[1].0
                == (Req::ReadText { path: file }) && (d[1].1 matches Answer::Text(content)
                && options == settings(lines(content)))
        }),
{
    broadcast use crate::record::group_ok;

    let p = snapshot_config_get_script(build, snapshot);
    reveal(snapshot_config_get_script);
    if run(s, p).out is Ok {
        let d = record(s, p, all_of_it());
        assert(d.len() >= 0);
        let file = volume(Volume::Etc, snapshot) + "/ash/ash.conf"@;
        let ask = Req::IsFile { path: file };
        let t = run(s, flag(ask)).now;
        if s.next() == Answer::Flag(true) {
            assert(d =~= seq![(ask, Answer::Flag(true)), (Req::ReadText { path: file }, t.next())]);
        } else {
            assert(d =~= seq![(ask, Answer::Flag(false))]);
        }
    }
}

/// The first of these lines that is not `tmp`; nothing where all are.
pub open spec fn first_other(list: Seq<Seq<char>>, tmp: Seq<char>, name: Option<Seq<char>>) -> bool {
    match name {
        Some(line) => exists|i: int|
            0 <= i < list.len() && #[trigger] list[i] == line && line != tmp && forall|j: int|
                0 <= j < i ==> #[trigger] list[j] == tmp,
        None => forall|j: int| 0 <= j < list.len() ==> #[trigger] list[j] == tmp,
    }
}

proof fn lemma_first_other(list: Seq<Seq<char>>, tmp: Seq<char>)
    ensures
        first_other(list, tmp, other_line(list, tmp)),
    decreases list.len(),
{
    if list.len() > 0 {
        if list[0] != tmp {
            assert(list[0] == other_line(list, tmp)->Some_0);
        } else {
            let rest = list.drop_first();
            lemma_first_other(rest, tmp);
            match other_line(rest, tmp) {
                Some(line) => {
                    let i = choose|i: int|
                        0 <= i < rest.len() && #[trigger] rest[i] == line && line != tmp
                            && forall|j: int| 0 <= j < i ==> #[trigger] rest[j] == tmp;
                    assert(list[i + 1] == line);
                    assert forall|j: int| 0 <= j < i + 1 implies #[trigger] list[j] == tmp by {
                        if j > 0 {
                            assert(list[j] == rest[j - 1]);
                        }
                    }
                },
                None => {
                    assert forall|j: int| 0 <= j < list.len() implies #[trigger] list[j] == tmp by {
                        if j > 0 {
                            assert(list[j] == rest[j - 1]);
                        }
                    }
                },
            }
        }
    }
}

/// The lines of the file were read that names the deployments.
pub open spec fn deployments_read(list: Seq<Seq<char>>, e: Option<Fault>) -> Seq<(Req, Answer)> {
    seq![(Req::ReadLines { path: "/.snapshots/ash/deploy-tmp"@ }, Answer::Listing(list, e))]
}

/// The snapshot that is noted in a deployment was read; it is nothing where none is noted.
pub open spec fn noted_in(d: Seq<(Req, Answer)>, name: Seq<char>, snapshot: Seq<char>) -> bool {
    let file = rootfs(name) + "/usr/share/ash/snap"@;
    ||| d == seq![(Req::IsFile { path: file }, Answer::Flag(false))] && snapshot.len() == 0
    ||| exists|content: Seq<char>|
        d == #[trigger] read_there(file, content) && snapshot == trimmed(content)
}

/// A file is there and was read.
pub open spec fn read_there(file: Seq<char>, content: Seq<char>) -> Seq<(Req, Answer)> {
    seq![
        (Req::IsFile { path: file }, Answer::Flag(true)),
        (Req::ReadText { path: file }, Answer::Text(content)),
    ]
}

proof fn lemma_deployed(s: Session, name: Seq<char>)
    requires
        run(s, deployed_script(name)).out is Ok,
    ensures
        noted_in(
            record(s, deployed_script(name), all_of_it()),
            name,
            run(s, deployed_script(name)).out->Ok_0,
        ),
{
    broadcast use crate::record::group_ok;

    let p = deployed_script(name);
    reveal(deployed_script);
    let d = record(s, p, all_of_it());
    assert(d.len() >= 0);
    let file = rootfs(name) + "/usr/share/ash/snap"@;
    let t = run(s, flag(Req::IsFile { path: file })).now;
    if s.next() == Answer::Flag(true) {
        assert(d =~= read_there(file, t.next()->Text_0));
    } else {
        assert(d =~= seq![(Req::IsFile { path: file }, Answer::Flag(false))]);
    }
}

/// `get_next_snapshot` gives the snapshot that is noted in the deployment that will run next: the
/// first of those that are named which is not the one that runs.
pub proof fn law_get_next_snapshot(s: Session)
    ensures
        run(s, get_next_snapshot_script()).out matches Ok(snapshot) ==> exists|
            content: Seq<char>,
            list: Seq<Seq<char>>,
            e: Option<Fault>,
            name: Option<Seq<char>>,
            rest: Seq<(Req, Answer)>,
        |
            #![trigger looked(content), deployments_read(list, e), first_other(list, running_slot(lines(content)), name), looked(content) + rest]
            record(s, get_next_snapshot_script(), all_of_it()) == looked(content)
                + deployments_read(list, e) + rest && first_other(
                list,
                running_slot(lines(content)),
                name,
            ) && noted_in(
                rest,
                match name {
                    Some(line) => line,
                    None => seq![],
                },
                snapshot,
            ),
{
    broadcast use crate::record::group_ok;

    let p = get_next_snapshot_script();
    reveal(get_next_snapshot_script);
    reveal(get_tmp_script);
    reveal(mounts_script);
    reveal_with_fuel(run, 2);
    if run(s, p).out is Ok {
        assert(record(s, p, all_of_it()).len() >= 0);
        assert(record(s, get_tmp_script(), all_of_it()).len() >= 0);
        let content = s.next()->Text_0;
        assert(record(s, get_tmp_script(), all_of_it()) =~= looked(content));
        let tmp = running_slot(lines(content));
        let t = run(s, get_tmp_script()).now;
        let read = listing(Req::ReadLines { path: "/.snapshots/ash/deploy-tmp"@ });
        let list = t.next()->Listing_0;
        let e = t.next()->Listing_1;
        assert(record(t, sure(read), all_of_it()) =~= deployments_read(list, e));
        let t = run(t, sure(read)).now;
        lemma_first_other(list, tmp);
        let name = other_line(list, tmp);
        let at = match name {
            Some(line) => line,
            None => seq![],
        };
        lemma_deployed(t, at);
        let rest = record(t, deployed_script(at), all_of_it());
        assert((looked(content) + rest).len() >= 0);
        assert(record(s, p, all_of_it()) =~= looked(content) + deployments_read(list, e) + rest);
    }
}

// ---------------------------------------------------------------- removing

/// What stands at a path was removed: a file or a link by itself, a directory with all in it, and
/// nothing where it is none of these.
pub open spec fn removed_any(d: Seq<(Req, Answer)>, path: Seq<char>) -> bool {
    let file = (Req::IsFile { path }, Answer::Flag(true));
    let no_file = (Req::IsFile { path }, Answer::Flag(false));
    let link = (Req::IsSymlink { path }, Answer::Flag(true));
    let no_link = (Req::IsSymlink { path }, Answer::Flag(false));
    let dir = (Req::IsDir { path }, Answer::Flag(true));
    let no_dir = (Req::IsDir { path }, Answer::Flag(false));
    let remove = (Req::RemoveFile { path }, Answer::Done);
    ||| d == seq![file, remove]
    ||| d == seq![no_file, link, remove]
    ||| d == seq![no_file, no_link, dir, (Req::RemoveTree { path }, Answer::Done)]
    ||| d == seq![no_file, no_link, no_dir]
}

/// The same, as a demand on a record and a path.
pub open spec fn removing() -> spec_fn(Seq<(Req, Answer)>, Seq<char>) -> bool {
    |d: Seq<(Req, Answer)>, path: Seq<char>| removed_any(d, path)
}

proof fn lemma_remove_any(s: Session, path: Seq<char>)
    requires
        run(s, remove_any(path)).out is Ok,
    ensures
        removed_any(record(s, remove_any(path), all_of_it()), path),
{
    broadcast use crate::record::group_ok;

    let p = remove_any(path);
    reveal(remove_any);
    let d = record(s, p, all_of_it());
    assert(d.len() >= 0);
    let t = run(s, flag(Req::IsFile { path })).now;
    let u = run(t, flag(Req::IsSymlink { path })).now;
    let file = (Req::IsFile { path }, Answer::Flag(true));
    let no_file = (Req::IsFile { path }, Answer::Flag(false));
    let link = (Req::IsSymlink { path }, Answer::Flag(true));
    let no_link = (Req::IsSymlink { path }, Answer::Flag(false));
    let remove = (Req::RemoveFile { path }, Answer::Done);
    if s.next() == Answer::Flag(true) {
        assert(d =~= seq![file, remove]);
    } else if t.next() == Answer::Flag(true) {
        assert(d =~= seq![no_file, link, remove]);
    } else if u.next() == Answer::Flag(true) {
        assert(d =~= seq![
            no_file,
            no_link,
            (Req::IsDir { path }, Answer::Flag(true)),
            (Req::RemoveTree { path }, Answer::Done),
        ]);
    } else {
        assert(d =~= seq![no_file, no_link, (Req::IsDir { path }, Answer::Flag(false))]);
    }
}

/// A directory was listed, wholly, and holds these.
pub open spec fn dir_listed(dir: Seq<char>, paths: Seq<Seq<char>>) -> Seq<(Req, Answer)> {
    seq![(Req::ListDir { path: dir }, Answer::Listing(paths, None))]
}

/// A `remove_dir_content` that succeeds lists the directory, wholly, and removes each thing in it.
pub proof fn law_remove_dir_content(s: Session, dir: Seq<char>)
    ensures
        run(s, remove_dir_content_script(dir)).out is Ok ==> exists|
            paths: Seq<Seq<char>>,
            rest: Seq<(Req, Answer)>,
        |
            record(s, remove_dir_content_script(dir), all_of_it()) == #[trigger] dir_listed(
                dir,
                paths,
            ) + rest && entries_of(dir, paths) && #[trigger] in_turn(rest, paths, removing()),
{
    broadcast use crate::record::group_ok;

    let p = remove_dir_content_script(dir);
    reveal(remove_dir_content_script);
    reveal(entries_script);
    reveal_with_fuel(run, 2);
    if run(s, p).out is Ok {
        assert(record(s, p, all_of_it()).len() >= 0);
        let q = entries_script(dir);
        assert(record(s, q, all_of_it()).len() >= 0);
        let paths = s.next()->Listing_0;
        let t = run(s, q).now;
        let f = remove_any_fn();
        assert forall|u: Session, x: Seq<char>| run(u, f(x)).out is Ok implies removing()(
            #[trigger] record(u, f(x), all_of_it()),
            x,
        ) by {
            lemma_remove_any(u, x);
        }
        record_each(t, paths, f, all_of_it(), removing());
        let rest = record(t, each(paths, f), all_of_it());
        assert(s.next()->Listing_1 is None);
        assert(record(s, q, all_of_it()) =~= dir_listed(dir, paths));
        assert(record(s, p, all_of_it()) =~= dir_listed(dir, paths) + rest);
    }
}

// ----------------------------------------------------------------- the system

/// `check_update` reads the state of the last update and shows it: a failure where the first line
/// holds a one, a success where it holds a zero, with the date on the second line.
pub proof fn law_check_update(s: Session)
    ensures
        run(s, check_update_script()).out is Ok ==> exists|list: Seq<Seq<char>>, e: Option<Fault>|
            list.len() >= 2 && record(s, check_update_script(), all_of_it())
                == #[trigger] update_read(list, e) + (if holds(list[0], "1"@) {
                did(seq![Req::Eprint { text: "Last update on "@ + list[1] + " failed."@ }])
            } else {
                did(seq![])
            }) + (if holds(list[0], "0"@) {
                did(
                    seq![
                        Req::Print {
                            text: "Last update on "@ + list[1] + " completed successfully."@,
                        },
                    ],
                )
            } else {
                did(seq![])
            }),
{
    broadcast use crate::record::group_ok;

    let p = check_update_script();
    reveal(check_update_script);
    reveal_with_fuel(run, 2);
    if run(s, p).out is Ok {
        let d = record(s, p, all_of_it());
        assert(d.len() >= 0);
        let list = s.next()->Listing_0;
        let e = s.next()->Listing_1;
        let bad = did(seq![Req::Eprint { text: "Last update on "@ + list[1] + " failed."@ }]);
        let good = did(
            seq![Req::Print { text: "Last update on "@ + list[1] + " completed successfully."@ }],
        );
        assert(list.len() >= 2);
        if holds(list[0], "1"@) {
            if holds(list[0], "0"@) {
                assert(d =~= update_read(list, e) + bad + good);
            } else {
                assert(d =~= update_read(list, e) + bad + did(seq![]));
            }
        } else if holds(list[0], "0"@) {
            assert(d =~= update_read(list, e) + did(seq![]) + good);
        } else {
            assert(d =~= update_read(list, e) + did(seq![]) + did(seq![]));
        }
    }
}

/// The state of the last update was read.
pub open spec fn update_read(list: Seq<Seq<char>>, e: Option<Fault>) -> Seq<(Req, Answer)> {
    seq![(Req::ReadLines { path: "/.snapshots/ash/upstate"@ }, Answer::Listing(list, e))]
}

/// `tree_show` shows the tree that was loaded.
pub proof fn law_tree_show(s: Session)
    ensures
        run(s, tree_show_script()).out is Ok ==> exists|t: u64|
            record(s, tree_show_script(), all_of_it()) == #[trigger] shown(t),
{
    broadcast use crate::record::group_ok;

    let p = tree_show_script();
    reveal(tree_show_script);
    if run(s, p).out is Ok {
        assert(record(s, p, all_of_it()).len() >= 0);
        assert(record(s, p, all_of_it()) =~= shown(s.next()->Tree_0));
    }
}

/// A tree was loaded and shown.
pub open spec fn shown(t: u64) -> Seq<(Req, Answer)> {
    seq![(Req::LoadTree, Answer::Tree(t)), (Req::PrintTree { tree: t }, Answer::Done)]
}

/// A subvolume that belongs to a temporary copy was deleted, unless it is mounted, which was told;
/// any other was left alone.
pub open spec fn tidied(d: Seq<(Req, Answer)>, path: Seq<char>) -> bool {
    if holds(path, "snapshot-chr"@) || holds(path, "var-chr"@) || holds(path, "etc-chr"@) || holds(
        path,
        "boot-chr"@,
    ) {
        exists|list: Seq<Seq<char>>|
            d == #[trigger] mount_points(list) + did(
                seq![
                    if has_path(list, path) {
                        Req::Eprint { text: path + " is busy."@ }
                    } else {
                        Req::DeleteSubvolume { path }
                    },
                ],
            )
    } else {
        d.len() == 0
    }
}

/// The same, as a demand on a record and a path.
pub open spec fn tidying() -> spec_fn(Seq<(Req, Answer)>, Seq<char>) -> bool {
    |d: Seq<(Req, Answer)>, path: Seq<char>| tidied(d, path)
}

proof fn lemma_tidy(s: Session, path: Seq<char>)
    requires
        run(s, clear_temporary()(path)).out is Ok,
    ensures
        tidied(record(s, clear_temporary()(path), all_of_it()), path),
{
    broadcast use crate::record::group_ok;

    let p = clear_temporary()(path);
    let d = record(s, p, all_of_it());
    assert(d.len() >= 0);
    if temporary(path) {
        law_is_mounted(s, path);
        let mounted = run(s, is_mounted_script(path)).out->Ok_0;
        let list = choose|list: Seq<Seq<char>>|
            record(s, is_mounted_script(path), all_of_it()) == #[trigger] mount_points(list)
                && mounted == has_path(list, path);
        if mounted {
            assert(d =~= mount_points(list) + did(
                seq![Req::Eprint { text: path + " is busy."@ }],
            ));
        } else {
            assert(d =~= mount_points(list) + did(seq![Req::DeleteSubvolume { path }]));
        }
    }
}

/// A `temp_snapshots_clear` that succeeds goes through all subvolumes and deletes those that belong
/// to a temporary copy and are not mounted.
pub proof fn law_temp_snapshots_clear(s: Session)
    ensures
        run(s, temp_snapshots_clear_script()).out is Ok ==> exists|
            boots: Seq<Seq<char>>,
            etcs: Seq<Seq<char>>,
            vars: Seq<Seq<char>>,
            roots: Seq<Seq<char>>,
            rest: Seq<(Req, Answer)>,
        |
            record(s, temp_snapshots_clear_script(), all_of_it()) == #[trigger] surveyed(
                boots,
                etcs,
                vars,
                roots,
            ) + rest && #[trigger] in_turn(rest, roots + vars + etcs + boots, tidying()),
{
    broadcast use crate::record::group_ok;

    let p = temp_snapshots_clear_script();
    reveal(temp_snapshots_clear_script);
    if run(s, p).out is Ok {
        assert(record(s, p, all_of_it()).len() >= 0);
        let (boots, etcs, vars, roots) = lemma_survey(s);
        let t = run(s, subvolumes_script()).now;
        let paths = roots + vars + etcs + boots;
        let f = clear_temporary();
        assert forall|u: Session, x: Seq<char>| run(u, f(x)).out is Ok implies tidying()(
            #[trigger] record(u, f(x), all_of_it()),
            x,
        ) by {
            lemma_tidy(u, x);
        }
        record_each(t, paths, f, all_of_it(), tidying());
        let rest = record(t, each(paths, f), all_of_it());
        assert(in_turn(rest, roots + vars + etcs + boots, tidying()));
        assert(record(s, p, all_of_it()) =~= surveyed(boots, etcs, vars, roots) + rest);
    }
}

}
