//! What the operations on the tree of snapshots come to.

use vstd::prelude::*;
use crate::deployment::{
    check_mutability_script, deploy_script, get_current_snapshot_script, get_tmp_script,
    mounts_script, running_slot,
};
use crate::outcomes::{copied, deeds, spares};
use crate::paths::{
    copy_plan, desc_file, drop_volume, has_path, mutable_mark, rootfs, snap, volume, Volume,
};
use crate::placing::{all_of_it, deploys, law_deploy, looked, rewritten, tells};
use crate::record::{did, got, others, record};
use crate::request::{Answer, Req};
use crate::script::{all_done, asks_only, done, flag, run, sure, Build, Halted, Session};
use crate::snapshots::{
    as_base, as_child, as_sibling, branch_create_script, clone_as_tree_script, clone_branch_script,
    clone_of, clone_under_script, copy_snapshot_script, find_new_script, free_number,
    full_list_script, grow_script, immutability_disable_script, immutability_enable_script,
    law_free_number, new_node_script, rollback_script, snapshot_base_new_script, subvolumes_script,
    unmark_script, unused, update_etc_script, write_desc_script,
};
use crate::supplying::{asked_current, lemma_current};
use crate::text::{decimal, lines, replaced, trimmed_end};

verus! {

/// A directory was listed, wholly.
pub open spec fn listed(dir: Seq<char>, paths: Seq<Seq<char>>) -> (Req, Answer) {
    (Req::ListDir { path: dir }, Answer::Listing(paths, None))
}

/// The directories of subvolumes were listed, and hold these paths.
pub open spec fn surveyed(
    boots: Seq<Seq<char>>,
    etcs: Seq<Seq<char>>,
    vars: Seq<Seq<char>>,
    roots: Seq<Seq<char>>,
) -> Seq<(Req, Answer)> {
    seq![
        listed("/.snapshots/boot"@, boots),
        listed("/.snapshots/etc"@, etcs),
        listed("/.snapshots/var"@, vars),
        listed("/.snapshots/rootfs"@, roots),
    ]
}

proof fn lemma_full_list(s: Session, dir: Seq<char>)
    requires
        run(s, full_list_script(dir)).out is Ok,
    ensures
        record(s, full_list_script(dir), all_of_it()) == seq![
            listed(dir, run(s, full_list_script(dir)).out->Ok_0),
        ],
{
    broadcast use crate::record::group_ok;

    reveal(full_list_script);
    reveal_with_fuel(run, 2);
    assert(record(s, full_list_script(dir), all_of_it()).len() >= 0);
    assert(record(s, full_list_script(dir), all_of_it()) =~= seq![
        listed(dir, run(s, full_list_script(dir)).out->Ok_0),
    ]);
}

proof fn lemma_has_path(a: Seq<Seq<char>>, b: Seq<Seq<char>>, path: Seq<char>)
    ensures
        has_path(a + b, path) == (has_path(a, path) || has_path(b, path)),
{
    let both = a + b;
    if has_path(a, path) {
        let i = choose|i: int| 0 <= i < a.len() && crate::paths::same_path(#[trigger] a[i], path);
        assert(both[i] == a[i]);
    }
    if has_path(b, path) {
        let i = choose|i: int| 0 <= i < b.len() && crate::paths::same_path(#[trigger] b[i], path);
        assert(both[a.len() + i] == b[i]);
    }
    if has_path(both, path) {
        let i = choose|i: int|
            0 <= i < both.len() && crate::paths::same_path(#[trigger] both[i], path);
        if i < a.len() {
            assert(a[i] == both[i]);
        } else {
            assert(b[i - a.len()] == both[i]);
        }
    }
}

/// No subvolume of any kind has this number.
pub open spec fn vacant(
    boots: Seq<Seq<char>>,
    etcs: Seq<Seq<char>>,
    vars: Seq<Seq<char>>,
    roots: Seq<Seq<char>>,
    i: int,
) -> bool {
    forall|v: Volume| {
        let path = #[trigger] volume(v, decimal(i));
        &&& !has_path(boots, path)
        &&& !has_path(etcs, path)
        &&& !has_path(vars, path)
        &&& !has_path(roots, path)
    }
}

proof fn lemma_vacant(
    boots: Seq<Seq<char>>,
    etcs: Seq<Seq<char>>,
    vars: Seq<Seq<char>>,
    roots: Seq<Seq<char>>,
    i: int,
)
    ensures
        vacant(boots, etcs, vars, roots, i) == unused(roots + vars + etcs + boots, i),
{
    assert forall|path: Seq<char>| #[trigger]
        has_path(roots + vars + etcs + boots, path) == (has_path(boots, path) || has_path(
            etcs,
            path,
        ) || has_path(vars, path) || has_path(roots, path)) by {
        lemma_has_path(roots + vars + etcs, boots, path);
        lemma_has_path(roots + vars, etcs, path);
        lemma_has_path(roots, vars, path);
    }
    if unused(roots + vars + etcs + boots, i) {
        assert forall|v: Volume| {
            let path = #[trigger] volume(v, decimal(i));
            &&& !has_path(boots, path)
            &&& !has_path(etcs, path)
            &&& !has_path(vars, path)
            &&& !has_path(roots, path)
        } by {
            assert(!has_path(roots + vars + etcs + boots, volume(v, decimal(i)))) by {
                match v {
                    Volume::Boot => {},
                    Volume::Etc => {},
                    Volume::Var => {},
                    Volume::Rootfs => {},
                }
            }
        }
    } else {
        if vacant(boots, etcs, vars, roots, i) {
            let b = volume(Volume::Boot, decimal(i));
            let e = volume(Volume::Etc, decimal(i));
            let v = volume(Volume::Var, decimal(i));
            let r = volume(Volume::Rootfs, decimal(i));
            assert(!has_path(boots, b) && !has_path(boots, e) && !has_path(boots, v));
            assert(false);
        }
    }
}

/// What listing all subvolumes leaves on record, and gives.
pub proof fn lemma_survey(s: Session) -> (r: (
    Seq<Seq<char>>,
    Seq<Seq<char>>,
    Seq<Seq<char>>,
    Seq<Seq<char>>,
))
    requires
        run(s, subvolumes_script()).out is Ok,
    ensures
        record(s, subvolumes_script(), all_of_it()) == surveyed(r.0, r.1, r.2, r.3),
        run(s, subvolumes_script()).out->Ok_0 == r.3 + r.2 + r.1 + r.0,
{
    broadcast use crate::record::group_ok;

    let p = subvolumes_script();
    reveal(subvolumes_script);
    assert(record(s, p, all_of_it()).len() >= 0);
    let b = full_list_script("/.snapshots/boot"@);
    let e = full_list_script("/.snapshots/etc"@);
    let v = full_list_script("/.snapshots/var"@);
    let r = full_list_script("/.snapshots/rootfs"@);
    let boots = run(s, b).out->Ok_0;
    lemma_full_list(s, "/.snapshots/boot"@);
    let t = run(s, b).now;
    let etcs = run(t, e).out->Ok_0;
    lemma_full_list(t, "/.snapshots/etc"@);
    let t = run(t, e).now;
    let vars = run(t, v).out->Ok_0;
    lemma_full_list(t, "/.snapshots/var"@);
    let t = run(t, v).now;
    let roots = run(t, r).out->Ok_0;
    lemma_full_list(t, "/.snapshots/rootfs"@);
    assert(record(s, p, all_of_it()) =~= surveyed(boots, etcs, vars, roots));
    (boots, etcs, vars, roots)
}

/// `find_new` lists the directories of all four kinds of subvolumes and gives the least number
/// from one on that none of them has.
pub proof fn law_find_new(s: Session)
    ensures
        run(s, find_new_script()).out matches Ok(n) ==> exists|
            boots: Seq<Seq<char>>,
            etcs: Seq<Seq<char>>,
            vars: Seq<Seq<char>>,
            roots: Seq<Seq<char>>,
        |
            record(s, find_new_script(), all_of_it()) == #[trigger] surveyed(
                boots,
                etcs,
                vars,
                roots,
            ) && 1 <= n && vacant(boots, etcs, vars, roots, n as int) && forall|i: int|
                1 <= i < n ==> !#[trigger] vacant(boots, etcs, vars, roots, i),
{
    broadcast use crate::record::group_ok;

    let p = find_new_script();
    reveal(find_new_script);
    if run(s, p).out is Ok {
        assert(record(s, p, all_of_it()).len() >= 0);
        let (boots, etcs, vars, roots) = lemma_survey(s);
        assert(record(s, p, all_of_it()) =~= surveyed(boots, etcs, vars, roots));
        let paths = roots + vars + etcs + boots;
        law_free_number(paths, 1);
        let n = run(s, p).out->Ok_0;
        assert(free_number(paths, 1) == Some(n));
        lemma_vacant(boots, etcs, vars, roots, n as int);
        assert forall|i: int| 1 <= i < n implies !#[trigger] vacant(
            boots,
            etcs,
            vars,
            roots,
            i,
        ) by {
            lemma_vacant(boots, etcs, vars, roots, i);
        }
    }
}

/// Finding a number makes no deed.
pub broadcast proof fn quiet_find_new(keep: spec_fn(Req) -> bool)
    requires
        spares(keep),
    ensures
        #[trigger] asks_only(find_new_script(), others(keep)),
{
    broadcast use crate::script::group_asks;

    reveal(find_new_script);
    reveal(subvolumes_script);
    reveal(full_list_script);
}

/// An entry was made in the tree of snapshots that was loaded as `t`, and that tree was saved.
pub open spec fn grown(t: u64, entry: Req) -> Seq<(Req, Answer)> {
    seq![
        (Req::LoadTree, Answer::Tree(t)),
        (entry, Answer::Done),
        (Req::SaveTree { tree: t }, Answer::Done),
    ]
}

/// What it is to make an entry in the tree of snapshots.
pub proof fn lemma_grow(s: Session, entry: spec_fn(u64) -> Req) -> (t: u64)
    requires
        run(s, grow_script(entry)).out is Ok,
        forall|t: u64| !crate::outcomes::background(#[trigger] entry(t)),
    ensures
        record(s, grow_script(entry), deeds()) == grown(t, entry(t)),
{
    broadcast use crate::record::group_ok;

    reveal(grow_script);
    assert(record(s, grow_script(entry), deeds()).len() >= 0);
    let t = s.next()->Tree_0;
    assert(!crate::outcomes::background(entry(t)));
    assert(record(s, grow_script(entry), deeds()) =~= grown(t, entry(t)));
    t
}

/// The four subvolumes of the new snapshot were made from those of the other one: writable, with
/// the mark of a mutable snapshot, where that one is mutable, and read-only where not.
pub open spec fn cloned(from: Seq<char>, to: Seq<char>, mutable: bool) -> Seq<(Req, Answer)> {
    copied(from, to, !mutable) + if mutable {
        did(seq![Req::CreateFile { path: rootfs(to) + "/usr/share/ash/mutable"@ }])
    } else {
        did(seq![])
    }
}

proof fn lemma_copy_snapshot(s: Session, snapshot: Seq<char>, i: i32) -> (mutable: bool)
    requires
        run(s, copy_snapshot_script(snapshot, i)).out is Ok,
    ensures
        record(s, copy_snapshot_script(snapshot, i), deeds()) == cloned(
            snapshot,
            decimal(i as int),
            mutable,
        ),
        got(
            s,
            run(s, copy_snapshot_script(snapshot, i)).now,
            Req::Exists { path: rootfs(snapshot) + "/usr/share/ash/mutable"@ },
            Answer::Flag(mutable),
        ),
{
    broadcast use {crate::record::group_ok, crate::record::got_chain};

    let p = copy_snapshot_script(snapshot, i);
    reveal(copy_snapshot_script);
    reveal(check_mutability_script);
    assert(record(s, p, deeds()).len() >= 0);
    let mark = Req::Exists { path: mutable_mark(snapshot) };
    crate::record::got_flag(s, mark);
    let mutable = s.next() == Answer::Flag(true);
    assert(record(s, p, deeds()) =~= cloned(snapshot, decimal(i as int), mutable));
    mutable
}

/// A new snapshot was made from another one, entered in the tree of snapshots, and described.
pub open spec fn new_snapshot(
    d: Seq<(Req, Answer)>,
    from: Seq<char>,
    i: i32,
    entry: spec_fn(u64) -> Req,
    desc: Seq<char>,
    mutable: bool,
) -> bool {
    exists|t: u64|
        d == cloned(from, decimal(i as int), mutable) + #[trigger] grown(t, entry(t)) + (
        if desc.len() > 0 {
            rewritten("/.snapshots/ash/snapshots/"@ + decimal(i as int) + "-desc"@, desc)
        } else {
            did(seq![])
        })
}

proof fn lemma_new_node(
    s: Session,
    snapshot: Seq<char>,
    i: i32,
    entry: spec_fn(u64) -> Req,
    desc: Seq<char>,
) -> (mutable: bool)
    requires
        run(s, new_node_script(snapshot, i, entry, desc)).out is Ok,
        forall|t: u64| !crate::outcomes::background(#[trigger] entry(t)),
    ensures
        run(s, new_node_script(snapshot, i, entry, desc)).out->Ok_0 == i,
        new_snapshot(
            record(s, new_node_script(snapshot, i, entry, desc), deeds()),
            snapshot,
            i,
            entry,
            desc,
            mutable,
        ),
        got(
            s,
            run(s, new_node_script(snapshot, i, entry, desc)).now,
            Req::Exists { path: rootfs(snapshot) + "/usr/share/ash/mutable"@ },
            Answer::Flag(mutable),
        ),
{
    broadcast use {crate::record::group_ok, crate::record::got_chain};

    let p = new_node_script(snapshot, i, entry, desc);
    reveal(new_node_script);
    reveal(write_desc_script);
    assert(record(s, p, deeds()).len() >= 0);
    let mutable = lemma_copy_snapshot(s, snapshot, i);
    let t = run(s, copy_snapshot_script(snapshot, i)).now;
    let n = lemma_grow(t, entry);
    assert(record(s, p, deeds()) =~= cloned(snapshot, decimal(i as int), mutable) + grown(
        n,
        entry(n),
    ) + (if desc.len() > 0 {
        rewritten("/.snapshots/ash/snapshots/"@ + decimal(i as int) + "-desc"@, desc)
    } else {
        did(seq![])
    }));
    mutable
}

/// The mark of a mutable snapshot was found, or not.
pub open spec fn found_mutable(s: Session, now: Session, snapshot: Seq<char>, mutable: bool) -> bool {
    got(
        s,
        now,
        Req::Exists { path: rootfs(snapshot) + "/usr/share/ash/mutable"@ },
        Answer::Flag(mutable),
    )
}

/// A `branch_create` that succeeds makes a new snapshot from the given one, as mutable as that
/// one, puts it below that one in the tree, and gives its number.
pub proof fn law_branch_create(s: Session, snapshot: Seq<char>, desc: Seq<char>)
    ensures
        run(s, branch_create_script(snapshot, desc)).out matches Ok(i) ==> exists|mutable: bool|
            new_snapshot(
                record(s, branch_create_script(snapshot, desc), deeds()),
                snapshot,
                i,
                |t: u64| Req::AddChild { tree: t, parent: snapshot, node: i },
                desc,
                mutable,
            ) && #[trigger] found_mutable(
                s,
                run(s, branch_create_script(snapshot, desc)).now,
                snapshot,
                mutable,
            ),
{
    broadcast use {
        crate::script::group_asks,
        crate::record::group_ok,
        crate::record::got_chain,
        quiet_find_new,
    };

    assert(spares(deeds()));
    let p = branch_create_script(snapshot, desc);
    reveal(branch_create_script);
    if run(s, p).out is Ok {
        assert(record(s, p, deeds()).len() >= 0);
        let i = run(s, find_new_script()).out->Ok_0;
        let t = run(s, find_new_script()).now;
        let t = run(t, flag(Req::Exists { path: rootfs(snapshot) })).now;
        let mutable = lemma_new_node(t, snapshot, i, as_child(snapshot, i), desc);
        assert(as_child(snapshot, i) == (|t: u64| Req::AddChild { tree: t, parent: snapshot, node: i }));
        assert(record(s, p, deeds()) =~= record(
            t,
            new_node_script(snapshot, i, as_child(snapshot, i), desc),
            deeds(),
        ));
        assert(found_mutable(s, run(s, p).now, snapshot, mutable));
    }
}

/// A `clone_as_tree` that succeeds makes a new snapshot from the given one, as mutable as that
/// one, puts it at the root of the tree, and gives its number. Without a description it is said
/// of which snapshot it is a clone.
pub proof fn law_clone_as_tree(s: Session, snapshot: Seq<char>, desc: Seq<char>)
    ensures
        run(s, clone_as_tree_script(snapshot, desc)).out matches Ok(i) ==> exists|mutable: bool|
            new_snapshot(
                record(s, clone_as_tree_script(snapshot, desc), deeds()),
                snapshot,
                i,
                |t: u64| Req::AddToBase { tree: t, node: i },
                if desc.len() == 0 {
                    "clone of "@ + snapshot + "."@
                } else {
                    desc
                },
                mutable,
            ) && #[trigger] found_mutable(
                s,
                run(s, clone_as_tree_script(snapshot, desc)).now,
                snapshot,
                mutable,
            ),
{
    broadcast use {
        crate::script::group_asks,
        crate::record::group_ok,
        crate::record::got_chain,
        quiet_find_new,
    };

    assert(spares(deeds()));
    let p = clone_as_tree_script(snapshot, desc);
    let told = if desc.len() == 0 {
        clone_of(snapshot)
    } else {
        desc
    };
    reveal(clone_as_tree_script);
    if run(s, p).out is Ok {
        assert(record(s, p, deeds()).len() >= 0);
        let i = run(s, find_new_script()).out->Ok_0;
        let t = run(s, find_new_script()).now;
        let t = run(t, flag(Req::Exists { path: rootfs(snapshot) })).now;
        let mutable = lemma_new_node(t, snapshot, i, as_base(i), told);
        assert(as_base(i) == (|t: u64| Req::AddToBase { tree: t, node: i }));
        assert(record(s, p, deeds()) =~= record(
            t,
            new_node_script(snapshot, i, as_base(i), told),
            deeds(),
        ));
        assert(found_mutable(s, run(s, p).now, snapshot, mutable));
    }
}

/// A `clone_branch` that succeeds makes a new snapshot from the given one, as mutable as that
/// one, puts it beside that one in the tree, and gives its number.
pub proof fn law_clone_branch(s: Session, snapshot: Seq<char>)
    ensures
        run(s, clone_branch_script(snapshot)).out matches Ok(i) ==> exists|mutable: bool|
            new_snapshot(
                record(s, clone_branch_script(snapshot), deeds()),
                snapshot,
                i,
                |t: u64| Req::AddSibling { tree: t, beside: snapshot, node: i },
                "clone of "@ + snapshot + "."@,
                mutable,
            ) && #[trigger] found_mutable(
                s,
                run(s, clone_branch_script(snapshot)).now,
                snapshot,
                mutable,
            ),
{
    broadcast use {
        crate::script::group_asks,
        crate::record::group_ok,
        crate::record::got_chain,
        quiet_find_new,
    };

    assert(spares(deeds()));
    let p = clone_branch_script(snapshot);
    reveal(clone_branch_script);
    if run(s, p).out is Ok {
        assert(record(s, p, deeds()).len() >= 0);
        let i = run(s, find_new_script()).out->Ok_0;
        let t = run(s, find_new_script()).now;
        let t = run(t, flag(Req::Exists { path: rootfs(snapshot) })).now;
        let mutable = lemma_new_node(t, snapshot, i, as_sibling(snapshot, i), clone_of(snapshot));
        assert(as_sibling(snapshot, i) == (|t: u64|
            Req::AddSibling { tree: t, beside: snapshot, node: i }));
        assert(record(s, p, deeds()) =~= record(
            t,
            new_node_script(snapshot, i, as_sibling(snapshot, i), clone_of(snapshot)),
            deeds(),
        ));
        assert(found_mutable(s, run(s, p).now, snapshot, mutable));
    }
}

/// A `clone_under` that succeeds makes a new snapshot from the branch, as mutable as that one,
/// puts it below the given snapshot in the tree, and gives its number.
pub proof fn law_clone_under(s: Session, snapshot: Seq<char>, branch: Seq<char>)
    ensures
        run(s, clone_under_script(snapshot, branch)).out matches Ok(i) ==> exists|mutable: bool|
            new_snapshot(
                record(s, clone_under_script(snapshot, branch), deeds()),
                branch,
                i,
                |t: u64| Req::AddChild { tree: t, parent: snapshot, node: i },
                "clone of "@ + branch + "."@,
                mutable,
            ) && #[trigger] found_mutable(
                s,
                run(s, clone_under_script(snapshot, branch)).now,
                branch,
                mutable,
            ),
{
    broadcast use {
        crate::script::group_asks,
        crate::record::group_ok,
        crate::record::got_chain,
        quiet_find_new,
    };

    assert(spares(deeds()));
    let p = clone_under_script(snapshot, branch);
    reveal(clone_under_script);
    if run(s, p).out is Ok {
        assert(record(s, p, deeds()).len() >= 0);
        let i = run(s, find_new_script()).out->Ok_0;
        let t = run(s, find_new_script()).now;
        let t = run(t, flag(Req::Exists { path: rootfs(snapshot) })).now;
        let t = run(t, flag(Req::Exists { path: rootfs(branch) })).now;
        let mutable = lemma_new_node(t, branch, i, as_child(snapshot, i), clone_of(branch));
        assert(as_child(snapshot, i) == (|t: u64| Req::AddChild { tree: t, parent: snapshot, node: i }));
        assert(record(s, p, deeds()) =~= record(
            t,
            new_node_script(branch, i, as_child(snapshot, i), clone_of(branch)),
            deeds(),
        ));
        assert(found_mutable(s, run(s, p).now, branch, mutable));
    }
}

/// A `snapshot_base_new` that succeeds makes a new snapshot from the base snapshot, read-only,
/// puts it at the root of the tree, describes it, and gives its number.
pub proof fn law_snapshot_base_new(s: Session, desc: Seq<char>)
    ensures
        run(s, snapshot_base_new_script(desc)).out matches Ok(i) ==> exists|t: u64|
            record(s, snapshot_base_new_script(desc), deeds()) == copied(
                "0"@,
                decimal(i as int),
                true,
            ) + #[trigger] grown(t, Req::AddToBase { tree: t, node: i }) + rewritten(
                "/.snapshots/ash/snapshots/"@ + decimal(i as int) + "-desc"@,
                if desc.len() == 0 {
                    "clone of base."@
                } else {
                    desc
                },
            ),
{
    broadcast use {crate::record::group_ok, quiet_find_new};

    assert(spares(deeds()));
    let p = snapshot_base_new_script(desc);
    reveal(snapshot_base_new_script);
    reveal(write_desc_script);
    if run(s, p).out is Ok {
        assert(record(s, p, deeds()).len() >= 0);
        let i = run(s, find_new_script()).out->Ok_0;
        let t = run(s, find_new_script()).now;
        let t = run(t, all_done(copy_plan("0"@, decimal(i as int), true))).now;
        let n = lemma_grow(t, as_base(i));
        assert(record(s, p, deeds()) =~= copied("0"@, decimal(i as int), true) + grown(
            n,
            Req::AddToBase { tree: n, node: i },
        ) + rewritten(
            "/.snapshots/ash/snapshots/"@ + decimal(i as int) + "-desc"@,
            if desc.len() == 0 {
                "clone of base."@
            } else {
                desc
            },
        ));
    }
}

/// `write_desc` writes the description of the snapshot, in place of the one that is there or
/// after it.
pub proof fn law_write_desc(s: Session, snapshot: Seq<char>, desc: Seq<char>, overwrite: bool)
    ensures
        run(s, write_desc_script(snapshot, desc, overwrite)).out is Ok ==> record(
            s,
            write_desc_script(snapshot, desc, overwrite),
            all_of_it(),
        ) == did(
            seq![
                if overwrite {
                    Req::WriteText {
                        path: "/.snapshots/ash/snapshots/"@ + snapshot + "-desc"@,
                        text: desc,
                    }
                } else {
                    Req::AppendText {
                        path: "/.snapshots/ash/snapshots/"@ + snapshot + "-desc"@,
                        text: desc,
                    }
                },
            ],
        ),
{
    broadcast use crate::record::group_ok;

    reveal(write_desc_script);
}

/// An `immutability_disable` that succeeds found the snapshot there, not the base snapshot, and
/// not marked as mutable. Its root was made writable, it was marked, and that was noted at the
/// end of its description.
pub proof fn law_immutability_disable(s: Session, snapshot: Seq<char>)
    ensures
        run(s, immutability_disable_script(snapshot)).out is Ok ==> snapshot != "0"@ && record(
            s,
            immutability_disable_script(snapshot),
            all_of_it(),
        ) == seq![
            (Req::Exists { path: rootfs(snapshot) }, Answer::Flag(true)),
            (
                Req::Exists { path: rootfs(snapshot) + "/usr/share/ash/mutable"@ },
                Answer::Flag(false),
            ),
        ] + did(
            seq![
                Req::SetReadOnly { path: rootfs(snapshot), read_only: false },
                Req::CreateFile { path: rootfs(snapshot) + "/usr/share/ash/mutable"@ },
                Req::AppendText {
                    path: "/.snapshots/ash/snapshots/"@ + snapshot + "-desc"@,
                    text: " MUTABLE "@,
                },
            ],
        ),
{
    broadcast use crate::record::group_ok;

    let p = immutability_disable_script(snapshot);
    reveal(immutability_disable_script);
    reveal(check_mutability_script);
    reveal(write_desc_script);
    if run(s, p).out is Ok {
        assert(record(s, p, all_of_it()).len() >= 0);
        assert(record(s, p, all_of_it()) =~= seq![
            (Req::Exists { path: rootfs(snapshot) }, Answer::Flag(true)),
            (Req::Exists { path: mutable_mark(snapshot) }, Answer::Flag(false)),
        ] + did(
            seq![
                Req::SetReadOnly { path: rootfs(snapshot), read_only: false },
                Req::CreateFile { path: mutable_mark(snapshot) },
                Req::AppendText { path: desc_file(snapshot), text: " MUTABLE "@ },
            ],
        ));
    }
}

/// An `immutability_enable` that succeeds found the snapshot there, not the base snapshot, and
/// marked as mutable. The mark was removed, its root was made read-only, and the note was taken
/// out of its description.
pub proof fn law_immutability_enable(s: Session, snapshot: Seq<char>)
    ensures
        run(s, immutability_enable_script(snapshot)).out is Ok ==> snapshot != "0"@ && exists|
            desc: Seq<char>,
        |
            record(s, immutability_enable_script(snapshot), all_of_it()) == seq![
                (Req::Exists { path: rootfs(snapshot) }, Answer::Flag(true)),
                (
                    Req::Exists { path: rootfs(snapshot) + "/usr/share/ash/mutable"@ },
                    Answer::Flag(true),
                ),
            ] + did(
                seq![
                    Req::RemoveFile { path: rootfs(snapshot) + "/usr/share/ash/mutable"@ },
                    Req::SetReadOnly { path: rootfs(snapshot), read_only: true },
                ],
            ) + #[trigger] taken_out("/.snapshots/ash/snapshots/"@ + snapshot + "-desc"@, desc),
{
    broadcast use crate::record::group_ok;

    let p = immutability_enable_script(snapshot);
    reveal(immutability_enable_script);
    reveal(check_mutability_script);
    reveal(unmark_script);
    if run(s, p).out is Ok {
        assert(record(s, p, all_of_it()).len() >= 0);
        let ask = Req::Exists { path: rootfs(snapshot) };
        let mark = mutable_mark(snapshot);
        let t = run(s, flag(ask)).now;
        let t = run(t, check_mutability_script(snapshot)).now;
        let t = run(t, done(Req::RemoveFile { path: mark })).now;
        let t = run(
            t,
            sure(done(Req::SetReadOnly { path: rootfs(snapshot), read_only: true })),
        ).now;
        assert(record(t, unmark_script(snapshot), all_of_it()).len() >= 0);
        let desc = t.next()->Text_0;
        assert(record(t, unmark_script(snapshot), all_of_it()) =~= taken_out(
            desc_file(snapshot),
            desc,
        ));
        assert(record(s, p, all_of_it()) =~= seq![
            (ask, Answer::Flag(true)),
            (Req::Exists { path: mark }, Answer::Flag(true)),
        ] + did(
            seq![
                Req::RemoveFile { path: mark },
                Req::SetReadOnly { path: rootfs(snapshot), read_only: true },
            ],
        ) + taken_out(desc_file(snapshot), desc));
    }
}

/// The note that a snapshot is mutable was taken out of the description that was read.
pub open spec fn taken_out(path: Seq<char>, desc: Seq<char>) -> Seq<(Req, Answer)> {
    seq![
        (Req::ReadText { path }, Answer::Text(desc)),
        (Req::WriteText { path, text: replaced(desc, " MUTABLE "@, ""@) }, Answer::Done),
    ]
}

/// An `update_etc` that succeeds deletes the etc subvolume of the snapshot that is noted in the
/// running deployment, which is not the base snapshot, and makes it anew from that of the running
/// deployment: writable where the snapshot is marked as mutable, and read-only where not.
#[verifier::rlimit(40)]
pub proof fn law_update_etc(s: Session)
    ensures
        run(s, update_etc_script()).out is Ok ==> exists|
            note: Seq<char>,
            mounts: Seq<char>,
            mutable: bool,
        |
            #![trigger asked_current(note), looked(mounts), is_so(mutable)]
            is_so(mutable) && trimmed_end(note) != "0"@ && record(
                s,
                update_etc_script(),
                all_of_it(),
            ) == asked_current(note) + looked(mounts) + seq![
                (
                    Req::DeleteSubvolume { path: volume(Volume::Etc, trimmed_end(note)) },
                    Answer::Done,
                ),
                (
                    Req::Exists { path: rootfs(trimmed_end(note)) + "/usr/share/ash/mutable"@ },
                    Answer::Flag(mutable),
                ),
                (
                    Req::SnapshotSubvolume {
                        from: volume(Volume::Etc, running_slot(lines(mounts))),
                        to: volume(Volume::Etc, trimmed_end(note)),
                        read_only: !mutable,
                    },
                    Answer::Done,
                ),
            ],
{
    broadcast use crate::record::group_ok;

    let p = update_etc_script();
    reveal(update_etc_script);
    reveal(check_mutability_script);
    reveal(get_tmp_script);
    reveal(mounts_script);
    if run(s, p).out is Ok {
        assert(record(s, p, all_of_it()).len() >= 0);
        lemma_current(s, all_of_it());
        let note = s.next()->Text_0;
        let snapshot = trimmed_end(note);
        let t = run(s, get_current_snapshot_script()).now;
        assert(record(t, get_tmp_script(), all_of_it()).len() >= 0);
        let mounts = t.next()->Text_0;
        assert(record(t, get_tmp_script(), all_of_it()) =~= looked(mounts));
        let tmp = running_slot(lines(mounts));
        let t = run(t, get_tmp_script()).now;
        let t = run(t, done(drop_volume(Volume::Etc, snapshot))).now;
        let mutable = t.next() == Answer::Flag(true);
        assert(is_so(mutable));
        assert(record(s, p, all_of_it()) =~= asked_current(note) + looked(mounts) + seq![
            (drop_volume(Volume::Etc, snapshot), Answer::Done),
            (Req::Exists { path: mutable_mark(snapshot) }, Answer::Flag(mutable)),
            (snap(Volume::Etc, tmp, snapshot, !mutable), Answer::Done),
        ]);
    }
}

/// A yes or a no.
pub open spec fn is_so(b: bool) -> bool {
    b || !b
}

/// A snapshot was cloned to the root of the tree, and it is said of which one it is a clone.
pub open spec fn new_tree(d: Seq<(Req, Answer)>, from: Seq<char>, i: i32, mutable: bool) -> bool {
    new_snapshot(
        d,
        from,
        i,
        |t: u64| Req::AddToBase { tree: t, node: i },
        "clone of "@ + from + "."@,
        mutable,
    )
}

/// A `rollback` that succeeds makes a new snapshot from the rollback, at the root of the tree, and
/// deploys the snapshot of the number that was free before.
#[verifier::rlimit(40)]
pub proof fn law_rollback(s: Session, build: Build)
    ensures
        run(s, rollback_script(build)).out is Ok ==> exists|
            i: i32,
            j: i32,
            first: Seq<(Req, Answer)>,
            mutable: bool,
            running: Seq<(Req, Answer)>,
            tmp: Seq<char>,
            target: Seq<char>,
            rest: Seq<(Req, Answer)>,
        |
            #![trigger new_tree(first, "rollback"@, j, mutable), tells(running, tmp), deploys(rest, decimal(i as int), tmp, false, false, target)]
            new_tree(first, "rollback"@, j, mutable) && tells(running, tmp) && deploys(
                rest,
                decimal(i as int),
                tmp,
                false,
                false,
                target,
            ) && run(s, find_new_script()).out == Ok::<i32, Halted>(i) && record(
                s,
                rollback_script(build),
                deeds(),
            ) == first + did(
                seq![
                    Req::AppendText {
                        path: "/.snapshots/ash/snapshots/"@ + decimal(i as int) + "-desc"@,
                        text: " rollback "@,
                    },
                ],
            ) + running + rest,
{
    broadcast use {crate::record::group_ok, quiet_find_new};

    assert(spares(deeds()));
    let p = rollback_script(build);
    reveal(rollback_script);
    reveal(write_desc_script);
    if run(s, p).out is Ok {
        assert(record(s, p, deeds()).len() >= 0);
        let i = run(s, find_new_script()).out->Ok_0;
        let id = decimal(i as int);
        let t = run(s, find_new_script()).now;
        let clone = clone_as_tree_script("rollback"@, ""@);
        law_clone_as_tree(t, "rollback"@, ""@);
        reveal_strlit("");
        let j = run(t, clone).out->Ok_0;
        let first = record(t, clone, deeds());
        let mutable = choose|mutable: bool|
            new_snapshot(
                first,
                "rollback"@,
                j,
                |t: u64| Req::AddToBase { tree: t, node: j },
                "clone of "@ + "rollback"@ + "."@,
                mutable,
            ) && #[trigger] found_mutable(t, run(t, clone).now, "rollback"@, mutable);
        assert(new_tree(first, "rollback"@, j, mutable));
        let t = run(t, clone).now;
        let note = Req::AppendText { path: desc_file(id), text: " rollback "@ };
        let t = run(t, done(note)).now;
        let deploy = deploy_script(build, id, false, false);
        law_deploy(t, build, id, false, false);
        let target = run(t, deploy).out->Ok_0;
        let (running, tmp, rest) = choose|
            running: Seq<(Req, Answer)>,
            tmp: Seq<char>,
            rest: Seq<(Req, Answer)>,
        |
            #[trigger] tells(running, tmp) && #[trigger] deploys(
                rest,
                id,
                tmp,
                false,
                false,
                target,
            ) && record(t, deploy, deeds()) == running + rest;
        crate::record::lemma_row(first, did(seq![note]), running, rest, Seq::empty());
        assert(record(s, p, deeds()) =~= first + did(seq![note]) + running + rest);
    }
}

}
