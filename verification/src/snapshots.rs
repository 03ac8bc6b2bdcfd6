//! Making, describing and deleting snapshots.

use vstd::prelude::*;
use crate::deployment::{
    check_mutability, check_mutability_script, clear_slot, delete_slot, deploy, deploy_script,
    get_current_snapshot, get_current_snapshot_script, get_next_snapshot, get_next_snapshot_script,
    get_tmp, get_tmp_script,
};
use crate::guard::{base_fixed, exists_at, missing, missing_text};
use crate::host::{failure, ran, sure, yes_no, Halt, Host};
use crate::mounts::{is_mounted, is_mounted_script};
use crate::paths::{
    below, chr, chr_name, copy_plan, copy_requests, desc_file, desc_path, drop_request, drop_volume,
    has_path, mutable_mark, path_listed, rootfs, rootfs_path, snap, snap_request, volume,
    volume_path, Volume,
};
use crate::request::{ErrorKind, Fault, Req, Request};
use crate::script::{
    all_done, asks_only, chain, confirm, crash, done, each, fail, fails, flag, give, listing, run,
    text, texts, tree, warn, Build, Script,
};
use crate::text::{
    cat, cat3, contains, copied, decimal, digit, digits, holds, lemma_replaced_tail, number,
    occurs_at, replace, replaced, same,
};

verus! {

broadcast use crate::script::group_run;

// --------------------------------------------------------------- new numbers

/// The paths in a directory; that they cannot be listed is not provided for.
#[verifier::opaque]
pub open spec fn full_list_script(dir: Seq<char>) -> Script<Seq<Seq<char>>> {
    chain(
        crate::script::sure(listing(Req::ListDir { path: dir })),
        |found: (Seq<Seq<char>>, Option<Fault>)|
            match found.1 {
                Some(_) => crash(),
                None => give(found.0),
            },
    )
}

/// The paths of all subvolumes: the roots first, then those of var, etc and boot.
#[verifier::opaque]
pub open spec fn subvolumes_script() -> Script<Seq<Seq<char>>> {
    chain(
        full_list_script("/.snapshots/boot"@),
        |boots: Seq<Seq<char>>|
            chain(
                full_list_script("/.snapshots/etc"@),
                |etcs: Seq<Seq<char>>|
                    chain(
                        full_list_script("/.snapshots/var"@),
                        |vars: Seq<Seq<char>>|
                            chain(
                                full_list_script("/.snapshots/rootfs"@),
                                |roots: Seq<Seq<char>>| give(roots + vars + etcs + boots),
                            ),
                    ),
            ),
    )
}

/// No subvolume has this number.
pub open spec fn unused(paths: Seq<Seq<char>>, i: int) -> bool {
    &&& !has_path(paths, volume(Volume::Rootfs, decimal(i)))
    &&& !has_path(paths, volume(Volume::Var, decimal(i)))
    &&& !has_path(paths, volume(Volume::Etc, decimal(i)))
    &&& !has_path(paths, volume(Volume::Boot, decimal(i)))
}

/// The first number from `from` on that no subvolume has.
pub open spec fn free_number(paths: Seq<Seq<char>>, from: int) -> Option<i32>
    decreases i32::MAX + 1 - from,
{
    if from > i32::MAX || from < 1 {
        None
    } else if unused(paths, from) {
        Some(from as i32)
    } else {
        free_number(paths, from + 1)
    }
}

/// What `find_new` does.
#[verifier::opaque]
pub open spec fn find_new_script() -> Script<i32> {
    chain(
        subvolumes_script(),
        |paths: Seq<Seq<char>>|
            match free_number(paths, 1) {
                Some(i) => give(i),
                None => crash(),
            },
    )
}

fn full_list(host: &mut Host, dir: &str) -> (r: Result<Vec<String>, Halt>)
    ensures
        ran(old(host)@, final(host)@, r, full_list_script(dir@)),
{
    reveal(full_list_script);
    let (list, broken) = sure(host.listing(Request::ListDir { path: dir.to_owned() }))?;
    match broken {
        Some(_) => Err(Halt::Panicked),
        None => Ok(list),
    }
}

/// The paths of all subvolumes.
pub fn subvolumes(host: &mut Host) -> (r: Result<Vec<String>, Halt>)
    ensures
        ran(old(host)@, final(host)@, r, subvolumes_script()),
{
    reveal(subvolumes_script);
    let mut boots = full_list(host, "/.snapshots/boot")?;
    let mut etcs = full_list(host, "/.snapshots/etc")?;
    let mut vars = full_list(host, "/.snapshots/var")?;
    let mut all = full_list(host, "/.snapshots/rootfs")?;
    let ghost said = all.deep_view() + vars.deep_view() + etcs.deep_view() + boots.deep_view();
    all.append(&mut vars);
    all.append(&mut etcs);
    all.append(&mut boots);
    assert(all.deep_view() =~= said);
    Ok(all)
}

fn is_unused(paths: &Vec<String>, i: i32) -> (r: bool)
    ensures
        r == unused(paths.deep_view(), i as int),
{
    let id = number(i);
    !path_listed(paths, volume_path(Volume::Rootfs, id.as_str()).as_str()) && !path_listed(
        paths,
        volume_path(Volume::Var, id.as_str()).as_str(),
    ) && !path_listed(paths, volume_path(Volume::Etc, id.as_str()).as_str()) && !path_listed(
        paths,
        volume_path(Volume::Boot, id.as_str()).as_str(),
    )
}

fn next_free(paths: &Vec<String>) -> (r: Option<i32>)
    ensures
        r == free_number(paths.deep_view(), 1),
{
    let mut i: i32 = 1;
    loop
        invariant
            1 <= i,
            free_number(paths.deep_view(), 1) == free_number(paths.deep_view(), i as int),
        decreases i32::MAX - i,
    {
        if is_unused(paths, i) {
            return Some(i);
        }
        if i == i32::MAX {
            reveal_with_fuel(free_number, 2);
            return None;
        }
        i += 1;
    }
}

/// The lowest number that no snapshot has.
pub fn find_new(host: &mut Host) -> (r: Result<i32, Halt>)
    ensures
        ran(old(host)@, final(host)@, r, find_new_script()),
{
    reveal(find_new_script);
    let paths = subvolumes(host)?;
    match next_free(&paths) {
        Some(i) => Ok(i),
        None => Err(Halt::Panicked),
    }
}

// -------------------------------------------------------------- descriptions

/// What `write_desc` does.
#[verifier::opaque]
pub open spec fn write_desc_script(snapshot: Seq<char>, desc: Seq<char>, overwrite: bool) -> Script<
    (),
> {
    if overwrite {
        done(Req::WriteText { path: desc_file(snapshot), text: desc })
    } else {
        done(Req::AppendText { path: desc_file(snapshot), text: desc })
    }
}

/// Describes a snapshot anew, or adds to its description.
pub fn write_desc(host: &mut Host, snapshot: &str, desc: &str, overwrite: bool) -> (r: Result<
    (),
    Halt,
>)
    ensures
        ran(old(host)@, final(host)@, r, write_desc_script(snapshot@, desc@, overwrite)),
{
    reveal(write_desc_script);
    let path = desc_path(snapshot);
    let text = desc.to_owned();
    if overwrite {
        host.done(Request::WriteText { path, text })
    } else {
        host.done(Request::AppendText { path, text })
    }
}

// ------------------------------------------------------------- new snapshots

/// Copies a snapshot under a new number; the copy is mutable where the snapshot is.
#[verifier::opaque]
pub open spec fn copy_snapshot_script(snapshot: Seq<char>, i: i32) -> Script<()> {
    chain(
        check_mutability_script(snapshot),
        |mutable: bool|
            chain(
                all_done(copy_plan(snapshot, decimal(i as int), !mutable)),
                |u: ()|
                    if mutable {
                        done(Req::CreateFile { path: mutable_mark(decimal(i as int)) })
                    } else {
                        give(())
                    },
            ),
    )
}

/// Enters a new snapshot in the tree, in the way that `entry` says.
#[verifier::opaque]
pub open spec fn grow_script(entry: spec_fn(u64) -> Req) -> Script<()> {
    chain(
        crate::script::sure(tree(Req::LoadTree)),
        |t: u64|
            chain(
                crate::script::sure(done(entry(t))),
                |u: ()| done(Req::SaveTree { tree: t }),
            ),
    )
}

/// A new snapshot under another one.
pub open spec fn as_child(parent: Seq<char>, node: i32) -> spec_fn(u64) -> Req {
    |t: u64| Req::AddChild { tree: t, parent, node }
}

/// A new snapshot beside another one.
pub open spec fn as_sibling(beside: Seq<char>, node: i32) -> spec_fn(u64) -> Req {
    |t: u64| Req::AddSibling { tree: t, beside, node }
}

/// A new snapshot as a tree of its own.
pub open spec fn as_base(node: i32) -> spec_fn(u64) -> Req {
    |t: u64| Req::AddToBase { tree: t, node }
}

/// The description of a clone.
pub open spec fn clone_of(snapshot: Seq<char>) -> Seq<char> {
    "clone of "@ + snapshot + "."@
}

/// Copies a snapshot under a new number, enters the copy in the tree and describes it; an
/// empty description is not written.
#[verifier::opaque]
pub open spec fn new_node_script(
    snapshot: Seq<char>,
    i: i32,
    entry: spec_fn(u64) -> Req,
    desc: Seq<char>,
) -> Script<i32> {
    chain(
        copy_snapshot_script(snapshot, i),
        |u: ()|
            chain(
                grow_script(entry),
                |u: ()|
                    chain(
                        if desc.len() > 0 {
                            write_desc_script(decimal(i as int), desc, true)
                        } else {
                            give(())
                        },
                        |u: ()| give(i),
                    ),
            ),
    )
}

/// What `branch_create` does.
#[verifier::opaque]
pub open spec fn branch_create_script(snapshot: Seq<char>, desc: Seq<char>) -> Script<i32> {
    chain(
        find_new_script(),
        |i: i32|
            chain(
                flag(Req::Exists { path: rootfs(snapshot) }),
                |there: bool|
                    if !there {
                        fail(ErrorKind::NotFound, missing("branch"@, snapshot))
                    } else {
                        new_node_script(snapshot, i, as_child(snapshot, i), desc)
                    },
            ),
    )
}

/// What `clone_as_tree` does.
#[verifier::opaque]
pub open spec fn clone_as_tree_script(snapshot: Seq<char>, desc: Seq<char>) -> Script<i32> {
    chain(
        find_new_script(),
        |i: i32|
            chain(
                flag(Req::Exists { path: rootfs(snapshot) }),
                |there: bool|
                    if !there {
                        fail(ErrorKind::NotFound, missing("clone"@, snapshot))
                    } else {
                        new_node_script(
                            snapshot,
                            i,
                            as_base(i),
                            if desc.len() == 0 {
                                clone_of(snapshot)
                            } else {
                                desc
                            },
                        )
                    },
            ),
    )
}

/// What `clone_branch` does.
#[verifier::opaque]
pub open spec fn clone_branch_script(snapshot: Seq<char>) -> Script<i32> {
    chain(
        find_new_script(),
        |i: i32|
            chain(
                flag(Req::Exists { path: rootfs(snapshot) }),
                |there: bool|
                    if !there {
                        fail(ErrorKind::NotFound, missing("clone"@, snapshot))
                    } else {
                        new_node_script(snapshot, i, as_sibling(snapshot, i), clone_of(snapshot))
                    },
            ),
    )
}

/// What `clone_under` does.
#[verifier::opaque]
pub open spec fn clone_under_script(snapshot: Seq<char>, branch: Seq<char>) -> Script<i32> {
    chain(
        find_new_script(),
        |i: i32|
            chain(
                flag(Req::Exists { path: rootfs(snapshot) }),
                |there: bool|
                    if !there {
                        fail(ErrorKind::NotFound, missing("clone"@, snapshot))
                    } else {
                        chain(
                            flag(Req::Exists { path: rootfs(branch) }),
                            |branch_there: bool|
                                if !branch_there {
                                    fail(ErrorKind::NotFound, missing("clone"@, branch))
                                } else {
                                    new_node_script(
                                        branch,
                                        i,
                                        as_child(snapshot, i),
                                        clone_of(branch),
                                    )
                                },
                        )
                    },
            ),
    )
}

/// The position of the first item that is `item`; the length where there is none.
pub open spec fn place_of(list: Seq<Seq<char>>, item: Seq<char>) -> int
    decreases list.len(),
{
    if list.len() == 0 || list[0] == item {
        0
    } else {
        1 + place_of(list.drop_first(), item)
    }
}

/// Clones the snapshots of `todo`, each under what `news` has in the place at which `olds` has
/// its parent; the clone takes the place in `news` at which `olds` has the snapshot.
pub open spec fn clone_children(
    t: u64,
    olds: Seq<Seq<char>>,
    news: Seq<Seq<char>>,
    todo: Seq<Seq<char>>,
) -> Script<()>
    decreases todo.len(), 0int,
{
    if todo.len() == 0 {
        give(())
    } else {
        chain(
            crate::script::sure(text(Req::ParentOf { tree: t, name: todo[0] })),
            clone_below(t, olds, news, todo[0], todo.drop_first()),
        )
    }
}

/// Clones the snapshot `one`, and then those of `rest`, as a function of the parent of `one`.
pub open spec fn clone_below(
    t: u64,
    olds: Seq<Seq<char>>,
    news: Seq<Seq<char>>,
    one: Seq<char>,
    rest: Seq<Seq<char>>,
) -> spec_fn(Seq<char>) -> Script<()>
    decreases rest.len(), 2int,
{
    |parent: Seq<char>|
        if place_of(olds, parent) >= olds.len() {
            crash()
        } else {
            chain(
                clone_under_script(news[place_of(olds, parent)], one),
                clone_rest(t, olds, news, place_of(olds, one), rest),
            )
        }
}

/// Clones the snapshots of `rest`, as a function of the number that the clone for the place
/// `place` got.
pub open spec fn clone_rest(
    t: u64,
    olds: Seq<Seq<char>>,
    news: Seq<Seq<char>>,
    place: int,
    rest: Seq<Seq<char>>,
) -> spec_fn(i32) -> Script<()>
    decreases rest.len(), 1int,
{
    |i: i32| clone_children(t, olds, news.update(place, decimal(i as int)), rest)
}

/// What `clone_recursive` does.
#[verifier::opaque]
pub open spec fn clone_recursive_script(snapshot: Seq<char>) -> Script<()> {
    chain(
        flag(Req::Exists { path: rootfs(snapshot) }),
        |there: bool|
            if !there {
                fail(ErrorKind::NotFound, missing("clone"@, snapshot))
            } else {
                chain(
                    crate::script::sure(tree(Req::LoadTree)),
                    |t: u64|
                        chain(
                            texts(Req::ChildrenOf { tree: t, name: snapshot }),
                            |children: Seq<Seq<char>>|
                                chain(
                                    clone_branch_script(snapshot),
                                    |i: i32|
                                        clone_children(
                                            t,
                                            seq![snapshot] + children,
                                            seq![decimal(i as int)] + children,
                                            children,
                                        ),
                                ),
                        ),
                )
            },
    )
}

/// What `snapshot_base_new` does.
#[verifier::opaque]
pub open spec fn snapshot_base_new_script(desc: Seq<char>) -> Script<i32> {
    chain(
        find_new_script(),
        |i: i32|
            chain(
                all_done(copy_plan("0"@, decimal(i as int), true)),
                |u: ()|
                    chain(
                        grow_script(as_base(i)),
                        |u: ()|
                            chain(
                                crate::script::sure(
                                    write_desc_script(
                                        decimal(i as int),
                                        if desc.len() == 0 {
                                            "clone of base."@
                                        } else {
                                            desc
                                        },
                                        true,
                                    ),
                                ),
                                |u: ()| give(i),
                            ),
                    ),
            ),
    )
}

/// What `rollback` does.
#[verifier::opaque]
pub open spec fn rollback_script(build: Build) -> Script<()> {
    chain(
        find_new_script(),
        |i: i32|
            chain(
                clone_as_tree_script("rollback"@, ""@),
                |j: i32|
                    chain(
                        write_desc_script(decimal(i as int), " rollback "@, false),
                        |u: ()|
                            chain(
                                deploy_script(build, decimal(i as int), false, false),
                                |target: Seq<char>| give(()),
                            ),
                    ),
            ),
    )
}

fn copy_snapshot(host: &mut Host, snapshot: &str, i: i32) -> (r: Result<(), Halt>)
    ensures
        ran(old(host)@, final(host)@, r, copy_snapshot_script(snapshot@, i)),
{
    reveal(copy_snapshot_script);
    let id = number(i);
    let mutable = check_mutability(host, snapshot)?;
    host.all_done(copy_requests(snapshot, id.as_str(), !mutable))?;
    if mutable {
        host.done(Request::CreateFile { path: below(id.as_str(), "/usr/share/ash/mutable") })
    } else {
        Ok(())
    }
}

fn grow_child(host: &mut Host, parent: &str, node: i32) -> (r: Result<(), Halt>)
    ensures
        ran(old(host)@, final(host)@, r, grow_script(as_child(parent@, node))),
{
    reveal(grow_script);
    let t = sure(host.tree(Request::LoadTree))?;
    sure(host.done(Request::AddChild { tree: t, parent: parent.to_owned(), node }))?;
    host.done(Request::SaveTree { tree: t })
}

fn grow_sibling(host: &mut Host, beside: &str, node: i32) -> (r: Result<(), Halt>)
    ensures
        ran(old(host)@, final(host)@, r, grow_script(as_sibling(beside@, node))),
{
    reveal(grow_script);
    let t = sure(host.tree(Request::LoadTree))?;
    sure(host.done(Request::AddSibling { tree: t, beside: beside.to_owned(), node }))?;
    host.done(Request::SaveTree { tree: t })
}

/// Enters a new snapshot in the tree as a tree of its own.
pub fn grow_base(host: &mut Host, node: i32) -> (r: Result<(), Halt>)
    ensures
        ran(old(host)@, final(host)@, r, grow_script(as_base(node))),
{
    reveal(grow_script);
    let t = sure(host.tree(Request::LoadTree))?;
    sure(host.done(Request::AddToBase { tree: t, node }))?;
    host.done(Request::SaveTree { tree: t })
}

fn clone_text(snapshot: &str) -> (r: String)
    ensures
        r@ == clone_of(snapshot@),
        r@.len() > 0,
{
    proof {
        reveal_strlit(".");
    }
    cat3("clone of ", snapshot, ".")
}

/// Branches a snapshot: a copy of it becomes its child.
pub fn branch_create(host: &mut Host, snapshot: &str, desc: &str) -> (r: Result<i32, Halt>)
    ensures
        ran(old(host)@, final(host)@, r, branch_create_script(snapshot@, desc@)),
{
    reveal(branch_create_script);
    let i = find_new(host)?;
    if !exists_at(host, rootfs_path(snapshot))? {
        return Err(failure(ErrorKind::NotFound, missing_text("branch", snapshot)));
    }
    reveal(new_node_script);
    copy_snapshot(host, snapshot, i)?;
    grow_child(host, snapshot, i)?;
    if !desc.is_empty() {
        write_desc(host, number(i).as_str(), desc, true)?;
    }
    Ok(i)
}

/// Clones a snapshot as a tree of its own.
pub fn clone_as_tree(host: &mut Host, snapshot: &str, desc: &str) -> (r: Result<i32, Halt>)
    ensures
        ran(old(host)@, final(host)@, r, clone_as_tree_script(snapshot@, desc@)),
{
    reveal(clone_as_tree_script);
    let i = find_new(host)?;
    if !exists_at(host, rootfs_path(snapshot))? {
        return Err(failure(ErrorKind::NotFound, missing_text("clone", snapshot)));
    }
    reveal(new_node_script);
    copy_snapshot(host, snapshot, i)?;
    grow_base(host, i)?;
    let text = if desc.is_empty() {
        clone_text(snapshot)
    } else {
        desc.to_owned()
    };
    write_desc(host, number(i).as_str(), text.as_str(), true)?;
    Ok(i)
}

/// Clones a snapshot beside it.
pub fn clone_branch(host: &mut Host, snapshot: &str) -> (r: Result<i32, Halt>)
    ensures
        ran(old(host)@, final(host)@, r, clone_branch_script(snapshot@)),
{
    reveal(clone_branch_script);
    let i = find_new(host)?;
    if !exists_at(host, rootfs_path(snapshot))? {
        return Err(failure(ErrorKind::NotFound, missing_text("clone", snapshot)));
    }
    reveal(new_node_script);
    copy_snapshot(host, snapshot, i)?;
    grow_sibling(host, snapshot, i)?;
    write_desc(host, number(i).as_str(), clone_text(snapshot).as_str(), true)?;
    Ok(i)
}

/// Clones `branch` under a snapshot.
pub fn clone_under(host: &mut Host, snapshot: &str, branch: &str) -> (r: Result<i32, Halt>)
    ensures
        ran(old(host)@, final(host)@, r, clone_under_script(snapshot@, branch@)),
{
    reveal(clone_under_script);
    let i = find_new(host)?;
    if !exists_at(host, rootfs_path(snapshot))? {
        return Err(failure(ErrorKind::NotFound, missing_text("clone", snapshot)));
    } else if !exists_at(host, rootfs_path(branch))? {
        return Err(failure(ErrorKind::NotFound, missing_text("clone", branch)));
    }
    reveal(new_node_script);
    copy_snapshot(host, branch, i)?;
    grow_child(host, snapshot, i)?;
    write_desc(host, number(i).as_str(), clone_text(branch).as_str(), true)?;
    Ok(i)
}

fn find_place(list: &Vec<String>, item: &str) -> (r: usize)
    ensures
        r <= list.len(),
        r == place_of(list.deep_view(), item@),
{
    let ghost all = list.deep_view();
    let mut i: usize = 0;
    assert(all.skip(0) =~= all);
    while i < list.len() && !same(list[i].as_str(), item)
        invariant
            i <= list.len(),
            all == list.deep_view(),
            place_of(all, item@) == i + place_of(all.skip(i as int), item@),
        decreases list.len() - i,
    {
        assert(all.skip(i as int).drop_first() =~= all.skip(i + 1));
        i += 1;
    }
    i
}

/// The place of an item is one at which the list has it.
pub proof fn lemma_place_of(list: Seq<Seq<char>>, item: Seq<char>)
    ensures
        0 <= place_of(list, item) <= list.len(),
        list.contains(item) == (place_of(list, item) < list.len()),
        list.contains(item) ==> list[place_of(list, item)] == item,
    decreases list.len(),
{
    if list.len() > 0 && list[0] != item {
        let rest = list.drop_first();
        lemma_place_of(rest, item);
        if list.contains(item) {
            let i = choose|i: int| 0 <= i < list.len() && list[i] == item;
            assert(rest[i - 1] == item);
        }
        if rest.contains(item) {
            assert(list[1 + place_of(rest, item)] == item);
        }
    }
}

fn clone_each(
    host: &mut Host,
    t: u64,
    olds: &Vec<String>,
    news: Vec<String>,
    todo: &Vec<String>,
) -> (r: Result<(), Halt>)
    requires
        olds.len() == news.len(),
        forall|j: int|
            0 <= j < todo.len() ==> olds.deep_view().contains(#[trigger] todo.deep_view()[j]),
    ensures
        ran(
            old(host)@,
            final(host)@,
            r,
            clone_children(t, olds.deep_view(), news.deep_view(), todo.deep_view()),
        ),
{
    let ghost all = todo.deep_view();
    let ghost old_names = olds.deep_view();
    let mut now = news;
    let mut i: usize = 0;
    assert(all.skip(0) =~= all);
    while i < todo.len()
        invariant
            i <= todo.len(),
            all == todo.deep_view(),
            old_names == olds.deep_view(),
            olds.len() == now.len(),
            forall|j: int| 0 <= j < all.len() ==> old_names.contains(#[trigger] all[j]),
            run(old(host)@, clone_children(t, old_names, news.deep_view(), all)) == run(
                host@,
                clone_children(t, old_names, now.deep_view(), all.skip(i as int)),
            ),
        decreases todo.len() - i,
    {
        assert(all.skip(i as int).drop_first() =~= all.skip(i + 1));
        assert(all.skip(i as int)[0] == todo[i as int]@);
        let ghost had = now.deep_view();
        let parent = sure(host.text(Request::ParentOf { tree: t, name: todo[i].clone() }))?;
        let k = find_place(olds, parent.as_str());
        if k >= olds.len() {
            return Err(Halt::Panicked);
        }
        let n = clone_under(host, now[k].as_str(), todo[i].as_str())?;
        let own = find_place(olds, todo[i].as_str());
        proof {
            lemma_place_of(old_names, all[i as int]);
        }
        now.set(own, number(n));
        assert(now.deep_view() =~= had.update(own as int, decimal(n as int)));
        i += 1;
    }
    Ok(())
}

/// Clones a snapshot beside it, and those under it below the clone.
pub fn clone_recursive(host: &mut Host, snapshot: &str) -> (r: Result<(), Halt>)
    ensures
        ran(old(host)@, final(host)@, r, clone_recursive_script(snapshot@)),
{
    reveal(clone_recursive_script);
    if !exists_at(host, rootfs_path(snapshot))? {
        return Err(failure(ErrorKind::NotFound, missing_text("clone", snapshot)));
    }
    let t = sure(host.tree(Request::LoadTree))?;
    let children = host.texts(Request::ChildrenOf { tree: t, name: snapshot.to_owned() })?;
    let n = clone_branch(host, snapshot)?;
    let mut olds: Vec<String> = vec![snapshot.to_owned()];
    let mut news: Vec<String> = vec![number(n)];
    olds.append(&mut copied(&children));
    news.append(&mut copied(&children));
    assert(olds.deep_view() =~= seq![snapshot@] + children.deep_view());
    assert(news.deep_view() =~= seq![decimal(n as int)] + children.deep_view());
    assert(olds.deep_view().len() == news.deep_view().len());
    assert forall|j: int| 0 <= j < children.len() implies olds.deep_view().contains(
        #[trigger] children.deep_view()[j],
    ) by {
        assert(olds.deep_view()[j + 1] == children.deep_view()[j]);
    }
    clone_each(host, t, &olds, news, &children)
}

/// A new tree: a copy of the base snapshot.
pub fn snapshot_base_new(host: &mut Host, desc: &str) -> (r: Result<i32, Halt>)
    ensures
        ran(old(host)@, final(host)@, r, snapshot_base_new_script(desc@)),
{
    reveal(snapshot_base_new_script);
    let i = find_new(host)?;
    let id = number(i);
    host.all_done(copy_requests("0", id.as_str(), true))?;
    grow_base(host, i)?;
    if desc.is_empty() {
        sure(write_desc(host, id.as_str(), "clone of base.", true))?;
    } else {
        sure(write_desc(host, id.as_str(), desc, true))?;
    }
    Ok(i)
}

/// Deploys a clone of the deployment that ran before the last one was made.
pub fn rollback(host: &mut Host) -> (r: Result<(), Halt>)
    ensures
        ran(old(host)@, final(host)@, r, rollback_script(old(host)@.build)),
{
    reveal(rollback_script);
    let i = find_new(host)?;
    let id = number(i);
    clone_as_tree(host, "rollback", "")?;
    write_desc(host, id.as_str(), " rollback ", false)?;
    deploy(host, id.as_str(), false, false)?;
    Ok(())
}

// ---------------------------------------------------------------- mutability

/// The complaint about a change of the base snapshot's mutability.
pub open spec fn base_kept() -> Seq<char> {
    "Snapshot 0 (base) should not be modified."@
}

/// What `immutability_disable` does.
#[verifier::opaque]
pub open spec fn immutability_disable_script(snapshot: Seq<char>) -> Script<()> {
    if snapshot == "0"@ {
        fail(ErrorKind::Unsupported, base_kept())
    } else {
        chain(
            flag(Req::Exists { path: rootfs(snapshot) }),
            |there: bool|
                if !there {
                    fail(ErrorKind::NotFound, "Snapshot "@ + snapshot + " doesn't exist."@)
                } else {
                    chain(
                        check_mutability_script(snapshot),
                        |mutable: bool|
                            if mutable {
                                fail(
                                    ErrorKind::AlreadyExists,
                                    "Snapshot "@ + snapshot + " is already mutable."@,
                                )
                            } else {
                                chain(
                                    crate::script::sure(
                                        done(
                                            Req::SetReadOnly {
                                                path: rootfs(snapshot),
                                                read_only: false,
                                            },
                                        ),
                                    ),
                                    |u: ()|
                                        chain(
                                            done(Req::CreateFile { path: mutable_mark(snapshot) }),
                                            |u: ()|
                                                write_desc_script(snapshot, " MUTABLE "@, false),
                                        ),
                                )
                            },
                    )
                },
        )
    }
}

/// What `immutability_enable` does.
#[verifier::opaque]
pub open spec fn immutability_enable_script(snapshot: Seq<char>) -> Script<()> {
    if snapshot == "0"@ {
        fail(ErrorKind::Unsupported, base_kept())
    } else {
        chain(
            flag(Req::Exists { path: rootfs(snapshot) }),
            |there: bool|
                if !there {
                    fail(ErrorKind::NotFound, "Snapshot "@ + snapshot + " doesn't exist."@)
                } else {
                    chain(
                        check_mutability_script(snapshot),
                        |mutable: bool|
                            if !mutable {
                                fail(
                                    ErrorKind::AlreadyExists,
                                    "Snapshot "@ + snapshot + " is already immutable."@,
                                )
                            } else {
                                chain(
                                    done(Req::RemoveFile { path: mutable_mark(snapshot) }),
                                    |u: ()|
                                        chain(
                                            crate::script::sure(
                                                done(
                                                    Req::SetReadOnly {
                                                        path: rootfs(snapshot),
                                                        read_only: true,
                                                    },
                                                ),
                                            ),
                                            |u: ()| unmark_script(snapshot),
                                        ),
                                )
                            },
                    )
                },
        )
    }
}

/// Takes the mark of a mutable snapshot out of its description.
#[verifier::opaque]
pub open spec fn unmark_script(snapshot: Seq<char>) -> Script<()> {
    chain(
        text(Req::ReadText { path: desc_file(snapshot) }),
        |desc: Seq<char>|
            done(
                Req::WriteText {
                    path: desc_file(snapshot),
                    text: replaced(desc, " MUTABLE "@, ""@),
                },
            ),
    )
}

/// Makes a snapshot mutable.
pub fn immutability_disable(host: &mut Host, snapshot: &str) -> (r: Result<(), Halt>)
    ensures
        ran(old(host)@, final(host)@, r, immutability_disable_script(snapshot@)),
{
    reveal(immutability_disable_script);
    if same(snapshot, "0") {
        return Err(
            failure(
                ErrorKind::Unsupported,
                "Snapshot 0 (base) should not be modified.".to_owned(),
            ),
        );
    }
    if !exists_at(host, rootfs_path(snapshot))? {
        return Err(
            failure(ErrorKind::NotFound, cat3("Snapshot ", snapshot, " doesn't exist.")),
        );
    }
    if check_mutability(host, snapshot)? {
        return Err(
            failure(
                ErrorKind::AlreadyExists,
                cat3("Snapshot ", snapshot, " is already mutable."),
            ),
        );
    }
    sure(host.done(Request::SetReadOnly { path: rootfs_path(snapshot), read_only: false }))?;
    host.done(Request::CreateFile { path: below(snapshot, "/usr/share/ash/mutable") })?;
    write_desc(host, snapshot, " MUTABLE ", false)
}

fn unmark(host: &mut Host, snapshot: &str) -> (r: Result<(), Halt>)
    ensures
        ran(old(host)@, final(host)@, r, unmark_script(snapshot@)),
{
    reveal(unmark_script);
    proof {
        reveal_strlit(" MUTABLE ");
    }
    let path = desc_path(snapshot);
    let desc = host.text(Request::ReadText { path: path.clone() })?;
    host.done(Request::WriteText { path, text: replace(desc.as_str(), " MUTABLE ", "") })
}

/// Makes a snapshot immutable.
pub fn immutability_enable(host: &mut Host, snapshot: &str) -> (r: Result<(), Halt>)
    ensures
        ran(old(host)@, final(host)@, r, immutability_enable_script(snapshot@)),
{
    reveal(immutability_enable_script);
    if same(snapshot, "0") {
        return Err(
            failure(
                ErrorKind::Unsupported,
                "Snapshot 0 (base) should not be modified.".to_owned(),
            ),
        );
    }
    if !exists_at(host, rootfs_path(snapshot))? {
        return Err(
            failure(ErrorKind::NotFound, cat3("Snapshot ", snapshot, " doesn't exist.")),
        );
    }
    if !check_mutability(host, snapshot)? {
        return Err(
            failure(
                ErrorKind::AlreadyExists,
                cat3("Snapshot ", snapshot, " is already immutable."),
            ),
        );
    }
    host.done(Request::RemoveFile { path: below(snapshot, "/usr/share/ash/mutable") })?;
    sure(host.done(Request::SetReadOnly { path: rootfs_path(snapshot), read_only: true }))?;
    unmark(host, snapshot)
}

/// What `update_etc` does.
#[verifier::opaque]
pub open spec fn update_etc_script() -> Script<()> {
    chain(
        get_current_snapshot_script(),
        |snapshot: Seq<char>|
            chain(
                get_tmp_script(),
                |tmp: Seq<char>|
                    if snapshot == "0"@ {
                        fail(ErrorKind::Unsupported, base_fixed())
                    } else {
                        chain(
                            done(drop_volume(Volume::Etc, snapshot)),
                            |u: ()|
                                chain(
                                    check_mutability_script(snapshot),
                                    |mutable: bool|
                                        done(snap(Volume::Etc, tmp, snapshot, !mutable)),
                                ),
                        )
                    },
            ),
    )
}

/// Saves the running configuration in the running snapshot.
pub fn update_etc(host: &mut Host) -> (r: Result<(), Halt>)
    ensures
        ran(old(host)@, final(host)@, r, update_etc_script()),
{
    reveal(update_etc_script);
    let snapshot = get_current_snapshot(host)?;
    let tmp = get_tmp(host)?;
    if same(snapshot.as_str(), "0") {
        return Err(
            failure(
                ErrorKind::Unsupported,
                "Changing base snapshot is not allowed.".to_owned(),
            ),
        );
    }
    host.done(drop_request(Volume::Etc, snapshot.as_str()))?;
    let mutable = check_mutability(host, snapshot.as_str())?;
    host.done(snap_request(Volume::Etc, tmp.as_str(), snapshot.as_str(), !mutable))
}

// ------------------------------------------------------------------ deleting

/// Whether a snapshot may be deleted.
#[verifier::opaque]
pub open spec fn permit_script(
    snapshot: Seq<char>,
    current: Seq<char>,
    next: Seq<char>,
    quiet: bool,
    nuke: bool,
) -> Script<()> {
    if nuke {
        give(())
    } else if snapshot == current {
        fail(ErrorKind::Unsupported, "Cannot delete booted snapshot."@)
    } else if snapshot == next {
        fail(ErrorKind::Unsupported, "Cannot delete deployed snapshot."@)
    } else if quiet {
        give(())
    } else {
        chain(
            confirm("Are you sure you want to delete snapshot "@ + snapshot + "?"@),
            |yes: bool|
                if yes {
                    give(())
                } else {
                    fail(ErrorKind::Interrupted, "Aborted."@)
                },
        )
    }
}

/// Deletes what belongs to a snapshot: its description, its subvolumes and its temporary copy.
#[verifier::opaque]
pub open spec fn erase_one_script(snapshot: Seq<char>) -> Script<()> {
    chain(
        flag(Req::IsFile { path: desc_file(snapshot) }),
        |described: bool|
            chain(
                if described {
                    done(Req::RemoveFile { path: desc_file(snapshot) })
                } else {
                    give(())
                },
                |u: ()| chain(clear_slot(snapshot), |u: ()| clear_slot(chr(snapshot))),
            ),
    )
}

/// `erase_one_script`, as a value.
pub open spec fn erase_one_fn() -> spec_fn(Seq<char>) -> Script<()> {
    |snapshot: Seq<char>| erase_one_script(snapshot)
}

/// Deletes a snapshot and those under it.
#[verifier::opaque]
pub open spec fn erase_script(snapshot: Seq<char>) -> Script<()> {
    chain(
        crate::script::sure(tree(Req::LoadTree)),
        |t: u64|
            chain(
                texts(Req::ChildrenOf { tree: t, name: snapshot }),
                |children: Seq<Seq<char>>|
                    chain(
                        erase_one_script(snapshot),
                        |u: ()|
                            chain(
                                each(children, erase_one_fn()),
                                |u: ()|
                                    chain(
                                        crate::script::sure(
                                            done(Req::RemoveNode { tree: t, name: snapshot }),
                                        ),
                                        |u: ()| done(Req::SaveTree { tree: t }),
                                    ),
                            ),
                    ),
            ),
    )
}

/// Checks a snapshot and deletes it.
#[verifier::opaque]
pub open spec fn delete_one_script(
    snapshot: Seq<char>,
    current: Seq<char>,
    next: Seq<char>,
    quiet: bool,
    nuke: bool,
) -> Script<()> {
    if snapshot == "0"@ {
        fail(ErrorKind::Unsupported, base_fixed())
    } else {
        chain(
            flag(Req::Exists { path: rootfs(snapshot) }),
            |there: bool|
                if !there {
                    fail(ErrorKind::NotFound, missing("delete"@, snapshot))
                } else {
                    chain(
                        permit_script(snapshot, current, next, quiet, nuke),
                        |u: ()| erase_script(snapshot),
                    )
                },
        )
    }
}

/// `delete_one_script`, as a value.
pub open spec fn delete_one_fn(
    current: Seq<char>,
    next: Seq<char>,
    quiet: bool,
    nuke: bool,
) -> spec_fn(Seq<char>) -> Script<()> {
    |snapshot: Seq<char>| delete_one_script(snapshot, current, next, quiet, nuke)
}

/// What `delete_node` does.
#[verifier::opaque]
pub open spec fn delete_node_script(snapshots: Seq<Seq<char>>, quiet: bool, nuke: bool) -> Script<
    (),
> {
    chain(
        get_current_snapshot_script(),
        |current: Seq<char>|
            chain(
                get_next_snapshot_script(),
                |next: Seq<char>| each(snapshots, delete_one_fn(current, next, quiet, nuke)),
            ),
    )
}

fn permit(host: &mut Host, snapshot: &str, current: &str, next: &str, quiet: bool, nuke: bool) -> (r:
    Result<(), Halt>)
    ensures
        ran(
            old(host)@,
            final(host)@,
            r,
            permit_script(snapshot@, current@, next@, quiet, nuke),
        ),
{
    reveal(permit_script);
    if nuke {
        return Ok(());
    }
    if same(snapshot, current) {
        Err(failure(ErrorKind::Unsupported, "Cannot delete booted snapshot.".to_owned()))
    } else if same(snapshot, next) {
        Err(failure(ErrorKind::Unsupported, "Cannot delete deployed snapshot.".to_owned()))
    } else if quiet {
        Ok(())
    } else {
        let msg = cat3("Are you sure you want to delete snapshot ", snapshot, "?");
        if yes_no(host, msg.as_str())? {
            Ok(())
        } else {
            Err(failure(ErrorKind::Interrupted, "Aborted.".to_owned()))
        }
    }
}

fn erase_one(host: &mut Host, snapshot: &str) -> (r: Result<(), Halt>)
    ensures
        ran(old(host)@, final(host)@, r, erase_one_script(snapshot@)),
{
    reveal(erase_one_script);
    let desc = desc_path(snapshot);
    if host.flag(Request::IsFile { path: desc.clone() })? {
        host.done(Request::RemoveFile { path: desc })?;
    }
    delete_slot(host, snapshot)?;
    delete_slot(host, chr_name(snapshot).as_str())
}

fn erase_each(host: &mut Host, list: &Vec<String>) -> (r: Result<(), Halt>)
    ensures
        ran(old(host)@, final(host)@, r, each(list.deep_view(), erase_one_fn())),
{
    let ghost all = list.deep_view();
    let mut i: usize = 0;
    assert(all.skip(0) =~= all);
    while i < list.len()
        invariant
            i <= list.len(),
            all == list.deep_view(),
            run(old(host)@, each(all, erase_one_fn())) == run(
                host@,
                each(all.skip(i as int), erase_one_fn()),
            ),
        decreases list.len() - i,
    {
        assert(all.skip(i as int).drop_first() =~= all.skip(i + 1));
        assert(all.skip(i as int)[0] == list[i as int]@);
        erase_one(host, list[i].as_str())?;
        i += 1;
    }
    Ok(())
}

fn erase(host: &mut Host, snapshot: &str) -> (r: Result<(), Halt>)
    ensures
        ran(old(host)@, final(host)@, r, erase_script(snapshot@)),
{
    reveal(erase_script);
    let t = sure(host.tree(Request::LoadTree))?;
    let children = host.texts(Request::ChildrenOf { tree: t, name: snapshot.to_owned() })?;
    erase_one(host, snapshot)?;
    erase_each(host, &children)?;
    sure(host.done(Request::RemoveNode { tree: t, name: snapshot.to_owned() }))?;
    host.done(Request::SaveTree { tree: t })
}

fn delete_one(host: &mut Host, snapshot: &str, current: &str, next: &str, quiet: bool, nuke: bool) -> (r:
    Result<(), Halt>)
    ensures
        ran(
            old(host)@,
            final(host)@,
            r,
            delete_one_script(snapshot@, current@, next@, quiet, nuke),
        ),
{
    reveal(delete_one_script);
    if same(snapshot, "0") {
        return Err(
            failure(
                ErrorKind::Unsupported,
                "Changing base snapshot is not allowed.".to_owned(),
            ),
        );
    }
    if !exists_at(host, rootfs_path(snapshot))? {
        return Err(failure(ErrorKind::NotFound, missing_text("delete", snapshot)));
    }
    permit(host, snapshot, current, next, quiet, nuke)?;
    erase(host, snapshot)
}

/// Deletes snapshots, each with those under it.
pub fn delete_node(host: &mut Host, snapshots: &Vec<String>, quiet: bool, nuke: bool) -> (r: Result<
    (),
    Halt,
>)
    ensures
        ran(
            old(host)@,
            final(host)@,
            r,
            delete_node_script(snapshots.deep_view(), quiet, nuke),
        ),
{
    reveal(delete_node_script);
    let current = get_current_snapshot(host)?;
    let next = get_next_snapshot(host)?;
    let ghost all = snapshots.deep_view();
    let ghost f = delete_one_fn(current@, next@, quiet, nuke);
    let mut i: usize = 0;
    assert(all.skip(0) =~= all);
    while i < snapshots.len()
        invariant
            i <= snapshots.len(),
            all == snapshots.deep_view(),
            f == delete_one_fn(current@, next@, quiet, nuke),
            run(old(host)@, delete_node_script(all, quiet, nuke)) == run(
                host@,
                each(all.skip(i as int), f),
            ),
        decreases snapshots.len() - i,
    {
        assert(all.skip(i as int).drop_first() =~= all.skip(i + 1));
        assert(all.skip(i as int)[0] == snapshots[i as int]@);
        delete_one(host, snapshots[i].as_str(), current.as_str(), next.as_str(), quiet, nuke)?;
        i += 1;
    }
    Ok(())
}

// --------------------------------------------------------- temporary copies

/// Whether a path is that of a subvolume of a temporary copy.
pub open spec fn temporary(path: Seq<char>) -> bool {
    ||| holds(path, "snapshot-chr"@)
    ||| holds(path, "var-chr"@)
    ||| holds(path, "etc-chr"@)
    ||| holds(path, "boot-chr"@)
}

/// Deletes a subvolume of a temporary copy, unless it is mounted. A path that is no text is not
/// provided for.
pub open spec fn clear_temporary() -> spec_fn(Seq<char>) -> Script<()> {
    |path: Seq<char>|
        if holds(path, "\0"@) {
            crash()
        } else if temporary(path) {
            chain(
                is_mounted_script(path),
                |mounted: bool|
                    if mounted {
                        warn(path + " is busy."@)
                    } else {
                        done(Req::DeleteSubvolume { path })
                    },
            )
        } else {
            give(())
        }
}

/// What `temp_snapshots_clear` does.
#[verifier::opaque]
pub open spec fn temp_snapshots_clear_script() -> Script<()> {
    chain(subvolumes_script(), |paths: Seq<Seq<char>>| each(paths, clear_temporary()))
}

fn is_temporary(path: &str) -> (r: bool)
    ensures
        r == temporary(path@),
{
    contains(path, "snapshot-chr") || contains(path, "var-chr") || contains(path, "etc-chr")
        || contains(path, "boot-chr")
}

/// Deletes all temporary copies that are not mounted.
pub fn temp_snapshots_clear(host: &mut Host) -> (r: Result<(), Halt>)
    ensures
        ran(old(host)@, final(host)@, r, temp_snapshots_clear_script()),
{
    reveal(temp_snapshots_clear_script);
    let paths = subvolumes(host)?;
    let ghost all = paths.deep_view();
    let mut i: usize = 0;
    assert(all.skip(0) =~= all);
    while i < paths.len()
        invariant
            i <= paths.len(),
            all == paths.deep_view(),
            run(old(host)@, temp_snapshots_clear_script()) == run(
                host@,
                each(all.skip(i as int), clear_temporary()),
            ),
        decreases paths.len() - i,
    {
        assert(all.skip(i as int).drop_first() =~= all.skip(i + 1));
        assert(all.skip(i as int)[0] == paths[i as int]@);
        let path = paths[i].as_str();
        if contains(path, "\0") {
            return Err(Halt::Panicked);
        }
        if is_temporary(path) {
            if is_mounted(host, path)? {
                host.warn(cat(path, " is busy."))?;
            } else {
                host.done(Request::DeleteSubvolume { path: path.to_owned() })?;
            }
        }
        i += 1;
    }
    Ok(())
}

// --------------------------------------------------------------------- laws

/// The number of a new snapshot is the lowest that no subvolume has.
pub proof fn law_free_number(paths: Seq<Seq<char>>, from: int)
    requires
        1 <= from,
    ensures
        match free_number(paths, from) {
            Some(i) => from <= i && unused(paths, i as int) && forall|j: int|
                from <= j < i ==> !#[trigger] unused(paths, j),
            None => forall|j: int| from <= j <= i32::MAX ==> !#[trigger] unused(paths, j),
        },
    decreases i32::MAX + 1 - from,
{
    if from <= i32::MAX && !unused(paths, from) {
        law_free_number(paths, from + 1);
    }
}

/// The mark that a description gets when its snapshot is made mutable is taken out again when
/// it is made immutable, unless the description makes up such a mark before it.
pub proof fn law_mutable_mark(desc: Seq<char>)
    requires
        forall|i: int|
            0 <= i < desc.len() ==> !#[trigger] occurs_at(desc + " MUTABLE "@, " MUTABLE "@, i),
    ensures
        replaced(desc + " MUTABLE "@, " MUTABLE "@, ""@) == desc,
{
    reveal_strlit(" MUTABLE ");
    reveal_strlit("");
    assert(""@ =~= seq![]);
    lemma_replaced_tail(desc, " MUTABLE "@);
}

/// The base snapshot is not deleted, nor, unless that is forced, the one that is running or the
/// one that is deployed beside it: nothing is asked for but whether the snapshot is there.
pub proof fn law_delete_refused(
    snapshot: Seq<char>,
    current: Seq<char>,
    next: Seq<char>,
    quiet: bool,
    nuke: bool,
)
    requires
        snapshot == "0"@ || (!nuke && (snapshot == current || snapshot == next)),
    ensures
        asks_only(
            delete_one_script(snapshot, current, next, quiet, nuke),
            |req: Req| req is Exists,
        ),
        fails(delete_one_script(snapshot, current, next, quiet, nuke)),
{
    broadcast use crate::script::group_asks;
    broadcast use {
        crate::script::lemma_stuck_asks,
        crate::script::lemma_stuck_fails,
        crate::script::lemma_ends_follow,
    };

    reveal(delete_one_script);
    reveal(permit_script);
    let p = permit_script(snapshot, current, next, quiet, nuke);
    if snapshot != "0"@ {
        assert(fails(p));
    }
}

/// A request deletes no subvolume.
pub open spec fn deletes_nothing() -> spec_fn(Req) -> bool {
    |req: Req| !(req is DeleteSubvolume)
}

proof fn lemma_find_new_deletes_nothing()
    ensures
        asks_only(find_new_script(), deletes_nothing()),
{
    broadcast use crate::script::group_asks;

    reveal(find_new_script);
    reveal(subvolumes_script);
    reveal(full_list_script);
}

broadcast proof fn lemma_new_node_deletes_nothing(
    snapshot: Seq<char>,
    i: i32,
    entry: spec_fn(u64) -> Req,
    desc: Seq<char>,
)
    requires
        forall|t: u64| !((#[trigger] entry(t)) is DeleteSubvolume),
    ensures
        #[trigger] asks_only(new_node_script(snapshot, i, entry, desc), deletes_nothing()),
{
    broadcast use crate::script::group_asks;

    reveal(new_node_script);
    reveal(copy_snapshot_script);
    reveal(grow_script);
    reveal(write_desc_script);
    reveal(check_mutability_script);
}

/// To branch or to clone a snapshot deletes nothing.
pub proof fn law_clones_delete_nothing(snapshot: Seq<char>, branch: Seq<char>, desc: Seq<char>)
    ensures
        asks_only(branch_create_script(snapshot, desc), deletes_nothing()),
        asks_only(clone_as_tree_script(snapshot, desc), deletes_nothing()),
        asks_only(clone_branch_script(snapshot), deletes_nothing()),
        asks_only(clone_under_script(snapshot, branch), deletes_nothing()),
        asks_only(snapshot_base_new_script(desc), deletes_nothing()),
{
    broadcast use crate::script::group_asks;
    broadcast use lemma_new_node_deletes_nothing;

    lemma_find_new_deletes_nothing();
    assert(asks_only(branch_create_script(snapshot, desc), deletes_nothing())) by {
        reveal(branch_create_script);
    }
    assert(asks_only(clone_as_tree_script(snapshot, desc), deletes_nothing())) by {
        reveal(clone_as_tree_script);
    }
    assert(asks_only(clone_branch_script(snapshot), deletes_nothing())) by {
        reveal(clone_branch_script);
    }
    assert(asks_only(clone_under_script(snapshot, branch), deletes_nothing())) by {
        reveal(clone_under_script);
    }
    assert(asks_only(snapshot_base_new_script(desc), deletes_nothing())) by {
        reveal(snapshot_base_new_script);
        reveal(grow_script);
        reveal(write_desc_script);
    }
}

/// A text that lacks a character of `p` does not hold `p`.
proof fn lemma_lacks(s: Seq<char>, p: Seq<char>, k: int)
    requires
        0 <= k < p.len(),
        !s.contains(p[k]),
    ensures
        !holds(s, p),
{
    assert forall|i: int| !occurs_at(s, p, i) by {
        if occurs_at(s, p, i) {
            assert(s.subrange(i, i + p.len())[k] == s[i + k]);
        }
    }
}

/// Decimal digits are no letters.
proof fn lemma_digits(n: nat)
    ensures
        forall|i: int| 0 <= i < digits(n).len() ==> (#[trigger] digits(n)[i]) <= '9',
    decreases n,
{
    if n >= 10 {
        lemma_digits(n / 10);
        assert forall|i: int| 0 <= i < digits(n).len() implies (#[trigger] digits(n)[i]) <= '9' by {
            if i < digits(n / 10).len() {
                assert(digits(n)[i] == digits(n / 10)[i]);
            } else {
                assert(digits(n)[i] == digit((n % 10) as int));
            }
        }
    } else {
        assert(digits(n)[0] == digit(n as int));
    }
}

/// The subvolumes of a snapshot with a number are not those of a temporary copy.
proof fn lemma_not_temporary(v: Volume, n: nat)
    ensures
        !temporary(volume(v, digits(n))),
{
    lemma_digits(n);
    reveal_strlit("/.snapshots/rootfs/snapshot-");
    reveal_strlit("/.snapshots/etc/etc-");
    reveal_strlit("/.snapshots/var/var-");
    reveal_strlit("/.snapshots/boot/boot-");
    reveal_strlit("snapshot-chr");
    reveal_strlit("var-chr");
    reveal_strlit("etc-chr");
    reveal_strlit("boot-chr");
    let path = volume(v, digits(n));
    if v is Etc {
        assert(!path.contains('r'));
        lemma_lacks(path, "snapshot-chr"@, 11);
        lemma_lacks(path, "var-chr"@, 6);
        lemma_lacks(path, "etc-chr"@, 6);
        lemma_lacks(path, "boot-chr"@, 7);
    } else {
        assert(!path.contains('c'));
        lemma_lacks(path, "snapshot-chr"@, 9);
        lemma_lacks(path, "var-chr"@, 4);
        lemma_lacks(path, "etc-chr"@, 4);
        lemma_lacks(path, "boot-chr"@, 5);
    }
}

/// Clearing away temporary copies deletes nothing but their subvolumes: those of a snapshot with
/// a number stay.
pub proof fn law_clear_spares_snapshots(v: Volume, n: nat)
    ensures
        asks_only(
            temp_snapshots_clear_script(),
            |req: Req|
                match req {
                    Req::DeleteSubvolume { path } => temporary(path) && path != volume(
                        v,
                        digits(n),
                    ),
                    _ => true,
                },
        ),
{
    broadcast use crate::script::group_asks;

    lemma_not_temporary(v, n);
    reveal(temp_snapshots_clear_script);
    reveal(subvolumes_script);
    reveal(full_list_script);
    reveal(is_mounted_script);
}

}
