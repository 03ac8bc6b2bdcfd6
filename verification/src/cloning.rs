//! What cloning a whole tree comes to: the clones stand to each other as the snapshots do that
//! they were made of.

use vstd::prelude::*;
use crate::deployment::check_mutability_script;
use crate::guard::missing;
use crate::model::{
    leads, lemma_leads_all_done, lemma_leads_chain, lemma_leads_keeping, lemma_leads_sure,
    lemma_leads_text, lemma_leads_weaker, Model,
};
use crate::paths::{copy_plan, has_path, mutable_mark, rootfs, volume, Volume};
use crate::request::{Answer, ErrorKind, Fault, Req};
use crate::script::{
    all_done, as_listing, as_texts, asks_only, chain, crash, done, fail, flag, give, listing, sure,
    text, texts, tree, Script,
};
use crate::snapshots::{
    as_child, as_sibling, clone_below, clone_branch_script, clone_children, clone_of,
    clone_recursive_script, clone_rest, clone_under_script, copy_snapshot_script, find_new_script,
    free_number, full_list_script, grow_script, law_free_number, lemma_place_of, new_node_script,
    place_of, subvolumes_script, unused, write_desc_script,
};
use crate::text::decimal;

verus! {

/// A snapshot, those below it, and the parents that they have.
pub struct Family {
    pub snapshot: Seq<char>,
    pub children: Seq<Seq<char>>,
    pub parents: Map<Seq<char>, Seq<char>>,
}

/// For each root that was made as a snapshot, the root that it was made of.
pub type Copies = Map<Seq<char>, Seq<char>>;

impl Family {
    /// The snapshot and those below it.
    pub open spec fn members(self) -> Seq<Seq<char>> {
        seq![self.snapshot] + self.children
    }

    /// No snapshot is listed twice, and each is listed after its parent.
    pub open spec fn in_order(self) -> bool {
        &&& self.members().no_duplicates()
        &&& forall|j: int|
            0 <= j < self.children.len() ==> self.members().take(j + 1).contains(
                self.parents[#[trigger] self.children[j]],
            )
    }
}

/// The snapshot `c` was made of the snapshot `x`.
pub open spec fn is_clone(s: Copies, c: Seq<char>, x: Seq<char>) -> bool {
    s.contains_key(rootfs(c)) && s[rootfs(c)] == rootfs(x)
}

/// The members were not made anew.
pub open spec fn aside(f: Family, s: Copies) -> bool {
    forall|x: Seq<char>| #[trigger] f.members().contains(x) ==> !s.contains_key(rootfs(x))
}

/// The list has the roots of the members and all roots that were made.
pub open spec fn known(f: Family, s: Copies, list: Seq<Seq<char>>) -> bool {
    &&& forall|id: Seq<char>|
        s.contains_key(#[trigger] rootfs(id)) ==> list.contains(rootfs(id))
    &&& forall|x: Seq<char>| #[trigger] f.members().contains(x) ==> list.contains(rootfs(x))
}

/// Neither a member nor a clone has the number.
pub open spec fn fresh(f: Family, s: Copies, i: i32) -> bool {
    &&& !s.contains_key(rootfs(decimal(i as int)))
    &&& forall|x: Seq<char>| #[trigger]
        f.members().contains(x) ==> rootfs(x) != rootfs(decimal(i as int))
}

/// Surroundings in which the tree is that of the family, and directories hold what was made.
pub open spec fn around(f: Family) -> Model<Copies> {
    Model {
        fits: |s: Copies, req: Req, a: Answer|
            match (req, a) {
                (Req::ListDir { path }, Answer::Listing(list, None)) => path
                    == "/.snapshots/rootfs"@ ==> known(f, s, list),
                (Req::ParentOf { tree, name }, Answer::Text(parent)) => f.children.contains(name)
                    ==> parent == f.parents[name],
                (Req::ChildrenOf { tree, name }, Answer::Texts(list)) => name == f.snapshot ==> list
                    == f.children,
                _ => true,
            },
        step: |s: Copies, req: Req, a: Answer|
            match req {
                Req::SnapshotSubvolume { from, to, read_only } => if a is Done {
                    s.insert(to, from)
                } else {
                    s
                },
                _ => s,
            },
    }
}

/// A request enters no node in the tree but clones: the clone of the snapshot beside it, and the
/// clone of one below it under the clone of its parent. The family itself gains no node.
pub open spec fn grows_alike(f: Family) -> spec_fn(Copies, Req) -> bool {
    |s: Copies, req: Req|
        match req {
            Req::AddSibling { tree, beside, node } => beside == f.snapshot && is_clone(
                s,
                decimal(node as int),
                f.snapshot,
            ),
            Req::AddChild { tree, parent, node } => !f.members().contains(parent) && exists|
                x: Seq<char>,
            | #[trigger]
                f.children.contains(x) && is_clone(s, decimal(node as int), x) && is_clone(
                    s,
                    parent,
                    f.parents[x],
                ),
            Req::AddToBase { .. } => false,
            Req::RemoveNode { .. } => false,
            _ => true,
        }
}

/// Nothing was made meanwhile.
pub open spec fn stays<T>(s: Copies) -> spec_fn(Copies, T) -> bool {
    |now: Copies, v: T| now == s
}

/// A request makes no subvolume, and enters only what may be entered.
pub open spec fn quiet(f: Family, s: Copies) -> spec_fn(Req) -> bool {
    |req: Req| !(req is SnapshotSubvolume) && grows_alike(f)(s, req)
}

proof fn lemma_quiet<T>(p: Script<T>, f: Family, s: Copies)
    requires
        asks_only(p, quiet(f, s)),
    ensures
        leads(p, around(f), s, grows_alike(f), stays(s)),
{
    let inv = |now: Copies| now == s;
    lemma_leads_keeping(p, around(f), s, grows_alike(f), inv, quiet(f, s));
    lemma_leads_weaker(p, around(f), s, grows_alike(f), |now: Copies, v: T| inv(now), stays(s));
}

// -------------------------------------------------------------- new numbers

/// The list is that of a directory; that of the roots has all that was made.
pub open spec fn listed(f: Family, s: Copies, dir: Seq<char>) -> spec_fn(
    Copies,
    Seq<Seq<char>>,
) -> bool {
    |now: Copies, list: Seq<Seq<char>>|
        now == s && (dir == "/.snapshots/rootfs"@ ==> known(f, s, list))
}

proof fn lemma_full_list(f: Family, s: Copies, dir: Seq<char>)
    ensures
        leads(full_list_script(dir), around(f), s, grows_alike(f), listed(f, s, dir)),
{
    let m = around(f);
    let ok = grows_alike(f);
    let req = Req::ListDir { path: dir };
    let mid = |now: Copies, found: (Seq<Seq<char>>, Option<Fault>)|
        now == s && (dir == "/.snapshots/rootfs"@ && found.1 is None ==> known(f, s, found.0));
    assert(leads(listing(req), m, s, ok, mid)) by {
        reveal_with_fuel(leads, 2);
        if let Script::Ask(_, k) = listing(req) {
            assert forall|a: Answer| #[trigger] (m.fits)(s, req, a) implies leads(
                k(a),
                m,
                (m.step)(s, req, a),
                ok,
                mid,
            ) by {
                assert(k(a) == Script::<(Seq<Seq<char>>, Option<Fault>)>::End(as_listing(a)));
            }
        }
    }
    lemma_leads_sure(listing(req), m, s, ok, mid);
    let k = |found: (Seq<Seq<char>>, Option<Fault>)|
        match found.1 {
            Some(_) => crash(),
            None => give(found.0),
        };
    lemma_leads_chain(sure(listing(req)), k, m, s, ok, mid, listed(f, s, dir));
    reveal(full_list_script);
    assert(full_list_script(dir) == chain(sure(listing(req)), k));
}

/// The list has all that was made.
pub open spec fn all_listed(f: Family, s: Copies) -> spec_fn(Copies, Seq<Seq<char>>) -> bool {
    |now: Copies, list: Seq<Seq<char>>| now == s && known(f, s, list)
}

proof fn lemma_known_more(f: Family, s: Copies, list: Seq<Seq<char>>, more: Seq<Seq<char>>)
    requires
        known(f, s, list),
    ensures
        known(f, s, list + more),
{
    assert forall|path: Seq<char>| list.contains(path) implies #[trigger] (list + more).contains(
        path,
    ) by {
        let i = choose|i: int| 0 <= i < list.len() && list[i] == path;
        assert((list + more)[i] == path);
    }
}

proof fn lemma_subvolumes(f: Family, s: Copies)
    ensures
        leads(subvolumes_script(), around(f), s, grows_alike(f), all_listed(f, s)),
{
    let m = around(f);
    let ok = grows_alike(f);
    let end = all_listed(f, s);
    let (d1, d2, d3, d4) = (
        "/.snapshots/boot"@,
        "/.snapshots/etc"@,
        "/.snapshots/var"@,
        "/.snapshots/rootfs"@,
    );
    lemma_full_list(f, s, d1);
    lemma_full_list(f, s, d2);
    lemma_full_list(f, s, d3);
    lemma_full_list(f, s, d4);
    let k1 = |boots: Seq<Seq<char>>|
        chain(
            full_list_script(d2),
            |etcs: Seq<Seq<char>>|
                chain(
                    full_list_script(d3),
                    |vars: Seq<Seq<char>>|
                        chain(
                            full_list_script(d4),
                            |roots: Seq<Seq<char>>| give(roots + vars + etcs + boots),
                        ),
                ),
        );
    assert forall|now: Copies, boots: Seq<Seq<char>>| #[trigger]
        listed(f, s, d1)(now, boots) implies leads(k1(boots), m, now, ok, end) by {
        let k2 = |etcs: Seq<Seq<char>>|
            chain(
                full_list_script(d3),
                |vars: Seq<Seq<char>>|
                    chain(
                        full_list_script(d4),
                        |roots: Seq<Seq<char>>| give(roots + vars + etcs + boots),
                    ),
            );
        assert forall|now: Copies, etcs: Seq<Seq<char>>| #[trigger]
            listed(f, s, d2)(now, etcs) implies leads(k2(etcs), m, now, ok, end) by {
            let k3 = |vars: Seq<Seq<char>>|
                chain(
                    full_list_script(d4),
                    |roots: Seq<Seq<char>>| give(roots + vars + etcs + boots),
                );
            assert forall|now: Copies, vars: Seq<Seq<char>>| #[trigger]
                listed(f, s, d3)(now, vars) implies leads(k3(vars), m, now, ok, end) by {
                let k4 = |roots: Seq<Seq<char>>| give(roots + vars + etcs + boots);
                assert forall|now: Copies, roots: Seq<Seq<char>>| #[trigger]
                    listed(f, s, d4)(now, roots) implies leads(k4(roots), m, now, ok, end) by {
                    lemma_known_more(f, s, roots, vars);
                    lemma_known_more(f, s, roots + vars, etcs);
                    lemma_known_more(f, s, roots + vars + etcs, boots);
                }
                lemma_leads_chain(full_list_script(d4), k4, m, s, ok, listed(f, s, d4), end);
            }
            lemma_leads_chain(full_list_script(d3), k3, m, s, ok, listed(f, s, d3), end);
        }
        lemma_leads_chain(full_list_script(d2), k2, m, s, ok, listed(f, s, d2), end);
    }
    lemma_leads_chain(full_list_script(d1), k1, m, s, ok, listed(f, s, d1), end);
    reveal(subvolumes_script);
    assert(subvolumes_script() == chain(full_list_script(d1), k1));
}

/// The number is a new one.
pub open spec fn new_number(f: Family, s: Copies) -> spec_fn(Copies, i32) -> bool {
    |now: Copies, i: i32| now == s && fresh(f, s, i)
}

proof fn lemma_find_new(f: Family, s: Copies)
    ensures
        leads(find_new_script(), around(f), s, grows_alike(f), new_number(f, s)),
{
    let m = around(f);
    let ok = grows_alike(f);
    let k = |paths: Seq<Seq<char>>|
        match free_number(paths, 1) {
            Some(i) => give(i),
            None => crash(),
        };
    lemma_subvolumes(f, s);
    assert forall|now: Copies, paths: Seq<Seq<char>>| #[trigger]
        all_listed(f, s)(now, paths) implies leads(k(paths), m, now, ok, new_number(f, s)) by {
        law_free_number(paths, 1);
        if let Some(i) = free_number(paths, 1) {
            let root = rootfs(decimal(i as int));
            assert(unused(paths, i as int));
            if paths.contains(root) {
                let j = choose|j: int| 0 <= j < paths.len() && paths[j] == root;
                assert(has_path(paths, root));
            }
        }
    }
    lemma_leads_chain(subvolumes_script(), k, m, s, ok, all_listed(f, s), new_number(f, s));
    reveal(find_new_script);
    assert(find_new_script() == chain(subvolumes_script(), k));
}

// ----------------------------------------------------------------- new nodes

/// What was made, and the four subvolumes of the snapshot `x` as those of the number `i`.
pub open spec fn with_clone(s: Copies, x: Seq<char>, i: i32) -> Copies {
    let id = decimal(i as int);
    s.insert(volume(Volume::Boot, id), volume(Volume::Boot, x)).insert(
        volume(Volume::Etc, id),
        volume(Volume::Etc, x),
    ).insert(volume(Volume::Var, id), volume(Volume::Var, x)).insert(rootfs(id), rootfs(x))
}

proof fn lemma_other_volume(v: Volume, a: Seq<char>, b: Seq<char>)
    requires
        !(v is Rootfs),
    ensures
        volume(v, a) != rootfs(b),
{
    reveal_strlit("/.snapshots/boot/boot-");
    reveal_strlit("/.snapshots/etc/etc-");
    reveal_strlit("/.snapshots/var/var-");
    reveal_strlit("/.snapshots/rootfs/snapshot-");
    assert(volume(v, a)[12] != rootfs(b)[12]);
}

proof fn lemma_with_clone(f: Family, s: Copies, x: Seq<char>, i: i32)
    requires
        aside(f, s),
        fresh(f, s, i),
    ensures
        aside(f, with_clone(s, x, i)),
        is_clone(with_clone(s, x, i), decimal(i as int), x),
        forall|c: Seq<char>, y: Seq<char>| #[trigger]
            is_clone(s, c, y) ==> is_clone(with_clone(s, x, i), c, y),
{
    let id = decimal(i as int);
    assert forall|c: Seq<char>| #[trigger] rootfs(c) != rootfs(id) implies with_clone(
        s,
        x,
        i,
    ).contains_key(rootfs(c)) == s.contains_key(rootfs(c)) && with_clone(s, x, i)[rootfs(c)]
        == s[rootfs(c)] by {
        lemma_other_volume(Volume::Boot, id, c);
        lemma_other_volume(Volume::Etc, id, c);
        lemma_other_volume(Volume::Var, id, c);
    }
}

proof fn lemma_copy(f: Family, s: Copies, x: Seq<char>, i: i32)
    ensures
        leads(
            copy_snapshot_script(x, i),
            around(f),
            s,
            grows_alike(f),
            stays(with_clone(s, x, i)),
        ),
{
    broadcast use crate::script::group_asks;

    let m = around(f);
    let ok = grows_alike(f);
    let id = decimal(i as int);
    let end = with_clone(s, x, i);
    let look = check_mutability_script(x);
    assert(asks_only(look, quiet(f, s))) by {
        reveal(check_mutability_script);
    }
    lemma_quiet(look, f, s);
    let mark = Req::CreateFile { path: mutable_mark(id) };
    lemma_quiet(done(mark), f, end);
    let k = |mutable: bool|
        chain(
            all_done(copy_plan(x, id, !mutable)),
            |u: ()|
                if mutable {
                    done(Req::CreateFile { path: mutable_mark(id) })
                } else {
                    give(())
                },
        );
    assert forall|now: Copies, mutable: bool| #[trigger]
        stays::<bool>(s)(now, mutable) implies leads(k(mutable), m, now, ok, stays(end)) by {
        let plan = copy_plan(x, id, !mutable);
        let s1 = s.insert(volume(Volume::Boot, id), volume(Volume::Boot, x));
        let s2 = s1.insert(volume(Volume::Etc, id), volume(Volume::Etc, x));
        let s3 = s2.insert(volume(Volume::Var, id), volume(Volume::Var, x));
        let inv = |n: int, now: Copies|
            now == if n == 0 {
                s
            } else if n == 1 {
                s1
            } else if n == 2 {
                s2
            } else if n == 3 {
                s3
            } else {
                end
            };
        lemma_leads_all_done(plan, m, s, ok, inv, 0);
        lemma_leads_weaker(
            all_done(plan),
            m,
            s,
            ok,
            |now: Copies, u: ()| inv(0int + plan.len(), now),
            stays(end),
        );
        let after = |u: ()|
            if mutable {
                done(Req::CreateFile { path: mutable_mark(id) })
            } else {
                give(())
            };
        lemma_leads_chain(all_done(plan), after, m, s, ok, stays(end), stays(end));
    }
    lemma_leads_chain(look, k, m, s, ok, stays(s), stays(end));
    reveal(copy_snapshot_script);
    assert(copy_snapshot_script(x, i) == chain(look, k));
}

/// The clone of `x` was made, under the number that was given.
pub open spec fn clone_made(f: Family, s: Copies, x: Seq<char>) -> spec_fn(Copies, i32) -> bool {
    |now: Copies, i: i32| fresh(f, s, i) && now == with_clone(s, x, i)
}

proof fn lemma_new_node(
    f: Family,
    s: Copies,
    x: Seq<char>,
    i: i32,
    entry: spec_fn(u64) -> Req,
    desc: Seq<char>,
)
    requires
        fresh(f, s, i),
        forall|t: u64| quiet(f, with_clone(s, x, i))(#[trigger] entry(t)),
    ensures
        leads(
            new_node_script(x, i, entry, desc),
            around(f),
            s,
            grows_alike(f),
            clone_made(f, s, x),
        ),
{
    broadcast use crate::script::group_asks;

    let m = around(f);
    let ok = grows_alike(f);
    let s1 = with_clone(s, x, i);
    let end = clone_made(f, s, x);
    let describe = if desc.len() > 0 {
        write_desc_script(decimal(i as int), desc, true)
    } else {
        give(())
    };
    assert(asks_only(describe, quiet(f, s1))) by {
        reveal(write_desc_script);
    }
    assert(asks_only(grow_script(entry), quiet(f, s1))) by {
        reveal(grow_script);
    }
    lemma_copy(f, s, x, i);
    lemma_quiet(grow_script(entry), f, s1);
    lemma_quiet(describe, f, s1);
    let k3 = |u: ()| give(i);
    lemma_leads_chain(describe, k3, m, s1, ok, stays(s1), end);
    let k2 = |u: ()|
        chain(
            if desc.len() > 0 {
                write_desc_script(decimal(i as int), desc, true)
            } else {
                give(())
            },
            |u: ()| give(i),
        );
    lemma_leads_chain(grow_script(entry), k2, m, s1, ok, stays(s1), end);
    let k1 = |u: ()|
        chain(
            grow_script(entry),
            |u: ()|
                chain(
                    if desc.len() > 0 {
                        write_desc_script(decimal(i as int), desc, true)
                    } else {
                        give(())
                    },
                    |u: ()| give(i),
                ),
        );
    lemma_leads_chain(copy_snapshot_script(x, i), k1, m, s, ok, stays(s1), end);
    reveal(new_node_script);
    assert(new_node_script(x, i, entry, desc) == chain(copy_snapshot_script(x, i), k1));
}

proof fn lemma_clone_branch(f: Family, s: Copies)
    requires
        aside(f, s),
    ensures
        leads(
            clone_branch_script(f.snapshot),
            around(f),
            s,
            grows_alike(f),
            clone_made(f, s, f.snapshot),
        ),
{
    broadcast use crate::script::group_asks;

    let m = around(f);
    let ok = grows_alike(f);
    let x = f.snapshot;
    let end = clone_made(f, s, x);
    let look = flag(Req::Exists { path: rootfs(x) });
    lemma_find_new(f, s);
    lemma_quiet(look, f, s);
    let k = |i: i32|
        chain(
            flag(Req::Exists { path: rootfs(x) }),
            |there: bool|
                if !there {
                    fail(ErrorKind::NotFound, missing("clone"@, x))
                } else {
                    new_node_script(x, i, as_sibling(x, i), clone_of(x))
                },
        );
    assert forall|now: Copies, i: i32| #[trigger] new_number(f, s)(now, i) implies leads(
        k(i),
        m,
        now,
        ok,
        end,
    ) by {
        lemma_with_clone(f, s, x, i);
        assert forall|t: u64| quiet(f, with_clone(s, x, i))(#[trigger] as_sibling(x, i)(t)) by {
            assert(as_sibling(x, i)(t) == (Req::AddSibling { tree: t, beside: x, node: i }));
        }
        lemma_new_node(f, s, x, i, as_sibling(x, i), clone_of(x));
        let go = |there: bool|
            if !there {
                fail(ErrorKind::NotFound, missing("clone"@, x))
            } else {
                new_node_script(x, i, as_sibling(x, i), clone_of(x))
            };
        lemma_leads_chain(look, go, m, s, ok, stays(s), end);
    }
    lemma_leads_chain(find_new_script(), k, m, s, ok, new_number(f, s), end);
    reveal(clone_branch_script);
    assert(clone_branch_script(x) == chain(find_new_script(), k));
}

proof fn lemma_clone_under(f: Family, s: Copies, parent: Seq<char>, x: Seq<char>)
    requires
        aside(f, s),
        f.children.contains(x),
        is_clone(s, parent, f.parents[x]),
    ensures
        leads(
            clone_under_script(parent, x),
            around(f),
            s,
            grows_alike(f),
            clone_made(f, s, x),
        ),
{
    broadcast use crate::script::group_asks;

    let m = around(f);
    let ok = grows_alike(f);
    let end = clone_made(f, s, x);
    lemma_find_new(f, s);
    let look = flag(Req::Exists { path: rootfs(parent) });
    let look2 = flag(Req::Exists { path: rootfs(x) });
    lemma_quiet(look, f, s);
    lemma_quiet(look2, f, s);
    let k = |i: i32|
        chain(
            flag(Req::Exists { path: rootfs(parent) }),
            |there: bool|
                if !there {
                    fail(ErrorKind::NotFound, missing("clone"@, parent))
                } else {
                    chain(
                        flag(Req::Exists { path: rootfs(x) }),
                        |branch_there: bool|
                            if !branch_there {
                                fail(ErrorKind::NotFound, missing("clone"@, x))
                            } else {
                                new_node_script(x, i, as_child(parent, i), clone_of(x))
                            },
                    )
                },
        );
    assert forall|now: Copies, i: i32| #[trigger] new_number(f, s)(now, i) implies leads(
        k(i),
        m,
        now,
        ok,
        end,
    ) by {
        let s1 = with_clone(s, x, i);
        lemma_with_clone(f, s, x, i);
        assert(!f.members().contains(parent));
        assert forall|t: u64| quiet(f, s1)(#[trigger] as_child(parent, i)(t)) by {
            assert(as_child(parent, i)(t) == (Req::AddChild { tree: t, parent, node: i }));
            assert(f.children.contains(x) && is_clone(s1, decimal(i as int), x) && is_clone(
                s1,
                parent,
                f.parents[x],
            ));
        }
        lemma_new_node(f, s, x, i, as_child(parent, i), clone_of(x));
        let go2 = |branch_there: bool|
            if !branch_there {
                fail(ErrorKind::NotFound, missing("clone"@, x))
            } else {
                new_node_script(x, i, as_child(parent, i), clone_of(x))
            };
        lemma_leads_chain(look2, go2, m, s, ok, stays(s), end);
        let go = |there: bool|
            if !there {
                fail(ErrorKind::NotFound, missing("clone"@, parent))
            } else {
                chain(
                    flag(Req::Exists { path: rootfs(x) }),
                    |branch_there: bool|
                        if !branch_there {
                            fail(ErrorKind::NotFound, missing("clone"@, x))
                        } else {
                            new_node_script(x, i, as_child(parent, i), clone_of(x))
                        },
                )
            };
        lemma_leads_chain(look, go, m, s, ok, stays(s), end);
    }
    lemma_leads_chain(find_new_script(), k, m, s, ok, new_number(f, s), end);
    reveal(clone_under_script);
    assert(clone_under_script(parent, x) == chain(find_new_script(), k));
}

// ------------------------------------------------------------- the whole tree

/// Each of the first `n` members has a clone of its own: that which `news` has in its place.
pub open spec fn cloned_to(f: Family, s: Copies, news: Seq<Seq<char>>, n: int) -> bool {
    &&& news.len() == f.members().len()
    &&& aside(f, s)
    &&& forall|j: int| 0 <= j < n ==> is_clone(s, #[trigger] news[j], f.members()[j])
}

/// Each member has a clone.
pub open spec fn all_cloned(f: Family) -> spec_fn(Copies, ()) -> bool {
    |s: Copies, u: ()|
        exists|news: Seq<Seq<char>>| #[trigger] cloned_to(f, s, news, f.members().len() as int)
}

proof fn lemma_clone_children(f: Family, t: u64, s: Copies, news: Seq<Seq<char>>, n: int)
    requires
        f.in_order(),
        1 <= n <= f.members().len(),
        cloned_to(f, s, news, n),
    ensures
        leads(
            clone_children(t, f.members(), news, f.children.skip(n - 1)),
            around(f),
            s,
            grows_alike(f),
            all_cloned(f),
        ),
    decreases f.members().len() - n,
{
    let m = around(f);
    let ok = grows_alike(f);
    let olds = f.members();
    let todo = f.children.skip(n - 1);
    if todo.len() > 0 {
        let one = todo[0];
        let rest = todo.drop_first();
        let parent = f.parents[one];
        let req = Req::ParentOf { tree: t, name: one };
        let found = |now: Copies, p: Seq<char>| now == s && p == parent;
        assert(f.children[n - 1] == one);
        assert(f.children.contains(one));
        assert(rest =~= f.children.skip(n));
        assert(olds[n] == one);
        assert(olds.contains(one));
        lemma_place_of(olds, one);
        assert(place_of(olds, one) == n);
        let k = place_of(olds, parent);
        assert(olds.take(n).contains(parent));
        let j = choose|j: int| 0 <= j < n && olds.take(n)[j] == parent;
        assert(olds[j] == parent);
        assert(olds.contains(parent));
        lemma_place_of(olds, parent);
        assert(k == j);
        lemma_leads_text(req, m, s, ok, found);
        lemma_leads_sure(text(req), m, s, ok, found);
        let next = clone_rest(t, olds, news, n, rest);
        let end = clone_made(f, s, one);
        lemma_clone_under(f, s, news[k], one);
        assert forall|now: Copies, i: i32| #[trigger] end(now, i) implies leads(
            next(i),
            m,
            now,
            ok,
            all_cloned(f),
        ) by {
            let more = news.update(n, decimal(i as int));
            lemma_with_clone(f, s, one, i);
            assert forall|l: int| 0 <= l < n + 1 implies is_clone(
                now,
                #[trigger] more[l],
                olds[l],
            ) by {
                if l < n {
                    assert(is_clone(s, news[l], olds[l]));
                }
            }
            lemma_clone_children(f, t, now, more, n + 1);
        }
        lemma_leads_chain(clone_under_script(news[k], one), next, m, s, ok, end, all_cloned(f));
        let below = clone_below(t, olds, news, one, rest);
        assert(below(parent) == chain(clone_under_script(news[k], one), next));
        lemma_leads_chain(sure(text(req)), below, m, s, ok, found, all_cloned(f));
    } else {
        assert(cloned_to(f, s, news, olds.len() as int));
    }
}

/// Cloning a whole tree makes one clone of each of its snapshots. The clone of the topmost one
/// comes to stand beside it, and every other clone under the clone of its parent; the tree that
/// was cloned gains no node.
pub proof fn law_whole_tree(f: Family)
    requires
        f.in_order(),
    ensures
        leads(
            clone_recursive_script(f.snapshot),
            around(f),
            Map::empty(),
            grows_alike(f),
            all_cloned(f),
        ),
{
    broadcast use crate::script::group_asks;

    let m = around(f);
    let ok = grows_alike(f);
    let x = f.snapshot;
    let none: Copies = Map::empty();
    let end = all_cloned(f);
    let look = flag(Req::Exists { path: rootfs(x) });
    let load = sure(tree(Req::LoadTree));
    lemma_quiet(look, f, none);
    lemma_quiet(load, f, none);
    lemma_clone_branch(f, none);
    let k2 = |t: u64|
        chain(
            texts(Req::ChildrenOf { tree: t, name: x }),
            |children: Seq<Seq<char>>|
                chain(
                    clone_branch_script(x),
                    |i: i32|
                        clone_children(
                            t,
                            seq![x] + children,
                            seq![decimal(i as int)] + children,
                            children,
                        ),
                ),
        );
    assert forall|now: Copies, t: u64| #[trigger] stays::<u64>(none)(now, t) implies leads(
        k2(t),
        m,
        now,
        ok,
        end,
    ) by {
        let req = Req::ChildrenOf { tree: t, name: x };
        let found = |now: Copies, list: Seq<Seq<char>>| now == none && list == f.children;
        assert(leads(texts(req), m, none, ok, found)) by {
            reveal_with_fuel(leads, 2);
            if let Script::Ask(_, k) = texts(req) {
                assert forall|a: Answer| #[trigger] (m.fits)(none, req, a) implies leads(
                    k(a),
                    m,
                    (m.step)(none, req, a),
                    ok,
                    found,
                ) by {
                    assert(k(a) == Script::<Seq<Seq<char>>>::End(as_texts(a)));
                }
            }
        }
        let k3 = |children: Seq<Seq<char>>|
            chain(
                clone_branch_script(x),
                |i: i32|
                    clone_children(
                        t,
                        seq![x] + children,
                        seq![decimal(i as int)] + children,
                        children,
                    ),
            );
        let children = f.children;
        let k4 = |i: i32|
            clone_children(t, seq![x] + children, seq![decimal(i as int)] + children, children);
        let made = clone_made(f, none, x);
        assert forall|now: Copies, i: i32| #[trigger] made(now, i) implies leads(
            k4(i),
            m,
            now,
            ok,
            end,
        ) by {
            lemma_with_clone(f, none, x, i);
            assert(children.skip(0) =~= children);
            lemma_clone_children(f, t, now, seq![decimal(i as int)] + children, 1);
        }
        lemma_leads_chain(clone_branch_script(x), k4, m, none, ok, made, end);
        assert(k3(children) == chain(clone_branch_script(x), k4));
        lemma_leads_chain(texts(req), k3, m, none, ok, found, end);
    }
    lemma_leads_chain(load, k2, m, none, ok, stays(none), end);
    let k1 = |there: bool|
        if !there {
            fail(ErrorKind::NotFound, missing("clone"@, x))
        } else {
            chain(load, k2)
        };
    lemma_leads_chain(look, k1, m, none, ok, stays(none), end);
    reveal(clone_recursive_script);
    assert(clone_recursive_script(x) == chain(look, k1));
}

}
