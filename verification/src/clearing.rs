//! What the operations that remove things come to.

use vstd::prelude::*;
use crate::chroots::{
    chr_delete_script, collect, collect_all, copy_three, drop_hard, drop_there, drop_three,
    fill_three, identity_script, keep_copy, post_transactions_script, prepare_script,
    snapshot_unlock_script,
};
use crate::config::snapshot_config_get_script;
use crate::deployment::{
    aux_tmp, backup_script, check_mutability_script, clear_slot, deploy_beside, deploy_plan,
    deploy_script, deployed_script, enter_dirs_script, get_current_snapshot_script,
    get_next_snapshot_script, get_tmp_script, mounts_script, place_script, running_slot,
    tmp_delete_script, writable_script,
};
use crate::dirs::{
    allow_dir_mut_script, entries_script, mount_dirs_script, mount_mutable_dirs_script, remove_any,
    remove_dir_content_script, unmount_mutable_dirs_script,
};
use crate::mounting::all_in;
use crate::mounts::{
    ash_mounts_script, ash_umounts_script, is_efi_script, is_mounted_script, release,
};
use crate::paths::{chr, rootfs, snap, volume, Volume};
use crate::placing::{all_of_it, got_note, looked};
use crate::record::{did, got, in_turn, others, record, record_each};
use crate::request::{Answer, Fault, Req};
use crate::script::{
    all_done, asks_only, chain, done, each, flag, give, run, sure, text, texts, tree, Build,
    Session,
};
use crate::snapshots::{
    delete_node_script, delete_one_fn, delete_one_script, deletes_nothing, erase_one_fn,
    erase_one_script, erase_script, permit_script,
};
use crate::text::lines;

verus! {

/// It was asked whether something is there, and where it is, it was removed.
pub open spec fn removed_if(ask: Req, there: bool, removals: Seq<Req>) -> Seq<(Req, Answer)> {
    seq![(ask, Answer::Flag(there))] + if there {
        did(removals)
    } else {
        did(seq![])
    }
}

/// The four subvolumes of a snapshot were deleted where its root is there.
pub open spec fn cleared(id: Seq<char>, there: bool) -> Seq<(Req, Answer)> {
    removed_if(
        Req::Exists { path: rootfs(id) },
        there,
        seq![
            Req::DeleteSubvolume { path: volume(Volume::Boot, id) },
            Req::DeleteSubvolume { path: volume(Volume::Etc, id) },
            Req::DeleteSubvolume { path: volume(Volume::Var, id) },
            Req::DeleteSubvolume { path: rootfs(id) },
        ],
    )
}

proof fn lemma_clear_slot(s: Session, id: Seq<char>) -> (there: bool)
    requires
        run(s, clear_slot(id)).out is Ok,
    ensures
        record(s, clear_slot(id), all_of_it()) == cleared(id, there),
{
    broadcast use crate::record::group_ok;

    reveal(clear_slot);
    assert(record(s, clear_slot(id), all_of_it()).len() >= 0);
    let there = s.next() == Answer::Flag(true);
    assert(record(s, clear_slot(id), all_of_it()) =~= cleared(id, there));
    there
}

/// `tmp_delete` deletes the deployment beside the one that runs, of the kind that was asked for,
/// and nothing else.
pub proof fn law_tmp_delete(s: Session, secondary: bool)
    ensures
        run(s, tmp_delete_script(secondary)).out is Ok ==> exists|content: Seq<char>, there: bool|
            record(s, tmp_delete_script(secondary), all_of_it()) == looked(content)
                + #[trigger] cleared(aux_tmp(running_slot(lines(content)), secondary), there),
{
    broadcast use crate::record::group_ok;

    let p = tmp_delete_script(secondary);
    reveal(tmp_delete_script);
    reveal(get_tmp_script);
    reveal(mounts_script);
    if run(s, p).out is Ok {
        assert(record(s, p, all_of_it()).len() >= 0);
        assert(record(s, get_tmp_script(), all_of_it()).len() >= 0);
        let content = s.next()->Text_0;
        let t = run(s, get_tmp_script()).now;
        let there = lemma_clear_slot(t, aux_tmp(running_slot(lines(content)), secondary));
        assert(record(s, p, all_of_it()) =~= looked(content) + cleared(
            aux_tmp(running_slot(lines(content)), secondary),
            there,
        ));
    }
}

/// Asking whether something is there, and deleting subvolumes.
pub open spec fn clearings() -> spec_fn(Req) -> bool {
    |req: Req| req is Exists || req is DeleteSubvolume
}

/// A subvolume was deleted where it is there.
pub open spec fn dropped(v: Volume, id: Seq<char>, there: bool) -> Seq<(Req, Answer)> {
    removed_if(
        Req::Exists { path: volume(v, id) },
        there,
        seq![Req::DeleteSubvolume { path: volume(v, id) }],
    )
}

proof fn lemma_drop_there(s: Session, v: Volume, id: Seq<char>) -> (there: bool)
    requires
        run(s, drop_there(v, id)).out is Ok,
    ensures
        record(s, drop_there(v, id), clearings()) == dropped(v, id, there),
{
    broadcast use crate::record::group_ok;

    reveal(drop_there);
    assert(record(s, drop_there(v, id), clearings()).len() >= 0);
    let there = s.next() == Answer::Flag(true);
    assert(record(s, drop_there(v, id), clearings()) =~= dropped(v, id, there));
    there
}

/// The boot, etc and var subvolumes of a snapshot were deleted where they are there.
pub open spec fn dropped_three(d: Seq<(Req, Answer)>, id: Seq<char>) -> bool {
    exists|boot: bool, etc: bool, var: bool|
        d == #[trigger] dropped(Volume::Boot, id, boot) + #[trigger] dropped(Volume::Etc, id, etc)
            + #[trigger] dropped(Volume::Var, id, var)
}

proof fn lemma_drop_three(s: Session, id: Seq<char>)
    requires
        run(s, drop_three(id)).out is Ok,
    ensures
        dropped_three(record(s, drop_three(id), clearings()), id),
{
    broadcast use crate::record::group_ok;

    reveal(drop_three);
    let p = drop_three(id);
    assert(record(s, p, clearings()).len() >= 0);
    let boot = lemma_drop_there(s, Volume::Boot, id);
    let t = run(s, drop_there(Volume::Boot, id)).now;
    let etc = lemma_drop_there(t, Volume::Etc, id);
    let t = run(t, drop_there(Volume::Etc, id)).now;
    let var = lemma_drop_there(t, Volume::Var, id);
    assert(record(s, p, clearings()) =~= dropped(Volume::Boot, id, boot) + dropped(
        Volume::Etc,
        id,
        etc,
    ) + dropped(Volume::Var, id, var));
}

/// A subvolume was deleted, if need be at the second try.
pub open spec fn dropped_hard(d: Seq<(Req, Answer)>, path: Seq<char>) -> bool {
    let order = Req::DeleteSubvolume { path };
    ||| d == did(seq![order])
    ||| exists|e: Fault| d == #[trigger] tried_again(order, e)
}

/// A request failed, and worked when it was made again.
pub open spec fn tried_again(order: Req, e: Fault) -> Seq<(Req, Answer)> {
    seq![(order, Answer::Failed(e)), (order, Answer::Done)]
}

proof fn lemma_drop_hard(s: Session, path: Seq<char>)
    requires
        run(s, drop_hard(path)).out is Ok,
    ensures
        dropped_hard(record(s, drop_hard(path), clearings()), path),
{
    broadcast use crate::record::group_ok;

    reveal(drop_hard);
    let d = record(s, drop_hard(path), clearings());
    assert(d.len() >= 0);
    let order = Req::DeleteSubvolume { path };
    assert(asks_only(remove_dir_content_script(path), others(clearings()))) by {
        broadcast use crate::script::group_asks;

        reveal(remove_dir_content_script);
        reveal(entries_script);
        reveal(remove_any);
    }
    if s.next() is Done {
        assert(d =~= did(seq![order]));
    } else {
        assert(d =~= tried_again(order, s.next()->Failed_0));
    }
}

/// The root of a snapshot was found not to be there, or was deleted.
pub open spec fn dropped_root(d: Seq<(Req, Answer)>, id: Seq<char>) -> bool {
    let ask = Req::Exists { path: rootfs(id) };
    ||| d == seq![(ask, Answer::Flag(false))]
    ||| exists|last: Seq<(Req, Answer)>|
        #[trigger] dropped_hard(last, rootfs(id)) && d == seq![(ask, Answer::Flag(true))] + last
}

/// Each of the four subvolumes of a snapshot was found not to be there, or was deleted, and no
/// other subvolume was.
pub open spec fn wiped(d: Seq<(Req, Answer)>, id: Seq<char>) -> bool {
    exists|three: Seq<(Req, Answer)>, root: Seq<(Req, Answer)>|
        #[trigger] dropped_three(three, id) && #[trigger] dropped_root(root, id) && d == three
            + root
}

/// After a `chr_delete` that succeeds, each of the four subvolumes of the temporary copy of the
/// snapshot was found not to be there, or was deleted. No other subvolume was deleted.
pub proof fn law_chr_delete(s: Session, snapshot: Seq<char>)
    ensures
        run(s, chr_delete_script(snapshot)).out is Ok ==> wiped(
            record(s, chr_delete_script(snapshot), clearings()),
            chr(snapshot),
        ),
{
    broadcast use crate::record::group_ok;

    let p = chr_delete_script(snapshot);
    let id = chr(snapshot);
    reveal(chr_delete_script);
    if run(s, p).out is Ok {
        assert(record(s, p, clearings()).len() >= 0);
        lemma_drop_three(s, id);
        let three = record(s, drop_three(id), clearings());
        let t = run(s, drop_three(id)).now;
        let ask = Req::Exists { path: rootfs(id) };
        if t.next() == Answer::Flag(true) {
            let u = run(t, flag(ask)).now;
            lemma_drop_hard(u, rootfs(id));
            let last = record(u, drop_hard(rootfs(id)), clearings());
            let root = seq![(ask, Answer::Flag(true))] + last;
            assert(dropped_root(root, id));
            assert(record(s, p, clearings()) =~= three + root);
        } else {
            let root = seq![(ask, Answer::Flag(false))];
            assert(dropped_root(root, id));
            assert(record(s, p, clearings()) =~= three + root);
        }
    }
}

/// A `snapshot_unlock` that succeeds does nothing where the root of the temporary copy is not
/// there. Where it is there, the four subvolumes of the temporary copy are deleted.
pub proof fn law_snapshot_unlock(s: Session, snapshot: Seq<char>)
    ensures
        run(s, snapshot_unlock_script(snapshot)).out is Ok ==> ({
            let d = record(s, snapshot_unlock_script(snapshot), clearings());
            let ask = Req::Exists { path: rootfs(chr(snapshot)) };
            ||| d == seq![(ask, Answer::Flag(false))]
            ||| exists|three: Seq<(Req, Answer)>, root: Seq<(Req, Answer)>|
                #[trigger] dropped_three(three, chr(snapshot)) && #[trigger] dropped_hard(
                    root,
                    rootfs(chr(snapshot)),
                ) && d == seq![(ask, Answer::Flag(true))] + three + root
        }),
{
    broadcast use crate::record::group_ok;

    let p = snapshot_unlock_script(snapshot);
    let id = chr(snapshot);
    let path = rootfs(id);
    reveal(snapshot_unlock_script);
    if run(s, p).out is Ok {
        assert(record(s, p, clearings()).len() >= 0);
        assert(asks_only(is_mounted_script(path), others(clearings()))) by {
            broadcast use crate::script::group_asks;

            reveal(is_mounted_script);
        }
        let ask = Req::Exists { path };
        if s.next() == Answer::Flag(true) {
            let t = run(s, flag(ask)).now;
            let mounted = run(t, is_mounted_script(path)).out->Ok_0;
            let t = run(t, is_mounted_script(path)).now;
            let t = if mounted {
                run(t, done(Req::Unmount { target: path, detach: true })).now
            } else {
                t
            };
            lemma_drop_three(t, id);
            let three = record(t, drop_three(id), clearings());
            let t = run(t, drop_three(id)).now;
            lemma_drop_hard(t, path);
            let root = record(t, drop_hard(path), clearings());
            assert(record(s, p, clearings()) =~= seq![(ask, Answer::Flag(true))] + three + root);
        } else {
            assert(record(s, p, clearings()) =~= seq![(ask, Answer::Flag(false))]);
        }
    }
}

// ----------------------------------------------------------------- deleting

/// Looking for subvolumes, deleting them, removing descriptions, and changing the tree.
pub open spec fn erasures() -> spec_fn(Req) -> bool {
    |req: Req|
        match req {
            Req::Exists { .. } => true,
            Req::DeleteSubvolume { .. } => true,
            Req::RemoveFile { .. } => true,
            Req::LoadTree => true,
            Req::ChildrenOf { .. } => true,
            Req::RemoveNode { .. } => true,
            Req::SaveTree { .. } => true,
            _ => false,
        }
}

/// The description of a snapshot was removed, if there is one.
pub open spec fn undescribed(id: Seq<char>, described: bool) -> Seq<(Req, Answer)> {
    if described {
        did(seq![Req::RemoveFile { path: "/.snapshots/ash/snapshots/"@ + id + "-desc"@ }])
    } else {
        did(seq![])
    }
}

/// A snapshot was erased: its description removed if there is one, and its subvolumes and those
/// of its temporary copy deleted where they are there.
pub open spec fn erased_one(d: Seq<(Req, Answer)>, id: Seq<char>) -> bool {
    exists|described: bool, there: bool, busy: bool|
        #![trigger undescribed(id, described), cleared(id, there), cleared(chr(id), busy)]
        d == undescribed(id, described) + cleared(id, there) + cleared(chr(id), busy)
}

/// The same, as a demand on a record and a snapshot.
pub open spec fn erasing() -> spec_fn(Seq<(Req, Answer)>, Seq<char>) -> bool {
    |d: Seq<(Req, Answer)>, id: Seq<char>| erased_one(d, id)
}

/// A snapshot and what is below it in the tree were erased, and it was taken out of the tree,
/// which was saved.
pub open spec fn erased_all(d: Seq<(Req, Answer)>, snapshot: Seq<char>) -> bool {
    exists|
        t: u64,
        children: Seq<Seq<char>>,
        own: Seq<(Req, Answer)>,
        below: Seq<(Req, Answer)>,
    |
        #[trigger] erased_one(own, snapshot) && #[trigger] in_turn(below, children, erasing()) && d
            == #[trigger] family(snapshot, t, children) + own + below + did(
            seq![Req::RemoveNode { tree: t, name: snapshot }, Req::SaveTree { tree: t }],
        )
}

/// It was found out what is below a snapshot in the tree.
pub open spec fn family(snapshot: Seq<char>, t: u64, children: Seq<Seq<char>>) -> Seq<(Req, Answer)> {
    seq![
        (Req::LoadTree, Answer::Tree(t)),
        (Req::ChildrenOf { tree: t, name: snapshot }, Answer::Texts(children)),
    ]
}

/// A snapshot is there and was deleted.
pub open spec fn deleted_one(d: Seq<(Req, Answer)>, snapshot: Seq<char>) -> bool {
    exists|rest: Seq<(Req, Answer)>|
        #[trigger] erased_all(rest, snapshot) && d == seq![
            (Req::Exists { path: rootfs(snapshot) }, Answer::Flag(true)),
        ] + rest
}

/// The same, as a demand on a record and a snapshot.
pub open spec fn deleting() -> spec_fn(Seq<(Req, Answer)>, Seq<char>) -> bool {
    |d: Seq<(Req, Answer)>, id: Seq<char>| deleted_one(d, id)
}

proof fn lemma_clear_slot_too(s: Session, id: Seq<char>) -> (there: bool)
    requires
        run(s, clear_slot(id)).out is Ok,
    ensures
        record(s, clear_slot(id), erasures()) == cleared(id, there),
{
    broadcast use crate::record::group_ok;

    reveal(clear_slot);
    assert(record(s, clear_slot(id), erasures()).len() >= 0);
    let there = s.next() == Answer::Flag(true);
    assert(record(s, clear_slot(id), erasures()) =~= cleared(id, there));
    there
}

proof fn lemma_erase_one(s: Session, id: Seq<char>)
    requires
        run(s, erase_one_script(id)).out is Ok,
    ensures
        erased_one(record(s, erase_one_script(id), erasures()), id),
{
    broadcast use crate::record::group_ok;

    let p = erase_one_script(id);
    reveal(erase_one_script);
    assert(record(s, p, erasures()).len() >= 0);
    let described = s.next() == Answer::Flag(true);
    let desc = crate::paths::desc_file(id);
    let t = run(s, flag(Req::IsFile { path: desc })).now;
    let t = if described {
        run(t, done(Req::RemoveFile { path: desc })).now
    } else {
        t
    };
    let there = lemma_clear_slot_too(t, id);
    let t = run(t, clear_slot(id)).now;
    let busy = lemma_clear_slot_too(t, chr(id));
    assert(record(s, p, erasures()) =~= undescribed(id, described) + cleared(id, there) + cleared(
        chr(id),
        busy,
    ));
}

proof fn lemma_erase(s: Session, snapshot: Seq<char>)
    requires
        run(s, erase_script(snapshot)).out is Ok,
    ensures
        erased_all(record(s, erase_script(snapshot), erasures()), snapshot),
{
    broadcast use crate::record::group_ok;

    let p = erase_script(snapshot);
    reveal(erase_script);
    assert(record(s, p, erasures()).len() >= 0);
    let n = s.next()->Tree_0;
    let t = run(s, sure(tree(Req::LoadTree))).now;
    let children = t.next()->Texts_0;
    let t = run(t, texts(Req::ChildrenOf { tree: n, name: snapshot })).now;
    lemma_erase_one(t, snapshot);
    let own = record(t, erase_one_script(snapshot), erasures());
    let t = run(t, erase_one_script(snapshot)).now;
    assert forall|u: Session, x: Seq<char>| run(u, erase_one_fn()(x)).out is Ok implies erasing()(
        #[trigger] record(u, erase_one_fn()(x), erasures()),
        x,
    ) by {
        lemma_erase_one(u, x);
    }
    record_each(t, children, erase_one_fn(), erasures(), erasing());
    let below = record(t, each(children, erase_one_fn()), erasures());
    assert(erased_one(own, snapshot) && in_turn(below, children, erasing()));
    assert(record(s, p, erasures()) =~= family(snapshot, n, children) + own + below + did(
        seq![Req::RemoveNode { tree: n, name: snapshot }, Req::SaveTree { tree: n }],
    ));
}

proof fn lemma_delete_one(
    s: Session,
    snapshot: Seq<char>,
    current: Seq<char>,
    next: Seq<char>,
    quiet: bool,
    nuke: bool,
)
    requires
        run(s, delete_one_script(snapshot, current, next, quiet, nuke)).out is Ok,
    ensures
        deleted_one(
            record(s, delete_one_script(snapshot, current, next, quiet, nuke), erasures()),
            snapshot,
        ),
{
    broadcast use crate::record::group_ok;

    let p = delete_one_script(snapshot, current, next, quiet, nuke);
    reveal(delete_one_script);
    assert(record(s, p, erasures()).len() >= 0);
    let may = permit_script(snapshot, current, next, quiet, nuke);
    assert(asks_only(may, others(erasures()))) by {
        broadcast use crate::script::group_asks;

        reveal(permit_script);
    }
    let ask = Req::Exists { path: rootfs(snapshot) };
    let t = run(s, flag(ask)).now;
    let t = run(t, may).now;
    lemma_erase(t, snapshot);
    let rest = record(t, erase_script(snapshot), erasures());
    assert(record(s, p, erasures()) =~= seq![(ask, Answer::Flag(true))] + rest);
}

/// A `delete_node` that succeeds deletes the given snapshots in order, each with what is below it
/// in the tree, and deletes nothing else.
pub proof fn law_delete_node(s: Session, snapshots: Seq<Seq<char>>, quiet: bool, nuke: bool)
    ensures
        run(s, delete_node_script(snapshots, quiet, nuke)).out is Ok ==> in_turn(
            record(s, delete_node_script(snapshots, quiet, nuke), erasures()),
            snapshots,
            deleting(),
        ),
{
    broadcast use crate::record::group_ok;

    let p = delete_node_script(snapshots, quiet, nuke);
    reveal(delete_node_script);
    if run(s, p).out is Ok {
        assert(record(s, p, erasures()).len() >= 0);
        assert(asks_only(get_current_snapshot_script(), others(erasures())) && asks_only(
            get_next_snapshot_script(),
            others(erasures()),
        )) by {
            broadcast use crate::script::group_asks;

            reveal(get_current_snapshot_script);
            reveal(get_next_snapshot_script);
            reveal(get_tmp_script);
            reveal(mounts_script);
            reveal(deployed_script);
        }
        let current = run(s, get_current_snapshot_script()).out->Ok_0;
        let t = run(s, get_current_snapshot_script()).now;
        let next = run(t, get_next_snapshot_script()).out->Ok_0;
        let t = run(t, get_next_snapshot_script()).now;
        let f = delete_one_fn(current, next, quiet, nuke);
        assert forall|u: Session, x: Seq<char>| run(u, f(x)).out is Ok implies deleting()(
            #[trigger] record(u, f(x), erasures()),
            x,
        ) by {
            lemma_delete_one(u, x, current, next, quiet, nuke);
        }
        record_each(t, snapshots, f, erasures(), deleting());
        assert(record(s, p, erasures()) =~= record(
            t,
            each(snapshots, delete_one_fn(current, next, quiet, nuke)),
            erasures(),
        ));
    }
}

// ------------------------------------------------- what keeping and deploying delete

/// It was asked whether something is there.
pub open spec fn sought_at(path: Seq<char>, there: bool) -> Seq<(Req, Answer)> {
    seq![(Req::Exists { path }, Answer::Flag(there))]
}

broadcast proof fn still_empty(dir: Seq<char>)
    ensures
        #[trigger] asks_only(remove_dir_content_script(dir), others(clearings())),
{
    broadcast use crate::script::group_asks;

    reveal(remove_dir_content_script);
    reveal(entries_script);
    reveal(remove_any);
}

broadcast proof fn still_collect(snapshot: Seq<char>)
    ensures
        #[trigger] asks_only(collect_all(snapshot), others(clearings())),
{
    broadcast use {crate::script::group_asks, still_empty};

    assert forall|v: Volume, rest: Seq<char>| asks_only(
        #[trigger] collect(v, snapshot, rest),
        others(clearings()),
    ) by {
        reveal(collect);
    }
    reveal(collect_all);
}

broadcast proof fn still_config(build: Build, snapshot: Seq<char>)
    ensures
        #[trigger] asks_only(snapshot_config_get_script(build, snapshot), others(clearings())),
{
    broadcast use crate::script::group_asks;

    reveal(snapshot_config_get_script);
}

broadcast proof fn still_unmount(build: Build, id: Seq<char>, named: Seq<char>)
    ensures
        #[trigger] asks_only(unmount_mutable_dirs_script(build, id, named), others(clearings())),
{
    broadcast use {crate::script::group_asks, still_config};

    reveal(unmount_mutable_dirs_script);
    reveal(allow_dir_mut_script);
    reveal(is_mounted_script);
}

proof fn lemma_keep_clears(s: Session, id: Seq<char>, snapshot: Seq<char>) -> (mutable: bool)
    requires
        run(s, keep_copy(id, snapshot)).out is Ok,
    ensures
        record(s, keep_copy(id, snapshot), clearings()) == sought_at(
            rootfs(id) + "/usr/share/ash/mutable"@,
            mutable,
        ),
{
    broadcast use {crate::record::group_ok, crate::script::lemma_asks_all_done};

    reveal(keep_copy);
    let p = keep_copy(id, snapshot);
    assert(record(s, p, clearings()).len() >= 0);
    let mutable = s.next() == Answer::Flag(true);
    assert(record(s, p, clearings()) =~= sought_at(rootfs(id) + "/usr/share/ash/mutable"@, mutable));
    mutable
}

proof fn lemma_umounts_clears(s: Session, i: Seq<char>, prefix: Seq<char>) -> (efi: bool)
    requires
        run(s, ash_umounts_script(i, prefix)).out is Ok,
    ensures
        record(s, ash_umounts_script(i, prefix), clearings()) == sought_at(
            "/sys/firmware/efi"@,
            efi,
        ),
{
    broadcast use {crate::record::group_ok, crate::script::lemma_asks_all_done};

    reveal(ash_umounts_script);
    let p = ash_umounts_script(i, prefix);
    let root = rootfs(prefix + i);
    assert(record(s, p, clearings()).len() >= 0);
    let t = run(s, done(release(root, "/etc/resolv.conf"@, false))).now;
    assert(record(t, is_efi_script(), clearings()).len() >= 0);
    let efi = t.next() == Answer::Flag(true);
    assert(record(s, p, clearings()) =~= sought_at("/sys/firmware/efi"@, efi));
    efi
}

/// A `post_transactions` that succeeds deletes each of the four subvolumes of the snapshot that is
/// there before they are made anew, and each of the four of the temporary copy that is there at the
/// end. It deletes nothing else.
pub proof fn law_post_transactions_clears(s: Session, build: Build, snapshot: Seq<char>)
    ensures
        run(s, post_transactions_script(build, snapshot)).out is Ok ==> exists|
            three: Seq<(Req, Answer)>,
            root: bool,
            mutable: bool,
            efi: bool,
            last: Seq<(Req, Answer)>,
        |
            #![trigger dropped_three(three, snapshot), dropped(Volume::Rootfs, snapshot, root), sought_at(rootfs(chr(snapshot)) + "/usr/share/ash/mutable"@, mutable), sought_at("/sys/firmware/efi"@, efi), wiped(last, chr(snapshot))]
            dropped_three(three, snapshot) && wiped(last, chr(snapshot)) && record(
                s,
                post_transactions_script(build, snapshot),
                clearings(),
            ) == three + dropped(Volume::Rootfs, snapshot, root) + sought_at(
                rootfs(chr(snapshot)) + "/usr/share/ash/mutable"@,
                mutable,
            ) + sought_at("/sys/firmware/efi"@, efi) + last,
{
    broadcast use {crate::record::group_ok, still_collect, still_unmount};

    let p = post_transactions_script(build, snapshot);
    reveal(post_transactions_script);
    if run(s, p).out is Ok {
        assert(record(s, p, clearings()).len() >= 0);
        let id = chr(snapshot);
        let t = run(s, collect_all(snapshot)).now;
        lemma_drop_three(t, snapshot);
        let three = record(t, drop_three(snapshot), clearings());
        let t = run(t, drop_three(snapshot)).now;
        let root = lemma_drop_there(t, Volume::Rootfs, snapshot);
        let t = run(t, drop_there(Volume::Rootfs, snapshot)).now;
        let mutable = lemma_keep_clears(t, id, snapshot);
        let t = run(t, keep_copy(id, snapshot)).now;
        let efi = lemma_umounts_clears(t, snapshot, "chr"@);
        let t = run(t, ash_umounts_script(snapshot, "chr"@)).now;
        let t = run(t, unmount_mutable_dirs_script(build, snapshot, snapshot)).now;
        law_chr_delete(t, snapshot);
        let last = record(t, chr_delete_script(snapshot), clearings());
        assert(dropped_three(three, snapshot) && wiped(last, id));
        let a = dropped(Volume::Rootfs, snapshot, root);
        let b = sought_at(rootfs(id) + "/usr/share/ash/mutable"@, mutable);
        let c = sought_at("/sys/firmware/efi"@, efi);
        crate::record::lemma_row(three, a, b, c, last);
        assert(record(s, p, clearings()) =~= three + (a + (b + (c + last))));
    }
}

/// A `prepare` that succeeds first deletes each of the four subvolumes of the temporary copy that is
/// there, and deletes no subvolume after that.
pub proof fn law_prepare_clears(s: Session, build: Build, snapshot: Seq<char>)
    ensures
        run(s, prepare_script(build, snapshot)).out is Ok ==> exists|
            first: Seq<(Req, Answer)>,
            rest: Seq<(Req, Answer)>,
        |
            #[trigger] wiped(first, chr(snapshot)) && #[trigger] all_in(
                rest,
                deletes_nothing(),
            ) && record(s, prepare_script(build, snapshot), clearings()) == first + rest,
{
    broadcast use crate::record::group_ok;

    let p = prepare_script(build, snapshot);
    let id = chr(snapshot);
    let ok = deletes_nothing();
    reveal(prepare_script);
    if run(s, p).out is Ok {
        let k = |u: ()|
            chain(
                done(snap(Volume::Rootfs, snapshot, id, false)),
                |u: ()|
                    chain(
                        ash_mounts_script(snapshot, "chr"@),
                        |u: ()|
                            chain(
                                mount_mutable_dirs_script(build, snapshot),
                                |u: ()|
                                    chain(
                                        all_done(copy_three(snapshot, id) + fill_three(id, id)),
                                        |u: ()|
                                            chain(
                                                identity_script(id),
                                                |u: ()|
                                                    if snapshot != "0"@ {
                                                        done(
                                                            Req::CopyCache {
                                                                snapshot,
                                                                into_chroot: true,
                                                            },
                                                        )
                                                    } else {
                                                        give(())
                                                    },
                                            ),
                                    ),
                            ),
                    ),
            );
        assert(p == chain(chr_delete_script(snapshot), k));
        assert(record(s, p, clearings()).len() >= 0);
        law_chr_delete(s, snapshot);
        let t = run(s, chr_delete_script(snapshot)).now;
        assert(asks_only(k(()), ok)) by {
            broadcast use crate::script::group_asks;

            assert(asks_only(ash_mounts_script(snapshot, "chr"@), ok)) by {
                reveal(ash_mounts_script);
            }
            lemma_dirs_delete_nothing(build, snapshot);
            assert(asks_only(identity_script(id), ok)) by {
                reveal(identity_script);
            }
        }
        crate::record::lemma_record_only(t, k(()), clearings(), ok);
        let first = record(s, chr_delete_script(snapshot), clearings());
        let rest = record(t, k(()), clearings());
        assert(wiped(first, id) && all_in(rest, ok));
    }
}

proof fn lemma_dirs_delete_nothing(build: Build, snapshot: Seq<char>)
    ensures
        asks_only(mount_mutable_dirs_script(build, snapshot), deletes_nothing()),
{
    broadcast use crate::script::group_asks;

    let ok = deletes_nothing();
    assert forall|dir: Seq<char>| asks_only(#[trigger] remove_dir_content_script(dir), ok) by {
        reveal(remove_dir_content_script);
        reveal(entries_script);
        reveal(remove_any);
    }
    assert forall|home: Seq<char>, store: Seq<char>, root: Seq<char>, dirs: Seq<Seq<char>>|
        asks_only(#[trigger] mount_dirs_script(home, store, root, dirs), ok) by {
        reveal(mount_dirs_script);
        reveal(allow_dir_mut_script);
    }
    reveal(mount_mutable_dirs_script);
    reveal(snapshot_config_get_script);
}

proof fn lemma_backup_clears(s: Session, tmp: Seq<char>) -> (there: bool)
    requires
        run(s, backup_script(tmp)).out is Ok,
    ensures
        record(s, backup_script(tmp), clearings()) == rollback_cleared(there),
{
    broadcast use {crate::record::group_ok, crate::script::lemma_asks_all_done};

    let p = backup_script(tmp);
    reveal(backup_script);
    assert(record(s, p, clearings()).len() >= 0);
    let there = s.next() == Answer::Flag(true);
    assert(record(s, p, clearings()) =~= rollback_cleared(there));
    there
}

/// The four subvolumes of the rollback were deleted where its root is there.
pub open spec fn rollback_cleared(there: bool) -> Seq<(Req, Answer)> {
    removed_if(
        Req::Exists { path: rootfs("rollback"@) },
        there,
        seq![
            Req::DeleteSubvolume { path: rootfs("rollback"@) },
            Req::DeleteSubvolume { path: volume(Volume::Boot, "rollback"@) },
            Req::DeleteSubvolume { path: volume(Volume::Etc, "rollback"@) },
            Req::DeleteSubvolume { path: volume(Volume::Var, "rollback"@) },
        ],
    )
}

proof fn lemma_tmp_delete_clears(s: Session, secondary: bool) -> (r: (Seq<char>, bool))
    requires
        run(s, tmp_delete_script(secondary)).out is Ok,
    ensures
        got_note(s, run(s, tmp_delete_script(secondary)).now, "/proc/mounts"@, r.0),
        record(s, tmp_delete_script(secondary), clearings()) == cleared(
            aux_tmp(running_slot(lines(r.0)), secondary),
            r.1,
        ),
{
    broadcast use {
        crate::record::group_ok,
        crate::record::got_chain,
        crate::record::got_text,
    };

    let p = tmp_delete_script(secondary);
    reveal(tmp_delete_script);
    reveal(get_tmp_script);
    reveal(mounts_script);
    assert(record(s, p, clearings()).len() >= 0);
    assert(record(s, get_tmp_script(), clearings()).len() >= 0);
    assert(record(s, mounts_script(), clearings()).len() >= 0);
    let read = Req::ReadText { path: "/proc/mounts"@ };
    let content = s.next()->Text_0;
    assert(got(s, run(s, text(read)).now, read, Answer::Text(content)));
    assert(got(s, run(s, mounts_script()).now, read, Answer::Text(content)));
    assert(got(s, run(s, get_tmp_script()).now, read, Answer::Text(content)));
    assert(got(s, run(s, p).now, read, Answer::Text(content)));
    let t = run(s, get_tmp_script()).now;
    let slot = aux_tmp(running_slot(lines(content)), secondary);
    reveal(clear_slot);
    let there = t.next() == Answer::Flag(true);
    assert(record(t, clear_slot(slot), clearings()).len() >= 0);
    assert(record(t, clear_slot(slot), clearings()) =~= cleared(slot, there));
    assert(record(s, p, clearings()) =~= cleared(slot, there));
    (content, there)
}

#[verifier::rlimit(40)]
proof fn lemma_place_clears(
    s: Session,
    build: Build,
    snapshot: Seq<char>,
    tmp: Seq<char>,
    secondary: bool,
    reset: bool,
) -> (mutable: bool)
    requires
        run(s, place_script(build, snapshot, tmp, secondary, reset)).out is Ok,
    ensures
        record(s, place_script(build, snapshot, tmp, secondary, reset), clearings()) == sought_at(
            rootfs(snapshot) + "/usr/share/ash/mutable"@,
            mutable,
        ),
{
    broadcast use {crate::record::group_ok, still_config};

    let p = place_script(build, snapshot, tmp, secondary, reset);
    reveal(place_script);
    assert(record(s, p, clearings()).len() >= 0);
    let config = snapshot_config_get_script(build, snapshot);
    let options = run(s, config).out->Ok_0;
    let t = run(s, config).now;
    let plan = all_done(deploy_plan(snapshot, tmp));
    lemma_place_still(options, snapshot, tmp);
    let t = run(t, plan).now;
    let mutable = lemma_writable_clears(t, snapshot, tmp);
    assert(record(s, p, clearings()) =~= sought_at(
        rootfs(snapshot) + "/usr/share/ash/mutable"@,
        mutable,
    ));
    mutable
}

proof fn lemma_place_still(
    options: Map<Seq<char>, Seq<char>>,
    snapshot: Seq<char>,
    tmp: Seq<char>,
)
    ensures
        asks_only(all_done(deploy_plan(snapshot, tmp)), others(clearings())),
        asks_only(enter_dirs_script(options, snapshot, tmp), others(clearings())),
{
    broadcast use crate::script::group_asks;

    reveal(enter_dirs_script);
}

proof fn lemma_writable_clears(s: Session, snapshot: Seq<char>, tmp: Seq<char>) -> (mutable: bool)
    requires
        run(s, writable_script(snapshot, tmp)).out is Ok,
    ensures
        record(s, writable_script(snapshot, tmp), clearings()) == sought_at(
            rootfs(snapshot) + "/usr/share/ash/mutable"@,
            mutable,
        ),
{
    broadcast use crate::record::group_ok;

    let p = writable_script(snapshot, tmp);
    reveal(writable_script);
    reveal(check_mutability_script);
    assert(record(s, p, clearings()).len() >= 0);
    let mutable = s.next() == Answer::Flag(true);
    assert(record(s, p, clearings()) =~= sought_at(
        rootfs(snapshot) + "/usr/share/ash/mutable"@,
        mutable,
    ));
    mutable
}

/// A `deploy` that succeeds deletes the rollback where it is there, and the deployment beside the one
/// that runs, of the kind that was asked for, where it is there. It deletes nothing else.
#[verifier::rlimit(40)]
pub proof fn law_deploy_clears(
    s: Session,
    build: Build,
    snapshot: Seq<char>,
    secondary: bool,
    reset: bool,
)
    ensures
        run(s, deploy_script(build, snapshot, secondary, reset)).out is Ok ==> exists|
            rollback: bool,
            content: Seq<char>,
            there: bool,
            mutable: bool,
        |
            #![trigger rollback_cleared(rollback), cleared(aux_tmp(running_slot(lines(content)), secondary), there), sought_at(rootfs(snapshot) + "/usr/share/ash/mutable"@, mutable)]
            record(s, deploy_script(build, snapshot, secondary, reset), clearings()) == sought_at(
                rootfs(snapshot),
                true,
            ) + rollback_cleared(rollback) + cleared(
                aux_tmp(running_slot(lines(content)), secondary),
                there,
            ) + sought_at(rootfs(snapshot) + "/usr/share/ash/mutable"@, mutable) && got_note(
                s,
                run(s, deploy_script(build, snapshot, secondary, reset)).now,
                "/proc/mounts"@,
                content,
            ),
{
    broadcast use {crate::record::group_ok, crate::record::got_chain};

    let p = deploy_script(build, snapshot, secondary, reset);
    reveal(deploy_script);
    if run(s, p).out is Ok {
        assert(record(s, p, clearings()).len() >= 0);
        let ask = Req::Exists { path: rootfs(snapshot) };
        let t = run(s, flag(ask)).now;
        assert(asks_only(get_tmp_script(), others(clearings()))) by {
            broadcast use crate::script::group_asks;

            reveal(get_tmp_script);
            reveal(mounts_script);
        }
        let tmp = run(t, get_tmp_script()).out->Ok_0;
        let t = run(t, get_tmp_script()).now;
        let beside = deploy_beside(build, snapshot, secondary, reset)(tmp);
        assert(record(t, beside, clearings()).len() >= 0);
        let rollback = lemma_backup_clears(t, tmp);
        let t1 = run(t, backup_script(tmp)).now;
        let plan = seq![
            Req::UpdateBoot { snapshot, secondary },
            Req::SetDefault { path: rootfs(tmp) },
        ];
        assert(asks_only(all_done(plan), others(clearings()))) by {
            broadcast use crate::script::group_asks;

        }
        let t2 = run(t1, all_done(plan)).now;
        let (content, there) = lemma_tmp_delete_clears(t2, secondary);
        let t3 = run(t2, tmp_delete_script(secondary)).now;
        let slot = aux_tmp(tmp, secondary);
        let mutable = lemma_place_clears(t3, build, snapshot, slot, secondary, reset);
        let b = rollback_cleared(rollback);
        let c = cleared(aux_tmp(running_slot(lines(content)), secondary), there);
        let e = sought_at(rootfs(snapshot) + "/usr/share/ash/mutable"@, mutable);
        assert(record(t, beside, clearings()) =~= b + (c + e));
        assert(record(s, p, clearings()) =~= sought_at(rootfs(snapshot), true) + b + c + e);
        let read = Req::ReadText { path: "/proc/mounts"@ };
        assert(got(t, run(t, beside).now, read, Answer::Text(content)));
        assert(got(s, run(s, p).now, read, Answer::Text(content)));
    }
}

}
