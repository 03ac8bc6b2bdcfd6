//! What deploying for recovery comes to: the two recovery deployments take turns.

use vstd::prelude::*;
use crate::chroots::{
    chr_delete_script, collect, collect_all, drop_there, drop_three, keep_copy,
    post_transactions_script, prepare_script,
};
use crate::config::snapshot_config_get_script;
use crate::deployment::{
    check_mutability_script, clear_slot, deploy_plan, deploy_recovery_script, enter_dirs_script,
    get_recovery_tmp_script, is_recovery_slot, law_recovery_aux_tmp, note_recovery_script,
    place_recovery_script, recovery_aux_tmp, recovery_file, rename_script, writable_script,
};
use crate::dirs::unmount_mutable_dirs_script;
use crate::laws::{confined, inside, lemma_emptying, parted, placed, removable, within};
use crate::model::{
    leads, lemma_leads_all_done, lemma_leads_chain, lemma_leads_done, lemma_leads_flag,
    lemma_leads_keeping, lemma_leads_sure, lemma_leads_text, lemma_leads_weaker, Model,
};
use crate::mounts::ash_umounts_script;
use crate::paths::{chr, copy_plan, entry_of, rootfs, snap_file, stem, volume, Volume};
use crate::request::{Answer, Req};
use crate::script::{all_done, asks_only, chain, done, flag, give, text, Build, Script};
use crate::text::{occurs_at, trimmed, trimmed_end, trimmed_start};

verus! {

/// What there is to know about the recovery deployments.
pub struct Noted {
    /// What the base snapshot notes as the name of the last one, if anything.
    pub base: Option<Seq<char>>,
    /// What the temporary copy of the base snapshot notes.
    pub copy: Option<Seq<char>>,
    /// The deployment is a writable copy of the base snapshot.
    pub made: bool,
    /// The snapshot that the deployment is noted to be made from.
    pub snap: Option<Seq<char>>,
}

/// The name of the last recovery deployment, by what the base snapshot notes.
pub open spec fn noted_name(base: Option<Seq<char>>) -> Seq<char> {
    match base {
        Some(content) => trimmed(content),
        None => "recovery-deploy"@,
    }
}

/// What stands at `path` is the file, or holds it.
pub open spec fn covers(path: Seq<char>, file: Seq<char>) -> bool {
    file == path || occurs_at(file, stem(path), 0)
}

/// What a file holds after it was written at `path`.
pub open spec fn put(
    held: Option<Seq<char>>,
    file: Seq<char>,
    path: Seq<char>,
    content: Seq<char>,
) -> Option<Seq<char>> {
    if path == file {
        Some(content)
    } else {
        held
    }
}

/// What is still known of a file after a change at `path`.
pub open spec fn lose(held: Option<Seq<char>>, file: Seq<char>, path: Seq<char>) -> Option<
    Seq<char>,
> {
    if covers(path, file) {
        None
    } else {
        held
    }
}

/// The state after something was written to `path` whose contents are not known.
pub open spec fn disturbed(s: Noted, slot: Seq<char>, path: Seq<char>) -> Noted {
    Noted {
        base: lose(s.base, recovery_file("0"@), path),
        copy: lose(s.copy, recovery_file(chr("0"@)), path),
        made: s.made,
        snap: lose(s.snap, snap_file(slot), path),
    }
}

/// The state after a subvolume was deleted, or made empty.
pub open spec fn emptied(s: Noted, slot: Seq<char>, path: Seq<char>) -> Noted {
    Noted {
        base: if path == rootfs("0"@) {
            None
        } else {
            s.base
        },
        copy: if path == rootfs(chr("0"@)) {
            None
        } else {
            s.copy
        },
        made: s.made && path != rootfs(slot),
        snap: if path == rootfs(slot) {
            None
        } else {
            s.snap
        },
    }
}

/// What the root `from` notes.
pub open spec fn noted_in(s: Noted, from: Seq<char>) -> Option<Seq<char>> {
    if from == rootfs("0"@) {
        s.base
    } else if from == rootfs(chr("0"@)) {
        s.copy
    } else {
        None
    }
}

/// The state after a snapshot was made of a subvolume.
pub open spec fn taken(
    s: Noted,
    slot: Seq<char>,
    from: Seq<char>,
    to: Seq<char>,
    read_only: bool,
) -> Noted {
    Noted {
        base: if to == rootfs("0"@) {
            noted_in(s, from)
        } else {
            s.base
        },
        copy: if to == rootfs(chr("0"@)) {
            noted_in(s, from)
        } else {
            s.copy
        },
        made: if to == rootfs(slot) {
            from == rootfs("0"@) && !read_only
        } else {
            s.made
        },
        snap: if to == rootfs(slot) {
            None
        } else {
            s.snap
        },
    }
}

/// What a request makes of the notes and of the recovery deployment `slot` once it was carried
/// out.
pub open spec fn carried_out(s: Noted, slot: Seq<char>, req: Req) -> Noted {
    match req {
        Req::WriteText { path, text } => Noted {
            base: put(s.base, recovery_file("0"@), path, text),
            copy: put(s.copy, recovery_file(chr("0"@)), path, text),
            made: s.made,
            snap: put(s.snap, snap_file(slot), path, text),
        },
        Req::CreateFile { path } => disturbed(s, slot, path),
        Req::RemoveFile { path } => disturbed(s, slot, path),
        Req::RemoveTree { path } => disturbed(s, slot, path),
        Req::CopyFile { from, to } => disturbed(s, slot, to),
        Req::CopyTree { from, to } => disturbed(s, slot, to),
        Req::RewriteText { path, text } => disturbed(s, slot, path),
        Req::AppendText { path, text } => disturbed(s, slot, path),
        Req::WriteProfile { path, profile } => disturbed(s, slot, path),
        Req::CreateSubvolume { path } => emptied(s, slot, path),
        Req::DeleteSubvolume { path } => emptied(s, slot, path),
        Req::SnapshotSubvolume { from, to, read_only } => taken(s, slot, from, to, read_only),
        Req::SetReadOnly { path, read_only } => Noted {
            base: s.base,
            copy: s.copy,
            made: s.made && (path != rootfs(slot) || !read_only),
            snap: s.snap,
        },
        _ => s,
    }
}

/// Surroundings that keep files: what was written is read again, and a snapshot of a subvolume
/// holds what the subvolume held. A request that failed changed nothing.
pub open spec fn keeping_files(slot: Seq<char>) -> Model<Noted> {
    Model {
        fits: |s: Noted, req: Req, a: Answer|
            match (req, a) {
                (Req::IsFile { path }, Answer::Flag(b)) => path == recovery_file("0"@) ==> b
                    == s.base is Some,
                (Req::ReadText { path }, Answer::Text(t)) => path == recovery_file("0"@) ==> s.base
                    == Some(t),
                _ => true,
            },
        step: |s: Noted, req: Req, a: Answer|
            if a is Done {
                carried_out(s, slot, req)
            } else {
                s
            },
    }
}

/// Any request.
pub open spec fn anything() -> spec_fn(Noted, Req) -> bool {
    |s: Noted, req: Req| true
}

// ----------------------------------------------------------------- geometry

proof fn lemma_uncovered_at(path: Seq<char>, file: Seq<char>, i: int)
    requires
        0 <= i < path.len(),
        i < file.len(),
        path[i] != file[i],
    ensures
        !covers(path, file),
{
    if occurs_at(file, stem(path), 0) {
        assert(file.subrange(0, stem(path).len() as int)[i] == file[i]);
    }
}

/// Where the names of subvolumes begin to differ.
proof fn lemma_roots(v: Volume, id: Seq<char>, x: Seq<char>, path: Seq<char>)
    requires
        id.len() > 0,
        x.len() > 0,
        v is Rootfs ==> id[0] != x[0],
        path == volume(v, id) || occurs_at(path, stem(volume(v, id)), 0),
    ensures
        ({
            let i: int = if v is Rootfs {
                28
            } else {
                12
            };
            i < path.len() && i < rootfs(x).len() && path[i] != rootfs(x)[i]
        }),
{
    reveal_strlit("/.snapshots/boot/boot-");
    reveal_strlit("/.snapshots/etc/etc-");
    reveal_strlit("/.snapshots/var/var-");
    reveal_strlit("/.snapshots/rootfs/snapshot-");
    let i: int = if v is Rootfs {
        28
    } else {
        12
    };
    assert(volume(v, id)[i] != rootfs(x)[i]);
    if occurs_at(path, stem(volume(v, id)), 0) {
        assert(path.subrange(0, stem(volume(v, id)).len() as int)[i] == path[i]);
    }
}

/// What parts from the directory of roots does not cover a file below a root.
proof fn lemma_parted_uncovered(path: Seq<char>, x: Seq<char>, rest: Seq<char>)
    requires
        parted(path, "/.snapshots/rootfs/"@),
        x.len() > 0,
    ensures
        !covers(path, rootfs(x) + rest),
        path != rootfs(x),
{
    let file = rootfs(x) + rest;
    let dir = "/.snapshots/rootfs/"@;
    reveal_strlit("/.snapshots/rootfs/");
    reveal_strlit("/.snapshots/rootfs/snapshot-");
    assert(file.take(dir.len() as int) =~= dir);
    assert(rootfs(x).subrange(0, dir.len() as int) =~= dir);
    if covers(path, file) {
        assert(file.subrange(0, path.len() as int) =~= path) by {
            if file != path {
                let start = stem(path);
                assert(file.subrange(0, start.len() as int) == start);
                assert(start.subrange(0, path.len() as int) =~= path);
                assert(file.subrange(0, start.len() as int).subrange(0, path.len() as int)
                    =~= file.subrange(0, path.len() as int));
            }
        }
        if path.len() >= dir.len() {
            assert(path.subrange(0, dir.len() as int) =~= file.take(dir.len() as int));
            assert(occurs_at(path, dir, 0));
        } else {
            assert(dir.subrange(0, path.len() as int) =~= file.subrange(0, path.len() as int));
            assert(occurs_at(dir, path, 0));
        }
    }
}

/// What is placed at snapshots of other names, or at none, does not cover a file of `x`.
proof fn lemma_uncovered(path: Seq<char>, ids: Set<Seq<char>>, x: Seq<char>, rest: Seq<char>)
    requires
        placed(path, ids),
        x.len() > 0,
        forall|id: Seq<char>| #[trigger] ids.contains(id) ==> id.len() > 0 && id[0] != x[0],
    ensures
        !covers(path, rootfs(x) + rest),
        path != rootfs(x) + rest,
{
    let file = rootfs(x) + rest;
    if inside(path, ids) {
        let (v, id) = choose|v: Volume, id: Seq<char>|
            ids.contains(id) && (path == #[trigger] volume(v, id) || occurs_at(
                path,
                stem(volume(v, id)),
                0,
            ));
        lemma_roots(v, id, x, path);
        lemma_uncovered_at(
            path,
            file,
            if v is Rootfs {
                28
            } else {
                12
            },
        );
    } else {
        lemma_parted_uncovered(path, x, rest);
    }
}

proof fn lemma_not_within(path: Seq<char>, ids: Set<Seq<char>>, x: Seq<char>)
    requires
        within(path, ids),
        x.len() > 0,
        forall|id: Seq<char>| #[trigger] ids.contains(id) ==> id.len() > 0 && id[0] != x[0],
    ensures
        path != rootfs(x),
{
    let (v, id) = choose|v: Volume, id: Seq<char>|
        ids.contains(id) && path == #[trigger] volume(v, id);
    lemma_roots(v, id, x, path);
}

proof fn lemma_names()
    ensures
        "0"@.len() == 1 && "0"@[0] == '0',
        chr("0"@).len() > 0 && chr("0"@)[0] == 'c',
        "recovery-deploy"@.len() == 15 && "recovery-deploy"@[0] == 'r',
        "recovery-deploy-aux"@.len() == 19 && "recovery-deploy-aux"@[0] == 'r',
        rootfs("0"@) != rootfs(chr("0"@)),
{
    reveal_strlit("0");
    reveal_strlit("chr");
    reveal_strlit("recovery-deploy");
    reveal_strlit("recovery-deploy-aux");
    lemma_roots(Volume::Rootfs, "0"@, chr("0"@), rootfs("0"@));
}

// ------------------------------------------------------------- what is kept

/// The deployment is made, and is noted to be made from the base snapshot.
pub open spec fn ready(s: Noted) -> bool {
    s.made && s.snap == Some("0"@)
}

/// The base snapshot and its temporary copy.
pub open spec fn base_ids() -> Set<Seq<char>> {
    set!["0"@, chr("0"@)]
}

proof fn lemma_ready_kept(slot: Seq<char>, s: Noted, req: Req)
    requires
        is_recovery_slot(slot),
        ready(s),
        confined(base_ids())(req),
    ensures
        ready(carried_out(s, slot, req)),
{
    let ids = base_ids();
    lemma_names();
    let rest = "/usr/share/ash/snap"@;
    match req {
        Req::WriteText { path, text } => lemma_uncovered(path, ids, slot, rest),
        Req::CreateFile { path } => lemma_uncovered(path, ids, slot, rest),
        Req::RemoveFile { path } => lemma_uncovered(path, ids, slot, rest),
        Req::RemoveTree { path } => lemma_uncovered(path, ids, slot, rest),
        Req::CopyFile { from, to } => lemma_uncovered(to, ids, slot, rest),
        Req::CopyTree { from, to } => lemma_uncovered(to, ids, slot, rest),
        Req::RewriteText { path, text } => lemma_uncovered(path, ids, slot, rest),
        Req::AppendText { path, text } => lemma_uncovered(path, ids, slot, rest),
        Req::WriteProfile { path, profile } => lemma_uncovered(path, ids, slot, rest),
        Req::CreateSubvolume { path } => lemma_not_within(path, ids, slot),
        Req::DeleteSubvolume { path } => lemma_not_within(path, ids, slot),
        Req::SnapshotSubvolume { from, to, read_only } => lemma_not_within(to, ids, slot),
        Req::SetReadOnly { path, read_only } => lemma_not_within(path, ids, slot),
        _ => {},
    }
}

proof fn lemma_base_kept(slot: Seq<char>, s: Noted, req: Req)
    requires
        confined(set![chr("0"@)])(req),
    ensures
        carried_out(s, slot, req).base == s.base,
{
    let ids = set![chr("0"@)];
    lemma_names();
    let rest = "/usr/share/ash/rec-tmp"@;
    match req {
        Req::WriteText { path, text } => lemma_uncovered(path, ids, "0"@, rest),
        Req::CreateFile { path } => lemma_uncovered(path, ids, "0"@, rest),
        Req::RemoveFile { path } => lemma_uncovered(path, ids, "0"@, rest),
        Req::RemoveTree { path } => lemma_uncovered(path, ids, "0"@, rest),
        Req::CopyFile { from, to } => lemma_uncovered(to, ids, "0"@, rest),
        Req::CopyTree { from, to } => lemma_uncovered(to, ids, "0"@, rest),
        Req::RewriteText { path, text } => lemma_uncovered(path, ids, "0"@, rest),
        Req::AppendText { path, text } => lemma_uncovered(path, ids, "0"@, rest),
        Req::WriteProfile { path, profile } => lemma_uncovered(path, ids, "0"@, rest),
        Req::CreateSubvolume { path } => lemma_not_within(path, ids, "0"@),
        Req::DeleteSubvolume { path } => lemma_not_within(path, ids, "0"@),
        Req::SnapshotSubvolume { from, to, read_only } => lemma_not_within(to, ids, "0"@),
        _ => {},
    }
}

/// A request leaves everything below the directory of roots as it is.
pub open spec fn spares_roots() -> spec_fn(Req) -> bool {
    let dir = "/.snapshots/rootfs/"@;
    |req: Req|
        match req {
            Req::RemoveFile { path } => parted(path, dir),
            Req::RemoveTree { path } => parted(path, dir),
            Req::CopyTree { from, to } => parted(to, dir),
            Req::DeleteSubvolume { path } => parted(path, dir),
            Req::WriteText { .. } => false,
            Req::CreateFile { .. } => false,
            Req::CopyFile { .. } => false,
            Req::RewriteText { .. } => false,
            Req::AppendText { .. } => false,
            Req::WriteProfile { .. } => false,
            Req::CreateSubvolume { .. } => false,
            Req::SnapshotSubvolume { .. } => false,
            Req::SetReadOnly { .. } => false,
            _ => true,
        }
}

proof fn lemma_roots_spared(slot: Seq<char>, s: Noted, req: Req)
    requires
        is_recovery_slot(slot),
        spares_roots()(req),
    ensures
        carried_out(s, slot, req) == s,
{
    lemma_names();
    let path = match req {
        Req::RemoveFile { path } => path,
        Req::RemoveTree { path } => path,
        Req::CopyTree { from, to } => to,
        Req::DeleteSubvolume { path } => path,
        _ => seq![],
    };
    if req is RemoveFile || req is RemoveTree || req is CopyTree || req is DeleteSubvolume {
        lemma_parted_uncovered(path, "0"@, "/usr/share/ash/rec-tmp"@);
        lemma_parted_uncovered(path, chr("0"@), "/usr/share/ash/rec-tmp"@);
        lemma_parted_uncovered(path, slot, "/usr/share/ash/snap"@);
    }
}

proof fn lemma_volume_parted(v: Volume, id: Seq<char>, path: Seq<char>)
    requires
        !(v is Rootfs),
        path == volume(v, id) || occurs_at(path, stem(volume(v, id)), 0),
    ensures
        parted(path, "/.snapshots/rootfs/"@),
{
    reveal_strlit("/.snapshots/boot/boot-");
    reveal_strlit("/.snapshots/etc/etc-");
    reveal_strlit("/.snapshots/var/var-");
    reveal_strlit("/.snapshots/rootfs/");
    let dir = "/.snapshots/rootfs/"@;
    if occurs_at(path, stem(volume(v, id)), 0) {
        assert(path.subrange(0, stem(volume(v, id)).len() as int)[12] == path[12]);
    }
    assert(path[12] == volume(v, id)[12]);
    if occurs_at(path, dir, 0) {
        assert(path.subrange(0, dir.len() as int)[12] == path[12]);
    }
    if occurs_at(dir, path, 0) {
        assert(dir.subrange(0, path.len() as int)[12] == dir[12]);
    }
}

proof fn lemma_collect_spares(v: Volume, snapshot: Seq<char>, rest: Seq<char>)
    requires
        !(v is Rootfs),
    ensures
        asks_only(collect(v, snapshot, rest), spares_roots()),
{
    broadcast use crate::script::group_asks;

    let ok = spares_roots();
    let dir = volume(v, chr(snapshot));
    assert forall|path: Seq<char>| #[trigger] entry_of(dir, path) implies removable(path, ok) by {
        lemma_volume_parted(v, chr(snapshot), path);
    }
    lemma_emptying(dir, ok);
    lemma_volume_parted(v, chr(snapshot), dir);
    reveal(collect);
}

proof fn lemma_collecting_spares(snapshot: Seq<char>)
    ensures
        asks_only(collect_all(snapshot), spares_roots()),
        asks_only(drop_three(snapshot), spares_roots()),
{
    broadcast use crate::script::group_asks;

    lemma_collect_spares(Volume::Boot, snapshot, "/boot/."@);
    lemma_collect_spares(Volume::Etc, snapshot, "/etc/."@);
    lemma_collect_spares(Volume::Var, snapshot, "/var/."@);
    reveal(collect_all);
    lemma_volume_parted(Volume::Boot, snapshot, volume(Volume::Boot, snapshot));
    lemma_volume_parted(Volume::Etc, snapshot, volume(Volume::Etc, snapshot));
    lemma_volume_parted(Volume::Var, snapshot, volume(Volume::Var, snapshot));
    reveal(drop_three);
    reveal(drop_there);
}

// ------------------------------------------------------------------ the steps

/// If `slot` is the deployment `name` that was made, it is ready; the temporary copy notes the
/// name.
pub open spec fn copied_note(slot: Seq<char>, name: Seq<char>) -> spec_fn(Noted) -> bool {
    |s: Noted| (slot == name ==> ready(s)) && s.copy == Some(name)
}

/// If `slot` is the deployment `name` that was made, it is ready; the base snapshot notes the
/// name.
pub open spec fn final_note(slot: Seq<char>, name: Seq<char>) -> spec_fn(Noted) -> bool {
    |s: Noted| (slot == name ==> ready(s)) && s.base == Some(name)
}

/// `inv`, whatever was given.
pub open spec fn given<T>(inv: spec_fn(Noted) -> bool) -> spec_fn(Noted, T) -> bool {
    |s: Noted, v: T| inv(s)
}

proof fn lemma_keep<T>(
    p: Script<T>,
    slot: Seq<char>,
    s: Noted,
    inv: spec_fn(Noted) -> bool,
    calm: spec_fn(Req) -> bool,
)
    requires
        inv(s),
        asks_only(p, calm),
        forall|s1: Noted, req: Req|
            calm(req) && inv(s1) ==> inv(#[trigger] carried_out(s1, slot, req)),
    ensures
        leads(p, keeping_files(slot), s, anything(), given(inv)),
{
    let m = keeping_files(slot);
    lemma_leads_keeping(p, m, s, anything(), inv, calm);
    lemma_leads_weaker(p, m, s, anything(), |s1: Noted, v: T| inv(s1), given(inv));
}

proof fn lemma_then<T, U>(
    p: Script<T>,
    k: spec_fn(T) -> Script<U>,
    slot: Seq<char>,
    s: Noted,
    mid: spec_fn(Noted) -> bool,
    inv: spec_fn(Noted) -> bool,
)
    requires
        leads(p, keeping_files(slot), s, anything(), given(mid)),
        forall|s1: Noted, v: T|
            mid(s1) ==> #[trigger] leads(k(v), keeping_files(slot), s1, anything(), given(inv)),
    ensures
        leads(chain(p, k), keeping_files(slot), s, anything(), given(inv)),
{
    lemma_leads_chain(p, k, keeping_files(slot), s, anything(), given(mid), given(inv));
}

proof fn lemma_keep_copy(slot: Seq<char>, name: Seq<char>, s: Noted)
    requires
        is_recovery_slot(slot),
        copied_note(slot, name)(s),
    ensures
        leads(
            keep_copy(chr("0"@), "0"@),
            keeping_files(slot),
            s,
            anything(),
            given(final_note(slot, name)),
        ),
{
    broadcast use crate::script::group_asks;

    let m = keeping_files(slot);
    let mid = copied_note(slot, name);
    let id = chr("0"@);
    lemma_names();
    let look = flag(Req::Exists { path: rootfs(id) + "/usr/share/ash/mutable"@ });
    lemma_keep(look, slot, s, mid, |req: Req| req is Exists);
    let k = |mutable: bool| all_done(copy_plan(id, "0"@, !mutable));
    assert forall|s1: Noted, mutable: bool| mid(s1) implies #[trigger] leads(
        k(mutable),
        m,
        s1,
        anything(),
        given(final_note(slot, name)),
    ) by {
        let plan = copy_plan(id, "0"@, !mutable);
        let inv = |i: int, s2: Noted| mid(s2) && (i >= 4 ==> s2.base == Some(name));
        assert forall|i: int, s2: Noted|
            0 <= i < plan.len() && #[trigger] inv(0 + i, s2) implies anything()(s2, plan[i]) && inv(
            0 + i + 1,
            (m.step)(s2, plan[i], Answer::Done),
        ) by {
            lemma_roots(Volume::Rootfs, "0"@, slot, rootfs("0"@));
            lemma_roots(Volume::Boot, "0"@, "0"@, volume(Volume::Boot, "0"@));
            lemma_roots(Volume::Boot, "0"@, id, volume(Volume::Boot, "0"@));
            lemma_roots(Volume::Boot, "0"@, slot, volume(Volume::Boot, "0"@));
            lemma_roots(Volume::Etc, "0"@, "0"@, volume(Volume::Etc, "0"@));
            lemma_roots(Volume::Etc, "0"@, id, volume(Volume::Etc, "0"@));
            lemma_roots(Volume::Etc, "0"@, slot, volume(Volume::Etc, "0"@));
            lemma_roots(Volume::Var, "0"@, "0"@, volume(Volume::Var, "0"@));
            lemma_roots(Volume::Var, "0"@, id, volume(Volume::Var, "0"@));
            lemma_roots(Volume::Var, "0"@, slot, volume(Volume::Var, "0"@));
        }
        lemma_leads_all_done(plan, m, s1, anything(), inv, 0);
        lemma_leads_weaker(
            all_done(plan),
            m,
            s1,
            anything(),
            |s2: Noted, u: ()| inv(0int + plan.len(), s2),
            given(final_note(slot, name)),
        );
    }
    reveal(keep_copy);
    lemma_then(look, k, slot, s, mid, final_note(slot, name));
}

proof fn lemma_post(build: Build, slot: Seq<char>, name: Seq<char>, s: Noted)
    requires
        is_recovery_slot(slot),
        copied_note(slot, name)(s),
    ensures
        leads(
            post_transactions_script(build, "0"@),
            keeping_files(slot),
            s,
            anything(),
            given(final_note(slot, name)),
        ),
{
    broadcast use crate::laws::group_calm;

    let m = keeping_files(slot);
    let mid = copied_note(slot, name);
    let end = final_note(slot, name);
    let id = chr("0"@);
    let copy = set![id];
    lemma_names();
    assert forall|s1: Noted, req: Req| confined(copy)(req) && end(s1) implies end(
        #[trigger] carried_out(s1, slot, req),
    ) by {
        lemma_base_kept(slot, s1, req);
        lemma_confined_more(req);
        if slot == name {
            lemma_ready_kept(slot, s1, req);
        }
    }
    assert forall|s1: Noted, req: Req| spares_roots()(req) && mid(s1) implies mid(
        #[trigger] carried_out(s1, slot, req),
    ) by {
        lemma_roots_spared(slot, s1, req);
    }
    let drops_base = |req: Req|
        req is Exists || req == (Req::DeleteSubvolume { path: rootfs("0"@) });
    assert forall|s1: Noted, req: Req| drops_base(req) && mid(s1) implies mid(
        #[trigger] carried_out(s1, slot, req),
    ) by {
        lemma_roots(Volume::Rootfs, "0"@, slot, rootfs("0"@));
    }
    let last = chr_delete_script("0"@);
    let k6 = |u: ()| last;
    let p6 = unmount_mutable_dirs_script(build, "0"@, "0"@);
    let k5 = |u: ()| chain(p6, k6);
    let p5 = ash_umounts_script("0"@, "chr"@);
    let k4 = |u: ()| chain(p5, k5);
    let p4 = keep_copy(id, "0"@);
    let k3 = |u: ()| chain(p4, k4);
    let p3 = drop_there(Volume::Rootfs, "0"@);
    let k2 = |u: ()| chain(p3, k3);
    let p2 = drop_three("0"@);
    let k1 = |u: ()| chain(p2, k2);
    let p1 = collect_all("0"@);
    lemma_collecting_spares("0"@);
    assert(asks_only(p3, drops_base)) by {
        broadcast use crate::script::group_asks;

        reveal(drop_there);
    }
    assert forall|s1: Noted, v: ()| end(s1) implies #[trigger] leads(
        k6(v),
        m,
        s1,
        anything(),
        given(end),
    ) by {
        lemma_keep(last, slot, s1, end, confined(copy));
    }
    assert forall|s1: Noted, v: ()| end(s1) implies #[trigger] leads(
        k5(v),
        m,
        s1,
        anything(),
        given(end),
    ) by {
        lemma_keep(p6, slot, s1, end, confined(copy));
        lemma_then(p6, k6, slot, s1, end, end);
    }
    assert forall|s1: Noted, v: ()| end(s1) implies #[trigger] leads(
        k4(v),
        m,
        s1,
        anything(),
        given(end),
    ) by {
        lemma_keep(p5, slot, s1, end, confined(copy));
        lemma_then(p5, k5, slot, s1, end, end);
    }
    assert forall|s1: Noted, v: ()| mid(s1) implies #[trigger] leads(
        k3(v),
        m,
        s1,
        anything(),
        given(end),
    ) by {
        lemma_keep_copy(slot, name, s1);
        lemma_then(p4, k4, slot, s1, end, end);
    }
    assert forall|s1: Noted, v: ()| mid(s1) implies #[trigger] leads(
        k2(v),
        m,
        s1,
        anything(),
        given(end),
    ) by {
        lemma_keep(p3, slot, s1, mid, drops_base);
        lemma_then(p3, k3, slot, s1, mid, end);
    }
    assert forall|s1: Noted, v: ()| mid(s1) implies #[trigger] leads(
        k1(v),
        m,
        s1,
        anything(),
        given(end),
    ) by {
        lemma_keep(p2, slot, s1, mid, spares_roots());
        lemma_then(p2, k2, slot, s1, mid, end);
    }
    lemma_keep(p1, slot, s, mid, spares_roots());
    lemma_then(p1, k1, slot, s, mid, end);
    reveal(post_transactions_script);
}

proof fn lemma_confined_more(req: Req)
    requires
        confined(set![chr("0"@)])(req),
    ensures
        confined(base_ids())(req),
{
}

proof fn lemma_note(build: Build, slot: Seq<char>, name: Seq<char>, s: Noted)
    requires
        is_recovery_slot(slot),
        slot == name ==> ready(s),
    ensures
        leads(
            note_recovery_script(build, name),
            keeping_files(slot),
            s,
            anything(),
            given(final_note(slot, name)),
        ),
{
    broadcast use crate::laws::group_calm;

    let m = keeping_files(slot);
    let first = |s1: Noted| slot == name ==> ready(s1);
    let mid = copied_note(slot, name);
    let end = final_note(slot, name);
    lemma_names();
    assert forall|s1: Noted, req: Req| confined(base_ids())(req) && first(s1) implies first(
        #[trigger] carried_out(s1, slot, req),
    ) by {
        if slot == name {
            lemma_ready_kept(slot, s1, req);
        }
    }
    let p1 = prepare_script(build, "0"@);
    let req = Req::WriteText { path: recovery_file(chr("0"@)), text: name };
    let p2 = done(req);
    let k2 = |u: ()| post_transactions_script(build, "0"@);
    let k1 = |u: ()| chain(p2, k2);
    assert forall|s1: Noted, v: ()| mid(s1) implies #[trigger] leads(
        k2(v),
        m,
        s1,
        anything(),
        given(end),
    ) by {
        lemma_post(build, slot, name, s1);
    }
    assert forall|s1: Noted, v: ()| first(s1) implies #[trigger] leads(
        k1(v),
        m,
        s1,
        anything(),
        given(end),
    ) by {
        assert(confined(base_ids())(req)) by {
            broadcast use crate::laws::group_placed;

            reveal_strlit("/usr/share/ash/rec-tmp");
        }
        if slot == name {
            lemma_ready_kept(slot, s1, req);
        }
        lemma_leads_done(req, m, s1, anything(), given(mid));
        lemma_then(p2, k2, slot, s1, mid, end);
    }
    lemma_keep(p1, slot, s, first, confined(base_ids()));
    lemma_then(p1, k1, slot, s, first, end);
    reveal(note_recovery_script);
}

/// A request neither makes nor deletes a subvolume, nor closes one.
pub open spec fn spares_subvolumes() -> spec_fn(Req) -> bool {
    |req: Req|
        !(req is CreateSubvolume) && !(req is DeleteSubvolume) && !(req is SnapshotSubvolume) && !(
        req is SetReadOnly)
}

proof fn lemma_deployed(slot: Seq<char>, name: Seq<char>, s: Noted)
    requires
        is_recovery_slot(slot),
    ensures
        leads(
            all_done(deploy_plan("0"@, name)),
            keeping_files(slot),
            s,
            anything(),
            given(|s1: Noted| slot == name ==> s1.made),
        ),
{
    let m = keeping_files(slot);
    let plan = deploy_plan("0"@, name);
    let inv = |i: int, s1: Noted| i >= 4 && slot == name ==> s1.made;
    assert(plan[3] == (Req::SnapshotSubvolume {
        from: rootfs("0"@),
        to: rootfs(name),
        read_only: false,
    }));
    assert forall|i: int, s1: Noted|
        0 <= i < plan.len() && #[trigger] inv(0 + i, s1) implies anything()(s1, plan[i]) && inv(
        0 + i + 1,
        (m.step)(s1, plan[i], Answer::Done),
    ) by {
        if i >= 4 {
            assert(plan[i] is MakeDirs || plan[i] is CopyTree);
        }
    }
    lemma_leads_all_done(plan, m, s, anything(), inv, 0);
    lemma_leads_weaker(
        all_done(plan),
        m,
        s,
        anything(),
        |s1: Noted, u: ()| inv(0int + plan.len(), s1),
        given(|s1: Noted| slot == name ==> s1.made),
    );
}

proof fn lemma_place_recovery(
    build: Build,
    options: Map<Seq<char>, Seq<char>>,
    slot: Seq<char>,
    name: Seq<char>,
    s: Noted,
)
    requires
        is_recovery_slot(slot),
    ensures
        leads(
            place_recovery_script(build, options, name),
            keeping_files(slot),
            s,
            anything(),
            given(final_note(slot, name)),
        ),
{
    let m = keeping_files(slot);
    let any = |s1: Noted| true;
    let made = |s1: Noted| slot == name ==> s1.made;
    let first = |s1: Noted| slot == name ==> ready(s1);
    let end = final_note(slot, name);
    let p1 = clear_slot(name);
    let p2 = all_done(deploy_plan("0"@, name));
    let p3 = rename_script(name);
    let p4 = writable_script("0"@, name);
    let p5 = enter_dirs_script(options, "0"@, name);
    let plan = seq![Req::WriteText { path: snap_file(name), text: "0"@ }, Req::SwitchRecoveryTmp];
    let p6 = all_done(plan);
    let k6 = |u: ()| note_recovery_script(build, name);
    let k5 = |u: ()| chain(p6, k6);
    let k4 = |u: ()| chain(p5, k5);
    let k3 = |u: ()| chain(p4, k4);
    let k2 = |u: ()| chain(p3, k3);
    let k1 = |u: ()| chain(p2, k2);
    let calm = spares_subvolumes();
    assert(asks_only(p3, calm) && asks_only(p4, calm) && asks_only(p5, calm) && asks_only(
        p1,
        |req: Req| true,
    )) by {
        broadcast use crate::script::group_asks;

        reveal(rename_script);
        reveal(writable_script);
        reveal(check_mutability_script);
        reveal(enter_dirs_script);
        reveal(clear_slot);
    }
    assert forall|s1: Noted, v: ()| first(s1) implies #[trigger] leads(
        k6(v),
        m,
        s1,
        anything(),
        given(end),
    ) by {
        lemma_note(build, slot, name, s1);
    }
    assert forall|s1: Noted, v: ()| made(s1) implies #[trigger] leads(
        k5(v),
        m,
        s1,
        anything(),
        given(end),
    ) by {
        let inv = |i: int, s2: Noted|
            made(s2) && (i >= 1 && slot == name ==> s2.snap == Some("0"@));
        lemma_leads_all_done(plan, m, s1, anything(), inv, 0);
        lemma_leads_weaker(
            p6,
            m,
            s1,
            anything(),
            |s2: Noted, u: ()| inv(0int + plan.len(), s2),
            given(first),
        );
        lemma_then(p6, k6, slot, s1, first, end);
    }
    assert forall|s1: Noted, v: ()| made(s1) implies #[trigger] leads(
        k4(v),
        m,
        s1,
        anything(),
        given(end),
    ) by {
        lemma_keep(p5, slot, s1, made, calm);
        lemma_then(p5, k5, slot, s1, made, end);
    }
    assert forall|s1: Noted, v: ()| made(s1) implies #[trigger] leads(
        k3(v),
        m,
        s1,
        anything(),
        given(end),
    ) by {
        lemma_keep(p4, slot, s1, made, calm);
        lemma_then(p4, k4, slot, s1, made, end);
    }
    assert forall|s1: Noted, v: ()| made(s1) implies #[trigger] leads(
        k2(v),
        m,
        s1,
        anything(),
        given(end),
    ) by {
        lemma_keep(p3, slot, s1, made, calm);
        lemma_then(p3, k3, slot, s1, made, end);
    }
    assert forall|s1: Noted, v: ()| any(s1) implies #[trigger] leads(
        k1(v),
        m,
        s1,
        anything(),
        given(end),
    ) by {
        lemma_deployed(slot, name, s1);
        lemma_leads_weaker(
            p2,
            m,
            s1,
            anything(),
            given(|s2: Noted| slot == name ==> s2.made),
            given(made),
        );
        lemma_then(p2, k2, slot, s1, made, end);
    }
    lemma_keep(p1, slot, s, any, |req: Req| true);
    lemma_then(p1, k1, slot, s, any, end);
    reveal(place_recovery_script);
}

// ----------------------------------------------------------------------- laws

proof fn lemma_name_is_trim(name: Seq<char>)
    requires
        is_recovery_slot(name),
    ensures
        trimmed(name) == name,
{
    reveal_strlit("recovery-deploy");
    reveal_strlit("recovery-deploy-aux");
    assert(name[0] == 'r' && (name.last() == 'y' || name.last() == 'x'));
    assert(trimmed_start(name) == name);
    assert(trimmed_end(name) == name);
}

/// What `get_recovery_tmp` gives is the name that the base snapshot notes.
pub proof fn law_noted_name(slot: Seq<char>, s: Noted)
    ensures
        leads(
            get_recovery_tmp_script(),
            keeping_files(slot),
            s,
            anything(),
            |s1: Noted, name: Seq<char>| s1 == s && name == noted_name(s.base),
        ),
{
    let m = keeping_files(slot);
    let ok = anything();
    let good = |s1: Noted, name: Seq<char>| s1 == s && name == noted_name(s.base);
    let file = recovery_file("0"@);
    let look = Req::IsFile { path: file };
    let read = Req::ReadText { path: file };
    let found = |s1: Noted, there: bool| s1 == s && there == s.base is Some;
    let got = |s1: Noted, content: Seq<char>| s1 == s && s.base == Some(content);
    lemma_leads_flag(look, m, s, ok, found);
    lemma_leads_text(read, m, s, ok, got);
    lemma_leads_sure(text(read), m, s, ok, got);
    let trim = |content: Seq<char>| give(trimmed(content));
    lemma_leads_chain(crate::script::sure(text(read)), trim, m, s, ok, got, good);
    let k = |there: bool|
        if there {
            chain(crate::script::sure(text(read)), trim)
        } else {
            give("recovery-deploy"@)
        };
    assert(found(s, true) ==> leads(k(true), m, s, ok, good));
    assert(found(s, false) ==> leads(k(false), m, s, ok, good));
    assert forall|s1: Noted, there: bool| #[trigger] found(s1, there) implies leads(
        k(there),
        m,
        s1,
        ok,
        good,
    ) by {}
    lemma_leads_chain(flag(look), k, m, s, ok, found, good);
    reveal(get_recovery_tmp_script);
    assert(get_recovery_tmp_script() == chain(flag(look), k));
}

/// Deploying for recovery makes the deployment that takes the place of the one that is noted: a
/// writable copy of the base snapshot, noted as made from it. After that its name is noted.
pub proof fn law_recovery_deployment(build: Build, slot: Seq<char>, s: Noted)
    requires
        is_recovery_slot(noted_name(s.base)),
        is_recovery_slot(slot),
    ensures
        ({
            let next = recovery_aux_tmp(noted_name(s.base));
            &&& next != noted_name(s.base)
            &&& leads(
                deploy_recovery_script(build),
                keeping_files(slot),
                s,
                anything(),
                |s1: Noted, u: ()| noted_name(s1.base) == next && (slot == next ==> ready(s1)),
            )
        }),
{
    broadcast use crate::laws::group_calm;

    let m = keeping_files(slot);
    let ok = anything();
    let now = noted_name(s.base);
    let next = recovery_aux_tmp(now);
    law_recovery_aux_tmp(now);
    lemma_name_is_trim(next);
    let any = |s1: Noted| true;
    let end = final_note(slot, next);
    let update = Req::UpdateBoot { snapshot: "0"@, secondary: false };
    let config = snapshot_config_get_script(build, "0"@);
    let place = |options: Map<Seq<char>, Seq<char>>| place_recovery_script(build, options, next);
    let k1 = |u: ()| chain(config, place);
    assert forall|s1: Noted, options: Map<Seq<char>, Seq<char>>| any(s1) implies #[trigger] leads(
        place(options),
        m,
        s1,
        ok,
        given(end),
    ) by {
        lemma_place_recovery(build, options, slot, next, s1);
    }
    assert forall|s1: Noted, u: ()| any(s1) implies #[trigger] leads(
        k1(u),
        m,
        s1,
        ok,
        given(end),
    ) by {
        lemma_keep(config, slot, s1, any, confined(base_ids()));
        lemma_then(config, place, slot, s1, any, end);
    }
    let rest = |tmp: Seq<char>|
        chain(
            done(update),
            |u: ()|
                chain(
                    config,
                    |options: Map<Seq<char>, Seq<char>>|
                        place_recovery_script(build, options, recovery_aux_tmp(tmp)),
                ),
        );
    assert(rest(now) == chain(done(update), k1));
    let good = |s1: Noted, name: Seq<char>| s1 == s && name == now;
    assert(leads(rest(now), m, s, ok, given(end))) by {
        lemma_leads_done(update, m, s, ok, given(any));
        lemma_then(done(update), k1, slot, s, any, end);
    }
    law_noted_name(slot, s);
    lemma_leads_weaker(
        get_recovery_tmp_script(),
        m,
        s,
        ok,
        |s1: Noted, name: Seq<char>| s1 == s && name == noted_name(s.base),
        good,
    );
    lemma_leads_chain(get_recovery_tmp_script(), rest, m, s, ok, good, given(end));
    reveal(deploy_recovery_script);
    assert(deploy_recovery_script(build) == chain(get_recovery_tmp_script(), rest));
    lemma_leads_weaker(
        deploy_recovery_script(build),
        m,
        s,
        ok,
        given(end),
        |s1: Noted, u: ()| noted_name(s1.base) == next && (slot == next ==> ready(s1)),
    );
}

/// The recovery deployments take turns: after two deployments for recovery, the name that is
/// noted is the one from before.
pub proof fn law_recovery_alternates(build: Build, slot: Seq<char>, s: Noted)
    requires
        is_recovery_slot(noted_name(s.base)),
        is_recovery_slot(slot),
    ensures
        leads(
            chain(deploy_recovery_script(build), |u: ()| deploy_recovery_script(build)),
            keeping_files(slot),
            s,
            anything(),
            |s1: Noted, u: ()| noted_name(s1.base) == noted_name(s.base),
        ),
{
    let m = keeping_files(slot);
    let ok = anything();
    let now = noted_name(s.base);
    let next = recovery_aux_tmp(now);
    law_recovery_aux_tmp(now);
    law_recovery_deployment(build, slot, s);
    let once = |s1: Noted, u: ()| noted_name(s1.base) == next && (slot == next ==> ready(s1));
    let twice = |s1: Noted, u: ()| noted_name(s1.base) == now;
    let again = |u: ()| deploy_recovery_script(build);
    assert forall|s1: Noted, u: ()| #[trigger] once(s1, u) implies leads(
        again(u),
        m,
        s1,
        ok,
        twice,
    ) by {
        law_recovery_deployment(build, slot, s1);
        lemma_leads_weaker(
            deploy_recovery_script(build),
            m,
            s1,
            ok,
            |s2: Noted, v: ()|
                noted_name(s2.base) == recovery_aux_tmp(noted_name(s1.base)) && (slot
                    == recovery_aux_tmp(noted_name(s1.base)) ==> ready(s2)),
            twice,
        );
    }
    lemma_leads_chain(deploy_recovery_script(build), again, m, s, ok, once, twice);
}

}
