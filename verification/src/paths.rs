//! Where snapshots and what belongs to them are kept.

use vstd::prelude::*;
use crate::request::{Req, Request};
use crate::text::{cat, cat3, letters, occurs_at, piece, same, split, split_char, starts_with};

verus! {

/// The four subvolumes of a snapshot.
#[derive(Clone, Copy, Debug, PartialEq, Eq, Structural)]
pub enum Volume {
    Boot,
    Etc,
    Var,
    Rootfs,
}

/// The path of a subvolume of the snapshot `id`.
pub open spec fn volume(v: Volume, id: Seq<char>) -> Seq<char> {
    match v {
        Volume::Boot => "/.snapshots/boot/boot-"@ + id,
        Volume::Etc => "/.snapshots/etc/etc-"@ + id,
        Volume::Var => "/.snapshots/var/var-"@ + id,
        Volume::Rootfs => "/.snapshots/rootfs/snapshot-"@ + id,
    }
}

/// The path of the root file system of the snapshot `id`.
pub open spec fn rootfs(id: Seq<char>) -> Seq<char> {
    volume(Volume::Rootfs, id)
}

/// The name of the temporary copy of the snapshot `id` in which changes are made.
pub open spec fn chr(id: Seq<char>) -> Seq<char> {
    "chr"@ + id
}

/// The mark of a mutable snapshot.
pub open spec fn mutable_mark(id: Seq<char>) -> Seq<char> {
    rootfs(id) + "/usr/share/ash/mutable"@
}

/// The file that names the snapshot that a deployment was made from.
pub open spec fn snap_file(id: Seq<char>) -> Seq<char> {
    rootfs(id) + "/usr/share/ash/snap"@
}

/// The file system table of a deployment.
pub open spec fn fstab(id: Seq<char>) -> Seq<char> {
    rootfs(id) + "/etc/fstab"@
}

/// The description of the snapshot `id`.
pub open spec fn desc_file(id: Seq<char>) -> Seq<char> {
    "/.snapshots/ash/snapshots/"@ + id + "-desc"@
}

/// The snapshot of a subvolume.
pub open spec fn snap(v: Volume, from: Seq<char>, to: Seq<char>, read_only: bool) -> Req {
    Req::SnapshotSubvolume { from: volume(v, from), to: volume(v, to), read_only }
}

/// The deletion of a subvolume.
pub open spec fn drop_volume(v: Volume, id: Seq<char>) -> Req {
    Req::DeleteSubvolume { path: volume(v, id) }
}

/// Copies all four subvolumes of a snapshot.
pub open spec fn copy_plan(from: Seq<char>, to: Seq<char>, read_only: bool) -> Seq<Req> {
    seq![
        snap(Volume::Boot, from, to, read_only),
        snap(Volume::Etc, from, to, read_only),
        snap(Volume::Var, from, to, read_only),
        snap(Volume::Rootfs, from, to, read_only),
    ]
}

/// Deletes all four subvolumes of a snapshot.
pub open spec fn drop_plan(id: Seq<char>) -> Seq<Req> {
    seq![
        drop_volume(Volume::Boot, id),
        drop_volume(Volume::Etc, id),
        drop_volume(Volume::Var, id),
        drop_volume(Volume::Rootfs, id),
    ]
}

/// The path of a subvolume of the snapshot `id`.
pub fn volume_path(v: Volume, id: &str) -> (r: String)
    ensures
        r@ == volume(v, id@),
{
    match v {
        Volume::Boot => cat("/.snapshots/boot/boot-", id),
        Volume::Etc => cat("/.snapshots/etc/etc-", id),
        Volume::Var => cat("/.snapshots/var/var-", id),
        Volume::Rootfs => cat("/.snapshots/rootfs/snapshot-", id),
    }
}

/// The path of the root file system of the snapshot `id`.
pub fn rootfs_path(id: &str) -> (r: String)
    ensures
        r@ == rootfs(id@),
{
    volume_path(Volume::Rootfs, id)
}

/// A path below the root file system of the snapshot `id`.
pub fn below(id: &str, rest: &str) -> (r: String)
    ensures
        r@ == rootfs(id@) + rest@,
{
    cat(rootfs_path(id).as_str(), rest)
}

/// The name of the temporary copy of the snapshot `id`.
pub fn chr_name(id: &str) -> (r: String)
    ensures
        r@ == chr(id@),
{
    cat("chr", id)
}

/// The description of the snapshot `id`.
pub fn desc_path(id: &str) -> (r: String)
    ensures
        r@ == desc_file(id@),
{
    cat3("/.snapshots/ash/snapshots/", id, "-desc")
}

/// The snapshot of a subvolume.
pub fn snap_request(v: Volume, from: &str, to: &str, read_only: bool) -> (r: Request)
    ensures
        r.deep_view() == snap(v, from@, to@, read_only),
{
    Request::SnapshotSubvolume { from: volume_path(v, from), to: volume_path(v, to), read_only }
}

/// The deletion of a subvolume.
pub fn drop_request(v: Volume, id: &str) -> (r: Request)
    ensures
        r.deep_view() == drop_volume(v, id@),
{
    Request::DeleteSubvolume { path: volume_path(v, id) }
}

/// Copies all four subvolumes of a snapshot.
pub fn copy_requests(from: &str, to: &str, read_only: bool) -> (r: Vec<Request>)
    ensures
        r.deep_view() == copy_plan(from@, to@, read_only),
{
    let r = vec![
        snap_request(Volume::Boot, from, to, read_only),
        snap_request(Volume::Etc, from, to, read_only),
        snap_request(Volume::Var, from, to, read_only),
        snap_request(Volume::Rootfs, from, to, read_only),
    ];
    assert(r.deep_view() =~= copy_plan(from@, to@, read_only));
    r
}

/// Deletes all four subvolumes of a snapshot.
pub fn drop_requests(id: &str) -> (r: Vec<Request>)
    ensures
        r.deep_view() == drop_plan(id@),
{
    let r = vec![
        drop_request(Volume::Boot, id),
        drop_request(Volume::Etc, id),
        drop_request(Volume::Var, id),
        drop_request(Volume::Rootfs, id),
    ];
    assert(r.deep_view() =~= drop_plan(id@));
    r
}

// --------------------------------------------------- what a directory holds

/// What the paths of all that a directory holds begin with.
pub open spec fn stem(dir: Seq<char>) -> Seq<char> {
    if dir.len() > 0 && dir.last() == '/' {
        dir
    } else {
        dir + "/"@
    }
}

/// A name that something in a directory can have.
pub open spec fn simple(name: Seq<char>) -> bool {
    name.len() > 0 && !name.contains('/') && name != "."@ && name != ".."@
}

/// The path is that of something in the directory.
pub open spec fn entry_of(dir: Seq<char>, path: Seq<char>) -> bool {
    occurs_at(path, stem(dir), 0) && simple(path.skip(stem(dir).len() as int))
}

/// The paths are those of things in the directory.
pub open spec fn entries_of(dir: Seq<char>, paths: Seq<Seq<char>>) -> bool {
    forall|i: int| 0 <= i < paths.len() ==> entry_of(dir, #[trigger] paths[i])
}

fn stem_of(dir: &str) -> (r: String)
    ensures
        r@ == stem(dir@),
{
    let chars = letters(dir);
    let n: usize = chars.len();
    if n > 0 && chars[n - 1] == '/' {
        dir.to_owned()
    } else {
        cat(dir, "/")
    }
}

fn is_simple(name: &str) -> (r: bool)
    ensures
        r == simple(name@),
{
    let chars = letters(name);
    let mut i: usize = 0;
    while i < chars.len()
        invariant
            i <= chars.len(),
            chars@ == name@,
            forall|j: int| 0 <= j < i ==> name@[j] != '/',
        decreases chars.len() - i,
    {
        if chars[i] == '/' {
            assert(name@[i as int] == '/');
            return false;
        }
        i += 1;
    }
    chars.len() > 0 && !same(name, ".") && !same(name, "..")
}

/// Whether the paths are those of things in the directory.
pub fn are_entries(dir: &str, paths: &Vec<String>) -> (r: bool)
    ensures
        r == entries_of(dir@, paths.deep_view()),
{
    let ghost all = paths.deep_view();
    let start = stem_of(dir);
    let mut i: usize = 0;
    while i < paths.len()
        invariant
            i <= paths.len(),
            all == paths.deep_view(),
            start@ == stem(dir@),
            forall|j: int| 0 <= j < i ==> entry_of(dir@, #[trigger] all[j]),
        decreases paths.len() - i,
    {
        let path = paths[i].as_str();
        assert(all[i as int] == path@);
        if !starts_with(path, start.as_str()) {
            return false;
        }
        let chars = letters(path);
        let name = piece(&chars, letters(start.as_str()).len(), chars.len());
        assert(name@ =~= path@.skip(start@.len() as int));
        if !is_simple(name.as_str()) {
            return false;
        }
        i += 1;
    }
    true
}

// ------------------------------------------------------------ path equality

/// Whether a piece between slashes counts: empty ones do not, nor does `.` but at the start.
pub open spec fn counts(piece: Seq<char>, first: bool) -> bool {
    piece.len() > 0 && (first || piece != "."@)
}

/// The pieces that count.
pub open spec fn counted(pieces: Seq<Seq<char>>, first: bool) -> Seq<Seq<char>>
    decreases pieces.len(),
{
    if pieces.len() == 0 {
        seq![]
    } else if counts(pieces[0], first) {
        seq![pieces[0]] + counted(pieces.drop_first(), false)
    } else {
        counted(pieces.drop_first(), false)
    }
}

/// The names that a path is made of.
pub open spec fn names(path: Seq<char>) -> Seq<Seq<char>> {
    counted(split(path, '/'), true)
}

/// Whether a path begins at the root.
pub open spec fn absolute(path: Seq<char>) -> bool {
    path.len() > 0 && path[0] == '/'
}

/// Two paths are the same: repeated and trailing slashes make no difference, nor does `.`.
pub open spec fn same_path(a: Seq<char>, b: Seq<char>) -> bool {
    absolute(a) == absolute(b) && names(a) == names(b)
}

/// The last name of a path, where it is the name of something.
pub open spec fn file_name(path: Seq<char>) -> Option<Seq<char>> {
    let list = names(path);
    if list.len() > 0 && list.last() != ".."@ && list.last() != "."@ {
        Some(list.last())
    } else {
        None
    }
}

/// The names that a path is made of.
pub fn path_names(path: &str) -> (r: Vec<String>)
    ensures
        r.deep_view() == names(path@),
{
    let pieces = split_char(path, '/');
    let ghost all = pieces.deep_view();
    let mut r: Vec<String> = Vec::new();
    let mut i: usize = 0;
    assert(all.skip(0) =~= all);
    assert(r.deep_view() + counted(all, true) =~= counted(all, true));
    while i < pieces.len()
        invariant
            i <= pieces.len(),
            all == pieces.deep_view(),
            r.deep_view() + counted(all.skip(i as int), i == 0) == counted(all, true),
        decreases pieces.len() - i,
    {
        let ghost rest = all.skip(i as int);
        let ghost seen = r.deep_view();
        assert(rest.drop_first() =~= all.skip(i + 1));
        assert(rest[0] == pieces[i as int]@);
        if !pieces[i].as_str().is_empty() && (i == 0 || !same(pieces[i].as_str(), ".")) {
            r.push(pieces[i].clone());
            assert(r.deep_view() =~= seen.push(rest[0]));
            assert(r.deep_view() + counted(rest.drop_first(), false) =~= seen + counted(
                rest,
                i == 0,
            ));
        }
        i += 1;
    }
    assert(r.deep_view() =~= counted(all, true));
    r
}

/// Whether two lists of texts are equal.
pub fn same_list(a: &Vec<String>, b: &Vec<String>) -> (r: bool)
    ensures
        r == (a.deep_view() == b.deep_view()),
{
    if a.len() != b.len() {
        assert(a.deep_view().len() != b.deep_view().len());
        return false;
    }
    let mut i: usize = 0;
    while i < a.len()
        invariant
            i <= a.len(),
            a.len() == b.len(),
            forall|j: int| 0 <= j < i ==> a.deep_view()[j] == b.deep_view()[j],
        decreases a.len() - i,
    {
        if !same(a[i].as_str(), b[i].as_str()) {
            assert(a.deep_view()[i as int] != b.deep_view()[i as int]);
            return false;
        }
        i += 1;
    }
    assert(a.deep_view() =~= b.deep_view());
    true
}

fn is_absolute(path: &str) -> (r: bool)
    ensures
        r == absolute(path@),
{
    for c in iter: path.chars()
        invariant
            iter.seq() == path@,
            iter.index() == 0,
    {
        return c == '/';
    }
    false
}

/// Whether two paths are the same.
pub fn paths_equal(a: &str, b: &str) -> (r: bool)
    ensures
        r == same_path(a@, b@),
{
    is_absolute(a) == is_absolute(b) && same_list(&path_names(a), &path_names(b))
}

/// Whether a list of paths has one that is the same as `path`.
pub open spec fn has_path(list: Seq<Seq<char>>, path: Seq<char>) -> bool {
    exists|i: int| 0 <= i < list.len() && same_path(#[trigger] list[i], path)
}

/// Whether a list of paths has one that is the same as `path`.
pub fn path_listed(list: &Vec<String>, path: &str) -> (r: bool)
    ensures
        r == has_path(list.deep_view(), path@),
{
    let mut i: usize = 0;
    while i < list.len()
        invariant
            i <= list.len(),
            forall|j: int| 0 <= j < i ==> !same_path(#[trigger] list.deep_view()[j], path@),
        decreases list.len() - i,
    {
        if paths_equal(list[i].as_str(), path) {
            assert(same_path(list.deep_view()[i as int], path@));
            return true;
        }
        i += 1;
    }
    false
}

/// The last name of a path.
pub fn name_of(path: &str) -> (r: Option<String>)
    ensures
        r.deep_view() == file_name(path@),
{
    let list = path_names(path);
    let n: usize = list.len();
    if n > 0 && !same(list[n - 1].as_str(), "..") && !same(list[n - 1].as_str(), ".") {
        Some(list[n - 1].clone())
    } else {
        None
    }
}

}
