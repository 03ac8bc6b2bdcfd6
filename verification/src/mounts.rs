//! The mounts of a snapshot in which programs run.

use vstd::prelude::*;
use crate::host::{ran, sure, Halt, Host};
use crate::paths::{has_path, path_listed, rootfs, rootfs_path};
use crate::request::{MountMode, Req, Request};
use crate::script::{all_done, chain, done, flag, give, texts, Script};
use crate::text::{cat, same};

verus! {

broadcast use crate::script::group_run;

/// A mount below `root` that receives events from its source.
pub open spec fn slave(source: Seq<char>, root: Seq<char>, rest: Seq<char>, fstype: Seq<char>) -> Req {
    Req::Mount { source, target: root + rest, fstype, mode: MountMode::Slave }
}

/// A mount of a whole tree below `root` that receives events from its source.
pub open spec fn deep_slave(
    source: Seq<char>,
    root: Seq<char>,
    rest: Seq<char>,
    fstype: Seq<char>,
) -> Req {
    Req::Mount { source, target: root + rest, fstype, mode: MountMode::RecursiveSlave }
}

/// The process file system below `root`.
pub open spec fn proc_mount(root: Seq<char>) -> Req {
    Req::Mount {
        source: "/proc"@,
        target: root + "/proc"@,
        fstype: "proc"@,
        mode: MountMode::Hardened,
    }
}

/// The mount of a root on itself.
pub open spec fn self_mount(root: Seq<char>) -> Req {
    Req::Mount { source: root, target: root, fstype: "btrfs"@, mode: MountMode::Slave }
}

/// Unmounts what is mounted below `root`.
pub open spec fn release(root: Seq<char>, rest: Seq<char>, detach: bool) -> Req {
    Req::Unmount { target: root + rest, detach }
}

/// The mounts up to the firmware variables; those of `/etc` and `/var` only where `full`.
pub open spec fn first_mounts(root: Seq<char>, full: bool) -> Seq<Req> {
    let etc = if full { seq![slave("/etc"@, root, "/etc"@, "btrfs"@)] } else { seq![] };
    let var = if full { seq![slave("/var"@, root, "/var"@, "btrfs"@)] } else { seq![] };
    seq![self_mount(root), slave("/dev"@, root, "/dev"@, "btrfs"@)] + etc + seq![
        slave("/home"@, root, "/home"@, "btrfs"@),
        proc_mount(root),
        slave("/root"@, root, "/root"@, "btrfs"@),
        slave("/run"@, root, "/run"@, "tmpfs"@),
        slave("/sys"@, root, "/sys"@, "sysfs"@),
        deep_slave("/tmp"@, root, "/tmp"@, "tmpfs"@),
    ] + var
}

/// The mounts from the firmware variables on, which are there only where `efi`.
pub open spec fn last_mounts(root: Seq<char>, efi: bool) -> Seq<Req> {
    let vars = if efi {
        seq![
            deep_slave(
                "/sys/firmware/efi/efivars"@,
                root,
                "/sys/firmware/efi/efivars"@,
                "efivarfs"@,
            ),
        ]
    } else {
        seq![]
    };
    vars + seq![slave("/etc/resolv.conf"@, root, "/etc/resolv.conf"@, "btrfs"@)]
}

/// What is unmounted after the name service configuration.
pub open spec fn last_releases(root: Seq<char>, full: bool, efi: bool) -> Seq<Req> {
    let vars = if efi { seq![release(root, "/sys/firmware/efi/efivars"@, false)] } else { seq![] };
    let var = if full { seq![release(root, "/var"@, false)] } else { seq![] };
    let etc = if full { seq![release(root, "/etc"@, true)] } else { seq![] };
    vars + var + seq![
        release(root, "/tmp"@, true),
        release(root, "/sys"@, true),
        release(root, "/run"@, true),
        release(root, "/root"@, true),
        release(root, "/proc"@, true),
        release(root, "/home"@, true),
    ] + etc + seq![
        release(root, "/dev"@, true),
        Req::Unmount { target: root, detach: true },
    ]
}

/// Whether the machine was started by EFI firmware.
pub open spec fn is_efi_script() -> Script<bool> {
    crate::script::sure(flag(Req::Exists { path: "/sys/firmware/efi"@ }))
}

/// What `ash_mounts` does.
#[verifier::opaque]
pub open spec fn ash_mounts_script(i: Seq<char>, chr: Seq<char>) -> Script<()> {
    let root = rootfs(chr + i);
    let full = chr != "chr"@;
    chain(
        all_done(first_mounts(root, full)),
        |u: ()| chain(is_efi_script(), |efi: bool| all_done(last_mounts(root, efi))),
    )
}

/// What `ash_umounts` does.
#[verifier::opaque]
pub open spec fn ash_umounts_script(i: Seq<char>, chr: Seq<char>) -> Script<()> {
    let root = rootfs(chr + i);
    let full = chr != "chr"@;
    chain(
        done(release(root, "/etc/resolv.conf"@, false)),
        |u: ()| chain(is_efi_script(), |efi: bool| all_done(last_releases(root, full, efi))),
    )
}

/// Whether something is mounted on `path`.
#[verifier::opaque]
pub open spec fn is_mounted_script(path: Seq<char>) -> Script<bool> {
    chain(
        crate::script::sure(texts(Req::MountPoints)),
        |list: Seq<Seq<char>>| give(has_path(list, path)),
    )
}

fn slave_request(source: &str, root: &str, rest: &str, fstype: &str) -> (r: Request)
    ensures
        r.deep_view() == slave(source@, root@, rest@, fstype@),
{
    Request::Mount {
        source: source.to_owned(),
        target: cat(root, rest),
        fstype: fstype.to_owned(),
        mode: MountMode::Slave,
    }
}

fn deep_slave_request(source: &str, root: &str, rest: &str, fstype: &str) -> (r: Request)
    ensures
        r.deep_view() == deep_slave(source@, root@, rest@, fstype@),
{
    Request::Mount {
        source: source.to_owned(),
        target: cat(root, rest),
        fstype: fstype.to_owned(),
        mode: MountMode::RecursiveSlave,
    }
}

fn release_request(root: &str, rest: &str, detach: bool) -> (r: Request)
    ensures
        r.deep_view() == release(root@, rest@, detach),
{
    Request::Unmount { target: cat(root, rest), detach }
}

fn first_mount_requests(root: &str, full: bool) -> (r: Vec<Request>)
    ensures
        r.deep_view() == first_mounts(root@, full),
{
    let mut r: Vec<Request> = Vec::new();
    r.push(
        Request::Mount {
            source: root.to_owned(),
            target: root.to_owned(),
            fstype: "btrfs".to_owned(),
            mode: MountMode::Slave,
        },
    );
    r.push(slave_request("/dev", root, "/dev", "btrfs"));
    if full {
        r.push(slave_request("/etc", root, "/etc", "btrfs"));
    }
    r.push(slave_request("/home", root, "/home", "btrfs"));
    r.push(
        Request::Mount {
            source: "/proc".to_owned(),
            target: cat(root, "/proc"),
            fstype: "proc".to_owned(),
            mode: MountMode::Hardened,
        },
    );
    r.push(slave_request("/root", root, "/root", "btrfs"));
    r.push(slave_request("/run", root, "/run", "tmpfs"));
    r.push(slave_request("/sys", root, "/sys", "sysfs"));
    r.push(deep_slave_request("/tmp", root, "/tmp", "tmpfs"));
    if full {
        r.push(slave_request("/var", root, "/var", "btrfs"));
    }
    assert(r.deep_view() =~= first_mounts(root@, full));
    r
}

fn last_mount_requests(root: &str, efi: bool) -> (r: Vec<Request>)
    ensures
        r.deep_view() == last_mounts(root@, efi),
{
    let mut r: Vec<Request> = Vec::new();
    if efi {
        r.push(
            deep_slave_request(
                "/sys/firmware/efi/efivars",
                root,
                "/sys/firmware/efi/efivars",
                "efivarfs",
            ),
        );
    }
    r.push(slave_request("/etc/resolv.conf", root, "/etc/resolv.conf", "btrfs"));
    assert(r.deep_view() =~= last_mounts(root@, efi));
    r
}

fn last_release_requests(root: &str, full: bool, efi: bool) -> (r: Vec<Request>)
    ensures
        r.deep_view() == last_releases(root@, full, efi),
{
    let mut r: Vec<Request> = Vec::new();
    if efi {
        r.push(release_request(root, "/sys/firmware/efi/efivars", false));
    }
    if full {
        r.push(release_request(root, "/var", false));
    }
    r.push(release_request(root, "/tmp", true));
    r.push(release_request(root, "/sys", true));
    r.push(release_request(root, "/run", true));
    r.push(release_request(root, "/root", true));
    r.push(release_request(root, "/proc", true));
    r.push(release_request(root, "/home", true));
    if full {
        r.push(release_request(root, "/etc", true));
    }
    r.push(release_request(root, "/dev", true));
    r.push(Request::Unmount { target: root.to_owned(), detach: true });
    assert(r.deep_view() =~= last_releases(root@, full, efi));
    r
}

/// Whether the machine was started by EFI firmware.
pub fn is_efi(host: &mut Host) -> (r: Result<bool, Halt>)
    ensures
        ran(old(host)@, final(host)@, r, is_efi_script()),
{
    sure(host.flag(Request::Exists { path: "/sys/firmware/efi".to_owned() }))
}

/// Mounts what programs need below the root of the snapshot `i`, or of its temporary copy.
pub fn ash_mounts(host: &mut Host, i: &str, chr: &str) -> (r: Result<(), Halt>)
    ensures
        ran(old(host)@, final(host)@, r, ash_mounts_script(i@, chr@)),
{
    reveal(ash_mounts_script);
    let root = rootfs_path(cat(chr, i).as_str());
    let full = !same(chr, "chr");
    host.all_done(first_mount_requests(root.as_str(), full))?;
    let efi = is_efi(host)?;
    host.all_done(last_mount_requests(root.as_str(), efi))
}

/// Undoes what `ash_mounts` did, in reverse order.
pub fn ash_umounts(host: &mut Host, i: &str, chr: &str) -> (r: Result<(), Halt>)
    ensures
        ran(old(host)@, final(host)@, r, ash_umounts_script(i@, chr@)),
{
    reveal(ash_umounts_script);
    let root = rootfs_path(cat(chr, i).as_str());
    let full = !same(chr, "chr");
    host.done(release_request(root.as_str(), "/etc/resolv.conf", false))?;
    let efi = is_efi(host)?;
    host.all_done(last_release_requests(root.as_str(), full, efi))
}

/// Whether something is mounted on `path`.
pub fn is_mounted(host: &mut Host, path: &str) -> (r: Result<bool, Halt>)
    ensures
        ran(old(host)@, final(host)@, r, is_mounted_script(path@)),
{
    reveal(is_mounted_script);
    let list = sure(host.texts(Request::MountPoints))?;
    Ok(path_listed(&list, path))
}

// --------------------------------------------------------------------- laws

/// Where the requests of a plan mount something, in order.
pub open spec fn targets(plan: Seq<Req>) -> Seq<Seq<char>> {
    Seq::new(
        plan.len(),
        |i: int|
            match plan[i] {
                Req::Mount { target, .. } => target,
                Req::Unmount { target, .. } => target,
                _ => seq![],
            },
    )
}

/// What is unmounted is what was mounted, the last mount first.
pub proof fn law_reverse_order(root: Seq<char>, full: bool, efi: bool)
    ensures
        targets(seq![release(root, "/etc/resolv.conf"@, false)] + last_releases(root, full, efi))
            == targets(first_mounts(root, full) + last_mounts(root, efi)).reverse(),
{
    let down = seq![release(root, "/etc/resolv.conf"@, false)] + last_releases(root, full, efi);
    let up = first_mounts(root, full) + last_mounts(root, efi);
    assert(targets(down) =~= targets(up).reverse());
}

}
