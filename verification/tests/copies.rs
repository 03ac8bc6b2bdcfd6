use ash::{Build, Error, ErrorKind, ExitStatus, Halt, Host, LocalTime, Profile, Reply, Request};
use ash::{
    chr_delete, chroot_check, chroot_exec, chroot_in, post_transactions, posttrans, prepare,
    snapshot_unlock, temp_snapshots_clear,
};

/// Runs an operation to its end; `answer` replies to each request.
fn drive<T>(
    build: Build,
    op: impl Fn(&mut Host) -> Result<T, Halt>,
    answer: impl Fn(&Request) -> Reply,
) -> (Result<T, Halt>, Vec<Request>) {
    let mut replies: Vec<Reply> = Vec::new();
    let mut asked: Vec<Request> = Vec::new();
    loop {
        let mut host = Host::new(build, replies.clone());
        match op(&mut host) {
            Err(Halt::Pending(req)) => {
                replies.push(answer(&req));
                asked.push(req);
            }
            end => {
                assert_eq!(host.asked(), &asked);
                return (end, asked);
            }
        }
    }
}

fn pacman() -> Build {
    Build { pacman: true, lock: false }
}

/// A reply that fits: nothing is there, and everything works.
fn plain(req: &Request) -> Reply {
    match req {
        Request::Exists { .. }
        | Request::IsFile { .. }
        | Request::IsSymlink { .. }
        | Request::IsDir { .. }
        | Request::EnvSet { .. }
        | Request::Interrupted
        | Request::AurEnabled { .. }
        | Request::ServiceEnabled { .. } => Reply::Flag(false),
        Request::ReadText { .. }
        | Request::PkgQuery { .. }
        | Request::SwitchTmp { .. }
        | Request::DistroId
        | Request::ParentOf { .. }
        | Request::Fetch { .. }
        | Request::DevicePath { .. } => Reply::Text(String::new()),
        Request::ReadLine => Reply::Text("y".to_string()),
        Request::ListDir { .. } | Request::ReadLines { .. } => Reply::Listing(vec![], None),
        Request::WalkTop { .. } => Reply::Entries(vec![], None),
        Request::Run { .. } | Request::RunQuiet { .. } => {
            Reply::Status(ExitStatus { code: Some(0) })
        }
        Request::MountPoints
        | Request::PkgList { .. }
        | Request::NoDepPkgList { .. }
        | Request::ChildrenOf { .. }
        | Request::OrderOf { .. } => Reply::Texts(vec![]),
        Request::LoadTree => Reply::Tree(7),
        Request::ReadProfile { .. } => Reply::Profile(Profile::empty()),
        Request::LocalTime => Reply::Time(LocalTime {
            year: 2024,
            month: 3,
            day: 9,
            hour: 7,
            minute: 5,
            second: 0,
        }),
        _ => Reply::Done,
    }
}

fn broken(text: &str) -> Reply {
    Reply::Failed(Error { kind: ErrorKind::Other, text: text.to_string() })
}

fn s(text: &str) -> String {
    text.to_string()
}

fn failed(kind: ErrorKind, text: &str) -> Halt {
    Halt::Failed(Error { kind, text: text.to_string() })
}

fn look(path: &str) -> Request {
    Request::Exists { path: path.to_string() }
}

fn delete(path: &str) -> Request {
    Request::DeleteSubvolume { path: path.to_string() }
}

fn snap(from: &str, to: &str, read_only: bool) -> Request {
    Request::SnapshotSubvolume { from: from.to_string(), to: to.to_string(), read_only }
}

fn eprint(text: &str) -> Request {
    Request::Eprint { text: text.to_string() }
}

fn shell(line: &str) -> Request {
    Request::Run { program: s("sh"), args: vec![s("-c"), line.to_string()] }
}

/// Whether a request looks for this path.
fn looks_for(req: &Request, path: &str) -> bool {
    match req {
        Request::Exists { path: p } => p == path,
        _ => false,
    }
}

fn all_there(req: &Request) -> Reply {
    match req {
        Request::Exists { .. } => Reply::Flag(true),
        _ => plain(req),
    }
}

#[test]
fn copy_is_deleted_piece_by_piece() {
    let (end, asked) = drive(pacman(), |h| chr_delete(h, "8"), all_there);
    assert_eq!(end, Ok(()));
    assert_eq!(
        asked,
        vec![
            look("/.snapshots/boot/boot-chr8"),
            delete("/.snapshots/boot/boot-chr8"),
            look("/.snapshots/etc/etc-chr8"),
            delete("/.snapshots/etc/etc-chr8"),
            look("/.snapshots/var/var-chr8"),
            delete("/.snapshots/var/var-chr8"),
            look("/.snapshots/rootfs/snapshot-chr8"),
            delete("/.snapshots/rootfs/snapshot-chr8"),
        ]
    );
    let (end, asked) = drive(pacman(), |h| chr_delete(h, "8"), plain);
    assert_eq!(end, Ok(()));
    assert_eq!(asked.len(), 4);
}

#[test]
fn stubborn_copy_is_emptied_first() {
    let root = "/.snapshots/rootfs/snapshot-chr8";
    let mut replies = Vec::new();
    let mut asked = Vec::new();
    let mut tries = 0;
    let end = loop {
        let mut host = Host::new(pacman(), replies.clone());
        match chr_delete(&mut host, "8") {
            Err(Halt::Pending(req)) => {
                let reply = if req == delete(root) {
                    tries += 1;
                    if tries == 1 { broken("not empty") } else { Reply::Done }
                } else {
                    all_there(&req)
                };
                replies.push(reply);
                asked.push(req);
            }
            end => break end,
        }
    };
    assert_eq!(end, Ok(()));
    assert_eq!(
        asked[7..],
        [delete(root), Request::ListDir { path: s(root) }, delete(root)]
    );
}

#[test]
fn failed_deletion_of_a_part_is_an_error() {
    let (end, asked) = drive(pacman(), |h| chr_delete(h, "8"), |req| match req {
        Request::DeleteSubvolume { .. } => broken("busy"),
        _ => all_there(req),
    });
    assert_eq!(end, Err(failed(ErrorKind::Other, "busy")));
    assert_eq!(asked.len(), 2);
}

#[test]
fn preparing_makes_a_writable_copy() {
    let (end, asked) = drive(pacman(), |h| prepare(h, "8"), plain);
    assert_eq!(end, Ok(()));
    let made: Vec<&Request> =
        asked.iter().filter(|r| matches!(r, Request::SnapshotSubvolume { .. })).collect();
    assert_eq!(
        made,
        vec![
            &snap("/.snapshots/rootfs/snapshot-8", "/.snapshots/rootfs/snapshot-chr8", false),
            &snap("/.snapshots/boot/boot-8", "/.snapshots/boot/boot-chr8", false),
            &snap("/.snapshots/etc/etc-8", "/.snapshots/etc/etc-chr8", false),
            &snap("/.snapshots/var/var-8", "/.snapshots/var/var-chr8", false),
        ]
    );
    assert!(asked.contains(&Request::CopyTree {
        from: s("/.snapshots/etc/etc-chr8/."),
        to: s("/.snapshots/rootfs/snapshot-chr8/etc"),
    }));
    assert!(asked.contains(&Request::CopyFile {
        from: s("/.snapshots/ash/fstree"),
        to: s("/.snapshots/rootfs/snapshot-chr8/.snapshots/ash/fstree"),
    }));
    assert!(!asked.iter().any(|r| matches!(r, Request::CopyFile { from, .. } if from == "/etc/machine-id")));
    assert_eq!(
        asked.last(),
        Some(&Request::CopyCache { snapshot: s("8"), into_chroot: true })
    );
}

#[test]
fn preparing_the_base_brings_no_cache() {
    let (end, asked) = drive(pacman(), |h| prepare(h, "0"), |req| {
        if looks_for(req, "/etc/systemd") { Reply::Flag(true) } else { plain(req) }
    });
    assert_eq!(end, Ok(()));
    assert!(!asked.iter().any(|r| matches!(r, Request::CopyCache { .. })));
    assert!(asked.contains(&Request::CopyFile {
        from: s("/etc/machine-id"),
        to: s("/.snapshots/rootfs/snapshot-chr0/etc/machine-id"),
    }));
}

#[test]
fn preparing_leaves_the_snapshot_alone() {
    let (_, asked) = drive(pacman(), |h| prepare(h, "8"), all_there);
    for req in &asked {
        match req {
            Request::DeleteSubvolume { path } => assert!(path.ends_with("-chr8")),
            Request::SnapshotSubvolume { to, .. } => assert!(to.ends_with("-chr8")),
            _ => {}
        }
    }
}

#[test]
fn changes_replace_the_snapshot() {
    for (mutable, read_only) in [(false, true), (true, false)] {
        let (end, asked) = drive(pacman(), |h| post_transactions(h, "8"), |req| match req {
            Request::Exists { path } => Reply::Flag(if path.ends_with("/ash/mutable") {
                mutable
            } else {
                true
            }),
            _ => plain(req),
        });
        assert_eq!(end, Ok(()));
        let changes: Vec<&Request> = asked
            .iter()
            .filter(|r| {
                matches!(r, Request::SnapshotSubvolume { .. } | Request::DeleteSubvolume { .. })
            })
            .collect();
        assert_eq!(
            changes,
            vec![
                &delete("/.snapshots/boot/boot-8"),
                &delete("/.snapshots/etc/etc-8"),
                &delete("/.snapshots/var/var-8"),
                &delete("/.snapshots/rootfs/snapshot-8"),
                &snap("/.snapshots/boot/boot-chr8", "/.snapshots/boot/boot-8", read_only),
                &snap("/.snapshots/etc/etc-chr8", "/.snapshots/etc/etc-8", read_only),
                &snap("/.snapshots/var/var-chr8", "/.snapshots/var/var-8", read_only),
                &snap(
                    "/.snapshots/rootfs/snapshot-chr8",
                    "/.snapshots/rootfs/snapshot-8",
                    read_only
                ),
                &delete("/.snapshots/boot/boot-chr8"),
                &delete("/.snapshots/etc/etc-chr8"),
                &delete("/.snapshots/var/var-chr8"),
                &delete("/.snapshots/rootfs/snapshot-chr8"),
            ]
        );
    }
}

#[test]
fn base_cache_is_cleaned() {
    let (_, asked) = drive(pacman(), |h| post_transactions(h, "0"), plain);
    let at = asked.iter().position(|r| matches!(r, Request::CopyCache { .. })).unwrap();
    assert_eq!(asked[at], Request::CopyCache { snapshot: s("0"), into_chroot: false });
    assert_eq!(asked[at + 1], Request::CleanCache { snapshot: s("0") });
    let (_, asked) = drive(pacman(), |h| post_transactions(h, "1"), plain);
    assert!(!asked.iter().any(|r| matches!(r, Request::CleanCache { .. })));
}

#[test]
fn hollow_copy_replaces_the_snapshot() {
    let (end, asked) = drive(pacman(), |h| posttrans(h, "8"), plain);
    assert_eq!(end, Ok(()));
    assert_eq!(asked[0], delete("/.snapshots/rootfs/snapshot-8"));
    assert_eq!(
        asked[2],
        Request::CopyTree {
            from: s("/.snapshots/rootfs/snapshot-chr8/etc/*"),
            to: s("/.snapshots/etc/etc-chr8"),
        }
    );
    assert_eq!(
        asked[7..15],
        [
            delete("/.snapshots/etc/etc-8"),
            delete("/.snapshots/var/var-8"),
            delete("/.snapshots/boot/boot-8"),
            snap("/.snapshots/etc/etc-chr8", "/.snapshots/etc/etc-8", true),
            snap("/.snapshots/var/var-chr8", "/.snapshots/var/var-8", true),
            snap("/.snapshots/rootfs/snapshot-chr8", "/.snapshots/rootfs/snapshot-8", true),
            snap("/.snapshots/boot/boot-chr8", "/.snapshots/boot/boot-8", true),
            Request::Unmount {
                target: s(
                    "/.snapshots/rootfs/snapshot-chr8/.snapshots/rootfs/snapshot-chr8/"
                ),
                detach: true,
            },
        ]
    );
    let (end, _) = drive(pacman(), |h| posttrans(h, "8"), |req| match req {
        Request::Unmount { .. } => broken("not mounted"),
        _ => plain(req),
    });
    assert_eq!(end, Err(Halt::Panicked));
}

#[test]
fn unlocking_unmounts_a_mounted_copy() {
    let root = "/.snapshots/rootfs/snapshot-chr8";
    let (end, asked) = drive(pacman(), |h| snapshot_unlock(h, "8"), |req| match req {
        Request::MountPoints => Reply::Texts(vec![s(root)]),
        _ => all_there(req),
    });
    assert_eq!(end, Ok(()));
    assert_eq!(
        asked[..4],
        [
            look(root),
            Request::MountPoints,
            Request::Unmount { target: s(root), detach: true },
            look("/.snapshots/boot/boot-chr8"),
        ]
    );
    assert_eq!(asked.last(), Some(&delete(root)));
    let (_, asked) = drive(pacman(), |h| snapshot_unlock(h, "8"), all_there);
    assert!(!asked.iter().any(|r| matches!(r, Request::Unmount { .. })));
    let (end, asked) = drive(pacman(), |h| snapshot_unlock(h, "8"), plain);
    assert_eq!(end, Ok(()));
    assert_eq!(asked, vec![look(root)]);
}

#[test]
fn chroot_is_told_by_the_mounts() {
    let (end, _) = drive(pacman(), |h| chroot_check(h), |_| Reply::Text(s("x /.snapshots btrfs y")));
    assert_eq!(end, Ok(false));
    let (end, _) = drive(pacman(), |h| chroot_check(h), |_| Reply::Text(s("x / btrfs y")));
    assert_eq!(end, Ok(true));
}

#[test]
fn command_in_a_chroot_may_fail() {
    let (end, asked) = drive(pacman(), |h| chroot_exec(h, "/r", "make x"), plain);
    assert_eq!(end, Ok(()));
    assert_eq!(asked, vec![shell("chroot /r make x")]);
    for code in [Some(2), None] {
        let (end, _) = drive(pacman(), |h| chroot_exec(h, "/r", "make x"), |_| {
            Reply::Status(ExitStatus { code })
        });
        assert_eq!(end, Err(failed(ErrorKind::Other, "Failed to run make x.")));
    }
    let (end, asked) = drive(pacman(), |h| chroot_in(h, "/r"), |_| {
        Reply::Status(ExitStatus { code: Some(3) })
    });
    assert_eq!(end, Ok(ExitStatus { code: Some(3) }));
    assert_eq!(asked, vec![Request::Run { program: s("chroot"), args: vec![s("/r")] }]);
}

#[test]
fn temporary_copies_are_cleared() {
    let (end, asked) = drive(pacman(), |h| temp_snapshots_clear(h), |req| match req {
        Request::ListDir { path } => Reply::Listing(
            match path.as_str() {
                "/.snapshots/boot" => vec![s("/.snapshots/boot/boot-chr3")],
                "/.snapshots/etc" => {
                    vec![s("/.snapshots/etc/etc-3"), s("/.snapshots/etc/etc-chr3")]
                }
                "/.snapshots/var" => {
                    vec![s("/.snapshots/var/var-chr3"), s("/.snapshots/var/var-3")]
                }
                _ => vec![
                    s("/.snapshots/rootfs/snapshot-3"),
                    s("/.snapshots/rootfs/snapshot-chr3"),
                ],
            },
            None,
        ),
        Request::MountPoints => Reply::Texts(vec![s("/.snapshots/rootfs/snapshot-chr3")]),
        _ => plain(req),
    });
    assert_eq!(end, Ok(()));
    assert_eq!(
        asked[4..],
        [
            Request::MountPoints,
            eprint("/.snapshots/rootfs/snapshot-chr3 is busy."),
            Request::MountPoints,
            delete("/.snapshots/var/var-chr3"),
            Request::MountPoints,
            delete("/.snapshots/etc/etc-chr3"),
            Request::MountPoints,
            delete("/.snapshots/boot/boot-chr3"),
        ]
    );
}

#[test]
fn names_that_are_no_text_end_the_clearing() {
    let (end, asked) = drive(pacman(), |h| temp_snapshots_clear(h), |req| match req {
        Request::ListDir { path } if path == "/.snapshots/rootfs" => Reply::Listing(
            vec![s("/.snapshots/rootfs/snapshot-chr3"), s("/.snapshots/rootfs/?\u{0}0")],
            None,
        ),
        _ => plain(req),
    });
    assert_eq!(end, Err(Halt::Panicked));
    assert_eq!(asked.last(), Some(&delete("/.snapshots/rootfs/snapshot-chr3")));
}
