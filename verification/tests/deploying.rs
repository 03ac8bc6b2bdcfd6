use ash::{Build, Error, ErrorKind, ExitStatus, Halt, Host, LocalTime, Profile, Reply, Request};
use ash::{deploy, deploy_recovery};

/// Runs an operation to its end; `answer` replies to each request.
fn drive<T>(
    build: Build,
    op: impl Fn(&mut Host) -> Result<T, Halt>,
    answer: impl Fn(&Request) -> Reply,
) -> (Result<T, Halt>, Vec<Request>) {
    let mut replies: Vec<Reply> = Vec::new();
    let mut asked: Vec<Request> = Vec::new();
    loop {
        let mut host = Host::new(build, replies.clone());
        match op(&mut host) {
            Err(Halt::Pending(req)) => {
                replies.push(answer(&req));
                asked.push(req);
            }
            end => {
                assert_eq!(host.asked(), &asked);
                return (end, asked);
            }
        }
    }
}

fn pacman() -> Build {
    Build { pacman: true, lock: false }
}

/// A reply that fits: nothing is there, and everything works.
fn plain(req: &Request) -> Reply {
    match req {
        Request::Exists { .. }
        | Request::IsFile { .. }
        | Request::IsSymlink { .. }
        | Request::IsDir { .. }
        | Request::EnvSet { .. }
        | Request::Interrupted
        | Request::AurEnabled { .. }
        | Request::ServiceEnabled { .. } => Reply::Flag(false),
        Request::ReadText { .. }
        | Request::PkgQuery { .. }
        | Request::SwitchTmp { .. }
        | Request::DistroId
        | Request::ParentOf { .. }
        | Request::Fetch { .. }
        | Request::DevicePath { .. } => Reply::Text(String::new()),
        Request::ReadLine => Reply::Text("y".to_string()),
        Request::ListDir { .. } | Request::ReadLines { .. } => Reply::Listing(vec![], None),
        Request::WalkTop { .. } => Reply::Entries(vec![], None),
        Request::Run { .. } | Request::RunQuiet { .. } => {
            Reply::Status(ExitStatus { code: Some(0) })
        }
        Request::MountPoints
        | Request::PkgList { .. }
        | Request::NoDepPkgList { .. }
        | Request::ChildrenOf { .. }
        | Request::OrderOf { .. } => Reply::Texts(vec![]),
        Request::LoadTree => Reply::Tree(7),
        Request::ReadProfile { .. } => Reply::Profile(Profile::empty()),
        Request::LocalTime => Reply::Time(LocalTime {
            year: 2024,
            month: 3,
            day: 9,
            hour: 7,
            minute: 5,
            second: 0,
        }),
        _ => Reply::Done,
    }
}

fn s(text: &str) -> String {
    text.to_string()
}

fn failed(kind: ErrorKind, text: &str) -> Halt {
    Halt::Failed(Error { kind, text: text.to_string() })
}

fn look(path: &str) -> Request {
    Request::Exists { path: path.to_string() }
}

fn delete(path: &str) -> Request {
    Request::DeleteSubvolume { path: path.to_string() }
}

fn snap(from: &str, to: &str, read_only: bool) -> Request {
    Request::SnapshotSubvolume { from: from.to_string(), to: to.to_string(), read_only }
}

fn there(req: &Request) -> Reply {
    match req {
        Request::Exists { path } => Reply::Flag(
            path == "/.snapshots/rootfs/snapshot-4"
                || path == "/.snapshots/rootfs/snapshot-rollback"
                || path == "/.snapshots/rootfs/snapshot-deploy-aux",
        ),
        Request::SwitchTmp { .. } => Reply::Text(s("deploy-aux")),
        _ => plain(req),
    }
}

#[test]
fn deployment_is_made_beside_the_running_one() {
    let (end, asked) = drive(pacman(), |h| deploy(h, "4", false, false), there);
    assert_eq!(end, Ok(s("deploy-aux")));
    let tmp = "/.snapshots/rootfs/snapshot-deploy-aux";
    assert_eq!(
        asked,
        vec![
            look("/.snapshots/rootfs/snapshot-4"),
            Request::ReadText { path: s("/proc/mounts") },
            look("/.snapshots/rootfs/snapshot-rollback"),
            delete("/.snapshots/rootfs/snapshot-rollback"),
            delete("/.snapshots/boot/boot-rollback"),
            delete("/.snapshots/etc/etc-rollback"),
            delete("/.snapshots/var/var-rollback"),
            snap("/.snapshots/boot/boot-deploy", "/.snapshots/boot/boot-rollback", true),
            snap("/.snapshots/etc/etc-deploy", "/.snapshots/etc/etc-rollback", true),
            snap("/.snapshots/var/var-deploy", "/.snapshots/var/var-rollback", true),
            snap(
                "/.snapshots/rootfs/snapshot-deploy",
                "/.snapshots/rootfs/snapshot-rollback",
                true
            ),
            Request::UpdateBoot { snapshot: s("4"), secondary: false },
            Request::SetDefault { path: s("/.snapshots/rootfs/snapshot-deploy") },
            Request::ReadText { path: s("/proc/mounts") },
            look(tmp),
            delete("/.snapshots/boot/boot-deploy-aux"),
            delete("/.snapshots/etc/etc-deploy-aux"),
            delete("/.snapshots/var/var-deploy-aux"),
            delete(tmp),
            Request::IsFile { path: s("/.snapshots/etc/etc-4/ash/ash.conf") },
            snap("/.snapshots/boot/boot-4", "/.snapshots/boot/boot-deploy-aux", false),
            snap("/.snapshots/etc/etc-4", "/.snapshots/etc/etc-deploy-aux", false),
            snap("/.snapshots/var/var-4", "/.snapshots/var/var-deploy-aux", false),
            snap("/.snapshots/rootfs/snapshot-4", tmp, false),
            Request::MakeDirs { path: format!("{}/boot", tmp) },
            Request::MakeDirs { path: format!("{}/etc", tmp) },
            Request::MakeDirs { path: format!("{}/var", tmp) },
            Request::CopyTree {
                from: s("/.snapshots/boot/boot-4/."),
                to: format!("{}/boot", tmp)
            },
            Request::CopyTree { from: s("/.snapshots/etc/etc-4/."), to: format!("{}/etc", tmp) },
            Request::CopyTree { from: s("/.snapshots/var/var-4/."), to: format!("{}/var", tmp) },
            look("/.snapshots/rootfs/snapshot-4/usr/share/ash/mutable"),
            Request::WriteText { path: format!("{}/usr/share/ash/snap", tmp), text: s("4") },
            Request::SwitchTmp { secondary: false, reset: false },
            Request::SetDefault { path: s(tmp) },
        ]
    );
}

#[test]
fn missing_snapshot_is_not_deployed() {
    let (end, asked) = drive(pacman(), |h| deploy(h, "9", false, false), there);
    assert_eq!(
        end,
        Err(failed(ErrorKind::NotFound, "Cannot deploy as snapshot 9 doesn't exist."))
    );
    assert_eq!(asked.len(), 1);
}

#[test]
fn deployed_snapshots_stay_as_they_are() {
    for secondary in [false, true] {
        let (_, asked) = drive(pacman(), |h| deploy(h, "4", secondary, true), |req| match req {
            Request::Exists { .. } => Reply::Flag(true),
            _ => there(req),
        });
        for req in &asked {
            match req {
                Request::DeleteSubvolume { path } => assert!(!path.ends_with("-4")),
                Request::SnapshotSubvolume { to, .. } => {
                    assert!(to.ends_with("rollback") || to.contains("deploy"))
                }
                _ => {}
            }
        }
    }
}

#[test]
fn mutable_snapshot_gets_a_writable_root() {
    let table = "/.snapshots/rootfs/snapshot-deploy-aux/etc/fstab";
    let (end, asked) = drive(pacman(), |h| deploy(h, "4", false, false), |req| match req {
        Request::Exists { path } if path.ends_with("/mutable") => Reply::Flag(true),
        Request::ReadText { path } if path == table => {
            Reply::Text(s("UUID / btrfs subvol=snapshot-deploy-aux,ro 0 0\n"))
        }
        _ => there(req),
    });
    assert_eq!(end, Ok(s("deploy-aux")));
    assert!(asked.contains(&Request::WriteText {
        path: s(table),
        text: s("UUID / btrfs subvol=snapshot-deploy-aux 0 0\n"),
    }));
}

#[test]
fn mutable_directories_are_entered_in_the_table() {
    let (end, asked) = drive(pacman(), |h| deploy(h, "4", true, false), |req| match req {
        Request::IsFile { .. } => Reply::Flag(true),
        Request::ReadText { path } if path.ends_with("ash.conf") => {
            Reply::Text(s("mutable_dirs::srv\nmutable_dirs_shared::opt/x\n"))
        }
        _ => there(req),
    });
    assert_eq!(end, Ok(s("deploy-aux")));
    let tmp = "/.snapshots/rootfs/snapshot-deploy-secondary";
    let at = asked
        .iter()
        .position(|r| r == &Request::MakeDirs { path: s("/.snapshots/mutable_dirs/snapshot-4/srv") })
        .unwrap();
    assert_eq!(
        asked[at + 1..at + 6],
        [
            Request::MakeDirs { path: format!("{}/srv", tmp) },
            Request::AppendText {
                path: format!("{}/etc/fstab", tmp),
                text: s("/.snapshots/mutable_dirs/snapshot-4/srv /srv none defaults,bind 0 0\n"),
            },
            Request::MakeDirs { path: s("/.snapshots/mutable_dirs/opt/x") },
            Request::MakeDirs { path: format!("{}/opt/x", tmp) },
            Request::AppendText {
                path: format!("{}/etc/fstab", tmp),
                text: s("/.snapshots/mutable_dirs/opt/x /opt/x none defaults,bind 0 0\n"),
            },
        ]
    );
}

#[test]
fn recovery_is_deployed_from_the_base() {
    let tmp = "/.snapshots/rootfs/snapshot-recovery-deploy-aux";
    let (end, asked) = drive(pacman(), |h| deploy_recovery(h), |req| match req {
        Request::ReadText { path } if path.ends_with("/etc/fstab") => {
            Reply::Text(s("subvol=@.snapshots_linux/rootfs/snapshot-deploy,ro"))
        }
        _ => plain(req),
    });
    assert_eq!(end, Ok(()));
    assert_eq!(asked[1], Request::UpdateBoot { snapshot: s("0"), secondary: false });
    assert_eq!(asked[3], look(tmp));
    assert_eq!(
        asked[4],
        snap("/.snapshots/boot/boot-0", "/.snapshots/boot/boot-recovery-deploy-aux", false)
    );
    assert!(asked.contains(&Request::WriteText {
        path: format!("{}/etc/fstab", tmp),
        text: s("subvol=@.snapshots_linux/rootfs/snapshot-recovery-deploy-aux,ro"),
    }));
    assert!(asked.contains(&Request::WriteText {
        path: format!("{}/usr/share/ash/snap", tmp),
        text: s("0"),
    }));
    assert!(asked.contains(&Request::SwitchRecoveryTmp));
    assert!(asked.contains(&Request::WriteText {
        path: s("/.snapshots/rootfs/snapshot-chr0/usr/share/ash/rec-tmp"),
        text: s("recovery-deploy-aux"),
    }));
    assert!(asked.contains(&Request::CleanCache { snapshot: s("0") }));
}
