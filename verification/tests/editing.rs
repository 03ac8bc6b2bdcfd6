use ash::{
    Build, Error, ErrorKind, ExitStatus, Halt, Host, LocalTime, MountMode, Profile, Reply, Request,
};
use ash::{
    chroot, hollow, rebuild, rebuild_base, rebuild_prep, reset, snapshot_config_edit,
    snapshot_profile_edit,
};

/// Runs an operation to its end; `answer` replies to each request.
fn drive<T>(
    build: Build,
    op: impl Fn(&mut Host) -> Result<T, Halt>,
    answer: impl Fn(&Request) -> Reply,
) -> (Result<T, Halt>, Vec<Request>) {
    let mut replies: Vec<Reply> = Vec::new();
    let mut asked: Vec<Request> = Vec::new();
    loop {
        let mut host = Host::new(build, replies.clone());
        match op(&mut host) {
            Err(Halt::Pending(req)) => {
                replies.push(answer(&req));
                asked.push(req);
            }
            end => {
                assert_eq!(host.asked(), &asked);
                return (end, asked);
            }
        }
    }
}

fn pacman() -> Build {
    Build { pacman: true, lock: false }
}

/// A reply that fits: nothing is there, and everything works.
fn plain(req: &Request) -> Reply {
    match req {
        Request::Exists { .. }
        | Request::IsFile { .. }
        | Request::IsSymlink { .. }
        | Request::IsDir { .. }
        | Request::EnvSet { .. }
        | Request::Interrupted
        | Request::AurEnabled { .. }
        | Request::ServiceEnabled { .. } => Reply::Flag(false),
        Request::ReadText { .. }
        | Request::PkgQuery { .. }
        | Request::SwitchTmp { .. }
        | Request::DistroId
        | Request::ParentOf { .. }
        | Request::Fetch { .. }
        | Request::DevicePath { .. } => Reply::Text(String::new()),
        Request::ReadLine => Reply::Text("y".to_string()),
        Request::ListDir { .. } | Request::ReadLines { .. } => Reply::Listing(vec![], None),
        Request::WalkTop { .. } => Reply::Entries(vec![], None),
        Request::Run { .. } | Request::RunQuiet { .. } => {
            Reply::Status(ExitStatus { code: Some(0) })
        }
        Request::MountPoints
        | Request::PkgList { .. }
        | Request::NoDepPkgList { .. }
        | Request::ChildrenOf { .. }
        | Request::OrderOf { .. } => Reply::Texts(vec![]),
        Request::LoadTree => Reply::Tree(7),
        Request::ReadProfile { .. } => Reply::Profile(Profile::empty()),
        Request::LocalTime => Reply::Time(LocalTime {
            year: 2024,
            month: 3,
            day: 9,
            hour: 7,
            minute: 5,
            second: 0,
        }),
        _ => Reply::Done,
    }
}

fn broken(text: &str) -> Reply {
    Reply::Failed(Error { kind: ErrorKind::Other, text: text.to_string() })
}

fn s(text: &str) -> String {
    text.to_string()
}

fn failed(kind: ErrorKind, text: &str) -> Halt {
    Halt::Failed(Error { kind, text: text.to_string() })
}

fn look(path: &str) -> Request {
    Request::Exists { path: path.to_string() }
}

fn delete(path: &str) -> Request {
    Request::DeleteSubvolume { path: path.to_string() }
}

fn snap(from: &str, to: &str, read_only: bool) -> Request {
    Request::SnapshotSubvolume { from: from.to_string(), to: to.to_string(), read_only }
}

fn print(text: &str) -> Request {
    Request::Print { text: text.to_string() }
}

fn eprint(text: &str) -> Request {
    Request::Eprint { text: text.to_string() }
}

fn shell(line: &str) -> Request {
    Request::Run { program: s("sh"), args: vec![s("-c"), line.to_string()] }
}

const COPY: &str = "/.snapshots/rootfs/snapshot-chr4";

fn there(req: &Request) -> Reply {
    match req {
        Request::Exists { path } => Reply::Flag(
            path == "/.snapshots/rootfs/snapshot-4" || path == "/.snapshots/rootfs/snapshot-0",
        ),
        _ => plain(req),
    }
}

fn runs(asked: &[Request]) -> Vec<&Request> {
    asked.iter().filter(|r| matches!(r, Request::Run { .. })).collect()
}

#[test]
fn own_editor_comes_first() {
    let (end, asked) = drive(pacman(), |h| snapshot_config_edit(h, "4"), |req| match req {
        Request::EnvSet { name } => Reply::Flag(name == "EDITOR"),
        _ => there(req),
    });
    assert_eq!(end, Ok(()));
    let at = asked
        .iter()
        .position(|r| *r == shell("$EDITOR /.snapshots/rootfs/snapshot-chr4/etc/ash/ash.conf"))
        .unwrap();
    let kept = Request::CopyTree {
        from: s("/.snapshots/rootfs/snapshot-chr4/etc/."),
        to: s("/.snapshots/etc/etc-chr4"),
    };
    assert!(asked[at..].contains(&kept));
    let saved = Request::SnapshotSubvolume {
        from: s("/.snapshots/etc/etc-chr4"),
        to: s("/.snapshots/etc/etc-4"),
        read_only: true,
    };
    assert!(asked[at..].contains(&saved));
}

#[test]
fn first_installed_editor_is_taken() {
    let (end, asked) = drive(pacman(), |h| snapshot_config_edit(h, "4"), |req| match req {
        Request::Run { args, .. } if args[1].contains("command -v") => {
            let code = if args[1].contains("vim)") { 0 } else { 1 };
            Reply::Status(ExitStatus { code: Some(code) })
        }
        _ => there(req),
    });
    assert_eq!(end, Ok(()));
    assert_eq!(
        runs(&asked),
        vec![
            &shell("[ -x \"$(command -v nano)\" ]"),
            &shell("[ -x \"$(command -v vi)\" ]"),
            &shell("[ -x \"$(command -v vim)\" ]"),
            &shell("vim /.snapshots/rootfs/snapshot-chr4/etc/ash/ash.conf"),
        ]
    );
    assert!(asked.contains(&snap(COPY, "/.snapshots/rootfs/snapshot-4", true)));
}

fn without_editors(req: &Request) -> Reply {
    match req {
        Request::Run { .. } => Reply::Status(ExitStatus { code: Some(1) }),
        _ => there(req),
    }
}

#[test]
fn there_may_be_no_editor() {
    let (end, asked) = drive(pacman(), |h| snapshot_config_edit(h, "4"), without_editors);
    assert_eq!(end, Ok(()));
    assert_eq!(runs(&asked).len(), 5);
    assert_eq!(
        runs(&asked)[4],
        &shell("[ -x \"$(command -v micro)\" ]")
    );
    assert!(asked.contains(&eprint("No text editor available!")));
    let (end, _) = drive(pacman(), |h| snapshot_profile_edit(h, "4"), without_editors);
    assert_eq!(end, Err(failed(ErrorKind::NotFound, "No text editor available!")));
}

#[test]
fn edited_profile_is_checked() {
    let (end, asked) = drive(pacman(), |h| snapshot_profile_edit(h, "4"), there);
    assert_eq!(end, Ok(()));
    let at = asked.iter().position(|r| matches!(r, Request::LockPackages { .. })).unwrap();
    let saved = Request::SnapshotSubvolume {
        from: s("/.snapshots/etc/etc-chr4"),
        to: s("/.snapshots/etc/etc-4"),
        read_only: true,
    };
    assert!(asked[at..].contains(&saved));
}

#[test]
fn edit_that_cannot_be_carried_out_is_discarded() {
    let (end, asked) = drive(pacman(), |h| snapshot_profile_edit(h, "4"), |req| match req {
        Request::LockPackages { .. } => broken("no"),
        _ => there(req),
    });
    assert_eq!(end, Err(failed(ErrorKind::Other, "Failed to apply changes.")));
    let at = asked.iter().position(|r| matches!(r, Request::LockPackages { .. })).unwrap();
    assert_eq!(
        asked[at + 1..],
        [
            look("/.snapshots/boot/boot-chr4"),
            look("/.snapshots/etc/etc-chr4"),
            look("/.snapshots/var/var-chr4"),
            look("/.snapshots/rootfs/snapshot-chr4"),
        ]
    );
    let copied = std::cell::Cell::new(false);
    let (end, asked) = drive(pacman(), |h| snapshot_profile_edit(h, "4"), |req| match req {
        Request::LockPackages { .. } => {
            copied.set(true);
            broken("no")
        }
        Request::Exists { .. } if copied.get() => Reply::Flag(true),
        _ => there(req),
    });
    assert_eq!(end, Err(failed(ErrorKind::Other, "Failed to apply changes.")));
    assert_eq!(
        asked.last(),
        Some(&Request::DeleteSubvolume { path: s("/.snapshots/rootfs/snapshot-chr4") })
    );
}

#[test]
fn editing_complains_without_an_error() {
    for (id, text) in [
        ("9", "Cannot chroot as snapshot 9 doesn't exist."),
        ("0", "Changing base snapshot is not allowed."),
    ] {
        let (end, asked) = drive(pacman(), |h| snapshot_config_edit(h, id), there);
        assert_eq!(end, Ok(()));
        assert_eq!(asked.last(), Some(&eprint(text)));
        let (end, asked) = drive(pacman(), |h| snapshot_profile_edit(h, id), there);
        assert_eq!(end, Ok(()));
        assert_eq!(asked.last(), Some(&eprint(text)));
    }
}

#[test]
fn commands_run_in_copies_of_their_own() {
    let op = |h: &mut Host| chroot(h, "4", vec![s("one"), s("two")]);
    let (end, asked) = drive(pacman(), op, there);
    assert_eq!(end, Ok(()));
    assert_eq!(
        runs(&asked),
        vec![
            &shell("chroot /.snapshots/rootfs/snapshot-chr4 one"),
            &shell("chroot /.snapshots/rootfs/snapshot-chr4 two"),
        ]
    );
    let kept = snap(COPY, "/.snapshots/rootfs/snapshot-4", true);
    assert_eq!(asked.iter().filter(|r| **r == kept).count(), 2);
}

#[test]
fn failed_command_keeps_nothing() {
    let (end, asked) = drive(pacman(), |h| chroot(h, "4", vec![s("bad")]), |req| match req {
        Request::Run { .. } => Reply::Status(ExitStatus { code: Some(1) }),
        _ => there(req),
    });
    assert_eq!(end, Ok(()));
    let kept = snap(COPY, "/.snapshots/rootfs/snapshot-4", true);
    assert!(!asked.contains(&kept));
    let (end, asked) = drive(pacman(), |h| chroot(h, "4", vec![s("ok")]), |req| match req {
        Request::Unmount { .. } => broken("busy"),
        _ => there(req),
    });
    assert_eq!(end, Ok(()));
    assert!(asked.contains(&eprint("post_transactions error: busy")));
    let (end, _) = drive(pacman(), |h| chroot(h, "9", vec![]), there);
    assert_eq!(
        end,
        Err(failed(ErrorKind::NotFound, "Cannot clone as snapshot 9 doesn't exist."))
    );
}

#[test]
fn shell_that_ends_by_itself_is_kept() {
    let (end, asked) = drive(pacman(), |h| chroot(h, "4", vec![]), |req| match req {
        Request::Run { .. } => Reply::Status(ExitStatus { code: Some(7) }),
        _ => there(req),
    });
    assert_eq!(end, Ok(()));
    let kept = snap(COPY, "/.snapshots/rootfs/snapshot-4", true);
    assert!(asked.contains(&kept));
    let (end, asked) = drive(pacman(), |h| chroot(h, "4", vec![]), |req| match req {
        Request::Run { .. } => Reply::Status(ExitStatus { code: None }),
        _ => there(req),
    });
    assert_eq!(end, Ok(()));
    assert!(!asked.contains(&kept));
    let (end, _) = drive(pacman(), |h| chroot(h, "4", vec![]), |req| match req {
        Request::Run { .. } => broken("no chroot"),
        _ => there(req),
    });
    assert_eq!(end, Err(failed(ErrorKind::Other, "no chroot")));
}

#[test]
fn rebuilding_starts_from_nothing() {
    let (end, asked) = drive(pacman(), |h| rebuild_prep(h, "4"), there);
    assert_eq!(end, Ok(()));
    assert_eq!(
        asked[..3],
        [
            Request::ReadProfile { path: s("/.snapshots/etc/etc-4/ash/profile") },
            Request::CreateSubvolume { path: s(COPY) },
            Request::Bootstrap { snapshot: s("4") },
        ]
    );
    assert!(asked
        .contains(&Request::SystemConfig { snapshot: s("4"), profile: Profile::empty() }));
    assert_eq!(
        asked.last(),
        Some(&Request::CopyTree {
            from: format!("{}/var/.", COPY),
            to: s("/.snapshots/var/var-chr4"),
        })
    );
}

#[test]
fn rebuilt_snapshot_gets_a_number() {
    let (end, asked) = drive(pacman(), |h| rebuild(h, "4", 12, ""), there);
    assert_eq!(end, Ok(12));
    assert!(asked.contains(&snap(COPY, "/.snapshots/rootfs/snapshot-chr12", true)));
    assert!(asked.contains(&snap(
        "/.snapshots/rootfs/snapshot-chr12",
        "/.snapshots/rootfs/snapshot-12",
        true
    )));
    assert!(asked.contains(&Request::AddToBase { tree: 7, node: 12 }));
    assert_eq!(
        asked.last(),
        Some(&Request::WriteText {
            path: s("/.snapshots/ash/snapshots/12-desc"),
            text: s("rebuild of 4."),
        })
    );
    let (end, asked) = drive(pacman(), |h| rebuild(h, "4", 12, "mine"), |req| match req {
        Request::Exists { path } if path == "/.snapshots/rootfs/snapshot-4/usr/share/ash/mutable" => {
            Reply::Flag(true)
        }
        _ => there(req),
    });
    assert_eq!(end, Ok(12));
    assert!(asked.contains(&snap(COPY, "/.snapshots/rootfs/snapshot-chr12", false)));
    assert!(asked.contains(&Request::CreateFile {
        path: s("/.snapshots/rootfs/snapshot-12/usr/share/ash/mutable")
    }));
}

#[test]
fn rebuilding_is_refused() {
    assert_eq!(
        drive(pacman(), |h| rebuild(h, "9", 12, ""), there).0,
        Err(failed(ErrorKind::NotFound, "Cannot rebuild as snapshot 9 doesn't exist."))
    );
    assert_eq!(
        drive(pacman(), |h| rebuild(h, "0", 12, ""), there).0,
        Err(failed(ErrorKind::Unsupported, "Changing base snapshot is not allowed."))
    );
    for (busy, id) in [("chr4", "4"), ("chr12", "12")] {
        let (end, _) = drive(pacman(), |h| rebuild(h, "4", 12, ""), |req| match req {
            Request::Exists { path } if path.ends_with(busy) => Reply::Flag(true),
            _ => there(req),
        });
        assert_eq!(
            end,
            Err(failed(
                ErrorKind::Unsupported,
                &format!(
                    "Snapshot {} appears to be in use. If you're certain it's not in use, clear lock with 'ash unlock -s {}'.",
                    id, id
                )
            ))
        );
    }
}

#[test]
fn failed_rebuild_of_the_base_is_discarded() {
    let (end, asked) = drive(pacman(), |h| rebuild_base(h), there);
    assert_eq!(end, Ok(()));
    assert!(asked.contains(&Request::CleanCache { snapshot: s("0") }));
    let (end, asked) = drive(pacman(), |h| rebuild_base(h), |req| match req {
        Request::Bootstrap { .. } => broken("offline"),
        _ => there(req),
    });
    assert_eq!(end, Err(failed(ErrorKind::Other, "Rebuild failed and changes discarded.")));
    assert_eq!(asked.last(), Some(&look("/.snapshots/rootfs/snapshot-chr0")));
    let (end, _) = drive(pacman(), |h| rebuild_base(h), |_| Reply::Flag(true));
    assert_eq!(
        end,
        Err(failed(
            ErrorKind::Unsupported,
            "Snapshot 0 appears to be in use. If you're certain it's not in use, clear lock with 'ash unlock -s 0'."
        ))
    );
}

#[test]
fn hollow_snapshot_is_kept_or_discarded() {
    let (end, asked) = drive(pacman(), |h| hollow(h, "4"), there);
    assert_eq!(end, Ok(()));
    assert!(asked.contains(&Request::Mount {
        source: s("/"),
        target: s(COPY),
        fstype: s("btrfs"),
        mode: MountMode::RecursiveSlave,
    }));
    assert!(asked.contains(&print(
        "Snapshot 4 is now hollow! Whenever done, type yes to deploy and no to discard. (y/n)"
    )));
    assert!(asked.contains(&Request::UpdateBoot { snapshot: s("4"), secondary: false }));
    let (end, asked) = drive(pacman(), |h| hollow(h, "4"), |req| match req {
        Request::ReadLine => Reply::Text(s("No\n")),
        _ => there(req),
    });
    assert_eq!(
        end,
        Err(failed(ErrorKind::Interrupted, "No changes applied on snapshot 4."))
    );
    assert_eq!(asked.last(), Some(&look(COPY)));
    assert_eq!(
        drive(pacman(), |h| hollow(h, "9"), there).0,
        Err(failed(ErrorKind::NotFound, "Cannot make hollow as snapshot 9 doesn't exist."))
    );
}

fn for_reset(req: &Request) -> Reply {
    match req {
        Request::ReadText { path } if path == "/usr/share/ash/snap" => Reply::Text(s("4")),
        Request::ChildrenOf { name, .. } if name == "root" => {
            Reply::Texts(vec![s("0"), s("4"), s("6"), s("8")])
        }
        Request::Exists { path } => Reply::Flag(
            ["0", "4", "6"]
                .iter()
                .any(|id| path == &format!("/.snapshots/rootfs/snapshot-{}", id)),
        ),
        _ => plain(req),
    }
}

#[test]
fn reset_goes_back_to_the_base() {
    let (end, asked) = drive(pacman(), |h| reset(h), for_reset);
    assert_eq!(end, Ok(()));
    assert!(asked.contains(&Request::RewriteText {
        path: s("/.snapshots/rootfs/snapshot-chr0/etc/rc.local"),
        text: s("#!/bin/sh\n/usr/sbin/ash del -q -n -s 4\ncp /etc/rc.local.bak /etc/rc.local\nexit 0"),
    }));
    assert!(asked.contains(&Request::SwitchTmp { secondary: false, reset: true }));
    assert!(asked.contains(&delete("/.snapshots/rootfs/snapshot-6")));
    assert!(!asked.contains(&delete("/.snapshots/rootfs/snapshot-4")));
    assert!(asked.contains(&Request::RemoveNode { tree: 7, name: s("6") }));
    assert!(!asked.contains(&Request::RemoveNode { tree: 7, name: s("0") }));
    assert!(!asked.contains(&Request::RemoveNode { tree: 7, name: s("8") }));
}

#[test]
fn reset_needs_two_consents() {
    let (end, asked) = drive(pacman(), |h| reset(h), |req| match req {
        Request::ReadLine => Reply::Text(s("n")),
        _ => for_reset(req),
    });
    assert_eq!(end, Err(failed(ErrorKind::Interrupted, "Aborted.")));
    assert_eq!(asked.len(), 3);
    let (end, _) = drive(pacman(), |h| reset(h), |req| match req {
        Request::SwitchTmp { .. } => broken("no"),
        _ => for_reset(req),
    });
    assert_eq!(end, Err(failed(ErrorKind::Other, "Failed to deploy base snapshot.")));
}
