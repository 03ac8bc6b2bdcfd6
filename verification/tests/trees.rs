use ash::{Build, Error, ErrorKind, ExitStatus, Halt, Host, LocalTime, Profile, Reply, Request};
use ash::{tree_install, tree_remove, tree_run, tree_show, tree_sync, tree_upgrade};

/// Runs an operation to its end; `answer` replies to each request.
fn drive<T>(
    build: Build,
    op: impl Fn(&mut Host) -> Result<T, Halt>,
    answer: impl Fn(&Request) -> Reply,
) -> (Result<T, Halt>, Vec<Request>) {
    let mut replies: Vec<Reply> = Vec::new();
    let mut asked: Vec<Request> = Vec::new();
    loop {
        let mut host = Host::new(build, replies.clone());
        match op(&mut host) {
            Err(Halt::Pending(req)) => {
                replies.push(answer(&req));
                asked.push(req);
            }
            end => {
                assert_eq!(host.asked(), &asked);
                return (end, asked);
            }
        }
    }
}

fn pacman() -> Build {
    Build { pacman: true, lock: false }
}

/// A reply that fits: nothing is there, and everything works.
fn plain(req: &Request) -> Reply {
    match req {
        Request::Exists { .. }
        | Request::IsFile { .. }
        | Request::IsSymlink { .. }
        | Request::IsDir { .. }
        | Request::EnvSet { .. }
        | Request::Interrupted
        | Request::AurEnabled { .. }
        | Request::ServiceEnabled { .. } => Reply::Flag(false),
        Request::ReadText { .. }
        | Request::PkgQuery { .. }
        | Request::SwitchTmp { .. }
        | Request::DistroId
        | Request::ParentOf { .. }
        | Request::Fetch { .. }
        | Request::DevicePath { .. } => Reply::Text(String::new()),
        Request::ReadLine => Reply::Text("y".to_string()),
        Request::ListDir { .. } | Request::ReadLines { .. } => Reply::Listing(vec![], None),
        Request::WalkTop { .. } => Reply::Entries(vec![], None),
        Request::Run { .. } | Request::RunQuiet { .. } => {
            Reply::Status(ExitStatus { code: Some(0) })
        }
        Request::MountPoints
        | Request::PkgList { .. }
        | Request::NoDepPkgList { .. }
        | Request::ChildrenOf { .. }
        | Request::OrderOf { .. } => Reply::Texts(vec![]),
        Request::LoadTree => Reply::Tree(7),
        Request::ReadProfile { .. } => Reply::Profile(Profile::empty()),
        Request::LocalTime => Reply::Time(LocalTime {
            year: 2024,
            month: 3,
            day: 9,
            hour: 7,
            minute: 5,
            second: 0,
        }),
        _ => Reply::Done,
    }
}

fn broken(text: &str) -> Reply {
    Reply::Failed(Error { kind: ErrorKind::Other, text: text.to_string() })
}

fn s(text: &str) -> String {
    text.to_string()
}

fn failed(kind: ErrorKind, text: &str) -> Halt {
    Halt::Failed(Error { kind, text: text.to_string() })
}

fn look(path: &str) -> Request {
    Request::Exists { path: path.to_string() }
}

fn print(text: &str) -> Request {
    Request::Print { text: text.to_string() }
}

fn eprint(text: &str) -> Request {
    Request::Eprint { text: text.to_string() }
}

fn shell(line: &str) -> Request {
    Request::Run { program: s("sh"), args: vec![s("-c"), line.to_string()] }
}

fn with_branches(req: &Request) -> Reply {
    match req {
        Request::Exists { path } => Reply::Flag(
            ["1", "2"].iter().any(|id| path == &format!("/.snapshots/rootfs/snapshot-{}", id)),
        ),
        Request::OrderOf { .. } => Reply::Texts(vec![s("1"), s("2")]),
        Request::DistroId => Reply::Text(s("arch")),
        _ => plain(req),
    }
}

fn installs(asked: &[Request]) -> Vec<(String, Vec<String>)> {
    asked
        .iter()
        .filter_map(|r| match r {
            Request::InstallPackages { snapshot, pkgs, .. } => {
                Some((snapshot.clone(), pkgs.clone()))
            }
            _ => None,
        })
        .collect()
}

#[test]
fn packages_go_to_all_branches() {
    let op = |h: &mut Host| {
        tree_install(h, "1", &vec![s("a"), s("b")], &vec![s("p")], false, &vec![], true, false)
    };
    let (end, asked) = drive(pacman(), op, with_branches);
    assert_eq!(end, Ok(()));
    assert_eq!(
        installs(&asked),
        vec![
            (s("1"), vec![s("a")]),
            (s("2"), vec![s("a")]),
            (s("1"), vec![s("b")]),
            (s("2"), vec![s("b")]),
        ]
    );
    assert!(asked.contains(&print("1, 2")));
}

#[test]
fn missing_tree_is_only_a_complaint() {
    let none: Vec<String> = vec![];
    let op = |h: &mut Host| tree_install(h, "9", &none, &none, false, &none, true, false);
    let (end, asked) = drive(pacman(), op, with_branches);
    assert_eq!(end, Ok(()));
    assert_eq!(asked[1..], [eprint("Cannot remove as tree 9 doesn't exist.")]);
    let op = |h: &mut Host| tree_remove(h, "9", &none, &none, &none, true);
    let (_, asked) = drive(pacman(), op, with_branches);
    assert_eq!(asked[1..], [eprint("Cannot remove as tree 9 doesn't exist.")]);
}

#[test]
fn profiles_go_to_all_branches() {
    let none: Vec<String> = vec![];
    let op = |h: &mut Host| tree_install(h, "1", &none, &none, false, &vec![s("/u")], true, false);
    let (end, asked) = drive(pacman(), op, with_branches);
    assert_eq!(end, Ok(()));
    let read = Request::ReadProfile { path: s("/u") };
    assert_eq!(asked.iter().filter(|r| **r == read).count(), 2);
    let op = |h: &mut Host| tree_install(h, "1", &none, &vec![s("p")], false, &none, true, false);
    let (end, _) = drive(pacman(), op, with_branches);
    assert_eq!(
        end,
        Err(failed(ErrorKind::Other, "Failed to install and changes discarded."))
    );
    let op = |h: &mut Host| tree_remove(h, "1", &none, &none, &vec![s("/u")], true);
    let (end, _) = drive(pacman(), op, |req| match req {
        Request::CopyCache { .. } => broken("full"),
        _ => with_branches(req),
    });
    assert_eq!(end, Err(failed(ErrorKind::Other, "Failed to remove and changes discarded.")));
}

#[test]
fn packages_leave_all_branches() {
    let none: Vec<String> = vec![];
    let op = |h: &mut Host| tree_remove(h, "1", &vec![s("a")], &none, &none, false);
    let (end, asked) = drive(pacman(), op, with_branches);
    assert_eq!(end, Ok(()));
    for id in ["1", "2"] {
        assert!(asked.contains(&Request::UninstallPackages {
            snapshot: s(id),
            pkgs: vec![s("a")],
            noconfirm: false,
        }));
    }
}

#[test]
fn command_runs_in_all_branches() {
    let (end, asked) = drive(pacman(), |h| tree_run(h, "1", "true"), with_branches);
    assert_eq!(end, Ok(()));
    let runs: Vec<&Request> =
        asked.iter().filter(|r| matches!(r, Request::Run { .. })).collect();
    assert_eq!(
        runs,
        vec![
            &shell("chroot /.snapshots/rootfs/snapshot-chr1 true"),
            &shell("chroot /.snapshots/rootfs/snapshot-chr2 true"),
        ]
    );
    assert_eq!(
        drive(pacman(), |h| tree_run(h, "9", "true"), with_branches).0,
        Err(failed(ErrorKind::NotFound, "Cannot update as tree 9 doesn't exist."))
    );
    let (end, _) = drive(pacman(), |h| tree_run(h, "1", "true"), |req| match req {
        Request::Exists { path } if path == "/.snapshots/rootfs/snapshot-chr2" => {
            Reply::Flag(true)
        }
        _ => with_branches(req),
    });
    assert_eq!(
        end,
        Err(failed(
            ErrorKind::Unsupported,
            "Snapshot 2 appears to be in use. If you're certain it's not in use, clear lock with 'ash unlock -s 2."
        ))
    );
}

#[test]
fn tree_is_upgraded() {
    let (end, asked) = drive(pacman(), |h| tree_upgrade(h, "1"), with_branches);
    assert_eq!(end, Ok(()));
    assert_eq!(
        asked,
        vec![
            look("/.snapshots/rootfs/snapshot-1"),
            look("/.snapshots/rootfs/snapshot-chr1"),
            Request::AutoUpgrade { snapshot: s("1") },
            Request::LoadTree,
            Request::OrderOf { tree: 7, name: s("1") },
            print("1, 2"),
            look("/.snapshots/rootfs/snapshot-chr2"),
            Request::AutoUpgrade { snapshot: s("2") },
        ]
    );
    for id in ["1", "2"] {
        let (end, _) = drive(pacman(), |h| tree_upgrade(h, "1"), |req| match req {
            Request::AutoUpgrade { snapshot } if snapshot == id => broken("x"),
            _ => with_branches(req),
        });
        assert_eq!(
            end,
            Err(failed(ErrorKind::Other, &format!("Failed to auto upgrade tree {}.", id)))
        );
    }
    let (end, _) = drive(pacman(), |h| tree_upgrade(h, "1"), |_| Reply::Flag(true));
    assert_eq!(
        end,
        Err(failed(
            ErrorKind::Unsupported,
            "Snapshot 1 appears to be in use. If you're certain it's not in use, clear lock with 'ash unlock -s 1'."
        ))
    );
}

#[test]
fn tree_is_synchronised() {
    let (end, asked) = drive(pacman(), |h| tree_sync(h, "1", true, true), |req| match req {
        Request::ReadText { path } if path == "/usr/share/ash/snap" => Reply::Text(s("2\n")),
        _ => with_branches(req),
    });
    assert_eq!(end, Ok(()));
    let syncs: Vec<&Request> =
        asked.iter().filter(|r| matches!(r, Request::SyncTrees { .. })).collect();
    assert_eq!(
        syncs,
        vec![
            &Request::SyncTrees { from: s("1"), to: s("2"), chr: s("chr") },
            &Request::SyncTrees { from: s("2"), to: s("deploy"), chr: s("") },
        ]
    );
    assert!(!asked.iter().any(|r| matches!(r, Request::AutoUpgrade { .. })));
    let (_, asked) = drive(pacman(), |h| tree_sync(h, "1", false, false), with_branches);
    assert!(asked.contains(&Request::AutoUpgrade { snapshot: s("2") }));
    let (end, _) = drive(pacman(), |h| tree_sync(h, "1", false, false), |req| match req {
        Request::AutoUpgrade { .. } => broken("x"),
        _ => with_branches(req),
    });
    assert_eq!(end, Err(failed(ErrorKind::Other, "Failed to upgrade tree 1.")));
    assert_eq!(
        drive(pacman(), |h| tree_sync(h, "9", false, false), with_branches).0,
        Err(failed(ErrorKind::NotFound, "Cannot sync as tree 9 doesn't exist."))
    );
}

#[test]
fn tree_is_shown() {
    let (end, asked) = drive(pacman(), |h| tree_show(h), plain);
    assert_eq!(end, Ok(()));
    assert_eq!(asked, vec![Request::LoadTree, Request::PrintTree { tree: 7 }]);
    let (end, _) = drive(pacman(), |h| tree_show(h), |_| broken("x"));
    assert_eq!(end, Err(Halt::Panicked));
}
