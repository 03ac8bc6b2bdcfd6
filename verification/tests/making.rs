use ash::{Build, Error, ErrorKind, ExitStatus, Halt, Host, LocalTime, Profile, Reply, Request};
use ash::{
    branch_create, clone_as_tree, clone_branch, clone_recursive, clone_under, delete_node, find_new,
    immutability_disable, immutability_enable, rollback, snapshot_base_new, update_etc, write_desc,
};

/// Runs an operation to its end; `answer` replies to each request.
fn drive<T>(
    build: Build,
    op: impl Fn(&mut Host) -> Result<T, Halt>,
    answer: impl Fn(&Request) -> Reply,
) -> (Result<T, Halt>, Vec<Request>) {
    let mut replies: Vec<Reply> = Vec::new();
    let mut asked: Vec<Request> = Vec::new();
    loop {
        let mut host = Host::new(build, replies.clone());
        match op(&mut host) {
            Err(Halt::Pending(req)) => {
                replies.push(answer(&req));
                asked.push(req);
            }
            end => {
                assert_eq!(host.asked(), &asked);
                return (end, asked);
            }
        }
    }
}

fn pacman() -> Build {
    Build { pacman: true, lock: false }
}

/// A reply that fits: nothing is there, and everything works.
fn plain(req: &Request) -> Reply {
    match req {
        Request::Exists { .. }
        | Request::IsFile { .. }
        | Request::IsSymlink { .. }
        | Request::IsDir { .. }
        | Request::EnvSet { .. }
        | Request::Interrupted
        | Request::AurEnabled { .. }
        | Request::ServiceEnabled { .. } => Reply::Flag(false),
        Request::ReadText { .. }
        | Request::PkgQuery { .. }
        | Request::SwitchTmp { .. }
        | Request::DistroId
        | Request::ParentOf { .. }
        | Request::Fetch { .. }
        | Request::DevicePath { .. } => Reply::Text(String::new()),
        Request::ReadLine => Reply::Text("y".to_string()),
        Request::ListDir { .. } | Request::ReadLines { .. } => Reply::Listing(vec![], None),
        Request::WalkTop { .. } => Reply::Entries(vec![], None),
        Request::Run { .. } | Request::RunQuiet { .. } => {
            Reply::Status(ExitStatus { code: Some(0) })
        }
        Request::MountPoints
        | Request::PkgList { .. }
        | Request::NoDepPkgList { .. }
        | Request::ChildrenOf { .. }
        | Request::OrderOf { .. } => Reply::Texts(vec![]),
        Request::LoadTree => Reply::Tree(7),
        Request::ReadProfile { .. } => Reply::Profile(Profile::empty()),
        Request::LocalTime => Reply::Time(LocalTime {
            year: 2024,
            month: 3,
            day: 9,
            hour: 7,
            minute: 5,
            second: 0,
        }),
        _ => Reply::Done,
    }
}

fn broken(text: &str) -> Reply {
    Reply::Failed(Error { kind: ErrorKind::Other, text: text.to_string() })
}

fn s(text: &str) -> String {
    text.to_string()
}

fn failed(kind: ErrorKind, text: &str) -> Halt {
    Halt::Failed(Error { kind, text: text.to_string() })
}

fn look(path: &str) -> Request {
    Request::Exists { path: path.to_string() }
}

fn delete(path: &str) -> Request {
    Request::DeleteSubvolume { path: path.to_string() }
}

fn snap(from: &str, to: &str, read_only: bool) -> Request {
    Request::SnapshotSubvolume { from: from.to_string(), to: to.to_string(), read_only }
}

fn print(text: &str) -> Request {
    Request::Print { text: text.to_string() }
}

fn listing(paths: &'static [&'static str]) -> impl Fn(&Request) -> Reply {
    move |req: &Request| match req {
        Request::ListDir { path } => Reply::Listing(
            paths.iter().filter(|p| p.starts_with(path.as_str())).map(|p| s(p)).collect(),
            None,
        ),
        _ => plain(req),
    }
}

#[test]
fn new_number_is_the_lowest_that_is_free() {
    let (end, asked) = drive(
        pacman(),
        |h| find_new(h),
        listing(&[
            "/.snapshots/rootfs/snapshot-1",
            "/.snapshots/var/var-2",
            "/.snapshots/etc/etc-3",
            "/.snapshots/boot/boot-4/",
            "/.snapshots/rootfs/snapshot-6",
        ]),
    );
    assert_eq!(end, Ok(5));
    assert_eq!(asked.len(), 4);
    let (end, _) = drive(pacman(), |h| find_new(h), plain);
    assert_eq!(end, Ok(1));
}

#[test]
fn directories_must_be_listable() {
    let (end, _) = drive(pacman(), |h| find_new(h), |_| broken("no"));
    assert_eq!(end, Err(Halt::Panicked));
    let (end, _) = drive(pacman(), |h| find_new(h), |_| {
        Reply::Listing(vec![], Some(Error { kind: ErrorKind::Other, text: s("x") }))
    });
    assert_eq!(end, Err(Halt::Panicked));
}

fn there(id: &'static str, mutable: bool) -> impl Fn(&Request) -> Reply {
    move |req: &Request| match req {
        Request::Exists { path } if path.ends_with("/usr/share/ash/mutable") => {
            Reply::Flag(mutable)
        }
        Request::Exists { path } => {
            Reply::Flag(path == &format!("/.snapshots/rootfs/snapshot-{}", id))
        }
        _ => plain(req),
    }
}

fn copies(from: &str, to: &str, read_only: bool) -> Vec<Request> {
    vec![
        snap(
            &format!("/.snapshots/boot/boot-{}", from),
            &format!("/.snapshots/boot/boot-{}", to),
            read_only,
        ),
        snap(
            &format!("/.snapshots/etc/etc-{}", from),
            &format!("/.snapshots/etc/etc-{}", to),
            read_only,
        ),
        snap(
            &format!("/.snapshots/var/var-{}", from),
            &format!("/.snapshots/var/var-{}", to),
            read_only,
        ),
        snap(
            &format!("/.snapshots/rootfs/snapshot-{}", from),
            &format!("/.snapshots/rootfs/snapshot-{}", to),
            read_only,
        ),
    ]
}

fn desc(id: &str, text: &str) -> Request {
    Request::WriteText { path: format!("/.snapshots/ash/snapshots/{}-desc", id), text: s(text) }
}

#[test]
fn branch_is_a_child() {
    let (end, asked) = drive(pacman(), |h| branch_create(h, "7", "mine"), there("7", false));
    assert_eq!(end, Ok(1));
    let mut expected = copies("7", "1", true);
    expected.push(Request::LoadTree);
    expected.push(Request::AddChild { tree: 7, parent: s("7"), node: 1 });
    expected.push(Request::SaveTree { tree: 7 });
    expected.push(desc("1", "mine"));
    assert_eq!(asked[6..], expected[..]);
    let (_, asked) = drive(pacman(), |h| branch_create(h, "7", ""), there("7", false));
    assert_eq!(asked.last(), Some(&Request::SaveTree { tree: 7 }));
}

#[test]
fn branch_of_a_mutable_snapshot_is_mutable() {
    let (end, asked) = drive(pacman(), |h| branch_create(h, "7", ""), there("7", true));
    assert_eq!(end, Ok(1));
    assert_eq!(asked[6..10], copies("7", "1", false)[..]);
    assert_eq!(
        asked[10],
        Request::CreateFile { path: s("/.snapshots/rootfs/snapshot-1/usr/share/ash/mutable") }
    );
}

#[test]
fn only_existing_snapshots_are_copied() {
    let (end, asked) = drive(pacman(), |h| branch_create(h, "7", ""), plain);
    assert_eq!(
        end,
        Err(failed(ErrorKind::NotFound, "Cannot branch as snapshot 7 doesn't exist."))
    );
    assert_eq!(asked.len(), 5);
    let no_clone = Err(failed(ErrorKind::NotFound, "Cannot clone as snapshot 7 doesn't exist."));
    assert_eq!(drive(pacman(), |h| clone_as_tree(h, "7", ""), plain).0, no_clone);
    assert_eq!(drive(pacman(), |h| clone_branch(h, "7"), plain).0, no_clone);
    assert_eq!(drive(pacman(), |h| clone_under(h, "7", "8"), plain).0, no_clone);
    assert_eq!(drive(pacman(), |h| clone_under(h, "8", "7"), there("8", false)).0, no_clone);
    let (end, asked) = drive(pacman(), |h| clone_recursive(h, "7"), plain);
    assert_eq!(
        end,
        Err(failed(ErrorKind::NotFound, "Cannot clone as snapshot 7 doesn't exist."))
    );
    assert_eq!(asked.len(), 1);
}

#[test]
fn clones_are_described() {
    let (end, asked) = drive(pacman(), |h| clone_as_tree(h, "7", ""), there("7", false));
    assert_eq!(end, Ok(1));
    assert!(asked.contains(&Request::AddToBase { tree: 7, node: 1 }));
    assert_eq!(asked.last(), Some(&desc("1", "clone of 7.")));
    let (_, asked) = drive(pacman(), |h| clone_as_tree(h, "7", "own"), there("7", false));
    assert_eq!(asked.last(), Some(&desc("1", "own")));
    let (_, asked) = drive(pacman(), |h| clone_branch(h, "7"), there("7", false));
    assert!(asked.contains(&Request::AddSibling { tree: 7, beside: s("7"), node: 1 }));
    assert_eq!(asked.last(), Some(&desc("1", "clone of 7.")));
    let both = |req: &Request| match req {
        Request::Exists { path } => Reply::Flag(!path.ends_with("mutable")),
        _ => plain(req),
    };
    let (_, asked) = drive(pacman(), |h| clone_under(h, "7", "8"), both);
    assert_eq!(asked[7..11], copies("8", "1", true)[..]);
    assert!(asked.contains(&Request::AddChild { tree: 7, parent: s("7"), node: 1 }));
    assert_eq!(asked.last(), Some(&desc("1", "clone of 8.")));
}

#[test]
fn clones_delete_nothing() {
    let both = |req: &Request| match req {
        Request::Exists { .. } => Reply::Flag(true),
        _ => plain(req),
    };
    for asked in [
        drive(pacman(), |h| branch_create(h, "7", "d"), both).1,
        drive(pacman(), |h| clone_as_tree(h, "7", "d"), both).1,
        drive(pacman(), |h| clone_branch(h, "7"), both).1,
        drive(pacman(), |h| clone_under(h, "7", "8"), both).1,
        drive(pacman(), |h| snapshot_base_new(h, "d"), both).1,
    ] {
        assert!(!asked.iter().any(|r| matches!(r, Request::DeleteSubvolume { .. })));
    }
}

#[test]
fn whole_tree_is_cloned_below_the_clone() {
    let (end, asked) = drive(pacman(), |h| clone_recursive(h, "7"), |req| match req {
        Request::Exists { path } => Reply::Flag(!path.ends_with("mutable")),
        Request::ChildrenOf { .. } => Reply::Texts(vec![s("8")]),
        Request::ParentOf { .. } => Reply::Text(s("7")),
        _ => plain(req),
    });
    assert_eq!(end, Ok(()));
    let grown: Vec<&Request> = asked
        .iter()
        .filter(|r| matches!(r, Request::AddSibling { .. } | Request::AddChild { .. }))
        .collect();
    assert_eq!(
        grown,
        vec![
            &Request::AddSibling { tree: 7, beside: s("7"), node: 1 },
            &Request::AddChild { tree: 7, parent: s("1"), node: 1 },
        ]
    );
    // The numbers are used up one by one, as each clone takes a place of its own.
    let taken = std::cell::Cell::new(20);
    let (end, asked) = drive(pacman(), |h| clone_recursive(h, "7"), |req| match req {
        Request::Exists { path } => Reply::Flag(!path.ends_with("mutable")),
        Request::ChildrenOf { .. } => Reply::Texts(vec![s("8"), s("9"), s("10")]),
        Request::ParentOf { name, .. } => Reply::Text(s(if name == "10" { "8" } else { "7" })),
        Request::ListDir { path } if path == "/.snapshots/rootfs" => {
            taken.set(taken.get() + 1);
            Reply::Listing(
                (1..taken.get()).map(|i| format!("/.snapshots/rootfs/snapshot-{}", i)).collect(),
                None,
            )
        }
        _ => plain(req),
    });
    assert_eq!(end, Ok(()));
    let grown: Vec<&Request> = asked
        .iter()
        .filter(|r| {
            matches!(
                r,
                Request::AddSibling { .. }
                    | Request::AddChild { .. }
                    | Request::SnapshotSubvolume { .. }
            )
        })
        .collect();
    let child = |parent: &str, node: i32| Request::AddChild { tree: 7, parent: s(parent), node };
    assert_eq!(*grown[4], Request::AddSibling { tree: 7, beside: s("7"), node: 21 });
    assert_eq!(*grown[9], child("21", 22));
    assert_eq!(*grown[14], child("21", 23));
    assert_eq!(*grown[19], child("22", 24));
    for (at, from, to) in [(5, "8", "22"), (10, "9", "23"), (15, "10", "24")] {
        assert_eq!(grown[at..at + 4], copies(from, to, true).iter().collect::<Vec<_>>());
    }
    let (end, _) = drive(pacman(), |h| clone_recursive(h, "7"), |req| match req {
        Request::Exists { path } => Reply::Flag(!path.ends_with("mutable")),
        Request::ChildrenOf { .. } => Reply::Texts(vec![s("8")]),
        Request::ParentOf { .. } => Reply::Text(s("unknown")),
        _ => plain(req),
    });
    assert_eq!(end, Err(Halt::Panicked));
}

#[test]
fn new_tree_is_a_copy_of_the_base() {
    let (end, asked) = drive(pacman(), |h| snapshot_base_new(h, ""), plain);
    assert_eq!(end, Ok(1));
    assert_eq!(asked[4..8], copies("0", "1", true)[..]);
    assert_eq!(asked.last(), Some(&desc("1", "clone of base.")));
    let (_, asked) = drive(pacman(), |h| snapshot_base_new(h, "web"), plain);
    assert_eq!(asked.last(), Some(&desc("1", "web")));
    let (end, _) = drive(pacman(), |h| snapshot_base_new(h, ""), |req| match req {
        Request::WriteText { .. } => broken("full"),
        _ => plain(req),
    });
    assert_eq!(end, Err(Halt::Panicked));
}

#[test]
fn rollback_deploys_a_clone() {
    let (end, asked) = drive(pacman(), |h| rollback(h), |req| match req {
        Request::Exists { path } => Reply::Flag(
            path == "/.snapshots/rootfs/snapshot-rollback"
                || path == "/.snapshots/rootfs/snapshot-1",
        ),
        _ => plain(req),
    });
    assert_eq!(end, Ok(()));
    assert!(asked.contains(&desc("1", "clone of rollback.")));
    assert!(asked.contains(&Request::AppendText {
        path: s("/.snapshots/ash/snapshots/1-desc"),
        text: s(" rollback "),
    }));
    assert!(asked.contains(&Request::UpdateBoot { snapshot: s("1"), secondary: false }));
}

#[test]
fn descriptions_are_written_or_extended() {
    let path = s("/.snapshots/ash/snapshots/4-desc");
    let (_, asked) = drive(pacman(), |h| write_desc(h, "4", "new", true), plain);
    assert_eq!(asked, vec![Request::WriteText { path: path.clone(), text: s("new") }]);
    let (_, asked) = drive(pacman(), |h| write_desc(h, "4", "more", false), plain);
    assert_eq!(asked, vec![Request::AppendText { path, text: s("more") }]);
}

#[test]
fn mutability_is_switched_on() {
    let (end, asked) = drive(pacman(), |h| immutability_disable(h, "4"), there("4", false));
    assert_eq!(end, Ok(()));
    assert_eq!(
        asked[2..],
        [
            Request::SetReadOnly { path: s("/.snapshots/rootfs/snapshot-4"), read_only: false },
            Request::CreateFile {
                path: s("/.snapshots/rootfs/snapshot-4/usr/share/ash/mutable")
            },
            Request::AppendText {
                path: s("/.snapshots/ash/snapshots/4-desc"),
                text: s(" MUTABLE "),
            },
        ]
    );
}

#[test]
fn mutability_is_switched_off() {
    let (end, asked) = drive(pacman(), |h| immutability_enable(h, "4"), |req| match req {
        Request::ReadText { .. } => Reply::Text(s("clone of 2. MUTABLE ")),
        _ => there("4", true)(req),
    });
    assert_eq!(end, Ok(()));
    assert_eq!(
        asked[2..],
        [
            Request::RemoveFile {
                path: s("/.snapshots/rootfs/snapshot-4/usr/share/ash/mutable")
            },
            Request::SetReadOnly { path: s("/.snapshots/rootfs/snapshot-4"), read_only: true },
            Request::ReadText { path: s("/.snapshots/ash/snapshots/4-desc") },
            desc("4", "clone of 2."),
        ]
    );
}

#[test]
fn mutability_is_not_switched_twice() {
    assert_eq!(
        drive(pacman(), |h| immutability_disable(h, "4"), there("4", true)).0,
        Err(failed(ErrorKind::AlreadyExists, "Snapshot 4 is already mutable."))
    );
    assert_eq!(
        drive(pacman(), |h| immutability_enable(h, "4"), there("4", false)).0,
        Err(failed(ErrorKind::AlreadyExists, "Snapshot 4 is already immutable."))
    );
    let gone = Err(failed(ErrorKind::NotFound, "Snapshot 4 doesn't exist."));
    assert_eq!(drive(pacman(), |h| immutability_disable(h, "4"), plain).0, gone);
    assert_eq!(drive(pacman(), |h| immutability_enable(h, "4"), plain).0, gone);
    let base = failed(ErrorKind::Unsupported, "Snapshot 0 (base) should not be modified.");
    let (end, asked) = drive(pacman(), |h| immutability_disable(h, "0"), plain);
    assert_eq!(end, Err(base));
    assert_eq!(asked.len(), 0);
    let base = failed(ErrorKind::Unsupported, "Snapshot 0 (base) should not be modified.");
    assert_eq!(drive(pacman(), |h| immutability_enable(h, "0"), plain).0, Err(base));
}

#[test]
fn configuration_is_saved_in_the_running_snapshot() {
    let running = |req: &Request| match req {
        Request::ReadText { path } if path == "/usr/share/ash/snap" => Reply::Text(s("4\n")),
        _ => plain(req),
    };
    let (end, asked) = drive(pacman(), |h| update_etc(h), running);
    assert_eq!(end, Ok(()));
    assert_eq!(
        asked[2..],
        [
            delete("/.snapshots/etc/etc-4"),
            look("/.snapshots/rootfs/snapshot-4/usr/share/ash/mutable"),
            snap("/.snapshots/etc/etc-deploy", "/.snapshots/etc/etc-4", true),
        ]
    );
    let (end, asked) = drive(pacman(), |h| update_etc(h), |req| match req {
        Request::ReadText { path } if path == "/usr/share/ash/snap" => Reply::Text(s("0")),
        _ => plain(req),
    });
    assert_eq!(
        end,
        Err(failed(ErrorKind::Unsupported, "Changing base snapshot is not allowed."))
    );
    assert_eq!(asked.len(), 2);
}

fn for_deletion(req: &Request) -> Reply {
    match req {
        Request::ReadText { path } => Reply::Text(match path.as_str() {
            "/usr/share/ash/snap" => s("3"),
            "/.snapshots/rootfs/snapshot-deploy-aux/usr/share/ash/snap" => s("5"),
            _ => String::new(),
        }),
        Request::ReadLines { .. } => Reply::Listing(vec![s("deploy-aux")], None),
        Request::IsFile { path } => Reply::Flag(path.ends_with("/snap") || path.ends_with("/6-desc")),
        Request::Exists { path } => Reply::Flag(!path.contains("chr6")),
        Request::ChildrenOf { .. } => Reply::Texts(vec![s("7")]),
        _ => plain(req),
    }
}

#[test]
fn deletion_takes_the_children_along() {
    let list = vec![s("6")];
    let (end, asked) = drive(pacman(), |h| delete_node(h, &list, false, false), for_deletion);
    assert_eq!(end, Ok(()));
    assert!(asked.contains(&print("Are you sure you want to delete snapshot 6? (y/n)")));
    let gone: Vec<&Request> = asked
        .iter()
        .filter(|r| matches!(r, Request::DeleteSubvolume { .. } | Request::RemoveFile { .. }))
        .collect();
    let expected = [
        Request::RemoveFile { path: s("/.snapshots/ash/snapshots/6-desc") },
        delete("/.snapshots/boot/boot-6"),
        delete("/.snapshots/etc/etc-6"),
        delete("/.snapshots/var/var-6"),
        delete("/.snapshots/rootfs/snapshot-6"),
        delete("/.snapshots/boot/boot-7"),
        delete("/.snapshots/etc/etc-7"),
        delete("/.snapshots/var/var-7"),
        delete("/.snapshots/rootfs/snapshot-7"),
        delete("/.snapshots/boot/boot-chr7"),
        delete("/.snapshots/etc/etc-chr7"),
        delete("/.snapshots/var/var-chr7"),
        delete("/.snapshots/rootfs/snapshot-chr7"),
    ];
    assert_eq!(gone, expected.iter().collect::<Vec<_>>());
    assert_eq!(
        asked[asked.len() - 2..],
        [Request::RemoveNode { tree: 7, name: s("6") }, Request::SaveTree { tree: 7 }]
    );
}

#[test]
fn some_snapshots_are_not_deleted() {
    let cases = [
        ("0", ErrorKind::Unsupported, "Changing base snapshot is not allowed."),
        ("3", ErrorKind::Unsupported, "Cannot delete booted snapshot."),
        ("5", ErrorKind::Unsupported, "Cannot delete deployed snapshot."),
    ];
    for (id, kind, text) in cases {
        let list = vec![s(id)];
        let (end, asked) = drive(pacman(), |h| delete_node(h, &list, true, false), for_deletion);
        assert_eq!(end, Err(failed(kind, text)));
        assert!(!asked.iter().any(|r| matches!(r, Request::DeleteSubvolume { .. })));
    }
    let list = vec![s("chr6")];
    assert_eq!(
        drive(pacman(), |h| delete_node(h, &list, true, true), for_deletion).0,
        Err(failed(ErrorKind::NotFound, "Cannot delete as snapshot chr6 doesn't exist."))
    );
}

#[test]
fn deletion_can_be_called_off_or_forced() {
    let list = vec![s("6")];
    let (end, _) = drive(pacman(), |h| delete_node(h, &list, false, false), |req| match req {
        Request::ReadLine => Reply::Text(s("n\n")),
        _ => for_deletion(req),
    });
    assert_eq!(end, Err(failed(ErrorKind::Interrupted, "Aborted.")));
    let list = vec![s("3")];
    let (end, asked) = drive(pacman(), |h| delete_node(h, &list, false, true), for_deletion);
    assert_eq!(end, Ok(()));
    assert!(!asked.contains(&Request::ReadLine));
}
