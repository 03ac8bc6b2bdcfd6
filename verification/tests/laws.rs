use ash::{Build, Error, ErrorKind, ExitStatus, Halt, Host, LocalTime, Profile, Reply, Request};
use ash::trees::{perform, Job};
use ash::{
    chr_delete, chroot, deploy, deploy_recovery, get_aux_tmp, get_recovery_tmp, hollow,
    immutability_disable, immutability_enable, install, install_profile, post_transactions,
    posttrans, prepare, rebuild, refresh, snapshot_config_edit, snapshot_profile_edit,
    snapshot_unlock, tmp_delete, tree_upgrade, uninstall, uninstall_profile, upgrade, yes_no,
};

/// Runs an operation to its end; `answer` replies to each request.
fn drive<T>(
    build: Build,
    op: impl Fn(&mut Host) -> Result<T, Halt>,
    answer: impl Fn(&Request) -> Reply,
) -> (Result<T, Halt>, Vec<Request>) {
    let mut replies: Vec<Reply> = Vec::new();
    let mut asked: Vec<Request> = Vec::new();
    loop {
        let mut host = Host::new(build, replies.clone());
        match op(&mut host) {
            Err(Halt::Pending(req)) => {
                replies.push(answer(&req));
                asked.push(req);
            }
            end => {
                assert_eq!(host.asked(), &asked);
                return (end, asked);
            }
        }
    }
}

fn pacman() -> Build {
    Build { pacman: true, lock: false }
}

/// A reply that fits: nothing is there, and everything works.
fn plain(req: &Request) -> Reply {
    match req {
        Request::Exists { .. }
        | Request::IsFile { .. }
        | Request::IsSymlink { .. }
        | Request::IsDir { .. }
        | Request::EnvSet { .. }
        | Request::Interrupted
        | Request::AurEnabled { .. }
        | Request::ServiceEnabled { .. } => Reply::Flag(false),
        Request::ReadText { .. }
        | Request::PkgQuery { .. }
        | Request::SwitchTmp { .. }
        | Request::DistroId
        | Request::ParentOf { .. }
        | Request::Fetch { .. }
        | Request::DevicePath { .. } => Reply::Text(String::new()),
        Request::ReadLine => Reply::Text("y".to_string()),
        Request::ListDir { .. } | Request::ReadLines { .. } => Reply::Listing(vec![], None),
        Request::WalkTop { .. } => Reply::Entries(vec![], None),
        Request::Run { .. } | Request::RunQuiet { .. } => {
            Reply::Status(ExitStatus { code: Some(0) })
        }
        Request::MountPoints
        | Request::PkgList { .. }
        | Request::NoDepPkgList { .. }
        | Request::ChildrenOf { .. }
        | Request::OrderOf { .. } => Reply::Texts(vec![]),
        Request::LoadTree => Reply::Tree(7),
        Request::ReadProfile { .. } => Reply::Profile(Profile::empty()),
        Request::LocalTime => Reply::Time(LocalTime {
            year: 2024,
            month: 3,
            day: 9,
            hour: 7,
            minute: 5,
            second: 0,
        }),
        _ => Reply::Done,
    }
}

fn broken(text: &str) -> Reply {
    Reply::Failed(Error { kind: ErrorKind::Other, text: text.to_string() })
}

fn s(text: &str) -> String {
    text.to_string()
}

fn failed(kind: ErrorKind, text: &str) -> Halt {
    Halt::Failed(Error { kind, text: text.to_string() })
}

fn look(path: &str) -> Request {
    Request::Exists { path: path.to_string() }
}

/// Everything is there, but for the temporary copy of the snapshot.
fn free(req: &Request) -> Reply {
    match req {
        Request::Exists { path } => Reply::Flag(path != "/.snapshots/rootfs/snapshot-chr4"),
        Request::IsFile { .. } => Reply::Flag(true),
        Request::Fetch { .. } => Reply::Text(s("date: Sat, 09 Mar 2024 07:05:00 GMT")),
        Request::ReadText { path } if path.ends_with("ash.conf") => {
            Reply::Text(s("mutable_dirs::srv\n"))
        }
        Request::IsDir { .. } => Reply::Flag(true),
        _ => plain(req),
    }
}

/// The names of the snapshots whose subvolumes a request changes.
fn changed(asked: &[Request]) -> Vec<String> {
    let mut names: Vec<String> = Vec::new();
    for req in asked {
        let path = match req {
            Request::DeleteSubvolume { path } => path,
            Request::SnapshotSubvolume { to, .. } => to,
            Request::CreateSubvolume { path } => path,
            Request::SetReadOnly { path, .. } => path,
            _ => continue,
        };
        let name = path.rsplit('/').next().unwrap().split_once('-').unwrap().1.to_string();
        if !names.contains(&name) {
            names.push(name);
        }
    }
    names.sort();
    names
}

fn operations() -> Vec<(&'static str, Box<dyn Fn(&mut Host) -> Result<(), Halt>>)> {
    vec![
        ("install", Box::new(|h| install(h, "4", &vec![s("a")], true))),
        ("uninstall", Box::new(|h| uninstall(h, "4", &vec![s("a")], true))),
        ("upgrade", Box::new(|h| upgrade(h, "4", false, true))),
        ("refresh", Box::new(|h| refresh(h, "4"))),
        ("commands", Box::new(|h| chroot(h, "4", vec![s("true")]))),
        ("shell", Box::new(|h| chroot(h, "4", vec![]))),
        ("options", Box::new(|h| snapshot_config_edit(h, "4"))),
        ("profile", Box::new(|h| snapshot_profile_edit(h, "4"))),
        ("writable", Box::new(|h| immutability_disable(h, "4"))),
        ("fixed", Box::new(|h| immutability_enable(h, "4"))),
        ("keep", Box::new(|h| post_transactions(h, "4"))),
        ("keep hollow", Box::new(|h| posttrans(h, "4"))),
        (
            "install profile",
            Box::new(|h| install_profile(h, "4", "p", false, false, "", true).map(|_| ())),
        ),
        ("remove profile", Box::new(|h| uninstall_profile(h, "4", "p", "", true))),
        ("run", Box::new(|h| perform(h, &Job::Run { cmd: s("true") }, "4"))),
        ("sync", Box::new(|h| perform(h, &Job::Sync { from: s("2"), live: true }, "4"))),
    ]
}

#[test]
fn other_snapshots_are_left_alone() {
    let mark = "/.snapshots/rootfs/snapshot-4/usr/share/ash/mutable";
    for (name, op) in operations() {
        let mut ids: Vec<String> = Vec::new();
        for marked in [false, true] {
            let (_, asked) = drive(pacman(), |h| op(h), |req| match req {
                Request::Exists { path } if path == mark => Reply::Flag(marked),
                _ => free(req),
            });
            ids.append(&mut changed(&asked));
        }
        assert!(!ids.is_empty(), "{}", name);
        for id in ids {
            assert!(id == "4" || id == "chr4", "{}: {}", name, id);
        }
    }
}

#[test]
fn temporary_copies_are_kept_apart() {
    let changes: Vec<(Vec<&str>, Box<dyn Fn(&mut Host) -> Result<(), Halt>>)> = vec![
        (vec!["chr4"], Box::new(|h| prepare(h, "4"))),
        (vec!["chr4"], Box::new(|h| chr_delete(h, "4"))),
        (vec!["chr4"], Box::new(|h| snapshot_unlock(h, "4"))),
    ];
    for (ids, op) in changes {
        let (end, asked) = drive(pacman(), |h| op(h), |req| match req {
            Request::Exists { .. } => Reply::Flag(true),
            _ => plain(req),
        });
        assert_eq!(end, Ok(()));
        assert_eq!(changed(&asked), ids);
    }
}

#[test]
fn failed_changes_are_discarded() {
    let fails = |req: &Request| match req {
        Request::InstallPackages { .. }
        | Request::UninstallPackages { .. }
        | Request::UpgradePackages { .. }
        | Request::RefreshPackages { .. } => broken("no"),
        _ => free(req),
    };
    for (name, op) in operations() {
        if ["install", "uninstall", "upgrade", "refresh"].contains(&name) {
            let (end, asked) = drive(pacman(), |h| op(h), fails);
            assert_eq!(end.is_err(), name == "install" || name == "upgrade");
            assert_eq!(changed(&asked), vec![s("chr4")]);
        }
    }
}

#[test]
fn base_snapshot_is_not_changed() {
    let there = |req: &Request| match req {
        Request::Exists { path } => Reply::Flag(path == "/.snapshots/rootfs/snapshot-0"),
        _ => plain(req),
    };
    let no = vec![s("a")];
    let refused: Vec<Box<dyn Fn(&mut Host) -> Result<(), Halt>>> = vec![
        Box::new(|h| install(h, "0", &no, true)),
        Box::new(|h| uninstall(h, "0", &no, true)),
        Box::new(|h| upgrade(h, "0", false, true)),
        Box::new(|h| chroot(h, "0", vec![])),
        Box::new(|h| hollow(h, "0")),
        Box::new(|h| rebuild(h, "0", 7, "").map(|_| ())),
        Box::new(|h| install_profile(h, "0", "p", false, false, "", true).map(|_| ())),
        Box::new(|h| uninstall_profile(h, "0", "p", "", true)),
    ];
    for op in refused {
        let (end, asked) = drive(pacman(), |h| op(h), there);
        assert_eq!(
            end,
            Err(failed(ErrorKind::Unsupported, "Changing base snapshot is not allowed."))
        );
        assert!(asked
            .iter()
            .all(|r| matches!(r, Request::Exists { .. } | Request::DistroId)));
    }
    for op in [immutability_enable, immutability_disable] {
        let (end, asked) = drive(pacman(), |h| op(h, "0"), there);
        assert_eq!(
            end,
            Err(failed(ErrorKind::Unsupported, "Snapshot 0 (base) should not be modified."))
        );
        assert!(asked.is_empty());
    }
}

#[test]
fn snapshot_in_use_is_not_changed() {
    let ops: Vec<Box<dyn Fn(&mut Host) -> Result<(), Halt>>> = vec![
        Box::new(|h| install(h, "4", &vec![], true)),
        Box::new(|h| uninstall(h, "4", &vec![], true)),
        Box::new(|h| upgrade(h, "4", true, true)),
        Box::new(|h| chroot(h, "4", vec![])),
        Box::new(|h| hollow(h, "4")),
        Box::new(|h| rebuild(h, "4", 7, "").map(|_| ())),
        Box::new(|h| tree_upgrade(h, "4")),
    ];
    for op in ops {
        let (end, asked) = drive(pacman(), |h| op(h), |_| Reply::Flag(true));
        assert_eq!(
            end,
            Err(failed(
                ErrorKind::Unsupported,
                "Snapshot 4 appears to be in use. If you're certain it's not in use, clear lock with 'ash unlock -s 4'."
            ))
        );
        assert_eq!(
            asked,
            vec![
                look("/.snapshots/rootfs/snapshot-4"),
                look("/.snapshots/rootfs/snapshot-chr4"),
            ]
        );
    }
}

#[test]
fn deployments_alone_are_changed_by_deploying() {
    for mounts in ["", "d-deploy-aux / btrfs", "deploy-secondary / btrfs"] {
        for secondary in [false, true] {
            let (end, asked) = drive(pacman(), |h| deploy(h, "4", secondary, false), |req| match req {
                Request::ReadText { path } if path == "/proc/mounts" => Reply::Text(s(mounts)),
                _ => free(req),
            });
            assert_eq!(end, Ok(s("")));
            assert!(changed(&asked).len() >= 2);
            assert!(changed(&asked).iter().all(|id| id == "rollback" || id.starts_with("deploy")));
        }
    }
}

#[test]
fn mark_of_a_mutable_snapshot_goes_again() {
    let (_, asked) = drive(pacman(), |h| immutability_disable(h, "4"), |req| match req {
        Request::Exists { path } => Reply::Flag(path == "/.snapshots/rootfs/snapshot-4"),
        _ => plain(req),
    });
    let added = match asked.last() {
        Some(Request::AppendText { text, .. }) => text.clone(),
        other => panic!("{:?}", other),
    };
    let (_, asked) = drive(pacman(), |h| immutability_enable(h, "4"), |req| match req {
        Request::Exists { .. } => Reply::Flag(true),
        Request::ReadText { .. } => Reply::Text(format!("clone of base.{}", added)),
        _ => plain(req),
    });
    assert_eq!(
        asked.last(),
        Some(&Request::WriteText {
            path: s("/.snapshots/ash/snapshots/4-desc"),
            text: s("clone of base."),
        })
    );
}

#[test]
fn running_deployment_is_left_alone() {
    for (line, tmp) in [
        ("", "deploy"),
        ("d-deploy-aux / btrfs", "deploy-aux"),
        ("d-deploy-secondary / btrfs", "deploy-secondary"),
        ("d-deploy-aux-secondary / btrfs", "deploy-aux-secondary"),
    ] {
        let reply = move |req: &Request| match req {
            Request::ReadText { path } if path == "/proc/mounts" => Reply::Text(s(line)),
            _ => free(req),
        };
        for secondary in [false, true] {
            let aux = get_aux_tmp(s(tmp), secondary);
            let (_, asked) = drive(pacman(), |h| tmp_delete(h, secondary), reply);
            assert_eq!(changed(&asked), vec![aux.clone()]);
            let (_, asked) = drive(pacman(), |h| deploy(h, "4", secondary, false), reply);
            assert_eq!(changed(&asked), vec![aux, s("rollback")]);
            assert!(!changed(&asked).contains(&s(tmp)));
        }
    }
}

/// Files of the base snapshot and of its temporary copy, as requests change them.
fn with_files<T>(
    noted: &std::cell::RefCell<[Option<String>; 2]>,
    op: impl Fn(&mut Host) -> Result<T, Halt>,
) -> (Result<T, Halt>, Vec<Request>) {
    let roots = ["/.snapshots/rootfs/snapshot-0", "/.snapshots/rootfs/snapshot-chr0"];
    let file = "/usr/share/ash/rec-tmp";
    drive(pacman(), op, |req| {
        let mut noted = noted.borrow_mut();
        match req {
            Request::IsFile { path } if *path == s(roots[0]) + file => {
                return Reply::Flag(noted[0].is_some());
            }
            Request::ReadText { path } if *path == s(roots[0]) + file => {
                return Reply::Text(noted[0].clone().unwrap());
            }
            Request::WriteText { path, text } => {
                for i in 0..2 {
                    if *path == s(roots[i]) + file {
                        noted[i] = Some(text.clone());
                    }
                }
            }
            Request::DeleteSubvolume { path } => {
                for i in 0..2 {
                    if path == roots[i] {
                        noted[i] = None;
                    }
                }
            }
            Request::SnapshotSubvolume { from, to, .. } => {
                for (i, j) in [(0, 1), (1, 0)] {
                    if from == roots[i] && to == roots[j] {
                        noted[j] = noted[i].clone();
                    }
                }
            }
            _ => {}
        }
        match req {
            Request::Exists { path } => Reply::Flag(!path.ends_with("mutable")),
            Request::ReadText { .. } => Reply::Text(s("snapshot-deploy ro")),
            _ => plain(req),
        }
    })
}

#[test]
fn recovery_deployments_take_turns() {
    let noted = std::cell::RefCell::new([None, None]);
    let name = |noted| with_files(noted, |h| get_recovery_tmp(h)).0.unwrap();
    assert_eq!(name(&noted), "recovery-deploy");
    for next in ["recovery-deploy-aux", "recovery-deploy", "recovery-deploy-aux"] {
        let (end, asked) = with_files(&noted, |h| deploy_recovery(h));
        assert_eq!(end, Ok(()));
        assert_eq!(name(&noted), next);
        let made = Request::SnapshotSubvolume {
            from: s("/.snapshots/rootfs/snapshot-0"),
            to: format!("/.snapshots/rootfs/snapshot-{}", next),
            read_only: false,
        };
        assert!(asked.contains(&made));
        let snap = Request::WriteText {
            path: format!("/.snapshots/rootfs/snapshot-{}/usr/share/ash/snap", next),
            text: s("0"),
        };
        assert!(asked.contains(&snap));
    }
}

#[test]
fn plain_words_settle_a_question() {
    for (line, meant) in [("y\n", true), (" yes ", true), ("YES", true), ("n", false), ("No", false)] {
        let (end, asked) = drive(pacman(), |h| yes_no(h, "Sure?"), move |req| match req {
            Request::ReadLine => Reply::Text(s(line)),
            _ => plain(req),
        });
        assert_eq!(end, Ok(meant));
        assert_eq!(asked.len(), 2);
    }
}
