use ash::{Build, Error, ErrorKind, ExitStatus, Halt, Host, LocalTime, Profile, Reply, Request};
use ash::{
    ash_version, diff, fixdb, install, install_live, install_profile, install_profile_live,
    install_triage, is_pkg_installed, list, noninteractive_update, read_profile, refresh, uninstall,
    uninstall_live, uninstall_profile, uninstall_profile_live, uninstall_triage, upgrade,
    which_snapshot_has,
};

/// Runs an operation to its end; `answer` replies to each request.
fn drive<T>(
    build: Build,
    op: impl Fn(&mut Host) -> Result<T, Halt>,
    answer: impl Fn(&Request) -> Reply,
) -> (Result<T, Halt>, Vec<Request>) {
    let mut replies: Vec<Reply> = Vec::new();
    let mut asked: Vec<Request> = Vec::new();
    loop {
        let mut host = Host::new(build, replies.clone());
        match op(&mut host) {
            Err(Halt::Pending(req)) => {
                replies.push(answer(&req));
                asked.push(req);
            }
            end => {
                assert_eq!(host.asked(), &asked);
                return (end, asked);
            }
        }
    }
}

fn pacman() -> Build {
    Build { pacman: true, lock: false }
}

/// A reply that fits: nothing is there, and everything works.
fn plain(req: &Request) -> Reply {
    match req {
        Request::Exists { .. }
        | Request::IsFile { .. }
        | Request::IsSymlink { .. }
        | Request::IsDir { .. }
        | Request::EnvSet { .. }
        | Request::Interrupted
        | Request::AurEnabled { .. }
        | Request::ServiceEnabled { .. } => Reply::Flag(false),
        Request::ReadText { .. }
        | Request::PkgQuery { .. }
        | Request::SwitchTmp { .. }
        | Request::DistroId
        | Request::ParentOf { .. }
        | Request::Fetch { .. }
        | Request::DevicePath { .. } => Reply::Text(String::new()),
        Request::ReadLine => Reply::Text("y".to_string()),
        Request::ListDir { .. } | Request::ReadLines { .. } => Reply::Listing(vec![], None),
        Request::WalkTop { .. } => Reply::Entries(vec![], None),
        Request::Run { .. } | Request::RunQuiet { .. } => {
            Reply::Status(ExitStatus { code: Some(0) })
        }
        Request::MountPoints
        | Request::PkgList { .. }
        | Request::NoDepPkgList { .. }
        | Request::ChildrenOf { .. }
        | Request::OrderOf { .. } => Reply::Texts(vec![]),
        Request::LoadTree => Reply::Tree(7),
        Request::ReadProfile { .. } => Reply::Profile(Profile::empty()),
        Request::LocalTime => Reply::Time(LocalTime {
            year: 2024,
            month: 3,
            day: 9,
            hour: 7,
            minute: 5,
            second: 0,
        }),
        _ => Reply::Done,
    }
}

fn broken(text: &str) -> Reply {
    Reply::Failed(Error { kind: ErrorKind::Other, text: text.to_string() })
}

fn s(text: &str) -> String {
    text.to_string()
}

fn failed(kind: ErrorKind, text: &str) -> Halt {
    Halt::Failed(Error { kind, text: text.to_string() })
}

fn look(path: &str) -> Request {
    Request::Exists { path: path.to_string() }
}

fn snap(from: &str, to: &str, read_only: bool) -> Request {
    Request::SnapshotSubvolume { from: from.to_string(), to: to.to_string(), read_only }
}

fn print(text: &str) -> Request {
    Request::Print { text: text.to_string() }
}

fn eprint(text: &str) -> Request {
    Request::Eprint { text: text.to_string() }
}

fn shell(line: &str) -> Request {
    Request::Run { program: s("sh"), args: vec![s("-c"), line.to_string()] }
}

const ROOT: &str = "/.snapshots/rootfs/snapshot-4";
const COPY: &str = "/.snapshots/rootfs/snapshot-chr4";

fn there(req: &Request) -> Reply {
    match req {
        Request::Exists { path } => Reply::Flag(path == ROOT || path == "/.snapshots/rootfs/snapshot-0"),
        Request::DistroId => Reply::Text(s("arch_ashos")),
        Request::ReadText { path } if path == "/usr/share/ash/snap" => Reply::Text(s("4\n")),
        _ => plain(req),
    }
}

fn in_use() -> Halt {
    failed(
        ErrorKind::Unsupported,
        "Snapshot 4 appears to be in use. If you're certain it's not in use, clear lock with 'ash unlock -s 4'.",
    )
}

fn base() -> Halt {
    failed(ErrorKind::Unsupported, "Changing base snapshot is not allowed.")
}

fn pkgs() -> Vec<String> {
    vec![s("vim"), s("git")]
}

#[test]
fn queries_go_to_the_package_manager() {
    let (end, asked) = drive(pacman(), |h| ash_version(h), |_| Reply::Text(s("1.2")));
    assert_eq!(end, Ok(s("1.2")));
    assert_eq!(asked, vec![Request::PkgQuery { pkg: s("ash") }]);
    let (end, asked) = drive(pacman(), |h| list(h, "4", "chr", true), |_| Reply::Texts(pkgs()));
    assert_eq!(end, Ok(pkgs()));
    assert_eq!(asked, vec![Request::NoDepPkgList { snapshot: s("4"), chr: s("chr") }]);
    let (_, asked) = drive(pacman(), |h| list(h, "4", "", false), |_| Reply::Texts(pkgs()));
    assert_eq!(asked, vec![Request::PkgList { snapshot: s("4"), chr: s("") }]);
    for (name, has) in [("git", true), ("gi", false)] {
        let (end, _) =
            drive(pacman(), |h| is_pkg_installed(h, "4", name), |_| Reply::Texts(pkgs()));
        assert_eq!(end, Ok(has));
    }
    let (_, asked) = drive(pacman(), |h| noninteractive_update(h, "4"), plain);
    assert_eq!(asked, vec![Request::AutoUpgrade { snapshot: s("4") }]);
    let (_, asked) = drive(pacman(), |h| fixdb(h, "4"), plain);
    assert_eq!(asked, vec![Request::FixPackageDb { snapshot: s("4") }]);
    let (_, asked) = drive(Build { pacman: false, lock: false }, |h| fixdb(h, "4"), plain);
    assert_eq!(asked, vec![]);
}

#[test]
fn difference_shows_its_error() {
    let (end, asked) = drive(pacman(), |h| diff(h, "1", "2"), |req| match req {
        Request::SnapshotDiff { .. } => broken("cannot compare"),
        _ => plain(req),
    });
    assert_eq!(end, Ok(()));
    assert_eq!(
        asked,
        vec![
            Request::SnapshotDiff { first: s("1"), second: s("2") },
            eprint("cannot compare"),
        ]
    );
}

#[test]
fn holders_of_a_package_are_listed() {
    let (end, asked) = drive(
        pacman(),
        |h| which_snapshot_has(h, vec![s("vim"), s("none")]),
        |req| match req {
            Request::ChildrenOf { name, .. } => {
                assert_eq!(name, "root");
                Reply::Texts(vec![s("0"), s("1"), s("2")])
            }
            Request::PkgList { snapshot, .. } => {
                Reply::Texts(if snapshot == "1" { vec![] } else { pkgs() })
            }
            _ => plain(req),
        },
    );
    assert_eq!(end, Ok(()));
    let shown: Vec<&Request> =
        asked.iter().filter(|r| matches!(r, Request::Print { .. })).collect();
    assert_eq!(shown, vec![&print("Package(s) vim installed in [\"0\", \"2\"].")]);
}

#[test]
fn install_keeps_or_discards() {
    let (end, asked) = drive(pacman(), |h| install(h, "4", &pkgs(), true), there);
    assert_eq!(end, Ok(()));
    assert_eq!(
        asked[..3],
        [
            look(ROOT),
            look(COPY),
            Request::InstallPackages { snapshot: s("4"), pkgs: pkgs(), noconfirm: true },
        ]
    );
    assert!(asked.contains(&snap("/.snapshots/rootfs/snapshot-chr4", ROOT, true)));
    let (end, asked) = drive(pacman(), |h| install(h, "4", &pkgs(), true), |req| match req {
        Request::InstallPackages { .. } => broken("conflict"),
        _ => there(req),
    });
    assert_eq!(
        end,
        Err(failed(ErrorKind::Interrupted, "Install failed and changes discarded."))
    );
    assert_eq!(asked.len(), 7);
    assert_eq!(asked[6], look(COPY));
}

#[test]
fn unusable_snapshots_are_refused() {
    let missing = |verb: &str| {
        Err(failed(ErrorKind::NotFound, &format!("Cannot {} as snapshot 9 doesn't exist.", verb)))
    };
    assert_eq!(drive(pacman(), |h| install(h, "9", &pkgs(), true), there).0, missing("install"));
    assert_eq!(drive(pacman(), |h| uninstall(h, "9", &pkgs(), true), there).0, missing("remove"));
    assert_eq!(drive(pacman(), |h| upgrade(h, "9", false, true), there).0, missing("upgrade"));
    let busy = |req: &Request| match req {
        Request::Exists { .. } => Reply::Flag(true),
        _ => plain(req),
    };
    assert_eq!(drive(pacman(), |h| install(h, "4", &pkgs(), true), busy).0, Err(in_use()));
    assert_eq!(drive(pacman(), |h| uninstall(h, "4", &pkgs(), true), busy).0, Err(in_use()));
    assert_eq!(drive(pacman(), |h| upgrade(h, "4", false, true), busy).0, Err(in_use()));
    let (end, asked) = drive(pacman(), |h| install(h, "0", &pkgs(), true), there);
    assert_eq!(end, Err(base()));
    assert_eq!(asked.len(), 2);
    assert_eq!(drive(pacman(), |h| uninstall(h, "0", &pkgs(), true), there).0, Err(base()));
    assert_eq!(drive(pacman(), |h| upgrade(h, "0", false, true), there).0, Err(base()));
}

#[test]
fn removal_keeps_or_discards() {
    let (end, asked) = drive(pacman(), |h| uninstall(h, "4", &pkgs(), false), there);
    assert_eq!(end, Ok(()));
    assert_eq!(
        asked.last(),
        Some(&print("Package(s) [\"vim\", \"git\"] removed from snapshot 4 successfully."))
    );
    let (end, asked) = drive(pacman(), |h| uninstall(h, "4", &pkgs(), false), |req| match req {
        Request::UninstallPackages { .. } => broken("needed"),
        _ => there(req),
    });
    assert_eq!(end, Ok(()));
    assert_eq!(asked.last(), Some(&eprint("Remove failed and changes discarded.")));
}

#[test]
fn live_changes_stand_between_mounts() {
    let (end, asked) = drive(pacman(), |h| install_live(h, &pkgs(), false), there);
    assert_eq!(end, Ok(()));
    assert!(asked.contains(&Request::InstallLive {
        snapshot: s("4"),
        tmp: s("deploy"),
        pkgs: pkgs(),
        noconfirm: false,
    }));
    let (end, _) = drive(pacman(), |h| install_live(h, &pkgs(), false), |req| match req {
        Request::Mount { .. } => broken("no"),
        _ => there(req),
    });
    assert_eq!(end, Err(Halt::Panicked));
    let (end, asked) = drive(pacman(), |h| uninstall_live(h, &pkgs(), true), |req| match req {
        Request::UninstallLive { .. } => broken("needed"),
        _ => there(req),
    });
    assert_eq!(end, Err(failed(ErrorKind::Other, "needed")));
    assert!(!asked.iter().any(|r| matches!(r, Request::Unmount { .. })));
}

#[test]
fn upgrade_is_safe() {
    let (end, asked) = drive(pacman(), |h| upgrade(h, "4", false, true), there);
    assert_eq!(end, Ok(()));
    assert_eq!(asked.last(), Some(&print("Snapshot 4 upgraded successfully.")));
    let (end, asked) = drive(pacman(), |h| upgrade(h, "4", false, true), |req| match req {
        Request::UpgradePackages { .. } => broken("conflict"),
        _ => there(req),
    });
    assert_eq!(end, Err(failed(ErrorKind::Other, "Upgrade failed and changes discarded.")));
    assert!(!asked.iter().any(|r| matches!(r, Request::SnapshotSubvolume { .. })));
    let (end, asked) = drive(pacman(), |h| upgrade(h, "4", false, true), |req| match req {
        Request::ListDir { .. } => broken("gone"),
        _ => there(req),
    });
    assert_eq!(end, Ok(()));
    assert!(!asked.iter().any(|r| matches!(r, Request::Print { .. })));
}

#[test]
fn base_upgrade_renews_recovery() {
    let (end, asked) = drive(pacman(), |h| upgrade(h, "0", true, true), there);
    assert_eq!(end, Ok(()));
    assert!(asked.contains(&Request::SwitchRecoveryTmp));
    let (end, _) = drive(pacman(), |h| upgrade(h, "0", true, true), |req| match req {
        Request::SwitchRecoveryTmp => broken("no"),
        _ => there(req),
    });
    assert_eq!(end, Err(failed(ErrorKind::Other, "Failed to deploy recovery snapshot.")));
}

#[test]
fn refresh_complains_without_an_error() {
    let (end, asked) = drive(pacman(), |h| refresh(h, "9"), there);
    assert_eq!(end, Ok(()));
    assert_eq!(asked[1], eprint("Cannot refresh as snapshot 9 doesn't exist."));
    let (end, asked) = drive(pacman(), |h| refresh(h, "0"), there);
    assert_eq!(end, Ok(()));
    assert_eq!(asked[2..], [eprint("Changing base snapshot is not allowed.")]);
    let fetched = |req: &Request| match req {
        Request::Fetch { .. } => Reply::Text(s("date: Sat, 09 Mar 2024 07:05:00 GMT\n")),
        _ => there(req),
    };
    let (end, asked) = drive(pacman(), |h| refresh(h, "4"), fetched);
    assert_eq!(end, Ok(()));
    assert_eq!(asked.last(), Some(&print("Snapshot 4 refreshed successfully.")));
    let (end, asked) = drive(pacman(), |h| refresh(h, "4"), |req| match req {
        Request::RefreshPackages { .. } => broken("offline"),
        _ => fetched(req),
    });
    assert_eq!(end, Ok(()));
    assert_eq!(asked.last(), Some(&eprint("Refresh failed and changes discarded.")));
}

fn with_profile(req: &Request) -> Reply {
    match req {
        Request::IsFile { path } => Reply::Flag(path == "/usr/share/ash/profiles/gnome/arch"),
        Request::ReadProfile { .. } => Reply::Profile(
            read_profile(s(
                "[presets]\n[profile-packages]\nvim\n[disable-services]\na\n[enable-services]\nb\n\
                 [install-commands]\nsetup\n[uninstall-commands]\nundo\n",
            ))
            .unwrap(),
        ),
        Request::AurEnabled { .. } => Reply::Flag(true),
        _ => there(req),
    }
}

#[test]
fn profile_is_carried_out_in_the_copy() {
    let op = |h: &mut Host| install_profile(h, "4", "gnome", false, true, "", true);
    let (end, asked) = drive(pacman(), op, with_profile);
    assert_eq!(end, Ok(true));
    assert_eq!(asked[0], Request::DistroId);
    assert_eq!(
        asked[3..5],
        [
            print("Updating the system before installing gnome profile..."),
            Request::AutoUpgrade { snapshot: s("4") },
        ]
    );
    assert_eq!(
        asked[asked.len() - 7..],
        [
            Request::IsFile { path: s("/usr/share/ash/profiles/gnome/arch") },
            Request::ReadProfile { path: s("/usr/share/ash/profiles/gnome/arch") },
            Request::AurEnabled { snapshot: s("4") },
            Request::InstallPackages { snapshot: s("4"), pkgs: vec![s("vim")], noconfirm: true },
            Request::DisableServices {
                snapshot: s("4"),
                services: vec![s("a")],
                chr: s("chr")
            },
            Request::EnableServices { snapshot: s("4"), services: vec![s("b")], chr: s("chr") },
            shell("chroot /.snapshots/rootfs/snapshot-chr4 setup"),
        ]
    );
}

#[test]
fn profile_may_be_forced_or_of_the_user() {
    let op = |h: &mut Host| install_profile(h, "4", "gnome", true, false, "", true);
    let (end, asked) = drive(pacman(), op, with_profile);
    assert_eq!(end, Ok(false));
    assert!(asked.contains(&print("Installing AshOS profiles...")));
    assert!(asked.contains(&Request::InstallPackages {
        snapshot: s("4"),
        pkgs: vec![s("ash-profiles")],
        noconfirm: true,
    }));
    let op = |h: &mut Host| install_profile(h, "4", "", false, false, "/home/me/p", true);
    let (_, asked) = drive(pacman(), op, with_profile);
    assert!(asked.contains(&Request::ReadProfile { path: s("/home/me/p") }));
    let op = |h: &mut Host| install_profile(h, "4", "kde", false, false, "", true);
    let (end, _) = drive(pacman(), op, with_profile);
    assert_eq!(
        end,
        Err(failed(ErrorKind::NotFound, "Please install ash-profiles package."))
    );
    let op = |h: &mut Host| install_profile(h, "4", "gnome", false, false, "", true);
    let (end, _) = drive(pacman(), op, |req| match req {
        Request::AurEnabled { .. } => Reply::Flag(false),
        _ => with_profile(req),
    });
    assert_eq!(end, Err(failed(ErrorKind::Unsupported, "Please enable AUR.")));
    let op = |h: &mut Host| install_profile(h, "0", "gnome", false, false, "", true);
    let (end, asked) = drive(pacman(), op, with_profile);
    assert_eq!(end, Err(base()));
    assert_eq!(asked.len(), 3);
}

#[test]
fn live_profile_needs_an_update() {
    let op = |h: &mut Host| install_profile_live(h, "4", "gnome", false, "", true);
    let (end, asked) = drive(pacman(), op, with_profile);
    assert_eq!(end, Ok(()));
    assert!(asked.contains(&Request::UpgradeLive { tmp: s("deploy"), noconfirm: true }));
    assert!(asked.contains(&shell("chroot /.snapshots/rootfs/snapshot-4 setup")));
    let (end, _) = drive(pacman(), op, |req| match req {
        Request::UpgradeLive { .. } => broken("offline"),
        _ => with_profile(req),
    });
    assert_eq!(end, Err(failed(ErrorKind::Interrupted, "System update failed.")));
}

#[test]
fn profile_is_removed() {
    let op = |h: &mut Host| uninstall_profile(h, "4", "gnome", "", false);
    let (end, asked) = drive(pacman(), op, with_profile);
    assert_eq!(end, Ok(()));
    assert_eq!(
        asked[asked.len() - 2..],
        [
            shell("chroot /.snapshots/rootfs/snapshot-chr4 undo"),
            Request::UninstallPackages { snapshot: s("4"), pkgs: vec![s("vim")], noconfirm: false },
        ]
    );
    let op = |h: &mut Host| uninstall_profile_live(h, "4", "gnome", "", false);
    let (end, asked) = drive(pacman(), op, with_profile);
    assert_eq!(end, Ok(()));
    let at = asked.iter().position(|r| matches!(r, Request::UninstallLive { .. })).unwrap();
    assert_eq!(asked[at + 1], shell("chroot /.snapshots/rootfs/snapshot-4 undo"));
    let op = |h: &mut Host| uninstall_profile(h, "4", "kde", "", false);
    let (end, asked) = drive(pacman(), op, with_profile);
    assert_eq!(end, Ok(()));
    assert!(!asked.iter().any(|r| matches!(r, Request::ReadProfile { .. })));
}

fn triage(
    live: bool,
    pkgs: Vec<String>,
    profile: &'static str,
    user: &'static str,
) -> impl Fn(&mut Host) -> Result<(), Halt> {
    move |h: &mut Host| {
        install_triage(h, "4", live, pkgs.clone(), profile, false, user, true, false)
    }
}

#[test]
fn triage_puts_profiles_first() {
    let (end, asked) = drive(pacman(), triage(false, pkgs(), "gnome", ""), |req| match req {
        Request::ReadLine => Reply::Text(s("no")),
        _ => with_profile(req),
    });
    assert_eq!(end, Ok(()));
    assert!(asked.contains(&print("Profile gnome installed in snapshot 4 successfully.")));
    assert!(asked
        .contains(&print("Would you like to proceed with the deployment of snapshot 4? (y/n)")));
    assert!(!asked.iter().any(|r| matches!(r, Request::UpdateBoot { .. })));
    let (_, asked) = drive(pacman(), triage(false, vec![], "", "/p"), with_profile);
    assert!(asked.contains(&print("Profile /p installed in snapshot 4 successfully.")));
    assert_eq!(asked.last(), Some(&print("Snapshot 4 deployed to '/'.")));
    let (_, asked) = drive(pacman(), triage(false, pkgs(), "", "/p"), with_profile);
    assert_eq!(
        asked.last(),
        Some(&print("Package(s) [\"vim\", \"git\"] installed in snapshot 4 successfully."))
    );
    let (end, asked) = drive(pacman(), triage(false, vec![], "", ""), with_profile);
    assert_eq!(end, Ok(()));
    assert_eq!(asked, vec![]);
}

#[test]
fn triage_tells_of_failures() {
    let (end, asked) = drive(pacman(), triage(false, vec![], "kde", ""), with_profile);
    assert_eq!(end, Ok(()));
    assert!(asked.contains(&eprint("Please install ash-profiles package.")));
    assert_eq!(asked.last(), Some(&eprint("Install failed and changes discarded!")));
    let (_, asked) = drive(pacman(), triage(false, pkgs(), "", ""), |req| match req {
        Request::InstallPackages { .. } => broken("conflict"),
        _ => with_profile(req),
    });
    assert_eq!(asked.last(), Some(&eprint("Install failed and changes discarded.")));
}

#[test]
fn live_triage_needs_the_running_snapshot() {
    let (end, asked) = drive(pacman(), triage(true, pkgs(), "", ""), |req| match req {
        Request::ReadText { path } if path == "/usr/share/ash/snap" => Reply::Text(s("5")),
        _ => with_profile(req),
    });
    assert_eq!(end, Ok(()));
    assert_eq!(
        asked[1..],
        [eprint("Can't use the live option with any other snapshot than the current one.")]
    );
    let (_, asked) = drive(pacman(), triage(true, pkgs(), "", ""), with_profile);
    assert_eq!(
        asked.last(),
        Some(&print("Package(s) [\"vim\", \"git\"] installed in snapshot 4 successfully."))
    );
    let (_, asked) = drive(pacman(), triage(true, pkgs(), "gnome", ""), with_profile);
    assert_eq!(asked.last(), Some(&print("Profile gnome installed in current/live snapshot.")));
    let (_, asked) = drive(pacman(), triage(true, vec![], "kde", ""), with_profile);
    assert_eq!(asked.last(), Some(&eprint("Please install ash-profiles package.")));
}

#[test]
fn removal_triage_follows_the_same_order() {
    let op = |live: bool, pkgs: Vec<String>, profile: &'static str, user: &'static str| {
        move |h: &mut Host| uninstall_triage(h, "4", live, pkgs.clone(), profile, user, true)
    };
    let (_, asked) = drive(pacman(), op(false, pkgs(), "gnome", ""), with_profile);
    assert_eq!(asked.last(), Some(&print("Profile gnome removed from snapshot 4 successfully.")));
    let (_, asked) = drive(pacman(), op(false, pkgs(), "", "/p"), with_profile);
    assert_eq!(
        asked.last(),
        Some(&print("Package(s) [\"vim\", \"git\"] removed from snapshot 4 successfully."))
    );
    let (_, asked) = drive(pacman(), op(false, vec![], "", "/p"), with_profile);
    assert_eq!(asked.last(), Some(&print("Profile /p removed from snapshot 4 successfully.")));
    let (end, asked) = drive(pacman(), op(false, vec![], "gnome", ""), |req| match req {
        Request::UninstallPackages { .. } => broken("needed"),
        _ => with_profile(req),
    });
    assert_eq!(end, Ok(()));
    assert!(asked.contains(&eprint("needed")));
    assert_eq!(asked.last(), Some(&eprint("Uninstall failed and changes discarded!")));
    let (_, asked) = drive(pacman(), op(true, pkgs(), "", ""), with_profile);
    assert_eq!(
        asked.last(),
        Some(&print("Package(s) [\"vim\", \"git\"] removed from snapshot 4 successfully."))
    );
    let (_, asked) = drive(pacman(), op(true, vec![], "gnome", ""), with_profile);
    assert_eq!(asked.last(), Some(&print("Profile gnome removed from current/live snapshot.")));
}
