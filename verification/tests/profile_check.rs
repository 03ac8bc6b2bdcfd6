use ash::{Build, Error, ErrorKind, ExitStatus, Halt, Host, LocalTime, Profile, Reply, Request};
use ash::{check_profile, is_system_locked, is_system_pkg, read_profile};
use ash::profiles::not_listed;

/// Runs an operation to its end; `answer` replies to each request.
fn drive<T>(
    build: Build,
    op: impl Fn(&mut Host) -> Result<T, Halt>,
    answer: impl Fn(&Request) -> Reply,
) -> (Result<T, Halt>, Vec<Request>) {
    let mut replies: Vec<Reply> = Vec::new();
    let mut asked: Vec<Request> = Vec::new();
    loop {
        let mut host = Host::new(build, replies.clone());
        match op(&mut host) {
            Err(Halt::Pending(req)) => {
                replies.push(answer(&req));
                asked.push(req);
            }
            end => {
                assert_eq!(host.asked(), &asked);
                return (end, asked);
            }
        }
    }
}

fn pacman() -> Build {
    Build { pacman: true, lock: false }
}

/// A reply that fits: nothing is there, and everything works.
fn plain(req: &Request) -> Reply {
    match req {
        Request::Exists { .. }
        | Request::IsFile { .. }
        | Request::IsSymlink { .. }
        | Request::IsDir { .. }
        | Request::EnvSet { .. }
        | Request::Interrupted
        | Request::AurEnabled { .. }
        | Request::ServiceEnabled { .. } => Reply::Flag(false),
        Request::ReadText { .. }
        | Request::PkgQuery { .. }
        | Request::SwitchTmp { .. }
        | Request::DistroId
        | Request::ParentOf { .. }
        | Request::Fetch { .. }
        | Request::DevicePath { .. } => Reply::Text(String::new()),
        Request::ReadLine => Reply::Text("y".to_string()),
        Request::ListDir { .. } | Request::ReadLines { .. } => Reply::Listing(vec![], None),
        Request::WalkTop { .. } => Reply::Entries(vec![], None),
        Request::Run { .. } | Request::RunQuiet { .. } => {
            Reply::Status(ExitStatus { code: Some(0) })
        }
        Request::MountPoints
        | Request::PkgList { .. }
        | Request::NoDepPkgList { .. }
        | Request::ChildrenOf { .. }
        | Request::OrderOf { .. } => Reply::Texts(vec![]),
        Request::LoadTree => Reply::Tree(7),
        Request::ReadProfile { .. } => Reply::Profile(Profile::empty()),
        Request::LocalTime => Reply::Time(LocalTime {
            year: 2024,
            month: 3,
            day: 9,
            hour: 7,
            minute: 5,
            second: 0,
        }),
        _ => Reply::Done,
    }
}

fn broken(text: &str) -> Reply {
    Reply::Failed(Error { kind: ErrorKind::Other, text: text.to_string() })
}

fn s(text: &str) -> String {
    text.to_string()
}

fn failed(kind: ErrorKind, text: &str) -> Halt {
    Halt::Failed(Error { kind, text: text.to_string() })
}

fn profile(text: &str) -> Profile {
    read_profile(s(text)).unwrap()
}

fn edited(
    before: &'static str,
    after: &'static str,
    installed: &'static [&'static str],
) -> impl Fn(&Request) -> Reply {
    move |req: &Request| match req {
        Request::ReadProfile { path } => {
            if path == "/.snapshots/etc/etc-4/ash/profile" {
                Reply::Profile(profile(before))
            } else {
                assert_eq!(path, "/.snapshots/rootfs/snapshot-chr4/etc/ash/profile");
                Reply::Profile(profile(after))
            }
        }
        Request::NoDepPkgList { .. } => Reply::Texts(installed.iter().map(|p| s(p)).collect()),
        Request::ServiceEnabled { service, .. } => Reply::Flag(service == "on"),
        _ => plain(req),
    }
}

fn sorted(mut keys: Vec<String>) -> Vec<String> {
    keys.sort();
    keys
}

#[test]
fn ini_text_is_read() {
    let p = profile("# note\n[Profile-Packages]\nVim\ngit = 2 # c\n[presets]\n");
    assert_eq!(sorted(p.keys("profile-packages")), vec![s("git"), s("vim")]);
    assert!(p.has("presets"));
    assert!(!p.has("Profile-Packages"));
    assert_eq!(p.keys("none"), Vec::<String>::new());
    assert!(read_profile(s("[open")).is_err());
}

#[test]
fn profile_is_edited_without_regard_to_case() {
    let mut p = Profile::empty();
    p.set("Profile-Packages", "Vim", None);
    p.set("profile-packages", "git", Some(s("2")));
    p.set("profile-packages", "VIM", Some(s("9")));
    assert_eq!(p.keys("profile-packages"), vec![s("vim"), s("git")]);
    assert_eq!(p.sections()[0].entries[0], (s("vim"), Some(s("9"))));
    p.remove_key("PROFILE-PACKAGES", "vim");
    assert_eq!(p.keys("profile-packages"), vec![s("git")]);
    p.remove_key("other", "x");
    assert_eq!(p.sections().len(), 1);
}

#[test]
fn system_packages_are_listed() {
    let p = profile("[system-packages]\nbase\n[profile-packages]\nvim\n");
    assert!(is_system_pkg(&p, "base"));
    assert!(!is_system_pkg(&p, "vim"));
    assert!(!is_system_pkg(&Profile::empty(), "base"));
    assert!(is_system_locked(&Host::new(Build { pacman: true, lock: true }, vec![])));
    assert!(!is_system_locked(&Host::new(pacman(), vec![])));
}

#[test]
fn lists_are_compared_in_order() {
    let list = vec![s("a"), s("b"), s("a"), s("c")];
    assert_eq!(not_listed(&list, &vec![s("b")]), vec![s("a"), s("a"), s("c")]);
    assert_eq!(not_listed(&list, &list), Vec::<String>::new());
}

#[test]
fn changes_of_the_profile_are_carried_out() {
    let (end, asked) = drive(
        pacman(),
        |h| check_profile(h, "4"),
        edited(
            "[system-packages]\nold\n[profile-packages]\ngone\nkept\n[enable-services]\nwas\n",
            "[system-packages]\nbase\n[profile-packages]\nkept\nnew\n[enable-services]\non\n\
             [disable-services]\noff\n",
            &[],
        ),
    );
    assert_eq!(end, Ok(()));
    let done: Vec<&Request> = asked
        .iter()
        .filter(|r| {
            matches!(
                r,
                Request::InstallInChroot { .. }
                    | Request::UninstallInChroot { .. }
                    | Request::EnableServices { .. }
                    | Request::DisableServices { .. }
            )
        })
        .collect();
    assert_eq!(
        done,
        vec![
            &Request::InstallInChroot {
                snapshot: s("4"),
                pkgs: vec![s("base")],
                noconfirm: true
            },
            &Request::InstallInChroot { snapshot: s("4"), pkgs: vec![s("new")], noconfirm: true },
            &Request::DisableServices {
                snapshot: s("4"),
                services: vec![s("was"), s("off")],
                chr: s("chr")
            },
            &Request::EnableServices { snapshot: s("4"), services: vec![s("on")], chr: s("chr") },
            &Request::UninstallInChroot {
                snapshot: s("4"),
                pkgs: vec![s("old")],
                noconfirm: true
            },
            &Request::UninstallInChroot {
                snapshot: s("4"),
                pkgs: vec![s("gone")],
                noconfirm: true
            },
        ]
    );
}

#[test]
fn unchanged_profile_changes_nothing() {
    let text = "[system-packages]\nbase\n[profile-packages]\nvim\n";
    let (end, asked) = drive(pacman(), |h| check_profile(h, "4"), edited(text, text, &[]));
    assert_eq!(end, Ok(()));
    assert_eq!(asked.len(), 4);
    assert_eq!(asked[2], Request::NoDepPkgList { snapshot: s("4"), chr: s("chr") });
    assert!(matches!(asked[3], Request::LockPackages { .. }));
}

fn final_profile(asked: &[Request]) -> &Profile {
    match asked.last() {
        Some(Request::LockPackages { profile, .. }) => profile,
        _ => panic!("the packages were not locked"),
    }
}

#[test]
fn profile_follows_what_is_installed() {
    let text = "[system-packages]\nbase\nlost\n[profile-packages]\nvim\n\
                [enable-services]\non\noff\n[disable-services]\non\noff\n";
    let (end, asked) =
        drive(pacman(), |h| check_profile(h, "4"), edited(text, text, &["base", "vim", "new"]));
    assert_eq!(end, Ok(()));
    let p = final_profile(&asked);
    assert_eq!(p.keys("system-packages"), vec![s("base")]);
    assert_eq!(sorted(p.keys("profile-packages")), vec![s("new"), s("vim")]);
    assert_eq!(p.keys("enable-services"), vec![s("on")]);
    assert_eq!(p.keys("disable-services"), vec![s("off")]);
    let written = asked.iter().filter(|r| matches!(r, Request::WriteProfile { .. })).count();
    assert_eq!(written, 3 * 3 + 2 + 1);
}

#[test]
fn package_that_is_not_installed_leaves_the_profile() {
    let text = "[profile-packages]\nfoo\n";
    let (end, asked) = drive(pacman(), |h| check_profile(h, "4"), edited(text, text, &["bar"]));
    assert_eq!(end, Ok(()));
    assert_eq!(final_profile(&asked).keys("profile-packages"), vec![s("bar")]);
    let written = asked.iter().rev().find_map(|r| match r {
        Request::WriteProfile { profile, .. } => Some(profile),
        _ => None,
    });
    assert_eq!(written, Some(final_profile(&asked)));
}

#[test]
fn packages_are_found_whatever_the_case_of_their_names() {
    let none = "[profile-packages]\n";
    let (end, asked) = drive(
        pacman(),
        |h| check_profile(h, "4"),
        edited(none, none, &["NetworkManager", "vim"]),
    );
    assert_eq!(end, Ok(()));
    assert_eq!(
        sorted(final_profile(&asked).keys("profile-packages")),
        vec![s("networkmanager"), s("vim")]
    );
    let system = "[system-packages]\nNetworkManager\n";
    for lock in [false, true] {
        let (end, asked) = drive(
            Build { pacman: true, lock },
            |h| check_profile(h, "4"),
            edited(system, system, &["NetworkManager", "vim"]),
        );
        assert_eq!(end, Ok(()));
        let p = final_profile(&asked);
        assert_eq!(p.keys("system-packages"), vec![s("networkmanager")]);
        assert_eq!(p.keys("profile-packages"), vec![s("vim")]);
    }
}

#[test]
fn package_in_both_sections_stays_a_system_package() {
    let text = "[system-packages]\nbase\n[profile-packages]\nbase\nvim\n";
    let (end, asked) =
        drive(pacman(), |h| check_profile(h, "4"), edited(text, text, &["base", "vim"]));
    assert_eq!(end, Ok(()));
    let p = final_profile(&asked);
    assert_eq!(p.keys("system-packages"), vec![s("base")]);
    assert_eq!(p.keys("profile-packages"), vec![s("vim")]);
}

#[test]
fn lock_protects_system_packages() {
    let locked = Build { pacman: true, lock: true };
    let (end, asked) = drive(
        locked,
        |h| check_profile(h, "4"),
        edited("[system-packages]\na\n", "[system-packages]\na\nb\n", &[]),
    );
    assert_eq!(
        end,
        Err(failed(ErrorKind::Unsupported, "Install system package(s) is not allowed."))
    );
    assert_eq!(asked.len(), 2);
    let (end, _) = drive(
        locked,
        |h| check_profile(h, "4"),
        edited("[system-packages]\na\nb\n", "[system-packages]\na\n", &[]),
    );
    let removal = failed(ErrorKind::Unsupported, "Remove system package(s) is not allowed.");
    assert_eq!(end, Err(removal));
    let (end, _) = drive(
        locked,
        |h| check_profile(h, "4"),
        edited("[system-packages]\na\n", "[system-packages]\na\n", &["vim"]),
    );
    let removal = failed(ErrorKind::Unsupported, "Remove system package(s) is not allowed.");
    assert_eq!(end, Err(removal));
}

#[test]
fn unreadable_profile_is_not_provided_for() {
    let (end, _) = drive(pacman(), |h| check_profile(h, "4"), |req| match req {
        Request::ReadProfile { .. } => broken("gone"),
        _ => plain(req),
    });
    assert_eq!(end, Err(Halt::Panicked));
}
