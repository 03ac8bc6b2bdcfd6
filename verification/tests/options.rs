use ash::{
    Build, Error, ErrorKind, ExitStatus, Halt, Host, LocalTime, MountMode, Profile, Reply, Request,
};
use ash::config::{read_dirs, read_options, read_setting};
use ash::{allow_dir_mut, comment_after_hash, remove_dir_content, snapshot_config_get};
use ash::dirs::{mount_mutable_dirs, unmount_mutable_dirs};

/// Runs an operation to its end; `answer` replies to each request.
fn drive<T>(
    build: Build,
    op: impl Fn(&mut Host) -> Result<T, Halt>,
    answer: impl Fn(&Request) -> Reply,
) -> (Result<T, Halt>, Vec<Request>) {
    let mut replies: Vec<Reply> = Vec::new();
    let mut asked: Vec<Request> = Vec::new();
    loop {
        let mut host = Host::new(build, replies.clone());
        match op(&mut host) {
            Err(Halt::Pending(req)) => {
                replies.push(answer(&req));
                asked.push(req);
            }
            end => {
                assert_eq!(host.asked(), &asked);
                return (end, asked);
            }
        }
    }
}

fn pacman() -> Build {
    Build { pacman: true, lock: false }
}

/// A reply that fits: nothing is there, and everything works.
fn plain(req: &Request) -> Reply {
    match req {
        Request::Exists { .. }
        | Request::IsFile { .. }
        | Request::IsSymlink { .. }
        | Request::IsDir { .. }
        | Request::EnvSet { .. }
        | Request::Interrupted
        | Request::AurEnabled { .. }
        | Request::ServiceEnabled { .. } => Reply::Flag(false),
        Request::ReadText { .. }
        | Request::PkgQuery { .. }
        | Request::SwitchTmp { .. }
        | Request::DistroId
        | Request::ParentOf { .. }
        | Request::Fetch { .. }
        | Request::DevicePath { .. } => Reply::Text(String::new()),
        Request::ReadLine => Reply::Text("y".to_string()),
        Request::ListDir { .. } | Request::ReadLines { .. } => Reply::Listing(vec![], None),
        Request::WalkTop { .. } => Reply::Entries(vec![], None),
        Request::Run { .. } | Request::RunQuiet { .. } => {
            Reply::Status(ExitStatus { code: Some(0) })
        }
        Request::MountPoints
        | Request::PkgList { .. }
        | Request::NoDepPkgList { .. }
        | Request::ChildrenOf { .. }
        | Request::OrderOf { .. } => Reply::Texts(vec![]),
        Request::LoadTree => Reply::Tree(7),
        Request::ReadProfile { .. } => Reply::Profile(Profile::empty()),
        Request::LocalTime => Reply::Time(LocalTime {
            year: 2024,
            month: 3,
            day: 9,
            hour: 7,
            minute: 5,
            second: 0,
        }),
        _ => Reply::Done,
    }
}

fn broken(text: &str) -> Reply {
    Reply::Failed(Error { kind: ErrorKind::Other, text: text.to_string() })
}

fn s(text: &str) -> String {
    text.to_string()
}

fn failed(kind: ErrorKind, text: &str) -> Halt {
    Halt::Failed(Error { kind, text: text.to_string() })
}

fn look(path: &str) -> Request {
    Request::Exists { path: path.to_string() }
}

#[test]
fn only_what_a_directory_holds_is_removed_from_it() {
    for stray in ["/e/file", "/d/../e", "/d/..", "/d/sub/file", "/d"] {
        let (end, asked) = drive(pacman(), |h| remove_dir_content(h, "/d"), move |req| match req {
            Request::ListDir { .. } => Reply::Listing(vec![s(stray)], None),
            _ => plain(req),
        });
        assert_eq!(end, Err(Halt::Misfit));
        assert_eq!(asked.len(), 1);
    }
    let (end, asked) = drive(pacman(), |h| remove_dir_content(h, "/d/"), |req| match req {
        Request::ListDir { .. } => Reply::Listing(vec![s("/d/x")], None),
        Request::IsFile { .. } => Reply::Flag(true),
        _ => plain(req),
    });
    assert_eq!(end, Ok(()));
    assert_eq!(asked[2], Request::RemoveFile { path: s("/d/x") });
}

#[test]
fn comment_starts_at_a_hash() {
    assert_eq!(comment_after_hash("aur::True # enable"), "aur::True ");
    assert_eq!(comment_after_hash("#all"), "");
    assert_eq!(comment_after_hash("none"), "none");
}

#[test]
fn setting_is_split_at_the_first_mark() {
    assert_eq!(read_setting("aur::True"), Some((s("aur"), s("True"))));
    assert_eq!(read_setting("a::b::c  "), Some((s("a"), s("b::c"))));
    assert_eq!(read_setting("a::b # c::d"), Some((s("a"), s("b "))));
    assert_eq!(read_setting("# a::b"), None);
    assert_eq!(read_setting("a:b"), None);
}

#[test]
fn what_follows_a_hash_makes_no_difference() {
    for tail in ["", " x", "::y", "   "] {
        assert_eq!(read_setting(&format!("key::value#{}", tail)), Some((s("key"), s("value"))));
        assert_eq!(read_setting(&format!("key#{}", tail)), None);
    }
}

#[test]
fn later_settings_replace_earlier_ones() {
    let options = read_options("a::1\nb::2\na::3\n");
    assert_eq!(options.get("a"), Some(s("3")));
    assert_eq!(options.get("b"), Some(s("2")));
    assert_eq!(options.get("c"), None);
}

#[test]
fn defaults_depend_on_the_package_manager() {
    let (end, asked) = drive(pacman(), |h| snapshot_config_get(h, "3"), plain);
    let options = end.unwrap();
    assert_eq!(options.get("aur"), Some(s("False")));
    assert_eq!(options.get("mutable_dirs"), Some(String::new()));
    assert_eq!(options.get("mutable_dirs_shared"), Some(String::new()));
    assert_eq!(asked, vec![Request::IsFile { path: s("/.snapshots/etc/etc-3/ash/ash.conf") }]);
    let other = Build { pacman: false, lock: false };
    let (end, _) = drive(other, |h| snapshot_config_get(h, "3"), plain);
    assert_eq!(end.unwrap().get("aur"), None);
}

#[test]
fn options_are_read_from_the_snapshot() {
    let (end, _) = drive(pacman(), |h| snapshot_config_get(h, "3"), |req| match req {
        Request::IsFile { .. } => Reply::Flag(true),
        Request::ReadText { .. } => Reply::Text(s("mutable_dirs::home/x,srv\r\n# c\n")),
        _ => plain(req),
    });
    let options = end.unwrap();
    assert_eq!(options.get("mutable_dirs"), Some(s("home/x,srv")));
    assert_eq!(options.get("aur"), None);
    let (end, _) = drive(pacman(), |h| snapshot_config_get(h, "3"), |req| match req {
        Request::IsFile { .. } => Reply::Flag(true),
        _ => broken("gone"),
    });
    assert_eq!(end.err(), Some(Halt::Panicked));
}

#[test]
fn directories_are_listed_by_commas_and_pairs() {
    assert_eq!(read_dirs("a,b::c, ,,d"), vec![s("a"), s("b"), s("c"), s("d")]);
    assert_eq!(read_dirs(""), Vec::<String>::new());
    assert_eq!(read_dirs("::x"), vec![s("x")]);
    assert_eq!(read_dirs("x::y::z"), vec![s("x"), s("y::z")]);
}

#[test]
fn system_directories_stay_as_they_are() {
    let there = |req: &Request| match req {
        Request::IsDir { .. } => Reply::Flag(true),
        _ => plain(req),
    };
    for name in ["bin", "dev", "lib", "lib64", "proc", "sbin", "usr", "usr/bin", "usr/lib",
        "usr/lib64", "usr/sbin", "usr/", "bin//", "/home"]
    {
        let (end, _) = drive(pacman(), |h| allow_dir_mut(h, name), there);
        assert_eq!(end, Ok(false));
    }
    for name in ["home", "usr/local", "srv/www/"] {
        let (end, asked) = drive(pacman(), |h| allow_dir_mut(h, name), there);
        assert_eq!(end, Ok(true));
        assert_eq!(asked, vec![Request::IsDir { path: format!("/{}", name) }]);
    }
    let (end, _) = drive(pacman(), |h| allow_dir_mut(h, "home"), plain);
    assert_eq!(end, Ok(false));
}

#[test]
fn directory_is_emptied_by_kind() {
    let (end, asked) = drive(pacman(), |h| remove_dir_content(h, "/d"), |req| match req {
        Request::ListDir { .. } => {
            Reply::Listing(vec![s("/d/file"), s("/d/link"), s("/d/dir"), s("/d/odd")], None)
        }
        Request::IsFile { path } => Reply::Flag(path == "/d/file"),
        Request::IsSymlink { path } => Reply::Flag(path == "/d/link"),
        Request::IsDir { path } => Reply::Flag(path == "/d/dir"),
        _ => plain(req),
    });
    assert_eq!(end, Ok(()));
    let removed: Vec<&Request> = asked
        .iter()
        .filter(|r| matches!(r, Request::RemoveFile { .. } | Request::RemoveTree { .. }))
        .collect();
    assert_eq!(
        removed,
        vec![
            &Request::RemoveFile { path: s("/d/file") },
            &Request::RemoveFile { path: s("/d/link") },
            &Request::RemoveTree { path: s("/d/dir") },
        ]
    );
}

#[test]
fn broken_listing_fails_after_what_was_listed() {
    let (end, asked) = drive(pacman(), |h| remove_dir_content(h, "/d"), |req| match req {
        Request::ListDir { .. } => Reply::Listing(
            vec![s("/d/a")],
            Some(Error { kind: ErrorKind::Other, text: s("bad entry") }),
        ),
        Request::IsFile { .. } => Reply::Flag(true),
        _ => plain(req),
    });
    assert_eq!(end, Err(failed(ErrorKind::Other, "bad entry")));
    assert_eq!(asked.last(), Some(&Request::RemoveFile { path: s("/d/a") }));
    let (end, _) = drive(pacman(), |h| remove_dir_content(h, "/d"), |_| broken("none"));
    assert_eq!(end, Err(failed(ErrorKind::Other, "none")));
}

fn with_dirs(req: &Request) -> Reply {
    match req {
        Request::IsFile { path } => Reply::Flag(path.ends_with("/ash/ash.conf")),
        Request::ReadText { .. } => {
            Reply::Text(s("mutable_dirs::srv,usr\nmutable_dirs_shared::opt\n"))
        }
        Request::IsDir { path } => Reply::Flag(path.starts_with("/s") || path.starts_with("/o") || path.starts_with("/u")),
        _ => plain(req),
    }
}

#[test]
fn mutable_directories_are_mounted_where_allowed() {
    let (end, asked) = drive(pacman(), |h| mount_mutable_dirs(h, "4"), with_dirs);
    assert_eq!(end, Ok(()));
    let mounts: Vec<&Request> =
        asked.iter().filter(|r| matches!(r, Request::Mount { .. })).collect();
    assert_eq!(
        mounts,
        vec![
            &Request::Mount {
                source: s("/.snapshots/mutable_dirs/snapshot-4/srv"),
                target: s("/.snapshots/rootfs/snapshot-chr4/srv"),
                fstype: s("btrfs"),
                mode: MountMode::Bind,
            },
            &Request::Mount {
                source: s("/.snapshots/mutable_dirs/opt"),
                target: s("/.snapshots/rootfs/snapshot-chr4/opt"),
                fstype: s("btrfs"),
                mode: MountMode::Bind,
            },
        ]
    );
    assert!(asked.contains(&look("/.snapshots/mutable_dirs/snapshot-4")));
    assert!(asked.contains(&look("/.snapshots/mutable_dirs/")));
}

#[test]
fn unmounting_refuses_directories_of_the_system() {
    let (end, _) = drive(pacman(), |h| unmount_mutable_dirs(h, "4", "9"), with_dirs);
    assert_eq!(
        end,
        Err(failed(
            ErrorKind::InvalidInput,
            "Please insert valid value for mutable_dirs in /.snapshots/etc/etc-9/ash/ash.conf"
        ))
    );
}

#[test]
fn mounted_directories_are_unmounted() {
    let (end, asked) = drive(pacman(), |h| unmount_mutable_dirs(h, "4", "4"), |req| match req {
        Request::ReadText { .. } => Reply::Text(s("mutable_dirs_shared::srv,opt\n")),
        Request::MountPoints => Reply::Texts(vec![s("/.snapshots/rootfs//snapshot-chr4/srv/")]),
        _ => with_dirs(req),
    });
    assert_eq!(end, Ok(()));
    let gone: Vec<&Request> =
        asked.iter().filter(|r| matches!(r, Request::Unmount { .. })).collect();
    assert_eq!(
        gone,
        vec![&Request::Unmount {
            target: s("/.snapshots/rootfs/snapshot-chr4/srv"),
            detach: true
        }]
    );
}
