use ash::{Build, Error, ErrorKind, ExitStatus, Halt, Host, LocalTime, Profile, Reply, Request};
use ash::{
    get_aux_tmp, get_current_snapshot, get_next_snapshot, get_part, get_recovery_aux_tmp,
    get_recovery_tmp, get_tmp, live_unlock, print_tmp, tmp_delete,
};
use ash::deployment::{make_root_writable, rename_table};

/// Runs an operation to its end; `answer` replies to each request.
fn drive<T>(
    build: Build,
    op: impl Fn(&mut Host) -> Result<T, Halt>,
    answer: impl Fn(&Request) -> Reply,
) -> (Result<T, Halt>, Vec<Request>) {
    let mut replies: Vec<Reply> = Vec::new();
    let mut asked: Vec<Request> = Vec::new();
    loop {
        let mut host = Host::new(build, replies.clone());
        match op(&mut host) {
            Err(Halt::Pending(req)) => {
                replies.push(answer(&req));
                asked.push(req);
            }
            end => {
                assert_eq!(host.asked(), &asked);
                return (end, asked);
            }
        }
    }
}

fn pacman() -> Build {
    Build { pacman: true, lock: false }
}

/// A reply that fits: nothing is there, and everything works.
fn plain(req: &Request) -> Reply {
    match req {
        Request::Exists { .. }
        | Request::IsFile { .. }
        | Request::IsSymlink { .. }
        | Request::IsDir { .. }
        | Request::EnvSet { .. }
        | Request::Interrupted
        | Request::AurEnabled { .. }
        | Request::ServiceEnabled { .. } => Reply::Flag(false),
        Request::ReadText { .. }
        | Request::PkgQuery { .. }
        | Request::SwitchTmp { .. }
        | Request::DistroId
        | Request::ParentOf { .. }
        | Request::Fetch { .. }
        | Request::DevicePath { .. } => Reply::Text(String::new()),
        Request::ReadLine => Reply::Text("y".to_string()),
        Request::ListDir { .. } | Request::ReadLines { .. } => Reply::Listing(vec![], None),
        Request::WalkTop { .. } => Reply::Entries(vec![], None),
        Request::Run { .. } | Request::RunQuiet { .. } => {
            Reply::Status(ExitStatus { code: Some(0) })
        }
        Request::MountPoints
        | Request::PkgList { .. }
        | Request::NoDepPkgList { .. }
        | Request::ChildrenOf { .. }
        | Request::OrderOf { .. } => Reply::Texts(vec![]),
        Request::LoadTree => Reply::Tree(7),
        Request::ReadProfile { .. } => Reply::Profile(Profile::empty()),
        Request::LocalTime => Reply::Time(LocalTime {
            year: 2024,
            month: 3,
            day: 9,
            hour: 7,
            minute: 5,
            second: 0,
        }),
        _ => Reply::Done,
    }
}

fn broken(text: &str) -> Reply {
    Reply::Failed(Error { kind: ErrorKind::Other, text: text.to_string() })
}

fn s(text: &str) -> String {
    text.to_string()
}

fn look(path: &str) -> Request {
    Request::Exists { path: path.to_string() }
}

fn delete(path: &str) -> Request {
    Request::DeleteSubvolume { path: path.to_string() }
}

fn mounts(content: &'static str) -> impl Fn(&Request) -> Reply {
    move |req: &Request| match req {
        Request::ReadText { path } if path == "/proc/mounts" => Reply::Text(content.to_string()),
        _ => plain(req),
    }
}

#[test]
fn aux_tmp_takes_the_other_place() {
    assert_eq!(get_aux_tmp(s("deploy"), false), "deploy-aux");
    assert_eq!(get_aux_tmp(s("deploy-aux"), false), "deploy");
    assert_eq!(get_aux_tmp(s("deploy-secondary"), false), "deploy");
    assert_eq!(get_aux_tmp(s("deploy-aux-secondary"), false), "deploy-aux");
    assert_eq!(get_aux_tmp(s("deploy"), true), "deploy-secondary");
    assert_eq!(get_aux_tmp(s("deploy-aux"), true), "deploy-aux-secondary");
    assert_eq!(get_aux_tmp(s("deploy-secondary"), true), "deploy-aux-secondary");
    assert_eq!(get_aux_tmp(s("deploy-aux-secondary"), true), "deploy-secondary");
}

#[test]
fn aux_tmp_twice_is_the_same() {
    for (name, secondary) in [
        ("deploy", false),
        ("deploy-aux", false),
        ("deploy-secondary", true),
        ("deploy-aux-secondary", true),
    ] {
        assert_eq!(get_aux_tmp(get_aux_tmp(s(name), secondary), secondary), name);
    }
}

#[test]
fn aux_tmp_of_other_names() {
    assert_eq!(get_aux_tmp(s("x-deploy-y-deploy"), false), "x-deploy-aux-y-deploy-aux");
    assert_eq!(get_aux_tmp(s("other"), false), "other");
    assert_eq!(get_aux_tmp(s("other"), true), "other");
}

#[test]
fn recovery_aux_tmp_takes_the_other_place() {
    assert_eq!(get_recovery_aux_tmp("recovery-deploy"), "recovery-deploy-aux");
    assert_eq!(get_recovery_aux_tmp("recovery-deploy-aux"), "recovery-deploy");
    assert_eq!(get_recovery_aux_tmp("my-recovery-deploy"), "my-recovery-deploy-aux");
}

#[test]
fn running_deployment_is_read_from_the_root_mount() {
    let cases = [
        ("/dev/sda1 / btrfs rw,subvol=/@.snapshots_linux/rootfs/snapshot-deploy 0 0\n", "deploy"),
        ("/dev/sda1 / btrfs rw,subvol=/snapshot-deploy-aux 0 0\n", "deploy-aux"),
        ("/dev/sda1 / btrfs rw,subvol=/snapshot-deploy-secondary 0 0\n", "deploy-secondary"),
        ("x / btrfs rw,subvol=/snapshot-deploy-aux-secondary\n", "deploy-aux-secondary"),
        ("/dev/sda1 /home btrfs rw,subvol=/snapshot-deploy-aux 0 0\n", "deploy"),
        ("", "deploy"),
    ];
    for (content, name) in cases {
        let (end, asked) = drive(pacman(), |h| get_tmp(h), mounts(content));
        assert_eq!(end, Ok(s(name)));
        assert_eq!(asked, vec![Request::ReadText { path: s("/proc/mounts") }]);
    }
}

#[test]
fn running_deployment_must_be_readable() {
    let (end, _) = drive(pacman(), |h| get_tmp(h), |_| broken("no"));
    assert_eq!(end, Err(Halt::Panicked));
}

#[test]
fn print_tmp_knows_recovery_deployments() {
    let cases = [
        ("a / btrfs x=/snapshot-recovery-deploy-aux\n", "recovery-deploy-aux"),
        ("a / btrfs x=/snapshot-recovery-deploy\n", "recovery-deploy"),
        ("a / btrfs x=/snapshot-deploy-aux-secondary\n", "deploy-aux-secondary"),
        ("a / btrfs x=/snapshot-deploy-secondary\n", "deploy-secondary"),
        ("a / btrfs x=/snapshot-deploy-aux\n", "deploy-aux"),
        ("a / btrfs x=/snapshot-deploy\n", "deploy"),
    ];
    for (content, name) in cases {
        let (end, _) = drive(pacman(), |h| print_tmp(h), mounts(content));
        assert_eq!(end, Ok(s(name)));
    }
}

#[test]
fn recovery_tmp_is_noted_in_the_base_snapshot() {
    let file = "/.snapshots/rootfs/snapshot-0/usr/share/ash/rec-tmp";
    let (end, asked) = drive(pacman(), |h| get_recovery_tmp(h), plain);
    assert_eq!(end, Ok(s("recovery-deploy")));
    assert_eq!(asked, vec![Request::IsFile { path: s(file) }]);
    let (end, _) = drive(pacman(), |h| get_recovery_tmp(h), |req| match req {
        Request::IsFile { path } if path == file => Reply::Flag(true),
        Request::ReadText { path } if path == file => Reply::Text(s(" recovery-deploy-aux\n")),
        _ => plain(req),
    });
    assert_eq!(end, Ok(s("recovery-deploy-aux")));
}

#[test]
fn current_snapshot_is_trimmed_at_the_end() {
    let (end, asked) =
        drive(pacman(), |h| get_current_snapshot(h), |_| Reply::Text(s(" 12 \n\u{a0}")));
    assert_eq!(end, Ok(s(" 12")));
    assert_eq!(asked, vec![Request::ReadText { path: s("/usr/share/ash/snap") }]);
}

#[test]
fn next_snapshot_is_that_of_the_other_deployment() {
    let other = "/.snapshots/rootfs/snapshot-deploy-aux/usr/share/ash/snap";
    let (end, asked) = drive(pacman(), |h| get_next_snapshot(h), |req| match req {
        Request::ReadLines { path } if path == "/.snapshots/ash/deploy-tmp" => {
            let unread = Error { kind: ErrorKind::Other, text: s("not text") };
            Reply::Listing(vec![s("deploy"), s("deploy-aux")], Some(unread))
        }
        Request::IsFile { path } if path == other => Reply::Flag(true),
        Request::ReadText { path } if path == other => Reply::Text(s(" 5 \n")),
        _ => plain(req),
    });
    assert_eq!(end, Ok(s("5")));
    assert_eq!(asked.len(), 4);
}

#[test]
fn line_that_is_needed_must_be_readable() {
    let (end, _) = drive(pacman(), |h| get_next_snapshot(h), |req| match req {
        Request::ReadLines { .. } => Reply::Listing(
            vec![s("deploy")],
            Some(Error { kind: ErrorKind::Other, text: s("not text") }),
        ),
        _ => plain(req),
    });
    assert_eq!(end, Err(Halt::Panicked));
}

#[test]
fn next_snapshot_may_be_missing() {
    let (end, asked) = drive(pacman(), |h| get_next_snapshot(h), plain);
    assert_eq!(end, Ok(String::new()));
    assert_eq!(
        asked[2],
        Request::IsFile { path: s("/.snapshots/rootfs/snapshot-/usr/share/ash/snap") }
    );
}

#[test]
fn partition_is_found_by_its_identifier() {
    let (end, asked) = drive(pacman(), |h| get_part(h), |req| match req {
        Request::ReadText { .. } => Reply::Text(s("1234-ABCD\n")),
        Request::DevicePath { .. } => Reply::Text(s("/dev/sda2")),
        _ => plain(req),
    });
    assert_eq!(end, Ok(s("/dev/sda2")));
    assert_eq!(asked[0], Request::ReadText { path: s("/.snapshots/ash/part") });
    assert_eq!(asked[1], Request::DevicePath { uuid: s("1234-ABCD") });
    let (end, _) = drive(pacman(), |h| get_part(h), |req| match req {
        Request::DevicePath { .. } => broken("no such device"),
        _ => plain(req),
    });
    assert_eq!(end, Err(Halt::Panicked));
}

#[test]
fn tmp_delete_deletes_what_is_not_running() {
    let (end, asked) = drive(pacman(), |h| tmp_delete(h, false), |req| match req {
        Request::ReadText { .. } => Reply::Text(s("x / btrfs snapshot-deploy-aux\n")),
        Request::Exists { .. } => Reply::Flag(true),
        _ => plain(req),
    });
    assert_eq!(end, Ok(()));
    assert_eq!(
        asked[1..],
        [
            look("/.snapshots/rootfs/snapshot-deploy"),
            delete("/.snapshots/boot/boot-deploy"),
            delete("/.snapshots/etc/etc-deploy"),
            delete("/.snapshots/var/var-deploy"),
            delete("/.snapshots/rootfs/snapshot-deploy"),
        ]
    );
}

#[test]
fn live_unlock_opens_a_shell_between_mounts() {
    let (end, asked) = drive(pacman(), |h| live_unlock(h), plain);
    assert_eq!(end, Ok(()));
    let shells: Vec<&Request> =
        asked.iter().filter(|r| matches!(r, Request::Run { .. })).collect();
    assert_eq!(
        shells,
        vec![&Request::Run {
            program: s("chroot"),
            args: vec![s("/.snapshots/rootfs/snapshot-deploy")]
        }]
    );
    let first = asked.iter().position(|r| matches!(r, Request::Mount { .. })).unwrap();
    let last = asked.iter().rposition(|r| matches!(r, Request::Unmount { .. })).unwrap();
    let shell_at = asked.iter().position(|r| matches!(r, Request::Run { .. })).unwrap();
    assert!(first < shell_at && shell_at < last);
}

#[test]
fn root_entry_is_made_writable() {
    let table = "a /snap,ro\nUUID=1 / btrfs subvol=/rootfs/snapshot-deploy-aux,compress,ro 0 0\nb ,ro";
    assert_eq!(
        make_root_writable(table, "deploy-aux"),
        Some(s("a /snap,ro\nUUID=1 / btrfs subvol=/rootfs/snapshot-deploy-aux,compress 0 0\nb ,ro"))
    );
    assert_eq!(make_root_writable(table, "recovery"), None);
    assert_eq!(make_root_writable("snapshot-deploy rw", "deploy"), None);
}

#[test]
fn table_is_brought_over_to_another_deployment() {
    let table = "subvol=@.snapshots_linux/rootfs/snapshot-deploy-aux\n\
                 subvol=@.snapshots_linux/boot/boot-deploy-aux\n\
                 subvol=@.snapshots_linux/etc/etc-deploy-aux\n\
                 subvol=@.snapshots_linux/var/var-deploy-aux\n";
    assert_eq!(
        rename_table(table, "recovery-deploy"),
        "subvol=@.snapshots_linux/rootfs/snapshot-recovery-deploy\n\
         subvol=@.snapshots_linux/boot/boot-recovery-deploy\n\
         subvol=@.snapshots_linux/etc/etc-recovery-deploy\n\
         subvol=@.snapshots_linux/var/var-recovery-deploy\n"
    );
    assert_eq!(
        rename_table("@.snapshots_linux/etc/etc-deploy-secondary", "n"),
        "@.snapshots_linux/etc/etc-n"
    );
    assert_eq!(
        rename_table("@.snapshots_linux/etc/etc-deploy-aux-secondary", "n"),
        "@.snapshots_linux/etc/etc-n"
    );
    assert_eq!(
        rename_table("@.snapshots_linux/etc/etc-deploy", "n"),
        "@.snapshots_linux/etc/etc-n"
    );
}
