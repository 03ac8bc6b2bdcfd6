use ash::{
    Build, Entry, Error, ErrorKind, ExitStatus, Halt, Host, LocalTime, Profile, Reply, Request,
};
use ash::exchange::stamp;
use ash::system::read_header_date;
use ash::{
    check_update, efi_boot_order, export, get_import_snapshot_name, import, import_base,
    list_subvolumes, switch_to_windows, sync_time, yes_no,
};

/// Runs an operation to its end; `answer` replies to each request.
fn drive<T>(
    build: Build,
    op: impl Fn(&mut Host) -> Result<T, Halt>,
    answer: impl Fn(&Request) -> Reply,
) -> (Result<T, Halt>, Vec<Request>) {
    let mut replies: Vec<Reply> = Vec::new();
    let mut asked: Vec<Request> = Vec::new();
    loop {
        let mut host = Host::new(build, replies.clone());
        match op(&mut host) {
            Err(Halt::Pending(req)) => {
                replies.push(answer(&req));
                asked.push(req);
            }
            end => {
                assert_eq!(host.asked(), &asked);
                return (end, asked);
            }
        }
    }
}

fn pacman() -> Build {
    Build { pacman: true, lock: false }
}

/// A reply that fits: nothing is there, and everything works.
fn plain(req: &Request) -> Reply {
    match req {
        Request::Exists { .. }
        | Request::IsFile { .. }
        | Request::IsSymlink { .. }
        | Request::IsDir { .. }
        | Request::EnvSet { .. }
        | Request::Interrupted
        | Request::AurEnabled { .. }
        | Request::ServiceEnabled { .. } => Reply::Flag(false),
        Request::ReadText { .. }
        | Request::PkgQuery { .. }
        | Request::SwitchTmp { .. }
        | Request::DistroId
        | Request::ParentOf { .. }
        | Request::Fetch { .. }
        | Request::DevicePath { .. } => Reply::Text(String::new()),
        Request::ReadLine => Reply::Text("y".to_string()),
        Request::ListDir { .. } | Request::ReadLines { .. } => Reply::Listing(vec![], None),
        Request::WalkTop { .. } => Reply::Entries(vec![], None),
        Request::Run { .. } | Request::RunQuiet { .. } => {
            Reply::Status(ExitStatus { code: Some(0) })
        }
        Request::MountPoints
        | Request::PkgList { .. }
        | Request::NoDepPkgList { .. }
        | Request::ChildrenOf { .. }
        | Request::OrderOf { .. } => Reply::Texts(vec![]),
        Request::LoadTree => Reply::Tree(7),
        Request::ReadProfile { .. } => Reply::Profile(Profile::empty()),
        Request::LocalTime => Reply::Time(LocalTime {
            year: 2024,
            month: 3,
            day: 9,
            hour: 7,
            minute: 5,
            second: 0,
        }),
        _ => Reply::Done,
    }
}

fn broken(text: &str) -> Reply {
    Reply::Failed(Error { kind: ErrorKind::Other, text: text.to_string() })
}

fn s(text: &str) -> String {
    text.to_string()
}

fn failed(kind: ErrorKind, text: &str) -> Halt {
    Halt::Failed(Error { kind, text: text.to_string() })
}

fn look(path: &str) -> Request {
    Request::Exists { path: path.to_string() }
}

fn delete(path: &str) -> Request {
    Request::DeleteSubvolume { path: path.to_string() }
}

fn snap(from: &str, to: &str, read_only: bool) -> Request {
    Request::SnapshotSubvolume { from: from.to_string(), to: to.to_string(), read_only }
}

fn print(text: &str) -> Request {
    Request::Print { text: text.to_string() }
}

fn eprint(text: &str) -> Request {
    Request::Eprint { text: text.to_string() }
}

fn shell(line: &str) -> Request {
    Request::Run { program: s("sh"), args: vec![s("-c"), line.to_string()] }
}

fn moment(year: i32, month: u32, day: u32) -> LocalTime {
    LocalTime { year, month, day, hour: 23, minute: 59, second: 8 }
}

#[test]
fn moments_become_digits() {
    assert_eq!(stamp(moment(2024, 2, 29)), Some(s("20240229-235908")));
    assert_eq!(stamp(moment(33, 12, 1)), Some(s("00331201-235908")));
    assert_eq!(stamp(moment(12345, 1, 1)), Some(s("+123450101-235908")));
    assert_eq!(stamp(moment(-1, 1, 1)), Some(s("-00010101-235908")));
    assert_eq!(stamp(moment(2023, 2, 29)), None);
    assert_eq!(stamp(moment(1900, 2, 29)), None);
    assert_eq!(stamp(moment(2000, 2, 29)), Some(s("20000229-235908")));
    assert_eq!(stamp(moment(2023, 4, 31)), None);
    assert_eq!(stamp(moment(2023, 13, 1)), None);
    assert_eq!(stamp(moment(2023, 0, 1)), None);
    assert_eq!(stamp(moment(2023, 1, 0)), None);
    assert_eq!(stamp(moment(262142, 12, 31)).is_some(), true);
    assert_eq!(stamp(moment(262143, 1, 1)), None);
    assert_eq!(stamp(moment(-262143, 1, 1)).is_some(), true);
    assert_eq!(stamp(moment(-262144, 1, 1)), None);
    assert_eq!(stamp(LocalTime { second: 60, ..moment(2023, 1, 1) }), None);
    assert_eq!(stamp(LocalTime { hour: 24, ..moment(2023, 1, 1) }), None);
    assert_eq!(stamp(LocalTime { minute: 60, ..moment(2023, 1, 1) }), None);
}

#[test]
fn snapshot_is_sent_to_a_file() {
    let (end, asked) = drive(pacman(), |h| export(h, "4", "/mnt"), plain);
    assert_eq!(end, Ok(()));
    assert_eq!(
        asked,
        vec![
            Request::LocalTime,
            shell(
                "sudo btrfs send /.snapshots/rootfs/snapshot-4 | zstd -o /mnt/snapshot-4.20240309-070500.zst"
            ),
        ]
    );
    let (end, _) = drive(pacman(), |h| export(h, "4", "/mnt"), |_| Reply::Time(moment(1, 1, 40)));
    assert_eq!(end, Err(Halt::Misfit));
    let (end, _) = drive(pacman(), |h| export(h, "4", "/mnt"), |_| Reply::Done);
    assert_eq!(end, Err(Halt::Misfit));
}

fn entry(path: &str, is_dir: bool) -> Entry {
    Entry { path: s(path), is_dir }
}

#[test]
fn received_snapshot_is_found() {
    let bad = || Some(Error { kind: ErrorKind::Other, text: s("x") });
    let found = |list: Vec<(&'static str, bool)>, broken_off: bool| {
        drive(
            pacman(),
            |h| get_import_snapshot_name(h, "/t"),
            move |_| {
                Reply::Entries(
                    list.iter().map(|(p, d)| entry(p, *d)).collect(),
                    if broken_off { bad() } else { None },
                )
            },
        )
        .0
    };
    assert_eq!(
        found(vec![("/t", true), ("/t/snapshot-1", false), ("/t/snapshot-2/", true)], false),
        Ok(Some(s("snapshot-2")))
    );
    assert_eq!(found(vec![("/t", true)], false), Ok(None));
    assert_eq!(found(vec![("/t", true)], true), Err(Halt::Panicked));
    assert_eq!(found(vec![("/t/snapshot-2", true)], true), Ok(Some(s("snapshot-2"))));
    assert_eq!(found(vec![("/snapshot-x/..", true)], false), Err(Halt::Panicked));
}

fn for_import(req: &Request) -> Reply {
    match req {
        Request::IsFile { path } => Reply::Flag(path == "/f"),
        Request::WalkTop { .. } => {
            Reply::Entries(vec![entry("/t", true), entry("/t/snapshot-9", true)], None)
        }
        Request::Exists { path } => Reply::Flag(path.ends_with("/usr/sbin/ash")),
        _ => plain(req),
    }
}

#[test]
fn snapshot_is_brought_in() {
    let (end, asked) = drive(pacman(), |h| import(h, 5, "/f", "", "/t"), for_import);
    assert_eq!(end, Ok(()));
    assert_eq!(
        asked[..10],
        [
            look("/.snapshots/rootfs/snapshot-chr5"),
            Request::IsFile { path: s("/f") },
            Request::WatchInterrupts,
            print("Receiving a snapshot, please wait..."),
            shell("btrfs receive -f /f /t"),
            Request::WalkTop { path: s("/t") },
            snap("/t/snapshot-9", "/.snapshots/rootfs/snapshot-chr5", false),
            Request::Interrupted,
            delete("/t/snapshot-9"),
            Request::Run {
                program: s("cp"),
                args: vec![
                    s("-r"),
                    s("--reflink=auto"),
                    s("/.snapshots/rootfs/snapshot-0/etc/fstab"),
                    s("/.snapshots/rootfs/snapshot-chr5/etc/fstab"),
                ],
            },
        ]
    );
    assert!(asked.contains(&snap("/.snapshots/etc/etc-0", "/.snapshots/etc/etc-chr5", false)));
    assert!(asked.contains(&Request::AddToBase { tree: 7, node: 5 }));
    assert_eq!(
        asked.last(),
        Some(&Request::WriteText {
            path: s("/.snapshots/ash/snapshots/5-desc"),
            text: s("imported snapshot"),
        })
    );
}

#[test]
fn import_may_fail() {
    let (end, _) = drive(pacman(), |h| import(h, 5, "/g", "", "/t"), for_import);
    assert_eq!(end, Err(failed(ErrorKind::NotFound, "The snapshot /g doesn't exist.")));
    let (end, _) = drive(pacman(), |h| import(h, 5, "/f", "", "/t"), |req| match req {
        Request::Exists { .. } => Reply::Flag(false),
        _ => for_import(req),
    });
    assert_eq!(end, Err(failed(ErrorKind::NotFound, "/usr/sbin/ash doesn't exist.")));
    let (end, asked) = drive(pacman(), |h| import(h, 5, "/f", "", "/t"), |req| match req {
        Request::Interrupted => Reply::Flag(true),
        Request::Exists { path } => Reply::Flag(path == "/t/snapshot-9"),
        _ => for_import(req),
    });
    assert_eq!(end, Err(Halt::Exited(1)));
    assert_eq!(asked.last(), Some(&delete("/t/snapshot-9")));
    let (end, _) = drive(pacman(), |h| import(h, 5, "/f", "", "/t"), |req| match req {
        Request::WalkTop { .. } => Reply::Entries(vec![], None),
        _ => for_import(req),
    });
    assert_eq!(end, Err(Halt::Panicked));
    let (end, _) = drive(pacman(), |h| import(h, 5, "/f", "", "/t"), |req| match req {
        Request::WatchInterrupts => broken("twice"),
        _ => for_import(req),
    });
    assert_eq!(end, Err(Halt::Panicked));
    let (end, _) = drive(pacman(), |h| import(h, 5, "/f", "", "/t"), |_| Reply::Flag(true));
    assert_eq!(
        end,
        Err(failed(
            ErrorKind::Unsupported,
            "Snapshot 5 appears to be in use. If you're certain it's not in use, clear lock with 'ash unlock -s 5'."
        ))
    );
}

#[test]
fn base_is_brought_in_after_a_yes() {
    let (end, asked) = drive(pacman(), |h| import_base(h, "/f", "/t"), for_import);
    assert_eq!(end, Ok(s("snapshot-9")));
    assert_eq!(
        asked[2],
        print("This process will change your base snapshot. Are you certain that you wish to proceed? (y/n)")
    );
    let at = asked.iter().position(|r| r == &delete("/t/snapshot-9")).unwrap();
    assert_eq!(asked[at + 1], Request::CleanCache { snapshot: s("0") });
    let (end, _) = drive(pacman(), |h| import_base(h, "/f", "/t"), |req| match req {
        Request::ReadLine => Reply::Text(s("n")),
        _ => for_import(req),
    });
    assert_eq!(end, Err(failed(ErrorKind::Interrupted, "Aborted.")));
}

#[test]
fn clock_is_set_by_a_header() {
    let header = "HTTP/2 301 \r\nserver: x\r\ndate: Sat, 09 Mar 2024 07:05:00 GMT\r\n";
    assert_eq!(read_header_date(header), Some(s("09 Mar 2024 07:05:00")));
    assert_eq!(read_header_date("Date: Sat, 09 Mar 2024 07:05:00 GMT"), None);
    assert_eq!(read_header_date("date: Sat, 09 Mar 2024"), None);
    let (end, asked) = drive(pacman(), |h| sync_time(h), |req| match req {
        Request::Fetch { .. } => Reply::Text(s(header)),
        _ => plain(req),
    });
    assert_eq!(end, Ok(()));
    assert_eq!(
        asked,
        vec![
            Request::Fetch { url: s("https://google.com") },
            Request::RunQuiet {
                program: s("date"),
                args: vec![s("-s"), s("\"(09 Mar 2024 07:05:00)Z\"")],
            },
        ]
    );
    assert_eq!(drive(pacman(), |h| sync_time(h), plain).0, Err(Halt::Panicked));
}

#[test]
fn last_update_is_told() {
    let told = |content: &'static str| {
        drive(pacman(), |h| check_update(h), move |req| match req {
            Request::ReadLines { .. } => {
                Reply::Listing(content.lines().map(s).collect(), None)
            }
            _ => plain(req),
        })
    };
    let (end, asked) = told("1\nMonday\n");
    assert_eq!(end, Ok(()));
    assert_eq!(
        asked,
        vec![
            Request::ReadLines { path: s("/.snapshots/ash/upstate") },
            eprint("Last update on Monday failed."),
        ]
    );
    let (_, asked) = told("0\nMonday");
    assert_eq!(asked[1..], [print("Last update on Monday completed successfully.")]);
    let (_, asked) = told("10\nMonday");
    assert_eq!(asked.len(), 3);
    assert_eq!(told("0").0, Err(Halt::Panicked));
    assert_eq!(told("").0, Err(Halt::Panicked));
    let unread = |lines: Vec<String>| {
        drive(pacman(), |h| check_update(h), move |req| match req {
            Request::ReadLines { .. } => Reply::Listing(
                lines.clone(),
                Some(Error { kind: ErrorKind::Other, text: s("not text") }),
            ),
            _ => plain(req),
        })
        .0
    };
    assert_eq!(unread(vec![s("0"), s("Monday")]), Ok(()));
    assert_eq!(unread(vec![s("0")]), Err(failed(ErrorKind::Other, "not text")));
    let (end, _) = drive(pacman(), |h| check_update(h), |_| broken("gone"));
    assert_eq!(end, Err(failed(ErrorKind::Other, "gone")));
}

#[test]
fn other_programs_are_run() {
    let (_, asked) = drive(pacman(), |h| efi_boot_order(h), plain);
    assert_eq!(asked, vec![print("This feature is currently under construction.")]);
    let (end, asked) = drive(pacman(), |h| list_subvolumes(h), plain);
    assert_eq!(end, Ok(()));
    assert_eq!(asked, vec![shell("btrfs sub list / | grep -i _linux | sort -f -k 9")]);
    assert_eq!(drive(pacman(), |h| list_subvolumes(h), |_| broken("x")).0, Err(Halt::Panicked));
    let (end, asked) = drive(pacman(), |h| switch_to_windows(h), |_| {
        Reply::Status(ExitStatus { code: Some(5) })
    });
    assert_eq!(end, Ok(ExitStatus { code: Some(5) }));
    assert_eq!(
        asked,
        vec![Request::Run {
            program: s("efibootmgr"),
            args: vec![s("-c"), s("-L"), s("'Windows' -l '\\EFI\\BOOT\\BOOTX64.efi'")],
        }]
    );
}

#[test]
fn questions_are_repeated_until_settled() {
    let lines = ["maybe\n", "\n", " YES \n"];
    let mut replies: Vec<Reply> = Vec::new();
    let mut asked: Vec<Request> = Vec::new();
    let mut next = 0;
    let end = loop {
        let mut host = Host::new(pacman(), replies.clone());
        match yes_no(&mut host, "Sure?") {
            Err(Halt::Pending(req)) => {
                replies.push(match req {
                    Request::ReadLine => {
                        next += 1;
                        Reply::Text(s(lines[next - 1]))
                    }
                    _ => Reply::Done,
                });
                asked.push(req);
            }
            end => break end,
        }
    };
    assert_eq!(end, Ok(true));
    let round = [print("Sure? (y/n)"), Request::ReadLine, eprint("Invalid choice!")];
    assert_eq!(asked.len(), 8);
    assert_eq!(asked[..3], round);
    assert_eq!(asked[3..6], round);
    for (line, said) in [("y", true), ("Yes", true), ("N\n", false), ("no", false)] {
        let (end, _) = drive(pacman(), |h| yes_no(h, "Sure?"), |req| match req {
            Request::ReadLine => Reply::Text(s(line)),
            _ => plain(req),
        });
        assert_eq!(end, Ok(said));
    }
    let (end, _) = drive(pacman(), |h| yes_no(h, "Sure?"), |req| match req {
        Request::ReadLine => broken("closed"),
        _ => plain(req),
    });
    assert_eq!(end, Err(Halt::Panicked));
}

#[test]
fn runs_repeat_what_was_asked() {
    let mut replies: Vec<Reply> = Vec::new();
    let mut last: Option<String> = None;
    for _ in 0..6 {
        let mut host = Host::new(pacman(), replies.clone());
        match import(&mut host, 5, "/f", "", "/t") {
            Err(Halt::Pending(req)) => {
                assert_eq!(host.asked().len(), replies.len());
                if let Some(before) = &last {
                    assert_eq!(before, &format!("{:?}", host.asked().last().unwrap()));
                }
                last = Some(format!("{:?}", req));
                replies.push(for_import(&req));
            }
            end => panic!("{:?}", end),
        }
    }
}

#[test]
fn wrong_replies_do_not_fit() {
    let (end, _) = drive(pacman(), |h| import_base(h, "/f", "/t"), |_| Reply::Text(s("x")));
    assert_eq!(end, Err(Halt::Misfit));
}
