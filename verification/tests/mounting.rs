use ash::{
    Build, Error, ErrorKind, ExitStatus, Halt, Host, LocalTime, MountMode, Profile, Reply, Request,
};
use ash::{ash_mounts, ash_umounts, is_efi, is_mounted};

/// Runs an operation to its end; `answer` replies to each request.
fn drive<T>(
    build: Build,
    op: impl Fn(&mut Host) -> Result<T, Halt>,
    answer: impl Fn(&Request) -> Reply,
) -> (Result<T, Halt>, Vec<Request>) {
    let mut replies: Vec<Reply> = Vec::new();
    let mut asked: Vec<Request> = Vec::new();
    loop {
        let mut host = Host::new(build, replies.clone());
        match op(&mut host) {
            Err(Halt::Pending(req)) => {
                replies.push(answer(&req));
                asked.push(req);
            }
            end => {
                assert_eq!(host.asked(), &asked);
                return (end, asked);
            }
        }
    }
}

fn pacman() -> Build {
    Build { pacman: true, lock: false }
}

/// A reply that fits: nothing is there, and everything works.
fn plain(req: &Request) -> Reply {
    match req {
        Request::Exists { .. }
        | Request::IsFile { .. }
        | Request::IsSymlink { .. }
        | Request::IsDir { .. }
        | Request::EnvSet { .. }
        | Request::Interrupted
        | Request::AurEnabled { .. }
        | Request::ServiceEnabled { .. } => Reply::Flag(false),
        Request::ReadText { .. }
        | Request::PkgQuery { .. }
        | Request::SwitchTmp { .. }
        | Request::DistroId
        | Request::ParentOf { .. }
        | Request::Fetch { .. }
        | Request::DevicePath { .. } => Reply::Text(String::new()),
        Request::ReadLine => Reply::Text("y".to_string()),
        Request::ListDir { .. } | Request::ReadLines { .. } => Reply::Listing(vec![], None),
        Request::WalkTop { .. } => Reply::Entries(vec![], None),
        Request::Run { .. } | Request::RunQuiet { .. } => {
            Reply::Status(ExitStatus { code: Some(0) })
        }
        Request::MountPoints
        | Request::PkgList { .. }
        | Request::NoDepPkgList { .. }
        | Request::ChildrenOf { .. }
        | Request::OrderOf { .. } => Reply::Texts(vec![]),
        Request::LoadTree => Reply::Tree(7),
        Request::ReadProfile { .. } => Reply::Profile(Profile::empty()),
        Request::LocalTime => Reply::Time(LocalTime {
            year: 2024,
            month: 3,
            day: 9,
            hour: 7,
            minute: 5,
            second: 0,
        }),
        _ => Reply::Done,
    }
}

fn broken(text: &str) -> Reply {
    Reply::Failed(Error { kind: ErrorKind::Other, text: text.to_string() })
}

fn s(text: &str) -> String {
    text.to_string()
}

fn failed(kind: ErrorKind, text: &str) -> Halt {
    Halt::Failed(Error { kind, text: text.to_string() })
}

fn look(path: &str) -> Request {
    Request::Exists { path: path.to_string() }
}

/// Whether a request looks for this path.
fn looks_for(req: &Request, path: &str) -> bool {
    match req {
        Request::Exists { path: p } => p == path,
        _ => false,
    }
}

const EFI: &str = "/sys/firmware/efi";

fn with_efi(req: &Request) -> Reply {
    if looks_for(req, EFI) { Reply::Flag(true) } else { plain(req) }
}

fn targets(asked: &[Request]) -> Vec<String> {
    asked
        .iter()
        .filter_map(|r| match r {
            Request::Mount { target, .. } => Some(target.clone()),
            Request::Unmount { target, .. } => Some(target.clone()),
            _ => None,
        })
        .collect()
}

#[test]
fn copy_is_mounted_without_etc_and_var() {
    let (end, asked) = drive(pacman(), |h| ash_mounts(h, "5", "chr"), plain);
    assert_eq!(end, Ok(()));
    let root = "/.snapshots/rootfs/snapshot-chr5";
    let expected: Vec<String> = ["", "/dev", "/home", "/proc", "/root", "/run", "/sys", "/tmp",
        "/etc/resolv.conf"]
        .iter()
        .map(|rest| format!("{}{}", root, rest))
        .collect();
    assert_eq!(targets(&asked), expected);
}

#[test]
fn deployment_is_mounted_in_full() {
    let (_, asked) = drive(pacman(), |h| ash_mounts(h, "deploy", ""), with_efi);
    let root = "/.snapshots/rootfs/snapshot-deploy";
    let expected: Vec<String> = ["", "/dev", "/etc", "/home", "/proc", "/root", "/run", "/sys",
        "/tmp", "/var", "/sys/firmware/efi/efivars", "/etc/resolv.conf"]
        .iter()
        .map(|rest| format!("{}{}", root, rest))
        .collect();
    assert_eq!(targets(&asked), expected);
    assert_eq!(
        asked[4],
        Request::Mount {
            source: s("/proc"),
            target: format!("{}/proc", root),
            fstype: s("proc"),
            mode: MountMode::Hardened,
        }
    );
    assert_eq!(
        asked[8],
        Request::Mount {
            source: s("/tmp"),
            target: format!("{}/tmp", root),
            fstype: s("tmpfs"),
            mode: MountMode::RecursiveSlave,
        }
    );
    assert_eq!(asked[10], look(EFI));
}

#[test]
fn unmounts_are_mounts_in_reverse() {
    for (id, chr) in [("5", "chr"), ("deploy-aux", "")] {
        for efi in [false, true] {
            let reply = |req: &Request| if efi { with_efi(req) } else { plain(req) };
            let (_, up) = drive(pacman(), |h| ash_mounts(h, id, chr), reply);
            let (_, down) = drive(pacman(), |h| ash_umounts(h, id, chr), reply);
            let mut expected = targets(&up);
            expected.reverse();
            assert_eq!(targets(&down), expected);
        }
    }
}

#[test]
fn unmounting_detaches_most() {
    let (_, down) = drive(pacman(), |h| ash_umounts(h, "1", ""), with_efi);
    let flags: Vec<bool> = down
        .iter()
        .filter_map(|r| match r {
            Request::Unmount { detach, .. } => Some(*detach),
            _ => None,
        })
        .collect();
    assert_eq!(
        flags,
        vec![false, false, false, true, true, true, true, true, true, true, true, true]
    );
}

#[test]
fn failed_mount_ends_the_operation() {
    let (end, asked) = drive(pacman(), |h| ash_mounts(h, "1", ""), |req| match req {
        Request::Mount { source, .. } if source == "/home" => broken("EPERM"),
        _ => plain(req),
    });
    assert_eq!(end, Err(failed(ErrorKind::Other, "EPERM")));
    assert_eq!(asked.len(), 4);
}

#[test]
fn firmware_is_asked_for() {
    let (end, asked) = drive(pacman(), |h| is_efi(h), with_efi);
    assert_eq!(end, Ok(true));
    assert_eq!(asked, vec![look(EFI)]);
    let (end, _) = drive(pacman(), |h| is_efi(h), |_| broken("no"));
    assert_eq!(end, Err(Halt::Panicked));
}

#[test]
fn mount_points_are_compared_as_paths() {
    let points = |req: &Request| match req {
        Request::MountPoints => Reply::Texts(vec![s("/a/b/"), s("/c/./d"), s("e")]),
        _ => plain(req),
    };
    for (path, there) in
        [("/a/b", true), ("/a//b", true), ("/c/d/", true), ("/a", false), ("/e", false), ("e/.", true), ("./e", false)]
    {
        let (end, _) = drive(pacman(), |h| is_mounted(h, path), points);
        assert_eq!(end, Ok(there), "{}", path);
    }
}
