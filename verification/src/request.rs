//! What the core asks of its surroundings, and what it is told.

use vstd::prelude::*;
use crate::profile::{Profile, Table};
use crate::text::copied;

verus! {

/// How a mount is made.
#[derive(Clone, Copy, Debug, PartialEq, Eq, Structural)]
pub enum MountMode {
    /// A bind mount.
    Bind,
    /// A bind mount that receives events.
    Slave,
    /// A bind mount of a whole tree that receives events.
    RecursiveSlave,
    /// A mount without set-user-id programs, programs or devices.
    Hardened,
}

/// Kinds of errors.
#[derive(Clone, Copy, Debug, PartialEq, Eq, Structural)]
pub enum ErrorKind {
    NotFound,
    AlreadyExists,
    InvalidInput,
    Interrupted,
    Unsupported,
    Other,
}

/// An error: its kind, and the text that is shown for it.
#[derive(Debug, PartialEq, Eq)]
pub struct Error {
    pub kind: ErrorKind,
    pub text: String,
}

/// What an error says.
pub struct Fault {
    pub kind: ErrorKind,
    pub text: Seq<char>,
}

impl DeepView for Error {
    type V = Fault;

    open spec fn deep_view(&self) -> Fault {
        Fault { kind: self.kind, text: self.text@ }
    }
}

impl Clone for Error {
    fn clone(&self) -> (r: Self)
        ensures
            r.deep_view() == self.deep_view(),
    {
        Error { kind: self.kind, text: self.text.clone() }
    }
}

/// How a process ended: its exit code, unless a signal ended it.
#[derive(Clone, Copy, Debug, PartialEq, Eq, Structural)]
pub struct ExitStatus {
    pub code: Option<i32>,
}

impl DeepView for ExitStatus {
    type V = ExitStatus;

    open spec fn deep_view(&self) -> ExitStatus {
        *self
    }
}

/// A moment of local time.
#[derive(Clone, Copy, Debug, PartialEq, Eq, Structural)]
pub struct LocalTime {
    pub year: i32,
    pub month: u32,
    pub day: u32,
    pub hour: u32,
    pub minute: u32,
    pub second: u32,
}

impl DeepView for LocalTime {
    type V = LocalTime;

    open spec fn deep_view(&self) -> LocalTime {
        *self
    }
}

/// Something found in a directory.
#[derive(Debug, PartialEq, Eq)]
pub struct Entry {
    pub path: String,
    pub is_dir: bool,
}

/// What was found in a directory.
pub struct Found {
    pub path: Seq<char>,
    pub is_dir: bool,
}

impl DeepView for Entry {
    type V = Found;

    open spec fn deep_view(&self) -> Found {
        Found { path: self.path@, is_dir: self.is_dir }
    }
}

/// Something to be done, or to be found out, outside.
#[derive(Debug, PartialEq, Eq)]
pub enum Request {
    // Files and directories.
    /// Whether a path exists; may fail.
    Exists { path: String },
    /// Whether a path is a regular file.
    IsFile { path: String },
    /// Whether a path is a symbolic link.
    IsSymlink { path: String },
    /// Whether a path is a directory.
    IsDir { path: String },
    /// The text of a file.
    ReadText { path: String },
    /// The lines of a file.
    ReadLines { path: String },
    /// The paths of what a directory holds. One that is no text is given with a NUL character
    /// in it, and later requests name it so.
    ListDir { path: String },
    /// A directory and what it holds, one level deep.
    WalkTop { path: String },
    /// An empty file.
    CreateFile { path: String },
    /// Removes a file or a link.
    RemoveFile { path: String },
    /// Removes a directory with all that it holds.
    RemoveTree { path: String },
    /// Creates a directory and those above it.
    MakeDirs { path: String },
    /// Copies a file.
    CopyFile { from: String, to: String },
    /// Copies a directory with `cp -r --reflink=auto`, whatever the exit code.
    CopyTree { from: String, to: String },
    /// Writes a file anew, creating it where it is missing.
    WriteText { path: String, text: String },
    /// Writes anew a file that is there.
    RewriteText { path: String, text: String },
    /// Adds to a file, creating it where it is missing.
    AppendText { path: String, text: String },

    // Processes.
    /// Runs a program; its output goes to the terminal.
    Run { program: String, args: Vec<String> },
    /// Runs a program; its output is kept off the terminal.
    RunQuiet { program: String, args: Vec<String> },
    /// Whether an environment variable is set.
    EnvSet { name: String },

    // Mounts.
    /// Mounts `source` on `target`.
    Mount { source: String, target: String, fstype: String, mode: MountMode },
    /// Unmounts `target`, at once or when it is no longer busy.
    Unmount { target: String, detach: bool },
    /// Where something is mounted.
    MountPoints,

    // Subvolumes.
    /// An empty subvolume.
    CreateSubvolume { path: String },
    /// A snapshot of a subvolume.
    SnapshotSubvolume { from: String, to: String, read_only: bool },
    /// Deletes a subvolume.
    DeleteSubvolume { path: String },
    /// Makes a subvolume read-only or writable.
    SetReadOnly { path: String, read_only: bool },
    /// Makes a subvolume the one that is mounted by default.
    SetDefault { path: String },

    // Packages and services.
    /// The installed version of a package.
    PkgQuery { pkg: String },
    /// The packages of a snapshot.
    PkgList { snapshot: String, chr: String },
    /// The packages of a snapshot that no other one needs.
    NoDepPkgList { snapshot: String, chr: String },
    /// Prepares a snapshot and installs packages in it.
    InstallPackages { snapshot: String, pkgs: Vec<String>, noconfirm: bool },
    /// Installs packages in a prepared snapshot.
    InstallInChroot { snapshot: String, pkgs: Vec<String>, noconfirm: bool },
    /// Installs packages in the running deployment.
    InstallLive { snapshot: String, tmp: String, pkgs: Vec<String>, noconfirm: bool },
    /// Removes packages from a prepared snapshot.
    UninstallPackages { snapshot: String, pkgs: Vec<String>, noconfirm: bool },
    /// Removes packages inside a prepared snapshot.
    UninstallInChroot { snapshot: String, pkgs: Vec<String>, noconfirm: bool },
    /// Removes packages from the running deployment.
    UninstallLive { tmp: String, pkgs: Vec<String>, noconfirm: bool },
    /// Prepares a snapshot and upgrades it.
    UpgradePackages { snapshot: String, noconfirm: bool },
    /// Upgrades the running deployment.
    UpgradeLive { tmp: String, noconfirm: bool },
    /// Upgrades a snapshot without asking.
    AutoUpgrade { snapshot: String },
    /// Refreshes the package database of a prepared snapshot.
    RefreshPackages { snapshot: String },
    /// Copies the package cache into a prepared snapshot, or out of it.
    CopyCache { snapshot: String, into_chroot: bool },
    /// Empties the package cache of a prepared snapshot.
    CleanCache { snapshot: String },
    /// Installs a base system in an empty chroot.
    Bootstrap { snapshot: String },
    /// Brings configuration and profile over to a rebuilt snapshot.
    SystemConfig { snapshot: String, profile: Profile },
    /// Guards the system packages of a profile against removal.
    LockPackages { snapshot: String, profile: Profile },
    /// Repairs the package database of a snapshot.
    FixPackageDb { snapshot: String },
    /// Whether a snapshot may use the user repository.
    AurEnabled { snapshot: String },
    /// Shows how the packages of two snapshots differ.
    SnapshotDiff { first: String, second: String },
    /// Brings the packages of one snapshot over to another.
    SyncTrees { from: String, to: String, chr: String },
    /// Enables services.
    EnableServices { snapshot: String, services: Vec<String>, chr: String },
    /// Disables services.
    DisableServices { snapshot: String, services: Vec<String>, chr: String },
    /// Whether a service is enabled.
    ServiceEnabled { snapshot: String, service: String },
    /// Reads a profile.
    ReadProfile { path: String },
    /// Writes a profile, with a blank line between sections.
    WriteProfile { path: String, profile: Profile },
    /// The name of the distribution.
    DistroId,

    // Boot.
    /// Rewrites the boot loader entry.
    UpdateBoot { snapshot: String, secondary: bool },
    /// Switches to the other deployment and names it.
    SwitchTmp { secondary: bool, reset: bool },
    /// Switches to the other recovery deployment.
    SwitchRecoveryTmp,

    // The tree of snapshots.
    /// Loads the tree.
    LoadTree,
    /// All nodes under a node.
    ChildrenOf { tree: u64, name: String },
    /// A node and those under it, parents first.
    OrderOf { tree: u64, name: String },
    /// The parent of a node.
    ParentOf { tree: u64, name: String },
    /// Adds a node under another one.
    AddChild { tree: u64, parent: String, node: i32 },
    /// Adds a node beside another one.
    AddSibling { tree: u64, beside: String, node: i32 },
    /// Adds a tree of its own.
    AddToBase { tree: u64, node: i32 },
    /// Removes a node and those under it.
    RemoveNode { tree: u64, name: String },
    /// Saves the tree.
    SaveTree { tree: u64 },
    /// Shows the tree.
    PrintTree { tree: u64 },

    // The user, the clock and the network.
    /// A line on standard output.
    Print { text: String },
    /// A line on standard error.
    Eprint { text: String },
    /// A line that the user types.
    ReadLine,
    /// Begins to note interrupts in place of dying of them.
    WatchInterrupts,
    /// Whether an interrupt was noted.
    Interrupted,
    /// The local time.
    LocalTime,
    /// The header and body of a web page.
    Fetch { url: String },
    /// The device of a partition.
    DevicePath { uuid: String },
}

/// What a request says.
pub enum Req {
    // Files and directories.
    Exists { path: Seq<char> },
    IsFile { path: Seq<char> },
    IsSymlink { path: Seq<char> },
    IsDir { path: Seq<char> },
    ReadText { path: Seq<char> },
    ReadLines { path: Seq<char> },
    ListDir { path: Seq<char> },
    WalkTop { path: Seq<char> },
    CreateFile { path: Seq<char> },
    RemoveFile { path: Seq<char> },
    RemoveTree { path: Seq<char> },
    MakeDirs { path: Seq<char> },
    CopyFile { from: Seq<char>, to: Seq<char> },
    CopyTree { from: Seq<char>, to: Seq<char> },
    WriteText { path: Seq<char>, text: Seq<char> },
    RewriteText { path: Seq<char>, text: Seq<char> },
    AppendText { path: Seq<char>, text: Seq<char> },

    // Processes.
    Run { program: Seq<char>, args: Seq<Seq<char>> },
    RunQuiet { program: Seq<char>, args: Seq<Seq<char>> },
    EnvSet { name: Seq<char> },

    // Mounts.
    Mount { source: Seq<char>, target: Seq<char>, fstype: Seq<char>, mode: MountMode },
    Unmount { target: Seq<char>, detach: bool },
    MountPoints,

    // Subvolumes.
    CreateSubvolume { path: Seq<char> },
    SnapshotSubvolume { from: Seq<char>, to: Seq<char>, read_only: bool },
    DeleteSubvolume { path: Seq<char> },
    SetReadOnly { path: Seq<char>, read_only: bool },
    SetDefault { path: Seq<char> },

    // Packages and services.
    PkgQuery { pkg: Seq<char> },
    PkgList { snapshot: Seq<char>, chr: Seq<char> },
    NoDepPkgList { snapshot: Seq<char>, chr: Seq<char> },
    InstallPackages { snapshot: Seq<char>, pkgs: Seq<Seq<char>>, noconfirm: bool },
    InstallInChroot { snapshot: Seq<char>, pkgs: Seq<Seq<char>>, noconfirm: bool },
    InstallLive { snapshot: Seq<char>, tmp: Seq<char>, pkgs: Seq<Seq<char>>, noconfirm: bool },
    UninstallPackages { snapshot: Seq<char>, pkgs: Seq<Seq<char>>, noconfirm: bool },
    UninstallInChroot { snapshot: Seq<char>, pkgs: Seq<Seq<char>>, noconfirm: bool },
    UninstallLive { tmp: Seq<char>, pkgs: Seq<Seq<char>>, noconfirm: bool },
    UpgradePackages { snapshot: Seq<char>, noconfirm: bool },
    UpgradeLive { tmp: Seq<char>, noconfirm: bool },
    AutoUpgrade { snapshot: Seq<char> },
    RefreshPackages { snapshot: Seq<char> },
    CopyCache { snapshot: Seq<char>, into_chroot: bool },
    CleanCache { snapshot: Seq<char> },
    Bootstrap { snapshot: Seq<char> },
    SystemConfig { snapshot: Seq<char>, profile: Table },
    LockPackages { snapshot: Seq<char>, profile: Table },
    FixPackageDb { snapshot: Seq<char> },
    AurEnabled { snapshot: Seq<char> },
    SnapshotDiff { first: Seq<char>, second: Seq<char> },
    SyncTrees { from: Seq<char>, to: Seq<char>, chr: Seq<char> },
    EnableServices { snapshot: Seq<char>, services: Seq<Seq<char>>, chr: Seq<char> },
    DisableServices { snapshot: Seq<char>, services: Seq<Seq<char>>, chr: Seq<char> },
    ServiceEnabled { snapshot: Seq<char>, service: Seq<char> },
    ReadProfile { path: Seq<char> },
    WriteProfile { path: Seq<char>, profile: Table },
    DistroId,

    // Boot.
    UpdateBoot { snapshot: Seq<char>, secondary: bool },
    SwitchTmp { secondary: bool, reset: bool },
    SwitchRecoveryTmp,

    // The tree of snapshots.
    LoadTree,
    ChildrenOf { tree: u64, name: Seq<char> },
    OrderOf { tree: u64, name: Seq<char> },
    ParentOf { tree: u64, name: Seq<char> },
    AddChild { tree: u64, parent: Seq<char>, node: i32 },
    AddSibling { tree: u64, beside: Seq<char>, node: i32 },
    AddToBase { tree: u64, node: i32 },
    RemoveNode { tree: u64, name: Seq<char> },
    SaveTree { tree: u64 },
    PrintTree { tree: u64 },

    // The user, the clock and the network.
    Print { text: Seq<char> },
    Eprint { text: Seq<char> },
    ReadLine,
    WatchInterrupts,
    Interrupted,
    LocalTime,
    Fetch { url: Seq<char> },
    DevicePath { uuid: Seq<char> },
}

impl DeepView for Request {
    type V = Req;

    open spec fn deep_view(&self) -> Req {
        match self {
            Request::Exists { path } => Req::Exists { path: path@ },
            Request::IsFile { path } => Req::IsFile { path: path@ },
            Request::IsSymlink { path } => Req::IsSymlink { path: path@ },
            Request::IsDir { path } => Req::IsDir { path: path@ },
            Request::ReadText { path } => Req::ReadText { path: path@ },
            Request::ReadLines { path } => Req::ReadLines { path: path@ },
            Request::ListDir { path } => Req::ListDir { path: path@ },
            Request::WalkTop { path } => Req::WalkTop { path: path@ },
            Request::CreateFile { path } => Req::CreateFile { path: path@ },
            Request::RemoveFile { path } => Req::RemoveFile { path: path@ },
            Request::RemoveTree { path } => Req::RemoveTree { path: path@ },
            Request::MakeDirs { path } => Req::MakeDirs { path: path@ },
            Request::CopyFile { from, to } => Req::CopyFile { from: from@, to: to@ },
            Request::CopyTree { from, to } => Req::CopyTree { from: from@, to: to@ },
            Request::WriteText { path, text } => Req::WriteText { path: path@, text: text@ },
            Request::RewriteText { path, text } => Req::RewriteText { path: path@, text: text@ },
            Request::AppendText { path, text } => Req::AppendText { path: path@, text: text@ },
            Request::Run { program, args } => Req::Run { program: program@, args: args.deep_view() },
            Request::RunQuiet { program, args } => Req::RunQuiet { program: program@, args: args.deep_view() },
            Request::EnvSet { name } => Req::EnvSet { name: name@ },
            Request::Mount { source, target, fstype, mode } => Req::Mount { source: source@, target: target@, fstype: fstype@, mode: *mode },
            Request::Unmount { target, detach } => Req::Unmount { target: target@, detach: *detach },
            Request::MountPoints => Req::MountPoints,
            Request::CreateSubvolume { path } => Req::CreateSubvolume { path: path@ },
            Request::SnapshotSubvolume { from, to, read_only } => Req::SnapshotSubvolume { from: from@, to: to@, read_only: *read_only },
            Request::DeleteSubvolume { path } => Req::DeleteSubvolume { path: path@ },
            Request::SetReadOnly { path, read_only } => Req::SetReadOnly { path: path@, read_only: *read_only },
            Request::SetDefault { path } => Req::SetDefault { path: path@ },
            Request::PkgQuery { pkg } => Req::PkgQuery { pkg: pkg@ },
            Request::PkgList { snapshot, chr } => Req::PkgList { snapshot: snapshot@, chr: chr@ },
            Request::NoDepPkgList { snapshot, chr } => Req::NoDepPkgList { snapshot: snapshot@, chr: chr@ },
            Request::InstallPackages { snapshot, pkgs, noconfirm } => Req::InstallPackages { snapshot: snapshot@, pkgs: pkgs.deep_view(), noconfirm: *noconfirm },
            Request::InstallInChroot { snapshot, pkgs, noconfirm } => Req::InstallInChroot { snapshot: snapshot@, pkgs: pkgs.deep_view(), noconfirm: *noconfirm },
            Request::InstallLive { snapshot, tmp, pkgs, noconfirm } => Req::InstallLive { snapshot: snapshot@, tmp: tmp@, pkgs: pkgs.deep_view(), noconfirm: *noconfirm },
            Request::UninstallPackages { snapshot, pkgs, noconfirm } => Req::UninstallPackages { snapshot: snapshot@, pkgs: pkgs.deep_view(), noconfirm: *noconfirm },
            Request::UninstallInChroot { snapshot, pkgs, noconfirm } => Req::UninstallInChroot { snapshot: snapshot@, pkgs: pkgs.deep_view(), noconfirm: *noconfirm },
            Request::UninstallLive { tmp, pkgs, noconfirm } => Req::UninstallLive { tmp: tmp@, pkgs: pkgs.deep_view(), noconfirm: *noconfirm },
            Request::UpgradePackages { snapshot, noconfirm } => Req::UpgradePackages { snapshot: snapshot@, noconfirm: *noconfirm },
            Request::UpgradeLive { tmp, noconfirm } => Req::UpgradeLive { tmp: tmp@, noconfirm: *noconfirm },
            Request::AutoUpgrade { snapshot } => Req::AutoUpgrade { snapshot: snapshot@ },
            Request::RefreshPackages { snapshot } => Req::RefreshPackages { snapshot: snapshot@ },
            Request::CopyCache { snapshot, into_chroot } => Req::CopyCache { snapshot: snapshot@, into_chroot: *into_chroot },
            Request::CleanCache { snapshot } => Req::CleanCache { snapshot: snapshot@ },
            Request::Bootstrap { snapshot } => Req::Bootstrap { snapshot: snapshot@ },
            Request::SystemConfig { snapshot, profile } => Req::SystemConfig { snapshot: snapshot@, profile: profile.deep_view() },
            Request::LockPackages { snapshot, profile } => Req::LockPackages { snapshot: snapshot@, profile: profile.deep_view() },
            Request::FixPackageDb { snapshot } => Req::FixPackageDb { snapshot: snapshot@ },
            Request::AurEnabled { snapshot } => Req::AurEnabled { snapshot: snapshot@ },
            Request::SnapshotDiff { first, second } => Req::SnapshotDiff { first: first@, second: second@ },
            Request::SyncTrees { from, to, chr } => Req::SyncTrees { from: from@, to: to@, chr: chr@ },
            Request::EnableServices { snapshot, services, chr } => Req::EnableServices { snapshot: snapshot@, services: services.deep_view(), chr: chr@ },
            Request::DisableServices { snapshot, services, chr } => Req::DisableServices { snapshot: snapshot@, services: services.deep_view(), chr: chr@ },
            Request::ServiceEnabled { snapshot, service } => Req::ServiceEnabled { snapshot: snapshot@, service: service@ },
            Request::ReadProfile { path } => Req::ReadProfile { path: path@ },
            Request::WriteProfile { path, profile } => Req::WriteProfile { path: path@, profile: profile.deep_view() },
            Request::DistroId => Req::DistroId,
            Request::UpdateBoot { snapshot, secondary } => Req::UpdateBoot { snapshot: snapshot@, secondary: *secondary },
            Request::SwitchTmp { secondary, reset } => Req::SwitchTmp { secondary: *secondary, reset: *reset },
            Request::SwitchRecoveryTmp => Req::SwitchRecoveryTmp,
            Request::LoadTree => Req::LoadTree,
            Request::ChildrenOf { tree, name } => Req::ChildrenOf { tree: *tree, name: name@ },
            Request::OrderOf { tree, name } => Req::OrderOf { tree: *tree, name: name@ },
            Request::ParentOf { tree, name } => Req::ParentOf { tree: *tree, name: name@ },
            Request::AddChild { tree, parent, node } => Req::AddChild { tree: *tree, parent: parent@, node: *node },
            Request::AddSibling { tree, beside, node } => Req::AddSibling { tree: *tree, beside: beside@, node: *node },
            Request::AddToBase { tree, node } => Req::AddToBase { tree: *tree, node: *node },
            Request::RemoveNode { tree, name } => Req::RemoveNode { tree: *tree, name: name@ },
            Request::SaveTree { tree } => Req::SaveTree { tree: *tree },
            Request::PrintTree { tree } => Req::PrintTree { tree: *tree },
            Request::Print { text } => Req::Print { text: text@ },
            Request::Eprint { text } => Req::Eprint { text: text@ },
            Request::ReadLine => Req::ReadLine,
            Request::WatchInterrupts => Req::WatchInterrupts,
            Request::Interrupted => Req::Interrupted,
            Request::LocalTime => Req::LocalTime,
            Request::Fetch { url } => Req::Fetch { url: url@ },
            Request::DevicePath { uuid } => Req::DevicePath { uuid: uuid@ },
        }
    }
}

/// What comes back from outside.
#[derive(Debug, PartialEq, Eq)]
pub enum Reply {
    /// It was done.
    Done,
    /// Yes or no.
    Flag(bool),
    /// A text.
    Text(String),
    /// A list of texts.
    Texts(Vec<String>),
    /// Paths or lines, up to the first that could not be read.
    Listing(Vec<String>, Option<Error>),
    /// What a walk found, up to the first thing that could not be read.
    Entries(Vec<Entry>, Option<Error>),
    /// How a process ended.
    Status(ExitStatus),
    /// A loaded tree, by its number.
    Tree(u64),
    /// A profile.
    Profile(Profile),
    /// A moment.
    Time(LocalTime),
    /// It failed.
    Failed(Error),
}

/// What a reply says.
pub enum Answer {
    Done,
    Flag(bool),
    Text(Seq<char>),
    Texts(Seq<Seq<char>>),
    Listing(Seq<Seq<char>>, Option<Fault>),
    Entries(Seq<Found>, Option<Fault>),
    Status(ExitStatus),
    Tree(u64),
    Profile(Table),
    Time(LocalTime),
    Failed(Fault),
}

impl DeepView for Reply {
    type V = Answer;

    open spec fn deep_view(&self) -> Answer {
        match self {
            Reply::Done => Answer::Done,
            Reply::Flag(b) => Answer::Flag(*b),
            Reply::Text(t) => Answer::Text(t@),
            Reply::Texts(l) => Answer::Texts(l.deep_view()),
            Reply::Listing(l, e) => Answer::Listing(l.deep_view(), e.deep_view()),
            Reply::Entries(l, e) => Answer::Entries(l.deep_view(), e.deep_view()),
            Reply::Status(s) => Answer::Status(*s),
            Reply::Tree(n) => Answer::Tree(*n),
            Reply::Profile(p) => Answer::Profile(p.deep_view()),
            Reply::Time(t) => Answer::Time(*t),
            Reply::Failed(e) => Answer::Failed(e.deep_view()),
        }
    }
}

fn copied_error(e: &Option<Error>) -> (r: Option<Error>)
    ensures
        r.deep_view() == e.deep_view(),
{
    match e {
        Some(e) => Some(e.clone()),
        None => None,
    }
}

fn copied_entries(list: &Vec<Entry>) -> (r: Vec<Entry>)
    ensures
        r.deep_view() == list.deep_view(),
{
    let mut r: Vec<Entry> = Vec::new();
    let mut i: usize = 0;
    while i < list.len()
        invariant
            i <= list.len(),
            r.deep_view() =~= list.deep_view().take(i as int),
        decreases list.len() - i,
    {
        let ghost before = r.deep_view();
        r.push(Entry { path: list[i].path.clone(), is_dir: list[i].is_dir });
        assert(r.deep_view() =~= before.push(list.deep_view()[i as int]));
        i += 1;
    }
    assert(list.deep_view().take(list.len() as int) =~= list.deep_view());
    r
}

impl Clone for Reply {
    fn clone(&self) -> (r: Self)
        ensures
            r.deep_view() == self.deep_view(),
    {
        match self {
            Reply::Done => Reply::Done,
            Reply::Flag(b) => Reply::Flag(*b),
            Reply::Text(t) => Reply::Text(t.clone()),
            Reply::Texts(l) => Reply::Texts(copied(l)),
            Reply::Listing(l, e) => Reply::Listing(copied(l), copied_error(e)),
            Reply::Entries(l, e) => Reply::Entries(copied_entries(l), copied_error(e)),
            Reply::Status(s) => Reply::Status(*s),
            Reply::Tree(n) => Reply::Tree(*n),
            Reply::Profile(p) => Reply::Profile(p.clone()),
            Reply::Time(t) => Reply::Time(*t),
            Reply::Failed(e) => Reply::Failed(e.clone()),
        }
    }
}

}
