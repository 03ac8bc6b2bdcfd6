//! Changing a snapshot by hand.

use vstd::prelude::*;
use crate::chroots::{
    chr_delete, chr_delete_script, chroot_exec, chroot_exec_script, chroot_in, chroot_in_script,
    post_transactions, post_transactions_script, prepare, prepare_script, shell, shell_request,
    succeeded, success,
};
use crate::guard::{guard, guard_script, if_ready, ready};
use crate::host::{attempt, failure, ran, sure, Halt, Host};
use crate::paths::{below, chr, chr_name, rootfs, rootfs_path};
use crate::profiles::{check_profile, check_profile_script};
use crate::request::{ErrorKind, ExitStatus, Fault, Req, Request};
use crate::script::{chain, each, fail, flag, give, run, status, warn, Build, Script};
use crate::text::{cat, cat3};

verus! {

broadcast use crate::script::group_run;

// ------------------------------------------------------------------- editors

/// The editors that are tried, in this order.
pub open spec fn editors() -> Seq<Seq<char>> {
    seq!["nano"@, "vi"@, "vim"@, "nvim"@, "micro"@]
}

/// Edits a file with the first of some editors that is installed; says whether there is one.
pub open spec fn try_editors(names: Seq<Seq<char>>, file: Seq<char>) -> Script<bool>
    decreases names.len(),
{
    if names.len() == 0 {
        give(false)
    } else {
        chain(
            crate::script::sure(
                status(shell("[ -x \"$(command -v "@ + names[0] + ")\" ]"@)),
            ),
            |code: ExitStatus|
                if success(code) {
                    chain(
                        status(shell(names[0] + " "@ + file)),
                        |end: ExitStatus| give(true),
                    )
                } else {
                    try_editors(names.drop_first(), file)
                },
        )
    }
}

/// Edits a file with the user's editor.
#[verifier::opaque]
pub open spec fn own_editor_script(file: Seq<char>) -> Script<()> {
    chain(status(shell("$EDITOR "@ + file)), |end: ExitStatus| give(()))
}

fn any_editor(host: &mut Host, file: &str) -> (r: Result<bool, Halt>)
    ensures
        ran(old(host)@, final(host)@, r, try_editors(editors(), file@)),
{
    let names = vec![
        "nano".to_owned(),
        "vi".to_owned(),
        "vim".to_owned(),
        "nvim".to_owned(),
        "micro".to_owned(),
    ];
    let ghost all = names.deep_view();
    assert(all =~= editors());
    let mut i: usize = 0;
    assert(all.skip(0) =~= all);
    while i < names.len()
        invariant
            i <= names.len(),
            all == names.deep_view(),
            run(old(host)@, try_editors(all, file@)) == run(
                host@,
                try_editors(all.skip(i as int), file@),
            ),
            all == editors(),
        decreases names.len() - i,
    {
        assert(all.skip(i as int).drop_first() =~= all.skip(i + 1));
        assert(all.skip(i as int)[0] == names[i as int]@);
        let name = names[i].as_str();
        let code = sure(
            host.status(shell_request(cat3("[ -x \"$(command -v ", name, ")\" ]"))),
        )?;
        if succeeded(code) {
            host.status(shell_request(cat3(name, " ", file)))?;
            return Ok(true);
        }
        i += 1;
    }
    Ok(false)
}

fn own_editor(host: &mut Host, file: &str) -> (r: Result<(), Halt>)
    ensures
        ran(old(host)@, final(host)@, r, own_editor_script(file@)),
{
    reveal(own_editor_script);
    host.status(shell_request(cat("$EDITOR ", file)))?;
    Ok(())
}

// ------------------------------------------------------------------- editing

/// Edits the options in a prepared snapshot, and keeps what was edited.
#[verifier::opaque]
pub open spec fn edit_config_script(build: Build, snapshot: Seq<char>) -> Script<()> {
    let file = rootfs(chr(snapshot)) + "/etc/ash/ash.conf"@;
    chain(
        flag(Req::EnvSet { name: "EDITOR"@ }),
        |own: bool|
            chain(
                if own {
                    own_editor_script(file)
                } else {
                    chain(
                        try_editors(editors(), file),
                        |found: bool|
                            if found {
                                give(())
                            } else {
                                warn("No text editor available!"@)
                            },
                    )
                },
                |u: ()| post_transactions_script(build, snapshot),
            ),
    )
}

/// What `snapshot_config_edit` does.
#[verifier::opaque]
pub open spec fn snapshot_config_edit_script(build: Build, snapshot: Seq<char>) -> Script<()> {
    if_ready(
        "chroot"@,
        snapshot,
        chain(prepare_script(build, snapshot), |u: ()| edit_config_script(build, snapshot)),
    )
}

/// Edits the profile in a prepared snapshot.
#[verifier::opaque]
pub open spec fn edit_profile_script(snapshot: Seq<char>) -> Script<()> {
    let file = rootfs(chr(snapshot)) + "/etc/ash/profile"@;
    chain(
        flag(Req::EnvSet { name: "EDITOR"@ }),
        |own: bool|
            if own {
                own_editor_script(file)
            } else {
                chain(
                    try_editors(editors(), file),
                    |found: bool|
                        if found {
                            give(())
                        } else {
                            fail(ErrorKind::NotFound, "No text editor available!"@)
                        },
                )
            },
    )
}

/// Carries out the changes of an edited profile and keeps them; where they cannot be carried out,
/// the temporary copy is discarded.
#[verifier::opaque]
pub open spec fn apply_edit_script(build: Build, snapshot: Seq<char>) -> Script<()> {
    chain(
        crate::script::attempt(check_profile_script(build, snapshot)),
        |tried: Result<(), Fault>|
            match tried {
                Ok(_) => post_transactions_script(build, snapshot),
                Err(_) => chain(
                    chr_delete_script(snapshot),
                    |u: ()| fail(ErrorKind::Other, "Failed to apply changes."@),
                ),
            },
    )
}

/// What `snapshot_profile_edit` does.
#[verifier::opaque]
pub open spec fn snapshot_profile_edit_script(build: Build, snapshot: Seq<char>) -> Script<()> {
    if_ready(
        "chroot"@,
        snapshot,
        chain(
            prepare_script(build, snapshot),
            |u: ()|
                chain(
                    edit_profile_script(snapshot),
                    |u: ()| apply_edit_script(build, snapshot),
                ),
        ),
    )
}

fn edit_config(host: &mut Host, snapshot: &str) -> (r: Result<(), Halt>)
    ensures
        ran(old(host)@, final(host)@, r, edit_config_script(old(host)@.build, snapshot@)),
{
    reveal(edit_config_script);
    let file = below(chr_name(snapshot).as_str(), "/etc/ash/ash.conf");
    if host.flag(Request::EnvSet { name: "EDITOR".to_owned() })? {
        own_editor(host, file.as_str())?;
    } else if !any_editor(host, file.as_str())? {
        host.warn("No text editor available!".to_owned())?;
    }
    post_transactions(host, snapshot)
}

/// Lets the user edit the options of a snapshot.
pub fn snapshot_config_edit(host: &mut Host, snapshot: &str) -> (r: Result<(), Halt>)
    ensures
        ran(old(host)@, final(host)@, r, snapshot_config_edit_script(old(host)@.build, snapshot@)),
{
    reveal(snapshot_config_edit_script);
    if !ready(host, "chroot", snapshot)? {
        return Ok(());
    }
    prepare(host, snapshot)?;
    edit_config(host, snapshot)
}

fn edit_profile(host: &mut Host, snapshot: &str) -> (r: Result<(), Halt>)
    ensures
        ran(old(host)@, final(host)@, r, edit_profile_script(snapshot@)),
{
    reveal(edit_profile_script);
    let file = below(chr_name(snapshot).as_str(), "/etc/ash/profile");
    if host.flag(Request::EnvSet { name: "EDITOR".to_owned() })? {
        own_editor(host, file.as_str())
    } else if any_editor(host, file.as_str())? {
        Ok(())
    } else {
        Err(failure(ErrorKind::NotFound, "No text editor available!".to_owned()))
    }
}

fn apply_edit(host: &mut Host, snapshot: &str) -> (r: Result<(), Halt>)
    ensures
        ran(old(host)@, final(host)@, r, apply_edit_script(old(host)@.build, snapshot@)),
{
    reveal(apply_edit_script);
    match attempt(check_profile(host, snapshot))? {
        Ok(_) => post_transactions(host, snapshot),
        Err(_) => {
            chr_delete(host, snapshot)?;
            Err(failure(ErrorKind::Other, "Failed to apply changes.".to_owned()))
        },
    }
}

/// Lets the user edit the profile of a snapshot, carries out the changes and keeps them.
pub fn snapshot_profile_edit(host: &mut Host, snapshot: &str) -> (r: Result<(), Halt>)
    ensures
        ran(
            old(host)@,
            final(host)@,
            r,
            snapshot_profile_edit_script(old(host)@.build, snapshot@),
        ),
{
    reveal(snapshot_profile_edit_script);
    if !ready(host, "chroot", snapshot)? {
        return Ok(());
    }
    prepare(host, snapshot)?;
    edit_profile(host, snapshot)?;
    apply_edit(host, snapshot)
}

// ------------------------------------------------------------- in the chroot

/// Keeps what was changed in a prepared snapshot, unless its profile cannot be carried out.
#[verifier::opaque]
pub open spec fn keep_changes_script(build: Build, snapshot: Seq<char>) -> Script<()> {
    chain(
        crate::script::attempt(check_profile_script(build, snapshot)),
        |checked: Result<(), Fault>|
            match checked {
                Err(_) => give(()),
                Ok(_) => chain(
                    crate::script::attempt(post_transactions_script(build, snapshot)),
                    |kept: Result<(), Fault>|
                        match kept {
                            Ok(_) => give(()),
                            Err(e) => chain(
                                warn("post_transactions error: "@ + e.text),
                                |u: ()| chr_delete_script(snapshot),
                            ),
                        },
                ),
            },
    )
}

/// Runs a command in a snapshot.
pub open spec fn chroot_command(build: Build, snapshot: Seq<char>) -> spec_fn(Seq<char>) -> Script<
    (),
> {
    |cmd: Seq<char>|
        chain(
            crate::script::attempt(prepare_script(build, snapshot)),
            |prepared: Result<(), Fault>|
                match prepared {
                    Err(_) => chr_delete_script(snapshot),
                    Ok(_) => chain(
                        crate::script::attempt(chroot_exec_script(rootfs(chr(snapshot)), cmd)),
                        |ran_it: Result<(), Fault>|
                            match ran_it {
                                Err(_) => chr_delete_script(snapshot),
                                Ok(_) => keep_changes_script(build, snapshot),
                            },
                    ),
                },
        )
}

/// Opens a shell in a snapshot.
#[verifier::opaque]
pub open spec fn chroot_shell_script(build: Build, snapshot: Seq<char>) -> Script<()> {
    chain(
        crate::script::attempt(prepare_script(build, snapshot)),
        |prepared: Result<(), Fault>|
            match prepared {
                Err(_) => chr_delete_script(snapshot),
                Ok(_) => chain(
                    chroot_in_script(rootfs(chr(snapshot))),
                    |code: ExitStatus|
                        if code.code is Some {
                            keep_changes_script(build, snapshot)
                        } else {
                            chr_delete_script(snapshot)
                        },
                ),
            },
    )
}

/// What `chroot` does.
#[verifier::opaque]
pub open spec fn chroot_script(build: Build, snapshot: Seq<char>, cmds: Seq<Seq<char>>) -> Script<
    (),
> {
    chain(
        guard_script("clone"@, snapshot),
        |u: ()|
            if cmds.len() > 0 {
                each(cmds, chroot_command(build, snapshot))
            } else {
                chroot_shell_script(build, snapshot)
            },
    )
}

fn keep_changes(host: &mut Host, snapshot: &str) -> (r: Result<(), Halt>)
    ensures
        ran(old(host)@, final(host)@, r, keep_changes_script(old(host)@.build, snapshot@)),
{
    reveal(keep_changes_script);
    match attempt(check_profile(host, snapshot))? {
        Err(_) => Ok(()),
        Ok(_) => match attempt(post_transactions(host, snapshot))? {
            Ok(_) => Ok(()),
            Err(e) => {
                host.warn(cat("post_transactions error: ", e.text.as_str()))?;
                chr_delete(host, snapshot)
            },
        },
    }
}

fn run_command(host: &mut Host, snapshot: &str, cmd: &str) -> (r: Result<(), Halt>)
    ensures
        ran(old(host)@, final(host)@, r, chroot_command(old(host)@.build, snapshot@)(cmd@)),
{
    match attempt(prepare(host, snapshot))? {
        Err(_) => chr_delete(host, snapshot),
        Ok(_) => {
            let path = rootfs_path(chr_name(snapshot).as_str());
            match attempt(chroot_exec(host, path.as_str(), cmd))? {
                Err(_) => chr_delete(host, snapshot),
                Ok(_) => keep_changes(host, snapshot),
            }
        },
    }
}

fn run_commands(host: &mut Host, snapshot: &str, cmds: &Vec<String>) -> (r: Result<(), Halt>)
    ensures
        ran(
            old(host)@,
            final(host)@,
            r,
            each(cmds.deep_view(), chroot_command(old(host)@.build, snapshot@)),
        ),
{
    let ghost all = cmds.deep_view();
    let ghost build = host@.build;
    let ghost f = chroot_command(build, snapshot@);
    let mut i: usize = 0;
    assert(all.skip(0) =~= all);
    while i < cmds.len()
        invariant
            i <= cmds.len(),
            all == cmds.deep_view(),
            build == host@.build,
            build == old(host)@.build,
            f == chroot_command(build, snapshot@),
            run(old(host)@, each(all, f)) == run(host@, each(all.skip(i as int), f)),
        decreases cmds.len() - i,
    {
        assert(all.skip(i as int).drop_first() =~= all.skip(i + 1));
        assert(all.skip(i as int)[0] == cmds[i as int]@);
        run_command(host, snapshot, cmds[i].as_str())?;
        i += 1;
    }
    Ok(())
}

fn open_shell(host: &mut Host, snapshot: &str) -> (r: Result<(), Halt>)
    ensures
        ran(old(host)@, final(host)@, r, chroot_shell_script(old(host)@.build, snapshot@)),
{
    reveal(chroot_shell_script);
    match attempt(prepare(host, snapshot))? {
        Err(_) => chr_delete(host, snapshot),
        Ok(_) => {
            let path = rootfs_path(chr_name(snapshot).as_str());
            let code = chroot_in(host, path.as_str())?;
            match code.code {
                Some(_) => keep_changes(host, snapshot),
                None => chr_delete(host, snapshot),
            }
        },
    }
}

/// Runs commands in a snapshot, or a shell where there are none.
pub fn chroot(host: &mut Host, snapshot: &str, cmds: Vec<String>) -> (r: Result<(), Halt>)
    ensures
        ran(
            old(host)@,
            final(host)@,
            r,
            chroot_script(old(host)@.build, snapshot@, cmds.deep_view()),
        ),
{
    reveal(chroot_script);
    guard(host, "clone", snapshot)?;
    if cmds.len() > 0 {
        run_commands(host, snapshot, &cmds)
    } else {
        open_shell(host, snapshot)
    }
}

}
