//! Installing and removing packages and profiles, as the command line asks for it.

use vstd::prelude::*;
use crate::chroots::{chr_delete, chr_delete_script, post_transactions, post_transactions_script};
use crate::deployment::{deploy, deploy_script, get_current_snapshot, get_current_snapshot_script};
use crate::host::{attempt, ran, yes_no, Halt, Host};
use crate::packages::{
    install, install_live, install_live_script, install_profile, install_profile_live,
    install_profile_live_script, install_profile_script, install_script, installed_note,
    installed_text, removed_note, removed_text, uninstall, uninstall_live, uninstall_live_script,
    uninstall_profile, uninstall_profile_live, uninstall_profile_live_script,
    uninstall_profile_script, uninstall_script,
};
use crate::request::Fault;
use crate::script::{chain, confirm, give, say, warn, Build, Script};
use crate::text::{cat3, cat5, same};

verus! {

broadcast use crate::script::group_run;

/// The profile that is spoken of: the user's own, where there is one.
pub open spec fn spoken(name: Seq<char>, user: Seq<char>) -> Seq<char> {
    if user.len() == 0 {
        name
    } else {
        user
    }
}

/// The complaint about a live change of a snapshot that is not running.
pub open spec fn not_running() -> Seq<char> {
    "Can't use the live option with any other snapshot than the current one."@
}

/// Shows how an attempt ended.
pub open spec fn tell(tried: Result<(), Fault>, note: Seq<char>) -> Script<()> {
    match tried {
        Ok(_) => say(note),
        Err(e) => warn(e.text),
    }
}

/// Discards the temporary copy and says so.
#[verifier::opaque]
pub open spec fn discard_script(snapshot: Seq<char>, note: Seq<char>) -> Script<()> {
    chain(chr_delete_script(snapshot), |u: ()| warn(note))
}

/// Goes on with `live` where the snapshot is the running one, which is looked up twice.
pub open spec fn if_running(snapshot: Seq<char>, live: Script<()>) -> Script<()> {
    chain(
        get_current_snapshot_script(),
        |current: Seq<char>|
            if snapshot != current {
                warn(not_running())
            } else {
                chain(
                    get_current_snapshot_script(),
                    |again: Seq<char>|
                        if snapshot == again {
                            live
                        } else {
                            give(())
                        },
                )
            },
    )
}

/// Asks whether a changed snapshot is to be deployed.
#[verifier::opaque]
pub open spec fn offer_script(build: Build, snapshot: Seq<char>, secondary: bool) -> Script<()> {
    chain(
        confirm("Would you like to proceed with the deployment of snapshot "@ + snapshot + "?"@),
        |yes: bool|
            if yes {
                chain(
                    crate::script::attempt(deploy_script(build, snapshot, secondary, false)),
                    |tried: Result<Seq<char>, Fault>|
                        match tried {
                            Ok(_) => say("Snapshot "@ + snapshot + " deployed to '/'."@),
                            Err(_) => give(()),
                        },
                )
            } else {
                give(())
            },
    )
}

/// The note that a profile was installed.
pub open spec fn profile_installed(name: Seq<char>, snapshot: Seq<char>) -> Seq<char> {
    "Profile "@ + name + " installed in snapshot "@ + snapshot + " successfully."@
}

/// The note that a profile was removed.
pub open spec fn profile_removed(name: Seq<char>, snapshot: Seq<char>) -> Seq<char> {
    "Profile "@ + name + " removed from snapshot "@ + snapshot + " successfully."@
}

/// Keeps a snapshot in which a profile was installed, and offers to deploy it.
#[verifier::opaque]
pub open spec fn keep_installed_script(
    build: Build,
    snapshot: Seq<char>,
    shown: Seq<char>,
    secondary: bool,
) -> Script<()> {
    chain(
        crate::script::attempt(post_transactions_script(build, snapshot)),
        |kept: Result<(), Fault>|
            match kept {
                Ok(_) => chain(
                    say(profile_installed(shown, snapshot)),
                    |u: ()| offer_script(build, snapshot, secondary),
                ),
                Err(_) => discard_script(snapshot, "Install failed and changes discarded!"@),
            },
    )
}

/// Installs a profile in a snapshot.
#[verifier::opaque]
pub open spec fn profile_in_script(
    build: Build,
    snapshot: Seq<char>,
    name: Seq<char>,
    force: bool,
    user: Seq<char>,
    noconfirm: bool,
    secondary: bool,
) -> Script<()> {
    chain(
        crate::script::attempt(
            install_profile_script(build, snapshot, name, force, secondary, user, noconfirm),
        ),
        |tried: Result<bool, Fault>|
            match tried {
                Ok(second) => keep_installed_script(build, snapshot, spoken(name, user), second),
                Err(e) => chain(
                    warn(e.text),
                    |u: ()| discard_script(snapshot, "Install failed and changes discarded!"@),
                ),
            },
    )
}

/// Installs a profile in the running deployment.
#[verifier::opaque]
pub open spec fn profile_in_live_script(
    build: Build,
    snapshot: Seq<char>,
    name: Seq<char>,
    force: bool,
    user: Seq<char>,
    noconfirm: bool,
) -> Script<()> {
    chain(
        crate::script::attempt(
            install_profile_live_script(build, snapshot, name, force, user, noconfirm),
        ),
        |tried: Result<(), Fault>|
            tell(
                tried,
                "Profile "@ + spoken(name, user) + " installed in current/live snapshot."@,
            ),
    )
}

/// Installs packages in a snapshot.
#[verifier::opaque]
pub open spec fn pkgs_in_script(
    build: Build,
    snapshot: Seq<char>,
    pkgs: Seq<Seq<char>>,
    noconfirm: bool,
) -> Script<()> {
    chain(
        crate::script::attempt(install_script(build, snapshot, pkgs, noconfirm)),
        |tried: Result<(), Fault>| tell(tried, installed_note(pkgs, snapshot)),
    )
}

/// Installs packages in the running deployment.
#[verifier::opaque]
pub open spec fn pkgs_in_live_script(
    snapshot: Seq<char>,
    pkgs: Seq<Seq<char>>,
    noconfirm: bool,
) -> Script<()> {
    chain(
        crate::script::attempt(install_live_script(pkgs, noconfirm)),
        |tried: Result<(), Fault>| tell(tried, installed_note(pkgs, snapshot)),
    )
}

/// What `install_triage` does: a profile goes before packages, and these before a profile of
/// the user's own.
#[verifier::opaque]
pub open spec fn install_triage_script(
    build: Build,
    snapshot: Seq<char>,
    live: bool,
    pkgs: Seq<Seq<char>>,
    name: Seq<char>,
    force: bool,
    user: Seq<char>,
    noconfirm: bool,
    secondary: bool,
) -> Script<()> {
    if !live {
        if name.len() == 0 && pkgs.len() > 0 {
            pkgs_in_script(build, snapshot, pkgs, noconfirm)
        } else if name.len() > 0 || user.len() > 0 {
            profile_in_script(build, snapshot, name, force, user, noconfirm, secondary)
        } else {
            give(())
        }
    } else {
        if_running(
            snapshot,
            if name.len() == 0 && pkgs.len() > 0 {
                pkgs_in_live_script(snapshot, pkgs, noconfirm)
            } else if name.len() > 0 || user.len() > 0 {
                profile_in_live_script(build, snapshot, name, force, user, noconfirm)
            } else {
                give(())
            },
        )
    }
}

/// Removes a profile from a snapshot.
#[verifier::opaque]
pub open spec fn profile_out_script(
    build: Build,
    snapshot: Seq<char>,
    name: Seq<char>,
    user: Seq<char>,
    noconfirm: bool,
) -> Script<()> {
    chain(
        crate::script::attempt(
            uninstall_profile_script(build, snapshot, name, user, noconfirm),
        ),
        |tried: Result<(), Fault>|
            match tried {
                Ok(_) => chain(
                    crate::script::attempt(post_transactions_script(build, snapshot)),
                    |kept: Result<(), Fault>|
                        match kept {
                            Ok(_) => say(profile_removed(spoken(name, user), snapshot)),
                            Err(_) => discard_script(
                                snapshot,
                                "Uninstall failed and changes discarded!"@,
                            ),
                        },
                ),
                Err(e) => chain(
                    warn(e.text),
                    |u: ()| discard_script(snapshot, "Uninstall failed and changes discarded!"@),
                ),
            },
    )
}

/// Removes a profile from the running deployment.
#[verifier::opaque]
pub open spec fn profile_out_live_script(
    snapshot: Seq<char>,
    name: Seq<char>,
    user: Seq<char>,
    noconfirm: bool,
) -> Script<()> {
    chain(
        crate::script::attempt(uninstall_profile_live_script(snapshot, name, user, noconfirm)),
        |tried: Result<(), Fault>|
            tell(
                tried,
                "Profile "@ + spoken(name, user) + " removed from current/live snapshot."@,
            ),
    )
}

/// Removes packages from the running deployment.
#[verifier::opaque]
pub open spec fn pkgs_out_live_script(
    snapshot: Seq<char>,
    pkgs: Seq<Seq<char>>,
    noconfirm: bool,
) -> Script<()> {
    chain(
        crate::script::attempt(uninstall_live_script(pkgs, noconfirm)),
        |tried: Result<(), Fault>| tell(tried, removed_note(pkgs, snapshot)),
    )
}

/// What `uninstall_triage` does.
#[verifier::opaque]
pub open spec fn uninstall_triage_script(
    build: Build,
    snapshot: Seq<char>,
    live: bool,
    pkgs: Seq<Seq<char>>,
    name: Seq<char>,
    user: Seq<char>,
    noconfirm: bool,
) -> Script<()> {
    if !live {
        if name.len() == 0 && pkgs.len() > 0 {
            uninstall_script(build, snapshot, pkgs, noconfirm)
        } else if name.len() > 0 || user.len() > 0 {
            profile_out_script(build, snapshot, name, user, noconfirm)
        } else {
            give(())
        }
    } else {
        if_running(
            snapshot,
            if name.len() == 0 && pkgs.len() > 0 {
                pkgs_out_live_script(snapshot, pkgs, noconfirm)
            } else if name.len() > 0 || user.len() > 0 {
                profile_out_live_script(snapshot, name, user, noconfirm)
            } else {
                give(())
            },
        )
    }
}

fn spoken_name<'a>(profile: &'a str, user_profile: &'a str) -> (r: &'a str)
    ensures
        r@ == spoken(profile@, user_profile@),
{
    if user_profile.is_empty() {
        profile
    } else {
        user_profile
    }
}

fn discard(host: &mut Host, snapshot: &str, note: &str) -> (r: Result<(), Halt>)
    ensures
        ran(old(host)@, final(host)@, r, discard_script(snapshot@, note@)),
{
    reveal(discard_script);
    chr_delete(host, snapshot)?;
    host.warn(note.to_owned())
}

fn offer(host: &mut Host, snapshot: &str, secondary: bool) -> (r: Result<(), Halt>)
    ensures
        ran(old(host)@, final(host)@, r, offer_script(old(host)@.build, snapshot@, secondary)),
{
    reveal(offer_script);
    let question = cat3(
        "Would you like to proceed with the deployment of snapshot ",
        snapshot,
        "?",
    );
    if yes_no(host, question.as_str())? {
        match attempt(deploy(host, snapshot, secondary, false))? {
            Ok(_) => host.say(cat3("Snapshot ", snapshot, " deployed to '/'.")),
            Err(_) => Ok(()),
        }
    } else {
        Ok(())
    }
}

fn keep_installed(host: &mut Host, snapshot: &str, shown: &str, secondary: bool) -> (r: Result<
    (),
    Halt,
>)
    ensures
        ran(
            old(host)@,
            final(host)@,
            r,
            keep_installed_script(old(host)@.build, snapshot@, shown@, secondary),
        ),
{
    reveal(keep_installed_script);
    match attempt(post_transactions(host, snapshot))? {
        Ok(_) => {
            host.say(
                cat5("Profile ", shown, " installed in snapshot ", snapshot, " successfully."),
            )?;
            offer(host, snapshot, secondary)
        },
        Err(_) => discard(host, snapshot, "Install failed and changes discarded!"),
    }
}

fn profile_in(
    host: &mut Host,
    snapshot: &str,
    profile: &str,
    force: bool,
    user_profile: &str,
    noconfirm: bool,
    secondary: bool,
) -> (r: Result<(), Halt>)
    ensures
        ran(
            old(host)@,
            final(host)@,
            r,
            profile_in_script(
                old(host)@.build,
                snapshot@,
                profile@,
                force,
                user_profile@,
                noconfirm,
                secondary,
            ),
        ),
{
    reveal(profile_in_script);
    let tried = attempt(
        install_profile(host, snapshot, profile, force, secondary, user_profile, noconfirm),
    )?;
    match tried {
        Ok(second) => keep_installed(host, snapshot, spoken_name(profile, user_profile), second),
        Err(e) => {
            host.warn(e.text)?;
            discard(host, snapshot, "Install failed and changes discarded!")
        },
    }
}

fn profile_in_live(
    host: &mut Host,
    snapshot: &str,
    profile: &str,
    force: bool,
    user_profile: &str,
    noconfirm: bool,
) -> (r: Result<(), Halt>)
    ensures
        ran(
            old(host)@,
            final(host)@,
            r,
            profile_in_live_script(
                old(host)@.build,
                snapshot@,
                profile@,
                force,
                user_profile@,
                noconfirm,
            ),
        ),
{
    reveal(profile_in_live_script);
    let tried = attempt(
        install_profile_live(host, snapshot, profile, force, user_profile, noconfirm),
    )?;
    match tried {
        Ok(_) => host.say(
            cat3(
                "Profile ",
                spoken_name(profile, user_profile),
                " installed in current/live snapshot.",
            ),
        ),
        Err(e) => host.warn(e.text),
    }
}

fn pkgs_in(host: &mut Host, snapshot: &str, pkgs: &Vec<String>, noconfirm: bool) -> (r: Result<
    (),
    Halt,
>)
    ensures
        ran(
            old(host)@,
            final(host)@,
            r,
            pkgs_in_script(old(host)@.build, snapshot@, pkgs.deep_view(), noconfirm),
        ),
{
    reveal(pkgs_in_script);
    match attempt(install(host, snapshot, pkgs, noconfirm))? {
        Ok(_) => host.say(installed_text(pkgs, snapshot)),
        Err(e) => host.warn(e.text),
    }
}

fn pkgs_in_live(host: &mut Host, snapshot: &str, pkgs: &Vec<String>, noconfirm: bool) -> (r: Result<
    (),
    Halt,
>)
    ensures
        ran(
            old(host)@,
            final(host)@,
            r,
            pkgs_in_live_script(snapshot@, pkgs.deep_view(), noconfirm),
        ),
{
    reveal(pkgs_in_live_script);
    match attempt(install_live(host, pkgs, noconfirm))? {
        Ok(_) => host.say(installed_text(pkgs, snapshot)),
        Err(e) => host.warn(e.text),
    }
}

/// Installs a profile or packages in a snapshot, or in the running deployment.
pub fn install_triage(
    host: &mut Host,
    snapshot: &str,
    live: bool,
    pkgs: Vec<String>,
    profile: &str,
    force: bool,
    user_profile: &str,
    noconfirm: bool,
    secondary: bool,
) -> (r: Result<(), Halt>)
    ensures
        ran(
            old(host)@,
            final(host)@,
            r,
            install_triage_script(
                old(host)@.build,
                snapshot@,
                live,
                pkgs.deep_view(),
                profile@,
                force,
                user_profile@,
                noconfirm,
                secondary,
            ),
        ),
{
    reveal(install_triage_script);
    if !live {
        if !profile.is_empty() {
            return profile_in(
                host,
                snapshot,
                profile,
                force,
                user_profile,
                noconfirm,
                secondary,
            );
        } else if pkgs.len() > 0 {
            return pkgs_in(host, snapshot, &pkgs, noconfirm);
        } else if !user_profile.is_empty() {
            return profile_in(
                host,
                snapshot,
                profile,
                force,
                user_profile,
                noconfirm,
                secondary,
            );
        }
        return Ok(());
    }
    let current = get_current_snapshot(host)?;
    if !same(snapshot, current.as_str()) {
        return host.warn(
            "Can't use the live option with any other snapshot than the current one.".to_owned(),
        );
    }
    let again = get_current_snapshot(host)?;
    if same(snapshot, again.as_str()) {
        if !profile.is_empty() {
            return profile_in_live(host, snapshot, profile, force, user_profile, noconfirm);
        } else if pkgs.len() > 0 {
            return pkgs_in_live(host, snapshot, &pkgs, noconfirm);
        } else if !user_profile.is_empty() {
            return profile_in_live(host, snapshot, profile, force, user_profile, noconfirm);
        }
    }
    Ok(())
}

fn profile_out(
    host: &mut Host,
    snapshot: &str,
    profile: &str,
    user_profile: &str,
    noconfirm: bool,
) -> (r: Result<(), Halt>)
    ensures
        ran(
            old(host)@,
            final(host)@,
            r,
            profile_out_script(
                old(host)@.build,
                snapshot@,
                profile@,
                user_profile@,
                noconfirm,
            ),
        ),
{
    reveal(profile_out_script);
    match attempt(uninstall_profile(host, snapshot, profile, user_profile, noconfirm))? {
        Ok(_) => match attempt(post_transactions(host, snapshot))? {
            Ok(_) => host.say(
                cat5(
                    "Profile ",
                    spoken_name(profile, user_profile),
                    " removed from snapshot ",
                    snapshot,
                    " successfully.",
                ),
            ),
            Err(_) => discard(host, snapshot, "Uninstall failed and changes discarded!"),
        },
        Err(e) => {
            host.warn(e.text)?;
            discard(host, snapshot, "Uninstall failed and changes discarded!")
        },
    }
}

fn profile_out_live(
    host: &mut Host,
    snapshot: &str,
    profile: &str,
    user_profile: &str,
    noconfirm: bool,
) -> (r: Result<(), Halt>)
    ensures
        ran(
            old(host)@,
            final(host)@,
            r,
            profile_out_live_script(snapshot@, profile@, user_profile@, noconfirm),
        ),
{
    reveal(profile_out_live_script);
    match attempt(uninstall_profile_live(host, snapshot, profile, user_profile, noconfirm))? {
        Ok(_) => host.say(
            cat3(
                "Profile ",
                spoken_name(profile, user_profile),
                " removed from current/live snapshot.",
            ),
        ),
        Err(e) => host.warn(e.text),
    }
}

fn pkgs_out_live(host: &mut Host, snapshot: &str, pkgs: &Vec<String>, noconfirm: bool) -> (r: Result<
    (),
    Halt,
>)
    ensures
        ran(
            old(host)@,
            final(host)@,
            r,
            pkgs_out_live_script(snapshot@, pkgs.deep_view(), noconfirm),
        ),
{
    reveal(pkgs_out_live_script);
    match attempt(uninstall_live(host, pkgs, noconfirm))? {
        Ok(_) => host.say(removed_text(pkgs, snapshot)),
        Err(e) => host.warn(e.text),
    }
}

/// Removes a profile or packages from a snapshot, or from the running deployment.
pub fn uninstall_triage(
    host: &mut Host,
    snapshot: &str,
    live: bool,
    pkgs: Vec<String>,
    profile: &str,
    user_profile: &str,
    noconfirm: bool,
) -> (r: Result<(), Halt>)
    ensures
        ran(
            old(host)@,
            final(host)@,
            r,
            uninstall_triage_script(
                old(host)@.build,
                snapshot@,
                live,
                pkgs.deep_view(),
                profile@,
                user_profile@,
                noconfirm,
            ),
        ),
{
    reveal(uninstall_triage_script);
    if !live {
        if !profile.is_empty() {
            return profile_out(host, snapshot, profile, user_profile, noconfirm);
        } else if pkgs.len() > 0 {
            return uninstall(host, snapshot, &pkgs, noconfirm);
        } else if !user_profile.is_empty() {
            return profile_out(host, snapshot, profile, user_profile, noconfirm);
        }
        return Ok(());
    }
    let current = get_current_snapshot(host)?;
    if !same(snapshot, current.as_str()) {
        return host.warn(
            "Can't use the live option with any other snapshot than the current one.".to_owned(),
        );
    }
    let again = get_current_snapshot(host)?;
    if same(snapshot, again.as_str()) {
        if !profile.is_empty() {
            return profile_out_live(host, snapshot, profile, user_profile, noconfirm);
        } else if pkgs.len() > 0 {
            return pkgs_out_live(host, snapshot, &pkgs, noconfirm);
        } else if !user_profile.is_empty() {
            return profile_out_live(host, snapshot, profile, user_profile, noconfirm);
        }
    }
    Ok(())
}

}
