//! Bringing a prepared snapshot in line with its edited profile.

use vstd::prelude::*;
use crate::host::{failure, ran, sure, Halt, Host};
use crate::paths::{below, chr, chr_name, rootfs, volume, volume_path, Volume};
use crate::profile::{folded, has_section, keys_of, table_with, table_without, Profile, Table};
use crate::request::{ErrorKind, Req, Request};
use crate::script::{chain, done, fail, flag, give, profile, run, texts, Build, Script};
use crate::text::{cat, copied, listed, to_lower};

verus! {

broadcast use crate::script::group_run;

// --------------------------------------------------------------------- lists

/// The items of `list` that `other` does not have, in order.
pub open spec fn without(list: Seq<Seq<char>>, other: Seq<Seq<char>>) -> Seq<Seq<char>>
    decreases list.len(),
{
    if list.len() == 0 {
        seq![]
    } else if other.contains(list.last()) {
        without(list.drop_last(), other)
    } else {
        without(list.drop_last(), other).push(list.last())
    }
}

/// The items of `list` that `other` does not have, in order.
pub fn not_listed(list: &Vec<String>, other: &Vec<String>) -> (r: Vec<String>)
    ensures
        r.deep_view() == without(list.deep_view(), other.deep_view()),
{
    let ghost all = list.deep_view();
    let mut r: Vec<String> = Vec::new();
    let mut i: usize = 0;
    assert(all.take(0) =~= seq![]);
    assert(r.deep_view() =~= seq![]);
    while i < list.len()
        invariant
            i <= list.len(),
            all == list.deep_view(),
            r.deep_view() == without(all.take(i as int), other.deep_view()),
        decreases list.len() - i,
    {
        let ghost seen = r.deep_view();
        assert(all.take(i + 1).drop_last() =~= all.take(i as int));
        assert(all.take(i + 1).last() == list[i as int]@);
        if !listed(other, list[i].as_str()) {
            r.push(list[i].clone());
            assert(r.deep_view() =~= seen.push(list[i as int]@));
        }
        i += 1;
    }
    assert(all.take(list.len() as int) =~= all);
    r
}

/// One list behind the other.
pub fn joined_lists(a: &Vec<String>, b: &Vec<String>) -> (r: Vec<String>)
    ensures
        r.deep_view() == a.deep_view() + b.deep_view(),
{
    let mut r = copied(a);
    let mut more = copied(b);
    r.append(&mut more);
    assert(r.deep_view() =~= a.deep_view() + b.deep_view());
    r
}

/// The list with an item, once.
pub open spec fn including(list: Seq<Seq<char>>, item: Seq<char>) -> Seq<Seq<char>> {
    if list.contains(item) {
        list
    } else {
        list.push(item)
    }
}

// -------------------------------------------------------------------- tables

/// A table without each of some keys of a section.
pub open spec fn drop_keys(table: Table, section: Seq<char>, keys: Seq<Seq<char>>) -> Table
    decreases keys.len(),
{
    if keys.len() == 0 {
        table
    } else {
        table_without(drop_keys(table, section, keys.drop_last()), section, keys.last())
    }
}

/// A table with each of some keys of a section taken out and put back without a value.
pub open spec fn renew_keys(table: Table, section: Seq<char>, keys: Seq<Seq<char>>) -> Table
    decreases keys.len(),
{
    if keys.len() == 0 {
        table
    } else {
        let rest = renew_keys(table, section, keys.drop_last());
        table_with(table_without(rest, section, keys.last()), section, keys.last(), None)
    }
}

fn remove_keys(p: &mut Profile, section: &str, keys: &Vec<String>)
    ensures
        final(p).deep_view() == drop_keys(old(p).deep_view(), section@, keys.deep_view()),
{
    let ghost start = p.deep_view();
    let ghost all = keys.deep_view();
    let mut i: usize = 0;
    assert(all.take(0) =~= seq![]);
    while i < keys.len()
        invariant
            i <= keys.len(),
            all == keys.deep_view(),
            p.deep_view() == drop_keys(start, section@, all.take(i as int)),
        decreases keys.len() - i,
    {
        assert(all.take(i + 1).drop_last() =~= all.take(i as int));
        assert(all.take(i + 1).last() == keys[i as int]@);
        p.remove_key(section, keys[i].as_str());
        i += 1;
    }
    assert(all.take(keys.len() as int) =~= all);
}

fn reset_keys(p: &mut Profile, section: &str, keys: &Vec<String>)
    ensures
        final(p).deep_view() == renew_keys(old(p).deep_view(), section@, keys.deep_view()),
{
    let ghost start = p.deep_view();
    let ghost all = keys.deep_view();
    let mut i: usize = 0;
    assert(all.take(0) =~= seq![]);
    while i < keys.len()
        invariant
            i <= keys.len(),
            all == keys.deep_view(),
            p.deep_view() == renew_keys(start, section@, all.take(i as int)),
        decreases keys.len() - i,
    {
        assert(all.take(i + 1).drop_last() =~= all.take(i as int));
        assert(all.take(i + 1).last() == keys[i as int]@);
        p.remove_key(section, keys[i].as_str());
        p.set(section, keys[i].as_str(), None);
        i += 1;
    }
    assert(all.take(keys.len() as int) =~= all);
}

/// Whether a package is one of the system packages of a profile.
pub fn is_system_pkg(profconf: &Profile, pkg: &str) -> (r: bool)
    ensures
        r == keys_of(profconf.deep_view(), "system-packages"@).contains(pkg@),
{
    listed(&profconf.keys("system-packages"), pkg)
}

/// Whether the system packages may not be changed.
pub fn is_system_locked(host: &Host) -> (r: bool)
    ensures
        r == host@.build.lock,
{
    host.build().lock
}

// --------------------------------------------------- packages and services

/// The profile of a snapshot before it was edited.
pub open spec fn old_profile(snapshot: Seq<char>) -> Seq<char> {
    volume(Volume::Etc, snapshot) + "/ash/profile"@
}

/// The profile in the temporary copy of a snapshot.
pub open spec fn new_profile(snapshot: Seq<char>) -> Seq<char> {
    rootfs(chr(snapshot)) + "/etc/ash/profile"@
}

/// A request that is made only where there is something to do.
pub open spec fn if_any(list: Seq<Seq<char>>, req: Req) -> Script<()> {
    if list.len() > 0 {
        done(req)
    } else {
        give(())
    }
}

/// A change of the system packages, which a lock rules out.
pub open spec fn system_change(
    build: Build,
    list: Seq<Seq<char>>,
    req: Req,
    complaint: Seq<char>,
) -> Script<()> {
    if list.len() > 0 && build.lock {
        fail(ErrorKind::Unsupported, complaint)
    } else {
        if_any(list, req)
    }
}

/// Installs and removes packages, and disables and enables services, as the step from the
/// profile `o` to the profile `n` says.
#[verifier::opaque]
pub open spec fn apply_script(build: Build, snapshot: Seq<char>, o: Table, n: Table) -> Script<()> {
    let old_system = keys_of(o, "system-packages"@);
    let old_pkgs = keys_of(o, "profile-packages"@);
    let old_enable = keys_of(o, "enable-services"@);
    let old_disable = keys_of(o, "disable-services"@);
    let new_system = keys_of(n, "system-packages"@);
    let new_pkgs = keys_of(n, "profile-packages"@);
    let new_enable = keys_of(n, "enable-services"@);
    let new_disable = keys_of(n, "disable-services"@);
    let add_system = without(new_system, old_system);
    let add_pkgs = without(new_pkgs, old_pkgs);
    let disable = without(old_enable, new_enable) + without(new_disable, old_disable);
    let enable = without(new_enable, old_enable);
    let drop_system = without(without(old_system, new_system), new_pkgs);
    let drop_pkgs = without(without(old_pkgs, new_pkgs), new_system);
    chain(
        system_change(
            build,
            add_system,
            Req::InstallInChroot { snapshot, pkgs: add_system, noconfirm: true },
            "Install system package(s) is not allowed."@,
        ),
        |u: ()|
            chain(
                if_any(
                    add_pkgs,
                    Req::InstallInChroot { snapshot, pkgs: add_pkgs, noconfirm: true },
                ),
                |u: ()|
                    chain(
                        if_any(
                            disable,
                            Req::DisableServices { snapshot, services: disable, chr: "chr"@ },
                        ),
                        |u: ()|
                            chain(
                                if_any(
                                    enable,
                                    Req::EnableServices {
                                        snapshot,
                                        services: enable,
                                        chr: "chr"@,
                                    },
                                ),
                                |u: ()|
                                    chain(
                                        system_change(
                                            build,
                                            drop_system,
                                            Req::UninstallInChroot {
                                                snapshot,
                                                pkgs: drop_system,
                                                noconfirm: true,
                                            },
                                            "Remove system package(s) is not allowed."@,
                                        ),
                                        |u: ()|
                                            if_any(
                                                drop_pkgs,
                                                Req::UninstallInChroot {
                                                    snapshot,
                                                    pkgs: drop_pkgs,
                                                    noconfirm: true,
                                                },
                                            ),
                                    ),
                            ),
                    ),
            ),
    )
}

fn done_if_any(host: &mut Host, list: &Vec<String>, req: Request) -> (r: Result<(), Halt>)
    ensures
        ran(old(host)@, final(host)@, r, if_any(list.deep_view(), req.deep_view())),
{
    if list.len() > 0 {
        host.done(req)
    } else {
        Ok(())
    }
}

fn change_system(host: &mut Host, list: &Vec<String>, req: Request, complaint: &str) -> (r: Result<
    (),
    Halt,
>)
    ensures
        ran(
            old(host)@,
            final(host)@,
            r,
            system_change(old(host)@.build, list.deep_view(), req.deep_view(), complaint@),
        ),
{
    if list.len() > 0 && is_system_locked(host) {
        return Err(failure(ErrorKind::Unsupported, complaint.to_owned()));
    }
    done_if_any(host, list, req)
}

fn apply(host: &mut Host, snapshot: &str, o: &Profile, n: &Profile) -> (r: Result<(), Halt>)
    ensures
        ran(
            old(host)@,
            final(host)@,
            r,
            apply_script(old(host)@.build, snapshot@, o.deep_view(), n.deep_view()),
        ),
{
    reveal(apply_script);
    let old_system = o.keys("system-packages");
    let old_pkgs = o.keys("profile-packages");
    let old_enable = o.keys("enable-services");
    let old_disable = o.keys("disable-services");
    let new_system = n.keys("system-packages");
    let new_pkgs = n.keys("profile-packages");
    let new_enable = n.keys("enable-services");
    let new_disable = n.keys("disable-services");

    let add_system = not_listed(&new_system, &old_system);
    change_system(
        host,
        &add_system,
        Request::InstallInChroot {
            snapshot: snapshot.to_owned(),
            pkgs: copied(&add_system),
            noconfirm: true,
        },
        "Install system package(s) is not allowed.",
    )?;
    let add_pkgs = not_listed(&new_pkgs, &old_pkgs);
    done_if_any(
        host,
        &add_pkgs,
        Request::InstallInChroot {
            snapshot: snapshot.to_owned(),
            pkgs: copied(&add_pkgs),
            noconfirm: true,
        },
    )?;
    let disable = joined_lists(
        &not_listed(&old_enable, &new_enable),
        &not_listed(&new_disable, &old_disable),
    );
    done_if_any(
        host,
        &disable,
        Request::DisableServices {
            snapshot: snapshot.to_owned(),
            services: copied(&disable),
            chr: "chr".to_owned(),
        },
    )?;
    let enable = not_listed(&new_enable, &old_enable);
    done_if_any(
        host,
        &enable,
        Request::EnableServices {
            snapshot: snapshot.to_owned(),
            services: copied(&enable),
            chr: "chr".to_owned(),
        },
    )?;
    let drop_system = not_listed(&not_listed(&old_system, &new_system), &new_pkgs);
    change_system(
        host,
        &drop_system,
        Request::UninstallInChroot {
            snapshot: snapshot.to_owned(),
            pkgs: copied(&drop_system),
            noconfirm: true,
        },
        "Remove system package(s) is not allowed.",
    )?;
    let drop_pkgs = not_listed(&not_listed(&old_pkgs, &new_pkgs), &new_system);
    done_if_any(
        host,
        &drop_pkgs,
        Request::UninstallInChroot {
            snapshot: snapshot.to_owned(),
            pkgs: copied(&drop_pkgs),
            noconfirm: true,
        },
    )
}

// ------------------------------------------------------ rewriting the profile

/// The names as a profile spells them.
pub open spec fn spellings(list: Seq<Seq<char>>) -> Seq<Seq<char>> {
    Seq::new(list.len(), |i: int| folded(list[i]))
}

fn spell(list: &Vec<String>) -> (r: Vec<String>)
    ensures
        r.deep_view() == spellings(list.deep_view()),
{
    let ghost all = list.deep_view();
    let mut r: Vec<String> = Vec::new();
    let mut i: usize = 0;
    while i < list.len()
        invariant
            i <= list.len(),
            all == list.deep_view(),
            r.deep_view() =~= spellings(all).take(i as int),
        decreases list.len() - i,
    {
        let ghost before = r.deep_view();
        r.push(to_lower(list[i].as_str()));
        assert(r.deep_view() =~= before.push(folded(all[i as int])));
        i += 1;
    }
    assert(spellings(all).take(list.len() as int) =~= spellings(all));
    r
}

/// Takes system packages that are not installed out of the profile; with a lock, they are an
/// error. The names in `installed` are spelled as a profile spells them.
#[verifier::opaque]
pub open spec fn sync_system(
    build: Build,
    file: Seq<char>,
    installed: Seq<Seq<char>>,
    t: Table,
) -> Script<Table> {
    let section = "system-packages"@;
    let gone = without(keys_of(t, section), installed);
    if !has_section(t, section) {
        give(t)
    } else if gone.len() > 0 && build.lock {
        fail(ErrorKind::Unsupported, "Remove system package(s) is not allowed."@)
    } else {
        let rest = drop_keys(t, section, gone);
        chain(done(Req::WriteProfile { path: file, profile: rest }), |u: ()| give(rest))
    }
}

/// Takes profile packages that are not installed out of the profile. The names in `installed` are
/// spelled as a profile spells them.
#[verifier::opaque]
pub open spec fn sync_pkgs(file: Seq<char>, installed: Seq<Seq<char>>, t: Table) -> Script<Table> {
    let section = "profile-packages"@;
    if !has_section(t, section) {
        give(t)
    } else {
        let rest = drop_keys(t, section, without(keys_of(t, section), installed));
        chain(done(Req::WriteProfile { path: file, profile: rest }), |u: ()| give(rest))
    }
}

/// The pass over the profile for one installed package: both sections are cleaned, and then
/// the package and those that are left among the profile packages are entered anew.
#[verifier::opaque]
pub open spec fn sync_one(
    build: Build,
    file: Seq<char>,
    installed: Seq<Seq<char>>,
    pkg: Seq<char>,
    t: Table,
) -> Script<Table> {
    chain(
        sync_system(build, file, installed, t),
        |t1: Table|
            chain(
                sync_pkgs(file, installed, t1),
                |t2: Table|
                    {
                        let keys = including(keys_of(t2, "profile-packages"@), pkg);
                        let t3 = renew_keys(t2, "profile-packages"@, keys);
                        chain(
                            done(Req::WriteProfile { path: file, profile: t3 }),
                            |u: ()| give(t3),
                        )
                    },
            ),
    )
}

/// One pass over the profile for each of some installed packages.
pub open spec fn sync_each(
    build: Build,
    file: Seq<char>,
    installed: Seq<Seq<char>>,
    todo: Seq<Seq<char>>,
    t: Table,
) -> Script<Table>
    decreases todo.len(), 0int,
{
    if todo.len() == 0 {
        give(t)
    } else {
        chain(
            sync_one(build, file, installed, todo[0], t),
            sync_rest(build, file, installed, todo.drop_first()),
        )
    }
}

/// `sync_each`, as a function of the profile.
pub open spec fn sync_rest(
    build: Build,
    file: Seq<char>,
    installed: Seq<Seq<char>>,
    todo: Seq<Seq<char>>,
) -> spec_fn(Table) -> Script<Table>
    decreases todo.len(), 1int,
{
    |t: Table| sync_each(build, file, installed, todo, t)
}

/// Takes services out of a section whose state is not the one that the section is for.
pub open spec fn prune_services(
    snapshot: Seq<char>,
    section: Seq<char>,
    wanted: bool,
    todo: Seq<Seq<char>>,
    t: Table,
) -> Script<Table>
    decreases todo.len(), 0int,
{
    if todo.len() == 0 {
        give(t)
    } else {
        chain(
            flag(Req::ServiceEnabled { snapshot, service: todo[0] }),
            prune_rest(snapshot, section, wanted, todo.drop_first(), todo[0], t),
        )
    }
}

/// `prune_services` after `service`, as a function of the state of that service.
pub open spec fn prune_rest(
    snapshot: Seq<char>,
    section: Seq<char>,
    wanted: bool,
    todo: Seq<Seq<char>>,
    service: Seq<char>,
    t: Table,
) -> spec_fn(bool) -> Script<Table>
    decreases todo.len(), 1int,
{
    |on: bool|
        prune_services(
            snapshot,
            section,
            wanted,
            todo,
            if on == wanted {
                t
            } else {
                table_without(t, section, service)
            },
        )
}

/// Cleans a section of services, and writes the profile.
#[verifier::opaque]
pub open spec fn sync_services(
    snapshot: Seq<char>,
    file: Seq<char>,
    section: Seq<char>,
    wanted: bool,
    t: Table,
) -> Script<Table> {
    if !has_section(t, section) {
        give(t)
    } else {
        chain(
            prune_services(snapshot, section, wanted, keys_of(t, section), t),
            |rest: Table|
                chain(done(Req::WriteProfile { path: file, profile: rest }), |u: ()| give(rest)),
        )
    }
}

/// Takes packages out of the profile packages that are system packages too.
pub open spec fn dedup(
    file: Seq<char>,
    todo: Seq<Seq<char>>,
    pkgs: Seq<Seq<char>>,
    t: Table,
) -> Script<Table>
    decreases todo.len(),
{
    if todo.len() == 0 {
        give(t)
    } else if pkgs.contains(todo[0]) {
        let rest = table_without(t, "profile-packages"@, todo[0]);
        chain(
            done(Req::WriteProfile { path: file, profile: rest }),
            |u: ()| dedup(file, todo.drop_first(), pkgs, rest),
        )
    } else {
        dedup(file, todo.drop_first(), pkgs, t)
    }
}

/// Brings the profile `n` in line with what is installed and enabled.
#[verifier::opaque]
pub open spec fn rewrite_script(
    build: Build,
    snapshot: Seq<char>,
    installed: Seq<Seq<char>>,
    n: Table,
) -> Script<()> {
    let file = new_profile(snapshot);
    chain(
        sync_each(build, file, spellings(installed), installed, n),
        |t1: Table|
            chain(
                sync_services(snapshot, file, "enable-services"@, true, t1),
                |t2: Table|
                    chain(
                        sync_services(snapshot, file, "disable-services"@, false, t2),
                        |t3: Table|
                            chain(
                                dedup(
                                    file,
                                    keys_of(t3, "system-packages"@),
                                    keys_of(t3, "profile-packages"@),
                                    t3,
                                ),
                                |t4: Table| done(Req::LockPackages { snapshot, profile: t4 }),
                            ),
                    ),
            ),
    )
}

/// What `check_profile` does.
#[verifier::opaque]
pub open spec fn check_profile_script(build: Build, snapshot: Seq<char>) -> Script<()> {
    chain(
        crate::script::sure(profile(Req::ReadProfile { path: old_profile(snapshot) })),
        |o: Table|
            chain(
                crate::script::sure(profile(Req::ReadProfile { path: new_profile(snapshot) })),
                |n: Table|
                    chain(
                        apply_script(build, snapshot, o, n),
                        |u: ()|
                            chain(
                                texts(Req::NoDepPkgList { snapshot, chr: "chr"@ }),
                                |installed: Seq<Seq<char>>|
                                    rewrite_script(build, snapshot, installed, n),
                            ),
                    ),
            ),
    )
}

fn write_profile(host: &mut Host, file: &str, p: &Profile) -> (r: Result<(), Halt>)
    ensures
        ran(
            old(host)@,
            final(host)@,
            r,
            done(Req::WriteProfile { path: file@, profile: p.deep_view() }),
        ),
{
    host.done(Request::WriteProfile { path: file.to_owned(), profile: p.clone() })
}

fn clean_system(host: &mut Host, file: &str, installed: &Vec<String>, p: Profile) -> (r: Result<
    Profile,
    Halt,
>)
    ensures
        ran(
            old(host)@,
            final(host)@,
            r,
            sync_system(old(host)@.build, file@, installed.deep_view(), p.deep_view()),
        ),
{
    reveal(sync_system);
    if !p.has("system-packages") {
        return Ok(p);
    }
    let gone = not_listed(&p.keys("system-packages"), installed);
    if gone.len() > 0 && is_system_locked(host) {
        return Err(
            failure(
                ErrorKind::Unsupported,
                "Remove system package(s) is not allowed.".to_owned(),
            ),
        );
    }
    let mut rest = p;
    remove_keys(&mut rest, "system-packages", &gone);
    write_profile(host, file, &rest)?;
    Ok(rest)
}

fn clean_pkgs(host: &mut Host, file: &str, installed: &Vec<String>, p: Profile) -> (r: Result<
    Profile,
    Halt,
>)
    ensures
        ran(
            old(host)@,
            final(host)@,
            r,
            sync_pkgs(file@, installed.deep_view(), p.deep_view()),
        ),
{
    reveal(sync_pkgs);
    if !p.has("profile-packages") {
        return Ok(p);
    }
    let gone = not_listed(&p.keys("profile-packages"), installed);
    let mut rest = p;
    remove_keys(&mut rest, "profile-packages", &gone);
    write_profile(host, file, &rest)?;
    Ok(rest)
}

fn pass(host: &mut Host, file: &str, installed: &Vec<String>, pkg: &str, p: Profile) -> (r: Result<
    Profile,
    Halt,
>)
    ensures
        ran(
            old(host)@,
            final(host)@,
            r,
            sync_one(old(host)@.build, file@, installed.deep_view(), pkg@, p.deep_view()),
        ),
{
    reveal(sync_one);
    let p1 = clean_system(host, file, installed, p)?;
    let p2 = clean_pkgs(host, file, installed, p1)?;
    let mut keys = p2.keys("profile-packages");
    let ghost before = keys.deep_view();
    if !listed(&keys, pkg) {
        keys.push(pkg.to_owned());
        assert(keys.deep_view() =~= before.push(pkg@));
    }
    let mut p3 = p2;
    reset_keys(&mut p3, "profile-packages", &keys);
    write_profile(host, file, &p3)?;
    Ok(p3)
}

fn passes(
    host: &mut Host,
    file: &str,
    installed: &Vec<String>,
    todo: &Vec<String>,
    p: Profile,
) -> (r: Result<Profile, Halt>)
    ensures
        ran(
            old(host)@,
            final(host)@,
            r,
            sync_each(
                old(host)@.build,
                file@,
                installed.deep_view(),
                todo.deep_view(),
                p.deep_view(),
            ),
        ),
{
    let ghost names = installed.deep_view();
    let ghost all = todo.deep_view();
    let ghost build = host@.build;
    let mut now = p;
    let mut i: usize = 0;
    assert(all.skip(0) =~= all);
    while i < todo.len()
        invariant
            i <= todo.len(),
            names == installed.deep_view(),
            all == todo.deep_view(),
            build == host@.build,
            build == old(host)@.build,
            run(old(host)@, sync_each(build, file@, names, all, p.deep_view())) == run(
                host@,
                sync_each(build, file@, names, all.skip(i as int), now.deep_view()),
            ),
        decreases todo.len() - i,
    {
        assert(all.skip(i as int).drop_first() =~= all.skip(i + 1));
        assert(all.skip(i as int)[0] == todo[i as int]@);
        now = pass(host, file, installed, todo[i].as_str(), now)?;
        i += 1;
    }
    Ok(now)
}

fn prune(host: &mut Host, snapshot: &str, section: &str, wanted: bool, keys: &Vec<String>, p: Profile) -> (r:
    Result<Profile, Halt>)
    ensures
        ran(
            old(host)@,
            final(host)@,
            r,
            prune_services(snapshot@, section@, wanted, keys.deep_view(), p.deep_view()),
        ),
{
    let ghost all = keys.deep_view();
    let mut now = p;
    let mut i: usize = 0;
    assert(all.skip(0) =~= all);
    while i < keys.len()
        invariant
            i <= keys.len(),
            all == keys.deep_view(),
            run(
                old(host)@,
                prune_services(snapshot@, section@, wanted, all, p.deep_view()),
            ) == run(
                host@,
                prune_services(
                    snapshot@,
                    section@,
                    wanted,
                    all.skip(i as int),
                    now.deep_view(),
                ),
            ),
        decreases keys.len() - i,
    {
        assert(all.skip(i as int).drop_first() =~= all.skip(i + 1));
        assert(all.skip(i as int)[0] == keys[i as int]@);
        let on = host.flag(
            Request::ServiceEnabled {
                snapshot: snapshot.to_owned(),
                service: keys[i].clone(),
            },
        )?;
        if on != wanted {
            now.remove_key(section, keys[i].as_str());
        }
        i += 1;
    }
    Ok(now)
}

fn clean_services(
    host: &mut Host,
    snapshot: &str,
    file: &str,
    section: &str,
    wanted: bool,
    p: Profile,
) -> (r: Result<Profile, Halt>)
    ensures
        ran(
            old(host)@,
            final(host)@,
            r,
            sync_services(snapshot@, file@, section@, wanted, p.deep_view()),
        ),
{
    reveal(sync_services);
    if !p.has(section) {
        return Ok(p);
    }
    let keys = p.keys(section);
    let rest = prune(host, snapshot, section, wanted, &keys, p)?;
    write_profile(host, file, &rest)?;
    Ok(rest)
}

fn drop_doubles(
    host: &mut Host,
    file: &str,
    system: &Vec<String>,
    pkgs: &Vec<String>,
    p: Profile,
) -> (r: Result<Profile, Halt>)
    ensures
        ran(
            old(host)@,
            final(host)@,
            r,
            dedup(file@, system.deep_view(), pkgs.deep_view(), p.deep_view()),
        ),
{
    let ghost all = system.deep_view();
    let ghost had = pkgs.deep_view();
    let mut now = p;
    let mut i: usize = 0;
    assert(all.skip(0) =~= all);
    while i < system.len()
        invariant
            i <= system.len(),
            all == system.deep_view(),
            had == pkgs.deep_view(),
            run(old(host)@, dedup(file@, all, had, p.deep_view())) == run(
                host@,
                dedup(file@, all.skip(i as int), had, now.deep_view()),
            ),
        decreases system.len() - i,
    {
        assert(all.skip(i as int).drop_first() =~= all.skip(i + 1));
        assert(all.skip(i as int)[0] == system[i as int]@);
        if listed(pkgs, system[i].as_str()) {
            now.remove_key("profile-packages", system[i].as_str());
            write_profile(host, file, &now)?;
        }
        i += 1;
    }
    Ok(now)
}

fn rewrite(host: &mut Host, snapshot: &str, installed: &Vec<String>, n: Profile) -> (r: Result<
    (),
    Halt,
>)
    ensures
        ran(
            old(host)@,
            final(host)@,
            r,
            rewrite_script(old(host)@.build, snapshot@, installed.deep_view(), n.deep_view()),
        ),
{
    reveal(rewrite_script);
    let file = below(chr_name(snapshot).as_str(), "/etc/ash/profile");
    let p1 = passes(host, file.as_str(), &spell(installed), installed, n)?;
    let p2 = clean_services(host, snapshot, file.as_str(), "enable-services", true, p1)?;
    let p3 = clean_services(host, snapshot, file.as_str(), "disable-services", false, p2)?;
    let system = p3.keys("system-packages");
    let pkgs = p3.keys("profile-packages");
    let p4 = drop_doubles(host, file.as_str(), &system, &pkgs, p3)?;
    host.done(Request::LockPackages { snapshot: snapshot.to_owned(), profile: p4 })
}

/// Carries out the changes of an edited profile in a prepared snapshot, and then brings the
/// profile in line with what is installed and enabled there.
pub fn check_profile(host: &mut Host, snapshot: &str) -> (r: Result<(), Halt>)
    ensures
        ran(old(host)@, final(host)@, r, check_profile_script(old(host)@.build, snapshot@)),
{
    reveal(check_profile_script);
    let before = cat(volume_path(Volume::Etc, snapshot).as_str(), "/ash/profile");
    let o = sure(host.profile(Request::ReadProfile { path: before }))?;
    let after = below(chr_name(snapshot).as_str(), "/etc/ash/profile");
    let n = sure(host.profile(Request::ReadProfile { path: after }))?;
    apply(host, snapshot, &o, &n)?;
    let installed = host.texts(
        Request::NoDepPkgList { snapshot: snapshot.to_owned(), chr: "chr".to_owned() },
    )?;
    rewrite(host, snapshot, &installed, n)
}

// --------------------------------------------------------------------- laws

/// What is left of a list without another one is what the first has and the second has not.
pub proof fn law_without(list: Seq<Seq<char>>, other: Seq<Seq<char>>, item: Seq<char>)
    ensures
        without(list, other).contains(item) == (list.contains(item) && !other.contains(item)),
    decreases list.len(),
{
    if list.len() > 0 {
        let rest = list.drop_last();
        law_without(rest, other, item);
        assert(list =~= rest.push(list.last()));
        assert(list.contains(item) == (rest.contains(item) || list.last() == item)) by {
            if rest.contains(item) {
                let j = choose|j: int| 0 <= j < rest.len() && rest[j] == item;
                assert(list[j] == item);
            }
            if list.last() == item {
                assert(list[list.len() - 1] == item);
            }
            if list.contains(item) {
                let j = choose|j: int| 0 <= j < list.len() && list[j] == item;
                if j < rest.len() {
                    assert(rest[j] == item);
                }
            }
        }
        let kept = without(rest, other);
        assert(kept.push(list.last()).contains(item) == (kept.contains(item) || list.last()
            == item)) by {
            let more = kept.push(list.last());
            if kept.contains(item) {
                let j = choose|j: int| 0 <= j < kept.len() && kept[j] == item;
                assert(more[j] == item);
            }
            if list.last() == item {
                assert(more[more.len() - 1] == item);
            }
            if more.contains(item) {
                let j = choose|j: int| 0 <= j < more.len() && more[j] == item;
                if j < kept.len() {
                    assert(kept[j] == item);
                }
            }
        }
    }
}

/// Where system packages are locked, a profile that adds some is refused before anything else
/// is done.
pub proof fn law_lock(snapshot: Seq<char>, build: Build, o: Table, n: Table)
    requires
        build.lock,
        without(keys_of(n, "system-packages"@), keys_of(o, "system-packages"@)).len() > 0,
    ensures
        apply_script(build, snapshot, o, n) == fail::<()>(
            ErrorKind::Unsupported,
            "Install system package(s) is not allowed."@,
        ),
{
    reveal(apply_script);
}

/// Where system packages are locked, none is installed or removed: such a change is refused
/// without a request.
pub proof fn law_lock_refuses(
    build: Build,
    list: Seq<Seq<char>>,
    req: Req,
    complaint: Seq<char>,
)
    requires
        build.lock,
        list.len() > 0,
    ensures
        system_change(build, list, req, complaint) == fail::<()>(
            ErrorKind::Unsupported,
            complaint,
        ),
{
}

}
