//! The checks that stand before a snapshot is changed.

use vstd::prelude::*;
use crate::host::{failure, ran, Halt, Host};
use crate::paths::{chr, chr_name, rootfs, rootfs_path};
use crate::request::{ErrorKind, Req, Request};
use crate::script::{chain, fail, flag, give, warn, Script};
use crate::text::{cat5, same};

verus! {

broadcast use crate::script::group_run;

/// The complaint about a snapshot that is not there.
pub open spec fn missing(verb: Seq<char>, snapshot: Seq<char>) -> Seq<char> {
    "Cannot "@ + verb + " as snapshot "@ + snapshot + " doesn't exist."@
}

/// The complaint about a snapshot whose temporary copy is there.
pub open spec fn in_use(snapshot: Seq<char>) -> Seq<char> {
    "Snapshot "@ + snapshot
        + " appears to be in use. If you're certain it's not in use, clear lock with 'ash unlock -s "@
        + snapshot + "'."@
}

/// The complaint about a change of the base snapshot.
pub open spec fn base_fixed() -> Seq<char> {
    "Changing base snapshot is not allowed."@
}

/// A snapshot may be changed where it is there, is not in use and is not the base snapshot.
#[verifier::opaque]
pub open spec fn guard_script(verb: Seq<char>, snapshot: Seq<char>) -> Script<()> {
    chain(
        flag(Req::Exists { path: rootfs(snapshot) }),
        |there: bool|
            if !there {
                fail(ErrorKind::NotFound, missing(verb, snapshot))
            } else {
                chain(
                    flag(Req::Exists { path: rootfs(chr(snapshot)) }),
                    |busy: bool|
                        if busy {
                            fail(ErrorKind::Unsupported, in_use(snapshot))
                        } else if snapshot == "0"@ {
                            fail(ErrorKind::Unsupported, base_fixed())
                        } else {
                            give(())
                        },
                )
            },
    )
}

/// The same check, where a complaint is shown and is no error.
#[verifier::opaque]
pub open spec fn ready_script(verb: Seq<char>, snapshot: Seq<char>) -> Script<bool> {
    chain(
        flag(Req::Exists { path: rootfs(snapshot) }),
        |there: bool|
            if !there {
                chain(warn(missing(verb, snapshot)), |u: ()| give(false))
            } else {
                chain(
                    flag(Req::Exists { path: rootfs(chr(snapshot)) }),
                    |busy: bool|
                        if busy {
                            chain(warn(in_use(snapshot)), |u: ()| give(false))
                        } else if snapshot == "0"@ {
                            chain(warn(base_fixed()), |u: ()| give(false))
                        } else {
                            give(true)
                        },
                )
            },
    )
}

/// `p`, where something may be done.
pub open spec fn when_ready(p: Script<()>) -> spec_fn(bool) -> Script<()> {
    |may: bool|
        if may {
            p
        } else {
            give(())
        }
}

/// Goes on with `p` where a snapshot may be changed.
pub open spec fn if_ready(verb: Seq<char>, snapshot: Seq<char>, p: Script<()>) -> Script<()> {
    chain(ready_script(verb, snapshot), when_ready(p))
}

/// The complaint about a snapshot that is not there.
pub fn missing_text(verb: &str, snapshot: &str) -> (r: String)
    ensures
        r@ == missing(verb@, snapshot@),
{
    cat5("Cannot ", verb, " as snapshot ", snapshot, " doesn't exist.")
}

/// The complaint about a snapshot whose temporary copy is there.
pub fn in_use_text(snapshot: &str) -> (r: String)
    ensures
        r@ == in_use(snapshot@),
{
    cat5(
        "Snapshot ",
        snapshot,
        " appears to be in use. If you're certain it's not in use, clear lock with 'ash unlock -s ",
        snapshot,
        "'.",
    )
}

/// Whether a path exists.
pub fn exists_at(host: &mut Host, path: String) -> (r: Result<bool, Halt>)
    ensures
        ran(old(host)@, final(host)@, r, flag(Req::Exists { path: path@ })),
{
    host.flag(Request::Exists { path })
}

/// Fails unless a snapshot may be changed.
pub fn guard(host: &mut Host, verb: &str, snapshot: &str) -> (r: Result<(), Halt>)
    ensures
        ran(old(host)@, final(host)@, r, guard_script(verb@, snapshot@)),
{
    reveal(guard_script);
    if !exists_at(host, rootfs_path(snapshot))? {
        Err(failure(ErrorKind::NotFound, missing_text(verb, snapshot)))
    } else if exists_at(host, rootfs_path(chr_name(snapshot).as_str()))? {
        Err(failure(ErrorKind::Unsupported, in_use_text(snapshot)))
    } else if same(snapshot, "0") {
        Err(
            failure(
                ErrorKind::Unsupported,
                "Changing base snapshot is not allowed.".to_owned(),
            ),
        )
    } else {
        Ok(())
    }
}

/// Whether a snapshot may be changed; shows a complaint where it may not.
pub fn ready(host: &mut Host, verb: &str, snapshot: &str) -> (r: Result<bool, Halt>)
    ensures
        ran(old(host)@, final(host)@, r, ready_script(verb@, snapshot@)),
{
    reveal(ready_script);
    if !exists_at(host, rootfs_path(snapshot))? {
        host.warn(missing_text(verb, snapshot))?;
        Ok(false)
    } else if exists_at(host, rootfs_path(chr_name(snapshot).as_str()))? {
        host.warn(in_use_text(snapshot))?;
        Ok(false)
    } else if same(snapshot, "0") {
        host.warn("Changing base snapshot is not allowed.".to_owned())?;
        Ok(false)
    } else {
        Ok(true)
    }
}

}
