//! The machine: clock, firmware and subvolumes.

use vstd::prelude::*;
use crate::chroots::{shell, shell_request};
use crate::host::{ran, sure, Halt, Host};
use crate::request::{ExitStatus, Fault, Req, Request};
use crate::script::{chain, crash, give, listing, say, status, text, warn, Script, Stop};
use crate::text::{
    cat3, contains, holds, join, joined, lines, occurs_at, split_lines, split_words, starts_with,
    words,
};

verus! {

broadcast use crate::script::group_run;

// --------------------------------------------------------------------- clock

/// The first line that begins with `date:`.
pub open spec fn date_line(list: Seq<Seq<char>>) -> Option<Seq<char>>
    decreases list.len(),
{
    if list.len() == 0 {
        None
    } else if occurs_at(list[0], "date:"@, 0) {
        Some(list[0])
    } else {
        date_line(list.drop_first())
    }
}

/// The day, month, year and time that the header of a web page gives: the words from the third
/// to the sixth of its date line.
pub open spec fn header_date(header: Seq<char>) -> Option<Seq<char>> {
    match date_line(lines(header)) {
        Some(line) => {
            let list = words(line);
            if list.len() >= 6 {
                Some(joined(list.subrange(2, 6), " "@))
            } else {
                None
            }
        },
        None => None,
    }
}

/// Sets the clock.
pub open spec fn set_clock(date: Seq<char>) -> Req {
    Req::RunQuiet { program: "date"@, args: seq!["-s"@, "\"("@ + date + ")Z\""@] }
}

/// What `sync_time` does.
#[verifier::opaque]
pub open spec fn sync_time_script() -> Script<()> {
    chain(
        text(Req::Fetch { url: "https://google.com"@ }),
        |header: Seq<char>|
            match header_date(header) {
                Some(date) => chain(status(set_clock(date)), |code: ExitStatus| give(())),
                None => crash(),
            },
    )
}

fn find_date_line(list: &Vec<String>) -> (r: Option<String>)
    ensures
        r.deep_view() == date_line(list.deep_view()),
{
    let ghost all = list.deep_view();
    let mut i: usize = 0;
    assert(all.skip(0) =~= all);
    while i < list.len()
        invariant
            i <= list.len(),
            all == list.deep_view(),
            date_line(all) == date_line(all.skip(i as int)),
        decreases list.len() - i,
    {
        assert(all.skip(i as int).drop_first() =~= all.skip(i + 1));
        assert(all.skip(i as int)[0] == list[i as int]@);
        if starts_with(list[i].as_str(), "date:") {
            return Some(list[i].clone());
        }
        i += 1;
    }
    None
}

/// The date that the header of a web page gives.
pub fn read_header_date(header: &str) -> (r: Option<String>)
    ensures
        r.deep_view() == header_date(header@),
{
    match find_date_line(&split_lines(header)) {
        Some(line) => {
            let list = split_words(line.as_str());
            if list.len() >= 6 {
                let date = vec![
                    list[2].clone(),
                    list[3].clone(),
                    list[4].clone(),
                    list[5].clone(),
                ];
                assert(date.deep_view() =~= list.deep_view().subrange(2, 6));
                Some(join(&date, " "))
            } else {
                None
            }
        },
        None => None,
    }
}

/// Sets the clock by the header of a web page.
pub fn sync_time(host: &mut Host) -> (r: Result<(), Halt>)
    ensures
        ran(old(host)@, final(host)@, r, sync_time_script()),
{
    reveal(sync_time_script);
    let header = host.text(Request::Fetch { url: "https://google.com".to_owned() })?;
    match read_header_date(header.as_str()) {
        Some(date) => {
            let setting = cat3("\"(", date.as_str(), ")Z\"");
            let args = vec!["-s".to_owned(), setting];
            assert(args.deep_view() =~= seq!["-s"@, "\"("@ + date@ + ")Z\""@]);
            host.status(Request::RunQuiet { program: "date".to_owned(), args })?;
            Ok(())
        },
        None => Err(Halt::Panicked),
    }
}

// ------------------------------------------------------------- other matters

/// What `check_update` does.
#[verifier::opaque]
pub open spec fn check_update_script() -> Script<()> {
    chain(
        listing(Req::ReadLines { path: "/.snapshots/ash/upstate"@ }),
        |read: (Seq<Seq<char>>, Option<Fault>)|
            {
                let list = read.0;
                if list.len() < 2 {
                    match read.1 {
                        Some(e) => Script::End(Err(Stop::Failed(e))),
                        None => crash(),
                    }
                } else {
                    chain(
                        if holds(list[0], "1"@) {
                            warn("Last update on "@ + list[1] + " failed."@)
                        } else {
                            give(())
                        },
                        |u: ()|
                            if holds(list[0], "0"@) {
                                say("Last update on "@ + list[1] + " completed successfully."@)
                            } else {
                                give(())
                            },
                    )
                }
            },
    )
}

/// What `efi_boot_order` does.
#[verifier::opaque]
pub open spec fn efi_boot_order_script() -> Script<()> {
    say("This feature is currently under construction."@)
}

/// What `list_subvolumes` does.
#[verifier::opaque]
pub open spec fn list_subvolumes_script() -> Script<()> {
    chain(
        crate::script::sure(
            status(shell("btrfs sub list / | grep -i _linux | sort -f -k 9"@)),
        ),
        |code: ExitStatus| give(()),
    )
}

/// The boot entry of the other system.
pub open spec fn windows_entry() -> Req {
    Req::Run {
        program: "efibootmgr"@,
        args: seq!["-c"@, "-L"@, "'Windows' -l '\\EFI\\BOOT\\BOOTX64.efi'"@],
    }
}

/// What `switch_to_windows` does.
#[verifier::opaque]
pub open spec fn switch_to_windows_script() -> Script<ExitStatus> {
    crate::script::sure(status(windows_entry()))
}

/// Says whether the last update was successful.
pub fn check_update(host: &mut Host) -> (r: Result<(), Halt>)
    ensures
        ran(old(host)@, final(host)@, r, check_update_script()),
{
    reveal(check_update_script);
    let (list, broken) = host.listing(
        Request::ReadLines { path: "/.snapshots/ash/upstate".to_owned() },
    )?;
    if list.len() < 2 {
        return match broken {
            Some(e) => Err(Halt::Failed(e)),
            None => Err(Halt::Panicked),
        };
    }
    if contains(list[0].as_str(), "1") {
        host.warn(cat3("Last update on ", list[1].as_str(), " failed."))?;
    }
    if contains(list[0].as_str(), "0") {
        host.say(cat3("Last update on ", list[1].as_str(), " completed successfully."))?;
    }
    Ok(())
}

/// Says that the boot order cannot be changed yet.
pub fn efi_boot_order(host: &mut Host) -> (r: Result<(), Halt>)
    ensures
        ran(old(host)@, final(host)@, r, efi_boot_order_script()),
{
    reveal(efi_boot_order_script);
    host.say("This feature is currently under construction.".to_owned())
}

/// Shows the subvolumes of the running distribution.
pub fn list_subvolumes(host: &mut Host) -> (r: Result<(), Halt>)
    ensures
        ran(old(host)@, final(host)@, r, list_subvolumes_script()),
{
    reveal(list_subvolumes_script);
    let line = "btrfs sub list / | grep -i _linux | sort -f -k 9".to_owned();
    sure(host.status(shell_request(line)))?;
    Ok(())
}

/// Adds a boot entry for the other system.
pub fn switch_to_windows(host: &mut Host) -> (r: Result<ExitStatus, Halt>)
    ensures
        ran(old(host)@, final(host)@, r, switch_to_windows_script()),
{
    reveal(switch_to_windows_script);
    let args = vec![
        "-c".to_owned(),
        "-L".to_owned(),
        "'Windows' -l '\\EFI\\BOOT\\BOOTX64.efi'".to_owned(),
    ];
    assert(args.deep_view() =~= seq![
        "-c"@,
        "-L"@,
        "'Windows' -l '\\EFI\\BOOT\\BOOTX64.efi'"@,
    ]);
    sure(host.status(Request::Run { program: "efibootmgr".to_owned(), args }))
}

}
