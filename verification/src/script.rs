//! What an operation does, as a script: the requests that it makes of its surroundings, each
//! with what follows for every answer, and how it ends.
//!
//! Operations are run against the answers that are known so far. A run that needs one more
//! answer stops at the request that is pending; once that was performed, the operation is run
//! again with one more answer. The laws below say that the second run makes the requests of
//! the first in the same order, and the pending one after them.

use vstd::prelude::*;
use crate::profile::{well_formed, Table};
use crate::request::{Answer, ErrorKind, ExitStatus, Fault, Found, LocalTime, Req};
use crate::text::{ascii, lowered, small_text, trimmed};

verus! {

/// How the program was built.
#[derive(Clone, Copy, Debug, PartialEq, Eq, Structural)]
pub struct Build {
    /// The package manager is pacman.
    pub pacman: bool,
    /// System packages are locked.
    pub lock: bool,
}

/// Why an operation ended without a result.
pub enum Stop {
    /// It failed.
    Failed(Fault),
    /// It panicked.
    Panicked,
    /// It ended the process with this code.
    Exited(i32),
    /// A reply was of the wrong kind.
    Misfit,
}

/// An operation.
pub enum Script<T> {
    /// It is over.
    End(Result<T, Stop>),
    /// It makes a request; what follows depends on the answer.
    Ask(Req, spec_fn(Answer) -> Script<T>),
    /// It puts a question to the user until the reply is a yes or a no.
    Confirm(Seq<char>, spec_fn(Result<bool, Stop>) -> Script<T>),
}

/// Why a run is over.
pub enum Halted {
    /// The answer to this request is needed.
    Pending(Req),
    /// The operation ended without a result.
    Stopped(Stop),
}

/// The answers that are known, and the requests that were made so far.
#[verifier::ext_equal]
pub struct Session {
    pub build: Build,
    pub answers: Seq<Answer>,
    pub asked: Seq<Req>,
}

/// The end of a run.
pub struct Run<T> {
    pub now: Session,
    pub out: Result<T, Halted>,
}

impl Session {
    /// The answer to the next request is known.
    pub open spec fn ready(self) -> bool {
        self.asked.len() < self.answers.len()
    }

    /// The answer to the next request.
    pub open spec fn next(self) -> Answer {
        self.answers[self.asked.len() as int]
    }

    /// One more request was made.
    pub open spec fn after(self, req: Req) -> Session {
        Session { build: self.build, answers: self.answers, asked: self.asked.push(req) }
    }
}

// ------------------------------------------------------------------- answers

/// A failure where the program counts on success.
pub open spec fn unwrapped<T>(r: Result<T, Stop>) -> Result<T, Stop> {
    match r {
        Err(Stop::Failed(_)) => Err(Stop::Panicked),
        _ => r,
    }
}

/// An answer to a request that is to be carried out.
pub open spec fn as_done(a: Answer) -> Result<(), Stop> {
    match a {
        Answer::Done => Ok(()),
        Answer::Failed(e) => Err(Stop::Failed(e)),
        _ => Err(Stop::Misfit),
    }
}

/// An answer that is a yes or a no.
pub open spec fn as_flag(a: Answer) -> Result<bool, Stop> {
    match a {
        Answer::Flag(b) => Ok(b),
        Answer::Failed(e) => Err(Stop::Failed(e)),
        _ => Err(Stop::Misfit),
    }
}

/// An answer that is a text.
pub open spec fn as_text(a: Answer) -> Result<Seq<char>, Stop> {
    match a {
        Answer::Text(t) => Ok(t),
        Answer::Failed(e) => Err(Stop::Failed(e)),
        _ => Err(Stop::Misfit),
    }
}

/// An answer that is a list of texts.
pub open spec fn as_texts(a: Answer) -> Result<Seq<Seq<char>>, Stop> {
    match a {
        Answer::Texts(l) => Ok(l),
        Answer::Failed(e) => Err(Stop::Failed(e)),
        _ => Err(Stop::Misfit),
    }
}

/// An answer that lists paths or lines.
pub open spec fn as_listing(a: Answer) -> Result<(Seq<Seq<char>>, Option<Fault>), Stop> {
    match a {
        Answer::Listing(l, e) => Ok((l, e)),
        Answer::Failed(e) => Err(Stop::Failed(e)),
        _ => Err(Stop::Misfit),
    }
}

/// An answer that tells what a walk found.
pub open spec fn as_entries(a: Answer) -> Result<(Seq<Found>, Option<Fault>), Stop> {
    match a {
        Answer::Entries(l, e) => Ok((l, e)),
        Answer::Failed(e) => Err(Stop::Failed(e)),
        _ => Err(Stop::Misfit),
    }
}

/// An answer that tells how a process ended.
pub open spec fn as_status(a: Answer) -> Result<ExitStatus, Stop> {
    match a {
        Answer::Status(s) => Ok(s),
        Answer::Failed(e) => Err(Stop::Failed(e)),
        _ => Err(Stop::Misfit),
    }
}

/// An answer that numbers a loaded tree.
pub open spec fn as_tree(a: Answer) -> Result<u64, Stop> {
    match a {
        Answer::Tree(n) => Ok(n),
        Answer::Failed(e) => Err(Stop::Failed(e)),
        _ => Err(Stop::Misfit),
    }
}

/// An answer that is a profile. There is none in which a section or a key stands twice.
pub open spec fn as_profile(a: Answer) -> Result<Table, Stop> {
    match a {
        Answer::Profile(t) => if well_formed(t) {
            Ok(t)
        } else {
            Err(Stop::Misfit)
        },
        Answer::Failed(e) => Err(Stop::Failed(e)),
        _ => Err(Stop::Misfit),
    }
}

/// An answer that is a moment.
pub open spec fn as_time(a: Answer) -> Result<LocalTime, Stop> {
    match a {
        Answer::Time(t) => Ok(t),
        Answer::Failed(e) => Err(Stop::Failed(e)),
        _ => Err(Stop::Misfit),
    }
}

// ------------------------------------------------------------------- running

/// The line that puts a question to the user.
pub open spec fn prompt(msg: Seq<char>) -> Seq<char> {
    msg + " (y/n)"@
}

/// The line that follows a reply that is neither yes nor no.
pub open spec fn bad_choice() -> Req {
    Req::Eprint { text: "Invalid choice!"@ }
}

/// What a typed line means: yes, no, or neither.
pub open spec fn choice(line: Seq<char>) -> Option<bool> {
    word_choice(lowered(trimmed(line)))
}

/// What a word in lower case means: yes, no, or neither.
pub open spec fn word_choice(word: Seq<char>) -> Option<bool> {
    if word == "yes"@ || word == "y"@ {
        Some(true)
    } else if word == "no"@ || word == "n"@ {
        Some(false)
    } else {
        None
    }
}

/// A run that stops at a request.
pub open spec fn pending<T>(s: Session, req: Req) -> Run<T> {
    Run { now: s, out: Err(Halted::Pending(req)) }
}

/// A run that ends without a result.
pub open spec fn stopped<T>(s: Session, e: Stop) -> Run<T> {
    Run { now: s, out: Err(Halted::Stopped(e)) }
}

/// The dialogue that puts a question to the user until the reply is a yes or a no.
pub open spec fn dialogue(s: Session, msg: Seq<char>) -> Run<bool>
    decreases s.answers.len() - s.asked.len(),
{
    let ask = Req::Print { text: prompt(msg) };
    let asked = s.after(ask);
    let read = asked.after(Req::ReadLine);
    if !s.ready() {
        pending(s, ask)
    } else {
        match unwrapped(as_done(s.next())) {
            Err(e) => stopped(asked, e),
            Ok(_) => if !asked.ready() {
                pending(asked, Req::ReadLine)
            } else {
                match unwrapped(as_text(asked.next())) {
                    Err(e) => stopped(read, e),
                    Ok(line) => match choice(line) {
                        Some(b) => Run { now: read, out: Ok(b) },
                        None => if !read.ready() {
                            pending(read, bad_choice())
                        } else {
                            match unwrapped(as_done(read.next())) {
                                Err(e) => stopped(read.after(bad_choice()), e),
                                Ok(_) => dialogue(read.after(bad_choice()), msg),
                            }
                        },
                    },
                }
            },
        }
    }
}

/// Running a script against the answers that are known.
pub open spec fn run<T>(s: Session, p: Script<T>) -> Run<T>
    decreases p,
{
    match p {
        Script::End(Ok(v)) => Run { now: s, out: Ok(v) },
        Script::End(Err(e)) => stopped(s, e),
        Script::Ask(req, k) => if s.ready() {
            run(s.after(req), k(s.next()))
        } else {
            pending(s, req)
        },
        Script::Confirm(msg, k) => {
            let talk = dialogue(s, msg);
            match talk.out {
                Ok(b) => run(talk.now, k(Ok(b))),
                Err(Halted::Stopped(e)) => run(talk.now, k(Err(e))),
                Err(Halted::Pending(req)) => pending(talk.now, req),
            }
        },
    }
}

// ---------------------------------------------------------------- composing

/// `p`, and then what `k` makes of its end.
pub open spec fn follow<T, U>(p: Script<T>, k: spec_fn(Result<T, Stop>) -> Script<U>) -> Script<U>
    decreases p,
{
    match p {
        Script::End(r) => k(r),
        Script::Ask(req, c) => Script::Ask(req, |a: Answer| follow(c(a), k)),
        Script::Confirm(msg, c) => Script::Confirm(
            msg,
            |r: Result<bool, Stop>| follow(c(r), k),
        ),
    }
}

/// Going on with `k` after a run.
pub open spec fn run_on<T, U>(r: Run<T>, k: spec_fn(Result<T, Stop>) -> Script<U>) -> Run<U> {
    match r.out {
        Ok(v) => run(r.now, k(Ok(v))),
        Err(Halted::Stopped(e)) => run(r.now, k(Err(e))),
        Err(Halted::Pending(req)) => pending(r.now, req),
    }
}

/// To run two scripts in a row is to run the first and to go on with the second.
pub broadcast proof fn lemma_run_follow<T, U>(
    s: Session,
    p: Script<T>,
    k: spec_fn(Result<T, Stop>) -> Script<U>,
)
    ensures
        #[trigger] run(s, follow(p, k)) == run_on(run(s, p), k),
    decreases p,
{
    match p {
        Script::End(r) => {},
        Script::Ask(req, c) => {
            if s.ready() {
                lemma_run_follow(s.after(req), c(s.next()), k);
            }
        },
        Script::Confirm(msg, c) => {
            let talk = dialogue(s, msg);
            match talk.out {
                Ok(b) => lemma_run_follow(talk.now, c(Ok(b)), k),
                Err(Halted::Stopped(e)) => lemma_run_follow(talk.now, c(Err(e)), k),
                Err(Halted::Pending(req)) => {},
            }
        },
    }
}

proof fn lemma_dialogue_build(s: Session, msg: Seq<char>)
    ensures
        dialogue(s, msg).now.build == s.build,
    decreases s.answers.len() - s.asked.len(),
{
    let again = s.after(Req::Print { text: prompt(msg) }).after(Req::ReadLine).after(bad_choice());
    if again.asked.len() <= again.answers.len() {
        lemma_dialogue_build(again, msg);
    }
}

/// A run does not change how the program was built.
pub broadcast proof fn lemma_run_build<T>(s: Session, p: Script<T>)
    ensures
        (#[trigger] run(s, p)).now.build == s.build,
    decreases p,
{
    match p {
        Script::End(r) => {},
        Script::Ask(req, c) => {
            if s.ready() {
                lemma_run_build(s.after(req), c(s.next()));
            }
        },
        Script::Confirm(msg, c) => {
            lemma_dialogue_build(s, msg);
            let talk = dialogue(s, msg);
            match talk.out {
                Ok(b) => lemma_run_build(talk.now, c(Ok(b))),
                Err(Halted::Stopped(e)) => lemma_run_build(talk.now, c(Err(e))),
                Err(Halted::Pending(req)) => {},
            }
        },
    }
}

/// What running scripts one after the other comes to.
pub broadcast group group_run {
    lemma_run_follow,
    lemma_run_build,
}

/// The operation that only gives `v`.
pub open spec fn give<T>(v: T) -> Script<T> {
    Script::End(Ok(v))
}

/// The operation that only fails.
pub open spec fn fail<T>(kind: ErrorKind, text: Seq<char>) -> Script<T> {
    Script::End(Err(Stop::Failed(Fault { kind, text })))
}

/// The operation that only panics.
pub open spec fn crash<T>() -> Script<T> {
    Script::End(Err(Stop::Panicked))
}

/// Going on with `k` after success; a failure ends the script.
pub open spec fn on_success<T, U>(k: spec_fn(T) -> Script<U>) -> spec_fn(
    Result<T, Stop>,
) -> Script<U> {
    |r: Result<T, Stop>|
        match r {
            Ok(v) => k(v),
            Err(e) => Script::End(Err(e)),
        }
}

/// `p`, and on success `k` of its result.
pub open spec fn chain<T, U>(p: Script<T>, k: spec_fn(T) -> Script<U>) -> Script<U> {
    follow(p, on_success(k))
}

/// `p`, with its failure as a result.
pub open spec fn attempt<T>(p: Script<T>) -> Script<Result<T, Fault>> {
    follow(
        p,
        |r: Result<T, Stop>|
            match r {
                Ok(v) => Script::End(Ok(Ok(v))),
                Err(Stop::Failed(e)) => Script::End(Ok(Err(e))),
                Err(e) => Script::End(Err(e)),
            },
    )
}

/// `p`, where the program counts on success.
pub open spec fn sure<T>(p: Script<T>) -> Script<T> {
    follow(p, |r: Result<T, Stop>| Script::End(unwrapped(r)))
}

/// A request that is to be carried out.
pub open spec fn done(req: Req) -> Script<()> {
    Script::Ask(req, |a: Answer| Script::End(as_done(a)))
}

/// A request for a yes or a no.
pub open spec fn flag(req: Req) -> Script<bool> {
    Script::Ask(req, |a: Answer| Script::End(as_flag(a)))
}

/// A request for a text.
pub open spec fn text(req: Req) -> Script<Seq<char>> {
    Script::Ask(req, |a: Answer| Script::End(as_text(a)))
}

/// A request for a list of texts.
pub open spec fn texts(req: Req) -> Script<Seq<Seq<char>>> {
    Script::Ask(req, |a: Answer| Script::End(as_texts(a)))
}

/// A request for paths or lines.
pub open spec fn listing(req: Req) -> Script<(Seq<Seq<char>>, Option<Fault>)> {
    Script::Ask(req, |a: Answer| Script::End(as_listing(a)))
}

/// A request for what a walk finds.
pub open spec fn entries(req: Req) -> Script<(Seq<Found>, Option<Fault>)> {
    Script::Ask(req, |a: Answer| Script::End(as_entries(a)))
}

/// A request for how a process ends.
pub open spec fn status(req: Req) -> Script<ExitStatus> {
    Script::Ask(req, |a: Answer| Script::End(as_status(a)))
}

/// A request for a tree.
pub open spec fn tree(req: Req) -> Script<u64> {
    Script::Ask(req, |a: Answer| Script::End(as_tree(a)))
}

/// A request for a profile.
pub open spec fn profile(req: Req) -> Script<Table> {
    Script::Ask(req, |a: Answer| Script::End(as_profile(a)))
}

/// A request for a moment.
pub open spec fn time(req: Req) -> Script<LocalTime> {
    Script::Ask(req, |a: Answer| Script::End(as_time(a)))
}

/// A line on standard output.
pub open spec fn say(line: Seq<char>) -> Script<()> {
    sure(done(Req::Print { text: line }))
}

/// A line on standard error.
pub open spec fn warn(line: Seq<char>) -> Script<()> {
    sure(done(Req::Eprint { text: line }))
}

/// A question to the user.
pub open spec fn confirm(msg: Seq<char>) -> Script<bool> {
    Script::Confirm(msg, |r: Result<bool, Stop>| Script::End(r))
}

/// Requests that are carried out one after the other, up to the first that fails.
#[verifier::opaque]
pub open spec fn all_done(plan: Seq<Req>) -> Script<()>
    decreases plan.len(),
{
    if plan.len() == 0 {
        give(())
    } else {
        chain(done(plan[0]), |u: ()| all_done(plan.drop_first()))
    }
}

/// One operation for each item of a list, in order.
pub open spec fn each<A>(list: Seq<A>, f: spec_fn(A) -> Script<()>) -> Script<()>
    decreases list.len(),
{
    if list.len() == 0 {
        give(())
    } else {
        chain(f(list[0]), |u: ()| each(list.drop_first(), f))
    }
}

// --------------------------------------------------------------------- laws

/// Every request that a script can make, whatever the answers, is one of `ok`.
pub open spec fn asks_only<T>(p: Script<T>, ok: spec_fn(Req) -> bool) -> bool
    decreases p,
{
    match p {
        Script::End(_) => true,
        Script::Ask(req, k) => ok(req) && forall|a: Answer| asks_only(#[trigger] k(a), ok),
        Script::Confirm(msg, k) => ok(Req::Print { text: prompt(msg) }) && ok(Req::ReadLine) && ok(
            bad_choice(),
        ) && forall|r: Result<bool, Stop>| asks_only(#[trigger] k(r), ok),
    }
}

/// Every end that a script can come to, whatever the answers, is one of `good`.
pub open spec fn ends_only<T>(p: Script<T>, good: spec_fn(Result<T, Stop>) -> bool) -> bool
    decreases p,
{
    match p {
        Script::End(r) => good(r),
        Script::Ask(req, k) => forall|a: Answer| ends_only(#[trigger] k(a), good),
        Script::Confirm(msg, k) => forall|r: Result<bool, Stop>| ends_only(#[trigger] k(r), good),
    }
}

/// The requests of `longer` begin with those of `shorter`.
pub open spec fn extends(longer: Seq<Req>, shorter: Seq<Req>) -> bool {
    shorter.len() <= longer.len() && longer.take(shorter.len() as int) == shorter
}

proof fn lemma_extends(a: Seq<Req>, b: Seq<Req>, c: Seq<Req>)
    requires
        extends(b, a),
        extends(c, b),
    ensures
        extends(c, a),
{
    assert(c.take(a.len() as int) =~= b.take(a.len() as int));
}

/// A dialogue keeps the answers and what was asked before it, and puts only the requests that
/// belong to it.
pub proof fn lemma_dialogue(s: Session, msg: Seq<char>)
    requires
        s.asked.len() <= s.answers.len(),
    ensures
        ({
            let r = dialogue(s, msg);
            &&& r.now.build == s.build
            &&& r.now.answers == s.answers
            &&& extends(r.now.asked, s.asked)
            &&& r.now.asked.len() <= s.answers.len()
            &&& r.out matches Err(Halted::Pending(_)) ==> r.now.asked.len() == s.answers.len()
            &&& forall|i: int|
                s.asked.len() <= i < r.now.asked.len() ==> {
                    ||| #[trigger] r.now.asked[i] == (Req::Print { text: prompt(msg) })
                    ||| r.now.asked[i] == Req::ReadLine
                    ||| r.now.asked[i] == bad_choice()
                }
            &&& r.out matches Err(Halted::Pending(q)) ==> {
                ||| q == (Req::Print { text: prompt(msg) })
                ||| q == Req::ReadLine
                ||| q == bad_choice()
            }
        }),
    decreases s.answers.len() - s.asked.len(),
{
    let asked = s.after(Req::Print { text: prompt(msg) });
    let read = asked.after(Req::ReadLine);
    let again = read.after(bad_choice());
    assert(asked.asked.take(s.asked.len() as int) =~= s.asked);
    assert(read.asked.take(s.asked.len() as int) =~= s.asked);
    assert(again.asked.take(s.asked.len() as int) =~= s.asked);
    assert(s.asked.take(s.asked.len() as int) =~= s.asked);
    if s.ready() && asked.ready() && read.ready() {
        lemma_dialogue(again, msg);
        let r = dialogue(again, msg);
        assert(r.now.asked.take(s.asked.len() as int) =~= r.now.asked.take(
            again.asked.len() as int,
        ).take(s.asked.len() as int));
        assert forall|i: int| s.asked.len() <= i < again.asked.len() implies #[trigger]
        r.now.asked[i] == again.asked[i] by {
            assert(r.now.asked.take(again.asked.len() as int)[i] == again.asked[i]);
        }
    }
}

/// A run keeps the answers and the requests that were made before it. It makes only requests
/// that the script can make, and ends, if it does, as the script can end.
pub proof fn law_run<T>(
    s: Session,
    p: Script<T>,
    ok: spec_fn(Req) -> bool,
    good: spec_fn(Result<T, Stop>) -> bool,
)
    requires
        s.asked.len() <= s.answers.len(),
        asks_only(p, ok),
        ends_only(p, good),
    ensures
        ({
            let r = run(s, p);
            &&& r.now.build == s.build
            &&& r.now.answers == s.answers
            &&& extends(r.now.asked, s.asked)
            &&& r.now.asked.len() <= s.answers.len()
            &&& forall|i: int| s.asked.len() <= i < r.now.asked.len() ==> ok(#[trigger] r.now.asked[i])
            &&& match r.out {
                Ok(v) => good(Ok(v)),
                Err(Halted::Stopped(e)) => good(Err(e)),
                Err(Halted::Pending(q)) => ok(q) && r.now.asked.len() == s.answers.len(),
            }
        }),
    decreases p,
{
    assert(s.asked.take(s.asked.len() as int) =~= s.asked);
    match p {
        Script::End(r) => {},
        Script::Ask(req, k) => {
            if s.ready() {
                let t = s.after(req);
                law_run(t, k(s.next()), ok, good);
                let r = run(t, k(s.next()));
                assert(t.asked.take(s.asked.len() as int) =~= s.asked);
                lemma_extends(s.asked, t.asked, r.now.asked);
                assert(r.now.asked.take(t.asked.len() as int)[s.asked.len() as int] == req);
            }
        },
        Script::Confirm(msg, k) => {
            lemma_dialogue(s, msg);
            let talk = dialogue(s, msg);
            let reply = match talk.out {
                Ok(b) => Ok(b),
                Err(Halted::Stopped(e)) => Err(e),
                Err(Halted::Pending(req)) => Ok(true),
            };
            law_run(talk.now, k(reply), ok, good);
            let r = run(talk.now, k(reply));
            lemma_extends(s.asked, talk.now.asked, r.now.asked);
            assert forall|i: int| s.asked.len() <= i < talk.now.asked.len() implies ok(
                #[trigger] r.now.asked[i],
            ) by {
                assert(r.now.asked.take(talk.now.asked.len() as int)[i] == talk.now.asked[i]);
            }
        },
    }
}

proof fn lemma_dialogue_choice(s: Session, msg: Seq<char>)
    ensures
        dialogue(s, msg).out matches Ok(b) ==> ({
            let now = dialogue(s, msg).now;
            &&& now.answers == s.answers
            &&& s.asked.len() < now.asked.len() <= s.answers.len()
            &&& now.asked.last() == Req::ReadLine
            &&& s.answers[now.asked.len() - 1] matches Answer::Text(line) && choice(line) == Some(b)
        }),
    decreases s.answers.len() - s.asked.len(),
{
    let again = s.after(Req::Print { text: prompt(msg) }).after(Req::ReadLine).after(bad_choice());
    if again.asked.len() <= again.answers.len() {
        lemma_dialogue_choice(again, msg);
    }
}

/// Where a question is settled, it is by the line that the user typed last.
pub proof fn law_choice(s: Session, msg: Seq<char>)
    ensures
        run(s, confirm(msg)).out matches Ok(b) ==> ({
            let now = run(s, confirm(msg)).now;
            &&& s.asked.len() < now.asked.len() <= s.answers.len()
            &&& now.asked.last() == Req::ReadLine
            &&& s.answers[now.asked.len() - 1] matches Answer::Text(line) && choice(line) == Some(b)
        }),
{
    lemma_dialogue_choice(s, msg);
    reveal_with_fuel(run, 2);
}

/// A typed line that is ASCII text, white space around it apart, means what its word means with
/// the letters in lower case.
pub proof fn law_ascii_choice(line: Seq<char>)
    requires
        ascii(trimmed(line)),
    ensures
        choice(line) == word_choice(small_text(trimmed(line))),
{
}

/// The same session with more answers.
pub open spec fn with_more(s: Session, more: Seq<Answer>) -> Session {
    Session { build: s.build, answers: s.answers + more, asked: s.asked }
}

/// What one run says of a run with more answers: the first is repeated, and where it stopped
/// at a request, that request comes next.
pub open spec fn continues<T>(s: Session, first: Run<T>, second: Run<T>, more: Seq<Answer>) -> bool {
    match first.out {
        Err(Halted::Pending(q)) => {
            &&& first.now.asked.len() == s.answers.len()
            &&& extends(second.now.asked, first.now.asked)
            &&& more.len() == 0 ==> second.out == first.out
            &&& more.len() > 0 ==> extends(second.now.asked, first.now.asked.push(q))
        },
        _ => second.out == first.out && second.now.asked == first.now.asked,
    }
}

proof fn lemma_dialogue_replay(s: Session, msg: Seq<char>, more: Seq<Answer>)
    requires
        s.asked.len() <= s.answers.len(),
    ensures
        ({
            let first = dialogue(s, msg);
            let second = dialogue(with_more(s, more), msg);
            continues(s, first, second, more) && (first.out matches Err(Halted::Pending(_))
                || second.now == with_more(first.now, more))
        }),
    decreases s.answers.len() - s.asked.len(),
{
    let t = with_more(s, more);
    lemma_dialogue(s, msg);
    lemma_dialogue(t, msg);
    let ask = Req::Print { text: prompt(msg) };
    let asked = s.after(ask);
    let read = asked.after(Req::ReadLine);
    let again = read.after(bad_choice());
    assert(with_more(again, more) == t.after(ask).after(Req::ReadLine).after(bad_choice()));
    let first = dialogue(s, msg);
    let second = dialogue(t, msg);
    if more.len() == 0 {
        assert(t.answers =~= s.answers);
        assert(t == s);
        assert(with_more(first.now, more) == first.now) by {
            assert(first.now.answers + more =~= first.now.answers);
        }
        assert(first.now.asked.take(first.now.asked.len() as int) =~= first.now.asked);
    } else {
        lemma_dialogue_step(t, msg);
        if s.ready() {
            assert(t.next() == s.next());
            if asked.ready() {
                assert(t.after(ask).next() == asked.next());
                if read.ready() {
                    assert(t.after(ask).after(Req::ReadLine).next() == read.next());
                    lemma_dialogue_replay(again, msg, more);
                }
            }
        }
        assert(first.now.asked.push(ask).take(first.now.asked.len() as int) =~= first.now.asked);
        assert(first.now.asked.push(Req::ReadLine).take(first.now.asked.len() as int)
            =~= first.now.asked);
        assert(first.now.asked.push(bad_choice()).take(first.now.asked.len() as int)
            =~= first.now.asked);
        match first.out {
            Err(Halted::Pending(q)) => {
                assert(extends(second.now.asked, first.now.asked.push(q)));
                lemma_extends(first.now.asked, first.now.asked.push(q), second.now.asked);
            },
            _ => {},
        }
    }
}

proof fn lemma_dialogue_step(t: Session, msg: Seq<char>)
    requires
        t.asked.len() < t.answers.len(),
    ensures
        ({
            let ask = Req::Print { text: prompt(msg) };
            let r = dialogue(t, msg);
            let asked = t.after(ask);
            let read = asked.after(Req::ReadLine);
            &&& extends(r.now.asked, asked.asked)
            &&& unwrapped(as_done(t.next())) is Ok && asked.ready() ==> {
                &&& extends(r.now.asked, read.asked)
                &&& unwrapped(as_text(asked.next())) matches Ok(line) ==> choice(line) is None
                    && read.ready() ==> extends(r.now.asked, read.after(bad_choice()).asked)
            }
        }),
{
    let ask = Req::Print { text: prompt(msg) };
    let asked = t.after(ask);
    let read = asked.after(Req::ReadLine);
    let again = read.after(bad_choice());
    assert(asked.asked.take(asked.asked.len() as int) =~= asked.asked);
    assert(read.asked.take(asked.asked.len() as int) =~= asked.asked);
    assert(read.asked.take(read.asked.len() as int) =~= read.asked);
    assert(again.asked.take(asked.asked.len() as int) =~= asked.asked);
    assert(again.asked.take(read.asked.len() as int) =~= read.asked);
    assert(again.asked.take(again.asked.len() as int) =~= again.asked);
    if asked.ready() && read.ready() {
        lemma_dialogue(again, msg);
        let r = dialogue(again, msg);
        lemma_extends(asked.asked, again.asked, r.now.asked);
        lemma_extends(read.asked, again.asked, r.now.asked);
    }
}

/// Replay: to run a script again with more answers makes the same requests in the same order.
/// Where the first run was over, so is the second, with the same result; where it stopped at a
/// request, the answers that were added are answers to that request and those after it.
pub proof fn law_replay<T>(s: Session, p: Script<T>, more: Seq<Answer>)
    requires
        s.asked.len() <= s.answers.len(),
    ensures
        continues(s, run(s, p), run(with_more(s, more), p), more),
    decreases p,
{
    let t = with_more(s, more);
    let all = |req: Req| true;
    let any = |r: Result<T, Stop>| true;
    lemma_anything(p);
    law_run(s, p, all, any);
    law_run(t, p, all, any);
    match p {
        Script::End(r) => {},
        Script::Ask(req, k) => {
            if s.ready() {
                assert(with_more(s.after(req), more) == t.after(req));
                assert(t.next() == s.next());
                law_replay(s.after(req), k(s.next()), more);
            } else if t.ready() {
                lemma_anything(k(t.next()));
                law_run(t.after(req), k(t.next()), all, any);
            } else {
                assert(t.answers =~= s.answers);
            }
        },
        Script::Confirm(msg, k) => {
            lemma_dialogue_replay(s, msg, more);
            lemma_dialogue(s, msg);
            lemma_dialogue(t, msg);
            let talk = dialogue(s, msg);
            let longer = dialogue(t, msg);
            match talk.out {
                Ok(b) => {
                    law_replay(talk.now, k(Ok(b)), more);
                },
                Err(Halted::Stopped(e)) => {
                    law_replay(talk.now, k(Err(e)), more);
                },
                Err(Halted::Pending(q)) => {
                    match longer.out {
                        Ok(b) => {
                            lemma_anything(k(Ok(b)));
                            law_run(longer.now, k(Ok(b)), all, any);
                            let r = run(longer.now, k(Ok(b)));
                            lemma_extends(talk.now.asked, longer.now.asked, r.now.asked);
                            if more.len() > 0 {
                                lemma_extends(
                                    talk.now.asked.push(q),
                                    longer.now.asked,
                                    r.now.asked,
                                );
                            }
                        },
                        Err(Halted::Stopped(e)) => {
                            lemma_anything(k(Err(e)));
                            law_run(longer.now, k(Err(e)), all, any);
                            let r = run(longer.now, k(Err(e)));
                            lemma_extends(talk.now.asked, longer.now.asked, r.now.asked);
                            if more.len() > 0 {
                                lemma_extends(
                                    talk.now.asked.push(q),
                                    longer.now.asked,
                                    r.now.asked,
                                );
                            }
                        },
                        Err(Halted::Pending(_)) => {},
                    }
                },
            }
        },
    }
}

/// Nothing is asked of a script by a demand that everything meets.
pub proof fn lemma_anything<T>(p: Script<T>)
    ensures
        asks_only(p, |req: Req| true),
        ends_only(p, |r: Result<T, Stop>| true),
    decreases p,
{
    match p {
        Script::End(r) => {},
        Script::Ask(req, k) => {
            assert forall|a: Answer| asks_only(#[trigger] k(a), |req: Req| true) && ends_only(
                k(a),
                |r: Result<T, Stop>| true,
            ) by {
                lemma_anything(k(a));
            }
        },
        Script::Confirm(msg, k) => {
            assert forall|x: Result<bool, Stop>| asks_only(#[trigger] k(x), |req: Req| true)
                && ends_only(k(x), |r: Result<T, Stop>| true) by {
                lemma_anything(k(x));
            }
        },
    }
}

/// Two scripts in a row make only requests that one of them makes.
pub broadcast proof fn lemma_asks_follow<T, U>(
    p: Script<T>,
    k: spec_fn(Result<T, Stop>) -> Script<U>,
    ok: spec_fn(Req) -> bool,
)
    requires
        asks_only(p, ok),
        forall|r: Result<T, Stop>| asks_only(#[trigger] k(r), ok),
    ensures
        #[trigger] asks_only(follow(p, k), ok),
    decreases p,
{
    match p {
        Script::End(r) => {
            assert(asks_only(k(r), ok));
        },
        Script::Ask(req, c) => {
            if let Script::Ask(_, next) = follow(p, k) {
                assert forall|a: Answer| asks_only(#[trigger] next(a), ok) by {
                    assert(next(a) == follow(c(a), k));
                    lemma_asks_follow(c(a), k, ok);
                }
            }
        },
        Script::Confirm(msg, c) => {
            if let Script::Confirm(_, next) = follow(p, k) {
                assert forall|r: Result<bool, Stop>| asks_only(#[trigger] next(r), ok) by {
                    assert(next(r) == follow(c(r), k));
                    lemma_asks_follow(c(r), k, ok);
                }
            }
        },
    }
}

/// The only request is the one that is given.
pub broadcast proof fn lemma_asks_done(req: Req, ok: spec_fn(Req) -> bool)
    ensures
        #[trigger] asks_only(done(req), ok) == ok(req),
{
    reveal_with_fuel(asks_only, 2);
}

/// The only request is the one that is given.
pub broadcast proof fn lemma_asks_flag(req: Req, ok: spec_fn(Req) -> bool)
    ensures
        #[trigger] asks_only(flag(req), ok) == ok(req),
{
    reveal_with_fuel(asks_only, 2);
}

/// The only request is the one that is given.
pub broadcast proof fn lemma_asks_text(req: Req, ok: spec_fn(Req) -> bool)
    ensures
        #[trigger] asks_only(text(req), ok) == ok(req),
{
    reveal_with_fuel(asks_only, 2);
}

/// The only request is the one that is given.
pub broadcast proof fn lemma_asks_texts(req: Req, ok: spec_fn(Req) -> bool)
    ensures
        #[trigger] asks_only(texts(req), ok) == ok(req),
{
    reveal_with_fuel(asks_only, 2);
}

/// The only request is the one that is given.
pub broadcast proof fn lemma_asks_listing(req: Req, ok: spec_fn(Req) -> bool)
    ensures
        #[trigger] asks_only(listing(req), ok) == ok(req),
{
    reveal_with_fuel(asks_only, 2);
}

/// The only request is the one that is given.
pub broadcast proof fn lemma_asks_entries(req: Req, ok: spec_fn(Req) -> bool)
    ensures
        #[trigger] asks_only(entries(req), ok) == ok(req),
{
    reveal_with_fuel(asks_only, 2);
}

/// The only request is the one that is given.
pub broadcast proof fn lemma_asks_status(req: Req, ok: spec_fn(Req) -> bool)
    ensures
        #[trigger] asks_only(status(req), ok) == ok(req),
{
    reveal_with_fuel(asks_only, 2);
}

/// The only request is the one that is given.
pub broadcast proof fn lemma_asks_tree(req: Req, ok: spec_fn(Req) -> bool)
    ensures
        #[trigger] asks_only(tree(req), ok) == ok(req),
{
    reveal_with_fuel(asks_only, 2);
}

/// The only request is the one that is given.
pub broadcast proof fn lemma_asks_profile(req: Req, ok: spec_fn(Req) -> bool)
    ensures
        #[trigger] asks_only(profile(req), ok) == ok(req),
{
    reveal_with_fuel(asks_only, 2);
}

/// The only request is the one that is given.
pub broadcast proof fn lemma_asks_time(req: Req, ok: spec_fn(Req) -> bool)
    ensures
        #[trigger] asks_only(time(req), ok) == ok(req),
{
    reveal_with_fuel(asks_only, 2);
}

/// A question is put by a line that is shown, and answered by lines that are typed.
pub broadcast proof fn lemma_asks_confirm(msg: Seq<char>, ok: spec_fn(Req) -> bool)
    ensures
        #[trigger] asks_only(confirm(msg), ok) == (ok(Req::Print { text: prompt(msg) }) && ok(
            Req::ReadLine,
        ) && ok(bad_choice())),
{
    reveal_with_fuel(asks_only, 2);
}

/// A plan makes only the requests that it lists.
pub broadcast proof fn lemma_asks_all_done(plan: Seq<Req>, ok: spec_fn(Req) -> bool)
    requires
        forall|i: int| 0 <= i < plan.len() ==> ok(#[trigger] plan[i]),
    ensures
        #[trigger] asks_only(all_done(plan), ok),
    decreases plan.len(),
{
    broadcast use lemma_asks_follow;

    reveal_with_fuel(all_done, 1);
    if plan.len() > 0 {
        let rest = plan.drop_first();
        assert forall|i: int| 0 <= i < rest.len() implies ok(#[trigger] rest[i]) by {
            assert(rest[i] == plan[i + 1]);
        }
        lemma_asks_all_done(rest, ok);
        lemma_asks_done(plan[0], ok);
    }
}

/// An operation for each item of a list makes only requests that it makes for some item.
pub broadcast proof fn lemma_asks_each<A>(
    list: Seq<A>,
    f: spec_fn(A) -> Script<()>,
    ok: spec_fn(Req) -> bool,
)
    requires
        forall|x: A| asks_only(#[trigger] f(x), ok),
    ensures
        #[trigger] asks_only(each(list, f), ok),
    decreases list.len(),
{
    broadcast use lemma_asks_follow;

    if list.len() > 0 {
        let rest = list.drop_first();
        lemma_asks_each(rest, f, ok);
        assert(asks_only(f(list[0]), ok));
    }
}

/// Two scripts in a row, the second after success only, make only requests that one of them
/// makes.
pub proof fn lemma_asks_chain<T, U>(
    p: Script<T>,
    k: spec_fn(T) -> Script<U>,
    ok: spec_fn(Req) -> bool,
)
    requires
        asks_only(p, ok),
        forall|v: T| asks_only(#[trigger] k(v), ok),
    ensures
        asks_only(chain(p, k), ok),
{
    lemma_asks_follow(p, on_success(k), ok);
}

/// Two scripts in a row make only requests of the first, and of the second after those ends
/// that the first can come to.
pub proof fn lemma_asks_after<T, U>(
    p: Script<T>,
    k: spec_fn(Result<T, Stop>) -> Script<U>,
    ok: spec_fn(Req) -> bool,
    good: spec_fn(Result<T, Stop>) -> bool,
)
    requires
        asks_only(p, ok),
        ends_only(p, good),
        forall|r: Result<T, Stop>| good(r) ==> asks_only(#[trigger] k(r), ok),
    ensures
        asks_only(follow(p, k), ok),
    decreases p,
{
    match p {
        Script::End(r) => {
            assert(asks_only(k(r), ok));
        },
        Script::Ask(req, c) => {
            if let Script::Ask(_, next) = follow(p, k) {
                assert forall|a: Answer| asks_only(#[trigger] next(a), ok) by {
                    assert(next(a) == follow(c(a), k));
                    lemma_asks_after(c(a), k, ok, good);
                }
            }
        },
        Script::Confirm(msg, c) => {
            if let Script::Confirm(_, next) = follow(p, k) {
                assert forall|r: Result<bool, Stop>| asks_only(#[trigger] next(r), ok) by {
                    assert(next(r) == follow(c(r), k));
                    lemma_asks_after(c(r), k, ok, good);
                }
            }
        },
    }
}

/// Two scripts in a row come only to ends of the second, after those ends that the first can
/// come to.
pub proof fn lemma_ends_after<T, U>(
    p: Script<T>,
    k: spec_fn(Result<T, Stop>) -> Script<U>,
    good: spec_fn(Result<T, Stop>) -> bool,
    fine: spec_fn(Result<U, Stop>) -> bool,
)
    requires
        ends_only(p, good),
        forall|r: Result<T, Stop>| good(r) ==> ends_only(#[trigger] k(r), fine),
    ensures
        ends_only(follow(p, k), fine),
    decreases p,
{
    match p {
        Script::End(r) => {
            assert(ends_only(k(r), fine));
        },
        Script::Ask(req, c) => {
            if let Script::Ask(_, next) = follow(p, k) {
                assert forall|a: Answer| ends_only(#[trigger] next(a), fine) by {
                    assert(next(a) == follow(c(a), k));
                    lemma_ends_after(c(a), k, good, fine);
                }
            }
        },
        Script::Confirm(msg, c) => {
            if let Script::Confirm(_, next) = follow(p, k) {
                assert forall|r: Result<bool, Stop>| ends_only(#[trigger] next(r), fine) by {
                    assert(next(r) == follow(c(r), k));
                    lemma_ends_after(c(r), k, good, fine);
                }
            }
        },
    }
}

/// Two scripts in a row come only to ends of the second.
pub broadcast proof fn lemma_ends_follow<T, U>(
    p: Script<T>,
    k: spec_fn(Result<T, Stop>) -> Script<U>,
    fine: spec_fn(Result<U, Stop>) -> bool,
)
    requires
        forall|r: Result<T, Stop>| ends_only(#[trigger] k(r), fine),
    ensures
        #[trigger] ends_only(follow(p, k), fine),
{
    lemma_anything(p);
    lemma_ends_after(p, k, |r: Result<T, Stop>| true, fine);
}

/// Whatever the answers, a script does not succeed.
pub open spec fn fails<T>(p: Script<T>) -> bool {
    ends_only(p, |r: Result<T, Stop>| r is Err)
}

/// Whatever the answers, where a script succeeds it gives one of `good`.
pub open spec fn gives_only<T>(p: Script<T>, good: spec_fn(T) -> bool) -> bool {
    ends_only(
        p,
        |r: Result<T, Stop>|
            match r {
                Ok(v) => good(v),
                Err(_) => true,
            },
    )
}

/// What follows on a script that does not succeed asks for nothing more.
pub broadcast proof fn lemma_stuck_asks<T, U>(
    p: Script<T>,
    k: spec_fn(T) -> Script<U>,
    ok: spec_fn(Req) -> bool,
)
    requires
        asks_only(p, ok),
        fails(p),
    ensures
        #[trigger] asks_only(chain(p, k), ok),
{
    lemma_asks_after(p, on_success(k), ok, |r: Result<T, Stop>| r is Err);
}

/// What follows on a script that does not succeed does not make it succeed.
pub broadcast proof fn lemma_stuck_fails<T, U>(p: Script<T>, k: spec_fn(T) -> Script<U>)
    requires
        fails(p),
    ensures
        #[trigger] fails(chain(p, k)),
{
    lemma_ends_after(
        p,
        on_success(k),
        |r: Result<T, Stop>| r is Err,
        |r: Result<U, Stop>| r is Err,
    );
}

/// A script that is followed only by scripts that do not succeed does not succeed.
pub broadcast proof fn lemma_then_fails<T, U>(p: Script<T>, k: spec_fn(T) -> Script<U>)
    requires
        forall|v: T| fails(#[trigger] k(v)),
    ensures
        #[trigger] fails(chain(p, k)),
{
    let bad = |r: Result<U, Stop>| r is Err;
    assert forall|r: Result<T, Stop>| ends_only(#[trigger] on_success(k)(r), bad) by {
        if let Ok(v) = r {
            assert(fails(k(v)));
        }
    }
    lemma_ends_follow(p, on_success(k), bad);
}

/// What follows on a script that succeeds is only what it can give occasion for.
pub proof fn lemma_asks_given<T, U>(
    p: Script<T>,
    k: spec_fn(T) -> Script<U>,
    good: spec_fn(T) -> bool,
    ok: spec_fn(Req) -> bool,
)
    requires
        asks_only(p, ok),
        gives_only(p, good),
        forall|v: T| good(v) ==> asks_only(#[trigger] k(v), ok),
    ensures
        asks_only(chain(p, k), ok),
{
    let fine = |r: Result<T, Stop>|
        match r {
            Ok(v) => good(v),
            Err(_) => true,
        };
    assert forall|r: Result<T, Stop>| fine(r) implies asks_only(#[trigger] on_success(k)(r), ok) by {
        if let Ok(v) = r {
            assert(asks_only(k(v), ok));
        }
    }
    lemma_asks_after(p, on_success(k), ok, fine);
}

/// Which requests a script can make.
pub broadcast group group_asks {
    lemma_asks_follow,
    lemma_asks_done,
    lemma_asks_flag,
    lemma_asks_text,
    lemma_asks_texts,
    lemma_asks_listing,
    lemma_asks_entries,
    lemma_asks_status,
    lemma_asks_tree,
    lemma_asks_profile,
    lemma_asks_time,
    lemma_asks_confirm,
    lemma_asks_all_done,
    lemma_asks_each,
}

}
