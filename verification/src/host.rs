//! The running side of an operation: requests go out, the replies that are known come back.

use vstd::prelude::*;
use crate::profile::{well_formed, Profile};
use crate::request::{Answer, Entry, Error, ErrorKind, ExitStatus, LocalTime, Reply, Request};
use crate::script::{
    all_done, choice, confirm, dialogue, done, entries, flag, listing, profile, run, say, status,
    text, texts, time, tree, warn, Build, Halted, Run, Script, Session, Stop,
};
use crate::text::{cat, same, to_lower, trim};

verus! {

broadcast use crate::script::group_run;

/// Why a run is over.
#[derive(Debug, PartialEq, Eq)]
pub enum Halt {
    /// The reply to this request is needed.
    Pending(Request),
    /// The operation failed.
    Failed(Error),
    /// The operation panicked.
    Panicked,
    /// The operation ended the process with this code.
    Exited(i32),
    /// A reply was of the wrong kind.
    Misfit,
}

impl DeepView for Halt {
    type V = Halted;

    open spec fn deep_view(&self) -> Halted {
        match self {
            Halt::Pending(req) => Halted::Pending(req.deep_view()),
            Halt::Failed(e) => Halted::Stopped(Stop::Failed(e.deep_view())),
            Halt::Panicked => Halted::Stopped(Stop::Panicked),
            Halt::Exited(code) => Halted::Stopped(Stop::Exited(*code)),
            Halt::Misfit => Halted::Stopped(Stop::Misfit),
        }
    }
}

/// The replies that are known, and the requests that were made.
pub struct Host {
    build: Build,
    replies: Vec<Reply>,
    asked: Vec<Request>,
}

impl View for Host {
    type V = Session;

    closed spec fn view(&self) -> Session {
        Session {
            build: self.build,
            answers: self.replies.deep_view(),
            asked: self.asked.deep_view(),
        }
    }
}

/// What a result says.
pub open spec fn seen<T: DeepView>(r: Result<T, Halt>) -> Result<T::V, Halted> {
    match r {
        Ok(v) => Ok(v.deep_view()),
        Err(h) => Err(h.deep_view()),
    }
}

/// The step from `before` to `after` with result `r` is a run of the script `p`.
pub open spec fn ran<T: DeepView>(
    before: Session,
    after: Session,
    r: Result<T, Halt>,
    p: Script<T::V>,
) -> bool {
    run(before, p) == (Run { now: after, out: seen(r) })
}

/// A failure as a value.
pub fn attempt<T>(r: Result<T, Halt>) -> (o: Result<Result<T, Error>, Halt>)
    ensures
        o == match r {
            Ok(v) => Ok::<Result<T, Error>, Halt>(Ok(v)),
            Err(Halt::Failed(e)) => Ok(Err(e)),
            Err(h) => Err(h),
        },
{
    match r {
        Ok(v) => Ok(Ok(v)),
        Err(Halt::Failed(e)) => Ok(Err(e)),
        Err(h) => Err(h),
    }
}

/// A failure where the program counts on success.
pub fn sure<T>(r: Result<T, Halt>) -> (o: Result<T, Halt>)
    ensures
        o == match r {
            Err(Halt::Failed(e)) => Err(Halt::Panicked),
            _ => r,
        },
{
    match r {
        Ok(v) => Ok(v),
        Err(Halt::Failed(e)) => Err(Halt::Panicked),
        Err(h) => Err(h),
    }
}

/// A failure of the program's own.
pub fn failure(kind: ErrorKind, text: String) -> (h: Halt)
    ensures
        h == Halt::Failed(Error { kind, text }),
{
    Halt::Failed(Error { kind, text })
}

impl Host {
    /// A session in which these replies are known.
    pub fn new(build: Build, replies: Vec<Reply>) -> (h: Host)
        ensures
            h@ == (Session { build, answers: replies.deep_view(), asked: seq![] }),
    {
        let h = Host { build, replies, asked: Vec::new() };
        assert(h@.asked =~= seq![]);
        h
    }

    /// How the program was built.
    pub fn build(&self) -> (b: Build)
        ensures
            b == self@.build,
    {
        self.build
    }

    /// The requests that were made.
    pub fn asked(&self) -> (r: &Vec<Request>)
        ensures
            r.deep_view() == self@.asked,
    {
        &self.asked
    }

    /// Makes a request.
    pub fn ask(&mut self, req: Request) -> (r: Result<Reply, Halt>)
        ensures
            ran(
                old(self)@,
                final(self)@,
                r,
                Script::Ask(req.deep_view(), |a: Answer| Script::End(Ok(a))),
            ),
            match r {
                Ok(reply) => old(self)@.ready() && reply.deep_view() == old(self)@.next()
                    && final(self)@ == old(self)@.after(req.deep_view()),
                Err(h) => !old(self)@.ready() && h == Halt::Pending(req) && final(self)@ == old(
                    self,
                )@,
            },
    {
        proof {
            reveal_with_fuel(run, 2);
        }
        let n: usize = self.asked.len();
        if n < self.replies.len() {
            let reply = self.replies[n].clone();
            self.asked.push(req);
            assert(self.asked.deep_view() =~= old(self).asked.deep_view().push(req.deep_view()));
            Ok(reply)
        } else {
            Err(Halt::Pending(req))
        }
    }

    /// Makes a request that is to be carried out.
    pub fn done(&mut self, req: Request) -> (r: Result<(), Halt>)
        ensures
            ran(old(self)@, final(self)@, r, done(req.deep_view())),
    {
        proof {
            reveal_with_fuel(run, 2);
        }
        match self.ask(req)? {
            Reply::Done => Ok(()),
            Reply::Failed(e) => Err(Halt::Failed(e)),
            _ => Err(Halt::Misfit),
        }
    }

    /// Makes a request for a yes or a no.
    pub fn flag(&mut self, req: Request) -> (r: Result<bool, Halt>)
        ensures
            ran(old(self)@, final(self)@, r, flag(req.deep_view())),
    {
        proof {
            reveal_with_fuel(run, 2);
        }
        match self.ask(req)? {
            Reply::Flag(b) => Ok(b),
            Reply::Failed(e) => Err(Halt::Failed(e)),
            _ => Err(Halt::Misfit),
        }
    }

    /// Makes a request for a text.
    pub fn text(&mut self, req: Request) -> (r: Result<String, Halt>)
        ensures
            ran(old(self)@, final(self)@, r, text(req.deep_view())),
    {
        proof {
            reveal_with_fuel(run, 2);
        }
        match self.ask(req)? {
            Reply::Text(t) => Ok(t),
            Reply::Failed(e) => Err(Halt::Failed(e)),
            _ => Err(Halt::Misfit),
        }
    }

    /// Makes a request for a list of texts.
    pub fn texts(&mut self, req: Request) -> (r: Result<Vec<String>, Halt>)
        ensures
            ran(old(self)@, final(self)@, r, texts(req.deep_view())),
    {
        proof {
            reveal_with_fuel(run, 2);
        }
        match self.ask(req)? {
            Reply::Texts(l) => Ok(l),
            Reply::Failed(e) => Err(Halt::Failed(e)),
            _ => Err(Halt::Misfit),
        }
    }

    /// Makes a request for paths or lines.
    pub fn listing(&mut self, req: Request) -> (r: Result<(Vec<String>, Option<Error>), Halt>)
        ensures
            ran(old(self)@, final(self)@, r, listing(req.deep_view())),
    {
        proof {
            reveal_with_fuel(run, 2);
        }
        match self.ask(req)? {
            Reply::Listing(l, e) => Ok((l, e)),
            Reply::Failed(e) => Err(Halt::Failed(e)),
            _ => Err(Halt::Misfit),
        }
    }

    /// Makes a request for what a walk finds.
    pub fn entries(&mut self, req: Request) -> (r: Result<(Vec<Entry>, Option<Error>), Halt>)
        ensures
            ran(old(self)@, final(self)@, r, entries(req.deep_view())),
    {
        proof {
            reveal_with_fuel(run, 2);
        }
        match self.ask(req)? {
            Reply::Entries(l, e) => Ok((l, e)),
            Reply::Failed(e) => Err(Halt::Failed(e)),
            _ => Err(Halt::Misfit),
        }
    }

    /// Makes a request for how a process ends.
    pub fn status(&mut self, req: Request) -> (r: Result<ExitStatus, Halt>)
        ensures
            ran(old(self)@, final(self)@, r, status(req.deep_view())),
    {
        proof {
            reveal_with_fuel(run, 2);
        }
        match self.ask(req)? {
            Reply::Status(s) => Ok(s),
            Reply::Failed(e) => Err(Halt::Failed(e)),
            _ => Err(Halt::Misfit),
        }
    }

    /// Makes a request for a tree.
    pub fn tree(&mut self, req: Request) -> (r: Result<u64, Halt>)
        ensures
            ran(old(self)@, final(self)@, r, tree(req.deep_view())),
    {
        proof {
            reveal_with_fuel(run, 2);
        }
        match self.ask(req)? {
            Reply::Tree(n) => Ok(n),
            Reply::Failed(e) => Err(Halt::Failed(e)),
            _ => Err(Halt::Misfit),
        }
    }

    /// Makes a request for a profile.
    pub fn profile(&mut self, req: Request) -> (r: Result<Profile, Halt>)
        ensures
            ran(old(self)@, final(self)@, r, profile(req.deep_view())),
            r matches Ok(p) ==> well_formed(p.deep_view()),
    {
        proof {
            reveal_with_fuel(run, 2);
        }
        match self.ask(req)? {
            Reply::Profile(p) => {
                proof {
                    use_type_invariant(&p);
                }
                Ok(p)
            },
            Reply::Failed(e) => Err(Halt::Failed(e)),
            _ => Err(Halt::Misfit),
        }
    }

    /// Makes a request for a moment.
    pub fn time(&mut self, req: Request) -> (r: Result<LocalTime, Halt>)
        ensures
            ran(old(self)@, final(self)@, r, time(req.deep_view())),
    {
        proof {
            reveal_with_fuel(run, 2);
        }
        match self.ask(req)? {
            Reply::Time(t) => Ok(t),
            Reply::Failed(e) => Err(Halt::Failed(e)),
            _ => Err(Halt::Misfit),
        }
    }

    /// A line on standard output.
    pub fn say(&mut self, line: String) -> (r: Result<(), Halt>)
        ensures
            ran(old(self)@, final(self)@, r, say(line@)),
    {
        sure(self.done(Request::Print { text: line }))
    }

    /// A line on standard error.
    pub fn warn(&mut self, line: String) -> (r: Result<(), Halt>)
        ensures
            ran(old(self)@, final(self)@, r, warn(line@)),
    {
        sure(self.done(Request::Eprint { text: line }))
    }

    /// Makes the requests of a plan in order, up to the first that fails.
    pub fn all_done(&mut self, plan: Vec<Request>) -> (r: Result<(), Halt>)
        ensures
            ran(old(self)@, final(self)@, r, all_done(plan.deep_view())),
    {
        let mut rest = plan;
        while rest.len() > 0
            invariant
                run(old(self)@, all_done(plan.deep_view())) == run(
                    self@,
                    all_done(rest.deep_view()),
                ),
            decreases rest.len(),
        {
            reveal_with_fuel(all_done, 1);
            let ghost before = rest.deep_view();
            let req = rest.remove(0);
            assert(rest.deep_view() =~= before.drop_first());
            self.done(req)?;
        }
        reveal_with_fuel(all_done, 1);
        Ok(())
    }
}

/// What a typed line means.
fn choice_of(line: &str) -> (r: Option<bool>)
    ensures
        r == choice(line@),
{
    let word = to_lower(trim(line).as_str());
    if same(word.as_str(), "yes") || same(word.as_str(), "y") {
        Some(true)
    } else if same(word.as_str(), "no") || same(word.as_str(), "n") {
        Some(false)
    } else {
        None
    }
}

/// Puts a question to the user until the reply is a yes or a no.
pub fn yes_no(host: &mut Host, msg: &str) -> (r: Result<bool, Halt>)
    ensures
        ran(old(host)@, final(host)@, r, confirm(msg@)),
{
    proof {
        reveal_with_fuel(run, 2);
    }
    loop
        invariant
            dialogue(old(host)@, msg@) == dialogue(host@, msg@),
        decreases host@.answers.len() - host@.asked.len(),
    {
        proof {
            reveal_with_fuel(run, 2);
        }
        host.say(cat(msg, " (y/n)"))?;
        let line = sure(host.text(Request::ReadLine))?;
        match choice_of(line.as_str()) {
            Some(b) => {
                return Ok(b);
            },
            None => {
                host.warn("Invalid choice!".to_owned())?;
            },
        }
    }
}

}
