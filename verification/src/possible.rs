//! On which inputs the operations can succeed.

use vstd::prelude::*;
use crate::profile::Table;
use crate::request::{Answer, ExitStatus, Fault, Req};
use crate::script::{
    all_done, attempt, chain, choice, confirm, dialogue, done, each, flag, give, law_ascii_choice,
    listing, profile, prompt, run, status, sure, text, texts, tree, with_more, Halted, Script,
    Session, Stop,
};
use crate::text::{small_text, trimmed, trimmed_end, trimmed_start};

verus! {

/// With some answers, a script gives `v`.
pub open spec fn gives<T>(p: Script<T>, v: T) -> bool
    decreases p,
{
    match p {
        Script::End(r) => r == Ok::<T, Stop>(v),
        Script::Ask(req, k) => exists|a: Answer| gives(#[trigger] k(a), v),
        Script::Confirm(msg, k) => exists|b: bool| gives(#[trigger] k(Ok(b)), v),
    }
}

/// With some answers, a script succeeds.
pub open spec fn can<T>(p: Script<T>) -> bool {
    exists|v: T| gives(p, v)
}

/// What follows on what a script can give, the two in a row can give.
pub proof fn lemma_gives_chain<T, U>(p: Script<T>, k: spec_fn(T) -> Script<U>, v: T, w: U)
    requires
        gives(p, v),
        gives(k(v), w),
    ensures
        gives(chain(p, k), w),
    decreases p,
{
    match p {
        Script::End(r) => {},
        Script::Ask(req, c) => {
            let a = choose|a: Answer| gives(#[trigger] c(a), v);
            lemma_gives_chain(c(a), k, v, w);
            if let Script::Ask(_, next) = chain(p, k) {
                assert(next(a) == chain(c(a), k));
            }
        },
        Script::Confirm(msg, c) => {
            let b = choose|b: bool| gives(#[trigger] c(Ok(b)), v);
            lemma_gives_chain(c(Ok(b)), k, v, w);
            if let Script::Confirm(_, next) = chain(p, k) {
                assert(next(Ok(b)) == chain(c(Ok(b)), k));
            }
        },
    }
}

/// What a script can give, it can give where the program counts on success, and as the result of
/// an attempt.
pub proof fn lemma_gives_more<T>(p: Script<T>, v: T)
    requires
        gives(p, v),
    ensures
        gives(sure(p), v),
        gives(attempt(p), Ok::<T, Fault>(v)),
    decreases p,
{
    match p {
        Script::End(r) => {},
        Script::Ask(req, c) => {
            let a = choose|a: Answer| gives(#[trigger] c(a), v);
            lemma_gives_more(c(a), v);
            if let Script::Ask(_, next) = sure(p) {
                assert(next(a) == sure(c(a)));
            }
            if let Script::Ask(_, next) = attempt(p) {
                assert(next(a) == attempt(c(a)));
            }
        },
        Script::Confirm(msg, c) => {
            let b = choose|b: bool| gives(#[trigger] c(Ok(b)), v);
            lemma_gives_more(c(Ok(b)), v);
            if let Script::Confirm(_, next) = sure(p) {
                assert(next(Ok(b)) == sure(c(Ok(b))));
            }
            if let Script::Confirm(_, next) = attempt(p) {
                assert(next(Ok(b)) == attempt(c(Ok(b))));
            }
        },
    }
}

/// Giving a value is a success.
pub broadcast proof fn can_give<T>(v: T)
    ensures
        #[trigger] can(give(v)),
{
    assert(gives(give(v), v));
}

/// A request can be carried out.
pub broadcast proof fn can_done(req: Req)
    ensures
        #[trigger] can(done(req)),
{
    assert(gives(done(req), ())) by {
        reveal_with_fuel(gives, 2);
        if let Script::Ask(_, k) = done(req) {
            assert(gives(k(Answer::Done), ()));
        }
    }
}

/// Two scripts in a row, where the first one gives nothing.
pub broadcast proof fn can_chain<U>(p: Script<()>, k: spec_fn(()) -> Script<U>)
    requires
        can(p),
        can(k(())),
    ensures
        #[trigger] can(chain(p, k)),
{
    let v = choose|v: ()| gives(p, v);
    assert(v == ());
    let q = k(());
    let w = choose|w: U| gives(q, w);
    lemma_gives_chain(p, k, (), w);
}

/// Two scripts in a row, where it is known what the first one can give.
pub broadcast proof fn can_given<T, U>(p: Script<T>, k: spec_fn(T) -> Script<U>, v: T)
    requires
        #[trigger] gives(p, v),
        can(k(v)),
    ensures
        #[trigger] can(chain(p, k)),
{
    let q = k(v);
    let w = choose|w: U| gives(q, w);
    lemma_gives_chain(p, k, v, w);
}

/// A question can get either answer.
pub broadcast proof fn can_flag<U>(req: Req, k: spec_fn(bool) -> Script<U>)
    requires
        can(k(true)) || can(k(false)),
    ensures
        #[trigger] can(chain(flag(req), k)),
{
    let b = can(k(true));
    lemma_gives_flag(req, b);
    can_given(flag(req), k, b);
}

/// Either answer can be given.
pub proof fn lemma_gives_flag(req: Req, b: bool)
    ensures
        gives(flag(req), b),
        gives(sure(flag(req)), b),
{
    reveal_with_fuel(gives, 2);
    if let Script::Ask(_, k) = flag(req) {
        assert(gives(k(Answer::Flag(b)), b));
    }
    lemma_gives_more(flag(req), b);
}

/// A question on which the program counts can get either answer.
pub broadcast proof fn can_sure_flag<U>(req: Req, k: spec_fn(bool) -> Script<U>)
    requires
        can(k(true)) || can(k(false)),
    ensures
        #[trigger] can(chain(sure(flag(req)), k)),
{
    let b = can(k(true));
    lemma_gives_flag(req, b);
    can_given(sure(flag(req)), k, b);
}

/// A question to the user can get either answer.
pub broadcast proof fn can_confirm<U>(msg: Seq<char>, k: spec_fn(bool) -> Script<U>)
    requires
        can(k(true)) || can(k(false)),
    ensures
        #[trigger] can(chain(confirm(msg), k)),
{
    let b = can(k(true));
    lemma_gives_confirm(msg, b);
    can_given(confirm(msg), k, b);
}

/// Either answer can be typed.
pub proof fn lemma_gives_confirm(msg: Seq<char>, b: bool)
    ensures
        gives(confirm(msg), b),
{
    reveal_with_fuel(gives, 2);
    if let Script::Confirm(_, k) = confirm(msg) {
        assert(gives(k(Ok(b)), b));
    }
}

/// Any text can be given.
pub proof fn lemma_gives_text(req: Req, v: Seq<char>)
    ensures
        gives(text(req), v),
        gives(sure(text(req)), v),
{
    reveal_with_fuel(gives, 2);
    if let Script::Ask(_, k) = text(req) {
        assert(gives(k(Answer::Text(v)), v));
    }
    lemma_gives_more(text(req), v);
}

/// A text can be given.
pub broadcast proof fn can_text<U>(req: Req, k: spec_fn(Seq<char>) -> Script<U>)
    requires
        can(k(seq![])),
    ensures
        #[trigger] can(chain(text(req), k)),
{
    lemma_gives_text(req, seq![]);
    can_given(text(req), k, seq![]);
}

/// A text on which the program counts can be given.
pub broadcast proof fn can_sure_text<U>(req: Req, k: spec_fn(Seq<char>) -> Script<U>)
    requires
        can(k(seq![])),
    ensures
        #[trigger] can(chain(sure(text(req)), k)),
{
    lemma_gives_text(req, seq![]);
    can_given(sure(text(req)), k, seq![]);
}

/// Any list can be given.
pub proof fn lemma_gives_texts(req: Req, v: Seq<Seq<char>>)
    ensures
        gives(texts(req), v),
        gives(sure(texts(req)), v),
{
    reveal_with_fuel(gives, 2);
    if let Script::Ask(_, k) = texts(req) {
        assert(gives(k(Answer::Texts(v)), v));
    }
    lemma_gives_more(texts(req), v);
}

/// A list can be given.
pub broadcast proof fn can_texts<U>(req: Req, k: spec_fn(Seq<Seq<char>>) -> Script<U>)
    requires
        can(k(seq![])),
    ensures
        #[trigger] can(chain(texts(req), k)),
{
    lemma_gives_texts(req, seq![]);
    can_given(texts(req), k, seq![]);
}

/// A tree can be loaded.
pub broadcast proof fn can_sure_tree<U>(req: Req, k: spec_fn(u64) -> Script<U>)
    requires
        can(k(0u64)),
    ensures
        #[trigger] can(chain(sure(tree(req)), k)),
{
    reveal_with_fuel(gives, 2);
    if let Script::Ask(_, c) = tree(req) {
        assert(gives(c(Answer::Tree(0u64)), 0u64));
    }
    lemma_gives_more(tree(req), 0u64);
    can_given(sure(tree(req)), k, 0u64);
}

/// A profile can be read.
pub broadcast proof fn can_sure_profile<U>(req: Req, k: spec_fn(Table) -> Script<U>)
    requires
        can(k(seq![])),
    ensures
        #[trigger] can(chain(sure(profile(req)), k)),
{
    let v: Table = seq![];
    reveal_with_fuel(gives, 2);
    if let Script::Ask(_, c) = profile(req) {
        assert(gives(c(Answer::Profile(v)), v));
    }
    lemma_gives_more(profile(req), v);
    can_given(sure(profile(req)), k, v);
}

/// How a process ends when it ends well.
pub open spec fn well() -> ExitStatus {
    ExitStatus { code: Some(0i32) }
}

/// A process can end well.
pub broadcast proof fn can_status<U>(req: Req, k: spec_fn(ExitStatus) -> Script<U>)
    requires
        can(k(well())),
    ensures
        #[trigger] can(chain(status(req), k)),
{
    reveal_with_fuel(gives, 2);
    if let Script::Ask(_, c) = status(req) {
        assert(gives(c(Answer::Status(well())), well()));
    }
    can_given(status(req), k, well());
}

/// Lines can be read.
pub proof fn lemma_gives_listing(req: Req, v: (Seq<Seq<char>>, Option<Fault>))
    ensures
        gives(listing(req), v),
        gives(sure(listing(req)), v),
{
    reveal_with_fuel(gives, 2);
    if let Script::Ask(_, c) = listing(req) {
        assert(gives(c(Answer::Listing(v.0, v.1)), v));
    }
    lemma_gives_more(listing(req), v);
}

/// What can succeed can succeed where the program counts on it.
pub broadcast proof fn can_sure<T>(p: Script<T>)
    requires
        can(p),
    ensures
        #[trigger] can(sure(p)),
{
    let v = choose|v: T| gives(p, v);
    lemma_gives_more(p, v);
}

/// An attempt can work.
pub broadcast proof fn can_attempt<T, U>(p: Script<T>, k: spec_fn(Result<T, Fault>) -> Script<U>)
    requires
        can(p),
        forall|v: T| can(#[trigger] k(Ok::<T, Fault>(v))),
    ensures
        #[trigger] can(chain(attempt(p), k)),
{
    let v = choose|v: T| gives(p, v);
    lemma_gives_more(p, v);
    assert(can(k(Ok::<T, Fault>(v))));
    can_given(attempt(p), k, Ok(v));
}

/// Two scripts in a row, where the second can follow on whatever the first gives.
pub broadcast proof fn can_any<T, U>(p: Script<T>, k: spec_fn(T) -> Script<U>)
    requires
        can(p),
        forall|v: T| can(#[trigger] k(v)),
    ensures
        #[trigger] can(chain(p, k)),
{
    let v = choose|v: T| gives(p, v);
    assert(can(k(v)));
    can_given(p, k, v);
}

/// A plan can be carried out.
pub broadcast proof fn can_all_done(plan: Seq<Req>)
    ensures
        #[trigger] can(all_done(plan)),
    decreases plan.len(),
{
    reveal_with_fuel(all_done, 1);
    if plan.len() == 0 {
        can_give(());
    } else {
        let k = |u: ()| all_done(plan.drop_first());
        can_all_done(plan.drop_first());
        can_done(plan[0]);
        can_chain(done(plan[0]), k);
    }
}

/// What can succeed for each item of a list can succeed for all.
pub broadcast proof fn can_each<A>(list: Seq<A>, f: spec_fn(A) -> Script<()>)
    requires
        forall|i: int| 0 <= i < list.len() ==> can(f(#[trigger] list[i])),
    ensures
        #[trigger] can(each(list, f)),
    decreases list.len(),
{
    if list.len() == 0 {
        can_give(());
    } else {
        let rest = list.drop_first();
        assert forall|i: int| 0 <= i < rest.len() implies can(f(#[trigger] rest[i])) by {
            assert(rest[i] == list[i + 1]);
        }
        can_each(rest, f);
        let k = |u: ()| each(list.drop_first(), f);
        assert(can(f(list[0])));
        can_chain(f(list[0]), k);
    }
}

/// What can succeed.
pub broadcast group group_can {
    can_give,
    can_done,
    can_chain,
    can_flag,
    can_sure_flag,
    can_confirm,
    can_text,
    can_sure_text,
    can_texts,
    can_sure_tree,
    can_sure_profile,
    can_status,
    can_sure,
    can_attempt,
    can_all_done,
    can_each,
}

proof fn lemma_typed(b: bool) -> (line: Seq<char>)
    ensures
        choice(line) == Some(b),
{
    reveal_strlit("y");
    reveal_strlit("n");
    reveal_strlit("yes");
    reveal_strlit("no");
    let line = if b {
        "y"@
    } else {
        "n"@
    };
    assert(trimmed(line) =~= line) by {
        reveal_with_fuel(trimmed_end, 2);
        reveal_with_fuel(trimmed_start, 2);
    }
    assert(small_text(line) =~= line);
    law_ascii_choice(line);
    line
}

/// What a script can give, it gives in some run: there are answers with which it does.
pub proof fn law_can<T>(s: Session, p: Script<T>, v: T) -> (more: Seq<Answer>)
    requires
        s.asked.len() == s.answers.len(),
        gives(p, v),
    ensures
        run(with_more(s, more), p).out == Ok::<T, Halted>(v),
    decreases p,
{
    match p {
        Script::End(r) => seq![],
        Script::Ask(req, k) => {
            let a = choose|a: Answer| gives(#[trigger] k(a), v);
            let t = Session {
                build: s.build,
                answers: s.answers.push(a),
                asked: s.asked.push(req),
            };
            let rest = law_can(t, k(a), v);
            let more = seq![a] + rest;
            let u = with_more(s, more);
            assert(u.answers =~= t.answers + rest);
            assert(u.after(req) == with_more(t, rest));
            assert(u.next() == a);
            more
        },
        Script::Confirm(msg, k) => {
            let b = choose|b: bool| gives(#[trigger] k(Ok(b)), v);
            let line = lemma_typed(b);
            let ask = Req::Print { text: prompt(msg) };
            let t = Session {
                build: s.build,
                answers: s.answers.push(Answer::Done).push(Answer::Text(line)),
                asked: s.asked.push(ask).push(Req::ReadLine),
            };
            let rest = law_can(t, k(Ok(b)), v);
            let more = seq![Answer::Done, Answer::Text(line)] + rest;
            let u = with_more(s, more);
            assert(u.answers =~= t.answers + rest);
            assert(u.after(ask).after(Req::ReadLine) == with_more(t, rest));
            assert(u.next() == Answer::Done);
            assert(u.after(ask).next() == Answer::Text(line));
            assert(dialogue(u, msg).out == Ok::<bool, Halted>(b));
            more
        },
    }
}

}
