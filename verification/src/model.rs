//! Surroundings that keep a state: which answers can be relied on in a state, and what a request
//! makes of it. What an operation comes to in such surroundings is said of its script, and then
//! of every run in which the answers were those to be relied on.

use vstd::prelude::*;
use crate::request::{Answer, Req};
use crate::script::{
    all_done, as_done, as_flag, as_text, asks_only, bad_choice, chain, dialogue, done, flag, follow,
    law_run, lemma_anything, lemma_dialogue, on_success, prompt, run, sure, text, unwrapped, Halted,
    Script, Session, Stop,
};

verus! {

/// Surroundings with a state.
#[verifier::reject_recursive_types(S)]
pub struct Model<S> {
    /// The answer can come in this state.
    pub fits: spec_fn(S, Req, Answer) -> bool,
    /// The state after the request was answered so.
    pub step: spec_fn(S, Req, Answer) -> S,
}

/// To show a line to the user, or to read one, changes nothing.
pub open spec fn unmoved_by_talk<S>(m: Model<S>) -> bool {
    forall|s: S, req: Req, a: Answer|
        (req is Print || req is Eprint || req is ReadLine) ==> #[trigger] (m.step)(s, req, a) == s
}

/// From the state `s` on, the script makes only requests that are `ok` in the state in which they
/// are made, and where it succeeds, what it gives is `good` in the state that it leaves.
pub open spec fn leads<T, S>(
    p: Script<T>,
    m: Model<S>,
    s: S,
    ok: spec_fn(S, Req) -> bool,
    good: spec_fn(S, T) -> bool,
) -> bool
    decreases p,
{
    match p {
        Script::End(Ok(v)) => good(s, v),
        Script::End(Err(_)) => true,
        Script::Ask(req, k) => ok(s, req) && forall|a: Answer| #[trigger]
            (m.fits)(s, req, a) ==> leads(k(a), m, (m.step)(s, req, a), ok, good),
        Script::Confirm(msg, k) => ok(s, Req::Print { text: prompt(msg) }) && ok(s, Req::ReadLine)
            && ok(s, bad_choice()) && forall|r: Result<bool, Stop>|
            leads(#[trigger] k(r), m, s, ok, good),
    }
}

/// The state before the request number `at` of a session, where it was `s` before the request
/// number `from`.
pub open spec fn state_at<S>(m: Model<S>, s: S, t: Session, from: int, at: int) -> S
    decreases at - from,
{
    if at <= from {
        s
    } else {
        (m.step)(state_at(m, s, t, from, at - 1), t.asked[at - 1], t.answers[at - 1])
    }
}

/// From the request number `from` on, all answers were to be relied on.
pub open spec fn faithful<S>(m: Model<S>, s: S, t: Session, from: int) -> bool {
    forall|i: int|
        from <= i < t.asked.len() ==> (m.fits)(
            state_at(m, s, t, from, i),
            #[trigger] t.asked[i],
            t.answers[i],
        )
}

proof fn lemma_state_shift<S>(m: Model<S>, s: S, t: Session, from: int, at: int)
    requires
        from < at,
    ensures
        state_at(m, s, t, from, at) == state_at(
            m,
            (m.step)(s, t.asked[from], t.answers[from]),
            t,
            from + 1,
            at,
        ),
    decreases at - from,
{
    if at > from + 1 {
        lemma_state_shift(m, s, t, from, at - 1);
    } else {
        assert(state_at(m, s, t, from, from) == s);
    }
}

proof fn lemma_state_still<S>(m: Model<S>, s: S, t: Session, from: int, to: int, at: int)
    requires
        unmoved_by_talk(m),
        from <= to <= at,
        forall|i: int|
            from <= i < to ==> (#[trigger] t.asked[i]) is Print || t.asked[i] is Eprint
                || t.asked[i] is ReadLine,
    ensures
        state_at(m, s, t, from, at) == state_at(m, s, t, to, at),
        state_at(m, s, t, from, to) == s,
    decreases at - from,
{
    if at > to {
        lemma_state_still(m, s, t, from, to, at - 1);
    } else if to > from {
        lemma_state_still(m, s, t, from, to - 1, to - 1);
        let last = t.asked[to - 1];
        assert(last is Print || last is Eprint || last is ReadLine);
    }
}

/// In a run in which all answers were to be relied on, a script does what it leads to.
pub proof fn law_model<T, S>(
    m: Model<S>,
    s: S,
    t: Session,
    p: Script<T>,
    ok: spec_fn(S, Req) -> bool,
    good: spec_fn(S, T) -> bool,
)
    requires
        t.asked.len() <= t.answers.len(),
        unmoved_by_talk(m),
        leads(p, m, s, ok, good),
        faithful(m, s, run(t, p).now, t.asked.len() as int),
    ensures
        ({
            let r = run(t, p);
            let from = t.asked.len() as int;
            &&& forall|i: int|
                from <= i < r.now.asked.len() ==> ok(
                    state_at(m, s, r.now, from, i),
                    #[trigger] r.now.asked[i],
                )
            &&& r.out matches Ok(v) ==> good(
                state_at(m, s, r.now, from, r.now.asked.len() as int),
                v,
            )
        }),
    decreases p,
{
    let from = t.asked.len() as int;
    let r = run(t, p);
    let all = |req: Req| true;
    let any = |r: Result<T, Stop>| true;
    lemma_anything(p);
    law_run(t, p, all, any);
    match p {
        Script::End(_) => {},
        Script::Ask(req, k) => {
            if t.ready() {
                let a = t.next();
                let next = t.after(req);
                lemma_anything(k(a));
                law_run(next, k(a), all, any);
                assert(r.now.asked.take(next.asked.len() as int)[from] == req);
                assert(state_at(m, s, r.now, from, from) == s);
                assert((m.fits)(s, r.now.asked[from], r.now.answers[from]));
                let s1 = (m.step)(s, req, a);
                assert forall|i: int| from + 1 <= i < r.now.asked.len() implies (m.fits)(
                    state_at(m, s1, r.now, from + 1, i),
                    #[trigger] r.now.asked[i],
                    r.now.answers[i],
                ) by {
                    lemma_state_shift(m, s, r.now, from, i);
                }
                law_model(m, s1, next, k(a), ok, good);
                assert forall|i: int| from <= i < r.now.asked.len() implies ok(
                    state_at(m, s, r.now, from, i),
                    #[trigger] r.now.asked[i],
                ) by {
                    if i > from {
                        lemma_state_shift(m, s, r.now, from, i);
                    }
                }
                lemma_state_shift(m, s, r.now, from, r.now.asked.len() as int);
            }
        },
        Script::Confirm(msg, k) => {
            lemma_dialogue(t, msg);
            let talk = dialogue(t, msg);
            let to = talk.now.asked.len() as int;
            let reply = match talk.out {
                Ok(b) => Ok(b),
                Err(Halted::Stopped(e)) => Err(e),
                Err(Halted::Pending(req)) => Ok(true),
            };
            lemma_anything(k(reply));
            law_run(talk.now, k(reply), all, any);
            let pending = talk.out matches Err(Halted::Pending(_));
            assert forall|i: int| from <= i < to implies r.now.asked[i] == talk.now.asked[i] by {
                if !pending {
                    assert(r.now.asked.take(to)[i] == talk.now.asked[i]);
                }
            }
            assert forall|i: int| from <= i < to implies (#[trigger] r.now.asked[i]) is Print
                || r.now.asked[i] is Eprint || r.now.asked[i] is ReadLine by {
                assert(talk.now.asked[i] == r.now.asked[i]);
            }
            assert forall|i: int| from <= i < to implies ok(
                state_at(m, s, r.now, from, i),
                #[trigger] r.now.asked[i],
            ) by {
                lemma_state_still(m, s, r.now, from, i, i);
                assert(talk.now.asked[i] == r.now.asked[i]);
            }
            if !pending {
                assert forall|i: int| to <= i < r.now.asked.len() implies (m.fits)(
                    state_at(m, s, r.now, to, i),
                    #[trigger] r.now.asked[i],
                    r.now.answers[i],
                ) by {
                    lemma_state_still(m, s, r.now, from, to, i);
                }
                assert(leads(k(reply), m, s, ok, good));
                law_model(m, s, talk.now, k(reply), ok, good);
                assert forall|i: int| from <= i < r.now.asked.len() implies ok(
                    state_at(m, s, r.now, from, i),
                    #[trigger] r.now.asked[i],
                ) by {
                    if i >= to {
                        lemma_state_still(m, s, r.now, from, to, i);
                    }
                }
                lemma_state_still(m, s, r.now, from, to, r.now.asked.len() as int);
            }
        },
    }
}

// ------------------------------------------------------------------- proving

/// Two scripts in a row: the second goes on from the states that the first can leave.
pub proof fn lemma_leads_chain<T, U, S>(
    p: Script<T>,
    k: spec_fn(T) -> Script<U>,
    m: Model<S>,
    s: S,
    ok: spec_fn(S, Req) -> bool,
    mid: spec_fn(S, T) -> bool,
    good: spec_fn(S, U) -> bool,
)
    requires
        leads(p, m, s, ok, mid),
        forall|s1: S, v: T| #[trigger] mid(s1, v) ==> leads(k(v), m, s1, ok, good),
    ensures
        leads(chain(p, k), m, s, ok, good),
    decreases p,
{
    let f = on_success(k);
    match p {
        Script::End(_) => {},
        Script::Ask(req, c) => {
            if let Script::Ask(_, next) = follow(p, f) {
                assert forall|a: Answer| #[trigger] (m.fits)(s, req, a) implies leads(
                    next(a),
                    m,
                    (m.step)(s, req, a),
                    ok,
                    good,
                ) by {
                    assert(next(a) == follow(c(a), f));
                    lemma_leads_chain(c(a), k, m, (m.step)(s, req, a), ok, mid, good);
                }
            }
        },
        Script::Confirm(msg, c) => {
            if let Script::Confirm(_, next) = follow(p, f) {
                assert forall|r: Result<bool, Stop>| leads(#[trigger] next(r), m, s, ok, good) by {
                    assert(next(r) == follow(c(r), f));
                    assert(leads(c(r), m, s, ok, mid));
                    lemma_leads_chain(c(r), k, m, s, ok, mid, good);
                }
            }
        },
    }
}

/// To count on success changes nothing of what a success comes to.
pub proof fn lemma_leads_sure<T, S>(
    p: Script<T>,
    m: Model<S>,
    s: S,
    ok: spec_fn(S, Req) -> bool,
    good: spec_fn(S, T) -> bool,
)
    requires
        leads(p, m, s, ok, good),
    ensures
        leads(sure(p), m, s, ok, good),
    decreases p,
{
    let f = |r: Result<T, Stop>| Script::<T>::End(unwrapped(r));
    match p {
        Script::End(_) => {},
        Script::Ask(req, c) => {
            if let Script::Ask(_, next) = sure(p) {
                assert forall|a: Answer| #[trigger] (m.fits)(s, req, a) implies leads(
                    next(a),
                    m,
                    (m.step)(s, req, a),
                    ok,
                    good,
                ) by {
                    assert(next(a) == sure(c(a)));
                    lemma_leads_sure(c(a), m, (m.step)(s, req, a), ok, good);
                }
            }
        },
        Script::Confirm(msg, c) => {
            if let Script::Confirm(_, next) = sure(p) {
                assert forall|r: Result<bool, Stop>| leads(#[trigger] next(r), m, s, ok, good) by {
                    assert(next(r) == sure(c(r)));
                    assert(leads(c(r), m, s, ok, good));
                    lemma_leads_sure(c(r), m, s, ok, good);
                }
            }
        },
    }
}

/// A script keeps what all its requests keep.
pub proof fn lemma_leads_keeping<T, S>(
    p: Script<T>,
    m: Model<S>,
    s: S,
    ok: spec_fn(S, Req) -> bool,
    inv: spec_fn(S) -> bool,
    calm: spec_fn(Req) -> bool,
)
    requires
        inv(s),
        unmoved_by_talk(m),
        asks_only(p, calm),
        forall|s1: S, req: Req| calm(req) && inv(s1) ==> #[trigger] ok(s1, req),
        forall|s1: S, req: Req, a: Answer|
            calm(req) && inv(s1) ==> inv(#[trigger] (m.step)(s1, req, a)),
    ensures
        leads(p, m, s, ok, |s1: S, v: T| inv(s1)),
    decreases p,
{
    match p {
        Script::End(_) => {},
        Script::Ask(req, k) => {
            assert forall|a: Answer| #[trigger] (m.fits)(s, req, a) implies leads(
                k(a),
                m,
                (m.step)(s, req, a),
                ok,
                |s1: S, v: T| inv(s1),
            ) by {
                assert(asks_only(k(a), calm));
                lemma_leads_keeping(k(a), m, (m.step)(s, req, a), ok, inv, calm);
            }
        },
        Script::Confirm(msg, k) => {
            assert forall|r: Result<bool, Stop>|
                leads(#[trigger] k(r), m, s, ok, |s1: S, v: T| inv(s1)) by {
                lemma_leads_keeping(k(r), m, s, ok, inv, calm);
            }
        },
    }
}

/// What is good can be replaced by what follows from it.
pub proof fn lemma_leads_weaker<T, S>(
    p: Script<T>,
    m: Model<S>,
    s: S,
    ok: spec_fn(S, Req) -> bool,
    good: spec_fn(S, T) -> bool,
    fine: spec_fn(S, T) -> bool,
)
    requires
        leads(p, m, s, ok, good),
        forall|s1: S, v: T| #[trigger] good(s1, v) ==> fine(s1, v),
    ensures
        leads(p, m, s, ok, fine),
    decreases p,
{
    match p {
        Script::End(_) => {},
        Script::Ask(req, k) => {
            assert forall|a: Answer| #[trigger] (m.fits)(s, req, a) implies leads(
                k(a),
                m,
                (m.step)(s, req, a),
                ok,
                fine,
            ) by {
                lemma_leads_weaker(k(a), m, (m.step)(s, req, a), ok, good, fine);
            }
        },
        Script::Confirm(msg, k) => {
            assert forall|r: Result<bool, Stop>| leads(#[trigger] k(r), m, s, ok, fine) by {
                assert(leads(k(r), m, s, ok, good));
                lemma_leads_weaker(k(r), m, s, ok, good, fine);
            }
        },
    }
}

/// What holds in surroundings holds where fewer answers can come.
pub proof fn lemma_leads_narrower<T, S>(
    p: Script<T>,
    m: Model<S>,
    n: Model<S>,
    s: S,
    ok: spec_fn(S, Req) -> bool,
    good: spec_fn(S, T) -> bool,
)
    requires
        leads(p, m, s, ok, good),
        forall|s1: S, req: Req, a: Answer| #[trigger]
            (n.fits)(s1, req, a) ==> (m.fits)(s1, req, a) && (n.step)(s1, req, a) == (m.step)(
                s1,
                req,
                a,
            ),
    ensures
        leads(p, n, s, ok, good),
    decreases p,
{
    match p {
        Script::End(_) => {},
        Script::Ask(req, k) => {
            assert forall|a: Answer| #[trigger] (n.fits)(s, req, a) implies leads(
                k(a),
                n,
                (n.step)(s, req, a),
                ok,
                good,
            ) by {
                assert((m.fits)(s, req, a));
                lemma_leads_narrower(k(a), m, n, (m.step)(s, req, a), ok, good);
            }
        },
        Script::Confirm(msg, k) => {
            assert forall|r: Result<bool, Stop>| leads(#[trigger] k(r), n, s, ok, good) by {
                assert(leads(k(r), m, s, ok, good));
                lemma_leads_narrower(k(r), m, n, s, ok, good);
            }
        },
    }
}

/// A request that is to be carried out.
pub proof fn lemma_leads_done<S>(
    req: Req,
    m: Model<S>,
    s: S,
    ok: spec_fn(S, Req) -> bool,
    good: spec_fn(S, ()) -> bool,
)
    requires
        ok(s, req),
        good((m.step)(s, req, Answer::Done), ()),
    ensures
        leads(done(req), m, s, ok, good),
{
    reveal_with_fuel(leads, 2);
    if let Script::Ask(_, k) = done(req) {
        assert forall|a: Answer| #[trigger] (m.fits)(s, req, a) implies leads(
            k(a),
            m,
            (m.step)(s, req, a),
            ok,
            good,
        ) by {
            assert(k(a) == Script::<()>::End(as_done(a)));
        }
    }
}

/// A request for a text.
pub proof fn lemma_leads_text<S>(
    req: Req,
    m: Model<S>,
    s: S,
    ok: spec_fn(S, Req) -> bool,
    good: spec_fn(S, Seq<char>) -> bool,
)
    requires
        ok(s, req),
        forall|t: Seq<char>| #[trigger]
            (m.fits)(s, req, Answer::Text(t)) ==> good((m.step)(s, req, Answer::Text(t)), t),
    ensures
        leads(text(req), m, s, ok, good),
{
    reveal_with_fuel(leads, 2);
    if let Script::Ask(_, k) = text(req) {
        assert forall|a: Answer| #[trigger] (m.fits)(s, req, a) implies leads(
            k(a),
            m,
            (m.step)(s, req, a),
            ok,
            good,
        ) by {
            assert(k(a) == Script::<Seq<char>>::End(as_text(a)));
        }
    }
}

/// A request for a yes or a no.
pub proof fn lemma_leads_flag<S>(
    req: Req,
    m: Model<S>,
    s: S,
    ok: spec_fn(S, Req) -> bool,
    good: spec_fn(S, bool) -> bool,
)
    requires
        ok(s, req),
        forall|b: bool| #[trigger]
            (m.fits)(s, req, Answer::Flag(b)) ==> good((m.step)(s, req, Answer::Flag(b)), b),
    ensures
        leads(flag(req), m, s, ok, good),
{
    reveal_with_fuel(leads, 2);
    if let Script::Ask(_, k) = flag(req) {
        assert forall|a: Answer| #[trigger] (m.fits)(s, req, a) implies leads(
            k(a),
            m,
            (m.step)(s, req, a),
            ok,
            good,
        ) by {
            assert(k(a) == Script::<bool>::End(as_flag(a)));
        }
    }
}

/// Requests that are carried out one after the other.
pub proof fn lemma_leads_all_done<S>(
    plan: Seq<Req>,
    m: Model<S>,
    s: S,
    ok: spec_fn(S, Req) -> bool,
    inv: spec_fn(int, S) -> bool,
    n: int,
)
    requires
        inv(n, s),
        forall|i: int, s1: S|
            0 <= i < plan.len() && #[trigger] inv(n + i, s1) ==> ok(s1, plan[i]) && inv(
                n + i + 1,
                (m.step)(s1, plan[i], Answer::Done),
            ),
    ensures
        leads(all_done(plan), m, s, ok, |s1: S, u: ()| inv(n + plan.len(), s1)),
    decreases plan.len(),
{
    reveal_with_fuel(all_done, 1);
    let good = |s1: S, u: ()| inv(n + plan.len(), s1);
    if plan.len() > 0 {
        let rest = plan.drop_first();
        let mid = |s1: S, u: ()| inv(n + 1, s1);
        assert(inv(n + 0, s));
        lemma_leads_done(plan[0], m, s, ok, mid);
        assert forall|s1: S, u: ()| #[trigger] mid(s1, u) implies leads(
            all_done(rest),
            m,
            s1,
            ok,
            good,
        ) by {
            assert forall|i: int, s2: S|
                0 <= i < rest.len() && #[trigger] inv(n + 1 + i, s2) implies ok(s2, rest[i]) && inv(
                n + 1 + i + 1,
                (m.step)(s2, rest[i], Answer::Done),
            ) by {
                assert(rest[i] == plan[i + 1]);
                assert(inv(n + (i + 1), s2));
            }
            lemma_leads_all_done(rest, m, s1, ok, inv, n + 1);
            lemma_leads_weaker(
                all_done(rest),
                m,
                s1,
                ok,
                |s1: S, u: ()| inv(n + 1 + rest.len(), s1),
                good,
            );
        }
        lemma_leads_chain(done(plan[0]), |u: ()| all_done(rest), m, s, ok, mid, good);
    }
}

}
