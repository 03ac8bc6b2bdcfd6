//! What a run leaves on record: the requests of some kind that it made, in order, each with the
//! answer that it got.

use vstd::prelude::*;
use crate::request::{Answer, Req};
use crate::script::{
    all_done, as_done, as_flag, as_profile, as_status, as_text, as_texts, as_tree, asks_only,
    attempt, bad_choice, chain, dialogue, done, each, flag, follow, on_success, profile, prompt,
    run, status, sure, text, texts, tree, Halted, Run, Script, Session, Stop,
};

verus! {

broadcast use crate::script::group_run;

/// The requests that were made so far, each with its answer.
pub open spec fn exchanges(s: Session) -> Seq<(Req, Answer)> {
    Seq::new(s.asked.len(), |i: int| (s.asked[i], s.answers[i]))
}

/// Those exchanges whose request is one of `keep`.
pub open spec fn sift(list: Seq<(Req, Answer)>, keep: spec_fn(Req) -> bool) -> Seq<(Req, Answer)>
    decreases list.len(),
{
    if list.len() == 0 {
        seq![]
    } else if keep(list[0].0) {
        seq![list[0]] + sift(list.drop_first(), keep)
    } else {
        sift(list.drop_first(), keep)
    }
}

/// The requests of `keep` that a run of `p` makes, in order, each with its answer.
#[verifier::opaque]
pub open spec fn record<T>(s: Session, p: Script<T>, keep: spec_fn(Req) -> bool) -> Seq<
    (Req, Answer),
> {
    sift(exchanges(run(s, p).now).skip(s.asked.len() as int), keep)
}

/// The requests that are not of `keep`.
pub open spec fn others(keep: spec_fn(Req) -> bool) -> spec_fn(Req) -> bool {
    |req: Req| !keep(req)
}

/// Requests that were carried out.
pub open spec fn did(plan: Seq<Req>) -> Seq<(Req, Answer)> {
    Seq::new(plan.len(), |i: int| (plan[i], Answer::Done))
}

pub proof fn lemma_sift_add(
    a: Seq<(Req, Answer)>,
    b: Seq<(Req, Answer)>,
    keep: spec_fn(Req) -> bool,
)
    ensures
        sift(a + b, keep) == sift(a, keep) + sift(b, keep),
    decreases a.len(),
{
    if a.len() == 0 {
        assert(a + b =~= b);
    } else {
        assert((a + b).drop_first() =~= a.drop_first() + b);
        lemma_sift_add(a.drop_first(), b, keep);
    }
}

pub proof fn lemma_sift_none(list: Seq<(Req, Answer)>, keep: spec_fn(Req) -> bool)
    requires
        forall|i: int| 0 <= i < list.len() ==> !keep(#[trigger] list[i].0),
    ensures
        sift(list, keep) == Seq::<(Req, Answer)>::empty(),
    decreases list.len(),
{
    if list.len() > 0 {
        assert(!keep(list[0].0));
        assert forall|i: int| 0 <= i < list.drop_first().len() implies !keep(
            #[trigger] list.drop_first()[i].0,
        ) by {
            assert(list.drop_first()[i] == list[i + 1]);
        }
        lemma_sift_none(list.drop_first(), keep);
    }
}

proof fn lemma_dialogue_grows(s: Session, msg: Seq<char>)
    ensures
        ({
            let now = dialogue(s, msg).now;
            &&& now.answers == s.answers
            &&& s.asked.len() <= now.asked.len()
            &&& forall|i: int| 0 <= i < s.asked.len() ==> #[trigger] now.asked[i] == s.asked[i]
            &&& forall|i: int|
                s.asked.len() <= i < now.asked.len() ==> {
                    ||| #[trigger] now.asked[i] == (Req::Print { text: prompt(msg) })
                    ||| now.asked[i] == Req::ReadLine
                    ||| now.asked[i] == bad_choice()
                }
        }),
    decreases s.answers.len() - s.asked.len(),
{
    let again = s.after(Req::Print { text: prompt(msg) }).after(Req::ReadLine).after(bad_choice());
    if again.asked.len() <= again.answers.len() {
        lemma_dialogue_grows(again, msg);
        let now = dialogue(again, msg).now;
        assert forall|i: int| 0 <= i < again.asked.len() implies #[trigger] now.asked[i]
            == again.asked[i] by {}
    }
}

/// A run keeps the answers and the requests before it.
pub proof fn lemma_run_grows<T>(s: Session, p: Script<T>)
    ensures
        ({
            let now = run(s, p).now;
            &&& now.answers == s.answers
            &&& s.asked.len() <= now.asked.len()
            &&& forall|i: int| 0 <= i < s.asked.len() ==> #[trigger] now.asked[i] == s.asked[i]
        }),
    decreases p,
{
    match p {
        Script::End(_) => {},
        Script::Ask(req, k) => {
            if s.ready() {
                lemma_run_grows(s.after(req), k(s.next()));
                let now = run(s, p).now;
                assert forall|i: int| 0 <= i < s.asked.len() implies #[trigger] now.asked[i]
                    == s.asked[i] by {
                    assert(now.asked[i] == s.after(req).asked[i]);
                }
            }
        },
        Script::Confirm(msg, k) => {
            lemma_dialogue_grows(s, msg);
            let talk = dialogue(s, msg);
            match talk.out {
                Ok(b) => lemma_run_grows(talk.now, k(Ok(b))),
                Err(Halted::Stopped(e)) => lemma_run_grows(talk.now, k(Err(e))),
                Err(Halted::Pending(_)) => {},
            }
        },
    }
}

proof fn lemma_parts(a: Session, b: Session, c: Session, keep: spec_fn(Req) -> bool)
    requires
        b.answers == a.answers,
        c.answers == a.answers,
        a.asked.len() <= b.asked.len() <= c.asked.len(),
        forall|i: int| 0 <= i < a.asked.len() ==> #[trigger] b.asked[i] == a.asked[i],
        forall|i: int| 0 <= i < b.asked.len() ==> #[trigger] c.asked[i] == b.asked[i],
    ensures
        sift(exchanges(c).skip(a.asked.len() as int), keep) == sift(
            exchanges(b).skip(a.asked.len() as int),
            keep,
        ) + sift(exchanges(c).skip(b.asked.len() as int), keep),
{
    let first = exchanges(b).skip(a.asked.len() as int);
    let rest = exchanges(c).skip(b.asked.len() as int);
    assert(exchanges(c).skip(a.asked.len() as int) =~= first + rest);
    lemma_sift_add(first, rest, keep);
}

/// Two scripts in a row leave the one's record and then the other's.
pub broadcast proof fn record_follow<T, U>(
    s: Session,
    p: Script<T>,
    k: spec_fn(Result<T, Stop>) -> Script<U>,
    keep: spec_fn(Req) -> bool,
)
    ensures
        #[trigger] record(s, follow(p, k), keep) == match run(s, p).out {
            Ok(v) => record(s, p, keep) + record(run(s, p).now, k(Ok(v)), keep),
            Err(Halted::Stopped(e)) => record(s, p, keep) + record(run(s, p).now, k(Err(e)), keep),
            Err(Halted::Pending(_)) => record(s, p, keep),
        },
{
    reveal(record);
    let r = run(s, p);
    lemma_run_grows(s, p);
    match r.out {
        Ok(v) => {
            lemma_run_grows(r.now, k(Ok(v)));
            lemma_parts(s, r.now, run(r.now, k(Ok(v))).now, keep);
        },
        Err(Halted::Stopped(e)) => {
            lemma_run_grows(r.now, k(Err(e)));
            lemma_parts(s, r.now, run(r.now, k(Err(e))).now, keep);
        },
        Err(Halted::Pending(_)) => {},
    }
}

/// The end of a script leaves nothing on record.
pub broadcast proof fn record_end<T>(s: Session, end: Result<T, Stop>, keep: spec_fn(Req) -> bool)
    ensures
        #[trigger] record(s, Script::End(end), keep) == Seq::<(Req, Answer)>::empty(),
{
    reveal(record);
    assert(exchanges(s).skip(s.asked.len() as int) =~= Seq::<(Req, Answer)>::empty());
}

/// A request is on record where it is of `keep` and was answered.
pub broadcast proof fn record_ask<T>(
    s: Session,
    req: Req,
    k: spec_fn(Answer) -> Script<T>,
    keep: spec_fn(Req) -> bool,
)
    ensures
        #[trigger] record(s, Script::Ask(req, k), keep) == if s.ready() {
            if keep(req) {
                seq![(req, s.next())] + record(s.after(req), k(s.next()), keep)
            } else {
                record(s.after(req), k(s.next()), keep)
            }
        } else {
            Seq::<(Req, Answer)>::empty()
        },
{
    reveal(record);
    if s.ready() {
        let t = s.after(req);
        lemma_run_grows(t, k(s.next()));
        lemma_parts(s, t, run(t, k(s.next())).now, keep);
        let one = exchanges(t).skip(s.asked.len() as int);
        assert(one =~= seq![(req, s.next())]);
        assert(one.drop_first() =~= Seq::<(Req, Answer)>::empty());
        reveal_with_fuel(sift, 2);
        assert(sift(one, keep) =~= if keep(req) {
            seq![(req, s.next())]
        } else {
            Seq::<(Req, Answer)>::empty()
        });
    } else {
        assert(exchanges(s).skip(s.asked.len() as int) =~= Seq::<(Req, Answer)>::empty());
    }
}

/// What a script cannot ask for is not on record.
pub broadcast proof fn record_quiet<T>(s: Session, p: Script<T>, keep: spec_fn(Req) -> bool)
    requires
        asks_only(p, others(keep)),
    ensures
        #[trigger] record(s, p, keep) == Seq::<(Req, Answer)>::empty(),
    decreases p,
{
    match p {
        Script::End(r) => {
            record_end(s, r, keep);
        },
        Script::Ask(req, k) => {
            record_ask(s, req, k, keep);
            if s.ready() {
                assert(asks_only(k(s.next()), others(keep)));
                record_quiet(s.after(req), k(s.next()), keep);
            }
        },
        Script::Confirm(msg, k) => {
            reveal(record);
            lemma_dialogue_grows(s, msg);
            let talk = dialogue(s, msg);
            let first = exchanges(talk.now).skip(s.asked.len() as int);
            assert forall|i: int| 0 <= i < first.len() implies !keep(#[trigger] first[i].0) by {
                assert(first[i].0 == talk.now.asked[s.asked.len() + i]);
            }
            lemma_sift_none(first, keep);
            match talk.out {
                Ok(b) => {
                    lemma_run_grows(talk.now, k(Ok(b)));
                    assert(asks_only(k(Ok(b)), others(keep)));
                    record_quiet(talk.now, k(Ok(b)), keep);
                    lemma_parts(s, talk.now, run(talk.now, k(Ok(b))).now, keep);
                },
                Err(Halted::Stopped(e)) => {
                    lemma_run_grows(talk.now, k(Err(e)));
                    assert(asks_only(k(Err(e)), others(keep)));
                    record_quiet(talk.now, k(Err(e)), keep);
                    lemma_parts(s, talk.now, run(talk.now, k(Err(e))).now, keep);
                },
                Err(Halted::Pending(_)) => {},
            }
        },
    }
}

/// What is on record is what the script can ask for.
pub proof fn lemma_record_only<T>(
    s: Session,
    p: Script<T>,
    keep: spec_fn(Req) -> bool,
    ok: spec_fn(Req) -> bool,
)
    requires
        asks_only(p, ok),
    ensures
        forall|i: int| 0 <= i < record(s, p, keep).len() ==> ok((#[trigger] record(s, p, keep)[i]).0),
{
    reveal(record);
    let now = run(s, p).now;
    lemma_run_asks(s, p, ok);
    lemma_run_grows(s, p);
    let list = exchanges(now).skip(s.asked.len() as int);
    assert forall|i: int| 0 <= i < list.len() implies ok((#[trigger] list[i]).0) by {
        assert(list[i].0 == now.asked[s.asked.len() + i]);
    }
    lemma_sift_only(list, keep, ok);
}

/// All that a script asks for is on record where all that it can ask for is of `keep`.
pub proof fn lemma_record_whole<T>(s: Session, p: Script<T>, keep: spec_fn(Req) -> bool)
    requires
        asks_only(p, keep),
    ensures
        record(s, p, keep) == exchanges(run(s, p).now).skip(s.asked.len() as int),
{
    reveal(record);
    let now = run(s, p).now;
    lemma_run_asks(s, p, keep);
    lemma_run_grows(s, p);
    let list = exchanges(now).skip(s.asked.len() as int);
    assert forall|i: int| 0 <= i < list.len() implies keep((#[trigger] list[i]).0) by {
        assert(list[i].0 == now.asked[s.asked.len() + i]);
    }
    lemma_sift_all(list, keep);
}

proof fn lemma_run_asks<T>(s: Session, p: Script<T>, ok: spec_fn(Req) -> bool)
    requires
        asks_only(p, ok),
    ensures
        forall|i: int|
            s.asked.len() <= i < run(s, p).now.asked.len() ==> ok(#[trigger] run(s, p).now.asked[i]),
    decreases p,
{
    match p {
        Script::End(_) => {},
        Script::Ask(req, k) => {
            if s.ready() {
                let t = s.after(req);
                assert(asks_only(k(s.next()), ok));
                lemma_run_asks(t, k(s.next()), ok);
                lemma_run_grows(t, k(s.next()));
                let now = run(t, k(s.next())).now;
                assert(now.asked[s.asked.len() as int] == t.asked[s.asked.len() as int]);
            }
        },
        Script::Confirm(msg, k) => {
            lemma_dialogue_grows(s, msg);
            let talk = dialogue(s, msg);
            let r: Result<bool, Stop> = match talk.out {
                Ok(b) => Ok(b),
                Err(Halted::Stopped(e)) => Err(e),
                Err(Halted::Pending(_)) => Ok(true),
            };
            assert(asks_only(k(r), ok));
            lemma_run_asks(talk.now, k(r), ok);
            lemma_run_grows(talk.now, k(r));
            let now = run(talk.now, k(r)).now;
            assert forall|i: int| s.asked.len() <= i < talk.now.asked.len() implies ok(
                #[trigger] now.asked[i],
            ) by {
                assert(now.asked[i] == talk.now.asked[i]);
            }
        },
    }
}

proof fn lemma_sift_only(
    list: Seq<(Req, Answer)>,
    keep: spec_fn(Req) -> bool,
    ok: spec_fn(Req) -> bool,
)
    requires
        forall|i: int| 0 <= i < list.len() ==> ok((#[trigger] list[i]).0),
    ensures
        forall|i: int| 0 <= i < sift(list, keep).len() ==> ok((#[trigger] sift(list, keep)[i]).0),
    decreases list.len(),
{
    if list.len() > 0 {
        assert(ok(list[0].0));
        assert forall|i: int| 0 <= i < list.drop_first().len() implies ok(
            (#[trigger] list.drop_first()[i]).0,
        ) by {
            assert(list.drop_first()[i] == list[i + 1]);
        }
        lemma_sift_only(list.drop_first(), keep, ok);
        let rest = sift(list.drop_first(), keep);
        assert forall|i: int| 0 <= i < sift(list, keep).len() implies ok(
            (#[trigger] sift(list, keep)[i]).0,
        ) by {
            if keep(list[0].0) && i > 0 {
                assert(sift(list, keep)[i] == rest[i - 1]);
            }
        }
    }
}

/// Where a plan is carried out, the requests of `keep` in it are on record.
pub broadcast proof fn record_all_done(s: Session, plan: Seq<Req>, keep: spec_fn(Req) -> bool)
    ensures
        run(s, all_done(plan)).out is Ok ==> #[trigger] record(s, all_done(plan), keep) == sift(
            did(plan),
            keep,
        ),
    decreases plan.len(),
{
    broadcast use {record_follow, record_end, record_ask};

    reveal_with_fuel(all_done, 1);
    reveal_with_fuel(run, 2);
    if plan.len() > 0 {
        let rest = plan.drop_first();
        assert(did(plan).drop_first() =~= did(rest));
        record_all_done(s.after(plan[0]), rest, keep);
        let k = |u: ()| all_done(plan.drop_first());
        assert(all_done(plan) == chain(done(plan[0]), k));
        assert(run(s, all_done(plan)) == crate::script::run_on(run(s, done(plan[0])), on_success(k)));
        if s.ready() && s.next() is Done {
            assert(run(s, done(plan[0])).out == Ok::<(), Halted>(()));
            assert(run(s, done(plan[0])).now == s.after(plan[0]));
            assert(on_success(k)(Ok(())) == all_done(rest));
        }
    }
}

/// What comes of a request that is to be carried out.
pub broadcast proof fn run_done(s: Session, req: Req)
    ensures
        #[trigger] run(s, done(req)) == (if s.ready() {
            Run {
                now: s.after(req),
                out: match as_done(s.next()) {
                    Ok(v) => Ok(v),
                    Err(e) => Err(Halted::Stopped(e)),
                },
            }
        } else {
            Run { now: s, out: Err(Halted::Pending(req)) }
        }),
{
    reveal_with_fuel(run, 2);
}

/// What comes of a request for a yes or a no.
pub broadcast proof fn run_flag(s: Session, req: Req)
    ensures
        #[trigger] run(s, flag(req)) == (if s.ready() {
            Run {
                now: s.after(req),
                out: match as_flag(s.next()) {
                    Ok(v) => Ok(v),
                    Err(e) => Err(Halted::Stopped(e)),
                },
            }
        } else {
            Run { now: s, out: Err(Halted::Pending(req)) }
        }),
{
    reveal_with_fuel(run, 2);
}

/// What comes of a request for a text.
pub broadcast proof fn run_text(s: Session, req: Req)
    ensures
        #[trigger] run(s, text(req)) == (if s.ready() {
            Run {
                now: s.after(req),
                out: match as_text(s.next()) {
                    Ok(v) => Ok(v),
                    Err(e) => Err(Halted::Stopped(e)),
                },
            }
        } else {
            Run { now: s, out: Err(Halted::Pending(req)) }
        }),
{
    reveal_with_fuel(run, 2);
}

/// What comes of a request for a list of texts.
pub broadcast proof fn run_texts(s: Session, req: Req)
    ensures
        #[trigger] run(s, texts(req)) == (if s.ready() {
            Run {
                now: s.after(req),
                out: match as_texts(s.next()) {
                    Ok(v) => Ok(v),
                    Err(e) => Err(Halted::Stopped(e)),
                },
            }
        } else {
            Run { now: s, out: Err(Halted::Pending(req)) }
        }),
{
    reveal_with_fuel(run, 2);
}

/// What comes of a request for a profile.
pub broadcast proof fn run_profile(s: Session, req: Req)
    ensures
        #[trigger] run(s, profile(req)) == (if s.ready() {
            Run {
                now: s.after(req),
                out: match as_profile(s.next()) {
                    Ok(v) => Ok(v),
                    Err(e) => Err(Halted::Stopped(e)),
                },
            }
        } else {
            Run { now: s, out: Err(Halted::Pending(req)) }
        }),
{
    reveal_with_fuel(run, 2);
}

/// What comes of a request for a tree.
pub broadcast proof fn run_tree(s: Session, req: Req)
    ensures
        #[trigger] run(s, tree(req)) == (if s.ready() {
            Run {
                now: s.after(req),
                out: match as_tree(s.next()) {
                    Ok(v) => Ok(v),
                    Err(e) => Err(Halted::Stopped(e)),
                },
            }
        } else {
            Run { now: s, out: Err(Halted::Pending(req)) }
        }),
{
    reveal_with_fuel(run, 2);
}

/// What comes of a request for how a process ends.
pub broadcast proof fn run_status(s: Session, req: Req)
    ensures
        #[trigger] run(s, status(req)) == (if s.ready() {
            Run {
                now: s.after(req),
                out: match as_status(s.next()) {
                    Ok(v) => Ok(v),
                    Err(e) => Err(Halted::Stopped(e)),
                },
            }
        } else {
            Run { now: s, out: Err(Halted::Pending(req)) }
        }),
{
    reveal_with_fuel(run, 2);
}

/// Where two scripts in a row succeed, the second goes on with what the first gave.
pub broadcast proof fn ok_chain<T, U>(
    s: Session,
    p: Script<T>,
    k: spec_fn(T) -> Script<U>,
    keep: spec_fn(Req) -> bool,
)
    requires
        run(s, chain(p, k)).out is Ok,
    ensures
        run(s, p).out is Ok,
        run(s, chain(p, k)) == run(run(s, p).now, k(run(s, p).out->Ok_0)),
        #[trigger] record(s, chain(p, k), keep) == record(s, p, keep) + record(
            run(s, p).now,
            k(run(s, p).out->Ok_0),
            keep,
        ),
{
    record_follow(s, p, on_success(k), keep);
}

/// A request that was carried out is on record where it is of `keep`.
pub broadcast proof fn ok_done(s: Session, req: Req, keep: spec_fn(Req) -> bool)
    requires
        run(s, done(req)).out is Ok,
    ensures
        #[trigger] record(s, done(req), keep) == if keep(req) {
            did(seq![req])
        } else {
            Seq::<(Req, Answer)>::empty()
        },
{
    broadcast use {record_ask, record_end, run_done};

    assert(did(seq![req]) =~= seq![(req, Answer::Done)]);
}

/// A plan of requests of `keep` that was carried out is on record.
pub broadcast proof fn ok_all_done(s: Session, plan: Seq<Req>, keep: spec_fn(Req) -> bool)
    requires
        run(s, all_done(plan)).out is Ok,
        forall|i: int| 0 <= i < plan.len() ==> keep(#[trigger] plan[i]),
    ensures
        #[trigger] record(s, all_done(plan), keep) == did(plan),
{
    record_all_done(s, plan, keep);
    lemma_sift_all(did(plan), keep);
}

pub proof fn lemma_sift_all(list: Seq<(Req, Answer)>, keep: spec_fn(Req) -> bool)
    requires
        forall|i: int| 0 <= i < list.len() ==> keep(#[trigger] list[i].0),
    ensures
        sift(list, keep) == list,
    decreases list.len(),
{
    if list.len() > 0 {
        assert(keep(list[0].0));
        assert forall|i: int| 0 <= i < list.drop_first().len() implies keep(
            #[trigger] list.drop_first()[i].0,
        ) by {
            assert(list.drop_first()[i] == list[i + 1]);
        }
        lemma_sift_all(list.drop_first(), keep);
        assert(seq![list[0]] + list.drop_first() =~= list);
    }
}

/// An attempt comes to what the script comes to, its failure apart.
pub broadcast proof fn ok_attempt<T>(s: Session, p: Script<T>, keep: spec_fn(Req) -> bool)
    requires
        run(s, attempt(p)).out is Ok,
    ensures
        run(s, attempt(p)).now == run(s, p).now,
        #[trigger] record(s, attempt(p), keep) == record(s, p, keep),
        match run(s, attempt(p)).out->Ok_0 {
            Ok(v) => run(s, p).out == Ok::<T, Halted>(v),
            Err(e) => run(s, p).out == Err::<T, Halted>(Halted::Stopped(Stop::Failed(e))),
        },
{
    broadcast use {record_follow, record_end};

    assert(record(s, attempt(p), keep) =~= record(s, p, keep));
}

/// What the program counts on comes to what the script comes to.
pub broadcast proof fn ok_sure<T>(s: Session, p: Script<T>, keep: spec_fn(Req) -> bool)
    requires
        run(s, sure(p)).out is Ok,
    ensures
        run(s, sure(p)) == run(s, p),
        #[trigger] record(s, sure(p), keep) == record(s, p, keep),
{
    broadcast use {record_follow, record_end};

    assert(record(s, sure(p), keep) =~= record(s, p, keep));
}

/// What scripts that succeed leave on record.
pub broadcast group group_ok {
    ok_chain,
    ok_done,
    ok_all_done,
    ok_attempt,
    ok_sure,
    record_end,
    record_ask,
    record_quiet,
    run_done,
    run_flag,
    run_text,
    run_texts,
    run_profile,
    run_tree,
    run_status,
}

/// Between two moments, a request was made and got this answer.
pub open spec fn got(from: Session, to: Session, req: Req, a: Answer) -> bool {
    exists|i: int|
        from.asked.len() <= i < to.asked.len() && #[trigger] to.asked[i] == req && to.answers[i]
            == a
}

/// What is answered in one of two scripts in a row is answered in both together.
pub broadcast proof fn got_chain<T, U>(
    s: Session,
    p: Script<T>,
    k: spec_fn(T) -> Script<U>,
    req: Req,
    a: Answer,
)
    requires
        run(s, chain(p, k)).out is Ok,
        got(s, run(s, p).now, req, a) || got(
            run(s, p).now,
            run(run(s, p).now, k(run(s, p).out->Ok_0)).now,
            req,
            a,
        ),
    ensures
        #[trigger] got(s, run(s, chain(p, k)).now, req, a),
{
    let t = run(s, p).now;
    let end = run(t, k(run(s, p).out->Ok_0)).now;
    lemma_run_grows(s, p);
    lemma_run_grows(t, k(run(s, p).out->Ok_0));
    assert(run(s, chain(p, k)).now == end);
    if got(s, t, req, a) {
        let i = choose|i: int|
            s.asked.len() <= i < t.asked.len() && #[trigger] t.asked[i] == req && t.answers[i] == a;
        assert(end.asked[i] == t.asked[i]);
    } else {
        let i = choose|i: int|
            t.asked.len() <= i < end.asked.len() && #[trigger] end.asked[i] == req
                && end.answers[i] == a;
        assert(end.asked[i] == req);
    }
}

/// A request for a yes or a no gets the answer that comes next.
pub broadcast proof fn got_flag(s: Session, req: Req)
    requires
        run(s, flag(req)).out is Ok,
    ensures
        got(s, (#[trigger] run(s, flag(req))).now, req, s.next()),
{
    run_flag(s, req);
    let now = run(s, flag(req)).now;
    assert(now.asked[s.asked.len() as int] == req);
}

/// A request that is carried out is one that was made.
pub broadcast proof fn got_done(s: Session, req: Req)
    requires
        run(s, done(req)).out is Ok,
    ensures
        got(s, (#[trigger] run(s, done(req))).now, req, Answer::Done),
{
    run_done(s, req);
    let now = run(s, done(req)).now;
    assert(now.asked[s.asked.len() as int] == req);
}

/// A request for a text gets the answer that comes next.
pub broadcast proof fn got_text(s: Session, req: Req)
    requires
        run(s, text(req)).out is Ok,
    ensures
        got(s, (#[trigger] run(s, text(req))).now, req, s.next()),
{
    run_text(s, req);
    let now = run(s, text(req)).now;
    assert(now.asked[s.asked.len() as int] == req);
}

/// The record falls into parts, one for each item of a list, in order.
pub open spec fn in_turn<A>(
    d: Seq<(Req, Answer)>,
    list: Seq<A>,
    one: spec_fn(Seq<(Req, Answer)>, A) -> bool,
) -> bool
    decreases list.len(),
{
    if list.len() == 0 {
        d.len() == 0
    } else {
        exists|n: int|
            0 <= n <= d.len() && one(#[trigger] d.take(n), list[0]) && in_turn(
                d.skip(n),
                list.drop_first(),
                one,
            )
    }
}

/// An operation for each item of a list leaves a part for each item on record.
pub proof fn record_each<A>(
    s: Session,
    list: Seq<A>,
    f: spec_fn(A) -> Script<()>,
    keep: spec_fn(Req) -> bool,
    one: spec_fn(Seq<(Req, Answer)>, A) -> bool,
)
    requires
        run(s, each(list, f)).out is Ok,
        forall|t: Session, x: A|
            run(t, f(x)).out is Ok ==> one(#[trigger] record(t, f(x), keep), x),
    ensures
        in_turn(record(s, each(list, f), keep), list, one),
    decreases list.len(),
{
    broadcast use {ok_chain, record_end};

    if list.len() > 0 {
        let k = |u: ()| each(list.drop_first(), f);
        assert(each(list, f) == chain(f(list[0]), k));
        let d = record(s, each(list, f), keep);
        let a = record(s, f(list[0]), keep);
        let t = run(s, f(list[0])).now;
        assert(record(s, chain(f(list[0]), k), keep).len() >= 0);
        record_each(t, list.drop_first(), f, keep, one);
        let b = record(t, each(list.drop_first(), f), keep);
        assert(d == a + b);
        assert(d.take(a.len() as int) =~= a);
        assert(d.skip(a.len() as int) =~= b);
        assert(one(a, list[0]));
    }
}

/// Parts of a record that follow one another may be put together in any way.
pub proof fn lemma_row(
    a: Seq<(Req, Answer)>,
    b: Seq<(Req, Answer)>,
    c: Seq<(Req, Answer)>,
    d: Seq<(Req, Answer)>,
    e: Seq<(Req, Answer)>,
)
    ensures
        a + (b + (c + (d + e))) == a + b + c + d + e,
{
    assert(c + (d + e) =~= c + d + e);
    assert(b + (c + d + e) =~= b + c + d + e);
    assert(a + (b + c + d + e) =~= a + b + c + d + e);
}

/// Each request of a plan that is carried out is one that was made.
pub proof fn lemma_got_all_done(s: Session, plan: Seq<Req>, i: int)
    requires
        run(s, all_done(plan)).out is Ok,
        0 <= i < plan.len(),
    ensures
        got(s, run(s, all_done(plan)).now, plan[i], Answer::Done),
    decreases plan.len(),
{
    broadcast use {ok_chain, run_done};

    reveal_with_fuel(all_done, 1);
    let rest = plan.drop_first();
    let k = |u: ()| all_done(plan.drop_first());
    assert(all_done(plan) == chain(done(plan[0]), k));
    assert(record(s, chain(done(plan[0]), k), |req: Req| true).len() >= 0);
    let t = run(s, done(plan[0])).now;
    if i == 0 {
        got_done(s, plan[0]);
    } else {
        lemma_got_all_done(t, rest, i - 1);
        assert(rest[i - 1] == plan[i]);
    }
    got_chain(s, done(plan[0]), k, plan[i], Answer::Done);
}

}
