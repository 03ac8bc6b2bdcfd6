//! What holds of the ways in which texts are taken apart and numbers written.

use vstd::prelude::*;
use crate::text::{decimal, digits, joined, lines, split, trimmed_end, trimmed_start, until, white};

verus! {

proof fn lemma_until(s: Seq<char>, c: char)
    ensures
        0 <= until(s, c) <= s.len(),
        forall|i: int| 0 <= i < until(s, c) ==> #[trigger] s[i] != c,
        until(s, c) < s.len() ==> s[until(s, c)] == c,
    decreases s.len(),
{
    if s.len() > 0 && s[0] != c {
        let rest = s.drop_first();
        lemma_until(rest, c);
        assert forall|i: int| 0 <= i < until(s, c) implies #[trigger] s[i] != c by {
            if i > 0 {
                assert(s[i] == rest[i - 1]);
            }
        }
        if until(rest, c) < rest.len() {
            assert(s[until(rest, c) + 1] == rest[until(rest, c)]);
        }
    }
}

proof fn lemma_joined_first(first: Seq<char>, rest: Seq<Seq<char>>, sep: Seq<char>)
    requires
        rest.len() > 0,
    ensures
        joined(seq![first] + rest, sep) == first + sep + joined(rest, sep),
    decreases rest.len(),
{
    let all = seq![first] + rest;
    if rest.len() == 1 {
        assert(all.drop_last() =~= seq![first]);
        assert(all.last() == rest[0]);
        assert(joined(seq![first], sep) == first);
        assert(joined(all, sep) == first + sep + rest[0]);
    } else {
        assert(all.drop_last() =~= seq![first] + rest.drop_last());
        lemma_joined_first(first, rest.drop_last(), sep);
        assert(all.last() == rest.last());
        assert(first + sep + joined(rest.drop_last(), sep) + sep + rest.last() =~= first + sep + (
        joined(rest.drop_last(), sep) + sep + rest.last()));
    }
}

/// The pieces between the separators, put together again with the separator, are the text; and none
/// of them holds the separator.
pub proof fn law_split(s: Seq<char>, c: char)
    ensures
        split(s, c).len() > 0,
        joined(split(s, c), seq![c]) == s,
        forall|i: int| 0 <= i < split(s, c).len() ==> !(#[trigger] split(s, c)[i]).contains(c),
    decreases s.len(),
{
    lemma_until(s, c);
    let n = until(s, c);
    if n < s.len() {
        let rest = s.skip(n + 1);
        law_split(rest, c);
        lemma_joined_first(s.take(n), split(rest, c), seq![c]);
        assert(s.take(n) + seq![c] + rest =~= s);
        assert forall|i: int| 0 <= i < split(s, c).len() implies !(#[trigger] split(
            s,
            c,
        )[i]).contains(c) by {
            if i == 0 {
                assert forall|j: int| 0 <= j < s.take(n).len() implies s.take(n)[j] != c by {
                    assert(s.take(n)[j] == s[j]);
                }
            } else {
                assert(split(s, c)[i] == split(rest, c)[i - 1]);
            }
        }
    }
}

/// A line that ends with a line feed is one line, without that and without a carriage return before
/// it; what follows are the lines of the rest.
pub proof fn law_lines(line: Seq<char>, rest: Seq<char>)
    requires
        !line.contains('\n'),
    ensures
        lines(line + seq!['\n'] + rest) == seq![
            if line.len() > 0 && line.last() == '\r' {
                line.drop_last()
            } else {
                line
            },
        ] + lines(rest),
        line.len() > 0 ==> lines(line) == seq![line],
        lines(Seq::<char>::empty()) == Seq::<Seq<char>>::empty(),
{
    let s = line + seq!['\n'] + rest;
    let n = line.len() as int;
    lemma_until(s, '\n');
    assert(until(s, '\n') == n) by {
        if until(s, '\n') < n {
            assert(s[until(s, '\n')] == line[until(s, '\n')]);
            assert(line.contains('\n'));
        }
        if until(s, '\n') > n {
            assert(s[n] == '\n');
        }
    }
    assert(s.take(n) =~= line);
    assert(s.skip(n + 1) =~= rest);
    lemma_until(line, '\n');
    if until(line, '\n') < line.len() {
        assert(line.contains('\n'));
    }
}

/// White space at the end of a text is left out, and nothing else is.
pub proof fn law_trimmed_end(s: Seq<char>, c: char)
    ensures
        white(c) ==> trimmed_end(s.push(c)) == trimmed_end(s),
        !white(c) ==> trimmed_end(s.push(c)) == s.push(c),
        trimmed_end(Seq::<char>::empty()) == Seq::<char>::empty(),
{
    assert(s.push(c).drop_last() =~= s);
}

/// White space at the start of a text is left out, and nothing else is.
pub proof fn law_trimmed_start(s: Seq<char>, c: char)
    ensures
        white(c) ==> trimmed_start(seq![c] + s) == trimmed_start(s),
        !white(c) ==> trimmed_start(seq![c] + s) == seq![c] + s,
        trimmed_start(Seq::<char>::empty()) == Seq::<char>::empty(),
{
    assert((seq![c] + s).drop_first() =~= s);
}

/// The number that a text of decimal digits stands for.
pub open spec fn number(s: Seq<char>) -> int
    decreases s.len(),
{
    if s.len() == 0 {
        0
    } else {
        10 * number(s.drop_last()) + (s.last() as int - '0' as int)
    }
}

proof fn lemma_digits(n: nat)
    ensures
        number(digits(n)) == n,
        digits(n).len() > 0,
        digits(n)[0] != '-',
        n > 0 ==> digits(n)[0] != '0',
    decreases n,
{
    reveal_with_fuel(number, 2);
    if n >= 10 {
        lemma_digits(n / 10);
        let d = digits(n);
        assert(d.drop_last() =~= digits(n / 10));
        assert(d[0] == digits(n / 10)[0]);
    } else {
        assert(digits(n).drop_last() =~= Seq::<char>::empty());
    }
}

/// A number is written in decimal, without zeros before it, so that the text stands for it again.
pub proof fn law_decimal(n: int)
    ensures
        n >= 0 ==> number(decimal(n)) == n,
        n < 0 ==> decimal(n)[0] == '-' && number(decimal(n).drop_first()) == -n,
        n > 0 ==> decimal(n)[0] != '0' && decimal(n)[0] != '-',
{
    if n >= 0 {
        lemma_digits(n as nat);
    } else {
        lemma_digits((-n) as nat);
        assert(decimal(n).drop_first() =~= digits((-n) as nat));
    }
}

}
