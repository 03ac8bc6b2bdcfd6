//! Text as sequences of characters: searching, splitting, trimming, numbering.

use vstd::prelude::*;

verus! {

/// `String::push` of the standard library: the character goes to the end.
pub assume_specification[ String::push ](s: &mut String, c: char)
    ensures
        final(s)@ == old(s)@.push(c),
;

/// What `str::to_lowercase` of the standard library makes of a text.
pub uninterp spec fn lowercase(s: Seq<char>) -> Seq<char>;

/// All characters are ASCII.
pub open spec fn ascii(s: Seq<char>) -> bool {
    forall|i: int| 0 <= i < s.len() ==> (#[trigger] s[i]) <= '\u{7f}'
}

/// An ASCII letter in lower case; any other character as it is.
pub open spec fn small(c: char) -> char {
    if 'A' <= c && c <= 'Z' {
        (c as int + 32) as char
    } else {
        c
    }
}

/// A text with its ASCII letters in lower case.
pub open spec fn small_text(s: Seq<char>) -> Seq<char> {
    Seq::new(s.len(), |i: int| small(s[i]))
}

/// A text in lower case; of ASCII text, that is each letter in lower case.
pub open spec fn lowered(s: Seq<char>) -> Seq<char> {
    if ascii(s) {
        small_text(s)
    } else {
        lowercase(s)
    }
}

/// Calls `str::to_lowercase`. Claimed: its result depends on the text alone, and ASCII text comes
/// back with `A` to `Z` as `a` to `z` and all else unchanged.
#[verifier::external_body]
pub(crate) fn to_lower(s: &str) -> (r: String)
    ensures
        ascii(s@) ==> r@ == small_text(s@),
        !ascii(s@) ==> r@ == lowercase(s@),
{
    s.to_lowercase()
}

/// ASCII text in lower case stays as it is when it is put in lower case again.
pub proof fn law_lowered(s: Seq<char>)
    requires
        ascii(s),
    ensures
        ascii(lowered(s)),
        lowered(lowered(s)) == lowered(s),
{
    assert forall|i: int| 0 <= i < s.len() implies (#[trigger] small_text(s)[i]) <= '\u{7f}'
        && small(small_text(s)[i]) == small_text(s)[i] by {
        assert(s[i] <= '\u{7f}');
    }
    assert(small_text(small_text(s)) =~= small_text(s));
}

/// The `{:?}` form of a list of strings, as a function of the list.
pub uninterp spec fn debug_text(list: Seq<Seq<char>>) -> Seq<char>;

/// Formats a list with `{:?}` of the standard library. Only that the result depends
/// on the list alone is claimed.
#[verifier::external_body]
pub(crate) fn debug_list(list: &Vec<String>) -> (r: String)
    ensures
        r@ == debug_text(list.deep_view()),
{
    format!("{:?}", list)
}

// ---------------------------------------------------------------- building

/// `a` followed by `b`.
pub fn cat(a: &str, b: &str) -> (r: String)
    ensures
        r@ == a@ + b@,
{
    let mut r = a.to_owned();
    r.append(b);
    r
}

/// Three texts in a row.
pub fn cat3(a: &str, b: &str, c: &str) -> (r: String)
    ensures
        r@ == a@ + b@ + c@,
{
    let mut r = cat(a, b);
    r.append(c);
    r
}

/// Four texts in a row.
pub fn cat4(a: &str, b: &str, c: &str, d: &str) -> (r: String)
    ensures
        r@ == a@ + b@ + c@ + d@,
{
    let mut r = cat3(a, b, c);
    r.append(d);
    r
}

/// Five texts in a row.
pub fn cat5(a: &str, b: &str, c: &str, d: &str, e: &str) -> (r: String)
    ensures
        r@ == a@ + b@ + c@ + d@ + e@,
{
    let mut r = cat4(a, b, c, d);
    r.append(e);
    r
}

/// Whether two texts are equal.
pub fn same(a: &str, b: &str) -> (r: bool)
    ensures
        r == (a@ == b@),
{
    a.to_owned() == b.to_owned()
}

/// Whether `item` is one of `list`.
pub fn listed(list: &Vec<String>, item: &str) -> (r: bool)
    ensures
        r == list.deep_view().contains(item@),
{
    let mut i: usize = 0;
    while i < list.len()
        invariant
            i <= list.len(),
            forall|j: int| 0 <= j < i ==> list.deep_view()[j] != item@,
        decreases list.len() - i,
    {
        if same(list[i].as_str(), item) {
            assert(list.deep_view()[i as int] == item@);
            return true;
        }
        i += 1;
    }
    false
}

/// A copy of a list of texts.
pub fn copied(list: &Vec<String>) -> (r: Vec<String>)
    ensures
        r.deep_view() == list.deep_view(),
{
    let mut r: Vec<String> = Vec::new();
    let mut i: usize = 0;
    while i < list.len()
        invariant
            i <= list.len(),
            r.deep_view() =~= list.deep_view().take(i as int),
        decreases list.len() - i,
    {
        let ghost before = r.deep_view();
        r.push(list[i].clone());
        assert(r.deep_view() =~= before.push(list.deep_view()[i as int]));
        i += 1;
    }
    assert(list.deep_view().take(list.len() as int) =~= list.deep_view());
    r
}

/// The characters of a text.
pub fn letters(s: &str) -> (r: Vec<char>)
    ensures
        r@ == s@,
{
    let mut r: Vec<char> = Vec::new();
    for c in iter: s.chars()
        invariant
            iter.seq() == s@,
            r@ == s@.take(iter.index()),
    {
        r.push(c);
        assert(s@.take(iter.index() + 1) =~= s@.take(iter.index()).push(c));
    }
    assert(s@.take(s@.len() as int) =~= s@);
    r
}

/// The text of the characters from `from` up to `to`.
pub fn piece(chars: &Vec<char>, from: usize, to: usize) -> (r: String)
    requires
        from <= to <= chars.len(),
    ensures
        r@ == chars@.subrange(from as int, to as int),
{
    let mut r = String::new();
    let mut i: usize = from;
    while i < to
        invariant
            from <= i <= to <= chars.len(),
            r@ == chars@.subrange(from as int, i as int),
        decreases to - i,
    {
        r.push(chars[i]);
        i += 1;
        assert(chars@.subrange(from as int, i as int) =~= chars@.subrange(
            from as int,
            i - 1,
        ).push(chars@[i - 1]));
    }
    r
}

// --------------------------------------------------------------- searching

/// `p` stands in `s` at position `i`.
pub open spec fn occurs_at(s: Seq<char>, p: Seq<char>, i: int) -> bool {
    0 <= i && i + p.len() <= s.len() && s.subrange(i, i + p.len()) == p
}

/// `p` stands somewhere in `s`.
pub open spec fn holds(s: Seq<char>, p: Seq<char>) -> bool {
    exists|i: int| occurs_at(s, p, i)
}

/// `i` is the first position at which `p` stands in `s`.
pub open spec fn first_at(s: Seq<char>, p: Seq<char>, i: int) -> bool {
    occurs_at(s, p, i) && forall|j: int| 0 <= j < i ==> !occurs_at(s, p, j)
}

/// The first position of `p` in `s`.
pub open spec fn find(s: Seq<char>, p: Seq<char>) -> Option<int> {
    if holds(s, p) {
        Some(choose|i: int| first_at(s, p, i))
    } else {
        None
    }
}

/// What stands in `s` before the first `p`; all of `s` where there is none.
pub open spec fn before(s: Seq<char>, p: Seq<char>) -> Seq<char> {
    match find(s, p) {
        Some(i) => s.take(i),
        None => s,
    }
}

/// `s` with every `from`, read from the left without overlap, turned into `to`.
pub open spec fn replaced(s: Seq<char>, from: Seq<char>, to: Seq<char>) -> Seq<char>
    decreases s.len(),
{
    match find(s, from) {
        Some(i) => if from.len() > 0 && 0 <= i && i + from.len() <= s.len() {
            s.take(i) + to + replaced(s.skip(i + from.len()), from, to)
        } else {
            s
        },
        None => s,
    }
}

/// The first position is unique, and `find` names it.
pub proof fn lemma_find(s: Seq<char>, p: Seq<char>, i: int)
    requires
        first_at(s, p, i),
    ensures
        find(s, p) == Some(i),
{
    assert(holds(s, p));
    let j = choose|j: int| first_at(s, p, j);
    assert(first_at(s, p, j));
    if i < j {
        assert(!occurs_at(s, p, i));
    }
    if j < i {
        assert(!occurs_at(s, p, j));
    }
}

/// Where `p` stands in `s` there is a first position.
pub proof fn lemma_find_some(s: Seq<char>, p: Seq<char>)
    requires
        holds(s, p),
    ensures
        find(s, p) is Some,
        first_at(s, p, find(s, p)->0),
{
    let i = choose|i: int| occurs_at(s, p, i);
    lemma_first_below(s, p, i);
    let j = choose|j: int| 0 <= j <= i && #[trigger] first_at(s, p, j);
    lemma_find(s, p, j);
}

proof fn lemma_first_below(s: Seq<char>, p: Seq<char>, i: int)
    requires
        occurs_at(s, p, i),
    ensures
        exists|j: int| 0 <= j <= i && #[trigger] first_at(s, p, j),
    decreases i,
{
    if exists|j: int| 0 <= j < i && occurs_at(s, p, j) {
        let j = choose|j: int| 0 <= j < i && occurs_at(s, p, j);
        lemma_first_below(s, p, j);
        let k = choose|k: int| 0 <= k <= j && #[trigger] first_at(s, p, k);
        assert(0 <= k <= i && first_at(s, p, k));
    } else {
        assert(first_at(s, p, i));
    }
}

/// A text with itself replaced is the replacement.
pub proof fn lemma_replaced_whole(s: Seq<char>, to: Seq<char>)
    requires
        s.len() > 0,
    ensures
        replaced(s, s, to) == to,
{
    assert(s.subrange(0, s.len() as int) =~= s);
    assert(first_at(s, s, 0));
    lemma_find(s, s, 0);
    let rest = s.skip(s.len() as int);
    assert(!holds(rest, s));
    reveal_with_fuel(replaced, 2);
    assert(s.take(0) + to + rest =~= to);
}

/// A text that is put behind another one, and stands nowhere before that, is the only one that
/// is taken out.
pub proof fn lemma_replaced_tail(s: Seq<char>, tail: Seq<char>)
    requires
        tail.len() > 0,
        forall|i: int| 0 <= i < s.len() ==> !#[trigger] occurs_at(s + tail, tail, i),
    ensures
        replaced(s + tail, tail, seq![]) == s,
{
    let all = s + tail;
    let n = s.len() as int;
    assert(all.subrange(n, n + tail.len()) =~= tail);
    assert(first_at(all, tail, n));
    lemma_find(all, tail, n);
    let rest = all.skip(n + tail.len());
    assert(!holds(rest, tail));
    reveal_with_fuel(replaced, 2);
    assert(all.take(n) + seq![] + rest =~= s);
}

fn stands_at(s: &Vec<char>, p: &Vec<char>, i: usize) -> (r: bool)
    ensures
        r == occurs_at(s@, p@, i as int),
{
    if p.len() > s.len() || i > s.len() - p.len() {
        return false;
    }
    let mut j: usize = 0;
    while j < p.len()
        invariant
            j <= p.len(),
            i + p.len() <= s.len(),
            forall|k: int| 0 <= k < j ==> s@[i + k] == p@[k],
        decreases p.len() - j,
    {
        if s[i + j] != p[j] {
            assert(s@.subrange(i as int, i + p@.len())[j as int] != p@[j as int]);
            return false;
        }
        j += 1;
    }
    assert(s@.subrange(i as int, i + p@.len()) =~= p@);
    true
}

/// The first position of `p` in `s`.
fn position(s: &Vec<char>, p: &Vec<char>) -> (r: Option<usize>)
    ensures
        match r {
            Some(i) => find(s@, p@) == Some(i as int) && first_at(s@, p@, i as int),
            None => find(s@, p@) is None,
        },
{
    let mut i: usize = 0;
    while i <= s.len()
        invariant
            i <= s.len() + 1,
            forall|j: int| 0 <= j < i ==> !occurs_at(s@, p@, j),
        decreases s.len() + 1 - i,
    {
        if stands_at(s, p, i) {
            proof {
                lemma_find(s@, p@, i as int);
            }
            return Some(i);
        }
        if i == s.len() {
            assert(!holds(s@, p@));
            return None;
        }
        i += 1;
    }
    None
}

/// Whether `p` stands in `s`.
pub fn contains(s: &str, p: &str) -> (r: bool)
    ensures
        r == holds(s@, p@),
{
    match position(&letters(s), &letters(p)) {
        Some(i) => true,
        None => {
            proof {
                if holds(s@, p@) {
                    lemma_find_some(s@, p@);
                }
            }
            false
        },
    }
}

/// Whether `s` begins with `p`.
pub fn starts_with(s: &str, p: &str) -> (r: bool)
    ensures
        r == occurs_at(s@, p@, 0),
{
    stands_at(&letters(s), &letters(p), 0)
}

/// The part of `s` before the first `p`.
pub fn text_before(s: &str, p: &str) -> (r: String)
    ensures
        r@ == before(s@, p@),
{
    let chars = letters(s);
    match position(&chars, &letters(p)) {
        Some(i) => piece(&chars, 0, i),
        None => s.to_owned(),
    }
}

/// The parts of `s` before and after the first `p`.
pub fn split_once(s: &str, p: &str) -> (r: Option<(String, String)>)
    ensures
        match (find(s@, p@), r) {
            (Some(i), Some((left, right))) => left@ == s@.take(i) && right@ == s@.skip(
                i + p@.len(),
            ),
            (None, None) => true,
            _ => false,
        },
{
    let chars = letters(s);
    let pat = letters(p);
    let n: usize = chars.len();
    match position(&chars, &pat) {
        Some(i) => Some((piece(&chars, 0, i), piece(&chars, i + pat.len(), n))),
        None => None,
    }
}

/// The parts of `s` before the first `p` and from there on.
pub fn split_before(s: &str, p: &str) -> (r: Option<(String, String)>)
    ensures
        match (find(s@, p@), r) {
            (Some(i), Some((left, right))) => left@ == s@.take(i) && right@ == s@.skip(i),
            (None, None) => true,
            _ => false,
        },
{
    let chars = letters(s);
    let n: usize = chars.len();
    match position(&chars, &letters(p)) {
        Some(i) => Some((piece(&chars, 0, i), piece(&chars, i, n))),
        None => None,
    }
}

/// `s` with every `from` turned into `to`.
pub fn replace(s: &str, from: &str, to: &str) -> (r: String)
    requires
        from@.len() > 0,
    ensures
        r@ == replaced(s@, from@, to@),
{
    let pat = letters(from);
    let mut rest = letters(s);
    let mut r = String::new();
    assert(r@ + replaced(rest@, from@, to@) =~= replaced(s@, from@, to@));
    loop
        invariant
            pat@ == from@,
            from@.len() > 0,
            r@ + replaced(rest@, from@, to@) == replaced(s@, from@, to@),
        decreases rest.len(),
    {
        match position(&rest, &pat) {
            Some(i) => {
                let ghost done = r@;
                let ghost left = rest@;
                r.append(piece(&rest, 0, i).as_str());
                r.append(to);
                rest = rest.split_off(i + pat.len());
                assert(rest@ =~= left.skip(i + from@.len()));
                assert(left.subrange(0, i as int) =~= left.take(i as int));
                assert(r@ + replaced(rest@, from@, to@) =~= done + (left.take(i as int) + to@
                    + replaced(rest@, from@, to@)));
            },
            None => {
                r.append(piece(&rest, 0, rest.len()).as_str());
                assert(rest@.subrange(0, rest@.len() as int) =~= rest@);
                return r;
            },
        }
    }
}

// ---------------------------------------------------------------- trimming

/// The characters that Unicode lists as white space.
pub open spec fn white(c: char) -> bool {
    let n = c as u32;
    ||| 0x09 <= n <= 0x0d
    ||| n == 0x20
    ||| n == 0x85
    ||| n == 0xa0
    ||| n == 0x1680
    ||| 0x2000 <= n <= 0x200a
    ||| n == 0x2028
    ||| n == 0x2029
    ||| n == 0x202f
    ||| n == 0x205f
    ||| n == 0x3000
}

/// `s` without its trailing white space.
pub open spec fn trimmed_end(s: Seq<char>) -> Seq<char>
    decreases s.len(),
{
    if s.len() > 0 && white(s.last()) {
        trimmed_end(s.drop_last())
    } else {
        s
    }
}

/// `s` without its leading white space.
pub open spec fn trimmed_start(s: Seq<char>) -> Seq<char>
    decreases s.len(),
{
    if s.len() > 0 && white(s[0]) {
        trimmed_start(s.drop_first())
    } else {
        s
    }
}

/// `s` without white space at either end.
pub open spec fn trimmed(s: Seq<char>) -> Seq<char> {
    trimmed_end(trimmed_start(s))
}

/// `s` without trailing `c`s.
pub open spec fn without_trailing(s: Seq<char>, c: char) -> Seq<char>
    decreases s.len(),
{
    if s.len() > 0 && s.last() == c {
        without_trailing(s.drop_last(), c)
    } else {
        s
    }
}

fn is_white(c: char) -> (r: bool)
    ensures
        r == white(c),
{
    let n: u32 = c as u32;
    (0x09 <= n && n <= 0x0d) || n == 0x20 || n == 0x85 || n == 0xa0 || n == 0x1680 || (0x2000 <= n
        && n <= 0x200a) || n == 0x2028 || n == 0x2029 || n == 0x202f || n == 0x205f || n == 0x3000
}

/// `s` without its trailing white space.
pub fn trim_end(s: &str) -> (r: String)
    ensures
        r@ == trimmed_end(s@),
{
    let chars = letters(s);
    let mut n: usize = chars.len();
    assert(chars@.take(n as int) =~= chars@);
    while n > 0 && is_white(chars[n - 1])
        invariant
            n <= chars.len(),
            trimmed_end(chars@.take(n as int)) == trimmed_end(s@),
        decreases n,
    {
        assert(chars@.take(n as int).drop_last() =~= chars@.take(n - 1));
        n -= 1;
    }
    assert(chars@.subrange(0, n as int) =~= chars@.take(n as int));
    piece(&chars, 0, n)
}

/// `s` without white space at either end.
pub fn trim(s: &str) -> (r: String)
    ensures
        r@ == trimmed(s@),
{
    let chars = letters(s);
    let mut i: usize = 0;
    assert(chars@.skip(0) =~= chars@);
    while i < chars.len() && is_white(chars[i])
        invariant
            i <= chars.len(),
            trimmed_start(chars@.skip(i as int)) == trimmed_start(s@),
        decreases chars.len() - i,
    {
        assert(chars@.skip(i as int).drop_first() =~= chars@.skip(i + 1));
        i += 1;
    }
    assert(chars@.subrange(i as int, chars@.len() as int) =~= chars@.skip(i as int));
    trim_end(piece(&chars, i, chars.len()).as_str())
}

/// `s` without trailing `c`s.
pub fn trim_end_char(s: &str, c: char) -> (r: String)
    ensures
        r@ == without_trailing(s@, c),
{
    let chars = letters(s);
    let mut n: usize = chars.len();
    assert(chars@.take(n as int) =~= chars@);
    while n > 0 && chars[n - 1] == c
        invariant
            n <= chars.len(),
            without_trailing(chars@.take(n as int), c) == without_trailing(s@, c),
        decreases n,
    {
        assert(chars@.take(n as int).drop_last() =~= chars@.take(n - 1));
        n -= 1;
    }
    assert(chars@.subrange(0, n as int) =~= chars@.take(n as int));
    piece(&chars, 0, n)
}

// --------------------------------------------------------------- splitting

/// The position of the first `c` in `s`; the length of `s` where there is none.
pub open spec fn until(s: Seq<char>, c: char) -> int
    decreases s.len(),
{
    if s.len() == 0 || s[0] == c {
        0
    } else {
        1 + until(s.drop_first(), c)
    }
}

/// The pieces of `s` between the `c`s.
pub open spec fn split(s: Seq<char>, c: char) -> Seq<Seq<char>>
    decreases s.len(),
{
    let n = until(s, c);
    if 0 <= n < s.len() {
        seq![s.take(n)] + split(s.skip(n + 1), c)
    } else {
        seq![s]
    }
}

/// A line without the carriage return that ends it.
pub open spec fn chomped(s: Seq<char>) -> Seq<char> {
    if s.len() > 0 && s.last() == '\r' {
        s.drop_last()
    } else {
        s
    }
}

/// The lines of `s`: what stands before each line feed, and what follows the last one.
pub open spec fn lines(s: Seq<char>) -> Seq<Seq<char>>
    decreases s.len(),
{
    let n = until(s, '\n');
    if 0 <= n < s.len() {
        seq![chomped(s.take(n))] + lines(s.skip(n + 1))
    } else if s.len() == 0 {
        seq![]
    } else {
        seq![s]
    }
}

/// The number of characters that `s` begins with before its first white space.
pub open spec fn word_end(s: Seq<char>) -> int
    decreases s.len(),
{
    if s.len() == 0 || white(s[0]) {
        0
    } else {
        1 + word_end(s.drop_first())
    }
}

/// The runs of characters of `s` that are not white space.
pub open spec fn words(s: Seq<char>) -> Seq<Seq<char>>
    decreases s.len(),
{
    if s.len() == 0 {
        seq![]
    } else if white(s[0]) {
        words(s.drop_first())
    } else {
        let n = word_end(s);
        if 0 < n <= s.len() {
            seq![s.take(n)] + words(s.skip(n))
        } else {
            seq![]
        }
    }
}

/// The texts of `list` with `sep` between them.
pub open spec fn joined(list: Seq<Seq<char>>, sep: Seq<char>) -> Seq<char>
    decreases list.len(),
{
    if list.len() == 0 {
        seq![]
    } else if list.len() == 1 {
        list[0]
    } else {
        joined(list.drop_last(), sep) + sep + list.last()
    }
}

/// A word of `s` that begins at its first character is not empty and within `s`.
pub proof fn lemma_word_end(s: Seq<char>)
    ensures
        0 <= word_end(s) <= s.len(),
        forall|i: int| 0 <= i < word_end(s) ==> !white(s[i]),
        word_end(s) < s.len() ==> white(s[word_end(s)]),
    decreases s.len(),
{
    if s.len() > 0 && !white(s[0]) {
        lemma_word_end(s.drop_first());
        let n = word_end(s.drop_first());
        assert forall|i: int| 0 <= i < n + 1 implies !white(s[i]) by {
            if i > 0 {
                assert(!white(s.drop_first()[i - 1]));
            }
        }
    }
}

fn index_of(s: &Vec<char>, from: usize, c: char) -> (r: usize)
    requires
        from <= s.len(),
    ensures
        from <= r <= s.len(),
        r - from == until(s@.skip(from as int), c),
{
    let mut i: usize = from;
    while i < s.len() && s[i] != c
        invariant
            from <= i <= s.len(),
            until(s@.skip(from as int), c) == i - from + until(s@.skip(i as int), c),
        decreases s.len() - i,
    {
        assert(s@.skip(i as int).drop_first() =~= s@.skip(i + 1));
        i += 1;
    }
    i
}

/// The pieces of `s` between the `c`s.
pub fn split_char(s: &str, c: char) -> (r: Vec<String>)
    ensures
        r.deep_view() == split(s@, c),
{
    let chars = letters(s);
    let mut r: Vec<String> = Vec::new();
    let mut from: usize = 0;
    assert(chars@.skip(0) =~= chars@);
    assert(r.deep_view() + split(chars@.skip(0), c) =~= split(s@, c));
    loop
        invariant
            from <= chars.len(),
            r.deep_view() + split(chars@.skip(from as int), c) == split(s@, c),
        decreases chars.len() - from,
    {
        let to = index_of(&chars, from, c);
        let ghost rest = chars@.skip(from as int);
        let ghost seen = r.deep_view();
        let part = piece(&chars, from, to);
        assert(part@ =~= rest.take(to - from));
        r.push(part);
        assert(r.deep_view() =~= seen.push(part@));
        if to == chars.len() {
            assert(rest.take(to - from) =~= rest);
            assert(r.deep_view() =~= seen + split(rest, c));
            return r;
        }
        from = to + 1;
        assert(chars@.skip(from as int) =~= rest.skip(until(rest, c) + 1));
        assert(r.deep_view() + split(chars@.skip(from as int), c) =~= seen + split(rest, c));
    }
}

/// The lines of `s`.
pub fn split_lines(s: &str) -> (r: Vec<String>)
    ensures
        r.deep_view() == lines(s@),
{
    let chars = letters(s);
    let mut r: Vec<String> = Vec::new();
    let mut from: usize = 0;
    assert(chars@.skip(0) =~= chars@);
    assert(r.deep_view() + lines(chars@.skip(0)) =~= lines(s@));
    loop
        invariant
            from <= chars.len(),
            r.deep_view() + lines(chars@.skip(from as int)) == lines(s@),
        decreases chars.len() - from,
    {
        let to = index_of(&chars, from, '\n');
        let ghost rest = chars@.skip(from as int);
        let ghost seen = r.deep_view();
        if to == chars.len() {
            if from < to {
                let part = piece(&chars, from, to);
                assert(part@ =~= rest);
                r.push(part);
                assert(r.deep_view() =~= seen.push(part@));
                assert(r.deep_view() =~= seen + lines(rest));
            } else {
                assert(r.deep_view() =~= seen + lines(rest));
            }
            return r;
        }
        let stop = if from < to && chars[to - 1] == '\r' {
            to - 1
        } else {
            to
        };
        let part = piece(&chars, from, stop);
        assert(part@ =~= chomped(rest.take(to - from)));
        r.push(part);
        assert(r.deep_view() =~= seen.push(part@));
        from = to + 1;
        assert(chars@.skip(from as int) =~= rest.skip(until(rest, '\n') + 1));
        assert(r.deep_view() + lines(chars@.skip(from as int)) =~= seen + lines(rest));
    }
}

/// The words of `s`.
pub fn split_words(s: &str) -> (r: Vec<String>)
    ensures
        r.deep_view() == words(s@),
{
    let chars = letters(s);
    let mut r: Vec<String> = Vec::new();
    let mut from: usize = 0;
    assert(chars@.skip(0) =~= chars@);
    assert(r.deep_view() + words(chars@.skip(0)) =~= words(s@));
    while from < chars.len()
        invariant
            from <= chars.len(),
            r.deep_view() + words(chars@.skip(from as int)) == words(s@),
        decreases chars.len() - from,
    {
        let ghost rest = chars@.skip(from as int);
        let ghost seen = r.deep_view();
        if is_white(chars[from]) {
            assert(rest.drop_first() =~= chars@.skip(from + 1));
            from += 1;
        } else {
            let mut to: usize = from;
            while to < chars.len() && !is_white(chars[to])
                invariant
                    from <= to <= chars.len(),
                    word_end(chars@.skip(from as int)) == to - from + word_end(
                        chars@.skip(to as int),
                    ),
                decreases chars.len() - to,
            {
                assert(chars@.skip(to as int).drop_first() =~= chars@.skip(to + 1));
                to += 1;
            }
            proof {
                lemma_word_end(rest);
            }
            let part = piece(&chars, from, to);
            assert(part@ =~= rest.take(to - from));
            r.push(part);
            assert(r.deep_view() =~= seen.push(part@));
            assert(chars@.skip(to as int) =~= rest.skip(to - from));
            assert(r.deep_view() + words(chars@.skip(to as int)) =~= seen + words(rest));
            from = to;
        }
    }
    assert(r.deep_view() =~= words(s@));
    r
}

/// The texts of `list` with `sep` between them.
pub fn join(list: &Vec<String>, sep: &str) -> (r: String)
    ensures
        r@ == joined(list.deep_view(), sep@),
{
    let mut r = String::new();
    let mut i: usize = 0;
    while i < list.len()
        invariant
            i <= list.len(),
            r@ == joined(list.deep_view().take(i as int), sep@),
        decreases list.len() - i,
    {
        let ghost all = list.deep_view();
        if i > 0 {
            r.append(sep);
        }
        r.append(list[i].as_str());
        assert(all.take(i + 1).drop_last() =~= all.take(i as int));
        assert(r@ =~= joined(all.take(i + 1), sep@));
        i += 1;
    }
    assert(list.deep_view().take(list.len() as int) =~= list.deep_view());
    r
}

// --------------------------------------------------------------- numbers

/// The character of a decimal digit.
pub open spec fn digit(n: int) -> char {
    (n + 0x30) as char
}

/// `n` in decimal digits.
pub open spec fn digits(n: nat) -> Seq<char>
    decreases n,
{
    if n < 10 {
        seq![digit(n as int)]
    } else {
        digits(n / 10).push(digit((n % 10) as int))
    }
}

/// `n` in decimal, with a minus sign where it is negative.
pub open spec fn decimal(n: int) -> Seq<char> {
    if n < 0 {
        seq!['-'] + digits((-n) as nat)
    } else {
        digits(n as nat)
    }
}

/// `n` in decimal, with zeros before it up to `width` characters.
pub open spec fn padded(n: nat, width: nat) -> Seq<char> {
    let d = digits(n);
    if d.len() < width {
        Seq::new((width - d.len()) as nat, |i: int| '0') + d
    } else {
        d
    }
}

fn digit_char(n: u64) -> (r: char)
    requires
        n < 10,
    ensures
        r == digit(n as int),
{
    ((n as u8) + 0x30u8) as char
}

fn digit_text(n: u64) -> (r: String)
    ensures
        r@ == digits(n as nat),
    decreases n,
{
    if n < 10 {
        let mut r = String::new();
        r.push(digit_char(n));
        assert(r@ =~= digits(n as nat));
        r
    } else {
        let mut r = digit_text(n / 10);
        r.push(digit_char(n % 10));
        r
    }
}

/// `n` in decimal.
pub fn number(n: i32) -> (r: String)
    ensures
        r@ == decimal(n as int),
{
    if n < 0 {
        let size: i64 = -(n as i64);
        let tail = digit_text(size as u64);
        let r = cat("-", tail.as_str());
        proof {
            reveal_strlit("-");
        }
        assert(r@ =~= decimal(n as int));
        r
    } else {
        digit_text(n as u64)
    }
}

}
