//! The options of a snapshot.

use vstd::prelude::*;
use crate::host::{ran, sure, Halt, Host};
use crate::paths::{volume, volume_path, Volume};
use crate::request::{Req, Request};
use crate::script::{chain, flag, give, text, Build, Script};
use crate::text::{
    before, cat, contains, find, first_at, holds, lemma_find, lemma_find_some, lines, occurs_at,
    same, split, split_char, split_lines, split_once, text_before, trim, trim_end, trimmed,
    trimmed_end, white,
};

verus! {

broadcast use crate::script::group_run;

/// Options and their values.
#[derive(Debug)]
pub struct Options {
    entries: Vec<(String, String)>,
}

/// What a list of settings amounts to: a later one replaces an earlier one.
pub open spec fn option_map(entries: Seq<(Seq<char>, Seq<char>)>) -> Map<Seq<char>, Seq<char>>
    decreases entries.len(),
{
    if entries.len() == 0 {
        Map::empty()
    } else {
        option_map(entries.drop_last()).insert(entries.last().0, entries.last().1)
    }
}

impl DeepView for Options {
    type V = Map<Seq<char>, Seq<char>>;

    closed spec fn deep_view(&self) -> Map<Seq<char>, Seq<char>> {
        option_map(self.entries.deep_view())
    }
}

impl Options {
    /// No options.
    pub fn new() -> (r: Options)
        ensures
            r.deep_view() == Map::<Seq<char>, Seq<char>>::empty(),
    {
        let r = Options { entries: Vec::new() };
        assert(r.entries.deep_view() =~= seq![]);
        r
    }

    /// Sets an option.
    pub fn insert(&mut self, key: String, value: String)
        ensures
            final(self).deep_view() == old(self).deep_view().insert(key@, value@),
    {
        let ghost seen = self.entries.deep_view();
        let ghost entry = (key@, value@);
        self.entries.push((key, value));
        assert(self.entries.deep_view() =~= seen.push(entry));
        assert(seen.push(entry).drop_last() =~= seen);
    }

    /// The value of an option.
    pub fn get(&self, key: &str) -> (r: Option<String>)
        ensures
            r.deep_view() == if self.deep_view().contains_key(key@) {
                Some(self.deep_view()[key@])
            } else {
                None
            },
    {
        let ghost all = self.entries.deep_view();
        let mut i: usize = self.entries.len();
        assert(all.take(i as int) =~= all);
        while i > 0
            invariant
                i <= self.entries.len(),
                all == self.entries.deep_view(),
                option_map(all).contains_key(key@) == option_map(all.take(i as int)).contains_key(
                    key@,
                ),
                option_map(all).contains_key(key@) ==> option_map(all)[key@] == option_map(
                    all.take(i as int),
                )[key@],
            decreases i,
        {
            assert(all.take(i as int).drop_last() =~= all.take(i - 1));
            i -= 1;
            if same(self.entries[i].0.as_str(), key) {
                return Some(self.entries[i].1.clone());
            }
        }
        None
    }
}

// ------------------------------------------------------------------- parsing

/// The setting on a line: what stands before the first `::`, and what stands behind it up to
/// a `#`. There is none where no `::` stands before a `#`.
pub open spec fn setting(line: Seq<char>) -> Option<(Seq<char>, Seq<char>)> {
    if holds(before(line, "#"@), "::"@) {
        match find(line, "::"@) {
            Some(i) => Some(
                (line.take(i), before(trimmed_end(line.skip(i + "::"@.len())), "#"@)),
            ),
            None => None,
        }
    } else {
        None
    }
}

/// The options that lines set.
pub open spec fn settings(list: Seq<Seq<char>>) -> Map<Seq<char>, Seq<char>>
    decreases list.len(),
{
    if list.len() == 0 {
        Map::empty()
    } else {
        let rest = settings(list.drop_last());
        match setting(list.last()) {
            Some((key, value)) => rest.insert(key, value),
            None => rest,
        }
    }
}

/// The options where there is no file.
pub open spec fn default_options(build: Build) -> Map<Seq<char>, Seq<char>> {
    let first = if build.pacman {
        Map::<Seq<char>, Seq<char>>::empty().insert("aur"@, "False"@)
    } else {
        Map::<Seq<char>, Seq<char>>::empty()
    };
    first.insert("mutable_dirs"@, ""@).insert("mutable_dirs_shared"@, ""@)
}

/// The file that holds the options of a snapshot.
pub open spec fn config_file(snapshot: Seq<char>) -> Seq<char> {
    volume(Volume::Etc, snapshot) + "/ash/ash.conf"@
}

/// What `snapshot_config_get` does.
#[verifier::opaque]
pub open spec fn snapshot_config_get_script(
    build: Build,
    snapshot: Seq<char>,
) -> Script<Map<Seq<char>, Seq<char>>> {
    chain(
        flag(Req::IsFile { path: config_file(snapshot) }),
        |there: bool|
            if !there {
                give(default_options(build))
            } else {
                chain(
                    crate::script::sure(text(Req::ReadText { path: config_file(snapshot) })),
                    |content: Seq<char>| give(settings(lines(content))),
                )
            },
    )
}

/// The line up to a `#`, from which on it is a comment.
pub fn comment_after_hash(line: &str) -> (r: String)
    ensures
        r@ == before(line@, "#"@),
{
    text_before(line, "#")
}

/// The setting on a line.
pub fn read_setting(line: &str) -> (r: Option<(String, String)>)
    ensures
        r.deep_view() == setting(line@),
{
    if contains(comment_after_hash(line).as_str(), "::") {
        match split_once(line, "::") {
            Some((left, right)) => {
                let value = text_before(trim_end(right.as_str()).as_str(), "#");
                Some((left, value))
            },
            None => None,
        }
    } else {
        None
    }
}

/// The options that a text sets.
pub fn read_options(content: &str) -> (r: Options)
    ensures
        r.deep_view() == settings(lines(content@)),
{
    let list = split_lines(content);
    let ghost all = list.deep_view();
    let mut r = Options::new();
    let mut i: usize = 0;
    assert(all.take(0) =~= seq![]);
    while i < list.len()
        invariant
            i <= list.len(),
            all == list.deep_view(),
            r.deep_view() == settings(all.take(i as int)),
        decreases list.len() - i,
    {
        assert(all.take(i + 1).drop_last() =~= all.take(i as int));
        assert(all.take(i + 1).last() == list[i as int]@);
        match read_setting(list[i].as_str()) {
            Some((key, value)) => {
                r.insert(key, value);
            },
            None => {},
        }
        i += 1;
    }
    assert(all.take(list.len() as int) =~= all);
    r
}

/// The options of a snapshot.
pub fn snapshot_config_get(host: &mut Host, snapshot: &str) -> (r: Result<Options, Halt>)
    ensures
        ran(
            old(host)@,
            final(host)@,
            r,
            snapshot_config_get_script(old(host)@.build, snapshot@),
        ),
{
    reveal(snapshot_config_get_script);
    let file = cat(volume_path(Volume::Etc, snapshot).as_str(), "/ash/ash.conf");
    let pacman = host.build().pacman;
    if !host.flag(Request::IsFile { path: file.clone() })? {
        let mut options = Options::new();
        if pacman {
            options.insert("aur".to_owned(), "False".to_owned());
        }
        options.insert("mutable_dirs".to_owned(), "".to_owned());
        options.insert("mutable_dirs_shared".to_owned(), "".to_owned());
        Ok(options)
    } else {
        let content = sure(host.text(Request::ReadText { path: file }))?;
        Ok(read_options(content.as_str()))
    }
}

// ------------------------------------------------------- mutable directories

/// One item of a list of directories: two directories where `::` stands in it.
pub open spec fn dir_parts(item: Seq<char>) -> Seq<Seq<char>> {
    match find(item, "::"@) {
        Some(i) => seq![item.take(i), item.skip(i + "::"@.len())],
        None => seq![item],
    }
}

/// The texts that are not blank.
pub open spec fn not_blank(list: Seq<Seq<char>>) -> Seq<Seq<char>>
    decreases list.len(),
{
    if list.len() == 0 {
        seq![]
    } else if trimmed(list.last()).len() == 0 {
        not_blank(list.drop_last())
    } else {
        not_blank(list.drop_last()).push(list.last())
    }
}

/// The directories that a list of items names.
pub open spec fn dirs_of(items: Seq<Seq<char>>) -> Seq<Seq<char>>
    decreases items.len(),
{
    if items.len() == 0 {
        seq![]
    } else {
        dirs_of(items.drop_last()) + not_blank(dir_parts(items.last()))
    }
}

/// The directories that an option names, separated by commas.
pub open spec fn dir_list(options: Map<Seq<char>, Seq<char>>, key: Seq<char>) -> Seq<Seq<char>> {
    if options.contains_key(key) {
        dirs_of(split(options[key], ','))
    } else {
        seq![]
    }
}

/// The directories that an option names, separated by commas.
pub fn listed_dirs(options: &Options, key: &str) -> (r: Vec<String>)
    ensures
        r.deep_view() == dir_list(options.deep_view(), key@),
{
    match options.get(key) {
        Some(dirs) => {
            let r = read_dirs(dirs.as_str());
            r
        },
        None => {
            let r: Vec<String> = Vec::new();
            assert(r.deep_view() =~= seq![]);
            r
        },
    }
}

fn push_dir(list: &mut Vec<String>, dir: String)
    ensures
        final(list).deep_view() == old(list).deep_view() + not_blank(seq![dir@]),
{
    let ghost seen = list.deep_view();
    let ghost name = dir@;
    assert(seq![name].drop_last() =~= seq![]);
    reveal_with_fuel(not_blank, 2);
    if !trim(dir.as_str()).as_str().is_empty() {
        list.push(dir);
        assert(list.deep_view() =~= seen + seq![name]);
        assert(not_blank(seq![name]) =~= seq![name]);
    } else {
        assert(not_blank(seq![name]) =~= seq![]);
        assert(list.deep_view() =~= seen + not_blank(seq![name]));
    }
}

/// The directories that a text names, separated by commas.
pub fn read_dirs(dirs: &str) -> (r: Vec<String>)
    ensures
        r.deep_view() == dirs_of(split(dirs@, ',')),
{
    let items = split_char(dirs, ',');
    let ghost all = items.deep_view();
    let mut r: Vec<String> = Vec::new();
    let mut i: usize = 0;
    assert(all.take(0) =~= seq![]);
    assert(r.deep_view() =~= seq![]);
    while i < items.len()
        invariant
            i <= items.len(),
            all == items.deep_view(),
            r.deep_view() == dirs_of(all.take(i as int)),
        decreases items.len() - i,
    {
        assert(all.take(i + 1).drop_last() =~= all.take(i as int));
        assert(all.take(i + 1).last() == items[i as int]@);
        let ghost seen = r.deep_view();
        match split_once(items[i].as_str(), "::") {
            Some((left, right)) => {
                let ghost a = left@;
                let ghost b = right@;
                push_dir(&mut r, left);
                push_dir(&mut r, right);
                proof {
                    assert(seq![a, b].drop_last() =~= seq![a]);
                    assert(seq![a].drop_last() =~= seq![]);
                    assert(seq![b].drop_last() =~= seq![]);
                    reveal_with_fuel(not_blank, 3);
                    assert(seen + not_blank(seq![a]) + not_blank(seq![b]) =~= seen + not_blank(
                        seq![a, b],
                    ));
                }
            },
            None => {
                push_dir(&mut r, items[i].clone());
            },
        }
        i += 1;
    }
    assert(all.take(items.len() as int) =~= all);
    r
}

// --------------------------------------------------------------------- laws

/// There is no `#` in the text.
pub open spec fn no_hash(s: Seq<char>) -> bool {
    forall|i: int| 0 <= i < s.len() ==> #[trigger] s[i] != '#'
}

proof fn lemma_hash_at(s: Seq<char>, i: int)
    ensures
        occurs_at(s, "#"@, i) == (0 <= i < s.len() && s[i] == '#'),
{
    reveal_strlit("#");
    assert("#"@.len() == 1 && "#"@[0] == '#');
    if 0 <= i < s.len() {
        assert(s.subrange(i, i + 1)[0] == s[i]);
        if s[i] == '#' {
            assert(s.subrange(i, i + 1) =~= "#"@);
        }
    }
}

proof fn lemma_before_hash(head: Seq<char>, tail: Seq<char>)
    requires
        no_hash(head),
    ensures
        before(head + seq!['#'] + tail, "#"@) == head,
{
    let line = head + seq!['#'] + tail;
    let n = head.len() as int;
    lemma_hash_at(line, n);
    assert forall|j: int| 0 <= j < n implies !occurs_at(line, "#"@, j) by {
        lemma_hash_at(line, j);
        assert(line[j] == head[j]);
    }
    lemma_find(line, "#"@, n);
    assert(line.take(n) =~= head);
}

proof fn lemma_trim_keeps_hash(head: Seq<char>, tail: Seq<char>)
    ensures
        exists|rest: Seq<char>|
            trimmed_end(head + seq!['#'] + tail) == #[trigger] (head + seq!['#'] + rest),
    decreases tail.len(),
{
    let line = head + seq!['#'] + tail;
    if white(line.last()) {
        assert(tail.len() > 0);
        assert(line.drop_last() =~= head + seq!['#'] + tail.drop_last());
        lemma_trim_keeps_hash(head, tail.drop_last());
    } else {
        assert(trimmed_end(line) == head + seq!['#'] + tail);
    }
}

/// Everything after `#` is a comment: the setting on a line is what stands before and behind
/// the first `::` of the part before `#`.
pub proof fn law_comment(head: Seq<char>, tail: Seq<char>)
    requires
        no_hash(head),
    ensures
        setting(head + seq!['#'] + tail) == match find(head, "::"@) {
            Some(i) => Some((head.take(i), head.skip(i + "::"@.len()))),
            None => None,
        },
{
    reveal_strlit("::");
    let line = head + seq!['#'] + tail;
    let mark = "::"@;
    lemma_before_hash(head, tail);
    if holds(head, mark) {
        lemma_find_some(head, mark);
        let i = find(head, mark)->0;
        assert forall|j: int| 0 <= j <= i implies occurs_at(line, mark, j) == occurs_at(
            head,
            mark,
            j,
        ) by {
            assert(line.subrange(j, j + mark.len()) =~= head.subrange(j, j + mark.len()));
        }
        assert(first_at(line, mark, i));
        lemma_find(line, mark, i);
        assert(line.take(i) =~= head.take(i));
        let rest = head.skip(i + mark.len());
        assert(line.skip(i + mark.len()) =~= rest + seq!['#'] + tail);
        lemma_trim_keeps_hash(rest, tail);
        let kept = choose|kept: Seq<char>|
            trimmed_end(rest + seq!['#'] + tail) == #[trigger] (rest + seq!['#'] + kept);
        lemma_before_hash(rest, kept);
    }
}

proof fn lemma_no_hash(s: Seq<char>)
    requires
        no_hash(s),
    ensures
        before(s, "#"@) == s,
{
    reveal_strlit("#");
    if holds(s, "#"@) {
        let i = choose|i: int| occurs_at(s, "#"@, i);
        assert(s.subrange(i, i + 1)[0] == s[i]);
        assert(s[i] == '#');
    }
}

proof fn lemma_trim_no_hash(s: Seq<char>)
    requires
        no_hash(s),
    ensures
        no_hash(trimmed_end(s)),
    decreases s.len(),
{
    if s.len() > 0 {
        assert forall|i: int| 0 <= i < s.drop_last().len() implies #[trigger] s.drop_last()[i]
            != '#' by {
            assert(s.drop_last()[i] == s[i]);
        }
        lemma_trim_no_hash(s.drop_last());
    }
}

/// What is set on a line without a comment is read back: the name before `::`, and the value
/// behind it without the white space at its end.
pub proof fn law_setting(key: Seq<char>, value: Seq<char>)
    requires
        no_hash(key),
        no_hash(value),
        forall|i: int| 0 <= i < key.len() ==> #[trigger] key[i] != ':',
    ensures
        setting(key + "::"@ + value) == Some((key, trimmed_end(value))),
{
    reveal_strlit("::");
    let mark = "::"@;
    let line = key + mark + value;
    let n = key.len() as int;
    assert(no_hash(line)) by {
        assert forall|i: int| 0 <= i < line.len() implies #[trigger] line[i] != '#' by {
            if i < n {
                assert(line[i] == key[i]);
            } else if i >= n + 2 {
                assert(line[i] == value[i - n - 2]);
            }
        }
    }
    lemma_no_hash(line);
    assert(occurs_at(line, mark, n)) by {
        assert(line.subrange(n, n + 2) =~= mark);
    }
    assert forall|j: int| 0 <= j < n implies !occurs_at(line, mark, j) by {
        if occurs_at(line, mark, j) {
            assert(line.subrange(j, j + 2)[0] == line[j]);
            assert(line[j] == key[j]);
        }
    }
    assert(first_at(line, mark, n));
    lemma_find(line, mark, n);
    assert(holds(line, mark));
    assert(line.take(n) =~= key);
    assert(line.skip(n + 2) =~= value);
    lemma_trim_no_hash(value);
    lemma_no_hash(trimmed_end(value));
}

/// Of two lines that set the same option, the later one counts; a line leaves the other options
/// alone.
pub proof fn law_later_setting(list: Seq<Seq<char>>, line: Seq<char>, name: Seq<char>)
    ensures
        ({
            let before = settings(list);
            let now = settings(list.push(line));
            match setting(line) {
                Some((key, value)) => if name == key {
                    now.contains_key(name) && now[name] == value
                } else {
                    now.contains_key(name) == before.contains_key(name) && (now.contains_key(name)
                        ==> now[name] == before[name])
                },
                None => now == before,
            }
        }),
{
    assert(list.push(line).drop_last() =~= list);
}

/// Directories that are set as a list are those of its items that are not blank, in order, where
/// no item holds `::`.
pub proof fn law_dirs(items: Seq<Seq<char>>, item: Seq<char>)
    requires
        !holds(item, "::"@),
    ensures
        dirs_of(items.push(item)) == if trimmed(item).len() == 0 {
            dirs_of(items)
        } else {
            dirs_of(items).push(item)
        },
{
    assert(items.push(item).drop_last() =~= items);
    let parts = dir_parts(item);
    assert(parts =~= seq![item]);
    assert(parts.drop_last() =~= Seq::<Seq<char>>::empty());
    reveal_with_fuel(not_blank, 2);
    if trimmed(item).len() == 0 {
        assert(dirs_of(items) + not_blank(parts) =~= dirs_of(items));
    } else {
        assert(not_blank(parts) =~= seq![item]);
        assert(dirs_of(items) + not_blank(parts) =~= dirs_of(items).push(item));
    }
}

}
