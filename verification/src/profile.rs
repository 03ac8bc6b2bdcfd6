//! Package profiles: sections of keys, read from ini text.

use vstd::prelude::*;
use crate::text::{lowered, same, to_lower};

verus! {

/// One section of a profile.
#[derive(Debug, PartialEq, Eq)]
pub struct Section {
    pub name: String,
    pub entries: Vec<(String, Option<String>)>,
}

/// A profile: its sections, in the order in which they were read.
#[derive(Debug, PartialEq, Eq)]
pub struct Profile {
    sections: Vec<Section>,
}

/// What a section holds.
#[verifier::ext_equal]
pub struct Part {
    pub name: Seq<char>,
    pub entries: Seq<(Seq<char>, Option<Seq<char>>)>,
}

/// What a profile holds.
pub type Table = Seq<Part>;

/// The contents of an ini text: for each section, its keys and their values.
pub type IniMap = Map<Seq<char>, Map<Seq<char>, Option<Seq<char>>>>;

impl DeepView for Section {
    type V = Part;

    open spec fn deep_view(&self) -> Part {
        Part { name: self.name@, entries: self.entries.deep_view() }
    }
}

impl DeepView for Profile {
    type V = Table;

    closed spec fn deep_view(&self) -> Table {
        self.sections.deep_view()
    }
}

// ------------------------------------------------------------ the contents

/// The keys of a list of entries, each once, with the values that they have.
pub open spec fn entry_map(entries: Seq<(Seq<char>, Option<Seq<char>>)>) -> Map<
    Seq<char>,
    Option<Seq<char>>,
>
    decreases entries.len(),
{
    if entries.len() == 0 {
        Map::empty()
    } else {
        entry_map(entries.drop_last()).insert(entries.last().0, entries.last().1)
    }
}

/// The sections of a table, as a map.
pub open spec fn table_map(table: Table) -> IniMap
    decreases table.len(),
{
    if table.len() == 0 {
        Map::empty()
    } else {
        table_map(table.drop_last()).insert(table.last().name, entry_map(table.last().entries))
    }
}

/// No key stands twice.
pub open spec fn distinct_keys(entries: Seq<(Seq<char>, Option<Seq<char>>)>) -> bool {
    forall|i: int, j: int|
        0 <= i < j < entries.len() ==> (#[trigger] entries[i]).0 != (#[trigger] entries[j]).0
}

/// No section stands twice, and no key twice in a section.
pub open spec fn well_formed(table: Table) -> bool {
    &&& forall|i: int, j: int|
        0 <= i < j < table.len() ==> (#[trigger] table[i]).name != (#[trigger] table[j]).name
    &&& forall|i: int| 0 <= i < table.len() ==> distinct_keys((#[trigger] table[i]).entries)
}

/// The position of the first section of that name; the number of sections where there is none.
pub open spec fn section_at(table: Table, name: Seq<char>) -> int
    decreases table.len(),
{
    if table.len() == 0 || table[0].name == name {
        0
    } else {
        1 + section_at(table.drop_first(), name)
    }
}

/// Whether the table has a section of that name.
pub open spec fn has_section(table: Table, name: Seq<char>) -> bool {
    section_at(table, name) < table.len()
}

/// The keys of the section of that name, in order; none where there is no such section.
pub open spec fn keys_of(table: Table, name: Seq<char>) -> Seq<Seq<char>> {
    if has_section(table, name) {
        let entries = table[section_at(table, name)].entries;
        Seq::new(entries.len(), |i: int| entries[i].0)
    } else {
        seq![]
    }
}

/// How section names and keys are spelled in a profile: in lower case.
pub open spec fn folded(s: Seq<char>) -> Seq<char> {
    lowered(s)
}

/// The position of the first entry for `key`; the number of entries where there is none.
pub open spec fn entry_at(entries: Seq<(Seq<char>, Option<Seq<char>>)>, key: Seq<char>) -> int
    decreases entries.len(),
{
    if entries.len() == 0 || entries[0].0 == key {
        0
    } else {
        1 + entry_at(entries.drop_first(), key)
    }
}

/// The entries without the one for `key`.
pub open spec fn entries_without(
    entries: Seq<(Seq<char>, Option<Seq<char>>)>,
    key: Seq<char>,
) -> Seq<(Seq<char>, Option<Seq<char>>)> {
    let i = entry_at(entries, key);
    if 0 <= i < entries.len() {
        entries.remove(i)
    } else {
        entries
    }
}

/// The entries with `key` set to `value`.
pub open spec fn entries_with(
    entries: Seq<(Seq<char>, Option<Seq<char>>)>,
    key: Seq<char>,
    value: Option<Seq<char>>,
) -> Seq<(Seq<char>, Option<Seq<char>>)> {
    let i = entry_at(entries, key);
    if 0 <= i < entries.len() {
        entries.update(i, (key, value))
    } else {
        entries.push((key, value))
    }
}

/// The table without `key` in the section `section`.
pub open spec fn table_without(table: Table, section: Seq<char>, key: Seq<char>) -> Table {
    let i = section_at(table, folded(section));
    if 0 <= i < table.len() {
        table.update(
            i,
            Part { name: table[i].name, entries: entries_without(table[i].entries, folded(key)) },
        )
    } else {
        table
    }
}

/// The table with `key` of the section `section` set to `value`.
pub open spec fn table_with(
    table: Table,
    section: Seq<char>,
    key: Seq<char>,
    value: Option<Seq<char>>,
) -> Table {
    let i = section_at(table, folded(section));
    if 0 <= i < table.len() {
        table.update(
            i,
            Part {
                name: table[i].name,
                entries: entries_with(table[i].entries, folded(key), value),
            },
        )
    } else {
        table.push(Part { name: folded(section), entries: seq![(folded(key), value)] })
    }
}

proof fn lemma_section_at(table: Table, name: Seq<char>)
    ensures
        0 <= section_at(table, name) <= table.len(),
        has_section(table, name) ==> table[section_at(table, name)].name == name,
        forall|i: int| 0 <= i < section_at(table, name) ==> (#[trigger] table[i]).name != name,
    decreases table.len(),
{
    if table.len() > 0 && table[0].name != name {
        lemma_section_at(table.drop_first(), name);
        let n = section_at(table.drop_first(), name);
        assert forall|i: int| 0 <= i < n + 1 implies (#[trigger] table[i]).name != name by {
            if i > 0 {
                assert(table.drop_first()[i - 1].name != name);
            }
        }
    }
}

proof fn lemma_entry_at(entries: Seq<(Seq<char>, Option<Seq<char>>)>, key: Seq<char>)
    ensures
        0 <= entry_at(entries, key) <= entries.len(),
        entry_at(entries, key) < entries.len() ==> entries[entry_at(entries, key)].0 == key,
        forall|i: int| 0 <= i < entry_at(entries, key) ==> (#[trigger] entries[i]).0 != key,
    decreases entries.len(),
{
    if entries.len() > 0 && entries[0].0 != key {
        lemma_entry_at(entries.drop_first(), key);
        let n = entry_at(entries.drop_first(), key);
        assert forall|i: int| 0 <= i < n + 1 implies (#[trigger] entries[i]).0 != key by {
            if i > 0 {
                assert(entries.drop_first()[i - 1].0 != key);
            }
        }
    }
}

// ------------------------------------------------------------------- reading

/// What `configparser` reads from a text, with the comment symbols and the setting
/// for values over several lines that it is given: the sections with their keys and
/// values, or why the text cannot be read.
pub uninterp spec fn ini_parse(symbols: Seq<char>, multiline: bool, text: Seq<char>) -> Result<
    IniMap,
    Seq<char>,
>;

/// A list of sections as a table.
pub open spec fn raw_table(raw: Seq<(String, Vec<(String, Option<String>)>)>) -> Table {
    Seq::new(
        raw.len(),
        |i: int|
            Part { name: raw[i].0@, entries: raw[i].1.deep_view() },
    )
}

/// Calls `Ini::new`, `Ini::set_comment_symbols`, `Ini::set_multiline` and `Ini::read` of
/// `configparser`, and lists the map that comes back. Claimed: whether the text can be
/// read, what it holds, and the complaint, depend on the arguments alone; the list has each
/// section once and each key of a section once. The order of the list is left open, as the
/// map is a hash map.
#[verifier::external_body]
fn parse_ini(symbols: &[char], multiline: bool, text: String) -> (r: Result<
    Vec<(String, Vec<(String, Option<String>)>)>,
    String,
>)
    ensures
        match (r, ini_parse(symbols@, multiline, text@)) {
            (Ok(raw), Ok(map)) => well_formed(raw_table(raw@)) && table_map(raw_table(raw@))
                == map,
            (Err(why), Err(complaint)) => why@ == complaint,
            _ => false,
        },
{
    let mut ini = configparser::ini::Ini::new();
    ini.set_comment_symbols(symbols);
    ini.set_multiline(multiline);
    let map = ini.read(text)?;
    Ok(map.into_iter().map(|(name, entries)| (name, entries.into_iter().collect())).collect())
}

/// The profile that a text holds: `#` begins a comment, and values may go over several lines.
pub fn read_profile(text: String) -> (r: Result<Profile, String>)
    ensures
        match (r, ini_parse(seq!['#'], true, text@)) {
            (Ok(profile), Ok(map)) => well_formed(profile.deep_view()) && table_map(
                profile.deep_view(),
            ) == map,
            (Err(why), Err(complaint)) => why@ == complaint,
            _ => false,
        },
{
    let symbols: Vec<char> = vec!['#'];
    assert(symbols@ =~= seq!['#']);
    match parse_ini(symbols.as_slice(), true, text) {
        Err(why) => Err(why),
        Ok(raw) => {
            let profile = profile_from(raw);
            Ok(profile)
        },
    }
}

/// The profile that a list of sections makes.
fn profile_from(raw: Vec<(String, Vec<(String, Option<String>)>)>) -> (r: Profile)
    requires
        well_formed(raw_table(raw@)),
    ensures
        r.deep_view() == raw_table(raw@),
{
    let mut sections: Vec<Section> = Vec::new();
    let mut raw = raw;
    let ghost all = raw@;
    while raw.len() > 0
        invariant
            sections.deep_view() + raw_table(raw@) == raw_table(all),
        decreases raw.len(),
    {
        let ghost seen = sections.deep_view();
        let ghost left = raw@;
        let (name, entries) = raw.remove(0);
        sections.push(Section { name, entries });
        assert(sections.deep_view() + raw_table(raw@) =~= seen + raw_table(left));
    }
    assert(sections.deep_view() =~= raw_table(all));
    Profile { sections }
}

// ------------------------------------------------------------------ editing

fn copied_entries(list: &Vec<(String, Option<String>)>) -> (r: Vec<(String, Option<String>)>)
    ensures
        r.deep_view() == list.deep_view(),
{
    let mut r: Vec<(String, Option<String>)> = Vec::new();
    let mut i: usize = 0;
    while i < list.len()
        invariant
            i <= list.len(),
            r.deep_view() =~= list.deep_view().take(i as int),
        decreases list.len() - i,
    {
        let ghost before = r.deep_view();
        let value = match &list[i].1 {
            Some(v) => Some(v.clone()),
            None => None,
        };
        r.push((list[i].0.clone(), value));
        assert(r.deep_view() =~= before.push(list.deep_view()[i as int]));
        i += 1;
    }
    assert(list.deep_view().take(list.len() as int) =~= list.deep_view());
    r
}

impl Profile {
    /// No section stands twice, and no key twice in a section.
    #[verifier::type_invariant]
    pub open spec fn sound(self) -> bool {
        well_formed(self.deep_view())
    }

    /// A profile without sections.
    pub fn empty() -> (r: Profile)
        ensures
            r.deep_view() == Seq::<Part>::empty(),
    {
        let sections: Vec<Section> = Vec::new();
        assert(sections.deep_view() =~= Seq::<Part>::empty());
        Profile { sections }
    }

    /// The sections.
    pub fn sections(&self) -> (r: &Vec<Section>)
        ensures
            r.deep_view() == self.deep_view(),
            well_formed(r.deep_view()),
    {
        proof {
            use_type_invariant(self);
        }
        &self.sections
    }

    fn section_index(&self, name: &str) -> (r: usize)
        ensures
            r <= self.sections.len(),
            r == section_at(self.deep_view(), name@),
    {
        let ghost table = self.deep_view();
        let mut i: usize = 0;
        assert(table.skip(0) =~= table);
        while i < self.sections.len() && !same(self.sections[i].name.as_str(), name)
            invariant
                i <= self.sections.len(),
                table == self.sections.deep_view(),
                section_at(table, name@) == i + section_at(table.skip(i as int), name@),
            decreases self.sections.len() - i,
        {
            assert(table.skip(i as int).drop_first() =~= table.skip(i + 1));
            i += 1;
        }
        i
    }

    /// Whether there is a section of that name.
    pub fn has(&self, name: &str) -> (r: bool)
        ensures
            r == has_section(self.deep_view(), name@),
    {
        self.section_index(name) < self.sections.len()
    }

    /// The keys of the section of that name.
    pub fn keys(&self, name: &str) -> (r: Vec<String>)
        ensures
            r.deep_view() == keys_of(self.deep_view(), name@),
            r.deep_view().no_duplicates(),
    {
        proof {
            use_type_invariant(self);
            law_keys(self.deep_view(), name@);
        }
        let mut r: Vec<String> = Vec::new();
        let at = self.section_index(name);
        if at < self.sections.len() {
            let entries = &self.sections[at].entries;
            let ghost part = self.deep_view()[at as int];
            let mut i: usize = 0;
            while i < entries.len()
                invariant
                    i <= entries.len(),
                    part.entries == entries.deep_view(),
                    r.deep_view() =~= Seq::new(i as nat, |j: int| part.entries[j].0),
                decreases entries.len() - i,
            {
                let ghost before = r.deep_view();
                r.push(entries[i].0.clone());
                assert(r.deep_view() =~= before.push(part.entries[i as int].0));
                i += 1;
            }
        }
        assert(r.deep_view() =~= keys_of(self.deep_view(), name@));
        r
    }

    /// Takes `key` out of `section`, as `Ini::remove_key` does.
    pub fn remove_key(&mut self, section: &str, key: &str)
        ensures
            final(self).deep_view() == table_without(old(self).deep_view(), section@, key@),
            well_formed(final(self).deep_view()),
    {
        proof {
            use_type_invariant(&*self);
            law_remove_key(self.deep_view(), section@, key@);
        }
        let section = to_lower(section);
        let key = to_lower(key);
        let ghost table = self.deep_view();
        let at = self.section_index(section.as_str());
        if at < self.sections.len() {
            let mut rest = copied_entries(&self.sections[at].entries);
            let i = entry_index(&rest, key.as_str());
            if i < rest.len() {
                let ghost before = rest.deep_view();
                rest.remove(i);
                assert(rest.deep_view() =~= before.remove(i as int));
            }
            let name = self.sections[at].name.clone();
            let mut sections: Vec<Section> = Vec::new();
            std::mem::swap(&mut sections, &mut self.sections);
            sections.set(at, Section { name, entries: rest });
            assert(sections.deep_view() =~= table.update(
                at as int,
                Part { name: name@, entries: rest.deep_view() },
            ));
            self.sections = sections;
        }
    }

    /// Sets `key` of `section` to `value`, as `Ini::set` does.
    pub fn set(&mut self, section: &str, key: &str, value: Option<String>)
        ensures
            final(self).deep_view() == table_with(
                old(self).deep_view(),
                section@,
                key@,
                value.deep_view(),
            ),
            well_formed(final(self).deep_view()),
    {
        proof {
            use_type_invariant(&*self);
            law_set(self.deep_view(), section@, key@, value.deep_view());
        }
        let section = to_lower(section);
        let key = to_lower(key);
        let ghost table = self.deep_view();
        let ghost entry = (key@, value.deep_view());
        let at = self.section_index(section.as_str());
        if at < self.sections.len() {
            let mut rest = copied_entries(&self.sections[at].entries);
            let i = entry_index(&rest, key.as_str());
            let ghost before = rest.deep_view();
            if i < rest.len() {
                rest.set(i, (key, value));
                assert(rest.deep_view() =~= before.update(i as int, entry));
            } else {
                rest.push((key, value));
                assert(rest.deep_view() =~= before.push(entry));
            }
            let name = self.sections[at].name.clone();
            let mut sections: Vec<Section> = Vec::new();
            std::mem::swap(&mut sections, &mut self.sections);
            sections.set(at, Section { name, entries: rest });
            assert(sections.deep_view() =~= table.update(
                at as int,
                Part { name: name@, entries: rest.deep_view() },
            ));
            self.sections = sections;
        } else {
            let mut entries: Vec<(String, Option<String>)> = Vec::new();
            entries.push((key, value));
            assert(entries.deep_view() =~= seq![entry]);
            let mut sections: Vec<Section> = Vec::new();
            std::mem::swap(&mut sections, &mut self.sections);
            sections.push(Section { name: section, entries });
            assert(sections.deep_view() =~= table.push(
                Part { name: section@, entries: seq![entry] },
            ));
            self.sections = sections;
        }
    }
}

fn entry_index(list: &Vec<(String, Option<String>)>, key: &str) -> (r: usize)
    ensures
        r <= list.len(),
        r == entry_at(list.deep_view(), key@),
{
    let ghost entries = list.deep_view();
    let mut i: usize = 0;
    assert(entries.skip(0) =~= entries);
    while i < list.len() && !same(list[i].0.as_str(), key)
        invariant
            i <= list.len(),
            entries == list.deep_view(),
            entry_at(entries, key@) == i + entry_at(entries.skip(i as int), key@),
        decreases list.len() - i,
    {
        assert(entries.skip(i as int).drop_first() =~= entries.skip(i + 1));
        i += 1;
    }
    i
}

impl Clone for Profile {
    fn clone(&self) -> (r: Self)
        ensures
            r.deep_view() == self.deep_view(),
    {
        proof {
            use_type_invariant(self);
        }
        let mut sections: Vec<Section> = Vec::new();
        let mut i: usize = 0;
        while i < self.sections.len()
            invariant
                i <= self.sections.len(),
                sections.deep_view() =~= self.sections.deep_view().take(i as int),
            decreases self.sections.len() - i,
        {
            let ghost before = sections.deep_view();
            sections.push(
                Section {
                    name: self.sections[i].name.clone(),
                    entries: copied_entries(&self.sections[i].entries),
                },
            );
            assert(sections.deep_view() =~= before.push(self.sections.deep_view()[i as int]));
            i += 1;
        }
        assert(self.sections.deep_view().take(self.sections.len() as int)
            =~= self.sections.deep_view());
        Profile { sections }
    }
}

// --------------------------------------------------------------------- laws

proof fn lemma_entry_map(entries: Seq<(Seq<char>, Option<Seq<char>>)>)
    requires
        distinct_keys(entries),
    ensures
        forall|i: int|
            0 <= i < entries.len() ==> entry_map(entries).contains_key((#[trigger] entries[i]).0)
                && entry_map(entries)[entries[i].0] == entries[i].1,
        forall|k: Seq<char>| #[trigger]
            entry_map(entries).contains_key(k) ==> exists|i: int|
                0 <= i < entries.len() && (#[trigger] entries[i]).0 == k,
    decreases entries.len(),
{
    if entries.len() > 0 {
        let rest = entries.drop_last();
        lemma_entry_map(rest);
        assert forall|i: int| 0 <= i < entries.len() implies entry_map(entries).contains_key(
            (#[trigger] entries[i]).0,
        ) && entry_map(entries)[entries[i].0] == entries[i].1 by {
            if i < rest.len() {
                assert(rest[i] == entries[i]);
            }
        }
        assert forall|k: Seq<char>| #[trigger] entry_map(entries).contains_key(k) implies exists|
            i: int,
        |
            0 <= i < entries.len() && (#[trigger] entries[i]).0 == k by {
            if k == entries.last().0 {
                assert(entries[entries.len() - 1].0 == k);
            } else {
                assert(entry_map(rest).contains_key(k));
                let i = choose|i: int| 0 <= i < rest.len() && (#[trigger] rest[i]).0 == k;
                assert(entries[i].0 == k);
            }
        }
    }
}

proof fn lemma_table_map(table: Table)
    requires
        well_formed(table),
    ensures
        forall|i: int|
            0 <= i < table.len() ==> table_map(table).contains_key((#[trigger] table[i]).name)
                && table_map(table)[table[i].name] == entry_map(table[i].entries),
        forall|k: Seq<char>| #[trigger]
            table_map(table).contains_key(k) ==> exists|i: int|
                0 <= i < table.len() && (#[trigger] table[i]).name == k,
    decreases table.len(),
{
    if table.len() > 0 {
        let rest = table.drop_last();
        assert(well_formed(rest)) by {
            assert forall|i: int| 0 <= i < rest.len() implies distinct_keys(
                (#[trigger] rest[i]).entries,
            ) by {
                assert(rest[i] == table[i]);
            }
        }
        lemma_table_map(rest);
        assert forall|i: int| 0 <= i < table.len() implies table_map(table).contains_key(
            (#[trigger] table[i]).name,
        ) && table_map(table)[table[i].name] == entry_map(table[i].entries) by {
            if i < rest.len() {
                assert(rest[i] == table[i]);
            }
        }
        assert forall|k: Seq<char>| #[trigger] table_map(table).contains_key(k) implies exists|
            i: int,
        |
            0 <= i < table.len() && (#[trigger] table[i]).name == k by {
            if k == table.last().name {
                assert(table[table.len() - 1].name == k);
            } else {
                assert(table_map(rest).contains_key(k));
                let i = choose|i: int| 0 <= i < rest.len() && (#[trigger] rest[i]).name == k;
                assert(table[i].name == k);
            }
        }
    }
}

/// The keys of a section are the keys that the ini text has for it, each once.
pub proof fn law_keys(table: Table, name: Seq<char>)
    requires
        well_formed(table),
    ensures
        has_section(table, name) == table_map(table).contains_key(name),
        has_section(table, name) ==> keys_of(table, name).to_set() =~= table_map(table)[name].dom(),
        keys_of(table, name).no_duplicates(),
{
    lemma_section_at(table, name);
    lemma_table_map(table);
    let at = section_at(table, name);
    if has_section(table, name) {
        let entries = table[at].entries;
        lemma_entry_map(entries);
        let keys = keys_of(table, name);
        assert forall|k: Seq<char>| keys.to_set().contains(k) == table_map(
            table,
        )[name].contains_key(k) by {
            if keys.contains(k) {
                let i = choose|i: int| 0 <= i < keys.len() && keys[i] == k;
                assert(entries[i].0 == k);
            }
            if entry_map(entries).contains_key(k) {
                let i = choose|i: int| 0 <= i < entries.len() && (#[trigger] entries[i]).0 == k;
                assert(keys[i] == k);
            }
        }
        assert forall|i: int, j: int| 0 <= i < j < keys.len() implies keys[i] != keys[j] by {
            assert(entries[i].0 != entries[j].0);
        }
    }
}

/// Taking a key out of a section leaves every other key of every section as it was.
pub proof fn law_remove_key(table: Table, section: Seq<char>, key: Seq<char>)
    requires
        well_formed(table),
    ensures
        well_formed(table_without(table, section, key)),
        table_map(table_without(table, section, key)) =~= if table_map(table).contains_key(
            folded(section),
        ) {
            table_map(table).insert(
                folded(section),
                table_map(table)[folded(section)].remove(folded(key)),
            )
        } else {
            table_map(table)
        },
{
    let name = folded(section);
    let k = folded(key);
    lemma_section_at(table, name);
    lemma_table_map(table);
    let at = section_at(table, name);
    if has_section(table, name) {
        let entries = table[at].entries;
        let rest = entries_without(entries, k);
        lemma_entry_at(entries, k);
        lemma_entry_map(entries);
        assert(distinct_keys(rest));
        lemma_entry_map(rest);
        assert(entry_map(rest) =~= entry_map(entries).remove(k)) by {
            let e = entry_at(entries, k);
            assert forall|x: Seq<char>| entry_map(rest).contains_key(x) == entry_map(
                entries,
            ).remove(k).contains_key(x) by {
                if entry_map(rest).contains_key(x) {
                    let i = choose|i: int| 0 <= i < rest.len() && (#[trigger] rest[i]).0 == x;
                    if e < entries.len() && i >= e {
                        assert(rest[i] == entries[i + 1]);
                    } else {
                        assert(rest[i] == entries[i]);
                    }
                }
                if x != k && entry_map(entries).contains_key(x) {
                    let i = choose|i: int|
                        0 <= i < entries.len() && (#[trigger] entries[i]).0 == x;
                    if e < entries.len() && i > e {
                        assert(rest[i - 1] == entries[i]);
                    } else {
                        assert(rest[i] == entries[i]);
                    }
                }
            }
            assert forall|x: Seq<char>| #[trigger]
                entry_map(rest).contains_key(x) implies entry_map(rest)[x] == entry_map(
                entries,
            )[x] by {
                let i = choose|i: int| 0 <= i < rest.len() && (#[trigger] rest[i]).0 == x;
                if e < entries.len() && i >= e {
                    assert(rest[i] == entries[i + 1]);
                } else {
                    assert(rest[i] == entries[i]);
                }
            }
        }
        lemma_update_section(table, at, rest);
    }
}

/// Setting a key of a section leaves every other key of every section as it was.
pub proof fn law_set(
    table: Table,
    section: Seq<char>,
    key: Seq<char>,
    value: Option<Seq<char>>,
)
    requires
        well_formed(table),
    ensures
        well_formed(table_with(table, section, key, value)),
        table_map(table_with(table, section, key, value)) =~= table_map(table).insert(
            folded(section),
            if table_map(table).contains_key(folded(section)) {
                table_map(table)[folded(section)].insert(folded(key), value)
            } else {
                Map::empty().insert(folded(key), value)
            },
        ),
{
    let name = folded(section);
    let k = folded(key);
    lemma_section_at(table, name);
    lemma_table_map(table);
    let after = table_with(table, section, key, value);
    let at = section_at(table, name);
    if has_section(table, name) {
        let entries = table[at].entries;
        let rest = entries_with(entries, k, value);
        lemma_entry_at(entries, k);
        lemma_entry_map(entries);
        assert(distinct_keys(rest));
        lemma_entry_map(rest);
        assert(entry_map(rest) =~= entry_map(entries).insert(k, value)) by {
            let e = entry_at(entries, k);
            assert(rest[e] == (k, value));
            assert forall|x: Seq<char>| #[trigger]
                entry_map(rest).contains_key(x) implies entry_map(entries).insert(
                k,
                value,
            ).contains_key(x) && entry_map(rest)[x] == entry_map(entries).insert(k, value)[x] by {
                let i = choose|i: int| 0 <= i < rest.len() && (#[trigger] rest[i]).0 == x;
                if i != e {
                    assert(rest[i] == entries[i]);
                }
            }
            assert forall|x: Seq<char>| #[trigger]
                entry_map(entries).insert(k, value).contains_key(x) implies entry_map(
                rest,
            ).contains_key(x) by {
                if x != k {
                    let i = choose|i: int|
                        0 <= i < entries.len() && (#[trigger] entries[i]).0 == x;
                    assert(rest[i] == entries[i]);
                }
            }
        }
        lemma_update_section(table, at, rest);
    } else {
        assert(distinct_keys(after[table.len() as int].entries));
        assert(after.drop_last() =~= table);
        let one = seq![(k, value)];
        assert(one.drop_last() =~= Seq::<(Seq<char>, Option<Seq<char>>)>::empty());
        assert(entry_map(one) =~= Map::empty().insert(k, value)) by {
            reveal_with_fuel(entry_map, 2);
        }
        assert(well_formed(after)) by {
            assert forall|i: int| 0 <= i < after.len() implies distinct_keys(
                (#[trigger] after[i]).entries,
            ) by {
                if i < table.len() {
                    assert(after[i] == table[i]);
                }
            }
        }
    }
}

proof fn lemma_update_section(
    table: Table,
    at: int,
    rest: Seq<(Seq<char>, Option<Seq<char>>)>,
)
    requires
        well_formed(table),
        0 <= at < table.len(),
        distinct_keys(rest),
    ensures
        ({
            let after = table.update(at, Part { name: table[at].name, entries: rest });
            well_formed(after) && table_map(after) =~= table_map(table).insert(
                table[at].name,
                entry_map(rest),
            )
        }),
{
    let after = table.update(at, Part { name: table[at].name, entries: rest });
    assert(well_formed(after)) by {
        assert forall|i: int| 0 <= i < after.len() implies distinct_keys(
            (#[trigger] after[i]).entries,
        ) by {
            if i != at {
                assert(after[i] == table[i]);
            }
        }
        assert forall|i: int, j: int| 0 <= i < j < after.len() implies (#[trigger] after[i]).name
            != (#[trigger] after[j]).name by {
            assert(table[i].name != table[j].name);
        }
    }
    lemma_table_map(table);
    lemma_table_map(after);
    assert(after[at].name == table[at].name);
    assert forall|x: Seq<char>| #[trigger] table_map(after).contains_key(x) implies table_map(
        table,
    ).insert(table[at].name, entry_map(rest)).contains_key(x) && table_map(after)[x] == table_map(
        table,
    ).insert(table[at].name, entry_map(rest))[x] by {
        let i = choose|i: int| 0 <= i < after.len() && (#[trigger] after[i]).name == x;
        if i != at {
            assert(after[i] == table[i]);
            assert(table[i].name != table[at].name) by {
                if i < at {
                    assert(table[i].name != table[at].name);
                } else {
                    assert(table[at].name != table[i].name);
                }
            }
        }
    }
    assert forall|x: Seq<char>| #[trigger]
        table_map(table).insert(table[at].name, entry_map(rest)).contains_key(x) implies table_map(
        after,
    ).contains_key(x) by {
        if x != table[at].name {
            let i = choose|i: int| 0 <= i < table.len() && (#[trigger] table[i]).name == x;
            assert(after[i] == table[i]);
        }
    }
}

/// A key stands in a section exactly where the contents of the table have it there.
pub proof fn lemma_member(table: Table, name: Seq<char>, key: Seq<char>)
    requires
        well_formed(table),
    ensures
        keys_of(table, name).contains(key) == (table_map(table).contains_key(name) && table_map(
            table,
        )[name].contains_key(key)),
{
    law_keys(table, name);
    if has_section(table, name) {
        assert(keys_of(table, name).to_set().contains(key) == table_map(
            table,
        )[name].dom().contains(key));
    }
}

/// Which keys stand in a section after one was taken out of `section`.
pub proof fn lemma_member_without(
    table: Table,
    section: Seq<char>,
    key: Seq<char>,
    name: Seq<char>,
    k: Seq<char>,
)
    requires
        well_formed(table),
    ensures
        well_formed(table_without(table, section, key)),
        keys_of(table_without(table, section, key), name).contains(k) == (keys_of(
            table,
            name,
        ).contains(k) && !(name == folded(section) && k == folded(key))),
{
    law_remove_key(table, section, key);
    lemma_member(table, name, k);
    lemma_member(table_without(table, section, key), name, k);
}

/// Which keys stand in a section after one was set in `section`.
pub proof fn lemma_member_with(
    table: Table,
    section: Seq<char>,
    key: Seq<char>,
    value: Option<Seq<char>>,
    name: Seq<char>,
    k: Seq<char>,
)
    requires
        well_formed(table),
    ensures
        well_formed(table_with(table, section, key, value)),
        keys_of(table_with(table, section, key, value), name).contains(k) == (keys_of(
            table,
            name,
        ).contains(k) || (name == folded(section) && k == folded(key))),
{
    law_set(table, section, key, value);
    lemma_member(table, name, k);
    lemma_member(table_with(table, section, key, value), name, k);
}

}
