//! What checking a profile comes to: the file in which it is left lists what is installed, and
//! nothing twice.

use vstd::prelude::*;
use crate::model::{
    leads, lemma_leads_chain, lemma_leads_done, lemma_leads_flag, lemma_leads_keeping,
    lemma_leads_narrower, lemma_leads_sure, lemma_leads_weaker, Model,
};
use crate::profile::{
    folded, has_section, keys_of, law_remove_key, lemma_member_with, lemma_member_without,
    table_without, well_formed, Table,
};
use crate::profiles::{
    apply_script, check_profile_script, dedup, drop_keys, including, law_without, new_profile,
    old_profile, prune_rest, prune_services, renew_keys, rewrite_script, spellings, sync_each,
    sync_one, sync_pkgs, sync_rest, sync_services, sync_system, without,
};
use crate::request::{Answer, Req};
use crate::script::{
    as_profile, as_texts, asks_only, chain, done, flag, give, profile, sure, texts, Build, Script,
};
use crate::text::{ascii, law_lowered, small_text};

verus! {

/// The names are spelled as a profile spells them.
pub open spec fn spelled(list: Seq<Seq<char>>) -> bool {
    forall|k: Seq<char>| #[trigger] list.contains(k) ==> folded(k) == k
}

/// No package whose name is spelled as a profile spells it is both a system package and a profile
/// package.
pub open spec fn separate(t: Table) -> bool {
    forall|k: Seq<char>| #[trigger]
        keys_of(t, "system-packages"@).contains(k) && folded(k) == k ==> !keys_of(
            t,
            "profile-packages"@,
        ).contains(k)
}

/// All profile packages are installed, and all installed packages are in the profile, under their
/// names as a profile spells them.
pub open spec fn matching(t: Table, installed: Seq<Seq<char>>) -> bool {
    &&& forall|k: Seq<char>| #[trigger]
        keys_of(t, "profile-packages"@).contains(k) ==> spellings(installed).contains(k)
    &&& forall|x: Seq<char>| #[trigger]
        installed.contains(x) ==> keys_of(t, "system-packages"@).contains(folded(x)) || keys_of(
            t,
            "profile-packages"@,
        ).contains(folded(x))
}

/// Surroundings in which a file holds the profile that was last written to it.
pub open spec fn holding(file: Seq<char>) -> Model<Table> {
    Model {
        fits: |t: Table, req: Req, a: Answer| true,
        step: |t: Table, req: Req, a: Answer|
            match req {
                Req::WriteProfile { path, profile } => if path == file && a is Done {
                    profile
                } else {
                    t
                },
                _ => t,
            },
    }
}

/// Any request.
pub open spec fn any_request() -> spec_fn(Table, Req) -> bool {
    |t: Table, req: Req| true
}

/// The file holds the profile that was given, which is well formed and `good`.
pub open spec fn written(good: spec_fn(Table) -> bool) -> spec_fn(Table, Table) -> bool {
    |now: Table, t: Table| now == t && well_formed(t) && good(t)
}

/// The system packages of `a` are system packages of `b`.
pub open spec fn fewer(a: Table, b: Table) -> bool {
    forall|k: Seq<char>| #[trigger]
        keys_of(a, "system-packages"@).contains(k) ==> keys_of(b, "system-packages"@).contains(k)
}

/// The two tables have the same keys in a section.
pub open spec fn same_keys(a: Table, b: Table, name: Seq<char>) -> bool {
    forall|k: Seq<char>| #[trigger] keys_of(a, name).contains(k) == keys_of(b, name).contains(k)
}

proof fn lemma_sections()
    ensures
        folded("system-packages"@) == "system-packages"@,
        folded("profile-packages"@) == "profile-packages"@,
        folded("enable-services"@) == "enable-services"@,
        folded("disable-services"@) == "disable-services"@,
        "system-packages"@ != "profile-packages"@,
        "system-packages"@ != "enable-services"@,
        "system-packages"@ != "disable-services"@,
        "profile-packages"@ != "enable-services"@,
        "profile-packages"@ != "disable-services"@,
{
    reveal_strlit("system-packages");
    reveal_strlit("profile-packages");
    reveal_strlit("enable-services");
    reveal_strlit("disable-services");
    assert("system-packages"@[0] == 's');
    assert("profile-packages"@[0] == 'p');
    assert("enable-services"@[0] == 'e');
    assert("disable-services"@[0] == 'd');
    assert(small_text("system-packages"@) =~= "system-packages"@);
    assert(small_text("profile-packages"@) =~= "profile-packages"@);
    assert(small_text("enable-services"@) =~= "enable-services"@);
    assert(small_text("disable-services"@) =~= "disable-services"@);
}

proof fn lemma_drop_keys(t: Table, section: Seq<char>, keys: Seq<Seq<char>>, name: Seq<char>)
    requires
        well_formed(t),
    ensures
        well_formed(drop_keys(t, section, keys)),
        forall|k: Seq<char>| #[trigger]
            keys_of(drop_keys(t, section, keys), name).contains(k) == (keys_of(t, name).contains(k)
                && !(name == folded(section) && exists|i: int|
                0 <= i < keys.len() && folded(#[trigger] keys[i]) == k)),
    decreases keys.len(),
{
    if keys.len() > 0 {
        let rest = keys.drop_last();
        let before = drop_keys(t, section, rest);
        lemma_drop_keys(t, section, rest, name);
        lemma_member_without(before, section, keys.last(), name, name);
        assert forall|k: Seq<char>| #[trigger]
            keys_of(drop_keys(t, section, keys), name).contains(k) == (keys_of(t, name).contains(k)
                && !(name == folded(section) && exists|i: int|
                0 <= i < keys.len() && folded(#[trigger] keys[i]) == k)) by {
            lemma_member_without(before, section, keys.last(), name, k);
            if exists|i: int| 0 <= i < rest.len() && folded(#[trigger] rest[i]) == k {
                let i = choose|i: int| 0 <= i < rest.len() && folded(#[trigger] rest[i]) == k;
                assert(folded(keys[i]) == k);
            }
            if exists|i: int| 0 <= i < keys.len() && folded(#[trigger] keys[i]) == k {
                let i = choose|i: int| 0 <= i < keys.len() && folded(#[trigger] keys[i]) == k;
                if i < rest.len() {
                    assert(folded(rest[i]) == k);
                }
            }
            assert(folded(keys[keys.len() - 1]) == folded(keys.last()));
        }
    }
}

proof fn lemma_renew_keys(t: Table, section: Seq<char>, keys: Seq<Seq<char>>, name: Seq<char>)
    requires
        well_formed(t),
    ensures
        well_formed(renew_keys(t, section, keys)),
        forall|k: Seq<char>| #[trigger]
            keys_of(renew_keys(t, section, keys), name).contains(k) == (keys_of(
                t,
                name,
            ).contains(k) || (name == folded(section) && exists|i: int|
                0 <= i < keys.len() && folded(#[trigger] keys[i]) == k)),
    decreases keys.len(),
{
    if keys.len() > 0 {
        let rest = keys.drop_last();
        let before = renew_keys(t, section, rest);
        let mid = table_without(before, section, keys.last());
        lemma_renew_keys(t, section, rest, name);
        lemma_member_without(before, section, keys.last(), name, name);
        lemma_member_with(mid, section, keys.last(), None, name, name);
        assert forall|k: Seq<char>| #[trigger]
            keys_of(renew_keys(t, section, keys), name).contains(k) == (keys_of(
                t,
                name,
            ).contains(k) || (name == folded(section) && exists|i: int|
                0 <= i < keys.len() && folded(#[trigger] keys[i]) == k)) by {
            lemma_member_without(before, section, keys.last(), name, k);
            lemma_member_with(mid, section, keys.last(), None, name, k);
            if exists|i: int| 0 <= i < rest.len() && folded(#[trigger] rest[i]) == k {
                let i = choose|i: int| 0 <= i < rest.len() && folded(#[trigger] rest[i]) == k;
                assert(folded(keys[i]) == k);
            }
            if exists|i: int| 0 <= i < keys.len() && folded(#[trigger] keys[i]) == k {
                let i = choose|i: int| 0 <= i < keys.len() && folded(#[trigger] keys[i]) == k;
                if i < rest.len() {
                    assert(folded(rest[i]) == k);
                }
            }
            assert(folded(keys[keys.len() - 1]) == folded(keys.last()));
        }
    }
}

proof fn lemma_without_members(list: Seq<Seq<char>>, other: Seq<Seq<char>>)
    ensures
        forall|k: Seq<char>| #[trigger]
            without(list, other).contains(k) == (list.contains(k) && !other.contains(k)),
{
    assert forall|k: Seq<char>| #[trigger]
        without(list, other).contains(k) == (list.contains(k) && !other.contains(k)) by {
        law_without(list, other, k);
    }
}

/// What is left of a section after those keys went that are not listed.
proof fn lemma_cleaned(t: Table, section: Seq<char>, installed: Seq<Seq<char>>, name: Seq<char>)
    requires
        well_formed(t),
        folded(section) == section,
    ensures
        ({
            let rest = drop_keys(t, section, without(keys_of(t, section), installed));
            &&& well_formed(rest)
            &&& name != section ==> same_keys(rest, t, name)
            &&& fewer(rest, t)
            &&& spelled(keys_of(t, section)) ==> forall|k: Seq<char>| #[trigger]
                keys_of(rest, section).contains(k) == (keys_of(t, section).contains(k)
                    && installed.contains(k))
        }),
{
    let gone = without(keys_of(t, section), installed);
    let rest = drop_keys(t, section, gone);
    lemma_drop_keys(t, section, gone, name);
    lemma_drop_keys(t, section, gone, section);
    lemma_drop_keys(t, section, gone, "system-packages"@);
    lemma_without_members(keys_of(t, section), installed);
    if spelled(keys_of(t, section)) {
        assert forall|k: Seq<char>| #[trigger]
            keys_of(rest, section).contains(k) == (keys_of(t, section).contains(k)
                && installed.contains(k)) by {
            if exists|i: int| 0 <= i < gone.len() && folded(#[trigger] gone[i]) == k {
                let i = choose|i: int| 0 <= i < gone.len() && folded(#[trigger] gone[i]) == k;
                assert(gone.contains(gone[i]));
                assert(gone[i] == k);
            }
            if keys_of(t, section).contains(k) && !installed.contains(k) {
                assert(gone.contains(k));
                let i = choose|i: int| 0 <= i < gone.len() && gone[i] == k;
                assert(folded(gone[i]) == k);
            }
        }
    }
}

proof fn lemma_write(file: Seq<char>, t: Table, now: Table, good: spec_fn(Table) -> bool)
    requires
        well_formed(t),
        good(t),
    ensures
        leads(
            chain(done(Req::WriteProfile { path: file, profile: t }), |u: ()| give(t)),
            holding(file),
            now,
            any_request(),
            written(good),
        ),
{
    let m = holding(file);
    let req = Req::WriteProfile { path: file, profile: t };
    let mid = |s: Table, u: ()| s == t;
    lemma_leads_done(req, m, now, any_request(), mid);
    lemma_leads_chain(done(req), |u: ()| give(t), m, now, any_request(), mid, written(good));
}

/// The profile packages are those of `t`, and there are no new system packages.
pub open spec fn cleaned_system(t: Table) -> spec_fn(Table) -> bool {
    |t1: Table| same_keys(t1, t, "profile-packages"@) && fewer(t1, t)
}

proof fn lemma_sync_system(build: Build, file: Seq<char>, installed: Seq<Seq<char>>, t: Table)
    requires
        well_formed(t),
    ensures
        leads(
            sync_system(build, file, installed, t),
            holding(file),
            t,
            any_request(),
            written(cleaned_system(t)),
        ),
{
    let section = "system-packages"@;
    let good = cleaned_system(t);
    let rest = drop_keys(t, section, without(keys_of(t, section), installed));
    lemma_sections();
    lemma_cleaned(t, section, installed, "profile-packages"@);
    lemma_write(file, rest, t, good);
    reveal(sync_system);
}

/// The profile packages are those of `t` that are installed.
pub open spec fn cleaned(t: Table, installed: Seq<Seq<char>>) -> spec_fn(Table) -> bool {
    |t1: Table|
        {
            &&& fewer(t1, t)
            &&& spelled(keys_of(t, "profile-packages"@)) ==> forall|k: Seq<char>| #[trigger]
                keys_of(t1, "profile-packages"@).contains(k) == (keys_of(
                    t,
                    "profile-packages"@,
                ).contains(k) && installed.contains(k))
        }
}

proof fn lemma_sync_pkgs(file: Seq<char>, installed: Seq<Seq<char>>, t: Table)
    requires
        well_formed(t),
    ensures
        leads(
            sync_pkgs(file, installed, t),
            holding(file),
            t,
            any_request(),
            written(cleaned(t, installed)),
        ),
{
    let section = "profile-packages"@;
    let rest = drop_keys(t, section, without(keys_of(t, section), installed));
    lemma_sections();
    lemma_cleaned(t, section, installed, "system-packages"@);
    lemma_write(file, rest, t, cleaned(t, installed));
    reveal(sync_pkgs);
}

/// The profile packages are those of `t` that are installed, and `pkg` as a profile spells it.
pub open spec fn passed(t: Table, installed: Seq<Seq<char>>, pkg: Seq<char>) -> spec_fn(
    Table,
) -> bool {
    |t1: Table|
        {
            &&& fewer(t1, t)
            &&& spelled(keys_of(t, "profile-packages"@)) ==> forall|k: Seq<char>| #[trigger]
                keys_of(t1, "profile-packages"@).contains(k) == ((keys_of(
                    t,
                    "profile-packages"@,
                ).contains(k) && installed.contains(k)) || k == folded(pkg))
        }
}

proof fn lemma_sync_one(
    build: Build,
    file: Seq<char>,
    installed: Seq<Seq<char>>,
    pkg: Seq<char>,
    t: Table,
)
    requires
        well_formed(t),
    ensures
        leads(
            sync_one(build, file, installed, pkg, t),
            holding(file),
            t,
            any_request(),
            written(passed(t, installed, pkg)),
        ),
{
    let m = holding(file);
    let ok = any_request();
    let name = "profile-packages"@;
    let first = cleaned_system(t);
    let end = passed(t, installed, pkg);
    lemma_sections();
    let enter = |t2: Table|
        {
            let keys = including(keys_of(t2, name), pkg);
            let t3 = renew_keys(t2, name, keys);
            chain(done(Req::WriteProfile { path: file, profile: t3 }), |u: ()| give(t3))
        };
    let k1 = |t1: Table| chain(sync_pkgs(file, installed, t1), enter);
    assert forall|now: Table, t1: Table| #[trigger] written(first)(now, t1) implies leads(
        k1(t1),
        m,
        now,
        ok,
        written(end),
    ) by {
        lemma_sync_pkgs(file, installed, t1);
        let second = cleaned(t1, installed);
        assert forall|now: Table, t2: Table| #[trigger] written(second)(now, t2) implies leads(
            enter(t2),
            m,
            now,
            ok,
            written(end),
        ) by {
            let keys = including(keys_of(t2, name), pkg);
            let t3 = renew_keys(t2, name, keys);
            lemma_renew_keys(t2, name, keys, name);
            lemma_renew_keys(t2, name, keys, "system-packages"@);
            assert(fewer(t3, t)) by {
                assert forall|k: Seq<char>| #[trigger]
                    keys_of(t3, "system-packages"@).contains(k) implies keys_of(
                    t,
                    "system-packages"@,
                ).contains(k) by {
                    assert(keys_of(t2, "system-packages"@).contains(k));
                    assert(keys_of(t1, "system-packages"@).contains(k));
                }
            }
            if spelled(keys_of(t, name)) {
                assert(spelled(keys_of(t1, name))) by {
                    assert forall|k: Seq<char>| #[trigger] keys_of(t1, name).contains(k) implies
                        folded(k) == k by {
                        assert(keys_of(t, name).contains(k));
                    }
                }
                assert forall|k: Seq<char>| #[trigger]
                    keys_of(t3, name).contains(k) == ((keys_of(t, name).contains(k)
                        && installed.contains(k)) || k == folded(pkg)) by {
                    assert(keys_of(t1, name).contains(k) == keys_of(t, name).contains(k));
                    if exists|i: int| 0 <= i < keys.len() && folded(#[trigger] keys[i]) == k {
                        let i = choose|i: int|
                            0 <= i < keys.len() && folded(#[trigger] keys[i]) == k;
                        if keys[i] != pkg {
                            assert(keys_of(t2, name).contains(keys[i])) by {
                                if !keys_of(t2, name).contains(pkg) {
                                    assert(keys[i] == keys_of(t2, name)[i]);
                                }
                            }
                            assert(keys_of(t1, name).contains(keys[i]));
                        }
                    }
                    if k == folded(pkg) {
                        assert(keys.contains(pkg)) by {
                            if !keys_of(t2, name).contains(pkg) {
                                assert(keys[keys.len() - 1] == pkg);
                            }
                        }
                        let i = choose|i: int| 0 <= i < keys.len() && keys[i] == pkg;
                        assert(folded(keys[i]) == k);
                    }
                }
            }
            lemma_write(file, t3, now, end);
        }
        lemma_leads_chain(
            sync_pkgs(file, installed, t1),
            enter,
            m,
            now,
            ok,
            written(second),
            written(end),
        );
    }
    lemma_sync_system(build, file, installed, t);
    lemma_leads_chain(
        sync_system(build, file, installed, t),
        k1,
        m,
        t,
        ok,
        written(first),
        written(end),
    );
    reveal(sync_one);
    assert(sync_one(build, file, installed, pkg, t) == chain(
        sync_system(build, file, installed, t),
        k1,
    ));
}

/// The names in `installed` and those of the packages of `t` are spelled as a profile spells them.
pub open spec fn fair(t: Table, installed: Seq<Seq<char>>) -> bool {
    &&& spelled(keys_of(t, "system-packages"@))
    &&& spelled(keys_of(t, "profile-packages"@))
    &&& spelled(installed)
}

/// After passes for the packages of `todo`: they are profile packages, as a profile spells them,
/// as are those of `t` that are installed; there are no others that are not installed.
pub open spec fn swept(t: Table, installed: Seq<Seq<char>>, todo: Seq<Seq<char>>) -> spec_fn(
    Table,
) -> bool {
    |t1: Table|
        fewer(t1, t) && (fair(t, installed) ==> {
            &&& spelled(keys_of(t1, "profile-packages"@))
            &&& forall|k: Seq<char>| #[trigger]
                keys_of(t1, "profile-packages"@).contains(k) ==> installed.contains(k) || (
                todo.len() == 0 && keys_of(t, "profile-packages"@).contains(k))
            &&& forall|k: Seq<char>| #[trigger]
                keys_of(t, "profile-packages"@).contains(k) && installed.contains(k) ==> keys_of(
                    t1,
                    "profile-packages"@,
                ).contains(k)
            &&& forall|x: Seq<char>| #[trigger]
                todo.contains(x) ==> keys_of(t1, "profile-packages"@).contains(folded(x))
        })
}

proof fn lemma_sync_each(
    build: Build,
    file: Seq<char>,
    installed: Seq<Seq<char>>,
    todo: Seq<Seq<char>>,
    t: Table,
)
    requires
        well_formed(t),
        forall|x: Seq<char>| #[trigger] todo.contains(x) ==> installed.contains(folded(x)),
    ensures
        leads(
            sync_each(build, file, installed, todo, t),
            holding(file),
            t,
            any_request(),
            written(swept(t, installed, todo)),
        ),
    decreases todo.len(),
{
    let m = holding(file);
    let ok = any_request();
    let name = "profile-packages"@;
    if todo.len() > 0 {
        let pkg = todo[0];
        let rest = todo.drop_first();
        let end = swept(t, installed, todo);
        let mid = passed(t, installed, pkg);
        assert(todo.contains(pkg));
        assert forall|x: Seq<char>| #[trigger] rest.contains(x) implies installed.contains(
            folded(x),
        ) by {
            let i = choose|i: int| 0 <= i < rest.len() && rest[i] == x;
            assert(todo[i + 1] == x);
            assert(todo.contains(x));
        }
        lemma_sync_one(build, file, installed, pkg, t);
        assert forall|now: Table, t1: Table| #[trigger] written(mid)(now, t1) implies leads(
            sync_rest(build, file, installed, rest)(t1),
            m,
            now,
            ok,
            written(end),
        ) by {
            lemma_sync_each(build, file, installed, rest, t1);
            assert forall|now: Table, t2: Table| #[trigger]
                written(swept(t1, installed, rest))(now, t2) implies written(end)(now, t2) by {
                assert(fewer(t2, t)) by {
                    assert forall|k: Seq<char>| #[trigger]
                        keys_of(t2, "system-packages"@).contains(k) implies keys_of(
                        t,
                        "system-packages"@,
                    ).contains(k) by {
                        assert(keys_of(t1, "system-packages"@).contains(k));
                    }
                }
                if fair(t, installed) {
                    assert(installed.contains(folded(pkg)));
                    assert(spelled(keys_of(t1, name))) by {
                        assert forall|k: Seq<char>| #[trigger]
                            keys_of(t1, name).contains(k) implies folded(k) == k by {
                            assert(keys_of(t, name).contains(k) || k == folded(pkg));
                        }
                    }
                    assert(spelled(keys_of(t1, "system-packages"@))) by {
                        assert forall|k: Seq<char>| #[trigger]
                            keys_of(t1, "system-packages"@).contains(k) implies folded(k) == k by {
                            assert(keys_of(t, "system-packages"@).contains(k));
                        }
                    }
                    assert(fair(t1, installed));
                    assert forall|k: Seq<char>| #[trigger]
                        keys_of(t2, name).contains(k) implies installed.contains(k) by {
                        if rest.len() == 0 && keys_of(t1, name).contains(k) {
                            assert(k == folded(pkg) || installed.contains(k));
                        }
                    }
                    assert forall|k: Seq<char>| #[trigger]
                        keys_of(t, name).contains(k) && installed.contains(k) implies keys_of(
                        t2,
                        name,
                    ).contains(k) by {
                        assert(keys_of(t1, name).contains(k));
                    }
                    assert forall|x: Seq<char>| #[trigger] todo.contains(x) implies keys_of(
                        t2,
                        name,
                    ).contains(folded(x)) by {
                        if x != pkg {
                            let i = choose|i: int| 0 <= i < todo.len() && todo[i] == x;
                            assert(rest[i - 1] == x);
                            assert(rest.contains(x));
                        } else {
                            assert(keys_of(t1, name).contains(folded(pkg)));
                        }
                    }
                }
            }
            lemma_leads_weaker(
                sync_each(build, file, installed, rest, t1),
                m,
                now,
                ok,
                written(swept(t1, installed, rest)),
                written(end),
            );
        }
        lemma_leads_chain(
            sync_one(build, file, installed, pkg, t),
            sync_rest(build, file, installed, rest),
            m,
            t,
            ok,
            written(mid),
            written(end),
        );
    }
}

/// The table has the packages of `t`.
pub open spec fn same_packages(t: Table) -> spec_fn(Table) -> bool {
    |t1: Table| same_keys(t1, t, "system-packages"@) && same_keys(t1, t, "profile-packages"@)
}

proof fn lemma_prune(
    snapshot: Seq<char>,
    file: Seq<char>,
    section: Seq<char>,
    wanted: bool,
    todo: Seq<Seq<char>>,
    t: Table,
    now: Table,
)
    requires
        well_formed(t),
        folded(section) != "system-packages"@,
        folded(section) != "profile-packages"@,
    ensures
        leads(
            prune_services(snapshot, section, wanted, todo, t),
            holding(file),
            now,
            any_request(),
            |s: Table, t1: Table| well_formed(t1) && same_packages(t)(t1),
        ),
    decreases todo.len(),
{
    let m = holding(file);
    let ok = any_request();
    let good = |s: Table, t1: Table| well_formed(t1) && same_packages(t)(t1);
    if todo.len() > 0 {
        let rest = todo.drop_first();
        let ask = Req::ServiceEnabled { snapshot, service: todo[0] };
        let less = table_without(t, section, todo[0]);
        let next = prune_rest(snapshot, section, wanted, rest, todo[0], t);
        let any = |s: Table, on: bool| true;
        lemma_leads_flag(ask, m, now, ok, any);
        assert(well_formed(less) && same_packages(t)(less)) by {
            law_remove_key(t, section, todo[0]);
            assert forall|k: Seq<char>| #[trigger]
                keys_of(less, "system-packages"@).contains(k) == keys_of(
                    t,
                    "system-packages"@,
                ).contains(k) by {
                lemma_member_without(t, section, todo[0], "system-packages"@, k);
            }
            assert forall|k: Seq<char>| #[trigger]
                keys_of(less, "profile-packages"@).contains(k) == keys_of(
                    t,
                    "profile-packages"@,
                ).contains(k) by {
                lemma_member_without(t, section, todo[0], "profile-packages"@, k);
            }
        }
        assert forall|s: Table, on: bool| #[trigger] any(s, on) implies leads(
            next(on),
            m,
            s,
            ok,
            good,
        ) by {
            let start = if on == wanted {
                t
            } else {
                less
            };
            lemma_prune(snapshot, file, section, wanted, rest, start, s);
            lemma_leads_weaker(
                prune_services(snapshot, section, wanted, rest, start),
                m,
                s,
                ok,
                |s1: Table, t1: Table| well_formed(t1) && same_packages(start)(t1),
                good,
            );
        }
        lemma_leads_chain(flag(ask), next, m, now, ok, any, good);
    }
}

proof fn lemma_sync_services(
    snapshot: Seq<char>,
    file: Seq<char>,
    section: Seq<char>,
    wanted: bool,
    t: Table,
)
    requires
        well_formed(t),
        folded(section) != "system-packages"@,
        folded(section) != "profile-packages"@,
    ensures
        leads(
            sync_services(snapshot, file, section, wanted, t),
            holding(file),
            t,
            any_request(),
            written(same_packages(t)),
        ),
{
    let m = holding(file);
    let ok = any_request();
    let p = prune_services(snapshot, section, wanted, keys_of(t, section), t);
    let mid = |s: Table, t1: Table| well_formed(t1) && same_packages(t)(t1);
    lemma_prune(snapshot, file, section, wanted, keys_of(t, section), t, t);
    let k = |rest: Table|
        chain(done(Req::WriteProfile { path: file, profile: rest }), |u: ()| give(rest));
    assert forall|s: Table, t1: Table| #[trigger] mid(s, t1) implies leads(
        k(t1),
        m,
        s,
        ok,
        written(same_packages(t)),
    ) by {
        lemma_write(file, t1, s, same_packages(t));
    }
    lemma_leads_chain(p, k, m, t, ok, mid, written(same_packages(t)));
    reveal(sync_services);
    assert(has_section(t, section) ==> sync_services(snapshot, file, section, wanted, t) == chain(
        p,
        k,
    ));
}

/// The system packages are those of `t`; the profile packages are those of `t` without the
/// packages of `todo` that are among `pkgs`.
pub open spec fn deduped(t: Table, todo: Seq<Seq<char>>, pkgs: Seq<Seq<char>>) -> spec_fn(
    Table,
) -> bool {
    |t1: Table|
        {
            &&& same_keys(t1, t, "system-packages"@)
            &&& forall|k: Seq<char>| #[trigger]
                keys_of(t1, "profile-packages"@).contains(k) ==> keys_of(
                    t,
                    "profile-packages"@,
                ).contains(k) && !(todo.contains(k) && pkgs.contains(k) && folded(k) == k)
            &&& forall|k: Seq<char>| #[trigger]
                keys_of(t, "profile-packages"@).contains(k) && spelled(todo) && !todo.contains(k)
                    ==> keys_of(t1, "profile-packages"@).contains(k)
        }
}

proof fn lemma_dedup(
    file: Seq<char>,
    todo: Seq<Seq<char>>,
    pkgs: Seq<Seq<char>>,
    t: Table,
)
    requires
        well_formed(t),
    ensures
        leads(
            dedup(file, todo, pkgs, t),
            holding(file),
            t,
            any_request(),
            written(deduped(t, todo, pkgs)),
        ),
    decreases todo.len(),
{
    let m = holding(file);
    let ok = any_request();
    let name = "profile-packages"@;
    let end = deduped(t, todo, pkgs);
    lemma_sections();
    if todo.len() > 0 {
        let one = todo[0];
        let rest = todo.drop_first();
        assert(todo.contains(one));
        assert forall|k: Seq<char>| #[trigger] todo.contains(k) == (k == one || rest.contains(
            k,
        )) by {
            if todo.contains(k) && k != one {
                let i = choose|i: int| 0 <= i < todo.len() && todo[i] == k;
                assert(rest[i - 1] == k);
            }
            if rest.contains(k) {
                let i = choose|i: int| 0 <= i < rest.len() && rest[i] == k;
                assert(todo[i + 1] == k);
            }
        }
        assert(spelled(todo) ==> spelled(rest)) by {
            if spelled(todo) {
                assert forall|k: Seq<char>| #[trigger] rest.contains(k) implies folded(k) == k by {
                    assert(todo.contains(k));
                }
            }
        }
        if pkgs.contains(one) {
            let less = table_without(t, name, one);
            let req = Req::WriteProfile { path: file, profile: less };
            let mid = |s: Table, u: ()| s == less;
            law_remove_key(t, name, one);
            assert forall|k: Seq<char>| #[trigger]
                keys_of(less, name).contains(k) == (keys_of(t, name).contains(k) && k != folded(
                    one,
                )) by {
                lemma_member_without(t, name, one, name, k);
            }
            assert forall|k: Seq<char>| #[trigger]
                keys_of(less, "system-packages"@).contains(k) == keys_of(
                    t,
                    "system-packages"@,
                ).contains(k) by {
                lemma_member_without(t, name, one, "system-packages"@, k);
            }
            lemma_leads_done(req, m, t, ok, mid);
            let next = |u: ()| dedup(file, rest, pkgs, less);
            lemma_dedup(file, rest, pkgs, less);
            assert forall|s: Table, t1: Table| #[trigger]
                written(deduped(less, rest, pkgs))(s, t1) implies written(end)(s, t1) by {
                assert forall|k: Seq<char>| #[trigger]
                    keys_of(t, name).contains(k) && spelled(todo) && !todo.contains(k) implies
                    keys_of(t1, name).contains(k) by {
                    assert(folded(one) == one);
                    assert(keys_of(less, name).contains(k));
                }
                assert forall|k: Seq<char>| #[trigger] keys_of(t1, name).contains(k) implies
                    keys_of(t, name).contains(k) && !(todo.contains(k) && pkgs.contains(k)
                    && folded(k) == k) by {
                    assert(keys_of(less, name).contains(k));
                }
                assert forall|k: Seq<char>| #[trigger]
                    keys_of(t1, "system-packages"@).contains(k) == keys_of(
                        t,
                        "system-packages"@,
                    ).contains(k) by {
                    assert(keys_of(less, "system-packages"@).contains(k) == keys_of(
                        t,
                        "system-packages"@,
                    ).contains(k));
                }
            }
            lemma_leads_weaker(
                dedup(file, rest, pkgs, less),
                m,
                less,
                ok,
                written(deduped(less, rest, pkgs)),
                written(end),
            );
            lemma_leads_chain(done(req), next, m, t, ok, mid, written(end));
            assert(dedup(file, todo, pkgs, t) == chain(done(req), next));
        } else {
            lemma_dedup(file, rest, pkgs, t);
            assert forall|s: Table, t1: Table| #[trigger]
                written(deduped(t, rest, pkgs))(s, t1) implies written(end)(s, t1) by {}
            lemma_leads_weaker(
                dedup(file, rest, pkgs, t),
                m,
                t,
                ok,
                written(deduped(t, rest, pkgs)),
                written(end),
            );
        }
    }
}

/// What the profile comes to: no package is listed twice, and where there are installed packages,
/// the profile lists just what is installed. The second is said of names that come out the same
/// when they are put in lower case once more, as all ASCII names do.
pub open spec fn settled(n: Table, installed: Seq<Seq<char>>) -> spec_fn(Table) -> bool {
    |t: Table|
        separate(t) && (fair(n, spellings(installed)) && installed.len() > 0 ==> matching(
            t,
            installed,
        ))
}

/// The names of installed packages may have upper-case letters: spelled as a profile spells them,
/// ASCII names stay as they are.
pub proof fn law_ascii_names(installed: Seq<Seq<char>>)
    requires
        forall|i: int| 0 <= i < installed.len() ==> ascii(#[trigger] installed[i]),
    ensures
        spelled(spellings(installed)),
{
    assert forall|k: Seq<char>| #[trigger] spellings(installed).contains(k) implies folded(k)
        == k by {
        let i = choose|i: int| 0 <= i < installed.len() && spellings(installed)[i] == k;
        assert(ascii(installed[i]));
        law_lowered(installed[i]);
    }
}

/// The profile that is left in the file is settled: it lists no package both as a system package
/// and as a profile package, and where packages are installed, it lists all of them and no
/// profile package besides.
pub proof fn law_profile_is_settled(
    build: Build,
    snapshot: Seq<char>,
    installed: Seq<Seq<char>>,
    n: Table,
)
    requires
        well_formed(n),
    ensures
        leads(
            rewrite_script(build, snapshot, installed, n),
            holding(new_profile(snapshot)),
            n,
            any_request(),
            |now: Table, u: ()| settled(n, installed)(now),
        ),
{
    let file = new_profile(snapshot);
    let m = holding(file);
    let ok = any_request();
    let system = "system-packages"@;
    let name = "profile-packages"@;
    let end = settled(n, installed);
    let good = |now: Table, u: ()| end(now);
    lemma_sections();
    let swept1 = swept(n, spellings(installed), installed);
    let lock = |t4: Table| done(Req::LockPackages { snapshot, profile: t4 });
    let k3 = |t3: Table| chain(dedup(file, keys_of(t3, system), keys_of(t3, name), t3), lock);
    let k2 = |t2: Table|
        chain(sync_services(snapshot, file, "disable-services"@, false, t2), k3);
    let k1 = |t1: Table|
        chain(sync_services(snapshot, file, "enable-services"@, true, t1), k2);
    assert forall|now: Table, t3: Table| #[trigger] written(swept1)(now, t3) implies leads(
        k3(t3),
        m,
        now,
        ok,
        good,
    ) by {
        let doubles = keys_of(t3, system);
        lemma_dedup(file, doubles, keys_of(t3, name), t3);
        let clean = deduped(t3, doubles, keys_of(t3, name));
        assert forall|now: Table, t4: Table| #[trigger] written(clean)(now, t4) implies leads(
            lock(t4),
            m,
            now,
            ok,
            good,
        ) by {
            assert(separate(t4)) by {
                assert forall|k: Seq<char>| #[trigger]
                    keys_of(t4, system).contains(k) && folded(k) == k implies !keys_of(
                    t4,
                    name,
                ).contains(k) by {
                    assert(keys_of(t3, system).contains(k));
                }
            }
            if fair(n, spellings(installed)) && installed.len() > 0 {
                assert(spelled(doubles)) by {
                    assert forall|k: Seq<char>| #[trigger] doubles.contains(k) implies folded(k)
                        == k by {
                        assert(keys_of(n, system).contains(k));
                    }
                }
                assert forall|k: Seq<char>| #[trigger] keys_of(t4, name).contains(k) implies
                    spellings(installed).contains(k) by {
                    assert(keys_of(t3, name).contains(k));
                }
                assert forall|x: Seq<char>| #[trigger] installed.contains(x) implies keys_of(
                    t4,
                    system,
                ).contains(folded(x)) || keys_of(t4, name).contains(folded(x)) by {
                    let k = folded(x);
                    assert(keys_of(t3, name).contains(k));
                    assert(keys_of(t4, system).contains(k) == keys_of(t3, system).contains(k));
                }
            }
            lemma_leads_done(
                Req::LockPackages { snapshot, profile: t4 },
                m,
                now,
                ok,
                good,
            );
        }
        lemma_leads_chain(
            dedup(file, doubles, keys_of(t3, name), t3),
            lock,
            m,
            now,
            ok,
            written(clean),
            good,
        );
    }
    assert forall|now: Table, t2: Table| #[trigger] written(swept1)(now, t2) implies leads(
        k2(t2),
        m,
        now,
        ok,
        good,
    ) by {
        let p = sync_services(snapshot, file, "disable-services"@, false, t2);
        lemma_sync_services(snapshot, file, "disable-services"@, false, t2);
        lemma_same_swept(n, installed, t2);
        lemma_leads_weaker(p, m, now, ok, written(same_packages(t2)), written(swept1));
        lemma_leads_chain(p, k3, m, now, ok, written(swept1), good);
    }
    assert forall|now: Table, t1: Table| #[trigger] written(swept1)(now, t1) implies leads(
        k1(t1),
        m,
        now,
        ok,
        good,
    ) by {
        let p = sync_services(snapshot, file, "enable-services"@, true, t1);
        lemma_sync_services(snapshot, file, "enable-services"@, true, t1);
        lemma_same_swept(n, installed, t1);
        lemma_leads_weaker(p, m, now, ok, written(same_packages(t1)), written(swept1));
        lemma_leads_chain(p, k2, m, now, ok, written(swept1), good);
    }
    assert forall|x: Seq<char>| #[trigger] installed.contains(x) implies spellings(
        installed,
    ).contains(folded(x)) by {
        let i = choose|i: int| 0 <= i < installed.len() && installed[i] == x;
        assert(spellings(installed)[i] == folded(x));
    }
    lemma_sync_each(build, file, spellings(installed), installed, n);
    lemma_leads_chain(
        sync_each(build, file, spellings(installed), installed, n),
        k1,
        m,
        n,
        ok,
        written(swept1),
        good,
    );
    reveal(rewrite_script);
    assert(rewrite_script(build, snapshot, installed, n) == chain(
        sync_each(build, file, spellings(installed), installed, n),
        k1,
    ));
}

proof fn lemma_same_swept(n: Table, installed: Seq<Seq<char>>, t: Table)
    requires
        swept(n, spellings(installed), installed)(t),
    ensures
        forall|now: Table, t1: Table| #[trigger]
            written(same_packages(t))(now, t1) ==> written(
                swept(n, spellings(installed), installed),
            )(now, t1),
{
    let name = "profile-packages"@;
    let names = spellings(installed);
    assert forall|now: Table, t1: Table| #[trigger]
        written(same_packages(t))(now, t1) implies written(swept(n, names, installed))(
        now,
        t1,
    ) by {
        assert(fewer(t1, n)) by {
            assert forall|k: Seq<char>| #[trigger]
                keys_of(t1, "system-packages"@).contains(k) implies keys_of(
                n,
                "system-packages"@,
            ).contains(k) by {
                assert(keys_of(t, "system-packages"@).contains(k));
            }
        }
        if fair(n, names) {
            assert forall|k: Seq<char>| #[trigger] keys_of(t1, name).contains(k) implies folded(k)
                == k by {
                assert(keys_of(t, name).contains(k));
            }
            assert forall|k: Seq<char>| #[trigger] keys_of(t1, name).contains(k) implies
                names.contains(k) || (installed.len() == 0 && keys_of(n, name).contains(k)) by {
                assert(keys_of(t, name).contains(k));
            }
            assert forall|k: Seq<char>| #[trigger]
                keys_of(n, name).contains(k) && names.contains(k) implies keys_of(
                t1,
                name,
            ).contains(k) by {
                assert(keys_of(t, name).contains(k));
            }
            assert forall|x: Seq<char>| #[trigger] installed.contains(x) implies keys_of(
                t1,
                name,
            ).contains(folded(x)) by {
                assert(keys_of(t, name).contains(folded(x)));
            }
        }
    }
}

/// Surroundings in which a file holds the profile that was last written to it, and in which the
/// packages of `installed` are installed once the changes of the profile were carried out.
pub open spec fn holding_with(file: Seq<char>, installed: Seq<Seq<char>>) -> Model<Table> {
    Model {
        fits: |t: Table, req: Req, a: Answer|
            match (req, a) {
                (Req::ReadProfile { path }, Answer::Profile(p)) => path == file ==> p == t,
                (Req::NoDepPkgList { snapshot, chr }, Answer::Texts(list)) => list == installed,
                _ => true,
            },
        step: holding(file).step,
    }
}

/// A request that writes no profile.
pub open spec fn writes_no_profile() -> spec_fn(Req) -> bool {
    |req: Req| !(req is WriteProfile)
}

/// Checking a profile settles it: where the file holds `n` and `installed` are the packages that
/// are installed, the file holds in the end a profile that lists no package twice, and that
/// lists what is installed.
pub proof fn law_check_profile(
    build: Build,
    snapshot: Seq<char>,
    installed: Seq<Seq<char>>,
    n: Table,
)
    ensures
        leads(
            check_profile_script(build, snapshot),
            holding_with(new_profile(snapshot), installed),
            n,
            any_request(),
            |now: Table, u: ()| settled(n, installed)(now),
        ),
{
    let file = new_profile(snapshot);
    let m = holding_with(file, installed);
    let ok = any_request();
    let good = |now: Table, u: ()| settled(n, installed)(now);
    let calm = writes_no_profile();
    let before = profile(Req::ReadProfile { path: old_profile(snapshot) });
    let after = profile(Req::ReadProfile { path: file });
    let list = texts(Req::NoDepPkgList { snapshot, chr: "chr"@ });
    let kept = |now: Table| now == n;
    let still = |now: Table, o: Table| now == n;
    let read = |now: Table, p: Table| now == n && p == n && well_formed(n);
    let listed = |now: Table, l: Seq<Seq<char>>| now == n && l == installed;
    let idle = |now: Table, u: ()| now == n;
    assert(asks_only(sure(before), calm)) by {
        broadcast use crate::script::group_asks;

    }
    lemma_leads_keeping(sure(before), m, n, ok, kept, calm);
    lemma_leads_weaker(sure(before), m, n, ok, |s: Table, v: Table| kept(s), still);
    lemma_read(file, installed, n);
    lemma_listed(snapshot, file, installed, n);
    let k3 = |l: Seq<Seq<char>>| rewrite_script(build, snapshot, l, n);
    if well_formed(n) {
        law_profile_is_settled(build, snapshot, installed, n);
        lemma_leads_narrower(
            rewrite_script(build, snapshot, installed, n),
            holding(file),
            m,
            n,
            ok,
            good,
        );
        lemma_leads_chain(list, k3, m, n, ok, listed, good);
    }
    let k2 = |u: ()| chain(list, k3);
    let k0 = |o: Table|
        chain(
            sure(after),
            |p: Table|
                chain(
                    apply_script(build, snapshot, o, p),
                    |u: ()|
                        chain(
                            list,
                            |l: Seq<Seq<char>>| rewrite_script(build, snapshot, l, p),
                        ),
                ),
        );
    assert forall|now: Table, o: Table| #[trigger] still(now, o) implies leads(
        k0(o),
        m,
        now,
        ok,
        good,
    ) by {
        let k1 = |p: Table|
            chain(
                apply_script(build, snapshot, o, p),
                |u: ()|
                    chain(list, |l: Seq<Seq<char>>| rewrite_script(build, snapshot, l, p)),
            );
        assert forall|now: Table, p: Table| #[trigger] read(now, p) implies leads(
            k1(p),
            m,
            now,
            ok,
            good,
        ) by {
            let apply = apply_script(build, snapshot, o, n);
            assert(asks_only(apply, calm)) by {
                broadcast use crate::script::group_asks;

                reveal(apply_script);
            }
            lemma_leads_keeping(apply, m, n, ok, kept, calm);
            lemma_leads_weaker(apply, m, n, ok, |s: Table, v: ()| kept(s), idle);
            lemma_leads_chain(apply, k2, m, n, ok, idle, good);
            assert(k1(n) == chain(apply, k2));
        }
        lemma_leads_chain(sure(after), k1, m, n, ok, read, good);
        assert(k0(o) == chain(sure(after), k1));
    }
    lemma_leads_chain(sure(before), k0, m, n, ok, still, good);
    reveal(check_profile_script);
    assert(check_profile_script(build, snapshot) == chain(sure(before), k0));
}

proof fn lemma_read(file: Seq<char>, installed: Seq<Seq<char>>, n: Table)
    ensures
        leads(
            sure(profile(Req::ReadProfile { path: file })),
            holding_with(file, installed),
            n,
            any_request(),
            |now: Table, p: Table| now == n && p == n && well_formed(n),
        ),
{
    let m = holding_with(file, installed);
    let req = Req::ReadProfile { path: file };
    let good = |now: Table, p: Table| now == n && p == n && well_formed(n);
    reveal_with_fuel(leads, 2);
    if let Script::Ask(_, k) = profile(req) {
        assert forall|a: Answer| #[trigger] (m.fits)(n, req, a) implies leads(
            k(a),
            m,
            (m.step)(n, req, a),
            any_request(),
            good,
        ) by {
            assert(k(a) == Script::<Table>::End(as_profile(a)));
        }
    }
    lemma_leads_sure(profile(req), m, n, any_request(), good);
}

proof fn lemma_listed(
    snapshot: Seq<char>,
    file: Seq<char>,
    installed: Seq<Seq<char>>,
    n: Table,
)
    ensures
        leads(
            texts(Req::NoDepPkgList { snapshot, chr: "chr"@ }),
            holding_with(file, installed),
            n,
            any_request(),
            |now: Table, l: Seq<Seq<char>>| now == n && l == installed,
        ),
{
    let m = holding_with(file, installed);
    let req = Req::NoDepPkgList { snapshot, chr: "chr"@ };
    let good = |now: Table, l: Seq<Seq<char>>| now == n && l == installed;
    reveal_with_fuel(leads, 2);
    if let Script::Ask(_, k) = texts(req) {
        assert forall|a: Answer| #[trigger] (m.fits)(n, req, a) implies leads(
            k(a),
            m,
            (m.step)(n, req, a),
            any_request(),
            good,
        ) by {
            assert(k(a) == Script::<Seq<Seq<char>>>::End(as_texts(a)));
        }
    }
}

}
