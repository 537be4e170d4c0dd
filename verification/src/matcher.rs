//! Matching archetypes to the power categories that they name.

use vstd::prelude::*;
use crate::config::PowersConfig;
use crate::grants::opt_ref_text;
use crate::keyed::{lemma_position_unique, Keyed};
use crate::namekey::{opt_text, same_key, texts, NameKey};
use crate::resolve::has_archetype;
use crate::structs::{Archetype, ArchetypeRef, PowerCategory, PrimarySecondary};

verus! {

/// What matching writes to a category.
pub struct CatLinks {
    /// The archetypes associated with the category.
    pub archetypes: Seq<ArchetypeRef>,
    pub pri_sec: PrimarySecondary,
}

/// What matching has written to each category of a table.
pub open spec fn links_of(cats: Seq<PowerCategory>) -> Seq<CatLinks> {
    Seq::new(
        cats.len(),
        |c: int| CatLinks { archetypes: cats[c].archetypes@, pri_sec: cats[c].pri_sec },
    )
}

/// A category is as it was, but for what matching writes.
pub open spec fn match_frame(o: PowerCategory, n: PowerCategory) -> bool {
    n == (PowerCategory { archetypes: n.archetypes, pri_sec: n.pri_sec, ..o })
}

/// The categories are as they were, but for what matching writes.
pub open spec fn match_frames(o: Keyed<PowerCategory>, n: Keyed<PowerCategory>) -> bool {
    &&& n.key_seq() == o.key_seq()
    &&& n.value_seq().len() == o.value_seq().len()
    &&& forall|c: int|
        0 <= c < o.value_seq().len() ==> match_frame(o.value_seq()[c], #[trigger] n.value_seq()[c])
}

/// The links after an archetype was attached to the category that `name`
/// names: the category gets the archetype at the end of its list, unless
/// the list holds it already, and the role, where the slot has one. Without
/// a name, or without a category of that name, nothing changes.
pub open spec fn attach(
    keys: Seq<Seq<char>>,
    links: Seq<CatLinks>,
    name: Option<Seq<char>>,
    at: ArchetypeRef,
    role: Option<PrimarySecondary>,
) -> Seq<CatLinks> {
    Seq::new(
        links.len(),
        |c: int|
            if name is Some && same_key(keys[c], name->0) {
                CatLinks {
                    archetypes: if links[c].archetypes.contains(at) {
                        links[c].archetypes
                    } else {
                        links[c].archetypes.push(at)
                    },
                    pri_sec: match role {
                        Some(r) => r,
                        None => links[c].pri_sec,
                    },
                }
            } else {
                links[c]
            },
    )
}

/// The links after an archetype was attached to each of the named
/// categories in turn, without a role.
pub open spec fn attach_each(
    keys: Seq<Seq<char>>,
    links: Seq<CatLinks>,
    names: Seq<Seq<char>>,
    at: ArchetypeRef,
) -> Seq<CatLinks>
    decreases names.len(),
{
    if names.len() == 0 {
        links
    } else {
        attach(keys, attach_each(keys, links, names.drop_last(), at), Some(names.last()), at, None)
    }
}

/// The links after one archetype was matched: to its primary category, then
/// its secondary category, its epic pool category and its power pool
/// category, and then to each of the global categories.
pub open spec fn match_one(
    keys: Seq<Seq<char>>,
    links: Seq<CatLinks>,
    def: Archetype,
    at: ArchetypeRef,
    globals: Seq<Seq<char>>,
) -> Seq<CatLinks> {
    let primary = attach(
        keys,
        links,
        opt_text(def.pch_primary_category),
        at,
        Some(PrimarySecondary::Primary),
    );
    let secondary = attach(
        keys,
        primary,
        opt_text(def.pch_secondary_category),
        at,
        Some(PrimarySecondary::Secondary),
    );
    let epic = attach(keys, secondary, opt_text(def.pch_epic_pool_category), at, None);
    let pool = attach(keys, epic, opt_text(def.pch_power_pool_category), at, None);
    attach_each(keys, pool, globals, at)
}

/// The links after the first `k` archetypes of the table were matched, in
/// the order of the table.
pub open spec fn match_all(
    keys: Seq<Seq<char>>,
    links: Seq<CatLinks>,
    defs: Seq<Archetype>,
    globals: Seq<Seq<char>>,
    k: nat,
) -> Seq<CatLinks>
    decreases k,
{
    if k == 0 {
        links
    } else {
        match_one(
            keys,
            match_all(keys, links, defs, globals, (k - 1) as nat),
            defs[k - 1],
            ArchetypeRef { villain: false, index: (k - 1) as usize },
            globals,
        )
    }
}

/// The position of the category that an archetype names, if it names one
/// and the table has it.
pub fn find_power_category(power_categories: &Keyed<PowerCategory>, name: Option<&NameKey>) -> (r:
    Option<usize>)
    requires
        power_categories.wf(),
    ensures
        r is Some <==> name is Some && power_categories.has(name->0@),
        r is Some ==> r->0 == power_categories.position(name->0@) && r->0
            < power_categories.value_seq().len(),
{
    match name {
        Some(name) => power_categories.find(name),
        None => None,
    }
}

/// Attaches an archetype to the category that `name` names: see [`attach`].
fn attach_archetype(
    power_categories: &mut Keyed<PowerCategory>,
    name: Option<&NameKey>,
    at: ArchetypeRef,
    role: Option<PrimarySecondary>,
)
    requires
        old(power_categories).wf(),
    ensures
        final(power_categories).wf(),
        match_frames(*old(power_categories), *final(power_categories)),
        links_of(final(power_categories).value_seq()) == attach(
            old(power_categories).key_seq(),
            links_of(old(power_categories).value_seq()),
            opt_ref_text(name),
            at,
            role,
        ),
{
    match find_power_category(power_categories, name) {
        Some(c) => {
            let pcat = power_categories.value_mut(c);
            if !has_archetype(&pcat.archetypes, at) {
                pcat.archetypes.push(at);
            }
            match role {
                Some(r) => {
                    pcat.pri_sec = r;
                },
                None => {},
            }
            proof {
                let keys = old(power_categories).key_seq();
                assert forall|i: int| 0 <= i < keys.len() && i != c implies !same_key(
                    keys[i],
                    name->0@,
                ) by {
                    if same_key(keys[i], name->0@) {
                        lemma_position_unique(keys, name->0@, i);
                    }
                }
            }
        },
        None => {},
    }
    assert(links_of(power_categories.value_seq()) =~= attach(
        old(power_categories).key_seq(),
        links_of(old(power_categories).value_seq()),
        opt_ref_text(name),
        at,
        role,
    ));
}

/// Assigns the archetypes to the power categories that they name as their
/// primary, secondary, epic pool and power pool category, and every
/// archetype to each of the configured global categories. A category that is
/// named but not in the table is passed over, and a category that an
/// archetype names more than once holds the archetype once. The archetypes
/// are those of the players' table, and are referred to by their position
/// in it.
pub fn match_archetypes_to_power_categories(
    archetypes: &Keyed<Archetype>,
    config: &PowersConfig,
    power_categories: &mut Keyed<PowerCategory>,
)
    requires
        archetypes.wf(),
        old(power_categories).wf(),
    ensures
        final(power_categories).wf(),
        match_frames(*old(power_categories), *final(power_categories)),
        links_of(final(power_categories).value_seq()) == match_all(
            old(power_categories).key_seq(),
            links_of(old(power_categories).value_seq()),
            archetypes.value_seq(),
            texts(config.global_categories@),
            archetypes.value_seq().len(),
        ),
        // no category holds an archetype twice, unless it did before
        forall|c: int|
            0 <= c < old(power_categories).value_seq().len() && old(power_categories).value_seq()[c].archetypes@.no_duplicates() ==> (#[trigger] final(power_categories).value_seq()[c]).archetypes@.no_duplicates(),
{
    let ghost keys = old(power_categories).key_seq();
    let ghost links0 = links_of(old(power_categories).value_seq());
    let ghost globals = texts(config.global_categories@);
    let n = archetypes.len();
    let mut a: usize = 0;
    while a < n
        invariant
            a <= n,
            n == archetypes.value_seq().len(),
            archetypes.wf(),
            power_categories.wf(),
            keys == old(power_categories).key_seq(),
            globals == texts(config.global_categories@),
            match_frames(*old(power_categories), *power_categories),
            links_of(power_categories.value_seq()) == match_all(
                keys,
                links0,
                archetypes.value_seq(),
                globals,
                a as nat,
            ),
        decreases n - a,
    {
        let def = archetypes.value(a);
        let at = ArchetypeRef { villain: false, index: a };
        let ghost before = *power_categories;
        attach_archetype(
            power_categories,
            def.pch_primary_category.as_ref(),
            at,
            Some(PrimarySecondary::Primary),
        );
        attach_archetype(
            power_categories,
            def.pch_secondary_category.as_ref(),
            at,
            Some(PrimarySecondary::Secondary),
        );
        attach_archetype(power_categories, def.pch_epic_pool_category.as_ref(), at, None);
        attach_archetype(power_categories, def.pch_power_pool_category.as_ref(), at, None);
        let ghost pool = links_of(power_categories.value_seq());
        let mut g: usize = 0;
        assert(globals.take(0) =~= Seq::empty());
        while g < config.global_categories.len()
            invariant
                g <= config.global_categories.len(),
                power_categories.wf(),
                keys == old(power_categories).key_seq(),
                globals == texts(config.global_categories@),
                match_frames(*old(power_categories), *power_categories),
                links_of(power_categories.value_seq()) == attach_each(
                    keys,
                    pool,
                    globals.take(g as int),
                    at,
                ),
            decreases config.global_categories.len() - g,
        {
            assert(globals.take(g + 1).drop_last() =~= globals.take(g as int));
            attach_archetype(power_categories, Some(&config.global_categories[g]), at, None);
            g += 1;
        }
        assert(globals.take(config.global_categories.len() as int) =~= globals);
        a += 1;
    }
    proof {
        archetypes.lemma_len_fits();
        assert forall|c: int|
            0 <= c < old(power_categories).value_seq().len() && old(power_categories).value_seq()[c].archetypes@.no_duplicates() implies (#[trigger] power_categories.value_seq()[c]).archetypes@.no_duplicates() by {
            lemma_match_all_sound(
                keys,
                links0,
                archetypes.value_seq(),
                globals,
                c,
                archetypes.value_seq().len(),
                usize::MAX as nat,
            );
            assert(links_of(power_categories.value_seq())[c].archetypes
                == power_categories.value_seq()[c].archetypes@);
            assert(links0[c].archetypes == old(power_categories).value_seq()[c].archetypes@);
        }
    }
}

/// The reference is to an archetype of a table of players' classes of the
/// first size, or of a table of villains' classes of the second.
pub open spec fn ref_in_range(r: ArchetypeRef, players: nat, villains: nat) -> bool {
    if r.villain {
        r.index < villains
    } else {
        r.index < players
    }
}

/// Every reference of the list is to an archetype of the tables.
pub open spec fn refs_in_range(list: Seq<ArchetypeRef>, players: nat, villains: nat) -> bool {
    forall|k: int| 0 <= k < list.len() ==> ref_in_range(#[trigger] list[k], players, villains)
}

/// Attaching an archetype keeps the archetypes of a category distinct, and
/// in range where the archetype is.
pub proof fn lemma_attach_sound(
    keys: Seq<Seq<char>>,
    links: Seq<CatLinks>,
    name: Option<Seq<char>>,
    at: ArchetypeRef,
    role: Option<PrimarySecondary>,
    c: int,
    players: nat,
    villains: nat,
)
    requires
        0 <= c < links.len(),
    ensures
        attach(keys, links, name, at, role).len() == links.len(),
        links[c].archetypes.no_duplicates() ==> attach(
            keys,
            links,
            name,
            at,
            role,
        )[c].archetypes.no_duplicates(),
        ref_in_range(at, players, villains) && refs_in_range(links[c].archetypes, players, villains)
            ==> refs_in_range(attach(keys, links, name, at, role)[c].archetypes, players, villains),
{
    let was = links[c].archetypes;
    let is = attach(keys, links, name, at, role)[c].archetypes;
    if is != was {
        assert(is == was.push(at));
        assert(!was.contains(at));
        if was.no_duplicates() {
            assert forall|i: int, j: int| 0 <= i < is.len() && 0 <= j < is.len() && i != j implies is[i]
                != is[j] by {
                if i < was.len() {
                    assert(was.contains(was[i]));
                }
                if j < was.len() {
                    assert(was.contains(was[j]));
                }
            }
        }
    }
}

/// Attaching an archetype to a list of categories keeps the archetypes of a
/// category distinct, and in range where the archetype is.
pub proof fn lemma_attach_each_sound(
    keys: Seq<Seq<char>>,
    links: Seq<CatLinks>,
    names: Seq<Seq<char>>,
    at: ArchetypeRef,
    c: int,
    players: nat,
    villains: nat,
)
    requires
        0 <= c < links.len(),
    ensures
        attach_each(keys, links, names, at).len() == links.len(),
        links[c].archetypes.no_duplicates() ==> attach_each(
            keys,
            links,
            names,
            at,
        )[c].archetypes.no_duplicates(),
        ref_in_range(at, players, villains) && refs_in_range(links[c].archetypes, players, villains)
            ==> refs_in_range(attach_each(keys, links, names, at)[c].archetypes, players, villains),
    decreases names.len(),
{
    if names.len() > 0 {
        lemma_attach_each_sound(keys, links, names.drop_last(), at, c, players, villains);
        lemma_attach_sound(
            keys,
            attach_each(keys, links, names.drop_last(), at),
            Some(names.last()),
            at,
            None,
            c,
            players,
            villains,
        );
    }
}

/// Matching the first `k` archetypes keeps the archetypes of a category
/// distinct, and in range of a table of players' classes that has them all.
pub proof fn lemma_match_all_sound(
    keys: Seq<Seq<char>>,
    links: Seq<CatLinks>,
    defs: Seq<Archetype>,
    globals: Seq<Seq<char>>,
    c: int,
    k: nat,
    villains: nat,
)
    requires
        0 <= c < links.len(),
        k <= defs.len() <= usize::MAX,
    ensures
        match_all(keys, links, defs, globals, k).len() == links.len(),
        links[c].archetypes.no_duplicates() ==> match_all(
            keys,
            links,
            defs,
            globals,
            k,
        )[c].archetypes.no_duplicates(),
        refs_in_range(links[c].archetypes, defs.len(), villains) ==> refs_in_range(
            match_all(keys, links, defs, globals, k)[c].archetypes,
            defs.len(),
            villains,
        ),
    decreases k,
{
    if k > 0 {
        lemma_match_all_sound(keys, links, defs, globals, c, (k - 1) as nat, villains);
        let before = match_all(keys, links, defs, globals, (k - 1) as nat);
        let def = defs[k - 1];
        let at = ArchetypeRef { villain: false, index: (k - 1) as usize };
        let players = defs.len();
        assert(ref_in_range(at, players, villains));
        let primary = attach(
            keys,
            before,
            opt_text(def.pch_primary_category),
            at,
            Some(PrimarySecondary::Primary),
        );
        lemma_attach_sound(
            keys,
            before,
            opt_text(def.pch_primary_category),
            at,
            Some(PrimarySecondary::Primary),
            c,
            players,
            villains,
        );
        let secondary = attach(
            keys,
            primary,
            opt_text(def.pch_secondary_category),
            at,
            Some(PrimarySecondary::Secondary),
        );
        lemma_attach_sound(
            keys,
            primary,
            opt_text(def.pch_secondary_category),
            at,
            Some(PrimarySecondary::Secondary),
            c,
            players,
            villains,
        );
        let epic = attach(keys, secondary, opt_text(def.pch_epic_pool_category), at, None);
        lemma_attach_sound(
            keys,
            secondary,
            opt_text(def.pch_epic_pool_category),
            at,
            None,
            c,
            players,
            villains,
        );
        let pool = attach(keys, epic, opt_text(def.pch_power_pool_category), at, None);
        lemma_attach_sound(
            keys,
            epic,
            opt_text(def.pch_power_pool_category),
            at,
            None,
            c,
            players,
            villains,
        );
        lemma_attach_each_sound(keys, pool, globals, at, c, players, villains);
    }
}

} // verus!
