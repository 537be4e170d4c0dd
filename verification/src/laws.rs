//! What holds of the merged tables whatever the input.

use vstd::prelude::*;
use crate::assemble::{found_positions, listed};
use crate::cascade::{any_live_in_first, cat_live, listed_in_first, lists, live_in_first, set_live};
use crate::config::PowersConfig;
use crate::keyed::{has_key, key_position};
use crate::load::{merged_through, PowerTables, PowersDictionary, Stages};
use crate::marks::{mark, merge_archetypes, Marks, Names};
use crate::matcher::{attach, attach_each, lemma_match_all_sound, match_all, CatLinks};
use crate::namekey::{opt_text, same_key, texts};
use crate::structs::{Archetype, ArchetypeRef, PrimarySecondary};

verus! {

/// Marking a power that the table of powers does not have changes no power:
/// a redirect to a power that does not exist leaves the inclusion of every
/// power, that of the redirecting power too, as it was.
pub proof fn law_missing_target_changes_no_power(
    names: Names,
    m: Marks,
    target: Seq<char>,
    inherit: Seq<ArchetypeRef>,
)
    requires
        m.powers.len() == names.powers.len(),
        !has_key(names.powers, target),
    ensures
        mark(names, m, target, inherit).powers == m.powers,
{
    assert forall|p: int| 0 <= p < m.powers.len() implies !same_key(names.powers[p], target) by {
        if same_key(names.powers[p], target) {
            assert(has_key(names.powers, target));
        }
    }
    assert(mark(names, m, target, inherit).powers =~= m.powers);
}

/// A category that is not at the top level before the configuration is
/// applied, and that a configuration which names categories does not name,
/// is not at the top level in the dictionary.
pub proof fn law_unlisted_category_is_not_top_level(
    config: PowersConfig,
    tables: PowerTables,
    st: Stages,
    dict: PowersDictionary,
    c: int,
)
    requires
        merged_through(config, tables, st, dict),
        0 <= c < tables.power_categories.value_seq().len(),
        config.power_categories@.len() > 0,
        !tables.power_categories.value_seq()[c].top_level,
        !listed(
            texts(config.power_categories@),
            opt_text(tables.power_categories.value_seq()[c].pch_name),
        ),
    ensures
        !dict.power_categories.value_seq()[c].top_level,
{
    let marked = st.marked.value_seq()[c];
    let matched = st.matched.value_seq()[c];
    let linked = st.linked_cats.value_seq()[c];
    let cascaded = st.cascaded.0.value_seq()[c];
    let resolved = st.resolved.0.value_seq()[c];
    assert(!marked.top_level);
    assert(!matched.top_level);
    assert(!linked.top_level);
    assert(!cascaded.top_level);
    assert(crate::marks::cat_frame(cascaded, resolved));
}

/// The position of a name that a table has is among the positions found
/// for a list that holds the name.
pub proof fn lemma_found_positions_has(keys: Seq<Seq<char>>, names: Seq<Seq<char>>, j: int)
    requires
        0 <= j < names.len(),
        has_key(keys, names[j]),
        keys.len() <= usize::MAX,
    ensures
        lists(found_positions(keys, names), key_position(keys, names[j])),
        key_position(keys, names[j]) < keys.len(),
    decreases names.len(),
{
    let found = found_positions(keys, names);
    if j == names.len() - 1 {
        let before = found_positions(keys, names.drop_last());
        assert(found == before.push(key_position(keys, names.last()) as usize));
        assert(found[found.len() - 1] == key_position(keys, names[j]));
        assert(listed_in_first(found, key_position(keys, names[j]), found.len() as int));
    } else {
        lemma_found_positions_has(keys, names.drop_last(), j);
        let before = found_positions(keys, names.drop_last());
        let k = choose|k: int|
            0 <= k < before.len() && k < before.len() && #[trigger] before[k] == key_position(
                keys,
                names[j],
            );
        assert(found[k] == before[k]);
        assert(listed_in_first(found, key_position(keys, names[j]), found.len() as int));
    }
}

/// Where the configuration names no category to keep, every category that
/// names a power set of the table (of those that are not left out) which
/// names a power of the table is at the top level in the dictionary, and
/// included.
pub proof fn law_category_with_a_power_is_top_level(
    config: PowersConfig,
    tables: PowerTables,
    st: Stages,
    dict: PowersDictionary,
    c: int,
    j: int,
    k: int,
)
    requires
        tables.wf(),
        merged_through(config, tables, st, dict),
        config.power_categories@.len() == 0,
        0 <= c < tables.power_categories.value_seq().len(),
        0 <= j < tables.power_categories.value_seq()[c].ppch_power_set_names@.len(),
        st.filtered.has(tables.power_categories.value_seq()[c].ppch_power_set_names@[j]@),
        0 <= k < st.filtered.value_seq()[st.filtered.position(
            tables.power_categories.value_seq()[c].ppch_power_set_names@[j]@,
        )].pp_power_names@.len(),
        tables.powers.has(
            st.filtered.value_seq()[st.filtered.position(
                tables.power_categories.value_seq()[c].ppch_power_set_names@[j]@,
            )].pp_power_names@[k]@,
        ),
    ensures
        dict.power_categories.value_seq()[c].top_level,
        dict.power_categories.value_seq()[c].include_in_output,
{
    crate::assemble::lemma_kept_lengths(
        tables.power_sets.key_seq(),
        tables.power_sets.value_seq(),
        texts(config.filter_powersets@),
    );
    let cat0 = tables.power_categories.value_seq()[c];
    let set_name = cat0.ppch_power_set_names@[j]@;
    let s = st.filtered.position(set_name);
    let set0 = st.filtered.value_seq()[s];
    let power_name = set0.pp_power_names@[k]@;
    let p = tables.powers.position(power_name);
    let marked = st.marked.value_seq()[c];
    let matched = st.matched.value_seq()[c];
    let linked = st.linked_cats.value_seq()[c];
    assert(marked.top_level);
    assert(matched.top_level);
    assert(linked.top_level);
    assert(matched.ppch_power_set_names == cat0.ppch_power_set_names) by {
        assert(marked.ppch_power_set_names == cat0.ppch_power_set_names);
    }
    // the category is linked to the power set
    let set_keys = st.linked_sets.key_seq();
    assert(set_keys == st.filtered.key_seq());
    let set_names = texts(matched.ppch_power_set_names@);
    assert(set_names[j] == set_name);
    st.linked_sets.lemma_len_fits();
    lemma_found_positions_has(set_keys, set_names, j);
    let found_sets = found_positions(set_keys, set_names);
    let a0 = choose|a: int|
        0 <= a < found_sets.len() && a < found_sets.len() && #[trigger] found_sets[a] == s;
    let set_list = linked.pp_power_sets@;
    let a = matched.pp_power_sets@.len() + a0;
    assert(set_list[a] == s);
    // the power set is linked to the power
    let power_keys = st.enhanced.key_seq();
    assert(power_keys == tables.powers.key_seq());
    let linked_set = st.linked_sets.value_seq()[s];
    let power_names = texts(set0.pp_power_names@);
    assert(power_names[k] == power_name);
    st.enhanced.lemma_len_fits();
    lemma_found_positions_has(power_keys, power_names, k);
    let found_powers = found_positions(power_keys, power_names);
    let b0 = choose|b: int|
        0 <= b < found_powers.len() && b < found_powers.len() && #[trigger] found_powers[b] == p;
    let members = linked_set.pp_powers@;
    let b = set0.pp_powers@.len() + b0;
    assert(members[b] == p);
    let np = st.enhanced.value_seq().len() as int;
    assert(np == tables.powers.value_seq().len());
    assert(live_in_first(members, np, members.len() as int));
    assert(set_live(linked_set, np));
    assert(any_live_in_first(set_list, st.linked_sets.value_seq(), np, set_list.len() as int));
    assert(cat_live(linked, st.linked_sets.value_seq(), np));
    let cascaded = st.cascaded.0.value_seq()[c];
    let resolved = st.resolved.0.value_seq()[c];
    assert(cascaded.top_level && cascaded.include_in_output);
    assert(crate::marks::cat_frame(cascaded, resolved));
    let m0 = crate::marks::table_marks(st.cascaded.0, st.cascaded.1, st.cascaded.2);
    let w = crate::grants::world_of(
        tables.villains,
        tables.villain_archetypes,
        st.cascaded.0,
        st.cascaded.1,
        st.cascaded.2,
    );
    assert(m0.cats[c]);
    crate::grants::lemma_tables_shaped(
        tables.villains,
        tables.villain_archetypes,
        st.cascaded.0,
        st.cascaded.1,
        st.cascaded.2,
    );
    crate::monotone::law_marks_only_grow(w, m0);
    let m1 = crate::marks::table_marks(st.resolved.0, st.resolved.1, st.resolved.2);
    assert(m1.cats[c]);
}

/// After the archetypes are matched, a category that some archetype names
/// as its primary category and none as its secondary category is marked as
/// primary. (Whether a category is primary or secondary says something only
/// where exactly one archetype is matched to it: that is for the reader of
/// the mark to test.)
pub proof fn law_primary_match_marks_primary(
    keys: Seq<Seq<char>>,
    links: Seq<CatLinks>,
    defs: Seq<Archetype>,
    globals: Seq<Seq<char>>,
    c: int,
    a: int,
)
    requires
        links.len() == keys.len(),
        0 <= c < keys.len(),
        0 <= a < defs.len(),
        defs[a].pch_primary_category is Some,
        same_key(keys[c], defs[a].pch_primary_category->0@),
        forall|b: int|
            0 <= b < defs.len() ==> !((#[trigger] defs[b]).pch_secondary_category is Some
                && same_key(keys[c], defs[b].pch_secondary_category->0@)),
    ensures
        match_all(keys, links, defs, globals, defs.len())[c].pri_sec == PrimarySecondary::Primary,
{
    lemma_match_all_role(keys, links, defs, globals, c, a, defs.len());
}

/// Attaching without a role keeps the length and the roles.
proof fn lemma_attach_each_keeps_role(
    keys: Seq<Seq<char>>,
    links: Seq<CatLinks>,
    names: Seq<Seq<char>>,
    at: ArchetypeRef,
)
    ensures
        attach_each(keys, links, names, at).len() == links.len(),
        forall|c: int|
            0 <= c < links.len() ==> (#[trigger] attach_each(keys, links, names, at)[c]).pri_sec
                == links[c].pri_sec,
    decreases names.len(),
{
    if names.len() > 0 {
        lemma_attach_each_keeps_role(keys, links, names.drop_last(), at);
    }
}

/// The role of a category after the first `k` archetypes were matched, of
/// which none names it as secondary: primary once one, the archetype `a`,
/// has named it as primary.
proof fn lemma_match_all_role(
    keys: Seq<Seq<char>>,
    links: Seq<CatLinks>,
    defs: Seq<Archetype>,
    globals: Seq<Seq<char>>,
    c: int,
    a: int,
    k: nat,
)
    requires
        links.len() == keys.len(),
        0 <= c < keys.len(),
        0 <= a < defs.len(),
        k <= defs.len(),
        defs[a].pch_primary_category is Some,
        same_key(keys[c], defs[a].pch_primary_category->0@),
        forall|b: int|
            0 <= b < defs.len() ==> !((#[trigger] defs[b]).pch_secondary_category is Some
                && same_key(keys[c], defs[b].pch_secondary_category->0@)),
    ensures
        match_all(keys, links, defs, globals, k).len() == links.len(),
        a < k ==> match_all(keys, links, defs, globals, k)[c].pri_sec == PrimarySecondary::Primary,
        a >= k ==> match_all(keys, links, defs, globals, k)[c].pri_sec == links[c].pri_sec
            || match_all(keys, links, defs, globals, k)[c].pri_sec == PrimarySecondary::Primary,
    decreases k,
{
    if k > 0 {
        lemma_match_all_role(keys, links, defs, globals, c, a, (k - 1) as nat);
        let before = match_all(keys, links, defs, globals, (k - 1) as nat);
        let def = defs[k - 1];
        let at = ArchetypeRef { villain: false, index: (k - 1) as usize };
        let primary = attach(
            keys,
            before,
            opt_text(def.pch_primary_category),
            at,
            Some(PrimarySecondary::Primary),
        );
        let secondary = attach(
            keys,
            primary,
            opt_text(def.pch_secondary_category),
            at,
            Some(PrimarySecondary::Secondary),
        );
        let epic = attach(keys, secondary, opt_text(def.pch_epic_pool_category), at, None);
        let pool = attach(keys, epic, opt_text(def.pch_power_pool_category), at, None);
        lemma_attach_each_keeps_role(keys, pool, globals, at);
        assert(secondary[c].pri_sec == primary[c].pri_sec);
        assert(pool[c].pri_sec == secondary[c].pri_sec);
    }
}

/// A power never has an archetype twice by being marked: where its own
/// archetypes are distinct, they are distinct after any archetypes were
/// merged into them, and the archetypes that it had are still there, in
/// their places.
pub proof fn law_merge_keeps_archetypes_distinct(own: Seq<ArchetypeRef>, inherit: Seq<ArchetypeRef>)
    requires
        own.no_duplicates(),
    ensures
        merge_archetypes(own, inherit).no_duplicates(),
        merge_archetypes(own, inherit).len() >= own.len(),
        merge_archetypes(own, inherit).take(own.len() as int) == own,
        forall|a: ArchetypeRef|
            merge_archetypes(own, inherit).contains(a) <==> own.contains(a) || inherit.contains(a),
    decreases inherit.len(),
{
    let merged = merge_archetypes(own, inherit);
    if inherit.len() == 0 {
        assert(merged.take(own.len() as int) =~= own);
    } else {
        let fewer = inherit.drop_last();
        let before = merge_archetypes(own, fewer);
        law_merge_keeps_archetypes_distinct(own, fewer);
        assert(merged.take(own.len() as int) =~= before.take(own.len() as int));
        assert forall|a: ArchetypeRef|
            merged.contains(a) <==> own.contains(a) || inherit.contains(a) by {
            if inherit.contains(a) {
                let k = choose|k: int| 0 <= k < inherit.len() && inherit[k] == a;
                if k < fewer.len() {
                    assert(fewer[k] == a);
                    assert(fewer.contains(a));
                }
            }
            if fewer.contains(a) {
                let k = choose|k: int| 0 <= k < fewer.len() && fewer[k] == a;
                assert(inherit[k] == a);
            }
            if before.contains(a) {
                let k = choose|k: int| 0 <= k < before.len() && before[k] == a;
                assert(merged[k] == a);
            }
            if merged.contains(a) && !before.contains(a) {
                let k = choose|k: int| 0 <= k < merged.len() && merged[k] == a;
                if k < before.len() {
                    assert(before[k] == a);
                }
                assert(a == inherit.last());
                assert(inherit[inherit.len() - 1] == a);
            }
            if a == inherit.last() {
                assert(inherit[inherit.len() - 1] == a);
                if !before.contains(a) {
                    assert(merged[merged.len() - 1] == a);
                }
            }
        }
    }
}

/// No archetype is associated twice with a category by matching: where the
/// archetypes of a category were distinct before (so, where it had none),
/// they are distinct afterwards, however often an archetype names the
/// category.
pub proof fn law_matched_archetypes_are_distinct(
    keys: Seq<Seq<char>>,
    links: Seq<CatLinks>,
    defs: Seq<Archetype>,
    globals: Seq<Seq<char>>,
    c: int,
)
    requires
        0 <= c < links.len(),
        defs.len() <= usize::MAX,
        links[c].archetypes.no_duplicates(),
    ensures
        match_all(keys, links, defs, globals, defs.len())[c].archetypes.no_duplicates(),
{
    lemma_match_all_sound(keys, links, defs, globals, c, defs.len(), 0);
}

} // verus!
