//! What holds of the links of a merged dictionary: every reference is to a
//! record of the dictionary.

use vstd::prelude::*;
use crate::assemble::{
    found_positions, kept_values, lemma_found_positions_valid, lemma_kept_lengths,
};
use crate::assemble::listed;
use crate::cascade::{
    cat_holds_power, held_in_first, listed_in_first, live_in_first, power_owner, set_touched,
};
use crate::monotone::law_marks_only_grow;
use crate::config::PowersConfig;
use crate::grants::{lemma_tables_shaped, world_of};
use crate::load::{fixed_point, merged_through, PowerTables, PowersDictionary, Stages};
use crate::marks::{cat_frame, power_marks, set_frame, table_marks};
use crate::matcher::{lemma_match_all_sound, links_of, refs_in_range};
use crate::namekey::{opt_text, texts};
use crate::ranges::{law_resolution_keeps_references_in_range, marks_in_range};
use crate::structs::{BasePowerSet, PowerCategory};

verus! {

/// The category that gives a power its archetypes is one of the first `c`,
/// is at the top level and holds the power; and there is one where such a
/// category is among the first `c`.
pub proof fn lemma_power_owner(
    cats: Seq<PowerCategory>,
    sets: Seq<BasePowerSet>,
    p: int,
    c: nat,
    j: int,
)
    ensures
        power_owner(cats, sets, p, c) is Some ==> {
            let o = power_owner(cats, sets, p, c)->0;
            0 <= o < c && cats[o].top_level && cat_holds_power(cats[o], sets, p)
        },
        0 <= j < c && cats[j].top_level && cat_holds_power(cats[j], sets, p) ==> power_owner(
            cats,
            sets,
            p,
            c,
        ) is Some,
    decreases c,
{
    if c > 0 {
        lemma_power_owner(cats, sets, p, (c - 1) as nat, j);
    }
}

/// Every record that is kept is one of the records that were there.
pub proof fn lemma_kept_values_from<T>(
    keys: Seq<Seq<char>>,
    values: Seq<T>,
    filters: Seq<Seq<char>>,
    s: int,
)
    requires
        keys.len() == values.len(),
        0 <= s < kept_values(keys, values, filters).len(),
    ensures
        exists|j: int| 0 <= j < values.len() && #[trigger] values[j] == kept_values(keys, values, filters)[s],
    decreases keys.len(),
{
    if keys.len() > 0 {
        let before = kept_values(keys.drop_last(), values.drop_last(), filters);
        if s < before.len() {
            lemma_kept_values_from(keys.drop_last(), values.drop_last(), filters, s);
            let j = choose|j: int|
                0 <= j < values.drop_last().len() && #[trigger] values.drop_last()[j] == before[s];
            assert(values[j] == kept_values(keys, values, filters)[s]);
        } else {
            assert(values[values.len() - 1] == kept_values(keys, values, filters)[s]);
        }
    }
}

/// The archetypes of the categories of a merged dictionary are in range.
proof fn lemma_merged_category_archetypes(
    config: PowersConfig,
    tables: PowerTables,
    st: Stages,
    dict: PowersDictionary,
    c: int,
)
    requires
        tables.wf(),
        merged_through(config, tables, st, dict),
        tables.references_in_range(),
        0 <= c < tables.power_categories.value_seq().len(),
    ensures
        dict.power_categories.value_seq()[c].archetypes == st.matched.value_seq()[c].archetypes,
        st.linked_cats.value_seq()[c].archetypes == st.matched.value_seq()[c].archetypes,
        refs_in_range(
            st.matched.value_seq()[c].archetypes@,
            tables.archetypes.value_seq().len(),
            tables.villain_archetypes.value_seq().len(),
        ),
{
    let players = tables.archetypes.value_seq().len();
    let villains = tables.villain_archetypes.value_seq().len();
    tables.archetypes.lemma_len_fits();
    let marked = st.marked.value_seq()[c];
    assert(marked.archetypes == tables.power_categories.value_seq()[c].archetypes);
    let links0 = links_of(st.marked.value_seq());
    assert(links0[c].archetypes == marked.archetypes@);
    lemma_match_all_sound(
        st.marked.key_seq(),
        links0,
        tables.archetypes.value_seq(),
        texts(config.global_categories@),
        c,
        players,
        villains,
    );
    assert(links_of(st.matched.value_seq())[c].archetypes == st.matched.value_seq()[c].archetypes@);
    let linked = st.linked_cats.value_seq()[c];
    let cascaded = st.cascaded.0.value_seq()[c];
    let resolved = st.resolved.0.value_seq()[c];
    assert(linked.archetypes == st.matched.value_seq()[c].archetypes);
    assert(cascaded.archetypes == linked.archetypes);
    assert(cat_frame(cascaded, resolved));
}

/// The power sets of the categories and the powers of the power sets of a
/// merged dictionary are in range.
proof fn lemma_merged_links(
    config: PowersConfig,
    tables: PowerTables,
    st: Stages,
    dict: PowersDictionary,
)
    requires
        tables.wf(),
        merged_through(config, tables, st, dict),
        tables.unlinked(),
    ensures
        st.linked_sets.key_seq().len() == st.linked_sets.value_seq().len(),
        dict.power_sets.value_seq().len() == st.linked_sets.value_seq().len(),
        dict.powers.value_seq().len() == tables.powers.value_seq().len(),
        forall|c: int, a: int|
            0 <= c < st.linked_cats.value_seq().len() && 0 <= a < st.linked_cats.value_seq()[c].pp_power_sets@.len()
                ==> (#[trigger] st.linked_cats.value_seq()[c].pp_power_sets@[a])
                < st.linked_sets.value_seq().len(),
        forall|s: int, b: int|
            0 <= s < st.linked_sets.value_seq().len() && 0 <= b < st.linked_sets.value_seq()[s].pp_powers@.len()
                ==> (#[trigger] st.linked_sets.value_seq()[s].pp_powers@[b])
                < tables.powers.value_seq().len(),
        forall|c: int|
            0 <= c < st.linked_cats.value_seq().len() ==> (
            #[trigger] dict.power_categories.value_seq()[c]).pp_power_sets
                == st.linked_cats.value_seq()[c].pp_power_sets,
        forall|s: int|
            0 <= s < st.linked_sets.value_seq().len() ==> (
            #[trigger] dict.power_sets.value_seq()[s]).pp_powers
                == st.linked_sets.value_seq()[s].pp_powers,
{
    lemma_kept_lengths(
        tables.power_sets.key_seq(),
        tables.power_sets.value_seq(),
        texts(config.filter_powersets@),
    );
    st.linked_sets.lemma_len_fits();
    st.enhanced.lemma_len_fits();
    assert forall|c: int, a: int|
        0 <= c < st.linked_cats.value_seq().len() && 0 <= a < st.linked_cats.value_seq()[c].pp_power_sets@.len() implies (
    #[trigger] st.linked_cats.value_seq()[c].pp_power_sets@[a]) < st.linked_sets.value_seq().len() by {
        let matched = st.matched.value_seq()[c];
        let marked = st.marked.value_seq()[c];
        assert(marked.pp_power_sets == tables.power_categories.value_seq()[c].pp_power_sets);
        assert(matched.pp_power_sets == marked.pp_power_sets);
        let names = texts(matched.ppch_power_set_names@);
        lemma_found_positions_valid(st.linked_sets.key_seq(), names);
        let found = found_positions(st.linked_sets.key_seq(), names);
        assert(st.linked_cats.value_seq()[c].pp_power_sets@ =~= found);
        assert(found[a] < st.linked_sets.key_seq().len());
    }
    assert forall|s: int, b: int|
        0 <= s < st.linked_sets.value_seq().len() && 0 <= b < st.linked_sets.value_seq()[s].pp_powers@.len() implies (
    #[trigger] st.linked_sets.value_seq()[s].pp_powers@[b]) < tables.powers.value_seq().len() by {
        let kept = st.filtered.value_seq()[s];
        lemma_kept_values_from(
            tables.power_sets.key_seq(),
            tables.power_sets.value_seq(),
            texts(config.filter_powersets@),
            s,
        );
        let j = choose|j: int|
            0 <= j < tables.power_sets.value_seq().len() && #[trigger] tables.power_sets.value_seq()[j]
                == kept;
        assert(kept.pp_powers@.len() == 0);
        let names = texts(kept.pp_power_names@);
        lemma_found_positions_valid(st.enhanced.key_seq(), names);
        let found = found_positions(st.enhanced.key_seq(), names);
        assert(st.linked_sets.value_seq()[s].pp_powers@ =~= found);
        assert(found[b] < st.enhanced.key_seq().len());
    }
    assert forall|c: int| 0 <= c < st.linked_cats.value_seq().len() implies (
    #[trigger] dict.power_categories.value_seq()[c]).pp_power_sets
        == st.linked_cats.value_seq()[c].pp_power_sets by {
        let cascaded = st.cascaded.0.value_seq()[c];
        assert(cascaded.pp_power_sets == st.linked_cats.value_seq()[c].pp_power_sets);
        assert(cat_frame(cascaded, st.resolved.0.value_seq()[c]));
    }
    assert forall|s: int| 0 <= s < st.linked_sets.value_seq().len() implies (
    #[trigger] dict.power_sets.value_seq()[s]).pp_powers
        == st.linked_sets.value_seq()[s].pp_powers by {
        let cascaded = st.cascaded.1.value_seq()[s];
        assert(cascaded.pp_powers == st.linked_sets.value_seq()[s].pp_powers);
        assert(set_frame(cascaded, st.resolved.1.value_seq()[s]));
    }
}

/// The archetypes of the powers of a merged dictionary, and the entity
/// definitions that its effect parameters were resolved to, are in range.
proof fn lemma_merged_marks(
    config: PowersConfig,
    tables: PowerTables,
    st: Stages,
    dict: PowersDictionary,
)
    requires
        tables.wf(),
        merged_through(config, tables, st, dict),
        tables.references_in_range(),
    ensures
        marks_in_range(
            world_of(
                dict.villains,
                dict.villain_archetypes,
                dict.power_categories,
                dict.power_sets,
                dict.powers,
            ),
            table_marks(dict.power_categories, dict.power_sets, dict.powers),
            tables.archetypes.value_seq().len(),
        ),
{
    let players = tables.archetypes.value_seq().len();
    let villains = tables.villain_archetypes.key_seq().len();
    let w0 = world_of(
        tables.villains,
        tables.villain_archetypes,
        tables.power_categories,
        tables.power_sets,
        tables.powers,
    );
    let m0 = table_marks(tables.power_categories, tables.power_sets, tables.powers);
    let w = world_of(
        tables.villains,
        tables.villain_archetypes,
        st.cascaded.0,
        st.cascaded.1,
        st.cascaded.2,
    );
    let m = table_marks(st.cascaded.0, st.cascaded.1, st.cascaded.2);
    let cats = st.linked_cats.value_seq();
    let sets = st.linked_sets.value_seq();
    let np = tables.powers.value_seq().len();
    lemma_kept_lengths(
        tables.power_sets.key_seq(),
        tables.power_sets.value_seq(),
        texts(config.filter_powersets@),
    );
    tables.villains.lemma_len_fits();
    tables.villain_archetypes.lemma_len_fits();
    assert forall|p: int| 0 <= p < m.powers.len() implies refs_in_range(
        (#[trigger] m.powers[p]).archetypes,
        players,
        villains,
    ) by {
        let is = st.cascaded.2.value_seq()[p];
        let was = st.enhanced.value_seq()[p];
        assert(was.archetypes == tables.powers.value_seq()[p].archetypes);
        assert(m0.powers[p].archetypes == tables.powers.value_seq()[p].archetypes@);
        assert(refs_in_range(m0.powers[p].archetypes, players, w0.class_keys.len()));
        lemma_power_owner(cats, sets, p, cats.len(), 0);
        match power_owner(cats, sets, p, cats.len()) {
            Some(o) => {
                lemma_merged_category_archetypes(config, tables, st, dict, o);
            },
            None => {},
        }
    }
    assert forall|i: int, g: int, t: int|
        0 <= i < m.powers.len() && 0 <= g < m.powers[i].params.len() && 0 <= t
            < m.powers[i].params[g].len() && (
        #[trigger] m.powers[i].params[g][t]).villain_def is Some implies m.powers[i].params[g][t].villain_def->0
        < w.villain_keys.len() by {
        let is = st.cascaded.2.value_seq()[i];
        let was = st.enhanced.value_seq()[i];
        assert(was.pp_effects == tables.powers.value_seq()[i].pp_effects);
        assert(is.pp_effects == was.pp_effects);
        assert(power_marks(is).params =~= power_marks(tables.powers.value_seq()[i]).params);
        assert(m0.powers[i].params[g][t].villain_def is Some);
    }
    lemma_tables_shaped(
        tables.villains,
        tables.villain_archetypes,
        st.cascaded.0,
        st.cascaded.1,
        st.cascaded.2,
    );
    law_resolution_keeps_references_in_range(w, m, players);
    let end = table_marks(st.resolved.0, st.resolved.1, st.resolved.2);
    assert(end == fixed_point(w, m));
    let wd = world_of(
        dict.villains,
        dict.villain_archetypes,
        dict.power_categories,
        dict.power_sets,
        dict.powers,
    );
    let md = table_marks(dict.power_categories, dict.power_sets, dict.powers);
    assert forall|p: int| 0 <= p < md.powers.len() implies refs_in_range(
        (#[trigger] md.powers[p]).archetypes,
        players,
        wd.class_keys.len(),
    ) by {
        assert(dict.powers.value_seq()[p].archetypes == st.resolved.2.value_seq()[p].archetypes);
        assert(refs_in_range(end.powers[p].archetypes, players, w.class_keys.len()));
    }
    assert forall|i: int, g: int, t: int|
        0 <= i < md.powers.len() && 0 <= g < md.powers[i].params.len() && 0 <= t
            < md.powers[i].params[g].len() && (
        #[trigger] md.powers[i].params[g][t]).villain_def is Some implies md.powers[i].params[g][t].villain_def->0
        < wd.villain_keys.len() by {
        assert(dict.powers.value_seq()[i].pp_effects == st.resolved.2.value_seq()[i].pp_effects);
        assert(md.powers[i].params =~= end.powers[i].params);
        assert(end.powers[i].params[g][t].villain_def is Some);
    }
}

/// Merging keeps every reference in range: where the tables were not
/// linked yet and held references to records of the tables only (so, where
/// they held none), every reference of the dictionary is to a record of
/// the dictionary.
pub proof fn law_merged_references_are_in_range(
    config: PowersConfig,
    tables: PowerTables,
    st: Stages,
    dict: PowersDictionary,
)
    requires
        tables.wf(),
        merged_through(config, tables, st, dict),
        tables.unlinked(),
        tables.references_in_range(),
    ensures
        dict.references_in_range(),
{
    lemma_merged_links(config, tables, st, dict);
    lemma_merged_marks(config, tables, st, dict);
    assert forall|c: int| 0 <= c < dict.power_categories.value_seq().len() implies refs_in_range(
        (#[trigger] dict.power_categories.value_seq()[c]).archetypes@,
        dict.archetypes.value_seq().len(),
        dict.villain_archetypes.value_seq().len(),
    ) by {
        lemma_merged_category_archetypes(config, tables, st, dict, c);
    }
    assert forall|c: int, a: int|
        0 <= c < dict.power_categories.value_seq().len() && 0 <= a
            < dict.power_categories.value_seq()[c].pp_power_sets@.len() implies (
    #[trigger] dict.power_categories.value_seq()[c].pp_power_sets@[a])
        < dict.power_sets.value_seq().len() by {
        assert(dict.power_categories.value_seq()[c].pp_power_sets
            == st.linked_cats.value_seq()[c].pp_power_sets);
        assert(st.linked_cats.value_seq()[c].pp_power_sets@[a] < st.linked_sets.value_seq().len());
    }
    assert forall|s: int, b: int|
        0 <= s < dict.power_sets.value_seq().len() && 0 <= b
            < dict.power_sets.value_seq()[s].pp_powers@.len() implies (
    #[trigger] dict.power_sets.value_seq()[s].pp_powers@[b]) < dict.powers.value_seq().len() by {
        assert(dict.power_sets.value_seq()[s].pp_powers
            == st.linked_sets.value_seq()[s].pp_powers);
        assert(st.linked_sets.value_seq()[s].pp_powers@[b] < tables.powers.value_seq().len());
    }
}

/// What a category that the configuration keeps holds is included: in the
/// dictionary, every power of every power set of such a category is
/// included, and so is every power set of it that has a power. (Where the
/// configuration names no category, it keeps them all.)
pub proof fn law_kept_category_includes_what_it_holds(
    config: PowersConfig,
    tables: PowerTables,
    st: Stages,
    dict: PowersDictionary,
    c: int,
    a: int,
    b: int,
)
    requires
        tables.wf(),
        merged_through(config, tables, st, dict),
        0 <= c < tables.power_categories.value_seq().len(),
        config.power_categories@.len() == 0 || tables.power_categories.value_seq()[c].top_level
            || listed(
            texts(config.power_categories@),
            opt_text(tables.power_categories.value_seq()[c].pch_name),
        ),
        0 <= a < dict.power_categories.value_seq()[c].pp_power_sets@.len(),
        dict.power_categories.value_seq()[c].pp_power_sets@[a] < dict.power_sets.value_seq().len(),
        0 <= b < dict.power_sets.value_seq()[dict.power_categories.value_seq()[c].pp_power_sets@[a] as int].pp_powers@.len(),
        dict.power_sets.value_seq()[dict.power_categories.value_seq()[c].pp_power_sets@[a] as int].pp_powers@[b]
            < dict.powers.value_seq().len(),
    ensures
        dict.power_sets.value_seq()[dict.power_categories.value_seq()[c].pp_power_sets@[a] as int].include_in_output,
        dict.powers.value_seq()[dict.power_sets.value_seq()[dict.power_categories.value_seq()[c].pp_power_sets@[a] as int].pp_powers@[b] as int].include_in_output,
{
    let s = dict.power_categories.value_seq()[c].pp_power_sets@[a] as int;
    let p = dict.power_sets.value_seq()[s].pp_powers@[b] as int;
    let cats = st.linked_cats.value_seq();
    let sets = st.linked_sets.value_seq();
    let np = st.enhanced.value_seq().len() as int;
    lemma_kept_lengths(
        tables.power_sets.key_seq(),
        tables.power_sets.value_seq(),
        texts(config.filter_powersets@),
    );
    // the links of the dictionary are those that were made
    let cat = cats[c];
    assert(st.cascaded.0.value_seq()[c].pp_power_sets == cat.pp_power_sets);
    assert(cat_frame(st.cascaded.0.value_seq()[c], st.resolved.0.value_seq()[c]));
    assert(cat.pp_power_sets@[a] == s);
    let set = sets[s];
    assert(st.cascaded.1.value_seq()[s].pp_powers == set.pp_powers);
    assert(set_frame(st.cascaded.1.value_seq()[s], st.resolved.1.value_seq()[s]));
    assert(set.pp_powers@[b] == p);
    // the category is at the top level when its powers are included
    assert(st.marked.value_seq()[c].top_level);
    assert(st.matched.value_seq()[c].top_level);
    assert(cat.top_level);
    // so the power set and the power are included by the cascade
    assert(listed_in_first(cat.pp_power_sets@, s, cat.pp_power_sets@.len() as int));
    assert(set_touched(cats, s, cats.len() as int));
    assert(live_in_first(set.pp_powers@, np, set.pp_powers@.len() as int));
    assert(st.cascaded.1.value_seq()[s].include_in_output);
    assert(listed_in_first(set.pp_powers@, p, set.pp_powers@.len() as int));
    assert(held_in_first(cat.pp_power_sets@, sets, p, cat.pp_power_sets@.len() as int));
    lemma_power_owner(cats, sets, p, cats.len(), c);
    assert(st.cascaded.2.value_seq()[p].include_in_output);
    // and stay included
    let w = world_of(
        tables.villains,
        tables.villain_archetypes,
        st.cascaded.0,
        st.cascaded.1,
        st.cascaded.2,
    );
    let m = table_marks(st.cascaded.0, st.cascaded.1, st.cascaded.2);
    lemma_tables_shaped(
        tables.villains,
        tables.villain_archetypes,
        st.cascaded.0,
        st.cascaded.1,
        st.cascaded.2,
    );
    law_marks_only_grow(w, m);
    let end = table_marks(st.resolved.0, st.resolved.1, st.resolved.2);
    assert(m.sets[s]);
    assert(end.sets[s]);
    assert(m.powers[p].included);
    assert(end.powers[p].included);
    assert(dict.powers.value_seq()[p].include_in_output
        == st.resolved.2.value_seq()[p].include_in_output);
}

} // verus!
