//! Merging the tables into one dictionary of powers.

use vstd::prelude::*;
use crate::assemble::{
    cats_linked, filter_power_sets, kept_keys, kept_values, link_power_categories,
    link_power_sets, listed, mark_top_level_categories, sets_linked, top_level_count,
    top_level_marked, LoadError,
};
use crate::cascade::{cascaded, include_top_level};
use crate::config::PowersConfig;
use crate::fixups::{
    enhancements_matched, fix_data_in_power_hierarchy, hierarchy_fixed,
    match_enh_categories_to_powers,
};
use crate::grants::{
    grant_pass, lemma_tables_shaped, resolve_entity_defs_and_power_grants, world_of, World,
};
use crate::monotone::{law_fixed_point_is_stable, law_marks_only_grow, marks_grow};
use crate::keyed::Keyed;
use crate::marks::{
    lemma_frame_keeps_defs, lemma_frame_reflexive, lemma_tables_frame_transitive,
    pending_params, pending_redirects, table_marks, tables_frame, Marks,
};
use crate::matcher::{
    links_of, match_all, match_archetypes_to_power_categories, match_frames, refs_in_range,
};
use crate::laws::law_unlisted_category_is_not_top_level;
use crate::linked::law_merged_references_are_in_range;
use crate::namekey::{opt_text, texts};
use crate::ranges::marks_in_range;
use crate::resolve::{redirect_pass, resolve_power_redirects};
use crate::structs::{
    Archetype, AttribNames, BasePower, BasePowerSet, BoostSet, PowerCategory, VillainDef,
};

verus! {

/// The number of latches that are still open: the effect parameters and the
/// redirect lists that have not been followed.
pub open spec fn pending(m: Marks) -> nat {
    pending_params(m) + pending_redirects(m)
}

/// The marks after one pass over the tables: first the grants of every
/// power, then the redirects of every power.
pub open spec fn full_pass(w: World, m: Marks) -> Marks {
    redirect_pass(w.names, w.powers, grant_pass(w, m, w.powers.len()), w.powers.len())
}

/// The marks after passes were made until one of them closed no latch.
pub open spec fn fixed_point(w: World, m: Marks) -> Marks
    decreases pending(m),
{
    let next = full_pass(w, m);
    if pending(next) < pending(m) {
        fixed_point(w, next)
    } else {
        next
    }
}

/// Follows entity grants and redirects until a pass over all powers finds
/// nothing left to follow, so that everything that an included power leads
/// to is included as well, at any distance. Returns the number of effect
/// parameters and redirect lists that were followed.
pub fn resolve_references(
    villains: &Keyed<VillainDef>,
    villain_archetypes: &Keyed<Archetype>,
    power_cats: &mut Keyed<PowerCategory>,
    power_sets: &mut Keyed<BasePowerSet>,
    powers: &mut Keyed<BasePower>,
) -> (count: usize)
    requires
        villains.wf(),
        villain_archetypes.wf(),
        old(power_cats).wf(),
        old(power_sets).wf(),
        old(powers).wf(),
        pending(table_marks(*old(power_cats), *old(power_sets), *old(powers))) <= usize::MAX,
    ensures
        final(power_cats).wf(),
        final(power_sets).wf(),
        final(powers).wf(),
        tables_frame(
            *old(power_cats),
            *old(power_sets),
            *old(powers),
            *final(power_cats),
            *final(power_sets),
            *final(powers),
        ),
        table_marks(*final(power_cats), *final(power_sets), *final(powers)) == fixed_point(
            world_of(*villains, *villain_archetypes, *old(power_cats), *old(power_sets), *old(powers)),
            table_marks(*old(power_cats), *old(power_sets), *old(powers)),
        ),
        count + pending(table_marks(*final(power_cats), *final(power_sets), *final(powers)))
            == pending(table_marks(*old(power_cats), *old(power_sets), *old(powers))),
        // nothing that was included is excluded, and no latch is opened again
        marks_grow(
            table_marks(*old(power_cats), *old(power_sets), *old(powers)),
            table_marks(*final(power_cats), *final(power_sets), *final(powers)),
        ),
        // a further pass finds nothing to do
        full_pass(
            world_of(
                *villains,
                *villain_archetypes,
                *final(power_cats),
                *final(power_sets),
                *final(powers),
            ),
            table_marks(*final(power_cats), *final(power_sets), *final(powers)),
        ) == table_marks(*final(power_cats), *final(power_sets), *final(powers)),
{
    let ghost w = world_of(
        *villains,
        *villain_archetypes,
        *old(power_cats),
        *old(power_sets),
        *old(powers),
    );
    let ghost m0 = table_marks(*old(power_cats), *old(power_sets), *old(powers));
    let mut total: usize = 0;
    proof {
        lemma_frame_reflexive(
            old(power_cats).value_seq(),
            old(power_sets).value_seq(),
            old(powers).value_seq(),
        );
        lemma_tables_shaped(*villains, *villain_archetypes, *power_cats, *power_sets, *powers);
        law_marks_only_grow(w, m0);
        law_fixed_point_is_stable(w, m0);
    }
    loop
        invariant_except_break
            fixed_point(w, table_marks(*power_cats, *power_sets, *powers)) == fixed_point(w, m0),
        invariant
            villains.wf(),
            villain_archetypes.wf(),
            power_cats.wf(),
            power_sets.wf(),
            powers.wf(),
            w == world_of(*villains, *villain_archetypes, *power_cats, *power_sets, *powers),
            w.powers.len() == powers.value_seq().len(),
            pending(m0) <= usize::MAX,
            tables_frame(
                *old(power_cats),
                *old(power_sets),
                *old(powers),
                *power_cats,
                *power_sets,
                *powers,
            ),
            total + pending(table_marks(*power_cats, *power_sets, *powers)) == pending(m0),
        ensures
            table_marks(*power_cats, *power_sets, *powers) == fixed_point(w, m0),
        decreases pending(table_marks(*power_cats, *power_sets, *powers)),
    {
        let ghost c1 = *power_cats;
        let ghost s1 = *power_sets;
        let ghost pw1 = *powers;
        let granted = resolve_entity_defs_and_power_grants(
            villains,
            villain_archetypes,
            power_cats,
            power_sets,
            powers,
        );
        let ghost c2 = *power_cats;
        let ghost s2 = *power_sets;
        let ghost pw2 = *powers;
        proof {
            lemma_frame_keeps_defs(c1, s1, pw1, c2, s2, pw2);
        }
        let redirected = resolve_power_redirects(powers, power_cats, power_sets);
        proof {
            lemma_tables_frame_transitive(c1, s1, pw1, c2, s2, pw2, *power_cats, *power_sets, *powers);
            lemma_tables_frame_transitive(
                *old(power_cats),
                *old(power_sets),
                *old(powers),
                c1,
                s1,
                pw1,
                *power_cats,
                *power_sets,
                *powers,
            );
            lemma_frame_keeps_defs(c1, s1, pw1, *power_cats, *power_sets, *powers);
            assert(table_marks(*power_cats, *power_sets, *powers) == full_pass(
                w,
                table_marks(c1, s1, pw1),
            ));
        }
        let count = granted + redirected;
        total = total + count;
        if count == 0 {
            break;
        }
    }
    total
}

/// The tables as they were read, each on its own.
#[derive(Debug)]
pub struct PowerTables {
    /// Character attribute names, mostly used for naming damage, defense, elusivity.
    pub attrib_names: AttribNames,
    /// The classes of the players.
    pub archetypes: Keyed<Archetype>,
    pub boost_sets: Keyed<BoostSet>,
    /// The classes of the villains, each under its name behind the sigil `@`.
    pub villain_archetypes: Keyed<Archetype>,
    pub villains: Keyed<VillainDef>,
    pub power_categories: Keyed<PowerCategory>,
    pub power_sets: Keyed<BasePowerSet>,
    pub powers: Keyed<BasePower>,
}

/// All of the parsed data, linked: a category refers to its power sets, and
/// a power set to its powers, by their positions in the tables here; an
/// archetype reference names one of the two tables of classes.
#[derive(Debug)]
pub struct PowersDictionary {
    /// The categories, with the marks that say which of them go to the root
    /// of the output and which are put out at all.
    pub power_categories: Keyed<PowerCategory>,
    pub power_sets: Keyed<BasePowerSet>,
    pub powers: Keyed<BasePower>,
    /// All of the archetype data.
    pub archetypes: Keyed<Archetype>,
    pub villain_archetypes: Keyed<Archetype>,
    pub villains: Keyed<VillainDef>,
    /// Character attribute names, mostly used for naming damage, defense, elusivity.
    pub attrib_names: AttribNames,
}

impl PowerTables {
    /// Every table is well formed.
    pub open spec fn wf(&self) -> bool {
        &&& self.archetypes.wf()
        &&& self.boost_sets.wf()
        &&& self.villain_archetypes.wf()
        &&& self.villains.wf()
        &&& self.power_categories.wf()
        &&& self.power_sets.wf()
        &&& self.powers.wf()
    }

    /// The number of latches of the powers that are open.
    pub open spec fn pending(&self) -> nat {
        pending(table_marks(self.power_categories, self.power_sets, self.powers))
    }

    /// Nothing is linked yet: no category has power sets, and no power set
    /// has powers.
    pub open spec fn unlinked(&self) -> bool {
        &&& forall|c: int|
            0 <= c < self.power_categories.value_seq().len() ==> (
            #[trigger] self.power_categories.value_seq()[c]).pp_power_sets@.len() == 0
        &&& forall|s: int|
            0 <= s < self.power_sets.value_seq().len() ==> (
            #[trigger] self.power_sets.value_seq()[s]).pp_powers@.len() == 0
    }

    /// Every reference to an archetype or to an entity definition that the
    /// records hold is to a record of the tables (so, where they hold none).
    pub open spec fn references_in_range(&self) -> bool {
        let players = self.archetypes.value_seq().len();
        &&& forall|c: int|
            0 <= c < self.power_categories.value_seq().len() ==> refs_in_range(
                (#[trigger] self.power_categories.value_seq()[c]).archetypes@,
                players,
                self.villain_archetypes.value_seq().len(),
            )
        &&& marks_in_range(
            world_of(
                self.villains,
                self.villain_archetypes,
                self.power_categories,
                self.power_sets,
                self.powers,
            ),
            table_marks(self.power_categories, self.power_sets, self.powers),
            players,
        )
    }
}

impl PowersDictionary {
    /// Every table is well formed.
    pub open spec fn wf(&self) -> bool {
        &&& self.archetypes.wf()
        &&& self.villain_archetypes.wf()
        &&& self.villains.wf()
        &&& self.power_categories.wf()
        &&& self.power_sets.wf()
        &&& self.powers.wf()
    }

    /// Every reference that a record holds is to a record of the
    /// dictionary: the archetypes of the categories and of the powers, the
    /// power sets of the categories, the powers of the power sets, and the
    /// entity definitions that effect parameters were resolved to.
    pub open spec fn references_in_range(&self) -> bool {
        let players = self.archetypes.value_seq().len();
        &&& forall|c: int|
            0 <= c < self.power_categories.value_seq().len() ==> refs_in_range(
                (#[trigger] self.power_categories.value_seq()[c]).archetypes@,
                players,
                self.villain_archetypes.value_seq().len(),
            )
        &&& forall|c: int, a: int|
            0 <= c < self.power_categories.value_seq().len() && 0 <= a
                < self.power_categories.value_seq()[c].pp_power_sets@.len() ==> (
            #[trigger] self.power_categories.value_seq()[c].pp_power_sets@[a])
                < self.power_sets.value_seq().len()
        &&& forall|s: int, b: int|
            0 <= s < self.power_sets.value_seq().len() && 0 <= b
                < self.power_sets.value_seq()[s].pp_powers@.len() ==> (
            #[trigger] self.power_sets.value_seq()[s].pp_powers@[b]) < self.powers.value_seq().len()
        &&& marks_in_range(
            world_of(
                self.villains,
                self.villain_archetypes,
                self.power_categories,
                self.power_sets,
                self.powers,
            ),
            table_marks(self.power_categories, self.power_sets, self.powers),
            players,
        )
    }
}

/// The categories are as they were, but for the archetypes that were
/// matched to them: see [`match_all`].
pub open spec fn archetypes_matched(
    o: Keyed<PowerCategory>,
    n: Keyed<PowerCategory>,
    archetypes: Keyed<Archetype>,
    globals: Seq<Seq<char>>,
) -> bool {
    &&& match_frames(o, n)
    &&& links_of(n.value_seq()) == match_all(
        o.key_seq(),
        links_of(o.value_seq()),
        archetypes.value_seq(),
        globals,
        archetypes.value_seq().len(),
    )
}

/// The power sets are those that no pattern matches, in their order.
pub open spec fn sets_filtered(
    o: Keyed<BasePowerSet>,
    n: Keyed<BasePowerSet>,
    filters: Seq<Seq<char>>,
) -> bool {
    &&& n.key_seq() == kept_keys(o.key_seq(), filters)
    &&& n.value_seq() == kept_values(o.key_seq(), o.value_seq(), filters)
}

/// The tables are as they were, but for the marks, which are those of the
/// fixed point of resolution: see [`fixed_point`].
pub open spec fn references_resolved(
    villains: Keyed<VillainDef>,
    villain_archetypes: Keyed<Archetype>,
    c0: Keyed<PowerCategory>,
    s0: Keyed<BasePowerSet>,
    pw0: Keyed<BasePower>,
    c1: Keyed<PowerCategory>,
    s1: Keyed<BasePowerSet>,
    pw1: Keyed<BasePower>,
) -> bool {
    &&& tables_frame(c0, s0, pw0, c1, s1, pw1)
    &&& table_marks(c1, s1, pw1) == fixed_point(
        world_of(villains, villain_archetypes, c0, s0, pw0),
        table_marks(c0, s0, pw0),
    )
}

/// The states that the tables go through while they are merged.
pub struct Stages {
    /// The categories with those at the top level marked.
    pub marked: Keyed<PowerCategory>,
    /// The categories with their archetypes.
    pub matched: Keyed<PowerCategory>,
    /// The powers with the categories of enhancement sets that they accept.
    pub enhanced: Keyed<BasePower>,
    /// The power sets that are not left out.
    pub filtered: Keyed<BasePowerSet>,
    /// The power sets with their powers.
    pub linked_sets: Keyed<BasePowerSet>,
    /// The categories with their power sets.
    pub linked_cats: Keyed<PowerCategory>,
    /// The three tables with what the top-level categories hold included.
    pub cascaded: (Keyed<PowerCategory>, Keyed<BasePowerSet>, Keyed<BasePower>),
    /// The three tables with all references resolved.
    pub resolved: (Keyed<PowerCategory>, Keyed<BasePowerSet>, Keyed<BasePower>),
}

/// The dictionary is what the tables give when they are merged under the
/// configuration, through the given stages: the top-level categories are
/// marked, the archetypes are matched to the categories, the powers get
/// the categories of enhancement sets that they accept, the power sets that
/// are configured to be left out are left out, power sets are linked to
/// powers and categories to power sets, what the top-level categories hold
/// is included, references are resolved to their fixed point, and the
/// powers of the top-level categories are set right.
pub open spec fn merged_through(
    config: PowersConfig,
    tables: PowerTables,
    st: Stages,
    dict: PowersDictionary,
) -> bool {
    &&& top_level_marked(tables.power_categories, st.marked, texts(config.power_categories@))
    &&& archetypes_matched(st.marked, st.matched, tables.archetypes, texts(config.global_categories@))
    &&& enhancements_matched(tables.powers, st.enhanced, tables.boost_sets.value_seq())
    &&& sets_filtered(tables.power_sets, st.filtered, texts(config.filter_powersets@))
    &&& sets_linked(st.filtered, st.linked_sets, st.enhanced.key_seq())
    &&& cats_linked(st.matched, st.linked_cats, st.linked_sets.key_seq())
    &&& cascaded(
        st.linked_cats,
        st.linked_sets,
        st.enhanced,
        st.cascaded.0,
        st.cascaded.1,
        st.cascaded.2,
    )
    &&& references_resolved(
        tables.villains,
        tables.villain_archetypes,
        st.cascaded.0,
        st.cascaded.1,
        st.cascaded.2,
        st.resolved.0,
        st.resolved.1,
        st.resolved.2,
    )
    &&& hierarchy_fixed(st.resolved.0, st.resolved.1, st.resolved.2, dict.powers)
    &&& dict.power_categories == st.resolved.0
    &&& dict.power_sets == st.resolved.1
    &&& dict.archetypes == tables.archetypes
    &&& dict.villain_archetypes == tables.villain_archetypes
    &&& dict.villains == tables.villains
    &&& dict.attrib_names == tables.attrib_names
}

/// The dictionary is what the tables give when they are merged under the
/// configuration: see [`merged_through`].
pub open spec fn merged(config: PowersConfig, tables: PowerTables, dict: PowersDictionary) -> bool {
    exists|st: Stages| #[trigger] merged_through(config, tables, st, dict)
}

/// No category of the tables is kept at the top level by a configuration
/// that names categories to keep.
pub open spec fn nothing_kept(config: PowersConfig, tables: PowerTables) -> bool {
    &&& config.power_categories@.len() > 0
    &&& forall|c: int|
        0 <= c < tables.power_categories.value_seq().len() ==> {
            let cat = #[trigger] tables.power_categories.value_seq()[c];
            !cat.top_level && !listed(
                texts(config.power_categories@),
                opt_text(cat.pch_name),
            )
        }
}

/// Merges the tables into a single powers dictionary. The one thing that
/// stops it is a configuration that names categories to keep of which the
/// tables have none.
pub fn load_powers_dictionary(config: &PowersConfig, tables: PowerTables) -> (r: Result<
    PowersDictionary,
    LoadError,
>)
    requires
        tables.wf(),
        tables.pending() <= usize::MAX,
    ensures
        r is Err <==> nothing_kept(*config, tables),
        r is Ok ==> r->Ok_0.wf() && merged(*config, tables, r->Ok_0),
        // a category that the configuration does not keep is not at the top
        // level
        r is Ok && config.power_categories@.len() > 0 ==> forall|c: int|
            0 <= c < tables.power_categories.value_seq().len()
                && !tables.power_categories.value_seq()[c].top_level && !listed(
                texts(config.power_categories@),
                opt_text(tables.power_categories.value_seq()[c].pch_name),
            ) ==> !(#[trigger] r->Ok_0.power_categories.value_seq()[c]).top_level,
        // every reference of the dictionary is to a record of the dictionary
        r is Ok && tables.unlinked() && tables.references_in_range()
            ==> r->Ok_0.references_in_range(),
{
    let ghost tables0 = tables;
    let PowerTables {
        attrib_names,
        archetypes,
        boost_sets,
        villain_archetypes,
        villains,
        mut power_categories,
        mut power_sets,
        mut powers,
    } = tables;
    match mark_top_level_categories(&mut power_categories, config) {
        Err(e) => {
            proof {
                lemma_no_top_level(power_categories.value_seq());
                assert forall|c: int|
                    0 <= c < tables0.power_categories.value_seq().len() implies {
                    let cat = #[trigger] tables0.power_categories.value_seq()[c];
                    !cat.top_level && !listed(
                        texts(config.power_categories@),
                        opt_text(cat.pch_name),
                    )
                } by {
                    assert(!power_categories.value_seq()[c].top_level);
                }
            }
            return Err(e);
        },
        Ok(_) => {
            proof {
                if config.power_categories@.len() > 0 {
                    lemma_some_top_level(power_categories.value_seq());
                    let c = choose|c: int|
                        0 <= c < power_categories.value_seq().len() && (
                        #[trigger] power_categories.value_seq()[c]).top_level;
                    assert(tables0.power_categories.value_seq()[c].top_level
                        || listed(
                        texts(config.power_categories@),
                        opt_text(tables0.power_categories.value_seq()[c].pch_name),
                    ));
                }
            }
        },
    }
    let ghost marked = power_categories;
    // match archetypes to power categories
    match_archetypes_to_power_categories(&archetypes, config, &mut power_categories);
    let ghost matched = power_categories;
    // assign enhancement category names to individual powers
    match_enh_categories_to_powers(&boost_sets, &mut powers);
    let ghost enhanced = powers;
    // filter out power sets
    filter_power_sets(&mut power_sets, &config.filter_powersets);
    let ghost filtered = power_sets;
    // move powers into their power sets
    link_power_sets(&mut power_sets, &powers);
    let ghost linked_sets = power_sets;
    // move power sets into their power categories
    link_power_categories(&mut power_categories, &power_sets);
    let ghost linked_cats = power_categories;
    // automatically include all power sets and powers linked to the top level
    include_top_level(&mut power_categories, &mut power_sets, &mut powers);
    let ghost after_cascade = (power_categories, power_sets, powers);
    proof {
        lemma_pending_kept(tables0.powers, enhanced, powers);
    }
    // copy pet entity defs into powers, and make sure that the powers that
    // redirects refer to are included
    resolve_references(
        &villains,
        &villain_archetypes,
        &mut power_categories,
        &mut power_sets,
        &mut powers,
    );
    let ghost after_resolve = (power_categories, power_sets, powers);
    // final clean up
    fix_data_in_power_hierarchy(&power_categories, &power_sets, &mut powers);
    let dict = PowersDictionary {
        power_categories,
        power_sets,
        powers,
        archetypes,
        villain_archetypes,
        villains,
        attrib_names,
    };
    proof {
        let st = Stages {
            marked,
            matched,
            enhanced,
            filtered,
            linked_sets,
            linked_cats,
            cascaded: after_cascade,
            resolved: after_resolve,
        };
        assert(merged_through(*config, tables0, st, dict));
        if config.power_categories@.len() > 0 {
            assert forall|c: int|
                0 <= c < tables0.power_categories.value_seq().len()
                    && !tables0.power_categories.value_seq()[c].top_level && !listed(
                    texts(config.power_categories@),
                    opt_text(tables0.power_categories.value_seq()[c].pch_name),
                ) implies !(#[trigger] dict.power_categories.value_seq()[c]).top_level by {
                law_unlisted_category_is_not_top_level(*config, tables0, st, dict, c);
            }
        }
        if tables0.unlinked() && tables0.references_in_range() {
            law_merged_references_are_in_range(*config, tables0, st, dict);
        }
    }
    Ok(dict)
}

/// Where the count of top-level categories is zero, none is at the top
/// level.
pub proof fn lemma_no_top_level(cats: Seq<PowerCategory>)
    requires
        top_level_count(cats) == 0,
    ensures
        forall|c: int| 0 <= c < cats.len() ==> !(#[trigger] cats[c]).top_level,
    decreases cats.len(),
{
    if cats.len() > 0 {
        let terms = Seq::new(
            cats.len(),
            |c: int|
                if cats[c].top_level {
                    1nat
                } else {
                    0nat
                },
        );
        let fewer = Seq::new(
            cats.drop_last().len(),
            |c: int|
                if cats.drop_last()[c].top_level {
                    1nat
                } else {
                    0nat
                },
        );
        assert(terms.drop_last() =~= fewer);
        lemma_no_top_level(cats.drop_last());
        assert forall|c: int| 0 <= c < cats.len() implies !(#[trigger] cats[c]).top_level by {
            if c < cats.len() - 1 {
                assert(cats.drop_last()[c] == cats[c]);
            }
        }
    }
}

/// Where the count of top-level categories is not zero, one is at the top
/// level.
pub proof fn lemma_some_top_level(cats: Seq<PowerCategory>)
    requires
        top_level_count(cats) > 0,
    ensures
        exists|c: int| 0 <= c < cats.len() && (#[trigger] cats[c]).top_level,
    decreases cats.len(),
{
    if cats.len() > 0 {
        let terms = Seq::new(
            cats.len(),
            |c: int|
                if cats[c].top_level {
                    1nat
                } else {
                    0nat
                },
        );
        let fewer = Seq::new(
            cats.drop_last().len(),
            |c: int|
                if cats.drop_last()[c].top_level {
                    1nat
                } else {
                    0nat
                },
        );
        assert(terms.drop_last() =~= fewer);
        if cats.last().top_level {
            assert(cats[cats.len() - 1].top_level);
        } else {
            lemma_some_top_level(cats.drop_last());
            let c = choose|c: int|
                0 <= c < cats.drop_last().len() && (#[trigger] cats.drop_last()[c]).top_level;
            assert(cats[c].top_level);
        }
    }
}

/// The steps before resolution open and close no latch.
pub proof fn lemma_pending_kept(pw0: Keyed<BasePower>, pw1: Keyed<BasePower>, pw2: Keyed<BasePower>)
    requires
        pw1.value_seq().len() == pw0.value_seq().len(),
        pw2.value_seq().len() == pw0.value_seq().len(),
        forall|i: int|
            0 <= i < pw0.value_seq().len() ==> (#[trigger] pw1.value_seq()[i]).redirects_resolved
                == pw0.value_seq()[i].redirects_resolved && pw1.value_seq()[i].pp_effects
                == pw0.value_seq()[i].pp_effects,
        forall|i: int|
            0 <= i < pw0.value_seq().len() ==> (#[trigger] pw2.value_seq()[i]).redirects_resolved
                == pw1.value_seq()[i].redirects_resolved && pw2.value_seq()[i].pp_effects
                == pw1.value_seq()[i].pp_effects,
    ensures
        forall|c0: Keyed<PowerCategory>, s0: Keyed<BasePowerSet>, c2: Keyed<PowerCategory>, s2: Keyed<BasePowerSet>|
            pending(#[trigger] table_marks(c2, s2, pw2)) == pending(#[trigger] table_marks(c0, s0, pw0)),
{
    assert forall|c0: Keyed<PowerCategory>, s0: Keyed<BasePowerSet>, c2: Keyed<PowerCategory>, s2: Keyed<BasePowerSet>|
        pending(#[trigger] table_marks(c2, s2, pw2)) == pending(
            #[trigger] table_marks(c0, s0, pw0),
        ) by {
        let a = table_marks(c0, s0, pw0);
        let b = table_marks(c2, s2, pw2);
        assert forall|i: int| 0 <= i < a.powers.len() implies a.powers[i].params
            == b.powers[i].params && a.powers[i].redirects_resolved
            == b.powers[i].redirects_resolved by {
            assert(pw1.value_seq()[i].pp_effects == pw0.value_seq()[i].pp_effects);
            assert(pw2.value_seq()[i].pp_effects == pw1.value_seq()[i].pp_effects);
        }
        assert(Seq::new(
            a.powers.len(),
            |i: int|
                if a.powers[i].redirects_resolved {
                    0nat
                } else {
                    1nat
                },
        ) =~= Seq::new(
            b.powers.len(),
            |i: int|
                if b.powers[i].redirects_resolved {
                    0nat
                } else {
                    1nat
                },
        ));
        assert(Seq::new(a.powers.len(), |i: int| crate::marks::pending_in_power(a.powers[i]))
            =~= Seq::new(b.powers.len(), |i: int| crate::marks::pending_in_power(b.powers[i])));
    }
}

} // verus!
