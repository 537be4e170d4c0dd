//! What resolution changes, and what it leaves alone.
//!
//! Resolution reads the names by which records refer to each other (the
//! definitions) and writes a small part of each record: whether it is
//! included in the output, the archetypes a power is associated with, and
//! the latches that say that a redirect list or an effect parameter has been
//! followed (the marks). The contracts of the resolution functions are
//! stated over these two parts.

use vstd::prelude::*;
use crate::keyed::Keyed;
use crate::namekey::{dotted, opt_text, same_key, segments, texts};
use crate::structs::{
    ArchetypeRef, AttribModParam, AttribModParam_EntCreate, AttribModParam_Power,
    AttribModTemplate, BasePower, BasePowerSet, EffectGroup, PowerCategory,
};

verus! {

/// The marks of one effect parameter. A parameter that grants nothing counts
/// as resolved from the start.
pub struct ParamMarks {
    /// The parameter has been followed.
    pub resolved: bool,
    /// Position of the entity definition that the parameter was resolved to.
    pub villain_def: Option<usize>,
    /// Names of the powers that the entity is granted.
    pub power_refs: Seq<Seq<char>>,
}

/// The marks of one power.
pub struct PowerMarks {
    pub included: bool,
    pub archetypes: Seq<ArchetypeRef>,
    pub redirects_resolved: bool,
    /// The marks of the parameters, by effect group and effect.
    pub params: Seq<Seq<ParamMarks>>,
}

/// The marks of the three tables, each by position.
pub struct Marks {
    pub cats: Seq<bool>,
    pub sets: Seq<bool>,
    pub powers: Seq<PowerMarks>,
}

/// The keys of the three tables, each by position.
pub struct Names {
    pub cats: Seq<Seq<char>>,
    pub sets: Seq<Seq<char>>,
    pub powers: Seq<Seq<char>>,
}

/// What an effect parameter grants.
pub enum GrantDef {
    /// The powers of the named entity definition.
    Entity(Option<Seq<char>>),
    /// The named powers.
    Powers(Seq<Seq<char>>),
    /// Nothing.
    Nothing,
}

/// The names that resolution reads from one power.
pub struct PowerDef {
    pub full_name: Option<Seq<char>>,
    /// The targets of the redirects, in order; a redirect may name none.
    pub redirects: Seq<Option<Seq<char>>>,
    /// What the parameters grant, by effect group and effect.
    pub grants: Seq<Seq<GrantDef>>,
}

/// The marks of an effect parameter that grants nothing.
pub open spec fn idle_param() -> ParamMarks {
    ParamMarks { resolved: true, villain_def: None, power_refs: Seq::empty() }
}

/// The marks of an effect parameter.
pub open spec fn param_marks(p: Option<AttribModParam>) -> ParamMarks {
    match p {
        Some(AttribModParam::EntCreate(e)) => ParamMarks {
            resolved: e.resolved,
            villain_def: e.villain_def,
            power_refs: texts(e.power_refs@),
        },
        Some(AttribModParam::Power(q)) => ParamMarks {
            resolved: q.resolved,
            villain_def: None,
            power_refs: Seq::empty(),
        },
        _ => idle_param(),
    }
}

/// The marks of the parameters of an effect group.
pub open spec fn group_marks(g: EffectGroup) -> Seq<ParamMarks> {
    Seq::new(g.pp_templates@.len(), |t: int| param_marks(g.pp_templates@[t].p_params))
}

/// The marks of a power.
pub open spec fn power_marks(p: BasePower) -> PowerMarks {
    PowerMarks {
        included: p.include_in_output,
        archetypes: p.archetypes@,
        redirects_resolved: p.redirects_resolved,
        params: Seq::new(p.pp_effects@.len(), |g: int| group_marks(p.pp_effects@[g])),
    }
}

/// The marks that the records of the three tables carry.
pub open spec fn marks_of(
    cats: Seq<PowerCategory>,
    sets: Seq<BasePowerSet>,
    powers: Seq<BasePower>,
) -> Marks {
    Marks {
        cats: Seq::new(cats.len(), |i: int| cats[i].include_in_output),
        sets: Seq::new(sets.len(), |i: int| sets[i].include_in_output),
        powers: Seq::new(powers.len(), |i: int| power_marks(powers[i])),
    }
}

/// The marks of three tables.
pub open spec fn table_marks(
    cats: Keyed<PowerCategory>,
    sets: Keyed<BasePowerSet>,
    powers: Keyed<BasePower>,
) -> Marks {
    marks_of(cats.value_seq(), sets.value_seq(), powers.value_seq())
}

/// The keys of three tables.
pub open spec fn table_names(
    cats: Keyed<PowerCategory>,
    sets: Keyed<BasePowerSet>,
    powers: Keyed<BasePower>,
) -> Names {
    Names { cats: cats.key_seq(), sets: sets.key_seq(), powers: powers.key_seq() }
}

/// What an effect parameter grants.
pub open spec fn grant_def(p: Option<AttribModParam>) -> GrantDef {
    match p {
        Some(AttribModParam::EntCreate(e)) => GrantDef::Entity(opt_text(e.pch_entity_def)),
        Some(AttribModParam::Power(q)) => GrantDef::Powers(texts(q.ppch_power_names@)),
        _ => GrantDef::Nothing,
    }
}

/// What the parameters of an effect group grant.
pub open spec fn group_grants(g: EffectGroup) -> Seq<GrantDef> {
    Seq::new(g.pp_templates@.len(), |t: int| grant_def(g.pp_templates@[t].p_params))
}

/// The names that resolution reads from a power.
pub open spec fn power_def(p: BasePower) -> PowerDef {
    PowerDef {
        full_name: opt_text(p.pch_full_name),
        redirects: Seq::new(p.pp_redirect@.len(), |j: int| opt_text(p.pp_redirect@[j].pch_name)),
        grants: Seq::new(p.pp_effects@.len(), |g: int| group_grants(p.pp_effects@[g])),
    }
}

/// What resolution reads from each power of a table.
pub open spec fn power_defs(powers: Seq<BasePower>) -> Seq<PowerDef> {
    Seq::new(powers.len(), |i: int| power_def(powers[i]))
}

/// The names of the powers of each power set of a table.
pub open spec fn set_members(sets: Seq<BasePowerSet>) -> Seq<Seq<Seq<char>>> {
    Seq::new(sets.len(), |i: int| texts(sets[i].pp_power_names@))
}

/// A category is as it was, but for whether it is included.
pub open spec fn cat_frame(o: PowerCategory, n: PowerCategory) -> bool {
    n == (PowerCategory { include_in_output: n.include_in_output, ..o })
}

/// A power set is as it was, but for whether it is included.
pub open spec fn set_frame(o: BasePowerSet, n: BasePowerSet) -> bool {
    n == (BasePowerSet { include_in_output: n.include_in_output, ..o })
}

/// An effect parameter is as it was, but for its marks.
pub open spec fn param_frame(o: Option<AttribModParam>, n: Option<AttribModParam>) -> bool {
    match o {
        Some(AttribModParam::EntCreate(oe)) => n matches Some(AttribModParam::EntCreate(ne)) && ne
            == (AttribModParam_EntCreate {
            villain_def: ne.villain_def,
            power_refs: ne.power_refs,
            resolved: ne.resolved,
            ..oe
        }),
        Some(AttribModParam::Power(oq)) => n matches Some(AttribModParam::Power(nq)) && nq == (
        AttribModParam_Power { resolved: nq.resolved, ..oq }),
        _ => n == o,
    }
}

/// An effect is as it was, but for the marks of its parameter.
pub open spec fn template_frame(o: AttribModTemplate, n: AttribModTemplate) -> bool {
    &&& n == (AttribModTemplate { p_params: n.p_params, ..o })
    &&& param_frame(o.p_params, n.p_params)
}

/// An effect group is as it was, but for the marks of its parameters.
pub open spec fn group_frame(o: EffectGroup, n: EffectGroup) -> bool {
    &&& n == (EffectGroup { pp_templates: n.pp_templates, ..o })
    &&& n.pp_templates@.len() == o.pp_templates@.len()
    &&& forall|t: int|
        0 <= t < o.pp_templates@.len() ==> template_frame(
            o.pp_templates@[t],
            #[trigger] n.pp_templates@[t],
        )
}

/// A power is as it was, but for its marks.
pub open spec fn power_frame(o: BasePower, n: BasePower) -> bool {
    &&& n == (BasePower {
        include_in_output: n.include_in_output,
        archetypes: n.archetypes,
        redirects_resolved: n.redirects_resolved,
        pp_effects: n.pp_effects,
        ..o
    })
    &&& n.pp_effects@.len() == o.pp_effects@.len()
    &&& forall|g: int|
        0 <= g < o.pp_effects@.len() ==> group_frame(o.pp_effects@[g], #[trigger] n.pp_effects@[g])
}

/// The categories are as they were, but for whether they are included.
pub open spec fn cats_frame(o: Seq<PowerCategory>, n: Seq<PowerCategory>) -> bool {
    &&& n.len() == o.len()
    &&& forall|i: int| 0 <= i < o.len() ==> cat_frame(o[i], #[trigger] n[i])
}

/// The power sets are as they were, but for whether they are included.
pub open spec fn sets_frame(o: Seq<BasePowerSet>, n: Seq<BasePowerSet>) -> bool {
    &&& n.len() == o.len()
    &&& forall|i: int| 0 <= i < o.len() ==> set_frame(o[i], #[trigger] n[i])
}

/// The powers are as they were, but for their marks.
pub open spec fn powers_frame(o: Seq<BasePower>, n: Seq<BasePower>) -> bool {
    &&& n.len() == o.len()
    &&& forall|i: int| 0 <= i < o.len() ==> power_frame(o[i], #[trigger] n[i])
}

/// The three tables are as they were, but for the marks of their records:
/// no record was added, removed, moved or renamed, and every other field of
/// every record has kept its value.
pub open spec fn tables_frame(
    c0: Keyed<PowerCategory>,
    s0: Keyed<BasePowerSet>,
    pw0: Keyed<BasePower>,
    c1: Keyed<PowerCategory>,
    s1: Keyed<BasePowerSet>,
    pw1: Keyed<BasePower>,
) -> bool {
    &&& c1.key_seq() == c0.key_seq()
    &&& s1.key_seq() == s0.key_seq()
    &&& pw1.key_seq() == pw0.key_seq()
    &&& cats_frame(c0.value_seq(), c1.value_seq())
    &&& sets_frame(s0.value_seq(), s1.value_seq())
    &&& powers_frame(pw0.value_seq(), pw1.value_seq())
}

/// The archetypes of a power after those of `inherit` were added that it
/// did not have: each in turn goes to the end, unless it is there already.
pub open spec fn merge_archetypes(
    own: Seq<ArchetypeRef>,
    inherit: Seq<ArchetypeRef>,
) -> Seq<ArchetypeRef>
    decreases inherit.len(),
{
    if inherit.len() == 0 {
        own
    } else {
        let merged = merge_archetypes(own, inherit.drop_last());
        if merged.contains(inherit.last()) {
            merged
        } else {
            merged.push(inherit.last())
        }
    }
}

/// The category that a power's name puts it in: the first segment.
pub open spec fn category_of(target: Seq<char>) -> Seq<char> {
    segments(target)[0]
}

/// The power set that a power's name puts it in: the first two segments,
/// where the name has that many.
pub open spec fn set_of(target: Seq<char>) -> Option<Seq<char>> {
    let s = segments(target);
    if s.len() >= 2 {
        Some(dotted(s[0], s[1]))
    } else {
        None
    }
}

/// The marks after the power named `target` was marked for inclusion: its
/// category, its power set and the power itself are included, each where
/// the table has it, and the power has the archetypes of `inherit` merged
/// into its own. Nothing else changes.
pub open spec fn mark(names: Names, m: Marks, target: Seq<char>, inherit: Seq<ArchetypeRef>) -> Marks {
    Marks {
        cats: Seq::new(
            m.cats.len(),
            |c: int| m.cats[c] || same_key(names.cats[c], category_of(target)),
        ),
        sets: Seq::new(
            m.sets.len(),
            |s: int|
                m.sets[s] || (set_of(target) is Some && same_key(names.sets[s], set_of(target)->0)),
        ),
        powers: Seq::new(
            m.powers.len(),
            |p: int|
                if same_key(names.powers[p], target) {
                    PowerMarks {
                        included: true,
                        archetypes: merge_archetypes(m.powers[p].archetypes, inherit),
                        ..m.powers[p]
                    }
                } else {
                    m.powers[p]
                },
        ),
    }
}

/// The marks after each of the targets was marked in turn, all with the
/// same archetypes to inherit. A target that is `None` is passed over.
pub open spec fn mark_each(
    names: Names,
    m: Marks,
    targets: Seq<Option<Seq<char>>>,
    inherit: Seq<ArchetypeRef>,
) -> Marks
    decreases targets.len(),
{
    if targets.len() == 0 {
        m
    } else {
        let before = mark_each(names, m, targets.drop_last(), inherit);
        match targets.last() {
            Some(t) => mark(names, before, t, inherit),
            None => before,
        }
    }
}

/// Every record is framed by itself.
pub proof fn lemma_frame_reflexive(
    cats: Seq<PowerCategory>,
    sets: Seq<BasePowerSet>,
    powers: Seq<BasePower>,
)
    ensures
        cats_frame(cats, cats),
        sets_frame(sets, sets),
        powers_frame(powers, powers),
{
    assert forall|i: int| 0 <= i < powers.len() implies power_frame(powers[i], #[trigger] powers[i]) by {
        lemma_power_frame_reflexive(powers[i]);
    }
}

/// A power is framed by itself.
pub proof fn lemma_power_frame_reflexive(p: BasePower)
    ensures
        power_frame(p, p),
{
    assert forall|g: int| 0 <= g < p.pp_effects@.len() implies group_frame(
        p.pp_effects@[g],
        #[trigger] p.pp_effects@[g],
    ) by {
        let e = p.pp_effects@[g];
        assert forall|t: int| 0 <= t < e.pp_templates@.len() implies template_frame(
            e.pp_templates@[t],
            #[trigger] e.pp_templates@[t],
        ) by {}
    }
}

/// Frames of an effect follow one another.
pub proof fn lemma_template_frame_transitive(
    a: AttribModTemplate,
    b: AttribModTemplate,
    c: AttribModTemplate,
)
    requires
        template_frame(a, b),
        template_frame(b, c),
    ensures
        template_frame(a, c),
{
}

/// Frames of an effect group follow one another.
pub proof fn lemma_group_frame_transitive(a: EffectGroup, b: EffectGroup, c: EffectGroup)
    requires
        group_frame(a, b),
        group_frame(b, c),
    ensures
        group_frame(a, c),
{
    assert forall|t: int| 0 <= t < a.pp_templates@.len() implies template_frame(
        a.pp_templates@[t],
        #[trigger] c.pp_templates@[t],
    ) by {
        lemma_template_frame_transitive(a.pp_templates@[t], b.pp_templates@[t], c.pp_templates@[t]);
    }
}

/// Frames of a power follow one another.
pub proof fn lemma_power_frame_transitive(a: BasePower, b: BasePower, c: BasePower)
    requires
        power_frame(a, b),
        power_frame(b, c),
    ensures
        power_frame(a, c),
{
    assert forall|g: int| 0 <= g < a.pp_effects@.len() implies group_frame(
        a.pp_effects@[g],
        #[trigger] c.pp_effects@[g],
    ) by {
        lemma_group_frame_transitive(a.pp_effects@[g], b.pp_effects@[g], c.pp_effects@[g]);
    }
}

/// Frames follow one another.
pub proof fn lemma_tables_frame_transitive(
    c0: Keyed<PowerCategory>,
    s0: Keyed<BasePowerSet>,
    pw0: Keyed<BasePower>,
    c1: Keyed<PowerCategory>,
    s1: Keyed<BasePowerSet>,
    pw1: Keyed<BasePower>,
    c2: Keyed<PowerCategory>,
    s2: Keyed<BasePowerSet>,
    pw2: Keyed<BasePower>,
)
    requires
        tables_frame(c0, s0, pw0, c1, s1, pw1),
        tables_frame(c1, s1, pw1, c2, s2, pw2),
    ensures
        tables_frame(c0, s0, pw0, c2, s2, pw2),
{
    assert forall|i: int| 0 <= i < pw0.value_seq().len() implies power_frame(
        pw0.value_seq()[i],
        #[trigger] pw2.value_seq()[i],
    ) by {
        lemma_power_frame_transitive(pw0.value_seq()[i], pw1.value_seq()[i], pw2.value_seq()[i]);
    }
    assert forall|i: int| 0 <= i < c0.value_seq().len() implies cat_frame(
        c0.value_seq()[i],
        #[trigger] c2.value_seq()[i],
    ) by {
        assert(cat_frame(c0.value_seq()[i], c1.value_seq()[i]));
    }
    assert forall|i: int| 0 <= i < s0.value_seq().len() implies set_frame(
        s0.value_seq()[i],
        #[trigger] s2.value_seq()[i],
    ) by {
        assert(set_frame(s0.value_seq()[i], s1.value_seq()[i]));
    }
}

/// A frame keeps what resolution reads from a power.
pub proof fn lemma_frame_keeps_power_def(o: BasePower, n: BasePower)
    requires
        power_frame(o, n),
    ensures
        power_def(n) == power_def(o),
{
    assert forall|g: int| 0 <= g < o.pp_effects@.len() implies group_grants(n.pp_effects@[g])
        == group_grants(o.pp_effects@[g]) by {
        let og = o.pp_effects@[g];
        let ng = n.pp_effects@[g];
        assert(group_frame(og, ng));
        assert forall|t: int| 0 <= t < og.pp_templates@.len() implies grant_def(
            ng.pp_templates@[t].p_params,
        ) == grant_def(og.pp_templates@[t].p_params) by {
            assert(template_frame(og.pp_templates@[t], ng.pp_templates@[t]));
        }
        assert(group_grants(ng) =~= group_grants(og));
    }
    assert(power_def(n).grants =~= power_def(o).grants);
    assert(power_def(n).redirects =~= power_def(o).redirects);
}

/// A frame keeps what resolution reads from the tables.
pub proof fn lemma_frame_keeps_defs(
    c0: Keyed<PowerCategory>,
    s0: Keyed<BasePowerSet>,
    pw0: Keyed<BasePower>,
    c1: Keyed<PowerCategory>,
    s1: Keyed<BasePowerSet>,
    pw1: Keyed<BasePower>,
)
    requires
        tables_frame(c0, s0, pw0, c1, s1, pw1),
    ensures
        table_names(c1, s1, pw1) == table_names(c0, s0, pw0),
        power_defs(pw1.value_seq()) == power_defs(pw0.value_seq()),
        set_members(s1.value_seq()) == set_members(s0.value_seq()),
{
    assert forall|i: int| 0 <= i < pw0.value_seq().len() implies power_def(pw1.value_seq()[i])
        == power_def(pw0.value_seq()[i]) by {
        lemma_frame_keeps_power_def(pw0.value_seq()[i], pw1.value_seq()[i]);
    }
    assert(power_defs(pw1.value_seq()) =~= power_defs(pw0.value_seq()));
    assert forall|i: int| 0 <= i < s0.value_seq().len() implies texts(
        s1.value_seq()[i].pp_power_names@,
    ) == texts(s0.value_seq()[i].pp_power_names@) by {
        assert(set_frame(s0.value_seq()[i], s1.value_seq()[i]));
    }
    assert(set_members(s1.value_seq()) =~= set_members(s0.value_seq()));
}

/// The sum of a sequence of numbers.
pub open spec fn seq_sum(s: Seq<nat>) -> nat
    decreases s.len(),
{
    if s.len() == 0 {
        0
    } else {
        seq_sum(s.drop_last()) + s.last()
    }
}

/// Changing one number of a sequence changes the sum by as much.
pub proof fn lemma_sum_update(s: Seq<nat>, k: int, v: nat)
    requires
        0 <= k < s.len(),
    ensures
        seq_sum(s.update(k, v)) + s[k] == seq_sum(s) + v,
    decreases s.len(),
{
    if k == s.len() - 1 {
        assert(s.update(k, v).drop_last() =~= s.drop_last());
    } else {
        lemma_sum_update(s.drop_last(), k, v);
        assert(s.update(k, v).drop_last() =~= s.drop_last().update(k, v));
    }
}

/// The number of powers whose redirects have not been followed.
pub open spec fn pending_redirects(m: Marks) -> nat {
    seq_sum(
        Seq::new(
            m.powers.len(),
            |i: int|
                if m.powers[i].redirects_resolved {
                    0nat
                } else {
                    1nat
                },
        ),
    )
}

/// The number of parameters of an effect group that have not been followed.
pub open spec fn pending_in_group(g: Seq<ParamMarks>) -> nat {
    seq_sum(
        Seq::new(
            g.len(),
            |t: int|
                if g[t].resolved {
                    0nat
                } else {
                    1nat
                },
        ),
    )
}

/// The number of parameters of a power that have not been followed.
pub open spec fn pending_in_power(p: PowerMarks) -> nat {
    seq_sum(Seq::new(p.params.len(), |g: int| pending_in_group(p.params[g])))
}

/// The number of effect parameters that have not been followed.
pub open spec fn pending_params(m: Marks) -> nat {
    seq_sum(Seq::new(m.powers.len(), |i: int| pending_in_power(m.powers[i])))
}

/// Marking a power changes no latch.
pub proof fn lemma_mark_keeps_latches(
    names: Names,
    m: Marks,
    target: Seq<char>,
    inherit: Seq<ArchetypeRef>,
)
    ensures
        mark(names, m, target, inherit).cats.len() == m.cats.len(),
        mark(names, m, target, inherit).sets.len() == m.sets.len(),
        mark(names, m, target, inherit).powers.len() == m.powers.len(),
        forall|p: int|
            0 <= p < m.powers.len() ==> {
                let n = #[trigger] mark(names, m, target, inherit).powers[p];
                n.redirects_resolved == m.powers[p].redirects_resolved && n.params
                    == m.powers[p].params
            },
        pending_redirects(mark(names, m, target, inherit)) == pending_redirects(m),
        pending_params(mark(names, m, target, inherit)) == pending_params(m),
{
    let n = mark(names, m, target, inherit);
    assert(Seq::new(
        n.powers.len(),
        |i: int|
            if n.powers[i].redirects_resolved {
                0nat
            } else {
                1nat
            },
    ) =~= Seq::new(
        m.powers.len(),
        |i: int|
            if m.powers[i].redirects_resolved {
                0nat
            } else {
                1nat
            },
    ));
    assert(Seq::new(n.powers.len(), |i: int| pending_in_power(n.powers[i])) =~= Seq::new(
        m.powers.len(),
        |i: int| pending_in_power(m.powers[i]),
    ));
}

/// Marking any number of powers changes no latch.
pub proof fn lemma_mark_each_keeps_latches(
    names: Names,
    m: Marks,
    targets: Seq<Option<Seq<char>>>,
    inherit: Seq<ArchetypeRef>,
)
    ensures
        mark_each(names, m, targets, inherit).cats.len() == m.cats.len(),
        mark_each(names, m, targets, inherit).sets.len() == m.sets.len(),
        mark_each(names, m, targets, inherit).powers.len() == m.powers.len(),
        forall|p: int|
            0 <= p < m.powers.len() ==> {
                let n = #[trigger] mark_each(names, m, targets, inherit).powers[p];
                n.redirects_resolved == m.powers[p].redirects_resolved && n.params
                    == m.powers[p].params
            },
        pending_redirects(mark_each(names, m, targets, inherit)) == pending_redirects(m),
        pending_params(mark_each(names, m, targets, inherit)) == pending_params(m),
    decreases targets.len(),
{
    if targets.len() > 0 {
        lemma_mark_each_keeps_latches(names, m, targets.drop_last(), inherit);
        let before = mark_each(names, m, targets.drop_last(), inherit);
        match targets.last() {
            Some(t) => {
                lemma_mark_keeps_latches(names, before, t, inherit);
            },
            None => {},
        }
    }
}

} // verus!
