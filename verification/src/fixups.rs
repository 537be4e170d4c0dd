//! What is set right in the powers once everything is resolved: the powers
//! of some categories are free, and temporary powers take no enhancements.
//! And, before anything is resolved, the categories of enhancement sets that
//! each power accepts.

use vstd::prelude::*;
use vstd::string::*;
use crate::cascade::{cat_holds_power, held_in_first, listed_in_first, lists};
use crate::enums::PowerType;
use crate::keyed::{lemma_position_unique, Keyed};
use crate::namekey::{opt_text, same_key, NameKey};
use crate::structs::{BasePower, BasePowerSet, BoostSet, PowerCategory};
use crate::text::{opt_str, strings};

verus! {

/// The power accepts enhancement sets of the category.
pub open spec fn allows(p: BasePower, category: Seq<char>) -> bool {
    strings(p.enhancement_set_categories_allowed@).contains(category)
}

/// One of the first `upto` powers that the enhancement set names is the
/// power with the given key.
pub open spec fn accepts(b: BoostSet, key: Seq<char>, upto: int) -> bool {
    exists|k: int|
        0 <= k < upto && k < b.ppch_powers@.len() && same_key(key, (#[trigger] b.ppch_powers@[k])@)
}

/// One of the first `upto` enhancement sets is of the category and names
/// the power with the given key.
pub open spec fn enhanced_by(boosts: Seq<BoostSet>, key: Seq<char>, category: Seq<char>, upto: int) -> bool {
    exists|b: int|
        0 <= b < upto && b < boosts.len() && (#[trigger] boosts[b]).pch_group_name is Some
            && boosts[b].pch_group_name->0@ == category && accepts(
            boosts[b],
            key,
            boosts[b].ppch_powers@.len() as int,
        )
}

/// The powers are as they were, but that each accepts, besides the
/// categories that it accepted, the category of every enhancement set that
/// names it. Where no category occurred twice before, none does now.
pub open spec fn enhancements_matched(
    o: Keyed<BasePower>,
    n: Keyed<BasePower>,
    boosts: Seq<BoostSet>,
) -> bool {
    &&& n.key_seq() == o.key_seq()
    &&& n.value_seq().len() == o.value_seq().len()
    &&& forall|i: int|
        0 <= i < o.value_seq().len() ==> {
            let was = o.value_seq()[i];
            let is = #[trigger] n.value_seq()[i];
            &&& is == (BasePower {
                enhancement_set_categories_allowed: is.enhancement_set_categories_allowed,
                ..was
            })
            &&& strings(was.enhancement_set_categories_allowed@).no_duplicates() ==> strings(
                is.enhancement_set_categories_allowed@,
            ).no_duplicates()
        }
    &&& forall|i: int, category: Seq<char>|
        0 <= i < o.value_seq().len() ==> (#[trigger] allows(n.value_seq()[i], category) <==> allows(
            o.value_seq()[i],
            category,
        ) || enhanced_by(boosts, o.key_seq()[i], category, boosts.len() as int))
}

/// Puts a text into a list of texts, unless the list has it.
fn insert_unique(list: &mut Vec<String>, item: &String)
    ensures
        strings(final(list)@) == if strings(old(list)@).contains(item@) {
            strings(old(list)@)
        } else {
            strings(old(list)@).push(item@)
        },
{
    let mut k: usize = 0;
    while k < list.len()
        invariant
            k <= list.len(),
            *list == *old(list),
            forall|j: int| 0 <= j < k ==> strings(list@)[j] != item@,
        decreases list.len() - k,
    {
        assert(strings(list@)[k as int] == list@[k as int]@);
        if list[k] == *item {
            return ;
        }
        k += 1;
    }
    let ghost before = strings(list@);
    list.push(item.clone());
    assert(strings(list@) =~= before.push(item@));
}

/// Goes through all of the enhancement sets and tags the powers that can
/// be enhanced by them with the category of the set. An enhancement set
/// without a category tags nothing, and a power that the table does not
/// have is passed over.
pub fn match_enh_categories_to_powers(boost_sets: &Keyed<BoostSet>, powers: &mut Keyed<BasePower>)
    requires
        boost_sets.wf(),
        old(powers).wf(),
    ensures
        final(powers).wf(),
        enhancements_matched(*old(powers), *final(powers), boost_sets.value_seq()),
{
    let ghost boosts = boost_sets.value_seq();
    let ghost keys = old(powers).key_seq();
    let ghost np = old(powers).value_seq().len() as int;
    let nb = boost_sets.len();
    let mut b: usize = 0;
    while b < nb
        invariant
            b <= nb,
            nb == boosts.len(),
            boosts == boost_sets.value_seq(),
            keys == old(powers).key_seq(),
            np == old(powers).value_seq().len(),
            powers.wf(),
            powers.key_seq() == keys,
            powers.value_seq().len() == np,
            forall|i: int|
                0 <= i < np ==> {
                    let was = old(powers).value_seq()[i];
                    let is = #[trigger] powers.value_seq()[i];
                    &&& is == (BasePower {
                        enhancement_set_categories_allowed: is.enhancement_set_categories_allowed,
                        ..was
                    })
                    &&& strings(was.enhancement_set_categories_allowed@).no_duplicates()
                        ==> strings(is.enhancement_set_categories_allowed@).no_duplicates()
                },
            forall|i: int, category: Seq<char>|
                0 <= i < np ==> (#[trigger] allows(powers.value_seq()[i], category) <==> allows(
                    old(powers).value_seq()[i],
                    category,
                ) || enhanced_by(boosts, keys[i], category, b as int)),
        decreases nb - b,
    {
        let boost_set = boost_sets.value(b);
        let ghost start = powers.value_seq();
        match &boost_set.pch_group_name {
            Some(category_name) => {
                let names = boost_set.ppch_powers.len();
                let mut k: usize = 0;
                while k < names
                    invariant
                        k <= names,
                        b < nb,
                        nb == boosts.len(),
                        names == boost_set.ppch_powers@.len(),
                        *boost_set == boosts[b as int],
                        boost_set.pch_group_name == Some(*category_name),
                        keys == old(powers).key_seq(),
                        np == old(powers).value_seq().len(),
                        powers.wf(),
                        powers.key_seq() == keys,
                        powers.value_seq().len() == np,
                        forall|i: int|
                            0 <= i < np ==> {
                                let was = old(powers).value_seq()[i];
                                let is = #[trigger] powers.value_seq()[i];
                                &&& is == (BasePower {
                                    enhancement_set_categories_allowed:
                                        is.enhancement_set_categories_allowed,
                                    ..was
                                })
                                &&& strings(was.enhancement_set_categories_allowed@).no_duplicates()
                                    ==> strings(
                                    is.enhancement_set_categories_allowed@,
                                ).no_duplicates()
                            },
                        forall|i: int, category: Seq<char>|
                            0 <= i < np ==> (#[trigger] allows(powers.value_seq()[i], category)
                                <==> allows(start[i], category) || (category == category_name@
                                && accepts(*boost_set, keys[i], k as int))),
                    decreases names - k,
                {
                    let ghost before = powers.value_seq();
                    let ghost name = boost_set.ppch_powers@[k as int]@;
                    let found = powers.find(&boost_set.ppch_powers[k]);
                    match found {
                        Some(p) => {
                            let power = powers.value_mut(p);
                            insert_unique(
                                &mut power.enhancement_set_categories_allowed,
                                category_name,
                            );
                        },
                        None => {},
                    }
                    proof {
                        assert forall|i: int, category: Seq<char>| 0 <= i < np implies (
                        #[trigger] allows(powers.value_seq()[i], category) <==> allows(
                            start[i],
                            category,
                        ) || (category == category_name@ && accepts(*boost_set, keys[i], k + 1))) by {
                            assert(allows(before[i], category) <==> allows(start[i], category) || (
                            category == category_name@ && accepts(*boost_set, keys[i], k as int)));
                            if accepts(*boost_set, keys[i], k as int) {
                                assert(accepts(*boost_set, keys[i], k + 1));
                            }
                            if same_key(keys[i], name) {
                                assert(same_key(keys[i], boost_set.ppch_powers@[k as int]@));
                                assert(accepts(*boost_set, keys[i], k + 1));
                                lemma_position_unique(keys, name, i);
                            }
                            if accepts(*boost_set, keys[i], k + 1) && !accepts(
                                *boost_set,
                                keys[i],
                                k as int,
                            ) {
                                let j = choose|j: int|
                                    0 <= j < k + 1 && j < boost_set.ppch_powers@.len() && same_key(
                                        keys[i],
                                        (#[trigger] boost_set.ppch_powers@[j])@,
                                    );
                                assert(j == k);
                            }
                            if found is Some && i == found->0 {
                                let was = strings(before[i].enhancement_set_categories_allowed@);
                                let is = strings(
                                    powers.value_seq()[i].enhancement_set_categories_allowed@,
                                );
                                if !was.contains(category_name@) {
                                    assert(is.last() == category_name@);
                                    assert(is.drop_last() =~= was);
                                    if was.contains(category) {
                                        let j = choose|j: int|
                                            0 <= j < was.len() && was[j] == category;
                                        assert(is[j] == category);
                                    }
                                }
                            }
                        }
                    }
                    k += 1;
                }
                proof {
                    assert forall|i: int, category: Seq<char>| 0 <= i < np implies (
                    #[trigger] allows(powers.value_seq()[i], category) <==> allows(
                        old(powers).value_seq()[i],
                        category,
                    ) || enhanced_by(boosts, keys[i], category, b + 1)) by {
                        assert(allows(start[i], category) <==> allows(
                            old(powers).value_seq()[i],
                            category,
                        ) || enhanced_by(boosts, keys[i], category, b as int));
                        if enhanced_by(boosts, keys[i], category, b as int) {
                            assert(enhanced_by(boosts, keys[i], category, b + 1));
                        }
                        if category == category_name@ && accepts(*boost_set, keys[i], names as int) {
                            assert(boosts[b as int].pch_group_name is Some);
                            assert(enhanced_by(boosts, keys[i], category, b + 1));
                        }
                        if enhanced_by(boosts, keys[i], category, b + 1) && !enhanced_by(
                            boosts,
                            keys[i],
                            category,
                            b as int,
                        ) {
                            let j = choose|j: int|
                                0 <= j < b + 1 && j < boosts.len() && (
                                #[trigger] boosts[j]).pch_group_name is Some
                                    && boosts[j].pch_group_name->0@ == category && accepts(
                                    boosts[j],
                                    keys[i],
                                    boosts[j].ppch_powers@.len() as int,
                                );
                            assert(j == b);
                        }
                    }
                }
            },
            None => {
                proof {
                    assert forall|i: int, category: Seq<char>| 0 <= i < np implies (
                    #[trigger] allows(powers.value_seq()[i], category) <==> allows(
                        old(powers).value_seq()[i],
                        category,
                    ) || enhanced_by(boosts, keys[i], category, b + 1)) by {
                        if enhanced_by(boosts, keys[i], category, b as int) {
                            assert(enhanced_by(boosts, keys[i], category, b + 1));
                        }
                        if enhanced_by(boosts, keys[i], category, b + 1) && !enhanced_by(
                            boosts,
                            keys[i],
                            category,
                            b as int,
                        ) {
                            let j = choose|j: int|
                                0 <= j < b + 1 && j < boosts.len() && (
                                #[trigger] boosts[j]).pch_group_name is Some
                                    && boosts[j].pch_group_name->0@ == category && accepts(
                                    boosts[j],
                                    keys[i],
                                    boosts[j].ppch_powers@.len() as int,
                                );
                            assert(j == b);
                        }
                    }
                }
            },
        }
        b += 1;
    }
}

/// What the name of a category says of its powers.
#[derive(Clone, Copy, Debug, PartialEq, Eq, Structural)]
pub struct CategoryKind {
    pub prestige: bool,
    pub inherent: bool,
    pub incarnate: bool,
    pub temporary: bool,
}

/// What is to be set right in a power.
pub struct Fixes {
    /// The power is free.
    pub free: bool,
    /// The level at which the power counts as bought is zero.
    pub level_zero: bool,
    /// The power is given away automatically.
    pub auto_issue: bool,
    /// The power takes no enhancements.
    pub temporary: bool,
}

/// The name is the same key as the word.
pub open spec fn named(name: Option<Seq<char>>, word: Seq<char>) -> bool {
    name is Some && same_key(name->0, word)
}

/// What the name of a category says of its powers.
pub open spec fn kind_of(name: Option<Seq<char>>) -> CategoryKind {
    CategoryKind {
        prestige: named(name, "Prestige"@),
        inherent: named(name, "Inherent"@),
        incarnate: named(name, "Incarnate"@),
        temporary: named(name, "Temporary_Powers"@),
    }
}

/// What is to be set right in a power of the given name that a category
/// of the given kind holds. Each rule holds by itself:
/// - prestige powers are free and bought at level zero;
/// - inherent powers (those of the inherent category, and any power whose
///   own name is `Inherent`) are free and given away automatically;
/// - incarnate powers are free;
/// - temporary powers are free and take no enhancements.
pub open spec fn fixes_for(kind: CategoryKind, power_name: Option<Seq<char>>) -> Fixes {
    let inherent = kind.inherent || power_name == Some("Inherent"@);
    Fixes {
        free: kind.prestige || inherent || kind.incarnate || kind.temporary,
        level_zero: kind.prestige,
        auto_issue: inherent,
        temporary: kind.temporary,
    }
}

/// Nothing to be set right.
pub open spec fn no_fixes() -> Fixes {
    Fixes { free: false, level_zero: false, auto_issue: false, temporary: false }
}

/// What either asks for.
pub open spec fn both_fixes(a: Fixes, b: Fixes) -> Fixes {
    Fixes {
        free: a.free || b.free,
        level_zero: a.level_zero || b.level_zero,
        auto_issue: a.auto_issue || b.auto_issue,
        temporary: a.temporary || b.temporary,
    }
}

/// The type of power is one of the two kinds of enhancement.
pub open spec fn is_boost(t: PowerType) -> bool {
    t == PowerType::kPowerType_Boost || t == PowerType::kPowerType_GlobalBoost
}

/// A power is as it was, but for what was set right: a free power is free;
/// a temporary power can hold no enhancement, and accepts none unless it is
/// an enhancement itself.
pub open spec fn fixed(was: BasePower, is: BasePower, f: Fixes) -> bool {
    &&& is == (BasePower {
        b_free: was.b_free || f.free,
        i_force_level_bought: if f.level_zero {
            0
        } else {
            was.i_force_level_bought
        },
        b_auto_issue: was.b_auto_issue || f.auto_issue,
        i_max_boosts: if f.temporary {
            0
        } else {
            was.i_max_boosts
        },
        pe_boosts_allowed: is.pe_boosts_allowed,
        ..was
    })
    &&& is.pe_boosts_allowed@ == if f.temporary && !is_boost(was.e_type) {
        Seq::empty()
    } else {
        was.pe_boosts_allowed@
    }
}

/// What is to be set right in the power `p`: what each of the first `c`
/// categories asks for that is at the top level and holds the power.
pub open spec fn fixes_of_power(
    cats: Seq<PowerCategory>,
    sets: Seq<BasePowerSet>,
    power_name: Option<Seq<char>>,
    p: int,
    c: nat,
) -> Fixes
    decreases c,
{
    if c == 0 {
        no_fixes()
    } else {
        let before = fixes_of_power(cats, sets, power_name, p, (c - 1) as nat);
        if cats[c - 1].top_level && cat_holds_power(cats[c - 1], sets, p) {
            both_fixes(before, fixes_for(kind_of(opt_text(cats[c - 1].pch_name)), power_name))
        } else {
            before
        }
    }
}

/// The powers are as they were, but for what the top-level categories that
/// hold them ask to be set right.
pub open spec fn hierarchy_fixed(
    cats: Keyed<PowerCategory>,
    sets: Keyed<BasePowerSet>,
    o: Keyed<BasePower>,
    n: Keyed<BasePower>,
) -> bool {
    &&& n.key_seq() == o.key_seq()
    &&& n.value_seq().len() == o.value_seq().len()
    &&& forall|p: int|
        0 <= p < o.value_seq().len() ==> fixed(
            o.value_seq()[p],
            #[trigger] n.value_seq()[p],
            fixes_of_power(
                cats.value_seq(),
                sets.value_seq(),
                opt_str(o.value_seq()[p].pch_name),
                p,
                cats.value_seq().len(),
            ),
        )
}

/// What the name of a category says of its powers.
pub fn category_kind(name: &Option<NameKey>) -> (kind: CategoryKind)
    ensures
        kind == kind_of(opt_text(*name)),
{
    match name {
        Some(name) => CategoryKind {
            prestige: name.eq_key(&NameKey::new("Prestige")),
            inherent: name.eq_key(&NameKey::new("Inherent")),
            incarnate: name.eq_key(&NameKey::new("Incarnate")),
            temporary: name.eq_key(&NameKey::new("Temporary_Powers")),
        },
        None => CategoryKind {
            prestige: false,
            inherent: false,
            incarnate: false,
            temporary: false,
        },
    }
}

/// Sets right in one power what a category of the given kind asks for.
fn fix_power(power: &mut BasePower, kind: CategoryKind)
    ensures
        fixed(*old(power), *final(power), fixes_for(kind, opt_str(old(power).pch_name))),
{
    let own_name_is_inherent = match &power.pch_name {
        Some(name) => {
            let word = String::from_str("Inherent");
            *name == word
        },
        None => false,
    };
    // All prestige, inherent, and incarnate powers are free.
    if kind.prestige {
        power.b_free = true;
        power.i_force_level_bought = 0;
    }
    if kind.inherent || own_name_is_inherent {
        power.b_free = true;
        power.b_auto_issue = true;
    }
    if kind.incarnate {
        power.b_free = true;
    }
    // Temporary powers cannot be slotted, so they hold no enhancement and
    // accept none. Temporary powers are also free.
    if kind.temporary {
        power.b_free = true;
        power.i_max_boosts = 0;
        match power.e_type {
            PowerType::kPowerType_Boost | PowerType::kPowerType_GlobalBoost => {},
            _ => {
                power.pe_boosts_allowed.clear();
            },
        }
    }
}

/// Sets right the powers of a list of positions.
fn fix_set_powers(members: &Vec<usize>, kind: CategoryKind, powers: &mut Keyed<BasePower>)
    requires
        old(powers).wf(),
    ensures
        final(powers).wf(),
        final(powers).key_seq() == old(powers).key_seq(),
        final(powers).value_seq().len() == old(powers).value_seq().len(),
        forall|p: int|
            0 <= p < old(powers).value_seq().len() ==> if lists(members@, p) {
                fixed(
                    old(powers).value_seq()[p],
                    #[trigger] final(powers).value_seq()[p],
                    fixes_for(kind, opt_str(old(powers).value_seq()[p].pch_name)),
                )
            } else {
                final(powers).value_seq()[p] == old(powers).value_seq()[p]
            },
{
    let n = powers.len();
    let mut b: usize = 0;
    while b < members.len()
        invariant
            b <= members.len(),
            n == old(powers).value_seq().len(),
            powers.wf(),
            powers.key_seq() == old(powers).key_seq(),
            powers.value_seq().len() == n,
            forall|p: int|
                0 <= p < n ==> if listed_in_first(members@, p, b as int) {
                    fixed(
                        old(powers).value_seq()[p],
                        #[trigger] powers.value_seq()[p],
                        fixes_for(kind, opt_str(old(powers).value_seq()[p].pch_name)),
                    )
                } else {
                    powers.value_seq()[p] == old(powers).value_seq()[p]
                },
        decreases members.len() - b,
    {
        let p = members[b];
        if p < n {
            let power = powers.value_mut(p);
            fix_power(power, kind);
        }
        proof {
            assert forall|q: int| 0 <= q < n implies if listed_in_first(members@, q, b + 1) {
                fixed(
                    old(powers).value_seq()[q],
                    #[trigger] powers.value_seq()[q],
                    fixes_for(kind, opt_str(old(powers).value_seq()[q].pch_name)),
                )
            } else {
                powers.value_seq()[q] == old(powers).value_seq()[q]
            } by {
                if listed_in_first(members@, q, b as int) {
                    assert(listed_in_first(members@, q, b + 1));
                }
                if q == p {
                    assert(members@[b as int] == q);
                    assert(listed_in_first(members@, q, b + 1));
                }
                if listed_in_first(members@, q, b + 1) && !listed_in_first(members@, q, b as int) {
                    let k = choose|k: int|
                        0 <= k < b + 1 && k < members@.len() && #[trigger] members@[k] == q;
                    assert(k == b);
                }
            }
        }
        b += 1;
    }
}

/// Sets right the powers of every power set of a list of positions.
fn fix_category_sets(
    set_list: &Vec<usize>,
    kind: CategoryKind,
    power_sets: &Keyed<BasePowerSet>,
    powers: &mut Keyed<BasePower>,
)
    requires
        power_sets.wf(),
        old(powers).wf(),
    ensures
        final(powers).wf(),
        final(powers).key_seq() == old(powers).key_seq(),
        final(powers).value_seq().len() == old(powers).value_seq().len(),
        forall|p: int|
            0 <= p < old(powers).value_seq().len() ==> if held_in_first(
                set_list@,
                power_sets.value_seq(),
                p,
                set_list@.len() as int,
            ) {
                fixed(
                    old(powers).value_seq()[p],
                    #[trigger] final(powers).value_seq()[p],
                    fixes_for(kind, opt_str(old(powers).value_seq()[p].pch_name)),
                )
            } else {
                final(powers).value_seq()[p] == old(powers).value_seq()[p]
            },
{
    let ns = power_sets.len();
    let ghost sets = power_sets.value_seq();
    let ghost np = powers.value_seq().len() as int;
    let mut a: usize = 0;
    while a < set_list.len()
        invariant
            a <= set_list.len(),
            ns == sets.len(),
            sets == power_sets.value_seq(),
            np == old(powers).value_seq().len(),
            power_sets.wf(),
            powers.wf(),
            powers.key_seq() == old(powers).key_seq(),
            powers.value_seq().len() == np,
            forall|p: int|
                0 <= p < np ==> if held_in_first(set_list@, sets, p, a as int) {
                    fixed(
                        old(powers).value_seq()[p],
                        #[trigger] powers.value_seq()[p],
                        fixes_for(kind, opt_str(old(powers).value_seq()[p].pch_name)),
                    )
                } else {
                    powers.value_seq()[p] == old(powers).value_seq()[p]
                },
        decreases set_list.len() - a,
    {
        let s = set_list[a];
        let ghost before = powers.value_seq();
        if s < ns {
            fix_set_powers(&power_sets.value(s).pp_powers, kind, powers);
        }
        proof {
            assert forall|q: int| 0 <= q < np implies if held_in_first(set_list@, sets, q, a + 1) {
                fixed(
                    old(powers).value_seq()[q],
                    #[trigger] powers.value_seq()[q],
                    fixes_for(kind, opt_str(old(powers).value_seq()[q].pch_name)),
                )
            } else {
                powers.value_seq()[q] == old(powers).value_seq()[q]
            } by {
                if held_in_first(set_list@, sets, q, a as int) {
                    assert(held_in_first(set_list@, sets, q, a + 1));
                }
                if s < ns && lists(sets[s as int].pp_powers@, q) {
                    assert(set_list@[a as int] < sets.len());
                    assert(held_in_first(set_list@, sets, q, a + 1));
                }
                if held_in_first(set_list@, sets, q, a + 1) && !held_in_first(
                    set_list@,
                    sets,
                    q,
                    a as int,
                ) {
                    let k = choose|k: int|
                        0 <= k < a + 1 && k < set_list@.len() && (#[trigger] set_list@[k])
                            < sets.len() && lists(sets[set_list@[k] as int].pp_powers@, q);
                    assert(k == a);
                }
                assert(before[q].pch_name == old(powers).value_seq()[q].pch_name);
                assert(before[q].e_type == old(powers).value_seq()[q].e_type);
            }
        }
        a += 1;
    }
}

/// Runs a few fix-ups on the powers that the top-level categories hold.
/// This is always to be called last.
pub fn fix_data_in_power_hierarchy(
    power_categories: &Keyed<PowerCategory>,
    power_sets: &Keyed<BasePowerSet>,
    powers: &mut Keyed<BasePower>,
)
    requires
        power_categories.wf(),
        power_sets.wf(),
        old(powers).wf(),
    ensures
        final(powers).wf(),
        hierarchy_fixed(*power_categories, *power_sets, *old(powers), *final(powers)),
{
    let nc = power_categories.len();
    let ghost cats = power_categories.value_seq();
    let ghost sets = power_sets.value_seq();
    let ghost np = powers.value_seq().len() as int;
    let mut c: usize = 0;
    while c < nc
        invariant
            c <= nc,
            nc == cats.len(),
            cats == power_categories.value_seq(),
            sets == power_sets.value_seq(),
            np == old(powers).value_seq().len(),
            power_categories.wf(),
            power_sets.wf(),
            powers.wf(),
            powers.key_seq() == old(powers).key_seq(),
            powers.value_seq().len() == np,
            forall|p: int|
                0 <= p < np ==> fixed(
                    old(powers).value_seq()[p],
                    #[trigger] powers.value_seq()[p],
                    fixes_of_power(
                        cats,
                        sets,
                        opt_str(old(powers).value_seq()[p].pch_name),
                        p,
                        c as nat,
                    ),
                ),
        decreases nc - c,
    {
        let pcat = power_categories.value(c);
        let ghost before = powers.value_seq();
        if pcat.top_level {
            let kind = category_kind(&pcat.pch_name);
            fix_category_sets(&pcat.pp_power_sets, kind, power_sets, powers);
        }
        proof {
            assert forall|p: int| 0 <= p < np implies fixed(
                old(powers).value_seq()[p],
                #[trigger] powers.value_seq()[p],
                fixes_of_power(
                    cats,
                    sets,
                    opt_str(old(powers).value_seq()[p].pch_name),
                    p,
                    (c + 1) as nat,
                ),
            ) by {
                assert(fixed(
                    old(powers).value_seq()[p],
                    before[p],
                    fixes_of_power(
                        cats,
                        sets,
                        opt_str(old(powers).value_seq()[p].pch_name),
                        p,
                        c as nat,
                    ),
                ));
            }
        }
        c += 1;
    }
}

/// What a top-level category that holds a power asks for is among what is
/// set right in the power, once all categories are looked at.
proof fn lemma_fixes_hold(
    cats: Seq<PowerCategory>,
    sets: Seq<BasePowerSet>,
    power_name: Option<Seq<char>>,
    p: int,
    c: int,
    upto: nat,
)
    requires
        0 <= c < upto <= cats.len(),
        cats[c].top_level,
        cat_holds_power(cats[c], sets, p),
    ensures
        ({
            let all = fixes_of_power(cats, sets, power_name, p, upto);
            let own = fixes_for(kind_of(opt_text(cats[c].pch_name)), power_name);
            &&& own.free ==> all.free
            &&& own.level_zero ==> all.level_zero
            &&& own.auto_issue ==> all.auto_issue
            &&& own.temporary ==> all.temporary
        }),
    decreases upto,
{
    if c < upto - 1 {
        lemma_fixes_hold(cats, sets, power_name, p, c, (upto - 1) as nat);
    }
}

/// Each rule of the fix-ups holds by itself of every power that a
/// top-level category holds, whatever other categories hold the power:
/// - in the category `Prestige` the power is free and bought at level zero;
/// - in the category `Inherent`, or where the power's own name is
///   `Inherent`, it is free and given away automatically;
/// - in the category `Incarnate` it is free;
/// - in the category `Temporary_Powers` it is free and can hold no
///   enhancement, and it accepts none unless it is an enhancement itself.
pub proof fn law_fixups_hold_each_by_itself(
    cats: Keyed<PowerCategory>,
    sets: Keyed<BasePowerSet>,
    o: Keyed<BasePower>,
    n: Keyed<BasePower>,
    c: int,
    p: int,
)
    requires
        hierarchy_fixed(cats, sets, o, n),
        0 <= c < cats.value_seq().len(),
        0 <= p < o.value_seq().len(),
        cats.value_seq()[c].top_level,
        cat_holds_power(cats.value_seq()[c], sets.value_seq(), p),
    ensures
        ({
            let kind = kind_of(opt_text(cats.value_seq()[c].pch_name));
            let was = o.value_seq()[p];
            let is = n.value_seq()[p];
            &&& kind.prestige ==> is.b_free && is.i_force_level_bought == 0
            &&& kind.inherent || opt_str(was.pch_name) == Some("Inherent"@) ==> is.b_free
                && is.b_auto_issue
            &&& kind.incarnate ==> is.b_free
            &&& kind.temporary ==> is.b_free && is.i_max_boosts == 0 && (!is_boost(was.e_type)
                ==> is.pe_boosts_allowed@.len() == 0)
        }),
{
    lemma_fixes_hold(
        cats.value_seq(),
        sets.value_seq(),
        opt_str(o.value_seq()[p].pch_name),
        p,
        c,
        cats.value_seq().len(),
    );
    assert(fixed(
        o.value_seq()[p],
        n.value_seq()[p],
        fixes_of_power(
            cats.value_seq(),
            sets.value_seq(),
            opt_str(o.value_seq()[p].pch_name),
            p,
            cats.value_seq().len(),
        ),
    ));
}

} // verus!
