//! Including what the top-level categories hold.

use vstd::prelude::*;
use crate::keyed::Keyed;
use crate::resolve::clone_refs;
use crate::structs::{ArchetypeRef, BasePower, BasePowerSet, PowerCategory};

verus! {

/// One of the first `a` positions of the list is `x`.
pub open spec fn listed_in_first(list: Seq<usize>, x: int, a: int) -> bool {
    exists|k: int| 0 <= k < a && k < list.len() && #[trigger] list[k] == x
}

/// The list of positions holds `x`.
pub open spec fn lists(list: Seq<usize>, x: int) -> bool {
    listed_in_first(list, x, list.len() as int)
}

/// One of the first `b` positions of the list is a position of a table of
/// `n` records.
pub open spec fn live_in_first(list: Seq<usize>, n: int, b: int) -> bool {
    exists|k: int| 0 <= k < b && k < list.len() && (#[trigger] list[k]) < n
}

/// The power set has a power in a table of `n` powers.
pub open spec fn set_live(set: BasePowerSet, n: int) -> bool {
    live_in_first(set.pp_powers@, n, set.pp_powers@.len() as int)
}

/// One of the first `a` power sets of the list has the power `p`.
pub open spec fn held_in_first(set_list: Seq<usize>, sets: Seq<BasePowerSet>, p: int, a: int) -> bool {
    exists|k: int|
        0 <= k < a && k < set_list.len() && (#[trigger] set_list[k]) < sets.len() && lists(
            sets[set_list[k] as int].pp_powers@,
            p,
        )
}

/// One of the power sets of the category has the power `p`.
pub open spec fn cat_holds_power(cat: PowerCategory, sets: Seq<BasePowerSet>, p: int) -> bool {
    held_in_first(cat.pp_power_sets@, sets, p, cat.pp_power_sets@.len() as int)
}

/// One of the first `a` power sets of the list has a power in a table of
/// `n` powers.
pub open spec fn any_live_in_first(
    set_list: Seq<usize>,
    sets: Seq<BasePowerSet>,
    n: int,
    a: int,
) -> bool {
    exists|k: int|
        0 <= k < a && k < set_list.len() && (#[trigger] set_list[k]) < sets.len() && set_live(
            sets[set_list[k] as int],
            n,
        )
}

/// The category has a power set that has a power.
pub open spec fn cat_live(cat: PowerCategory, sets: Seq<BasePowerSet>, n: int) -> bool {
    any_live_in_first(cat.pp_power_sets@, sets, n, cat.pp_power_sets@.len() as int)
}

/// One of the first `c` categories is at the top level and has the power
/// set `s`.
pub open spec fn set_touched(cats: Seq<PowerCategory>, s: int, c: int) -> bool {
    exists|j: int|
        0 <= j < c && j < cats.len() && (#[trigger] cats[j]).top_level && lists(
            cats[j].pp_power_sets@,
            s,
        )
}

/// The last of the first `c` categories that is at the top level and holds
/// the power `p`, if there is one.
pub open spec fn power_owner(
    cats: Seq<PowerCategory>,
    sets: Seq<BasePowerSet>,
    p: int,
    c: nat,
) -> Option<int>
    decreases c,
{
    if c == 0 {
        None
    } else if cats[c - 1].top_level && cat_holds_power(cats[c - 1], sets, p) {
        Some(c - 1)
    } else {
        power_owner(cats, sets, p, (c - 1) as nat)
    }
}

/// A power is as it was, but that it is included and has the given
/// archetypes as its own.
pub open spec fn power_taken(was: BasePower, is: BasePower, archetypes: Seq<ArchetypeRef>) -> bool {
    &&& is == (BasePower { include_in_output: true, archetypes: is.archetypes, ..was })
    &&& is.archetypes@ == archetypes
}

/// Includes every power of a list of positions, and gives it the
/// archetypes. Returns whether any of them is a power of the table.
fn include_set_powers(
    members: &Vec<usize>,
    archetypes: &Vec<ArchetypeRef>,
    powers: &mut Keyed<BasePower>,
) -> (any: bool)
    requires
        old(powers).wf(),
    ensures
        final(powers).wf(),
        final(powers).key_seq() == old(powers).key_seq(),
        final(powers).value_seq().len() == old(powers).value_seq().len(),
        any == live_in_first(members@, old(powers).value_seq().len() as int, members@.len() as int),
        forall|p: int|
            0 <= p < old(powers).value_seq().len() ==> if lists(members@, p) {
                power_taken(
                    old(powers).value_seq()[p],
                    #[trigger] final(powers).value_seq()[p],
                    archetypes@,
                )
            } else {
                final(powers).value_seq()[p] == old(powers).value_seq()[p]
            },
{
    let n = powers.len();
    let mut any = false;
    let mut b: usize = 0;
    while b < members.len()
        invariant
            b <= members.len(),
            n == old(powers).value_seq().len(),
            powers.wf(),
            powers.key_seq() == old(powers).key_seq(),
            powers.value_seq().len() == n,
            any == live_in_first(members@, n as int, b as int),
            forall|p: int|
                0 <= p < n ==> if listed_in_first(members@, p, b as int) {
                    power_taken(
                        old(powers).value_seq()[p],
                        #[trigger] powers.value_seq()[p],
                        archetypes@,
                    )
                } else {
                    powers.value_seq()[p] == old(powers).value_seq()[p]
                },
        decreases members.len() - b,
    {
        let p = members[b];
        let ghost before = powers.value_seq();
        if p < n {
            let list = clone_refs(archetypes);
            let power = powers.value_mut(p);
            power.include_in_output = true;
            power.archetypes = list;
            any = true;
        }
        proof {
            assert forall|q: int| 0 <= q < n implies if listed_in_first(members@, q, b + 1) {
                power_taken(
                    old(powers).value_seq()[q],
                    #[trigger] powers.value_seq()[q],
                    archetypes@,
                )
            } else {
                powers.value_seq()[q] == old(powers).value_seq()[q]
            } by {
                if listed_in_first(members@, q, b as int) {
                    assert(listed_in_first(members@, q, b + 1));
                }
                if q == p {
                    assert(members@[b as int] == q);
                    assert(listed_in_first(members@, q, b + 1));
                }
                if listed_in_first(members@, q, b + 1) && !listed_in_first(members@, q, b as int) {
                    let k = choose|k: int|
                        0 <= k < b + 1 && k < members@.len() && #[trigger] members@[k] == q;
                    assert(k == b);
                }
            }
            if p < n {
                assert(members@[b as int] < n);
            }
            if live_in_first(members@, n as int, b + 1) && !live_in_first(members@, n as int, b as int) {
                let k = choose|k: int|
                    0 <= k < b + 1 && k < members@.len() && (#[trigger] members@[k]) < n;
                assert(k == b);
            }
        }
        b += 1;
    }
    any
}

/// Includes the powers of every power set of a list of positions, and gives
/// them the archetypes; a power set is included where it has a power.
/// Returns whether any of the power sets is included.
fn include_category_sets(
    set_list: &Vec<usize>,
    archetypes: &Vec<ArchetypeRef>,
    power_sets: &mut Keyed<BasePowerSet>,
    powers: &mut Keyed<BasePower>,
) -> (any: bool)
    requires
        old(power_sets).wf(),
        old(powers).wf(),
    ensures
        final(power_sets).wf(),
        final(powers).wf(),
        final(power_sets).key_seq() == old(power_sets).key_seq(),
        final(powers).key_seq() == old(powers).key_seq(),
        final(power_sets).value_seq().len() == old(power_sets).value_seq().len(),
        final(powers).value_seq().len() == old(powers).value_seq().len(),
        any == any_live_in_first(
            set_list@,
            old(power_sets).value_seq(),
            old(powers).value_seq().len() as int,
            set_list@.len() as int,
        ),
        forall|s: int|
            0 <= s < old(power_sets).value_seq().len() ==> if lists(set_list@, s) {
                #[trigger] final(power_sets).value_seq()[s] == (BasePowerSet {
                    include_in_output: set_live(
                        old(power_sets).value_seq()[s],
                        old(powers).value_seq().len() as int,
                    ),
                    ..old(power_sets).value_seq()[s]
                })
            } else {
                final(power_sets).value_seq()[s] == old(power_sets).value_seq()[s]
            },
        forall|p: int|
            0 <= p < old(powers).value_seq().len() ==> if held_in_first(
                set_list@,
                old(power_sets).value_seq(),
                p,
                set_list@.len() as int,
            ) {
                power_taken(
                    old(powers).value_seq()[p],
                    #[trigger] final(powers).value_seq()[p],
                    archetypes@,
                )
            } else {
                final(powers).value_seq()[p] == old(powers).value_seq()[p]
            },
{
    let ns = power_sets.len();
    let ghost np = powers.value_seq().len() as int;
    let ghost sets0 = old(power_sets).value_seq();
    let mut any = false;
    let mut a: usize = 0;
    while a < set_list.len()
        invariant
            a <= set_list.len(),
            ns == sets0.len(),
            np == old(powers).value_seq().len(),
            sets0 == old(power_sets).value_seq(),
            power_sets.wf(),
            powers.wf(),
            power_sets.key_seq() == old(power_sets).key_seq(),
            powers.key_seq() == old(powers).key_seq(),
            power_sets.value_seq().len() == ns,
            powers.value_seq().len() == np,
            any == any_live_in_first(set_list@, sets0, np, a as int),
            forall|s: int|
                0 <= s < ns ==> if listed_in_first(set_list@, s, a as int) {
                    #[trigger] power_sets.value_seq()[s] == (BasePowerSet {
                        include_in_output: set_live(sets0[s], np),
                        ..sets0[s]
                    })
                } else {
                    power_sets.value_seq()[s] == sets0[s]
                },
            forall|p: int|
                0 <= p < np ==> if held_in_first(set_list@, sets0, p, a as int) {
                    power_taken(
                        old(powers).value_seq()[p],
                        #[trigger] powers.value_seq()[p],
                        archetypes@,
                    )
                } else {
                    powers.value_seq()[p] == old(powers).value_seq()[p]
                },
        decreases set_list.len() - a,
    {
        let s = set_list[a];
        let ghost sets1 = power_sets.value_seq();
        let ghost powers1 = powers.value_seq();
        if s < ns {
            assert(sets1[s as int].pp_powers == sets0[s as int].pp_powers);
            let live = include_set_powers(&power_sets.value(s).pp_powers, archetypes, powers);
            let pset = power_sets.value_mut(s);
            pset.include_in_output = live;
            if live {
                any = true;
            }
        }
        proof {
            assert forall|q: int| 0 <= q < ns implies if listed_in_first(set_list@, q, a + 1) {
                #[trigger] power_sets.value_seq()[q] == (BasePowerSet {
                    include_in_output: set_live(sets0[q], np),
                    ..sets0[q]
                })
            } else {
                power_sets.value_seq()[q] == sets0[q]
            } by {
                if listed_in_first(set_list@, q, a as int) {
                    assert(listed_in_first(set_list@, q, a + 1));
                }
                if q == s {
                    assert(set_list@[a as int] == q);
                    assert(listed_in_first(set_list@, q, a + 1));
                }
                if listed_in_first(set_list@, q, a + 1) && !listed_in_first(set_list@, q, a as int) {
                    let k = choose|k: int|
                        0 <= k < a + 1 && k < set_list@.len() && #[trigger] set_list@[k] == q;
                    assert(k == a);
                }
            }
            assert forall|q: int| 0 <= q < np implies if held_in_first(set_list@, sets0, q, a + 1) {
                power_taken(
                    old(powers).value_seq()[q],
                    #[trigger] powers.value_seq()[q],
                    archetypes@,
                )
            } else {
                powers.value_seq()[q] == old(powers).value_seq()[q]
            } by {
                if held_in_first(set_list@, sets0, q, a as int) {
                    assert(held_in_first(set_list@, sets0, q, a + 1));
                }
                if s < ns && lists(sets0[s as int].pp_powers@, q) {
                    assert(set_list@[a as int] < sets0.len());
                    assert(held_in_first(set_list@, sets0, q, a + 1));
                }
                if held_in_first(set_list@, sets0, q, a + 1) && !held_in_first(
                    set_list@,
                    sets0,
                    q,
                    a as int,
                ) {
                    let k = choose|k: int|
                        0 <= k < a + 1 && k < set_list@.len() && (#[trigger] set_list@[k])
                            < sets0.len() && lists(sets0[set_list@[k] as int].pp_powers@, q);
                    assert(k == a);
                }
            }
            if s < ns && set_live(sets0[s as int], np) {
                assert(set_list@[a as int] < sets0.len());
                assert(any_live_in_first(set_list@, sets0, np, a + 1));
            }
            if any_live_in_first(set_list@, sets0, np, a as int) {
                assert(any_live_in_first(set_list@, sets0, np, a + 1));
            }
            if any_live_in_first(set_list@, sets0, np, a + 1) && !any_live_in_first(
                set_list@,
                sets0,
                np,
                a as int,
            ) {
                let k = choose|k: int|
                    0 <= k < a + 1 && k < set_list@.len() && (#[trigger] set_list@[k]) < sets0.len()
                        && set_live(sets0[set_list@[k] as int], np);
                assert(k == a);
            }
        }
        a += 1;
    }
    any
}

/// The tables are as they were, but for what the top-level categories hold:
/// - every power that a top-level category holds, in one of its power sets,
///   is included and has the archetypes of the last such category as its
///   own;
/// - every power set of a top-level category is included exactly where it
///   has a power;
/// - every top-level category is included exactly where one of its power
///   sets has a power, and where it is not it is no longer at the top level.
/// What no top-level category holds is as it was.
pub open spec fn cascaded(
    c0: Keyed<PowerCategory>,
    s0: Keyed<BasePowerSet>,
    pw0: Keyed<BasePower>,
    c1: Keyed<PowerCategory>,
    s1: Keyed<BasePowerSet>,
    pw1: Keyed<BasePower>,
) -> bool {
    let np = pw0.value_seq().len() as int;
    &&& c1.key_seq() == c0.key_seq()
    &&& s1.key_seq() == s0.key_seq()
    &&& pw1.key_seq() == pw0.key_seq()
    &&& c1.value_seq().len() == c0.value_seq().len()
    &&& s1.value_seq().len() == s0.value_seq().len()
    &&& pw1.value_seq().len() == pw0.value_seq().len()
    &&& forall|c: int|
        0 <= c < c0.value_seq().len() ==> {
            let was = c0.value_seq()[c];
            let is = #[trigger] c1.value_seq()[c];
            if was.top_level {
                is == (PowerCategory {
                    include_in_output: cat_live(was, s0.value_seq(), np),
                    top_level: cat_live(was, s0.value_seq(), np),
                    ..was
                })
            } else {
                is == was
            }
        }
    &&& forall|s: int|
        0 <= s < s0.value_seq().len() ==> {
            let was = s0.value_seq()[s];
            let is = #[trigger] s1.value_seq()[s];
            if set_touched(c0.value_seq(), s, c0.value_seq().len() as int) {
                is == (BasePowerSet { include_in_output: set_live(was, np), ..was })
            } else {
                is == was
            }
        }
    &&& forall|p: int|
        0 <= p < np ==> {
            let was = pw0.value_seq()[p];
            let is = #[trigger] pw1.value_seq()[p];
            match power_owner(c0.value_seq(), s0.value_seq(), p, c0.value_seq().len()) {
                Some(c) => power_taken(was, is, c0.value_seq()[c].archetypes@),
                None => is == was,
            }
        }
}

/// Includes all power sets and powers that the top-level categories hold,
/// and takes from the top level the categories that hold no power.
pub fn include_top_level(
    power_cats: &mut Keyed<PowerCategory>,
    power_sets: &mut Keyed<BasePowerSet>,
    powers: &mut Keyed<BasePower>,
)
    requires
        old(power_cats).wf(),
        old(power_sets).wf(),
        old(powers).wf(),
    ensures
        final(power_cats).wf(),
        final(power_sets).wf(),
        final(powers).wf(),
        cascaded(
            *old(power_cats),
            *old(power_sets),
            *old(powers),
            *final(power_cats),
            *final(power_sets),
            *final(powers),
        ),
{
    let nc = power_cats.len();
    let ghost cats0 = old(power_cats).value_seq();
    let ghost sets0 = old(power_sets).value_seq();
    let ghost powers0 = old(powers).value_seq();
    let ghost ns = sets0.len() as int;
    let ghost np = powers0.len() as int;
    let mut c: usize = 0;
    while c < nc
        invariant
            c <= nc,
            nc == cats0.len(),
            ns == sets0.len(),
            np == powers0.len(),
            cats0 == old(power_cats).value_seq(),
            sets0 == old(power_sets).value_seq(),
            powers0 == old(powers).value_seq(),
            power_cats.wf(),
            power_sets.wf(),
            powers.wf(),
            power_cats.key_seq() == old(power_cats).key_seq(),
            power_sets.key_seq() == old(power_sets).key_seq(),
            powers.key_seq() == old(powers).key_seq(),
            power_cats.value_seq().len() == nc,
            power_sets.value_seq().len() == ns,
            powers.value_seq().len() == np,
            forall|j: int| c <= j < nc ==> #[trigger] power_cats.value_seq()[j] == cats0[j],
            forall|j: int|
                0 <= j < c ==> {
                    let was = cats0[j];
                    let is = #[trigger] power_cats.value_seq()[j];
                    if was.top_level {
                        is == (PowerCategory {
                            include_in_output: cat_live(was, sets0, np),
                            top_level: cat_live(was, sets0, np),
                            ..was
                        })
                    } else {
                        is == was
                    }
                },
            forall|s: int|
                0 <= s < ns ==> {
                    let was = sets0[s];
                    let is = #[trigger] power_sets.value_seq()[s];
                    if set_touched(cats0, s, c as int) {
                        is == (BasePowerSet { include_in_output: set_live(was, np), ..was })
                    } else {
                        is == was
                    }
                },
            forall|p: int|
                0 <= p < np ==> {
                    let was = powers0[p];
                    let is = #[trigger] powers.value_seq()[p];
                    match power_owner(cats0, sets0, p, c as nat) {
                        Some(j) => power_taken(was, is, cats0[j].archetypes@),
                        None => is == was,
                    }
                },
        decreases nc - c,
    {
        let ghost sets1 = power_sets.value_seq();
        let ghost powers1 = powers.value_seq();
        if power_cats.value(c).top_level {
            let pcat = power_cats.value(c);
            let live = include_category_sets(&pcat.pp_power_sets, &pcat.archetypes, power_sets, powers);
            let pcat = power_cats.value_mut(c);
            pcat.include_in_output = live;
            pcat.top_level = live;
            proof {
                let set_list = cats0[c as int].pp_power_sets@;
                assert forall|k: int| 0 <= k < sets1.len() implies (#[trigger] sets1[k]).pp_powers
                    == sets0[k].pp_powers by {}
                assert forall|p: int| 0 <= p < np implies held_in_first(
                    set_list,
                    sets1,
                    p,
                    set_list.len() as int,
                ) == held_in_first(set_list, sets0, p, set_list.len() as int) by {
                    if held_in_first(set_list, sets1, p, set_list.len() as int) {
                        let k = choose|k: int|
                            0 <= k < set_list.len() && k < set_list.len() && (#[trigger] set_list[k])
                                < sets1.len() && lists(sets1[set_list[k] as int].pp_powers@, p);
                        assert(sets1[set_list[k] as int].pp_powers == sets0[set_list[k] as int].pp_powers);
                    }
                    if held_in_first(set_list, sets0, p, set_list.len() as int) {
                        let k = choose|k: int|
                            0 <= k < set_list.len() && k < set_list.len() && (#[trigger] set_list[k])
                                < sets0.len() && lists(sets0[set_list[k] as int].pp_powers@, p);
                        assert(sets1[set_list[k] as int].pp_powers == sets0[set_list[k] as int].pp_powers);
                    }
                }
                if any_live_in_first(set_list, sets1, np, set_list.len() as int) {
                    let k = choose|k: int|
                        0 <= k < set_list.len() && k < set_list.len() && (#[trigger] set_list[k])
                            < sets1.len() && set_live(sets1[set_list[k] as int], np);
                    assert(sets1[set_list[k] as int].pp_powers == sets0[set_list[k] as int].pp_powers);
                    assert(any_live_in_first(set_list, sets0, np, set_list.len() as int));
                }
                if any_live_in_first(set_list, sets0, np, set_list.len() as int) {
                    let k = choose|k: int|
                        0 <= k < set_list.len() && k < set_list.len() && (#[trigger] set_list[k])
                            < sets0.len() && set_live(sets0[set_list[k] as int], np);
                    assert(sets1[set_list[k] as int].pp_powers == sets0[set_list[k] as int].pp_powers);
                    assert(any_live_in_first(set_list, sets1, np, set_list.len() as int));
                }
            }
        }
        proof {
            assert forall|s: int| 0 <= s < ns implies {
                let was = sets0[s];
                let is = #[trigger] power_sets.value_seq()[s];
                if set_touched(cats0, s, c + 1) {
                    is == (BasePowerSet { include_in_output: set_live(was, np), ..was })
                } else {
                    is == was
                }
            } by {
                if set_touched(cats0, s, c as int) {
                    assert(set_touched(cats0, s, c + 1));
                }
                if cats0[c as int].top_level && lists(cats0[c as int].pp_power_sets@, s) {
                    assert(set_touched(cats0, s, c + 1));
                }
                if set_touched(cats0, s, c + 1) && !set_touched(cats0, s, c as int) {
                    let j = choose|j: int|
                        0 <= j < c + 1 && j < cats0.len() && (#[trigger] cats0[j]).top_level && lists(
                            cats0[j].pp_power_sets@,
                            s,
                        );
                    assert(j == c);
                }
                assert(sets1[s].pp_powers == sets0[s].pp_powers);
            }
        }
        c += 1;
    }
}

} // verus!
