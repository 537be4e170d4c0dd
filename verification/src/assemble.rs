//! The steps that put the tables together before references are resolved:
//! which categories are at the top level, which power sets are left out,
//! and the links from categories to power sets and from power sets to
//! powers.

use vstd::prelude::*;
use crate::config::PowersConfig;
use crate::keyed::{has_key, key_position, Keyed};
use crate::marks::seq_sum;
use crate::namekey::{opt_text, partial_match, same_key, texts, NameKey};
use crate::structs::{BasePower, BasePowerSet, PowerCategory};

verus! {

/// Why the tables cannot be merged.
#[derive(Clone, Copy, Debug, PartialEq, Eq, Structural)]
pub enum LoadError {
    /// Categories were configured to be kept, and the table has none of
    /// them: nothing would be put out.
    NoTopLevelCategories,
}

impl LoadError {
    /// What to tell the user.
    pub fn message(&self) -> (s: &'static str)
        ensures
            s@ == "No power categories to work on. Did you filter them all?"@,
    {
        "No power categories to work on. Did you filter them all?"
    }
}

/// The name is the same key as one of the list.
pub open spec fn listed(list: Seq<Seq<char>>, name: Option<Seq<char>>) -> bool {
    name is Some && exists|k: int| 0 <= k < list.len() && same_key(#[trigger] list[k], name->0)
}

/// The number of categories at the top level.
pub open spec fn top_level_count(cats: Seq<PowerCategory>) -> nat {
    seq_sum(
        Seq::new(
            cats.len(),
            |c: int|
                if cats[c].top_level {
                    1nat
                } else {
                    0nat
                },
        ),
    )
}

/// The categories are as they were, but that those which the configuration
/// keeps are at the top level: all of them where it names none, else those
/// that it names. A category that was at the top level stays there.
pub open spec fn top_level_marked(
    o: Keyed<PowerCategory>,
    n: Keyed<PowerCategory>,
    allow: Seq<Seq<char>>,
) -> bool {
    &&& n.key_seq() == o.key_seq()
    &&& n.value_seq().len() == o.value_seq().len()
    &&& forall|c: int|
        0 <= c < o.value_seq().len() ==> {
            let was = o.value_seq()[c];
            let is = #[trigger] n.value_seq()[c];
            &&& is == (PowerCategory { top_level: is.top_level, ..was })
            &&& is.top_level == (allow.len() == 0 || was.top_level || listed(
                allow,
                opt_text(was.pch_name),
            ))
        }
}

/// Whether the name is the same key as one of the list.
pub fn is_listed(list: &Vec<NameKey>, name: &Option<NameKey>) -> (r: bool)
    ensures
        r == listed(texts(list@), opt_text(*name)),
{
    match name {
        Some(key) => {
            assert(opt_text(*name) == Some(key@));
            let mut k: usize = 0;
            while k < list.len()
                invariant
                    k <= list.len(),
                    opt_text(*name) == Some(key@),
                    forall|j: int| 0 <= j < k ==> !same_key(#[trigger] texts(list@)[j], key@),
                decreases list.len() - k,
            {
                assert(texts(list@)[k as int] == list@[k as int]@);
                if list[k].eq_key(key) {
                    return true;
                }
                k += 1;
            }
            false
        },
        None => false,
    }
}

/// Marks the categories that the configuration keeps as top level, and
/// counts the categories at the top level. Where the configuration names
/// categories and none is at the top level afterwards, the run cannot go on.
pub fn mark_top_level_categories(
    power_categories: &mut Keyed<PowerCategory>,
    config: &PowersConfig,
) -> (r: Result<usize, LoadError>)
    requires
        old(power_categories).wf(),
    ensures
        final(power_categories).wf(),
        top_level_marked(
            *old(power_categories),
            *final(power_categories),
            texts(config.power_categories@),
        ),
        r is Err <==> config.power_categories@.len() > 0 && top_level_count(
            final(power_categories).value_seq(),
        ) == 0,
        r is Ok ==> r->Ok_0 == top_level_count(final(power_categories).value_seq()),
{
    let ghost allow = texts(config.power_categories@);
    let keep_all = config.power_categories.len() == 0;
    let n = power_categories.len();
    let mut count: usize = 0;
    let mut c: usize = 0;
    assert(Seq::new(
        0,
        |c: int|
            if power_categories.value_seq().take(0)[c].top_level {
                1nat
            } else {
                0nat
            },
    ) =~= Seq::empty());
    while c < n
        invariant
            c <= n,
            count <= c,
            n == old(power_categories).value_seq().len(),
            n == power_categories.value_seq().len(),
            power_categories.wf(),
            power_categories.key_seq() == old(power_categories).key_seq(),
            allow == texts(config.power_categories@),
            keep_all == (allow.len() == 0),
            forall|j: int|
                c <= j < n ==> #[trigger] power_categories.value_seq()[j] == old(power_categories).value_seq()[j],
            forall|j: int|
                0 <= j < c ==> {
                    let was = old(power_categories).value_seq()[j];
                    let is = #[trigger] power_categories.value_seq()[j];
                    &&& is == (PowerCategory { top_level: is.top_level, ..was })
                    &&& is.top_level == (allow.len() == 0 || was.top_level || listed(
                        allow,
                        opt_text(was.pch_name),
                    ))
                },
            count == top_level_count(power_categories.value_seq().take(c as int)),
        decreases n - c,
    {
        let kept = keep_all || is_listed(&config.power_categories, &power_categories.value(c).pch_name);
        let ghost before = power_categories.value_seq();
        if kept {
            let pcat = power_categories.value_mut(c);
            pcat.top_level = true;
        }
        let at_top = power_categories.value(c).top_level;
        proof {
            let now = power_categories.value_seq();
            let terms = Seq::new(
                (c + 1) as nat,
                |j: int|
                    if now.take(c + 1)[j].top_level {
                        1nat
                    } else {
                        0nat
                    },
            );
            assert(terms.drop_last() =~= Seq::new(
                c as nat,
                |j: int|
                    if before.take(c as int)[j].top_level {
                        1nat
                    } else {
                        0nat
                    },
            ));
        }
        if at_top {
            count += 1;
        }
        c += 1;
    }
    assert(power_categories.value_seq().take(n as int) =~= power_categories.value_seq());
    if !keep_all && count == 0 {
        Err(LoadError::NoTopLevelCategories)
    } else {
        Ok(count)
    }
}

/// Some pattern of the list matches the name.
pub open spec fn filtered_out(filters: Seq<Seq<char>>, name: Seq<char>) -> bool {
    exists|f: int| 0 <= f < filters.len() && partial_match(name, #[trigger] filters[f])
}

/// The keys that no pattern matches, in their order.
pub open spec fn kept_keys(keys: Seq<Seq<char>>, filters: Seq<Seq<char>>) -> Seq<Seq<char>>
    decreases keys.len(),
{
    if keys.len() == 0 {
        Seq::empty()
    } else {
        let before = kept_keys(keys.drop_last(), filters);
        if filtered_out(filters, keys.last()) {
            before
        } else {
            before.push(keys.last())
        }
    }
}

/// The records under the keys that no pattern matches, in their order.
pub open spec fn kept_values<T>(keys: Seq<Seq<char>>, values: Seq<T>, filters: Seq<Seq<char>>) -> Seq<
    T,
>
    decreases keys.len(),
{
    if keys.len() == 0 || values.len() != keys.len() {
        Seq::empty()
    } else {
        let before = kept_values(keys.drop_last(), values.drop_last(), filters);
        if filtered_out(filters, keys.last()) {
            before
        } else {
            before.push(values.last())
        }
    }
}

/// As many records are kept as keys.
pub proof fn lemma_kept_lengths<T>(keys: Seq<Seq<char>>, values: Seq<T>, filters: Seq<Seq<char>>)
    requires
        keys.len() == values.len(),
    ensures
        kept_keys(keys, filters).len() == kept_values(keys, values, filters).len(),
    decreases keys.len(),
{
    if keys.len() > 0 {
        lemma_kept_lengths(keys.drop_last(), values.drop_last(), filters);
    }
}

/// Whether some pattern of the list matches the name.
pub fn is_filtered_out(filters: &Vec<NameKey>, name: &NameKey) -> (r: bool)
    ensures
        r == filtered_out(texts(filters@), name@),
{
    let mut f: usize = 0;
    while f < filters.len()
        invariant
            f <= filters.len(),
            forall|j: int| 0 <= j < f ==> !partial_match(name@, #[trigger] texts(filters@)[j]),
        decreases filters.len() - f,
    {
        if name.partial_match(&filters[f]) {
            assert(partial_match(name@, texts(filters@)[f as int]));
            return true;
        }
        f += 1;
    }
    false
}

/// Takes the power sets out of the table whose name one of the patterns
/// matches. The others keep their order.
pub fn filter_power_sets(power_sets: &mut Keyed<BasePowerSet>, filters: &Vec<NameKey>)
    requires
        old(power_sets).wf(),
    ensures
        final(power_sets).wf(),
        final(power_sets).key_seq() == kept_keys(old(power_sets).key_seq(), texts(filters@)),
        final(power_sets).value_seq() == kept_values(
            old(power_sets).key_seq(),
            old(power_sets).value_seq(),
            texts(filters@),
        ),
{
    let ghost keys0 = old(power_sets).key_seq();
    let ghost values0 = old(power_sets).value_seq();
    let ghost pats = texts(filters@);
    let mut i: usize = 0;
    let ghost mut j: int = 0;
    proof {
        assert(keys0.take(0) =~= Seq::empty());
        assert(values0.take(0) =~= Seq::empty());
        assert(power_sets.key_seq().take(0) =~= Seq::empty());
        assert(power_sets.value_seq().take(0) =~= Seq::empty());
        assert(power_sets.key_seq().skip(0) =~= keys0);
        assert(power_sets.value_seq().skip(0) =~= values0);
        assert(keys0.skip(0) =~= keys0);
        assert(values0.skip(0) =~= values0);
    }
    while i < power_sets.len()
        invariant
            power_sets.wf(),
            keys0.len() == values0.len(),
            pats == texts(filters@),
            0 <= j <= keys0.len(),
            i <= power_sets.value_seq().len(),
            power_sets.value_seq().len() - i == keys0.len() - j,
            power_sets.key_seq().take(i as int) == kept_keys(keys0.take(j), pats),
            power_sets.value_seq().take(i as int) == kept_values(
                keys0.take(j),
                values0.take(j),
                pats,
            ),
            power_sets.key_seq().skip(i as int) == keys0.skip(j),
            power_sets.value_seq().skip(i as int) == values0.skip(j),
        decreases power_sets.value_seq().len() - i,
    {
        let ghost keys1 = power_sets.key_seq();
        let ghost values1 = power_sets.value_seq();
        proof {
            assert(keys1[i as int] == keys1.skip(i as int)[0]);
            assert(keys0[j] == keys0.skip(j)[0]);
            assert(values1[i as int] == values1.skip(i as int)[0]);
            assert(values0[j] == values0.skip(j)[0]);
            assert(keys0.take(j + 1).drop_last() =~= keys0.take(j));
            assert(values0.take(j + 1).drop_last() =~= values0.take(j));
        }
        if is_filtered_out(filters, power_sets.key(i)) {
            power_sets.remove_at(i);
            proof {
                assert(power_sets.key_seq().take(i as int) =~= keys1.take(i as int));
                assert(power_sets.value_seq().take(i as int) =~= values1.take(i as int));
                assert(power_sets.key_seq().skip(i as int) =~= keys1.skip(i as int).skip(1));
                assert(power_sets.value_seq().skip(i as int) =~= values1.skip(i as int).skip(1));
                assert(keys0.skip(j + 1) =~= keys0.skip(j).skip(1));
                assert(values0.skip(j + 1) =~= values0.skip(j).skip(1));
            }
        } else {
            proof {
                assert(keys1.take(i + 1) =~= keys1.take(i as int).push(keys1[i as int]));
                assert(values1.take(i + 1) =~= values1.take(i as int).push(values1[i as int]));
                assert(keys1.skip(i + 1) =~= keys1.skip(i as int).skip(1));
                assert(values1.skip(i + 1) =~= values1.skip(i as int).skip(1));
                assert(keys0.skip(j + 1) =~= keys0.skip(j).skip(1));
                assert(values0.skip(j + 1) =~= values0.skip(j).skip(1));
            }
            i += 1;
        }
        proof {
            j = j + 1;
        }
    }
    proof {
        assert(power_sets.key_seq().take(i as int) =~= power_sets.key_seq());
        assert(power_sets.value_seq().take(i as int) =~= power_sets.value_seq());
        assert(keys0.take(j) =~= keys0);
        assert(values0.take(j) =~= values0);
    }
}

/// The positions at which a table has the names, in the order of the names.
/// A name that the table does not have gives none.
pub open spec fn found_positions(keys: Seq<Seq<char>>, names: Seq<Seq<char>>) -> Seq<usize>
    decreases names.len(),
{
    if names.len() == 0 {
        Seq::empty()
    } else {
        let before = found_positions(keys, names.drop_last());
        if has_key(keys, names.last()) {
            before.push(key_position(keys, names.last()) as usize)
        } else {
            before
        }
    }
}

/// Every position of [`found_positions`] is one of the table.
pub proof fn lemma_found_positions_valid(keys: Seq<Seq<char>>, names: Seq<Seq<char>>)
    requires
        keys.len() <= usize::MAX,
    ensures
        forall|k: int|
            0 <= k < found_positions(keys, names).len() ==> (#[trigger] found_positions(
                keys,
                names,
            )[k]) < keys.len(),
        found_positions(keys, names).len() <= names.len(),
    decreases names.len(),
{
    if names.len() > 0 {
        lemma_found_positions_valid(keys, names.drop_last());
    }
}

/// Puts behind `into` the positions at which the table has the names.
pub fn push_positions<T>(table: &Keyed<T>, names: &Vec<NameKey>, into: &mut Vec<usize>)
    requires
        table.wf(),
    ensures
        final(into)@ == old(into)@ + found_positions(table.key_seq(), texts(names@)),
{
    let ghost wanted = texts(names@);
    let mut k: usize = 0;
    assert(wanted.take(0) =~= Seq::empty());
    assert(old(into)@ + Seq::<usize>::empty() =~= old(into)@);
    while k < names.len()
        invariant
            k <= names.len(),
            table.wf(),
            wanted == texts(names@),
            into@ == old(into)@ + found_positions(table.key_seq(), wanted.take(k as int)),
        decreases names.len() - k,
    {
        assert(wanted.take(k + 1).drop_last() =~= wanted.take(k as int));
        let ghost so_far = found_positions(table.key_seq(), wanted.take(k as int));
        match table.find(&names[k]) {
            Some(p) => {
                into.push(p);
                assert(into@ =~= old(into)@ + so_far.push(p));
            },
            None => {},
        }
        k += 1;
    }
    assert(wanted.take(names.len() as int) =~= wanted);
}

/// The power sets are as they were, but that each has, behind the powers
/// that it had, the positions of the powers that it names and the table of
/// powers has.
pub open spec fn sets_linked(
    o: Keyed<BasePowerSet>,
    n: Keyed<BasePowerSet>,
    power_keys: Seq<Seq<char>>,
) -> bool {
    &&& n.key_seq() == o.key_seq()
    &&& n.value_seq().len() == o.value_seq().len()
    &&& forall|s: int|
        0 <= s < o.value_seq().len() ==> {
            let was = o.value_seq()[s];
            let is = #[trigger] n.value_seq()[s];
            &&& is == (BasePowerSet { pp_powers: is.pp_powers, ..was })
            &&& is.pp_powers@ == was.pp_powers@ + found_positions(
                power_keys,
                texts(was.pp_power_names@),
            )
        }
}

/// Links every power set to the powers that it names. A name that the
/// table of powers does not have is passed over.
pub fn link_power_sets(power_sets: &mut Keyed<BasePowerSet>, powers: &Keyed<BasePower>)
    requires
        old(power_sets).wf(),
        powers.wf(),
    ensures
        final(power_sets).wf(),
        sets_linked(*old(power_sets), *final(power_sets), powers.key_seq()),
{
    let n = power_sets.len();
    let mut s: usize = 0;
    while s < n
        invariant
            s <= n,
            n == old(power_sets).value_seq().len(),
            n == power_sets.value_seq().len(),
            power_sets.wf(),
            powers.wf(),
            power_sets.key_seq() == old(power_sets).key_seq(),
            forall|j: int|
                s <= j < n ==> #[trigger] power_sets.value_seq()[j] == old(power_sets).value_seq()[j],
            forall|j: int|
                0 <= j < s ==> {
                    let was = old(power_sets).value_seq()[j];
                    let is = #[trigger] power_sets.value_seq()[j];
                    &&& is == (BasePowerSet { pp_powers: is.pp_powers, ..was })
                    &&& is.pp_powers@ == was.pp_powers@ + found_positions(
                        powers.key_seq(),
                        texts(was.pp_power_names@),
                    )
                },
        decreases n - s,
    {
        let pset = power_sets.value_mut(s);
        push_positions(powers, &pset.pp_power_names, &mut pset.pp_powers);
        s += 1;
    }
}

/// The categories are as they were, but that each has, behind the power
/// sets that it had, the positions of the power sets that it names and the
/// table of power sets has.
pub open spec fn cats_linked(
    o: Keyed<PowerCategory>,
    n: Keyed<PowerCategory>,
    set_keys: Seq<Seq<char>>,
) -> bool {
    &&& n.key_seq() == o.key_seq()
    &&& n.value_seq().len() == o.value_seq().len()
    &&& forall|c: int|
        0 <= c < o.value_seq().len() ==> {
            let was = o.value_seq()[c];
            let is = #[trigger] n.value_seq()[c];
            &&& is == (PowerCategory { pp_power_sets: is.pp_power_sets, ..was })
            &&& is.pp_power_sets@ == was.pp_power_sets@ + found_positions(
                set_keys,
                texts(was.ppch_power_set_names@),
            )
        }
}

/// Links every category to the power sets that it names. A name that the
/// table of power sets does not have is passed over.
pub fn link_power_categories(
    power_categories: &mut Keyed<PowerCategory>,
    power_sets: &Keyed<BasePowerSet>,
)
    requires
        old(power_categories).wf(),
        power_sets.wf(),
    ensures
        final(power_categories).wf(),
        cats_linked(*old(power_categories), *final(power_categories), power_sets.key_seq()),
{
    let n = power_categories.len();
    let mut c: usize = 0;
    while c < n
        invariant
            c <= n,
            n == old(power_categories).value_seq().len(),
            n == power_categories.value_seq().len(),
            power_categories.wf(),
            power_sets.wf(),
            power_categories.key_seq() == old(power_categories).key_seq(),
            forall|j: int|
                c <= j < n ==> #[trigger] power_categories.value_seq()[j] == old(power_categories).value_seq()[j],
            forall|j: int|
                0 <= j < c ==> {
                    let was = old(power_categories).value_seq()[j];
                    let is = #[trigger] power_categories.value_seq()[j];
                    &&& is == (PowerCategory { pp_power_sets: is.pp_power_sets, ..was })
                    &&& is.pp_power_sets@ == was.pp_power_sets@ + found_positions(
                        power_sets.key_seq(),
                        texts(was.ppch_power_set_names@),
                    )
                },
        decreases n - c,
    {
        let pcat = power_categories.value_mut(c);
        push_positions(power_sets, &pcat.ppch_power_set_names, &mut pcat.pp_power_sets);
        c += 1;
    }
}

} // verus!
