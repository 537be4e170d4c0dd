//! Counting the latches that are open, so that a caller can tell whether
//! their number can be counted at all.

use vstd::prelude::*;
use crate::keyed::Keyed;
use crate::load::{pending, PowerTables};
use crate::marks::{
    group_marks, param_marks, pending_in_group, pending_in_power, pending_params,
    pending_redirects, power_marks, seq_sum, table_marks,
};
use crate::structs::{AttribModParam, BasePower, BasePowerSet, EffectGroup, PowerCategory};

verus! {

/// The sum of a sequence with one more number is the sum and the number.
pub proof fn lemma_sum_take(s: Seq<nat>, k: int)
    requires
        0 <= k < s.len(),
    ensures
        seq_sum(s.take(k + 1)) == seq_sum(s.take(k)) + s[k],
{
    assert(s.take(k + 1).drop_last() =~= s.take(k));
}

/// The sum of the first numbers of a sequence is at most the sum of all.
pub proof fn lemma_sum_prefix(s: Seq<nat>, k: int)
    requires
        0 <= k <= s.len(),
    ensures
        seq_sum(s.take(k)) <= seq_sum(s),
    decreases s.len() - k,
{
    if k == s.len() {
        assert(s.take(k) =~= s);
    } else {
        lemma_sum_take(s, k);
        lemma_sum_prefix(s, k + 1);
    }
}

/// Adds two counts, if the sum can be counted.
fn add_counts(a: usize, b: usize) -> (r: Option<usize>)
    ensures
        match r {
            Some(n) => n == a + b,
            None => a + b > usize::MAX,
        },
{
    if a > usize::MAX - b {
        None
    } else {
        Some(a + b)
    }
}

/// Whether the parameter of an effect has not been followed.
fn param_is_pending(p: &Option<AttribModParam>) -> (r: bool)
    ensures
        r == !param_marks(*p).resolved,
{
    match p {
        Some(AttribModParam::EntCreate(e)) => !e.resolved,
        Some(AttribModParam::Power(q)) => !q.resolved,
        _ => false,
    }
}

/// The number of parameters of an effect group that have not been followed.
fn count_in_group(group: &EffectGroup) -> (r: usize)
    ensures
        r == pending_in_group(group_marks(*group)),
{
    let ghost marks = group_marks(*group);
    let ghost terms = Seq::new(
        marks.len(),
        |t: int|
            if marks[t].resolved {
                0nat
            } else {
                1nat
            },
    );
    let mut count: usize = 0;
    let mut t: usize = 0;
    assert(terms.take(0) =~= Seq::empty());
    while t < group.pp_templates.len()
        invariant
            t <= group.pp_templates.len(),
            marks == group_marks(*group),
            terms.len() == group.pp_templates@.len(),
            forall|u: int|
                0 <= u < terms.len() ==> terms[u] == if marks[u].resolved {
                    0nat
                } else {
                    1nat
                },
            count == seq_sum(terms.take(t as int)),
            count <= t,
        decreases group.pp_templates.len() - t,
    {
        proof {
            lemma_sum_take(terms, t as int);
        }
        if param_is_pending(&group.pp_templates[t].p_params) {
            count += 1;
        }
        t += 1;
    }
    assert(terms.take(terms.len() as int) =~= terms);
    count
}

/// The number of parameters of a power that have not been followed, if it
/// can be counted.
fn count_in_power(power: &BasePower) -> (r: Option<usize>)
    ensures
        match r {
            Some(n) => n == pending_in_power(power_marks(*power)),
            None => pending_in_power(power_marks(*power)) > usize::MAX,
        },
{
    let ghost marks = power_marks(*power);
    let ghost terms = Seq::new(marks.params.len(), |g: int| pending_in_group(marks.params[g]));
    let mut count: usize = 0;
    let mut g: usize = 0;
    assert(terms.take(0) =~= Seq::empty());
    while g < power.pp_effects.len()
        invariant
            g <= power.pp_effects.len(),
            marks == power_marks(*power),
            terms.len() == power.pp_effects@.len(),
            forall|h: int| 0 <= h < terms.len() ==> terms[h] == pending_in_group(marks.params[h]),
            pending_in_power(marks) == seq_sum(terms),
            count == seq_sum(terms.take(g as int)),
        decreases power.pp_effects.len() - g,
    {
        proof {
            lemma_sum_take(terms, g as int);
            lemma_sum_prefix(terms, g + 1);
        }
        match add_counts(count, count_in_group(&power.pp_effects[g])) {
            Some(more) => {
                count = more;
            },
            None => {
                return None;
            },
        }
        g += 1;
    }
    assert(terms.take(terms.len() as int) =~= terms);
    Some(count)
}

/// The number of latches of the powers that are open (the effect
/// parameters and the redirect lists that have not been followed), if it
/// can be counted. The functions that resolve references count what they
/// follow, and so ask for a number that can.
pub fn count_pending(
    power_cats: &Keyed<PowerCategory>,
    power_sets: &Keyed<BasePowerSet>,
    powers: &Keyed<BasePower>,
) -> (r: Option<usize>)
    ensures
        match r {
            Some(n) => n == pending(table_marks(*power_cats, *power_sets, *powers)),
            None => pending(table_marks(*power_cats, *power_sets, *powers)) > usize::MAX,
        },
{
    let ghost m = table_marks(*power_cats, *power_sets, *powers);
    let ghost redirect_terms = Seq::new(
        m.powers.len(),
        |i: int|
            if m.powers[i].redirects_resolved {
                0nat
            } else {
                1nat
            },
    );
    let ghost param_terms = Seq::new(m.powers.len(), |i: int| pending_in_power(m.powers[i]));
    let n = powers.len();
    let mut redirects: usize = 0;
    let mut params: usize = 0;
    let mut i: usize = 0;
    assert(redirect_terms.take(0) =~= Seq::empty());
    assert(param_terms.take(0) =~= Seq::empty());
    while i < n
        invariant
            i <= n,
            n == powers.value_seq().len(),
            m == table_marks(*power_cats, *power_sets, *powers),
            redirect_terms.len() == n,
            param_terms.len() == n,
            forall|k: int|
                0 <= k < n ==> redirect_terms[k] == if m.powers[k].redirects_resolved {
                    0nat
                } else {
                    1nat
                },
            forall|k: int| 0 <= k < n ==> param_terms[k] == pending_in_power(m.powers[k]),
            redirects == seq_sum(redirect_terms.take(i as int)),
            redirects <= i,
            params == seq_sum(param_terms.take(i as int)),
            pending_redirects(m) == seq_sum(redirect_terms),
            pending_params(m) == seq_sum(param_terms),
        decreases n - i,
    {
        let power = powers.value(i);
        proof {
            lemma_sum_take(redirect_terms, i as int);
            lemma_sum_take(param_terms, i as int);
            lemma_sum_prefix(param_terms, i + 1);
        }
        if !power.redirects_resolved {
            redirects += 1;
        }
        let more = match count_in_power(power) {
            Some(own) => add_counts(params, own),
            None => None,
        };
        match more {
            Some(sum) => {
                params = sum;
            },
            None => {
                return None;
            },
        }
        i += 1;
    }
    assert(redirect_terms.take(n as int) =~= redirect_terms);
    assert(param_terms.take(n as int) =~= param_terms);
    add_counts(params, redirects)
}

/// Whether the tables can be merged: whether the number of open latches of
/// their powers can be counted.
pub fn can_merge(tables: &PowerTables) -> (r: bool)
    ensures
        r == (tables.pending() <= usize::MAX),
{
    count_pending(&tables.power_categories, &tables.power_sets, &tables.powers).is_some()
}

} // verus!
