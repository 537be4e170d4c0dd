//! The document of a power set.

use vstd::prelude::*;
use vstd::string::*;
use crate::config::PowersConfig;
use crate::enums::ShowPowerSetting;
use crate::namekey::{opt_text, same_key, texts, NameKey};
use crate::output::HeaderOutput;
use crate::requirements::{requirement, requires_to_string};
use crate::structs::BasePowerSet;
use crate::text::{opt_str, string_of, strings};

verus! {

/// The character of a decimal digit.
pub open spec fn digit_char(d: nat) -> char {
    ((48 + d) as u8) as char
}

/// The decimal digits of a number.
pub open spec fn digits(n: nat) -> Seq<char>
    decreases n,
{
    if n < 10 {
        seq![digit_char(n)]
    } else {
        digits(n / 10).push(digit_char(n % 10))
    }
}

/// A number in decimal, with a minus sign in front where it is negative.
pub open spec fn decimal(n: int) -> Seq<char> {
    if n < 0 {
        seq!['-'] + digits((-n) as nat)
    } else {
        digits(n as nat)
    }
}

/// A number in decimal: see [`decimal`].
pub fn decimal_string(n: i32) -> (r: String)
    ensures
        r@ == decimal(n as int),
{
    let negative = n < 0;
    let wide: i64 = n as i64;
    let start: u64 = if negative {
        (-wide) as u64
    } else {
        wide as u64
    };
    // the digits from the last to the first
    let mut backwards: Vec<char> = Vec::new();
    let mut left: u64 = start;
    backwards.push(((48 + left % 10) as u8) as char);
    left = left / 10;
    assert(backwards@.reverse() =~= seq![digit_char((start % 10) as nat)]);
    assert(digits(start as nat) == if start < 10 {
        backwards@.reverse()
    } else {
        digits(left as nat) + backwards@.reverse()
    });
    while left > 0
        invariant
            backwards@.len() > 0,
            digits(start as nat) == if left == 0 {
                backwards@.reverse()
            } else {
                digits(left as nat) + backwards@.reverse()
            },
        decreases left,
    {
        let ghost before = backwards@;
        let ghost was = left;
        backwards.push(((48 + left % 10) as u8) as char);
        left = left / 10;
        proof {
            let d = digit_char((was % 10) as nat);
            assert(backwards@.reverse() =~= seq![d] + before.reverse());
            if was < 10 {
                assert(digits(was as nat) + before.reverse() =~= backwards@.reverse());
            } else {
                assert(digits(was as nat) + before.reverse() =~= digits(left as nat) + (seq![d]
                    + before.reverse()));
            }
        }
    }
    let mut text: Vec<char> = Vec::new();
    if negative {
        text.push('-');
    }
    let ghost sign = text@;
    let mut k: usize = backwards.len();
    assert(backwards@.reverse().take(0) =~= Seq::empty());
    assert(sign + Seq::<char>::empty() =~= sign);
    while k > 0
        invariant
            k <= backwards.len(),
            text@ == sign + backwards@.reverse().take(backwards.len() - k),
        decreases k,
    {
        k -= 1;
        text.push(backwards[k]);
        assert(text@ =~= sign + backwards@.reverse().take(backwards.len() - k));
    }
    assert(backwards@.reverse().take(backwards.len() as int) =~= backwards@.reverse());
    string_of(&text)
}

/// One line of what is displayed of a power.
#[derive(Debug)]
pub struct DisplayInfo {
    pub label: String,
    pub text: String,
}

/// What the document of a power set needs of the output of a power.
#[derive(Debug)]
pub struct PowerOutput {
    pub name: Option<NameKey>,
    pub icon: Option<String>,
    pub available_at_level: i32,
    pub display_info: Vec<DisplayInfo>,
}

/// The output of a power, as plain values.
pub struct PowerOutputView {
    pub name: Option<Seq<char>>,
    pub icon: Option<Seq<char>>,
    pub level: i32,
    pub info: Seq<(Seq<char>, Seq<char>)>,
}

/// The lines of display, as plain values.
pub open spec fn info_lines(list: Seq<DisplayInfo>) -> Seq<(Seq<char>, Seq<char>)> {
    Seq::new(list.len(), |i: int| (list[i].label@, list[i].text@))
}

impl View for PowerOutput {
    type V = PowerOutputView;

    open spec fn view(&self) -> PowerOutputView {
        PowerOutputView {
            name: opt_text(self.name),
            icon: opt_str(self.icon),
            level: self.available_at_level,
            info: info_lines(self.display_info@),
        }
    }
}

/// The outputs of a list of powers, as plain values.
pub open spec fn outputs(list: Seq<PowerOutput>) -> Seq<PowerOutputView> {
    Seq::new(list.len(), |i: int| list[i]@)
}

/// The position of the first of the first `upto` lines with the label, or
/// `upto` where none has it.
pub open spec fn line_of(info: Seq<(Seq<char>, Seq<char>)>, label: Seq<char>, upto: int) -> int
    decreases upto,
{
    if upto <= 0 {
        0
    } else {
        let before = line_of(info, label, upto - 1);
        if before < upto - 1 {
            before
        } else if info[upto - 1].0 == label {
            upto - 1
        } else {
            upto
        }
    }
}

/// The lines with the text of a label set: in the line that has the label,
/// or in a new line at the end.
pub open spec fn with_line(
    info: Seq<(Seq<char>, Seq<char>)>,
    label: Seq<char>,
    text: Seq<char>,
) -> Seq<(Seq<char>, Seq<char>)> {
    let at = line_of(info, label, info.len() as int);
    if at < info.len() {
        info.update(at, (label, text))
    } else {
        info.push((label, text))
    }
}

/// The level that a power set gives for a power name: that of the last of
/// the first `upto` names that is the same key and has a level.
pub open spec fn level_for(
    names: Seq<Seq<char>>,
    levels: Seq<i32>,
    name: Seq<char>,
    upto: int,
) -> Option<i32>
    decreases upto,
{
    if upto <= 0 {
        None
    } else if upto <= names.len() && upto <= levels.len() && same_key(names[upto - 1], name) {
        Some(levels[upto - 1])
    } else {
        level_for(names, levels, name, upto - 1)
    }
}

/// The output of a power with the level at which the power set makes it
/// available: one more than the level that the set gives, as the set
/// counts from zero. The level is displayed, too.
pub open spec fn with_level(
    p: PowerOutputView,
    names: Seq<Seq<char>>,
    levels: Seq<i32>,
) -> PowerOutputView {
    let found = match p.name {
        Some(n) => level_for(names, levels, n, names.len() as int),
        None => None,
    };
    let level = match found {
        Some(l) => (l + 1) as i32,
        None => p.level,
    };
    PowerOutputView {
        level,
        info: with_line(p.info, "Available Level"@, decimal(level as int)),
        ..p
    }
}

/// Where an output goes into a list that is in the order of the levels:
/// behind the last output whose level is not higher.
pub open spec fn slot(sorted: Seq<PowerOutputView>, level: i32) -> int
    decreases sorted.len(),
{
    if sorted.len() == 0 {
        0
    } else if sorted.last().level <= level {
        sorted.len() as int
    } else {
        slot(sorted.drop_last(), level)
    }
}

/// The outputs in the order of their levels; outputs of one level keep
/// their order.
pub open spec fn by_level(list: Seq<PowerOutputView>) -> Seq<PowerOutputView>
    decreases list.len(),
{
    if list.len() == 0 {
        Seq::empty()
    } else {
        let before = by_level(list.drop_last());
        before.insert(slot(before, list.last().level), list.last())
    }
}

/// One of the first `upto` outputs is of the power with the name.
pub open spec fn has_output(list: Seq<PowerOutputView>, name: Seq<char>, upto: int) -> bool {
    exists|k: int|
        0 <= k < upto && k < list.len() && (#[trigger] list[k]).name is Some && same_key(
            list[k].name->0,
            name,
        )
}

/// The names for which there is an output, in their order.
pub open spec fn shown_names(names: Seq<Seq<char>>, list: Seq<PowerOutputView>) -> Seq<Seq<char>>
    decreases names.len(),
{
    if names.len() == 0 {
        Seq::empty()
    } else {
        let before = shown_names(names.drop_last(), list);
        if has_output(list, names.last(), list.len() as int) {
            before.push(names.last())
        } else {
            before
        }
    }
}

/// The position of the first of the first `upto` outputs that is of the
/// power with the name, or `upto` where there is none.
pub open spec fn first_output(list: Seq<PowerOutputView>, name: Seq<char>, upto: int) -> int
    decreases upto,
{
    if upto <= 0 {
        0
    } else {
        let before = first_output(list, name, upto - 1);
        if before < upto - 1 {
            before
        } else if list[upto - 1].name is Some && same_key(list[upto - 1].name->0, name) {
            upto - 1
        } else {
            upto
        }
    }
}

/// The icon of a power set. Where icons are served, a power set has the
/// icon of the first power that it names, if that power is put out; else
/// it has the icon that it names itself.
pub open spec fn set_icon(
    set: BasePowerSet,
    list: Seq<PowerOutputView>,
    served: bool,
) -> Option<Seq<char>> {
    match set.pch_icon_name {
        Some(own) => if served {
            if set.pp_power_names@.len() > 0 {
                let at = first_output(list, set.pp_power_names@[0]@, list.len() as int);
                if at < list.len() {
                    list[at].icon
                } else {
                    None
                }
            } else {
                None
            }
        } else {
            Some(own@)
        },
        None => None,
    }
}

/// The word for when a power set is shown in the inventory.
pub open spec fn show_word(setting: ShowPowerSetting) -> Seq<char> {
    match setting {
        ShowPowerSetting::kShowPowerSetting_Always => "Always"@,
        ShowPowerSetting::kShowPowerSetting_Default => "Show"@,
        ShowPowerSetting::kShowPowerSetting_IfOwned => "IfOwned"@,
        ShowPowerSetting::kShowPowerSetting_IfUsable => "IfUsable"@,
        ShowPowerSetting::kShowPowerSetting_Never => "Never"@,
    }
}

/// The document of a power set.
#[derive(Debug)]
pub struct PowerSetOutput {
    pub header: HeaderOutput,
    pub name: Option<NameKey>,
    pub display_name: Option<String>,
    pub display_help: Option<String>,
    pub icon: Option<String>,
    pub specialize_at_level: Option<i32>,
    pub specialize_requires: Option<String>,
    pub show_in_inventory: Option<String>,
    pub show_in_power_management: bool,
    pub show_in_power_info: bool,
    pub set_buy_requires: Option<String>,
    pub display_set_buy_requires_failed: Option<String>,
    pub ordered_power_names: Vec<NameKey>,
    pub powers: Vec<PowerOutput>,
}

/// Sets the text of a label in the lines of display: see [`with_line`].
fn set_line(info: &mut Vec<DisplayInfo>, label: &str, text: String)
    ensures
        info_lines(final(info)@) == with_line(info_lines(old(info)@), label@, text@),
{
    let ghost lines = info_lines(info@);
    let wanted = String::from_str(label);
    let mut k: usize = 0;
    while k < info.len()
        invariant
            k <= info.len(),
            *info == *old(info),
            lines == info_lines(info@),
            wanted@ == label@,
            line_of(lines, label@, k as int) == k,
        decreases info.len() - k,
    {
        assert(lines[k as int].0 == info@[k as int].label@);
        if info[k].label == wanted {
            proof {
                lemma_line_found(lines, label@, k as int, lines.len() as int);
            }
            info[k] = DisplayInfo { label: wanted, text };
            assert(info_lines(info@) =~= lines.update(k as int, (label@, text@)));
            return ;
        }
        k += 1;
    }
    info.push(DisplayInfo { label: wanted, text });
    assert(info_lines(info@) =~= lines.push((label@, text@)));
}

/// A line that is found first among the first lines is found first among
/// more.
proof fn lemma_line_found(info: Seq<(Seq<char>, Seq<char>)>, label: Seq<char>, k: int, upto: int)
    requires
        0 <= k < upto <= info.len(),
        line_of(info, label, k) == k,
        info[k].0 == label,
    ensures
        line_of(info, label, upto) == k,
    decreases upto - k,
{
    if upto > k + 1 {
        lemma_line_found(info, label, k, upto - 1);
    }
}

/// The level that the power set gives for a power name: see [`level_for`].
fn find_level(names: &Vec<NameKey>, levels: &Vec<i32>, name: &NameKey) -> (r: Option<i32>)
    ensures
        r == level_for(texts(names@), levels@, name@, names@.len() as int),
{
    let mut k: usize = names.len();
    while k > 0
        invariant
            k <= names.len(),
            level_for(texts(names@), levels@, name@, names@.len() as int) == level_for(
                texts(names@),
                levels@,
                name@,
                k as int,
            ),
        decreases k,
    {
        assert(texts(names@)[k - 1] == names@[k - 1]@);
        if k <= levels.len() && names[k - 1].eq_key(name) {
            return Some(levels[k - 1]);
        }
        k -= 1;
    }
    None
}

/// The position of the first output of the power with the name: see
/// [`first_output`].
fn find_output(list: &Vec<PowerOutput>, name: &NameKey) -> (r: usize)
    ensures
        r == first_output(outputs(list@), name@, list@.len() as int),
        r <= list@.len(),
        r < list@.len() <==> has_output(outputs(list@), name@, list@.len() as int),
{
    let ghost views = outputs(list@);
    let mut k: usize = 0;
    while k < list.len()
        invariant
            k <= list.len(),
            views == outputs(list@),
            first_output(views, name@, k as int) == k,
            !has_output(views, name@, k as int),
        decreases list.len() - k,
    {
        assert(views[k as int] == list@[k as int]@);
        let same = match &list[k].name {
            Some(own) => own.eq_key(name),
            None => false,
        };
        if same {
            proof {
                lemma_output_found(views, name@, k as int, views.len() as int);
                assert(has_output(views, name@, views.len() as int));
            }
            return k;
        }
        proof {
            if has_output(views, name@, k + 1) {
                let j = choose|j: int|
                    0 <= j < k + 1 && j < views.len() && (#[trigger] views[j]).name is Some
                        && same_key(views[j].name->0, name@);
                assert(j == k);
            }
        }
        k += 1;
    }
    k
}

/// An output that is found first among the first is found first among more.
proof fn lemma_output_found(list: Seq<PowerOutputView>, name: Seq<char>, k: int, upto: int)
    requires
        0 <= k < upto <= list.len(),
        first_output(list, name, k) == k,
        list[k].name is Some,
        same_key(list[k].name->0, name),
    ensures
        first_output(list, name, upto) == k,
    decreases upto - k,
{
    if upto > k + 1 {
        lemma_output_found(list, name, k, upto - 1);
    }
}

/// The outputs in the order of their levels: see [`by_level`].
fn sort_by_level(list: Vec<PowerOutput>) -> (sorted: Vec<PowerOutput>)
    ensures
        outputs(sorted@) == by_level(outputs(list@)),
{
    let ghost all = outputs(list@);
    let mut rest = list;
    let mut sorted: Vec<PowerOutput> = Vec::new();
    let ghost mut done: int = 0;
    assert(all.take(0) =~= Seq::empty());
    assert(outputs(sorted@) =~= Seq::empty());
    assert(outputs(rest@) =~= all.skip(0));
    while rest.len() > 0
        invariant
            0 <= done <= all.len(),
            outputs(rest@) == all.skip(done),
            outputs(sorted@) == by_level(all.take(done)),
        decreases rest.len(),
    {
        let ghost before = outputs(sorted@);
        let ghost rest_before = outputs(rest@);
        let next = rest.remove(0);
        proof {
            assert(rest_before.len() == rest@.len() + 1);
            assert(all.skip(done).len() == all.len() - done);
            assert(all.skip(done)[0] == all[done]);
            assert(rest_before[0] == all[done]);
            assert(next@ == all[done]);
            assert forall|i: int| 0 <= i < rest@.len() implies outputs(rest@)[i] == all.skip(
                done + 1,
            )[i] by {
                assert(outputs(rest@)[i] == rest_before[i + 1]);
                assert(all.skip(done)[i + 1] == all.skip(done + 1)[i]);
            }
            assert(outputs(rest@) =~= all.skip(done + 1));
            assert(all.take(done + 1).drop_last() =~= all.take(done));
            assert(all.take(done + 1).last() == all[done]);
        }
        let mut j: usize = sorted.len();
        assert(before.take(sorted@.len() as int) =~= before);
        while j > 0 && sorted[j - 1].available_at_level > next.available_at_level
            invariant
                j <= sorted.len(),
                before == outputs(sorted@),
                slot(before, next.available_at_level) == slot(
                    before.take(j as int),
                    next.available_at_level,
                ),
            decreases j,
        {
            proof {
                assert(before.take(j as int).last() == sorted@[j - 1]@);
                assert(before.take(j as int).drop_last() =~= before.take(j - 1));
            }
            j -= 1;
        }
        proof {
            if j > 0 {
                assert(before.take(j as int).last() == sorted@[j - 1]@);
            }
            assert(before.take(sorted@.len() as int) =~= before);
            assert(slot(before, next.available_at_level) == j);
        }
        sorted.insert(j, next);
        proof {
            assert(outputs(sorted@) =~= before.insert(j as int, all[done]));
            done = done + 1;
        }
    }
    assert(all.skip(done).len() == 0);
    assert(all.take(done) =~= all);
    sorted
}

impl PowerSetOutput {
    /// The levels of the power set can be counted up by one.
    pub open spec fn levels_fit(power_set: BasePowerSet) -> bool {
        &&& power_set.i_specialize_at < i32::MAX
        &&& forall|k: int|
            0 <= k < power_set.pi_available@.len() ==> (#[trigger] power_set.pi_available@[k])
                < i32::MAX
    }

    /// Converts a `BasePowerSet` to a `PowerSetOutput`, with the outputs of
    /// those of its powers that are put out, in the order of the power set.
    /// Each output gets the level at which the set makes the power
    /// available, and the outputs are put in the order of these levels.
    pub fn from_base_power_set(
        power_set: &BasePowerSet,
        powers: Vec<PowerOutput>,
        config: &PowersConfig,
    ) -> (r: Self)
        requires
            config.extract_date is Some,
            Self::levels_fit(*power_set),
        ensures
            r.header.describes(*config),
            opt_text(r.name) == opt_text(power_set.pch_full_name),
            opt_str(r.display_name) == opt_str(power_set.pch_display_name),
            opt_str(r.display_help) == opt_str(power_set.pch_display_help),
            opt_str(r.icon) == set_icon(
                *power_set,
                leveled(outputs(powers@), *power_set),
                config.assets is Some,
            ),
            r.specialize_at_level == if power_set.i_specialize_at > 0 {
                Some((power_set.i_specialize_at + 1) as i32)
            } else {
                None::<i32>
            },
            opt_str(r.specialize_requires) == requirement(strings(power_set.pp_specialize_requires@)),
            opt_str(r.show_in_inventory) == Some(show_word(power_set.e_show_in_inventory)),
            r.show_in_power_management == power_set.b_show_in_manage,
            r.show_in_power_info == power_set.b_show_in_info,
            opt_str(r.set_buy_requires) == requirement(strings(power_set.ppch_set_buy_requires@)),
            opt_str(r.display_set_buy_requires_failed) == if power_set.ppch_set_buy_requires@.len()
                > 0 {
                opt_str(power_set.pch_set_buy_requires_failed_text)
            } else {
                None
            },
            texts(r.ordered_power_names@) == shown_names(
                texts(power_set.pp_power_names@),
                leveled(outputs(powers@), *power_set),
            ),
            outputs(r.powers@) == by_level(leveled(outputs(powers@), *power_set)),
    {
        let ghost given = outputs(powers@);
        let ghost names = texts(power_set.pp_power_names@);
        let ghost levels = power_set.pi_available@;
        let mut powers = powers;
        // copy minimum levels
        let mut k: usize = 0;
        while k < powers.len()
            invariant
                k <= powers.len(),
                powers@.len() == given.len(),
                names == texts(power_set.pp_power_names@),
                levels == power_set.pi_available@,
                Self::levels_fit(*power_set),
                forall|j: int| 0 <= j < k ==> (#[trigger] powers@[j])@ == with_level(given[j], names, levels),
                forall|j: int| k <= j < given.len() ==> (#[trigger] powers@[j])@ == given[j],
            decreases powers.len() - k,
        {
            let found = match &powers[k].name {
                Some(power_name) => find_level(
                    &power_set.pp_power_names,
                    &power_set.pi_available,
                    power_name,
                ),
                None => None,
            };
            let ghost before = powers@[k as int]@;
            assert(before == given[k as int]);
            let power = &mut powers[k];
            match found {
                Some(level) => {
                    proof {
                        lemma_level_listed(names, levels, before.name->0, names.len() as int);
                    }
                    power.available_at_level = level + 1;
                },
                None => {},
            }
            // now that we have minimum level info, we can add display info
            // for available level
            let shown = decimal_string(power.available_at_level);
            set_line(&mut power.display_info, "Available Level", shown);
            k += 1;
        }
        assert(outputs(powers@) =~= leveled(given, *power_set));
        // power set icon
        let icon = match &power_set.pch_icon_name {
            Some(own) => {
                if config.assets.is_some() {
                    // there's not really power set icons, we use the icon from
                    // the first power
                    if power_set.pp_power_names.len() > 0 {
                        let at = find_output(&powers, &power_set.pp_power_names[0]);
                        if at < powers.len() {
                            assert(outputs(powers@)[at as int] == powers@[at as int]@);
                            match &powers[at].icon {
                                Some(icon) => Some(icon.clone()),
                                None => None,
                            }
                        } else {
                            None
                        }
                    } else {
                        None
                    }
                } else {
                    Some(own.clone())
                }
            },
            None => None,
        };
        // ordered powers list
        let mut ordered: Vec<NameKey> = Vec::new();
        let mut n: usize = 0;
        assert(names.take(0) =~= Seq::empty());
        assert(texts(ordered@) =~= Seq::empty());
        while n < power_set.pp_power_names.len()
            invariant
                n <= power_set.pp_power_names.len(),
                names == texts(power_set.pp_power_names@),
                texts(ordered@) == shown_names(names.take(n as int), outputs(powers@)),
            decreases power_set.pp_power_names.len() - n,
        {
            proof {
                assert(names.take(n + 1).drop_last() =~= names.take(n as int));
                assert(names.take(n + 1).last() == power_set.pp_power_names@[n as int]@);
            }
            let ghost so_far = texts(ordered@);
            if find_output(&powers, &power_set.pp_power_names[n]) < powers.len() {
                ordered.push(power_set.pp_power_names[n].clone());
                assert(texts(ordered@) =~= so_far.push(power_set.pp_power_names@[n as int]@));
            }
            n += 1;
        }
        assert(names.take(power_set.pp_power_names.len() as int) =~= names);
        PowerSetOutput {
            header: HeaderOutput::from_config(config),
            name: match &power_set.pch_full_name {
                Some(name) => Some(name.clone()),
                None => None,
            },
            display_name: match &power_set.pch_display_name {
                Some(text) => Some(text.clone()),
                None => None,
            },
            display_help: match &power_set.pch_display_help {
                Some(text) => Some(text.clone()),
                None => None,
            },
            icon,
            // specialization info
            specialize_at_level: if power_set.i_specialize_at > 0 {
                Some(power_set.i_specialize_at + 1)
            } else {
                None
            },
            specialize_requires: requires_to_string(&power_set.pp_specialize_requires),
            show_in_inventory: Some(
                String::from_str(
                    match power_set.e_show_in_inventory {
                        ShowPowerSetting::kShowPowerSetting_Always => "Always",
                        ShowPowerSetting::kShowPowerSetting_Default => "Show",
                        ShowPowerSetting::kShowPowerSetting_IfOwned => "IfOwned",
                        ShowPowerSetting::kShowPowerSetting_IfUsable => "IfUsable",
                        ShowPowerSetting::kShowPowerSetting_Never => "Never",
                    },
                ),
            ),
            show_in_power_management: power_set.b_show_in_manage,
            show_in_power_info: power_set.b_show_in_info,
            set_buy_requires: requires_to_string(&power_set.ppch_set_buy_requires),
            // purchase requirements
            display_set_buy_requires_failed: if power_set.ppch_set_buy_requires.len() > 0 {
                match &power_set.pch_set_buy_requires_failed_text {
                    Some(text) => Some(text.clone()),
                    None => None,
                }
            } else {
                None
            },
            ordered_power_names: ordered,
            // sort powers
            powers: sort_by_level(powers),
        }
    }
}

/// The outputs, each with the level at which the power set makes the power
/// available: see [`with_level`].
pub open spec fn leveled(list: Seq<PowerOutputView>, set: BasePowerSet) -> Seq<PowerOutputView> {
    Seq::new(
        list.len(),
        |i: int| with_level(list[i], texts(set.pp_power_names@), set.pi_available@),
    )
}

/// A level that is found is one of the list.
proof fn lemma_level_listed(names: Seq<Seq<char>>, levels: Seq<i32>, name: Seq<char>, upto: int)
    requires
        level_for(names, levels, name, upto) is Some,
    ensures
        exists|k: int| 0 <= k < levels.len() && #[trigger] levels[k] == level_for(names, levels, name, upto)->0,
    decreases upto,
{
    if upto > 0 {
        if upto <= names.len() && upto <= levels.len() && same_key(names[upto - 1], name) {
            assert(levels[upto - 1] == level_for(names, levels, name, upto)->0);
        } else {
            lemma_level_listed(names, levels, name, upto - 1);
        }
    }
}

/// The outputs are in the order of their levels.
pub open spec fn in_level_order(list: Seq<PowerOutputView>) -> bool {
    forall|i: int, j: int| 0 <= i < j < list.len() ==> list[i].level <= list[j].level
}

/// Where an output goes into a list in the order of the levels, nothing
/// before it has a higher level and everything behind it has.
proof fn lemma_slot_splits(sorted: Seq<PowerOutputView>, level: i32)
    requires
        in_level_order(sorted),
    ensures
        0 <= slot(sorted, level) <= sorted.len(),
        forall|i: int| 0 <= i < slot(sorted, level) ==> sorted[i].level <= level,
        forall|i: int| slot(sorted, level) <= i < sorted.len() ==> sorted[i].level > level,
    decreases sorted.len(),
{
    if sorted.len() > 0 && sorted.last().level > level {
        let fewer = sorted.drop_last();
        assert forall|i: int, j: int| 0 <= i < j < fewer.len() implies fewer[i].level
            <= fewer[j].level by {
            assert(sorted[i].level <= sorted[j].level);
        }
        lemma_slot_splits(fewer, level);
        assert forall|i: int| 0 <= i < slot(sorted, level) implies sorted[i].level <= level by {
            assert(fewer[i] == sorted[i]);
        }
        assert forall|i: int| slot(sorted, level) <= i < sorted.len() implies sorted[i].level
            > level by {
            if i < fewer.len() {
                assert(fewer[i] == sorted[i]);
            }
        }
    }
}

/// Ordering by level orders by level, and loses and adds nothing: the
/// outputs of a power set's document are in the order of the levels at
/// which the powers become available.
pub proof fn law_by_level_is_in_order(list: Seq<PowerOutputView>)
    ensures
        in_level_order(by_level(list)),
        by_level(list).len() == list.len(),
        by_level(list).to_multiset() == list.to_multiset(),
    decreases list.len(),
{
    if list.len() == 0 {
        assert(by_level(list) =~= list);
    } else {
        let fewer = list.drop_last();
        let before = by_level(fewer);
        law_by_level_is_in_order(fewer);
        lemma_slot_splits(before, list.last().level);
        let at = slot(before, list.last().level);
        let after = before.insert(at, list.last());
        assert forall|i: int, j: int| 0 <= i < j < after.len() implies after[i].level
            <= after[j].level by {
            if j < at {
                assert(before[i].level <= before[j].level);
            } else if i < at && j > at {
                assert(before[i].level <= list.last().level);
                assert(before[j - 1].level > list.last().level);
            } else if i > at {
                assert(before[i - 1].level <= before[j - 1].level);
            } else if i == at {
                assert(before[j - 1].level > list.last().level);
            }
        }
        vstd::seq_lib::to_multiset_insert(before, at, list.last());
        assert(list =~= fewer.push(list.last()));
        vstd::seq_lib::to_multiset_insert(fewer, fewer.len() as int, list.last());
        assert(fewer.insert(fewer.len() as int, list.last()) =~= fewer.push(list.last()));
    }
}

} // verus!
