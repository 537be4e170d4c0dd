//! The records of the power tables.
//!
//! A record refers to a record of another table by that record's position in
//! its table. Field names carry a prefix that tells the kind of value:
//! `pch_` an optional text, `ppch_` a list of texts, `i_` a signed integer,
//! `pi_` a list of them, `b_` a truth value, `e_` an enumeration, `pe_` a list
//! of them, `p_` an optional record, `pp_` a list of records.

use vstd::prelude::*;
use crate::attribs::{BoostAttrib, CharacterAttrib, SpecialAttrib};
use crate::enums::{
    ModApplicationType, ModTarget, ModType, PowerEvent, PowerType, ShowPowerSetting, StackType,
};
use crate::flags::{AttribModFlag, EffectGroupFlag, EffectSpecificAttribModFlag};
use crate::namekey::NameKey;
use crate::text::string_of;

verus! {

/// A reference to an archetype: the table it is in (that of the players'
/// classes or that of the villains' classes) and its position there. Two
/// references are to the same archetype exactly when they are equal.
#[derive(Clone, Copy, Debug, PartialEq, Eq, Structural)]
pub struct ArchetypeRef {
    /// Whether the archetype is in the table of villain classes.
    pub villain: bool,
    /// The position of the archetype in its table.
    pub index: usize,
}

/// A character class, which sets up the allowable powers of a character.
#[derive(Debug)]
pub struct Archetype {
    pub pch_name: Option<String>,
    pub pch_display_name: Option<String>,
    pub pch_display_help: Option<String>,
    /// This determines what origins can be picked by the player.
    pub ppch_allowed_origin_names: Vec<String>,
    /// Special restrictions (e.g. Kheldian, Avian, etc).
    pub ppch_special_restrictions: Vec<String>,
    /// Levels at which the character respecs instead of just picking the new power/slots.
    pub pi_level_up_respecs: Vec<i32>,
    pub pch_display_short_help: Option<String>,
    /// The icon for this archetype.
    pub pch_icon: Option<String>,
    /// Name of the category of primary power sets available to this class.
    pub pch_primary_category: Option<NameKey>,
    /// Name of the category of secondary power sets available to this class.
    pub pch_secondary_category: Option<NameKey>,
    /// Name of the category of pool power sets available to this class.
    pub pch_power_pool_category: Option<NameKey>,
    /// Name of the category of epic pool power sets available to this class.
    pub pch_epic_pool_category: Option<NameKey>,
    /// Used for lookup table purposes.
    pub class_key: Option<NameKey>,
    /// Marks if this was loaded from the villain classes rather than the players'.
    pub is_villain: bool,
}

impl Archetype {
    /// An archetype with nothing in it.
    pub fn new() -> (r: Self)
        ensures
            r.pch_name is None,
            r.pch_display_name is None,
            r.pch_display_help is None,
            r.ppch_allowed_origin_names@.len() == 0,
            r.ppch_special_restrictions@.len() == 0,
            r.pi_level_up_respecs@.len() == 0,
            r.pch_display_short_help is None,
            r.pch_icon is None,
            r.pch_primary_category is None,
            r.pch_secondary_category is None,
            r.pch_power_pool_category is None,
            r.pch_epic_pool_category is None,
            r.class_key is None,
            !r.is_villain,
    {
        Archetype {
            pch_name: None,
            pch_display_name: None,
            pch_display_help: None,
            ppch_allowed_origin_names: Vec::new(),
            ppch_special_restrictions: Vec::new(),
            pi_level_up_respecs: Vec::new(),
            pch_display_short_help: None,
            pch_icon: None,
            pch_primary_category: None,
            pch_secondary_category: None,
            pch_power_pool_category: None,
            pch_epic_pool_category: None,
            class_key: None,
            is_villain: false,
        }
    }
}

/// Describes a power category as containing either primary or secondary sets.
#[derive(Clone, Copy, Debug, PartialEq, Eq, Structural)]
pub enum PrimarySecondary {
    Primary,
    Secondary,
    /// Neither of the two.
    Neither,
}

impl Default for PrimarySecondary {
    fn default() -> (r: Self)
        ensures
            r == PrimarySecondary::Neither,
    {
        PrimarySecondary::Neither
    }
}

/// A group of power sets.
#[derive(Debug)]
pub struct PowerCategory {
    /// Filename this definition came from.
    pub pch_source_file: Option<String>,
    /// Internal name.
    pub pch_name: Option<NameKey>,
    /// Name the user sees.
    pub pch_display_name: Option<String>,
    pub pch_display_help: Option<String>,
    pub pch_display_short_help: Option<String>,
    /// The names of power sets in this category.
    pub ppch_power_set_names: Vec<NameKey>,
    /// Positions, in the table of power sets, of the sets which make up this category.
    pub pp_power_sets: Vec<usize>,
    /// Archetypes associated with this category; matching adds none twice.
    pub archetypes: Vec<ArchetypeRef>,
    /// For power categories tied to a specific archetype, this indicates whether it
    /// is a primary or secondary power pick. It says something only where exactly
    /// one archetype is associated.
    pub pri_sec: PrimarySecondary,
    /// Whether or not to include this power category in the output.
    pub include_in_output: bool,
    /// If true, this category should be listed in the root index.
    pub top_level: bool,
}

impl PowerCategory {
    /// A category with nothing in it.
    pub fn new() -> (r: Self)
        ensures
            r.pch_source_file is None,
            r.pch_name is None,
            r.pch_display_name is None,
            r.pch_display_help is None,
            r.pch_display_short_help is None,
            r.ppch_power_set_names@.len() == 0,
            r.pp_power_sets@.len() == 0,
            r.archetypes@.len() == 0,
            r.pri_sec == PrimarySecondary::Neither,
            !r.include_in_output,
            !r.top_level,
    {
        PowerCategory {
            pch_source_file: None,
            pch_name: None,
            pch_display_name: None,
            pch_display_help: None,
            pch_display_short_help: None,
            ppch_power_set_names: Vec::new(),
            pp_power_sets: Vec::new(),
            archetypes: Vec::new(),
            pri_sec: PrimarySecondary::Neither,
            include_in_output: false,
            top_level: false,
        }
    }
}

/// A set of powers which are grouped together and become available over time.
#[derive(Debug)]
pub struct BasePowerSet {
    /// Internal name.
    pub pch_name: Option<String>,
    /// Full name, including source category.
    pub pch_full_name: Option<NameKey>,
    pub pch_display_name: Option<String>,
    pub pch_display_help: Option<String>,
    pub pch_display_short_help: Option<String>,
    /// Name of icon which represents this power set.
    pub pch_icon_name: Option<String>,
    /// Determines whether the power set is shown in the power inventory or not.
    pub e_show_in_inventory: ShowPowerSetting,
    pub b_show_in_manage: bool,
    pub b_show_in_info: bool,
    /// If non-zero, this powerset is a specialization powerset, available at this level.
    pub i_specialize_at: i32,
    /// Requires statement controlling whether the specialization powerset can be offered.
    pub pp_specialize_requires: Vec<String>,
    /// Character evaluator statement controlling whether a player has access to this powerset.
    pub ppch_set_buy_requires: Vec<String>,
    /// Error message to display when the player fails the SetBuyRequires.
    pub pch_set_buy_requires_failed_text: Option<String>,
    /// Positions, in the table of powers, of the powers which are part of this power set.
    pub pp_powers: Vec<usize>,
    /// The names of included powers.
    pub pp_power_names: Vec<NameKey>,
    /// How old the set has to be (in levels) before each power becomes available.
    pub pi_available: Vec<i32>,
    /// Filename this definition came from.
    pub pch_source_file: Option<String>,
    /// Whether or not to include this power set in the output.
    pub include_in_output: bool,
}

impl BasePowerSet {
    /// A power set with nothing in it.
    pub fn new() -> (r: Self)
        ensures
            r.pch_name is None,
            r.pch_full_name is None,
            r.pch_display_name is None,
            r.pch_display_help is None,
            r.pch_display_short_help is None,
            r.pch_icon_name is None,
            r.e_show_in_inventory == ShowPowerSetting::kShowPowerSetting_Never,
            !r.b_show_in_manage,
            !r.b_show_in_info,
            r.i_specialize_at == 0,
            r.pp_specialize_requires@.len() == 0,
            r.ppch_set_buy_requires@.len() == 0,
            r.pch_set_buy_requires_failed_text is None,
            r.pp_powers@.len() == 0,
            r.pp_power_names@.len() == 0,
            r.pi_available@.len() == 0,
            r.pch_source_file is None,
            !r.include_in_output,
    {
        BasePowerSet {
            pch_name: None,
            pch_full_name: None,
            pch_display_name: None,
            pch_display_help: None,
            pch_display_short_help: None,
            pch_icon_name: None,
            e_show_in_inventory: ShowPowerSetting::kShowPowerSetting_Never,
            b_show_in_manage: false,
            b_show_in_info: false,
            i_specialize_at: 0,
            pp_specialize_requires: Vec::new(),
            ppch_set_buy_requires: Vec::new(),
            pch_set_buy_requires_failed_text: None,
            pp_powers: Vec::new(),
            pp_power_names: Vec::new(),
            pi_available: Vec::new(),
            pch_source_file: None,
            include_in_output: false,
        }
    }
}

/// An alternate power to use in place of a power.
#[derive(Debug)]
pub struct PowerRedirect {
    /// Name of the base power to redirect to.
    pub pch_name: Option<NameKey>,
    /// Expression which must evaluate to true for this redirection to be used. An empty
    /// expression is always true and indicates a last resort fallback power.
    pub ppch_requires: Vec<String>,
    /// If true, this redirection is used to show the detailed power information.
    pub b_show_in_info: bool,
}

impl PowerRedirect {
    /// A redirect that names no power.
    pub fn new() -> (r: Self)
        ensures
            r.pch_name is None,
            r.ppch_requires@.len() == 0,
            !r.b_show_in_info,
    {
        PowerRedirect { pch_name: None, ppch_requires: Vec::new(), b_show_in_info: false }
    }
}

/// Extended targeting info.
#[derive(Debug)]
pub struct AttribModTargetInfo {
    pub ppch_marker_names: Vec<String>,
    pub pi_marker_count: Vec<i32>,
}

impl AttribModTargetInfo {
    /// Targeting info without markers.
    pub fn new() -> (r: Self)
        ensures
            r.ppch_marker_names@.len() == 0,
            r.pi_marker_count@.len() == 0,
    {
        AttribModTargetInfo { ppch_marker_names: Vec::new(), pi_marker_count: Vec::new() }
    }
}

/// An event after which an effect is held back for a time.
#[derive(Debug)]
pub struct SuppressPair {
    /// The event to check.
    pub idx_event: PowerEvent,
    /// How many seconds it must be after the event before the effect is allowed to go off.
    pub ul_seconds: u32,
    /// If true, the effect will always be suppressed when in the event window.
    pub b_always: bool,
}

impl SuppressPair {
    /// A pair for the first event, with no time.
    pub fn new() -> (r: Self)
        ensures
            r.idx_event == PowerEvent::kPowerEvent_Activate,
            r.ul_seconds == 0,
            !r.b_always,
    {
        SuppressPair { idx_event: PowerEvent::kPowerEvent_Activate, ul_seconds: 0, b_always: false }
    }
}

/// Messages shown when an effect goes off.
#[derive(Debug)]
pub struct AttribModMessages {
    /// Message displayed to the attacker when he hits with this power.
    pub pch_display_attacker_hit: Option<String>,
    /// Message displayed to the victim when he gets hits with this power.
    pub pch_display_victim_hit: Option<String>,
    /// Message displayed over the victim's head when this effect goes off.
    pub pch_display_float: Option<String>,
    /// Message displayed over the victim's head when this effect is the defense that
    /// caused some attack to miss the victim.
    pub pch_display_defense_float: Option<String>,
}

impl AttribModMessages {
    /// No messages.
    pub fn new() -> (r: Self)
        ensures
            r.pch_display_attacker_hit is None,
            r.pch_display_victim_hit is None,
            r.pch_display_float is None,
            r.pch_display_defense_float is None,
    {
        AttribModMessages {
            pch_display_attacker_hit: None,
            pch_display_victim_hit: None,
            pch_display_float: None,
            pch_display_defense_float: None,
        }
    }
}

/// Visual effects of an effect.
#[derive(Debug)]
pub struct AttribModFX {
    /// Sets the given bits for the lifetime of the effect.
    pub pi_continuing_bits: Vec<i32>,
    /// If present, plays maintained FX for the lifetime of the effect.
    pub pch_continuing_fx: Option<String>,
    /// Sets the given bits while the effect is alive and the modified attribute is
    /// greater than zero.
    pub pi_conditional_bits: Vec<i32>,
    /// If present, plays maintained FX while the effect is alive and the modified
    /// attribute is greater than zero.
    pub pch_conditional_fx: Option<String>,
}

impl AttribModFX {
    /// No visual effects.
    pub fn new() -> (r: Self)
        ensures
            r.pi_continuing_bits@.len() == 0,
            r.pch_continuing_fx is None,
            r.pi_conditional_bits@.len() == 0,
            r.pch_conditional_fx is None,
    {
        AttribModFX {
            pi_continuing_bits: Vec::new(),
            pch_continuing_fx: None,
            pi_conditional_bits: Vec::new(),
            pch_conditional_fx: None,
        }
    }
}

/// A colour of four channels.
#[derive(Debug)]
pub struct RGBA {
    red: u8,
    green: u8,
    blue: u8,
    alpha: u8,
}

impl View for RGBA {
    type V = (u8, u8, u8, u8);

    closed spec fn view(&self) -> (u8, u8, u8, u8) {
        (self.red, self.green, self.blue, self.alpha)
    }
}

impl RGBA {
    /// The colour with the given channels.
    pub fn new(r: u8, g: u8, b: u8, a: u8) -> (c: Self)
        ensures
            c@ == (r, g, b, a),
    {
        RGBA { red: r, green: g, blue: b, alpha: a }
    }

    /// The red channel.
    pub fn r(&self) -> (v: u8)
        ensures
            v == self@.0,
    {
        self.red
    }

    /// The green channel.
    pub fn g(&self) -> (v: u8)
        ensures
            v == self@.1,
    {
        self.green
    }

    /// The blue channel.
    pub fn b(&self) -> (v: u8)
        ensures
            v == self@.2,
    {
        self.blue
    }

    /// The alpha channel.
    pub fn a(&self) -> (v: u8)
        ensures
            v == self@.3,
    {
        self.alpha
    }

    /// The colour as it is written: `#` and the four channels, red first,
    /// each with two hexadecimal digits in upper case.
    pub fn to_hex(&self) -> (text: String)
        ensures
            text@ == hex_colour(self@),
    {
        let mut chars: Vec<char> = Vec::new();
        chars.push('#');
        chars.push(upper_hex_digit(self.red / 16));
        chars.push(upper_hex_digit(self.red % 16));
        chars.push(upper_hex_digit(self.green / 16));
        chars.push(upper_hex_digit(self.green % 16));
        chars.push(upper_hex_digit(self.blue / 16));
        chars.push(upper_hex_digit(self.blue % 16));
        chars.push(upper_hex_digit(self.alpha / 16));
        chars.push(upper_hex_digit(self.alpha % 16));
        assert(chars@ =~= hex_colour(self@));
        string_of(&chars)
    }
}

/// The character of a hexadecimal digit, in upper case.
pub open spec fn upper_hex_char(n: u8) -> char {
    if n < 10 {
        (48 + n) as char
    } else {
        (55 + n) as char
    }
}

/// A colour as it is written: see [`RGBA::to_hex`].
pub open spec fn hex_colour(c: (u8, u8, u8, u8)) -> Seq<char> {
    seq![
        '#',
        upper_hex_char(c.0 / 16),
        upper_hex_char(c.0 % 16),
        upper_hex_char(c.1 / 16),
        upper_hex_char(c.1 % 16),
        upper_hex_char(c.2 / 16),
        upper_hex_char(c.2 % 16),
        upper_hex_char(c.3 / 16),
        upper_hex_char(c.3 % 16),
    ]
}

/// The character of a hexadecimal digit: see [`upper_hex_char`].
fn upper_hex_digit(n: u8) -> (c: char)
    requires
        n < 16,
    ensures
        c == upper_hex_char(n),
{
    if n < 10 {
        (48 + n) as char
    } else {
        (55 + n) as char
    }
}

impl Default for RGBA {
    fn default() -> (c: Self)
        ensures
            c@ == (0u8, 0u8, 0u8, 0u8),
    {
        RGBA::new(0, 0, 0, 0)
    }
}

/// Parameter of an effect that changes a costume.
#[allow(non_camel_case_types)]
#[derive(Debug)]
pub struct AttribModParam_Costume {
    pub pch_costume_name: Option<String>,
    pub i_priority: i32,
}

impl AttribModParam_Costume {
    /// A parameter with nothing in it.
    pub fn new() -> (r: Self)
        ensures
            r.pch_costume_name is None,
            r.i_priority == 0,
    {
        AttribModParam_Costume { pch_costume_name: None, i_priority: 0 }
    }
}

/// Parameter of an effect that gives rewards.
#[allow(non_camel_case_types)]
#[derive(Debug)]
pub struct AttribModParam_Reward {
    pub ppch_rewards: Vec<String>,
}

impl AttribModParam_Reward {
    /// A parameter with nothing in it.
    pub fn new() -> (r: Self)
        ensures
            r.ppch_rewards@.len() == 0,
    {
        AttribModParam_Reward { ppch_rewards: Vec::new() }
    }
}

/// Parameter of an effect that spawns an entity.
#[allow(non_camel_case_types)]
#[derive(Debug)]
pub struct AttribModParam_EntCreate {
    /// Name of the entity definition.
    pub pch_entity_def: Option<NameKey>,
    pub pch_class: Option<String>,
    pub pch_costume_name: Option<String>,
    pub pch_display_name: Option<String>,
    pub pch_priority_list: Option<String>,
    pub pch_ai_config: Option<String>,
    pub ppch_category_names: Vec<NameKey>,
    pub ppch_powerset_names: Vec<NameKey>,
    pub ppch_power_names: Vec<NameKey>,
    /// Position of the entity definition in the table of villains, once resolved.
    pub villain_def: Option<usize>,
    /// Names of the powers that the entity is granted.
    pub power_refs: Vec<NameKey>,
    /// Have we resolved this already?
    pub resolved: bool,
}

impl AttribModParam_EntCreate {
    /// A parameter with nothing in it.
    pub fn new() -> (r: Self)
        ensures
            r.pch_entity_def is None,
            r.pch_class is None,
            r.pch_costume_name is None,
            r.pch_display_name is None,
            r.pch_priority_list is None,
            r.pch_ai_config is None,
            r.ppch_category_names@.len() == 0,
            r.ppch_powerset_names@.len() == 0,
            r.ppch_power_names@.len() == 0,
            r.villain_def is None,
            r.power_refs@.len() == 0,
            !r.resolved,
    {
        AttribModParam_EntCreate {
            pch_entity_def: None,
            pch_class: None,
            pch_costume_name: None,
            pch_display_name: None,
            pch_priority_list: None,
            pch_ai_config: None,
            ppch_category_names: Vec::new(),
            ppch_powerset_names: Vec::new(),
            ppch_power_names: Vec::new(),
            villain_def: None,
            power_refs: Vec::new(),
            resolved: false,
        }
    }
}

/// Parameter of an effect that names powers directly (a grant, a revocation).
#[allow(non_camel_case_types)]
#[derive(Debug)]
pub struct AttribModParam_Power {
    pub i_count: i32,
    pub ppch_category_names: Vec<NameKey>,
    pub ppch_powerset_names: Vec<NameKey>,
    /// Full names of the powers.
    pub ppch_power_names: Vec<NameKey>,
    /// Have we resolved this already?
    pub resolved: bool,
}

impl AttribModParam_Power {
    /// A parameter with nothing in it.
    pub fn new() -> (r: Self)
        ensures
            r.i_count == 0,
            r.ppch_category_names@.len() == 0,
            r.ppch_powerset_names@.len() == 0,
            r.ppch_power_names@.len() == 0,
            !r.resolved,
    {
        AttribModParam_Power {
            i_count: 0,
            ppch_category_names: Vec::new(),
            ppch_powerset_names: Vec::new(),
            ppch_power_names: Vec::new(),
            resolved: false,
        }
    }
}

/// Parameter of an effect that changes the phases of the target.
#[allow(non_camel_case_types)]
#[derive(Debug)]
pub struct AttribModParam_Phase {
    pub pi_combat_phases: Vec<i32>,
    pub pi_vision_phases: Vec<i32>,
    pub i_exclusive_vision_phase: i32,
}

impl AttribModParam_Phase {
    /// A parameter with nothing in it.
    pub fn new() -> (r: Self)
        ensures
            r.pi_combat_phases@.len() == 0,
            r.pi_vision_phases@.len() == 0,
            r.i_exclusive_vision_phase == 0,
    {
        AttribModParam_Phase {
            pi_combat_phases: Vec::new(),
            pi_vision_phases: Vec::new(),
            i_exclusive_vision_phase: 0,
        }
    }
}

/// Parameter of an effect that moves the target.
#[allow(non_camel_case_types)]
#[derive(Debug)]
pub struct AttribModParam_Teleport {
    pub pch_destination: Option<String>,
}

impl AttribModParam_Teleport {
    /// A parameter with nothing in it.
    pub fn new() -> (r: Self)
        ensures
            r.pch_destination is None,
    {
        AttribModParam_Teleport { pch_destination: None }
    }
}

/// Parameter of an effect that adds behaviours.
#[allow(non_camel_case_types)]
#[derive(Debug)]
pub struct AttribModParam_Behavior {
    pub ppch_behaviors: Vec<String>,
}

impl AttribModParam_Behavior {
    /// A parameter with nothing in it.
    pub fn new() -> (r: Self)
        ensures
            r.ppch_behaviors@.len() == 0,
    {
        AttribModParam_Behavior { ppch_behaviors: Vec::new() }
    }
}

/// Parameter of an effect that sets values of a script.
#[allow(non_camel_case_types)]
#[derive(Debug)]
pub struct AttribModParam_SZEValue {
    pub ppch_script_id: Vec<String>,
    pub ppch_script_value: Vec<String>,
}

impl AttribModParam_SZEValue {
    /// A parameter with nothing in it.
    pub fn new() -> (r: Self)
        ensures
            r.ppch_script_id@.len() == 0,
            r.ppch_script_value@.len() == 0,
    {
        AttribModParam_SZEValue { ppch_script_id: Vec::new(), ppch_script_value: Vec::new() }
    }
}

/// Parameter of an effect that changes tokens.
#[allow(non_camel_case_types)]
#[derive(Debug)]
pub struct AttribModParam_Token {
    pub ppch_tokens: Vec<String>,
}

impl AttribModParam_Token {
    /// A parameter with nothing in it.
    pub fn new() -> (r: Self)
        ensures
            r.ppch_tokens@.len() == 0,
    {
        AttribModParam_Token { ppch_tokens: Vec::new() }
    }
}

/// Parameter of an effect that acts on other effects.
#[allow(non_camel_case_types)]
#[derive(Debug)]
pub struct AttribModParam_EffectFilter {
    pub ppch_tags: Vec<String>,
    pub ppch_category_names: Vec<String>,
    pub ppch_powerset_names: Vec<String>,
    pub ppch_power_names: Vec<String>,
}

impl AttribModParam_EffectFilter {
    /// A parameter with nothing in it.
    pub fn new() -> (r: Self)
        ensures
            r.ppch_tags@.len() == 0,
            r.ppch_category_names@.len() == 0,
            r.ppch_powerset_names@.len() == 0,
            r.ppch_power_names@.len() == 0,
    {
        AttribModParam_EffectFilter {
            ppch_tags: Vec::new(),
            ppch_category_names: Vec::new(),
            ppch_powerset_names: Vec::new(),
            ppch_power_names: Vec::new(),
        }
    }
}

/// The parameter that an effect carries, by the kind of effect.
#[derive(Debug)]
pub enum AttribModParam {
    Costume(AttribModParam_Costume),
    Reward(AttribModParam_Reward),
    EntCreate(AttribModParam_EntCreate),
    Power(AttribModParam_Power),
    Phase(AttribModParam_Phase),
    Teleport(AttribModParam_Teleport),
    Behavior(AttribModParam_Behavior),
    SZEValue(AttribModParam_SZEValue),
    Token(AttribModParam_Token),
    EffectFilter(AttribModParam_EffectFilter),
}

/// This defines an actual effect of a power. A power may have several.
#[derive(Debug)]
pub struct AttribModTemplate {
    /// The attributes that are modified.
    pub p_attrib: Vec<CharacterAttrib>,
    /// Determines when this effect is applied during the lifecycle of a power.
    pub e_application_type: ModApplicationType,
    /// Determines if the duration or the magnitude is what is calculated.
    pub e_type: ModType,
    /// Who is the target of this particular modifier.
    pub e_target: ModTarget,
    /// Extra targeting info for this effect.
    pub p_target_info: Option<AttribModTargetInfo>,
    /// The name of the table to use for scaling the power by level.
    pub pch_table: Option<String>,
    /// Determines how multiple effects of the same kind are handled.
    pub e_stack: StackType,
    /// Events after which the effect is held back.
    pub pp_suppress: Vec<SuppressPair>,
    /// If specified, a power must specifically allow this kind of boost.
    pub boost_mod_allowed: SpecialAttrib,
    /// Boolean flags for this effect.
    pub i_flags: AttribModFlag,
    /// Additional flags for this effect, by its kind.
    pub i_flags_special: Vec<EffectSpecificAttribModFlag>,
    pub p_messages: Option<AttribModMessages>,
    pub p_fx: Option<AttribModFX>,
    pub p_params: Option<AttribModParam>,
}

impl AttribModTemplate {
    /// An effect with nothing in it.
    pub fn new() -> (r: Self)
        ensures
            r.p_attrib@.len() == 0,
            r.e_application_type == ModApplicationType::kModApplicationType_OnTick,
            r.e_type == ModType::kModType_Magnitude,
            r.e_target == ModTarget::kModTarget_Affected,
            r.p_target_info is None,
            r.pch_table is None,
            r.e_stack == StackType::kStackType_Replace,
            r.pp_suppress@.len() == 0,
            r.boost_mod_allowed == SpecialAttrib::kSpecialAttrib_UNSET,
            r.i_flags.bits == 0,
            r.i_flags_special@.len() == 0,
            r.p_messages is None,
            r.p_fx is None,
            r.p_params is None,
    {
        AttribModTemplate {
            p_attrib: Vec::new(),
            e_application_type: ModApplicationType::kModApplicationType_OnTick,
            e_type: ModType::kModType_Magnitude,
            e_target: ModTarget::kModTarget_Affected,
            p_target_info: None,
            pch_table: None,
            e_stack: StackType::kStackType_Replace,
            pp_suppress: Vec::new(),
            boost_mod_allowed: SpecialAttrib::kSpecialAttrib_UNSET,
            i_flags: AttribModFlag { bits: 0 },
            i_flags_special: Vec::new(),
            p_messages: None,
            p_fx: None,
            p_params: None,
        }
    }
}

/// A group of effects that are always applied together.
#[derive(Debug)]
pub struct EffectGroup {
    /// Effect tags (for chance mods, etc).
    pub ppch_tags: Vec<String>,
    /// An expression which describes the conditions under which the effects in the
    /// group may be applied. If there is no expression, they are always applied.
    pub ppch_requires: Vec<String>,
    /// Boolean flags for this effect group.
    pub i_flags: EffectGroupFlag,
    /// The effects of this group.
    pub pp_templates: Vec<AttribModTemplate>,
    pub i_eval_flags: u32,
}

impl EffectGroup {
    /// A group without effects.
    pub fn new() -> (r: Self)
        ensures
            r.ppch_tags@.len() == 0,
            r.ppch_requires@.len() == 0,
            r.i_flags.bits == 0,
            r.pp_templates@.len() == 0,
            r.i_eval_flags == 0,
    {
        EffectGroup {
            ppch_tags: Vec::new(),
            ppch_requires: Vec::new(),
            i_flags: EffectGroupFlag { bits: 0 },
            pp_templates: Vec::new(),
            i_eval_flags: 0,
        }
    }
}

/// The basic definition of a power.
#[derive(Debug)]
pub struct BasePower {
    /// Internal name of the power.
    pub pch_name: Option<String>,
    /// Full name, including source category and set.
    pub pch_full_name: Option<NameKey>,
    /// The source file of the power.
    pub source_file: Option<String>,
    /// If true, this power is given away automatically if the player is allowed to have it.
    pub b_auto_issue: bool,
    /// If true, this power doesn't count towards the player's current count of powers.
    pub b_free: bool,
    pub pch_display_name: Option<String>,
    /// Name of icon which represents this power.
    pub pch_icon_name: Option<String>,
    /// The type of power: auto, click, or toggle.
    pub e_type: PowerType,
    /// List of boost types allowed by the power.
    pub pe_boosts_allowed: Vec<BoostAttrib>,
    /// List of redirections for this power.
    pub pp_redirect: Vec<PowerRedirect>,
    /// Effects of this power.
    pub pp_effects: Vec<EffectGroup>,
    /// Maximum number of boosts (aka enhancements) which can be on this power.
    pub i_max_boosts: i32,
    pub i_force_level_bought: i32,
    /// Whether or not to include this power in the output.
    pub include_in_output: bool,
    /// Archetypes associated with this power; none occurs twice.
    pub archetypes: Vec<ArchetypeRef>,
    /// Have we resolved redirects on this power already?
    pub redirects_resolved: bool,
    /// Categories of enhancement sets that the power accepts; none occurs twice.
    pub enhancement_set_categories_allowed: Vec<String>,
}

impl BasePower {
    /// A power with nothing in it.
    pub fn new() -> (r: Self)
        ensures
            r.pch_name is None,
            r.pch_full_name is None,
            r.source_file is None,
            !r.b_auto_issue,
            !r.b_free,
            r.pch_display_name is None,
            r.pch_icon_name is None,
            r.e_type == PowerType::kPowerType_Click,
            r.pe_boosts_allowed@.len() == 0,
            r.pp_redirect@.len() == 0,
            r.pp_effects@.len() == 0,
            r.i_max_boosts == 0,
            r.i_force_level_bought == 0,
            !r.include_in_output,
            r.archetypes@.len() == 0,
            !r.redirects_resolved,
            r.enhancement_set_categories_allowed@.len() == 0,
    {
        BasePower {
            pch_name: None,
            pch_full_name: None,
            source_file: None,
            b_auto_issue: false,
            b_free: false,
            pch_display_name: None,
            pch_icon_name: None,
            e_type: PowerType::kPowerType_Click,
            pe_boosts_allowed: Vec::new(),
            pp_redirect: Vec::new(),
            pp_effects: Vec::new(),
            i_max_boosts: 0,
            i_force_level_bought: 0,
            include_in_output: false,
            archetypes: Vec::new(),
            redirects_resolved: false,
            enhancement_set_categories_allowed: Vec::new(),
        }
    }
}

/// A power that an entity definition grants. The power's name may be the
/// wildcard, which stands for all powers of the set.
#[derive(Debug)]
pub struct PowerNameRef {
    pub power_category: NameKey,
    pub power_set: NameKey,
    pub power: NameKey,
}

/// The definition of an entity that can be spawned.
#[derive(Debug)]
pub struct VillainDef {
    pub name: Option<String>,
    /// Name of the entity's class, without the sigil under which the class is
    /// kept in the table of villain classes.
    pub character_class_name: Option<NameKey>,
    /// The powers that the entity is granted.
    pub powers: Vec<PowerNameRef>,
}

impl VillainDef {
    /// A definition with nothing in it.
    pub fn new() -> (r: Self)
        ensures
            r.name is None,
            r.character_class_name is None,
            r.powers@.len() == 0,
    {
        VillainDef { name: None, character_class_name: None, powers: Vec::new() }
    }
}

/// A set of enhancements, and the powers that accept it.
#[derive(Debug)]
pub struct BoostSet {
    pub pch_name: Option<NameKey>,
    pub pch_display_name: Option<String>,
    /// The category of the set.
    pub pch_group_name: Option<String>,
    /// Full names of the powers that accept the set.
    pub ppch_powers: Vec<NameKey>,
}

impl BoostSet {
    /// A set with nothing in it.
    pub fn new() -> (r: Self)
        ensures
            r.pch_name is None,
            r.pch_display_name is None,
            r.pch_group_name is None,
            r.ppch_powers@.len() == 0,
    {
        BoostSet {
            pch_name: None,
            pch_display_name: None,
            pch_group_name: None,
            ppch_powers: Vec::new(),
        }
    }
}

/// The name of an attribute, as the game shows it.
#[derive(Debug)]
pub struct AttribName {
    pub pch_name: Option<String>,
    pub pch_display_name: Option<String>,
    pub pch_icon_name: Option<String>,
    /// The offset of the name in its table.
    pub offset: usize,
}

impl AttribName {
    /// A name with nothing in it.
    pub fn new() -> (r: Self)
        ensures
            r.pch_name is None,
            r.pch_display_name is None,
            r.pch_icon_name is None,
            r.offset == 0,
    {
        AttribName { pch_name: None, pch_display_name: None, pch_icon_name: None, offset: 0 }
    }
}

/// The tables of attribute names.
#[derive(Debug)]
pub struct AttribNames {
    pub pp_defense: Vec<AttribName>,
    pub pp_damage: Vec<AttribName>,
    pub pp_boost: Vec<AttribName>,
    pub pp_group: Vec<AttribName>,
    pub pp_mode: Vec<AttribName>,
    pub pp_elusivity: Vec<AttribName>,
    pub pp_stack_key: Vec<AttribName>,
}

impl AttribNames {
    /// Empty tables.
    pub fn new() -> (r: Self)
        ensures
            r.pp_defense@.len() == 0,
            r.pp_damage@.len() == 0,
            r.pp_boost@.len() == 0,
            r.pp_group@.len() == 0,
            r.pp_mode@.len() == 0,
            r.pp_elusivity@.len() == 0,
            r.pp_stack_key@.len() == 0,
    {
        AttribNames {
            pp_defense: Vec::new(),
            pp_damage: Vec::new(),
            pp_boost: Vec::new(),
            pp_group: Vec::new(),
            pp_mode: Vec::new(),
            pp_elusivity: Vec::new(),
            pp_stack_key: Vec::new(),
        }
    }
}

} // verus!
