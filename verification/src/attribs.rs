//! References to attributes of a character, by number, and the names by
//! which they are shown.

use vstd::prelude::*;
use vstd::string::*;
use crate::structs::{AttribName, AttribNames};
use crate::text::opt_str;

verus! {

/// Used in attribute name tables.
pub const ORIGINS_SIZE: usize = 5;

/// Matches the width of pointers in the game structs (32 bits).
pub const PTR_SIZE: usize = 4;

/// The offsets of the attributes of a character.
pub struct CharacterAttributes {}

impl CharacterAttributes {
    /// The number of kinds of damage, of defense and of elusivity; the
    /// offsets of the attributes follow.
    pub const DAMAGE_TYPE_SIZE: usize = 20;
    pub const DEFENSE_TYPE_SIZE: usize = 20;
    pub const ELUSIVITY_SIZE: usize = 20;

    pub const OFFSET_DMG_0: usize = 0;
    pub const OFFSET_DMG_1: usize = 4;
    pub const OFFSET_DMG_2: usize = 8;
    pub const OFFSET_DMG_3: usize = 12;
    pub const OFFSET_DMG_4: usize = 16;
    pub const OFFSET_DMG_5: usize = 20;
    pub const OFFSET_DMG_6: usize = 24;
    pub const OFFSET_DMG_7: usize = 28;
    pub const OFFSET_DMG_8: usize = 32;
    pub const OFFSET_DMG_9: usize = 36;
    pub const OFFSET_DMG_10: usize = 40;
    pub const OFFSET_DMG_11: usize = 44;
    pub const OFFSET_DMG_12: usize = 48;
    pub const OFFSET_DMG_13: usize = 52;
    pub const OFFSET_DMG_14: usize = 56;
    pub const OFFSET_DMG_15: usize = 60;
    pub const OFFSET_DMG_16: usize = 64;
    pub const OFFSET_DMG_17: usize = 68;
    pub const OFFSET_DMG_18: usize = 72;
    pub const OFFSET_DMG_19: usize = 76;
    pub const OFFSET_HIT_POINTS: usize = 80;
    pub const OFFSET_ABSORB: usize = 84;
    pub const OFFSET_ENDURANCE: usize = 88;
    pub const OFFSET_INSIGHT: usize = 92;
    pub const OFFSET_RAGE: usize = 96;
    pub const OFFSET_TOHIT: usize = 100;
    pub const OFFSET_DEF_0: usize = 104;
    pub const OFFSET_DEF_1: usize = 108;
    pub const OFFSET_DEF_2: usize = 112;
    pub const OFFSET_DEF_3: usize = 116;
    pub const OFFSET_DEF_4: usize = 120;
    pub const OFFSET_DEF_5: usize = 124;
    pub const OFFSET_DEF_6: usize = 128;
    pub const OFFSET_DEF_7: usize = 132;
    pub const OFFSET_DEF_8: usize = 136;
    pub const OFFSET_DEF_9: usize = 140;
    pub const OFFSET_DEF_10: usize = 144;
    pub const OFFSET_DEF_11: usize = 148;
    pub const OFFSET_DEF_12: usize = 152;
    pub const OFFSET_DEF_13: usize = 156;
    pub const OFFSET_DEF_14: usize = 160;
    pub const OFFSET_DEF_15: usize = 164;
    pub const OFFSET_DEF_16: usize = 168;
    pub const OFFSET_DEF_17: usize = 172;
    pub const OFFSET_DEF_18: usize = 176;
    pub const OFFSET_DEF_19: usize = 180;
    pub const OFFSET_DEFENSE: usize = 184;
    pub const OFFSET_RUNNING_SPEED: usize = 188;
    pub const OFFSET_FLYING_SPEED: usize = 192;
    pub const OFFSET_SWIMMING_SPEED: usize = 196;
    pub const OFFSET_JUMPING_SPEED: usize = 200;
    pub const OFFSET_JUMP_HEIGHT: usize = 204;
    pub const OFFSET_MOVEMENT_CONTROL: usize = 208;
    pub const OFFSET_MOVEMENT_FRICTION: usize = 212;
    pub const OFFSET_STEALTH: usize = 216;
    pub const OFFSET_STEALTH_RADIUS_PVE: usize = 220;
    pub const OFFSET_STEALTH_RADIUS_PVP: usize = 224;
    pub const OFFSET_PERCEPTION_RADIUS: usize = 228;
    pub const OFFSET_REGENERATION: usize = 232;
    pub const OFFSET_RECOVERY: usize = 236;
    pub const OFFSET_INSIGHT_RECOVERY: usize = 240;
    pub const OFFSET_THREAT_LEVEL: usize = 244;
    pub const OFFSET_TAUNT: usize = 248;
    pub const OFFSET_PLACATE: usize = 252;
    pub const OFFSET_CONFUSED: usize = 256;
    pub const OFFSET_AFRAID: usize = 260;
    pub const OFFSET_TERRORIZED: usize = 264;
    pub const OFFSET_HELD: usize = 268;
    pub const OFFSET_IMMOBILIZED: usize = 272;
    pub const OFFSET_STUNNED: usize = 276;
    pub const OFFSET_SLEEP: usize = 280;
    pub const OFFSET_FLY: usize = 284;
    pub const OFFSET_JUMP_PACK: usize = 288;
    pub const OFFSET_TELEPORT: usize = 292;
    pub const OFFSET_UNTOUCHABLE: usize = 296;
    pub const OFFSET_INTANGIBLE: usize = 300;
    pub const OFFSET_ONLY_AFFECTS_SELF: usize = 304;
    pub const OFFSET_EXPERIENCE_GAIN: usize = 308;
    pub const OFFSET_INFLUENCE_GAIN: usize = 312;
    pub const OFFSET_PRESTIGE_GAIN: usize = 316;
    pub const OFFSET_EVADE: usize = 320;
    pub const OFFSET_KNOCKUP: usize = 324;
    pub const OFFSET_KNOCKBACK: usize = 328;
    pub const OFFSET_REPEL: usize = 332;
    pub const OFFSET_ACCURACY: usize = 336;
    pub const OFFSET_RADIUS: usize = 340;
    pub const OFFSET_ARC: usize = 344;
    pub const OFFSET_RANGE: usize = 348;
    pub const OFFSET_TIME_TO_ACTIVATE: usize = 352;
    pub const OFFSET_RECHARGE_TIME: usize = 356;
    pub const OFFSET_INTERRUPT_TIME: usize = 360;
    pub const OFFSET_ENDURANCE_DISCOUNT: usize = 364;
    pub const OFFSET_INSIGHT_DISCOUNT: usize = 368;
    pub const OFFSET_METER: usize = 372;
    pub const OFFSET_ELUSIVITY_0: usize = 376;
    pub const OFFSET_ELUSIVITY_1: usize = 380;
    pub const OFFSET_ELUSIVITY_2: usize = 384;
    pub const OFFSET_ELUSIVITY_3: usize = 388;
    pub const OFFSET_ELUSIVITY_4: usize = 392;
    pub const OFFSET_ELUSIVITY_5: usize = 396;
    pub const OFFSET_ELUSIVITY_6: usize = 400;
    pub const OFFSET_ELUSIVITY_7: usize = 404;
    pub const OFFSET_ELUSIVITY_8: usize = 408;
    pub const OFFSET_ELUSIVITY_9: usize = 412;
    pub const OFFSET_ELUSIVITY_10: usize = 416;
    pub const OFFSET_ELUSIVITY_11: usize = 420;
    pub const OFFSET_ELUSIVITY_12: usize = 424;
    pub const OFFSET_ELUSIVITY_13: usize = 428;
    pub const OFFSET_ELUSIVITY_14: usize = 432;
    pub const OFFSET_ELUSIVITY_15: usize = 436;
    pub const OFFSET_ELUSIVITY_16: usize = 440;
    pub const OFFSET_ELUSIVITY_17: usize = 444;
    pub const OFFSET_ELUSIVITY_18: usize = 448;
    pub const OFFSET_ELUSIVITY_19: usize = 452;
    pub const OFFSET_ELUSIVITY_BASE: usize = 456;
}

/// An offset-based attribute reference from the character.
#[derive(Debug)]
pub struct CharacterAttrib(pub i32);

/// A reference to a mode of a character.
#[derive(Debug)]
pub struct ModeAttrib(pub i32);

/// A reference to a kind of boost.
#[derive(Debug)]
pub struct BoostAttrib(pub i32);

/// The attributes that are no part of a character's own: see the game's list
/// of special attributes.
#[allow(non_camel_case_types)]
#[derive(Clone, Copy, Debug, PartialEq, Eq, Structural)]
pub enum SpecialAttrib {
    kSpecialAttrib_Character(i32),
    kSpecialAttrib_Translucency,
    kSpecialAttrib_EntCreate,
    kSpecialAttrib_ClearDamagers,
    kSpecialAttrib_SilentKill,
    kSpecialAttrib_XPDebtProtection,
    kSpecialAttrib_SetMode,
    kSpecialAttrib_SetCostume,
    kSpecialAttrib_Glide,
    kSpecialAttrib_Null,
    kSpecialAttrib_Avoid,
    kSpecialAttrib_Reward,
    kSpecialAttrib_XPDebt,
    kSpecialAttrib_DropToggles,
    kSpecialAttrib_GrantPower,
    kSpecialAttrib_RevokePower,
    kSpecialAttrib_UnsetMode,
    kSpecialAttrib_GlobalChanceMod,
    kSpecialAttrib_PowerChanceMod,
    kSpecialAttrib_GrantBoostedPower,
    kSpecialAttrib_ViewAttrib,
    kSpecialAttrib_RewardSource,
    kSpecialAttrib_RewardSourceTeam,
    kSpecialAttrib_ClearFog,
    kSpecialAttrib_CombatPhase,
    kSpecialAttrib_CombatModShift,
    kSpecialAttrib_RechargePower,
    kSpecialAttrib_VisionPhase,
    kSpecialAttrib_NinjaRun,
    kSpecialAttrib_Walk,
    kSpecialAttrib_BeastRun,
    kSpecialAttrib_SteamJump,
    kSpecialAttrib_DesignerStatus,
    kSpecialAttrib_ExclusiveVisionPhase,
    kSpecialAttrib_HoverBoard,
    kSpecialAttrib_SetSZEValue,
    kSpecialAttrib_AddBehavior,
    kSpecialAttrib_MagicCarpet,
    kSpecialAttrib_TokenAdd,
    kSpecialAttrib_TokenSet,
    kSpecialAttrib_TokenClear,
    kSpecialAttrib_LuaExec,
    kSpecialAttrib_ForceMove,
    kSpecialAttrib_ParkourRun,
    kSpecialAttrib_CancelMods,
    kSpecialAttrib_ExecutePower,
    kSpecialAttrib_PowerRedirect,
    kSpecialAttrib_UNSET,
}

impl Default for SpecialAttrib {
    fn default() -> (r: Self)
        ensures
            r == SpecialAttrib::kSpecialAttrib_UNSET,
    {
        SpecialAttrib::kSpecialAttrib_UNSET
    }
}

impl SpecialAttrib {
    /// Special attributes start after the end of the character attributes.
    pub const SIZE_OF_CHARACTER_ATTRIBUTES: i32 = 460;

    /// The number that stands for the attribute; the unset attribute has
    /// none.
    pub open spec fn code(self) -> Option<i32> {
        match self {
            SpecialAttrib::kSpecialAttrib_Character(v) => Some(v),
            SpecialAttrib::kSpecialAttrib_UNSET => None,
            SpecialAttrib::kSpecialAttrib_Translucency => Some(460i32),
            SpecialAttrib::kSpecialAttrib_EntCreate => Some(461i32),
            SpecialAttrib::kSpecialAttrib_ClearDamagers => Some(462i32),
            SpecialAttrib::kSpecialAttrib_SilentKill => Some(463i32),
            SpecialAttrib::kSpecialAttrib_XPDebtProtection => Some(464i32),
            SpecialAttrib::kSpecialAttrib_SetMode => Some(465i32),
            SpecialAttrib::kSpecialAttrib_SetCostume => Some(466i32),
            SpecialAttrib::kSpecialAttrib_Glide => Some(467i32),
            SpecialAttrib::kSpecialAttrib_Null => Some(468i32),
            SpecialAttrib::kSpecialAttrib_Avoid => Some(469i32),
            SpecialAttrib::kSpecialAttrib_Reward => Some(470i32),
            SpecialAttrib::kSpecialAttrib_XPDebt => Some(471i32),
            SpecialAttrib::kSpecialAttrib_DropToggles => Some(472i32),
            SpecialAttrib::kSpecialAttrib_GrantPower => Some(473i32),
            SpecialAttrib::kSpecialAttrib_RevokePower => Some(474i32),
            SpecialAttrib::kSpecialAttrib_UnsetMode => Some(475i32),
            SpecialAttrib::kSpecialAttrib_GlobalChanceMod => Some(476i32),
            SpecialAttrib::kSpecialAttrib_PowerChanceMod => Some(477i32),
            SpecialAttrib::kSpecialAttrib_GrantBoostedPower => Some(478i32),
            SpecialAttrib::kSpecialAttrib_ViewAttrib => Some(479i32),
            SpecialAttrib::kSpecialAttrib_RewardSource => Some(480i32),
            SpecialAttrib::kSpecialAttrib_RewardSourceTeam => Some(481i32),
            SpecialAttrib::kSpecialAttrib_ClearFog => Some(482i32),
            SpecialAttrib::kSpecialAttrib_CombatPhase => Some(483i32),
            SpecialAttrib::kSpecialAttrib_CombatModShift => Some(484i32),
            SpecialAttrib::kSpecialAttrib_RechargePower => Some(485i32),
            SpecialAttrib::kSpecialAttrib_VisionPhase => Some(486i32),
            SpecialAttrib::kSpecialAttrib_NinjaRun => Some(487i32),
            SpecialAttrib::kSpecialAttrib_Walk => Some(488i32),
            SpecialAttrib::kSpecialAttrib_BeastRun => Some(489i32),
            SpecialAttrib::kSpecialAttrib_SteamJump => Some(490i32),
            SpecialAttrib::kSpecialAttrib_DesignerStatus => Some(491i32),
            SpecialAttrib::kSpecialAttrib_ExclusiveVisionPhase => Some(492i32),
            SpecialAttrib::kSpecialAttrib_HoverBoard => Some(493i32),
            SpecialAttrib::kSpecialAttrib_SetSZEValue => Some(494i32),
            SpecialAttrib::kSpecialAttrib_AddBehavior => Some(495i32),
            SpecialAttrib::kSpecialAttrib_MagicCarpet => Some(496i32),
            SpecialAttrib::kSpecialAttrib_TokenAdd => Some(497i32),
            SpecialAttrib::kSpecialAttrib_TokenSet => Some(498i32),
            SpecialAttrib::kSpecialAttrib_TokenClear => Some(499i32),
            SpecialAttrib::kSpecialAttrib_LuaExec => Some(500i32),
            SpecialAttrib::kSpecialAttrib_ForceMove => Some(501i32),
            SpecialAttrib::kSpecialAttrib_ParkourRun => Some(502i32),
            SpecialAttrib::kSpecialAttrib_CancelMods => Some(503i32),
            SpecialAttrib::kSpecialAttrib_ExecutePower => Some(504i32),
            SpecialAttrib::kSpecialAttrib_PowerRedirect => Some(1460i32),
        }
    }

    /// The number is that of one of the named special attributes.
    pub open spec fn is_special(val: i32) -> bool {
        460 <= val <= 504 || val == 1460
    }

    /// The attribute that a number stands for: the special attribute of that
    /// number, or else the character attribute at that offset.
    pub fn from_i32(val: i32) -> (r: Self)
        ensures
            r.code() == Some(val),
            r is kSpecialAttrib_Character <==> !Self::is_special(val),
    {
        match val {
            460 => SpecialAttrib::kSpecialAttrib_Translucency,
            461 => SpecialAttrib::kSpecialAttrib_EntCreate,
            462 => SpecialAttrib::kSpecialAttrib_ClearDamagers,
            463 => SpecialAttrib::kSpecialAttrib_SilentKill,
            464 => SpecialAttrib::kSpecialAttrib_XPDebtProtection,
            465 => SpecialAttrib::kSpecialAttrib_SetMode,
            466 => SpecialAttrib::kSpecialAttrib_SetCostume,
            467 => SpecialAttrib::kSpecialAttrib_Glide,
            468 => SpecialAttrib::kSpecialAttrib_Null,
            469 => SpecialAttrib::kSpecialAttrib_Avoid,
            470 => SpecialAttrib::kSpecialAttrib_Reward,
            471 => SpecialAttrib::kSpecialAttrib_XPDebt,
            472 => SpecialAttrib::kSpecialAttrib_DropToggles,
            473 => SpecialAttrib::kSpecialAttrib_GrantPower,
            474 => SpecialAttrib::kSpecialAttrib_RevokePower,
            475 => SpecialAttrib::kSpecialAttrib_UnsetMode,
            476 => SpecialAttrib::kSpecialAttrib_GlobalChanceMod,
            477 => SpecialAttrib::kSpecialAttrib_PowerChanceMod,
            478 => SpecialAttrib::kSpecialAttrib_GrantBoostedPower,
            479 => SpecialAttrib::kSpecialAttrib_ViewAttrib,
            480 => SpecialAttrib::kSpecialAttrib_RewardSource,
            481 => SpecialAttrib::kSpecialAttrib_RewardSourceTeam,
            482 => SpecialAttrib::kSpecialAttrib_ClearFog,
            483 => SpecialAttrib::kSpecialAttrib_CombatPhase,
            484 => SpecialAttrib::kSpecialAttrib_CombatModShift,
            485 => SpecialAttrib::kSpecialAttrib_RechargePower,
            486 => SpecialAttrib::kSpecialAttrib_VisionPhase,
            487 => SpecialAttrib::kSpecialAttrib_NinjaRun,
            488 => SpecialAttrib::kSpecialAttrib_Walk,
            489 => SpecialAttrib::kSpecialAttrib_BeastRun,
            490 => SpecialAttrib::kSpecialAttrib_SteamJump,
            491 => SpecialAttrib::kSpecialAttrib_DesignerStatus,
            492 => SpecialAttrib::kSpecialAttrib_ExclusiveVisionPhase,
            493 => SpecialAttrib::kSpecialAttrib_HoverBoard,
            494 => SpecialAttrib::kSpecialAttrib_SetSZEValue,
            495 => SpecialAttrib::kSpecialAttrib_AddBehavior,
            496 => SpecialAttrib::kSpecialAttrib_MagicCarpet,
            497 => SpecialAttrib::kSpecialAttrib_TokenAdd,
            498 => SpecialAttrib::kSpecialAttrib_TokenSet,
            499 => SpecialAttrib::kSpecialAttrib_TokenClear,
            500 => SpecialAttrib::kSpecialAttrib_LuaExec,
            501 => SpecialAttrib::kSpecialAttrib_ForceMove,
            502 => SpecialAttrib::kSpecialAttrib_ParkourRun,
            503 => SpecialAttrib::kSpecialAttrib_CancelMods,
            504 => SpecialAttrib::kSpecialAttrib_ExecutePower,
            1460 => SpecialAttrib::kSpecialAttrib_PowerRedirect,
            _ => SpecialAttrib::kSpecialAttrib_Character(val),
        }
    }

    /// The words that name the attribute.
    pub open spec fn label(self) -> Seq<char> {
        match self {
            SpecialAttrib::kSpecialAttrib_UNSET => ""@,
            SpecialAttrib::kSpecialAttrib_Character(_) => "Character Attribute"@,
            SpecialAttrib::kSpecialAttrib_Translucency => "Translucency"@,
            SpecialAttrib::kSpecialAttrib_EntCreate => "Create Entity"@,
            SpecialAttrib::kSpecialAttrib_ClearDamagers => "Clear Damagers"@,
            SpecialAttrib::kSpecialAttrib_SilentKill => "Silent Kill"@,
            SpecialAttrib::kSpecialAttrib_XPDebtProtection => "Debt Protection"@,
            SpecialAttrib::kSpecialAttrib_SetMode => "Set Mode"@,
            SpecialAttrib::kSpecialAttrib_SetCostume => "Set Costume"@,
            SpecialAttrib::kSpecialAttrib_Glide => "Glide"@,
            SpecialAttrib::kSpecialAttrib_Null => "Null"@,
            SpecialAttrib::kSpecialAttrib_Avoid => "Avoid"@,
            SpecialAttrib::kSpecialAttrib_Reward => "Reward"@,
            SpecialAttrib::kSpecialAttrib_XPDebt => "Debt"@,
            SpecialAttrib::kSpecialAttrib_DropToggles => "Drop Toggles"@,
            SpecialAttrib::kSpecialAttrib_GrantPower => "Grant Power"@,
            SpecialAttrib::kSpecialAttrib_RevokePower => "Revoke Power"@,
            SpecialAttrib::kSpecialAttrib_UnsetMode => "Unset Mode"@,
            SpecialAttrib::kSpecialAttrib_GlobalChanceMod => "Global Chance Mod"@,
            SpecialAttrib::kSpecialAttrib_PowerChanceMod => "Power Chance Mod"@,
            SpecialAttrib::kSpecialAttrib_GrantBoostedPower => "Grant Boosted Power"@,
            SpecialAttrib::kSpecialAttrib_ViewAttrib => "View Attributes"@,
            SpecialAttrib::kSpecialAttrib_RewardSource => "Reward Source"@,
            SpecialAttrib::kSpecialAttrib_RewardSourceTeam => "Reward Source Team"@,
            SpecialAttrib::kSpecialAttrib_ClearFog => "Clear Fog"@,
            SpecialAttrib::kSpecialAttrib_CombatPhase => "Combat Phase"@,
            SpecialAttrib::kSpecialAttrib_CombatModShift => "Level Shift"@,
            SpecialAttrib::kSpecialAttrib_RechargePower => "Recharge Power"@,
            SpecialAttrib::kSpecialAttrib_VisionPhase => "Vision Phase"@,
            SpecialAttrib::kSpecialAttrib_NinjaRun => "Ninja Run"@,
            SpecialAttrib::kSpecialAttrib_Walk => "Walk"@,
            SpecialAttrib::kSpecialAttrib_BeastRun => "Beast Run"@,
            SpecialAttrib::kSpecialAttrib_SteamJump => "Steam Jump"@,
            SpecialAttrib::kSpecialAttrib_DesignerStatus => "Designer Status"@,
            SpecialAttrib::kSpecialAttrib_ExclusiveVisionPhase => "Exclusive Vision Phase"@,
            SpecialAttrib::kSpecialAttrib_HoverBoard => "Hover Board"@,
            SpecialAttrib::kSpecialAttrib_SetSZEValue => "Set Script Value"@,
            SpecialAttrib::kSpecialAttrib_AddBehavior => "Add Behavior"@,
            SpecialAttrib::kSpecialAttrib_MagicCarpet => "Magic Carpet"@,
            SpecialAttrib::kSpecialAttrib_TokenAdd => "Add Token"@,
            SpecialAttrib::kSpecialAttrib_TokenSet => "Set Token"@,
            SpecialAttrib::kSpecialAttrib_TokenClear => "Clear Token"@,
            SpecialAttrib::kSpecialAttrib_LuaExec => "Execute Script"@,
            SpecialAttrib::kSpecialAttrib_ForceMove => "Force Move"@,
            SpecialAttrib::kSpecialAttrib_ParkourRun => "Parkour Run"@,
            SpecialAttrib::kSpecialAttrib_CancelMods => "Cancel Effects"@,
            SpecialAttrib::kSpecialAttrib_ExecutePower => "Execute Power"@,
            SpecialAttrib::kSpecialAttrib_PowerRedirect => "Redirect Power"@,
        }
    }

    /// Gets a human readable string representing this attribute. Every
    /// character attribute has the same one here: they are named by
    /// [`CharacterAttrib::get_string`].
    pub fn get_string(&self) -> (s: &'static str)
        ensures
            s@ == self.label(),
    {
        match self {
            SpecialAttrib::kSpecialAttrib_UNSET => "",
            SpecialAttrib::kSpecialAttrib_Character(_) => "Character Attribute",
            SpecialAttrib::kSpecialAttrib_Translucency => "Translucency",
            SpecialAttrib::kSpecialAttrib_EntCreate => "Create Entity",
            SpecialAttrib::kSpecialAttrib_ClearDamagers => "Clear Damagers",
            SpecialAttrib::kSpecialAttrib_SilentKill => "Silent Kill",
            SpecialAttrib::kSpecialAttrib_XPDebtProtection => "Debt Protection",
            SpecialAttrib::kSpecialAttrib_SetMode => "Set Mode",
            SpecialAttrib::kSpecialAttrib_SetCostume => "Set Costume",
            SpecialAttrib::kSpecialAttrib_Glide => "Glide",
            SpecialAttrib::kSpecialAttrib_Null => "Null",
            SpecialAttrib::kSpecialAttrib_Avoid => "Avoid",
            SpecialAttrib::kSpecialAttrib_Reward => "Reward",
            SpecialAttrib::kSpecialAttrib_XPDebt => "Debt",
            SpecialAttrib::kSpecialAttrib_DropToggles => "Drop Toggles",
            SpecialAttrib::kSpecialAttrib_GrantPower => "Grant Power",
            SpecialAttrib::kSpecialAttrib_RevokePower => "Revoke Power",
            SpecialAttrib::kSpecialAttrib_UnsetMode => "Unset Mode",
            SpecialAttrib::kSpecialAttrib_GlobalChanceMod => "Global Chance Mod",
            SpecialAttrib::kSpecialAttrib_PowerChanceMod => "Power Chance Mod",
            SpecialAttrib::kSpecialAttrib_GrantBoostedPower => "Grant Boosted Power",
            SpecialAttrib::kSpecialAttrib_ViewAttrib => "View Attributes",
            SpecialAttrib::kSpecialAttrib_RewardSource => "Reward Source",
            SpecialAttrib::kSpecialAttrib_RewardSourceTeam => "Reward Source Team",
            SpecialAttrib::kSpecialAttrib_ClearFog => "Clear Fog",
            SpecialAttrib::kSpecialAttrib_CombatPhase => "Combat Phase",
            SpecialAttrib::kSpecialAttrib_CombatModShift => "Level Shift",
            SpecialAttrib::kSpecialAttrib_RechargePower => "Recharge Power",
            SpecialAttrib::kSpecialAttrib_VisionPhase => "Vision Phase",
            SpecialAttrib::kSpecialAttrib_NinjaRun => "Ninja Run",
            SpecialAttrib::kSpecialAttrib_Walk => "Walk",
            SpecialAttrib::kSpecialAttrib_BeastRun => "Beast Run",
            SpecialAttrib::kSpecialAttrib_SteamJump => "Steam Jump",
            SpecialAttrib::kSpecialAttrib_DesignerStatus => "Designer Status",
            SpecialAttrib::kSpecialAttrib_ExclusiveVisionPhase => "Exclusive Vision Phase",
            SpecialAttrib::kSpecialAttrib_HoverBoard => "Hover Board",
            SpecialAttrib::kSpecialAttrib_SetSZEValue => "Set Script Value",
            SpecialAttrib::kSpecialAttrib_AddBehavior => "Add Behavior",
            SpecialAttrib::kSpecialAttrib_MagicCarpet => "Magic Carpet",
            SpecialAttrib::kSpecialAttrib_TokenAdd => "Add Token",
            SpecialAttrib::kSpecialAttrib_TokenSet => "Set Token",
            SpecialAttrib::kSpecialAttrib_TokenClear => "Clear Token",
            SpecialAttrib::kSpecialAttrib_LuaExec => "Execute Script",
            SpecialAttrib::kSpecialAttrib_ForceMove => "Force Move",
            SpecialAttrib::kSpecialAttrib_ParkourRun => "Parkour Run",
            SpecialAttrib::kSpecialAttrib_CancelMods => "Cancel Effects",
            SpecialAttrib::kSpecialAttrib_ExecutePower => "Execute Power",
            SpecialAttrib::kSpecialAttrib_PowerRedirect => "Redirect Power",
        }
    }
}

/// The name of the attribute at one of the offsets that have a name of
/// their own.
pub open spec fn own_label(offset: int) -> Option<Seq<char>> {
    if offset == CharacterAttributes::OFFSET_HIT_POINTS {
        Some("HitPoints"@)
    } else if offset == CharacterAttributes::OFFSET_ABSORB {
        Some("Absorb"@)
    } else if offset == CharacterAttributes::OFFSET_ENDURANCE {
        Some("Endurance"@)
    } else if offset == CharacterAttributes::OFFSET_INSIGHT {
        Some("Insight"@)
    } else if offset == CharacterAttributes::OFFSET_RAGE {
        Some("Rage"@)
    } else if offset == CharacterAttributes::OFFSET_TOHIT {
        Some("ToHit"@)
    } else if offset == CharacterAttributes::OFFSET_DEFENSE {
        Some("Defense"@)
    } else if offset == CharacterAttributes::OFFSET_RUNNING_SPEED {
        Some("RunningSpeed"@)
    } else if offset == CharacterAttributes::OFFSET_FLYING_SPEED {
        Some("FlyingSpeed"@)
    } else if offset == CharacterAttributes::OFFSET_SWIMMING_SPEED {
        Some("SwimmingSpeed"@)
    } else if offset == CharacterAttributes::OFFSET_JUMPING_SPEED {
        Some("JumpingSpeed"@)
    } else if offset == CharacterAttributes::OFFSET_JUMP_HEIGHT {
        Some("JumpHeight"@)
    } else if offset == CharacterAttributes::OFFSET_MOVEMENT_CONTROL {
        Some("MovementControl"@)
    } else if offset == CharacterAttributes::OFFSET_MOVEMENT_FRICTION {
        Some("MovementFriction"@)
    } else if offset == CharacterAttributes::OFFSET_STEALTH {
        Some("Stealth"@)
    } else if offset == CharacterAttributes::OFFSET_STEALTH_RADIUS_PVE {
        Some("StealthRadius_PVE"@)
    } else if offset == CharacterAttributes::OFFSET_STEALTH_RADIUS_PVP {
        Some("StealthRadius_PVP"@)
    } else if offset == CharacterAttributes::OFFSET_PERCEPTION_RADIUS {
        Some("PerceptionRadius"@)
    } else if offset == CharacterAttributes::OFFSET_REGENERATION {
        Some("Regeneration"@)
    } else if offset == CharacterAttributes::OFFSET_RECOVERY {
        Some("Recovery"@)
    } else if offset == CharacterAttributes::OFFSET_INSIGHT_RECOVERY {
        Some("InsightRecovery"@)
    } else if offset == CharacterAttributes::OFFSET_THREAT_LEVEL {
        Some("ThreatLevel"@)
    } else if offset == CharacterAttributes::OFFSET_TAUNT {
        Some("Taunt"@)
    } else if offset == CharacterAttributes::OFFSET_PLACATE {
        Some("Placate"@)
    } else if offset == CharacterAttributes::OFFSET_CONFUSED {
        Some("Confused"@)
    } else if offset == CharacterAttributes::OFFSET_AFRAID {
        Some("Afraid"@)
    } else if offset == CharacterAttributes::OFFSET_TERRORIZED {
        Some("Terrorized"@)
    } else if offset == CharacterAttributes::OFFSET_HELD {
        Some("Held"@)
    } else if offset == CharacterAttributes::OFFSET_IMMOBILIZED {
        Some("Immobilized"@)
    } else if offset == CharacterAttributes::OFFSET_STUNNED {
        Some("Stunned"@)
    } else if offset == CharacterAttributes::OFFSET_SLEEP {
        Some("Sleep"@)
    } else if offset == CharacterAttributes::OFFSET_FLY {
        Some("Fly"@)
    } else if offset == CharacterAttributes::OFFSET_JUMP_PACK {
        Some("Jump Pack"@)
    } else if offset == CharacterAttributes::OFFSET_TELEPORT {
        Some("Teleport"@)
    } else if offset == CharacterAttributes::OFFSET_UNTOUCHABLE {
        Some("Untouchable"@)
    } else if offset == CharacterAttributes::OFFSET_INTANGIBLE {
        Some("Intangible"@)
    } else if offset == CharacterAttributes::OFFSET_ONLY_AFFECTS_SELF {
        Some("OnlyAffectsSelf"@)
    } else if offset == CharacterAttributes::OFFSET_EXPERIENCE_GAIN {
        Some("ExperienceGain"@)
    } else if offset == CharacterAttributes::OFFSET_INFLUENCE_GAIN {
        Some("InfluenceGain"@)
    } else if offset == CharacterAttributes::OFFSET_PRESTIGE_GAIN {
        Some("PrestigeGain"@)
    } else if offset == CharacterAttributes::OFFSET_EVADE {
        Some("Evade"@)
    } else if offset == CharacterAttributes::OFFSET_KNOCKUP {
        Some("Knockup"@)
    } else if offset == CharacterAttributes::OFFSET_KNOCKBACK {
        Some("Knockback"@)
    } else if offset == CharacterAttributes::OFFSET_REPEL {
        Some("Repel"@)
    } else if offset == CharacterAttributes::OFFSET_ACCURACY {
        Some("Accuracy"@)
    } else if offset == CharacterAttributes::OFFSET_RADIUS {
        Some("Radius"@)
    } else if offset == CharacterAttributes::OFFSET_ARC {
        Some("Arc"@)
    } else if offset == CharacterAttributes::OFFSET_RANGE {
        Some("Range"@)
    } else if offset == CharacterAttributes::OFFSET_TIME_TO_ACTIVATE {
        Some("TimeToActivate"@)
    } else if offset == CharacterAttributes::OFFSET_RECHARGE_TIME {
        Some("RechargeTime"@)
    } else if offset == CharacterAttributes::OFFSET_INTERRUPT_TIME {
        Some("InterruptTime"@)
    } else if offset == CharacterAttributes::OFFSET_ENDURANCE_DISCOUNT {
        Some("EnduranceDiscount"@)
    } else if offset == CharacterAttributes::OFFSET_INSIGHT_DISCOUNT {
        Some("InsightDiscount"@)
    } else if offset == CharacterAttributes::OFFSET_METER {
        Some("Meter"@)
    } else if offset == CharacterAttributes::OFFSET_ELUSIVITY_BASE {
        Some("ElusivityBase"@)
    } else {
        None
    }
}

/// The name that the table gives to the attribute of a group (the kinds of
/// damage, of defense, of elusivity): the display name at the index, with
/// the suffix of the group. None where the table ends before the index.
pub open spec fn group_label(table: Seq<AttribName>, index: int, suffix: Seq<char>) -> Option<
    Seq<char>,
> {
    if 0 <= index < table.len() {
        match table[index].pch_display_name {
            Some(name) => Some(name@ + suffix),
            None => None,
        }
    } else {
        None
    }
}

/// The entry of the table of a group has a display name, where the table
/// has the entry.
pub open spec fn group_named(table: Seq<AttribName>, index: int) -> bool {
    0 <= index < table.len() ==> table[index].pch_display_name is Some
}

/// Whether the entry of the table of a group has a display name: see
/// [`group_named`].
fn group_has_name(table: &Vec<AttribName>, index: usize) -> (r: bool)
    ensures
        r == group_named(table@, index as int),
{
    if index < table.len() {
        table[index].pch_display_name.is_some()
    } else {
        true
    }
}

/// The name at the index, with the suffix: see [`group_label`].
fn group_string(table: &Vec<AttribName>, index: usize, suffix: &'static str) -> (r: Option<String>)
    requires
        group_named(table@, index as int),
    ensures
        opt_str(r) == group_label(table@, index as int, suffix@),
{
    if index < table.len() {
        match &table[index].pch_display_name {
            Some(name) => Some(name.clone().concat(suffix)),
            None => None,
        }
    } else {
        None
    }
}

impl CharacterAttrib {
    /// Shorthand function to convert this `CharacterAttrib` to a `usize` value.
    pub fn usize(&self) -> (r: usize)
        ensures
            r == self.0 as usize,
            self.0 >= 0 ==> r == self.0,
    {
        self.0 as usize
    }

    /// The special attribute that the number stands for, if it is the
    /// number of one of the named special attributes: never the attribute
    /// of a character at that offset, and never the unset attribute.
    pub fn as_special_attrib(&self) -> (r: Option<SpecialAttrib>)
        ensures
            r is Some <==> SpecialAttrib::is_special(self.0),
            r is Some ==> r->0.code() == Some(self.0),
            r is Some ==> !(r->0 is kSpecialAttrib_Character) && !(r->0 is kSpecialAttrib_UNSET),
    {
        let attr = SpecialAttrib::from_i32(self.0);
        match attr {
            SpecialAttrib::kSpecialAttrib_Character(_) => None,
            SpecialAttrib::kSpecialAttrib_UNSET => None,
            _ => Some(attr),
        }
    }

    /// The name of the attribute. The kinds of damage, defense and
    /// elusivity take theirs from the tables, each from the offset of its
    /// group on, one name for every four bytes; the other attributes of a
    /// character have names of their own; and what is no attribute of a
    /// character is named as a special attribute.
    pub open spec fn label(self, names: AttribNames) -> Option<Seq<char>> {
        let v = self.0 as int;
        if CharacterAttributes::OFFSET_DMG_0 <= v <= CharacterAttributes::OFFSET_DMG_19 {
            group_label(names.pp_damage@, v / PTR_SIZE as int, "_Dmg"@)
        } else if CharacterAttributes::OFFSET_DEF_0 <= v <= CharacterAttributes::OFFSET_DEF_19 {
            group_label(
                names.pp_defense@,
                (v - CharacterAttributes::OFFSET_DEF_0) / PTR_SIZE as int,
                "_Def"@,
            )
        } else if CharacterAttributes::OFFSET_ELUSIVITY_0 <= v
            <= CharacterAttributes::OFFSET_ELUSIVITY_19 {
            group_label(
                names.pp_elusivity@,
                (v - CharacterAttributes::OFFSET_ELUSIVITY_0) / PTR_SIZE as int,
                "_Elusivity"@,
            )
        } else {
            match own_label(v) {
                Some(l) => Some(l),
                None => Some(
                    if SpecialAttrib::is_special(self.0) {
                        special_label(self.0)
                    } else {
                        "Character Attribute"@
                    },
                ),
            }
        }
    }

    /// The entry of the tables that names the attribute has a display name.
    pub open spec fn named_in(self, names: AttribNames) -> bool {
        let v = self.0 as int;
        &&& CharacterAttributes::OFFSET_DMG_0 <= v <= CharacterAttributes::OFFSET_DMG_19
            ==> group_named(names.pp_damage@, v / PTR_SIZE as int)
        &&& CharacterAttributes::OFFSET_DEF_0 <= v <= CharacterAttributes::OFFSET_DEF_19
            ==> group_named(
            names.pp_defense@,
            (v - CharacterAttributes::OFFSET_DEF_0) / PTR_SIZE as int,
        )
        &&& CharacterAttributes::OFFSET_ELUSIVITY_0 <= v
            <= CharacterAttributes::OFFSET_ELUSIVITY_19 ==> group_named(
            names.pp_elusivity@,
            (v - CharacterAttributes::OFFSET_ELUSIVITY_0) / PTR_SIZE as int,
        )
    }

    /// Whether the entry of the tables that names the attribute has a
    /// display name: see [`CharacterAttrib::named_in`].
    pub fn has_name_in(&self, attrib_names: &AttribNames) -> (r: bool)
        ensures
            r == self.named_in(*attrib_names),
    {
        let v = self.0;
        if v < 0 {
            return true;
        }
        let offset = v as usize;
        if offset <= CharacterAttributes::OFFSET_DMG_19 {
            group_has_name(&attrib_names.pp_damage, offset / PTR_SIZE)
        } else if CharacterAttributes::OFFSET_DEF_0 <= offset && offset
            <= CharacterAttributes::OFFSET_DEF_19 {
            group_has_name(
                &attrib_names.pp_defense,
                (offset - CharacterAttributes::OFFSET_DEF_0) / PTR_SIZE,
            )
        } else if CharacterAttributes::OFFSET_ELUSIVITY_0 <= offset && offset
            <= CharacterAttributes::OFFSET_ELUSIVITY_19 {
            group_has_name(
                &attrib_names.pp_elusivity,
                (offset - CharacterAttributes::OFFSET_ELUSIVITY_0) / PTR_SIZE,
            )
        } else {
            true
        }
    }

    /// Converts a character attribute to a human readable string. The
    /// entry of the tables that names the attribute must have a display
    /// name.
    pub fn get_string(&self, attrib_names: &AttribNames) -> (r: Option<String>)
        requires
            self.named_in(*attrib_names),
        ensures
            opt_str(r) == self.label(*attrib_names),
    {
        let v = self.0;
        if v < 0 {
            // no offset at all
            proof {
                assert(own_label(v as int) is None);
            }
            return Some(String::from_str(SpecialAttrib::from_i32(v).get_string()));
        }
        let offset = v as usize;
        // The entries of the groups are divided by PTR_SIZE to get the name
        // because the offsets are those of values of that size.
        if offset <= CharacterAttributes::OFFSET_DMG_19 {
            group_string(&attrib_names.pp_damage, offset / PTR_SIZE, "_Dmg")
        } else if CharacterAttributes::OFFSET_DEF_0 <= offset && offset
            <= CharacterAttributes::OFFSET_DEF_19 {
            group_string(
                &attrib_names.pp_defense,
                (offset - CharacterAttributes::OFFSET_DEF_0) / PTR_SIZE,
                "_Def",
            )
        } else if CharacterAttributes::OFFSET_ELUSIVITY_0 <= offset && offset
            <= CharacterAttributes::OFFSET_ELUSIVITY_19 {
            group_string(
                &attrib_names.pp_elusivity,
                (offset - CharacterAttributes::OFFSET_ELUSIVITY_0) / PTR_SIZE,
                "_Elusivity",
            )
        } else {
            match own_name(offset) {
                Some(name) => Some(String::from_str(name)),
                None => {
                    // Special attributes and character attributes share the same
                    // offset space.
                    let attrib = SpecialAttrib::from_i32(v);
                    proof {
                        lemma_special_label(attrib, v);
                    }
                    Some(String::from_str(attrib.get_string()))
                },
            }
        }
    }
}

/// The name of the special attribute of a number.
pub open spec fn special_label(val: i32) -> Seq<char> {
    if val == 460 {
        "Translucency"@
    } else if val == 461 {
        "Create Entity"@
    } else if val == 462 {
        "Clear Damagers"@
    } else if val == 463 {
        "Silent Kill"@
    } else if val == 464 {
        "Debt Protection"@
    } else if val == 465 {
        "Set Mode"@
    } else if val == 466 {
        "Set Costume"@
    } else if val == 467 {
        "Glide"@
    } else if val == 468 {
        "Null"@
    } else if val == 469 {
        "Avoid"@
    } else if val == 470 {
        "Reward"@
    } else if val == 471 {
        "Debt"@
    } else if val == 472 {
        "Drop Toggles"@
    } else if val == 473 {
        "Grant Power"@
    } else if val == 474 {
        "Revoke Power"@
    } else if val == 475 {
        "Unset Mode"@
    } else if val == 476 {
        "Global Chance Mod"@
    } else if val == 477 {
        "Power Chance Mod"@
    } else if val == 478 {
        "Grant Boosted Power"@
    } else if val == 479 {
        "View Attributes"@
    } else if val == 480 {
        "Reward Source"@
    } else if val == 481 {
        "Reward Source Team"@
    } else if val == 482 {
        "Clear Fog"@
    } else if val == 483 {
        "Combat Phase"@
    } else if val == 484 {
        "Level Shift"@
    } else if val == 485 {
        "Recharge Power"@
    } else if val == 486 {
        "Vision Phase"@
    } else if val == 487 {
        "Ninja Run"@
    } else if val == 488 {
        "Walk"@
    } else if val == 489 {
        "Beast Run"@
    } else if val == 490 {
        "Steam Jump"@
    } else if val == 491 {
        "Designer Status"@
    } else if val == 492 {
        "Exclusive Vision Phase"@
    } else if val == 493 {
        "Hover Board"@
    } else if val == 494 {
        "Set Script Value"@
    } else if val == 495 {
        "Add Behavior"@
    } else if val == 496 {
        "Magic Carpet"@
    } else if val == 497 {
        "Add Token"@
    } else if val == 498 {
        "Set Token"@
    } else if val == 499 {
        "Clear Token"@
    } else if val == 500 {
        "Execute Script"@
    } else if val == 501 {
        "Force Move"@
    } else if val == 502 {
        "Parkour Run"@
    } else if val == 503 {
        "Cancel Effects"@
    } else if val == 504 {
        "Execute Power"@
    } else if val == 1460 {
        "Redirect Power"@
    } else {
        "Character Attribute"@
    }
}

/// The attribute that a number stands for is named as the number says.
pub proof fn lemma_special_label(attrib: SpecialAttrib, val: i32)
    requires
        attrib.code() == Some(val),
        attrib is kSpecialAttrib_Character <==> !SpecialAttrib::is_special(val),
    ensures
        attrib.label() == if SpecialAttrib::is_special(val) {
            special_label(val)
        } else {
            "Character Attribute"@
        },
{
}

/// The name of the attribute at one of the offsets that have a name of
/// their own: see [`own_label`].
fn own_name(offset: usize) -> (r: Option<&'static str>)
    ensures
        match r {
            Some(s) => own_label(offset as int) == Some(s@),
            None => own_label(offset as int) is None,
        },
{
    if offset == CharacterAttributes::OFFSET_HIT_POINTS {
        Some("HitPoints")
    } else if offset == CharacterAttributes::OFFSET_ABSORB {
        Some("Absorb")
    } else if offset == CharacterAttributes::OFFSET_ENDURANCE {
        Some("Endurance")
    } else if offset == CharacterAttributes::OFFSET_INSIGHT {
        Some("Insight")
    } else if offset == CharacterAttributes::OFFSET_RAGE {
        Some("Rage")
    } else if offset == CharacterAttributes::OFFSET_TOHIT {
        Some("ToHit")
    } else if offset == CharacterAttributes::OFFSET_DEFENSE {
        Some("Defense")
    } else if offset == CharacterAttributes::OFFSET_RUNNING_SPEED {
        Some("RunningSpeed")
    } else if offset == CharacterAttributes::OFFSET_FLYING_SPEED {
        Some("FlyingSpeed")
    } else if offset == CharacterAttributes::OFFSET_SWIMMING_SPEED {
        Some("SwimmingSpeed")
    } else if offset == CharacterAttributes::OFFSET_JUMPING_SPEED {
        Some("JumpingSpeed")
    } else if offset == CharacterAttributes::OFFSET_JUMP_HEIGHT {
        Some("JumpHeight")
    } else if offset == CharacterAttributes::OFFSET_MOVEMENT_CONTROL {
        Some("MovementControl")
    } else if offset == CharacterAttributes::OFFSET_MOVEMENT_FRICTION {
        Some("MovementFriction")
    } else if offset == CharacterAttributes::OFFSET_STEALTH {
        Some("Stealth")
    } else if offset == CharacterAttributes::OFFSET_STEALTH_RADIUS_PVE {
        Some("StealthRadius_PVE")
    } else if offset == CharacterAttributes::OFFSET_STEALTH_RADIUS_PVP {
        Some("StealthRadius_PVP")
    } else if offset == CharacterAttributes::OFFSET_PERCEPTION_RADIUS {
        Some("PerceptionRadius")
    } else if offset == CharacterAttributes::OFFSET_REGENERATION {
        Some("Regeneration")
    } else if offset == CharacterAttributes::OFFSET_RECOVERY {
        Some("Recovery")
    } else if offset == CharacterAttributes::OFFSET_INSIGHT_RECOVERY {
        Some("InsightRecovery")
    } else if offset == CharacterAttributes::OFFSET_THREAT_LEVEL {
        Some("ThreatLevel")
    } else if offset == CharacterAttributes::OFFSET_TAUNT {
        Some("Taunt")
    } else if offset == CharacterAttributes::OFFSET_PLACATE {
        Some("Placate")
    } else if offset == CharacterAttributes::OFFSET_CONFUSED {
        Some("Confused")
    } else if offset == CharacterAttributes::OFFSET_AFRAID {
        Some("Afraid")
    } else if offset == CharacterAttributes::OFFSET_TERRORIZED {
        Some("Terrorized")
    } else if offset == CharacterAttributes::OFFSET_HELD {
        Some("Held")
    } else if offset == CharacterAttributes::OFFSET_IMMOBILIZED {
        Some("Immobilized")
    } else if offset == CharacterAttributes::OFFSET_STUNNED {
        Some("Stunned")
    } else if offset == CharacterAttributes::OFFSET_SLEEP {
        Some("Sleep")
    } else if offset == CharacterAttributes::OFFSET_FLY {
        Some("Fly")
    } else if offset == CharacterAttributes::OFFSET_JUMP_PACK {
        Some("Jump Pack")
    } else if offset == CharacterAttributes::OFFSET_TELEPORT {
        Some("Teleport")
    } else if offset == CharacterAttributes::OFFSET_UNTOUCHABLE {
        Some("Untouchable")
    } else if offset == CharacterAttributes::OFFSET_INTANGIBLE {
        Some("Intangible")
    } else if offset == CharacterAttributes::OFFSET_ONLY_AFFECTS_SELF {
        Some("OnlyAffectsSelf")
    } else if offset == CharacterAttributes::OFFSET_EXPERIENCE_GAIN {
        Some("ExperienceGain")
    } else if offset == CharacterAttributes::OFFSET_INFLUENCE_GAIN {
        Some("InfluenceGain")
    } else if offset == CharacterAttributes::OFFSET_PRESTIGE_GAIN {
        Some("PrestigeGain")
    } else if offset == CharacterAttributes::OFFSET_EVADE {
        Some("Evade")
    } else if offset == CharacterAttributes::OFFSET_KNOCKUP {
        Some("Knockup")
    } else if offset == CharacterAttributes::OFFSET_KNOCKBACK {
        Some("Knockback")
    } else if offset == CharacterAttributes::OFFSET_REPEL {
        Some("Repel")
    } else if offset == CharacterAttributes::OFFSET_ACCURACY {
        Some("Accuracy")
    } else if offset == CharacterAttributes::OFFSET_RADIUS {
        Some("Radius")
    } else if offset == CharacterAttributes::OFFSET_ARC {
        Some("Arc")
    } else if offset == CharacterAttributes::OFFSET_RANGE {
        Some("Range")
    } else if offset == CharacterAttributes::OFFSET_TIME_TO_ACTIVATE {
        Some("TimeToActivate")
    } else if offset == CharacterAttributes::OFFSET_RECHARGE_TIME {
        Some("RechargeTime")
    } else if offset == CharacterAttributes::OFFSET_INTERRUPT_TIME {
        Some("InterruptTime")
    } else if offset == CharacterAttributes::OFFSET_ENDURANCE_DISCOUNT {
        Some("EnduranceDiscount")
    } else if offset == CharacterAttributes::OFFSET_INSIGHT_DISCOUNT {
        Some("InsightDiscount")
    } else if offset == CharacterAttributes::OFFSET_METER {
        Some("Meter")
    } else if offset == CharacterAttributes::OFFSET_ELUSIVITY_BASE {
        Some("ElusivityBase")
    } else {
        None
    }
}

impl ModeAttrib {
    /// Shorthand function to convert this `ModeAttrib` to a `usize` value.
    pub fn usize(&self) -> (r: usize)
        ensures
            r == self.0 as usize,
            self.0 >= 0 ==> r == self.0,
    {
        self.0 as usize
    }

    /// The name of the mode: the first has a name of its own, the others
    /// are named by the table of modes.
    pub open spec fn label(self, names: AttribNames) -> Option<Seq<char>> {
        if self.0 == 0 {
            Some("ServerTrayOverride"@)
        } else if 0 < self.0 < names.pp_mode@.len() {
            opt_str(names.pp_mode@[self.0 as int].pch_name)
        } else {
            None
        }
    }

    /// Converts a mode attribute to a human readable string.
    pub fn get_string(&self, attrib_names: &AttribNames) -> (r: Option<String>)
        ensures
            opt_str(r) == self.label(*attrib_names),
    {
        if self.0 == 0 {
            Some(String::from_str("ServerTrayOverride"))
        } else if self.0 > 0 && (self.0 as usize) < attrib_names.pp_mode.len() {
            match &attrib_names.pp_mode[self.0 as usize].pch_name {
                Some(name) => Some(name.clone()),
                None => None,
            }
        } else {
            None
        }
    }
}

impl BoostAttrib {
    /// Shorthand function to convert this `BoostAttrib` to a `usize` value.
    pub fn usize(&self) -> (r: usize)
        ensures
            r == self.0 as usize,
            self.0 >= 0 ==> r == self.0,
    {
        self.0 as usize
    }

    /// The name of the kind of boost: the numbers from 5 to 99 are named by
    /// the table of boosts, which begins behind the origins; the others have
    /// no name.
    pub open spec fn label(self, names: AttribNames) -> Option<Seq<char>> {
        if ORIGINS_SIZE <= self.0 <= 99 && self.0 - ORIGINS_SIZE < names.pp_boost@.len() {
            opt_str(names.pp_boost@[self.0 - ORIGINS_SIZE].pch_display_name)
        } else {
            None
        }
    }

    /// Converts a boost attribute to a human readable string.
    pub fn get_string(&self, attrib_names: &AttribNames) -> (r: Option<String>)
        ensures
            opt_str(r) == self.label(*attrib_names),
    {
        if 5 <= self.0 && self.0 <= 99 {
            // the table begins behind the origins
            let index = (self.0 as usize) - ORIGINS_SIZE;
            if index < attrib_names.pp_boost.len() {
                match &attrib_names.pp_boost[index].pch_display_name {
                    Some(name) => Some(name.clone()),
                    None => None,
                }
            } else {
                None
            }
        } else {
            None
        }
    }
}

} // verus!
