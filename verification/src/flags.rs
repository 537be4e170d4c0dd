//! Sets of flags kept as bits of a number, and the names of the flags.

use vstd::prelude::*;
use crate::attribs::SpecialAttrib;
use crate::enums::words;

verus! {

/// The name of a flag, in a list of its own, where the bits have the flag;
/// else the empty list.
pub open spec fn flag_name(bits: u32, flag: u32, name: Seq<char>) -> Seq<Seq<char>> {
    if (bits & flag) == flag {
        seq![name]
    } else {
        Seq::empty()
    }
}

/// Puts the name of a flag behind the list where the bits have the flag.
fn push_flag_name(strings: &mut Vec<&'static str>, bits: u32, flag: u32, name: &'static str)
    ensures
        words(final(strings)@) == words(old(strings)@) + flag_name(bits, flag, name@),
{
    if (bits & flag) == flag {
        strings.push(name);
    }
    assert(words(strings@) =~= words(old(strings)@) + flag_name(bits, flag, name@));
}

/// Flags of an effect group.
#[derive(Clone, Copy, Debug, PartialEq, Eq, Structural)]
pub struct EffectGroupFlag {
    pub bits: u32,
}

#[allow(non_upper_case_globals)]
impl EffectGroupFlag {
    /// If true, this effect group is ignored while on PVP maps.
    pub const PVEOnly: u32 = 1;

    /// If true, this effect group is ignored while on PVE maps.
    pub const PVPOnly: u32 = 2;

    /// Fallback effect groups are normally ignored. If no non-fallback effect
    /// groups within the same collection are eligible to be applied
    pub const Fallback: u32 = 4;

    /// Effect only the main target. Added i26p6 (replaced the deprecated LinkedChance).
    /// Might've actually been pw5 but I missed it.
    pub const MainTargetOnly: u32 = 8;

    /// Effect only the secondary targets. Added i26p6 or pw5.
    pub const SecondaryTargetsOnly: u32 = 16;

    /// Added i27
    pub const HideFromInfo: u32 = 32;

    /// Added i27
    pub const HitRollSuccess: u32 = 64;

    /// Added i27
    pub const HitRollFail: u32 = 128;

    /// The set with the given bits.
    pub fn from_bits(bits: u32) -> (r: Self)
        ensures
            r.bits == bits,
    {
        EffectGroupFlag { bits }
    }

    /// Whether the set has every bit of `flag`.
    pub fn contains(&self, flag: u32) -> (r: bool)
        ensures
            r == ((self.bits & flag) == flag),
    {
        (self.bits & flag) == flag
    }

    /// The names of the flags of the set, in the order of their bits.
    pub open spec fn names(self) -> Seq<Seq<char>> {
        flag_name(self.bits, 1, "PVEOnly"@)
            + flag_name(self.bits, 2, "PVPOnly"@)
            + flag_name(self.bits, 4, "Fallback"@)
            + flag_name(self.bits, 8, "MainTargetOnly"@)
            + flag_name(self.bits, 16, "SecondaryTargetsOnly"@)
            + flag_name(self.bits, 32, "HideFromInfo"@)
            + flag_name(self.bits, 64, "HitRollSuccess"@)
            + flag_name(self.bits, 128, "HitRollFail"@)
    }

    /// Converts the set to human-readable strings, one for each flag.
    pub fn get_strings(&self) -> (strings: Vec<&'static str>)
        ensures
            words(strings@) == self.names(),
    {
        let mut strings: Vec<&'static str> = Vec::new();
        push_flag_name(&mut strings, self.bits, 1, "PVEOnly");
        assert(words(strings@) =~= flag_name(self.bits, 1, "PVEOnly"@));
        push_flag_name(&mut strings, self.bits, 2, "PVPOnly");
        push_flag_name(&mut strings, self.bits, 4, "Fallback");
        push_flag_name(&mut strings, self.bits, 8, "MainTargetOnly");
        push_flag_name(&mut strings, self.bits, 16, "SecondaryTargetsOnly");
        push_flag_name(&mut strings, self.bits, 32, "HideFromInfo");
        push_flag_name(&mut strings, self.bits, 64, "HitRollSuccess");
        push_flag_name(&mut strings, self.bits, 128, "HitRollFail");
        strings
    }
}

/// Flags of an effect.
#[derive(Clone, Copy, Debug, PartialEq, Eq, Structural)]
pub struct AttribModFlag {
    pub bits: u32,
}

#[allow(non_upper_case_globals)]
impl AttribModFlag {
    /// If set, hides floaters (damage and healing numbers, for example) over the affected's head.
    /// If specified, `pch_display_float` is always shown, even if this is set.
    pub const NoFloaters: u32 = 1;

    /// Determines whether this attribmod ignores diminishing returns on boosts
    /// (aka Enhancement Diversification). Only used if aspect is Strength.
    pub const BoostIgnoreDiminishing: u32 = 2;

    /// If set and the test governed by `f_tick_chance` fails, the attrib mod will be removed.
    pub const CancelOnMiss: u32 = 4;

    /// If set, only applies the attrib modifier if the target is on the ground.
    pub const NearGround: u32 = 8;

    /// If set, the attacker's strength is not used to modify the scale of the effects.
    pub const IgnoreStrength: u32 = 16;

    /// If set, the target's resistance is not used to modify the scale of the applied effects.
    pub const IgnoreResistance: u32 = 32;

    /// If set, the level difference between the source and the target
    /// is not used to modify the effect's magnitude and/or duration.
    pub const IgnoreCombatMods: u32 = 64;

    /// If set, forces resistance to apply to something other than the default (based on the
    /// attrib mod type).
    pub const ResistMagnitude: u32 = 128;

    /// If set, forces resistance to apply to something other than the default (based on the
    /// attrib mod type).
    pub const ResistDuration: u32 = 256;

    /// If set, forces combat mod to apply to something other than the default (based on the
    /// attrib mod type).
    pub const CombatModMagnitude: u32 = 512;

    /// If set, forces combat mod to apply to something other than the default (based on the
    /// attrib mod type).
    pub const CombatModDuration: u32 = 1024;

    /// If true, this is supposed to be a boost template.  This is used
    /// in boosts and powers used as set bonuses, which can include both
    /// boost templates and additional normal templates.
    pub const Boost: u32 = 2048;

    /// If true and `pch_display_float`, `pch_display_attacker_hit` or `pch_display_victim_hit`
    /// is specified, it will only display if the attribute evaluates to a non-zero value.
    pub const HideZero: u32 = 4096;

    /// If true, do not clean out this attrib mod when the entity dies.
    pub const KeepThroughDeath: u32 = 8192;

    /// If true, delay any evaluations associated with this attrib mod until the last possible moment in mod_process.
    /// This means you will have to store all the Eval stashes until that time comes. Note that this can cause
    /// desynchronization with other members of the same effect group.
    pub const DelayEval: u32 = 16384;

    /// Do not add the FramesBeforeHit delay from the power to this attrib mod.
    pub const NoHitDelay: u32 = 32768;

    /// Do not add the projectile distance delay from the power to this attribmod.
    pub const NoProjectileDelay: u32 = 65536;

    /// When using StackKey stacking, also compare the Aspect/Attribute in addition to the key.
    pub const StackByAttribAndKey: u32 = 131072;

    /// Apply stacking rules per power instance rather than by the template. Implies individual caster stacking.
    pub const StackExactPower: u32 = 262144;

    /// Designer laziness flag.
    pub const IgnoreSuppressErrors: u32 = 524288;

    /// The set with the given bits.
    pub fn from_bits(bits: u32) -> (r: Self)
        ensures
            r.bits == bits,
    {
        AttribModFlag { bits }
    }

    /// Whether the set has every bit of `flag`.
    pub fn contains(&self, flag: u32) -> (r: bool)
        ensures
            r == ((self.bits & flag) == flag),
    {
        (self.bits & flag) == flag
    }

    /// The names of the flags of the set, in the order of their bits.
    pub open spec fn names(self) -> Seq<Seq<char>> {
        flag_name(self.bits, 1, "NoFloaters"@)
            + flag_name(self.bits, 2, "BoostIgnoreDiminishing"@)
            + flag_name(self.bits, 4, "CancelOnMiss"@)
            + flag_name(self.bits, 8, "NearGround"@)
            + flag_name(self.bits, 16, "IgnoreStrength"@)
            + flag_name(self.bits, 32, "IgnoreResistance"@)
            + flag_name(self.bits, 64, "IgnoreLevelDifference"@)
            + flag_name(self.bits, 128, "ResistMagnitude"@)
            + flag_name(self.bits, 256, "ResistDuration"@)
            + flag_name(self.bits, 512, "CombatModMagnitude"@)
            + flag_name(self.bits, 1024, "CombatModDuration"@)
            + flag_name(self.bits, 2048, "Boost"@)
            + flag_name(self.bits, 4096, "HideZero"@)
            + flag_name(self.bits, 8192, "KeepThroughDeath"@)
            + flag_name(self.bits, 16384, "DelayEval"@)
            + flag_name(self.bits, 32768, "NoHitDelay"@)
            + flag_name(self.bits, 65536, "NoProjectileDelay"@)
            + flag_name(self.bits, 131072, "StackByAttribAndKey"@)
            + flag_name(self.bits, 262144, "StackExactPower"@)
            + flag_name(self.bits, 524288, "IgnoreSupressErrors"@)
    }

    /// Converts the set to human-readable strings, one for each flag.
    pub fn get_strings(&self) -> (strings: Vec<&'static str>)
        ensures
            words(strings@) == self.names(),
    {
        let mut strings: Vec<&'static str> = Vec::new();
        push_flag_name(&mut strings, self.bits, 1, "NoFloaters");
        assert(words(strings@) =~= flag_name(self.bits, 1, "NoFloaters"@));
        push_flag_name(&mut strings, self.bits, 2, "BoostIgnoreDiminishing");
        push_flag_name(&mut strings, self.bits, 4, "CancelOnMiss");
        push_flag_name(&mut strings, self.bits, 8, "NearGround");
        push_flag_name(&mut strings, self.bits, 16, "IgnoreStrength");
        push_flag_name(&mut strings, self.bits, 32, "IgnoreResistance");
        push_flag_name(&mut strings, self.bits, 64, "IgnoreLevelDifference");
        push_flag_name(&mut strings, self.bits, 128, "ResistMagnitude");
        push_flag_name(&mut strings, self.bits, 256, "ResistDuration");
        push_flag_name(&mut strings, self.bits, 512, "CombatModMagnitude");
        push_flag_name(&mut strings, self.bits, 1024, "CombatModDuration");
        push_flag_name(&mut strings, self.bits, 2048, "Boost");
        push_flag_name(&mut strings, self.bits, 4096, "HideZero");
        push_flag_name(&mut strings, self.bits, 8192, "KeepThroughDeath");
        push_flag_name(&mut strings, self.bits, 16384, "DelayEval");
        push_flag_name(&mut strings, self.bits, 32768, "NoHitDelay");
        push_flag_name(&mut strings, self.bits, 65536, "NoProjectileDelay");
        push_flag_name(&mut strings, self.bits, 131072, "StackByAttribAndKey");
        push_flag_name(&mut strings, self.bits, 262144, "StackExactPower");
        push_flag_name(&mut strings, self.bits, 524288, "IgnoreSupressErrors");
        strings
    }
}

/// Flags whose meaning depends on the kind of effect that carries them.
#[derive(Clone, Copy, Debug, PartialEq, Eq, Structural)]
pub enum EffectSpecificAttribModFlag {
    /// Valid for: EntCreate.
    /// If the pet times out or is otherwise destroyed by the server (as opposed to
    /// being defeated) then the entity is vanished.
    VanishEntOnTimeout,
    /// Valid for: CombatModShift.
    /// Causes this mod shift not to be added to the total reported to the client.
    DoNotDisplayShift,
    /// Valid for: TokenAdd, TokenSet.
    /// Don't update the token timer.
    NoTokenTime,
    /// Valid for: RevokePower.
    /// Revokes all copies of the power, ignoring the count.
    RevokeAll,
    /// Valid for: Knock.
    /// Forces the use of the height parameters even for flying targets.
    AlwaysUseHeight,
    /// Valid for: RechargePower.
    /// Instead of recharging the power to ready, sets the recharge timer to a
    /// specific value.
    SetTimer,
    /// Valid for: EntCreate.
    /// Do not apply custom tinting to the spawned pet's costume.
    DoNotTintCostume,
    /// Valid for: ExecutePower.
    /// Performs an additional line-of-sight check between caster and target.
    CheckLoS,
    /// Valid for: RechargePower.
    /// Adjusts the power's recharge timer by the magnitude.
    AdjustTimer,
    /// Valid for: ExecutePower, EntCreate.
    /// Copy enhancements to the resulting power(s) if they are accepted.
    CopyBoosts,
    /// Valid for: RechargePower.
    /// Places the power on cooldown.
    Cooldown,
    /// Valid for: EntCreate.
    /// Copy strength buff mods from the creator of this entity.
    CopyCreatorMods,
    /// Valid for: EntCreate.
    /// Suppresses FX on mods copied from creator.
    NoCreatorModFX,
    /// Valid for: EntCreate.
    /// Creates a generic entity the same class as its creator.
    PseudoPet,
    /// Valid for: EntCreate.
    /// Forces the summoned entity to show up in a player's pet window.
    PetVisible,
    /// Valid for: EntCreate.
    /// Forces the summoned entity to be commandable like a mastermind pet.
    PetCommandable,
    /// Valid for: EntCreate.
    /// Copies the costume of the creator.
    CopyCreatorCostume,
}

/// The flag, in a list of its own, where the value has the bit and the kind
/// of effect gives the bit a meaning; else the empty list.
pub open spec fn bit_flag(
    value: u32,
    bit: u32,
    meaning: Option<EffectSpecificAttribModFlag>,
) -> Seq<EffectSpecificAttribModFlag> {
    if (value & bit) != 0 && meaning is Some {
        seq![meaning->0]
    } else {
        Seq::empty()
    }
}

/// What the lowest bit means for a kind of effect.
pub open spec fn first_bit(special: SpecialAttrib) -> Option<EffectSpecificAttribModFlag> {
    match special {
        SpecialAttrib::kSpecialAttrib_EntCreate => Some(
            EffectSpecificAttribModFlag::VanishEntOnTimeout,
        ),
        SpecialAttrib::kSpecialAttrib_CombatModShift => Some(
            EffectSpecificAttribModFlag::DoNotDisplayShift,
        ),
        SpecialAttrib::kSpecialAttrib_TokenAdd => Some(EffectSpecificAttribModFlag::NoTokenTime),
        SpecialAttrib::kSpecialAttrib_TokenSet => Some(EffectSpecificAttribModFlag::NoTokenTime),
        SpecialAttrib::kSpecialAttrib_RevokePower => Some(EffectSpecificAttribModFlag::RevokeAll),
        SpecialAttrib::kSpecialAttrib_RechargePower => Some(EffectSpecificAttribModFlag::SetTimer),
        _ => None,
    }
}

/// What the second bit means for a kind of effect.
pub open spec fn second_bit(special: SpecialAttrib) -> Option<EffectSpecificAttribModFlag> {
    match special {
        SpecialAttrib::kSpecialAttrib_EntCreate => Some(
            EffectSpecificAttribModFlag::DoNotTintCostume,
        ),
        SpecialAttrib::kSpecialAttrib_ExecutePower => Some(EffectSpecificAttribModFlag::CheckLoS),
        SpecialAttrib::kSpecialAttrib_RechargePower => Some(
            EffectSpecificAttribModFlag::AdjustTimer,
        ),
        _ => None,
    }
}

/// What the third bit means for a kind of effect.
pub open spec fn third_bit(special: SpecialAttrib) -> Option<EffectSpecificAttribModFlag> {
    match special {
        SpecialAttrib::kSpecialAttrib_EntCreate => Some(EffectSpecificAttribModFlag::CopyBoosts),
        SpecialAttrib::kSpecialAttrib_ExecutePower => Some(EffectSpecificAttribModFlag::CopyBoosts),
        SpecialAttrib::kSpecialAttrib_RechargePower => Some(EffectSpecificAttribModFlag::Cooldown),
        _ => None,
    }
}

/// What a higher bit means for an effect that spawns an entity; for other
/// effects the higher bits mean nothing.
pub open spec fn entity_bit(
    special: SpecialAttrib,
    flag: EffectSpecificAttribModFlag,
) -> Option<EffectSpecificAttribModFlag> {
    if special == SpecialAttrib::kSpecialAttrib_EntCreate {
        Some(flag)
    } else {
        None
    }
}

/// The flags that the bits of a value mean for a kind of effect, from the
/// lowest bit up. A bit without a meaning for the kind gives no flag, and
/// an effect of unset kind has no flags.
pub open spec fn flags_of(value: u32, special: SpecialAttrib) -> Seq<EffectSpecificAttribModFlag> {
    if value == 0 || special == SpecialAttrib::kSpecialAttrib_UNSET {
        Seq::empty()
    } else {
        bit_flag(value, 1, first_bit(special)) + bit_flag(value, 2, second_bit(special)) + bit_flag(
            value,
            4,
            third_bit(special),
        ) + bit_flag(value, 8, entity_bit(special, EffectSpecificAttribModFlag::CopyCreatorMods))
            + bit_flag(value, 16, entity_bit(special, EffectSpecificAttribModFlag::NoCreatorModFX))
            + bit_flag(value, 32, entity_bit(special, EffectSpecificAttribModFlag::PseudoPet))
            + bit_flag(value, 64, entity_bit(special, EffectSpecificAttribModFlag::PetVisible))
            + bit_flag(value, 128, entity_bit(special, EffectSpecificAttribModFlag::PetCommandable))
            + bit_flag(
            value,
            256,
            entity_bit(special, EffectSpecificAttribModFlag::CopyCreatorCostume),
        )
    }
}

/// What the lowest bit means for a kind of effect: see [`first_bit`].
fn first_bit_of(special: &SpecialAttrib) -> (r: Option<EffectSpecificAttribModFlag>)
    ensures
        r == first_bit(*special),
{
    match special {
        SpecialAttrib::kSpecialAttrib_EntCreate => Some(
            EffectSpecificAttribModFlag::VanishEntOnTimeout,
        ),
        SpecialAttrib::kSpecialAttrib_CombatModShift => Some(
            EffectSpecificAttribModFlag::DoNotDisplayShift,
        ),
        SpecialAttrib::kSpecialAttrib_TokenAdd | SpecialAttrib::kSpecialAttrib_TokenSet => Some(
            EffectSpecificAttribModFlag::NoTokenTime,
        ),
        SpecialAttrib::kSpecialAttrib_RevokePower => Some(EffectSpecificAttribModFlag::RevokeAll),
        SpecialAttrib::kSpecialAttrib_RechargePower => Some(EffectSpecificAttribModFlag::SetTimer),
        _ => None,
    }
}

/// What the second bit means for a kind of effect: see [`second_bit`].
fn second_bit_of(special: &SpecialAttrib) -> (r: Option<EffectSpecificAttribModFlag>)
    ensures
        r == second_bit(*special),
{
    match special {
        SpecialAttrib::kSpecialAttrib_EntCreate => Some(
            EffectSpecificAttribModFlag::DoNotTintCostume,
        ),
        SpecialAttrib::kSpecialAttrib_ExecutePower => Some(EffectSpecificAttribModFlag::CheckLoS),
        SpecialAttrib::kSpecialAttrib_RechargePower => Some(
            EffectSpecificAttribModFlag::AdjustTimer,
        ),
        _ => None,
    }
}

/// What the third bit means for a kind of effect: see [`third_bit`].
fn third_bit_of(special: &SpecialAttrib) -> (r: Option<EffectSpecificAttribModFlag>)
    ensures
        r == third_bit(*special),
{
    match special {
        SpecialAttrib::kSpecialAttrib_EntCreate | SpecialAttrib::kSpecialAttrib_ExecutePower => Some(
            EffectSpecificAttribModFlag::CopyBoosts,
        ),
        SpecialAttrib::kSpecialAttrib_RechargePower => Some(EffectSpecificAttribModFlag::Cooldown),
        _ => None,
    }
}

/// Puts the flag behind the list where the value has the bit and the bit
/// has a meaning.
fn push_bit_flag(
    flags: &mut Vec<EffectSpecificAttribModFlag>,
    value: u32,
    bit: u32,
    meaning: Option<EffectSpecificAttribModFlag>,
)
    ensures
        final(flags)@ == old(flags)@ + bit_flag(value, bit, meaning),
{
    if (value & bit) != 0 {
        match meaning {
            Some(flag) => {
                flags.push(flag);
                assert(flags@ =~= old(flags)@ + bit_flag(value, bit, meaning));
                return ;
            },
            None => {},
        }
    }
    assert(flags@ =~= old(flags)@ + bit_flag(value, bit, meaning));
}

impl EffectSpecificAttribModFlag {
    /// The name of the flag.
    pub open spec fn label(self) -> Seq<char> {
        match self {
            EffectSpecificAttribModFlag::VanishEntOnTimeout => "VanishEntOnTimeout"@,
            EffectSpecificAttribModFlag::DoNotDisplayShift => "DoNotDisplayShift"@,
            EffectSpecificAttribModFlag::NoTokenTime => "NoTokenTime"@,
            EffectSpecificAttribModFlag::RevokeAll => "RevokeAll"@,
            EffectSpecificAttribModFlag::AlwaysUseHeight => "AlwaysUseHeight"@,
            EffectSpecificAttribModFlag::SetTimer => "SetTimer"@,
            EffectSpecificAttribModFlag::DoNotTintCostume => "DoNotTintCostume"@,
            EffectSpecificAttribModFlag::CheckLoS => "CheckLineOfSight"@,
            EffectSpecificAttribModFlag::AdjustTimer => "AdjustTimer"@,
            EffectSpecificAttribModFlag::CopyBoosts => "CopyBoosts"@,
            EffectSpecificAttribModFlag::Cooldown => "Cooldown"@,
            EffectSpecificAttribModFlag::CopyCreatorMods => "CopyCreatorMods"@,
            EffectSpecificAttribModFlag::NoCreatorModFX => "NoCreatorModFX"@,
            EffectSpecificAttribModFlag::PseudoPet => "PseudoPet"@,
            EffectSpecificAttribModFlag::PetVisible => "PetVisible"@,
            EffectSpecificAttribModFlag::PetCommandable => "PetCommandable"@,
            EffectSpecificAttribModFlag::CopyCreatorCostume => "CopyCreatorCostume"@,
        }
    }

    /// Converts the flag to a human-readable string.
    pub fn get_string(&self) -> (s: &'static str)
        ensures
            s@ == self.label(),
    {
        match self {
            EffectSpecificAttribModFlag::VanishEntOnTimeout => "VanishEntOnTimeout",
            EffectSpecificAttribModFlag::DoNotDisplayShift => "DoNotDisplayShift",
            EffectSpecificAttribModFlag::NoTokenTime => "NoTokenTime",
            EffectSpecificAttribModFlag::RevokeAll => "RevokeAll",
            EffectSpecificAttribModFlag::AlwaysUseHeight => "AlwaysUseHeight",
            EffectSpecificAttribModFlag::SetTimer => "SetTimer",
            EffectSpecificAttribModFlag::DoNotTintCostume => "DoNotTintCostume",
            EffectSpecificAttribModFlag::CheckLoS => "CheckLineOfSight",
            EffectSpecificAttribModFlag::AdjustTimer => "AdjustTimer",
            EffectSpecificAttribModFlag::CopyBoosts => "CopyBoosts",
            EffectSpecificAttribModFlag::Cooldown => "Cooldown",
            EffectSpecificAttribModFlag::CopyCreatorMods => "CopyCreatorMods",
            EffectSpecificAttribModFlag::NoCreatorModFX => "NoCreatorModFX",
            EffectSpecificAttribModFlag::PseudoPet => "PseudoPet",
            EffectSpecificAttribModFlag::PetVisible => "PetVisible",
            EffectSpecificAttribModFlag::PetCommandable => "PetCommandable",
            EffectSpecificAttribModFlag::CopyCreatorCostume => "CopyCreatorCostume",
        }
    }

    /// Converts the raw flags of an effect to the flags that they mean.
    /// Because the meaning of a bit depends on the kind of the effect, the
    /// kind is needed: see [`flags_of`].
    pub fn from_bits(value: u32, special: &SpecialAttrib) -> (flags: Vec<Self>)
        ensures
            flags@ == flags_of(value, *special),
    {
        let mut flags: Vec<EffectSpecificAttribModFlag> = Vec::new();
        if value == 0 {
            return flags;
        }
        match special {
            SpecialAttrib::kSpecialAttrib_UNSET => {
                return flags;
            },
            _ => {},
        }
        let entity = match special {
            SpecialAttrib::kSpecialAttrib_EntCreate => true,
            _ => false,
        };
        assert(flags@ =~= Seq::empty());
        push_bit_flag(&mut flags, value, 1, first_bit_of(special));
        assert(flags@ =~= bit_flag(value, 1, first_bit(*special)));
        push_bit_flag(&mut flags, value, 2, second_bit_of(special));
        push_bit_flag(&mut flags, value, 4, third_bit_of(special));
        // the rest of the bits are only valid for effects that spawn an entity
        push_bit_flag(
            &mut flags,
            value,
            8,
            if entity {
                Some(EffectSpecificAttribModFlag::CopyCreatorMods)
            } else {
                None
            },
        );
        push_bit_flag(
            &mut flags,
            value,
            16,
            if entity {
                Some(EffectSpecificAttribModFlag::NoCreatorModFX)
            } else {
                None
            },
        );
        push_bit_flag(
            &mut flags,
            value,
            32,
            if entity {
                Some(EffectSpecificAttribModFlag::PseudoPet)
            } else {
                None
            },
        );
        push_bit_flag(
            &mut flags,
            value,
            64,
            if entity {
                Some(EffectSpecificAttribModFlag::PetVisible)
            } else {
                None
            },
        );
        push_bit_flag(
            &mut flags,
            value,
            128,
            if entity {
                Some(EffectSpecificAttribModFlag::PetCommandable)
            } else {
                None
            },
        );
        push_bit_flag(
            &mut flags,
            value,
            256,
            if entity {
                Some(EffectSpecificAttribModFlag::CopyCreatorCostume)
            } else {
                None
            },
        );
        flags
    }
}

} // verus!
