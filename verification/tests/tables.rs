use powers_dict::attribs::{BoostAttrib, CharacterAttrib, ModeAttrib, SpecialAttrib};
use powers_dict::enums::{
    AttribType, EffectArea, Gender, ModApplicationType, ModTarget, ModType, PowerEvent,
    PowerSystem, PowerType, ShowPowerSetting, StackType, TargetType, VillainRank,
};
use powers_dict::flags::{AttribModFlag, EffectGroupFlag, EffectSpecificAttribModFlag as F};
use powers_dict::structs::{
    AttribModFX, AttribModMessages, AttribModTargetInfo, AttribName, AttribNames, PowerRedirect,
    RGBA, SuppressPair,
};

fn named(display: &str) -> AttribName {
    let mut n = AttribName::new();
    n.pch_name = Some(display.to_lowercase());
    n.pch_display_name = Some(display.to_string());
    n
}

fn names() -> AttribNames {
    let mut n = AttribNames::new();
    for d in ["Smashing", "Lethal", "Fire"] {
        n.pp_damage.push(named(d));
        n.pp_defense.push(named(d));
        n.pp_elusivity.push(named(d));
    }
    for m in ["ServerTray", "Raged", "Hidden"] {
        n.pp_mode.push(named(m));
    }
    for b in ["Damage", "Accuracy"] {
        n.pp_boost.push(named(b));
    }
    n
}

#[test]
fn enumerations_have_their_words() {
    assert_eq!(PowerType::kPowerType_Click.get_string(), "Click");
    assert_eq!(PowerType::kPowerType_Auto.get_string(), "Auto");
    assert_eq!(PowerType::kPowerType_Toggle.get_string(), "Toggle");
    assert_eq!(PowerType::kPowerType_Boost.get_string(), "Enhancement");
    assert_eq!(PowerType::kPowerType_Inspiration.get_string(), "Inspiration");
    assert_eq!(PowerType::kPowerType_GlobalBoost.get_string(), "Global Enhancement");
    assert_eq!(EffectArea::kEffectArea_Character.get_string(), "SingleTarget");
    assert_eq!(EffectArea::kEffectArea_Sphere.get_string(), "AoE");
    assert_eq!(EffectArea::kEffectArea_Volume.get_string(), "Self");
    assert_eq!(EffectArea::kEffectArea_NamedVolume.get_string(), "(not implemented)");
    assert_eq!(EffectArea::kEffectArea_Box.get_string(), "Box");
    assert_eq!(ModApplicationType::kModApplicationType_OnDeactivate.get_string(), "OnDeactive");
    assert_eq!(ModApplicationType::kModApplicationType_OnTick.get_string(), "OnTick");
    assert_eq!(ModTarget::kModTarget_Caster.get_string(), "Self");
    assert_eq!(ModTarget::kModTarget_FocusOwnerAndAllPets.get_string(), "TargetAndPets");
    assert_eq!(ModTarget::kModTarget_Marker.get_string(), "Marker");
    assert_eq!(ModType::kModType_SkillMagnitude.get_string(), "SkillMagnitude");
    assert_eq!(ModType::kModType_Duration.get_string(), "Duration");
    assert_eq!(StackType::kStackType_StackThenIgnore.get_string(), "StackToLimit");
    assert_eq!(StackType::kStackType_RefreshToCount.get_string(), "RefreshToLimit");
    assert_eq!(StackType::kStackType_Continuous.get_string(), "Continuous");
    assert_eq!(PowerEvent::kPowerEvent_Activate.get_string(), "Activate");
    assert_eq!(PowerEvent::kPowerEvent_MissByFoe.get_string(), "MissByFoe");
    assert_eq!(PowerEvent::kPowerEvent_Defiant.get_string(), "Defiant");
    assert_eq!(AttribType::kAttribType_Cur.get_string(), "CurrentValue");
    assert_eq!(AttribType::kAttribType_Abs.get_string(), "AbsoluteValue");
    assert_eq!(AttribType::kAttribType_Special.get_string(), "Special");
}

#[test]
fn target_types_have_their_tags() {
    assert!(TargetType::kTargetType_None.get_strings().is_empty());
    assert_eq!(TargetType::kTargetType_Caster.get_strings(), vec!["Self", "Alive", "Dead"]);
    assert_eq!(TargetType::kTargetType_DeadPlayerFoe.get_strings(), vec!["Player", "Dead", "Foe"]);
    assert_eq!(TargetType::kTargetType_DeadPlayerFriend.get_strings(), vec!["Player", "Dead", "Friend"]);
    assert_eq!(TargetType::kTargetType_NPC.get_strings(), vec!["NPC", "Friend"]);
    assert_eq!(TargetType::kTargetType_DeadOrAliveAny.get_strings(), vec!["Dead", "Alive"]);
    assert_eq!(
        TargetType::kTargetType_DeadOrAliveLeaguemate.get_strings(),
        vec!["Player", "Alive", "Dead", "Team", "League"]
    );
    assert_eq!(TargetType::kTargetType_MyOwner.get_strings(), vec!["Root_Owner"]);
    assert_eq!(TargetType::kTargetType_Position.get_strings(), vec!["Position"]);
}

#[test]
fn enumerations_are_found_by_number() {
    assert_eq!(PowerSystem::from_u32(0), Some(PowerSystem::kPowerSystem_Powers));
    assert_eq!(PowerSystem::from_u32(1), None);
    assert_eq!(ShowPowerSetting::from_u32(1), Some(ShowPowerSetting::kShowPowerSetting_Default));
    assert_eq!(ShowPowerSetting::from_u32(4), Some(ShowPowerSetting::kShowPowerSetting_IfOwned));
    assert_eq!(ShowPowerSetting::from_u32(5), None);
    assert_eq!(PowerType::from_u32(3), Some(PowerType::kPowerType_Boost));
    assert_eq!(PowerType::from_u32(5), Some(PowerType::kPowerType_GlobalBoost));
    assert_eq!(PowerType::from_u32(6), None);
    assert_eq!(TargetType::from_u32(36), Some(TargetType::kTargetType_Position));
    assert_eq!(TargetType::from_u32(37), None);
    assert_eq!(PowerEvent::from_u32(33), Some(PowerEvent::kPowerEvent_Defiant));
    assert_eq!(VillainRank::from_u32(11), Some(VillainRank::VR_DESTRUCTIBLE));
    assert_eq!(Gender::from_u32(3), Some(Gender::GENDER_FEMALE));
    assert_eq!(Gender::from_u32(u32::MAX), None);
}

#[test]
fn enumerations_start_at_their_defaults() {
    assert_eq!(PowerType::new(), PowerType::kPowerType_Click);
    assert_eq!(PowerType::default(), PowerType::kPowerType_Click);
    assert_eq!(ShowPowerSetting::new(), ShowPowerSetting::kShowPowerSetting_Never);
    assert_eq!(ModTarget::default(), ModTarget::kModTarget_Affected);
    assert_eq!(ModType::default(), ModType::kModType_Magnitude);
    assert_eq!(StackType::default(), StackType::kStackType_Replace);
    assert_eq!(SpecialAttrib::default(), SpecialAttrib::kSpecialAttrib_UNSET);
}

#[test]
fn special_attributes_are_found_by_number() {
    assert_eq!(SpecialAttrib::from_i32(460), SpecialAttrib::kSpecialAttrib_Translucency);
    assert_eq!(SpecialAttrib::from_i32(461), SpecialAttrib::kSpecialAttrib_EntCreate);
    assert_eq!(SpecialAttrib::from_i32(473), SpecialAttrib::kSpecialAttrib_GrantPower);
    assert_eq!(SpecialAttrib::from_i32(504), SpecialAttrib::kSpecialAttrib_ExecutePower);
    assert_eq!(SpecialAttrib::from_i32(1460), SpecialAttrib::kSpecialAttrib_PowerRedirect);
    assert_eq!(SpecialAttrib::from_i32(505), SpecialAttrib::kSpecialAttrib_Character(505));
    assert_eq!(SpecialAttrib::from_i32(459), SpecialAttrib::kSpecialAttrib_Character(459));
    assert_eq!(SpecialAttrib::from_i32(0), SpecialAttrib::kSpecialAttrib_Character(0));
    assert_eq!(SpecialAttrib::from_i32(-1), SpecialAttrib::kSpecialAttrib_Character(-1));
    assert_eq!(SpecialAttrib::SIZE_OF_CHARACTER_ATTRIBUTES, 460);
}

#[test]
fn special_attributes_have_their_words() {
    assert_eq!(SpecialAttrib::kSpecialAttrib_UNSET.get_string(), "");
    assert_eq!(SpecialAttrib::kSpecialAttrib_Character(7).get_string(), "Character Attribute");
    assert_eq!(SpecialAttrib::kSpecialAttrib_EntCreate.get_string(), "Create Entity");
    assert_eq!(SpecialAttrib::kSpecialAttrib_XPDebtProtection.get_string(), "Debt Protection");
    assert_eq!(SpecialAttrib::kSpecialAttrib_CombatModShift.get_string(), "Level Shift");
    assert_eq!(SpecialAttrib::kSpecialAttrib_LuaExec.get_string(), "Execute Script");
    assert_eq!(SpecialAttrib::kSpecialAttrib_PowerRedirect.get_string(), "Redirect Power");
}

#[test]
fn character_attributes_are_named() {
    let n = names();
    assert_eq!(CharacterAttrib(0).get_string(&n).as_deref(), Some("Smashing_Dmg"));
    assert_eq!(CharacterAttrib(4).get_string(&n).as_deref(), Some("Lethal_Dmg"));
    assert_eq!(CharacterAttrib(7).get_string(&n).as_deref(), Some("Lethal_Dmg"));
    assert_eq!(CharacterAttrib(8).get_string(&n).as_deref(), Some("Fire_Dmg"));
    // the table of names ends before the group does
    assert_eq!(CharacterAttrib(12).get_string(&n), None);
    assert_eq!(CharacterAttrib(76).get_string(&n), None);
    assert_eq!(CharacterAttrib(80).get_string(&n).as_deref(), Some("HitPoints"));
    assert_eq!(CharacterAttrib(84).get_string(&n).as_deref(), Some("Absorb"));
    assert_eq!(CharacterAttrib(100).get_string(&n).as_deref(), Some("ToHit"));
    assert_eq!(CharacterAttrib(104).get_string(&n).as_deref(), Some("Smashing_Def"));
    assert_eq!(CharacterAttrib(112).get_string(&n).as_deref(), Some("Fire_Def"));
    assert_eq!(CharacterAttrib(180).get_string(&n), None);
    assert_eq!(CharacterAttrib(184).get_string(&n).as_deref(), Some("Defense"));
    assert_eq!(CharacterAttrib(220).get_string(&n).as_deref(), Some("StealthRadius_PVE"));
    assert_eq!(CharacterAttrib(288).get_string(&n).as_deref(), Some("Jump Pack"));
    assert_eq!(CharacterAttrib(372).get_string(&n).as_deref(), Some("Meter"));
    assert_eq!(CharacterAttrib(376).get_string(&n).as_deref(), Some("Smashing_Elusivity"));
    assert_eq!(CharacterAttrib(380).get_string(&n).as_deref(), Some("Lethal_Elusivity"));
    assert_eq!(CharacterAttrib(456).get_string(&n).as_deref(), Some("ElusivityBase"));
    assert_eq!(CharacterAttrib(461).get_string(&n).as_deref(), Some("Create Entity"));
    assert_eq!(CharacterAttrib(1460).get_string(&n).as_deref(), Some("Redirect Power"));
    // an offset between two attributes, and what is no offset at all
    assert_eq!(CharacterAttrib(81).get_string(&n).as_deref(), Some("Character Attribute"));
    assert_eq!(CharacterAttrib(-4).get_string(&n).as_deref(), Some("Character Attribute"));
    assert_eq!(CharacterAttrib(9999).get_string(&n).as_deref(), Some("Character Attribute"));
}

#[test]
fn character_attributes_convert() {
    assert_eq!(CharacterAttrib(12).usize(), 12);
    assert_eq!(ModeAttrib(3).usize(), 3);
    assert_eq!(BoostAttrib(0).usize(), 0);
    assert_eq!(
        CharacterAttrib(473).as_special_attrib(),
        Some(SpecialAttrib::kSpecialAttrib_GrantPower)
    );
    assert_eq!(CharacterAttrib(80).as_special_attrib(), None);
    for v in -10..1600 {
        let special = (460..=504).contains(&v) || v == 1460;
        match CharacterAttrib(v).as_special_attrib() {
            Some(a) => {
                assert!(special);
                assert_eq!(a, SpecialAttrib::from_i32(v));
                assert_ne!(a, SpecialAttrib::kSpecialAttrib_Character(v));
                assert_ne!(a, SpecialAttrib::kSpecialAttrib_UNSET);
            }
            None => assert!(!special),
        }
    }
    assert_eq!(CharacterAttrib(505).as_special_attrib(), None);
    assert_eq!(
        CharacterAttrib(1460).as_special_attrib(),
        Some(SpecialAttrib::kSpecialAttrib_PowerRedirect)
    );
}

#[test]
fn mode_and_boost_attributes_are_named() {
    let n = names();
    assert_eq!(ModeAttrib(0).get_string(&n).as_deref(), Some("ServerTrayOverride"));
    assert_eq!(ModeAttrib(1).get_string(&n).as_deref(), Some("raged"));
    assert_eq!(ModeAttrib(2).get_string(&n).as_deref(), Some("hidden"));
    assert_eq!(ModeAttrib(3).get_string(&n), None);
    assert_eq!(ModeAttrib(-1).get_string(&n), None);
    assert_eq!(BoostAttrib(5).get_string(&n).as_deref(), Some("Damage"));
    assert_eq!(BoostAttrib(6).get_string(&n).as_deref(), Some("Accuracy"));
    assert_eq!(BoostAttrib(7).get_string(&n), None);
    assert_eq!(BoostAttrib(4).get_string(&n), None);
    assert_eq!(BoostAttrib(0).get_string(&n), None);
    assert_eq!(BoostAttrib(100).get_string(&n), None);
    assert_eq!(BoostAttrib(-5).get_string(&n), None);
}

#[test]
fn flag_sets_list_their_names() {
    assert!(EffectGroupFlag::from_bits(0).get_strings().is_empty());
    assert_eq!(EffectGroupFlag::from_bits(1).get_strings(), vec!["PVEOnly"]);
    assert_eq!(
        EffectGroupFlag::from_bits(2 | 8 | 128).get_strings(),
        vec!["PVPOnly", "MainTargetOnly", "HitRollFail"]
    );
    assert_eq!(EffectGroupFlag::from_bits(255).get_strings().len(), 8);
    assert!(EffectGroupFlag::from_bits(256).get_strings().is_empty());
    assert!(EffectGroupFlag::from_bits(5).contains(EffectGroupFlag::Fallback));
    assert!(!EffectGroupFlag::from_bits(5).contains(EffectGroupFlag::PVPOnly));
    assert_eq!(
        AttribModFlag::from_bits(1 | 64 | (1 << 19)).get_strings(),
        vec!["NoFloaters", "IgnoreLevelDifference", "IgnoreSupressErrors"]
    );
    assert_eq!(AttribModFlag::from_bits(1 << 11).get_strings(), vec!["Boost"]);
    assert_eq!(AttribModFlag::from_bits((1 << 20) - 1).get_strings().len(), 20);
    assert!(AttribModFlag::from_bits(1 << 20).get_strings().is_empty());
    assert!(AttribModFlag::from_bits(16).contains(AttribModFlag::IgnoreStrength));
}

#[test]
fn effect_specific_flags_depend_on_the_kind() {
    let ent = SpecialAttrib::kSpecialAttrib_EntCreate;
    assert!(F::from_bits(0, &ent).is_empty());
    assert!(F::from_bits(0xffff, &SpecialAttrib::kSpecialAttrib_UNSET).is_empty());
    assert_eq!(F::from_bits(1, &ent), vec![F::VanishEntOnTimeout]);
    assert_eq!(
        F::from_bits(0x1ff, &ent),
        vec![
            F::VanishEntOnTimeout,
            F::DoNotTintCostume,
            F::CopyBoosts,
            F::CopyCreatorMods,
            F::NoCreatorModFX,
            F::PseudoPet,
            F::PetVisible,
            F::PetCommandable,
            F::CopyCreatorCostume
        ]
    );
    assert_eq!(F::from_bits(0x108, &ent), vec![F::CopyCreatorMods, F::CopyCreatorCostume]);
    let recharge = SpecialAttrib::kSpecialAttrib_RechargePower;
    assert_eq!(F::from_bits(7, &recharge), vec![F::SetTimer, F::AdjustTimer, F::Cooldown]);
    assert_eq!(F::from_bits(0x1ff, &recharge), vec![F::SetTimer, F::AdjustTimer, F::Cooldown]);
    let execute = SpecialAttrib::kSpecialAttrib_ExecutePower;
    assert_eq!(F::from_bits(7, &execute), vec![F::CheckLoS, F::CopyBoosts]);
    assert_eq!(F::from_bits(1, &SpecialAttrib::kSpecialAttrib_CombatModShift), vec![F::DoNotDisplayShift]);
    assert_eq!(F::from_bits(1, &SpecialAttrib::kSpecialAttrib_TokenAdd), vec![F::NoTokenTime]);
    assert_eq!(F::from_bits(3, &SpecialAttrib::kSpecialAttrib_TokenSet), vec![F::NoTokenTime]);
    assert_eq!(F::from_bits(1, &SpecialAttrib::kSpecialAttrib_RevokePower), vec![F::RevokeAll]);
    assert!(F::from_bits(1, &SpecialAttrib::kSpecialAttrib_SetMode).is_empty());
    assert!(F::from_bits(0xffff, &SpecialAttrib::kSpecialAttrib_Character(3)).is_empty());
}

#[test]
fn effect_specific_flags_have_their_words() {
    assert_eq!(F::VanishEntOnTimeout.get_string(), "VanishEntOnTimeout");
    assert_eq!(F::CheckLoS.get_string(), "CheckLineOfSight");
    assert_eq!(F::AlwaysUseHeight.get_string(), "AlwaysUseHeight");
    assert_eq!(F::CopyCreatorCostume.get_string(), "CopyCreatorCostume");
}

#[test]
fn records_start_empty() {
    let r = PowerRedirect::new();
    assert!(r.pch_name.is_none() && r.ppch_requires.is_empty() && !r.b_show_in_info);
    let t = AttribModTargetInfo::new();
    assert!(t.ppch_marker_names.is_empty() && t.pi_marker_count.is_empty());
    let s = SuppressPair::new();
    assert_eq!(s.idx_event, PowerEvent::kPowerEvent_Activate);
    assert_eq!(s.ul_seconds, 0);
    assert!(!s.b_always);
    let m = AttribModMessages::new();
    assert!(m.pch_display_attacker_hit.is_none() && m.pch_display_defense_float.is_none());
    let f = AttribModFX::new();
    assert!(f.pi_continuing_bits.is_empty() && f.pch_conditional_fx.is_none());
    let n = AttribName::new();
    assert!(n.pch_name.is_none() && n.offset == 0);
    let all = AttribNames::new();
    assert!(all.pp_damage.is_empty() && all.pp_stack_key.is_empty());
}

#[test]
fn colours_keep_their_channels() {
    let c = RGBA::new(1, 2, 3, 4);
    assert_eq!((c.r(), c.g(), c.b(), c.a()), (1, 2, 3, 4));
    let d = RGBA::default();
    assert_eq!((d.r(), d.g(), d.b(), d.a()), (0, 0, 0, 0));
    let e = RGBA::new(255, 0, 128, 7);
    assert_eq!((e.r(), e.g(), e.b(), e.a()), (255, 0, 128, 7));
    assert_eq!(e.to_hex(), "#FF008007");
    assert_eq!(RGBA::new(0x1a, 0x2b, 0x9c, 0xde).to_hex(), "#1A2B9CDE");
    assert_eq!(d.to_hex(), "#00000000");
}

#[test]
fn character_attributes_know_whether_they_are_named() {
    let mut n = names();
    n.pp_defense[1].pch_display_name = None;
    assert!(CharacterAttrib(0).has_name_in(&n));
    assert!(CharacterAttrib(104).has_name_in(&n));
    assert!(!CharacterAttrib(108).has_name_in(&n));
    assert!(!CharacterAttrib(111).has_name_in(&n));
    assert!(CharacterAttrib(112).has_name_in(&n));
    // the table has no such entry, so there is nothing to name
    assert!(CharacterAttrib(180).has_name_in(&n));
    assert!(CharacterAttrib(80).has_name_in(&n));
    assert!(CharacterAttrib(-1).has_name_in(&n));
    assert!(CharacterAttrib(461).has_name_in(&n));
}
