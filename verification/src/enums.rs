//! The enumerations of the power tables, and the words by which each value is
//! shown.

use vstd::prelude::*;

verus! {

/// The texts of a list of words.
pub open spec fn words(list: Seq<&'static str>) -> Seq<Seq<char>> {
    Seq::new(list.len(), |i: int| list[i]@)
}

/// Which power system to use for advancement, level lookup, etc.
#[allow(non_camel_case_types)]
#[derive(Clone, Copy, Debug, PartialEq, Eq, Structural)]
pub enum PowerSystem {
    kPowerSystem_Powers,
}

impl Default for PowerSystem {
    fn default() -> (r: Self)
        ensures
            r == PowerSystem::kPowerSystem_Powers,
    {
        PowerSystem::kPowerSystem_Powers
    }
}

impl PowerSystem {
    /// The value that a record has before anything is read into it.
    pub fn new() -> (r: Self)
        ensures
            r == PowerSystem::kPowerSystem_Powers,
    {
        PowerSystem::kPowerSystem_Powers
    }

    /// The number under which the value is stored.
    pub open spec fn number(self) -> u32 {
        match self {
            PowerSystem::kPowerSystem_Powers => 0u32,
        }
    }

    /// The value stored under a number, if the number is one of the
    /// enumeration.
    pub fn from_u32(value: u32) -> (r: Option<Self>)
        ensures
            r is Some ==> r->0.number() == value,
            r is None ==> forall|e: Self| e.number() != value,
    {
        if value == 0 {
            Some(PowerSystem::kPowerSystem_Powers)
        } else {
            None
        }
    }
}

#[allow(non_camel_case_types)]
#[derive(Clone, Copy, Debug, PartialEq, Eq, Structural)]
pub enum ShowPowerSetting {
    /// If on a powerset that the player owns, do not show this powerset or any powers in it (no matter what settings the powers have).
    /// If on a power, don't show it (if the powerset allows the power to control its display).
    kShowPowerSetting_Never,
    /// If on a powerset that the player owns, show this powerset, but then allow the power to determine whether it is shown.
    /// If on a power, show it (if the powerset allows the power to control its display).
    kShowPowerSetting_Default,
    /// If on a powerset that the player owns, show this powerset and all powers in it (no matter what settings the powers have).
    /// If on a power, show it (if the powerset allows the power to control its display).
    kShowPowerSetting_Always,
    /// If on a powerset that the player owns, display it, and display all powers in the powerset only if they are usable (no matter what settings the powers have).
    /// If on a power, display it only if it is usable (if the powerset allows the power to control its display).
    kShowPowerSetting_IfUsable,
    /// If on a powerset that the player owns, display it, and display all powers in the powerset only if they are owned by the player (no matter what settings the powers have).
    /// If on a power, display it only if it is owned by the player (if the powerset allows the power to control its display).
    kShowPowerSetting_IfOwned,
}

impl Default for ShowPowerSetting {
    fn default() -> (r: Self)
        ensures
            r == ShowPowerSetting::kShowPowerSetting_Never,
    {
        ShowPowerSetting::kShowPowerSetting_Never
    }
}

impl ShowPowerSetting {
    /// The value that a record has before anything is read into it.
    pub fn new() -> (r: Self)
        ensures
            r == ShowPowerSetting::kShowPowerSetting_Never,
    {
        ShowPowerSetting::kShowPowerSetting_Never
    }

    /// The number under which the value is stored.
    pub open spec fn number(self) -> u32 {
        match self {
            ShowPowerSetting::kShowPowerSetting_Never => 0u32,
            ShowPowerSetting::kShowPowerSetting_Default => 1u32,
            ShowPowerSetting::kShowPowerSetting_Always => 2u32,
            ShowPowerSetting::kShowPowerSetting_IfUsable => 3u32,
            ShowPowerSetting::kShowPowerSetting_IfOwned => 4u32,
        }
    }

    /// The value stored under a number, if the number is one of the
    /// enumeration.
    pub fn from_u32(value: u32) -> (r: Option<Self>)
        ensures
            r is Some ==> r->0.number() == value,
            r is None ==> forall|e: Self| e.number() != value,
    {
        if value == 0 {
            Some(ShowPowerSetting::kShowPowerSetting_Never)
        } else if value == 1 {
            Some(ShowPowerSetting::kShowPowerSetting_Default)
        } else if value == 2 {
            Some(ShowPowerSetting::kShowPowerSetting_Always)
        } else if value == 3 {
            Some(ShowPowerSetting::kShowPowerSetting_IfUsable)
        } else if value == 4 {
            Some(ShowPowerSetting::kShowPowerSetting_IfOwned)
        } else {
            None
        }
    }
}

/// Defines if the power is auto, toggle, or click power.
#[allow(non_camel_case_types)]
#[derive(Clone, Copy, Debug, PartialEq, Eq, Structural)]
pub enum PowerType {
    /// Click powers only activate when the user has activated them.
    kPowerType_Click,
    /// Auto powers activate repeatedly.
    kPowerType_Auto,
    /// Toggle powers activate repeatedly when the character turns them on until they shut them off (or the character runs out of endurance).
    kPowerType_Toggle,
    /// Boosts apply to powers only.
    kPowerType_Boost,
    kPowerType_Inspiration,
    kPowerType_GlobalBoost,
}

impl Default for PowerType {
    fn default() -> (r: Self)
        ensures
            r == PowerType::kPowerType_Click,
    {
        PowerType::kPowerType_Click
    }
}

impl PowerType {
    /// The value that a record has before anything is read into it.
    pub fn new() -> (r: Self)
        ensures
            r == PowerType::kPowerType_Click,
    {
        PowerType::kPowerType_Click
    }

    /// The number under which the value is stored.
    pub open spec fn number(self) -> u32 {
        match self {
            PowerType::kPowerType_Click => 0u32,
            PowerType::kPowerType_Auto => 1u32,
            PowerType::kPowerType_Toggle => 2u32,
            PowerType::kPowerType_Boost => 3u32,
            PowerType::kPowerType_Inspiration => 4u32,
            PowerType::kPowerType_GlobalBoost => 5u32,
        }
    }

    /// The value stored under a number, if the number is one of the
    /// enumeration.
    pub fn from_u32(value: u32) -> (r: Option<Self>)
        ensures
            r is Some ==> r->0.number() == value,
            r is None ==> forall|e: Self| e.number() != value,
    {
        if value == 0 {
            Some(PowerType::kPowerType_Click)
        } else if value == 1 {
            Some(PowerType::kPowerType_Auto)
        } else if value == 2 {
            Some(PowerType::kPowerType_Toggle)
        } else if value == 3 {
            Some(PowerType::kPowerType_Boost)
        } else if value == 4 {
            Some(PowerType::kPowerType_Inspiration)
        } else if value == 5 {
            Some(PowerType::kPowerType_GlobalBoost)
        } else {
            None
        }
    }

    /// The word by which the value is shown.
    pub open spec fn label(self) -> Seq<char> {
        match self {
            PowerType::kPowerType_Click => "Click"@,
            PowerType::kPowerType_Auto => "Auto"@,
            PowerType::kPowerType_Toggle => "Toggle"@,
            PowerType::kPowerType_Boost => "Enhancement"@,
            PowerType::kPowerType_Inspiration => "Inspiration"@,
            PowerType::kPowerType_GlobalBoost => "Global Enhancement"@,
        }
    }

    /// The word by which the value is shown.
    pub fn get_string(&self) -> (s: &'static str)
        ensures
            s@ == self.label(),
    {
        match self {
            PowerType::kPowerType_Click => "Click",
            PowerType::kPowerType_Auto => "Auto",
            PowerType::kPowerType_Toggle => "Toggle",
            PowerType::kPowerType_Boost => "Enhancement",
            PowerType::kPowerType_Inspiration => "Inspiration",
            PowerType::kPowerType_GlobalBoost => "Global Enhancement",
        }
    }
}

#[allow(non_camel_case_types)]
#[derive(Clone, Copy, Debug, PartialEq, Eq, Structural)]
pub enum DeathCastableSetting {
    kDeathCastableSetting_AliveOnly,
    kDeathCastableSetting_DeadOnly,
    kDeathCastableSetting_DeadOrAlive,
}

impl Default for DeathCastableSetting {
    fn default() -> (r: Self)
        ensures
            r == DeathCastableSetting::kDeathCastableSetting_AliveOnly,
    {
        DeathCastableSetting::kDeathCastableSetting_AliveOnly
    }
}

impl DeathCastableSetting {
    /// The value that a record has before anything is read into it.
    pub fn new() -> (r: Self)
        ensures
            r == DeathCastableSetting::kDeathCastableSetting_AliveOnly,
    {
        DeathCastableSetting::kDeathCastableSetting_AliveOnly
    }

    /// The number under which the value is stored.
    pub open spec fn number(self) -> u32 {
        match self {
            DeathCastableSetting::kDeathCastableSetting_AliveOnly => 0u32,
            DeathCastableSetting::kDeathCastableSetting_DeadOnly => 1u32,
            DeathCastableSetting::kDeathCastableSetting_DeadOrAlive => 2u32,
        }
    }

    /// The value stored under a number, if the number is one of the
    /// enumeration.
    pub fn from_u32(value: u32) -> (r: Option<Self>)
        ensures
            r is Some ==> r->0.number() == value,
            r is None ==> forall|e: Self| e.number() != value,
    {
        if value == 0 {
            Some(DeathCastableSetting::kDeathCastableSetting_AliveOnly)
        } else if value == 1 {
            Some(DeathCastableSetting::kDeathCastableSetting_DeadOnly)
        } else if value == 2 {
            Some(DeathCastableSetting::kDeathCastableSetting_DeadOrAlive)
        } else {
            None
        }
    }
}

#[allow(non_camel_case_types)]
#[derive(Clone, Copy, Debug, PartialEq, Eq, Structural)]
pub enum AIReport {
    /// Report on hit or miss.
    kAIReport_Always,
    /// Never report to AI.
    kAIReport_Never,
    /// Report only when hit.
    kAIReport_HitOnly,
    /// Report only when missed.
    kAIReport_MissOnly,
}

impl Default for AIReport {
    fn default() -> (r: Self)
        ensures
            r == AIReport::kAIReport_Always,
    {
        AIReport::kAIReport_Always
    }
}

impl AIReport {
    /// The value that a record has before anything is read into it.
    pub fn new() -> (r: Self)
        ensures
            r == AIReport::kAIReport_Always,
    {
        AIReport::kAIReport_Always
    }

    /// The number under which the value is stored.
    pub open spec fn number(self) -> u32 {
        match self {
            AIReport::kAIReport_Always => 0u32,
            AIReport::kAIReport_Never => 1u32,
            AIReport::kAIReport_HitOnly => 2u32,
            AIReport::kAIReport_MissOnly => 3u32,
        }
    }

    /// The value stored under a number, if the number is one of the
    /// enumeration.
    pub fn from_u32(value: u32) -> (r: Option<Self>)
        ensures
            r is Some ==> r->0.number() == value,
            r is None ==> forall|e: Self| e.number() != value,
    {
        if value == 0 {
            Some(AIReport::kAIReport_Always)
        } else if value == 1 {
            Some(AIReport::kAIReport_Never)
        } else if value == 2 {
            Some(AIReport::kAIReport_HitOnly)
        } else if value == 3 {
            Some(AIReport::kAIReport_MissOnly)
        } else {
            None
        }
    }
}

/// The area effected by the power.
#[allow(non_camel_case_types)]
#[derive(Clone, Copy, Debug, PartialEq, Eq, Structural)]
pub enum EffectArea {
    /// Any targeted entity
    kEffectArea_Character,
    /// A cone centered around the ray connecting the source to the target.
    kEffectArea_Cone,
    /// A sphere surrounding the target.
    kEffectArea_Sphere,
    /// A single spot on the ground.
    kEffectArea_Location,
    /// A linked chain of targets.
    kEffectArea_Chain,
    /// In the same volume as the caster.
    kEffectArea_Volume,
    /// In a volume named the same as the one the caster is in (not yet implemented).
    kEffectArea_NamedVolume,
    /// Everybody on the same map as the caster.
    kEffectArea_Map,
    /// In the same tray (room) as the caster.
    kEffectArea_Room,
    /// Capsules touch.
    kEffectArea_Touch,
    /// A box positioned relative to the target, oriented along the regular xyz axes.
    kEffectArea_Box,
}

impl Default for EffectArea {
    fn default() -> (r: Self)
        ensures
            r == EffectArea::kEffectArea_Character,
    {
        EffectArea::kEffectArea_Character
    }
}

impl EffectArea {
    /// The value that a record has before anything is read into it.
    pub fn new() -> (r: Self)
        ensures
            r == EffectArea::kEffectArea_Character,
    {
        EffectArea::kEffectArea_Character
    }

    /// The number under which the value is stored.
    pub open spec fn number(self) -> u32 {
        match self {
            EffectArea::kEffectArea_Character => 0u32,
            EffectArea::kEffectArea_Cone => 1u32,
            EffectArea::kEffectArea_Sphere => 2u32,
            EffectArea::kEffectArea_Location => 3u32,
            EffectArea::kEffectArea_Chain => 4u32,
            EffectArea::kEffectArea_Volume => 5u32,
            EffectArea::kEffectArea_NamedVolume => 6u32,
            EffectArea::kEffectArea_Map => 7u32,
            EffectArea::kEffectArea_Room => 8u32,
            EffectArea::kEffectArea_Touch => 9u32,
            EffectArea::kEffectArea_Box => 10u32,
        }
    }

    /// The value stored under a number, if the number is one of the
    /// enumeration.
    pub fn from_u32(value: u32) -> (r: Option<Self>)
        ensures
            r is Some ==> r->0.number() == value,
            r is None ==> forall|e: Self| e.number() != value,
    {
        if value == 0 {
            Some(EffectArea::kEffectArea_Character)
        } else if value == 1 {
            Some(EffectArea::kEffectArea_Cone)
        } else if value == 2 {
            Some(EffectArea::kEffectArea_Sphere)
        } else if value == 3 {
            Some(EffectArea::kEffectArea_Location)
        } else if value == 4 {
            Some(EffectArea::kEffectArea_Chain)
        } else if value == 5 {
            Some(EffectArea::kEffectArea_Volume)
        } else if value == 6 {
            Some(EffectArea::kEffectArea_NamedVolume)
        } else if value == 7 {
            Some(EffectArea::kEffectArea_Map)
        } else if value == 8 {
            Some(EffectArea::kEffectArea_Room)
        } else if value == 9 {
            Some(EffectArea::kEffectArea_Touch)
        } else if value == 10 {
            Some(EffectArea::kEffectArea_Box)
        } else {
            None
        }
    }

    /// The word by which the value is shown.
    pub open spec fn label(self) -> Seq<char> {
        match self {
            EffectArea::kEffectArea_Character => "SingleTarget"@,
            EffectArea::kEffectArea_Cone => "Cone"@,
            EffectArea::kEffectArea_Sphere => "AoE"@,
            EffectArea::kEffectArea_Location => "Location"@,
            EffectArea::kEffectArea_Chain => "Chain"@,
            EffectArea::kEffectArea_Volume => "Self"@,
            EffectArea::kEffectArea_NamedVolume => "(not implemented)"@,
            EffectArea::kEffectArea_Map => "Map"@,
            EffectArea::kEffectArea_Room => "Room"@,
            EffectArea::kEffectArea_Touch => "Touch"@,
            EffectArea::kEffectArea_Box => "Box"@,
        }
    }

    /// The word by which the value is shown.
    pub fn get_string(&self) -> (s: &'static str)
        ensures
            s@ == self.label(),
    {
        match self {
            EffectArea::kEffectArea_Character => "SingleTarget",
            EffectArea::kEffectArea_Cone => "Cone",
            EffectArea::kEffectArea_Sphere => "AoE",
            EffectArea::kEffectArea_Location => "Location",
            EffectArea::kEffectArea_Chain => "Chain",
            EffectArea::kEffectArea_Volume => "Self",
            EffectArea::kEffectArea_NamedVolume => "(not implemented)",
            EffectArea::kEffectArea_Map => "Map",
            EffectArea::kEffectArea_Room => "Room",
            EffectArea::kEffectArea_Touch => "Touch",
            EffectArea::kEffectArea_Box => "Box",
        }
    }
}

/// Defines what kind of visibility is required between the caster and
/// the target for successful execution of the power.
#[allow(non_camel_case_types)]
#[derive(Clone, Copy, Debug, PartialEq, Eq, Structural)]
pub enum TargetVisibility {
    /// The caster must have direct line of sight to the target.
    kTargetVisibility_LineOfSight,
    /// No visibility is required (or checked)
    kTargetVisibility_None,
}

impl Default for TargetVisibility {
    fn default() -> (r: Self)
        ensures
            r == TargetVisibility::kTargetVisibility_LineOfSight,
    {
        TargetVisibility::kTargetVisibility_LineOfSight
    }
}

impl TargetVisibility {
    /// The value that a record has before anything is read into it.
    pub fn new() -> (r: Self)
        ensures
            r == TargetVisibility::kTargetVisibility_LineOfSight,
    {
        TargetVisibility::kTargetVisibility_LineOfSight
    }

    /// The number under which the value is stored.
    pub open spec fn number(self) -> u32 {
        match self {
            TargetVisibility::kTargetVisibility_LineOfSight => 0u32,
            TargetVisibility::kTargetVisibility_None => 1u32,
        }
    }

    /// The value stored under a number, if the number is one of the
    /// enumeration.
    pub fn from_u32(value: u32) -> (r: Option<Self>)
        ensures
            r is Some ==> r->0.number() == value,
            r is None ==> forall|e: Self| e.number() != value,
    {
        if value == 0 {
            Some(TargetVisibility::kTargetVisibility_LineOfSight)
        } else if value == 1 {
            Some(TargetVisibility::kTargetVisibility_None)
        } else {
            None
        }
    }
}

/// The thing which can be targetted. Used to specify which kinds of entities are affected, auto-hit, etc. by a power.
#[allow(non_camel_case_types)]
#[derive(Clone, Copy, Debug, PartialEq, Eq, Structural)]
pub enum TargetType {
    kTargetType_None,
    /// The caster, dead or alive.
    kTargetType_Caster,
    /// Any living players except the caster.
    kTargetType_Player,
    /// Any living player on Team Hero except the caster.
    kTargetType_PlayerHero,
    /// Any living player on Team Villain except the caster.
    kTargetType_PlayerVillain,
    /// Any dead players including the caster.
    kTargetType_DeadPlayer,
    /// Any dead players on the same side as the caster except the caster and skill checks.
    kTargetType_DeadPlayerFriend,
    /// Any dead players on the same side as the caster except the caster and skill checks.
    kTargetType_DeadPlayerFoe,
    /// Any living teammate and their pets except the caster.
    kTargetType_Teammate,
    /// Any dead teammate and all teammate's dead pets except the caster.
    kTargetType_DeadTeammate,
    /// All teammates and their pets, dead or alive except the caster.
    kTargetType_DeadOrAliveTeammate,
    /// Any living critter on team evil except the caster and skill checks.
    kTargetType_Villain,
    /// Any dead critter on team evil including the caster and skill checks.
    kTargetType_DeadVillain,
    /// Any living NPC but villains and skill checks.
    kTargetType_NPC,
    /// Anyone dead or alive on the same side as the caster except the caster and skill checks.
    kTargetType_DeadOrAliveFriend,
    /// Anyone dead on the same side as the caster except the caster and skill checks.
    kTargetType_DeadFriend,
    /// Anyone alive on the same side as the caster except the caster and skill checks.
    kTargetType_Friend,
    /// Anyone dead or alive on a different side from the caster except the caster and skill checks.
    kTargetType_DeadOrAliveFoe,
    /// Anyone dead on a different side from the caster except the caster and skill checks.
    kTargetType_DeadFoe,
    /// Anyone alive on a different side from the caster except the caster and skill checks.
    kTargetType_Foe,
    /// A specific location.
    kTargetType_Location,
    /// Any living entity which isn't dead.
    kTargetType_Any,
    /// Added i26p5. Any dead entity.
    kTargetType_DeadAny,
    /// Added i26p5. Any dead or living entity.
    kTargetType_DeadOrAliveAny,
    /// A specific location with constraints for teleporting.
    kTargetType_Teleport,
    /// Any target where the source is the owner.
    kTargetType_DeadOrAliveMyPet,
    /// The target is dead and is the source is the owner.
    kTargetType_DeadMyPet,
    /// The target is alive and is the source is the owner.
    kTargetType_MyPet,
    /// The target is the owner of the caster (this goes all the way back up to the first owner).
    kTargetType_MyOwner,
    /// The target is the creator of the caster (this goes only one level up to the entity that created ent).
    kTargetType_MyCreator,
    ///	The target is alive and the source is the creator.
    kTargetType_MyCreation,
    /// The target is dead and the source is the creator
    kTargetType_DeadMyCreation,
    ///	Any target where the source is the creator.
    kTargetType_DeadOrAliveMyCreation,
    /// Any living leaguemate and their pets except the caster.
    kTargetType_Leaguemate,
    /// Any dead leaguemate and all leaguemate's dead pets except the caster.
    kTargetType_DeadLeaguemate,
    /// All leaguemates and their pets, dead or alive except the caster.
    kTargetType_DeadOrAliveLeaguemate,
    /// A position relative to an entity specified by the designer.
    kTargetType_Position,
}

impl Default for TargetType {
    fn default() -> (r: Self)
        ensures
            r == TargetType::kTargetType_None,
    {
        TargetType::kTargetType_None
    }
}

impl TargetType {
    /// The value that a record has before anything is read into it.
    pub fn new() -> (r: Self)
        ensures
            r == TargetType::kTargetType_None,
    {
        TargetType::kTargetType_None
    }

    /// The number under which the value is stored.
    pub open spec fn number(self) -> u32 {
        match self {
            TargetType::kTargetType_None => 0u32,
            TargetType::kTargetType_Caster => 1u32,
            TargetType::kTargetType_Player => 2u32,
            TargetType::kTargetType_PlayerHero => 3u32,
            TargetType::kTargetType_PlayerVillain => 4u32,
            TargetType::kTargetType_DeadPlayer => 5u32,
            TargetType::kTargetType_DeadPlayerFriend => 6u32,
            TargetType::kTargetType_DeadPlayerFoe => 7u32,
            TargetType::kTargetType_Teammate => 8u32,
            TargetType::kTargetType_DeadTeammate => 9u32,
            TargetType::kTargetType_DeadOrAliveTeammate => 10u32,
            TargetType::kTargetType_Villain => 11u32,
            TargetType::kTargetType_DeadVillain => 12u32,
            TargetType::kTargetType_NPC => 13u32,
            TargetType::kTargetType_DeadOrAliveFriend => 14u32,
            TargetType::kTargetType_DeadFriend => 15u32,
            TargetType::kTargetType_Friend => 16u32,
            TargetType::kTargetType_DeadOrAliveFoe => 17u32,
            TargetType::kTargetType_DeadFoe => 18u32,
            TargetType::kTargetType_Foe => 19u32,
            TargetType::kTargetType_Location => 20u32,
            TargetType::kTargetType_Any => 21u32,
            TargetType::kTargetType_DeadAny => 22u32,
            TargetType::kTargetType_DeadOrAliveAny => 23u32,
            TargetType::kTargetType_Teleport => 24u32,
            TargetType::kTargetType_DeadOrAliveMyPet => 25u32,
            TargetType::kTargetType_DeadMyPet => 26u32,
            TargetType::kTargetType_MyPet => 27u32,
            TargetType::kTargetType_MyOwner => 28u32,
            TargetType::kTargetType_MyCreator => 29u32,
            TargetType::kTargetType_MyCreation => 30u32,
            TargetType::kTargetType_DeadMyCreation => 31u32,
            TargetType::kTargetType_DeadOrAliveMyCreation => 32u32,
            TargetType::kTargetType_Leaguemate => 33u32,
            TargetType::kTargetType_DeadLeaguemate => 34u32,
            TargetType::kTargetType_DeadOrAliveLeaguemate => 35u32,
            TargetType::kTargetType_Position => 36u32,
        }
    }

    /// The value stored under a number, if the number is one of the
    /// enumeration.
    pub fn from_u32(value: u32) -> (r: Option<Self>)
        ensures
            r is Some ==> r->0.number() == value,
            r is None ==> forall|e: Self| e.number() != value,
    {
        if value == 0 {
            Some(TargetType::kTargetType_None)
        } else if value == 1 {
            Some(TargetType::kTargetType_Caster)
        } else if value == 2 {
            Some(TargetType::kTargetType_Player)
        } else if value == 3 {
            Some(TargetType::kTargetType_PlayerHero)
        } else if value == 4 {
            Some(TargetType::kTargetType_PlayerVillain)
        } else if value == 5 {
            Some(TargetType::kTargetType_DeadPlayer)
        } else if value == 6 {
            Some(TargetType::kTargetType_DeadPlayerFriend)
        } else if value == 7 {
            Some(TargetType::kTargetType_DeadPlayerFoe)
        } else if value == 8 {
            Some(TargetType::kTargetType_Teammate)
        } else if value == 9 {
            Some(TargetType::kTargetType_DeadTeammate)
        } else if value == 10 {
            Some(TargetType::kTargetType_DeadOrAliveTeammate)
        } else if value == 11 {
            Some(TargetType::kTargetType_Villain)
        } else if value == 12 {
            Some(TargetType::kTargetType_DeadVillain)
        } else if value == 13 {
            Some(TargetType::kTargetType_NPC)
        } else if value == 14 {
            Some(TargetType::kTargetType_DeadOrAliveFriend)
        } else if value == 15 {
            Some(TargetType::kTargetType_DeadFriend)
        } else if value == 16 {
            Some(TargetType::kTargetType_Friend)
        } else if value == 17 {
            Some(TargetType::kTargetType_DeadOrAliveFoe)
        } else if value == 18 {
            Some(TargetType::kTargetType_DeadFoe)
        } else if value == 19 {
            Some(TargetType::kTargetType_Foe)
        } else if value == 20 {
            Some(TargetType::kTargetType_Location)
        } else if value == 21 {
            Some(TargetType::kTargetType_Any)
        } else if value == 22 {
            Some(TargetType::kTargetType_DeadAny)
        } else if value == 23 {
            Some(TargetType::kTargetType_DeadOrAliveAny)
        } else if value == 24 {
            Some(TargetType::kTargetType_Teleport)
        } else if value == 25 {
            Some(TargetType::kTargetType_DeadOrAliveMyPet)
        } else if value == 26 {
            Some(TargetType::kTargetType_DeadMyPet)
        } else if value == 27 {
            Some(TargetType::kTargetType_MyPet)
        } else if value == 28 {
            Some(TargetType::kTargetType_MyOwner)
        } else if value == 29 {
            Some(TargetType::kTargetType_MyCreator)
        } else if value == 30 {
            Some(TargetType::kTargetType_MyCreation)
        } else if value == 31 {
            Some(TargetType::kTargetType_DeadMyCreation)
        } else if value == 32 {
            Some(TargetType::kTargetType_DeadOrAliveMyCreation)
        } else if value == 33 {
            Some(TargetType::kTargetType_Leaguemate)
        } else if value == 34 {
            Some(TargetType::kTargetType_DeadLeaguemate)
        } else if value == 35 {
            Some(TargetType::kTargetType_DeadOrAliveLeaguemate)
        } else if value == 36 {
            Some(TargetType::kTargetType_Position)
        } else {
            None
        }
    }

    /// The tags that describe what can be targeted.
    pub open spec fn tags(self) -> Seq<Seq<char>> {
        match self {
            TargetType::kTargetType_None => Seq::empty(),
            TargetType::kTargetType_Caster => seq!["Self"@, "Alive"@, "Dead"@],
            TargetType::kTargetType_Player => seq!["Player"@, "Alive"@],
            TargetType::kTargetType_PlayerHero => seq!["Player"@, "Alive"@, "Hero"@],
            TargetType::kTargetType_PlayerVillain => seq!["Player"@, "Alive"@, "Villain"@],
            TargetType::kTargetType_DeadPlayer => seq!["Player"@, "Dead"@],
            TargetType::kTargetType_DeadPlayerFriend => seq!["Player"@, "Dead"@, "Friend"@],
            TargetType::kTargetType_DeadPlayerFoe => seq!["Player"@, "Dead"@, "Foe"@],
            TargetType::kTargetType_Teammate => seq!["Player"@, "Alive"@, "Team"@],
            TargetType::kTargetType_DeadTeammate => seq!["Player"@, "Dead"@, "Team"@],
            TargetType::kTargetType_DeadOrAliveTeammate => seq!["Player"@, "Alive"@, "Dead"@, "Team"@],
            TargetType::kTargetType_Villain => seq!["NPC"@, "Alive"@, "Foe"@],
            TargetType::kTargetType_DeadVillain => seq!["NPC"@, "Dead"@, "Foe"@],
            TargetType::kTargetType_NPC => seq!["NPC"@, "Friend"@],
            TargetType::kTargetType_DeadOrAliveFriend => seq!["Alive"@, "Dead"@, "Friend"@],
            TargetType::kTargetType_DeadFriend => seq!["Dead"@, "Friend"@],
            TargetType::kTargetType_Friend => seq!["Friend"@],
            TargetType::kTargetType_DeadOrAliveFoe => seq!["Alive"@, "Dead"@, "Foe"@],
            TargetType::kTargetType_DeadFoe => seq!["Dead"@, "Foe"@],
            TargetType::kTargetType_Foe => seq!["Foe"@],
            TargetType::kTargetType_Location => seq!["Location"@],
            TargetType::kTargetType_Any => seq!["Alive"@],
            TargetType::kTargetType_DeadAny => seq!["Dead"@],
            TargetType::kTargetType_DeadOrAliveAny => seq!["Dead"@, "Alive"@],
            TargetType::kTargetType_Teleport => seq!["Location"@, "Teleport"@],
            TargetType::kTargetType_DeadOrAliveMyPet => seq!["Pet"@, "Owned"@, "Dead"@, "Alive"@],
            TargetType::kTargetType_DeadMyPet => seq!["Pet"@, "Owned"@, "Dead"@],
            TargetType::kTargetType_MyPet => seq!["Pet"@, "Owned"@],
            TargetType::kTargetType_MyOwner => seq!["Root_Owner"@],
            TargetType::kTargetType_MyCreator => seq!["Owner"@],
            TargetType::kTargetType_MyCreation => seq!["Owned"@, "Alive"@],
            TargetType::kTargetType_DeadMyCreation => seq!["Owned"@, "Dead"@],
            TargetType::kTargetType_DeadOrAliveMyCreation => seq!["Owned"@, "Alive"@, "Dead"@],
            TargetType::kTargetType_Leaguemate => seq!["Player"@, "Alive"@, "Team"@, "League"@],
            TargetType::kTargetType_DeadLeaguemate => seq!["Player"@, "Dead"@, "Team"@, "League"@],
            TargetType::kTargetType_DeadOrAliveLeaguemate => seq!["Player"@, "Alive"@, "Dead"@, "Team"@, "League"@],
            TargetType::kTargetType_Position => seq!["Position"@],
        }
    }

    /// The tags that describe what can be targeted, in their fixed order.
    pub fn get_strings(&self) -> (list: Vec<&'static str>)
        ensures
            words(list@) == self.tags(),
    {
        let mut list: Vec<&'static str> = Vec::new();
        match self {
            TargetType::kTargetType_None => {},
            TargetType::kTargetType_Caster => {
                list.push("Self");
                list.push("Alive");
                list.push("Dead");
            },
            TargetType::kTargetType_Player => {
                list.push("Player");
                list.push("Alive");
            },
            TargetType::kTargetType_PlayerHero => {
                list.push("Player");
                list.push("Alive");
                list.push("Hero");
            },
            TargetType::kTargetType_PlayerVillain => {
                list.push("Player");
                list.push("Alive");
                list.push("Villain");
            },
            TargetType::kTargetType_DeadPlayer => {
                list.push("Player");
                list.push("Dead");
            },
            TargetType::kTargetType_DeadPlayerFriend => {
                list.push("Player");
                list.push("Dead");
                list.push("Friend");
            },
            TargetType::kTargetType_DeadPlayerFoe => {
                list.push("Player");
                list.push("Dead");
                list.push("Foe");
            },
            TargetType::kTargetType_Teammate => {
                list.push("Player");
                list.push("Alive");
                list.push("Team");
            },
            TargetType::kTargetType_DeadTeammate => {
                list.push("Player");
                list.push("Dead");
                list.push("Team");
            },
            TargetType::kTargetType_DeadOrAliveTeammate => {
                list.push("Player");
                list.push("Alive");
                list.push("Dead");
                list.push("Team");
            },
            TargetType::kTargetType_Villain => {
                list.push("NPC");
                list.push("Alive");
                list.push("Foe");
            },
            TargetType::kTargetType_DeadVillain => {
                list.push("NPC");
                list.push("Dead");
                list.push("Foe");
            },
            TargetType::kTargetType_NPC => {
                list.push("NPC");
                list.push("Friend");
            },
            TargetType::kTargetType_DeadOrAliveFriend => {
                list.push("Alive");
                list.push("Dead");
                list.push("Friend");
            },
            TargetType::kTargetType_DeadFriend => {
                list.push("Dead");
                list.push("Friend");
            },
            TargetType::kTargetType_Friend => {
                list.push("Friend");
            },
            TargetType::kTargetType_DeadOrAliveFoe => {
                list.push("Alive");
                list.push("Dead");
                list.push("Foe");
            },
            TargetType::kTargetType_DeadFoe => {
                list.push("Dead");
                list.push("Foe");
            },
            TargetType::kTargetType_Foe => {
                list.push("Foe");
            },
            TargetType::kTargetType_Location => {
                list.push("Location");
            },
            TargetType::kTargetType_Any => {
                list.push("Alive");
            },
            TargetType::kTargetType_DeadAny => {
                list.push("Dead");
            },
            TargetType::kTargetType_DeadOrAliveAny => {
                list.push("Dead");
                list.push("Alive");
            },
            TargetType::kTargetType_Teleport => {
                list.push("Location");
                list.push("Teleport");
            },
            TargetType::kTargetType_DeadOrAliveMyPet => {
                list.push("Pet");
                list.push("Owned");
                list.push("Dead");
                list.push("Alive");
            },
            TargetType::kTargetType_DeadMyPet => {
                list.push("Pet");
                list.push("Owned");
                list.push("Dead");
            },
            TargetType::kTargetType_MyPet => {
                list.push("Pet");
                list.push("Owned");
            },
            TargetType::kTargetType_MyOwner => {
                list.push("Root_Owner");
            },
            TargetType::kTargetType_MyCreator => {
                list.push("Owner");
            },
            TargetType::kTargetType_MyCreation => {
                list.push("Owned");
                list.push("Alive");
            },
            TargetType::kTargetType_DeadMyCreation => {
                list.push("Owned");
                list.push("Dead");
            },
            TargetType::kTargetType_DeadOrAliveMyCreation => {
                list.push("Owned");
                list.push("Alive");
                list.push("Dead");
            },
            TargetType::kTargetType_Leaguemate => {
                list.push("Player");
                list.push("Alive");
                list.push("Team");
                list.push("League");
            },
            TargetType::kTargetType_DeadLeaguemate => {
                list.push("Player");
                list.push("Dead");
                list.push("Team");
                list.push("League");
            },
            TargetType::kTargetType_DeadOrAliveLeaguemate => {
                list.push("Player");
                list.push("Alive");
                list.push("Dead");
                list.push("Team");
                list.push("League");
            },
            TargetType::kTargetType_Position => {
                list.push("Position");
            },
        }
        assert(words(list@) =~= self.tags());
        list
    }
}

#[allow(non_camel_case_types)]
#[derive(Clone, Copy, Debug, PartialEq, Eq, Structural)]
pub enum ModApplicationType {
    /// While the power is running.
    kModApplicationType_OnTick,
    /// When the power is turned on.
    kModApplicationType_OnActivate,
    /// When the power is turned off.
    kModApplicationType_OnDeactivate,
    /// A limited version of onDeactivate.
    kModApplicationType_OnExpire,
    /// When the power becomes able to be turned on.
    kModApplicationType_OnEnable,
    /// When the power becomes no longer able to be turned on
    kModApplicationType_OnDisable,
}

impl Default for ModApplicationType {
    fn default() -> (r: Self)
        ensures
            r == ModApplicationType::kModApplicationType_OnTick,
    {
        ModApplicationType::kModApplicationType_OnTick
    }
}

impl ModApplicationType {
    /// The value that a record has before anything is read into it.
    pub fn new() -> (r: Self)
        ensures
            r == ModApplicationType::kModApplicationType_OnTick,
    {
        ModApplicationType::kModApplicationType_OnTick
    }

    /// The number under which the value is stored.
    pub open spec fn number(self) -> u32 {
        match self {
            ModApplicationType::kModApplicationType_OnTick => 0u32,
            ModApplicationType::kModApplicationType_OnActivate => 1u32,
            ModApplicationType::kModApplicationType_OnDeactivate => 2u32,
            ModApplicationType::kModApplicationType_OnExpire => 3u32,
            ModApplicationType::kModApplicationType_OnEnable => 4u32,
            ModApplicationType::kModApplicationType_OnDisable => 5u32,
        }
    }

    /// The value stored under a number, if the number is one of the
    /// enumeration.
    pub fn from_u32(value: u32) -> (r: Option<Self>)
        ensures
            r is Some ==> r->0.number() == value,
            r is None ==> forall|e: Self| e.number() != value,
    {
        if value == 0 {
            Some(ModApplicationType::kModApplicationType_OnTick)
        } else if value == 1 {
            Some(ModApplicationType::kModApplicationType_OnActivate)
        } else if value == 2 {
            Some(ModApplicationType::kModApplicationType_OnDeactivate)
        } else if value == 3 {
            Some(ModApplicationType::kModApplicationType_OnExpire)
        } else if value == 4 {
            Some(ModApplicationType::kModApplicationType_OnEnable)
        } else if value == 5 {
            Some(ModApplicationType::kModApplicationType_OnDisable)
        } else {
            None
        }
    }

    /// The word by which the value is shown.
    pub open spec fn label(self) -> Seq<char> {
        match self {
            ModApplicationType::kModApplicationType_OnTick => "OnTick"@,
            ModApplicationType::kModApplicationType_OnActivate => "OnActivate"@,
            ModApplicationType::kModApplicationType_OnDeactivate => "OnDeactive"@,
            ModApplicationType::kModApplicationType_OnExpire => "OnExpire"@,
            ModApplicationType::kModApplicationType_OnEnable => "OnEnable"@,
            ModApplicationType::kModApplicationType_OnDisable => "OnDisable"@,
        }
    }

    /// The word by which the value is shown.
    pub fn get_string(&self) -> (s: &'static str)
        ensures
            s@ == self.label(),
    {
        match self {
            ModApplicationType::kModApplicationType_OnTick => "OnTick",
            ModApplicationType::kModApplicationType_OnActivate => "OnActivate",
            ModApplicationType::kModApplicationType_OnDeactivate => "OnDeactive",
            ModApplicationType::kModApplicationType_OnExpire => "OnExpire",
            ModApplicationType::kModApplicationType_OnEnable => "OnEnable",
            ModApplicationType::kModApplicationType_OnDisable => "OnDisable",
        }
    }
}

#[allow(non_camel_case_types)]
#[derive(Clone, Copy, Debug, PartialEq, Eq, Structural)]
pub enum ModTarget {
    kModTarget_Caster,
    kModTarget_CastersOwnerAndAllPets,
    kModTarget_Focus,
    kModTarget_FocusOwnerAndAllPets,
    kModTarget_Affected,
    kModTarget_AffectedsOwnerAndAllPets,
    kModTarget_Marker,
}

impl Default for ModTarget {
    fn default() -> (r: Self)
        ensures
            r == ModTarget::kModTarget_Affected,
    {
        ModTarget::kModTarget_Affected
    }
}

impl ModTarget {
    /// The value that a record has before anything is read into it.
    pub fn new() -> (r: Self)
        ensures
            r == ModTarget::kModTarget_Affected,
    {
        ModTarget::kModTarget_Affected
    }

    /// The number under which the value is stored.
    pub open spec fn number(self) -> u32 {
        match self {
            ModTarget::kModTarget_Caster => 0u32,
            ModTarget::kModTarget_CastersOwnerAndAllPets => 1u32,
            ModTarget::kModTarget_Focus => 2u32,
            ModTarget::kModTarget_FocusOwnerAndAllPets => 3u32,
            ModTarget::kModTarget_Affected => 4u32,
            ModTarget::kModTarget_AffectedsOwnerAndAllPets => 5u32,
            ModTarget::kModTarget_Marker => 6u32,
        }
    }

    /// The value stored under a number, if the number is one of the
    /// enumeration.
    pub fn from_u32(value: u32) -> (r: Option<Self>)
        ensures
            r is Some ==> r->0.number() == value,
            r is None ==> forall|e: Self| e.number() != value,
    {
        if value == 0 {
            Some(ModTarget::kModTarget_Caster)
        } else if value == 1 {
            Some(ModTarget::kModTarget_CastersOwnerAndAllPets)
        } else if value == 2 {
            Some(ModTarget::kModTarget_Focus)
        } else if value == 3 {
            Some(ModTarget::kModTarget_FocusOwnerAndAllPets)
        } else if value == 4 {
            Some(ModTarget::kModTarget_Affected)
        } else if value == 5 {
            Some(ModTarget::kModTarget_AffectedsOwnerAndAllPets)
        } else if value == 6 {
            Some(ModTarget::kModTarget_Marker)
        } else {
            None
        }
    }

    /// The word by which the value is shown.
    pub open spec fn label(self) -> Seq<char> {
        match self {
            ModTarget::kModTarget_Caster => "Self"@,
            ModTarget::kModTarget_CastersOwnerAndAllPets => "SelfAndPets"@,
            ModTarget::kModTarget_Focus => "Target"@,
            ModTarget::kModTarget_FocusOwnerAndAllPets => "TargetAndPets"@,
            ModTarget::kModTarget_Affected => "Affected"@,
            ModTarget::kModTarget_AffectedsOwnerAndAllPets => "AffectedAndPets"@,
            ModTarget::kModTarget_Marker => "Marker"@,
        }
    }

    /// The word by which the value is shown.
    pub fn get_string(&self) -> (s: &'static str)
        ensures
            s@ == self.label(),
    {
        match self {
            ModTarget::kModTarget_Caster => "Self",
            ModTarget::kModTarget_CastersOwnerAndAllPets => "SelfAndPets",
            ModTarget::kModTarget_Focus => "Target",
            ModTarget::kModTarget_FocusOwnerAndAllPets => "TargetAndPets",
            ModTarget::kModTarget_Affected => "Affected",
            ModTarget::kModTarget_AffectedsOwnerAndAllPets => "AffectedAndPets",
            ModTarget::kModTarget_Marker => "Marker",
        }
    }
}

#[allow(non_camel_case_types)]
#[derive(Clone, Copy, Debug, PartialEq, Eq, Structural)]
pub enum ModType {
    kModType_Duration,
    kModType_Magnitude,
    kModType_Constant,
    kModType_Expression,
    kModType_SkillMagnitude,
}

impl Default for ModType {
    fn default() -> (r: Self)
        ensures
            r == ModType::kModType_Magnitude,
    {
        ModType::kModType_Magnitude
    }
}

impl ModType {
    /// The value that a record has before anything is read into it.
    pub fn new() -> (r: Self)
        ensures
            r == ModType::kModType_Magnitude,
    {
        ModType::kModType_Magnitude
    }

    /// The number under which the value is stored.
    pub open spec fn number(self) -> u32 {
        match self {
            ModType::kModType_Duration => 0u32,
            ModType::kModType_Magnitude => 1u32,
            ModType::kModType_Constant => 2u32,
            ModType::kModType_Expression => 3u32,
            ModType::kModType_SkillMagnitude => 4u32,
        }
    }

    /// The value stored under a number, if the number is one of the
    /// enumeration.
    pub fn from_u32(value: u32) -> (r: Option<Self>)
        ensures
            r is Some ==> r->0.number() == value,
            r is None ==> forall|e: Self| e.number() != value,
    {
        if value == 0 {
            Some(ModType::kModType_Duration)
        } else if value == 1 {
            Some(ModType::kModType_Magnitude)
        } else if value == 2 {
            Some(ModType::kModType_Constant)
        } else if value == 3 {
            Some(ModType::kModType_Expression)
        } else if value == 4 {
            Some(ModType::kModType_SkillMagnitude)
        } else {
            None
        }
    }

    /// The word by which the value is shown.
    pub open spec fn label(self) -> Seq<char> {
        match self {
            ModType::kModType_Duration => "Duration"@,
            ModType::kModType_Magnitude => "Magnitude"@,
            ModType::kModType_Constant => "Constant"@,
            ModType::kModType_Expression => "Expression"@,
            ModType::kModType_SkillMagnitude => "SkillMagnitude"@,
        }
    }

    /// The word by which the value is shown.
    pub fn get_string(&self) -> (s: &'static str)
        ensures
            s@ == self.label(),
    {
        match self {
            ModType::kModType_Duration => "Duration",
            ModType::kModType_Magnitude => "Magnitude",
            ModType::kModType_Constant => "Constant",
            ModType::kModType_Expression => "Expression",
            ModType::kModType_SkillMagnitude => "SkillMagnitude",
        }
    }
}

#[allow(non_camel_case_types)]
#[derive(Clone, Copy, Debug, PartialEq, Eq, Structural)]
pub enum CasterStackType {
    /// Stacking is handled for each caster individually.
    kCasterStackType_Individual,
    /// Stacking is handled for all casters collectively.
    kCasterStackType_Collective,
}

impl Default for CasterStackType {
    fn default() -> (r: Self)
        ensures
            r == CasterStackType::kCasterStackType_Individual,
    {
        CasterStackType::kCasterStackType_Individual
    }
}

impl CasterStackType {
    /// The value that a record has before anything is read into it.
    pub fn new() -> (r: Self)
        ensures
            r == CasterStackType::kCasterStackType_Individual,
    {
        CasterStackType::kCasterStackType_Individual
    }

    /// The number under which the value is stored.
    pub open spec fn number(self) -> u32 {
        match self {
            CasterStackType::kCasterStackType_Individual => 0u32,
            CasterStackType::kCasterStackType_Collective => 1u32,
        }
    }

    /// The value stored under a number, if the number is one of the
    /// enumeration.
    pub fn from_u32(value: u32) -> (r: Option<Self>)
        ensures
            r is Some ==> r->0.number() == value,
            r is None ==> forall|e: Self| e.number() != value,
    {
        if value == 0 {
            Some(CasterStackType::kCasterStackType_Individual)
        } else if value == 1 {
            Some(CasterStackType::kCasterStackType_Collective)
        } else {
            None
        }
    }
}

/// Determines how multiple identical `AttribMod`s from the same power and caster are handled.
#[allow(non_camel_case_types)]
#[derive(Clone, Copy, Debug, PartialEq, Eq, Structural)]
pub enum StackType {
    /// Stack up (allow multiples).
    kStackType_Stack,
    /// Ignore the new duplicate (do nothing).
    kStackType_Ignore,
    /// Update the parameters in and extend the existing `AttribMod`.
    kStackType_Extend,
    /// Update the parameters and replace the existing `AttribMod`.
    kStackType_Replace,
    /// Update the parameters in the existing `AttribMod`, don't extend the duration.
    kStackType_Overlap,
    /// Stack up to StackCount times (if count < StackCount, then stack, else ignore).
    kStackType_StackThenIgnore,
    /// Update the duration in all copies of the existing matching `AttribMod`s, then add a new copy on.
    kStackType_Refresh,
    /// If count < StackCount, then Refresh and add a new copy, else just Refresh.
    kStackType_RefreshToCount,
    /// If mag is greater Replace, else Ignore.
    kStackType_Maximize,
    /// Keep all, but suppress all but the greatest magnitude.
    kStackType_Suppress,
    /// If an existing `AttribMod` is about to expire, behave as `kStackType_Replace`.
    kStackType_Continuous,
}

impl Default for StackType {
    fn default() -> (r: Self)
        ensures
            r == StackType::kStackType_Replace,
    {
        StackType::kStackType_Replace
    }
}

impl StackType {
    /// The value that a record has before anything is read into it.
    pub fn new() -> (r: Self)
        ensures
            r == StackType::kStackType_Replace,
    {
        StackType::kStackType_Replace
    }

    /// The number under which the value is stored.
    pub open spec fn number(self) -> u32 {
        match self {
            StackType::kStackType_Stack => 0u32,
            StackType::kStackType_Ignore => 1u32,
            StackType::kStackType_Extend => 2u32,
            StackType::kStackType_Replace => 3u32,
            StackType::kStackType_Overlap => 4u32,
            StackType::kStackType_StackThenIgnore => 5u32,
            StackType::kStackType_Refresh => 6u32,
            StackType::kStackType_RefreshToCount => 7u32,
            StackType::kStackType_Maximize => 8u32,
            StackType::kStackType_Suppress => 9u32,
            StackType::kStackType_Continuous => 10u32,
        }
    }

    /// The value stored under a number, if the number is one of the
    /// enumeration.
    pub fn from_u32(value: u32) -> (r: Option<Self>)
        ensures
            r is Some ==> r->0.number() == value,
            r is None ==> forall|e: Self| e.number() != value,
    {
        if value == 0 {
            Some(StackType::kStackType_Stack)
        } else if value == 1 {
            Some(StackType::kStackType_Ignore)
        } else if value == 2 {
            Some(StackType::kStackType_Extend)
        } else if value == 3 {
            Some(StackType::kStackType_Replace)
        } else if value == 4 {
            Some(StackType::kStackType_Overlap)
        } else if value == 5 {
            Some(StackType::kStackType_StackThenIgnore)
        } else if value == 6 {
            Some(StackType::kStackType_Refresh)
        } else if value == 7 {
            Some(StackType::kStackType_RefreshToCount)
        } else if value == 8 {
            Some(StackType::kStackType_Maximize)
        } else if value == 9 {
            Some(StackType::kStackType_Suppress)
        } else if value == 10 {
            Some(StackType::kStackType_Continuous)
        } else {
            None
        }
    }

    /// The word by which the value is shown.
    pub open spec fn label(self) -> Seq<char> {
        match self {
            StackType::kStackType_Stack => "Stack"@,
            StackType::kStackType_Ignore => "Ignore"@,
            StackType::kStackType_Extend => "Extend"@,
            StackType::kStackType_Replace => "Replace"@,
            StackType::kStackType_Overlap => "Overlap"@,
            StackType::kStackType_StackThenIgnore => "StackToLimit"@,
            StackType::kStackType_Refresh => "Refresh"@,
            StackType::kStackType_RefreshToCount => "RefreshToLimit"@,
            StackType::kStackType_Maximize => "Maximize"@,
            StackType::kStackType_Suppress => "Suppress"@,
            StackType::kStackType_Continuous => "Continuous"@,
        }
    }

    /// The word by which the value is shown.
    pub fn get_string(&self) -> (s: &'static str)
        ensures
            s@ == self.label(),
    {
        match self {
            StackType::kStackType_Stack => "Stack",
            StackType::kStackType_Ignore => "Ignore",
            StackType::kStackType_Extend => "Extend",
            StackType::kStackType_Replace => "Replace",
            StackType::kStackType_Overlap => "Overlap",
            StackType::kStackType_StackThenIgnore => "StackToLimit",
            StackType::kStackType_Refresh => "Refresh",
            StackType::kStackType_RefreshToCount => "RefreshToLimit",
            StackType::kStackType_Maximize => "Maximize",
            StackType::kStackType_Suppress => "Suppress",
            StackType::kStackType_Continuous => "Continuous",
        }
    }
}

#[allow(non_camel_case_types)]
#[derive(Clone, Copy, Debug, PartialEq, Eq, Structural)]
pub enum PowerEvent {
    kPowerEvent_Activate,
    kPowerEvent_ActivateAttackClick,
    kPowerEvent_Attacked,
    kPowerEvent_AttackedNoException,
    kPowerEvent_Helped,
    kPowerEvent_Hit,
    kPowerEvent_Miss,
    kPowerEvent_EndActivate,
    kPowerEvent_AttackedByOther,
    kPowerEvent_AttackedByOtherClick,
    kPowerEvent_HelpedByOther,
    kPowerEvent_HitByOther,
    kPowerEvent_HitByFriend,
    kPowerEvent_HitByFoe,
    kPowerEvent_MissByOther,
    kPowerEvent_MissByFriend,
    kPowerEvent_MissByFoe,
    kPowerEvent_Damaged,
    kPowerEvent_Healed,
    kPowerEvent_Stunned,
    kPowerEvent_Immobilized,
    kPowerEvent_Held,
    kPowerEvent_Sleep,
    kPowerEvent_Terrorized,
    kPowerEvent_Confused,
    kPowerEvent_Untouchable,
    kPowerEvent_Intangible,
    kPowerEvent_OnlyAffectsSelf,
    kPowerEvent_AnyStatus,
    kPowerEvent_Knocked,
    kPowerEvent_Defeated,
    kPowerEvent_MissionObjectClick,
    kPowerEvent_Moved,
    kPowerEvent_Defiant,
}

impl Default for PowerEvent {
    fn default() -> (r: Self)
        ensures
            r == PowerEvent::kPowerEvent_Activate,
    {
        PowerEvent::kPowerEvent_Activate
    }
}

impl PowerEvent {
    /// The value that a record has before anything is read into it.
    pub fn new() -> (r: Self)
        ensures
            r == PowerEvent::kPowerEvent_Activate,
    {
        PowerEvent::kPowerEvent_Activate
    }

    /// The number under which the value is stored.
    pub open spec fn number(self) -> u32 {
        match self {
            PowerEvent::kPowerEvent_Activate => 0u32,
            PowerEvent::kPowerEvent_ActivateAttackClick => 1u32,
            PowerEvent::kPowerEvent_Attacked => 2u32,
            PowerEvent::kPowerEvent_AttackedNoException => 3u32,
            PowerEvent::kPowerEvent_Helped => 4u32,
            PowerEvent::kPowerEvent_Hit => 5u32,
            PowerEvent::kPowerEvent_Miss => 6u32,
            PowerEvent::kPowerEvent_EndActivate => 7u32,
            PowerEvent::kPowerEvent_AttackedByOther => 8u32,
            PowerEvent::kPowerEvent_AttackedByOtherClick => 9u32,
            PowerEvent::kPowerEvent_HelpedByOther => 10u32,
            PowerEvent::kPowerEvent_HitByOther => 11u32,
            PowerEvent::kPowerEvent_HitByFriend => 12u32,
            PowerEvent::kPowerEvent_HitByFoe => 13u32,
            PowerEvent::kPowerEvent_MissByOther => 14u32,
            PowerEvent::kPowerEvent_MissByFriend => 15u32,
            PowerEvent::kPowerEvent_MissByFoe => 16u32,
            PowerEvent::kPowerEvent_Damaged => 17u32,
            PowerEvent::kPowerEvent_Healed => 18u32,
            PowerEvent::kPowerEvent_Stunned => 19u32,
            PowerEvent::kPowerEvent_Immobilized => 20u32,
            PowerEvent::kPowerEvent_Held => 21u32,
            PowerEvent::kPowerEvent_Sleep => 22u32,
            PowerEvent::kPowerEvent_Terrorized => 23u32,
            PowerEvent::kPowerEvent_Confused => 24u32,
            PowerEvent::kPowerEvent_Untouchable => 25u32,
            PowerEvent::kPowerEvent_Intangible => 26u32,
            PowerEvent::kPowerEvent_OnlyAffectsSelf => 27u32,
            PowerEvent::kPowerEvent_AnyStatus => 28u32,
            PowerEvent::kPowerEvent_Knocked => 29u32,
            PowerEvent::kPowerEvent_Defeated => 30u32,
            PowerEvent::kPowerEvent_MissionObjectClick => 31u32,
            PowerEvent::kPowerEvent_Moved => 32u32,
            PowerEvent::kPowerEvent_Defiant => 33u32,
        }
    }

    /// The value stored under a number, if the number is one of the
    /// enumeration.
    pub fn from_u32(value: u32) -> (r: Option<Self>)
        ensures
            r is Some ==> r->0.number() == value,
            r is None ==> forall|e: Self| e.number() != value,
    {
        if value == 0 {
            Some(PowerEvent::kPowerEvent_Activate)
        } else if value == 1 {
            Some(PowerEvent::kPowerEvent_ActivateAttackClick)
        } else if value == 2 {
            Some(PowerEvent::kPowerEvent_Attacked)
        } else if value == 3 {
            Some(PowerEvent::kPowerEvent_AttackedNoException)
        } else if value == 4 {
            Some(PowerEvent::kPowerEvent_Helped)
        } else if value == 5 {
            Some(PowerEvent::kPowerEvent_Hit)
        } else if value == 6 {
            Some(PowerEvent::kPowerEvent_Miss)
        } else if value == 7 {
            Some(PowerEvent::kPowerEvent_EndActivate)
        } else if value == 8 {
            Some(PowerEvent::kPowerEvent_AttackedByOther)
        } else if value == 9 {
            Some(PowerEvent::kPowerEvent_AttackedByOtherClick)
        } else if value == 10 {
            Some(PowerEvent::kPowerEvent_HelpedByOther)
        } else if value == 11 {
            Some(PowerEvent::kPowerEvent_HitByOther)
        } else if value == 12 {
            Some(PowerEvent::kPowerEvent_HitByFriend)
        } else if value == 13 {
            Some(PowerEvent::kPowerEvent_HitByFoe)
        } else if value == 14 {
            Some(PowerEvent::kPowerEvent_MissByOther)
        } else if value == 15 {
            Some(PowerEvent::kPowerEvent_MissByFriend)
        } else if value == 16 {
            Some(PowerEvent::kPowerEvent_MissByFoe)
        } else if value == 17 {
            Some(PowerEvent::kPowerEvent_Damaged)
        } else if value == 18 {
            Some(PowerEvent::kPowerEvent_Healed)
        } else if value == 19 {
            Some(PowerEvent::kPowerEvent_Stunned)
        } else if value == 20 {
            Some(PowerEvent::kPowerEvent_Immobilized)
        } else if value == 21 {
            Some(PowerEvent::kPowerEvent_Held)
        } else if value == 22 {
            Some(PowerEvent::kPowerEvent_Sleep)
        } else if value == 23 {
            Some(PowerEvent::kPowerEvent_Terrorized)
        } else if value == 24 {
            Some(PowerEvent::kPowerEvent_Confused)
        } else if value == 25 {
            Some(PowerEvent::kPowerEvent_Untouchable)
        } else if value == 26 {
            Some(PowerEvent::kPowerEvent_Intangible)
        } else if value == 27 {
            Some(PowerEvent::kPowerEvent_OnlyAffectsSelf)
        } else if value == 28 {
            Some(PowerEvent::kPowerEvent_AnyStatus)
        } else if value == 29 {
            Some(PowerEvent::kPowerEvent_Knocked)
        } else if value == 30 {
            Some(PowerEvent::kPowerEvent_Defeated)
        } else if value == 31 {
            Some(PowerEvent::kPowerEvent_MissionObjectClick)
        } else if value == 32 {
            Some(PowerEvent::kPowerEvent_Moved)
        } else if value == 33 {
            Some(PowerEvent::kPowerEvent_Defiant)
        } else {
            None
        }
    }

    /// The word by which the value is shown.
    pub open spec fn label(self) -> Seq<char> {
        match self {
            PowerEvent::kPowerEvent_Activate => "Activate"@,
            PowerEvent::kPowerEvent_ActivateAttackClick => "ActivateAttackClick"@,
            PowerEvent::kPowerEvent_Attacked => "Attacked"@,
            PowerEvent::kPowerEvent_AttackedNoException => "AttackedNoException"@,
            PowerEvent::kPowerEvent_Helped => "Helped"@,
            PowerEvent::kPowerEvent_Hit => "Hit"@,
            PowerEvent::kPowerEvent_Miss => "Miss"@,
            PowerEvent::kPowerEvent_EndActivate => "EndActivate"@,
            PowerEvent::kPowerEvent_AttackedByOther => "AttackedByOther"@,
            PowerEvent::kPowerEvent_AttackedByOtherClick => "AttackedByOtherClick"@,
            PowerEvent::kPowerEvent_HelpedByOther => "HelpedByOther"@,
            PowerEvent::kPowerEvent_HitByOther => "HitByOther"@,
            PowerEvent::kPowerEvent_HitByFriend => "HitByFriend"@,
            PowerEvent::kPowerEvent_HitByFoe => "HitByFoe"@,
            PowerEvent::kPowerEvent_MissByOther => "MissByOther"@,
            PowerEvent::kPowerEvent_MissByFriend => "MissByFriend"@,
            PowerEvent::kPowerEvent_MissByFoe => "MissByFoe"@,
            PowerEvent::kPowerEvent_Damaged => "Damaged"@,
            PowerEvent::kPowerEvent_Healed => "Healed"@,
            PowerEvent::kPowerEvent_Stunned => "Stunned"@,
            PowerEvent::kPowerEvent_Immobilized => "Immobilized"@,
            PowerEvent::kPowerEvent_Held => "Held"@,
            PowerEvent::kPowerEvent_Sleep => "Sleep"@,
            PowerEvent::kPowerEvent_Terrorized => "Terrorized"@,
            PowerEvent::kPowerEvent_Confused => "Confused"@,
            PowerEvent::kPowerEvent_Untouchable => "Untouchable"@,
            PowerEvent::kPowerEvent_Intangible => "Intangible"@,
            PowerEvent::kPowerEvent_OnlyAffectsSelf => "OnlyAffectsSelf"@,
            PowerEvent::kPowerEvent_AnyStatus => "AnyStatus"@,
            PowerEvent::kPowerEvent_Knocked => "Knocked"@,
            PowerEvent::kPowerEvent_Defeated => "Defeated"@,
            PowerEvent::kPowerEvent_MissionObjectClick => "MissionObjectClick"@,
            PowerEvent::kPowerEvent_Moved => "Moved"@,
            PowerEvent::kPowerEvent_Defiant => "Defiant"@,
        }
    }

    /// The word by which the value is shown.
    pub fn get_string(&self) -> (s: &'static str)
        ensures
            s@ == self.label(),
    {
        match self {
            PowerEvent::kPowerEvent_Activate => "Activate",
            PowerEvent::kPowerEvent_ActivateAttackClick => "ActivateAttackClick",
            PowerEvent::kPowerEvent_Attacked => "Attacked",
            PowerEvent::kPowerEvent_AttackedNoException => "AttackedNoException",
            PowerEvent::kPowerEvent_Helped => "Helped",
            PowerEvent::kPowerEvent_Hit => "Hit",
            PowerEvent::kPowerEvent_Miss => "Miss",
            PowerEvent::kPowerEvent_EndActivate => "EndActivate",
            PowerEvent::kPowerEvent_AttackedByOther => "AttackedByOther",
            PowerEvent::kPowerEvent_AttackedByOtherClick => "AttackedByOtherClick",
            PowerEvent::kPowerEvent_HelpedByOther => "HelpedByOther",
            PowerEvent::kPowerEvent_HitByOther => "HitByOther",
            PowerEvent::kPowerEvent_HitByFriend => "HitByFriend",
            PowerEvent::kPowerEvent_HitByFoe => "HitByFoe",
            PowerEvent::kPowerEvent_MissByOther => "MissByOther",
            PowerEvent::kPowerEvent_MissByFriend => "MissByFriend",
            PowerEvent::kPowerEvent_MissByFoe => "MissByFoe",
            PowerEvent::kPowerEvent_Damaged => "Damaged",
            PowerEvent::kPowerEvent_Healed => "Healed",
            PowerEvent::kPowerEvent_Stunned => "Stunned",
            PowerEvent::kPowerEvent_Immobilized => "Immobilized",
            PowerEvent::kPowerEvent_Held => "Held",
            PowerEvent::kPowerEvent_Sleep => "Sleep",
            PowerEvent::kPowerEvent_Terrorized => "Terrorized",
            PowerEvent::kPowerEvent_Confused => "Confused",
            PowerEvent::kPowerEvent_Untouchable => "Untouchable",
            PowerEvent::kPowerEvent_Intangible => "Intangible",
            PowerEvent::kPowerEvent_OnlyAffectsSelf => "OnlyAffectsSelf",
            PowerEvent::kPowerEvent_AnyStatus => "AnyStatus",
            PowerEvent::kPowerEvent_Knocked => "Knocked",
            PowerEvent::kPowerEvent_Defeated => "Defeated",
            PowerEvent::kPowerEvent_MissionObjectClick => "MissionObjectClick",
            PowerEvent::kPowerEvent_Moved => "Moved",
            PowerEvent::kPowerEvent_Defiant => "Defiant",
        }
    }
}

#[allow(non_camel_case_types)]
#[derive(Clone, Copy, Debug, PartialEq, Eq, Structural)]
pub enum ToggleDroppable {
    kToggleDroppable_Sometimes,
    kToggleDroppable_Always,
    kToggleDroppable_First,
    kToggleDroppable_Last,
    kToggleDroppable_Never,
}

impl Default for ToggleDroppable {
    fn default() -> (r: Self)
        ensures
            r == ToggleDroppable::kToggleDroppable_Sometimes,
    {
        ToggleDroppable::kToggleDroppable_Sometimes
    }
}

impl ToggleDroppable {
    /// The value that a record has before anything is read into it.
    pub fn new() -> (r: Self)
        ensures
            r == ToggleDroppable::kToggleDroppable_Sometimes,
    {
        ToggleDroppable::kToggleDroppable_Sometimes
    }

    /// The number under which the value is stored.
    pub open spec fn number(self) -> u32 {
        match self {
            ToggleDroppable::kToggleDroppable_Sometimes => 0u32,
            ToggleDroppable::kToggleDroppable_Always => 1u32,
            ToggleDroppable::kToggleDroppable_First => 2u32,
            ToggleDroppable::kToggleDroppable_Last => 3u32,
            ToggleDroppable::kToggleDroppable_Never => 4u32,
        }
    }

    /// The value stored under a number, if the number is one of the
    /// enumeration.
    pub fn from_u32(value: u32) -> (r: Option<Self>)
        ensures
            r is Some ==> r->0.number() == value,
            r is None ==> forall|e: Self| e.number() != value,
    {
        if value == 0 {
            Some(ToggleDroppable::kToggleDroppable_Sometimes)
        } else if value == 1 {
            Some(ToggleDroppable::kToggleDroppable_Always)
        } else if value == 2 {
            Some(ToggleDroppable::kToggleDroppable_First)
        } else if value == 3 {
            Some(ToggleDroppable::kToggleDroppable_Last)
        } else if value == 4 {
            Some(ToggleDroppable::kToggleDroppable_Never)
        } else {
            None
        }
    }
}

#[allow(non_camel_case_types)]
#[derive(Clone, Copy, Debug, PartialEq, Eq, Structural)]
pub enum ProcAllowed {
    kProcAllowed_All,
    kProcAllowed_None,
    kProcAllowed_PowerOnly,
    kProcAllowed_GlobalOnly,
}

impl Default for ProcAllowed {
    fn default() -> (r: Self)
        ensures
            r == ProcAllowed::kProcAllowed_All,
    {
        ProcAllowed::kProcAllowed_All
    }
}

impl ProcAllowed {
    /// The value that a record has before anything is read into it.
    pub fn new() -> (r: Self)
        ensures
            r == ProcAllowed::kProcAllowed_All,
    {
        ProcAllowed::kProcAllowed_All
    }

    /// The number under which the value is stored.
    pub open spec fn number(self) -> u32 {
        match self {
            ProcAllowed::kProcAllowed_All => 0u32,
            ProcAllowed::kProcAllowed_None => 1u32,
            ProcAllowed::kProcAllowed_PowerOnly => 2u32,
            ProcAllowed::kProcAllowed_GlobalOnly => 3u32,
        }
    }

    /// The value stored under a number, if the number is one of the
    /// enumeration.
    pub fn from_u32(value: u32) -> (r: Option<Self>)
        ensures
            r is Some ==> r->0.number() == value,
            r is None ==> forall|e: Self| e.number() != value,
    {
        if value == 0 {
            Some(ProcAllowed::kProcAllowed_All)
        } else if value == 1 {
            Some(ProcAllowed::kProcAllowed_None)
        } else if value == 2 {
            Some(ProcAllowed::kProcAllowed_PowerOnly)
        } else if value == 3 {
            Some(ProcAllowed::kProcAllowed_GlobalOnly)
        } else {
            None
        }
    }
}

#[allow(non_camel_case_types)]
#[derive(Clone, Copy, Debug, PartialEq, Eq, Structural)]
pub enum AttribType {
    kAttribType_Cur,
    kAttribType_Str,
    kAttribType_Res,
    kAttribType_Max,
    kAttribType_Mod,
    kAttribType_Abs,
    kAttribType_Special,
}

impl Default for AttribType {
    fn default() -> (r: Self)
        ensures
            r == AttribType::kAttribType_Cur,
    {
        AttribType::kAttribType_Cur
    }
}

impl AttribType {
    /// The value that a record has before anything is read into it.
    pub fn new() -> (r: Self)
        ensures
            r == AttribType::kAttribType_Cur,
    {
        AttribType::kAttribType_Cur
    }

    /// The number under which the value is stored.
    pub open spec fn number(self) -> u32 {
        match self {
            AttribType::kAttribType_Cur => 0u32,
            AttribType::kAttribType_Str => 1u32,
            AttribType::kAttribType_Res => 2u32,
            AttribType::kAttribType_Max => 3u32,
            AttribType::kAttribType_Mod => 4u32,
            AttribType::kAttribType_Abs => 5u32,
            AttribType::kAttribType_Special => 6u32,
        }
    }

    /// The value stored under a number, if the number is one of the
    /// enumeration.
    pub fn from_u32(value: u32) -> (r: Option<Self>)
        ensures
            r is Some ==> r->0.number() == value,
            r is None ==> forall|e: Self| e.number() != value,
    {
        if value == 0 {
            Some(AttribType::kAttribType_Cur)
        } else if value == 1 {
            Some(AttribType::kAttribType_Str)
        } else if value == 2 {
            Some(AttribType::kAttribType_Res)
        } else if value == 3 {
            Some(AttribType::kAttribType_Max)
        } else if value == 4 {
            Some(AttribType::kAttribType_Mod)
        } else if value == 5 {
            Some(AttribType::kAttribType_Abs)
        } else if value == 6 {
            Some(AttribType::kAttribType_Special)
        } else {
            None
        }
    }

    /// The word by which the value is shown.
    pub open spec fn label(self) -> Seq<char> {
        match self {
            AttribType::kAttribType_Cur => "CurrentValue"@,
            AttribType::kAttribType_Str => "Strength"@,
            AttribType::kAttribType_Res => "Resistance"@,
            AttribType::kAttribType_Max => "MaxValue"@,
            AttribType::kAttribType_Mod => "CurrentModifier"@,
            AttribType::kAttribType_Abs => "AbsoluteValue"@,
            AttribType::kAttribType_Special => "Special"@,
        }
    }

    /// The word by which the value is shown.
    pub fn get_string(&self) -> (s: &'static str)
        ensures
            s@ == self.label(),
    {
        match self {
            AttribType::kAttribType_Cur => "CurrentValue",
            AttribType::kAttribType_Str => "Strength",
            AttribType::kAttribType_Res => "Resistance",
            AttribType::kAttribType_Max => "MaxValue",
            AttribType::kAttribType_Mod => "CurrentModifier",
            AttribType::kAttribType_Abs => "AbsoluteValue",
            AttribType::kAttribType_Special => "Special",
        }
    }
}

#[allow(non_camel_case_types)]
#[derive(Clone, Copy, Debug, PartialEq, Eq, Structural)]
pub enum AttribStyle {
    kAttribStyle_None,
    kAttribStyle_Percent,
    kAttribStyle_Magnitude,
    kAttribStyle_Distance,
    kAttribStyle_PercentMinus100,
    kAttribStyle_PerSecond,
    kAttribStyle_Speed,
    kAttribStyle_ResistanceDuration,
    kAttribStyle_Multiply,
    kAttribStyle_Integer,
    kAttribStyle_EnduranceReduction,
    kAttribStyle_InversePercent,
    kAttribStyle_ResistanceDistance,
}

impl Default for AttribStyle {
    fn default() -> (r: Self)
        ensures
            r == AttribStyle::kAttribStyle_None,
    {
        AttribStyle::kAttribStyle_None
    }
}

impl AttribStyle {
    /// The value that a record has before anything is read into it.
    pub fn new() -> (r: Self)
        ensures
            r == AttribStyle::kAttribStyle_None,
    {
        AttribStyle::kAttribStyle_None
    }

    /// The number under which the value is stored.
    pub open spec fn number(self) -> u32 {
        match self {
            AttribStyle::kAttribStyle_None => 0u32,
            AttribStyle::kAttribStyle_Percent => 1u32,
            AttribStyle::kAttribStyle_Magnitude => 2u32,
            AttribStyle::kAttribStyle_Distance => 3u32,
            AttribStyle::kAttribStyle_PercentMinus100 => 4u32,
            AttribStyle::kAttribStyle_PerSecond => 5u32,
            AttribStyle::kAttribStyle_Speed => 6u32,
            AttribStyle::kAttribStyle_ResistanceDuration => 7u32,
            AttribStyle::kAttribStyle_Multiply => 8u32,
            AttribStyle::kAttribStyle_Integer => 9u32,
            AttribStyle::kAttribStyle_EnduranceReduction => 10u32,
            AttribStyle::kAttribStyle_InversePercent => 11u32,
            AttribStyle::kAttribStyle_ResistanceDistance => 12u32,
        }
    }

    /// The value stored under a number, if the number is one of the
    /// enumeration.
    pub fn from_u32(value: u32) -> (r: Option<Self>)
        ensures
            r is Some ==> r->0.number() == value,
            r is None ==> forall|e: Self| e.number() != value,
    {
        if value == 0 {
            Some(AttribStyle::kAttribStyle_None)
        } else if value == 1 {
            Some(AttribStyle::kAttribStyle_Percent)
        } else if value == 2 {
            Some(AttribStyle::kAttribStyle_Magnitude)
        } else if value == 3 {
            Some(AttribStyle::kAttribStyle_Distance)
        } else if value == 4 {
            Some(AttribStyle::kAttribStyle_PercentMinus100)
        } else if value == 5 {
            Some(AttribStyle::kAttribStyle_PerSecond)
        } else if value == 6 {
            Some(AttribStyle::kAttribStyle_Speed)
        } else if value == 7 {
            Some(AttribStyle::kAttribStyle_ResistanceDuration)
        } else if value == 8 {
            Some(AttribStyle::kAttribStyle_Multiply)
        } else if value == 9 {
            Some(AttribStyle::kAttribStyle_Integer)
        } else if value == 10 {
            Some(AttribStyle::kAttribStyle_EnduranceReduction)
        } else if value == 11 {
            Some(AttribStyle::kAttribStyle_InversePercent)
        } else if value == 12 {
            Some(AttribStyle::kAttribStyle_ResistanceDistance)
        } else {
            None
        }
    }
}

/// Rank of a villain. The "level" here is for conning purposes.
#[allow(non_camel_case_types)]
#[derive(Clone, Copy, Debug, PartialEq, Eq, Structural)]
pub enum VillainRank {
    VR_NONE,
    /// -1 level
    VR_SMALL,
    /// +0 level
    VR_MINION,
    /// +1 level
    VR_LIEUTENANT,
    /// +1 level
    VR_SNIPER,
    /// +2 level
    VR_BOSS,
    /// +3 level - Elite Boss
    VR_ELITE,
    /// +5 level
    VR_ARCHVILLAIN,
    /// +5 level
    VR_ARCHVILLAIN2,
    /// +100 level
    VR_BIGMONSTER,
    /// +1 level
    VR_PET,
    /// +1 level
    VR_DESTRUCTIBLE,
}

impl Default for VillainRank {
    fn default() -> (r: Self)
        ensures
            r == VillainRank::VR_NONE,
    {
        VillainRank::VR_NONE
    }
}

impl VillainRank {
    /// The value that a record has before anything is read into it.
    pub fn new() -> (r: Self)
        ensures
            r == VillainRank::VR_NONE,
    {
        VillainRank::VR_NONE
    }

    /// The number under which the value is stored.
    pub open spec fn number(self) -> u32 {
        match self {
            VillainRank::VR_NONE => 0u32,
            VillainRank::VR_SMALL => 1u32,
            VillainRank::VR_MINION => 2u32,
            VillainRank::VR_LIEUTENANT => 3u32,
            VillainRank::VR_SNIPER => 4u32,
            VillainRank::VR_BOSS => 5u32,
            VillainRank::VR_ELITE => 6u32,
            VillainRank::VR_ARCHVILLAIN => 7u32,
            VillainRank::VR_ARCHVILLAIN2 => 8u32,
            VillainRank::VR_BIGMONSTER => 9u32,
            VillainRank::VR_PET => 10u32,
            VillainRank::VR_DESTRUCTIBLE => 11u32,
        }
    }

    /// The value stored under a number, if the number is one of the
    /// enumeration.
    pub fn from_u32(value: u32) -> (r: Option<Self>)
        ensures
            r is Some ==> r->0.number() == value,
            r is None ==> forall|e: Self| e.number() != value,
    {
        if value == 0 {
            Some(VillainRank::VR_NONE)
        } else if value == 1 {
            Some(VillainRank::VR_SMALL)
        } else if value == 2 {
            Some(VillainRank::VR_MINION)
        } else if value == 3 {
            Some(VillainRank::VR_LIEUTENANT)
        } else if value == 4 {
            Some(VillainRank::VR_SNIPER)
        } else if value == 5 {
            Some(VillainRank::VR_BOSS)
        } else if value == 6 {
            Some(VillainRank::VR_ELITE)
        } else if value == 7 {
            Some(VillainRank::VR_ARCHVILLAIN)
        } else if value == 8 {
            Some(VillainRank::VR_ARCHVILLAIN2)
        } else if value == 9 {
            Some(VillainRank::VR_BIGMONSTER)
        } else if value == 10 {
            Some(VillainRank::VR_PET)
        } else if value == 11 {
            Some(VillainRank::VR_DESTRUCTIBLE)
        } else {
            None
        }
    }
}

#[allow(non_camel_case_types)]
#[derive(Clone, Copy, Debug, PartialEq, Eq, Structural)]
pub enum Gender {
    GENDER_UNDEFINED,
    GENDER_NEUTER,
    GENDER_MALE,
    GENDER_FEMALE,
}

impl Default for Gender {
    fn default() -> (r: Self)
        ensures
            r == Gender::GENDER_UNDEFINED,
    {
        Gender::GENDER_UNDEFINED
    }
}

impl Gender {
    /// The value that a record has before anything is read into it.
    pub fn new() -> (r: Self)
        ensures
            r == Gender::GENDER_UNDEFINED,
    {
        Gender::GENDER_UNDEFINED
    }

    /// The number under which the value is stored.
    pub open spec fn number(self) -> u32 {
        match self {
            Gender::GENDER_UNDEFINED => 0u32,
            Gender::GENDER_NEUTER => 1u32,
            Gender::GENDER_MALE => 2u32,
            Gender::GENDER_FEMALE => 3u32,
        }
    }

    /// The value stored under a number, if the number is one of the
    /// enumeration.
    pub fn from_u32(value: u32) -> (r: Option<Self>)
        ensures
            r is Some ==> r->0.number() == value,
            r is None ==> forall|e: Self| e.number() != value,
    {
        if value == 0 {
            Some(Gender::GENDER_UNDEFINED)
        } else if value == 1 {
            Some(Gender::GENDER_NEUTER)
        } else if value == 2 {
            Some(Gender::GENDER_MALE)
        } else if value == 3 {
            Some(Gender::GENDER_FEMALE)
        } else {
            None
        }
    }
}

} // verus!
