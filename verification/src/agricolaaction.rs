//! The action spaces of the farming game's board, and the action
//! identifiers a player can choose. Actions travel through the search
//! engine as small integers; `from_u32` recovers the enum.

use vstd::prelude::*;

verus! {

/// One action space printed on the board.
#[allow(non_camel_case_types)]
#[derive(Debug, Clone, Copy, PartialEq, Eq, Structural)]
pub enum AgricolaTile {
    BuildRoom_BuildStables,
    StartingPlayer_Food,
    Grain,
    Plow,
    BuildStable_BakeBread,
    DayLaborer,
    Sow_BakeBread,
    Wood,
    Clay,
    Reed,
    Fishing,
    Fences,
    MajorImprovement,
    Sheep,
    FamilyGrowth,
    Stone_1,
    /// Kept for the wire format's sake, like `MajorImprovement`: never
    /// offered, the specific renovation purchases stand in its place.
    Renovation_MajorImprovement,
    Vegetable,
    Boar,
    Cattle,
    Stone_2,
    Plow_Sow,
    FamilyGrowth_NoSpace,
    Renovation_Fences,
}

/// One concrete choice a player can make on a visit to an action space.
#[allow(non_camel_case_types)]
#[derive(Debug, Clone, Copy, PartialEq, Eq, Structural)]
pub enum AgricolaAction {
    BuildRoom_BuildStables,
    StartingPlayer_Food,
    Grain,
    Plow,
    BuildStable_BakeBread,
    DayLaborer_Food_Wood,
    DayLaborer_Food_Clay,
    DayLaborer_Food_Reed,
    DayLaborer_Food_Stone,
    Sow_BakeBread,
    Wood,
    Clay,
    Reed,
    Fishing,
    BuildRoom,
    BuildStables,
    Sow,
    BakeBread_NotSow,
    BuildStable,
    BakeBread_NoStable,
    Fences,
    /// Kept for the wire format's sake: the board offers the specific
    /// purchase choices (the `MajorImprovement_*` actions) instead, so
    /// this generic code is never legal.
    MajorImprovement,
    Sheep,
    FamilyGrowth,
    Stone_1,
    /// Kept for the wire format's sake, like `MajorImprovement`: never
    /// offered, the specific renovation purchases stand in its place.
    Renovation_MajorImprovement,
    Vegetable,
    Boar,
    Cattle,
    Stone_2,
    Plow_Sow,
    FamilyGrowth_NoSpace,
    Renovation_Fences,
    Plow_NoSow,
    Sow_NoPlow,
    MajorImprovement_Fireplace_2,
    MajorImprovement_Fireplace_3,
    MajorImprovement_CookingHearth_4,
    MajorImprovement_CookingHearth_5,
    MajorImprovement_ClayOven,
    MajorImprovement_StoneOven,
    MajorImprovement_Pottery,
    MajorImprovement_Joinery,
    MajorImprovement_BasketmakersWorkshop,
    MajorImprovement_Well,
    Renovation_MajorImprovement_Fireplace_2,
    Renovation_MajorImprovement_Fireplace_3,
    Renovation_MajorImprovement_CookingHearth_4,
    Renovation_MajorImprovement_CookingHearth_5,
    Renovation_MajorImprovement_ClayOven,
    Renovation_MajorImprovement_StoneOven,
    Renovation_MajorImprovement_Pottery,
    Renovation_MajorImprovement_Joinery,
    Renovation_MajorImprovement_BasketmakersWorkshop,
    Renovation_MajorImprovement_Well,
}

/// The wire code of each action: a small integer, unique per action.
pub open spec fn code_of(a: AgricolaAction) -> u32 {
    match a {
        AgricolaAction::BuildRoom_BuildStables => 1,
        AgricolaAction::StartingPlayer_Food => 2,
        AgricolaAction::Grain => 3,
        AgricolaAction::Plow => 4,
        AgricolaAction::BuildStable_BakeBread => 5,
        AgricolaAction::DayLaborer_Food_Wood => 6,
        AgricolaAction::DayLaborer_Food_Clay => 7,
        AgricolaAction::DayLaborer_Food_Reed => 8,
        AgricolaAction::DayLaborer_Food_Stone => 9,
        AgricolaAction::Sow_BakeBread => 10,
        AgricolaAction::Wood => 11,
        AgricolaAction::Clay => 12,
        AgricolaAction::Reed => 13,
        AgricolaAction::Fishing => 14,
        AgricolaAction::BuildRoom => 15,
        AgricolaAction::BuildStables => 16,
        AgricolaAction::Sow => 17,
        AgricolaAction::BakeBread_NotSow => 18,
        AgricolaAction::BuildStable => 19,
        AgricolaAction::BakeBread_NoStable => 20,
        AgricolaAction::Fences => 21,
        AgricolaAction::MajorImprovement => 22,
        AgricolaAction::Sheep => 23,
        AgricolaAction::FamilyGrowth => 24,
        AgricolaAction::Stone_1 => 25,
        AgricolaAction::Renovation_MajorImprovement => 26,
        AgricolaAction::Vegetable => 27,
        AgricolaAction::Boar => 28,
        AgricolaAction::Cattle => 29,
        AgricolaAction::Stone_2 => 30,
        AgricolaAction::Plow_Sow => 31,
        AgricolaAction::FamilyGrowth_NoSpace => 32,
        AgricolaAction::Renovation_Fences => 33,
        AgricolaAction::Plow_NoSow => 34,
        AgricolaAction::Sow_NoPlow => 35,
        AgricolaAction::MajorImprovement_Fireplace_2 => 36,
        AgricolaAction::MajorImprovement_Fireplace_3 => 37,
        AgricolaAction::MajorImprovement_CookingHearth_4 => 38,
        AgricolaAction::MajorImprovement_CookingHearth_5 => 39,
        AgricolaAction::MajorImprovement_ClayOven => 40,
        AgricolaAction::MajorImprovement_StoneOven => 41,
        AgricolaAction::MajorImprovement_Pottery => 42,
        AgricolaAction::MajorImprovement_Joinery => 43,
        AgricolaAction::MajorImprovement_BasketmakersWorkshop => 44,
        AgricolaAction::MajorImprovement_Well => 45,
        AgricolaAction::Renovation_MajorImprovement_Fireplace_2 => 46,
        AgricolaAction::Renovation_MajorImprovement_Fireplace_3 => 47,
        AgricolaAction::Renovation_MajorImprovement_CookingHearth_4 => 48,
        AgricolaAction::Renovation_MajorImprovement_CookingHearth_5 => 49,
        AgricolaAction::Renovation_MajorImprovement_ClayOven => 50,
        AgricolaAction::Renovation_MajorImprovement_StoneOven => 51,
        AgricolaAction::Renovation_MajorImprovement_Pottery => 52,
        AgricolaAction::Renovation_MajorImprovement_Joinery => 53,
        AgricolaAction::Renovation_MajorImprovement_BasketmakersWorkshop => 54,
        AgricolaAction::Renovation_MajorImprovement_Well => 55,
    }
}

impl AgricolaAction {
    /// The action named by a wire code, if the code names one.
    pub fn from_u32(x: u32) -> (r: Option<AgricolaAction>)
        ensures
            (match r {
                Some(a) => code_of(a) == x,
                None => 1 > x || x > 55,
            }),
    {
        match x {
            1 => Some(AgricolaAction::BuildRoom_BuildStables),
            2 => Some(AgricolaAction::StartingPlayer_Food),
            3 => Some(AgricolaAction::Grain),
            4 => Some(AgricolaAction::Plow),
            5 => Some(AgricolaAction::BuildStable_BakeBread),
            6 => Some(AgricolaAction::DayLaborer_Food_Wood),
            7 => Some(AgricolaAction::DayLaborer_Food_Clay),
            8 => Some(AgricolaAction::DayLaborer_Food_Reed),
            9 => Some(AgricolaAction::DayLaborer_Food_Stone),
            10 => Some(AgricolaAction::Sow_BakeBread),
            11 => Some(AgricolaAction::Wood),
            12 => Some(AgricolaAction::Clay),
            13 => Some(AgricolaAction::Reed),
            14 => Some(AgricolaAction::Fishing),
            15 => Some(AgricolaAction::BuildRoom),
            16 => Some(AgricolaAction::BuildStables),
            17 => Some(AgricolaAction::Sow),
            18 => Some(AgricolaAction::BakeBread_NotSow),
            19 => Some(AgricolaAction::BuildStable),
            20 => Some(AgricolaAction::BakeBread_NoStable),
            21 => Some(AgricolaAction::Fences),
            22 => Some(AgricolaAction::MajorImprovement),
            23 => Some(AgricolaAction::Sheep),
            24 => Some(AgricolaAction::FamilyGrowth),
            25 => Some(AgricolaAction::Stone_1),
            26 => Some(AgricolaAction::Renovation_MajorImprovement),
            27 => Some(AgricolaAction::Vegetable),
            28 => Some(AgricolaAction::Boar),
            29 => Some(AgricolaAction::Cattle),
            30 => Some(AgricolaAction::Stone_2),
            31 => Some(AgricolaAction::Plow_Sow),
            32 => Some(AgricolaAction::FamilyGrowth_NoSpace),
            33 => Some(AgricolaAction::Renovation_Fences),
            34 => Some(AgricolaAction::Plow_NoSow),
            35 => Some(AgricolaAction::Sow_NoPlow),
            36 => Some(AgricolaAction::MajorImprovement_Fireplace_2),
            37 => Some(AgricolaAction::MajorImprovement_Fireplace_3),
            38 => Some(AgricolaAction::MajorImprovement_CookingHearth_4),
            39 => Some(AgricolaAction::MajorImprovement_CookingHearth_5),
            40 => Some(AgricolaAction::MajorImprovement_ClayOven),
            41 => Some(AgricolaAction::MajorImprovement_StoneOven),
            42 => Some(AgricolaAction::MajorImprovement_Pottery),
            43 => Some(AgricolaAction::MajorImprovement_Joinery),
            44 => Some(AgricolaAction::MajorImprovement_BasketmakersWorkshop),
            45 => Some(AgricolaAction::MajorImprovement_Well),
            46 => Some(AgricolaAction::Renovation_MajorImprovement_Fireplace_2),
            47 => Some(AgricolaAction::Renovation_MajorImprovement_Fireplace_3),
            48 => Some(AgricolaAction::Renovation_MajorImprovement_CookingHearth_4),
            49 => Some(AgricolaAction::Renovation_MajorImprovement_CookingHearth_5),
            50 => Some(AgricolaAction::Renovation_MajorImprovement_ClayOven),
            51 => Some(AgricolaAction::Renovation_MajorImprovement_StoneOven),
            52 => Some(AgricolaAction::Renovation_MajorImprovement_Pottery),
            53 => Some(AgricolaAction::Renovation_MajorImprovement_Joinery),
            54 => Some(AgricolaAction::Renovation_MajorImprovement_BasketmakersWorkshop),
            55 => Some(AgricolaAction::Renovation_MajorImprovement_Well),
            _ => None,
        }
    }

    /// The wire code of this action.
    pub fn to_u32(&self) -> (r: u32)
        ensures
            r == code_of(*self),
    {
        match *self {
            AgricolaAction::BuildRoom_BuildStables => 1,
            AgricolaAction::StartingPlayer_Food => 2,
            AgricolaAction::Grain => 3,
            AgricolaAction::Plow => 4,
            AgricolaAction::BuildStable_BakeBread => 5,
            AgricolaAction::DayLaborer_Food_Wood => 6,
            AgricolaAction::DayLaborer_Food_Clay => 7,
            AgricolaAction::DayLaborer_Food_Reed => 8,
            AgricolaAction::DayLaborer_Food_Stone => 9,
            AgricolaAction::Sow_BakeBread => 10,
            AgricolaAction::Wood => 11,
            AgricolaAction::Clay => 12,
            AgricolaAction::Reed => 13,
            AgricolaAction::Fishing => 14,
            AgricolaAction::BuildRoom => 15,
            AgricolaAction::BuildStables => 16,
            AgricolaAction::Sow => 17,
            AgricolaAction::BakeBread_NotSow => 18,
            AgricolaAction::BuildStable => 19,
            AgricolaAction::BakeBread_NoStable => 20,
            AgricolaAction::Fences => 21,
            AgricolaAction::MajorImprovement => 22,
            AgricolaAction::Sheep => 23,
            AgricolaAction::FamilyGrowth => 24,
            AgricolaAction::Stone_1 => 25,
            AgricolaAction::Renovation_MajorImprovement => 26,
            AgricolaAction::Vegetable => 27,
            AgricolaAction::Boar => 28,
            AgricolaAction::Cattle => 29,
            AgricolaAction::Stone_2 => 30,
            AgricolaAction::Plow_Sow => 31,
            AgricolaAction::FamilyGrowth_NoSpace => 32,
            AgricolaAction::Renovation_Fences => 33,
            AgricolaAction::Plow_NoSow => 34,
            AgricolaAction::Sow_NoPlow => 35,
            AgricolaAction::MajorImprovement_Fireplace_2 => 36,
            AgricolaAction::MajorImprovement_Fireplace_3 => 37,
            AgricolaAction::MajorImprovement_CookingHearth_4 => 38,
            AgricolaAction::MajorImprovement_CookingHearth_5 => 39,
            AgricolaAction::MajorImprovement_ClayOven => 40,
            AgricolaAction::MajorImprovement_StoneOven => 41,
            AgricolaAction::MajorImprovement_Pottery => 42,
            AgricolaAction::MajorImprovement_Joinery => 43,
            AgricolaAction::MajorImprovement_BasketmakersWorkshop => 44,
            AgricolaAction::MajorImprovement_Well => 45,
            AgricolaAction::Renovation_MajorImprovement_Fireplace_2 => 46,
            AgricolaAction::Renovation_MajorImprovement_Fireplace_3 => 47,
            AgricolaAction::Renovation_MajorImprovement_CookingHearth_4 => 48,
            AgricolaAction::Renovation_MajorImprovement_CookingHearth_5 => 49,
            AgricolaAction::Renovation_MajorImprovement_ClayOven => 50,
            AgricolaAction::Renovation_MajorImprovement_StoneOven => 51,
            AgricolaAction::Renovation_MajorImprovement_Pottery => 52,
            AgricolaAction::Renovation_MajorImprovement_Joinery => 53,
            AgricolaAction::Renovation_MajorImprovement_BasketmakersWorkshop => 54,
            AgricolaAction::Renovation_MajorImprovement_Well => 55,
        }
    }

    /// A short human label for this action.
    pub fn name(&self) -> &'static str {
        match *self {
            AgricolaAction::BuildRoom_BuildStables => "BuildRoom_BuildStables",
            AgricolaAction::StartingPlayer_Food => "StartingPlayer_Food",
            AgricolaAction::Grain => "Grain",
            AgricolaAction::Plow => "Plow",
            AgricolaAction::BuildStable_BakeBread => "BuildStable_BakeBread",
            AgricolaAction::DayLaborer_Food_Wood => "DayLaborer_Food_Wood",
            AgricolaAction::DayLaborer_Food_Clay => "DayLaborer_Food_Clay",
            AgricolaAction::DayLaborer_Food_Reed => "DayLaborer_Food_Reed",
            AgricolaAction::DayLaborer_Food_Stone => "DayLaborer_Food_Stone",
            AgricolaAction::Sow_BakeBread => "Sow_BakeBread",
            AgricolaAction::Wood => "Wood",
            AgricolaAction::Clay => "Clay",
            AgricolaAction::Reed => "Reed",
            AgricolaAction::Fishing => "Fishing",
            AgricolaAction::BuildRoom => "BuildRoom",
            AgricolaAction::BuildStables => "BuildStables",
            AgricolaAction::Sow => "Sow",
            AgricolaAction::BakeBread_NotSow => "BakeBread_NotSow",
            AgricolaAction::BuildStable => "BuildStable",
            AgricolaAction::BakeBread_NoStable => "BakeBread_NoStable",
            AgricolaAction::Fences => "Fences",
            AgricolaAction::MajorImprovement => "MajorImprovement",
            AgricolaAction::Sheep => "Sheep",
            AgricolaAction::FamilyGrowth => "FamilyGrowth",
            AgricolaAction::Stone_1 => "Stone_1",
            AgricolaAction::Renovation_MajorImprovement => "Renovation_MajorImprovement",
            AgricolaAction::Vegetable => "Vegetable",
            AgricolaAction::Boar => "Boar",
            AgricolaAction::Cattle => "Cattle",
            AgricolaAction::Stone_2 => "Stone_2",
            AgricolaAction::Plow_Sow => "Plow_Sow",
            AgricolaAction::FamilyGrowth_NoSpace => "FamilyGrowth_NoSpace",
            AgricolaAction::Renovation_Fences => "Renovation_Fences",
            AgricolaAction::Plow_NoSow => "Plow_NoSow",
            AgricolaAction::Sow_NoPlow => "Sow_NoPlow",
            AgricolaAction::MajorImprovement_Fireplace_2 => "MajorImprovement_Fireplace_2",
            AgricolaAction::MajorImprovement_Fireplace_3 => "MajorImprovement_Fireplace_3",
            AgricolaAction::MajorImprovement_CookingHearth_4 => "MajorImprovement_CookingHearth_4",
            AgricolaAction::MajorImprovement_CookingHearth_5 => "MajorImprovement_CookingHearth_5",
            AgricolaAction::MajorImprovement_ClayOven => "MajorImprovement_ClayOven",
            AgricolaAction::MajorImprovement_StoneOven => "MajorImprovement_StoneOven",
            AgricolaAction::MajorImprovement_Pottery => "MajorImprovement_Pottery",
            AgricolaAction::MajorImprovement_Joinery => "MajorImprovement_Joinery",
            AgricolaAction::MajorImprovement_BasketmakersWorkshop => "MajorImprovement_BasketmakersWorkshop",
            AgricolaAction::MajorImprovement_Well => "MajorImprovement_Well",
            AgricolaAction::Renovation_MajorImprovement_Fireplace_2 => "Renovation_MajorImprovement_Fireplace_2",
            AgricolaAction::Renovation_MajorImprovement_Fireplace_3 => "Renovation_MajorImprovement_Fireplace_3",
            AgricolaAction::Renovation_MajorImprovement_CookingHearth_4 => "Renovation_MajorImprovement_CookingHearth_4",
            AgricolaAction::Renovation_MajorImprovement_CookingHearth_5 => "Renovation_MajorImprovement_CookingHearth_5",
            AgricolaAction::Renovation_MajorImprovement_ClayOven => "Renovation_MajorImprovement_ClayOven",
            AgricolaAction::Renovation_MajorImprovement_StoneOven => "Renovation_MajorImprovement_StoneOven",
            AgricolaAction::Renovation_MajorImprovement_Pottery => "Renovation_MajorImprovement_Pottery",
            AgricolaAction::Renovation_MajorImprovement_Joinery => "Renovation_MajorImprovement_Joinery",
            AgricolaAction::Renovation_MajorImprovement_BasketmakersWorkshop => "Renovation_MajorImprovement_BasketmakersWorkshop",
            AgricolaAction::Renovation_MajorImprovement_Well => "Renovation_MajorImprovement_Well",
        }
    }
}

} // verus!
