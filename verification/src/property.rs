use vstd::prelude::*;

use crate::str_map::same_text;

verus! {

/// What a parcel of land may be used for.
#[derive(Debug, Clone, Copy, PartialEq, Eq, Hash, Structural)]
pub enum Zone {
    Residential,
    Commercial,
    Industrial,
    Public,
}

impl Zone {
    pub open spec fn spec_name(self) -> Seq<char> {
        match self {
            Zone::Residential => "residential"@,
            Zone::Commercial => "commercial"@,
            Zone::Industrial => "industrial"@,
            Zone::Public => "public"@,
        }
    }

    pub fn name(&self) -> (r: &str)
        ensures
            r@ == self.spec_name(),
    {
        match self {
            Zone::Residential => "residential",
            Zone::Commercial => "commercial",
            Zone::Industrial => "industrial",
            Zone::Public => "public",
        }
    }
}

#[derive(Debug, Clone, Copy, PartialEq, Eq, Hash, Structural)]
pub enum BuildingType {
    House,
    Apartment,
    Factory,
    Farm,
    Shop,
    Office,
    Warehouse,
    WaterPlant,
}

impl BuildingType {
    pub open spec fn spec_name(self) -> Seq<char> {
        match self {
            BuildingType::House => "house"@,
            BuildingType::Apartment => "apartment"@,
            BuildingType::Factory => "factory"@,
            BuildingType::Farm => "farm"@,
            BuildingType::Shop => "shop"@,
            BuildingType::Office => "office"@,
            BuildingType::Warehouse => "warehouse"@,
            BuildingType::WaterPlant => "water_plant"@,
        }
    }

    pub open spec fn spec_from_name(s: Seq<char>) -> Option<BuildingType> {
        if s == "house"@ {
            Some(BuildingType::House)
        } else if s == "apartment"@ {
            Some(BuildingType::Apartment)
        } else if s == "factory"@ {
            Some(BuildingType::Factory)
        } else if s == "farm"@ {
            Some(BuildingType::Farm)
        } else if s == "shop"@ {
            Some(BuildingType::Shop)
        } else if s == "office"@ {
            Some(BuildingType::Office)
        } else if s == "warehouse"@ {
            Some(BuildingType::Warehouse)
        } else if s == "water_plant"@ {
            Some(BuildingType::WaterPlant)
        } else {
            None
        }
    }

    /// The zone, other than a public one, in which this kind of building stands.
    pub open spec fn spec_zone(self) -> Zone {
        match self {
            BuildingType::House | BuildingType::Apartment => Zone::Residential,
            BuildingType::Shop | BuildingType::Office => Zone::Commercial,
            BuildingType::Factory | BuildingType::Farm | BuildingType::Warehouse | BuildingType::WaterPlant => Zone::Industrial,
        }
    }

    /// How many occupants or production slots a building of this kind offers.
    pub open spec fn spec_capacity(self) -> u32 {
        match self {
            BuildingType::House => 2,
            BuildingType::Apartment => 4,
            BuildingType::Shop => 3,
            BuildingType::Office => 4,
            BuildingType::Factory => 5,
            BuildingType::Warehouse => 6,
            BuildingType::Farm => 4,
            BuildingType::WaterPlant => 3,
        }
    }

    pub fn name(&self) -> (r: &str)
        ensures
            r@ == self.spec_name(),
    {
        match self {
            BuildingType::House => "house",
            BuildingType::Apartment => "apartment",
            BuildingType::Factory => "factory",
            BuildingType::Farm => "farm",
            BuildingType::Shop => "shop",
            BuildingType::Office => "office",
            BuildingType::Warehouse => "warehouse",
            BuildingType::WaterPlant => "water_plant",
        }
    }

    pub fn from_name(s: &str) -> (r: Option<Self>)
        ensures
            r == Self::spec_from_name(s@),
    {
        if same_text(s, "house") {
            Some(BuildingType::House)
        } else if same_text(s, "apartment") {
            Some(BuildingType::Apartment)
        } else if same_text(s, "factory") {
            Some(BuildingType::Factory)
        } else if same_text(s, "farm") {
            Some(BuildingType::Farm)
        } else if same_text(s, "shop") {
            Some(BuildingType::Shop)
        } else if same_text(s, "office") {
            Some(BuildingType::Office)
        } else if same_text(s, "warehouse") {
            Some(BuildingType::Warehouse)
        } else if same_text(s, "water_plant") {
            Some(BuildingType::WaterPlant)
        } else {
            None
        }
    }
}

/// Every building type is found again from its name.
pub proof fn lemma_building_name_round_trip(b: BuildingType)
    ensures
        BuildingType::spec_from_name(b.spec_name()) == Some(b),
{
    reveal_strlit("house");
    reveal_strlit("apartment");
    reveal_strlit("factory");
    reveal_strlit("farm");
    reveal_strlit("shop");
    reveal_strlit("office");
    reveal_strlit("warehouse");
    reveal_strlit("water_plant");
    assert("apartment"@[0] != "house"@[0]);
    assert("factory"@[0] != "house"@[0] && "factory"@[0] != "apartment"@[0]);
    assert("farm"@[0] != "house"@[0] && "farm"@[0] != "apartment"@[0] && "farm"@[2] != "factory"@[2]);
    assert("shop"@[0] != "house"@[0] && "shop"@[0] != "apartment"@[0] && "shop"@[0] != "factory"@[0]
        && "shop"@[0] != "farm"@[0]);
    assert("office"@[0] != "house"@[0] && "office"@[0] != "apartment"@[0] && "office"@[0] != "factory"@[0]
        && "office"@[0] != "farm"@[0] && "office"@[0] != "shop"@[0]);
    assert("warehouse"@[0] != "house"@[0] && "warehouse"@[0] != "apartment"@[0] && "warehouse"@[0]
        != "factory"@[0] && "warehouse"@[0] != "farm"@[0] && "warehouse"@[0] != "shop"@[0]
        && "warehouse"@[0] != "office"@[0]);
    assert("water_plant"@[0] != "house"@[0] && "water_plant"@[0] != "apartment"@[0] && "water_plant"@[0]
        != "factory"@[0] && "water_plant"@[0] != "farm"@[0] && "water_plant"@[0] != "shop"@[0]
        && "water_plant"@[0] != "office"@[0] && "water_plant"@[2] != "warehouse"@[2]);
}

#[derive(Debug, Clone, Copy, PartialEq, Eq, Structural)]
pub enum ConstructionState {
    Planned,
    Funded,
    UnderConstruction,
    Completed,
    Cancelled,
}

/// Who owns a parcel, a property or a building.
#[derive(Debug, Clone, PartialEq, Eq)]
pub enum PropertyOwnership {
    Agent(String),
    Company(String),
    Unowned,
}

impl PropertyOwnership {
    pub open spec fn spec_owner_id(self) -> Option<Seq<char>> {
        match self {
            PropertyOwnership::Agent(id) => Some(id@),
            PropertyOwnership::Company(id) => Some(id@),
            PropertyOwnership::Unowned => None,
        }
    }

    /// The owning agent's or company's id, if there is an owner.
    pub fn owner_id(&self) -> (r: Option<&str>)
        ensures
            match r {
                Some(id) => self.spec_owner_id() == Some(id@),
                None => self.spec_owner_id() is None,
            },
    {
        match self {
            PropertyOwnership::Agent(id) => Some(id.as_str()),
            PropertyOwnership::Company(id) => Some(id.as_str()),
            PropertyOwnership::Unowned => None,
        }
    }
}

/// A public parcel takes any building; any other takes the buildings of its own zone.
pub fn zone_compatible_building(zone: &Zone, building_type: &BuildingType) -> (r: bool)
    ensures
        r == (*zone == Zone::Public || *zone == building_type.spec_zone()),
{
    match zone {
        Zone::Residential => match building_type {
            BuildingType::House | BuildingType::Apartment => true,
            _ => false,
        },
        Zone::Commercial => match building_type {
            BuildingType::Shop | BuildingType::Office => true,
            _ => false,
        },
        Zone::Industrial => match building_type {
            BuildingType::Factory | BuildingType::Warehouse | BuildingType::Farm | BuildingType::WaterPlant => true,
            _ => false,
        },
        Zone::Public => true,
    }
}

/// Which buildings each zone takes: houses and apartments stand in residential zones,
/// shops and offices in commercial ones, factories, warehouses, farms and water plants in
/// industrial ones, and a public zone takes any building.
pub proof fn lemma_zone_buildings(zone: Zone, building_type: BuildingType)
    ensures
        (zone == Zone::Public || zone == building_type.spec_zone()) <==> match zone {
            Zone::Residential => building_type == BuildingType::House || building_type == BuildingType::Apartment,
            Zone::Commercial => building_type == BuildingType::Shop || building_type == BuildingType::Office,
            Zone::Industrial => building_type == BuildingType::Factory || building_type == BuildingType::Warehouse
                || building_type == BuildingType::Farm || building_type == BuildingType::WaterPlant,
            Zone::Public => true,
        },
{
}

pub fn default_building_capacity(building_type: &BuildingType) -> (r: u32)
    ensures
        r == building_type.spec_capacity(),
{
    match building_type {
        BuildingType::House => 2,
        BuildingType::Apartment => 4,
        BuildingType::Factory => 5,
        BuildingType::Farm => 4,
        BuildingType::Shop => 3,
        BuildingType::Office => 4,
        BuildingType::Warehouse => 6,
        BuildingType::WaterPlant => 3,
    }
}

} // verus!
