//! Registries of game assets: unit and leader models by cult and unit type,
//! and materials by name. Each registry is generic in the handle it stores, so
//! that it can hold asset paths as well as loaded handles.
use vstd::prelude::*;
use crate::keyed::StrMap;
use crate::text::str_eq;

verus! {

/// Crimson Covenant unit models.
#[derive(Clone, Debug)]
pub struct CrimsonUnits<H> {
    pub acolyte: H,
    pub warrior: H,
    pub berserker: H,
}

/// Deep Ones unit models.
#[derive(Clone, Debug)]
pub struct DeepUnits<H> {
    pub cultist: H,
    pub guardian: H,
    pub horror: H,
}

/// Void Seekers unit models.
#[derive(Clone, Debug)]
pub struct VoidUnits<H> {
    pub initiate: H,
    pub assassin: H,
    pub harbinger: H,
}

/// Unit models organized by cult.
#[derive(Clone, Debug)]
pub struct UnitScenes<H> {
    pub crimson: CrimsonUnits<H>,
    pub deep: DeepUnits<H>,
    pub void: VoidUnits<H>,
}

/// Leader models organized by cult.
#[derive(Clone, Debug)]
pub struct LeaderScenes<H> {
    pub blood_lord: H,
    pub deep_priest: H,
    pub void_scholar: H,
}

impl<H> CrimsonUnits<H> {
    /// The model of a unit type, if the cult has one.
    pub open spec fn model(&self, unit_type: Seq<char>) -> Option<&H> {
        if unit_type == "cultist"@ || unit_type == "acolyte"@ {
            Some(&self.acolyte)
        } else if unit_type == "warrior"@ {
            Some(&self.warrior)
        } else if unit_type == "berserker"@ {
            Some(&self.berserker)
        } else {
            None
        }
    }

    /// The model of a unit type: cultists and acolytes share one.
    pub fn get(&self, unit_type: &str) -> (r: Option<&H>)
        ensures
            r == self.model(unit_type@),
    {
        if str_eq(unit_type, "cultist") || str_eq(unit_type, "acolyte") {
            Some(&self.acolyte)
        } else if str_eq(unit_type, "warrior") {
            Some(&self.warrior)
        } else if str_eq(unit_type, "berserker") {
            Some(&self.berserker)
        } else {
            None
        }
    }
}

impl<H> DeepUnits<H> {
    /// The model of a unit type, if the cult has one.
    pub open spec fn model(&self, unit_type: Seq<char>) -> Option<&H> {
        if unit_type == "cultist"@ {
            Some(&self.cultist)
        } else if unit_type == "guardian"@ {
            Some(&self.guardian)
        } else if unit_type == "horror"@ {
            Some(&self.horror)
        } else {
            None
        }
    }

    /// The model of a unit type.
    pub fn get(&self, unit_type: &str) -> (r: Option<&H>)
        ensures
            r == self.model(unit_type@),
    {
        if str_eq(unit_type, "cultist") {
            Some(&self.cultist)
        } else if str_eq(unit_type, "guardian") {
            Some(&self.guardian)
        } else if str_eq(unit_type, "horror") {
            Some(&self.horror)
        } else {
            None
        }
    }
}

impl<H> VoidUnits<H> {
    /// The model of a unit type, if the cult has one.
    pub open spec fn model(&self, unit_type: Seq<char>) -> Option<&H> {
        if unit_type == "scout"@ || unit_type == "initiate"@ {
            Some(&self.initiate)
        } else if unit_type == "assassin"@ {
            Some(&self.assassin)
        } else if unit_type == "harbinger"@ {
            Some(&self.harbinger)
        } else {
            None
        }
    }

    /// The model of a unit type: scouts and initiates share one.
    pub fn get(&self, unit_type: &str) -> (r: Option<&H>)
        ensures
            r == self.model(unit_type@),
    {
        if str_eq(unit_type, "scout") || str_eq(unit_type, "initiate") {
            Some(&self.initiate)
        } else if str_eq(unit_type, "assassin") {
            Some(&self.assassin)
        } else if str_eq(unit_type, "harbinger") {
            Some(&self.harbinger)
        } else {
            None
        }
    }
}

impl<H> UnitScenes<H> {
    /// The model of a unit type of a cult; none for an unknown cult.
    pub fn get(&self, cult: &str, unit_type: &str) -> (r: Option<&H>)
        ensures
            r == (if cult@ == "crimson_covenant"@ {
                self.crimson.model(unit_type@)
            } else if cult@ == "deep_ones"@ {
                self.deep.model(unit_type@)
            } else if cult@ == "void_seekers"@ {
                self.void.model(unit_type@)
            } else {
                None
            }),
    {
        if str_eq(cult, "crimson_covenant") {
            self.crimson.get(unit_type)
        } else if str_eq(cult, "deep_ones") {
            self.deep.get(unit_type)
        } else if str_eq(cult, "void_seekers") {
            self.void.get(unit_type)
        } else {
            None
        }
    }
}

impl<H> LeaderScenes<H> {
    /// The leader model of a cult; none for an unknown cult.
    pub fn get(&self, cult: &str) -> (r: Option<&H>)
        ensures
            r == (if cult@ == "crimson_covenant"@ {
                Some(&self.blood_lord)
            } else if cult@ == "deep_ones"@ {
                Some(&self.deep_priest)
            } else if cult@ == "void_seekers"@ {
                Some(&self.void_scholar)
            } else {
                None
            }),
    {
        if str_eq(cult, "crimson_covenant") {
            Some(&self.blood_lord)
        } else if str_eq(cult, "deep_ones") {
            Some(&self.deep_priest)
        } else if str_eq(cult, "void_seekers") {
            Some(&self.void_scholar)
        } else {
            None
        }
    }
}

impl CrimsonUnits<&'static str> {
    /// The asset paths of the Crimson Covenant unit models.
    pub fn asset_paths() -> (u: Self)
        ensures
            u.acolyte@ == "assets/models/units/crimson/blood_acolyte.glb#Scene0"@,
            u.warrior@ == "assets/models/units/crimson/blood_knight.glb#Scene0"@,
            u.berserker@ == "assets/models/units/crimson/crimson_berserker.glb#Scene0"@,
    {
        CrimsonUnits {
            acolyte: "assets/models/units/crimson/blood_acolyte.glb#Scene0",
            warrior: "assets/models/units/crimson/blood_knight.glb#Scene0",
            berserker: "assets/models/units/crimson/crimson_berserker.glb#Scene0",
        }
    }
}

impl DeepUnits<&'static str> {
    /// The asset paths of the Deep Ones unit models.
    pub fn asset_paths() -> (u: Self)
        ensures
            u.cultist@ == "assets/models/units/deep/coastal_cultist.glb#Scene0"@,
            u.guardian@ == "assets/models/units/deep/tide_warrior.glb#Scene0"@,
            u.horror@ == "assets/models/units/deep/abyssal_horror.glb#Scene0"@,
    {
        DeepUnits {
            cultist: "assets/models/units/deep/coastal_cultist.glb#Scene0",
            guardian: "assets/models/units/deep/tide_warrior.glb#Scene0",
            horror: "assets/models/units/deep/abyssal_horror.glb#Scene0",
        }
    }
}

impl VoidUnits<&'static str> {
    /// The asset paths of the Void Seekers unit models.
    pub fn asset_paths() -> (u: Self)
        ensures
            u.initiate@ == "assets/models/units/void/void_initiate.glb#Scene0"@,
            u.assassin@ == "assets/models/units/void/shadow_blade.glb#Scene0"@,
            u.harbinger@ == "assets/models/units/void/void_harbinger.glb#Scene0"@,
    {
        VoidUnits {
            initiate: "assets/models/units/void/void_initiate.glb#Scene0",
            assassin: "assets/models/units/void/shadow_blade.glb#Scene0",
            harbinger: "assets/models/units/void/void_harbinger.glb#Scene0",
        }
    }
}

impl UnitScenes<&'static str> {
    /// The asset paths of all unit models.
    pub fn asset_paths() -> (u: Self)
        ensures
            u.crimson.acolyte@ == "assets/models/units/crimson/blood_acolyte.glb#Scene0"@,
            u.crimson.warrior@ == "assets/models/units/crimson/blood_knight.glb#Scene0"@,
            u.crimson.berserker@ == "assets/models/units/crimson/crimson_berserker.glb#Scene0"@,
            u.deep.cultist@ == "assets/models/units/deep/coastal_cultist.glb#Scene0"@,
            u.deep.guardian@ == "assets/models/units/deep/tide_warrior.glb#Scene0"@,
            u.deep.horror@ == "assets/models/units/deep/abyssal_horror.glb#Scene0"@,
            u.void.initiate@ == "assets/models/units/void/void_initiate.glb#Scene0"@,
            u.void.assassin@ == "assets/models/units/void/shadow_blade.glb#Scene0"@,
            u.void.harbinger@ == "assets/models/units/void/void_harbinger.glb#Scene0"@,
    {
        UnitScenes {
            crimson: CrimsonUnits::asset_paths(),
            deep: DeepUnits::asset_paths(),
            void: VoidUnits::asset_paths(),
        }
    }
}

impl LeaderScenes<&'static str> {
    /// The asset paths of the leader models.
    pub fn asset_paths() -> (u: Self)
        ensures
            u.blood_lord@ == "assets/models/leaders/crimson/blood_lord.glb#Scene0"@,
            u.deep_priest@ == "assets/models/leaders/deep/deep_priest.glb#Scene0"@,
            u.void_scholar@ == "assets/models/leaders/void/void_scholar.glb#Scene0"@,
    {
        LeaderScenes {
            blood_lord: "assets/models/leaders/crimson/blood_lord.glb#Scene0",
            deep_priest: "assets/models/leaders/deep/deep_priest.glb#Scene0",
            void_scholar: "assets/models/leaders/void/void_scholar.glb#Scene0",
        }
    }
}

/// Registry of material handles by name.
pub struct MaterialRegistry<H> {
    materials: StrMap<H>,
}

impl<H> View for MaterialRegistry<H> {
    type V = Map<Seq<char>, H>;

    closed spec fn view(&self) -> Map<Seq<char>, H> {
        self.materials@
    }
}

impl<H> Default for MaterialRegistry<H> {
    fn default() -> (r: Self)
        ensures
            r@ == Map::<Seq<char>, H>::empty(),
    {
        MaterialRegistry { materials: StrMap::new() }
    }
}

impl<H> MaterialRegistry<H> {
    /// Registers a material under `name`, replacing one registered before.
    pub fn register(&mut self, name: String, handle: H)
        ensures
            final(self)@ == old(self)@.insert(name@, handle),
    {
        self.materials.insert(name, handle);
    }

    /// The material registered under `name`, if any.
    pub fn get(&self, name: &str) -> (r: Option<&H>)
        ensures
            r is Some <==> self@.contains_key(name@),
            r matches Some(h) ==> *h == self@[name@],
    {
        self.materials.get(name)
    }

    /// Whether a material is registered under `name`.
    pub fn contains(&self, name: &str) -> (r: bool)
        ensures
            r == self@.contains_key(name@),
    {
        self.materials.contains_key(name)
    }
}

/// A material registered under a name is found under that name, and
/// registering it leaves every other name as it was.
pub proof fn law_registered_material_is_found<H>(before: Map<Seq<char>, H>, name: Seq<char>, handle: H, other: Seq<char>)
    requires
        other != name,
    ensures
        before.insert(name, handle).contains_key(name),
        before.insert(name, handle)[name] == handle,
        before.insert(name, handle).contains_key(other) == before.contains_key(other),
        before.contains_key(other) ==> before.insert(name, handle)[other] == before[other],
{
}

} // verus!
