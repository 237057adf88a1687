use vstd::prelude::*;
use vstd::string::StringExecFns;

verus! {

/// What a chest of the level holds.
#[derive(Clone, Copy, Debug, PartialEq, Eq, Structural)]
pub enum Items {
    StaminaPotion,
    HealthPotion,
    ManaPotion,
}

impl Items {
    /// The item that the level data calls `name`, if it calls one so.
    pub open spec fn named(name: Seq<char>) -> Option<Items> {
        if name == "Stamina_Potion"@ {
            Some(Items::StaminaPotion)
        } else if name == "Health_Potion"@ {
            Some(Items::HealthPotion)
        } else if name == "Mana_Potion"@ {
            Some(Items::ManaPotion)
        } else {
            None
        }
    }

    /// The item that the level data calls `name`; none for any other name.
    pub fn from_name(name: &str) -> (item: Option<Items>)
        ensures
            item == Items::named(name@),
    {
        let name: String = String::from_str(name);
        if name == String::from_str("Stamina_Potion") {
            Some(Items::StaminaPotion)
        } else if name == String::from_str("Health_Potion") {
            Some(Items::HealthPotion)
        } else if name == String::from_str("Mana_Potion") {
            Some(Items::ManaPotion)
        } else {
            None
        }
    }
}

} // verus!
