//! A small game-character system: classes fix the starting stats, and each
//! action changes the stats and yields a report line. Both the state change
//! and the exact report text are specified.

use vstd::prelude::*;
use vstd::string::StringExecFns;
use crate::text::dec_str;
use crate::text::dec_str_i32;
use crate::text::i32_to_string;
use crate::text::u32_to_string;

verus! {

pub type Health = u32;

pub type Mana = u32;

#[derive(Clone, Copy, PartialEq, Eq, Structural, Debug)]
pub enum CharacterClass {
    Warrior,
    Mage,
    Rogue,
}

/// An action with its data; the text fields feed the report line.
pub enum Action {
    Attack { damage: Health, target: String },
    CastSpell { spell_name: String, mana_cost: Mana },
    Dodge,
    Heal { amount: Health },
}

pub struct Character {
    pub name: String,
    pub health: Health,
    pub mana: Mana,
    pub class: CharacterClass,
    pub level: u32,
}

#[derive(Clone, Copy, PartialEq, Eq, Structural, Debug)]
pub struct Position(pub i32, pub i32);

pub struct DefaultCharacterConfig;

pub open spec fn class_health(class: CharacterClass) -> u32 {
    match class {
        CharacterClass::Warrior => 100,
        CharacterClass::Mage => 60,
        CharacterClass::Rogue => 80,
    }
}

pub open spec fn class_mana(class: CharacterClass) -> u32 {
    match class {
        CharacterClass::Warrior => 20,
        CharacterClass::Mage => 80,
        CharacterClass::Rogue => 40,
    }
}

/// The stats after one action: attacking costs up to 10 health as stamina,
/// casting costs its mana, healing caps health at 100, dodging is free.
pub open spec fn action_step(c: Character, a: Action) -> Character {
    match a {
        Action::Attack { damage, target } => if c.health > 0 {
            Character {
                health: if c.health >= 10 {
                    (c.health - 10) as u32
                } else {
                    0
                },
                ..c
            }
        } else {
            c
        },
        Action::CastSpell { spell_name, mana_cost } => if c.mana >= mana_cost {
            Character { mana: (c.mana - mana_cost) as u32, ..c }
        } else {
            c
        },
        Action::Dodge => c,
        Action::Heal { amount } => Character {
            health: if c.health + amount >= 100 {
                100
            } else {
                (c.health + amount) as u32
            },
            ..c
        },
    }
}

/// The report line owed for one action on stats `c`.
pub open spec fn action_message(c: Character, a: Action) -> Seq<char> {
    match a {
        Action::Attack { damage, target } => if c.health > 0 {
            c.name@ + " attacks "@ + target@ + " for "@ + dec_str(damage as int) + " damage!"@
        } else {
            c.name@ + " is too weak to attack!"@
        },
        Action::CastSpell { spell_name, mana_cost } => if c.mana >= mana_cost {
            c.name@ + " casts "@ + spell_name@ + "!"@
        } else {
            c.name@ + " lacks mana to cast "@ + spell_name@ + "!"@
        },
        Action::Dodge => c.name@ + " dodges an attack!"@,
        Action::Heal { amount } => c.name@ + " heals for "@ + dec_str(amount as int) + " health!"@,
    }
}

impl Character {
    /// Health never grows past the healing cap.
    pub open spec fn wf(self) -> bool {
        self.health <= 100
    }

    pub fn new(name: String, class: CharacterClass, level: u32) -> (r: Self)
        ensures
            r.name == name,
            r.class == class,
            r.level == level,
            r.health == class_health(class),
            r.mana == class_mana(class),
            r.wf(),
    {
        let (health, mana): (u32, u32) = match class {
            CharacterClass::Warrior => (100, 20),
            CharacterClass::Mage => (60, 80),
            CharacterClass::Rogue => (80, 40),
        };
        Character { name, health, mana, class, level }
    }

    /// Applies one action and returns the report line.
    pub fn perform_action(&mut self, action: Action) -> (r: String)
        requires
            action matches Action::Heal { amount } ==> old(self).health + amount <= u32::MAX,
        ensures
            *final(self) == action_step(*old(self), action),
            r@ == action_message(*old(self), action),
            old(self).wf() ==> final(self).wf(),
    {
        match action {
            Action::Attack { damage, target } => {
                if self.health > 0 {
                    self.health = if self.health >= 10 {
                        self.health - 10
                    } else {
                        0
                    };
                    let mut m = self.name.clone();
                    m.append(" attacks ");
                    m.append(target.as_str());
                    m.append(" for ");
                    m.append(u32_to_string(damage).as_str());
                    m.append(" damage!");
                    m
                } else {
                    let mut m = self.name.clone();
                    m.append(" is too weak to attack!");
                    m
                }
            },
            Action::CastSpell { spell_name, mana_cost } => {
                if self.mana >= mana_cost {
                    self.mana = self.mana - mana_cost;
                    let mut m = self.name.clone();
                    m.append(" casts ");
                    m.append(spell_name.as_str());
                    m.append("!");
                    m
                } else {
                    let mut m = self.name.clone();
                    m.append(" lacks mana to cast ");
                    m.append(spell_name.as_str());
                    m.append("!");
                    m
                }
            },
            Action::Dodge => {
                let mut m = self.name.clone();
                m.append(" dodges an attack!");
                m
            },
            Action::Heal { amount } => {
                self.health = if self.health + amount >= 100 {
                    100
                } else {
                    self.health + amount
                };
                let mut m = self.name.clone();
                m.append(" heals for ");
                m.append(u32_to_string(amount).as_str());
                m.append(" health!");
                m
            },
        }
    }

    /// Reports the destination; the character itself keeps no position.
    pub fn move_to(&mut self, pos: Position) -> (r: String)
        ensures
            *final(self) == *old(self),
            r@ == old(self).name@ + " moves to position ("@ + dec_str_i32(pos.0 as int) + ", "@
                + dec_str_i32(pos.1 as int) + ")"@,
    {
        let mut m = self.name.clone();
        m.append(" moves to position (");
        m.append(i32_to_string(pos.0).as_str());
        m.append(", ");
        m.append(i32_to_string(pos.1).as_str());
        m.append(")");
        m
    }
}

/// What `describe` owes for each action.
pub open spec fn describe_message(a: Action) -> Seq<char> {
    match a {
        Action::Attack { damage, target } => "Attack dealing "@ + dec_str(damage as int)
            + " damage to "@ + target@,
        Action::CastSpell { spell_name, mana_cost } => "Cast "@ + spell_name@ + " costing "@
            + dec_str(mana_cost as int) + " mana"@,
        Action::Dodge => "Dodge an incoming attack"@,
        Action::Heal { amount } => "Heal for "@ + dec_str(amount as int) + " health"@,
    }
}

impl Action {
    pub fn describe(&self) -> (r: String)
        ensures
            r@ == describe_message(*self),
    {
        match self {
            Action::Attack { damage, target } => {
                let mut m = String::from_str("Attack dealing ");
                m.append(u32_to_string(*damage).as_str());
                m.append(" damage to ");
                m.append(target.as_str());
                m
            },
            Action::CastSpell { spell_name, mana_cost } => {
                let mut m = String::from_str("Cast ");
                m.append(spell_name.as_str());
                m.append(" costing ");
                m.append(u32_to_string(*mana_cost).as_str());
                m.append(" mana");
                m
            },
            Action::Dodge => String::from_str("Dodge an incoming attack"),
            Action::Heal { amount } => {
                let mut m = String::from_str("Heal for ");
                m.append(u32_to_string(*amount).as_str());
                m.append(" health");
                m
            },
        }
    }
}

impl Default for DefaultCharacterConfig {
    fn default() -> (r: Self)
        ensures
            r == DefaultCharacterConfig,
    {
        DefaultCharacterConfig
    }
}

impl DefaultCharacterConfig {
    /// A level-one warrior under the given name.
    pub fn create_default_character(&self, name: String) -> (r: Character)
        ensures
            r.name == name,
            r.class == CharacterClass::Warrior,
            r.level == 1,
            r.health == 100,
            r.mana == 20,
    {
        Character::new(name, CharacterClass::Warrior, 1)
    }
}

} // verus!
