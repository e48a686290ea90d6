//! The rules of a pack: which set it is drawn from, how often a promotional
//! card takes a place, and how the rarity aimed at is decided for each place.

use crate::card::{CardBusterSlot, CardRarity, CardSet};
use crate::distribution::{
    is_distribution, is_sample, lemma_certain_outcome, selects, ConfigError, Distribution, SCALE,
};
use crate::random::random_in;
use vstd::prelude::*;

verus! {

/// The number of cards in a pack.
pub const BUSTER_SIZE: usize = 18;

/// The slot that a place of the pack is filled from: a hero first, then
/// three commands, then basic cards.
pub open spec fn slot_at(position: int) -> CardBusterSlot {
    if position == 0 {
        CardBusterSlot::Hero
    } else if position <= 3 {
        CardBusterSlot::Command
    } else {
        CardBusterSlot::BasicCard
    }
}

/// The outcome of a choice between silver and gold that stands for a
/// rarity; bronze is no outcome of it.
pub open spec fn upgrade_outcome(rarity: CardRarity) -> int {
    match rarity {
        CardRarity::Bronze => -1,
        CardRarity::Silver => 0,
        CardRarity::Gold => 1,
    }
}

/// The outcome of a choice among all three rarities that stands for a rarity.
pub open spec fn open_outcome(rarity: CardRarity) -> int {
    match rarity {
        CardRarity::Bronze => 0,
        CardRarity::Silver => 1,
        CardRarity::Gold => 2,
    }
}

/// What a set of rules holds.
pub struct BusterRulesView {
    pub set: CardSet,
    pub hall_of_fame_chance: int,
    pub hero_rarity: Seq<i64>,
    pub command_rarity_upgrade: Seq<i64>,
    pub command_rarity_open: Seq<i64>,
    pub basic_rarity_upgrade: Seq<i64>,
}

impl BusterRulesView {
    /// The chance is a probability and each distribution is one over the
    /// right number of outcomes.
    pub open spec fn valid(self) -> bool {
        &&& 0 <= self.hall_of_fame_chance <= SCALE
        &&& is_distribution(self.hero_rarity) && self.hero_rarity.len() == 2
        &&& is_distribution(self.command_rarity_upgrade) && self.command_rarity_upgrade.len() == 2
        &&& is_distribution(self.command_rarity_open) && self.command_rarity_open.len() == 3
        &&& is_distribution(self.basic_rarity_upgrade) && self.basic_rarity_upgrade.len() == 2
    }

    /// `rarity` is what `sample` decides for a place of the pack. Places 3,
    /// 4 and 6 and those from 7 on have a fixed rarity, whatever the sample.
    pub open spec fn aims_at(self, position: int, sample: int, rarity: CardRarity) -> bool {
        if position == 0 {
            selects(self.hero_rarity, sample, upgrade_outcome(rarity))
        } else if position == 1 {
            selects(self.command_rarity_open, sample, open_outcome(rarity))
        } else if position == 2 {
            selects(self.command_rarity_upgrade, sample, upgrade_outcome(rarity))
        } else if position == 4 {
            rarity == CardRarity::Gold
        } else if position == 5 {
            selects(self.basic_rarity_upgrade, sample, upgrade_outcome(rarity))
        } else if position == 6 {
            rarity == CardRarity::Silver
        } else {
            rarity == CardRarity::Bronze
        }
    }

    /// Where the second command and the upgraded basic card are certain to
    /// be gold, the rarity aimed at is fixed at every place but the first
    /// two: gold at 2, 4 and 5, silver at 6, bronze at 3 and from 7 on.
    pub proof fn lemma_guaranteed_rarities(self, position: int, sample: int, rarity: CardRarity)
        requires
            self.valid(),
            self.command_rarity_upgrade[1] == SCALE,
            self.basic_rarity_upgrade[1] == SCALE,
            2 <= position < BUSTER_SIZE,
            is_sample(sample),
            self.aims_at(position, sample, rarity),
        ensures
            rarity == (if position == 2 || position == 4 || position == 5 {
                CardRarity::Gold
            } else if position == 6 {
                CardRarity::Silver
            } else {
                CardRarity::Bronze
            }),
    {
        if position == 2 {
            lemma_certain_outcome(self.command_rarity_upgrade, 1, sample, upgrade_outcome(rarity));
        } else if position == 5 {
            lemma_certain_outcome(self.basic_rarity_upgrade, 1, sample, upgrade_outcome(rarity));
        }
    }

    /// No place of a pack aims at a bronze hero, and the upgraded places
    /// never aim at bronze either.
    pub proof fn lemma_upgrades_are_not_bronze(self, position: int, sample: int, rarity: CardRarity)
        requires
            position == 0 || position == 2 || position == 5,
            self.aims_at(position, sample, rarity),
        ensures
            rarity != CardRarity::Bronze,
    {
    }
}

/// The slot that a place of the pack is filled from.
pub fn slot_for(position: usize) -> (slot: CardBusterSlot)
    ensures
        slot == slot_at(position as int),
{
    if position == 0 {
        CardBusterSlot::Hero
    } else if position <= 3 {
        CardBusterSlot::Command
    } else {
        CardBusterSlot::BasicCard
    }
}

/// The rules of a pack.
#[derive(Debug)]
pub struct BusterRules {
    set: CardSet,
    hall_of_fame_chance: i64,
    hero_rarity: Distribution<2>,
    command_rarity_upgrade: Distribution<2>,
    command_rarity_open: Distribution<3>,
    basic_rarity_upgrade: Distribution<2>,
}

impl View for BusterRules {
    type V = BusterRulesView;

    closed spec fn view(&self) -> BusterRulesView {
        BusterRulesView {
            set: self.set,
            hall_of_fame_chance: self.hall_of_fame_chance as int,
            hero_rarity: self.hero_rarity@,
            command_rarity_upgrade: self.command_rarity_upgrade@,
            command_rarity_open: self.command_rarity_open@,
            basic_rarity_upgrade: self.basic_rarity_upgrade@,
        }
    }
}

impl BusterRules {
    #[verifier::type_invariant]
    spec fn chance_in_range(&self) -> bool {
        0 <= self.hall_of_fame_chance <= SCALE
    }

    /// Accepts the rules if the chance of a promotional card is a
    /// probability. Each distribution is valid from the moment it is made.
    pub fn new(
        set: CardSet,
        hall_of_fame_chance: i64,
        hero_rarity: Distribution<2>,
        command_rarity_upgrade: Distribution<2>,
        command_rarity_open: Distribution<3>,
        basic_rarity_upgrade: Distribution<2>,
    ) -> (r: Result<BusterRules, ConfigError>)
        ensures
            !(0 <= hall_of_fame_chance <= SCALE) ==> r == Err::<BusterRules, ConfigError>(
                ConfigError::ChanceOutOfRange,
            ),
            0 <= hall_of_fame_chance <= SCALE ==> r is Ok && r->Ok_0@ == (BusterRulesView {
                set,
                hall_of_fame_chance: hall_of_fame_chance as int,
                hero_rarity: hero_rarity@,
                command_rarity_upgrade: command_rarity_upgrade@,
                command_rarity_open: command_rarity_open@,
                basic_rarity_upgrade: basic_rarity_upgrade@,
            }) && r->Ok_0@.valid(),
    {
        if hall_of_fame_chance < 0 || hall_of_fame_chance > SCALE {
            return Err(ConfigError::ChanceOutOfRange);
        }
        let _ = hero_rarity.values();
        let _ = command_rarity_upgrade.values();
        let _ = command_rarity_open.values();
        let _ = basic_rarity_upgrade.values();
        Ok(
            BusterRules {
                set,
                hall_of_fame_chance,
                hero_rarity,
                command_rarity_upgrade,
                command_rarity_open,
                basic_rarity_upgrade,
            },
        )
    }

    /// The set that packs are drawn from.
    pub fn set(&self) -> (set: CardSet)
        ensures
            set == self@.set,
            self@.valid(),
    {
        proof {
            use_type_invariant(self);
        }
        let _ = self.hero_rarity.values();
        let _ = self.command_rarity_upgrade.values();
        let _ = self.command_rarity_open.values();
        let _ = self.basic_rarity_upgrade.values();
        self.set
    }

    /// Whether a given sample puts a promotional card in a place: it does
    /// when the sample falls within the chance.
    pub fn hall_of_fame_for(&self, sample: i64) -> (promotional: bool)
        ensures
            promotional == (sample <= self@.hall_of_fame_chance),
    {
        sample <= self.hall_of_fame_chance
    }

    /// Draws a sample and says whether a promotional card takes the place:
    /// always with chance one, never with chance zero.
    pub fn generate_hall_of_fame(&self) -> (promotional: bool)
        ensures
            exists|sample: int| is_sample(sample) && promotional == (sample <= self@.hall_of_fame_chance),
            self@.hall_of_fame_chance == SCALE ==> promotional,
            self@.hall_of_fame_chance == 0 ==> !promotional,
    {
        let mut rng = rand::rng();
        let sample = random_in(&mut rng, 1, SCALE);
        assert(is_sample(sample as int));
        self.hall_of_fame_for(sample)
    }

    /// The rarity that a given sample decides for a place of the pack.
    pub fn rarity_for(&self, position: usize, sample: i64) -> (rarity: CardRarity)
        ensures
            self@.aims_at(position as int, sample as int, rarity),
    {
        let _ = self.set();
        if position == 0 {
            let index = self.hero_rarity.pick(sample);
            if index == 0 { CardRarity::Silver } else { CardRarity::Gold }
        } else if position == 1 {
            let index = self.command_rarity_open.pick(sample);
            if index == 0 {
                CardRarity::Bronze
            } else if index == 1 {
                CardRarity::Silver
            } else {
                CardRarity::Gold
            }
        } else if position == 2 {
            let index = self.command_rarity_upgrade.pick(sample);
            if index == 0 { CardRarity::Silver } else { CardRarity::Gold }
        } else if position == 4 {
            CardRarity::Gold
        } else if position == 5 {
            let index = self.basic_rarity_upgrade.pick(sample);
            if index == 0 { CardRarity::Silver } else { CardRarity::Gold }
        } else if position == 6 {
            CardRarity::Silver
        } else {
            CardRarity::Bronze
        }
    }

    /// Draws a sample where the place calls for one and returns the rarity
    /// aimed at.
    pub fn generate_rarity(&self, position: usize) -> (rarity: CardRarity)
        ensures
            exists|sample: int| is_sample(sample) && self@.aims_at(position as int, sample, rarity),
    {
        let sample = if position <= 2 || position == 5 {
            let mut rng = rand::rng();
            random_in(&mut rng, 1, SCALE)
        } else {
            1
        };
        assert(is_sample(sample as int));
        self.rarity_for(position, sample)
    }
}

} // verus!
