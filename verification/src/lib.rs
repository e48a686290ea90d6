//! Booster pack simulation for a trading card game.
//!
//! A catalog of cards, grouped by pack slot and card set, is sampled under a
//! set of probability rules to assemble packs of a fixed composition.
//! Probabilities are held as whole millionths, so every rule of the engine is
//! stated and proved over integers.

pub mod card;
pub mod card_base;
pub mod card_parser;
pub mod distribution;
pub mod random;
pub mod rules;

pub use crate::card::{Card, CardBusterSlot, CardRarity, CardRecord, CardSet, CatalogError};
pub use crate::card_base::CardBase;
pub use crate::distribution::{ConfigError, Distribution, SCALE};
pub use crate::rules::{slot_for, BusterRules, BUSTER_SIZE};
