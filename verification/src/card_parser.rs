//! Reading the cards that the publisher's site lists: what a listing says of
//! a card, and when a request that failed is worth another try.

use crate::card::{same_text, Card, CardBusterSlot, CardRarity, CardSet, CatalogError};
use vstd::prelude::*;
use vstd::string::StringExecFns;

verus! {

/// The address of the site; the paths of the images start from it.
pub const RESPONSE_WORLD_URL: &'static str = "https://response-world.ru/";

/// The number of the last card that the site lists.
pub const LAST_CARD_ID: u32 = 415;

/// The pause between two cards, in milliseconds.
pub const REQUEST_DELAY_MS: u64 = 100;

/// How often one request is tried at most.
pub const MAX_RETRIES: u32 = 3;

/// What the site lists for one card.
#[derive(Debug)]
pub struct CardJson {
    pub name: String,
    pub id_in_set: u32,
    /// The display name of the rarity.
    pub rarity: String,
    /// The display names of the card's types.
    pub types: Vec<String>,
    /// The display name of the set.
    pub card_set: String,
    /// The path of the image below the address of the site, if there is one.
    pub card_path: Option<String>,
}

/// One of the names is the given tag.
pub open spec fn names_hold(names: Seq<String>, tag: Seq<char>) -> bool {
    exists|i: int| 0 <= i < names.len() && (#[trigger] names[i])@ == tag
}

/// The slot of a card with the given types: a hero if one of them says so,
/// else a command if one of them says so, else a basic card.
pub open spec fn slot_of_types(names: Seq<String>) -> CardBusterSlot {
    if names_hold(names, CardBusterSlot::Hero.tag()) {
        CardBusterSlot::Hero
    } else if names_hold(names, CardBusterSlot::Command.tag()) {
        CardBusterSlot::Command
    } else {
        CardBusterSlot::BasicCard
    }
}

/// The listing names a rarity and a set that are known.
pub open spec fn is_known(listing: CardJson) -> bool {
    CardRarity::parse(listing.rarity@) is Some && CardSet::parse(listing.card_set@) is Some
}

/// `card` is the card that the listing describes.
pub open spec fn describes(listing: CardJson, card: Card) -> bool {
    &&& card.name == listing.name
    &&& card.id_in_set == listing.id_in_set
    &&& CardRarity::parse(listing.rarity@) == Some(card.rarity)
    &&& card.buster_slot == slot_of_types(listing.types@)
    &&& CardSet::parse(listing.card_set@) == Some(card.set)
    &&& match listing.card_path {
        Some(path) => card.image_url is Some && card.image_url->Some_0@ == RESPONSE_WORLD_URL@
            + path@,
        None => card.image_url is None,
    }
}

fn has_name(names: &Vec<String>, tag: &str) -> (found: bool)
    ensures
        found == names_hold(names@, tag@),
{
    let mut i: usize = 0;
    while i < names.len()
        invariant
            i <= names.len(),
            forall|j: int| 0 <= j < i ==> (#[trigger] names@[j])@ != tag@,
        decreases names.len() - i,
    {
        if same_text(&names[i], tag) {
            return true;
        }
        i += 1;
    }
    false
}

/// The slot of a card with the given types.
pub fn slot_from_types(names: &Vec<String>) -> (slot: CardBusterSlot)
    ensures
        slot == slot_of_types(names@),
{
    if has_name(names, CardBusterSlot::Hero.as_str()) {
        CardBusterSlot::Hero
    } else if has_name(names, CardBusterSlot::Command.as_str()) {
        CardBusterSlot::Command
    } else {
        CardBusterSlot::BasicCard
    }
}

impl Card {
    /// The card that a listing of the site describes. A listing whose
    /// rarity or set is unknown describes none.
    pub fn from_json(card_json: CardJson) -> (r: Result<Card, CatalogError>)
        ensures
            match r {
                Ok(card) => describes(card_json, card),
                Err(e) => e == CatalogError::UnknownClassification && !is_known(card_json),
            },
            is_known(card_json) ==> r is Ok,
    {
        let rarity = match CardRarity::try_from(card_json.rarity.clone()) {
            Ok(rarity) => rarity,
            Err(e) => {
                return Err(e);
            },
        };
        let buster_slot = slot_from_types(&card_json.types);
        let set = match CardSet::try_from(card_json.card_set.clone()) {
            Ok(set) => set,
            Err(e) => {
                return Err(e);
            },
        };
        let image_url = match &card_json.card_path {
            Some(path) => Some(RESPONSE_WORLD_URL.to_owned().concat(path.as_str())),
            None => None,
        };
        Ok(Card::new(card_json.name, card_json.id_in_set, rarity, buster_slot, set, image_url))
    }
}

/// How one try of a request ended.
#[derive(Debug, PartialEq, Eq, Clone, Copy, Structural)]
pub enum Attempt {
    /// The site answered with a status of success.
    Success,
    /// The site answered with a status that blames the server.
    ServerError,
    /// The site answered with any other status.
    OtherStatus,
    /// No answer came in time.
    Timeout,
    /// No connection was made.
    ConnectFailure,
    /// The request failed in another way.
    OtherFailure,
}

/// What to do after one try of a request.
#[derive(Debug, PartialEq, Eq, Clone, Copy, Structural)]
pub enum NextStep {
    /// Hand the answer out.
    Done,
    /// Wait a second and try again.
    Retry,
    /// Hand the failure out.
    GiveUp,
}

/// Whether another try can help: the server may recover, and an answer or
/// a connection may come the next time.
pub open spec fn is_passing(attempt: Attempt) -> bool {
    attempt == Attempt::ServerError || attempt == Attempt::Timeout || attempt
        == Attempt::ConnectFailure
}

/// What follows the try with the given number, counted from one.
pub open spec fn step_after(tries: int, attempt: Attempt) -> NextStep {
    if attempt == Attempt::Success {
        NextStep::Done
    } else if is_passing(attempt) && tries < MAX_RETRIES {
        NextStep::Retry
    } else {
        NextStep::GiveUp
    }
}

/// Decides what follows the try with the given number, counted from one.
/// No request is tried more often than [`MAX_RETRIES`] times.
pub fn next_step(tries: u32, attempt: Attempt) -> (step: NextStep)
    ensures
        step == step_after(tries as int, attempt),
        tries >= MAX_RETRIES ==> step != NextStep::Retry,
{
    match attempt {
        Attempt::Success => NextStep::Done,
        Attempt::ServerError => if tries < MAX_RETRIES {
            NextStep::Retry
        } else {
            NextStep::GiveUp
        },
        Attempt::OtherStatus => NextStep::GiveUp,
        Attempt::Timeout | Attempt::ConnectFailure => if tries >= MAX_RETRIES {
            NextStep::GiveUp
        } else {
            NextStep::Retry
        },
        Attempt::OtherFailure => NextStep::GiveUp,
    }
}

} // verus!
