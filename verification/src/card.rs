//! The value types that describe one card and the ways it is classified.

use vstd::prelude::*;

verus! {

/// Why a record of the card store could not become a [`Card`].
#[derive(Debug, PartialEq, Eq, Clone, Copy, Structural)]
pub enum CatalogError {
    /// A rarity, slot or set tag names no known value.
    UnknownClassification,
    /// The position within the set does not fit the range of a card's position.
    PositionOutOfRange,
}

/// `true` exactly when the two texts hold the same characters.
pub(crate) fn same_text(a: &String, b: &str) -> (same: bool)
    ensures
        same == (a@ == b@),
{
    let owned = b.to_owned();
    *a == owned
}

#[derive(Debug, PartialEq, Eq, Clone, Copy, Hash, Structural)]
pub enum CardRarity {
    Bronze,
    Silver,
    Gold,
}

impl CardRarity {
    /// The tag under which the card store files this rarity.
    pub open spec fn tag(self) -> Seq<char> {
        match self {
            CardRarity::Bronze => "Бронза"@,
            CardRarity::Silver => "Серебро"@,
            CardRarity::Gold => "Золото"@,
        }
    }

    /// The rarity that a tag names, if it names one.
    pub open spec fn parse(tag: Seq<char>) -> Option<CardRarity> {
        if tag == CardRarity::Bronze.tag() {
            Some(CardRarity::Bronze)
        } else if tag == CardRarity::Silver.tag() {
            Some(CardRarity::Silver)
        } else if tag == CardRarity::Gold.tag() {
            Some(CardRarity::Gold)
        } else {
            None
        }
    }

    pub fn as_str(&self) -> (s: &'static str)
        ensures
            s@ == self.tag(),
    {
        match self {
            CardRarity::Bronze => "Бронза",
            CardRarity::Silver => "Серебро",
            CardRarity::Gold => "Золото",
        }
    }

    pub fn try_from(value: String) -> (r: Result<CardRarity, CatalogError>)
        ensures
            r == (match CardRarity::parse(value@) {
                Some(rarity) => Ok::<CardRarity, CatalogError>(rarity),
                None => Err(CatalogError::UnknownClassification),
            }),
    {
        if same_text(&value, "Бронза") {
            Ok(CardRarity::Bronze)
        } else if same_text(&value, "Серебро") {
            Ok(CardRarity::Silver)
        } else if same_text(&value, "Золото") {
            Ok(CardRarity::Gold)
        } else {
            Err(CatalogError::UnknownClassification)
        }
    }

    /// Every rarity is read back from its own tag.
    pub proof fn lemma_tag_round_trip(rarity: CardRarity)
        ensures
            CardRarity::parse(rarity.tag()) == Some(rarity),
    {
        reveal_strlit("Бронза");
        reveal_strlit("Серебро");
        reveal_strlit("Золото");
        assert("Бронза"@[0] != "Серебро"@[0]);
        assert("Бронза"@[0] != "Золото"@[0]);
        assert("Серебро"@[0] != "Золото"@[0]);
    }
}

#[derive(Debug, PartialEq, Eq, Clone, Copy, Hash, Structural)]
pub enum CardBusterSlot {
    Hero,
    Command,
    BasicCard,
}

impl CardBusterSlot {
    /// The tag under which the card store files this slot.
    pub open spec fn tag(self) -> Seq<char> {
        match self {
            CardBusterSlot::Hero => "Герой"@,
            CardBusterSlot::Command => "Приказ"@,
            CardBusterSlot::BasicCard => "Основная карта"@,
        }
    }

    /// The slot that a tag names, if it names one.
    pub open spec fn parse(tag: Seq<char>) -> Option<CardBusterSlot> {
        if tag == CardBusterSlot::Hero.tag() {
            Some(CardBusterSlot::Hero)
        } else if tag == CardBusterSlot::Command.tag() {
            Some(CardBusterSlot::Command)
        } else if tag == CardBusterSlot::BasicCard.tag() {
            Some(CardBusterSlot::BasicCard)
        } else {
            None
        }
    }

    /// The place of this slot among the three: 0, 1 or 2.
    pub open spec fn ordinal(self) -> nat {
        match self {
            CardBusterSlot::Hero => 0,
            CardBusterSlot::Command => 1,
            CardBusterSlot::BasicCard => 2,
        }
    }

    pub fn as_str(&self) -> (s: &'static str)
        ensures
            s@ == self.tag(),
    {
        match self {
            CardBusterSlot::Hero => "Герой",
            CardBusterSlot::Command => "Приказ",
            CardBusterSlot::BasicCard => "Основная карта",
        }
    }

    /// All slots, each once, in the order of their ordinals.
    pub fn iter() -> (slots: [CardBusterSlot; 3])
        ensures
            slots@ == seq![CardBusterSlot::Hero, CardBusterSlot::Command, CardBusterSlot::BasicCard],
            forall|slot: CardBusterSlot| slots@[slot.ordinal() as int] == slot,
    {
        let slots = [CardBusterSlot::Hero, CardBusterSlot::Command, CardBusterSlot::BasicCard];
        assert(slots@ =~= seq![
            CardBusterSlot::Hero,
            CardBusterSlot::Command,
            CardBusterSlot::BasicCard,
        ]);
        slots
    }

    pub fn try_from(value: String) -> (r: Result<CardBusterSlot, CatalogError>)
        ensures
            r == (match CardBusterSlot::parse(value@) {
                Some(slot) => Ok::<CardBusterSlot, CatalogError>(slot),
                None => Err(CatalogError::UnknownClassification),
            }),
    {
        if same_text(&value, "Герой") {
            Ok(CardBusterSlot::Hero)
        } else if same_text(&value, "Приказ") {
            Ok(CardBusterSlot::Command)
        } else if same_text(&value, "Основная карта") {
            Ok(CardBusterSlot::BasicCard)
        } else {
            Err(CatalogError::UnknownClassification)
        }
    }

    /// Every slot is read back from its own tag.
    pub proof fn lemma_tag_round_trip(slot: CardBusterSlot)
        ensures
            CardBusterSlot::parse(slot.tag()) == Some(slot),
    {
        reveal_strlit("Герой");
        reveal_strlit("Приказ");
        reveal_strlit("Основная карта");
        assert("Герой"@[0] != "Приказ"@[0]);
        assert("Герой"@[0] != "Основная карта"@[0]);
        assert("Приказ"@[0] != "Основная карта"@[0]);
    }
}

#[derive(Debug, PartialEq, Eq, Clone, Copy, Hash, Structural)]
pub enum CardSet {
    BAZ,
    KOV,
    /// The set of promotional cards that may stand in for a card of any other set.
    HallOfFame,
}

impl CardSet {
    /// The short name under which the card store files this set.
    pub open spec fn tag(self) -> Seq<char> {
        match self {
            CardSet::BAZ => "БАЗ"@,
            CardSet::KOV => "КОВ"@,
            CardSet::HallOfFame => "Зал Славы"@,
        }
    }

    /// The set that a short name stands for, if it stands for one.
    pub open spec fn parse(tag: Seq<char>) -> Option<CardSet> {
        if tag == CardSet::BAZ.tag() {
            Some(CardSet::BAZ)
        } else if tag == CardSet::KOV.tag() {
            Some(CardSet::KOV)
        } else if tag == CardSet::HallOfFame.tag() {
            Some(CardSet::HallOfFame)
        } else {
            None
        }
    }

    /// The place of this set among the three: 0, 1 or 2.
    pub open spec fn ordinal(self) -> nat {
        match self {
            CardSet::BAZ => 0,
            CardSet::KOV => 1,
            CardSet::HallOfFame => 2,
        }
    }

    pub fn as_str(&self) -> (s: &'static str)
        ensures
            s@ == self.tag(),
    {
        match self {
            CardSet::BAZ => "БАЗ",
            CardSet::KOV => "КОВ",
            CardSet::HallOfFame => "Зал Славы",
        }
    }

    pub fn try_from(value: String) -> (r: Result<CardSet, CatalogError>)
        ensures
            r == (match CardSet::parse(value@) {
                Some(set) => Ok::<CardSet, CatalogError>(set),
                None => Err(CatalogError::UnknownClassification),
            }),
    {
        if same_text(&value, "БАЗ") {
            Ok(CardSet::BAZ)
        } else if same_text(&value, "КОВ") {
            Ok(CardSet::KOV)
        } else if same_text(&value, "Зал Славы") {
            Ok(CardSet::HallOfFame)
        } else {
            Err(CatalogError::UnknownClassification)
        }
    }

    /// Every set is read back from its own short name.
    pub proof fn lemma_tag_round_trip(set: CardSet)
        ensures
            CardSet::parse(set.tag()) == Some(set),
    {
        reveal_strlit("БАЗ");
        reveal_strlit("КОВ");
        reveal_strlit("Зал Славы");
        assert("БАЗ"@[0] != "КОВ"@[0]);
        assert("БАЗ"@[0] != "Зал Славы"@[0]);
        assert("КОВ"@[0] != "Зал Славы"@[0]);
    }
}

/// One card of the catalog.
#[derive(Debug)]
pub struct Card {
    pub name: String,
    pub id_in_set: u32,
    pub rarity: CardRarity,
    pub buster_slot: CardBusterSlot,
    pub set: CardSet,
    pub image_url: Option<String>,
}

impl Clone for Card {
    fn clone(&self) -> (copy: Self)
        ensures
            copy == *self,
    {
        let image_url = match &self.image_url {
            Some(url) => Some(url.clone()),
            None => None,
        };
        Card {
            name: self.name.clone(),
            id_in_set: self.id_in_set,
            rarity: self.rarity,
            buster_slot: self.buster_slot,
            set: self.set,
            image_url,
        }
    }
}

impl Card {
    /// A placeholder card, to fill a pack before its cards are drawn.
    pub fn plug() -> (card: Card)
        ensures
            card.name@ == "Пустышка"@,
            card.id_in_set == 0,
            card.rarity == CardRarity::Bronze,
            card.buster_slot == CardBusterSlot::BasicCard,
            card.set == CardSet::BAZ,
            card.image_url is None,
    {
        Card {
            name: "Пустышка".to_owned(),
            id_in_set: 0,
            rarity: CardRarity::Bronze,
            buster_slot: CardBusterSlot::BasicCard,
            set: CardSet::BAZ,
            image_url: None,
        }
    }

    pub fn new(
        name: String,
        id_in_set: u32,
        rarity: CardRarity,
        buster_slot: CardBusterSlot,
        set: CardSet,
        image_url: Option<String>,
    ) -> (card: Card)
        ensures
            card == (Card { name, id_in_set, rarity, buster_slot, set, image_url }),
    {
        Card { name, id_in_set, rarity, buster_slot, set, image_url }
    }

    /// The card that a record of the store describes, or the reason why it
    /// describes none. The rarity is read first, then the slot, the set and
    /// the position.
    pub open spec fn classify(record: CardRecord) -> Result<Card, CatalogError> {
        if CardRarity::parse(record.rarity@) is None
            || CardBusterSlot::parse(record.buster_slot@) is None
            || CardSet::parse(record.set_name@) is None {
            Err(CatalogError::UnknownClassification)
        } else if record.id_in_set < 0 || record.id_in_set > u32::MAX {
            Err(CatalogError::PositionOutOfRange)
        } else {
            Ok(
                Card {
                    name: record.name,
                    id_in_set: record.id_in_set as u32,
                    rarity: CardRarity::parse(record.rarity@)->Some_0,
                    buster_slot: CardBusterSlot::parse(record.buster_slot@)->Some_0,
                    set: CardSet::parse(record.set_name@)->Some_0,
                    image_url: record.image_url,
                },
            )
        }
    }

    /// Turns a record of the card store into a card.
    pub fn from_record(record: &CardRecord) -> (r: Result<Card, CatalogError>)
        ensures
            r == Card::classify(*record),
    {
        let rarity = match CardRarity::try_from(record.rarity.clone()) {
            Ok(rarity) => rarity,
            Err(e) => { return Err(e); },
        };
        let buster_slot = match CardBusterSlot::try_from(record.buster_slot.clone()) {
            Ok(slot) => slot,
            Err(e) => { return Err(e); },
        };
        let set = match CardSet::try_from(record.set_name.clone()) {
            Ok(set) => set,
            Err(e) => { return Err(e); },
        };
        if record.id_in_set < 0 || record.id_in_set > 4_294_967_295 {
            return Err(CatalogError::PositionOutOfRange);
        }
        let image_url = match &record.image_url {
            Some(url) => Some(url.clone()),
            None => None,
        };
        Ok(Card::new(record.name.clone(), record.id_in_set as u32, rarity, buster_slot, set, image_url))
    }
}

/// One row as the card store hands it out: the classification is still text.
#[derive(Debug)]
pub struct CardRecord {
    pub name: String,
    pub id_in_set: i64,
    pub rarity: String,
    pub buster_slot: String,
    pub set_name: String,
    pub image_url: Option<String>,
}

} // verus!
