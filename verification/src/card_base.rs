//! The catalog of cards and the drawing of packs from it.
//!
//! Cards are kept in buckets, one for each pair of a slot and a set. A set
//! is loaded as a whole: either all three of its buckets exist or none does.

use crate::card::{Card, CardBusterSlot, CardRarity, CardRecord, CardSet, CatalogError};
use crate::distribution::SCALE;
use crate::random::choose_one;
use crate::rules::{slot_at, slot_for, BusterRules, BusterRulesView, BUSTER_SIZE};
use rand::rngs::ThreadRng;
use std::collections::HashMap;
use vstd::prelude::*;

verus! {

broadcast use vstd::std_specs::hash::group_hash_axioms;

/// The number under which the bucket of a slot and a set is kept.
pub open spec fn bucket_key(slot: CardBusterSlot, set: CardSet) -> u64 {
    (slot.ordinal() * 3 + set.ordinal()) as u64
}

/// The cards that a run of records describes, in the order of the records,
/// or the reason why the first record that describes no card does not.
pub open spec fn classified(records: Seq<CardRecord>) -> Result<Seq<Card>, CatalogError>
    decreases records.len(),
{
    if records.len() == 0 {
        Ok(Seq::empty())
    } else {
        match classified(records.drop_last()) {
            Err(e) => Err(e),
            Ok(cards) => match Card::classify(records.last()) {
                Err(e) => Err(e),
                Ok(card) => Ok(cards.push(card)),
            },
        }
    }
}

/// Those of the cards that belong in a slot, in their order.
pub open spec fn in_slot(cards: Seq<Card>, slot: CardBusterSlot) -> Seq<Card>
    decreases cards.len(),
{
    if cards.len() == 0 {
        Seq::empty()
    } else if cards.last().buster_slot == slot {
        in_slot(cards.drop_last(), slot).push(cards.last())
    } else {
        in_slot(cards.drop_last(), slot)
    }
}

/// Every card that is filed under a slot belongs in it.
pub proof fn lemma_in_slot_has_slot(cards: Seq<Card>, slot: CardBusterSlot, i: int)
    requires
        0 <= i < in_slot(cards, slot).len(),
    ensures
        in_slot(cards, slot)[i].buster_slot == slot,
    decreases cards.len(),
{
    if cards.len() > 0 {
        if i < in_slot(cards.drop_last(), slot).len() {
            lemma_in_slot_has_slot(cards.drop_last(), slot, i);
        }
    }
}

/// Every card that is filed under a slot is one of the cards given.
pub proof fn lemma_in_slot_is_given(cards: Seq<Card>, slot: CardBusterSlot, i: int)
    requires
        0 <= i < in_slot(cards, slot).len(),
    ensures
        cards.contains(in_slot(cards, slot)[i]),
    decreases cards.len(),
{
    if cards.len() > 0 {
        if i < in_slot(cards.drop_last(), slot).len() {
            lemma_in_slot_is_given(cards.drop_last(), slot, i);
            let j = choose|j: int|
                0 <= j < cards.drop_last().len() && cards.drop_last()[j] == in_slot(
                    cards.drop_last(),
                    slot,
                )[i];
            assert(cards[j] == in_slot(cards, slot)[i]);
        } else {
            assert(cards[cards.len() - 1] == in_slot(cards, slot)[i]);
        }
    }
}

/// Every one of the cards carries the tag of the set.
pub open spec fn all_of_set(cards: Seq<Card>, set: CardSet) -> bool {
    forall|i: int| 0 <= i < cards.len() ==> (#[trigger] cards[i]).set == set
}

/// The records describe cards, each with the tag of the set.
pub open spec fn records_of_set(records: Seq<CardRecord>, set: CardSet) -> bool {
    classified(records) is Ok && all_of_set(classified(records)->Ok_0, set)
}

fn key_of(slot: CardBusterSlot, set: CardSet) -> (key: u64)
    ensures
        key == bucket_key(slot, set),
{
    let row: u64 = match slot {
        CardBusterSlot::Hero => 0,
        CardBusterSlot::Command => 1,
        CardBusterSlot::BasicCard => 2,
    };
    let column: u64 = match set {
        CardSet::BAZ => 0,
        CardSet::KOV => 1,
        CardSet::HallOfFame => 2,
    };
    row * 3 + column
}

/// Sorts the cards that the records describe into one list for each slot.
/// Nothing is handed out unless every record describes a card.
fn sort_records(records: &Vec<CardRecord>) -> (r: Result<
    (Vec<Card>, Vec<Card>, Vec<Card>),
    CatalogError,
>)
    ensures
        match classified(records@) {
            Err(e) => r == Err::<(Vec<Card>, Vec<Card>, Vec<Card>), CatalogError>(e),
            Ok(cards) => r is Ok && r->Ok_0.0@ == in_slot(cards, CardBusterSlot::Hero)
                && r->Ok_0.1@ == in_slot(cards, CardBusterSlot::Command) && r->Ok_0.2@ == in_slot(
                cards,
                CardBusterSlot::BasicCard,
            ),
        },
{
    let mut heroes: Vec<Card> = Vec::new();
    let mut commands: Vec<Card> = Vec::new();
    let mut basics: Vec<Card> = Vec::new();
    let mut i: usize = 0;
    while i < records.len()
        invariant
            i <= records.len(),
            classified(records@.take(i as int)) is Ok,
            heroes@ == in_slot(classified(records@.take(i as int))->Ok_0, CardBusterSlot::Hero),
            commands@ == in_slot(
                classified(records@.take(i as int))->Ok_0,
                CardBusterSlot::Command,
            ),
            basics@ == in_slot(
                classified(records@.take(i as int))->Ok_0,
                CardBusterSlot::BasicCard,
            ),
        decreases records.len() - i,
    {
        proof {
            assert(records@.take(i + 1).drop_last() =~= records@.take(i as int));
            assert(records@.take(i + 1).last() == records@[i as int]);
        }
        let ghost before = classified(records@.take(i as int))->Ok_0;
        match Card::from_record(&records[i]) {
            Err(e) => {
                proof {
                    lemma_error_stays(records@, i + 1);
                }
                return Err(e);
            },
            Ok(card) => {
                proof {
                    assert(before.push(card).drop_last() =~= before);
                }
                match card.buster_slot {
                    CardBusterSlot::Hero => heroes.push(card),
                    CardBusterSlot::Command => commands.push(card),
                    CardBusterSlot::BasicCard => basics.push(card),
                }
            },
        }
        i += 1;
    }
    proof {
        assert(records@.take(i as int) =~= records@);
    }
    Ok((heroes, commands, basics))
}

/// Once a run of records has met one that describes no card, no longer
/// run changes the reason.
proof fn lemma_error_stays(records: Seq<CardRecord>, n: int)
    requires
        0 <= n <= records.len(),
        classified(records.take(n)) is Err,
    ensures
        classified(records) == classified(records.take(n)),
    decreases records.len(),
{
    if n < records.len() {
        assert(records.drop_last().take(n) =~= records.take(n));
        lemma_error_stays(records.drop_last(), n);
    } else {
        assert(records.take(n) =~= records);
    }
}

/// The catalog: the buckets of the sets that were loaded, and the random
/// source that cards are drawn with.
#[derive(Debug)]
pub struct CardBase {
    cards: HashMap<u64, Vec<Card>>,
    rng: ThreadRng,
}

impl CardBase {
    /// The buckets of this set exist.
    pub closed spec fn loaded(&self, set: CardSet) -> bool {
        self.cards@.contains_key(bucket_key(CardBusterSlot::Hero, set))
    }

    /// The cards filed under a slot and a set; none while the set is not
    /// loaded.
    pub closed spec fn bucket(&self, slot: CardBusterSlot, set: CardSet) -> Seq<Card> {
        if self.cards@.contains_key(bucket_key(slot, set)) {
            self.cards@[bucket_key(slot, set)]@
        } else {
            Seq::empty()
        }
    }

    /// A set has all of its buckets or none.
    pub closed spec fn whole_sets(&self) -> bool {
        forall|slot: CardBusterSlot, set: CardSet|
            self.cards@.contains_key(#[trigger] bucket_key(slot, set)) == self.loaded(set)
    }

    /// The catalog is in order: sets are loaded as a whole, the set of
    /// promotional cards is loaded, and every card lies in the bucket of
    /// its own slot.
    pub open spec fn wf(&self) -> bool {
        &&& self.whole_sets()
        &&& self.loaded(CardSet::HallOfFame)
        &&& forall|slot: CardBusterSlot, set: CardSet, i: int|
            0 <= i < self.bucket(slot, set).len() ==> (#[trigger] self.bucket(
                slot,
                set,
            )[i]).buster_slot == slot
        &&& forall|slot: CardBusterSlot, set: CardSet|
            !self.loaded(set) ==> (#[trigger] self.bucket(slot, set)).len() == 0
    }

    /// Every card carries the tag of the set whose bucket it lies in. The
    /// catalog files a card under the set that was asked for and does not
    /// read the card's own tag, so this holds as long as the card store
    /// answers with cards of the set asked for.
    pub open spec fn tags_agree(&self) -> bool {
        forall|slot: CardBusterSlot, set: CardSet, i: int|
            0 <= i < self.bucket(slot, set).len() ==> (#[trigger] self.bucket(slot, set)[i]).set
                == set
    }

    /// Both catalogs have the same sets loaded, with the same cards in
    /// every bucket.
    pub open spec fn same_cards(&self, other: &CardBase) -> bool {
        &&& forall|set: CardSet| self.loaded(set) == other.loaded(set)
        &&& forall|slot: CardBusterSlot, set: CardSet|
            self.bucket(slot, set) == other.bucket(slot, set)
    }

    /// A catalog with the set of promotional cards loaded from the records
    /// given, and no other set. Where a record describes no card, the
    /// promotional buckets stay empty.
    pub fn new(hall_of_fame: Vec<CardRecord>) -> (base: CardBase)
        ensures
            base.wf(),
            forall|set: CardSet| base.loaded(set) == (set == CardSet::HallOfFame),
            forall|slot: CardBusterSlot|
                #![trigger base.bucket(slot, CardSet::HallOfFame)]
                base.bucket(slot, CardSet::HallOfFame) == (match classified(hall_of_fame@) {
                    Ok(cards) => in_slot(cards, slot),
                    Err(_) => Seq::empty(),
                }),
            classified(hall_of_fame@) is Err || records_of_set(hall_of_fame@, CardSet::HallOfFame)
                ==> base.tags_agree(),
    {
        let (heroes, commands, basics) = match sort_records(&hall_of_fame) {
            Ok(sorted) => sorted,
            Err(_) => (Vec::new(), Vec::new(), Vec::new()),
        };
        let mut cards: HashMap<u64, Vec<Card>> = HashMap::new();
        cards.insert(key_of(CardBusterSlot::Hero, CardSet::HallOfFame), heroes);
        cards.insert(key_of(CardBusterSlot::Command, CardSet::HallOfFame), commands);
        cards.insert(key_of(CardBusterSlot::BasicCard, CardSet::HallOfFame), basics);
        let base = CardBase { cards, rng: rand::rng() };
        proof {
            base.lemma_buckets_hold_slots(CardSet::HallOfFame, classified(hall_of_fame@));
            if classified(hall_of_fame@) is Err || records_of_set(
                hall_of_fame@,
                CardSet::HallOfFame,
            ) {
                base.lemma_buckets_hold_tags(CardSet::HallOfFame, classified(hall_of_fame@));
                assert forall|slot: CardBusterSlot, set: CardSet, i: int|
                    0 <= i < base.bucket(slot, set).len() implies (#[trigger] base.bucket(
                    slot,
                    set,
                )[i]).set == set by {
                    assert(base.loaded(set));
                }
            }
        }
        base
    }

    /// Where each bucket of one set holds the cards of its slot out of one
    /// run of cards, or nothing, the cards of that set lie in the right
    /// buckets.
    proof fn lemma_buckets_hold_slots(&self, set: CardSet, cards: Result<Seq<Card>, CatalogError>)
        requires
            forall|slot: CardBusterSlot|
                #![trigger self.bucket(slot, set)]
                self.bucket(slot, set) == (match cards {
                    Ok(cards) => in_slot(cards, slot),
                    Err(_) => Seq::empty(),
                }),
        ensures
            forall|slot: CardBusterSlot, i: int|
                0 <= i < self.bucket(slot, set).len() ==> (#[trigger] self.bucket(
                    slot,
                    set,
                )[i]).buster_slot == slot,
    {
        assert forall|slot: CardBusterSlot, i: int|
            0 <= i < self.bucket(slot, set).len() implies (#[trigger] self.bucket(
            slot,
            set,
        )[i]).buster_slot == slot by {
            if let Ok(run) = cards {
                lemma_in_slot_has_slot(run, slot, i);
            }
        }
    }

    /// Where each bucket of one set holds the cards of its slot out of one
    /// run of cards that carry the tag of the set, or nothing, the cards in
    /// the buckets of that set carry its tag.
    proof fn lemma_buckets_hold_tags(&self, set: CardSet, cards: Result<Seq<Card>, CatalogError>)
        requires
            forall|slot: CardBusterSlot|
                #![trigger self.bucket(slot, set)]
                self.bucket(slot, set) == (match cards {
                    Ok(cards) => in_slot(cards, slot),
                    Err(_) => Seq::empty(),
                }),
            cards is Ok ==> all_of_set(cards->Ok_0, set),
        ensures
            forall|slot: CardBusterSlot, i: int|
                0 <= i < self.bucket(slot, set).len() ==> (#[trigger] self.bucket(slot, set)[i]).set
                    == set,
    {
        assert forall|slot: CardBusterSlot, i: int|
            0 <= i < self.bucket(slot, set).len() implies (#[trigger] self.bucket(
            slot,
            set,
        )[i]).set == set by {
            if let Ok(run) = cards {
                lemma_in_slot_is_given(run, slot, i);
            }
        }
    }

    /// Whether the buckets of a set exist.
    pub fn has_set(&self, set: CardSet) -> (has: bool)
        requires
            self.wf(),
        ensures
            has == self.loaded(set),
    {
        let slots = CardBusterSlot::iter();
        let mut i: usize = 0;
        while i < 3
            invariant
                i <= 3,
                self.wf(),
                slots@ == seq![
                    CardBusterSlot::Hero,
                    CardBusterSlot::Command,
                    CardBusterSlot::BasicCard,
                ],
                !self.loaded(set) || i == 0,
            decreases 3 - i,
        {
            let key = key_of(slots[i], set);
            if self.cards.contains_key(&key) {
                return true;
            }
            i += 1;
        }
        false
    }

    /// Loads a set from the records that the card store holds for it. Each
    /// card goes to the bucket of its own slot, under the set asked for.
    /// A set that is loaded already is left as it is. Where a record
    /// describes no card, nothing is loaded and the set can be tried again.
    pub fn add_set(&mut self, set: CardSet, records: Vec<CardRecord>) -> (r: Result<
        (),
        CatalogError,
    >)
        requires
            old(self).wf(),
        ensures
            final(self).wf(),
            old(self).loaded(set) ==> r is Ok && final(self).same_cards(old(self)),
            old(self).tags_agree() && (old(self).loaded(set) || classified(records@) is Err
                || records_of_set(records@, set)) ==> final(self).tags_agree(),
            !old(self).loaded(set) ==> match classified(records@) {
                Err(e) => r == Err::<(), CatalogError>(e) && final(self).same_cards(old(self)),
                Ok(cards) => {
                    &&& r is Ok
                    &&& forall|other: CardSet|
                        final(self).loaded(other) == (other == set || old(self).loaded(other))
                    &&& forall|slot: CardBusterSlot|
                        #![trigger final(self).bucket(slot, set)]
                        final(self).bucket(slot, set) == in_slot(cards, slot)
                    &&& forall|slot: CardBusterSlot, other: CardSet|
                        other != set ==> final(self).bucket(slot, other) == old(self).bucket(
                            slot,
                            other,
                        )
                },
            },
    {
        if self.has_set(set) {
            return Ok(());
        }
        let (heroes, commands, basics) = match sort_records(&records) {
            Ok(sorted) => sorted,
            Err(e) => {
                return Err(e);
            },
        };
        self.cards.insert(key_of(CardBusterSlot::Hero, set), heroes);
        self.cards.insert(key_of(CardBusterSlot::Command, set), commands);
        self.cards.insert(key_of(CardBusterSlot::BasicCard, set), basics);
        proof {
            self.lemma_buckets_hold_slots(set, classified(records@));
            assert forall|slot: CardBusterSlot, other: CardSet, i: int|
                0 <= i < self.bucket(slot, other).len() implies (#[trigger] self.bucket(
                slot,
                other,
            )[i]).buster_slot == slot by {
                if other != set {
                    assert(self.bucket(slot, other) == old(self).bucket(slot, other));
                }
            }
            if old(self).tags_agree() && records_of_set(records@, set) {
                self.lemma_buckets_hold_tags(set, classified(records@));
                assert forall|slot: CardBusterSlot, other: CardSet, i: int|
                    0 <= i < self.bucket(slot, other).len() implies (#[trigger] self.bucket(
                    slot,
                    other,
                )[i]).set == other by {
                    if other != set {
                        assert(self.bucket(slot, other) == old(self).bucket(slot, other));
                    }
                }
            }
        }
        Ok(())
    }

    /// Draws one card for a slot, each card of the bucket being as likely
    /// as any other. With `hall_of_fame` the promotional bucket of the slot
    /// is tried first, and the bucket of the set only where that one is
    /// empty. The rarity says which tier the place aims at; it does not
    /// narrow the choice.
    pub fn generate_card(
        &mut self,
        slot: CardBusterSlot,
        rarity: CardRarity,
        set: CardSet,
        hall_of_fame: bool,
    ) -> (card: Option<Card>)
        requires
            old(self).wf(),
            old(self).loaded(set),
        ensures
            final(self).wf(),
            final(self).same_cards(old(self)),
            match card {
                Some(card) => if hall_of_fame && old(self).bucket(slot, CardSet::HallOfFame).len()
                    > 0 {
                    old(self).bucket(slot, CardSet::HallOfFame).contains(card)
                } else {
                    old(self).bucket(slot, set).contains(card)
                },
                None => old(self).bucket(slot, set).len() == 0 && (hall_of_fame ==> old(
                    self,
                ).bucket(slot, CardSet::HallOfFame).len() == 0),
            },
    {
        let _ = rarity;
        if hall_of_fame {
            let key = key_of(slot, CardSet::HallOfFame);
            let promotional = match self.cards.get(&key) {
                Some(bucket) => choose_one(bucket, &mut self.rng),
                None => None,
            };
            if let Some(card) = promotional {
                proof {
                    self.lemma_drawing_keeps_cards(old(self));
                }
                return Some(card.clone());
            }
        }
        let key = key_of(slot, set);
        let drawn = match self.cards.get(&key) {
            Some(bucket) => match choose_one(bucket, &mut self.rng) {
                Some(card) => Some(card.clone()),
                None => None,
            },
            None => None,
        };
        proof {
            self.lemma_drawing_keeps_cards(old(self));
        }
        drawn
    }

    /// `card` can stand at a place of a pack drawn under the rules: it
    /// belongs in the slot of the place and lies in the bucket of the set or
    /// in the promotional bucket; in the former where the chance of a
    /// promotional card is zero, in the latter where the chance is one and
    /// that bucket holds a card.
    pub open spec fn fits(&self, rules: BusterRulesView, position: int, card: Card) -> bool {
        let slot = slot_at(position);
        &&& card.buster_slot == slot
        &&& (self.bucket(slot, rules.set).contains(card) || self.bucket(
            slot,
            CardSet::HallOfFame,
        ).contains(card))
        &&& (rules.hall_of_fame_chance == 0 ==> self.bucket(slot, rules.set).contains(card))
        &&& (rules.hall_of_fame_chance == SCALE && self.bucket(slot, CardSet::HallOfFame).len() > 0
            ==> self.bucket(slot, CardSet::HallOfFame).contains(card))
    }

    /// A draw for the slot can come back empty: the bucket of the set holds
    /// no card, and the promotional bucket cannot be counted on.
    pub open spec fn may_run_dry(&self, rules: BusterRulesView, slot: CardBusterSlot) -> bool {
        &&& self.bucket(slot, rules.set).len() == 0
        &&& (rules.hall_of_fame_chance == SCALE ==> self.bucket(slot, CardSet::HallOfFame).len()
            == 0)
    }

    /// Every draw for the slot comes back empty: the bucket of the set
    /// holds no card, and the promotional bucket is empty or never tried.
    pub open spec fn must_run_dry(&self, rules: BusterRulesView, slot: CardBusterSlot) -> bool {
        &&& self.bucket(slot, rules.set).len() == 0
        &&& (rules.hall_of_fame_chance == 0 || self.bucket(slot, CardSet::HallOfFame).len() == 0)
    }

    /// Draws a pack: a hero, three commands and fourteen basic cards, in
    /// this order. For each place the rarity aimed at is decided, then
    /// whether a promotional card takes the place, then the card is drawn.
    /// No pack comes out if any draw finds no card.
    pub fn generate_buster(&mut self, rules: &BusterRules) -> (buster: Option<[Card; BUSTER_SIZE]>)
        requires
            old(self).wf(),
            old(self).loaded(rules@.set),
        ensures
            final(self).wf(),
            final(self).same_cards(old(self)),
            match buster {
                Some(cards) => forall|i: int|
                    0 <= i < BUSTER_SIZE ==> old(self).fits(rules@, i, #[trigger] cards@[i]),
                None => exists|slot: CardBusterSlot| old(self).may_run_dry(rules@, slot),
            },
            (exists|slot: CardBusterSlot| old(self).must_run_dry(rules@, slot)) ==> buster is None,
    {
        let set = rules.set();
        let mut buster: [Card; BUSTER_SIZE] = [
            Card::plug(),
            Card::plug(),
            Card::plug(),
            Card::plug(),
            Card::plug(),
            Card::plug(),
            Card::plug(),
            Card::plug(),
            Card::plug(),
            Card::plug(),
            Card::plug(),
            Card::plug(),
            Card::plug(),
            Card::plug(),
            Card::plug(),
            Card::plug(),
            Card::plug(),
            Card::plug(),
        ];
        let mut position: usize = 0;
        while position < BUSTER_SIZE
            invariant
                position <= BUSTER_SIZE,
                self.wf(),
                self.same_cards(old(self)),
                old(self).wf(),
                set == rules@.set,
                self.loaded(set),
                forall|i: int|
                    0 <= i < position ==> old(self).fits(rules@, i, #[trigger] buster@[i]),
            decreases BUSTER_SIZE - position,
        {
            let rarity = rules.generate_rarity(position);
            let slot = slot_for(position);
            let hall_of_fame = rules.generate_hall_of_fame();
            let ghost before = *self;
            match self.generate_card(slot, rarity, set, hall_of_fame) {
                Some(card) => {
                    proof {
                        assert(before.bucket(slot, set) == old(self).bucket(slot, set));
                        assert(before.bucket(slot, CardSet::HallOfFame) == old(self).bucket(
                            slot,
                            CardSet::HallOfFame,
                        ));
                        old(self).lemma_card_of_bucket(slot, set, card);
                        old(self).lemma_card_of_bucket(slot, CardSet::HallOfFame, card);
                        assert(old(self).fits(rules@, position as int, card));
                    }
                    buster[position] = card;
                },
                None => {
                    proof {
                        assert(before.bucket(slot, set) == old(self).bucket(slot, set));
                        assert(before.bucket(slot, CardSet::HallOfFame) == old(self).bucket(
                            slot,
                            CardSet::HallOfFame,
                        ));
                        assert(old(self).may_run_dry(rules@, slot));
                        self.lemma_same_cards_chain(&before, old(self));
                    }
                    return None;
                },
            }
            proof {
                self.lemma_same_cards_chain(&before, old(self));
            }
            position += 1;
        }
        proof {
            assert forall|slot: CardBusterSlot| !old(self).must_run_dry(rules@, slot) by {
                let place: int = match slot {
                    CardBusterSlot::Hero => 0,
                    CardBusterSlot::Command => 1,
                    CardBusterSlot::BasicCard => 4,
                };
                assert(old(self).fits(rules@, place, buster@[place]));
            }
        }
        Some(buster)
    }

    /// In a catalog whose cards carry the tags of their buckets, a card
    /// that can stand in a pack is of the set of the rules or promotional:
    /// of the set of the rules where the chance of a promotional card is
    /// zero, and promotional where the chance is one and the promotional
    /// bucket of the slot holds a card.
    pub proof fn lemma_sets_of_a_pack(&self, rules: BusterRulesView, position: int, card: Card)
        requires
            self.tags_agree(),
            self.fits(rules, position, card),
        ensures
            card.set == rules.set || card.set == CardSet::HallOfFame,
            rules.hall_of_fame_chance == 0 ==> card.set == rules.set,
            rules.hall_of_fame_chance == SCALE && self.bucket(
                slot_at(position),
                CardSet::HallOfFame,
            ).len() > 0 ==> card.set == CardSet::HallOfFame,
    {
        let slot = slot_at(position);
        if self.bucket(slot, rules.set).contains(card) {
            let i = choose|i: int|
                0 <= i < self.bucket(slot, rules.set).len() && self.bucket(slot, rules.set)[i]
                    == card;
            assert(self.bucket(slot, rules.set)[i].set == rules.set);
        }
        if self.bucket(slot, CardSet::HallOfFame).contains(card) {
            let i = choose|i: int|
                0 <= i < self.bucket(slot, CardSet::HallOfFame).len() && self.bucket(
                    slot,
                    CardSet::HallOfFame,
                )[i] == card;
            assert(self.bucket(slot, CardSet::HallOfFame)[i].set == CardSet::HallOfFame);
        }
    }

    /// A card found in a bucket belongs in the slot of that bucket.
    pub proof fn lemma_card_of_bucket(&self, slot: CardBusterSlot, set: CardSet, card: Card)
        requires
            self.wf(),
        ensures
            self.bucket(slot, set).contains(card) ==> card.buster_slot == slot,
    {
        if self.bucket(slot, set).contains(card) {
            let i = choose|i: int|
                0 <= i < self.bucket(slot, set).len() && self.bucket(slot, set)[i] == card;
            assert(self.bucket(slot, set)[i].buster_slot == slot);
        }
    }

    /// Holding the same cards carries over from one catalog to the next.
    proof fn lemma_same_cards_chain(&self, middle: &CardBase, first: &CardBase)
        requires
            self.same_cards(middle),
            middle.same_cards(first),
        ensures
            self.same_cards(first),
    {
        assert forall|set: CardSet| self.loaded(set) == first.loaded(set) by {
            assert(self.loaded(set) == middle.loaded(set));
        }
        assert forall|slot: CardBusterSlot, set: CardSet|
            self.bucket(slot, set) == first.bucket(slot, set) by {
            assert(self.bucket(slot, set) == middle.bucket(slot, set));
        }
    }

    /// A catalog that differs from one in order by its random source alone
    /// is in order too, with the same cards.
    proof fn lemma_drawing_keeps_cards(&self, before: &CardBase)
        requires
            before.wf(),
            self.cards == before.cards,
        ensures
            self.wf(),
            self.same_cards(before),
    {
        assert(self.same_cards(before));
        assert forall|slot: CardBusterSlot, set: CardSet, i: int|
            0 <= i < self.bucket(slot, set).len() implies (#[trigger] self.bucket(
            slot,
            set,
        )[i]).buster_slot == slot by {
            assert(self.bucket(slot, set) == before.bucket(slot, set));
        }
        assert forall|slot: CardBusterSlot, set: CardSet| !self.loaded(set) implies (
        #[trigger] self.bucket(slot, set)).len() == 0 by {
            assert(self.bucket(slot, set) == before.bucket(slot, set));
        }
    }
}

} // verus!
