use response_sim::{Card, CardBusterSlot, CardRarity, CardRecord, CardSet, CatalogError};

#[test]
fn rarity_tags() {
    assert_eq!(CardRarity::Bronze.as_str(), "Бронза");
    assert_eq!(CardRarity::Silver.as_str(), "Серебро");
    assert_eq!(CardRarity::Gold.as_str(), "Золото");
}

#[test]
fn slot_tags() {
    assert_eq!(CardBusterSlot::Hero.as_str(), "Герой");
    assert_eq!(CardBusterSlot::Command.as_str(), "Приказ");
    assert_eq!(CardBusterSlot::BasicCard.as_str(), "Основная карта");
}

#[test]
fn set_tags() {
    assert_eq!(CardSet::BAZ.as_str(), "БАЗ");
    assert_eq!(CardSet::KOV.as_str(), "КОВ");
    assert_eq!(CardSet::HallOfFame.as_str(), "Зал Славы");
}

#[test]
fn tags_are_read_back() {
    for rarity in [CardRarity::Bronze, CardRarity::Silver, CardRarity::Gold] {
        assert_eq!(CardRarity::try_from(rarity.as_str().to_string()), Ok(rarity));
    }
    for slot in CardBusterSlot::iter() {
        assert_eq!(CardBusterSlot::try_from(slot.as_str().to_string()), Ok(slot));
    }
    for set in [CardSet::BAZ, CardSet::KOV, CardSet::HallOfFame] {
        assert_eq!(CardSet::try_from(set.as_str().to_string()), Ok(set));
    }
}

#[test]
fn unknown_tags_are_refused() {
    assert_eq!(
        CardRarity::try_from("Платина".to_string()),
        Err(CatalogError::UnknownClassification)
    );
    assert_eq!(CardRarity::try_from(String::new()), Err(CatalogError::UnknownClassification));
    assert_eq!(
        CardRarity::try_from("бронза".to_string()),
        Err(CatalogError::UnknownClassification)
    );
    assert_eq!(
        CardBusterSlot::try_from("Золото".to_string()),
        Err(CatalogError::UnknownClassification)
    );
    assert_eq!(CardSet::try_from("Герой".to_string()), Err(CatalogError::UnknownClassification));
    assert_eq!(CardSet::try_from("КОВ ".to_string()), Err(CatalogError::UnknownClassification));
}

#[test]
fn slots_in_order() {
    assert_eq!(
        CardBusterSlot::iter(),
        [CardBusterSlot::Hero, CardBusterSlot::Command, CardBusterSlot::BasicCard]
    );
}

#[test]
fn plug_is_a_bronze_basic_card_without_a_place() {
    let plug = Card::plug();
    assert_eq!(plug.name, "Пустышка");
    assert_eq!(plug.id_in_set, 0);
    assert_eq!(plug.rarity, CardRarity::Bronze);
    assert_eq!(plug.buster_slot, CardBusterSlot::BasicCard);
    assert_eq!(plug.set, CardSet::BAZ);
    assert_eq!(plug.image_url, None);
}

#[test]
fn new_keeps_every_field() {
    let card = Card::new(
        "Страж".to_string(),
        12,
        CardRarity::Gold,
        CardBusterSlot::Hero,
        CardSet::KOV,
        Some("guard.png".to_string()),
    );
    assert_eq!(card.name, "Страж");
    assert_eq!(card.id_in_set, 12);
    assert_eq!(card.rarity, CardRarity::Gold);
    assert_eq!(card.buster_slot, CardBusterSlot::Hero);
    assert_eq!(card.set, CardSet::KOV);
    assert_eq!(card.image_url, Some("guard.png".to_string()));
    let copy = card.clone();
    assert_eq!(copy.name, "Страж");
    assert_eq!(copy.id_in_set, 12);
    assert_eq!(copy.image_url, Some("guard.png".to_string()));
}

fn guard_record(id_in_set: i64, rarity: &str, slot: &str, set: &str) -> CardRecord {
    CardRecord {
        name: "Страж".to_string(),
        id_in_set,
        rarity: rarity.to_string(),
        buster_slot: slot.to_string(),
        set_name: set.to_string(),
        image_url: Some("guard.png".to_string()),
    }
}

#[test]
fn from_record_reads_the_tags() {
    let card = Card::from_record(&guard_record(4_294_967_295, "Серебро", "Приказ", "Зал Славы")).unwrap();
    assert_eq!(card.name, "Страж");
    assert_eq!(card.id_in_set, u32::MAX);
    assert_eq!(card.rarity, CardRarity::Silver);
    assert_eq!(card.buster_slot, CardBusterSlot::Command);
    assert_eq!(card.set, CardSet::HallOfFame);
    assert_eq!(card.image_url, Some("guard.png".to_string()));
}

#[test]
fn from_record_refuses_unknown_tags() {
    let unknown = Some(CatalogError::UnknownClassification);
    assert_eq!(Card::from_record(&guard_record(1, "?", "Герой", "КОВ")).err(), unknown);
    assert_eq!(Card::from_record(&guard_record(1, "Золото", "?", "КОВ")).err(), unknown);
    assert_eq!(Card::from_record(&guard_record(1, "Золото", "Герой", "?")).err(), unknown);
    // The tags are read before the position.
    assert_eq!(Card::from_record(&guard_record(-1, "Золото", "Герой", "?")).err(), unknown);
}

#[test]
fn from_record_refuses_a_position_out_of_range() {
    let out = Some(CatalogError::PositionOutOfRange);
    assert_eq!(Card::from_record(&guard_record(-1, "Золото", "Герой", "КОВ")).err(), out);
    assert_eq!(Card::from_record(&guard_record(4_294_967_296, "Золото", "Герой", "КОВ")).err(), out);
    assert!(Card::from_record(&guard_record(0, "Золото", "Герой", "КОВ")).is_ok());
}
