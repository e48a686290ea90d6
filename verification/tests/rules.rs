use response_sim::{
    slot_for, BusterRules, CardBusterSlot, CardRarity, CardSet, ConfigError, Distribution,
    BUSTER_SIZE,
};

#[test]
fn create_buster_rules_with_valid_values() {
    // GIVEN
    let hall_of_fame_chanse = 100_000;
    let my_distribution2 = [200_000, 800_000];
    let my_distribution3 = [200_000, 400_000, 400_000];
    let set = CardSet::KOV;
    // WHEN
    let hero_chanse = Distribution::<2>::new(my_distribution2).unwrap();
    let command_chanse2 = Distribution::<2>::new(my_distribution2).unwrap();
    let command_chanse3 = Distribution::<3>::new(my_distribution3).unwrap();
    let basic_card_chanse = Distribution::<2>::new(my_distribution2).unwrap();
    let rules = BusterRules::new(
        set,
        hall_of_fame_chanse,
        hero_chanse,
        command_chanse2,
        command_chanse3,
        basic_card_chanse,
    );
    // THEN
    assert!(rules.is_ok());
}

#[test]
fn create_buster_rules_with_invalid_hall_of_fame_chanse1() {
    // GIVEN
    let hall_of_fame_chanse = 1_001_000;
    let my_distribution2 = [200_000, 800_000];
    let my_distribution3 = [200_000, 400_000, 400_000];
    let set = CardSet::KOV;
    // WHEN
    let hero_chanse = Distribution::<2>::new(my_distribution2).unwrap();
    let command_chanse2 = Distribution::<2>::new(my_distribution2).unwrap();
    let command_chanse3 = Distribution::<3>::new(my_distribution3).unwrap();
    let basic_card_chanse = Distribution::<2>::new(my_distribution2).unwrap();
    let rules = BusterRules::new(
        set,
        hall_of_fame_chanse,
        hero_chanse,
        command_chanse2,
        command_chanse3,
        basic_card_chanse,
    );
    // THEN
    assert!(rules.is_err());
}

#[test]
fn create_buster_rules_with_invalid_hall_of_fame_chanse2() {
    // GIVEN
    let hall_of_fame_chanse = -100_000;
    let my_distribution2 = [200_000, 800_000];
    let my_distribution3 = [200_000, 400_000, 400_000];
    let set = CardSet::KOV;
    // WHEN
    let hero_chanse = Distribution::<2>::new(my_distribution2).unwrap();
    let command_chanse2 = Distribution::<2>::new(my_distribution2).unwrap();
    let command_chanse3 = Distribution::<3>::new(my_distribution3).unwrap();
    let basic_card_chanse = Distribution::<2>::new(my_distribution2).unwrap();
    let rules = BusterRules::new(
        set,
        hall_of_fame_chanse,
        hero_chanse,
        command_chanse2,
        command_chanse3,
        basic_card_chanse,
    );
    // THEN
    assert!(rules.is_err());
}

fn rules_with(chance: i64, two: [i64; 2], three: [i64; 3]) -> Result<BusterRules, ConfigError> {
    BusterRules::new(
        CardSet::KOV,
        chance,
        Distribution::<2>::new(two).unwrap(),
        Distribution::<2>::new(two).unwrap(),
        Distribution::<3>::new(three).unwrap(),
        Distribution::<2>::new(two).unwrap(),
    )
}

#[test]
fn rules_name_the_chance_out_of_range() {
    let above = rules_with(1_000_001, [500_000, 500_000], [800_000, 150_000, 50_000]);
    assert_eq!(above.err(), Some(ConfigError::ChanceOutOfRange));
    let below = rules_with(-1, [500_000, 500_000], [800_000, 150_000, 50_000]);
    assert_eq!(below.err(), Some(ConfigError::ChanceOutOfRange));
}

#[test]
fn rules_accept_the_bounds_of_the_chance() {
    assert!(rules_with(0, [500_000, 500_000], [800_000, 150_000, 50_000]).is_ok());
    assert!(rules_with(1_000_000, [500_000, 500_000], [800_000, 150_000, 50_000]).is_ok());
}

#[test]
fn rules_keep_their_set() {
    let rules = rules_with(0, [500_000, 500_000], [800_000, 150_000, 50_000]).unwrap();
    assert_eq!(rules.set(), CardSet::KOV);
}

#[test]
fn hall_of_fame_for_compares_the_sample_with_the_chance() {
    let rules = rules_with(20_000, [500_000, 500_000], [800_000, 150_000, 50_000]).unwrap();
    assert!(rules.hall_of_fame_for(1));
    assert!(rules.hall_of_fame_for(20_000));
    assert!(!rules.hall_of_fame_for(20_001));
    assert!(!rules.hall_of_fame_for(1_000_000));
}

#[test]
fn generate_hall_of_fame_is_certain_at_the_bounds() {
    let never = rules_with(0, [500_000, 500_000], [800_000, 150_000, 50_000]).unwrap();
    let always = rules_with(1_000_000, [500_000, 500_000], [800_000, 150_000, 50_000]).unwrap();
    for _ in 0..200 {
        assert!(!never.generate_hall_of_fame());
        assert!(always.generate_hall_of_fame());
    }
}

#[test]
fn slot_for_follows_the_composition_of_a_pack() {
    assert_eq!(slot_for(0), CardBusterSlot::Hero);
    for position in 1..=3 {
        assert_eq!(slot_for(position), CardBusterSlot::Command);
    }
    for position in 4..BUSTER_SIZE {
        assert_eq!(slot_for(position), CardBusterSlot::BasicCard);
    }
    assert_eq!(BUSTER_SIZE, 18);
}

#[test]
fn rarity_for_reads_each_place_from_its_own_distribution() {
    let rules = BusterRules::new(
        CardSet::BAZ,
        0,
        Distribution::<2>::new([800_000, 200_000]).unwrap(),
        Distribution::<2>::new([750_000, 250_000]).unwrap(),
        Distribution::<3>::new([700_000, 200_000, 100_000]).unwrap(),
        Distribution::<2>::new([600_000, 400_000]).unwrap(),
    )
    .unwrap();
    assert_eq!(rules.rarity_for(0, 800_000), CardRarity::Silver);
    assert_eq!(rules.rarity_for(0, 800_001), CardRarity::Gold);
    assert_eq!(rules.rarity_for(1, 700_000), CardRarity::Bronze);
    assert_eq!(rules.rarity_for(1, 700_001), CardRarity::Silver);
    assert_eq!(rules.rarity_for(1, 900_000), CardRarity::Silver);
    assert_eq!(rules.rarity_for(1, 900_001), CardRarity::Gold);
    assert_eq!(rules.rarity_for(2, 750_000), CardRarity::Silver);
    assert_eq!(rules.rarity_for(2, 750_001), CardRarity::Gold);
    assert_eq!(rules.rarity_for(5, 600_000), CardRarity::Silver);
    assert_eq!(rules.rarity_for(5, 600_001), CardRarity::Gold);
}

#[test]
fn rarity_for_is_fixed_at_the_other_places() {
    let rules = rules_with(500_000, [500_000, 500_000], [800_000, 150_000, 50_000]).unwrap();
    for sample in [1, 500_000, 1_000_000] {
        assert_eq!(rules.rarity_for(3, sample), CardRarity::Bronze);
        assert_eq!(rules.rarity_for(4, sample), CardRarity::Gold);
        assert_eq!(rules.rarity_for(6, sample), CardRarity::Silver);
        for position in 7..BUSTER_SIZE {
            assert_eq!(rules.rarity_for(position, sample), CardRarity::Bronze);
        }
    }
}

#[test]
fn generate_rarity_with_certain_gold() {
    let rules = rules_with(500_000, [0, 1_000_000], [800_000, 150_000, 50_000]).unwrap();
    for _ in 0..50 {
        assert_eq!(rules.generate_rarity(0), CardRarity::Gold);
        assert_eq!(rules.generate_rarity(2), CardRarity::Gold);
        assert_eq!(rules.generate_rarity(3), CardRarity::Bronze);
        assert_eq!(rules.generate_rarity(4), CardRarity::Gold);
        assert_eq!(rules.generate_rarity(5), CardRarity::Gold);
        assert_eq!(rules.generate_rarity(6), CardRarity::Silver);
        for position in 7..BUSTER_SIZE {
            assert_eq!(rules.generate_rarity(position), CardRarity::Bronze);
        }
    }
}

#[test]
fn generate_rarity_with_certain_silver_and_bronze() {
    let rules = rules_with(500_000, [1_000_000, 0], [1_000_000, 0, 0]).unwrap();
    for _ in 0..50 {
        assert_eq!(rules.generate_rarity(0), CardRarity::Silver);
        assert_eq!(rules.generate_rarity(1), CardRarity::Bronze);
        assert_eq!(rules.generate_rarity(2), CardRarity::Silver);
        assert_eq!(rules.generate_rarity(5), CardRarity::Silver);
    }
}

#[test]
fn generate_rarity_never_aims_at_a_bronze_upgrade() {
    let rules = rules_with(500_000, [500_000, 500_000], [800_000, 150_000, 50_000]).unwrap();
    for _ in 0..200 {
        assert_ne!(rules.generate_rarity(0), CardRarity::Bronze);
        assert_ne!(rules.generate_rarity(2), CardRarity::Bronze);
        assert_ne!(rules.generate_rarity(5), CardRarity::Bronze);
    }
}

#[test]
fn generate_hall_of_fame_goes_both_ways_with_an_even_chance() {
    let rules = rules_with(500_000, [500_000, 500_000], [800_000, 150_000, 50_000]).unwrap();
    let mut seen = [false; 2];
    for _ in 0..400 {
        seen[usize::from(rules.generate_hall_of_fame())] = true;
    }
    assert_eq!(seen, [true, true]);
}

fn aimed_rarities(rules: &BusterRules) -> [CardRarity; BUSTER_SIZE] {
    let mut aimed = [CardRarity::Bronze; BUSTER_SIZE];
    for position in 0..BUSTER_SIZE {
        aimed[position] = rules.generate_rarity(position);
    }
    aimed
}

#[test]
fn generate_buster_check_guaranteed_rarities() {
    let rules = rules_with(500_000, [500_000, 500_000], [800_000, 150_000, 50_000]).unwrap();
    let buster = aimed_rarities(&rules);
    // THEN
    assert_ne!(buster[0], CardRarity::Bronze);
    assert_ne!(buster[2], CardRarity::Bronze);
    assert_eq!(buster[3], CardRarity::Bronze);
    assert_eq!(buster[4], CardRarity::Gold);
    assert_ne!(buster[5], CardRarity::Bronze);
    assert_eq!(buster[6], CardRarity::Silver);
    for i in 7..BUSTER_SIZE {
        assert_eq!(buster[i], CardRarity::Bronze);
    }
}

#[test]
fn generate_buster_check_random_rarities_with_1_chanse() {
    // GIVEN
    let hall_of_fame_chanse = 500_000;
    let my_distribution2 = [0, 1_000_000];
    let my_distribution3 = [0, 0, 1_000_000];
    // WHEN
    let rules = rules_with(hall_of_fame_chanse, my_distribution2, my_distribution3).unwrap();
    let buster = aimed_rarities(&rules);
    // THEN
    assert_eq!(buster[0], CardRarity::Gold);
    assert_eq!(buster[1], CardRarity::Gold);
    assert_eq!(buster[2], CardRarity::Gold);
    assert_eq!(buster[5], CardRarity::Gold);
}

#[test]
fn generate_buster_check_random_rarities_with_0_chanse() {
    // GIVEN
    let hall_of_fame_chanse = 500_000;
    let my_distribution2 = [1_000_000, 0];
    let my_distribution3 = [1_000_000, 0, 0];
    // WHEN
    let rules = rules_with(hall_of_fame_chanse, my_distribution2, my_distribution3).unwrap();
    let buster = aimed_rarities(&rules);
    // THEN
    assert_eq!(buster[0], CardRarity::Silver);
    assert_eq!(buster[1], CardRarity::Bronze);
    assert_eq!(buster[2], CardRarity::Silver);
    assert_eq!(buster[5], CardRarity::Silver);
}
