use deck_check::errors::AppError;
use deck_check::models::{
    aggregate_results, Board, Boards, Card, CardDetails, ComboCard, ComboEffect, ComboList,
    ComboListIncluded, Effect, Ingredient, List, User,
};
use deck_check::validation_results::ValidationResults;
use deck_check::validators::{
    CommanderTutorValidator, GamechangerValidator, InfiniteTurnsValidator, MassLandDenialValidator,
    NonLandTutorValidator, TwoCardComboValidator,
};

fn card(name: &str, quantity: u32) -> Card {
    Card {
        quantity,
        card: CardDetails {
            id: format!("id-{}", name),
            name: name.to_string(),
            legalities: Vec::new(),
        },
    }
}

fn list_with(mainboard: Vec<Card>, commanders: Vec<Card>) -> List {
    List {
        id: "deck-1".to_string(),
        name: "Test Deck".to_string(),
        format: "commander".to_string(),
        visibility: "public".to_string(),
        created_by_user: User { user_name: "author".to_string() },
        boards: Boards {
            mainboard: Board { count: mainboard.len() as u32, cards: mainboard },
            commanders: Board { count: commanders.len() as u32, cards: commanders },
        },
    }
}

fn no_match() -> Result<Option<String>, AppError> {
    Ok(None)
}

fn matched(text: &str) -> Result<Option<String>, AppError> {
    Ok(Some(text.to_string()))
}

fn combo(id: &str, cards: &[&str], effect_name: &str, description: &str) -> ComboListIncluded {
    ComboListIncluded {
        id: id.to_string(),
        uses: cards
            .iter()
            .map(|name| Ingredient { card: ComboCard { name: name.to_string() } })
            .collect(),
        produces: vec![ComboEffect {
            feature: Effect {
                id: 1,
                name: effect_name.to_string(),
                status: "ok".to_string(),
                uncountable: false,
            },
        }],
        description: description.to_string(),
    }
}

#[test]
fn validator_names() {
    assert_eq!(MassLandDenialValidator.name(), "Mass Land Denial");
    assert_eq!(NonLandTutorValidator.name(), "Non-Land Tutors");
    assert_eq!(CommanderTutorValidator.name(), "Commander Tutors");
    assert_eq!(TwoCardComboValidator.name(), "Two-Card Combos");
    assert_eq!(GamechangerValidator.name(), "Gamechangers");
    assert_eq!(InfiniteTurnsValidator.name(), "Infinite Turns");
}

#[test]
fn queries_encode_card_names() {
    let list = list_with(vec![card("Demonic Tutor", 1)], vec![card("Captain Sisay", 1)]);
    let queries = NonLandTutorValidator.queries(&list);
    assert_eq!(
        queries,
        vec![
            "https://api.scryfall.com/cards/search?q=f:edh+otag:tutor+-otag:tutor-land+!\"Demonic+Tutor\""
                .to_string()
        ]
    );
    let queries = MassLandDenialValidator.queries(&list);
    assert_eq!(queries.len(), 2);
    assert_eq!(
        queries[0],
        "https://api.scryfall.com/cards/search?q=f:edh+otag:mass-land-denial+!\"Demonic+Tutor\""
    );
    assert_eq!(
        queries[1],
        "https://api.scryfall.com/cards/search?q=f:edh+otag:mass-land-denial+!\"Captain+Sisay\""
    );
    let queries = CommanderTutorValidator.queries(&list);
    assert_eq!(
        queries,
        vec![
            "https://api.scryfall.com/cards/search?q=f:edh+otag:tutor+-otag:tutor-land+!\"Captain+Sisay\""
                .to_string()
        ]
    );
    let queries = GamechangerValidator.queries(&list);
    assert_eq!(
        queries[1],
        "https://api.scryfall.com/cards/search?q=f:edh+is:gamechanger+!\"Captain+Sisay\""
    );
}

#[test]
fn mass_land_denial_records_matches_with_text() {
    let list = list_with(vec![card("Armageddon", 1), card("Forest", 10)], vec![card("Sisay", 1)]);
    let answers = vec![matched("Destroy all lands."), no_match(), no_match()];
    let results = MassLandDenialValidator.check(&list, &answers).unwrap();
    assert_eq!(
        results.mass_land_denial_cards,
        vec![("Armageddon".to_string(), "Destroy all lands.".to_string())]
    );
    assert!(results.non_land_tutors.is_empty());
    assert!(results.commander_tutors.is_empty());
    assert!(results.gamechangers.is_empty());
}

#[test]
fn mass_land_denial_propagates_first_transport_failure() {
    let list = list_with(vec![card("Armageddon", 1)], vec![card("Sisay", 1)]);
    let answers = vec![
        Err(AppError::ScryfallApiError("timeout".to_string())),
        Err(AppError::ScryfallApiError("second".to_string())),
    ];
    match MassLandDenialValidator.check(&list, &answers) {
        Err(AppError::ScryfallApiError(msg)) => assert_eq!(msg, "timeout"),
        other => panic!("expected the first transport failure, got {:?}", other.is_ok()),
    }
}

#[test]
fn every_error_variant_passes_through_unchanged() {
    let list = list_with(vec![card("Forest", 1)], vec![]);
    let variants: Vec<AppError> = vec![
        AppError::MoxfieldApiError("m".to_string()),
        AppError::ScryfallApiError("s".to_string()),
        AppError::SpellbookApiError("b".to_string()),
        AppError::EnvVarMissing("e".to_string()),
        AppError::Internal("i".to_string()),
    ];
    for variant in variants {
        let answers = vec![Err(variant.clone())];
        let err = NonLandTutorValidator.check(&list, &answers).unwrap_err();
        match (&variant, &err) {
            (AppError::MoxfieldApiError(a), AppError::MoxfieldApiError(b)) => assert_eq!(a, b),
            (AppError::ScryfallApiError(a), AppError::ScryfallApiError(b)) => assert_eq!(a, b),
            (AppError::SpellbookApiError(a), AppError::SpellbookApiError(b)) => assert_eq!(a, b),
            (AppError::EnvVarMissing(a), AppError::EnvVarMissing(b)) => assert_eq!(a, b),
            (AppError::Internal(a), AppError::Internal(b)) => assert_eq!(a, b),
            other => panic!("variant changed in transit: {:?}", other),
        }
    }
}

#[test]
fn non_land_tutor_scans_mainboard_only() {
    let list = list_with(vec![card("Demonic Tutor", 1), card("Forest", 10)], vec![card("Sisay", 1)]);
    let answers = vec![matched("Search your library for a card."), no_match()];
    let results = NonLandTutorValidator.check(&list, &answers).unwrap();
    assert_eq!(
        results.non_land_tutors,
        vec![("Demonic Tutor".to_string(), "Search your library for a card.".to_string())]
    );
}

#[test]
fn gamechanger_records_names_only() {
    let list = list_with(vec![card("Sol Ring", 1)], vec![card("Sisay", 1)]);
    let answers = vec![matched("irrelevant text"), matched("also irrelevant")];
    let results = GamechangerValidator.check(&list, &answers).unwrap();
    assert_eq!(results.gamechangers, vec!["Sol Ring".to_string(), "Sisay".to_string()]);
    assert!(results.mass_land_denial_cards.is_empty());
}

#[test]
fn commander_tutor_flags_commander() {
    // A deck whose single commander is a known tutor and nothing else is
    // flagged anywhere: only the commander-tutor list fills, and the deck is
    // invalid.
    let list = list_with(vec![card("Forest", 40)], vec![card("Captain Sisay", 1)]);
    let six_outcomes: Vec<Result<ValidationResults, AppError>> = vec![
        MassLandDenialValidator.check(&list, &vec![no_match(), no_match()]),
        NonLandTutorValidator.check(&list, &vec![no_match()]),
        CommanderTutorValidator.check(&list, &vec![matched("Search your library.")]),
        GamechangerValidator.check(&list, &vec![no_match(), no_match()]),
        Ok(InfiniteTurnsValidator.check(&ComboList { included: Vec::new() })),
        Ok(TwoCardComboValidator.check(&ComboList { included: Vec::new() })),
    ];
    let aggregate = aggregate_results(six_outcomes).unwrap();
    assert_eq!(aggregate.commander_tutors, vec!["Captain Sisay".to_string()]);
    assert!(aggregate.mass_land_denial_cards.is_empty());
    assert!(aggregate.non_land_tutors.is_empty());
    assert!(aggregate.two_card_combos.is_empty());
    assert!(aggregate.gamechangers.is_empty());
    assert!(aggregate.infinite_turns_combos.is_empty());
    assert!(!aggregate.is_valid());
    let report = list.build_report(aggregate);
    assert!(!report.is_valid);
    assert_eq!(report.commander_tutors, vec!["Captain Sisay".to_string()]);
}

#[test]
fn three_non_land_tutors_keep_deck_valid() {
    // Exactly three mainboard tutors and nothing else flagged: the deck
    // stays valid.
    let list = list_with(
        vec![card("Tutor One", 1), card("Tutor Two", 1), card("Tutor Three", 1), card("Forest", 30)],
        vec![card("Plain Commander", 1)],
    );
    let six_outcomes: Vec<Result<ValidationResults, AppError>> = vec![
        MassLandDenialValidator
            .check(&list, &vec![no_match(), no_match(), no_match(), no_match(), no_match()]),
        NonLandTutorValidator.check(
            &list,
            &vec![matched("Search one."), matched("Search two."), matched("Search three."), no_match()],
        ),
        CommanderTutorValidator.check(&list, &vec![no_match()]),
        GamechangerValidator
            .check(&list, &vec![no_match(), no_match(), no_match(), no_match(), no_match()]),
        Ok(TwoCardComboValidator.check(&ComboList { included: Vec::new() })),
        Ok(InfiniteTurnsValidator.check(&ComboList { included: Vec::new() })),
    ];
    let aggregate = aggregate_results(six_outcomes).unwrap();
    assert_eq!(aggregate.non_land_tutors.len(), 3);
    assert!(aggregate.is_valid());
    let report = list.build_report(aggregate);
    assert!(report.is_valid);
}

#[test]
fn two_card_combo_keeps_small_combos_and_full_list() {
    let combos = ComboList {
        included: vec![
            combo("small", &["A", "B"], "Infinite mana", "two cards"),
            combo("big", &["A", "B", "C"], "Infinite mana", "three cards"),
            combo("single", &["D"], "Win the game", "one card"),
        ],
    };
    let results = TwoCardComboValidator.check(&combos);
    assert_eq!(
        results.two_card_combos,
        vec![
            (vec!["A".to_string(), "B".to_string()], "two cards".to_string()),
            (vec!["D".to_string()], "one card".to_string()),
        ]
    );
    assert_eq!(results.combos.len(), 3);
    assert!(results.infinite_turns_combos.is_empty());
}

#[test]
fn infinite_turns_matches_turns_substring() {
    let combos = ComboList {
        included: vec![
            combo("turns", &["A", "B"], "Infinite turns", "take them all"),
            combo("mana", &["C", "D"], "Infinite mana", "plain ramp"),
        ],
    };
    let results = InfiniteTurnsValidator.check(&combos);
    assert_eq!(results.infinite_turns_combos, vec![vec!["A".to_string(), "B".to_string()]]);
    assert_eq!(results.combos.len(), 2);
}

#[test]
fn turns_filter_ignores_letter_case() {
    // The effect filter folds ASCII case before the substring test, so a
    // capitalized "Extra Turns" is matched like a lowercase "turns".
    let combos = ComboList {
        included: vec![
            combo("caps", &["A", "B"], "Extra Turns", "capitalized"),
            combo("upper", &["C", "D"], "INFINITE TURNS", "shouted"),
            combo("mana", &["E", "F"], "Infinite Mana", "no turns effect"),
        ],
    };
    let results = InfiniteTurnsValidator.check(&combos);
    assert_eq!(
        results.infinite_turns_combos,
        vec![
            vec!["A".to_string(), "B".to_string()],
            vec!["C".to_string(), "D".to_string()],
        ]
    );
}

#[test]
fn combo_validators_report_shared_combo_once() {
    // One discovered combo of two cards whose effect grants extra turns:
    // both combo validators flag it, yet the aggregate's full combo list
    // holds it exactly once.
    let discovered = ComboList {
        included: vec![combo(
            "combo-1",
            &["Time Vault", "Voltaic Key"],
            "Extra Turns",
            "untap and repeat",
        )],
    };
    let two_card = TwoCardComboValidator.check(&discovered);
    let turns = InfiniteTurnsValidator.check(&discovered);
    let aggregate = two_card.merge(turns);
    assert_eq!(
        aggregate.two_card_combos,
        vec![(
            vec!["Time Vault".to_string(), "Voltaic Key".to_string()],
            "untap and repeat".to_string()
        )]
    );
    assert_eq!(
        aggregate.infinite_turns_combos,
        vec![vec!["Time Vault".to_string(), "Voltaic Key".to_string()]]
    );
    assert_eq!(
        aggregate.combos,
        vec![(
            vec!["Time Vault".to_string(), "Voltaic Key".to_string()],
            "untap and repeat".to_string()
        )]
    );
    assert!(!aggregate.is_valid());
}
