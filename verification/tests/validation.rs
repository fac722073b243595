use deck_check::errors::AppError;
use deck_check::models::{
    aggregate_results, Board, Boards, Card, CardDetails, List, Report, User,
};
use deck_check::validation_results::ValidationResults;

fn results() -> ValidationResults {
    ValidationResults::default()
}

fn card(name: &str, quantity: u32) -> Card {
    Card {
        quantity,
        card: CardDetails {
            id: format!("id-{}", name),
            name: name.to_string(),
            legalities: Vec::new(),
        },
    }
}

fn list_with(mainboard: Vec<Card>, commanders: Vec<Card>) -> List {
    List {
        id: "deck-1".to_string(),
        name: "Test Deck".to_string(),
        format: "commander".to_string(),
        visibility: "public".to_string(),
        created_by_user: User { user_name: "author".to_string() },
        boards: Boards {
            mainboard: Board { count: mainboard.len() as u32, cards: mainboard },
            commanders: Board { count: commanders.len() as u32, cards: commanders },
        },
    }
}

fn partial_a() -> ValidationResults {
    let mut r = results();
    r.mass_land_denial_cards.push(("Armageddon".to_string(), "Destroy all lands.".to_string()));
    r.commander_tutors.push("Sisay".to_string());
    r
}

fn partial_b() -> ValidationResults {
    let mut r = results();
    r.non_land_tutors.push(("Demonic Tutor".to_string(), "Search your library.".to_string()));
    r.combos.push((vec!["A".to_string(), "B".to_string()], "first combo".to_string()));
    r
}

fn partial_c() -> ValidationResults {
    let mut r = results();
    r.gamechangers.push("Sol Ring".to_string());
    r.combos.push((vec!["C".to_string()], "second combo".to_string()));
    r
}

#[test]
fn merge_is_associative() {
    let left = partial_a().merge(partial_b()).merge(partial_c());
    let right = partial_a().merge(partial_b().merge(partial_c()));
    assert_eq!(left.mass_land_denial_cards, right.mass_land_denial_cards);
    assert_eq!(left.non_land_tutors, right.non_land_tutors);
    assert_eq!(left.commander_tutors, right.commander_tutors);
    assert_eq!(left.two_card_combos, right.two_card_combos);
    assert_eq!(left.gamechangers, right.gamechangers);
    assert_eq!(left.infinite_turns_combos, right.infinite_turns_combos);
    assert_eq!(left.combos, right.combos);
}

#[test]
fn merge_concatenates_in_call_order() {
    let mut a = results();
    a.gamechangers.push("First".to_string());
    let mut b = results();
    b.gamechangers.push("Second".to_string());
    let merged = a.merge(b);
    assert_eq!(merged.gamechangers, vec!["First".to_string(), "Second".to_string()]);
}

#[test]
fn merge_combo_field_takes_first_non_empty() {
    // Whatever the grouping, the combo list of the fold is the first
    // non-empty one in evaluation order: partial_b's.
    let merged = partial_a().merge(partial_b()).merge(partial_c());
    assert_eq!(
        merged.combos,
        vec![(vec!["A".to_string(), "B".to_string()], "first combo".to_string())]
    );
    let merged = partial_b().merge(partial_c());
    assert_eq!(
        merged.combos,
        vec![(vec!["A".to_string(), "B".to_string()], "first combo".to_string())]
    );
    let merged = results().merge(partial_c());
    assert_eq!(
        merged.combos,
        vec![(vec!["C".to_string()], "second combo".to_string())]
    );
}

#[test]
fn is_valid_tolerates_three_non_land_tutors() {
    let mut r = results();
    for i in 0..3 {
        r.non_land_tutors.push((format!("Tutor {}", i), "Search.".to_string()));
    }
    assert!(r.is_valid());
}

#[test]
fn is_valid_rejects_four_non_land_tutors() {
    let mut r = results();
    for i in 0..4 {
        r.non_land_tutors.push((format!("Tutor {}", i), "Search.".to_string()));
    }
    assert!(!r.is_valid());
}

#[test]
fn is_valid_rejects_any_other_finding() {
    let mut r = results();
    r.commander_tutors.push("Sisay".to_string());
    assert!(!r.is_valid());

    let mut r = results();
    r.mass_land_denial_cards.push(("Armageddon".to_string(), "text".to_string()));
    assert!(!r.is_valid());

    let mut r = results();
    r.gamechangers.push("Sol Ring".to_string());
    assert!(!r.is_valid());

    let mut r = results();
    r.two_card_combos.push((vec!["A".to_string(), "B".to_string()], "combo".to_string()));
    assert!(!r.is_valid());

    let mut r = results();
    r.infinite_turns_combos.push(vec!["A".to_string(), "B".to_string()]);
    assert!(!r.is_valid());

    // The informational full combo list never affects validity.
    let mut r = results();
    r.combos.push((vec!["A".to_string(), "B".to_string()], "combo".to_string()));
    assert!(r.is_valid());
}

#[test]
fn aggregate_returns_first_error() {
    let outcomes: Vec<Result<ValidationResults, AppError>> = vec![
        Ok(partial_a()),
        Err(AppError::ScryfallApiError("boom".to_string())),
        Err(AppError::SpellbookApiError("later".to_string())),
    ];
    match aggregate_results(outcomes) {
        Err(AppError::ScryfallApiError(msg)) => assert_eq!(msg, "boom"),
        other => panic!("expected the first error, got {:?}", other.map(|r| r.commander_tutors)),
    }
}

#[test]
fn aggregate_merges_all_successes() {
    let outcomes: Vec<Result<ValidationResults, AppError>> =
        vec![Ok(partial_a()), Ok(partial_b()), Ok(partial_c())];
    let merged = aggregate_results(outcomes).unwrap();
    assert_eq!(merged.mass_land_denial_cards.len(), 1);
    assert_eq!(merged.non_land_tutors.len(), 1);
    assert_eq!(merged.commander_tutors, vec!["Sisay".to_string()]);
    assert_eq!(merged.gamechangers, vec!["Sol Ring".to_string()]);
    assert_eq!(
        merged.combos,
        vec![(vec!["A".to_string(), "B".to_string()], "first combo".to_string())]
    );
}

#[test]
fn report_new_starts_empty_and_invalid() {
    let r = Report::new("Deck".to_string(), "Author".to_string(), Vec::new());
    assert!(!r.is_valid);
    assert_eq!(r.name, "Deck");
    assert_eq!(r.author, "Author");
    assert!(r.non_land_tutors.is_empty());
    assert!(r.mass_land_denial_cards.is_empty());
    assert!(r.commander_tutors.is_empty());
    assert!(r.two_card_combos.is_empty());
    assert!(r.gamechangers.is_empty());
    assert!(r.infinite_turns_combos.is_empty());
    assert!(r.combos.is_empty());
}

#[test]
fn build_report_snapshots_mainboard_and_validity() {
    let list = list_with(
        vec![card("Llanowar Elves", 1), card("Forest", 30)],
        vec![card("Sisay", 1)],
    );
    let mut findings = results();
    findings.commander_tutors.push("Sisay".to_string());
    let report = list.build_report(findings);
    assert_eq!(report.name, "Test Deck");
    assert_eq!(report.author, "author");
    assert!(!report.is_valid);
    assert_eq!(report.commander_tutors, vec!["Sisay".to_string()]);
    assert_eq!(report.deck_list.len(), 2);
    assert_eq!(report.deck_list[0].card, "Llanowar Elves");
    assert_eq!(report.deck_list[0].quantity, 1);
    assert_eq!(report.deck_list[1].card, "Forest");
    assert_eq!(report.deck_list[1].quantity, 30);
}

#[test]
fn deck_list_and_card_names_follow_board_order() {
    let list = list_with(vec![card("Alpha", 2), card("Beta", 1)], vec![card("Gamma", 1)]);
    let snapshot = list.deck_list();
    assert_eq!(snapshot.len(), 2);
    assert_eq!(snapshot[0].card, "Alpha");
    assert_eq!(snapshot[1].card, "Beta");
    let names = list.card_names();
    assert_eq!(
        names,
        vec!["Alpha".to_string(), "Beta".to_string(), "Gamma".to_string()]
    );
}
