//! The six deck checks. Each validator turns the deck list into the oracle
//! queries it needs (or the combo pool), and turns the providers' answers
//! into its partial result set. The network calls themselves are the
//! caller's: a validator's `check` receives one answer per query, in query
//! order, and never performs a lookup itself.

use vstd::prelude::*;
use vstd::string::StringExecFns;

use crate::errors::{first_error, lemma_first_error_concat, lemma_first_error_skip, AppError};
use crate::models::{
    all_cards, combo_entries, infinite_turns_entries, two_card_entries, Card, ComboList, List,
};
use crate::text::{replace_char, replaced};
use crate::validation_results::{
    empty_results, lemma_deep_view_of_concat, lemma_deep_view_push, ResultsModel,
    ValidationResults,
};

verus! {

/// An oracle search address: the fixed search endpoint, the check's tag
/// filter, and the card name quoted exactly, with spaces encoded as plus
/// signs.
pub open spec fn spec_search_query(filter: Seq<char>, name: Seq<char>) -> Seq<char> {
    "https://api.scryfall.com/cards/search?q=f:edh+"@ + filter + "+!\""@ + replaced(
        name,
        ' ',
        '+',
    ) + "\""@
}

/// The oracle queries a check issues for a sequence of deck entries: one per
/// card, in order.
pub open spec fn queries_of(cards: Seq<Card>, filter: Seq<char>) -> Seq<Seq<char>> {
    cards.map_values(|c: Card| spec_search_query(filter, c.card.name@))
}

/// The (card name, oracle text) findings of an oracle scan: one pair per
/// card whose answer reported a match, in card order.
pub open spec fn oracle_pairs(
    cards: Seq<Card>,
    answers: Seq<Result<Option<String>, AppError>>,
) -> Seq<(Seq<char>, Seq<char>)>
    decreases cards.len(),
{
    if cards.len() == 0 {
        Seq::empty()
    } else {
        oracle_pairs(cards.drop_last(), answers.drop_last()) + match answers.last() {
            Result::Ok(Some(t)) => seq![(cards.last().card.name@, t@)],
            _ => Seq::empty(),
        }
    }
}

/// The card names of an oracle scan: one per card whose answer reported a
/// match, in card order.
pub open spec fn oracle_names(
    cards: Seq<Card>,
    answers: Seq<Result<Option<String>, AppError>>,
) -> Seq<Seq<char>>
    decreases cards.len(),
{
    if cards.len() == 0 {
        Seq::empty()
    } else {
        oracle_names(cards.drop_last(), answers.drop_last()) + match answers.last() {
            Result::Ok(Some(_)) => seq![cards.last().card.name@],
            _ => Seq::empty(),
        }
    }
}

/// Splitting the cards and their answers at the same point splits the
/// findings.
pub proof fn lemma_oracle_pairs_concat(
    a: Seq<Card>,
    b: Seq<Card>,
    x: Seq<Result<Option<String>, AppError>>,
    y: Seq<Result<Option<String>, AppError>>,
)
    requires
        a.len() == x.len(),
        b.len() == y.len(),
    ensures
        oracle_pairs(a + b, x + y) == oracle_pairs(a, x) + oracle_pairs(b, y),
    decreases b.len(),
{
    if b.len() == 0 {
        assert(a + b =~= a);
        assert(x + y =~= x);
        assert(oracle_pairs(a, x) + oracle_pairs(b, y) =~= oracle_pairs(a, x));
    } else {
        lemma_oracle_pairs_concat(a, b.drop_last(), x, y.drop_last());
        assert((a + b).drop_last() =~= a + b.drop_last());
        assert((x + y).drop_last() =~= x + y.drop_last());
        assert((a + b).last() == b.last());
        assert((x + y).last() == y.last());
        assert(oracle_pairs(a, x) + oracle_pairs(b, y) =~= oracle_pairs(a, x) + oracle_pairs(
            b.drop_last(),
            y.drop_last(),
        ) + match y.last() {
            Result::Ok(Some(t)) => seq![(b.last().card.name@, t@)],
            _ => Seq::empty(),
        });
    }
}

/// Splitting the cards and their answers at the same point splits the
/// matched names.
pub proof fn lemma_oracle_names_concat(
    a: Seq<Card>,
    b: Seq<Card>,
    x: Seq<Result<Option<String>, AppError>>,
    y: Seq<Result<Option<String>, AppError>>,
)
    requires
        a.len() == x.len(),
        b.len() == y.len(),
    ensures
        oracle_names(a + b, x + y) == oracle_names(a, x) + oracle_names(b, y),
    decreases b.len(),
{
    if b.len() == 0 {
        assert(a + b =~= a);
        assert(x + y =~= x);
        assert(oracle_names(a, x) + oracle_names(b, y) =~= oracle_names(a, x));
    } else {
        lemma_oracle_names_concat(a, b.drop_last(), x, y.drop_last());
        assert((a + b).drop_last() =~= a + b.drop_last());
        assert((x + y).drop_last() =~= x + y.drop_last());
        assert((a + b).last() == b.last());
        assert((x + y).last() == y.last());
        assert(oracle_names(a, x) + oracle_names(b, y) =~= oracle_names(a, x) + oracle_names(
            b.drop_last(),
            y.drop_last(),
        ) + match y.last() {
            Result::Ok(Some(_)) => seq![b.last().card.name@],
            _ => Seq::empty(),
        });
    }
}

/// One oracle search address for `card_name` under the given tag filter.
fn search_query(filter: &str, card_name: &String) -> (q: String)
    ensures
        q@ == spec_search_query(filter@, card_name@),
{
    let mut q = String::from_str("https://api.scryfall.com/cards/search?q=f:edh+");
    q.append(filter);
    q.append("+!\"");
    let encoded = replace_char(card_name.as_str(), ' ', '+');
    q.append(encoded.as_str());
    q.append("\"");
    q
}

/// The oracle queries for each card in `cards`, in order, under one filter.
#[verifier::loop_isolation(false)]
fn build_queries(cards: &Vec<Card>, filter: &str) -> (r: Vec<String>)
    ensures
        r.deep_view() == queries_of(cards@, filter@),
{
    let mut r: Vec<String> = Vec::new();
    let mut i: usize = 0;
    proof {
        assert(r.deep_view() =~= queries_of(cards@.take(0), filter@));
    }
    while i < cards.len()
        invariant
            i <= cards.len(),
            r.deep_view() == queries_of(cards@.take(i as int), filter@),
        decreases cards.len() - i,
    {
        let ghost pre = r;
        let q = search_query(filter, &cards[i].card.name);
        let ghost qv = q;
        r.push(q);
        proof {
            lemma_deep_view_push(r, pre, qv);
            assert(queries_of(cards@.take(i + 1), filter@) =~= queries_of(
                cards@.take(i as int),
                filter@,
            ).push(spec_search_query(filter@, cards@[i as int].card.name@)));
        }
        i = i + 1;
    }
    proof {
        assert(cards@.take(cards@.len() as int) =~= cards@);
    }
    r
}

/// Scans the answers for one segment of cards, keeping (name, oracle text)
/// for every reported match and stopping at the first transport failure.
#[verifier::loop_isolation(false)]
fn collect_pairs(
    cards: &Vec<Card>,
    answers: &Vec<Result<Option<String>, AppError>>,
    start: usize,
) -> (r: Result<Vec<(String, String)>, AppError>)
    requires
        start + cards@.len() <= answers@.len(),
    ensures
        match r {
            Result::Ok(v) => {
                &&& first_error(answers@.subrange(start as int, start + cards@.len())) is None
                &&& v.deep_view() == oracle_pairs(
                    cards@,
                    answers@.subrange(start as int, start + cards@.len()),
                )
            },
            Result::Err(e) => first_error(answers@.subrange(start as int, start + cards@.len()))
                == Some(e),
        },
{
    let ghost seg = answers@.subrange(start as int, start + cards@.len());
    let total = answers.len();
    proof {
        assert(start + cards@.len() <= total);
    }
    let mut out: Vec<(String, String)> = Vec::new();
    let mut i: usize = 0;
    proof {
        assert(out.deep_view() =~= oracle_pairs(cards@.take(0), seg.take(0)));
    }
    while i < cards.len()
        invariant
            i <= cards.len(),
            forall|j: int| 0 <= j < i ==> seg[j] is Ok,
            out.deep_view() == oracle_pairs(cards@.take(i as int), seg.take(i as int)),
        decreases cards.len() - i,
    {
        proof {
            assert(seg[i as int] == answers@[start + i]);
            assert(cards@.take(i + 1).drop_last() =~= cards@.take(i as int));
            assert(seg.take(i + 1).drop_last() =~= seg.take(i as int));
        }
        match &answers[start + i] {
            Result::Err(e) => {
                proof {
                    lemma_first_error_skip(seg, i as int);
                    assert(seg.skip(i as int)[0] == seg[i as int]);
                }
                return Result::Err(e.clone());
            },
            Result::Ok(answer) => {
                let ghost pre = out;
                match answer {
                    Some(text) => {
                        let entry = (cards[i].card.name.clone(), text.clone());
                        let ghost ev = entry;
                        out.push(entry);
                        proof {
                            lemma_deep_view_push(out, pre, ev);
                            assert(pre.deep_view().push(ev.deep_view()) =~= pre.deep_view()
                                + seq![(cards@[i as int].card.name@, text@)]);
                        }
                    },
                    None => {
                        proof {
                            assert(out.deep_view() =~= out.deep_view() + Seq::empty());
                        }
                    },
                }
            },
        }
        i = i + 1;
    }
    proof {
        lemma_first_error_skip(seg, seg.len() as int);
        assert(seg.skip(seg.len() as int) =~= Seq::<Result<Option<String>, AppError>>::empty());
        assert(cards@.take(cards@.len() as int) =~= cards@);
        assert(seg.take(seg.len() as int) =~= seg);
    }
    Result::Ok(out)
}

/// Scans the answers for one segment of cards, keeping the card name for
/// every reported match and stopping at the first transport failure.
#[verifier::loop_isolation(false)]
fn collect_names(
    cards: &Vec<Card>,
    answers: &Vec<Result<Option<String>, AppError>>,
    start: usize,
) -> (r: Result<Vec<String>, AppError>)
    requires
        start + cards@.len() <= answers@.len(),
    ensures
        match r {
            Result::Ok(v) => {
                &&& first_error(answers@.subrange(start as int, start + cards@.len())) is None
                &&& v.deep_view() == oracle_names(
                    cards@,
                    answers@.subrange(start as int, start + cards@.len()),
                )
            },
            Result::Err(e) => first_error(answers@.subrange(start as int, start + cards@.len()))
                == Some(e),
        },
{
    let ghost seg = answers@.subrange(start as int, start + cards@.len());
    let total = answers.len();
    proof {
        assert(start + cards@.len() <= total);
    }
    let mut out: Vec<String> = Vec::new();
    let mut i: usize = 0;
    proof {
        assert(out.deep_view() =~= oracle_names(cards@.take(0), seg.take(0)));
    }
    while i < cards.len()
        invariant
            i <= cards.len(),
            forall|j: int| 0 <= j < i ==> seg[j] is Ok,
            out.deep_view() == oracle_names(cards@.take(i as int), seg.take(i as int)),
        decreases cards.len() - i,
    {
        proof {
            assert(seg[i as int] == answers@[start + i]);
            assert(cards@.take(i + 1).drop_last() =~= cards@.take(i as int));
            assert(seg.take(i + 1).drop_last() =~= seg.take(i as int));
        }
        match &answers[start + i] {
            Result::Err(e) => {
                proof {
                    lemma_first_error_skip(seg, i as int);
                    assert(seg.skip(i as int)[0] == seg[i as int]);
                }
                return Result::Err(e.clone());
            },
            Result::Ok(answer) => {
                let ghost pre = out;
                match answer {
                    Some(_) => {
                        let name = cards[i].card.name.clone();
                        let ghost nv = name;
                        out.push(name);
                        proof {
                            lemma_deep_view_push(out, pre, nv);
                            assert(pre.deep_view().push(nv@) =~= pre.deep_view() + seq![
                                cards@[i as int].card.name@,
                            ]);
                        }
                    },
                    None => {
                        proof {
                            assert(out.deep_view() =~= out.deep_view() + Seq::empty());
                        }
                    },
                }
            },
        }
        i = i + 1;
    }
    proof {
        lemma_first_error_skip(seg, seg.len() as int);
        assert(seg.skip(seg.len() as int) =~= Seq::<Result<Option<String>, AppError>>::empty());
        assert(cards@.take(cards@.len() as int) =~= cards@);
        assert(seg.take(seg.len() as int) =~= seg);
    }
    Result::Ok(out)
}

/// Flags every deck card (mainboard and commanders) tagged as mass land
/// denial, keeping the matching oracle text.
pub struct MassLandDenialValidator;

/// Flags every mainboard tutor that does not fetch lands, keeping the
/// matching oracle text.
pub struct NonLandTutorValidator;

/// Flags every commander-zone card that is a tutor (names only).
pub struct CommanderTutorValidator;

/// Flags every combo in the pool that needs at most two distinct cards, and
/// records the full combo list.
pub struct TwoCardComboValidator;

/// Flags every deck card tagged as a designated gamechanger (names only).
pub struct GamechangerValidator;

/// Flags every combo in the pool whose effect grants extra turns, and
/// records the full combo list.
pub struct InfiniteTurnsValidator;

impl MassLandDenialValidator {
    pub fn name(&self) -> (r: &'static str)
        ensures
            r@ == "Mass Land Denial"@,
    {
        "Mass Land Denial"
    }

    /// One oracle query per deck card, mainboard first, then commanders.
    pub fn queries(&self, list: &List) -> (r: Vec<String>)
        ensures
            r.deep_view() == queries_of(all_cards(*list), "otag:mass-land-denial"@),
    {
        let mut r = build_queries(&list.boards.mainboard.cards, "otag:mass-land-denial");
        let ghost a = r;
        let mut more = build_queries(&list.boards.commanders.cards, "otag:mass-land-denial");
        let ghost b = more;
        r.append(&mut more);
        proof {
            lemma_deep_view_of_concat(r, a, b);
            assert(queries_of(all_cards(*list), "otag:mass-land-denial"@) =~= queries_of(
                list.boards.mainboard.cards@,
                "otag:mass-land-denial"@,
            ) + queries_of(list.boards.commanders.cards@, "otag:mass-land-denial"@));
        }
        r
    }

    /// Scans one answer per deck card: every reported match is a finding;
    /// the first transport failure fails the check with that error.
    pub fn check(&self, list: &List, answers: &Vec<Result<Option<String>, AppError>>) -> (r:
        Result<ValidationResults, AppError>)
        requires
            answers@.len() == all_cards(*list).len(),
        ensures
            match r {
                Result::Ok(res) => first_error(answers@) is None && res@ == (ResultsModel {
                    mass_land_denial_cards: oracle_pairs(all_cards(*list), answers@),
                    ..empty_results()
                }),
                Result::Err(e) => first_error(answers@) == Some(e),
            },
    {
        let main = &list.boards.mainboard.cards;
        let cmd = &list.boards.commanders.cards;
        let ghost seg1 = answers@.subrange(0, main@.len() as int);
        let ghost seg2 = answers@.subrange(main@.len() as int, answers@.len() as int);
        proof {
            assert(seg1 + seg2 =~= answers@);
            lemma_first_error_concat::<Option<String>>(seg1, seg2);
        }
        match collect_pairs(main, answers, 0) {
            Result::Err(e) => Result::Err(e),
            Result::Ok(first_part) => {
                match collect_pairs(cmd, answers, main.len()) {
                    Result::Err(e) => Result::Err(e),
                    Result::Ok(mut second_part) => {
                        let mut found = first_part;
                        let ghost a = found;
                        let ghost b = second_part;
                        found.append(&mut second_part);
                        let mut results = ValidationResults::default();
                        results.mass_land_denial_cards = found;
                        proof {
                            lemma_deep_view_of_concat(
                                results.mass_land_denial_cards,
                                a,
                                b,
                            );
                            lemma_oracle_pairs_concat(main@, cmd@, seg1, seg2);
                            assert(results@ =~= (ResultsModel {
                                mass_land_denial_cards: oracle_pairs(all_cards(*list), answers@),
                                ..empty_results()
                            }));
                        }
                        Result::Ok(results)
                    },
                }
            },
        }
    }
}

impl NonLandTutorValidator {
    pub fn name(&self) -> (r: &'static str)
        ensures
            r@ == "Non-Land Tutors"@,
    {
        "Non-Land Tutors"
    }

    /// One oracle query per mainboard card.
    pub fn queries(&self, list: &List) -> (r: Vec<String>)
        ensures
            r.deep_view() == queries_of(
                list.boards.mainboard.cards@,
                "otag:tutor+-otag:tutor-land"@,
            ),
    {
        build_queries(&list.boards.mainboard.cards, "otag:tutor+-otag:tutor-land")
    }

    /// Scans one answer per mainboard card: every reported match is a
    /// finding; the first transport failure fails the check with that error.
    pub fn check(&self, list: &List, answers: &Vec<Result<Option<String>, AppError>>) -> (r:
        Result<ValidationResults, AppError>)
        requires
            answers@.len() == list.boards.mainboard.cards@.len(),
        ensures
            match r {
                Result::Ok(res) => first_error(answers@) is None && res@ == (ResultsModel {
                    non_land_tutors: oracle_pairs(list.boards.mainboard.cards@, answers@),
                    ..empty_results()
                }),
                Result::Err(e) => first_error(answers@) == Some(e),
            },
    {
        let main = &list.boards.mainboard.cards;
        proof {
            assert(answers@.subrange(0, main@.len() as int) =~= answers@);
        }
        match collect_pairs(main, answers, 0) {
            Result::Err(e) => Result::Err(e),
            Result::Ok(found) => {
                let mut results = ValidationResults::default();
                results.non_land_tutors = found;
                proof {
                    assert(results@ =~= (ResultsModel {
                        non_land_tutors: oracle_pairs(main@, answers@),
                        ..empty_results()
                    }));
                }
                Result::Ok(results)
            },
        }
    }
}

impl CommanderTutorValidator {
    pub fn name(&self) -> (r: &'static str)
        ensures
            r@ == "Commander Tutors"@,
    {
        "Commander Tutors"
    }

    /// One oracle query per commander-zone card, under the same tutor filter
    /// as the mainboard scan.
    pub fn queries(&self, list: &List) -> (r: Vec<String>)
        ensures
            r.deep_view() == queries_of(
                list.boards.commanders.cards@,
                "otag:tutor+-otag:tutor-land"@,
            ),
    {
        build_queries(&list.boards.commanders.cards, "otag:tutor+-otag:tutor-land")
    }

    /// Scans one answer per commander: a match flags the commander by name;
    /// the first transport failure fails the check with that error.
    pub fn check(&self, list: &List, answers: &Vec<Result<Option<String>, AppError>>) -> (r:
        Result<ValidationResults, AppError>)
        requires
            answers@.len() == list.boards.commanders.cards@.len(),
        ensures
            match r {
                Result::Ok(res) => first_error(answers@) is None && res@ == (ResultsModel {
                    commander_tutors: oracle_names(list.boards.commanders.cards@, answers@),
                    ..empty_results()
                }),
                Result::Err(e) => first_error(answers@) == Some(e),
            },
    {
        let cmd = &list.boards.commanders.cards;
        proof {
            assert(answers@.subrange(0, cmd@.len() as int) =~= answers@);
        }
        match collect_names(cmd, answers, 0) {
            Result::Err(e) => Result::Err(e),
            Result::Ok(found) => {
                let mut results = ValidationResults::default();
                results.commander_tutors = found;
                proof {
                    assert(results@ =~= (ResultsModel {
                        commander_tutors: oracle_names(cmd@, answers@),
                        ..empty_results()
                    }));
                }
                Result::Ok(results)
            },
        }
    }
}

impl GamechangerValidator {
    pub fn name(&self) -> (r: &'static str)
        ensures
            r@ == "Gamechangers"@,
    {
        "Gamechangers"
    }

    /// One oracle query per deck card, mainboard first, then commanders.
    pub fn queries(&self, list: &List) -> (r: Vec<String>)
        ensures
            r.deep_view() == queries_of(all_cards(*list), "is:gamechanger"@),
    {
        let mut r = build_queries(&list.boards.mainboard.cards, "is:gamechanger");
        let ghost a = r;
        let mut more = build_queries(&list.boards.commanders.cards, "is:gamechanger");
        let ghost b = more;
        r.append(&mut more);
        proof {
            lemma_deep_view_of_concat(r, a, b);
            assert(queries_of(all_cards(*list), "is:gamechanger"@) =~= queries_of(
                list.boards.mainboard.cards@,
                "is:gamechanger"@,
            ) + queries_of(list.boards.commanders.cards@, "is:gamechanger"@));
        }
        r
    }

    /// Scans one answer per deck card: a match flags the card by name; the
    /// first transport failure fails the check with that error.
    pub fn check(&self, list: &List, answers: &Vec<Result<Option<String>, AppError>>) -> (r:
        Result<ValidationResults, AppError>)
        requires
            answers@.len() == all_cards(*list).len(),
        ensures
            match r {
                Result::Ok(res) => first_error(answers@) is None && res@ == (ResultsModel {
                    gamechangers: oracle_names(all_cards(*list), answers@),
                    ..empty_results()
                }),
                Result::Err(e) => first_error(answers@) == Some(e),
            },
    {
        let main = &list.boards.mainboard.cards;
        let cmd = &list.boards.commanders.cards;
        let ghost seg1 = answers@.subrange(0, main@.len() as int);
        let ghost seg2 = answers@.subrange(main@.len() as int, answers@.len() as int);
        proof {
            assert(seg1 + seg2 =~= answers@);
            lemma_first_error_concat::<Option<String>>(seg1, seg2);
        }
        match collect_names(main, answers, 0) {
            Result::Err(e) => Result::Err(e),
            Result::Ok(first_part) => {
                match collect_names(cmd, answers, main.len()) {
                    Result::Err(e) => Result::Err(e),
                    Result::Ok(mut second_part) => {
                        let mut found = first_part;
                        let ghost a = found;
                        let ghost b = second_part;
                        found.append(&mut second_part);
                        let mut results = ValidationResults::default();
                        results.gamechangers = found;
                        proof {
                            lemma_deep_view_of_concat(results.gamechangers, a, b);
                            lemma_oracle_names_concat(main@, cmd@, seg1, seg2);
                            assert(results@ =~= (ResultsModel {
                                gamechangers: oracle_names(all_cards(*list), answers@),
                                ..empty_results()
                            }));
                        }
                        Result::Ok(results)
                    },
                }
            },
        }
    }
}

impl TwoCardComboValidator {
    pub fn name(&self) -> (r: &'static str)
        ensures
            r@ == "Two-Card Combos"@,
    {
        "Two-Card Combos"
    }

    /// From the discovered combo set: keeps every combo of at most two
    /// distinct cards, and records the full combo list. Combo discovery is
    /// best-effort, so this check never fails.
    pub fn check(&self, combos: &ComboList) -> (r: ValidationResults)
        ensures
            r@ == (ResultsModel {
                two_card_combos: two_card_entries(combos.included@),
                combos: combo_entries(combos.included@),
                ..empty_results()
            }),
    {
        let mut results = ValidationResults::default();
        results.combos = combos.get_combos();
        results.two_card_combos = combos.check_two_card_combos();
        proof {
            assert(results@ =~= (ResultsModel {
                two_card_combos: two_card_entries(combos.included@),
                combos: combo_entries(combos.included@),
                ..empty_results()
            }));
        }
        results
    }
}

impl InfiniteTurnsValidator {
    pub fn name(&self) -> (r: &'static str)
        ensures
            r@ == "Infinite Turns"@,
    {
        "Infinite Turns"
    }

    /// From the discovered combo set: keeps the card group of every combo
    /// whose effect mentions turns, in any letter case, and records the
    /// full combo list. Combo discovery is best-effort, so this check never
    /// fails.
    pub fn check(&self, combos: &ComboList) -> (r: ValidationResults)
        ensures
            r@ == (ResultsModel {
                infinite_turns_combos: infinite_turns_entries(combos.included@),
                combos: combo_entries(combos.included@),
                ..empty_results()
            }),
    {
        let mut results = ValidationResults::default();
        results.combos = combos.get_combos();
        results.infinite_turns_combos = combos.check_infinite_turns_combos();
        proof {
            assert(results@ =~= (ResultsModel {
                infinite_turns_combos: infinite_turns_entries(combos.included@),
                combos: combo_entries(combos.included@),
                ..empty_results()
            }));
        }
        results
    }
}

} // verus!
