//! The deck-list data model, the combo-discovery response model, the final
//! report, and the aggregation of validator outcomes into that report.

use vstd::prelude::*;

use crate::errors::{first_error, lemma_first_error_skip, AppError};
use crate::text::{contains_codes, contains_seq, lower_codes, lower_codes_of};
use crate::validation_results::{
    empty_results, lemma_deep_view_push, merge_all, spec_is_valid, ResultsModel,
    ValidationResults,
};

verus! {

/// The final artifact of an orchestration run: deck identity, overall
/// validity, the aggregated finding lists, and a normalized deck-list
/// snapshot. Immutable once created.
#[derive(Debug, Clone)]
pub struct Report {
    pub is_valid: bool,
    pub name: String,
    pub author: String,
    pub non_land_tutors: Vec<(String, String)>,
    pub mass_land_denial_cards: Vec<(String, String)>,
    pub commander_tutors: Vec<String>,
    pub two_card_combos: Vec<(Vec<String>, String)>,
    pub gamechangers: Vec<String>,
    pub infinite_turns_combos: Vec<Vec<String>>,
    pub combos: Vec<(Vec<String>, String)>,
    pub deck_list: Vec<CardListUnit>,
}

/// A deck list as supplied by the deck source: identity, author, and the
/// mainboard and commander boards. Immutable once constructed; every
/// validator reads it, none may change it.
#[derive(Debug)]
pub struct List {
    pub id: String,
    pub name: String,
    pub format: String,
    pub visibility: String,
    pub created_by_user: User,
    pub boards: Boards,
}

#[derive(Debug)]
pub struct User {
    pub user_name: String,
}

/// One deck entry: how many copies of which card.
#[derive(Debug)]
pub struct Card {
    pub quantity: u32,
    pub card: CardDetails,
}

#[derive(Debug)]
pub struct Boards {
    pub mainboard: Board,
    pub commanders: Board,
}

/// An ordered collection of deck entries.
#[derive(Debug)]
pub struct Board {
    pub count: u32,
    pub cards: Vec<Card>,
}

#[derive(Debug)]
pub struct CardDetails {
    pub id: String,
    pub name: String,
    pub legalities: Vec<(String, String)>,
}

/// The request body of a combo-discovery query: the card pool.
#[derive(Debug, Clone)]
pub struct CardList {
    pub main: Vec<CardListUnit>,
}

/// A normalized deck-list entry: card name and quantity.
#[derive(Debug, Clone)]
pub struct CardListUnit {
    pub card: String,
    pub quantity: u32,
}

impl View for CardListUnit {
    type V = (Seq<char>, u32);

    open spec fn view(&self) -> (Seq<char>, u32) {
        (self.card@, self.quantity)
    }
}

impl DeepView for CardListUnit {
    type V = (Seq<char>, u32);

    open spec fn deep_view(&self) -> (Seq<char>, u32) {
        self@
    }
}

/// A combo-discovery response, as the provider returns it.
#[derive(Debug, Clone)]
pub struct ComboListRequest {
    pub results: ComboList,
}

/// The set of known card combinations discoverable within a card pool.
#[derive(Debug, Clone)]
pub struct ComboList {
    pub included: Vec<ComboListIncluded>,
}

/// One known combo: the cards it uses, the effects it produces, and a
/// description.
#[derive(Debug, Clone)]
pub struct ComboListIncluded {
    pub id: String,
    pub uses: Vec<Ingredient>,
    pub produces: Vec<ComboEffect>,
    pub description: String,
}

#[derive(Debug, Clone)]
pub struct Ingredient {
    pub card: ComboCard,
}

#[derive(Debug, Clone)]
pub struct ComboCard {
    pub name: String,
}

#[derive(Debug, Clone)]
pub struct ComboEffect {
    pub feature: Effect,
}

#[derive(Debug, Clone)]
pub struct Effect {
    pub id: u32,
    pub name: String,
    pub status: String,
    pub uncountable: bool,
}

/// An oracle-text search response: the matching cards, best match first.
#[derive(Debug, Clone)]
pub struct ScryfallQuery {
    pub data: Vec<ScryfallCard>,
}

#[derive(Debug, Clone)]
pub struct ScryfallCard {
    pub name: String,
    pub oracle_text: String,
    pub game_changer: bool,
}

/// The names of the cards a combo uses, in order.
pub open spec fn ingredient_names(uses: Seq<Ingredient>) -> Seq<Seq<char>> {
    uses.map_values(|i: Ingredient| i.card.name@)
}

/// Every combo as a (card group, description) pair, in provider order.
pub open spec fn combo_entries(s: Seq<ComboListIncluded>) -> Seq<(Seq<Seq<char>>, Seq<char>)> {
    s.map_values(|c: ComboListIncluded| (ingredient_names(c.uses@), c.description@))
}

/// The combos using at most two distinct cards, in provider order.
pub open spec fn two_card_entries(s: Seq<ComboListIncluded>) -> Seq<(Seq<Seq<char>>, Seq<char>)>
    decreases s.len(),
{
    if s.len() == 0 {
        Seq::empty()
    } else {
        two_card_entries(s.drop_last()) + if s.last().uses@.len() <= 2 {
            seq![(ingredient_names(s.last().uses@), s.last().description@)]
        } else {
            Seq::empty()
        }
    }
}

/// Whether one of the combo's produced effects names extra turns: its name
/// contains the word "turns" up to ASCII letter case.
pub open spec fn has_turns_effect(c: ComboListIncluded) -> bool {
    exists|k: int|
        0 <= k < c.produces@.len() && contains_seq(
            #[trigger] lower_codes(c.produces@[k].feature.name@),
            lower_codes("turns"@),
        )
}

/// The card groups of the combos whose effect grants extra turns (named in
/// any letter case), in provider order.
pub open spec fn infinite_turns_entries(s: Seq<ComboListIncluded>) -> Seq<Seq<Seq<char>>>
    decreases s.len(),
{
    if s.len() == 0 {
        Seq::empty()
    } else {
        infinite_turns_entries(s.drop_last()) + if has_turns_effect(s.last()) {
            seq![ingredient_names(s.last().uses@)]
        } else {
            Seq::empty()
        }
    }
}

/// Every card a validator that scans the whole deck sees: the mainboard
/// first, then the commanders.
pub open spec fn all_cards(list: List) -> Seq<Card> {
    list.boards.mainboard.cards@ + list.boards.commanders.cards@
}

/// The names of a sequence of deck entries, in order.
pub open spec fn card_names_of(cards: Seq<Card>) -> Seq<Seq<char>> {
    cards.map_values(|c: Card| c.card.name@)
}

/// The normalized deck-list snapshot of a sequence of deck entries.
pub open spec fn spec_deck_list(cards: Seq<Card>) -> Seq<(Seq<char>, u32)> {
    cards.map_values(|c: Card| (c.card.name@, c.quantity))
}

impl Report {
    /// A report for the named deck with no findings yet and the validity
    /// flag still down.
    pub fn new(name: String, author: String, deck_list: Vec<CardListUnit>) -> (r: Self)
        ensures
            !r.is_valid,
            r.name == name,
            r.author == author,
            r.deck_list == deck_list,
            r.non_land_tutors@ == Seq::<(String, String)>::empty(),
            r.mass_land_denial_cards@ == Seq::<(String, String)>::empty(),
            r.commander_tutors@ == Seq::<String>::empty(),
            r.two_card_combos@ == Seq::<(Vec<String>, String)>::empty(),
            r.gamechangers@ == Seq::<String>::empty(),
            r.infinite_turns_combos@ == Seq::<Vec<String>>::empty(),
            r.combos@ == Seq::<(Vec<String>, String)>::empty(),
    {
        Self {
            is_valid: false,
            author,
            name,
            non_land_tutors: Vec::new(),
            mass_land_denial_cards: Vec::new(),
            commander_tutors: Vec::new(),
            two_card_combos: Vec::new(),
            gamechangers: Vec::new(),
            infinite_turns_combos: Vec::new(),
            combos: Vec::new(),
            deck_list,
        }
    }
}

impl List {
    /// The normalized snapshot of the mainboard: one (name, quantity) entry
    /// per deck entry, in board order.
    pub fn deck_list(&self) -> (r: Vec<CardListUnit>)
        ensures
            r.deep_view() == spec_deck_list(self.boards.mainboard.cards@),
    {
        let cards = &self.boards.mainboard.cards;
        let mut r: Vec<CardListUnit> = Vec::new();
        let mut i: usize = 0;
        proof {
            assert(r.deep_view() =~= spec_deck_list(cards@.take(0)));
        }
        while i < cards.len()
            invariant
                i <= cards.len(),
                r.deep_view() == spec_deck_list(cards@.take(i as int)),
            decreases cards.len() - i,
        {
            let ghost pre = r;
            let entry = &cards[i];
            let unit = CardListUnit { card: entry.card.name.clone(), quantity: entry.quantity };
            let ghost u = unit;
            r.push(unit);
            proof {
                lemma_deep_view_push(r, pre, u);
                assert(spec_deck_list(cards@.take(i + 1)) =~= spec_deck_list(
                    cards@.take(i as int),
                ).push((cards@[i as int].card.name@, cards@[i as int].quantity)));
            }
            i = i + 1;
        }
        proof {
            assert(cards@.take(cards@.len() as int) =~= cards@);
        }
        r
    }

    /// The card pool handed to combo discovery: every mainboard name, then
    /// every commander name.
    pub fn card_names(&self) -> (r: Vec<String>)
        ensures
            r.deep_view() == card_names_of(all_cards(*self)),
    {
        let mut r: Vec<String> = Vec::new();
        let main = &self.boards.mainboard.cards;
        let cmd = &self.boards.commanders.cards;
        let mut i: usize = 0;
        proof {
            assert(r.deep_view() =~= card_names_of(main@.take(0)));
        }
        while i < main.len()
            invariant
                i <= main.len(),
                r.deep_view() == card_names_of(main@.take(i as int)),
            decreases main.len() - i,
        {
            let ghost pre = r;
            let entry = &main[i];
            let name = entry.card.name.clone();
            let ghost nv = name;
            r.push(name);
            proof {
                lemma_deep_view_push(r, pre, nv);
                assert(card_names_of(main@.take(i + 1)) =~= card_names_of(
                    main@.take(i as int),
                ).push(main@[i as int].card.name@));
            }
            i = i + 1;
        }
        let mut j: usize = 0;
        proof {
            assert(main@.take(main@.len() as int) =~= main@);
            assert(r.deep_view() =~= card_names_of(main@) + card_names_of(cmd@.take(0)));
        }
        while j < cmd.len()
            invariant
                j <= cmd.len(),
                r.deep_view() == card_names_of(main@) + card_names_of(cmd@.take(j as int)),
            decreases cmd.len() - j,
        {
            let ghost pre = r;
            let entry = &cmd[j];
            let name = entry.card.name.clone();
            let ghost nv = name;
            r.push(name);
            proof {
                lemma_deep_view_push(r, pre, nv);
                assert(card_names_of(main@) + card_names_of(cmd@.take(j + 1)) =~= (card_names_of(
                    main@,
                ) + card_names_of(cmd@.take(j as int))).push(cmd@[j as int].card.name@));
            }
            j = j + 1;
        }
        proof {
            assert(cmd@.take(cmd@.len() as int) =~= cmd@);
            assert(card_names_of(main@) + card_names_of(cmd@) =~= card_names_of(all_cards(*self)));
        }
        r
    }

    /// Turns the aggregated findings into the final report for this deck:
    /// the finding lists are carried over unchanged and the validity flag is
    /// computed from them.
    pub fn build_report(&self, results: ValidationResults) -> (r: Report)
        ensures
            r.name == self.name,
            r.author == self.created_by_user.user_name,
            r.deck_list.deep_view() == spec_deck_list(self.boards.mainboard.cards@),
            r.is_valid == spec_is_valid(results@),
            r.mass_land_denial_cards == results.mass_land_denial_cards,
            r.non_land_tutors == results.non_land_tutors,
            r.commander_tutors == results.commander_tutors,
            r.two_card_combos == results.two_card_combos,
            r.gamechangers == results.gamechangers,
            r.infinite_turns_combos == results.infinite_turns_combos,
            r.combos == results.combos,
    {
        let is_valid = results.is_valid();
        Report {
            is_valid,
            name: self.name.clone(),
            author: self.created_by_user.user_name.clone(),
            mass_land_denial_cards: results.mass_land_denial_cards,
            non_land_tutors: results.non_land_tutors,
            commander_tutors: results.commander_tutors,
            two_card_combos: results.two_card_combos,
            gamechangers: results.gamechangers,
            infinite_turns_combos: results.infinite_turns_combos,
            combos: results.combos,
            deck_list: self.deck_list(),
        }
    }
}

/// The models of a sequence of validator outcomes; a failed outcome stands
/// for an empty partial result (it never reaches a merge).
pub open spec fn models_of(s: Seq<Result<ValidationResults, AppError>>) -> Seq<ResultsModel> {
    s.map_values(
        |r: Result<ValidationResults, AppError>|
            match r {
                Result::Ok(v) => v@,
                Result::Err(_) => empty_results(),
            },
    )
}

/// The names of the cards one combo uses, cloned in order.
fn names_of_uses(uses: &Vec<Ingredient>) -> (r: Vec<String>)
    ensures
        r.deep_view() == ingredient_names(uses@),
{
    let mut r: Vec<String> = Vec::new();
    let mut i: usize = 0;
    proof {
        assert(r.deep_view() =~= ingredient_names(uses@.take(0)));
    }
    while i < uses.len()
        invariant
            i <= uses.len(),
            r.deep_view() == ingredient_names(uses@.take(i as int)),
        decreases uses.len() - i,
    {
        let ghost pre = r;
        let name = uses[i].card.name.clone();
        let ghost nv = name;
        r.push(name);
        proof {
            lemma_deep_view_push(r, pre, nv);
            assert(ingredient_names(uses@.take(i + 1)) =~= ingredient_names(
                uses@.take(i as int),
            ).push(uses@[i as int].card.name@));
        }
        i = i + 1;
    }
    proof {
        assert(uses@.take(uses@.len() as int) =~= uses@);
    }
    r
}

impl ComboList {
    /// The full combo list as (card group, description) pairs, in the order
    /// the provider returned them.
    pub fn get_combos(&self) -> (r: Vec<(Vec<String>, String)>)
        ensures
            r.deep_view() == combo_entries(self.included@),
    {
        let mut r: Vec<(Vec<String>, String)> = Vec::new();
        let mut i: usize = 0;
        proof {
            assert(r.deep_view() =~= combo_entries(self.included@.take(0)));
        }
        while i < self.included.len()
            invariant
                i <= self.included.len(),
                r.deep_view() == combo_entries(self.included@.take(i as int)),
            decreases self.included.len() - i,
        {
            let ghost pre = r;
            let inc = &self.included[i];
            let entry = (names_of_uses(&inc.uses), inc.description.clone());
            let ghost ev = entry;
            r.push(entry);
            proof {
                lemma_deep_view_push(r, pre, ev);
                assert(combo_entries(self.included@.take(i + 1)) =~= combo_entries(
                    self.included@.take(i as int),
                ).push(
                    (
                        ingredient_names(self.included@[i as int].uses@),
                        self.included@[i as int].description@,
                    ),
                ));
            }
            i = i + 1;
        }
        proof {
            assert(self.included@.take(self.included@.len() as int) =~= self.included@);
        }
        r
    }

    /// The combos that use at most two distinct cards, each with its
    /// description, in provider order.
    pub fn check_two_card_combos(&self) -> (r: Vec<(Vec<String>, String)>)
        ensures
            r.deep_view() == two_card_entries(self.included@),
    {
        let mut r: Vec<(Vec<String>, String)> = Vec::new();
        let mut i: usize = 0;
        proof {
            assert(r.deep_view() =~= two_card_entries(self.included@.take(0)));
        }
        while i < self.included.len()
            invariant
                i <= self.included.len(),
                r.deep_view() == two_card_entries(self.included@.take(i as int)),
            decreases self.included.len() - i,
        {
            let ghost pre = r;
            let inc = &self.included[i];
            proof {
                assert(self.included@.take(i + 1).drop_last() =~= self.included@.take(i as int));
                assert(self.included@.take(i + 1).last() == self.included@[i as int]);
            }
            if inc.uses.len() <= 2 {
                let entry = (names_of_uses(&inc.uses), inc.description.clone());
                let ghost ev = entry;
                r.push(entry);
                proof {
                    lemma_deep_view_push(r, pre, ev);
                    assert(pre.deep_view().push(ev.deep_view()) =~= pre.deep_view() + seq![
                        (
                            ingredient_names(self.included@[i as int].uses@),
                            self.included@[i as int].description@,
                        ),
                    ]);
                }
            } else {
                proof {
                    assert(r.deep_view() =~= r.deep_view() + Seq::empty());
                }
            }
            i = i + 1;
        }
        proof {
            assert(self.included@.take(self.included@.len() as int) =~= self.included@);
        }
        r
    }

    /// The card groups of the combos whose declared effect mentions turns,
    /// in any letter case, in provider order.
    pub fn check_infinite_turns_combos(&self) -> (r: Vec<Vec<String>>)
        ensures
            r.deep_view() == infinite_turns_entries(self.included@),
    {
        let mut r: Vec<Vec<String>> = Vec::new();
        let mut i: usize = 0;
        proof {
            assert(r.deep_view() =~= infinite_turns_entries(self.included@.take(0)));
        }
        while i < self.included.len()
            invariant
                i <= self.included.len(),
                r.deep_view() == infinite_turns_entries(self.included@.take(i as int)),
            decreases self.included.len() - i,
        {
            let ghost pre = r;
            let inc = &self.included[i];
            proof {
                assert(self.included@.take(i + 1).drop_last() =~= self.included@.take(i as int));
                assert(self.included@.take(i + 1).last() == self.included@[i as int]);
            }
            if has_turns(inc) {
                let entry = names_of_uses(&inc.uses);
                let ghost ev = entry;
                r.push(entry);
                proof {
                    lemma_deep_view_push(r, pre, ev);
                    assert(pre.deep_view().push(ev.deep_view()) =~= pre.deep_view() + seq![
                        ingredient_names(self.included@[i as int].uses@),
                    ]);
                }
            } else {
                proof {
                    assert(r.deep_view() =~= r.deep_view() + Seq::empty());
                }
            }
            i = i + 1;
        }
        proof {
            assert(self.included@.take(self.included@.len() as int) =~= self.included@);
        }
        r
    }
}

/// Whether one of the combo's produced effects names extra turns, whatever
/// the letter case.
fn has_turns(c: &ComboListIncluded) -> (r: bool)
    ensures
        r == has_turns_effect(*c),
{
    let needle = lower_codes_of("turns");
    let mut k: usize = 0;
    while k < c.produces.len()
        invariant
            needle@ == lower_codes("turns"@),
            k <= c.produces.len(),
            forall|j: int|
                0 <= j < k ==> !contains_seq(
                    #[trigger] lower_codes(c.produces@[j].feature.name@),
                    lower_codes("turns"@),
                ),
        decreases c.produces.len() - k,
    {
        let hay = lower_codes_of(c.produces[k].feature.name.as_str());
        if contains_codes(&hay, &needle) {
            proof {
                assert(contains_seq(
                    lower_codes(c.produces@[k as int].feature.name@),
                    lower_codes("turns"@),
                ));
            }
            return true;
        }
        k = k + 1;
    }
    false
}

/// Folds the outcomes of the validators, in launch order, into one
/// aggregate: the first failed validator fails the whole run with its error;
/// on all-success the partial results are merged left to right.
#[verifier::loop_isolation(false)]
pub fn aggregate_results(mut results: Vec<Result<ValidationResults, AppError>>) -> (r: Result<
    ValidationResults,
    AppError,
>)
    ensures
        match r {
            Result::Ok(agg) => first_error(results@) is None && agg@ == merge_all(
                models_of(results@),
            ),
            Result::Err(e) => first_error(results@) == Some(e),
        },
{
    let ghost orig = results@;
    let ghost models = models_of(orig);
    let mut agg = ValidationResults::default();
    let ghost mut k: int = 0;
    proof {
        assert(models.take(0) =~= Seq::<ResultsModel>::empty());
    }
    while results.len() > 0
        invariant
            0 <= k <= orig.len(),
            results@ == orig.skip(k),
            models == models_of(orig),
            forall|j: int| 0 <= j < k ==> orig[j] is Ok,
            agg@ == merge_all(models.take(k)),
        decreases results@.len(),
    {
        let item = results.remove(0);
        proof {
            assert(orig.skip(k)[0] == orig[k]);
            assert(orig.skip(k).remove(0) =~= orig.skip(k + 1));
        }
        match item {
            Result::Err(e) => {
                proof {
                    lemma_first_error_skip(orig, k);
                    assert(orig.skip(k).len() > 0);
                    assert(orig.skip(k)[0] == Result::<ValidationResults, AppError>::Err(e));
                    assert(first_error(orig.skip(k)) == Some(e));
                    assert(first_error(orig) == Some(e));
                }
                return Result::Err(e);
            },
            Result::Ok(v) => {
                proof {
                    assert(models[k] == v@);
                }
                agg = agg.merge(v);
                proof {
                    k = k + 1;
                    assert(models.take(k).drop_last() =~= models.take(k - 1));
                    assert(models.take(k).last() == models[k - 1]);
                }
            },
        }
    }
    proof {
        lemma_first_error_skip(orig, orig.len() as int);
        assert(orig.skip(orig.len() as int) =~= Seq::<Result<ValidationResults, AppError>>::empty());
        assert(models.take(orig.len() as int) =~= models);
    }
    Result::Ok(agg)
}

} // verus!
