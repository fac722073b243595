//! Partial and aggregated findings of the validators, the merge rule that
//! combines them, and the validity rule derived from the aggregate.

use vstd::prelude::*;

verus! {

/// The findings of one validator invocation, and, after merging, of a whole
/// orchestration run. Every field starts empty; each validator fills only the
/// fields it is responsible for.
#[derive(Debug)]
pub struct ValidationResults {
    /// Cards flagged for mass land denial, with the oracle text that matched.
    pub mass_land_denial_cards: Vec<(String, String)>,
    /// Mainboard tutors that do not fetch lands, with their oracle text.
    pub non_land_tutors: Vec<(String, String)>,
    /// Commander-zone cards that are tutors (names only).
    pub commander_tutors: Vec<String>,
    /// Combos using at most two distinct cards: card group and description.
    pub two_card_combos: Vec<(Vec<String>, String)>,
    /// Cards tagged as designated gamechangers (names only).
    pub gamechangers: Vec<String>,
    /// Card groups of combos whose effect grants extra turns.
    pub infinite_turns_combos: Vec<Vec<String>>,
    /// The full combo list reported by the combo-discovery provider.
    pub combos: Vec<(Vec<String>, String)>,
}

/// Mathematical model of `ValidationResults`: every string as a sequence of
/// characters, every list as a sequence.
#[verifier::ext_equal]
pub ghost struct ResultsModel {
    pub mass_land_denial_cards: Seq<(Seq<char>, Seq<char>)>,
    pub non_land_tutors: Seq<(Seq<char>, Seq<char>)>,
    pub commander_tutors: Seq<Seq<char>>,
    pub two_card_combos: Seq<(Seq<Seq<char>>, Seq<char>)>,
    pub gamechangers: Seq<Seq<char>>,
    pub infinite_turns_combos: Seq<Seq<Seq<char>>>,
    pub combos: Seq<(Seq<Seq<char>>, Seq<char>)>,
}

impl View for ValidationResults {
    type V = ResultsModel;

    open spec fn view(&self) -> ResultsModel {
        ResultsModel {
            mass_land_denial_cards: self.mass_land_denial_cards.deep_view(),
            non_land_tutors: self.non_land_tutors.deep_view(),
            commander_tutors: self.commander_tutors.deep_view(),
            two_card_combos: self.two_card_combos.deep_view(),
            gamechangers: self.gamechangers.deep_view(),
            infinite_turns_combos: self.infinite_turns_combos.deep_view(),
            combos: self.combos.deep_view(),
        }
    }
}

/// The model of a freshly constructed (empty) result set.
pub open spec fn empty_results() -> ResultsModel {
    ResultsModel {
        mass_land_denial_cards: Seq::empty(),
        non_land_tutors: Seq::empty(),
        commander_tutors: Seq::empty(),
        two_card_combos: Seq::empty(),
        gamechangers: Seq::empty(),
        infinite_turns_combos: Seq::empty(),
        combos: Seq::empty(),
    }
}

/// The merge rule: list fields are concatenated in call order, except the
/// full combo list, where the first non-empty side wins (both combo
/// validators report the same provider response, so concatenation would list
/// every combo twice).
pub open spec fn spec_merge(a: ResultsModel, b: ResultsModel) -> ResultsModel {
    ResultsModel {
        mass_land_denial_cards: a.mass_land_denial_cards + b.mass_land_denial_cards,
        non_land_tutors: a.non_land_tutors + b.non_land_tutors,
        commander_tutors: a.commander_tutors + b.commander_tutors,
        two_card_combos: a.two_card_combos + b.two_card_combos,
        gamechangers: a.gamechangers + b.gamechangers,
        infinite_turns_combos: a.infinite_turns_combos + b.infinite_turns_combos,
        combos: if a.combos.len() > 0 {
            a.combos
        } else {
            b.combos
        },
    }
}

/// The validity rule: a deck passes iff nothing was flagged, with the one
/// tolerated exception of at most three non-land tutors.
pub open spec fn spec_is_valid(m: ResultsModel) -> bool {
    &&& m.mass_land_denial_cards.len() == 0
    &&& m.non_land_tutors.len() <= 3
    &&& m.commander_tutors.len() == 0
    &&& m.two_card_combos.len() == 0
    &&& m.gamechangers.len() == 0
    &&& m.infinite_turns_combos.len() == 0
}

/// Left fold of the merge rule over any number of partial results.
pub open spec fn merge_all(s: Seq<ResultsModel>) -> ResultsModel
    decreases s.len(),
{
    if s.len() == 0 {
        empty_results()
    } else {
        spec_merge(merge_all(s.drop_last()), s.last())
    }
}

/// The combo field of a fold: the first non-empty combo field among the
/// inputs in evaluation order.
pub open spec fn first_nonempty_combos(s: Seq<ResultsModel>) -> Seq<(Seq<Seq<char>>, Seq<char>)>
    decreases s.len(),
{
    if s.len() == 0 {
        Seq::empty()
    } else if first_nonempty_combos(s.drop_last()).len() > 0 {
        first_nonempty_combos(s.drop_last())
    } else {
        s.last().combos
    }
}

/// Deep view of a concatenation of two vectors is the concatenation of their
/// deep views.
pub proof fn lemma_deep_view_of_concat<T: DeepView>(joined: Vec<T>, a: Vec<T>, b: Vec<T>)
    requires
        joined@ == a@ + b@,
    ensures
        joined.deep_view() == a.deep_view() + b.deep_view(),
{
    assert(joined.deep_view() =~= a.deep_view() + b.deep_view());
}

/// Pushing one element extends the deep view by that element's deep view.
pub proof fn lemma_deep_view_push<T: DeepView>(post: Vec<T>, pre: Vec<T>, x: T)
    requires
        post@ == pre@.push(x),
    ensures
        post.deep_view() == pre.deep_view().push(x.deep_view()),
{
    assert(post.deep_view() =~= pre.deep_view().push(x.deep_view()));
}

impl Default for ValidationResults {
    /// A fresh result set with every finding list empty.
    fn default() -> (r: ValidationResults)
        ensures
            r@ == empty_results(),
    {
        let r = ValidationResults {
            mass_land_denial_cards: Vec::new(),
            non_land_tutors: Vec::new(),
            commander_tutors: Vec::new(),
            two_card_combos: Vec::new(),
            gamechangers: Vec::new(),
            infinite_turns_combos: Vec::new(),
            combos: Vec::new(),
        };
        proof {
            assert(r@ =~= empty_results());
        }
        r
    }
}

impl ValidationResults {
    /// Combines two partial result sets according to the merge rule.
    pub fn merge(self, mut other: ValidationResults) -> (r: ValidationResults)
        ensures
            r@ == spec_merge(self@, other@),
    {
        let ghost sm = self;
        let ghost om = other;
        let mut merged = self;
        merged.mass_land_denial_cards.append(&mut other.mass_land_denial_cards);
        merged.non_land_tutors.append(&mut other.non_land_tutors);
        merged.commander_tutors.append(&mut other.commander_tutors);
        merged.two_card_combos.append(&mut other.two_card_combos);
        merged.gamechangers.append(&mut other.gamechangers);
        merged.infinite_turns_combos.append(&mut other.infinite_turns_combos);

        if merged.combos.is_empty() && !other.combos.is_empty() {
            merged.combos = other.combos;
        }

        proof {
            lemma_deep_view_of_concat(
                merged.mass_land_denial_cards,
                sm.mass_land_denial_cards,
                om.mass_land_denial_cards,
            );
            lemma_deep_view_of_concat(
                merged.non_land_tutors,
                sm.non_land_tutors,
                om.non_land_tutors,
            );
            lemma_deep_view_of_concat(
                merged.commander_tutors,
                sm.commander_tutors,
                om.commander_tutors,
            );
            lemma_deep_view_of_concat(
                merged.two_card_combos,
                sm.two_card_combos,
                om.two_card_combos,
            );
            lemma_deep_view_of_concat(merged.gamechangers, sm.gamechangers, om.gamechangers);
            lemma_deep_view_of_concat(
                merged.infinite_turns_combos,
                sm.infinite_turns_combos,
                om.infinite_turns_combos,
            );
            assert(merged@ =~= spec_merge(sm@, om@));
        }
        merged
    }

    /// Overall validity of an aggregate, a pure function of the sizes of its
    /// finding lists.
    pub fn is_valid(&self) -> (r: bool)
        ensures
            r == spec_is_valid(self@),
    {
        self.mass_land_denial_cards.is_empty() && self.non_land_tutors.len() <= 3
            && self.commander_tutors.is_empty() && self.two_card_combos.is_empty()
            && self.gamechangers.is_empty() && self.infinite_turns_combos.is_empty()
    }
}

/// Law: the merge rule is associative, on the concatenated fields and on the
/// first-non-empty combo field alike, so partial results may be folded in any
/// grouping.
pub proof fn lemma_merge_associative(a: ResultsModel, b: ResultsModel, c: ResultsModel)
    ensures
        spec_merge(spec_merge(a, b), c) == spec_merge(a, spec_merge(b, c)),
{
    assert(spec_merge(spec_merge(a, b), c) =~= spec_merge(a, spec_merge(b, c)));
}

/// Law: merging is left-biased on the combo field. Folding any sequence of
/// partial results keeps exactly the first non-empty combo list, in
/// evaluation order; when every input's combo list is empty, so is the
/// aggregate's.
pub proof fn lemma_merge_all_combos(s: Seq<ResultsModel>)
    ensures
        merge_all(s).combos == first_nonempty_combos(s),
        (forall|i: int| 0 <= i < s.len() ==> #[trigger] s[i].combos.len() == 0) ==> merge_all(
            s,
        ).combos.len() == 0,
    decreases s.len(),
{
    if s.len() == 0 {
    } else {
        lemma_merge_all_combos(s.drop_last());
    }
}

/// Law: validity depends only on the sizes of the finding lists, never on
/// their contents.
pub proof fn lemma_is_valid_depends_on_sizes(a: ResultsModel, b: ResultsModel)
    requires
        a.mass_land_denial_cards.len() == b.mass_land_denial_cards.len(),
        a.non_land_tutors.len() == b.non_land_tutors.len(),
        a.commander_tutors.len() == b.commander_tutors.len(),
        a.two_card_combos.len() == b.two_card_combos.len(),
        a.gamechangers.len() == b.gamechangers.len(),
        a.infinite_turns_combos.len() == b.infinite_turns_combos.len(),
    ensures
        spec_is_valid(a) == spec_is_valid(b),
{
}

} // verus!
