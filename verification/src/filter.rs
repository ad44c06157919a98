//! The filter stage: which records match the search text.

use crate::text::{chars_of, contains, is_substring, lemma_empty_is_substring, lowercase, to_lowercase};
use crate::unit::{views, UnitObject, UnitView};
use vstd::prelude::*;

verus! {

/// A record matches a search term where the term stands in its name or in its
/// description, both taken in lower case.
pub open spec fn unit_matches(term: Seq<char>, u: UnitView) -> bool {
    is_substring(term, lowercase(u.unit_name)) || is_substring(term, lowercase(u.description))
}

/// The records of `units` that match `term`, in the order of `units`.
pub open spec fn filtered(units: Seq<UnitView>, term: Seq<char>) -> Seq<UnitView> {
    units.filter(|u: UnitView| unit_matches(term, u))
}

/// The search term in force: the text of the last edit, in lower case.
#[derive(Debug)]
pub struct FilterState {
    term: String,
}

impl View for FilterState {
    type V = Seq<char>;

    closed spec fn view(&self) -> Seq<char> {
        self.term@
    }
}

/// Whether `unit_object` matches `term`.
fn matches_chars(term: &Vec<char>, unit_object: &UnitObject) -> (r: bool)
    ensures
        r == unit_matches(term@, unit_object@),
{
    let name = chars_of(to_lowercase(unit_object.unit_name()).as_str());
    if contains(&name, term) {
        true
    } else {
        let description = chars_of(to_lowercase(unit_object.description()).as_str());
        contains(&description, term)
    }
}

/// Whether `unit_object` matches the term `filter_input_lower_case`, which is
/// taken as it is.
pub fn search_filter(filter_input_lower_case: &str, unit_object: &UnitObject) -> (r: bool)
    ensures
        r == unit_matches(filter_input_lower_case@, unit_object@),
{
    let term = chars_of(filter_input_lower_case);
    matches_chars(&term, unit_object)
}

impl FilterState {
    /// The state before any edit: the empty term, which every record matches.
    pub fn new() -> (r: Self)
        ensures
            r@ == Seq::<char>::empty(),
    {
        FilterState { term: String::new() }
    }

    /// Takes the text of an edit: the term is `input` in lower case from now on.
    pub fn set_text(&mut self, input: &str)
        ensures
            final(self)@ == lowercase(input@),
            input@.len() == 0 ==> final(self)@ == Seq::<char>::empty(),
    {
        self.term = to_lowercase(input);
        proof {
            if input@.len() == 0 {
                assert(self.term@ =~= Seq::<char>::empty());
            }
        }
    }

    /// The term in force.
    pub fn term(&self) -> (r: &str)
        ensures
            r@ == self@,
    {
        self.term.as_str()
    }

    /// Whether `unit_object` matches the term in force.
    pub fn matches(&self, unit_object: &UnitObject) -> (r: bool)
        ensures
            r == unit_matches(self@, unit_object@),
    {
        search_filter(self.term.as_str(), unit_object)
    }
}

/// The records of `units` that match the term of `state`, in the order of `units`.
pub fn filter(units: &Vec<UnitObject>, state: &FilterState) -> (r: Vec<UnitObject>)
    ensures
        views(r@) == filtered(views(units@), state@),
{
    let term = chars_of(state.term());
    let mut r: Vec<UnitObject> = Vec::new();
    let mut i: usize = 0;
    proof {
        reveal(Seq::filter);
        assert(views(units@).take(0) =~= Seq::<UnitView>::empty());
        assert(views(r@) =~= Seq::<UnitView>::empty());
    }
    while i < units.len()
        invariant
            i <= units.len(),
            term@ == state@,
            views(r@) == filtered(views(units@).take(i as int), state@),
        decreases units.len() - i,
    {
        let keep = matches_chars(&term, &units[i]);
        proof {
            let all = views(units@);
            let pred = |u: UnitView| unit_matches(state@, u);
            assert(all.take(i + 1) =~= all.take(i as int).push(all[i as int]));
            all.take(i as int).lemma_filter_push(all[i as int], pred);
        }
        if keep {
            let unit = units[i].clone();
            proof {
                assert(views(r@.push(unit)) =~= views(r@).push(unit@));
            }
            r.push(unit);
        }
        i += 1;
    }
    proof {
        assert(views(units@).take(units@.len() as int) =~= views(units@));
    }
    r
}

/// What the filter keeps is a part of what it was given: every record kept stands
/// in `units` and matches `term`, and every record of `units` that matches is kept.
pub proof fn lemma_filter_keeps_the_matches(units: Seq<UnitView>, term: Seq<char>)
    ensures
        filtered(units, term).len() <= units.len(),
        forall|i: int|
            0 <= i < filtered(units, term).len() ==> units.contains(
                #[trigger] filtered(units, term)[i],
            ) && unit_matches(term, filtered(units, term)[i]),
        forall|i: int|
            0 <= i < units.len() && unit_matches(term, units[i]) ==> filtered(units, term).contains(
                #[trigger] units[i],
            ),
{
    broadcast use vstd::seq_lib::group_filter_ensures;

    let pred = |u: UnitView| unit_matches(term, u);
    assert forall|i: int| 0 <= i < filtered(units, term).len() implies units.contains(
        #[trigger] filtered(units, term)[i],
    ) by {
        let kept = filtered(units, term)[i];
        assert(units.filter(pred).contains(kept));
        units.lemma_filter_contains_rev(pred, kept);
    }
}

/// The empty term keeps every record.
pub proof fn lemma_empty_term_keeps_all(units: Seq<UnitView>, term: Seq<char>)
    requires
        term.len() == 0,
    ensures
        filtered(units, term) == units,
    decreases units.len(),
{
    reveal(Seq::filter);
    if units.len() > 0 {
        lemma_empty_term_keeps_all(units.drop_last(), term);
        lemma_empty_is_substring(term, lowercase(units.last().unit_name));
        assert(units.drop_last().push(units.last()) =~= units);
    }
}

} // verus!
