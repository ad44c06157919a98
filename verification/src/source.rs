//! The unit source: the records that a unit listing describes.

use crate::text::{
    chars_of, is_line, lemma_line_end_unique, line_at, line_text, word_spans, words, Whitespace,
};
use crate::unit::{
    record_of, views, ActiveState, LoadedState, UnitObject, UnitService, UnitServiceView, UnitView,
};
use systemctl::SystemCtl;
use systemctl::{ActiveState as Active, LoadedState as Loaded};
use vstd::prelude::*;

verus! {

/// What `SystemCtl::list_units_full_from_raw` reads from a listing of these
/// characters.
pub uninterp spec fn listed_units(raw: Seq<char>) -> Seq<UnitServiceView>;

/// What each entry of a listing holds, in order.
pub open spec fn service_views(listed: Seq<UnitService>) -> Seq<UnitServiceView> {
    listed.map_values(|u: UnitService| u@)
}

/// The record of each entry of a listing, in order.
pub open spec fn records_of(listed: Seq<UnitServiceView>) -> Seq<UnitView> {
    listed.map_values(|u: UnitServiceView| record_of(u))
}

/// No entry of the listing has an empty name.
pub open spec fn all_named(listed: Seq<UnitServiceView>) -> bool {
    forall|i: int| 0 <= i < listed.len() ==> (#[trigger] listed[i]).unit_name.len() > 0
}

/// A line of a listing describes a unit where it holds a dot and does not end in
/// one.
pub open spec fn is_entry(line: Seq<char>) -> bool {
    line.contains('.') && line.last() != '.'
}

/// What of an entry line is split into words: all of it but a bullet that it
/// starts with, where a space follows the bullet.
pub open spec fn entry_text(line: Seq<char>) -> Seq<char> {
    if line.len() >= 2 && line[0] == '\u{25cf}' && line[1] == ' ' {
        line.skip(1)
    } else {
        line
    }
}

/// A line can be read: it describes no unit, or it has the four words that give
/// the unit's name, load state, active state and sub-state.
pub open spec fn line_parses(line: Seq<char>) -> bool {
    is_entry(line) ==> words(entry_text(line), Whitespace::Ascii).len() >= 4
}

/// A listing can be read: each of its lines can.
pub open spec fn listing_parses(raw: Seq<char>) -> bool {
    forall|a: int, b: int| is_line(raw, a, b) ==> line_parses(#[trigger] line_text(raw, a, b))
}

/// Calls `SystemCtl::list_units_full_from_raw`, which reads the entries of a unit
/// listing and indexes the first four words of each line that describes a unit.
/// The contract leaves out the listings with such a line of less than four words,
/// and claims that the entries depend on the characters of the listing alone and
/// that none has an empty name, a name being a word. Each entry is handed on
/// field by field.
#[verifier::external_body]
fn list_units_full_from_raw(raw: String) -> (r: Vec<UnitService>)
    requires
        listing_parses(raw@),
    ensures
        service_views(r@) == listed_units(raw@),
        all_named(service_views(r@)),
{
    let listed = SystemCtl::list_units_full_from_raw(raw).unwrap_or_default();
    listed.into_iter().map(|u| UnitService {
        unit_name: u.unit_name, sub_state: u.sub_state, description: u.description,
        loaded: match u.loaded {
            Loaded::Masked => LoadedState::Masked, Loaded::Loaded => LoadedState::Loaded,
            Loaded::Unknown => LoadedState::Unknown,
        },
        active: match u.active {
            Active::Inactive => ActiveState::Inactive, Active::Active => ActiveState::Active,
            Active::Activating => ActiveState::Activating,
            Active::Deactivating => ActiveState::Deactivating,
            Active::Failed => ActiveState::Failed, Active::Reloading => ActiveState::Reloading,
            Active::Unknown => ActiveState::Unknown,
        },
    }).collect()
}

/// Whether `s[from..to]` holds `c`.
fn range_contains(s: &Vec<char>, from: usize, to: usize, c: char) -> (r: bool)
    requires
        from <= to <= s.len(),
    ensures
        r == s@.subrange(from as int, to as int).contains(c),
{
    let ghost part = s@.subrange(from as int, to as int);
    let mut i: usize = from;
    while i < to
        invariant
            from <= i <= to <= s.len(),
            part == s@.subrange(from as int, to as int),
            forall|k: int| 0 <= k < i - from ==> part[k] != c,
        decreases to - i,
    {
        if s[i] == c {
            assert(part[i - from] == c);
            return true;
        }
        i += 1;
    }
    false
}

/// Whether the line with the text `s[from..to]` can be read.
fn line_can_be_read(s: &Vec<char>, from: usize, to: usize) -> (r: bool)
    requires
        from <= to <= s.len(),
    ensures
        r == line_parses(s@.subrange(from as int, to as int)),
{
    let ghost line = s@.subrange(from as int, to as int);
    if !range_contains(s, from, to, '.') {
        return true;
    }
    assert(line.len() > 0);
    assert(line.last() == s@[to - 1]);
    if s[to - 1] == '.' {
        return true;
    }
    let start = if to - from >= 2 && s[from] == '\u{25cf}' && s[from + 1] == ' ' {
        from + 1
    } else {
        from
    };
    proof {
        assert(line[0] == s@[from as int]);
        if to - from >= 2 {
            assert(line[1] == s@[from + 1]);
        }
        assert(entry_text(line) =~= s@.subrange(start as int, to as int));
    }
    let spans = word_spans(s, start, to, Whitespace::Ascii);
    spans.len() >= 4
}

/// Whether the listing `raw` can be read.
pub fn can_read_listing(raw: &str) -> (r: bool)
    ensures
        r == listing_parses(raw@),
{
    let s = chars_of(raw);
    let mut a: usize = 0;
    while a < s.len()
        invariant
            a <= s.len(),
            s@ == raw@,
            a == s.len() || a == 0 || s@[a - 1] == '\n',
            forall|x: int, y: int|
                is_line(s@, x, y) && x < a ==> line_parses(#[trigger] line_text(s@, x, y)),
        decreases s.len() - a,
    {
        let (b, text_end) = line_at(&s, a);
        if !line_can_be_read(&s, a, text_end) {
            assert(!line_parses(line_text(s@, a as int, b as int)));
            return false;
        }
        proof {
            assert forall|x: int, y: int| is_line(s@, x, y) && x < b + 1 implies line_parses(
                #[trigger] line_text(s@, x, y),
            ) by {
                if x == a {
                    lemma_line_end_unique(s@, x, y, b as int);
                } else if x > a {
                    assert(s@[x - 1] == '\n');
                }
            }
        }
        if b == s.len() {
            a = b;
        } else {
            a = b + 1;
        }
    }
    true
}

/// The records of the entries of a listing, in the order of the listing.
pub fn units(listed: Vec<UnitService>) -> (r: Vec<UnitObject>)
    requires
        all_named(service_views(listed@)),
    ensures
        views(r@) == records_of(service_views(listed@)),
{
    let ghost all = service_views(listed@);
    let mut r: Vec<UnitObject> = Vec::new();
    for u in it: listed
        invariant
            all == service_views(it.seq()),
            all_named(all),
            views(r@) == records_of(all.take(it.index() as int)),
    {
        proof {
            let i = it.index() as int;
            assert(all[i] == u@);
            assert(all[i].unit_name.len() > 0);
            assert(all.take(i + 1) =~= all.take(i).push(all[i]));
            assert(records_of(all.take(i).push(all[i])) =~= records_of(all.take(i)).push(
                record_of(all[i]),
            ));
        }
        let unit = UnitObject::new(u);
        proof {
            assert(views(r@.push(unit)) =~= views(r@).push(unit@));
        }
        r.push(unit);
    }
    proof {
        assert(all.take(all.len() as int) =~= all);
    }
    r
}

/// The records that the raw listing `raw` describes, in the order of the listing,
/// or `None` where the listing cannot be read.
pub fn units_from_raw(raw: String) -> (r: Option<Vec<UnitObject>>)
    ensures
        r is Some <==> listing_parses(raw@),
        r is Some ==> views(r->0@) == records_of(listed_units(raw@)),
{
    if can_read_listing(raw.as_str()) {
        Some(units(list_units_full_from_raw(raw)))
    } else {
        None
    }
}

} // verus!
