//! The table: its columns, and the text of a cell.

use crate::text::{chars_of, last_index_of, rfind_char, str_equal};
use crate::unit::{UnitObject, UnitView};
use vstd::prelude::*;
use vstd::string::{StringExecFns, StringSliceAdditionalSpecFns, StrSliceExecFns};
use vstd::utf8::{decode_utf8, encode_utf8, is_char_boundary};

verus! {

/// A column of the table.
#[derive(Clone, Copy, Debug, PartialEq, Eq, Structural)]
pub enum Column {
    Unit,
    Load,
    Active,
    Sub,
    Description,
}

/// The field of a record that a column shows.
pub open spec fn column_value(column: Column, u: UnitView) -> Seq<char> {
    match column {
        Column::Unit => u.unit_name,
        Column::Load => u.load,
        Column::Active => u.state,
        Column::Sub => u.sub_state,
        Column::Description => u.description,
    }
}

/// The heading of a column.
pub open spec fn column_title(column: Column) -> Seq<char> {
    match column {
        Column::Unit => "UNIT"@,
        Column::Load => "LOAD"@,
        Column::Active => "ACTIVE"@,
        Column::Sub => "SUB"@,
        Column::Description => "DESCRIPTION"@,
    }
}

impl Column {
    /// The columns of the table, from left to right.
    pub fn all() -> (r: Vec<Column>)
        ensures
            r@ == seq![
                Column::Unit,
                Column::Load,
                Column::Active,
                Column::Sub,
                Column::Description,
            ],
    {
        vec![Column::Unit, Column::Load, Column::Active, Column::Sub, Column::Description]
    }

    /// The column that the table is sorted by until another is chosen.
    pub fn default_sort() -> (r: Column)
        ensures
            r == Column::Unit,
    {
        Column::Unit
    }

    /// The heading of the column.
    pub fn title(self) -> (r: &'static str)
        ensures
            r@ == column_title(self),
    {
        match self {
            Column::Unit => "UNIT",
            Column::Load => "LOAD",
            Column::Active => "ACTIVE",
            Column::Sub => "SUB",
            Column::Description => "DESCRIPTION",
        }
    }

    /// The field of `unit_object` that the column shows.
    pub fn value<'a>(self, unit_object: &'a UnitObject) -> (r: &'a str)
        ensures
            r@ == column_value(self, unit_object@),
    {
        match self {
            Column::Unit => unit_object.unit_name(),
            Column::Load => unit_object.load(),
            Column::Active => unit_object.state(),
            Column::Sub => unit_object.sub_state(),
            Column::Description => unit_object.description(),
        }
    }
}

/// A unit name split at its last dot: what stands before the dot, and the suffix
/// from the dot on. A name without a dot has the empty suffix.
pub open spec fn name_and_suffix(s: Seq<char>) -> (Seq<char>, Seq<char>) {
    let dot = last_index_of(s, '.');
    if dot >= 0 {
        (s.take(dot), s.skip(dot))
    } else {
        (s, Seq::empty())
    }
}

/// Split unit name and suffix in order to enable two layer sorting
pub fn split_name_and_suffix(s: &str) -> (r: (&str, &str))
    ensures
        (r.0@, r.1@) == name_and_suffix(s@),
{
    let chars = chars_of(s);
    match rfind_char(&chars, '.') {
        Some(idx) => (s.substring_char(0, idx), s.substring_char(idx, chars.len())),
        None => {
            proof {
                reveal_strlit("");
                assert(""@ =~= Seq::<char>::empty());
            }
            (s, "")
        },
    }
}

/// A text cut to its first `max_len` bytes and marked with three dots, where it
/// is longer than that; else the text itself.
pub open spec fn shortened(s: Seq<char>, max_len: int) -> Seq<char> {
    if encode_utf8(s).len() > max_len {
        decode_utf8(encode_utf8(s).subrange(0, max_len)) + "..."@
    } else {
        s
    }
}

/// A text can be cut after `max_len` bytes: it is no longer than that, or no
/// character of it lies across the cut.
pub open spec fn can_shorten(s: Seq<char>, max_len: int) -> bool {
    encode_utf8(s).len() > max_len ==> is_char_boundary(encode_utf8(s), max_len)
}

/// Whether `s` can be cut after `max_len` bytes.
pub fn can_shorten_str(s: &str, max_len: usize) -> (r: bool)
    ensures
        r == can_shorten(s@, max_len as int),
{
    s.as_bytes().len() <= max_len || s.is_char_boundary(max_len)
}

/// `s` cut to `max_len` bytes and marked with three dots, where it is longer.
pub fn shorten_string(s: String, max_len: usize) -> (r: String)
    requires
        can_shorten(s@, max_len as int),
    ensures
        r@ == shortened(s@, max_len as int),
{
    if s.as_str().as_bytes().len() > max_len {
        let (head, _) = s.as_str().split_at(max_len);
        proof {
            vstd::utf8::encode_utf8_decode_utf8(head@);
        }
        String::from_str(head).concat("...")
    } else {
        s
    }
}

/// What a cell of the table shows.
#[derive(Debug)]
pub struct Cell {
    /// The text that explains the cell: the name of the unit.
    pub tooltip: String,
    /// Whether the cell is drawn as one of a unit that is not active.
    pub inactive: bool,
    /// The text in the cell.
    pub label: String,
}

/// The cell of `unit_object` in `column`: the unit's name explains it, it is drawn
/// as inactive unless the state is `active`, and it shows the column's field, cut
/// to `max_len` bytes.
pub fn build_label(unit_object: &UnitObject, column: Column, max_len: usize) -> (r: Cell)
    requires
        can_shorten(column_value(column, unit_object@), max_len as int),
    ensures
        r.tooltip@ == unit_object@.unit_name,
        r.inactive == (unit_object@.state != "active"@),
        r.label@ == shortened(column_value(column, unit_object@), max_len as int),
{
    Cell {
        tooltip: String::from_str(unit_object.unit_name()),
        inactive: !str_equal(unit_object.state(), "active"),
        label: shorten_string(String::from_str(column.value(unit_object)), max_len),
    }
}

} // verus!
