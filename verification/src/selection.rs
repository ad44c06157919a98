//! The selection binder: what the selection of a record binds to the controls.

use crate::policy::{policy, ParseError, SystemCtrlAction};
use crate::text::{
    chars_of, first_line, is_line, lemma_line_end_unique, line_at, line_text, word_spans, words,
    Whitespace,
};
use crate::unit::UnitObject;
use vstd::prelude::*;
use vstd::string::StrSliceExecFns;

verus! {

/// The path that the text of a unit file names: the second word of its first
/// line, the words being what whitespace separates. A text without a first line,
/// or with less than two words on it, names none.
pub open spec fn unit_file_path(content: Seq<char>) -> Option<Seq<char>> {
    if content.len() > 0 && words(first_line(content), Whitespace::Unicode).len() >= 2 {
        Some(words(first_line(content), Whitespace::Unicode)[1])
    } else {
        None
    }
}

/// The path that the text of a unit file names, if it names one.
pub fn parse_unit_file_path(content: &str) -> (r: Option<String>)
    ensures
        match unit_file_path(content@) {
            Some(path) => r is Some && r->0@ == path,
            None => r is None,
        },
{
    let chars = chars_of(content);
    if chars.len() == 0 {
        return None;
    }
    let (end, text_end) = line_at(&chars, 0);
    proof {
        let chosen = choose|b: int| is_line(chars@, 0, b);
        lemma_line_end_unique(chars@, 0, end as int, chosen);
        assert(first_line(chars@) == chars@.subrange(0, text_end as int));
    }
    let spans = word_spans(&chars, 0, text_end, Whitespace::Unicode);
    if spans.len() >= 2 {
        let (from, to) = spans[1];
        Some(content.substring_char(from, to).to_owned())
    } else {
        None
    }
}

/// Which of the five controls are shown.
#[derive(Clone, Copy, Debug, PartialEq, Eq, Structural)]
pub struct ActionControls {
    pub start: bool,
    pub stop: bool,
    pub restart: bool,
    pub enable: bool,
    pub disable: bool,
}

/// The detail view of a unit file.
#[derive(Debug)]
pub struct Detail {
    /// The path of the unit file.
    pub title: String,
    /// The text of the unit file.
    pub text: String,
}

/// What the selection of a record binds: the controls that are shown, and the
/// detail view, without which the control that opens it is disabled.
#[derive(Debug)]
pub struct Binding {
    pub controls: ActionControls,
    pub detail: Option<Detail>,
}

/// The controls that show for a list of actions: each action of the list has its
/// control shown, and every other control is hidden.
pub open spec fn controls_of(actions: Seq<SystemCtrlAction>) -> ActionControls {
    ActionControls {
        start: actions.contains(SystemCtrlAction::Start),
        stop: actions.contains(SystemCtrlAction::Stop),
        restart: actions.contains(SystemCtrlAction::Restart),
        enable: actions.contains(SystemCtrlAction::Enable),
        disable: actions.contains(SystemCtrlAction::Disable),
    }
}

/// The title and the text of the detail view for what the fetch of the unit file
/// gave: there is one where the fetch gave a text and the text names a path.
pub open spec fn detail_of(unit_file: Option<Seq<char>>) -> Option<(Seq<char>, Seq<char>)> {
    match unit_file {
        Some(content) => match unit_file_path(content) {
            Some(path) => Some((path, content)),
            None => None,
        },
        None => None,
    }
}

/// What a string option holds.
pub open spec fn text_of(unit_file: Option<String>) -> Option<Seq<char>> {
    match unit_file {
        Some(content) => Some(content@),
        None => None,
    }
}

impl ActionControls {
    /// The controls that show for `actions`.
    pub fn for_actions(actions: &Vec<SystemCtrlAction>) -> (r: Self)
        ensures
            r == controls_of(actions@),
    {
        let mut r = ActionControls {
            start: false,
            stop: false,
            restart: false,
            enable: false,
            disable: false,
        };
        let mut i: usize = 0;
        while i < actions.len()
            invariant
                i <= actions.len(),
                r == controls_of(actions@.take(i as int)),
            decreases actions.len() - i,
        {
            proof {
                let before = actions@.take(i as int);
                let now = actions@.take(i + 1);
                assert(now =~= before.push(actions@[i as int]));
                assert forall|a: SystemCtrlAction| now.contains(a) == (before.contains(a) || a
                    == actions@[i as int]) by {
                    if before.contains(a) {
                        let k = choose|k: int| 0 <= k < before.len() && before[k] == a;
                        assert(now[k] == a);
                    }
                    if a == actions@[i as int] {
                        assert(now[i as int] == a);
                    }
                }
            }
            match actions[i] {
                SystemCtrlAction::Start => {
                    r.start = true;
                },
                SystemCtrlAction::Stop => {
                    r.stop = true;
                },
                SystemCtrlAction::Restart => {
                    r.restart = true;
                },
                SystemCtrlAction::Enable => {
                    r.enable = true;
                },
                SystemCtrlAction::Disable => {
                    r.disable = true;
                },
            }
            i += 1;
        }
        proof {
            assert(actions@.take(actions@.len() as int) =~= actions@);
        }
        r
    }

    /// Whether the control of `action` is shown.
    pub fn shows(&self, action: SystemCtrlAction) -> (r: bool)
        ensures
            r == match action {
                SystemCtrlAction::Start => self.start,
                SystemCtrlAction::Stop => self.stop,
                SystemCtrlAction::Restart => self.restart,
                SystemCtrlAction::Enable => self.enable,
                SystemCtrlAction::Disable => self.disable,
            },
    {
        match action {
            SystemCtrlAction::Start => self.start,
            SystemCtrlAction::Stop => self.stop,
            SystemCtrlAction::Restart => self.restart,
            SystemCtrlAction::Enable => self.enable,
            SystemCtrlAction::Disable => self.disable,
        }
    }
}

/// The detail view for what the fetch of a unit file gave: `None` where the fetch
/// failed or the text names no path.
pub fn detail_for(unit_file: Option<String>) -> (r: Option<Detail>)
    ensures
        match detail_of(text_of(unit_file)) {
            Some((title, text)) => r is Some && r->0.title@ == title && r->0.text@ == text,
            None => r is None,
        },
{
    match unit_file {
        Some(content) => match parse_unit_file_path(content.as_str()) {
            Some(path) => Some(Detail { title: path, text: content }),
            None => None,
        },
        None => None,
    }
}

/// What the selection of `unit_object` binds, given what the fetch of its unit
/// file gave. The controls are those of the actions that the unit's state allows.
/// A state string that names no state is an error, and nothing is bound.
pub fn bind_selection(unit_object: &UnitObject, unit_file: Option<String>) -> (r: Result<
    Binding,
    ParseError,
>)
    ensures
        match policy(unit_object@.state) {
            Ok(actions) => {
                &&& r is Ok
                &&& r->Ok_0.controls == controls_of(actions)
                &&& match detail_of(text_of(unit_file)) {
                    Some((title, text)) => {
                        &&& r->Ok_0.detail is Some
                        &&& r->Ok_0.detail->0.title@ == title
                        &&& r->Ok_0.detail->0.text@ == text
                    },
                    None => r->Ok_0.detail is None,
                }
            },
            Err(e) => r is Err && r->Err_0 == e,
        },
{
    match SystemCtrlAction::available_actions(unit_object) {
        Ok(actions) => Ok(
            Binding {
                controls: ActionControls::for_actions(&actions),
                detail: detail_for(unit_file),
            },
        ),
        Err(e) => Err(e),
    }
}

/// A text whose first line has less than two words gives no detail view, so the
/// control that opens it stays disabled.
pub proof fn lemma_no_second_word_no_detail(content: Seq<char>)
    requires
        content.len() == 0 || words(first_line(content), Whitespace::Unicode).len() < 2,
    ensures
        detail_of(Some(content)) is None,
{
}

} // verus!
