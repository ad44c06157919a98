use systemd_gtk::policy::{ParseError, SystemCtrlAction};
use systemd_gtk::selection::{
    bind_selection, detail_for, parse_unit_file_path, ActionControls,
};
use systemd_gtk::unit::UnitObject;

fn unit_in_state(state: &str) -> UnitObject {
    UnitObject::from_fields(
        "demo.service".to_string(),
        "loaded".to_string(),
        state.to_string(),
        "running".to_string(),
        "Demo".to_string(),
    )
}

const UNIT_FILE: &str = "# /usr/lib/systemd/system/demo.service\n[Unit]\nDescription=Demo\n";

#[test]
fn path_is_the_second_word_of_the_first_line() {
    assert_eq!(
        parse_unit_file_path(UNIT_FILE),
        Some("/usr/lib/systemd/system/demo.service".to_string())
    );
    assert_eq!(parse_unit_file_path("a b c\nd e f"), Some("b".to_string()));
    assert_eq!(parse_unit_file_path("  #\t /etc/x.service  rest"), Some("/etc/x.service".to_string()));
}

#[test]
fn path_counts_characters_not_bytes() {
    assert_eq!(parse_unit_file_path("ä ö ü"), Some("ö".to_string()));
    assert_eq!(parse_unit_file_path("#\u{a0}/etc/ünit.service\r\nx"), Some("/etc/ünit.service".to_string()));
}

#[test]
fn one_word_on_the_first_line_names_no_path() {
    assert_eq!(parse_unit_file_path("single"), None);
    assert_eq!(parse_unit_file_path("single\nsecond line"), None);
    assert_eq!(parse_unit_file_path("single \r\nsecond line"), None);
}

#[test]
fn text_without_words_names_no_path() {
    assert_eq!(parse_unit_file_path(""), None);
    assert_eq!(parse_unit_file_path("\n# /etc/x.service"), None);
    assert_eq!(parse_unit_file_path("   \t  "), None);
}

#[test]
fn controls_show_the_actions_given() {
    let controls = ActionControls::for_actions(&vec![
        SystemCtrlAction::Stop,
        SystemCtrlAction::Restart,
        SystemCtrlAction::Disable,
    ]);
    assert_eq!(
        controls,
        ActionControls { start: false, stop: true, restart: true, enable: false, disable: true }
    );
    assert!(controls.shows(SystemCtrlAction::Stop));
    assert!(controls.shows(SystemCtrlAction::Restart));
    assert!(controls.shows(SystemCtrlAction::Disable));
    assert!(!controls.shows(SystemCtrlAction::Start));
    assert!(!controls.shows(SystemCtrlAction::Enable));
}

#[test]
fn no_action_shows_no_control() {
    assert_eq!(
        ActionControls::for_actions(&Vec::new()),
        ActionControls { start: false, stop: false, restart: false, enable: false, disable: false }
    );
}

#[test]
fn selection_of_an_active_unit() {
    let binding = bind_selection(&unit_in_state("active"), Some(UNIT_FILE.to_string())).unwrap();
    assert_eq!(
        binding.controls,
        ActionControls { start: false, stop: true, restart: true, enable: false, disable: true }
    );
    let detail = binding.detail.unwrap();
    assert_eq!(detail.title, "/usr/lib/systemd/system/demo.service");
    assert_eq!(detail.text, UNIT_FILE);
}

#[test]
fn selection_of_an_inactive_unit() {
    let binding = bind_selection(&unit_in_state("inactive"), None).unwrap();
    assert_eq!(
        binding.controls,
        ActionControls { start: true, stop: false, restart: false, enable: true, disable: false }
    );
    assert!(binding.detail.is_none());
}

#[test]
fn selection_of_a_failed_unit_shows_no_control() {
    let binding = bind_selection(&unit_in_state("failed"), None).unwrap();
    assert_eq!(
        binding.controls,
        ActionControls { start: false, stop: false, restart: false, enable: false, disable: false }
    );
}

#[test]
fn malformed_unit_file_disables_the_detail() {
    let binding = bind_selection(&unit_in_state("active"), Some("single".to_string())).unwrap();
    assert!(binding.detail.is_none());
    assert!(detail_for(Some("single".to_string())).is_none());
    assert!(detail_for(Some(String::new())).is_none());
}

#[test]
fn failed_fetch_disables_the_detail() {
    assert!(detail_for(None).is_none());
}

#[test]
fn selection_of_an_unknown_state_is_an_error() {
    let bound = bind_selection(&unit_in_state("not-found"), Some(UNIT_FILE.to_string()));
    assert_eq!(bound.err(), Some(ParseError::VariantNotFound));
}

struct Numbers(u64);

impl Numbers {
    fn next(&mut self) -> usize {
        self.0 = self.0.wrapping_mul(6364136223846793005).wrapping_add(1442695040888963407);
        (self.0 >> 33) as usize
    }

    fn text(&mut self, longest: usize) -> String {
        const ALPHABET: [char; 12] =
            [' ', '\t', '\n', '\r', '#', '/', 'a', 'é', '\u{a0}', '\u{2028}', '\u{b}', '.'];
        let len = self.next() % (longest + 1);
        (0..len).map(|_| ALPHABET[self.next() % ALPHABET.len()]).collect()
    }
}

#[test]
fn path_is_what_the_second_word_of_the_first_line_is() {
    let mut numbers = Numbers(7);
    let mut found = 0;
    for _ in 0..40000 {
        let content = numbers.text(10);
        let expected = content
            .lines()
            .next()
            .and_then(|line| line.split_whitespace().nth(1))
            .map(String::from);
        if expected.is_some() {
            found += 1;
        }
        assert_eq!(parse_unit_file_path(&content), expected, "{:?}", content);
    }
    assert!(found > 1000);
}
