use systemd_gtk::table::{
    build_label, can_shorten_str, shorten_string, split_name_and_suffix, Column,
};
use systemd_gtk::unit::UnitObject;

fn unit(name: &str, state: &str, description: &str) -> UnitObject {
    UnitObject::from_fields(
        name.to_string(),
        "loaded".to_string(),
        state.to_string(),
        "running".to_string(),
        description.to_string(),
    )
}

#[test]
fn columns_stand_in_their_order() {
    assert_eq!(
        Column::all(),
        vec![Column::Unit, Column::Load, Column::Active, Column::Sub, Column::Description]
    );
}

#[test]
fn columns_have_their_titles() {
    let titles: Vec<&str> = Column::all().into_iter().map(|c| c.title()).collect();
    assert_eq!(titles, vec!["UNIT", "LOAD", "ACTIVE", "SUB", "DESCRIPTION"]);
}

#[test]
fn table_is_sorted_by_unit_at_first() {
    assert_eq!(Column::default_sort(), Column::Unit);
}

#[test]
fn each_column_shows_its_field() {
    let u = UnitObject::from_fields(
        "n".to_string(),
        "l".to_string(),
        "a".to_string(),
        "s".to_string(),
        "d".to_string(),
    );
    assert_eq!(Column::Unit.value(&u), "n");
    assert_eq!(Column::Load.value(&u), "l");
    assert_eq!(Column::Active.value(&u), "a");
    assert_eq!(Column::Sub.value(&u), "s");
    assert_eq!(Column::Description.value(&u), "d");
}

#[test]
fn name_is_split_before_its_last_dot() {
    assert_eq!(split_name_and_suffix("sshd.service"), ("sshd", ".service"));
    assert_eq!(split_name_and_suffix("a.b.c"), ("a.b", ".c"));
}

#[test]
fn name_without_dot_has_no_suffix() {
    assert_eq!(split_name_and_suffix("noext"), ("noext", ""));
    assert_eq!(split_name_and_suffix(""), ("", ""));
}

#[test]
fn dot_at_either_end_is_split_too() {
    assert_eq!(split_name_and_suffix(".hidden"), ("", ".hidden"));
    assert_eq!(split_name_and_suffix("trailing."), ("trailing", "."));
}

#[test]
fn split_counts_characters_not_bytes() {
    assert_eq!(split_name_and_suffix("grüße.service"), ("grüße", ".service"));
    assert_eq!(split_name_and_suffix("a.ünit"), ("a", ".ünit"));
}

#[test]
fn long_text_is_cut_and_marked() {
    assert_eq!(shorten_string("abcdef".to_string(), 3), "abc...");
    assert_eq!(shorten_string("abcdef".to_string(), 0), "...");
    assert_eq!(shorten_string("abcdef".to_string(), 5), "abcde...");
}

#[test]
fn short_text_is_kept() {
    assert_eq!(shorten_string("abc".to_string(), 3), "abc");
    assert_eq!(shorten_string("abc".to_string(), 1000), "abc");
    assert_eq!(shorten_string(String::new(), 0), "");
}

#[test]
fn text_is_cut_by_bytes() {
    assert_eq!(shorten_string("äbc".to_string(), 2), "ä...");
    assert_eq!(shorten_string("äbc".to_string(), 3), "äb...");
}

#[test]
fn cut_must_not_split_a_character() {
    assert!(can_shorten_str("äbc", 0));
    assert!(!can_shorten_str("äbc", 1));
    assert!(can_shorten_str("äbc", 2));
    assert!(can_shorten_str("ä", 1000));
    assert!(can_shorten_str("ä", 2));
}

#[test]
fn cell_of_an_active_unit() {
    let cell = build_label(&unit("sshd.service", "active", "OpenSSH"), Column::Description, 1000);
    assert_eq!(cell.tooltip, "sshd.service");
    assert!(!cell.inactive);
    assert_eq!(cell.label, "OpenSSH");
}

#[test]
fn cell_of_a_unit_that_is_not_active() {
    for state in ["inactive", "failed", "Active", ""] {
        let cell = build_label(&unit("sshd.service", state, "OpenSSH"), Column::Unit, 1000);
        assert!(cell.inactive);
        assert_eq!(cell.label, "sshd.service");
    }
}

#[test]
fn cell_text_is_cut() {
    let cell = build_label(&unit("sshd.service", "active", "OpenSSH"), Column::Unit, 4);
    assert_eq!(cell.tooltip, "sshd.service");
    assert_eq!(cell.label, "sshd...");
}

struct Numbers(u64);

impl Numbers {
    fn next(&mut self) -> usize {
        self.0 = self.0.wrapping_mul(6364136223846793005).wrapping_add(1442695040888963407);
        (self.0 >> 33) as usize
    }

    fn text(&mut self, longest: usize) -> String {
        const ALPHABET: [char; 8] = ['.', '.', 'a', 'b', 'é', '😀', ' ', '-'];
        let len = self.next() % (longest + 1);
        (0..len).map(|_| ALPHABET[self.next() % ALPHABET.len()]).collect()
    }
}

#[test]
fn split_is_at_the_last_dot_of_any_name() {
    let mut numbers = Numbers(8);
    for _ in 0..40000 {
        let name = numbers.text(8);
        let expected = match name.rfind('.') {
            Some(idx) => (&name[..idx], &name[idx..]),
            None => (name.as_str(), ""),
        };
        assert_eq!(split_name_and_suffix(&name), expected, "{:?}", name);
    }
}

#[test]
fn text_is_cut_where_it_can_be() {
    let mut numbers = Numbers(9);
    let mut cut = 0;
    for _ in 0..40000 {
        let text = numbers.text(8);
        let max_len = numbers.next() % 12;
        let can = text.len() <= max_len || text.is_char_boundary(max_len);
        assert_eq!(can_shorten_str(&text, max_len), can, "{:?} {}", text, max_len);
        if can {
            let expected = if text.len() > max_len {
                cut += 1;
                format!("{}...", &text[..max_len])
            } else {
                text.clone()
            };
            assert_eq!(shorten_string(text.clone(), max_len), expected, "{:?} {}", text, max_len);
        }
    }
    assert!(cut > 1000);
}
