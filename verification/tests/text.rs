use systemd_gtk::text::{
    char_before, chars_equal, chars_less, chars_of, common_prefix_len, contains, is_space_char,
    line_at, rfind_char, str_equal, word_spans, Whitespace,
};

const ALPHABET: [char; 16] = [
    ' ', '\t', '\n', '\r', '.', '\u{25cf}', 'a', 'B', 'b', 'é', '\u{a0}', '\u{2003}', '\u{c}',
    '\u{b}', '😀', 'z',
];

struct Numbers(u64);

impl Numbers {
    fn next(&mut self) -> usize {
        self.0 = self.0.wrapping_mul(6364136223846793005).wrapping_add(1442695040888963407);
        (self.0 >> 33) as usize
    }

    fn text(&mut self, longest: usize) -> String {
        let len = self.next() % (longest + 1);
        (0..len).map(|_| ALPHABET[self.next() % ALPHABET.len()]).collect()
    }
}

fn part(chars: &Vec<char>, from: usize, to: usize) -> String {
    chars[from..to].iter().collect()
}

fn lines_of(text: &str) -> Vec<String> {
    let chars = chars_of(text);
    let mut lines = Vec::new();
    let mut start = 0;
    while start < chars.len() {
        let (end, text_end) = line_at(&chars, start);
        lines.push(part(&chars, start, text_end));
        start = end + 1;
    }
    lines
}

fn words_of(text: &str, kind: Whitespace) -> Vec<String> {
    let chars = chars_of(text);
    word_spans(&chars, 0, chars.len(), kind)
        .into_iter()
        .map(|(from, to)| part(&chars, from, to))
        .collect()
}

#[test]
fn chars_of_gives_the_characters() {
    assert_eq!(chars_of("aé😀"), vec!['a', 'é', '😀']);
    assert_eq!(chars_of(""), Vec::<char>::new());
}

#[test]
fn ascii_whitespace_is_the_five_characters() {
    for c in (0..=0x10ffff_u32).filter_map(char::from_u32) {
        assert_eq!(is_space_char(c, Whitespace::Ascii), c.is_ascii_whitespace(), "{:?}", c);
    }
}

#[test]
fn unicode_whitespace_is_the_white_space_property() {
    for c in (0..=0x10ffff_u32).filter_map(char::from_u32) {
        assert_eq!(is_space_char(c, Whitespace::Unicode), c.is_whitespace(), "{:?}", c);
    }
}

#[test]
fn characters_are_ordered_by_code_point() {
    assert!(char_before('a', 'b'));
    assert!(char_before('Z', 'a'));
    assert!(char_before('z', 'é'));
    assert!(!char_before('b', 'a'));
    assert!(!char_before('a', 'a'));
}

#[test]
fn common_prefix_ends_at_the_first_difference() {
    assert_eq!(common_prefix_len(&chars_of("abcx"), &chars_of("abcy")), 3);
    assert_eq!(common_prefix_len(&chars_of("abc"), &chars_of("abcd")), 3);
    assert_eq!(common_prefix_len(&chars_of("abc"), &chars_of("abc")), 3);
    assert_eq!(common_prefix_len(&chars_of("x"), &chars_of("y")), 0);
    assert_eq!(common_prefix_len(&chars_of(""), &chars_of("y")), 0);
}

#[test]
fn order_of_strings_is_the_order_of_str() {
    let mut numbers = Numbers(1);
    for _ in 0..20000 {
        let a = numbers.text(5);
        let b = numbers.text(5);
        assert_eq!(chars_less(&chars_of(&a), &chars_of(&b)), a < b, "{:?} {:?}", a, b);
        assert_eq!(chars_equal(&chars_of(&a), &chars_of(&b)), a == b, "{:?} {:?}", a, b);
        assert_eq!(str_equal(&a, &b), a == b, "{:?} {:?}", a, b);
    }
}

#[test]
fn prefix_comes_before_what_it_starts() {
    assert!(chars_less(&chars_of(""), &chars_of("a")));
    assert!(chars_less(&chars_of("ab"), &chars_of("abc")));
    assert!(!chars_less(&chars_of("abc"), &chars_of("ab")));
    assert!(!chars_less(&chars_of("abc"), &chars_of("abc")));
    assert!(chars_less(&chars_of(".service"), &chars_of(".socket")));
}

#[test]
fn contains_is_substring_search() {
    let mut numbers = Numbers(2);
    for _ in 0..20000 {
        let hay = numbers.text(8);
        let needle = numbers.text(3);
        assert_eq!(
            contains(&chars_of(&hay), &chars_of(&needle)),
            hay.contains(&needle),
            "{:?} {:?}",
            hay,
            needle
        );
    }
}

#[test]
fn contains_at_the_ends() {
    assert!(contains(&chars_of("abc"), &chars_of("")));
    assert!(contains(&chars_of(""), &chars_of("")));
    assert!(contains(&chars_of("abc"), &chars_of("abc")));
    assert!(contains(&chars_of("abc"), &chars_of("a")));
    assert!(contains(&chars_of("abc"), &chars_of("c")));
    assert!(!contains(&chars_of("abc"), &chars_of("abcd")));
    assert!(!contains(&chars_of(""), &chars_of("a")));
}

#[test]
fn rfind_char_finds_the_last_one() {
    assert_eq!(rfind_char(&chars_of("a.b.c"), '.'), Some(3));
    assert_eq!(rfind_char(&chars_of(".abc"), '.'), Some(0));
    assert_eq!(rfind_char(&chars_of("abc"), '.'), None);
    assert_eq!(rfind_char(&chars_of(""), '.'), None);
    assert_eq!(rfind_char(&chars_of("é.é"), '.'), Some(1));
}

#[test]
fn words_are_what_split_whitespace_gives() {
    let mut numbers = Numbers(3);
    for _ in 0..20000 {
        let text = numbers.text(12);
        let unicode: Vec<String> = text.split_whitespace().map(String::from).collect();
        assert_eq!(words_of(&text, Whitespace::Unicode), unicode, "{:?}", text);
        let ascii: Vec<String> = text.split_ascii_whitespace().map(String::from).collect();
        assert_eq!(words_of(&text, Whitespace::Ascii), ascii, "{:?}", text);
    }
}

#[test]
fn words_of_a_part_of_the_text() {
    let chars = chars_of("ab cd  ef");
    assert_eq!(word_spans(&chars, 0, 9, Whitespace::Ascii), vec![(0, 2), (3, 5), (7, 9)]);
    assert_eq!(word_spans(&chars, 1, 8, Whitespace::Ascii), vec![(1, 2), (3, 5), (7, 8)]);
    assert_eq!(word_spans(&chars, 2, 3, Whitespace::Ascii), vec![]);
    assert_eq!(word_spans(&chars, 4, 4, Whitespace::Ascii), vec![]);
}

#[test]
fn lines_are_what_lines_gives() {
    let mut numbers = Numbers(4);
    for _ in 0..20000 {
        let text = numbers.text(12);
        let expected: Vec<String> = text.lines().map(String::from).collect();
        assert_eq!(lines_of(&text), expected, "{:?}", text);
    }
}

#[test]
fn line_ends_before_its_line_feed() {
    let chars = chars_of("ab\r\ncd\n\nef\r");
    assert_eq!(line_at(&chars, 0), (3, 2));
    assert_eq!(line_at(&chars, 4), (6, 6));
    assert_eq!(line_at(&chars, 7), (7, 7));
    assert_eq!(line_at(&chars, 8), (11, 11));
}
