use phystext::decimal::{write_decimal, write_fixed};
use phystext::markup::{
    attributes_text, formatted_anchor_factory, formatted_paragraph_factory, white_space, Anchor,
    Paragraph, ProcessedText,
};

#[test]
fn paragraph_without_attributes() {
    let p = Paragraph::new(None, String::from("hi"));
    assert_eq!(p.raw_html, "<p>\n\thi\n</p>");
}

#[test]
fn paragraph_with_attributes() {
    let p = Paragraph::new(Some(String::from("class=\"x\" ")), String::from("hi"));
    assert_eq!(p.raw_html, "<p class=\"x\" >\n\thi\n</p>");
}

#[test]
fn processed_text_tags_each_word() {
    let mut count: u32 = 0;
    let t = ProcessedText::new(String::from("Hello  world "), &mut count);
    assert_eq!(
        t.raw_html,
        "<span class=\"phys-obj phys-id-0\">Hello  </span><span class=\"phys-obj phys-id-1\">world </span>"
    );
    assert_eq!(count, 2);
}

#[test]
fn processed_text_skips_leading_white_space() {
    let mut count: u32 = 7;
    let t = ProcessedText::new(String::from("  a\tb"), &mut count);
    assert_eq!(
        t.raw_html,
        "<span class=\"phys-obj phys-id-7\">a\t</span><span class=\"phys-obj phys-id-8\">b</span>"
    );
    assert_eq!(count, 9);
}

#[test]
fn processed_text_of_empty_and_blank_text() {
    let mut count: u32 = 3;
    let t = ProcessedText::new(String::new(), &mut count);
    assert_eq!(t.raw_html, "");
    assert_eq!(count, 3);
    let t = ProcessedText::new(String::from(" \n\t "), &mut count);
    assert_eq!(t.raw_html, "");
    assert_eq!(count, 3);
}

#[test]
fn processed_text_unicode_white_space() {
    let mut count: u32 = 0;
    let t = ProcessedText::new(String::from("ä\u{3000}ö"), &mut count);
    assert_eq!(
        t.raw_html,
        "<span class=\"phys-obj phys-id-0\">ä\u{3000}</span><span class=\"phys-obj phys-id-1\">ö</span>"
    );
    assert_eq!(count, 2);
}

#[test]
fn paragraph_factory_counts_words() {
    let mut count: u32 = 10;
    let p = formatted_paragraph_factory(None, String::from("one two"), &mut count);
    assert_eq!(
        p.raw_html,
        "<p>\n\t<span class=\"phys-obj phys-id-10\">one </span><span class=\"phys-obj phys-id-11\">two</span>\n</p>"
    );
    assert_eq!(count, 12);
}

#[test]
fn anchor_markup() {
    let a = Anchor::new(Some(String::from("href=\"src.com\" ")), String::from("link"), 4);
    assert_eq!(
        a.raw_html,
        "<a href=\"src.com\" >\n\t<span class=\"phys-obj phys-id-4\">link</span>\n</a>"
    );
    let a = Anchor::new(None, String::from("two words"), 0);
    assert_eq!(
        a.raw_html,
        "<a>\n\t<span class=\"phys-obj phys-id-0\">two words</span>\n</a>"
    );
}

#[test]
fn anchor_factory_takes_one_id() {
    let mut count: u32 = 5;
    let a = formatted_anchor_factory(None, String::from("go"), &mut count);
    assert_eq!(a.raw_html, "<a>\n\t<span class=\"phys-obj phys-id-5\">go</span>\n</a>");
    assert_eq!(count, 6);
}

#[test]
fn attribute_text_of_element() {
    let attrs = vec![
        (String::from("href"), Some(String::from("a.com"))),
        (String::from("hidden"), None),
        (String::from("id"), Some(String::from("x"))),
    ];
    assert_eq!(attributes_text(&attrs), Some(String::from("href=\"a.com\" id=\"x\" ")));
    let none: Vec<(String, Option<String>)> = vec![(String::from("hidden"), None)];
    assert_eq!(attributes_text(&none), None);
    assert_eq!(attributes_text(&Vec::new()), None);
}

#[test]
fn white_space_characters() {
    assert!(white_space(' '));
    assert!(white_space('\n'));
    assert!(white_space('\u{a0}'));
    assert!(white_space('\u{2009}'));
    assert!(!white_space('a'));
    assert!(!white_space('\u{200b}'));
    for c in ['\t', '\u{b}', '\u{c}', '\r', '\u{85}', '\u{1680}', '\u{2028}', '\u{3000}', 'x', '-'] {
        assert_eq!(white_space(c), c.is_whitespace());
    }
}

#[test]
fn decimal_text() {
    let mut s = String::from("n=");
    write_decimal(&mut s, 0);
    assert_eq!(s, "n=0");
    let mut s = String::new();
    write_decimal(&mut s, 4294967295);
    assert_eq!(s, "4294967295");
}

#[test]
fn fixed_point_text() {
    let cases: [(i64, &str); 7] = [
        (20000000, "20"),
        (20500000, "20.5"),
        (-250000, "-0.25"),
        (1, "0.000001"),
        (0, "0"),
        (-1000000, "-1"),
        (779000000, "779"),
    ];
    for (v, text) in cases {
        let mut s = String::new();
        write_fixed(&mut s, v);
        assert_eq!(s, text);
    }
}
