//! Tests of the quote model: parsing a single quote object and rendering it.

use motivator::json::parse_quote;
use motivator::quotes::Quote;

#[test]
fn print_quote_from_valid_json() {
    let correct_json = r#"
                {
                    "quote": "Mindset is everything",
                    "author": "unknown",
                    "tags": ["Motivational", "Positivity"]
                }
            "#;

    let quote: Quote = parse_quote(correct_json).unwrap();
    let printed_json = "Mindset is everything - unknown";

    assert_eq!(quote.render(), printed_json);
}

#[test]
fn alert_empty_quote() {
    let correct_json = r#"
                {
                    "quote": "",
                    "author": "",
                    "tags": [""]
                }
            "#;

    let quote: Quote = parse_quote(correct_json).unwrap();
    let printed_json = "<Quote missing.>";

    assert_eq!(quote.render(), printed_json);
}

#[test]
fn render_text_without_author() {
    let quote = Quote {
        quote: String::from("Pain is mandatory, suffering is optional"),
        author: String::new(),
        tags: Vec::new(),
    };
    assert_eq!(quote.render(), "Pain is mandatory, suffering is optional");
}

#[test]
fn render_text_with_author() {
    let quote = Quote {
        quote: String::from("Do, or do not, there is no try"),
        author: String::from("Yoda"),
        tags: vec![String::from("Motivational")],
    };
    assert_eq!(quote.render(), "Do, or do not, there is no try - Yoda");
}

#[test]
fn render_missing_ignores_author_and_tags() {
    let quote = Quote {
        quote: String::new(),
        author: String::from("Seneca"),
        tags: vec![String::from("Stoic")],
    };
    assert_eq!(quote.render(), "<Quote missing.>");
}

#[test]
fn parse_quote_fields_in_any_order() {
    let json = r#"{ "tags": ["a", "b"], "author": "x", "quote": "y" }"#;
    let quote = parse_quote(json).unwrap();
    assert_eq!(quote.quote, "y");
    assert_eq!(quote.author, "x");
    assert_eq!(quote.tags, vec![String::from("a"), String::from("b")]);
}

#[test]
fn parse_quote_rejects_missing_field() {
    let json = r#"{ "quote": "y", "author": "x" }"#;
    assert!(parse_quote(json).is_err());
}

#[test]
fn parse_quote_rejects_duplicate_field() {
    let json = r#"{ "quote": "y", "quote": "z", "author": "x", "tags": [] }"#;
    assert!(parse_quote(json).is_err());
}

#[test]
fn parse_quote_rejects_trailing_text() {
    let json = r#"{ "quote": "y", "author": "x", "tags": [] } extra"#;
    assert!(parse_quote(json).is_err());
}

#[test]
fn parse_quote_decodes_escapes() {
    let json = r#"{ "quote": "a\"b\\c\/d\ne\tf", "author": "\u0041\u0042C", "tags": ["\uD83D\uDE00"] }"#;
    let quote = parse_quote(json).unwrap();
    assert_eq!(quote.quote, "a\"b\\c/d\ne\tf");
    assert_eq!(quote.author, "ABC");
    assert_eq!(quote.tags, vec![String::from("\u{1F600}")]);
}

#[test]
fn parse_quote_rejects_lone_surrogate() {
    let json = r#"{ "quote": "\uD83D", "author": "", "tags": [] }"#;
    assert!(parse_quote(json).is_err());
}

#[test]
fn parse_quote_rejects_bad_escape() {
    let json = r#"{ "quote": "\x41", "author": "", "tags": [] }"#;
    assert!(parse_quote(json).is_err());
}

#[test]
fn parse_quote_rejects_unescaped_control_character() {
    let json = "{ \"quote\": \"a\nb\", \"author\": \"\", \"tags\": [] }";
    assert!(parse_quote(json).is_err());
}
