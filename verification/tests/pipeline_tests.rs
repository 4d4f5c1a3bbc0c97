//! Tests of the whole pipeline: loading a quotes document, filtering by
//! tag, and producing the printed lines.

use motivator::filter::filter;
use motivator::json::load;
use motivator::present::present;
use motivator::quotes::Quote;
use motivator::{get_file_name, run_quotes, Config};

const ONE_QUOTE: &str =
    r#"{"quotes":[{"quote":"Mindset is everything","author":"unknown","tags":["Motivational"]}]}"#;

const THREE_QUOTES: &str = r#"{
  "quotes": [
    { "quote": "a", "author": "x", "tags": ["Stoic", "Calm"] },
    { "quote": "b", "author": "",  "tags": ["stoic", "STOIC"] },
    { "quote": "c", "author": "z", "tags": [] }
  ]
}"#;

fn quotes_of(text: &str) -> Vec<Quote> {
    load(text).unwrap().quotes
}

#[test]
fn file_doesnt_exist() {
    // An unreadable path falls back to treating the path itself as the
    // source text, which is not a quotes document.
    assert!(load("test/file/doesnt/exist").is_err());
    assert!(run_quotes("test/file/doesnt/exist", &String::new(), false).is_err());
}

#[test]
fn check_empty_file() {
    assert!(load("").is_err());
}

#[test]
fn check_json_format() {
    // missing ending " for 'quotes'
    let text = r#"{
                  "quotes: [
                    {
                      "quote": "Mindset is everything",
                      "author": "",
                      "tags": ["Motivational", "Positivity"]
                    }
                  ]
                }
                "#;
    assert!(load(text).is_err());
}

#[test]
fn tag_doesnt_exist() {
    let lines = run_quotes(ONE_QUOTE, &String::from("sleep"), false).unwrap();
    assert_eq!(lines, vec![String::from("Selected Tag returned no matching quotes.")]);
}

#[test]
fn load_rejects_missing_quotes_key() {
    assert!(load(r#"{"entries":[]}"#).is_err());
    assert!(load(r#"{}"#).is_err());
    assert!(load(r#"[]"#).is_err());
    assert!(load(r#""quotes""#).is_err());
}

#[test]
fn load_rejects_wrong_types() {
    assert!(load(r#"{"quotes": 5}"#).is_err());
    assert!(load(r#"{"quotes": [5]}"#).is_err());
    assert!(load(r#"{"quotes":[{"quote": 1, "author": "", "tags": []}]}"#).is_err());
    assert!(load(r#"{"quotes":[{"quote": "a", "author": "", "tags": "b"}]}"#).is_err());
}

#[test]
fn load_keeps_order_and_fields() {
    let qs = quotes_of(THREE_QUOTES);
    assert_eq!(qs.len(), 3);
    assert_eq!(qs[0].quote, "a");
    assert_eq!(qs[0].author, "x");
    assert_eq!(qs[0].tags, vec![String::from("Stoic"), String::from("Calm")]);
    assert_eq!(qs[1].quote, "b");
    assert_eq!(qs[2].author, "z");
    assert!(qs[2].tags.is_empty());
}

#[test]
fn load_accepts_empty_collection() {
    assert!(quotes_of(r#"{"quotes":[]}"#).is_empty());
    assert!(quotes_of(" { \"quotes\" : [ ] } ").is_empty());
}

#[test]
fn filter_empty_tag_is_identity() {
    let c = load(THREE_QUOTES).unwrap();
    let kept = filter(&c, &String::new());
    assert_eq!(kept.quotes.len(), 3);
    for (k, q) in kept.quotes.iter().enumerate() {
        assert_eq!(q.quote, c.quotes[k].quote);
        assert_eq!(q.author, c.quotes[k].author);
        assert_eq!(q.tags, c.quotes[k].tags);
    }
}

#[test]
fn filter_is_case_insensitive_and_keeps_order() {
    let c = load(THREE_QUOTES).unwrap();
    let kept = filter(&c, &String::from("sToIc"));
    let texts: Vec<&str> = kept.quotes.iter().map(|q| q.quote.as_str()).collect();
    assert_eq!(texts, vec!["a", "b"]);
}

#[test]
fn filter_keeps_multi_match_quote_once() {
    // The second quote carries the tag twice; it must survive exactly once.
    let c = load(THREE_QUOTES).unwrap();
    let kept = filter(&c, &String::from("STOIC"));
    assert_eq!(kept.quotes.len(), 2);
    assert_eq!(kept.quotes[1].quote, "b");
}

#[test]
fn filter_unmatched_tag_yields_empty() {
    let c = load(THREE_QUOTES).unwrap();
    assert!(filter(&c, &String::from("Positivity")).quotes.is_empty());
    assert!(filter(&c, &String::from("Sto")).quotes.is_empty());
}

#[test]
fn present_empty_prints_notice() {
    let c = load(r#"{"quotes":[]}"#).unwrap();
    for show_all in [false, true] {
        let lines = present(&c, show_all);
        assert_eq!(lines, vec![String::from("Selected Tag returned no matching quotes.")]);
    }
}

#[test]
fn present_all_prints_each_quote_with_separator() {
    let c = load(THREE_QUOTES).unwrap();
    let lines = present(&c, true);
    assert_eq!(lines, vec![
        String::from("a - x"),
        String::new(),
        String::from("b"),
        String::new(),
        String::from("c - z"),
        String::new(),
    ]);
}

#[test]
fn present_one_picks_a_quote_from_the_collection() {
    let c = load(THREE_QUOTES).unwrap();
    for _ in 0..20 {
        let lines = present(&c, false);
        assert_eq!(lines.len(), 1);
        assert!(["a - x", "b", "c - z"].contains(&lines[0].as_str()));
    }
}

#[test]
fn end_to_end_single_quote() {
    let lines = run_quotes(ONE_QUOTE, &String::new(), false).unwrap();
    assert_eq!(lines, vec![String::from("Mindset is everything - unknown")]);
}

#[test]
fn end_to_end_unmatched_tag_any_case() {
    for tag in ["stoic", "STOIC", "Stoic"] {
        let lines = run_quotes(ONE_QUOTE, &String::from(tag), false).unwrap();
        assert_eq!(lines, vec![String::from("Selected Tag returned no matching quotes.")]);
    }
}

#[test]
fn end_to_end_show_all_after_filter() {
    let lines = run_quotes(THREE_QUOTES, &String::from("stoic"), true).unwrap();
    assert_eq!(lines, vec![
        String::from("a - x"),
        String::new(),
        String::from("b"),
        String::new(),
    ]);
}

#[test]
fn built_in_quotes_parse() {
    let text = Quote::built_in_quotes();
    let c = load(text.as_str()).unwrap();
    assert_eq!(c.quotes.len(), 35);
    assert_eq!(c.quotes[0].quote, "Mindset is everything");
    assert_eq!(
        c.quotes[0].tags,
        vec![String::from("Motivational"), String::from("Positivity")]
    );
}

#[test]
fn get_file_name_resolves_source() {
    let named = get_file_name(&Some(String::from("quotes.json")));
    assert_eq!(named, "quotes.json");
    let fallback = get_file_name(&None);
    assert_eq!(fallback, Quote::built_in_quotes());
}

#[test]
fn config_carries_the_resolved_options() {
    let config = Config {
        file_path: None,
        tag: Some(String::from("Stoic")),
        show_all: false,
        quiet_output: true,
    };
    assert!(config.file_path.is_none());
    assert_eq!(config.tag.as_deref(), Some("Stoic"));
    assert!(!config.show_all);
    assert!(config.quiet_output);
}
