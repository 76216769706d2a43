use nautilus_oracle::inference::{
    amount_reaches, determine_outcome_from_text, extract_numeric_threshold, extract_price_target,
    has_fallback_word, has_positive_status, has_price_cue, has_some_positive, indicator_majority,
    infer, infer_parsed, is_affirmative_answer, measure, parse_json_response, target_of_amount,
};
use nautilus_oracle::json::{JsonDocument, JsonField, JsonValue};

fn document(fields: Vec<(&str, JsonValue)>, rendered: &str) -> JsonDocument {
    JsonDocument {
        fields: fields
            .into_iter()
            .map(|(name, value)| JsonField { name: name.to_string(), value })
            .collect(),
        rendered: rendered.to_string(),
    }
}

fn digits(d: &nautilus_oracle::numeral::Decimal) -> String {
    d.whole().iter().collect()
}

#[test]
fn explicit_boolean_outcome_wins_for_any_question() {
    let raw = "{\"outcome\": true}";
    for question in ["Will it rain?", "Will BTC reach $100k?", ""] {
        let (outcome, justification) = infer(raw, question);
        assert!(outcome);
        assert_eq!(justification, raw);
    }
}

#[test]
fn explicit_false_outcome_beats_positive_words() {
    let raw = "{\"outcome\": false, \"status\": \"success\"}";
    let (outcome, justification) = infer(raw, "Did it work?");
    assert!(!outcome);
    assert_eq!(justification, raw);
}

#[test]
fn result_yes_is_true() {
    let (outcome, justification) = infer("{\"result\": \"yes\"}", "Anything?");
    assert!(outcome);
    assert_eq!(justification, "{\"result\": \"yes\"}");
}

#[test]
fn answer_text_is_compared_in_lowercase() {
    assert!(infer("{\"answer\": \"TRUE\"}", "q").0);
    assert!(infer("{\"resolved\": \"Yes\"}", "q").0);
    assert!(infer("{\"answer\": \"1\"}", "q").0);
    assert!(!infer("{\"answer\": \"yes!\"}", "q").0);
    assert!(!infer("{\"answer\": \"no\"}", "q").0);
}

#[test]
fn outcome_names_are_tried_in_order() {
    // `outcome` is there, so `result` is not consulted by the first rule
    assert!(!infer("{\"result\": true, \"outcome\": false}", "q").0);
    assert!(infer("{\"result\": false, \"outcome\": \"yes\"}", "q").0);
}

#[test]
fn outcome_of_another_kind_decides_nothing() {
    // a number under `outcome` leaves the first rule undecided; nothing
    // else decides, and the serialization holds no positive word
    let (outcome, justification) = infer("{\"outcome\": 5}", "q");
    assert!(!outcome);
    assert_eq!(justification, "{\"outcome\": 5}");
    // with `result` present but shadowed, the fallback still sees `true`
    assert!(infer("{\"outcome\": 5, \"result\": true}", "q").0);
}

#[test]
fn status_completed_is_true() {
    let raw = "{\"status\":\"completed\"}";
    let (outcome, justification) = infer(raw, "Did it finish?");
    assert!(outcome);
    assert_eq!(justification, raw);
}

#[test]
fn status_words_are_searched_within_the_text() {
    assert!(infer("{\"state\": \"Now ACTIVE again\"}", "q").0);
    assert!(infer("{\"condition\": \"successful\"}", "q").0);
    assert!(!infer("{\"status\": \"pending\"}", "q").0);
    // the status rule decides, so the fallback never sees the word `true`
    assert!(!infer("{\"status\": \"pending\", \"other\": true}", "q").0);
}

#[test]
fn price_above_target_is_true() {
    let (outcome, justification) = infer("{\"price\": 105000}", "Will BTC reach $100k?");
    assert!(outcome);
    assert!(justification.contains("105000.00"));
    assert!(justification.contains("100000.00"));
    assert_eq!(justification, "Price: $105000.00, Target: $100000.00");
}

#[test]
fn price_below_target_is_false() {
    let (outcome, justification) = infer("{\"price\": 95000}", "Will BTC reach $100k?");
    assert!(!outcome);
    assert_eq!(justification, "Price: $95000.00, Target: $100000.00");
}

#[test]
fn price_equal_to_target_is_true() {
    let (outcome, justification) = infer("{\"usd\": 100000.0}", "Will BTC reach $100,000?");
    assert!(outcome);
    assert_eq!(justification, "Price: $100000.00, Target: $100000.00");
}

#[test]
fn price_just_below_target_is_false() {
    let (outcome, justification) = infer("{\"current_price\": 99999.99}", "price above 100000?");
    assert!(!outcome);
    assert_eq!(justification, "Price: $99999.99, Target: $100000.00");
}

#[test]
fn price_rule_needs_a_cue_in_the_question() {
    // no `price`, `$` or `reach` in the question: the number is noise
    let raw = "{\"price\": 105000}";
    let (outcome, justification) = infer(raw, "Will BTC hit 100k?");
    assert!(!outcome);
    assert_eq!(justification, raw);
}

#[test]
fn price_cue_is_found_in_any_case() {
    let (outcome, justification) = infer("{\"value\": 7}", "PRICE over 5");
    assert!(outcome);
    assert_eq!(justification, "Price: $7.00, Target: $5.00");
}

#[test]
fn price_rule_without_target_falls_through_to_status() {
    let raw = "{\"price\": 5, \"status\": \"active\"}";
    let (outcome, justification) = infer(raw, "Will the price rise?");
    assert!(outcome);
    assert_eq!(justification, raw);
}

#[test]
fn negative_and_exponent_numbers_are_read() {
    let (outcome, justification) = infer("{\"price\": -5}", "price above 0?");
    assert!(!outcome);
    assert_eq!(justification, "Price: $-5.00, Target: $0.00");
    let (outcome, justification) = infer("{\"price\": 1e21}", "price above 7?");
    assert!(outcome);
    assert_eq!(justification, "Price: $1000000000000000000000.00, Target: $7.00");
    let (outcome, justification) = infer("{\"price\": 1.5e-7}", "price above 0?");
    assert!(outcome);
    assert_eq!(justification, "Price: $0.00, Target: $0.00");
}

#[test]
fn threshold_rule_compares_the_quantity() {
    let (outcome, justification) = infer("{\"count\": 150}", "Were there more than 100 goals?");
    assert!(outcome);
    assert_eq!(justification, "Value: 150.00, Threshold: 100.00");
    let (outcome, justification) = infer("{\"total\": 99.5}", "Were there at least 1,000 visitors?");
    assert!(!outcome);
    assert_eq!(justification, "Value: 99.50, Threshold: 1000.00");
}

#[test]
fn threshold_rule_needs_a_comparison_phrase() {
    let raw = "{\"count\": 150}";
    let (outcome, justification) = infer(raw, "Were there 100 goals?");
    assert!(!outcome);
    assert_eq!(justification, raw);
}

#[test]
fn fallback_searches_the_serialization() {
    assert!(infer("{\"a\": {\"b\": true}}", "q").0);
    assert!(infer("[\"yes\"]", "q").0);
    assert!(infer("{\"note\": \"SUCCESS\"}", "q").0);
    assert!(infer("\"active\"", "q").0);
    // `yes` must stand in quotes of its own
    assert!(!infer("{\"note\": \"yesterday\"}", "q").0);
    assert!(!infer("{\"a\": 1}", "q").0);
    assert!(!infer("null", "q").0);
}

#[test]
fn fallback_reads_the_serialization_and_not_the_raw_text() {
    // the escape spells `yes`; only the parsed value shows it
    let raw = "{\"a\": \"y\\u0065s\"}";
    let (outcome, justification) = infer(raw, "q");
    assert!(outcome);
    assert_eq!(justification, raw);
}

#[test]
fn hand_built_document_goes_through_the_rules() {
    let d = document(
        vec![("status", JsonValue::Text("Completed".to_string()))],
        "{\"status\":\"Completed\"}",
    );
    let (outcome, justification) = parse_json_response(&d, "Did it finish?", "raw body");
    assert!(outcome);
    assert_eq!(justification, "raw body");
}

#[test]
fn hand_built_price_document() {
    let d = document(
        vec![("price", JsonValue::Number("105000".to_string()))],
        "{\"price\":105000}",
    );
    let (outcome, justification) = parse_json_response(&d, "Will BTC reach $100k?", "raw");
    assert!(outcome);
    assert_eq!(justification, "Price: $105000.00, Target: $100000.00");
}

#[test]
fn number_text_that_is_no_numeral_is_not_a_number() {
    let d = document(vec![("price", JsonValue::Number("12x".to_string()))], "{}");
    let (outcome, justification) = parse_json_response(&d, "Will BTC reach $100k?", "raw");
    assert!(!outcome);
    assert_eq!(justification, "raw");
}

#[test]
fn null_member_counts_as_present() {
    let d = document(
        vec![("outcome", JsonValue::Null), ("result", JsonValue::Bool(true))],
        "{\"outcome\":null,\"result\":true}",
    );
    // the first rule looks at `outcome` only; the fallback finds `true`
    let (outcome, _) = parse_json_response(&d, "q", "raw");
    assert!(outcome);
    let d = document(vec![("outcome", JsonValue::Null), ("result", JsonValue::Bool(true))], "{}");
    assert!(!parse_json_response(&d, "q", "raw").0);
}

#[test]
fn cancelled_text_is_false() {
    let (outcome, justification) = infer("The event was cancelled", "Did the event take place?");
    assert!(!outcome);
    assert_eq!(justification, "The event was cancelled");
}

#[test]
fn text_without_indicators_is_false() {
    let (outcome, justification) = infer("Lorem ipsum dolor sit amet", "Did it happen?");
    assert!(!outcome);
    assert_eq!(justification, "Lorem ipsum dolor sit amet");
}

#[test]
fn text_majority_decides() {
    assert!(infer("The team WON and the goal was achieved", "q").0);
    // `no` and `lost` against `won`
    assert!(!infer("no, they lost after they won", "q").0);
    assert!(determine_outcome_from_text("passed", "q"));
    assert!(!determine_outcome_from_text("failed", "q"));
}

#[test]
fn text_counts_each_indicator_once() {
    // `yes` three times counts once; `failed` and `lost` count twice
    assert!(!determine_outcome_from_text("yes yes yes failed lost", "q"));
}

#[test]
fn text_tie_is_broken_by_the_price() {
    // no indicator at all: a tie; the amount decides
    assert!(determine_outcome_from_text("traded at $2,255.75", "price above $2k?"));
    // `1` against `0`: a tie again
    assert!(!determine_outcome_from_text("traded at $1,250.75", "price above $2k?"));
    assert!(determine_outcome_from_text("traded at 2222.", "price above $2,222?"));
    // a comma of the sentence is no amount
    assert!(determine_outcome_from_text("Hello, traded at 2255.75", "price above $2k?"));
    assert!(!determine_outcome_from_text("Hello, traded at 2255.75", "price above $3k?"));
}

#[test]
fn text_tie_without_price_looks_for_any_positive() {
    assert!(determine_outcome_from_text("won but lost", "q"));
    assert!(!determine_outcome_from_text("nothing to see", "q"));
    // `reach` alone is no cue for the text rule
    assert!(determine_outcome_from_text("won but lost 5", "Will it reach 10?"));
}

#[test]
fn text_is_taken_where_json_does_not_parse() {
    let raw = "{\"outcome\": true";
    let (outcome, justification) = infer(raw, "q");
    assert!(outcome);
    assert_eq!(justification, raw);
    let (outcome, _) = infer_parsed(None, "{\"outcome\": false}", "q");
    // read as text: `false` against nothing
    assert!(!outcome);
}

#[test]
fn price_target_reads_suffixes_and_commas() {
    assert_eq!(digits(&extract_price_target("Will BTC reach $100k?").unwrap()), "100000");
    assert_eq!(digits(&extract_price_target("above 2 M").unwrap()), "2000000");
    assert_eq!(digits(&extract_price_target("above $1,250").unwrap()), "1250");
    assert_eq!(digits(&extract_price_target("3K or more").unwrap()), "3000");
    assert_eq!(digits(&extract_price_target("worth 007").unwrap()), "007");
    assert!(extract_price_target("no amount here").is_none());
}

#[test]
fn price_target_takes_the_leftmost_amount() {
    assert_eq!(digits(&extract_price_target("Will 2 teams reach $100k?").unwrap()), "2");
}

#[test]
fn price_target_skips_the_commas_of_the_sentence() {
    assert_eq!(digits(&extract_price_target("Well, will it reach $5?").unwrap()), "5");
    assert_eq!(digits(&extract_price_target("Well, will BTC reach $100k?").unwrap()), "100000");
    assert_eq!(digits(&extract_price_target(", , ,7,000 m").unwrap()), "7000000000");
    assert!(extract_price_target("Well, will it rise, or fall?").is_none());
    let (outcome, justification) = infer("{\"price\": 105000}", "Well, will BTC reach $100k?");
    assert!(outcome);
    assert_eq!(justification, "Price: $105000.00, Target: $100000.00");
    let (outcome, justification) = infer("{\"price\": 95000}", "Well, will BTC reach $100k?");
    assert!(!outcome);
    assert_eq!(justification, "Price: $95000.00, Target: $100000.00");
}

#[test]
fn price_target_refuses_other_digits() {
    // Arabic-Indic digits are no amount
    assert!(extract_price_target("reach \u{0661}\u{0662}\u{0663}").is_none());
    assert_eq!(
        digits(&extract_price_target("reach \u{0661}\u{0662}\u{0663} or 45").unwrap()),
        "45"
    );
}

#[test]
fn price_target_of_any_length_is_exact() {
    let question = "reach $123456789012345678901234567890123456789012345678901m";
    let target = extract_price_target(question).unwrap();
    assert_eq!(digits(&target), "123456789012345678901234567890123456789012345678901000000");
    // a number of that size reaches the rules as the shortest decimal of
    // its nearest double
    let (outcome, justification) = infer("{\"price\": 1.3e56}", question);
    assert!(outcome);
    assert_eq!(
        justification,
        "Price: $130000000000000000000000000000000000000000000000000000000.00, \
         Target: $123456789012345678901234567890123456789012345678901000000.00"
    );
    assert!(!infer("{\"price\": 1.2e56}", question).0);
}

#[test]
fn numeric_threshold_needs_its_phrase() {
    assert_eq!(digits(&extract_numeric_threshold("more than 100 goals").unwrap()), "100");
    assert_eq!(digits(&extract_numeric_threshold("is it at least 1,500?").unwrap()), "1500");
    assert_eq!(digits(&extract_numeric_threshold("greater than   42").unwrap()), "42");
    assert_eq!(digits(&extract_numeric_threshold("over 9,000, they say").unwrap()), "9000");
    assert!(extract_numeric_threshold("more than , 100").is_none());
    assert!(extract_numeric_threshold("More than 100").is_none());
    assert!(extract_numeric_threshold("exactly 100").is_none());
}

fn chars(s: &str) -> Vec<char> {
    s.chars().collect()
}

#[test]
fn amounts_become_targets() {
    assert_eq!(digits(&target_of_amount("100", Some("k")).unwrap()), "100000");
    assert_eq!(digits(&target_of_amount("1,5", Some("M")).unwrap()), "15000000");
    assert_eq!(digits(&target_of_amount("1,000", None).unwrap()), "1000");
    assert_eq!(digits(&target_of_amount("7", Some("x")).unwrap()), "7");
    assert!(target_of_amount(",", None).is_none());
    assert!(target_of_amount("", Some("k")).is_none());
    assert!(target_of_amount("12.5", None).is_none());
    let target = target_of_amount("100", Some("k")).unwrap();
    assert!(!target.is_negative());
    assert!(target.fraction().is_empty());
}

#[test]
fn numbers_are_measured_against_bounds() {
    let bound = target_of_amount("100", None).unwrap();
    assert_eq!(
        measure("100.5", &bound, "Value: ", ", Threshold: "),
        Some((true, "Value: 100.50, Threshold: 100.00".to_string()))
    );
    assert_eq!(
        measure("99.999", &bound, "Price: $", ", Target: $"),
        Some((false, "Price: $100.00, Target: $100.00".to_string()))
    );
    assert_eq!(measure("abc", &bound, "a", "b"), None);
    // a half goes up, by the decimal text
    assert_eq!(
        measure("100.125", &bound, "Value: ", ", Threshold: "),
        Some((true, "Value: 100.13, Threshold: 100.00".to_string()))
    );
}

#[test]
fn amounts_in_texts_are_compared() {
    let target = target_of_amount("2", Some("k")).unwrap();
    assert_eq!(amount_reaches("2,000", &target), Some(true));
    assert_eq!(amount_reaches("2,000.00", &target), Some(true));
    assert_eq!(amount_reaches("1,999.99", &target), Some(false));
    assert_eq!(amount_reaches("1999.", &target), Some(false));
    assert_eq!(amount_reaches(",", &target), None);
    assert_eq!(amount_reaches(".", &target), None);
}

#[test]
fn word_lists_are_searched() {
    assert!(is_affirmative_answer(&chars("yes")));
    assert!(!is_affirmative_answer(&chars("Yes")));
    assert!(!is_affirmative_answer(&chars("yes ")));
    assert!(has_price_cue(&chars("will it reach ten?")));
    assert!(has_price_cue(&chars("over $5")));
    assert!(!has_price_cue(&chars("will it rain?")));
    assert!(has_positive_status(&chars("inactive")));
    assert!(!has_positive_status(&chars("closed")));
    assert!(has_fallback_word(&chars("{\"a\":\"yes\"}")));
    assert!(!has_fallback_word(&chars("{\"a\":\"yes!\"}")));
}

#[test]
fn majority_and_tie() {
    assert_eq!(indicator_majority(&chars("won")), Some(true));
    assert_eq!(indicator_majority(&chars("lost")), Some(false));
    assert_eq!(indicator_majority(&chars("won and lost")), None);
    assert_eq!(indicator_majority(&chars("")), None);
    // `inactive` holds `active`: one word each way
    assert_eq!(indicator_majority(&chars("inactive")), None);
    assert!(has_some_positive(&chars("inactive")));
    assert!(!has_some_positive(&chars("lost")));
}

#[test]
fn ties_round_up_in_the_justification() {
    let (outcome, justification) = infer("{\"price\": 1.005}", "price above 1?");
    assert!(outcome);
    assert_eq!(justification, "Price: $1.01, Target: $1.00");
    let (outcome, justification) = infer("{\"price\": 0.125}", "price above 1?");
    assert!(!outcome);
    assert_eq!(justification, "Price: $0.13, Target: $1.00");
}
