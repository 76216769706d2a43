//! Outcome inference from external-source content.
//!
//! A response that parses as JSON goes through five rules in a fixed order:
//! an explicit outcome, a price against the target of the question, a
//! status, a quantity against the threshold of the question, and a search of
//! the serialization for positive words. The first rule that decides gives
//! the outcome. Any other response is judged by the indicator words it
//! contains.
//!
//! Lowercasing, pattern matching and JSON parsing are done by `std`, `regex`
//! and `serde_json`. Every function here that makes such a call has beside
//! it the functions that take what the call returned, so that each rule can
//! be used, and its contract read, without the call.

use vstd::prelude::*;
use crate::json::{first_present, json_document, parse_json, JsonDocument, JsonValue};
use crate::numeral::{
    all_digits, is_digit, lemma_append_zeros, natural, numeral, parse_numeral, whole_number,
    whole_numeral, zeros, Decimal, Numeral,
};
use crate::text::{
    any_present, any_word, append_chars, chars_of, contains, contains_text, count_present, count_words,
    lowercase, remove_char, same_text, string_of, to_lowercase, without,
};

verus! {

/// An amount in a question: an optional `$`, a digit followed by digits and
/// commas, and an optional `k` or `m` suffix after optional white space. An
/// amount starts with a digit, so that a comma of the sentence is none.
pub const PRICE_PATTERN: &'static str = r"\$?([0-9][0-9,]*)\s*([kmKM])?";

/// A comparison phrase followed by a number: a digit followed by digits and
/// commas.
pub const THRESHOLD_PATTERN: &'static str =
    r"(?:more than|at least|over|above|greater than)\s+([0-9][0-9,]*)";

/// An amount in a response text: an optional `$`, a digit followed by
/// digits and commas, and an optional fraction.
pub const AMOUNT_PATTERN: &'static str = r"\$?([0-9][0-9,]*\.?[0-9]*)";

/// The first and second capture group of the leftmost match of a pattern in a
/// text, as the `regex` crate finds it: `None` where the pattern is not
/// valid, does not match, or matches without its first group.
pub uninterp spec fn regex_groups(pattern: Seq<char>, text: Seq<char>) -> Option<
    (Seq<char>, Option<Seq<char>>),
>;

/// Calls `regex::Regex::new` and `Regex::captures`, and copies out the texts
/// of groups 1 and 2. The result depends on the pattern and the text alone.
#[verifier::external_body]
pub(crate) fn match_groups(pattern: &str, text: &str) -> (out: Option<(String, Option<String>)>)
    ensures
        regex_groups(pattern@, text@) == match out {
            Some((first, second)) => Some(
                (
                    first@,
                    match second {
                        Some(s) => Some(s@),
                        None => None,
                    },
                ),
            ),
            None => None,
        },
{
    let compiled = regex::Regex::new(pattern).ok()?;
    let groups = compiled.captures(text)?;
    let first = groups.get(1)?.as_str().to_string();
    let second = groups.get(2).map(|m| m.as_str().to_string());
    Some((first, second))
}

/// Names under which a response states its outcome outright.
pub open spec fn outcome_names() -> Seq<&'static str> {
    seq!["outcome", "result", "resolved", "answer"]
}

/// Names under which a response gives an observed price.
pub open spec fn price_names() -> Seq<&'static str> {
    seq!["price", "current_price", "value", "usd"]
}

/// Names under which a response gives a status.
pub open spec fn status_names() -> Seq<&'static str> {
    seq!["status", "state", "condition"]
}

/// Names under which a response gives a measured quantity.
pub open spec fn quantity_names() -> Seq<&'static str> {
    seq!["value", "count", "total"]
}

/// Words that mark a question as being about a price.
pub open spec fn price_cues() -> Seq<&'static str> {
    seq!["price", "$", "reach"]
}

/// Status words that count as a positive outcome.
pub open spec fn status_words() -> Seq<&'static str> {
    seq!["active", "true", "yes", "completed", "success"]
}

/// What the serialized document is searched for when no rule decided.
pub open spec fn fallback_words() -> Seq<&'static str> {
    seq!["true", "\"yes\"", "\"success\"", "\"active\""]
}

/// Words in a text that speak for a positive outcome.
pub open spec fn positive_indicators() -> Seq<&'static str> {
    seq![
        "yes",
        "true",
        "1",
        "success",
        "active",
        "completed",
        "passed",
        "won",
        "achieved",
        "reached",
        "exceeded",
    ]
}

/// Words in a text that speak for a negative outcome.
pub open spec fn negative_indicators() -> Seq<&'static str> {
    seq![
        "no",
        "false",
        "0",
        "failed",
        "inactive",
        "cancelled",
        "rejected",
        "lost",
        "below",
        "under",
        "did not",
    ]
}

/// A lowercased answer text that means yes.
pub open spec fn is_affirmative(lower: Seq<char>) -> bool {
    lower == "true"@ || lower == "yes"@ || lower == "1"@
}

/// The number of zeros that a suffix appends: three for `k`, six for `m`.
pub open spec fn suffix_zeros(suffix: Option<Seq<char>>) -> nat {
    match suffix {
        Some(s) => if s == "k"@ || s == "K"@ {
            3
        } else if s == "m"@ || s == "M"@ {
            6
        } else {
            0
        },
        None => 0,
    }
}

/// The natural number that an amount stands for: its digits, commas
/// dropped, followed by the zeros of its suffix. There is none where no
/// digit is left or a character is no ASCII digit.
pub open spec fn amount_target(amount: Seq<char>, suffix: Option<Seq<char>>) -> Option<Numeral> {
    let digits = without(amount, ',');
    if digits.len() > 0 && all_digits(digits) {
        Some(whole_numeral(digits + zeros(suffix_zeros(suffix))))
    } else {
        None
    }
}

/// What a suffix multiplies an amount by.
pub open spec fn suffix_factor(suffix: Option<Seq<char>>) -> nat {
    match suffix {
        Some(s) => if s == "k"@ || s == "K"@ {
            1000
        } else if s == "m"@ || s == "M"@ {
            1000000
        } else {
            1
        },
        None => 1,
    }
}

/// The target of an amount denotes the number that its digits denote, times
/// a thousand for the suffix `k` and times a million for `m`.
pub proof fn lemma_suffix_multiplies(amount: Seq<char>, suffix: Option<Seq<char>>)
    requires
        amount_target(amount, suffix) is Some,
    ensures
        natural(amount_target(amount, suffix)->0.whole) == suffix_factor(suffix) * natural(
            without(amount, ','),
        ),
{
    let digits = without(amount, ',');
    lemma_append_zeros(digits);
    assert(digits + zeros(0) =~= digits);
    if suffix_factor(suffix) == 1000 {
        assert(suffix_zeros(suffix) == 3);
    } else if suffix_factor(suffix) == 1000000 {
        assert(suffix_zeros(suffix) == 6);
    } else {
        assert(suffix_zeros(suffix) == 0);
        assert(suffix_factor(suffix) == 1);
    }
}

/// The target amount that a question names: that of its leftmost amount,
/// which is the leftmost run of digits and commas that starts with a digit.
pub open spec fn price_target(question: Seq<char>) -> Option<Numeral> {
    match regex_groups(PRICE_PATTERN@, question) {
        Some((amount, suffix)) => amount_target(amount, suffix),
        None => None,
    }
}

/// The threshold that a question names after a comparison phrase.
pub open spec fn numeric_threshold(question: Seq<char>) -> Option<Numeral> {
    match regex_groups(THRESHOLD_PATTERN@, question) {
        Some((amount, rest)) => amount_target(amount, None),
        None => None,
    }
}

fn is_natural_text(s: &[char]) -> (out: bool)
    ensures
        out == (s@.len() > 0 && all_digits(s@)),
{
    if s.len() == 0 {
        return false;
    }
    let mut i: usize = 0;
    while i < s.len()
        invariant
            i <= s.len(),
            forall|j: int| 0 <= j < i ==> is_digit(#[trigger] s@[j]),
        decreases s.len() - i,
    {
        if !(s[i] >= '0' && s[i] <= '9') {
            return false;
        }
        i += 1;
    }
    true
}

fn zeros_for(suffix: Option<&str>) -> (out: usize)
    ensures
        out == suffix_zeros(
            match suffix {
                Some(s) => Some(s@),
                None => None,
            },
        ),
{
    match suffix {
        Some(s) => {
            let c = chars_of(s);
            if same_text(c.as_slice(), chars_of("k").as_slice()) || same_text(
                c.as_slice(),
                chars_of("K").as_slice(),
            ) {
                3
            } else if same_text(c.as_slice(), chars_of("m").as_slice()) || same_text(
                c.as_slice(),
                chars_of("M").as_slice(),
            ) {
                6
            } else {
                0
            }
        },
        None => 0,
    }
}

/// The natural number that an amount with its suffix stands for, such as
/// a hundred thousand for `100` and `k`.
pub fn target_of_amount(amount: &str, suffix: Option<&str>) -> (out: Option<Decimal>)
    ensures
        out is Some <==> amount_target(
            amount@,
            match suffix {
                Some(s) => Some(s@),
                None => None,
            },
        ) is Some,
        out matches Some(d) ==> d@.wf() && Some(d@) == amount_target(
            amount@,
            match suffix {
                Some(s) => Some(s@),
                None => None,
            },
        ),
{
    let digits = remove_char(chars_of(amount).as_slice(), ',');
    if is_natural_text(digits.as_slice()) {
        Some(whole_number(digits.as_slice(), zeros_for(suffix)))
    } else {
        None
    }
}

/// The target amount named in a question, such as `$100k`.
pub fn extract_price_target(question: &str) -> (out: Option<Decimal>)
    ensures
        out is Some <==> price_target(question@) is Some,
        out matches Some(d) ==> d@.wf() && Some(d@) == price_target(question@),
{
    match match_groups(PRICE_PATTERN, question) {
        Some((amount, suffix)) => match suffix {
            Some(s) => target_of_amount(amount.as_str(), Some(s.as_str())),
            None => target_of_amount(amount.as_str(), None),
        },
        None => None,
    }
}

/// The threshold named in a question, such as `more than 100`.
pub fn extract_numeric_threshold(question: &str) -> (out: Option<Decimal>)
    ensures
        out is Some <==> numeric_threshold(question@) is Some,
        out matches Some(d) ==> d@.wf() && Some(d@) == numeric_threshold(question@),
{
    match match_groups(THRESHOLD_PATTERN, question) {
        Some((amount, rest)) => target_of_amount(amount.as_str(), None),
        None => None,
    }
}

/// The text of a comparison: a label and the observed value, a second label
/// and the bound, both values with two fraction digits.
pub open spec fn comparison_text(
    first: Seq<char>,
    observed: Numeral,
    second: Seq<char>,
    bound: Numeral,
) -> Seq<char> {
    first + observed.fixed2() + second + bound.fixed2()
}

/// An observed number against a bound: whether it is at least the bound,
/// and the text of the comparison. There is none where the text of the
/// number is no numeral.
pub open spec fn measured(
    number: Seq<char>,
    bound: Numeral,
    first: Seq<char>,
    second: Seq<char>,
) -> Option<(bool, Seq<char>)> {
    match numeral(number) {
        Some(observed) => Some(
            (observed.at_least(bound.whole), comparison_text(first, observed, second, bound)),
        ),
        None => None,
    }
}

/// Compares an observed number, given as its decimal text, with a bound,
/// and words the comparison with the two labels. Both numbers are worded
/// from their decimal digits, rounded to the nearest hundredth with a half
/// going up; a binary floating-point value of the same text, printed with
/// two decimals, can differ in the last digit.
pub fn measure(number: &str, bound: &Decimal, first: &str, second: &str) -> (out: Option<
    (bool, String),
>)
    ensures
        out is Some <==> measured(number@, bound@, first@, second@) is Some,
        out matches Some(v) ==> Some((v.0, v.1@)) == measured(number@, bound@, first@, second@),
{
    match parse_numeral(chars_of(number).as_slice()) {
        Some(observed) => {
            let mut text: Vec<char> = chars_of(first);
            append_chars(&mut text, observed.fixed2().as_slice());
            append_chars(&mut text, chars_of(second).as_slice());
            append_chars(&mut text, bound.fixed2().as_slice());
            Some((observed.at_least(bound), string_of(text.as_slice())))
        },
        None => None,
    }
}

/// Whether a lowercase answer means yes.
pub fn is_affirmative_answer(lower: &[char]) -> (out: bool)
    ensures
        out == is_affirmative(lower@),
{
    same_text(lower, chars_of("true").as_slice()) || same_text(lower, chars_of("yes").as_slice())
        || same_text(lower, chars_of("1").as_slice())
}

/// Whether a lowercase question is about a price.
pub fn has_price_cue(lower: &[char]) -> (out: bool)
    ensures
        out == any_present(lower@, price_cues()),
{
    let cues = vec!["price", "$", "reach"];
    assert(cues@ =~= price_cues());
    any_word(lower, cues.as_slice())
}

/// Whether a lowercase status is a positive one.
pub fn has_positive_status(lower: &[char]) -> (out: bool)
    ensures
        out == any_present(lower@, status_words()),
{
    let words = vec!["active", "true", "yes", "completed", "success"];
    assert(words@ =~= status_words());
    any_word(lower, words.as_slice())
}

/// Whether a lowercase serialization holds a positive word.
pub fn has_fallback_word(lower: &[char]) -> (out: bool)
    ensures
        out == any_present(lower@, fallback_words()),
{
    let words = vec!["true", "\"yes\"", "\"success\"", "\"active\""];
    assert(words@ =~= fallback_words());
    any_word(lower, words.as_slice())
}

/// The explicit-outcome rule: the first member among the outcome names
/// decides if it is a boolean, or a text, which is taken in lowercase.
pub open spec fn explicit_outcome(doc: JsonDocument) -> Option<bool> {
    match first_present(doc.fields@, outcome_names()) {
        Some(JsonValue::Bool(b)) => Some(b),
        Some(JsonValue::Text(t)) => Some(is_affirmative(lowercase(t@))),
        _ => None,
    }
}

/// The price rule: for a question about a price, the first member among
/// the price names, if it is a number, against the target that the question
/// names.
pub open spec fn price_verdict(doc: JsonDocument, question: Seq<char>) -> Option<
    (bool, Seq<char>),
> {
    if any_present(lowercase(question), price_cues()) {
        match (first_present(doc.fields@, price_names()), price_target(question)) {
            (Some(JsonValue::Number(n)), Some(target)) => measured(
                n@,
                target,
                "Price: $"@,
                ", Target: $"@,
            ),
            _ => None,
        }
    } else {
        None
    }
}

/// The status rule: the first member among the status names decides if it
/// is a text; the outcome is whether its lowercase form holds a positive
/// status word.
pub open spec fn status_outcome(doc: JsonDocument) -> Option<bool> {
    match first_present(doc.fields@, status_names()) {
        Some(JsonValue::Text(t)) => Some(any_present(lowercase(t@), status_words())),
        _ => None,
    }
}

/// The threshold rule: the first member among the quantity names, if it is
/// a number, against the threshold that the question names after a
/// comparison phrase.
pub open spec fn threshold_verdict(doc: JsonDocument, question: Seq<char>) -> Option<
    (bool, Seq<char>),
> {
    match (first_present(doc.fields@, quantity_names()), numeric_threshold(question)) {
        (Some(JsonValue::Number(n)), Some(bound)) => measured(
            n@,
            bound,
            "Value: "@,
            ", Threshold: "@,
        ),
        _ => None,
    }
}

/// The fallback: a positive word anywhere in the lowercase serialization.
pub open spec fn fallback_outcome(doc: JsonDocument) -> bool {
    any_present(lowercase(doc.rendered@), fallback_words())
}

/// The outcome and justification for a JSON response: those of the first
/// rule that decides, in the order explicit outcome, price, status,
/// threshold, fallback. The price and the threshold rule justify with the
/// comparison they made, the others with the raw response.
pub open spec fn json_verdict(doc: JsonDocument, question: Seq<char>, raw: Seq<char>) -> (
    bool,
    Seq<char>,
) {
    if let Some(b) = explicit_outcome(doc) {
        (b, raw)
    } else if let Some(v) = price_verdict(doc, question) {
        v
    } else if let Some(b) = status_outcome(doc) {
        (b, raw)
    } else if let Some(v) = threshold_verdict(doc, question) {
        v
    } else {
        (fallback_outcome(doc), raw)
    }
}

fn lowered(s: &str) -> (out: Vec<char>)
    ensures
        out@ == lowercase(s@),
{
    let lower = to_lowercase(s);
    chars_of(lower.as_str())
}

fn rule_explicit_outcome(json: &JsonDocument) -> (out: Option<bool>)
    ensures
        out == explicit_outcome(*json),
{
    let names = vec!["outcome", "result", "resolved", "answer"];
    assert(names@ =~= outcome_names());
    match json.get_first(names.as_slice()) {
        Some(JsonValue::Bool(b)) => Some(*b),
        Some(JsonValue::Text(t)) => Some(is_affirmative_answer(lowered(t.as_str()).as_slice())),
        _ => None,
    }
}

fn rule_price(json: &JsonDocument, question: &str) -> (out: Option<(bool, String)>)
    ensures
        out is Some <==> price_verdict(*json, question@) is Some,
        out matches Some(v) ==> Some((v.0, v.1@)) == price_verdict(*json, question@),
{
    if !has_price_cue(lowered(question).as_slice()) {
        return None;
    }
    let names = vec!["price", "current_price", "value", "usd"];
    assert(names@ =~= price_names());
    match json.get_first(names.as_slice()) {
        Some(JsonValue::Number(n)) => match extract_price_target(question) {
            Some(target) => measure(n.as_str(), &target, "Price: $", ", Target: $"),
            None => None,
        },
        _ => None,
    }
}

fn rule_status(json: &JsonDocument) -> (out: Option<bool>)
    ensures
        out == status_outcome(*json),
{
    let names = vec!["status", "state", "condition"];
    assert(names@ =~= status_names());
    match json.get_first(names.as_slice()) {
        Some(JsonValue::Text(t)) => Some(has_positive_status(lowered(t.as_str()).as_slice())),
        _ => None,
    }
}

fn rule_threshold(json: &JsonDocument, question: &str) -> (out: Option<(bool, String)>)
    ensures
        out is Some <==> threshold_verdict(*json, question@) is Some,
        out matches Some(v) ==> Some((v.0, v.1@)) == threshold_verdict(*json, question@),
{
    let names = vec!["value", "count", "total"];
    assert(names@ =~= quantity_names());
    match json.get_first(names.as_slice()) {
        Some(JsonValue::Number(n)) => match extract_numeric_threshold(question) {
            Some(bound) => measure(n.as_str(), &bound, "Value: ", ", Threshold: "),
            None => None,
        },
        _ => None,
    }
}

/// Decides the outcome of a market from a JSON response and gives the
/// justification to be hashed and stored.
pub fn parse_json_response(json: &JsonDocument, question: &str, raw_data: &str) -> (out: (
    bool,
    String,
))
    ensures
        (out.0, out.1@) == json_verdict(*json, question@, raw_data@),
{
    if let Some(b) = rule_explicit_outcome(json) {
        return (b, raw_data.to_owned());
    }
    if let Some(v) = rule_price(json, question) {
        return v;
    }
    if let Some(b) = rule_status(json) {
        return (b, raw_data.to_owned());
    }
    if let Some(v) = rule_threshold(json, question) {
        return v;
    }
    (has_fallback_word(lowered(json.rendered.as_str()).as_slice()), raw_data.to_owned())
}

/// Whether an amount found in a text, commas dropped, is at least a target.
/// There is no answer where the amount is no numeral.
pub open spec fn amount_reaches_target(amount: Seq<char>, target: Numeral) -> Option<bool> {
    match numeral(without(amount, ',')) {
        Some(price) => Some(price.at_least(target.whole)),
        None => None,
    }
}

/// Compares an amount found in a text with a target.
pub fn amount_reaches(amount: &str, target: &Decimal) -> (out: Option<bool>)
    ensures
        out == amount_reaches_target(amount@, target@),
{
    let digits = remove_char(chars_of(amount).as_slice(), ',');
    match parse_numeral(digits.as_slice()) {
        Some(price) => Some(price.at_least(target)),
        None => None,
    }
}

/// For a question about a price, the leftmost amount in a text against the
/// target that the question names.
pub open spec fn text_price_outcome(text: Seq<char>, question: Seq<char>) -> Option<bool> {
    let asked = lowercase(question);
    if contains(asked, "price"@) || contains(asked, "$"@) {
        match (regex_groups(AMOUNT_PATTERN@, text), price_target(question)) {
            (Some((amount, rest)), Some(target)) => amount_reaches_target(amount, target),
            _ => None,
        }
    } else {
        None
    }
}

/// What the majority of indicator words in a lowercase text says; nothing
/// on a tie.
pub open spec fn majority(lower: Seq<char>) -> Option<bool> {
    let positive = count_present(lower, positive_indicators());
    let negative = count_present(lower, negative_indicators());
    if positive > negative {
        Some(true)
    } else if negative > positive {
        Some(false)
    } else {
        None
    }
}

/// Whether a lowercase text holds any positive indicator word.
pub open spec fn some_positive(lower: Seq<char>) -> bool {
    count_present(lower, positive_indicators()) > 0 || contains(lower, "yes"@) || contains(
        lower,
        "true"@,
    )
}

/// The outcome that a plain text speaks for: what the majority of the
/// indicator words in its lowercase form says; on a tie the price
/// comparison, where one can be made; else whether any positive word is
/// there at all.
pub open spec fn text_outcome(text: Seq<char>, question: Seq<char>) -> bool {
    let lower = lowercase(text);
    match majority(lower) {
        Some(b) => b,
        None => match text_price_outcome(text, question) {
            Some(b) => b,
            None => some_positive(lower),
        },
    }
}

fn count_positive(lower: &[char]) -> (out: usize)
    ensures
        out == count_present(lower@, positive_indicators()),
{
    let words = vec![
        "yes",
        "true",
        "1",
        "success",
        "active",
        "completed",
        "passed",
        "won",
        "achieved",
        "reached",
        "exceeded",
    ];
    assert(words@ =~= positive_indicators());
    count_words(lower, words.as_slice())
}

fn count_negative(lower: &[char]) -> (out: usize)
    ensures
        out == count_present(lower@, negative_indicators()),
{
    let words = vec![
        "no",
        "false",
        "0",
        "failed",
        "inactive",
        "cancelled",
        "rejected",
        "lost",
        "below",
        "under",
        "did not",
    ];
    assert(words@ =~= negative_indicators());
    count_words(lower, words.as_slice())
}

/// What the majority of indicator words in a lowercase text says.
pub fn indicator_majority(lower: &[char]) -> (out: Option<bool>)
    ensures
        out == majority(lower@),
{
    let positive = count_positive(lower);
    let negative = count_negative(lower);
    if positive > negative {
        Some(true)
    } else if negative > positive {
        Some(false)
    } else {
        None
    }
}

/// Whether a lowercase text holds any positive indicator word.
pub fn has_some_positive(lower: &[char]) -> (out: bool)
    ensures
        out == some_positive(lower@),
{
    count_positive(lower) > 0 || contains_text(lower, chars_of("yes").as_slice())
        || contains_text(lower, chars_of("true").as_slice())
}

fn rule_text_price(text: &str, question: &str) -> (out: Option<bool>)
    ensures
        out == text_price_outcome(text@, question@),
{
    let asked = lowered(question);
    if !(contains_text(asked.as_slice(), chars_of("price").as_slice()) || contains_text(
        asked.as_slice(),
        chars_of("$").as_slice(),
    )) {
        return None;
    }
    match match_groups(AMOUNT_PATTERN, text) {
        Some((amount, rest)) => match extract_price_target(question) {
            Some(target) => amount_reaches(amount.as_str(), &target),
            None => None,
        },
        None => None,
    }
}

/// Decides the outcome of a market from a response that is not JSON.
pub fn determine_outcome_from_text(text: &str, question: &str) -> (out: bool)
    ensures
        out == text_outcome(text@, question@),
{
    let lower = lowered(text);
    match indicator_majority(lower.as_slice()) {
        Some(b) => b,
        None => match rule_text_price(text, question) {
            Some(b) => b,
            None => has_some_positive(lower.as_slice()),
        },
    }
}

/// The outcome and justification for a response: by the JSON rules where it
/// parsed, else by the words of its lowercase form, with the raw response as
/// the justification.
pub open spec fn inferred(parsed: Option<JsonDocument>, raw: Seq<char>, question: Seq<char>) -> (
    bool,
    Seq<char>,
) {
    match parsed {
        Some(doc) => json_verdict(doc, question, raw),
        None => (text_outcome(lowercase(raw), question), raw),
    }
}

/// Infers the outcome from a response whose reading as JSON, if it has one,
/// is given.
pub fn infer_parsed(parsed: Option<&JsonDocument>, raw_content: &str, question: &str) -> (out: (
    bool,
    String,
))
    ensures
        (out.0, out.1@) == inferred(
            match parsed {
                Some(doc) => Some(*doc),
                None => None,
            },
            raw_content@,
            question@,
        ),
{
    match parsed {
        Some(doc) => parse_json_response(doc, question, raw_content),
        None => {
            let lower = to_lowercase(raw_content);
            (determine_outcome_from_text(lower.as_str(), question), raw_content.to_owned())
        },
    }
}

/// Infers the boolean outcome of a market, and the justification to be
/// hashed and stored, from the raw content of its data source. Every content
/// gets an answer.
pub fn infer(raw_content: &str, question: &str) -> (out: (bool, String))
    ensures
        (out.0, out.1@) == inferred(json_document(raw_content@), raw_content@, question@),
{
    let parsed = parse_json(raw_content);
    infer_parsed(parsed.as_ref(), raw_content, question)
}

} // verus!
