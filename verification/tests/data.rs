//! Tests of the data types: polls, URLs, numerals, responses, rendering.

use polldaddy_spam::interface::{HtmlResponseRefDisplay, QuizRefDisplay};
use polldaddy_spam::nonce::Nonce;
use polldaddy_spam::poll_code::PollCode;
use polldaddy_spam::proxy_info::Anonymity;
use polldaddy_spam::quiz::{Quiz, QuizAnswer, QuizAnswerError};
use polldaddy_spam::util::{get_time_ms, parse_u32, str_eq, u128_to_string};
use polldaddy_spam::vote_response::{
    AnswerResponse, AnswerResponseError, HtmlResponse, HtmlResponseError, JsonResponse,
    VoteResponse,
};

fn sample_quiz() -> Quiz {
    let answers = vec![
        QuizAnswer::new(11, String::from("Yes")),
        QuizAnswer::new(22, String::from("No")),
    ];
    Quiz::new(
        123,
        answers,
        String::from("abcd1234"),
        false,
        String::from("https://example.com/poll"),
        String::from("va1"),
    )
}

#[test]
fn quiz_getters_return_the_fields() {
    let q = sample_quiz();
    assert_eq!(q.get_id(), 123);
    assert_eq!(q.get_hash(), "abcd1234");
    assert!(!q.is_closed());
    assert_eq!(q.get_referer(), "https://example.com/poll");
    assert_eq!(q.get_va(), "va1");
    assert_eq!(q.get_answers().len(), 2);
    assert_eq!(q.get_answers()[0].get_id(), 11);
    assert_eq!(q.get_answers()[0].get_text(), "Yes");
    assert_eq!(q.get_answers()[1].get_id(), 22);
    assert_eq!(q.get_answers()[1].get_text(), "No");
}

#[test]
fn vote_url_is_exact() {
    let q = sample_quiz();
    let nonce = Nonce::new(String::from("n0nce"));
    let u = q.get_vote_url(22, &nonce).unwrap();
    assert_eq!(
        u.as_str(),
        "https://polls.polldaddy.com/vote-js.php?p=123&b=1&a=22,&o=&va=va1&cookie=0&n=n0nce&url=https://example.com/poll"
    );
}

#[test]
fn code_url_is_exact_for_a_given_time() {
    let q = sample_quiz();
    let u = q.code_url_at(987654321).unwrap();
    assert_eq!(u.as_str(), "https://polldaddy.com/n/abcd1234/123?987654321");
}

#[test]
fn code_url_uses_the_clock() {
    let q = sample_quiz();
    let u = q.get_code_url().unwrap();
    assert!(u.as_str().starts_with("https://polldaddy.com/n/abcd1234/123?"));
}

#[test]
fn clock_reads_nonzero() {
    assert!(get_time_ms() > 0);
}

#[test]
fn answer_from_string_array_cases() {
    let ok = QuizAnswer::from_string_array(&vec![String::from("42"), String::from("Maybe")]);
    let a = ok.unwrap();
    assert_eq!(a.get_id(), 42);
    assert_eq!(a.get_text(), "Maybe");

    let missing0 = QuizAnswer::from_string_array(&Vec::new());
    assert!(matches!(missing0, Err(QuizAnswerError::MissingString(0))));

    let missing1 = QuizAnswer::from_string_array(&vec![String::from("42")]);
    assert!(matches!(missing1, Err(QuizAnswerError::MissingString(1))));

    let bad = QuizAnswer::from_string_array(&vec![String::from("4x"), String::from("t")]);
    assert!(matches!(bad, Err(QuizAnswerError::BadIdParse)));

    let plus = QuizAnswer::from_string_array(&vec![String::from("+7"), String::from("t")]);
    assert_eq!(plus.unwrap().get_id(), 7);
}

#[test]
fn parse_u32_matches_std() {
    for s in ["", "+", "0", "007", "4294967295", "4294967296", "12a", "-3", " 1"] {
        assert_eq!(parse_u32(s), s.parse::<u32>().ok(), "input {:?}", s);
    }
}

#[test]
fn numerals_render_in_decimal() {
    assert_eq!(u128_to_string(0), "0");
    assert_eq!(u128_to_string(10), "10");
    assert_eq!(u128_to_string(987654321), "987654321");
    assert_eq!(
        u128_to_string(u128::MAX),
        "340282366920938463463374607431768211455"
    );
}

#[test]
fn str_eq_compares_characters() {
    assert!(str_eq("", ""));
    assert!(str_eq("héllo", "héllo"));
    assert!(!str_eq("a", "ab"));
    assert!(!str_eq("ab", "ac"));
}

#[test]
fn anonymity_parses_the_three_labels() {
    assert_eq!("transparent".parse::<Anonymity>().unwrap(), Anonymity::Transparent);
    assert_eq!("elite proxy".parse::<Anonymity>().unwrap(), Anonymity::EliteProxy);
    assert_eq!("anonymous".parse::<Anonymity>().unwrap(), Anonymity::Anonymous);
    assert!("Elite".parse::<Anonymity>().is_err());
    assert!(Anonymity::parse_text("").is_err());
}

#[test]
fn vote_response_classifies_outcomes() {
    let banned = VoteResponse::new(None, Err(HtmlResponseError::MissingTotalVotes));
    assert!(banned.is_ip_banned());
    assert!(banned.is_banned());
    assert!(!banned.registered_vote());
    assert!(banned.json().is_none());
    assert!(banned.html().is_err());

    let registered = VoteResponse::new(
        Some(JsonResponse::new(None, None, Some(String::from("registered")), vec![])),
        Ok(HtmlResponse::new(vec![], 5)),
    );
    assert!(!registered.is_ip_banned());
    assert!(registered.registered_vote());
    assert!(registered.json().unwrap().is_registered());
    assert_eq!(registered.html().unwrap().get_total_votes(), 5);

    let refused = VoteResponse::new(
        Some(JsonResponse::new(None, None, Some(String::from("rejected")), vec![])),
        Err(HtmlResponseError::MissingAnswers),
    );
    assert!(!refused.is_ip_banned());
    assert!(!refused.registered_vote());

    let silent = VoteResponse::new(
        Some(JsonResponse::new(None, None, None, vec![])),
        Err(HtmlResponseError::InvalidTotalVotes),
    );
    assert!(!silent.registered_vote());
}

#[test]
fn nonce_and_poll_code_round_trip() {
    let n = Nonce::new(String::from("abc"));
    assert_eq!(n.as_str(), "abc");
    assert_eq!(n.into_string(), "abc");
    let c = PollCode::new(String::from("xyz"));
    assert_eq!(c.as_str(), "xyz");
    assert_eq!(c.get_string(), "xyz");
}

#[test]
fn quiz_display_lists_fields_and_answers() {
    let q = sample_quiz();
    let d = QuizRefDisplay(&q);
    assert_eq!(
        d.to_display_string(),
        "Quiz Id: 123\nQuiz Hash: abcd1234\nQuiz Closed: false\nQuiz Referer: https://example.com/poll\nQuiz Va: va1\n\nAnswers: \n1) Yes | Code 11\n2) No | Code 22\n"
    );
}

#[test]
fn tally_display_lists_answers_and_total() {
    let h = HtmlResponse::new(
        vec![
            Ok(AnswerResponse::new(String::from("Yes"), 7)),
            Err(AnswerResponseError::MissingAnswerText),
        ],
        9,
    );
    let d = HtmlResponseRefDisplay(&h);
    assert_eq!(
        d.to_display_string(),
        "1) Yes | 7 votes\n2) Failed to parse\n\nTotal Votes: 9 votes\n"
    );
    assert_eq!(h.get_answers().len(), 2);
    assert_eq!(h.get_answers()[0].as_ref().unwrap().get_votes(), 7);
}
