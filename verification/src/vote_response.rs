//! The outcome of one vote request, as the response layers hand it over.
//!
//! The network and script-evaluation layers outside the library turn the raw
//! response into these plain values; the library states exactly how the
//! outcome is classified.

use vstd::prelude::*;
use crate::util::str_eq;

verus! {

/// Ways the markup part of a vote response can fail to parse.
#[derive(Debug, Clone, Copy, PartialEq, Eq, Structural)]
pub enum HtmlResponseError {
    MissingTotalVotes,
    InvalidTotalVotes,
    MissingAnswers,
}

/// Ways one answer row of the markup can fail to parse.
#[derive(Debug, Clone, Copy, PartialEq, Eq, Structural)]
pub enum AnswerResponseError {
    MissingAnswerText,
    MissingPercent,
    InvalidPercent,
    MissingAnswerVotes,
    InvalidAnswerVotes,
}

/// One answer row of the tallied results.
#[derive(Debug, Clone)]
pub struct AnswerResponse {
    text: String,
    votes: u64,
}

impl AnswerResponse {
    pub closed spec fn spec_text(self) -> Seq<char> {
        self.text@
    }

    pub closed spec fn spec_votes(self) -> u64 {
        self.votes
    }

    pub fn new(text: String, votes: u64) -> (r: Self)
        ensures
            r.spec_text() == text@,
            r.spec_votes() == votes,
    {
        AnswerResponse { text, votes }
    }

    pub fn get_text(&self) -> (r: &str)
        ensures
            r@ == self.spec_text(),
    {
        self.text.as_str()
    }

    pub fn get_votes(&self) -> (r: u64)
        ensures
            r == self.spec_votes(),
    {
        self.votes
    }
}

/// The tallied results embedded in the response markup.
#[derive(Debug, Clone)]
pub struct HtmlResponse {
    answers: Vec<Result<AnswerResponse, AnswerResponseError>>,
    total_votes: u64,
}

impl HtmlResponse {
    pub closed spec fn spec_answers(self) -> Seq<Result<AnswerResponse, AnswerResponseError>> {
        self.answers@
    }

    pub closed spec fn spec_total_votes(self) -> u64 {
        self.total_votes
    }

    pub fn new(
        answers: Vec<Result<AnswerResponse, AnswerResponseError>>,
        total_votes: u64,
    ) -> (r: Self)
        ensures
            r.spec_answers() == answers@,
            r.spec_total_votes() == total_votes,
    {
        HtmlResponse { answers, total_votes }
    }

    pub fn get_total_votes(&self) -> (r: u64)
        ensures
            r == self.spec_total_votes(),
    {
        self.total_votes
    }

    pub fn get_answers(&self) -> (r: &Vec<Result<AnswerResponse, AnswerResponseError>>)
        ensures
            r@ == self.spec_answers(),
    {
        &self.answers
    }
}

/// The JSON callback payload of a successful vote, reduced to the fields
/// the consumer reads.
#[derive(Debug, Clone)]
pub struct JsonResponse {
    id: Option<u64>,
    other_answer: Option<String>,
    result: Option<String>,
    answer: Vec<u64>,
}

impl JsonResponse {
    pub closed spec fn spec_id(self) -> Option<u64> {
        self.id
    }

    pub closed spec fn spec_other_answer(self) -> Option<String> {
        self.other_answer
    }

    pub closed spec fn spec_result(self) -> Option<String> {
        self.result
    }

    pub closed spec fn spec_answer(self) -> Seq<u64> {
        self.answer@
    }

    /// Whether the payload reports the vote as registered.
    pub open spec fn spec_is_registered(self) -> bool {
        match self.spec_result() {
            Some(s) => s@ == "registered"@,
            None => false,
        }
    }

    pub fn new(
        id: Option<u64>,
        other_answer: Option<String>,
        result: Option<String>,
        answer: Vec<u64>,
    ) -> (r: Self)
        ensures
            r.spec_id() == id,
            r.spec_other_answer() == other_answer,
            r.spec_result() == result,
            r.spec_answer() == answer@,
    {
        JsonResponse { id, other_answer, result, answer }
    }

    pub fn is_registered(&self) -> (r: bool)
        ensures
            r == self.spec_is_registered(),
    {
        match &self.result {
            Some(s) => str_eq(s.as_str(), "registered"),
            None => false,
        }
    }
}

/// The outcome of one vote request: the JSON callback payload, if any, and
/// the parse of the surrounding markup.  The payload is absent exactly when
/// the service has banned the caller's address.
#[derive(Debug)]
pub struct VoteResponse {
    json_response: Option<JsonResponse>,
    html_response: Result<HtmlResponse, HtmlResponseError>,
}

impl VoteResponse {
    pub closed spec fn spec_json(self) -> Option<JsonResponse> {
        self.json_response
    }

    pub closed spec fn spec_html(self) -> Result<HtmlResponse, HtmlResponseError> {
        self.html_response
    }

    pub fn new(
        json_response: Option<JsonResponse>,
        html_response: Result<HtmlResponse, HtmlResponseError>,
    ) -> (r: Self)
        ensures
            r.spec_json() == json_response,
            r.spec_html() == html_response,
    {
        VoteResponse { json_response, html_response }
    }

    /// The JSON payload is absent exactly when the address is banned.
    pub fn is_ip_banned(&self) -> (r: bool)
        ensures
            r == (self.spec_json() is None),
    {
        self.json_response.is_none()
    }

    /// The same test under the name the alternative front end uses.
    pub fn is_banned(&self) -> (r: bool)
        ensures
            r == (self.spec_json() is None),
    {
        self.json_response.is_none()
    }

    /// A vote registers only when a payload came back and reports it so.
    pub fn registered_vote(&self) -> (r: bool)
        ensures
            r == match self.spec_json() {
                Some(j) => j.spec_is_registered(),
                None => false,
            },
    {
        match &self.json_response {
            Some(j) => j.is_registered(),
            None => false,
        }
    }

    pub fn html(&self) -> (r: Result<&HtmlResponse, &HtmlResponseError>)
        ensures
            match r {
                Ok(h) => self.spec_html() is Ok && *h == self.spec_html()->Ok_0,
                Err(e) => self.spec_html() is Err && *e == self.spec_html()->Err_0,
            },
    {
        match &self.html_response {
            Ok(h) => Ok(h),
            Err(e) => Err(e),
        }
    }

    pub fn json(&self) -> (r: Option<&JsonResponse>)
        ensures
            match r {
                Some(j) => self.spec_json() is Some && *j == self.spec_json()->0,
                None => self.spec_json() is None,
            },
    {
        match &self.json_response {
            Some(j) => Some(j),
            None => None,
        }
    }
}

} // verus!
