//! The poll being voted on: its identity, answers, and request URLs.

use vstd::prelude::*;
use crate::nonce::Nonce;
use crate::urls::url_parse_result;
use crate::util::{dec_chars, dec_value, get_time_ms, is_u32_numeral, numeral_body, parse_u32,
    u128_to_string};

verus! {

/// Ways one answer's raw string pair can fail to parse.
#[derive(Debug, Clone, Copy, PartialEq, Eq, Structural)]
pub enum QuizAnswerError {
    /// The string at this position was missing.
    MissingString(usize),
    /// The answer code was not a decimal number.
    BadIdParse,
}

/// One selectable answer of a poll: its numeric code and display text.
#[derive(Debug, Clone)]
pub struct QuizAnswer {
    id: u32,
    text: String,
}

impl QuizAnswer {
    pub closed spec fn spec_id(self) -> u32 {
        self.id
    }

    pub closed spec fn spec_text(self) -> Seq<char> {
        self.text@
    }

    pub fn new(id: u32, text: String) -> (r: Self)
        ensures
            r.spec_id() == id,
            r.spec_text() == text@,
    {
        QuizAnswer { id, text }
    }

    /// Builds an answer from the raw string pair the script layer hands
    /// over: the answer code as a decimal string, then the display text.
    pub fn from_string_array(arr: &Vec<String>) -> (r: Result<QuizAnswer, QuizAnswerError>)
        ensures
            arr@.len() == 0 ==> (r matches Err(e) && e == QuizAnswerError::MissingString(0usize)),
            arr@.len() >= 1 && !is_u32_numeral(arr@[0]@) ==> (r matches Err(e) && e
                == QuizAnswerError::BadIdParse),
            arr@.len() == 1 && is_u32_numeral(arr@[0]@) ==> (r matches Err(e) && e
                == QuizAnswerError::MissingString(1usize)),
            arr@.len() >= 2 && is_u32_numeral(arr@[0]@) ==> (r matches Ok(a) && {
                &&& a.spec_id() == dec_value(numeral_body(arr@[0]@))
                &&& a.spec_text() == arr@[1]@
            }),
    {
        if arr.len() == 0 {
            return Err(QuizAnswerError::MissingString(0));
        }
        let id = match parse_u32(arr[0].as_str()) {
            Some(v) => v,
            None => {
                return Err(QuizAnswerError::BadIdParse);
            },
        };
        if arr.len() < 2 {
            return Err(QuizAnswerError::MissingString(1));
        }
        Ok(QuizAnswer { id, text: arr[1].clone() })
    }

    pub fn get_id(&self) -> (r: u32)
        ensures
            r == self.spec_id(),
    {
        self.id
    }

    pub fn get_text(&self) -> (r: &str)
        ensures
            r@ == self.spec_text(),
    {
        self.text.as_str()
    }
}

/// The characters of the vote-code URL for a poll with the given hash and
/// id, at the given clock reading.
pub open spec fn code_url_chars(hash: Seq<char>, id: u32, time_ms: u128) -> Seq<char> {
    "https://polldaddy.com/n/"@ + hash + "/"@ + dec_chars(id as nat) + "?"@ + dec_chars(
        time_ms as nat,
    )
}

/// The characters of the vote-submission URL.
pub open spec fn vote_url_chars(
    id: u32,
    answer: u32,
    va: Seq<char>,
    nonce: Seq<char>,
    referer: Seq<char>,
) -> Seq<char> {
    "https://polls.polldaddy.com/vote-js.php?p="@ + dec_chars(id as nat) + "&b=1&a="@ + dec_chars(
        answer as nat,
    ) + ",&o=&va="@ + va + "&cookie=0&n="@ + nonce + "&url="@ + referer
}

/// One poll: its numeric id, answers, per-poll hash, whether it is closed,
/// the referring page, and the opaque `va` token its requests need.  The
/// script-evaluation layer outside the library extracts these fields and
/// hands them in as plain values.
#[derive(Debug, Clone)]
pub struct Quiz {
    id: u32,
    answers: Vec<QuizAnswer>,
    hash: String,
    closed: bool,
    referer: String,
    va: String,
}

impl Quiz {
    pub closed spec fn spec_id(self) -> u32 {
        self.id
    }

    pub closed spec fn spec_answers(self) -> Seq<QuizAnswer> {
        self.answers@
    }

    pub closed spec fn spec_hash(self) -> Seq<char> {
        self.hash@
    }

    pub closed spec fn spec_closed(self) -> bool {
        self.closed
    }

    pub closed spec fn spec_referer(self) -> Seq<char> {
        self.referer@
    }

    pub closed spec fn spec_va(self) -> Seq<char> {
        self.va@
    }

    pub fn new(
        id: u32,
        answers: Vec<QuizAnswer>,
        hash: String,
        closed: bool,
        referer: String,
        va: String,
    ) -> (r: Self)
        ensures
            r.spec_id() == id,
            r.spec_answers() == answers@,
            r.spec_hash() == hash@,
            r.spec_closed() == closed,
            r.spec_referer() == referer@,
            r.spec_va() == va@,
    {
        Quiz { id, answers, hash, closed, referer, va }
    }

    pub fn get_id(&self) -> (r: u32)
        ensures
            r == self.spec_id(),
    {
        self.id
    }

    pub fn get_hash(&self) -> (r: &str)
        ensures
            r@ == self.spec_hash(),
    {
        self.hash.as_str()
    }

    pub fn is_closed(&self) -> (r: bool)
        ensures
            r == self.spec_closed(),
    {
        self.closed
    }

    pub fn get_referer(&self) -> (r: &str)
        ensures
            r@ == self.spec_referer(),
    {
        self.referer.as_str()
    }

    pub fn get_answers(&self) -> (r: &Vec<QuizAnswer>)
        ensures
            r@ == self.spec_answers(),
    {
        &self.answers
    }

    pub fn get_va(&self) -> (r: &str)
        ensures
            r@ == self.spec_va(),
    {
        self.va.as_str()
    }

    /// The vote-code URL at one clock reading, so that callers control the
    /// cache-busting timestamp; [`Quiz::get_code_url`] reads the clock.
    pub fn code_url_at(&self, time_ms: u128) -> (r: Result<url::Url, url::ParseError>)
        ensures
            r == url_parse_result(code_url_chars(self.spec_hash(), self.spec_id(), time_ms)),
    {
        let mut s = String::from_str("https://polldaddy.com/n/");
        s.append(self.hash.as_str());
        s.append("/");
        let id_str = u128_to_string(self.id as u128);
        s.append(id_str.as_str());
        s.append("?");
        let time_str = u128_to_string(time_ms);
        s.append(time_str.as_str());
        proof {
            assert(s@ =~= code_url_chars(self.spec_hash(), self.spec_id(), time_ms));
        }
        url::Url::parse(s.as_str())
    }

    /// The vote-code URL with the current clock reading as its
    /// cache-busting query.
    pub fn get_code_url(&self) -> (r: Result<url::Url, url::ParseError>)
        ensures
            exists|t: u128|
                r == url_parse_result(
                    #[trigger] code_url_chars(self.spec_hash(), self.spec_id(), t),
                ),
    {
        let t = get_time_ms();
        self.code_url_at(t)
    }

    /// The vote-submission URL for one answer code and nonce.
    pub fn get_vote_url(&self, answer: u32, nonce: &Nonce) -> (r: Result<
        url::Url,
        url::ParseError,
    >)
        ensures
            r == url_parse_result(
                vote_url_chars(self.spec_id(), answer, self.spec_va(), nonce@, self.spec_referer()),
            ),
    {
        let mut s = String::from_str("https://polls.polldaddy.com/vote-js.php?p=");
        let id_str = u128_to_string(self.id as u128);
        s.append(id_str.as_str());
        s.append("&b=1&a=");
        let answer_str = u128_to_string(answer as u128);
        s.append(answer_str.as_str());
        s.append(",&o=&va=");
        s.append(self.va.as_str());
        s.append("&cookie=0&n=");
        s.append(nonce.as_str());
        s.append("&url=");
        s.append(self.referer.as_str());
        proof {
            assert(s@ =~= vote_url_chars(
                self.spec_id(),
                answer,
                self.spec_va(),
                nonce@,
                self.spec_referer(),
            ));
        }
        url::Url::parse(s.as_str())
    }
}

} // verus!
