//! Plain-text rendering of polls and tallied responses for the console
//! layer.  The exact characters produced are pinned down by spec functions.

use vstd::prelude::*;
use crate::quiz::{Quiz, QuizAnswer};
use crate::util::{dec_chars, u128_to_string};
use crate::vote_response::{AnswerResponse, AnswerResponseError, HtmlResponse};

verus! {

/// The characters of a boolean, as it is printed.
pub open spec fn bool_chars(b: bool) -> Seq<char> {
    if b {
        "true"@
    } else {
        "false"@
    }
}

fn bool_str(b: bool) -> (r: &'static str)
    ensures
        r@ == bool_chars(b),
{
    if b {
        "true"
    } else {
        "false"
    }
}

/// One numbered answer line of a poll listing; `idx` counts from one.
pub open spec fn quiz_answer_line(idx: nat, a: QuizAnswer) -> Seq<char> {
    dec_chars(idx) + ") "@ + a.spec_text() + " | Code "@ + dec_chars(a.spec_id() as nat) + "\n"@
}

/// All numbered answer lines of a poll listing, in order.
pub open spec fn quiz_answer_lines(answers: Seq<QuizAnswer>) -> Seq<char>
    decreases answers.len(),
{
    if answers.len() == 0 {
        Seq::empty()
    } else {
        quiz_answer_lines(answers.drop_last()) + quiz_answer_line(
            answers.len() as nat,
            answers.last(),
        )
    }
}

/// The full poll listing.
pub open spec fn quiz_display_chars(q: Quiz) -> Seq<char> {
    "Quiz Id: "@ + dec_chars(q.spec_id() as nat) + "\n"@ + "Quiz Hash: "@ + q.spec_hash() + "\n"@
        + "Quiz Closed: "@ + bool_chars(q.spec_closed()) + "\n"@ + "Quiz Referer: "@
        + q.spec_referer() + "\n"@ + "Quiz Va: "@ + q.spec_va() + "\n"@ + "\n"@ + "Answers: \n"@
        + quiz_answer_lines(q.spec_answers())
}

/// Renders a poll for the console, one field per line, then its numbered
/// answers.
pub struct QuizRefDisplay<'a>(pub &'a Quiz);

impl<'a> QuizRefDisplay<'a> {
    pub fn to_display_string(&self) -> (s: String)
        ensures
            s@ == quiz_display_chars(*self.0),
    {
        let q = self.0;
        let mut s = String::from_str("Quiz Id: ");
        let id_str = u128_to_string(q.get_id() as u128);
        s.append(id_str.as_str());
        s.append("\n");
        s.append("Quiz Hash: ");
        s.append(q.get_hash());
        s.append("\n");
        s.append("Quiz Closed: ");
        s.append(bool_str(q.is_closed()));
        s.append("\n");
        s.append("Quiz Referer: ");
        s.append(q.get_referer());
        s.append("\n");
        s.append("Quiz Va: ");
        s.append(q.get_va());
        s.append("\n");
        s.append("\n");
        s.append("Answers: \n");
        let answers = q.get_answers();
        let n = answers.len();
        let ghost head = s@;
        let mut i: usize = 0;
        while i < n
            invariant
                n == answers@.len(),
                answers@ == q.spec_answers(),
                i <= n,
                s@ == head + quiz_answer_lines(answers@.take(i as int)),
            decreases n - i,
        {
            let line_no = u128_to_string((i + 1) as u128);
            s.append(line_no.as_str());
            s.append(") ");
            s.append(answers[i].get_text());
            s.append(" | Code ");
            let code = u128_to_string(answers[i].get_id() as u128);
            s.append(code.as_str());
            s.append("\n");
            proof {
                let pre = answers@.take(i as int);
                let cur = answers@.take(i + 1);
                assert(cur.drop_last() =~= pre);
                assert(cur.last() == answers@[i as int]);
                assert(s@ =~= head + quiz_answer_lines(cur));
            }
            i = i + 1;
        }
        proof {
            assert(answers@.take(n as int) =~= answers@);
            assert(s@ =~= quiz_display_chars(*q));
        }
        s
    }
}

/// One numbered line of the tallied results; `idx` counts from one.  An
/// answer row that failed to parse is reported as such.
pub open spec fn tally_line(idx: nat, a: Result<AnswerResponse, AnswerResponseError>) -> Seq<
    char,
> {
    match a {
        Ok(ans) => dec_chars(idx) + ") "@ + ans.spec_text() + " | "@ + dec_chars(
            ans.spec_votes() as nat,
        ) + " votes\n"@,
        Err(_) => dec_chars(idx) + ") Failed to parse\n"@,
    }
}

/// All numbered tally lines, in order.
pub open spec fn tally_lines(answers: Seq<Result<AnswerResponse, AnswerResponseError>>) -> Seq<
    char,
>
    decreases answers.len(),
{
    if answers.len() == 0 {
        Seq::empty()
    } else {
        tally_lines(answers.drop_last()) + tally_line(answers.len() as nat, answers.last())
    }
}

/// The full tally listing: one line per answer, then the total.
pub open spec fn tally_display_chars(h: HtmlResponse) -> Seq<char> {
    tally_lines(h.spec_answers()) + "\nTotal Votes: "@ + dec_chars(h.spec_total_votes() as nat)
        + " votes\n"@
}

/// Renders the tallied results of a vote response for the console.
pub struct HtmlResponseRefDisplay<'a>(pub &'a HtmlResponse);

impl<'a> HtmlResponseRefDisplay<'a> {
    pub fn to_display_string(&self) -> (s: String)
        ensures
            s@ == tally_display_chars(*self.0),
    {
        let h = self.0;
        let mut s = String::new();
        let answers = h.get_answers();
        let n = answers.len();
        let mut i: usize = 0;
        while i < n
            invariant
                n == answers@.len(),
                answers@ == h.spec_answers(),
                i <= n,
                s@ == tally_lines(answers@.take(i as int)),
            decreases n - i,
        {
            let line_no = u128_to_string((i + 1) as u128);
            s.append(line_no.as_str());
            match &answers[i] {
                Ok(ans) => {
                    s.append(") ");
                    s.append(ans.get_text());
                    s.append(" | ");
                    let votes = u128_to_string(ans.get_votes() as u128);
                    s.append(votes.as_str());
                    s.append(" votes\n");
                },
                Err(_) => {
                    s.append(") Failed to parse\n");
                },
            }
            proof {
                let pre = answers@.take(i as int);
                let cur = answers@.take(i + 1);
                assert(cur.drop_last() =~= pre);
                assert(cur.last() == answers@[i as int]);
                assert(s@ =~= tally_lines(cur));
            }
            i = i + 1;
        }
        proof {
            assert(answers@.take(n as int) =~= answers@);
        }
        s.append("\nTotal Votes: ");
        let total = u128_to_string(h.get_total_votes() as u128);
        s.append(total.as_str());
        s.append(" votes\n");
        proof {
            assert(s@ =~= tally_display_chars(*h));
        }
        s
    }
}

} // verus!
