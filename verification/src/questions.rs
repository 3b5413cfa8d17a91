//! The year-guessing quiz question: given the year an image was taken, ask
//! for it with three consecutive candidate years, the true year placed at a
//! random position.

use vstd::prelude::*;

use crate::rng::{rng_draw, SeededRng};

verus! {

/// A quiz question with its candidate answers; `idx_correct` is the
/// position of the correct one.
#[derive(Debug)]
pub struct QuestionAndAnswers {
    pub question: String,
    pub answers: Vec<String>,
    pub idx_correct: usize,
}

impl Default for QuestionAndAnswers {
    fn default() -> (r: Self)
        ensures
            r.question@ == Seq::<char>::empty(),
            r.answers@ == Seq::<String>::empty(),
            r.idx_correct == 0,
    {
        QuestionAndAnswers { question: String::new(), answers: Vec::new(), idx_correct: 0 }
    }
}

/// The digit character of `d`.
pub open spec fn digit_char(d: nat) -> char {
    if d == 0 { '0' }
    else if d == 1 { '1' }
    else if d == 2 { '2' }
    else if d == 3 { '3' }
    else if d == 4 { '4' }
    else if d == 5 { '5' }
    else if d == 6 { '6' }
    else if d == 7 { '7' }
    else if d == 8 { '8' }
    else { '9' }
}

/// The decimal digit sequence of `n`, most significant digit first, without
/// leading zeroes (a single `'0'` for zero).
pub open spec fn dec_digits(n: nat) -> Seq<char>
    decreases n,
{
    if n < 10 {
        seq![digit_char(n)]
    } else {
        dec_digits(n / 10).push(digit_char(n % 10))
    }
}

/// The one-character string of the digit `d`.
fn digit_str(d: u64) -> (r: &'static str)
    requires
        d < 10,
    ensures
        r@ == seq![digit_char(d as nat)],
{
    proof {
        reveal_strlit("0");
        reveal_strlit("1");
        reveal_strlit("2");
        reveal_strlit("3");
        reveal_strlit("4");
        reveal_strlit("5");
        reveal_strlit("6");
        reveal_strlit("7");
        reveal_strlit("8");
        reveal_strlit("9");
    }
    let r = if d == 0 { "0" }
    else if d == 1 { "1" }
    else if d == 2 { "2" }
    else if d == 3 { "3" }
    else if d == 4 { "4" }
    else if d == 5 { "5" }
    else if d == 6 { "6" }
    else if d == 7 { "7" }
    else if d == 8 { "8" }
    else { "9" };
    proof {
        assert(r@ =~= seq![digit_char(d as nat)]);
    }
    r
}

/// Appends the decimal digits of `n` to `s`.
fn push_decimal(s: &mut String, n: u64)
    ensures
        final(s)@ == old(s)@ + dec_digits(n as nat),
    decreases n,
{
    if n >= 10 {
        push_decimal(s, n / 10);
    }
    let d = digit_str(n % 10);
    s.append(d);
    proof {
        if n < 10 {
            assert(final(s)@ =~= old(s)@ + dec_digits(n as nat));
        } else {
            assert(dec_digits(n as nat) == dec_digits((n / 10) as nat).push(
                digit_char((n % 10) as nat),
            ));
            assert(final(s)@ =~= old(s)@ + dec_digits(n as nat));
        }
    }
}

/// The decimal string of `n`.
pub fn decimal_string(n: u64) -> (r: String)
    ensures
        r@ == dec_digits(n as nat),
{
    let mut s = String::new();
    push_decimal(&mut s, n);
    proof {
        assert(s@ =~= dec_digits(n as nat));
    }
    s
}

/// The offset drawn for a year question: uniform between `0` and
/// `min(2, year_now - year_taken)` inclusive.
pub open spec fn question_offset(
    seed: u64,
    history: Seq<u64>,
    year_taken: i64,
    year_now: i64,
) -> int {
    rng_draw(seed, history, (vstd::math::min(2, year_now - year_taken) + 1) as u64) as int
}

/// Builds the year-guessing question for an image taken in `year_taken`.
///
/// The three candidate answers are consecutive years: with a random offset
/// `o` between `0` and `min(2, year_now - year_taken)`, they run from
/// `year_taken - 2 + o` to `year_taken + o`.  The correct year thus sits at
/// position `2 - o`, and no answer lies beyond `year_now`.
pub fn simple_year_question(
    year_taken: i64,
    year_now: i64,
    rng: &mut SeededRng,
) -> (r: QuestionAndAnswers)
    requires
        2 <= year_taken <= year_now,
    ensures
        r.question@ == "Which year was the picture taken?"@,
        r.answers@.len() == 3,
        r.idx_correct < 3,
        ({
            let o = question_offset(
                old(rng).seed(),
                old(rng).history(),
                year_taken,
                year_now,
            );
            &&& 0 <= o <= 2
            &&& r.idx_correct == 2 - o
            &&& forall|i: int|
                0 <= i < 3 ==> (#[trigger] r.answers@[i])@ == dec_digits(
                    (year_taken - 2 + o + i) as nat,
                )
            &&& r.answers@[r.idx_correct as int]@ == dec_digits(year_taken as nat)
            &&& year_taken + o <= year_now
        }),
        final(rng).seed() == old(rng).seed(),
        final(rng).history() == old(rng).history().push(
            (vstd::math::min(2, year_now - year_taken) + 1) as u64,
        ),
{
    let span = year_now - year_taken;
    let max_offset: i64 = if span < 2 { span } else { 2 };
    let offset = rng.draw((max_offset + 1) as u64) as i64;
    proof {
        assert(max_offset == vstd::math::min(2, year_now - year_taken));
        assert(0 <= offset <= max_offset);
    }
    let first = year_taken - 2 + offset;
    let mut answers: Vec<String> = Vec::new();
    answers.push(decimal_string(first as u64));
    answers.push(decimal_string((first + 1) as u64));
    answers.push(decimal_string((first + 2) as u64));
    let idx_correct = (2 - offset) as usize;
    proof {
        assert(first + (2 - offset) == year_taken);
    }
    QuestionAndAnswers {
        question: "Which year was the picture taken?".to_owned(),
        answers,
        idx_correct,
    }
}

} // verus!
