//! The rules of the number guessing game.
//!
//! The game picks a secret number from 1 to 100. Every guess is answered
//! with a verdict, and the game is over with the first guess that is right.
use rand::Rng;
use vstd::prelude::*;
use vstd::std_specs::iter::IteratorSpec;
use vstd::string::*;

verus! {

/// The smallest number the game may pick.
pub const LOWEST: u32 = 1;

/// The largest number the game may pick.
pub const HIGHEST: u32 = 100;

/// The answer to a guess.
#[derive(Debug, Clone, Copy, PartialEq, Eq, Structural)]
pub enum Verdict {
    /// The guess is below the secret number.
    TooSmall,
    /// The guess is above the secret number.
    TooBig,
    /// The guess is the secret number.
    Win,
}

/// How a guess compares with the secret number.
pub open spec fn verdict_on(guess: u32, secret_number: u32) -> Verdict {
    if guess < secret_number {
        Verdict::TooSmall
    } else if guess > secret_number {
        Verdict::TooBig
    } else {
        Verdict::Win
    }
}

/// Compares a guess with the secret number.
pub fn judge(guess: u32, secret_number: u32) -> (verdict: Verdict)
    ensures
        verdict == verdict_on(guess, secret_number),
{
    if guess < secret_number {
        Verdict::TooSmall
    } else if guess > secret_number {
        Verdict::TooBig
    } else {
        Verdict::Win
    }
}

/// Draws a number from `low` up to, but not including, `high` with the
/// thread-local generator of the `rand` crate, by `Rng::gen_range` on a
/// half-open range. The range must not be empty. Nothing but the bounds is
/// known of the number drawn; the generator fails if the system cannot seed
/// it.
#[verifier::external_body]
fn random_in_range(low: u32, high: u32) -> (number: u32)
    requires
        low < high,
    ensures
        low <= number < high,
{
    rand::thread_rng().gen_range(low..high)
}

/// A game in progress: the number to guess, and how many guesses have been
/// asked for.
pub struct Game {
    secret_number: u32,
    count: u32,
}

impl Game {
    /// The number to guess.
    pub closed spec fn secret_number(&self) -> u32 {
        self.secret_number
    }

    /// How many guesses have been asked for.
    pub closed spec fn count(&self) -> nat {
        self.count as nat
    }

    /// A new game with a secret number drawn at random from 1 to 100.
    pub fn new() -> (game: Game)
        ensures
            LOWEST <= game.secret_number() <= HIGHEST,
            game.count() == 0,
    {
        Game::with_secret(random_in_range(LOWEST, HIGHEST + 1))
    }

    /// A new game with the given secret number.
    pub fn with_secret(secret_number: u32) -> (game: Game)
        ensures
            game.secret_number() == secret_number,
            game.count() == 0,
    {
        Game { secret_number, count: 0 }
    }

    /// How many guesses have been asked for.
    pub fn guesses(&self) -> (count: u32)
        ensures
            count == self.count(),
    {
        self.count
    }

    /// Counts one more request for a guess, whether or not what the player
    /// answers turns out to be a number. The count has to fit into a `u32`.
    pub fn ask(&mut self)
        requires
            old(self).count() < u32::MAX,
        ensures
            final(self).count() == old(self).count() + 1,
            final(self).secret_number() == old(self).secret_number(),
    {
        self.count = self.count + 1;
    }

    /// Answers a guess. The game is over when the verdict is `Win`.
    pub fn guess(&self, guess: u32) -> (verdict: Verdict)
        ensures
            verdict == verdict_on(guess, self.secret_number()),
    {
        judge(guess, self.secret_number)
    }
}

/// Why a line of input is not a guess.
#[derive(Debug, Clone, Copy, PartialEq, Eq, Structural)]
pub enum GuessError {
    /// The line holds nothing but white space.
    Empty,
    /// The line holds something that is not a decimal digit.
    InvalidDigit,
    /// The number is larger than the largest `u32`.
    TooLarge,
}

impl GuessError {
    /// The error in words.
    pub fn message(&self) -> (text: &'static str)
        ensures
            text@ == match *self {
                GuessError::Empty => "cannot parse integer from empty string"@,
                GuessError::InvalidDigit => "invalid digit found in string"@,
                GuessError::TooLarge => "number too large to fit in target type"@,
            },
    {
        match self {
            GuessError::Empty => "cannot parse integer from empty string",
            GuessError::InvalidDigit => "invalid digit found in string",
            GuessError::TooLarge => "number too large to fit in target type",
        }
    }
}

/// Whether `c` is white space: a blank, a control character that moves the
/// writing position, or one of the spaces and separators beyond ASCII.
pub open spec fn is_space(c: char) -> bool {
    let code = c as u32;
    ||| 0x09 <= code <= 0x0d
    ||| code == 0x20
    ||| code == 0x85
    ||| code == 0xa0
    ||| code == 0x1680
    ||| 0x2000 <= code <= 0x200a
    ||| code == 0x2028
    ||| code == 0x2029
    ||| code == 0x202f
    ||| code == 0x205f
    ||| code == 0x3000
}

/// `text` without the white space at its start.
pub open spec fn trim_start(text: Seq<char>) -> Seq<char>
    decreases text.len(),
{
    if text.len() > 0 && is_space(text[0]) {
        trim_start(text.drop_first())
    } else {
        text
    }
}

/// `text` without the white space at its end.
pub open spec fn trim_end(text: Seq<char>) -> Seq<char>
    decreases text.len(),
{
    if text.len() > 0 && is_space(text.last()) {
        trim_end(text.drop_last())
    } else {
        text
    }
}

/// `text` without the white space at its start and at its end.
pub open spec fn trimmed(text: Seq<char>) -> Seq<char> {
    trim_end(trim_start(text))
}

/// Whether `c` is a decimal digit.
pub open spec fn is_digit(c: char) -> bool {
    0x30 <= c as u32 <= 0x39
}

/// The number that digits stand for when they follow digits that stand for
/// `before`. Reading stops with an error at the first character that is no
/// digit, and at the first digit with which the number outgrows a `u32`.
pub open spec fn number_from(digits: Seq<char>, before: nat) -> Result<u32, GuessError>
    decreases digits.len(),
{
    if digits.len() == 0 {
        Ok(before as u32)
    } else if !is_digit(digits[0]) {
        Err(GuessError::InvalidDigit)
    } else if before * 10 + (digits[0] as u32 - 0x30) > u32::MAX {
        Err(GuessError::TooLarge)
    } else {
        number_from(digits.drop_first(), (before * 10 + (digits[0] as u32 - 0x30)) as nat)
    }
}

/// The number that `text` stands for: decimal digits, with a plus sign in
/// front of them if one likes, and nothing else.
pub open spec fn number_of(text: Seq<char>) -> Result<u32, GuessError> {
    if text.len() == 0 {
        Err(GuessError::Empty)
    } else if text[0] == '+' {
        if text.len() == 1 {
            Err(GuessError::InvalidDigit)
        } else {
            number_from(text.drop_first(), 0)
        }
    } else {
        number_from(text, 0)
    }
}

/// Whether `c` is white space.
fn space(c: char) -> (b: bool)
    ensures
        b == is_space(c),
{
    let code = c as u32;
    (0x09 <= code && code <= 0x0d) || code == 0x20 || code == 0x85 || code == 0xa0 || code
        == 0x1680 || (0x2000 <= code && code <= 0x200a) || code == 0x2028 || code == 0x2029
        || code == 0x202f || code == 0x205f || code == 0x3000
}

/// The characters of `text`.
fn characters(text: &str) -> (chars: Vec<char>)
    ensures
        chars@ == text@,
{
    let mut chars: Vec<char> = Vec::new();
    let mut rest = text.chars();
    loop
        invariant
            chars@ + rest.remaining() == text@,
            rest.decrease() is Some,
        decreases rest.decrease()->0,
    {
        let ghost before = rest.remaining();
        match rest.next() {
            Some(c) => {
                chars.push(c);
                assert(chars@ + rest.remaining() =~= text@) by {
                    assert(before =~= seq![c] + before.drop_first());
                }
            },
            None => {
                assert(chars@ =~= text@);
                return chars;
            },
        }
    }
}

/// Reads a guess from a line of input: white space around the number is
/// passed over, and what is left has to be a number that fits into a `u32`.
pub fn parse_guess(line: &str) -> (guess: Result<u32, GuessError>)
    ensures
        guess == number_of(trimmed(line@)),
{
    let chars = characters(line);
    let mut start: usize = 0;
    assert(chars@.subrange(0, chars@.len() as int) =~= chars@);
    while start < chars.len() && space(chars[start])
        invariant
            start <= chars@.len(),
            trim_start(chars@) == trim_start(chars@.subrange(start as int, chars@.len() as int)),
        decreases chars@.len() - start,
    {
        proof {
            let rest = chars@.subrange(start as int, chars@.len() as int);
            assert(rest.drop_first() =~= chars@.subrange(start + 1, chars@.len() as int));
        }
        start = start + 1;
    }
    let mut end: usize = chars.len();
    while end > start && space(chars[end - 1])
        invariant
            start <= end <= chars@.len(),
            trim_end(chars@.subrange(start as int, chars@.len() as int)) == trim_end(
                chars@.subrange(start as int, end as int),
            ),
        decreases end - start,
    {
        proof {
            let rest = chars@.subrange(start as int, end as int);
            assert(rest.drop_last() =~= chars@.subrange(start as int, end - 1));
        }
        end = end - 1;
    }
    let ghost text = chars@.subrange(start as int, end as int);
    proof {
        let rest = chars@.subrange(start as int, chars@.len() as int);
        if start < chars@.len() {
            assert(rest[0] == chars@[start as int]);
        }
        assert(trim_start(chars@) == rest);
        if end > start {
            assert(text.last() == chars@[end - 1]);
        }
        assert(trimmed(line@) == text);
    }
    if start == end {
        return Err(GuessError::Empty);
    }
    let mut i: usize = start;
    if chars[i] == '+' {
        if end - start == 1 {
            return Err(GuessError::InvalidDigit);
        }
        i = i + 1;
    }
    let mut n: u32 = 0;
    proof {
        assert(text[0] == chars@[start as int]);
        if text[0] == '+' {
            assert(text.drop_first() =~= chars@.subrange(i as int, end as int));
        } else {
            assert(text =~= chars@.subrange(i as int, end as int));
        }
    }
    while i < end
        invariant
            start <= i <= end <= chars@.len(),
            trimmed(line@) == text,
            number_of(text) == number_from(chars@.subrange(i as int, end as int), n as nat),
        decreases end - i,
    {
        let code = chars[i] as u32;
        proof {
            let rest = chars@.subrange(i as int, end as int);
            assert(rest[0] == chars@[i as int]);
            assert(rest.drop_first() =~= chars@.subrange(i + 1, end as int));
        }
        if code < 0x30 || code > 0x39 {
            return Err(GuessError::InvalidDigit);
        }
        let digit = code - 0x30;
        if n > (u32::MAX - digit) / 10 {
            return Err(GuessError::TooLarge);
        }
        n = n * 10 + digit;
        i = i + 1;
    }
    Ok(n)
}

} // verus!
