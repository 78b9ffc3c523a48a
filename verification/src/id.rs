//! Short identifiers for volumes and collections.
//!
//! An identifier is a lowercase letter followed by lowercase letters and
//! digits. New identifiers are drawn at random and redrawn while they collide
//! with an identifier that is already in use.

use vstd::prelude::*;
use vstd::string::*;
use rand::Rng;
use crate::text::push_char;

verus! {

/// A lowercase ASCII letter.
pub open spec fn is_lower_letter(c: char) -> bool {
    'a' <= c && c <= 'z'
}

/// An ASCII decimal digit.
pub open spec fn is_digit(c: char) -> bool {
    '0' <= c && c <= '9'
}

/// A character that may occur in an identifier.
pub open spec fn is_id_char(c: char) -> bool {
    is_lower_letter(c) || is_digit(c)
}

/// `s` is an identifier of exactly `len` characters: a lowercase letter
/// followed by lowercase letters and digits.
pub open spec fn is_well_formed_id(s: Seq<char>, len: nat) -> bool {
    &&& s.len() == len
    &&& len >= 1
    &&& is_lower_letter(s[0])
    &&& forall|i: int| 0 <= i < s.len() ==> is_id_char(#[trigger] s[i])
}

/// The shortest identifier that is accepted from outside.
pub const MIN_ID_LENGTH: usize = 5;

/// The longest identifier that is accepted from outside, and the length of
/// every identifier minted with the canonical policy.
pub const MAX_ID_LENGTH: usize = 7;

/// `s` matches `[a-z][a-z0-9]{4,6}`.
pub open spec fn matches_id_pattern(s: Seq<char>) -> bool {
    &&& MIN_ID_LENGTH <= s.len() <= MAX_ID_LENGTH
    &&& is_well_formed_id(s, s.len())
}

/// `id` occurs in `ids`.
pub open spec fn holds_id(ids: Seq<String>, id: Seq<char>) -> bool {
    exists|i: int| 0 <= i < ids.len() && (#[trigger] ids[i])@ == id
}

/// One random choice made while drawing an identifier: the class of the
/// character and its index within the class.
#[derive(Clone, Copy, Debug)]
pub enum Draw {
    Letter(u8),
    Digit(u8),
}

impl Draw {
    /// The index lies within the class.
    pub open spec fn in_range(self) -> bool {
        match self {
            Draw::Letter(n) => n < 26,
            Draw::Digit(n) => n < 10,
        }
    }

    /// The character that the draw stands for: the letter or the digit at
    /// the index, counted round within the class.
    pub open spec fn symbol(self) -> char {
        match self {
            Draw::Letter(n) => ((97 + n % 26) as u8) as char,
            Draw::Digit(n) => ((48 + n % 10) as u8) as char,
        }
    }

    /// The character that the draw stands for.
    pub fn to_char(self) -> (c: char)
        ensures
            c == self.symbol(),
            is_id_char(c),
            self is Letter ==> is_lower_letter(c),
    {
        match self {
            Draw::Letter(n) => (97u8 + n % 26) as char,
            Draw::Digit(n) => (48u8 + n % 10) as char,
        }
    }
}

/// The characters that a sequence of draws stands for.
pub open spec fn symbols_of(draws: Seq<Draw>) -> Seq<char> {
    draws.map_values(|d: Draw| d.symbol())
}

/// The draws describe an identifier: there is at least one, the first is a
/// letter, and each index lies within its class.
pub open spec fn draws_form_id(draws: Seq<Draw>) -> bool {
    &&& draws.len() >= 1
    &&& draws[0] is Letter
    &&& forall|i: int| 0 <= i < draws.len() ==> (#[trigger] draws[i]).in_range()
}

/// How identifiers are drawn: their length, the chance that a character after
/// the first is a digit (`digit_weight` in `weight_scale`), and how many
/// candidates are drawn before giving up.
#[derive(Clone, Copy, Debug)]
pub struct IdPolicy {
    pub length: usize,
    pub digit_weight: u32,
    pub weight_scale: u32,
    pub max_draws: usize,
}

/// `Rng::gen_range` on `0..bound` with the thread-local generator: some
/// number below `bound`. The range must not be empty.
#[verifier::external_body]
fn random_below(bound: u8) -> (n: u8)
    requires
        bound > 0,
    ensures
        n < bound,
{
    rand::thread_rng().gen_range(0..bound)
}

/// `Rng::gen_ratio` with the thread-local generator: `true` with a chance of
/// `numerator` in `denominator`, always `true` when the two are equal and
/// never when `numerator` is zero.
#[verifier::external_body]
fn random_ratio(numerator: u32, denominator: u32) -> (hit: bool)
    requires
        denominator > 0,
        numerator <= denominator,
    ensures
        numerator == denominator ==> hit,
        numerator == 0 ==> !hit,
{
    rand::thread_rng().gen_ratio(numerator, denominator)
}

/// Whether `s` matches `[a-z][a-z0-9]{4,6}`.
pub fn is_valid_id(s: &str) -> (ok: bool)
    ensures
        ok == matches_id_pattern(s@),
{
    let n: usize = s.unicode_len();
    if n < MIN_ID_LENGTH || n > MAX_ID_LENGTH {
        return false;
    }
    let first: char = s.get_char(0);
    if !('a' <= first && first <= 'z') {
        return false;
    }
    let mut i: usize = 1;
    while i < n
        invariant
            1 <= i <= n,
            n == s@.len(),
            is_lower_letter(s@[0]),
            forall|j: int| 0 <= j < i ==> is_id_char(#[trigger] s@[j]),
        decreases n - i,
    {
        let c: char = s.get_char(i);
        let ok: bool = ('a' <= c && c <= 'z') || ('0' <= c && c <= '9');
        if !ok {
            return false;
        }
        i += 1;
    }
    true
}

/// Whether `id` occurs in `existing`.
pub fn id_in_use(existing: &Vec<String>, id: &String) -> (used: bool)
    ensures
        used == holds_id(existing@, id@),
{
    let mut i: usize = 0;
    while i < existing.len()
        invariant
            i <= existing.len(),
            forall|j: int| 0 <= j < i ==> (#[trigger] existing@[j])@ != id@,
        decreases existing.len() - i,
    {
        if existing[i] == *id {
            return true;
        }
        i += 1;
    }
    false
}

/// Writes out the identifier that a sequence of draws stands for.
pub fn candidate_from_draws(draws: &Vec<Draw>) -> (id: String)
    ensures
        id@ == symbols_of(draws@),
        draws.len() >= 1 && draws[0] is Letter ==> is_well_formed_id(id@, draws.len() as nat),
{
    let mut id = String::new();
    let mut i: usize = 0;
    while i < draws.len()
        invariant
            i <= draws.len(),
            id@ == symbols_of(draws@.take(i as int)),
        decreases draws.len() - i,
    {
        let c: char = draws[i].to_char();
        push_char(&mut id, c);
        proof {
            assert(draws@.take(i + 1) == draws@.take(i as int).push(draws@[i as int]));
        }
        i += 1;
    }
    proof {
        assert(draws@.take(draws.len() as int) == draws@);
        if draws.len() >= 1 && draws[0] is Letter {
            lemma_symbols_form_id(draws@);
        }
    }
    id
}

/// The characters of draws that begin with a letter are an identifier of
/// the same length.
pub proof fn lemma_symbols_form_id(draws: Seq<Draw>)
    requires
        draws.len() >= 1,
        draws[0] is Letter,
    ensures
        is_well_formed_id(symbols_of(draws), draws.len()),
{
    let s = symbols_of(draws);
    assert forall|i: int| 0 <= i < s.len() implies is_id_char(#[trigger] s[i]) by {
        assert(s[i] == draws[i].symbol());
    }
    assert(s[0] == draws[0].symbol());
}

/// Keeps a candidate unless it is already in use.
pub fn accept_candidate(candidate: String, existing: &Vec<String>) -> (kept: Option<String>)
    ensures
        holds_id(existing@, candidate@) ==> kept is None,
        !holds_id(existing@, candidate@) ==> kept == Some(candidate),
{
    if id_in_use(existing, &candidate) {
        None
    } else {
        Some(candidate)
    }
}

impl IdPolicy {
    /// The policy can be drawn from: identifiers have at least one character
    /// and the digit weight is a proper chance.
    pub open spec fn valid(&self) -> bool {
        &&& self.length >= 1
        &&& self.weight_scale > 0
        &&& self.digit_weight <= self.weight_scale
    }

    /// Seven characters, seven digits in ten after the first, at most 64
    /// candidates.
    pub fn canonical() -> (policy: IdPolicy)
        ensures
            policy == (IdPolicy { length: 7, digit_weight: 7, weight_scale: 10, max_draws: 64 }),
            policy.valid(),
    {
        IdPolicy { length: MAX_ID_LENGTH, digit_weight: 7, weight_scale: 10, max_draws: 64 }
    }

    /// The canonical policy with another length.
    pub fn with_length(length: usize) -> (policy: IdPolicy)
        ensures
            policy == (IdPolicy { length, digit_weight: 7, weight_scale: 10, max_draws: 64 }),
    {
        IdPolicy { length, digit_weight: 7, weight_scale: 10, max_draws: 64 }
    }

    /// Makes the random choices for one candidate: a letter, then for each
    /// further character a digit or a letter.
    pub fn draw(&self) -> (draws: Vec<Draw>)
        requires
            self.valid(),
        ensures
            draws.len() == self.length,
            draws_form_id(draws@),
            self.digit_weight == self.weight_scale ==> forall|i: int|
                1 <= i < draws.len() ==> #[trigger] draws[i] is Digit,
            self.digit_weight == 0 ==> forall|i: int|
                0 <= i < draws.len() ==> #[trigger] draws[i] is Letter,
    {
        let mut draws: Vec<Draw> = Vec::new();
        draws.push(Draw::Letter(random_below(26)));
        while draws.len() < self.length
            invariant
                self.valid(),
                1 <= draws.len() <= self.length,
                draws_form_id(draws@),
                self.digit_weight == self.weight_scale ==> forall|i: int|
                    1 <= i < draws.len() ==> #[trigger] draws[i] is Digit,
                self.digit_weight == 0 ==> forall|i: int|
                    0 <= i < draws.len() ==> #[trigger] draws[i] is Letter,
            decreases self.length - draws.len(),
        {
            let next: Draw = if random_ratio(self.digit_weight, self.weight_scale) {
                Draw::Digit(random_below(10))
            } else {
                Draw::Letter(random_below(26))
            };
            draws.push(next);
        }
        draws
    }

    /// Draws one candidate identifier.
    pub fn candidate(&self) -> (id: String)
        requires
            self.valid(),
        ensures
            is_well_formed_id(id@, self.length as nat),
    {
        let draws = self.draw();
        candidate_from_draws(&draws)
    }

    /// Whether the policy can be drawn from.
    pub fn is_valid(&self) -> (ok: bool)
        ensures
            ok == self.valid(),
    {
        self.length >= 1 && self.weight_scale > 0 && self.digit_weight <= self.weight_scale
    }

    /// Draws candidates until one is not in `existing`, at most `max_draws`
    /// times. A result is an identifier of the policy's length that is not in
    /// `existing`; with nothing in use the first candidate is the result. A
    /// policy that cannot be drawn from gives none.
    pub fn generate(&self, existing: &Vec<String>) -> (minted: Option<String>)
        ensures
            minted matches Some(id) ==> is_well_formed_id(id@, self.length as nat) && !holds_id(
                existing@,
                id@,
            ),
            self.max_draws == 0 || !self.valid() ==> minted is None,
            self.valid() && self.max_draws > 0 && existing.len() == 0 ==> minted is Some,
    {
        if !self.is_valid() {
            return None;
        }
        let mut tries: usize = 0;
        while tries < self.max_draws
            invariant
                self.valid(),
                tries <= self.max_draws,
                tries > 0 ==> existing.len() > 0,
            decreases self.max_draws - tries,
        {
            let candidate = self.candidate();
            match accept_candidate(candidate, existing) {
                Some(id) => {
                    return Some(id);
                },
                None => {},
            }
            tries += 1;
        }
        None
    }
}

/// Draws one identifier with the canonical policy.
pub fn gen_id() -> (id: String)
    ensures
        is_well_formed_id(id@, MAX_ID_LENGTH as nat),
        matches_id_pattern(id@),
{
    IdPolicy::canonical().candidate()
}

/// Mints an identifier of `length` characters that is not in `existing_ids`.
/// Lengths under five are refused.
pub fn generate_unique_id(length: usize, existing_ids: &Vec<String>) -> (minted: Option<String>)
    ensures
        length < MIN_ID_LENGTH ==> minted is None,
        minted matches Some(id) ==> is_well_formed_id(id@, length as nat) && !holds_id(
            existing_ids@,
            id@,
        ),
        length >= MIN_ID_LENGTH && existing_ids.len() == 0 ==> minted is Some,
{
    if length < MIN_ID_LENGTH {
        return None;
    }
    IdPolicy::with_length(length).generate(existing_ids)
}

} // verus!
