//! Generated passwords.

use vstd::prelude::*;
use vstd::string::*;

verus! {

/// How long a generated password is.
pub const LENGTH: usize = 32;

/// How many characters there are to choose from.
pub const ALPHABET: usize = 62;

/// A password. It has no form in which it could be printed by accident.
pub struct Secret {
    value: String,
}

impl Secret {
    /// The password's text.
    pub closed spec fn text(&self) -> Seq<char> {
        self.value@
    }

    /// Wraps a password.
    pub fn new(value: String) -> (r: Self)
        ensures
            r.text() == value@,
    {
        Secret { value }
    }

    /// The password's text.
    pub fn expose(&self) -> (r: &str)
        ensures
            r@ == self.text(),
    {
        self.value.as_str()
    }
}

/// The letters, capitals first, then the digits.
pub open spec fn letter(i: int) -> char {
    if i < 26 {
        (65 + i) as u8 as char
    } else if i < 52 {
        (97 + (i - 26)) as u8 as char
    } else {
        (48 + (i - 52)) as u8 as char
    }
}

/// A letter or digit of ASCII, which neither SQL nor a connection string has
/// to escape.
pub open spec fn plain(c: char) -> bool {
    ('A' <= c <= 'Z') || ('a' <= c <= 'z') || ('0' <= c <= '9')
}

fn letter_at(i: usize) -> (r: char)
    requires
        i < ALPHABET,
    ensures
        r == letter(i as int),
        plain(r),
{
    if i < 26 {
        (65 + i as u8) as char
    } else if i < 52 {
        (97 + (i - 26) as u8) as char
    } else {
        (48 + (i - 52) as u8) as char
    }
}

/// `Rng::random_range` on the thread's generator, from 0 to below `bound`:
/// some number in that range.
#[verifier::external_body]
fn random_below(bound: usize) -> (r: usize)
    requires
        bound > 0,
    ensures
        r < bound,
{
    rand::Rng::random_range(&mut rand::rng(), 0..bound)
}

/// The password that a sequence of choices spells.
pub fn spell(choices: &Vec<usize>) -> (r: Secret)
    requires
        forall|i: int| 0 <= i < choices.len() ==> (#[trigger] choices@[i]) < ALPHABET,
    ensures
        r.text() == Seq::new(choices@.len(), |i: int| letter(choices@[i] as int)),
        forall|i: int| 0 <= i < r.text().len() ==> plain(#[trigger] r.text()[i]),
{
    let mut s = String::new();
    let mut i: usize = 0;
    while i < choices.len()
        invariant
            i <= choices.len(),
            forall|k: int| 0 <= k < choices.len() ==> (#[trigger] choices@[k]) < ALPHABET,
            s@.len() == i,
            forall|k: int|
                0 <= k < i ==> #[trigger] s@[k] == letter(choices@[k] as int) && plain(s@[k]),
        decreases choices.len() - i,
    {
        s.push(letter_at(choices[i]));
        i = i + 1;
    }
    assert(s@ =~= Seq::new(choices@.len(), |i: int| letter(choices@[i] as int)));
    Secret::new(s)
}

/// Generates a password.
pub fn generate() -> (r: Secret)
    ensures
        r.text().len() == LENGTH,
        forall|i: int| 0 <= i < LENGTH ==> plain(#[trigger] r.text()[i]),
{
    let mut choices: Vec<usize> = Vec::new();
    while choices.len() < LENGTH
        invariant
            choices.len() <= LENGTH,
            forall|k: int| 0 <= k < choices.len() ==> (#[trigger] choices@[k]) < ALPHABET,
        decreases LENGTH - choices.len(),
    {
        choices.push(random_below(ALPHABET));
    }
    spell(&choices)
}

/// The alphabet is the capitals, the small letters and the digits, each once.
pub proof fn every_letter_is_one_of_a_kind(i: int, j: int)
    requires
        0 <= i < 62,
        0 <= j < 62,
    ensures
        letter(i) == letter(j) ==> i == j,
        plain(letter(i)),
        letter(0) == 'A',
        letter(26) == 'a',
        letter(52) == '0',
{
}

} // verus!
