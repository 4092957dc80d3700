use vstd::prelude::*;

use crate::crypto::random_bytes;

verus! {

/// Size of the token alphabet: digits, upper and lower case letters.
pub const ALPHABET_SIZE: u8 = 62;

/// Random bytes from this value up are redrawn: below it each of the 62
/// characters is hit by exactly four byte values, so the choice is uniform.
pub const REJECT_FROM: u8 = 248;

/// Most rounds of drawing that `generate_random_string` makes.
pub const MAX_DRAW_ROUNDS: usize = 16;

/// Character `v` (0 to 61) of the alphabet `0-9A-Za-z`.
pub open spec fn alphabet_char(v: int) -> char {
    if v < 10 {
        ((48 + v) as u8) as char
    } else if v < 36 {
        ((65 + v - 10) as u8) as char
    } else {
        ((97 + v - 36) as u8) as char
    }
}

/// An ASCII digit or letter.
pub open spec fn is_token_char(c: char) -> bool {
    ('0' <= c && c <= '9') || ('A' <= c && c <= 'Z') || ('a' <= c && c <= 'z')
}

/// A random byte that is used rather than redrawn.
pub open spec fn is_accepted(b: u8) -> bool {
    b < REJECT_FROM
}

pub open spec fn accepted_draw() -> spec_fn(u8) -> bool {
    |b: u8| is_accepted(b)
}

/// The text that a sequence of random bytes spells: each accepted byte gives
/// one character, the others are skipped.
pub open spec fn spelled_by(draws: Seq<u8>) -> Seq<char> {
    let a = draws.filter(accepted_draw());
    Seq::new(a.len(), |i: int| alphabet_char(a[i] as int % 62))
}

/// Relies on `char::from(u8)`: the character with that code.
#[verifier::external_body]
fn ascii_char(b: u8) -> (c: char)
    ensures
        c == b as char,
{
    char::from(b)
}

/// Relies on `String::push`: appends one character.
#[verifier::external_body]
pub(crate) fn push_char(s: &mut String, c: char)
    ensures
        final(s)@ == old(s)@.push(c),
{
    s.push(c)
}

/// The alphabet character that a random byte selects, or `None` for a byte
/// that must be redrawn.
pub fn char_of_draw(x: u8) -> (c: Option<char>)
    ensures
        is_accepted(x) ==> c == Some(alphabet_char(x as int % 62)),
        !is_accepted(x) ==> c is None,
        c is Some ==> is_token_char(c->0),
{
    if x >= REJECT_FROM {
        return None;
    }
    let v = x % ALPHABET_SIZE;
    if v < 10 {
        Some(ascii_char(48 + v))
    } else if v < 36 {
        Some(ascii_char(65 + v - 10))
    } else {
        Some(ascii_char(97 + v - 36))
    }
}

proof fn lemma_spelled_step(draws: Seq<u8>, i: int)
    requires
        0 <= i < draws.len(),
    ensures
        spelled_by(draws.subrange(0, i + 1)) == if is_accepted(draws[i]) {
            spelled_by(draws.subrange(0, i)).push(alphabet_char(draws[i] as int % 62))
        } else {
            spelled_by(draws.subrange(0, i))
        },
{
    reveal(Seq::filter);
    let t = draws.subrange(0, i + 1);
    assert(t.drop_last() =~= draws.subrange(0, i));
    assert(t.last() == draws[i]);
    if is_accepted(draws[i]) {
        assert(spelled_by(t) =~= spelled_by(draws.subrange(0, i)).push(alphabet_char(draws[i] as int % 62)));
    } else {
        assert(spelled_by(t) =~= spelled_by(draws.subrange(0, i)));
    }
}

/// Appends what a sequence of random bytes spells.
fn append_draws(s: &mut String, draws: &Vec<u8>)
    ensures
        final(s)@ == old(s)@ + spelled_by(draws@),
{
    let ghost start = s@;
    let mut i: usize = 0;
    proof {
        reveal(Seq::filter);
        assert(spelled_by(draws@.subrange(0, 0)) =~= Seq::<char>::empty());
    }
    while i < draws.len()
        invariant
            i <= draws@.len(),
            s@ == start + spelled_by(draws@.subrange(0, i as int)),
        decreases draws@.len() - i,
    {
        proof {
            lemma_spelled_step(draws@, i as int);
        }
        match char_of_draw(draws[i]) {
            Some(c) => {
                push_char(s, c);
                assert(s@ =~= start + spelled_by(draws@.subrange(0, i as int + 1)));
            },
            None => {},
        }
        i = i + 1;
    }
    assert(draws@.subrange(0, draws@.len() as int) =~= draws@);
}

/// Spells a sequence of random bytes, one character per accepted byte.
pub fn string_from_draws(draws: &Vec<u8>) -> (r: String)
    ensures
        r@ == spelled_by(draws@),
{
    let mut s = String::new();
    append_draws(&mut s, draws);
    assert(s@ =~= spelled_by(draws@));
    s
}

proof fn lemma_spelled_is_token(draws: Seq<u8>)
    ensures
        forall|i: int| 0 <= i < spelled_by(draws).len() ==> is_token_char(#[trigger] spelled_by(draws)[i]),
{
    assert forall|i: int| 0 <= i < spelled_by(draws).len() implies is_token_char(#[trigger] spelled_by(draws)[i]) by {
        let a = draws.filter(accepted_draw());
        let v = a[i] as int % 62;
        assert(0 <= v < 62);
    }
}

/// A random string of `len` characters drawn independently and uniformly from
/// `0-9A-Za-z` with the operating system's secure generator; `None` when the
/// generator fails (or, with negligible odds, too many bytes were redrawn).
pub fn generate_random_string(len: usize) -> (r: Option<String>)
    ensures
        r is Some ==> r->0@.len() == len,
        r is Some ==> forall|i: int| 0 <= i < len ==> is_token_char(#[trigger] r->0@[i]),
{
    let mut s = String::new();
    let mut round: usize = 0;
    while s.unicode_len() < len && round < MAX_DRAW_ROUNDS
        invariant
            s@.len() <= len,
            forall|i: int| 0 <= i < s@.len() ==> is_token_char(#[trigger] s@[i]),
        decreases MAX_DRAW_ROUNDS - round,
    {
        let missing = len - s.unicode_len();
        let draws = match random_bytes(missing) {
            Some(d) => d,
            None => return None,
        };
        let ghost before = s@;
        append_draws(&mut s, &draws);
        proof {
            lemma_spelled_is_token(draws@);
            reveal(Seq::filter);
            draws@.lemma_filter_len(accepted_draw());
            assert forall|i: int| 0 <= i < s@.len() implies is_token_char(#[trigger] s@[i]) by {
                if i >= before.len() {
                    assert(s@[i] == spelled_by(draws@)[i - before.len()]);
                }
            }
        }
        round = round + 1;
    }
    if s.unicode_len() == len {
        Some(s)
    } else {
        None
    }
}

/// Length of the random name of a stored image.
pub const IMAGE_NAME_LENGTH: usize = 16;

/// A name that `generate_random_string(IMAGE_NAME_LENGTH)` could have given.
pub open spec fn is_image_name(name: Seq<char>) -> bool {
    &&& name.len() == IMAGE_NAME_LENGTH
    &&& forall|i: int| 0 <= i < name.len() ==> is_token_char(#[trigger] name[i])
}

/// Whether a requested image name is one this service hands out; anything
/// else (a path, a dot) is refused before the file system is touched.
pub fn is_valid_image_name(name: &str) -> (r: bool)
    ensures
        r == is_image_name(name@),
{
    let n = name.unicode_len();
    if n != IMAGE_NAME_LENGTH {
        return false;
    }
    let mut i: usize = 0;
    while i < n
        invariant
            n == name@.len(),
            i <= n,
            forall|k: int| 0 <= k < i ==> is_token_char(#[trigger] name@[k]),
        decreases n - i,
    {
        let c = name.get_char(i);
        if !(('0' <= c && c <= '9') || ('A' <= c && c <= 'Z') || ('a' <= c && c <= 'z')) {
            return false;
        }
        i = i + 1;
    }
    true
}

/// Where an image is kept: a directory named by its first two characters.
pub open spec fn image_path_of(name: Seq<char>) -> Seq<char> {
    "images/"@ + name.subrange(0, 2) + seq!['/'] + name + ".webp"@
}

/// The file of a stored image.
pub fn image_path(name: &str) -> (r: String)
    requires
        is_image_name(name@),
    ensures
        r@ == image_path_of(name@),
{
    let mut r = String::from_str("images/");
    r.append(name.substring_char(0, 2));
    push_char(&mut r, '/');
    r.append(name);
    r.append(".webp");
    r
}

} // verus!
