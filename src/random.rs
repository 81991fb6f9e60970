//! Random strings of printable, non-space ASCII characters.

use vstd::prelude::*;

verus! {

/// Shortest length of a random string.
pub const MIN_LEN: usize = 1;

/// Longest length of a random string.
pub const MAX_LEN: usize = 39;

/// Lowest code of a drawn character ('!').
pub const MIN_CODE: u8 = 33;

/// Highest code of a drawn character ('~').
pub const MAX_CODE: u8 = 126;

/// A character that a random string may hold: printable ASCII, space excluded.
pub open spec fn is_drawn_char(c: char) -> bool {
    MIN_CODE as u32 <= c as u32 <= MAX_CODE as u32
}

/// What every random string is: between `MIN_LEN` and `MAX_LEN` characters,
/// each of them a drawn character.
pub open spec fn is_random_string(s: Seq<char>) -> bool {
    &&& MIN_LEN <= s.len() <= MAX_LEN
    &&& forall|i: int| 0 <= i < s.len() ==> is_drawn_char(#[trigger] s[i])
}

/// Relies on rand's `thread_rng` and `Rng::gen_range` over an inclusive range:
/// the value lies in the range, which must not be empty (else it panics).
#[verifier::external_body]
fn random_between(low: usize, high: usize) -> (r: usize)
    requires
        low <= high,
    ensures
        low <= r <= high,
{
    rand::Rng::gen_range(&mut rand::thread_rng(), low..=high)
}

/// Relies on `String::push`: the character is appended at the end.
#[verifier::external_body]
fn push_char(s: &mut String, c: char)
    ensures
        final(s)@ == old(s)@.push(c),
{
    s.push(c)
}

/// A character drawn uniformly from the printable, non-space ASCII range.
pub fn random_char() -> (c: char)
    ensures
        is_drawn_char(c),
{
    let code = random_between(MIN_CODE as usize, MAX_CODE as usize) as u8;
    code as char
}

/// A string of random length in `MIN_LEN..=MAX_LEN`, of drawn characters.
pub fn random_string() -> (s: String)
    ensures
        is_random_string(s@),
{
    let len = random_between(MIN_LEN, MAX_LEN);
    let mut s = String::new();
    let mut i: usize = 0;
    while i < len
        invariant
            MIN_LEN <= len <= MAX_LEN,
            i <= len,
            s@.len() == i,
            forall|j: int| 0 <= j < i ==> is_drawn_char(#[trigger] s@[j]),
        decreases len - i,
    {
        let c = random_char();
        push_char(&mut s, c);
        i += 1;
    }
    s
}

/// `line_count` independent random strings.
pub fn random_strings(line_count: usize) -> (v: Vec<String>)
    ensures
        v@.len() == line_count,
        forall|i: int| 0 <= i < line_count ==> is_random_string(#[trigger] v@[i]@),
{
    let mut v: Vec<String> = Vec::new();
    let mut i: usize = 0;
    while i < line_count
        invariant
            i <= line_count,
            v@.len() == i,
            forall|j: int| 0 <= j < i ==> is_random_string(#[trigger] v@[j]@),
        decreases line_count - i,
    {
        v.push(random_string());
        i += 1;
    }
    v
}

} // verus!
