//! Text building blocks: single characters, decimal numbers, and joined lists.

use vstd::prelude::*;

verus! {

/// `String::push` of the standard library: the character is appended to the
/// end of the string and nothing else changes.
pub assume_specification[ String::push ](s: &mut String, c: char)
    ensures
        final(s)@ == old(s)@.push(c),
;

/// Whether `c` is one of the letters `A` to `Z`.
pub open spec fn is_upper(c: char) -> bool {
    'A' <= c <= 'Z'
}

/// The lower-case letter that belongs to an upper-case letter `c`.
pub open spec fn lower_of(c: char) -> char
    recommends
        is_upper(c),
{
    ((c as u8) + 32) as char
}

/// Tells whether `c` is an ASCII upper-case letter.
pub fn is_uppercase(c: char) -> (res: bool)
    ensures
        res == is_upper(c),
{
    'A' <= c && c <= 'Z'
}

/// Turns an ASCII upper-case letter into its lower-case form.
pub fn to_lowercase(c: char) -> (res: char)
    requires
        is_upper(c),
    ensures
        res == lower_of(c),
{
    let code: u8 = c as u8;
    (code + 32) as char
}

/// The decimal digit for a value below ten.
pub open spec fn digit_char(d: nat) -> char
    recommends
        d < 10,
{
    ((48 + d) as u8) as char
}

/// The decimal notation of `n`, without leading zeros.
pub open spec fn decimal(n: nat) -> Seq<char>
    decreases n,
{
    if n < 10 {
        seq![digit_char(n)]
    } else {
        decimal(n / 10).push(digit_char(n % 10))
    }
}

/// A digit's character tells which digit it is.
pub proof fn lemma_digit_value(d: nat)
    requires
        d < 10,
    ensures
        digit_char(d) as u8 == 48 + d,
{
}

/// Different numbers have different decimal notations.
pub proof fn lemma_decimal_injective(a: nat, b: nat)
    requires
        decimal(a) == decimal(b),
    ensures
        a == b,
    decreases a,
{
    if a < 10 && b < 10 {
        assert(decimal(a)[0] == digit_char(a));
        assert(decimal(b)[0] == digit_char(b));
        lemma_digit_value(a);
        lemma_digit_value(b);
    } else if a < 10 {
        assert(decimal(a).len() == 1);
        assert(decimal(b).len() == decimal(b / 10).len() + 1);
        lemma_decimal_nonempty(b / 10);
        assert(decimal(b).len() >= 2);
    } else if b < 10 {
        assert(decimal(b).len() == 1);
        assert(decimal(a).len() == decimal(a / 10).len() + 1);
        lemma_decimal_nonempty(a / 10);
        assert(decimal(a).len() >= 2);
    } else {
        let front_a = decimal(a / 10);
        let front_b = decimal(b / 10);
        assert(decimal(a).last() == digit_char(a % 10));
        assert(decimal(b).last() == digit_char(b % 10));
        lemma_digit_value(a % 10);
        lemma_digit_value(b % 10);
        assert(a % 10 == b % 10);
        assert(decimal(a).drop_last() =~= front_a);
        assert(decimal(b).drop_last() =~= front_b);
        lemma_decimal_injective(a / 10, b / 10);
        assert(a == 10 * (a / 10) + a % 10);
        assert(b == 10 * (b / 10) + b % 10);
    }
}

/// Every number has at least one digit.
pub proof fn lemma_decimal_nonempty(n: nat)
    ensures
        decimal(n).len() >= 1,
    decreases n,
{
    if n >= 10 {
        lemma_decimal_nonempty(n / 10);
    }
}

/// Writes `n` in decimal notation.
pub fn decimal_text(n: usize) -> (res: String)
    ensures
        res@ == decimal(n as nat),
    decreases n,
{
    if n < 10 {
        let mut out = String::new();
        out.push((48 + (n as u8)) as char);
        assert(out@ =~= seq![digit_char(n as nat)]);
        out
    } else {
        let mut out = decimal_text(n / 10);
        out.push((48 + ((n % 10) as u8)) as char);
        out
    }
}

/// The views of a list of strings.
pub open spec fn texts(parts: Seq<String>) -> Seq<Seq<char>> {
    parts.map_values(|s: String| s@)
}

/// No text occurs twice in `names`.
pub open spec fn distinct(names: Seq<Seq<char>>) -> bool {
    forall|i: int, j: int| 0 <= i < j < names.len() ==> names[i] != names[j]
}

/// Tells whether no two of the strings are equal.
pub fn are_distinct(names: &Vec<String>) -> (res: bool)
    ensures
        res == distinct(texts(names@)),
{
    let ghost all = texts(names@);
    let mut j: usize = 0;
    while j < names.len()
        invariant
            j <= names.len(),
            all == texts(names@),
            forall|a: int, b: int| 0 <= a < b < j ==> all[a] != all[b],
        decreases names.len() - j,
    {
        let mut i: usize = 0;
        while i < j
            invariant
                i <= j < names.len(),
                all == texts(names@),
                forall|a: int| 0 <= a < i ==> all[a] != all[j as int],
            decreases j - i,
        {
            if names[i] == names[j] {
                assert(all[i as int] == all[j as int]);
                return false;
            }
            i += 1;
        }
        j += 1;
    }
    true
}

/// The parts written one after another with `sep` between neighbours.
pub open spec fn joined(parts: Seq<Seq<char>>, sep: Seq<char>) -> Seq<char>
    decreases parts.len(),
{
    if parts.len() == 0 {
        Seq::empty()
    } else if parts.len() == 1 {
        parts[0]
    } else {
        joined(parts.drop_last(), sep) + sep + parts.last()
    }
}

/// `Itertools::join` on the strings of `parts`: the result holds the first
/// string and then, for each further one, the separator followed by that
/// string; an empty list gives the empty string.
#[verifier::external_body]
pub(crate) fn join_strings(parts: &Vec<String>, sep: &str) -> (res: String)
    ensures
        res@ == joined(texts(parts@), sep@),
{
    itertools::Itertools::join(&mut parts.iter(), sep)
}

} // verus!
