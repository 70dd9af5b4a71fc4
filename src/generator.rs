//! Random password generation with a guarantee that each requested
//! character class is represented.
use rand::seq::{IndexedRandom, SliceRandom};
use vstd::prelude::*;

verus! {

broadcast use vstd::seq_lib::group_seq_properties, vstd::seq_lib::group_to_multiset_ensures;

/// Lower-case letters: always part of the alphabet.
pub open spec fn lowercase_chars() -> Seq<char> {
    "abcdefghijklmnopqrstuvwxyz"@
}

/// Upper-case letters.
pub open spec fn uppercase_chars() -> Seq<char> {
    "ABCDEFGHIJKLMNOPQRSTUVWXYZ"@
}

/// Decimal digits.
pub open spec fn digit_chars() -> Seq<char> {
    "0123456789"@
}

/// The fixed symbol set.
pub open spec fn symbol_chars() -> Seq<char> {
    "!@#$%^&*()_+-=[]{}|;:,.<>?"@
}

/// `class` if `on`, else nothing.
pub open spec fn when(on: bool, class: Seq<char>) -> Seq<char> {
    if on {
        class
    } else {
        Seq::empty()
    }
}

/// The alphabet a password draws from: lower case, then each enabled class.
pub open spec fn alphabet(upper: bool, numbers: bool, symbols: bool) -> Seq<char> {
    lowercase_chars() + when(upper, uppercase_chars()) + when(numbers, digit_chars()) + when(
        symbols,
        symbol_chars(),
    )
}

/// `s` holds at least one character of `class`.
pub open spec fn has_char_of(s: Seq<char>, class: Seq<char>) -> bool {
    exists|c: char| #[trigger] s.contains(c) && class.contains(c)
}

/// Guaranteed characters are drawn in class order (upper case, digits,
/// symbols); this is how many enabled classes come before the digits.
pub open spec fn digits_rank(upper: bool) -> nat {
    if upper { 1 } else { 0 }
}

/// How many enabled classes come before the symbols.
pub open spec fn symbols_rank(upper: bool, numbers: bool) -> nat {
    digits_rank(upper) + if numbers { 1nat } else { 0nat }
}

/// Length used when a caller gives none.
pub fn default_password_length() -> (r: u8)
    ensures
        r == 12,
{
    12
}

/// The characters of `s`, in order.
fn chars_of(s: &str) -> (r: Vec<char>)
    ensures
        r@ == s@,
{
    let n = s.unicode_len();
    let mut r: Vec<char> = Vec::new();
    let mut i: usize = 0;
    while i < n
        invariant
            n == s@.len(),
            i <= n,
            r@ == s@.subrange(0, i as int),
        decreases n - i,
    {
        r.push(s.get_char(i));
        i = i + 1;
    }
    assert(r@ =~= s@);
    r
}

/// Appends the characters of `src` to `dst`.
fn extend_chars(dst: &mut Vec<char>, src: &Vec<char>)
    ensures
        final(dst)@ == old(dst)@ + src@,
{
    let mut i: usize = 0;
    while i < src.len()
        invariant
            i <= src@.len(),
            dst@ == old(dst)@ + src@.subrange(0, i as int),
        decreases src@.len() - i,
    {
        dst.push(src[i]);
        i = i + 1;
    }
    assert(dst@ =~= old(dst)@ + src@);
}

/// Relies on rand's `IndexedRandom::choose` over the thread-local generator:
/// it returns some element of a non-empty slice.
#[verifier::external_body]
fn pick(chars: &Vec<char>) -> (c: char)
    requires
        chars@.len() > 0,
    ensures
        chars@.contains(c),
{
    *chars.choose(&mut rand::rng()).unwrap()
}

/// Relies on rand's `SliceRandom::shuffle` over the thread-local generator:
/// it permutes the elements in place.
#[verifier::external_body]
fn shuffle_chars(v: &mut Vec<char>)
    ensures
        final(v)@.to_multiset() == old(v)@.to_multiset(),
{
    v.shuffle(&mut rand::rng());
}

/// Relies on std's `FromIterator<char>` for `String`: the characters in order.
#[verifier::external_body]
fn string_of(v: &Vec<char>) -> (s: String)
    ensures
        s@ == v@,
{
    v.iter().collect()
}

proof fn lemma_in_alphabet(upper: bool, numbers: bool, symbols: bool, c: char)
    requires
        lowercase_chars().contains(c) || (upper && uppercase_chars().contains(c)) || (numbers
            && digit_chars().contains(c)) || (symbols && symbol_chars().contains(c)),
    ensures
        alphabet(upper, numbers, symbols).contains(c),
{
    let a = lowercase_chars();
    let b = when(upper, uppercase_chars());
    let d = when(numbers, digit_chars());
    let e = when(symbols, symbol_chars());
    assert((a + b).contains(c) ==> (a + b + d).contains(c));
    assert((a + b + d).contains(c) ==> (a + b + d + e).contains(c));
}

/// Draws one character of `class` into `out` if the length budget allows.
fn push_guaranteed(out: &mut Vec<char>, class: &Vec<char>, length: u8)
    requires
        class@.len() > 0,
    ensures
        old(out)@.len() < length ==> {
            &&& final(out)@.len() == old(out)@.len() + 1
            &&& final(out)@.subrange(0, old(out)@.len() as int) == old(out)@
            &&& class@.contains(final(out)@.last())
        },
        old(out)@.len() >= length ==> final(out)@ == old(out)@,
        forall|c: char| old(out)@.contains(c) ==> #[trigger] final(out)@.contains(c),
{
    if out.len() < length as usize {
        out.push(pick(class));
        assert(out@.subrange(0, old(out)@.len() as int) =~= old(out)@);
        assert(forall|c: char| old(out)@.contains(c) ==> #[trigger] out@.contains(c));
    }
}

/// A random password of exactly `length` characters over the alphabet that
/// the flags select. One character of each enabled class is drawn first, in
/// class order, as far as the length allows; the rest is drawn from the whole
/// alphabet, and the result is shuffled.
pub fn generate_password(
    length: u8,
    include_uppercase: bool,
    include_numbers: bool,
    include_symbols: bool,
) -> (r: String)
    ensures
        r@.len() == length,
        forall|i: int|
            0 <= i < r@.len() ==> #[trigger] alphabet(
                include_uppercase,
                include_numbers,
                include_symbols,
            ).contains(r@[i]),
        include_uppercase && 0 < length ==> has_char_of(r@, uppercase_chars()),
        include_numbers && digits_rank(include_uppercase) < length ==> has_char_of(
            r@,
            digit_chars(),
        ),
        include_symbols && symbols_rank(include_uppercase, include_numbers) < length
            ==> has_char_of(r@, symbol_chars()),
{
    let ghost up = include_uppercase;
    let ghost nu = include_numbers;
    let ghost sy = include_symbols;
    let mut password_chars: Vec<char> = Vec::new();
    let mut char_set = chars_of("abcdefghijklmnopqrstuvwxyz");
    proof {
        reveal_strlit("abcdefghijklmnopqrstuvwxyz");
    }
    if include_uppercase {
        let uppercase = chars_of("ABCDEFGHIJKLMNOPQRSTUVWXYZ");
        proof {
            reveal_strlit("ABCDEFGHIJKLMNOPQRSTUVWXYZ");
        }
        extend_chars(&mut char_set, &uppercase);
        push_guaranteed(&mut password_chars, &uppercase, length);
        proof {
            if 0 < length {
                assert(password_chars@.contains(password_chars@.last()));
                assert(has_char_of(password_chars@, uppercase_chars()));
            }
        }
    }
    assert(char_set@ == lowercase_chars() + when(up, uppercase_chars()));
    let ghost after_upper = password_chars@;
    assert(password_chars@.len() == if digits_rank(up) < length { digits_rank(up) } else { length as nat });
    if include_numbers {
        let number_chars = chars_of("0123456789");
        proof {
            reveal_strlit("0123456789");
        }
        extend_chars(&mut char_set, &number_chars);
        push_guaranteed(&mut password_chars, &number_chars, length);
        proof {
            if digits_rank(up) < length {
                assert(password_chars@.contains(password_chars@.last()));
                assert(has_char_of(password_chars@, digit_chars()));
            }
        }
    }
    assert(char_set@ == lowercase_chars() + when(up, uppercase_chars()) + when(nu, digit_chars()));
    proof {
        if up && 0 < length {
            let c = choose|c: char| #[trigger] after_upper.contains(c) && uppercase_chars().contains(c);
            assert(password_chars@.contains(c));
        }
    }
    let ghost after_digits = password_chars@;
    assert(password_chars@.len() == if symbols_rank(up, nu) < length { symbols_rank(up, nu) } else { length as nat });
    if include_symbols {
        let symbol_set = chars_of("!@#$%^&*()_+-=[]{}|;:,.<>?");
        proof {
            reveal_strlit("!@#$%^&*()_+-=[]{}|;:,.<>?");
        }
        extend_chars(&mut char_set, &symbol_set);
        push_guaranteed(&mut password_chars, &symbol_set, length);
        proof {
            if symbols_rank(up, nu) < length {
                assert(password_chars@.contains(password_chars@.last()));
                assert(has_char_of(password_chars@, symbol_chars()));
            }
        }
    }
    proof {
        if up && 0 < length {
            let c = choose|c: char| #[trigger] after_digits.contains(c) && uppercase_chars().contains(c);
            assert(password_chars@.contains(c));
        }
        if nu && digits_rank(up) < length {
            let c = choose|c: char| #[trigger] after_digits.contains(c) && digit_chars().contains(c);
            assert(password_chars@.contains(c));
        }
    }
    assert(char_set@ == alphabet(up, nu, sy));
    assert(password_chars@.len() <= length);
    assert forall|k: int| 0 <= k < password_chars@.len() implies #[trigger] alphabet(up, nu, sy).contains(password_chars@[k]) by {
        lemma_in_alphabet(up, nu, sy, password_chars@[k]);
    }
    assert(alphabet(up, nu, sy).len() > 0);
    let remaining = length as usize - password_chars.len();
    let mut i: usize = 0;
    while i < remaining
        invariant
            char_set@ == alphabet(up, nu, sy),
            alphabet(up, nu, sy).len() > 0,
            password_chars@.len() + remaining - i == length,
            i <= remaining,
            forall|k: int|
                0 <= k < password_chars@.len() ==> #[trigger] alphabet(up, nu, sy).contains(
                    password_chars@[k],
                ),
            up && 0 < length ==> has_char_of(password_chars@, uppercase_chars()),
            nu && digits_rank(up) < length ==> has_char_of(password_chars@, digit_chars()),
            sy && symbols_rank(up, nu) < length ==> has_char_of(password_chars@, symbol_chars()),
        decreases remaining - i,
    {
        let ghost prev = password_chars@;
        password_chars.push(pick(&char_set));
        assert(forall|c: char| prev.contains(c) ==> password_chars@.contains(c));
        i = i + 1;
    }
    let ghost before = password_chars@;
    shuffle_chars(&mut password_chars);
    proof {
        lemma_permuted(before, password_chars@);
        assert forall|k: int| 0 <= k < password_chars@.len() implies #[trigger] alphabet(up, nu, sy).contains(password_chars@[k]) by {
            assert(password_chars@.contains(password_chars@[k]));
            assert(before.contains(password_chars@[k]));
        }
    }
    let r = string_of(&password_chars);
    r
}

/// A permutation keeps the length and the set of characters.
proof fn lemma_permuted(a: Seq<char>, b: Seq<char>)
    requires
        a.to_multiset() == b.to_multiset(),
    ensures
        a.len() == b.len(),
        forall|c: char| a.contains(c) <==> b.contains(c),
{
    assert forall|c: char| a.contains(c) <==> b.contains(c) by {
        vstd::seq_lib::to_multiset_contains(a, c);
        vstd::seq_lib::to_multiset_contains(b, c);
    }
    vstd::seq_lib::to_multiset_len(a);
    vstd::seq_lib::to_multiset_len(b);
}

} // verus!
