//! Character sequences: the models that the contracts of this crate are written
//! over, and the few executable helpers that build a `String` piece by piece.

use vstd::prelude::*;

verus! {

/// `String::push` appends the one character it is given and leaves the rest of
/// the string as it was. Assumed of the standard library, not proved.
pub assume_specification[ String::push ](text: &mut String, ch: char)
    ensures
        final(text)@ == old(text)@.push(ch),
;

/// The pieces `piece(0)`, ..., `piece(n - 1)` written one after another.
pub open spec fn concat(n: nat, piece: spec_fn(int) -> Seq<char>) -> Seq<char>
    decreases n,
{
    if n == 0 {
        Seq::empty()
    } else {
        concat((n - 1) as nat, piece) + piece(n - 1)
    }
}

/// Pieces that agree below `n` give the same text.
pub proof fn lemma_concat_agrees(
    n: nat,
    first: spec_fn(int) -> Seq<char>,
    second: spec_fn(int) -> Seq<char>,
)
    requires
        forall|i: int| 0 <= i < n ==> #[trigger] first(i) == second(i),
    ensures
        concat(n, first) == concat(n, second),
    decreases n,
{
    if n > 0 {
        lemma_concat_agrees((n - 1) as nat, first, second);
    }
}

/// The character that stands for the decimal digit `d`.
pub open spec fn digit(d: nat) -> char {
    (('0' as u8) + d) as char
}

/// The decimal numeral of `n`, without sign or leading zeros.
pub open spec fn decimal(n: nat) -> Seq<char>
    decreases n,
{
    if n < 10 {
        seq![digit(n)]
    } else {
        decimal(n / 10).push(digit(n % 10))
    }
}

/// The number that a text of decimal digits denotes.
pub open spec fn numeral_value(digits: Seq<char>) -> int
    decreases digits.len(),
{
    if digits.len() == 0 {
        0
    } else {
        10 * numeral_value(digits.drop_last()) + (digits.last() as int - '0' as int)
    }
}

/// The decimal numeral of a number is made of digits, at least one, and
/// denotes the number.
pub proof fn lemma_decimal_reads_back(n: nat)
    ensures
        numeral_value(decimal(n)) == n,
        decimal(n).len() >= 1,
        forall|i: int| 0 <= i < decimal(n).len() ==> '0' <= #[trigger] decimal(n)[i] <= '9',
    decreases n,
{
    if n < 10 {
        assert(numeral_value(decimal(n).drop_last()) == 0);
    } else {
        lemma_decimal_reads_back(n / 10);
        assert(decimal(n).drop_last() =~= decimal(n / 10));
    }
}

/// `c` with the ASCII letters `a` to `z` raised to `A` to `Z`.
pub open spec fn ascii_upper(c: char) -> char {
    if 'a' <= c && c <= 'z' {
        ((c as u8) - 32) as char
    } else {
        c
    }
}

/// `c` with the ASCII letters `A` to `Z` lowered to `a` to `z`.
pub open spec fn ascii_lower(c: char) -> char {
    if 'A' <= c && c <= 'Z' {
        ((c as u8) + 32) as char
    } else {
        c
    }
}

/// `s` with each of its characters lowered by `ascii_lower`.
pub open spec fn ascii_lowered(s: Seq<char>) -> Seq<char> {
    s.map_values(|c: char| ascii_lower(c))
}

/// `s` with each of its characters raised by `ascii_upper`.
pub open spec fn ascii_raised(s: Seq<char>) -> Seq<char> {
    s.map_values(|c: char| ascii_upper(c))
}

/// The fields of `s` between occurrences of `sep`, empty ones included: a
/// sequence with one field more than `s` has separators.
pub open spec fn split_on(s: Seq<char>, sep: char) -> Seq<Seq<char>>
    decreases s.len(),
{
    if s.len() == 0 {
        seq![Seq::empty()]
    } else {
        let front = split_on(s.drop_last(), sep);
        if s.last() == sep {
            front.push(Seq::empty())
        } else {
            front.drop_last().push(front.last().push(s.last()))
        }
    }
}

/// `parts` written one after another with `sep` between neighbours.
pub open spec fn join_with(parts: Seq<Seq<char>>, sep: char) -> Seq<char>
    decreases parts.len(),
{
    if parts.len() == 0 {
        Seq::empty()
    } else if parts.len() == 1 {
        parts[0]
    } else {
        join_with(parts.drop_last(), sep).push(sep) + parts.last()
    }
}

/// Splitting always yields at least one field.
pub proof fn lemma_split_on_nonempty(s: Seq<char>, sep: char)
    ensures
        split_on(s, sep).len() >= 1,
    decreases s.len(),
{
    if s.len() > 0 {
        lemma_split_on_nonempty(s.drop_last(), sep);
    }
}

/// Joining the fields of `s` with the separator gives `s` back, and no field
/// holds the separator: the fields are what lies between its occurrences.
pub proof fn lemma_split_on_joins_back(s: Seq<char>, sep: char)
    ensures
        join_with(split_on(s, sep), sep) == s,
        forall|i: int| 0 <= i < split_on(s, sep).len() ==> !(#[trigger] split_on(s, sep)[i]).contains(sep),
    decreases s.len(),
{
    if s.len() > 0 {
        let fields = split_on(s, sep);
        let front = split_on(s.drop_last(), sep);
        lemma_split_on_nonempty(s.drop_last(), sep);
        lemma_split_on_joins_back(s.drop_last(), sep);
        assert(s =~= s.drop_last().push(s.last()));
        if s.last() == sep {
            assert(fields.drop_last() =~= front);
        } else {
            let grown = front.last().push(s.last());
            if front.len() > 1 {
                assert(fields.drop_last() =~= front.drop_last());
            }
            assert(!grown.contains(sep)) by {
                if grown.contains(sep) {
                    let k = choose|k: int| 0 <= k < grown.len() && grown[k] == sep;
                    assert(front.last()[k] == sep);
                }
            }
        }
    }
}

/// The character of one decimal digit.
fn digit_char(d: usize) -> (c: char)
    requires
        d < 10,
    ensures
        c == digit(d as nat),
{
    (('0' as u8) + (d as u8)) as char
}

/// Appends the decimal numeral of `n` to `out`.
pub(crate) fn push_decimal(out: &mut String, n: usize)
    ensures
        final(out)@ == old(out)@ + decimal(n as nat),
    decreases n,
{
    if n >= 10 {
        push_decimal(out, n / 10);
    }
    out.push(digit_char(n % 10));
}

} // verus!
