//! Operations on text, over its sequence of characters.

use vstd::prelude::*;

verus! {

/// `pat` stands in `text` from position `i` on.
pub open spec fn occurs_at(text: Seq<char>, pat: Seq<char>, i: int) -> bool {
    &&& 0 <= i
    &&& i + pat.len() <= text.len()
    &&& text.subrange(i, i + pat.len()) == pat
}

/// `pat` stands somewhere in `text`.
pub open spec fn occurs_in(text: Seq<char>, pat: Seq<char>) -> bool {
    exists|i: int| occurs_at(text, pat, i)
}

/// The first position, from `start` on, at which `pat` stands in `text`.
pub open spec fn find_from(text: Seq<char>, pat: Seq<char>, start: int) -> Option<int>
    decreases text.len() + 1 - start,
{
    if start + pat.len() > text.len() {
        None
    } else if occurs_at(text, pat, start) {
        Some(start)
    } else {
        find_from(text, pat, start + 1)
    }
}

/// A search from `start` on finds the first occurrence, if there is one.
pub proof fn lemma_find_from(text: Seq<char>, pat: Seq<char>, start: int)
    requires
        0 <= start,
    ensures
        match find_from(text, pat, start) {
            Some(i) => {
                &&& start <= i
                &&& occurs_at(text, pat, i)
                &&& forall|j: int| start <= j < i ==> !#[trigger] occurs_at(text, pat, j)
            },
            None => forall|j: int| start <= j ==> !#[trigger] occurs_at(text, pat, j),
        },
    decreases text.len() + 1 - start,
{
    if start + pat.len() <= text.len() && !occurs_at(text, pat, start) {
        lemma_find_from(text, pat, start + 1);
    }
}

/// `text` with its first `count` occurrences of `pat`, counted from the left and not
/// overlapping, exchanged for `to`.
pub open spec fn replaced(text: Seq<char>, pat: Seq<char>, to: Seq<char>, count: nat) -> Seq<char>
    decreases count,
{
    if count == 0 {
        text
    } else {
        match find_from(text, pat, 0) {
            None => text,
            Some(i) => text.subrange(0, i) + to + replaced(
                text.subrange(i + pat.len(), text.len() as int),
                pat,
                to,
                (count - 1) as nat,
            ),
        }
    }
}

/// A number in decimal notation, without leading zeros.
pub open spec fn decimal(n: nat) -> Seq<char>
    decreases n,
{
    if n < 10 {
        seq![digit(n)]
    } else {
        decimal(n / 10).push(digit(n % 10))
    }
}

/// The character of a decimal digit.
pub open spec fn digit(d: nat) -> char {
    ('0' as u32 + d) as char
}

/// The number that a row of digits stands for.
pub open spec fn number_of(digits: Seq<char>) -> int
    decreases digits.len(),
{
    if digits.len() == 0 {
        0
    } else {
        10 * number_of(digits.drop_last()) + (digits.last() as int - '0' as int)
    }
}

/// Decimal notation is made of digits, stands for the number, and does not begin with a zero but
/// for the number 0.
pub proof fn law_decimal_stands_for_the_number(n: nat)
    ensures
        decimal(n).len() > 0,
        forall|i: int| 0 <= i < decimal(n).len() ==> '0' <= #[trigger] decimal(n)[i] <= '9',
        number_of(decimal(n)) == n,
        decimal(n)[0] == '0' ==> n == 0 && decimal(n).len() == 1,
    decreases n,
{
    let text = decimal(n);
    if n < 10 {
        assert(text.drop_last() =~= Seq::empty());
        assert(number_of(text.drop_last()) == 0);
    } else {
        law_decimal_stands_for_the_number(n / 10);
        assert(text.drop_last() =~= decimal(n / 10));
        assert(text[0] == decimal(n / 10)[0]);
        assert forall|i: int| 0 <= i < text.len() implies '0' <= #[trigger] text[i] <= '9' by {
            if i < text.len() - 1 {
                assert(text[i] == decimal(n / 10)[i]);
            }
        }
    }
}

/// `==` on `str`: two string slices are equal when they hold the same characters.
pub assume_specification[ <str as PartialEq>::eq ](a: &str, b: &str) -> (r: bool)
    ensures
        r == (a@ == b@),
;

/// The two texts are equal.
pub fn same(a: &str, b: &str) -> (r: bool)
    ensures
        r == (a@ == b@),
{
    *a == *b
}

/// Calls `str::strip_prefix`: what follows `prefix` in `text`, if `text` begins with it.
#[verifier::external_body]
pub(crate) fn strip_prefix<'a>(text: &'a str, prefix: &str) -> (r: Option<&'a str>)
    ensures
        match r {
            Some(rest) => text@ == prefix@ + rest@,
            None => !prefix@.is_prefix_of(text@),
        },
{
    text.strip_prefix(prefix)
}

/// Calls `str::replacen`: exchanges the first `count` occurrences of `pat` for `to`, from left
/// to right. An empty pattern is left out, since it stands between all characters.
#[verifier::external_body]
pub(crate) fn replacen(text: &str, pat: &str, to: &str, count: usize) -> (r: String)
    requires
        pat@.len() > 0,
    ensures
        r@ == replaced(text@, pat@, to@, count as nat),
{
    text.replacen(pat, to, count)
}

/// A text made of two texts, one after the other.
pub fn join(a: &str, b: &str) -> (r: String)
    ensures
        r@ == a@ + b@,
{
    a.to_string().concat(b)
}

fn digit_text(d: usize) -> (r: &'static str)
    requires
        d < 10,
    ensures
        r@ == seq![digit(d as nat)],
{
    proof {
        reveal_strlit("0");
        reveal_strlit("1");
        reveal_strlit("2");
        reveal_strlit("3");
        reveal_strlit("4");
        reveal_strlit("5");
        reveal_strlit("6");
        reveal_strlit("7");
        reveal_strlit("8");
        reveal_strlit("9");
    }
    match d {
        0 => "0",
        1 => "1",
        2 => "2",
        3 => "3",
        4 => "4",
        5 => "5",
        6 => "6",
        7 => "7",
        8 => "8",
        _ => "9",
    }
}

/// A number in decimal notation.
pub fn to_decimal(n: usize) -> (r: String)
    ensures
        r@ == decimal(n as nat),
    decreases n,
{
    if n < 10 {
        digit_text(n).to_string()
    } else {
        join(to_decimal(n / 10).as_str(), digit_text(n % 10))
    }
}

/// Two texts are the same exactly where they are equally long and hold the same characters.
pub proof fn law_same_compares_every_character(a: &str, b: &str, r: bool)
    requires
        call_ensures(same, (a, b), r),
    ensures
        r <==> a@.len() == b@.len() && forall|i: int|
            0 <= i < a@.len() ==> #[trigger] a@[i] == b@[i],
{
    if a@.len() == b@.len() && forall|i: int| 0 <= i < a@.len() ==> #[trigger] a@[i] == b@[i] {
        assert(a@ =~= b@);
    }
}

/// Two texts are joined without a loss: the one comes first, and the other follows.
pub proof fn law_join_keeps_both(a: &str, b: &str, r: String)
    requires
        call_ensures(join, (a, b), r),
    ensures
        r@.len() == a@.len() + b@.len(),
        forall|i: int| 0 <= i < a@.len() ==> #[trigger] r@[i] == a@[i],
        forall|i: int| a@.len() <= i < r@.len() ==> #[trigger] r@[i] == b@[i - a@.len()],
{
}

/// A number is written with digits that stand for it.
pub proof fn law_numbers_are_written_in_full(n: usize, r: String)
    requires
        call_ensures(to_decimal, (n,), r),
    ensures
        r@.len() > 0,
        forall|i: int| 0 <= i < r@.len() ==> '0' <= #[trigger] r@[i] <= '9',
        number_of(r@) == n,
        r@[0] == '0' ==> n == 0 && r@.len() == 1,
{
    law_decimal_stands_for_the_number(n as nat);
}

} // verus!
