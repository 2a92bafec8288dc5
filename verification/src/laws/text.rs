//! What holds of numbers that are written out.

use vstd::prelude::*;

verus! {

/// The number that a run of decimal digits reads as.
pub open spec fn number(text: Seq<char>) -> int
    decreases text.len(),
{
    if text.len() == 0 {
        0
    } else {
        number(text.drop_last()) * 10 + (text.last() as int - '0' as int)
    }
}

/// Whether `text` is the usual way to write `n`: digits only, at least one of them, none of them
/// a zero in front, and read as a number they are `n`.
pub open spec fn writes(text: Seq<char>, n: int) -> bool {
    &&& text.len() > 0
    &&& forall|i: int| 0 <= i < text.len() ==> '0' <= #[trigger] text[i] <= '9'
    &&& text.len() > 1 ==> text[0] != '0'
    &&& number(text) == n
}

/// A number that is written out in decimal reads as that number again.
pub proof fn law_decimal_reads_back(n: nat)
    ensures
        writes(crate::text::decimal(n), n as int),
    decreases n,
{
    reveal_with_fuel(number, 2);
    let text = crate::text::decimal(n);
    if n < 10 {
        assert(text.drop_last() =~= Seq::empty());
    } else {
        law_decimal_reads_back(n / 10);
        let front = crate::text::decimal(n / 10);
        assert(text.drop_last() =~= front);
        assert(number(front) == n / 10);
        assert(front.len() > 0);
        assert(text[0] == front[0]);
        assert forall|i: int| 0 <= i < text.len() implies '0' <= #[trigger] text[i] <= '9' by {
            if i < front.len() {
                assert(text[i] == front[i]);
            }
        }
        if front.len() == 1 {
            assert(front.drop_last() =~= Seq::empty());
            assert(number(front) == front[0] as int - '0' as int);
        }
    }
}

/// A negative number is written as a minus sign and its magnitude, any other as itself.
pub proof fn law_signed_decimal_reads_back(n: int)
    ensures
        n >= 0 ==> writes(crate::text::signed_decimal(n), n),
        n < 0 ==> crate::text::signed_decimal(n).len() > 1 && crate::text::signed_decimal(n)[0]
            == '-' && writes(crate::text::signed_decimal(n).skip(1), -n),
{
    if n < 0 {
        law_decimal_reads_back((-n) as nat);
        assert(crate::text::signed_decimal(n).skip(1) =~= crate::text::decimal((-n) as nat));
    } else {
        law_decimal_reads_back(n as nat);
    }
}

} // verus!
