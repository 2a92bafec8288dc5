//! Texts: numbers written out, and lengths in bytes.

use vstd::prelude::*;

verus! {

/// The character that stands for the decimal digit `d`.
pub open spec fn digit(d: nat) -> char {
    (48 + d) as char
}

/// The decimal digits of `n`, the most significant first, without leading zeros.
pub open spec fn decimal(n: nat) -> Seq<char>
    decreases n,
{
    if n < 10 {
        seq![digit(n)]
    } else {
        decimal(n / 10).push(digit(n % 10))
    }
}

/// The decimal digits of `n`, after a minus sign where `n` is negative.
pub open spec fn signed_decimal(n: int) -> Seq<char> {
    if n < 0 {
        seq!['-'] + decimal((-n) as nat)
    } else {
        decimal(n as nat)
    }
}

fn digit_text(d: u64) -> (text: &'static str)
    requires
        d < 10,
    ensures
        text@ == seq![digit(d as nat)],
{
    proof {
        reveal_strlit("0");
        reveal_strlit("1");
        reveal_strlit("2");
        reveal_strlit("3");
        reveal_strlit("4");
        reveal_strlit("5");
        reveal_strlit("6");
        reveal_strlit("7");
        reveal_strlit("8");
        reveal_strlit("9");
    }
    match d {
        0 => "0",
        1 => "1",
        2 => "2",
        3 => "3",
        4 => "4",
        5 => "5",
        6 => "6",
        7 => "7",
        8 => "8",
        _ => "9",
    }
}

/// Writes `n` in decimal.
pub fn decimal_text(n: u64) -> (text: String)
    ensures
        text@ == decimal(n as nat),
    decreases n,
{
    if n < 10 {
        digit_text(n).to_string()
    } else {
        let mut text = decimal_text(n / 10);
        text.append(digit_text(n % 10));
        text
    }
}

/// Writes `n` in decimal, with a minus sign where it is negative.
pub fn signed_decimal_text(n: i64) -> (text: String)
    ensures
        text@ == signed_decimal(n as int),
{
    if n < 0 {
        let magnitude: u64 = (-(n as i128)) as u64;
        proof {
            reveal_strlit("-");
        }
        let mut text = "-".to_string();
        text.append(decimal_text(magnitude).as_str());
        text
    } else {
        decimal_text(n as u64)
    }
}

/// Whether `text` reads exactly as `other`.
pub fn text_is(text: &String, other: &str) -> (same: bool)
    ensures
        same == (text@ == other@),
{
    *text == other.to_string()
}

/// The characters of an optional text.
pub open spec fn opt_text(text: Option<String>) -> Option<Seq<char>> {
    match text {
        Some(t) => Some(t@),
        None => None,
    }
}

/// The number of bytes that `text` takes in UTF-8.
pub open spec fn byte_len(text: Seq<char>) -> nat {
    vstd::utf8::encode_utf8(text).len()
}

/// The longest prefix of `text`, in whole characters, that takes at most `limit` bytes.
pub open spec fn fitting_prefix(text: Seq<char>, limit: nat) -> Seq<char>
    decreases text.len(),
{
    if byte_len(text) <= limit || text.len() == 0 {
        text
    } else {
        fitting_prefix(text.drop_last(), limit)
    }
}

/// The number of bytes that `c` takes in UTF-8.
pub open spec fn char_width(c: char) -> nat {
    if (c as u32) < 0x80 {
        1
    } else if (c as u32) < 0x800 {
        2
    } else if (c as u32) < 0x10000 {
        3
    } else {
        4
    }
}

proof fn lemma_byte_len_push(text: Seq<char>, c: char)
    ensures
        byte_len(text.push(c)) == byte_len(text) + char_width(c),
    decreases text.len(),
{
    if text.len() == 0 {
        assert(text.push(c).drop_first() =~= Seq::<char>::empty());
        assert(text =~= Seq::<char>::empty());
        reveal_with_fuel(vstd::utf8::encode_utf8, 2);
        assert(vstd::utf8::is_scalar(c as u32));
    } else {
        assert(text.push(c).drop_first() =~= text.drop_first().push(c));
        lemma_byte_len_push(text.drop_first(), c);
    }
}

proof fn lemma_byte_len_take(text: Seq<char>, n: int)
    requires
        0 <= n <= text.len(),
    ensures
        byte_len(text.take(n)) <= byte_len(text),
    decreases text.len() - n,
{
    if n == text.len() {
        assert(text.take(n) =~= text);
    } else {
        assert(text.take(n + 1) =~= text.take(n).push(text[n]));
        lemma_byte_len_push(text.take(n), text[n]);
        lemma_byte_len_take(text, n + 1);
    }
}

/// A fitting prefix is a prefix, it fits, and one character more would not fit.
pub proof fn lemma_fitting_prefix(text: Seq<char>, limit: nat)
    ensures
        fitting_prefix(text, limit).is_prefix_of(text),
        byte_len(fitting_prefix(text, limit)) <= limit,
        ({
            let n = fitting_prefix(text, limit).len() as int;
            n < text.len() ==> byte_len(text.take(n + 1)) > limit
        }),
    decreases text.len(),
{
    if byte_len(text) <= limit || text.len() == 0 {
    } else {
        let shorter = text.drop_last();
        lemma_fitting_prefix(shorter, limit);
        let n = fitting_prefix(shorter, limit).len() as int;
        if n < shorter.len() {
            assert(shorter.take(n + 1) =~= text.take(n + 1));
        } else {
            assert(text.take(n + 1) =~= text);
        }
    }
}

proof fn lemma_fitting_prefix_is_take(text: Seq<char>, limit: nat, n: int)
    requires
        0 <= n <= text.len(),
        byte_len(text.take(n)) <= limit,
        n < text.len() ==> byte_len(text.take(n + 1)) > limit,
    ensures
        fitting_prefix(text, limit) == text.take(n),
    decreases text.len(),
{
    if n == text.len() {
        assert(text.take(n) =~= text);
    } else {
        lemma_byte_len_take(text, n + 1);
        let shorter = text.drop_last();
        assert(shorter.take(n) =~= text.take(n));
        if n < shorter.len() {
            assert(shorter.take(n + 1) =~= text.take(n + 1));
        }
        lemma_fitting_prefix_is_take(shorter, limit, n);
    }
}

/// The number of bytes of `text`.
pub fn byte_count(text: &str) -> (count: usize)
    ensures
        count == byte_len(text@),
{
    text.as_bytes().len()
}

/// Cuts `text` down to the longest prefix that takes at most `limit` bytes.
pub fn cut_to_fit(text: &str, limit: usize) -> (prefix: String)
    ensures
        prefix@ == fitting_prefix(text@, limit as nat),
{
    let mut kept: usize = 0;
    let mut used: usize = 0;
    let total = byte_count(text);
    for c in chars: text.chars()
        invariant
            chars.seq() == text@,
            kept == chars.index(),
            kept <= used,
            used == byte_len(text@.take(kept as int)),
            used <= limit,
            used <= total,
            total == byte_len(text@),
    {
        let code: u32 = c as u32;
        let width: usize = if code < 0x80 {
            1
        } else if code < 0x800 {
            2
        } else if code < 0x10000 {
            3
        } else {
            4
        };
        proof {
            assert(c == text@[kept as int]);
            assert(text@.take(kept + 1) =~= text@.take(kept as int).push(c));
            lemma_byte_len_push(text@.take(kept as int), c);
            lemma_byte_len_take(text@, kept + 1);
        }
        if width > limit - used {
            proof {
                lemma_fitting_prefix_is_take(text@, limit as nat, kept as int);
            }
            return text.substring_char(0, kept).to_string();
        }
        used = used + width;
        kept = kept + 1;
    }
    proof {
        assert(text@.take(kept as int) =~= text@);
    }
    text.to_string()
}

} // verus!
