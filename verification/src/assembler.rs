//! The assembler's token layer: the typed tokens its front end produces,
//! and the grammar of a register reference — a `$` sigil followed by
//! decimal digits naming an 8-bit register index, with optional
//! surrounding whitespace.  The grammar fails if the digits do not fit in
//! 8 bits.

use crate::instruction::Opcode;
use vstd::prelude::*;

verus! {

/// A token of assembly source text.
#[derive(Debug, Clone, Copy, PartialEq, Eq, Structural)]
pub enum Token {
    /// An opcode mnemonic.
    Op {
        /// The operation the mnemonic names.
        code: Opcode,
    },
    /// A register reference, `$<digits>`.
    Register {
        /// The register index the digits name.
        reg_num: u8,
    },
}

/// ASCII whitespace as the tokenizer treats it: space, tab, line feed,
/// carriage return.
pub open spec fn is_space(b: u8) -> bool {
    b == 32 || b == 9 || b == 10 || b == 13
}

/// An ASCII decimal digit.
pub open spec fn is_digit(b: u8) -> bool {
    48 <= b <= 57
}

/// Every byte of the sequence is a decimal digit.
pub open spec fn all_digits(s: Seq<u8>) -> bool {
    forall|i: int| 0 <= i < s.len() ==> is_digit(#[trigger] s[i])
}

/// The numeric value of a string of decimal digit bytes, most significant
/// first.  Leading zeroes are allowed and do not change the value.
pub open spec fn digits_val(s: Seq<u8>) -> nat
    decreases s.len(),
{
    if s.len() == 0 {
        0
    } else {
        (digits_val(s.drop_last()) * 10 + (s.last() - 48)) as nat
    }
}

/// The text with its leading whitespace removed.
pub open spec fn trim_leading(s: Seq<u8>) -> Seq<u8>
    decreases s.len(),
{
    if s.len() > 0 && is_space(s[0]) {
        trim_leading(s.subrange(1, s.len() as int))
    } else {
        s
    }
}

/// The text with its trailing whitespace removed.
pub open spec fn trim_trailing(s: Seq<u8>) -> Seq<u8>
    decreases s.len(),
{
    if s.len() > 0 && is_space(s.last()) {
        trim_trailing(s.drop_last())
    } else {
        s
    }
}

/// The register grammar after whitespace removal: a `$` sigil (byte 36)
/// followed by at least one decimal digit, whose value must fit in 8 bits.
pub open spec fn parse_trimmed(s: Seq<u8>) -> Option<Token> {
    let digits = s.subrange(1, s.len() as int);
    if s.len() >= 2 && s[0] == 36 && all_digits(digits) && digits_val(digits) < 256 {
        Some(Token::Register { reg_num: digits_val(digits) as u8 })
    } else {
        None
    }
}

/// The whole register-reference grammar: optional surrounding whitespace
/// around `$<digits>`.
pub open spec fn parse_register_spec(s: Seq<u8>) -> Option<Token> {
    parse_trimmed(trim_trailing(trim_leading(s)))
}

/// Removing leading whitespace is dropping the maximal all-space prefix.
proof fn lemma_trim_leading_prefix(s: Seq<u8>, k: int)
    requires
        0 <= k <= s.len(),
        forall|i: int| 0 <= i < k ==> is_space(#[trigger] s[i]),
        k == s.len() || !is_space(s[k]),
    ensures
        trim_leading(s) == s.subrange(k, s.len() as int),
    decreases k,
{
    if k == 0 {
        assert(s.subrange(0, s.len() as int) =~= s);
    } else {
        let s1 = s.subrange(1, s.len() as int);
        lemma_trim_leading_prefix(s1, k - 1);
        assert(s1.subrange(k - 1, s1.len() as int) =~= s.subrange(k, s.len() as int));
    }
}

/// Removing trailing whitespace is dropping the maximal all-space suffix.
proof fn lemma_trim_trailing_suffix(s: Seq<u8>, k: int)
    requires
        0 <= k <= s.len(),
        forall|i: int| k <= i < s.len() ==> is_space(#[trigger] s[i]),
        k == 0 || !is_space(s[k - 1]),
    ensures
        trim_trailing(s) == s.subrange(0, k),
    decreases s.len() - k,
{
    if k == s.len() {
        assert(s.subrange(0, k) =~= s);
    } else {
        let s1 = s.drop_last();
        lemma_trim_trailing_suffix(s1, k);
        assert(s1.subrange(0, k) =~= s.subrange(0, k));
    }
}

/// Whether the byte at `i` is tokenizer whitespace.
fn is_space_byte(s: &[u8], i: usize) -> (r: bool)
    requires
        i < s@.len(),
    ensures
        r == is_space(s@[i as int]),
{
    s[i] == 32 || s[i] == 9 || s[i] == 10 || s[i] == 13
}

/// Parse a register reference from source-text bytes: optional
/// surrounding whitespace, a `$` sigil, then decimal digits naming an
/// 8-bit register index.  Returns `None` when the text does not match the
/// grammar or the digits do not fit in 8 bits.
pub fn parse_register(input: &[u8]) -> (t: Option<Token>)
    ensures
        t == parse_register_spec(input@),
{
    let n = input.len();
    let mut lo: usize = 0;
    while lo < n && is_space_byte(input, lo)
        invariant
            lo <= n,
            n == input@.len(),
            forall|i: int| 0 <= i < lo ==> is_space(#[trigger] input@[i]),
        decreases n - lo,
    {
        lo = lo + 1;
    }
    let mut hi: usize = n;
    while hi > lo && is_space_byte(input, hi - 1)
        invariant
            lo <= hi <= n,
            n == input@.len(),
            forall|i: int| hi <= i < n ==> is_space(#[trigger] input@[i]),
        decreases hi,
    {
        hi = hi - 1;
    }
    proof {
        lemma_trim_leading_prefix(input@, lo as int);
        let led = input@.subrange(lo as int, n as int);
        lemma_trim_trailing_suffix(led, hi as int - lo as int);
        assert(led.subrange(0, hi as int - lo as int) =~= input@.subrange(lo as int, hi as int));
    }
    let ghost trimmed = input@.subrange(lo as int, hi as int);
    let ghost digits = trimmed.subrange(1, trimmed.len() as int);
    if hi - lo < 2 {
        return None;
    }
    if input[lo] != 36 {
        return None;
    }
    proof {
        assert(digits =~= input@.subrange(lo as int + 1, hi as int));
    }
    let mut acc: u32 = 0;
    let mut i: usize = lo + 1;
    while i < hi
        invariant
            lo + 1 <= i <= hi <= n,
            n == input@.len(),
            trimmed == trim_trailing(trim_leading(input@)),
            trimmed == input@.subrange(lo as int, hi as int),
            trimmed.len() >= 2,
            trimmed[0] == 36,
            digits == trimmed.subrange(1, trimmed.len() as int),
            digits == input@.subrange(lo as int + 1, hi as int),
            forall|j: int| lo + 1 <= j < i ==> is_digit(#[trigger] input@[j]),
            acc <= 256,
            acc < 256 ==> acc == digits_val(input@.subrange(lo as int + 1, i as int)),
            acc == 256 ==> digits_val(input@.subrange(lo as int + 1, i as int)) >= 256,
        decreases hi - i,
    {
        let b = input[i];
        if b < 48 || b > 57 {
            proof {
                assert(digits[i - lo - 1] == input@[i as int]);
                assert(!all_digits(digits));
            }
            return None;
        }
        proof {
            let pre = input@.subrange(lo as int + 1, i as int);
            let cur = input@.subrange(lo as int + 1, i as int + 1);
            assert(cur.drop_last() =~= pre);
            assert(cur.last() == input@[i as int]);
            assert(digits_val(cur) == digits_val(pre) * 10 + (b - 48));
        }
        let d = (b - 48) as u32;
        if acc < 256 {
            let next = acc * 10 + d;
            acc = if next > 255 {
                256
            } else {
                next
            };
        }
        i = i + 1;
    }
    proof {
        assert(digits =~= input@.subrange(lo as int + 1, hi as int));
        assert(all_digits(digits));
    }
    if acc > 255 {
        return None;
    }
    Some(Token::Register { reg_num: acc as u8 })
}

} // verus!
