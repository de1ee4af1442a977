use vstd::prelude::*;

use crate::client::ClientError;

verus! {

/// The decimal digit character for `d` (meaningful for `d < 10`).
pub open spec fn digit_char(d: nat) -> char {
    if d == 0 {
        '0'
    } else if d == 1 {
        '1'
    } else if d == 2 {
        '2'
    } else if d == 3 {
        '3'
    } else if d == 4 {
        '4'
    } else if d == 5 {
        '5'
    } else if d == 6 {
        '6'
    } else if d == 7 {
        '7'
    } else if d == 8 {
        '8'
    } else {
        '9'
    }
}

/// The canonical decimal representation of `n`: no sign and no leading
/// zeros, with a single `'0'` for zero.
pub open spec fn dec_digits(n: nat) -> Seq<char>
    decreases n,
{
    if n < 10 {
        seq![digit_char(n)]
    } else {
        dec_digits(n / 10).push(digit_char(n % 10))
    }
}

/// Whether `c` is a decimal digit character.
pub open spec fn is_dec_digit(c: char) -> bool {
    48 <= c as int <= 57
}

/// The numeric value of the digit character `c`.
pub open spec fn digit_val(c: char) -> nat {
    (c as int - 48) as nat
}

/// All characters of `s` are decimal digits.
pub open spec fn all_digits(s: Seq<char>) -> bool {
    forall|i: int| 0 <= i < s.len() ==> is_dec_digit(s[i])
}

/// The numeric value of a sequence of decimal digit characters.
pub open spec fn dec_val(s: Seq<char>) -> nat
    decreases s.len(),
{
    if s.len() == 0 {
        0
    } else {
        dec_val(s.drop_last()) * 10 + digit_val(s.last())
    }
}

/// The digit part of a decimal text: everything after an optional leading
/// `'+'` sign.
pub open spec fn dec_body(s: Seq<char>) -> Seq<char> {
    if s.len() > 0 && s[0] == '+' {
        s.subrange(1, s.len() as int)
    } else {
        s
    }
}

/// Whether `s` is accepted as an unsigned 64-bit decimal: an optional
/// leading `'+'`, then at least one digit, with a value that fits in 64 bits.
pub open spec fn parses_as_u64(s: Seq<char>) -> bool {
    &&& dec_body(s).len() > 0
    &&& all_digits(dec_body(s))
    &&& dec_val(dec_body(s)) <= u64::MAX
}

/// The value that `s` denotes when `parses_as_u64(s)` holds.
pub open spec fn parsed_u64(s: Seq<char>) -> nat {
    dec_val(dec_body(s))
}

/// Extending a digit string on the right cannot decrease its value.
proof fn lemma_dec_val_prefix(s: Seq<char>, k: int)
    requires
        0 <= k <= s.len(),
    ensures
        dec_val(s.subrange(0, k)) <= dec_val(s),
    decreases s.len() - k,
{
    if k == s.len() {
        assert(s.subrange(0, k) =~= s);
    } else {
        let shorter = s.subrange(0, k);
        let longer = s.subrange(0, k + 1);
        assert(longer.drop_last() =~= shorter);
        assert(dec_val(longer) == dec_val(shorter) * 10 + digit_val(longer.last()));
        assert(dec_val(shorter) <= dec_val(shorter) * 10) by (nonlinear_arith);
        lemma_dec_val_prefix(s, k + 1);
    }
}

/// Parses `s` as an unsigned 64-bit decimal integer, accepting exactly an
/// optional leading `'+'` followed by one or more digits whose value fits.
pub fn parse_u64(s: &str) -> (r: Result<u64, ClientError>)
    ensures
        parses_as_u64(s@) ==> r == Ok::<u64, ClientError>(parsed_u64(s@) as u64),
        !parses_as_u64(s@) ==> r == Err::<u64, ClientError>(ClientError::IntegerDecoding),
{
    let len = s.unicode_len();
    let off: usize = if len > 0 && s.get_char(0) == '+' {
        1
    } else {
        0
    };
    let ghost body = dec_body(s@);
    proof {
        assert(body =~= s@.subrange(off as int, len as int));
    }
    if off == len {
        return Err(ClientError::IntegerDecoding);
    }
    let mut acc: u64 = 0;
    let mut i: usize = off;
    while i < len
        invariant
            off <= i <= len,
            len == s@.len(),
            body == s@.subrange(off as int, len as int),
            body == dec_body(s@),
            body.len() == len - off,
            all_digits(body.subrange(0, i - off)),
            acc == dec_val(body.subrange(0, i - off)),
        decreases len - i,
    {
        let c = s.get_char(i);
        let v = c as u32;
        let ghost done = body.subrange(0, i - off);
        let ghost next = body.subrange(0, i + 1 - off);
        proof {
            assert(next.drop_last() =~= done);
            assert(next.last() == body[i - off]);
        }
        if v < 48 || v > 57 {
            proof {
                assert(!is_dec_digit(body[i - off]));
            }
            return Err(ClientError::IntegerDecoding);
        }
        let d = (v - 48) as u64;
        if acc > (u64::MAX - d) / 10 {
            proof {
                assert(dec_val(next) == acc * 10 + d);
                assert(acc * 10 + d > u64::MAX) by (nonlinear_arith)
                    requires
                        acc > (u64::MAX - d) / 10,
                        d <= 9,
                ;
                lemma_dec_val_prefix(body, i + 1 - off);
            }
            return Err(ClientError::IntegerDecoding);
        }
        proof {
            assert(acc * 10 + d <= u64::MAX) by (nonlinear_arith)
                requires
                    acc <= (u64::MAX - d) / 10,
                    d <= 9,
            ;
            assert(dec_val(next) == acc * 10 + d);
        }
        acc = acc * 10 + d;
        i += 1;
    }
    proof {
        assert(body.subrange(0, len - off) =~= body);
    }
    Ok(acc)
}

/// One-character string for the digit value `d`.
fn digit_str(d: u8) -> (r: &'static str)
    requires
        d < 10,
    ensures
        r@ == seq![digit_char(d as nat)],
{
    let r: &'static str = match d {
        0 => "0",
        1 => "1",
        2 => "2",
        3 => "3",
        4 => "4",
        5 => "5",
        6 => "6",
        7 => "7",
        8 => "8",
        _ => "9",
    };
    proof {
        reveal_strlit("0");
        reveal_strlit("1");
        reveal_strlit("2");
        reveal_strlit("3");
        reveal_strlit("4");
        reveal_strlit("5");
        reveal_strlit("6");
        reveal_strlit("7");
        reveal_strlit("8");
        reveal_strlit("9");
        assert(r@ =~= seq![digit_char(d as nat)]);
    }
    r
}

/// The characters of the digit values in `ds`, read from the last to the
/// first.
spec fn rev_chars(ds: Seq<u8>) -> Seq<char> {
    Seq::new(ds.len(), |i: int| digit_char(ds[ds.len() - 1 - i] as nat))
}

/// Renders `n` in its canonical decimal form.
pub fn u64_to_dec(n: u64) -> (r: String)
    ensures
        r@ == dec_digits(n as nat),
{
    let mut digits: Vec<u8> = Vec::new();
    let mut m = n;
    while m >= 10
        invariant
            dec_digits(n as nat) == dec_digits(m as nat) + rev_chars(digits@),
            forall|k: int| 0 <= k < digits@.len() ==> digits@[k] < 10,
        decreases m,
    {
        let d = (m % 10) as u8;
        let ghost before = digits@;
        digits.push(d);
        m = m / 10;
        proof {
            assert(rev_chars(before.push(d)) =~= seq![digit_char(d as nat)] + rev_chars(before));
            assert(dec_digits((m * 10 + d) as nat) == dec_digits(m as nat).push(digit_char(d as nat)));
            assert(dec_digits(m as nat).push(digit_char(d as nat)) + rev_chars(before) =~= dec_digits(
                m as nat,
            ) + (seq![digit_char(d as nat)] + rev_chars(before)));
        }
    }
    let ghost before = digits@;
    digits.push(m as u8);
    proof {
        assert(rev_chars(before.push(m as u8)) =~= seq![digit_char(m as nat)] + rev_chars(before));
        assert(dec_digits(n as nat) =~= rev_chars(digits@));
    }
    let mut r = String::new();
    let mut i = digits.len();
    while i > 0
        invariant
            i <= digits@.len(),
            forall|k: int| 0 <= k < digits@.len() ==> digits@[k] < 10,
            dec_digits(n as nat) == rev_chars(digits@),
            r@ == rev_chars(digits@).subrange(0, digits@.len() - i),
        decreases i,
    {
        i -= 1;
        let ghost prefix = rev_chars(digits@).subrange(0, digits@.len() - i - 1);
        r.append(digit_str(digits[i]));
        proof {
            assert(prefix + seq![digit_char(digits@[i as int] as nat)] =~= rev_chars(
                digits@,
            ).subrange(0, digits@.len() - i));
        }
    }
    proof {
        assert(rev_chars(digits@).subrange(0, digits@.len() as int) =~= rev_chars(digits@));
    }
    r
}

} // verus!
