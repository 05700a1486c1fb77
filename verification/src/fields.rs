//! Parsing and rendering of the input and output fields.
//!
//! The input fields arrive as trimmed bytes: the record kind, the client
//! id (a decimal integer up to 65535), the transaction id (up to
//! 4294967295), and the amount, a non-negative decimal with up to four
//! fractional digits.  Amounts are turned into fixed-point integers in
//! 1/10000 units; a blank or invalid amount literal is treated as
//! absent, not as a malformed row.  Output balances are rendered with
//! exactly four digits after the decimal point.

use vstd::prelude::*;

use vstd::string::StringExecFns;

use crate::account::Account;
use crate::transaction::TransactionRecord;
use crate::transaction::TransactionType;

verus! {

/// ASCII `'0'`.
pub const DIGIT_ZERO: u8 = 48;

/// ASCII `'9'`.
pub const DIGIT_NINE: u8 = 57;

/// ASCII `'.'`.
pub const DOT: u8 = 46;

/// The largest whole part an amount may carry: floor(u64::MAX / 10000).
pub const MAX_WHOLE: u64 = 1844674407370955;

/// The largest value four fractional digits can carry.
pub const MAX_FRAC: u64 = 9999;

/// Whether `b` is an ASCII decimal digit.
pub open spec fn is_digit(b: u8) -> bool {
    DIGIT_ZERO <= b <= DIGIT_NINE
}

/// The numeric value of a digit byte.
pub open spec fn digit_val(b: u8) -> nat
    recommends
        is_digit(b),
{
    (b - DIGIT_ZERO) as nat
}

/// Whether every byte of `s` is a decimal digit.
pub open spec fn all_digits(s: Seq<u8>) -> bool {
    forall|i: int| 0 <= i < s.len() ==> is_digit(#[trigger] s[i])
}

/// The value of a digit sequence read as a decimal numeral.
pub open spec fn digits_value(s: Seq<u8>) -> nat
    decreases s.len(),
{
    if s.len() == 0 {
        0
    } else {
        digits_value(s.drop_last()) * 10 + digit_val(s.last())
    }
}

/// Ten to the `k`.
pub open spec fn pow10(k: nat) -> nat
    decreases k,
{
    if k == 0 {
        1
    } else {
        10 * pow10((k - 1) as nat)
    }
}

/// A nonempty, all-digit numeral of value at most `bound` parses to its
/// value; anything else is rejected.
pub open spec fn spec_parse_dec(s: Seq<u8>, bound: nat) -> Option<u64>
    recommends
        bound <= u64::MAX,
{
    if s.len() > 0 && all_digits(s) && digits_value(s) <= bound {
        Some(digits_value(s) as u64)
    } else {
        None
    }
}

/// A client id: a decimal numeral no larger than 65535.
pub open spec fn spec_parse_client_id(s: Seq<u8>) -> Option<u16> {
    match spec_parse_dec(s, u16::MAX as nat) {
        Some(v) => Some(v as u16),
        None => None,
    }
}

/// A transaction id: a decimal numeral no larger than 4294967295.
pub open spec fn spec_parse_tx_id(s: Seq<u8>) -> Option<u32> {
    match spec_parse_dec(s, u32::MAX as nat) {
        Some(v) => Some(v as u32),
        None => None,
    }
}

/// The index of the first `.` in `s`, or `s.len()` where there is none.
pub open spec fn dot_index(s: Seq<u8>) -> int
    decreases s.len(),
{
    if s.len() == 0 {
        0
    } else if s[0] == DOT {
        0
    } else {
        1 + dot_index(s.drop_first())
    }
}

/// The shape of a valid amount literal: digits, at most one dot, at
/// most four fractional digits, at least one digit in all.
pub open spec fn amount_shape_ok(s: Seq<u8>) -> bool {
    let i = dot_index(s);
    let frac = if i < s.len() {
        s.skip(i + 1)
    } else {
        Seq::<u8>::empty()
    };
    &&& all_digits(s.take(i))
    &&& all_digits(frac)
    &&& frac.len() <= 4
    &&& i + frac.len() >= 1
}

/// The value of a well-shaped amount literal in 1/10000 units.
pub open spec fn amount_units(s: Seq<u8>) -> int
    recommends
        amount_shape_ok(s),
{
    let i = dot_index(s);
    let frac = if i < s.len() {
        s.skip(i + 1)
    } else {
        Seq::<u8>::empty()
    };
    digits_value(s.take(i)) * 10000 + digits_value(frac) * pow10((4 - frac.len()) as nat) as int
}

/// An amount literal parses to its value in 1/10000 units; a literal
/// that is blank, ill-shaped or too large for 64 bits is treated as
/// absent.
pub open spec fn spec_parse_amount(s: Seq<u8>) -> Option<u64> {
    if amount_shape_ok(s) && amount_units(s) <= u64::MAX {
        Some(amount_units(s) as u64)
    } else {
        None
    }
}

/// The record kind named by an input field: one of the five lower-case
/// kind names, matched exactly.
pub open spec fn spec_parse_tx_type(s: Seq<u8>) -> Option<TransactionType> {
    if s == seq![100u8, 101, 112, 111, 115, 105, 116] {
        Some(TransactionType::Deposit)
    } else if s == seq![119u8, 105, 116, 104, 100, 114, 97, 119, 97, 108] {
        Some(TransactionType::Withdrawal)
    } else if s == seq![100u8, 105, 115, 112, 117, 116, 101] {
        Some(TransactionType::Dispute)
    } else if s == seq![114u8, 101, 115, 111, 108, 118, 101] {
        Some(TransactionType::Resolve)
    } else if s == seq![99u8, 104, 97, 114, 103, 101, 98, 97, 99, 107] {
        Some(TransactionType::Chargeback)
    } else {
        None
    }
}

/// A whole input row, from its four trimmed fields.  A row whose kind,
/// client id or transaction id does not parse is malformed and yields
/// nothing; an unusable amount only leaves the amount absent.
pub open spec fn spec_parse_record(ty: Seq<u8>, client: Seq<u8>, tx: Seq<u8>, amount: Seq<u8>) -> Option<
    TransactionRecord,
> {
    match (spec_parse_tx_type(ty), spec_parse_client_id(client), spec_parse_tx_id(tx)) {
        (Some(t), Some(c), Some(x)) => Some(
            TransactionRecord { tx_type: t, client_id: c, tx_id: x, amount: spec_parse_amount(amount) },
        ),
        _ => None,
    }
}

/// A numeral's value never shrinks as more digits are read.
proof fn lemma_digits_value_prefix(s: Seq<u8>, i: int)
    requires
        0 <= i <= s.len(),
        all_digits(s),
    ensures
        digits_value(s) >= digits_value(s.take(i)),
    decreases s.len() - i,
{
    if i < s.len() {
        assert(s.take(i + 1).drop_last() =~= s.take(i));
        assert(digits_value(s.take(i + 1)) == digits_value(s.take(i)) * 10 + digit_val(
            s.take(i + 1).last(),
        ));
        lemma_digits_value_prefix(s, i + 1);
        assert(s.take(s.len() as int) =~= s);
    } else {
        assert(s.take(i) =~= s);
    }
}

/// An all-digit numeral of `n` digits is smaller than ten to the `n`.
proof fn lemma_digits_value_bound(s: Seq<u8>)
    requires
        all_digits(s),
    ensures
        digits_value(s) < pow10(s.len()),
    decreases s.len(),
{
    if s.len() > 0 {
        lemma_digits_value_bound(s.drop_last());
    }
}

/// What [`dot_index`] computes: no dot lies before it, and it points at
/// a dot unless there is none.
proof fn lemma_dot_index(s: Seq<u8>)
    ensures
        0 <= dot_index(s) <= s.len(),
        forall|j: int| 0 <= j < dot_index(s) ==> s[j] != DOT,
        dot_index(s) < s.len() ==> s[dot_index(s)] == DOT,
    decreases s.len(),
{
    if s.len() > 0 && s[0] != DOT {
        let rest = s.drop_first();
        lemma_dot_index(rest);
        assert forall|j: int| 0 <= j < dot_index(s) implies s[j] != DOT by {
            if j > 0 {
                assert(rest[j - 1] == s[j]);
            }
        }
        if dot_index(s) < s.len() {
            assert(rest[dot_index(s) - 1] == s[dot_index(s)]);
        }
    }
}

/// Parses a nonempty all-digit numeral worth at most `bound`; exactly
/// [`spec_parse_dec`].
fn parse_dec(s: &[u8], bound: u64) -> (r: Option<u64>)
    ensures
        r == spec_parse_dec(s@, bound as nat),
{
    let n = s.len();
    if n == 0 {
        return None;
    }
    let mut v: u64 = 0;
    let mut i: usize = 0;
    while i < n
        invariant
            n == s@.len(),
            i <= n,
            all_digits(s@.take(i as int)),
            v == digits_value(s@.take(i as int)),
            v <= bound,
        decreases n - i,
    {
        let b = s[i];
        proof {
            assert(s@.take(i + 1 as int).drop_last() =~= s@.take(i as int));
            assert(s@.take(i + 1 as int).last() == s@[i as int]);
        }
        if b < DIGIT_ZERO || b > DIGIT_NINE {
            assert(!is_digit(s@[i as int]));
            return None;
        }
        let d = (b - DIGIT_ZERO) as u64;
        let nv: u128 = v as u128 * 10 + d as u128;
        if nv > bound as u128 {
            proof {
                if all_digits(s@) && digits_value(s@) <= bound as nat {
                    lemma_digits_value_prefix(s@, i + 1 as int);
                }
            }
            return None;
        }
        v = nv as u64;
        i = i + 1;
    }
    proof {
        assert(s@.take(n as int) =~= s@);
    }
    Some(v)
}

/// Parses a client id field; exactly [`spec_parse_client_id`].
pub fn parse_client_id(s: &[u8]) -> (r: Option<u16>)
    ensures
        r == spec_parse_client_id(s@),
{
    match parse_dec(s, 65535) {
        Some(v) => Some(v as u16),
        None => None,
    }
}

/// Parses a transaction id field; exactly [`spec_parse_tx_id`].
pub fn parse_tx_id(s: &[u8]) -> (r: Option<u32>)
    ensures
        r == spec_parse_tx_id(s@),
{
    match parse_dec(s, 4294967295) {
        Some(v) => Some(v as u32),
        None => None,
    }
}

/// Parses an amount field into 1/10000 units; exactly
/// [`spec_parse_amount`].
pub fn parse_amount(s: &[u8]) -> (r: Option<u64>)
    ensures
        r == spec_parse_amount(s@),
{
    let n = s.len();
    let mut di: usize = 0;
    while di < n && s[di] != DOT
        invariant
            n == s@.len(),
            di <= n,
            forall|j: int| 0 <= j < di ==> s@[j] != DOT,
        decreases n - di,
    {
        di = di + 1;
    }
    proof {
        lemma_dot_index(s@);
        if dot_index(s@) < di {
            assert(s@[dot_index(s@)] == DOT);
        }
        if di < dot_index(s@) {
            assert(s@[di as int] != DOT);
        }
        assert(dot_index(s@) == di as int);
    }
    // the whole part, worth at most floor(u64::MAX / 10000)
    let wv: u64 = if di == 0 {
        0
    } else {
        match parse_dec(&s[0..di], MAX_WHOLE) {
            None => {
                proof {
                    let whole = s@.take(di as int);
                    if all_digits(whole) && digits_value(whole) > MAX_WHOLE {
                        assert(digits_value(whole) * 10000 >= 1844674407370956 * 10000) by (nonlinear_arith)
                            requires
                                digits_value(whole) >= 1844674407370956,
                        ;
                    }
                }
                return None;
            },
            Some(v) => v,
        }
    };
    // the fractional part: up to four digits, scaled to 1/10000 units
    let (fv, flen): (u64, usize) = if di < n {
        let f = &s[di + 1..n];
        if f.len() > 4 {
            return None;
        }
        if f.len() == 0 {
            (0, 0)
        } else {
            match parse_dec(f, MAX_FRAC) {
                None => {
                    proof {
                        if all_digits(f@) {
                            lemma_digits_value_bound(f@);
                            lemma_pow10_small();
                            if f@.len() < 4 {
                                assert(digits_value(f@) < pow10(f@.len()) <= pow10(4)) by {
                                    lemma_pow10_le(f@.len(), 4);
                                }
                            }
                        }
                    }
                    return None;
                },
                Some(v) => (v, f.len()),
            }
        }
    } else {
        (0, 0)
    };
    if di == 0 && flen == 0 {
        return None;
    }
    let scale: u64 = if flen == 0 {
        10000
    } else if flen == 1 {
        1000
    } else if flen == 2 {
        100
    } else if flen == 3 {
        10
    } else {
        1
    };
    proof {
        let frac = if di < n {
            s@.skip(di + 1 as int)
        } else {
            Seq::<u8>::empty()
        };
        if di < n {
            lemma_digits_value_bound(frac);
            lemma_pow10_le(frac.len(), 4);
        }
        lemma_pow10_small();
        assert(scale == pow10((4 - frac.len()) as nat));
        assert(fv * scale <= 9999 * 10000) by (nonlinear_arith)
            requires
                fv <= 9999,
                scale <= 10000,
        ;
    }
    let fs: u64 = fv * scale;
    let scaled: u64 = wv * 10000;
    if scaled > u64::MAX - fs {
        return None;
    }
    Some(scaled + fs)
}

/// The small powers of ten the amount scale needs.
proof fn lemma_pow10_small()
    ensures
        pow10(0) == 1,
        pow10(1) == 10,
        pow10(2) == 100,
        pow10(3) == 1000,
        pow10(4) == 10000,
{
    reveal_with_fuel(pow10, 5);
}

/// Ten to the power of a smaller exponent is no larger.
proof fn lemma_pow10_le(a: nat, b: nat)
    requires
        a <= b,
    ensures
        pow10(a) <= pow10(b),
    decreases b,
{
    if a < b {
        lemma_pow10_le(a, (b - 1) as nat);
        assert(pow10(b) == 10 * pow10((b - 1) as nat));
    }
}

/// Parses a record kind field; exactly [`spec_parse_tx_type`].
pub fn parse_tx_type(s: &[u8]) -> (r: Option<TransactionType>)
    ensures
        r == spec_parse_tx_type(s@),
{
    let n = s.len();
    if n == 7 && s[0] == 100 && s[1] == 101 && s[2] == 112 && s[3] == 111 && s[4] == 115
        && s[5] == 105 && s[6] == 116 {
        proof {
            assert(s@ =~= seq![100u8, 101, 112, 111, 115, 105, 116]);
        }
        Some(TransactionType::Deposit)
    } else if n == 10 && s[0] == 119 && s[1] == 105 && s[2] == 116 && s[3] == 104 && s[4]
        == 100 && s[5] == 114 && s[6] == 97 && s[7] == 119 && s[8] == 97 && s[9] == 108 {
        proof {
            assert(s@ =~= seq![119u8, 105, 116, 104, 100, 114, 97, 119, 97, 108]);
        }
        Some(TransactionType::Withdrawal)
    } else if n == 7 && s[0] == 100 && s[1] == 105 && s[2] == 115 && s[3] == 112 && s[4] == 117
        && s[5] == 116 && s[6] == 101 {
        proof {
            assert(s@ =~= seq![100u8, 105, 115, 112, 117, 116, 101]);
        }
        Some(TransactionType::Dispute)
    } else if n == 7 && s[0] == 114 && s[1] == 101 && s[2] == 115 && s[3] == 111 && s[4] == 108
        && s[5] == 118 && s[6] == 101 {
        proof {
            assert(s@ =~= seq![114u8, 101, 115, 111, 108, 118, 101]);
        }
        Some(TransactionType::Resolve)
    } else if n == 10 && s[0] == 99 && s[1] == 104 && s[2] == 97 && s[3] == 114 && s[4]
        == 103 && s[5] == 101 && s[6] == 98 && s[7] == 97 && s[8] == 99 && s[9] == 107 {
        proof {
            assert(s@ =~= seq![99u8, 104, 97, 114, 103, 101, 98, 97, 99, 107]);
        }
        Some(TransactionType::Chargeback)
    } else {
        None
    }
}

/// Parses a whole row from its four trimmed fields; exactly
/// [`spec_parse_record`].  A blank amount field is an absent amount.
pub fn parse_record(ty: &[u8], client: &[u8], tx: &[u8], amount: &[u8]) -> (r: Option<
    TransactionRecord,
>)
    ensures
        r == spec_parse_record(ty@, client@, tx@, amount@),
{
    let t = match parse_tx_type(ty) {
        None => {
            return None;
        },
        Some(t) => t,
    };
    let c = match parse_client_id(client) {
        None => {
            return None;
        },
        Some(c) => c,
    };
    let x = match parse_tx_id(tx) {
        None => {
            return None;
        },
        Some(x) => x,
    };
    Some(TransactionRecord { tx_type: t, client_id: c, tx_id: x, amount: parse_amount(amount) })
}

/// The character rendering a single decimal digit.
pub open spec fn digit_char(d: nat) -> char
    recommends
        d < 10,
{
    if d == 0 {
        '0'
    } else if d == 1 {
        '1'
    } else if d == 2 {
        '2'
    } else if d == 3 {
        '3'
    } else if d == 4 {
        '4'
    } else if d == 5 {
        '5'
    } else if d == 6 {
        '6'
    } else if d == 7 {
        '7'
    } else if d == 8 {
        '8'
    } else {
        '9'
    }
}

/// The decimal numeral of `n`, without leading zeroes (a single `0`
/// for zero).
pub open spec fn dec_digits(n: nat) -> Seq<char>
    decreases n,
{
    if n < 10 {
        seq![digit_char(n)]
    } else {
        dec_digits(n / 10).push(digit_char(n % 10))
    }
}

/// Exactly four fractional digits, zero-padded on the left.
pub open spec fn frac4_digits(n: nat) -> Seq<char>
    recommends
        n < 10000,
{
    seq![
        digit_char(n / 1000 % 10),
        digit_char(n / 100 % 10),
        digit_char(n / 10 % 10),
        digit_char(n % 10),
    ]
}

/// `v` in 1/10000 units rendered as a decimal with exactly four digits
/// after the point, a leading `-` where it is negative.
pub open spec fn spec_format_amount(v: int) -> Seq<char> {
    let m = if v < 0 {
        -v
    } else {
        v
    };
    (if v < 0 {
        seq!['-']
    } else {
        Seq::<char>::empty()
    }) + dec_digits((m / 10000) as nat) + seq!['.'] + frac4_digits((m % 10000) as nat)
}

/// One output row for `a`: client id and the three balances, comma
/// separated, the frozen flag rendered as `true` or `false`.
pub open spec fn spec_render_account(a: Account) -> Seq<char> {
    dec_digits(a.id as nat) + seq![','] + spec_format_amount(a.available as int) + seq![',']
        + spec_format_amount(a.held as int) + seq![','] + spec_format_amount(a.total as int)
        + seq![','] + (if a.frozen {
        seq!['t', 'r', 'u', 'e']
    } else {
        seq!['f', 'a', 'l', 's', 'e']
    })
}

/// Appends the character of one digit.
fn push_digit(out: &mut String, d: u64)
    requires
        d < 10,
    ensures
        final(out)@ == old(out)@ + seq![digit_char(d as nat)],
{
    if d == 0 {
        proof {
            reveal_strlit("0");
        }
        out.append("0");
    } else if d == 1 {
        proof {
            reveal_strlit("1");
        }
        out.append("1");
    } else if d == 2 {
        proof {
            reveal_strlit("2");
        }
        out.append("2");
    } else if d == 3 {
        proof {
            reveal_strlit("3");
        }
        out.append("3");
    } else if d == 4 {
        proof {
            reveal_strlit("4");
        }
        out.append("4");
    } else if d == 5 {
        proof {
            reveal_strlit("5");
        }
        out.append("5");
    } else if d == 6 {
        proof {
            reveal_strlit("6");
        }
        out.append("6");
    } else if d == 7 {
        proof {
            reveal_strlit("7");
        }
        out.append("7");
    } else if d == 8 {
        proof {
            reveal_strlit("8");
        }
        out.append("8");
    } else {
        proof {
            reveal_strlit("9");
        }
        out.append("9");
    }
    proof {
        assert(out@ =~= old(out)@ + seq![digit_char(d as nat)]);
    }
}

/// Appends the decimal numeral of `n`.
fn push_dec(out: &mut String, n: u64)
    ensures
        final(out)@ == old(out)@ + dec_digits(n as nat),
    decreases n,
{
    if n < 10 {
        push_digit(out, n);
    } else {
        push_dec(out, n / 10);
        push_digit(out, n % 10);
        proof {
            assert(out@ =~= old(out)@ + dec_digits(n as nat));
        }
    }
}

/// Renders `v` in 1/10000 units with exactly four digits after the
/// decimal point; exactly [`spec_format_amount`].
pub fn format_amount(v: i64) -> (r: String)
    ensures
        r@ == spec_format_amount(v as int),
{
    let mut out = String::new();
    let m: u64 = if v < 0 {
        proof {
            reveal_strlit("-");
        }
        out.append("-");
        (-(v as i128)) as u64
    } else {
        v as u64
    };
    push_dec(&mut out, m / 10000);
    proof {
        reveal_strlit(".");
    }
    out.append(".");
    let f = m % 10000;
    push_digit(&mut out, f / 1000 % 10);
    push_digit(&mut out, f / 100 % 10);
    push_digit(&mut out, f / 10 % 10);
    push_digit(&mut out, f % 10);
    proof {
        assert(out@ =~= spec_format_amount(v as int));
    }
    out
}

/// Renders one output row for `a`; exactly [`spec_render_account`].
pub fn render_account(a: &Account) -> (r: String)
    ensures
        r@ == spec_render_account(*a),
{
    let mut out = String::new();
    proof {
        reveal_strlit(",");
    }
    push_dec(&mut out, a.id as u64);
    out.append(",");
    let available = format_amount(a.available);
    out.append(available.as_str());
    out.append(",");
    let held = format_amount(a.held);
    out.append(held.as_str());
    out.append(",");
    let total = format_amount(a.total);
    out.append(total.as_str());
    out.append(",");
    if a.frozen {
        proof {
            reveal_strlit("true");
        }
        out.append("true");
    } else {
        proof {
            reveal_strlit("false");
        }
        out.append("false");
    }
    proof {
        assert(out@ =~= spec_render_account(*a));
    }
    out
}

} // verus!
