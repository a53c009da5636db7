use vstd::prelude::*;

use crate::transaction::TransactionType;

verus! {

/// Lexical validation of one input line. A line is a list of fields split on
/// commas and spaces: a transaction type, a client id, a transaction id and —
/// for deposits and withdrawals — a fixed-point amount with at most four
/// decimal places.
///
/// The largest integer part an amount may carry: anything up to this many
/// whole units still fits in a `u64` once scaled by [`crate::AMOUNT_SCALE`].
pub const MAX_AMOUNT_UNITS: u64 = (u64::MAX - 9999) / 10000;

/// Field separators: comma and space.
pub open spec fn spec_is_sep(c: char) -> bool {
    c == ',' || c == ' '
}

/// One step of splitting: walk the line from position `i` with the partial
/// field `cur` and the fields `acc` already finished; empty fields (runs of
/// separators) are dropped.
pub open spec fn spec_split_rec(
    s: Seq<char>,
    i: int,
    cur: Seq<char>,
    acc: Seq<Seq<char>>,
) -> Seq<Seq<char>>
    decreases s.len() - i,
{
    if i < 0 || i >= s.len() {
        if cur.len() > 0 {
            acc.push(cur)
        } else {
            acc
        }
    } else if spec_is_sep(s[i]) {
        spec_split_rec(
            s,
            i + 1,
            Seq::empty(),
            if cur.len() > 0 {
                acc.push(cur)
            } else {
                acc
            },
        )
    } else {
        spec_split_rec(s, i + 1, cur.push(s[i]), acc)
    }
}

/// The non-empty fields of a line, in order.
pub open spec fn spec_tokens(s: Seq<char>) -> Seq<Seq<char>> {
    spec_split_rec(s, 0, Seq::empty(), Seq::empty())
}

/// The views of a vector of string slices.
pub open spec fn views_of(v: Seq<&str>) -> Seq<Seq<char>> {
    Seq::new(v.len(), |i: int| v[i]@)
}

pub open spec fn spec_is_digit(c: char) -> bool {
    48 <= c as u32 <= 57
}

pub open spec fn spec_digit_val(c: char) -> nat {
    (c as u32 - 48) as nat
}

pub open spec fn spec_all_digits(d: Seq<char>) -> bool {
    forall|i: int| 0 <= i < d.len() ==> spec_is_digit(#[trigger] d[i])
}

/// The number a run of decimal digits denotes.
pub open spec fn spec_digits_val(d: Seq<char>) -> nat
    decreases d.len(),
{
    if d.len() == 0 {
        0
    } else {
        spec_digits_val(d.drop_last()) * 10 + spec_digit_val(d.last())
    }
}

pub open spec fn spec_pow10(n: nat) -> nat
    decreases n,
{
    if n == 0 {
        1
    } else {
        10 * spec_pow10((n - 1) as nat)
    }
}

/// The digits of an unsigned integer field, a single leading `+` allowed.
pub open spec fn spec_uint_digits(s: Seq<char>) -> Seq<char> {
    if s.len() > 0 && s[0] == '+' {
        s.drop_first()
    } else {
        s
    }
}

/// A valid unsigned integer field whose value is at most `max`.
pub open spec fn spec_uint_token(s: Seq<char>, max: nat) -> bool {
    let d = spec_uint_digits(s);
    d.len() > 0 && spec_all_digits(d) && spec_digits_val(d) <= max
}

pub open spec fn spec_uint_val(s: Seq<char>) -> nat {
    spec_digits_val(spec_uint_digits(s))
}

/// The index of the first `.` in the field, or its length if there is none.
pub open spec fn spec_first_dot(s: Seq<char>) -> int
    decreases s.len(),
{
    if s.len() == 0 {
        0
    } else if s[0] == '.' {
        0
    } else {
        1 + spec_first_dot(s.drop_first())
    }
}

/// A valid amount field: one or more integer digits denoting at most
/// [`MAX_AMOUNT_UNITS`] whole units, optionally followed by a dot and one to
/// four fractional digits.
pub open spec fn spec_valid_amount(s: Seq<char>) -> bool {
    let k = spec_first_dot(s);
    &&& 1 <= k
    &&& spec_all_digits(s.take(k))
    &&& spec_digits_val(s.take(k)) <= MAX_AMOUNT_UNITS
    &&& (k == s.len() || {
        let frac = s.skip(k + 1);
        1 <= frac.len() <= 4 && spec_all_digits(frac)
    })
}

/// The value of a valid amount field, scaled by [`crate::AMOUNT_SCALE`].
pub open spec fn spec_amount_val(s: Seq<char>) -> nat {
    let k = spec_first_dot(s);
    if k == s.len() {
        spec_digits_val(s) * 10000
    } else {
        let frac = s.skip(k + 1);
        spec_digits_val(s.take(k)) * 10000 + spec_digits_val(frac) * spec_pow10(
            (4 - frac.len()) as nat,
        )
    }
}

/// The names of the two record kinds that carry an amount.
pub open spec fn spec_needs_amount(t: Seq<char>) -> bool {
    t == "deposit"@ || t == "withdrawal"@
}

/// One of the five transaction type names.
pub open spec fn spec_valid_type(t: Seq<char>) -> bool {
    t == "deposit"@ || t == "withdrawal"@ || t == "dispute"@ || t == "resolve"@
        || t == "chargeback"@
}

/// A lexically valid input line: at least a type, a client id and a
/// transaction id, and a valid amount as the fourth field when the type is a
/// deposit or a withdrawal. Extra fields are ignored.
pub open spec fn spec_valid_input(s: Seq<char>) -> bool {
    let ts = spec_tokens(s);
    &&& ts.len() >= 3
    &&& spec_valid_type(ts[0])
    &&& spec_uint_token(ts[1], u16::MAX as nat)
    &&& spec_uint_token(ts[2], u32::MAX as nat)
    &&& (spec_needs_amount(ts[0]) ==> ts.len() >= 4 && spec_valid_amount(ts[3]))
}

/// Digit runs only grow in value as digits are appended.
proof fn lemma_digits_val_prefix_le(d: Seq<char>, j: int)
    requires
        0 <= j <= d.len(),
    ensures
        spec_digits_val(d.take(j)) <= spec_digits_val(d),
    decreases d.len() - j,
{
    if j < d.len() {
        assert(d.take(j + 1).drop_last() =~= d.take(j));
        assert(d.take(j + 1).last() == d[j]);
        assert(spec_digits_val(d.take(j + 1)) == spec_digits_val(d.take(j)) * 10 + spec_digit_val(
            d[j],
        ));
        lemma_digits_val_prefix_le(d, j + 1);
    } else {
        assert(d.take(j) =~= d);
    }
}

/// A run of at most `n` digits denotes a value below ten to the `n`.
proof fn lemma_digits_val_lt_pow10(d: Seq<char>)
    requires
        spec_all_digits(d),
    ensures
        spec_digits_val(d) < spec_pow10(d.len()),
    decreases d.len(),
{
    if d.len() > 0 {
        assert(spec_all_digits(d.drop_last()));
        lemma_digits_val_lt_pow10(d.drop_last());
        assert(spec_digit_val(d.last()) <= 9);
    }
}

/// The first dot is where the scan says it is: no dot before `k`, and a dot
/// at `k` unless `k` is the end.
proof fn lemma_first_dot_at(s: Seq<char>, k: int)
    requires
        0 <= k <= s.len(),
        forall|j: int| 0 <= j < k ==> s[j] != '.',
        k < s.len() ==> s[k] == '.',
    ensures
        spec_first_dot(s) == k,
    decreases s.len(),
{
    if k == 0 {
    } else {
        assert(s[0] != '.');
        assert forall|j: int| 0 <= j < k - 1 implies s.drop_first()[j] != '.' by {
            assert(s.drop_first()[j] == s[j + 1]);
        }
        lemma_first_dot_at(s.drop_first(), k - 1);
    }
}

/// Splits a line into its non-empty comma/space separated fields.
pub fn split_fields<'a>(s: &'a str) -> (toks: Vec<&'a str>)
    ensures
        views_of(toks@) == spec_tokens(s@),
{
    let n = s.unicode_len();
    let mut toks: Vec<&str> = Vec::new();
    let mut i: usize = 0;
    let mut start: usize = 0;
    let mut in_token: bool = false;
    proof {
        assert(views_of(toks@) =~= Seq::<Seq<char>>::empty());
    }
    while i < n
        invariant
            n == s@.len(),
            i <= n,
            in_token ==> start < i,
            spec_tokens(s@) == spec_split_rec(
                s@,
                i as int,
                if in_token {
                    s@.subrange(start as int, i as int)
                } else {
                    Seq::empty()
                },
                views_of(toks@),
            ),
        decreases n - i,
    {
        let ghost cur: Seq<char> = if in_token {
            s@.subrange(start as int, i as int)
        } else {
            Seq::empty()
        };
        let c = s.get_char(i);
        if c == ',' || c == ' ' {
            if in_token {
                let tok = s.substring_char(start, i);
                let ghost prev = toks@;
                toks.push(tok);
                in_token = false;
                proof {
                    assert(views_of(toks@) =~= views_of(prev).push(tok@));
                }
            }
        } else {
            if !in_token {
                start = i;
                in_token = true;
            }
            proof {
                assert(s@.subrange(start as int, i as int + 1) =~= cur.push(s@[i as int]));
            }
        }
        i += 1;
    }
    if in_token {
        let tok = s.substring_char(start, n);
        let ghost prev = toks@;
        toks.push(tok);
        proof {
            assert(views_of(toks@) =~= views_of(prev).push(tok@));
        }
    }
    toks
}

/// Parses the digit run `s[from..to]` as a decimal number of value at most
/// `max`; anything else — empty, a non-digit, too large — is `None`.
fn parse_digits(s: &str, from: usize, to: usize, max: u64) -> (r: Option<u64>)
    requires
        from <= to <= s@.len(),
        max <= (u64::MAX - 9) / 10,
    ensures
        ({
            let d = s@.subrange(from as int, to as int);
            &&& (r is Some <==> d.len() > 0 && spec_all_digits(d) && spec_digits_val(d)
                <= max)
            &&& (r is Some ==> r->Some_0 == spec_digits_val(d))
        }),
{
    let ghost d = s@.subrange(from as int, to as int);
    if from == to {
        return None;
    }
    let mut val: u64 = 0;
    let mut j = from;
    while j < to
        invariant
            from <= j <= to <= s@.len(),
            max <= (u64::MAX - 9) / 10,
            d == s@.subrange(from as int, to as int),
            spec_all_digits(s@.subrange(from as int, j as int)),
            val == spec_digits_val(s@.subrange(from as int, j as int)),
            val <= max,
        decreases to - j,
    {
        let ghost pref = s@.subrange(from as int, j as int);
        let c = s.get_char(j);
        let code = c as u32;
        if code < 48 || code > 57 {
            proof {
                assert(d[j - from] == s@[j as int]);
                assert(!spec_all_digits(d));
            }
            return None;
        }
        let digit = (code - 48) as u64;
        let next = val * 10 + digit;
        proof {
            assert(s@.subrange(from as int, j as int + 1).drop_last() =~= pref);
            assert(s@.subrange(from as int, j as int + 1).last() == s@[j as int]);
        }
        if next > max {
            proof {
                if spec_all_digits(d) && spec_digits_val(d) <= max {
                    assert(d.take(j + 1 - from) =~= s@.subrange(from as int, j as int + 1));
                    lemma_digits_val_prefix_le(d, j + 1 - from);
                }
            }
            return None;
        }
        val = next;
        j += 1;
    }
    proof {
        assert(s@.subrange(from as int, to as int) =~= s@.subrange(from as int, j as int));
    }
    Some(val)
}

/// Parses an unsigned integer field (an optional `+`, then digits) of value
/// at most `max`.
fn parse_uint(s: &str, max: u64) -> (r: Option<u64>)
    requires
        max <= (u64::MAX - 9) / 10,
    ensures
        r is Some <==> spec_uint_token(s@, max as nat),
        r is Some ==> r->Some_0 == spec_uint_val(s@),
{
    let n = s.unicode_len();
    if n == 0 {
        return None;
    }
    let start: usize = if s.get_char(0) == '+' {
        1
    } else {
        0
    };
    proof {
        assert(s@.subrange(start as int, n as int) =~= spec_uint_digits(s@));
    }
    parse_digits(s, start, n, max)
}

/// Parses an amount field into its scaled fixed-point value: whole units
/// times [`crate::AMOUNT_SCALE`] plus the fraction padded to four digits.
pub fn parse_amount(s: &str) -> (r: Option<u64>)
    ensures
        r is Some <==> spec_valid_amount(s@),
        r is Some ==> r->Some_0 == spec_amount_val(s@),
{
    let n = s.unicode_len();
    let mut k: usize = 0;
    while k < n && s.get_char(k) != '.'
        invariant
            n == s@.len(),
            k <= n,
            forall|j: int| 0 <= j < k ==> s@[j] != '.',
        decreases n - k,
    {
        k += 1;
    }
    proof {
        lemma_first_dot_at(s@, k as int);
    }
    if k == 0 {
        return None;
    }
    let int_part = match parse_digits(s, 0, k, MAX_AMOUNT_UNITS) {
        Some(v) => v,
        None => {
            proof {
                assert(s@.subrange(0, k as int) =~= s@.take(k as int));
            }
            return None;
        },
    };
    proof {
        assert(s@.subrange(0, k as int) =~= s@.take(k as int));
    }
    if k == n {
        proof {
            assert(s@.take(k as int) =~= s@);
        }
        return Some(int_part * 10000);
    }
    let frac_len = n - k - 1;
    if frac_len < 1 || frac_len > 4 {
        proof {
            assert(s@.skip(k as int + 1).len() == frac_len);
        }
        return None;
    }
    let frac = match parse_digits(s, k + 1, n, 9999) {
        Some(v) => v,
        None => {
            proof {
                assert(s@.subrange(k as int + 1, n as int) =~= s@.skip(k as int + 1));
                if spec_valid_amount(s@) {
                    lemma_digits_val_lt_pow10(s@.skip(k as int + 1));
                    reveal_with_fuel(spec_pow10, 5);
                }
            }
            return None;
        },
    };
    proof {
        assert(s@.subrange(k as int + 1, n as int) =~= s@.skip(k as int + 1));
    }
    let scale: u64 = if frac_len == 1 {
        1000
    } else if frac_len == 2 {
        100
    } else if frac_len == 3 {
        10
    } else {
        1
    };
    proof {
        reveal_with_fuel(spec_pow10, 5);
        let frac_seq = s@.skip(k as int + 1);
        assert(scale == spec_pow10((4 - frac_seq.len()) as nat));
        lemma_digits_val_lt_pow10(frac_seq);
        assert(frac * scale <= 9999);
    }
    Some(int_part * 10000 + frac * scale)
}

/// Character-by-character string equality.
pub(crate) fn str_eq(a: &str, b: &str) -> (r: bool)
    ensures
        r == (a@ == b@),
{
    let na = a.unicode_len();
    let nb = b.unicode_len();
    if na != nb {
        return false;
    }
    let mut i: usize = 0;
    while i < na
        invariant
            na == a@.len(),
            nb == b@.len(),
            na == nb,
            i <= na,
            forall|j: int| 0 <= j < i ==> a@[j] == b@[j],
        decreases na - i,
    {
        if a.get_char(i) != b.get_char(i) {
            return false;
        }
        i += 1;
    }
    proof {
        assert(a@ =~= b@);
    }
    true
}

/// Is this field one of the five transaction type names?
fn is_valid_transaction_type(input_type: &str) -> (r: bool)
    ensures
        r == spec_valid_type(input_type@),
{
    let types = TransactionType::iterator();
    let mut idx: usize = 0;
    while idx < types.len()
        invariant
            types@ == TransactionType::spec_all(),
            idx <= types@.len(),
            forall|j: int|
                0 <= j < idx ==> input_type@ != (#[trigger] types@[j]).spec_name(),
        decreases types@.len() - idx,
    {
        if str_eq(types[idx].as_str(), input_type) {
            return true;
        }
        idx += 1;
    }
    proof {
        assert(!spec_valid_type(input_type@)) by {
            assert(types@[0].spec_name() == "deposit"@);
            assert(types@[1].spec_name() == "withdrawal"@);
            assert(types@[2].spec_name() == "dispute"@);
            assert(types@[3].spec_name() == "resolve"@);
            assert(types@[4].spec_name() == "chargeback"@);
        }
    }
    false
}

/// Is this field a client id: an unsigned 16-bit number?
fn is_valid_client_id(id: &str) -> (r: bool)
    ensures
        r == spec_uint_token(id@, u16::MAX as nat),
{
    match parse_uint(id, 65535) {
        Some(_) => true,
        None => false,
    }
}

/// Is this field a transaction id: an unsigned 32-bit number?
fn is_valid_transaction_id(id: &str) -> (r: bool)
    ensures
        r == spec_uint_token(id@, u32::MAX as nat),
{
    match parse_uint(id, 4294967295) {
        Some(_) => true,
        None => false,
    }
}

/// Is this field a representable fixed-point amount?
fn is_valid_amount(amount: &str) -> (r: bool)
    ensures
        r == spec_valid_amount(amount@),
{
    match parse_amount(amount) {
        Some(_) => true,
        None => false,
    }
}

/// Is this line a lexically valid record, as [`spec_valid_input`] defines
/// it? Only such lines may be handed to `Transaction::new`.
pub fn is_valid_input(input: &str) -> (r: bool)
    ensures
        r == spec_valid_input(input@),
{
    let splitted: Vec<&str> = split_fields(input);
    if splitted.len() < 3 {
        return false;
    }
    let trans_type = splitted[0];
    let client_id = splitted[1];
    let trans_id = splitted[2];
    proof {
        assert(trans_type@ == spec_tokens(input@)[0]);
        assert(client_id@ == spec_tokens(input@)[1]);
        assert(trans_id@ == spec_tokens(input@)[2]);
    }
    if !is_valid_transaction_type(trans_type) || !is_valid_client_id(client_id)
        || !is_valid_transaction_id(trans_id) {
        return false;
    }
    if str_eq(TransactionType::Deposit.as_str(), trans_type) || str_eq(
        TransactionType::Withdrawal.as_str(),
        trans_type,
    ) {
        if splitted.len() < 4 {
            return false;
        }
        let amount = splitted[3];
        proof {
            assert(amount@ == spec_tokens(input@)[3]);
        }
        if !is_valid_amount(amount) {
            return false;
        }
    }
    true
}

/// Parses an unsigned integer field already known to be valid.
pub(crate) fn parse_uint_field(s: &str, max: u64) -> (r: u64)
    requires
        max <= (u64::MAX - 9) / 10,
        spec_uint_token(s@, max as nat),
    ensures
        r == spec_uint_val(s@),
{
    match parse_uint(s, max) {
        Some(v) => v,
        None => {
            proof {
                assert(false);
            }
            0
        },
    }
}

/// Parses an amount field already known to be valid.
pub(crate) fn parse_amount_field(s: &str) -> (r: u64)
    requires
        spec_valid_amount(s@),
    ensures
        r == spec_amount_val(s@),
{
    match parse_amount(s) {
        Some(v) => v,
        None => {
            proof {
                assert(false);
            }
            0
        },
    }
}

} // verus!
