//! Room codes: six decimal digits, zero-padded from the room's number.
use vstd::prelude::*;
use vstd::string::*;
use crate::protocol::RoomId;
use crate::text::push_char;

verus! {

/// The decimal digit for `d < 10`.
pub open spec fn digit_char(d: nat) -> char {
    if d == 0 { '0' }
    else if d == 1 { '1' }
    else if d == 2 { '2' }
    else if d == 3 { '3' }
    else if d == 4 { '4' }
    else if d == 5 { '5' }
    else if d == 6 { '6' }
    else if d == 7 { '7' }
    else if d == 8 { '8' }
    else { '9' }
}

/// The value of a decimal digit character.
pub open spec fn digit_value(c: char) -> nat {
    ((c as u32) - 48) as nat
}

/// Decimal notation of `n`, without leading zeros.
pub open spec fn decimal(n: nat) -> Seq<char>
    decreases n,
{
    if n < 10 {
        seq![digit_char(n)]
    } else {
        decimal(n / 10).push(digit_char(n % 10))
    }
}

/// `k` zeros.
pub open spec fn zeros(k: nat) -> Seq<char> {
    Seq::new(k, |i: int| '0')
}

/// The code of room number `n`: its decimal notation padded with zeros to
/// six characters (longer when `n` needs more digits).
pub open spec fn room_code_text(n: nat) -> Seq<char> {
    let d = decimal(n);
    if d.len() < 6 {
        zeros((6 - d.len()) as nat) + d
    } else {
        d
    }
}

/// Whether `s` is exactly six ASCII digits.
pub open spec fn is_room_code(s: Seq<char>) -> bool {
    s.len() == 6 && forall|i: int| 0 <= i < 6 ==> '0' <= #[trigger] s[i] && s[i] <= '9'
}

/// The number a digit string denotes.
pub open spec fn code_value(s: Seq<char>) -> nat
    decreases s.len(),
{
    if s.len() == 0 {
        0
    } else {
        code_value(s.drop_last()) * 10 + digit_value(s.last())
    }
}

proof fn lemma_digit(d: nat)
    requires
        d < 10,
    ensures
        digit_value(digit_char(d)) == d,
        '0' <= digit_char(d) <= '9',
{
}

proof fn lemma_decimal_value(n: nat)
    ensures
        code_value(decimal(n)) == n,
        decimal(n).len() >= 1,
    decreases n,
{
    if n < 10 {
        lemma_digit(n);
        assert(decimal(n).drop_last() =~= Seq::<char>::empty());
        assert(code_value(Seq::<char>::empty()) == 0);
        assert(decimal(n).last() == digit_char(n));
    } else {
        lemma_decimal_value(n / 10);
        lemma_digit(n % 10);
        let d = decimal(n);
        assert(d.drop_last() =~= decimal(n / 10));
        assert(d.last() == digit_char(n % 10));
        assert(code_value(d) == code_value(decimal(n / 10)) * 10 + digit_value(digit_char(n % 10)));
        assert((n / 10) * 10 + n % 10 == n) by (nonlinear_arith);
    }
}

proof fn lemma_zeros_value(k: nat)
    ensures
        code_value(zeros(k)) == 0,
    decreases k,
{
    if k > 0 {
        assert(zeros(k).drop_last() =~= zeros((k - 1) as nat));
        lemma_zeros_value((k - 1) as nat);
    }
}

proof fn lemma_padding_value(k: nat, d: Seq<char>)
    ensures
        code_value(zeros(k) + d) == code_value(d),
    decreases d.len(),
{
    if d.len() == 0 {
        assert(zeros(k) + d =~= zeros(k));
        lemma_zeros_value(k);
    } else {
        assert((zeros(k) + d).drop_last() =~= zeros(k) + d.drop_last());
        lemma_padding_value(k, d.drop_last());
    }
}

/// Reading a room's code back gives its number.
pub proof fn lemma_room_code_value(n: nat)
    ensures
        code_value(room_code_text(n)) == n,
        room_code_text(n).len() >= 6,
{
    lemma_decimal_value(n);
    let d = decimal(n);
    if d.len() < 6 {
        lemma_padding_value((6 - d.len()) as nat, d);
    }
}

/// Distinct room numbers have distinct codes.
pub proof fn lemma_room_code_injective(m: nat, n: nat)
    requires
        room_code_text(m) == room_code_text(n),
    ensures
        m == n,
{
    lemma_room_code_value(m);
    lemma_room_code_value(n);
}


/// `10^k`.
pub open spec fn pow10(k: nat) -> nat
    decreases k,
{
    if k == 0 { 1 } else { 10 * pow10((k - 1) as nat) }
}

proof fn lemma_decimal_shape(n: nat, k: nat)
    requires
        k >= 1,
        n < pow10(k),
    ensures
        decimal(n).len() <= k,
        forall|i: int| 0 <= i < decimal(n).len() ==> '0' <= #[trigger] decimal(n)[i] <= '9',
    decreases n,
{
    if n < 10 {
        lemma_digit(n);
    } else {
        assert(k >= 2) by {
            if k == 1 {
                assert(pow10(1) == 10 * pow10(0));
            }
        }
        assert(pow10(k) == 10 * pow10((k - 1) as nat));
        assert(n / 10 < pow10((k - 1) as nat)) by (nonlinear_arith)
            requires
                n < 10 * pow10((k - 1) as nat),
        ;
        lemma_decimal_shape(n / 10, (k - 1) as nat);
        lemma_digit(n % 10);
    }
}

/// Rooms numbered below a million have valid six-digit codes.
pub proof fn lemma_room_code_valid(n: nat)
    requires
        n < 1_000_000,
    ensures
        is_room_code(room_code_text(n)),
{
    assert(pow10(6) == 1_000_000) by {
        reveal_with_fuel(pow10, 7);
    }
    lemma_decimal_shape(n, 6);
    let d = decimal(n);
    if d.len() < 6 {
        let z = zeros((6 - d.len()) as nat);
        assert forall|i: int| 0 <= i < 6 implies '0' <= #[trigger] (z + d)[i] && (z + d)[i] <= '9' by {
            if i < z.len() {
                assert((z + d)[i] == '0');
            } else {
                assert((z + d)[i] == d[i - z.len()]);
            }
        }
    }
}

/// Whether `code` is exactly six ASCII digits.
pub fn valid_room_code(code: &str) -> (r: bool)
    ensures
        r == is_room_code(code@),
{
    if code.unicode_len() != 6 {
        return false;
    }
    let mut i: usize = 0;
    while i < 6
        invariant
            code@.len() == 6,
            i <= 6,
            forall|k: int| 0 <= k < i ==> '0' <= #[trigger] code@[k] && code@[k] <= '9',
        decreases 6 - i,
    {
        let c = code.get_char(i);
        if !('0' <= c && c <= '9') {
            return false;
        }
        i = i + 1;
    }
    true
}

/// The digit character for `d < 10`.
pub(crate) fn digit(d: u64) -> (c: char)
    requires
        d < 10,
    ensures
        c == digit_char(d as nat),
{
    if d == 0 { '0' }
    else if d == 1 { '1' }
    else if d == 2 { '2' }
    else if d == 3 { '3' }
    else if d == 4 { '4' }
    else if d == 5 { '5' }
    else if d == 6 { '6' }
    else if d == 7 { '7' }
    else if d == 8 { '8' }
    else { '9' }
}

/// The code of room number `n`, zero-padded to six digits.
pub fn room_code(n: u64) -> (r: RoomId)
    ensures
        r.0@ == room_code_text(n as nat),
{
    let mut m = n;
    let mut tail: Vec<char> = Vec::new();
    assert(decimal(n as nat) =~= decimal(n as nat) + tail@);
    while m >= 10
        invariant
            decimal(n as nat) == decimal(m as nat) + tail@,
        decreases m,
    {
        let c = digit(m % 10);
        let ghost before = tail@;
        proof {
            assert(decimal(m as nat) == decimal((m / 10) as nat).push(digit_char((m % 10) as nat)));
            assert(decimal(m as nat) + before =~= decimal((m / 10) as nat) + seq![c].add(before));
        }
        tail.insert(0, c);
        assert(tail@ =~= seq![c].add(before));
        m = m / 10;
    }
    let first = digit(m);
    let ghost before = tail@;
    tail.insert(0, first);
    assert(tail@ =~= seq![first].add(before));
    assert(tail@ =~= decimal(n as nat));
    let ghost d = decimal(n as nat);
    while tail.len() < 6
        invariant
            d == decimal(n as nat),
            tail@.len() >= d.len(),
            d.len() < 6 ==> tail@.len() <= 6 && tail@ =~= zeros((tail@.len() - d.len()) as nat) + d,
            d.len() >= 6 ==> tail@ == d,
        decreases 6 - tail.len(),
    {
        let ghost before = tail@;
        tail.insert(0, '0');
        assert(tail@ =~= zeros((tail@.len() - d.len()) as nat) + d);
    }
    assert(tail@ == room_code_text(n as nat));
    let mut s = String::new();
    let mut i: usize = 0;
    while i < tail.len()
        invariant
            i <= tail@.len(),
            s@ == tail@.subrange(0, i as int),
        decreases tail.len() - i,
    {
        push_char(&mut s, tail[i]);
        assert(tail@.subrange(0, i + 1) =~= tail@.subrange(0, i as int).push(tail@[i as int]));
        i = i + 1;
    }
    assert(tail@.subrange(0, tail@.len() as int) =~= tail@);
    RoomId(s)
}

/// Appends the decimal notation of `n` to `s`.
pub(crate) fn push_decimal(s: &mut String, n: u64)
    ensures
        final(s)@ == old(s)@ + decimal(n as nat),
    decreases n,
{
    if n >= 10 {
        push_decimal(s, n / 10);
    }
    push_char(s, digit(n % 10));
    proof {
        if n >= 10 {
            assert(decimal(n as nat) == decimal((n / 10) as nat).push(digit_char((n % 10) as nat)));
        }
        assert(s@ =~= old(s)@ + decimal(n as nat));
    }
}

} // verus!
