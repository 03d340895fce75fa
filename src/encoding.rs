use vstd::prelude::*;

verus! {

/// ASCII decimal digits of `n`, most significant first, without leading zeros.
pub open spec fn decimal_digits(n: nat) -> Seq<u8>
    decreases n,
{
    if n < 10 {
        seq![(48 + n) as u8]
    } else {
        decimal_digits(n / 10).push((48 + n % 10) as u8)
    }
}

/// Decimal text of a signed integer: a `-` (45) before the digits of its
/// magnitude when negative.
pub open spec fn signed_decimal(n: int) -> Seq<u8> {
    if n < 0 {
        seq![45u8] + decimal_digits((-n) as nat)
    } else {
        decimal_digits(n as nat)
    }
}

/// Appends the decimal digits of `n` to `out`.
pub fn push_decimal(n: u128, out: &mut Vec<u8>)
    ensures
        final(out)@ == old(out)@ + decimal_digits(n as nat),
    decreases n,
{
    if n < 10 {
        out.push((48 + n) as u8);
    } else {
        push_decimal(n / 10, out);
        out.push((48 + n % 10) as u8);
        assert(final(out)@ =~= old(out)@ + decimal_digits(n as nat));
    }
}

/// Decimal text of `choice` followed by `salt`: the bytes a commitment hashes.
pub fn vote_message_u128(choice: u128, salt: &Vec<u8>) -> (r: Vec<u8>)
    ensures
        r@ == decimal_digits(choice as nat) + salt@,
{
    let mut out: Vec<u8> = Vec::new();
    push_decimal(choice, &mut out);
    let mut i: usize = 0;
    while i < salt.len()
        invariant
            i <= salt@.len(),
            out@ == decimal_digits(choice as nat) + salt@.subrange(0, i as int),
        decreases salt@.len() - i,
    {
        out.push(salt[i]);
        i = i + 1;
        assert(out@ =~= decimal_digits(choice as nat) + salt@.subrange(0, i as int));
    }
    assert(salt@.subrange(0, salt@.len() as int) =~= salt@);
    out
}

/// Signed decimal text of `choice` followed by `salt`.
pub fn vote_message_i64(choice: i64, salt: &Vec<u8>) -> (r: Vec<u8>)
    ensures
        r@ == signed_decimal(choice as int) + salt@,
{
    let mut out: Vec<u8> = Vec::new();
    let magnitude: u128 = if choice < 0 {
        out.push(45u8);
        (0i128 - choice as i128) as u128
    } else {
        choice as u128
    };
    push_decimal(magnitude, &mut out);
    assert(out@ =~= signed_decimal(choice as int));
    let mut i: usize = 0;
    while i < salt.len()
        invariant
            i <= salt@.len(),
            out@ == signed_decimal(choice as int) + salt@.subrange(0, i as int),
        decreases salt@.len() - i,
    {
        out.push(salt[i]);
        i = i + 1;
        assert(out@ =~= signed_decimal(choice as int) + salt@.subrange(0, i as int));
    }
    assert(salt@.subrange(0, salt@.len() as int) =~= salt@);
    out
}

} // verus!
