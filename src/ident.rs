use vstd::prelude::*;

verus! {

/// The character of a decimal digit `d < 10`.
pub open spec fn digit_char(d: nat) -> char {
    seq!['0', '1', '2', '3', '4', '5', '6', '7', '8', '9'][d as int]
}

/// The decimal digits of `n`, most significant first, without leading zeros.
pub open spec fn decimal(n: nat) -> Seq<char>
    decreases n,
{
    if n < 10 {
        seq![digit_char(n)]
    } else {
        decimal(n / 10).push(digit_char(n % 10))
    }
}

/// The identifier of the `n`-th poll of a registry: `poll_` followed by `n` in decimal.
pub open spec fn numbered_poll_id(n: nat) -> Seq<char> {
    seq!['p', 'o', 'l', 'l', '_'] + decimal(n)
}

proof fn lemma_decimal_len(n: nat)
    ensures
        decimal(n).len() >= 1,
        n >= 10 ==> decimal(n).len() >= 2,
    decreases n,
{
    if n >= 10 {
        lemma_decimal_len(n / 10);
    }
}

/// Different numbers have different decimal forms.
pub proof fn lemma_decimal_injective(a: nat, b: nat)
    requires
        decimal(a) == decimal(b),
    ensures
        a == b,
    decreases a,
{
    lemma_decimal_len(a);
    lemma_decimal_len(b);
    if a >= 10 && b >= 10 {
        let da = decimal(a);
        let db = decimal(b);
        assert(da.last() == digit_char(a % 10));
        assert(db.last() == digit_char(b % 10));
        assert(da.drop_last() =~= decimal(a / 10));
        assert(db.drop_last() =~= decimal(b / 10));
        lemma_decimal_injective(a / 10, b / 10);
    } else if a < 10 && b < 10 {
        assert(decimal(a)[0] == digit_char(a));
        assert(decimal(b)[0] == digit_char(b));
    }
}

/// Different poll numbers give different identifiers.
pub proof fn lemma_numbered_poll_id_injective(a: nat, b: nat)
    requires
        numbered_poll_id(a) == numbered_poll_id(b),
    ensures
        a == b,
{
    assert(numbered_poll_id(a).subrange(5, numbered_poll_id(a).len() as int) =~= decimal(a));
    assert(numbered_poll_id(b).subrange(5, numbered_poll_id(b).len() as int) =~= decimal(b));
    lemma_decimal_injective(a, b);
}

/// Relies on `ToString::to_string` for `u64`, which goes through its `Display`: the number in
/// decimal, with no sign and no leading zeros.
#[verifier::external_body]
fn decimal_text(n: u64) -> (r: String)
    ensures
        r@ == decimal(n as nat),
{
    n.to_string()
}

/// The identifier of the `n`-th poll of a registry.
pub fn poll_id_for(n: u64) -> (r: String)
    ensures
        r@ == numbered_poll_id(n as nat),
{
    let digits = decimal_text(n);
    let prefix = String::from_str("poll_");
    proof {
        reveal_strlit("poll_");
    }
    let r = prefix.concat(digits.as_str());
    proof {
        assert(r@ =~= numbered_poll_id(n as nat));
    }
    r
}

} // verus!
