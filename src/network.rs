use vstd::prelude::*;

verus! {

/// The byte of `/`.
pub const SLASH: u8 = 0x2f;

pub open spec fn is_digit(b: u8) -> bool {
    0x30 <= b <= 0x39
}

/// The number that the decimal digits `digits` spell.
pub open spec fn decimal_value(digits: Seq<u8>) -> nat
    decreases digits.len(),
{
    if digits.len() == 0 {
        0
    } else {
        decimal_value(digits.drop_last()) * 10 + (digits.last() - 0x30) as nat
    }
}

/// `digits` is a prefix length: one to three decimal digits, at most 255.
pub open spec fn is_prefix_text(digits: Seq<u8>) -> bool {
    &&& 1 <= digits.len() <= 3
    &&& forall|i: int| 0 <= i < digits.len() ==> is_digit(#[trigger] digits[i])
    &&& decimal_value(digits) <= 255
}

/// `i` is the position of the first `/` of `text`.
pub open spec fn first_slash(text: Seq<u8>, i: int) -> bool {
    &&& 0 <= i < text.len()
    &&& text[i] == SLASH
    &&& forall|j: int| 0 <= j < i ==> text[j] != SLASH
}

/// Why a network text does not split into address and prefix.
#[derive(Clone, Copy, Debug, PartialEq, Eq, Structural)]
pub enum NetworkError {
    /// What follows the `/` is not a prefix length.
    BadPrefix,
}

/// Splits a network text `address` or `address/prefix`: the length of the
/// address part and the prefix length, 0 for a bare address.
pub fn split_network(text: &[u8]) -> (r: Result<(usize, u8), NetworkError>)
    ensures
        (forall|j: int| 0 <= j < text@.len() ==> text@[j] != SLASH) ==> r == Ok::<
            (usize, u8),
            NetworkError,
        >((text@.len() as usize, 0u8)),
        forall|i: int|
            first_slash(text@, i) ==> {
                let digits = text@.subrange(i + 1, text@.len() as int);
                &&& is_prefix_text(digits) ==> r == Ok::<(usize, u8), NetworkError>(
                    (i as usize, decimal_value(digits) as u8),
                )
                &&& !is_prefix_text(digits) ==> r == Err::<(usize, u8), NetworkError>(
                    NetworkError::BadPrefix,
                )
            },
{
    let n = text.len();
    let mut i: usize = 0;
    while i < n && text[i] != SLASH
        invariant
            i <= n == text@.len(),
            forall|j: int| 0 <= j < i ==> text@[j] != SLASH,
        decreases n - i,
    {
        i = i + 1;
    }
    if i == n {
        return Ok((n, 0));
    }
    assert(first_slash(text@, i as int));
    assert forall|k: int| first_slash(text@, k) implies k == i by {
        if k < i {
            assert(text@[k] != SLASH);
        } else if k > i {
            assert(text@[i as int] != SLASH);
        }
    }
    let ghost digits = text@.subrange(i + 1, n as int);
    let count = n - (i + 1);
    if count < 1 || count > 3 {
        return Err(NetworkError::BadPrefix);
    }
    let mut value: u32 = 0;
    let mut k: usize = i + 1;
    proof {
        assert(text@.subrange(i + 1, i + 1) =~= Seq::<u8>::empty());
    }
    while k < n
        invariant
            i + 1 <= k <= n == text@.len(),
            n - (i + 1) <= 3,
            first_slash(text@, i as int),
            forall|q: int| first_slash(text@, q) ==> q == i,
            digits == text@.subrange(i + 1, n as int),
            forall|j: int| i + 1 <= j < k ==> is_digit(#[trigger] text@[j]),
            value as nat == decimal_value(text@.subrange(i + 1, k as int)),
            value < 1000,
            k - (i + 1) <= 2 ==> value < 100,
            k - (i + 1) <= 1 ==> value < 10,
            k - (i + 1) == 0 ==> value == 0,
        decreases n - k,
    {
        let b = text[k];
        if b < 0x30 || b > 0x39 {
            assert(!is_digit(digits[k - (i + 1)]));
            return Err(NetworkError::BadPrefix);
        }
        proof {
            assert(text@.subrange(i + 1, k + 1).drop_last() =~= text@.subrange(i + 1, k as int));
        }
        value = value * 10 + (b - 0x30) as u32;
        k = k + 1;
    }
    proof {
        assert(text@.subrange(i + 1, k as int) =~= digits);
        assert forall|j: int| 0 <= j < digits.len() implies is_digit(#[trigger] digits[j]) by {
            assert(digits[j] == text@[i + 1 + j]);
        }
    }
    if value > 255 {
        return Err(NetworkError::BadPrefix);
    }
    Ok((i, value as u8))
}

} // verus!
