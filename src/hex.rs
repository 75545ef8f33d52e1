use vstd::prelude::*;

verus! {

pub open spec fn is_hex_digit(b: u8) -> bool {
    (0x30 <= b <= 0x39) || (0x61 <= b <= 0x66) || (0x41 <= b <= 0x46)
}

pub open spec fn hex_digit_value(b: u8) -> nat {
    if 0x30 <= b <= 0x39 {
        (b - 0x30) as nat
    } else if 0x61 <= b <= 0x66 {
        (b - 0x61 + 10) as nat
    } else {
        (b - 0x41 + 10) as nat
    }
}

/// The number that the hex digits `digits` spell, most significant first.
pub open spec fn hex_value(digits: Seq<u8>) -> nat
    decreases digits.len(),
{
    if digits.len() == 0 {
        0
    } else {
        hex_value(digits.drop_last()) * 16 + hex_digit_value(digits.last())
    }
}

pub open spec fn pow16(n: nat) -> nat
    decreases n,
{
    if n == 0 {
        1
    } else {
        16 * pow16((n - 1) as nat)
    }
}

/// `text` is `0x` followed by 1 to 32 hex digits.
pub open spec fn is_hex_address(text: Seq<u8>) -> bool {
    &&& 3 <= text.len() <= 34
    &&& text[0] == 0x30
    &&& text[1] == 0x78
    &&& forall|i: int| 2 <= i < text.len() ==> is_hex_digit(#[trigger] text[i])
}

proof fn lemma_pow16_mono(i: nat, j: nat)
    requires
        i <= j,
    ensures
        pow16(i) <= pow16(j),
    decreases j,
{
    if i < j {
        lemma_pow16_mono(i, (j - 1) as nat);
    }
}

/// The IPv6 address written as `0x` and hex digits, as rule files and the
/// persistent store may write it; `None` for any other text.
pub fn parse_hex_address(text: &[u8]) -> (r: Option<u128>)
    ensures
        is_hex_address(text@) ==> r == Some(hex_value(text@.subrange(2, text@.len() as int)) as u128),
        !is_hex_address(text@) ==> r is None,
{
    let n = text.len();
    if n < 3 || n > 34 || text[0] != 0x30 || text[1] != 0x78 {
        return None;
    }
    let mut acc: u128 = 0;
    let mut i: usize = 2;
    proof {
        lemma_pow16_mono((n - 2) as nat, 32);
        reveal_with_fuel(pow16, 33);
        assert(pow16(32) == 0x1_0000_0000_0000_0000_0000_0000_0000_0000);
        assert(text@.subrange(2, 2) =~= Seq::<u8>::empty());
    }
    while i < n
        invariant
            n == text@.len(),
            3 <= n <= 34,
            2 <= i <= n,
            forall|j: int| 2 <= j < i ==> is_hex_digit(#[trigger] text@[j]),
            acc as nat == hex_value(text@.subrange(2, i as int)),
            acc < pow16((i - 2) as nat),
            pow16((n - 2) as nat) <= 0x1_0000_0000_0000_0000_0000_0000_0000_0000,
        decreases n - i,
    {
        let b = text[i];
        let d: u128 = if 0x30 <= b && b <= 0x39 {
            (b - 0x30) as u128
        } else if 0x61 <= b && b <= 0x66 {
            (b - 0x61 + 10) as u128
        } else if 0x41 <= b && b <= 0x46 {
            (b - 0x41 + 10) as u128
        } else {
            assert(!is_hex_address(text@));
            return None;
        };
        proof {
            let s = text@.subrange(2, i + 1);
            assert(s.drop_last() =~= text@.subrange(2, i as int));
            lemma_pow16_mono((i + 1 - 2) as nat, (n - 2) as nat);
            assert(acc * 16 + d < 16 * pow16((i - 2) as nat)) by (nonlinear_arith)
                requires
                    acc < pow16((i - 2) as nat),
                    d < 16,
            ;
        }
        acc = acc * 16 + d;
        i = i + 1;
    }
    Some(acc)
}

} // verus!
