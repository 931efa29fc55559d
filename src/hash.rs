use vstd::prelude::*;

use crate::generator::Batch;

verus! {

/// The mixing function of the hash: the finalizer of the SplitMix64 generator,
/// applied to the candidate.
pub open spec fn spec_mix(c: u64) -> u64 {
    let z = c.wrapping_add(0x9E3779B97F4A7C15u64);
    let z = (z ^ (z >> 30u64)).wrapping_mul(0xBF58476D1CE4E5B9u64);
    let z = (z ^ (z >> 27u64)).wrapping_mul(0x94D049BB133111EBu64);
    z ^ (z >> 31u64)
}

/// The lowercase hexadecimal digit of `n`, for `n < 16`.
pub open spec fn hex_digit(n: u64) -> char {
    seq!['0', '1', '2', '3', '4', '5', '6', '7', '8', '9', 'a', 'b', 'c', 'd', 'e', 'f'][n as int]
}

/// The sixteen hexadecimal digits of `x`, most significant first.
pub open spec fn hex_text(x: u64) -> Seq<char> {
    Seq::new(16, |i: int| hex_digit((x >> ((60 - 4 * i) as u64)) & 15u64))
}

/// The hash text of a candidate.
pub open spec fn hash_of(c: u64) -> Seq<char> {
    hex_text(spec_mix(c))
}

pub fn mix(c: u64) -> (r: u64)
    ensures
        r == spec_mix(c),
{
    let z = c.wrapping_add(0x9E3779B97F4A7C15u64);
    let z = (z ^ (z >> 30u64)).wrapping_mul(0xBF58476D1CE4E5B9u64);
    let z = (z ^ (z >> 27u64)).wrapping_mul(0x94D049BB133111EBu64);
    z ^ (z >> 31u64)
}

fn digit_str(n: u64) -> (s: &'static str)
    requires
        n < 16,
    ensures
        s@ == seq![hex_digit(n)],
{
    if n == 0 {
        proof {
            reveal_strlit("0");
        }
        "0"
    } else if n == 1 {
        proof {
            reveal_strlit("1");
        }
        "1"
    } else if n == 2 {
        proof {
            reveal_strlit("2");
        }
        "2"
    } else if n == 3 {
        proof {
            reveal_strlit("3");
        }
        "3"
    } else if n == 4 {
        proof {
            reveal_strlit("4");
        }
        "4"
    } else if n == 5 {
        proof {
            reveal_strlit("5");
        }
        "5"
    } else if n == 6 {
        proof {
            reveal_strlit("6");
        }
        "6"
    } else if n == 7 {
        proof {
            reveal_strlit("7");
        }
        "7"
    } else if n == 8 {
        proof {
            reveal_strlit("8");
        }
        "8"
    } else if n == 9 {
        proof {
            reveal_strlit("9");
        }
        "9"
    } else if n == 10 {
        proof {
            reveal_strlit("a");
        }
        "a"
    } else if n == 11 {
        proof {
            reveal_strlit("b");
        }
        "b"
    } else if n == 12 {
        proof {
            reveal_strlit("c");
        }
        "c"
    } else if n == 13 {
        proof {
            reveal_strlit("d");
        }
        "d"
    } else if n == 14 {
        proof {
            reveal_strlit("e");
        }
        "e"
    } else {
        proof {
            reveal_strlit("f");
        }
        "f"
    }
}

/// Writes `x` as sixteen lowercase hexadecimal digits.
pub fn hex(x: u64) -> (r: String)
    ensures
        r@ == hex_text(x),
{
    let mut s = String::new();
    let mut i: u64 = 0;
    while i < 16
        invariant
            i <= 16,
            s@ == hex_text(x).take(i as int),
        decreases 16 - i,
    {
        let shift: u64 = 60 - 4 * i;
        let d = (x >> shift) & 15u64;
        assert(((x >> shift) & 15u64) < 16) by (bit_vector);
        s.append(digit_str(d));
        assert(s@ =~= hex_text(x).take(i + 1));
        i = i + 1;
    }
    assert(s@ =~= hex_text(x));
    s
}

/// The hash text of the candidate `c`.
pub fn hash_text(c: u64) -> (r: String)
    ensures
        r@ == hash_of(c),
{
    hex(mix(c))
}

/// The hash texts of the candidates of a batch, in order: what a CPU worker computes.
pub fn hash_batch(b: Batch) -> (r: Vec<String>)
    requires
        b.start + b.len <= u64::MAX,
    ensures
        r@.len() == b.len,
        forall|i: int| 0 <= i < b.len ==> (#[trigger] r@[i])@ == hash_of((b.start + i) as u64),
{
    let mut r: Vec<String> = Vec::new();
    let mut i: u64 = 0;
    while i < b.len
        invariant
            i <= b.len,
            b.start + b.len <= u64::MAX,
            r@.len() == i,
            forall|j: int| 0 <= j < i ==> (#[trigger] r@[j])@ == hash_of((b.start + j) as u64),
        decreases b.len - i,
    {
        r.push(hash_text(b.start + i));
        i = i + 1;
    }
    r
}

} // verus!
