//! Deterministic flag derivation for the local backend: a keyed
//! derivation computed from the tick and the payload alone, with no
//! round trip to a controller. The key is fixed and the derivation is
//! deterministic; it makes no cryptographic claim.

use vstd::prelude::*;
use crate::codec::{dec_digits, digit_char, digit_to_char, u32_dec_chars, chars_to_string};

verus! {

/// The fixed key folded into the derivation, byte by position.
pub open spec fn flag_key(i: int) -> u8 {
    if i % 4 == 0 { 0x5a } else if i % 4 == 1 { 0xc3 } else if i % 4 == 2 { 0x96 } else { 0x3c }
}

/// The payload under the key.
pub open spec fn keyed(payload: Seq<u8>) -> Seq<u8> {
    Seq::new(payload.len(), |i: int| payload[i] ^ flag_key(i))
}

/// Lower-case hex rendering of a byte sequence.
pub open spec fn hex_bytes(bs: Seq<u8>) -> Seq<char>
    decreases bs.len(),
{
    if bs.len() == 0 {
        Seq::empty()
    } else {
        hex_bytes(bs.drop_last()) + seq![
            digit_char((bs.last() / 16) as nat),
            digit_char((bs.last() % 16) as nat),
        ]
    }
}

/// The flag derived for a tick and payload.
pub open spec fn flag_text(tick: nat, payload: Seq<u8>) -> Seq<char> {
    "FLAG_"@ + dec_digits(tick) + "_"@ + hex_bytes(keyed(payload))
}

/// Derives the flag for a tick and payload.
pub fn gen_flag(tick: u32, payload: &Vec<u8>) -> (r: String)
    ensures
        r@ == flag_text(tick as nat, payload@),
{
    let mut v: Vec<char> = Vec::new();
    v.push('F'); v.push('L'); v.push('A'); v.push('G'); v.push('_');
    proof {
        reveal_strlit("FLAG_");
        assert(v@ =~= "FLAG_"@);
    }
    let mut dec = u32_dec_chars(tick);
    v.append(&mut dec);
    v.push('_');
    proof {
        reveal_strlit("_");
        assert(v@ =~= "FLAG_"@ + dec_digits(tick as nat) + "_"@);
        assert(keyed(payload@).subrange(0, 0) =~= Seq::<u8>::empty());
    }
    let n = payload.len();
    let mut i: usize = 0;
    while i < n
        invariant
            i <= n,
            n == payload@.len(),
            v@ == "FLAG_"@ + dec_digits(tick as nat) + "_"@ + hex_bytes(
                keyed(payload@).subrange(0, i as int),
            ),
        decreases n - i,
    {
        let b = payload[i];
        let kb: u8 = match i % 4 {
            0 => 0x5a,
            1 => 0xc3,
            2 => 0x96,
            _ => 0x3c,
        };
        let x = b ^ kb;
        v.push(digit_to_char((x / 16) as u32));
        v.push(digit_to_char((x % 16) as u32));
        proof {
            assert(kb == flag_key(i as int));
            let kp = keyed(payload@);
            assert(kp[i as int] == x);
            let sub1 = kp.subrange(0, i as int + 1);
            assert(sub1.drop_last() =~= kp.subrange(0, i as int));
            assert(sub1.last() == kp[i as int]);
            assert(v@ =~= "FLAG_"@ + dec_digits(tick as nat) + "_"@ + hex_bytes(sub1));
        }
        i = i + 1;
    }
    proof { assert(keyed(payload@).subrange(0, n as int) =~= keyed(payload@)); }
    chars_to_string(&v)
}

} // verus!
