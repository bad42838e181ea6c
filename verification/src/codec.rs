//! The pluggable wire codecs: a value is turned into the byte payload of one
//! frame and back. Two wire formats are offered, selected at construction
//! time: a fixed-width big-endian binary layout and a JSON object layout.
//! Both directions are total functions of the bytes alone, and decoding the
//! encoding of any value gives that value back.

use vstd::prelude::*;

verus! {

/// Which wire format a channel uses for its values.
#[derive(Clone, Copy, Debug, PartialEq, Eq, Structural)]
pub enum Codec {
    /// Eight bytes, most significant first.
    Binary,
    /// The ASCII bytes of `{"id":N}` with `N` in decimal.
    Json,
}

pub open spec fn binary_encode_spec(v: u64) -> Seq<u8> {
    let q1 = v / 256;
    let q2 = q1 / 256;
    let q3 = q2 / 256;
    let q4 = q3 / 256;
    let q5 = q4 / 256;
    let q6 = q5 / 256;
    let q7 = q6 / 256;
    seq![
        (q7 % 256) as u8,
        (q6 % 256) as u8,
        (q5 % 256) as u8,
        (q4 % 256) as u8,
        (q3 % 256) as u8,
        (q2 % 256) as u8,
        (q1 % 256) as u8,
        (v % 256) as u8,
    ]
}

/// The value carried by an eight-byte big-endian payload.
pub open spec fn binary_value(s: Seq<u8>) -> int {
    let a1 = s[0] * 256 + s[1];
    let a2 = a1 * 256 + s[2];
    let a3 = a2 * 256 + s[3];
    let a4 = a3 * 256 + s[4];
    let a5 = a4 * 256 + s[5];
    let a6 = a5 * 256 + s[6];
    a6 * 256 + s[7]
}

pub open spec fn binary_decode_spec(s: Seq<u8>) -> Result<u64, crate::errors::DecodeError> {
    if s.len() != 8 {
        Err(crate::errors::DecodeError::BadLength)
    } else {
        Ok(binary_value(s) as u64)
    }
}

/// The decimal digits of `v`, most significant first, with no leading zero
/// except for the single digit of zero itself.
pub open spec fn dec_digits(v: nat) -> Seq<u8>
    decreases v,
{
    if v < 10 {
        seq![(48 + v) as u8]
    } else {
        dec_digits(v / 10).push((48 + v % 10) as u8)
    }
}

pub open spec fn json_prefix() -> Seq<u8> {
    seq![123u8, 34u8, 105u8, 100u8, 34u8, 58u8]
}

pub open spec fn json_encode_spec(v: u64) -> Seq<u8> {
    json_prefix() + dec_digits(v as nat) + seq![125u8]
}

pub open spec fn is_dec_digit(b: u8) -> bool {
    48 <= b && b <= 57
}

pub open spec fn all_dec_digits(s: Seq<u8>) -> bool {
    forall|i: int| 0 <= i < s.len() ==> is_dec_digit(#[trigger] s[i])
}

/// Folds decimal digits into a value, left to right, failing once the value
/// would no longer fit in the value type.
pub open spec fn dec_fold(s: Seq<u8>, acc: u64) -> Option<u64>
    decreases s.len(),
{
    if s.len() == 0 {
        Some(acc)
    } else {
        let d = (s[0] - 48) as u64;
        if acc * 10 + d > u64::MAX {
            None
        } else {
            dec_fold(s.skip(1), (acc * 10 + d) as u64)
        }
    }
}

pub open spec fn json_decode_spec(s: Seq<u8>) -> Result<u64, crate::errors::DecodeError> {
    if s.len() < 8 || s.take(6) != json_prefix() || s[s.len() - 1] != 125 || !all_dec_digits(
        s.subrange(6, s.len() - 1),
    ) {
        Err(crate::errors::DecodeError::BadSyntax)
    } else {
        match dec_fold(s.subrange(6, s.len() - 1), 0) {
            None => Err(crate::errors::DecodeError::Overflow),
            Some(v) => Ok(v),
        }
    }
}

pub open spec fn encode_spec(c: Codec, v: u64) -> Seq<u8> {
    match c {
        Codec::Binary => binary_encode_spec(v),
        Codec::Json => json_encode_spec(v),
    }
}

pub open spec fn decode_spec(c: Codec, s: Seq<u8>) -> Result<u64, crate::errors::DecodeError> {
    match c {
        Codec::Binary => binary_decode_spec(s),
        Codec::Json => json_decode_spec(s),
    }
}

pub open spec fn pow10(n: nat) -> nat
    decreases n,
{
    if n == 0 {
        1
    } else {
        10 * pow10((n - 1) as nat)
    }
}

proof fn lemma_dec_digits_len(v: nat, n: nat)
    requires
        1 <= n,
        v < pow10(n),
    ensures
        1 <= dec_digits(v).len() <= n,
    decreases n,
{
    if v < 10 {
    } else {
        assert(pow10(n) == 10 * pow10((n - 1) as nat));
        assert(v / 10 < pow10((n - 1) as nat)) by {
            assert(v < 10 * pow10((n - 1) as nat));
        };
        assert(n - 1 >= 1) by {
            if n == 1 {
                assert(pow10(1nat) == 10);
            }
        };
        lemma_dec_digits_len(v / 10, (n - 1) as nat);
    }
}

/// The decimal form of a value of the value type has at most 20 digits.
pub proof fn lemma_dec_digits_len_u64(v: u64)
    ensures
        1 <= dec_digits(v as nat).len() <= 20,
{
    reveal_with_fuel(pow10, 21);
    assert(pow10(20) == 100000000000000000000);
    lemma_dec_digits_len(v as nat, 20);
}

proof fn lemma_all_dec_digits(v: nat)
    ensures
        all_dec_digits(dec_digits(v)),
    decreases v,
{
    if v < 10 {
    } else {
        lemma_all_dec_digits(v / 10);
    }
}

proof fn lemma_dec_fold_push(s: Seq<u8>, d: u8, acc: u64)
    requires
        is_dec_digit(d),
        all_dec_digits(s),
    ensures
        dec_fold(s.push(d), acc) == match dec_fold(s, acc) {
            None => None::<u64>,
            Some(x) => if x * 10 + (d - 48) > u64::MAX {
                None::<u64>
            } else {
                Some((x * 10 + (d - 48)) as u64)
            },
        },
    decreases s.len(),
{
    if s.len() == 0 {
        assert(s.push(d)[0] == d);
        assert(s.push(d).skip(1) =~= Seq::<u8>::empty());
    } else {
        assert(s.push(d)[0] == s[0]);
        let d0 = (s[0] - 48) as u64;
        if acc * 10 + d0 > u64::MAX {
        } else {
            assert(s.push(d).skip(1) =~= s.skip(1).push(d));
            assert(all_dec_digits(s.skip(1))) by {
                assert(forall|i: int|
                    0 <= i < s.skip(1).len() ==> s.skip(1)[i] == #[trigger] s[i + 1]);
            };
            lemma_dec_fold_push(s.skip(1), d, (acc * 10 + d0) as u64);
        }
    }
}

proof fn lemma_dec_fold_digits(v: u64)
    ensures
        dec_fold(dec_digits(v as nat), 0) == Some(v),
    decreases v,
{
    if v < 10 {
        let s = dec_digits(v as nat);
        assert(s == seq![(48 + v) as u8]);
        assert(s.skip(1) =~= Seq::<u8>::empty());
        assert(s[0] == (48 + v) as u8);
        assert((s[0] - 48) as u64 == v);
        assert(dec_fold(s, 0) == dec_fold(s.skip(1), v));
        assert(dec_fold(s.skip(1), v) == Some(v));
    } else {
        let digits10 = dec_digits((v / 10) as nat);
        let d = (48 + v % 10) as u8;
        assert(dec_digits(v as nat) == digits10.push(d));
        lemma_dec_fold_digits(v / 10);
        lemma_all_dec_digits((v / 10) as nat);
        lemma_dec_fold_push(digits10, d, 0);
        assert((d - 48) as int == v % 10);
        assert((v / 10) * 10 + v % 10 == v);
        assert(dec_fold(digits10.push(d), 0) == Some(v));
    }
}

/// Every wire form is short: at most the JSON delimiters plus twenty
/// digits.
pub proof fn lemma_encode_spec_len(c: Codec, v: u64)
    ensures
        1 <= encode_spec(c, v).len() <= 27,
{
    match c {
        Codec::Binary => {},
        Codec::Json => {
            lemma_dec_digits_len_u64(v);
        },
    }
}

/// Round-trip law of the codecs: decoding the encoding of any value gives
/// that value back, under either wire format. The byte functions take no
/// peer identity, so the law holds independently of which peer sent the
/// frame.
pub proof fn lemma_codec_round_trip(c: Codec, v: u64)
    ensures
        decode_spec(c, encode_spec(c, v)) == Ok::<u64, crate::errors::DecodeError>(v),
{
    match c {
        Codec::Binary => {
            let s = binary_encode_spec(v);
            let q1 = v / 256;
            let q2 = q1 / 256;
            let q3 = q2 / 256;
            let q4 = q3 / 256;
            let q5 = q4 / 256;
            let q6 = q5 / 256;
            let q7 = q6 / 256;
            assert(q7 * 256 + q6 % 256 == q6);
            assert(q6 * 256 + q5 % 256 == q5);
            assert(q5 * 256 + q4 % 256 == q4);
            assert(q4 * 256 + q3 % 256 == q3);
            assert(q3 * 256 + q2 % 256 == q2);
            assert(q2 * 256 + q1 % 256 == q1);
            assert(q1 * 256 + v % 256 == v);
            assert(q7 < 256);
            assert(s[0] == q7 % 256 && q7 % 256 == q7);
        },
        Codec::Json => {
            let s = json_encode_spec(v);
            let digits = dec_digits(v as nat);
            lemma_dec_digits_len_u64(v);
            lemma_all_dec_digits(v as nat);
            lemma_dec_fold_digits(v);
            assert(s.len() >= 8);
            assert(s.take(6) =~= json_prefix());
            assert(s[s.len() - 1] == 125);
            assert(s.subrange(6, s.len() - 1) =~= digits);
        },
    }
}

impl Codec {
    /// Encodes one value into the byte payload of one frame. Total: for the
    /// formats offered here every value of the value type has a wire form.
    pub fn encode(&self, v: u64) -> (r: Vec<u8>)
        ensures
            r@ == encode_spec(*self, v),
            r@.len() <= 27,
    {
        match self {
            Codec::Binary => {
                let q1: u64 = v / 256;
                let q2: u64 = q1 / 256;
                let q3: u64 = q2 / 256;
                let q4: u64 = q3 / 256;
                let q5: u64 = q4 / 256;
                let q6: u64 = q5 / 256;
                let q7: u64 = q6 / 256;
                let r: Vec<u8> = vec![
                    (q7 % 256) as u8,
                    (q6 % 256) as u8,
                    (q5 % 256) as u8,
                    (q4 % 256) as u8,
                    (q3 % 256) as u8,
                    (q2 % 256) as u8,
                    (q1 % 256) as u8,
                    (v % 256) as u8,
                ];
                proof {
                    assert(r@ =~= binary_encode_spec(v));
                }
                r
            },
            Codec::Json => {
                let mut r: Vec<u8> = vec![123u8, 34u8, 105u8, 100u8, 34u8, 58u8];
                proof {
                    assert(r@ =~= json_prefix());
                }
                push_dec_digits(v, &mut r);
                r.push(125u8);
                proof {
                    lemma_dec_digits_len_u64(v);
                    assert(r@ =~= json_encode_spec(v));
                }
                r
            },
        }
    }

    /// Decodes the byte payload of one frame back into a value; rejects
    /// malformed payloads without consuming anything.
    pub fn decode(&self, s: &Vec<u8>) -> (r: Result<u64, crate::errors::DecodeError>)
        ensures
            r == decode_spec(*self, s@),
    {
        match self {
            Codec::Binary => binary_decode(s),
            Codec::Json => json_decode(s),
        }
    }
}

/// Appends the decimal digits of `v`, most significant first.
fn push_dec_digits(v: u64, out: &mut Vec<u8>)
    ensures
        final(out)@ == old(out)@ + dec_digits(v as nat),
    decreases v,
{
    if v < 10 {
        out.push(48 + v as u8);
        proof {
            assert(out@ =~= old(out)@ + dec_digits(v as nat));
        }
    } else {
        push_dec_digits(v / 10, out);
        out.push(48 + (v % 10) as u8);
        proof {
            assert(out@ =~= old(out)@ + dec_digits(v as nat));
        }
    }
}

fn binary_decode(s: &Vec<u8>) -> (r: Result<u64, crate::errors::DecodeError>)
    ensures
        r == binary_decode_spec(s@),
{
    if s.len() != 8 {
        return Err(crate::errors::DecodeError::BadLength);
    }
    let a0: u64 = s[0] as u64;
    let a1: u64 = a0 * 256 + s[1] as u64;
    let a2: u64 = a1 * 256 + s[2] as u64;
    let a3: u64 = a2 * 256 + s[3] as u64;
    let a4: u64 = a3 * 256 + s[4] as u64;
    let a5: u64 = a4 * 256 + s[5] as u64;
    let a6: u64 = a5 * 256 + s[6] as u64;
    let a7: u64 = a6 * 256 + s[7] as u64;
    Ok(a7)
}

fn json_decode(s: &Vec<u8>) -> (r: Result<u64, crate::errors::DecodeError>)
    ensures
        r == json_decode_spec(s@),
{
    let n = s.len();
    if n < 8 {
        return Err(crate::errors::DecodeError::BadSyntax);
    }
    if !(s[0] == 123 && s[1] == 34 && s[2] == 105 && s[3] == 100 && s[4] == 34 && s[5] == 58) {
        proof {
            assert(s@.take(6) != json_prefix()) by {
                if s@.take(6) == json_prefix() {
                    assert(s@[0] == 123 && s@[1] == 34 && s@[2] == 105 && s@[3] == 100 && s@[4]
                        == 34 && s@[5] == 58) by {
                        assert(forall|i: int|
                            0 <= i < 6 ==> s@.take(6)[i] == #[trigger] s@[i]);
                    };
                }
            };
        }
        return Err(crate::errors::DecodeError::BadSyntax);
    }
    proof {
        assert(s@.take(6) =~= json_prefix());
    }
    if s[n - 1] != 125 {
        return Err(crate::errors::DecodeError::BadSyntax);
    }
    let ghost mid = s@.subrange(6, s@.len() - 1);
    if n == 7 {
        // unreachable given n >= 8, but keeps the index arithmetic total
        return Err(crate::errors::DecodeError::BadSyntax);
    }
    let mut i: usize = 6;
    while i < n - 1
        invariant
            6 <= i <= n - 1,
            n == s@.len(),
            8 <= n,
            mid == s@.subrange(6, s@.len() - 1),
            forall|j: int| 6 <= j < i ==> is_dec_digit(#[trigger] s@[j]),
        decreases n - 1 - i,
    {
        let b = s[i];
        if !(48 <= b && b <= 57) {
            proof {
                assert(mid[i - 6] == s@[i as int]);
                assert(!all_dec_digits(mid));
            }
            return Err(crate::errors::DecodeError::BadSyntax);
        }
        i = i + 1;
    }
    proof {
        assert(all_dec_digits(mid)) by {
            assert(forall|j: int| 0 <= j < mid.len() ==> mid[j] == #[trigger] s@[j + 6]);
        };
    }
    let mut acc: u64 = 0;
    let mut k: usize = 6;
    proof {
        assert(mid.skip(0) =~= mid);
    }
    while k < n - 1
        invariant
            6 <= k <= n - 1,
            n == s@.len(),
            8 <= n,
            mid == s@.subrange(6, s@.len() - 1),
            s@.take(6) == json_prefix(),
            s@[s@.len() - 1] == 125,
            all_dec_digits(mid),
            dec_fold(mid, 0) == dec_fold(mid.skip(k - 6), acc),
        decreases n - 1 - k,
    {
        let b = s[k];
        proof {
            assert(mid[k - 6] == s@[k as int]);
            assert(is_dec_digit(mid[k - 6]));
        }
        let d: u64 = (b - 48) as u64;
        let step = match acc.checked_mul(10) {
            Some(x) => x.checked_add(d),
            None => None,
        };
        match step {
            None => {
                proof {
                    assert(mid.skip(k - 6)[0] == mid[k - 6]);
                    assert(acc * 10 + d > u64::MAX);
                    assert(dec_fold(mid.skip(k - 6), acc) == None::<u64>);
                }
                return Err(crate::errors::DecodeError::Overflow);
            },
            Some(x) => {
                proof {
                    assert(mid.skip(k - 6)[0] == mid[k - 6]);
                    assert(acc * 10 + d <= u64::MAX);
                    assert(mid.skip(k - 6).skip(1) =~= mid.skip(k - 6 + 1));
                }
                acc = x;
                k = k + 1;
            },
        }
    }
    proof {
        assert(mid.skip(k - 6) =~= Seq::<u8>::empty());
        assert(dec_fold(mid, 0) == Some(acc));
    }
    Ok(acc)
}

} // verus!
