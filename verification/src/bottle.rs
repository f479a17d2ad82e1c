//! Bottles: the messages agents exchange, held as plain values, and the
//! ternary charge (trit sum) that they carry.
use vstd::prelude::*;

verus! {

/// Ternary digit.
pub type Trit = i8;

/// A bottle: an envelope with source, target, action and trits, carrying an
/// encoded payload. The fields mirror the wire bottle of `superinstance_protocol`,
/// with the bottle's UUID held as its 128-bit value.
#[derive(Debug, Clone, PartialEq, Eq)]
pub struct Bottle {
    pub id: u128,
    pub ver: u32,
    pub src: String,
    pub tgt: String,
    pub act: String,
    pub trits: Vec<i8>,
    /// Encoding identifier (always "msgpack").
    pub enc: String,
    /// Base64 text of the msgpack-encoded payload.
    pub pay: String,
    pub ttl: u32,
}

/// The exact sum of a sequence of trits.
pub open spec fn trit_total(trits: Seq<i8>) -> int
    decreases trits.len(),
{
    if trits.len() == 0 {
        0
    } else {
        trit_total(trits.drop_last()) + trits.last() as int
    }
}

/// Whether an integer is a value of `i32`.
pub open spec fn fits_i32(x: int) -> bool {
    i32::MIN <= x <= i32::MAX
}

/// The trit sum of a concatenation is the sum of the trit sums.
pub proof fn lemma_trit_total_concat(a: Seq<i8>, b: Seq<i8>)
    ensures
        trit_total(a + b) == trit_total(a) + trit_total(b),
    decreases b.len(),
{
    if b.len() == 0 {
        assert(a + b =~= a);
    } else {
        lemma_trit_total_concat(a, b.drop_last());
        assert((a + b).drop_last() =~= a + b.drop_last());
    }
}

/// The text that `superinstance_protocol` stores in a bottle's `pay` field for
/// raw payload bytes: the base64 text of their msgpack encoding.
pub uninterp spec fn raw_payload_pay(raw: Seq<u8>) -> Seq<char>;

/// `superinstance_protocol::Bottle::new_raw`, with its result taken apart into
/// the library's bottle. The contract claims what that function's source shows:
/// version 1, the given source, target, action, trits and TTL, encoding
/// "msgpack", and a payload field that depends on the payload bytes alone. The
/// id is a fresh UUIDv7 made from the clock and random bits, so nothing is
/// claimed of it.
#[verifier::external_body]
fn wire_new_raw(src: &str, tgt: &str, act: &str, trits: Vec<i8>, raw_payload: Vec<u8>, ttl: u32) -> (b: Bottle)
    ensures
        b.ver == 1,
        b.src@ == src@,
        b.tgt@ == tgt@,
        b.act@ == act@,
        b.trits@ == trits@,
        b.enc@ == "msgpack"@,
        b.pay@ == raw_payload_pay(raw_payload@),
        b.ttl == ttl,
{
    let w = superinstance_protocol::Bottle::new_raw(src, tgt, act, trits, raw_payload, ttl);
    Bottle { id: w.id.as_u128(), ver: w.ver, src: w.src, tgt: w.tgt, act: w.act, trits: w.trits, enc: w.enc, pay: w.pay, ttl: w.ttl }
}

/// `superinstance_protocol::Bottle::new_empty`, with its result taken apart into
/// the library's bottle. The contract claims what that function's source shows:
/// version 1, the given source, target, action, trits and TTL, encoding
/// "msgpack", and as payload the base64 text "wA==" of the msgpack nil that
/// encodes `()`. The id is a fresh UUIDv7 made from the clock and random bits,
/// so nothing is claimed of it.
#[verifier::external_body]
fn wire_new_empty(src: &str, tgt: &str, act: &str, trits: Vec<i8>, ttl: u32) -> (b: Bottle)
    ensures
        b.ver == 1,
        b.src@ == src@,
        b.tgt@ == tgt@,
        b.act@ == act@,
        b.trits@ == trits@,
        b.enc@ == "msgpack"@,
        b.pay@ == "wA=="@,
        b.ttl == ttl,
{
    let w = superinstance_protocol::Bottle::new_empty(src, tgt, act, trits, ttl);
    Bottle { id: w.id.as_u128(), ver: w.ver, src: w.src, tgt: w.tgt, act: w.act, trits: w.trits, enc: w.enc, pay: w.pay, ttl: w.ttl }
}

/// The exact sum of a vector of trits, which no vector of `i8` can make
/// overflow an `i128`.
pub fn exact_total(trits: &Vec<i8>) -> (r: i128)
    ensures
        r == trit_total(trits@),
{
    let mut sum: i128 = 0;
    let mut i: usize = 0;
    while i < trits.len()
        invariant
            0 <= i <= trits@.len(),
            sum == trit_total(trits@.subrange(0, i as int)),
            -128 * i <= sum <= 127 * i,
        decreases trits@.len() - i,
    {
        proof {
            assert(trits@.subrange(0, i + 1).drop_last() =~= trits@.subrange(0, i as int));
        }
        sum = sum + trits[i] as i128;
        i = i + 1;
    }
    assert(trits@.subrange(0, i as int) =~= trits@);
    sum
}

impl Bottle {
    /// Creates a bottle carrying raw payload bytes, with a fresh id.
    pub fn new_raw(src: &str, tgt: &str, act: &str, trits: Vec<i8>, raw_payload: Vec<u8>, ttl: u32) -> (b: Bottle)
        ensures
            b.ver == 1,
            b.src@ == src@,
            b.tgt@ == tgt@,
            b.act@ == act@,
            b.trits@ == trits@,
            b.enc@ == "msgpack"@,
            b.pay@ == raw_payload_pay(raw_payload@),
            b.ttl == ttl,
    {
        wire_new_raw(src, tgt, act, trits, raw_payload, ttl)
    }

    /// Creates a bottle with no structured payload, with a fresh id.
    pub fn new_empty(src: &str, tgt: &str, act: &str, trits: Vec<i8>, ttl: u32) -> (b: Bottle)
        ensures
            b.ver == 1,
            b.src@ == src@,
            b.tgt@ == tgt@,
            b.act@ == act@,
            b.trits@ == trits@,
            b.enc@ == "msgpack"@,
            b.pay@ == "wA=="@,
            b.ttl == ttl,
    {
        wire_new_empty(src, tgt, act, trits, ttl)
    }

    /// The exact sum of this bottle's trits.
    pub fn exact_trit_sum(&self) -> (r: i128)
        ensures
            r == trit_total(self.trits@),
    {
        exact_total(&self.trits)
    }

    /// The ternary sum of this bottle's trits.
    pub fn trit_sum(&self) -> (r: i32)
        requires
            fits_i32(trit_total(self.trits@)),
        ensures
            r == trit_total(self.trits@),
    {
        self.exact_trit_sum() as i32
    }

    /// The ternary sum of this bottle's trits, or `None` where it is not an `i32`.
    pub fn checked_trit_sum(&self) -> (r: Option<i32>)
        ensures
            r matches Some(s) ==> s == trit_total(self.trits@),
            r is None <==> !fits_i32(trit_total(self.trits@)),
    {
        let total = self.exact_trit_sum();
        if i32::MIN as i128 <= total && total <= i32::MAX as i128 {
            Some(total as i32)
        } else {
            None
        }
    }
}

/// A strict audit's finding: the trit sum expected and the one found.
#[derive(Debug, Clone, Copy, PartialEq, Eq, Structural)]
pub struct ConservationError {
    pub expected: i32,
    pub actual: i32,
}

/// Strict audit: `Ok` when the output carries the input's trit sum, and
/// otherwise an error naming both sums.
pub fn audit_strict(input: &Bottle, output: &Bottle) -> (r: Result<(), ConservationError>)
    requires
        fits_i32(trit_total(input.trits@)),
        fits_i32(trit_total(output.trits@)),
    ensures
        r == (if trit_total(input.trits@) == trit_total(output.trits@) {
            Ok::<(), ConservationError>(())
        } else {
            Err(ConservationError {
                expected: trit_total(input.trits@) as i32,
                actual: trit_total(output.trits@) as i32,
            })
        }),
{
    let expected = input.trit_sum();
    let actual = output.trit_sum();
    if expected == actual {
        Ok(())
    } else {
        Err(ConservationError { expected, actual })
    }
}

/// Whether the ternary charge is conserved between an input and an output
/// bottle: `true` exactly when their trit sums are equal.
pub fn audit(input: &Bottle, output: &Bottle) -> (r: bool)
    requires
        fits_i32(trit_total(input.trits@)),
        fits_i32(trit_total(output.trits@)),
    ensures
        r == (trit_total(input.trits@) == trit_total(output.trits@)),
{
    input.trit_sum() == output.trit_sum()
}

} // verus!
