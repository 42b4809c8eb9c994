//! Decoding of NEC infrared frames from captured pulse durations.
use vstd::prelude::*;

verus! {

/// Number of durations that a complete NEC frame occupies: the two header
/// phases and a low/high pair for each of the 32 data bits.
pub const FRAME_PULSES: usize = 66;

/// Why a pulse train was rejected.
#[derive(Debug, Clone, Copy, PartialEq, Eq, Structural)]
pub enum DecodeError {
    /// The train is too short, or its lead pulse or space is out of range.
    InvalidHeader,
    /// A data bit's low or high phase is out of range.
    InvalidBitTiming,
    /// A complement byte is not the bitwise inverse of its data byte.
    ChecksumMismatch,
}

/// A decoded remote-control frame.
#[derive(Debug, Clone, Copy, PartialEq, Eq, Structural)]
pub struct RemoteFrame {
    pub address: u8,
    pub command: u8,
}

pub open spec fn in_range(d: u32, lo: u32, hi: u32) -> bool {
    lo <= d <= hi
}

/// The 9 ms lead pulse and the 4.5 ms space.
pub open spec fn header_ok(p: Seq<u32>) -> bool {
    &&& in_range(p[0], 8500, 9500)
    &&& in_range(p[1], 4000, 5000)
}

pub open spec fn short_phase(d: u32) -> bool {
    in_range(d, 400, 700)
}

pub open spec fn long_phase(d: u32) -> bool {
    in_range(d, 1300, 1900)
}

/// Low phase of data bit `i`.
pub open spec fn low_of(p: Seq<u32>, i: int) -> u32 {
    p[2 + 2 * i]
}

/// High phase of data bit `i`.
pub open spec fn high_of(p: Seq<u32>, i: int) -> u32 {
    p[3 + 2 * i]
}

pub open spec fn bit_timing_ok(p: Seq<u32>, i: int) -> bool {
    short_phase(low_of(p, i)) && (long_phase(high_of(p, i)) || short_phase(high_of(p, i)))
}

pub open spec fn all_bits_ok(p: Seq<u32>) -> bool {
    forall|i: int| 0 <= i < 32 ==> #[trigger] bit_timing_ok(p, i)
}

/// Value of data bit `i`: a long high phase is a one.
pub open spec fn bit_of(p: Seq<u32>, i: int) -> int {
    if long_phase(high_of(p, i)) { 1 } else { 0 }
}

/// Value of the data bits `base + m .. base + 8`, least significant first.
pub open spec fn bits_from(p: Seq<u32>, base: int, m: int) -> int
    decreases 8 - m,
{
    if m >= 8 {
        0
    } else {
        bit_of(p, base + m) + 2 * bits_from(p, base, m + 1)
    }
}

/// Byte `k` (0 to 3) of the 32-bit frame word.
pub open spec fn byte_of(p: Seq<u32>, k: int) -> u8 {
    bits_from(p, 8 * k, 0) as u8
}

pub open spec fn checksum_ok(p: Seq<u32>) -> bool {
    &&& byte_of(p, 0) ^ byte_of(p, 1) == 0xFFu8
    &&& byte_of(p, 2) ^ byte_of(p, 3) == 0xFFu8
}

/// What a pulse train decodes to.
pub open spec fn decode_spec(p: Seq<u32>) -> Result<RemoteFrame, DecodeError> {
    if p.len() < 66 || !header_ok(p) {
        Err(DecodeError::InvalidHeader)
    } else if !all_bits_ok(p) {
        Err(DecodeError::InvalidBitTiming)
    } else if !checksum_ok(p) {
        Err(DecodeError::ChecksumMismatch)
    } else {
        Ok(RemoteFrame { address: byte_of(p, 0), command: byte_of(p, 2) })
    }
}

pub open spec fn pow2(n: int) -> int
    decreases n,
{
    if n <= 0 { 1 } else { 2 * pow2(n - 1) }
}

proof fn lemma_bits_from_bound(p: Seq<u32>, base: int, m: int)
    requires
        0 <= m <= 8,
    ensures
        0 <= bits_from(p, base, m) < pow2(8 - m),
    decreases 8 - m,
{
    if m < 8 {
        lemma_bits_from_bound(p, base, m + 1);
        assert(pow2(8 - m) == 2 * pow2(8 - (m + 1)));
    }
}

/// Assembles data byte `k` from the bits of a train whose timings are valid.
fn read_byte(pulses: &[u32], k: usize) -> (r: u8)
    requires
        pulses@.len() >= 66,
        k < 4,
    ensures
        r == byte_of(pulses@, k as int),
        r as int == bits_from(pulses@, 8 * k as int, 0),
{
    let base: usize = 8 * k;
    let mut acc: u32 = 0;
    let mut m: usize = 8;
    proof {
        lemma_bits_from_bound(pulses@, base as int, 0);
    }
    while m > 0
        invariant
            m <= 8,
            base == 8 * k,
            k < 4,
            pulses@.len() >= 66,
            acc as int == bits_from(pulses@, base as int, m as int),
            bits_from(pulses@, base as int, m as int) < pow2(8 - m as int),
        decreases m,
    {
        m = m - 1;
        proof {
            lemma_bits_from_bound(pulses@, base as int, m as int);
            assert(pow2(8 - m as int) <= 256) by {
                reveal_with_fuel(pow2, 9);
                lemma_pow2_mono(8 - m as int, 8);
            }
        }
        let high = pulses[3 + 2 * (base + m)];
        let bit: u32 = if 1300 <= high && high <= 1900 { 1 } else { 0 };
        acc = bit + 2 * acc;
    }
    proof {
        reveal_with_fuel(pow2, 9);
    }
    acc as u8
}

proof fn lemma_pow2_mono(a: int, b: int)
    requires
        0 <= a <= b,
    ensures
        pow2(a) <= pow2(b),
    decreases b - a,
{
    if a < b {
        lemma_pow2_mono(a, b - 1);
        lemma_pow2_pos(b - 1);
    }
}

proof fn lemma_pow2_pos(n: int)
    ensures
        pow2(n) >= 1,
    decreases n,
{
    if n > 0 {
        lemma_pow2_pos(n - 1);
    }
}

/// Decodes an NEC frame from alternating low/high durations in microseconds,
/// starting with the lead pulse.
pub fn decode_nec(pulses: &[u32]) -> (r: Result<RemoteFrame, DecodeError>)
    ensures
        r == decode_spec(pulses@),
        pulses@.len() < FRAME_PULSES ==> r == Err::<RemoteFrame, DecodeError>(
            DecodeError::InvalidHeader,
        ),
{
    if pulses.len() < FRAME_PULSES {
        return Err(DecodeError::InvalidHeader);
    }
    if !(8500 <= pulses[0] && pulses[0] <= 9500 && 4000 <= pulses[1] && pulses[1] <= 5000) {
        return Err(DecodeError::InvalidHeader);
    }
    let mut i: usize = 0;
    while i < 32
        invariant
            i <= 32,
            pulses@.len() >= 66,
            header_ok(pulses@),
            forall|j: int| 0 <= j < i ==> #[trigger] bit_timing_ok(pulses@, j),
        decreases 32 - i,
    {
        let low = pulses[2 + 2 * i];
        let high = pulses[3 + 2 * i];
        if !(400 <= low && low <= 700) || !((1300 <= high && high <= 1900) || (400 <= high
            && high <= 700)) {
            assert(!bit_timing_ok(pulses@, i as int));
            assert(!all_bits_ok(pulses@));
            return Err(DecodeError::InvalidBitTiming);
        }
        assert(bit_timing_ok(pulses@, i as int));
        i = i + 1;
    }
    let address = read_byte(pulses, 0);
    let address_inv = read_byte(pulses, 1);
    let command = read_byte(pulses, 2);
    let command_inv = read_byte(pulses, 3);
    if address ^ address_inv == 0xFF && command ^ command_inv == 0xFF {
        Ok(RemoteFrame { address, command })
    } else {
        Err(DecodeError::ChecksumMismatch)
    }
}

/// `a` shifted right by `m` bits.
pub open spec fn shr(a: int, m: int) -> int
    decreases m,
{
    if m <= 0 { a } else { shr(a, m - 1) / 2 }
}

/// High phase that a transmitter uses for bit `j` of byte `b`.
pub open spec fn nec_high(b: u8, j: int) -> u32 {
    if shr(b as int, j) % 2 == 1 { 1690 } else { 560 }
}

pub open spec fn frame_byte(a: u8, ac: u8, c: u8, cc: u8, k: int) -> u8 {
    if k == 0 { a } else if k == 1 { ac } else if k == 2 { c } else { cc }
}

/// The pulse train of a transmitted NEC frame with nominal timings: the
/// header, then for each of the 32 bits a 560 us low phase and a 560 us
/// (zero) or 1690 us (one) high phase, least significant bit first.
pub open spec fn nec_train(a: u8, ac: u8, c: u8, cc: u8) -> Seq<u32> {
    Seq::new(
        66,
        |i: int|
            if i == 0 {
                9000u32
            } else if i == 1 {
                4500u32
            } else if i % 2 == 0 {
                560u32
            } else {
                nec_high(frame_byte(a, ac, c, cc, (i - 3) / 2 / 8), (i - 3) / 2 % 8)
            },
    )
}

proof fn lemma_shr_bound(a: int, n: int, m: int)
    requires
        0 <= a < pow2(n),
        0 <= m <= n,
    ensures
        0 <= shr(a, m) < pow2(n - m),
    decreases m,
{
    if m > 0 {
        lemma_shr_bound(a, n, m - 1);
        assert(pow2(n - m + 1) == 2 * pow2(n - m));
    }
}

proof fn lemma_train_bits(a: u8, ac: u8, c: u8, cc: u8, k: int, m: int)
    requires
        0 <= k < 4,
        0 <= m <= 8,
    ensures
        bits_from(nec_train(a, ac, c, cc), 8 * k, m) == shr(frame_byte(a, ac, c, cc, k) as int, m),
    decreases 8 - m,
{
    let t = nec_train(a, ac, c, cc);
    let b = frame_byte(a, ac, c, cc, k) as int;
    if m == 8 {
        assert(pow2(8) == 256) by {
            reveal_with_fuel(pow2, 9);
        }
        lemma_shr_bound(b, 8, 8);
        assert(pow2(0) == 1);
    } else {
        lemma_train_bits(a, ac, c, cc, k, m + 1);
        let i = 3 + 2 * (8 * k + m);
        assert((i - 3) / 2 / 8 == k && (i - 3) / 2 % 8 == m) by (nonlinear_arith)
            requires
                i == 3 + 2 * (8 * k + m),
                0 <= m < 8,
                0 <= k < 4,
        ;
        assert(high_of(t, 8 * k + m) == t[i]);
        assert(t[i] == nec_high(frame_byte(a, ac, c, cc, k), m));
        assert(shr(b, m + 1) == shr(b, m) / 2);
    }
}

proof fn lemma_train_decodes(a: u8, ac: u8, c: u8, cc: u8)
    ensures
        nec_train(a, ac, c, cc).len() == 66,
        header_ok(nec_train(a, ac, c, cc)),
        all_bits_ok(nec_train(a, ac, c, cc)),
        byte_of(nec_train(a, ac, c, cc), 0) == a,
        byte_of(nec_train(a, ac, c, cc), 1) == ac,
        byte_of(nec_train(a, ac, c, cc), 2) == c,
        byte_of(nec_train(a, ac, c, cc), 3) == cc,
{
    let t = nec_train(a, ac, c, cc);
    assert forall|i: int| 0 <= i < 32 implies #[trigger] bit_timing_ok(t, i) by {
        assert((2 + 2 * i) % 2 == 0);
        assert((3 + 2 * i) % 2 == 1);
    }
    lemma_train_bits(a, ac, c, cc, 0, 0);
    lemma_train_bits(a, ac, c, cc, 1, 0);
    lemma_train_bits(a, ac, c, cc, 2, 0);
    lemma_train_bits(a, ac, c, cc, 3, 0);
}

/// A transmitted frame whose complement bytes are the inverses of its address
/// and command decodes to that address and command.
pub proof fn lemma_nec_round_trip(a: u8, ac: u8, c: u8, cc: u8)
    requires
        a ^ ac == 0xFFu8,
        c ^ cc == 0xFFu8,
    ensures
        decode_spec(nec_train(a, ac, c, cc)) == Ok::<RemoteFrame, DecodeError>(
            RemoteFrame { address: a, command: c },
        ),
{
    lemma_train_decodes(a, ac, c, cc);
}

/// Flipping any single bit of either complement byte of a valid frame makes
/// the decoder report a checksum mismatch.
pub proof fn lemma_nec_complement_corruption(a: u8, ac: u8, c: u8, cc: u8, k: u8)
    requires
        a ^ ac == 0xFFu8,
        c ^ cc == 0xFFu8,
        k < 8,
    ensures
        decode_spec(nec_train(a, ac ^ (1u8 << k), c, cc)) == Err::<RemoteFrame, DecodeError>(
            DecodeError::ChecksumMismatch,
        ),
        decode_spec(nec_train(a, ac, c, cc ^ (1u8 << k))) == Err::<RemoteFrame, DecodeError>(
            DecodeError::ChecksumMismatch,
        ),
{
    assert(a ^ (ac ^ (1u8 << k)) != 0xFFu8) by (bit_vector)
        requires
            a ^ ac == 0xFFu8,
            k < 8,
    ;
    assert(c ^ (cc ^ (1u8 << k)) != 0xFFu8) by (bit_vector)
        requires
            c ^ cc == 0xFFu8,
            k < 8,
    ;
    lemma_train_decodes(a, ac ^ (1u8 << k), c, cc);
    lemma_train_decodes(a, ac, c, cc ^ (1u8 << k));
}

} // verus!
