//! The text wire protocol: command tokens for the barrier controller and the
//! occupancy reports of the sensor channels. Messages are ASCII bytes, one
//! message per read, trimmed of surrounding whitespace.
use vstd::prelude::*;

verus! {

/// Occupancy of one sensor channel.
#[derive(Debug, Clone, Copy, PartialEq, Eq, Structural)]
pub enum SensorState {
    Occupied,
    NotOccupied,
}

/// A token received by the barrier controller.
#[derive(Debug, Clone, Copy, PartialEq, Eq, Structural)]
pub enum GateCommand {
    /// The token `100`.
    RequestOpen,
    /// The token `90`.
    ToggleLock,
    /// Anything else; ignored by the controller.
    Unrecognized,
}

/// ASCII bytes that `str::trim` removes.
pub open spec fn is_space(b: u8) -> bool {
    b == 9 || b == 10 || b == 11 || b == 12 || b == 13 || b == 32
}

/// First index at or after `i` that does not hold whitespace, or the length.
pub open spec fn lead(s: Seq<u8>, i: int) -> int
    decreases s.len() - i,
{
    if 0 <= i < s.len() && is_space(s[i]) {
        lead(s, i + 1)
    } else {
        i
    }
}

/// End of `s[lo..j]` once trailing whitespace is dropped.
pub open spec fn trail(s: Seq<u8>, lo: int, j: int) -> int
    decreases j - lo,
{
    if lo < j && is_space(s[j - 1]) {
        trail(s, lo, j - 1)
    } else {
        j
    }
}

/// `s` without leading and trailing whitespace.
pub open spec fn trim(s: Seq<u8>) -> Seq<u8> {
    s.subrange(lead(s, 0), trail(s, lead(s, 0), s.len() as int))
}

/// Index of the first `:` at or after `i`.
pub open spec fn colon_from(s: Seq<u8>, i: int) -> Option<int>
    decreases s.len() - i,
{
    if i < 0 || i >= s.len() {
        None
    } else if s[i] == 58u8 {
        Some(i)
    } else {
        colon_from(s, i + 1)
    }
}

pub open spec fn is_digit(b: u8) -> bool {
    48u8 <= b <= 57u8
}

/// Value of a string of decimal digits.
pub open spec fn digits_value(s: Seq<u8>) -> nat
    decreases s.len(),
{
    if s.len() == 0 {
        0
    } else {
        digits_value(s.drop_last()) * 10 + (s.last() - 48u8) as nat
    }
}

pub open spec fn all_digits(d: Seq<u8>) -> bool {
    forall|i: int| 0 <= i < d.len() ==> is_digit(#[trigger] d[i])
}

/// `s` without a leading `+`.
pub open spec fn unsigned_part(s: Seq<u8>) -> Seq<u8> {
    if s.len() > 0 && s[0] == 43u8 {
        s.drop_first()
    } else {
        s
    }
}

/// What `u64::from_str` accepts: an optional `+`, then one or more decimal
/// digits whose value fits in 64 bits.
pub open spec fn parse_u64_spec(s: Seq<u8>) -> Option<u64> {
    let d = unsigned_part(s);
    if d.len() > 0 && all_digits(d) && digits_value(d) <= u64::MAX {
        Some(digits_value(d) as u64)
    } else {
        None
    }
}

/// `100`
pub open spec fn open_token() -> Seq<u8> {
    seq![49u8, 48u8, 48u8]
}

/// `90`
pub open spec fn lock_token() -> Seq<u8> {
    seq![57u8, 48u8]
}

/// `Sensor `
pub open spec fn sensor_prefix() -> Seq<u8> {
    seq![83u8, 101u8, 110u8, 115u8, 111u8, 114u8, 32u8]
}

/// `Occupied`
pub open spec fn occupied_text() -> Seq<u8> {
    seq![79u8, 99u8, 99u8, 117u8, 112u8, 105u8, 101u8, 100u8]
}

/// `Not Occupied`
pub open spec fn not_occupied_text() -> Seq<u8> {
    seq![78u8, 111u8, 116u8, 32u8] + occupied_text()
}

pub open spec fn state_text(st: SensorState) -> Seq<u8> {
    match st {
        SensorState::Occupied => occupied_text(),
        SensorState::NotOccupied => not_occupied_text(),
    }
}

/// The command a received message carries.
pub open spec fn command_spec(s: Seq<u8>) -> GateCommand {
    if trim(s) == open_token() {
        GateCommand::RequestOpen
    } else if trim(s) == lock_token() {
        GateCommand::ToggleLock
    } else {
        GateCommand::Unrecognized
    }
}

/// The channel and state of a report `Sensor <n>: <state>`: the message is
/// trimmed, split at its first colon, both sides trimmed, `Sensor ` stripped
/// from the left side and the rest read as a number.
pub open spec fn parse_sensor_spec(s: Seq<u8>) -> Option<(u64, SensorState)> {
    let t = trim(s);
    match colon_from(t, 0) {
        None => None,
        Some(c) => {
            let name = trim(t.subrange(0, c));
            let st = trim(t.subrange(c + 1, t.len() as int));
            if name.len() >= 7 && name.subrange(0, 7) == sensor_prefix() {
                match parse_u64_spec(name.subrange(7, name.len() as int)) {
                    None => None,
                    Some(n) => if st == occupied_text() {
                        Some((n, SensorState::Occupied))
                    } else if st == not_occupied_text() {
                        Some((n, SensorState::NotOccupied))
                    } else {
                        None
                    },
                }
            } else {
                None
            }
        },
    }
}

/// Decimal digits of `n`, without leading zeros.
pub open spec fn decimal(n: nat) -> Seq<u8>
    decreases n,
{
    if n < 10 {
        seq![(48u8 + n) as u8]
    } else {
        decimal(n / 10).push((48u8 + n % 10) as u8)
    }
}

/// The report a sensor channel sends.
pub open spec fn sensor_report_spec(channel: u64, st: SensorState) -> Seq<u8> {
    sensor_prefix() + decimal(channel as nat) + seq![58u8, 32u8] /* ": " */ + state_text(st)
}

fn is_space_byte(b: u8) -> (r: bool)
    ensures
        r == is_space(b),
{
    b == 9 || b == 10 || b == 11 || b == 12 || b == 13 || b == 32
}

/// Copy of `s[lo..hi]`.
fn copy_range(s: &[u8], lo: usize, hi: usize) -> (r: Vec<u8>)
    requires
        lo <= hi <= s@.len(),
    ensures
        r@ == s@.subrange(lo as int, hi as int),
{
    let mut r: Vec<u8> = Vec::new();
    let mut i: usize = lo;
    while i < hi
        invariant
            lo <= i <= hi <= s@.len(),
            r@ == s@.subrange(lo as int, i as int),
        decreases hi - i,
    {
        r.push(s[i]);
        i = i + 1;
        assert(r@ =~= s@.subrange(lo as int, i as int));
    }
    r
}

/// `s` without leading and trailing whitespace.
pub fn trim_bytes(s: &[u8]) -> (r: Vec<u8>)
    ensures
        r@ == trim(s@),
{
    let mut i: usize = 0;
    while i < s.len() && is_space_byte(s[i])
        invariant
            i <= s@.len(),
            lead(s@, 0) == lead(s@, i as int),
        decreases s@.len() - i,
    {
        i = i + 1;
    }
    let mut j: usize = s.len();
    while j > i && is_space_byte(s[j - 1])
        invariant
            i <= j <= s@.len(),
            lead(s@, 0) == i,
            trail(s@, i as int, s@.len() as int) == trail(s@, i as int, j as int),
        decreases j - i,
    {
        j = j - 1;
    }
    copy_range(s, i, j)
}

fn bytes_eq(a: &[u8], b: &[u8]) -> (r: bool)
    ensures
        r == (a@ == b@),
{
    if a.len() != b.len() {
        return false;
    }
    let mut i: usize = 0;
    while i < a.len()
        invariant
            a@.len() == b@.len(),
            i <= a@.len(),
            forall|k: int| 0 <= k < i ==> a@[k] == b@[k],
        decreases a@.len() - i,
    {
        if a[i] != b[i] {
            return false;
        }
        i = i + 1;
    }
    assert(a@ =~= b@);
    true
}

/// Reads the command token of a message.
pub fn parse_command(data: &[u8]) -> (r: GateCommand)
    ensures
        r == command_spec(data@),
{
    let t = trim_bytes(data);
    let open: Vec<u8> = vec![49u8, 48u8, 48u8];
    let lock: Vec<u8> = vec![57u8, 48u8];
    assert(open@ =~= open_token());
    assert(lock@ =~= lock_token());
    if bytes_eq(t.as_slice(), open.as_slice()) {
        GateCommand::RequestOpen
    } else if bytes_eq(t.as_slice(), lock.as_slice()) {
        GateCommand::ToggleLock
    } else {
        GateCommand::Unrecognized
    }
}

proof fn lemma_digits_prefix(s: Seq<u8>, k: int)
    requires
        0 <= k <= s.len(),
    ensures
        digits_value(s.subrange(0, k)) <= digits_value(s),
    decreases s.len(),
{
    if k < s.len() {
        lemma_digits_prefix(s.drop_last(), k);
        assert(s.drop_last().subrange(0, k) =~= s.subrange(0, k));
    } else {
        assert(s.subrange(0, k) =~= s);
    }
}

/// Reads a decimal number as `u64::from_str` does.
pub fn parse_u64_bytes(s: &[u8]) -> (r: Option<u64>)
    ensures
        r == parse_u64_spec(s@),
{
    let start: usize = if s.len() > 0 && s[0] == 43u8 { 1 } else { 0 };
    let ghost d = unsigned_part(s@);
    assert(d =~= s@.subrange(start as int, s@.len() as int));
    if start == s.len() {
        return None;
    }
    let mut acc: u64 = 0;
    let mut i: usize = start;
    while i < s.len()
        invariant
            start <= i <= s@.len(),
            start < s@.len(),
            d == unsigned_part(s@),
            d == s@.subrange(start as int, s@.len() as int),
            acc as nat == digits_value(s@.subrange(start as int, i as int)),
            forall|k: int| start <= k < i ==> is_digit(#[trigger] s@[k]),
        decreases s@.len() - i,
    {
        let b = s[i];
        if !(48u8 <= b && b <= 57u8) {
            assert(d[i - start] == b);
            assert(!is_digit(d[i - start]));
            assert(!all_digits(d));
            return None;
        }
        let next: u128 = acc as u128 * 10 + (b - 48u8) as u128;
        let ghost pre = s@.subrange(start as int, i as int + 1);
        assert(pre.drop_last() =~= s@.subrange(start as int, i as int));
        assert(next as nat == digits_value(pre));
        if next > 0xFFFF_FFFF_FFFF_FFFFu128 {
            proof {
                assert(pre =~= d.subrange(0, i - start + 1));
                lemma_digits_prefix(d, i - start + 1);
                assert(digits_value(d) > u64::MAX);
            }
            return None;
        }
        acc = next as u64;
        i = i + 1;
    }
    assert(s@.subrange(start as int, i as int) =~= d);
    assert forall|k: int| 0 <= k < d.len() implies is_digit(#[trigger] d[k]) by {
        assert(d[k] == s@[k + start]);
    }
    Some(acc)
}

fn find_colon(s: &[u8]) -> (r: Option<usize>)
    ensures
        r.is_some() == colon_from(s@, 0).is_some(),
        r.is_some() ==> colon_from(s@, 0) == Some(r.unwrap() as int) && r.unwrap() < s@.len(),
{
    let mut i: usize = 0;
    while i < s.len()
        invariant
            i <= s@.len(),
            colon_from(s@, 0) == colon_from(s@, i as int),
        decreases s@.len() - i,
    {
        if s[i] == 58u8 {
            return Some(i);
        }
        i = i + 1;
    }
    None
}

/// Reads a sensor report `Sensor <n>: Occupied` or `Sensor <n>: Not Occupied`;
/// anything else gives `None`.
pub fn parse_sensor_data(data: &[u8]) -> (r: Option<(u64, SensorState)>)
    ensures
        r == parse_sensor_spec(data@),
{
    let t = trim_bytes(data);
    let c = match find_colon(t.as_slice()) {
        None => return None,
        Some(c) => c,
    };
    let left = copy_range(t.as_slice(), 0, c);
    let tlen = t.len();
    let right = copy_range(t.as_slice(), c + 1, tlen);
    let name = trim_bytes(left.as_slice());
    let st = trim_bytes(right.as_slice());
    if name.len() < 7 {
        return None;
    }
    let head = copy_range(name.as_slice(), 0, 7);
    let prefix: Vec<u8> = vec![83u8, 101u8, 110u8, 115u8, 111u8, 114u8, 32u8];
    assert(prefix@ =~= sensor_prefix());
    if !bytes_eq(head.as_slice(), prefix.as_slice()) {
        return None;
    }
    let digits = copy_range(name.as_slice(), 7, name.len());
    let n = match parse_u64_bytes(digits.as_slice()) {
        None => return None,
        Some(n) => n,
    };
    let occupied: Vec<u8> = vec![79u8, 99u8, 99u8, 117u8, 112u8, 105u8, 101u8, 100u8];
    let not_occupied: Vec<u8> = vec![
        78u8, 111u8, 116u8, 32u8, 79u8, 99u8, 99u8, 117u8, 112u8, 105u8, 101u8, 100u8,
    ];
    assert(occupied@ =~= occupied_text());
    assert(not_occupied@ =~= not_occupied_text());
    if bytes_eq(st.as_slice(), occupied.as_slice()) {
        Some((n, SensorState::Occupied))
    } else if bytes_eq(st.as_slice(), not_occupied.as_slice()) {
        Some((n, SensorState::NotOccupied))
    } else {
        None
    }
}

fn push_all(out: &mut Vec<u8>, b: &[u8])
    ensures
        final(out)@ == old(out)@ + b@,
{
    let mut i: usize = 0;
    while i < b.len()
        invariant
            i <= b@.len(),
            out@ == old(out)@ + b@.subrange(0, i as int),
        decreases b@.len() - i,
    {
        out.push(b[i]);
        i = i + 1;
        assert(out@ =~= old(out)@ + b@.subrange(0, i as int));
    }
    assert(b@.subrange(0, i as int) =~= b@);
}

/// Appends the decimal digits of `n`.
pub fn push_decimal(out: &mut Vec<u8>, n: u64)
    ensures
        final(out)@ == old(out)@ + decimal(n as nat),
    decreases n,
{
    if n >= 10 {
        push_decimal(out, n / 10);
    }
    out.push((48 + n % 10) as u8);
    if n >= 10 {
        assert(out@ =~= old(out)@ + decimal(n as nat));
    } else {
        assert(out@ =~= old(out)@ + decimal(n as nat));
    }
}

/// The text of a sensor report, `Sensor <n>: Occupied` or
/// `Sensor <n>: Not Occupied`.
pub fn format_sensor_report(channel: u64, state: SensorState) -> (r: Vec<u8>)
    ensures
        r@ == sensor_report_spec(channel, state),
{
    let mut out: Vec<u8> = vec![83u8, 101u8, 110u8, 115u8, 111u8, 114u8, 32u8];
    push_decimal(&mut out, channel);
    out.push(58u8);
    out.push(32u8);
    let text: Vec<u8> = match state {
        SensorState::Occupied => vec![79u8, 99u8, 99u8, 117u8, 112u8, 105u8, 101u8, 100u8],
        SensorState::NotOccupied => vec![
            78u8, 111u8, 116u8, 32u8, 79u8, 99u8, 99u8, 117u8, 112u8, 105u8, 101u8, 100u8,
        ],
    };
    push_all(&mut out, text.as_slice());
    assert(out@ =~= sensor_report_spec(channel, state));
    out
}

proof fn lemma_decimal(n: nat)
    ensures
        decimal(n).len() >= 1,
        all_digits(decimal(n)),
        digits_value(decimal(n)) == n,
    decreases n,
{
    let d = decimal(n);
    assert(d.last() as int == 48 + n % 10);
    if n < 10 {
        assert(d.drop_last() =~= Seq::<u8>::empty());
        assert(digits_value(d.drop_last()) == 0);
        assert(digits_value(d) == digits_value(d.drop_last()) * 10 + (d.last() - 48u8) as nat);
    } else {
        lemma_decimal(n / 10);
        assert(d.drop_last() =~= decimal(n / 10));
        assert(n == (n / 10) * 10 + n % 10);
        assert(digits_value(d) == digits_value(d.drop_last()) * 10 + (d.last() - 48u8) as nat);
        assert(digits_value(d.drop_last()) == n / 10);
        assert(digits_value(d) == (n / 10) * 10 + n % 10);
        assert forall|i: int| 0 <= i < d.len() implies is_digit(#[trigger] d[i]) by {
            if i < d.len() - 1 {
                assert(d[i] == decimal(n / 10)[i]);
            }
        }
    }
}

proof fn lemma_colon_skip(s: Seq<u8>, i: int, k: int)
    requires
        0 <= i <= k <= s.len(),
        forall|j: int| i <= j < k ==> s[j] != 58u8,
    ensures
        colon_from(s, i) == colon_from(s, k),
    decreases k - i,
{
    if i < k {
        lemma_colon_skip(s, i + 1, k);
    }
}

/// A report as a sensor channel formats it reads back as that channel and
/// state.
pub proof fn lemma_report_round_trip(channel: u64, st: SensorState)
    ensures
        parse_sensor_spec(sensor_report_spec(channel, st)) == Some((channel, st)),
{
    let p = sensor_prefix();
    let d = decimal(channel as nat);
    let t = state_text(st);
    let s = sensor_report_spec(channel, st);
    lemma_decimal(channel as nat);
    let c: int = 7 + d.len() as int;
    assert(s.len() == c + 2 + t.len());
    assert(s[0] == 83u8);
    assert(s[s.len() - 1] == 100u8);
    assert(lead(s, 0) == 0);
    assert(trail(s, 0, s.len() as int) == s.len());
    assert(trim(s) =~= s);
    assert forall|j: int| 0 <= j < c implies s[j] != 58u8 by {
        if j >= 7 {
            assert(s[j] == d[j - 7]);
            assert(is_digit(d[j - 7]));
        }
    }
    lemma_colon_skip(s, 0, c);
    assert(s[c] == 58u8);
    assert(colon_from(s, 0) == Some(c));
    let left = s.subrange(0, c);
    let right = s.subrange(c + 1, s.len() as int);
    assert(left =~= p + d);
    assert(is_digit(left[left.len() - 1]));
    assert(lead(left, 0) == 0);
    assert(trail(left, 0, left.len() as int) == left.len());
    assert(trim(left) =~= left);
    assert(left.subrange(0, 7) =~= p);
    assert(left.subrange(7, left.len() as int) =~= d);
    assert(is_digit(d[0]));
    assert(unsigned_part(d) == d);
    assert(right =~= seq![32u8] + t);
    assert(lead(right, 1) == 1);
    assert(lead(right, 0) == 1);
    assert(right[right.len() - 1] == 100u8);
    assert(trail(right, 1, right.len() as int) == right.len());
    assert(trim(right) =~= t);
    assert(occupied_text() != not_occupied_text()) by {
        assert(occupied_text().len() != not_occupied_text().len());
    }
}

} // verus!
