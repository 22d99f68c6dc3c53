//! Snowflake identifiers: 41-bit millisecond timestamp (since a custom
//! epoch) | 10-bit machine id | 12-bit sequence, increasing in time.
//!
//! The generator is a state machine: [`SnowflakeGenerator::next`] takes one
//! clock reading and either issues an id or asks for another reading (the
//! clock went back, or the 4096 ids of the current millisecond are spent).

use vstd::prelude::*;
use std::time::{Duration, SystemTime, SystemTimeError};
use crate::decimal::{decimal, lemma_parse_decimal, parse_u64, parsed_u64, to_decimal};

verus! {

/// 2026-04-21 00:00:00 UTC, in milliseconds since the Unix epoch.
pub const CUSTOM_EPOCH_MS: u64 = 1_776_729_600_000;

pub const MACHINE_ID_BITS: u64 = 10;
pub const SEQUENCE_BITS: u64 = 12;
/// `(1 << MACHINE_ID_BITS) - 1`
pub const MAX_MACHINE_ID: u64 = 1023;
/// `(1 << SEQUENCE_BITS) - 1`
pub const MAX_SEQUENCE: u64 = 4095;
pub const MACHINE_ID_SHIFT: u64 = 12;
pub const TIMESTAMP_SHIFT: u64 = 22;

/// FNV-1a 64-bit offset basis.
pub const FNV_OFFSET: u64 = 14_695_981_039_346_656_037;
/// FNV-1a 64-bit prime.
pub const FNV_PRIME: u64 = 1_099_511_628_211;

// ---------------------------------------------------------------------------
// The clock

/// `std::time::SystemTime`, opaque here.
#[verifier::external_type_specification]
#[verifier::external_body]
pub struct ExSystemTime(SystemTime);

/// `std::time::SystemTimeError`, opaque here.
#[verifier::external_type_specification]
#[verifier::external_body]
pub struct ExSystemTimeError(SystemTimeError);

/// `SystemTime::now`: the wall clock, of which nothing is stated.
#[verifier::external_body]
fn system_now() -> SystemTime {
    SystemTime::now()
}

/// `SystemTime::duration_since(UNIX_EPOCH)`: fails when the time lies
/// before the Unix epoch; nothing else is stated.
#[verifier::external_body]
fn since_unix_epoch(t: SystemTime) -> Result<Duration, SystemTimeError> {
    t.duration_since(std::time::UNIX_EPOCH)
}

/// `Duration::as_millis`: the whole milliseconds of a duration, of which
/// nothing is stated here since a `Duration` is opaque.
#[verifier::external_body]
fn duration_millis(d: &Duration) -> u128 {
    d.as_millis()
}

/// Milliseconds since the custom epoch for a Unix time in milliseconds, or
/// `None` when it does not fit in a `u64` or lies before the custom epoch.
pub fn millis_since_custom_epoch(unix_ms: u128) -> (r: Option<u64>)
    ensures
        r == (if unix_ms > u64::MAX || unix_ms < CUSTOM_EPOCH_MS {
            None::<u64>
        } else {
            Some((unix_ms - CUSTOM_EPOCH_MS) as u64)
        }),
{
    if unix_ms > (u64::MAX as u128) {
        return None;
    }
    let ms = unix_ms as u64;
    if ms < CUSTOM_EPOCH_MS {
        return None;
    }
    Some(ms - CUSTOM_EPOCH_MS)
}

/// Milliseconds since the custom epoch by the wall clock; `None` when the
/// clock lies before the custom epoch or the value does not fit a `u64`.
pub fn now_ms() -> (r: Option<u64>)
    ensures
        r matches Some(ms) ==> ms <= u64::MAX - CUSTOM_EPOCH_MS,
{
    let t = system_now();
    match since_unix_epoch(t) {
        Err(_) => None,
        Ok(d) => millis_since_custom_epoch(duration_millis(&d)),
    }
}

// ---------------------------------------------------------------------------
// The machine id

/// FNV-1a (64 bits) of a byte sequence.
pub open spec fn fnv1a(bytes: Seq<u8>) -> u64
    decreases bytes.len(),
{
    if bytes.len() == 0 {
        FNV_OFFSET
    } else {
        (fnv1a(bytes.drop_last()) ^ (bytes.last() as u64)).wrapping_mul(FNV_PRIME)
    }
}

/// The UTF-8 bytes of a character sequence.
pub open spec fn utf8_bytes(s: Seq<char>) -> Seq<u8> {
    vstd::utf8::encode_utf8(s)
}

/// The 10-bit machine id: the `PODKIT_MACHINE_ID` value when it parses as
/// a `u64`, else the FNV-1a hash of the host name (`"podkit"` when unset)
/// followed by the decimal process id; either folded to 10 bits.
pub open spec fn machine_id_of(configured: Option<Seq<char>>, hostname: Option<Seq<char>>, pid: u32) -> u64 {
    if configured is Some && parsed_u64(configured->0) is Some {
        parsed_u64(configured->0)->0 & MAX_MACHINE_ID
    } else {
        let host = if hostname is Some { hostname->0 } else { "podkit"@ };
        fnv1a(utf8_bytes(host) + utf8_bytes(decimal(pid as nat))) & MAX_MACHINE_ID
    }
}

/// Folds the bytes into an FNV-1a hash that starts at `hash`.
fn fnv1a_extend(hash: u64, bytes: &[u8]) -> (r: u64)
    ensures
        forall|prefix: Seq<u8>| fnv1a(prefix) == hash ==> r == fnv1a(#[trigger] (prefix + bytes@)),
{
    let mut h = hash;
    let mut i: usize = 0;
    while i < bytes.len()
        invariant
            0 <= i <= bytes@.len(),
            forall|prefix: Seq<u8>| fnv1a(prefix) == hash ==> h == fnv1a(#[trigger] (prefix + bytes@.take(i as int))),
        decreases bytes@.len() - i,
    {
        let b = bytes[i];
        proof {
            assert forall|prefix: Seq<u8>| fnv1a(prefix) == hash implies (h ^ (b as u64)).wrapping_mul(FNV_PRIME)
                == fnv1a(#[trigger] (prefix + bytes@.take(i + 1))) by {
                let p1 = prefix + bytes@.take(i + 1);
                assert(p1.drop_last() =~= prefix + bytes@.take(i as int));
                assert(p1.last() == b);
            }
        }
        h = (h ^ (b as u64)).wrapping_mul(FNV_PRIME);
        i = i + 1;
    }
    assert(bytes@.take(i as int) =~= bytes@);
    h
}

/// Derives the 10-bit machine id from the configured id, the host name
/// and the process id (see [`machine_id_of`]).
pub fn machine_id_from(configured: Option<&str>, hostname: Option<&str>, pid: u32) -> (r: u64)
    ensures
        r == machine_id_of(
            match configured {
                Some(c) => Some(c@),
                None => None,
            },
            match hostname {
                Some(h) => Some(h@),
                None => None,
            },
            pid,
        ),
        r <= MAX_MACHINE_ID,
{
    if let Some(val) = configured {
        if let Some(id) = parse_u64(val) {
            assert(id & 1023 <= 1023) by (bit_vector);
            return id & MAX_MACHINE_ID;
        }
    }
    let host: &str = match hostname {
        Some(h) => h,
        None => "podkit",
    };
    let pid_text = to_decimal(pid as u64);
    proof {
        assert(fnv1a(Seq::<u8>::empty()) == FNV_OFFSET);
    }
    let h1 = fnv1a_extend(FNV_OFFSET, host.as_bytes());
    assert(Seq::<u8>::empty() + utf8_bytes(host@) =~= utf8_bytes(host@));
    let h2 = fnv1a_extend(h1, pid_text.as_str().as_bytes());
    assert(h2 & 1023 <= 1023) by (bit_vector);
    h2 & MAX_MACHINE_ID
}

// ---------------------------------------------------------------------------
// The generator

/// The state of a generator.
pub struct GeneratorState {
    pub machine_id: u64,
    pub sequence: u64,
    pub last_ms: u64,
}

/// A state that a generator can be in.
pub open spec fn state_wf(s: GeneratorState) -> bool {
    s.machine_id <= MAX_MACHINE_ID && s.sequence <= MAX_SEQUENCE
}

/// The id of a timestamp, machine id and sequence number, laid out as
/// timestamp | machine id | sequence.
pub open spec fn compose_id(ms: u64, machine_id: u64, sequence: u64) -> u64 {
    (ms << TIMESTAMP_SHIFT) | (machine_id << MACHINE_ID_SHIFT) | sequence
}

/// Whether a clock reading can carry an id: it lies after the last one, or
/// in the same millisecond with sequence numbers left.
pub open spec fn accepts(s: GeneratorState, now: u64) -> bool {
    now > s.last_ms || (now == s.last_ms && s.sequence < MAX_SEQUENCE)
}

/// The state after an id is issued at `now`: the sequence counts up within
/// a millisecond and starts again at 0 in a new one.
pub open spec fn advanced(s: GeneratorState, now: u64) -> GeneratorState {
    GeneratorState {
        machine_id: s.machine_id,
        sequence: if now == s.last_ms { (s.sequence + 1) as u64 } else { 0 },
        last_ms: now,
    }
}

/// The id issued at `now` from state `s`.
pub open spec fn issued(s: GeneratorState, now: u64) -> u64 {
    compose_id(now, s.machine_id, advanced(s, now).sequence)
}

/// One step of the generator at a clock reading: the id issued and the next
/// state, or `None` when the reading must be discarded.
pub open spec fn step(s: GeneratorState, now: u64) -> Option<(GeneratorState, u64)> {
    if accepts(s, now) {
        Some((advanced(s, now), issued(s, now)))
    } else {
        None
    }
}

pub struct SnowflakeGenerator {
    machine_id: u64,
    sequence: u64,
    last_ms: u64,
}

impl View for SnowflakeGenerator {
    type V = GeneratorState;

    closed spec fn view(&self) -> GeneratorState {
        GeneratorState { machine_id: self.machine_id, sequence: self.sequence, last_ms: self.last_ms }
    }
}

impl SnowflakeGenerator {
    #[verifier::type_invariant]
    spec fn wf(self) -> bool {
        self.machine_id <= MAX_MACHINE_ID && self.sequence <= MAX_SEQUENCE
    }

    /// A generator for the machine id (folded to 10 bits) that has issued
    /// nothing yet.
    pub fn new(machine_id: u64) -> (g: Self)
        ensures
            g@ == (GeneratorState { machine_id: machine_id & MAX_MACHINE_ID, sequence: 0, last_ms: 0 }),
            state_wf(g@),
    {
        let m = machine_id & MAX_MACHINE_ID;
        assert(machine_id & 1023 <= 1023) by (bit_vector);
        Self { machine_id: m, sequence: 0, last_ms: 0 }
    }

    /// Issues the id for the clock reading `now` (ms since the custom epoch),
    /// or returns `None`, changing nothing, when the reading lies before the
    /// last one or the sequence of its millisecond is spent: the caller then
    /// reads the clock again.
    pub fn next(&mut self, now: u64) -> (r: Option<u64>)
        ensures
            state_wf(old(self)@),
            state_wf(final(self)@),
            match step(old(self)@, now) {
                Some((s2, id)) => r == Some(id) && final(self)@ == s2,
                None => r is None && final(self)@ == old(self)@,
            },
    {
        proof {
            use_type_invariant(&*self);
        }
        if now < self.last_ms {
            return None;
        }
        if now == self.last_ms {
            if self.sequence == MAX_SEQUENCE {
                return None;
            }
            self.sequence = self.sequence + 1;
        } else {
            self.sequence = 0;
        }
        self.last_ms = now;
        Some((now << TIMESTAMP_SHIFT) | (self.machine_id << MACHINE_ID_SHIFT) | self.sequence)
    }
}

/// The decimal text of the id issued at the clock reading `now`, or `None`
/// when the reading must be discarded (see [`SnowflakeGenerator::next`]).
pub fn generate_id(generator: &mut SnowflakeGenerator, now: u64) -> (r: Option<String>)
    ensures
        match step(old(generator)@, now) {
            Some((s2, id)) => r matches Some(text) && text@ == decimal(id as nat) && final(generator)@ == s2,
            None => r is None && final(generator)@ == old(generator)@,
        },
{
    match generator.next(now) {
        Some(id) => Some(to_decimal(id)),
        None => None,
    }
}


// ---------------------------------------------------------------------------
// Laws

/// Timestamps that fit in the 42 bits above the machine id and sequence.
pub open spec fn timestamp_fits(ms: u64) -> bool {
    ms < 0x400_0000_0000
}

/// An id holds its three parts side by side: the timestamp, the machine id
/// and the sequence can be read back from it, and the id is their weighted sum.
pub proof fn lemma_id_layout(ms: u64, machine_id: u64, sequence: u64)
    requires
        timestamp_fits(ms),
        machine_id <= MAX_MACHINE_ID,
        sequence <= MAX_SEQUENCE,
    ensures
        compose_id(ms, machine_id, sequence) >> 22u64 == ms,
        (compose_id(ms, machine_id, sequence) >> 12u64) & 1023u64 == machine_id,
        compose_id(ms, machine_id, sequence) & 4095u64 == sequence,
        compose_id(ms, machine_id, sequence) == ms * 4194304 + machine_id * 4096 + sequence,
{
    assert(((ms << 22u64) | (machine_id << 12u64) | sequence) >> 22u64 == ms) by (bit_vector)
        requires
            ms < 0x400_0000_0000u64,
            machine_id <= 1023u64,
            sequence <= 4095u64,
    ;
    assert((((ms << 22u64) | (machine_id << 12u64) | sequence) >> 12u64) & 1023u64 == machine_id)
        by (bit_vector)
        requires
            ms < 0x400_0000_0000u64,
            machine_id <= 1023u64,
            sequence <= 4095u64,
    ;
    assert(((ms << 22u64) | (machine_id << 12u64) | sequence) & 4095u64 == sequence) by (bit_vector)
        requires
            ms < 0x400_0000_0000u64,
            machine_id <= 1023u64,
            sequence <= 4095u64,
    ;
    assert((ms << 22u64) | (machine_id << 12u64) | sequence == ms * 4194304 + machine_id * 4096
        + sequence) by (bit_vector)
        requires
            ms < 0x400_0000_0000u64,
            machine_id <= 1023u64,
            sequence <= 4095u64,
    ;
}

/// A step keeps the state within its bounds.
pub proof fn lemma_step_wf(s: GeneratorState, now: u64)
    requires
        state_wf(s),
        accepts(s, now),
    ensures
        state_wf(advanced(s, now)),
        advanced(s, now).last_ms == now,
        advanced(s, now).machine_id == s.machine_id,
{
}

/// Ids increase: of two ids issued one after the other by a generator,
/// the second is the larger (while timestamps fit in their bits).
pub proof fn lemma_successive_ids_increase(s: GeneratorState, now1: u64, now2: u64)
    requires
        state_wf(s),
        accepts(s, now1),
        accepts(advanced(s, now1), now2),
        timestamp_fits(now2),
    ensures
        issued(s, now1) < issued(advanced(s, now1), now2),
{
    let s1 = advanced(s, now1);
    let s2 = advanced(s1, now2);
    lemma_step_wf(s, now1);
    lemma_step_wf(s1, now2);
    assert(now1 <= now2);
    lemma_id_layout(now1, s1.machine_id, s1.sequence);
    lemma_id_layout(now2, s2.machine_id, s2.sequence);
    if now1 < now2 {
        assert(now1 * 4194304 + 4194304 <= now2 * 4194304) by (nonlinear_arith)
            requires
                now1 < now2,
        ;
    }
}

/// Id texts increase: of two ids issued one after the other by a generator
/// (what [`generate_id`] returns as text), the second text reads as the
/// larger number (while timestamps fit in their bits).
pub proof fn lemma_successive_id_texts_increase(s: GeneratorState, now1: u64, now2: u64)
    requires
        state_wf(s),
        accepts(s, now1),
        accepts(advanced(s, now1), now2),
        timestamp_fits(now2),
    ensures
        parsed_u64(decimal(issued(s, now1) as nat)) == Some(issued(s, now1)),
        parsed_u64(decimal(issued(advanced(s, now1), now2) as nat)) == Some(issued(advanced(s, now1), now2)),
        issued(s, now1) < issued(advanced(s, now1), now2),
{
    lemma_successive_ids_increase(s, now1, now2);
    lemma_parse_decimal(issued(s, now1));
    lemma_parse_decimal(issued(advanced(s, now1), now2));
}


/// What one clock reading does to a generator: a reading before the last
/// one is refused; a reading in a later millisecond always issues an id,
/// with sequence 0 (the id is the reading shifted above a machine id and a
/// zero sequence); a reading in the same millisecond issues the next
/// sequence number while one is left, and is refused once 4095 is spent.
pub proof fn lemma_reading_outcomes(s: GeneratorState, now: u64)
    requires
        state_wf(s),
    ensures
        now < s.last_ms ==> step(s, now) is None,
        now > s.last_ms ==> step(s, now) == Some((
            GeneratorState { machine_id: s.machine_id, sequence: 0, last_ms: now },
            (now << 22u64) | (s.machine_id << 12u64),
        )),
        now == s.last_ms && s.sequence < 4095 ==> step(s, now) == Some((
            GeneratorState { machine_id: s.machine_id, sequence: (s.sequence + 1) as u64, last_ms: now },
            (now << 22u64) | (s.machine_id << 12u64) | ((s.sequence + 1) as u64),
        )),
        now == s.last_ms && s.sequence == 4095 ==> step(s, now) is None,
{
    let m = s.machine_id;
    assert(((now << 22u64) | (m << 12u64)) | 0u64 == (now << 22u64) | (m << 12u64)) by (bit_vector);
}

/// The id issued for a reading in a new millisecond, as a number: the
/// reading times 2^22 plus the machine id times 2^12 (while the reading
/// fits in its 42 bits).
pub proof fn lemma_new_millisecond_id(s: GeneratorState, now: u64)
    requires
        state_wf(s),
        now > s.last_ms,
        timestamp_fits(now),
    ensures
        step(s, now) matches Some((s2, id)) && id == now * 4194304 + s.machine_id * 4096 && s2.sequence == 0
            && s2.last_ms == now,
{
    lemma_reading_outcomes(s, now);
    lemma_id_layout(now, s.machine_id, 0);
    let m = s.machine_id;
    assert(((now << 22u64) | (m << 12u64)) | 0u64 == (now << 22u64) | (m << 12u64)) by (bit_vector);
}

/// A configured machine id that parses as a number `n` gives the machine
/// id `n mod 1024`; every configured id from 0 to 1023 is used as it is.
pub proof fn lemma_configured_machine_id(configured: Seq<char>, hostname: Option<Seq<char>>, pid: u32)
    requires
        parsed_u64(configured) is Some,
    ensures
        machine_id_of(Some(configured), hostname, pid) == parsed_u64(configured)->0 % 1024,
        parsed_u64(configured)->0 < 1024 ==> machine_id_of(Some(configured), hostname, pid) == parsed_u64(configured)->0,
{
    let n = parsed_u64(configured)->0;
    assert(n & 1023u64 == n % 1024) by (bit_vector);
}

} // verus!
