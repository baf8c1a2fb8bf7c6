//! The flake generator: the stateful core that assembles 64-bit identifiers
//! from a millisecond timestamp, a node id, a thread id and a per-millisecond
//! sequence counter.
//!
//! The timestamp field deliberately embeds the raw wall-clock millisecond
//! count since the Unix epoch: the deployment epoch is carried by the
//! generator but never subtracted from the reading, preserving the
//! established bit-for-bit identifier layout.

use vstd::prelude::*;

verus! {

/// A value above which the 12-bit sequence field is exhausted.
pub const SEQUENCE_MAX: u64 = 4095;

/// The identifier built from a millisecond timestamp `t`, a node id, a
/// thread id and a sequence number: 42 bits of timestamp, then 5 bits of
/// node, 5 bits of thread and 12 bits of sequence, most significant first.
pub open spec fn flake_of(t: u64, node: u64, thread: u64, seq: u64) -> u64 {
    ((t << 22) | ((node & 31) << 17) | ((thread & 31) << 12) | (seq & 4095)) as u64
}

/// The timestamp field (the high 42 bits) of an identifier.
pub open spec fn time_of(id: u64) -> u64 {
    id >> 22
}

/// The node field (5 bits) of an identifier.
pub open spec fn node_of(id: u64) -> u64 {
    (id >> 17) & 31
}

/// The thread field (5 bits) of an identifier.
pub open spec fn thread_of(id: u64) -> u64 {
    (id >> 12) & 31
}

/// The sequence field (the low 12 bits) of an identifier.
pub open spec fn seq_of(id: u64) -> u64 {
    id & 4095
}

/// Issues identifiers for one `(epoch, node, thread)` context. Exclusively
/// owned by one caller: the sequence counter and the last generation time are
/// read and written non-atomically across one `generate` call.
pub struct FlakeGenerator {
    pub epoch: u128,
    pub node_id: u64,
    pub thread_id: u64,
    pub sequence: u64,
    pub last_time: u128,
}

/// The sequence number embedded in the identifier that a call of `generate`
/// issues when the wall clock reads `now`: the stored counter, or zero if
/// that counter is exhausted or the clock has moved past the last issue.
pub open spec fn seq_used(pre: FlakeGenerator, now: u128) -> u64 {
    if pre.sequence > SEQUENCE_MAX || now > pre.last_time {
        0
    } else {
        pre.sequence
    }
}

/// The generator state after one `generate` call that read the wall clock at
/// `now`: the issued sequence number plus one, and `now` recorded.
pub open spec fn step_state(pre: FlakeGenerator, now: u128) -> FlakeGenerator {
    FlakeGenerator {
        sequence: (seq_used(pre, now) + 1) as u64,
        last_time: now,
        ..pre
    }
}

/// The identifier that one `generate` call issues when the wall clock reads
/// `now`.
pub open spec fn step_id(pre: FlakeGenerator, now: u128) -> u64 {
    flake_of(now as u64, pre.node_id, pre.thread_id, seq_used(pre, now))
}

/// Relies on std::time::SystemTime::now (converted to plain milliseconds by
/// duration_since(UNIX_EPOCH) and as_millis): the wall clock, about which
/// nothing is promised. A clock reading before the Unix epoch would break
/// identifier ordering silently and is therefore a fatal condition.
#[verifier::external_body]
fn current_millis() -> u128 {
    std::time::SystemTime::now().duration_since(std::time::UNIX_EPOCH).expect(
        "Time somehow went backwards. Uhhhh?",
    ).as_millis()
}

/// Relies on std::time::SystemTime::now, read as in `current_millis`: spins
/// on the wall clock until it reads a millisecond strictly past `last`, and
/// returns that reading — only a reading it has just seen exceed `last`. It
/// does not return before the clock advances, so no decreases measure exists
/// for its loop and its body goes unchecked.
#[verifier::external_body]
fn wait_for_next_millis(last: u128) -> (now: u128)
    ensures
        now > last,
{
    loop {
        let t = current_millis();
        if t > last {
            return t;
        }
    }
}

impl FlakeGenerator {
    /// A fresh generator for the given context, with no identifier issued
    /// yet.
    pub fn new(epoch: u128, node_id: u64, thread_id: u64) -> (g: FlakeGenerator)
        ensures
            g.epoch == epoch,
            g.node_id == node_id,
            g.thread_id == thread_id,
            g.sequence == 0,
            g.last_time == 0,
    {
        FlakeGenerator { epoch, node_id, thread_id, sequence: 0, last_time: 0 }
    }

    /// Issues the next identifier: one `step` of the generator against the
    /// wall-clock millisecond it read, recorded as the new `last_time`. When
    /// the previous call exhausted the 12-bit sequence space, this call
    /// first waits for the clock to move strictly past `last_time`, so no
    /// identifier is ever reissued within one millisecond.
    pub fn generate(&mut self) -> (flake: u64)
        ensures
            *final(self) == step_state(*old(self), final(self).last_time),
            flake == step_id(*old(self), final(self).last_time),
            old(self).sequence > SEQUENCE_MAX ==> final(self).last_time > old(self).last_time,
    {
        let now: u128;
        if self.sequence > SEQUENCE_MAX {
            now = wait_for_next_millis(self.last_time);
            self.sequence = 0;
        } else {
            now = current_millis();
            if now > self.last_time {
                self.sequence = 0;
            }
        }
        assert(self.sequence == seq_used(*old(self), now));

        self.last_time = now;

        let mut flake: u64 = #[verifier::truncate] (now as u64);
        flake <<= 22;
        flake |= (self.node_id & 31) << 17;
        flake |= (self.thread_id & 31) << 12;
        flake |= self.sequence & 4095;

        self.sequence = self.sequence + 1;

        flake
    }
}

/// Every identifier carries its generator's node and thread ids, masked to
/// their low five bits, the issued sequence number, and the low 42 bits of
/// the millisecond reading, each in its designated field.
pub proof fn lemma_id_fields(g: FlakeGenerator, now: u128)
    ensures
        node_of(step_id(g, now)) == g.node_id & 31,
        thread_of(step_id(g, now)) == g.thread_id & 31,
        seq_of(step_id(g, now)) == seq_used(g, now),
        time_of(step_id(g, now)) == (now as u64) & 0x3ff_ffff_ffff,
{
    let t = now as u64;
    let n = g.node_id;
    let h = g.thread_id;
    let s = seq_used(g, now);
    assert(s <= 4095);
    assert(((((t << 22) | ((n & 31) << 17) | ((h & 31) << 12) | (s & 4095)) as u64) >> 17) & 31
        == n & 31) by (bit_vector);
    assert(((((t << 22) | ((n & 31) << 17) | ((h & 31) << 12) | (s & 4095)) as u64) >> 12) & 31
        == h & 31) by (bit_vector);
    assert(s <= 4095 ==> (((t << 22) | ((n & 31) << 17) | ((h & 31) << 12) | (s & 4095)) as u64)
        & 4095 == s) by (bit_vector);
    assert(((((t << 22) | ((n & 31) << 17) | ((h & 31) << 12) | (s & 4095)) as u64) >> 22) == t
        & 0x3ff_ffff_ffff) by (bit_vector);
}

/// Round trip: decoding the four fields of any identifier and re-encoding
/// them with the same bit layout reproduces the identifier exactly.
pub proof fn lemma_round_trip(id: u64)
    ensures
        flake_of(time_of(id), node_of(id), thread_of(id), seq_of(id)) == id,
{
    assert((((id >> 22) << 22) | ((((id >> 17) & 31) & 31) << 17) | ((((id >> 12) & 31) & 31)
        << 12) | ((id & 4095) & 4095)) == id) by (bit_vector);
}

/// Two identifiers issued back to back within one millisecond — the second
/// call reads the very clock value the first recorded, and the first call
/// did not exhaust the sequence space — have equal timestamp fields, and the
/// second sequence field is exactly one greater than the first.
pub proof fn lemma_same_millis_increment(g: FlakeGenerator, now: u128)
    requires
        step_state(g, now).sequence <= SEQUENCE_MAX,
    ensures
        seq_of(step_id(step_state(g, now), now)) == seq_of(step_id(g, now)) + 1,
        time_of(step_id(step_state(g, now), now)) == time_of(step_id(g, now)),
{
    lemma_id_fields(g, now);
    lemma_id_fields(step_state(g, now), now);
}

/// Successive identifiers of one generator strictly increase whenever the
/// wall clock does not run backwards between the two calls and its readings
/// fit the 42-bit timestamp field: a strictly later millisecond raises the
/// timestamp field past every lower field, and within one millisecond the
/// sequence field grows by one.
pub proof fn lemma_ids_increase(g: FlakeGenerator, t1: u128, t2: u128)
    requires
        t1 <= t2 < 0x400_0000_0000,
        step_state(g, t1).sequence > SEQUENCE_MAX ==> t2 > t1,
    ensures
        step_id(step_state(g, t1), t2) > step_id(g, t1),
{
    let g1 = step_state(g, t1);
    let a = t1 as u64;
    let b = t2 as u64;
    let n = g.node_id;
    let h = g.thread_id;
    let s1 = seq_used(g, t1);
    let s2 = seq_used(g1, t2);
    if t2 == t1 {
        assert(s2 == s1 + 1);
        assert(s2 <= 4095 && s2 == s1 + 1 ==> (((a << 22) | ((n & 31) << 17) | ((h & 31) << 12)
            | (s1 & 4095)) as u64) < (((a << 22) | ((n & 31) << 17) | ((h & 31) << 12) | (s2
            & 4095)) as u64)) by (bit_vector);
    } else {
        assert(a < b && b < 0x400_0000_0000 ==> (((a << 22) | ((n & 31) << 17) | ((h & 31) << 12)
            | (s1 & 4095)) as u64) < (((b << 22) | ((n & 31) << 17) | ((h & 31) << 12) | (s2
            & 4095)) as u64)) by (bit_vector);
    }
}

/// Once a millisecond's sequence space is exhausted, an identifier is issued
/// only against a strictly later millisecond: its sequence field is zero
/// and, as long as readings fit the 42-bit timestamp field, its timestamp
/// field is strictly greater than the exhausted millisecond.
pub proof fn lemma_rollover(g: FlakeGenerator, now: u128)
    requires
        g.sequence > SEQUENCE_MAX,
        g.last_time < now < 0x400_0000_0000,
    ensures
        seq_of(step_id(g, now)) == 0,
        time_of(step_id(g, now)) == now,
        time_of(step_id(g, now)) > g.last_time,
{
    lemma_id_fields(g, now);
    assert(now < 0x400_0000_0000 ==> ((now as u64) & 0x3ff_ffff_ffff) == now) by (bit_vector);
}

} // verus!
