//! Snowflake-style identifier minting.
//!
//! A 64-bit identifier packs, most significant first: the milliseconds
//! elapsed since a fixed epoch (42 bits), a datacenter tag (5 bits), a
//! worker tag (5 bits) and a per-millisecond sequence counter (12 bits).
//! A generator owns the shared counter state (last issued timestamp and
//! sequence); minting is a read-modify-write of that state, so a caller
//! that shares a generator across threads must serialize access to it,
//! for instance behind a mutex.
//!
//! A clock that moves backwards is reported as a typed error rather than
//! a panic, so the surrounding system can choose how to degrade.

use vstd::prelude::*;
use vstd::arithmetic::div_mod::lemma_fundamental_div_mod_converse;
use vstd::arithmetic::mul::lemma_mul_inequality;

verus! {

/// Milliseconds since the Unix epoch at which the identifier timestamp
/// field starts counting.
pub const SUID_EPOCH_MS: u64 = 1700000000000;

/// Largest value of the 12-bit per-millisecond sequence field.
pub const MAX_SEQUENCE: u64 = 4095;

/// Largest millisecond offset that fits the 42-bit timestamp field.
pub const MAX_TIMESTAMP_DELTA: u64 = 4398046511103;

/// Minting fails in these ways; both mean the wall clock cannot support
/// the uniqueness guarantee right now and the whole request must fail.
#[derive(Clone, Copy, Debug, PartialEq, Eq, Structural)]
pub enum SuidError {
    /// The clock reads earlier than the last issued timestamp (or before
    /// the Unix epoch): monotonicity, the foundation of uniqueness, is lost.
    ClockBackwards,
    /// The clock reads before the identifier epoch or past what the
    /// 42-bit timestamp field can hold.
    TimestampOutOfRange,
}

/// One attempt to mint against a given clock reading.
#[derive(Clone, Copy, Debug, PartialEq, Eq, Structural)]
pub enum MintStep {
    /// An identifier was issued.
    Minted(u64),
    /// The sequence field is spent for this millisecond; the caller must
    /// wait for the clock to advance and try again.
    SequenceExhausted,
}

/// The identifier value composed from its four fields:
/// `delta` milliseconds since the epoch, datacenter tag, worker tag,
/// sequence counter.
pub open spec fn spec_compose(delta: int, datacenter: int, worker: int, sequence: int) -> int {
    delta * 4194304 + datacenter * 131072 + worker * 4096 + sequence
}

/// Milliseconds since the identifier epoch encoded in `id`.
pub open spec fn spec_timestamp_delta_of(id: u64) -> int {
    id as int / 4194304
}

/// Datacenter tag encoded in `id`.
pub open spec fn spec_datacenter_of(id: u64) -> int {
    (id as int / 131072) % 32
}

/// Worker tag encoded in `id`.
pub open spec fn spec_worker_of(id: u64) -> int {
    (id as int / 4096) % 32
}

/// Sequence counter encoded in `id`.
pub open spec fn spec_sequence_of(id: u64) -> int {
    id as int % 4096
}

/// Field ranges under which an identifier composes without overflow.
pub open spec fn spec_fields_in_range(
    delta: int,
    datacenter: int,
    worker: int,
    sequence: int,
) -> bool {
    &&& 0 <= delta <= 4398046511103
    &&& 0 <= datacenter < 32
    &&& 0 <= worker < 32
    &&& 0 <= sequence < 4096
}

/// Composing an identifier from in-range fields stays within 64 bits and
/// each field is recovered exactly by the extraction functions.
pub proof fn lemma_compose_fields(delta: int, datacenter: int, worker: int, sequence: int)
    requires
        spec_fields_in_range(delta, datacenter, worker, sequence),
    ensures
        0 <= spec_compose(delta, datacenter, worker, sequence) <= u64::MAX,
        spec_timestamp_delta_of(spec_compose(delta, datacenter, worker, sequence) as u64) == delta,
        spec_datacenter_of(spec_compose(delta, datacenter, worker, sequence) as u64) == datacenter,
        spec_worker_of(spec_compose(delta, datacenter, worker, sequence) as u64) == worker,
        spec_sequence_of(spec_compose(delta, datacenter, worker, sequence) as u64) == sequence,
{
    let id = spec_compose(delta, datacenter, worker, sequence);
    let low22 = datacenter * 131072 + worker * 4096 + sequence;
    lemma_mul_inequality(delta, 4398046511103, 4194304);
    assert(0 <= id <= u64::MAX);
    assert(id == delta * 4194304 + low22);
    assert(0 <= low22 < 4194304);
    lemma_fundamental_div_mod_converse(id, 4194304, delta, low22);
    assert(spec_timestamp_delta_of(id as u64) == delta);

    assert(delta * 4194304 == (delta * 32) * 131072) by (nonlinear_arith);
    assert(id == (delta * 32 + datacenter) * 131072 + (worker * 4096 + sequence)) by (nonlinear_arith)
        requires
            id == delta * 4194304 + datacenter * 131072 + worker * 4096 + sequence,
    ;
    lemma_fundamental_div_mod_converse(
        id,
        131072,
        delta * 32 + datacenter,
        worker * 4096 + sequence,
    );
    assert((delta * 32 + datacenter) % 32 == datacenter) by (nonlinear_arith)
        requires
            0 <= datacenter < 32,
    ;
    assert(spec_datacenter_of(id as u64) == datacenter);

    assert(id == (delta * 1024 + datacenter * 32 + worker) * 4096 + sequence) by (nonlinear_arith)
        requires
            id == delta * 4194304 + datacenter * 131072 + worker * 4096 + sequence,
    ;
    lemma_fundamental_div_mod_converse(
        id,
        4096,
        delta * 1024 + datacenter * 32 + worker,
        sequence,
    );
    assert((delta * 1024 + datacenter * 32 + worker) % 32 == worker) by (nonlinear_arith)
        requires
            0 <= worker < 32,
    ;
    assert(spec_worker_of(id as u64) == worker);
    assert(spec_sequence_of(id as u64) == sequence);
}

/// Packs the four identifier fields into one 64-bit value.
pub fn compose_id(delta: u64, datacenter: u64, worker: u64, sequence: u64) -> (id: u64)
    requires
        delta <= MAX_TIMESTAMP_DELTA,
        datacenter < 32,
        worker < 32,
        sequence <= MAX_SEQUENCE,
    ensures
        id == spec_compose(delta as int, datacenter as int, worker as int, sequence as int),
{
    proof {
        lemma_compose_fields(delta as int, datacenter as int, worker as int, sequence as int);
    }
    delta * 4194304 + datacenter * 131072 + worker * 4096 + sequence
}

/// How one successful mint moves the shared counter: either the clock
/// advanced and the sequence restarted at zero, or the same millisecond
/// recurred and the sequence stepped up without wrapping.
pub open spec fn spec_mint_advances(
    last_before: u64,
    seq_before: u64,
    last_after: u64,
    seq_after: u64,
) -> bool {
    ||| (last_after > last_before && seq_after == 0)
    ||| (last_after == last_before && seq_after == seq_before + 1 && seq_after <= MAX_SEQUENCE)
}

/// A generator's counter state is valid when its sequence fits the
/// 12-bit field.
pub open spec fn spec_generator_wf(last_timestamp: u64, sequence: u64) -> bool {
    sequence <= MAX_SEQUENCE
}

/// Relies on std::time::SystemTime::now and SystemTime::duration_since:
/// the result is the milliseconds elapsed since the Unix epoch, or None
/// when the system clock reads earlier than that epoch. Nothing further
/// is assumed of the value: successive readings may move arbitrarily.
#[verifier::external_body]
fn current_milliseconds() -> (r: Option<u64>) {
    match std::time::SystemTime::now().duration_since(std::time::UNIX_EPOCH) {
        Ok(d) => Some(d.as_millis() as u64),
        Err(_) => None,
    }
}

/// Busy-polls the clock until it reads strictly past `last_timestamp`.
/// In practice this returns at the next millisecond tick. A working
/// clock advances within a handful of polls; if billions of polls see
/// it stand still, the wait gives up and reports None, which callers
/// treat as a clock fault.
fn wait_for_next_ms(last_timestamp: u64) -> (r: Option<u64>)
    ensures
        r matches Some(t) ==> t > last_timestamp,
{
    let mut fuel: u64 = 4000000000;
    while fuel > 0
        decreases fuel,
    {
        fuel = fuel - 1;
        match current_milliseconds() {
            Some(t) => {
                if t > last_timestamp {
                    return Some(t);
                }
            },
            None => {},
        }
    }
    None
}

/// The shared counter behind identifier minting: the last timestamp an
/// identifier was issued for and the sequence used within that
/// millisecond. One instance per process; concurrent callers must
/// serialize on it.
pub struct SuidGenerator {
    pub last_timestamp: u64,
    pub sequence: u64,
}

/// The clock reading is earlier than the last issued timestamp.
pub open spec fn spec_clock_backwards(g: SuidGenerator, now: u64) -> bool {
    now < g.last_timestamp
}

/// The sequence field is spent for the current millisecond.
pub open spec fn spec_sequence_exhausted(g: SuidGenerator, now: u64) -> bool {
    now == g.last_timestamp && g.sequence == MAX_SEQUENCE
}

/// The clock reading fits the 42-bit timestamp field.
pub open spec fn spec_timestamp_in_range(now: u64) -> bool {
    SUID_EPOCH_MS <= now && now as int - SUID_EPOCH_MS <= MAX_TIMESTAMP_DELTA
}

/// The sequence value a mint at `now` issues: one more within the same
/// millisecond, zero in a fresh one.
pub open spec fn spec_next_sequence(g: SuidGenerator, now: u64) -> int {
    if now == g.last_timestamp {
        g.sequence + 1
    } else {
        0
    }
}

/// The identifier a mint at `now` issues.
pub open spec fn spec_minted_id(g: SuidGenerator, now: u64, worker: u64, datacenter: u64) -> int {
    spec_compose(
        now as int - SUID_EPOCH_MS,
        datacenter as int,
        worker as int,
        spec_next_sequence(g, now),
    )
}

impl SuidGenerator {
    pub open spec fn wf(self) -> bool {
        spec_generator_wf(self.last_timestamp, self.sequence)
    }

    /// A fresh generator: both counters start at zero, as at process start.
    pub fn new() -> (g: SuidGenerator)
        ensures
            g.wf(),
            g.last_timestamp == 0,
            g.sequence == 0,
    {
        SuidGenerator { last_timestamp: 0, sequence: 0 }
    }

    /// One mint attempt against the clock reading `now`, the whole
    /// read-modify-write of the shared counter. The outcome is exact in
    /// `now` and the prior state: a backward clock refuses, a spent
    /// sequence asks the caller to wait, an out-of-range timestamp
    /// refuses, and otherwise the counter advances and the identifier is
    /// composed from the new state.
    pub fn mint_at(&mut self, now: u64, worker_id: u64, datacenter_id: u64) -> (r: Result<
        MintStep,
        SuidError,
    >)
        requires
            old(self).wf(),
            worker_id < 32,
            datacenter_id < 32,
        ensures
            final(self).wf(),
            spec_clock_backwards(*old(self), now) ==> (r == Err::<MintStep, SuidError>(
                SuidError::ClockBackwards,
            ) && *final(self) == *old(self)),
            (!spec_clock_backwards(*old(self), now) && spec_sequence_exhausted(*old(self), now))
                ==> (r == Ok::<MintStep, SuidError>(MintStep::SequenceExhausted) && *final(self)
                == *old(self)),
            (!spec_clock_backwards(*old(self), now) && !spec_sequence_exhausted(*old(self), now)
                && !spec_timestamp_in_range(now)) ==> (r == Err::<MintStep, SuidError>(
                SuidError::TimestampOutOfRange,
            ) && *final(self) == *old(self)),
            (!spec_clock_backwards(*old(self), now) && !spec_sequence_exhausted(*old(self), now)
                && spec_timestamp_in_range(now)) ==> (final(self).last_timestamp == now
                && final(self).sequence == spec_next_sequence(*old(self), now)
                && r == Ok::<MintStep, SuidError>(
                MintStep::Minted(spec_minted_id(*old(self), now, worker_id, datacenter_id) as u64),
            ) && spec_mint_advances(
                old(self).last_timestamp,
                old(self).sequence,
                final(self).last_timestamp,
                final(self).sequence,
            )),
    {
        if now < self.last_timestamp {
            return Err(SuidError::ClockBackwards);
        }
        if now == self.last_timestamp && self.sequence == MAX_SEQUENCE {
            return Ok(MintStep::SequenceExhausted);
        }
        if now < SUID_EPOCH_MS || now - SUID_EPOCH_MS > MAX_TIMESTAMP_DELTA {
            return Err(SuidError::TimestampOutOfRange);
        }
        let next_sequence: u64 = if now == self.last_timestamp {
            self.sequence + 1
        } else {
            0
        };
        self.last_timestamp = now;
        self.sequence = next_sequence;
        let id = compose_id(now - SUID_EPOCH_MS, datacenter_id, worker_id, next_sequence);
        Ok(MintStep::Minted(id))
    }

    /// Mints the next identifier against the process clock. Within a
    /// spent millisecond it busy-waits for the next tick, as the shared
    /// counter design requires. The clock is outside the program, so the
    /// contract states what holds of every outcome: on success the
    /// counter advanced lexicographically and the identifier is composed
    /// from the new counter state; on failure the counter is untouched.
    pub fn generate_suid_u64(&mut self, worker_id: u64, datacenter_id: u64) -> (r: Result<
        u64,
        SuidError,
    >)
        requires
            old(self).wf(),
            worker_id < 32,
            datacenter_id < 32,
        ensures
            final(self).wf(),
            r is Err ==> *final(self) == *old(self),
            r is Ok ==> spec_mint_advances(
                old(self).last_timestamp,
                old(self).sequence,
                final(self).last_timestamp,
                final(self).sequence,
            ),
            r is Ok ==> spec_timestamp_in_range(final(self).last_timestamp),
            (r matches Ok(id) ==> id as int == spec_compose(
                final(self).last_timestamp - SUID_EPOCH_MS,
                datacenter_id as int,
                worker_id as int,
                final(self).sequence as int,
            )),
    {
        let now = match current_milliseconds() {
            Some(t) => t,
            None => {
                return Err(SuidError::ClockBackwards);
            },
        };
        match self.mint_at(now, worker_id, datacenter_id) {
            Ok(MintStep::Minted(id)) => Ok(id),
            Ok(MintStep::SequenceExhausted) => {
                let fresh = match wait_for_next_ms(self.last_timestamp) {
                    Some(t) => t,
                    None => {
                        return Err(SuidError::ClockBackwards);
                    },
                };
                match self.mint_at(fresh, worker_id, datacenter_id) {
                    Ok(MintStep::Minted(id)) => Ok(id),
                    Ok(MintStep::SequenceExhausted) => {
                        // a strictly later millisecond cannot find the
                        // sequence spent
                        proof {
                            assert(false);
                        }
                        Err(SuidError::ClockBackwards)
                    },
                    Err(e) => Err(e),
                }
            },
            Err(e) => Err(e),
        }
    }

    /// Mints the next identifier and returns its 11-character text form,
    /// with worker tag 1 and datacenter tag 1, the process-wide defaults.
    pub fn suid(&mut self) -> (r: Result<String, SuidError>)
        requires
            old(self).wf(),
        ensures
            final(self).wf(),
            r is Err ==> *final(self) == *old(self),
            r is Ok ==> spec_mint_advances(
                old(self).last_timestamp,
                old(self).sequence,
                final(self).last_timestamp,
                final(self).sequence,
            ),
            r is Ok ==> spec_timestamp_in_range(final(self).last_timestamp),
            (r matches Ok(text) ==> text@ == crate::codec::spec_id_text(
                spec_state_id(final(self).last_timestamp, final(self).sequence, 1, 1) as u64,
            )),
    {
        match self.generate_suid_u64(1, 1) {
            Ok(id) => Ok(crate::codec::to_base64url(id)),
            Err(e) => Err(e),
        }
    }
}

/// Counter states whose timestamp fits the identifier's timestamp field
/// and whose sequence fits its sequence field.
pub open spec fn spec_state_in_range(last_timestamp: u64, sequence: u64) -> bool {
    spec_timestamp_in_range(last_timestamp) && sequence <= MAX_SEQUENCE
}

/// The identifier composed from a counter state, for fixed tags.
pub open spec fn spec_state_id(
    last_timestamp: u64,
    sequence: u64,
    worker: u64,
    datacenter: u64,
) -> int {
    spec_compose(
        last_timestamp - SUID_EPOCH_MS,
        datacenter as int,
        worker as int,
        sequence as int,
    )
}

/// One counter advance strictly increases the identifier value: a later
/// millisecond outweighs any sequence value, and within one millisecond
/// the sequence grows.
pub proof fn lemma_mint_monotonic(
    last1: u64,
    seq1: u64,
    last2: u64,
    seq2: u64,
    worker: u64,
    datacenter: u64,
)
    requires
        spec_mint_advances(last1, seq1, last2, seq2),
        spec_state_in_range(last1, seq1),
        spec_state_in_range(last2, seq2),
        worker < 32,
        datacenter < 32,
    ensures
        spec_state_id(last1, seq1, worker, datacenter) < spec_state_id(
            last2,
            seq2,
            worker,
            datacenter,
        ),
{
    let d1 = last1 - SUID_EPOCH_MS;
    let d2 = last2 - SUID_EPOCH_MS;
    if last2 == last1 {
    } else {
        lemma_mul_inequality(d1 + 1, d2, 4194304);
    }
}

/// A run of counter states where each step is one successful mint.
pub open spec fn spec_mint_chain(states: Seq<(u64, u64)>) -> bool {
    forall|i: int|
        0 <= i && i + 1 < states.len() ==> spec_mint_advances(
            (#[trigger] states[i]).0,
            states[i].1,
            states[i + 1].0,
            states[i + 1].1,
        )
}

/// Every state of the run fits the identifier fields.
pub open spec fn spec_chain_in_range(states: Seq<(u64, u64)>) -> bool {
    forall|i: int|
        0 <= i < states.len() ==> spec_state_in_range(
            (#[trigger] states[i]).0,
            states[i].1,
        )
}

/// Uniqueness and ordering law: along any run of successful mints with
/// fixed worker and datacenter tags, identifier values strictly
/// increase — so any number of mints, however many fall within one
/// millisecond, yield pairwise distinct identifiers — and the timestamp
/// field decoded from a later identifier is never smaller than that of
/// an earlier one.
pub proof fn lemma_chain_ids_increase(
    states: Seq<(u64, u64)>,
    i: int,
    j: int,
    worker: u64,
    datacenter: u64,
)
    requires
        spec_mint_chain(states),
        spec_chain_in_range(states),
        0 <= i < j < states.len(),
        worker < 32,
        datacenter < 32,
    ensures
        spec_state_id(states[i].0, states[i].1, worker, datacenter) < spec_state_id(
            states[j].0,
            states[j].1,
            worker,
            datacenter,
        ),
        states[i].0 <= states[j].0,
        spec_timestamp_delta_of(
            spec_state_id(states[i].0, states[i].1, worker, datacenter) as u64,
        ) <= spec_timestamp_delta_of(
            spec_state_id(states[j].0, states[j].1, worker, datacenter) as u64,
        ),
    decreases j - i,
{
    if i + 1 == j {
        lemma_mint_monotonic(
            states[i].0,
            states[i].1,
            states[j].0,
            states[j].1,
            worker,
            datacenter,
        );
    } else {
        lemma_chain_ids_increase(states, i, j - 1, worker, datacenter);
        lemma_mint_monotonic(
            states[j - 1].0,
            states[j - 1].1,
            states[j].0,
            states[j].1,
            worker,
            datacenter,
        );
    }
    lemma_compose_fields(
        states[i].0 - SUID_EPOCH_MS,
        datacenter as int,
        worker as int,
        states[i].1 as int,
    );
    lemma_compose_fields(
        states[j].0 - SUID_EPOCH_MS,
        datacenter as int,
        worker as int,
        states[j].1 as int,
    );
}

} // verus!
