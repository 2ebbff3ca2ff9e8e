use vstd::prelude::*;

use crate::error::{ArgumentError, SyscallError};
use crate::event::{spec_validate, validate, EntryView, StructuredEvent};
use crate::gas::{spec_charge, spec_emit_cost, GasMeter, GasState, PriceList};
use crate::limits::{spec_exceeds, EventLimits};
use crate::log::EffectLog;
use crate::memory::{in_bounds, Memory};

verus! {

/// Abstract state of the host side of one invocation.
pub struct KernelState {
    pub prices: PriceList,
    pub gas: GasState,
    pub log: Seq<Seq<EntryView>>,
    pub capacity: nat,
}

/// Abstract state of one invocation as the syscall boundary sees it.
pub struct ContextState {
    pub memory: Seq<u8>,
    pub limits: EventLimits,
    pub kernel: KernelState,
}

/// The host side after it is handed `raw`, and its answer: charge for the
/// payload, validate it, then record it.
pub open spec fn spec_kernel_emit(k: KernelState, raw: Seq<u8>) -> (KernelState, Result<(), SyscallError>) {
    let (gas, paid) = spec_charge(k.gas, spec_emit_cost(k.prices, raw.len()));
    if !paid {
        (KernelState { gas, ..k }, Err(SyscallError::OutOfGas))
    } else {
        match spec_validate(raw) {
            Err(e) => (KernelState { gas, ..k }, Err(SyscallError::IllegalArgument(e))),
            Ok(es) => if k.log.len() < k.capacity {
                (KernelState { gas, log: k.log.push(es), ..k }, Ok(()))
            } else {
                (KernelState { gas, ..k }, Err(SyscallError::HostError))
            },
        }
    }
}

/// The invocation after the guest asks to emit the event at
/// `(offset, length)`, and the syscall's answer: limit check, memory read,
/// then the host side.
pub open spec fn spec_emit(c: ContextState, offset: u32, length: u32) -> (ContextState, Result<(), SyscallError>) {
    if spec_exceeds(c.limits, length) {
        (c, Err(SyscallError::IllegalArgument(ArgumentError::EventTooLarge)))
    } else if !in_bounds(c.memory.len(), offset, length) {
        (c, Err(SyscallError::MemoryAccessOutOfBounds))
    } else {
        let (k, r) = spec_kernel_emit(
            c.kernel,
            c.memory.subrange(offset as int, offset as int + length as int),
        );
        (ContextState { kernel: k, ..c }, r)
    }
}

/// The host side of one invocation: its gas, its prices and its effect log.
pub struct Kernel {
    gas: GasMeter,
    prices: PriceList,
    log: EffectLog,
}

impl View for Kernel {
    type V = KernelState;

    closed spec fn view(&self) -> KernelState {
        KernelState {
            prices: self.prices,
            gas: self.gas@,
            log: self.log@,
            capacity: self.log.spec_capacity(),
        }
    }
}

impl Kernel {
    pub fn new(gas: GasMeter, prices: PriceList, log: EffectLog) -> (r: Kernel)
        ensures
            r@ == (KernelState {
                prices,
                gas: gas@,
                log: log@,
                capacity: log.spec_capacity(),
            }),
    {
        Kernel { gas, prices, log }
    }

    pub fn gas(&self) -> (r: &GasMeter)
        ensures
            r@ == self@.gas,
    {
        &self.gas
    }

    pub fn prices(&self) -> (r: PriceList)
        ensures
            r == self@.prices,
    {
        self.prices
    }

    pub fn log(&self) -> (r: &EffectLog)
        ensures
            r@ == self@.log,
            r.spec_capacity() == self@.capacity,
    {
        &self.log
    }

    /// Charges for `raw` before reading it, validates it, and records the
    /// event, as `spec_kernel_emit` describes.
    pub fn emit_event(&mut self, raw: &[u8]) -> (r: Result<(), SyscallError>)
        ensures
            (final(self)@, r) == spec_kernel_emit(old(self)@, raw@),
    {
        let cost = self.prices.on_emit_event(raw.len());
        self.gas.charge(cost)?;
        let event = match validate(raw) {
            Ok(event) => event,
            Err(e) => return Err(SyscallError::IllegalArgument(e)),
        };
        self.log.record(event)
    }
}

/// One invocation as the syscall boundary sees it: the host side, the guest's
/// memory and the static limits.
pub struct Context {
    pub kernel: Kernel,
    pub memory: Memory,
    pub limits: EventLimits,
}

impl View for Context {
    type V = ContextState;

    open spec fn view(&self) -> ContextState {
        ContextState { memory: self.memory@, limits: self.limits, kernel: self.kernel@ }
    }
}

/// Emits the event that the guest wrote at `(event_off, event_len)` of its
/// memory: checks the length against the limits, reads the bytes, charges
/// for them, validates the record and appends it to the effect log, in that
/// order, as `spec_emit` describes.
pub fn emit_event(context: &mut Context, event_off: u32, event_len: u32) -> (r: Result<(), SyscallError>)
    ensures
        (final(context)@, r) == spec_emit(old(context)@, event_off, event_len),
{
    context.limits.check(event_len)?;
    let raw = context.memory.try_slice(event_off, event_len)?;
    context.kernel.emit_event(raw)
}

/// The event that the bytes at `(offset, length)` of `c`'s memory hold.
pub open spec fn payload_event(c: ContextState, offset: u32, length: u32) -> Seq<EntryView> {
    spec_validate(c.memory.subrange(offset as int, offset as int + length as int))->Ok_0
}

/// A length over the active limit is refused as an illegal argument before
/// anything else happens: no gas is charged, no memory is read, nothing is
/// recorded.
pub proof fn lemma_oversized_refused_first(c: ContextState, offset: u32, length: u32)
    requires
        c.limits.enabled,
        length > c.limits.max_len,
    ensures
        spec_emit(c, offset, length) == (c, Err::<(), SyscallError>(
            SyscallError::IllegalArgument(ArgumentError::EventTooLarge),
        )),
{
}

/// A call that fails for any reason but exhaustion fails the same way when
/// repeated with the same arguments, and charges the same gas again, as long
/// as the gas left still covers that charge.
pub proof fn lemma_failure_repeats(c: ContextState, offset: u32, length: u32)
    requires
        spec_emit(c, offset, length).1 is Err,
        spec_emit(c, offset, length).1 != Err::<(), SyscallError>(SyscallError::OutOfGas),
        spec_emit(c, offset, length).0.kernel.gas.remaining >= c.kernel.gas.remaining
            - spec_emit(c, offset, length).0.kernel.gas.remaining,
    ensures
        ({
            let c1 = spec_emit(c, offset, length).0;
            let c2 = spec_emit(c1, offset, length).0;
            &&& spec_emit(c1, offset, length).1 == spec_emit(c, offset, length).1
            &&& c1.kernel.gas.remaining - c2.kernel.gas.remaining == c.kernel.gas.remaining
                - c1.kernel.gas.remaining
            &&& c2.kernel.log == c.kernel.log
        }),
{
}

/// One call never raises the remaining gas; and once a call has run out of
/// gas, a later call on a well-formed meter deducts nothing and never
/// succeeds.
pub proof fn lemma_emit_gas_monotone(c: ContextState, offset: u32, length: u32, next_offset: u32, next_length: u32)
    ensures
        spec_emit(c, offset, length).0.kernel.gas.remaining <= c.kernel.gas.remaining,
        c.kernel.gas.wf() ==> spec_emit(c, offset, length).0.kernel.gas.wf(),
        (c.kernel.gas.wf() && spec_emit(c, offset, length).1 == Err::<(), SyscallError>(
            SyscallError::OutOfGas,
        )) ==> ({
            let c1 = spec_emit(c, offset, length).0;
            &&& spec_emit(c1, next_offset, next_length).0.kernel.gas == c1.kernel.gas
            &&& c1.kernel.gas.remaining == 0
            &&& spec_emit(c1, next_offset, next_length).1 is Err
        }),
{
}

/// The invocation after a sequence of emit calls, each an `(offset, length)`.
pub open spec fn run_emits(c: ContextState, calls: Seq<(u32, u32)>) -> ContextState
    decreases calls.len(),
{
    if calls.len() == 0 {
        c
    } else {
        let prev = run_emits(c, calls.drop_last());
        spec_emit(prev, calls.last().0, calls.last().1).0
    }
}

/// Along any sequence of calls, the remaining gas after `n` calls is at most
/// the remaining gas after `n - 1`.
pub proof fn lemma_gas_never_increases_along_calls(c: ContextState, calls: Seq<(u32, u32)>, n: int)
    requires
        0 < n <= calls.len(),
    ensures
        run_emits(c, calls.take(n)).kernel.gas.remaining <= run_emits(c, calls.take(n - 1)).kernel.gas.remaining,
{
    assert(calls.take(n).drop_last() =~= calls.take(n - 1));
    let prev = run_emits(c, calls.take(n - 1));
    lemma_emit_gas_monotone(prev, calls[n - 1].0, calls[n - 1].1, 0, 0);
}

/// Three successful calls append their three events to the log in the order
/// of the calls.
pub proof fn lemma_events_recorded_in_order(c: ContextState, a: (u32, u32), b: (u32, u32), d: (u32, u32))
    requires
        spec_emit(c, a.0, a.1).1 is Ok,
        spec_emit(spec_emit(c, a.0, a.1).0, b.0, b.1).1 is Ok,
        spec_emit(spec_emit(spec_emit(c, a.0, a.1).0, b.0, b.1).0, d.0, d.1).1 is Ok,
    ensures
        spec_emit(spec_emit(spec_emit(c, a.0, a.1).0, b.0, b.1).0, d.0, d.1).0.kernel.log
            == c.kernel.log + seq![
            payload_event(c, a.0, a.1),
            payload_event(c, b.0, b.1),
            payload_event(c, d.0, d.1),
        ],
{
    let c1 = spec_emit(c, a.0, a.1).0;
    let c2 = spec_emit(c1, b.0, b.1).0;
    let c3 = spec_emit(c2, d.0, d.1).0;
    assert(c1.memory == c.memory && c2.memory == c.memory);
    assert(c3.kernel.log =~= c.kernel.log + seq![
        payload_event(c, a.0, a.1),
        payload_event(c, b.0, b.1),
        payload_event(c, d.0, d.1),
    ]);
}

} // verus!
