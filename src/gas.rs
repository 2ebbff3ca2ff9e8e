use vstd::prelude::*;

use crate::error::SyscallError;

verus! {

/// Abstract state of a gas meter: the budget left, and whether a charge has
/// already failed.
pub struct GasState {
    pub remaining: u64,
    pub exhausted: bool,
}

impl GasState {
    /// An exhausted meter has no gas left.
    pub open spec fn wf(self) -> bool {
        self.exhausted ==> self.remaining == 0
    }
}

/// The meter after charging `amount`, and whether the charge succeeded.
///
/// A charge on an exhausted meter fails and changes nothing; a charge larger
/// than the budget fails, empties the budget and exhausts the meter.
pub open spec fn spec_charge(g: GasState, amount: u64) -> (GasState, bool) {
    if g.exhausted {
        (g, false)
    } else if amount <= g.remaining {
        (GasState { remaining: (g.remaining - amount) as u64, exhausted: false }, true)
    } else {
        (GasState { remaining: 0, exhausted: true }, false)
    }
}

/// A charge never raises the remaining gas.
pub proof fn lemma_charge_never_increases(g: GasState, amount: u64)
    ensures
        spec_charge(g, amount).0.remaining <= g.remaining,
        g.wf() ==> spec_charge(g, amount).0.wf(),
{
}

/// Once a charge has failed, every later charge on the same meter fails and
/// deducts nothing.
pub proof fn lemma_out_of_gas_is_final(g: GasState, amount: u64, next: u64)
    requires
        g.wf(),
        !spec_charge(g, amount).1,
    ensures
        spec_charge(spec_charge(g, amount).0, next) == (spec_charge(g, amount).0, false),
        spec_charge(g, amount).0.remaining == 0,
{
}

/// The gas budget of one invocation.
pub struct GasMeter {
    remaining: u64,
    exhausted: bool,
}

impl View for GasMeter {
    type V = GasState;

    closed spec fn view(&self) -> GasState {
        GasState { remaining: self.remaining, exhausted: self.exhausted }
    }
}

impl GasMeter {
    /// A meter holding `limit` units of gas.
    pub fn new(limit: u64) -> (r: GasMeter)
        ensures
            r@ == (GasState { remaining: limit, exhausted: false }),
    {
        GasMeter { remaining: limit, exhausted: false }
    }

    pub fn remaining(&self) -> (r: u64)
        ensures
            r == self@.remaining,
    {
        self.remaining
    }

    pub fn is_exhausted(&self) -> (r: bool)
        ensures
            r == self@.exhausted,
    {
        self.exhausted
    }

    /// Deducts `amount`, or fails with `OutOfGas` as `spec_charge` describes.
    pub fn charge(&mut self, amount: u64) -> (r: Result<(), SyscallError>)
        ensures
            final(self)@ == spec_charge(old(self)@, amount).0,
            r == (if spec_charge(old(self)@, amount).1 {
                Ok::<(), SyscallError>(())
            } else {
                Err(SyscallError::OutOfGas)
            }),
    {
        if self.exhausted {
            Err(SyscallError::OutOfGas)
        } else if amount <= self.remaining {
            self.remaining = self.remaining - amount;
            Ok(())
        } else {
            self.remaining = 0;
            self.exhausted = true;
            Err(SyscallError::OutOfGas)
        }
    }
}

/// The prices that the boundary charges for emitting an event: a fixed
/// amount per call and an amount per payload byte.
#[derive(Debug, Clone, Copy, PartialEq, Eq, Structural)]
pub struct PriceList {
    pub event_base: u64,
    pub event_per_byte: u64,
}

/// The price of emitting a payload of `len` bytes, capped at `u64::MAX`.
pub open spec fn spec_emit_cost(p: PriceList, len: nat) -> u64 {
    let c = p.event_base as int + p.event_per_byte as int * len as int;
    if c > u64::MAX as int {
        u64::MAX
    } else {
        c as u64
    }
}

impl PriceList {
    pub fn new(event_base: u64, event_per_byte: u64) -> (r: PriceList)
        ensures
            r.event_base == event_base,
            r.event_per_byte == event_per_byte,
    {
        PriceList { event_base, event_per_byte }
    }

    /// The gas charged for emitting a payload of `len` bytes.
    pub fn on_emit_event(&self, len: usize) -> (r: u64)
        ensures
            r == spec_emit_cost(*self, len as nat),
    {
        let per_byte: u128 = self.event_per_byte as u128;
        let n: u128 = len as u128;
        assert(per_byte * n <= u64::MAX as int * u64::MAX as int) by (nonlinear_arith)
            requires
                per_byte <= u64::MAX,
                n <= u64::MAX,
        ;
        let c: u128 = self.event_base as u128 + per_byte * n;
        if c > u64::MAX as u128 {
            u64::MAX
        } else {
            c as u64
        }
    }
}

} // verus!
