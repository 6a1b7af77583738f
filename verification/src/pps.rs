//! PPS edges: capture in the interrupt handler, intervals in the service loop.
//!
//! The interrupt handler stores the time of each edge and counts it. The service
//! loop looks at both and works out the interval since the edge before.

use core::sync::atomic::{AtomicU32, Ordering};
use portable_atomic::AtomicU64;
use std::sync::Arc;
use vstd::prelude::*;

verus! {

/// Pin on which the pulses come in.
pub const GPIO_PIN: i32 = 12;

/// The 64-bit atomic integer of `portable-atomic`. Its contents change behind
/// shared references, so nothing is said about them.
#[verifier::external_type_specification]
#[verifier::external_body]
pub struct ExAtomicU64(AtomicU64);

/// `AtomicU64::new` of `portable-atomic` makes an atomic integer that holds `v`. What
/// it holds later is not said, as it may be written at any time. That a cell came out
/// of this call, and with which argument, is said with `call_ensures`.
pub assume_specification[ AtomicU64::new ](v: u64) -> AtomicU64;

/// `AtomicU64::load` of `portable-atomic`, with relaxed ordering, reads an atomic
/// integer. Any value may come back, as the interrupt handler may write at any time.
#[verifier::external_body]
fn load_edge(cell: &AtomicU64) -> u64 {
    cell.load(Ordering::Relaxed)
}

/// `AtomicU64::store` of `portable-atomic`, with relaxed ordering, writes an atomic
/// integer. What a later read gives is not said, as others may write in between.
#[verifier::external_body]
fn store_edge(cell: &AtomicU64, v: u64) {
    cell.store(v, Ordering::Relaxed)
}

/// `Arc::clone` gives another handle on the same value.
#[verifier::external_body]
fn share<T>(handle: &Arc<T>) -> (r: Arc<T>)
    ensures
        r == *handle,
{
    Arc::clone(handle)
}

/// What the interrupt handler and the service loop share.
pub struct PpsMonitor {
    edge_us: Arc<AtomicU64>,
    count: Arc<AtomicU32>,
}

/// The last edge that the service loop has seen.
#[derive(Debug, Clone, Copy, PartialEq, Eq, Structural)]
pub struct PpsPollState {
    /// Number of edges at that time.
    pub last_count: u32,
    /// Time of that edge; 0 if there was none.
    pub last_edge_us: u64,
}

impl Default for PpsPollState {
    fn default() -> (r: Self)
        ensures
            r == (PpsPollState { last_count: 0, last_edge_us: 0 }),
    {
        PpsPollState { last_count: 0, last_edge_us: 0 }
    }
}

/// An edge that the service loop has not seen before.
#[derive(Debug, Clone, Copy, PartialEq, Eq, Structural)]
pub enum PpsEvent {
    /// The first one.
    First {
        /// Time of the edge.
        edge_us: i64,
    },
    /// A later one.
    Delta {
        /// Time since the edge before.
        interval_us: u32,
        /// Time of the edge.
        edge_us: i64,
    },
}

/// A monotonic time as a signed number.
pub open spec fn signed_us(us: u64) -> i64 {
    if us <= i64::MAX {
        us as i64
    } else {
        (us - 0x1_0000_0000_0000_0000) as i64
    }
}

/// The time between two edges modulo 2^32. It is right across a wraparound of the
/// timer.
pub open spec fn delta_us(current_us: u64, previous_us: u64) -> u32 {
    ((current_us - previous_us) % 0x1_0000_0000) as u32
}

/// Compute the time between two edges.
pub fn pps_delta_us(current_us: u64, previous_us: u64) -> (r: u32)
    ensures
        r == delta_us(current_us, previous_us),
{
    let d: u64 = current_us.wrapping_sub(previous_us);
    (d % 0x1_0000_0000) as u32
}

impl PpsPollState {
    /// Number of edges at the last look.
    pub fn pulse_count(&self) -> (r: u32)
        ensures
            r == self.last_count,
    {
        self.last_count
    }

    /// What the loop makes of a count and the time of the last edge.
    ///
    /// Nothing, if the count has not grown. Otherwise the edge is the first one if none
    /// was counted before, and a later one if some was.
    pub open spec fn event(self, count: u32, edge_us: u64) -> Option<PpsEvent> {
        if count <= self.last_count {
            None
        } else if self.last_count > 0 {
            Some(
                PpsEvent::Delta {
                    interval_us: delta_us(edge_us, self.last_edge_us),
                    edge_us: signed_us(edge_us),
                },
            )
        } else {
            Some(PpsEvent::First { edge_us: signed_us(edge_us) })
        }
    }

    /// The state after that look.
    pub open spec fn after(self, count: u32, edge_us: u64) -> PpsPollState {
        if count <= self.last_count {
            self
        } else {
            PpsPollState { last_count: count, last_edge_us: edge_us }
        }
    }

    /// Take in a count and the time of the last edge.
    pub fn observe(&mut self, count: u32, edge_us: u64) -> (r: Option<PpsEvent>)
        ensures
            r == old(self).event(count, edge_us),
            *final(self) == old(self).after(count, edge_us),
    {
        if count <= self.last_count {
            return None;
        }
        let signed: i64 = if edge_us <= i64::MAX as u64 {
            edge_us as i64
        } else {
            -((u64::MAX - edge_us) as i64) - 1
        };
        let event = if self.last_count > 0 {
            PpsEvent::Delta {
                interval_us: pps_delta_us(edge_us, self.last_edge_us),
                edge_us: signed,
            }
        } else {
            PpsEvent::First { edge_us: signed }
        };
        self.last_count = count;
        self.last_edge_us = edge_us;
        Some(event)
    }
}

impl Default for PpsMonitor {
    fn default() -> (r: Self)
        ensures
            r.starts_at_zero(),
    {
        Self::new()
    }
}

impl PpsMonitor {
    /// Whether both cells were made with zero: no time of an edge and no edge counted.
    pub open spec fn starts_at_zero(&self) -> bool {
        &&& call_ensures(AtomicU64::new, (0u64,), self.edge_cell())
        &&& call_ensures(AtomicU32::new, (0u32,), self.count_cell())
    }

    /// A monitor that has seen no edge.
    pub fn new() -> (r: Self)
        ensures
            r.starts_at_zero(),
    {
        let edge_cell = AtomicU64::new;
        let count_cell = AtomicU32::new;
        PpsMonitor { edge_us: Arc::new(edge_cell(0)), count: Arc::new(count_cell(0)) }
    }

    /// The cell that holds the time of the last edge.
    pub closed spec fn edge_cell(&self) -> AtomicU64 {
        *self.edge_us
    }

    /// The cell that holds the number of edges.
    pub closed spec fn count_cell(&self) -> AtomicU32 {
        *self.count
    }

    /// A handle on the time of the last edge, for the interrupt handler.
    pub fn edge_us(&self) -> (r: Arc<AtomicU64>)
        ensures
            *r == self.edge_cell(),
    {
        share(&self.edge_us)
    }

    /// A handle on the number of edges, for the interrupt handler.
    pub fn count(&self) -> (r: Arc<AtomicU32>)
        ensures
            *r == self.count_cell(),
    {
        share(&self.count)
    }

    /// Whether the time was stored in the cell `edge_us` and one was added to the cell
    /// `count`.
    pub closed spec fn recorded(edge_us: &AtomicU64, count: &AtomicU32, now_us: u64) -> bool {
        &&& call_ensures(store_edge, (edge_us, now_us), ())
        &&& exists|before: u32|
            call_ensures(AtomicU32::fetch_add, (count, 1u32, Ordering::Relaxed), before)
    }

    /// Store the time of an edge and count it.
    pub fn record_edge(edge_us: &AtomicU64, count: &AtomicU32, now_us: u64)
        ensures
            Self::recorded(edge_us, count, now_us),
    {
        let store = store_edge;
        let add_to = AtomicU32::fetch_add;
        store(edge_us, now_us);
        add_to(count, 1, Ordering::Relaxed);
    }

    /// Whether the two cells of this monitor were read, and this count and this time
    /// came back.
    pub closed spec fn found(&self, count: u32, edge_us: u64) -> bool {
        &&& call_ensures(AtomicU32::load, (&self.count_cell(), Ordering::Relaxed), count)
        &&& call_ensures(load_edge, (&self.edge_cell(),), edge_us)
    }

    /// Look whether there was another edge.
    ///
    /// The result and the new state are those of [`PpsPollState::observe`] for the
    /// count and the time that are found in the cells of this monitor.
    pub fn poll(&self, state: &mut PpsPollState) -> (r: Option<PpsEvent>)
        ensures
            exists|count: u32, edge_us: u64| #[trigger]
                self.found(count, edge_us) && r == old(state).event(count, edge_us)
                    && *final(state) == old(state).after(count, edge_us),
    {
        let load_count = AtomicU32::load;
        let load_time = load_edge;
        let count: u32 = load_count(&self.count, Ordering::Relaxed);
        let edge_us: u64 = load_time(&self.edge_us);
        assert(self.found(count, edge_us));
        state.observe(count, edge_us)
    }
}

/// The interval between two edges comes out right as long as it is below 2^32
/// microseconds, also when the timer wraps around in between.
pub proof fn law_delta_survives_wraparound(previous_us: u64, interval_us: u32)
    ensures
        delta_us(
            ((previous_us + interval_us) % 0x1_0000_0000_0000_0000) as u64,
            previous_us,
        ) == interval_us,
{
    let sum = previous_us + interval_us;
    let current = sum % 0x1_0000_0000_0000_0000;
    assert(current == sum || current == sum - 0x1_0000_0000_0000_0000);
    if current != sum {
        assert((interval_us - 0x1_0000_0000_0000_0000) % 0x1_0000_0000 == interval_us);
    }
}

/// An edge is reported once: without another edge the next look finds nothing.
pub proof fn law_edge_is_reported_once(state: PpsPollState, count: u32, edge_us: u64, again_us: u64)
    ensures
        state.after(count, edge_us).event(count, again_us) is None,
        state.after(count, edge_us).after(count, again_us) == state.after(count, edge_us),
{
}

/// From a fresh state the first edge that is seen is the first one, and every one
/// that is seen after it has an interval, whatever the times are.
pub proof fn law_first_then_delta(
    first_count: u32,
    first_us: u64,
    later: PpsPollState,
    count: u32,
    edge_us: u64,
)
    requires
        0 < first_count <= later.last_count < count,
    ensures
        ({
            let fresh = PpsPollState { last_count: 0, last_edge_us: 0 };
            &&& fresh.event(first_count, first_us) == Some(
                PpsEvent::First { edge_us: signed_us(first_us) },
            )
            &&& fresh.after(first_count, first_us).last_count == first_count
            &&& later.event(count, edge_us) == Some(
                PpsEvent::Delta {
                    interval_us: delta_us(edge_us, later.last_edge_us),
                    edge_us: signed_us(edge_us),
                },
            )
            &&& later.after(count, edge_us).last_count == count
        }),
{
}

/// A monotonic time and its signed form agree modulo 2^64, and are the same below 2^63.
pub proof fn law_signed_time(us: u64)
    ensures
        us < 0x8000_0000_0000_0000 ==> signed_us(us) == us,
        us >= 0x8000_0000_0000_0000 ==> signed_us(us) == us - 0x1_0000_0000_0000_0000,
{
}

/// Without a higher count nothing is reported and nothing changes. With one, the edge is
/// reported, and count and time are remembered.
pub proof fn law_count_tells_of_edges(state: PpsPollState, count: u32, edge_us: u64)
    ensures
        count <= state.last_count ==> state.event(count, edge_us) is None && state.after(
            count,
            edge_us,
        ) == state,
        count > state.last_count ==> {
            &&& state.event(count, edge_us) is Some
            &&& state.after(count, edge_us).last_count == count
            &&& state.after(count, edge_us).last_edge_us == edge_us
        },
{
}

impl PpsMonitor {
    /// The cells of a fresh monitor were made with zero.
    pub proof fn law_fresh_cells(&self)
        ensures
            self.starts_at_zero() ==> {
                &&& call_ensures(AtomicU64::new, (0u64,), self.edge_cell())
                &&& call_ensures(AtomicU32::new, (0u32,), self.count_cell())
            },
    {
    }
}

} // verus!
