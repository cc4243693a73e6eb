//! The status table: the last published value of each kind, with a
//! per-kind update generation and the sticky closed flag.
//!
//! The receiver loop is the only writer; readers detect fresh answers
//! by watching a kind's generation grow past the value it had when
//! their query went out.

use crate::state::{SetState, State};
use vstd::prelude::*;

verus! {

/// One published value and the number of times its kind has been
/// published.
#[derive(Clone, Copy, PartialEq, Eq, Structural, Debug)]
pub struct StatusEntry {
    pub value: SetState,
    pub generation: u64,
}

/// What a waiting reader finds in the table.
#[derive(Clone, Copy, PartialEq, Eq, Structural, Debug)]
pub enum WaitOutcome {
    /// A value fresher than the reader's snapshot has been published.
    Ready(SetState),
    /// The connection is closed; no further update can arrive.
    Closed,
    /// Nothing new yet; the reader must keep waiting.
    Pending,
}

/// The map from status kind to last-known entry. All kinds start
/// absent; `closed` is sticky once set.
#[derive(Clone, Copy, PartialEq, Eq, Structural, Debug)]
pub struct StatusTable {
    pub power: Option<StatusEntry>,
    pub source_input: Option<StatusEntry>,
    pub main_volume: Option<StatusEntry>,
    pub max_volume: Option<StatusEntry>,
    pub closed: bool,
}

impl StatusTable {
    /// The entry stored for `kind`.
    pub open spec fn spec_entry(self, kind: State) -> Option<StatusEntry> {
        match kind {
            State::Power => self.power,
            State::SourceInput => self.source_input,
            State::MainVolume => self.main_volume,
            State::MaxVolume => self.max_volume,
        }
    }

    /// The generation of `kind`: 0 while nothing has been published.
    pub open spec fn spec_gen(self, kind: State) -> u64 {
        match self.spec_entry(kind) {
            Some(e) => e.generation,
            None => 0,
        }
    }

    /// Every stored entry belongs to the kind it is filed under.
    pub open spec fn wf(self) -> bool {
        &&& (self.power matches Some(e) ==> e.value.kind() == State::Power)
        &&& (self.source_input matches Some(e) ==> e.value.kind() == State::SourceInput)
        &&& (self.main_volume matches Some(e) ==> e.value.kind() == State::MainVolume)
        &&& (self.max_volume matches Some(e) ==> e.value.kind() == State::MaxVolume)
    }

    /// The table after publishing `v`: the entry of `v`'s kind is
    /// replaced and its generation grows (saturating only at the
    /// unreachable top of `u64`).
    pub open spec fn spec_publish(self, v: SetState) -> StatusTable {
        let g = self.spec_gen(v.kind());
        let g2 = if g < u64::MAX {
            (g + 1) as u64
        } else {
            g
        };
        let e = Some(StatusEntry { value: v, generation: g2 });
        match v.kind() {
            State::Power => StatusTable { power: e, ..self },
            State::SourceInput => StatusTable { source_input: e, ..self },
            State::MainVolume => StatusTable { main_volume: e, ..self },
            State::MaxVolume => StatusTable { max_volume: e, ..self },
        }
    }

    /// The table with the closed flag set.
    pub open spec fn spec_close(self) -> StatusTable {
        StatusTable { closed: true, ..self }
    }

    /// What a reader that saw generation `since` when its query went
    /// out finds now. A fresh value wins over a closed flag, so an
    /// answer that arrived just before the close is still delivered.
    pub open spec fn spec_wait_outcome(self, kind: State, since: u64) -> WaitOutcome {
        if self.spec_gen(kind) > since {
            WaitOutcome::Ready(self.spec_entry(kind).unwrap().value)
        } else if self.closed {
            WaitOutcome::Closed
        } else {
            WaitOutcome::Pending
        }
    }

    /// An empty, open table.
    pub fn new() -> (r: StatusTable)
        ensures
            r == (StatusTable {
                power: None,
                source_input: None,
                main_volume: None,
                max_volume: None,
                closed: false,
            }),
            r.wf(),
    {
        StatusTable { power: None, source_input: None, main_volume: None, max_volume: None, closed: false }
    }

    /// Replaces the entry for `v`'s kind and advances its generation;
    /// entries of other kinds and the closed flag are untouched.
    pub fn publish(&mut self, v: SetState)
        ensures
            *final(self) == old(self).spec_publish(v),
            old(self).wf() ==> final(self).wf(),
    {
        let gen: u64 = self.latest_generation(v.state_kind());
        let g2: u64 = if gen < u64::MAX {
            gen + 1
        } else {
            gen
        };
        let e = Some(StatusEntry { value: v, generation: g2 });
        match v.state_kind() {
            State::Power => self.power = e,
            State::SourceInput => self.source_input = e,
            State::MainVolume => self.main_volume = e,
            State::MaxVolume => self.max_volume = e,
        }
    }

    /// The current entry for `kind`, without blocking.
    pub fn snapshot(&self, kind: State) -> (r: Option<StatusEntry>)
        ensures
            r == self.spec_entry(kind),
    {
        match kind {
            State::Power => self.power,
            State::SourceInput => self.source_input,
            State::MainVolume => self.main_volume,
            State::MaxVolume => self.max_volume,
        }
    }

    /// The current generation for `kind`.
    pub fn latest_generation(&self, kind: State) -> (r: u64)
        ensures
            r == self.spec_gen(kind),
    {
        match self.snapshot(kind) {
            Some(e) => e.generation,
            None => 0,
        }
    }

    /// Marks the connection closed; entries stay readable.
    pub fn close(&mut self)
        ensures
            *final(self) == old(self).spec_close(),
            old(self).wf() ==> final(self).wf(),
    {
        self.closed = true;
    }

    /// Whether the connection has closed.
    pub fn is_closed(&self) -> (r: bool)
        ensures
            r == self.closed,
    {
        self.closed
    }

    /// What a reader waiting on `kind` since generation `since` finds.
    pub fn wait_outcome(&self, kind: State, since: u64) -> (r: WaitOutcome)
        ensures
            r == self.spec_wait_outcome(kind, since),
    {
        let gen: u64 = self.latest_generation(kind);
        if gen > since {
            match self.snapshot(kind) {
                Some(e) => WaitOutcome::Ready(e.value),
                None => vstd::pervasive::unreached(),
            }
        } else if self.is_closed() {
            WaitOutcome::Closed
        } else {
            WaitOutcome::Pending
        }
    }
}

/// Publishing never lowers any generation, and raises exactly the
/// published kind's.
pub proof fn lemma_publish_generation_monotonic(t: StatusTable, v: SetState)
    ensures
        forall|k: State| t.spec_gen(k) <= #[trigger] t.spec_publish(v).spec_gen(k),
        t.spec_gen(v.kind()) < u64::MAX ==> t.spec_publish(v).spec_gen(v.kind()) == t.spec_gen(
            v.kind(),
        ) + 1,
        forall|k: State|
            k != v.kind() ==> #[trigger] t.spec_publish(v).spec_entry(k) == t.spec_entry(k),
        t.spec_publish(v).closed == t.closed,
{
}

/// Closing changes no entry and no generation, and a closed table
/// stays closed under publishing: the two flags of the lifecycle are
/// independent of the data.
pub proof fn lemma_close_preserves_entries(t: StatusTable)
    ensures
        forall|k: State| #[trigger] t.spec_close().spec_entry(k) == t.spec_entry(k),
        t.spec_close().closed,
        forall|v: SetState| #[trigger] t.spec_close().spec_publish(v).closed,
{
}

} // verus!
