//! The orchestrator of a run: zoom level after zoom level, it hands out the
//! tiles of the level's rectangle, never more at once than the limiter
//! admits, and moves on only when every tile of the level has finished.
//!
//! It decides and does no work: its driver performs each step (maps the
//! corners of the area, fetches a tile) and reports back.

use crate::limiter::{acquire_step, release_step, ConcurrencyLimiter, LimiterState};
use crate::rect::{corners_rect, TileRect};
use crate::tile::{TileIndex, MAX_ZOOM};
use vstd::prelude::*;

verus! {

/// A configuration that is refused before any work starts.
#[derive(Clone, Copy, Debug, PartialEq, Eq, Structural)]
pub enum ConfigError {
    /// No download would ever be admitted.
    ZeroParallelism,
    /// The first zoom level lies beyond the last.
    ZoomRangeReversed,
    /// The last zoom level is deeper than `MAX_ZOOM`.
    ZoomTooDeep,
}

/// What the driver does next.
#[derive(Clone, Copy, Debug, PartialEq, Eq, Structural)]
pub enum Step {
    /// Map the area's two corners at this zoom level and hand them to
    /// `enter_level`.
    Enter { zoom: u32 },
    /// Fetch and store this tile, then report with `finish_tile`.
    Fetch { tile: TileIndex },
    /// Wait until a tile in flight finishes.
    Wait,
    /// Every level is done.
    Finished,
}

/// How one tile's fetch and store ended.
#[derive(Debug)]
pub enum DownloadOutcome {
    Success { tile: TileIndex },
    /// The fetch failed; `cause` says why.
    Failure { tile: TileIndex, cause: String },
}

impl DownloadOutcome {
    pub open spec fn tile_spec(&self) -> TileIndex {
        match self {
            DownloadOutcome::Success { tile } => *tile,
            DownloadOutcome::Failure { tile, .. } => *tile,
        }
    }

    /// The tile that the outcome is about.
    pub fn tile(&self) -> (t: TileIndex)
        ensures
            t == self.tile_spec(),
    {
        match self {
            DownloadOutcome::Success { tile } => *tile,
            DownloadOutcome::Failure { tile, .. } => *tile,
        }
    }

    pub fn is_success(&self) -> (ok: bool)
        ensures
            ok == self is Success,
    {
        match self {
            DownloadOutcome::Success { .. } => true,
            DownloadOutcome::Failure { .. } => false,
        }
    }
}

/// What a batch holds.
pub struct BatchState {
    pub min_zoom: nat,
    pub max_zoom: nat,
    pub zoom: nat,
    /// The rectangle of the current level, once its corners are known.
    pub rect: Option<TileRect>,
    /// Tiles of the current level handed out so far, in the rectangle's order.
    pub started: nat,
    /// Tiles of the current level that have finished, either way.
    pub completed: nat,
    /// Tiles of the current level that have failed.
    pub failed: nat,
    pub finished: bool,
    pub gate: LimiterState,
}

/// The invariant of a batch.
pub open spec fn batch_wf(s: BatchState) -> bool {
    &&& s.min_zoom <= s.zoom <= s.max_zoom <= MAX_ZOOM
    &&& s.gate.capacity >= 1
    &&& s.gate.in_flight <= s.gate.capacity
    &&& s.completed <= s.started
    &&& s.gate.in_flight == s.started - s.completed
    &&& s.failed <= s.completed
    &&& match s.rect {
        Some(r) => r.wf() && r.zoom == s.zoom && s.started <= r.count_spec(),
        None => s.started == 0 && !s.finished,
    }
    &&& s.finished ==> s.zoom == s.max_zoom && s.gate.in_flight == 0
}

/// The next step of a batch and the state it leaves behind.
pub open spec fn next_step_spec(s: BatchState) -> (BatchState, Step) {
    if s.finished {
        (s, Step::Finished)
    } else {
        match s.rect {
            None => (s, Step::Enter { zoom: s.zoom as u32 }),
            Some(r) => if s.started < r.count_spec() && acquire_step(s.gate).1 {
                (
                    BatchState { started: s.started + 1, gate: acquire_step(s.gate).0, ..s },
                    Step::Fetch { tile: r.tile_at_spec(s.started as int) },
                )
            } else if s.completed == r.count_spec() {
                if s.zoom == s.max_zoom {
                    (BatchState { finished: true, ..s }, Step::Finished)
                } else {
                    (
                        BatchState {
                            zoom: s.zoom + 1,
                            rect: None,
                            started: 0,
                            completed: 0,
                            failed: 0,
                            ..s
                        },
                        Step::Enter { zoom: (s.zoom + 1) as u32 },
                    )
                }
            } else {
                (s, Step::Wait)
            },
        }
    }
}

/// The state after the corners `a` and `b` of the current level are known.
pub open spec fn enter_spec(s: BatchState, a: TileIndex, b: TileIndex) -> BatchState {
    BatchState { rect: Some(corners_rect(a, b)), started: 0, completed: 0, failed: 0, ..s }
}

/// The state after a tile in flight finishes, successfully or not.
pub open spec fn finish_spec(s: BatchState, ok: bool) -> BatchState {
    BatchState {
        completed: s.completed + 1,
        failed: if ok { s.failed } else { s.failed + 1 },
        gate: release_step(s.gate),
        ..s
    }
}

/// The orchestrator of one run.
pub struct Batch {
    min_zoom: u32,
    max_zoom: u32,
    zoom: u32,
    rect: Option<TileRect>,
    started: u64,
    completed: u64,
    failed: u64,
    finished: bool,
    limiter: ConcurrencyLimiter,
}

impl View for Batch {
    type V = BatchState;

    closed spec fn view(&self) -> BatchState {
        BatchState {
            min_zoom: self.min_zoom as nat,
            max_zoom: self.max_zoom as nat,
            zoom: self.zoom as nat,
            rect: self.rect,
            started: self.started as nat,
            completed: self.completed as nat,
            failed: self.failed as nat,
            finished: self.finished,
            gate: self.limiter@,
        }
    }
}

impl Batch {
    pub closed spec fn wf(&self) -> bool {
        &&& batch_wf(self@)
        &&& self.limiter.wf()
    }

    /// A run over the zoom levels `min_zoom..=max_zoom` with at most
    /// `parallelism` tiles in flight, waiting for the corners of its first
    /// level. The configuration is validated before anything else happens.
    pub fn new(min_zoom: u32, max_zoom: u32, parallelism: u64) -> (r: Result<Batch, ConfigError>)
        ensures
            r == Err::<Batch, _>(ConfigError::ZeroParallelism) <==> parallelism == 0,
            r == Err::<Batch, _>(ConfigError::ZoomRangeReversed) <==> parallelism > 0
                && min_zoom > max_zoom,
            r == Err::<Batch, _>(ConfigError::ZoomTooDeep) <==> parallelism > 0 && min_zoom
                <= max_zoom && max_zoom > MAX_ZOOM,
            r is Ok <==> parallelism > 0 && min_zoom <= max_zoom && max_zoom <= MAX_ZOOM,
            r matches Ok(b) ==> b.wf() && batch_wf(b@) && b@ == (BatchState {
                min_zoom: min_zoom as nat,
                max_zoom: max_zoom as nat,
                zoom: min_zoom as nat,
                rect: None,
                started: 0,
                completed: 0,
                failed: 0,
                finished: false,
                gate: LimiterState { capacity: parallelism as nat, in_flight: 0 },
            }),
    {
        let limiter = match ConcurrencyLimiter::new(parallelism) {
            Ok(l) => l,
            Err(_) => {
                return Err(ConfigError::ZeroParallelism);
            },
        };
        if min_zoom > max_zoom {
            return Err(ConfigError::ZoomRangeReversed);
        }
        if max_zoom > MAX_ZOOM {
            return Err(ConfigError::ZoomTooDeep);
        }
        Ok(
            Batch {
                min_zoom,
                max_zoom,
                zoom: min_zoom,
                rect: None,
                started: 0,
                completed: 0,
                failed: 0,
                finished: false,
                limiter,
            },
        )
    }

    /// The level being worked on.
    pub fn zoom(&self) -> (z: u32)
        ensures
            z == self@.zoom,
    {
        self.zoom
    }

    /// Tiles of the current level that have failed so far.
    pub fn failed(&self) -> (n: u64)
        ensures
            n == self@.failed,
    {
        self.failed
    }

    /// Tiles of the current level that have finished so far.
    pub fn completed(&self) -> (n: u64)
        ensures
            n == self@.completed,
    {
        self.completed
    }

    /// Tiles in flight.
    pub fn in_flight(&self) -> (n: u64)
        requires
            self.wf(),
        ensures
            n == self@.gate.in_flight,
    {
        self.limiter.in_flight()
    }

    /// Decides what the driver does next.
    pub fn next_step(&mut self) -> (step: Step)
        requires
            old(self).wf(),
        ensures
            final(self).wf(),
            batch_wf(final(self)@),
            (final(self)@, step) == next_step_spec(old(self)@),
    {
        if self.finished {
            return Step::Finished;
        }
        let r = match self.rect {
            None => {
                return Step::Enter { zoom: self.zoom };
            },
            Some(r) => r,
        };
        let count = r.count();
        if self.started < count {
            if self.limiter.try_acquire() {
                let tile = r.tile_at(self.started);
                self.started = self.started + 1;
                return Step::Fetch { tile };
            }
        }
        if self.completed == count {
            if self.zoom == self.max_zoom {
                self.finished = true;
                Step::Finished
            } else {
                self.zoom = self.zoom + 1;
                self.rect = None;
                self.started = 0;
                self.completed = 0;
                self.failed = 0;
                Step::Enter { zoom: self.zoom }
            }
        } else {
            Step::Wait
        }
    }

    /// Starts the current level with the tiles that its two corners span.
    pub fn enter_level(&mut self, a: TileIndex, b: TileIndex)
        requires
            old(self).wf(),
            old(self)@.rect is None,
            a.wf(),
            b.wf(),
            a.zoom == old(self)@.zoom,
            b.zoom == old(self)@.zoom,
        ensures
            final(self).wf(),
            batch_wf(final(self)@),
            final(self)@ == enter_spec(old(self)@, a, b),
    {
        self.rect = Some(TileRect::from_corners(a, b));
        self.started = 0;
        self.completed = 0;
        self.failed = 0;
    }

    /// Records that a tile in flight has finished; a failed tile is counted
    /// and otherwise treated as any other.
    pub fn finish_tile(&mut self, outcome: &DownloadOutcome)
        requires
            old(self).wf(),
            old(self)@.gate.in_flight > 0,
        ensures
            final(self).wf(),
            batch_wf(final(self)@),
            final(self)@ == finish_spec(old(self)@, outcome is Success),
    {
        let ok = outcome.is_success();
        self.limiter.release();
        self.completed = self.completed + 1;
        if !ok {
            self.failed = self.failed + 1;
        }
    }
}

/// Every step keeps the invariant: in particular, never more tiles are in
/// flight than the parallelism admits.
pub proof fn lemma_steps_keep_invariant(s: BatchState, ok: bool, a: TileIndex, b: TileIndex)
    requires
        batch_wf(s),
    ensures
        batch_wf(next_step_spec(s).0),
        next_step_spec(s).0.gate.in_flight <= s.gate.capacity,
        s.gate.in_flight > 0 ==> batch_wf(finish_spec(s, ok)),
        s.rect is None && a.wf() && b.wf() && a.zoom == s.zoom && b.zoom == s.zoom ==> batch_wf(
            enter_spec(s, a, b),
        ),
{
    if s.rect is None && a.wf() && b.wf() && a.zoom == s.zoom && b.zoom == s.zoom {
        let r = corners_rect(a, b);
        assert(r.count_spec() >= 1) by (nonlinear_arith)
            requires
                r.width_spec() >= 1,
                r.height_spec() >= 1,
                r.count_spec() == r.width_spec() * r.height_spec(),
        ;
    }
}

/// A batch leaves a level only after every tile of its rectangle has been
/// handed out and has finished, with nothing left in flight.
pub proof fn lemma_level_barrier(s: BatchState)
    requires
        batch_wf(s),
        next_step_spec(s).0.zoom != s.zoom,
    ensures
        s.rect matches Some(r) && s.started == r.count_spec() && s.completed == r.count_spec(),
        s.gate.in_flight == 0,
        next_step_spec(s).0.zoom == s.zoom + 1,
        next_step_spec(s).1 == (Step::Enter { zoom: (s.zoom + 1) as u32 }),
{
}

/// A failed tile changes nothing but the failure count: the batch goes on
/// exactly as after a success, to the remaining tiles and the next level.
pub proof fn lemma_failure_isolated(s: BatchState)
    requires
        batch_wf(s),
        s.gate.in_flight > 0,
    ensures
        finish_spec(s, false) == (BatchState { failed: s.failed + 1, ..finish_spec(s, true) }),
        next_step_spec(finish_spec(s, false)).1 == next_step_spec(finish_spec(s, true)).1,
        next_step_spec(finish_spec(s, false)).0.zoom == next_step_spec(finish_spec(s, true)).0.zoom,
{
}

/// A batch never waits with nothing in flight, and always admits a new tile
/// while one of the level is still to be handed out and a slot is free: no
/// tile is left behind.
pub proof fn lemma_no_idle_wait(s: BatchState)
    requires
        batch_wf(s),
    ensures
        s.gate.in_flight == 0 ==> next_step_spec(s).1 != Step::Wait,
        s.rect is Some && !s.finished && s.started < s.rect->0.count_spec() && s.gate.in_flight
            < s.gate.capacity ==> next_step_spec(s).1 == (Step::Fetch {
            tile: s.rect->0.tile_at_spec(s.started as int),
        }),
{
}

} // verus!
