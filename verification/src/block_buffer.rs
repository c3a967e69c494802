//! Bridging fixed-size engine blocks onto device buffers of any size.
//!
//! The engine renders exactly one block of samples at a time; the output
//! device asks for buffers of whatever size it likes. The audio callback
//! keeps the last rendered block and a cursor into it: it copies what is
//! left of the block, renders the next block when the current one is used
//! up, and carries any leftover samples over to the next callback.
//!
//! The callback asks [`BlockCursor::next_step`] what to do until the device
//! buffer is full; the cursor keeps count of the blocks rendered and the
//! samples delivered, so that its contract can say which rendered sample
//! each delivered sample is.

use vstd::prelude::*;

verus! {

/// What the audio callback does next.
#[derive(Debug, Clone, Copy, PartialEq, Eq, Structural)]
pub enum BridgeStep {
    /// The current block is used up: render the next one.
    Render,
    /// Copy `count` samples of the current block, starting at `start`.
    Copy { start: usize, count: usize },
}

/// A cursor into the current engine block.
pub struct BlockCursor {
    block_len: usize,
    pos: usize,
    /// The number of blocks rendered so far.
    rendered: Ghost<nat>,
    /// The number of samples delivered to the device so far.
    delivered: Ghost<nat>,
}

/// The state of a cursor: block length, position in the current block,
/// blocks rendered, samples delivered.
pub struct CursorModel {
    pub block_len: nat,
    pub pos: nat,
    pub rendered: nat,
    pub delivered: nat,
}

impl View for BlockCursor {
    type V = CursorModel;

    closed spec fn view(&self) -> CursorModel {
        CursorModel {
            block_len: self.block_len as nat,
            pos: self.pos as nat,
            rendered: self.rendered@,
            delivered: self.delivered@,
        }
    }
}

/// Every delivered sample was taken, in order, from the rendered blocks:
/// before the first render nothing is delivered and the (empty) block counts
/// as used up; afterwards the samples delivered are exactly the samples of
/// the earlier blocks plus the first `pos` samples of the current one.
pub open spec fn cursor_wf(c: CursorModel) -> bool {
    &&& c.block_len > 0
    &&& c.pos <= c.block_len
    &&& if c.rendered == 0 {
        c.pos == c.block_len && c.delivered == 0
    } else {
        c.delivered == (c.rendered - 1) * c.block_len + c.pos
    }
}

/// The step the cursor asks for when `remaining` samples of the device
/// buffer are still to be filled.
pub open spec fn step_spec(c: CursorModel, remaining: nat) -> BridgeStep {
    if c.pos >= c.block_len {
        BridgeStep::Render
    } else {
        BridgeStep::Copy {
            start: c.pos as usize,
            count: (if c.block_len - c.pos < remaining {
                (c.block_len - c.pos) as nat
            } else {
                remaining
            }) as usize,
        }
    }
}

/// The cursor after the next block is rendered.
pub open spec fn after_render(c: CursorModel) -> CursorModel {
    CursorModel { pos: 0, rendered: c.rendered + 1, ..c }
}

/// The cursor after `count` samples of the current block are delivered.
pub open spec fn after_copy(c: CursorModel, count: nat) -> CursorModel {
    CursorModel { pos: c.pos + count, delivered: c.delivered + count, ..c }
}

impl BlockCursor {
    /// Every cursor is well formed.
    #[verifier::type_invariant]
    spec fn inv(self) -> bool {
        cursor_wf(self@)
    }

    /// A cursor for blocks of `block_len` samples, before the first block is
    /// rendered (so the first callback renders).
    pub fn new(block_len: usize) -> (cursor: Self)
        requires
            block_len > 0,
        ensures
            cursor@ == (CursorModel {
                block_len: block_len as nat,
                pos: block_len as nat,
                rendered: 0,
                delivered: 0,
            }),
    {
        BlockCursor { block_len, pos: block_len, rendered: Ghost(0), delivered: Ghost(0) }
    }

    /// The next step of an audio callback with `remaining` samples of the
    /// device buffer left to fill, which the caller then carries out: when
    /// the current block is used up, render the next block into the buffer;
    /// else copy as much of the rest of the block as fits. The cursor
    /// records the step as done.
    pub fn next_step(&mut self, remaining: usize) -> (step: BridgeStep)
        ensures
            cursor_wf(old(self)@),
            cursor_wf(final(self)@),
            step == step_spec(old(self)@, remaining as nat),
            match step {
                BridgeStep::Render => final(self)@ == after_render(old(self)@),
                BridgeStep::Copy { start, count } => {
                    &&& final(self)@ == after_copy(old(self)@, count as nat)
                    &&& start + count <= old(self)@.block_len
                    &&& count <= remaining
                    &&& (remaining > 0 ==> count > 0)
                    &&& (old(self)@.rendered - 1) * old(self)@.block_len + start == old(
                        self,
                    )@.delivered
                },
            },
    {
        proof {
            use_type_invariant(&*self);
        }
        if self.pos >= self.block_len {
            proof {
                lemma_render_keeps_wf(self@);
            }
            *self = BlockCursor {
                block_len: self.block_len,
                pos: 0,
                rendered: Ghost(self.rendered@ + 1),
                delivered: Ghost(self.delivered@),
            };
            BridgeStep::Render
        } else {
            let start = self.pos;
            let left = self.block_len - self.pos;
            let count = if left < remaining {
                left
            } else {
                remaining
            };
            *self = BlockCursor {
                block_len: self.block_len,
                pos: self.pos + count,
                rendered: Ghost(self.rendered@),
                delivered: Ghost(self.delivered@ + count as nat),
            };
            BridgeStep::Copy { start, count }
        }
    }
}

/// Rendering a block once the current one is used up keeps the cursor well
/// formed.
proof fn lemma_render_keeps_wf(c: CursorModel)
    requires
        cursor_wf(c),
        c.pos == c.block_len,
    ensures
        cursor_wf(after_render(c)),
{
    let n: int = c.rendered as int;
    let b: int = c.block_len as int;
    assert((n + 1 - 1) * b == n * b);
    if n > 0 {
        assert((n - 1) * b + b == n * b) by (nonlinear_arith);
    } else {
        assert(n * b == 0) by (nonlinear_arith)
            requires
                n == 0,
        ;
    }
}

/// The cursor after one audio callback that fills `remaining` samples by
/// following the cursor's steps.
pub open spec fn after_callback(c: CursorModel, remaining: nat) -> CursorModel
    decreases remaining, (if c.pos >= c.block_len { 1int } else { 0int }),
{
    if remaining == 0 || c.block_len == 0 {
        c
    } else if c.pos >= c.block_len {
        after_callback(after_render(c), remaining)
    } else {
        let count: nat = if c.block_len - c.pos < remaining {
            (c.block_len - c.pos) as nat
        } else {
            remaining
        };
        after_callback(after_copy(c, count), (remaining - count) as nat)
    }
}

/// An audio callback that fills `remaining` samples delivers exactly those
/// samples, each once and in order: afterwards the cursor is still well
/// formed (the samples delivered are the samples of the rendered blocks, in
/// order) and `remaining` more samples have been delivered. A block is only
/// rendered when at least one of its samples is delivered: a callback that
/// fills anything ends inside a block it has started to deliver.
pub proof fn lemma_callback_delivers_every_sample_once(c: CursorModel, remaining: nat)
    requires
        cursor_wf(c),
    ensures
        cursor_wf(after_callback(c, remaining)),
        after_callback(c, remaining).block_len == c.block_len,
        after_callback(c, remaining).delivered == c.delivered + remaining,
        remaining > 0 ==> after_callback(c, remaining).pos > 0,
    decreases remaining, (if c.pos >= c.block_len { 1int } else { 0int }),
{
    if remaining == 0 {
    } else if c.pos >= c.block_len {
        lemma_render_keeps_wf(c);
        lemma_callback_delivers_every_sample_once(after_render(c), remaining);
    } else {
        let count: nat = if c.block_len - c.pos < remaining {
            (c.block_len - c.pos) as nat
        } else {
            remaining
        };
        lemma_callback_delivers_every_sample_once(after_copy(c, count), (remaining - count) as nat);
    }
}

} // verus!
