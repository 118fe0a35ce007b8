//! The command encoder: the ordered stream of render-pass commands a
//! frame records. Pass boundaries are explicit commands, so the strict
//! back-to-front draw order and the end-pass/reopen protocol around mesh
//! and custom-pipeline draws are visible in the recorded sequence.

use vstd::prelude::*;
use crate::geometry::Color;
use crate::geometry::Rectangle;

verus! {

/// How an opened pass treats the existing target contents.
#[derive(Clone, Copy, PartialEq, Eq, Structural, Debug)]
pub enum PassLoad {
    /// Clear the target to the color before drawing.
    Clear(Color),
    /// Keep the target's existing contents.
    Keep,
}

/// One recorded render command. `layer` counters are per-kind indices
/// into that kind's prepared resources, each kind numbered independently
/// and monotonically across the frame.
#[derive(Clone, Copy, PartialEq, Eq, Structural, Debug)]
pub enum Command {
    /// Opens a shared render pass on the frame's target.
    BeginPass { load: PassLoad },
    /// Closes the currently open pass.
    EndPass,
    /// Draws one prepared quad batch, scissored to physical bounds.
    DrawQuads { layer: usize, bounds: Rectangle },
    /// Opens the mesh pipeline's own multisampled pass for one prepared
    /// mesh batch; incompatible with the shared pass.
    BeginMeshPass { layer: usize, bounds: Rectangle },
    /// Resolves the multisampled mesh pass into the target.
    Resolve,
    /// Draws one prepared image batch, scissored to physical bounds.
    DrawImages { layer: usize, bounds: Rectangle },
    /// Draws one prepared text batch, scissored to physical bounds.
    DrawText { layer: usize, bounds: Rectangle },
    /// Hands one custom-pipeline invocation its own pass scope, clipped
    /// to the invocation's physical viewport.
    DrawCustom { pipeline: u64, viewport: Rectangle },
}

/// A frame's worth of recorded commands.
#[derive(Debug)]
pub struct Encoder {
    pub commands: Vec<Command>,
}

impl View for Encoder {
    type V = Seq<Command>;

    open spec fn view(&self) -> Seq<Command> {
        self.commands@
    }
}

impl Encoder {
    /// An encoder with nothing recorded.
    pub fn new() -> (r: Encoder)
        ensures
            r@ == Seq::<Command>::empty(),
    {
        let r = Encoder { commands: Vec::new() };
        proof {
            assert(r@ =~= Seq::<Command>::empty());
        }
        r
    }

    /// Records one command.
    pub fn record(&mut self, c: Command)
        ensures
            final(self)@ == old(self)@.push(c),
    {
        self.commands.push(c);
    }

    /// How many commands are recorded.
    pub fn len(&self) -> (r: usize)
        ensures
            r == self@.len(),
    {
        self.commands.len()
    }
}

} // verus!
