use vstd::prelude::*;

use crate::buffer::Buffer;
use crate::resolver::fits;

verus! {

/// How the editor reads keys.
#[derive(Clone, Copy, Debug, PartialEq, Eq, Structural)]
pub enum Mode {
    Normal,
    Insert,
}

/// The editing context of every command: the active buffer, if there is one,
/// and the mode.
#[derive(Clone, Debug)]
pub struct Application {
    pub buffer: Option<Buffer>,
    pub mode: Mode,
}

impl Application {
    pub fn new(buffer: Option<Buffer>) -> (r: Application)
        ensures
            r.buffer == buffer,
            r.mode == Mode::Normal,
    {
        Application { buffer, mode: Mode::Normal }
    }

    /// The positions of the active buffer's token stream fit in machine
    /// integers.
    pub open spec fn tokens_fit(&self) -> bool {
        self.buffer is Some ==> fits(self.buffer->Some_0.tokens@)
    }
}

/// Switches the editor to insert mode.
pub fn switch_to_insert_mode(app: &mut Application)
    ensures
        final(app).buffer == old(app).buffer,
        final(app).mode == Mode::Insert,
{
    app.mode = Mode::Insert;
}

} // verus!
