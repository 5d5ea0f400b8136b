//! The output capability: where a formatter instance sends its characters.

use vstd::prelude::*;

verus! {

/// A destination for formatted output, fed one character code at a time.
///
/// The contract of an output is that it accepts every code it is handed and
/// answers with that same code. Verified implementations say what they have
/// accepted through [`CustomOutPut::received`]; an implementation written
/// outside the verifier has no way to say it and is held to the contract by
/// its author alone.
pub trait CustomOutPut {
    /// Every character code this output has accepted so far, oldest first.
    ///
    /// Left as it is, this names a sequence of which nothing is known, and no
    /// verified `putch` can meet its contract: a verified output defines it.
    open spec fn received(&self) -> Seq<i32> {
        arbitrary()
    }

    /// Accepts one character code and hands it back to confirm receipt.
    fn putch(&mut self, ch: i32) -> (echo: i32)
        ensures
            echo == ch,
            final(self).received() == old(self).received().push(ch),
    ;
}

/// A growable vector of character codes is an output that keeps all it is given.
impl CustomOutPut for Vec<i32> {
    open spec fn received(&self) -> Seq<i32> {
        self@
    }

    fn putch(&mut self, ch: i32) -> (echo: i32) {
        self.push(ch);
        ch
    }
}

} // verus!
