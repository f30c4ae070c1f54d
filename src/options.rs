//! Options that tell how an input file is stored.
use vstd::prelude::*;

verus! {

/// Whether an input file is compressed, where the user said so.
#[derive(Debug, Clone, Copy, Default, PartialEq, Eq, Structural)]
pub struct CompressInfoOpt {
    /// The input file is compressed.
    pub compressed: bool,
    /// The input file is not compressed.
    pub uncompressed: bool,
}

impl CompressInfoOpt {
    /// `Some(true)` where the input was said to be compressed, else
    /// `Some(false)` where it was said to be uncompressed, else `None`: then
    /// the file's name decides.
    pub fn input_is_compressed(&self) -> (r: Option<bool>)
        ensures
            r == if self.compressed {
                Some(true)
            } else if self.uncompressed {
                Some(false)
            } else {
                None
            },
    {
        if self.compressed {
            Some(true)
        } else if self.uncompressed {
            Some(false)
        } else {
            None
        }
    }
}

} // verus!
