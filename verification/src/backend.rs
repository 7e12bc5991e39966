//! The hardware backend marker.
//!
//! Binding the default output device and its stream is inherently I/O and
//! lives in the embedding application: given a sample rate and a processor,
//! the driver must call the per-sample processing step exactly once per
//! output slot, write the returned stereo frame into the device buffer,
//! report setup failure through a one-shot handshake before signalling
//! readiness, and release the stream once it observes the quit signal.

use vstd::prelude::*;

verus! {

/// Names the default hardware backend the embedding application drives.
pub struct CpalBackend {}

impl CpalBackend {
    pub fn new() -> (b: CpalBackend)
        ensures
            b == (CpalBackend {  }),
    {
        CpalBackend {  }
    }
}

} // verus!
