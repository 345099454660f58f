//! The background worker that owns a backend.

use crate::backend::NetworkBackend;
use vstd::prelude::*;

verus! {

/// Owns the backend that it drives.
pub struct NetworkWorker<B: NetworkBackend> {
    backend: B,
}

} // verus!
