//! Display-server engine core: client and protocol bookkeeping, surface
//! arrangement, zero-copy buffer import planning, input normalisation and the
//! per-tick scheduling of the reactor, each stated and proved with Verus.

pub mod client;
pub mod dmabuf;
pub mod input;
pub mod keyboard;
pub mod output;
pub mod progress;
pub mod reactor;
pub mod router;
pub mod seat;
pub mod shell;
pub mod shm;
pub mod state;
