//! A worker-pool and proxy-rotation engine for repeatedly submitting poll
//! votes through a rotating set of proxy endpoints.
//!
//! The heart of the crate is the orchestration core: an id allocator that
//! recycles worker identifiers, a registry of live workers with cooperative
//! shutdown, a message queue carrying per-worker outcomes, and a manager that
//! claims proxy endpoints (at most one live worker per endpoint), spawns
//! workers, and drives a bounded graceful shutdown.  The surrounding network,
//! timer and script-evaluation plumbing lives outside the library; the
//! library states and proves what every state transition does.

pub mod atomic_id_gen;
pub mod error;
pub mod interface;
pub mod manager;
pub mod nonce;
pub mod poll_code;
pub mod proxy_info;
pub mod quiz;
pub mod urls;
pub mod util;
pub mod vote_response;
pub mod worker_manager;

pub use crate::error::PollError;
pub use crate::manager::{Manager, SpawnError, SpawnedWorker};
pub use crate::nonce::Nonce;
pub use crate::poll_code::PollCode;
pub use crate::quiz::{Quiz, QuizAnswer};
pub use crate::vote_response::{HtmlResponse, JsonResponse, VoteResponse};
pub use crate::worker_manager::{Worker, WorkerManager, WorkerMessage};
