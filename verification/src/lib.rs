//! Blocking translation between language pairs: what is asked of the
//! on-device framework and of its worker processes, and what is made of
//! their replies.
//!
//! Nothing here waits, reads or writes. Each operation is given as the call
//! or the step that is to be performed next, and takes its outcome as a value:
//! [`translator`] for the calls of the framework, [`batch`] for a batch of
//! requests, [`worker_pool`] for the exchange with a worker process,
//! [`config`] for how a worker is found and set up, and [`registry`] for which
//! worker serves which language pair. [`cli`], [`stress`] and [`functional`]
//! hold what the programs around the library decide.
use vstd::prelude::*;

pub mod batch;
pub mod cli;
pub mod config;
pub mod error;
pub mod functional;
pub mod registry;
pub mod request;
pub mod stress;
pub mod text;
pub mod translator;
pub mod wire;
pub mod worker_pool;

pub use batch::{is_usable_batch, BatchAction, BatchRun};
pub use config::{normalize_locale, set_worker_num_engines, worker_num_engines, WorkerConfig};
pub use error::{source_target_error, take_last_error, LastError, TranslationError};
pub use request::{TranslationRequest, TranslationResponse};
pub use translator::{
    check_language_availability, detect_language, FrameworkCall, LanguageTranslator,
};
pub use worker_pool::{ExchangeAction, WorkerExchange, WorkerPool};

verus! {

} // verus!
