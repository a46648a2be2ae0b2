//! Worker thread settings.

use vstd::prelude::*;

use crate::config::env::{bounded, bounded_count, fits, lemma_bounded, says, Environment};
use crate::config::error::{ConfigError, ConfigErrorView};

verus! {

/// Tokio worker thread settings.
#[derive(Debug, PartialEq, Eq)]
pub struct ThreadSettings {
    worker_threads: usize,
}

impl View for ThreadSettings {
    type V = u64;

    closed spec fn view(&self) -> u64 {
        self.worker_threads as u64
    }
}

/// The number of worker threads in an environment.
pub open spec fn thread_settings(env: Seq<(Seq<char>, Seq<char>)>) -> Result<
    u64,
    ConfigErrorView,
> {
    bounded(env, "WORKER_THREADS"@, 3, 1, 256, usize::MAX as u64)
}

impl ThreadSettings {
    /// The number of worker threads.
    pub fn worker_threads(&self) -> (r: usize)
        ensures
            r == self@,
    {
        self.worker_threads
    }

    pub fn from_env(env: &Environment) -> (r: Result<ThreadSettings, ConfigError>)
        ensures
            match (r, thread_settings(env@)) {
                (Ok(a), Ok(b)) => a@ == b,
                (Err(a), Err(b)) => a@ == b,
                _ => false,
            },
    {
        match bounded_count(env, "WORKER_THREADS", 3, 1, 256) {
            Ok(worker_threads) => Ok(ThreadSettings { worker_threads }),
            Err(e) => Err(e),
        }
    }
}

/// There are as many worker threads as are set, from one to 256, or three.
pub proof fn threads_are_as_documented(env: Seq<(Seq<char>, Seq<char>)>)
    ensures
        thread_settings(env) is Ok <==> fits(env, "WORKER_THREADS"@, 1, 256),
        thread_settings(env) matches Ok(n) ==> says(env, "WORKER_THREADS"@, 3, n as int),
{
    lemma_bounded(env, "WORKER_THREADS"@, 3, 1, 256, usize::MAX as u64);
}

} // verus!
