//! The job registry: at most one batch is controllable at a time. A new
//! start while one is running is rejected with a busy error instead of
//! silently replacing the running job's cancellation handle.
use vstd::prelude::*;

verus! {

/// The registry's two states: idle, or holding the one running job.
pub struct JobRegistry {
    /// Whether a batch currently holds the registry.
    pub running: bool,
}

impl JobRegistry {
    /// An idle registry.
    pub fn new() -> (r: JobRegistry)
        ensures
            !r.running,
    {
        JobRegistry { running: false }
    }

    /// Claims the registry for a new batch; refused while one is running.
    pub fn try_start(&mut self) -> (r: Result<(), String>)
        ensures
            old(self).running ==> (r is Err && final(self).running && r->Err_0@
                == "A batch is already running"@),
            !old(self).running ==> (r is Ok && final(self).running),
    {
        if self.running {
            Err("A batch is already running".to_owned())
        } else {
            self.running = true;
            Ok(())
        }
    }

    /// Releases the registry when a batch ends, by completion or
    /// cancellation; idempotent.
    pub fn finish(&mut self)
        ensures
            !final(self).running,
    {
        self.running = false;
    }

    /// Whether a batch currently holds the registry.
    pub fn is_running(&self) -> (r: bool)
        ensures
            r == self.running,
    {
        self.running
    }
}

} // verus!
