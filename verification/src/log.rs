//! A severity filter over the control channel: records at `Info` and
//! above are forwarded to the active backend, quieter ones are dropped.

use vstd::prelude::*;
use crate::context::Context;
use crate::ipc::ControlInterface;

verus! {

/// The severity of one log record, most severe first.
#[derive(Debug, Clone, Copy, PartialEq, Eq, Structural)]
pub enum LogLevel {
    Error,
    Warn,
    Info,
    Debug,
    Trace,
}

/// Records at `Info` and above are forwarded; quieter ones are not.
pub open spec fn level_enabled(l: LogLevel) -> bool {
    match l {
        LogLevel::Error => true,
        LogLevel::Warn => true,
        LogLevel::Info => true,
        LogLevel::Debug => false,
        LogLevel::Trace => false,
    }
}

/// Forwards sufficiently severe log records to the control channel.
pub struct ControlLogger<B: ControlInterface> {
    pub context: Context<B>,
}

impl<B: ControlInterface> ControlLogger<B> {
    pub fn new(context: Context<B>) -> (r: Self)
        ensures
            r.context == context,
    {
        ControlLogger { context }
    }

    /// Whether a record at this level is forwarded at all.
    pub fn enabled(&self, level: &LogLevel) -> (r: bool)
        ensures
            r == level_enabled(*level),
    {
        match level {
            LogLevel::Error => true,
            LogLevel::Warn => true,
            LogLevel::Info => true,
            LogLevel::Debug => false,
            LogLevel::Trace => false,
        }
    }

    /// Sends the rendered record exactly when its level is severe enough;
    /// the run's identity and the backend's data and outcomes are intact.
    pub fn log(&mut self, level: &LogLevel, message: &str)
        requires
            old(self).context.wf(),
        ensures
            final(self).context.wf(),
            final(self).context.ip == old(self).context.ip,
            final(self).context.team == old(self).context.team,
            final(self).context.tick == old(self).context.tick,
            final(self).context.local == old(self).context.local,
            final(self).context.ctrl.store() == old(self).context.ctrl.store(),
            final(self).context.ctrl.results() == old(self).context.ctrl.results(),
    {
        if self.enabled(level) {
            self.context.send_log(message);
        }
    }

    /// Nothing is buffered, so there is nothing to flush.
    pub fn flush(&self) {
    }
}

} // verus!
