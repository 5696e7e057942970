//! The shareable façade checker code talks to: immutable identity fields
//! plus the single active backend, owned uniquely for the run's duration
//! and never reassigned after construction.

use vstd::prelude::*;
use crate::codec::{dec_digits, u32_dec_chars, chars_to_string};
use crate::error::Error;
use crate::ipc::ControlInterface;
use crate::CheckerResult;

verus! {

/// Whether the absence of the controller's environment signal selects
/// the local variant; its presence (value irrelevant) means the process
/// is driven by the real controller.
pub fn local_mode(signal_present: bool) -> (r: bool)
    ensures
        r == !signal_present,
{
    !signal_present
}

/// The name of the per-team store file.
pub open spec fn state_file_text(team: nat) -> Seq<char> {
    "_"@ + dec_digits(team) + "_state.json"@
}

/// Builds the per-team store file name.
pub fn state_file_name(team: u32) -> (r: String)
    ensures
        r@ == state_file_text(team as nat),
{
    let mut out = String::from_str("_");
    let dec = chars_to_string(&u32_dec_chars(team));
    out.append(dec.as_str());
    out.append("_state.json");
    proof { assert(out@ =~= state_file_text(team as nat)); }
    out
}

/// Identity of one checker run plus the active backend.
pub struct Context<B: ControlInterface> {
    pub ip: String,
    pub team: u32,
    pub tick: u32,
    pub local: bool,
    pub ctrl: B,
}

impl<B: ControlInterface> Context<B> {
    /// The backend stays well-formed for the run's duration.
    pub open spec fn wf(&self) -> bool {
        self.ctrl.inv()
    }

    pub fn new(ip: String, team: u32, tick: u32, local: bool, ctrl: B) -> (r: Self)
        requires
            ctrl.inv(),
        ensures
            r.wf(),
            r.ip == ip,
            r.team == team,
            r.tick == tick,
            r.local == local,
            r.ctrl == ctrl,
    {
        Context { ip, team, tick, local, ctrl }
    }

    /// Obtains the flag for this run's own tick and the given payload
    /// from the backend, with the backend's own promise on the result.
    pub fn get_flag(&mut self, payload: &Vec<u8>) -> (r: Result<String, Error>)
        requires
            old(self).wf(),
        ensures
            final(self).wf(),
            final(self).ip == old(self).ip,
            final(self).team == old(self).team,
            final(self).tick == old(self).tick,
            final(self).local == old(self).local,
            final(self).ctrl.store() == old(self).ctrl.store(),
            final(self).ctrl.results() == old(self).ctrl.results(),
            B::flag_ens(old(self).ctrl, final(self).ctrl, old(self).tick, payload@, r),
    {
        let tick = self.tick;
        self.ctrl.get_flag(tick, payload)
    }

    /// Forwards key and value unchanged to the backend's `store_data`
    /// and returns its result: on success the backend's data gains
    /// exactly this binding, on failure it is unchanged.
    pub fn store_data(&mut self, key: &str, data: &str) -> (r: Result<(), Error>)
        requires
            old(self).wf(),
        ensures
            final(self).wf(),
            final(self).ip == old(self).ip,
            final(self).team == old(self).team,
            final(self).tick == old(self).tick,
            final(self).local == old(self).local,
            (r is Ok ==> final(self).ctrl.store() == old(self).ctrl.store().insert(key@, data@)),
            (r is Err ==> final(self).ctrl.store() == old(self).ctrl.store()),
            final(self).ctrl.results() == old(self).ctrl.results(),
            B::store_ens(old(self).ctrl, final(self).ctrl, key@, data@, r),
    {
        self.ctrl.store_data(key, data)
    }

    /// Retrieves the serialized value stored under a key on the backend,
    /// with the backend's own promise on the result; the backend's data
    /// and reported outcomes are unchanged.
    pub fn load_data(&mut self, key: &str) -> (r: Result<String, Error>)
        requires
            old(self).wf(),
        ensures
            final(self).wf(),
            final(self).ip == old(self).ip,
            final(self).team == old(self).team,
            final(self).tick == old(self).tick,
            final(self).local == old(self).local,
            final(self).ctrl.store() == old(self).ctrl.store(),
            final(self).ctrl.results() == old(self).ctrl.results(),
            B::load_ens(old(self).ctrl, final(self).ctrl, key@, r),
    {
        self.ctrl.load_data(key)
    }

    /// Forwards one rendered log record to the backend, which neither
    /// stores data nor reports an outcome on its account.
    pub fn send_log(&mut self, message: &str)
        requires
            old(self).wf(),
        ensures
            final(self).wf(),
            final(self).ip == old(self).ip,
            final(self).team == old(self).team,
            final(self).tick == old(self).tick,
            final(self).local == old(self).local,
            final(self).ctrl.store() == old(self).ctrl.store(),
            final(self).ctrl.results() == old(self).ctrl.results(),
            B::log_ens(old(self).ctrl, final(self).ctrl),
    {
        self.ctrl.send_log(message)
    }

    /// Dispatches the outcome unchanged to the backend's `store_result`
    /// and returns its value: on success the backend's reported outcomes
    /// grow by exactly this one, on failure they are unchanged.
    pub fn store_result(&mut self, result: &CheckerResult) -> (r: Result<(), Error>)
        requires
            old(self).wf(),
        ensures
            final(self).wf(),
            final(self).ip == old(self).ip,
            final(self).team == old(self).team,
            final(self).tick == old(self).tick,
            final(self).local == old(self).local,
            final(self).ctrl.store() == old(self).ctrl.store(),
            (r is Ok ==> final(self).ctrl.results() == old(self).ctrl.results().push(*result)),
            (r is Err ==> final(self).ctrl.results() == old(self).ctrl.results()),
            old(self).ctrl.reporting_infallible() ==> r is Ok,
            B::result_ens(old(self).ctrl, final(self).ctrl, *result, r),
    {
        self.ctrl.store_result(result)
    }
}

} // verus!
