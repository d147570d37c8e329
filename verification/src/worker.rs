//! The input worker's data and per-notification computation: the state
//! shared between the caller and the worker thread, and the pipeline that
//! turns one BLE notification payload into the messages the user callback
//! receives.

use vstd::prelude::*;
use crate::codec::{ParserState, decode_ble_midi, fresh_parser, spec_decode_payload};
use crate::filter::{Ignore, filter_messages, spec_surviving};

verus! {

/// The state the caller hands to the worker at connect and receives back at
/// close: the ignore set, the user data (held exactly once — here while the
/// worker runs, with the caller again after close), and the decoder state.
pub struct HandlerData<T> {
    pub ignore_flags: Ignore,
    pub user_data: Option<T>,
    pub parser_state: ParserState,
}

impl<T> HandlerData<T> {
    /// Fresh handler state for a new connection: the user data is present,
    /// and the decoder starts with no running status and no SysEx in
    /// progress — running status never leaks across connections.
    pub fn new(ignore_flags: Ignore, data: T) -> (r: Self)
        ensures
            r.ignore_flags == ignore_flags,
            r.user_data == Some(data),
            r.parser_state@ == fresh_parser(),
            r.parser_state.wf(),
    {
        HandlerData { ignore_flags, user_data: Some(data), parser_state: ParserState::new() }
    }

    /// Move the user data back out, exactly as it was put in; afterwards the
    /// handler holds none. Everything else is untouched.
    pub fn take_user_data(&mut self) -> (r: Option<T>)
        ensures
            r == old(self).user_data,
            final(self).user_data is None,
            final(self).ignore_flags == old(self).ignore_flags,
            final(self).parser_state == old(self).parser_state,
    {
        self.user_data.take()
    }

    /// Handle one BLE notification: decode the payload against the decoder
    /// state, then drop every message whose status byte is in the ignore
    /// set. Once the user data has been taken (the connection is closing),
    /// nothing is processed and the state is left alone.
    pub fn process(&mut self, payload: &[u8]) -> (out: Vec<Vec<u8>>)
        requires
            old(self).parser_state.wf(),
        ensures
            final(self).parser_state.wf(),
            final(self).ignore_flags == old(self).ignore_flags,
            final(self).user_data == old(self).user_data,
            old(self).user_data is None ==> out.deep_view() == Seq::<Seq<u8>>::empty()
                && final(self).parser_state == old(self).parser_state,
            old(self).user_data is Some ==> ({
                let d = spec_decode_payload(payload@, old(self).parser_state@);
                &&& out.deep_view() == spec_surviving(d.0, old(self).ignore_flags)
                &&& final(self).parser_state@ == d.1
            }),
    {
        if self.user_data.is_none() {
            Vec::new()
        } else {
            process_payload(payload, self.ignore_flags, &mut self.parser_state)
        }
    }
}

/// Turn one notification payload into the messages that reach the user
/// callback: decode, then filter. A message survives if and only if it is
/// non-empty and its status byte is not in the ignore set; survivors keep
/// their decode order.
pub fn process_payload(payload: &[u8], ignore_flags: Ignore, state: &mut ParserState) -> (out: Vec<
    Vec<u8>,
>)
    requires
        old(state).wf(),
    ensures
        final(state).wf(),
        out.deep_view() == spec_surviving(
            spec_decode_payload(payload@, old(state)@).0,
            ignore_flags,
        ),
        final(state)@ == spec_decode_payload(payload@, old(state)@).1,
{
    let msgs = decode_ble_midi(payload, state);
    filter_messages(msgs, ignore_flags)
}

} // verus!
