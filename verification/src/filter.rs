//! The message filter: drops decoded MIDI messages whose status byte falls in
//! a caller-selected ignore class (SysEx, timing, active sensing).

use vstd::prelude::*;

verus! {

/// The classes of incoming MIDI messages a caller may ask to have dropped.
/// `time` covers both MIDI Time Code quarter-frame (`0xF1`) and Clock
/// (`0xF8`); `active_sense` covers `0xFE`; `sysex` covers messages beginning
/// `0xF0`.
#[derive(Clone, Copy, PartialEq, Eq, Structural, Debug)]
pub struct Ignore {
    pub sysex: bool,
    pub time: bool,
    pub active_sense: bool,
}

impl Ignore {
    /// Ignore nothing: every decoded message reaches the callback.
    pub fn none() -> (r: Ignore)
        ensures
            r == (Ignore { sysex: false, time: false, active_sense: false }),
    {
        Ignore { sysex: false, time: false, active_sense: false }
    }

    /// An ignore set with each class selected explicitly.
    pub fn new(sysex: bool, time: bool, active_sense: bool) -> (r: Ignore)
        ensures
            r == (Ignore { sysex, time, active_sense }),
    {
        Ignore { sysex, time, active_sense }
    }
}

/// Whether a message with the given status byte is dropped under the given
/// ignore set.
pub open spec fn spec_should_ignore(ignore_flags: Ignore, status: u8) -> bool {
    ||| status == 0xF0 && ignore_flags.sysex
    ||| status == 0xF1 && ignore_flags.time
    ||| status == 0xF8 && ignore_flags.time
    ||| status == 0xFE && ignore_flags.active_sense
}

/// The filter table as executable code.
pub fn should_ignore(ignore_flags: Ignore, status: u8) -> (r: bool)
    ensures
        r == spec_should_ignore(ignore_flags, status),
{
    (status == 0xF0 && ignore_flags.sysex) || (status == 0xF1 && ignore_flags.time) || (status
        == 0xF8 && ignore_flags.time) || (status == 0xFE && ignore_flags.active_sense)
}

/// Whether a decoded message passes the filter: it is non-empty and its
/// status byte is not in an ignored class.
pub open spec fn spec_passes(ignore_flags: Ignore, msg: Seq<u8>) -> bool {
    msg.len() > 0 && !spec_should_ignore(ignore_flags, msg[0])
}

/// The subsequence of messages that pass the filter, in order.
pub open spec fn spec_surviving(msgs: Seq<Seq<u8>>, ignore_flags: Ignore) -> Seq<Seq<u8>>
    decreases msgs.len(),
{
    if msgs.len() == 0 {
        Seq::empty()
    } else {
        let rest = spec_surviving(msgs.skip(1), ignore_flags);
        if spec_passes(ignore_flags, msgs[0]) {
            seq![msgs[0]] + rest
        } else {
            rest
        }
    }
}

/// The filter emits a message if and only if it passes: every message in the
/// filtered sequence passes the filter, and every passing message of the
/// input appears in the filtered sequence.
pub proof fn lemma_filter_emits_iff(msgs: Seq<Seq<u8>>, ignore_flags: Ignore)
    ensures
        forall|k: int|
            0 <= k < spec_surviving(msgs, ignore_flags).len() ==> spec_passes(
                ignore_flags,
                #[trigger] spec_surviving(msgs, ignore_flags)[k],
            ),
        forall|k: int|
            0 <= k < msgs.len() && spec_passes(ignore_flags, #[trigger] msgs[k])
                ==> spec_surviving(msgs, ignore_flags).contains(msgs[k]),
    decreases msgs.len(),
{
    if msgs.len() > 0 {
        lemma_filter_emits_iff(msgs.skip(1), ignore_flags);
        let rest = spec_surviving(msgs.skip(1), ignore_flags);
        let all = spec_surviving(msgs, ignore_flags);
        let off: int = if spec_passes(ignore_flags, msgs[0]) {
            1
        } else {
            0
        };
        assert forall|k: int|
            0 <= k < msgs.len() && spec_passes(ignore_flags, #[trigger] msgs[k]) implies all
            .contains(msgs[k]) by {
            if k == 0 {
                assert(all[0] == msgs[0]);
            } else {
                assert(msgs.skip(1)[k - 1] == msgs[k]);
                assert(rest.contains(msgs[k]));
                let j = choose|j: int| 0 <= j < rest.len() && rest[j] == msgs[k];
                assert(all[j + off] == msgs[k]);
            }
        }
    }
}

/// Apply the ignore set to a batch of decoded messages: a message is kept if
/// and only if it is non-empty and its status byte is not ignored; order is
/// preserved.
pub fn filter_messages(msgs: Vec<Vec<u8>>, ignore_flags: Ignore) -> (out: Vec<Vec<u8>>)
    ensures
        out.deep_view() == spec_surviving(msgs.deep_view(), ignore_flags),
{
    let ghost orig = msgs.deep_view();
    let mut msgs = msgs;
    let mut out: Vec<Vec<u8>> = Vec::new();
    while msgs.len() > 0
        invariant
            out.deep_view() + spec_surviving(msgs.deep_view(), ignore_flags) =~~= spec_surviving(
                orig,
                ignore_flags,
            ),
        decreases msgs.len(),
    {
        let ghost before = msgs.deep_view();
        let ghost out_before = out.deep_view();
        let m = msgs.remove(0);
        proof {
            assert(msgs.deep_view() =~~= before.skip(1));
        }
        let keep = m.len() > 0 && !should_ignore(ignore_flags, m[0]);
        if keep {
            out.push(m);
            proof {
                assert(out.deep_view() =~~= out_before.push(before[0]));
                assert(out.deep_view() + spec_surviving(msgs.deep_view(), ignore_flags)
                    =~~= spec_surviving(orig, ignore_flags));
            }
        }
    }
    proof {
        assert(spec_surviving(msgs.deep_view(), ignore_flags) == Seq::<Seq<u8>>::empty());
        assert(out.deep_view() =~~= out.deep_view() + Seq::<Seq<u8>>::empty());
    }
    out
}

} // verus!
