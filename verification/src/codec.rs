//! The BLE-MIDI codec: a stateful decoder that reconstructs complete MIDI
//! messages from BLE notification payloads, and an encoder that chunks an
//! outgoing MIDI byte stream into BLE-sized write packets.

use vstd::prelude::*;
use vstd::std_specs::option::spec_unwrap;

verus! {

/// Per-connection decoder state: the retained running status (a channel-voice
/// status byte reused by messages that elide their own) and the in-progress
/// SysEx buffer (a `0xF0`-opened message that has not yet seen its `0xF7`).
pub struct ParserState {
    pub running_status: Option<u8>,
    pub sysex_buffer: Option<Vec<u8>>,
}

/// The mathematical model of `ParserState`.
pub ghost struct ParserModel {
    pub running: Option<u8>,
    pub sysex: Option<Seq<u8>>,
}

impl View for ParserState {
    type V = ParserModel;

    open spec fn view(&self) -> ParserModel {
        ParserModel {
            running: self.running_status,
            sysex: match self.sysex_buffer {
                Some(b) => Some(b@),
                None => None,
            },
        }
    }
}

/// A data byte has its top bit clear.
pub open spec fn is_data_byte(b: u8) -> bool {
    b < 0x80
}

/// A real-time status byte (`0xF8..=0xFF`); such messages are a single byte
/// and may be interleaved anywhere in the stream.
pub open spec fn is_realtime(b: u8) -> bool {
    b >= 0xF8
}

/// Well-formedness of the decoder state: a retained running status is always
/// a channel-voice status, and an in-progress SysEx buffer starts with `0xF0`
/// followed only by data bytes.
pub open spec fn wf_parser(st: ParserModel) -> bool {
    &&& match st.running {
        Some(s) => 0x80 <= s < 0xF0,
        None => true,
    }
    &&& match st.sysex {
        Some(b) => b.len() >= 1 && b[0] == 0xF0 && forall|k: int| 1 <= k < b.len() ==> is_data_byte(#[trigger] b[k]),
        None => true,
    }
}

/// The decoder state of a freshly opened connection.
pub open spec fn fresh_parser() -> ParserModel {
    ParserModel { running: None, sysex: None }
}

impl ParserState {
    /// A fresh state: no running status, no SysEx in progress.
    pub fn new() -> (r: ParserState)
        ensures
            r@ == fresh_parser(),
            wf_parser(r@),
    {
        ParserState { running_status: None, sysex_buffer: None }
    }

    pub open spec fn wf(&self) -> bool {
        wf_parser(self@)
    }
}

/// How many data bytes follow each status byte, or `None` for a status that
/// is neither in the table nor handled specially (`0xF0`, `0xF7`, real-time).
pub open spec fn expected_data_len(status: u8) -> Option<usize> {
    if 0x80 <= status && status <= 0xBF {
        Some(2usize)
    } else if 0xC0 <= status && status <= 0xDF {
        Some(1usize)
    } else if 0xE0 <= status && status <= 0xEF {
        Some(2usize)
    } else if status == 0xF1 {
        Some(1usize)
    } else if status == 0xF2 {
        Some(2usize)
    } else if status == 0xF3 {
        Some(1usize)
    } else if status == 0xF6 {
        Some(0usize)
    } else {
        None
    }
}

/// What one run of SysEx extension consumes from a payload: the bytes taken
/// into the buffer (ending with `0xF7` exactly when `finished`), the index of
/// the first byte not consumed, and whether the terminating `0xF7` was seen.
pub ghost struct ExtendOut {
    pub taken: Seq<u8>,
    pub next: int,
    pub finished: bool,
}

/// Greedy SysEx extension from index `i`: data bytes are appended to the
/// in-progress buffer; a `0xF7` is appended and closes the message; any other
/// status byte stops the extension without being consumed.
pub open spec fn spec_extend_sysex(p: Seq<u8>, i: int) -> ExtendOut
    decreases p.len() - i,
{
    if i < 0 || i >= p.len() {
        ExtendOut { taken: Seq::empty(), next: i, finished: false }
    } else if is_data_byte(p[i]) {
        let r = spec_extend_sysex(p, i + 1);
        ExtendOut { taken: seq![p[i]] + r.taken, next: r.next, finished: r.finished }
    } else if p[i] == 0xF7 {
        ExtendOut { taken: seq![0xF7u8], next: i + 1, finished: true }
    } else {
        ExtendOut { taken: Seq::empty(), next: i, finished: false }
    }
}

/// What collecting the data bytes of one message produces: the real-time
/// messages emitted while collecting (real-time bytes may be interleaved
/// mid-message), the data bytes themselves, the index of the first byte not
/// consumed, and whether the full expected count was reached.
pub ghost struct CollectOut {
    pub interleaved: Seq<Seq<u8>>,
    pub data: Seq<u8>,
    pub next: int,
    pub done: bool,
}

/// Collect up to `need` data bytes from index `i`. A real-time byte is
/// emitted as its own one-byte message and consumes no data byte; any other
/// status byte stops the collection short.
pub open spec fn spec_collect_data(p: Seq<u8>, i: int, need: int) -> CollectOut
    decreases p.len() - i,
{
    if need <= 0 {
        CollectOut { interleaved: Seq::empty(), data: Seq::empty(), next: i, done: true }
    } else if i < 0 || i >= p.len() {
        CollectOut { interleaved: Seq::empty(), data: Seq::empty(), next: i, done: false }
    } else if is_data_byte(p[i]) {
        let r = spec_collect_data(p, i + 1, need - 1);
        CollectOut { interleaved: r.interleaved, data: seq![p[i]] + r.data, next: r.next, done: r.done }
    } else if is_realtime(p[i]) {
        let r = spec_collect_data(p, i + 1, need);
        CollectOut { interleaved: seq![seq![p[i]]] + r.interleaved, data: r.data, next: r.next, done: r.done }
    } else {
        CollectOut { interleaved: Seq::empty(), data: Seq::empty(), next: i, done: false }
    }
}

/// One decoding step's outcome: the messages it emits in order, the index at
/// which decoding resumes, and the decoder state it leaves behind.
pub ghost struct StepOut {
    pub msgs: Seq<Seq<u8>>,
    pub next: int,
    pub state: ParserModel,
}

/// Dispatch on a status byte at index `i` (the index of the first byte after
/// the status itself). `0xF0` opens a SysEx; `0xF7` closes one (or stands
/// alone); a real-time status is emitted alone and leaves the state — running
/// status included — untouched; a status in the data-byte table collects its
/// data bytes and is emitted only when complete, setting the running status
/// for channel-voice statuses and clearing it for System Common ones; a
/// status outside the table is dropped and clears the running status.
pub open spec fn spec_dispatch(p: Seq<u8>, i: int, status: u8, st: ParserModel) -> StepOut {
    if status == 0xF0 {
        let e = spec_extend_sysex(p, i);
        let buf = seq![0xF0u8] + e.taken;
        if e.finished {
            StepOut {
                msgs: seq![buf],
                next: e.next,
                state: ParserModel { running: None, sysex: None },
            }
        } else {
            StepOut {
                msgs: Seq::empty(),
                next: e.next,
                state: ParserModel { running: None, sysex: Some(buf) },
            }
        }
    } else if status == 0xF7 {
        let msg = match st.sysex {
            Some(buf) => buf + seq![0xF7u8],
            None => seq![0xF7u8],
        };
        StepOut { msgs: seq![msg], next: i, state: ParserModel { running: None, sysex: None } }
    } else if is_realtime(status) {
        StepOut { msgs: seq![seq![status]], next: i, state: st }
    } else {
        match expected_data_len(status) {
            Some(need) => {
                let c = spec_collect_data(p, i, need as int);
                if c.done {
                    let running = if status < 0xF0 {
                        Some(status)
                    } else {
                        None
                    };
                    StepOut {
                        msgs: c.interleaved + seq![seq![status] + c.data],
                        next: c.next,
                        state: ParserModel { running, sysex: st.sysex },
                    }
                } else {
                    StepOut { msgs: c.interleaved, next: c.next, state: st }
                }
            },
            None => StepOut {
                msgs: Seq::empty(),
                next: i,
                state: ParserModel { running: None, sysex: st.sysex },
            },
        }
    }
}

/// Read the byte at index `j` as the start of a message: a status byte is
/// dispatched; a data byte is the start of a running-status message when a
/// running status is retained, and is skipped as stray otherwise.
pub open spec fn spec_handle_status(p: Seq<u8>, j: int, st: ParserModel) -> StepOut {
    if !is_data_byte(p[j]) {
        spec_dispatch(p, j + 1, p[j], st)
    } else {
        match st.running {
            Some(s) => spec_dispatch(p, j, s, st),
            None => StepOut { msgs: Seq::empty(), next: j + 1, state: st },
        }
    }
}

/// One iteration of the decoder at index `i`. A data byte extends an
/// in-progress SysEx or begins a running-status message; a high-bit byte is a
/// timestamp, after which an in-progress SysEx is extended and the next
/// message begins.
pub open spec fn spec_decode_step(p: Seq<u8>, i: int, st: ParserModel) -> StepOut {
    if is_data_byte(p[i]) {
        match st.sysex {
            Some(buf) => {
                let e = spec_extend_sysex(p, i);
                if e.finished {
                    StepOut {
                        msgs: seq![buf + e.taken],
                        next: e.next,
                        state: ParserModel { running: st.running, sysex: None },
                    }
                } else {
                    StepOut {
                        msgs: Seq::empty(),
                        next: e.next,
                        state: ParserModel { running: st.running, sysex: Some(buf + e.taken) },
                    }
                }
            },
            None => match st.running {
                Some(s) => spec_dispatch(p, i, s, st),
                None => StepOut { msgs: Seq::empty(), next: i + 1, state: st },
            },
        }
    } else {
        let j = i + 1;
        if j >= p.len() {
            StepOut { msgs: Seq::empty(), next: j, state: st }
        } else {
            match st.sysex {
                Some(buf) => {
                    let e = spec_extend_sysex(p, j);
                    if e.finished {
                        StepOut {
                            msgs: seq![buf + e.taken],
                            next: e.next,
                            state: ParserModel { running: st.running, sysex: None },
                        }
                    } else if e.next > j {
                        StepOut {
                            msgs: Seq::empty(),
                            next: e.next,
                            state: ParserModel { running: st.running, sysex: Some(buf + e.taken) },
                        }
                    } else {
                        spec_handle_status(p, j, st)
                    }
                },
                None => spec_handle_status(p, j, st),
            }
        }
    }
}

/// Decode a payload from index `i` onward: the emitted messages in order and
/// the final decoder state.
pub open spec fn spec_decode_from(p: Seq<u8>, i: int, st: ParserModel) -> (Seq<Seq<u8>>, ParserModel)
    decreases p.len() - i,
{
    if i < 0 || i >= p.len() {
        (Seq::empty(), st)
    } else {
        let s = spec_decode_step(p, i, st);
        if i < s.next <= p.len() {
            let r = spec_decode_from(p, s.next, s.state);
            (s.msgs + r.0, r.1)
        } else {
            (s.msgs, s.state)
        }
    }
}

/// Decode one whole BLE notification payload: byte 0 is the packet header and
/// is skipped; payloads shorter than two bytes produce nothing.
pub open spec fn spec_decode_payload(p: Seq<u8>, st: ParserModel) -> (Seq<Seq<u8>>, ParserModel) {
    spec_decode_from(p, 1, st)
}

/// The data-byte count table, as executable code.
pub fn expected_data_length(status: u8) -> (r: Option<usize>)
    ensures
        r == expected_data_len(status),
{
    if 0x80 <= status && status <= 0xBF {
        Some(2)
    } else if 0xC0 <= status && status <= 0xDF {
        Some(1)
    } else if 0xE0 <= status && status <= 0xEF {
        Some(2)
    } else if status == 0xF1 {
        Some(1)
    } else if status == 0xF2 {
        Some(2)
    } else if status == 0xF3 {
        Some(1)
    } else if status == 0xF6 {
        Some(0)
    } else {
        None
    }
}

/// Extend an in-progress SysEx buffer with the bytes of `payload` starting at
/// `idx`: data bytes are appended; a terminating `0xF7` is appended and
/// finishes the message; any other status byte stops the extension. Returns
/// the index of the first unconsumed byte and whether the SysEx finished.
pub fn extend_sysex(buffer: &mut Vec<u8>, payload: &[u8], idx: usize) -> (r: (usize, bool))
    requires
        idx <= payload.len(),
    ensures
        ({
            let e = spec_extend_sysex(payload@, idx as int);
            &&& final(buffer)@ == old(buffer)@ + e.taken
            &&& r.0 == e.next
            &&& r.1 == e.finished
            &&& idx <= r.0 <= payload.len()
        }),
{
    let ghost p = payload@;
    let ghost b0 = buffer@;
    let mut j = idx;
    while j < payload.len() && payload[j] < 0x80
        invariant
            idx <= j <= payload.len(),
            payload@ == p,
            b0 + spec_extend_sysex(p, idx as int).taken == buffer@ + spec_extend_sysex(p, j as int).taken,
            spec_extend_sysex(p, idx as int).next == spec_extend_sysex(p, j as int).next,
            spec_extend_sysex(p, idx as int).finished == spec_extend_sysex(p, j as int).finished,
            buffer@.len() == b0.len() + (j - idx),
        decreases payload.len() - j,
    {
        let b = payload[j];
        buffer.push(b);
        proof {
            assert(b0 + spec_extend_sysex(p, idx as int).taken == buffer@ + spec_extend_sysex(
                p,
                j + 1,
            ).taken) by {
                assert(spec_extend_sysex(p, j as int).taken == seq![p[j as int]] + spec_extend_sysex(
                    p,
                    j + 1,
                ).taken);
                assert(b0 + spec_extend_sysex(p, idx as int).taken =~= buffer@ + spec_extend_sysex(
                    p,
                    j + 1,
                ).taken);
            }
        }
        j = j + 1;
    }
    if j < payload.len() && payload[j] == 0xF7 {
        buffer.push(0xF7);
        proof {
            assert(spec_extend_sysex(p, j as int).taken == seq![0xF7u8]);
            assert(buffer@ == b0 + spec_extend_sysex(p, idx as int).taken) by {
                assert(buffer@ =~= b0 + spec_extend_sysex(p, idx as int).taken);
            }
        }
        (j + 1, true)
    } else {
        proof {
            assert(spec_extend_sysex(p, j as int).taken == Seq::<u8>::empty());
            assert(buffer@ =~= b0 + spec_extend_sysex(p, idx as int).taken);
        }
        (j, false)
    }
}

/// Structure of what SysEx extension consumes: bounds on the resume index,
/// and the shape of the taken bytes (all data bytes, with a final `0xF7`
/// exactly when the extension finished).
pub proof fn lemma_extend_props(p: Seq<u8>, i: int)
    requires
        0 <= i <= p.len(),
    ensures
        ({
            let e = spec_extend_sysex(p, i);
            &&& i <= e.next <= p.len()
            &&& e.taken.len() == e.next - i
            &&& (!e.finished ==> forall|k: int|
                0 <= k < e.taken.len() ==> is_data_byte(#[trigger] e.taken[k]))
            &&& (e.finished ==> e.taken.len() >= 1 && e.taken.last() == 0xF7 && forall|k: int|
                0 <= k < e.taken.len() - 1 ==> is_data_byte(#[trigger] e.taken[k]))
        }),
    decreases p.len() - i,
{
    if i < p.len() && is_data_byte(p[i]) {
        lemma_extend_props(p, i + 1);
    }
}

/// Structure of data-byte collection: bounds on the resume index, the data
/// bytes really are data bytes (exactly `need` of them when complete), and
/// every interleaved message is a single real-time byte.
pub proof fn lemma_collect_props(p: Seq<u8>, i: int, need: int)
    requires
        0 <= i <= p.len(),
    ensures
        ({
            let c = spec_collect_data(p, i, need);
            &&& i <= c.next <= p.len()
            &&& forall|k: int| 0 <= k < c.data.len() ==> is_data_byte(#[trigger] c.data[k])
            &&& (c.done && need >= 0 ==> c.data.len() == need)
            &&& c.data.len() <= if need >= 0 { need as int } else { 0 }
            &&& forall|k: int|
                0 <= k < c.interleaved.len() ==> (#[trigger] c.interleaved[k]).len() == 1
                    && is_realtime(c.interleaved[k][0])
        }),
    decreases p.len() - i,
{
    if need > 0 && i < p.len() {
        if is_data_byte(p[i]) {
            lemma_collect_props(p, i + 1, need - 1);
        } else if is_realtime(p[i]) {
            lemma_collect_props(p, i + 1, need);
        }
    }
}

/// Dispatch on a status byte from `payload` at `idx` (the first index after
/// the status byte): emits the resulting messages, updates the decoder
/// state, and returns the index at which decoding resumes.
fn run_status(payload: &[u8], idx: usize, status: u8, msgs: &mut Vec<Vec<u8>>, state: &mut ParserState) -> (next: usize)
    requires
        idx <= payload.len(),
        status >= 0x80,
        old(state).wf(),
    ensures
        ({
            let d = spec_dispatch(payload@, idx as int, status, old(state)@);
            &&& final(msgs).deep_view() == old(msgs).deep_view() + d.msgs
            &&& final(state)@ == d.state
            &&& next == d.next
            &&& idx <= next <= payload.len()
            &&& final(state).wf()
        }),
{
    let ghost p = payload@;
    let ghost m0 = msgs.deep_view();
    let ghost st0 = state@;
    if status == 0xF0 {
        let mut buffer: Vec<u8> = Vec::new();
        buffer.push(0xF0);
        let r = extend_sysex(&mut buffer, payload, idx);
        proof {
            lemma_extend_props(p, idx as int);
            assert(buffer@ =~= seq![0xF0u8] + spec_extend_sysex(p, idx as int).taken);
        }
        state.running_status = None;
        if r.1 {
            msgs.push(buffer);
            state.sysex_buffer = None;
            proof {
                assert(msgs.deep_view() =~~= m0 + spec_dispatch(p, idx as int, status, st0).msgs);
            }
        } else {
            state.sysex_buffer = Some(buffer);
            proof {
                assert(msgs.deep_view() =~~= m0 + spec_dispatch(p, idx as int, status, st0).msgs);
            }
        }
        r.0
    } else if status == 0xF7 {
        match state.sysex_buffer.take() {
            Some(mut b) => {
                b.push(0xF7);
                msgs.push(b);
            },
            None => {
                let mut m: Vec<u8> = Vec::new();
                m.push(0xF7);
                msgs.push(m);
            },
        }
        state.running_status = None;
        proof {
            assert(msgs.deep_view() =~~= m0 + spec_dispatch(p, idx as int, status, st0).msgs);
        }
        idx
    } else if status >= 0xF8 {
        let mut m: Vec<u8> = Vec::new();
        m.push(status);
        msgs.push(m);
        proof {
            assert(msgs.deep_view() =~~= m0 + spec_dispatch(p, idx as int, status, st0).msgs);
        }
        idx
    } else {
        match expected_data_length(status) {
            Some(need) => {
                let ghost c0 = spec_collect_data(p, idx as int, need as int);
                let mut message: Vec<u8> = Vec::new();
                message.push(status);
                let mut j = idx;
                let mut count: usize = 0;
                let mut blocked = false;
                while count < need && j < payload.len() && !blocked
                    invariant
                        idx <= j <= payload.len(),
                        count <= need,
                        payload@ == p,
                        c0 == spec_collect_data(p, idx as int, need as int),
                        message@ == seq![status] + message@.skip(1),
                        message@.len() == 1 + count,
                        c0.data == message@.skip(1) + spec_collect_data(p, j as int, need - count).data,
                        c0.next == spec_collect_data(p, j as int, need - count).next,
                        c0.done == spec_collect_data(p, j as int, need - count).done,
                        m0 + c0.interleaved =~~= msgs.deep_view() + spec_collect_data(p, j as int, need - count).interleaved,
                        blocked ==> spec_collect_data(p, j as int, need - count) == (CollectOut {
                            interleaved: Seq::<Seq<u8>>::empty(),
                            data: Seq::<u8>::empty(),
                            next: j as int,
                            done: false,
                        }),
                    decreases payload.len() - j, 1int - (if blocked { 1int } else { 0int }),
                {
                    let b = payload[j];
                    if b < 0x80 {
                        message.push(b);
                        proof {
                            let c = spec_collect_data(p, j as int, need - count);
                            let cn = spec_collect_data(p, j + 1, need - count - 1);
                            assert(c.data == seq![p[j as int]] + cn.data);
                            assert(c0.data =~= message@.skip(1) + cn.data);
                        }
                        j = j + 1;
                        count = count + 1;
                    } else if b >= 0xF8 {
                        let mut rt: Vec<u8> = Vec::new();
                        rt.push(b);
                        msgs.push(rt);
                        proof {
                            let c = spec_collect_data(p, j as int, need - count);
                            let cn = spec_collect_data(p, j + 1, need - count);
                            assert(c.interleaved == seq![seq![p[j as int]]] + cn.interleaved);
                            assert(m0 + c0.interleaved =~~= msgs.deep_view() + cn.interleaved);
                        }
                        j = j + 1;
                    } else {
                        blocked = true;
                    }
                }
                proof {
                    let c = spec_collect_data(p, j as int, need - count);
                    assert(c.interleaved == Seq::<Seq<u8>>::empty());
                    assert(m0 + c0.interleaved =~~= msgs.deep_view());
                }
                if count == need {
                    proof {
                        assert(c0.data =~= message@.skip(1));
                        assert(seq![status] + c0.data =~= message@);
                    }
                    let ghost pre = msgs.deep_view();
                    msgs.push(message);
                    if status < 0xF0 {
                        state.running_status = Some(status);
                    } else {
                        state.running_status = None;
                    }
                    proof {
                        assert(c0.done);
                        assert(msgs.deep_view() =~~= pre.push(message@));
                        assert(spec_dispatch(p, idx as int, status, st0).msgs == c0.interleaved
                            + seq![seq![status] + c0.data]);
                        assert(msgs.deep_view() =~~= m0 + spec_dispatch(p, idx as int, status, st0).msgs);
                    }
                } else {
                    proof {
                        assert(msgs.deep_view() =~~= m0 + spec_dispatch(p, idx as int, status, st0).msgs);
                    }
                }
                proof {
                    lemma_collect_props(p, idx as int, need as int);
                }
                j
            },
            None => {
                state.running_status = None;
                proof {
                    assert(msgs.deep_view() =~~= m0 + spec_dispatch(p, idx as int, status, st0).msgs);
                }
                idx
            },
        }
    }
}

/// Begin a message at index `j`: a status byte is dispatched; a data byte
/// starts a running-status message when one is retained and is skipped as
/// stray otherwise.
fn begin_message(payload: &[u8], j: usize, msgs: &mut Vec<Vec<u8>>, state: &mut ParserState) -> (next: usize)
    requires
        j < payload.len(),
        old(state).wf(),
    ensures
        ({
            let d = spec_handle_status(payload@, j as int, old(state)@);
            &&& final(msgs).deep_view() == old(msgs).deep_view() + d.msgs
            &&& final(state)@ == d.state
            &&& next == d.next
            &&& j < next <= payload.len()
            &&& final(state).wf()
        }),
{
    let ghost p = payload@;
    let b = payload[j];
    if b >= 0x80 {
        run_status(payload, j + 1, b, msgs, state)
    } else {
        match state.running_status {
            Some(s) => {
                proof {
                    let need = spec_unwrap(expected_data_len(s)) as int;
                    let c = spec_collect_data(p, j as int, need);
                    assert(c.next == spec_collect_data(p, j + 1, need - 1).next);
                    lemma_collect_props(p, j + 1, need - 1);
                }
                run_status(payload, j, s, msgs, state)
            },
            None => j + 1,
        }
    }
}

/// One iteration of the decoder at index `i`: emits this step's messages,
/// updates the state, and returns the index at which decoding resumes.
fn decode_step_exec(payload: &[u8], i: usize, msgs: &mut Vec<Vec<u8>>, state: &mut ParserState) -> (next: usize)
    requires
        i < payload.len(),
        old(state).wf(),
    ensures
        ({
            let d = spec_decode_step(payload@, i as int, old(state)@);
            &&& final(msgs).deep_view() == old(msgs).deep_view() + d.msgs
            &&& final(state)@ == d.state
            &&& next == d.next
            &&& i < next <= payload.len()
            &&& final(state).wf()
        }),
{
    let ghost p = payload@;
    let b = payload[i];
    if b < 0x80 {
        if state.sysex_buffer.is_some() {
            let mut buffer = state.sysex_buffer.take().unwrap();
            let r = extend_sysex(&mut buffer, payload, i);
            proof {
                lemma_extend_props(p, i as int);
            }
            if r.1 {
                msgs.push(buffer);
                proof {
                    assert(msgs.deep_view() =~~= old(msgs).deep_view() + spec_decode_step(
                        p,
                        i as int,
                        old(state)@,
                    ).msgs);
                }
            } else {
                state.sysex_buffer = Some(buffer);
            }
            r.0
        } else {
            match state.running_status {
                Some(s) => {
                    proof {
                        let need = spec_unwrap(expected_data_len(s)) as int;
                        let c = spec_collect_data(p, i as int, need);
                        assert(c.next == spec_collect_data(p, i + 1, need - 1).next);
                        lemma_collect_props(p, i + 1, need - 1);
                    }
                    run_status(payload, i, s, msgs, state)
                },
                None => i + 1,
            }
        }
    } else {
        let j = i + 1;
        if j >= payload.len() {
            j
        } else if state.sysex_buffer.is_some() {
            let mut buffer = state.sysex_buffer.take().unwrap();
            let r = extend_sysex(&mut buffer, payload, j);
            proof {
                lemma_extend_props(p, j as int);
            }
            if r.1 {
                msgs.push(buffer);
                proof {
                    assert(msgs.deep_view() =~~= old(msgs).deep_view() + spec_decode_step(
                        p,
                        i as int,
                        old(state)@,
                    ).msgs);
                }
                r.0
            } else if r.0 > j {
                state.sysex_buffer = Some(buffer);
                r.0
            } else {
                state.sysex_buffer = Some(buffer);
                proof {
                    assert(state@ == old(state)@);
                    assert(buffer@ =~= spec_unwrap(old(state)@.sysex));
                }
                begin_message(payload, j, msgs, state)
            }
        } else {
            begin_message(payload, j, msgs, state)
        }
    }
}

/// Decode one BLE notification payload into the complete MIDI messages it
/// yields, mutating the per-connection parser state. Byte 0 (the packet
/// header) is skipped; running status, SysEx reassembly across payloads, and
/// real-time interleaving are all honoured as `spec_decode_payload` states.
/// Malformed input never causes a panic; unusable bytes are dropped.
pub fn decode_ble_midi(payload: &[u8], state: &mut ParserState) -> (msgs: Vec<Vec<u8>>)
    requires
        old(state).wf(),
    ensures
        msgs.deep_view() == spec_decode_payload(payload@, old(state)@).0,
        final(state)@ == spec_decode_payload(payload@, old(state)@).1,
        final(state).wf(),
        payload@.len() < 2 ==> msgs.deep_view() == Seq::<Seq<u8>>::empty() && final(state)@ == old(
            state,
        )@,
{
    let ghost p = payload@;
    let ghost st0 = state@;
    let mut msgs: Vec<Vec<u8>> = Vec::new();
    let mut i: usize = 1;
    while i < payload.len()
        invariant
            1 <= i,
            payload@ == p,
            state.wf(),
            msgs.deep_view() + spec_decode_from(p, i as int, state@).0 =~~= spec_decode_from(p, 1, st0).0,
            spec_decode_from(p, i as int, state@).1 == spec_decode_from(p, 1, st0).1,
        decreases payload.len() - i,
    {
        let ghost pre = msgs.deep_view();
        let ghost stpre = state@;
        let next = decode_step_exec(payload, i, &mut msgs, state);
        proof {
            let d = spec_decode_step(p, i as int, stpre);
            assert(spec_decode_from(p, i as int, stpre).0 == d.msgs + spec_decode_from(
                p,
                d.next,
                d.state,
            ).0);
            assert(msgs.deep_view() + spec_decode_from(p, next as int, state@).0 =~~= pre
                + spec_decode_from(p, i as int, stpre).0);
        }
        i = next;
    }
    proof {
        assert(spec_decode_from(p, i as int, state@).0 == Seq::<Seq<u8>>::empty());
        assert(msgs.deep_view() =~~= msgs.deep_view() + Seq::<Seq<u8>>::empty());
    }
    msgs
}

/// The packets that encoding a MIDI message produces: each packet is a
/// header byte `0x80` and a timestamp byte `0x80` followed by up to 18
/// message bytes; a longer message continues in the next packet.
pub open spec fn spec_encode_packets(m: Seq<u8>) -> Seq<Seq<u8>>
    decreases m.len(),
{
    if m.len() == 0 {
        Seq::empty()
    } else if m.len() <= 18 {
        seq![seq![0x80u8, 0x80u8] + m]
    } else {
        seq![seq![0x80u8, 0x80u8] + m.take(18)] + spec_encode_packets(m.skip(18))
    }
}

/// Packetise an outgoing MIDI message into BLE write payloads of at most 20
/// bytes, each framed with header and timestamp bytes `0x80 0x80`. An empty
/// message produces no packets.
pub fn encode_ble_midi_packets(message: &[u8]) -> (packets: Vec<Vec<u8>>)
    ensures
        packets.deep_view() == spec_encode_packets(message@),
{
    let ghost m = message@;
    let mut packets: Vec<Vec<u8>> = Vec::new();
    let mut offset: usize = 0;
    proof {
        assert(m.skip(0) =~= m);
    }
    while offset < message.len()
        invariant
            offset <= message.len(),
            message@ == m,
            packets.deep_view() + spec_encode_packets(m.skip(offset as int)) =~~= spec_encode_packets(m),
        decreases message.len() - offset,
    {
        let end = if message.len() - offset > 18 {
            offset + 18
        } else {
            message.len()
        };
        let mut packet: Vec<u8> = Vec::new();
        packet.push(0x80);
        packet.push(0x80);
        let mut k = offset;
        while k < end
            invariant
                offset <= k <= end <= message.len(),
                message@ == m,
                packet@ == seq![0x80u8, 0x80u8] + m.subrange(offset as int, k as int),
            decreases end - k,
        {
            let b = message[k];
            packet.push(b);
            proof {
                assert(packet@ =~= seq![0x80u8, 0x80u8] + m.subrange(offset as int, k + 1));
            }
            k = k + 1;
        }
        let ghost pre = packets.deep_view();
        packets.push(packet);
        proof {
            let rest = m.skip(offset as int);
            assert(rest.len() == m.len() - offset);
            if rest.len() <= 18 {
                assert(rest =~= m.subrange(offset as int, end as int));
                assert(spec_encode_packets(rest) == seq![seq![0x80u8, 0x80u8] + rest]);
                assert(m.skip(end as int).len() == 0);
                assert(spec_encode_packets(m.skip(end as int)) == Seq::<Seq<u8>>::empty());
            } else {
                assert(rest.take(18) =~= m.subrange(offset as int, end as int));
                assert(rest.skip(18) =~= m.skip(end as int));
            }
            assert(packets.deep_view() =~~= pre.push(packet@));
            assert(packets.deep_view() + spec_encode_packets(m.skip(end as int))
                =~~= spec_encode_packets(m));
        }
        offset = end;
    }
    proof {
        assert(spec_encode_packets(m.skip(offset as int)) == Seq::<Seq<u8>>::empty());
        assert(packets.deep_view() =~~= spec_encode_packets(m));
    }
    packets
}

/// Encoder chunking: a message of `n` bytes yields exactly `⌈n/18⌉` packets;
/// every packet is at most 20 bytes, begins with the two framing bytes
/// `0x80 0x80`, and carries the next slice of the message verbatim, so the
/// concatenation of the packet tails is the original message.
pub proof fn lemma_encode_chunking(m: Seq<u8>)
    ensures
        ({
            let ps = spec_encode_packets(m);
            &&& ps.len() == (m.len() + 17) / 18
            &&& forall|k: int|
                0 <= k < ps.len() ==> {
                    let pk = #[trigger] ps[k];
                    let hi = if 18 * (k + 1) <= m.len() {
                        18 * (k + 1)
                    } else {
                        m.len() as int
                    };
                    &&& pk.len() <= 20
                    &&& pk.len() >= 3
                    &&& pk[0] == 0x80
                    &&& pk[1] == 0x80
                    &&& pk.skip(2) == m.subrange(18 * k, hi)
                }
        }),
    decreases m.len(),
{
    let ps = spec_encode_packets(m);
    if m.len() == 0 {
    } else if m.len() <= 18 {
        assert(ps[0].skip(2) =~= m.subrange(0, m.len() as int));
    } else {
        lemma_encode_chunking(m.skip(18));
        let rest = spec_encode_packets(m.skip(18));
        assert(ps[0].skip(2) =~= m.subrange(0, 18));
        assert forall|k: int| 1 <= k < ps.len() implies {
            let pk = #[trigger] ps[k];
            let hi = if 18 * (k + 1) <= m.len() {
                18 * (k + 1)
            } else {
                m.len() as int
            };
            &&& pk.len() <= 20
            &&& pk.len() >= 3
            &&& pk[0] == 0x80
            &&& pk[1] == 0x80
            &&& pk.skip(2) == m.subrange(18 * k, hi)
        } by {
            let pk = ps[k];
            assert(pk == rest[k - 1]);
            let sub = m.skip(18);
            let hi_r = if 18 * k <= sub.len() {
                18 * k
            } else {
                sub.len() as int
            };
            assert(pk.skip(2) == sub.subrange(18 * (k - 1), hi_r));
            let hi = if 18 * (k + 1) <= m.len() {
                18 * (k + 1)
            } else {
                m.len() as int
            };
            assert(sub.subrange(18 * (k - 1), hi_r) =~= m.subrange(18 * k, hi));
        }
    }
}

/// Collecting `need` data bytes over a run of data bytes succeeds exactly,
/// consuming precisely those bytes.
pub proof fn lemma_collect_exact(p: Seq<u8>, i: int, need: int)
    requires
        0 <= i,
        need >= 0,
        i + need <= p.len(),
        forall|k: int| i <= k < i + need ==> is_data_byte(#[trigger] p[k]),
    ensures
        spec_collect_data(p, i, need) == (CollectOut {
            interleaved: Seq::<Seq<u8>>::empty(),
            data: p.subrange(i, i + need),
            next: i + need,
            done: true,
        }),
    decreases need,
{
    if need > 0 {
        lemma_collect_exact(p, i + 1, need - 1);
        assert(seq![p[i]] + p.subrange(i + 1, i + need) =~= p.subrange(i, i + need));
    } else {
        assert(p.subrange(i, i) =~= Seq::<u8>::empty());
    }
}

/// A syntactically valid short MIDI message: a status byte from the
/// data-byte table followed by exactly the expected number of data bytes.
pub open spec fn valid_small_message(m: Seq<u8>) -> bool {
    &&& m.len() >= 1
    &&& expected_data_len(m[0]) == Some((m.len() - 1) as usize)
    &&& forall|k: int| 1 <= k < m.len() ==> is_data_byte(#[trigger] m[k])
}

/// Round trip: encoding a valid short MIDI message gives a single packet,
/// and decoding that packet from a fresh parser state yields exactly the
/// original message and leaves no SysEx in progress.
pub proof fn lemma_round_trip_small(m: Seq<u8>)
    requires
        valid_small_message(m),
        m.len() <= 18,
    ensures
        ({
            let ps = spec_encode_packets(m);
            &&& ps.len() == 1
            &&& spec_decode_payload(ps[0], fresh_parser()).0 == seq![m]
            &&& spec_decode_payload(ps[0], fresh_parser()).1.sysex is None
        }),
{
    let p = seq![0x80u8, 0x80u8] + m;
    let ps = spec_encode_packets(m);
    assert(ps == seq![p]);
    let status = m[0];
    let need = (m.len() - 1) as int;
    assert(p.len() == m.len() + 2);
    assert(p[1] == 0x80);
    assert(p[2] == status);
    assert(0x80 <= status < 0xF8 && status != 0xF0 && status != 0xF7);
    assert(forall|k: int| 3 <= k < 3 + need ==> is_data_byte(#[trigger] p[k]));
    lemma_collect_exact(p, 3, need);
    let d = spec_dispatch(p, 3, status, fresh_parser());
    assert(seq![status] + p.subrange(3, 3 + need) =~= m);
    assert(Seq::<Seq<u8>>::empty() + seq![m] =~~= seq![m]);
    assert(d.msgs =~~= seq![m]);
    assert(d.next == p.len());
    let s = spec_decode_step(p, 1, fresh_parser());
    assert(s.msgs =~~= seq![m]);
    assert(spec_decode_from(p, p.len() as int, d.state).0 == Seq::<Seq<u8>>::empty());
    assert(spec_decode_from(p, 1, fresh_parser()).0 =~~= seq![m]);
}

/// Real-time interleave: dispatching a real-time status emits exactly that
/// one-byte message, consumes nothing further, and leaves the decoder state
/// — the running status in particular — untouched.
pub proof fn lemma_realtime_leaves_state(p: Seq<u8>, i: int, status: u8, st: ParserModel)
    requires
        is_realtime(status),
    ensures
        spec_dispatch(p, i, status, st) == (StepOut {
            msgs: seq![seq![status]],
            next: i,
            state: st,
        }),
{
}

/// Real-time bytes inside a message's data bytes are emitted on their own
/// and consume no data byte: the collected data is exactly what it would be
/// with the real-time byte removed.
pub proof fn lemma_realtime_in_data(p: Seq<u8>, i: int, need: int)
    requires
        0 <= i < p.len(),
        is_realtime(p[i]),
        need > 0,
    ensures
        ({
            let c = spec_collect_data(p, i, need);
            let r = spec_collect_data(p, i + 1, need);
            &&& c.data == r.data
            &&& c.done == r.done
            &&& c.next == r.next
            &&& c.interleaved == seq![seq![p[i]]] + r.interleaved
        }),
{
}

/// A System message never leaves a running status behind: dispatching any
/// status in `0xF0..=0xF7` whose message completes clears the running
/// status, so the next message cannot elide its own status byte.
pub proof fn lemma_system_clears_running(p: Seq<u8>, i: int, status: u8, st: ParserModel)
    requires
        0xF0 <= status < 0xF8,
        (status == 0xF1 || status == 0xF2 || status == 0xF3) ==> spec_collect_data(
            p,
            i,
            spec_unwrap(expected_data_len(status)) as int,
        ).done,
    ensures
        spec_dispatch(p, i, status, st).state.running is None,
{
}

/// A syntactically complete MIDI message: a SysEx runs from its `0xF0` to
/// its terminating `0xF7` with only data bytes between; a bare `0xF7` and a
/// real-time message are a single byte; any other emitted status carries
/// exactly its expected number of data bytes.
pub open spec fn complete_midi_message(msg: Seq<u8>) -> bool {
    &&& msg.len() >= 1
    &&& !is_data_byte(msg[0])
    &&& if msg[0] == 0xF0 {
        msg.len() >= 2 && msg[msg.len() - 1] == 0xF7 && forall|k: int|
            1 <= k < msg.len() - 1 ==> is_data_byte(#[trigger] msg[k])
    } else if msg[0] == 0xF7 || is_realtime(msg[0]) {
        msg.len() == 1
    } else {
        match expected_data_len(msg[0]) {
            Some(n) => msg.len() == 1 + n && forall|k: int|
                1 <= k < msg.len() ==> is_data_byte(#[trigger] msg[k]),
            None => false,
        }
    }
}

/// Dispatching any status byte from a well-formed state emits only complete
/// messages and leaves a well-formed state.
proof fn lemma_dispatch_sound(p: Seq<u8>, i: int, status: u8, st: ParserModel)
    requires
        0 <= i <= p.len(),
        status >= 0x80,
        wf_parser(st),
    ensures
        ({
            let d = spec_dispatch(p, i, status, st);
            &&& wf_parser(d.state)
            &&& forall|k: int|
                0 <= k < d.msgs.len() ==> complete_midi_message(#[trigger] d.msgs[k])
        }),
{
    let d = spec_dispatch(p, i, status, st);
    if status == 0xF0 {
        lemma_extend_props(p, i);
    } else if status == 0xF7 {
    } else if is_realtime(status) {
    } else {
        match expected_data_len(status) {
            Some(need) => {
                lemma_collect_props(p, i, need as int);
                let c = spec_collect_data(p, i, need as int);
                if c.done {
                    assert(d.msgs[d.msgs.len() - 1] == seq![status] + c.data);
                    assert(complete_midi_message(seq![status] + c.data));
                    assert(forall|k: int|
                        0 <= k < c.interleaved.len() ==> complete_midi_message(
                            #[trigger] c.interleaved[k],
                        ));
                }
            },
            None => {},
        }
    }
}

/// One decoder step from a well-formed state emits only complete messages
/// and leaves a well-formed state.
proof fn lemma_step_sound(p: Seq<u8>, i: int, st: ParserModel)
    requires
        0 <= i < p.len(),
        wf_parser(st),
    ensures
        ({
            let s = spec_decode_step(p, i, st);
            &&& wf_parser(s.state)
            &&& forall|k: int|
                0 <= k < s.msgs.len() ==> complete_midi_message(#[trigger] s.msgs[k])
        }),
{
    let s = spec_decode_step(p, i, st);
    if is_data_byte(p[i]) {
        match st.sysex {
            Some(buf) => {
                lemma_extend_props(p, i);
            },
            None => {
                match st.running {
                    Some(rs) => {
                        lemma_dispatch_sound(p, i, rs, st);
                    },
                    None => {},
                }
            },
        }
    } else {
        let j = i + 1;
        if j < p.len() {
            match st.sysex {
                Some(buf) => {
                    lemma_extend_props(p, j);
                    let e = spec_extend_sysex(p, j);
                    if !e.finished && e.next <= j {
                        lemma_handle_sound(p, j, st);
                    }
                },
                None => {
                    lemma_handle_sound(p, j, st);
                },
            }
        }
    }
}

/// Beginning a message at index `j` from a well-formed state emits only
/// complete messages and leaves a well-formed state.
proof fn lemma_handle_sound(p: Seq<u8>, j: int, st: ParserModel)
    requires
        0 <= j < p.len(),
        wf_parser(st),
    ensures
        ({
            let s = spec_handle_status(p, j, st);
            &&& wf_parser(s.state)
            &&& forall|k: int|
                0 <= k < s.msgs.len() ==> complete_midi_message(#[trigger] s.msgs[k])
        }),
{
    if !is_data_byte(p[j]) {
        lemma_dispatch_sound(p, j + 1, p[j], st);
    } else {
        match st.running {
            Some(rs) => {
                lemma_dispatch_sound(p, j, rs, st);
            },
            None => {},
        }
    }
}

/// Every message the decoder emits is syntactically complete, and the
/// decoder state stays well-formed. In particular a SysEx message is emitted
/// only once its terminating `0xF7` has been seen: an unterminated SysEx
/// stays in the parser state and is discarded with it when the connection
/// closes.
pub proof fn lemma_decode_messages_complete(p: Seq<u8>, i: int, st: ParserModel)
    requires
        wf_parser(st),
    ensures
        ({
            let r = spec_decode_from(p, i, st);
            &&& wf_parser(r.1)
            &&& forall|k: int|
                0 <= k < r.0.len() ==> complete_midi_message(#[trigger] r.0[k])
        }),
    decreases p.len() - i,
{
    if 0 <= i < p.len() {
        lemma_step_sound(p, i, st);
        let s = spec_decode_step(p, i, st);
        if i < s.next <= p.len() {
            lemma_decode_messages_complete(p, s.next, s.state);
        }
    }
}

} // verus!
