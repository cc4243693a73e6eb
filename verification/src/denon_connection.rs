//! The connection engine: a line assembler and receiver step over a
//! byte stream, the status table they publish into, and the
//! `get`/`set` facade.
//!
//! Everything observable is pinned to one model: `pump_model` folds
//! the bytes consumed from the stream into the status table, byte by
//! byte, completing a line at each carriage return and publishing what
//! the codec makes of it. The contracts of [`thread_func_impl`],
//! [`DenonConnection::get`] and [`read`] all speak in terms of this
//! fold over whatever bytes the peer happened to send.

use crate::parse::spec_parse;
use crate::state::{SetState, State};
use crate::stream::{ConnectionStream, PeekStatus, ReadStream};
use crate::strutil::{ascii_bytes_of, string_ascii_bytes};
use crate::table::{StatusTable, WaitOutcome};
use vstd::prelude::*;

verus! {

/// Why a `get` or `set` did not deliver.
#[derive(Debug)]
pub enum ConnectionError {
    /// The connection is closed; no further update can ever arrive.
    Closed,
    /// No matching update arrived within the wait; the caller may try
    /// again.
    TimedOut,
    /// The transport failed; the connection transitions to closed.
    Transport(std::io::Error),
}

/// What `String::from_utf8_lossy` makes of a line's bytes.
pub uninterp spec fn lossy_chars(bytes: Seq<u8>) -> Seq<char>;

/// Whether every byte is ASCII.
pub open spec fn all_ascii_bytes(bytes: Seq<u8>) -> bool {
    forall|i: int| 0 <= i < bytes.len() ==> #[trigger] bytes[i] < 128
}

/// Relies on `String::from_utf8_lossy`: the result is a function of
/// the bytes alone, and ASCII bytes (being valid UTF-8) decode to the
/// characters with the same code points.
#[verifier::external_body]
fn bytes_to_lossy_string(bytes: &Vec<u8>) -> (r: String)
    ensures
        r@ == lossy_chars(bytes@),
        all_ascii_bytes(bytes@) ==> (r@.len() == bytes@.len() && forall|i: int|
            0 <= i < bytes@.len() ==> #[trigger] r@[i] as int == bytes@[i] as int),
{
    String::from_utf8_lossy(bytes.as_slice()).into_owned()
}

/// Relies on `std::io::Error::from(ErrorKind)` for the closed and
/// timed-out cases; a transport error is passed through unchanged.
#[verifier::external_body]
pub(crate) fn connection_error_to_io(e: ConnectionError) -> std::io::Error {
    match e {
        ConnectionError::Closed => std::io::Error::from(std::io::ErrorKind::ConnectionAborted),
        ConnectionError::TimedOut => std::io::Error::from(std::io::ErrorKind::TimedOut),
        ConnectionError::Transport(io_error) => io_error,
    }
}

/// The carriage return that delimits protocol lines.
pub open spec fn delimiter_byte() -> u8 {
    13u8
}

/// What one decoded line does to the table: a decodable line is
/// published, anything else is dropped.
pub open spec fn spec_process_line(t: StatusTable, line: Seq<char>) -> StatusTable {
    match spec_parse(line) {
        Some(v) => t.spec_publish(v),
        None => t,
    }
}

/// What one consumed byte does to the table and the pending partial
/// line.
pub open spec fn spec_pump_byte(t: StatusTable, p: Seq<u8>, b: u8) -> (StatusTable, Seq<u8>) {
    if b == delimiter_byte() {
        (spec_process_line(t, lossy_chars(p)), Seq::<u8>::empty())
    } else {
        (t, p.push(b))
    }
}

/// The table and pending partial line after consuming `bytes`, having
/// started from table `t` with partial line `p`.
pub open spec fn pump_model(t: StatusTable, p: Seq<u8>, bytes: Seq<u8>) -> (StatusTable, Seq<u8>)
    decreases bytes.len(),
{
    if bytes.len() == 0 {
        (t, p)
    } else {
        let prev = pump_model(t, p, bytes.drop_last());
        spec_pump_byte(prev.0, prev.1, bytes.last())
    }
}

/// The table after a sequence of whole lines, already split and
/// decoded to characters.
pub open spec fn table_after_lines(t: StatusTable, lines: Seq<Seq<char>>) -> StatusTable
    decreases lines.len(),
{
    if lines.len() == 0 {
        t
    } else {
        spec_process_line(table_after_lines(t, lines.drop_last()), lines.last())
    }
}

/// Pumping preserves well-formedness and never touches the closed
/// flag: only `close` moves the lifecycle.
pub proof fn lemma_pump_model_preserves(t: StatusTable, p: Seq<u8>, bytes: Seq<u8>)
    ensures
        t.wf() ==> pump_model(t, p, bytes).0.wf(),
        pump_model(t, p, bytes).0.closed == t.closed,
    decreases bytes.len(),
{
    if bytes.len() > 0 {
        lemma_pump_model_preserves(t, p, bytes.drop_last());
    }
}

/// Feeds one byte to the line assembler: a delimiter completes the
/// pending line, which is decoded and, when meaningful, published.
fn apply_byte(table: &mut StatusTable, pending: &mut Vec<u8>, b: u8)
    ensures
        (*final(table), final(pending)@) == spec_pump_byte(*old(table), old(pending)@, b),
{
    if b == 13 {
        let mut line: Vec<u8> = Vec::new();
        std::mem::swap(&mut line, pending);
        let text = bytes_to_lossy_string(&line);
        match crate::parse::parse(text.as_str()) {
            Some(v) => table.publish(v),
            None => {},
        }
    } else {
        pending.push(b);
    }
}

/// The receiver loop: drains the stream, assembles lines, publishes
/// every decodable one, and marks the table closed when the stream
/// fails or reports no data twice with no progress in between.
///
/// Whatever bytes arrive, the final table is the pump fold of exactly
/// the consumed bytes, closed at the end; a trailing partial line is
/// never published.
pub fn thread_func_impl<S: ReadStream>(stream: &mut S, table: &mut StatusTable) -> (r: Result<
    (),
    std::io::Error,
>)
    ensures
        final(stream).consumed().len() >= old(stream).consumed().len(),
        final(stream).consumed().take(old(stream).consumed().len() as int) == old(
            stream,
        ).consumed(),
        *final(table) == pump_model(
            *old(table),
            Seq::<u8>::empty(),
            final(stream).consumed().skip(old(stream).consumed().len() as int),
        ).0.spec_close(),
{
    let ghost c0 = stream.consumed();
    let ghost t0 = *table;
    let mut pending: Vec<u8> = Vec::new();
    let mut last_idle: Option<u64> = None;
    let mut pos: u64 = 0;
    // a turn budget that no real connection can exhaust, standing in
    // for an endless loop
    let mut fuel: u64 = u64::MAX;
    loop
        invariant
            c0 == old(stream).consumed(),
            t0 == *old(table),
            stream.consumed().len() >= c0.len(),
            stream.consumed().take(c0.len() as int) == c0,
            (*table, pending@) == pump_model(t0, Seq::<u8>::empty(), stream.consumed().skip(
                c0.len() as int,
            )),
        decreases fuel,
    {
        if fuel == 0 {
            table.close();
            return Ok(());
        }
        fuel = fuel - 1;
        match stream.peek_available() {
            Err(e) => {
                table.close();
                return Err(e);
            },
            Ok(PeekStatus::End) => {
                table.close();
                return Ok(());
            },
            Ok(PeekStatus::Quiet) => {
                match last_idle {
                    Some(p) => {
                        if p == pos {
                            table.close();
                            return Ok(());
                        }
                        last_idle = Some(pos);
                    },
                    None => {
                        last_idle = Some(pos);
                    },
                }
            },
            Ok(PeekStatus::Ready) => {
                let ghost pre = stream.consumed();
                let taken = stream.read_byte();
                match taken {
                    Err(e) => {
                        table.close();
                        return Err(e);
                    },
                    Ok(b) => {
                        if pos < u64::MAX {
                            pos = pos + 1;
                        }
                        proof {
                            assert(stream.consumed().drop_last() =~= pre);
                            assert(stream.consumed().take(c0.len() as int) =~= c0);
                            assert(stream.consumed().skip(c0.len() as int).drop_last() =~= pre.skip(
                                c0.len() as int,
                            ));
                            assert(stream.consumed().skip(c0.len() as int).last() == b);
                        }
                        apply_byte(table, &mut pending, b);
                    },
                }
            },
        }
    }
}

/// The fixed window a `get` waits for its matching update before it
/// reports a timeout.
pub const GET_TIMEOUT_MS: u64 = 500;

/// The request/response facade over one duplex stream.
///
/// One caller at a time drives it; the receiver step runs interleaved
/// with the caller, pulling buffered bytes whenever `get` waits for
/// its answer.
pub struct DenonConnection<S: ConnectionStream> {
    pub stream: S,
    pub table: StatusTable,
    pub assembler: Vec<u8>,
}

impl<S: ConnectionStream> DenonConnection<S> {
    /// Takes ownership of a connected stream.
    pub fn new(stream: S) -> (r: Result<DenonConnection<S>, crate::error::Error>)
        ensures
            r matches Ok(c) && c.stream == stream && c.table == (StatusTable {
                power: None,
                source_input: None,
                main_volume: None,
                max_volume: None,
                closed: false,
            }) && c.assembler@ == Seq::<u8>::empty(),
    {
        Ok(DenonConnection { stream, table: StatusTable::new(), assembler: Vec::new() })
    }

    /// Queries the receiver for the current value of `state`.
    ///
    /// Exactly one query line goes out, and only an update published
    /// after the call began is returned: a cached value never
    /// satisfies a `get`. The answer is whatever the pump fold of the
    /// consumed bytes publishes for this kind. When the stream stays
    /// quiet past the fixed window the call times out recoverably,
    /// leaving the connection open; only a transport failure or an
    /// observed end of the stream closes it.
    pub fn get(&mut self, state: State) -> (r: Result<SetState, ConnectionError>)
        ensures
            final(self).stream.consumed().len() >= old(self).stream.consumed().len(),
            final(self).stream.consumed().take(old(self).stream.consumed().len() as int) == old(
                self,
            ).stream.consumed(),
            old(self).table.closed ==> *final(self) == *old(self) && (r matches Err(
                ConnectionError::Closed,
            )),
            !old(self).table.closed ==> {
                let m = pump_model(
                    old(self).table,
                    old(self).assembler@,
                    final(self).stream.consumed().skip(old(self).stream.consumed().len() as int),
                );
                &&& final(self).assembler@ == m.1
                &&& (old(self).table.wf() ==> final(self).table.wf())
                &&& match r {
                    Ok(v) => {
                        &&& final(self).stream.written() == old(self).stream.written()
                            + ascii_bytes_of(state.query_chars() + seq!['\r'])
                        &&& final(self).table == m.0
                        &&& m.0.spec_gen(state) > old(self).table.spec_gen(state)
                        &&& m.0.spec_entry(state) matches Some(e) && e.value == v
                        &&& old(self).table.wf() ==> v.kind() == state
                    },
                    Err(e) => match e {
                        ConnectionError::TimedOut => {
                            &&& final(self).stream.written() == old(self).stream.written()
                                + ascii_bytes_of(state.query_chars() + seq!['\r'])
                            &&& final(self).table == m.0
                            &&& !final(self).table.closed
                            &&& m.0.spec_gen(state) <= old(self).table.spec_gen(state)
                        },
                        _ => {
                            &&& final(self).table == m.0.spec_close()
                            &&& (final(self).stream.written() == old(self).stream.written()
                                || final(self).stream.written() == old(self).stream.written()
                                + ascii_bytes_of(state.query_chars() + seq!['\r']))
                        },
                    },
                }
            },
    {
        if self.table.is_closed() {
            return Err(ConnectionError::Closed);
        }
        let since = self.table.latest_generation(state);
        let query = state.encode_query();
        let query_bytes = string_ascii_bytes(query.as_str());
        match self.stream.write_bytes(query_bytes.as_slice()) {
            Ok(_) => {},
            Err(e) => {
                self.table.close();
                proof {
                    let delta = self.stream.consumed().skip(old(self).stream.consumed().len() as int);
                    assert(delta =~= Seq::<u8>::empty());
                }
                return Err(ConnectionError::Transport(e));
            },
        }
        let timer = crate::timing::now_instant();
        let ghost c0 = old(self).stream.consumed();
        let ghost t0 = old(self).table;
        let ghost p0 = old(self).assembler@;
        let ghost w1 = self.stream.written();
        // a turn budget that no real connection can exhaust, standing
        // in for an endless loop
        let mut fuel: u64 = u64::MAX;
        loop
            invariant
                c0 == old(self).stream.consumed(),
                p0 == old(self).assembler@,
                self.stream.consumed().len() >= c0.len(),
                self.stream.consumed().take(c0.len() as int) == c0,
                self.stream.written() == w1,
                w1 == old(self).stream.written() + ascii_bytes_of(state.query_chars() + seq!['\r']),
                t0 == old(self).table,
                !t0.closed,
                since == t0.spec_gen(state),
                (self.table, self.assembler@) == pump_model(t0, p0, self.stream.consumed().skip(
                    c0.len() as int,
                )),
            decreases fuel,
        {
            proof {
                lemma_pump_model_preserves(t0, p0, self.stream.consumed().skip(c0.len() as int));
            }
            let deadline_passed = crate::timing::time_in_millis(&timer) >= GET_TIMEOUT_MS;
            match wait_step(&self.table, state, since, deadline_passed) {
                Some(outcome) => {
                    return outcome;
                },
                None => {},
            }
            if fuel == 0 {
                self.table.close();
                return Err(ConnectionError::Closed);
            }
            fuel = fuel - 1;
            match self.stream.peek_available() {
                Err(e) => {
                    self.table.close();
                    return Err(ConnectionError::Transport(e));
                },
                Ok(PeekStatus::End) => {
                    self.table.close();
                    return Err(ConnectionError::Closed);
                },
                Ok(PeekStatus::Quiet) => {},
                Ok(PeekStatus::Ready) => {
                    let ghost pre = self.stream.consumed();
                    let taken = self.stream.read_byte();
                    match taken {
                        Err(e) => {
                            self.table.close();
                            return Err(ConnectionError::Transport(e));
                        },
                        Ok(b) => {
                            proof {
                                assert(self.stream.consumed().drop_last() =~= pre);
                                assert(self.stream.consumed().take(c0.len() as int) =~= c0);
                                assert(self.stream.consumed().skip(c0.len() as int).drop_last()
                                    =~= pre.skip(c0.len() as int));
                                assert(self.stream.consumed().skip(c0.len() as int).last() == b);
                            }
                            apply_byte(&mut self.table, &mut self.assembler, b);
                        },
                    }
                },
            }
        }
    }

    /// Sends a command and returns without waiting for the echo; the
    /// receiver conventionally reports the new state on its own, and
    /// the pump will observe it.
    ///
    /// Exactly the command's bytes go out, in one write.
    pub fn set(&mut self, value: SetState) -> (r: Result<(), ConnectionError>)
        ensures
            final(self).stream.consumed() == old(self).stream.consumed(),
            final(self).assembler@ == old(self).assembler@,
            old(self).table.closed ==> *final(self) == *old(self) && (r matches Err(
                ConnectionError::Closed,
            )),
            !old(self).table.closed ==> match r {
                Ok(_) => {
                    &&& final(self).stream.written() == old(self).stream.written()
                        + ascii_bytes_of(value.command_chars() + seq!['\r'])
                    &&& final(self).table == old(self).table
                },
                Err(e) => {
                    &&& e matches ConnectionError::Transport(_)
                    &&& final(self).stream.written() == old(self).stream.written()
                    &&& final(self).table == old(self).table.spec_close()
                },
            },
    {
        if self.table.is_closed() {
            return Err(ConnectionError::Closed);
        }
        let command = value.encode_command();
        let command_bytes = string_ascii_bytes(command.as_str());
        match self.stream.write_bytes(command_bytes.as_slice()) {
            Ok(_) => Ok(()),
            Err(e) => {
                self.table.close();
                Err(ConnectionError::Transport(e))
            },
        }
    }

    /// Shuts the stream down and marks the table closed; every later
    /// `get` or `set` fails fast.
    pub fn close(&mut self) -> (r: Result<(), std::io::Error>)
        ensures
            final(self).table == old(self).table.spec_close(),
            final(self).stream.consumed() == old(self).stream.consumed(),
            final(self).stream.written() == old(self).stream.written(),
            final(self).assembler@ == old(self).assembler@,
    {
        let r = self.stream.shutdownly();
        self.table.close();
        r
    }
}

/// Writes the characters of `data` to the stream as protocol bytes.
pub fn write_string<S: ConnectionStream>(stream: &mut S, data: &str) -> (r: Result<
    (),
    std::io::Error,
>)
    ensures
        final(stream).consumed() == old(stream).consumed(),
        match r {
            Ok(_) => final(stream).written() == old(stream).written() + ascii_bytes_of(data@),
            Err(_) => final(stream).written() == old(stream).written(),
        },
{
    let bytes = string_ascii_bytes(data);
    stream.write_bytes(bytes.as_slice())
}

/// One turn of a waiting reader: what `wait_for_update` decides each
/// time it wakes, given whether its deadline has passed.
///
/// A fresh value is delivered even on a passed deadline; a closed
/// connection answers `Closed`; otherwise a passed deadline answers
/// `TimedOut`, and `None` means the reader must keep waiting.
pub fn wait_step(
    table: &StatusTable,
    kind: State,
    since: u64,
    deadline_passed: bool,
) -> (r: Option<Result<SetState, ConnectionError>>)
    ensures
        match table.spec_wait_outcome(kind, since) {
            WaitOutcome::Ready(v) => r matches Some(res) && res matches Ok(got) && got == v,
            WaitOutcome::Closed => r matches Some(res) && res matches Err(
                ConnectionError::Closed,
            ),
            WaitOutcome::Pending => if deadline_passed {
                r matches Some(res) && res matches Err(ConnectionError::TimedOut)
            } else {
                r is None
            },
        },
{
    match table.wait_outcome(kind, since) {
        WaitOutcome::Ready(v) => Some(Ok(v)),
        WaitOutcome::Closed => Some(Err(ConnectionError::Closed)),
        WaitOutcome::Pending => {
            if deadline_passed {
                Some(Err(ConnectionError::TimedOut))
            } else {
                None
            }
        },
    }
}

/// The lines collected and the pending partial line after consuming
/// `bytes`, having started with `ls` collected and partial `p`.
pub open spec fn lines_model(ls: Seq<Seq<char>>, p: Seq<u8>, bytes: Seq<u8>) -> (
    Seq<Seq<char>>,
    Seq<u8>,
)
    decreases bytes.len(),
{
    if bytes.len() == 0 {
        (ls, p)
    } else {
        let prev = lines_model(ls, p, bytes.drop_last());
        if bytes.last() == delimiter_byte() {
            (prev.0.push(lossy_chars(prev.1)), Seq::<u8>::empty())
        } else {
            (prev.0, prev.1.push(bytes.last()))
        }
    }
}

/// Collects up to `lines` complete lines from the stream, stopping
/// early when the stream reports no data twice with no progress.
///
/// The result is exactly the complete lines among the consumed bytes,
/// in order, delimiters stripped. At least one line is owed for a
/// success; none at all is an error.
pub fn read<S: ReadStream>(stream: &mut S, lines: usize) -> (r: Result<
    Vec<String>,
    std::io::Error,
>)
    ensures
        final(stream).consumed().len() >= old(stream).consumed().len(),
        final(stream).consumed().take(old(stream).consumed().len() as int) == old(
            stream,
        ).consumed(),
        lines == 0 ==> r is Err && final(stream).consumed() == old(stream).consumed(),
        ({
            let lm = lines_model(
                Seq::<Seq<char>>::empty(),
                Seq::<u8>::empty(),
                final(stream).consumed().skip(old(stream).consumed().len() as int),
            );
            match r {
                Ok(v) => {
                    &&& v@.map_values(|s: String| s@) == lm.0
                    &&& 1 <= lm.0.len() <= lines
                },
                Err(_) => true,
            }
        }),
{
    if lines == 0 {
        return Err(crate::stream::end_of_input_error());
    }
    let ghost c0 = stream.consumed();
    let mut collected: Vec<String> = Vec::new();
    let mut pending: Vec<u8> = Vec::new();
    let mut last_idle: Option<u64> = None;
    let mut pos: u64 = 0;
    // a turn budget that no real connection can exhaust, standing in
    // for an endless loop
    let mut fuel: u64 = u64::MAX;
    loop
        invariant
            c0 == old(stream).consumed(),
            stream.consumed().len() >= c0.len(),
            stream.consumed().take(c0.len() as int) == c0,
            (collected@.map_values(|s: String| s@), pending@) == lines_model(
                Seq::<Seq<char>>::empty(),
                Seq::<u8>::empty(),
                stream.consumed().skip(c0.len() as int),
            ),
            collected@.len() <= lines,
            lines >= 1,
        decreases fuel,
    {
        if collected.len() == lines {
            return Ok(collected);
        }
        if fuel == 0 {
            if collected.len() > 0 {
                return Ok(collected);
            }
            return Err(crate::stream::end_of_input_error());
        }
        fuel = fuel - 1;
        match stream.peek_available() {
            Err(e) => {
                return Err(e);
            },
            Ok(PeekStatus::End) => {
                if collected.len() > 0 {
                    return Ok(collected);
                }
                return Err(crate::stream::end_of_input_error());
            },
            Ok(PeekStatus::Quiet) => {
                match last_idle {
                    Some(p) => {
                        if p == pos {
                            if collected.len() > 0 {
                                return Ok(collected);
                            }
                            return Err(crate::stream::end_of_input_error());
                        }
                        last_idle = Some(pos);
                    },
                    None => {
                        last_idle = Some(pos);
                    },
                }
            },
            Ok(PeekStatus::Ready) => {
                let ghost pre = stream.consumed();
                let ghost before = collected@.map_values(|s: String| s@);
                let taken = stream.read_byte();
                match taken {
                    Err(e) => {
                        return Err(e);
                    },
                    Ok(b) => {
                        if pos < u64::MAX {
                            pos = pos + 1;
                        }
                        proof {
                            assert(stream.consumed().drop_last() =~= pre);
                            assert(stream.consumed().take(c0.len() as int) =~= c0);
                            assert(stream.consumed().skip(c0.len() as int).drop_last() =~= pre.skip(
                                c0.len() as int,
                            ));
                            assert(stream.consumed().skip(c0.len() as int).last() == b);
                        }
                        if b == 13 {
                            let mut line: Vec<u8> = Vec::new();
                            std::mem::swap(&mut line, &mut pending);
                            let text = bytes_to_lossy_string(&line);
                            collected.push(text);
                            proof {
                                assert(collected@.map_values(|s: String| s@) =~= before.push(
                                    text@,
                                ));
                            }
                        } else {
                            pending.push(b);
                        }
                    },
                }
            },
        }
    }
}

/// One round of the status exchange: over the byte delta `d` the
/// pump, started at table `t` and partial line `p`, publishes a value
/// `v` for `kind` fresher than what `t` held.
pub open spec fn spec_get_round(
    t: StatusTable,
    p: Seq<u8>,
    kind: State,
    d: Seq<u8>,
    v: SetState,
) -> bool {
    let m = pump_model(t, p, d);
    &&& m.0.spec_gen(kind) > t.spec_gen(kind)
    &&& m.0.spec_entry(kind) matches Some(e) && e.value == v
}

/// The whole status exchange: the consumed bytes split into four
/// rounds, one per kind in query order, each answering its own query
/// with a freshly published value, and the final table and partial
/// line are the fold of it all.
pub open spec fn spec_status_exchange(
    t0: StatusTable,
    p0: Seq<u8>,
    delta: Seq<u8>,
    d1: Seq<u8>,
    d2: Seq<u8>,
    d3: Seq<u8>,
    d4: Seq<u8>,
    a: SetState,
    b: SetState,
    c: SetState,
    d: SetState,
    tf: StatusTable,
    pf: Seq<u8>,
) -> bool {
    let m1 = pump_model(t0, p0, d1);
    let m2 = pump_model(m1.0, m1.1, d2);
    let m3 = pump_model(m2.0, m2.1, d3);
    let m4 = pump_model(m3.0, m3.1, d4);
    &&& delta == d1 + d2 + d3 + d4
    &&& spec_get_round(t0, p0, State::Power, d1, a)
    &&& spec_get_round(m1.0, m1.1, State::SourceInput, d2, b)
    &&& spec_get_round(m2.0, m2.1, State::MainVolume, d3, c)
    &&& spec_get_round(m3.0, m3.1, State::MaxVolume, d4, d)
    &&& tf == m4.0
    &&& pf == m4.1
}

/// The query lines a full status report sends, in order.
pub open spec fn status_query_bytes() -> Seq<u8> {
    ascii_bytes_of(State::Power.query_chars() + seq!['\r']) + ascii_bytes_of(
        State::SourceInput.query_chars() + seq!['\r'],
    ) + ascii_bytes_of(State::MainVolume.query_chars() + seq!['\r']) + ascii_bytes_of(
        State::MaxVolume.query_chars() + seq!['\r'],
    )
}

/// The exact text `print_status` reports for the four current values.
pub open spec fn spec_status_chars(p: SetState, si: SetState, mv: SetState, mx: SetState) -> Seq<
    char,
> {
    "Current status of receiver:\n\tPower("@ + p.value_chars() + ")\n\tSourceInput("@
        + si.value_chars() + ")\n\tMainVolume("@ + mv.value_chars() + ")\n\tMaxVolume("@
        + mx.value_chars() + ")\n"@
}

/// Renders the status report for four values.
pub fn format_status(p: SetState, si: SetState, mv: SetState, mx: SetState) -> (r: String)
    ensures
        r@ == spec_status_chars(p, si, mv, mx),
{
    let mut s = String::new();
    s.append("Current status of receiver:\n\tPower(");
    let pv = p.value_string();
    s.append(pv.as_str());
    s.append(")\n\tSourceInput(");
    let sv = si.value_string();
    s.append(sv.as_str());
    s.append(")\n\tMainVolume(");
    let mvv = mv.value_string();
    s.append(mvv.as_str());
    s.append(")\n\tMaxVolume(");
    let mxv = mx.value_string();
    s.append(mxv.as_str());
    s.append(")\n");
    proof {
        assert(s@ =~= spec_status_chars(p, si, mv, mx));
    }
    s
}

/// Queries all four status kinds in turn and renders the report.
///
/// On success exactly the four query lines went out, one per kind in
/// order, and the consumed bytes split into four rounds: each
/// reported value was published by its own round's bytes, fresher
/// than what the table held when that round began. The report itself
/// has the fixed shape of `spec_status_chars`.
pub fn print_status<S: ConnectionStream>(dc: &mut DenonConnection<S>) -> (r: Result<
    String,
    std::io::Error,
>)
    requires
        old(dc).table.wf(),
    ensures
        final(dc).table.wf(),
        final(dc).stream.consumed().len() >= old(dc).stream.consumed().len(),
        final(dc).stream.consumed().take(old(dc).stream.consumed().len() as int) == old(
            dc,
        ).stream.consumed(),
        r matches Ok(s) ==> {
            &&& final(dc).stream.written() == old(dc).stream.written() + status_query_bytes()
            &&& exists|
                d1: Seq<u8>,
                d2: Seq<u8>,
                d3: Seq<u8>,
                d4: Seq<u8>,
                a: SetState,
                b: SetState,
                c: SetState,
                d: SetState,
            |
                #[trigger] spec_status_exchange(
                    old(dc).table,
                    old(dc).assembler@,
                    final(dc).stream.consumed().skip(old(dc).stream.consumed().len() as int),
                    d1,
                    d2,
                    d3,
                    d4,
                    a,
                    b,
                    c,
                    d,
                    final(dc).table,
                    final(dc).assembler@,
                ) && s@ == spec_status_chars(a, b, c, d)
        },
{
    let ghost c0 = dc.stream.consumed();
    let ghost t0 = dc.table;
    let ghost p0 = dc.assembler@;
    let ghost w0 = dc.stream.written();
    let p = match dc.get(State::Power) {
        Ok(v) => v,
        Err(e) => {
            return Err(connection_error_to_io(e));
        },
    };
    let ghost c1 = dc.stream.consumed();
    let ghost tb1 = dc.table;
    let ghost pb1 = dc.assembler@;
    let si = match dc.get(State::SourceInput) {
        Ok(v) => v,
        Err(e) => {
            return Err(connection_error_to_io(e));
        },
    };
    let ghost c2 = dc.stream.consumed();
    let ghost tb2 = dc.table;
    let ghost pb2 = dc.assembler@;
    let mv = match dc.get(State::MainVolume) {
        Ok(v) => v,
        Err(e) => {
            return Err(connection_error_to_io(e));
        },
    };
    let ghost c3 = dc.stream.consumed();
    let ghost tb3 = dc.table;
    let ghost pb3 = dc.assembler@;
    let mx = match dc.get(State::MaxVolume) {
        Ok(v) => v,
        Err(e) => {
            return Err(connection_error_to_io(e));
        },
    };
    let ghost c4 = dc.stream.consumed();
    let s = format_status(p, si, mv, mx);
    proof {
        let d1 = c1.skip(c0.len() as int);
        let d2 = c2.skip(c1.len() as int);
        let d3 = c3.skip(c2.len() as int);
        let d4 = c4.skip(c3.len() as int);
        let delta = c4.skip(c0.len() as int);
        assert forall|j: int| 0 <= j < c3.len() implies c4[j] == c3[j] by {
            assert(c4.take(c3.len() as int)[j] == c3[j]);
        }
        assert forall|j: int| 0 <= j < c2.len() implies c3[j] == c2[j] by {
            assert(c3.take(c2.len() as int)[j] == c2[j]);
        }
        assert forall|j: int| 0 <= j < c1.len() implies c2[j] == c1[j] by {
            assert(c2.take(c1.len() as int)[j] == c1[j]);
        }
        assert(delta =~= d1 + d2 + d3 + d4);
        lemma_pump_model_preserves(t0, p0, d1);
        lemma_pump_model_preserves(tb1, pb1, d2);
        lemma_pump_model_preserves(tb2, pb2, d3);
        assert(spec_status_exchange(
            t0,
            p0,
            delta,
            d1,
            d2,
            d3,
            d4,
            p,
            si,
            mv,
            mx,
            dc.table,
            dc.assembler@,
        ));
        assert(dc.stream.written() =~= w0 + status_query_bytes());
        assert(s@ == spec_status_chars(p, si, mv, mx));
    }
    Ok(s)
}

} // verus!
