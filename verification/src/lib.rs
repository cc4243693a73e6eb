//! Control library for an audio/video receiver speaking an ASCII line
//! protocol over a byte stream.
//!
//! The crate is organised around a small verified core: a stateless
//! protocol codec ([`parse`], [`state`]), a status table with per-kind
//! update generations ([`table`]), a line assembler and receiver loop
//! ([`denon_connection`]), and a request/response facade
//! ([`denon_connection::DenonConnection`]). Transport construction,
//! argument handling and receiver discovery are left to the surrounding
//! application, which hands this crate plain values.

pub mod avahi;
pub mod avahi_error;
pub mod denon_connection;
pub mod digits;
pub mod error;
pub mod laws;
pub mod parse;
pub mod parse_fallback;
pub mod state;
pub mod stream;
pub mod strutil;
pub mod table;
pub mod timing;

pub use denon_connection::{
    print_status, read, thread_func_impl, wait_step, write_string, ConnectionError,
    DenonConnection,
};
pub use error::Error;
pub use state::{get_state, PowerState, SetState, SourceInputState, State};
pub use stream::{ConnectionStream, MemStream, PeekStatus, ReadStream};

use state::WireValue;
use vstd::prelude::*;
use vstd::string::StringExecFns;

verus! {

/// How the text after the colon of an address is read as a port:
/// `default_port` stands in when it is not a number that fits.
pub open spec fn spec_port_of(s: Seq<char>, default_port: u16) -> u16 {
    match digits::parse_u32_spec(s) {
        Some(v) => if v <= u16::MAX {
            v as u16
        } else {
            default_port
        },
        None => default_port,
    }
}

/// Splits `HOSTNAME[:port]` at the first colon; a missing or
/// unreadable port becomes `default_port`.
pub fn parse_address(name: &str, default_port: u16) -> (r: (String, u16))
    ensures
        ({
            let p = strutil::first_pos(name@, ':') as int;
            if p == name@.len() {
                r.0@ == name@ && r.1 == default_port
            } else {
                r.0@ == name@.take(p) && r.1 == spec_port_of(name@.skip(p + 1), default_port)
            }
        }),
{
    let len = name.unicode_len();
    proof {
        assert(name@.subrange(0, len as int) =~= name@);
    }
    let p = strutil::find_char(name, 0, len, ':');
    if p == len {
        (String::from_str(name), default_port)
    } else {
        let host = name.substring_char(0, p);
        let port: u16 = match digits::parse_u32_range(name, p + 1, len) {
            Some(v) => {
                if v <= 65535 {
                    v as u16
                } else {
                    default_port
                }
            },
            None => default_port,
        };
        proof {
            assert(name@.subrange(p + 1, len as int) =~= name@.skip(p as int + 1));
            assert(name@.subrange(0, p as int) =~= name@.take(p as int));
        }
        (String::from_str(host), port)
    }
}

/// What a caller asks the receiver to do in one sitting: optionally
/// report status, then apply the given settings in a fixed order.
pub struct CommandRequest {
    pub status: bool,
    pub power: Option<String>,
    pub input: Option<String>,
    pub volume: Option<u32>,
}

/// The bytes the power setting of a request puts on the wire.
pub open spec fn power_cmd_bytes(o: Option<String>) -> Seq<u8> {
    match o {
        Option::None => Seq::<u8>::empty(),
        Option::Some(s) => match parse::spec_power_of(s@) {
            Some(p) => strutil::ascii_bytes_of(SetState::Power(p).command_chars() + seq!['\r']),
            None => Seq::<u8>::empty(),
        },
    }
}

/// The bytes the input setting of a request puts on the wire.
pub open spec fn input_cmd_bytes(o: Option<String>) -> Seq<u8> {
    match o {
        Option::None => Seq::<u8>::empty(),
        Option::Some(s) => match parse::spec_si_of(s@) {
            Some(i) => strutil::ascii_bytes_of(
                SetState::SourceInput(i).command_chars() + seq!['\r'],
            ),
            None => Seq::<u8>::empty(),
        },
    }
}

/// The bytes the volume setting of a request puts on the wire: the
/// volume is capped at 50 before it reaches the wire, so a slip of
/// the finger cannot hurt anyone's ears.
pub open spec fn volume_cmd_bytes(o: Option<u32>) -> Seq<u8> {
    match o {
        Option::None => Seq::<u8>::empty(),
        Option::Some(v) => strutil::ascii_bytes_of(
            SetState::MainVolume(
                if v > 50 {
                    50u32
                } else {
                    v
                },
            ).command_chars() + seq!['\r'],
        ),
    }
}

/// The first power state whose spelling matches is what the value
/// chain decodes.
proof fn lemma_power_first_match(v: Seq<char>, i: int)
    requires
        0 <= i < PowerState::spec_states().len(),
        PowerState::spec_states()[i].wire_chars() == v,
        forall|j: int|
            0 <= j < i ==> #[trigger] PowerState::spec_states()[j].wire_chars() != v,
    ensures
        parse::spec_power_of(v) == Some(PowerState::spec_states()[i]),
{
    if i == 0 {
        assert(PowerState::spec_states()[0] == PowerState::On);
        assert(v == PowerState::On.wire_chars());
    } else {
        assert(PowerState::spec_states()[0] == PowerState::On);
        assert(PowerState::spec_states()[1] == PowerState::Standby);
        assert(PowerState::spec_states()[0].wire_chars() != v);
        assert(v == PowerState::Standby.wire_chars());
    }
}

/// A spelling matching no power state decodes to nothing.
proof fn lemma_power_no_match(v: Seq<char>)
    requires
        forall|j: int|
            0 <= j < PowerState::spec_states().len()
                ==> #[trigger] PowerState::spec_states()[j].wire_chars() != v,
    ensures
        parse::spec_power_of(v) is None,
{
    assert(PowerState::spec_states()[0] == PowerState::On);
    assert(PowerState::spec_states()[1] == PowerState::Standby);
    assert(PowerState::spec_states()[0].wire_chars() != v);
    assert(PowerState::spec_states()[1].wire_chars() != v);
}

/// The first input whose spelling matches is what the value chain
/// decodes.
proof fn lemma_input_first_match(v: Seq<char>, i: int)
    requires
        0 <= i < SourceInputState::spec_states().len(),
        SourceInputState::spec_states()[i].wire_chars() == v,
        forall|j: int|
            0 <= j < i ==> #[trigger] SourceInputState::spec_states()[j].wire_chars() != v,
    ensures
        parse::spec_si_of(v) == Some(SourceInputState::spec_states()[i]),
{
}

/// A spelling matching no input of the closed set decodes to nothing.
proof fn lemma_input_no_match(v: Seq<char>)
    requires
        forall|j: int|
            0 <= j < SourceInputState::spec_states().len()
                ==> #[trigger] SourceInputState::spec_states()[j].wire_chars() != v,
    ensures
        parse::spec_si_of(v) is None,
{
    let states = SourceInputState::spec_states();
    assert forall|j: int| 0 <= j < states.len() implies #[trigger] states[j].wire_chars()
        != v by {}
    assert(states[0] == SourceInputState::Cd);
    assert(states[1] == SourceInputState::Tuner);
    assert(states[2] == SourceInputState::Dvd);
    assert(states[3] == SourceInputState::Bd);
    assert(states[4] == SourceInputState::Tv);
    assert(states[5] == SourceInputState::SatCbl);
    assert(states[6] == SourceInputState::Game);
    assert(states[7] == SourceInputState::Game2);
    assert(states[8] == SourceInputState::VAux);
    assert(states[9] == SourceInputState::Dock);
    assert(states[10] == SourceInputState::Ipod);
    assert(states[11] == SourceInputState::NetUsb);
    assert(states[0].wire_chars() != v);
    assert(states[1].wire_chars() != v);
    assert(states[2].wire_chars() != v);
    assert(states[3].wire_chars() != v);
    assert(states[4].wire_chars() != v);
    assert(states[5].wire_chars() != v);
    assert(states[6].wire_chars() != v);
    assert(states[7].wire_chars() != v);
    assert(states[8].wire_chars() != v);
    assert(states[9].wire_chars() != v);
    assert(states[10].wire_chars() != v);
    assert(states[11].wire_chars() != v);
}

/// Whether a request names a power or input value outside its
/// enumerated domain.
pub open spec fn request_invalid(req: CommandRequest) -> bool {
    ||| (req.power matches Some(p) && parse::spec_power_of(p@) is None)
    ||| (req.input matches Some(iv) && parse::spec_si_of(iv@) is None)
}

/// Applies a request to a connection: both settings are validated
/// first, then the status report runs, then power, input and volume
/// go out, each as one command, stopping at the first failure.
///
/// A value outside its enumerated domain is rejected with an `Input`
/// error before any I/O: nothing is written, read or changed. When
/// nothing fails, the wire sees the status queries (when asked for)
/// followed by exactly the commands of the request, in order, with
/// the volume capped at 50.
pub fn run_commands<S: ConnectionStream>(
    dc: &mut DenonConnection<S>,
    req: &CommandRequest,
) -> (r: Result<Option<String>, Error>)
    requires
        old(dc).table.wf(),
    ensures
        request_invalid(*req) <==> r matches Err(Error::Input(_)),
        r matches Err(Error::Input(_)) ==> *final(dc) == *old(dc),
        r matches Ok(t) ==> ((t is Some) == req.status),
        r matches Ok(_) ==> final(dc).stream.written() == old(dc).stream.written() + (
        if req.status {
            denon_connection::status_query_bytes()
        } else {
            Seq::<u8>::empty()
        }) + power_cmd_bytes(req.power) + input_cmd_bytes(req.input) + volume_cmd_bytes(
            req.volume,
        ),
        (!req.status && r matches Ok(_)) ==> final(dc).stream.consumed() == old(
            dc,
        ).stream.consumed(),
        req.status ==> (r matches Ok(t) ==> t matches Some(text) && exists|
            d1: Seq<u8>,
            d2: Seq<u8>,
            d3: Seq<u8>,
            d4: Seq<u8>,
            a: SetState,
            b: SetState,
            c: SetState,
            d: SetState,
        |
            #[trigger] denon_connection::spec_status_exchange(
                old(dc).table,
                old(dc).assembler@,
                final(dc).stream.consumed().skip(old(dc).stream.consumed().len() as int),
                d1,
                d2,
                d3,
                d4,
                a,
                b,
                c,
                d,
                final(dc).table,
                final(dc).assembler@,
            ) && text@ == denon_connection::spec_status_chars(a, b, c, d)),
{
    // both settings are validated before anything touches the wire
    let mut power_state: Option<PowerState> = None;
    if let Some(p) = &req.power {
        let states = PowerState::states();
        match get_state(states, p.as_str()) {
            Ok(s) => {
                proof {
                    let sseq = PowerState::spec_states();
                    let i = choose|i: int|
                        0 <= i < sseq.len() && sseq[i] == s && #[trigger] sseq[i].wire_chars()
                            == p@ && forall|j: int|
                            0 <= j < i ==> #[trigger] sseq[j].wire_chars() != p@;
                    lemma_power_first_match(p@, i);
                }
                power_state = Some(s);
            },
            Err(e) => {
                proof {
                    lemma_power_no_match(p@);
                }
                return Err(e);
            },
        }
    }
    let mut input_state: Option<SourceInputState> = None;
    if let Some(iv) = &req.input {
        let states = SourceInputState::states();
        match get_state(states, iv.as_str()) {
            Ok(s) => {
                proof {
                    let sseq = SourceInputState::spec_states();
                    let i = choose|i: int|
                        0 <= i < sseq.len() && sseq[i] == s && #[trigger] sseq[i].wire_chars()
                            == iv@ && forall|j: int|
                            0 <= j < i ==> #[trigger] sseq[j].wire_chars() != iv@;
                    lemma_input_first_match(iv@, i);
                }
                input_state = Some(s);
            },
            Err(e) => {
                proof {
                    lemma_input_no_match(iv@);
                }
                return Err(e);
            },
        }
    }
    let mut status_text: Option<String> = None;
    if req.status {
        match denon_connection::print_status(dc) {
            Ok(s) => {
                status_text = Some(s);
            },
            Err(e) => {
                return Err(Error::IO(e));
            },
        }
    }
    let ghost c_mid = dc.stream.consumed();
    let ghost t_mid = dc.table;
    let ghost a_mid = dc.assembler@;
    let ghost w_mid = dc.stream.written();
    if let Some(ps) = power_state {
        match dc.set(SetState::Power(ps)) {
            Ok(_) => {},
            Err(e) => {
                return Err(Error::IO(denon_connection::connection_error_to_io(e)));
            },
        }
    }
    if let Some(is) = input_state {
        match dc.set(SetState::SourceInput(is)) {
            Ok(_) => {},
            Err(e) => {
                return Err(Error::IO(denon_connection::connection_error_to_io(e)));
            },
        }
    }
    if let Some(v) = req.volume {
        // do not accidentally kill the ears
        let vi: u32 = if v > 50 {
            50
        } else {
            v
        };
        match dc.set(SetState::MainVolume(vi)) {
            Ok(_) => {},
            Err(e) => {
                return Err(Error::IO(denon_connection::connection_error_to_io(e)));
            },
        }
    }
    proof {
        assert(dc.stream.written() =~= w_mid + power_cmd_bytes(req.power) + input_cmd_bytes(
            req.input,
        ) + volume_cmd_bytes(req.volume));
        if req.status && status_text is Some {
            let delta = c_mid.skip(old(dc).stream.consumed().len() as int);
            let textv = status_text.unwrap()@;
            {
                let (d1, d2, d3, d4, a, b, c, d) = choose|
                    d1: Seq<u8>,
                    d2: Seq<u8>,
                    d3: Seq<u8>,
                    d4: Seq<u8>,
                    a: SetState,
                    b: SetState,
                    c: SetState,
                    d: SetState,
                |
                    #[trigger] denon_connection::spec_status_exchange(
                        old(dc).table,
                        old(dc).assembler@,
                        delta,
                        d1,
                        d2,
                        d3,
                        d4,
                        a,
                        b,
                        c,
                        d,
                        t_mid,
                        a_mid,
                    ) && textv == denon_connection::spec_status_chars(a, b, c, d);
                assert(denon_connection::spec_status_exchange(
                    old(dc).table,
                    old(dc).assembler@,
                    dc.stream.consumed().skip(old(dc).stream.consumed().len() as int),
                    d1,
                    d2,
                    d3,
                    d4,
                    a,
                    b,
                    c,
                    d,
                    dc.table,
                    dc.assembler@,
                ));
            }
        }
    }
    Ok(status_text)
}

} // verus!
