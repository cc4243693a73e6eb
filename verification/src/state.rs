//! The status kinds a receiver reports and the values they can take,
//! together with their renderings as outbound protocol lines.

use vstd::prelude::*;
use vstd::string::StringExecFns;

verus! {

/// A value that has a fixed spelling on the wire.
pub trait WireValue: Sized + Copy {
    /// The characters this value is written as in a protocol line.
    spec fn wire_chars(self) -> Seq<char>;

    /// Executable rendering of `wire_chars`.
    fn wire_name(self) -> (r: &'static str)
        ensures
            r@ == self.wire_chars(),
    ;
}

/// The power section of the receiver is either on or in standby.
#[derive(Clone, Copy, PartialEq, Eq, Structural, Debug)]
pub enum PowerState {
    On,
    Standby,
}

impl PowerState {
    /// The power states in the order they are matched.
    pub open spec fn spec_states() -> Seq<PowerState> {
        seq![PowerState::On, PowerState::Standby]
    }

    /// Every value a power status line may carry.
    pub fn states() -> (r: Vec<PowerState>)
        ensures
            r@ == Self::spec_states(),
    {
        let mut v: Vec<PowerState> = Vec::new();
        v.push(PowerState::On);
        v.push(PowerState::Standby);
        proof {
            assert(v@ =~= seq![PowerState::On, PowerState::Standby]);
        }
        v
    }
}

impl WireValue for PowerState {
    open spec fn wire_chars(self) -> Seq<char> {
        match self {
            PowerState::On => seq!['O', 'N'],
            PowerState::Standby => seq!['S', 'T', 'A', 'N', 'D', 'B', 'Y'],
        }
    }

    fn wire_name(self) -> (r: &'static str) {
        match self {
            PowerState::On => {
                let r = "ON";
                proof {
                    reveal_strlit("ON");
                    assert(r@ =~= seq!['O', 'N']);
                }
                r
            },
            PowerState::Standby => {
                let r = "STANDBY";
                proof {
                    reveal_strlit("STANDBY");
                    assert(r@ =~= seq!['S', 'T', 'A', 'N', 'D', 'B', 'Y']);
                }
                r
            },
        }
    }
}

/// The closed set of source inputs the receiver knows, with a fallback
/// for names it reports that this library does not know.
#[derive(Clone, Copy, PartialEq, Eq, Structural, Debug)]
pub enum SourceInputState {
    Cd,
    Tuner,
    Dvd,
    Bd,
    Tv,
    SatCbl,
    Game,
    Game2,
    VAux,
    Dock,
    Ipod,
    NetUsb,
    Unknown,
}

impl SourceInputState {
    /// The selectable inputs; `Unknown` is a decode fallback and cannot
    /// be selected.
    pub fn states() -> (r: Vec<SourceInputState>)
        ensures
            r@ == Self::spec_states(),
    {
        let mut v: Vec<SourceInputState> = Vec::new();
        v.push(SourceInputState::Cd);
        v.push(SourceInputState::Tuner);
        v.push(SourceInputState::Dvd);
        v.push(SourceInputState::Bd);
        v.push(SourceInputState::Tv);
        v.push(SourceInputState::SatCbl);
        v.push(SourceInputState::Game);
        v.push(SourceInputState::Game2);
        v.push(SourceInputState::VAux);
        v.push(SourceInputState::Dock);
        v.push(SourceInputState::Ipod);
        v.push(SourceInputState::NetUsb);
        proof {
            assert(v@ =~= Self::spec_states());
        }
        v
    }

    pub open spec fn spec_states() -> Seq<SourceInputState> {
        seq![
            SourceInputState::Cd,
            SourceInputState::Tuner,
            SourceInputState::Dvd,
            SourceInputState::Bd,
            SourceInputState::Tv,
            SourceInputState::SatCbl,
            SourceInputState::Game,
            SourceInputState::Game2,
            SourceInputState::VAux,
            SourceInputState::Dock,
            SourceInputState::Ipod,
            SourceInputState::NetUsb,
        ]
    }
}

impl WireValue for SourceInputState {
    open spec fn wire_chars(self) -> Seq<char> {
        match self {
            SourceInputState::Cd => seq!['C', 'D'],
            SourceInputState::Tuner => seq!['T', 'U', 'N', 'E', 'R'],
            SourceInputState::Dvd => seq!['D', 'V', 'D'],
            SourceInputState::Bd => seq!['B', 'D'],
            SourceInputState::Tv => seq!['T', 'V'],
            SourceInputState::SatCbl => seq!['S', 'A', 'T', '/', 'C', 'B', 'L'],
            SourceInputState::Game => seq!['G', 'A', 'M', 'E'],
            SourceInputState::Game2 => seq!['G', 'A', 'M', 'E', '2'],
            SourceInputState::VAux => seq!['V', '.', 'A', 'U', 'X'],
            SourceInputState::Dock => seq!['D', 'O', 'C', 'K'],
            SourceInputState::Ipod => seq!['I', 'P', 'O', 'D'],
            SourceInputState::NetUsb => seq!['N', 'E', 'T', '/', 'U', 'S', 'B'],
            SourceInputState::Unknown => seq!['U', 'N', 'K', 'N', 'O', 'W', 'N'],
        }
    }

    fn wire_name(self) -> (r: &'static str) {
        match self {
            SourceInputState::Cd => {
                let r = "CD";
                proof {
                    reveal_strlit("CD");
                    assert(r@ =~= seq!['C', 'D']);
                }
                r
            },
            SourceInputState::Tuner => {
                let r = "TUNER";
                proof {
                    reveal_strlit("TUNER");
                    assert(r@ =~= seq!['T', 'U', 'N', 'E', 'R']);
                }
                r
            },
            SourceInputState::Dvd => {
                let r = "DVD";
                proof {
                    reveal_strlit("DVD");
                    assert(r@ =~= seq!['D', 'V', 'D']);
                }
                r
            },
            SourceInputState::Bd => {
                let r = "BD";
                proof {
                    reveal_strlit("BD");
                    assert(r@ =~= seq!['B', 'D']);
                }
                r
            },
            SourceInputState::Tv => {
                let r = "TV";
                proof {
                    reveal_strlit("TV");
                    assert(r@ =~= seq!['T', 'V']);
                }
                r
            },
            SourceInputState::SatCbl => {
                let r = "SAT/CBL";
                proof {
                    reveal_strlit("SAT/CBL");
                    assert(r@ =~= seq!['S', 'A', 'T', '/', 'C', 'B', 'L']);
                }
                r
            },
            SourceInputState::Game => {
                let r = "GAME";
                proof {
                    reveal_strlit("GAME");
                    assert(r@ =~= seq!['G', 'A', 'M', 'E']);
                }
                r
            },
            SourceInputState::Game2 => {
                let r = "GAME2";
                proof {
                    reveal_strlit("GAME2");
                    assert(r@ =~= seq!['G', 'A', 'M', 'E', '2']);
                }
                r
            },
            SourceInputState::VAux => {
                let r = "V.AUX";
                proof {
                    reveal_strlit("V.AUX");
                    assert(r@ =~= seq!['V', '.', 'A', 'U', 'X']);
                }
                r
            },
            SourceInputState::Dock => {
                let r = "DOCK";
                proof {
                    reveal_strlit("DOCK");
                    assert(r@ =~= seq!['D', 'O', 'C', 'K']);
                }
                r
            },
            SourceInputState::Ipod => {
                let r = "IPOD";
                proof {
                    reveal_strlit("IPOD");
                    assert(r@ =~= seq!['I', 'P', 'O', 'D']);
                }
                r
            },
            SourceInputState::NetUsb => {
                let r = "NET/USB";
                proof {
                    reveal_strlit("NET/USB");
                    assert(r@ =~= seq!['N', 'E', 'T', '/', 'U', 'S', 'B']);
                }
                r
            },
            SourceInputState::Unknown => {
                let r = "UNKNOWN";
                proof {
                    reveal_strlit("UNKNOWN");
                    assert(r@ =~= seq!['U', 'N', 'K', 'N', 'O', 'W', 'N']);
                }
                r
            },
        }
    }
}

/// A kind of receiver status, independent of its value.
#[derive(Clone, Copy, PartialEq, Eq, Structural, Debug)]
pub enum State {
    Power,
    SourceInput,
    MainVolume,
    MaxVolume,
}

impl State {
    /// The wire prefix that introduces a line of this kind.
    pub open spec fn prefix_chars(self) -> Seq<char> {
        match self {
            State::Power => seq!['P', 'W'],
            State::SourceInput => seq!['S', 'I'],
            State::MainVolume => seq!['M', 'V'],
            State::MaxVolume => seq!['M', 'V', 'M', 'A', 'X'],
        }
    }

    /// Executable rendering of `prefix_chars`.
    pub fn prefix(self) -> (r: &'static str)
        ensures
            r@ == self.prefix_chars(),
    {
        match self {
            State::Power => {
                let r = "PW";
                proof {
                    reveal_strlit("PW");
                    assert(r@ =~= seq!['P', 'W']);
                }
                r
            },
            State::SourceInput => {
                let r = "SI";
                proof {
                    reveal_strlit("SI");
                    assert(r@ =~= seq!['S', 'I']);
                }
                r
            },
            State::MainVolume => {
                let r = "MV";
                proof {
                    reveal_strlit("MV");
                    assert(r@ =~= seq!['M', 'V']);
                }
                r
            },
            State::MaxVolume => {
                let r = "MVMAX";
                proof {
                    reveal_strlit("MVMAX");
                    assert(r@ =~= seq!['M', 'V', 'M', 'A', 'X']);
                }
                r
            },
        }
    }

    /// The human-readable name of the kind, used when printing status.
    pub open spec fn label_chars(self) -> Seq<char> {
        match self {
            State::Power => seq!['P', 'o', 'w', 'e', 'r'],
            State::SourceInput => seq!['S', 'o', 'u', 'r', 'c', 'e', 'I', 'n', 'p', 'u', 't'],
            State::MainVolume => seq!['M', 'a', 'i', 'n', 'V', 'o', 'l', 'u', 'm', 'e'],
            State::MaxVolume => seq!['M', 'a', 'x', 'V', 'o', 'l', 'u', 'm', 'e'],
        }
    }

    /// Executable rendering of `label_chars`.
    pub fn label(self) -> (r: &'static str)
        ensures
            r@ == self.label_chars(),
    {
        match self {
            State::Power => {
                let r = "Power";
                proof {
                    reveal_strlit("Power");
                    assert(r@ =~= seq!['P', 'o', 'w', 'e', 'r']);
                }
                r
            },
            State::SourceInput => {
                let r = "SourceInput";
                proof {
                    reveal_strlit("SourceInput");
                    assert(r@ =~= seq!['S', 'o', 'u', 'r', 'c', 'e', 'I', 'n', 'p', 'u', 't']);
                }
                r
            },
            State::MainVolume => {
                let r = "MainVolume";
                proof {
                    reveal_strlit("MainVolume");
                    assert(r@ =~= seq!['M', 'a', 'i', 'n', 'V', 'o', 'l', 'u', 'm', 'e']);
                }
                r
            },
            State::MaxVolume => {
                let r = "MaxVolume";
                proof {
                    reveal_strlit("MaxVolume");
                    assert(r@ =~= seq!['M', 'a', 'x', 'V', 'o', 'l', 'u', 'm', 'e']);
                }
                r
            },
        }
    }
}

/// A status kind together with a value of that kind, as carried by a
/// status line or a command.
#[derive(Clone, Copy, PartialEq, Eq, Structural, Debug)]
pub enum SetState {
    Power(PowerState),
    SourceInput(SourceInputState),
    MainVolume(u32),
    MaxVolume(u32),
}

impl SetState {
    /// The kind this value belongs to.
    pub open spec fn kind(self) -> State {
        match self {
            SetState::Power(_) => State::Power,
            SetState::SourceInput(_) => State::SourceInput,
            SetState::MainVolume(_) => State::MainVolume,
            SetState::MaxVolume(_) => State::MaxVolume,
        }
    }

    /// Executable form of `kind`.
    pub fn state_kind(self) -> (r: State)
        ensures
            r == self.kind(),
    {
        match self {
            SetState::Power(_) => State::Power,
            SetState::SourceInput(_) => State::SourceInput,
            SetState::MainVolume(_) => State::MainVolume,
            SetState::MaxVolume(_) => State::MaxVolume,
        }
    }

    /// The characters the value part of this setting is written as.
    ///
    /// Volumes are written literally, with no unit scaling on output.
    pub open spec fn value_chars(self) -> Seq<char> {
        match self {
            SetState::Power(p) => p.wire_chars(),
            SetState::SourceInput(i) => i.wire_chars(),
            SetState::MainVolume(v) => crate::digits::dec_chars(v as nat),
            SetState::MaxVolume(v) => crate::digits::dec_chars(v as nat),
        }
    }

    /// Executable rendering of `value_chars`.
    pub fn value_string(self) -> (r: String)
        ensures
            r@ == self.value_chars(),
    {
        match self {
            SetState::Power(p) => String::from_str(p.wire_name()),
            SetState::SourceInput(i) => String::from_str(i.wire_name()),
            SetState::MainVolume(v) => crate::digits::u32_to_string(v),
            SetState::MaxVolume(v) => crate::digits::u32_to_string(v),
        }
    }

    /// A command without its delimiter: the kind's prefix followed by
    /// the value.
    pub open spec fn command_chars(self) -> Seq<char> {
        self.kind().prefix_chars() + self.value_chars()
    }

    /// The full command line for this setting, delimiter included.
    pub fn encode_command(self) -> (r: String)
        ensures
            r@ == self.command_chars() + seq!['\r'],
    {
        let mut s = String::from_str(self.state_kind().prefix());
        let value = self.value_string();
        s.append(value.as_str());
        s.append("\r");
        proof {
            reveal_strlit("\r");
            assert("\r"@ =~= seq!['\r']);
            assert(s@ =~= self.command_chars() + seq!['\r']);
        }
        s
    }
}

impl State {
    /// A query without its delimiter: the prefix followed by `?`.
    pub open spec fn query_chars(self) -> Seq<char> {
        self.prefix_chars() + seq!['?']
    }

    /// The full query line for this kind, delimiter included.
    pub fn encode_query(self) -> (r: String)
        ensures
            r@ == self.query_chars() + seq!['\r'],
    {
        let mut s = String::from_str(self.prefix());
        s.append("?\r");
        proof {
            reveal_strlit("?\r");
            assert("?\r"@ =~= seq!['?', '\r']);
            assert(s@ =~= self.query_chars() + seq!['\r']);
        }
        s
    }
}

/// Looks `value` up among `states` by its wire spelling.
///
/// Returns the first state whose spelling equals `value`, and otherwise
/// an `Input` error; no input/output is involved, so a rejected value
/// never reaches the wire.
pub fn get_state<T: WireValue>(states: Vec<T>, value: &str) -> (r: Result<T, crate::error::Error>)
    ensures
        match r {
            Ok(t) => exists|i: int|
                0 <= i < states@.len() && states@[i] == t && #[trigger] states@[i].wire_chars()
                    == value@ && forall|j: int|
                    0 <= j < i ==> #[trigger] states@[j].wire_chars() != value@,
            Err(e) => {
                &&& forall|i: int|
                    0 <= i < states@.len() ==> #[trigger] states@[i].wire_chars() != value@
                &&& e matches crate::error::Error::Input(_)
            },
        },
{
    let n = states.len();
    let mut i: usize = 0;
    while i < n
        invariant
            n == states@.len(),
            i <= n,
            forall|j: int| 0 <= j < i ==> #[trigger] states@[j].wire_chars() != value@,
        decreases n - i,
    {
        let name = states[i].wire_name();
        if crate::strutil::str_eq(name, value) {
            return Ok(states[i]);
        }
        i += 1;
    }
    Err(crate::error::Error::input_value_mismatch(value))
}

} // verus!
