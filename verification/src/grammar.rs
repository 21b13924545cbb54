//! The grammar of what the device says, as a specification.
//!
//! A message is recognized at the front of a window of bytes. Each production
//! is a chain of parts; a part either matches and moves on, or finds that the
//! window ends too early to decide, or finds that the bytes are not its own.
//! Every part decides on the bytes it has seen alone, so a window that held
//! a whole message still holds it when more bytes follow.

use crate::num::{decimal_value, is_digit};
use crate::protocol::{carrier_of, FirmwareInfo, IpAddresses, Ipv4Addr, Response};
use crate::protocol::{WifiConnectionFailure, DATA_CAPACITY};
use vstd::prelude::*;
use vstd::string::StringSliceAdditionalSpecFns;

verus! {

/// How far a production has come.
pub enum Step {
    /// Every part so far has matched, and the next one starts at this index.
    At(int),
    /// The window ended before a part could be decided.
    Incomplete,
    /// A part met bytes that are not its own.
    NoMatch,
}

/// What a production makes of a window.
pub enum Outcome {
    /// The window starts with a message that takes up its first `consumed`
    /// bytes.
    Complete { response: Response, consumed: int },
    /// More bytes are needed to decide.
    Incomplete,
    /// The window does not start with a message of this kind.
    NoMatch,
}

/// Matches the bytes `lit` at index `at`. A window that ends inside `lit`
/// is incomplete as long as what it holds agrees with `lit`.
pub open spec fn literal_at(input: Seq<u8>, at: int, lit: Seq<u8>) -> Step {
    let have = input.len() - at;
    if have >= lit.len() {
        if input.subrange(at, at + lit.len()) == lit {
            Step::At(at + lit.len())
        } else {
            Step::NoMatch
        }
    } else if input.subrange(at, input.len() as int) == lit.subrange(0, have) {
        Step::Incomplete
    } else {
        Step::NoMatch
    }
}

/// The index of the first byte at or after `at` that is no ASCII digit, or
/// the window's length.
pub open spec fn digits_end(input: Seq<u8>, at: int) -> int
    decreases input.len() - at,
{
    if 0 <= at < input.len() && is_digit(input[at]) {
        digits_end(input, at + 1)
    } else {
        at
    }
}

/// The number that the run of digits at `at` writes.
pub open spec fn number_value(input: Seq<u8>, at: int) -> nat {
    decimal_value(input.subrange(at, digits_end(input, at)))
}

/// Matches a number of at most `max` at index `at`: one or more digits and
/// then a byte that is none. A run that reaches the window's end may still
/// grow, and is incomplete; a number above `max` is no match.
pub open spec fn number_at(input: Seq<u8>, at: int, max: int) -> Step {
    let end = digits_end(input, at);
    if end >= input.len() {
        Step::Incomplete
    } else if end == at {
        Step::NoMatch
    } else if number_value(input, at) > max {
        Step::NoMatch
    } else {
        Step::At(end)
    }
}

/// The first index at or after `at` where `needle` stands, or -1.
pub open spec fn find_at(input: Seq<u8>, at: int, needle: Seq<u8>) -> int
    decreases input.len() - at,
{
    if at < 0 || at >= input.len() || at + needle.len() > input.len() {
        -1
    } else if input.subrange(at, at + needle.len()) == needle {
        at
    } else {
        find_at(input, at + 1, needle)
    }
}

impl Step {
    /// The index that the production has reached, where it has matched so far.
    pub open spec fn pos(self) -> int {
        match self {
            Step::At(pos) => pos,
            _ => 0,
        }
    }

    /// Whether the index reached lies in the window `input`, at `from` or
    /// later.
    pub open spec fn within(self, input: Seq<u8>, from: int) -> bool {
        self matches Step::At(pos) ==> from <= pos <= input.len()
    }

    /// Then the text `lit`.
    pub open spec fn tag(self, input: Seq<u8>, lit: &str) -> Step {
        match self {
            Step::At(pos) => literal_at(input, pos, lit.spec_bytes()),
            _ => self,
        }
    }

    /// Then the line terminator, carriage return and line feed.
    pub open spec fn line_break(self, input: Seq<u8>) -> Step {
        self.tag(input, "\r\n")
    }

    /// Then a line terminator, if one stands there.
    pub open spec fn optional_break(self, input: Seq<u8>) -> Step {
        match self.line_break(input) {
            Step::NoMatch => self,
            other => other,
        }
    }

    /// Then a number of at most `max` (see [`number_at`]).
    pub open spec fn number(self, input: Seq<u8>, max: int) -> Step {
        match self {
            Step::At(pos) => number_at(input, pos, max),
            _ => self,
        }
    }

    /// Then any bytes up to the first `OK`, which is left standing.
    pub open spec fn until_ok(self, input: Seq<u8>) -> Step {
        match self {
            Step::At(pos) => {
                let found = find_at(input, pos, "OK".spec_bytes());
                if found < 0 {
                    Step::Incomplete
                } else {
                    Step::At(found)
                }
            },
            _ => self,
        }
    }

    /// Then `count` bytes, whatever they are.
    pub open spec fn take(self, input: Seq<u8>, count: int) -> Step {
        match self {
            Step::At(pos) => if input.len() - pos >= count {
                Step::At(pos + count)
            } else {
                Step::Incomplete
            },
            _ => self,
        }
    }

    /// Then the line `OK`, which up to two empty lines may precede.
    pub open spec fn ok_line(self, input: Seq<u8>) -> Step {
        self.optional_break(input).optional_break(input).tag(input, "OK").line_break(input)
    }

    /// The outcome of a production whose last part is this one and whose
    /// message is `response`.
    pub open spec fn finish(self, response: Response) -> Outcome {
        match self {
            Step::At(pos) => Outcome::Complete { response, consumed: pos },
            Step::Incomplete => Outcome::Incomplete,
            Step::NoMatch => Outcome::NoMatch,
        }
    }
}

impl Outcome {
    /// This outcome, or that of the next production where this one is no
    /// match. An incomplete production ends the search: the bytes to come may
    /// still make it match.
    pub open spec fn or(self, next: Outcome) -> Outcome {
        match self {
            Outcome::NoMatch => next,
            _ => self,
        }
    }
}

/// `OK`
pub open spec fn ok(input: Seq<u8>) -> Outcome {
    Step::At(0).ok_line(input).finish(Response::Okay)
}

/// `ERROR`, which up to two empty lines may precede.
pub open spec fn error(input: Seq<u8>) -> Outcome {
    Step::At(0).optional_break(input).optional_break(input).tag(input, "ERROR").line_break(
        input,
    ).finish(Response::Error)
}

/// `WIFI CONNECTED`
pub open spec fn wifi_connected(input: Seq<u8>) -> Outcome {
    Step::At(0).tag(input, "WIFI CONNECTED").line_break(input).finish(Response::WifiConnected)
}

/// `WIFI DISCONNECT`
pub open spec fn wifi_disconnect(input: Seq<u8>) -> Outcome {
    Step::At(0).tag(input, "WIFI DISCONNECT").line_break(input).finish(Response::WifiDisconnect)
}

/// `WIFI GOT IP`
pub open spec fn got_ip(input: Seq<u8>) -> Outcome {
    Step::At(0).tag(input, "WIFI GOT IP").line_break(input).finish(Response::GotIp)
}

/// `+CWJAP:<code>`, an empty line and `FAIL`.
pub open spec fn wifi_connection_failure(input: Seq<u8>) -> Outcome {
    let code = Step::At(0).tag(input, "+CWJAP:");
    code.number(input, u8::MAX as int).line_break(input).line_break(input).tag(
        input,
        "FAIL",
    ).line_break(input).finish(
        Response::WifiConnectionFailure(
            WifiConnectionFailure::of_code(number_value(input, code.pos()) as u8),
        ),
    )
}

/// `AT version:<major>.<minor>.<patch>.<build>`, then anything up to the
/// first `OK`, which must stand on a line.
pub open spec fn firmware_info(input: Seq<u8>) -> Outcome {
    let major = Step::At(0).tag(input, "AT version:");
    let minor = major.number(input, u8::MAX as int).tag(input, ".");
    let patch = minor.number(input, u8::MAX as int).tag(input, ".");
    let build = patch.number(input, u8::MAX as int).tag(input, ".");
    build.number(input, u8::MAX as int).until_ok(input).ok_line(input).finish(
        Response::FirmwareInfo(
            FirmwareInfo {
                major: number_value(input, major.pos()) as u8,
                minor: number_value(input, minor.pos()) as u8,
                patch: number_value(input, patch.pos()) as u8,
                build: number_value(input, build.pos()) as u8,
            },
        ),
    )
}

impl Step {
    /// Where the second octet starts, in a dotted address that starts here.
    pub open spec fn second_octet(self, input: Seq<u8>) -> Step {
        self.number(input, u8::MAX as int).tag(input, ".")
    }

    /// Where the third octet starts, in a dotted address that starts here.
    pub open spec fn third_octet(self, input: Seq<u8>) -> Step {
        self.second_octet(input).number(input, u8::MAX as int).tag(input, ".")
    }

    /// Where the fourth octet starts, in a dotted address that starts here.
    pub open spec fn fourth_octet(self, input: Seq<u8>) -> Step {
        self.third_octet(input).number(input, u8::MAX as int).tag(input, ".")
    }

    /// Then an address in dotted decimal notation: four numbers of at most
    /// 255 with a dot between each two.
    #[verifier::opaque]
    pub open spec fn dotted(self, input: Seq<u8>) -> Step {
        self.fourth_octet(input).number(input, u8::MAX as int)
    }

    /// The dotted address that starts here.
    #[verifier::opaque]
    pub open spec fn address(self, input: Seq<u8>) -> Ipv4Addr {
        Ipv4Addr::of(
            number_value(input, self.pos()) as u8,
            number_value(input, self.second_octet(input).pos()) as u8,
            number_value(input, self.third_octet(input).pos()) as u8,
            number_value(input, self.fourth_octet(input).pos()) as u8,
        )
    }

    /// Then a dotted address, a closing quote and a line terminator.
    pub open spec fn quoted_address(self, input: Seq<u8>) -> Step {
        self.dotted(input).tag(input, "\"").line_break(input)
    }
}

/// The three lines `+CIPSTA_CUR:ip:"a.b.c.d"`, `+CIPSTA_CUR:gateway:"a.b.c.d"`
/// and `+CIPSTA_CUR:netmask:"a.b.c.d"`, an empty line and `OK`.
pub open spec fn ip_addresses(input: Seq<u8>) -> Outcome {
    let ip = Step::At(0).tag(input, "+CIPSTA_CUR:ip:\"");
    let gateway = ip.quoted_address(input).tag(input, "+CIPSTA_CUR:gateway:\"");
    let netmask = gateway.quoted_address(input).tag(input, "+CIPSTA_CUR:netmask:\"");
    netmask.quoted_address(input).line_break(input).ok_line(input).finish(
        Response::IpAddresses(
            IpAddresses {
                ip: ip.address(input),
                gateway: gateway.address(input),
                netmask: netmask.address(input),
            },
        ),
    )
}

/// `<link>,CONNECT` and `OK`, with a link number of at most 255.
pub open spec fn connect(input: Seq<u8>) -> Outcome {
    Step::At(0).number(input, u8::MAX as int).tag(input, ",CONNECT").line_break(input).ok_line(
        input,
    ).finish(Response::Connect(number_value(input, 0) as usize))
}

/// `<link>,CLOSED`, which an empty line may precede.
pub open spec fn closed(input: Seq<u8>) -> Outcome {
    let link = Step::At(0).optional_break(input);
    link.number(input, usize::MAX as int).tag(input, ",CLOSED").line_break(input).finish(
        Response::Closed(number_value(input, link.pos()) as usize),
    )
}

/// The prompt `> `, which no line terminator follows.
pub open spec fn ready_for_data(input: Seq<u8>) -> Outcome {
    Step::At(0).tag(input, "> ").finish(Response::ReadyForData)
}

/// An empty line, `Recv <len> bytes`, an empty line and `SEND OK`.
pub open spec fn send_ok(input: Seq<u8>) -> Outcome {
    let len = Step::At(0).line_break(input).tag(input, "Recv ");
    len.number(input, usize::MAX as int).tag(input, " bytes").line_break(input).line_break(
        input,
    ).tag(input, "SEND OK").line_break(input).finish(
        Response::SendOk(number_value(input, len.pos()) as usize),
    )
}

/// `+IPD,<link>,<len>`, which an empty line may precede.
pub open spec fn data_available(input: Seq<u8>) -> Outcome {
    let link = Step::At(0).optional_break(input).tag(input, "+IPD,");
    let len = link.number(input, usize::MAX as int).tag(input, ",");
    len.number(input, usize::MAX as int).line_break(input).finish(
        Response::DataAvailable {
            link_id: number_value(input, link.pos()) as usize,
            len: number_value(input, len.pos()) as usize,
        },
    )
}

/// `+CIPRECVDATA,<len>:`, then `len` bytes of data, a line terminator and
/// `OK`; which an empty line may precede. A length above the 128 bytes that
/// a response can carry is no match.
pub open spec fn data_received(input: Seq<u8>) -> Outcome {
    let len = Step::At(0).optional_break(input).tag(input, "+CIPRECVDATA,");
    let count = number_value(input, len.pos());
    let data = len.number(input, DATA_CAPACITY as int).tag(input, ":");
    data.take(input, count as int).line_break(input).ok_line(input).finish(
        Response::DataReceived(
            carrier_of(input.subrange(data.pos(), data.pos() + count), count),
            count as usize,
        ),
    )
}

/// The message at the front of the window: that of the first production, in
/// this order, that is not a mismatch.
#[verifier::opaque]
pub open spec fn message(input: Seq<u8>) -> Outcome {
    ok(input).or(error(input)).or(firmware_info(input)).or(wifi_connected(input)).or(
        wifi_disconnect(input),
    ).or(wifi_connection_failure(input)).or(got_ip(input)).or(ip_addresses(input)).or(
        connect(input),
    ).or(closed(input)).or(ready_for_data(input)).or(send_ok(input)).or(
        data_available(input),
    ).or(data_received(input))
}

} // verus!
