//! What the grammar promises of a window that grows.

use crate::buffer::{lemma_pushed_all_fits, pushed, pushed_all, CAPACITY};
use crate::grammar::{closed, connect, data_available, data_received, error, firmware_info};
use crate::grammar::{digits_end, find_at, literal_at, number_at, number_value, Outcome, Step};
use crate::grammar::{got_ip, ip_addresses, message, ok, ready_for_data, send_ok};
use crate::grammar::{wifi_connected, wifi_connection_failure, wifi_disconnect};
use crate::protocol::{Response, DATA_CAPACITY};
use vstd::prelude::*;
use vstd::string::StringSliceAdditionalSpecFns;

verus! {

/// A literal that was decided on a window is decided the same way on any
/// longer one, and where it matched it ends inside the window.
proof fn lemma_literal_extends(input: Seq<u8>, more: Seq<u8>, at: int, lit: Seq<u8>)
    requires
        0 <= at <= input.len(),
    ensures
        literal_at(input, at, lit) is Incomplete || literal_at(input + more, at, lit)
            == literal_at(input, at, lit),
        literal_at(input, at, lit) matches Step::At(end) ==> end == at + lit.len() && end
            <= input.len(),
{
    let longer = input + more;
    let have = input.len() - at;
    if have >= lit.len() {
        assert(longer.subrange(at, at + lit.len()) =~= input.subrange(at, at + lit.len()));
    } else if literal_at(input, at, lit) is NoMatch {
        let seen = input.subrange(at, input.len() as int);
        if longer.len() - at >= lit.len() {
            if longer.subrange(at, at + lit.len()) == lit {
                assert(seen =~= lit.subrange(0, have)) by {
                    assert forall|i: int| 0 <= i < have implies seen[i] == lit.subrange(
                        0,
                        have,
                    )[i] by {
                        assert(longer.subrange(at, at + lit.len())[i] == lit[i]);
                    }
                }
            }
        } else {
            let have_more = longer.len() - at;
            if longer.subrange(at, longer.len() as int) == lit.subrange(0, have_more) {
                assert(seen =~= lit.subrange(0, have)) by {
                    assert forall|i: int| 0 <= i < have implies seen[i] == lit.subrange(
                        0,
                        have,
                    )[i] by {
                        assert(longer.subrange(at, longer.len() as int)[i] == lit.subrange(
                            0,
                            have_more,
                        )[i]);
                    }
                }
            }
        }
    }
}

/// A run of digits that ends inside the window ends at the same place in
/// any longer one.
proof fn lemma_digits_extend(input: Seq<u8>, more: Seq<u8>, at: int)
    requires
        0 <= at <= input.len(),
    ensures
        at <= digits_end(input, at) <= input.len(),
        digits_end(input, at) < input.len() ==> digits_end(input + more, at) == digits_end(
            input,
            at,
        ),
    decreases input.len() - at,
{
    if at < input.len() && crate::num::is_digit(input[at]) {
        lemma_digits_extend(input, more, at + 1);
        assert((input + more)[at] == input[at]);
    } else if at < input.len() {
        assert((input + more)[at] == input[at]);
    }
}

/// A number that was decided on a window is decided the same way, and has
/// the same value, on any longer one.
proof fn lemma_number_extends(input: Seq<u8>, more: Seq<u8>, at: int, max: int)
    requires
        0 <= at <= input.len(),
    ensures
        number_at(input, at, max) is Incomplete || (number_at(input + more, at, max)
            == number_at(input, at, max) && number_value(input + more, at) == number_value(
            input,
            at,
        )),
        number_at(input, at, max) matches Step::At(end) ==> at < end < input.len(),
{
    lemma_digits_extend(input, more, at);
    let end = digits_end(input, at);
    if end < input.len() {
        assert((input + more).subrange(at, end) =~= input.subrange(at, end));
    }
}

/// A needle that was found in a window is found at the same place in any
/// longer one.
proof fn lemma_find_extends(input: Seq<u8>, more: Seq<u8>, at: int, needle: Seq<u8>)
    requires
        0 <= at <= input.len(),
    ensures
        find_at(input, at, needle) >= 0 ==> find_at(input + more, at, needle) == find_at(
            input,
            at,
            needle,
        ),
        find_at(input, at, needle) >= 0 ==> at <= find_at(input, at, needle) <= input.len(),
    decreases input.len() - at,
{
    if at >= input.len() || at + needle.len() > input.len() {
    } else {
        assert((input + more).subrange(at, at + needle.len()) =~= input.subrange(
            at,
            at + needle.len(),
        ));
        if input.subrange(at, at + needle.len()) != needle {
            lemma_find_extends(input, more, at + 1, needle);
        }
    }
}

/// A text that has a character has a byte.
proof fn lemma_text_has_bytes(lit: &str)
    requires
        lit@.len() > 0,
    ensures
        lit.spec_bytes().len() > 0,
{
    let chars = lit@;
    assert(vstd::utf8::encode_utf8(chars) == vstd::utf8::encode_scalar(chars[0] as u32)
        + vstd::utf8::encode_utf8(chars.drop_first()));
    assert(vstd::utf8::encode_scalar(chars[0] as u32).len() > 0);
}

/// Whether a step taken on a window stands for the step taken on a longer
/// one: it does unless the window was too short to decide.
pub open spec fn settles(short: Step, long: Step) -> bool {
    short is Incomplete || long == short
}

/// A text that was decided on a window is decided the same way on any
/// longer one; where it matched, it ends inside the window.
pub broadcast proof fn lemma_tag_settles(step: Step, input: Seq<u8>, more: Seq<u8>, lit: &str)
    requires
        step.within(input, 0),
    ensures
        settles(step.tag(input, lit), #[trigger] step.tag(input + more, lit)),
        step.tag(input, lit).within(input, step.pos() + lit.spec_bytes().len()),
{
    if let Step::At(pos) = step {
        lemma_literal_extends(input, more, pos, lit.spec_bytes());
    }
}

/// A number that was decided on a window is decided the same way on any
/// longer one; where it matched, it has the same value there, which is within
/// its bound, and it ends inside the window after at least one digit.
pub broadcast proof fn lemma_number_settles(step: Step, input: Seq<u8>, more: Seq<u8>, max: int)
    requires
        step.within(input, 0),
    ensures
        settles(step.number(input, max), #[trigger] step.number(input + more, max)),
        step.number(input, max).within(input, step.pos() + 1),
        step.number(input, max) is At ==> number_value(input + more, step.pos())
            == number_value(input, step.pos()) && number_value(input, step.pos()) <= max,
{
    if let Step::At(pos) = step {
        lemma_number_extends(input, more, pos, max);
    }
}

/// An `OK` that was found in a window is found at the same place in any
/// longer one.
pub broadcast proof fn lemma_until_ok_settles(step: Step, input: Seq<u8>, more: Seq<u8>)
    requires
        step.within(input, 0),
    ensures
        settles(step.until_ok(input), #[trigger] step.until_ok(input + more)),
        step.until_ok(input).within(input, step.pos()),
{
    if let Step::At(pos) = step {
        lemma_find_extends(input, more, pos, "OK".spec_bytes());
    }
}

/// Bytes that a window had enough of are taken the same way from any longer
/// one.
pub broadcast proof fn lemma_take_settles(step: Step, input: Seq<u8>, more: Seq<u8>, count: int)
    requires
        step.within(input, 0),
        count >= 0,
    ensures
        settles(step.take(input, count), #[trigger] step.take(input + more, count)),
        step.take(input, count).within(input, step.pos() + count),
{
}

/// A dotted address that was decided on a window is decided the same way,
/// and is the same address, on any longer one.
pub broadcast proof fn lemma_dotted_settles(step: Step, input: Seq<u8>, more: Seq<u8>)
    requires
        step.within(input, 0),
    ensures
        settles(step.dotted(input), #[trigger] step.dotted(input + more)),
        step.dotted(input).within(input, step.pos() + 1),
        step.dotted(input) is At ==> step.address(input + more) == step.address(input),
{
    broadcast use {lemma_tag_settles, lemma_number_settles};

    reveal(Step::dotted);
    reveal(Step::address);
}

/// A production that has failed stays failed at a dotted address.
pub broadcast proof fn lemma_dotted_after_failure(step: Step, input: Seq<u8>)
    requires
        !(step is At),
    ensures
        #[trigger] step.dotted(input) == step,
{
    reveal(Step::dotted);
}

pub broadcast group group_settles {
    lemma_dotted_after_failure,
    lemma_dotted_settles,
    lemma_tag_settles,
    lemma_number_settles,
    lemma_until_ok_settles,
    lemma_take_settles,
}

impl Outcome {
    /// Whether this outcome, reached on a window, stands for `long`, reached
    /// on a longer one: it does unless the window was too short to decide.
    pub open spec fn settles(self, long: Outcome) -> bool {
        self is Incomplete || long == self
    }

    /// Whether a message, if the outcome is one, takes up at least one byte
    /// and no more than the window `input` holds.
    pub open spec fn within(self, input: Seq<u8>) -> bool {
        self matches Outcome::Complete { consumed, .. } ==> 0 < consumed <= input.len()
    }
}

proof fn lemma_ok(input: Seq<u8>, more: Seq<u8>)
    ensures
        ok(input).settles(ok(input + more)),
        ok(input).within(input),
{
    broadcast use group_settles;

    reveal_strlit("OK");
    lemma_text_has_bytes("OK");
}

proof fn lemma_error(input: Seq<u8>, more: Seq<u8>)
    ensures
        error(input).settles(error(input + more)),
        error(input).within(input),
{
    broadcast use group_settles;

    reveal_strlit("ERROR");
    lemma_text_has_bytes("ERROR");
}

proof fn lemma_firmware_info(input: Seq<u8>, more: Seq<u8>)
    ensures
        firmware_info(input).settles(firmware_info(input + more)),
        firmware_info(input).within(input),
{
    broadcast use group_settles;

}

proof fn lemma_wifi_connected(input: Seq<u8>, more: Seq<u8>)
    ensures
        wifi_connected(input).settles(wifi_connected(input + more)),
        wifi_connected(input).within(input),
{
    broadcast use group_settles;

    reveal_strlit("\r\n");
    lemma_text_has_bytes("\r\n");
}

proof fn lemma_wifi_disconnect(input: Seq<u8>, more: Seq<u8>)
    ensures
        wifi_disconnect(input).settles(wifi_disconnect(input + more)),
        wifi_disconnect(input).within(input),
{
    broadcast use group_settles;

    reveal_strlit("\r\n");
    lemma_text_has_bytes("\r\n");
}

proof fn lemma_got_ip(input: Seq<u8>, more: Seq<u8>)
    ensures
        got_ip(input).settles(got_ip(input + more)),
        got_ip(input).within(input),
{
    broadcast use group_settles;

    reveal_strlit("\r\n");
    lemma_text_has_bytes("\r\n");
}

proof fn lemma_wifi_connection_failure(input: Seq<u8>, more: Seq<u8>)
    ensures
        wifi_connection_failure(input).settles(wifi_connection_failure(input + more)),
        wifi_connection_failure(input).within(input),
{
    broadcast use group_settles;

}

proof fn lemma_ip_addresses(input: Seq<u8>, more: Seq<u8>)
    ensures
        ip_addresses(input).settles(ip_addresses(input + more)),
        ip_addresses(input).within(input),
{
    let longer = input + more;
    let ip = Step::At(0).tag(input, "+CIPSTA_CUR:ip:\"");
    let ip_longer = Step::At(0).tag(longer, "+CIPSTA_CUR:ip:\"");
    let gateway = ip.quoted_address(input).tag(input, "+CIPSTA_CUR:gateway:\"");
    let gateway_longer = ip_longer.quoted_address(longer).tag(longer, "+CIPSTA_CUR:gateway:\"");
    let netmask = gateway.quoted_address(input).tag(input, "+CIPSTA_CUR:netmask:\"");
    let netmask_longer = gateway_longer.quoted_address(longer).tag(
        longer,
        "+CIPSTA_CUR:netmask:\"",
    );
    let last = netmask.quoted_address(input);
    let last_longer = netmask_longer.quoted_address(longer);
    assert(settles(ip, ip_longer) && ip.within(input, 0)) by {
        broadcast use group_settles;

    }
    assert(settles(gateway, gateway_longer) && gateway.within(input, 1) && (gateway is At
        ==> ip.address(longer) == ip.address(input))) by {
        broadcast use group_settles;

    }
    assert(settles(netmask, netmask_longer) && netmask.within(input, 1) && (netmask is At
        ==> gateway.address(longer) == gateway.address(input))) by {
        broadcast use group_settles;

    }
    assert(settles(last, last_longer) && last.within(input, 1) && (last is At ==> netmask.address(
        longer,
    ) == netmask.address(input))) by {
        broadcast use group_settles;

    }
    assert(settles(last.line_break(input).ok_line(input), last_longer.line_break(longer).ok_line(
        longer,
    )) && last.line_break(input).ok_line(input).within(input, 1)) by {
        broadcast use group_settles;

    }
    assert(gateway is At ==> ip is At) by {
        broadcast use group_settles;

    }
    assert(netmask is At ==> gateway is At) by {
        broadcast use group_settles;

    }
    assert(last is At ==> netmask is At) by {
        broadcast use group_settles;

    }
    assert(last.line_break(input).ok_line(input) is At ==> last is At);
}

proof fn lemma_connect(input: Seq<u8>, more: Seq<u8>)
    ensures
        connect(input).settles(connect(input + more)),
        connect(input).within(input),
{
    broadcast use group_settles;

}

proof fn lemma_closed(input: Seq<u8>, more: Seq<u8>)
    ensures
        closed(input).settles(closed(input + more)),
        closed(input).within(input),
{
    broadcast use group_settles;

}

proof fn lemma_ready_for_data(input: Seq<u8>, more: Seq<u8>)
    ensures
        ready_for_data(input).settles(ready_for_data(input + more)),
        ready_for_data(input).within(input),
{
    broadcast use group_settles;

    reveal_strlit("> ");
    lemma_text_has_bytes("> ");
}

proof fn lemma_send_ok(input: Seq<u8>, more: Seq<u8>)
    ensures
        send_ok(input).settles(send_ok(input + more)),
        send_ok(input).within(input),
{
    broadcast use group_settles;

}

proof fn lemma_data_available(input: Seq<u8>, more: Seq<u8>)
    ensures
        data_available(input).settles(data_available(input + more)),
        data_available(input).within(input),
{
    broadcast use group_settles;

}

proof fn lemma_data_received(input: Seq<u8>, more: Seq<u8>)
    ensures
        data_received(input).settles(data_received(input + more)),
        data_received(input).within(input),
        data_received(input) matches Outcome::Complete { response, .. } ==> response.well_formed(),
{
    broadcast use group_settles;

    let len = Step::At(0).optional_break(input).tag(input, "+CIPRECVDATA,");
    let count = number_value(input, len.pos());
    let data = len.number(input, DATA_CAPACITY as int).tag(input, ":");
    if data_received(input) is Complete {
        assert((input + more).subrange(data.pos(), data.pos() + count) =~= input.subrange(
            data.pos(),
            data.pos() + count,
        ));
    }
}

/// A message that a window starts with is the message that any longer window
/// starts with; it takes up at least one byte of the window and no more than
/// the window holds; and it is never the absence of a message.
pub proof fn lemma_message(input: Seq<u8>, more: Seq<u8>)
    ensures
        message(input).settles(message(input + more)),
        message(input).within(input),
        message(input) matches Outcome::Complete { response, .. } ==> response.well_formed()
            && response !is Nothing,
{
    reveal(message);
    lemma_ok(input, more);
    lemma_error(input, more);
    lemma_firmware_info(input, more);
    lemma_wifi_connected(input, more);
    lemma_wifi_disconnect(input, more);
    lemma_wifi_connection_failure(input, more);
    lemma_got_ip(input, more);
    lemma_ip_addresses(input, more);
    lemma_connect(input, more);
    lemma_closed(input, more);
    lemma_ready_for_data(input, more);
    lemma_send_ok(input, more);
    lemma_data_available(input, more);
    lemma_data_received(input, more);
}

/// The grammar never yields received data of more than 128 bytes.
pub proof fn lemma_data_cap(input: Seq<u8>)
    ensures
        message(input) matches Outcome::Complete { response: Response::DataReceived(_, len), .. }
            ==> len <= DATA_CAPACITY,
{
    lemma_message(input, Seq::empty());
}

/// The messages that a window holds, one after another from its front, up to
/// the first place where no whole message starts.
pub open spec fn frames(input: Seq<u8>) -> Seq<Response>
    decreases input.len(),
{
    match message(input) {
        Outcome::Complete { response, consumed } => if 0 < consumed <= input.len() {
            seq![response] + frames(input.skip(consumed))
        } else {
            Seq::empty()
        },
        _ => Seq::empty(),
    }
}

/// What is left of a window behind its messages.
pub open spec fn residue(input: Seq<u8>) -> Seq<u8>
    decreases input.len(),
{
    match message(input) {
        Outcome::Complete { response, consumed } => if 0 < consumed <= input.len() {
            residue(input.skip(consumed))
        } else {
            input
        },
        _ => input,
    }
}

/// The messages that come out when the bytes are offered to a buffer one at
/// a time and the buffer, which holds `pending` to begin with, is searched
/// for messages after each one.
pub open spec fn frames_bytewise(pending: Seq<u8>, bytes: Seq<u8>) -> Seq<Response>
    decreases bytes.len(),
{
    if bytes.len() == 0 {
        Seq::empty()
    } else {
        let window = pushed(pending, bytes[0]);
        frames(window) + frames_bytewise(residue(window), bytes.skip(1))
    }
}

/// What is left in the buffer when the bytes have been offered to it one at
/// a time.
pub open spec fn residue_bytewise(pending: Seq<u8>, bytes: Seq<u8>) -> Seq<u8>
    decreases bytes.len(),
{
    if bytes.len() == 0 {
        pending
    } else {
        residue_bytewise(residue(pushed(pending, bytes[0])), bytes.skip(1))
    }
}

/// What is left of a window behind its messages is no longer than the
/// window, and no message starts it.
pub proof fn lemma_residue_is_settled(input: Seq<u8>)
    ensures
        residue(input).len() <= input.len(),
        !(message(residue(input)) is Complete),
        frames(residue(input)) == Seq::<Response>::empty(),
        residue(residue(input)) == residue(input),
    decreases input.len(),
{
    lemma_message(input, Seq::empty());
    if let Outcome::Complete { response, consumed } = message(input) {
        lemma_residue_is_settled(input.skip(consumed));
    }
}

/// The messages of a window with more bytes behind it are the messages of
/// the window, and then those of what the window left with the new bytes
/// behind it.
pub proof fn lemma_frames_of_longer(input: Seq<u8>, more: Seq<u8>)
    ensures
        frames(input + more) == frames(input) + frames(residue(input) + more),
        residue(input + more) == residue(residue(input) + more),
    decreases input.len(),
{
    lemma_message(input, more);
    if let Outcome::Complete { response, consumed } = message(input) {
        let rest = input.skip(consumed);
        lemma_frames_of_longer(rest, more);
        assert((input + more).skip(consumed) =~= rest + more);
        assert(frames(input + more) =~= frames(input) + frames(residue(input) + more));
    }
}

/// Framing does not depend on how the bytes arrive. Of bytes that fit an
/// empty buffer, offering them one at a time and searching the buffer for
/// messages after each yields the messages, and leaves the bytes, that
/// offering them all and searching the buffer once yields and leaves.
pub proof fn lemma_framing_idempotence(bytes: Seq<u8>)
    requires
        bytes.len() <= CAPACITY,
    ensures
        frames_bytewise(Seq::empty(), bytes) == frames(pushed_all(Seq::empty(), bytes)),
        residue_bytewise(Seq::empty(), bytes) == residue(pushed_all(Seq::empty(), bytes)),
{
    lemma_message(Seq::empty(), Seq::empty());
    lemma_bytewise(Seq::empty(), bytes);
    lemma_pushed_all_fits(Seq::empty(), bytes);
}

/// The same of a buffer that holds bytes to begin with, none of which start
/// a message: the bytes that are offered one at a time yield and leave what
/// they yield and leave as one window behind those bytes.
pub proof fn lemma_bytewise(pending: Seq<u8>, bytes: Seq<u8>)
    requires
        !(message(pending) is Complete),
        pending.len() + bytes.len() <= CAPACITY,
    ensures
        frames_bytewise(pending, bytes) == frames(pending + bytes),
        residue_bytewise(pending, bytes) == residue(pending + bytes),
    decreases bytes.len(),
{
    if bytes.len() == 0 {
        assert(pending + bytes =~= pending);
    } else {
        let window = pending.push(bytes[0]);
        let rest = bytes.skip(1);
        lemma_residue_is_settled(window);
        lemma_bytewise(residue(window), rest);
        lemma_frames_of_longer(window, rest);
        assert(window + rest =~= pending + bytes);
    }
}

} // verus!
