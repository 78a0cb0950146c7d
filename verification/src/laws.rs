//! What writing and reading have to do with each other: a command that was
//! written reads back as itself, and reading stops where the command ends.

use vstd::prelude::*;
use crate::bitrate::Bitrate;
use crate::command::{Command, Transmit};
use crate::error::ParseErrorView;
use crate::frame::{Frame, FrameView};
use crate::hex::{
    hex_of_bytes, hex_value, lemma_bytes_of_hex_of_bytes, lemma_hex_of_bytes_of_hex,
    lemma_hex_value_of_upper_hex, lemma_pow16_values, lemma_upper_hex_of_hex_value,
    lemma_upper_hex_shape, upper_case, upper_hex, upper_hex_char,
};
use crate::wire::{
    close_wire, command_wire, digit_run, id_width, open_wire, parse_close, parse_command,
    parse_open, parse_payload, parse_setup, parse_transmit, setup_wire, transmit_wire,
    CommandView,
};

verus! {

/// A setup command that was written reads back as the same bitrate, whatever
/// follows it, and reading takes exactly what was written.
pub proof fn lemma_setup_round_trip(bitrate: Bitrate, tail: Seq<char>)
    ensures
        parse_setup(setup_wire(bitrate) + tail) matches Ok((read, taken)) && read == bitrate
            && taken == setup_wire(bitrate).len(),
        setup_wire(bitrate).len() == 3,
{
    assert(digit_run((setup_wire(bitrate) + tail).skip(1)) == 1) by {
        reveal_with_fuel(digit_run, 2);
    }
}

/// An open command that was written reads back, whatever follows it.
pub proof fn lemma_open_round_trip(tail: Seq<char>)
    ensures
        parse_open(open_wire() + tail) matches Ok((_, taken)) && taken == open_wire().len(),
        open_wire().len() == 2,
{
}

/// A close command that was written reads back, whatever follows it.
pub proof fn lemma_close_round_trip(tail: Seq<char>)
    ensures
        parse_close(close_wire() + tail) matches Ok((_, taken)) && taken == close_wire().len(),
        close_wire().len() == 2,
{
}

/// How long a written frame is: letter, identifier, length digit, payload
/// digits, carriage return.
pub proof fn lemma_transmit_wire_len(frame: FrameView)
    requires
        frame.wf(),
    ensures
        transmit_wire(frame).len() == 1 + id_width(frame.id is Extended) + 1 + (if frame.remote {
            0
        } else {
            2 * frame.dlc
        }) + 1,
{
    lemma_upper_hex_shape(frame.id.raw(), id_width(frame.id is Extended));
}

/// A frame that was written reads back as the same frame, whatever follows
/// it, and reading takes exactly what was written.
pub proof fn lemma_transmit_round_trip(frame: FrameView, tail: Seq<char>)
    requires
        frame.wf(),
    ensures
        parse_transmit(transmit_wire(frame) + tail) matches Ok((read, taken)) && read == frame
            && taken == transmit_wire(frame).len(),
{
    let extended = frame.id is Extended;
    let width = id_width(extended);
    let digits = upper_hex(frame.id.raw(), width);
    let payload = if frame.remote {
        Seq::<char>::empty()
    } else {
        hex_of_bytes(frame.payload)
    };
    let s = transmit_wire(frame) + tail;
    let dlc_at: int = 1 + width as int;
    let data_at: int = dlc_at + 1;

    lemma_upper_hex_shape(frame.id.raw(), width);
    lemma_bytes_of_hex_of_bytes(frame.payload);
    lemma_pow16_values();
    lemma_hex_value_of_upper_hex(frame.id.raw(), width);

    assert(s.subrange(1, dlc_at) =~= digits);

    let length = s.subrange(dlc_at, dlc_at + 1);
    assert(hex_value(length) == frame.dlc) by {
        reveal_with_fuel(hex_value, 2);
    }

    assert(s.subrange(data_at, data_at + payload.len()) =~= payload);
    assert(parse_payload(s, data_at as nat, frame.remote, frame.dlc) == Ok::<_, ParseErrorView>(
        (frame.payload, payload.len()),
    ));
}

/// A command that was written reads back as the same command, whatever
/// follows it, and reading takes exactly what was written.
pub proof fn lemma_command_round_trip(command: CommandView, tail: Seq<char>)
    requires
        command.wf(),
    ensures
        parse_command(command_wire(command) + tail) matches Ok((read, taken)) && read == command
            && taken == command_wire(command).len(),
{
    match command {
        CommandView::Setup(bitrate) => lemma_setup_round_trip(bitrate, tail),
        CommandView::Transmit(frame) => lemma_transmit_round_trip(frame, tail),
        _ => {},
    }
}

/// A written command, with nothing behind it, reads back as itself and
/// leaves nothing.
pub proof fn lemma_command_reads_back_whole(command: CommandView)
    requires
        command.wf(),
    ensures
        parse_command(command_wire(command)) matches Ok((read, taken)) && read == command
            && command_wire(command).skip(taken as int) == Seq::<char>::empty(),
{
    lemma_command_round_trip(command, Seq::empty());
}

/// Whatever transmit command is read from the text of `written` is
/// `written` itself.
pub proof fn lemma_transmit_reads_back(written: Transmit, read: Transmit)
    requires
        written.spec_frame().wf(),
        read.spec_frame().wf(),
        parse_transmit(transmit_wire(written@)) matches Ok((frame, _)) && read@ == frame,
    ensures
        read == written,
{
    written.lemma_view();
    read.lemma_view();
    written.spec_frame().lemma_view_wf();
    lemma_transmit_round_trip(written@, Seq::empty());
    Frame::lemma_view_injective(written.spec_frame(), read.spec_frame());
    Transmit::lemma_frame_injective(written, read);
}

/// Only a written setup command reads as one: the text that was taken is
/// the text of the bitrate that was read.
pub proof fn lemma_parse_setup_sound(s: Seq<char>)
    requires
        parse_setup(s) is Ok,
    ensures
        ({
            let (bitrate, taken) = parse_setup(s)->Ok_0;
            &&& taken == 3
            &&& taken <= s.len()
            &&& s.take(3) == setup_wire(bitrate)
        }),
{
}

/// Only a written frame reads as one: the frame that was read is well
/// formed, and the text that was taken is the text of that frame, but for
/// the case of its hexadecimal letters.
pub proof fn lemma_parse_transmit_sound(s: Seq<char>)
    requires
        parse_transmit(s) is Ok,
    ensures
        ({
            let (frame, taken) = parse_transmit(s)->Ok_0;
            &&& frame.wf()
            &&& taken <= s.len()
            &&& upper_case(s.take(taken as int)) == transmit_wire(frame)
        }),
{
    let (frame, taken) = parse_transmit(s)->Ok_0;
    let extended = s[0] == 'T' || s[0] == 'R';
    let width = id_width(extended);
    let dlc_at: int = 1 + width as int;
    let data_at: int = dlc_at + 1;
    let id_field = s.subrange(1, dlc_at);
    let dlc_field = s.subrange(dlc_at, dlc_at + 1);
    let count: int = if frame.remote {
        0
    } else {
        2 * frame.dlc as int
    };
    let data_field = s.subrange(data_at, data_at + count);

    lemma_upper_hex_of_hex_value(id_field);
    assert(upper_hex(frame.dlc, 1) =~= seq![upper_hex_char(frame.dlc)]) by {
        reveal_with_fuel(upper_hex, 2);
        reveal_with_fuel(hex_value, 2);
    }
    if !frame.remote {
        lemma_hex_of_bytes_of_hex(data_field);
    }

    assert(upper_case(s.take(taken as int)) =~= seq![s[0]] + upper_case(id_field) + upper_case(
        dlc_field,
    ) + upper_case(data_field) + seq!['\r']);
}

/// Only a written command reads as one: the command that was read is well
/// formed, and the text that was taken is the text of that command, but for
/// the case of its hexadecimal letters.
pub proof fn lemma_parse_command_sound(s: Seq<char>)
    requires
        parse_command(s) is Ok,
    ensures
        ({
            let (command, taken) = parse_command(s)->Ok_0;
            &&& command.wf()
            &&& taken <= s.len()
            &&& upper_case(s.take(taken as int)) == command_wire(command)
        }),
{
    if parse_command(s)->Ok_0.0 is Transmit {
        lemma_parse_transmit_sound(s);
    }
}

/// Whatever command is read from the text of `written` is `written`
/// itself.
pub proof fn lemma_command_reads_back(written: Command, read: Command)
    requires
        written.wf(),
        read.wf(),
        parse_command(command_wire(written@)) matches Ok((command, _)) && read@ == command,
    ensures
        read == written,
{
    written.lemma_view_wf();
    lemma_command_reads_back_whole(written@);
    Command::lemma_view_injective(written, read);
}

} // verus!
