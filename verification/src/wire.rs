//! The wire format, as mathematics: what each command looks like as text, and
//! what each text means as a command.
//!
//! Every command is one line that ends in a carriage return:
//!
//! ```text
//! S<digit>\r                          set the bitrate
//! O\r                                 open the port
//! C\r                                 close the port
//! t<3 hex id><1 hex dlc><2*dlc hex>\r send a standard data frame
//! T<8 hex id><1 hex dlc><2*dlc hex>\r send an extended data frame
//! r<3 hex id><1 hex dlc>\r            send a standard remote frame
//! R<8 hex id><1 hex dlc>\r            send an extended remote frame
//! ```
//!
//! Hexadecimal digits are written in upper case and read in either case. A
//! remote frame has no payload on the wire, whatever its length says.

use vstd::prelude::*;
use crate::bitrate::Bitrate;
use crate::error::{fail, ParseErrorKind, ParseErrorView};
use crate::frame::{zeros, FrameView, MAX_DLC};
use crate::hex::{
    all_hex, bytes_of_hex, hex_of_bytes, hex_run, hex_value, upper_hex, upper_hex_char,
};
use crate::id::IdView;

verus! {

/// What a command is.
pub enum CommandView {
    Setup(Bitrate),
    Open,
    Close,
    Transmit(FrameView),
}

impl CommandView {
    /// A command is well formed if the frame that it carries is.
    pub open spec fn wf(self) -> bool {
        self matches CommandView::Transmit(frame) ==> frame.wf()
    }
}

/// What the parser of one command yields: the command's value with the number
/// of characters that the command took, or the error.
pub type Parsed<T> = Result<(T, nat), ParseErrorView>;

/// The letter of a frame with the given identifier kind and frame kind.
pub open spec fn kind_char(extended: bool, remote: bool) -> char {
    if extended {
        if remote {
            'R'
        } else {
            'T'
        }
    } else {
        if remote {
            'r'
        } else {
            't'
        }
    }
}

/// Whether `c` is the letter of a frame.
pub open spec fn is_kind_char(c: char) -> bool {
    c == 't' || c == 'T' || c == 'r' || c == 'R'
}

/// How many digits the identifier takes: three if standard, eight if
/// extended.
pub open spec fn id_width(extended: bool) -> nat {
    if extended {
        8
    } else {
        3
    }
}

/// The identifier of the given kind with the given number.
pub open spec fn id_of(extended: bool, raw: nat) -> IdView {
    if extended {
        IdView::Extended(raw)
    } else {
        IdView::Standard(raw)
    }
}

/// Whether `c` is a decimal digit.
pub open spec fn is_dec_digit(c: char) -> bool {
    '0' <= c && c <= '9'
}

/// The value of a decimal digit.
pub open spec fn dec_digit_value(c: char) -> nat {
    (c as u8 - '0' as u8) as nat
}

/// The decimal digit for a value below ten.
pub open spec fn dec_digit_char(d: nat) -> char {
    ('0' as u8 + d) as char
}

/// `S`, the bitrate's code as one decimal digit, carriage return.
pub open spec fn setup_wire(bitrate: Bitrate) -> Seq<char> {
    seq!['S', dec_digit_char(bitrate.spec_code() as nat), '\r']
}

/// `O`, carriage return.
pub open spec fn open_wire() -> Seq<char> {
    seq!['O', '\r']
}

/// `C`, carriage return.
pub open spec fn close_wire() -> Seq<char> {
    seq!['C', '\r']
}

/// The frame's letter, its identifier in three or eight digits, its length in
/// one digit, two digits for each payload byte unless the frame is a remote
/// one, carriage return.
pub open spec fn transmit_wire(frame: FrameView) -> Seq<char> {
    let extended = frame.id is Extended;
    seq![kind_char(extended, frame.remote)] + upper_hex(frame.id.raw(), id_width(extended)) + seq![
        upper_hex_char(frame.dlc),
    ] + (if frame.remote {
        Seq::empty()
    } else {
        hex_of_bytes(frame.payload)
    }) + seq!['\r']
}

/// The text of a command.
pub open spec fn command_wire(command: CommandView) -> Seq<char> {
    match command {
        CommandView::Setup(bitrate) => setup_wire(bitrate),
        CommandView::Open => open_wire(),
        CommandView::Close => close_wire(),
        CommandView::Transmit(frame) => transmit_wire(frame),
    }
}

/// How many decimal digits stand at the front of `s`.
pub open spec fn digit_run(s: Seq<char>) -> nat
    decreases s.len(),
{
    if s.len() > 0 && is_dec_digit(s[0]) {
        1 + digit_run(s.drop_first())
    } else {
        0
    }
}

/// The bitrate that a run of decimal digits names: the run must be a single
/// digit from 0 to 8.
pub open spec fn bitrate_of_digits(digits: Seq<char>) -> Option<Bitrate> {
    if digits.len() == 1 {
        Bitrate::spec_from_code(dec_digit_value(digits[0]) as int)
    } else {
        None
    }
}

/// What is wrong if the character at `at` is to be `c`: nothing, or that the
/// input ends there, or that another character stands there.
pub open spec fn expect_char(s: Seq<char>, at: nat, c: char) -> Option<ParseErrorView> {
    if s.len() <= at {
        Some(fail(ParseErrorKind::Eof, at))
    } else if s[at as int] != c {
        Some(fail(ParseErrorKind::Tag, at))
    } else {
        None
    }
}

/// Reads a setup command at the front of `s`: `S`, one or more decimal
/// digits, carriage return, where the digits name a bitrate.
pub open spec fn parse_setup(s: Seq<char>) -> Parsed<Bitrate> {
    let digits = digit_run(s.skip(1));
    if let Some(e) = expect_char(s, 0, 'S') {
        Err(e)
    } else if s.len() == 1 {
        Err(fail(ParseErrorKind::Eof, 1))
    } else if digits == 0 {
        Err(fail(ParseErrorKind::Digit, 1))
    } else if let Some(e) = expect_char(s, 1 + digits, '\r') {
        Err(e)
    } else {
        match bitrate_of_digits(s.subrange(1, (1 + digits) as int)) {
            Some(bitrate) => Ok((bitrate, 2 + digits)),
            None => Err(fail(ParseErrorKind::Bitrate, 1)),
        }
    }
}

/// Reads the two characters `letter`, carriage return at the front of `s`.
pub open spec fn parse_letter(s: Seq<char>, letter: char) -> Parsed<()> {
    if let Some(e) = expect_char(s, 0, letter) {
        Err(e)
    } else if let Some(e) = expect_char(s, 1, '\r') {
        Err(e)
    } else {
        Ok(((), 2))
    }
}

/// Reads an open command at the front of `s`.
pub open spec fn parse_open(s: Seq<char>) -> Parsed<()> {
    parse_letter(s, 'O')
}

/// Reads a close command at the front of `s`.
pub open spec fn parse_close(s: Seq<char>) -> Parsed<()> {
    parse_letter(s, 'C')
}

/// Reads the `width` characters at `at`, which are to be hexadecimal digits.
pub open spec fn parse_hex_digits(s: Seq<char>, at: nat, width: nat) -> Result<
    Seq<char>,
    ParseErrorView,
> {
    let field = s.subrange(at as int, (at + width) as int);
    if s.len() < at + width {
        Err(fail(ParseErrorKind::Eof, at))
    } else if !all_hex(field) {
        Err(fail(ParseErrorKind::HexDigit, at + hex_run(field)))
    } else {
        Ok(field)
    }
}

/// Reads the number that `width` hexadecimal digits at `at` denote.
pub open spec fn parse_hex_field(s: Seq<char>, at: nat, width: nat) -> Result<nat, ParseErrorView> {
    match parse_hex_digits(s, at, width) {
        Err(e) => Err(e),
        Ok(digits) => Ok(hex_value(digits)),
    }
}

/// Reads the identifier of a frame: three or eight hexadecimal digits after
/// the letter, whose number fits the identifier's kind.
pub open spec fn parse_id(s: Seq<char>, extended: bool) -> Result<IdView, ParseErrorView> {
    match parse_hex_field(s, 1, id_width(extended)) {
        Err(e) => Err(e),
        Ok(raw) => if id_of(extended, raw).wf() {
            Ok(id_of(extended, raw))
        } else {
            Err(fail(ParseErrorKind::Identifier, 1))
        },
    }
}

/// Reads the declared length of a frame: one hexadecimal digit at `at`, from
/// 0 to 8.
pub open spec fn parse_dlc(s: Seq<char>, at: nat) -> Result<nat, ParseErrorView> {
    match parse_hex_field(s, at, 1) {
        Err(e) => Err(e),
        Ok(dlc) => if dlc <= MAX_DLC {
            Ok(dlc)
        } else {
            Err(fail(ParseErrorKind::Length, at))
        },
    }
}

/// Reads the payload of a frame at `at`: two hexadecimal digits for each of
/// the `dlc` bytes of a data frame, and nothing for a remote frame, whose
/// payload is `dlc` zero bytes. Gives the payload with the number of
/// characters that it took.
pub open spec fn parse_payload(s: Seq<char>, at: nat, remote: bool, dlc: nat) -> Parsed<Seq<u8>> {
    if remote {
        Ok((zeros(dlc), 0))
    } else {
        match parse_hex_digits(s, at, 2 * dlc) {
            Err(e) => Err(e),
            Ok(digits) => Ok((bytes_of_hex(digits), 2 * dlc)),
        }
    }
}

/// Reads a transmit command at the front of `s`: the frame's letter, its
/// identifier, its declared length, its payload, carriage return.
pub open spec fn parse_transmit(s: Seq<char>) -> Parsed<FrameView> {
    if s.len() == 0 {
        Err(fail(ParseErrorKind::Eof, 0))
    } else if !is_kind_char(s[0]) {
        Err(fail(ParseErrorKind::Kind, 0))
    } else {
        let extended = s[0] == 'T' || s[0] == 'R';
        let remote = s[0] == 'r' || s[0] == 'R';
        let dlc_at = 1 + id_width(extended);
        let data_at = dlc_at + 1;
        match parse_id(s, extended) {
            Err(e) => Err(e),
            Ok(id) => match parse_dlc(s, dlc_at) {
                Err(e) => Err(e),
                Ok(dlc) => match parse_payload(s, data_at, remote, dlc) {
                    Err(e) => Err(e),
                    Ok((payload, taken)) => match expect_char(s, data_at + taken, '\r') {
                        Some(e) => Err(e),
                        None => Ok((FrameView { id, remote, dlc, payload }, data_at + taken + 1)),
                    },
                },
            },
        }
    }
}

/// Reads a command at the front of `s`. The four commands are tried in the
/// order setup, open, close, transmit. The first that can be read is the
/// result. An error after which no other command is tried ends the search and
/// is the result; otherwise the error is that of the transmit command, the
/// last one tried.
pub open spec fn parse_command(s: Seq<char>) -> Parsed<CommandView> {
    match parse_setup(s) {
        Ok((bitrate, taken)) => Ok((CommandView::Setup(bitrate), taken)),
        Err(e) => if e.kind.spec_is_fatal() {
            Err(e)
        } else {
            match parse_open(s) {
                Ok((_, taken)) => Ok((CommandView::Open, taken)),
                Err(_) => match parse_close(s) {
                    Ok((_, taken)) => Ok((CommandView::Close, taken)),
                    Err(_) => match parse_transmit(s) {
                        Ok((frame, taken)) => Ok((CommandView::Transmit(frame), taken)),
                        Err(e) => Err(e),
                    },
                },
            }
        },
    }
}

} // verus!
