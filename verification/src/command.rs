//! The four adapter commands, each with the text it is written as and the
//! parser that reads it back.

use vstd::prelude::*;
use vstd::string::StringExecFns;
use crate::bitrate::Bitrate;
use crate::error::{fail, ParseError, ParseErrorKind};
use crate::frame::{Frame, FrameView};
use crate::hex::{
    hex_digit, hex_value, lemma_hex_value_bound, lemma_pow16_values, parse_hex, parse_hex_bytes,
    push_hex_bytes, push_upper_hex, upper_hex_digit,
};
use crate::id::{ExtendedId, Id, StandardId};
use crate::text::Text;
use crate::wire::{
    close_wire, command_wire, digit_run, expect_char, is_dec_digit, open_wire, parse_close,
    parse_command, parse_letter, parse_open, parse_setup, parse_transmit, setup_wire,
    transmit_wire, CommandView,
};

verus! {

/// The error of kind `kind` at `position`.
fn error_at(kind: ParseErrorKind, position: usize) -> (e: ParseError)
    ensures
        e@ == fail(kind, position as nat),
{
    ParseError { kind, position }
}

/// Tells whether the character of `text` at `at` is `c`, and if not, what
/// stands in the way.
fn expect(text: &Text, at: usize, c: char) -> (r: Result<(), ParseError>)
    requires
        at <= text@.len(),
    ensures
        match r {
            Ok(_) => expect_char(text@, at as nat, c) is None,
            Err(e) => expect_char(text@, at as nat, c) == Some(e@),
        },
{
    if at >= text.len() {
        Err(error_at(ParseErrorKind::Eof, at))
    } else if text.char_at(at) != c {
        Err(error_at(ParseErrorKind::Tag, at))
    } else {
        Ok(())
    }
}

/// All decimal digits at the front of `s` are counted by `digit_run`.
proof fn lemma_digit_run(s: Seq<char>, n: nat)
    requires
        n <= s.len(),
        forall|k: int| 0 <= k < n ==> is_dec_digit(#[trigger] s[k]),
        n == s.len() || !is_dec_digit(s[n as int]),
    ensures
        digit_run(s) == n,
    decreases n,
{
    if n > 0 {
        let rest = s.drop_first();
        assert forall|k: int| 0 <= k < n - 1 implies is_dec_digit(#[trigger] rest[k]) by {
            assert(rest[k] == s[k + 1]);
        }
        lemma_digit_run(rest, (n - 1) as nat);
    }
}

/// Setup port command.
#[derive(Debug, PartialEq, Eq, Copy, Clone)]
pub struct Setup {
    pub bitrate: Bitrate,
}

impl Setup {
    /// The command that sets the adapter to `bitrate`.
    pub fn new(bitrate: Bitrate) -> (r: Self)
        ensures
            r.bitrate == bitrate,
    {
        Self { bitrate }
    }

    /// Try parsing a [`Setup`] command from a string. On success the result
    /// holds the input behind the command.
    pub fn try_parse(input: &str) -> (r: Result<(&str, Self), ParseError>)
        ensures
            match r {
                Ok((rest, setup)) => {
                    &&& parse_setup(input@) matches Ok((bitrate, taken))
                    &&& setup.bitrate == bitrate
                    &&& taken <= input@.len()
                    &&& rest@ == input@.skip(taken as int)
                },
                Err(e) => parse_setup(input@) matches Err(error) && error == e@,
            },
    {
        Self::parse_text(&Text::new(input))
    }

    /// [`Setup::try_parse`] on a text that is ready to be read by index.
    fn parse_text<'a>(text: &Text<'a>) -> (r: Result<(&'a str, Self), ParseError>)
        ensures
            match r {
                Ok((rest, setup)) => {
                    &&& parse_setup(text@) matches Ok((bitrate, taken))
                    &&& setup.bitrate == bitrate
                    &&& taken <= text@.len()
                    &&& rest@ == text@.skip(taken as int)
                },
                Err(e) => parse_setup(text@) matches Err(error) && error == e@,
            },
    {
        let len = text.len();
        if let Err(e) = expect(text, 0, 'S') {
            return Err(e);
        }
        if len == 1 {
            return Err(error_at(ParseErrorKind::Eof, 1));
        }
        let mut end: usize = 1;
        while end < len && is_decimal(text.char_at(end))
            invariant
                len == text@.len(),
                1 <= end <= len,
                forall|k: int| 1 <= k < end ==> is_dec_digit(#[trigger] text@[k]),
            decreases len - end,
        {
            end += 1;
        }
        proof {
            let after = text@.skip(1);
            assert forall|k: int| 0 <= k < end - 1 implies is_dec_digit(#[trigger] after[k]) by {
                assert(after[k] == text@[k + 1]);
            }
            lemma_digit_run(after, (end - 1) as nat);
        }
        if end == 1 {
            return Err(error_at(ParseErrorKind::Digit, 1));
        }
        if let Err(e) = expect(text, end, '\r') {
            return Err(e);
        }
        if end != 2 {
            return Err(error_at(ParseErrorKind::Bitrate, 1));
        }
        let code = text.char_at(1) as u8 - 0x30;
        match Bitrate::from_code(code) {
            Some(bitrate) => Ok((text.rest(3), Self { bitrate })),
            None => Err(error_at(ParseErrorKind::Bitrate, 1)),
        }
    }

    /// The command as the adapter reads it.
    pub fn format(&self) -> (r: String)
        ensures
            r@ == setup_wire(self.bitrate),
    {
        proof {
            reveal_strlit("S");
            reveal_strlit("\r");
        }
        let mut out = String::new();
        out.append("S");
        out.append(upper_hex_digit(self.bitrate.code()));
        out.append("\r");
        out
    }
}

/// Whether `c` is a decimal digit.
fn is_decimal(c: char) -> (r: bool)
    ensures
        r == is_dec_digit(c),
{
    '0' <= c && c <= '9'
}

/// Reads `letter` and a carriage return at the front of `text`, and hands
/// out the text behind them.
fn parse_letter_text<'a>(text: &Text<'a>, letter: char) -> (r: Result<&'a str, ParseError>)
    ensures
        match r {
            Ok(rest) => {
                &&& parse_letter(text@, letter) matches Ok((_, taken))
                &&& taken <= text@.len()
                &&& rest@ == text@.skip(taken as int)
            },
            Err(e) => parse_letter(text@, letter) matches Err(error) && error == e@,
        },
{
    if let Err(e) = expect(text, 0, letter) {
        return Err(e);
    }
    if let Err(e) = expect(text, 1, '\r') {
        return Err(e);
    }
    Ok(text.rest(2))
}

/// Open port command.
#[derive(Debug, PartialEq, Eq, Copy, Clone)]
pub struct Open {}

impl Open {
    /// The command. It has no parameters.
    pub fn new() -> (r: Self)
        ensures
            r == (Open {}),
    {
        Open {}
    }

    /// Try parsing an [`Open`] command from a string. On success the result
    /// holds the input behind the command.
    pub fn try_parse(input: &str) -> (r: Result<(&str, Self), ParseError>)
        ensures
            match r {
                Ok((rest, open)) => {
                    &&& parse_open(input@) matches Ok((_, taken))
                    &&& taken <= input@.len()
                    &&& rest@ == input@.skip(taken as int)
                },
                Err(e) => parse_open(input@) matches Err(error) && error == e@,
            },
    {
        Self::parse_text(&Text::new(input))
    }

    /// [`Open::try_parse`] on a text that is ready to be read by index.
    fn parse_text<'a>(text: &Text<'a>) -> (r: Result<(&'a str, Self), ParseError>)
        ensures
            match r {
                Ok((rest, open)) => {
                    &&& parse_open(text@) matches Ok((_, taken))
                    &&& taken <= text@.len()
                    &&& rest@ == text@.skip(taken as int)
                },
                Err(e) => parse_open(text@) matches Err(error) && error == e@,
            },
    {
        match parse_letter_text(text, 'O') {
            Ok(rest) => Ok((rest, Open {})),
            Err(e) => Err(e),
        }
    }

    /// The command as the adapter reads it.
    pub fn format(&self) -> (r: String)
        ensures
            r@ == open_wire(),
    {
        proof {
            reveal_strlit("O\r");
        }
        let mut out = String::new();
        out.append("O\r");
        out
    }
}

/// Close port command.
#[derive(Debug, PartialEq, Eq, Copy, Clone)]
pub struct Close {}

impl Close {
    /// The command. It has no parameters.
    pub fn new() -> (r: Self)
        ensures
            r == (Close {}),
    {
        Close {}
    }

    /// Try parsing a [`Close`] command from a string. On success the result
    /// holds the input behind the command.
    pub fn try_parse(input: &str) -> (r: Result<(&str, Self), ParseError>)
        ensures
            match r {
                Ok((rest, close)) => {
                    &&& parse_close(input@) matches Ok((_, taken))
                    &&& taken <= input@.len()
                    &&& rest@ == input@.skip(taken as int)
                },
                Err(e) => parse_close(input@) matches Err(error) && error == e@,
            },
    {
        Self::parse_text(&Text::new(input))
    }

    /// [`Close::try_parse`] on a text that is ready to be read by index.
    fn parse_text<'a>(text: &Text<'a>) -> (r: Result<(&'a str, Self), ParseError>)
        ensures
            match r {
                Ok((rest, close)) => {
                    &&& parse_close(text@) matches Ok((_, taken))
                    &&& taken <= text@.len()
                    &&& rest@ == text@.skip(taken as int)
                },
                Err(e) => parse_close(text@) matches Err(error) && error == e@,
            },
    {
        match parse_letter_text(text, 'C') {
            Ok(rest) => Ok((rest, Close {})),
            Err(e) => Err(e),
        }
    }

    /// The command as the adapter reads it.
    pub fn format(&self) -> (r: String)
        ensures
            r@ == close_wire(),
    {
        proof {
            reveal_strlit("C\r");
        }
        let mut out = String::new();
        out.append("C\r");
        out
    }
}

/// Transmit frame command.
#[derive(Debug, PartialEq, Eq, Copy, Clone)]
pub struct Transmit {
    frame: Frame,
}

impl View for Transmit {
    type V = FrameView;

    closed spec fn view(&self) -> FrameView {
        self.frame@
    }
}

impl Transmit {
    /// The frame that the command sends.
    pub closed spec fn spec_frame(&self) -> Frame {
        self.frame
    }

    /// The command's view is that of its frame.
    pub proof fn lemma_view(&self)
        ensures
            self@ == self.spec_frame()@,
    {
    }

    /// Two commands that send the same frame are the same command.
    pub proof fn lemma_frame_injective(a: Self, b: Self)
        requires
            a.spec_frame() == b.spec_frame(),
        ensures
            a == b,
    {
    }

    /// The command that sends `frame`.
    pub fn new(frame: &Frame) -> (r: Self)
        ensures
            r.spec_frame() == *frame,
            r@ == frame@,
    {
        Self { frame: *frame }
    }

    /// The frame that the command sends.
    pub fn frame(&self) -> (r: &Frame)
        ensures
            *r == self.spec_frame(),
            r@ == self@,
            r.wf(),
    {
        proof {
            use_type_invariant(&self.frame);
        }
        &self.frame
    }

    /// Try parsing a [`Transmit`] command from a string. On success the
    /// result holds the input behind the command.
    pub fn try_parse(input: &str) -> (r: Result<(&str, Self), ParseError>)
        ensures
            match r {
                Ok((rest, transmit)) => {
                    &&& parse_transmit(input@) matches Ok((frame, taken))
                    &&& transmit@ == frame
                    &&& transmit.spec_frame().wf()
                    &&& taken <= input@.len()
                    &&& rest@ == input@.skip(taken as int)
                },
                Err(e) => parse_transmit(input@) matches Err(error) && error == e@,
            },
    {
        Self::parse_text(&Text::new(input))
    }

    /// [`Transmit::try_parse`] on a text that is ready to be read by index.
    fn parse_text<'a>(text: &Text<'a>) -> (r: Result<(&'a str, Self), ParseError>)
        ensures
            match r {
                Ok((rest, transmit)) => {
                    &&& parse_transmit(text@) matches Ok((frame, taken))
                    &&& transmit@ == frame
                    &&& transmit.spec_frame().wf()
                    &&& taken <= text@.len()
                    &&& rest@ == text@.skip(taken as int)
                },
                Err(e) => parse_transmit(text@) matches Err(error) && error == e@,
            },
    {
        let len = text.len();
        if len == 0 {
            return Err(error_at(ParseErrorKind::Eof, 0));
        }
        let (extended, remote) = match text.char_at(0) {
            't' => (false, false),
            'T' => (true, false),
            'r' => (false, true),
            'R' => (true, true),
            _ => {
                return Err(error_at(ParseErrorKind::Kind, 0));
            },
        };
        let width: usize = if extended {
            8
        } else {
            3
        };
        if len - 1 < width {
            return Err(error_at(ParseErrorKind::Eof, 1));
        }
        let raw = match parse_hex(text, 1, width) {
            Ok(raw) => raw,
            Err(digits) => {
                return Err(error_at(ParseErrorKind::HexDigit, 1 + digits));
            },
        };
        let id = if extended {
            match ExtendedId::new(raw) {
                Some(id) => Id::Extended(id),
                None => {
                    return Err(error_at(ParseErrorKind::Identifier, 1));
                },
            }
        } else {
            proof {
                lemma_hex_value_bound(text@.subrange(1, 4));
                lemma_pow16_values();
            }
            match StandardId::new(raw as u16) {
                Some(id) => Id::Standard(id),
                None => {
                    return Err(error_at(ParseErrorKind::Identifier, 1));
                },
            }
        };
        let dlc_at = 1 + width;
        if len <= dlc_at {
            return Err(error_at(ParseErrorKind::Eof, dlc_at));
        }
        proof {
            reveal_with_fuel(hex_value, 2);
            assert(text@.subrange(dlc_at as int, dlc_at + 1)[0] == text@[dlc_at as int]);
        }
        let dlc = match hex_digit(text.char_at(dlc_at)) {
            Some(dlc) => dlc as usize,
            None => {
                return Err(error_at(ParseErrorKind::HexDigit, dlc_at));
            },
        };
        if dlc > 8 {
            return Err(error_at(ParseErrorKind::Length, dlc_at));
        }
        let data_at = dlc_at + 1;
        let mut end = data_at;
        let frame = if remote {
            Frame::new_remote(id, dlc).unwrap()
        } else {
            if len - data_at < 2 * dlc {
                return Err(error_at(ParseErrorKind::Eof, data_at));
            }
            let bytes = match parse_hex_bytes(text, data_at, dlc) {
                Ok(bytes) => bytes,
                Err(digits) => {
                    return Err(error_at(ParseErrorKind::HexDigit, data_at + digits));
                },
            };
            end = data_at + 2 * dlc;
            Frame::new(id, vstd::slice::slice_subrange(bytes.as_slice(), 0, dlc)).unwrap()
        };
        if let Err(e) = expect(text, end, '\r') {
            return Err(e);
        }
        Ok((text.rest(end + 1), Self { frame }))
    }

    /// The command as the adapter reads it.
    pub fn format(&self) -> (r: String)
        ensures
            r@ == transmit_wire(self@),
    {
        proof {
            reveal_strlit("t");
            reveal_strlit("T");
            reveal_strlit("r");
            reveal_strlit("R");
            reveal_strlit("\r");
        }
        let frame = &self.frame;
        let extended = frame.is_extended();
        let letter = match (extended, frame.is_remote_frame()) {
            (false, false) => "t",
            (true, false) => "T",
            (true, true) => "R",
            (false, true) => "r",
        };
        let mut out = String::new();
        out.append(letter);
        let raw = frame.id().as_raw();
        if extended {
            push_upper_hex(&mut out, raw, 8);
        } else {
            push_upper_hex(&mut out, raw, 3);
        }
        out.append(upper_hex_digit(frame.dlc() as u8));
        if frame.is_data_frame() {
            push_hex_bytes(&mut out, frame.data());
        }
        out.append("\r");
        out
    }
}

/// Command variants.
#[derive(Debug, PartialEq, Eq, Copy, Clone)]
pub enum Command {
    Setup(Setup),
    Open(Open),
    Close(Close),
    Transmit(Transmit),
}

impl View for Command {
    type V = CommandView;

    open spec fn view(&self) -> CommandView {
        match self {
            Command::Setup(setup) => CommandView::Setup(setup.bitrate),
            Command::Open(_) => CommandView::Open,
            Command::Close(_) => CommandView::Close,
            Command::Transmit(transmit) => CommandView::Transmit(transmit@),
        }
    }
}

impl Command {
    /// The frame that the command carries, if it carries one, is well formed.
    /// Every command that was made by this library satisfies this.
    pub open spec fn wf(&self) -> bool {
        self matches Command::Transmit(transmit) ==> transmit.spec_frame().wf()
    }

    /// A well-formed command has a well-formed view.
    pub proof fn lemma_view_wf(self)
        requires
            self.wf(),
        ensures
            self@.wf(),
    {
        if let Command::Transmit(transmit) = self {
            transmit.spec_frame().lemma_view_wf();
        }
    }

    /// Two well-formed commands with the same view are the same command.
    pub proof fn lemma_view_injective(a: Self, b: Self)
        requires
            a.wf(),
            b.wf(),
            a@ == b@,
        ensures
            a == b,
    {
        match (a, b) {
            (Command::Transmit(x), Command::Transmit(y)) => Frame::lemma_view_injective(
                x.spec_frame(),
                y.spec_frame(),
            ),
            _ => {},
        }
    }

    /// Try parsing a command from a string. On success the result holds the
    /// input behind the command.
    pub fn try_parse(input: &str) -> (r: Result<(&str, Self), ParseError>)
        ensures
            match r {
                Ok((rest, command)) => {
                    &&& parse_command(input@) matches Ok((parsed, taken))
                    &&& command@ == parsed
                    &&& command.wf()
                    &&& taken <= input@.len()
                    &&& rest@ == input@.skip(taken as int)
                },
                Err(e) => parse_command(input@) matches Err(error) && error == e@,
            },
    {
        let text = Text::new(input);
        match Setup::parse_text(&text) {
            Ok((rest, setup)) => {
                return Ok((rest, Command::Setup(setup)));
            },
            Err(e) => {
                if e.kind.is_fatal() {
                    return Err(e);
                }
            },
        }
        match Open::parse_text(&text) {
            Ok((rest, open)) => {
                return Ok((rest, Command::Open(open)));
            },
            Err(_) => {},
        }
        match Close::parse_text(&text) {
            Ok((rest, close)) => {
                return Ok((rest, Command::Close(close)));
            },
            Err(_) => {},
        }
        match Transmit::parse_text(&text) {
            Ok((rest, transmit)) => Ok((rest, Command::Transmit(transmit))),
            Err(e) => Err(e),
        }
    }

    /// The command as the adapter reads it.
    pub fn format(&self) -> (r: String)
        ensures
            r@ == command_wire(self@),
    {
        match self {
            Command::Setup(setup) => setup.format(),
            Command::Open(open) => open.format(),
            Command::Close(close) => close.format(),
            Command::Transmit(transmit) => transmit.format(),
        }
    }
}

} // verus!
