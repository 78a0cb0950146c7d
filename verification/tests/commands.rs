use serial_can::{
    Bitrate, Close, Command, ExtendedId, Frame, Id, Open, ParseError, ParseErrorKind, Setup,
    StandardId, Transmit,
};

fn standard(raw: u16) -> Id {
    Id::Standard(StandardId::new(raw).unwrap())
}

fn extended(raw: u32) -> Id {
    Id::Extended(ExtendedId::new(raw).unwrap())
}

fn error(kind: ParseErrorKind, position: usize) -> ParseError {
    ParseError { kind, position }
}

#[test]
fn format_setup() {
    let setup = Setup::new(Bitrate::Rate10kbit);
    assert_eq!(setup.format(), "S0\r");
}

#[test]
fn format_open() {
    let open = Open::new();
    assert_eq!(open.format(), "O\r");
}

#[test]
fn format_close() {
    let close = Close::new();
    assert_eq!(close.format(), "C\r");
}

#[test]
fn format_transmit() {
    let frame = Frame::new(Id::Standard(StandardId::new(0x123).unwrap()), &[]).unwrap();
    let transmit = Transmit::new(&frame);
    assert_eq!(transmit.format(), "t1230\r");

    let frame = Frame::new(
        Id::Standard(StandardId::new(0x456).unwrap()),
        &[0x11, 0x22, 0x33],
    )
    .unwrap();
    let transmit = Transmit::new(&frame);
    assert_eq!(transmit.format(), "t4563112233\r");

    let frame = Frame::new(
        Id::Extended(ExtendedId::new(0x12ABCDEF).unwrap()),
        &[0xAA, 0x55],
    )
    .unwrap();
    let transmit = Transmit::new(&frame);
    assert_eq!(transmit.format(), "T12ABCDEF2AA55\r");

    let frame = Frame::new_remote(Id::Standard(StandardId::new(0x123).unwrap()), 0).unwrap();
    let transmit = Transmit::new(&frame);
    assert_eq!(transmit.format(), "r1230\r");
}

#[test]
fn parse_transmit() {
    assert_eq!(
        Transmit::try_parse("t1230\r"),
        Ok((
            "",
            Transmit::new(
                &Frame::new(Id::Standard(StandardId::new(0x123).unwrap()), &[]).unwrap()
            )
        ))
    );

    assert_eq!(
        Transmit::try_parse("t4563112233\r"),
        Ok((
            "",
            Transmit::new(
                &Frame::new(
                    Id::Standard(StandardId::new(0x456).unwrap()),
                    &[0x11, 0x22, 0x33]
                )
                .unwrap()
            )
        ))
    );

    assert_eq!(
        Transmit::try_parse("T12ABCDEF2AA55\r"),
        Ok((
            "",
            Transmit::new(
                &Frame::new(
                    Id::Extended(ExtendedId::new(0x12ABCDEF).unwrap()),
                    &[0xAA, 0x55]
                )
                .unwrap()
            )
        ))
    );

    assert_eq!(
        Transmit::try_parse("r1230\r"),
        Ok((
            "",
            Transmit::new(
                &Frame::new_remote(Id::Standard(StandardId::new(0x123).unwrap()), 0).unwrap()
            )
        ))
    );
}

#[test]
fn format_setup_each_bitrate() {
    assert_eq!(Setup::new(Bitrate::Rate10kbit).format(), "S0\r");
    assert_eq!(Setup::new(Bitrate::Rate20kbit).format(), "S1\r");
    assert_eq!(Setup::new(Bitrate::Rate50kbit).format(), "S2\r");
    assert_eq!(Setup::new(Bitrate::Rate100kbit).format(), "S3\r");
    assert_eq!(Setup::new(Bitrate::Rate125kbit).format(), "S4\r");
    assert_eq!(Setup::new(Bitrate::Rate250kbit).format(), "S5\r");
    assert_eq!(Setup::new(Bitrate::Rate500kbit).format(), "S6\r");
    assert_eq!(Setup::new(Bitrate::Rate800kbit).format(), "S7\r");
    assert_eq!(Setup::new(Bitrate::Rate1000kbit).format(), "S8\r");
}

#[test]
fn setup_round_trips_for_each_bitrate() {
    let all = [
        Bitrate::Rate10kbit,
        Bitrate::Rate20kbit,
        Bitrate::Rate50kbit,
        Bitrate::Rate100kbit,
        Bitrate::Rate125kbit,
        Bitrate::Rate250kbit,
        Bitrate::Rate500kbit,
        Bitrate::Rate800kbit,
        Bitrate::Rate1000kbit,
    ];
    for bitrate in all {
        let setup = Setup::new(bitrate);
        let text = setup.format();
        assert_eq!(Setup::try_parse(&text), Ok(("", setup)));
        assert_eq!(Command::try_parse(&text), Ok(("", Command::Setup(setup))));
    }
}

#[test]
fn bitrate_codes() {
    assert_eq!(Bitrate::Rate10kbit.code(), 0);
    assert_eq!(Bitrate::Rate125kbit.code(), 4);
    assert_eq!(Bitrate::Rate800kbit.code(), 7);
    assert_eq!(Bitrate::Rate1000kbit.code(), 8);
    assert_eq!(Bitrate::from_code(6), Some(Bitrate::Rate500kbit));
    assert_eq!(Bitrate::from_code(8), Some(Bitrate::Rate1000kbit));
    assert_eq!(Bitrate::from_code(9), None);
    assert_eq!(Bitrate::from_code(255), None);
}

#[test]
fn open_and_close_round_trip() {
    assert_eq!(Open::try_parse(&Open::new().format()), Ok(("", Open::new())));
    assert_eq!(Close::try_parse(&Close::new().format()), Ok(("", Close::new())));
    assert_eq!(Command::try_parse("O\r"), Ok(("", Command::Open(Open::new()))));
    assert_eq!(Command::try_parse("C\r"), Ok(("", Command::Close(Close::new()))));
    assert_eq!(Command::Open(Open::new()).format(), "O\r");
    assert_eq!(Command::Close(Close::new()).format(), "C\r");
}

#[test]
fn transmit_round_trips() {
    let frames = [
        Frame::new(standard(0), &[]).unwrap(),
        Frame::new(standard(0x7FF), &[0, 1, 2, 3, 4, 5, 6, 7]).unwrap(),
        Frame::new(standard(0x00A), &[0xFF]).unwrap(),
        Frame::new(extended(0), &[0x00, 0x0F, 0xF0]).unwrap(),
        Frame::new(extended(0x1FFF_FFFF), &[0xDE, 0xAD, 0xBE, 0xEF, 0x01, 0x23, 0x45, 0x67]).unwrap(),
        Frame::new_remote(standard(0x123), 0).unwrap(),
        Frame::new_remote(standard(0x7FF), 8).unwrap(),
        Frame::new_remote(extended(0x1ABC_DEF0), 5).unwrap(),
    ];
    for frame in frames {
        let transmit = Transmit::new(&frame);
        let text = transmit.format();
        assert_eq!(Transmit::try_parse(&text), Ok(("", transmit)));
        assert_eq!(Command::try_parse(&text), Ok(("", Command::Transmit(transmit))));
        assert_eq!(Command::Transmit(transmit).format(), text);
    }
}

#[test]
fn transmit_pads_the_identifier_with_zeros() {
    let frame = Frame::new(standard(0xA), &[0x0B]).unwrap();
    assert_eq!(Transmit::new(&frame).format(), "t00A10B\r");
    let frame = Frame::new(extended(0xA0), &[]).unwrap();
    assert_eq!(Transmit::new(&frame).format(), "T000000A00\r");
}

#[test]
fn remote_frame_is_written_without_payload() {
    let frame = Frame::new_remote(standard(0x123), 4).unwrap();
    assert_eq!(Transmit::new(&frame).format(), "r1234\r");
    let frame = Frame::new_remote(extended(0x12ABCDEF), 8).unwrap();
    assert_eq!(Transmit::new(&frame).format(), "R12ABCDEF8\r");
}

#[test]
fn remote_frame_is_read_without_payload() {
    let (rest, transmit) = Transmit::try_parse("r1234\rt1230\r").unwrap();
    assert_eq!(rest, "t1230\r");
    assert_eq!(transmit, Transmit::new(&Frame::new_remote(standard(0x123), 4).unwrap()));
    let (rest, transmit) = Transmit::try_parse("R12ABCDEF8\r").unwrap();
    assert_eq!(rest, "");
    let frame = transmit.frame();
    assert!(frame.is_remote_frame());
    assert!(frame.is_extended());
    assert_eq!(frame.dlc(), 8);
    assert_eq!(frame.id(), extended(0x12ABCDEF));
}

#[test]
fn parse_hands_out_what_follows_the_command() {
    assert_eq!(Open::try_parse("O\rC\r"), Ok(("C\r", Open::new())));
    assert_eq!(Close::try_parse("C\rrest"), Ok(("rest", Close::new())));
    assert_eq!(
        Setup::try_parse("S6\rO\r"),
        Ok(("O\r", Setup::new(Bitrate::Rate500kbit)))
    );
    assert_eq!(
        Transmit::try_parse("t12311F\rS0\r"),
        Ok(("S0\r", Transmit::new(&Frame::new(standard(0x123), &[0x1F]).unwrap())))
    );
    assert_eq!(
        Command::try_parse("t12311F\r\u{e9}"),
        Ok((
            "\u{e9}",
            Command::Transmit(Transmit::new(&Frame::new(standard(0x123), &[0x1F]).unwrap()))
        ))
    );
}

#[test]
fn parse_reads_hex_digits_in_either_case() {
    let upper = Transmit::try_parse("T01abcdef2aB5c\r");
    assert_eq!(
        upper,
        Ok(("", Transmit::new(&Frame::new(extended(0x1ABCDEF), &[0xAB, 0x5C]).unwrap())))
    );
    assert_eq!(
        Transmit::try_parse("t7ff8000102030405060f\r"),
        Ok((
            "",
            Transmit::new(&Frame::new(standard(0x7FF), &[0, 1, 2, 3, 4, 5, 6, 0x0F]).unwrap())
        ))
    );
}

#[test]
fn frame_new_takes_at_most_eight_bytes() {
    assert!(Frame::new(standard(1), &[0; 9]).is_none());
    assert!(Frame::new(standard(1), &[0; 100]).is_none());
    let frame = Frame::new(standard(1), &[1, 2, 3, 4, 5, 6, 7, 8]).unwrap();
    assert_eq!(frame.dlc(), 8);
    assert_eq!(frame.data(), &[1, 2, 3, 4, 5, 6, 7, 8]);
}

#[test]
fn frame_new_remote_takes_at_most_eight() {
    assert!(Frame::new_remote(standard(1), 9).is_none());
    assert!(Frame::new_remote(standard(1), usize::MAX).is_none());
    let frame = Frame::new_remote(standard(1), 8).unwrap();
    assert_eq!(frame.dlc(), 8);
    assert_eq!(frame.data(), &[0; 8]);
    assert!(frame.is_remote_frame());
    assert!(!frame.is_data_frame());
}

#[test]
fn frame_accessors() {
    let frame = Frame::new(extended(0x1234), &[0xAA, 0xBB, 0xCC]).unwrap();
    assert_eq!(frame.id(), extended(0x1234));
    assert_eq!(frame.id().as_raw(), 0x1234);
    assert_eq!(frame.dlc(), 3);
    assert_eq!(frame.data(), &[0xAA, 0xBB, 0xCC]);
    assert!(frame.is_extended());
    assert!(!frame.is_standard());
    assert!(frame.is_data_frame());
    assert!(!frame.is_remote_frame());

    let frame = Frame::new(standard(0x7F), &[]).unwrap();
    assert_eq!(frame.id().as_raw(), 0x7F);
    assert_eq!(frame.dlc(), 0);
    assert_eq!(frame.data(), &[] as &[u8]);
    assert!(frame.is_standard());
    assert!(!frame.is_extended());
}

#[test]
fn frames_with_the_same_content_are_equal() {
    let a = Frame::new(standard(0x10), &[1, 2]).unwrap();
    let b = Frame::new(standard(0x10), &[1, 2]).unwrap();
    let c = Frame::new(standard(0x10), &[1, 2, 0]).unwrap();
    let d = Frame::new_remote(standard(0x10), 2).unwrap();
    assert_eq!(a, b);
    assert_ne!(a, c);
    assert_ne!(a, d);
    assert_eq!(Transmit::new(&a).frame(), &a);
}

#[test]
fn standard_id_range() {
    assert_eq!(StandardId::new(0).unwrap().as_raw(), 0);
    assert_eq!(StandardId::new(0x7FF).unwrap().as_raw(), 0x7FF);
    assert!(StandardId::new(0x800).is_none());
    assert!(StandardId::new(u16::MAX).is_none());
}

#[test]
fn extended_id_range() {
    assert_eq!(ExtendedId::new(0).unwrap().as_raw(), 0);
    assert_eq!(ExtendedId::new(0x1FFF_FFFF).unwrap().as_raw(), 0x1FFF_FFFF);
    assert!(ExtendedId::new(0x2000_0000).is_none());
    assert!(ExtendedId::new(u32::MAX).is_none());
}

#[test]
fn id_kinds() {
    assert!(!standard(5).is_extended());
    assert!(extended(5).is_extended());
    assert_ne!(standard(5), extended(5));
    assert_eq!(standard(5).as_raw(), 5);
    assert_eq!(extended(0x1FFF_FFFF).as_raw(), 0x1FFF_FFFF);
}

#[test]
fn id_from_either_kind() {
    let id: Id = StandardId::new(0x321).unwrap().into();
    assert_eq!(id, standard(0x321));
    let id: Id = ExtendedId::new(0x321).unwrap().into();
    assert_eq!(id, extended(0x321));
    assert_eq!(Id::from(StandardId::new(0).unwrap()), standard(0));
}

#[test]
fn parse_rejects_bad_input() {
    assert!(Setup::try_parse("S9\r").is_err());
    assert!(Command::try_parse("S9\r").is_err());
    assert!(Transmit::try_parse("t12\r").is_err());
    assert!(Command::try_parse("t12\r").is_err());
    assert!(Transmit::try_parse("tZZZ0\r").is_err());
    assert!(Command::try_parse("tZZZ0\r").is_err());
}

#[test]
fn setup_errors() {
    assert_eq!(Setup::try_parse(""), Err(error(ParseErrorKind::Eof, 0)));
    assert_eq!(Setup::try_parse("O\r"), Err(error(ParseErrorKind::Tag, 0)));
    assert_eq!(Setup::try_parse("s0\r"), Err(error(ParseErrorKind::Tag, 0)));
    assert_eq!(Setup::try_parse("S"), Err(error(ParseErrorKind::Eof, 1)));
    assert_eq!(Setup::try_parse("S\r"), Err(error(ParseErrorKind::Digit, 1)));
    assert_eq!(Setup::try_parse("SA\r"), Err(error(ParseErrorKind::Digit, 1)));
    assert_eq!(Setup::try_parse("S0"), Err(error(ParseErrorKind::Eof, 2)));
    assert_eq!(Setup::try_parse("S123"), Err(error(ParseErrorKind::Eof, 4)));
    assert_eq!(Setup::try_parse("S0\n"), Err(error(ParseErrorKind::Tag, 2)));
    assert_eq!(Setup::try_parse("S123x"), Err(error(ParseErrorKind::Tag, 4)));
    assert_eq!(Setup::try_parse("S9\r"), Err(error(ParseErrorKind::Bitrate, 1)));
    assert_eq!(Setup::try_parse("S00\r"), Err(error(ParseErrorKind::Bitrate, 1)));
    assert_eq!(Setup::try_parse("S10\r"), Err(error(ParseErrorKind::Bitrate, 1)));
}

#[test]
fn open_and_close_errors() {
    assert_eq!(Open::try_parse(""), Err(error(ParseErrorKind::Eof, 0)));
    assert_eq!(Open::try_parse("O"), Err(error(ParseErrorKind::Eof, 1)));
    assert_eq!(Open::try_parse("O\n"), Err(error(ParseErrorKind::Tag, 1)));
    assert_eq!(Open::try_parse("C\r"), Err(error(ParseErrorKind::Tag, 0)));
    assert_eq!(Close::try_parse("O\r"), Err(error(ParseErrorKind::Tag, 0)));
    assert_eq!(Close::try_parse("c\r"), Err(error(ParseErrorKind::Tag, 0)));
    assert_eq!(Close::try_parse("C"), Err(error(ParseErrorKind::Eof, 1)));
    assert_eq!(Close::try_parse("CC\r"), Err(error(ParseErrorKind::Tag, 1)));
}

#[test]
fn transmit_errors() {
    assert_eq!(Transmit::try_parse(""), Err(error(ParseErrorKind::Eof, 0)));
    assert_eq!(Transmit::try_parse("x1230\r"), Err(error(ParseErrorKind::Kind, 0)));
    assert_eq!(Transmit::try_parse("\u{e9}"), Err(error(ParseErrorKind::Kind, 0)));
    assert_eq!(Transmit::try_parse("t12"), Err(error(ParseErrorKind::Eof, 1)));
    assert_eq!(Transmit::try_parse("T1234567"), Err(error(ParseErrorKind::Eof, 1)));
    assert_eq!(Transmit::try_parse("t12\r"), Err(error(ParseErrorKind::HexDigit, 3)));
    assert_eq!(Transmit::try_parse("tZZZ0\r"), Err(error(ParseErrorKind::HexDigit, 1)));
    assert_eq!(Transmit::try_parse("t+120\r"), Err(error(ParseErrorKind::HexDigit, 1)));
    assert_eq!(Transmit::try_parse("t1\u{e9}20\r"), Err(error(ParseErrorKind::HexDigit, 2)));
    assert_eq!(Transmit::try_parse("T1234567g0\r"), Err(error(ParseErrorKind::HexDigit, 8)));
    assert_eq!(Transmit::try_parse("t8000\r"), Err(error(ParseErrorKind::Identifier, 1)));
    assert_eq!(Transmit::try_parse("tFFF0\r"), Err(error(ParseErrorKind::Identifier, 1)));
    assert_eq!(
        Transmit::try_parse("T200000000\r"),
        Err(error(ParseErrorKind::Identifier, 1))
    );
    assert_eq!(Transmit::try_parse("t123"), Err(error(ParseErrorKind::Eof, 4)));
    assert_eq!(Transmit::try_parse("T12345678"), Err(error(ParseErrorKind::Eof, 9)));
    assert_eq!(Transmit::try_parse("t123\r"), Err(error(ParseErrorKind::HexDigit, 4)));
    assert_eq!(Transmit::try_parse("t123G\r"), Err(error(ParseErrorKind::HexDigit, 4)));
    assert_eq!(Transmit::try_parse("t1239\r"), Err(error(ParseErrorKind::Length, 4)));
    assert_eq!(Transmit::try_parse("r123F\r"), Err(error(ParseErrorKind::Length, 4)));
    assert_eq!(Transmit::try_parse("t1232112"), Err(error(ParseErrorKind::Eof, 5)));
    assert_eq!(Transmit::try_parse("t12321122"), Err(error(ParseErrorKind::Eof, 9)));
    assert_eq!(Transmit::try_parse("t12321\r"), Err(error(ParseErrorKind::Eof, 5)));
    assert_eq!(Transmit::try_parse("t123211\r\r"), Err(error(ParseErrorKind::HexDigit, 7)));
    assert_eq!(Transmit::try_parse("t12321x22\r"), Err(error(ParseErrorKind::HexDigit, 6)));
    assert_eq!(Transmit::try_parse("t1232x122\r"), Err(error(ParseErrorKind::HexDigit, 5)));
    assert_eq!(Transmit::try_parse("t1232112x\r"), Err(error(ParseErrorKind::HexDigit, 8)));
    assert_eq!(Transmit::try_parse("t12321\u{e9}22\r"), Err(error(ParseErrorKind::HexDigit, 6)));
    assert_eq!(Transmit::try_parse("t1230"), Err(error(ParseErrorKind::Eof, 5)));
    assert_eq!(Transmit::try_parse("t1230\n"), Err(error(ParseErrorKind::Tag, 5)));
    assert_eq!(Transmit::try_parse("t12311122\r"), Err(error(ParseErrorKind::Tag, 7)));
    assert_eq!(Transmit::try_parse("r123211\r"), Err(error(ParseErrorKind::Tag, 5)));
    assert_eq!(Transmit::try_parse("T12ABCDEF2AA55"), Err(error(ParseErrorKind::Eof, 14)));
}

#[test]
fn command_tries_setup_open_close_transmit_in_turn() {
    assert_eq!(
        Command::try_parse("S4\r"),
        Ok(("", Command::Setup(Setup::new(Bitrate::Rate125kbit))))
    );
    assert_eq!(
        Command::try_parse("r0008\rO\r"),
        Ok((
            "O\r",
            Command::Transmit(Transmit::new(&Frame::new_remote(standard(0), 8).unwrap()))
        ))
    );
    // No command fits: the error is that of the last one tried.
    assert_eq!(Command::try_parse(""), Err(error(ParseErrorKind::Eof, 0)));
    assert_eq!(Command::try_parse("X\r"), Err(error(ParseErrorKind::Kind, 0)));
    assert_eq!(Command::try_parse("Sx\r"), Err(error(ParseErrorKind::Kind, 0)));
    assert_eq!(Command::try_parse("S1"), Err(error(ParseErrorKind::Kind, 0)));
    assert_eq!(Command::try_parse("O"), Err(error(ParseErrorKind::Kind, 0)));
    assert_eq!(Command::try_parse("t12"), Err(error(ParseErrorKind::Eof, 1)));
    assert_eq!(Command::try_parse("t1230"), Err(error(ParseErrorKind::Eof, 5)));
    assert_eq!(Command::try_parse("t1230x"), Err(error(ParseErrorKind::Tag, 5)));
    // A command that is recognised and found invalid ends the search.
    assert_eq!(Command::try_parse("S9\r"), Err(error(ParseErrorKind::Bitrate, 1)));
    assert_eq!(Command::try_parse("tZZZ0\r"), Err(error(ParseErrorKind::HexDigit, 1)));
    assert_eq!(Command::try_parse("t9990\r"), Err(error(ParseErrorKind::Identifier, 1)));
    assert_eq!(Command::try_parse("t123A\r"), Err(error(ParseErrorKind::Length, 4)));
}

#[test]
fn fatal_error_kinds() {
    assert!(ParseErrorKind::Bitrate.is_fatal());
    assert!(ParseErrorKind::HexDigit.is_fatal());
    assert!(ParseErrorKind::Identifier.is_fatal());
    assert!(ParseErrorKind::Length.is_fatal());
    assert!(!ParseErrorKind::Tag.is_fatal());
    assert!(!ParseErrorKind::Kind.is_fatal());
    assert!(!ParseErrorKind::Digit.is_fatal());
    assert!(!ParseErrorKind::Eof.is_fatal());
}

#[test]
fn long_digit_run_is_no_bitrate() {
    let mut text = String::from("S");
    for _ in 0..200 {
        text.push('7');
    }
    text.push('\r');
    assert_eq!(Setup::try_parse(&text), Err(error(ParseErrorKind::Bitrate, 1)));
}
