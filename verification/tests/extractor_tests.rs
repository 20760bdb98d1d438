use scan::ExtractError;
use scan::Placeholder;
use scan::extract;
use scan::parse_template;

#[test]
fn round_trip_scenario() {
    let data: &[u8] = &[0xff, 0xbe, 0x01, 0x02, 0x03];
    let slices = extract("ff be %b %w", data).unwrap();
    assert_eq!(slices, vec![&[0x01u8][..], &[0x02u8, 0x03u8][..]]);
    let a = u8::from_be_bytes(<[u8; 1]>::try_from(slices[0]).unwrap());
    let b = u16::from_be_bytes(<[u8; 2]>::try_from(slices[1]).unwrap());
    assert_eq!(a, 1);
    assert_eq!(b, 515);
}

#[test]
fn literal_mismatch_reports_actual_then_expected() {
    assert_eq!(
        extract("ff", &[0xab]),
        Err(ExtractError::MismatchedValue(0xab, 0xff))
    );
}

#[test]
fn literal_past_the_end_reports_the_expected_byte() {
    assert_eq!(extract("ff", &[]), Err(ExtractError::MissingValue(0xff)));
    assert_eq!(
        extract("ab cd", &[0xab]),
        Err(ExtractError::MissingValue(0xcd))
    );
}

#[test]
fn each_directive_has_its_own_missing_error() {
    assert_eq!(extract("%q", &[0x01, 0x02]), Err(ExtractError::UnmatchedQuad));
    assert_eq!(extract("%b", &[]), Err(ExtractError::UnmatchedByte));
    assert_eq!(extract("%w", &[0x01]), Err(ExtractError::UnmatchedWord));
    assert_eq!(
        extract("%d", &[0x01, 0x02, 0x03]),
        Err(ExtractError::UnmatchedDouble)
    );
    assert_eq!(extract("%?", &[]), Err(ExtractError::UnmatchedSkip));
}

#[test]
fn skip_consumes_one_byte_and_captures_nothing() {
    let slices = extract("%?", &[0x05]).unwrap();
    assert_eq!(slices.len(), 0);
}

#[test]
fn leftover_buffer_bytes_are_residual_data() {
    assert_eq!(extract("%b", &[0x01, 0x02]), Err(ExtractError::ResidualData));
    assert_eq!(extract("", &[0x01]), Err(ExtractError::ResidualData));
}

#[test]
fn rest_capture_takes_everything_even_nothing() {
    assert_eq!(extract("%*", &[]).unwrap(), vec![&[][..]]);
    assert_eq!(
        extract("%b %*", &[0x09]).unwrap(),
        vec![&[0x09u8][..], &[][..]]
    );
    assert_eq!(
        extract("%* ", &[0x01, 0x02, 0x03]).unwrap(),
        vec![&[0x01u8, 0x02, 0x03][..]]
    );
}

#[test]
fn characters_outside_the_alphabet_are_rejected_eagerly() {
    assert_eq!(
        extract("!", &[]),
        Err(ExtractError::InvalidFormatCharacter('!'))
    );
    assert_eq!(
        extract("f!", &[]),
        Err(ExtractError::InvalidFormatCharacter('!'))
    );
    assert_eq!(
        extract("%z", &[]),
        Err(ExtractError::InvalidFormatCharacter('z'))
    );
    assert_eq!(
        extract("%%", &[]),
        Err(ExtractError::InvalidFormatCharacter('%'))
    );
}

#[test]
fn non_hex_pairs_fail_the_independent_hex_parse() {
    assert_eq!(
        extract("gg", &[0x05]),
        Err(ExtractError::InvalidHexCharacter('g'))
    );
    assert_eq!(
        extract("a%", &[]),
        Err(ExtractError::InvalidHexCharacter('%'))
    );
    // The bad pair is hit before the out-of-alphabet character after it.
    assert_eq!(
        extract("zz !", &[]),
        Err(ExtractError::InvalidHexCharacter('z'))
    );
}

#[test]
fn a_leftover_character_is_unmatched_at_extraction_too() {
    assert_eq!(
        extract("ff f", &[0xff]),
        Err(ExtractError::UnmatchedCharacter('f'))
    );
}

#[test]
fn hex_literals_match_in_either_case() {
    assert_eq!(extract("FF", &[0xff]).unwrap(), Vec::<&[u8]>::new());
    assert_eq!(extract("aB", &[0xab]).unwrap(), Vec::<&[u8]>::new());
}

#[test]
fn placeholders_and_slices_agree_in_count_and_width() {
    let template = "%b %w %d %q %*";
    let data: &[u8] = &[
        0x01, 0x02, 0x03, 0x04, 0x05, 0x06, 0x07, 0x08, 0x09, 0x0a, 0x0b, 0x0c, 0x0d, 0x0e, 0x0f,
        0x10, 0x11,
    ];
    let placeholders = parse_template(template).unwrap();
    let slices = extract(template, data).unwrap();
    assert_eq!(placeholders.len(), slices.len());
    for (p, s) in placeholders.iter().zip(slices.iter()) {
        match p {
            Placeholder::Byte => assert_eq!(s.len(), 1),
            Placeholder::Word => assert_eq!(s.len(), 2),
            Placeholder::Double => assert_eq!(s.len(), 4),
            Placeholder::Quad => assert_eq!(s.len(), 8),
            Placeholder::RawRest => {}
        }
    }
    assert_eq!(slices[4], &[0x10, 0x11]);
}

#[test]
fn every_byte_of_the_buffer_is_accounted_for() {
    // One skipped, one matched, two captured: four bytes in, four bytes out.
    let data: &[u8] = &[0x77, 0xab, 0x01, 0x02];
    let slices = extract("%? ab %w", data).unwrap();
    let captured: usize = slices.iter().map(|s| s.len()).sum();
    assert_eq!(2 + captured, data.len());
}

#[test]
fn later_directives_fail_after_the_rest_capture_took_everything() {
    assert_eq!(extract("%*%b", &[0x01]), Err(ExtractError::UnmatchedByte));
    assert_eq!(extract("%b%b", &[0x07]), Err(ExtractError::UnmatchedByte));
}
