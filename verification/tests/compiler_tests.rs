use scan::CompileError;
use scan::Placeholder;
use scan::parse_template;

#[test]
fn empty_template_compiles_to_no_placeholders() {
    assert_eq!(parse_template(""), Ok(vec![]));
    assert_eq!(parse_template("   \t\n"), Ok(vec![]));
}

#[test]
fn all_directives_in_order() {
    assert_eq!(
        parse_template("%b %w %d %q"),
        Ok(vec![
            Placeholder::Byte,
            Placeholder::Word,
            Placeholder::Double,
            Placeholder::Quad
        ])
    );
}

#[test]
fn literals_and_skips_produce_no_placeholders() {
    assert_eq!(parse_template("ff 00 %? ab"), Ok(vec![]));
    assert_eq!(parse_template("FF Aa 09"), Ok(vec![]));
}

#[test]
fn whitespace_is_insignificant_inside_tokens() {
    assert_eq!(parse_template(" f f % b "), Ok(vec![Placeholder::Byte]));
    assert_eq!(parse_template("f\u{00A0}f"), Ok(vec![]));
}

#[test]
fn rest_capture_may_close_the_template() {
    assert_eq!(
        parse_template("%b %*"),
        Ok(vec![Placeholder::Byte, Placeholder::RawRest])
    );
    assert_eq!(parse_template("%*   "), Ok(vec![Placeholder::RawRest]));
}

#[test]
fn invalid_hex_number_names_the_pair() {
    assert_eq!(
        parse_template("gg"),
        Err(CompileError::InvalidHexNumber("gg".to_string()))
    );
    assert_eq!(
        parse_template("+f"),
        Err(CompileError::InvalidHexNumber("+f".to_string()))
    );
}

#[test]
fn anything_after_the_wildcard_is_rejected() {
    assert_eq!(parse_template("%* %b"), Err(CompileError::WildcardNotLast));
    assert_eq!(parse_template("%* ff"), Err(CompileError::WildcardNotLast));
    assert_eq!(parse_template("%*%?"), Err(CompileError::WildcardNotLast));
    assert_eq!(parse_template("%* g"), Err(CompileError::WildcardNotLast));
}

#[test]
fn unknown_directive_selector_is_rejected() {
    assert_eq!(
        parse_template("%z"),
        Err(CompileError::InvalidFormatCharacter('z'))
    );
}

#[test]
fn escape_in_second_position_is_an_invalid_placement() {
    assert_eq!(
        parse_template("a%"),
        Err(CompileError::InvalidFormatPlacement('a'))
    );
    assert_eq!(
        parse_template("%%"),
        Err(CompileError::InvalidFormatPlacement('%'))
    );
}

#[test]
fn a_single_leftover_template_character_is_unmatched() {
    assert_eq!(parse_template("f"), Err(CompileError::UnmatchedCharacter('f')));
    assert_eq!(
        parse_template("ff a"),
        Err(CompileError::UnmatchedCharacter('a'))
    );
    assert_eq!(parse_template("g"), Err(CompileError::UnmatchedCharacter('g')));
}

#[test]
fn errors_are_reported_left_to_right() {
    // The bad pair is hit before the leftover character.
    assert_eq!(
        parse_template("ggf"),
        Err(CompileError::InvalidHexNumber("gg".to_string()))
    );
    // The leftover character is only found at the very end.
    assert_eq!(
        parse_template("ffg"),
        Err(CompileError::UnmatchedCharacter('g'))
    );
}

#[test]
fn mixed_template_keeps_directive_order() {
    assert_eq!(
        parse_template("de ad %w be ef %*"),
        Ok(vec![Placeholder::Word, Placeholder::RawRest])
    );
}
