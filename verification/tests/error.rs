use cyclomatic_complexity::parsers::error::{ParseError, ParseErrorKind};

#[test]
fn error_of_a_kind_knows_nothing_else() {
    let e = ParseError::kind(ParseErrorKind::NoMatches);
    assert_eq!(e.kind, ParseErrorKind::NoMatches);
    assert_eq!(e.msg, None);
    assert_eq!(e.index, None);
    assert_eq!(e.source, None);
}

#[test]
fn error_builders_set_one_field_each() {
    let e = ParseError::kind(ParseErrorKind::InvalidSymbol)
        .msg("m".to_string())
        .index(7)
        .source("s".to_string());
    assert_eq!(
        e,
        ParseError {
            kind: ParseErrorKind::InvalidSymbol,
            msg: Some("m".to_string()),
            index: Some(7),
            source: Some("s".to_string()),
        }
    );
}

#[test]
fn error_is_shown_with_its_kind_and_message() {
    let plain = ParseError::kind(ParseErrorKind::UnexpectedEOF);
    assert_eq!(plain.to_string(), "Error: UnexpectedEOF");
    let with_message = ParseError::kind(ParseErrorKind::NoMatches)
        .msg("Identifier not found for impl".to_string())
        .index(3);
    assert_eq!(
        with_message.to_string(),
        "Error: NoMatches, Message: Identifier not found for impl"
    );
}

#[test]
fn kinds_are_shown_by_name() {
    assert_eq!(ParseErrorKind::InvalidSymbol.to_string(), "InvalidSymbol");
    assert_eq!(ParseErrorKind::UnexpectedEOF.to_string(), "UnexpectedEOF");
    assert_eq!(ParseErrorKind::NoMatches.to_string(), "NoMatches");
    assert_eq!(ParseErrorKind::ConversionError.to_string(), "ConversionError");
}

#[test]
fn unknown_character_is_shown_in_debug_form() {
    assert_eq!(ParseErrorKind::UnknownCharacter('`').to_string(), "UnknownCharacter('`')");
    assert_eq!(ParseErrorKind::UnknownCharacter('\n').to_string(), "UnknownCharacter('\\n')");
    assert_eq!(ParseErrorKind::UnknownCharacter('\'').to_string(), "UnknownCharacter('\\'')");
    let e = ParseError::kind(ParseErrorKind::UnknownCharacter('%'));
    assert_eq!(e.to_string(), "Error: UnknownCharacter('%')");
}
