use tabiew::load::{read_options, DecodeError, InferSchema, ReadOptions, SAMPLE_ROWS};
use tabiew::text::as_ascii;

#[test]
fn options_of_the_usual_choices() {
    assert_eq!(
        read_options(InferSchema::Safe, '"', ',', false, false),
        Ok(ReadOptions {
            has_header: true,
            separator: b',',
            quote: Some(b'"'),
            sample: Some(0),
            ignore_errors: false,
            refine: true,
        })
    );
    assert_eq!(
        read_options(InferSchema::Fast, '\'', '\t', true, true),
        Ok(ReadOptions {
            has_header: false,
            separator: b'\t',
            quote: Some(b'\''),
            sample: Some(128),
            ignore_errors: true,
            refine: false,
        })
    );
}

#[test]
fn a_separator_outside_ascii_is_refused() {
    assert_eq!(
        read_options(InferSchema::No, '"', '\u{e9}', false, false),
        Err(DecodeError::InvalidSeparator { separator: '\u{e9}' })
    );
    assert_eq!(
        read_options(InferSchema::No, '"', '\u{80}', false, false),
        Err(DecodeError::InvalidSeparator { separator: '\u{80}' })
    );
    assert!(read_options(InferSchema::No, '"', '\u{7f}', false, false).is_ok());
}

#[test]
fn a_quote_outside_ascii_means_no_quoting() {
    let options = read_options(InferSchema::Full, '\u{ab}', ';', false, false).unwrap();
    assert_eq!(options.quote, None);
    assert_eq!(options.separator, b';');
    assert_eq!(options.sample, None);
    assert!(!options.refine);
}

#[test]
fn rows_looked_at_by_each_kind_of_inference() {
    assert_eq!(InferSchema::No.sample_rows(), Some(0));
    assert_eq!(InferSchema::Fast.sample_rows(), Some(SAMPLE_ROWS));
    assert_eq!(InferSchema::Full.sample_rows(), None);
    assert_eq!(InferSchema::Safe.sample_rows(), Some(0));
    assert_eq!(SAMPLE_ROWS, 128);
}

#[test]
fn ascii_codes_of_characters() {
    assert_eq!(as_ascii('a'), Some(97));
    assert_eq!(as_ascii('\0'), Some(0));
    assert_eq!(as_ascii('\u{7f}'), Some(127));
    assert_eq!(as_ascii('\u{80}'), None);
    assert_eq!(as_ascii('\u{1f600}'), None);
}
