//! What a reader of files is told before it reads.
//!
//! The files themselves are read elsewhere; here the choices of the user are
//! turned into the options of a reader of separated values.

use vstd::prelude::*;
use crate::text::as_ascii;

verus! {

/// The format of a file.
#[derive(Clone, Copy, PartialEq, Eq, Debug, Structural)]
pub enum Format {
    /// Values separated by a character, one row on a line.
    Dsv,
    /// The columnar format Parquet.
    Parquet,
}

/// How the types of the columns of a file are found.
#[derive(Clone, Copy, PartialEq, Eq, Debug, Structural)]
pub enum InferSchema {
    /// Not at all: every column is text.
    No,
    /// From the first rows of the file.
    Fast,
    /// From all rows of the file.
    Full,
    /// Every column is read as text; then each column is given the first type
    /// that all its values have.
    Safe,
}

/// The number of rows that a fast inference looks at.
pub const SAMPLE_ROWS: usize = 128;

impl InferSchema {
    /// The number of rows from which the reader infers the types; none where
    /// it is to look at all rows.
    pub open spec fn sample(self) -> Option<usize> {
        match self {
            InferSchema::No => Some(0),
            InferSchema::Fast => Some(SAMPLE_ROWS),
            InferSchema::Full => None,
            InferSchema::Safe => Some(0),
        }
    }

    /// The number of rows from which the reader infers the types; none where
    /// it is to look at all rows.
    #[verifier::when_used_as_spec(sample)]
    pub fn sample_rows(self) -> (r: Option<usize>)
        ensures
            r == self.sample(),
    {
        match self {
            InferSchema::No => Some(0),
            InferSchema::Fast => Some(SAMPLE_ROWS),
            InferSchema::Full => None,
            InferSchema::Safe => Some(0),
        }
    }
}

/// Why a file could not be read.
#[derive(Clone, Copy, PartialEq, Eq, Debug, Structural)]
pub enum DecodeError {
    /// The separator is not an ASCII character.
    InvalidSeparator { separator: char },
}

/// The options of a reader of separated values.
#[derive(Clone, Copy, PartialEq, Eq, Debug, Structural)]
pub struct ReadOptions {
    /// Whether the first row holds the names of the columns.
    pub has_header: bool,
    /// The byte that separates two values.
    pub separator: u8,
    /// The byte that encloses a quoted value; none where values are not quoted.
    pub quote: Option<u8>,
    /// The number of rows from which the types are inferred; none for all rows.
    pub sample: Option<usize>,
    /// Whether a value that cannot be read is taken as null.
    pub ignore_errors: bool,
    /// Whether the columns are given types after the file was read as text.
    pub refine: bool,
}

/// The code of an ASCII character; nothing for any other character.
pub open spec fn ascii_of(c: char) -> Option<u8> {
    if (c as u32) < 128 {
        Some(c as u8)
    } else {
        None
    }
}

/// The options of the reader for the choices of the user. The separator must
/// be an ASCII character; a quote character that is none means that values are
/// not quoted.
pub fn read_options(
    infer_schema: InferSchema,
    quote_char: char,
    separator_char: char,
    no_header: bool,
    ignore_errors: bool,
) -> (r: Result<ReadOptions, DecodeError>)
    ensures
        r == (match ascii_of(separator_char) {
            None => Err::<ReadOptions, DecodeError>(
                DecodeError::InvalidSeparator { separator: separator_char },
            ),
            Some(separator) => Ok::<ReadOptions, DecodeError>(
                ReadOptions {
                    has_header: !no_header,
                    separator,
                    quote: ascii_of(quote_char),
                    sample: infer_schema.sample(),
                    ignore_errors,
                    refine: infer_schema == InferSchema::Safe,
                },
            ),
        }),
{
    let separator = match as_ascii(separator_char) {
        None => {
            return Err(DecodeError::InvalidSeparator { separator: separator_char });
        },
        Some(b) => b,
    };
    let refine = match infer_schema {
        InferSchema::Safe => true,
        _ => false,
    };
    Ok(
        ReadOptions {
            has_header: !no_header,
            separator,
            quote: as_ascii(quote_char),
            sample: infer_schema.sample_rows(),
            ignore_errors,
            refine,
        },
    )
}

} // verus!
