//! Fax errors and their texts.

use crate::text;
use crate::text::{decimal_of, from_chars, push_chars, push_str, to_chars};
use vstd::prelude::*;

verus! {

/// Page data that cannot be trusted.
#[derive(Debug, Clone, Copy, PartialEq, Eq, Structural)]
pub enum FaxPageDataError {
    TooShort { page_number: usize, decoded_rows: u32, minimum_rows: u32 },
    RowCountMismatch {
        page_number: usize,
        decoded_rows: u32,
        declared_rows: u32,
        difference: u32,
        allowed_difference: u32,
    },
}

/// Why a fax failed.
#[derive(Debug)]
pub enum FaxError {
    /// Posting to Discord failed.
    Discord(String),
    InvalidToken(String),
    Io { context: String, source: String },
    NonUtf8Path(String),
    SpanDsp { operation: String, detail: String },
    Tiff(String),
    CorruptPageData(FaxPageDataError),
    NoPages,
}

/// The text of a page data error.
pub open spec fn page_error_text(error: FaxPageDataError) -> Seq<char> {
    match error {
        FaxPageDataError::TooShort { page_number, decoded_rows, minimum_rows } => "TIFF page "@
            + text::decimal(page_number as nat) + " decoded only "@ + text::decimal(
            decoded_rows as nat,
        ) + " rows (minimum "@ + text::decimal(minimum_rows as nat) + ")"@,
        FaxPageDataError::RowCountMismatch {
            page_number,
            decoded_rows,
            declared_rows,
            difference,
            allowed_difference,
        } => "TIFF page "@ + text::decimal(page_number as nat) + " decoded "@ + text::decimal(
            decoded_rows as nat,
        ) + " rows, but TIFF declares "@ + text::decimal(declared_rows as nat) + " (difference "@
            + text::decimal(difference as nat) + ", allowed "@ + text::decimal(
            allowed_difference as nat,
        ) + ")"@,
    }
}

/// The text of a fax error. That of corrupt page data is the same for every
/// cause.
pub open spec fn fax_error_text(error: FaxError) -> Seq<char> {
    match error {
        FaxError::Discord(detail) => "Discord post failed: "@ + detail@,
        FaxError::InvalidToken(detail) => "invalid Discord bot token: "@ + detail@,
        FaxError::Io { context, source } => "fax I/O ("@ + context@ + "): "@ + source@,
        FaxError::NonUtf8Path(path) => "path is not valid UTF-8: "@ + path@,
        FaxError::SpanDsp { operation, detail } => "SpanDSP ("@ + operation@ + "): "@ + detail@,
        FaxError::Tiff(detail) => "TIFF decode: "@ + detail@,
        FaxError::CorruptPageData(_) => "Fax received with corrupt/incomplete page data"@,
        FaxError::NoPages => "no pages in received fax"@,
    }
}

impl FaxPageDataError {
    /// The error in words.
    pub fn message(&self) -> (out: String)
        ensures
            out@ == page_error_text(*self),
    {
        let mut out = to_chars("TIFF page ");
        match *self {
            FaxPageDataError::TooShort { page_number, decoded_rows, minimum_rows } => {
                push_chars(&mut out, &decimal_of(page_number as u64));
                push_str(&mut out, " decoded only ");
                push_chars(&mut out, &decimal_of(decoded_rows as u64));
                push_str(&mut out, " rows (minimum ");
                push_chars(&mut out, &decimal_of(minimum_rows as u64));
                push_str(&mut out, ")");
            },
            FaxPageDataError::RowCountMismatch {
                page_number,
                decoded_rows,
                declared_rows,
                difference,
                allowed_difference,
            } => {
                push_chars(&mut out, &decimal_of(page_number as u64));
                push_str(&mut out, " decoded ");
                push_chars(&mut out, &decimal_of(decoded_rows as u64));
                push_str(&mut out, " rows, but TIFF declares ");
                push_chars(&mut out, &decimal_of(declared_rows as u64));
                push_str(&mut out, " (difference ");
                push_chars(&mut out, &decimal_of(difference as u64));
                push_str(&mut out, ", allowed ");
                push_chars(&mut out, &decimal_of(allowed_difference as u64));
                push_str(&mut out, ")");
            },
        }
        from_chars(&out)
    }
}

impl FaxError {
    /// The error in words.
    pub fn message(&self) -> (out: String)
        ensures
            out@ == fax_error_text(*self),
    {
        let mut out: Vec<char> = Vec::new();
        match self {
            FaxError::Discord(detail) => {
                push_str(&mut out, "Discord post failed: ");
                push_str(&mut out, detail.as_str());
            },
            FaxError::InvalidToken(detail) => {
                push_str(&mut out, "invalid Discord bot token: ");
                push_str(&mut out, detail.as_str());
            },
            FaxError::Io { context, source } => {
                push_str(&mut out, "fax I/O (");
                push_str(&mut out, context.as_str());
                push_str(&mut out, "): ");
                push_str(&mut out, source.as_str());
            },
            FaxError::NonUtf8Path(path) => {
                push_str(&mut out, "path is not valid UTF-8: ");
                push_str(&mut out, path.as_str());
            },
            FaxError::SpanDsp { operation, detail } => {
                push_str(&mut out, "SpanDSP (");
                push_str(&mut out, operation.as_str());
                push_str(&mut out, "): ");
                push_str(&mut out, detail.as_str());
            },
            FaxError::Tiff(detail) => {
                push_str(&mut out, "TIFF decode: ");
                push_str(&mut out, detail.as_str());
            },
            FaxError::CorruptPageData(_) => {
                push_str(&mut out, "Fax received with corrupt/incomplete page data");
            },
            FaxError::NoPages => {
                push_str(&mut out, "no pages in received fax");
            },
        }
        assert(out@ =~= fax_error_text(*self));
        from_chars(&out)
    }
}

} // verus!
