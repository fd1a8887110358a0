use vstd::prelude::*;

verus! {

/// The errors that the format parser reports, with every payload held as a plain value.
/// `ParseFailure` stands for the parser library's internal failure, whose payload cannot
/// cross a runtime boundary; `IOError` carries the message of the underlying I/O failure.
#[derive(Debug)]
pub enum ParserError {
    EmptyError,
    InvalidFile,
    UnsupportedNetCDFVersion,
    UnsupportedListType(u32),
    NonZeroValue(u32),
    UnsupportedZeroListType,
    UTF8error,
    UnknownNetCDFType(usize),
    ParseFailure,
    IOError(String),
    NoVariablesInFile,
    NoDimensionsInFile,
    VariableNotFound(String),
    CouldNotFindDimension(String),
}

/// Boundary-safe form of a parser error: a closed set of variants with plain payloads.
#[derive(Debug)]
pub enum HeadScratcherErrorDef {
    EmptyError,
    InvalidFile,
    UnsupportedNetCDFVersion,
    UnsupportedListType(u32),
    NonZeroValue(u32),
    UnsupportedZeroListType,
    UTF8error,
    UnknownNetCDFType(usize),
    ParsingError,
    IOError(String),
    NoVariablesInFile,
    NoDimensionsInFile,
    VariableNotFound(String),
    CouldNotFindDimension(String),
}

/// The boundary-safe error that `e` maps to: one variant for each, payloads kept,
/// the internal parse failure collapsed to `ParsingError`.
pub open spec fn normalized(e: ParserError, r: HeadScratcherErrorDef) -> bool {
    match e {
        ParserError::EmptyError => r is EmptyError,
        ParserError::InvalidFile => r is InvalidFile,
        ParserError::UnsupportedNetCDFVersion => r is UnsupportedNetCDFVersion,
        ParserError::UnsupportedListType(l) => r == HeadScratcherErrorDef::UnsupportedListType(l),
        ParserError::NonZeroValue(v) => r == HeadScratcherErrorDef::NonZeroValue(v),
        ParserError::UnsupportedZeroListType => r is UnsupportedZeroListType,
        ParserError::UTF8error => r is UTF8error,
        ParserError::UnknownNetCDFType(t) => r == HeadScratcherErrorDef::UnknownNetCDFType(t),
        ParserError::ParseFailure => r is ParsingError,
        ParserError::IOError(m) => r is IOError && r->IOError_0@ == m@,
        ParserError::NoVariablesInFile => r is NoVariablesInFile,
        ParserError::NoDimensionsInFile => r is NoDimensionsInFile,
        ParserError::VariableNotFound(v) => r is VariableNotFound && r->VariableNotFound_0@ == v@,
        ParserError::CouldNotFindDimension(d) => r is CouldNotFindDimension
            && r->CouldNotFindDimension_0@ == d@,
    }
}

impl HeadScratcherErrorDef {
    /// Converts a parser error into its boundary-safe form. Total: every variant maps.
    pub fn from(err: ParserError) -> (r: HeadScratcherErrorDef)
        ensures
            normalized(err, r),
    {
        match err {
            ParserError::EmptyError => HeadScratcherErrorDef::EmptyError,
            ParserError::InvalidFile => HeadScratcherErrorDef::InvalidFile,
            ParserError::UnsupportedNetCDFVersion => HeadScratcherErrorDef::UnsupportedNetCDFVersion,
            ParserError::UnsupportedListType(l) => HeadScratcherErrorDef::UnsupportedListType(l),
            ParserError::NonZeroValue(v) => HeadScratcherErrorDef::NonZeroValue(v),
            ParserError::UnsupportedZeroListType => HeadScratcherErrorDef::UnsupportedZeroListType,
            ParserError::UTF8error => HeadScratcherErrorDef::UTF8error,
            ParserError::UnknownNetCDFType(t) => HeadScratcherErrorDef::UnknownNetCDFType(t),
            ParserError::ParseFailure => HeadScratcherErrorDef::ParsingError,
            ParserError::IOError(m) => HeadScratcherErrorDef::IOError(m),
            ParserError::NoVariablesInFile => HeadScratcherErrorDef::NoVariablesInFile,
            ParserError::NoDimensionsInFile => HeadScratcherErrorDef::NoDimensionsInFile,
            ParserError::VariableNotFound(v) => HeadScratcherErrorDef::VariableNotFound(v),
            ParserError::CouldNotFindDimension(d) => HeadScratcherErrorDef::CouldNotFindDimension(d),
        }
    }
}

} // verus!
