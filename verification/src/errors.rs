//! The failure taxonomy of the pipeline.
//!
//! Every failure of one poll or decode attempt is contained: a decode
//! failure spoils only that decode, a source failure only that poll, an
//! evaluation failure only that unit of work.

use vstd::prelude::*;
use vstd::string::*;
use crate::rule_types::{RuleType, rule_type_name};

verus! {

/// The structural ways a document can fail to decode, apart from the
/// scalar and rule-kind failures that carry their raw text.
#[derive(Debug, Clone, Copy, PartialEq, Eq, Structural)]
pub enum MalformedKind {
    /// The text ended inside markup.
    UnexpectedEnd,
    /// Markup that fits no construct (a stray `>`, an empty tag name, a
    /// malformed attribute).
    BadMarkup,
    /// An `&...;` reference in an attribute value that is not one of the
    /// five named references.
    BadEntity,
    /// A closing tag whose name differs from the open tag it closes.
    MismatchedTag,
    /// No root element.
    MissingRoot,
    /// The root element has no `ValidationRules` child.
    MissingValidationRules,
    /// The `ValidationRules` element has no `Groups` child.
    MissingGroups,
    /// A `ValidationRule` element has no `Rules` child.
    MissingRules,
    /// A `ValidationRulesGroup` element has no `Group` attribute, or an
    /// empty one.
    MissingGroupName,
    /// A `ValidationRule` element has no `Type` attribute.
    MissingType,
    /// A `ValidationRule` element has no `Enabled` attribute.
    MissingEnabled,
    /// An integer attribute whose text does not parse as one integer.
    BadInteger,
}

/// The fixed diagnostic text of each structural failure kind.
pub open spec fn kind_message(k: MalformedKind) -> Seq<char> {
    match k {
        MalformedKind::UnexpectedEnd => "unexpected end of document"@,
        MalformedKind::BadMarkup => "unrecognized markup"@,
        MalformedKind::BadEntity => "unknown character reference"@,
        MalformedKind::MismatchedTag => "closing tag does not match"@,
        MalformedKind::MissingRoot => "no root element"@,
        MalformedKind::MissingValidationRules => "no ValidationRules element"@,
        MalformedKind::MissingGroups => "no Groups element"@,
        MalformedKind::MissingRules => "no Rules element"@,
        MalformedKind::MissingGroupName => "no Group name"@,
        MalformedKind::MissingType => "no Type attribute"@,
        MalformedKind::MissingEnabled => "no Enabled attribute"@,
        MalformedKind::BadInteger => "invalid integer attribute"@,
    }
}

impl MalformedKind {
    /// The diagnostic text of this failure kind.
    pub fn message(&self) -> (r: String)
        ensures
            r@ == kind_message(*self),
    {
        match self {
            MalformedKind::UnexpectedEnd => "unexpected end of document".to_owned(),
            MalformedKind::BadMarkup => "unrecognized markup".to_owned(),
            MalformedKind::BadEntity => "unknown character reference".to_owned(),
            MalformedKind::MismatchedTag => "closing tag does not match".to_owned(),
            MalformedKind::MissingRoot => "no root element".to_owned(),
            MalformedKind::MissingValidationRules => "no ValidationRules element".to_owned(),
            MalformedKind::MissingGroups => "no Groups element".to_owned(),
            MalformedKind::MissingRules => "no Rules element".to_owned(),
            MalformedKind::MissingGroupName => "no Group name".to_owned(),
            MalformedKind::MissingType => "no Type attribute".to_owned(),
            MalformedKind::MissingEnabled => "no Enabled attribute".to_owned(),
            MalformedKind::BadInteger => "invalid integer attribute".to_owned(),
        }
    }
}

/// One failed decode attempt. The failure never outlives the attempt:
/// a watcher that holds a good snapshot keeps it.
#[derive(Debug, Clone)]
pub enum DecodeError {
    /// A `Type` attribute that names no kind of the registry; carries the
    /// raw name.
    UnknownRuleKind(String),
    /// A boolean attribute that is none of the accepted encodings; carries
    /// the raw text.
    InvalidBoolean(String),
    /// An integer-list attribute with an unparsable segment; carries the
    /// raw text and the offending segment.
    InvalidIntegerList(String, String),
    /// A structural failure; the offset is the character position where
    /// the failing construct starts, when the parser knows one.
    MalformedDocument { kind: MalformedKind, offset: Option<usize> },
}

/// The mathematical shape of a `DecodeError`.
pub ghost enum DecodeErrorV {
    UnknownRuleKind(Seq<char>),
    InvalidBoolean(Seq<char>),
    InvalidIntegerList(Seq<char>, Seq<char>),
    MalformedDocument { kind: MalformedKind, offset: Option<int> },
}

impl View for DecodeError {
    type V = DecodeErrorV;

    open spec fn view(&self) -> DecodeErrorV {
        match self {
            DecodeError::UnknownRuleKind(s) => DecodeErrorV::UnknownRuleKind(s@),
            DecodeError::InvalidBoolean(s) => DecodeErrorV::InvalidBoolean(s@),
            DecodeError::InvalidIntegerList(raw, seg) => DecodeErrorV::InvalidIntegerList(
                raw@,
                seg@,
            ),
            DecodeError::MalformedDocument { kind, offset } => DecodeErrorV::MalformedDocument {
                kind: *kind,
                offset: match offset {
                    Some(o) => Some(*o as int),
                    None => None,
                },
            },
        }
    }
}

/// One failed load attempt of the configuration source.
#[derive(Debug, Clone)]
pub enum SourceError {
    /// The backing store could not be read.
    Unavailable,
    /// The store was read but its content failed to decode.
    Malformed(DecodeError),
}

/// The mathematical shape of a `SourceError`.
pub ghost enum SourceErrorV {
    Unavailable,
    Malformed(DecodeErrorV),
}

impl View for SourceError {
    type V = SourceErrorV;

    open spec fn view(&self) -> SourceErrorV {
        match self {
            SourceError::Unavailable => SourceErrorV::Unavailable,
            SourceError::Malformed(e) => SourceErrorV::Malformed(e@),
        }
    }
}

/// A rule-level failure surfaced by the validation services.
#[derive(Debug, Clone)]
pub enum Error {
    /// A validation failure attributed to one rule kind.
    ValidationError(RuleType),
}

impl Error {
    /// The text a diagnostics sink shows for this error.
    pub fn display_string(&self) -> (r: String)
        ensures
            r@ == "ValidationError("@ + rule_type_name(self->ValidationError_0) + ")"@,
    {
        let Error::ValidationError(k) = self;
        let mut s = "ValidationError(".to_owned();
        s.append(k.to_name().as_str());
        s.append(")");
        s
    }
}

} // verus!
