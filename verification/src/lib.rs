//! Turns a flat plain-text manuscript (typically a Chinese-language novel)
//! into heading-delimited, fully serialized XHTML section documents, ready to
//! be folded into an e-book package by an outside assembler.
//!
//! The pipeline: each raw line is trimmed and classified as a volume heading,
//! a chapter heading, or body text ([`classify`]); body text is sanitized
//! ([`sanitize`]); the segmentation engine ([`convert`]) groups body lines
//! under the most recent heading into sections and serializes each one as a
//! well-formed XHTML document ([`content`], [`markup`]).

pub mod classify;
pub mod content;
pub mod convert;
pub mod error;
pub mod markup;
pub mod sanitize;
pub mod text;
