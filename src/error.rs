//! The errors of the content store.

use vstd::prelude::*;
use crate::markdown::ConvertError;
use crate::text::{decimal, push_decimal, push_str};

verus! {

/// What is wrong with a slug.
#[derive(Clone, Copy, Debug, PartialEq, Eq, Structural)]
pub enum SlugProblem {
    /// Object storage does not accept it as a path segment.
    NotASegment,
    /// Its length in characters is outside the allowed range.
    Length,
    /// It is not exactly one token without whitespace.
    Whitespace,
}

/// Whether a slug names a post or an image.
#[derive(Clone, Copy, Debug, PartialEq, Eq, Structural)]
pub enum Entity {
    Post,
    Image,
}

/// An error of the content store.
#[derive(Clone, Debug)]
pub enum StoreError {
    /// A slug was rejected before anything was read or written.
    BadSlug { entity: Entity, problem: SlugProblem },
    /// A file name is not the name of an image variant.
    InvalidImageVariant,
    /// Nothing is stored under the given name.
    NotFound,
    /// An image with this slug exists already.
    SlugAlreadyExists,
    /// The upload is neither a raster image nor SVG.
    UnsupportedImageFormat,
    /// The upload is not well-formed SVG.
    BadSvg { reason: String },
    /// The upload holds no SVG element.
    EmptySvg,
    /// The post's content was rejected.
    Conversion { error: ConvertError },
    /// A metadata token could not be decoded.
    CorruptMetadata,
    /// A metadata token carries a version this library does not know.
    UnknownMetadataVersion { version: u32 },
    /// An image could not be encoded.
    EncodeFailed { reason: String },
    /// The storage backend failed.
    Storage { reason: String },
}

pub open spec fn entity_word(e: Entity) -> Seq<char> {
    match e {
        Entity::Post => "post"@,
        Entity::Image => "image"@,
    }
}

pub open spec fn problem_words(p: SlugProblem) -> Seq<char> {
    match p {
        SlugProblem::NotASegment => "not a valid path segment"@,
        SlugProblem::Length => "too short or too long"@,
        SlugProblem::Whitespace => "no spaces allowed"@,
    }
}

impl StoreError {
    pub open spec fn spec_message(&self) -> Seq<char> {
        match self {
            StoreError::BadSlug { entity, problem } =>
                "invalid "@ + entity_word(*entity) + " slug - "@ + problem_words(*problem),
            StoreError::InvalidImageVariant => "invalid image variant"@,
            StoreError::NotFound => "not found"@,
            StoreError::SlugAlreadyExists => "image slug already exists"@,
            StoreError::UnsupportedImageFormat => "unsupported image format"@,
            StoreError::BadSvg { reason } => "failed to read svg: "@ + reason@,
            StoreError::EmptySvg => "empty svg content"@,
            StoreError::Conversion { error } => error.spec_message(),
            StoreError::CorruptMetadata => "corrupt post metadata"@,
            StoreError::UnknownMetadataVersion { version } =>
                "unknown post metadata version "@ + decimal(*version as nat),
            StoreError::EncodeFailed { reason } => "failed to encode image: "@ + reason@,
            StoreError::Storage { reason } => reason@,
        }
    }

    /// The human-readable message.
    pub fn message(&self) -> (r: String)
        ensures
            r@ == self.spec_message(),
    {
        let mut s = String::new();
        match self {
            StoreError::BadSlug { entity, problem } => {
                push_str(&mut s, "invalid ");
                match entity {
                    Entity::Post => push_str(&mut s, "post"),
                    Entity::Image => push_str(&mut s, "image"),
                }
                push_str(&mut s, " slug - ");
                match problem {
                    SlugProblem::NotASegment => push_str(&mut s, "not a valid path segment"),
                    SlugProblem::Length => push_str(&mut s, "too short or too long"),
                    SlugProblem::Whitespace => push_str(&mut s, "no spaces allowed"),
                }
            },
            StoreError::InvalidImageVariant => push_str(&mut s, "invalid image variant"),
            StoreError::NotFound => push_str(&mut s, "not found"),
            StoreError::SlugAlreadyExists => push_str(&mut s, "image slug already exists"),
            StoreError::UnsupportedImageFormat => push_str(&mut s, "unsupported image format"),
            StoreError::BadSvg { reason } => {
                push_str(&mut s, "failed to read svg: ");
                push_str(&mut s, reason.as_str());
            },
            StoreError::EmptySvg => push_str(&mut s, "empty svg content"),
            StoreError::Conversion { error } => {
                let m = error.message();
                push_str(&mut s, m.as_str());
            },
            StoreError::CorruptMetadata => push_str(&mut s, "corrupt post metadata"),
            StoreError::UnknownMetadataVersion { version } => {
                push_str(&mut s, "unknown post metadata version ");
                push_decimal(&mut s, *version as usize);
            },
            StoreError::EncodeFailed { reason } => {
                push_str(&mut s, "failed to encode image: ");
                push_str(&mut s, reason.as_str());
            },
            StoreError::Storage { reason } => push_str(&mut s, reason.as_str()),
        }
        assert(s@ =~= self.spec_message());
        s
    }
}

} // verus!
