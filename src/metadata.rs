//! Post metadata and its token: a versioned record, serialised with postcard and written
//! as URL-safe base64 without padding, so that it can stand as a storage segment.

use vstd::prelude::*;
use crate::error::StoreError;
use crate::objpath::{safe_char, safe_segment};
use base64::Engine;
use chrono::Datelike;

verus! {

/// The first year that a date may have.
pub const MIN_YEAR: i32 = -262143;

/// The last year that a date may have.
pub const MAX_YEAR: i32 = 262142;

pub open spec fn is_leap(y: int) -> bool {
    y % 4 == 0 && (y % 100 != 0 || y % 400 == 0)
}

pub open spec fn days_in_month(y: int, m: int) -> int {
    if m == 2 {
        if is_leap(y) { 29 } else { 28 }
    } else if m == 4 || m == 6 || m == 9 || m == 11 {
        30
    } else {
        31
    }
}

/// A day of the proleptic Gregorian calendar within the supported years.
pub open spec fn valid_date(y: int, m: int, d: int) -> bool {
    MIN_YEAR <= y <= MAX_YEAR && 1 <= m <= 12 && 1 <= d <= days_in_month(y, m)
}

/// Relies on chrono's `NaiveDate::from_ymd_opt`: a date exists exactly when the year is
/// in its range and the month and day name a day of the Gregorian calendar.
#[verifier::external_body]
fn ymd_exists(year: i32, month: u32, day: u32) -> (r: bool)
    ensures
        r == valid_date(year as int, month as int, day as int),
{
    chrono::NaiveDate::from_ymd_opt(year, month, day).is_some()
}

/// A calendar date.
#[derive(Clone, Copy, Debug, PartialEq, Eq, Structural)]
pub struct Date {
    pub year: i32,
    pub month: u32,
    pub day: u32,
}

impl Date {
    pub open spec fn valid(&self) -> bool {
        valid_date(self.year as int, self.month as int, self.day as int)
    }

    /// The date with this year, month and day, if there is one.
    pub fn from_ymd(year: i32, month: u32, day: u32) -> (r: Option<Date>)
        ensures
            r is Some <==> valid_date(year as int, month as int, day as int),
            r matches Some(d) ==> d.year == year && d.month == month && d.day == day,
    {
        if ymd_exists(year, month, day) {
            Some(Date { year, month, day })
        } else {
            None
        }
    }
}

/// The text that chrono writes for a date (`2024-01-02`).
pub uninterp spec fn date_text(year: i32, month: u32, day: u32) -> Seq<char>;

/// Relies on chrono's `Display` for `NaiveDate`: the ISO 8601 form of the date.
#[verifier::external_body]
fn format_date(d: Date) -> (r: String)
    requires
        d.valid(),
    ensures
        r@ == date_text(d.year, d.month, d.day),
{
    chrono::NaiveDate::from_ymd_opt(d.year, d.month, d.day).unwrap_or_default().to_string()
}

/// The date that chrono reads from a text, if any.
pub uninterp spec fn date_read(s: Seq<char>) -> Option<Date>;

/// Relies on chrono's `FromStr` for `NaiveDate`, which reads the form that its `Display`
/// writes: a date read is a valid one, and the text of a date reads back as that date.
#[verifier::external_body]
fn parse_date(s: &str) -> (r: Option<Date>)
    ensures
        r == date_read(s@),
        r matches Some(d) ==> d.valid(),
        forall|d: Date| d.valid() && s@ == date_text(d.year, d.month, d.day) ==> r == Some(d),
{
    s.parse::<chrono::NaiveDate>().ok().map(|d| Date { year: d.year(), month: d.month(), day: d.day() })
}

/// The bytes that postcard writes for a record of a version tag, a date's text, a title
/// and a flag.
pub uninterp spec fn postcard_bytes(version: u32, date: Seq<char>, title: Seq<char>, published: bool) -> Seq<u8>;

/// Relies on `postcard::to_allocvec` on a tuple `(u32, &str, &str, bool)`: the postcard
/// serialisation of the record. Serialising into an allocated vector does not fail, and
/// the record takes at least one byte per field.
#[verifier::external_body]
fn postcard_encode(version: u32, date: &str, title: &str, published: bool) -> (r: Vec<u8>)
    ensures
        r@ == postcard_bytes(version, date@, title@, published),
        r@.len() > 0,
{
    postcard::to_allocvec(&(version, date, title, published)).unwrap_or_default()
}

/// The record that postcard reads from some bytes as `(u32, String, String, bool)`, if any.
pub uninterp spec fn postcard_record(b: Seq<u8>) -> Option<(u32, Seq<char>, Seq<char>, bool)>;

/// Relies on `postcard::from_bytes` for `(u32, String, String, bool)`: the serialisation
/// of a record reads back as that record.
#[verifier::external_body]
fn postcard_decode(b: &[u8]) -> (r: Option<(u32, String, String, bool)>)
    ensures
        r is Some <==> postcard_record(b@) is Some,
        r is Some ==> postcard_record(b@) == Some((r->Some_0.0, r->Some_0.1@, r->Some_0.2@, r->Some_0.3)),
        forall|v: u32, d: Seq<char>, t: Seq<char>, p: bool| b@ == postcard_bytes(v, d, t, p) ==> r is Some && r->Some_0.0 == v && r->Some_0.1@ == d && r->Some_0.2@ == t && r->Some_0.3 == p,
{
    postcard::from_bytes::<(u32, String, String, bool)>(b).ok()
}

/// A character of the URL-safe base64 alphabet.
pub open spec fn url_safe_char(c: char) -> bool {
    ('A' <= c && c <= 'Z') || ('a' <= c && c <= 'z') || ('0' <= c && c <= '9') || c == '-' || c == '_'
}

/// The URL-safe base64 text of some bytes, without padding.
pub uninterp spec fn base64_text(b: Seq<u8>) -> Seq<char>;

/// Relies on base64's `URL_SAFE_NO_PAD` engine: its output uses only `A`-`Z`, `a`-`z`,
/// `0`-`9`, `-` and `_`.
#[verifier::external_body]
fn base64_encode(b: &[u8]) -> (r: String)
    ensures
        r@ == base64_text(b@),
        forall|i: int| 0 <= i < r@.len() ==> url_safe_char(#[trigger] r@[i]),
        b@.len() > 0 ==> r@.len() > 0,
{
    base64::engine::general_purpose::URL_SAFE_NO_PAD.encode(b)
}

/// The bytes that URL-safe base64 without padding reads from a text, if any.
pub uninterp spec fn base64_bytes(s: Seq<char>) -> Option<Seq<u8>>;

/// Relies on base64's `URL_SAFE_NO_PAD` engine: the encoding of some bytes decodes back
/// to them.
#[verifier::external_body]
fn base64_decode(s: &str) -> (r: Option<Vec<u8>>)
    ensures
        r is Some <==> base64_bytes(s@) is Some,
        r is Some ==> base64_bytes(s@) == Some(r->Some_0@),
        forall|b: Seq<u8>| s@ == base64_text(b) ==> r is Some && r->Some_0@ == b,
{
    base64::engine::general_purpose::URL_SAFE_NO_PAD.decode(s).ok()
}

/// Whether a post is visible to readers.
#[derive(Clone, Copy, Debug, PartialEq, Eq, Structural)]
pub struct IsPublished(pub bool);

impl From<IsPublished> for bool {
    fn from(p: IsPublished) -> (r: bool)
        ensures
            r == p.0,
    {
        p.0
    }
}

impl vstd::std_specs::convert::FromSpecImpl<IsPublished> for bool {
    open spec fn obeys_from_spec() -> bool {
        true
    }

    open spec fn from_spec(p: IsPublished) -> bool {
        p.0
    }
}

/// The version of the metadata record written today.
pub const METADATA_V1: u32 = 0;

/// A post's metadata, tagged with the version of its layout.
#[derive(Debug)]
pub enum PostMetadata {
    V1 { date: Date, title: String, published: IsPublished },
}

/// The metadata as plain values: date, title and flag.
pub struct MetadataView {
    pub date: Date,
    pub title: Seq<char>,
    pub published: bool,
}

impl View for PostMetadata {
    type V = MetadataView;

    open spec fn view(&self) -> MetadataView {
        match self {
            PostMetadata::V1 { date, title, published } =>
                MetadataView { date: *date, title: title@, published: published.0 },
        }
    }
}

/// A token is made of URL-safe base64 characters only, so object storage keeps it as it
/// is when it stands as a segment.
pub proof fn lemma_url_safe_is_segment(s: Seq<char>)
    requires
        forall|i: int| 0 <= i < s.len() ==> url_safe_char(#[trigger] s[i]),
    ensures
        safe_segment(s),
{
    assert forall|i: int| 0 <= i < s.len() implies safe_char(#[trigger] s[i]) by {
        assert(url_safe_char(s[i]));
    }
    if s == seq!['.'] {
        assert(url_safe_char(s[0]));
    }
    if s == seq!['.', '.'] {
        assert(url_safe_char(s[0]));
    }
}

/// The postcard record of some metadata: version tag, the date's text, title and flag.
pub open spec fn metadata_record(m: MetadataView) -> Seq<u8> {
    postcard_bytes(METADATA_V1, date_text(m.date.year, m.date.month, m.date.day), m.title, m.published)
}

/// The token of some metadata.
pub open spec fn metadata_token(m: MetadataView) -> Seq<char> {
    base64_text(metadata_record(m))
}

/// What reading a record gives: the metadata, or `CorruptMetadata` where postcard or the
/// date cannot be read, or `UnknownMetadataVersion` for a record of another version.
pub open spec fn record_outcome(b: Seq<u8>) -> Result<MetadataView, StoreError> {
    match postcard_record(b) {
        None => Err(StoreError::CorruptMetadata),
        Some((v, d, t, p)) => if v != METADATA_V1 {
            Err(StoreError::UnknownMetadataVersion { version: v })
        } else {
            match date_read(d) {
                Some(date) => Ok(MetadataView { date, title: t, published: p }),
                None => Err(StoreError::CorruptMetadata),
            }
        },
    }
}

/// What reading a token gives: `CorruptMetadata` where it is not base64, else what its
/// record gives.
pub open spec fn token_outcome(s: Seq<char>) -> Result<MetadataView, StoreError> {
    match base64_bytes(s) {
        None => Err(StoreError::CorruptMetadata),
        Some(b) => record_outcome(b),
    }
}

pub open spec fn outcome_is(r: Result<PostMetadata, StoreError>, o: Result<MetadataView, StoreError>) -> bool {
    match o {
        Ok(m) => r is Ok && r->Ok_0@ == m,
        Err(e) => r == Err::<PostMetadata, StoreError>(e),
    }
}

/// Serialises metadata with postcard.
pub fn metadata_bytes(m: &PostMetadata) -> (r: Vec<u8>)
    requires
        m@.date.valid(),
    ensures
        r@ == metadata_record(m@),
        r@.len() > 0,
{
    match m {
        PostMetadata::V1 { date, title, published } => {
            let date_str = format_date(*date);
            postcard_encode(METADATA_V1, date_str.as_str(), title.as_str(), published.0)
        },
    }
}

/// Reads metadata back from its postcard record, exactly as `record_outcome` says. The
/// record of some metadata reads back as that metadata.
pub fn metadata_from_bytes(b: &[u8]) -> (r: Result<PostMetadata, StoreError>)
    ensures
        outcome_is(r, record_outcome(b@)),
        r matches Ok(m) ==> m@.date.valid(),
        forall|m: MetadataView| m.date.valid() && b@ == metadata_record(m) ==> (r matches Ok(x) && x@ == m),
{
    let (version, date_str, title, published) = match postcard_decode(b) {
        Some(x) => x,
        None => return Err(StoreError::CorruptMetadata),
    };
    if version != METADATA_V1 {
        return Err(StoreError::UnknownMetadataVersion { version });
    }
    match parse_date(date_str.as_str()) {
        Some(date) => Ok(PostMetadata::V1 { date, title, published: IsPublished(published) }),
        None => Err(StoreError::CorruptMetadata),
    }
}

/// Encodes metadata as a token fit for a storage segment: its postcard record in URL-safe
/// base64 without padding.
pub fn encode_metadata(m: &PostMetadata) -> (r: String)
    requires
        m@.date.valid(),
    ensures
        r@ == metadata_token(m@),
        safe_segment(r@),
        r@.len() > 0,
{
    let bytes = metadata_bytes(m);
    let t = base64_encode(bytes.as_slice());
    proof {
        lemma_url_safe_is_segment(t@);
    }
    t
}

/// Decodes a token, exactly as `token_outcome` says. The token of some metadata decodes
/// to that metadata, so that decoding what was encoded gives the metadata back.
pub fn decode_metadata(token: &str) -> (r: Result<PostMetadata, StoreError>)
    ensures
        outcome_is(r, token_outcome(token@)),
        r matches Ok(m) ==> m@.date.valid(),
        forall|m: MetadataView| m.date.valid() && token@ == metadata_token(m)
            ==> (r matches Ok(x) && x@ == m),
{
    match base64_decode(token) {
        Some(bytes) => metadata_from_bytes(bytes.as_slice()),
        None => Err(StoreError::CorruptMetadata),
    }
}

} // verus!
