//! Image identities: one slug, one of four variants, and the storage names that go with
//! them.

use vstd::prelude::*;
use crate::error::StoreError;
use crate::objpath::{child_of, encode_segment, path_part_of, safe_segment, ObjPath};
use crate::text::{chars_of, push_char};

verus! {

/// One stored variant of an image.
#[derive(Debug, Clone)]
pub enum Image {
    /// A vector image, stored alone.
    Svg { slug: String },
    /// The original of a raster image.
    Webp { slug: String },
    /// The medium-sized variant of a raster image.
    JpgMedium { slug: String },
    /// The thumbnail variant of a raster image.
    JpgThumbnail { slug: String },
}

pub open spec fn svg_ext() -> Seq<char> {
    seq!['s', 'v', 'g']
}

pub open spec fn webp_ext() -> Seq<char> {
    seq!['w', 'e', 'b', 'p']
}

pub open spec fn jpg_ext() -> Seq<char> {
    seq!['j', 'p', 'g']
}

pub open spec fn medium_word() -> Seq<char> {
    seq!['m', 'e', 'd', 'i', 'u', 'm']
}

pub open spec fn thumb_word() -> Seq<char> {
    seq!['t', 'h', 'u', 'm', 'b']
}

/// `a`, a dot, then `b`.
pub open spec fn dotted(a: Seq<char>, b: Seq<char>) -> Seq<char> {
    a.push('.') + b
}

/// The index of the last dot, or -1.
pub open spec fn last_dot(s: Seq<char>) -> int
    decreases s.len(),
{
    if s.len() == 0 {
        -1
    } else if s.last() == '.' {
        s.len() - 1
    } else {
        last_dot(s.drop_last())
    }
}

/// What comes before the last dot (nothing where there is none).
pub open spec fn before_dot(s: Seq<char>) -> Seq<char> {
    if last_dot(s) < 0 { Seq::empty() } else { s.subrange(0, last_dot(s)) }
}

/// What comes after the last dot (all of it where there is none).
pub open spec fn after_dot(s: Seq<char>) -> Seq<char> {
    s.subrange(last_dot(s) + 1, s.len() as int)
}

impl Image {
    pub open spec fn spec_slug(&self) -> String {
        match self {
            Image::Svg { slug } => *slug,
            Image::Webp { slug } => *slug,
            Image::JpgMedium { slug } => *slug,
            Image::JpgThumbnail { slug } => *slug,
        }
    }

    /// The variant's file name: `slug.svg`, `slug.webp`, `slug.medium.jpg` or
    /// `slug.thumb.jpg`.
    pub open spec fn file_name(&self) -> Seq<char> {
        match self {
            Image::Svg { slug } => dotted(slug@, svg_ext()),
            Image::Webp { slug } => dotted(slug@, webp_ext()),
            Image::JpgMedium { slug } => dotted(dotted(slug@, medium_word()), jpg_ext()),
            Image::JpgThumbnail { slug } => dotted(dotted(slug@, thumb_word()), jpg_ext()),
        }
    }

    pub open spec fn spec_original(&self) -> Image {
        match self {
            Image::Svg { slug } => Image::Svg { slug: *slug },
            Image::Webp { slug } => Image::Webp { slug: *slug },
            Image::JpgMedium { slug } => Image::Webp { slug: *slug },
            Image::JpgThumbnail { slug } => Image::Webp { slug: *slug },
        }
    }

    pub open spec fn spec_medium(&self) -> Image {
        match self {
            Image::Svg { slug } => Image::Svg { slug: *slug },
            Image::Webp { slug } => Image::JpgMedium { slug: *slug },
            Image::JpgMedium { slug } => Image::JpgMedium { slug: *slug },
            Image::JpgThumbnail { slug } => Image::JpgMedium { slug: *slug },
        }
    }

    pub open spec fn spec_thumbnail(&self) -> Image {
        match self {
            Image::Svg { slug } => Image::Svg { slug: *slug },
            Image::Webp { slug } => Image::JpgThumbnail { slug: *slug },
            Image::JpgMedium { slug } => Image::JpgThumbnail { slug: *slug },
            Image::JpgThumbnail { slug } => Image::JpgThumbnail { slug: *slug },
        }
    }

    /// The image's slug.
    pub fn slug(&self) -> (r: &String)
        ensures
            *r == self.spec_slug(),
    {
        match self {
            Image::Svg { slug } => slug,
            Image::Webp { slug } => slug,
            Image::JpgMedium { slug } => slug,
            Image::JpgThumbnail { slug } => slug,
        }
    }

    /// A copy of this identity.
    pub fn duplicate(&self) -> (r: Image)
        ensures
            r == *self,
    {
        match self {
            Image::Svg { slug } => Image::Svg { slug: slug.clone() },
            Image::Webp { slug } => Image::Webp { slug: slug.clone() },
            Image::JpgMedium { slug } => Image::JpgMedium { slug: slug.clone() },
            Image::JpgThumbnail { slug } => Image::JpgThumbnail { slug: slug.clone() },
        }
    }

    /// The original variant of the same image: an SVG stays itself, a raster variant
    /// becomes the WebP original.
    pub fn to_original(&self) -> (r: Image)
        ensures
            r == self.spec_original(),
    {
        match self {
            Image::Svg { slug } => Image::Svg { slug: slug.clone() },
            Image::Webp { slug } => Image::Webp { slug: slug.clone() },
            Image::JpgMedium { slug } => Image::Webp { slug: slug.clone() },
            Image::JpgThumbnail { slug } => Image::Webp { slug: slug.clone() },
        }
    }

    /// The medium variant of the same image; an SVG has no variants and stays itself.
    pub fn to_medium(&self) -> (r: Image)
        ensures
            r == self.spec_medium(),
    {
        match self {
            Image::Svg { slug } => Image::Svg { slug: slug.clone() },
            Image::Webp { slug } => Image::JpgMedium { slug: slug.clone() },
            Image::JpgMedium { slug } => Image::JpgMedium { slug: slug.clone() },
            Image::JpgThumbnail { slug } => Image::JpgMedium { slug: slug.clone() },
        }
    }

    /// The thumbnail variant of the same image; an SVG has no variants and stays itself.
    pub fn to_thumbnail(&self) -> (r: Image)
        ensures
            r == self.spec_thumbnail(),
    {
        match self {
            Image::Svg { slug } => Image::Svg { slug: slug.clone() },
            Image::Webp { slug } => Image::JpgThumbnail { slug: slug.clone() },
            Image::JpgMedium { slug } => Image::JpgThumbnail { slug: slug.clone() },
            Image::JpgThumbnail { slug } => Image::JpgThumbnail { slug: slug.clone() },
        }
    }

    pub open spec fn spec_content_type(&self) -> Seq<char> {
        match self {
            Image::Svg { .. } => "image/svg+xml"@,
            Image::Webp { .. } => "image/webp"@,
            Image::JpgMedium { .. } => "image/jpeg"@,
            Image::JpgThumbnail { .. } => "image/jpeg"@,
        }
    }

    /// The MIME type under which the variant's bytes are served.
    pub fn to_content_type(&self) -> (r: &'static str)
        ensures
            r@ == self.spec_content_type(),
    {
        match self {
            Image::Svg { .. } => "image/svg+xml",
            Image::Webp { .. } => "image/webp",
            Image::JpgMedium { .. } => "image/jpeg",
            Image::JpgThumbnail { .. } => "image/jpeg",
        }
    }

    /// The variant's file name as a storage segment.
    pub fn to_path_part(&self) -> (r: String)
        ensures
            r@ == path_part_of(self.file_name()),
            safe_segment(self.file_name()) ==> r@ == self.file_name(),
    {
        let mut name = self.slug().clone();
        match self {
            Image::Svg { .. } => {
                push_char(&mut name, '.');
                push_char(&mut name, 's');
                push_char(&mut name, 'v');
                push_char(&mut name, 'g');
            },
            Image::Webp { .. } => {
                push_char(&mut name, '.');
                push_char(&mut name, 'w');
                push_char(&mut name, 'e');
                push_char(&mut name, 'b');
                push_char(&mut name, 'p');
            },
            Image::JpgMedium { .. } => {
                push_char(&mut name, '.');
                push_char(&mut name, 'm');
                push_char(&mut name, 'e');
                push_char(&mut name, 'd');
                push_char(&mut name, 'i');
                push_char(&mut name, 'u');
                push_char(&mut name, 'm');
                push_char(&mut name, '.');
                push_char(&mut name, 'j');
                push_char(&mut name, 'p');
                push_char(&mut name, 'g');
            },
            Image::JpgThumbnail { .. } => {
                push_char(&mut name, '.');
                push_char(&mut name, 't');
                push_char(&mut name, 'h');
                push_char(&mut name, 'u');
                push_char(&mut name, 'm');
                push_char(&mut name, 'b');
                push_char(&mut name, '.');
                push_char(&mut name, 'j');
                push_char(&mut name, 'p');
                push_char(&mut name, 'g');
            },
        }
        assert(name@ =~= self.file_name());
        encode_segment(name.as_str())
    }

    /// The storage key of this variant under `parent`:
    /// `parent/images/<original file name>/<file name>`.
    pub fn resolve_full_path(&self, parent: &ObjPath) -> (r: ObjPath)
        ensures
            r@ == image_key(parent@, *self),
    {
        let original = self.to_original();
        parent.child("images").join_segment(original.to_path_part()).join_segment(self.to_path_part())
    }
}

/// A segment appended as it is; an empty one adds nothing.
pub open spec fn join_of(p: Seq<Seq<char>>, seg: Seq<char>) -> Seq<Seq<char>> {
    if seg.len() == 0 { p } else { p.push(seg) }
}

/// The directory that holds every variant of an image.
pub open spec fn image_dir(parent: Seq<Seq<char>>, img: Image) -> Seq<Seq<char>> {
    join_of(child_of(parent, "images"@), path_part_of(img.spec_original().file_name()))
}

/// The key of one variant of an image.
pub open spec fn image_key(parent: Seq<Seq<char>>, img: Image) -> Seq<Seq<char>> {
    join_of(image_dir(parent, img), path_part_of(img.file_name()))
}

impl ObjPath {
    /// This key with `seg` appended as it is, for a segment that is encoded already.
    pub fn join_segment(&self, seg: String) -> (r: ObjPath)
        ensures
            r@ == join_of(self@, seg@),
    {
        let mut parts = self.parts.clone();
        assert(parts@ == self.parts@);
        if seg.as_str().is_empty() {
            ObjPath { parts }
        } else {
            parts.push(seg);
            let r = ObjPath { parts };
            assert(r@ =~= self@.push(seg@));
            r
        }
    }
}

fn after_last_dot(cs: &Vec<char>, end: usize) -> (r: usize)
    requires
        end <= cs.len(),
    ensures
        r == last_dot(cs@.subrange(0, end as int)) + 1,
{
    let mut k: usize = end;
    while k > 0
        invariant
            k <= end <= cs.len(),
            last_dot(cs@.subrange(0, end as int)) == last_dot(cs@.subrange(0, k as int)),
        decreases k,
    {
        assert(cs@.subrange(0, k as int).drop_last() =~= cs@.subrange(0, k - 1));
        if cs[k - 1] == '.' {
            return k;
        }
        k = k - 1;
    }
    0
}

fn string_of(cs: &Vec<char>, from: usize, to: usize) -> (r: String)
    requires
        from <= to <= cs.len(),
    ensures
        r@ == cs@.subrange(from as int, to as int),
{
    let mut s = String::new();
    let mut i: usize = from;
    while i < to
        invariant
            from <= i <= to <= cs.len(),
            s@ == cs@.subrange(from as int, i as int),
        decreases to - i,
    {
        push_char(&mut s, cs[i]);
        assert(s@ =~= cs@.subrange(from as int, i + 1));
        i = i + 1;
    }
    s
}

fn range_is(cs: &Vec<char>, from: usize, to: usize, word: &str) -> (r: bool)
    requires
        from <= to <= cs.len(),
    ensures
        r == (cs@.subrange(from as int, to as int) == word@),
{
    let w = chars_of(word);
    if to - from != w.len() {
        return false;
    }
    let mut i: usize = 0;
    while i < w.len()
        invariant
            w@ == word@,
            to - from == w.len(),
            from <= to <= cs.len(),
            i <= w.len(),
            forall|j: int| 0 <= j < i ==> cs@[from + j] == w@[j],
        decreases w.len() - i,
    {
        if cs[from + i] != w[i] {
            assert(cs@.subrange(from as int, to as int)[i as int] != w@[i as int]);
            return false;
        }
        i = i + 1;
    }
    assert(cs@.subrange(from as int, to as int) =~= w@);
    true
}

/// The four kinds of stored variant.
#[derive(Clone, Copy, Debug, PartialEq, Eq, Structural)]
pub enum Variant {
    Svg,
    Webp,
    JpgMedium,
    JpgThumbnail,
}

impl Image {
    pub open spec fn spec_variant(&self) -> Variant {
        match self {
            Image::Svg { .. } => Variant::Svg,
            Image::Webp { .. } => Variant::Webp,
            Image::JpgMedium { .. } => Variant::JpgMedium,
            Image::JpgThumbnail { .. } => Variant::JpgThumbnail,
        }
    }
}

/// The variant and slug that a file name denotes: the extension after the last dot picks
/// the variant, and for `jpg` so does the word before the dot ahead of it, `medium` or
/// `thumb`; the slug is what comes before.
pub open spec fn parse_file_name(p: Seq<char>) -> Option<(Variant, Seq<char>)> {
    let ext = after_dot(p);
    let base = before_dot(p);
    if ext == svg_ext() {
        Some((Variant::Svg, base))
    } else if ext == webp_ext() {
        Some((Variant::Webp, base))
    } else if ext == jpg_ext() {
        if after_dot(base) == medium_word() {
            Some((Variant::JpgMedium, before_dot(base)))
        } else if after_dot(base) == thumb_word() {
            Some((Variant::JpgThumbnail, before_dot(base)))
        } else {
            None
        }
    } else {
        None
    }
}

impl Image {
    /// The variant that a storage segment names, or `InvalidImageVariant`.
    pub fn try_from_path_part(p: &str) -> (r: Result<Image, StoreError>)
        ensures
            match parse_file_name(p@) {
                Some((v, slug)) => r matches Ok(img) && img.spec_variant() == v && img.spec_slug()@ == slug,
                None => r matches Err(StoreError::InvalidImageVariant),
            },
    {
        proof {
            reveal_strlit("svg");
            reveal_strlit("webp");
            reveal_strlit("jpg");
            reveal_strlit("medium");
            reveal_strlit("thumb");
        }
        let cs = chars_of(p);
        let ext_from = after_last_dot(&cs, cs.len());
        assert(cs@.subrange(0, cs.len() as int) =~= p@);
        let base_end: usize = if ext_from == 0 { 0 } else { ext_from - 1 };
        proof {
            lemma_last_dot_range(p@);
        }
        let base = string_of(&cs, 0, base_end);
        assert(base@ =~= before_dot(p@));
        assert(cs@.subrange(ext_from as int, cs.len() as int) =~= after_dot(p@));
        assert("svg"@ =~= svg_ext());
        assert("webp"@ =~= webp_ext());
        assert("jpg"@ =~= jpg_ext());
        assert("medium"@ =~= medium_word());
        assert("thumb"@ =~= thumb_word());
        if range_is(&cs, ext_from, cs.len(), "svg") {
            Ok(Image::Svg { slug: base })
        } else if range_is(&cs, ext_from, cs.len(), "webp") {
            Ok(Image::Webp { slug: base })
        } else if range_is(&cs, ext_from, cs.len(), "jpg") {
            let word_from = after_last_dot(&cs, base_end);
            proof {
                lemma_last_dot_range(base@);
                assert(cs@.subrange(0, base_end as int) =~= base@);
            }
            let rest_end: usize = if word_from == 0 { 0 } else { word_from - 1 };
            let rest = string_of(&cs, 0, rest_end);
            assert(cs@.subrange(word_from as int, base_end as int) =~= after_dot(base@));
            assert(rest@ =~= before_dot(base@));
            if range_is(&cs, word_from, base_end, "medium") {
                Ok(Image::JpgMedium { slug: rest })
            } else if range_is(&cs, word_from, base_end, "thumb") {
                Ok(Image::JpgThumbnail { slug: rest })
            } else {
                Err(StoreError::InvalidImageVariant)
            }
        } else {
            Err(StoreError::InvalidImageVariant)
        }
    }
}

proof fn lemma_last_dot_range(s: Seq<char>)
    ensures
        -1 <= last_dot(s) < s.len(),
        last_dot(s) >= 0 ==> s[last_dot(s)] == '.',
    decreases s.len(),
{
    if s.len() > 0 && s.last() != '.' {
        lemma_last_dot_range(s.drop_last());
    }
}

proof fn lemma_dotted(a: Seq<char>, b: Seq<char>)
    requires
        forall|i: int| 0 <= i < b.len() ==> b[i] != '.',
    ensures
        last_dot(dotted(a, b)) == a.len(),
        before_dot(dotted(a, b)) == a,
        after_dot(dotted(a, b)) == b,
    decreases b.len(),
{
    let s = dotted(a, b);
    if b.len() == 0 {
        assert(s.last() == '.');
        assert(s.subrange(0, a.len() as int) =~= a);
        assert(s.subrange(a.len() as int + 1, s.len() as int) =~= b);
    } else {
        lemma_dotted(a, b.drop_last());
        assert(s.drop_last() =~= dotted(a, b.drop_last()));
        assert(s.last() == b.last());
        assert(s.subrange(0, a.len() as int) =~= a);
        assert(s.subrange(a.len() as int + 1, s.len() as int) =~= b);
    }
}

/// Reading back a variant's file name gives that variant and its slug, whatever the
/// slug holds.
pub proof fn lemma_file_name_round_trip(img: Image)
    ensures
        parse_file_name(img.file_name()) == Some((img.spec_variant(), img.spec_slug()@)),
{
    let slug = img.spec_slug()@;
    lemma_dotted(slug, svg_ext());
    lemma_dotted(slug, webp_ext());
    lemma_dotted(dotted(slug, medium_word()), jpg_ext());
    lemma_dotted(dotted(slug, thumb_word()), jpg_ext());
    lemma_dotted(slug, medium_word());
    lemma_dotted(slug, thumb_word());
    assert(svg_ext() != webp_ext());
    assert(svg_ext() != jpg_ext());
    assert(webp_ext() != jpg_ext());
    assert(medium_word() != thumb_word());
}

impl PartialEq for Image {
    fn eq(&self, other: &Image) -> (r: bool)
        ensures
            r == (self.spec_variant() == other.spec_variant() && self.spec_slug()@ == other.spec_slug()@),
    {
        self.variant() == other.variant() && *self.slug() == *other.slug()
    }
}

impl vstd::std_specs::cmp::PartialEqSpecImpl for Image {
    open spec fn obeys_eq_spec() -> bool {
        true
    }

    open spec fn eq_spec(&self, other: &Image) -> bool {
        self.spec_variant() == other.spec_variant() && self.spec_slug()@ == other.spec_slug()@
    }
}

impl Eq for Image {}

impl Image {
    /// Which of the four variants this is.
    pub fn variant(&self) -> (r: Variant)
        ensures
            r == self.spec_variant(),
    {
        match self {
            Image::Svg { .. } => Variant::Svg,
            Image::Webp { .. } => Variant::Webp,
            Image::JpgMedium { .. } => Variant::JpgMedium,
            Image::JpgThumbnail { .. } => Variant::JpgThumbnail,
        }
    }
}

impl Default for Image {
    fn default() -> (r: Image)
        ensures
            r.spec_variant() == Variant::Webp,
            r.spec_slug()@ == Seq::<char>::empty(),
    {
        Image::Webp { slug: String::new() }
    }
}

} // verus!
