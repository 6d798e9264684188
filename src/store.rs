//! The content store's layout and decisions. Posts and images live under a root key:
//!
//! ```text
//! <root>/posts/<slug>/content
//! <root>/posts/<slug>/props/<metadata token>
//! <root>/posts/<slug>/labels/<label>
//! <root>/images/<slug>.<ext>/<slug>.<ext>
//! <root>/images/<slug>.<ext>/<slug>.medium.jpg
//! <root>/images/<slug>.<ext>/<slug>.thumb.jpg
//! ```
//!
//! The functions here decide what to write, read back and delete; the storage calls are
//! made by the caller, in the order these functions describe.

use vstd::prelude::*;
use crate::error::{Entity, StoreError};
use crate::images::{image_dir, image_key, parse_file_name, Image, Variant};
use crate::markdown::{
    conv_run, convert, first_error, markdown_broken, markdown_events, markdown_html, strings_view, ConvertError,
    MARKDOWN_OPTIONS,
};
use crate::metadata::{decode_metadata, encode_metadata, metadata_token, Date, IsPublished, MetadataView, PostMetadata};
use crate::objpath::{child_of, path_part_of, safe_char, safe_segment, tail_of, path_tail, ObjPath};
use crate::slug::{slug_problem, validate_slug};
use crate::text::push_str;
use crate::variants::{derive_variants, upload_is, ImageUpload};
use itertools::Itertools;

verus! {

/// A post: its slug, metadata and labels.
#[derive(Debug)]
pub struct Post {
    pub date: Date,
    pub slug: String,
    pub title: String,
    pub published: bool,
    pub labels: Vec<String>,
}

impl Post {
    /// A post with only a slug and labels, as listed where its metadata is missing:
    /// dated 1970-01-01, with an empty title, unpublished.
    pub fn bare(slug: String, labels: Vec<String>) -> (r: Post)
        ensures
            r.slug == slug,
            r.labels == labels,
            r.date == (Date { year: 1970, month: 1, day: 1 }),
            r.title@ == Seq::<char>::empty(),
            !r.published,
    {
        Post { date: Date { year: 1970, month: 1, day: 1 }, slug, title: String::new(), published: false, labels }
    }

    /// The metadata record of this post.
    pub fn metadata(&self) -> (r: PostMetadata)
        ensures
            r@ == (MetadataView { date: self.date, title: self.title@, published: self.published }),
    {
        PostMetadata::V1 { date: self.date, title: self.title.clone(), published: IsPublished(self.published) }
    }
}

pub open spec fn posts_dir(root: Seq<Seq<char>>) -> Seq<Seq<char>> {
    child_of(root, "posts"@)
}

pub open spec fn images_dir(root: Seq<Seq<char>>) -> Seq<Seq<char>> {
    child_of(root, "images"@)
}

pub open spec fn post_dir(root: Seq<Seq<char>>, slug: Seq<char>) -> Seq<Seq<char>> {
    child_of(posts_dir(root), slug)
}

pub open spec fn content_key(root: Seq<Seq<char>>, slug: Seq<char>) -> Seq<Seq<char>> {
    child_of(post_dir(root, slug), "content"@)
}

pub open spec fn props_key(root: Seq<Seq<char>>, slug: Seq<char>, token: Seq<char>) -> Seq<Seq<char>> {
    child_of(child_of(post_dir(root, slug), "props"@), token)
}

pub open spec fn label_key(root: Seq<Seq<char>>, slug: Seq<char>, label: Seq<char>) -> Seq<Seq<char>> {
    child_of(child_of(post_dir(root, slug), "labels"@), label)
}

pub open spec fn paths_view(v: Seq<ObjPath>) -> Seq<Seq<Seq<char>>> {
    v.map_values(|p: ObjPath| p@)
}

/// The key under which every post lives.
pub fn posts_path(root: &ObjPath) -> (r: ObjPath)
    ensures
        r@ == posts_dir(root@),
{
    root.child("posts")
}

/// The key under which every image lives.
pub fn images_path(root: &ObjPath) -> (r: ObjPath)
    ensures
        r@ == images_dir(root@),
{
    root.child("images")
}

/// The key under which every key of a post lives.
pub fn post_path(root: &ObjPath, slug: &str) -> (r: ObjPath)
    ensures
        r@ == post_dir(root@, slug@),
{
    root.child("posts").child(slug)
}

/// The key of a post's content.
pub fn content_path(root: &ObjPath, slug: &str) -> (r: ObjPath)
    ensures
        r@ == content_key(root@, slug@),
{
    post_path(root, slug).child("content")
}

/// The key under which every variant of an image lives.
pub fn image_prefix(root: &ObjPath, img: &Image) -> (r: ObjPath)
    ensures
        r@ == image_dir(root@, *img),
{
    let original = img.to_original();
    root.child("images").join_segment(original.to_path_part())
}

/// The internal link targets of the images: original, medium and thumbnail variant of each.
pub open spec fn image_links(images: Seq<Image>) -> Seq<Seq<char>>
    decreases images.len(),
{
    if images.len() == 0 {
        Seq::empty()
    } else {
        let i = images.last();
        image_links(images.drop_last())
            + seq![
                "/images/"@ + path_part_of(i.spec_original().file_name()),
                "/images/"@ + path_part_of(i.spec_medium().file_name()),
                "/images/"@ + path_part_of(i.spec_thumbnail().file_name()),
            ]
    }
}

/// The internal link targets of the posts.
pub open spec fn post_links(posts: Seq<Post>) -> Seq<Seq<char>>
    decreases posts.len(),
{
    if posts.len() == 0 {
        Seq::empty()
    } else {
        post_links(posts.drop_last()).push("/posts/"@ + posts.last().slug@)
    }
}

/// The internal link targets that content may point at: `/images/<file name>` for every
/// variant of each image (original, medium, thumbnail), then `/posts/<slug>` for each post.
pub fn build_valid_links(posts: &Vec<Post>, images: &Vec<Image>) -> (r: Vec<String>)
    ensures
        strings_view(r@) == image_links(images@) + post_links(posts@),
{
    let mut out: Vec<String> = Vec::new();
    let mut i: usize = 0;
    while i < images.len()
        invariant
            i <= images.len(),
            strings_view(out@) == image_links(images@.take(i as int)),
        decreases images.len() - i,
    {
        let img = &images[i];
        let mut a = String::new();
        push_str(&mut a, "/images/");
        let pa = img.to_original().to_path_part();
        push_str(&mut a, pa.as_str());
        let mut b = String::new();
        push_str(&mut b, "/images/");
        let pb = img.to_medium().to_path_part();
        push_str(&mut b, pb.as_str());
        let mut c = String::new();
        push_str(&mut c, "/images/");
        let pc = img.to_thumbnail().to_path_part();
        push_str(&mut c, pc.as_str());
        let ghost before = out@;
        out.push(a);
        out.push(b);
        out.push(c);
        assert(images@.take(i + 1).drop_last() =~= images@.take(i as int));
        assert(strings_view(out@) =~= strings_view(before) + seq![a@, b@, c@]);
        i = i + 1;
    }
    assert(images@.take(images.len() as int) =~= images@);
    let ghost mid = strings_view(out@);
    let mut j: usize = 0;
    while j < posts.len()
        invariant
            j <= posts.len(),
            strings_view(out@) == mid + post_links(posts@.take(j as int)),
        decreases posts.len() - j,
    {
        let mut a = String::new();
        push_str(&mut a, "/posts/");
        push_str(&mut a, posts[j].slug.as_str());
        let ghost before = out@;
        out.push(a);
        assert(posts@.take(j + 1).drop_last() =~= posts@.take(j as int));
        assert(strings_view(out@) =~= strings_view(before).push(a@));
        j = j + 1;
    }
    assert(posts@.take(posts.len() as int) =~= posts@);
    out
}

/// What the conversion of a post's content reports, if anything.
pub open spec fn content_problem(content: Seq<char>, valid: Seq<Seq<char>>) -> Option<ConvertError> {
    first_error(
        conv_run(markdown_events(content, MARKDOWN_OPTIONS), valid),
        markdown_broken(content, MARKDOWN_OPTIONS),
    )
}

/// The rendered HTML of a post's content.
pub open spec fn content_html(content: Seq<char>, valid: Seq<Seq<char>>) -> Seq<char> {
    markdown_html(content, MARKDOWN_OPTIONS, conv_run(markdown_events(content, MARKDOWN_OPTIONS), valid).inline)
}

/// The table of contents of a post's content.
pub open spec fn content_toc(content: Seq<char>, valid: Seq<Seq<char>>) -> Seq<char> {
    conv_run(markdown_events(content, MARKDOWN_OPTIONS), valid).toc
}

/// The keys of a post's labels.
pub open spec fn label_keys(root: Seq<Seq<char>>, slug: Seq<char>, labels: Seq<Seq<char>>) -> Seq<Seq<Seq<char>>>
    decreases labels.len(),
{
    if labels.len() == 0 {
        Seq::empty()
    } else {
        label_keys(root, slug, labels.drop_last()).push(label_key(root, slug, labels.last()))
    }
}

proof fn lemma_fixed_segments()
    ensures
        safe_segment("content"@) && "content"@.len() > 0,
        safe_segment("props"@) && "props"@.len() > 0,
        safe_segment("labels"@) && "labels"@.len() > 0,
{
    reveal_strlit("content");
    reveal_strlit("props");
    reveal_strlit("labels");
    assert(safe_char('c') && safe_char('o') && safe_char('n') && safe_char('t') && safe_char('e'));
    assert(safe_char('p') && safe_char('r') && safe_char('s') && safe_char('l') && safe_char('a'));
    assert(safe_char('b'));
    assert("content"@.len() == 7);
    assert("props"@.len() == 5);
    assert("labels"@.len() == 6);
    assert(seq!['.'].len() == 1);
    assert(seq!['.', '.'].len() == 2);
    assert("content"@ != seq!['.'] && "content"@ != seq!['.', '.']);
    assert("props"@ != seq!['.'] && "props"@ != seq!['.', '.']);
    assert("labels"@ != seq!['.'] && "labels"@ != seq!['.', '.']);
}

/// What an upsert writes, and what it hands back, once the content has been accepted.
pub struct UpsertPlan {
    /// The rendered content.
    pub html: String,
    /// The table of contents.
    pub toc: String,
    /// The key under which all the post's keys live.
    pub post_dir: ObjPath,
    /// Where the raw content goes.
    pub content_key: ObjPath,
    /// The metadata token.
    pub token: String,
    /// The empty marker that holds the metadata.
    pub props_key: ObjPath,
    /// One empty marker per label.
    pub label_keys: Vec<ObjPath>,
}

/// Decides an upsert before anything is written: the slug is checked, then the content
/// is converted against the known targets, then the metadata is encoded and the keys are
/// laid out. A rejected slug or content leaves nothing to write.
pub fn prepare_upsert(root: &ObjPath, post: &Post, content: &str, valid: &Vec<String>) -> (r: Result<UpsertPlan, StoreError>)
    requires
        post.date.valid(),
    ensures
        ({
            let vv = strings_view(valid@);
            let m = MetadataView { date: post.date, title: post.title@, published: post.published };
            match slug_problem(post.slug@, Entity::Post) {
                Some(p) => r == Err::<UpsertPlan, StoreError>(StoreError::BadSlug { entity: Entity::Post, problem: p }),
                None => match content_problem(content@, vv) {
                    Some(e) => r == Err::<UpsertPlan, StoreError>(StoreError::Conversion { error: e }),
                    None => match r {
                        Ok(plan) => plan.html@ == content_html(content@, vv)
                            && plan.toc@ == content_toc(content@, vv)
                            && plan.post_dir@ == post_dir(root@, post.slug@)
                            && plan.content_key@ == content_key(root@, post.slug@)
                            && plan.token@ == metadata_token(m)
                            && plan.props_key@ == props_key(root@, post.slug@, metadata_token(m))
                            && paths_view(plan.label_keys@) == label_keys(root@, post.slug@, strings_view(post.labels@))
                            && plan.content_key@ == plan.post_dir@.push("content"@)
                            && plan.props_key@ == plan.post_dir@.push("props"@).push(plan.token@)
                            && (forall|i: int| 0 <= i < post.labels@.len() && safe_segment(post.labels@[i]@)
                                && post.labels@[i]@.len() > 0 ==> #[trigger] plan.label_keys@[i]@
                                == plan.post_dir@.push("labels"@).push(post.labels@[i]@)),
                        Err(_) => false,
                    },
                },
            }
        }),
{
    match validate_slug(post.slug.as_str(), Entity::Post) {
        Ok(()) => {},
        Err(e) => return Err(e),
    }
    let (html, toc) = match convert(content, valid) {
        Ok(x) => x,
        Err(e) => return Err(StoreError::Conversion { error: e }),
    };
    let token = encode_metadata(&post.metadata());
    proof {
        lemma_fixed_segments();
    }
    let dir = post_path(root, post.slug.as_str());
    let content_key = dir.child("content");
    let props_key = dir.child("props").child(token.as_str());
    let labels_dir = dir.child("labels");
    let mut keys: Vec<ObjPath> = Vec::new();
    let mut i: usize = 0;
    while i < post.labels.len()
        invariant
            i <= post.labels.len(),
            labels_dir@ == child_of(post_dir(root@, post.slug@), "labels"@),
            paths_view(keys@) == label_keys(root@, post.slug@, strings_view(post.labels@).take(i as int)),
            labels_dir@ == dir@.push("labels"@),
            keys@.len() == i,
            forall|j: int| 0 <= j < i && safe_segment(post.labels@[j]@) && post.labels@[j]@.len() > 0
                ==> #[trigger] keys@[j]@ == dir@.push("labels"@).push(post.labels@[j]@),
        decreases post.labels.len() - i,
    {
        let k = labels_dir.child(post.labels[i].as_str());
        let ghost before = keys@;
        keys.push(k);
        assert(strings_view(post.labels@).take(i + 1).drop_last() =~= strings_view(post.labels@).take(i as int));
        assert(paths_view(keys@) =~= paths_view(before).push(k@));
        assert(keys@[i as int] == k);
        i = i + 1;
    }
    assert(strings_view(post.labels@).take(post.labels.len() as int) =~= strings_view(post.labels@));
    Ok(UpsertPlan { html, toc, post_dir: dir, content_key, token, props_key, label_keys: keys })
}

/// Whether a key of a post, given by its segments below the post's directory, is left
/// over from an earlier version: a metadata marker with another token, or a label marker
/// for a label the post no longer has.
pub open spec fn is_stale(tail: Seq<Seq<char>>, token: Seq<char>, labels: Seq<Seq<char>>) -> bool {
    tail.len() >= 2 && ((tail[0] == "props"@ && tail[1] != token) || (tail[0] == "labels"@
        && !labels.contains(tail[1])))
}

/// The stale keys among `keys`, in their order.
pub open spec fn stale_of(
    keys: Seq<Seq<Seq<char>>>,
    dir: Seq<Seq<char>>,
    token: Seq<char>,
    labels: Seq<Seq<char>>,
) -> Seq<Seq<Seq<char>>>
    decreases keys.len(),
{
    if keys.len() == 0 {
        Seq::empty()
    } else {
        let rest = stale_of(keys.drop_last(), dir, token, labels);
        if is_stale(tail_of(keys.last(), dir), token, labels) {
            rest.push(keys.last())
        } else {
            rest
        }
    }
}

fn copy_path(p: &ObjPath) -> (r: ObjPath)
    ensures
        r@ == p@,
{
    let parts = p.parts.clone();
    assert(parts@ == p.parts@);
    ObjPath { parts }
}

fn contains_string(v: &Vec<String>, s: &String) -> (r: bool)
    ensures
        r == strings_view(v@).contains(s@),
{
    let mut i: usize = 0;
    while i < v.len()
        invariant
            i <= v.len(),
            forall|j: int| 0 <= j < i ==> strings_view(v@)[j] != s@,
        decreases v.len() - i,
    {
        if v[i] == *s {
            assert(strings_view(v@)[i as int] == s@);
            return true;
        }
        i = i + 1;
    }
    false
}

/// The keys to delete after an upsert wrote `token` and `labels` under `dir`: among the
/// keys listed under `dir`, those left over from an earlier version of the post.
pub fn stale_keys(dir: &ObjPath, listed: &Vec<ObjPath>, token: &String, labels: &Vec<String>) -> (r: Vec<ObjPath>)
    ensures
        paths_view(r@) == stale_of(paths_view(listed@), dir@, token@, strings_view(labels@)),
{
    let ghost lv = strings_view(labels@);
    let mut out: Vec<ObjPath> = Vec::new();
    let mut i: usize = 0;
    while i < listed.len()
        invariant
            i <= listed.len(),
            lv == strings_view(labels@),
            paths_view(out@) == stale_of(paths_view(listed@).take(i as int), dir@, token@, lv),
        decreases listed.len() - i,
    {
        let t = path_tail(&listed[i], dir);
        let mut stale = false;
        if t.parts.len() >= 2 {
            let sec = &t.parts[0];
            let k = &t.parts[1];
            let props = String::from_str("props");
            let lbls = String::from_str("labels");
            if *sec == props && *k != *token {
                stale = true;
            } else if *sec == lbls && !contains_string(labels, k) {
                stale = true;
            }
        }
        assert(paths_view(listed@).take(i + 1).drop_last() =~= paths_view(listed@).take(i as int));
        assert(paths_view(listed@).take(i + 1).last() == listed@[i as int]@);
        if stale {
            let ghost before = out@;
            let k = copy_path(&listed[i]);
            out.push(k);
            assert(paths_view(out@) =~= paths_view(before).push(k@));
        }
        i = i + 1;
    }
    assert(paths_view(listed@).take(listed.len() as int) =~= paths_view(listed@));
    out
}

/// Deleting everything under a prefix: with nothing listed the entity does not exist
/// (`NotFound`); otherwise every listed key goes.
pub fn keys_to_delete(listed: Vec<ObjPath>) -> (r: Result<Vec<ObjPath>, StoreError>)
    ensures
        listed.len() == 0 ==> r matches Err(StoreError::NotFound),
        listed.len() > 0 ==> r == Ok::<Vec<ObjPath>, StoreError>(listed),
{
    if listed.len() == 0 {
        Err(StoreError::NotFound)
    } else {
        Ok(listed)
    }
}

/// `a` comes strictly before `b` in lexicographic order of code points.
pub open spec fn text_lt(a: Seq<char>, b: Seq<char>) -> bool
    decreases a.len(),
{
    if a.len() == 0 {
        b.len() > 0
    } else if b.len() == 0 {
        false
    } else if a[0] != b[0] {
        a[0] < b[0]
    } else {
        text_lt(a.drop_first(), b.drop_first())
    }
}

pub open spec fn text_le(a: Seq<char>, b: Seq<char>) -> bool {
    a == b || text_lt(a, b)
}

/// Relies on itertools' `sorted` with std's `Ord` for `String`, which compares the UTF-8
/// bytes and so orders by code point: the same strings, in ascending order.
#[verifier::external_body]
fn sort_strings(v: Vec<String>) -> (r: Vec<String>)
    ensures
        strings_view(r@).to_multiset() == strings_view(v@).to_multiset(),
        forall|i: int, j: int| 0 <= i < j < r@.len() ==> text_le(r@[i]@, r@[j]@),
{
    v.into_iter().sorted().collect()
}

/// The label segments among `paths`: the segment after `labels` at depth `offset + 2`.
pub open spec fn label_segments(paths: Seq<Seq<Seq<char>>>, offset: int) -> Seq<Seq<char>>
    decreases paths.len(),
{
    if paths.len() == 0 {
        Seq::empty()
    } else {
        let rest = label_segments(paths.drop_last(), offset);
        let p = paths.last();
        if p.len() > offset + 3 && p[offset + 2] == "labels"@ {
            rest.push(p[offset + 3])
        } else {
            rest
        }
    }
}

/// The labels among `paths`, sorted.
pub fn labels_from_paths(paths: &Vec<ObjPath>, offset: usize) -> (r: Vec<String>)
    requires
        offset + 3 < usize::MAX,
    ensures
        strings_view(r@).to_multiset() == label_segments(paths_view(paths@), offset as int).to_multiset(),
        forall|i: int, j: int| 0 <= i < j < r@.len() ==> text_le(r@[i]@, r@[j]@),
{
    let mut found: Vec<String> = Vec::new();
    let mut i: usize = 0;
    while i < paths.len()
        invariant
            i <= paths.len(),
            offset + 3 < usize::MAX,
            strings_view(found@) == label_segments(paths_view(paths@).take(i as int), offset as int),
        decreases paths.len() - i,
    {
        let p = &paths[i];
        assert(paths_view(paths@).take(i + 1).drop_last() =~= paths_view(paths@).take(i as int));
        assert(paths_view(paths@).take(i + 1).last() == p@);
        if p.parts.len() > offset + 3 && p.parts[offset + 2] == String::from_str("labels") {
            let ghost before = found@;
            let l = p.parts[offset + 3].clone();
            found.push(l);
            assert(strings_view(found@) =~= strings_view(before).push(l@));
        }
        i = i + 1;
    }
    assert(paths_view(paths@).take(paths.len() as int) =~= paths_view(paths@));
    sort_strings(found)
}

/// The index of the first of `paths` with `props` at depth `offset + 2`, or -1.
pub open spec fn props_index(paths: Seq<Seq<Seq<char>>>, offset: int) -> int
    decreases paths.len(),
{
    if paths.len() == 0 {
        -1
    } else if props_index(paths.drop_last(), offset) >= 0 {
        props_index(paths.drop_last(), offset)
    } else if paths.last().len() > offset + 2 && paths.last()[offset + 2] == "props"@ {
        paths.len() - 1
    } else {
        -1
    }
}

proof fn lemma_props_index(paths: Seq<Seq<Seq<char>>>, offset: int)
    ensures
        -1 <= props_index(paths, offset) < paths.len(),
        props_index(paths, offset) >= 0 ==> paths[props_index(paths, offset)].len() > offset + 2
            && paths[props_index(paths, offset)][offset + 2] == "props"@,
        props_index(paths, offset) < 0 ==> forall|j: int| 0 <= j < paths.len()
            ==> !(paths[j].len() > offset + 2 && #[trigger] paths[j][offset + 2] == "props"@),
    decreases paths.len(),
{
    if paths.len() > 0 {
        lemma_props_index(paths.drop_last(), offset);
        if props_index(paths.drop_last(), offset) < 0 {
            assert forall|j: int| 0 <= j < paths.len() - 1 implies #[trigger] paths[j] == paths.drop_last()[j] by {}
        }
    }
}

/// What the metadata marker among `paths` says of a post: nothing where there is no
/// marker or it does not decode; the metadata whose token it carries otherwise. Where
/// several markers are listed, the first one counts.
pub open spec fn props_say(r: Option<MetadataView>, paths: Seq<Seq<Seq<char>>>, offset: int) -> bool {
    let k = props_index(paths, offset);
    &&& (r is Some ==> k >= 0 && paths[k].len() > offset + 3 && r->Some_0.date.valid())
    &&& (k >= 0 && paths[k].len() > offset + 3 ==> forall|m: MetadataView| m.date.valid()
        && paths[k][offset + 3] == metadata_token(m) ==> r == Some(m))
}

pub open spec fn meta_view(o: Option<PostMetadata>) -> Option<MetadataView> {
    match o {
        Some(m) => Some(m@),
        None => None,
    }
}

/// The metadata carried by the first metadata marker among `paths`, if it decodes.
pub fn props_from_paths(paths: &Vec<ObjPath>, offset: usize) -> (r: Option<PostMetadata>)
    requires
        offset + 3 < usize::MAX,
    ensures
        props_say(meta_view(r), paths_view(paths@), offset as int),
{
    let ghost pv = paths_view(paths@);
    let mut i: usize = 0;
    while i < paths.len()
        invariant
            i <= paths.len(),
            offset + 3 < usize::MAX,
            pv == paths_view(paths@),
            props_index(pv.take(i as int), offset as int) == -1,
        decreases paths.len() - i,
    {
        let p = &paths[i];
        assert(pv.take(i + 1).drop_last() =~= pv.take(i as int));
        if p.parts.len() > offset + 2 && p.parts[offset + 2] == String::from_str("props") {
            proof {
                lemma_props_index(pv, offset as int);
                lemma_props_prefix(pv, offset as int, i as int);
            }
            if p.parts.len() > offset + 3 {
                return match decode_metadata(p.parts[offset + 3].as_str()) {
                    Ok(m) => Some(m),
                    Err(_) => None,
                };
            } else {
                return None;
            }
        }
        i = i + 1;
    }
    assert(pv.take(paths.len() as int) =~= pv);
    None
}

proof fn lemma_props_prefix(paths: Seq<Seq<Seq<char>>>, offset: int, i: int)
    requires
        0 <= i < paths.len(),
        props_index(paths.take(i), offset) == -1,
        paths[i].len() > offset + 2 && paths[i][offset + 2] == "props"@,
    ensures
        props_index(paths, offset) == i,
    decreases paths.len(),
{
    if paths.len() - 1 == i {
        assert(paths.drop_last() =~= paths.take(i));
    } else {
        assert(paths.drop_last().take(i) =~= paths.take(i));
        lemma_props_prefix(paths.drop_last(), offset, i);
    }
}

pub open spec fn bare_meta() -> MetadataView {
    MetadataView { date: Date { year: 1970, month: 1, day: 1 }, title: Seq::empty(), published: false }
}

pub open spec fn post_meta(p: Post) -> MetadataView {
    MetadataView { date: p.date, title: p.title@, published: p.published }
}

/// What a post read back from its keys holds: its slug, its labels sorted, and the
/// metadata of its marker, or the defaults of a bare post where that says nothing.
pub open spec fn post_read(p: Post, slug: Seq<char>, paths: Seq<Seq<Seq<char>>>) -> bool {
    &&& p.slug@ == slug
    &&& strings_view(p.labels@).to_multiset() == label_segments(paths, 0).to_multiset()
    &&& (forall|i: int, j: int| 0 <= i < j < p.labels@.len() ==> text_le(p.labels@[i]@, p.labels@[j]@))
    &&& exists|o: Option<MetadataView>| props_say(o, paths, 0) && post_meta(p) == match o {
        Some(m) => m,
        None => bare_meta(),
    }
}

/// Rebuilds a post from the keys listed under it, given relative to the store's root.
pub fn post_from_paths(slug: String, paths: &Vec<ObjPath>) -> (r: Post)
    ensures
        post_read(r, slug@, paths_view(paths@)),
{
    let labels = labels_from_paths(paths, 0);
    let meta = props_from_paths(paths, 0);
    let ghost o = meta_view(meta);
    match meta {
        Some(PostMetadata::V1 { date, title, published }) => {
            let r = Post { date, slug, title, published: published.into(), labels };
            assert(post_meta(r) == o->Some_0);
            r
        },
        None => Post::bare(slug, labels),
    }
}

/// The keys of a listing, relative to `root`.
pub fn tails_of(listed: &Vec<ObjPath>, root: &ObjPath) -> (r: Vec<ObjPath>)
    ensures
        r@.len() == listed@.len(),
        forall|i: int| 0 <= i < r@.len() ==> #[trigger] r@[i]@ == tail_of(listed@[i]@, root@),
{
    let mut out: Vec<ObjPath> = Vec::new();
    let mut i: usize = 0;
    while i < listed.len()
        invariant
            i <= listed.len(),
            out@.len() == i,
            forall|j: int| 0 <= j < i ==> #[trigger] out@[j]@ == tail_of(listed@[j]@, root@),
        decreases listed.len() - i,
    {
        out.push(path_tail(&listed[i], root));
        i = i + 1;
    }
    out
}

/// The slugs of the posts among `paths` (relative to the root), in order of first
/// appearance, each once.
pub open spec fn slug_order(paths: Seq<Seq<Seq<char>>>) -> Seq<Seq<char>>
    decreases paths.len(),
{
    if paths.len() == 0 {
        Seq::empty()
    } else {
        let rest = slug_order(paths.drop_last());
        let p = paths.last();
        if p.len() >= 2 && !rest.contains(p[1]) { rest.push(p[1]) } else { rest }
    }
}

/// The keys among `paths` that belong to the post `slug`, in order.
pub open spec fn group_of(paths: Seq<Seq<Seq<char>>>, slug: Seq<char>) -> Seq<Seq<Seq<char>>>
    decreases paths.len(),
{
    if paths.len() == 0 {
        Seq::empty()
    } else {
        let rest = group_of(paths.drop_last(), slug);
        let p = paths.last();
        if p.len() >= 2 && p[1] == slug { rest.push(p) } else { rest }
    }
}

/// The posts among the keys listed under the posts directory, relative to the root: one
/// per slug, in order of first appearance, each rebuilt from its own keys. A slug without
/// metadata is listed too, as a bare post.
pub fn posts_from_paths(paths: &Vec<ObjPath>) -> (r: Vec<Post>)
    ensures
        r@.len() == slug_order(paths_view(paths@)).len(),
        forall|i: int| 0 <= i < r@.len() ==> post_read(
            #[trigger] r@[i],
            slug_order(paths_view(paths@))[i],
            group_of(paths_view(paths@), slug_order(paths_view(paths@))[i]),
        ),
{
    let ghost pv = paths_view(paths@);
    let mut slugs: Vec<String> = Vec::new();
    let mut i: usize = 0;
    while i < paths.len()
        invariant
            i <= paths.len(),
            pv == paths_view(paths@),
            strings_view(slugs@) == slug_order(pv.take(i as int)),
        decreases paths.len() - i,
    {
        let p = &paths[i];
        assert(pv.take(i + 1).drop_last() =~= pv.take(i as int));
        assert(pv.take(i + 1).last() == p@);
        if p.parts.len() >= 2 && !contains_string(&slugs, &p.parts[1]) {
            let ghost before = slugs@;
            let sl = p.parts[1].clone();
            slugs.push(sl);
            assert(strings_view(slugs@) =~= strings_view(before).push(sl@));
        }
        i = i + 1;
    }
    assert(pv.take(paths.len() as int) =~= pv);
    let ghost order = slug_order(pv);
    let mut posts: Vec<Post> = Vec::new();
    let mut k: usize = 0;
    while k < slugs.len()
        invariant
            k <= slugs.len(),
            pv == paths_view(paths@),
            strings_view(slugs@) == order,
            posts@.len() == k,
            forall|j: int| 0 <= j < k ==> post_read(#[trigger] posts@[j], order[j], group_of(pv, order[j])),
        decreases slugs.len() - k,
    {
        let slug = &slugs[k];
        let mut group: Vec<ObjPath> = Vec::new();
        let mut i: usize = 0;
        while i < paths.len()
            invariant
                i <= paths.len(),
                pv == paths_view(paths@),
                paths_view(group@) == group_of(pv.take(i as int), slug@),
            decreases paths.len() - i,
        {
            let p = &paths[i];
            assert(pv.take(i + 1).drop_last() =~= pv.take(i as int));
            assert(pv.take(i + 1).last() == p@);
            if p.parts.len() >= 2 && p.parts[1] == *slug {
                let ghost before = group@;
                let c = copy_path(p);
                group.push(c);
                assert(paths_view(group@) =~= paths_view(before).push(c@));
            }
            i = i + 1;
        }
        assert(pv.take(paths.len() as int) =~= pv);
        assert(strings_view(slugs@)[k as int] == slug@);
        let post = post_from_paths(slug.clone(), &group);
        posts.push(post);
        k = k + 1;
    }
    posts
}

/// The image that a key names: its last two segments must be the same file name, that of
/// an original, and it must name a variant.
pub open spec fn key_image(key: Seq<Seq<char>>) -> Option<(Variant, Seq<char>)> {
    if key.len() >= 2 && key[key.len() - 1] == key[key.len() - 2] {
        parse_file_name(key.last())
    } else {
        None
    }
}

pub open spec fn image_view(img: Image) -> (Variant, Seq<char>) {
    (img.spec_variant(), img.spec_slug()@)
}

/// The images named by the keys, taken in the given order of indices.
pub open spec fn images_in(keys: Seq<Seq<Seq<char>>>, order: Seq<usize>) -> Seq<(Variant, Seq<char>)>
    decreases order.len(),
{
    if order.len() == 0 {
        Seq::empty()
    } else {
        let rest = images_in(keys, order.drop_last());
        match key_image(keys[order.last() as int]) {
            Some(x) => rest.push(x),
            None => rest,
        }
    }
}

/// An order of the indices of `times` that puts the newest first, keeping the listed order
/// among equal times.
pub open spec fn newest_first_order(order: Seq<usize>, times: Seq<i64>) -> bool {
    &&& order.len() == times.len()
    &&& forall|i: int| 0 <= i < order.len() ==> #[trigger] order[i] < times.len()
    &&& forall|i: int, j: int| 0 <= i < j < order.len() ==> order[i] != order[j]
    &&& forall|i: int, j: int| 0 <= i < j < order.len() ==> times[order[i] as int] > times[order[j] as int]
        || (times[order[i] as int] == times[order[j] as int] && order[i] < order[j])
}

/// How two modification times order when the newest comes first.
pub fn newer_first(a: i64, b: i64) -> (r: std::cmp::Ordering)
    ensures
        r == (if a > b {
            std::cmp::Ordering::Less
        } else if a < b {
            std::cmp::Ordering::Greater
        } else {
            std::cmp::Ordering::Equal
        }),
{
    if a > b {
        std::cmp::Ordering::Less
    } else if a < b {
        std::cmp::Ordering::Greater
    } else {
        std::cmp::Ordering::Equal
    }
}

/// Relies on itertools' `sorted_by`, a stable sort, with `newer_first` on the times: the
/// indices of `times`, newest first, equal times in index order.
#[verifier::external_body]
fn newest_first(times: &Vec<i64>) -> (r: Vec<usize>)
    ensures
        newest_first_order(r@, times@),
{
    (0..times.len()).sorted_by(|a, b| newer_first(times[*a], times[*b])).collect()
}

/// The images named by the keys at the given indices, in that order; keys that name no
/// original variant are skipped.
pub fn images_in_order(listed: &Vec<ObjPath>, order: &Vec<usize>) -> (r: Vec<Image>)
    requires
        forall|i: int| 0 <= i < order@.len() ==> #[trigger] order@[i] < listed@.len(),
    ensures
        r@.map_values(|img: Image| image_view(img)) == images_in(paths_view(listed@), order@),
{
    let ghost pv = paths_view(listed@);
    let mut out: Vec<Image> = Vec::new();
    let mut i: usize = 0;
    while i < order.len()
        invariant
            i <= order.len(),
            pv == paths_view(listed@),
            forall|j: int| 0 <= j < order@.len() ==> #[trigger] order@[j] < listed@.len(),
            out@.map_values(|img: Image| image_view(img)) == images_in(pv, order@.take(i as int)),
        decreases order.len() - i,
    {
        let key = &listed[order[i]];
        let n = key.parts.len();
        assert(order@.take(i + 1).drop_last() =~= order@.take(i as int));
        assert(pv[order@[i as int] as int] == key@);
        if n >= 2 && key.parts[n - 1] == key.parts[n - 2] {
            match Image::try_from_path_part(key.parts[n - 1].as_str()) {
                Ok(img) => {
                    let ghost before = out@;
                    out.push(img);
                    assert(out@.map_values(|img: Image| image_view(img)) =~= before.map_values(
                        |img: Image| image_view(img),
                    ).push(image_view(img)));
                },
                Err(_) => {},
            }
        }
        i = i + 1;
    }
    assert(order@.take(order.len() as int) =~= order@);
    out
}

/// The images among the keys listed under the images directory, with their modification
/// times: newest first, one per original variant.
pub fn images_from_listing(listed: &Vec<ObjPath>, times: &Vec<i64>) -> (r: Vec<Image>)
    requires
        listed@.len() == times@.len(),
    ensures
        exists|order: Seq<usize>| newest_first_order(order, times@)
            && r@.map_values(|img: Image| image_view(img)) == images_in(paths_view(listed@), order),
{
    let order = newest_first(times);
    images_in_order(listed, &order)
}

/// One blob to store under one key.
#[derive(Debug)]
pub struct BlobWrite {
    pub key: ObjPath,
    pub bytes: Vec<u8>,
}

pub open spec fn writes_view(v: Seq<BlobWrite>) -> Seq<(Seq<Seq<char>>, Seq<u8>)> {
    v.map_values(|w: BlobWrite| (w.key@, w.bytes@))
}

/// Checks an image's slug, then makes the variants of the upload.
pub fn prepare_image(slug: &str, raw: &[u8]) -> (r: Result<ImageUpload, StoreError>)
    ensures
        match slug_problem(slug@, Entity::Image) {
            Some(p) => r == Err::<ImageUpload, StoreError>(StoreError::BadSlug { entity: Entity::Image, problem: p }),
            None => upload_is(r, raw@),
        },
{
    match validate_slug(slug, Entity::Image) {
        Ok(()) => {},
        Err(e) => return Err(e),
    }
    derive_variants(raw)
}

/// The original variant that an upload is stored as: the SVG itself, or the WebP original.
pub fn upload_identity(slug: &str, upload: &ImageUpload) -> (r: Image)
    ensures
        r.spec_slug()@ == slug@,
        upload is Svg ==> r is Svg,
        upload is Raster ==> r is Webp,
{
    match upload {
        ImageUpload::Svg { .. } => Image::Svg { slug: String::from_str(slug) },
        ImageUpload::Raster { .. } => Image::Webp { slug: String::from_str(slug) },
    }
}

/// The keys of the two possible originals under a slug, SVG then WebP: an image's slug is
/// taken where either exists.
pub fn original_keys(root: &ObjPath, slug: &str) -> (r: Vec<ObjPath>)
    ensures
        r@.len() == 2,
        forall|img: Image| #![trigger image_key(root@, img)] img.spec_slug()@ == slug@ && img is Svg
            ==> r@[0]@ == image_key(root@, img),
        forall|img: Image| #![trigger image_key(root@, img)] img.spec_slug()@ == slug@ && img is Webp
            ==> r@[1]@ == image_key(root@, img),
{
    let svg = Image::Svg { slug: String::from_str(slug) };
    let webp = Image::Webp { slug: String::from_str(slug) };
    let mut r: Vec<ObjPath> = Vec::new();
    r.push(svg.resolve_full_path(root));
    r.push(webp.resolve_full_path(root));
    r
}

/// The writes that store an upload whose original is `original`, unless the slug is taken
/// by an image of either kind (`SlugAlreadyExists`, and nothing is written). An SVG is one blob; a
/// raster image is its original, medium and thumbnail, all under one directory.
pub fn image_writes(root: &ObjPath, original: &Image, upload: ImageUpload, slug_taken: bool) -> (r: Result<Vec<BlobWrite>, StoreError>)
    requires
        upload is Svg ==> original is Svg,
        upload is Raster ==> original is Webp,
    ensures
        slug_taken ==> r matches Err(StoreError::SlugAlreadyExists),
        !slug_taken ==> (r matches Ok(w) && match upload {
            ImageUpload::Svg { original: o } => writes_view(w@) == seq![(image_key(root@, *original), o@)],
            ImageUpload::Raster { original: o, medium: m, thumbnail: t } => writes_view(w@) == seq![
                (image_key(root@, *original), o@),
                (image_key(root@, original.spec_medium()), m@),
                (image_key(root@, original.spec_thumbnail()), t@),
            ],
        }),
{
    if slug_taken {
        return Err(StoreError::SlugAlreadyExists);
    }
    let mut out: Vec<BlobWrite> = Vec::new();
    match upload {
        ImageUpload::Svg { original: o } => {
            out.push(BlobWrite { key: original.resolve_full_path(root), bytes: o });
        },
        ImageUpload::Raster { original: o, medium: m, thumbnail: t } => {
            out.push(BlobWrite { key: original.resolve_full_path(root), bytes: o });
            out.push(BlobWrite { key: original.to_medium().resolve_full_path(root), bytes: m });
            out.push(BlobWrite { key: original.to_thumbnail().resolve_full_path(root), bytes: t });
        },
    }
    assert(writes_view(out@) =~= match upload {
        ImageUpload::Svg { original: o } => seq![(image_key(root@, *original), o@)],
        ImageUpload::Raster { original: o, medium: m, thumbnail: t } => seq![
            (image_key(root@, *original), o@),
            (image_key(root@, original.spec_medium()), m@),
            (image_key(root@, original.spec_thumbnail()), t@),
        ],
    });
    Ok(out)
}

/// The pieces of `text` between commas, in order, without the empty ones.
pub open spec fn comma_pieces(text: Seq<char>) -> Seq<Seq<char>>
    decreases text.len(),
{
    comma_pieces_from(text, Seq::empty())
}

/// The pieces of `text`, where `cur` is the piece read so far before it.
pub open spec fn comma_pieces_from(text: Seq<char>, cur: Seq<char>) -> Seq<Seq<char>>
    decreases text.len(),
{
    if text.len() == 0 {
        if cur.len() > 0 { seq![cur] } else { Seq::empty() }
    } else if text[0] == ',' {
        let rest = comma_pieces_from(text.drop_first(), Seq::empty());
        if cur.len() > 0 { seq![cur] + rest } else { rest }
    } else {
        comma_pieces_from(text.drop_first(), cur.push(text[0]))
    }
}

/// The labels typed into a form as one comma-separated field; empty pieces are dropped.
pub fn labels_from_form(text: &str) -> (r: Vec<String>)
    ensures
        strings_view(r@) == comma_pieces(text@),
{
    let cs = crate::text::chars_of(text);
    let mut out: Vec<String> = Vec::new();
    let mut cur = String::new();
    let mut i: usize = 0;
    assert(cs@.subrange(0, cs.len() as int) =~= text@);
    assert(strings_view(out@) + comma_pieces_from(text@, cur@) =~= comma_pieces(text@));
    while i < cs.len()
        invariant
            cs@ == text@,
            i <= cs.len(),
            strings_view(out@) + comma_pieces_from(cs@.subrange(i as int, cs.len() as int), cur@) == comma_pieces(text@),
        decreases cs.len() - i,
    {
        let ghost rest = cs@.subrange(i as int, cs.len() as int);
        assert(rest.drop_first() =~= cs@.subrange(i + 1, cs.len() as int));
        if cs[i] == ',' {
            if !cur.as_str().is_empty() {
                let ghost before = out@;
                out.push(cur);
                assert(strings_view(out@) =~= strings_view(before).push(cur@));
                cur = String::new();
                assert(strings_view(out@) + comma_pieces_from(rest.drop_first(), cur@) =~= strings_view(before) + (seq![strings_view(out@).last()] + comma_pieces_from(rest.drop_first(), Seq::empty())));
            } else {
                cur = String::new();
            }
        } else {
            crate::text::push_char(&mut cur, cs[i]);
        }
        i = i + 1;
    }
    assert(cs@.subrange(cs.len() as int, cs.len() as int) =~= Seq::<char>::empty());
    if !cur.as_str().is_empty() {
        let ghost before = out@;
        out.push(cur);
        assert(strings_view(out@) =~= strings_view(before).push(cur@));
        assert(strings_view(out@) =~= strings_view(before) + seq![cur@]);
    } else {
        assert(strings_view(out@) =~= strings_view(out@) + Seq::<Seq<char>>::empty());
    }
    out
}

/// The posts readers may see: the published ones, and with a label filter only those
/// that carry the label; the order is kept.
pub open spec fn visible(p: Post, label: Option<Seq<char>>) -> bool {
    p.published && match label {
        Some(l) => strings_view(p.labels@).contains(l),
        None => true,
    }
}

pub open spec fn visible_of(posts: Seq<Post>, label: Option<Seq<char>>) -> Seq<Post>
    decreases posts.len(),
{
    if posts.len() == 0 {
        Seq::empty()
    } else {
        let rest = visible_of(posts.drop_last(), label);
        if visible(posts.last(), label) { rest.push(posts.last()) } else { rest }
    }
}

/// Keeps the posts readers may see, in order.
pub fn visible_posts(posts: Vec<Post>, label: Option<&String>) -> (r: Vec<Post>)
    ensures
        r@ == visible_of(posts@, match label {
            Some(l) => Some(l@),
            None => None,
        }),
{
    let ghost lv = match label {
        Some(l) => Some(l@),
        None => None,
    };
    let ghost all = posts@;
    let mut out: Vec<Post> = Vec::new();
    let mut rest = posts;
    let mut i: usize = 0;
    let n = rest.len();
    while rest.len() > 0
        invariant
            n == all.len(),
            i + rest@.len() == n,
            rest@ == all.subrange(i as int, n as int),
            out@ == visible_of(all.take(i as int), lv),
            lv == match label {
                Some(l) => Some(l@),
                None => None::<Seq<char>>,
            },
        decreases rest.len(),
    {
        let p = rest.remove(0);
        assert(p == all[i as int]);
        assert(all.take(i + 1).drop_last() =~= all.take(i as int));
        assert(all.take(i + 1).last() == p);
        let keep = if !p.published {
            false
        } else {
            match label {
                Some(l) => contains_string(&p.labels, l),
                None => true,
            }
        };
        assert(keep == visible(p, lv));
        if keep {
            out.push(p);
        }
        assert(rest@ =~= all.subrange(i + 1, n as int));
        i = i + 1;
    }
    assert(all.take(n as int) =~= all);
    out
}

/// A post read back from keys whose metadata markers all carry the token of `m` has the
/// metadata `m`: so once an upsert has left a single marker, reading the post gives the
/// upserted title, date and flag.
pub proof fn lemma_read_back_metadata(r: Post, slug: Seq<char>, paths: Seq<Seq<Seq<char>>>, m: MetadataView)
    requires
        post_read(r, slug, paths),
        m.date.valid(),
        exists|i: int| 0 <= i < paths.len() && paths[i].len() > 2 && #[trigger] paths[i][2] == "props"@,
        forall|i: int| 0 <= i < paths.len() && paths[i].len() > 2 && #[trigger] paths[i][2] == "props"@
            ==> paths[i].len() > 3 && paths[i][3] == metadata_token(m),
    ensures
        post_meta(r) == m,
{
    lemma_props_index(paths, 0);
    let k = props_index(paths, 0);
    if k < 0 {
        let i = choose|i: int| 0 <= i < paths.len() && paths[i].len() > 2 && #[trigger] paths[i][2] == "props"@;
        assert(paths[i].len() > 0 + 2 && paths[i][0int + 2] == "props"@);
    }
    assert(paths[k][2] == "props"@);
    let o = choose|o: Option<MetadataView>| props_say(o, paths, 0) && post_meta(r) == match o {
        Some(x) => x,
        None => bare_meta(),
    };
    assert(o == Some(m));
}

} // verus!
