//! The store as a map from keys to blobs, and what the content store's operations do to
//! it when their writes and deletions are carried out as planned.

use vstd::prelude::*;
use crate::images::{image_dir, image_key, join_of, Image};
use crate::objpath::{is_prefix, tail_of};
use crate::store::{images_dir, is_stale, stale_of};

verus! {

/// Blobs by key.
pub type Blobs = Map<Seq<Seq<char>>, Seq<u8>>;

/// The store after some writes, in order.
pub open spec fn put_all(s: Blobs, writes: Seq<(Seq<Seq<char>>, Seq<u8>)>) -> Blobs
    decreases writes.len(),
{
    if writes.len() == 0 {
        s
    } else {
        put_all(s, writes.drop_last()).insert(writes.last().0, writes.last().1)
    }
}

/// The keys under `dir`.
pub open spec fn under(s: Blobs, dir: Seq<Seq<char>>) -> Set<Seq<Seq<char>>> {
    s.dom().filter(|k: Seq<Seq<char>>| is_prefix(dir, k))
}

/// The store after everything under `dir` was listed and deleted.
pub open spec fn delete_under(s: Blobs, dir: Seq<Seq<char>>) -> Blobs {
    s.remove_keys(under(s, dir))
}

proof fn lemma_put_all_dom(s: Blobs, writes: Seq<(Seq<Seq<char>>, Seq<u8>)>, k: Seq<Seq<char>>)
    ensures
        put_all(s, writes).contains_key(k) <==> (s.contains_key(k) || exists|i: int| 0 <= i < writes.len() && #[trigger] writes[i].0 == k),
    decreases writes.len(),
{
    if writes.len() > 0 {
        lemma_put_all_dom(s, writes.drop_last(), k);
        if exists|i: int| 0 <= i < writes.len() && #[trigger] writes[i].0 == k {
            let i = choose|i: int| 0 <= i < writes.len() && #[trigger] writes[i].0 == k;
            if i < writes.len() - 1 {
                assert(writes.drop_last()[i].0 == k);
            }
        }
        if exists|i: int| 0 <= i < writes.len() - 1 && #[trigger] writes.drop_last()[i].0 == k {
            let i = choose|i: int| 0 <= i < writes.len() - 1 && #[trigger] writes.drop_last()[i].0 == k;
            assert(writes[i].0 == k);
        }
    }
}

proof fn lemma_put_all_keeps(s: Blobs, writes: Seq<(Seq<Seq<char>>, Seq<u8>)>, k: Seq<Seq<char>>)
    requires
        forall|i: int| 0 <= i < writes.len() ==> #[trigger] writes[i].0 != k,
    ensures
        put_all(s, writes).contains_key(k) == s.contains_key(k),
        s.contains_key(k) ==> put_all(s, writes)[k] == s[k],
    decreases writes.len(),
{
    if writes.len() > 0 {
        assert forall|i: int| 0 <= i < writes.len() - 1 implies #[trigger] writes.drop_last()[i].0 != k by {
            assert(writes[i].0 != k);
        }
        lemma_put_all_keeps(s, writes.drop_last(), k);
        assert(writes[writes.len() - 1].0 != k);
    }
}

proof fn lemma_join_prefix(p: Seq<Seq<char>>, seg: Seq<char>)
    ensures
        is_prefix(p, join_of(p, seg)),
{
    assert(join_of(p, seg).subrange(0, p.len() as int) =~= p);
}

/// Every variant key of an image lies under the image's directory.
pub proof fn lemma_variant_under_dir(root: Seq<Seq<char>>, img: Image, v: Image)
    requires
        v.spec_original() == img.spec_original(),
    ensures
        is_prefix(image_dir(root, img), image_key(root, v)),
{
    lemma_join_prefix(image_dir(root, v), path_part_of_file(v));
}

spec fn path_part_of_file(v: Image) -> Seq<char> {
    crate::objpath::path_part_of(v.file_name())
}

/// Creating an image and then deleting it: once its writes (all of them keys under the
/// image's directory) are made and everything under that directory is listed and deleted,
/// none of its variants can be fetched, and the image keys left in the store are exactly
/// those that were there before, outside that directory. A store without images is left
/// without images.
pub proof fn lemma_image_lifecycle(
    s: Blobs,
    root: Seq<Seq<char>>,
    img: Image,
    writes: Seq<(Seq<Seq<char>>, Seq<u8>)>,
)
    requires
        forall|i: int| 0 <= i < writes.len() ==> is_prefix(image_dir(root, img), #[trigger] writes[i].0),
    ensures
        ({
            let s2 = delete_under(put_all(s, writes), image_dir(root, img));
            &&& !s2.contains_key(image_key(root, img.spec_original()))
            &&& !s2.contains_key(image_key(root, img.spec_medium()))
            &&& !s2.contains_key(image_key(root, img.spec_thumbnail()))
            &&& under(s2, images_dir(root)) == under(s, images_dir(root)).filter(
                |k: Seq<Seq<char>>| !is_prefix(image_dir(root, img), k),
            )
            &&& (under(s, images_dir(root)).is_empty() ==> under(s2, images_dir(root)).is_empty())
        }),
{
    let dir = image_dir(root, img);
    let s1 = put_all(s, writes);
    let s2 = delete_under(s1, dir);
    lemma_variant_under_dir(root, img, img.spec_original());
    lemma_variant_under_dir(root, img, img.spec_medium());
    lemma_variant_under_dir(root, img, img.spec_thumbnail());
    lemma_join_prefix(crate::objpath::child_of(root, "images"@), path_part_of_file(img.spec_original()));
    assert(is_prefix(images_dir(root), dir));
    let lhs = under(s2, images_dir(root));
    let rhs = under(s, images_dir(root)).filter(|k: Seq<Seq<char>>| !is_prefix(dir, k));
    assert forall|k: Seq<Seq<char>>| lhs.contains(k) <==> rhs.contains(k) by {
        lemma_put_all_dom(s, writes, k);
        if s1.contains_key(k) && !s.contains_key(k) {
            let i = choose|i: int| 0 <= i < writes.len() && #[trigger] writes[i].0 == k;
            assert(is_prefix(dir, writes[i].0));
        }
    }
    assert(lhs =~= rhs);
    if under(s, images_dir(root)).is_empty() {
        assert(rhs =~= Set::<Seq<Seq<char>>>::empty());
    }
}

/// After an image's original was written, it is present, so a second creation under the
/// same slug finds it and is refused.
pub proof fn lemma_created_original_present(
    s: Blobs,
    root: Seq<Seq<char>>,
    img: Image,
    writes: Seq<(Seq<Seq<char>>, Seq<u8>)>,
)
    requires
        writes.len() > 0,
        writes[0].0 == image_key(root, img),
    ensures
        put_all(s, writes).contains_key(image_key(root, img)),
{
    lemma_put_all_dom(s, writes, image_key(root, img));
}

/// An upsert as it reaches the store: the post's directory, the metadata token, the
/// labels and the content.
pub struct UpsertView {
    pub dir: Seq<Seq<char>>,
    pub token: Seq<char>,
    pub labels: Seq<Seq<char>>,
    pub content: Seq<u8>,
}

pub open spec fn content_at(dir: Seq<Seq<char>>) -> Seq<Seq<char>> {
    dir.push("content"@)
}

pub open spec fn props_at(dir: Seq<Seq<char>>, token: Seq<char>) -> Seq<Seq<char>> {
    dir.push("props"@).push(token)
}

pub open spec fn label_at(dir: Seq<Seq<char>>, label: Seq<char>) -> Seq<Seq<char>> {
    dir.push("labels"@).push(label)
}

/// The label markers of an upsert.
pub open spec fn label_writes(dir: Seq<Seq<char>>, labels: Seq<Seq<char>>) -> Seq<(Seq<Seq<char>>, Seq<u8>)> {
    labels.map_values(|l: Seq<char>| (label_at(dir, l), Seq::<u8>::empty()))
}

/// The writes of an upsert: content, metadata marker, label markers.
pub open spec fn upsert_writes(p: UpsertView) -> Seq<(Seq<Seq<char>>, Seq<u8>)> {
    seq![(content_at(p.dir), p.content), (props_at(p.dir, p.token), Seq::<u8>::empty())]
        + label_writes(p.dir, p.labels)
}

/// The store after an upsert: its writes, then the deletion of every stale key listed
/// under the post's directory.
pub open spec fn upsert_model(s: Blobs, p: UpsertView) -> Blobs {
    let s1 = put_all(s, upsert_writes(p));
    s1.remove_keys(under(s1, p.dir).filter(|k: Seq<Seq<char>>| is_stale(tail_of(k, p.dir), p.token, p.labels)))
}

/// The keys under a post's directory follow the layout: the content, and two-segment
/// metadata and label markers.
pub open spec fn layout_ok(s: Blobs, dir: Seq<Seq<char>>) -> bool {
    forall|k: Seq<Seq<char>>| #[trigger] under(s, dir).contains(k) ==> {
        let t = tail_of(k, dir);
        t == seq!["content"@] || (t.len() == 2 && (t[0] == "props"@ || t[0] == "labels"@))
    }
}

/// The metadata markers under a post's directory.
pub open spec fn props_keys(s: Blobs, dir: Seq<Seq<char>>) -> Set<Seq<Seq<char>>> {
    under(s, dir).filter(|k: Seq<Seq<char>>| tail_of(k, dir).len() >= 1 && tail_of(k, dir)[0] == "props"@)
}

/// The label markers under a post's directory.
pub open spec fn label_keys_in(s: Blobs, dir: Seq<Seq<char>>) -> Set<Seq<Seq<char>>> {
    under(s, dir).filter(|k: Seq<Seq<char>>| tail_of(k, dir).len() >= 1 && tail_of(k, dir)[0] == "labels"@)
}

proof fn lemma_tail_push2(dir: Seq<Seq<char>>, a: Seq<char>, b: Seq<char>)
    ensures
        is_prefix(dir, dir.push(a).push(b)),
        tail_of(dir.push(a).push(b), dir) == seq![a, b],
{
    assert(dir.push(a).push(b).subrange(0, dir.len() as int) =~= dir);
    assert(dir.push(a).push(b).subrange(dir.len() as int, dir.len() as int + 2) =~= seq![a, b]);
}

proof fn lemma_tail_push1(dir: Seq<Seq<char>>, a: Seq<char>)
    ensures
        is_prefix(dir, dir.push(a)),
        tail_of(dir.push(a), dir) == seq![a],
{
    assert(dir.push(a).subrange(0, dir.len() as int) =~= dir);
    assert(dir.push(a).subrange(dir.len() as int, dir.len() as int + 1) =~= seq![a]);
}

proof fn lemma_rebuild(dir: Seq<Seq<char>>, k: Seq<Seq<char>>)
    requires
        is_prefix(dir, k),
    ensures
        k == dir + tail_of(k, dir),
{
    assert(k =~= dir + tail_of(k, dir));
}

proof fn lemma_upsert_shape(s: Blobs, p: UpsertView)
    requires
        layout_ok(s, p.dir),
    ensures
        ({
            let s2 = upsert_model(s, p);
            &&& layout_ok(s2, p.dir)
            &&& props_keys(s2, p.dir) == set![props_at(p.dir, p.token)]
            &&& label_keys_in(s2, p.dir) == p.labels.to_set().map(|l: Seq<char>| label_at(p.dir, l))
            &&& s2.contains_key(content_at(p.dir))
            &&& s2[content_at(p.dir)] == p.content
        }),
{
    reveal_strlit("content");
    reveal_strlit("props");
    reveal_strlit("labels");
    let dir = p.dir;
    let w = upsert_writes(p);
    let s1 = put_all(s, w);
    let stale = under(s1, dir).filter(|k: Seq<Seq<char>>| is_stale(tail_of(k, dir), p.token, p.labels));
    let s2 = upsert_model(s, p);
    assert(s2 == s1.remove_keys(stale));
    lemma_tail_push1(dir, "content"@);
    lemma_tail_push2(dir, "props"@, p.token);
    assert("content"@.len() == 7);
    assert("props"@.len() == 5);
    assert("labels"@.len() == 6);
    assert("content"@ != "props"@);
    assert("content"@ != "labels"@);
    assert("props"@ != "labels"@);
    // Every key under the directory after the writes follows the layout.
    assert forall|k: Seq<Seq<char>>| #[trigger] under(s1, dir).contains(k) implies {
        let t = tail_of(k, dir);
        t == seq!["content"@] || (t.len() == 2 && (t[0] == "props"@ || t[0] == "labels"@))
    } by {
        lemma_put_all_dom(s, w, k);
        if !s.contains_key(k) {
            let i = choose|i: int| 0 <= i < w.len() && #[trigger] w[i].0 == k;
            if i >= 2 {
                lemma_tail_push2(dir, "labels"@, p.labels[i - 2]);
                assert(w[i] == label_writes(dir, p.labels)[i - 2]);
            }
        } else {
            assert(under(s, dir).contains(k));
        }
    }
    assert forall|k: Seq<Seq<char>>| #[trigger] under(s2, dir).contains(k) implies under(s1, dir).contains(k) by {}
    // The content.
    let w1 = seq![(content_at(dir), p.content)];
    let w2 = seq![(props_at(dir, p.token), Seq::<u8>::empty())] + label_writes(dir, p.labels);
    assert(w =~= w1 + w2);
    lemma_put_all_append(s, w1, w2);
    assert forall|i: int| 0 <= i < w2.len() implies #[trigger] w2[i].0 != content_at(dir) by {
        if i >= 1 {
            assert(w2[i] == label_writes(dir, p.labels)[i - 1]);
            assert(label_at(dir, p.labels[i - 1]).len() == dir.len() + 2);
        }
    }
    assert(put_all(s, w1) == put_all(s, Seq::empty()).insert(content_at(dir), p.content)) by {
        assert(w1.drop_last() =~= Seq::<(Seq<Seq<char>>, Seq<u8>)>::empty());
    }
    lemma_put_all_keeps(put_all(s, w1), w2, content_at(dir));
    assert(!stale.contains(content_at(dir)));
    // The metadata markers.
    lemma_put_all_dom(s, w, props_at(dir, p.token));
    assert(w[1].0 == props_at(dir, p.token));
    assert(!stale.contains(props_at(dir, p.token)));
    assert(s1.contains_key(props_at(dir, p.token)));
    assert(under(s1, dir).contains(props_at(dir, p.token)));
    assert(s2.contains_key(props_at(dir, p.token)));
    assert(under(s2, dir).contains(props_at(dir, p.token)));
    assert(props_at(dir, p.token) =~= dir + seq!["props"@, p.token]);
    assert forall|k: Seq<Seq<char>>| props_keys(s2, dir).contains(k) <==> k == props_at(dir, p.token) by {
        if props_keys(s2, dir).contains(k) {
            assert(under(s2, dir).contains(k));
            assert(under(s1, dir).contains(k));
            assert(!stale.contains(k));
            lemma_rebuild(dir, k);
            let t = tail_of(k, dir);
            assert(t[0] == "props"@);
            assert(t != seq!["content"@]);
            assert(t.len() == 2);
            assert(!is_stale(t, p.token, p.labels));
            assert(t[1] == p.token);
            assert(t =~= seq!["props"@, p.token]);
        }
    }
    assert(props_keys(s2, dir) =~= set![props_at(dir, p.token)]);
    // The label markers.
    let want = p.labels.to_set().map(|l: Seq<char>| label_at(dir, l));
    assert forall|k: Seq<Seq<char>>| label_keys_in(s2, dir).contains(k) <==> want.contains(k) by {
        if label_keys_in(s2, dir).contains(k) {
            assert(under(s2, dir).contains(k));
            assert(under(s1, dir).contains(k));
            assert(!stale.contains(k));
            lemma_rebuild(dir, k);
            let t = tail_of(k, dir);
            assert(t[0] == "labels"@);
            assert(t != seq!["content"@]);
            assert(t.len() == 2);
            assert(!is_stale(t, p.token, p.labels));
            assert(p.labels.contains(t[1]));
            assert(p.labels.to_set().contains(t[1]));
            assert(t =~= seq!["labels"@, t[1]]);
            assert(label_at(dir, t[1]) =~= dir + seq!["labels"@, t[1]]);
            assert(k == label_at(dir, t[1]));
        }
        if want.contains(k) {
            let l = choose|l: Seq<char>| p.labels.to_set().contains(l) && label_at(dir, l) == k;
            let j = choose|j: int| 0 <= j < p.labels.len() && p.labels[j] == l;
            assert(w[j + 2] == label_writes(dir, p.labels)[j]);
            assert(w[j + 2].0 == k);
            lemma_put_all_dom(s, w, k);
            lemma_tail_push2(dir, "labels"@, l);
            assert(s1.contains_key(k));
            assert(under(s1, dir).contains(k));
            assert(!is_stale(tail_of(k, dir), p.token, p.labels));
            assert(!stale.contains(k));
            assert(s2.contains_key(k));
            assert(under(s2, dir).contains(k));
        }
    }
    assert(label_keys_in(s2, dir) =~= want);
}

proof fn lemma_put_all_append(s: Blobs, a: Seq<(Seq<Seq<char>>, Seq<u8>)>, b: Seq<(Seq<Seq<char>>, Seq<u8>)>)
    ensures
        put_all(s, a + b) == put_all(put_all(s, a), b),
    decreases b.len(),
{
    if b.len() == 0 {
        assert(a + b =~= a);
    } else {
        assert((a + b).drop_last() =~= a + b.drop_last());
        lemma_put_all_append(s, a, b.drop_last());
    }
}

/// Upserting a post twice: whatever the second version replaced, the post's directory
/// then holds exactly one metadata marker, that of the second version's token, exactly the
/// label markers of the second version's labels, and its content.
pub proof fn lemma_upsert_overwrites(s: Blobs, first: UpsertView, second: UpsertView)
    requires
        first.dir == second.dir,
        layout_ok(s, first.dir),
    ensures
        ({
            let s2 = upsert_model(upsert_model(s, first), second);
            &&& props_keys(s2, second.dir) == set![props_at(second.dir, second.token)]
            &&& label_keys_in(s2, second.dir) == second.labels.to_set().map(
                |l: Seq<char>| label_at(second.dir, l),
            )
            &&& s2.contains_key(content_at(second.dir))
            &&& s2[content_at(second.dir)] == second.content
        }),
{
    lemma_upsert_shape(s, first);
    lemma_upsert_shape(upsert_model(s, first), second);
}

proof fn lemma_stale_of_contains(
    keys: Seq<Seq<Seq<char>>>,
    dir: Seq<Seq<char>>,
    token: Seq<char>,
    labels: Seq<Seq<char>>,
    k: Seq<Seq<char>>,
)
    ensures
        stale_of(keys, dir, token, labels).contains(k) <==> (keys.contains(k) && is_stale(tail_of(k, dir), token, labels)),
    decreases keys.len(),
{
    if keys.len() > 0 {
        lemma_stale_of_contains(keys.drop_last(), dir, token, labels, k);
        let rest = stale_of(keys.drop_last(), dir, token, labels);
        if keys.contains(k) && k != keys.last() {
            let i = choose|i: int| 0 <= i < keys.len() && keys[i] == k;
            assert(keys.drop_last()[i] == k);
        }
        if keys.drop_last().contains(k) {
            let i = choose|i: int| 0 <= i < keys.len() - 1 && keys.drop_last()[i] == k;
            assert(keys[i] == k);
        }
        if is_stale(tail_of(keys.last(), dir), token, labels) {
            if rest.push(keys.last()).contains(k) && k != keys.last() {
                let i = choose|i: int| 0 <= i < rest.len() + 1 && rest.push(keys.last())[i] == k;
                assert(rest[i] == k);
            }
            if k == keys.last() {
                assert(rest.push(keys.last())[rest.len() as int] == k);
            }
            if rest.contains(k) {
                let i = choose|i: int| 0 <= i < rest.len() && rest[i] == k;
                assert(rest.push(keys.last())[i] == k);
            }
        }
        assert(keys[keys.len() - 1] == keys.last());
    }
}

/// The cleanup that the store performs matches the model: from a listing that holds
/// exactly the keys under the post's directory, the stale keys it picks are exactly the
/// stale keys under that directory.
pub proof fn lemma_cleanup_matches_model(
    s: Blobs,
    listed: Seq<Seq<Seq<char>>>,
    dir: Seq<Seq<char>>,
    token: Seq<char>,
    labels: Seq<Seq<char>>,
)
    requires
        listed.to_set() == under(s, dir),
    ensures
        stale_of(listed, dir, token, labels).to_set() == under(s, dir).filter(
            |k: Seq<Seq<char>>| is_stale(tail_of(k, dir), token, labels),
        ),
{
    assert forall|k: Seq<Seq<char>>| stale_of(listed, dir, token, labels).to_set().contains(k) <==> under(s, dir).filter(
        |k: Seq<Seq<char>>| is_stale(tail_of(k, dir), token, labels),
    ).contains(k) by {
        lemma_stale_of_contains(listed, dir, token, labels, k);
        assert(listed.to_set().contains(k) == listed.contains(k));
    }
    assert(stale_of(listed, dir, token, labels).to_set() =~= under(s, dir).filter(
        |k: Seq<Seq<char>>| is_stale(tail_of(k, dir), token, labels),
    ));
}

} // verus!
