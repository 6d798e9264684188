use bloog::error::{Entity, SlugProblem, StoreError};
use bloog::images::Image;
use bloog::markdown::convert;
use bloog::metadata::Date;
use bloog::objpath::ObjPath;
use bloog::slug::validate_slug;
use bloog::store::{
    build_valid_links, content_path, image_prefix, image_writes, images_from_listing, images_path,
    keys_to_delete, original_keys, post_from_paths, post_path, posts_from_paths, posts_path, prepare_image,
    prepare_upsert, stale_keys, tails_of, upload_identity, Post,
};
use bloog::variants::{check_svg, needs_medium_resize};
use image::codecs::jpeg::JpegEncoder;
use image::{ColorType, DynamicImage};
use std::collections::BTreeMap;

/// A key/blob store in memory, with a modification counter per key.
#[derive(Default)]
struct Mem {
    blobs: BTreeMap<Vec<String>, (Vec<u8>, i64)>,
    clock: i64,
}

impl Mem {
    fn list(&self, prefix: &ObjPath) -> Vec<ObjPath> {
        self.blobs
            .keys()
            .filter(|k| k.starts_with(&prefix.parts))
            .map(|k| ObjPath { parts: k.clone() })
            .collect()
    }
    fn put(&mut self, key: &ObjPath, bytes: Vec<u8>) {
        self.clock += 1;
        self.blobs.insert(key.parts.clone(), (bytes, self.clock));
    }
    fn get(&self, key: &ObjPath) -> Option<Vec<u8>> {
        self.blobs.get(&key.parts).map(|b| b.0.clone())
    }
    fn delete(&mut self, key: &ObjPath) {
        self.blobs.remove(&key.parts);
    }
    fn list_posts(&self, root: &ObjPath) -> Vec<Post> {
        posts_from_paths(&tails_of(&self.list(&posts_path(root)), root))
    }
    fn list_images(&self, root: &ObjPath) -> Vec<Image> {
        let listed = self.list(&images_path(root));
        let times: Vec<i64> = listed.iter().map(|k| self.blobs[&k.parts].1).collect();
        images_from_listing(&listed, &times)
    }
    fn valid_links(&self, root: &ObjPath) -> Vec<String> {
        build_valid_links(&self.list_posts(root), &self.list_images(root))
    }
    fn convert_html_with_validation(&self, root: &ObjPath, content: &str) -> Result<(String, String), String> {
        convert(content, &self.valid_links(root)).map_err(|e| e.message())
    }
    fn upsert_post(&mut self, root: &ObjPath, post: &Post, content: &str) -> Result<(String, String), StoreError> {
        validate_slug(&post.slug, Entity::Post)?;
        let valid = self.valid_links(root);
        let plan = prepare_upsert(root, post, content, &valid)?;
        self.put(&plan.content_key, content.as_bytes().to_vec());
        self.put(&plan.props_key, vec![]);
        for k in &plan.label_keys {
            self.put(k, vec![]);
        }
        let listed = self.list(&plan.post_dir);
        for k in stale_keys(&plan.post_dir, &listed, &plan.token, &post.labels) {
            self.delete(&k);
        }
        Ok((plan.html, plan.toc))
    }
    fn get_post_raw(&self, root: &ObjPath, slug: &str) -> Option<(Post, String)> {
        let content = self.get(&content_path(root, slug))?;
        let paths = tails_of(&self.list(&post_path(root, slug)), root);
        Some((post_from_paths(slug.to_string(), &paths), String::from_utf8_lossy(&content).to_string()))
    }
    fn delete_post(&mut self, root: &ObjPath, slug: &str) -> Result<(), StoreError> {
        for k in keys_to_delete(self.list(&post_path(root, slug)))? {
            self.delete(&k);
        }
        Ok(())
    }
    fn create_image(&mut self, root: &ObjPath, slug: &str, raw: &[u8]) -> Result<Image, StoreError> {
        let upload = prepare_image(slug, raw)?;
        let original = upload_identity(slug, &upload);
        let taken = original_keys(root, slug).iter().any(|k| self.get(k).is_some());
        for w in image_writes(root, &original, upload, taken)? {
            self.put(&w.key, w.bytes);
        }
        Ok(original)
    }
    fn delete_image(&mut self, root: &ObjPath, img: &Image) -> Result<(), StoreError> {
        for k in keys_to_delete(self.list(&image_prefix(root, img)))? {
            self.delete(&k);
        }
        Ok(())
    }
}

fn root() -> ObjPath {
    ObjPath::root().child("default")
}

fn post(y: i32, m: u32, d: u32, slug: &str, title: &str, published: bool, labels: &[&str]) -> Post {
    Post {
        date: Date::from_ymd(y, m, d).unwrap(),
        slug: slug.to_string(),
        title: title.to_string(),
        published,
        labels: labels.iter().map(|l| l.to_string()).collect(),
    }
}

fn jpeg(w: u32, h: u32) -> Vec<u8> {
    let img = DynamicImage::new(w, h, ColorType::Rgb8);
    let mut data: Vec<u8> = vec![];
    img.write_with_encoder(JpegEncoder::new(&mut data)).unwrap();
    data
}

#[test]
fn test_store_posts_empty() {
    let store = Mem::default();
    assert!(store.list_posts(&root()).is_empty());
    assert!(store.get_post_raw(&root(), "fizz").is_none());
}

#[test]
fn test_store_images_empty() {
    let store = Mem::default();
    assert!(store.list_images(&root()).is_empty());
    assert!(store.get(&Image::Webp { slug: "fizz".to_string() }.resolve_full_path(&root())).is_none());
}

#[test]
fn test_store_posts() {
    let r = root();
    let mut store = Mem::default();
    store
        .upsert_post(&r, &post(2020, 1, 1, "my-first-post", "My first post", true, &["blue", "green"]), "my-content")
        .unwrap();
    let (p, content) = store.get_post_raw(&r, "my-first-post").unwrap();
    assert_eq!(p.date, Date::from_ymd(2020, 1, 1).unwrap());
    assert_eq!(p.slug, "my-first-post");
    assert_eq!(p.title, "My first post");
    assert!(p.published);
    assert_eq!(p.labels, vec!["blue".to_string(), "green".to_string()]);
    assert_eq!(content, "my-content");
    assert_eq!(store.list(&r).len(), 4);

    store
        .upsert_post(
            &r,
            &post(2020, 1, 2, "my-first-post", "My updated first post", false, &["red", "green"]),
            "my-updated-content",
        )
        .unwrap();
    let (p, content) = store.get_post_raw(&r, "my-first-post").unwrap();
    assert_eq!(p.date, Date::from_ymd(2020, 1, 2).unwrap());
    assert_eq!(p.slug, "my-first-post");
    assert_eq!(p.title, "My updated first post");
    assert!(!p.published);
    assert_eq!(p.labels, vec!["green".to_string(), "red".to_string()]);
    assert_eq!(content, "my-updated-content");
    assert_eq!(store.list(&r).len(), 4);
    let props: Vec<ObjPath> =
        store.list(&post_path(&r, "my-first-post")).into_iter().filter(|k| k.parts[3] == "props").collect();
    assert_eq!(props.len(), 1);
    let listed = store.list_posts(&r);
    assert_eq!(listed.len(), 1);
    assert_eq!(listed[0].title, "My updated first post");
    assert_eq!(listed[0].labels, vec!["green".to_string(), "red".to_string()]);
}

#[test]
fn rejected_content_writes_nothing() {
    let r = root();
    let mut store = Mem::default();
    store.upsert_post(&r, &post(2020, 1, 1, "first", "First", true, &[]), "x").unwrap();
    let err = store.upsert_post(&r, &post(2020, 1, 1, "second", "Second", true, &[]), "[a](/posts/nope)");
    assert_eq!(
        err.err().unwrap().message(),
        "link '/posts/nope' references a relative path which does not exist"
    );
    assert!(store.get_post_raw(&r, "second").is_none());
    let (html, _) = store.upsert_post(&r, &post(2020, 1, 1, "second", "Second", true, &[]), "[a](/posts/first)").unwrap();
    assert_eq!(html, "<p><a href=\"/posts/first\">a</a></p>\n");
}

#[test]
fn test_convert_empty() {
    let store = Mem::default();
    let (content, toc) = store.convert_html_with_validation(&root(), "").unwrap();
    assert_eq!(content, "");
    assert_eq!(toc, "");
}

#[test]
fn test_convert_external_links() {
    let store = Mem::default();
    let (content, _) = store
        .convert_html_with_validation(
            &root(),
            "\n[external](http://example.com)\n[external](https://example.com)\n![external](https://example.com)\n        ",
        )
        .unwrap();
    assert_eq!(
        content,
        "<p><a href=\"http://example.com\">external</a>\n<a href=\"https://example.com\">external</a>\n<img src=\"https://example.com\" alt=\"external\" /></p>\n"
    );
}

#[test]
fn test_convert_internal_links() {
    let r = root();
    let mut store = Mem::default();
    store.upsert_post(&r, &post(2020, 1, 1, "my-first-post", "My first post", false, &[]), "my-content").unwrap();
    let (content, _) = store.convert_html_with_validation(&r, "[internal](/posts/my-first-post)").unwrap();
    assert_eq!(content, "<p><a href=\"/posts/my-first-post\">internal</a></p>\n");
    assert_eq!(
        store.convert_html_with_validation(&r, "[internal](/posts/does-not-exist)").unwrap_or_else(|e| (e, String::new())).0,
        "link '/posts/does-not-exist' references a relative path which does not exist",
    );
}

#[test]
fn delete_post_and_missing_post() {
    let r = root();
    let mut store = Mem::default();
    store.upsert_post(&r, &post(2021, 5, 6, "gone", "Gone", true, &["a"]), "bye").unwrap();
    store.delete_post(&r, "gone").unwrap();
    assert!(store.get_post_raw(&r, "gone").is_none());
    assert!(matches!(store.delete_post(&r, "gone"), Err(StoreError::NotFound)));
}

#[test]
fn post_without_metadata_is_listed_bare() {
    let r = root();
    let mut store = Mem::default();
    store.put(&content_path(&r, "orphan"), b"text".to_vec());
    let posts = store.list_posts(&r);
    assert_eq!(posts.len(), 1);
    assert_eq!(posts[0].slug, "orphan");
    assert_eq!(posts[0].title, "");
    assert_eq!(posts[0].date, Date { year: 1970, month: 1, day: 1 });
    assert!(!posts[0].published);
}

#[test]
fn test_store_images() {
    let r = root();
    let mut store = Mem::default();
    let img = store.create_image(&r, "test", &jpeg(100, 100)).unwrap();
    assert_eq!(img, Image::Webp { slug: "test".to_string() });
    assert_eq!(store.list_images(&r), vec![img.clone()]);
    assert!(store.get(&img.to_thumbnail().resolve_full_path(&r)).is_some());
    assert!(store.get(&img.to_medium().resolve_full_path(&r)).is_some());
    assert!(store.get(&img.to_original().resolve_full_path(&r)).is_some());

    store.delete_image(&r, &img).unwrap();
    assert_eq!(store.list_images(&r), Vec::<Image>::new());
    assert!(store.get(&img.to_thumbnail().resolve_full_path(&r)).is_none());
    assert!(store.get(&img.to_medium().resolve_full_path(&r)).is_none());
    assert!(store.get(&img.to_original().resolve_full_path(&r)).is_none());
    assert!(matches!(store.delete_image(&r, &img), Err(StoreError::NotFound)));
}

#[test]
fn second_image_with_same_slug_is_refused() {
    let r = root();
    let mut store = Mem::default();
    let img = store.create_image(&r, "twice", &jpeg(10, 10)).unwrap();
    let before = store.get(&img.resolve_full_path(&r)).unwrap();
    let again = store.create_image(&r, "twice", &jpeg(20, 30));
    assert!(matches!(again, Err(StoreError::SlugAlreadyExists)));
    assert_eq!(store.get(&img.resolve_full_path(&r)).unwrap(), before);
    assert_eq!(store.list_images(&r).len(), 1);
    let svg = store.create_image(&r, "twice", b"<svg></svg>");
    assert!(matches!(svg, Err(StoreError::SlugAlreadyExists)));
    assert_eq!(store.list_images(&r).len(), 1);
}

#[test]
fn svg_images_are_stored_alone() {
    let r = root();
    let mut store = Mem::default();
    let raw = b"<svg xmlns=\"http://www.w3.org/2000/svg\"></svg>";
    let img = store.create_image(&r, "logo", raw).unwrap();
    assert_eq!(img, Image::Svg { slug: "logo".to_string() });
    assert_eq!(store.get(&img.resolve_full_path(&r)).unwrap(), raw.to_vec());
    assert_eq!(store.list(&images_path(&r)).len(), 1);
    assert!(matches!(store.create_image(&r, "empty", b""), Err(StoreError::EmptySvg)));
    assert!(matches!(store.create_image(&r, "bad", b"<!-- no end"), Err(StoreError::BadSvg { .. })));
    assert!(matches!(store.create_image(&r, "bin", &[0xff, 0xfe, 0x00]), Err(StoreError::UnsupportedImageFormat)));
}

#[test]
fn images_are_listed_newest_first_and_linkable() {
    let r = root();
    let mut store = Mem::default();
    store.create_image(&r, "older", &jpeg(4, 4)).unwrap();
    store.create_image(&r, "newer", b"<svg></svg>").unwrap();
    let listed = store.list_images(&r);
    assert_eq!(listed, vec![Image::Svg { slug: "newer".to_string() }, Image::Webp { slug: "older".to_string() }]);
    let links = store.valid_links(&r);
    assert!(links.contains(&"/images/older.webp".to_string()));
    assert!(links.contains(&"/images/older.medium.jpg".to_string()));
    assert!(links.contains(&"/images/older.thumb.jpg".to_string()));
    assert_eq!(links.len(), 6);
    assert!(links.contains(&"/images/newer.svg".to_string()));
}

#[test]
fn slugs_are_validated() {
    assert!(validate_slug("ok-slug", Entity::Post).is_ok());
    let bad = |s: &str, e: Entity| match validate_slug(s, e) {
        Err(StoreError::BadSlug { problem, .. }) => problem,
        _ => panic!("accepted {:?}", s),
    };
    assert_eq!(bad("a/b", Entity::Post), SlugProblem::NotASegment);
    assert_eq!(bad("..", Entity::Post), SlugProblem::NotASegment);
    assert_eq!(bad("ab", Entity::Post), SlugProblem::Length);
    assert_eq!(bad(&"x".repeat(101), Entity::Post), SlugProblem::Length);
    assert!(validate_slug(&"x".repeat(100), Entity::Post).is_ok());
    assert!(validate_slug(&"é".repeat(100), Entity::Post).is_ok());
    assert_eq!(bad(&"x".repeat(61), Entity::Image), SlugProblem::Length);
    assert!(validate_slug(&"x".repeat(60), Entity::Image).is_ok());
    assert_eq!(bad("two words", Entity::Post), SlugProblem::Whitespace);
    assert_eq!(bad("   ", Entity::Image), SlugProblem::Whitespace);
    assert_eq!(
        StoreError::BadSlug { entity: Entity::Image, problem: SlugProblem::Whitespace }.message(),
        "invalid image slug - no spaces allowed"
    );
}

#[test]
fn medium_resize_rule() {
    assert!(!needs_medium_resize(800, 550));
    assert!(needs_medium_resize(801, 10));
    assert!(needs_medium_resize(10, 551));
    assert!(check_svg(b"<?xml version=\"1.0\"?><svg/>").is_ok());
}

#[test]
fn raster_variants_fit_their_boxes() {
    let upload = prepare_image("big-one", &jpeg(1600, 400)).unwrap();
    match upload {
        bloog::variants::ImageUpload::Raster { original, medium, thumbnail } => {
            let m = image::load_from_memory(&medium).unwrap();
            assert_eq!((m.width(), m.height()), (800, 200));
            let t = image::load_from_memory(&thumbnail).unwrap();
            assert_eq!((t.width(), t.height()), (200, 50));
            let o = image::load_from_memory(&original).unwrap();
            assert_eq!((o.width(), o.height()), (1600, 400));
        }
        _ => panic!("expected a raster upload"),
    }
}

#[test]
fn unsafe_label_is_written_encoded() {
    let r = root();
    let plan = prepare_upsert(&r, &post(2020, 1, 1, "tagged", "T", true, &["c#"]), "", &vec![]).ok().unwrap();
    assert_eq!(plan.label_keys[0].parts.last().unwrap(), "c%23");
}
