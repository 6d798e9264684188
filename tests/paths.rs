use bloog::images::{Image, Variant};
use bloog::objpath::{filter_tail_iterator, path_tail, ObjPath};
use object_store::path::Path;

fn op(p: &str) -> ObjPath {
    ObjPath { parts: Path::from(p).parts().map(|x| x.as_ref().to_string()).collect() }
}

fn tail(a: &str, b: &str) -> String {
    path_tail(&op(a), &op(b)).parts.join("/")
}

#[test]
fn test_path_tail() {
    assert_eq!(tail("", ""), "");
    assert_eq!(tail("x/y/z", ""), "x/y/z");
    assert_eq!(tail("x/y/z", "x"), "y/z");
    assert_eq!(tail("x/y/z", "x/"), "y/z");
    assert_eq!(tail("x/y/z", "x/y"), "z");
    assert_eq!(tail("x/y/z", "x/y/"), "z");
    assert_eq!(tail("x/y/z", "x/y/"), "z");
    assert_eq!(tail("x/y/z", "x/y/z"), "");
    assert_eq!(tail("x/y/z", "a/b/c"), "x/y/z");
}

#[test]
fn filter_tail_iterator_keeps_source() {
    assert_eq!(filter_tail_iterator(vec![1, 2, 3], vec![1]), vec![1, 2, 3]);
}

#[test]
fn child_encodes_reserved_characters() {
    let p = ObjPath::root().child("a#b").child("plain").child("");
    assert_eq!(p.parts, vec!["a%23b".to_string(), "plain".to_string()]);
    assert_eq!(ObjPath::root().child("..").parts, vec!["%2E%2E".to_string()]);
}

#[test]
fn image_variants_and_names() {
    let img = Image::Webp { slug: "cat".to_string() };
    assert_eq!(img.to_medium(), Image::JpgMedium { slug: "cat".to_string() });
    assert_eq!(img.to_thumbnail(), Image::JpgThumbnail { slug: "cat".to_string() });
    assert_eq!(img.to_thumbnail().to_original(), img);
    assert_eq!(img.to_path_part(), "cat.webp");
    assert_eq!(img.to_medium().to_path_part(), "cat.medium.jpg");
    assert_eq!(img.to_thumbnail().to_path_part(), "cat.thumb.jpg");
    let svg = Image::Svg { slug: "logo".to_string() };
    assert_eq!(svg.to_medium(), svg);
    assert_eq!(svg.to_thumbnail(), svg);
    assert_eq!(svg.to_path_part(), "logo.svg");
    assert_eq!(svg.to_content_type(), "image/svg+xml");
    assert_eq!(img.to_content_type(), "image/webp");
    assert_eq!(img.to_medium().to_content_type(), "image/jpeg");
    assert_eq!(Image::default(), Image::Webp { slug: String::new() });
}

#[test]
fn image_file_names_parse_back() {
    for img in [
        Image::Svg { slug: "a.b".to_string() },
        Image::Webp { slug: "cat".to_string() },
        Image::JpgMedium { slug: "my.cat".to_string() },
        Image::JpgThumbnail { slug: "x".to_string() },
    ] {
        let back = Image::try_from_path_part(&img.to_path_part()).ok().unwrap();
        assert_eq!(back, img);
    }
    assert!(Image::try_from_path_part("cat.png").is_err());
    assert!(Image::try_from_path_part("cat.small.jpg").is_err());
    assert!(Image::try_from_path_part("jpg").is_err());
    assert_eq!(Image::try_from_path_part("svg").ok().unwrap().variant(), Variant::Svg);
}

#[test]
fn image_keys_share_one_directory() {
    let root = op("default");
    let img = Image::Webp { slug: "cat".to_string() };
    assert_eq!(img.resolve_full_path(&root).parts.join("/"), "default/images/cat.webp/cat.webp");
    assert_eq!(
        img.to_thumbnail().resolve_full_path(&root).parts.join("/"),
        "default/images/cat.webp/cat.thumb.jpg"
    );
}
