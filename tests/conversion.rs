use bloog::markdown::{check_link, convert, convert_events, convert_to_valid_id, ConvertError, LinkKind, MdEvent};

fn run(content: &str, valid: &[&str]) -> (String, String) {
    let valid: Vec<String> = valid.iter().map(|s| s.to_string()).collect();
    convert(content, &valid).unwrap_or_else(|e| (e.message(), String::new()))
}

#[test]
fn test_typog() {
    let (content, _) = run(
        r"
normal
_italic_
**bold**
~sub~
^sup^
~~strike~~
",
        &[],
    );
    assert_eq!(
        content,
        r##"<p>normal
<em>italic</em>
<strong>bold</strong>
<sub>sub</sub>
<sup>sup</sup>
<del>strike</del></p>
"##,
    );
}

#[test]
fn test_bad_links() {
    assert_eq!(
        run(
            r"
[external](http://example.com)
[external](https://example.com)
[internal](/some-link)
![internal](/does-not-exist)
",
            &["/some-link"]
        )
        .0,
        "image '/does-not-exist' references a relative path which does not exist",
    );
    assert_eq!(
        run(r"![internal](/does-not-exist)", &[]).0,
        "<p><img src=\"/does-not-exist\" alt=\"internal\" /></p>\n",
    );
}

#[test]
fn test_bad_heading() {
    assert_eq!(
        run(
            r"
# fine
# also fine
## indented
# unindented
### not fine
",
            &[]
        )
        .0,
        "bad heading with level h3: heading level should be h1, h0, or h2",
    )
}

#[test]
fn test_number_headings() {
    let (content, toc) = run(
        r"
# fine
# also fine
## indented
# unindented
",
        &[],
    );
    assert_eq!(
        content,
        r##"<h1><a class="hlink" href="#fine"><small id="fine">1.</small> fine</a></h1>
<h1><a class="hlink" href="#also-fine"><small id="also-fine">2.</small> also fine</a></h1>
<h2><a class="hlink" href="#indented"><small id="indented">2.1</small> indented</a></h2>
<h1><a class="hlink" href="#unindented"><small id="unindented">3.</small> unindented</a></h1>
"##,
    );
    assert_eq!(
        toc,
        "<li class=\"toc-l1\"><a href=\"#fine\">1. fine</a></li>\
        <li class=\"toc-l1\"><a href=\"#also-fine\">2. also fine</a></li>\
        <li class=\"toc-l2\"><a href=\"#indented\">2.1 indented</a></li>\
        <li class=\"toc-l1\"><a href=\"#unindented\">3. unindented</a></li>"
    );
}

#[test]
fn heading_levels_one_one_two_one_are_numbered() {
    let (_, toc) = run("# a\n# b\n## c\n# d\n", &[]);
    let labels: Vec<&str> = toc
        .split("<li")
        .skip(1)
        .map(|item| {
            let start = item.find("\">").unwrap() + 2;
            let start = start + item[start..].find('>').unwrap() + 1;
            let rest = &item[start..];
            rest.split(' ').next().unwrap()
        })
        .collect();
    assert_eq!(labels, vec!["1.", "2.", "2.1", "3."]);
}

#[test]
fn heading_jump_of_two_levels_is_rejected() {
    let valid: Vec<String> = vec![];
    match convert("# a\n# b\n## c\n# d\n### e\n", &valid) {
        Err(ConvertError::BadHeading { level, current }) => {
            assert_eq!(level, 3);
            assert_eq!(current, 1);
        }
        other => panic!("unexpected {:?}", other),
    }
}

#[test]
fn known_internal_link_is_accepted() {
    let (content, _) = run("[x](/posts/my-first-post)", &["/posts/my-first-post"]);
    assert_eq!(content, "<p><a href=\"/posts/my-first-post\">x</a></p>\n");
}

#[test]
fn missing_internal_link_is_named() {
    let valid = vec!["/posts/my-first-post".to_string()];
    match convert("[x](/posts/missing)", &valid) {
        Err(ConvertError::MissingTarget { kind, dest }) => {
            assert_eq!(kind, LinkKind::Link);
            assert_eq!(dest, "/posts/missing");
        }
        other => panic!("unexpected {:?}", other),
    }
    assert_eq!(
        run("[x](/posts/missing)", &["/posts/my-first-post"]).0,
        "link '/posts/missing' references a relative path which does not exist"
    );
}

#[test]
fn external_link_passes_any_target_set() {
    for valid in [vec![], vec!["/posts/my-first-post"], vec!["/other"]] {
        let (content, _) = run("[x](https://example.com)", &valid);
        assert_eq!(content, "<p><a href=\"https://example.com\">x</a></p>\n");
    }
}

#[test]
fn empty_target_set_disables_link_checks() {
    let (content, _) = run("[x](/nonsense/../bogus) ![y](relative.png)", &[]);
    assert!(content.starts_with("<p><a href=\"/nonsense/../bogus\">x</a>"));
}

#[test]
fn undefined_reference_is_a_bad_link() {
    assert_eq!(run("see [the docs][nowhere]\n", &[]).0, "bad link 'nowhere'");
}

#[test]
fn first_problem_in_document_order_wins() {
    let (msg, _) = run("[a](/missing)\n\n### deep\n", &["/posts/x"]);
    assert_eq!(msg, "link '/missing' references a relative path which does not exist");
    let (msg, _) = run("### deep\n\n[a](/missing)\n", &["/posts/x"]);
    assert_eq!(msg, "bad heading with level h3: heading level should be h0, h-1, or h1");
}

#[test]
fn heading_text_is_escaped() {
    let (content, toc) = run("# Fish & Chips\n", &[]);
    assert_eq!(
        content,
        "<h1><a class=\"hlink\" href=\"#fish--chips\"><small id=\"fish--chips\">1.</small> Fish &amp; Chips</a></h1>\n"
    );
    assert_eq!(toc, "<li class=\"toc-l1\"><a href=\"#fish--chips\">1. Fish &amp; Chips</a></li>");
}

#[test]
fn empty_content_converts_to_nothing() {
    assert_eq!(run("", &[]), (String::new(), String::new()));
}

#[test]
fn valid_ids_keep_safe_characters() {
    assert_eq!(convert_to_valid_id("Hello World_1-2!?"), "hello-world_1-2");
    assert_eq!(convert_to_valid_id(""), "");
}

#[test]
fn link_check_rules() {
    let none: Vec<String> = vec![];
    let some = vec!["/posts/a".to_string()];
    assert!(check_link(&"/whatever".to_string(), &none));
    assert!(check_link(&"http://x".to_string(), &some));
    assert!(check_link(&"https://x".to_string(), &some));
    assert!(check_link(&"/posts/a".to_string(), &some));
    assert!(!check_link(&"/posts/b".to_string(), &some));
    assert!(!check_link(&"ftp://x".to_string(), &some));
}

#[test]
fn events_are_numbered_and_checked() {
    let events = vec![
        MdEvent::HeadingStart { level: 1, offset: 0 },
        MdEvent::Text { text: "A b".to_string() },
        MdEvent::Other,
        MdEvent::HeadingStart { level: 2, offset: 10 },
        MdEvent::Text { text: "c".to_string() },
        MdEvent::Text { text: "d".to_string() },
    ];
    let r = convert_events(&events, &vec![], &vec![]).ok().unwrap();
    assert_eq!(r.inline.len(), 6);
    assert_eq!(
        r.inline[1].as_deref(),
        Some("<a class=\"hlink\" href=\"#a-b\"><small id=\"a-b\">1.</small> A b</a>")
    );
    assert_eq!(
        r.inline[4].as_deref(),
        Some("<a class=\"hlink\" href=\"#c\"><small id=\"c\">1.1</small> c</a>")
    );
    assert_eq!(r.inline[5], None);
    assert_eq!(
        r.toc,
        "<li class=\"toc-l1\"><a href=\"#a-b\">1. A b</a></li><li class=\"toc-l2\"><a href=\"#c\">1.1 c</a></li>"
    );
}

#[test]
fn broken_reference_before_event_problem_wins() {
    let events = vec![
        MdEvent::LinkStart { kind: LinkKind::Image, dest: "/x".to_string(), offset: 20 },
    ];
    let broken = vec![bloog::markdown::BrokenRef { offset: 5, reference: "r".to_string() }];
    let valid = vec!["/y".to_string()];
    match convert_events(&events, &broken, &valid) {
        Err(ConvertError::BadLink { reference }) => assert_eq!(reference, "r"),
        _ => panic!("expected a bad link"),
    }
    let late = vec![bloog::markdown::BrokenRef { offset: 25, reference: "r".to_string() }];
    match convert_events(&events, &late, &valid) {
        Err(ConvertError::MissingTarget { kind, dest }) => {
            assert_eq!(kind, LinkKind::Image);
            assert_eq!(dest, "/x");
        }
        _ => panic!("expected a missing target"),
    }
}
