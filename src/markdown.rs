//! Markdown conversion: a single pass over the parser's events that numbers the
//! headings, builds a table of contents, checks the heading nesting and the internal
//! link targets, and keeps the first problem it meets.

use vstd::prelude::*;
use crate::text::{
    ascii_lower, chars_of, decimal, has_prefix, lower_char, push_char, push_decimal,
    push_signed, push_str, signed_decimal, starts_with,
};
use pulldown_cmark::{BrokenLink, Event, Options, Parser, Tag};

verus! {

/// The parser extensions in use: tables, footnotes, strikethrough, smart punctuation,
/// definition lists, superscript and subscript.
pub const MARKDOWN_OPTIONS: u32 = 28718;

/// Whether a destination was met on a link or on an image.
#[derive(Clone, Copy, Debug, PartialEq, Eq, Structural)]
pub enum LinkKind {
    Link,
    Image,
}

/// What the conversion reads of one parser event.
#[derive(Clone, Debug)]
pub enum MdEvent {
    /// The start of a heading, with its level and the offset of its first byte.
    HeadingStart { level: u8, offset: usize },
    /// A run of text.
    Text { text: String },
    /// The start of a link or an image, with its destination.
    LinkStart { kind: LinkKind, dest: String, offset: usize },
    /// Any other event.
    Other,
}

/// A reference-style link whose label has no definition.
#[derive(Clone, Debug)]
pub struct BrokenRef {
    pub offset: usize,
    pub reference: String,
}

/// Why a document was rejected.
#[derive(Clone, Debug)]
pub enum ConvertError {
    /// A heading at `level` below a heading at `current`, more than one level apart.
    BadHeading { level: u8, current: u8 },
    /// An internal destination that is not among the known targets.
    MissingTarget { kind: LinkKind, dest: String },
    /// A reference-style link with an undefined label.
    BadLink { reference: String },
}

pub open spec fn kind_word(k: LinkKind) -> Seq<char> {
    match k {
        LinkKind::Link => "link"@,
        LinkKind::Image => "image"@,
    }
}

impl ConvertError {
    pub open spec fn spec_message(&self) -> Seq<char> {
        match self {
            ConvertError::BadHeading { level, current } =>
                "bad heading with level h"@ + decimal(*level as nat)
                    + ": heading level should be h"@ + decimal(*current as nat)
                    + ", h"@ + signed_decimal(*current - 1) + ", or h"@
                    + decimal((*current + 1) as nat),
            ConvertError::MissingTarget { kind, dest } =>
                kind_word(*kind) + " '"@ + dest@ + "' references a relative path which does not exist"@,
            ConvertError::BadLink { reference } => "bad link '"@ + reference@ + "'"@,
        }
    }

    /// The human-readable message.
    pub fn message(&self) -> (r: String)
        ensures
            r@ == self.spec_message(),
    {
        let mut s = String::new();
        match self {
            ConvertError::BadHeading { level, current } => {
                push_str(&mut s, "bad heading with level h");
                push_decimal(&mut s, *level as usize);
                push_str(&mut s, ": heading level should be h");
                push_decimal(&mut s, *current as usize);
                push_str(&mut s, ", h");
                push_signed(&mut s, *current as i32 - 1);
                push_str(&mut s, ", or h");
                push_decimal(&mut s, *current as usize + 1);
            },
            ConvertError::MissingTarget { kind, dest } => {
                match kind {
                    LinkKind::Link => push_str(&mut s, "link"),
                    LinkKind::Image => push_str(&mut s, "image"),
                }
                push_str(&mut s, " '");
                push_str(&mut s, dest.as_str());
                push_str(&mut s, "' references a relative path which does not exist");
            },
            ConvertError::BadLink { reference } => {
                push_str(&mut s, "bad link '");
                push_str(&mut s, reference.as_str());
                push_str(&mut s, "'");
            },
        }
        assert(s@ =~= self.spec_message());
        s
    }
}

/// What maud's escaper makes of one character.
pub open spec fn escape_char(c: char) -> Seq<char> {
    if c == '&' {
        "&amp;"@
    } else if c == '<' {
        "&lt;"@
    } else if c == '>' {
        "&gt;"@
    } else if c == '"' {
        "&quot;"@
    } else {
        seq![c]
    }
}

/// Text escaped for HTML: `&`, `<`, `>` and `"` become entities, the rest is kept.
pub open spec fn escape_html(s: Seq<char>) -> Seq<char>
    decreases s.len(),
{
    if s.len() == 0 {
        Seq::empty()
    } else {
        escape_html(s.drop_last()) + escape_char(s.last())
    }
}

/// Relies on maud's `Render` for `str`: it escapes `&`, `<`, `>` and `"` and keeps every
/// other character.
#[verifier::external_body]
fn escaped(s: &str) -> (r: String)
    ensures
        r@ == escape_html(s@),
{
    let mut out = String::new();
    maud::Render::render_to(s, &mut out);
    out
}

/// What one character of a heading's text becomes in its anchor id.
pub open spec fn id_char(c: char) -> Seq<char> {
    if ('a' <= c && c <= 'z') || ('0' <= c && c <= '9') || c == '_' || c == '-' {
        seq![c]
    } else if 'A' <= c && c <= 'Z' {
        seq![ascii_lower(c)]
    } else if c == ' ' {
        seq!['-']
    } else {
        Seq::empty()
    }
}

/// The anchor id of a heading's text: ASCII letters lower-cased, digits, `_` and `-`
/// kept, spaces turned into `-`, everything else dropped.
pub open spec fn valid_id(s: Seq<char>) -> Seq<char>
    decreases s.len(),
{
    if s.len() == 0 {
        Seq::empty()
    } else {
        valid_id(s.drop_last()) + id_char(s.last())
    }
}

/// The anchor id of a heading's text.
pub fn convert_to_valid_id(s: &str) -> (r: String)
    ensures
        r@ == valid_id(s@),
{
    let cs = chars_of(s);
    let mut out = String::new();
    let mut i: usize = 0;
    while i < cs.len()
        invariant
            cs@ == s@,
            i <= cs.len(),
            out@ == valid_id(s@.subrange(0, i as int)),
        decreases cs.len() - i,
    {
        let c = cs[i];
        if ('a' <= c && c <= 'z') || ('0' <= c && c <= '9') || c == '_' || c == '-' {
            push_char(&mut out, c);
        } else if 'A' <= c && c <= 'Z' {
            push_char(&mut out, lower_char(c));
        } else if c == ' ' {
            push_char(&mut out, '-');
        }
        assert(s@.subrange(0, i + 1).drop_last() =~= s@.subrange(0, i as int));
        assert(out@ =~= valid_id(s@.subrange(0, i + 1)));
        i = i + 1;
    }
    assert(s@.subrange(0, cs.len() as int) =~= s@);
    out
}

/// The state of the conversion after some events, as mathematical values.
pub struct ConvView {
    /// The level of the last accepted heading, zero before any.
    pub level: u8,
    /// One counter for each open heading depth.
    pub numbers: Seq<int>,
    /// The numbering label waiting for the heading's text.
    pub prefix: Option<Seq<char>>,
    /// The table of contents so far.
    pub toc: Seq<char>,
    /// For each event so far, the inline HTML that replaces it, if any.
    pub inline: Seq<Option<Seq<char>>>,
    /// The first problem met, with the offset of the event that showed it.
    pub error: Option<(int, ConvertError)>,
}

pub open spec fn conv_init() -> ConvView {
    ConvView {
        level: 0,
        numbers: Seq::empty(),
        prefix: None,
        toc: Seq::empty(),
        inline: Seq::empty(),
        error: None,
    }
}

/// The counters after an accepted heading at level `l`, coming from level `level`.
pub open spec fn renumber(ns: Seq<int>, level: int, l: int) -> Seq<int> {
    if l == level && ns.len() > 0 {
        ns.drop_last().push(ns.last() + 1)
    } else if l > level {
        ns.push(1)
    } else if l < level {
        let p = if ns.len() > 0 { ns.drop_last() } else { ns };
        if p.len() > 0 { p.drop_last().push(p.last() + 1) } else { p }
    } else {
        ns
    }
}

/// The label of the first `k` counters: each followed by a dot, but for the last one of
/// two or more.
pub open spec fn label_upto(ns: Seq<int>, k: int) -> Seq<char>
    decreases k,
{
    if k <= 0 {
        Seq::empty()
    } else {
        label_upto(ns, k - 1) + decimal(ns[k - 1] as nat) + (if ns.len() == 1 || k < ns.len() {
            seq!['.']
        } else {
            Seq::empty()
        })
    }
}

/// The numbering label of a heading, such as `2.` or `2.1`.
pub open spec fn heading_label(ns: Seq<int>) -> Seq<char> {
    label_upto(ns, ns.len() as int)
}

/// One entry of the table of contents.
pub open spec fn toc_entry(depth: nat, id: Seq<char>, label: Seq<char>, text: Seq<char>) -> Seq<char> {
    "<li class=\"toc-l"@ + decimal(depth) + "\"><a href=\"#"@ + id + "\">"@ + label + " "@
        + escape_html(text) + "</a></li>"@
}

/// The inline HTML that takes the place of a heading's text.
pub open spec fn anchor_html(id: Seq<char>, label: Seq<char>, text: Seq<char>) -> Seq<char> {
    "<a class=\"hlink\" href=\"#"@ + id + "\"><small id=\""@ + id + "\">"@ + label + "</small> "@
        + escape_html(text) + "</a>"@
}

/// Whether a destination is accepted: the check is off when no target is known, and
/// `http://` and `https://` destinations are always accepted.
pub open spec fn link_ok(dest: Seq<char>, valid: Seq<Seq<char>>) -> bool {
    valid.len() == 0 || has_prefix(dest, "http://"@) || has_prefix(dest, "https://"@)
        || valid.contains(dest)
}

/// Keeps an earlier problem; records `e` only where none was met before.
pub open spec fn keep_first(
    err: Option<(int, ConvertError)>,
    offset: int,
    e: ConvertError,
) -> Option<(int, ConvertError)> {
    if err is Some { err } else { Some((offset, e)) }
}

/// The state after one more event.
pub open spec fn conv_step(s: ConvView, e: MdEvent, valid: Seq<Seq<char>>) -> ConvView {
    match e {
        MdEvent::HeadingStart { level, offset } => {
            if (level as int) < s.level - 1 || (level as int) > s.level + 1 {
                ConvView {
                    inline: s.inline.push(None),
                    error: keep_first(
                        s.error,
                        offset as int,
                        ConvertError::BadHeading { level, current: s.level },
                    ),
                    ..s
                }
            } else {
                let ns = renumber(s.numbers, s.level as int, level as int);
                ConvView {
                    level,
                    numbers: ns,
                    prefix: Some(heading_label(ns)),
                    inline: s.inline.push(None),
                    ..s
                }
            }
        },
        MdEvent::Text { text } => match s.prefix {
            Some(p) => {
                let id = valid_id(text@);
                ConvView {
                    prefix: None,
                    toc: s.toc + toc_entry(s.numbers.len(), id, p, text@),
                    inline: s.inline.push(Some(anchor_html(id, p, text@))),
                    ..s
                }
            },
            None => ConvView { inline: s.inline.push(None), ..s },
        },
        MdEvent::LinkStart { kind, dest, offset } => ConvView {
            prefix: None,
            inline: s.inline.push(None),
            error: if link_ok(dest@, valid) {
                s.error
            } else {
                keep_first(s.error, offset as int, ConvertError::MissingTarget { kind, dest })
            },
            ..s
        },
        MdEvent::Other => ConvView { prefix: None, inline: s.inline.push(None), ..s },
    }
}

/// The state after a sequence of events.
pub open spec fn conv_run(events: Seq<MdEvent>, valid: Seq<Seq<char>>) -> ConvView
    decreases events.len(),
{
    if events.len() == 0 {
        conv_init()
    } else {
        conv_step(conv_run(events.drop_last(), valid), events.last(), valid)
    }
}

/// The problem that is reported: the first one in document order among the first
/// problem of the events and the first undefined reference.
pub open spec fn first_error(v: ConvView, broken: Seq<BrokenRef>) -> Option<ConvertError> {
    match v.error {
        Some((o, e)) => if broken.len() > 0 && (broken[0].offset as int) < o {
            Some(ConvertError::BadLink { reference: broken[0].reference })
        } else {
            Some(e)
        },
        None => if broken.len() > 0 {
            Some(ConvertError::BadLink { reference: broken[0].reference })
        } else {
            None
        },
    }
}

pub open spec fn opt_view(o: Option<String>) -> Option<Seq<char>> {
    match o {
        Some(s) => Some(s@),
        None => None,
    }
}

pub open spec fn inline_view(v: Seq<Option<String>>) -> Seq<Option<Seq<char>>> {
    v.map_values(|o: Option<String>| opt_view(o))
}

pub open spec fn strings_view(v: Seq<String>) -> Seq<Seq<char>> {
    v.map_values(|s: String| s@)
}

pub open spec fn nums_view(v: Seq<usize>) -> Seq<int> {
    v.map_values(|x: usize| x as int)
}

fn renumber_counters(numbers: &mut Vec<usize>, level: u8, l: u8, bound: usize)
    requires
        bound < usize::MAX,
        forall|j: int| 0 <= j < old(numbers)@.len() ==> old(numbers)@[j] <= bound,
    ensures
        nums_view(final(numbers)@) == renumber(nums_view(old(numbers)@), level as int, l as int),
        forall|j: int| 0 <= j < final(numbers)@.len() ==> final(numbers)@[j] <= bound + 1,
{
    let ghost ns = nums_view(numbers@);
    if l == level && numbers.len() > 0 {
        let last = numbers.pop().unwrap();
        numbers.push(last + 1);
        assert(nums_view(numbers@) =~= ns.drop_last().push(ns.last() + 1));
    } else if l > level {
        numbers.push(1);
        assert(nums_view(numbers@) =~= ns.push(1));
    } else if l < level {
        if numbers.len() > 0 {
            numbers.pop();
        }
        let ghost p = nums_view(numbers@);
        assert(p =~= if ns.len() > 0 { ns.drop_last() } else { ns });
        if numbers.len() > 0 {
            let last = numbers.pop().unwrap();
            numbers.push(last + 1);
            assert(nums_view(numbers@) =~= p.drop_last().push(p.last() + 1));
        }
    }
}

fn label_of(numbers: &Vec<usize>) -> (r: String)
    ensures
        r@ == heading_label(nums_view(numbers@)),
{
    let ghost ns = nums_view(numbers@);
    let mut out = String::new();
    let mut i: usize = 0;
    while i < numbers.len()
        invariant
            ns == nums_view(numbers@),
            i <= numbers.len(),
            out@ == label_upto(ns, i as int),
        decreases numbers.len() - i,
    {
        push_decimal(&mut out, numbers[i]);
        if numbers.len() == 1 || i < numbers.len() - 1 {
            push_char(&mut out, '.');
        }
        assert(out@ =~= label_upto(ns, i + 1));
        i = i + 1;
    }
    out
}

/// Whether `dest` is accepted against the known targets `valid`.
pub fn check_link(dest: &String, valid: &Vec<String>) -> (r: bool)
    ensures
        r == link_ok(dest@, strings_view(valid@)),
{
    let ghost vv = strings_view(valid@);
    if valid.len() == 0 {
        return true;
    }
    let cs = chars_of(dest.as_str());
    if starts_with(&cs, "http://") || starts_with(&cs, "https://") {
        return true;
    }
    let mut i: usize = 0;
    while i < valid.len()
        invariant
            vv == strings_view(valid@),
            i <= valid.len(),
            forall|j: int| 0 <= j < i ==> vv[j] != dest@,
        decreases valid.len() - i,
    {
        if valid[i] == *dest {
            assert(vv[i as int] == dest@);
            return true;
        }
        i = i + 1;
    }
    assert(!vv.contains(dest@));
    false
}

fn toc_entry_of(depth: usize, id: &String, label: &String, text: &String) -> (r: String)
    ensures
        r@ == toc_entry(depth as nat, id@, label@, text@),
{
    let mut s = String::new();
    push_str(&mut s, "<li class=\"toc-l");
    push_decimal(&mut s, depth);
    push_str(&mut s, "\"><a href=\"#");
    push_str(&mut s, id.as_str());
    push_str(&mut s, "\">");
    push_str(&mut s, label.as_str());
    push_str(&mut s, " ");
    let e = escaped(text.as_str());
    push_str(&mut s, e.as_str());
    push_str(&mut s, "</a></li>");
    assert(s@ =~= toc_entry(depth as nat, id@, label@, text@));
    s
}

fn anchor_of(id: &String, label: &String, text: &String) -> (r: String)
    ensures
        r@ == anchor_html(id@, label@, text@),
{
    let mut s = String::new();
    push_str(&mut s, "<a class=\"hlink\" href=\"#");
    push_str(&mut s, id.as_str());
    push_str(&mut s, "\"><small id=\"");
    push_str(&mut s, id.as_str());
    push_str(&mut s, "\">");
    push_str(&mut s, label.as_str());
    push_str(&mut s, "</small> ");
    let e = escaped(text.as_str());
    push_str(&mut s, e.as_str());
    push_str(&mut s, "</a>");
    assert(s@ =~= anchor_html(id@, label@, text@));
    s
}

/// The result of a conversion whose events passed every check: for each event the
/// inline HTML that replaces it, if any, and the table of contents.
pub struct Rendering {
    pub inline: Vec<Option<String>>,
    pub toc: String,
}

/// Runs the checks and the heading numbering over the events of a document, and
/// reports the first problem in document order, if any.
pub fn convert_events(
    events: &Vec<MdEvent>,
    broken: &Vec<BrokenRef>,
    valid: &Vec<String>,
) -> (r: Result<Rendering, ConvertError>)
    ensures
        ({
            let v = conv_run(events@, strings_view(valid@));
            match r {
                Ok(out) => first_error(v, broken@) is None && inline_view(out.inline@) == v.inline
                    && out.toc@ == v.toc,
                Err(e) => first_error(v, broken@) == Some(e),
            }
        }),
{
    let ghost vv = strings_view(valid@);
    let mut level: u8 = 0;
    let mut numbers: Vec<usize> = Vec::new();
    let mut prefix: Option<String> = None;
    let mut toc = String::new();
    let mut inline: Vec<Option<String>> = Vec::new();
    let mut error: Option<(usize, ConvertError)> = None;
    let mut i: usize = 0;
    while i < events.len()
        invariant
            vv == strings_view(valid@),
            i <= events.len(),
            forall|j: int| 0 <= j < numbers@.len() ==> numbers@[j] <= i,
            ({
                let v = conv_run(events@.take(i as int), vv);
                &&& level == v.level
                &&& nums_view(numbers@) == v.numbers
                &&& opt_view(prefix) == v.prefix
                &&& toc@ == v.toc
                &&& inline_view(inline@) == v.inline
                &&& match error {
                    Some((o, e)) => v.error == Some((o as int, e)),
                    None => v.error is None,
                }
            }),
        decreases events.len() - i,
    {
        assert(events@.take(i + 1).drop_last() =~= events@.take(i as int));
        assert(events@.take(i + 1).last() == events@[i as int]);
        match &events[i] {
            MdEvent::HeadingStart { level: l, offset } => {
                if (*l as u16) + 1 < level as u16 || (*l as u16) > level as u16 + 1 {
                    if error.is_none() {
                        error = Some((*offset, ConvertError::BadHeading { level: *l, current: level }));
                    }
                    inline.push(None);
                } else {
                    renumber_counters(&mut numbers, level, *l, i);
                    level = *l;
                    prefix = Some(label_of(&numbers));
                    inline.push(None);
                }
            },
            MdEvent::Text { text } => {
                match &prefix {
                    Some(p) => {
                        let id = convert_to_valid_id(text.as_str());
                        let entry = toc_entry_of(numbers.len(), &id, p, text);
                        push_str(&mut toc, entry.as_str());
                        inline.push(Some(anchor_of(&id, p, text)));
                        prefix = None;
                    },
                    None => {
                        inline.push(None);
                    },
                }
            },
            MdEvent::LinkStart { kind, dest, offset } => {
                prefix = None;
                inline.push(None);
                if !check_link(dest, valid) && error.is_none() {
                    error = Some((*offset, ConvertError::MissingTarget { kind: *kind, dest: dest.clone() }));
                }
            },
            MdEvent::Other => {
                prefix = None;
                inline.push(None);
            },
        }
        assert(inline_view(inline@) =~= conv_run(events@.take(i + 1), vv).inline);
        i = i + 1;
    }
    assert(events@.take(events.len() as int) =~= events@);
    match error {
        Some((o, e)) => {
            if broken.len() > 0 && broken[0].offset < o {
                Err(ConvertError::BadLink { reference: broken[0].reference.clone() })
            } else {
                Err(e)
            }
        },
        None => {
            if broken.len() > 0 {
                Err(ConvertError::BadLink { reference: broken[0].reference.clone() })
            } else {
                Ok(Rendering { inline, toc })
            }
        },
    }
}

/// The events that pulldown-cmark's parser yields for a text under the given option bits,
/// as far as the conversion reads them.
pub uninterp spec fn markdown_events(text: Seq<char>, options: u32) -> Seq<MdEvent>;

/// The undefined reference labels that pulldown-cmark's parser meets in a text under the
/// given option bits, in the order it meets them.
pub uninterp spec fn markdown_broken(text: Seq<char>, options: u32) -> Seq<BrokenRef>;

/// The HTML that pulldown-cmark writes for the events of a text, where each event with a
/// replacement is written as that inline HTML instead.
pub uninterp spec fn markdown_html(
    text: Seq<char>,
    options: u32,
    inline: Seq<Option<Seq<char>>>,
) -> Seq<char>;

/// Every heading start has a level from 1 to 6.
pub open spec fn levels_in_range(events: Seq<MdEvent>) -> bool {
    forall|i: int| 0 <= i < events.len() ==> (#[trigger] events[i] matches MdEvent::HeadingStart { level, .. }
        ==> 1 <= level <= 6)
}

/// Relies on pulldown_cmark::Parser and its offset iterator: the events of `text`, with
/// the start offsets of headings, links and images.
#[verifier::external_body]
fn parse_events(text: &str, options: u32) -> (r: Vec<MdEvent>)
    ensures
        r@ == markdown_events(text@, options),
        levels_in_range(r@),
{
    Parser::new_ext(text, Options::from_bits_truncate(options)).into_offset_iter().map(|(e, r)| match e {
        Event::Start(Tag::Heading { level, .. }) => MdEvent::HeadingStart { level: level as u8, offset: r.start },
        Event::Start(Tag::Link { dest_url, .. }) => MdEvent::LinkStart { kind: LinkKind::Link, dest: dest_url.to_string(), offset: r.start },
        Event::Start(Tag::Image { dest_url, .. }) => MdEvent::LinkStart { kind: LinkKind::Image, dest: dest_url.to_string(), offset: r.start },
        Event::Text(t) => MdEvent::Text { text: t.to_string() },
        _ => MdEvent::Other,
    }).collect()
}

/// Relies on pulldown_cmark::Parser with a broken-link callback that resolves nothing:
/// each undefined reference label, with its start offset, in the order met.
#[verifier::external_body]
fn broken_references(text: &str, options: u32) -> (r: Vec<BrokenRef>)
    ensures
        r@ == markdown_broken(text@, options),
{
    let mut broken = Vec::new();
    let callback = |l: BrokenLink| {
        broken.push(BrokenRef { offset: l.span.start, reference: l.reference.to_string() });
        None
    };
    Parser::new_with_broken_link_callback(text, Options::from_bits_truncate(options), Some(callback)).for_each(drop);
    broken
}

/// Relies on pulldown_cmark::Parser and pulldown_cmark::html::push_html: the HTML of the
/// events of `text`, where the event at index `i` is written as `inline[i]` when that is set.
#[verifier::external_body]
fn render_markdown(text: &str, options: u32, inline: &Vec<Option<String>>) -> (r: String)
    ensures
        r@ == markdown_html(text@, options, inline_view(inline@)),
{
    let events = Parser::new_ext(text, Options::from_bits_truncate(options)).enumerate().map(|(i, e)| match inline.get(i) {
        Some(Some(h)) => Event::InlineHtml(h.clone().into()),
        _ => e,
    });
    let mut out = String::new();
    pulldown_cmark::html::push_html(&mut out, events);
    out
}

/// Converts markdown to HTML and a table of contents, or reports the first problem in
/// document order: a heading more than one level away from the one before, an internal
/// destination that is not in `valid` (when `valid` is not empty), or an undefined
/// reference label.
pub fn convert(content: &str, valid: &Vec<String>) -> (r: Result<(String, String), ConvertError>)
    ensures
        ({
            let v = conv_run(markdown_events(content@, MARKDOWN_OPTIONS), strings_view(valid@));
            let broken = markdown_broken(content@, MARKDOWN_OPTIONS);
            match r {
                Ok((html, toc)) => first_error(v, broken) is None
                    && html@ == markdown_html(content@, MARKDOWN_OPTIONS, v.inline)
                    && toc@ == v.toc,
                Err(e) => first_error(v, broken) == Some(e),
            }
        }),
{
    let events = parse_events(content, MARKDOWN_OPTIONS);
    let broken = broken_references(content, MARKDOWN_OPTIONS);
    match convert_events(&events, &broken, valid) {
        Ok(rendering) => {
            let html = render_markdown(content, MARKDOWN_OPTIONS, &rendering.inline);
            Ok((html, rendering.toc))
        },
        Err(e) => Err(e),
    }
}

/// A dangling-target problem names a destination that is neither `http://` nor
/// `https://` and is missing from a non-empty set of targets. So an empty target set
/// turns the check off, and external destinations pass whatever the set holds.
pub proof fn lemma_missing_target_is_dangling(events: Seq<MdEvent>, valid: Seq<Seq<char>>)
    ensures
        conv_run(events, valid).error matches Some((_, ConvertError::MissingTarget { dest, .. }))
            ==> valid.len() > 0 && !has_prefix(dest@, "http://"@)
                && !has_prefix(dest@, "https://"@) && !valid.contains(dest@),
    decreases events.len(),
{
    if events.len() > 0 {
        lemma_missing_target_is_dangling(events.drop_last(), valid);
    }
}

/// Over events whose heading levels run from 1 to 6, the outline stays in shape: one
/// counter per open heading depth, the depth at most 6, and every counter at least 1.
pub proof fn lemma_outline_shape(events: Seq<MdEvent>, valid: Seq<Seq<char>>)
    requires
        levels_in_range(events),
    ensures
        ({
            let v = conv_run(events, valid);
            &&& v.numbers.len() == v.level
            &&& v.level <= 6
            &&& forall|j: int| 0 <= j < v.numbers.len() ==> v.numbers[j] >= 1
        }),
    decreases events.len(),
{
    if events.len() > 0 {
        let rest = events.drop_last();
        assert forall|i: int| 0 <= i < rest.len() implies (#[trigger] rest[i] matches MdEvent::HeadingStart { level, .. }
            ==> 1 <= level <= 6) by {
            assert(rest[i] == events[i]);
        }
        lemma_outline_shape(rest, valid);
        let s = conv_run(rest, valid);
        assert(events.last() == events[events.len() - 1]);
        match events.last() {
            MdEvent::HeadingStart { level, .. } => {
                let ns = renumber(s.numbers, s.level as int, level as int);
                if !((level as int) < s.level - 1 || (level as int) > s.level + 1) {
                    assert(ns.len() == level);
                    assert forall|j: int| 0 <= j < ns.len() implies ns[j] >= 1 by {
                        if level as int == s.level && s.numbers.len() > 0 {
                            if j < ns.len() - 1 { assert(ns[j] == s.numbers[j]); }
                        } else if (level as int) > s.level {
                            if j < ns.len() - 1 { assert(ns[j] == s.numbers[j]); }
                        } else {
                            let p = s.numbers.drop_last();
                            if j < ns.len() - 1 { assert(ns[j] == p[j]); assert(p[j] == s.numbers[j]); }
                            else { assert(ns[j] == p.last() + 1); assert(p.last() == s.numbers[p.len() - 1]); }
                        }
                    }
                }
            },
            _ => {},
        }
    }
}

} // verus!
