use bibi::write::{bbcode_of_events, MarkupEvent, MdTag};
use pulldown_cmark::{CodeBlockKind, Event, Options, Parser, Tag};

fn map_tag(tag: Tag) -> Option<MdTag> {
    match tag {
        Tag::Paragraph => Some(MdTag::Paragraph),
        Tag::Heading(..) => Some(MdTag::Heading),
        Tag::BlockQuote => Some(MdTag::BlockQuote),
        Tag::CodeBlock(CodeBlockKind::Fenced(info)) => {
            Some(MdTag::CodeBlock(Some(info.as_bytes().to_vec())))
        }
        Tag::CodeBlock(CodeBlockKind::Indented) => Some(MdTag::CodeBlock(None)),
        Tag::List(start) => Some(MdTag::List(start)),
        Tag::Item => Some(MdTag::Item),
        Tag::Emphasis => Some(MdTag::Emphasis),
        Tag::Strong => Some(MdTag::Strong),
        Tag::Strikethrough => Some(MdTag::Strikethrough),
        Tag::Link(_, dest, _) => Some(MdTag::Link(dest.as_bytes().to_vec())),
        Tag::Image(_, dest, _) => Some(MdTag::Image(dest.as_bytes().to_vec())),
        _ => None,
    }
}

fn events_of(contents: &str) -> Vec<MarkupEvent> {
    let mut options = Options::empty();
    options.insert(Options::ENABLE_STRIKETHROUGH);
    let mut events = Vec::new();
    for event in Parser::new_ext(contents, options) {
        let mapped = match event {
            Event::Start(tag) => map_tag(tag).map(MarkupEvent::Start),
            Event::End(tag) => map_tag(tag).map(MarkupEvent::End),
            Event::Text(t) => Some(MarkupEvent::Text(t.as_bytes().to_vec())),
            Event::Code(t) => Some(MarkupEvent::Code(t.as_bytes().to_vec())),
            Event::SoftBreak => Some(MarkupEvent::SoftBreak),
            Event::HardBreak => Some(MarkupEvent::HardBreak),
            Event::Rule => Some(MarkupEvent::Rule),
            _ => None,
        };
        if let Some(ev) = mapped {
            events.push(ev);
        }
    }
    events
}

fn to_bbcode(contents: &str) -> String {
    String::from_utf8(bbcode_of_events(&events_of(contents))).unwrap()
}

#[test]
fn bullet_list_of_three() {
    let out = to_bbcode("- one\n- two\n- three\n");
    assert_eq!(out, "[list]\n[*]one\n[*]two\n[*]three\n[/list]\n");
}

#[test]
fn ordered_list_starting_at_five() {
    let out = to_bbcode("5. one\n6. two\n");
    assert_eq!(out, "[list start=\"5\"]\n[*]one\n[*]two\n[/list]\n");
}

#[test]
fn image_round_trips_once() {
    let out = to_bbcode("![](http://x/y.png)");
    assert_eq!(out, "[img]http://x/y.png[/img]\n\n");
    assert_eq!(out.matches("[/img]").count(), 1);
}

#[test]
fn strong_and_strikethrough_to_bbcode() {
    let out = to_bbcode("**Hello** ~~everybody~~");
    assert_eq!(out, "[b]Hello[/b] [del]everybody[/del]\n\n");
}

#[test]
fn fenced_code_to_bbcode() {
    let out = to_bbcode("```rust\nfn main(){}\n```\n");
    assert_eq!(out, "[code=rust]\nfn main(){}\n[/code]\n");
}

#[test]
fn heading_to_bbcode() {
    let out = to_bbcode("# Title\n");
    assert_eq!(out, "[big]Title[/big]\n\n");
}

#[test]
fn inline_code_to_bbcode() {
    let out = to_bbcode("`x=1`");
    assert_eq!(out, "[c=inline]x=1[/c]\n\n");
}

#[test]
fn thematic_break_to_bbcode() {
    let out = to_bbcode("a\n\n---\n\nb\n");
    assert_eq!(out, "a\n\n[hr]\nb\n\n");
}

#[test]
fn quote_to_bbcode() {
    let out = to_bbcode("> quoted\n");
    assert_eq!(out, "[quote]\nquoted\n\n[/quote]\n");
}

#[test]
fn markdown_to_bbcode_is_total_on_garbage() {
    let srcs = ["***[[", "``", "> > > -", "1. 2. 3.", "~~~"];
    for s in srcs {
        let _ = to_bbcode(s);
    }
}
