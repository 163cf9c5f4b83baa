use bibi::write::{bbcode_of_events, stream_bbcode, write_bbcode, MarkupEvent, MdTag};
use bibi::writefmt::{FmtWriter, IoWriter};
use bibi::read::dump_markdown;

fn text(s: &str) -> MarkupEvent {
    MarkupEvent::Text(s.as_bytes().to_vec())
}

#[test]
fn items_never_share_a_line() {
    let events = vec![
        MarkupEvent::Start(MdTag::List(None)),
        MarkupEvent::Start(MdTag::Item),
        text("a"),
        MarkupEvent::End(MdTag::Item),
        MarkupEvent::Start(MdTag::Item),
        text("b"),
        MarkupEvent::End(MdTag::Item),
        MarkupEvent::End(MdTag::List(None)),
    ];
    let out = bbcode_of_events(&events);
    assert_eq!(out, b"[list]\n[*]a\n[*]b\n[/list]\n".to_vec());
}

#[test]
fn ordered_list_start_one_is_typed() {
    let events = vec![
        MarkupEvent::Start(MdTag::List(Some(1))),
        MarkupEvent::Start(MdTag::Item),
        text("a"),
        MarkupEvent::End(MdTag::Item),
        MarkupEvent::End(MdTag::List(Some(1))),
    ];
    let out = bbcode_of_events(&events);
    assert_eq!(out, b"[list type=\"1\"]\n[*]a\n[/list]\n".to_vec());
}

#[test]
fn paragraph_and_emphasis() {
    let events = vec![
        MarkupEvent::Start(MdTag::Paragraph),
        MarkupEvent::Start(MdTag::Strong),
        text("Hello"),
        MarkupEvent::End(MdTag::Strong),
        text(" "),
        MarkupEvent::Start(MdTag::Strikethrough),
        text("everybody"),
        MarkupEvent::End(MdTag::Strikethrough),
        MarkupEvent::End(MdTag::Paragraph),
    ];
    let out = bbcode_of_events(&events);
    assert_eq!(out, b"[b]Hello[/b] [del]everybody[/del]\n\n".to_vec());
}

#[test]
fn heading_and_rule_and_breaks() {
    let events = vec![
        MarkupEvent::Start(MdTag::Heading),
        text("Title"),
        MarkupEvent::End(MdTag::Heading),
        MarkupEvent::Rule,
        text("a"),
        MarkupEvent::SoftBreak,
        text("b"),
        MarkupEvent::HardBreak,
        text("c"),
    ];
    let out = bbcode_of_events(&events);
    assert_eq!(out, b"[big]Title[/big]\n\n[hr]\na\nb\n\nc".to_vec());
}

#[test]
fn inline_code_event() {
    let events = vec![MarkupEvent::Code(b"x=1".to_vec())];
    let out = bbcode_of_events(&events);
    assert_eq!(out, b"[c=inline]x=1[/c]".to_vec());
}

#[test]
fn code_block_ends_on_its_own_line() {
    let events = vec![
        MarkupEvent::Start(MdTag::CodeBlock(Some(b"rust".to_vec()))),
        text("fn main(){}"),
        MarkupEvent::End(MdTag::CodeBlock(Some(b"rust".to_vec()))),
    ];
    let out = bbcode_of_events(&events);
    assert_eq!(out, b"[code=rust]\nfn main(){}\n[/code]\n".to_vec());
}

#[test]
fn code_block_language_defaults() {
    let events = vec![
        MarkupEvent::Start(MdTag::CodeBlock(None)),
        MarkupEvent::End(MdTag::CodeBlock(None)),
    ];
    let out = bbcode_of_events(&events);
    assert_eq!(out, b"[code=code]\n[/code]\n".to_vec());
    let events = vec![
        MarkupEvent::Start(MdTag::CodeBlock(Some(b"".to_vec()))),
        MarkupEvent::End(MdTag::CodeBlock(Some(b"".to_vec()))),
    ];
    let out = bbcode_of_events(&events);
    assert_eq!(out, b"[code=code]\n[/code]\n".to_vec());
}

#[test]
fn fence_info_takes_first_word() {
    let events = vec![
        MarkupEvent::Start(MdTag::CodeBlock(Some(b"rust ignore".to_vec()))),
        MarkupEvent::End(MdTag::CodeBlock(Some(b"rust ignore".to_vec()))),
    ];
    let out = bbcode_of_events(&events);
    assert_eq!(out, b"[code=rust]\n[/code]\n".to_vec());
}

#[test]
fn image_closes_itself() {
    let events = vec![
        MarkupEvent::Start(MdTag::Image(b"http://x/y.png".to_vec())),
        MarkupEvent::End(MdTag::Image(b"http://x/y.png".to_vec())),
    ];
    let out = bbcode_of_events(&events);
    assert_eq!(out, b"[img]http://x/y.png[/img]".to_vec());
}

#[test]
fn link_pair() {
    let events = vec![
        MarkupEvent::Start(MdTag::Link(b"http://a".to_vec())),
        text("click"),
        MarkupEvent::End(MdTag::Link(b"http://a".to_vec())),
    ];
    let out = bbcode_of_events(&events);
    assert_eq!(out, b"[url=http://a]click[/url]".to_vec());
}

#[test]
fn quote_block_events() {
    let events = vec![
        MarkupEvent::Start(MdTag::BlockQuote),
        text("quoted"),
        MarkupEvent::End(MdTag::BlockQuote),
    ];
    let out = bbcode_of_events(&events);
    assert_eq!(out, b"[quote]\nquoted[/quote]\n".to_vec());
}

#[test]
fn write_bbcode_into_string_sink() {
    let events = vec![
        MarkupEvent::Start(MdTag::Strong),
        text("x"),
        MarkupEvent::End(MdTag::Strong),
    ];
    let mut sink = FmtWriter::new(String::new());
    write_bbcode(&mut sink, &events).unwrap();
    assert_eq!(sink.into_inner(), "[b]x[/b]");
}

#[test]
fn dump_markdown_into_io_sink() {
    let mut sink = IoWriter::new(Vec::new());
    dump_markdown(&mut sink, "[b]Hello[/b]").unwrap();
    assert_eq!(sink.into_inner(), b"**Hello**".to_vec());
}

#[test]
fn stream_bbcode_writes_fragment_by_fragment() {
    let events = vec![
        MarkupEvent::Start(MdTag::List(None)),
        MarkupEvent::Start(MdTag::Item),
        text("a"),
        MarkupEvent::Start(MdTag::Item),
        text("b"),
        MarkupEvent::End(MdTag::List(None)),
    ];
    let mut sink = FmtWriter::new(String::new());
    stream_bbcode(&mut sink, &events).unwrap();
    assert_eq!(sink.into_inner(), "[list]\n[*]a\n[*]b\n[/list]\n");
}
