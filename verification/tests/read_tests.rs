use bibi::read::to_markdown;

#[test]
fn bold_and_strikethrough() {
    let out = to_markdown("[b]Hello[/b] [del]everybody[/del]").unwrap();
    assert_eq!(out, "**Hello** ~~everybody~~");
}

#[test]
fn inline_code_span() {
    let out = to_markdown("[c=\"inline\"]x=1[/c]").unwrap();
    assert_eq!(out, "`x=1`");
}

#[test]
fn multiline_code_span() {
    let out = to_markdown("[code=\"rust\"]\nfn main(){}\n[/code]").unwrap();
    assert_eq!(out, "```rust\n\nfn main(){}\n\n```\n");
}

#[test]
fn multiline_code_default_language() {
    let out = to_markdown("[code=\"code\"]\nx\n[/code]").unwrap();
    assert_eq!(out, "```\n\nx\n\n```\n");
}

#[test]
fn code_span_is_opaque_inline() {
    let out = to_markdown("[c=\"l\"][b]bold[/b][/c]").unwrap();
    assert_eq!(out, "`[b]bold[/b]`");
}

#[test]
fn code_span_is_opaque_multiline() {
    let out = to_markdown("[code=\"l\"][list][*]a[/list][/code]").unwrap();
    assert_eq!(out, "```l\n[list][*]a[/list]\n```\n");
}

#[test]
fn unterminated_code_tag_is_literal() {
    let out = to_markdown("[c=unterminated").unwrap();
    assert_eq!(out, "[c=unterminated");
}

#[test]
fn inline_code_may_not_cross_a_line() {
    let out = to_markdown("[c=\"l\"]a\nb[/c]").unwrap();
    assert_eq!(out, "[c=\"l\"]a\nb[/c]");
}

#[test]
fn bad_code_label_is_literal() {
    let out = to_markdown("[c=\"a\"b]x[/c]").unwrap();
    assert_eq!(out, "[c=\"a\"b]x[/c]");
}

#[test]
fn empty_input() {
    let out = to_markdown("").unwrap();
    assert_eq!(out, "");
}

#[test]
fn labelled_url() {
    let out = to_markdown("[url=\"http://a\"]click[/url]").unwrap();
    assert_eq!(out, "[click](http://a)");
}

#[test]
fn bare_url() {
    let out = to_markdown("[url]http://a[/url]").unwrap();
    assert_eq!(out, "[](http://a)");
}

#[test]
fn image_tag() {
    let out = to_markdown("[img]http://x[/img]").unwrap();
    assert_eq!(out, "![](http://x)");
}

#[test]
fn heading_line() {
    let out = to_markdown("[big]Title[/big]").unwrap();
    assert_eq!(out, "# Title");
}

#[test]
fn heading_must_be_line_anchored() {
    let out = to_markdown("x [big]Title[/big]").unwrap();
    assert_eq!(out, "x [big]Title[/big]");
}

#[test]
fn heading_between_lines() {
    let out = to_markdown("a\n  [big]T[/big]  \nb").unwrap();
    assert_eq!(out, "a\n# T\nb");
}

#[test]
fn italic_and_cur() {
    assert_eq!(to_markdown("[i]x[/i]").unwrap(), "*x*");
    assert_eq!(to_markdown("[cur]x[/cur]").unwrap(), "*x*");
}

#[test]
fn tags_match_case_insensitively() {
    assert_eq!(to_markdown("[B]x[/B]").unwrap(), "**x**");
}

#[test]
fn quote_block() {
    let out = to_markdown("[quote]line1\nline2[/quote]").unwrap();
    assert_eq!(out, "> line1\n> line2");
}

#[test]
fn quote_block_trailing_newline() {
    let out = to_markdown("[quote]\nline1\nline2\n[/quote]").unwrap();
    assert_eq!(out, "> \n> line1\n> line2");
}

#[test]
fn unordered_list() {
    let out = to_markdown("[list]\n[*]one\n[*]two\n[/list]").unwrap();
    assert_eq!(out, "\n- one\n- two\n");
}

#[test]
fn ordered_alpha_list() {
    let out = to_markdown("[list type=\"a\"]\n[*]one\n[*]two\n[/list]").unwrap();
    assert_eq!(out, "\na. one\nb. two\n");
}

#[test]
fn ordered_decimal_via_start() {
    let out = to_markdown("[list start=\"3\"]\n[*]a\n[*]b\n[/list]").unwrap();
    assert_eq!(out, "\n3. a\n4. b\n");
}

#[test]
fn alpha_wraps_past_the_alphabet() {
    let out = to_markdown("[list type=\"a\" start=\"25\"]\n[*]x\n[*]y\n[/list]").unwrap();
    assert_eq!(out, "\nz. x\na. y\n");
}

#[test]
fn duplicate_type_last_wins() {
    let out = to_markdown("[list type=\"a\" type=\"i\" start=\"2\"]\n[*]x\n[/list]").unwrap();
    assert_eq!(out, "\nii. x\n");
}

#[test]
fn upper_roman_labels() {
    let out = to_markdown("[list type=\"I\" start=\"4\"]\n[*]x\n[/list]").unwrap();
    assert_eq!(out, "\nIV. x\n");
}

#[test]
fn malformed_list_head_passes_through() {
    let src = "[list bogus][*]x[/list]";
    assert_eq!(to_markdown(src).unwrap(), src);
}

#[test]
fn list_start_overflow_passes_through() {
    let src = "[list start=\"99999\"][*]x[/list]";
    assert_eq!(to_markdown(src).unwrap(), src);
}

#[test]
fn bracket_heavy_garbage_is_total() {
    let srcs = [
        "[[[c=[code=\"\"]]]][/c][/code]",
        "[list[list []][*][/list]",
        "[url=\"]x[/url]",
        "[b][b][/b]",
        "[c=\"\"][/c]",
        "]]]][[[[",
    ];
    for s in srcs {
        let _ = to_markdown(s).unwrap();
    }
}

#[test]
fn non_ascii_text_is_kept() {
    let out = to_markdown("[b]héllo ünïcode[/b]").unwrap();
    assert_eq!(out, "**héllo ünïcode**");
}

#[test]
fn unicode_blank_tail_in_list_head() {
    let out = to_markdown("[list type=\"a\"\u{00A0}]\n[*]x\n[/list]").unwrap();
    assert_eq!(out, "\na. x\n");
}

#[test]
fn non_blank_tail_still_fails_list_head() {
    let src = "[list type=\"a\"\u{00A0}z]\n[*]x\n[/list]";
    assert_eq!(to_markdown(src).unwrap(), src);
}
