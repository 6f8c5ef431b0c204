use mdtex::event::{BlockKind, Event, InlineKind};
use mdtex::render::{render, RenderError, Renderer};

fn text(s: &str) -> Event {
    Event::Text(s.to_string())
}

fn strings(v: &[&str]) -> Vec<String> {
    v.iter().map(|s| s.to_string()).collect()
}

#[test]
fn single_text_is_escaped() {
    assert_eq!(render(&vec![text("a_b")]), Ok(strings(&["a\\_b"])));
}

#[test]
fn heading_wraps_title() {
    let events = vec![
        Event::StartBlock(BlockKind::Heading(2)),
        text("Title"),
        Event::EndBlock(BlockKind::Heading(2)),
    ];
    assert_eq!(render(&events), Ok(strings(&["\n\\section{", "Title", "}\n"])));
}

#[test]
fn strong_wraps_text() {
    let events = vec![
        Event::StartInline(InlineKind::Strong),
        text("x"),
        Event::EndInline(InlineKind::Strong),
    ];
    assert_eq!(render(&events), Ok(strings(&["\\textbf{", "x", "}"])));
}

#[test]
fn mismatched_end_is_structural_violation() {
    let events = vec![
        Event::StartBlock(BlockKind::Paragraph),
        Event::EndBlock(BlockKind::Rule),
    ];
    assert_eq!(render(&events), Err(RenderError::StructuralViolation));
}

#[test]
fn mismatch_commits_only_earlier_fragments() {
    let mut r = Renderer::new();
    assert_eq!(r.render_event(&Event::StartBlock(BlockKind::Paragraph)), Ok("\n".to_string()));
    assert_eq!(
        r.render_event(&Event::EndBlock(BlockKind::Rule)),
        Err(RenderError::StructuralViolation)
    );
    assert_eq!(r.depth(), 1);
    assert_eq!(r.finish(), Err(RenderError::StructuralViolation));
}

#[test]
fn empty_stream_renders_nothing() {
    assert_eq!(render(&vec![]), Ok(vec![]));
}

#[test]
fn link_destination_is_verbatim() {
    let dest = "http://example.com";
    let events = vec![
        Event::StartInline(InlineKind::Link(dest.to_string())),
        text("click"),
        Event::EndInline(InlineKind::Link(dest.to_string())),
    ];
    assert_eq!(
        render(&events),
        Ok(strings(&["\\href{http://example.com}{", "click", "}"]))
    );
}

#[test]
fn link_destination_with_reserved_is_not_escaped() {
    let dest = "http://example.com/a_b?x=1&y=2";
    let events = vec![
        Event::StartInline(InlineKind::Link(dest.to_string())),
        text("a_b"),
        Event::EndInline(InlineKind::Link(dest.to_string())),
    ];
    assert_eq!(
        render(&events),
        Ok(strings(&["\\href{http://example.com/a_b?x=1&y=2}{", "a\\_b", "}"]))
    );
}

#[test]
fn link_closed_by_other_destination_is_violation() {
    let events = vec![
        Event::StartInline(InlineKind::Link("a".to_string())),
        Event::EndInline(InlineKind::Link("b".to_string())),
    ];
    assert_eq!(render(&events), Err(RenderError::StructuralViolation));
}

#[test]
fn heading_closed_at_other_level_is_violation() {
    let events = vec![
        Event::StartBlock(BlockKind::Heading(1)),
        Event::EndBlock(BlockKind::Heading(2)),
    ];
    assert_eq!(render(&events), Err(RenderError::StructuralViolation));
}

#[test]
fn block_closed_by_inline_end_is_violation() {
    let events = vec![
        Event::StartBlock(BlockKind::Paragraph),
        Event::EndInline(InlineKind::Emphasis),
    ];
    assert_eq!(render(&events), Err(RenderError::StructuralViolation));
}

#[test]
fn end_on_empty_stack_is_violation() {
    assert_eq!(
        render(&vec![Event::EndInline(InlineKind::Emphasis)]),
        Err(RenderError::StructuralViolation)
    );
}

#[test]
fn unclosed_construct_is_violation() {
    let events = vec![Event::StartBlock(BlockKind::Paragraph), text("open")];
    assert_eq!(render(&events), Err(RenderError::StructuralViolation));
}

#[test]
fn crossed_nesting_is_violation() {
    let events = vec![
        Event::StartInline(InlineKind::Emphasis),
        Event::StartInline(InlineKind::Strong),
        Event::EndInline(InlineKind::Emphasis),
        Event::EndInline(InlineKind::Strong),
    ];
    assert_eq!(render(&events), Err(RenderError::StructuralViolation));
}

#[test]
fn nested_document_renders_in_order() {
    let events = vec![
        Event::StartBlock(BlockKind::List(false)),
        Event::StartBlock(BlockKind::ListItem),
        Event::StartInline(InlineKind::Emphasis),
        text("one"),
        Event::EndInline(InlineKind::Emphasis),
        Event::EndBlock(BlockKind::ListItem),
        Event::StartBlock(BlockKind::ListItem),
        Event::StartInline(InlineKind::InlineCode),
        text("two"),
        Event::EndInline(InlineKind::InlineCode),
        Event::EndBlock(BlockKind::ListItem),
        Event::EndBlock(BlockKind::List(false)),
    ];
    let out = render(&events).unwrap();
    assert_eq!(
        out,
        strings(&[
            "\n\\begin{itemize}\n",
            "\\item ",
            "\\textit{",
            "one",
            "}",
            "\n",
            "\\item ",
            "\\lstinline{",
            "two",
            "}",
            "\n",
            "\\end{itemize}\n",
        ])
    );
    let joined = out.concat();
    assert!(joined.find("one").unwrap() < joined.find("two").unwrap());
}

#[test]
fn ordered_list_uses_enumerate() {
    let events = vec![
        Event::StartBlock(BlockKind::List(true)),
        Event::EndBlock(BlockKind::List(true)),
    ];
    assert_eq!(
        render(&events),
        Ok(strings(&["\n\\begin{enumerate}\n", "\\end{enumerate}\n"]))
    );
}

#[test]
fn code_block_keeps_language_out_of_output() {
    let lang = Some("rust".to_string());
    let events = vec![
        Event::StartBlock(BlockKind::CodeBlock(lang.clone())),
        text("let x_y = 1;"),
        Event::EndBlock(BlockKind::CodeBlock(lang)),
    ];
    assert_eq!(
        render(&events),
        Ok(strings(&["\n\\begin{lstlisting}\n", "let x\\_y = 1;", "\\end{lstlisting}\n"]))
    );
}

#[test]
fn code_block_language_must_match_to_close() {
    let events = vec![
        Event::StartBlock(BlockKind::CodeBlock(Some("rust".to_string()))),
        Event::EndBlock(BlockKind::CodeBlock(None)),
    ];
    assert_eq!(render(&events), Err(RenderError::StructuralViolation));
}

#[test]
fn leaf_events_render() {
    let events = vec![
        Event::RawPassthrough("<b>a_b</b>".to_string()),
        Event::FootnoteReference("note_1".to_string()),
        Event::LineBreakSoft,
        Event::LineBreakHard,
    ];
    assert_eq!(
        render(&events),
        Ok(strings(&["\\url{<b>a_b</b>}", "note_1", "\n", "\n\\\\"]))
    );
}

#[test]
fn image_renders_destination() {
    let events = vec![
        Event::StartInline(InlineKind::Image("pic.png".to_string())),
        text("alt"),
        Event::EndInline(InlineKind::Image("pic.png".to_string())),
    ];
    assert_eq!(render(&events), Ok(strings(&["pic.png", "alt", "pic.png"])));
}

#[test]
fn placeholder_constructs_render() {
    let events = vec![
        Event::StartBlock(BlockKind::Table(2)),
        Event::StartBlock(BlockKind::TableHead),
        Event::StartBlock(BlockKind::TableCell),
        Event::EndBlock(BlockKind::TableCell),
        Event::EndBlock(BlockKind::TableHead),
        Event::StartBlock(BlockKind::TableRow),
        Event::EndBlock(BlockKind::TableRow),
        Event::EndBlock(BlockKind::Table(2)),
        Event::StartBlock(BlockKind::FootnoteDefinition("n".to_string())),
        Event::EndBlock(BlockKind::FootnoteDefinition("n".to_string())),
        Event::StartBlock(BlockKind::BlockQuote),
        Event::EndBlock(BlockKind::BlockQuote),
        Event::StartBlock(BlockKind::Rule),
        Event::EndBlock(BlockKind::Rule),
    ];
    assert_eq!(
        render(&events),
        Ok(strings(&[
            "table",
            "tablehead",
            "tablecell",
            "tablecell",
            "tablehead",
            "tablerow",
            "tablerow",
            "table",
            "footnote",
            "footnote",
            "blockquote",
            "blockquote",
            "rule",
            "rule",
        ]))
    );
}

#[test]
fn streaming_matches_whole_render() {
    let events = vec![
        Event::StartBlock(BlockKind::Paragraph),
        text("a&b"),
        Event::EndBlock(BlockKind::Paragraph),
    ];
    let mut r = Renderer::new();
    let mut got = Vec::new();
    for e in &events {
        got.push(r.render_event(e).unwrap());
        assert!(r.depth() <= 1);
    }
    assert_eq!(r.finish(), Ok(()));
    assert_eq!(Ok(got), render(&events));
}
