//! Locating directives and splicing replacements: the two-pass rewrite.

use mdbook_cmdrun::rewrite::RewritePass;
use mdbook_cmdrun::scan::find_directive;

fn payload_of(text: &str, from: usize, block: bool) -> Option<(usize, String, usize)> {
    find_directive(text, from, block).map(|m| {
        let payload: String = text.chars().skip(m.payload_start).take(m.payload_end - m.payload_start).collect();
        (m.start, payload, m.end)
    })
}

#[test]
fn block_directive_owns_its_newline() {
    let text = "<!-- cmdrun echo hi -->\nrest";
    let (start, payload, end) = payload_of(text, 0, true).unwrap();
    assert_eq!(start, 0);
    assert_eq!(payload, "echo hi ");
    assert_eq!(end, 24);
    assert_eq!(&text[end..], "rest");
}

#[test]
fn block_directive_with_carriage_return() {
    let text = "<!-- cmdrun echo hi -->\r\nrest";
    let (_, payload, end) = payload_of(text, 0, true).unwrap();
    assert_eq!(payload, "echo hi ");
    assert_eq!(&text[end..], "rest");
}

#[test]
fn block_requires_the_newline() {
    let text = "say <!-- cmdrun echo hi --> now";
    assert!(payload_of(text, 0, true).is_none());
    let (start, payload, _) = payload_of(text, 0, false).unwrap();
    assert_eq!(start, 4);
    assert_eq!(payload, "echo hi ");
}

#[test]
fn marker_spacing_variants() {
    assert_eq!(payload_of("<!--cmdrun x -->", 0, false).unwrap().1, "x ");
    assert_eq!(payload_of("<!--   cmdrun x -->", 0, false).unwrap().1, "x ");
    assert!(payload_of("<!-- cmdrunx -->", 0, false).is_none());
    assert!(payload_of("<!-- CMDRUN x -->", 0, false).is_none());
}

#[test]
fn payload_is_non_greedy() {
    let text = "a <!-- cmdrun one --> b <!-- cmdrun two -->";
    let (start, payload, end) = payload_of(text, 0, false).unwrap();
    assert_eq!(start, 2);
    assert_eq!(payload, "one ");
    let (start2, payload2, _) = payload_of(text, end, false).unwrap();
    assert_eq!(start2, 24);
    assert_eq!(payload2, "two ");
}

#[test]
fn payload_may_swallow_a_close_to_reach_a_newline() {
    // The shortest payload that still reaches a closing followed by a
    // line break extends over the first closing delimiter.
    let text = "<!-- cmdrun echo a-->b-->\n";
    let (_, payload, end) = payload_of(text, 0, true).unwrap();
    assert_eq!(payload, "echo a-->b");
    assert_eq!(end, text.chars().count());
}

#[test]
fn payload_cannot_cross_a_line() {
    assert!(payload_of("<!-- cmdrun echo\nhi -->", 0, false).is_none());
    let text = "<!-- cmdrun echo\nhi --> <!-- cmdrun ok -->";
    let (_, payload, _) = payload_of(text, 0, false).unwrap();
    assert_eq!(payload, "ok ");
}

#[test]
fn no_directive_no_match() {
    assert!(payload_of("plain text, no markers", 0, false).is_none());
    assert!(payload_of("<!-- a comment -->", 0, false).is_none());
}

#[test]
fn two_pass_rewrite_of_a_document() {
    let doc = "# T\n<!-- cmdrun one -->\ntext <!-- cmdrun two --> end\n";

    let mut block = RewritePass::new(doc, true);
    assert!(!block.is_awaiting());
    let payload = block.next_directive().unwrap();
    assert_eq!(payload, "one ");
    assert!(block.is_awaiting());
    assert!(!block.is_done());
    block.substitute("ONE\n");
    assert!(!block.is_awaiting());
    assert!(block.next_directive().is_none());
    assert!(block.is_done());
    let after_block = block.finish();
    assert_eq!(after_block, "# T\nONE\ntext <!-- cmdrun two --> end\n");

    let mut inline = RewritePass::new(&after_block, false);
    let payload = inline.next_directive().unwrap();
    assert_eq!(payload, "two ");
    inline.substitute("TWO");
    assert!(inline.next_directive().is_none());
    assert_eq!(inline.finish(), "# T\nONE\ntext TWO end\n");
}

#[test]
fn replacement_is_not_rescanned_within_a_pass() {
    let doc = "<!-- cmdrun a --> <!-- cmdrun b -->";
    let mut pass = RewritePass::new(doc, false);
    assert_eq!(pass.next_directive().unwrap(), "a ");
    pass.substitute("<!-- cmdrun EVIL -->");
    assert_eq!(pass.next_directive().unwrap(), "b ");
    pass.substitute("B");
    assert!(pass.next_directive().is_none());
    assert_eq!(pass.finish(), "<!-- cmdrun EVIL --> B");
}

#[test]
fn adjacent_directives_each_resolve() {
    let doc = "<!-- cmdrun a --><!-- cmdrun b -->";
    let mut pass = RewritePass::new(doc, false);
    assert_eq!(pass.next_directive().unwrap(), "a ");
    pass.substitute("1");
    assert_eq!(pass.next_directive().unwrap(), "b ");
    pass.substitute("2");
    assert!(pass.next_directive().is_none());
    assert_eq!(pass.finish(), "12");
}

#[test]
fn empty_document_passes_through() {
    let mut pass = RewritePass::new("", true);
    assert!(pass.next_directive().is_none());
    assert_eq!(pass.finish(), "");
}

#[test]
fn document_without_directives_is_unchanged() {
    let doc = "# Title\n\nJust prose with <!-- an ordinary comment -->.\n";
    let mut pass = RewritePass::new(doc, true);
    assert!(pass.next_directive().is_none());
    let once = pass.finish();
    assert_eq!(once, doc);
}
