use doc_printer::element::{FormatElement, LineMode, Tag, TagKind};
use doc_printer::error::PrintError;
use doc_printer::queue::{skip_content, FitsQueue, PrintQueue, Queue, QueueContentIterator};

fn text(s: &str) -> FormatElement {
    FormatElement::Text { text: s.to_string(), width: s.len() as u32 }
}

fn text_of(e: Option<&FormatElement>) -> Option<String> {
    match e {
        Some(FormatElement::Text { text, .. }) => Some(text.clone()),
        _ => None,
    }
}

fn drain<'a, Q: Queue<'a>>(q: &mut Q) -> Vec<&'a FormatElement> {
    let mut out = Vec::new();
    while let Some(e) = q.pop() {
        out.push(e);
    }
    out
}

#[test]
fn empty_root_gives_empty_queue() {
    let doc: Vec<FormatElement> = Vec::new();
    let mut q = PrintQueue::new(&doc);
    assert!(q.is_empty());
    assert!(q.pop().is_none());
    assert!(q.top().is_none());
}

#[test]
fn pops_every_element_once_in_order() {
    let doc = vec![text("a"), FormatElement::Space, text("b")];
    let mut q = PrintQueue::new(&doc);
    assert!(!q.is_empty());
    let popped = drain(&mut q);
    assert_eq!(popped.len(), 3);
    assert_eq!(text_of(Some(popped[0])), Some("a".to_string()));
    assert!(matches!(popped[1], FormatElement::Space));
    assert_eq!(text_of(Some(popped[2])), Some("b".to_string()));
    assert!(q.is_empty());
}

#[test]
fn push_comes_before_the_rest_even_mid_slice() {
    let doc = vec![text("a"), text("b"), text("c")];
    let extra = text("x");
    let mut q = PrintQueue::new(&doc);
    assert_eq!(text_of(q.pop()), Some("a".to_string()));
    q.push(&extra);
    let order: Vec<Option<String>> = drain(&mut q).into_iter().map(|e| text_of(Some(e))).collect();
    assert_eq!(order, vec![Some("x".to_string()), Some("b".to_string()), Some("c".to_string())]);
}

#[test]
fn extend_back_queues_a_slice_first() {
    let doc = vec![text("a"), text("d")];
    let more = vec![text("b"), text("c")];
    let mut q = PrintQueue::new(&doc);
    q.pop();
    q.extend_back(&more);
    let order: Vec<Option<String>> = drain(&mut q).into_iter().map(|e| text_of(Some(e))).collect();
    assert_eq!(order, vec![Some("b".to_string()), Some("c".to_string()), Some("d".to_string())]);
}

#[test]
fn empty_slice_leaves_the_stack_unchanged() {
    let empty: Vec<FormatElement> = Vec::new();
    let mut q = PrintQueue::new(&empty);
    q.extend_back(&empty);
    assert!(q.is_empty());

    let doc = vec![text("a"), text("b")];
    let pq = PrintQueue::new(&doc);
    let mut fq = FitsQueue::new(&pq, Vec::new());
    fq.extend_back(&empty);
    assert_eq!(fq.finish().len(), 1);
    let mut fq = FitsQueue::new(&pq, Vec::new());
    fq.extend_back(&doc);
    assert_eq!(fq.finish().len(), 2);
}

#[test]
fn top_resolves_interned_but_top_with_interned_does_not() {
    let doc = vec![FormatElement::Interned(vec![FormatElement::Interned(vec![text("a")]), text("b")]), text("c")];
    let q = PrintQueue::new(&doc);
    assert!(matches!(q.top_with_interned(), Some(FormatElement::Interned(_))));
    assert_eq!(text_of(q.top()), Some("a".to_string()));
}

#[test]
fn top_of_empty_interned_is_none() {
    let doc = vec![FormatElement::Interned(Vec::new()), text("c")];
    let q = PrintQueue::new(&doc);
    assert!(q.top().is_none());
}

#[test]
fn pop_slice_drops_the_rest_of_the_top_slice() {
    let doc = vec![text("a"), text("b")];
    let more = vec![text("x"), text("y")];
    let mut q = PrintQueue::new(&doc);
    q.extend_back(&more);
    assert_eq!(text_of(q.pop()), Some("x".to_string()));
    let dropped = q.pop_slice().unwrap();
    assert_eq!(dropped.len(), 2);
    assert_eq!(text_of(q.pop()), Some("a".to_string()));
}

#[test]
fn skip_content_consumes_the_region_and_its_end() {
    let doc = vec![
        text("a"),
        FormatElement::Tag(Tag::Start(TagKind::Group)),
        text("b"),
        FormatElement::Tag(Tag::End(TagKind::Group)),
        FormatElement::Tag(Tag::End(TagKind::Group)),
        text("c"),
    ];
    let mut q = PrintQueue::new(&doc);
    assert_eq!(skip_content(&mut q, TagKind::Group), Ok(()));
    assert_eq!(text_of(q.pop()), Some("c".to_string()));
    assert!(q.is_empty());
}

#[test]
fn skip_content_walks_through_interned() {
    let doc = vec![
        FormatElement::Interned(vec![text("a"), FormatElement::Tag(Tag::End(TagKind::Indent))]),
        text("c"),
    ];
    let mut q = PrintQueue::new(&doc);
    assert_eq!(skip_content(&mut q, TagKind::Indent), Ok(()));
    assert_eq!(text_of(q.pop()), Some("c".to_string()));
}

#[test]
fn skip_content_without_end_is_missing_end() {
    let doc = vec![text("a")];
    let mut q = PrintQueue::new(&doc);
    assert_eq!(skip_content(&mut q, TagKind::Group), Err(PrintError::MissingEnd { kind: TagKind::Group }));
}

#[test]
fn content_iterator_yields_nested_tags_but_not_the_closing_one() {
    let doc = vec![
        FormatElement::Tag(Tag::Start(TagKind::List)),
        text("a"),
        FormatElement::Tag(Tag::End(TagKind::List)),
        FormatElement::Tag(Tag::End(TagKind::List)),
        text("z"),
    ];
    let mut q = PrintQueue::new(&doc);
    let mut it = q.iter_content(TagKind::List);
    assert!(matches!(it.next(&mut q), Ok(Some(FormatElement::Tag(Tag::Start(TagKind::List))))));
    assert!(matches!(it.next(&mut q), Ok(Some(FormatElement::Text { .. }))));
    assert!(matches!(it.next(&mut q), Ok(Some(FormatElement::Tag(Tag::End(TagKind::List))))));
    assert!(matches!(it.next(&mut q), Ok(None)));
    assert!(matches!(it.next(&mut q), Ok(None)));
    assert_eq!(text_of(q.pop()), Some("z".to_string()));
}

#[test]
fn unclosed_entry_is_missing_end_when_iterated() {
    let doc = vec![FormatElement::Tag(Tag::Start(TagKind::Entry))];
    let mut q = PrintQueue::new(&doc);
    let mut it = QueueContentIterator::new(TagKind::Entry);
    assert!(matches!(it.next(&mut q), Ok(Some(FormatElement::Tag(Tag::Start(TagKind::Entry))))));
    assert!(matches!(it.next(&mut q), Err(PrintError::MissingEnd { kind: TagKind::Entry })));
}

#[test]
fn interning_keeps_the_walk_order() {
    let plain = vec![text("a"), text("b"), text("c"), FormatElement::Tag(Tag::End(TagKind::Fill))];
    let interned = vec![text("a"), FormatElement::Interned(vec![text("b"), text("c")]), FormatElement::Tag(Tag::End(TagKind::Fill))];
    let walk = |doc: &Vec<FormatElement>| {
        let mut q = PrintQueue::new(doc);
        let mut it = QueueContentIterator::new(TagKind::Fill);
        let mut out = Vec::new();
        while let Ok(Some(e)) = it.next(&mut q) {
            out.push(text_of(Some(e)));
        }
        out
    };
    assert_eq!(walk(&plain), walk(&interned));
    assert_eq!(walk(&plain).len(), 3);
}

#[test]
fn fits_queue_leaves_the_print_queue_untouched() {
    let doc = vec![text("a"), FormatElement::Line(LineMode::Soft), text("b")];
    let more = vec![text("x")];
    let mut pq = PrintQueue::new(&doc);
    pq.pop();
    {
        let mut fq = FitsQueue::new(&pq, Vec::new());
        fq.extend_back(&more);
        let seen = drain(&mut fq);
        assert_eq!(seen.len(), 3);
        assert!(fq.finish().is_empty());
    }
    assert!(matches!(pq.pop(), Some(FormatElement::Line(LineMode::Soft))));
    assert_eq!(text_of(pq.pop()), Some("b".to_string()));
    assert!(pq.is_empty());
}

#[test]
fn finish_lists_frames_bottom_first() {
    let doc = vec![text("a"), text("b")];
    let more = vec![text("x")];
    let pq = PrintQueue::new(&doc);
    let mut fq = FitsQueue::new(&pq, vec![&more[..]]);
    fq.extend_back(&more);
    let frames = fq.finish();
    assert_eq!(frames.len(), 2);
    assert_eq!(frames[0].len(), 2);
    assert_eq!(frames[1].len(), 1);
}
