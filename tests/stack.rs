use doc_printer::element::{FormatElement, Tag, TagKind};
use doc_printer::error::{element_kind, ElementKind};
use doc_printer::stack::StackedStack;

#[test]
fn stacked_stack_pops_private_values_then_the_snapshot() {
    let base = [1u32, 2, 3];
    let mut s = StackedStack::with_vec(&base, vec![9, 9]);
    assert_eq!(s.top(), Some(&3));
    s.push(4);
    assert_eq!(s.top(), Some(&4));
    assert_eq!(s.pop(), Some(4));
    assert_eq!(s.pop(), Some(3));
    s.push(5);
    assert_eq!(s.into_vec(), vec![1, 2, 5]);
    assert_eq!(base, [1, 2, 3]);
}

#[test]
fn stacked_stack_runs_empty() {
    let base = [7u32];
    let mut s = StackedStack::with_vec(&base, Vec::new());
    assert!(!s.is_empty());
    assert_eq!(s.pop(), Some(7));
    assert!(s.is_empty());
    assert_eq!(s.pop(), None);
    assert_eq!(s.top(), None);
    assert!(s.into_vec().is_empty());
}

#[test]
fn tags_know_their_kind_and_role() {
    let start = Tag::Start(TagKind::Indent);
    let end = Tag::End(TagKind::Group);
    assert_eq!(start.kind(), TagKind::Indent);
    assert!(start.is_start());
    assert_eq!(end.kind(), TagKind::Group);
    assert!(!end.is_start());
}

#[test]
fn element_kinds() {
    assert_eq!(element_kind(&FormatElement::Space), ElementKind::Space);
    assert_eq!(element_kind(&FormatElement::Tag(Tag::End(TagKind::List))), ElementKind::EndTag(TagKind::List));
    assert_eq!(element_kind(&FormatElement::Tag(Tag::Start(TagKind::Fill))), ElementKind::StartTag(TagKind::Fill));
    assert_eq!(element_kind(&FormatElement::Interned(Vec::new())), ElementKind::Interned);
}
