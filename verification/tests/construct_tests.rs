use box_tree::context::{LayoutContext, UnshapedText};
use box_tree::dom_traversal::{BoxSlot, Contents, Element, Node, NonReplacedContents, SlotWrite};
use box_tree::flow::{
    AbsolutelyPositionedBox, BlockContainer, BlockFormattingContext, BlockLevelBox,
    ContainsFloats, FloatBox, IndependentFormattingContext, IndependentFormattingContextContents,
    InlineBox, InlineFormattingContext, InlineLevelBox, InlineLevelBoxViews, LayoutBox,
    ReplacedContent, TextRun,
};
use box_tree::sizing::{BoxContentSizes, ContentSizes, ContentSizesRequest};
use box_tree::style::{
    share, ComputedStyle, DisplayGeneratingBox, DisplayInside, DisplayOutside, Float, Position,
};
use std::sync::atomic::{AtomicUsize, Ordering};
use std::sync::Arc;

const NONE: ContentSizesRequest = ContentSizesRequest::NoneRequested;
const INLINE: ContentSizesRequest = ContentSizesRequest::Inline;

fn style(id: u32) -> ComputedStyle {
    ComputedStyle {
        id,
        position: Position::Static,
        float: Float::NotFloating,
        inline_size: None,
        inline_padding_border_margin: 0,
    }
}

fn floating(id: u32) -> ComputedStyle {
    ComputedStyle { float: Float::Left, ..style(id) }
}

fn positioned(id: u32) -> ComputedStyle {
    ComputedStyle { position: Position::Absolute, ..style(id) }
}

/// Text of a child of the root; inside an element it gets the style of the
/// element.
fn text(s: &str) -> Node {
    Node::Text(s.to_string(), share(style(0)))
}

/// Text whose parent has style `parent`, wherever it stands.
fn text_of(parent: u32, s: &str) -> Node {
    Node::Text(s.to_string(), share(style(parent + 10_000)))
}

fn element(
    style: ComputedStyle,
    outside: DisplayOutside,
    inside: DisplayInside,
    contents: Contents,
    box_slot: BoxSlot,
) -> Node {
    Node::Element(Element {
        style: share(style),
        display: DisplayGeneratingBox::OutsideInside { outside, inside },
        contents: adopt(contents, style),
        box_slot,
    })
}

fn children(children: Vec<Node>) -> Contents {
    Contents::NonReplaced(NonReplacedContents { children })
}

fn adopt(contents: Contents, parent: ComputedStyle) -> Contents {
    match contents {
        Contents::NonReplaced(NonReplacedContents { children }) => {
            Contents::NonReplaced(NonReplacedContents {
                children: children
                    .into_iter()
                    .map(|child| match child {
                        Node::Text(text, old) if old.id < 10_000 => Node::Text(text, share(parent)),
                        Node::Text(text, old) => {
                            Node::Text(text, share(ComputedStyle { id: old.id - 10_000, ..*old }))
                        }
                        other => other,
                    })
                    .collect(),
            })
        }
        replaced => replaced,
    }
}

/// `<span>`: inline outside, flow inside; its slot has the number of its style.
fn span(id: u32, nodes: Vec<Node>) -> Node {
    element(
        style(id),
        DisplayOutside::Inline,
        DisplayInside::Flow,
        children(nodes),
        BoxSlot::new(id as usize),
    )
}

/// `<div>`: block outside, flow inside.
fn div(style: ComputedStyle, nodes: Vec<Node>) -> Node {
    element(
        style,
        DisplayOutside::Block,
        DisplayInside::Flow,
        children(nodes),
        BoxSlot::new(style.id as usize),
    )
}

/// An inline-block: inline outside, flow-root inside.
fn inline_block(style: ComputedStyle, nodes: Vec<Node>) -> Node {
    element(
        style,
        DisplayOutside::Inline,
        DisplayInside::FlowRoot,
        children(nodes),
        BoxSlot::new(style.id as usize),
    )
}

fn construct(
    nodes: Vec<Node>,
    request: ContentSizesRequest,
) -> (BlockContainer, ContainsFloats, BoxContentSizes, Vec<SlotWrite>) {
    let context = UnshapedText { advance: 10 };
    let root = share(style(0));
    match adopt(children(nodes), style(0)) {
        Contents::NonReplaced(contents) => {
            BlockContainer::construct(&context, &root, contents, request)
        }
        Contents::Replaced(_) => unreachable!(),
    }
}

fn run(id: u32, s: &str) -> Arc<InlineLevelBox> {
    Arc::new(InlineLevelBox::TextRun(TextRun { parent_style: share(style(id)), text: s.to_string() }))
}

fn inline_box(
    id: u32,
    first_fragment: bool,
    last_fragment: bool,
    children: Vec<Arc<InlineLevelBox>>,
) -> Arc<InlineLevelBox> {
    Arc::new(InlineLevelBox::InlineBox(InlineBox {
        style: share(style(id)),
        first_fragment,
        last_fragment,
        children,
    }))
}

fn ifc(boxes: Vec<Arc<InlineLevelBox>>) -> BlockContainer {
    BlockContainer::InlineFormattingContext(InlineFormattingContext { inline_level_boxes: boxes })
}

fn same_block(style: ComputedStyle, contents: BlockContainer) -> Arc<BlockLevelBox> {
    Arc::new(BlockLevelBox::SameFormattingContextBlock { style: share(style), contents })
}

/// The anonymous block of a container of style `parent`.
fn anonymous(parent: u32, boxes: Vec<Arc<InlineLevelBox>>) -> Arc<BlockLevelBox> {
    same_block(style(parent), ifc(boxes))
}

fn sizes(min_content: u32, max_content: u32) -> ContentSizes {
    ContentSizes { min_content, max_content }
}

fn flow(
    style: ComputedStyle,
    content_sizes: BoxContentSizes,
    contents: BlockContainer,
    contains_floats: bool,
) -> IndependentFormattingContext {
    IndependentFormattingContext {
        style: share(style),
        content_sizes,
        contents: IndependentFormattingContextContents::Flow(BlockFormattingContext {
            contents,
            contains_floats,
        }),
    }
}

fn slots(writes: &[SlotWrite]) -> Vec<usize> {
    writes.iter().map(|write| write.slot).collect()
}

#[test]
fn leading_whitespace_is_dropped_at_the_start() {
    let (container, floats, content_sizes, writes) = construct(vec![text("  a")], NONE);
    assert_eq!(container, ifc(vec![run(0, "a")]));
    assert_eq!(floats, ContainsFloats::No);
    assert_eq!(content_sizes, BoxContentSizes::NoneWereRequested);
    assert!(writes.is_empty());
}

#[test]
fn leading_whitespace_is_preserved_after_an_atomic_box() {
    let (container, _, _, writes) = construct(
        vec![text("a"), inline_block(style(5), vec![text("x")]), text("  b")],
        NONE,
    );
    let atomic = Arc::new(InlineLevelBox::Atomic(flow(
        style(5),
        BoxContentSizes::Inline(sizes(10, 10)),
        ifc(vec![run(5, "x")]),
        false,
    )));
    assert_eq!(container, ifc(vec![run(0, "a"), atomic.clone(), run(0, " b")]));
    assert_eq!(writes, vec![SlotWrite { slot: 5, layout_box: LayoutBox::InlineLevel(atomic) }]);
}

#[test]
fn text_inline_box_text() {
    let (container, floats, content_sizes, writes) = construct(
        vec![text("  Hello "), span(1, vec![text("world")]), text("!")],
        INLINE,
    );
    let bold = inline_box(1, true, true, vec![run(1, "world")]);
    assert_eq!(container, ifc(vec![run(0, "Hello "), bold.clone(), run(0, "!")]));
    assert_eq!(floats, ContainsFloats::No);
    assert_eq!(content_sizes, BoxContentSizes::Inline(sizes(50, 120)));
    assert_eq!(writes, vec![SlotWrite { slot: 1, layout_box: LayoutBox::InlineLevel(bold) }]);
}

#[test]
fn inline_block_text_in_document_order() {
    let (container, floats, _, writes) = construct(
        vec![span(1, vec![text("a")]), div(style(2), vec![text("B")]), text("c")],
        NONE,
    );
    let a = inline_box(1, true, true, vec![run(1, "a")]);
    let b = same_block(style(2), ifc(vec![run(2, "B")]));
    assert_eq!(
        container,
        BlockContainer::BlockLevelBoxes(vec![
            anonymous(0, vec![a.clone()]),
            b.clone(),
            anonymous(0, vec![run(0, "c")]),
        ])
    );
    assert_eq!(floats, ContainsFloats::No);
    assert_eq!(
        writes,
        vec![
            SlotWrite { slot: 1, layout_box: LayoutBox::InlineLevel(a) },
            SlotWrite { slot: 2, layout_box: LayoutBox::BlockLevel(b) },
        ]
    );
}

#[test]
fn an_inline_box_is_split_around_blocks() {
    let (container, _, _, writes) = construct(
        vec![span(
            1,
            vec![text("a"), div(style(2), vec![]), text("b"), div(style(3), vec![]), text("c")],
        )],
        NONE,
    );
    let last = inline_box(1, false, true, vec![run(1, "c")]);
    let empty = |id| same_block(style(id), BlockContainer::BlockLevelBoxes(vec![]));
    assert_eq!(
        container,
        BlockContainer::BlockLevelBoxes(vec![
            anonymous(0, vec![inline_box(1, true, false, vec![run(1, "a")])]),
            empty(2),
            anonymous(0, vec![inline_box(1, false, false, vec![run(1, "b")])]),
            empty(3),
            anonymous(0, vec![last.clone()]),
        ])
    );
    // The slot of the element holds its last fragment.
    assert_eq!(slots(&writes), vec![1, 2, 3]);
    assert_eq!(writes[0].layout_box, LayoutBox::InlineLevel(last));
}

#[test]
fn fragments_have_one_first_and_one_last() {
    let (container, _, _, _) = construct(
        vec![span(
            1,
            vec![
                text("a"),
                span(4, vec![text("b")]),
                div(style(2), vec![]),
                div(style(3), vec![]),
                text("c"),
                div(style(5), vec![]),
            ],
        )],
        NONE,
    );
    let boxes = match container {
        BlockContainer::BlockLevelBoxes(boxes) => boxes,
        other => panic!("{:?}", other),
    };
    let mut fragments = vec![];
    for block in boxes.iter() {
        if let BlockLevelBox::SameFormattingContextBlock { contents, .. } = &**block {
            if let BlockContainer::InlineFormattingContext(ifc) = contents {
                for inline in ifc.inline_level_boxes.iter() {
                    match &**inline {
                        InlineLevelBox::InlineBox(fragment) if fragment.style.id == 1 => {
                            fragments.push(fragment)
                        }
                        other => panic!("{:?}", other),
                    }
                }
            }
        }
    }
    // One fragment before each of the three blocks and one at the end; the
    // second block follows the first at once, so its fragment is empty.
    assert_eq!(fragments.len(), 4);
    assert_eq!(fragments.iter().filter(|fragment| fragment.first_fragment).count(), 1);
    assert_eq!(fragments.iter().filter(|fragment| fragment.last_fragment).count(), 1);
    assert!(fragments[0].first_fragment);
    assert!(fragments[3].last_fragment);
    let all: Vec<Arc<InlineLevelBox>> =
        fragments.iter().flat_map(|fragment| fragment.children.iter().cloned()).collect();
    assert_eq!(all, vec![run(1, "a"), inline_box(4, true, true, vec![run(4, "b")]), run(1, "c")]);
}

#[test]
fn nested_inline_boxes_are_split_together() {
    let (container, _, _, writes) = construct(
        vec![span(
            1,
            vec![
                text("x"),
                span(2, vec![text("y"), div(style(3), vec![]), text("z")]),
                text("w"),
            ],
        )],
        NONE,
    );
    let inner_last = inline_box(2, false, true, vec![run(2, "z")]);
    let outer_last = inline_box(1, false, true, vec![inner_last.clone(), run(1, "w")]);
    assert_eq!(
        container,
        BlockContainer::BlockLevelBoxes(vec![
            anonymous(
                0,
                vec![inline_box(
                    1,
                    true,
                    false,
                    vec![run(1, "x"), inline_box(2, true, false, vec![run(2, "y")])]
                )]
            ),
            same_block(style(3), BlockContainer::BlockLevelBoxes(vec![])),
            anonymous(0, vec![outer_last.clone()]),
        ])
    );
    assert_eq!(slots(&writes), vec![2, 1, 3]);
    assert_eq!(writes[0].layout_box, LayoutBox::InlineLevel(inner_last));
    assert_eq!(writes[1].layout_box, LayoutBox::InlineLevel(outer_last));
}

#[test]
fn text_nodes_join_into_one_run() {
    let (container, _, _, _) = construct(vec![text("a"), text("b")], NONE);
    assert_eq!(container, ifc(vec![run(0, "ab")]));
    let (container, _, _, _) = construct(vec![text("a"), text(" b")], NONE);
    assert_eq!(container, ifc(vec![run(0, "a b")]));
    let (container, _, _, _) = construct(vec![text("a "), text(" b")], NONE);
    assert_eq!(container, ifc(vec![run(0, "a b")]));
    let (container, _, _, _) = construct(vec![text("a"), text("   ")], NONE);
    assert_eq!(container, ifc(vec![run(0, "a ")]));
}

#[test]
fn whitespace_alone_makes_no_box() {
    let (container, _, content_sizes, _) = construct(vec![text("  \n"), text("\t")], INLINE);
    assert_eq!(container, BlockContainer::BlockLevelBoxes(vec![]));
    assert_eq!(content_sizes, BoxContentSizes::Inline(ContentSizes::zero()));
    let (container, _, _, _) = construct(vec![text("  "), text(" a")], NONE);
    assert_eq!(container, ifc(vec![run(0, "a")]));
}

#[test]
fn an_empty_container_holds_no_box() {
    let (container, floats, content_sizes, writes) = construct(vec![], INLINE);
    assert_eq!(container, BlockContainer::BlockLevelBoxes(vec![]));
    assert_eq!(floats, ContainsFloats::No);
    assert_eq!(content_sizes, BoxContentSizes::Inline(ContentSizes::zero()));
    assert!(writes.is_empty());
}

#[test]
fn whitespace_after_an_inline_box_looks_into_it() {
    let (container, _, _, _) = construct(vec![span(1, vec![text("x ")]), text(" y")], NONE);
    assert_eq!(container, ifc(vec![inline_box(1, true, true, vec![run(1, "x ")]), run(0, "y")]));
    let (container, _, _, _) = construct(vec![span(1, vec![text("x")]), text(" y")], NONE);
    assert_eq!(container, ifc(vec![inline_box(1, true, true, vec![run(1, "x")]), run(0, " y")]));
    // An inline box without content is passed over.
    let (container, _, _, _) =
        construct(vec![text("a"), span(1, vec![]), text(" y")], NONE);
    assert_eq!(
        container,
        ifc(vec![run(0, "a"), inline_box(1, true, true, vec![]), run(0, " y")])
    );
}

#[test]
fn whitespace_at_the_start_of_an_inline_box_looks_out_of_it() {
    let (container, _, _, _) = construct(vec![text("a"), span(1, vec![text(" b")])], NONE);
    assert_eq!(container, ifc(vec![run(0, "a"), inline_box(1, true, true, vec![run(1, " b")])]));
    let (container, _, _, _) = construct(vec![text("a "), span(1, vec![text(" b")])], NONE);
    assert_eq!(container, ifc(vec![run(0, "a "), inline_box(1, true, true, vec![run(1, "b")])]));
    let (container, _, _, _) = construct(vec![span(1, vec![text(" b")])], NONE);
    assert_eq!(container, ifc(vec![inline_box(1, true, true, vec![run(1, "b")])]));
    // Through two open inline boxes, past a closed one without content.
    let (container, _, _, _) = construct(
        vec![text("a"), span(1, vec![span(2, vec![]), span(3, vec![text(" b")])])],
        NONE,
    );
    assert_eq!(
        container,
        ifc(vec![
            run(0, "a"),
            inline_box(
                1,
                true,
                true,
                vec![inline_box(2, true, true, vec![]), inline_box(3, true, true, vec![run(3, " b")])]
            )
        ])
    );
}

#[test]
fn whitespace_after_a_block_starts_a_line() {
    let (container, _, _, _) = construct(
        vec![span(1, vec![text("a"), div(style(2), vec![]), text(" b")]), text(" c")],
        NONE,
    );
    assert_eq!(
        container,
        BlockContainer::BlockLevelBoxes(vec![
            anonymous(0, vec![inline_box(1, true, false, vec![run(1, "a")])]),
            same_block(style(2), BlockContainer::BlockLevelBoxes(vec![])),
            anonymous(0, vec![inline_box(1, false, true, vec![run(1, "b")]), run(0, " c")]),
        ])
    );
}

#[test]
fn out_of_flow_boxes_are_passed_over_by_whitespace() {
    let (container, floats, _, writes) = construct(
        vec![text("a"), div(positioned(7), vec![]), div(floating(8), vec![]), text(" b")],
        NONE,
    );
    let empty = |style| {
        flow(style, BoxContentSizes::Inline(ContentSizes::zero()), BlockContainer::BlockLevelBoxes(vec![]), false)
    };
    let absolute = Arc::new(InlineLevelBox::OutOfFlowAbsolutelyPositionedBox(
        AbsolutelyPositionedBox { contents: empty(positioned(7)) },
    ));
    let float = Arc::new(InlineLevelBox::OutOfFlowFloatBox(FloatBox { contents: empty(floating(8)) }));
    assert_eq!(container, ifc(vec![run(0, "a"), absolute.clone(), float.clone(), run(0, " b")]));
    assert_eq!(floats, ContainsFloats::Yes);
    assert_eq!(
        writes,
        vec![
            SlotWrite { slot: 7, layout_box: LayoutBox::InlineLevel(absolute) },
            SlotWrite { slot: 8, layout_box: LayoutBox::InlineLevel(float) },
        ]
    );
}

#[test]
fn out_of_flow_boxes_are_block_level_without_inline_content() {
    let (container, floats, _, writes) = construct(
        vec![text("  "), div(positioned(7), vec![]), div(floating(8), vec![text("f")]), text("a")],
        NONE,
    );
    let absolute = Arc::new(BlockLevelBox::OutOfFlowAbsolutelyPositionedBox(
        AbsolutelyPositionedBox {
            contents: flow(
                positioned(7),
                BoxContentSizes::Inline(ContentSizes::zero()),
                BlockContainer::BlockLevelBoxes(vec![]),
                false,
            ),
        },
    ));
    let float = Arc::new(BlockLevelBox::OutOfFlowFloatBox(FloatBox {
        contents: flow(
            floating(8),
            BoxContentSizes::Inline(sizes(10, 10)),
            ifc(vec![Arc::new(InlineLevelBox::TextRun(TextRun {
                parent_style: share(floating(8)),
                text: "f".to_string(),
            }))]),
            false,
        ),
    }));
    assert_eq!(
        container,
        BlockContainer::BlockLevelBoxes(vec![
            absolute.clone(),
            float.clone(),
            anonymous(0, vec![run(0, "a")])
        ])
    );
    assert_eq!(floats, ContainsFloats::Yes);
    assert_eq!(
        writes,
        vec![
            SlotWrite { slot: 7, layout_box: LayoutBox::BlockLevel(absolute) },
            SlotWrite { slot: 8, layout_box: LayoutBox::BlockLevel(float) },
        ]
    );
}

#[test]
fn an_out_of_flow_box_inside_an_open_inline_box_is_inline_level() {
    let (container, floats, _, _) =
        construct(vec![span(1, vec![div(floating(8), vec![])])], NONE);
    let float = Arc::new(InlineLevelBox::OutOfFlowFloatBox(FloatBox {
        contents: flow(
            floating(8),
            BoxContentSizes::Inline(ContentSizes::zero()),
            BlockContainer::BlockLevelBoxes(vec![]),
            false,
        ),
    }));
    assert_eq!(container, ifc(vec![inline_box(1, true, true, vec![float])]));
    assert_eq!(floats, ContainsFloats::Yes);
}

#[test]
fn a_float_reaches_every_container_of_its_formatting_context() {
    let float = || div(floating(9), vec![]);
    let (_, floats, _, _) = construct(vec![div(style(1), vec![div(style(2), vec![float()])])], NONE);
    assert_eq!(floats, ContainsFloats::Yes);
    let (container, floats, _, _) =
        construct(vec![div(style(1), vec![span(2, vec![text("a"), float()])])], NONE);
    assert_eq!(floats, ContainsFloats::Yes);
    // The inner container is an inline formatting context that holds the float.
    match &*match container {
        BlockContainer::BlockLevelBoxes(boxes) => boxes[0].clone(),
        other => panic!("{:?}", other),
    } {
        BlockLevelBox::SameFormattingContextBlock { contents, .. } => {
            assert!(matches!(contents, BlockContainer::InlineFormattingContext(_)))
        }
        other => panic!("{:?}", other),
    }
    let (_, floats, _, _) = construct(vec![div(style(1), vec![text("no float")])], NONE);
    assert_eq!(floats, ContainsFloats::No);
}

#[test]
fn a_float_stays_inside_an_independent_formatting_context() {
    let float = || div(floating(9), vec![]);
    // An inline-block.
    let (container, floats, _, _) = construct(vec![inline_block(style(1), vec![float()])], NONE);
    assert_eq!(floats, ContainsFloats::No);
    match container {
        BlockContainer::InlineFormattingContext(ifc) => match &*ifc.inline_level_boxes[0] {
            InlineLevelBox::Atomic(atomic) => match &atomic.contents {
                IndependentFormattingContextContents::Flow(flow) => assert!(flow.contains_floats),
                other => panic!("{:?}", other),
            },
            other => panic!("{:?}", other),
        },
        other => panic!("{:?}", other),
    }
    // A block that is a flow root.
    let root = element(
        style(1),
        DisplayOutside::Block,
        DisplayInside::FlowRoot,
        children(vec![float()]),
        BoxSlot::new(1),
    );
    let (container, floats, _, _) = construct(vec![root], NONE);
    assert_eq!(floats, ContainsFloats::No);
    match container {
        BlockContainer::BlockLevelBoxes(boxes) => match &*boxes[0] {
            BlockLevelBox::Independent(independent) => match &independent.contents {
                IndependentFormattingContextContents::Flow(flow) => assert!(flow.contains_floats),
                other => panic!("{:?}", other),
            },
            other => panic!("{:?}", other),
        },
        other => panic!("{:?}", other),
    }
    // An absolutely positioned box.
    let (_, floats, _, _) = construct(vec![div(positioned(1), vec![float()])], NONE);
    assert_eq!(floats, ContainsFloats::No);
    // A float in a float: the outer float counts, not the inner one.
    let (_, floats, _, _) = construct(vec![div(floating(1), vec![float()])], NONE);
    assert_eq!(floats, ContainsFloats::Yes);
}

#[test]
fn a_position_comes_before_a_float() {
    let both = ComputedStyle { position: Position::Fixed, ..floating(4) };
    let (container, floats, _, _) = construct(vec![div(both, vec![])], NONE);
    assert_eq!(floats, ContainsFloats::No);
    match container {
        BlockContainer::BlockLevelBoxes(boxes) => {
            assert!(matches!(&*boxes[0], BlockLevelBox::OutOfFlowAbsolutelyPositionedBox(_)))
        }
        other => panic!("{:?}", other),
    }
}

#[test]
fn an_inline_element_is_never_out_of_flow() {
    let node = element(
        floating(3),
        DisplayOutside::Inline,
        DisplayInside::Flow,
        children(vec![text("a")]),
        BoxSlot::new(3),
    );
    let (container, floats, _, _) = construct(vec![node], NONE);
    assert_eq!(floats, ContainsFloats::No);
    assert_eq!(
        container,
        ifc(vec![Arc::new(InlineLevelBox::InlineBox(InlineBox {
            style: share(floating(3)),
            first_fragment: true,
            last_fragment: true,
            children: vec![Arc::new(InlineLevelBox::TextRun(TextRun {
                parent_style: share(floating(3)),
                text: "a".to_string()
            }))],
        }))])
    );
}

#[test]
fn sizes_of_an_inline_formatting_context() {
    let (_, _, content_sizes, _) = construct(vec![text("ab cde f")], INLINE);
    assert_eq!(content_sizes, BoxContentSizes::Inline(sizes(30, 80)));
    let (_, _, content_sizes, _) = construct(vec![text("ab cde f")], NONE);
    assert_eq!(content_sizes, BoxContentSizes::NoneWereRequested);
}

#[test]
fn sizes_are_the_maximum_of_the_outer_sizes_of_the_blocks() {
    let padded = ComputedStyle { inline_padding_border_margin: 4, ..style(1) };
    let fixed = ComputedStyle { inline_size: Some(100), inline_padding_border_margin: 7, ..style(2) };
    let (_, _, content_sizes, _) = construct(
        vec![text("a bc"), div(padded, vec![text("hello wide world")]), div(fixed, vec![text("x")])],
        INLINE,
    );
    // anonymous block (20, 40); padded block (50 + 4, 160 + 4); fixed block 100 + 7.
    assert_eq!(content_sizes, BoxContentSizes::Inline(sizes(107, 164)));
    let (_, _, content_sizes, _) = construct(
        vec![div(padded, vec![text("hello wide world")])],
        INLINE,
    );
    assert_eq!(content_sizes, BoxContentSizes::Inline(sizes(54, 164)));
}

#[test]
fn out_of_flow_blocks_add_nothing_to_the_sizes() {
    let (_, _, content_sizes, _) = construct(
        vec![div(floating(1), vec![text("floating text")]), div(style(2), vec![text("ab")])],
        INLINE,
    );
    assert_eq!(content_sizes, BoxContentSizes::Inline(sizes(20, 20)));
}

#[test]
fn an_atomic_box_has_sizes_if_its_inline_size_is_auto() {
    let fixed = ComputedStyle { inline_size: Some(55), ..style(2) };
    let (container, _, content_sizes, _) = construct(
        vec![inline_block(style(1), vec![text("ab c")]), inline_block(fixed, vec![text("ab c")])],
        INLINE,
    );
    assert_eq!(
        container,
        ifc(vec![
            Arc::new(InlineLevelBox::Atomic(flow(
                style(1),
                BoxContentSizes::Inline(sizes(20, 40)),
                ifc(vec![run(1, "ab c")]),
                false
            ))),
            Arc::new(InlineLevelBox::Atomic(flow(
                fixed,
                BoxContentSizes::NoneWereRequested,
                BlockContainer::InlineFormattingContext(InlineFormattingContext {
                    inline_level_boxes: vec![Arc::new(InlineLevelBox::TextRun(TextRun {
                        parent_style: share(fixed),
                        text: "ab c".to_string()
                    }))]
                }),
                false
            ))),
        ])
    );
    assert_eq!(content_sizes, BoxContentSizes::Inline(sizes(55, 95)));
}

#[test]
fn replaced_content_is_atomic_or_independent() {
    let image = ReplacedContent { intrinsic_inline_size: 300 };
    let inline_image = element(
        style(1),
        DisplayOutside::Inline,
        DisplayInside::Flow,
        Contents::Replaced(image),
        BoxSlot::new(1),
    );
    let block_image = element(
        style(2),
        DisplayOutside::Block,
        DisplayInside::Flow,
        Contents::Replaced(image),
        BoxSlot::new(2),
    );
    let (container, _, content_sizes, writes) = construct(vec![inline_image, block_image], INLINE);
    let atomic = Arc::new(InlineLevelBox::Atomic(IndependentFormattingContext {
        style: share(style(1)),
        content_sizes: BoxContentSizes::Inline(sizes(300, 300)),
        contents: IndependentFormattingContextContents::Replaced(image),
    }));
    let independent = Arc::new(BlockLevelBox::Independent(IndependentFormattingContext {
        style: share(style(2)),
        content_sizes: BoxContentSizes::Inline(sizes(300, 300)),
        contents: IndependentFormattingContextContents::Replaced(image),
    }));
    assert_eq!(
        container,
        BlockContainer::BlockLevelBoxes(vec![anonymous(0, vec![atomic]), independent])
    );
    assert_eq!(content_sizes, BoxContentSizes::Inline(sizes(300, 300)));
    assert_eq!(slots(&writes), vec![1, 2]);
}

#[test]
fn a_block_with_a_flow_root_is_independent() {
    let root = element(
        style(1),
        DisplayOutside::Block,
        DisplayInside::FlowRoot,
        children(vec![text("a")]),
        BoxSlot::dummy(),
    );
    let (container, _, _, writes) = construct(vec![root], NONE);
    assert_eq!(
        container,
        BlockContainer::BlockLevelBoxes(vec![Arc::new(BlockLevelBox::Independent(flow(
            style(1),
            BoxContentSizes::NoneWereRequested,
            ifc(vec![run(1, "a")]),
            false
        )))])
    );
    // The dummy slot takes no box.
    assert!(writes.is_empty());
}

#[test]
fn many_blocks_stay_in_document_order() {
    let count = 500;
    let nodes = (1..=count).map(|id| div(style(id), vec![text(&id.to_string())])).collect();
    let (container, _, content_sizes, writes) = construct(nodes, INLINE);
    let expected =
        (1..=count).map(|id| same_block(style(id), ifc(vec![run(id, &id.to_string())]))).collect();
    assert_eq!(container, BlockContainer::BlockLevelBoxes(expected));
    assert_eq!(content_sizes, BoxContentSizes::Inline(sizes(30, 30)));
    assert_eq!(slots(&writes), (1..=count as usize).collect::<Vec<_>>());
}

#[test]
fn slot_writes_of_nested_boxes_come_with_their_block() {
    let (_, _, _, writes) = construct(
        vec![
            span(1, vec![]),
            div(style(2), vec![span(3, vec![]), div(style(4), vec![span(5, vec![])])]),
            span(6, vec![]),
        ],
        NONE,
    );
    // Inline-level boxes of the container first, then each block with what is in it.
    assert_eq!(slots(&writes), vec![1, 6, 3, 5, 4, 2]);
}

#[test]
fn block_formatting_context_tells_floats_as_a_flag() {
    let context = UnshapedText { advance: 10 };
    let root = share(style(0));
    let (flow, content_sizes, writes) = BlockFormattingContext::construct(
        &context,
        &root,
        NonReplacedContents { children: vec![div(floating(1), vec![]), text("ab")] },
        INLINE,
    );
    assert!(flow.contains_floats);
    assert!(matches!(flow.contents, BlockContainer::BlockLevelBoxes(ref boxes) if boxes.len() == 2));
    assert_eq!(content_sizes, BoxContentSizes::Inline(sizes(20, 20)));
    assert_eq!(slots(&writes), vec![1]);
    let (flow, _, _) = BlockFormattingContext::construct(
        &context,
        &root,
        NonReplacedContents { children: vec![text("ab")] },
        NONE,
    );
    assert!(!flow.contains_floats);
}

#[test]
fn boxes_with_their_own_formatting_context() {
    let context = UnshapedText { advance: 3 };
    let fixed = ComputedStyle { inline_size: Some(9), ..style(1) };
    let (float, writes) =
        FloatBox::construct(&context, share(style(1)), DisplayInside::Flow, children(vec![text("abc")]));
    assert_eq!(float.contents.content_sizes, BoxContentSizes::Inline(sizes(9, 9)));
    assert!(writes.is_empty());
    let (float, _) =
        FloatBox::construct(&context, share(fixed), DisplayInside::Flow, children(vec![text("abc")]));
    assert_eq!(float.contents.content_sizes, BoxContentSizes::NoneWereRequested);
    let (absolute, _) = AbsolutelyPositionedBox::construct(
        &context,
        share(style(1)),
        DisplayInside::FlowRoot,
        Contents::Replaced(ReplacedContent { intrinsic_inline_size: 40 }),
    );
    assert_eq!(absolute.contents.content_sizes, BoxContentSizes::Inline(sizes(40, 40)));
    let (independent, writes) = IndependentFormattingContext::construct(
        &context,
        share(style(1)),
        DisplayInside::Flow,
        children(vec![span(2, vec![text("a")])]),
        NONE,
    );
    assert_eq!(independent.content_sizes, BoxContentSizes::NoneWereRequested);
    assert_eq!(slots(&writes), vec![2]);
}

/// Counts what is asked of it; every character is ten units wide.
struct Counting {
    styles: AtomicUsize,
    sizes: AtomicUsize,
}

impl LayoutContext for Counting {
    // The two functions that stand for the answers in contracts never run.
    fn anonymous_style(&self, _: ComputedStyle) -> ComputedStyle {
        unreachable!()
    }

    fn style_for_anonymous(
        &self,
        parent: &servo_arc::Arc<ComputedStyle>,
    ) -> servo_arc::Arc<ComputedStyle> {
        self.styles.fetch_add(1, Ordering::SeqCst);
        share(style(parent.id + 1000))
    }

    fn inline_sizes(&self, _: InlineLevelBoxViews) -> ContentSizes {
        unreachable!()
    }

    fn inline_content_sizes(&self, ifc: &InlineFormattingContext) -> ContentSizes {
        self.sizes.fetch_add(1, Ordering::SeqCst);
        UnshapedText { advance: 10 }.inline_content_sizes(ifc)
    }
}

fn counted(nodes: Vec<Node>, request: ContentSizesRequest) -> (BlockContainer, BoxContentSizes, usize, usize) {
    let context = Counting { styles: AtomicUsize::new(0), sizes: AtomicUsize::new(0) };
    let root = share(style(0));
    let contents = match adopt(children(nodes), style(0)) {
        Contents::NonReplaced(contents) => contents,
        Contents::Replaced(_) => unreachable!(),
    };
    let (container, _, content_sizes, _) =
        BlockContainer::construct(&context, &root, contents, request);
    (
        container,
        content_sizes,
        context.styles.load(Ordering::SeqCst),
        context.sizes.load(Ordering::SeqCst),
    )
}

fn document() -> Vec<Node> {
    vec![
        text("some text"),
        div(style(1), vec![text("inner"), div(style(2), vec![text("deep")]), text("more")]),
        span(3, vec![text("inline")]),
        div(ComputedStyle { inline_size: Some(10), ..style(4) }, vec![text("fixed")]),
    ]
}

#[test]
fn sizes_that_are_not_requested_are_not_computed() {
    let (_, content_sizes, _, measured) = counted(document(), NONE);
    assert_eq!(content_sizes, BoxContentSizes::NoneWereRequested);
    assert_eq!(measured, 0);
    let (_, content_sizes, _, measured) = counted(vec![text("only text")], NONE);
    assert_eq!(content_sizes, BoxContentSizes::NoneWereRequested);
    assert_eq!(measured, 0);
}

#[test]
fn sizes_that_are_requested_are_computed_for_auto_boxes() {
    let (_, content_sizes, _, measured) = counted(document(), INLINE);
    // Two anonymous blocks of the container, and in the first block two
    // anonymous blocks and the inner block; not the block of fixed size.
    assert_eq!(measured, 5);
    assert_eq!(content_sizes, BoxContentSizes::Inline(sizes(60, 90)));
}

#[test]
fn the_anonymous_style_is_looked_up_once_for_a_container() {
    let (container, _, styles, _) = counted(
        vec![text("a"), div(style(1), vec![]), text("b"), div(style(2), vec![]), text("c")],
        NONE,
    );
    assert_eq!(styles, 1);
    assert_eq!(
        container,
        BlockContainer::BlockLevelBoxes(vec![
            anonymous(1000, vec![run(0, "a")]),
            same_block(style(1), BlockContainer::BlockLevelBoxes(vec![])),
            anonymous(1000, vec![run(0, "b")]),
            same_block(style(2), BlockContainer::BlockLevelBoxes(vec![])),
            anonymous(1000, vec![run(0, "c")]),
        ])
    );
    let (_, _, styles, _) = counted(vec![text("a"), span(1, vec![text("b")])], NONE);
    assert_eq!(styles, 0);
    let (_, _, styles, _) = counted(vec![div(style(1), vec![]), div(style(2), vec![])], NONE);
    assert_eq!(styles, 0);
}

#[test]
fn unshaped_text_measures_words_and_lines() {
    let context = UnshapedText { advance: 7 };
    let measure = |boxes| {
        context.inline_content_sizes(&InlineFormattingContext { inline_level_boxes: boxes })
    };
    assert_eq!(measure(vec![]), sizes(0, 0));
    assert_eq!(measure(vec![run(0, "ab cdef g")]), sizes(28, 63));
    assert_eq!(
        measure(vec![run(0, "ab "), inline_box(1, true, true, vec![run(1, "cdefg"), run(1, " h")])]),
        sizes(35, 70)
    );
    let atomic = |inline_size, pbm, content_sizes| {
        Arc::new(InlineLevelBox::Atomic(IndependentFormattingContext {
            style: share(ComputedStyle {
                inline_size,
                inline_padding_border_margin: pbm,
                ..style(2)
            }),
            content_sizes,
            contents: IndependentFormattingContextContents::Replaced(ReplacedContent {
                intrinsic_inline_size: 0,
            }),
        }))
    };
    assert_eq!(
        measure(vec![
            run(0, "ab"),
            atomic(None, 5, BoxContentSizes::Inline(sizes(20, 30))),
            atomic(Some(50), 1, BoxContentSizes::NoneWereRequested),
            atomic(None, 9, BoxContentSizes::NoneWereRequested),
        ]),
        sizes(51, 14 + 35 + 51)
    );
    let wide = UnshapedText { advance: u32::MAX };
    assert_eq!(
        wide.inline_content_sizes(&InlineFormattingContext { inline_level_boxes: vec![run(0, "ab")] }),
        sizes(u32::MAX, u32::MAX)
    );
    assert_eq!(
        *wide.style_for_anonymous(&share(floating(3))),
        style(3)
    );
}

#[test]
fn a_text_run_has_the_style_of_the_parent_of_its_text() {
    // The parent of the text generates no box of its own.
    let (container, _, _, _) =
        construct(vec![span(1, vec![text_of(42, "a"), text("b")]), text_of(43, " c")], NONE);
    assert_eq!(
        container,
        ifc(vec![inline_box(1, true, true, vec![run(42, "ab")]), run(43, " c")])
    );
}
