use codex_enhanced::context_pruner::{
    apply_pressure_prune, prune_blocks, ContentBlock, ModelVisibleSurface, SurfaceItem,
    ToolResultPrunePolicy,
};
use codex_enhanced::telemetry::EnhancedEventKind;

fn huge_result(chars: usize) -> ModelVisibleSurface {
    ModelVisibleSurface {
        generation: 3,
        items: vec![
            SurfaceItem::User {
                text: "please inspect the file".into(),
            },
            SurfaceItem::ToolCall {
                call_id: "c1".into(),
                tool_name: "read".into(),
                tool_type: "function".into(),
                arguments: "{\"path\":\"a\"}".into(),
            },
            SurfaceItem::ToolResult {
                call_id: "c1".into(),
                tool_name: "read".into(),
                tool_type: "function".into(),
                blocks: vec![ContentBlock {
                    kind: "text".into(),
                    text: Some("😀".repeat(chars / 2) + &"b".repeat(chars / 2)),
                }],
            },
            SurfaceItem::Control {
                key: "turn".into(),
                value: "1".into(),
            },
        ],
    }
}

/// The number of tokens from which on a window counts as under pressure.
fn trigger(context_window_tokens: u64, ratio: f64) -> u64 {
    ((context_window_tokens as f64) * ratio).floor() as u64
}

#[test]
fn pressure_below_threshold_does_not_rewrite() {
    let surface = huge_result(40);
    let outcome = apply_pressure_prune(
        &surface,
        ToolResultPrunePolicy::default(),
        trigger(200_000, 0.85),
    );
    assert!(!outcome.rewritten);
    assert_eq!(outcome.surface, surface);
}

#[test]
fn tool_pairing_survives_pruning() {
    let policy = ToolResultPrunePolicy {
        min_text_chars: 20,
        keep_head_chars: 4,
        keep_tail_chars: 4,
    };
    let surface = huge_result(80);
    let outcome = apply_pressure_prune(&surface, policy, trigger(10, 0.01));
    assert!(outcome.rewritten);
    assert!(outcome.surface.tool_pairs_intact());
    match &outcome.surface.items[2] {
        SurfaceItem::ToolResult {
            call_id,
            tool_name,
            tool_type,
            blocks,
        } => {
            assert_eq!(call_id, "c1");
            assert_eq!(tool_name, "read");
            assert_eq!(tool_type, "function");
            assert_eq!(blocks[0].kind, "text");
        }
        other => panic!("unexpected {other:?}"),
    }
    assert!(matches!(outcome.surface.items[0], SurfaceItem::User { .. }));
    assert!(matches!(
        outcome.surface.items[3],
        SurfaceItem::Control { .. }
    ));
}

#[test]
fn multi_block_tool_result_is_pruned_as_one_surface() {
    let policy = ToolResultPrunePolicy {
        min_text_chars: 20,
        keep_head_chars: 4,
        keep_tail_chars: 4,
    };
    let surface = ModelVisibleSurface {
        generation: 1,
        items: vec![SurfaceItem::ToolResult {
            call_id: "c1".into(),
            tool_name: "read".into(),
            tool_type: "function".into(),
            blocks: vec![
                ContentBlock {
                    kind: "text".into(),
                    text: Some("AAAA".repeat(10)),
                },
                ContentBlock {
                    kind: "image".into(),
                    text: None,
                },
                ContentBlock {
                    kind: "text".into(),
                    text: Some("BBBB".repeat(10)),
                },
            ],
        }],
    };
    let outcome = apply_pressure_prune(&surface, policy, trigger(10, 0.01));
    let SurfaceItem::ToolResult { blocks, .. } = &outcome.surface.items[0] else {
        panic!("expected tool result");
    };
    assert_eq!(blocks.len(), 3);
    assert_eq!(blocks[1].kind, "image");
    assert!(blocks[1].text.is_none());
    let text: String = blocks
        .iter()
        .filter_map(|block| block.text.as_deref())
        .collect();
    assert_eq!(text.matches("omitted").count(), 1);
    assert!(text.starts_with("AAAA"));
    assert!(text.ends_with("BBBB"));
    assert_eq!(text, "AAAA\n[... omitted 72 characters ...]\nBBBB");
}

#[test]
fn utf8_pruning_is_safe() {
    let policy = ToolResultPrunePolicy {
        min_text_chars: 8,
        keep_head_chars: 3,
        keep_tail_chars: 3,
    };
    let surface = huge_result(40);
    let outcome = apply_pressure_prune(&surface, policy, trigger(10, 0.01));
    let SurfaceItem::ToolResult { blocks, .. } = &outcome.surface.items[2] else {
        panic!("expected tool result");
    };
    let text = blocks[0].text.as_deref().unwrap();
    assert!(text.is_char_boundary(text.len()));
    assert!(text.contains("omitted"));
    assert!(std::str::from_utf8(text.as_bytes()).is_ok());
}

#[test]
fn standard_policy_has_its_numbers() {
    let policy = ToolResultPrunePolicy::default();
    assert_eq!(policy.min_text_chars, 2_000);
    assert_eq!(policy.keep_head_chars, 400);
    assert_eq!(policy.keep_tail_chars, 800);
}

#[test]
fn sizes_count_texts_by_characters_and_names_by_bytes() {
    let surface = ModelVisibleSurface {
        generation: 0,
        items: vec![
            SurfaceItem::User { text: "ä😀".into() },
            SurfaceItem::Control { key: "ä".into(), value: "1".into() },
            SurfaceItem::ToolCall {
                call_id: "é".into(),
                tool_name: "ab".into(),
                tool_type: "c".into(),
                arguments: "ü".into(),
            },
        ],
    };
    assert_eq!(surface.char_count(), 2 + 3 + 6);
    assert_eq!(surface.estimated_tokens(), 3);
    assert_eq!(surface.byte_count(), 6 + 3 + 7);
    assert_eq!(ModelVisibleSurface::default().estimated_tokens(), 0);
}

#[test]
fn pruning_starts_exactly_at_the_trigger() {
    let surface = huge_result(4_000);
    let tokens = surface.estimated_tokens();
    let policy = ToolResultPrunePolicy::default();
    assert!(!apply_pressure_prune(&surface, policy, tokens + 1).rewritten);
    let outcome = apply_pressure_prune(&surface, policy, tokens);
    assert!(outcome.rewritten);
    assert_eq!(outcome.surface.generation, 4);
    assert_eq!(outcome.before_token_estimate, tokens);
    assert_eq!(
        outcome.chars_removed,
        (surface.char_count() - outcome.surface.char_count()) as u64
    );
    assert_eq!(outcome.after_token_estimate, outcome.surface.estimated_tokens());
    assert_eq!(outcome.events.len(), 2);
    assert_eq!(outcome.events[0].kind, EnhancedEventKind::ContextPruneStarted);
    assert_eq!(outcome.events[1].kind, EnhancedEventKind::ContextPruneCompleted);
    assert_eq!(outcome.events[1].fields.chars_removed, Some(outcome.chars_removed));
}

#[test]
fn a_marker_longer_than_the_omission_does_not_count_as_rewritten() {
    let policy = ToolResultPrunePolicy {
        min_text_chars: 1,
        keep_head_chars: 1,
        keep_tail_chars: 1,
    };
    let surface = ModelVisibleSurface {
        generation: 5,
        items: vec![SurfaceItem::ToolResult {
            call_id: "c".into(),
            tool_name: "t".into(),
            tool_type: "function".into(),
            blocks: vec![ContentBlock { kind: "text".into(), text: Some("abc".into()) }],
        }],
    };
    let outcome = apply_pressure_prune(&surface, policy, 0);
    assert!(!outcome.rewritten);
    assert_eq!(outcome.surface.generation, 5);
    assert_eq!(outcome.chars_removed, 0);
}

#[test]
fn short_results_and_results_that_are_kept_whole_are_left_alone() {
    let text = |t: &str| vec![ContentBlock { kind: "text".into(), text: Some(t.into()) }];
    let policy = ToolResultPrunePolicy {
        min_text_chars: 5,
        keep_head_chars: 3,
        keep_tail_chars: 3,
    };
    let mut blocks = text("abcd");
    assert_eq!(prune_blocks(&mut blocks, policy), 0);
    assert_eq!(blocks, text("abcd"));
    let mut blocks = text("abcdef");
    assert_eq!(prune_blocks(&mut blocks, policy), 0);
    assert_eq!(blocks, text("abcdef"));
    let mut blocks = text("abcdefg");
    assert_eq!(prune_blocks(&mut blocks, policy), 1);
    assert_eq!(blocks, text("abc\n[... omitted 1 characters ...]\nefg"));
}

#[test]
fn pairs_are_out_of_order_or_missing() {
    let call = |id: &str| SurfaceItem::ToolCall {
        call_id: id.into(),
        tool_name: "t".into(),
        tool_type: "function".into(),
        arguments: "{}".into(),
    };
    let result = |id: &str| SurfaceItem::ToolResult {
        call_id: id.into(),
        tool_name: "t".into(),
        tool_type: "function".into(),
        blocks: vec![],
    };
    let surface = |items| ModelVisibleSurface { generation: 0, items };
    assert!(surface(vec![call("a"), call("b"), result("a"), result("b")]).tool_pairs_intact());
    assert!(!surface(vec![call("a"), call("b"), result("b"), result("a")]).tool_pairs_intact());
    assert!(!surface(vec![call("a")]).tool_pairs_intact());
}
