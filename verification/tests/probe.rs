use multiwin::gl_manager::{next_context_attempt, select_config, ContextKind, GlConfig};

fn cfg(num_samples: u8, supports_transparency: bool) -> GlConfig {
    GlConfig { num_samples, stencil_size: 8, supports_transparency }
}

#[test]
fn no_configs_means_no_selection() {
    let configs: Vec<GlConfig> = Vec::new();
    assert_eq!(select_config(&configs), None);
}

#[test]
fn highest_multisample_count_wins_without_transparency() {
    let configs = vec![cfg(0, false), cfg(4, false), cfg(2, false)];
    assert_eq!(select_config(&configs), Some(1));
}

#[test]
fn multisample_ties_break_by_first_found() {
    let configs = vec![cfg(1, false), cfg(4, false), cfg(4, false), cfg(4, false)];
    assert_eq!(select_config(&configs), Some(1));
}

#[test]
fn transparency_support_beats_multisampling() {
    let configs = vec![cfg(16, false), cfg(0, true), cfg(8, true)];
    assert_eq!(select_config(&configs), Some(1));
}

#[test]
fn single_config_is_selected() {
    let configs = vec![cfg(0, false)];
    assert_eq!(select_config(&configs), Some(0));
}

#[test]
fn first_transparent_config_wins_even_at_index_zero() {
    let configs = vec![cfg(0, true), cfg(16, true)];
    assert_eq!(select_config(&configs), Some(0));
}

#[test]
fn context_fallback_order_is_modern_then_gles_then_legacy() {
    assert_eq!(next_context_attempt(None), Some(ContextKind::Modern));
    assert_eq!(next_context_attempt(Some(ContextKind::Modern)), Some(ContextKind::Gles));
    assert_eq!(next_context_attempt(Some(ContextKind::Gles)), Some(ContextKind::Legacy));
    assert_eq!(next_context_attempt(Some(ContextKind::Legacy)), None);
}

#[test]
fn fallback_chain_visits_each_tier_once_then_gives_up() {
    let mut tried = Vec::new();
    let mut last = None;
    while let Some(kind) = next_context_attempt(last) {
        tried.push(kind);
        last = Some(kind);
    }
    assert_eq!(tried, vec![ContextKind::Modern, ContextKind::Gles, ContextKind::Legacy]);
}
