use mini_ai_1c::client::{countdown_step, QwenRequestSlots, QWEN_MIN_REQUEST_GAP_MS};
use mini_ai_1c::models::SkillFile;
use mini_ai_1c::overlay::{
    clamp_overlay_size, fallback_window_size, get_pending_overlay_state, ActionResultType,
    OverlayState, OverlayStateQueue,
};
use mini_ai_1c::skills::{find_skill, parse_frontmatter, skill_from_file, sort_skills_by_name};

#[test]
fn frontmatter_fields_are_read() {
    let content = "---\nname: Ревью кода\ndescription: Проверяет модуль\ndomain: quality\ncategory: other\n---\nТело";
    let (name, description, category) = parse_frontmatter(content);
    assert_eq!(name, "Ревью кода");
    assert_eq!(description, "Проверяет модуль");
    assert_eq!(category, "quality");
}

#[test]
fn file_without_frontmatter_has_empty_metadata() {
    assert_eq!(
        parse_frontmatter("# Title\nname: x\n"),
        (String::new(), String::new(), String::new())
    );
    assert_eq!(
        parse_frontmatter("---\nname: x\n"),
        (String::new(), String::new(), String::new())
    );
}

#[test]
fn skills_are_found_by_id() {
    let a = skill_from_file("a".to_string(), "---\nname: A\n---\n".to_string());
    assert_eq!(a.name, "A");
    let b = SkillFile {
        id: "b".to_string(),
        name: "B".to_string(),
        description: String::new(),
        category: String::new(),
        content: String::new(),
    };
    let found = find_skill(vec![a.clone(), b.clone()], "b").unwrap();
    assert_eq!(found.name, "B");
    assert_eq!(
        find_skill(vec![a, b], "c").unwrap_err(),
        "Skill 'c' not found"
    );
}

fn state(phase: &str, result_type: Option<ActionResultType>) -> OverlayState {
    OverlayState {
        phase: phase.to_string(),
        action: None,
        result_type,
        preview: None,
        result_code: None,
        diff_content: None,
        conf_hwnd: 0,
        original_code: None,
        use_select_all: false,
        write_intent: None,
        can_apply_directly: None,
        apply_unavailable_reason: None,
        preferred_writer: None,
        caret_line: None,
        method_start_line: None,
        method_name: None,
        runtime_id: None,
        target_x: None,
        target_y: None,
        target_child_hwnd: None,
    }
}

#[test]
fn overlay_sizes_follow_phase() {
    assert_eq!(fallback_window_size(&state("menu", None)), (316, 420));
    assert_eq!(fallback_window_size(&state("loading", None)), (404, 168));
    assert_eq!(
        fallback_window_size(&state("result", Some(ActionResultType::ExplainOnly))),
        (548, 420)
    );
    assert_eq!(
        fallback_window_size(&state("result", Some(ActionResultType::Diff))),
        (500, 430)
    );
    assert_eq!(fallback_window_size(&state("other", None)), (396, 320));
    assert_eq!(clamp_overlay_size(10, 10_000), (280, 560));
    assert_eq!(clamp_overlay_size(500, 300), (500, 300));
}

#[test]
fn overlay_state_waits_for_page_ready() {
    let mut q = OverlayStateQueue::new();
    assert!(!q.queue_overlay_state(state("menu", None)));
    assert_eq!(get_pending_overlay_state(&q).map(|s| s.phase.clone()), Some("menu".to_string()));
    assert_eq!(q.mark_ready().map(|s| s.phase.clone()), Some("menu".to_string()));
    assert!(q.queue_overlay_state(state("loading", None)));
    q.clear();
    assert!(get_pending_overlay_state(&q).is_none());
    assert!(q.ready);
}

#[test]
fn qwen_requests_are_spaced_per_profile() {
    let mut slots = QwenRequestSlots::new();
    assert_eq!(slots.reserve("p", 10_000), 0);
    assert_eq!(slots.reserve("p", 10_000), QWEN_MIN_REQUEST_GAP_MS);
    assert_eq!(slots.reserve("other", 10_000), 0);
    assert_eq!(slots.reserve("p", 20_000), 0);
    slots.extend_cooldown("p", 30_000, 5_000);
    assert_eq!(slots.reserve("p", 31_000), 4_000);
}

#[test]
fn countdown_shows_whole_seconds() {
    assert_eq!(countdown_step(2_500), (2, 1_000));
    assert_eq!(countdown_step(400), (1, 400));
}

#[test]
fn skills_are_sorted_by_name() {
    let mk = |id: &str, name: &str| SkillFile {
        id: id.to_string(),
        name: name.to_string(),
        description: String::new(),
        category: String::new(),
        content: String::new(),
    };
    let sorted = sort_skills_by_name(vec![
        mk("1", "Ревью"),
        mk("2", "Alpha"),
        mk("3", "beta"),
        mk("4", "Alpha"),
        mk("5", "Zeta"),
    ]);
    let ids: Vec<&str> = sorted.iter().map(|s| s.id.as_str()).collect();
    assert_eq!(ids, vec!["2", "4", "5", "3", "1"]);
    let mut names: Vec<String> = sorted.iter().map(|s| s.name.clone()).collect();
    let expected = names.clone();
    names.sort();
    assert_eq!(names, expected);
}
