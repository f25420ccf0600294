use padu::providers::{
    apply_provider_move, apply_provider_path_override, set_provider_enabled, toggle_provider_expanded, ModelChoice,
};

const FIRST: u32 = 0;
const SECOND: u32 = 1;
const THIRD: u32 = 2;

#[test]
fn enabling_a_provider_removes_every_disabled_entry() {
    let mut disabled = vec![SECOND, FIRST, SECOND];
    let r = set_provider_enabled(&mut disabled, SECOND, true, &[FIRST, SECOND, THIRD], &[true, true, true], SECOND, &[]);
    assert_eq!(disabled, vec![FIRST]);
    assert!(r.is_none());
}

#[test]
fn disabling_moves_new_work_to_the_first_provider_still_on() {
    let mut disabled = vec![];
    let sessions = [(SECOND, false), (SECOND, true), (FIRST, false), (SECOND, false)];
    let r = set_provider_enabled(
        &mut disabled,
        SECOND,
        false,
        &[FIRST, SECOND, THIRD],
        &[false, false, true],
        SECOND,
        &sessions,
    )
    .unwrap();
    assert_eq!(disabled, vec![SECOND]);
    assert_eq!(r.fallback, THIRD);
    assert!(r.reset_last);
    assert_eq!(r.drafts, vec![0, 3]);
}

#[test]
fn disabling_twice_lists_the_provider_once_and_keeps_another_default() {
    let mut disabled = vec![SECOND];
    let r = set_provider_enabled(&mut disabled, SECOND, false, &[FIRST, SECOND], &[true, false], FIRST, &[])
        .unwrap();
    assert_eq!(disabled, vec![SECOND]);
    assert_eq!(r.fallback, FIRST);
    assert!(!r.reset_last);
    assert!(r.drafts.is_empty());
}

#[test]
fn disabling_the_last_provider_moves_nothing() {
    let mut disabled = vec![FIRST];
    let r = set_provider_enabled(&mut disabled, SECOND, false, &[FIRST, SECOND], &[false, false], SECOND, &[(SECOND, false)]);
    assert_eq!(disabled, vec![FIRST, SECOND]);
    assert!(r.is_none());
}

#[test]
fn path_override_is_trimmed_replaced_and_cleared() {
    let mut overrides: Vec<(u32, String)> = vec![(FIRST, "/opt/first/bin/agent".to_string())];
    assert!(apply_provider_path_override(&mut overrides, Some(SECOND), "  /usr/local/bin/second \n"));
    assert_eq!(overrides, vec![(FIRST, "/opt/first/bin/agent".to_string()), (SECOND, "/usr/local/bin/second".to_string())]);
    assert!(!apply_provider_path_override(&mut overrides, Some(SECOND), "/usr/local/bin/second"));
    assert!(apply_provider_path_override(&mut overrides, Some(FIRST), "   "));
    assert_eq!(overrides, vec![(SECOND, "/usr/local/bin/second".to_string())]);
    assert!(!apply_provider_path_override(&mut overrides, None, "/x"));
    assert_eq!(overrides, vec![(SECOND, "/usr/local/bin/second".to_string())]);
}

#[test]
fn toggling_a_provider_commits_the_open_one_and_loads_its_path() {
    let mut expanded = Some(FIRST);
    let mut overrides: Vec<(u32, String)> = vec![(SECOND, "/usr/local/bin/second".to_string())];
    let (changed, input) = toggle_provider_expanded(&mut expanded, &mut overrides, " /opt/first/bin/agent ", SECOND);
    assert!(changed);
    assert_eq!(expanded, Some(SECOND));
    assert_eq!(input, Some("/usr/local/bin/second".to_string()));
    assert!(overrides.contains(&(FIRST, "/opt/first/bin/agent".to_string())));
    let (changed, input) = toggle_provider_expanded(&mut expanded, &mut overrides, "/usr/local/bin/second", SECOND);
    assert!(!changed);
    assert_eq!(expanded, None);
    assert_eq!(input, None);
}

fn chosen(provider: u32, model: &str) -> ModelChoice {
    ModelChoice {
        provider,
        model: Some(model.to_string()),
        reasoning_effort: Some("high".to_string()),
        service_tier: Some("fast".to_string()),
        context_window: Some(200_000),
    }
}

fn fresh(provider: u32) -> ModelChoice {
    ModelChoice { provider, model: None, reasoning_effort: None, service_tier: None, context_window: None }
}

#[test]
fn applying_a_move_resets_the_default_and_the_drafts_only() {
    let sessions_info = [(SECOND, false), (SECOND, true), (FIRST, false), (SECOND, false)];
    let m = set_provider_enabled(&mut vec![], SECOND, false, &[FIRST, SECOND], &[true, false], SECOND, &sessions_info)
        .unwrap();
    let mut last = chosen(SECOND, "m2");
    let mut sessions = vec![chosen(SECOND, "a"), chosen(SECOND, "b"), chosen(FIRST, "c"), chosen(SECOND, "d")];
    apply_provider_move(&m, &mut last, &mut sessions);
    assert_eq!(last, fresh(FIRST));
    assert_eq!(sessions, vec![fresh(FIRST), chosen(SECOND, "b"), chosen(FIRST, "c"), fresh(FIRST)]);

    let m = set_provider_enabled(&mut vec![], THIRD, false, &[FIRST, THIRD], &[true, false], FIRST, &[]).unwrap();
    let mut last = chosen(FIRST, "m1");
    let mut sessions = vec![chosen(THIRD, "started")];
    apply_provider_move(&m, &mut last, &mut sessions);
    assert_eq!(last, chosen(FIRST, "m1"));
    assert_eq!(sessions, vec![chosen(THIRD, "started")]);
}
