//! The lease under which another program shows the dictation.

use dontspeakd::dictation_presenter::{
    generation_is_newer, hex_name, DictationPresenterRegistry,
};

fn registry() -> DictationPresenterRegistry {
    DictationPresenterRegistry::new().expect("random bytes")
}

#[test]
fn acquire_is_not_active_until_ready() {
    let mut registry = registry();
    let session = registry.session_id(7);
    let now: u64 = 1000;
    let acquired = registry.acquire(session.clone(), Some(&session), 3_500, now);
    assert!(!acquired.changed);
    let lease = acquired.result.unwrap();
    assert_eq!(registry.current(), Some((session.clone(), false)));
    assert_eq!(registry.external_ui_active(Some(&session), now), (false, false));

    let ready = registry.ready(&lease.id, &session, Some(&session), now);
    assert!(ready.changed);
    ready.result.unwrap();
    assert_eq!(registry.external_ui_active(Some(&session), now), (true, false));
}

#[test]
fn lease_is_scoped_to_one_session() {
    let mut registry = registry();
    let session = registry.session_id(7);
    let other_session = registry.session_id(8);
    let now: u64 = 1000;
    let lease = registry
        .acquire(session.clone(), Some(&session), 3_500, now)
        .result
        .unwrap();
    let wrong_session = registry.ready(&lease.id, &other_session, Some(&other_session), now);
    assert!(wrong_session.result.unwrap_err().contains("does not match"));
    assert!(!wrong_session.changed);
    assert_eq!(registry.current(), Some((session, false)));
}

#[test]
fn no_presenter_can_replace_a_live_lease() {
    let mut registry = registry();
    let session = registry.session_id(7);
    let now: u64 = 1000;
    registry
        .acquire(session.clone(), Some(&session), 3_500, now)
        .result
        .unwrap();
    assert!(registry
        .acquire(session.clone(), Some(&session), 3_500, now)
        .result
        .unwrap_err()
        .contains("already active"));
}

#[test]
fn expiry_and_release_restore_native_fallback() {
    let mut registry = registry();
    let session = registry.session_id(7);
    let now: u64 = 1000;
    let lease = registry
        .acquire(session.clone(), Some(&session), 500, now)
        .result
        .unwrap();
    registry
        .ready(&lease.id, &session, Some(&session), now)
        .result
        .unwrap();
    assert_eq!(registry.external_ui_active(Some(&session), now + 501), (false, true));

    let lease = registry
        .acquire(session.clone(), Some(&session), 3_500, now)
        .result
        .unwrap();
    registry
        .ready(&lease.id, &session, Some(&session), now)
        .result
        .unwrap();
    let released = registry.release(&lease.id, &session, now);
    assert!(released.changed);
    released.result.unwrap();
    assert_eq!(registry.external_ui_active(Some(&session), now), (false, false));
}

#[test]
fn renew_preserves_ready_and_extends_the_deadline() {
    let mut registry = registry();
    let session = registry.session_id(7);
    let now: u64 = 1000;
    let lease = registry
        .acquire(session.clone(), Some(&session), 500, now)
        .result
        .unwrap();
    registry
        .ready(&lease.id, &session, Some(&session), now)
        .result
        .unwrap();
    let renewed = registry.renew(&lease.id, &session, Some(&session), 2_000, now + 400);
    assert!(!renewed.changed);
    renewed.result.unwrap();
    assert_eq!(registry.external_ui_active(Some(&session), now + 1_500), (true, false));
}

#[test]
fn a_reserved_lease_cannot_be_renewed_before_first_render() {
    let mut registry = registry();
    let session = registry.session_id(7);
    let now: u64 = 1000;
    let lease = registry
        .acquire(session.clone(), Some(&session), 500, now)
        .result
        .unwrap();
    let renewed = registry.renew(&lease.id, &session, Some(&session), 2_000, now);
    assert!(renewed.result.unwrap_err().contains("not ready"));
    assert!(!renewed.changed);
    assert_eq!(registry.external_ui_active(Some(&session), now + 501), (false, false));
}

#[test]
fn ttl_policy_rejects_out_of_range_values_instead_of_clamping() {
    let mut registry = registry();
    let session = registry.session_id(7);
    let now: u64 = 1000;

    assert!(registry
        .acquire(session.clone(), Some(&session), 499, now)
        .result
        .unwrap_err()
        .contains("between 500 and 60000"));
    assert_eq!(registry.current(), None);
}

#[test]
fn stale_session_requests_cannot_revoke_a_newer_live_lease() {
    let mut registry = registry();
    let old_session = registry.session_id(7);
    let new_session = registry.session_id(8);
    let now: u64 = 1000;
    let old = registry
        .acquire(old_session.clone(), Some(&old_session), 3_500, now)
        .result
        .unwrap();
    registry.release(&old.id, &old_session, now).result.unwrap();

    let current = registry
        .acquire(new_session.clone(), Some(&new_session), 3_500, now)
        .result
        .unwrap();
    registry
        .ready(&current.id, &new_session, Some(&new_session), now)
        .result
        .unwrap();

    let delayed_acquire = registry.acquire(old_session.clone(), Some(&old_session), 3_500, now);
    assert!(delayed_acquire.result.unwrap_err().contains("already active"));
    assert!(!delayed_acquire.changed);

    let delayed_ready = registry.ready(&old.id, &old_session, Some(&old_session), now);
    assert!(delayed_ready.result.unwrap_err().contains("does not match"));
    assert!(!delayed_ready.changed);

    let delayed_renew = registry.renew(&old.id, &old_session, Some(&old_session), 3_500, now);
    assert!(delayed_renew.result.unwrap_err().contains("does not match"));
    assert!(!delayed_renew.changed);
    assert_eq!(registry.current(), Some((new_session, true)));
}

#[test]
fn matching_stale_lease_revocation_reports_ready_state_change_on_error() {
    let mut registry = registry();
    let session = registry.session_id(7);
    let next_session = registry.session_id(8);
    let now: u64 = 1000;
    let lease = registry
        .acquire(session.clone(), Some(&session), 3_500, now)
        .result
        .unwrap();
    registry
        .ready(&lease.id, &session, Some(&session), now)
        .result
        .unwrap();

    let stale = registry.renew(&lease.id, &session, Some(&next_session), 3_500, now);
    assert!(stale.result.unwrap_err().contains("no longer active"));
    assert!(stale.changed);
    assert_eq!(registry.current(), None);
}

#[test]
fn a_new_generation_replaces_only_an_older_session_lease() {
    let mut registry = registry();
    let old_session = registry.session_id(7);
    let new_session = registry.session_id(8);
    let now: u64 = 1000;
    let old = registry
        .acquire(old_session.clone(), Some(&old_session), 3_500, now)
        .result
        .unwrap();
    registry
        .ready(&old.id, &old_session, Some(&old_session), now)
        .result
        .unwrap();

    let new = registry.acquire(new_session.clone(), Some(&new_session), 3_500, now);
    assert!(new.changed);
    new.result.unwrap();
    assert_eq!(registry.current(), Some((new_session, false)));
}

#[test]
fn generated_session_ids_are_stable_per_registry_and_unique_across_restarts() {
    let first = registry();
    let second = registry();
    assert_eq!(first.session_id(7), first.session_id(7));
    assert_ne!(first.session_id(7), first.session_id(8));
    assert_ne!(first.session_id(7), second.session_id(7));
}

#[test]
fn presentation_generation_order_survives_counter_wrap() {
    assert!(generation_is_newer(8, 7));
    assert!(!generation_is_newer(7, 8));
    assert!(generation_is_newer(0, u64::MAX));
    assert!(!generation_is_newer(u64::MAX, 0));
    assert!(!generation_is_newer(7, 7));
}

#[test]
fn a_named_registry_gives_fixed_ids_and_leases() {
    let mut registry = DictationPresenterRegistry::named("ab".to_string());
    let session = registry.session_id(255);
    assert_eq!(session, "ab-00000000000000ff");
    let lease = registry
        .acquire_named(session.clone(), Some(&session), 500, Some("lease".to_string()), 0)
        .result
        .unwrap();
    assert_eq!(lease.id, "lease");
    assert_eq!(registry.current(), Some((session.clone(), false)));
    let without = DictationPresenterRegistry::named("ab".to_string()).acquire_named(
        session.clone(),
        Some(&session),
        500,
        None,
        0,
    );
    assert!(without.result.is_err(), "no lease without random bytes");
}

#[test]
fn a_registry_needs_bytes_for_its_name() {
    assert_eq!(hex_name(&Some(vec![0x0f, 0xa0])).as_deref(), Some("0fa0"));
    assert_eq!(hex_name(&Some(Vec::new())).as_deref(), Some(""));
    assert_eq!(hex_name(&None), None);

    let named = DictationPresenterRegistry::named_if_any(Some("ab".to_string())).expect("a name");
    assert_eq!(named.session_id(255), "ab-00000000000000ff");
    assert!(DictationPresenterRegistry::named_if_any(None).is_none());
}

#[test]
fn a_change_is_reported_where_another_dictation_is_shown() {
    let mut registry = DictationPresenterRegistry::named("ab".to_string());
    let first = registry.session_id(1);
    let second = registry.session_id(2);
    let lease = some_lease(&mut registry, &first, "one", 0);
    assert!(registry.ready(&lease, &first, Some(&first), 0).changed, "shown only now");
    assert!(!registry.ready(&lease, &first, Some(&first), 1).changed, "shown already");
    assert!(!registry.renew(&lease, &first, Some(&first), 1000, 2).changed, "still shown");
    let next =
        registry.acquire_named(second.clone(), Some(&second), 1000, Some("two".to_string()), 3);
    assert!(next.changed, "the earlier dictation is shown no longer");
    assert!(!registry.release("two", &second, 4).changed, "nothing was shown");
}

fn some_lease(
    registry: &mut DictationPresenterRegistry,
    session: &str,
    name: &str,
    now: u64,
) -> String {
    let given = registry.acquire_named(
        session.to_string(),
        Some(session),
        1000,
        Some(name.to_string()),
        now,
    );
    assert!(!given.changed);
    given.result.expect("a lease").id
}
