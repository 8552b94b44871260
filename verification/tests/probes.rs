use dioxus_field::{
    testing::{
        assert_meta_flag_precedence, joined_ids, ChangeOriginProbe, CommitOrderProbe,
        FocusExitOrderEvent, FocusExitOrderProbe, FocusExitProbe, FocusRoundTripProbe,
        OverridableMetaFlags,
    },
    ChangeOrigin,
};

#[test]
fn commit_order_probe_accepts_only_one_commit_before_one_submit() {
    let mut probe = CommitOrderProbe::new();
    assert!(!probe.commit_before_submit());
    probe.record_commit();
    probe.record_submit();
    assert!(probe.commit_before_submit());
    probe.assert_commit_before_submit();

    let mut reversed = CommitOrderProbe::new();
    reversed.record_submit();
    reversed.record_commit();
    assert!(!reversed.commit_before_submit());

    let mut repeated = CommitOrderProbe::new();
    repeated.record_commit();
    repeated.record_commit();
    repeated.record_submit();
    assert!(!repeated.commit_before_submit());
}

#[test]
fn focus_exit_probe_counts_reports() {
    let mut probe = FocusExitProbe::new();
    assert_eq!(probe.focus_exit_count(), 0);
    probe.assert_no_focus_exit();
    probe.record_focus_exit();
    assert_eq!(probe.focus_exit_count(), 1);
    probe.assert_focus_exit_once();
    probe.record_focus_exit();
    assert_eq!(probe.focus_exit_count(), 2);
}

#[test]
fn focus_exit_order_probe_checks_the_observed_order() {
    let mut commit_only = FocusExitOrderProbe::new();
    commit_only.record(FocusExitOrderEvent::Commit);
    assert!(commit_only.commit_without_focus_exit());
    assert!(!commit_only.write_and_commit_before_focus_exit());
    commit_only.assert_commit_without_focus_exit();

    let mut full = FocusExitOrderProbe::new();
    full.record(FocusExitOrderEvent::Write);
    full.record(FocusExitOrderEvent::Commit);
    full.record(FocusExitOrderEvent::FocusExit);
    assert!(full.write_and_commit_before_focus_exit());
    assert!(!full.commit_without_focus_exit());
    full.assert_write_and_commit_before_focus_exit();

    let mut early_exit = FocusExitOrderProbe::new();
    early_exit.record(FocusExitOrderEvent::Write);
    early_exit.record(FocusExitOrderEvent::FocusExit);
    early_exit.record(FocusExitOrderEvent::Commit);
    assert!(!early_exit.write_and_commit_before_focus_exit());
}

#[test]
fn change_origin_probe_matches_values_and_origins_in_order() {
    let mut probe = ChangeOriginProbe::new();
    probe.record(9, ChangeOrigin::Programmatic);
    probe.record(8, ChangeOrigin::User);
    assert!(probe.writes_match(&[(9, ChangeOrigin::Programmatic), (8, ChangeOrigin::User)]));
    probe.assert_writes(&[(9, ChangeOrigin::Programmatic), (8, ChangeOrigin::User)]);
    assert!(!probe.writes_match(&[(9, ChangeOrigin::User), (8, ChangeOrigin::User)]));
    assert!(!probe.writes_match(&[(8, ChangeOrigin::User), (9, ChangeOrigin::Programmatic)]));
    assert!(!probe.writes_match(&[(9, ChangeOrigin::Programmatic)]));
}

#[test]
fn overridable_flags_default_required_to_false() {
    let flags = OverridableMetaFlags::new(true, false);
    assert_eq!(
        flags,
        OverridableMetaFlags {
            invalid: true,
            disabled: false,
            required: false,
        }
    );
    let required = flags.with_required(true);
    assert!(required.required && required.invalid && !required.disabled);
    assert_meta_flag_precedence(required, OverridableMetaFlags::new(true, false).with_required(true));
}

#[test]
fn focus_round_trip_probe_counts_calls() {
    let mut probe = FocusRoundTripProbe::new();
    probe.assert_focus_not_moved();
    probe.record_focus();
    assert_eq!(probe.focus_call_count(), 1);
    probe.assert_focus_round_trip();
}

#[test]
fn joined_ids_are_separated_by_single_spaces() {
    assert_eq!(joined_ids(&[]), None);
    assert_eq!(joined_ids(&["email-help"]).as_deref(), Some("email-help"));
    assert_eq!(
        joined_ids(&["email-help", "email-error"]).as_deref(),
        Some("email-help email-error")
    );
}
