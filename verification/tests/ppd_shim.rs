use hpd::ppd_shim::{HoldFilter, PowerProfilesShim, BUS_NAME, OBJECT_PATH, PROFILES};
use hpd::profile::ProfileName;
use hpd::request::RequestError;
use hpd::transition::Transition;

fn hold(shim: &mut PowerProfilesShim, profile: ProfileName, holder: &str) -> (u32, Option<ProfileName>) {
    shim.hold(
        profile,
        "reason".to_string(),
        "app".to_string(),
        holder.to_string(),
        ProfileName::Balanced,
    )
}

#[test]
fn hold_applies_the_requested_profile() {
    let mut shim = PowerProfilesShim::new();
    let (cookie, target) = hold(&mut shim, ProfileName::Performance, ":1.1");
    assert_eq!(cookie, 1);
    assert_eq!(target, Some(ProfileName::Performance));
}

#[test]
fn power_saver_outranks_performance_regardless_of_order() {
    let mut shim = PowerProfilesShim::new();
    let (_, target) = hold(&mut shim, ProfileName::Performance, ":1.1");
    assert_eq!(target, Some(ProfileName::Performance));
    let (_, target) = hold(&mut shim, ProfileName::PowerSaver, ":1.2");
    assert_eq!(target, Some(ProfileName::PowerSaver));

    let mut shim = PowerProfilesShim::new();
    hold(&mut shim, ProfileName::PowerSaver, ":1.2");
    let (_, target) = hold(&mut shim, ProfileName::Performance, ":1.1");
    assert_eq!(target, Some(ProfileName::PowerSaver));
}

#[test]
fn releasing_the_last_hold_restores_the_pre_hold_snapshot() {
    let mut shim = PowerProfilesShim::new();
    let (cookie, target) = hold(&mut shim, ProfileName::Performance, ":1.1");
    assert_eq!(target, Some(ProfileName::Performance));

    let (removed, target) = shim.remove_holds(&HoldFilter::Cookie(cookie));
    assert_eq!(removed, vec![cookie]);
    assert_eq!(target, None);
    assert!(matches!(
        shim.restore_pre_hold_snapshot(),
        Some(Transition::SetProfile(ProfileName::Balanced))
    ));
}

#[test]
fn releasing_one_of_two_holds_reasserts_the_remaining_one() {
    let mut shim = PowerProfilesShim::new();
    let (cookie_a, _) = hold(&mut shim, ProfileName::PowerSaver, ":1.1");
    hold(&mut shim, ProfileName::Performance, ":1.2");

    let (removed, target) = shim.remove_holds(&HoldFilter::Cookie(cookie_a));
    assert_eq!(removed, vec![cookie_a]);
    assert_eq!(target, Some(ProfileName::Performance));
}

#[test]
fn releasing_an_unknown_cookie_is_a_harmless_noop() {
    let mut shim = PowerProfilesShim::new();
    let (removed, target) = shim.remove_holds(&HoldFilter::Cookie(999));
    assert!(removed.is_empty());
    assert_eq!(target, None);
    assert!(shim.release_profile(999).is_none());
}

#[test]
fn holder_disconnect_removes_only_that_holders_holds() {
    let mut shim = PowerProfilesShim::new();
    hold(&mut shim, ProfileName::Performance, ":1.1");
    let (removed, target) = shim.remove_holds(&HoldFilter::Holder(":1.1".to_string()));
    assert_eq!(removed.len(), 1);
    assert_eq!(target, None);
}

#[test]
fn peek_expected_reflects_current_holds_without_mutating() {
    let mut shim = PowerProfilesShim::new();
    assert_eq!(shim.peek_expected(), None);
    hold(&mut shim, ProfileName::Performance, ":1.1");
    assert_eq!(shim.peek_expected(), Some(ProfileName::Performance));
    assert_eq!(shim.holds.len(), 1);
}

fn ask(
    shim: &mut PowerProfilesShim,
    profile: &str,
    sender: Option<&str>,
) -> Result<(u32, Transition), RequestError> {
    shim.hold_profile(
        profile,
        "reason".to_string(),
        "app".to_string(),
        sender.map(str::to_string),
        &ProfileName::Balanced,
    )
}

#[test]
fn only_two_profiles_can_be_held() {
    let mut shim = PowerProfilesShim::new();
    let refusal = ask(&mut shim, "Balanced", Some(":1.1")).unwrap_err();
    assert!(matches!(&refusal, RequestError::InvalidArgs(_)));
    assert_eq!(
        refusal.to_string(),
        "HoldProfile only accepts power-saver or performance, got balanced"
    );
    let refusal = ask(&mut shim, "  ", Some(":1.1")).unwrap_err();
    assert_eq!(refusal.to_string(), "profile name cannot be empty");
    let refusal = ask(&mut shim, "performance", None).unwrap_err();
    assert!(matches!(&refusal, RequestError::Failed(_)));
    assert_eq!(refusal.to_string(), "method call has no sender");
    assert!(shim.holds.is_empty());

    let (cookie, request) = ask(&mut shim, "quiet", Some(":1.1")).unwrap();
    assert_eq!(cookie, 1);
    assert!(matches!(request, Transition::SetProfile(ProfileName::PowerSaver)));
}

#[test]
fn to_hold_and_release_brings_the_profile_back() {
    let mut shim = PowerProfilesShim::new();
    let (first, _) = ask(&mut shim, "performance", Some(":1.1")).unwrap();
    let (second, _) = ask(&mut shim, "power-saver", Some(":1.2")).unwrap();
    assert_ne!(first, second);
    assert!(matches!(
        shim.release_profile(second),
        Some(Transition::SetProfile(ProfileName::Performance))
    ));
    assert!(matches!(
        shim.release_profile(first),
        Some(Transition::SetProfile(ProfileName::Balanced))
    ));
    assert!(shim.pre_hold_profile.is_none());
}

#[test]
fn a_client_that_is_gone_holds_nothing() {
    let mut shim = PowerProfilesShim::new();
    ask(&mut shim, "performance", Some(":1.1")).unwrap();
    assert!(shim
        .owner_changed(Some(":1.1".to_string()), Some(":1.9".to_string()))
        .is_none());
    assert_eq!(shim.holds.len(), 1);
    assert!(shim.owner_changed(Some(":1.7".to_string()), None).is_none());
    assert!(matches!(
        shim.owner_changed(Some(":1.1".to_string()), None),
        Some(Transition::SetProfile(ProfileName::Balanced))
    ));
    assert!(shim.holds.is_empty());
}

#[test]
fn a_change_by_somebody_else_cancels_every_hold() {
    let mut shim = PowerProfilesShim::new();
    let (first, _) = ask(&mut shim, "performance", Some(":1.1")).unwrap();
    let (second, _) = ask(&mut shim, "performance", Some(":1.2")).unwrap();
    let (balanced, performance) = (ProfileName::Balanced, ProfileName::Performance);
    assert!(shim.reconcile(&balanced, &performance).is_empty());
    assert_eq!(shim.holds.len(), 2);
    assert_eq!(shim.reconcile(&performance, &balanced), vec![first, second]);
    assert!(shim.holds.is_empty());
    assert!(shim.pre_hold_profile.is_none());
    assert!(shim.reconcile(&balanced, &ProfileName::PowerSaver).is_empty());
}

#[test]
fn a_profile_that_did_not_change_cancels_no_hold() {
    let mut shim = PowerProfilesShim::new();
    ask(&mut shim, "power-saver", Some(":1.1")).unwrap();
    let pinned = ProfileName::Performance;
    assert!(shim.reconcile(&pinned, &pinned).is_empty());
    assert_eq!(shim.holds.len(), 1);
    assert!(shim.pre_hold_profile.is_some());
}

#[test]
fn cookies_wrap_around() {
    let mut shim = PowerProfilesShim::new();
    shim.next_cookie = u32::MAX;
    let (last, _) = hold(&mut shim, ProfileName::Performance, ":1.1");
    let (next, _) = hold(&mut shim, ProfileName::Performance, ":1.1");
    assert_eq!(last, u32::MAX);
    assert_eq!(next, 0);
}

#[test]
fn a_client_may_set_the_profile_directly() {
    assert!(matches!(
        PowerProfilesShim::set_active_profile("Performance"),
        Ok(Transition::SetProfile(ProfileName::Performance))
    ));
    assert!(PowerProfilesShim::set_active_profile("").is_err());
    assert_eq!(BUS_NAME, "net.hadess.PowerProfiles");
    assert_eq!(OBJECT_PATH, "/net/hadess/PowerProfiles");
    assert_eq!(PROFILES, ["power-saver", "balanced", "performance"]);
}
