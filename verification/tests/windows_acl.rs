use heel::windows::acl::{
    access_mask_for, global_acl_mutex_name, inheritance_for, AggregateGrantRegistry,
    RegistryReleaseError, DELETE, FILE_DELETE_CHILD, FILE_GENERIC_EXECUTE, FILE_GENERIC_READ,
    FILE_GENERIC_WRITE, NO_INHERITANCE, SUB_CONTAINERS_AND_OBJECTS_INHERIT,
};
use heel::windows::paths::{grant, RootAccess, RootGrant};
use std::cell::RefCell;

fn format_requests(requests: &[(&str, u32)]) -> String {
    requests
        .iter()
        .map(|(sid, mask)| format!("{sid}={mask}"))
        .collect::<Vec<_>>()
        .join(",")
}

#[test]
fn read_then_full_aggregates_without_resnapshotting_or_early_restore() {
    const READ: u32 = 0b001;
    const FULL: u32 = 0b111;
    let mut registry = AggregateGrantRegistry::default();
    let events = RefCell::new(Vec::new());

    registry
        .acquire(
            "same-resource",
            "sid-a",
            READ,
            |requests| {
                events
                    .borrow_mut()
                    .push(format!("apply:{}", format_requests(requests)));
                Ok::<_, &'static str>("original-dacl")
            },
            |state, requests| {
                events
                    .borrow_mut()
                    .push(format!("reapply:{state}:{}", format_requests(requests)));
                Ok::<_, &'static str>(())
            },
        )
        .expect("read acquisition");
    registry
        .acquire(
            "same-resource",
            "sid-a",
            FULL,
            |requests| {
                events
                    .borrow_mut()
                    .push(format!("resnapshot:{}", format_requests(requests)));
                Ok::<_, &'static str>("stale-dacl")
            },
            |state, requests| {
                events
                    .borrow_mut()
                    .push(format!("reapply:{state}:{}", format_requests(requests)));
                Ok::<_, &'static str>(())
            },
        )
        .expect("full acquisition");

    registry
        .release(
            &"same-resource",
            &"sid-a",
            READ,
            |state, requests| {
                events
                    .borrow_mut()
                    .push(format!("reapply:{state}:{}", format_requests(requests)));
                Ok::<_, &'static str>(())
            },
            |state| {
                events.borrow_mut().push(format!("restore:{state}"));
                Ok::<_, &'static str>(())
            },
        )
        .expect("read release should keep full active");
    assert_eq!(
        *events.borrow(),
        vec![
            "apply:sid-a=1".to_string(),
            "reapply:original-dacl:sid-a=7".to_string()
        ]
    );

    registry
        .release(
            &"same-resource",
            &"sid-a",
            FULL,
            |state, requests| {
                events
                    .borrow_mut()
                    .push(format!("reapply:{state}:{}", format_requests(requests)));
                Ok::<_, &'static str>(())
            },
            |state| {
                events.borrow_mut().push(format!("restore:{state}"));
                Ok::<_, &'static str>(())
            },
        )
        .expect("last release should restore original");

    assert_eq!(
        *events.borrow(),
        vec![
            "apply:sid-a=1".to_string(),
            "reapply:original-dacl:sid-a=7".to_string(),
            "restore:original-dacl".to_string()
        ]
    );
}

#[test]
fn cross_sid_same_resource_reconfigures_per_sid_aces_without_resnapshotting() {
    const READ: u32 = 0b001;
    const FULL: u32 = 0b111;
    let mut registry = AggregateGrantRegistry::default();
    let events = RefCell::new(Vec::new());

    registry
        .acquire(
            "same-path",
            "sid-a",
            READ,
            |requests| {
                events
                    .borrow_mut()
                    .push(format!("apply:{}", format_requests(requests)));
                Ok::<_, &'static str>("original-dacl")
            },
            |state, requests| {
                events
                    .borrow_mut()
                    .push(format!("reapply:{state}:{}", format_requests(requests)));
                Ok::<_, &'static str>(())
            },
        )
        .expect("sid-a read acquisition");
    registry
        .acquire(
            "same-path",
            "sid-b",
            FULL,
            |requests| {
                events
                    .borrow_mut()
                    .push(format!("resnapshot:{}", format_requests(requests)));
                Ok::<_, &'static str>("stale-dacl")
            },
            |state, requests| {
                events
                    .borrow_mut()
                    .push(format!("reapply:{state}:{}", format_requests(requests)));
                Ok::<_, &'static str>(())
            },
        )
        .expect("sid-b full acquisition");
    registry
        .release(
            &"same-path",
            &"sid-a",
            READ,
            |state, requests| {
                events
                    .borrow_mut()
                    .push(format!("reapply:{state}:{}", format_requests(requests)));
                Ok::<_, &'static str>(())
            },
            |state| {
                events.borrow_mut().push(format!("restore:{state}"));
                Ok::<_, &'static str>(())
            },
        )
        .expect("sid-a release should keep sid-b active");
    registry
        .release(
            &"same-path",
            &"sid-b",
            FULL,
            |state, requests| {
                events
                    .borrow_mut()
                    .push(format!("reapply:{state}:{}", format_requests(requests)));
                Ok::<_, &'static str>(())
            },
            |state| {
                events.borrow_mut().push(format!("restore:{state}"));
                Ok::<_, &'static str>(())
            },
        )
        .expect("sid-b last release should restore");

    assert_eq!(
        *events.borrow(),
        vec![
            "apply:sid-a=1".to_string(),
            "reapply:original-dacl:sid-a=1,sid-b=7".to_string(),
            "reapply:original-dacl:sid-b=7".to_string(),
            "restore:original-dacl".to_string()
        ]
    );
}

#[test]
fn releasing_broader_grant_reapplies_remaining_narrower_mask() {
    const READ: u32 = 0b001;
    const FULL: u32 = 0b111;
    let mut registry = AggregateGrantRegistry::default();
    let events = RefCell::new(Vec::new());

    registry
        .acquire(
            "same-resource",
            "sid-a",
            READ,
            |_| Ok::<_, &'static str>("original-dacl"),
            |_state, _requests| Ok::<_, &'static str>(()),
        )
        .expect("read acquisition");
    registry
        .acquire(
            "same-resource",
            "sid-a",
            FULL,
            |_| Ok::<_, &'static str>("stale-dacl"),
            |_state, _requests| Ok::<_, &'static str>(()),
        )
        .expect("full acquisition");

    registry
        .release(
            &"same-resource",
            &"sid-a",
            FULL,
            |state, requests| {
                events
                    .borrow_mut()
                    .push(format!("reapply:{state}:{}", format_requests(requests)));
                Ok::<_, &'static str>(())
            },
            |state| {
                events.borrow_mut().push(format!("restore:{state}"));
                Ok::<_, &'static str>(())
            },
        )
        .expect("full release should reapply read-only aggregate");

    assert_eq!(*events.borrow(), vec!["reapply:original-dacl:sid-a=1"]);
}

#[test]
fn different_paths_remain_separate_resources() {
    let mut registry = AggregateGrantRegistry::default();
    let events = RefCell::new(Vec::new());

    registry
        .acquire(
            ("read-root", "inherit"),
            "sid",
            1,
            |requests| {
                events
                    .borrow_mut()
                    .push(format!("apply-read-root:{}", format_requests(requests)));
                Ok::<_, &'static str>("read-root-dacl")
            },
            |_state, _requests| Ok::<_, &'static str>(()),
        )
        .expect("read-root acquisition");
    registry
        .acquire(
            ("write-root", "inherit"),
            "sid",
            1,
            |requests| {
                events
                    .borrow_mut()
                    .push(format!("apply-write-root:{}", format_requests(requests)));
                Ok::<_, &'static str>("write-root-dacl")
            },
            |_state, _requests| Ok::<_, &'static str>(()),
        )
        .expect("write-root acquisition");

    assert_eq!(
        *events.borrow(),
        vec!["apply-read-root:sid=1", "apply-write-root:sid=1"]
    );
}

#[test]
fn release_surfaces_restore_failures() {
    let mut registry = AggregateGrantRegistry::default();
    registry
        .acquire(
            "grant",
            "sid",
            1,
            |_| Ok::<_, &'static str>("original-dacl"),
            |_state, _requests| Ok::<_, &'static str>(()),
        )
        .expect("acquisition");

    let error = registry
        .release(
            &"grant",
            &"sid",
            1,
            |_state, _requests| Ok::<_, &'static str>(()),
            |_state| Err::<(), _>("restore failed"),
        )
        .expect_err("restore failure should be returned");

    assert_eq!(error, RegistryReleaseError::Restore("restore failed"));
}

#[test]
fn release_rejects_unknown_keys() {
    let mut registry = AggregateGrantRegistry::<&str, &str, &str>::default();

    let error = registry
        .release(
            &"missing",
            &"sid",
            1,
            |_state, _requests| Ok::<_, &'static str>(()),
            |_state| Ok::<_, &'static str>(()),
        )
        .expect_err("unknown key should be rejected");

    assert_eq!(error, RegistryReleaseError::UnknownGrant);
}

#[test]
fn release_rejects_unknown_access_masks() {
    let mut registry = AggregateGrantRegistry::default();
    registry
        .acquire(
            "grant",
            "sid",
            1,
            |_| Ok::<_, &'static str>("original-dacl"),
            |_state, _requests| Ok::<_, &'static str>(()),
        )
        .expect("acquisition");

    let error = registry
        .release(
            &"grant",
            &"sid",
            2,
            |_state, _requests| Ok::<_, &'static str>(()),
            |_state| Ok::<_, &'static str>(()),
        )
        .expect_err("unknown access mask should be rejected");

    assert_eq!(error, RegistryReleaseError::UnknownAccessMask);
}

#[test]
fn failed_release_keeps_request_retryable() {
    let mut registry = AggregateGrantRegistry::default();
    registry
        .acquire(
            "grant",
            "sid",
            1,
            |_| Ok::<_, &'static str>("original-dacl"),
            |_state, _requests| Ok::<_, &'static str>(()),
        )
        .expect("acquisition");

    let error = registry
        .release(
            &"grant",
            &"sid",
            1,
            |_state, _requests| Ok::<_, &'static str>(()),
            |_state| Err::<(), _>("transient restore failure"),
        )
        .expect_err("restore failure should be returned");

    assert_eq!(
        error,
        RegistryReleaseError::Restore("transient restore failure")
    );
    assert_eq!(registry.request_count(&"grant", &"sid", 1), 1);

    registry
        .release(
            &"grant",
            &"sid",
            1,
            |_state, _requests| Ok::<_, &'static str>(()),
            |_state| Ok::<_, &'static str>(()),
        )
        .expect("retry release should still be possible");
}

#[test]
fn global_mutex_name_is_stable_and_session_local() {
    let first = global_acl_mutex_name();
    let second = global_acl_mutex_name();

    assert_eq!(first, second);
    assert_eq!(first, "Local\\heel-acl-coordination");
}

#[test]
fn global_mutex_name_does_not_embed_resource_paths() {
    let name = global_acl_mutex_name();

    assert!(!name.contains("Users"));
    assert!(!name.contains("Heel\\root"));
    assert!(!name.contains(':'));
}

#[test]
fn root_access_maps_to_conservative_file_masks() {
    assert_eq!(access_mask_for(RootAccess::Read), FILE_GENERIC_READ);
    assert_eq!(
        access_mask_for(RootAccess::Write),
        FILE_GENERIC_READ | FILE_GENERIC_WRITE
    );
    assert_eq!(
        access_mask_for(RootAccess::Execute),
        FILE_GENERIC_READ | FILE_GENERIC_EXECUTE
    );
    assert_eq!(
        access_mask_for(RootAccess::Runtime),
        FILE_GENERIC_READ | FILE_GENERIC_EXECUTE
    );
    assert_eq!(
        access_mask_for(RootAccess::Full),
        FILE_GENERIC_READ | FILE_GENERIC_WRITE | FILE_GENERIC_EXECUTE | DELETE | FILE_DELETE_CHILD
    );
}

#[test]
fn directory_grants_inherit_to_children() {
    assert_eq!(inheritance_for(true), SUB_CONTAINERS_AND_OBJECTS_INHERIT);
    assert_eq!(inheritance_for(false), NO_INHERITANCE);
}

#[test]
fn grant_keeps_write_access_available_for_acl_mapping() {
    let item: RootGrant = grant("C:/Heel/write", RootAccess::Write, true);

    assert_eq!(
        access_mask_for(item.access),
        FILE_GENERIC_READ | FILE_GENERIC_WRITE
    );
}

#[test]
fn win32_file_access_constants_have_their_documented_values() {
    assert_eq!(FILE_GENERIC_READ, 0x0012_0089);
    assert_eq!(FILE_GENERIC_WRITE, 0x0012_0116);
    assert_eq!(FILE_GENERIC_EXECUTE, 0x0012_00A0);
    assert_eq!(DELETE, 0x0001_0000);
    assert_eq!(FILE_DELETE_CHILD, 0x0000_0040);
    assert_eq!(access_mask_for(RootAccess::Full), 0x0013_01FF);
}

#[test]
fn acquiring_twice_then_releasing_once_keeps_the_grant() {
    let mut registry = AggregateGrantRegistry::default();
    let restores = RefCell::new(0);
    for _ in 0..2 {
        registry
            .acquire(
                "root",
                "sid",
                4,
                |_| Ok::<_, &'static str>("dacl"),
                |_state, _requests| Ok::<_, &'static str>(()),
            )
            .expect("acquisition");
    }
    assert_eq!(registry.request_count(&"root", &"sid", 4), 2);
    registry
        .release(
            &"root",
            &"sid",
            4,
            |_state, _requests| Ok::<_, &'static str>(()),
            |_state| {
                *restores.borrow_mut() += 1;
                Ok::<_, &'static str>(())
            },
        )
        .expect("first release");
    assert_eq!(*restores.borrow(), 0);
    assert_eq!(registry.request_count(&"root", &"sid", 4), 1);
    registry
        .release(
            &"root",
            &"sid",
            4,
            |_state, _requests| Ok::<_, &'static str>(()),
            |_state| {
                *restores.borrow_mut() += 1;
                Ok::<_, &'static str>(())
            },
        )
        .expect("second release");
    assert_eq!(*restores.borrow(), 1);
    assert_eq!(registry.request_count(&"root", &"sid", 4), 0);
}

#[test]
fn failed_create_registers_nothing() {
    let mut registry = AggregateGrantRegistry::<&str, &str, &str>::default();
    let error = registry
        .acquire(
            "root",
            "sid",
            1,
            |_| Err::<&str, _>("snapshot failed"),
            |_state, _requests| Ok::<_, &'static str>(()),
        )
        .expect_err("create failure should be returned");
    assert_eq!(error, "snapshot failed");
    assert_eq!(registry.request_count(&"root", &"sid", 1), 0);
}

#[test]
fn failed_reconfigure_keeps_counts() {
    let mut registry = AggregateGrantRegistry::default();
    registry
        .acquire(
            "root",
            "sid",
            1,
            |_| Ok::<_, &'static str>("dacl"),
            |_state, _requests| Ok::<_, &'static str>(()),
        )
        .expect("acquisition");
    let error = registry
        .acquire(
            "root",
            "sid",
            2,
            |_| Ok::<_, &'static str>("stale"),
            |_state, _requests| Err::<(), _>("reapply failed"),
        )
        .expect_err("reconfigure failure should be returned");
    assert_eq!(error, "reapply failed");
    assert_eq!(registry.request_count(&"root", &"sid", 2), 0);
    assert_eq!(registry.request_count(&"root", &"sid", 1), 1);
}
