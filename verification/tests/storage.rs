use soroban_storage::lifecycle::Lifecycle;
use soroban_storage::ops::{bump, extend_ttl, get, set_ttl, TtlExtension};
use soroban_storage::schema::{
    merge_opts, plan_storage, EntryAttr, EntrySpec, StorageEntry, StorageOption, StorageOpts,
};
use soroban_storage::ttl::{
    default_policy, TtlPolicy, LEDGERS_PER_DAY, MAX_PERSISTENT_TTL, MAX_TEMP_TTL,
    MIN_PERSISTENT_TTL,
};

fn entry(name: &str, attrs: Vec<EntryAttr>, args: &[&str], value: &str) -> StorageEntry {
    StorageEntry {
        attrs,
        name: name.to_string(),
        arg_types: args.iter().map(|s| s.to_string()).collect(),
        value_type: value.to_string(),
    }
}

/// The declaration of the storage tests: `Balance`, `Nonce`, `Admin` and `Marker`.
fn declared() -> Vec<EntrySpec> {
    let entries = vec![
        entry(
            "Balance",
            vec![
                EntryAttr::Doc(" User token balance. Irreplaceable; must never be temporary.".to_string()),
                EntryAttr::Storage(vec![StorageOption::Persistent, StorageOption::Critical]),
                EntryAttr::Storage(vec![StorageOption::Policy("TtlPolicy::days(7, 30)".to_string())]),
            ],
            &["Address"],
            "i128",
        ),
        entry(
            "Nonce",
            vec![
                EntryAttr::Doc(" Disposable nonce. Safe in temporary storage.".to_string()),
                EntryAttr::Storage(vec![StorageOption::Temporary]),
            ],
            &["Address"],
            "u64",
        ),
        entry(
            "Admin",
            vec![
                EntryAttr::Doc(" Contract admin, stored in instance storage.".to_string()),
                EntryAttr::Storage(vec![StorageOption::Instance]),
            ],
            &[],
            "Address",
        ),
        entry(
            "Marker",
            vec![
                EntryAttr::Doc(" Persistent entry with automatic bumping disabled.".to_string()),
                EntryAttr::Storage(vec![StorageOption::Persistent, StorageOption::NoBump]),
            ],
            &["Address"],
            "u64",
        ),
    ];
    match plan_storage(&entries) {
        Ok(specs) => specs,
        Err(e) => panic!("declaration refused: {}", e.message),
    }
}

#[test]
fn declarations_expose_lifecycle_at_compile_time() {
    let specs = declared();
    let balance = &specs[0];
    let nonce = &specs[1];
    let admin = &specs[2];
    let marker = &specs[3];
    assert_eq!(balance.lifecycle, Lifecycle::Persistent);
    assert!(balance.critical);
    assert!(balance.auto_bump);

    assert_eq!(nonce.lifecycle, Lifecycle::Temporary);
    assert!(!nonce.critical);

    assert_eq!(admin.lifecycle, Lifecycle::Instance);
    assert!(!admin.critical);

    assert_eq!(marker.lifecycle, Lifecycle::Persistent);
    assert!(!marker.auto_bump);
}

#[test]
fn accessors_are_named_after_their_entries() {
    let specs = declared();
    let names: Vec<&str> = specs.iter().map(|s| s.key_struct.as_str()).collect();
    assert_eq!(names, vec!["BalanceKey", "NonceKey", "AdminKey", "MarkerKey"]);
    assert_eq!(specs[0].policy.as_deref(), Some("TtlPolicy::days(7, 30)"));
    assert_eq!(specs[1].policy, None);
    assert_eq!(
        specs[0].docs,
        vec![" User token balance. Irreplaceable; must never be temporary.".to_string()]
    );
}

#[test]
fn storage_macro_compile_errors() {
    // A critical entry declared temporary.
    let critical_temporary = vec![entry(
        "Balance",
        vec![
            EntryAttr::Doc(" User token balance. Critical data can never be temporary.".to_string()),
            EntryAttr::Storage(vec![StorageOption::Temporary, StorageOption::Critical]),
        ],
        &["Address"],
        "i128",
    )];
    let err = plan_storage(&critical_temporary).err().expect("refused");
    assert_eq!(err.entry, Some(0));
    assert_eq!(
        err.message,
        "critical entry declared `temporary`: temporary entries are permanently deleted when their TTL expires and can never be restored. Use `persistent` (or `instance`) for data that cannot be recreated."
    );
    // An entry without a lifecycle.
    let missing = vec![entry("Balance", vec![], &["Address"], "i128")];
    let err = plan_storage(&missing).err().expect("refused");
    assert_eq!(err.entry, Some(0));
    assert_eq!(
        err.message,
        "storage entry requires an explicit lifecycle: add `#[storage(persistent)]`, `#[storage(temporary)]`, or `#[storage(instance)]`"
    );
}

#[test]
fn empty_declarations_and_unknown_options_are_refused() {
    let err = plan_storage(&vec![]).err().expect("refused");
    assert_eq!(err.entry, None);
    assert_eq!(err.message, "`storage!` requires at least one entry");

    let unknown = vec![
        entry("Nonce", vec![EntryAttr::Storage(vec![StorageOption::Temporary])], &[], "u64"),
        entry(
            "Balance",
            vec![EntryAttr::Storage(vec![
                StorageOption::Persistent,
                StorageOption::Unknown("forever".to_string()),
            ])],
            &[],
            "i128",
        ),
    ];
    let err = plan_storage(&unknown).err().expect("refused");
    assert_eq!(err.entry, Some(1));
    assert_eq!(
        err.message,
        "unknown storage option `forever` (expected `persistent`, `temporary`, `instance`, `critical`, `auto_bump`, `no_bump`, or `policy = ...`)"
    );
}

#[test]
fn options_merge_across_attributes() {
    // Automatic bumping is on unless an option turns it off.
    let parsed = StorageOpts::parse(&vec![StorageOption::Persistent]).ok().unwrap();
    assert!(parsed.auto_bump);
    let off = StorageOpts::parse(&vec![StorageOption::AutoBump(Some(false))]).ok().unwrap();
    assert!(!off.auto_bump);
    // Critical accumulates, a later lifecycle replaces an earlier one, and
    // the last attribute that names bumping sets it.
    let merged = merge_opts(&vec![
        EntryAttr::Storage(vec![StorageOption::Temporary, StorageOption::Critical]),
        EntryAttr::Other,
        EntryAttr::Storage(vec![StorageOption::Persistent, StorageOption::NoBump]),
    ])
    .ok()
    .unwrap();
    assert_eq!(merged.lifecycle, Some(Lifecycle::Persistent));
    assert!(merged.critical);
    assert!(!merged.auto_bump);
    // No attribute at all: no lifecycle, and bumping keeps its default.
    let none = merge_opts(&vec![]).ok().unwrap();
    assert_eq!(none.lifecycle, None);
    assert!(none.auto_bump);
}

#[test]
fn no_bump_survives_a_later_attribute_that_does_not_name_bumping() {
    let merged = merge_opts(&vec![
        EntryAttr::Storage(vec![StorageOption::Persistent, StorageOption::NoBump]),
        EntryAttr::Storage(vec![StorageOption::Policy("TtlPolicy::days(1, 2)".to_string())]),
    ])
    .ok()
    .unwrap();
    assert_eq!(merged.lifecycle, Some(Lifecycle::Persistent));
    assert_eq!(merged.policy, Some("TtlPolicy::days(1, 2)".to_string()));
    assert!(!merged.auto_bump);
    // A later attribute that names `auto_bump` turns it back on.
    let again = merge_opts(&vec![
        EntryAttr::Storage(vec![StorageOption::Persistent, StorageOption::NoBump]),
        EntryAttr::Storage(vec![StorageOption::AutoBump(None)]),
    ])
    .ok()
    .unwrap();
    assert!(again.auto_bump);
}

#[test]
fn ttl_policy_days_and_clamping() {
    assert_eq!(LEDGERS_PER_DAY, 17_280);
    let p = TtlPolicy::days(7, 30);
    assert_eq!(p.threshold_ledgers, 120_960);
    assert_eq!(p.extend_to_ledgers, 518_400);
    assert_eq!(TtlPolicy::default(), p);
    let long = TtlPolicy::new(1, 10_000_000);
    assert_eq!(long.clamped_for(Lifecycle::Temporary).extend_to_ledgers, MAX_TEMP_TTL);
    assert_eq!(long.clamped_for(Lifecycle::Persistent).extend_to_ledgers, MAX_PERSISTENT_TTL);
    assert_eq!(long.clamped_for(Lifecycle::Instance).threshold_ledgers, 1);
    assert_eq!(default_policy(Lifecycle::Temporary), TtlPolicy::new(17_280, 518_400));
    assert_eq!(default_policy(Lifecycle::Persistent), TtlPolicy::new(120_960, 518_400));
    assert_eq!(Lifecycle::Temporary.as_str(), "temporary");
    assert!(!Lifecycle::Temporary.accepts_critical());
    assert!(Lifecycle::Instance.is_restorable());
}

#[test]
fn auto_bump_extends_persistent_ttl_to_policy() {
    let policy = TtlPolicy::days(7, 30);
    // A write bumps the entry to the 30-day policy target...
    let ext = soroban_storage::ops::set(Lifecycle::Persistent, &policy, true).unwrap();
    assert!(ext.extend_to >= 500_000);
    // ...from any TTL below the 7-day threshold, such as a fresh entry's.
    assert!(MIN_PERSISTENT_TTL < ext.threshold);
    // A read of a present entry bumps it again.
    let read = get(true, false, Lifecycle::Persistent, &policy, true).unwrap();
    assert!(read.extend_to >= 500_000);
    // A missing entry is never bumped.
    assert_eq!(get(false, false, Lifecycle::Persistent, &policy, true), None);
}

#[test]
fn temporary_ttl_respects_max() {
    let ext = soroban_storage::ops::set(Lifecycle::Temporary, &default_policy(Lifecycle::Temporary), true).unwrap();
    assert!((500_000..=MAX_TEMP_TTL).contains(&ext.extend_to));
    let clamped = bump(Lifecycle::Temporary, &TtlPolicy::new(17_280, 10_000_000));
    assert_eq!(clamped.extend_to, MAX_TEMP_TTL);
}

#[test]
fn no_bump_keeps_minimum_ttl() {
    assert_eq!(soroban_storage::ops::set(Lifecycle::Persistent, &default_policy(Lifecycle::Persistent), false), None);
}

#[test]
fn set_ttl_pins_exact_lifetime() {
    assert_eq!(set_ttl(100_000), TtlExtension { threshold: 100_000, extend_to: 100_000 });
}

#[test]
fn pinned_entries_get_no_policy_bump_on_reads() {
    let policy = TtlPolicy::days(7, 30);
    // Written with `set_ttl(.., 14 days)`: later reads leave the TTL alone.
    assert_eq!(set_ttl(14 * LEDGERS_PER_DAY), TtlExtension { threshold: 241_920, extend_to: 241_920 });
    assert_eq!(get(true, true, Lifecycle::Persistent, &policy, true), None);
    // Once written again with `set`, reads bump it as before.
    assert_eq!(
        get(true, false, Lifecycle::Persistent, &policy, true),
        Some(TtlExtension { threshold: 120_960, extend_to: 518_400 })
    );
    // An explicit `bump` still applies the policy.
    assert_eq!(bump(Lifecycle::Persistent, &policy), TtlExtension { threshold: 120_960, extend_to: 518_400 });
}

#[test]
fn explicit_extend_ttl_works_without_auto_bump() {
    assert_eq!(extend_ttl(50_000), TtlExtension { threshold: 50_000, extend_to: 50_000 });
}

#[test]
fn explicit_bump_applies_policy() {
    let ext = bump(Lifecycle::Persistent, &default_policy(Lifecycle::Persistent));
    assert_eq!(ext, TtlExtension { threshold: 120_960, extend_to: 518_400 });
    assert!(ext.extend_to >= 500_000);
}
