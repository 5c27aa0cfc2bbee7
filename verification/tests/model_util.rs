use netherite_auth::ledger::{Ledger, TokenRecord};
use netherite_auth::storage::{AvFt, AvK, Storage};
use netherite_auth::token::JwtKind;
use netherite_auth::users::{parse_tag, Status, Theme, UserStore};
use netherite_auth::util::{BooleanWhy, Ref};

#[test]
fn parse_tag_reads_name_and_digits() {
    let (name, d) = parse_tag("alice#1a2B").unwrap();
    assert_eq!(name, "alice");
    assert_eq!(d, [1, 10, 2, 11]);
}

#[test]
fn parse_tag_ignores_extra_digits() {
    let (name, d) = parse_tag("bob#12345").unwrap();
    assert_eq!(name, "bob");
    assert_eq!(d, [1, 2, 3, 4]);
}

#[test]
fn parse_tag_rejects_bad_shapes() {
    assert!(parse_tag("no-discriminator").is_none());
    assert!(parse_tag("short#12").is_none());
    assert!(parse_tag("bad#12g4").is_none());
    assert!(parse_tag("#").is_none());
    // an empty name is still a split
    let (name, d) = parse_tag("#abcd").unwrap();
    assert_eq!(name, "");
    assert_eq!(d, [10, 11, 12, 13]);
}

#[test]
fn token_kinds_have_their_lifetimes() {
    assert_eq!(JwtKind::Access.lifetime(), 600);
    assert_eq!(JwtKind::Refresh.lifetime(), 3600);
}

#[test]
fn ledger_records_expire_and_deactivate() {
    let mut ledger = Ledger::new();
    let id = ledger.create(JwtKind::Access, 5, 1000);
    assert_eq!(id, 0);
    let rec = ledger.get(id).unwrap();
    assert_eq!(rec.uid, 5);
    assert!(rec.active);
    assert!(!rec.expired(1600));
    assert!(rec.expired(1601));
    assert!(rec.check(1600).is_some());
    assert!(rec.check(1601).is_none());
    assert!(ledger.is_usable(id, 1600));
    assert!(!ledger.is_usable(id, 1601));
    // deactivation is one-way and idempotent
    ledger.deactivate(id);
    assert!(!ledger.is_usable(id, 1000));
    ledger.deactivate(id);
    assert!(!ledger.get(id).unwrap().active);
    // a never-issued id is simply not usable
    assert!(!ledger.is_usable(99, 1000));
    assert!(ledger.get(99).is_none());
}

#[test]
fn ledger_ids_are_never_reused() {
    let mut ledger = Ledger::new();
    let a = ledger.create(JwtKind::Access, 1, 0);
    let b = ledger.create(JwtKind::Refresh, 1, 0);
    ledger.deactivate(a);
    let c = ledger.create(JwtKind::Access, 2, 10);
    assert_eq!((a, b, c), (0, 1, 2));
}

#[test]
fn user_store_verifies_credentials() {
    let mut users = UserStore::new();
    let id = users
        .register(
            &"carol@example.com".to_string(),
            "hunter2pass",
            &"carol".to_string(),
            &"Carol".to_string(),
        )
        .unwrap();
    assert_eq!(id, 0);
    assert_eq!(
        users.verify_credentials(&"carol@example.com".to_string(), "hunter2pass"),
        Some(0)
    );
    assert_eq!(
        users.verify_credentials(&"carol@example.com".to_string(), "wrong"),
        None
    );
    assert_eq!(
        users.verify_credentials(&"dave@example.com".to_string(), "hunter2pass"),
        None
    );
    let u = &users.users[0];
    assert_eq!(u.status, Status::Offline);
    assert_eq!(u.theme, Theme::Dark);
    assert!(u.badges.is_empty());
}

#[test]
fn storage_registry_round_trip() {
    let mut storage = Storage::new();
    assert!(storage.get_user_avatar("7".to_string(), AvK::U).is_none());
    storage.record_avatar("7".to_string(), AvK::U, AvFt::Anim);
    let av = storage.get_user_avatar("7".to_string(), AvK::U).unwrap();
    assert_eq!(av.ft, AvFt::Anim);
    assert_eq!(av.r.k, AvK::U);
    assert_eq!(av.r.i, "7");
    // a guild with the same id is a different key
    assert!(storage.get_user_avatar("7".to_string(), AvK::G).is_none());
}

#[test]
fn boolean_why_selects() {
    assert_eq!(true.why(1, 2), 1);
    assert_eq!(false.why(1, 2), 2);
    assert_eq!(true.why_fn(|| 10, || 20), 10);
    assert_eq!(false.why_fn(|| 10, || 20), 20);
}

#[test]
fn typed_refs_carry_ids() {
    let r: Ref<netherite_auth::users::User> = Ref::new_id(7);
    assert_eq!(*r.just_id(), 7);
    assert_eq!(*r.id(), 7);
    assert_eq!(r.into_id(), 7);
}

#[test]
fn token_record_fields_round_trip() {
    let rec = TokenRecord {
        id: 3,
        kind: JwtKind::Refresh,
        uid: 9,
        issued_at: 50,
        active: true,
    };
    assert!(!rec.expired(50 + 3600));
    assert!(rec.expired(50 + 3601));
    let inactive = TokenRecord { active: false, ..rec };
    assert!(inactive.expired(50));
}

#[test]
fn register_hashed_owes_success() {
    let mut users = UserStore::new();
    let h = bcrypt::hash("pw9-secret", 6).unwrap();
    let id = users
        .register_hashed(
            &"erin@example.com".to_string(),
            &h,
            &"erin".to_string(),
            &"Erin".to_string(),
        )
        .unwrap();
    assert_eq!(id, 0);
    assert_eq!(
        users.verify_credentials(&"erin@example.com".to_string(), "pw9-secret"),
        Some(0)
    );
    // a duplicate email is the only way this step can fail
    assert!(users
        .register_hashed(
            &"erin@example.com".to_string(),
            &h,
            &"other".to_string(),
            &"Other".to_string(),
        )
        .is_err());
}

#[test]
fn user_lookup_by_id() {
    let mut users = UserStore::new();
    users
        .register(
            &"frank@example.com".to_string(),
            "franks-password",
            &"frank".to_string(),
            &"Frank".to_string(),
        )
        .unwrap();
    assert_eq!(users.get(0).unwrap().display_name, "Frank");
    assert!(users.get(1).is_none());
}
