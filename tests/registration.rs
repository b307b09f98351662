use std::collections::HashMap;

use wallet_registry::{
    map_sqlx_error, normalize_and_validate, Action, ApiError, Event, Health, RegisterReq,
    RegisterRes, Registration, Stage, UserRow,
};

const MIXED: &str = "0xABC1234567890ABCDEF0123456789ABCDEF01289";
const LOWER: &str = "0xabc1234567890abcdef0123456789abcdef01289";

/// An in-memory store with a unique wallet column, whose transactions are
/// applied on commit. A wallet inserted by an open transaction is claimed: as
/// with a unique index, a second insert of it finds the conflict.
#[derive(Default)]
struct MemStore {
    users: HashMap<String, i64>,
    profiles: HashMap<i64, Option<String>>,
    next_id: i64,
    fail_profile: bool,
    claimed: Vec<String>,
}

struct Tx {
    users: Vec<(String, i64)>,
    profiles: Vec<(i64, Option<String>)>,
}

impl MemStore {
    fn answer(&mut self, tx: &mut Tx, action: &Action) -> Event {
        match action {
            Action::Begin => Event::Begun { ok: true },
            Action::InsertUser { wallet } => {
                if self.users.contains_key(wallet) || self.claimed.contains(wallet) {
                    Event::UserInserted(Ok(None))
                } else {
                    self.next_id += 1;
                    self.claimed.push(wallet.clone());
                    tx.users.push((wallet.clone(), self.next_id));
                    Event::UserInserted(Ok(Some(UserRow { id: self.next_id, wallet: wallet.clone() })))
                }
            }
            Action::InsertProfile { user_id, referral_code } => {
                if self.fail_profile {
                    Event::ProfileInserted { ok: false }
                } else {
                    tx.profiles.push((*user_id, referral_code.clone()));
                    Event::ProfileInserted { ok: true }
                }
            }
            _ => {
                for (w, id) in tx.users.drain(..) {
                    self.claimed.retain(|c| *c != w);
                    self.users.insert(w, id);
                }
                for (id, r) in tx.profiles.drain(..) {
                    self.profiles.entry(id).or_insert(r);
                }
                Event::Committed { ok: true }
            }
        }
    }

    fn register(&mut self, wallet: &str, referral_code: Option<&str>) -> Result<RegisterRes, ApiError> {
        let req = RegisterReq { wallet: wallet.to_string(), referral_code: referral_code.map(|s| s.to_string()) };
        let (mut reg, mut action) = Registration::start(&req)?;
        let mut tx = Tx { users: Vec::new(), profiles: Vec::new() };
        loop {
            match action {
                Action::Created(res) => return Ok(res),
                Action::Abort(e) | Action::Fail(e) => {
                    for (w, _) in tx.users.drain(..) {
                        self.claimed.retain(|c| *c != w);
                    }
                    return Err(e);
                }
                a => {
                    let ev = self.answer(&mut tx, &a);
                    action = reg.step(ev);
                }
            }
        }
    }
}

fn padded_mixed() -> String {
    format!("  {}  ", MIXED)
}

#[test]
fn normalize_trims_and_lowercases() {
    assert_eq!(normalize_and_validate(&padded_mixed()), Ok(LOWER.to_string()));
}

#[test]
fn normalize_accepts_canonical_input() {
    assert_eq!(normalize_and_validate(LOWER), Ok(LOWER.to_string()));
}

#[test]
fn normalize_folds_upper_case_prefix() {
    let w = format!("0X{}", &LOWER[2..]);
    assert_eq!(normalize_and_validate(&w), Ok(LOWER.to_string()));
}

#[test]
fn normalize_trims_unicode_white_space() {
    let w = format!("\u{3000}\t{}\n\u{a0}", MIXED);
    assert_eq!(normalize_and_validate(&w), Ok(LOWER.to_string()));
}

#[test]
fn normalize_same_wallet_same_form() {
    let a = normalize_and_validate(&padded_mixed()).unwrap();
    let b = normalize_and_validate(&format!("\t{}\r\n", LOWER.to_uppercase().replacen("0X", "0x", 1))).unwrap();
    assert_eq!(a, b);
}

#[test]
fn normalize_rejects_not_a_wallet() {
    assert_eq!(normalize_and_validate("not-a-wallet"), Err(ApiError::InvalidWallet));
}

#[test]
fn normalize_rejects_empty_and_blank() {
    assert_eq!(normalize_and_validate(""), Err(ApiError::InvalidWallet));
    assert_eq!(normalize_and_validate("   \t "), Err(ApiError::InvalidWallet));
}

#[test]
fn normalize_rejects_wrong_length() {
    assert_eq!(normalize_and_validate(&LOWER[..41]), Err(ApiError::InvalidWallet));
    assert_eq!(normalize_and_validate(&format!("{}0", LOWER)), Err(ApiError::InvalidWallet));
}

#[test]
fn normalize_rejects_non_hex_digit() {
    let w = format!("{}g", &LOWER[..41]);
    assert_eq!(normalize_and_validate(&w), Err(ApiError::InvalidWallet));
}

#[test]
fn normalize_rejects_missing_prefix() {
    let w = format!("00{}", &LOWER[2..]);
    assert_eq!(normalize_and_validate(&w), Err(ApiError::InvalidWallet));
}

#[test]
fn normalize_rejects_inner_space() {
    let w = format!("{} {}", &LOWER[..20], &LOWER[21..]);
    assert_eq!(normalize_and_validate(&w), Err(ApiError::InvalidWallet));
}

#[test]
fn start_rejects_invalid_wallet_before_any_action() {
    let req = RegisterReq { wallet: "not-a-wallet".to_string(), referral_code: None };
    assert_eq!(Registration::start(&req).err(), Some(ApiError::InvalidWallet));
}

#[test]
fn start_asks_to_begin() {
    let req = RegisterReq { wallet: padded_mixed(), referral_code: None };
    let (reg, action) = Registration::start(&req).unwrap();
    assert_eq!(action, Action::Begin);
    assert_eq!(reg.stage, Stage::Opening);
    assert_eq!(reg.wallet, LOWER);
}

fn started(referral: Option<&str>) -> Registration {
    let req = RegisterReq { wallet: LOWER.to_string(), referral_code: referral.map(|s| s.to_string()) };
    Registration::start(&req).unwrap().0
}

#[test]
fn step_happy_path() {
    let mut reg = started(Some("FRIEND50"));
    assert_eq!(reg.step(Event::Begun { ok: true }), Action::InsertUser { wallet: LOWER.to_string() });
    let row = UserRow { id: 7, wallet: LOWER.to_string() };
    assert_eq!(
        reg.step(Event::UserInserted(Ok(Some(row)))),
        Action::InsertProfile { user_id: 7, referral_code: Some("FRIEND50".to_string()) }
    );
    assert_eq!(reg.step(Event::ProfileInserted { ok: true }), Action::Commit);
    assert_eq!(
        reg.step(Event::Committed { ok: true }),
        Action::Created(RegisterRes { user_id: 7, wallet: LOWER.to_string() })
    );
    assert_eq!(reg.stage, Stage::Finished);
}

#[test]
fn step_begin_failure() {
    let mut reg = started(None);
    assert_eq!(reg.step(Event::Begun { ok: false }), Action::Fail(ApiError::InternalFailure));
}

#[test]
fn step_conflict_aborts() {
    let mut reg = started(None);
    reg.step(Event::Begun { ok: true });
    assert_eq!(reg.step(Event::UserInserted(Ok(None))), Action::Abort(ApiError::WalletAlreadyRegistered));
}

#[test]
fn step_user_insert_errors() {
    let mut reg = started(None);
    reg.step(Event::Begun { ok: true });
    assert_eq!(reg.step(Event::UserInserted(Err(true))), Action::Abort(ApiError::WalletAlreadyRegistered));
    let mut reg = started(None);
    reg.step(Event::Begun { ok: true });
    assert_eq!(reg.step(Event::UserInserted(Err(false))), Action::Abort(ApiError::InternalFailure));
}

#[test]
fn step_profile_failure_aborts() {
    let mut reg = started(None);
    reg.step(Event::Begun { ok: true });
    reg.step(Event::UserInserted(Ok(Some(UserRow { id: 1, wallet: LOWER.to_string() }))));
    assert_eq!(reg.step(Event::ProfileInserted { ok: false }), Action::Abort(ApiError::InternalFailure));
}

#[test]
fn step_commit_failure() {
    let mut reg = started(None);
    reg.step(Event::Begun { ok: true });
    reg.step(Event::UserInserted(Ok(Some(UserRow { id: 1, wallet: LOWER.to_string() }))));
    reg.step(Event::ProfileInserted { ok: true });
    assert_eq!(reg.step(Event::Committed { ok: false }), Action::Fail(ApiError::InternalFailure));
}

#[test]
fn step_out_of_order_event() {
    let mut reg = started(None);
    assert_eq!(reg.step(Event::Committed { ok: true }), Action::Abort(ApiError::InternalFailure));
    assert_eq!(reg.step(Event::Begun { ok: true }), Action::Fail(ApiError::InternalFailure));
}

#[test]
fn register_padded_mixed_case_wallet() {
    let mut store = MemStore::default();
    let res = store.register(&padded_mixed(), None).unwrap();
    assert_eq!(res.wallet, LOWER);
    assert_eq!(store.users.get(LOWER), Some(&res.user_id));
}

#[test]
fn register_again_other_case_conflicts() {
    let mut store = MemStore::default();
    assert!(store.register(&padded_mixed(), None).is_ok());
    assert_eq!(store.register(LOWER, None), Err(ApiError::WalletAlreadyRegistered));
    assert_eq!(store.users.len(), 1);
}

#[test]
fn register_twice_either_order() {
    let mut store = MemStore::default();
    assert!(store.register(LOWER, None).is_ok());
    assert_eq!(store.register(&padded_mixed(), None), Err(ApiError::WalletAlreadyRegistered));
}

#[test]
fn register_invalid_wallet_touches_nothing() {
    let mut store = MemStore::default();
    assert_eq!(store.register("not-a-wallet", None), Err(ApiError::InvalidWallet));
    assert_eq!(store.next_id, 0);
    assert!(store.users.is_empty());
}

#[test]
fn register_simultaneous_one_wins() {
    let mut store = MemStore::default();
    let req = RegisterReq { wallet: LOWER.to_string(), referral_code: None };
    let (mut a, mut act_a) = Registration::start(&req).unwrap();
    let (mut b, mut act_b) = Registration::start(&req).unwrap();
    let mut tx_a = Tx { users: Vec::new(), profiles: Vec::new() };
    let mut tx_b = Tx { users: Vec::new(), profiles: Vec::new() };
    let mut done_a = None;
    let mut done_b = None;
    while done_a.is_none() || done_b.is_none() {
        if done_a.is_none() {
            match act_a.clone() {
                Action::Created(r) => done_a = Some(Ok(r)),
                Action::Abort(e) | Action::Fail(e) => done_a = Some(Err(e)),
                x => act_a = a.step(store.answer(&mut tx_a, &x)),
            }
        }
        if done_b.is_none() {
            match act_b.clone() {
                Action::Created(r) => done_b = Some(Ok(r)),
                Action::Abort(e) | Action::Fail(e) => done_b = Some(Err(e)),
                x => act_b = b.step(store.answer(&mut tx_b, &x)),
            }
        }
    }
    let results = [done_a.unwrap(), done_b.unwrap()];
    assert_eq!(results.iter().filter(|r| r.is_ok()).count(), 1);
    assert_eq!(
        results.iter().filter(|r| **r == Err(ApiError::WalletAlreadyRegistered)).count(),
        1
    );
    assert_eq!(store.users.len(), 1);
    assert_eq!(store.profiles.len(), 1);
}

#[test]
fn register_many_one_success() {
    let mut store = MemStore::default();
    let results: Vec<_> = (0..5).map(|_| store.register(LOWER, None)).collect();
    assert!(results[0].is_ok());
    for r in &results[1..] {
        assert_eq!(*r, Err(ApiError::WalletAlreadyRegistered));
    }
}

#[test]
fn register_profile_failure_leaves_no_user() {
    let mut store = MemStore { fail_profile: true, ..MemStore::default() };
    assert_eq!(store.register(LOWER, None), Err(ApiError::InternalFailure));
    assert!(store.users.is_empty());
    assert!(store.profiles.is_empty());
}

#[test]
fn register_without_referral_code() {
    let mut store = MemStore::default();
    let res = store.register(LOWER, None).unwrap();
    assert_eq!(store.profiles.get(&res.user_id), Some(&None));
}

#[test]
fn register_with_referral_code() {
    let mut store = MemStore::default();
    let res = store.register(LOWER, Some("FRIEND50")).unwrap();
    assert_eq!(store.profiles.get(&res.user_id), Some(&Some("FRIEND50".to_string())));
}

#[test]
fn register_with_empty_referral_code() {
    let mut store = MemStore::default();
    let res = store.register(LOWER, Some("")).unwrap();
    assert_eq!(store.profiles.get(&res.user_id), Some(&Some(String::new())));
}

#[test]
fn error_status_codes_and_messages() {
    assert_eq!(ApiError::InvalidWallet.status(), 400);
    assert_eq!(ApiError::WalletAlreadyRegistered.status(), 409);
    assert_eq!(ApiError::InternalFailure.status(), 500);
    assert_eq!(ApiError::InvalidWallet.code(), "invalid_wallet");
    assert_eq!(ApiError::WalletAlreadyRegistered.code(), "wallet_already_registered");
    assert_eq!(ApiError::InternalFailure.code(), "internal_error");
    assert_eq!(ApiError::WalletAlreadyRegistered.message(), "wallet already registered");
    assert_eq!(ApiError::InternalFailure.message(), "internal server error");
}

#[test]
fn storage_failure_mapping() {
    assert_eq!(wallet_registry::error::from_storage_failure(true), ApiError::WalletAlreadyRegistered);
    assert_eq!(wallet_registry::error::from_storage_failure(false), ApiError::InternalFailure);
}

#[test]
fn sqlx_error_without_database_is_internal() {
    assert_eq!(map_sqlx_error(&sqlx::Error::RowNotFound), ApiError::InternalFailure);
    assert_eq!(Event::user_insert_failed(&sqlx::Error::PoolTimedOut), Event::UserInserted(Err(false)));
}

#[test]
fn health_is_ok() {
    let h = Health::healthy("1.2.3");
    assert!(h.ok);
    assert_eq!(h.versions, "1.2.3");
}

/// A database error that reports the given kind.
#[derive(Debug)]
struct ConstraintError(sqlx::error::ErrorKind);

impl std::fmt::Display for ConstraintError {
    fn fmt(&self, f: &mut std::fmt::Formatter<'_>) -> std::fmt::Result {
        f.write_str("constraint error")
    }
}

impl std::error::Error for ConstraintError {}

impl sqlx::error::DatabaseError for ConstraintError {
    fn message(&self) -> &str {
        "constraint error"
    }

    fn as_error(&self) -> &(dyn std::error::Error + Send + Sync + 'static) {
        self
    }

    fn as_error_mut(&mut self) -> &mut (dyn std::error::Error + Send + Sync + 'static) {
        self
    }

    fn into_error(self: Box<Self>) -> Box<dyn std::error::Error + Send + Sync + 'static> {
        self
    }

    fn kind(&self) -> sqlx::error::ErrorKind {
        match self.0 {
            sqlx::error::ErrorKind::UniqueViolation => sqlx::error::ErrorKind::UniqueViolation,
            _ => sqlx::error::ErrorKind::ForeignKeyViolation,
        }
    }
}

#[test]
fn sqlx_unique_violation_is_conflict() {
    let e = sqlx::Error::Database(Box::new(ConstraintError(sqlx::error::ErrorKind::UniqueViolation)));
    assert_eq!(map_sqlx_error(&e), ApiError::WalletAlreadyRegistered);
    assert_eq!(Event::user_insert_failed(&e), Event::UserInserted(Err(true)));
}

#[test]
fn sqlx_other_constraint_is_internal() {
    let e = sqlx::Error::Database(Box::new(ConstraintError(sqlx::error::ErrorKind::ForeignKeyViolation)));
    assert_eq!(map_sqlx_error(&e), ApiError::InternalFailure);
    assert_eq!(Event::user_insert_failed(&e), Event::UserInserted(Err(false)));
}
