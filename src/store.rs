use vstd::prelude::*;

use crate::error::ApiError;
use crate::register::{initial, next, ActionM, EventM, RegState};
use crate::wallet::{canonical_wallet, is_valid_wallet};

verus! {

/// The model of what storage holds: users by canonical wallet, and profiles
/// by user identifier, with the identifier that the next user gets.
pub struct Db {
    pub users: Map<Seq<char>, int>,
    pub profiles: Map<int, Option<Seq<char>>>,
    pub next_id: int,
}

/// Which storage operations fail during one registration.
pub struct Faults {
    pub begin: bool,
    pub user_insert: bool,
    /// Whether a failed user insert reports a violated unique constraint.
    pub user_insert_unique: bool,
    pub profile_insert: bool,
    pub commit: bool,
}

pub open spec fn no_faults() -> Faults {
    Faults { begin: false, user_insert: false, user_insert_unique: false, profile_insert: false, commit: false }
}

/// Every user and every profile has an identifier already handed out.
pub open spec fn db_wf(db: Db) -> bool {
    &&& forall|id: int| #[trigger] db.profiles.contains_key(id) ==> id < db.next_id
    &&& forall|w: Seq<char>| #[trigger] db.users.contains_key(w) ==> db.users[w] < db.next_id
}

/// The answer of a transactional store to an action, on the transaction's
/// working copy `t`: inserts ignore a conflict and say whether a row was made.
pub open spec fn answer(t: Db, a: ActionM, f: Faults) -> (Db, EventM) {
    match a {
        ActionM::Begin => (t, EventM::Begun(!f.begin)),
        ActionM::InsertUser(w) => if f.user_insert {
            (t, EventM::UserInserted(Err(f.user_insert_unique)))
        } else if t.users.contains_key(w) {
            (t, EventM::UserInserted(Ok(None)))
        } else {
            (
                Db { users: t.users.insert(w, t.next_id), next_id: t.next_id + 1, ..t },
                EventM::UserInserted(Ok(Some((t.next_id, w)))),
            )
        },
        ActionM::InsertProfile(id, r) => if f.profile_insert {
            (t, EventM::ProfileInserted(false))
        } else if t.profiles.contains_key(id) {
            (t, EventM::ProfileInserted(true))
        } else {
            (Db { profiles: t.profiles.insert(id, r), ..t }, EventM::ProfileInserted(true))
        },
        _ => (t, EventM::Committed(!f.commit)),
    }
}

/// Drives a registration against the store: `db` is what is durable, `t` the
/// working copy of the open transaction. Only a created user makes `t` durable.
pub open spec fn run(db: Db, t: Db, s: RegState, a: ActionM, f: Faults, fuel: nat) -> (Db, Result<
    (int, Seq<char>),
    ApiError,
>)
    decreases fuel,
{
    match a {
        ActionM::Created(id, w) => (t, Ok((id, w))),
        ActionM::Abort(e) => (db, Err(e)),
        ActionM::Fail(e) => (db, Err(e)),
        _ => if fuel == 0 {
            (db, Err(ApiError::InternalFailure))
        } else {
            let (t2, ev) = answer(t, a, f);
            let (s2, a2) = next(s, ev);
            run(db, t2, s2, a2, f, (fuel - 1) as nat)
        },
    }
}

/// One registration of a wallet input against the store: what stays durable
/// and what the caller is answered.
pub open spec fn register_in(db: Db, input: Seq<char>, referral: Option<Seq<char>>, f: Faults) -> (
    Db,
    Result<(int, Seq<char>), ApiError>,
) {
    if !is_valid_wallet(input) {
        (db, Err(ApiError::InvalidWallet))
    } else {
        run(db, db, initial(canonical_wallet(input), referral), ActionM::Begin, f, 4)
    }
}

/// A malformed wallet leaves storage untouched and is answered `InvalidWallet`.
pub proof fn lemma_invalid_wallet_untouched(
    db: Db,
    input: Seq<char>,
    referral: Option<Seq<char>>,
    f: Faults,
)
    requires
        !is_valid_wallet(input),
    ensures
        register_in(db, input, referral, f) == (db, Err::<(int, Seq<char>), ApiError>(
            ApiError::InvalidWallet,
        )),
{
    reveal_with_fuel(run, 5);
}

/// A registration either succeeds, storing the canonical wallet under a fresh
/// identifier with the referral code given, or fails and leaves storage as it was.
pub proof fn lemma_register_all_or_nothing(
    db: Db,
    input: Seq<char>,
    referral: Option<Seq<char>>,
    f: Faults,
)
    ensures
        ({
            let (db2, r) = register_in(db, input, referral, f);
            match r {
                Ok((id, w)) => {
                    &&& is_valid_wallet(input)
                    &&& w == canonical_wallet(input)
                    &&& !db.users.contains_key(w)
                    &&& id == db.next_id
                    &&& db2.users == db.users.insert(w, id)
                    &&& db2.next_id == id + 1
                    &&& db_wf(db) ==> {
                        &&& forall|v: Seq<char>| #[trigger] db.users.contains_key(v) ==> db.users[v] != id
                        &&& db2.profiles == db.profiles.insert(id, referral)
                        &&& db_wf(db2)
                    }
                },
                Err(_) => db2 == db,
            }
        }),
{
    reveal_with_fuel(run, 5);
    let (db2, r) = register_in(db, input, referral, f);
    if r is Ok && db_wf(db) {
        let w = canonical_wallet(input);
        assert(!db.profiles.contains_key(db.next_id));
        assert forall|id: int| #[trigger] db2.profiles.contains_key(id) implies id < db2.next_id by {
            if id != db.next_id {
                assert(db.profiles.contains_key(id));
            }
        }
        assert forall|v: Seq<char>| #[trigger] db2.users.contains_key(v) implies db2.users[v]
            < db2.next_id by {
            if v != w {
                assert(db.users.contains_key(v));
            }
        }
    }
}

/// When a failure hits the profile insert, no user is left behind, and the
/// answer is an internal failure.
pub proof fn lemma_profile_failure_rolls_back(
    db: Db,
    input: Seq<char>,
    referral: Option<Seq<char>>,
    f: Faults,
)
    requires
        f.profile_insert,
    ensures
        register_in(db, input, referral, f).0 == db,
        register_in(db, input, referral, f).1 is Err,
        is_valid_wallet(input) && !f.begin && !f.user_insert && !db.users.contains_key(
            canonical_wallet(input),
        ) ==> register_in(db, input, referral, f).1 == Err::<(int, Seq<char>), ApiError>(
            ApiError::InternalFailure,
        ),
{
    reveal_with_fuel(run, 5);
}

/// A wallet already stored is never registered again: the attempt fails and
/// storage keeps what it had.
pub proof fn lemma_registered_wallet_refused(
    db: Db,
    input: Seq<char>,
    referral: Option<Seq<char>>,
    f: Faults,
)
    requires
        db.users.contains_key(canonical_wallet(input)),
    ensures
        register_in(db, input, referral, f).0 == db,
        register_in(db, input, referral, f).1 is Err,
        !f.begin && !f.user_insert && is_valid_wallet(input) ==> register_in(
            db,
            input,
            referral,
            f,
        ).1 == Err::<(int, Seq<char>), ApiError>(ApiError::WalletAlreadyRegistered),
{
    reveal_with_fuel(run, 5);
}

/// A new wallet with no storage failure is registered.
pub proof fn lemma_new_wallet_registered(db: Db, input: Seq<char>, referral: Option<Seq<char>>)
    requires
        is_valid_wallet(input),
        !db.users.contains_key(canonical_wallet(input)),
    ensures
        register_in(db, input, referral, no_faults()).1 == Ok::<(int, Seq<char>), ApiError>(
            (db.next_id, canonical_wallet(input)),
        ),
        register_in(db, input, referral, no_faults()).0.users.contains_key(canonical_wallet(input)),
{
    reveal_with_fuel(run, 5);
}

/// Two inputs that denote the same new wallet, registered one after the
/// other in either order: the first succeeds and the second is refused as
/// already registered.
pub proof fn lemma_register_twice(
    db: Db,
    first: Seq<char>,
    second: Seq<char>,
    r1: Option<Seq<char>>,
    r2: Option<Seq<char>>,
)
    requires
        is_valid_wallet(first),
        canonical_wallet(second) == canonical_wallet(first),
        !db.users.contains_key(canonical_wallet(first)),
    ensures
        ({
            let (db1, res1) = register_in(db, first, r1, no_faults());
            let (db2, res2) = register_in(db1, second, r2, no_faults());
            &&& res1 is Ok
            &&& res2 == Err::<(int, Seq<char>), ApiError>(ApiError::WalletAlreadyRegistered)
            &&& db2 == db1
        }),
{
    reveal_with_fuel(run, 5);
    lemma_new_wallet_registered(db, first, r1);
    let db1 = register_in(db, first, r1, no_faults()).0;
    lemma_registered_wallet_refused(db1, second, r2, no_faults());
}

/// One registration attempt: the wallet input, the referral code, and the
/// storage failures that hit it.
pub struct Attempt {
    pub input: Seq<char>,
    pub referral: Option<Seq<char>>,
    pub faults: Faults,
}

/// Attempts run one after the other, each in its own transaction. Under
/// serialisable transactions, concurrent attempts end as some such order does.
pub open spec fn register_seq(db: Db, attempts: Seq<Attempt>) -> (Db, Seq<
    Result<(int, Seq<char>), ApiError>,
>)
    decreases attempts.len(),
{
    if attempts.len() == 0 {
        (db, Seq::empty())
    } else {
        let a = attempts[0];
        let (db1, r) = register_in(db, a.input, a.referral, a.faults);
        let (db2, rs) = register_seq(db1, attempts.drop_first());
        (db2, seq![r] + rs)
    }
}

pub open spec fn count_ok(rs: Seq<Result<(int, Seq<char>), ApiError>>) -> nat
    decreases rs.len(),
{
    if rs.len() == 0 {
        0
    } else {
        (if rs[0] is Ok {
            1nat
        } else {
            0nat
        }) + count_ok(rs.drop_first())
    }
}

pub open spec fn all_denote(attempts: Seq<Attempt>, w: Seq<char>) -> bool {
    forall|i: int| 0 <= i < attempts.len() ==> canonical_wallet(#[trigger] attempts[i].input) == w
}

/// Once a wallet is stored, every later attempt with it fails and changes nothing.
pub proof fn lemma_registered_wallet_refused_all(db: Db, attempts: Seq<Attempt>, w: Seq<char>)
    requires
        db.users.contains_key(w),
        all_denote(attempts, w),
    ensures
        register_seq(db, attempts).0 == db,
        register_seq(db, attempts).1.len() == attempts.len(),
        forall|i: int| 0 <= i < attempts.len() ==> (#[trigger] register_seq(db, attempts).1[i]) is Err,
        count_ok(register_seq(db, attempts).1) == 0,
    decreases attempts.len(),
{
    if attempts.len() > 0 {
        let a = attempts[0];
        assert(canonical_wallet(attempts[0].input) == w);
        lemma_registered_wallet_refused(db, a.input, a.referral, a.faults);
        let rest = attempts.drop_first();
        assert forall|i: int| 0 <= i < rest.len() implies canonical_wallet(#[trigger] rest[i].input)
            == w by {
            assert(rest[i] == attempts[i + 1]);
        }
        lemma_registered_wallet_refused_all(db, rest, w);
        let (db2, rs) = register_seq(db, rest);
        let r = register_in(db, a.input, a.referral, a.faults).1;
        assert((seq![r] + rs).drop_first() =~= rs);
        assert forall|i: int| 0 <= i < attempts.len() implies (#[trigger] register_seq(
            db,
            attempts,
        ).1[i]) is Err by {
            if i > 0 {
                assert((seq![r] + rs)[i] == rs[i - 1]);
            }
        }
    }
}

/// However many attempts with one canonical wallet are made, and whatever
/// storage failures hit them, at most one succeeds.
pub proof fn lemma_at_most_one_success(db: Db, attempts: Seq<Attempt>, w: Seq<char>)
    requires
        all_denote(attempts, w),
    ensures
        count_ok(register_seq(db, attempts).1) <= 1,
    decreases attempts.len(),
{
    if attempts.len() > 0 {
        let a = attempts[0];
        assert(canonical_wallet(attempts[0].input) == w);
        lemma_register_all_or_nothing(db, a.input, a.referral, a.faults);
        let (db1, r) = register_in(db, a.input, a.referral, a.faults);
        let rest = attempts.drop_first();
        assert forall|i: int| 0 <= i < rest.len() implies canonical_wallet(#[trigger] rest[i].input)
            == w by {
            assert(rest[i] == attempts[i + 1]);
        }
        let rs = register_seq(db1, rest).1;
        assert((seq![r] + rs).drop_first() =~= rs);
        if r is Ok {
            lemma_registered_wallet_refused_all(db1, rest, w);
        } else {
            lemma_at_most_one_success(db1, rest, w);
        }
    }
}

/// Attempts with one new valid wallet and no storage failure: the first one
/// succeeds and every other is refused as already registered.
pub proof fn lemma_exactly_one_success(db: Db, attempts: Seq<Attempt>, w: Seq<char>)
    requires
        attempts.len() > 0,
        all_denote(attempts, w),
        is_valid_wallet(attempts[0].input),
        !db.users.contains_key(w),
        forall|i: int| 0 <= i < attempts.len() ==> (#[trigger] attempts[i]).faults == no_faults(),
    ensures
        count_ok(register_seq(db, attempts).1) == 1,
        register_seq(db, attempts).1.len() == attempts.len(),
        register_seq(db, attempts).1[0] is Ok,
        forall|i: int|
            1 <= i < attempts.len() ==> #[trigger] register_seq(db, attempts).1[i] == Err::<
                (int, Seq<char>),
                ApiError,
            >(ApiError::WalletAlreadyRegistered),
{
    let a = attempts[0];
    assert(canonical_wallet(attempts[0].input) == w);
    assert(attempts[0].faults == no_faults());
    lemma_new_wallet_registered(db, a.input, a.referral);
    let (db1, r) = register_in(db, a.input, a.referral, a.faults);
    let rest = attempts.drop_first();
    assert forall|i: int| 0 <= i < rest.len() implies canonical_wallet(#[trigger] rest[i].input)
        == w by {
        assert(rest[i] == attempts[i + 1]);
    }
    lemma_registered_wallet_refused_all(db1, rest, w);
    let rs = register_seq(db1, rest).1;
    assert((seq![r] + rs).drop_first() =~= rs);
    assert forall|i: int| 1 <= i < attempts.len() implies #[trigger] register_seq(db, attempts).1[i]
        == Err::<(int, Seq<char>), ApiError>(ApiError::WalletAlreadyRegistered) by {
        assert(rest[i - 1] == attempts[i]);
        assert(canonical_wallet(rest[i - 1].input) == w);
        assert(rest[i - 1].faults == no_faults());
        assert((seq![r] + rs)[i] == rs[i - 1]);
        lemma_registered_wallet_refused(db1, rest[i - 1].input, rest[i - 1].referral, no_faults());
        lemma_seq_item(db1, rest, i - 1, w);
    }
}

/// Where every attempt meets a stored wallet, each answer is the one that a
/// single attempt on that storage gets.
proof fn lemma_seq_item(db: Db, attempts: Seq<Attempt>, i: int, w: Seq<char>)
    requires
        db.users.contains_key(w),
        all_denote(attempts, w),
        0 <= i < attempts.len(),
    ensures
        register_seq(db, attempts).1[i] == register_in(
            db,
            attempts[i].input,
            attempts[i].referral,
            attempts[i].faults,
        ).1,
    decreases attempts.len(),
{
    let a = attempts[0];
    assert(canonical_wallet(attempts[0].input) == w);
    lemma_registered_wallet_refused(db, a.input, a.referral, a.faults);
    let rest = attempts.drop_first();
    let r = register_in(db, a.input, a.referral, a.faults).1;
    let rs = register_seq(db, rest).1;
    if i > 0 {
        assert forall|k: int| 0 <= k < rest.len() implies canonical_wallet(#[trigger] rest[k].input)
            == w by {
            assert(rest[k] == attempts[k + 1]);
        }
        lemma_seq_item(db, rest, i - 1, w);
        lemma_registered_wallet_refused_all(db, rest, w);
        assert((seq![r] + rs)[i] == rs[i - 1]);
    }
}

} // verus!
