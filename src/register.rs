use vstd::prelude::*;

use crate::error::{
    from_storage_failure, is_unique_violation, storage_error, unique_violation_of, ApiError,
};
use crate::wallet::{canonical_wallet, is_valid_wallet, normalize_and_validate};

verus! {

/// A registration request: a wallet as the user typed it and an optional referral code.
#[derive(Debug, Clone, PartialEq, Eq)]
pub struct RegisterReq {
    pub wallet: String,
    pub referral_code: Option<String>,
}

/// A created registration: the user's identifier and the canonical wallet stored.
#[derive(Debug, Clone, PartialEq, Eq)]
pub struct RegisterRes {
    pub user_id: i64,
    pub wallet: String,
}

/// The user row that storage hands back after an insert.
#[derive(Debug, Clone, PartialEq, Eq)]
pub struct UserRow {
    pub id: i64,
    pub wallet: String,
}

/// What storage answered to the last action.
#[derive(Debug, PartialEq, Eq)]
pub enum Event {
    /// The transaction was opened, or could not be.
    Begun { ok: bool },
    /// The user insert: the new row, none on a wallet conflict, or a failure
    /// that says whether a unique constraint was violated.
    UserInserted(Result<Option<UserRow>, bool>),
    /// The profile insert succeeded, or failed.
    ProfileInserted { ok: bool },
    /// The commit succeeded, or failed.
    Committed { ok: bool },
}

/// What the caller does next against storage, or the final answer.
#[derive(Debug, Clone, PartialEq, Eq)]
pub enum Action {
    /// Open a transaction.
    Begin,
    /// Insert a user with this wallet, ignoring a conflict on the wallet.
    InsertUser { wallet: String },
    /// Insert the profile of this user, ignoring a conflict on the user.
    InsertProfile { user_id: i64, referral_code: Option<String> },
    /// Commit the transaction.
    Commit,
    /// Roll the open transaction back and answer with the error.
    Abort(ApiError),
    /// Answer with the error; no transaction is open.
    Fail(ApiError),
    /// Answer that the user was created.
    Created(RegisterRes),
}

/// Where a registration stands.
#[derive(Debug, PartialEq, Eq, Structural, Clone, Copy)]
pub enum Stage {
    Opening,
    InsertingUser,
    InsertingProfile,
    Committing,
    Finished,
}

/// One registration in flight: the canonical wallet, the referral code, and
/// the user created inside the transaction so far.
pub struct Registration {
    pub stage: Stage,
    pub wallet: String,
    pub referral_code: Option<String>,
    pub user_id: i64,
    pub saved_wallet: String,
}

pub open spec fn opt_view(o: Option<String>) -> Option<Seq<char>> {
    match o {
        Some(s) => Some(s@),
        None => None,
    }
}

/// The model of a registration in flight.
pub struct RegState {
    pub stage: Stage,
    pub wallet: Seq<char>,
    pub referral: Option<Seq<char>>,
    pub user_id: int,
    pub saved: Seq<char>,
}

/// The model of an answer from storage.
pub enum EventM {
    Begun(bool),
    UserInserted(Result<Option<(int, Seq<char>)>, bool>),
    ProfileInserted(bool),
    Committed(bool),
}

/// The model of an action.
pub enum ActionM {
    Begin,
    InsertUser(Seq<char>),
    InsertProfile(int, Option<Seq<char>>),
    Commit,
    Abort(ApiError),
    Fail(ApiError),
    Created(int, Seq<char>),
}

impl View for Registration {
    type V = RegState;

    open spec fn view(&self) -> RegState {
        RegState {
            stage: self.stage,
            wallet: self.wallet@,
            referral: opt_view(self.referral_code),
            user_id: self.user_id as int,
            saved: self.saved_wallet@,
        }
    }
}

impl View for Event {
    type V = EventM;

    open spec fn view(&self) -> EventM {
        match self {
            Event::Begun { ok } => EventM::Begun(*ok),
            Event::UserInserted(Ok(Some(row))) => EventM::UserInserted(
                Ok(Some((row.id as int, row.wallet@))),
            ),
            Event::UserInserted(Ok(None)) => EventM::UserInserted(Ok(None)),
            Event::UserInserted(Err(u)) => EventM::UserInserted(Err(*u)),
            Event::ProfileInserted { ok } => EventM::ProfileInserted(*ok),
            Event::Committed { ok } => EventM::Committed(*ok),
        }
    }
}

impl View for Action {
    type V = ActionM;

    open spec fn view(&self) -> ActionM {
        match self {
            Action::Begin => ActionM::Begin,
            Action::InsertUser { wallet } => ActionM::InsertUser(wallet@),
            Action::InsertProfile { user_id, referral_code } => ActionM::InsertProfile(
                *user_id as int,
                opt_view(*referral_code),
            ),
            Action::Commit => ActionM::Commit,
            Action::Abort(e) => ActionM::Abort(*e),
            Action::Fail(e) => ActionM::Fail(*e),
            Action::Created(res) => ActionM::Created(res.user_id as int, res.wallet@),
        }
    }
}

pub open spec fn finish(s: RegState, a: ActionM) -> (RegState, ActionM) {
    (RegState { stage: Stage::Finished, ..s }, a)
}

/// The decision taken on each answer from storage. An answer that does not
/// fit the stage ends the registration with an internal failure.
pub open spec fn next(s: RegState, e: EventM) -> (RegState, ActionM) {
    match (s.stage, e) {
        (Stage::Opening, EventM::Begun(ok)) => if ok {
            (RegState { stage: Stage::InsertingUser, ..s }, ActionM::InsertUser(s.wallet))
        } else {
            finish(s, ActionM::Fail(ApiError::InternalFailure))
        },
        (Stage::InsertingUser, EventM::UserInserted(r)) => match r {
            Ok(Some((id, w))) => (
                RegState { stage: Stage::InsertingProfile, user_id: id, saved: w, ..s },
                ActionM::InsertProfile(id, s.referral),
            ),
            Ok(None) => finish(s, ActionM::Abort(ApiError::WalletAlreadyRegistered)),
            Err(u) => finish(s, ActionM::Abort(storage_error(u))),
        },
        (Stage::InsertingProfile, EventM::ProfileInserted(ok)) => if ok {
            (RegState { stage: Stage::Committing, ..s }, ActionM::Commit)
        } else {
            finish(s, ActionM::Abort(ApiError::InternalFailure))
        },
        (Stage::Committing, EventM::Committed(ok)) => if ok {
            finish(s, ActionM::Created(s.user_id, s.saved))
        } else {
            finish(s, ActionM::Fail(ApiError::InternalFailure))
        },
        (Stage::Finished, _) => finish(s, ActionM::Fail(ApiError::InternalFailure)),
        _ => finish(s, ActionM::Abort(ApiError::InternalFailure)),
    }
}

/// The model of a registration that has just passed normalisation.
pub open spec fn initial(wallet: Seq<char>, referral: Option<Seq<char>>) -> RegState {
    RegState { stage: Stage::Opening, wallet, referral, user_id: 0, saved: Seq::empty() }
}

fn clone_opt(o: &Option<String>) -> (r: Option<String>)
    ensures
        opt_view(r) == opt_view(*o),
{
    match o {
        Some(s) => Some(s.clone()),
        None => None,
    }
}

impl Event {
    /// The user insert failed with this storage error.
    pub fn user_insert_failed(e: &sqlx::Error) -> (r: Event)
        ensures
            r@ == EventM::UserInserted(Err(unique_violation_of(*e))),
    {
        Event::UserInserted(Err(is_unique_violation(e)))
    }
}

impl Registration {
    /// Normalises the wallet of a request. A malformed wallet is rejected here,
    /// before any transaction is opened; otherwise the first action is to open one.
    pub fn start(req: &RegisterReq) -> (r: Result<(Registration, Action), ApiError>)
        ensures
            match r {
                Ok((reg, a)) => {
                    &&& is_valid_wallet(req.wallet@)
                    &&& reg@ == initial(canonical_wallet(req.wallet@), opt_view(req.referral_code))
                    &&& a@ == ActionM::Begin
                },
                Err(e) => !is_valid_wallet(req.wallet@) && e == ApiError::InvalidWallet,
            },
    {
        let wallet = normalize_and_validate(req.wallet.as_str())?;
        let reg = Registration {
            stage: Stage::Opening,
            wallet,
            referral_code: clone_opt(&req.referral_code),
            user_id: 0,
            saved_wallet: String::new(),
        };
        Ok((reg, Action::Begin))
    }

    /// Takes storage's answer to the last action and says what to do next.
    pub fn step(&mut self, ev: Event) -> (a: Action)
        ensures
            (final(self)@, a@) == next(old(self)@, ev@),
    {
        match (self.stage, ev) {
            (Stage::Opening, Event::Begun { ok }) => {
                if ok {
                    self.stage = Stage::InsertingUser;
                    Action::InsertUser { wallet: self.wallet.clone() }
                } else {
                    self.stage = Stage::Finished;
                    Action::Fail(ApiError::InternalFailure)
                }
            },
            (Stage::InsertingUser, Event::UserInserted(r)) => match r {
                Ok(Some(row)) => {
                    self.stage = Stage::InsertingProfile;
                    self.user_id = row.id;
                    self.saved_wallet = row.wallet;
                    Action::InsertProfile {
                        user_id: row.id,
                        referral_code: clone_opt(&self.referral_code),
                    }
                },
                Ok(None) => {
                    self.stage = Stage::Finished;
                    Action::Abort(ApiError::WalletAlreadyRegistered)
                },
                Err(u) => {
                    self.stage = Stage::Finished;
                    Action::Abort(from_storage_failure(u))
                },
            },
            (Stage::InsertingProfile, Event::ProfileInserted { ok }) => {
                if ok {
                    self.stage = Stage::Committing;
                    Action::Commit
                } else {
                    self.stage = Stage::Finished;
                    Action::Abort(ApiError::InternalFailure)
                }
            },
            (Stage::Committing, Event::Committed { ok }) => {
                self.stage = Stage::Finished;
                if ok {
                    Action::Created(
                        RegisterRes { user_id: self.user_id, wallet: self.saved_wallet.clone() },
                    )
                } else {
                    Action::Fail(ApiError::InternalFailure)
                }
            },
            (Stage::Finished, _) => Action::Fail(ApiError::InternalFailure),
            _ => {
                self.stage = Stage::Finished;
                Action::Abort(ApiError::InternalFailure)
            },
        }
    }
}

} // verus!
