//! Keeping the enclave's templates across restarts: what it gives out is saved,
//! and what was saved is given back.
//!
//! As elsewhere, each procedure is a machine that says what is to be done next
//! and is told how it went.

use crate::bytes::{copy_of, i32_at, read_i32};
use crate::catacomb::{
    blob_of, file_of, is_kind, kind_is_file, read_gives_back_write, PRIVATE_TYPE_CATACOMB_MASTER, PRIVATE_TYPE_CATACOMB_OWNER,
    PRIVATE_TYPE_CATACOMB_USER,
};
use crate::sbio::{
    action_for, component_action, is_active, state_in, Call, CatacombUser, ComponentAction,
    ComponentStates, ContextScope, NoExistingCatacomb, UserId, Verdict, BE_AUTH_TYPE_ACM_CONTEXT,
    SBIO_PROTECTED_CONFIG_LEN, SBIO_SAVED_MAX, SBIO_SAVED_MIN, SBIO_SAVED_USER_ID_AT,
    SBIO_STATUS_ALREADY_ACTIVE, SBIO_STATUS_COLD_TRANSITION,
};
use crate::transfer::DeviceStatus;
use vstd::prelude::*;

verus! {

/// The private kind of the record of failed attempts.
pub const PRIVATE_TYPE_LOCKOUT: u8 = 0xF5;

/// The four things that are kept.
#[derive(Clone, Copy, Debug, PartialEq, Eq, Structural)]
pub enum Kept {
    Master,
    Owner,
    User,
    Lockout,
}

impl Kept {
    pub open spec fn kind_of(self) -> u8 {
        match self {
            Kept::Master => PRIVATE_TYPE_CATACOMB_MASTER,
            Kept::Owner => PRIVATE_TYPE_CATACOMB_OWNER,
            Kept::User => PRIVATE_TYPE_CATACOMB_USER,
            Kept::Lockout => PRIVATE_TYPE_LOCKOUT,
        }
    }

    pub fn kind(self) -> (k: u8)
        ensures
            k == self.kind_of(),
    {
        match self {
            Kept::Master => PRIVATE_TYPE_CATACOMB_MASTER,
            Kept::Owner => PRIVATE_TYPE_CATACOMB_OWNER,
            Kept::User => PRIVATE_TYPE_CATACOMB_USER,
            Kept::Lockout => PRIVATE_TYPE_LOCKOUT,
        }
    }
}

/// Whose catacomb each of the first three is.
pub open spec fn owner_of(what: Kept, user: UserId) -> int {
    match what {
        Kept::Master => -1,
        Kept::Owner => 501,
        _ => user@ as int,
    }
}

fn who(what: Kept, user: UserId) -> (c: CatacombUser)
    ensures
        c@ == owner_of(what, user),
{
    match what {
        Kept::Master => CatacombUser::master(),
        Kept::Owner => CatacombUser::owner(),
        _ => CatacombUser::enrolling(user),
    }
}

/// How giving something back went.
#[derive(Clone, Copy, Debug, PartialEq, Eq, Structural)]
pub enum RestoreOutcome {
    Restored,
    AlreadyActive,
    NoStoredFile,
    Failed,
    /// Taken and not active, which is in order for the lockout record alone.
    EmptyTolerated,
}

/// What is to be done next. What carries bytes carries all that is to be written
/// or sent.
#[derive(Debug, PartialEq, Eq)]
pub enum Ask<B = Vec<u8>> {
    /// Make a call that carries no bytes and tell the verdict and the payload.
    Call(Call),
    /// Make a call with these bytes and tell the verdict and the payload.
    CallWith(Call, B),
    /// Make a call with these bytes and tell the bare status.
    Transfer(Call, B),
    /// Write this to its file.
    WriteFile(Kept, B),
    /// Put this into the host's store.
    Store(Kept, B),
    /// Read what was saved.
    ReadSaved(Kept),
    SaveCatacomb(Kept),
    SaveLockout,
    ResnapshotKeybag,
    /// Restore a catacomb whose component has this number and is in this state.
    RestoreCatacomb(Kept, i32, Option<u32>),
    RestoreLockout,
    OpenContext,
    /// Have the passcode validated and tell the credential, if there is one.
    EstablishCredential,
    Done(bool),
    Restored(RestoreOutcome),
}

/// An ask whose bytes are sequences, which contracts speak of.
pub type AskView = Ask<Seq<u8>>;

impl View for Ask {
    type V = AskView;

    open spec fn view(&self) -> AskView {
        match self {
            Ask::Call(c) => Ask::Call(*c),
            Ask::CallWith(c, b) => Ask::CallWith(*c, b@),
            Ask::Transfer(c, b) => Ask::Transfer(*c, b@),
            Ask::WriteFile(k, b) => Ask::WriteFile(*k, b@),
            Ask::Store(k, b) => Ask::Store(*k, b@),
            Ask::ReadSaved(k) => Ask::ReadSaved(*k),
            Ask::SaveCatacomb(k) => Ask::SaveCatacomb(*k),
            Ask::SaveLockout => Ask::SaveLockout,
            Ask::ResnapshotKeybag => Ask::ResnapshotKeybag,
            Ask::RestoreCatacomb(k, id, s) => Ask::RestoreCatacomb(*k, *id, *s),
            Ask::RestoreLockout => Ask::RestoreLockout,
            Ask::OpenContext => Ask::OpenContext,
            Ask::EstablishCredential => Ask::EstablishCredential,
            Ask::Done(ok) => Ask::Done(*ok),
            Ask::Restored(o) => Ask::Restored(*o),
        }
    }
}

pub enum Event<'a> {
    Reply(Verdict, &'a [u8]),
    Transferred(Option<DeviceStatus>),
    Worked(bool),
    /// What was saved, if anything was.
    Saved(Option<&'a [u8]>),
    Restored(RestoreOutcome),
    /// The handle of the credential, if there is one.
    Credential(Option<[u8; 16]>),
    /// How many identities of the user are listed, if there is a list.
    Listed(Option<usize>),
}

impl<'a> Event<'a> {
    pub open spec fn accepted(self) -> bool {
        self matches Event::Reply(Verdict::Accepted, _)
    }

    pub open spec fn payload(self) -> Option<Seq<u8>> {
        match self {
            Event::Reply(Verdict::Accepted, p) => Some(p@),
            _ => None,
        }
    }

    pub open spec fn worked(self) -> bool {
        self matches Event::Worked(true)
    }

    fn is_accepted(&self) -> (r: bool)
        ensures
            r == self.accepted(),
    {
        match self {
            Event::Reply(Verdict::Accepted, _) => true,
            _ => false,
        }
    }

    fn has_worked(&self) -> (r: bool)
        ensures
            r == self.worked(),
    {
        match self {
            Event::Worked(b) => *b,
            _ => false,
        }
    }

    fn bytes(&self) -> (r: Option<&'a [u8]>)
        ensures
            match self.payload() {
                Some(p) => r is Some && (r->0)@ == p,
                None => r is None,
            },
    {
        match self {
            Event::Reply(Verdict::Accepted, p) => Some(*p),
            _ => None,
        }
    }
}

/// Whether saved bytes can be those of a catacomb, and of whose.
pub open spec fn is_catacomb_of(blob: Seq<u8>, user: int) -> bool {
    &&& SBIO_SAVED_MIN <= blob.len() <= SBIO_SAVED_MAX
    &&& i32_at(blob, SBIO_SAVED_USER_ID_AT as int) == user
}

fn check_catacomb(blob: &[u8], user: i32) -> (r: bool)
    ensures
        r == is_catacomb_of(blob@, user as int),
{
    if blob.len() < SBIO_SAVED_MIN || blob.len() > SBIO_SAVED_MAX {
        return false;
    }
    read_i32(blob, SBIO_SAVED_USER_ID_AT) == user
}

// ---------------------------------------------------------------------------
// Saving.
// ---------------------------------------------------------------------------
#[derive(Clone, Copy, Debug, PartialEq, Eq, Structural)]
pub enum SaveStage {
    Fetch,
    Write,
    Confirm,
}

/// Saving one catacomb: the enclave gives it out, it is written, and only then
/// is the enclave told that it is safe.
#[derive(Clone, Copy, Debug, PartialEq, Eq, Structural)]
pub struct SaveCatacomb {
    pub what: Kept,
    pub who: CatacombUser,
    pub stage: SaveStage,
}

pub open spec fn save_step(m: SaveCatacomb, e: Event) -> (SaveCatacomb, AskView) {
    match m.stage {
        SaveStage::Fetch => match e.payload() {
            Some(blob) => if is_catacomb_of(blob, m.who@ as int) {
                (SaveCatacomb { stage: SaveStage::Write, ..m }, Ask::WriteFile(m.what, blob))
            } else {
                (m, Ask::Done(false))
            },
            None => (m, Ask::Done(false)),
        },
        SaveStage::Write => if e.worked() {
            (SaveCatacomb { stage: SaveStage::Confirm, ..m }, Ask::Call(Call::ConfirmSave(m.who)))
        } else {
            (m, Ask::Done(false))
        },
        SaveStage::Confirm => (m, Ask::Done(e.accepted())),
    }
}

impl SaveCatacomb {
    pub fn start(what: Kept, user: UserId) -> (r: (SaveCatacomb, Ask))
        ensures
            r.0.what == what,
            r.0.who@ == owner_of(what, user),
            r.0.stage == SaveStage::Fetch,
            r.1@ == AskView::Call(Call::SaveCatacomb(r.0.who)),
    {
        let who = who(what, user);
        (SaveCatacomb { what, who, stage: SaveStage::Fetch }, Ask::Call(Call::SaveCatacomb(who)))
    }

    pub fn step(&mut self, e: &Event<'_>) -> (ask: Ask)
        ensures
            (*final(self), ask@) == save_step(*old(self), *e),
    {
        match self.stage {
            SaveStage::Fetch => {
                if let Some(blob) = e.bytes() {
                    if check_catacomb(blob, self.who.value()) {
                        self.stage = SaveStage::Write;
                        return Ask::WriteFile(self.what, copy_of(blob));
                    }
                }
                Ask::Done(false)
            },
            SaveStage::Write => {
                if e.has_worked() {
                    self.stage = SaveStage::Confirm;
                    return Ask::Call(Call::ConfirmSave(self.who));
                }
                Ask::Done(false)
            },
            SaveStage::Confirm => Ask::Done(e.is_accepted()),
        }
    }
}

/// Saving the lockout record, which must not be empty.
#[derive(Clone, Copy, Debug, PartialEq, Eq, Structural)]
pub struct SaveLockout {
    pub stored: bool,
}

pub open spec fn lockout_step(m: SaveLockout, e: Event) -> (SaveLockout, AskView) {
    if m.stored {
        (m, Ask::Done(e.worked()))
    } else {
        match e.payload() {
            Some(blob) => if blob.len() > 0 {
                (SaveLockout { stored: true }, Ask::Store(Kept::Lockout, blob))
            } else {
                (m, Ask::Done(false))
            },
            None => (m, Ask::Done(false)),
        }
    }
}

/// How it begins, and what is asked for first.
pub open spec fn save_lockout_begins() -> (SaveLockout, AskView) {
    (SaveLockout { stored: false }, AskView::Call(Call::SaveLockout))
}

impl SaveLockout {
    pub fn start() -> (r: (SaveLockout, Ask))
        ensures
            (r.0, r.1@) == save_lockout_begins(),
    {
        (SaveLockout { stored: false }, Ask::Call(Call::SaveLockout))
    }

    pub fn step(&mut self, e: &Event<'_>) -> (ask: Ask)
        ensures
            (*final(self), ask@) == lockout_step(*old(self), *e),
    {
        if self.stored {
            return Ask::Done(e.has_worked());
        }
        if let Some(blob) = e.bytes() {
            if blob.len() > 0 {
                self.stored = true;
                return Ask::Store(Kept::Lockout, copy_of(blob));
            }
        }
        Ask::Done(false)
    }
}

/// Saving everything. One that fails does not keep the others from being saved.
#[derive(Clone, Copy, Debug, PartialEq, Eq, Structural)]
pub struct SaveAll {
    pub at: Kept,
    pub all: bool,
}

pub open spec fn save_all_step(m: SaveAll, e: Event) -> (SaveAll, AskView) {
    let all = m.all && e.worked();
    match m.at {
        Kept::Master => (SaveAll { at: Kept::Owner, all }, Ask::SaveCatacomb(Kept::Owner)),
        Kept::Owner => (SaveAll { at: Kept::User, all }, Ask::SaveCatacomb(Kept::User)),
        Kept::User => (SaveAll { at: Kept::Lockout, all }, Ask::SaveLockout),
        Kept::Lockout => (SaveAll { all, ..m }, Ask::Done(all)),
    }
}

/// How it begins, and what is asked for first.
pub open spec fn save_all_begins() -> (SaveAll, AskView) {
    (SaveAll { at: Kept::Master, all: true }, AskView::SaveCatacomb(Kept::Master))
}

impl SaveAll {
    pub fn start() -> (r: (SaveAll, Ask))
        ensures
            (r.0, r.1@) == save_all_begins(),
    {
        (SaveAll { at: Kept::Master, all: true }, Ask::SaveCatacomb(Kept::Master))
    }

    pub fn step(&mut self, e: &Event<'_>) -> (ask: Ask)
        ensures
            (*final(self), ask@) == save_all_step(*old(self), *e),
    {
        let worked = e.has_worked();
        self.all = self.all && worked;
        match self.at {
            Kept::Master => {
                self.at = Kept::Owner;
                Ask::SaveCatacomb(Kept::Owner)
            },
            Kept::Owner => {
                self.at = Kept::User;
                Ask::SaveCatacomb(Kept::User)
            },
            Kept::User => {
                self.at = Kept::Lockout;
                Ask::SaveLockout
            },
            Kept::Lockout => Ask::Done(self.all),
        }
    }
}

#[derive(Clone, Copy, Debug, PartialEq, Eq, Structural)]
pub enum AfterMatchStage {
    Lockout,
    User,
    Master,
    Keybag,
}

/// Saving what a match changes. Here one that fails ends it.
#[derive(Clone, Copy, Debug, PartialEq, Eq, Structural)]
pub struct SaveAfterMatch {
    pub stage: AfterMatchStage,
}

pub open spec fn after_match_step(m: SaveAfterMatch, e: Event) -> (SaveAfterMatch, AskView) {
    if !e.worked() {
        (m, Ask::Done(false))
    } else {
        match m.stage {
            AfterMatchStage::Lockout => (
                SaveAfterMatch { stage: AfterMatchStage::User },
                Ask::SaveCatacomb(Kept::User),
            ),
            AfterMatchStage::User => (
                SaveAfterMatch { stage: AfterMatchStage::Master },
                Ask::SaveCatacomb(Kept::Master),
            ),
            AfterMatchStage::Master => (
                SaveAfterMatch { stage: AfterMatchStage::Keybag },
                Ask::ResnapshotKeybag,
            ),
            AfterMatchStage::Keybag => (m, Ask::Done(true)),
        }
    }
}

/// How it begins, and what is asked for first.
pub open spec fn save_after_match_begins() -> (SaveAfterMatch, AskView) {
    (SaveAfterMatch { stage: AfterMatchStage::Lockout }, AskView::SaveLockout)
}

impl SaveAfterMatch {
    pub fn start() -> (r: (SaveAfterMatch, Ask))
        ensures
            (r.0, r.1@) == save_after_match_begins(),
    {
        (SaveAfterMatch { stage: AfterMatchStage::Lockout }, Ask::SaveLockout)
    }

    pub fn step(&mut self, e: &Event<'_>) -> (ask: Ask)
        ensures
            (*final(self), ask@) == after_match_step(*old(self), *e),
    {
        if !e.has_worked() {
            return Ask::Done(false);
        }
        match self.stage {
            AfterMatchStage::Lockout => {
                self.stage = AfterMatchStage::User;
                Ask::SaveCatacomb(Kept::User)
            },
            AfterMatchStage::User => {
                self.stage = AfterMatchStage::Master;
                Ask::SaveCatacomb(Kept::Master)
            },
            AfterMatchStage::Master => {
                self.stage = AfterMatchStage::Keybag;
                Ask::ResnapshotKeybag
            },
            AfterMatchStage::Keybag => Ask::Done(true),
        }
    }
}

// ---------------------------------------------------------------------------
// Restoring.
// ---------------------------------------------------------------------------
/// Where saved bytes are found: in the file, for what has one, and else in the
/// host's store.
pub fn read_stored(kind: u8, file: Option<Vec<u8>>, store: Option<Vec<u8>>) -> (r: Option<Vec<u8>>)
    ensures
        r == (if kind_is_file(kind) && file is Some {
            file
        } else {
            store
        }),
{
    if is_kind(kind) && file.is_some() {
        return file;
    }
    store
}

#[derive(Clone, Copy, Debug, PartialEq, Eq, Structural)]
pub enum RestoreStage {
    Read,
    Load,
    Confirm,
    Over,
}

/// Giving one catacomb back. Only one whose component is cold is given back,
/// and it counts only if the component then is active.
#[derive(Clone, Copy, Debug, PartialEq, Eq, Structural)]
pub struct RestoreCatacomb {
    pub what: Kept,
    pub id: i32,
    pub stage: RestoreStage,
}

pub open spec fn restored(m: RestoreCatacomb, o: RestoreOutcome) -> (RestoreCatacomb, AskView) {
    (RestoreCatacomb { stage: RestoreStage::Over, ..m }, Ask::Restored(o))
}

/// What a component's state leaves to be done.
pub open spec fn restore_start(what: Kept, id: i32, state: Option<u32>) -> (RestoreCatacomb, AskView) {
    let m = RestoreCatacomb { what, id, stage: RestoreStage::Read };
    match state {
        None => restored(m, RestoreOutcome::Failed),
        Some(s) => match action_for(s) {
            ComponentAction::AlreadyActive => restored(m, RestoreOutcome::AlreadyActive),
            ComponentAction::Unsupported => restored(m, RestoreOutcome::Failed),
            ComponentAction::Load => (m, Ask::ReadSaved(what)),
        },
    }
}

/// Whether the enclave's answer to a catacomb is worth a second look. Taken and
/// not active is so for the owner's alone.
pub open spec fn load_answer_holds(what: Kept, status: Option<DeviceStatus>) -> bool {
    match status {
        Some(DeviceStatus::Answered(s)) => {
            ||| s == 0
            ||| s == SBIO_STATUS_COLD_TRANSITION && what == Kept::Owner
            ||| s == SBIO_STATUS_ALREADY_ACTIVE
        },
        _ => false,
    }
}

/// Whether a list of components has the one with this number as active.
pub open spec fn confirms(reply: Option<Seq<u8>>, id: int) -> bool {
    match reply {
        Some(p) => match state_in(p, id, 0) {
            Some(s) => is_active(s),
            None => false,
        },
        None => false,
    }
}

pub open spec fn restore_step(m: RestoreCatacomb, e: Event) -> (RestoreCatacomb, AskView) {
    match m.stage {
        RestoreStage::Read => match e {
            Event::Saved(Some(blob)) => if is_catacomb_of(blob@, m.id as int) {
                (
                    RestoreCatacomb { stage: RestoreStage::Load, ..m },
                    Ask::Transfer(Call::LoadCatacomb, blob@),
                )
            } else {
                restored(m, RestoreOutcome::Failed)
            },
            Event::Saved(None) => restored(m, RestoreOutcome::NoStoredFile),
            _ => restored(m, RestoreOutcome::Failed),
        },
        RestoreStage::Load => match e {
            Event::Transferred(status) => if load_answer_holds(m.what, status) {
                (
                    RestoreCatacomb { stage: RestoreStage::Confirm, ..m },
                    Ask::Call(Call::ContextState),
                )
            } else {
                restored(m, RestoreOutcome::Failed)
            },
            _ => restored(m, RestoreOutcome::Failed),
        },
        RestoreStage::Confirm => restored(
            m,
            if confirms(e.payload(), m.id as int) {
                RestoreOutcome::Restored
            } else {
                RestoreOutcome::Failed
            },
        ),
        RestoreStage::Over => restored(m, RestoreOutcome::Failed),
    }
}

impl RestoreCatacomb {
    pub fn start(what: Kept, id: i32, state: Option<u32>) -> (r: (RestoreCatacomb, Ask))
        ensures
            (r.0, r.1@) == restore_start(what, id, state),
    {
        let mut m = RestoreCatacomb { what, id, stage: RestoreStage::Over };
        let s: u32 = match state {
            None => {
                return (m, Ask::Restored(RestoreOutcome::Failed));
            },
            Some(s) => s,
        };
        match component_action(s) {
            ComponentAction::AlreadyActive => (m, Ask::Restored(RestoreOutcome::AlreadyActive)),
            ComponentAction::Unsupported => (m, Ask::Restored(RestoreOutcome::Failed)),
            ComponentAction::Load => {
                m.stage = RestoreStage::Read;
                (m, Ask::ReadSaved(what))
            },
        }
    }

    fn over(&mut self, o: RestoreOutcome) -> (ask: Ask)
        ensures
            (*final(self), ask@) == restored(*old(self), o),
    {
        self.stage = RestoreStage::Over;
        Ask::Restored(o)
    }

    pub fn step(&mut self, e: &Event<'_>) -> (ask: Ask)
        ensures
            (*final(self), ask@) == restore_step(*old(self), *e),
    {
        match self.stage {
            RestoreStage::Read => match e {
                Event::Saved(Some(blob)) => {
                    if check_catacomb(blob, self.id) {
                        self.stage = RestoreStage::Load;
                        return Ask::Transfer(Call::LoadCatacomb, copy_of(blob));
                    }
                    self.over(RestoreOutcome::Failed)
                },
                Event::Saved(None) => self.over(RestoreOutcome::NoStoredFile),
                _ => self.over(RestoreOutcome::Failed),
            },
            RestoreStage::Load => {
                if let Event::Transferred(Some(DeviceStatus::Answered(s))) = e {
                    if *s == 0 || (*s == SBIO_STATUS_COLD_TRANSITION && self.what == Kept::Owner)
                        || *s == SBIO_STATUS_ALREADY_ACTIVE {
                        self.stage = RestoreStage::Confirm;
                        return Ask::Call(Call::ContextState);
                    }
                }
                self.over(RestoreOutcome::Failed)
            },
            RestoreStage::Confirm => {
                if let Some(reply) = e.bytes() {
                    if let Some(s) = ComponentStates::new(reply).state_for(self.id) {
                        if s / 2 % 2 == 1 {
                            return self.over(RestoreOutcome::Restored);
                        }
                    }
                }
                self.over(RestoreOutcome::Failed)
            },
            RestoreStage::Over => self.over(RestoreOutcome::Failed),
        }
    }
}

#[derive(Clone, Copy, Debug, PartialEq, Eq, Structural)]
pub enum LockoutStage {
    Read,
    Load,
}

/// Giving the lockout record back.
#[derive(Clone, Copy, Debug, PartialEq, Eq, Structural)]
pub struct RestoreLockout {
    pub stage: LockoutStage,
}

pub open spec fn restore_lockout_step(m: RestoreLockout, e: Event) -> (RestoreLockout, AskView) {
    match m.stage {
        LockoutStage::Read => match e {
            Event::Saved(Some(blob)) => if 0 < blob@.len() <= SBIO_SAVED_MAX {
                (
                    RestoreLockout { stage: LockoutStage::Load },
                    Ask::Transfer(Call::LoadLockout, blob@),
                )
            } else {
                (m, Ask::Restored(RestoreOutcome::Failed))
            },
            Event::Saved(None) => (m, Ask::Restored(RestoreOutcome::NoStoredFile)),
            _ => (m, Ask::Restored(RestoreOutcome::Failed)),
        },
        LockoutStage::Load => match e {
            Event::Transferred(Some(DeviceStatus::Answered(s))) => if s == 0 {
                (m, Ask::Restored(RestoreOutcome::Restored))
            } else if s == SBIO_STATUS_COLD_TRANSITION {
                (m, Ask::Restored(RestoreOutcome::EmptyTolerated))
            } else {
                (m, Ask::Restored(RestoreOutcome::Failed))
            },
            _ => (m, Ask::Restored(RestoreOutcome::Failed)),
        },
    }
}

/// How it begins, and what is asked for first.
pub open spec fn restore_lockout_begins() -> (RestoreLockout, AskView) {
    (RestoreLockout { stage: LockoutStage::Read }, AskView::ReadSaved(Kept::Lockout))
}

impl RestoreLockout {
    pub fn start() -> (r: (RestoreLockout, Ask))
        ensures
            (r.0, r.1@) == restore_lockout_begins(),
    {
        (RestoreLockout { stage: LockoutStage::Read }, Ask::ReadSaved(Kept::Lockout))
    }

    pub fn step(&mut self, e: &Event<'_>) -> (ask: Ask)
        ensures
            (*final(self), ask@) == restore_lockout_step(*old(self), *e),
    {
        match self.stage {
            LockoutStage::Read => match e {
                Event::Saved(Some(blob)) => {
                    if 0 < blob.len() && blob.len() <= SBIO_SAVED_MAX {
                        self.stage = LockoutStage::Load;
                        return Ask::Transfer(Call::LoadLockout, copy_of(blob));
                    }
                    Ask::Restored(RestoreOutcome::Failed)
                },
                Event::Saved(None) => Ask::Restored(RestoreOutcome::NoStoredFile),
                _ => Ask::Restored(RestoreOutcome::Failed),
            },
            LockoutStage::Load => match e {
                Event::Transferred(Some(DeviceStatus::Answered(s))) => {
                    if *s == 0 {
                        Ask::Restored(RestoreOutcome::Restored)
                    } else if *s == SBIO_STATUS_COLD_TRANSITION {
                        Ask::Restored(RestoreOutcome::EmptyTolerated)
                    } else {
                        Ask::Restored(RestoreOutcome::Failed)
                    }
                },
                _ => Ask::Restored(RestoreOutcome::Failed),
            },
        }
    }
}

#[derive(Clone, Copy, Debug, PartialEq, Eq, Structural)]
pub enum RestoreAllStage {
    /// The list of components was asked for, before this one is given back.
    States(Kept),
    Component(Kept),
    Lockout,
}

/// Giving everything back. The list of components is read anew before each.
/// Matching works if the user's catacomb and the lockout record are in order.
#[derive(Clone, Copy, Debug, PartialEq, Eq, Structural)]
pub struct RestoreAll {
    pub user: UserId,
    pub stage: RestoreAllStage,
    pub user_ok: bool,
    pub missing_files: bool,
}

pub open spec fn is_in_order(o: RestoreOutcome) -> bool {
    o == RestoreOutcome::Restored || o == RestoreOutcome::AlreadyActive
}

pub open spec fn restore_all_step(m: RestoreAll, e: Event) -> (RestoreAll, AskView) {
    match m.stage {
        RestoreAllStage::States(what) => match e.payload() {
            Some(p) => if p.len() >= 8 {
                (
                    RestoreAll { stage: RestoreAllStage::Component(what), ..m },
                    Ask::RestoreCatacomb(
                        what,
                        owner_of(what, m.user) as i32,
                        state_in(p, owner_of(what, m.user), 0),
                    ),
                )
            } else {
                (m, Ask::Done(false))
            },
            None => (m, Ask::Done(false)),
        },
        RestoreAllStage::Component(what) => {
            let o = match e {
                Event::Restored(o) => o,
                _ => RestoreOutcome::Failed,
            };
            let missing_files = m.missing_files || o == RestoreOutcome::NoStoredFile;
            match what {
                Kept::Master => (
                    RestoreAll { stage: RestoreAllStage::States(Kept::Owner), missing_files, ..m },
                    Ask::Call(Call::ContextState),
                ),
                Kept::Owner => (
                    RestoreAll { stage: RestoreAllStage::States(Kept::User), missing_files, ..m },
                    Ask::Call(Call::ContextState),
                ),
                _ => (
                    RestoreAll {
                        stage: RestoreAllStage::Lockout,
                        user_ok: is_in_order(o),
                        missing_files,
                        ..m
                    },
                    Ask::RestoreLockout,
                ),
            }
        },
        RestoreAllStage::Lockout => {
            let o = match e {
                Event::Restored(o) => o,
                _ => RestoreOutcome::Failed,
            };
            (
                RestoreAll {
                    missing_files: m.missing_files || o == RestoreOutcome::NoStoredFile,
                    ..m
                },
                Ask::Done(
                    m.user_ok && (is_in_order(o) || o == RestoreOutcome::EmptyTolerated),
                ),
            )
        },
    }
}

/// How it begins, and what is asked for first.
pub open spec fn restore_all_begins(user: UserId) -> (RestoreAll, AskView) {
    (
        RestoreAll {
            user,
            stage: RestoreAllStage::States(Kept::Master),
            user_ok: false,
            missing_files: false,
        },
        AskView::Call(Call::ContextState),
    )
}

impl RestoreAll {
    pub fn start(user: UserId) -> (r: (RestoreAll, Ask))
        ensures
            (r.0, r.1@) == restore_all_begins(user),
    {
        (
            RestoreAll {
                user,
                stage: RestoreAllStage::States(Kept::Master),
                user_ok: false,
                missing_files: false,
            },
            Ask::Call(Call::ContextState),
        )
    }

    pub fn step(&mut self, e: &Event<'_>) -> (ask: Ask)
        ensures
            (*final(self), ask@) == restore_all_step(*old(self), *e),
    {
        match self.stage {
            RestoreAllStage::States(what) => {
                if let Some(p) = e.bytes() {
                    if p.len() >= 8 {
                        let id: i32 = who(what, self.user).value();
                        let state = ComponentStates::new(p).state_for(id);
                        self.stage = RestoreAllStage::Component(what);
                        return Ask::RestoreCatacomb(what, id, state);
                    }
                }
                Ask::Done(false)
            },
            RestoreAllStage::Component(what) => {
                let o = match e {
                    Event::Restored(o) => *o,
                    _ => RestoreOutcome::Failed,
                };
                if o == RestoreOutcome::NoStoredFile {
                    self.missing_files = true;
                }
                match what {
                    Kept::Master => {
                        self.stage = RestoreAllStage::States(Kept::Owner);
                        Ask::Call(Call::ContextState)
                    },
                    Kept::Owner => {
                        self.stage = RestoreAllStage::States(Kept::User);
                        Ask::Call(Call::ContextState)
                    },
                    _ => {
                        self.stage = RestoreAllStage::Lockout;
                        self.user_ok =
                        o == RestoreOutcome::Restored || o == RestoreOutcome::AlreadyActive;
                        Ask::RestoreLockout
                    },
                }
            },
            RestoreAllStage::Lockout => {
                let o = match e {
                    Event::Restored(o) => *o,
                    _ => RestoreOutcome::Failed,
                };
                if o == RestoreOutcome::NoStoredFile {
                    self.missing_files = true;
                }
                Ask::Done(
                    self.user_ok && (o == RestoreOutcome::Restored || o
                        == RestoreOutcome::AlreadyActive || o == RestoreOutcome::EmptyTolerated),
                )
            },
        }
    }
}

// ---------------------------------------------------------------------------
// The context that an enrolment needs.
// ---------------------------------------------------------------------------
#[derive(Clone, Copy, Debug, PartialEq, Eq, Structural)]
pub enum ContextStage {
    List,
    System(NoExistingCatacomb),
    Master(NoExistingCatacomb),
    Owner(NoExistingCatacomb),
    User,
    Config,
}

/// Opening the context for an enrolment. Contexts are selected, which destroys
/// what is there, only when the enclave says that nothing is; else the user's
/// is used as it is.
#[derive(Clone, Copy, Debug, PartialEq, Eq, Structural)]
pub struct OpenContext {
    pub user: UserId,
    pub stage: ContextStage,
}

/// Whether an ask selects the context of this number.
pub open spec fn selects(ask: AskView, number: int) -> bool {
    ask matches Ask::Call(Call::SelectContext(scope, p)) && scope@ == number && p.listed() == 0
}

/// Whether `m2` and `ask` are what comes next.
pub open spec fn context_steps(m: OpenContext, e: Event, m2: OpenContext, ask: AskView) -> bool {
    &&& m2.user == m.user
    &&& match m.stage {
        ContextStage::List => match e {
            Event::Listed(Some(n)) => if n == 0 {
                m2.stage is System && (m2.stage->System_0).listed() == 0 && selects(ask, -1)
            } else {
                m2.stage == ContextStage::Config && ask == AskView::Call(Call::ProtectedConfig(m.user))
            },
            _ => m2.stage == ContextStage::Config && ask == AskView::Call(
                Call::ProtectedConfig(m.user),
            ),
        },
        ContextStage::System(p) => if e.accepted() {
            m2.stage == ContextStage::Master(p) && ask == AskView::SaveCatacomb(Kept::Master)
        } else {
            m2 == m && ask == AskView::Done(false)
        },
        ContextStage::Master(p) => if e.worked() {
            m2.stage == ContextStage::Owner(p) && ask == AskView::SaveCatacomb(Kept::Owner)
        } else {
            m2 == m && ask == AskView::Done(false)
        },
        ContextStage::Owner(p) => if e.worked() {
            m2.stage == ContextStage::User && selects(ask, m.user@ as int)
        } else {
            m2 == m && ask == AskView::Done(false)
        },
        ContextStage::User => if e.accepted() {
            m2.stage == ContextStage::Config && ask == AskView::Call(Call::ProtectedConfig(m.user))
        } else {
            m2 == m && ask == AskView::Done(false)
        },
        ContextStage::Config => m2 == m && ask == AskView::Done(
            e.payload() is Some && (e.payload()->0).len() == SBIO_PROTECTED_CONFIG_LEN,
        ),
    }
}

/// How it begins, and what is asked for first.
pub open spec fn open_context_begins(user: UserId) -> (OpenContext, AskView) {
    (OpenContext { user, stage: ContextStage::List }, AskView::Call(Call::ListIdentities))
}

impl OpenContext {
    pub open spec fn wf(self) -> bool {
        match self.stage {
            ContextStage::System(p) => p.listed() == 0,
            ContextStage::Master(p) => p.listed() == 0,
            ContextStage::Owner(p) => p.listed() == 0,
            _ => true,
        }
    }

    pub fn start(user: UserId) -> (r: (OpenContext, Ask))
        ensures
            (r.0, r.1@) == open_context_begins(user),
    {
        (OpenContext { user, stage: ContextStage::List }, Ask::Call(Call::ListIdentities))
    }

    pub fn step(&mut self, e: &Event<'_>) -> (ask: Ask)
        requires
            old(self).wf(),
        ensures
            final(self).wf(),
            context_steps(*old(self), *e, *final(self), ask@),
    {
        match self.stage {
            ContextStage::List => {
                if let Event::Listed(Some(n)) = e {
                    if let Some(p) = NoExistingCatacomb::from_zero_identities(*n) {
                        self.stage = ContextStage::System(p);
                        return Ask::Call(Call::SelectContext(ContextScope::system(), p));
                    }
                }
                self.stage = ContextStage::Config;
                Ask::Call(Call::ProtectedConfig(self.user))
            },
            ContextStage::System(p) => {
                if e.is_accepted() {
                    self.stage = ContextStage::Master(p);
                    return Ask::SaveCatacomb(Kept::Master);
                }
                Ask::Done(false)
            },
            ContextStage::Master(p) => {
                if e.has_worked() {
                    self.stage = ContextStage::Owner(p);
                    return Ask::SaveCatacomb(Kept::Owner);
                }
                Ask::Done(false)
            },
            ContextStage::Owner(p) => {
                if e.has_worked() {
                    self.stage = ContextStage::User;
                    return Ask::Call(Call::SelectContext(ContextScope::user(self.user), p));
                }
                Ask::Done(false)
            },
            ContextStage::User => {
                if e.is_accepted() {
                    self.stage = ContextStage::Config;
                    return Ask::Call(Call::ProtectedConfig(self.user));
                }
                Ask::Done(false)
            },
            ContextStage::Config => match e.bytes() {
                Some(p) => Ask::Done(p.len() == SBIO_PROTECTED_CONFIG_LEN),
                None => Ask::Done(false),
            },
        }
    }
}

#[derive(Clone, Copy, Debug, PartialEq, Eq, Structural)]
pub enum BeginStage {
    Cancel,
    Context,
    Credential,
    Begin,
    Over,
}

/// Beginning an enrolment. One that was left open is cancelled first. A key bag
/// and its secret have to be at hand, then a context, then a credential.
#[derive(Clone, Copy, Debug, PartialEq, Eq, Structural)]
pub struct BeginEnrolment {
    pub user: UserId,
    pub designated: bool,
    pub material: bool,
    pub open: bool,
    pub stage: BeginStage,
}

/// What follows once nothing is open.
pub open spec fn begin_ready(m: BeginEnrolment) -> (BeginEnrolment, AskView) {
    let m2 = BeginEnrolment { open: false, ..m };
    if m.designated && m.material {
        (BeginEnrolment { stage: BeginStage::Context, ..m2 }, Ask::OpenContext)
    } else {
        (BeginEnrolment { stage: BeginStage::Over, ..m2 }, Ask::Done(false))
    }
}

pub open spec fn begin_start(
    user: UserId,
    open: bool,
    designated: bool,
    material: bool,
) -> (BeginEnrolment, AskView) {
    let m = BeginEnrolment { user, designated, material, open: false, stage: BeginStage::Cancel };
    if open {
        (m, Ask::Call(Call::Cancel))
    } else {
        begin_ready(m)
    }
}

pub open spec fn begin_step(m: BeginEnrolment, e: Event) -> (BeginEnrolment, AskView) {
    match m.stage {
        BeginStage::Cancel => begin_ready(m),
        BeginStage::Context => if e.worked() {
            (BeginEnrolment { stage: BeginStage::Credential, ..m }, Ask::EstablishCredential)
        } else {
            (BeginEnrolment { stage: BeginStage::Over, ..m }, Ask::Done(false))
        },
        BeginStage::Credential => match e {
            Event::Credential(Some(handle)) => (
                BeginEnrolment { stage: BeginStage::Begin, ..m },
                Ask::CallWith(Call::BeginEnrol(m.user, BE_AUTH_TYPE_ACM_CONTEXT), handle@),
            ),
            _ => (BeginEnrolment { stage: BeginStage::Over, ..m }, Ask::Done(false)),
        },
        BeginStage::Begin => (
            BeginEnrolment { stage: BeginStage::Over, open: e.accepted(), ..m },
            Ask::Done(e.accepted()),
        ),
        BeginStage::Over => (m, Ask::Done(false)),
    }
}

impl BeginEnrolment {
    fn ready(m: BeginEnrolment) -> (r: (BeginEnrolment, Ask))
        ensures
            (r.0, r.1@) == begin_ready(m),
    {
        let mut m2 = m;
        m2.open = false;
        if m.designated && m.material {
            m2.stage = BeginStage::Context;
            (m2, Ask::OpenContext)
        } else {
            m2.stage = BeginStage::Over;
            (m2, Ask::Done(false))
        }
    }

    pub fn start(user: UserId, open: bool, designated: bool, material: bool) -> (r: (
        BeginEnrolment,
        Ask,
    ))
        ensures
            (r.0, r.1@) == begin_start(user, open, designated, material),
    {
        let m = BeginEnrolment {
            user,
            designated,
            material,
            open: false,
            stage: BeginStage::Cancel,
        };
        if open {
            (m, Ask::Call(Call::Cancel))
        } else {
            BeginEnrolment::ready(m)
        }
    }

    pub fn step(&mut self, e: &Event<'_>) -> (ask: Ask)
        ensures
            (*final(self), ask@) == begin_step(*old(self), *e),
    {
        match self.stage {
            BeginStage::Cancel => {
                let (m, ask) = BeginEnrolment::ready(*self);
                *self = m;
                ask
            },
            BeginStage::Context => {
                if e.has_worked() {
                    self.stage = BeginStage::Credential;
                    return Ask::EstablishCredential;
                }
                self.stage = BeginStage::Over;
                Ask::Done(false)
            },
            BeginStage::Credential => {
                if let Event::Credential(Some(handle)) = e {
                    self.stage = BeginStage::Begin;
                    return Ask::CallWith(
                        Call::BeginEnrol(self.user, BE_AUTH_TYPE_ACM_CONTEXT),
                        copy_of(handle),
                    );
                }
                self.stage = BeginStage::Over;
                Ask::Done(false)
            },
            BeginStage::Begin => {
                self.open = e.is_accepted();
                self.stage = BeginStage::Over;
                Ask::Done(self.open)
            },
            BeginStage::Over => Ask::Done(false),
        }
    }
}

// ---------------------------------------------------------------------------
// Laws.
// ---------------------------------------------------------------------------
/// The enclave is told that a catacomb is safe only after the catacomb that it
/// gave out for that user was written.
pub proof fn confirmed_only_when_written(m: SaveCatacomb, e: Event)
    ensures
        save_step(m, e).1 == AskView::Call(Call::ConfirmSave(m.who)) ==> m.stage == SaveStage::Write
            && e.worked(),
        save_step(m, e).1 matches Ask::WriteFile(what, blob) ==> m.stage == SaveStage::Fetch
            && what == m.what && e.payload() == Some(blob) && is_catacomb_of(blob, m.who@ as int),
{
}

/// What was saved is given back: the catacomb that the enclave gave out for a
/// user is what its file holds, and what the enclave is sent when that user's
/// component is restored from that file.
pub proof fn saved_is_given_back(
    m: SaveCatacomb,
    e: Event,
    blob: Seq<u8>,
    r: RestoreCatacomb,
    saved: &[u8],
)
    requires
        save_step(m, e).1 == AskView::WriteFile(m.what, blob),
        blob_of(file_of(blob)) == Some(saved@),
        r.stage == RestoreStage::Read,
        r.id == m.who@,
    ensures
        e.payload() == Some(blob),
        blob_of(file_of(blob)) == Some(blob),
        restore_step(r, Event::Saved(Some(saved))).1 == AskView::Transfer(
            Call::LoadCatacomb,
            e.payload()->0,
        ),
{
    read_gives_back_write(blob);
}

/// The lockout record that the enclave gave out is what is put into the host's
/// store, and what was found there is what the enclave is sent, unless it is too
/// long for that.
pub proof fn lockout_is_given_back(
    m: SaveLockout,
    e: Event,
    blob: Seq<u8>,
    r: RestoreLockout,
    saved: &[u8],
)
    requires
        lockout_step(m, e).1 == AskView::Store(Kept::Lockout, blob),
        saved@ == blob,
        blob.len() <= SBIO_SAVED_MAX,
        r.stage == LockoutStage::Read,
    ensures
        e.payload() == Some(blob),
        restore_lockout_step(r, Event::Saved(Some(saved))).1 == AskView::Transfer(
            Call::LoadLockout,
            e.payload()->0,
        ),
{
}

/// A catacomb is never given to a component that is active.
pub proof fn active_is_left_alone(what: Kept, id: i32, state: u32)
    requires
        is_active(state),
    ensures
        restore_start(what, id, Some(state)).1 == AskView::Restored(RestoreOutcome::AlreadyActive),
{
}

/// A catacomb counts as restored only if the enclave lists its component as
/// active afterwards.
pub proof fn restored_means_active(m: RestoreCatacomb, e: Event)
    ensures
        restore_step(m, e).1 == AskView::Restored(RestoreOutcome::Restored) ==> m.stage
            == RestoreStage::Confirm && confirms(e.payload(), m.id as int),
        restore_step(m, e).1 != AskView::Restored(RestoreOutcome::EmptyTolerated),
{
}

/// Contexts are selected only on the strength of an empty list of identities.
pub proof fn selecting_needs_emptiness(m: OpenContext, e: Event, m2: OpenContext, ask: AskView)
    requires
        m.wf(),
        context_steps(m, e, m2, ask),
        ask matches Ask::Call(Call::SelectContext(_, _)),
    ensures
        (m.stage == ContextStage::List && (e matches Event::Listed(Some(n)) && n == 0)) || m.stage
            is Owner,
{
}

/// An enrolment is begun only with a context and a credential.
pub proof fn beginning_needs_credential(m: BeginEnrolment, e: Event)
    ensures
        begin_step(m, e).1 matches Ask::CallWith(call, handle) ==> m.stage
            == BeginStage::Credential && call == Call::BeginEnrol(m.user, BE_AUTH_TYPE_ACM_CONTEXT)
            && (e matches Event::Credential(Some(h)) && h@ == handle),
        begin_step(m, e).1 == AskView::EstablishCredential ==> m.stage == BeginStage::Context
            && e.worked(),
        begin_step(m, e).1 == AskView::OpenContext ==> m.designated && m.material,
        begin_step(m, e).0.open ==> m.open || (m.stage == BeginStage::Begin && e.accepted()),
{
}

/// A whole save: the enclave's catacomb counts as saved exactly when the enclave
/// gave out one of that user, it was written, and the enclave took note, in this
/// order.
pub proof fn save_goes_all_the_way(m: SaveCatacomb, fetched: Event, written: Event, noted: Event)
    requires
        m.stage == SaveStage::Fetch,
    ensures
        ({
            let (m1, a1) = save_step(m, fetched);
            let (m2, a2) = save_step(m1, written);
            let (m3, a3) = save_step(m2, noted);
            (a1 == AskView::WriteFile(m.what, fetched.payload()->0) && a2 == AskView::Call(Call::ConfirmSave(m.who)) && a3 == AskView::Done(true))
                == (fetched.payload() is Some && is_catacomb_of(
                fetched.payload()->0,
                m.who@ as int,
            ) && written.worked() && noted.accepted())
        }),
{
}

/// The four things that are kept have the kinds 0xf2 to 0xf5; the first two belong to
/// no user and to user 501, and the others to the user.
pub proof fn kept_kinds_and_owners(user: UserId)
    ensures
        Kept::Master.kind_of() == 0xf2,
        Kept::Owner.kind_of() == 0xf3,
        Kept::User.kind_of() == 0xf4,
        Kept::Lockout.kind_of() == 0xf5,
        owner_of(Kept::Master, user) == -1,
        owner_of(Kept::Owner, user) == 501,
        owner_of(Kept::User, user) == user@,
{
}

/// Saving asks for its steps in this order: the enclave gives the catacomb out, it is
/// written as it is, and the enclave is told. One of another user is not written.
pub proof fn catacomb_is_saved(m: SaveCatacomb, fetched: Event, written: Event, noted: Event)
    requires
        m.stage == SaveStage::Fetch,
        fetched.payload() is Some,
        written.worked(),
    ensures
        ({
            let blob = fetched.payload()->0;
            let (m1, a1) = save_step(m, fetched);
            let (m2, a2) = save_step(m1, written);
            let (m3, a3) = save_step(m2, noted);
            &&& is_catacomb_of(blob, m.who@ as int) ==> a1 == AskView::WriteFile(m.what, blob) && a2
                == AskView::Call(Call::ConfirmSave(m.who)) && a3 == AskView::Done(noted.accepted())
            &&& !is_catacomb_of(blob, m.who@ as int) ==> a1 == AskView::Done(false)
        }),
{
}

/// The lockout record goes to the host's store as the enclave gave it out, unless it is
/// empty.
pub proof fn lockout_is_saved(fetched: Event, stored: Event)
    ensures
        ({
            let m0 = SaveLockout { stored: false };
            let (m1, a1) = lockout_step(m0, fetched);
            let some = fetched.payload() is Some && (fetched.payload()->0).len() > 0;
            &&& some ==> a1 == AskView::Store(Kept::Lockout, fetched.payload()->0) && lockout_step(
                m1,
                stored,
            ).1 == AskView::Done(stored.worked())
            &&& !some ==> a1 == AskView::Done(false)
        }),
{
}

/// Everything is saved in this order: the first catacomb, the owner's, the user's and
/// the lockout record. All are tried, and it went well if each did.
pub proof fn everything_is_saved(master: Event, owner: Event, user: Event, lockout: Event)
    ensures
        ({
            let m0 = SaveAll { at: Kept::Master, all: true };
            let (m1, a1) = save_all_step(m0, master);
            let (m2, a2) = save_all_step(m1, owner);
            let (m3, a3) = save_all_step(m2, user);
            let (m4, a4) = save_all_step(m3, lockout);
            &&& a1 == AskView::SaveCatacomb(Kept::Owner)
            &&& a2 == AskView::SaveCatacomb(Kept::User)
            &&& a3 == AskView::SaveLockout
            &&& a4 == AskView::Done(
                master.worked() && owner.worked() && user.worked() && lockout.worked(),
            )
        }),
{
}

/// After a match the lockout record is saved, then the user's catacomb, then the first
/// one, and then the key bag is copied anew. The first that fails ends it.
pub proof fn match_is_saved(worked: Event, failed: Event)
    requires
        worked.worked(),
        !failed.worked(),
    ensures
        ({
            let m0 = SaveAfterMatch { stage: AfterMatchStage::Lockout };
            let (m1, a1) = after_match_step(m0, worked);
            let (m2, a2) = after_match_step(m1, worked);
            let (m3, a3) = after_match_step(m2, worked);
            let (m4, a4) = after_match_step(m3, worked);
            &&& a1 == AskView::SaveCatacomb(Kept::User)
            &&& a2 == AskView::SaveCatacomb(Kept::Master)
            &&& a3 == AskView::ResnapshotKeybag
            &&& a4 == AskView::Done(true)
            &&& after_match_step(m0, failed).1 == AskView::Done(false)
            &&& after_match_step(m1, failed).1 == AskView::Done(false)
            &&& after_match_step(m2, failed).1 == AskView::Done(false)
            &&& after_match_step(m3, failed).1 == AskView::Done(false)
        }),
{
}

/// A component that is cold is given its catacomb: what was saved of that user is sent
/// as it is, and it counts if the component is then listed as active. Without a file
/// there is nothing to give, and a file of another user is not given.
pub proof fn cold_component_is_restored(
    what: Kept,
    id: i32,
    state: u32,
    saved: &[u8],
    loaded: Event,
    listed: Event,
)
    requires
        action_for(state) == ComponentAction::Load,
        loaded matches Event::Transferred(Some(DeviceStatus::Answered(s))) && s == 0,
    ensures
        restore_start(what, id, None).1 == AskView::Restored(RestoreOutcome::Failed),
        ({
            let (m0, a0) = restore_start(what, id, Some(state));
            let (m1, a1) = restore_step(m0, Event::Saved(Some(saved)));
            let (m2, a2) = restore_step(m1, loaded);
            let (m3, a3) = restore_step(m2, listed);
            let theirs = is_catacomb_of(saved@, id as int);
            &&& a0 == AskView::ReadSaved(what)
            &&& restore_step(m0, Event::Saved(None)).1 == AskView::Restored(
                RestoreOutcome::NoStoredFile,
            )
            &&& !theirs ==> a1 == AskView::Restored(RestoreOutcome::Failed)
            &&& theirs ==> a1 == AskView::Transfer(Call::LoadCatacomb, saved@) && a2
                == AskView::Call(Call::ContextState)
            &&& theirs && confirms(listed.payload(), id as int) ==> a3 == AskView::Restored(
                RestoreOutcome::Restored,
            )
            &&& theirs && !confirms(listed.payload(), id as int) ==> a3 == AskView::Restored(
                RestoreOutcome::Failed,
            )
        }),
{
}

/// An answer to a catacomb is worth a look at the list of components if it is a
/// success, if it says that the component is active, or, for the owner's alone, if it
/// says that it was taken and is not active.
pub proof fn load_answers(what: Kept, status: Option<DeviceStatus>)
    ensures
        load_answer_holds(what, Some(DeviceStatus::Answered(0))),
        load_answer_holds(what, Some(DeviceStatus::Answered(0x101))),
        load_answer_holds(what, Some(DeviceStatus::Answered(0x8002)))
            <==> what is Owner,
        load_answer_holds(what, status) ==> (status matches Some(DeviceStatus::Answered(s)) && (s
            == 0 || s == 0x101 || s == 0x8002)),
{
}

/// The lockout record that was saved is sent as it is; the enclave may take it, or take
/// it as empty, or refuse it.
pub proof fn lockout_is_restored(saved: &[u8], status: u32)
    ensures
        ({
            let m0 = RestoreLockout { stage: LockoutStage::Read };
            let (m1, a1) = restore_lockout_step(m0, Event::Saved(Some(saved)));
            let (m2, a2) = restore_lockout_step(
                m1,
                Event::Transferred(Some(DeviceStatus::Answered(status))),
            );
            let sized = 0 < saved@.len() <= 0x4b000;
            &&& restore_lockout_step(m0, Event::Saved(None)).1 == AskView::Restored(
                RestoreOutcome::NoStoredFile,
            )
            &&& !sized ==> a1 == AskView::Restored(RestoreOutcome::Failed)
            &&& sized ==> a1 == AskView::Transfer(Call::LoadLockout, saved@)
            &&& sized && status == 0 ==> a2 == AskView::Restored(RestoreOutcome::Restored)
            &&& sized && status == 0x8002 ==> a2 == AskView::Restored(
                RestoreOutcome::EmptyTolerated,
            )
            &&& sized && status != 0 && status != 0x8002 ==> a2
                == AskView::Restored(RestoreOutcome::Failed)
            &&& sized ==> restore_lockout_step(m1, Event::Transferred(None)).1 == AskView::Restored(
                RestoreOutcome::Failed,
            )
        }),
{
}

/// Everything is given back in this order: the first catacomb, the owner's, the user's
/// and the lockout record, each catacomb under its own number and with the state that
/// a list says which was read just before. Matching works if the user's catacomb and
/// the lockout record are in order; the others do not matter for that.
pub proof fn everything_is_restored(
    user: UserId,
    first: Event,
    second: Event,
    third: Event,
    master: RestoreOutcome,
    owner: RestoreOutcome,
    users: RestoreOutcome,
    lockout: RestoreOutcome,
)
    requires
        first.payload() is Some && (first.payload()->0).len() >= 8,
        second.payload() is Some && (second.payload()->0).len() >= 8,
        third.payload() is Some && (third.payload()->0).len() >= 8,
    ensures
        ({
            let m0 = RestoreAll {
                user,
                stage: RestoreAllStage::States(Kept::Master),
                user_ok: false,
                missing_files: false,
            };
            let (m1, a1) = restore_all_step(m0, first);
            let (m2, a2) = restore_all_step(m1, Event::Restored(master));
            let (m3, a3) = restore_all_step(m2, second);
            let (m4, a4) = restore_all_step(m3, Event::Restored(owner));
            let (m5, a5) = restore_all_step(m4, third);
            let (m6, a6) = restore_all_step(m5, Event::Restored(users));
            let (m7, a7) = restore_all_step(m6, Event::Restored(lockout));
            &&& a1 == AskView::RestoreCatacomb(
                Kept::Master,
                (-1) as i32,
                state_in(first.payload()->0, -1, 0),
            )
            &&& a2 == AskView::Call(Call::ContextState)
            &&& a3 == AskView::RestoreCatacomb(
                Kept::Owner,
                501,
                state_in(second.payload()->0, 501, 0),
            )
            &&& a4 == AskView::Call(Call::ContextState)
            &&& a5 == AskView::RestoreCatacomb(
                Kept::User,
                user@,
                state_in(third.payload()->0, user@ as int, 0),
            )
            &&& a6 == AskView::RestoreLockout
            &&& a7 == AskView::Done(
                (users is Restored || users is AlreadyActive) && (lockout is Restored || lockout
                    is AlreadyActive || lockout is EmptyTolerated),
            )
            &&& m7.missing_files == (master is NoStoredFile || owner is NoStoredFile || users
                is NoStoredFile || lockout is NoStoredFile)
        }),
{
}

/// Saved bytes are those of a user's catacomb if there are at least 34 and at most
/// 307200 of them, and the number of the user stands at the ninth.
pub proof fn catacombs_name_their_user(blob: Seq<u8>, user: int)
    ensures
        is_catacomb_of(blob, user) <==> 34 <= blob.len() <= 307_200 && i32_at(blob, 8) == user,
{
}

/// Without a list of components nothing more is given back.
pub proof fn restoring_needs_the_list(m: RestoreAll, e: Event)
    requires
        m.stage is States,
        e.payload() is None || (e.payload()->0).len() < 8,
    ensures
        restore_all_step(m, e).1 == AskView::Done(false),
{
}

/// Opening a context where nothing is listed: the first context is selected and its
/// catacomb saved, the owner's saved, the user's context selected, and the user's
/// settings asked for. Where something is listed, or nothing can be told, only the
/// settings are asked for.
pub proof fn context_is_opened(
    m: OpenContext,
    e: Event,
    m2: OpenContext,
    ask: AskView,
)
    requires
        m.wf(),
        context_steps(m, e, m2, ask),
    ensures
        m.stage is List ==> if e matches Event::Listed(Some(n)) && n == 0 {
            selects(ask, -1) && m2.stage is System
        } else {
            ask == AskView::Call(Call::ProtectedConfig(m.user)) && m2.stage is Config
        },
        m.stage is System && e.accepted() ==> ask == AskView::SaveCatacomb(Kept::Master) && m2.stage
            is Master,
        m.stage is Master && e.worked() ==> ask == AskView::SaveCatacomb(Kept::Owner) && m2.stage
            is Owner,
        m.stage is Owner && e.worked() ==> selects(ask, m.user@ as int) && m2.stage is User,
        m.stage is User && e.accepted() ==> ask == AskView::Call(Call::ProtectedConfig(m.user))
            && m2.stage is Config,
        (m.stage is System || m.stage is User) && !e.accepted() ==> ask == AskView::Done(false),
        (m.stage is Master || m.stage is Owner) && !e.worked() ==> ask == AskView::Done(false),
{
}

/// Beginning an enrolment: what is open is cancelled, a context is opened, a credential
/// is had, and the enclave is handed the credential, for the user, under type 0. It is
/// open exactly if the enclave takes it.
pub proof fn enrolment_is_begun(
    user: UserId,
    open: bool,
    cancelled: Event,
    opened: Event,
    handle: [u8; 16],
    begun: Event,
)
    requires
        opened.worked(),
    ensures
        begin_start(user, true, true, true).1 == AskView::Call(Call::Cancel),
        begin_step(begin_start(user, true, true, true).0, cancelled).1 == AskView::OpenContext,
        begin_start(user, false, false, true).1 == AskView::Done(false),
        begin_start(user, false, true, false).1 == AskView::Done(false),
        ({
            let (m0, a0) = begin_start(user, false, true, true);
            let (m1, a1) = begin_step(m0, opened);
            let (m2, a2) = begin_step(m1, Event::Credential(Some(handle)));
            let (m3, a3) = begin_step(m2, begun);
            &&& a0 == AskView::OpenContext
            &&& a1 == AskView::EstablishCredential
            &&& a2 == AskView::CallWith(
                Call::BeginEnrol(user, 0),
                handle@,
            )
            &&& a3 == AskView::Done(begun.accepted())
            &&& m3.open == begun.accepted()
            &&& begin_step(m0, Event::Worked(false)).1 == AskView::Done(false)
            &&& begin_step(m1, Event::Credential(None)).1 == AskView::Done(false)
        }),
{
}

/// What each of the machines that save and restore starts with: the master comes first, and
/// nothing has failed yet.
pub proof fn first_steps_of_saving_and_restoring(user: UserId)
    ensures
        save_lockout_begins() == (SaveLockout { stored: false }, AskView::Call(Call::SaveLockout)),
        save_all_begins() == (
            SaveAll { at: Kept::Master, all: true },
            AskView::SaveCatacomb(Kept::Master),
        ),
        save_after_match_begins() == (
            SaveAfterMatch { stage: AfterMatchStage::Lockout },
            AskView::SaveLockout,
        ),
        restore_lockout_begins() == (
            RestoreLockout { stage: LockoutStage::Read },
            AskView::ReadSaved(Kept::Lockout),
        ),
        restore_all_begins(user) == (
            RestoreAll {
                user,
                stage: RestoreAllStage::States(Kept::Master),
                user_ok: false,
                missing_files: false,
            },
            AskView::Call(Call::ContextState),
        ),
        open_context_begins(user) == (
            OpenContext { user, stage: ContextStage::List },
            AskView::Call(Call::ListIdentities),
        ),
{
}

} // verus!
