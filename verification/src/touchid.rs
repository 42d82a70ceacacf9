//! Fingerprint recognition as a whole: bringing it up, opening it to a program,
//! and keeping the host's index in line with the enclave.

use crate::bio::{held, reconciled, unlisted, Identity, IdentityIndex, ENROL_USER_ID};
use crate::bytes::{copy_of, put_bytes, put_u32, put_zeros, u32_le, zeroed};
use crate::errno::Errno;
use crate::image::wipe;
use crate::sbio::{Call, IdentityV1, Verdict};
use crate::session::{blank_session, enrol_filed, enrol_finish, Handled, Session};
use crate::sks::{DesignateUser, Healthy, KeyBagHandle, SpecialHandle};
use crate::uuid::Uuid;
use vstd::prelude::*;

verus! {

// ---------------------------------------------------------------------------
// Which identity was just enrolled.
// ---------------------------------------------------------------------------
/// The first `n` candidates that are listed, each once.
pub open spec fn confirmed(candidates: Seq<Uuid>, listed: Seq<Uuid>, n: int) -> Seq<Uuid>
    decreases n,
{
    if n <= 0 {
        Seq::empty()
    } else {
        let before = confirmed(candidates, listed, n - 1);
        let c = candidates[n - 1];
        if listed.contains(c) && !before.contains(c) {
            before.push(c)
        } else {
            before
        }
    }
}

/// The first `n` listed identities that the index lacks.
pub open spec fn news(listed: Seq<Uuid>, entries: Seq<Identity>, n: int) -> Seq<Uuid>
    decreases n,
{
    if n <= 0 {
        Seq::empty()
    } else {
        let before = news(listed, entries, n - 1);
        if held(entries, listed[n - 1]) {
            before
        } else {
            before.push(listed[n - 1])
        }
    }
}

/// The identity that was enrolled, if there is no doubt: the only candidate
/// that is listed, or else the only listed one that the index lacks.
pub open spec fn just_enrolled(
    candidates: Seq<Uuid>,
    listed: Seq<Uuid>,
    entries: Seq<Identity>,
) -> Option<Uuid> {
    let c = confirmed(candidates, listed, candidates.len() as int);
    let n = news(listed, entries, listed.len() as int);
    if c.len() == 1 {
        Some(c[0])
    } else if n.len() == 1 {
        Some(n[0])
    } else {
        None
    }
}

fn among(list: &Vec<Uuid>, u: &Uuid) -> (r: bool)
    ensures
        r == list@.contains(*u),
{
    let mut i: usize = 0;
    while i < list.len()
        invariant
            i <= list.len(),
            forall|j: int| 0 <= j < i ==> list@[j] != *u,
        decreases list.len() - i,
    {
        if list[i] == *u {
            assert(list@[i as int] == *u);
            return true;
        }
        i = i + 1;
    }
    false
}

fn confirm(candidates: &Vec<Uuid>, listed: &Vec<Uuid>) -> (out: Vec<Uuid>)
    ensures
        out@ == confirmed(candidates@, listed@, candidates@.len() as int),
{
    let mut out: Vec<Uuid> = Vec::new();
    let mut i: usize = 0;
    while i < candidates.len()
        invariant
            i <= candidates.len(),
            out@ == confirmed(candidates@, listed@, i as int),
        decreases candidates.len() - i,
    {
        let c = candidates[i];
        if among(listed, &c) && !among(&out, &c) {
            out.push(c);
        }
        i = i + 1;
    }
    out
}

fn find_news(listed: &Vec<Uuid>, index: &IdentityIndex) -> (out: Vec<Uuid>)
    ensures
        out@ == news(listed@, index@, listed@.len() as int),
{
    let mut out: Vec<Uuid> = Vec::new();
    let mut i: usize = 0;
    while i < listed.len()
        invariant
            i <= listed.len(),
            out@ == news(listed@, index@, i as int),
        decreases listed.len() - i,
    {
        if !index.contains_uuid(&listed[i]) {
            out.push(listed[i]);
        }
        i = i + 1;
    }
    out
}

/// Tells which identity was enrolled, given what the record of the enrolment
/// may name and what the enclave lists now, if it gave a list.
pub fn identity_just_enrolled(
    candidates: &Vec<Uuid>,
    listed: Option<&Vec<Uuid>>,
    index: &IdentityIndex,
) -> (r: Option<Uuid>)
    ensures
        r == (match listed {
            Some(l) => just_enrolled(candidates@, l@, index@),
            None => None,
        }),
{
    match listed {
        Some(l) => {
            let c = confirm(candidates, l);
            if c.len() == 1 {
                return Some(c[0]);
            }
            let n = find_news(l, index);
            if n.len() == 1 {
                return Some(n[0]);
            }
            None
        },
        None => None,
    }
}

proof fn confirmed_are_listed(candidates: Seq<Uuid>, listed: Seq<Uuid>, n: int)
    ensures
        forall|i: int|
            0 <= i < confirmed(candidates, listed, n).len() ==> listed.contains(
                #[trigger] confirmed(candidates, listed, n)[i],
            ),
    decreases n,
{
    if n > 0 {
        confirmed_are_listed(candidates, listed, n - 1);
        let before = confirmed(candidates, listed, n - 1);
        let all = confirmed(candidates, listed, n);
        assert forall|i: int| 0 <= i < all.len() implies listed.contains(#[trigger] all[i]) by {
            if i < before.len() {
                assert(all[i] == before[i]);
            }
        }
    }
}

proof fn news_are_listed(listed: Seq<Uuid>, entries: Seq<Identity>, n: int)
    requires
        n <= listed.len(),
    ensures
        forall|i: int|
            0 <= i < news(listed, entries, n).len() ==> listed.contains(
                #[trigger] news(listed, entries, n)[i],
            ),
    decreases n,
{
    if n > 0 {
        news_are_listed(listed, entries, n - 1);
        let before = news(listed, entries, n - 1);
        let all = news(listed, entries, n);
        assert forall|i: int| 0 <= i < all.len() implies listed.contains(#[trigger] all[i]) by {
            if i < before.len() {
                assert(all[i] == before[i]);
            } else {
                assert(all[i] == listed[n - 1]);
            }
        }
    }
}

/// An identity is taken for the one just enrolled only if the enclave lists it.
pub proof fn enrolled_is_listed(candidates: Seq<Uuid>, listed: Seq<Uuid>, entries: Seq<Identity>)
    ensures
        just_enrolled(candidates, listed, entries) matches Some(u) ==> listed.contains(u),
{
    confirmed_are_listed(candidates, listed, candidates.len() as int);
    news_are_listed(listed, entries, listed.len() as int);
    let c = confirmed(candidates, listed, candidates.len() as int);
    let n = news(listed, entries, listed.len() as int);
    if c.len() == 1 {
        assert(listed.contains(c[0]));
    } else if n.len() == 1 {
        assert(listed.contains(n[0]));
    }
}

// ---------------------------------------------------------------------------
// The index.
// ---------------------------------------------------------------------------
/// Brings the index in line with what the enclave lists, unless it lists
/// nothing. Tells whether the index has to be written.
pub fn reconcile_identities(index: &mut IdentityIndex, listed: Option<&Vec<Uuid>>) -> (write: bool)
    requires
        old(index).wf(),
    ensures
        final(index).wf(),
        match listed {
            None => !write && final(index)@ == old(index)@,
            Some(l) => if l@.len() == 0 {
                !write && final(index)@ == old(index)@
            } else {
                let (target, fits) = reconciled(old(index)@, l@);
                &&& final(index)@ == target
                &&& write == (fits && !(unlisted(old(index)@, l@).len() == 0 && target.len()
                    == l@.len()))
            },
        },
{
    match listed {
        None => false,
        Some(l) => {
            if l.len() == 0 {
                return false;
            }
            match index.reconcile_to(l) {
                Ok(dropped) => !(dropped.len() == 0 && index.total() == l.len()),
                Err(_) => false,
            }
        },
    }
}

/// What is left to do when an enrolment was filed.
#[derive(Clone, Copy, Debug, PartialEq, Eq, Structural)]
pub struct Filed {
    /// The index has to be written.
    pub persist: bool,
    /// The program has to be woken.
    pub wake: bool,
}

/// Ends an enrolment and tells what is left to do.
pub fn finish_enrolment(
    session: &mut Session,
    index: &mut IdentityIndex,
    outcome: Result<Uuid, u32>,
) -> (f: Filed)
    requires
        old(index).wf(),
    ensures
        final(index).wf(),
        (f.wake, *final(session), final(index)@) == enrol_filed(
            *old(session),
            old(index)@,
            outcome,
        ),
        f.persist == (f.wake && outcome is Ok),
{
    let filed = enrol_finish(session, index, outcome);
    Filed { persist: filed && outcome.is_ok(), wake: filed }
}

#[derive(Clone, Copy, Debug, PartialEq, Eq, Structural)]
pub enum DeleteStage {
    List,
    Delete,
    Forget,
}

#[derive(Clone, Copy, Debug, PartialEq, Eq, Structural)]
pub enum DeleteAsk {
    /// Tell whether the enclave lists the identity.
    Lists(Uuid),
    Call(Call),
    /// Take the identity out of the index and write the index.
    Forget(Uuid),
    Done(Option<Errno>),
}

pub enum DeleteEvent {
    Lists(Option<bool>),
    Reply(Verdict),
    Forgotten,
}

/// Deleting one identity. The index forgets it only when the enclave has, or
/// says that it never had it.
#[derive(Clone, Copy, Debug, PartialEq, Eq, Structural)]
pub struct DeleteIdentity {
    pub identity: IdentityV1,
    pub stage: DeleteStage,
}

pub open spec fn delete_step(m: DeleteIdentity, e: DeleteEvent) -> (DeleteIdentity, DeleteAsk) {
    let forget = (
        DeleteIdentity { stage: DeleteStage::Forget, ..m },
        DeleteAsk::Forget(m.identity.uuid),
    );
    match m.stage {
        DeleteStage::List => match e {
            DeleteEvent::Lists(Some(false)) => forget,
            _ => (
                DeleteIdentity { stage: DeleteStage::Delete, ..m },
                DeleteAsk::Call(Call::DeleteIdentity(m.identity)),
            ),
        },
        DeleteStage::Delete => match e {
            DeleteEvent::Reply(Verdict::Accepted) => forget,
            _ => (m, DeleteAsk::Done(Some(Errno::EIO))),
        },
        DeleteStage::Forget => (m, DeleteAsk::Done(None)),
    }
}

impl DeleteIdentity {
    pub fn start(identity: IdentityV1) -> (r: (DeleteIdentity, DeleteAsk))
        ensures
            r == (
                DeleteIdentity { identity, stage: DeleteStage::List },
                DeleteAsk::Lists(identity.uuid),
            ),
    {
        (DeleteIdentity { identity, stage: DeleteStage::List }, DeleteAsk::Lists(identity.uuid))
    }

    pub fn step(&mut self, e: &DeleteEvent) -> (ask: DeleteAsk)
        ensures
            (*final(self), ask) == delete_step(*old(self), *e),
    {
        match self.stage {
            DeleteStage::List => match e {
                DeleteEvent::Lists(Some(false)) => {
                    self.stage = DeleteStage::Forget;
                    DeleteAsk::Forget(self.identity.uuid)
                },
                _ => {
                    self.stage = DeleteStage::Delete;
                    DeleteAsk::Call(Call::DeleteIdentity(self.identity))
                },
            },
            DeleteStage::Delete => match e {
                DeleteEvent::Reply(Verdict::Accepted) => {
                    self.stage = DeleteStage::Forget;
                    DeleteAsk::Forget(self.identity.uuid)
                },
                _ => DeleteAsk::Done(Some(Errno::EIO)),
            },
            DeleteStage::Forget => DeleteAsk::Done(None),
        }
    }
}

/// The index forgets an identity only if the enclave does not list it or has
/// deleted it.
pub proof fn forgotten_only_when_gone(m: DeleteIdentity, e: DeleteEvent)
    ensures
        delete_step(m, e).1 is Forget ==> (m.stage == DeleteStage::List && e
            == DeleteEvent::Lists(Some(false))) || (m.stage == DeleteStage::Delete && e
            == DeleteEvent::Reply(Verdict::Accepted)),
{
}

/// What deleting several identities comes to: the first error, if any. Each is
/// tried.
pub fn first_error(results: &Vec<Option<Errno>>) -> (r: Option<Errno>)
    ensures
        match r {
            Some(e) => exists|i: int|
                0 <= i < results.len() && results@[i] == Some(e) && forall|j: int|
                    0 <= j < i ==> results@[j] is None,
            None => forall|i: int| 0 <= i < results.len() ==> results@[i] is None,
        },
{
    let mut i: usize = 0;
    while i < results.len()
        invariant
            i <= results.len(),
            forall|j: int| 0 <= j < i ==> results@[j] is None,
        decreases results.len() - i,
    {
        if let Some(e) = results[i] {
            assert(results@[i as int] == Some(e));
            return Some(e);
        }
        i = i + 1;
    }
    None
}

/// What a program is told of a request whose handling is `handled`, once the
/// deletions that it called for were tried: the error of the one identity to
/// delete, else the first of those of all of them, else whether to wake who
/// waits.
pub fn request_result(
    handled: &Handled,
    deleted: Option<Errno>,
    all_deleted: &Vec<Option<Errno>>,
) -> (r: Result<bool, Errno>)
    ensures
        match r {
            Ok(wake) => {
                &&& wake == handled.wake
                &&& handled.delete_identity is Some ==> deleted is None
                &&& forall|i: int| 0 <= i < all_deleted.len() ==> all_deleted@[i] is None
            },
            Err(e) => {
                ||| handled.delete_identity is Some && deleted == Some(e)
                ||| {
                    &&& handled.delete_identity is Some ==> deleted is None
                    &&& exists|i: int|
                        0 <= i < all_deleted.len() && all_deleted@[i] == Some(e) && forall|j: int|
                            0 <= j < i ==> all_deleted@[j] is None
                }
            },
        },
{
    if handled.delete_identity.is_some() {
        if let Some(e) = deleted {
            return Err(e);
        }
    }
    match first_error(all_deleted) {
        Some(e) => Err(e),
        None => Ok(handled.wake),
    }
}

// ---------------------------------------------------------------------------
// Activation.
// ---------------------------------------------------------------------------
#[derive(Clone, Copy, Debug, PartialEq, Eq, Structural)]
pub enum ActivateStage {
    Store,
    Index,
    Sensor,
    Buffers,
    Keybag,
    KeyStore,
    Recover,
    Designate,
    Refkey,
    ColdMatch,
    Restore,
    Bringup,
    Over,
}

/// What is to be done next.
#[derive(Debug, PartialEq, Eq)]
pub enum ActivateAsk<B = Vec<u8>> {
    OpenStore,
    LoadIndex,
    AttachSensor,
    RegisterBuffers,
    /// Read the stored key bag, and tell its secret.
    ReadKeybag,
    /// Tell whether the key store takes requests.
    KeyStoreReady,
    /// Load that bag, check that it is the stored one, and tell its handle and
    /// its identifier.
    RecoverKeybag,
    /// Designate this bag as the user's, with this secret.
    DesignateKeybag(KeyBagHandle, B),
    /// Find the machine's key while this bag, whose secret this is, is loaded.
    PrepareMachineRefkey(KeyBagHandle, B),
    /// Prepare the bag for a cold match.
    ColdMatch(KeyBagHandle, Uuid),
    RestoreTemplates,
    BringSensorUp,
    Done(Option<Errno>),
}

#[derive(Debug, PartialEq, Eq)]
pub enum ActivateEvent<B = Vec<u8>> {
    /// It was done, or failed with this error.
    Result(Option<Errno>),
    /// The secret of the stored key bag, if there is one, or why it cannot be
    /// read.
    Keybag(Result<Option<B>, Errno>),
    Worked(bool),
    /// The bag that was loaded, if it is the stored one.
    Recovered(Option<(KeyBagHandle, Uuid)>),
    Told,
}

pub type ActivateAskView = ActivateAsk<Seq<u8>>;

pub type ActivateEventView = ActivateEvent<Seq<u8>>;

impl View for ActivateAsk {
    type V = ActivateAskView;

    open spec fn view(&self) -> ActivateAskView {
        match self {
            ActivateAsk::OpenStore => ActivateAsk::OpenStore,
            ActivateAsk::LoadIndex => ActivateAsk::LoadIndex,
            ActivateAsk::AttachSensor => ActivateAsk::AttachSensor,
            ActivateAsk::RegisterBuffers => ActivateAsk::RegisterBuffers,
            ActivateAsk::ReadKeybag => ActivateAsk::ReadKeybag,
            ActivateAsk::KeyStoreReady => ActivateAsk::KeyStoreReady,
            ActivateAsk::RecoverKeybag => ActivateAsk::RecoverKeybag,
            ActivateAsk::DesignateKeybag(h, s) => ActivateAsk::DesignateKeybag(*h, s@),
            ActivateAsk::PrepareMachineRefkey(h, s) => ActivateAsk::PrepareMachineRefkey(*h, s@),
            ActivateAsk::ColdMatch(h, u) => ActivateAsk::ColdMatch(*h, *u),
            ActivateAsk::RestoreTemplates => ActivateAsk::RestoreTemplates,
            ActivateAsk::BringSensorUp => ActivateAsk::BringSensorUp,
            ActivateAsk::Done(e) => ActivateAsk::Done(*e),
        }
    }
}

impl View for ActivateEvent {
    type V = ActivateEventView;

    open spec fn view(&self) -> ActivateEventView {
        match self {
            ActivateEvent::Result(e) => ActivateEvent::Result(*e),
            ActivateEvent::Keybag(Ok(Some(s))) => ActivateEvent::Keybag(Ok(Some(s@))),
            ActivateEvent::Keybag(Ok(None)) => ActivateEvent::Keybag(Ok(None)),
            ActivateEvent::Keybag(Err(e)) => ActivateEvent::Keybag(Err(*e)),
            ActivateEvent::Worked(ok) => ActivateEvent::Worked(*ok),
            ActivateEvent::Recovered(r) => ActivateEvent::Recovered(*r),
            ActivateEvent::Told => ActivateEvent::Told,
        }
    }
}

/// Activating fingerprint recognition, once. After a failure it is refused
/// until the next start of the machine: a key bag that is half loaded cannot be
/// loaded again.
#[derive(Debug, PartialEq, Eq)]
pub struct Activate<B = Vec<u8>> {
    pub stage: ActivateStage,
    pub started: bool,
    pub failed: bool,
    /// The secret of the stored bag, until it is used.
    pub secret: Option<B>,
    /// The bag that is loaded, and its identifier.
    pub bag: Option<(KeyBagHandle, Uuid)>,
}

pub type ActivateView = Activate<Seq<u8>>;

impl View for Activate {
    type V = ActivateView;

    open spec fn view(&self) -> ActivateView {
        Activate {
            stage: self.stage,
            started: self.started,
            failed: self.failed,
            secret: match self.secret {
                Some(s) => Some(s@),
                None => None,
            },
            bag: self.bag,
        }
    }
}

impl<B> Activate<B> {
    /// What a stage needs is there.
    pub open spec fn wf(self) -> bool {
        match self.stage {
            ActivateStage::KeyStore | ActivateStage::Recover => self.secret is Some,
            ActivateStage::Designate => self.secret is Some && self.bag is Some,
            ActivateStage::Refkey => self.bag is Some,
            _ => true,
        }
    }
}

pub open spec fn activate_start(started: bool, failed: bool) -> (ActivateView, ActivateAskView) {
    let m = Activate { stage: ActivateStage::Over, started, failed, secret: None, bag: None };
    if started {
        (m, ActivateAsk::Done(None))
    } else if failed {
        (m, ActivateAsk::Done(Some(Errno::EIO)))
    } else {
        (Activate { stage: ActivateStage::Store, ..m }, ActivateAsk::OpenStore)
    }
}

/// Fails; the secret is let go.
pub open spec fn activation_fails(m: ActivateView, e: Errno) -> (ActivateView, ActivateAskView) {
    (
        Activate { stage: ActivateStage::Over, failed: true, secret: None, ..m },
        ActivateAsk::Done(Some(e)),
    )
}

pub open spec fn activate_at(m: ActivateView, stage: ActivateStage, ask: ActivateAskView) -> (
    ActivateView,
    ActivateAskView,
) {
    (Activate { stage, ..m }, ask)
}

/// Goes on unless the last step failed.
pub open spec fn unless_failed(
    m: ActivateView,
    e: ActivateEventView,
    stage: ActivateStage,
    ask: ActivateAskView,
) -> (ActivateView, ActivateAskView) {
    match e {
        ActivateEvent::Result(Some(err)) => activation_fails(m, err),
        _ => activate_at(m, stage, ask),
    }
}

pub open spec fn activate_step(m: ActivateView, e: ActivateEventView) -> (
    ActivateView,
    ActivateAskView,
) {
    match m.stage {
        ActivateStage::Store => unless_failed(m, e, ActivateStage::Index, ActivateAsk::LoadIndex),
        ActivateStage::Index => unless_failed(
            m,
            e,
            ActivateStage::Sensor,
            ActivateAsk::AttachSensor,
        ),
        ActivateStage::Sensor => activate_at(
            m,
            ActivateStage::Buffers,
            ActivateAsk::RegisterBuffers,
        ),
        ActivateStage::Buffers => unless_failed(
            m,
            e,
            ActivateStage::Keybag,
            ActivateAsk::ReadKeybag,
        ),
        ActivateStage::Keybag => match e {
            ActivateEvent::Keybag(Ok(Some(secret))) => (
                Activate { stage: ActivateStage::KeyStore, secret: Some(secret), ..m },
                ActivateAsk::KeyStoreReady,
            ),
            ActivateEvent::Keybag(Ok(None)) => activation_fails(m, Errno::ENOENT),
            ActivateEvent::Keybag(Err(err)) => activation_fails(m, err),
            _ => activation_fails(m, Errno::EIO),
        },
        ActivateStage::KeyStore => if e == ActivateEventView::Worked(true) {
            activate_at(m, ActivateStage::Recover, ActivateAsk::RecoverKeybag)
        } else {
            activation_fails(m, Errno::ENODEV)
        },
        ActivateStage::Recover => match e {
            ActivateEvent::Recovered(Some((h, u))) => (
                Activate { stage: ActivateStage::Designate, bag: Some((h, u)), ..m },
                ActivateAsk::DesignateKeybag(h, m.secret->0),
            ),
            _ => activation_fails(m, Errno::EIO),
        },
        ActivateStage::Designate => (
            Activate { stage: ActivateStage::Refkey, secret: None, ..m },
            ActivateAsk::PrepareMachineRefkey((m.bag->0).0, m.secret->0),
        ),
        ActivateStage::Refkey => activate_at(
            m,
            ActivateStage::ColdMatch,
            ActivateAsk::ColdMatch((m.bag->0).0, (m.bag->0).1),
        ),
        ActivateStage::ColdMatch => activate_at(
            m,
            ActivateStage::Restore,
            ActivateAsk::RestoreTemplates,
        ),
        ActivateStage::Restore => activate_at(
            m,
            ActivateStage::Bringup,
            ActivateAsk::BringSensorUp,
        ),
        ActivateStage::Bringup => (
            Activate { stage: ActivateStage::Over, started: true, ..m },
            ActivateAsk::Done(None),
        ),
        ActivateStage::Over => (
            m,
            ActivateAsk::Done(
                if m.started {
                    None
                } else {
                    Some(Errno::EIO)
                },
            ),
        ),
    }
}

/// Lets go of a secret, whose bytes are overwritten first.
fn forget(secret: Option<Vec<u8>>) {
    if let Some(s) = secret {
        let mut s = s;
        wipe(&mut s);
    }
}

impl Activate {
    pub fn start(started: bool, failed: bool) -> (r: (Activate, ActivateAsk))
        ensures
            r.0.wf(),
            (r.0@, r.1@) == activate_start(started, failed),
    {
        let mut m = Activate {
            stage: ActivateStage::Over,
            started,
            failed,
            secret: None,
            bag: None,
        };
        if started {
            (m, ActivateAsk::Done(None))
        } else if failed {
            (m, ActivateAsk::Done(Some(Errno::EIO)))
        } else {
            m.stage = ActivateStage::Store;
            (m, ActivateAsk::OpenStore)
        }
    }

    fn fail(&mut self, e: Errno) -> (ask: ActivateAsk)
        ensures
            (final(self)@, ask@) == activation_fails(old(self)@, e),
    {
        forget(self.secret.take());
        self.stage = ActivateStage::Over;
        self.failed = true;
        ActivateAsk::Done(Some(e))
    }

    fn go(&mut self, stage: ActivateStage, ask: ActivateAsk) -> (r: ActivateAsk)
        ensures
            (final(self)@, r@) == activate_at(old(self)@, stage, ask@),
    {
        self.stage = stage;
        ask
    }

    fn go_unless(&mut self, e: &ActivateEvent, stage: ActivateStage, ask: ActivateAsk) -> (r:
        ActivateAsk)
        ensures
            (final(self)@, r@) == unless_failed(old(self)@, e@, stage, ask@),
    {
        match e {
            ActivateEvent::Result(Some(err)) => self.fail(*err),
            _ => self.go(stage, ask),
        }
    }

    fn read(&mut self, found: Result<Option<Vec<u8>>, Errno>) -> (ask: ActivateAsk)
        requires
            old(self).stage is Keybag,
        ensures
            final(self).wf(),
            (final(self)@, ask@) == activate_step(old(self)@, ActivateEvent::Keybag(found)@),
    {
        match found {
            Ok(Some(secret)) => {
                self.secret = Some(secret);
                self.go(ActivateStage::KeyStore, ActivateAsk::KeyStoreReady)
            },
            Ok(None) => self.fail(Errno::ENOENT),
            Err(err) => self.fail(err),
        }
    }

    fn recovered(&mut self, bag: Option<(KeyBagHandle, Uuid)>) -> (ask: ActivateAsk)
        requires
            old(self).wf(),
            old(self).stage is Recover,
        ensures
            final(self).wf(),
            (final(self)@, ask@) == activate_step(old(self)@, ActivateEvent::Recovered(bag)@),
    {
        match bag {
            Some((h, u)) => {
                self.bag = Some((h, u));
                let copy = match &self.secret {
                    Some(s) => copy_of(s),
                    None => Vec::new(),
                };
                self.go(ActivateStage::Designate, ActivateAsk::DesignateKeybag(h, copy))
            },
            None => self.fail(Errno::EIO),
        }
    }

    fn designated(&mut self) -> (ask: ActivateAsk)
        requires
            old(self).wf(),
            old(self).stage is Designate,
        ensures
            final(self).wf(),
            (final(self)@, ask@) == activate_step(old(self)@, ActivateEvent::Told),
    {
        match (self.bag, self.secret.take()) {
            (Some((h, _)), Some(s)) => self.go(
                ActivateStage::Refkey,
                ActivateAsk::PrepareMachineRefkey(h, s),
            ),
            _ => self.go(ActivateStage::Refkey, ActivateAsk::RestoreTemplates),
        }
    }

    fn prepared(&mut self) -> (ask: ActivateAsk)
        requires
            old(self).wf(),
            old(self).stage is Refkey,
        ensures
            final(self).wf(),
            (final(self)@, ask@) == activate_step(old(self)@, ActivateEvent::Told),
    {
        match self.bag {
            Some((h, u)) => self.go(ActivateStage::ColdMatch, ActivateAsk::ColdMatch(h, u)),
            None => self.go(ActivateStage::ColdMatch, ActivateAsk::RestoreTemplates),
        }
    }

    pub fn step(&mut self, e: ActivateEvent) -> (ask: ActivateAsk)
        requires
            old(self).wf(),
        ensures
            final(self).wf(),
            (final(self)@, ask@) == activate_step(old(self)@, e@),
    {
        match self.stage {
            ActivateStage::Store => self.go_unless(
                &e,
                ActivateStage::Index,
                ActivateAsk::LoadIndex,
            ),
            ActivateStage::Index => self.go_unless(
                &e,
                ActivateStage::Sensor,
                ActivateAsk::AttachSensor,
            ),
            ActivateStage::Sensor => self.go(ActivateStage::Buffers, ActivateAsk::RegisterBuffers),
            ActivateStage::Buffers => self.go_unless(
                &e,
                ActivateStage::Keybag,
                ActivateAsk::ReadKeybag,
            ),
            ActivateStage::Keybag => match e {
                ActivateEvent::Keybag(found) => self.read(found),
                _ => self.fail(Errno::EIO),
            },
            ActivateStage::KeyStore => match e {
                ActivateEvent::Worked(true) => self.go(
                    ActivateStage::Recover,
                    ActivateAsk::RecoverKeybag,
                ),
                _ => self.fail(Errno::ENODEV),
            },
            ActivateStage::Recover => match e {
                ActivateEvent::Recovered(bag) => self.recovered(bag),
                _ => self.recovered(None),
            },
            ActivateStage::Designate => self.designated(),
            ActivateStage::Refkey => self.prepared(),
            ActivateStage::ColdMatch => self.go(
                ActivateStage::Restore,
                ActivateAsk::RestoreTemplates,
            ),
            ActivateStage::Restore => self.go(ActivateStage::Bringup, ActivateAsk::BringSensorUp),
            ActivateStage::Bringup => {
                self.started = true;
                self.go(ActivateStage::Over, ActivateAsk::Done(None))
            },
            ActivateStage::Over => {
                if self.started {
                    ActivateAsk::Done(None)
                } else {
                    ActivateAsk::Done(Some(Errno::EIO))
                }
            },
        }
    }
}

/// An activation that failed is not tried again, and one that worked is not
/// repeated: starting anew ends at once, the same way each time.
pub proof fn activation_happens_once(m: ActivateView, e: ActivateEventView)
    requires
        !m.started && !m.failed,
    ensures
        activate_step(m, e).1 matches ActivateAsk::Done(None) ==> ({
            let after = activate_step(m, e).0;
            activate_start(after.started, after.failed).1 == ActivateAskView::Done(None)
        }),
        m.stage != ActivateStage::Over && (activate_step(m, e).1 matches ActivateAsk::Done(Some(_)))
            ==> ({
            let after = activate_step(m, e).0;
            activate_start(after.started, after.failed).1 == ActivateAskView::Done(
                Some(Errno::EIO),
            )
        }),
{
}

/// The bag that was recovered is the one that is put to use: it is designated,
/// the machine's key is looked for in it, and it is prepared for the cold match,
/// the first two with the secret of the stored bag, whatever is told in between.
pub proof fn recovered_bag_is_used(
    m: ActivateView,
    h: KeyBagHandle,
    u: Uuid,
    designated: ActivateEventView,
    prepared: ActivateEventView,
)
    requires
        m.stage is Recover,
        m.wf(),
    ensures
        ({
            let (m1, a1) = activate_step(m, ActivateEvent::Recovered(Some((h, u))));
            let (m2, a2) = activate_step(m1, designated);
            let (m3, a3) = activate_step(m2, prepared);
            &&& a1 == ActivateAskView::DesignateKeybag(h, m.secret->0)
            &&& a2 == ActivateAskView::PrepareMachineRefkey(h, m.secret->0)
            &&& a3 == ActivateAskView::ColdMatch(h, u)
        }),
{
}

/// Opening the device for a program: the session is taken first, and let go of
/// if activation fails.
pub fn opened(session: &mut Session, activated: Option<Errno>) -> (r: Result<(), Errno>)
    ensures
        match activated {
            None => r is Ok && *final(session) == *old(session),
            Some(e) => r == Err::<(), Errno>(e) && *final(session) == blank_session(),
        },
{
    match activated {
        None => Ok(()),
        Some(e) => {
            crate::session::release(session);
            Err(e)
        },
    }
}

// ---------------------------------------------------------------------------
// Start-up.
// ---------------------------------------------------------------------------
#[derive(Clone, Copy, Debug, PartialEq, Eq, Structural)]
pub enum StartupStage {
    KeyStore,
    Provision,
    Publish,
    Over,
}

#[derive(Clone, Copy, Debug, PartialEq, Eq, Structural)]
pub enum StartupAsk {
    EnableKeyStore,
    ProvisionKeybag,
    PublishDevice,
    Done,
}

/// What is done once after attach: the key store is enabled, a key bag is made
/// if the administrator asks for one, and the device is published.
#[derive(Clone, Copy, Debug, PartialEq, Eq, Structural)]
pub struct Startup {
    pub stage: StartupStage,
    pub provision: bool,
    pub xart_writes: bool,
}

pub open spec fn startup_step(m: Startup, worked: bool) -> (Startup, StartupAsk) {
    let over = (Startup { stage: StartupStage::Over, ..m }, StartupAsk::Done);
    let publish = (Startup { stage: StartupStage::Publish, ..m }, StartupAsk::PublishDevice);
    match m.stage {
        StartupStage::KeyStore => if !worked {
            over
        } else if !m.provision {
            publish
        } else if m.xart_writes {
            (Startup { stage: StartupStage::Provision, ..m }, StartupAsk::ProvisionKeybag)
        } else {
            over
        },
        StartupStage::Provision => if worked {
            publish
        } else {
            over
        },
        StartupStage::Publish => over,
        StartupStage::Over => over,
    }
}

impl Startup {
    /// Starts, unless it was started before.
    pub fn start(before: bool, provision: bool, xart_writes: bool) -> (r: (Startup, StartupAsk))
        ensures
            r == (if before {
                (Startup { stage: StartupStage::Over, provision, xart_writes }, StartupAsk::Done)
            } else {
                (
                    Startup { stage: StartupStage::KeyStore, provision, xart_writes },
                    StartupAsk::EnableKeyStore,
                )
            }),
    {
        if before {
            (Startup { stage: StartupStage::Over, provision, xart_writes }, StartupAsk::Done)
        } else {
            (
                Startup { stage: StartupStage::KeyStore, provision, xart_writes },
                StartupAsk::EnableKeyStore,
            )
        }
    }

    pub fn step(&mut self, worked: bool) -> (ask: StartupAsk)
        ensures
            (*final(self), ask) == startup_step(*old(self), worked),
    {
        match self.stage {
            StartupStage::KeyStore => {
                if worked && !self.provision {
                    self.stage = StartupStage::Publish;
                    return StartupAsk::PublishDevice;
                }
                if worked && self.xart_writes {
                    self.stage = StartupStage::Provision;
                    return StartupAsk::ProvisionKeybag;
                }
                self.stage = StartupStage::Over;
                StartupAsk::Done
            },
            StartupStage::Provision => {
                if worked {
                    self.stage = StartupStage::Publish;
                    return StartupAsk::PublishDevice;
                }
                self.stage = StartupStage::Over;
                StartupAsk::Done
            },
            StartupStage::Publish | StartupStage::Over => {
                self.stage = StartupStage::Over;
                StartupAsk::Done
            },
        }
    }
}

/// A key bag is made only if it is asked for and the enclave's own storage may
/// be written.
pub proof fn keybag_is_made_on_request(m: Startup, worked: bool)
    ensures
        startup_step(m, worked).1 == StartupAsk::ProvisionKeybag ==> m.provision && m.xart_writes
            && worked,
{
}

/// Whether there is a sensor: its driver is registered, its bus enabled, and it
/// is bound.
pub fn sensor_is_present(registered: bool, enabled: bool, bound: bool) -> (r: bool)
    ensures
        r == (registered && enabled && bound),
{
    registered && enabled && bound
}

// ---------------------------------------------------------------------------
// After the templates were given back.
// ---------------------------------------------------------------------------
#[derive(Debug, PartialEq, Eq)]
pub enum RestoredAsk<B = Vec<u8>> {
    RestoreAll,
    /// Read the stored key bag, and tell its secret.
    ReadKeybag,
    /// Have the enclave's health checked, and tell how that went.
    CheckHealth,
    /// Unlock this designated bag with this secret.
    Unlock(SpecialHandle, B, Healthy),
    EstablishMatchContext,
    Done,
}

#[derive(Debug, PartialEq, Eq)]
pub enum RestoredEvent<B = Vec<u8>> {
    /// It worked, or did not; or it was done, for what has no outcome.
    Worked(bool),
    /// The secret of the stored bag, if there is one.
    Keybag(Option<B>),
    /// The health check, if it was passed.
    Health(Option<Healthy>),
}

#[derive(Clone, Copy, Debug, PartialEq, Eq, Structural)]
pub enum RestoredStage {
    Restore,
    Keybag,
    Health,
    Unlock,
    Context,
    Over,
}

/// Giving the templates back, and what matching needs besides: the user's bag
/// unlocked, as far as one is designated, and a context.
#[derive(Debug, PartialEq, Eq)]
pub struct EnsureRestored<B = Vec<u8>> {
    pub stage: RestoredStage,
    pub designated: bool,
    pub restored: bool,
    /// The secret of the stored bag, until it is used.
    pub secret: Option<B>,
}

pub type RestoredAskView = RestoredAsk<Seq<u8>>;

pub type RestoredEventView = RestoredEvent<Seq<u8>>;

pub type EnsureView = EnsureRestored<Seq<u8>>;

impl View for RestoredAsk {
    type V = RestoredAskView;

    open spec fn view(&self) -> RestoredAskView {
        match self {
            RestoredAsk::RestoreAll => RestoredAsk::RestoreAll,
            RestoredAsk::ReadKeybag => RestoredAsk::ReadKeybag,
            RestoredAsk::CheckHealth => RestoredAsk::CheckHealth,
            RestoredAsk::Unlock(s, b, p) => RestoredAsk::Unlock(*s, b@, *p),
            RestoredAsk::EstablishMatchContext => RestoredAsk::EstablishMatchContext,
            RestoredAsk::Done => RestoredAsk::Done,
        }
    }
}

impl View for RestoredEvent {
    type V = RestoredEventView;

    open spec fn view(&self) -> RestoredEventView {
        match self {
            RestoredEvent::Worked(ok) => RestoredEvent::Worked(*ok),
            RestoredEvent::Keybag(None) => RestoredEvent::Keybag(None),
            RestoredEvent::Keybag(Some(b)) => RestoredEvent::Keybag(Some(b@)),
            RestoredEvent::Health(p) => RestoredEvent::Health(*p),
        }
    }
}

impl View for EnsureRestored {
    type V = EnsureView;

    open spec fn view(&self) -> EnsureView {
        EnsureRestored {
            stage: self.stage,
            designated: self.designated,
            restored: self.restored,
            secret: match self.secret {
                Some(b) => Some(b@),
                None => None,
            },
        }
    }
}

/// The handle of the user's designated bag.
pub open spec fn users_bag() -> SpecialHandle {
    SpecialHandle((-ENROL_USER_ID) as i32)
}

pub open spec fn ensure_context(m: EnsureView) -> (EnsureView, RestoredAskView) {
    (
        EnsureRestored { stage: RestoredStage::Context, secret: None, ..m },
        RestoredAsk::EstablishMatchContext,
    )
}

pub open spec fn ensure_step(m: EnsureView, e: RestoredEventView) -> (EnsureView, RestoredAskView) {
    match m.stage {
        RestoredStage::Restore => if e != RestoredEventView::Worked(true) {
            (
                EnsureRestored { stage: RestoredStage::Over, restored: false, ..m },
                RestoredAsk::Done,
            )
        } else if m.designated {
            (
                EnsureRestored { stage: RestoredStage::Keybag, restored: true, ..m },
                RestoredAsk::ReadKeybag,
            )
        } else {
            ensure_context(EnsureRestored { restored: true, ..m })
        },
        RestoredStage::Keybag => match e {
            RestoredEvent::Keybag(Some(b)) => (
                EnsureRestored { stage: RestoredStage::Health, secret: Some(b), ..m },
                RestoredAsk::CheckHealth,
            ),
            _ => ensure_context(m),
        },
        RestoredStage::Health => match (e, m.secret) {
            (RestoredEvent::Health(Some(p)), Some(b)) => (
                EnsureRestored { stage: RestoredStage::Unlock, secret: None, ..m },
                RestoredAsk::Unlock(users_bag(), b, p),
            ),
            _ => ensure_context(m),
        },
        RestoredStage::Unlock => ensure_context(m),
        RestoredStage::Context | RestoredStage::Over => (
            EnsureRestored { stage: RestoredStage::Over, ..m },
            RestoredAsk::Done,
        ),
    }
}

impl EnsureRestored {
    pub fn start(designated: bool) -> (r: (EnsureRestored, RestoredAsk))
        ensures
            r.0@ == (EnsureRestored {
                stage: RestoredStage::Restore,
                designated,
                restored: false,
                secret: None::<Seq<u8>>,
            }),
            r.1@ == RestoredAskView::RestoreAll,
    {
        (
            EnsureRestored {
                stage: RestoredStage::Restore,
                designated,
                restored: false,
                secret: None,
            },
            RestoredAsk::RestoreAll,
        )
    }

    fn go(&mut self, stage: RestoredStage, ask: RestoredAsk) -> (a: RestoredAsk)
        ensures
            final(self)@ == (EnsureRestored { stage, ..old(self)@ }),
            a == ask,
    {
        self.stage = stage;
        ask
    }

    fn context(&mut self) -> (a: RestoredAsk)
        ensures
            (final(self)@, a@) == ensure_context(old(self)@),
    {
        forget(self.secret.take());
        self.go(RestoredStage::Context, RestoredAsk::EstablishMatchContext)
    }

    fn checked(&mut self, passed: Option<Healthy>) -> (a: RestoredAsk)
        requires
            old(self).stage is Health,
        ensures
            (final(self)@, a@) == ensure_step(old(self)@, RestoredEvent::Health(passed)),
    {
        match (passed, self.secret.take()) {
            (Some(p), Some(secret)) => {
                let special = DesignateUser(ENROL_USER_ID).special_handle();
                self.go(RestoredStage::Unlock, RestoredAsk::Unlock(special, secret, p))
            },
            (_, secret) => {
                forget(secret);
                self.context()
            },
        }
    }

    /// Takes in what happened and says what comes next.
    pub fn step(&mut self, e: RestoredEvent) -> (ask: RestoredAsk)
        ensures
            (final(self)@, ask@) == ensure_step(old(self)@, e@),
    {
        match (self.stage, e) {
            (RestoredStage::Restore, RestoredEvent::Worked(true)) => {
                self.restored = true;
                if self.designated {
                    self.go(RestoredStage::Keybag, RestoredAsk::ReadKeybag)
                } else {
                    self.context()
                }
            },
            (RestoredStage::Restore, _) => {
                self.restored = false;
                self.go(RestoredStage::Over, RestoredAsk::Done)
            },
            (RestoredStage::Keybag, RestoredEvent::Keybag(Some(b))) => {
                self.secret = Some(b);
                self.go(RestoredStage::Health, RestoredAsk::CheckHealth)
            },
            (RestoredStage::Health, RestoredEvent::Health(p)) => self.checked(p),
            (RestoredStage::Context, _) | (RestoredStage::Over, _) => self.go(
                RestoredStage::Over,
                RestoredAsk::Done,
            ),
            _ => self.context(),
        }
    }
}

/// The bag that is unlocked is the user's, with the secret of the stored bag, and
/// only after the templates were given back and a health check was passed. It is
/// never tried without a designated bag; whatever comes of it, the context is
/// made out next.
pub proof fn users_bag_is_unlocked(
    m: EnsureView,
    bag: RestoredEventView,
    health: RestoredEventView,
    then: RestoredEventView,
)
    requires
        m.stage == RestoredStage::Restore,
    ensures
        ({
            let (a, first) = ensure_step(m, RestoredEvent::Worked(true));
            let (b, _) = ensure_step(a, bag);
            let (c, ask) = ensure_step(b, health);
            let (d, last) = ensure_step(c, then);
            &&& a.restored
            &&& !m.designated ==> first == RestoredAskView::EstablishMatchContext
            &&& ask matches RestoredAsk::Unlock(s, secret, p) ==> {
                &&& m.designated
                &&& s == users_bag()
                &&& bag == RestoredEventView::Keybag(Some(secret))
                &&& health == RestoredEventView::Health(Some(p))
                &&& last == RestoredAskView::EstablishMatchContext
            }
            &&& m.designated && bag is Keybag && (bag->Keybag_0) is Some && health is Health && (
            health->Health_0) is Some ==> ask is Unlock
        }),
{
}

// ---------------------------------------------------------------------------
// Random bytes and attestation.
// ---------------------------------------------------------------------------
/// The bytes of the first `n` words, one behind the other.
pub open spec fn word_bytes(words: Seq<u32>, n: int) -> Seq<u8>
    decreases n,
{
    if n <= 0 {
        Seq::empty()
    } else {
        word_bytes(words, n - 1) + u32_le(words[n - 1] as int)
    }
}

/// How many words it takes to fill so many bytes.
pub open spec fn words_for(len: int) -> int {
    (len + 3) / 4
}

pub fn words_needed(len: usize) -> (n: usize)
    ensures
        n == words_for(len as int),
{
    if len % 4 == 0 {
        len / 4
    } else {
        len / 4 + 1
    }
}

/// Fills bytes from random words, each of which is used for four, the last for
/// what is left. A word that could not be had spoils it, and none is drawn
/// behind it.
pub fn sep_random(words: &Vec<Result<u32, Errno>>, len: usize) -> (r: Result<Vec<u8>, Errno>)
    requires
        (forall|i: int| 0 <= i < words.len() ==> words@[i] is Ok) ==> words.len() == words_for(
            len as int,
        ),
    ensures
        match r {
            Ok(out) => {
                &&& forall|i: int| 0 <= i < words.len() ==> words@[i] is Ok
                &&& out@ == word_bytes(
                    words@.map_values(|w: Result<u32, Errno>| w->Ok_0),
                    words.len() as int,
                ).subrange(0, len as int)
            },
            Err(e) => exists|i: int|
                0 <= i < words.len() && words@[i] == Err::<u32, Errno>(e) && forall|j: int|
                    0 <= j < i ==> words@[j] is Ok,
        },
{
    let ghost plain = words@.map_values(|w: Result<u32, Errno>| w->Ok_0);
    let mut out: Vec<u8> = Vec::new();
    let mut i: usize = 0;
    while i < words.len()
        invariant
            i <= words.len(),
            plain == words@.map_values(|w: Result<u32, Errno>| w->Ok_0),
            forall|j: int| 0 <= j < i ==> words@[j] is Ok,
            out@ == word_bytes(plain, i as int),
            out.len() == 4 * i,
        decreases words.len() - i,
    {
        match words[i] {
            Ok(w) => {
                proof {
                    crate::bytes::u32_le_len(w as int);
                }
                put_u32(&mut out, w);
            },
            Err(e) => {
                assert(words@[i as int] == Err::<u32, Errno>(e));
                return Err(e);
            },
        }
        i = i + 1;
    }
    let filled = crate::bytes::copy_range(&out, 0, len);
    Ok(filled)
}

pub const ATTEST_CHALLENGE_LEN: usize = 32;

pub const ATTEST_PUB_LEN: usize = 65;

pub const ATTEST_SIG_MAX: usize = 72;

/// How long a request for an attestation is, and its answer.
pub const ATTEST_LEN: usize = 176;

/// The challenge that a request for an attestation is for: it stands behind the
/// length of the signature, which is not looked at.
pub open spec fn challenge_in(request: Seq<u8>) -> Seq<u8> {
    request.subrange(4, 36)
}

/// Takes the challenge out of a request for an attestation.
pub fn attest_challenge(request: &[u8]) -> (challenge: Vec<u8>)
    requires
        request.len() == ATTEST_LEN,
    ensures
        challenge@ == challenge_in(request@),
        challenge.len() == ATTEST_CHALLENGE_LEN,
{
    crate::bytes::copy_range(request, 4, 36)
}

/// The answer to a request for an attestation.
pub open spec fn attest_bytes(challenge: Seq<u8>, public: Seq<u8>, sig: Seq<u8>) -> Seq<u8> {
    u32_le(sig.len() as int) + challenge + public + sig + zeroed(ATTEST_SIG_MAX - sig.len())
        + zeroed(3)
}

/// Answers a request for an attestation with the signature over its challenge.
/// What does not fit the answer's fields was not a signature of this key.
pub fn bio_attest(challenge: &[u8], sig: &[u8], public: &[u8]) -> (r: Result<Vec<u8>, Errno>)
    requires
        challenge.len() == ATTEST_CHALLENGE_LEN,
    ensures
        match r {
            Ok(out) => {
                &&& sig.len() <= ATTEST_SIG_MAX && public.len() == ATTEST_PUB_LEN
                &&& out@ == attest_bytes(challenge@, public@, sig@)
            },
            Err(e) => {
                &&& sig.len() > ATTEST_SIG_MAX || public.len() != ATTEST_PUB_LEN
                &&& e == Errno::EIO
            },
        },
{
    if sig.len() > ATTEST_SIG_MAX || public.len() != ATTEST_PUB_LEN {
        return Err(Errno::EIO);
    }
    let mut out: Vec<u8> = Vec::new();
    put_u32(&mut out, sig.len() as u32);
    put_bytes(&mut out, challenge);
    put_bytes(&mut out, public);
    put_bytes(&mut out, sig);
    put_zeros(&mut out, ATTEST_SIG_MAX - sig.len());
    put_zeros(&mut out, 3);
    assert(out@ =~= attest_bytes(challenge@, public@, sig@));
    Ok(out)
}

/// The answer to a request for an attestation is as long as the request, and
/// states its challenge where the request does.
pub proof fn attestation_repeats_its_challenge(challenge: Seq<u8>, public: Seq<u8>, sig: Seq<u8>)
    requires
        challenge.len() == ATTEST_CHALLENGE_LEN,
        public.len() == ATTEST_PUB_LEN,
        sig.len() <= ATTEST_SIG_MAX,
    ensures
        attest_bytes(challenge, public, sig).len() == ATTEST_LEN,
        challenge_in(attest_bytes(challenge, public, sig)) == challenge,
{
    crate::bytes::u32_le_len(sig.len() as int);
    assert(challenge_in(attest_bytes(challenge, public, sig)) =~= challenge);
}

/// What is confirmed is all the candidates that are listed, each once.
proof fn confirmed_is_complete(candidates: Seq<Uuid>, listed: Seq<Uuid>, n: int)
    requires
        0 <= n <= candidates.len(),
    ensures
        forall|i: int|
            0 <= i < n && listed.contains(#[trigger] candidates[i]) ==> confirmed(
                candidates,
                listed,
                n,
            ).contains(candidates[i]),
        forall|u: Uuid| #[trigger]
            confirmed(candidates, listed, n).contains(u) ==> listed.contains(u)
                && candidates.contains(u),
    decreases n,
{
    if n > 0 {
        confirmed_is_complete(candidates, listed, n - 1);
        let before = confirmed(candidates, listed, n - 1);
        let c = candidates[n - 1];
        assert(candidates.contains(c));
        if listed.contains(c) && !before.contains(c) {
            assert(before.push(c)[before.len() as int] == c);
            assert forall|u: Uuid| #[trigger] before.contains(u) implies before.push(c).contains(u) by {
                let k = choose|k: int| 0 <= k < before.len() && before[k] == u;
                assert(before.push(c)[k] == u);
            }
            assert forall|u: Uuid| #[trigger] before.push(c).contains(u) implies before.contains(u)
                || u == c by {
                let k = choose|k: int| 0 <= k <= before.len() && before.push(c)[k] == u;
                if k < before.len() {
                    assert(before[k] == u);
                }
            }
        }
    }
}

/// What is new is all that is listed and that the index lacks.
proof fn news_are_complete(listed: Seq<Uuid>, entries: Seq<Identity>, n: int)
    requires
        0 <= n <= listed.len(),
    ensures
        forall|i: int|
            0 <= i < n && !held(entries, #[trigger] listed[i]) ==> news(
                listed,
                entries,
                n,
            ).contains(listed[i]),
        forall|u: Uuid| #[trigger]
            news(listed, entries, n).contains(u) ==> listed.contains(u) && !held(entries, u),
    decreases n,
{
    if n > 0 {
        news_are_complete(listed, entries, n - 1);
        let before = news(listed, entries, n - 1);
        let c = listed[n - 1];
        assert(listed.contains(c));
        if !held(entries, c) {
            assert(before.push(c)[before.len() as int] == c);
            assert forall|u: Uuid| #[trigger] before.contains(u) implies before.push(c).contains(u) by {
                let k = choose|k: int| 0 <= k < before.len() && before[k] == u;
                assert(before.push(c)[k] == u);
            }
            assert forall|u: Uuid| #[trigger] before.push(c).contains(u) implies before.contains(u)
                || u == c by {
                let k = choose|k: int| 0 <= k <= before.len() && before.push(c)[k] == u;
                if k < before.len() {
                    assert(before[k] == u);
                }
            }
        }
    }
}

/// A candidate that is listed, while no other candidate is, is the one that was
/// enrolled, whatever else is listed.
pub proof fn listed_candidate_was_enrolled(
    candidates: Seq<Uuid>,
    listed: Seq<Uuid>,
    entries: Seq<Identity>,
    u: Uuid,
)
    requires
        candidates.contains(u),
        listed.contains(u),
        forall|v: Uuid| #[trigger] candidates.contains(v) && listed.contains(v) ==> v == u,
    ensures
        just_enrolled(candidates, listed, entries) == Some(u),
{
    let n = candidates.len() as int;
    confirmed_is_complete(candidates, listed, n);
    let c = confirmed(candidates, listed, n);
    let k = choose|k: int| 0 <= k < candidates.len() && candidates[k] == u;
    assert(listed.contains(candidates[k]));
    assert(c.contains(u));
    confirmed_once(candidates, listed, n);
    assert forall|i: int| 0 <= i < c.len() implies c[i] == u by {
        assert(c.contains(c[i]));
    }
    if c.len() > 1 {
        assert(c[0] == c[1]);
    }
}

/// Nothing is confirmed twice.
proof fn confirmed_once(candidates: Seq<Uuid>, listed: Seq<Uuid>, n: int)
    ensures
        forall|i: int, j: int|
            0 <= i < j < confirmed(candidates, listed, n).len() ==> confirmed(
                candidates,
                listed,
                n,
            )[i] != confirmed(candidates, listed, n)[j],
    decreases n,
{
    if n > 0 {
        confirmed_once(candidates, listed, n - 1);
        let before = confirmed(candidates, listed, n - 1);
        let c = candidates[n - 1];
        if listed.contains(c) && !before.contains(c) {
            assert forall|i: int| 0 <= i < before.len() implies before[i] != c by {
                assert(before.contains(before[i]));
            }
        }
    }
}

/// Where no candidate is listed and nothing is new, or two different candidates are
/// listed and nothing is new, it is not told which was enrolled.
pub proof fn doubt_names_nothing(candidates: Seq<Uuid>, listed: Seq<Uuid>, entries: Seq<Identity>)
    requires
        forall|i: int| 0 <= i < listed.len() ==> held(entries, #[trigger] listed[i]),
    ensures
        (forall|v: Uuid| #[trigger] candidates.contains(v) ==> !listed.contains(v))
            ==> just_enrolled(candidates, listed, entries) is None,
        (exists|u: Uuid, v: Uuid|
            u != v && #[trigger] candidates.contains(u) && #[trigger] candidates.contains(v)
                && listed.contains(u) && listed.contains(v)) ==> just_enrolled(
            candidates,
            listed,
            entries,
        ) is None,
{
    let n = candidates.len() as int;
    confirmed_is_complete(candidates, listed, n);
    news_are_complete(listed, entries, listed.len() as int);
    let c = confirmed(candidates, listed, n);
    let w = news(listed, entries, listed.len() as int);
    if w.len() > 0 {
        assert(w.contains(w[0]));
        let k = choose|k: int| 0 <= k < listed.len() && listed[k] == w[0];
        assert(held(entries, listed[k]));
    }
    if forall|v: Uuid| #[trigger] candidates.contains(v) ==> !listed.contains(v) {
        if c.len() > 0 {
            assert(c.contains(c[0]));
        }
    }
    if exists|u: Uuid, v: Uuid|
        u != v && #[trigger] candidates.contains(u) && #[trigger] candidates.contains(v)
            && listed.contains(u) && listed.contains(v) {
        let (u, v) = choose|u: Uuid, v: Uuid|
            u != v && #[trigger] candidates.contains(u) && #[trigger] candidates.contains(v)
                && listed.contains(u) && listed.contains(v);
        let i = choose|i: int| 0 <= i < candidates.len() && candidates[i] == u;
        let j = choose|j: int| 0 <= j < candidates.len() && candidates[j] == v;
        assert(listed.contains(candidates[i]) && listed.contains(candidates[j]));
        assert(c.contains(u) && c.contains(v));
        if c.len() == 1 {
            assert(c[0] == u && c[0] == v);
        }
    }
}

/// Deleting an identity: the enclave is asked whether it lists it; unless it says no,
/// it is told to delete that very identity; and once it has, or had none, the index
/// forgets it. A refusal ends it.
pub proof fn identity_is_deleted(identity: IdentityV1, listed: DeleteEvent, e: DeleteEvent)
    ensures
        ({
            let m0 = DeleteIdentity { identity, stage: DeleteStage::List };
            let (m1, a1) = delete_step(m0, listed);
            let (m2, a2) = delete_step(m1, DeleteEvent::Reply(Verdict::Accepted));
            let (m3, a3) = delete_step(m2, e);
            &&& listed == DeleteEvent::Lists(Some(false)) ==> a1 == DeleteAsk::Forget(identity.uuid)
                && delete_step(m1, e).1 == DeleteAsk::Done(None)
            &&& listed != DeleteEvent::Lists(Some(false)) ==> a1 == DeleteAsk::Call(
                Call::DeleteIdentity(identity),
            ) && a2 == DeleteAsk::Forget(identity.uuid) && a3 == DeleteAsk::Done(None)
            &&& listed != DeleteEvent::Lists(Some(false)) && e != DeleteEvent::Reply(
                Verdict::Accepted,
            ) ==> delete_step(m1, e).1 == DeleteAsk::Done(Some(Errno::EIO))
        }),
{
}

/// Activating asks for its steps in this order, and it has started exactly when the
/// last was done.
pub proof fn activation_in_order(secret: Seq<u8>, h: KeyBagHandle, u: Uuid)
    ensures
        ({
            let done: ActivateEventView = ActivateEvent::Result(None);
            let told: ActivateEventView = ActivateEvent::Told;
            let (m0, a0) = activate_start(false, false);
            let (m1, a1) = activate_step(m0, done);
            let (m2, a2) = activate_step(m1, done);
            let (m3, a3) = activate_step(m2, told);
            let (m4, a4) = activate_step(m3, done);
            let (m5, a5) = activate_step(m4, ActivateEvent::Keybag(Ok(Some(secret))));
            let (m6, a6) = activate_step(m5, ActivateEvent::Worked(true));
            let (m7, a7) = activate_step(m6, ActivateEvent::Recovered(Some((h, u))));
            let (m8, a8) = activate_step(m7, told);
            let (m9, a9) = activate_step(m8, told);
            let (n1, b1) = activate_step(m9, told);
            let (n2, b2) = activate_step(n1, told);
            let (n3, b3) = activate_step(n2, told);
            &&& a0 == ActivateAskView::OpenStore
            &&& a1 == ActivateAskView::LoadIndex
            &&& a2 == ActivateAskView::AttachSensor
            &&& a3 == ActivateAskView::RegisterBuffers
            &&& a4 == ActivateAskView::ReadKeybag
            &&& a5 == ActivateAskView::KeyStoreReady
            &&& a6 == ActivateAskView::RecoverKeybag
            &&& a7 == ActivateAskView::DesignateKeybag(h, secret)
            &&& a8 == ActivateAskView::PrepareMachineRefkey(h, secret)
            &&& a9 == ActivateAskView::ColdMatch(h, u)
            &&& b1 == ActivateAskView::RestoreTemplates
            &&& b2 == ActivateAskView::BringSensorUp
            &&& b3 == ActivateAskView::Done(None)
            &&& !n2.started
            &&& n3.started
            &&& !n3.failed
        }),
{
}

/// Why an activation fails: the store, the index and the buffers say why themselves;
/// without a key bag there is no entry, without a key store no device, and a bag that
/// cannot be loaded is an I/O error. A sensor that cannot be attached fails nothing.
pub proof fn activation_faults(m: ActivateView, err: Errno)
    ensures
        m.stage is Store || m.stage is Index || m.stage is Buffers ==> activate_step(
            m,
            ActivateEvent::Result(Some(err)),
        ).1 == ActivateAskView::Done(Some(err)),
        m.stage is Sensor ==> activate_step(m, ActivateEvent::Result(Some(err))).1
            == ActivateAskView::RegisterBuffers,
        m.stage is Keybag ==> activate_step(m, ActivateEvent::Keybag(Ok(None))).1
            == ActivateAskView::Done(Some(Errno::ENOENT)),
        m.stage is Keybag ==> activate_step(m, ActivateEvent::Keybag(Err(err))).1
            == ActivateAskView::Done(Some(err)),
        m.stage is KeyStore ==> activate_step(m, ActivateEvent::Worked(false)).1
            == ActivateAskView::Done(Some(Errno::ENODEV)),
        m.stage is Recover ==> activate_step(m, ActivateEvent::Recovered(None)).1
            == ActivateAskView::Done(Some(Errno::EIO)),
        activate_start(true, false).1 == ActivateAskView::Done(None),
        activate_start(false, true).1 == ActivateAskView::Done(Some(Errno::EIO)),
{
}

/// Starting up: the key store is enabled, a bag is made where one is wanted and may be,
/// and the device is published. Without a key store, or where a bag that is wanted
/// cannot be made, nothing is published.
pub proof fn startup_in_order(provision: bool, xart_writes: bool, enabled: bool, made: bool)
    ensures
        ({
            let m0 = Startup { stage: StartupStage::KeyStore, provision, xart_writes };
            let (m1, a1) = startup_step(m0, enabled);
            let (m2, a2) = startup_step(m1, made);
            &&& !enabled ==> a1 == StartupAsk::Done
            &&& enabled && !provision ==> a1 == StartupAsk::PublishDevice && a2 == StartupAsk::Done
            &&& enabled && provision && !xart_writes ==> a1 == StartupAsk::Done
            &&& enabled && provision && xart_writes ==> a1 == StartupAsk::ProvisionKeybag && a2
                == if made {
                StartupAsk::PublishDevice
            } else {
                StartupAsk::Done
            }
        }),
{
}

/// Giving the templates back asks, where a bag is designated, for the stored bag, a
/// health check and the unlocking of bag -1000 with the stored secret, and then in any
/// case for a context. Where they cannot be given back that is the end.
pub proof fn templates_are_given_back(secret: Seq<u8>, healthy: Healthy, e: RestoredEventView)
    ensures
        ({
            let m0 = EnsureRestored {
                stage: RestoredStage::Restore,
                designated: true,
                restored: false,
                secret: None::<Seq<u8>>,
            };
            let (m1, a1) = ensure_step(m0, RestoredEvent::Worked(true));
            let (m2, a2) = ensure_step(m1, RestoredEvent::Keybag(Some(secret)));
            let (m3, a3) = ensure_step(m2, RestoredEvent::Health(Some(healthy)));
            let (m4, a4) = ensure_step(m3, e);
            let (m5, a5) = ensure_step(m4, e);
            &&& a1 == RestoredAskView::ReadKeybag
            &&& a2 == RestoredAskView::CheckHealth
            &&& a3 matches RestoredAsk::Unlock(s, b, p)
            &&& s.0 == -1000
            &&& b == secret
            &&& p == healthy
            &&& a4 == RestoredAskView::EstablishMatchContext
            &&& a5 == RestoredAskView::Done
            &&& m5.restored
            &&& ensure_step(m0, RestoredEvent::Worked(false)).1 == RestoredAskView::Done
            &&& !ensure_step(m0, RestoredEvent::Worked(false)).0.restored
            &&& ensure_step(m1, RestoredEvent::Keybag(None)).1
                == RestoredAskView::EstablishMatchContext
            &&& ensure_step(m2, RestoredEvent::Health(None)).1
                == RestoredAskView::EstablishMatchContext
        }),
{
}

/// An attestation is 176 bytes: the signature's length, the challenge, the public
/// half, the signature, and zeros behind it.
pub proof fn attestation_is_laid_out(challenge: Seq<u8>, public: Seq<u8>, sig: Seq<u8>)
    requires
        challenge.len() == 32,
        public.len() == 65,
        sig.len() <= 72,
    ensures
        ({
            let a = attest_bytes(challenge, public, sig);
            &&& a.len() == 176
            &&& crate::bytes::u32_at(a, 0) == sig.len()
            &&& a.subrange(4, 36) == challenge
            &&& a.subrange(36, 101) == public
            &&& a.subrange(101, 101 + sig.len() as int) == sig
            &&& forall|i: int| 101 + sig.len() <= i < 176 ==> a[i] == 0
        }),
{
    broadcast use crate::bytes::group_le;

    let a = attest_bytes(challenge, public, sig);
    assert(a.subrange(0, 4) =~= u32_le(sig.len() as int));
    crate::bytes::u32_reads_back(a, 0, sig.len() as int);
    assert(a.subrange(4, 36) =~= challenge);
    assert(a.subrange(36, 101) =~= public);
    assert(a.subrange(101, 101 + sig.len() as int) =~= sig);
}

/// Random words give four bytes each, the lowest first, and as many words are drawn as
/// the bytes need.
pub proof fn words_fill_bytes(len: int, words: Seq<u32>, n: int, i: int)
    requires
        0 <= len,
        0 <= i < n <= words.len(),
    ensures
        4 * words_for(len) >= len,
        4 * words_for(len) < len + 4,
        word_bytes(words, n).len() == 4 * n,
        crate::bytes::u32_at(word_bytes(words, n), 4 * i) == words[i],
    decreases n,
{
    broadcast use crate::bytes::group_le;

    words_take_four(words, n);
    words_take_four(words, n - 1);
    let all = word_bytes(words, n);
    let before = word_bytes(words, n - 1);
    if i < n - 1 {
        words_fill_bytes(len, words, n - 1, i);
        assert(crate::bytes::u32_at(all, 4 * i) == crate::bytes::u32_at(before, 4 * i));
    } else {
        assert(all.subrange(4 * i, 4 * i + 4) =~= u32_le(words[i] as int));
        crate::bytes::u32_reads_back(all, 4 * i, words[i] as int);
    }
}

proof fn words_take_four(words: Seq<u32>, n: int)
    requires
        0 <= n <= words.len(),
    ensures
        word_bytes(words, n).len() == 4 * n,
    decreases n,
{
    broadcast use crate::bytes::group_le;

    if n > 0 {
        words_take_four(words, n - 1);
    }
}

} // verus!
