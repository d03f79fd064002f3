//! The session with one deck: what it is connected to, the sequences it
//! runs against the device, the decode loop it hands out, one at a time, and
//! the events it passes on.

use vstd::prelude::*;
use crate::connect::{ConnectAction, ConnectError, Handshake, HandshakeModel};
use crate::event::{DeckEvent, InputEvent, Notice, has_sentinel};
use crate::kind::{DeckKind, PanelSize};
use crate::listen::{Listener, LoopInput, LoopState, after_batch, loop_next};
use crate::setup::{Script, Setup, SetupModel};

verus! {

/// Why a session hands out no decode loop.
#[derive(Clone, Copy, Debug, PartialEq, Eq, Structural)]
pub enum ListenError {
    /// The loop that the session handed out before has not ended, or has not
    /// been handed back since.
    AlreadyListening,
}

/// A session as a mathematical value.
pub struct DeckModel {
    /// What the connected deck is.
    pub kind: DeckKind,
    /// The panel size the session works with.
    pub size: PanelSize,
    /// Whether a decode loop is out: handed out, and not yet handed back
    /// after its end.
    pub listening: bool,
}

impl DeckModel {
    /// The session as it is right after the connect, for a deck of `kind`.
    pub open spec fn connected(kind: DeckKind) -> DeckModel {
        DeckModel { kind, size: kind.panel_or_default(), listening: false }
    }

    /// The size is the one of the deck's panel, or the default.
    pub open spec fn wf(self) -> bool {
        self.size == self.kind.panel_or_default()
    }

    /// The session after `listen` was called: a loop is out, be it the one
    /// just handed out or the one that was out already.
    pub open spec fn handed_out(self) -> DeckModel {
        DeckModel { listening: true, ..self }
    }

    /// The session after a loop in `phase` was handed back: a terminated
    /// loop is kept and no loop is out any more, any other loop goes back to
    /// its task and the session stays as it is.
    pub open spec fn taken_back(self, phase: LoopState) -> DeckModel {
        DeckModel { listening: self.listening && !(phase is Terminated), ..self }
    }
}

/// The session with one connected deck.
#[derive(Debug)]
pub struct Deck {
    kind: DeckKind,
    size: PanelSize,
    listening: bool,
}

impl View for Deck {
    type V = DeckModel;

    closed spec fn view(&self) -> DeckModel {
        DeckModel { kind: self.kind, size: self.size, listening: self.listening }
    }
}

/// The error of a connect attempt whose handshake adopted no deck: the one
/// the handshake failed with, or `ConnectFailed` where the handshake was left
/// while it still waited for an attempt.
pub open spec fn connect_error(handshake: HandshakeModel) -> ConnectError {
    match handshake.action() {
        ConnectAction::Fail(error) => error,
        _ => ConnectError::ConnectFailed,
    }
}

impl Deck {
    #[verifier::type_invariant]
    spec fn inv(&self) -> bool {
        self@.wf()
    }

    /// Sets up the session at the end of a connect handshake, which is used
    /// up: one handshake gives at most one session. A session is made if and
    /// only if the handshake adopted a deck, and it is a session with that
    /// deck. A handshake that failed gives its error: no backend, or no
    /// device found where nothing was enumerated or nothing opened. A
    /// handshake that still waits for an attempt gives `ConnectFailed`.
    pub fn new(handshake: Handshake) -> (made: Result<Deck, ConnectError>)
        ensures
            made is Ok == handshake@.action() is Adopt,
            made matches Ok(deck) ==> handshake@.adopted_kind() is Some && deck@
                == DeckModel::connected(handshake@.adopted_kind()->Some_0),
            made matches Err(error) ==> error == connect_error(handshake@),
    {
        match handshake.adopted_kind() {
            Some(kind) => Ok(Deck { kind, size: kind.size(), listening: false }),
            None => match handshake.action() {
                ConnectAction::Fail(error) => Err(error),
                _ => Err(ConnectError::ConnectFailed),
            },
        }
    }

    /// Returns what the connected deck is. This is fixed for the life of the
    /// session.
    pub fn kind(&self) -> (kind: DeckKind)
        ensures
            kind == self@.kind,
    {
        self.kind
    }

    /// Returns the number of keys of the connected deck.
    pub fn key_count(&self) -> (count: u8)
        ensures
            count == self@.kind.key_count,
    {
        self.kind.key_count
    }

    /// Returns the panel size the session works with: the deck's own, or the
    /// default where it has none.
    pub fn size(&self) -> (size: PanelSize)
        ensures
            size == self@.size,
            size == self@.kind.panel_or_default(),
    {
        proof {
            use_type_invariant(self);
        }
        self.size
    }

    /// Tells whether a decode loop is out: handed out, and not yet handed
    /// back after its end.
    pub fn is_listening(&self) -> (listening: bool)
        ensures
            listening == self@.listening,
    {
        self.listening
    }

    /// Starts a reset of the device: the background image, the brightness,
    /// one image per key, the flush, in this order. The caller performs the
    /// steps and reports on each.
    pub fn reset(&self) -> (setup: Setup)
        ensures
            setup@ == SetupModel::start(Script::Reset, self@.kind.key_count),
    {
        Setup::begin(Script::Reset, self.kind.key_count)
    }

    /// Starts a bare reset of the device: the background image, the
    /// brightness, all key images cleared, the flush, in this order.
    pub fn reset_bare(&self) -> (setup: Setup)
        ensures
            setup@ == SetupModel::start(Script::ResetBare, self@.kind.key_count),
    {
        Setup::begin(Script::ResetBare, self.kind.key_count)
    }

    /// Starts a key test: one sample image per key, then the flush.
    pub fn test_keys(&self) -> (setup: Setup)
        ensures
            setup@ == SetupModel::start(Script::TestKeys, self@.kind.key_count),
    {
        Setup::begin(Script::TestKeys, self.kind.key_count)
    }

    /// Hands out a decode loop, for the task that is to run it: idle, and set
    /// to the number of keys of the deck. One loop runs per session at a
    /// time: a loop is handed out whenever none is out, and refused while the
    /// one handed out before is. A loop stops being out when it is handed
    /// back after its end, see `loop_ended`. Nothing else about the session
    /// changes.
    pub fn listen(&mut self) -> (handle: Result<Listener, ListenError>)
        ensures
            final(self)@ == old(self)@.handed_out(),
            handle is Ok == !old(self)@.listening,
            handle matches Ok(listener) ==> listener.keys() == old(self)@.kind.key_count
                && listener.phase() == LoopState::Idle,
            handle matches Err(error) ==> error == ListenError::AlreadyListening,
    {
        proof {
            use_type_invariant(&*self);
        }
        if self.listening {
            Err(ListenError::AlreadyListening)
        } else {
            self.listening = true;
            Ok(Listener::new(self.kind.key_count))
        }
    }

    /// Takes back the decode loop from the task that ran it. A loop that has
    /// terminated, by the stop signal or by a read error, is kept: from then
    /// on no loop is out, and the next `listen` hands out a new one. A loop
    /// that has not terminated is returned to the caller as it is, and the
    /// session goes on counting it as out. Nothing else about the session
    /// changes.
    pub fn loop_ended(&mut self, listener: Listener) -> (back: Result<(), Listener>)
        ensures
            final(self)@ == old(self)@.taken_back(listener.phase()),
            back is Ok == (listener.phase() is Terminated),
            back matches Err(returned) ==> returned == listener,
    {
        proof {
            use_type_invariant(&*self);
        }
        match listener.state() {
            LoopState::Terminated => {
                self.listening = false;
                Ok(())
            },
            _ => Err(listener),
        }
    }

    /// Takes an event that a caller built and passes it on as the notice it
    /// is dispatched as, on the path that hardware input takes too. The
    /// device is not touched.
    pub fn emit(&self, event: DeckEvent) -> (notice: Notice)
        ensures
            notice == Notice::Emitted(event),
    {
        Notice::Emitted(event)
    }

    /// Takes the outcome of the caller's attempt to power the device down
    /// and says what to report. The attempt is best effort: a failure
    /// becomes a notice to log and is never an error of the session, and a
    /// success is reported by nothing.
    pub fn shutdown(&self, powered_down: bool) -> (notice: Option<Notice>)
        ensures
            notice == if powered_down {
                None
            } else {
                Some(Notice::ShutdownFailed)
            },
    {
        if powered_down {
            None
        } else {
            Some(Notice::ShutdownFailed)
        }
    }
}

/// A session listens again once its loop has ended. The stop signal and a
/// read error both terminate a reading loop, and when the terminated loop is
/// handed back no loop is out, so that the next `listen` is served.
pub proof fn lemma_listens_again_after_end(
    session: DeckModel,
    key_count: u8,
    batch: Seq<InputEvent>,
)
    requires
        has_sentinel(key_count, batch),
    ensures
        !session.handed_out().taken_back(
            after_batch(LoopState::Reading, key_count, batch),
        ).listening,
        !session.handed_out().taken_back(
            loop_next(LoopState::Reading, LoopInput::ReadFailed),
        ).listening,
{
}

/// While the loop that was handed out has not terminated, the session keeps
/// counting it as out, and a further `listen` is refused.
pub proof fn lemma_running_loop_stays_out(session: DeckModel, phase: LoopState)
    requires
        !(phase is Terminated),
    ensures
        session.handed_out().taken_back(phase).listening,
        session.handed_out().taken_back(phase) == session.handed_out(),
{
}

} // verus!
