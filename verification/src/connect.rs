//! The connect handshake: which candidate to open next, which one to adopt,
//! and when to give up. The caller enumerates and opens; the handshake keeps
//! the order and decides.

use vstd::prelude::*;
use crate::kind::DeckKind;

verus! {

/// Why no session could be set up.
#[derive(Clone, Copy, Debug, PartialEq, Eq, Structural)]
pub enum ConnectError {
    /// The HID backend could not be brought up.
    NoHidBackend,
    /// No candidate was enumerated, or none of them could be opened.
    NoDeviceFound,
    /// Candidates were found, but the handshake did not get as far as
    /// adopting one.
    ConnectFailed,
}

/// What the handshake asks of its caller next.
#[derive(Clone, Copy, Debug, PartialEq, Eq, Structural)]
pub enum ConnectAction {
    /// Try to open the candidate at this position of the enumeration.
    Open(usize),
    /// The candidate at this position opened: adopt it.
    Adopt(usize),
    /// Give up with this error.
    Fail(ConnectError),
}

/// The handshake as a mathematical value.
pub struct HandshakeModel {
    /// Whether the HID backend came up.
    pub backend: bool,
    /// The candidates, in enumeration order.
    pub candidates: Seq<DeckKind>,
    /// How many candidates, from the front, were tried and refused.
    pub refused: int,
    /// Whether the candidate after the refused ones opened.
    pub adopted: bool,
}

impl HandshakeModel {
    /// The refused candidates are a prefix of the enumeration, and an adopted
    /// candidate is one of the enumeration.
    pub open spec fn wf(self) -> bool {
        &&& 0 <= self.refused <= self.candidates.len()
        &&& self.candidates.len() <= usize::MAX
        &&& self.adopted ==> self.refused < self.candidates.len()
    }

    /// The handshake before the first attempt.
    pub open spec fn start(backend: bool, candidates: Seq<DeckKind>) -> HandshakeModel {
        HandshakeModel { backend, candidates, refused: 0, adopted: false }
    }

    /// What the caller is to do next. Without a backend there is nothing to
    /// try. Otherwise candidates are tried in enumeration order: the first
    /// that opens is adopted, and when all were refused, or there were none,
    /// no device was found.
    pub open spec fn action(self) -> ConnectAction {
        if !self.backend {
            ConnectAction::Fail(ConnectError::NoHidBackend)
        } else if self.adopted {
            ConnectAction::Adopt(self.refused as usize)
        } else if self.refused < self.candidates.len() {
            ConnectAction::Open(self.refused as usize)
        } else {
            ConnectAction::Fail(ConnectError::NoDeviceFound)
        }
    }

    /// The handshake after the attempt it asked for ended as `opened` says.
    /// A handshake that asked for no attempt stays as it is.
    pub open spec fn step(self, opened: bool) -> HandshakeModel {
        if self.action() is Open {
            if opened {
                HandshakeModel { adopted: true, ..self }
            } else {
                HandshakeModel { refused: self.refused + 1, ..self }
            }
        } else {
            self
        }
    }

    /// The handshake after a run of attempts with the given outcomes, the
    /// first outcome belonging to the first attempt.
    pub open spec fn run(self, outcomes: Seq<bool>) -> HandshakeModel
        decreases outcomes.len(),
    {
        if outcomes.len() == 0 {
            self
        } else {
            self.step(outcomes[0]).run(outcomes.skip(1))
        }
    }

    /// The kind of the adopted candidate, once there is one.
    pub open spec fn adopted_kind(self) -> Option<DeckKind> {
        if self.backend && self.adopted {
            Some(self.candidates[self.refused])
        } else {
            None
        }
    }
}

/// The state of one connect handshake.
#[derive(Debug)]
pub struct Handshake {
    backend: bool,
    candidates: Vec<DeckKind>,
    refused: usize,
    adopted: bool,
}

impl View for Handshake {
    type V = HandshakeModel;

    closed spec fn view(&self) -> HandshakeModel {
        HandshakeModel {
            backend: self.backend,
            candidates: self.candidates@,
            refused: self.refused as int,
            adopted: self.adopted,
        }
    }
}

impl Handshake {
    #[verifier::type_invariant]
    spec fn inv(&self) -> bool {
        self@.wf()
    }

    /// Starts a handshake. `backend` says whether the HID backend came up,
    /// `candidates` is what the enumeration yielded, in its order.
    pub fn begin(backend: bool, candidates: Vec<DeckKind>) -> (handshake: Handshake)
        ensures
            handshake@ == HandshakeModel::start(backend, candidates@),
            handshake@.wf(),
    {
        let total: usize = candidates.len();
        assert(candidates@.len() == total);
        Handshake { backend, candidates, refused: 0, adopted: false }
    }

    /// Returns what the caller is to do next.
    pub fn action(&self) -> (action: ConnectAction)
        ensures
            action == self@.action(),
            self@.wf(),
    {
        proof {
            use_type_invariant(self);
        }
        if !self.backend {
            ConnectAction::Fail(ConnectError::NoHidBackend)
        } else if self.adopted {
            ConnectAction::Adopt(self.refused)
        } else if self.refused < self.candidates.len() {
            ConnectAction::Open(self.refused)
        } else {
            ConnectAction::Fail(ConnectError::NoDeviceFound)
        }
    }

    /// Reports that the candidate the handshake asked to open did open. The
    /// handshake stops there and asks to adopt it. Where it had asked for no
    /// attempt, nothing changes.
    pub fn opened(&mut self)
        ensures
            final(self)@ == old(self)@.step(true),
            final(self)@.wf(),
    {
        proof {
            use_type_invariant(&*self);
        }
        if self.backend && !self.adopted && self.refused < self.candidates.len() {
            self.adopted = true;
        }
    }

    /// Reports that the candidate the handshake asked to open could not be
    /// opened. The handshake moves on to the next candidate, or fails where
    /// that was the last. Where it had asked for no attempt, nothing changes.
    pub fn refused(&mut self)
        ensures
            final(self)@ == old(self)@.step(false),
            final(self)@.wf(),
    {
        proof {
            use_type_invariant(&*self);
        }
        if self.backend && !self.adopted && self.refused < self.candidates.len() {
            self.refused = self.refused + 1;
        }
    }

    /// Returns the kind of the adopted candidate, once there is one.
    pub fn adopted_kind(&self) -> (kind: Option<DeckKind>)
        ensures
            kind == self@.adopted_kind(),
            self@.wf(),
    {
        proof {
            use_type_invariant(self);
        }
        if self.backend && self.adopted {
            Some(self.candidates[self.refused])
        } else {
            None
        }
    }
}

/// Running on from a handshake that asks for no attempt changes nothing.
proof fn lemma_run_settled(model: HandshakeModel, outcomes: Seq<bool>)
    requires
        !(model.action() is Open),
    ensures
        model.run(outcomes) == model,
    decreases outcomes.len(),
{
    if outcomes.len() > 0 {
        lemma_run_settled(model, outcomes.skip(1));
    }
}

/// A run of refusals moves the handshake on by as many candidates.
proof fn lemma_run_refusals(model: HandshakeModel, outcomes: Seq<bool>)
    requires
        model.wf(),
        model.backend,
        !model.adopted,
        model.refused + outcomes.len() <= model.candidates.len(),
        forall|j: int| 0 <= j < outcomes.len() ==> !outcomes[j],
    ensures
        model.run(outcomes) == (HandshakeModel {
            refused: model.refused + outcomes.len(),
            ..model
        }),
    decreases outcomes.len(),
{
    if outcomes.len() > 0 {
        let next = model.step(outcomes[0]);
        lemma_run_refusals(next, outcomes.skip(1));
    }
}

/// Without a backend the handshake fails at once, whatever was enumerated and
/// whatever is reported to it.
pub proof fn lemma_no_backend(candidates: Seq<DeckKind>, outcomes: Seq<bool>)
    ensures
        HandshakeModel::start(false, candidates).run(outcomes).action() == ConnectAction::Fail(
            ConnectError::NoHidBackend,
        ),
{
    lemma_run_settled(HandshakeModel::start(false, candidates), outcomes);
}

/// An empty enumeration fails with `NoDeviceFound` before any attempt, and
/// no device is adopted.
pub proof fn lemma_nothing_enumerated(outcomes: Seq<bool>)
    ensures
        HandshakeModel::start(true, Seq::empty()).action() == ConnectAction::Fail(
            ConnectError::NoDeviceFound,
        ),
        HandshakeModel::start(true, Seq::empty()).run(outcomes).action() == ConnectAction::Fail(
            ConnectError::NoDeviceFound,
        ),
        HandshakeModel::start(true, Seq::empty()).run(outcomes).adopted_kind() is None,
{
    lemma_run_settled(HandshakeModel::start(true, Seq::empty()), outcomes);
}

/// The first candidate that opens wins: where attempt `i` is the first to
/// succeed, the handshake adopts candidate `i`, and nothing reported after
/// that changes it.
pub proof fn lemma_first_that_opens_wins(candidates: Seq<DeckKind>, outcomes: Seq<bool>, i: int)
    requires
        candidates.len() <= usize::MAX,
        0 <= i < outcomes.len(),
        i < candidates.len(),
        outcomes[i],
        forall|j: int| 0 <= j < i ==> !outcomes[j],
    ensures
        HandshakeModel::start(true, candidates).run(outcomes).action() == ConnectAction::Adopt(
            i as usize,
        ),
        HandshakeModel::start(true, candidates).run(outcomes).adopted_kind() == Some(
            candidates[i],
        ),
{
    let start = HandshakeModel::start(true, candidates);
    let at_i = HandshakeModel { refused: i, ..start };
    lemma_run_split(start, outcomes, i);
    lemma_run_refusals(start, outcomes.take(i));
    assert(start.run(outcomes.take(i)) == at_i);
    let rest = outcomes.skip(i);
    assert(rest[0] == outcomes[i]);
    let won = at_i.step(true);
    assert(at_i.run(rest) == won.run(rest.skip(1)));
    lemma_run_settled(won, rest.skip(1));
}

/// Where every candidate is refused, the handshake fails with
/// `NoDeviceFound` once the last one was tried, and adopts nothing.
pub proof fn lemma_all_refused(candidates: Seq<DeckKind>, outcomes: Seq<bool>)
    requires
        candidates.len() <= usize::MAX,
        outcomes.len() >= candidates.len(),
        forall|j: int| 0 <= j < candidates.len() ==> !outcomes[j],
    ensures
        HandshakeModel::start(true, candidates).run(outcomes).action() == ConnectAction::Fail(
            ConnectError::NoDeviceFound,
        ),
        HandshakeModel::start(true, candidates).run(outcomes).adopted_kind() is None,
{
    let start = HandshakeModel::start(true, candidates);
    let n = candidates.len() as int;
    let spent = HandshakeModel { refused: n, ..start };
    lemma_run_split(start, outcomes, n);
    lemma_run_refusals(start, outcomes.take(n));
    assert(start.run(outcomes.take(n)) == spent);
    lemma_run_settled(spent, outcomes.skip(n));
}

/// While candidates are left and none has opened, the handshake asks for the
/// next one in enumeration order.
pub proof fn lemma_tries_in_order(candidates: Seq<DeckKind>, outcomes: Seq<bool>)
    requires
        candidates.len() <= usize::MAX,
        outcomes.len() < candidates.len(),
        forall|j: int| 0 <= j < outcomes.len() ==> !outcomes[j],
    ensures
        HandshakeModel::start(true, candidates).run(outcomes).action() == ConnectAction::Open(
            outcomes.len() as usize,
        ),
{
    lemma_run_refusals(HandshakeModel::start(true, candidates), outcomes);
}

/// A run can be cut in two at any point.
proof fn lemma_run_split(model: HandshakeModel, outcomes: Seq<bool>, at: int)
    requires
        0 <= at <= outcomes.len(),
    ensures
        model.run(outcomes) == model.run(outcomes.take(at)).run(outcomes.skip(at)),
    decreases at,
{
    if at == 0 {
        assert(outcomes.take(0) =~= Seq::<bool>::empty());
        assert(outcomes.skip(0) =~= outcomes);
    } else {
        let head = outcomes.take(at);
        assert(head[0] == outcomes[0]);
        assert(head.skip(1) =~= outcomes.skip(1).take(at - 1));
        assert(outcomes.skip(1).skip(at - 1) =~= outcomes.skip(at));
        lemma_run_split(model.step(outcomes[0]), outcomes.skip(1), at - 1);
    }
}

} // verus!
