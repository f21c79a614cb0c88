//! Hooks: the minimal executable units of a stage. A stateless hook may run
//! for many frames at once; a stateful hook serializes the frames of each
//! stream in strict ascending frame-number order, which the frame gate
//! enforces and records.

use vstd::prelude::*;
use crate::frame::Frame;
use crate::stage::Context;

verus! {

/// The three phases a stage can define, in their execution order.
#[derive(Debug, Clone, Copy, PartialEq, Eq, Structural)]
pub enum HookType {
    PreProcess,
    Process,
    PostProcess,
}

/// The string form of each phase.
pub open spec fn hook_type_chars(t: HookType) -> Seq<char> {
    match t {
        HookType::PreProcess => seq!['p', 'r', 'e', '_', 'p', 'r', 'o', 'c', 'e', 's', 's'],
        HookType::Process => seq!['p', 'r', 'o', 'c', 'e', 's', 's'],
        HookType::PostProcess => seq!['p', 'o', 's', 't', '_', 'p', 'r', 'o', 'c', 'e', 's', 's'],
    }
}

impl HookType {
    /// The phase's name as users see it.
    pub fn to_str(&self) -> (r: &'static str)
        ensures
            r@ == hook_type_chars(*self),
    {
        match self {
            HookType::PreProcess => {
                proof {
                    reveal_strlit("pre_process");
                    assert("pre_process"@ =~= hook_type_chars(HookType::PreProcess));
                }
                "pre_process"
            },
            HookType::Process => {
                proof {
                    reveal_strlit("process");
                    assert("process"@ =~= hook_type_chars(HookType::Process));
                }
                "process"
            },
            HookType::PostProcess => {
                proof {
                    reveal_strlit("post_process");
                    assert("post_process"@ =~= hook_type_chars(HookType::PostProcess));
                }
                "post_process"
            },
        }
    }
}

/// The capability a hook body offers: take one frame, return the processed
/// frame, or nothing to drop it. Bodies are supplied by the embedding layers
/// and user code; the runtime assumes nothing about what they compute.
pub trait HookTrait<C> {
    /// Processes one frame against the stage's shared context.
    fn exec_hook(&self, frame: Frame, stage_context: &Context<C>) -> Option<Frame>;
}

/// The per-stream frame numbers a gate has admitted so far: 1 up to `n`.
pub open spec fn counting_seq(n: u64) -> Seq<u64> {
    Seq::new(n as nat, |i: int| (i + 1) as u64)
}

/// The ordering gate of one stateful hook: per stream, it admits frame `n`
/// only after frame `n - 1`, and records what it admitted.
pub struct FrameGate {
    last: Vec<(u128, u64)>,
    model: Ghost<Map<u128, u64>>,
    history: Ghost<Map<u128, Seq<u64>>>,
}

impl FrameGate {
    /// The last frame number processed for a stream; zero before the first.
    pub closed spec fn last_of(&self, pid: u128) -> u64 {
        if self.model@.dom().contains(pid) {
            self.model@[pid]
        } else {
            0
        }
    }

    /// The frame numbers admitted for a stream, in admission order.
    pub closed spec fn history_of(&self, pid: u128) -> Seq<u64> {
        if self.history@.dom().contains(pid) {
            self.history@[pid]
        } else {
            Seq::<u64>::empty()
        }
    }

    /// Invariant of the ordering state: the backing list has one entry per
    /// stream, the ghost map mirrors it, and each stream's admission history
    /// is exactly the numbers 1 up to its last admitted frame.
    pub closed spec fn wf(&self) -> bool {
        &&& forall|i: int, j: int|
            0 <= i < j < self.last@.len() ==> self.last@[i].0 != self.last@[j].0
        &&& forall|i: int|
            0 <= i < self.last@.len() ==> self.model@.dom().contains(#[trigger] self.last@[i].0)
                && self.model@[self.last@[i].0] == self.last@[i].1
        &&& forall|pid: u128|
            self.model@.dom().contains(pid) ==> exists|i: int|
                0 <= i < self.last@.len() && #[trigger] self.last@[i] == (pid, self.model@[pid])
        &&& forall|pid: u128| #[trigger] self.history_of(pid) == counting_seq(self.last_of(pid))
    }

    /// A fresh gate: nothing admitted for any stream.
    pub fn new() -> (r: FrameGate)
        ensures
            r.wf(),
            forall|pid: u128| #[trigger] r.last_of(pid) == 0,
            forall|pid: u128| #[trigger] r.history_of(pid) == Seq::<u64>::empty(),
    {
        let r = FrameGate {
            last: Vec::new(),
            model: Ghost(Map::empty()),
            history: Ghost(Map::empty()),
        };
        proof {
            assert(forall|pid: u128| #[trigger] r.history_of(pid) =~= counting_seq(r.last_of(pid)));
        }
        r
    }

    /// The last frame number processed for a stream.
    pub fn last_processed_frame_number(&self, pid: u128) -> (r: u64)
        requires
            self.wf(),
        ensures
            r == self.last_of(pid),
    {
        let n = self.last.len();
        let mut i: usize = 0;
        while i < n
            invariant
                i <= n,
                n == self.last@.len(),
                self.wf(),
                forall|j: int| 0 <= j < i ==> self.last@[j].0 != pid,
            decreases n - i,
        {
            let (key, value) = self.last[i];
            if key == pid {
                return value;
            }
            i = i + 1;
        }
        proof {
            if self.model@.dom().contains(pid) {
                let w = choose|w: int|
                    0 <= w < self.last@.len() && self.last@[w] == (pid, self.model@[pid]);
                assert(false);
            }
        }
        0
    }

    /// Whether frame `n` of a stream is next in line.
    pub fn ready(&self, pid: u128, n: u64) -> (r: bool)
        requires
            self.wf(),
        ensures
            r == (n as int == self.last_of(pid) + 1),
    {
        let last = self.last_processed_frame_number(pid);
        if last == u64::MAX {
            false
        } else {
            n == last + 1
        }
    }

    /// Records that frame `n` of a stream was processed; admission demands
    /// that it was next in line, so per stream the record grows as 1, 2, 3.
    pub fn increment_last_processed(&mut self, pid: u128, n: u64)
        requires
            old(self).wf(),
            n as int == old(self).last_of(pid) + 1,
        ensures
            final(self).wf(),
            final(self).last_of(pid) == n,
            final(self).history_of(pid) == old(self).history_of(pid).push(n),
            forall|other: u128|
                other != pid ==> #[trigger] final(self).last_of(other) == old(self).last_of(other)
                    && final(self).history_of(other) == old(self).history_of(other),
    {
        let len = self.last.len();
        let mut i: usize = 0;
        while i < len
            invariant
                i <= len,
                len == self.last@.len(),
                self == old(self),
                old(self).wf(),
                n as int == old(self).last_of(pid) + 1,
                forall|j: int| 0 <= j < i ==> self.last@[j].0 != pid,
            decreases len - i,
        {
            let (key, _value) = self.last[i];
            if key == pid {
                let _ = self.last.remove(i);
                self.last.insert(i, (pid, n));
                proof {
                    self.model@ = old(self).model@.insert(pid, n);
                    self.history@ = old(self).history@.insert(
                        pid,
                        old(self).history_of(pid).push(n),
                    );
                    assert(counting_seq(n) =~= counting_seq((n - 1) as u64).push(n));
                    assert forall|q: u128| #[trigger] self.history_of(q) == counting_seq(
                        self.last_of(q),
                    ) by {
                        if q != pid {
                            assert(self.history_of(q) == old(self).history_of(q));
                            assert(self.last_of(q) == old(self).last_of(q));
                        }
                    };
                    assert forall|q: u128|
                        self.model@.dom().contains(q) implies exists|w: int|
                        0 <= w < self.last@.len() && #[trigger] self.last@[w] == (
                        q,
                        self.model@[q],
                        ) by {
                        if q == pid {
                            assert(self.last@[i as int] == (pid, n));
                        } else {
                            let w = choose|w: int|
                                0 <= w < old(self).last@.len() && #[trigger] old(self).last@[w]
                                    == (q, old(self).model@[q]);
                            assert(self.last@[w] == (q, self.model@[q]));
                        }
                    };
                }
                return;
            }
            i = i + 1;
        }
        proof {
            if old(self).model@.dom().contains(pid) {
                let w = choose|w: int|
                    0 <= w < old(self).last@.len() && old(self).last@[w] == (
                    pid,
                    old(self).model@[pid],
                    );
                assert(false);
            }
            assert(old(self).last_of(pid) == 0);
        }
        self.last.push((pid, n));
        proof {
            self.model@ = old(self).model@.insert(pid, n);
            self.history@ = old(self).history@.insert(pid, old(self).history_of(pid).push(n));
            assert(n == 1);
            assert(counting_seq(1) =~= Seq::<u64>::empty().push(1));
            assert(old(self).history_of(pid) =~= Seq::<u64>::empty());
            assert forall|q: u128| #[trigger] self.history_of(q) == counting_seq(
                self.last_of(q),
            ) by {
                if q != pid {
                    assert(self.history_of(q) == old(self).history_of(q));
                    assert(self.last_of(q) == old(self).last_of(q));
                }
            };
            assert forall|q: u128| self.model@.dom().contains(q) implies exists|w: int|
                0 <= w < self.last@.len() && #[trigger] self.last@[w] == (
                q,
                self.model@[q],
                ) by {
                if q == pid {
                    assert(self.last@[len as int] == (pid, n));
                } else {
                    let w = choose|w: int|
                        0 <= w < old(self).last@.len() && #[trigger] old(self).last@[w] == (
                        q,
                        old(self).model@[q],
                        );
                    assert(self.last@[w] == (q, self.model@[q]));
                }
            };
        }
    }
}

/// What a stateful hook observes per stream: exactly the frame numbers
/// 1, 2, 3, and so on — strictly increasing, without gaps.
pub proof fn lemma_stateful_observations_ordered(g: &FrameGate, pid: u128)
    requires
        g.wf(),
    ensures
        forall|i: int| 0 <= i < g.history_of(pid).len() ==> g.history_of(pid)[i] == i + 1,
        forall|i: int, j: int|
            0 <= i < j < g.history_of(pid).len() ==> g.history_of(pid)[i] < g.history_of(pid)[j],
{
}

/// A shareable hook: many frames may be inside its body at once.
pub struct StatelessHook<H> {
    h_type: HookType,
    h_body: H,
}

impl<H> StatelessHook<H> {
    /// The phase this hook implements.
    pub closed spec fn spec_hook_type(&self) -> HookType {
        self.h_type
    }

    /// The phase this hook implements.
    pub fn get_hook_type(&self) -> (r: HookType)
        ensures
            r == self.spec_hook_type(),
    {
        self.h_type
    }

    /// The hook's body.
    pub fn get_hook_body(&self) -> &H {
        &self.h_body
    }
}

/// An exclusive hook: the frames of each stream pass through one at a time,
/// in ascending frame-number order, watched by its frame gate.
pub struct StatefulHook<H> {
    h_type: HookType,
    h_body: H,
    gate: FrameGate,
}

impl<H> StatefulHook<H> {
    /// The phase this hook implements.
    pub closed spec fn spec_hook_type(&self) -> HookType {
        self.h_type
    }

    /// The ordering gate.
    pub closed spec fn spec_gate(&self) -> FrameGate {
        self.gate
    }

    /// The phase this hook implements.
    pub fn get_hook_type(&self) -> (r: HookType)
        ensures
            r == self.spec_hook_type(),
    {
        self.h_type
    }

    /// The hook's body.
    pub fn get_hook_body(&self) -> &H {
        &self.h_body
    }

    /// The last frame number this hook processed for a stream.
    pub fn last_processed_frame_number(&self, pid: u128) -> (r: u64)
        requires
            self.spec_gate().wf(),
        ensures
            r == self.spec_gate().last_of(pid),
    {
        self.gate.last_processed_frame_number(pid)
    }
}

/// A hook binding: the body together with its concurrency discipline.
/// Stateful or stateless is a property of the binding, not of the body.
pub enum Hook<H> {
    StatelessHook(StatelessHook<H>),
    StatefulHook(StatefulHook<H>),
}

impl<H> Hook<H> {
    /// The phase this hook implements.
    pub open spec fn spec_hook_type(&self) -> HookType {
        match self {
            Hook::StatelessHook(h) => h.spec_hook_type(),
            Hook::StatefulHook(h) => h.spec_hook_type(),
        }
    }

    /// Whether the binding is stateful.
    pub open spec fn spec_is_stateful(&self) -> bool {
        self is StatefulHook
    }

    /// Soundness of the ordering state; a stateless binding has none to maintain.
    pub open spec fn gate_wf(&self) -> bool {
        match self {
            Hook::StatelessHook(_) => true,
            Hook::StatefulHook(h) => h.spec_gate().wf(),
        }
    }

    /// The last admitted frame number for a stream; zero for stateless.
    pub open spec fn gate_last(&self, pid: u128) -> u64 {
        match self {
            Hook::StatelessHook(_) => 0,
            Hook::StatefulHook(h) => h.spec_gate().last_of(pid),
        }
    }

    /// The admitted frame numbers for a stream; empty for stateless.
    pub open spec fn gate_history(&self, pid: u128) -> Seq<u64> {
        match self {
            Hook::StatelessHook(_) => Seq::<u64>::empty(),
            Hook::StatefulHook(h) => h.spec_gate().history_of(pid),
        }
    }

    /// Wraps a body as a stateless hook for the given phase.
    pub fn new_stateless(hook_type: HookType, hook_body: H) -> (r: Self)
        ensures
            r.spec_hook_type() == hook_type,
            !r.spec_is_stateful(),
            r.gate_wf(),
    {
        Hook::StatelessHook(StatelessHook { h_type: hook_type, h_body: hook_body })
    }

    /// Wraps a body as a stateful hook for the given phase, with a fresh
    /// gate.
    pub fn new_stateful(hook_type: HookType, hook_body: H) -> (r: Self)
        ensures
            r.spec_hook_type() == hook_type,
            r.spec_is_stateful(),
            r.gate_wf(),
            forall|pid: u128| #[trigger] r.gate_last(pid) == 0,
    {
        Hook::StatefulHook(StatefulHook { h_type: hook_type, h_body: hook_body, gate: FrameGate::new() })
    }

    /// The phase this hook implements.
    pub fn get_hook_type(&self) -> (r: HookType)
        ensures
            r == self.spec_hook_type(),
    {
        match self {
            Hook::StatelessHook(h) => h.get_hook_type(),
            Hook::StatefulHook(h) => h.get_hook_type(),
        }
    }

    /// Whether this hook can take frame `n` of a stream now: a stateless
    /// binding always can; a stateful one only when the frame is next in
    /// line.
    pub fn ready_for(&self, pid: u128, n: u64) -> (r: bool)
        requires
            self.gate_wf(),
        ensures
            r == (self.spec_is_stateful() ==> n as int == self.gate_last(pid) + 1),
    {
        match self {
            Hook::StatelessHook(_) => true,
            Hook::StatefulHook(h) => h.gate.ready(pid, n),
        }
    }

    /// Runs the hook's body on one frame. The frame's original pixel buffer,
    /// owning pipeline and frame number are captured before the body runs
    /// and restored after it returns: whatever the body does, they survive.
    /// A stateful binding demands that the frame is next in line for its
    /// stream, and records it.
    pub fn exec_hook<C>(&mut self, frame: Frame, stage_context: &Context<C>) -> (r: Option<Frame>)
        where H: HookTrait<C>
        requires
            old(self).gate_wf(),
            old(self).spec_is_stateful() ==> frame@.frame_number as int == old(self).gate_last(
                frame@.pipeline_id,
            ) + 1,
        ensures
            final(self).gate_wf(),
            final(self).spec_hook_type() == old(self).spec_hook_type(),
            final(self).spec_is_stateful() == old(self).spec_is_stateful(),
            r matches Some(out) ==> out@.original == frame@.original && out@.pipeline_id
                == frame@.pipeline_id && out@.frame_number == frame@.frame_number,
            !old(self).spec_is_stateful() ==> *final(self) == *old(self),
            old(self).spec_is_stateful() ==> final(self).gate_last(frame@.pipeline_id)
                == frame@.frame_number && final(self).gate_history(frame@.pipeline_id) == old(
                self,
            ).gate_history(frame@.pipeline_id).push(frame@.frame_number) && forall|other: u128|
                other != frame@.pipeline_id ==> #[trigger] final(self).gate_last(other) == old(
                    self,
                ).gate_last(other) && final(self).gate_history(other) == old(self).gate_history(
                    other,
                ),
    {
        let pid = frame.get_pipeline_id();
        let n = frame.get_frame_number();
        let original = crate::frame::clone_frame_bytes(frame.get_original_pixels());
        match self {
            Hook::StatelessHook(h) => {
                let out = h.h_body.exec_hook(frame, stage_context);
                restore_frame_identity(out, original, pid, n)
            },
            Hook::StatefulHook(h) => {
                let out = h.h_body.exec_hook(frame, stage_context);
                h.gate.increment_last_processed(pid, n);
                restore_frame_identity(out, original, pid, n)
            },
        }
    }
}

/// Restores the parts of a frame the runtime owns — the original pixels, the
/// owning pipeline and the frame number — after a hook body returned it.
fn restore_frame_identity(out: Option<Frame>, original: Vec<u8>, pid: u128, n: u64) -> (r: Option<
    Frame,
>)
    ensures
        r is Some <==> out is Some,
        r matches Some(f) ==> f@.original == original@ && f@.pipeline_id == pid
            && f@.frame_number == n,
{
    match out {
        Some(mut f) => {
            f.set_original_pixels(original);
            let f = match f {
                Frame::RgbFrame(mut rgb) => {
                    rgb.set_pipeline_id(pid);
                    rgb.set_frame_number(n);
                    Frame::RgbFrame(rgb)
                },
            };
            Some(f)
        },
        None => None,
    }
}

} // verus!
