//! Stages: named steps of the frame path. Each stage owns at most one hook
//! per phase and a context shared by all frames of all streams that traverse
//! it.

use vstd::prelude::*;
use crate::frame::Frame;
use crate::hook::Hook;
use crate::hook::HookType;

verus! {

/// The state a stage makes available to every call of its hooks. It is
/// initialized once when the stage loads and read-shared afterwards; the
/// payload belongs to the embedding layer and is opaque to the runtime.
pub enum Context<C> {
    /// No initialization was defined for the stage.
    EmptyContext,
    /// A context built by the stage's embedding layer.
    LanguageContext(C),
}

/// How an embedding layer builds a stage context from the stage's
/// initialization code.
pub trait ContextTrait<T> {
    /// Builds the context for a stage.
    fn init_context(stage_name: &str, init_code: &str) -> T;
}

/// Builds a stage context through an embedding layer's initializer.
pub fn build_context<T: ContextTrait<T>>(stage_name: &str, init_code: &str) -> (r: Context<T>)
    ensures
        r is LanguageContext,
{
    Context::LanguageContext(T::init_context(stage_name, init_code))
}

/// A named unit of work with up to three phases and a shared context.
pub struct Stage<H, C> {
    name: String,
    hooks: Vec<Hook<H>>,
    context: Context<C>,
}

/// Some hook of the given phase exists among `hooks`.
pub open spec fn has_hook_of_type<H>(hooks: Seq<Hook<H>>, t: HookType) -> bool {
    exists|i: int| 0 <= i < hooks.len() && hooks[i].spec_hook_type() == t
}

/// No two hooks share a phase.
pub open spec fn hook_types_unique<H>(hooks: Seq<Hook<H>>) -> bool {
    forall|i: int, j: int|
        0 <= i < j < hooks.len() ==> hooks[i].spec_hook_type() != hooks[j].spec_hook_type()
}

impl<H, C> Stage<H, C> {
    /// The stage's name.
    pub closed spec fn spec_name(&self) -> Seq<char> {
        self.name@
    }

    /// The stage's hooks, in insertion order.
    pub closed spec fn spec_hooks(&self) -> Seq<Hook<H>> {
        self.hooks@
    }

    /// The stage's context.
    pub closed spec fn spec_context(&self) -> &Context<C> {
        &self.context
    }

    /// A stage invariant: at most one hook per phase, and every gate sound.
    pub open spec fn wf(&self) -> bool {
        hook_types_unique(self.spec_hooks()) && forall|i: int|
            0 <= i < self.spec_hooks().len() ==> (#[trigger] self.spec_hooks()[i]).gate_wf()
    }

    /// An empty stage with the given name and no context.
    pub fn new(name: &str) -> (r: Self)
        ensures
            r.spec_name() == name@,
            r.spec_hooks() =~= Seq::<Hook<H>>::empty(),
            r.spec_context() is EmptyContext,
            r.wf(),
    {
        Stage { name: name.to_owned(), hooks: Vec::new(), context: Context::EmptyContext }
    }

    /// The stage's name.
    pub fn get_name(&self) -> (r: &str)
        ensures
            r@ == self.spec_name(),
    {
        self.name.as_str()
    }

    /// Adds a hook, unless its phase is already taken: a stage executes at
    /// most one hook per phase, and a duplicate is refused.
    pub fn add_hook(&mut self, new_hook: Hook<H>) -> (added: bool)
        ensures
            final(self).spec_name() == old(self).spec_name(),
            final(self).spec_context() == old(self).spec_context(),
            has_hook_of_type(old(self).spec_hooks(), new_hook.spec_hook_type()) ==> !added
                && final(self).spec_hooks() == old(self).spec_hooks(),
            !has_hook_of_type(old(self).spec_hooks(), new_hook.spec_hook_type()) ==> added
                && final(self).spec_hooks() == old(self).spec_hooks().push(new_hook),
            old(self).wf() && new_hook.gate_wf() ==> final(self).wf(),
    {
        let n = self.hooks.len();
        let new_type = new_hook.get_hook_type();
        let mut i: usize = 0;
        while i < n
            invariant
                i <= n,
                n == self.hooks@.len(),
                self == old(self),
                new_type == new_hook.spec_hook_type(),
                forall|j: int| 0 <= j < i ==> self.hooks@[j].spec_hook_type() != new_type,
            decreases n - i,
        {
            let t = self.hooks[i].get_hook_type();
            if t == new_type {
                return false;
            }
            i = i + 1;
        }
        self.hooks.push(new_hook);
        true
    }

    /// The stage's hooks.
    pub fn get_hooks(&self) -> (r: &Vec<Hook<H>>)
        ensures
            r@ == self.spec_hooks(),
    {
        &self.hooks
    }

    /// Replaces the stage's context.
    pub fn set_context(&mut self, context: Context<C>)
        ensures
            final(self).spec_name() == old(self).spec_name(),
            final(self).spec_hooks() == old(self).spec_hooks(),
            final(self).spec_context() == &context,
            old(self).wf() ==> final(self).wf(),
    {
        self.context = context;
    }

    /// The stage's context.
    pub fn get_context(&self) -> (r: &Context<C>)
        ensures
            r == self.spec_context(),
    {
        &self.context
    }
}

/// Two hook lists have the same layout: the same phases and disciplines at
/// each position; only gate states may differ.
pub open spec fn hooks_same_shape<H>(a: Seq<Hook<H>>, b: Seq<Hook<H>>) -> bool {
    b.len() == a.len() && forall|k: int|
        0 <= k < a.len() ==> (#[trigger] b[k]).spec_hook_type() == a[k].spec_hook_type()
            && b[k].spec_is_stateful() == a[k].spec_is_stateful()
}

impl<H, C> Stage<H, C> {
    /// Runs the stage's hook of one phase on a frame, if that phase is
    /// defined; otherwise the frame passes through untouched. The frame's
    /// original pixels, owning pipeline and frame number survive the hook;
    /// a stateful hook admits the frame and records it.
    pub fn run_phase(&mut self, t: HookType, frame: Frame) -> (r: Option<Frame>) where
        H: crate::hook::HookTrait<C>

        requires
            old(self).wf(),
            forall|k: int|
                0 <= k < old(self).spec_hooks().len() && (#[trigger] old(
                    self,
                ).spec_hooks()[k]).spec_hook_type() == t && old(self).spec_hooks()[k]
                    .spec_is_stateful() ==> frame@.frame_number as int == old(
                    self,
                ).spec_hooks()[k].gate_last(frame@.pipeline_id) + 1,
        ensures
            final(self).wf(),
            final(self).spec_name() == old(self).spec_name(),
            hooks_same_shape(old(self).spec_hooks(), final(self).spec_hooks()),
            r matches Some(out) ==> out@.original == frame@.original && out@.pipeline_id
                == frame@.pipeline_id && out@.frame_number == frame@.frame_number,
            !has_hook_of_type(old(self).spec_hooks(), t) ==> (r matches Some(out) && out@
                == frame@) && final(self).spec_hooks() == old(self).spec_hooks(),
            forall|k: int|
                0 <= k < old(self).spec_hooks().len() && (#[trigger] old(
                    self,
                ).spec_hooks()[k]).spec_hook_type() != t ==> final(self).spec_hooks()[k] == old(
                    self,
                ).spec_hooks()[k],
            forall|k: int|
                0 <= k < old(self).spec_hooks().len() && (#[trigger] old(
                    self,
                ).spec_hooks()[k]).spec_hook_type() == t && old(self).spec_hooks()[k]
                    .spec_is_stateful() ==> final(self).spec_hooks()[k].gate_last(
                    frame@.pipeline_id,
                ) == frame@.frame_number && final(self).spec_hooks()[k].gate_history(
                    frame@.pipeline_id,
                ) == old(self).spec_hooks()[k].gate_history(frame@.pipeline_id).push(
                    frame@.frame_number,
                ) && (forall|other: u128|
                    other != frame@.pipeline_id ==> #[trigger] final(self).spec_hooks()[k]
                        .gate_last(other) == old(self).spec_hooks()[k].gate_last(other)),
    {
        let n = self.hooks.len();
        let mut k: usize = 0;
        while k < n
            invariant
                k <= n,
                n == self.hooks@.len(),
                self == old(self),
                old(self).wf(),
                forall|j: int| 0 <= j < k ==> self.hooks@[j].spec_hook_type() != t,
                forall|j: int|
                    0 <= j < old(self).spec_hooks().len() && (#[trigger] old(
                        self,
                    ).spec_hooks()[j]).spec_hook_type() == t && old(self).spec_hooks()[j]
                        .spec_is_stateful() ==> frame@.frame_number as int == old(
                        self,
                    ).spec_hooks()[j].gate_last(frame@.pipeline_id) + 1,
            decreases n - k,
        {
            let kt = self.hooks[k].get_hook_type();
            if kt == t {
                let mut hook = self.hooks.remove(k);
                let out = hook.exec_hook(frame, &self.context);
                self.hooks.insert(k, hook);
                proof {
                    assert(self.spec_hooks() =~= old(self).spec_hooks().update(
                        k as int,
                        self.spec_hooks()[k as int],
                    ));
                }
                return out;
            }
            k = k + 1;
        }
        proof {
            assert(!has_hook_of_type(self.spec_hooks(), t));
        }
        Some(frame)
    }
}

/// The first hook of the given phase among a stage's hooks, if any.
pub fn find_hook<H>(stage_hooks: &Vec<Hook<H>>, search_type: HookType) -> (r: Option<&Hook<H>>)
    ensures
        r is Some <==> has_hook_of_type(stage_hooks@, search_type),
        r matches Some(h) ==> h.spec_hook_type() == search_type && exists|i: int|
            0 <= i < stage_hooks@.len() && stage_hooks@[i] == *h,
{
    let n = stage_hooks.len();
    let mut i: usize = 0;
    while i < n
        invariant
            i <= n,
            n == stage_hooks@.len(),
            forall|j: int| 0 <= j < i ==> stage_hooks@[j].spec_hook_type() != search_type,
        decreases n - i,
    {
        let t = stage_hooks[i].get_hook_type();
        if t == search_type {
            proof {
                assert(stage_hooks@[i as int].spec_hook_type() == search_type);
            }
            return Some(&stage_hooks[i]);
        }
        i = i + 1;
    }
    proof {
        assert(!has_hook_of_type(stage_hooks@, search_type));
    }
    None
}

/// A stage with at most one hook per phase executes at most three hooks for
/// a frame: there are only three phases.
pub proof fn lemma_stage_at_most_three_hooks<H, C>(stage: &Stage<H, C>)
    requires
        stage.wf(),
    ensures
        stage.spec_hooks().len() <= 3,
{
    let hooks = stage.spec_hooks();
    if hooks.len() > 3 {
        let t0 = hooks[0].spec_hook_type();
        let t1 = hooks[1].spec_hook_type();
        let t2 = hooks[2].spec_hook_type();
        let t3 = hooks[3].spec_hook_type();
        assert(t0 != t1 && t0 != t2 && t0 != t3 && t1 != t2 && t1 != t3 && t2 != t3);
        assert(false);
    }
}

} // verus!
