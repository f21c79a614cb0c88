//! The frame path and its executor: a validated ordered list of stage names,
//! and the scheduler that runs each frame through its stages, phase by
//! phase, protecting what the runtime owns on every frame.

use vstd::prelude::*;
use vstd::string::StrSliceExecFns;
use vstd::string::StringExecFns;
use crate::frame::Frame;
use crate::hook::Hook;
use crate::hook::HookType;
use crate::hook::HookTrait;
use crate::stage::Stage;
use crate::text::split_slash;
use crate::text::trim_spec;
use crate::text::trim_blanks;
use crate::text::split_on_slash;

verus! {

/// The ordered list of stage names a frame passes through.
#[derive(Debug)]
pub struct FramePath {
    path: Vec<String>,
}

impl View for FramePath {
    type V = Seq<Seq<char>>;

    closed spec fn view(&self) -> Seq<Seq<char>> {
        self.path@.map_values(|s: String| s@)
    }
}

impl Clone for FramePath {
    fn clone(&self) -> (res: Self)
        ensures
            res@ == self@,
    {
        let mut path: Vec<String> = Vec::new();
        let mut i: usize = 0;
        while i < self.path.len()
            invariant
                i <= self.path@.len(),
                path@.len() == i,
                forall|j: int| 0 <= j < i ==> path@[j]@ == self.path@[j]@,
            decreases self.path@.len() - i,
        {
            path.push(self.path[i].clone());
            i = i + 1;
        }
        proof {
            assert(path@.map_values(|s: String| s@) =~= self@);
        }
        FramePath { path }
    }
}

impl FramePath {
    /// The stage names, in order.
    pub fn get_path(&self) -> (r: &Vec<String>)
        ensures
            r@.map_values(|s: String| s@) == self@,
    {
        &self.path
    }

    /// Parses a slash-separated list of stage names and validates every name
    /// against the executor's loaded stages; an unknown name rejects the
    /// whole path.
    pub fn new<H, C>(path: &str, frame_path_executor: &FramePathExecutor<H, C>) -> (r: Result<
        FramePath,
        String,
    >)
        ensures
            match r {
                Ok(fp) => fp@ == split_slash(trim_spec(path@)) && first_unknown_stage(
                    frame_path_executor.spec_stages(),
                    split_slash(trim_spec(path@)),
                ) is None,
                Err(_) => first_unknown_stage(
                    frame_path_executor.spec_stages(),
                    split_slash(trim_spec(path@)),
                ) is Some,
            },
    {
        let trimmed = trim_blanks(path);
        let names = split_on_slash(trimmed.as_str());
        frame_path_executor.check_path(FramePath { path: names })
    }
}

/// Index of the first stage with the given name, if any.
pub open spec fn stage_index_of<H, C>(stages: Seq<Stage<H, C>>, name: Seq<char>) -> Option<int>
    decreases stages.len(),
{
    if stages.len() == 0 {
        None
    } else if stages[0].spec_name() == name {
        Some(0)
    } else {
        match stage_index_of(stages.skip(1), name) {
            Some(j) => Some(j + 1),
            None => None,
        }
    }
}

/// A position known to be the first name match determines `stage_index_of`.
pub proof fn lemma_stage_index_first<H, C>(stages: Seq<Stage<H, C>>, name: Seq<char>, i: int)
    requires
        0 <= i < stages.len(),
        stages[i].spec_name() == name,
        forall|j: int| 0 <= j < i ==> stages[j].spec_name() != name,
    ensures
        stage_index_of(stages, name) == Some(i),
    decreases stages.len(),
{
    if i > 0 {
        lemma_stage_index_first(stages.skip(1), name, i - 1);
    }
}

/// Without a stage of that name, the search yields nothing.
pub proof fn lemma_stage_index_none<H, C>(stages: Seq<Stage<H, C>>, name: Seq<char>)
    requires
        forall|j: int| 0 <= j < stages.len() ==> stages[j].spec_name() != name,
    ensures
        stage_index_of(stages, name) is None,
    decreases stages.len(),
{
    if stages.len() > 0 {
        lemma_stage_index_none(stages.skip(1), name);
    }
}

/// A found index lies within the stages and names the stage.
pub proof fn lemma_stage_index_range<H, C>(stages: Seq<Stage<H, C>>, name: Seq<char>)
    requires
        stage_index_of(stages, name) is Some,
    ensures
        0 <= stage_index_of(stages, name)->Some_0 < stages.len(),
        stages[stage_index_of(stages, name)->Some_0].spec_name() == name,
    decreases stages.len(),
{
    if stages.len() > 0 && stages[0].spec_name() != name {
        lemma_stage_index_range(stages.skip(1), name);
        let j = stage_index_of(stages.skip(1), name)->Some_0;
        assert(stages.skip(1)[j] == stages[j + 1]);
    }
}

/// Stage lookup depends only on the stage names, which a shape-preserving
/// change keeps.
pub proof fn lemma_stage_index_same_shape<H, C>(
    a: Seq<Stage<H, C>>,
    b: Seq<Stage<H, C>>,
    name: Seq<char>,
)
    requires
        stages_same_shape(a, b),
    ensures
        stage_index_of(a, name) == stage_index_of(b, name),
    decreases a.len(),
{
    if a.len() > 0 {
        assert(b[0].spec_name() == a[0].spec_name());
        assert forall|k: int| 0 <= k < a.skip(1).len() implies (#[trigger] b.skip(1)[k])
            .spec_name() == a.skip(1)[k].spec_name() && crate::stage::hooks_same_shape(
            a.skip(1)[k].spec_hooks(),
            b.skip(1)[k].spec_hooks(),
        ) by {
            assert(a.skip(1)[k] == a[k + 1]);
            assert(b.skip(1)[k] == b[k + 1]);
        };
        lemma_stage_index_same_shape(a.skip(1), b.skip(1), name);
    }
}

/// Index of the first path name that matches no loaded stage, if any.
pub open spec fn first_unknown_stage<H, C>(
    stages: Seq<Stage<H, C>>,
    names: Seq<Seq<char>>,
) -> Option<int>
    decreases names.len(),
{
    if names.len() == 0 {
        None
    } else if stage_index_of(stages, names[0]) is None {
        Some(0)
    } else {
        match first_unknown_stage(stages, names.skip(1)) {
            Some(j) => Some(j + 1),
            None => None,
        }
    }
}

/// A stage has at least one stateful hook.
pub open spec fn stage_has_stateful<H, C>(st: Stage<H, C>) -> bool {
    exists|k: int|
        0 <= k < st.spec_hooks().len() && (#[trigger] st.spec_hooks()[k]).spec_is_stateful()
}

/// Every stateful hook of the stage is ready to admit frame `n` of the
/// stream.
pub open spec fn stage_ready<H, C>(st: Stage<H, C>, pid: u128, n: u64) -> bool {
    forall|k: int|
        0 <= k < st.spec_hooks().len() ==> ((#[trigger] st.spec_hooks()[k]).spec_is_stateful()
            ==> n as int == st.spec_hooks()[k].gate_last(pid) + 1)
}

/// Every name of the path resolves to a stage without hooks, or to no
/// loaded stage at all: a path that does no work.
pub open spec fn path_passes_through<H, C>(
    stages: Seq<Stage<H, C>>,
    names: Seq<Seq<char>>,
) -> bool {
    forall|i: int|
        0 <= i < names.len() ==> match stage_index_of(stages, #[trigger] names[i]) {
            Some(s) => stages[s].spec_hooks().len() == 0,
            None => true,
        }
}

/// Two stage lists have the same layout: the same names in the same order,
/// with hooks of the same phases and disciplines; only gate states may
/// differ.
pub open spec fn stages_same_shape<H, C>(a: Seq<Stage<H, C>>, b: Seq<Stage<H, C>>) -> bool {
    b.len() == a.len() && forall|i: int|
        0 <= i < a.len() ==> (#[trigger] b[i]).spec_name() == a[i].spec_name()
            && crate::stage::hooks_same_shape(a[i].spec_hooks(), b[i].spec_hooks())
}

/// The stage scheduler: owns one instance of every user-defined stage and
/// runs frames through their paths. One executor serves all pipelines and
/// streams.
pub struct FramePathExecutor<H, C> {
    stages: Vec<Stage<H, C>>,
}

impl<H, C> FramePathExecutor<H, C> {
    /// The loaded stages.
    pub closed spec fn spec_stages(&self) -> Seq<Stage<H, C>> {
        self.stages@
    }

    /// The executor invariant: every stage is well formed and stage names
    /// are unique.
    pub open spec fn wf(&self) -> bool {
        &&& forall|i: int|
            0 <= i < self.spec_stages().len() ==> (#[trigger] self.spec_stages()[i]).wf()
        &&& forall|i: int, j: int|
            0 <= i < j < self.spec_stages().len() ==> self.spec_stages()[i].spec_name()
                != self.spec_stages()[j].spec_name()
    }

    /// Wraps a set of loaded stages.
    pub fn new(stages: Vec<Stage<H, C>>) -> (r: Self)
        requires
            forall|i: int| 0 <= i < stages@.len() ==> (#[trigger] stages@[i]).wf(),
            forall|i: int, j: int|
                0 <= i < j < stages@.len() ==> stages@[i].spec_name() != stages@[j].spec_name(),
        ensures
            r.spec_stages() == stages@,
            r.wf(),
    {
        FramePathExecutor { stages }
    }

    /// Position of the stage with the given name.
    fn index_of_stage(&self, name: &str) -> (r: Option<usize>)
        ensures
            match r {
                Some(i) => i < self.spec_stages().len() && stage_index_of(
                    self.spec_stages(),
                    name@,
                ) == Some(i as int),
                None => stage_index_of(self.spec_stages(), name@) is None,
            },
    {
        let n = self.stages.len();
        let mut i: usize = 0;
        while i < n
            invariant
                i <= n,
                n == self.stages@.len(),
                forall|j: int| 0 <= j < i ==> self.spec_stages()[j].spec_name() != name@,
            decreases n - i,
        {
            if crate::text::str_eq(self.stages[i].get_name(), name) {
                proof {
                    lemma_stage_index_first(self.spec_stages(), name@, i as int);
                }
                return Some(i);
            }
            i = i + 1;
        }
        proof {
            lemma_stage_index_none(self.spec_stages(), name@);
        }
        None
    }

    /// Validates that every name of the path denotes a loaded stage; the
    /// first unknown name rejects the path.
    pub fn check_path(&self, frame_path: FramePath) -> (r: Result<FramePath, String>)
        ensures
            match r {
                Ok(fp) => fp@ == frame_path@ && first_unknown_stage(
                    self.spec_stages(),
                    frame_path@,
                ) is None,
                Err(_) => first_unknown_stage(self.spec_stages(), frame_path@) is Some,
            },
    {
        let n = frame_path.path.len();
        let mut i: usize = 0;
        while i < n
            invariant
                i <= n,
                n == frame_path.path@.len(),
                forall|j: int|
                    0 <= j < i ==> stage_index_of(
                        self.spec_stages(),
                        frame_path@[j],
                    ) is Some,
            decreases n - i,
        {
            if self.index_of_stage(frame_path.path[i].as_str()).is_none() {
                proof {
                    lemma_first_unknown_at(self.spec_stages(), frame_path@, i as int);
                }
                proof {
                    reveal_strlit(" stage does not exist");
                }
                let msg = frame_path.path[i].clone().concat(" stage does not exist");
                return Err(msg);
            }
            i = i + 1;
        }
        proof {
            lemma_first_unknown_none(self.spec_stages(), frame_path@);
        }
        Ok(frame_path)
    }

    /// Every stateful hook of every stage named by the path is ready for
    /// frame `n` of the stream, and no stage with a stateful hook is named
    /// twice: together, the condition under which the traversal below can
    /// honor the per-stream ordering discipline.
    pub open spec fn path_ready(&self, names: Seq<Seq<char>>, pid: u128, n: u64) -> bool {
        &&& forall|i: int|
            0 <= i < names.len() ==> match stage_index_of(self.spec_stages(), #[trigger] names[i]) {
                Some(s) => stage_ready(self.spec_stages()[s], pid, n),
                None => true,
            }
        &&& forall|i: int, j: int|
            0 <= i < j < names.len() && names[i] == names[j] ==> match stage_index_of(
                self.spec_stages(),
                names[i],
            ) {
                Some(s) => !stage_has_stateful(self.spec_stages()[s]),
                None => true,
            }
    }

    /// Whether the path can take frame `n` of the stream now: every
    /// stateful hook of every named stage is ready for it, and no stage
    /// with a stateful hook is named twice. The shell tests this before
    /// handing a frame event over and drops out-of-order frames instead of
    /// stalling on them.
    pub fn frame_ready(&self, path: &FramePath, pipeline_id: u128, frame_number: u64) -> (r:
        bool)
        requires
            self.wf(),
        ensures
            r ==> self.path_ready(path@, pipeline_id, frame_number),
    {
        let names = path.get_path();
        let n = names.len();
        let mut i: usize = 0;
        while i < n
            invariant
                i <= n,
                n == names@.len(),
                names@.map_values(|s: String| s@) == path@,
                self.wf(),
                forall|w: int|
                    0 <= w < i ==> match stage_index_of(
                        self.spec_stages(),
                        #[trigger] path@[w],
                    ) {
                        Some(s) => stage_ready(
                            self.spec_stages()[s],
                            pipeline_id,
                            frame_number,
                        ),
                        None => true,
                    },
                forall|w: int|
                    0 <= w < i ==> match stage_index_of(
                        self.spec_stages(),
                        #[trigger] path@[w],
                    ) {
                        Some(s) => stage_has_stateful(self.spec_stages()[s]) ==> forall|x: int|
                            0 <= x < path@.len() && x != w ==> path@[x] != path@[w],
                        None => true,
                    },
            decreases n - i,
        {
            match self.index_of_stage(names[i].as_str()) {
                Some(s) => {
                    let hooks = self.stages[s].get_hooks();
                    let mut has_stateful = false;
                    let mut k: usize = 0;
                    while k < hooks.len()
                        invariant
                            k <= hooks@.len(),
                            hooks@ == self.spec_stages()[s as int].spec_hooks(),
                            s < self.spec_stages().len(),
                            self.wf(),
                            forall|q: int|
                                0 <= q < k ==> ((#[trigger] hooks@[q]).spec_is_stateful()
                                    ==> frame_number as int == hooks@[q].gate_last(
                                    pipeline_id,
                                ) + 1),
                            has_stateful ==> stage_has_stateful(
                                self.spec_stages()[s as int],
                            ),
                            !has_stateful ==> forall|q: int|
                                0 <= q < k ==> !(#[trigger] hooks@[q]).spec_is_stateful(),
                        decreases hooks@.len() - k,
                    {
                        if !hooks[k].ready_for(pipeline_id, frame_number) {
                            return false;
                        }
                        let hk = &hooks[k];
                        if match hk {
                            Hook::StatefulHook(_) => true,
                            Hook::StatelessHook(_) => false,
                        } {
                            has_stateful = true;
                        }
                        k = k + 1;
                    }
                    if has_stateful {
                        // A repeated stateful stage can never be ready for
                        // its second visit.
                        let mut x: usize = 0;
                        while x < n
                            invariant
                                x <= n,
                                n == names@.len(),
                                names@.map_values(|s2: String| s2@) == path@,
                                i < n,
                                forall|w: int| 0 <= w < x && w != i ==> path@[w] != path@[i as int],
                            decreases n - x,
                        {
                            if x != i && crate::text::str_eq(
                                names[x].as_str(),
                                names[i].as_str(),
                            ) {
                                return false;
                            }
                            x = x + 1;
                        }
                    }
                    proof {
                        assert(stage_ready(
                            self.spec_stages()[s as int],
                            pipeline_id,
                            frame_number,
                        ));
                    }
                },
                None => {},
            }
            i = i + 1;
        }
        proof {
            assert forall|a: int, b: int|
                #![trigger path@[a], path@[b]]
                0 <= a < b < path@.len() && path@[a] == path@[b] implies match stage_index_of(
                self.spec_stages(),
                path@[a],
            ) {
                Some(s2) => !stage_has_stateful(self.spec_stages()[s2]),
                None => true,
            } by {
                match stage_index_of(self.spec_stages(), path@[a]) {
                    Some(s2) => {
                        if stage_has_stateful(self.spec_stages()[s2]) {
                            assert(path@[b] != path@[a]);
                        }
                    },
                    None => {},
                }
            };
        }
        true
    }

    /// Runs one frame through the path: stage by stage in path order, and
    /// within each stage pre-process, process, post-process, whichever are
    /// defined. A hook returning nothing drops the frame and ends the path
    /// early. Unknown stage names are skipped. The frame's original pixels,
    /// owning pipeline and frame number survive whatever the hooks do, and
    /// when a frame comes out, every stateful hook along the path has
    /// admitted it in order.
    pub fn execute_path(&mut self, frame: Frame, path: FramePath) -> (r: Option<Frame>)
        where H: HookTrait<C>
        requires
            old(self).wf(),
            old(self).path_ready(path@, frame@.pipeline_id, frame@.frame_number),
        ensures
            final(self).wf(),
            stages_same_shape(old(self).spec_stages(), final(self).spec_stages()),
            r matches Some(out) ==> out@.original == frame@.original && out@.pipeline_id
                == frame@.pipeline_id && out@.frame_number == frame@.frame_number,
            path_passes_through(old(self).spec_stages(), path@) ==> (r matches Some(out) && out@
                == frame@),
            r is Some ==> forall|i: int|
                0 <= i < path@.len() ==> match stage_index_of(
                    final(self).spec_stages(),
                    #[trigger] path@[i],
                ) {
                    Some(s) => forall|k: int|
                        0 <= k < final(self).spec_stages()[s].spec_hooks().len() ==> ((
                        #[trigger] final(self).spec_stages()[s].spec_hooks()[k]).spec_is_stateful()
                            ==> final(self).spec_stages()[s].spec_hooks()[k].gate_last(
                            frame@.pipeline_id,
                        ) == frame@.frame_number),
                    None => true,
                },
    {
        let ghost pid = frame@.pipeline_id;
        let ghost n = frame@.frame_number;
        let ghost names = path@;
        let mut current: Option<Frame> = Some(frame);
        proof {
            assert(names.skip(0) =~= names);
        }
        let path_len = path.path.len();
        let mut i: usize = 0;
        while i < path_len
            invariant
                i <= path_len,
                path_len == path.path@.len(),
                names == path@,
                self.wf(),
                stages_same_shape(old(self).spec_stages(), self.spec_stages()),
                self.path_ready(names.skip(i as int), pid, n),
                current matches Some(out) ==> out@.original == frame@.original
                    && out@.pipeline_id == pid && out@.frame_number == n,
                path_passes_through(old(self).spec_stages(), names) ==> (current matches Some(c)
                    && c@ == frame@),
                frame@.pipeline_id == pid && frame@.frame_number == n,
                current is Some ==> forall|w: int|
                    0 <= w < i ==> match stage_index_of(
                        self.spec_stages(),
                        #[trigger] names[w],
                    ) {
                        Some(s) => forall|k: int|
                            0 <= k < self.spec_stages()[s].spec_hooks().len() ==> ((
                            #[trigger] self.spec_stages()[s].spec_hooks()[k]).spec_is_stateful()
                                ==> self.spec_stages()[s].spec_hooks()[k].gate_last(pid) == n),
                        None => true,
                    },
            decreases path_len - i,
        {
            let f = match current {
                Some(f) => f,
                None => {
                    return None;
                },
            };
            proof {
                assert(names.skip(i as int)[0] == names[i as int]);
            }
            let ghost prev = self.spec_stages();
            let ghost f_in = f;
            match self.index_of_stage(path.path[i].as_str()) {
                Some(s) => {
                    let mut stage = self.stages.remove(s);
                    proof {
                        assert(stage == prev[s as int]);
                        assert(stage_ready(stage, pid, n));
                    }
                    let ghost stage0 = stage;
                    let after_pre = stage.run_phase(HookType::PreProcess, f);
                    let ghost stage1 = stage;
                    let after_proc = match after_pre {
                        Some(f1) => stage.run_phase(HookType::Process, f1),
                        None => None,
                    };
                    let ghost stage2 = stage;
                    let after_post = match after_proc {
                        Some(f2) => stage.run_phase(HookType::PostProcess, f2),
                        None => None,
                    };
                    let ghost stage3 = stage;
                    self.stages.insert(s, stage);
                    proof {
                        let now = self.spec_stages();
                        assert(now =~= prev.update(s as int, stage3));
                        assert(names[i as int] == path.path@[i as int]@);
                        assert(stage_index_of(prev, names[i as int]) == Some(s as int));
                        assert(forall|x: int|
                            0 <= x < prev.len() && x != s ==> now[x] == prev[x]);
                        assert(crate::stage::hooks_same_shape(
                            stage0.spec_hooks(),
                            stage3.spec_hooks(),
                        ));
                        assert(stages_same_shape(prev, now));
                        assert(stages_same_shape(old(self).spec_stages(), now));
                        assert(self.wf());
                        // A path that does no work passes the frame
                        // through: a hookless stage runs no phase.
                        if path_passes_through(old(self).spec_stages(), names) {
                            lemma_stage_index_same_shape(
                                old(self).spec_stages(),
                                prev,
                                names[i as int],
                            );
                            assert(old(self).spec_stages()[s as int].spec_hooks().len() == 0);
                            assert(crate::stage::hooks_same_shape(
                                old(self).spec_stages()[s as int].spec_hooks(),
                                prev[s as int].spec_hooks(),
                            ));
                            assert(stage0.spec_hooks().len() == 0);
                            assert(!crate::stage::has_hook_of_type(
                                stage0.spec_hooks(),
                                HookType::PreProcess,
                            ));
                            assert(stage1.spec_hooks().len() == 0);
                            assert(stage2.spec_hooks().len() == 0);
                            assert(after_post matches Some(out3) && out3@ == f_in@);
                        }
                        // If everything ran, every stateful hook of this
                        // stage has admitted frame n.
                        if after_post is Some {
                            assert forall|k: int|
                                0 <= k < stage3.spec_hooks().len() && (
                                #[trigger] stage3.spec_hooks()[k]).spec_is_stateful() implies
                                stage3.spec_hooks()[k].gate_last(pid) == n by {
                                let t = stage0.spec_hooks()[k].spec_hook_type();
                                if t == HookType::PreProcess {
                                    assert(stage1.spec_hooks()[k].gate_last(pid) == n);
                                    assert(stage2.spec_hooks()[k] == stage1.spec_hooks()[k]);
                                    assert(stage3.spec_hooks()[k] == stage2.spec_hooks()[k]);
                                } else if t == HookType::Process {
                                    assert(stage1.spec_hooks()[k] == stage0.spec_hooks()[k]);
                                    assert(stage2.spec_hooks()[k].gate_last(pid) == n);
                                    assert(stage3.spec_hooks()[k] == stage2.spec_hooks()[k]);
                                } else {
                                    assert(stage1.spec_hooks()[k] == stage0.spec_hooks()[k]);
                                    assert(stage2.spec_hooks()[k] == stage1.spec_hooks()[k]);
                                    assert(stage3.spec_hooks()[k].gate_last(pid) == n);
                                }
                            };
                        }
                    }
                    current = after_post;
                },
                None => {
                    current = Some(f);
                },
            }
            proof {
                let now = self.spec_stages();
                assert(stages_same_shape(prev, now));
                // The suffix of the path is still ready.
                assert forall|j: int| 0 <= j < names.skip(i + 1).len() implies match
                    stage_index_of(now, #[trigger] names.skip(i + 1)[j]) {
                    Some(s2) => stage_ready(now[s2], pid, n),
                    None => true,
                } by {
                    let name_j = names.skip(i + 1)[j];
                    assert(name_j == names[i + 1 + j]);
                    assert(names.skip(i as int)[j + 1] == name_j);
                    lemma_stage_index_same_shape(prev, now, name_j);
                    match stage_index_of(prev, name_j) {
                        Some(s2) => {
                            lemma_stage_index_range(prev, name_j);
                            if now[s2] != prev[s2] {
                                // Only the stage named by this step changed;
                                // a later occurrence of the same name means
                                // the stage has no stateful hook, so
                                // readiness is vacuous.
                                assert(stage_index_of(prev, names[i as int]) == Some(s2));
                                lemma_stage_index_range(prev, names[i as int]);
                                assert(name_j == names[i as int]);
                                assert(names.skip(i as int)[0] == names[i as int]);
                                assert(!stage_has_stateful(prev[s2]));
                                assert forall|k: int|
                                    0 <= k < now[s2].spec_hooks().len() implies !(
                                    #[trigger] now[s2].spec_hooks()[k]).spec_is_stateful() by {
                                    assert(crate::stage::hooks_same_shape(
                                        prev[s2].spec_hooks(),
                                        now[s2].spec_hooks(),
                                    ));
                                };
                            } else {
                                assert(stage_ready(prev[s2], pid, n));
                            }
                        },
                        None => {},
                    }
                };
                // No repeated stateful stage in the suffix either.
                assert forall|a: int, b: int|
                    #![trigger names.skip(i + 1)[a], names.skip(i + 1)[b]]
                    0 <= a < b < names.skip(i + 1).len() && names.skip(i + 1)[a] == names.skip(
                        i + 1,
                    )[b] implies match stage_index_of(now, names.skip(i + 1)[a]) {
                    Some(s2) => !stage_has_stateful(now[s2]),
                    None => true,
                } by {
                    assert(names.skip(i as int)[a + 1] == names.skip(i + 1)[a]);
                    assert(names.skip(i as int)[b + 1] == names.skip(i + 1)[b]);
                    lemma_stage_index_same_shape(prev, now, names.skip(i + 1)[a]);
                    match stage_index_of(prev, names.skip(i + 1)[a]) {
                        Some(s2) => {
                            lemma_stage_index_range(prev, names.skip(i + 1)[a]);
                            assert(!stage_has_stateful(prev[s2]));
                            assert forall|k: int|
                                0 <= k < now[s2].spec_hooks().len() implies !(
                                #[trigger] now[s2].spec_hooks()[k]).spec_is_stateful() by {
                                assert(crate::stage::hooks_same_shape(
                                    prev[s2].spec_hooks(),
                                    now[s2].spec_hooks(),
                                ));
                            };
                        },
                        None => {},
                    }
                };
                // The processed prefix stays admitted.
                if current is Some {
                    assert forall|w: int| 0 <= w < i + 1 implies match stage_index_of(
                        now,
                        #[trigger] names[w],
                    ) {
                        Some(s2) => forall|k: int|
                            0 <= k < now[s2].spec_hooks().len() ==> ((
                            #[trigger] now[s2].spec_hooks()[k]).spec_is_stateful()
                                ==> now[s2].spec_hooks()[k].gate_last(pid) == n),
                        None => true,
                    } by {
                        lemma_stage_index_same_shape(prev, now, names[w]);
                        match stage_index_of(prev, names[w]) {
                            Some(s2) => {
                                lemma_stage_index_range(prev, names[w]);
                                if w < i {
                                    if now[s2] == prev[s2] {
                                    } else {
                                        // The stage changed this step, so it
                                        // is the one named at position i; it
                                        // was ready at n - 1, yet the prefix
                                        // invariant says its stateful hooks
                                        // were already at n: it has none.
                                        assert(stage_index_of(prev, names[i as int]) == Some(
                                            s2,
                                        ));
                                        assert(names.skip(i as int)[0] == names[i as int]);
                                        assert(stage_ready(prev[s2], pid, n));
                                        assert forall|k: int|
                                            0 <= k < now[s2].spec_hooks().len() implies ((
                                            #[trigger] now[s2].spec_hooks()[k])
                                                .spec_is_stateful() ==> now[s2].spec_hooks()[k]
                                                .gate_last(pid) == n) by {
                                            assert(crate::stage::hooks_same_shape(
                                                prev[s2].spec_hooks(),
                                                now[s2].spec_hooks(),
                                            ));
                                            if now[s2].spec_hooks()[k].spec_is_stateful() {
                                                assert(prev[s2].spec_hooks()[k]
                                                    .spec_is_stateful());
                                                assert(prev[s2].spec_hooks()[k].gate_last(pid)
                                                    == n);
                                                assert(n as int == prev[s2].spec_hooks()[k]
                                                    .gate_last(pid) + 1);
                                                assert(false);
                                            }
                                        };
                                    }
                                }
                            },
                            None => {},
                        }
                    };
                }
            }
            i = i + 1;
        }
        proof {
            assert(names.skip(path_len as int).len() == 0);
        }
        current
    }
}

/// The first unknown name is at `i` when everything before resolves and
/// `names[i]` does not.
proof fn lemma_first_unknown_at<H, C>(stages: Seq<Stage<H, C>>, names: Seq<Seq<char>>, i: int)
    requires
        0 <= i < names.len(),
        stage_index_of(stages, names[i]) is None,
        forall|j: int| 0 <= j < i ==> stage_index_of(stages, #[trigger] names[j]) is Some,
    ensures
        first_unknown_stage(stages, names) == Some(i),
    decreases i,
{
    if i > 0 {
        lemma_first_unknown_at(stages, names.skip(1), i - 1);
        assert(names.skip(1)[i - 1] == names[i]);
        assert(forall|j: int| 0 <= j < i - 1 ==> names.skip(1)[j] == names[j + 1]);
    } else {
    }
}

/// With every name resolving, there is no unknown name.
proof fn lemma_first_unknown_none<H, C>(stages: Seq<Stage<H, C>>, names: Seq<Seq<char>>)
    requires
        forall|j: int| 0 <= j < names.len() ==> stage_index_of(stages, #[trigger] names[j]) is Some,
    ensures
        first_unknown_stage(stages, names) is None,
    decreases names.len(),
{
    if names.len() > 0 {
        lemma_first_unknown_none(stages, names.skip(1));
        assert(forall|j: int| 0 <= j < names.skip(1).len() ==> names.skip(1)[j] == names[j + 1]);
    }
}

} // verus!
