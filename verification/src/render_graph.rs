//! The post-processing graph: stages joined by links from outputs to inputs.
use vstd::prelude::*;
use crate::shader::ShaderStructUniform;
use crate::name_map::{NameMap, ViewEq, ViewMap};

verus! {

/// Size of the render target in pixels (block `Resolution`).
#[derive(Clone, Copy, Debug, PartialEq, Eq, Structural)]
pub struct RenderResolution {
    pub width: u32,
    pub height: u32,
}

impl Default for RenderResolution {
    fn default() -> (r: Self)
        ensures
            r == (RenderResolution { width: 0, height: 0 }),
    {
        RenderResolution { width: 0, height: 0 }
    }
}

impl ShaderStructUniform for RenderResolution {
    open spec fn spec_structure() -> Seq<char> {
        "{
            uvec2 dimensions;
        }"@
    }

    open spec fn spec_glsl_type_name() -> Seq<char> {
        "Resolution"@
    }

    fn structure() -> (s: String) {
        "{
            uvec2 dimensions;
        }".to_owned()
    }

    fn glsl_type_name() -> (s: String) {
        "Resolution".to_owned()
    }
}

pub type StageIndex = u16;

pub type StageInputIndex = String;

pub type StageOutputIndex = u64;

/// An output of a stage: the stage, the output's number and the position in the
/// output's stack buffer that is read.
pub struct RenderStageOutputSocket {
    pub render_stage_id: StageIndex,
    pub output: StageOutputIndex,
    pub stack_index: u8,
}

/// A named input of a stage; stage 0 is the output of the whole graph.
pub struct RenderStageInputSocket {
    pub render_stage_id: StageIndex,
    pub input: StageInputIndex,
}

/// A link from an output of one stage to an input of another.
pub struct RenderStageLink {
    pub _from: RenderStageOutputSocket,
    pub _to: RenderStageInputSocket,
}

/// Sockets of the stage that composes the lit image from its diffuse and
/// specular parts.
pub struct Composer {
    pub stage_id: StageIndex,
    pub diffuse_input: StageInputIndex,
    pub specular_input: StageInputIndex,
    pub output: StageOutputIndex,
}

/// Sockets of the deferred lighting stage.
pub struct DeferredLighting {
    pub stage_id: StageIndex,
    pub diffuse_out: StageOutputIndex,
    pub specular_out: StageOutputIndex,
}

/// Sockets of the screen-space reflections stage.
pub struct ScreenSpaceReflections {
    pub stage_id: StageIndex,
    pub diffuse_in: StageInputIndex,
    pub specular_in: StageInputIndex,
    pub specular_out: StageOutputIndex,
    pub diffuse_out: StageOutputIndex,
}

/// Sockets of the temporal denoising stage.
pub struct TemporalDeoiser {
    pub stage_id: StageIndex,
    pub input: StageInputIndex,
    pub output: StageOutputIndex,
}

/// Sockets of the FXAA stage.
pub struct FxaaFilter {
    pub stage_id: StageIndex,
    pub input: StageInputIndex,
    pub output: StageOutputIndex,
}

/// A link as plain values.
pub struct LinkView {
    pub from: u16,
    pub output: u64,
    pub stack_index: u8,
    pub to: u16,
    pub input: Seq<char>,
}

impl View for RenderStageLink {
    type V = LinkView;

    open spec fn view(&self) -> LinkView {
        LinkView {
            from: self._from.render_stage_id,
            output: self._from.output,
            stack_index: self._from.stack_index,
            to: self._to.render_stage_id,
            input: self._to.input@,
        }
    }
}

impl ViewEq for RenderStageLink {
    fn view_eq(&self, other: &Self) -> (b: bool) {
        self._from.render_stage_id == other._from.render_stage_id && self._from.output == other._from.output
            && self._from.stack_index == other._from.stack_index && self._to.render_stage_id
            == other._to.render_stage_id && self._to.input == other._to.input
    }

    fn duplicate(&self) -> (r: Self) {
        RenderStageLink {
            _from: RenderStageOutputSocket {
                render_stage_id: self._from.render_stage_id,
                output: self._from.output,
                stack_index: self._from.stack_index,
            },
            _to: RenderStageInputSocket { render_stage_id: self._to.render_stage_id, input: self._to.input.clone() },
        }
    }
}

/// A render buffer of the graph's pool: the handle of its texture, its size and
/// the code of its pixel format.
#[derive(Clone, Copy, Debug, PartialEq, Eq, Structural)]
pub struct PoolBuffer {
    pub handle: u64,
    pub width: u32,
    pub height: u32,
    pub pix_fmt: u32,
}

/// The links taken as plain values.
pub open spec fn links_view(links: Seq<RenderStageLink>) -> Seq<LinkView> {
    links.map_values(|l: RenderStageLink| l@)
}

/// The stages and links of a post-processing graph. Stage `k` (counted from 1)
/// is described by `stages[k - 1]`: for each of its outputs, whether the output
/// keeps a stack of buffers (through which a loop may pass).
///
/// Beside them: the pool of render buffers; the buffer that each link holds
/// while the graph runs; the textures handed to the inputs of stages, keyed by
/// stage and input; and the textures bound to the graph's named outputs.
pub struct GraphView {
    pub stages: Seq<Seq<bool>>,
    pub links: Seq<LinkView>,
    pub buffers: Seq<PoolBuffer>,
    pub busy: Map<LinkView, u64>,
    pub image_inputs: Map<(u16, Seq<char>), u64>,
    pub outputs: Map<Seq<char>, u64>,
}

/// A graph with no stages, links, buffers or textures.
pub open spec fn empty_graph() -> GraphView {
    GraphView {
        stages: Seq::empty(),
        links: Seq::empty(),
        buffers: Seq::empty(),
        busy: Map::empty(),
        image_inputs: Map::empty(),
        outputs: Map::empty(),
    }
}

/// The link starts at an existing stage and at one of its outputs.
pub open spec fn link_source_valid(stages: Seq<Seq<bool>>, l: LinkView) -> bool {
    1 <= l.from <= stages.len() && l.output < stages[l.from - 1].len()
}

/// The link's source output is not a stack buffer.
pub open spec fn link_plain(stages: Seq<Seq<bool>>, l: LinkView) -> bool {
    link_source_valid(stages, l) && !stages[l.from - 1][l.output as int]
}

/// Some link without a stack buffer leads from stage `a` to stage `b`.
pub open spec fn edge(stages: Seq<Seq<bool>>, links: Seq<LinkView>, a: u16, b: u16) -> bool {
    exists|i: int| 0 <= i < links.len() && links[i].from == a && links[i].to == b && #[trigger] link_plain(stages, links[i])
}

/// A chain of `len` such links leads from `a` to `b`.
pub open spec fn reaches(stages: Seq<Seq<bool>>, links: Seq<LinkView>, a: u16, b: u16, len: nat) -> bool
    decreases len,
{
    if len == 0 {
        false
    } else if len == 1 {
        edge(stages, links, a, b)
    } else {
        exists|m: u16| #[trigger] edge(stages, links, a, m) && reaches(stages, links, m, b, (len - 1) as nat)
    }
}

/// Stage `b` depends on stage `a` through links without stack buffers.
pub open spec fn reachable(stages: Seq<Seq<bool>>, links: Seq<LinkView>, a: u16, b: u16) -> bool {
    exists|len: nat| #[trigger] reaches(stages, links, a, b, len)
}

/// No stage depends on itself through links without stack buffers.
pub open spec fn acyclic(stages: Seq<Seq<bool>>, links: Seq<LinkView>) -> bool {
    forall|n: u16| !#[trigger] reachable(stages, links, n, n)
}

/// The stages whose outputs go to the output of the graph, in link order.
pub open spec fn spec_final_stages(links: Seq<LinkView>) -> Seq<u16>
    decreases links.len(),
{
    if links.len() == 0 {
        Seq::<u16>::empty()
    } else {
        let rest = spec_final_stages(links.subrange(0, links.len() - 1));
        if links[links.len() - 1].to == 0 {
            rest.push(links[links.len() - 1].from)
        } else {
            rest
        }
    }
}

pub open spec fn loop_message() -> Seq<char> {
    "Обнаружена петля без стековых буферов."@
}

/// The stages and links of the post-processing graph.
pub struct PostprocessingPass {
    stages: Vec<Vec<bool>>,
    links: Vec<RenderStageLink>,
    buffers: Vec<PoolBuffer>,
    busy_buffers: ViewMap<RenderStageLink, u64>,
    image_inputs: ViewMap<(u16, String), u64>,
    outputs: NameMap<u64>,
}

impl View for PostprocessingPass {
    type V = GraphView;

    closed spec fn view(&self) -> GraphView {
        GraphView {
            stages: self.stages@.map_values(|o: Vec<bool>| o@),
            links: links_view(self.links@),
            buffers: self.buffers@,
            busy: self.busy_buffers@,
            image_inputs: self.image_inputs@,
            outputs: self.outputs@,
        }
    }
}

impl PostprocessingPass {
    /// Stage numbers fit the counter and every link starts at an existing output.
    pub open spec fn spec_wf(g: GraphView) -> bool {
        &&& g.stages.len() + 1 <= u16::MAX
        &&& forall|i: int| 0 <= i < g.links.len() ==> #[trigger] link_source_valid(g.stages, g.links[i])
    }

    pub closed spec fn wf(&self) -> bool {
        &&& Self::spec_wf(self@)
        &&& self.busy_buffers.wf()
        &&& self.image_inputs.wf()
        &&& self.outputs.wf()
    }

    /// The graph conditions hold of a well-formed pass.
    pub proof fn lemma_wf(&self)
        requires
            self.wf(),
        ensures
            Self::spec_wf(self@),
    {
    }

    pub fn new() -> (g: Self)
        ensures
            g.wf(),
            g@ == empty_graph(),
    {
        let g = PostprocessingPass {
            stages: Vec::new(),
            links: Vec::new(),
            buffers: Vec::new(),
            busy_buffers: ViewMap::new(),
            image_inputs: ViewMap::new(),
            outputs: NameMap::new(),
        };
        assert(g@.stages =~= Seq::<Seq<bool>>::empty());
        assert(g@.links =~= Seq::<LinkView>::empty());
        g
    }

    /// Adds a stage with the given outputs (true for an output with a stack buffer)
    /// and returns its number: one more than the number of stages before it.
    pub fn register_stage(&mut self, stack_outputs: Vec<bool>) -> (id: StageIndex)
        requires
            old(self).wf(),
            old(self)@.stages.len() + 2 <= u16::MAX,
        ensures
            final(self).wf(),
            id == old(self)@.stages.len() + 1,
            final(self)@ == (GraphView { stages: old(self)@.stages.push(stack_outputs@), ..old(self)@ }),
            final(self)@ == step_graph(old(self)@, GraphStep::RegisterStage(stack_outputs@)),
    {
        let ghost before = self@;
        let id = (self.stages.len() + 1) as u16;
        self.stages.push(stack_outputs);
        assert(self@.stages =~= before.stages.push(stack_outputs@));
        assert forall|i: int| 0 <= i < self@.links.len() implies #[trigger] link_source_valid(self@.stages, self@.links[i]) by {
            assert(link_source_valid(before.stages, before.links[i]));
            assert(self@.stages[before.links[i].from - 1] == before.stages[before.links[i].from - 1]);
        }
        id
    }

    /// The number of stages.
    pub fn stage_count(&self) -> (n: usize)
        ensures
            n == self@.stages.len(),
    {
        self.stages.len()
    }

    /// Removes all stages, links, render buffers, busy buffers, input textures
    /// and output textures; numbering starts again from 1.
    pub fn reset(&mut self)
        ensures
            final(self).wf(),
            final(self)@ == empty_graph(),
            final(self)@ == step_graph(old(self)@, GraphStep::Reset),
    {
        self.stages = Vec::new();
        self.links = Vec::new();
        self.buffers = Vec::new();
        self.busy_buffers = ViewMap::new();
        self.image_inputs = ViewMap::new();
        self.outputs = NameMap::new();
        assert(self@.stages =~= Seq::<Seq<bool>>::empty());
        assert(self@.links =~= Seq::<LinkView>::empty());
    }

    /// The stages linked to the output of the graph (stage 0), in link order.
    pub fn final_stages(&self) -> (r: Vec<StageIndex>)
        ensures
            r@ == spec_final_stages(self@.links),
    {
        let mut r: Vec<StageIndex> = Vec::new();
        let mut i: usize = 0;
        let ghost lv = links_view(self.links@);
        while i < self.links.len()
            invariant
                i <= self.links@.len(),
                lv == links_view(self.links@),
                r@ == spec_final_stages(lv.subrange(0, i as int)),
            decreases self.links@.len() - i,
        {
            proof {
                let p = lv.subrange(0, i as int + 1);
                assert(p.subrange(0, p.len() - 1) =~= lv.subrange(0, i as int));
                assert(p[p.len() - 1] == self.links@[i as int]@);
            }
            if self.links[i]._to.render_stage_id == 0 {
                r.push(self.links[i]._from.render_stage_id);
            }
            i = i + 1;
        }
        assert(lv.subrange(0, self.links@.len() as int) =~= lv);
        r
    }
}

/// Number of `true` entries.
pub open spec fn count_true(s: Seq<bool>) -> nat
    decreases s.len(),
{
    if s.len() == 0 {
        0
    } else {
        count_true(s.subrange(0, s.len() - 1)) + (if s[s.len() - 1] { 1nat } else { 0nat })
    }
}

proof fn lemma_count_true_bounds(s: Seq<bool>)
    ensures
        count_true(s) <= s.len(),
    decreases s.len(),
{
    if s.len() > 0 {
        lemma_count_true_bounds(s.subrange(0, s.len() - 1));
    }
}

proof fn lemma_count_true_set(s: Seq<bool>, i: int)
    requires
        0 <= i < s.len(),
        !s[i],
    ensures
        count_true(s.update(i, true)) == count_true(s) + 1,
    decreases s.len(),
{
    let t = s.update(i, true);
    if i == s.len() - 1 {
        assert(t.subrange(0, t.len() - 1) =~= s.subrange(0, s.len() - 1));
    } else {
        assert(t.subrange(0, t.len() - 1) =~= s.subrange(0, s.len() - 1).update(i, true));
        lemma_count_true_set(s.subrange(0, s.len() - 1), i);
    }
}

/// Every link that ends at `n` without a stack buffer starts at a visited stage.
pub open spec fn closed_at(stages: Seq<Seq<bool>>, links: Seq<LinkView>, visited: Seq<bool>, n: u16) -> bool {
    forall|i: int| 0 <= i < links.len() && links[i].to == n && #[trigger] link_plain(stages, links[i])
        ==> visited[links[i].from as int]
}

pub open spec fn distinct_nodes(s: Seq<u16>) -> bool {
    forall|a: int, b: int| 0 <= a < b < s.len() ==> s[a] != s[b]
}

proof fn lemma_edge_reach(stages: Seq<Seq<bool>>, links: Seq<LinkView>, a: u16, m: u16, b: u16, len: nat)
    requires
        edge(stages, links, a, m),
        reaches(stages, links, m, b, len),
        len >= 1,
    ensures
        reaches(stages, links, a, b, len + 1),
{
    assert(reaches(stages, links, a, b, len + 1));
}

/// With every visited stage closed and the links into `stage` starting at visited
/// stages, every stage that `stage` depends on is visited.
proof fn lemma_closed_complete(
    stages: Seq<Seq<bool>>,
    links: Seq<LinkView>,
    visited: Seq<bool>,
    stage: u16,
    a: u16,
    len: nat,
)
    requires
        visited.len() == 65536,
        closed_at(stages, links, visited, stage),
        forall|m: u16| visited[m as int] ==> #[trigger] closed_at(stages, links, visited, m),
        reaches(stages, links, a, stage, len),
    ensures
        visited[a as int],
    decreases len,
{
    if len == 1 {
        let i = choose|i: int| 0 <= i < links.len() && links[i].from == a && links[i].to == stage && #[trigger] link_plain(stages, links[i]);
    } else {
        let m = choose|m: u16| #[trigger] edge(stages, links, a, m) && reaches(stages, links, m, stage, (len - 1) as nat);
        lemma_closed_complete(stages, links, visited, stage, m, (len - 1) as nat);
        assert(closed_at(stages, links, visited, m));
        let i = choose|i: int| 0 <= i < links.len() && links[i].from == a && links[i].to == m && #[trigger] link_plain(stages, links[i]);
    }
}

impl PostprocessingPass {
    /// Visits every stage with a link without stack buffer into `n` and queues the
    /// stages not visited before.
    fn expand(&self, links: &Vec<RenderStageLink>, n: u16, visited: &mut Vec<bool>, worklist: &mut Vec<u16>)
        requires
            self.wf(),
            forall|i: int| 0 <= i < links@.len() ==> #[trigger] link_source_valid(self@.stages, links_view(links@)[i]),
            old(visited)@.len() == 65536,
            forall|k: int| 0 <= k < old(worklist)@.len() ==> old(visited)@[#[trigger] old(worklist)@[k] as int],
            distinct_nodes(old(worklist)@),
        ensures
            final(visited)@.len() == 65536,
            forall|m: u16| old(visited)@[m as int] ==> #[trigger] final(visited)@[m as int],
            forall|m: u16| #[trigger] final(visited)@[m as int] && !old(visited)@[m as int]
                ==> edge(self@.stages, links_view(links@), m, n) && final(worklist)@.contains(m),
            closed_at(self@.stages, links_view(links@), final(visited)@, n),
            final(worklist)@.subrange(0, old(worklist)@.len() as int) == old(worklist)@,
            old(worklist)@.len() <= final(worklist)@.len(),
            forall|k: int| 0 <= k < final(worklist)@.len() ==> final(visited)@[#[trigger] final(worklist)@[k] as int],
            distinct_nodes(final(worklist)@),
            count_true(final(visited)@) == count_true(old(visited)@) + final(worklist)@.len() - old(worklist)@.len(),
    {
        let ghost lv = links_view(links@);
        let ghost st = self@.stages;
        let ghost v0 = visited@;
        let ghost w0 = worklist@;
        let mut j: usize = 0;
        while j < links.len()
            invariant
                j <= links@.len(),
                lv == links_view(links@),
                st == self@.stages,
                self.wf(),
                forall|i: int| 0 <= i < links@.len() ==> #[trigger] link_source_valid(st, lv[i]),
                visited@.len() == 65536,
                forall|m: u16| v0[m as int] ==> #[trigger] visited@[m as int],
                forall|m: u16| #[trigger] visited@[m as int] && !v0[m as int] ==> edge(st, lv, m, n) && worklist@.contains(m),
                forall|i: int| 0 <= i < j && lv[i].to == n && #[trigger] link_plain(st, lv[i]) ==> visited@[lv[i].from as int],
                worklist@.subrange(0, w0.len() as int) == w0,
                w0.len() <= worklist@.len(),
                forall|k: int| 0 <= k < worklist@.len() ==> visited@[#[trigger] worklist@[k] as int],
                distinct_nodes(worklist@),
                count_true(visited@) == count_true(v0) + worklist@.len() - w0.len(),
            decreases links@.len() - j,
        {
            let link = &links[j];
            assert(lv[j as int] == link@);
            if link._to.render_stage_id == n {
                let from = link._from.render_stage_id;
                proof {
                    assert(link_source_valid(st, lv[j as int]));
                }
                let outputs = &self.stages[(from - 1) as usize];
                assert(outputs@ == st[from - 1]);
                assert(lv[j as int].output == link._from.output);
                let olen = outputs.len();
                assert(link._from.output < olen);
                let out_index = link._from.output as usize;
                assert(out_index as int == link._from.output as int);
                let stacked = outputs[out_index];
                assert(stacked == st[from - 1][link._from.output as int]);
                assert(link_plain(st, lv[j as int]) == !stacked);
                if !stacked && !visited[from as usize] {
                    let ghost vb = visited@;
                    let ghost wb = worklist@;
                    proof {
                        lemma_count_true_set(vb, from as int);
                        assert(link_plain(st, lv[j as int]));
                        assert(edge(st, lv, from, n));
                    }
                    visited.set(from as usize, true);
                    worklist.push(from);
                    proof {
                        assert(worklist@.subrange(0, w0.len() as int) =~= wb.subrange(0, w0.len() as int));
                        assert forall|m: u16| #[trigger] visited@[m as int] && !v0[m as int] implies edge(st, lv, m, n) && worklist@.contains(m) by {
                            if m == from {
                                assert(worklist@[worklist@.len() - 1] == from);
                            } else {
                                assert(vb[m as int]);
                                let k = choose|k: int| 0 <= k < wb.len() && wb[k] == m;
                                assert(worklist@[k] == m);
                            }
                        }
                        assert forall|k: int| 0 <= k < worklist@.len() implies visited@[#[trigger] worklist@[k] as int] by {
                            if k < wb.len() {
                                assert(worklist@[k] == wb[k]);
                            }
                        }
                        assert forall|a: int, b: int| 0 <= a < b < worklist@.len() implies worklist@[a] != worklist@[b] by {
                            if b == worklist@.len() - 1 {
                                assert(vb[worklist@[a] as int]);
                            }
                        }
                    }
                }
            }
            j = j + 1;
        }
    }

    /// Whether `stage` depends on `reference` through the given links, following
    /// only links whose source output has no stack buffer.
    fn check_loop(&self, links: &Vec<RenderStageLink>, reference: StageIndex, stage: StageIndex) -> (r: bool)
        requires
            self.wf(),
            forall|i: int| 0 <= i < links@.len() ==> #[trigger] link_source_valid(self@.stages, links_view(links@)[i]),
        ensures
            r == reachable(self@.stages, links_view(links@), reference, stage),
    {
        let ghost lv = links_view(links@);
        let ghost st = self@.stages;
        let mut visited: Vec<bool> = Vec::new();
        while visited.len() < 65536
            invariant
                visited@.len() <= 65536,
                forall|k: int| 0 <= k < visited@.len() ==> !#[trigger] visited@[k],
            decreases 65536 - visited@.len(),
        {
            visited.push(false);
        }
        proof {
            assert(count_true(visited@) == 0) by {
                lemma_count_zero(visited@);
            }
        }
        let mut worklist: Vec<u16> = Vec::new();
        self.expand(links, stage, &mut visited, &mut worklist);
        proof {
            assert forall|m: u16| #[trigger] visited@[m as int] implies reachable(st, lv, m, stage) by {
                assert(reaches(st, lv, m, stage, 1));
            }
        }
        while worklist.len() > 0
            invariant
                lv == links_view(links@),
                st == self@.stages,
                self.wf(),
                forall|i: int| 0 <= i < links@.len() ==> #[trigger] link_source_valid(st, lv[i]),
                visited@.len() == 65536,
                forall|k: int| 0 <= k < worklist@.len() ==> visited@[#[trigger] worklist@[k] as int],
                distinct_nodes(worklist@),
                forall|m: u16| #[trigger] visited@[m as int] ==> reachable(st, lv, m, stage),
                closed_at(st, lv, visited@, stage),
                forall|m: u16| #[trigger] visited@[m as int] && !worklist@.contains(m) ==> closed_at(st, lv, visited@, m),
            decreases 65536 - count_true(visited@), worklist@.len(),
        {
            proof {
                lemma_count_true_bounds(visited@);
            }
            let ghost vb = visited@;
            let ghost wb = worklist@;
            let n = worklist.pop().unwrap();
            let ghost wp = worklist@;
            proof {
                assert(wp =~= wb.subrange(0, wb.len() - 1));
                assert(!wp.contains(n)) by {
                    if wp.contains(n) {
                        let k = choose|k: int| 0 <= k < wp.len() && wp[k] == n;
                        assert(wb[k] == wb[wb.len() - 1]);
                    }
                }
            }
            self.expand(links, n, &mut visited, &mut worklist);
            proof {
                lemma_count_true_bounds(visited@);
                assert(reachable(st, lv, n, stage));
                assert forall|m: u16| #[trigger] visited@[m as int] implies reachable(st, lv, m, stage) by {
                    if !vb[m as int] {
                        let len = choose|len: nat| #[trigger] reaches(st, lv, n, stage, len);
                        assert(len >= 1);
                        lemma_edge_reach(st, lv, m, n, stage, len);
                    }
                }
                assert forall|i: int| 0 <= i < lv.len() && lv[i].to == stage && #[trigger] link_plain(st, lv[i])
                    implies visited@[lv[i].from as int] by {
                    assert(closed_at(st, lv, vb, stage));
                }
                assert forall|m: u16| #[trigger] visited@[m as int] && !worklist@.contains(m) implies closed_at(st, lv, visited@, m) by {
                    if m != n {
                        if vb[m as int] {
                            assert(!wb.contains(m)) by {
                                if wb.contains(m) {
                                    let k = choose|k: int| 0 <= k < wb.len() && wb[k] == m;
                                    assert(k < wb.len() - 1);
                                    assert(wp[k] == m);
                                    assert(worklist@[k] == m);
                                }
                            }
                            assert(closed_at(st, lv, vb, m));
                            assert forall|i: int| 0 <= i < lv.len() && lv[i].to == m && #[trigger] link_plain(st, lv[i])
                                implies visited@[lv[i].from as int] by {
                                assert(vb[lv[i].from as int]);
                            }
                        }
                    }
                }
            }
        }
        proof {
            assert forall|m: u16| #[trigger] visited@[m as int] implies closed_at(st, lv, visited@, m) by {
                assert(!worklist@.contains(m));
            }
            if reachable(st, lv, reference, stage) {
                let len = choose|len: nat| #[trigger] reaches(st, lv, reference, stage, len);
                lemma_closed_complete(st, lv, visited@, stage, reference, len);
            }
        }
        visited[reference as usize]
    }
}

proof fn lemma_count_zero(s: Seq<bool>)
    requires
        forall|k: int| 0 <= k < s.len() ==> !#[trigger] s[k],
    ensures
        count_true(s) == 0,
    decreases s.len(),
{
    if s.len() > 0 {
        lemma_count_zero(s.subrange(0, s.len() - 1));
    }
}

/// The stack position a link reads: the given index (0 when none is given),
/// truncated to eight bits.
pub open spec fn spec_stack_index(stack_index: Option<usize>) -> u8 {
    match stack_index {
        Some(i) => (i % 256) as u8,
        None => 0,
    }
}

/// The link that `link_stages` adds for its arguments.
pub open spec fn new_link(from: u16, output: u64, stack_index: Option<usize>, to: u16, input: Seq<char>) -> LinkView {
    LinkView { from, output, stack_index: spec_stack_index(stack_index), to, input }
}

impl PostprocessingPass {
    /// Links output `output` of stage `from` to input `input` of stage `to` (stage 0
    /// is the output of the graph). A link that closes a loop of stages is refused,
    /// unless the loop passes through an output with a stack buffer.
    pub fn link_stages(
        &mut self,
        from: StageIndex,
        output: StageOutputIndex,
        stack_index: Option<usize>,
        to: StageIndex,
        input: StageInputIndex,
    ) -> (r: Result<(), String>)
        requires
            old(self).wf(),
            link_source_valid(old(self)@.stages, new_link(from, output, stack_index, to, input@)),
        ensures
            final(self).wf(),
            r is Err <==> reachable(old(self)@.stages, old(self)@.links.push(new_link(from, output, stack_index, to, input@)), from, from)
                || reachable(old(self)@.stages, old(self)@.links.push(new_link(from, output, stack_index, to, input@)), to, to),
            r matches Err(e) ==> e@ == loop_message() && final(self)@ == old(self)@,
            r is Ok ==> final(self)@ == (GraphView {
                links: old(self)@.links.push(new_link(from, output, stack_index, to, input@)),
                ..old(self)@
            }),
            final(self)@ == step_graph(old(self)@, GraphStep::Link(new_link(from, output, stack_index, to, input@))),
    {
        let ghost old_view = self@;
        let ghost nl = new_link(from, output, stack_index, to, input@);
        let stack_index = match stack_index {
            Some(index) => index,
            None => 0,
        };
        let link = RenderStageLink {
            _from: RenderStageOutputSocket { render_stage_id: from, output: output, stack_index: (stack_index % 256) as u8 },
            _to: RenderStageInputSocket { render_stage_id: to, input: input },
        };
        assert(link@ == nl);
        self.links.push(link);
        proof {
            assert(links_view(self.links@) =~= old_view.links.push(nl));
            assert forall|i: int| 0 <= i < self@.links.len() implies #[trigger] link_source_valid(self@.stages, self@.links[i]) by {
                if i < old_view.links.len() {
                    assert(self@.links[i] == old_view.links[i]);
                }
            }
        }
        if self.check_loop(&self.links, from, from) || self.check_loop(&self.links, to, to) {
            self.links.pop();
            assert(links_view(self.links@) =~= old_view.links);
            Err("Обнаружена петля без стековых буферов.".to_owned())
        } else {
            Ok(())
        }
    }
}


/// Stage `b` is stage `a` or depends on it.
pub open spec fn same_or_reachable(stages: Seq<Seq<bool>>, links: Seq<LinkView>, a: u16, b: u16) -> bool {
    a == b || reachable(stages, links, a, b)
}

proof fn lemma_reaches_concat(stages: Seq<Seq<bool>>, links: Seq<LinkView>, a: u16, b: u16, c: u16, l1: nat, l2: nat)
    requires
        reaches(stages, links, a, b, l1),
        reaches(stages, links, b, c, l2),
        l2 >= 1,
    ensures
        reaches(stages, links, a, c, l1 + l2),
    decreases l1,
{
    if l1 == 1 {
        lemma_edge_reach(stages, links, a, b, c, l2);
    } else {
        let m = choose|m: u16| #[trigger] edge(stages, links, a, m) && reaches(stages, links, m, b, (l1 - 1) as nat);
        lemma_reaches_concat(stages, links, m, b, c, (l1 - 1) as nat, l2);
        lemma_edge_reach(stages, links, a, m, c, (l1 - 1 + l2) as nat);
    }
}

proof fn lemma_reachable_concat(stages: Seq<Seq<bool>>, links: Seq<LinkView>, a: u16, b: u16, c: u16)
    requires
        same_or_reachable(stages, links, a, b),
        same_or_reachable(stages, links, b, c),
    ensures
        same_or_reachable(stages, links, a, c),
{
    if a != b && b != c {
        let l1 = choose|len: nat| #[trigger] reaches(stages, links, a, b, len);
        let l2 = choose|len: nat| #[trigger] reaches(stages, links, b, c, len);
        assert(l2 >= 1);
        lemma_reaches_concat(stages, links, a, b, c, l1, l2);
    }
}

/// A chain over the links with `nl` added either avoids `nl`, or passes through it.
proof fn lemma_reaches_split(stages: Seq<Seq<bool>>, links: Seq<LinkView>, nl: LinkView, a: u16, b: u16, len: nat)
    requires
        reaches(stages, links.push(nl), a, b, len),
    ensures
        reaches(stages, links, a, b, len) || (link_plain(stages, nl)
            && same_or_reachable(stages, links.push(nl), a, nl.from)
            && same_or_reachable(stages, links.push(nl), nl.to, b)),
    decreases len,
{
    let nls = links.push(nl);
    if len == 1 {
        let i = choose|i: int| 0 <= i < nls.len() && nls[i].from == a && nls[i].to == b && #[trigger] link_plain(stages, nls[i]);
        if i < links.len() {
            assert(nls[i] == links[i]);
            assert(edge(stages, links, a, b));
        }
    } else {
        let m = choose|m: u16| #[trigger] edge(stages, nls, a, m) && reaches(stages, nls, m, b, (len - 1) as nat);
        lemma_reaches_split(stages, links, nl, m, b, (len - 1) as nat);
        let i = choose|i: int| 0 <= i < nls.len() && nls[i].from == a && nls[i].to == m && #[trigger] link_plain(stages, nls[i]);
        if i < links.len() {
            assert(nls[i] == links[i]);
            assert(edge(stages, links, a, m));
            if !reaches(stages, links, m, b, (len - 1) as nat) {
                if m != nl.from {
                    let l = choose|l: nat| #[trigger] reaches(stages, nls, m, nl.from, l);
                    assert(l >= 1);
                    lemma_edge_reach(stages, nls, a, m, nl.from, l);
                }
                assert(reaches(stages, nls, a, m, 1));
            }
        } else {
            assert(nls[i] == nl);
            assert(reaches(stages, nls, m, b, (len - 1) as nat));
        }
    }
}

/// Adding a link that `link_stages` accepts to a graph without loops (outside stack
/// buffers) leaves the graph without such loops.
pub proof fn lemma_accepted_link_keeps_acyclic(
    stages: Seq<Seq<bool>>,
    links: Seq<LinkView>,
    from: u16,
    output: u64,
    stack_index: Option<usize>,
    to: u16,
    input: Seq<char>,
)
    requires
        acyclic(stages, links),
        !reachable(stages, links.push(new_link(from, output, stack_index, to, input)), from, from),
        !reachable(stages, links.push(new_link(from, output, stack_index, to, input)), to, to),
    ensures
        acyclic(stages, links.push(new_link(from, output, stack_index, to, input))),
{
    let nl = new_link(from, output, stack_index, to, input);
    let nls = links.push(nl);
    assert forall|n: u16| !#[trigger] reachable(stages, nls, n, n) by {
        if reachable(stages, nls, n, n) {
            let len = choose|len: nat| #[trigger] reaches(stages, nls, n, n, len);
            lemma_reaches_split(stages, links, nl, n, n, len);
            if reaches(stages, links, n, n, len) {
                assert(reachable(stages, links, n, n));
            } else {
                assert(nls[links.len() as int] == nl);
                assert(edge(stages, nls, from, to));
                lemma_reachable_concat(stages, nls, to, n, from);
                if to == from {
                    assert(reaches(stages, nls, from, from, 1));
                } else {
                    let l = choose|l: nat| #[trigger] reaches(stages, nls, to, from, l);
                    assert(l >= 1);
                    lemma_edge_reach(stages, nls, from, to, from, l);
                }
                assert(reachable(stages, nls, from, from));
            }
        }
    }
}

proof fn lemma_mod_once(x: int, len: int)
    requires
        0 < len,
        0 <= x < 2 * len,
    ensures
        x % len == (if x < len { x } else { x - len }),
{
    if x < len {
        vstd::arithmetic::div_mod::lemma_small_mod(x as nat, len as nat);
    } else {
        vstd::arithmetic::div_mod::lemma_mod_sub_multiples_vanish(x, len);
        vstd::arithmetic::div_mod::lemma_small_mod((x - len) as nat, len as nat);
    }
}

/// Some link holds the buffer with handle `h`.
pub open spec fn handle_busy(busy: Map<LinkView, u64>, h: u64) -> bool {
    exists|k: LinkView| busy.contains_key(k) && #[trigger] busy[k] == h
}

/// The buffer is free and has the requested size and pixel format.
pub open spec fn buffer_fits(busy: Map<LinkView, u64>, b: PoolBuffer, width: u32, height: u32, pix_fmt: u32) -> bool {
    !handle_busy(busy, b.handle) && b.width == width && b.height == height && b.pix_fmt == pix_fmt
}

/// The handle of the first buffer of the pool that fits, if any does.
pub open spec fn first_fitting(
    buffers: Seq<PoolBuffer>,
    busy: Map<LinkView, u64>,
    width: u32,
    height: u32,
    pix_fmt: u32,
) -> Option<u64>
    decreases buffers.len(),
{
    if buffers.len() == 0 {
        None
    } else if buffer_fits(busy, buffers[0], width, height, pix_fmt) {
        Some(buffers[0].handle)
    } else {
        first_fitting(buffers.drop_first(), busy, width, height, pix_fmt)
    }
}

/// The link leads to a named output of the graph that has a texture bound.
pub open spec fn output_assigned(g: GraphView, link: LinkView) -> bool {
    link.to == 0 && g.outputs.contains_key(link.input)
}

/// The two links leave the same output of the same stage, at the same stack index.
pub open spec fn same_source(a: LinkView, b: LinkView) -> bool {
    a.from == b.from && a.output == b.output && a.stack_index == b.stack_index
}

/// `k` is another link of the graph that leaves the same output as `link`.
pub open spec fn is_sibling(links: Seq<LinkView>, link: LinkView, k: LinkView) -> bool {
    links.contains(k) && same_source(k, link) && k != link
}

/// The busy buffers once every sibling of `link` holds `h` too.
pub open spec fn mark_siblings(busy: Map<LinkView, u64>, links: Seq<LinkView>, link: LinkView, h: u64) -> Map<
    LinkView,
    u64,
> {
    Map::new(
        |k: LinkView| busy.contains_key(k) || is_sibling(links, link, k),
        |k: LinkView| if is_sibling(links, link, k) { h } else { busy[k] },
    )
}

/// The buffer that a request takes: the first free buffer that fits; else,
/// unless the link goes to an output with a bound texture, a new buffer.
pub open spec fn chosen_buffer(g: GraphView, link: LinkView, width: u32, height: u32, pix_fmt: u32, new_handle: u64) -> Option<u64> {
    match first_fitting(g.buffers, g.busy, width, height, pix_fmt) {
        Some(h) => Some(h),
        None => if output_assigned(g, link) { None } else { Some(new_handle) },
    }
}

/// The graph after a request for a buffer to write along `link`, and the texture
/// the stage writes to. The chosen buffer is held by the link and by every other
/// link from the same output; a new buffer joins the pool. A link to a named
/// output writes to the texture bound to it, which the chosen buffer becomes if
/// none was bound.
pub open spec fn spec_request(g: GraphView, link: LinkView, width: u32, height: u32, pix_fmt: u32, new_handle: u64) -> (
    GraphView,
    u64,
) {
    let tex = chosen_buffer(g, link, width, height, pix_fmt, new_handle);
    let buffers = if first_fitting(g.buffers, g.busy, width, height, pix_fmt) is None && !output_assigned(g, link) {
        g.buffers.push(PoolBuffer { handle: new_handle, width, height, pix_fmt })
    } else {
        g.buffers
    };
    let busy = match tex {
        Some(t) => mark_siblings(g.busy.insert(link, t), g.links, link, t),
        None => g.busy,
    };
    if output_assigned(g, link) {
        (GraphView { buffers, busy, ..g }, g.outputs[link.input])
    } else if link.to == 0 {
        (GraphView { buffers, busy, outputs: g.outputs.insert(link.input, tex->0), ..g }, tex->0)
    } else {
        (GraphView { buffers, busy, ..g }, tex->0)
    }
}

/// A buffer that fits is a buffer of the pool that no link holds.
proof fn lemma_first_fitting(buffers: Seq<PoolBuffer>, busy: Map<LinkView, u64>, width: u32, height: u32, pix_fmt: u32)
    ensures
        first_fitting(buffers, busy, width, height, pix_fmt) matches Some(h) ==> exists|i: int|
            0 <= i < buffers.len() && #[trigger] buffers[i].handle == h && buffer_fits(busy, buffers[i], width, height, pix_fmt),
    decreases buffers.len(),
{
    if buffers.len() > 0 && !buffer_fits(busy, buffers[0], width, height, pix_fmt) {
        let rest = buffers.drop_first();
        lemma_first_fitting(rest, busy, width, height, pix_fmt);
        if let Some(h) = first_fitting(rest, busy, width, height, pix_fmt) {
            let i = choose|i: int| 0 <= i < rest.len() && #[trigger] rest[i].handle == h && buffer_fits(busy, rest[i], width, height, pix_fmt);
            assert(buffers[i + 1] == rest[i]);
        }
    }
}

/// A request never hands out a buffer that another link holds: the buffer it
/// takes from the pool was free and has the requested size and format, or is
/// new. Unless the link goes to an output with a bound texture, the link then
/// holds the texture the request returns.
pub proof fn lemma_request_takes_free_buffer(
    g: GraphView,
    link: LinkView,
    width: u32,
    height: u32,
    pix_fmt: u32,
    new_handle: u64,
)
    ensures
        first_fitting(g.buffers, g.busy, width, height, pix_fmt) matches Some(h) ==> exists|i: int|
            0 <= i < g.buffers.len() && #[trigger] g.buffers[i].handle == h && buffer_fits(g.busy, g.buffers[i], width, height, pix_fmt),
        !output_assigned(g, link) ==> spec_request(g, link, width, height, pix_fmt, new_handle).0.busy.contains_key(link)
            && spec_request(g, link, width, height, pix_fmt, new_handle).0.busy[link] == spec_request(
            g,
            link,
            width,
            height,
            pix_fmt,
            new_handle,
        ).1,
{
    lemma_first_fitting(g.buffers, g.busy, width, height, pix_fmt);
}

/// Well-formedness of a graph depends on its stages and links alone.
proof fn lemma_wf_same_graph(a: GraphView, b: GraphView)
    requires
        PostprocessingPass::spec_wf(a),
        a.stages == b.stages,
        a.links == b.links,
    ensures
        PostprocessingPass::spec_wf(b),
{
}

impl PostprocessingPass {
    fn handle_in_use(&self, h: u64) -> (b: bool)
        requires
            self.wf(),
        ensures
            b == handle_busy(self@.busy, h),
    {
        let entries = self.busy_buffers.entries();
        proof {
            self.busy_buffers.lemma_view();
        }
        let mut i: usize = 0;
        while i < entries.len()
            invariant
                self.wf(),
                entries@ == self.busy_buffers.spec_entries(),
                i <= entries@.len(),
                forall|j: int| 0 <= j < i ==> entries@[j].1 != h,
            decreases entries@.len() - i,
        {
            if entries[i].1 == h {
                proof {
                    self.busy_buffers.lemma_view();
                    let k = entries@[i as int].0@;
                    assert(self@.busy.contains_key(k));
                    assert(self@.busy[k] == h);
                }
                return true;
            }
            i = i + 1;
        }
        proof {
            self.busy_buffers.lemma_view();
            if handle_busy(self@.busy, h) {
                let k = choose|k: LinkView| self@.busy.contains_key(k) && #[trigger] self@.busy[k] == h;
                let j = choose|j: int| 0 <= j < entries@.len() && #[trigger] entries@[j].0@ == k;
                assert(self@.busy[entries@[j].0@] == entries@[j].1@);
            }
        }
        false
    }

    fn find_free_buffer(&self, width: u32, height: u32, pix_fmt: u32) -> (r: Option<u64>)
        requires
            self.wf(),
        ensures
            r == first_fitting(self@.buffers, self@.busy, width, height, pix_fmt),
    {
        let mut i: usize = 0;
        assert(self@.buffers.skip(0) =~= self@.buffers);
        while i < self.buffers.len()
            invariant
                self.wf(),
                i <= self.buffers@.len(),
                first_fitting(self@.buffers, self@.busy, width, height, pix_fmt) == first_fitting(
                    self@.buffers.skip(i as int),
                    self@.busy,
                    width,
                    height,
                    pix_fmt,
                ),
            decreases self.buffers@.len() - i,
        {
            let b = self.buffers[i];
            let ghost rest = self@.buffers.skip(i as int);
            assert(rest[0] == b);
            assert(rest.drop_first() =~= self@.buffers.skip(i as int + 1));
            if b.width == width && b.height == height && b.pix_fmt == pix_fmt && !self.handle_in_use(b.handle) {
                return Some(b.handle);
            }
            i = i + 1;
        }
        assert(self@.buffers.skip(i as int).len() == 0);
        None
    }

    fn mark_sibling_links(&mut self, link: &RenderStageLink, tex: u64)
        requires
            old(self).wf(),
        ensures
            final(self).wf(),
            final(self)@ == (GraphView { busy: mark_siblings(old(self)@.busy, old(self)@.links, link@, tex), ..old(self)@ }),
    {
        let ghost g = self@;
        let ghost lv = g.links;
        let mut i: usize = 0;
        proof {
            assert(mark_siblings(g.busy, lv.subrange(0, 0), link@, tex) =~= g.busy) by {
                assert forall|k: LinkView| !#[trigger] lv.subrange(0, 0).contains(k) by {}
            }
        }
        while i < self.links.len()
            invariant
                self.wf(),
                i <= self.links@.len(),
                lv == links_view(self.links@),
                g.links == lv,
                self@ == (GraphView { busy: mark_siblings(g.busy, lv.subrange(0, i as int), link@, tex), ..g }),
                PostprocessingPass::spec_wf(g),
            decreases self.links@.len() - i,
        {
            let other = self.links[i].duplicate();
            let ghost m0 = mark_siblings(g.busy, lv.subrange(0, i as int), link@, tex);
            let ghost p1 = lv.subrange(0, i as int + 1);
            let ghost p0 = lv.subrange(0, i as int);
            assert(other@ == lv[i as int]);
            proof {
                assert forall|k: LinkView| #[trigger] p1.contains(k) <==> (p0.contains(k) || k == lv[i as int]) by {
                    if p1.contains(k) {
                        let j = choose|j: int| 0 <= j < p1.len() && p1[j] == k;
                        if j < i {
                            assert(p0[j] == k);
                        }
                    }
                    if p0.contains(k) {
                        let j = choose|j: int| 0 <= j < p0.len() && p0[j] == k;
                        assert(p1[j] == k);
                    }
                    if k == lv[i as int] {
                        assert(p1[i as int] == k);
                    }
                }
            }
            if other._from.render_stage_id == link._from.render_stage_id && other._from.output == link._from.output
                && other._from.stack_index == link._from.stack_index && !other.view_eq(link) {
                self.busy_buffers.insert(other, tex);
                proof {
                    lemma_wf_same_graph(g, self@);
                }
                proof {
                    assert(self@.busy =~= mark_siblings(g.busy, p1, link@, tex));
                }
            } else {
                proof {
                    assert(mark_siblings(g.busy, p1, link@, tex) =~= m0);
                }
            }
            i = i + 1;
        }
        assert(lv.subrange(0, self.links@.len() as int) =~= lv);
    }

    /// Takes a render buffer for the stage at the start of `link` to write into,
    /// as the graph does while it runs. `width` and `height` are the resolution of
    /// that stage, and `new_handle` the handle of the texture that becomes a new
    /// buffer of the pool when no free buffer fits. Returns the handle of the
    /// texture that the stage writes to.
    pub fn request_texture(&mut self, link: &RenderStageLink, width: u32, height: u32, pix_fmt: u32, new_handle: u64) -> (r: u64)
        requires
            old(self).wf(),
            1 <= link@.from <= old(self)@.stages.len(),
        ensures
            final(self).wf(),
            (final(self)@, r) == spec_request(old(self)@, link@, width, height, pix_fmt, new_handle),
            final(self)@ == step_graph(old(self)@, GraphStep::Request(link@, width, height, pix_fmt, new_handle)),
    {
        let ghost g = self@;
        let found = self.find_free_buffer(width, height, pix_fmt);
        let output_has_texture = link._to.render_stage_id == 0 && self.outputs.contains_key(link._to.input.as_str());
        let texture: Option<u64> = match found {
            Some(h) => {
                self.busy_buffers.insert(link.duplicate(), h);
                proof {
                    lemma_wf_same_graph(g, self@);
                }
                Some(h)
            },
            None => {
                if !output_has_texture {
                    self.buffers.push(PoolBuffer { handle: new_handle, width, height, pix_fmt });
                    self.busy_buffers.insert(link.duplicate(), new_handle);
                    proof {
                        lemma_wf_same_graph(g, self@);
                    }
                    Some(new_handle)
                } else {
                    None
                }
            },
        };
        let ghost g1 = self@;
        assert(texture == chosen_buffer(g, link@, width, height, pix_fmt, new_handle));
        match texture {
            Some(tex) => {
                self.mark_sibling_links(link, tex);
            },
            None => {},
        }
        if output_has_texture {
            match self.outputs.get(link._to.input.as_str()) {
                Some(t) => {
                    return *t;
                },
                None => {
                    return 0;
                },
            }
        }
        match texture {
            Some(tex) => {
                if link._to.render_stage_id == 0 {
                    self.outputs.insert(link._to.input.clone(), tex);
                }
                tex
            },
            None => 0,
        }
    }

    /// Gives back the buffer that `link` holds.
    pub fn free_texture(&mut self, link: &RenderStageLink)
        requires
            old(self).wf(),
        ensures
            final(self).wf(),
            final(self)@ == (GraphView { busy: old(self)@.busy.remove(link@), ..old(self)@ }),
            final(self)@ == step_graph(old(self)@, GraphStep::Free(link@)),
    {
        self.busy_buffers.remove(link);
    }

    /// Hands texture `tex` to input `input` of stage `stage`, in place of any
    /// texture handed to it before.
    pub fn set_input(&mut self, stage: StageIndex, input: StageInputIndex, tex: u64)
        requires
            old(self).wf(),
        ensures
            final(self).wf(),
            final(self)@ == (GraphView {
                image_inputs: old(self)@.image_inputs.insert((stage, input@), tex),
                ..old(self)@
            }),
            final(self)@ == step_graph(old(self)@, GraphStep::SetInput(stage, input@, tex)),
    {
        self.image_inputs.insert((stage, input), tex);
    }

    /// Before the stages run: no link holds a buffer any more.
    pub fn begin_execution(&mut self)
        requires
            old(self).wf(),
        ensures
            final(self).wf(),
            final(self)@ == (GraphView { busy: Map::empty(), ..old(self)@ }),
            final(self)@ == step_graph(old(self)@, GraphStep::BeginExecution),
    {
        self.busy_buffers = ViewMap::new();
    }

    /// After the stages ran: the textures handed to inputs are dropped, to be
    /// handed again for the next run.
    pub fn end_execution(&mut self)
        requires
            old(self).wf(),
        ensures
            final(self).wf(),
            final(self)@ == (GraphView { image_inputs: Map::empty(), ..old(self)@ }),
            final(self)@ == step_graph(old(self)@, GraphStep::EndExecution),
    {
        self.image_inputs = ViewMap::new();
    }

    /// The texture handed to input `input` of stage `stage`, if any.
    pub fn input_texture(&self, stage: StageIndex, input: &StageInputIndex) -> (r: Option<u64>)
        requires
            self.wf(),
        ensures
            r is Some <==> self@.image_inputs.contains_key((stage, input@)),
            r matches Some(t) ==> t == self@.image_inputs[(stage, input@)],
    {
        let key = (stage, input.clone());
        match self.image_inputs.get(&key) {
            Some(t) => Some(*t),
            None => None,
        }
    }

    /// The texture bound to the graph's output `name`, if any.
    pub fn get_output(&self, name: &str) -> (r: Option<u64>)
        requires
            self.wf(),
        ensures
            r is Some <==> self@.outputs.contains_key(name@),
            r matches Some(t) ==> t == self@.outputs[name@],
    {
        match self.outputs.get(name) {
            Some(t) => Some(*t),
            None => None,
        }
    }

    /// Binds texture `tex` to the graph's output `name`: the stage linked to that
    /// output then writes into it.
    pub fn set_output(&mut self, name: StageInputIndex, tex: u64)
        requires
            old(self).wf(),
        ensures
            final(self).wf(),
            final(self)@ == (GraphView { outputs: old(self)@.outputs.insert(name@, tex), ..old(self)@ }),
            final(self)@ == step_graph(old(self)@, GraphStep::SetOutput(name@, tex)),
    {
        self.outputs.insert(name, tex);
    }
}

/// A call that changes the post-processing graph, by its arguments as plain values.
pub enum GraphStep {
    RegisterStage(Seq<bool>),
    Link(LinkView),
    Request(LinkView, u32, u32, u32, u64),
    Free(LinkView),
    SetInput(u16, Seq<char>, u64),
    SetOutput(Seq<char>, u64),
    BeginExecution,
    EndExecution,
    Reset,
}

/// The graph after one call, as the call's contract gives it.
pub open spec fn step_graph(g: GraphView, step: GraphStep) -> GraphView {
    match step {
        GraphStep::RegisterStage(outputs) => GraphView { stages: g.stages.push(outputs), ..g },
        GraphStep::Link(l) => if reachable(g.stages, g.links.push(l), l.from, l.from) || reachable(
            g.stages,
            g.links.push(l),
            l.to,
            l.to,
        ) {
            g
        } else {
            GraphView { links: g.links.push(l), ..g }
        },
        GraphStep::Request(l, width, height, pix_fmt, new_handle) => spec_request(g, l, width, height, pix_fmt, new_handle).0,
        GraphStep::Free(l) => GraphView { busy: g.busy.remove(l), ..g },
        GraphStep::SetInput(stage, input, tex) => GraphView { image_inputs: g.image_inputs.insert((stage, input), tex), ..g },
        GraphStep::SetOutput(name, tex) => GraphView { outputs: g.outputs.insert(name, tex), ..g },
        GraphStep::BeginExecution => GraphView { busy: Map::empty(), ..g },
        GraphStep::EndExecution => GraphView { image_inputs: Map::empty(), ..g },
        GraphStep::Reset => empty_graph(),
    }
}

/// The graph after the calls, one after another.
pub open spec fn run_steps(g: GraphView, steps: Seq<GraphStep>) -> GraphView
    decreases steps.len(),
{
    if steps.len() == 0 {
        g
    } else {
        run_steps(step_graph(g, steps[0]), steps.drop_first())
    }
}

/// The call leaves the texture bound to output `name` alone: it is neither a
/// reset nor a binding of that output.
pub open spec fn keeps_output(step: GraphStep, name: Seq<char>) -> bool {
    match step {
        GraphStep::Reset => false,
        GraphStep::SetOutput(n, _) => n != name,
        _ => true,
    }
}

/// Once `set_output(name, tex)` has bound a texture, `get_output(name)` gives it
/// back after any calls until a `reset` or another `set_output` of that name:
/// no other call unbinds or replaces it.
pub proof fn lemma_output_stays_bound(g: GraphView, name: Seq<char>, tex: u64, steps: Seq<GraphStep>)
    requires
        forall|i: int| 0 <= i < steps.len() ==> keeps_output(#[trigger] steps[i], name),
    ensures
        run_steps(step_graph(g, GraphStep::SetOutput(name, tex)), steps).outputs.contains_key(name),
        run_steps(step_graph(g, GraphStep::SetOutput(name, tex)), steps).outputs[name] == tex,
{
    lemma_steps_keep_output(step_graph(g, GraphStep::SetOutput(name, tex)), name, steps);
}

/// Calls that keep output `name` keep the texture bound to it.
pub proof fn lemma_steps_keep_output(g: GraphView, name: Seq<char>, steps: Seq<GraphStep>)
    requires
        g.outputs.contains_key(name),
        forall|i: int| 0 <= i < steps.len() ==> keeps_output(#[trigger] steps[i], name),
    ensures
        run_steps(g, steps).outputs.contains_key(name),
        run_steps(g, steps).outputs[name] == g.outputs[name],
    decreases steps.len(),
{
    if steps.len() > 0 {
        let g1 = step_graph(g, steps[0]);
        assert(keeps_output(steps[0], name));
        assert(g1.outputs.contains_key(name) && g1.outputs[name] == g.outputs[name]);
        assert forall|i: int| 0 <= i < steps.drop_first().len() implies keeps_output(#[trigger] steps.drop_first()[i], name) by {
            assert(steps.drop_first()[i] == steps[i + 1]);
        }
        lemma_steps_keep_output(g1, name, steps.drop_first());
    }
}

/// An output of a stage: a single buffer, or a stack of buffers that keeps the
/// results of earlier frames. `T` is a buffer and `F` its pixel format.
pub enum RenderStageOutput<T, F> {
    Generic { pix_fmt: F },
    Stack { buffers: Vec<T>, pointer: usize, pix_fmt: F },
}

impl<T, F: Copy> RenderStageOutput<T, F> {
    /// The pointer of a stack names one of its buffers (or is 0 for an empty stack).
    pub open spec fn wf(&self) -> bool {
        match self {
            RenderStageOutput::Stack { buffers, pointer, .. } => *pointer < buffers.len() || (buffers.len() == 0
                && *pointer == 0),
            RenderStageOutput::Generic { .. } => true,
        }
    }

    /// The buffers of a stack from the newest on: entry `k` holds what was pushed
    /// `k` shifts ago. Empty for a single buffer.
    pub open spec fn spec_stack(&self) -> Seq<T> {
        match self {
            RenderStageOutput::Stack { buffers, pointer, .. } => Seq::new(
                buffers.len() as nat,
                |k: int| buffers@[(*pointer + k) % (buffers.len() as int)],
            ),
            RenderStageOutput::Generic { .. } => Seq::empty(),
        }
    }

    pub open spec fn spec_pix_fmt(&self) -> F {
        match self {
            RenderStageOutput::Stack { pix_fmt, .. } => *pix_fmt,
            RenderStageOutput::Generic { pix_fmt } => *pix_fmt,
        }
    }

    /// A stack of the given buffers, the first one newest.
    pub fn new_stack(buffers: Vec<T>, pix_fmt: F) -> (r: Self)
        ensures
            r.wf(),
            r is Stack,
            r.spec_stack() == buffers@,
            r.spec_pix_fmt() == pix_fmt,
    {
        let r = RenderStageOutput::Stack { buffers, pointer: 0, pix_fmt };
        assert(r.spec_stack() =~= buffers@) by {
            assert forall|k: int| 0 <= k < buffers@.len() implies r.spec_stack()[k] == buffers@[k] by {
                assert((0 + k) % (buffers@.len() as int) == k) by (nonlinear_arith)
                    requires 0 <= k < buffers@.len();
            }
        }
        r
    }

    pub fn is_stack(&self) -> (b: bool)
        ensures
            b == self is Stack,
    {
        match self {
            RenderStageOutput::Stack { .. } => true,
            RenderStageOutput::Generic { .. } => false,
        }
    }

    pub fn pix_fmt(&self) -> (f: F)
        ensures
            f == self.spec_pix_fmt(),
    {
        match self {
            RenderStageOutput::Generic { pix_fmt } => *pix_fmt,
            RenderStageOutput::Stack { pix_fmt, .. } => *pix_fmt,
        }
    }

    /// The buffer `offset` shifts back in a stack (the offset is taken as `usize`
    /// and counted modulo the stack size); nothing for a single buffer.
    pub fn get_buffer_with_offset(&self, offset: i32) -> (r: Option<&T>)
        requires
            self.wf(),
            self matches RenderStageOutput::Stack { buffers, pointer, .. } ==> buffers.len() > 0
                && pointer + (offset as usize) <= usize::MAX,
        ensures
            self is Generic ==> r is None,
            self matches RenderStageOutput::Stack { buffers, pointer, .. } ==> r == Some(
                &buffers@[((pointer + (offset as usize)) % (buffers.len() as int))],
            ),
            0 <= offset && self is Stack ==> r == Some(&self.spec_stack()[(offset as int) % (self.spec_stack().len() as int)]),
    {
        let offset = offset as usize;
        match self {
            RenderStageOutput::Stack { buffers, pointer, .. } => {
                let index = (*pointer + offset) % buffers.len();
                proof {
                    let len = buffers.len() as int;
                    let o = offset as int;
                    let p = *pointer as int;
                    if o >= 0 && offset < 0x8000_0000 {
                        assert(0 <= o % len < len) by (nonlinear_arith)
                            requires len > 0;
                        assert((p + o % len) % len == (p + o) % len) by {
                            vstd::arithmetic::div_mod::lemma_add_mod_noop(p, o, len);
                            vstd::arithmetic::div_mod::lemma_mod_twice(o, len);
                            vstd::arithmetic::div_mod::lemma_add_mod_noop(p, o % len, len);
                            vstd::arithmetic::div_mod::lemma_mod_twice(p, len);
                        }
                    }
                }
                Some(&buffers[index])
            },
            RenderStageOutput::Generic { .. } => None,
        }
    }
    /// Pushes `buffer` as the newest buffer of a stack and returns the oldest one,
    /// whose place it takes.
    pub fn shift_stack(&mut self, buffer: T) -> (r: T)
        requires
            old(self).wf(),
            *old(self) is Stack,
            old(self).spec_stack().len() > 0,
        ensures
            final(self).wf(),
            *final(self) is Stack,
            final(self).spec_pix_fmt() == old(self).spec_pix_fmt(),
            r == old(self).spec_stack().last(),
            final(self).spec_stack() == seq![buffer] + old(self).spec_stack().drop_last(),
            *old(self) matches RenderStageOutput::Stack { buffers: ob, pointer: op, .. } ==> (
                *final(self) matches RenderStageOutput::Stack { buffers: nb, pointer: np, .. }
                && np == (op + ob.len() - 1) % (ob.len() as int)
                && nb@ == ob@.update(np as int, buffer)
                && r == ob@[np as int]),
    {
        let ghost old_stack = self.spec_stack();
        let mut buffer = buffer;
        let ghost b0 = buffer;
        match self {
            RenderStageOutput::Stack { buffers, pointer, .. } => {
                let ghost ob = buffers@;
                let ghost op = *pointer as int;
                let len = buffers.len();
                let p = if *pointer == 0 { len - 1 } else { *pointer - 1 };
                std::mem::swap(&mut buffers[p], &mut buffer);
                *pointer = p;
                proof {
                    let l = len as int;
                    let nb = buffers@;
                    assert(nb == ob.update(p as int, b0));
                    lemma_mod_once(op + l - 1, l);
                    assert(buffer == old_stack[l - 1]);
                    assert forall|k: int| 0 <= k < l implies #[trigger] nb[(p + k) % l] == (seq![b0] + old_stack.drop_last())[k] by {
                        lemma_mod_once(p + k, l);
                        if k > 0 {
                            lemma_mod_once(op + k - 1, l);
                            assert((seq![b0] + old_stack.drop_last())[k] == old_stack[k - 1]);
                        }
                    }
                }
            },
            RenderStageOutput::Generic { .. } => {},
        }
        proof {
            assert(self.spec_stack() =~= seq![b0] + old_stack.drop_last());
        }
        buffer
    }
}

/// Pushing a buffer moves every buffer of a stack one place back: after
/// `shift_stack(b)` the stack keeps its size, offset 0 holds `b`, and offset
/// `k + 1` holds what offset `k` held before, for every `k` but the last.
pub proof fn lemma_shift_moves_back<T, F: Copy>(
    before: RenderStageOutput<T, F>,
    after: RenderStageOutput<T, F>,
    b: T,
    k: int,
)
    requires
        before.spec_stack().len() > 0,
        after.spec_stack() == seq![b] + before.spec_stack().drop_last(),
        0 <= k < before.spec_stack().len() - 1,
    ensures
        after.spec_stack().len() == before.spec_stack().len(),
        after.spec_stack()[0] == b,
        after.spec_stack()[k + 1] == before.spec_stack()[k],
{
}

proof fn lemma_count_true_mono(a: Seq<bool>, b: Seq<bool>)
    requires
        a.len() == b.len(),
        forall|i: int| 0 <= i < a.len() && #[trigger] a[i] ==> b[i],
    ensures
        count_true(a) <= count_true(b),
    decreases a.len(),
{
    if a.len() > 0 {
        let pa = a.subrange(0, a.len() - 1);
        let pb = b.subrange(0, b.len() - 1);
        assert forall|i: int| 0 <= i < pa.len() && #[trigger] pa[i] implies pb[i] by {
            assert(a[i] && pa[i] == a[i] && pb[i] == b[i]);
        }
        lemma_count_true_mono(pa, pb);
    }
}

proof fn lemma_count_true_unset(s: Seq<bool>, i: int)
    requires
        0 <= i < s.len(),
        !s[i],
    ensures
        count_true(s) < s.len(),
{
    lemma_count_true_set(s, i);
    lemma_count_true_bounds(s.update(i, true));
}

/// Runs stage `id` the way the graph runs a stage once it is started: first, for
/// each link into `id`, in link order from the `k`-th on, whose source has not
/// been started, that source (started, then run the same way); then `id`
/// itself. `started` holds the flags of the stages started so far; the result is
/// the flags afterwards and the stages in the order they run. `fuel` bounds how
/// deeply runs nest.
pub open spec fn spec_run_stage(links: Seq<LinkView>, started: Seq<bool>, id: u16, k: nat, fuel: nat) -> (Seq<bool>, Seq<u16>)
    decreases fuel, links.len() - k,
{
    if k >= links.len() {
        (started, seq![id])
    } else if links[k as int].to == id && !started[links[k as int].from as int] && fuel > 0 {
        let m = links[k as int].from;
        let (s1, o1) = spec_run_stage(links, started.update(m as int, true), m, 0, (fuel - 1) as nat);
        let (s2, o2) = spec_run_stage(links, s1, id, k + 1, fuel);
        (s2, o1 + o2)
    } else {
        spec_run_stage(links, started, id, k + 1, fuel)
    }
}

/// Runs the given final stages one after another, each started whether or not it
/// ran before.
pub open spec fn spec_run_finals(links: Seq<LinkView>, started: Seq<bool>, finals: Seq<u16>) -> (Seq<bool>, Seq<u16>)
    decreases finals.len(),
{
    if finals.len() == 0 {
        (started, Seq::empty())
    } else {
        let f = finals[0];
        let (s1, o1) = spec_run_stage(links, started.update(f as int, true), f, 0, 65536);
        let (s2, o2) = spec_run_finals(links, s1, finals.drop_first());
        (s2, o1 + o2)
    }
}

/// The stages in the order one execution of the graph runs them: the final
/// stages in the order of `final_stages`, each after the not yet started stages
/// it reads from. No stage is started before the execution. A chain of nested
/// runs passes through distinct stages, so the depth bound of 65536 is never
/// reached.
pub open spec fn spec_execution_order(g: GraphView) -> Seq<u16> {
    spec_run_finals(g.links, Seq::new(65536, |i: int| false), spec_final_stages(g.links)).1
}

impl PostprocessingPass {
    fn run_stage(&self, started: &mut Vec<bool>, id: u16, order: &mut Vec<u16>, Ghost(fuel): Ghost<nat>)
        requires
            self.wf(),
            old(started)@.len() == 65536,
            fuel + count_true(old(started)@) >= 65536,
        ensures
            final(started)@.len() == 65536,
            forall|i: int| 0 <= i < 65536 && #[trigger] old(started)@[i] ==> final(started)@[i],
            final(started)@ == spec_run_stage(self@.links, old(started)@, id, 0, fuel).0,
            final(order)@ == old(order)@ + spec_run_stage(self@.links, old(started)@, id, 0, fuel).1,
        decreases fuel,
    {
        let ghost lv = self@.links;
        let ghost s0 = started@;
        let ghost o0 = order@;
        let mut k: usize = 0;
        while k < self.links.len()
            invariant
                self.wf(),
                lv == self@.links,
                lv == links_view(self.links@),
                k <= self.links@.len(),
                started@.len() == 65536,
                fuel + count_true(started@) >= 65536,
                forall|i: int| 0 <= i < 65536 && #[trigger] s0[i] ==> started@[i],
                o0.len() <= order@.len(),
                order@.subrange(0, o0.len() as int) == o0,
                spec_run_stage(lv, s0, id, 0, fuel) == (
                    spec_run_stage(lv, started@, id, k as nat, fuel).0,
                    order@.subrange(o0.len() as int, order@.len() as int) + spec_run_stage(lv, started@, id, k as nat, fuel).1,
                ),
            decreases self.links@.len() - k,
        {
            let link = &self.links[k];
            assert(lv[k as int] == link@);
            let from = link._from.render_stage_id;
            if link._to.render_stage_id == id && !started[from as usize] {
                let ghost sb = started@;
                let ghost ob = order@;
                proof {
                    lemma_count_true_unset(sb, from as int);
                    lemma_count_true_set(sb, from as int);
                }
                started.set(from as usize, true);
                self.run_stage(started, from, order, Ghost((fuel - 1) as nat));
                proof {
                    let (s1, o1) = spec_run_stage(lv, sb.update(from as int, true), from, 0, (fuel - 1) as nat);
                    assert(started@ == s1);
                    assert(order@ == ob + o1);
                    lemma_count_true_mono(sb.update(from as int, true), started@);
                    assert forall|i: int| 0 <= i < 65536 && #[trigger] s0[i] implies started@[i] by {
                        assert(sb.update(from as int, true)[i]);
                    }
                    let rest = spec_run_stage(lv, s1, id, (k + 1) as nat, fuel);
                    assert(spec_run_stage(lv, sb, id, k as nat, fuel) == (rest.0, o1 + rest.1));
                    assert(order@.subrange(0, o0.len() as int) =~= ob.subrange(0, o0.len() as int));
                    assert(order@.subrange(o0.len() as int, order@.len() as int) =~= ob.subrange(
                        o0.len() as int,
                        ob.len() as int,
                    ) + o1);
                    assert(ob.subrange(o0.len() as int, ob.len() as int) + (o1 + rest.1) =~= (ob.subrange(
                        o0.len() as int,
                        ob.len() as int,
                    ) + o1) + rest.1);
                }
            } else {
                assert(spec_run_stage(lv, started@, id, k as nat, fuel) == spec_run_stage(lv, started@, id, (k + 1) as nat, fuel));
            }
            k = k + 1;
        }
        let ghost ob = order@;
        order.push(id);
        proof {
            assert(spec_run_stage(lv, started@, id, k as nat, fuel) == (started@, seq![id]));
            assert(order@.subrange(0, o0.len() as int) =~= ob.subrange(0, o0.len() as int));
            assert(order@ =~= o0 + (ob.subrange(o0.len() as int, ob.len() as int) + seq![id]));
        }
    }

    /// The stages in the order one execution of the graph runs them.
    pub fn execution_order(&self) -> (r: Vec<StageIndex>)
        requires
            self.wf(),
        ensures
            r@ == spec_execution_order(self@),
    {
        let finals = self.final_stages();
        let ghost lv = self@.links;
        let mut started: Vec<bool> = Vec::new();
        while started.len() < 65536
            invariant
                started@.len() <= 65536,
                forall|k: int| 0 <= k < started@.len() ==> !#[trigger] started@[k],
            decreases 65536 - started@.len(),
        {
            started.push(false);
        }
        assert(started@ =~= Seq::new(65536, |i: int| false));
        let ghost z = started@;
        let mut order: Vec<u16> = Vec::new();
        let mut i: usize = 0;
        proof {
            assert(finals@.skip(0) =~= finals@);
            let all = spec_run_finals(lv, z, finals@).1;
            assert(order@ + all =~= all);
        }
        while i < finals.len()
            invariant
                self.wf(),
                lv == self@.links,
                finals@ == spec_final_stages(lv),
                i <= finals@.len(),
                started@.len() == 65536,
                spec_run_finals(lv, z, finals@) == (
                    spec_run_finals(lv, started@, finals@.skip(i as int)).0,
                    order@ + spec_run_finals(lv, started@, finals@.skip(i as int)).1,
                ),
            decreases finals@.len() - i,
        {
            let f = finals[i];
            let ghost sb = started@;
            let ghost ob = order@;
            started.set(f as usize, true);
            self.run_stage(&mut started, f, &mut order, Ghost(65536));
            proof {
                let tail = finals@.skip(i as int);
                assert(tail[0] == f);
                assert(tail.drop_first() =~= finals@.skip(i as int + 1));
                let (s1, o1) = spec_run_stage(lv, sb.update(f as int, true), f, 0, 65536);
                let rest = spec_run_finals(lv, s1, finals@.skip(i as int + 1));
                assert(spec_run_finals(lv, sb, tail) == (rest.0, o1 + rest.1));
                assert(ob + (o1 + rest.1) =~= (ob + o1) + rest.1);
            }
            i = i + 1;
        }
        proof {
            assert(finals@.skip(i as int) =~= Seq::<u16>::empty());
            assert(order@ + Seq::<u16>::empty() =~= order@);
        }
        order
    }
}

/// Every link into a started stage that is not in `pending` comes from a started
/// stage.
pub open spec fn closed_except(links: Seq<LinkView>, started: Seq<bool>, pending: Set<u16>) -> bool {
    forall|i: int|
        #![trigger links[i]]
        0 <= i < links.len() && started[links[i].to as int] && !pending.contains(links[i].to)
            ==> started[links[i].from as int]
}

proof fn lemma_run_stage(
    links: Seq<LinkView>,
    s: Seq<bool>,
    id: u16,
    k: nat,
    fuel: nat,
    pending: Set<u16>,
)
    requires
        s.len() == 65536,
        s[id as int],
        fuel + count_true(s) >= 65536,
        closed_except(links, s, pending.insert(id)),
        forall|j: int| #![trigger links[j]] 0 <= j < k && j < links.len() && links[j].to == id ==> s[links[j].from as int],
    ensures
        spec_run_stage(links, s, id, k, fuel).0.len() == 65536,
        forall|m: u16| #[trigger] spec_run_stage(links, s, id, k, fuel).0[m as int] <==> (s[m as int] || spec_run_stage(
            links,
            s,
            id,
            k,
            fuel,
        ).1.contains(m)),
        spec_run_stage(links, s, id, k, fuel).1.contains(id),
        count_true(spec_run_stage(links, s, id, k, fuel).0) >= count_true(s),
        closed_except(links, spec_run_stage(links, s, id, k, fuel).0, pending),
    decreases fuel, links.len() - k,
{
    let r = spec_run_stage(links, s, id, k, fuel);
    if k >= links.len() {
        assert(r.1 == seq![id]);
        assert(r.1[0] == id);
        assert forall|m: u16| #[trigger] r.0[m as int] <==> (s[m as int] || r.1.contains(m)) by {
            if r.1.contains(m) {
                let j = choose|j: int| 0 <= j < r.1.len() && r.1[j] == m;
                assert(j == 0);
            }
        }
        assert forall|i: int|
            #![trigger links[i]]
            0 <= i < links.len() && r.0[links[i].to as int] && !pending.contains(links[i].to) implies r.0[links[i].from
                as int] by {
            if links[i].to == id {
            } else {
                assert(!pending.insert(id).contains(links[i].to));
            }
        }
    } else if links[k as int].to == id && !s[links[k as int].from as int] && fuel > 0 {
        let m = links[k as int].from;
        let s_pre = s.update(m as int, true);
        lemma_count_true_set(s, m as int);
        assert forall|i: int|
            #![trigger links[i]]
            0 <= i < links.len() && s_pre[links[i].to as int] && !pending.insert(id).insert(m).contains(links[i].to)
                implies s_pre[links[i].from as int] by {
            assert(links[i].to != m);
            assert(s[links[i].to as int]);
            assert(!pending.insert(id).contains(links[i].to));
        }
        lemma_run_stage(links, s_pre, m, 0, (fuel - 1) as nat, pending.insert(id));
        let (s1, o1) = spec_run_stage(links, s_pre, m, 0, (fuel - 1) as nat);
        lemma_count_true_mono(s, s_pre);
        assert forall|j: int| #![trigger links[j]] 0 <= j < k + 1 && j < links.len() && links[j].to == id implies s1[links[j].from
            as int] by {
            if j < k {
                assert(s[links[j].from as int]);
                assert(s_pre[links[j].from as int]);
            } else {
                assert(s_pre[m as int]);
            }
        }
        assert(s1[id as int]) by {
            assert(s_pre[id as int]);
        }
        lemma_run_stage(links, s1, id, k + 1, fuel, pending);
        let (s2, o2) = spec_run_stage(links, s1, id, k + 1, fuel);
        assert(r == (s2, o1 + o2));
        assert(o1.contains(m));
        assert forall|x: u16| #[trigger] s2[x as int] <==> (s[x as int] || (o1 + o2).contains(x)) by {
            if o1.contains(x) {
                let j = choose|j: int| 0 <= j < o1.len() && o1[j] == x;
                assert((o1 + o2)[j] == x);
            }
            if o2.contains(x) {
                let j = choose|j: int| 0 <= j < o2.len() && o2[j] == x;
                assert((o1 + o2)[o1.len() + j] == x);
            }
            if (o1 + o2).contains(x) {
                let j = choose|j: int| 0 <= j < (o1 + o2).len() && (o1 + o2)[j] == x;
                if j < o1.len() {
                    assert(o1[j] == x);
                } else {
                    assert(o2[j - o1.len()] == x);
                }
            }
            if x == m {
                assert(s_pre[x as int]);
            }
        }
        assert(o2.contains(id));
        let j2 = choose|j: int| 0 <= j < o2.len() && o2[j] == id;
        assert((o1 + o2)[o1.len() + j2] == id);
    } else {
        if links[k as int].to == id && !s[links[k as int].from as int] {
            lemma_count_true_unset(s, links[k as int].from as int);
        }
        lemma_run_stage(links, s, id, k + 1, fuel, pending);
    }
}

/// A closed set of started stages: every link into a started stage comes from a
/// started stage.
pub open spec fn closed(links: Seq<LinkView>, started: Seq<bool>) -> bool {
    closed_except(links, started, Set::empty())
}

proof fn lemma_run_finals(links: Seq<LinkView>, s: Seq<bool>, finals: Seq<u16>)
    requires
        s.len() == 65536,
        closed(links, s),
    ensures
        spec_run_finals(links, s, finals).0.len() == 65536,
        forall|m: u16| #[trigger] spec_run_finals(links, s, finals).0[m as int] <==> (s[m as int] || spec_run_finals(
            links,
            s,
            finals,
        ).1.contains(m)),
        closed(links, spec_run_finals(links, s, finals).0),
        forall|i: int| 0 <= i < finals.len() ==> spec_run_finals(links, s, finals).1.contains(#[trigger] finals[i]),
    decreases finals.len(),
{
    if finals.len() > 0 {
        let f = finals[0];
        let s_pre = s.update(f as int, true);
        lemma_count_true_bounds(s_pre);
        assert forall|i: int|
            #![trigger links[i]]
            0 <= i < links.len() && s_pre[links[i].to as int] && !Set::<u16>::empty().insert(f).contains(links[i].to)
                implies s_pre[links[i].from as int] by {
            assert(s[links[i].to as int]);
            assert(!Set::<u16>::empty().contains(links[i].to));
        }
        lemma_run_stage(links, s_pre, f, 0, 65536, Set::empty());
        let (s1, o1) = spec_run_stage(links, s_pre, f, 0, 65536);
        lemma_run_finals(links, s1, finals.drop_first());
        let (s2, o2) = spec_run_finals(links, s1, finals.drop_first());
        let r = spec_run_finals(links, s, finals);
        assert(r == (s2, o1 + o2));
        assert forall|x: u16| #[trigger] s2[x as int] <==> (s[x as int] || (o1 + o2).contains(x)) by {
            if o1.contains(x) {
                let j = choose|j: int| 0 <= j < o1.len() && o1[j] == x;
                assert((o1 + o2)[j] == x);
            }
            if o2.contains(x) {
                let j = choose|j: int| 0 <= j < o2.len() && o2[j] == x;
                assert((o1 + o2)[o1.len() + j] == x);
            }
            if (o1 + o2).contains(x) {
                let j = choose|j: int| 0 <= j < (o1 + o2).len() && (o1 + o2)[j] == x;
                if j < o1.len() {
                    assert(o1[j] == x);
                } else {
                    assert(o2[j - o1.len()] == x);
                }
            }
            if x == f {
                assert(s_pre[x as int]);
            }
        }
        assert forall|i: int| 0 <= i < finals.len() implies (o1 + o2).contains(#[trigger] finals[i]) by {
            if i == 0 {
                let j = choose|j: int| 0 <= j < o1.len() && o1[j] == f;
                assert((o1 + o2)[j] == f);
            } else {
                assert(finals.drop_first()[i - 1] == finals[i]);
                assert(o2.contains(finals.drop_first()[i - 1]));
                let j = choose|j: int| 0 <= j < o2.len() && o2[j] == finals[i];
                assert((o1 + o2)[o1.len() + j] == finals[i]);
            }
        }
    }
}

/// One execution of the graph runs every final stage, and it runs every stage
/// that a stage it runs reads from, through links of either kind.
pub proof fn lemma_execution_runs_inputs(g: GraphView)
    ensures
        forall|i: int| 0 <= i < spec_final_stages(g.links).len()
            ==> spec_execution_order(g).contains(#[trigger] spec_final_stages(g.links)[i]),
        forall|i: int|
            #![trigger g.links[i]]
            0 <= i < g.links.len() && spec_execution_order(g).contains(g.links[i].to)
                ==> spec_execution_order(g).contains(g.links[i].from),
{
    let z = Seq::new(65536, |i: int| false);
    lemma_run_finals(g.links, z, spec_final_stages(g.links));
    let r = spec_run_finals(g.links, z, spec_final_stages(g.links));
    assert forall|i: int|
        #![trigger g.links[i]]
        0 <= i < g.links.len() && r.1.contains(g.links[i].to) implies r.1.contains(g.links[i].from) by {
        assert(r.0[g.links[i].to as int]);
        assert(!Set::<u16>::empty().contains(g.links[i].to));
        assert(r.0[g.links[i].from as int]);
        assert(!z[g.links[i].from as int]);
    }
}

/// The graph after making the links one after another the way `link_stages`
/// makes them, stopping at the first refused link; and whether every link was
/// made.
pub open spec fn spec_link_all(g: GraphView, ls: Seq<LinkView>) -> (GraphView, bool)
    decreases ls.len(),
{
    if ls.len() == 0 {
        (g, true)
    } else {
        let l = ls[0];
        let added = g.links.push(l);
        if reachable(g.stages, added, l.from, l.from) || reachable(g.stages, added, l.to, l.to) {
            (g, false)
        } else {
            spec_link_all(GraphView { links: added, ..g }, ls.drop_first())
        }
    }
}

/// Linking stages changes the links alone: stages, buffers, input textures and
/// the textures bound to outputs stay as they were.
pub proof fn lemma_link_all_changes_only_links(g: GraphView, ls: Seq<LinkView>)
    ensures
        spec_link_all(g, ls).0 == (GraphView { links: spec_link_all(g, ls).0.links, ..g }),
    decreases ls.len(),
{
    if ls.len() > 0 {
        let l = ls[0];
        let added = g.links.push(l);
        if !(reachable(g.stages, added, l.from, l.from) || reachable(g.stages, added, l.to, l.to)) {
            lemma_link_all_changes_only_links(GraphView { links: added, ..g }, ls.drop_first());
        }
    }
}

/// A link request as `link_stages` takes it: source stage, output, stack
/// position, target stage and input.
pub type LinkRequest = (StageIndex, StageOutputIndex, Option<usize>, StageIndex, StageInputIndex);

/// The link that a request asks for.
pub open spec fn request_link(q: LinkRequest) -> LinkView {
    new_link(q.0, q.1, q.2, q.3, q.4@)
}

/// Making links keeps a graph without loops (outside stack buffers) so.
pub proof fn lemma_link_all_keeps_acyclic(g: GraphView, ls: Seq<LinkView>)
    requires
        acyclic(g.stages, g.links),
    ensures
        acyclic(spec_link_all(g, ls).0.stages, spec_link_all(g, ls).0.links),
    decreases ls.len(),
{
    if ls.len() > 0 {
        let l = ls[0];
        let added = g.links.push(l);
        if !(reachable(g.stages, added, l.from, l.from) || reachable(g.stages, added, l.to, l.to)) {
            assert(l == new_link(l.from, l.output, if l.stack_index == 0 { None } else { Some(l.stack_index as usize) }, l.to, l.input));
            lemma_accepted_link_keeps_acyclic(g.stages, g.links, l.from, l.output,
                if l.stack_index == 0 { None } else { Some(l.stack_index as usize) }, l.to, l.input);
            lemma_link_all_keeps_acyclic(GraphView { links: added, ..g }, ls.drop_first());
        }
    }
}

impl PostprocessingPass {
    /// Makes the requested links one after another and stops at the first one
    /// that would close a loop without a stack buffer.
    pub fn link_all_stages(&mut self, requests: Vec<LinkRequest>) -> (r: Result<(), String>)
        requires
            old(self).wf(),
            forall|i: int| 0 <= i < requests@.len() ==> link_source_valid(old(self)@.stages, #[trigger] request_link(requests@[i])),
        ensures
            final(self).wf(),
            (final(self)@, r is Ok) == spec_link_all(old(self)@, requests@.map_values(|q: LinkRequest| request_link(q))),
            r matches Err(e) ==> e@ == loop_message(),
    {
        let ghost all = requests@.map_values(|q: LinkRequest| request_link(q));
        let ghost start = self@;
        let mut i: usize = 0;
        proof {
            assert(all.skip(0) =~= all);
        }
        while i < requests.len()
            invariant
                self.wf(),
                i <= requests@.len(),
                all == requests@.map_values(|q: LinkRequest| request_link(q)),
                self@.stages == start.stages,
                start == old(self)@,
                forall|j: int| 0 <= j < requests@.len() ==> link_source_valid(start.stages, #[trigger] request_link(requests@[j])),
                spec_link_all(start, all) == spec_link_all(self@, all.skip(i as int)),
            decreases requests@.len() - i,
        {
            let ghost before = self@;
            let q = &requests[i];
            assert(all[i as int] == request_link(*q));
            assert(link_source_valid(start.stages, request_link(requests@[i as int])));
            let input = q.4.clone();
            assert(new_link(q.0, q.1, q.2, q.3, input@) == request_link(*q));
            let res = self.link_stages(q.0, q.1, q.2, q.3, input);
            proof {
                let tail = all.skip(i as int);
                assert(tail[0] == all[i as int]);
                assert(tail.drop_first() =~= all.skip(i as int + 1));
            }
            match res {
                Ok(()) => {},
                Err(e) => {
                    return Err(e);
                },
            }
            i = i + 1;
        }
        proof {
            assert(all.skip(i as int) =~= Seq::<LinkView>::empty());
        }
        Ok(())
    }
}

/// The links that join the stages of the deferred pipeline, in the order they
/// are made: lighting to reflections (diffuse, then specular), reflections to
/// the composer (diffuse, then specular), the composer to the temporal filter,
/// the filter to FXAA and FXAA to the Y flip when FXAA is on (else the filter to
/// the Y flip), and output 0 of the Y flip to the graph output `swapchain_out`.
pub open spec fn pipeline_links(
    lighting: DeferredLighting,
    ssr: ScreenSpaceReflections,
    composer: Composer,
    denoiser: TemporalDeoiser,
    fxaa: Option<FxaaFilter>,
    flip_y: u16,
) -> Seq<LinkView> {
    let front = seq![
        new_link(lighting.stage_id, lighting.diffuse_out, None, ssr.stage_id, ssr.diffuse_in@),
        new_link(lighting.stage_id, lighting.specular_out, None, ssr.stage_id, ssr.specular_in@),
        new_link(ssr.stage_id, ssr.diffuse_out, None, composer.stage_id, composer.diffuse_input@),
        new_link(ssr.stage_id, ssr.specular_out, None, composer.stage_id, composer.specular_input@),
        new_link(composer.stage_id, composer.output, None, denoiser.stage_id, denoiser.input@),
    ];
    let middle = match fxaa {
        Some(f) => seq![
            new_link(denoiser.stage_id, denoiser.output, None, f.stage_id, f.input@),
            new_link(f.stage_id, f.output, None, flip_y, "image_in"@),
        ],
        None => seq![new_link(denoiser.stage_id, denoiser.output, None, flip_y, "image_in"@)],
    };
    front + middle + seq![new_link(flip_y, 0, None, 0, "swapchain_out"@)]
}

/// `pipeline_links` of stages given by reference.
pub open spec fn pipeline_links_of(
    lighting: &DeferredLighting,
    ssr: &ScreenSpaceReflections,
    composer: &Composer,
    denoiser: &TemporalDeoiser,
    fxaa: Option<&FxaaFilter>,
    flip_y: u16,
) -> Seq<LinkView> {
    pipeline_links(*lighting, *ssr, *composer, *denoiser, match fxaa {
        Some(f) => Some(*f),
        None => None,
    }, flip_y)
}

/// The size of the geometry pass: half the output size (rounded down) with
/// temporal super resolution, the output size without.
pub fn geometry_dimensions(width: u16, height: u16, super_resolution: bool) -> (r: (u16, u16))
    ensures
        r == (if super_resolution { ((width / 2) as u16, (height / 2) as u16) } else { (width, height) }),
{
    if super_resolution {
        (width / 2, height / 2)
    } else {
        (width, height)
    }
}

impl PostprocessingPass {
    /// Joins the stages of the deferred pipeline (see `pipeline_links`), stopping
    /// at the first link that would close a loop without a stack buffer.
    pub fn link_pipeline(
        &mut self,
        lighting: &DeferredLighting,
        ssr: &ScreenSpaceReflections,
        composer: &Composer,
        denoiser: &TemporalDeoiser,
        fxaa: Option<&FxaaFilter>,
        flip_y: StageIndex,
    ) -> (r: Result<(), String>)
        requires
            old(self).wf(),
            forall|i: int| 0 <= i < pipeline_links_of(lighting, ssr, composer, denoiser, fxaa, flip_y).len()
                ==> link_source_valid(old(self)@.stages, #[trigger] pipeline_links_of(lighting, ssr, composer, denoiser,
                fxaa, flip_y)[i]),
        ensures
            final(self).wf(),
            (final(self)@, r is Ok) == spec_link_all(old(self)@, pipeline_links_of(lighting, ssr, composer, denoiser, fxaa,
                flip_y)),
            r matches Err(e) ==> e@ == loop_message(),
    {
        let ghost expected = pipeline_links_of(lighting, ssr, composer, denoiser, fxaa, flip_y);
        let mut requests: Vec<LinkRequest> = Vec::new();
        requests.push((lighting.stage_id, lighting.diffuse_out, None, ssr.stage_id, ssr.diffuse_in.clone()));
        requests.push((lighting.stage_id, lighting.specular_out, None, ssr.stage_id, ssr.specular_in.clone()));
        requests.push((ssr.stage_id, ssr.diffuse_out, None, composer.stage_id, composer.diffuse_input.clone()));
        requests.push((ssr.stage_id, ssr.specular_out, None, composer.stage_id, composer.specular_input.clone()));
        requests.push((composer.stage_id, composer.output, None, denoiser.stage_id, denoiser.input.clone()));
        match fxaa {
            Some(f) => {
                requests.push((denoiser.stage_id, denoiser.output, None, f.stage_id, f.input.clone()));
                requests.push((f.stage_id, f.output, None, flip_y, "image_in".to_owned()));
            },
            None => {
                requests.push((denoiser.stage_id, denoiser.output, None, flip_y, "image_in".to_owned()));
            },
        }
        requests.push((flip_y, 0, None, 0, "swapchain_out".to_owned()));
        assert(requests@.map_values(|q: LinkRequest| request_link(q)) =~= expected);
        assert forall|i: int| 0 <= i < requests@.len() implies link_source_valid(
            self@.stages,
            #[trigger] request_link(requests@[i]),
        ) by {
            assert(request_link(requests@[i]) == requests@.map_values(|q: LinkRequest| request_link(q))[i]);
            assert(link_source_valid(self@.stages, expected[i]));
        }
        self.link_all_stages(requests)
    }
}

} // verus!
