//! The draw plan of the geometry pass: which objects are drawn, in what order,
//! and how they are grouped into instanced draw calls.
use vstd::prelude::*;

verus! {

/// An object of the draw list as the geometry pass sees it: the hash of its
/// material's program, its material, the vertex buffer and the mesh it draws,
/// and whether it passed the frustum test.
#[derive(Clone, Copy, Debug, PartialEq, Eq, Structural)]
pub struct DrawItem {
    pub shader_hash: u64,
    pub material_id: u64,
    pub buffer_id: u64,
    pub mesh_id: u64,
    pub visible: bool,
}

/// Consecutive instances of one mesh: `instance_count` entries of the instance
/// buffer from `first_instance` on.
#[derive(Clone, Copy, Debug, PartialEq, Eq, Structural)]
pub struct InstanceRun {
    pub mesh_id: u64,
    pub first_instance: u32,
    pub instance_count: u32,
}

/// One draw call: a direct draw when it has one run, an indirect one otherwise.
pub struct DrawCall {
    pub material_id: u64,
    pub buffer_id: u64,
    pub runs: Vec<InstanceRun>,
}

pub struct DrawCallView {
    pub material_id: u64,
    pub buffer_id: u64,
    pub runs: Seq<InstanceRun>,
}

impl View for DrawCall {
    type V = DrawCallView;

    open spec fn view(&self) -> DrawCallView {
        DrawCallView { material_id: self.material_id, buffer_id: self.buffer_id, runs: self.runs@ }
    }
}

/// The plan: the visible objects in drawing order (as indices into the draw
/// list; the instance buffer holds their transforms in this order) and the
/// draw calls.
pub struct DrawPlan {
    pub order: Vec<usize>,
    pub calls: Vec<DrawCall>,
}

/// Object `a` is drawn before object `b`: by program hash, then material, then
/// vertex buffer; objects equal in all three keep their order in the list.
pub open spec fn draws_before(items: Seq<DrawItem>, a: int, b: int) -> bool {
    let x = items[a];
    let y = items[b];
    ||| x.shader_hash < y.shader_hash
    ||| x.shader_hash == y.shader_hash && x.material_id < y.material_id
    ||| x.shader_hash == y.shader_hash && x.material_id == y.material_id && x.buffer_id < y.buffer_id
    ||| x.shader_hash == y.shader_hash && x.material_id == y.material_id && x.buffer_id == y.buffer_id && a < b
}

/// `order` lists exactly the visible objects, each once, in drawing order.
pub open spec fn is_draw_order(items: Seq<DrawItem>, order: Seq<usize>) -> bool {
    &&& forall|i: int, j: int| 0 <= i < j < order.len() ==> draws_before(items, #[trigger] order[i] as int, #[trigger] order[j] as int)
    &&& forall|k: int| 0 <= k < items.len() && items[k].visible ==> #[trigger] order.contains(k as usize)
    &&& forall|i: int| 0 <= i < order.len() ==> #[trigger] order[i] < items.len() && items[order[i] as int].visible
}

/// The pass's state after the first `n` objects in drawing order: the first
/// instance and the count of the open run, the runs gathered for the next draw
/// call, and the draw calls made.
pub struct PlanState {
    pub first: nat,
    pub count: nat,
    pub pending: Seq<InstanceRun>,
    pub calls: Seq<DrawCallView>,
}

/// One object of the sorted list `s`, at position `i`: a new vertex buffer
/// drops the gathered runs; a new mesh opens a run; the end of a mesh closes
/// it; where the vertex buffer or the material changes next, the gathered runs
/// become a draw call, if there are any.
pub open spec fn plan_step(st: PlanState, s: Seq<DrawItem>, i: int) -> PlanState {
    let last = s.len() - 1;
    let new_buffer = i == 0 || s[i].buffer_id != s[i - 1].buffer_id;
    let new_mesh = i == 0 || s[i].mesh_id != s[i - 1].mesh_id;
    let end_mesh = i == last || s[i].mesh_id != s[i + 1].mesh_id;
    let end_buffer = i == last || s[i].buffer_id != s[i + 1].buffer_id;
    let end_material = i == last || s[i].material_id != s[i + 1].material_id;
    let pending0 = if new_buffer { Seq::<InstanceRun>::empty() } else { st.pending };
    let first = if new_mesh { i as nat } else { st.first };
    let count = if new_mesh { 1nat } else { st.count + 1 };
    let pending1 = if end_mesh {
        pending0.push(InstanceRun { mesh_id: s[i].mesh_id, first_instance: first as u32, instance_count: count as u32 })
    } else {
        pending0
    };
    if end_buffer || end_material {
        PlanState {
            first,
            count,
            pending: Seq::empty(),
            calls: if pending1.len() > 0 {
                st.calls.push(DrawCallView { material_id: s[i].material_id, buffer_id: s[i].buffer_id, runs: pending1 })
            } else {
                st.calls
            },
        }
    } else {
        PlanState { first, count, pending: pending1, calls: st.calls }
    }
}

pub open spec fn plan_state(s: Seq<DrawItem>, n: nat) -> PlanState
    decreases n,
{
    if n == 0 {
        PlanState { first: 0, count: 0, pending: Seq::empty(), calls: Seq::empty() }
    } else {
        plan_step(plan_state(s, (n - 1) as nat), s, n - 1)
    }
}

/// The runs of the draw calls, call after call.
pub open spec fn calls_runs(calls: Seq<DrawCallView>) -> Seq<InstanceRun>
    decreases calls.len(),
{
    if calls.len() == 0 {
        Seq::empty()
    } else {
        calls_runs(calls.drop_last()) + calls.last().runs
    }
}

/// The runs split the first `end` objects of `s` into ranges of the instance
/// buffer, in order and without gaps: each run is non-empty, its objects all
/// draw its mesh, and neighbouring runs draw different meshes.
pub open spec fn runs_tile(s: Seq<DrawItem>, runs: Seq<InstanceRun>, end: nat) -> bool {
    &&& end <= s.len()
    &&& runs.len() == 0 ==> end == 0
    &&& runs.len() > 0 ==> runs[0].first_instance == 0 && runs.last().first_instance + runs.last().instance_count == end
    &&& forall|j: int| 0 <= j < runs.len() ==> #[trigger] runs[j].instance_count > 0
    &&& forall|j: int, t: int|
        0 <= j < runs.len() && runs[j].first_instance <= t < runs[j].first_instance + runs[j].instance_count
            ==> #[trigger] s[t].mesh_id == #[trigger] runs[j].mesh_id
    &&& forall|j: int|
        0 <= j < runs.len() - 1 ==> #[trigger] runs[j + 1].first_instance == runs[j].first_instance
            + runs[j].instance_count && runs[j + 1].mesh_id != runs[j].mesh_id
}

/// The runs gathered so far: those of the calls made, then the pending ones.
pub open spec fn state_runs(st: PlanState) -> Seq<InstanceRun> {
    calls_runs(st.calls) + st.pending
}

/// The object at position `i` is the last of its mesh's run.
pub open spec fn ends_run(s: Seq<DrawItem>, i: int) -> bool {
    i == s.len() - 1 || s[i].mesh_id != s[i + 1].mesh_id
}

/// A draw call is issued after the object at position `i`.
pub open spec fn ends_call(s: Seq<DrawItem>, i: int) -> bool {
    i == s.len() - 1 || s[i].buffer_id != s[i + 1].buffer_id || s[i].material_id != s[i + 1].material_id
}

/// What holds after the first `i` objects have been taken.
pub open spec fn plan_invariant(s: Seq<DrawItem>, i: nat) -> bool {
    let st = plan_state(s, i);
    let r = state_runs(st);
    &&& forall|c: int| 0 <= c < st.calls.len() ==> #[trigger] st.calls[c].runs.len() > 0
    &&& i == 0 ==> r.len() == 0 && st.pending.len() == 0
    &&& i > 0 ==> {
        &&& st.first < i
        &&& st.count == i - st.first
        &&& forall|t: int| st.first <= t < i ==> #[trigger] s[t].mesh_id == s[st.first as int].mesh_id
        &&& st.first > 0 ==> s[st.first - 1].mesh_id != s[st.first as int].mesh_id
        &&& ends_call(s, i - 1) ==> st.pending.len() == 0
        &&& if ends_run(s, i - 1) {
            &&& runs_tile(s, r, i)
            &&& r.last() == InstanceRun {
                mesh_id: s[st.first as int].mesh_id,
                first_instance: st.first as u32,
                instance_count: st.count as u32,
            }
        } else {
            runs_tile(s, r, st.first)
        }
    }
}

proof fn lemma_calls_runs_push(calls: Seq<DrawCallView>, c: DrawCallView)
    ensures
        calls_runs(calls.push(c)) == calls_runs(calls) + c.runs,
{
    assert(calls.push(c).drop_last() =~= calls);
}

proof fn lemma_plan_step(s: Seq<DrawItem>, i: nat)
    requires
        i < s.len(),
        s.len() <= u32::MAX,
        plan_invariant(s, i),
    ensures
        plan_invariant(s, i + 1),
{
    let st = plan_state(s, i);
    let st2 = plan_state(s, i + 1);
    assert(st2 == plan_step(st, s, i as int));
    let ii = i as int;
    let last = s.len() - 1;
    let new_buffer = ii == 0 || s[ii].buffer_id != s[ii - 1].buffer_id;
    let new_mesh = ii == 0 || s[ii].mesh_id != s[ii - 1].mesh_id;
    let end_mesh = ii == last || s[ii].mesh_id != s[ii + 1].mesh_id;
    let pending0 = if new_buffer { Seq::<InstanceRun>::empty() } else { st.pending };
    assert(pending0 == st.pending) by {
        if new_buffer && i > 0 {
            assert(ends_call(s, ii - 1));
        }
    }
    let run = InstanceRun { mesh_id: s[ii].mesh_id, first_instance: st2.first as u32, instance_count: st2.count as u32 };
    let pending1 = if end_mesh { st.pending.push(run) } else { st.pending };
    let r = state_runs(st);
    let r2 = state_runs(st2);
    // The runs gathered grow by the run that ends here, whether or not a call is made.
    assert(r2 == if end_mesh { r.push(run) } else { r }) by {
        if ends_call(s, ii) {
            if pending1.len() > 0 {
                lemma_calls_runs_push(st.calls, DrawCallView { material_id: s[ii].material_id, buffer_id: s[ii].buffer_id, runs: pending1 });
            }
            assert(r2 =~= calls_runs(st.calls) + pending1);
        } else {
            assert(r2 =~= calls_runs(st.calls) + pending1);
        }
        if end_mesh {
            assert(calls_runs(st.calls) + st.pending.push(run) =~= r.push(run));
        }
    }
    assert forall|c: int| 0 <= c < st2.calls.len() implies #[trigger] st2.calls[c].runs.len() > 0 by {
        if ends_call(s, ii) && pending1.len() > 0 {
            let call = DrawCallView { material_id: s[ii].material_id, buffer_id: s[ii].buffer_id, runs: pending1 };
            assert(st2.calls == st.calls.push(call));
            if c < st.calls.len() {
                assert(st2.calls[c] == st.calls[c]);
                assert(st.calls[c].runs.len() > 0);
            } else {
                assert(st2.calls[c] == call);
            }
        } else {
            assert(st2.calls == st.calls);
            assert(st.calls[c].runs.len() > 0);
        }
    }
    if i == 0 {
        assert(st2.first == 0 && st2.count == 1);
        if end_mesh {
            assert(r2 =~= seq![run]);
        }
    } else {
        let was_ended = ends_run(s, ii - 1);
        assert(was_ended == new_mesh);
        if was_ended {
            assert(st2.first == i && st2.count == 1);
            if end_mesh {
                let rl = r.last();
                assert(rl.mesh_id == s[ii - 1].mesh_id);
                assert(r2.len() == r.len() + 1);
                assert forall|j: int, t: int|
                    0 <= j < r2.len() && r2[j].first_instance <= t < r2[j].first_instance + r2[j].instance_count
                    implies #[trigger] s[t].mesh_id == #[trigger] r2[j].mesh_id by {
                    if j < r.len() {
                        assert(r2[j] == r[j]);
                    }
                }
                assert forall|j: int| 0 <= j < r2.len() - 1 implies #[trigger] r2[j + 1].first_instance
                    == r2[j].first_instance + r2[j].instance_count && r2[j + 1].mesh_id != r2[j].mesh_id by {
                    if j + 1 < r.len() {
                        assert(r2[j] == r[j] && r2[j + 1] == r[j + 1]);
                    } else {
                        assert(r2[j] == rl);
                    }
                }
                assert forall|j: int| 0 <= j < r2.len() implies #[trigger] r2[j].instance_count > 0 by {
                    if j < r.len() {
                        assert(r2[j] == r[j]);
                    }
                }
            }
        } else {
            assert(st2.first == st.first && st2.count == st.count + 1);
            assert forall|t: int| st2.first <= t < i + 1 implies #[trigger] s[t].mesh_id == s[st2.first as int].mesh_id by {
                if t == ii {
                    assert(s[ii - 1].mesh_id == s[st.first as int].mesh_id);
                }
            }
            if end_mesh {
                assert(r2.len() == r.len() + 1);
                if r.len() > 0 {
                    let rl = r.last();
                    assert(rl.first_instance + rl.instance_count == st.first);
                    assert(s[st.first - 1].mesh_id == rl.mesh_id);
                }
                assert forall|j: int, t: int|
                    0 <= j < r2.len() && r2[j].first_instance <= t < r2[j].first_instance + r2[j].instance_count
                    implies #[trigger] s[t].mesh_id == #[trigger] r2[j].mesh_id by {
                    if j < r.len() {
                        assert(r2[j] == r[j]);
                    } else {
                        assert(r2[j] == run);
                        assert(s[t].mesh_id == s[st.first as int].mesh_id);
                        assert(s[ii].mesh_id == s[st.first as int].mesh_id);
                    }
                }
                assert forall|j: int| 0 <= j < r2.len() - 1 implies #[trigger] r2[j + 1].first_instance
                    == r2[j].first_instance + r2[j].instance_count && r2[j + 1].mesh_id != r2[j].mesh_id by {
                    if j + 1 < r.len() {
                        assert(r2[j] == r[j] && r2[j + 1] == r[j + 1]);
                    } else {
                        assert(r2[j] == r.last());
                        assert(s[ii].mesh_id == s[st.first as int].mesh_id);
                    }
                }
                assert forall|j: int| 0 <= j < r2.len() implies #[trigger] r2[j].instance_count > 0 by {
                    if j < r.len() {
                        assert(r2[j] == r[j]);
                    }
                }
            }
        }
    }
}

proof fn lemma_plan_invariant(s: Seq<DrawItem>, n: nat)
    requires
        n <= s.len(),
        s.len() <= u32::MAX,
    ensures
        plan_invariant(s, n),
    decreases n,
{
    if n == 0 {
        assert(state_runs(plan_state(s, 0)) =~= Seq::<InstanceRun>::empty());
    } else {
        lemma_plan_invariant(s, (n - 1) as nat);
        lemma_plan_step(s, (n - 1) as nat);
    }
}

/// The draw calls draw every object of the sorted list exactly once: their runs,
/// call after call, split the list into ranges of the instance buffer in order
/// and without gaps or overlaps, so their instance counts add up to the number
/// of objects; each run is one mesh's objects, neighbouring runs differ in mesh,
/// and every draw call has at least one run.
pub proof fn lemma_plan_draws_every_object_once(s: Seq<DrawItem>)
    requires
        s.len() <= u32::MAX,
    ensures
        runs_tile(s, calls_runs(plan_state(s, s.len()).calls), s.len()),
        forall|c: int|
            0 <= c < plan_state(s, s.len()).calls.len() ==> #[trigger] plan_state(s, s.len()).calls[c].runs.len() > 0,
{
    lemma_plan_invariant(s, s.len());
    let st = plan_state(s, s.len());
    if s.len() > 0 {
        assert(ends_call(s, s.len() - 1));
        assert(ends_run(s, s.len() - 1));
    }
    assert(state_runs(st) =~= calls_runs(st.calls));
}

/// The objects of the list in the given order.
pub open spec fn ordered_items(items: Seq<DrawItem>, order: Seq<usize>) -> Seq<DrawItem> {
    order.map_values(|k: usize| items[k as int])
}

fn before(items: &Vec<DrawItem>, a: usize, b: usize) -> (r: bool)
    requires
        a < items@.len(),
        b < items@.len(),
    ensures
        r == draws_before(items@, a as int, b as int),
{
    let x = items[a];
    let y = items[b];
    if x.shader_hash != y.shader_hash {
        x.shader_hash < y.shader_hash
    } else if x.material_id != y.material_id {
        x.material_id < y.material_id
    } else if x.buffer_id != y.buffer_id {
        x.buffer_id < y.buffer_id
    } else {
        a < b
    }
}

/// Drawing order is a strict order.
proof fn lemma_draws_before(items: Seq<DrawItem>, a: int, b: int, c: int)
    ensures
        !draws_before(items, a, a),
        draws_before(items, a, b) && draws_before(items, b, c) ==> draws_before(items, a, c),
        a != b ==> draws_before(items, a, b) || draws_before(items, b, a),
        draws_before(items, a, b) ==> !draws_before(items, b, a),
{
}

/// The visible objects of the list in drawing order.
pub fn draw_order(items: &Vec<DrawItem>) -> (order: Vec<usize>)
    ensures
        is_draw_order(items@, order@),
        order@.len() <= items@.len(),
{
    let mut order: Vec<usize> = Vec::new();
    let mut k: usize = 0;
    while k < items.len()
        invariant
            k <= items@.len(),
            order@.len() <= k,
            forall|i: int, j: int|
                0 <= i < j < order@.len() ==> draws_before(items@, #[trigger] order@[i] as int, #[trigger] order@[j] as int),
            forall|m: int| 0 <= m < k && items@[m].visible ==> #[trigger] order@.contains(m as usize),
            forall|i: int| 0 <= i < order@.len() ==> #[trigger] order@[i] < k && items@[order@[i] as int].visible,
        decreases items@.len() - k,
    {
        if items[k].visible {
            let mut p: usize = 0;
            while p < order.len() && before(items, order[p], k)
                invariant
                    p <= order@.len(),
                    k < items@.len(),
                    forall|i: int| 0 <= i < order@.len() ==> #[trigger] order@[i] < k,
                    forall|i: int| 0 <= i < p ==> draws_before(items@, #[trigger] order@[i] as int, k as int),
                decreases order@.len() - p,
            {
                p = p + 1;
            }
            let ghost old_order = order@;
            proof {
                assert forall|i: int| p <= i < old_order.len() implies draws_before(items@, k as int, #[trigger] old_order[i] as int) by {
                    lemma_draws_before(items@, old_order[p as int] as int, old_order[i] as int, k as int);
                    lemma_draws_before(items@, k as int, old_order[p as int] as int, old_order[i] as int);
                    if i > p {
                        assert(draws_before(items@, old_order[p as int] as int, old_order[i] as int));
                    }
                }
            }
            order.insert(p, k);
            proof {
                let o = order@;
                assert(o == old_order.insert(p as int, k));
                assert forall|i: int, j: int| 0 <= i < j < o.len() implies draws_before(items@, #[trigger] o[i] as int, #[trigger] o[j] as int) by {
                    let i1 = if i < p { i } else { i - 1 };
                    let j1 = if j <= p { j } else { j - 1 };
                    if i == p as int {
                        assert(o[j] == old_order[j1]);
                    } else if j == p as int {
                        assert(o[i] == old_order[i1]);
                    } else {
                        assert(o[i] == old_order[i1]);
                        assert(o[j] == old_order[j1]);
                    }
                }
                assert forall|m: int| 0 <= m < k + 1 && items@[m].visible implies #[trigger] o.contains(m as usize) by {
                    if m == k {
                        assert(o[p as int] == k);
                    } else {
                        assert(old_order.contains(m as usize));
                        let i = choose|i: int| 0 <= i < old_order.len() && old_order[i] == m as usize;
                        let i1 = if i < p { i } else { i + 1 };
                        assert(o[i1] == old_order[i]);
                    }
                }
                assert forall|i: int| 0 <= i < o.len() implies #[trigger] o[i] < k + 1 && items@[o[i] as int].visible by {
                    if i != p as int {
                        let i1 = if i < p { i } else { i - 1 };
                        assert(o[i] == old_order[i1]);
                    }
                }
            }
        } else {
            proof {
                assert forall|m: int| 0 <= m < k + 1 && items@[m].visible implies #[trigger] order@.contains(m as usize) by {}
            }
        }
        k = k + 1;
    }
    order
}

/// The draw calls for objects taken in the given order.
pub fn plan_calls(items: &Vec<DrawItem>, order: &Vec<usize>) -> (calls: Vec<DrawCall>)
    requires
        forall|i: int| 0 <= i < order@.len() ==> #[trigger] order@[i] < items@.len(),
        order@.len() <= u32::MAX,
    ensures
        calls@.map_values(|c: DrawCall| c@) == plan_state(ordered_items(items@, order@), order@.len() as nat).calls,
{
    let ghost s = ordered_items(items@, order@);
    let n = order.len();
    let mut calls: Vec<DrawCall> = Vec::new();
    let mut pending: Vec<InstanceRun> = Vec::new();
    let mut first: usize = 0;
    let mut count: usize = 0;
    let mut i: usize = 0;
    assert(calls@.map_values(|c: DrawCall| c@) =~= Seq::<DrawCallView>::empty());
    assert(pending@ =~= Seq::<InstanceRun>::empty());
    while i < n
        invariant
            n == order@.len(),
            n <= u32::MAX,
            s == ordered_items(items@, order@),
            forall|j: int| 0 <= j < order@.len() ==> #[trigger] order@[j] < items@.len(),
            i <= n,
            first <= i,
            count <= i,
            plan_state(s, i as nat) == (PlanState {
                first: first as nat,
                count: count as nat,
                pending: pending@,
                calls: calls@.map_values(|c: DrawCall| c@),
            }),
        decreases n - i,
    {
        let cur = items[order[i]];
        assert(s[i as int] == cur);
        let new_buffer = i == 0 || cur.buffer_id != items[order[i - 1]].buffer_id;
        let new_mesh = i == 0 || cur.mesh_id != items[order[i - 1]].mesh_id;
        let end_mesh = i == n - 1 || cur.mesh_id != items[order[i + 1]].mesh_id;
        let end_buffer = i == n - 1 || cur.buffer_id != items[order[i + 1]].buffer_id;
        let end_material = i == n - 1 || cur.material_id != items[order[i + 1]].material_id;
        if i > 0 {
            assert(s[i - 1] == items@[order@[i - 1] as int]);
        }
        if i + 1 < n {
            assert(s[i + 1] == items@[order@[i + 1] as int]);
        }
        if new_buffer {
            pending = Vec::new();
        }
        if new_mesh {
            first = i;
            count = 1;
        } else {
            count = count + 1;
        }
        if end_mesh {
            pending.push(InstanceRun { mesh_id: cur.mesh_id, first_instance: first as u32, instance_count: count as u32 });
        }
        let ghost prev_calls = calls@.map_values(|c: DrawCall| c@);
        if end_buffer || end_material {
            if pending.len() > 0 {
                let runs = pending;
                pending = Vec::new();
                calls.push(DrawCall { material_id: cur.material_id, buffer_id: cur.buffer_id, runs });
                assert(calls@.map_values(|c: DrawCall| c@) =~= prev_calls.push(
                    DrawCallView { material_id: cur.material_id, buffer_id: cur.buffer_id, runs: runs@ },
                ));
            } else {
                pending = Vec::new();
            }
        }
        proof {
            assert(pending@ =~= plan_state(s, i as nat + 1).pending);
            assert(calls@.map_values(|c: DrawCall| c@) =~= plan_state(s, i as nat + 1).calls);
        }
        i = i + 1;
    }
    calls
}

/// The draw plan of the geometry pass for a draw list: the visible objects
/// sorted by program, material and vertex buffer (objects equal in these keep
/// their order), and the draw calls that take them in that order.
pub fn plan_draws(items: &Vec<DrawItem>) -> (plan: DrawPlan)
    requires
        items@.len() <= u32::MAX,
    ensures
        is_draw_order(items@, plan.order@),
        plan.calls@.map_values(|c: DrawCall| c@) == plan_state(
            ordered_items(items@, plan.order@),
            plan.order@.len() as nat,
        ).calls,
        runs_tile(
            ordered_items(items@, plan.order@),
            calls_runs(plan.calls@.map_values(|c: DrawCall| c@)),
            plan.order@.len() as nat,
        ),
{
    let order = draw_order(items);
    let calls = plan_calls(items, &order);
    proof {
        let s = ordered_items(items@, order@);
        assert(s.len() == order@.len());
        lemma_plan_draws_every_object_once(s);
    }
    DrawPlan { order, calls }
}

} // verus!
