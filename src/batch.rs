//! The batched evaluation protocol: per-row estimation tasks for the three call shapes, and
//! the assembly of each row's result.
//!
//! A call runs in two steps around the kernel sum. `kde_dynamic_evals`, `kde_static_evals` and
//! `kde_agg` check the input, align the rows and drop missing samples, giving one `RowTask`
//! per output row. The caller evaluates the kernel sum for each task whose
//! `needs_kernel` holds, and `finish_row` turns the task and that outcome into the row.
use crate::column::{
    copy_bits, drop_missing, flat_rows, lemma_flat_rows_prefix_len, lemma_flat_rows_step,
    presence, presence_of, present, ElementType, ListColumn, ListRow, RowView,
};
use crate::estimator::{
    compute_kde, estimate_spec, kernel_needed, kernel_view, needs_kernel, zeros, KernelOutput,
};
use vstd::prelude::*;

verus! {

/// A reported configuration error: a list column whose elements are not single-precision floats.
pub enum KdeError {
    /// The sample column, with the name of its element type.
    TypeMismatch { got: String },
    /// The evaluation-point column, with the name of its element type.
    EvalTypeMismatch { got: String },
}

/// The work for one output row.
///
/// `valid` is false for a row whose input is missing: its output is missing too. `samples` are
/// the row's present samples, `evals` its present evaluation points, and `layout` says which
/// positions of the row's evaluation points were present.
pub struct RowTask {
    pub valid: bool,
    pub samples: Vec<u32>,
    pub evals: Vec<u32>,
    pub layout: Vec<bool>,
}

/// The view of a `RowTask`.
pub struct TaskView {
    pub valid: bool,
    pub samples: Seq<u32>,
    pub evals: Seq<u32>,
    pub layout: Seq<bool>,
}

impl View for RowTask {
    type V = TaskView;

    open spec fn view(&self) -> TaskView {
        TaskView { valid: self.valid, samples: self.samples@, evals: self.evals@, layout: self.layout@ }
    }
}

impl RowTask {
    /// Whether the kernel sum is to be evaluated for this row.
    pub fn needs_kernel(&self) -> (r: bool)
        ensures
            r == (self.valid && kernel_needed(self.samples@)),
    {
        self.valid && needs_kernel(&self.samples)
    }
}

/// The task of a row whose input is missing.
pub open spec fn missing_task() -> TaskView {
    TaskView { valid: false, samples: Seq::empty(), evals: Seq::empty(), layout: Seq::empty() }
}

/// `k` present positions.
pub open spec fn all_present(k: nat) -> Seq<bool> {
    Seq::new(k, |i: int| true)
}

/// The present samples of a row.
pub open spec fn sample_set_view(r: RowView) -> Option<Seq<u32>> {
    match r {
        Some(s) => Some(present(s)),
        None => None,
    }
}

/// The view of an optional vector of values.
pub open spec fn opt_bits_view(o: Option<Vec<u32>>) -> Option<Seq<u32>> {
    match o {
        Some(v) => Some(v@),
        None => None,
    }
}

/// The task pairing the present samples `set` of a row with the row's evaluation points `e`.
pub open spec fn task_from(set: Option<Seq<u32>>, e: RowView) -> TaskView {
    match (set, e) {
        (Some(s), Some(e)) => TaskView { valid: true, samples: s, evals: present(e), layout: presence(e) },
        _ => missing_task(),
    }
}

/// The task of a row with samples `s` and its own evaluation points `e`.
pub open spec fn dynamic_task(s: RowView, e: RowView) -> TaskView {
    task_from(sample_set_view(s), e)
}

/// The task of a row with samples `s` and the shared evaluation points `e`.
pub open spec fn static_task(s: RowView, e: Seq<u32>) -> TaskView {
    match s {
        Some(s) => TaskView { valid: true, samples: present(s), evals: e, layout: all_present(e.len()) },
        None => missing_task(),
    }
}

/// The task of a whole flat column `values` with the shared evaluation points `e`.
pub open spec fn agg_task(values: Seq<Option<u32>>, e: Seq<u32>) -> TaskView {
    static_task(Some(values), e)
}

/// The tasks for row-aligned sample rows `a` and evaluation-point rows `b`, row by row.
pub open spec fn dynamic_tasks(a: Seq<RowView>, b: Seq<RowView>) -> Seq<TaskView> {
    Seq::new(a.len(), |i: int| dynamic_task(a[i], b[i]))
}

/// The tasks for sample rows `a` with the shared evaluation points `e`, row by row.
pub open spec fn static_tasks(a: Seq<RowView>, e: Seq<u32>) -> Seq<TaskView> {
    Seq::new(a.len(), |i: int| static_task(a[i], e))
}

/// The views of a sequence of tasks.
pub open spec fn tasks_view(t: Seq<RowTask>) -> Seq<TaskView> {
    t.map_values(|x: RowTask| x@)
}

/// The estimates `d` put back at the present positions of `layout`, in order; absent
/// positions, and present ones past the end of `d`, are missing.
pub open spec fn scatter(d: Seq<u32>, layout: Seq<bool>) -> Seq<Option<u32>>
    decreases layout.len(),
{
    if layout.len() == 0 {
        Seq::empty()
    } else if layout[0] && d.len() > 0 {
        seq![Some(d[0])] + scatter(d.skip(1), layout.skip(1))
    } else {
        seq![None] + scatter(d, layout.skip(1))
    }
}

/// The output row of task `t`, given the kernel outcome `k`.
pub open spec fn finish_spec(t: TaskView, k: Option<(u32, Seq<u32>)>) -> Option<Seq<Option<u32>>> {
    if t.valid {
        Some(scatter(estimate_spec(t.samples, t.evals.len(), k), t.layout))
    } else {
        None
    }
}

/// The view of an output row.
pub open spec fn out_row_view(r: Option<Vec<Option<u32>>>) -> Option<Seq<Option<u32>>> {
    match r {
        Some(v) => Some(v@),
        None => None,
    }
}

/// The kernel outcome is handed in exactly when the task needs it, one density per point.
pub open spec fn kernel_fits(t: TaskView, kernel: Option<KernelOutput>) -> bool {
    &&& kernel.is_some() == (t.valid && kernel_needed(t.samples))
    &&& kernel matches Some(o) ==> o.density@.len() == t.evals.len()
}

/// `d` put back at the present positions of `layout`.
pub fn scatter_values(d: &Vec<u32>, layout: &Vec<bool>) -> (r: Vec<Option<u32>>)
    ensures
        r@ == scatter(d@, layout@),
{
    let mut r: Vec<Option<u32>> = Vec::new();
    let mut i: usize = 0;
    let mut j: usize = 0;
    assert(d@.skip(0) =~= d@);
    assert(layout@.skip(0) =~= layout@);
    assert(r@ + scatter(d@, layout@) =~= scatter(d@, layout@));
    while i < layout.len()
        invariant
            i <= layout@.len(),
            j <= d@.len(),
            r@ + scatter(d@.skip(j as int), layout@.skip(i as int)) == scatter(d@, layout@),
        decreases layout@.len() - i,
    {
        let ghost rest_d = d@.skip(j as int);
        let ghost rest_l = layout@.skip(i as int);
        assert(rest_l.skip(1) =~= layout@.skip(i as int + 1));
        assert(rest_l[0] == layout@[i as int]);
        if layout[i] && j < d.len() {
            assert(rest_d.skip(1) =~= d@.skip(j as int + 1));
            assert(rest_d[0] == d@[j as int]);
            let ghost old_r = r@;
            r.push(Some(d[j]));
            assert(old_r + (seq![Some(d@[j as int])] + scatter(d@.skip(j as int + 1), layout@.skip(i as int + 1)))
                =~= r@ + scatter(d@.skip(j as int + 1), layout@.skip(i as int + 1)));
            j = j + 1;
        } else {
            let ghost old_r = r@;
            r.push(None);
            assert(old_r + (seq![None] + scatter(d@.skip(j as int), layout@.skip(i as int + 1)))
                =~= r@ + scatter(d@.skip(j as int), layout@.skip(i as int + 1)));
        }
        i = i + 1;
    }
    assert(r@ + scatter(d@.skip(j as int), layout@.skip(i as int)) =~= r@);
    r
}

/// The output row of `task`, given the outcome of the kernel sum for it, which is handed in
/// exactly when `task.needs_kernel()` holds.
///
/// A missing input row gives a missing output row. Otherwise the row holds one density per
/// evaluation point of the input row, in order, and a missing evaluation point gives a
/// missing density.
pub fn finish_row(task: &RowTask, kernel: Option<KernelOutput>) -> (r: Option<Vec<Option<u32>>>)
    requires
        kernel_fits(task@, kernel),
    ensures
        out_row_view(r) == finish_spec(task@, kernel_view(kernel)),
{
    if !task.valid {
        return None;
    }
    let d = compute_kde(&task.samples, &task.evals, kernel);
    Some(scatter_values(&d, &task.layout))
}

/// `k` present positions, as a vector.
fn all_present_vec(k: usize) -> (r: Vec<bool>)
    ensures
        r@ == all_present(k as nat),
{
    let mut r: Vec<bool> = Vec::new();
    let mut i: usize = 0;
    while i < k
        invariant
            i <= k,
            r@ == all_present(i as nat),
        decreases k - i,
    {
        r.push(true);
        i = i + 1;
        assert(r@ =~= all_present(i as nat));
    }
    r
}

/// The task of a missing row.
fn missing_row_task() -> (r: RowTask)
    ensures
        r@ == missing_task(),
{
    let r = RowTask { valid: false, samples: Vec::new(), evals: Vec::new(), layout: Vec::new() };
    assert(r@.samples =~= Seq::<u32>::empty());
    assert(r@.evals =~= Seq::<u32>::empty());
    assert(r@.layout =~= Seq::<bool>::empty());
    r
}

/// The task of a row with samples `row` and the shared evaluation points `evals`.
fn static_row_task(row: &ListRow, evals: &Vec<u32>) -> (r: RowTask)
    ensures
        r@ == static_task(row_view_of(row), evals@),
{
    match row {
        Some(s) => RowTask {
            valid: true,
            samples: drop_missing(s),
            evals: copy_bits(evals),
            layout: all_present_vec(evals.len()),
        },
        None => missing_row_task(),
    }
}

/// The view of a borrowed row.
pub open spec fn row_view_of(r: &ListRow) -> RowView {
    crate::column::row_view(*r)
}

/// The task pairing the present samples `set` of a row with its evaluation points `e`.
fn dynamic_row_task(set: &Option<Vec<u32>>, e: &ListRow) -> (r: RowTask)
    ensures
        r@ == task_from(opt_bits_view(*set), row_view_of(e)),
{
    match (set, e) {
        (Some(s), Some(e)) => RowTask {
            valid: true,
            samples: copy_bits(s),
            evals: drop_missing(e),
            layout: presence_of(e),
        },
        _ => missing_row_task(),
    }
}

/// The present samples of each row of `col`, in logical row order.
fn sample_sets(col: &ListColumn) -> (r: Vec<Option<Vec<u32>>>)
    ensures
        r@.len() == col.rows().len(),
        forall|i: int| 0 <= i < r@.len() ==> opt_bits_view(#[trigger] r@[i]) == sample_set_view(col.rows()[i]),
{
    let mut r: Vec<Option<Vec<u32>>> = Vec::new();
    let mut c: usize = 0;
    while c < col.chunks.len()
        invariant
            c <= col.chunks@.len(),
            r@.len() == flat_rows(col.chunks@.subrange(0, c as int)).len(),
            forall|i: int| 0 <= i < r@.len() ==> opt_bits_view(#[trigger] r@[i])
                == sample_set_view(flat_rows(col.chunks@.subrange(0, c as int))[i]),
        decreases col.chunks@.len() - c,
    {
        let ghost prev = flat_rows(col.chunks@.subrange(0, c as int));
        let chunk = &col.chunks[c];
        let mut j: usize = 0;
        while j < chunk.len()
            invariant
                j <= chunk@.len(),
                r@.len() == prev.len() + j,
                forall|i: int| 0 <= i < prev.len() ==> opt_bits_view(#[trigger] r@[i]) == sample_set_view(prev[i]),
                forall|i: int| prev.len() <= i < r@.len() ==> opt_bits_view(#[trigger] r@[i])
                    == sample_set_view(crate::column::chunk_view(*chunk)[i - prev.len()]),
            decreases chunk@.len() - j,
        {
            let set = match &chunk[j] {
                Some(s) => Some(drop_missing(s)),
                None => None,
            };
            r.push(set);
            j = j + 1;
        }
        proof {
            lemma_flat_rows_step(col.chunks@, c as int);
        }
        c = c + 1;
    }
    assert(col.chunks@.subrange(0, c as int) =~= col.chunks@);
    r
}

/// Tasks for row-aligned columns of sample lists and of evaluation-point lists.
///
/// Row `i` of one column is paired with row `i` of the other, whatever the chunking of each;
/// the two columns hold the same number of rows.
/// Missing samples are dropped; a missing row in either column gives a missing output row.
/// A column whose elements are not single-precision floats is an error, the sample column
/// being checked first.
pub fn kde_dynamic_evals(sample_points: &ListColumn, eval_points: &ListColumn) -> (r: Result<Vec<RowTask>, KdeError>)
    requires
        sample_points.element is Float32 && eval_points.element is Float32 ==> sample_points.rows().len()
            == eval_points.rows().len(),
    ensures
        match (sample_points.element, eval_points.element) {
            (ElementType::Other(n), _) => r matches Err(KdeError::TypeMismatch { got }) && got@ == n@,
            (ElementType::Float32, ElementType::Other(n)) => r matches Err(KdeError::EvalTypeMismatch { got })
                && got@ == n@,
            (ElementType::Float32, ElementType::Float32) => r matches Ok(t)
                && tasks_view(t@) == dynamic_tasks(sample_points.rows(), eval_points.rows()),
        },
{
    match &sample_points.element {
        ElementType::Other(n) => {
            return Err(KdeError::TypeMismatch { got: n.clone() });
        },
        ElementType::Float32 => {},
    }
    match &eval_points.element {
        ElementType::Other(n) => {
            return Err(KdeError::EvalTypeMismatch { got: n.clone() });
        },
        ElementType::Float32 => {},
    }
    let sets = sample_sets(sample_points);
    let ghost a = sample_points.rows();
    let ghost b = eval_points.rows();
    let chunks = &eval_points.chunks;
    let mut r: Vec<RowTask> = Vec::new();
    let mut c: usize = 0;
    while c < chunks.len()
        invariant
            chunks == eval_points.chunks,
            c <= chunks@.len(),
            sets@.len() == a.len(),
            a.len() == b.len(),
            b == flat_rows(chunks@),
            forall|i: int| 0 <= i < sets@.len() ==> opt_bits_view(#[trigger] sets@[i]) == sample_set_view(a[i]),
            r@.len() == flat_rows(chunks@.subrange(0, c as int)).len(),
            forall|i: int| 0 <= i < r@.len() ==> (#[trigger] r@[i])@
                == task_from(opt_bits_view(sets@[i]), flat_rows(chunks@.subrange(0, c as int))[i]),
        decreases chunks@.len() - c,
    {
        let ghost prev = flat_rows(chunks@.subrange(0, c as int));
        proof {
            lemma_flat_rows_step(chunks@, c as int);
            lemma_flat_rows_prefix_len(chunks@, c as int + 1);
        }
        let chunk = &chunks[c];
        let mut j: usize = 0;
        while j < chunk.len()
            invariant
                j <= chunk@.len(),
                prev.len() + chunk@.len() <= sets@.len(),
                r@.len() == prev.len() + j,
                forall|i: int| 0 <= i < prev.len() ==> (#[trigger] r@[i])@
                    == task_from(opt_bits_view(sets@[i]), prev[i]),
                forall|i: int| prev.len() <= i < r@.len() ==> (#[trigger] r@[i])@
                    == task_from(opt_bits_view(sets@[i]), crate::column::chunk_view(*chunk)[i - prev.len()]),
            decreases chunk@.len() - j,
        {
            let k = r.len();
            let t = dynamic_row_task(&sets[k], &chunk[j]);
            r.push(t);
            j = j + 1;
        }
        c = c + 1;
    }
    assert(chunks@.subrange(0, c as int) =~= chunks@);
    assert(tasks_view(r@) =~= dynamic_tasks(a, b));
    Ok(r)
}

/// Tasks for a column of sample lists with one set of evaluation points shared by all rows.
///
/// Missing samples are dropped; a missing row gives a missing output row. A column whose
/// elements are not single-precision floats is an error.
pub fn kde_static_evals(sample_points: &ListColumn, eval_points: &Vec<u32>) -> (r: Result<Vec<RowTask>, KdeError>)
    ensures
        match sample_points.element {
            ElementType::Other(n) => r matches Err(KdeError::TypeMismatch { got }) && got@ == n@,
            ElementType::Float32 => r matches Ok(t) && tasks_view(t@) == static_tasks(sample_points.rows(), eval_points@),
        },
{
    match &sample_points.element {
        ElementType::Other(n) => {
            return Err(KdeError::TypeMismatch { got: n.clone() });
        },
        ElementType::Float32 => {},
    }
    let ghost a = sample_points.rows();
    let chunks = &sample_points.chunks;
    let mut r: Vec<RowTask> = Vec::new();
    let mut c: usize = 0;
    while c < chunks.len()
        invariant
            chunks == sample_points.chunks,
            c <= chunks@.len(),
            a == flat_rows(chunks@),
            r@.len() == flat_rows(chunks@.subrange(0, c as int)).len(),
            forall|i: int| 0 <= i < r@.len() ==> (#[trigger] r@[i])@
                == static_task(flat_rows(chunks@.subrange(0, c as int))[i], eval_points@),
        decreases chunks@.len() - c,
    {
        let ghost prev = flat_rows(chunks@.subrange(0, c as int));
        proof {
            lemma_flat_rows_step(chunks@, c as int);
        }
        let chunk = &chunks[c];
        let mut j: usize = 0;
        while j < chunk.len()
            invariant
                j <= chunk@.len(),
                r@.len() == prev.len() + j,
                forall|i: int| 0 <= i < prev.len() ==> (#[trigger] r@[i])@ == static_task(prev[i], eval_points@),
                forall|i: int| prev.len() <= i < r@.len() ==> (#[trigger] r@[i])@
                    == static_task(crate::column::chunk_view(*chunk)[i - prev.len()], eval_points@),
            decreases chunk@.len() - j,
        {
            let t = static_row_task(&chunk[j], eval_points);
            r.push(t);
            j = j + 1;
        }
        c = c + 1;
    }
    assert(chunks@.subrange(0, c as int) =~= chunks@);
    assert(tasks_view(r@) =~= static_tasks(a, eval_points@));
    Ok(r)
}

/// The task for a whole flat column `values`, treated as one sample set, with the shared
/// evaluation points: missing entries are dropped.
pub fn kde_agg(values: &Vec<Option<u32>>, eval_points: &Vec<u32>) -> (r: RowTask)
    ensures
        r@ == agg_task(values@, eval_points@),
{
    RowTask {
        valid: true,
        samples: drop_missing(values),
        evals: copy_bits(eval_points),
        layout: all_present_vec(eval_points.len()),
    }
}

/// With fewer than two samples the estimate is `k` zeros, whatever the kernel reports.
pub proof fn law_small_sample_sets_are_zero(samples: Seq<u32>, k: nat, kernel: Option<(u32, Seq<u32>)>)
    requires
        samples.len() <= 1,
    ensures
        estimate_spec(samples, k, kernel) == zeros(k),
{
}

/// Every output row holds exactly one entry per evaluation point of its input row, also when
/// there are none.
pub proof fn law_row_length(t: TaskView, e: Seq<Option<u32>>, kernel: Option<(u32, Seq<u32>)>)
    requires
        t.valid,
        t.evals == present(e),
        t.layout == presence(e),
    ensures
        finish_spec(t, kernel) matches Some(row) && row.len() == e.len(),
{
    lemma_scatter_len(estimate_spec(t.samples, t.evals.len(), kernel), t.layout);
}

/// `scatter` gives one entry per position of the layout.
pub proof fn lemma_scatter_len(d: Seq<u32>, layout: Seq<bool>)
    ensures
        scatter(d, layout).len() == layout.len(),
    decreases layout.len(),
{
    if layout.len() > 0 {
        if layout[0] && d.len() > 0 {
            lemma_scatter_len(d.skip(1), layout.skip(1));
        } else {
            lemma_scatter_len(d, layout.skip(1));
        }
    }
}

/// The estimate is a function of its inputs: two evaluations on the same samples, points and
/// kernel outcome agree exactly.
pub proof fn law_estimate_deterministic(
    samples: Seq<u32>,
    k: nat,
    kernel: Option<(u32, Seq<u32>)>,
    r1: Seq<u32>,
    r2: Seq<u32>,
)
    requires
        r1 == estimate_spec(samples, k, kernel),
        r2 == estimate_spec(samples, k, kernel),
    ensures
        r1 == r2,
{
}

/// With shared evaluation points there is one task per input row, and task `i` depends on
/// input row `i` alone: re-ordering the input rows by `p` re-orders the tasks the same way.
pub proof fn law_static_rows_independent(rows: Seq<RowView>, evals: Seq<u32>, p: Seq<int>)
    requires
        forall|i: int| 0 <= i < p.len() ==> 0 <= #[trigger] p[i] < rows.len(),
    ensures
        static_tasks(rows, evals).len() == rows.len(),
        static_tasks(Seq::new(p.len(), |i: int| rows[p[i]]), evals)
            == Seq::new(p.len(), |i: int| static_tasks(rows, evals)[p[i]]),
{
    assert(static_tasks(Seq::new(p.len(), |i: int| rows[p[i]]), evals)
        =~= Seq::new(p.len(), |i: int| static_tasks(rows, evals)[p[i]]));
}

/// With per-row evaluation points there is one task per input row, and task `i` depends on
/// row `i` of each input alone: re-ordering both inputs by `p` re-orders the tasks the same way.
pub proof fn law_dynamic_rows_independent(a: Seq<RowView>, b: Seq<RowView>, p: Seq<int>)
    requires
        a.len() == b.len(),
        forall|i: int| 0 <= i < p.len() ==> 0 <= #[trigger] p[i] < a.len(),
    ensures
        dynamic_tasks(a, b).len() == a.len(),
        dynamic_tasks(Seq::new(p.len(), |i: int| a[p[i]]), Seq::new(p.len(), |i: int| b[p[i]]))
            == Seq::new(p.len(), |i: int| dynamic_tasks(a, b)[p[i]]),
{
    assert(dynamic_tasks(Seq::new(p.len(), |i: int| a[p[i]]), Seq::new(p.len(), |i: int| b[p[i]]))
        =~= Seq::new(p.len(), |i: int| dynamic_tasks(a, b)[p[i]]));
}

/// Missing samples are excluded: sample lists with the same present entries, in the same
/// order, give the same task in each of the three call shapes, hence the same output row
/// for the same kernel outcome.
pub proof fn law_missing_samples_excluded(
    s1: Seq<Option<u32>>,
    s2: Seq<Option<u32>>,
    e: Seq<u32>,
    row_evals: RowView,
)
    requires
        present(s1) == present(s2),
    ensures
        static_task(Some(s1), e) == static_task(Some(s2), e),
        dynamic_task(Some(s1), row_evals) == dynamic_task(Some(s2), row_evals),
        agg_task(s1, e) == agg_task(s2, e),
        forall|k: Option<(u32, Seq<u32>)>| finish_spec(static_task(Some(s1), e), k)
            == #[trigger] finish_spec(static_task(Some(s2), e), k),
{
}

/// Chunking does not matter: columns that hold the same rows, however they are split into
/// chunks, give the same tasks, hence the same output rows for the same kernel outcomes.
pub proof fn law_chunking_irrelevant(a1: ListColumn, b1: ListColumn, a2: ListColumn, b2: ListColumn)
    requires
        a1.rows() == a2.rows(),
        b1.rows() == b2.rows(),
    ensures
        dynamic_tasks(a1.rows(), b1.rows()) == dynamic_tasks(a2.rows(), b2.rows()),
        forall|i: int, k: Option<(u32, Seq<u32>)>| 0 <= i < a1.rows().len() ==> finish_spec(
            dynamic_tasks(a1.rows(), b1.rows())[i],
            k,
        ) == #[trigger] finish_spec(dynamic_tasks(a2.rows(), b2.rows())[i], k),
{
}

} // verus!
