use kernel_density_estimation::prelude::{Bandwidth, KernelDensityEstimator, Normal, Silverman, UnivariateKDE};
use polars_kde::{
    compute_kde, drop_missing, finish_row, is_usable_bandwidth, kde_agg, kde_dynamic_evals, kde_static_evals,
    needs_kernel, ElementType, KdeError, KernelOutput, ListColumn, ListRow, RowTask,
};

fn bits(xs: &[f32]) -> Vec<u32> {
    xs.iter().map(|x| x.to_bits()).collect()
}

fn opt_bits(xs: &[Option<f32>]) -> Vec<Option<u32>> {
    xs.iter().map(|x| x.map(f32::to_bits)).collect()
}

fn row(xs: &[Option<f32>]) -> ListRow {
    Some(opt_bits(xs))
}

fn plain_row(xs: &[f32]) -> ListRow {
    Some(xs.iter().map(|x| Some(x.to_bits())).collect())
}

fn column(chunks: Vec<Vec<ListRow>>) -> ListColumn {
    ListColumn { element: ElementType::Float32, chunks }
}

/// Evaluates the kernel sum for a task that needs it, as a caller of the library does.
fn run_kernel(task: &RowTask) -> Option<KernelOutput> {
    if !task.needs_kernel() {
        return None;
    }
    let xs: Vec<f32> = task.samples.iter().map(|b| f32::from_bits(*b)).collect();
    let qs: Vec<f32> = task.evals.iter().map(|b| f32::from_bits(*b)).collect();
    let h = Silverman.bandwidth(&xs);
    let d = KernelDensityEstimator::new(xs, Silverman, Normal).pdf(&qs);
    Some(KernelOutput { bandwidth: h.to_bits(), density: d.into_iter().map(f32::to_bits).collect() })
}

fn run(task: &RowTask) -> Option<Vec<Option<f32>>> {
    finish_row(task, run_kernel(task)).map(|r| r.into_iter().map(|x| x.map(f32::from_bits)).collect())
}

fn run_all(tasks: &[RowTask]) -> Vec<Option<Vec<Option<f32>>>> {
    tasks.iter().map(run).collect()
}

fn agg(values: &[Option<f32>], evals: &[f32]) -> Vec<Option<f32>> {
    run(&kde_agg(&opt_bits(values), &bits(evals))).unwrap()
}

#[test]
fn scenario_peak_density() {
    let out = agg(&[Some(1.0), Some(2.0), Some(3.0), Some(4.0), Some(5.0)], &[3.0]);
    assert_eq!(out.len(), 1);
    let v = out[0].unwrap();
    assert!(v > 0.0);
    assert!((v - 0.197_664_14).abs() < 1e-5, "got {}", v);
}

#[test]
fn scenario_single_sample_gives_zeros() {
    let out = agg(&[Some(7.0)], &[1.0, 2.0, 3.0]);
    assert_eq!(out, vec![Some(0.0), Some(0.0), Some(0.0)]);
}

#[test]
fn scenario_aggregate_with_missing_entries() {
    let plain = agg(&[Some(1.0), Some(2.0), Some(3.0), Some(4.0), Some(5.0)], &[3.0]);
    let gappy = agg(&[None, Some(1.0), Some(2.0), None, Some(3.0), Some(4.0), None, Some(5.0), None], &[3.0]);
    assert_eq!(gappy.len(), 1);
    assert_eq!(plain[0].unwrap().to_bits(), gappy[0].unwrap().to_bits());
}

#[test]
fn scenario_chunking_does_not_change_output() {
    let samples = vec![
        plain_row(&[1.0, 2.0, 3.0]),
        plain_row(&[4.0, 4.5, 6.0, 7.0]),
        plain_row(&[0.5]),
        plain_row(&[-1.0, 1.0]),
    ];
    let evals = vec![
        plain_row(&[2.0]),
        plain_row(&[4.0, 5.0]),
        plain_row(&[0.0, 1.0]),
        plain_row(&[0.0]),
    ];
    let base = kde_dynamic_evals(&column(vec![samples.clone()]), &column(vec![evals.clone()])).ok().unwrap();
    let a = column(vec![samples[0..1].to_vec(), samples[1..4].to_vec()]);
    let b = column(vec![evals[0..3].to_vec(), vec![], evals[3..4].to_vec()]);
    let chunked = kde_dynamic_evals(&a, &b).ok().unwrap();
    let base_out = run_all(&base);
    assert_eq!(base_out.len(), 4);
    assert_eq!(base_out, run_all(&chunked));
    assert_eq!(base_out[1].as_ref().unwrap().len(), 2);
    assert_eq!(base_out[2], Some(vec![Some(0.0), Some(0.0)]));
}

#[test]
fn small_sample_sets_give_zeros() {
    let evals = bits(&[1.0, 2.0]);
    assert!(!needs_kernel(&vec![]));
    assert!(!needs_kernel(&bits(&[3.0])));
    assert_eq!(compute_kde(&vec![], &evals, None), vec![0u32, 0u32]);
    assert_eq!(compute_kde(&bits(&[3.0]), &evals, None), vec![0u32, 0u32]);
}

#[test]
fn empty_eval_points_give_empty_output() {
    assert_eq!(agg(&[Some(1.0), Some(2.0), Some(4.0)], &[]), vec![]);
    assert_eq!(agg(&[Some(1.0)], &[]), vec![]);
}

#[test]
fn densities_are_non_negative_and_sized() {
    let out = agg(&[Some(-3.0), Some(0.0), Some(0.5), Some(2.0), Some(10.0)], &[-100.0, -3.0, 0.0, 1.0, 50.0]);
    assert_eq!(out.len(), 5);
    for v in out {
        assert!(v.unwrap() >= 0.0);
    }
}

#[test]
fn repeated_calls_are_bit_identical() {
    let values = [Some(0.3), Some(1.7), Some(2.2), Some(2.9), Some(8.0)];
    let evals = [0.0, 1.0, 2.5, 9.0];
    let a: Vec<u32> = agg(&values, &evals).into_iter().map(|x| x.unwrap().to_bits()).collect();
    let b: Vec<u32> = agg(&values, &evals).into_iter().map(|x| x.unwrap().to_bits()).collect();
    assert_eq!(a, b);
}

#[test]
fn static_rows_permute_with_input() {
    let rows = vec![
        plain_row(&[1.0, 2.0, 3.0]),
        plain_row(&[10.0, 12.0, 13.0, 20.0]),
        None,
        plain_row(&[5.0]),
    ];
    let evals = bits(&[2.0, 12.0]);
    let out = run_all(&kde_static_evals(&column(vec![rows.clone()]), &evals).ok().unwrap());
    assert_eq!(out.len(), 4);
    let order = [3usize, 0, 2, 1];
    let shuffled: Vec<ListRow> = order.iter().map(|i| rows[*i].clone()).collect();
    let out2 = run_all(&kde_static_evals(&column(vec![shuffled]), &evals).ok().unwrap());
    for (k, i) in order.iter().enumerate() {
        assert_eq!(out2[k], out[*i]);
    }
}

#[test]
fn missing_samples_are_excluded() {
    let evals = bits(&[0.0, 2.0, 3.5]);
    let gappy = column(vec![vec![row(&[Some(1.0), None, Some(3.0), None, Some(5.0)])]]);
    let plain = column(vec![vec![row(&[Some(1.0), Some(3.0), Some(5.0)])]]);
    let a = run_all(&kde_static_evals(&gappy, &evals).ok().unwrap());
    let b = run_all(&kde_static_evals(&plain, &evals).ok().unwrap());
    assert_eq!(a, b);
    assert!(a[0].as_ref().unwrap()[1].unwrap() > 0.0);
}

#[test]
fn missing_row_gives_missing_output() {
    let out = run_all(&kde_static_evals(&column(vec![vec![None, plain_row(&[1.0, 2.0])]]), &bits(&[1.5])).ok().unwrap());
    assert_eq!(out[0], None);
    assert!(out[1].is_some());
    let dynamic = kde_dynamic_evals(
        &column(vec![vec![plain_row(&[1.0, 2.0]), plain_row(&[1.0, 2.0])]]),
        &column(vec![vec![None, plain_row(&[1.5])]]),
    )
    .ok()
    .unwrap();
    let out = run_all(&dynamic);
    assert_eq!(out[0], None);
    assert_eq!(out[1].as_ref().unwrap().len(), 1);
}

#[test]
fn missing_eval_point_gives_missing_density() {
    let tasks = kde_dynamic_evals(
        &column(vec![vec![plain_row(&[1.0, 2.0, 4.0])]]),
        &column(vec![vec![row(&[Some(1.0), None, Some(2.0)])]]),
    )
    .ok()
    .unwrap();
    let out = run_all(&tasks);
    let r = out[0].as_ref().unwrap();
    assert_eq!(r.len(), 3);
    assert!(r[0].unwrap() > 0.0);
    assert_eq!(r[1], None);
    assert!(r[2].unwrap() > 0.0);
    let full = agg(&[Some(1.0), Some(2.0), Some(4.0)], &[1.0, 2.0]);
    assert_eq!(r[0], full[0]);
    assert_eq!(r[2], full[1]);
}

#[test]
fn identical_samples_fall_back_to_zeros() {
    let out = agg(&[Some(2.0), Some(2.0), Some(2.0)], &[1.0, 2.0]);
    assert_eq!(out, vec![Some(0.0), Some(0.0)]);
}

#[test]
fn nan_sample_gives_zeros_without_kernel() {
    let samples = bits(&[1.0, f32::NAN, 3.0]);
    assert!(!needs_kernel(&samples));
    let out = agg(&[Some(1.0), Some(f32::NAN), Some(3.0)], &[1.0]);
    assert_eq!(out, vec![Some(0.0)]);
}

#[test]
fn bandwidth_usability() {
    assert!(is_usable_bandwidth(1.0f32.to_bits()));
    assert!(is_usable_bandwidth(f32::MIN_POSITIVE.to_bits()));
    assert!(is_usable_bandwidth(f32::MAX.to_bits()));
    assert!(!is_usable_bandwidth(0.0f32.to_bits()));
    assert!(!is_usable_bandwidth((-0.0f32).to_bits()));
    assert!(!is_usable_bandwidth((-1.0f32).to_bits()));
    assert!(!is_usable_bandwidth(f32::INFINITY.to_bits()));
    assert!(!is_usable_bandwidth(f32::NAN.to_bits()));
    assert!(!is_usable_bandwidth(1u32));
}

#[test]
fn degenerate_bandwidth_gives_zeros() {
    let out = compute_kde(
        &bits(&[1.0, 2.0]),
        &bits(&[1.0, 2.0]),
        Some(KernelOutput { bandwidth: 0.0f32.to_bits(), density: vec![7u32, 8u32] }),
    );
    assert_eq!(out, vec![0u32, 0u32]);
    let kept = compute_kde(
        &bits(&[1.0, 2.0]),
        &bits(&[1.0, 2.0]),
        Some(KernelOutput { bandwidth: 0.5f32.to_bits(), density: vec![7u32, 8u32] }),
    );
    assert_eq!(kept, vec![7u32, 8u32]);
}

#[test]
fn sample_type_mismatch_is_reported() {
    let bad = ListColumn { element: ElementType::Other("Int64".to_string()), chunks: vec![] };
    match kde_static_evals(&bad, &bits(&[1.0])) {
        Err(KdeError::TypeMismatch { got }) => assert_eq!(got, "Int64"),
        _ => panic!("expected a type mismatch"),
    }
    match kde_dynamic_evals(&bad, &column(vec![])) {
        Err(KdeError::TypeMismatch { got }) => assert_eq!(got, "Int64"),
        _ => panic!("expected a type mismatch"),
    }
}

#[test]
fn eval_type_mismatch_is_reported() {
    let bad = ListColumn { element: ElementType::Other("String".to_string()), chunks: vec![] };
    match kde_dynamic_evals(&column(vec![]), &bad) {
        Err(KdeError::EvalTypeMismatch { got }) => assert_eq!(got, "String"),
        _ => panic!("expected a type mismatch"),
    }
}

#[test]
fn drop_missing_keeps_order() {
    assert_eq!(drop_missing(&opt_bits(&[None, Some(3.0), None, Some(1.0)])), bits(&[3.0, 1.0]));
    assert_eq!(drop_missing(&vec![]), Vec::<u32>::new());
}
