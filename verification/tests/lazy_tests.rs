use lazy_shrink::lazy::EmitStep;
use lazy_shrink::lazy::Lazy;
use lazy_shrink::lazy::MapStep;
use lazy_shrink::lazy::MapEnvStep;
use lazy_shrink::lazy::NullStep;
use lazy_shrink::lazy::PairWith;
use lazy_shrink::lazy::PairWithEnv;

#[test]
fn test_lazy_list() {
    let mut l: Lazy<i64, EmitStep<i64>> = Lazy::new();
    l.push(3);
    l.push_thunk(EmitStep { values: vec![4, 5] });

    assert_eq!(l.next(), Some(3));
    assert_eq!(l.next(), Some(4));
    assert_eq!(l.next(), Some(5));
    assert_eq!(l.next(), None);

    let mut m: Lazy<(i64, i64), MapStep<i64, NullStep, PairWith<i64>>> = Lazy::new();
    m.push_map(Lazy::new_from(vec![3, 4, 5]), PairWith { with: 1 });
    assert_eq!(m.next(), Some((3, 1)));
    assert_eq!(m.next(), Some((4, 1)));
    assert_eq!(m.next(), Some((5, 1)));
    assert_eq!(m.next(), None);
}

#[test]
fn test_exhausted_next_stays_empty() {
    let mut l: Lazy<i64, NullStep> = Lazy::new();
    assert_eq!(l.next(), None);
    assert_eq!(l.next(), None);
    assert_eq!(l.next(), None);

    let mut m: Lazy<i64, EmitStep<i64>> = Lazy::new();
    m.push(1);
    m.push_thunk(EmitStep { values: vec![2] });
    assert_eq!(m.next(), Some(1));
    assert_eq!(m.next(), Some(2));
    assert_eq!(m.next(), None);
    assert_eq!(m.next(), None);
}

#[test]
fn test_create_runs_deferred_step() {
    let mut l: Lazy<i64, EmitStep<i64>> = Lazy::create(EmitStep { values: vec![7, 8] });
    assert_eq!(l.next(), Some(7));
    assert_eq!(l.next(), Some(8));
    assert_eq!(l.next(), None);
}

#[test]
fn test_new_from_yields_in_order() {
    let mut l: Lazy<i64, NullStep> = Lazy::new_from(vec![1, 2, 3]);
    assert_eq!(l.next(), Some(1));
    assert_eq!(l.next(), Some(2));
    assert_eq!(l.next(), Some(3));
    assert_eq!(l.next(), None);
}

#[test]
fn test_push_map_env_threads_environment() {
    let mut m: Lazy<(i64, i64), MapEnvStep<i64, NullStep, i64, PairWithEnv>> = Lazy::new();
    m.push_map_env(Lazy::new_from(vec![1, 2]), 9, PairWithEnv);
    assert_eq!(m.next(), Some((1, 9)));
    assert_eq!(m.next(), Some((2, 9)));
    assert_eq!(m.next(), None);
}
