use lazy_shrink::lazy::Lazy;
use lazy_shrink::lazy::Step;
use lazy_shrink::model::Model;
use lazy_shrink::shrink::MapPairs;
use lazy_shrink::shrink::Shrink;
use lazy_shrink::shrink::from_char_vec;
use lazy_shrink::shrink::mpowers_of_two;
use lazy_shrink::shrink::to_char_vec;

fn drain<T: Model, S: Step<T>>(mut l: Lazy<T, S>) -> Vec<T> {
    let mut out = Vec::new();
    while let Some(x) = l.next() {
        out.push(x);
    }
    out
}

#[test]
fn test_mpowers_of_two_literals() {
    assert_eq!(mpowers_of_two(8), vec![0, 4, 6]);
    assert_eq!(mpowers_of_two(20), vec![0, 10, 15, 18, 19]);
}

#[test]
fn test_shrink_u8_literals() {
    assert_eq!(drain(0u8.shrink()), Vec::<u8>::new());
    assert_eq!(drain(1u8.shrink()), vec![0]);
    assert_eq!(drain(2u8.shrink()), vec![0, 1]);
    assert_eq!(drain(5u8.shrink()), vec![2, 3, 4]);
    assert_eq!(drain(8u8.shrink()), vec![0, 4, 6]);
}

#[test]
fn test_shrink_usize_literals() {
    assert_eq!(drain(0usize.shrink()), Vec::<usize>::new());
    assert_eq!(drain(1usize.shrink()), vec![0]);
    assert_eq!(drain(2usize.shrink()), vec![0, 1]);
    assert_eq!(drain(5usize.shrink()), vec![2, 3, 4]);
    assert_eq!(drain(8usize.shrink()), vec![0, 4, 6]);
}

#[test]
fn test_shrink_u8_all_smaller() {
    for n in 0u8..=255 {
        for c in drain(n.shrink()) {
            assert!(c < n);
        }
    }
}

#[test]
fn test_shrink_primitives_empty() {
    assert_eq!(drain(().shrink()).len(), 0);
    assert_eq!(drain(true.shrink()).len(), 0);
    assert_eq!(drain('q'.shrink()).len(), 0);
    assert_eq!(drain((-3i8).shrink()).len(), 0);
    assert_eq!(drain(42i64.shrink()).len(), 0);
}

#[test]
fn test_shrink_option() {
    assert_eq!(drain(Option::<u8>::None.shrink()), Vec::<Option<u8>>::new());
    assert_eq!(drain(Some(2u8).shrink()), vec![None, Some(0), Some(1)]);
}

#[test]
fn test_shrink_result() {
    let ok: Result<u8, u8> = Ok(1);
    assert_eq!(drain(ok.shrink()), vec![Ok(0)]);
    let err: Result<u8, u8> = Err(2);
    assert_eq!(drain(err.shrink()), vec![Err(0), Err(1)]);
}

#[test]
fn test_shrink_pair() {
    let candidates = drain((2u8, 1u8).shrink());
    assert_eq!(candidates, vec![(0, 1), (1, 1), (2, 0)]);
}

#[test]
fn test_shrink_pair_counts() {
    let a = 5u8;
    let b = 8u8;
    let n_a = drain(a.shrink()).len();
    let n_b = drain(b.shrink()).len();
    let pairs = drain((a, b).shrink());
    assert_eq!(pairs.len(), n_a + n_b);
    for (i, (x, y)) in pairs.iter().enumerate() {
        if i < n_a {
            assert_eq!(*y, b);
            assert!(*x < a);
        } else {
            assert_eq!(*x, a);
            assert!(*y < b);
        }
    }
}

#[test]
fn test_shrink_triple() {
    assert_eq!(drain((1u8, 1u8, 1u8).shrink()), vec![(0, 1, 1), (1, 0, 1), (1, 1, 0)]);
}

#[test]
fn test_shrink_quad() {
    assert_eq!(
        drain((1u8, 1u8, 1u8, 1u8).shrink()),
        vec![(0, 1, 1, 1), (1, 0, 1, 1), (1, 1, 0, 1), (1, 1, 1, 0)]
    );
}

#[test]
fn test_shrink_quint_and_sext() {
    assert_eq!(drain((1u8, 1u8, 1u8, 1u8, 1u8).shrink()).len(), 5);
    assert_eq!(drain((1u8, 1u8, 1u8, 1u8, 1u8, 1u8).shrink()).len(), 6);
}

#[test]
fn test_shrink_vec_empty() {
    let v: Vec<u8> = vec![];
    assert_eq!(drain(v.shrink()), Vec::<Vec<u8>>::new());
}

#[test]
fn test_shrink_vec_order() {
    let v: Vec<u8> = vec![1, 2, 3];
    let expected: Vec<Vec<u8>> = vec![
        vec![],
        vec![1],
        vec![2, 3],
        vec![2, 3],
        vec![0, 2, 3],
        vec![1, 3],
        vec![1, 0, 3],
        vec![1, 1, 3],
        vec![1, 2],
        vec![1, 2, 0],
        vec![1, 2, 1],
        vec![1, 2, 2],
    ];
    assert_eq!(drain(v.shrink()), expected);
}

#[test]
fn test_shrink_vec_first_empty_then_halves() {
    let v: Vec<u8> = vec![9, 9, 9, 9, 9];
    let candidates = drain(v.shrink());
    assert_eq!(candidates[0], Vec::<u8>::new());
    assert_eq!(candidates[1], vec![9, 9]);
    assert_eq!(candidates[2], vec![9, 9, 9]);
    assert_eq!(candidates[1].len() + candidates[2].len(), v.len());
}

#[test]
fn test_shrink_box() {
    assert_eq!(drain(Box::new(1u8).shrink()), vec![Box::new(0u8)]);
}

#[test]
fn test_shrink_rc() {
    assert_eq!(drain(std::rc::Rc::new(1u8).shrink()), vec![std::rc::Rc::new(0u8)]);
}

#[test]
fn test_char_vec_round_trip() {
    let s = from_char_vec(&vec!['x', 'y']);
    assert_eq!(s, "xy");
    assert_eq!(to_char_vec(&s), vec!['x', 'y']);
}

#[test]
fn test_shrink_string() {
    let s = String::from("ab");
    let candidates = drain(s.shrink());
    assert_eq!(candidates, vec![String::new(), String::from("b"), String::from("a")]);
}

#[test]
fn test_shrink_string_empty() {
    assert_eq!(drain(String::new().shrink()).len(), 0);
}

#[test]
fn test_shrink_map_pairs() {
    let m = MapPairs { pairs: vec![(1u8, 2u8)] };
    let candidates: Vec<Vec<(u8, u8)>> =
        drain(m.shrink()).into_iter().map(|c| c.pairs).collect();
    let expected: Vec<Vec<(u8, u8)>> = vec![
        vec![],
        vec![],
        vec![(0, 2)],
        vec![(1, 0)],
        vec![(1, 1)],
    ];
    assert_eq!(candidates, expected);
}

#[test]
fn test_shrink_map_pairs_empty() {
    let m: MapPairs<u8, u8> = MapPairs { pairs: vec![] };
    assert_eq!(drain(m.shrink()).len(), 0);
}
