use dsp_worldgen::Evaluaton;

#[test]
fn new_evaluation_is_all_unknown() {
    let e = Evaluaton::new(5);
    assert_eq!(e.len(), 5);
    assert_eq!(e.get_len(), 5);
    for i in 0..5 {
        assert!(e.is_unknonwn(i));
        assert!(!e.is_known(i));
        assert_eq!(e.get_result(i), None);
    }
    assert!(!e.is_done());
    assert_eq!(e.collect_known(), Vec::<usize>::new());
    assert_eq!(e.collect_unknown(), vec![0, 1, 2, 3, 4]);
}

#[test]
fn empty_evaluation_is_done() {
    let e = Evaluaton::new(0);
    assert!(e.is_done());
    assert_eq!(e.get_len(), 0);
}

#[test]
fn confirm_then_reject_moves_the_frontier() {
    let mut e = Evaluaton::new(6);
    e.confirm_many(&vec![1, 4]);
    assert_eq!(e.get_result(1), Some(true));
    assert_eq!(e.get_result(4), Some(true));
    assert_eq!(e.get_len(), 6);
    e.reject_others(&vec![2]);
    assert_eq!(e.get_result(0), Some(false));
    assert_eq!(e.get_result(2), None);
    assert_eq!(e.get_result(3), Some(false));
    assert_eq!(e.get_result(5), Some(false));
    assert_eq!(e.get_len(), 3);
    assert_eq!(e.collect_known(), vec![1, 4]);
    assert_eq!(e.collect_unknown(), vec![1, 2, 4]);
    e.reject_others(&vec![]);
    assert!(e.is_done());
    assert_eq!(e.get_len(), 0);
}

#[test]
fn confirm_does_not_overturn_a_rejection() {
    let mut e = Evaluaton::new(3);
    e.reject_others(&vec![0, 1]);
    e.confirm_many(&vec![2, 0]);
    assert_eq!(e.get_result(2), Some(false));
    assert_eq!(e.get_result(0), Some(true));
    assert_eq!(e.get_len(), 2);
}

#[test]
fn clone_keeps_verdicts() {
    let mut e = Evaluaton::new(4);
    e.confirm_many(&vec![3]);
    let c = e.clone();
    assert_eq!(c.collect_known(), vec![3]);
    assert_eq!(c.get_len(), e.get_len());
}
