use badgine::score::Eval;

#[test]
fn eval_ordering_chain() {
    let chain = [
        Eval::Lost(0),
        Eval::Lost(5),
        Eval::Value(-100),
        Eval::Value(0),
        Eval::Value(100),
        Eval::Won(5),
        Eval::Won(0),
    ];
    for i in 0..chain.len() {
        for j in 0..chain.len() {
            assert_eq!(chain[i] < chain[j], i < j, "{:?} vs {:?}", chain[i], chain[j]);
            assert_eq!(chain[i] == chain[j], i == j);
        }
    }
    assert_eq!(Eval::Lost(0).compare(&Eval::Lost(5)), std::cmp::Ordering::Less);
    assert_eq!(Eval::Won(0).compare(&Eval::Won(5)), std::cmp::Ordering::Greater);
    assert_eq!(Eval::Value(7).compare(&Eval::Value(7)), std::cmp::Ordering::Equal);
    assert!(Eval::Value(i32::MAX) < Eval::Won(u32::MAX));
    assert!(Eval::Lost(u32::MAX) < Eval::Value(i32::MIN));
}

#[test]
fn negate_is_involution() {
    let samples = [
        Eval::Won(0),
        Eval::Won(3),
        Eval::Lost(0),
        Eval::Lost(9),
        Eval::Value(0),
        Eval::Value(250),
        Eval::Value(-17),
        Eval::Value(i32::MAX),
    ];
    for e in samples {
        assert_eq!(e.neg().neg(), e);
    }
    assert_eq!(Eval::Won(4).neg(), Eval::Lost(4));
    assert_eq!(Eval::Lost(2).neg(), Eval::Won(2));
    assert_eq!(Eval::Value(35).neg(), Eval::Value(-35));
    assert_eq!(Eval::Value(i32::MIN).neg(), Eval::Value(i32::MAX));
}

#[test]
fn count_time_adds_one_ply() {
    assert_eq!(Eval::Value(42).count_time(), Eval::Value(42));
    assert_eq!(Eval::Won(0).count_time(), Eval::Won(1));
    assert_eq!(Eval::Lost(7).count_time(), Eval::Lost(8));
    assert_eq!(Eval::Won(u32::MAX).count_time(), Eval::Won(u32::MAX));
    assert_eq!(Eval::Lost(0).count_time().neg(), Eval::Won(1));
}

#[test]
fn uci_score_reports_moves_to_mate() {
    assert_eq!(Eval::Won(1).uci_score(), (true, 1));
    assert_eq!(Eval::Won(3).uci_score(), (true, 2));
    assert_eq!(Eval::Lost(0).uci_score(), (true, -1));
    assert_eq!(Eval::Lost(2).uci_score(), (true, -2));
    assert_eq!(Eval::Value(-55).uci_score(), (false, -55));
    assert!(Eval::Value(3).is_at_most(&Eval::Value(3)));
    assert!(!Eval::Won(3).is_at_most(&Eval::Value(3)));
}
