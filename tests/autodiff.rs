use badgine::composition::{Add, Chain};
use badgine::differentiable::{AutoDiff, Identity};
use badgine::function::Function;

#[test]
fn identity_through_function() {
    let mut f = Function(Identity);
    assert_eq!(f.y(&3i64), 3);
    f.zero_grad::<i64>();
    assert_eq!(f.forward(&-8i64), -8);
    assert_eq!(f.backward::<i64>(&5), 5);
}

#[test]
fn composition_chains_in_order() {
    let g = Function(Identity).of(Function(Identity));
    assert_eq!(g.y(&11u32), 11);
    let mut c = Chain::new(Identity, Identity);
    AutoDiff::<u8>::zero_grad(&mut c);
    assert_eq!(AutoDiff::<u8>::forward(&mut c, &9u8), 9);
    assert_eq!(AutoDiff::<u8>::backward(&mut c, &2u8), 2);
    let s = Add::new(1u8, 2u8);
    assert_eq!((s.0, s.1), (1, 2));
}
