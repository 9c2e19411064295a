use raytracer::scalar::Scalar;
use raytracer::scene::{is_nearer, nearest};

fn s(x: f64) -> Scalar {
    Scalar::from_bits(x.to_bits())
}

fn hits(distances: &[Option<f64>]) -> Vec<Option<Scalar>> {
    distances.iter().map(|d| d.map(s)).collect()
}

#[test]
fn an_empty_scene_has_no_hit() {
    assert_eq!(nearest(&Vec::new()), None);
}

#[test]
fn a_scene_that_is_missed_has_no_hit() {
    assert_eq!(nearest(&hits(&[None, None, None])), None);
}

#[test]
fn the_only_hit_is_the_nearest() {
    assert_eq!(nearest(&hits(&[None, Some(9.0), None])), Some(1));
}

#[test]
fn the_nearer_of_two_primitives_wins_in_either_order() {
    // two spheres on the ray's line, hit at distances 4 and 9
    assert_eq!(nearest(&hits(&[Some(16.0), Some(81.0)])), Some(0));
    assert_eq!(nearest(&hits(&[Some(81.0), Some(16.0)])), Some(1));
}

#[test]
fn the_nearest_of_many_wins() {
    let distances = hits(&[Some(5.0), None, Some(2.5), Some(7.0), Some(0.25), None, Some(3.0)]);
    assert_eq!(nearest(&distances), Some(4));
}

#[test]
fn of_equal_distances_the_first_wins() {
    assert_eq!(nearest(&hits(&[Some(4.0), Some(1.0), Some(1.0), Some(4.0)])), Some(1));
    assert_eq!(nearest(&hits(&[Some(0.0), Some(-0.0)])), Some(0));
    assert_eq!(nearest(&hits(&[Some(-0.0), Some(0.0)])), Some(0));
}

#[test]
fn a_distance_that_is_not_a_number_loses_to_any_number() {
    assert_eq!(nearest(&hits(&[Some(f64::NAN), Some(4.0)])), Some(1));
    assert_eq!(nearest(&hits(&[Some(4.0), Some(f64::NAN)])), Some(0));
    assert_eq!(nearest(&hits(&[Some(f64::NAN), Some(f64::INFINITY)])), Some(1));
    assert_eq!(nearest(&hits(&[Some(f64::NAN), None, Some(f64::NAN)])), Some(0));
}

#[test]
fn every_order_of_three_hits_gives_the_same_primitive() {
    let d = [Some(9.0), Some(1.0), Some(4.0)];
    let orders = [[0, 1, 2], [0, 2, 1], [1, 0, 2], [1, 2, 0], [2, 0, 1], [2, 1, 0]];
    for order in orders {
        let shuffled = [d[order[0]], d[order[1]], d[order[2]]];
        let pick = nearest(&hits(&shuffled)).unwrap();
        assert_eq!(order[pick], 1);
    }
}

#[test]
fn nearer_is_strict() {
    assert!(is_nearer(s(1.0), s(2.0)));
    assert!(!is_nearer(s(2.0), s(1.0)));
    assert!(!is_nearer(s(2.0), s(2.0)));
    assert!(is_nearer(s(2.0), s(f64::NAN)));
    assert!(!is_nearer(s(f64::NAN), s(2.0)));
    assert!(!is_nearer(s(f64::NAN), s(f64::NAN)));
    assert!(is_nearer(s(f64::MAX), s(f64::INFINITY)));
}
