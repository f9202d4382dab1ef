use jankenoboe::easing::{
    default_easing, fibo, generate_level_up_path_json, level_up_path, new_easing_map, shrink,
    MAX_LEVEL,
};

const CURVE: [u16; 20] = [
    1, 1, 1, 1, 1, 1, 1, 2, 3, 5, 7, 13, 19, 32, 52, 84, 135, 220, 355, 574,
];

#[test]
fn test_new_easing_map() {
    let map = new_easing_map(20);
    for (i, want) in CURVE.iter().enumerate() {
        assert_eq!(map.get(&(i as u8)), Some(want));
    }
    assert_eq!(map.len(), 20);
}

#[test]
fn test_curve_determinism() {
    // The curve is a pure function of the level count: two computations of
    // the twenty-level curve agree, and equal the known sequence exactly.
    let a = level_up_path(20);
    let b = level_up_path(20);
    assert_eq!(a, b);
    assert_eq!(a, CURVE.to_vec());
}

#[test]
fn test_level_up_path_json() {
    assert_eq!(
        generate_level_up_path_json(MAX_LEVEL),
        "[1,1,1,1,1,1,1,2,3,5,7,13,19,32,52,84,135,220,355,574]"
    );
}

#[test]
fn test_fibo_values() {
    assert_eq!(fibo(0), 0);
    assert_eq!(fibo(1), 1);
    assert_eq!(fibo(10), 55);
    assert_eq!(fibo(20), 6765);
}

#[test]
fn test_shrink() {
    assert_eq!(shrink(0), 0);
    assert_eq!(shrink(9), 2);
    assert_eq!(shrink(6765), 1503);
}

#[test]
fn test_default_easing_floor() {
    // The early levels all floor to one day.
    for i in 0..7 {
        assert_eq!(default_easing(i), 1);
    }
    assert_eq!(default_easing(7), 2);
    assert_eq!(default_easing(19), 574);
}
