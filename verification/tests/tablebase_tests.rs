use gears::tablebase::{combinations, decode, encode, next_combination};

#[test]
fn combinations_test() {
    let combinations = combinations();
    assert_eq!(combinations[4][3], 4);
    assert_eq!(combinations[5][3], 10);
    assert_eq!(combinations[42][1], 42);
    assert_eq!(combinations[42][0], 1);
    assert_eq!(combinations[5][4], 5);
    assert_eq!(combinations[4][4], 1);
    assert_eq!(combinations[8][4], 70);
}

#[test]
fn decode_test() {
    const MAX: usize = 5;
    let combinations = combinations();
    let arr = [0; MAX];
    let bb = decode(100, 2);
    assert_eq!(bb, (1 << 9) | (1 << 14));
    for k in 1..MAX {
        for n in 0..combinations[64][k] {
            let bb = decode(n, k);
            let res = encode(bb, bb.count_ones() as usize);
            assert_eq!(res, n, "{k} {arr:?}");
        }
    }
}

#[test]
fn next_combination_test() {
    let combinations = combinations();
    for k in 1..4 {
        for n in 0..combinations[64][k] - 1 {
            assert_eq!(next_combination(decode(n, k)), decode(n + 1, k));
        }
    }
}
