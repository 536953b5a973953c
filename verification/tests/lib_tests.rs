use blockchainlib::difficulty_bytes_as_u128;
use blockchainlib::now;

#[test]
fn test_difficulty_bytes_as_u128_1() {
    assert_eq!(0, difficulty_bytes_as_u128(&[0; 32]));
    assert_eq!(
        6672203272959577714968129557485651205,
        difficulty_bytes_as_u128(&[5; 32])
    );
    assert_eq!(
        17347728509694902058917136849462693133,
        difficulty_bytes_as_u128(&[13; 32])
    );
}

#[test]
fn test_difficulty_bytes_as_u128_2() {
    assert_eq!(
        6672203272959577714968129557485651205,
        difficulty_bytes_as_u128(&[5; 32])
    );
    assert_eq!(
        17347728509694902058917136849462693133,
        difficulty_bytes_as_u128(&[13; 32])
    );
}

#[test]
fn test_difficulty_bytes_as_u128_3() {
    assert_eq!(
        17347728509694902058917136849462693133,
        difficulty_bytes_as_u128(&[13; 32])
    );
}

#[test]
fn test_difficulty_bytes_as_u128_4() {
    assert_eq!(
        340282366920938463463374607431768211455,
        difficulty_bytes_as_u128(&[u8::MAX; 32])
    );
}

#[test]
fn test_now_1() {
    assert!(now() > 1557022292388);
}
