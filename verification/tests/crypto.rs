use cepheus_trader::crypto::{derive_seed, SeedStream};

#[test]
fn seeded_stream_is_repeatable_and_counter_separated() {
    let mut first = SeedStream::new([0x42; 32]);
    let mut second = SeedStream::new([0x42; 32]);
    let first_zero = first.next_seed().unwrap();
    let first_one = first.next_seed().unwrap();
    assert_eq!(first_zero, second.next_seed().unwrap());
    assert_eq!(first_one, second.next_seed().unwrap());
    assert_ne!(first_zero, first_one);
}

#[test]
fn derived_seed_labels_are_repeatable_and_independent() {
    let key = [0x5a; 32];
    assert_eq!(
        derive_seed(key, b"celestial/stellar/v1").unwrap(),
        derive_seed(key, b"celestial/stellar/v1").unwrap()
    );
    assert_ne!(
        derive_seed(key, b"celestial/stellar/v1").unwrap(),
        derive_seed(key, b"celestial/orbits/v1").unwrap()
    );
}
