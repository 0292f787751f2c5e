use pipec::id_generator::IdGenerator;

#[test]
fn identifiers_count_up_from_zero() {
    let mut generator = IdGenerator::new();
    let first = generator.gen_id();
    let second = generator.gen_id();
    assert_eq!(first.number(), 0);
    assert_eq!(second.number(), 1);
    assert_ne!(first, second);
    assert!(!generator.is_exhausted());
}
