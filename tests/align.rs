use malloc_rust::align::Alignment;

#[test]
fn align_should_try_create_valid_only() {
    for alignment in 0..=512 {
        let result = Alignment::try_new(alignment);
        if alignment.is_power_of_two() {
            assert!(result.is_some(), "Alignment is power of two, but result is not valid");
        } else {
            assert!(result.is_none(), "Alignment is not power of two, but result is valid");
        }
    }
}

#[should_panic]
#[test]
fn align_should_should_panic_on_zero() {
    Alignment::new(0);
}

#[should_panic]
#[test]
fn align_should_should_panic_on_not_power_of_two() {
    Alignment::new(3);
}

#[test]
fn align_should_verify_next_round() {
    let alignment = Alignment::new(4);
    assert_eq!(alignment.next(9), 12);
    assert_eq!(alignment.next(13), 16);
    assert_eq!(alignment.next(12), 12);
    assert_eq!(alignment.next(4), 4);
    assert_eq!(alignment.next(8), 8);
    assert_eq!(alignment.next(0), 0);

    let alignment = Alignment::new(1);
    assert_eq!(alignment.next(13), 13);
    assert_eq!(alignment.next(0), 0);

    let alignment = Alignment::new(512);
    assert_eq!(alignment.next(16), 512);
}

#[test]
fn align_should_verify_prev_round() {
    let alignment = Alignment::new(4);
    assert_eq!(alignment.prev(9), 8);
    assert_eq!(alignment.prev(13), 12);
    assert_eq!(alignment.prev(12), 12);
    assert_eq!(alignment.prev(4), 4);
    assert_eq!(alignment.prev(8), 8);
    assert_eq!(alignment.prev(0), 0);

    let alignment = Alignment::new(1);
    assert_eq!(alignment.prev(13), 13);
    assert_eq!(alignment.prev(0), 0);

    let alignment = Alignment::new(512);
    assert_eq!(alignment.prev(16), 0);
}

#[test]
fn try_new_keeps_value() {
    for shift in 0..usize::BITS {
        let value = 1usize << shift;
        assert_eq!(Alignment::try_new(value).unwrap().into_raw(), value);
    }
    assert!(Alignment::try_new(usize::MAX).is_none());
    assert!(Alignment::try_new(6).is_none());
}

#[test]
fn next_saturates_instead_of_wrapping() {
    let alignment = Alignment::new(8);
    assert_eq!(alignment.next(usize::MAX), usize::MAX & !7);
    assert_eq!(alignment.next(usize::MAX - 7), usize::MAX & !7);
    assert_eq!(alignment.prev(usize::MAX), usize::MAX & !7);
    let largest = Alignment::new(1usize << (usize::BITS - 1));
    assert_eq!(largest.next(1), 1usize << (usize::BITS - 1));
    assert_eq!(largest.next(usize::MAX), 1usize << (usize::BITS - 1));
}

#[test]
fn rounding_laws_hold_on_samples() {
    for shift in 0..10 {
        let alignment = Alignment::new(1usize << shift);
        let a = alignment.into_raw();
        for size in 0..300usize {
            let up = alignment.next(size);
            assert_eq!(alignment.prev(up), up);
            assert_eq!(up % a, 0);
            assert!(alignment.prev(size) <= size);
            assert!(size <= up);
        }
    }
}
