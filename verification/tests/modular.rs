use aneurysm::modular::Modular;

#[test]
fn modular_add() {
    const LIMIT: usize = 1000;

    let modular = Modular::from_value(456, LIMIT);

    for i in 0..3 {
        assert_eq!(*(modular + 544 + i * LIMIT), 0);
        assert_eq!(*(modular + &543 + i * LIMIT), 999);
        assert_eq!(*(&modular + 657 + i * LIMIT), 113);
        assert_eq!(*(&modular + &732 + i * LIMIT), 188)
    }
}

#[test]
fn modular_sub() {
    const LIMIT: usize = 1000;

    let modular = Modular::from_value(456, LIMIT);

    for i in 0..3 {
        assert_eq!(*(modular - 456 + i * LIMIT), 0);
        assert_eq!(*(modular - &457 + i * LIMIT), 999);
        assert_eq!(*(&modular - 584 + i * LIMIT), 872);
        assert_eq!(*(&modular - &338 + i * LIMIT), 118)
    }
}

#[test]
fn wrapping_add() {
    const LIMIT: usize = 1000;

    let wrapping = Modular::from_value(456, LIMIT);

    assert_eq!(*(wrapping + 544), 0);
    assert_eq!(*(wrapping + 543), 999);
    assert_eq!(*(wrapping + 657), 113);

    assert_eq!(*(wrapping + 1544), 0);
    assert_eq!(*(wrapping + 1543), 999);
    assert_eq!(*(wrapping + 1657), 113);
}

#[test]
fn wrapping_sub() {
    let wrapping = Modular::from_value(456, 1000);

    assert_eq!(*(wrapping - 456), 0);
    assert_eq!(*(wrapping - 457), 999);
    assert_eq!(*(wrapping - 584), 872);

    assert_eq!(*(wrapping - 1456), 0);
    assert_eq!(*(wrapping - 1457), 999);
    assert_eq!(*(wrapping - 1584), 872);
}

#[test]
fn with_limit_starts_at_zero_and_reset_returns_there() {
    let mut modular = Modular::with_limit(7);
    assert_eq!(modular.value(), 0);
    assert_eq!(modular.limit, 7);
    modular += 10;
    assert_eq!(modular.value(), 3);
    modular -= 4;
    assert_eq!(modular.value(), 6);
    modular += &8;
    assert_eq!(modular.value(), 0);
    modular -= &1;
    assert_eq!(modular.value(), 6);
    modular.reset();
    assert_eq!(modular.value(), 0);
    assert_eq!(modular.limit, 7);
}

#[test]
fn addition_near_the_largest_number_does_not_overflow() {
    let modular = Modular::from_value(usize::MAX - 1, usize::MAX);
    // (MAX - 1) + (MAX - 1) = 2 * MAX - 2, which is MAX - 2 under the limit MAX
    assert_eq!(*(modular + (usize::MAX - 1)), usize::MAX - 2);
    assert_eq!(*(modular + 1), 0);
}

#[test]
fn subtraction_only_lowers_a_value_that_is_large_enough() {
    // a value at or above its limit is not reduced by a subtraction that it can bear
    let modular = Modular::from_value(1500, 1000);
    assert_eq!(*(modular - 100), 1400);
    // one below the limit wraps
    let small = Modular::from_value(0, 5);
    assert_eq!(*(small - 1), 4);
    assert_eq!(*(small - 5), 0);
    assert_eq!(*(small - 6), 4);
}

#[test]
fn adding_what_was_subtracted_gives_the_value_back() {
    let modular = Modular::from_value(3, 10);
    for rhs in 0..40usize {
        assert_eq!(*(modular - rhs + rhs), 3);
    }
}
