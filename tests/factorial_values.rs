use factorial_wasi::factorial::factorial;

#[test]
fn zero_and_one_give_one() {
    assert_eq!(factorial(0), 1);
    assert_eq!(factorial(1), 1);
}

#[test]
fn five_gives_120() {
    assert_eq!(factorial(5), 120);
}

#[test]
fn ten_gives_3628800() {
    assert_eq!(factorial(10), 3628800);
}

#[test]
fn twenty_gives_exact_value() {
    assert_eq!(factorial(20), 2432902008176640000);
}

#[test]
fn two_and_three() {
    assert_eq!(factorial(2), 2);
    assert_eq!(factorial(3), 6);
}

#[test]
fn thirty_four_is_exact() {
    assert_eq!(factorial(34), 295232799039604140847618609643520000000);
}

#[test]
fn thirty_five_wraps_around() {
    assert_eq!(factorial(35), 124676958757991025765413114570153656320);
}

#[test]
fn forty_wraps_around() {
    assert_eq!(factorial(40), 176496280846824950617203951978843996160);
}

#[test]
fn large_count_wraps_to_zero() {
    // From 130 on, the product holds at least 128 factors of two.
    assert_eq!(factorial(130), 0);
    assert_eq!(factorial(1000), 0);
}
