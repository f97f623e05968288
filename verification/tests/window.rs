use ark_ec::scalar_mul::fixed_base::FixedBase;
use legogroth16::window::get_mul_window_size;
use legogroth16::window::log2;

#[test]
fn log2_rounds_the_binary_logarithm_up() {
    assert_eq!(log2(0), 0);
    assert_eq!(log2(1), 0);
    assert_eq!(log2(2), 1);
    assert_eq!(log2(3), 2);
    assert_eq!(log2(4), 2);
    assert_eq!(log2(5), 3);
    assert_eq!(log2(1 << 15), 15);
    assert_eq!(log2((1 << 15) + 1), 16);
    assert_eq!(log2(usize::MAX), usize::BITS);
    for x in 0..5000usize {
        assert_eq!(log2(x), ark_std::log2(x));
    }
}

#[test]
fn mul_window_size_is_that_of_fixed_base_multiplication() {
    assert_eq!(get_mul_window_size(0), 3);
    assert_eq!(get_mul_window_size(31), 3);
    // 32 = 2^5, and 5 * 69 / 100 = 3
    assert_eq!(get_mul_window_size(32), 3);
    // 2^6 < 100 <= 2^7, and 7 * 69 / 100 = 4
    assert_eq!(get_mul_window_size(100), 4);
    // 2^20 gives 20 * 69 / 100 = 13
    assert_eq!(get_mul_window_size(1 << 20), 13);
    assert_eq!(get_mul_window_size((1 << 20) + 1), 14);
    for shift in 0..usize::BITS {
        for n in [(1usize << shift) - 1, 1usize << shift, (1usize << shift) + 1] {
            assert_eq!(get_mul_window_size(n), FixedBase::get_mul_window_size(n));
        }
    }
    assert_eq!(get_mul_window_size(usize::MAX), FixedBase::get_mul_window_size(usize::MAX));
}
