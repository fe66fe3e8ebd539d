use ai_company::counts::wrap;

#[test]
fn counts_are_kept_in_32_bits() {
    assert_eq!(wrap(0), 0);
    assert_eq!(wrap(7), 7);
    assert_eq!(wrap(u32::MAX as usize), u32::MAX);
    if usize::BITS > 32 {
        let over: usize = (1usize << 32) + 5;
        assert_eq!(wrap(over), 5);
    }
}
