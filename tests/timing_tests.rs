use gbrust::mmu::MMU;

#[test]
fn full_frame_in_one_call_returns_to_line_zero() {
    let mut mmu = MMU::new();
    mmu.update_lcd(456 * 154);
    assert_eq!(mmu.scanline(), 0);
    assert_eq!(mmu.cycles(), 0);
    assert_eq!(mmu.read_byte(0xFF44), 0);
}

#[test]
fn full_frame_line_by_line_returns_to_line_zero() {
    let mut mmu = MMU::new();
    for line in 1..=154u32 {
        mmu.update_lcd(456);
        assert_eq!(mmu.scanline() as u32, line % 154);
        assert_eq!(mmu.read_byte(0xFF44) as u32, line % 154);
    }
    assert_eq!(mmu.scanline(), 0);
}

#[test]
fn modes_follow_two_three_zero_within_a_line() {
    let mut mmu = MMU::new();
    let mut seen = Vec::new();
    for _ in 0..(456 / 4) {
        mmu.update_lcd(4);
        let mode = mmu.mode();
        assert_eq!(mmu.read_byte(0xFF41) & 0x03, mode);
        if seen.last() != Some(&mode) {
            seen.push(mode);
        }
    }
    assert_eq!(seen, vec![2, 3, 0, 2]);
}

#[test]
fn mode_thresholds_are_exact() {
    let mut mmu = MMU::new();
    mmu.update_lcd(80);
    assert_eq!(mmu.mode(), 2);
    mmu.update_lcd(1);
    assert_eq!(mmu.mode(), 3);
    mmu.update_lcd(252 - 81);
    assert_eq!(mmu.mode(), 3);
    mmu.update_lcd(1);
    assert_eq!(mmu.mode(), 0);
}

#[test]
fn vertical_blank_lines_are_mode_one() {
    let mut mmu = MMU::new();
    mmu.update_lcd(456 * 144);
    assert_eq!(mmu.scanline(), 144);
    for _ in 144..154 {
        for _ in 0..4 {
            assert_eq!(mmu.mode(), 1);
            assert_eq!(mmu.read_byte(0xFF41) & 0x03, 1);
            mmu.update_lcd(114);
        }
    }
    assert_eq!(mmu.scanline(), 0);
    assert_eq!(mmu.mode(), 2);
}

#[test]
fn timing_keeps_status_bits_it_does_not_own() {
    let mut mmu = MMU::new();
    mmu.write_byte(0xFF41, 0x48);
    mmu.update_lcd(300);
    assert_eq!(mmu.read_byte(0xFF41), 0x48);
    mmu.update_lcd(200);
    assert_eq!(mmu.read_byte(0xFF41), 0x48 | 0x02);
}

#[test]
fn large_cycle_counts_do_not_overflow() {
    let mut mmu = MMU::new();
    mmu.update_lcd(u32::MAX);
    let lines = (u32::MAX / 456) as u64;
    assert_eq!(mmu.scanline() as u64, lines % 154);
    assert_eq!(mmu.cycles(), u32::MAX % 456);
}
