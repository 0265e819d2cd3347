use gbrust::alu::{CARRY_FLAG, HALF_CARRY_FLAG, SUBTRACT_FLAG, ZERO_FLAG};
use gbrust::cpu::CPU;

fn flags(cpu: &CPU) -> (bool, bool, bool, bool) {
    (
        cpu.get_flag(ZERO_FLAG),
        cpu.get_flag(SUBTRACT_FLAG),
        cpu.get_flag(HALF_CARRY_FLAG),
        cpu.get_flag(CARRY_FLAG),
    )
}

#[test]
fn increment_then_decrement_restores_every_value() {
    for v in 0..=255u8 {
        for carry in [false, true] {
            let mut cpu = CPU::new();
            cpu.b = v;
            cpu.set_flag(CARRY_FLAG, carry);
            cpu.inc_b();
            let mid = cpu.b;
            cpu.dec_b();
            assert_eq!(cpu.b, v);
            // the flags are those of decrementing `mid`
            assert_eq!(cpu.get_flag(ZERO_FLAG), v == 0);
            assert_eq!(cpu.get_flag(SUBTRACT_FLAG), true);
            assert_eq!(cpu.get_flag(HALF_CARRY_FLAG), mid & 0x0F == 0);
            assert_eq!(cpu.get_flag(CARRY_FLAG), carry);
            assert_eq!(cpu.f & 0x0F, 0);
        }
    }
}

#[test]
fn increment_wraps_with_zero_and_half_carry() {
    let mut cpu = CPU::new();
    cpu.c = 0xFF;
    cpu.inc_c();
    assert_eq!(cpu.c, 0x00);
    assert_eq!(flags(&cpu), (true, false, true, false));
}

#[test]
fn decrement_wraps_with_half_carry_and_no_zero() {
    let mut cpu = CPU::new();
    cpu.d = 0x00;
    cpu.dec_d();
    assert_eq!(cpu.d, 0xFF);
    assert_eq!(flags(&cpu), (false, true, true, false));
}

#[test]
fn increment_keeps_carry() {
    let mut cpu = CPU::new();
    cpu.set_flag(CARRY_FLAG, true);
    cpu.b = 0x10;
    cpu.inc_b();
    assert_eq!(cpu.b, 0x11);
    assert_eq!(flags(&cpu), (false, false, false, true));
    assert_eq!(cpu.f, 0x10);
}

#[test]
fn rotate_nine_times_restores_accumulator_and_carry() {
    for a in 0..=255u8 {
        for carry in [false, true] {
            let mut cpu = CPU::new();
            cpu.a = a;
            cpu.set_flag(CARRY_FLAG, carry);
            for _ in 0..9 {
                cpu.rra();
            }
            assert_eq!(cpu.a, a);
            assert_eq!(cpu.get_flag(CARRY_FLAG), carry);
        }
    }
}

#[test]
fn rotate_clears_zero_even_for_a_zero_result() {
    let mut cpu = CPU::new();
    cpu.a = 0x01;
    cpu.f = 0xE0;
    cpu.rra();
    assert_eq!(cpu.a, 0x00);
    assert_eq!(flags(&cpu), (false, false, false, true));
}

#[test]
fn adc_exact_results() {
    let mut cpu = CPU::new();
    cpu.a = 0x8F;
    cpu.c = 0x70;
    cpu.set_flag(CARRY_FLAG, true);
    cpu.adc_a_c();
    // 0x8F + 0x70 + 1 = 0x100
    assert_eq!(cpu.a, 0x00);
    assert_eq!(flags(&cpu), (true, false, true, true));
    assert_eq!(cpu.f, 0xB0);
}

#[test]
fn compare_leaves_accumulator_and_sets_borrows() {
    let mut cpu = CPU::new();
    cpu.a = 0x42;
    cpu.cp_n(0x42);
    assert_eq!(flags(&cpu), (true, true, false, false));
    assert_eq!(cpu.a, 0x42);
    cpu.cp_n(0x4F);
    assert_eq!(flags(&cpu), (false, true, true, true));
    assert_eq!(cpu.a, 0x42);
}

#[test]
fn xor_a_sets_only_zero() {
    let mut cpu = CPU::new();
    cpu.a = 0x5A;
    cpu.f = 0x70;
    cpu.xor_a();
    assert_eq!(cpu.a, 0);
    assert_eq!(cpu.f, 0x80);
}

#[test]
fn set_and_get_each_flag() {
    let mut cpu = CPU::new();
    for flag in [CARRY_FLAG, HALF_CARRY_FLAG, SUBTRACT_FLAG, ZERO_FLAG] {
        cpu.set_flag(flag, true);
        assert!(cpu.get_flag(flag));
    }
    assert_eq!(cpu.f, 0xF0);
    cpu.set_flag(SUBTRACT_FLAG, false);
    assert_eq!(cpu.f, 0xB0);
    assert!(!cpu.get_flag(SUBTRACT_FLAG));
}

#[test]
fn relative_jump_wraps_around_the_address_space() {
    let mut cpu = CPU::new();
    cpu.pc = 0x0002;
    cpu.jr_nz_n(0xFC);
    assert_eq!(cpu.pc, 0xFFFE);
    cpu.jr_nz_n(0x04);
    assert_eq!(cpu.pc, 0x0002);
    cpu.jr_nz_n(0x80);
    assert_eq!(cpu.pc, 0xFF82);
}

#[test]
fn initialize_sets_power_on_values() {
    let mut cpu = CPU::new();
    cpu.initialize();
    assert_eq!(
        (cpu.a, cpu.f, cpu.b, cpu.c, cpu.d, cpu.e, cpu.h, cpu.l),
        (0x01, 0xB0, 0x00, 0x13, 0x00, 0xD8, 0x01, 0x4D)
    );
    assert_eq!(cpu.sp, 0xFFFE);
    assert_eq!(cpu.pc, 0x0000);
}
