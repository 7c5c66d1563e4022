use dmg_emu::byteop::{b64, b64_u8, res};
use dmg_emu::cpu::{CFlag, CpuRegisters};
use dmg_emu::runtime::add_u16;

#[test]
fn test_b64_returns_b64_numbers() {
    assert_eq!(b64(0xFFu16), "00FF".to_string());
    assert_eq!(b64(0x3Au16), "003A".to_string());
}

#[test]
fn test_add_ra() {
    let mut cpu = CpuRegisters::new();
    cpu.add_ra(1);
    assert_eq!(cpu.ra, 1);
}

#[test]
fn test_add_ra_with_starting_value() {
    let mut cpu = CpuRegisters::new();
    cpu.ra = 6;
    cpu.add_ra(1);
    assert_eq!(cpu.ra, 7);
}

#[test]
fn test_add_ra_wraps() {
    let mut cpu = CpuRegisters::new();
    cpu.ra = 0b11111111;
    cpu.add_ra(1);
    assert_eq!(cpu.ra, 0);
}

#[test]
fn test_add_ra_sets_zero_flag() {
    let mut cpu = CpuRegisters::new();
    cpu.ra = 0b11111111;
    cpu.add_ra(1);

    assert_eq!(0x1, cpu.get_flag(CFlag::Z));
}

#[test]
fn test_add_ra_clears_zero_flag() {
    let mut cpu = CpuRegisters::new();
    cpu.ra = 0b11111110;
    cpu.add_ra(1);

    assert_eq!(0x0, cpu.get_flag(CFlag::Z));
}

#[test]
fn test_sets_carry() {
    let mut cpu = CpuRegisters::new();
    cpu.ra = 0b11111111;
    cpu.add_ra(1);

    assert_eq!(0x1, cpu.get_flag(CFlag::CY));
}

#[test]
fn test_sets_half_carry() {
    let mut cpu = CpuRegisters::new();
    cpu.ra = 0b1111;
    cpu.add_ra(1);
    assert_eq!(0x1, cpu.get_flag(CFlag::H));
}

#[test]
fn test_clears_half_carry() {
    let mut cpu = CpuRegisters::new();
    cpu.ra = 0b111;
    cpu.add_ra(1);
    assert_eq!(0x0, cpu.get_flag(CFlag::H));
}

#[test]
fn test_res_changes_inplace() {
    let mut val = 0b111;
    res(&mut val, 1);
    assert_eq!(val, 0b101);
}

#[test]
fn test_jr_jumps_ahead() {
    let mut cpu = CpuRegisters::new();
    cpu.jr(10);
    assert_eq!(cpu.pc, 10);
}

#[test]
fn test_jr_jumps_behind() {
    let mut cpu = CpuRegisters::new();
    cpu.pc = 10;
    cpu.jr(-2);
    assert_eq!(cpu.pc, 8);
}

#[test]
fn test_add_u16_has_carry() {
    let max = ((1u32 << 16) - 1) as u16;
    let (cy, _h, _res) = add_u16(max, max);

    assert_eq!(cy, 1);
}

#[test]
fn test_add_u16_wraps_result() {
    let max = ((1u32 << 16) - 1) as u16;
    let (_cy, _h, res) = add_u16(max, max);

    assert_eq!(res, (max as u32 * 2) as u16);
}

#[test]
fn test_add_u16_half_carry() {
    let (_, h, _) = add_u16(0x4C00, 0x4C00);
    assert_eq!(h, 1);
}

#[test]
fn test_inc_does_not_subtract() {
    let mut cpu = CpuRegisters::new();
    cpu.inc(0xE);

    assert_eq!(cpu.rf, 0);
}

#[test]
fn test_push_pop_af() {
    let mut cpu = CpuRegisters::new();
    cpu.set_af(0x1234);

    assert_eq!(cpu.af(), 0x1234 & 0xFFF0);
    assert_eq!(cpu.ra, 0x12);
    assert_eq!(cpu.rf, 0x34 & 0xF0);
}

#[test]
fn daa_after_add_gives_decimal_sum() {
    let mut cpu = CpuRegisters::new();
    cpu.ra = 0x15;
    cpu.add_ra(0x27);
    assert_eq!(cpu.ra, 0x3C);
    assert_eq!(cpu.get_flag(CFlag::S), 0);
    assert_eq!(cpu.get_flag(CFlag::H), 0);
    assert_eq!(cpu.get_flag(CFlag::CY), 0);
    cpu.daa();
    assert_eq!(cpu.ra, 0x42);
    assert_eq!(cpu.get_flag(CFlag::CY), 0);
    assert_eq!(cpu.get_flag(CFlag::Z), 0);
}

#[test]
fn daa_results_stay_decimal_for_all_decimal_operands() {
    for a in 0..100u8 {
        for b in 0..100u8 {
            let bcd = |v: u8| (v / 10) * 16 + v % 10;
            let mut cpu = CpuRegisters::new();
            cpu.ra = bcd(a);
            cpu.add_ra(bcd(b));
            cpu.daa();
            assert!(cpu.ra % 16 < 10 && cpu.ra / 16 < 10);
            assert_eq!(cpu.ra, bcd((a + b) % 100));
            assert_eq!(cpu.get_flag(CFlag::CY), ((a + b) >= 100) as u8);
        }
    }
}

#[test]
fn daa_after_subtraction() {
    let mut cpu = CpuRegisters::new();
    cpu.ra = 0x42;
    cpu.ra = cpu.sub_ra(0x15);
    cpu.daa();
    assert_eq!(cpu.ra, 0x27);
}

#[test]
fn swap_exchanges_nibbles_and_undoes_itself() {
    let mut cpu = CpuRegisters::new();
    assert_eq!(cpu.swap(0x12), 0x21);
    for x in 0..=255u8 {
        let once = cpu.swap(x);
        assert_eq!(cpu.swap(once), x);
    }
    assert_eq!(cpu.swap(0), 0);
    assert_eq!(cpu.get_flag(CFlag::Z), 1);
}

#[test]
fn eight_rotations_return_the_byte_and_carry() {
    for x in 0..=255u8 {
        let mut cpu = CpuRegisters::new();
        let start = cpu.rlc(x);
        let carry = cpu.get_flag(CFlag::CY);
        let mut v = start;
        for _ in 0..8 {
            v = cpu.rlc(v);
        }
        assert_eq!(v, start);
        assert_eq!(cpu.get_flag(CFlag::CY), carry);

        let mut cpu = CpuRegisters::new();
        let start = cpu.rrc(x);
        let carry = cpu.get_flag(CFlag::CY);
        let mut v = start;
        for _ in 0..8 {
            v = cpu.rrc(v);
        }
        assert_eq!(v, start);
        assert_eq!(cpu.get_flag(CFlag::CY), carry);
    }
    let mut cpu = CpuRegisters::new();
    assert_eq!(cpu.rlc(0x85), 0x0B);
    assert_eq!(cpu.rrc(0x01), 0x80);
}

#[test]
fn bit_keeps_carry_and_sets_half_carry() {
    for c in [false, true] {
        let mut cpu = CpuRegisters::new();
        if c {
            cpu.set_flag(CFlag::CY, 1);
        }
        cpu.bit(0b1000_0000, 7);
        assert_eq!(cpu.get_flag(CFlag::Z), 0);
        assert_eq!(cpu.get_flag(CFlag::H), 1);
        assert_eq!(cpu.get_flag(CFlag::CY), c as u8);
        cpu.bit(0b1000_0000, 3);
        assert_eq!(cpu.get_flag(CFlag::Z), 1);
        assert_eq!(cpu.get_flag(CFlag::CY), c as u8);
    }
}

#[test]
fn subtraction_flags() {
    let mut cpu = CpuRegisters::new();
    cpu.ra = 0x10;
    let r = cpu.sub_ra(0x01);
    assert_eq!(r, 0x0F);
    assert_eq!(cpu.rf, 0x60);
    cpu.ra = 0x00;
    cpu.set_flag(CFlag::CY, 1);
    let r = cpu.sbc_ra(0x00);
    assert_eq!(r, 0xFF);
    assert_eq!(cpu.rf, 0x70);
    cpu.ra = 0x05;
    cpu.cp_ra(0x05);
    assert_eq!(cpu.rf, 0xC0);
    assert_eq!(cpu.ra, 0x05);
}

#[test]
fn logic_flags() {
    let mut cpu = CpuRegisters::new();
    cpu.ra = 0xF0;
    cpu.and_ra(0x0F);
    assert_eq!(cpu.ra, 0);
    assert_eq!(cpu.rf, 0xA0);
    cpu.or_ra(0x81);
    assert_eq!(cpu.ra, 0x81);
    assert_eq!(cpu.rf, 0x00);
    cpu.xor_ra(0x81);
    assert_eq!(cpu.ra, 0);
    assert_eq!(cpu.rf, 0x80);
}

#[test]
fn shifts_and_rotates_through_carry() {
    let mut cpu = CpuRegisters::new();
    assert_eq!(cpu.sla(0x81), 0x02);
    assert_eq!(cpu.get_flag(CFlag::CY), 1);
    assert_eq!(cpu.rl(0x01), 0x03);
    assert_eq!(cpu.get_flag(CFlag::CY), 0);
    assert_eq!(cpu.sra(0x81), 0xC0);
    assert_eq!(cpu.get_flag(CFlag::CY), 1);
    assert_eq!(cpu.rr(0x02), 0x81);
    assert_eq!(cpu.get_flag(CFlag::CY), 0);
    assert_eq!(cpu.srl(0x81), 0x40);
    assert_eq!(cpu.get_flag(CFlag::CY), 1);
    assert_eq!(cpu.dec(0x10), 0x0F);
    assert_eq!(cpu.get_flag(CFlag::H), 1);
    assert_eq!(cpu.get_flag(CFlag::S), 1);
}

#[test]
fn add_sp_signed_offset() {
    let mut cpu = CpuRegisters::new();
    assert_eq!(cpu.add_u16_i8(0xFFF8, 8), 0x0000);
    assert_eq!(cpu.get_flag(CFlag::CY), 1);
    assert_eq!(cpu.get_flag(CFlag::H), 1);
    assert_eq!(cpu.add_u16_i8(0x0005, -6), 0xFFFF);
    assert_eq!(cpu.get_flag(CFlag::CY), 0);
    assert_eq!(cpu.get_flag(CFlag::H), 0);
}

#[test]
fn b64_u8_gives_two_digits() {
    assert_eq!(b64_u8(0x0F), "0F".to_string());
    assert_eq!(b64_u8(0xA3), "A3".to_string());
}
