use nano_chip::{image_bytes, load_rom, parse, NanoChipEmulator};

fn machine(program: &str) -> NanoChipEmulator {
    let words = parse(program).unwrap();
    let mut rom = [0u16; 256];
    for (i, w) in words.iter().enumerate() {
        rom[i] = *w;
    }
    NanoChipEmulator::new(&rom)
}

fn run(program: &str, ticks: usize) -> NanoChipEmulator {
    let mut m = machine(program);
    for _ in 0..ticks {
        assert!(m.can_tick());
        m.tick();
    }
    m
}

#[test]
fn fresh_machine_is_zero() {
    let m = machine("NOP");
    assert_eq!(m.accumulator(), 0);
    assert_eq!(m.pc(), 0);
    assert!(!m.zero_flag() && !m.carry_flag() && !m.overflow_flag() && !m.negative_flag());
    assert_eq!(m.ram_at(200), 0);
    assert_eq!(m.rom_at(0), 0x3F00);
}

#[test]
fn add_signed_overflow() {
    let m = run("LD 127\nADD 1", 2);
    assert_eq!(m.accumulator(), 0x80);
    assert!(m.overflow_flag());
    assert!(!m.carry_flag());
    assert!(m.negative_flag());
    assert!(!m.zero_flag());
}

#[test]
fn add_carry_out() {
    let m = run("LD 255\nADD 1", 2);
    assert_eq!(m.accumulator(), 0x00);
    assert!(m.carry_flag());
    assert!(!m.overflow_flag());
    assert!(m.zero_flag());
    assert!(!m.negative_flag());
}

#[test]
fn adc_adds_the_carry() {
    let with_carry = run("SETC\nLD 5\nADC 3", 3);
    let without = run("CLRC\nLD 5\nADD 3", 3);
    assert_eq!(with_carry.accumulator(), 9);
    assert_eq!(without.accumulator(), 8);
    let wrapped = run("SETC\nLD 255\nADC 0", 3);
    assert_eq!(wrapped.accumulator(), 0);
    assert!(wrapped.carry_flag());
}

#[test]
fn add_from_ram() {
    let m = run("LD 100\nST 7A\nLD 28\nADD 7A", 4);
    assert_eq!(m.accumulator(), 128);
    assert!(m.overflow_flag());
    assert_eq!(m.ram_at(7), 100);
}

#[test]
fn logic_operations() {
    assert_eq!(run("LD 12\nAND 10", 2).accumulator(), 8);
    assert_eq!(run("LD 12\nOR 3", 2).accumulator(), 15);
    let x = run("LD 12\nXOR 12", 2);
    assert_eq!(x.accumulator(), 0);
    assert!(x.zero_flag());
    assert_eq!(run("LD 6\nST 1A\nLD 3\nAND 1A", 4).accumulator(), 2);
}

#[test]
fn rotations_are_true_rotations() {
    let l = run("LD 129\nROL ACC", 2);
    assert_eq!(l.accumulator(), 3);
    assert!(l.carry_flag());
    let l0 = run("LD 64\nROL ACC", 2);
    assert_eq!(l0.accumulator(), 128);
    assert!(!l0.carry_flag());
    assert!(l0.negative_flag());
    let r = run("LD 1\nROR ACC", 2);
    assert_eq!(r.accumulator(), 128);
    assert!(r.carry_flag());
    let r0 = run("LD 2\nROR ACC", 2);
    assert_eq!(r0.accumulator(), 1);
    assert!(!r0.carry_flag());
}

#[test]
fn negation() {
    assert_eq!(run("LD 1\nNEG ACC", 2).accumulator(), 255);
    assert_eq!(run("NEG 2C", 1).accumulator(), 254);
    let z = run("NEG 0", 1);
    assert_eq!(z.accumulator(), 0);
    assert!(z.zero_flag());
    assert_eq!(run("LD 7\nST 42A\nLD 0\nNEG 42A", 4).accumulator(), 249);
}

#[test]
fn increment_and_decrement() {
    let i = run("LD 255\nINC ACC", 2);
    assert_eq!(i.accumulator(), 0);
    assert!(i.carry_flag() && i.zero_flag());
    let d = run("DEC ACC", 1);
    assert_eq!(d.accumulator(), 255);
    assert!(d.carry_flag() && d.negative_flag());
    let d1 = run("LD 5\nDEC ACC", 2);
    assert_eq!(d1.accumulator(), 4);
    assert!(!d1.carry_flag());
}

#[test]
fn increment_in_ram_keeps_the_accumulator() {
    let m = run("LD 255\nST 10A\nLD 3\nINC 10A", 4);
    assert_eq!(m.ram_at(10), 0);
    assert_eq!(m.accumulator(), 3);
    assert!(m.carry_flag());
    assert!(m.zero_flag());
    let d = run("DEC 9A", 1);
    assert_eq!(d.ram_at(9), 255);
    assert_eq!(d.accumulator(), 0);
    assert!(d.carry_flag() && d.negative_flag());
}

#[test]
fn carry_instructions() {
    assert!(run("SETC", 1).carry_flag());
    assert!(!run("SETC\nCLRC", 2).carry_flag());
    assert!(run("LD 200\nTRFNC", 2).carry_flag());
    assert!(!run("SETC\nLD 1\nTRFNC", 3).carry_flag());
}

#[test]
fn branches() {
    // taken: Zero is set by LD 0
    assert_eq!(run("LD 0\nBZ1 :t\nNOP\n:t\nNOP", 2).pc(), 3);
    assert_eq!(run("LD 0\nBZ0 :t\nNOP\n:t\nNOP", 2).pc(), 2);
    assert_eq!(run("LD 1\nBZ0 :t\nNOP\n:t\nNOP", 2).pc(), 3);
    assert_eq!(run("SETC\nBC1 9A", 2).pc(), 9);
    assert_eq!(run("SETC\nBC0 9A", 2).pc(), 2);
    assert_eq!(run("CLRC\nBC0 9A", 2).pc(), 9);
    assert_eq!(run("LD 127\nADD 1\nBV1 9A", 3).pc(), 9);
    assert_eq!(run("LD 127\nADD 1\nBV0 9A", 3).pc(), 3);
    assert_eq!(run("LD 200\nBN1 9A", 2).pc(), 9);
    assert_eq!(run("LD 200\nBN0 9A", 2).pc(), 2);
    assert_eq!(run("BRA 77A", 1).pc(), 77);
    assert_eq!(run("NOP", 1).pc(), 1);
}

#[test]
fn program_counter_wraps() {
    let mut rom = [0x3F00u16; 256];
    rom[0] = 0x22FF; // BRA 255
    let mut m = NanoChipEmulator::new(&rom);
    m.tick();
    assert_eq!(m.pc(), 255);
    m.tick();
    assert_eq!(m.pc(), 0);
}

#[test]
fn unknown_opcode_cannot_tick() {
    let rom = [0u16; 256];
    let m = NanoChipEmulator::new(&rom);
    assert!(!m.can_tick());
    let mut rom2 = [0u16; 256];
    rom2[0] = 0x2300;
    assert!(!NanoChipEmulator::new(&rom2).can_tick());
}

#[test]
fn store_writes_ram() {
    let m = run("LD 42\nST 200A", 2);
    assert_eq!(m.ram_at(200), 42);
    assert!(!m.zero_flag());
}

#[test]
fn image_is_big_endian() {
    assert_eq!(image_bytes(&vec![0x012A, 0x3F00]), vec![0x01, 0x2A, 0x3F, 0x00]);
    assert_eq!(image_bytes(&vec![]), Vec::<u8>::new());
}

#[test]
fn rom_loading() {
    let rom = load_rom(&[0x01, 0x2A, 0x3F, 0x00, 0x77]).unwrap();
    assert_eq!(rom[0], 0x012A);
    assert_eq!(rom[1], 0x3F00);
    assert_eq!(rom[2], 0);
    assert!(load_rom(&[0u8; 513]).is_none());
    assert!(load_rom(&[0u8; 512]).is_some());
}

#[test]
fn assembled_image_runs() {
    let words = parse("LD 3\nST 1A\nADD 1A\nBRA 3A").unwrap();
    let rom = load_rom(&image_bytes(&words)).unwrap();
    let mut m = NanoChipEmulator::new(&rom);
    for _ in 0..5 {
        m.tick();
    }
    assert_eq!(m.accumulator(), 6);
    assert_eq!(m.pc(), 3);
}
