use std::collections::HashMap;

use forth_compiler::compiler::ForthCompiler;
use forth_compiler::dictionary::{CompiledWord, ForthDictionary};
use forth_compiler::primitives::Primitive;

const SP: usize = 2;
const FP: usize = 8;

struct Cpu {
    x: [u32; 32],
    mem: HashMap<u32, u32>,
}

fn sext(imm: u32) -> u32 {
    if imm & 0x800 != 0 {
        imm | 0xffff_f000
    } else {
        imm
    }
}

impl Cpu {
    fn new(sp: u32, fp: u32) -> Cpu {
        let mut x = [0u32; 32];
        x[SP] = sp;
        x[FP] = fp;
        Cpu { x, mem: HashMap::new() }
    }

    fn set(&mut self, r: usize, v: u32) {
        if r != 0 {
            self.x[r] = v;
        }
    }

    fn load(&self, a: u32) -> u32 {
        *self.mem.get(&a).unwrap_or(&0)
    }

    fn push(&mut self, v: u32) {
        let sp = self.x[SP];
        self.mem.insert(sp, v);
        self.x[SP] = sp.wrapping_sub(4);
    }

    fn top(&self) -> u32 {
        self.load(self.x[SP].wrapping_add(4))
    }

    fn step(&mut self, emitted: u32) {
        let w = emitted.swap_bytes();
        let (op, rd, f3) = (w & 0x7f, ((w >> 7) & 31) as usize, (w >> 12) & 7);
        let (rs1, rs2, f7) = (((w >> 15) & 31) as usize, ((w >> 20) & 31) as usize, w >> 25);
        let (a, b, imm) = (self.x[rs1], self.x[rs2], sext(w >> 20));
        match (op, f3, f7) {
            (0x37, _, _) => self.set(rd, w & 0xffff_f000),
            (0x03, 2, _) => {
                let v = self.load(a.wrapping_add(imm));
                self.set(rd, v)
            }
            (0x23, 2, _) => {
                let offset = sext((f7 << 5) | rd as u32);
                self.mem.insert(a.wrapping_add(offset), b);
            }
            (0x13, 0, _) => self.set(rd, a.wrapping_add(imm)),
            (0x13, 3, _) => self.set(rd, (a < imm) as u32),
            (0x13, 1, 0) => self.set(rd, a << rs2),
            (0x13, 5, 0x20) => self.set(rd, ((a as i32) >> rs2) as u32),
            (0x33, 0, 0) => self.set(rd, a.wrapping_add(b)),
            (0x33, 0, 0x20) => self.set(rd, a.wrapping_sub(b)),
            (0x33, 1, 0) => self.set(rd, a << (b & 31)),
            (0x33, 2, 0) => self.set(rd, ((a as i32) < (b as i32)) as u32),
            (0x33, 4, 0) => self.set(rd, a ^ b),
            (0x33, 5, 0) => self.set(rd, a >> (b & 31)),
            (0x33, 6, 0) => self.set(rd, a | b),
            (0x33, 7, 0) => self.set(rd, a & b),
            _ => panic!("no such instruction: {:08x}", w),
        }
    }

    fn run(&mut self, p: Primitive) {
        let (n, words) = p.get_instructions();
        for w in &words[..n] {
            self.step(*w);
        }
    }
}

fn binary(p: Primitive, under: u32, top: u32) -> u32 {
    let mut cpu = Cpu::new(0x8000, 0x9000);
    cpu.push(under);
    cpu.push(top);
    cpu.run(p);
    assert_eq!(cpu.x[SP], 0x8000 - 4);
    cpu.top()
}

fn compared(p: Primitive, under: u32, top: u32) -> u32 {
    let mut cpu = Cpu::new(0x8000, 0x9000);
    cpu.push(under);
    cpu.push(top);
    cpu.run(p);
    assert_eq!(cpu.x[SP], 0x8000 - 4);
    // The free cell under the new top is as it was.
    assert_eq!(cpu.load(cpu.x[SP]), top);
    cpu.top()
}

#[test]
fn equal_leaves_all_ones_or_zero() {
    assert_eq!(compared(Primitive::Eq, 7, 7), 0xffff_ffff);
    assert_eq!(compared(Primitive::Eq, 0, 0), 0xffff_ffff);
    assert_eq!(compared(Primitive::Eq, 7, 8), 0);
    assert_eq!(compared(Primitive::Eq, 0x8000_0000, 0), 0);
    assert_eq!(compared(Primitive::Eq, u32::MAX, u32::MAX), 0xffff_ffff);
}

#[test]
fn less_and_greater_compare_signed_and_leave_all_ones_or_zero() {
    assert_eq!(compared(Primitive::Lt, 1, 2), 0xffff_ffff);
    assert_eq!(compared(Primitive::Lt, 2, 1), 0);
    assert_eq!(compared(Primitive::Lt, 2, 2), 0);
    assert_eq!(compared(Primitive::Lt, 0xffff_ffff, 0), 0xffff_ffff);
    assert_eq!(compared(Primitive::Lt, 0, 0xffff_ffff), 0);
    assert_eq!(compared(Primitive::Gt, 2, 1), 0xffff_ffff);
    assert_eq!(compared(Primitive::Gt, 1, 2), 0);
    assert_eq!(compared(Primitive::Gt, 2, 2), 0);
    assert_eq!(compared(Primitive::Gt, 0, 0x8000_0000), 0xffff_ffff);
    assert_eq!(compared(Primitive::Gt, 0x8000_0000, 0), 0);
}

#[test]
fn comparisons_never_leave_one() {
    for p in [Primitive::Eq, Primitive::Lt, Primitive::Gt] {
        for (a, b) in [(0u32, 0u32), (1, 0), (0, 1), (5, 5), (u32::MAX, 1), (1, u32::MAX)] {
            let flag = compared(p, a, b);
            assert!(flag == 0 || flag == 0xffff_ffff);
        }
    }
}

#[test]
fn arithmetic_takes_the_top_cell_second() {
    assert_eq!(binary(Primitive::Add, 3, 4), 7);
    assert_eq!(binary(Primitive::Add, u32::MAX, 2), 1);
    assert_eq!(binary(Primitive::Sub, 10, 3), 7);
    assert_eq!(binary(Primitive::Sub, 3, 10), 3u32.wrapping_sub(10));
    assert_eq!(binary(Primitive::And, 0b1100, 0b1010), 0b1000);
    assert_eq!(binary(Primitive::Or, 0b1100, 0b1010), 0b1110);
    assert_eq!(binary(Primitive::Xor, 0b1100, 0b1010), 0b0110);
    assert_eq!(binary(Primitive::LShift, 1, 4), 16);
    assert_eq!(binary(Primitive::RShift, 0x8000_0000, 31), 1);
    assert_eq!(binary(Primitive::LShift, 1, 33), 2);
}

#[test]
fn fetch_and_store() {
    let mut cpu = Cpu::new(0x8000, 0x9000);
    cpu.push(0xabcd);
    cpu.push(0x4000);
    cpu.run(Primitive::Load);
    assert_eq!(cpu.load(0x4000), 0xabcd);
    assert_eq!(cpu.x[SP], 0x8000);
    cpu.push(0x4000);
    cpu.run(Primitive::Fetch);
    assert_eq!(cpu.top(), 0xabcd);
    assert_eq!(cpu.x[SP], 0x8000 - 4);
}

#[test]
fn cells_move_between_the_stacks() {
    let mut cpu = Cpu::new(0x8000, 0x9000);
    cpu.push(42);
    cpu.run(Primitive::RTo);
    assert_eq!(cpu.x[SP], 0x8000);
    assert_eq!(cpu.x[FP], 0x9000 - 4);
    assert_eq!(cpu.load(0x9000), 42);
    cpu.run(Primitive::RFrom);
    assert_eq!(cpu.x[FP], 0x9000);
    assert_eq!(cpu.x[SP], 0x8000 - 4);
    assert_eq!(cpu.top(), 42);
}

fn pushed(value: u32) -> u32 {
    let mut cpu = Cpu::new(0x8000, 0x9000);
    cpu.run(Primitive::Push(value));
    assert_eq!(cpu.x[SP], 0x8000 - 4);
    cpu.top()
}

#[test]
fn literals_without_bit_11_are_pushed_as_they_are() {
    for v in [0u32, 1, 2, 100, 0x7ff, 0x1000, 5000, 0x1234_5678, 0xffff_f7ff, 0x8000_0000] {
        assert_eq!(pushed(v), v);
    }
}

#[test]
fn literals_with_bit_11_come_out_short_by_0x1000() {
    assert_eq!(pushed(0x800), 0xffff_f800);
    assert_eq!(pushed(0xffe), 0xffff_fffe);
    assert_eq!(pushed(0xfff), 0xffff_ffff);
    assert_eq!(pushed(0x1801), 0x801);
    assert_eq!(pushed(0xffff_f800), 0xffff_e800);
    assert_eq!(pushed(u32::MAX), 0xffff_efff);
    for v in [0x800u32, 0xfff, 0x1801, 0xdead_beef, u32::MAX] {
        assert_eq!(pushed(v), v.wrapping_sub(0x1000));
    }
}

#[test]
fn compiled_text_runs() {
    let mut keys = [CompiledWord::new("", "", 0); 4];
    let mut memory = [0u32; 64];
    let mut c = ForthCompiler::new(ForthDictionary::new(0, &mut keys, 0, &mut memory));
    let mut out = [0u32; 64];
    let n = c.compile(": DOUBLE 2 + ; 5 DOUBLE DOUBLE 9 = 5000 4096 > AND", &mut out).unwrap();
    let mut cpu = Cpu::new(0x8000, 0x9000);
    for w in &out[..n] {
        cpu.step(*w);
    }
    assert_eq!(cpu.x[SP], 0x8000 - 4);
    assert_eq!(cpu.top(), 0xffff_ffff);
}
