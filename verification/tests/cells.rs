use mars::{Address, Cell, Instruction, Modifier, Param, Slot};

const MODES: [Address; 5] = [
    Address::Immediate,
    Address::Direct,
    Address::Indirect,
    Address::PreIncIndirect,
    Address::PostIncIndirect,
];

const INSTRUCTIONS: [Instruction; 15] = [
    Instruction::DAT,
    Instruction::NOP,
    Instruction::MOV,
    Instruction::ADD,
    Instruction::SUB,
    Instruction::MUL,
    Instruction::DIV,
    Instruction::MOD,
    Instruction::JMP,
    Instruction::JMZ,
    Instruction::JMN,
    Instruction::DJN,
    Instruction::CMP,
    Instruction::SLT,
    Instruction::SPL,
];

const MODIFIERS: [Modifier; 7] = [
    Modifier::A,
    Modifier::B,
    Modifier::AB,
    Modifier::BA,
    Modifier::F,
    Modifier::X,
    Modifier::I,
];

fn inferred(ins: Instruction, a: Address, b: Address) -> Modifier {
    Cell::new(ins, None, Param::new(a, 1), Param::new(b, 2)).modifier
}

#[test]
fn param_holds_its_parts() {
    let p = Param::new(Address::Indirect, -7);
    assert_eq!(p.addr, Address::Indirect);
    assert_eq!(p.val, -7);
}

#[test]
fn cell_holds_its_parts() {
    let a = Param::new(Address::Direct, 3);
    let b = Param::new(Address::Indirect, -4);
    let c = Cell::new(Instruction::SUB, Some(Modifier::X), a, b);
    assert_eq!(c.ins, Instruction::SUB);
    assert_eq!(c.modifier, Modifier::X);
    assert_eq!(c.a, a);
    assert_eq!(c.b, b);
}

#[test]
fn explicit_modifier_is_kept() {
    for ins in INSTRUCTIONS {
        for a in MODES {
            for b in MODES {
                for m in MODIFIERS {
                    let c = Cell::new(ins, Some(m), Param::new(a, 0), Param::new(b, 0));
                    assert_eq!(c.modifier, m);
                    assert_eq!(c.ins, ins);
                    assert_eq!(c.a.addr, a);
                    assert_eq!(c.b.addr, b);
                }
            }
        }
    }
}

#[test]
fn dat_and_nop_default_to_f() {
    for a in MODES {
        for b in MODES {
            assert_eq!(inferred(Instruction::DAT, a, b), Modifier::F);
            assert_eq!(inferred(Instruction::NOP, a, b), Modifier::F);
        }
    }
}

#[test]
fn mov_and_cmp_defaults() {
    for ins in [Instruction::MOV, Instruction::CMP] {
        for a in MODES {
            for b in MODES {
                let expected = if a == Address::Immediate {
                    Modifier::AB
                } else if b == Address::Immediate {
                    Modifier::B
                } else {
                    Modifier::I
                };
                assert_eq!(inferred(ins, a, b), expected);
            }
        }
    }
}

#[test]
fn arithmetic_defaults() {
    for ins in [
        Instruction::ADD,
        Instruction::SUB,
        Instruction::MUL,
        Instruction::DIV,
        Instruction::MOD,
    ] {
        for a in MODES {
            for b in MODES {
                let expected = if a == Address::Immediate {
                    Modifier::AB
                } else if b == Address::Immediate {
                    Modifier::B
                } else {
                    Modifier::F
                };
                assert_eq!(inferred(ins, a, b), expected);
            }
        }
    }
}

#[test]
fn slt_defaults() {
    for a in MODES {
        for b in MODES {
            let expected = if a == Address::Immediate { Modifier::AB } else { Modifier::B };
            assert_eq!(inferred(Instruction::SLT, a, b), expected);
        }
    }
}

#[test]
fn jumps_and_spl_default_to_b() {
    for ins in [
        Instruction::JMP,
        Instruction::JMZ,
        Instruction::JMN,
        Instruction::DJN,
        Instruction::SPL,
    ] {
        for a in MODES {
            for b in MODES {
                assert_eq!(inferred(ins, a, b), Modifier::B);
            }
        }
    }
}

#[test]
fn default_modifier_single_rows() {
    assert_eq!(inferred(Instruction::MOV, Address::Immediate, Address::Immediate), Modifier::AB);
    assert_eq!(inferred(Instruction::MOV, Address::Direct, Address::Immediate), Modifier::B);
    assert_eq!(inferred(Instruction::MOV, Address::Direct, Address::Indirect), Modifier::I);
    assert_eq!(inferred(Instruction::ADD, Address::Immediate, Address::Direct), Modifier::AB);
    assert_eq!(inferred(Instruction::ADD, Address::Indirect, Address::Direct), Modifier::F);
    assert_eq!(inferred(Instruction::SLT, Address::Direct, Address::Immediate), Modifier::B);
    assert_eq!(inferred(Instruction::JMP, Address::Immediate, Address::Immediate), Modifier::B);
    assert_eq!(inferred(Instruction::DAT, Address::Immediate, Address::Immediate), Modifier::F);
}

#[test]
fn default_modifier_ignores_the_integers() {
    for ins in INSTRUCTIONS {
        for a in MODES {
            for b in MODES {
                let one = Cell::new(ins, None, Param::new(a, 0), Param::new(b, 0));
                let two = Cell::new(ins, None, Param::new(a, -5), Param::new(b, 99));
                assert_eq!(one.modifier, two.modifier);
            }
        }
    }
}

#[test]
fn field_picks_by_slot() {
    let a = Param::new(Address::Direct, 3);
    let b = Param::new(Address::Indirect, -4);
    let c = Cell::new(Instruction::MOV, None, a, b);
    assert_eq!(c.field(Slot::A), a);
    assert_eq!(c.field(Slot::B), b);
}

#[test]
fn modifier_pairs_source_with_destination() {
    assert_eq!(Modifier::A.source_of(Slot::A), Some(Slot::A));
    assert_eq!(Modifier::A.source_of(Slot::B), None);
    assert_eq!(Modifier::B.source_of(Slot::A), None);
    assert_eq!(Modifier::B.source_of(Slot::B), Some(Slot::B));
    assert_eq!(Modifier::AB.source_of(Slot::A), None);
    assert_eq!(Modifier::AB.source_of(Slot::B), Some(Slot::A));
    assert_eq!(Modifier::BA.source_of(Slot::A), Some(Slot::B));
    assert_eq!(Modifier::BA.source_of(Slot::B), None);
    assert_eq!(Modifier::F.source_of(Slot::A), Some(Slot::A));
    assert_eq!(Modifier::F.source_of(Slot::B), Some(Slot::B));
    assert_eq!(Modifier::X.source_of(Slot::A), Some(Slot::B));
    assert_eq!(Modifier::X.source_of(Slot::B), Some(Slot::A));
    assert_eq!(Modifier::I.source_of(Slot::A), Some(Slot::A));
    assert_eq!(Modifier::I.source_of(Slot::B), Some(Slot::B));
}

#[test]
fn infer_is_what_a_cell_without_modifier_gets() {
    for ins in INSTRUCTIONS {
        for a in MODES {
            for b in MODES {
                assert_eq!(Modifier::infer(ins, a, b), inferred(ins, a, b));
            }
        }
    }
}

#[test]
fn infer_single_rows() {
    assert_eq!(Modifier::infer(Instruction::NOP, Address::Direct, Address::Direct), Modifier::F);
    assert_eq!(Modifier::infer(Instruction::CMP, Address::Immediate, Address::Direct), Modifier::AB);
    assert_eq!(Modifier::infer(Instruction::CMP, Address::Indirect, Address::Immediate), Modifier::B);
    assert_eq!(Modifier::infer(Instruction::CMP, Address::Indirect, Address::Direct), Modifier::I);
    assert_eq!(Modifier::infer(Instruction::MUL, Address::Direct, Address::Immediate), Modifier::B);
    assert_eq!(Modifier::infer(Instruction::MOD, Address::Direct, Address::Direct), Modifier::F);
    assert_eq!(Modifier::infer(Instruction::SLT, Address::Immediate, Address::Immediate), Modifier::AB);
    assert_eq!(Modifier::infer(Instruction::SLT, Address::PreIncIndirect, Address::Direct), Modifier::B);
    assert_eq!(Modifier::infer(Instruction::DJN, Address::Immediate, Address::Direct), Modifier::B);
    assert_eq!(Modifier::infer(Instruction::SPL, Address::Direct, Address::Immediate), Modifier::B);
}
