use mars::{Address, Cell, Instruction, Mars, MarsError, Modifier, Param};

fn empty() -> Cell {
    Cell::new(
        Instruction::DAT,
        None,
        Param::new(Address::Immediate, 0),
        Param::new(Address::Immediate, 0),
    )
}

fn numbered(n: i32) -> Cell {
    Cell::new(
        Instruction::NOP,
        Some(Modifier::F),
        Param::new(Address::Direct, n),
        Param::new(Address::Direct, -n),
    )
}

fn program(len: i32) -> Vec<Cell> {
    (1..=len).map(numbered).collect()
}

#[test]
fn new_core_is_filled_with_dat() {
    for size in [1usize, 2, 16, 32, 1000] {
        let mars = Mars::new(size);
        assert_eq!(mars.size(), size);
        assert_eq!(mars.iptr(), 0);
        assert_eq!(mars.cells().len(), size);
        for i in 0..size {
            assert_eq!(mars.cell(i), empty());
        }
    }
}

#[test]
fn blank_cell_is_dat_f_with_immediate_zeros() {
    let c = Mars::new(1).cell(0);
    assert_eq!(c.ins, Instruction::DAT);
    assert_eq!(c.modifier, Modifier::F);
    assert_eq!(c.a, Param::new(Address::Immediate, 0));
    assert_eq!(c.b, Param::new(Address::Immediate, 0));
}

#[test]
fn cell_counts_around_the_circle() {
    let mut mars = Mars::new(4);
    assert_eq!(mars.load(program(4)), Ok(()));
    assert_eq!(mars.cell(0), numbered(1));
    assert_eq!(mars.cell(3), numbered(4));
    assert_eq!(mars.cell(4), numbered(1));
    assert_eq!(mars.cell(7), numbered(4));
    assert_eq!(mars.cell(usize::MAX), numbered(4));
}

#[test]
fn set_iptr_counts_around_the_circle() {
    let mut mars = Mars::new(8);
    mars.set_iptr(5);
    assert_eq!(mars.iptr(), 5);
    mars.set_iptr(8);
    assert_eq!(mars.iptr(), 0);
    mars.set_iptr(21);
    assert_eq!(mars.iptr(), 5);
    for i in 0..8 {
        assert_eq!(mars.cell(i), empty());
    }
}

#[test]
fn load_writes_from_cell_zero() {
    let mut mars = Mars::new(8);
    assert_eq!(mars.load(program(3)), Ok(()));
    assert_eq!(mars.cell(0), numbered(1));
    assert_eq!(mars.cell(1), numbered(2));
    assert_eq!(mars.cell(2), numbered(3));
    for i in 3..8 {
        assert_eq!(mars.cell(i), empty());
    }
    assert_eq!(mars.size(), 8);
    assert_eq!(mars.iptr(), 0);
}

#[test]
fn load_keeps_the_instruction_pointer() {
    let mut mars = Mars::new(8);
    mars.set_iptr(6);
    assert_eq!(mars.load(program(3)), Ok(()));
    assert_eq!(mars.iptr(), 6);
    assert_eq!(mars.load_at(&program(2), 7), Ok(()));
    assert_eq!(mars.iptr(), 6);
}

#[test]
fn load_of_nothing_changes_nothing() {
    let mut mars = Mars::new(4);
    assert_eq!(mars.load(program(2)), Ok(()));
    let before = mars.cells().clone();
    assert_eq!(mars.load(Vec::new()), Ok(()));
    assert_eq!(mars.cells(), &before);
    assert_eq!(mars.load_at(&Vec::new(), 3), Ok(()));
    assert_eq!(mars.cells(), &before);
}

#[test]
fn load_fills_the_whole_core() {
    let mut mars = Mars::new(4);
    assert_eq!(mars.load(program(4)), Ok(()));
    assert_eq!(mars.cells(), &program(4));
}

#[test]
fn load_overwrites_what_was_there() {
    let mut mars = Mars::new(4);
    assert_eq!(mars.load(program(4)), Ok(()));
    assert_eq!(mars.load(vec![numbered(9)]), Ok(()));
    assert_eq!(mars.cells(), &vec![numbered(9), numbered(2), numbered(3), numbered(4)]);
}

#[test]
fn load_overflow() {
    let mut mars = Mars::new(4);
    assert_eq!(mars.load(program(5)), Err(MarsError::LoadOverflow));
    assert_eq!(mars.size(), 4);
    for i in 0..4 {
        assert_eq!(mars.cell(i), empty());
    }
}

#[test]
fn load_overflow_leaves_a_loaded_core_as_it_was() {
    let mut mars = Mars::new(4);
    assert_eq!(mars.load(program(3)), Ok(()));
    let before = mars.cells().clone();
    assert_eq!(mars.load(program(5)), Err(MarsError::LoadOverflow));
    assert_eq!(mars.cells(), &before);
    assert_eq!(mars.load_at(&program(40), 2), Err(MarsError::LoadOverflow));
    assert_eq!(mars.cells(), &before);
}

#[test]
fn load_overflow_on_the_smallest_core() {
    let mut mars = Mars::new(1);
    assert_eq!(mars.load(program(2)), Err(MarsError::LoadOverflow));
    assert_eq!(mars.load(program(1)), Ok(()));
    assert_eq!(mars.cell(0), numbered(1));
}

#[test]
fn load_at_writes_from_the_origin() {
    let mut mars = Mars::new(8);
    assert_eq!(mars.load_at(&program(3), 2), Ok(()));
    assert_eq!(
        mars.cells(),
        &vec![
            empty(),
            empty(),
            numbered(1),
            numbered(2),
            numbered(3),
            empty(),
            empty(),
            empty()
        ]
    );
}

#[test]
fn load_at_goes_round_the_end() {
    let mut mars = Mars::new(8);
    assert_eq!(mars.load_at(&program(4), 6), Ok(()));
    assert_eq!(
        mars.cells(),
        &vec![
            numbered(3),
            numbered(4),
            empty(),
            empty(),
            empty(),
            empty(),
            numbered(1),
            numbered(2)
        ]
    );
}

#[test]
fn load_at_takes_an_origin_outside_the_core() {
    let mut mars = Mars::new(8);
    assert_eq!(mars.load_at(&program(2), 23), Ok(()));
    assert_eq!(mars.cell(7), numbered(1));
    assert_eq!(mars.cell(0), numbered(2));
    for i in 1..7 {
        assert_eq!(mars.cell(i), empty());
    }
    let mut mars = Mars::new(8);
    assert_eq!(mars.load_at(&program(2), usize::MAX), Ok(()));
    assert_eq!(mars.cell(7), numbered(1));
    assert_eq!(mars.cell(0), numbered(2));
}

#[test]
fn load_at_fills_the_whole_core_from_any_origin() {
    for origin in 0..5 {
        let mut mars = Mars::new(5);
        assert_eq!(mars.load_at(&program(5), origin), Ok(()));
        for k in 0..5 {
            assert_eq!(mars.cell(origin + k), numbered(k as i32 + 1));
        }
    }
}

#[test]
fn load_at_zero_is_load() {
    let mut one = Mars::new(8);
    let mut two = Mars::new(8);
    assert_eq!(one.load(program(5)), Ok(()));
    assert_eq!(two.load_at(&program(5), 0), Ok(()));
    assert_eq!(one.cells(), two.cells());
}
