use chip8::error::Error;
use chip8::memory::Memory;

#[test]
fn font_table_seeded() {
    let m = Memory::new();
    // Glyph 0 starts at address 0.
    assert_eq!(m.get(0), 0xF0);
    assert_eq!(m.get(1), 0x90);
    assert_eq!(m.get(4), 0xF0);
    // Glyph 1 starts at address 5.
    assert_eq!(m.get(5), 0x20);
    assert_eq!(m.get(9), 0x70);
    // Last byte of glyph F.
    assert_eq!(m.get(79), 0x80);
    // Everything above the font table is zero.
    assert_eq!(m.get(80), 0);
    assert_eq!(m.get(0x200), 0);
    assert_eq!(m.get(4095), 0);
}

#[test]
fn store_then_get_round_trips() {
    let mut m = Memory::new();
    m.store(0x300, 0xAB);
    assert_eq!(m.get(0x300), 0xAB);
    m.store(4095, 0x01);
    assert_eq!(m.get(4095), 0x01);
}

#[test]
fn sprite_locations_step_by_five() {
    let m = Memory::new();
    for d in 0..=0xF {
        assert_eq!(m.get_sprite_location(d), (d as u16) * 5);
    }
}

#[test]
fn get_memory_snapshot() {
    let m = Memory::new();
    let bytes = m.get_memory();
    assert_eq!(bytes.len(), 4096);
    assert_eq!(bytes[0], 0xF0);
    assert_eq!(bytes[80], 0);
}

#[test]
fn load_program_places_image_at_0x200() {
    let mut m = Memory::new();
    let r = m.load_program(&[1, 2, 3]);
    assert_eq!(r, Ok(()));
    assert_eq!(m.get(0x200), 1);
    assert_eq!(m.get(0x201), 2);
    assert_eq!(m.get(0x202), 3);
    assert_eq!(m.get(0x203), 0);
}

#[test]
fn load_program_accepts_largest_image() {
    let mut m = Memory::new();
    let image = vec![0x55u8; 4096 - 0x200];
    assert_eq!(m.load_program(&image), Ok(()));
    assert_eq!(m.get(0x200), 0x55);
    assert_eq!(m.get(4095), 0x55);
}

#[test]
fn load_program_rejects_oversized_image() {
    let mut m = Memory::new();
    let image = vec![0x55u8; 4096 - 0x200 + 1];
    assert_eq!(m.load_program(&image), Err(Error::ProgramTooLarge { len: image.len() }));
    // Memory untouched on failure.
    assert_eq!(m.get(0x200), 0);
}
