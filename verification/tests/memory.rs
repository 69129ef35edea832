use rysk::bus::{Bus, DRAM_BASE};
use rysk::dram::{AccessError, Dram, DRAM_SIZE};

#[test]
fn dram_starts_with_the_image_and_zero_behind_it() {
    let dram = Dram::new(vec![0xde, 0xad, 0xbe, 0xef]);
    assert_eq!(dram.byte(0), Some(0xde));
    assert_eq!(dram.byte(3), Some(0xef));
    assert_eq!(dram.byte(4), Some(0));
    assert_eq!(dram.byte(DRAM_SIZE as usize - 1), Some(0));
    assert_eq!(dram.byte(DRAM_SIZE as usize), None);
}

#[test]
fn dram_constants() {
    assert_eq!(DRAM_BASE, 0x8000_0000);
    assert_eq!(DRAM_SIZE, 128 * 1024 * 1024);
}

#[test]
fn loads_are_little_endian_and_zero_extended() {
    let dram = Dram::new(vec![0x88, 0x77, 0x66, 0x55, 0x44, 0x33, 0x22, 0x11, 0xff]);
    assert_eq!(dram.load(DRAM_BASE, 8), Ok(0x88));
    assert_eq!(dram.load(DRAM_BASE, 16), Ok(0x7788));
    assert_eq!(dram.load(DRAM_BASE, 32), Ok(0x5566_7788));
    assert_eq!(dram.load(DRAM_BASE, 64), Ok(0x1122_3344_5566_7788));
    assert_eq!(dram.load(DRAM_BASE + 8, 8), Ok(0xff));
}

#[test]
fn load_64_places_the_high_bytes_at_40_48_and_56() {
    let dram = Dram::new(vec![0, 0, 0, 0, 0, 0x01, 0x02, 0x04]);
    assert_eq!(dram.load(DRAM_BASE, 64), Ok(0x0402_0100_0000_0000));
}

#[test]
fn loads_need_no_alignment() {
    let dram = Dram::new(vec![0x00, 0x11, 0x22, 0x33, 0x44, 0x55, 0x66, 0x77, 0x88, 0x99]);
    assert_eq!(dram.load(DRAM_BASE + 1, 16), Ok(0x2211));
    assert_eq!(dram.load(DRAM_BASE + 1, 32), Ok(0x4433_2211));
    assert_eq!(dram.load(DRAM_BASE + 1, 64), Ok(0x8877_6655_4433_2211));
}

#[test]
fn stores_write_the_low_bits_and_nothing_else() {
    let mut dram = Dram::new(vec![0xaa; 12]);
    assert_eq!(dram.store(DRAM_BASE + 2, 8, 0x1122_3344_5566_7788), Ok(()));
    assert_eq!(dram.byte(1), Some(0xaa));
    assert_eq!(dram.byte(2), Some(0x88));
    assert_eq!(dram.byte(3), Some(0xaa));

    assert_eq!(dram.store(DRAM_BASE + 2, 16, 0x1122_3344_5566_7788), Ok(()));
    assert_eq!(dram.byte(2), Some(0x88));
    assert_eq!(dram.byte(3), Some(0x77));
    assert_eq!(dram.byte(4), Some(0xaa));

    assert_eq!(dram.store(DRAM_BASE + 2, 32, 0x1122_3344_5566_7788), Ok(()));
    assert_eq!(dram.byte(4), Some(0x66));
    assert_eq!(dram.byte(5), Some(0x55));
    assert_eq!(dram.byte(6), Some(0xaa));

    assert_eq!(dram.store(DRAM_BASE + 2, 64, 0x1122_3344_5566_7788), Ok(()));
    let want = [0xaa, 0xaa, 0x88, 0x77, 0x66, 0x55, 0x44, 0x33, 0x22, 0x11, 0xaa, 0xaa];
    for (i, b) in want.iter().enumerate() {
        assert_eq!(dram.byte(i), Some(*b));
    }
}

#[test]
fn store_then_load_gives_the_value_reduced_to_the_width() {
    let mut dram = Dram::new(Vec::new());
    let v: u64 = 0xfedc_ba98_7654_3210;
    let a = DRAM_BASE + 0x100;
    dram.store(a, 64, v).unwrap();
    assert_eq!(dram.load(a, 64), Ok(v));
    dram.store(a + 8, 32, v).unwrap();
    assert_eq!(dram.load(a + 8, 32), Ok(0x7654_3210));
    dram.store(a + 16, 16, v).unwrap();
    assert_eq!(dram.load(a + 16, 16), Ok(0x3210));
    dram.store(a + 24, 8, v).unwrap();
    assert_eq!(dram.load(a + 24, 8), Ok(0x10));
}

#[test]
fn other_widths_are_refused() {
    let mut dram = Dram::new(vec![1, 2, 3, 4]);
    for width in [0u64, 1, 7, 9, 24, 63, 65, 128, u64::MAX] {
        assert_eq!(dram.load(DRAM_BASE, width), Err(AccessError::IllegalWidth));
        assert_eq!(dram.store(DRAM_BASE, width, 0xff), Err(AccessError::IllegalWidth));
    }
    assert_eq!(dram.byte(0), Some(1));
}

#[test]
fn the_width_is_looked_at_before_the_range() {
    let dram = Dram::new(Vec::new());
    assert_eq!(dram.load(0, 12), Err(AccessError::IllegalWidth));
    assert_eq!(dram.load(0, 8), Err(AccessError::OutOfRange));
}

#[test]
fn accesses_outside_dram_are_refused() {
    let mut dram = Dram::new(Vec::new());
    let end = DRAM_BASE + DRAM_SIZE;
    assert_eq!(dram.load(DRAM_BASE - 1, 8), Err(AccessError::OutOfRange));
    assert_eq!(dram.load(end, 8), Err(AccessError::OutOfRange));
    assert_eq!(dram.load(end - 1, 8), Ok(0));
    assert_eq!(dram.load(end - 1, 16), Err(AccessError::OutOfRange));
    assert_eq!(dram.load(end - 4, 32), Ok(0));
    assert_eq!(dram.load(end - 3, 32), Err(AccessError::OutOfRange));
    assert_eq!(dram.load(end - 8, 64), Ok(0));
    assert_eq!(dram.load(end - 7, 64), Err(AccessError::OutOfRange));
    assert_eq!(dram.load(u64::MAX, 64), Err(AccessError::OutOfRange));
    assert_eq!(dram.store(end - 7, 64, 1), Err(AccessError::OutOfRange));
    assert_eq!(dram.store(end - 8, 64, 0x0102_0304_0506_0708), Ok(()));
    assert_eq!(dram.byte(DRAM_SIZE as usize - 1), Some(0x01));
    assert_eq!(dram.byte(DRAM_SIZE as usize - 8), Some(0x08));
}

#[test]
fn a_refused_store_changes_nothing() {
    let mut dram = Dram::new(Vec::new());
    let end = DRAM_BASE + DRAM_SIZE;
    assert_eq!(dram.store(end - 2, 32, 0xffff_ffff), Err(AccessError::OutOfRange));
    assert_eq!(dram.byte(DRAM_SIZE as usize - 2), Some(0));
    assert_eq!(dram.byte(DRAM_SIZE as usize - 1), Some(0));
}

#[test]
fn the_bus_forwards_to_dram_from_its_base_on() {
    let mut bus = Bus { dram: Dram::new(vec![0x34, 0x12]) };
    assert_eq!(bus.load(DRAM_BASE, 16), Ok(0x1234));
    assert_eq!(bus.store(DRAM_BASE + 4, 32, 0xdead_beef), Ok(()));
    assert_eq!(bus.load(DRAM_BASE + 4, 32), Ok(0xdead_beef));
    assert_eq!(bus.dram.byte(4), Some(0xef));
    assert_eq!(bus.load(DRAM_BASE, 5), Err(AccessError::IllegalWidth));
}

#[test]
fn the_bus_has_nothing_below_dram() {
    let mut bus = Bus { dram: Dram::new(Vec::new()) };
    assert_eq!(bus.load(0, 32), Err(AccessError::OutOfRange));
    assert_eq!(bus.load(DRAM_BASE - 1, 8), Err(AccessError::OutOfRange));
    assert_eq!(bus.load(DRAM_BASE - 1, 5), Err(AccessError::OutOfRange));
    assert_eq!(bus.store(DRAM_BASE - 4, 32, 1), Err(AccessError::OutOfRange));
    assert_eq!(bus.load(DRAM_BASE, 8), Ok(0));
}

#[test]
fn a_cloned_bus_holds_the_same_bytes() {
    let mut bus = Bus { dram: Dram::new(vec![9, 8, 7]) };
    let copy = bus.clone();
    bus.store(DRAM_BASE, 8, 1).unwrap();
    assert_eq!(copy.load(DRAM_BASE, 8), Ok(9));
    assert_eq!(bus.load(DRAM_BASE, 8), Ok(1));
}

#[test]
fn all_of_memory_can_be_read_at_once() {
    let mut dram = Dram::new(vec![1, 2, 3]);
    dram.store(DRAM_BASE + 0x10, 16, 0xabcd).unwrap();
    let bytes = dram.bytes();
    assert_eq!(bytes.len(), DRAM_SIZE as usize);
    assert_eq!(&bytes[..4], &[1, 2, 3, 0]);
    assert_eq!(&bytes[0x10..0x13], &[0xcd, 0xab, 0]);
}
