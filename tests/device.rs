use rtc_pl031::mem::MemoryRegion;
use rtc_pl031::pl031::{RTCDR, WINDOW_LENGTH};
use rtc_pl031::{fix_up, Pl031, RelocationError};

#[test]
fn new_device_reads_at_its_base() {
    let rtc = Pl031::new(0x0901_0000);
    assert_eq!(rtc.timestamp_address(), 0x0901_0000 + RTCDR);
    assert_eq!(rtc.region().as_address_range(), (0x0901_0000, WINDOW_LENGTH));
    assert_eq!(WINDOW_LENGTH, 0x1000);
}

#[test]
fn relocation_moves_the_register() {
    let mut rtc = Pl031::new(0x0901_0000);
    rtc.apply_relocation(0xffff_0000_0901_0000);
    assert_eq!(rtc.timestamp_address(), 0xffff_0000_0901_0000);
    assert_eq!(rtc.region().length(), 0x1000);
}

#[test]
fn fix_up_installs_translated_base() {
    let mut rtc = Pl031::new(0x0901_0000);
    assert_eq!(fix_up(&mut rtc, Some(0x4000_0000)), Ok(()));
    assert_eq!(rtc.timestamp_address(), 0x4000_0000);
    assert_eq!(rtc.region().as_address_range(), (0x4000_0000, 0x1000));
}

#[test]
fn fix_up_without_mapping_leaves_device_alone() {
    let mut rtc = Pl031::new(0x0901_0000);
    assert_eq!(fix_up(&mut rtc, None), Err(RelocationError));
    assert_eq!(rtc.timestamp_address(), 0x0901_0000);
    assert_eq!(rtc.region().as_address_range(), (0x0901_0000, 0x1000));
}

#[test]
fn fix_up_twice_moves_twice() {
    let mut rtc = Pl031::new(0x0901_0000);
    assert_eq!(fix_up(&mut rtc, Some(0x5000)), Ok(()));
    assert_eq!(fix_up(&mut rtc, Some(0x9000)), Ok(()));
    assert_eq!(rtc.timestamp_address(), 0x9000);
}

#[test]
fn region_keeps_length_when_moved() {
    let mut region = MemoryRegion::new(0x1000, 0x20);
    assert_eq!(region.register_address(0x1c), 0x101c);
    region.set_base(0x8000);
    assert_eq!(region.base(), 0x8000);
    assert_eq!(region.length(), 0x20);
    assert_eq!(region.register_address(4), 0x8004);
}
