use naitou_shogi::bitop::{
    blsr_u16, blsr_u32, blsr_u64, blsr_u8, iter_ones_u32, lsb_u16, lsb_u32, lsb_u64, lsb_u8,
    pop_lsb_u16, pop_lsb_u32, pop_lsb_u64, pop_lsb_u8,
};

#[test]
fn test_iter_ones_u32() {
    assert_eq!(iter_ones_u32(0), Vec::<u32>::new());
    assert_eq!(iter_ones_u32(1 << 31), vec![31]);
    assert_eq!(iter_ones_u32(0b10100110), vec![1, 2, 5, 7]);
}

#[test]
fn test_lsb_and_blsr() {
    assert_eq!(lsb_u8(0b1010_0000), 5);
    assert_eq!(blsr_u8(0b1010_0000), 0b1000_0000);
    assert_eq!(lsb_u16(0x8000), 15);
    assert_eq!(blsr_u16(0x8001), 0x8000);
    assert_eq!(lsb_u32(12), 2);
    assert_eq!(blsr_u32(12), 8);
    assert_eq!(lsb_u64(1 << 40), 40);
    assert_eq!(blsr_u64((1 << 40) | 1), 1 << 40);
}

#[test]
fn test_pop_lsb() {
    let mut a: u8 = 0b0110;
    assert_eq!(pop_lsb_u8(&mut a), 1);
    assert_eq!(a, 0b0100);
    let mut b: u16 = 0x0300;
    assert_eq!(pop_lsb_u16(&mut b), 8);
    assert_eq!(b, 0x0200);
    let mut c: u32 = 0x8000_0001;
    assert_eq!(pop_lsb_u32(&mut c), 0);
    assert_eq!(c, 0x8000_0000);
    let mut d: u64 = 1 << 63;
    assert_eq!(pop_lsb_u64(&mut d), 63);
    assert_eq!(d, 0);
}
