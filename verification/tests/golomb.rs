use less_avc::bitbuf::BitBuf;
use less_avc::golomb::{bv_exp_golomb, bv_signed_exp_golomb, num_bits};

/// The bits of a buffer, read back out of its bytes.
fn bits_of(bv: BitBuf) -> Vec<bool> {
    let n = bv.len();
    let bytes = bv.into_vec();
    assert_eq!(bytes.len(), (n + 7) / 8);
    let mut result = vec![];
    for i in 0..n {
        result.push(bytes[i / 8] & (0x80u8 >> (i % 8)) != 0);
    }
    for i in n..bytes.len() * 8 {
        assert_eq!(bytes[i / 8] & (0x80u8 >> (i % 8)), 0);
    }
    result
}

fn exp_golomb(x: u32) -> Vec<bool> {
    let mut bv = BitBuf::new();
    bv_exp_golomb(&mut bv, x);
    bits_of(bv)
}

fn signed_exp_golomb(x: i32) -> Vec<bool> {
    let mut bv = BitBuf::new();
    bv_signed_exp_golomb(&mut bv, x);
    bits_of(bv)
}

/// Reads one unsigned code from the front of `bits`: the number and the bits
/// it took.
fn read_ue(bits: &[bool]) -> Option<(u64, usize)> {
    let zeros = bits.iter().take_while(|b| !**b).count();
    if bits.len() < 2 * zeros + 1 {
        return None;
    }
    let mut value: u64 = 0;
    for b in &bits[zeros..2 * zeros + 1] {
        value = value * 2 + (*b as u64);
    }
    Some((value - 1, 2 * zeros + 1))
}

fn read_se(bits: &[bool]) -> Option<(i64, usize)> {
    let (code, used) = read_ue(bits)?;
    let value = if code % 2 == 1 {
        ((code + 1) / 2) as i64
    } else {
        -((code / 2) as i64)
    };
    Some((value, used))
}

#[test]
fn test_num_bits() {
    for x in 0..100000 {
        let nbits1 = format!("{:b}", x).len();
        let nbits2 = num_bits(x);
        assert_eq!(nbits1, nbits2 as usize);
    }
}

#[test]
fn test_num_bits_edges() {
    assert_eq!(num_bits(0), 1);
    assert_eq!(num_bits(1), 1);
    assert_eq!(num_bits(2), 2);
    assert_eq!(num_bits(0x7FFF_FFFF), 31);
    assert_eq!(num_bits(0x8000_0000), 32);
    assert_eq!(num_bits(u32::MAX), 32);
}

#[test]
fn test_exp_goloumb() {
    // tests from https://en.wikipedia.org/wiki/Exponential-Golomb_coding
    assert_eq!(exp_golomb(0), vec![true]);
    assert_eq!(exp_golomb(1), vec![false, true, false]);
    assert_eq!(exp_golomb(2), vec![false, true, true]);
    assert_eq!(exp_golomb(3), vec![false, false, true, false, false]);
    assert_eq!(exp_golomb(4), vec![false, false, true, false, true]);
    assert_eq!(exp_golomb(5), vec![false, false, true, true, false]);
    assert_eq!(exp_golomb(6), vec![false, false, true, true, true]);
    assert_eq!(
        exp_golomb(7),
        vec![false, false, false, true, false, false, false]
    );
    assert_eq!(
        exp_golomb(8),
        vec![false, false, false, true, false, false, true]
    );
}

#[test]
fn test_signed_exp_goloumb() {
    // tests from https://en.wikipedia.org/wiki/Exponential-Golomb_coding
    assert_eq!(signed_exp_golomb(0), vec![true]);
    assert_eq!(signed_exp_golomb(1), vec![false, true, false]);
    assert_eq!(signed_exp_golomb(-1), vec![false, true, true]);
    assert_eq!(signed_exp_golomb(2), vec![false, false, true, false, false]);
    assert_eq!(signed_exp_golomb(-2), vec![false, false, true, false, true]);
    assert_eq!(signed_exp_golomb(3), vec![false, false, true, true, false]);
    assert_eq!(signed_exp_golomb(-3), vec![false, false, true, true, true]);
    assert_eq!(
        signed_exp_golomb(4),
        vec![false, false, false, true, false, false, false]
    );
    assert_eq!(
        signed_exp_golomb(-4),
        vec![false, false, false, true, false, false, true]
    );
}

#[test]
fn test_exp_golomb_round_trip() {
    let mut values: Vec<u32> = (0..5000).collect();
    for shift in 0..21 {
        let p = 1u32 << shift;
        values.extend([p - 1, p, p + 1]);
    }
    values.extend([u32::MAX - 1, u32::MAX]);
    for v in values {
        let bits = exp_golomb(v);
        let floor_log2 = 63 - (v as u64 + 1).leading_zeros() as usize;
        assert_eq!(bits.len(), 2 * floor_log2 + 1);
        assert_eq!(read_ue(&bits), Some((v as u64, bits.len())));
    }
}

#[test]
fn test_signed_exp_golomb_round_trip() {
    let mut values: Vec<i32> = (-3000..3000).collect();
    values.extend([-(1 << 19), (1 << 19), -(1 << 19) + 1, (1 << 19) - 1]);
    values.extend([i32::MIN, i32::MIN + 1, i32::MAX - 1, i32::MAX]);
    for v in values {
        let bits = signed_exp_golomb(v);
        assert_eq!(read_se(&bits), Some((v as i64, bits.len())));
    }
}

#[test]
fn test_exp_golomb_appends() {
    let mut bv = BitBuf::new();
    bv.extend_exp_golomb(3);
    bv.extend_signed_exp_golomb(-2);
    bv.extend_exp_golomb(0);
    assert_eq!(bv.len(), 11);
    // 00100 00101 1, then five zero bits
    assert_eq!(bv.into_vec(), vec![0b0010_0001, 0b0110_0000]);
}

#[test]
fn test_empty_buffer() {
    let bv = BitBuf::new();
    assert_eq!(bv.len(), 0);
    assert_eq!(bv.into_vec(), Vec::<u8>::new());
}
