use legacy_hash::padding::{padding_v1, padding_v2};

fn be_value(s: &[u8]) -> u128 {
    s.iter().fold(0u128, |acc, &b| acc * 256 + b as u128)
}

/// Asserts the layout of a padded buffer: prefix, marker, zeros, length field.
fn assert_padded(m: &[u8], p: &[u8], block: usize, field: usize) {
    assert_eq!(p.len() % block, 0);
    assert_eq!(p.len(), block * ((m.len() + field) / block + 1));
    assert_eq!(&p[..m.len()], m);
    assert_eq!(p[m.len()], 0x80);
    assert!(p[m.len() + 1..p.len() - field].iter().all(|&b| b == 0));
    assert_eq!(be_value(&p[p.len() - field..]), (m.len() * 8) as u128);
}

#[test]
fn padding_v1_block_boundaries() {
    for n in [0usize, 1, 3, 55, 56, 63, 64, 65, 119, 120, 128, 200] {
        let m: Vec<u8> = (0..n).map(|i| (i % 251) as u8 + 1).collect();
        let mut p = m.clone();
        assert_eq!(padding_v1(&mut p), Ok(()));
        assert_padded(&m, &p, 64, 8);
    }
}

#[test]
fn padding_v1_lengths() {
    let mut p = vec![0x61u8; 55];
    assert_eq!(padding_v1(&mut p), Ok(()));
    assert_eq!(p.len(), 64);
    assert_eq!(&p[56..], &[0, 0, 0, 0, 0, 0, 0x01, 0xb8]);

    let mut p = vec![0x61u8; 56];
    assert_eq!(padding_v1(&mut p), Ok(()));
    assert_eq!(p.len(), 128);

    let mut p = Vec::new();
    assert_eq!(padding_v1(&mut p), Ok(()));
    assert_eq!(p, [vec![0x80], vec![0; 63]].concat());
}

#[test]
fn padding_v2_block_boundaries() {
    for n in [0usize, 1, 111, 112, 127, 128, 129, 239, 240, 300] {
        let m: Vec<u8> = (0..n).map(|i| (i % 251) as u8 + 1).collect();
        let mut p = m.clone();
        assert_eq!(padding_v2(&mut p), Ok(()));
        assert_padded(&m, &p, 128, 16);
    }
}

#[test]
fn padding_v2_lengths() {
    let mut p = vec![0x61u8; 111];
    assert_eq!(padding_v2(&mut p), Ok(()));
    assert_eq!(p.len(), 128);
    assert_eq!(&p[126..], &[0x03, 0x78]);

    let mut p = vec![0x61u8; 112];
    assert_eq!(padding_v2(&mut p), Ok(()));
    assert_eq!(p.len(), 256);
}
