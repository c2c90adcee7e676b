use legacy_hash::{md5, MAC, MD5};

/// A message of `n` bytes that is not all one value.
fn pattern(n: usize) -> Vec<u8> {
    (0..n).map(|i| ((i * 7 + 3) % 256) as u8).collect()
}

#[test]
fn test() {
    assert_eq!(
        md5(vec![]),
        vec![
            0xd4, 0x1d, 0x8c, 0xd9, 0x8f, 0x00, 0xb2, 0x04, 0xe9, 0x80, 0x09, 0x98, 0xec, 0xf8,
            0x42, 0x7e
        ]
    );
    assert_eq!(
        md5(vec![b'a']),
        vec![
            0x0c, 0xc1, 0x75, 0xb9, 0xc0, 0xf1, 0xb6, 0xa8, 0x31, 0xc3, 0x99, 0xe2, 0x69, 0x77,
            0x26, 0x61
        ]
    );
    assert_eq!(
        md5(vec![b'a', b'b', b'c']),
        vec![
            0x90, 0x01, 0x50, 0x98, 0x3c, 0xd2, 0x4f, 0xb0, 0xd6, 0x96, 0x3f, 0x7d, 0x28, 0xe1,
            0x7f, 0x72
        ]
    );
    assert_eq!(
        md5(vec![
            b'm', b'e', b's', b's', b'a', b'g', b'e', b' ', b'd', b'i', b'g', b'e', b's', b't'
        ]),
        vec![
            0xf9, 0x6b, 0x69, 0x7d, 0x7c, 0xb7, 0x93, 0x8d, 0x52, 0x5a, 0x2f, 0x31, 0xaa, 0xf1,
            0x61, 0xd0
        ]
    );
    assert_eq!(
        md5(vec![
            b'a', b'b', b'c', b'd', b'e', b'f', b'g', b'h', b'i', b'j', b'k', b'l', b'm', b'n',
            b'o', b'p', b'q', b'r', b's', b't', b'u', b'v', b'w', b'x', b'y', b'z'
        ]),
        vec![
            0xc3, 0xfc, 0xd3, 0xd7, 0x61, 0x92, 0xe4, 0x00, 0x7d, 0xfb, 0x49, 0x6c, 0xca, 0x67,
            0xe1, 0x3b
        ]
    );
    assert_eq!(
        md5(vec![
            b'A', b'B', b'C', b'D', b'E', b'F', b'G', b'H', b'I', b'J', b'K', b'L', b'M', b'N',
            b'O', b'P', b'Q', b'R', b'S', b'T', b'U', b'V', b'W', b'X', b'Y', b'Z', b'a', b'b',
            b'c', b'd', b'e', b'f', b'g', b'h', b'i', b'j', b'k', b'l', b'm', b'n', b'o', b'p',
            b'q', b'r', b's', b't', b'u', b'v', b'w', b'x', b'y', b'z', b'0', b'1', b'2', b'3',
            b'4', b'5', b'6', b'7', b'8', b'9'
        ]),
        vec![
            0xd1, 0x74, 0xab, 0x98, 0xd2, 0x77, 0xd9, 0xf5, 0xa5, 0x61, 0x1c, 0x2c, 0x9f, 0x41,
            0x9d, 0x9f
        ]
    );
    assert_eq!(
        md5(vec![
            b'1', b'2', b'3', b'4', b'5', b'6', b'7', b'8', b'9', b'0', b'1', b'2', b'3', b'4',
            b'5', b'6', b'7', b'8', b'9', b'0', b'1', b'2', b'3', b'4', b'5', b'6', b'7', b'8',
            b'9', b'0', b'1', b'2', b'3', b'4', b'5', b'6', b'7', b'8', b'9', b'0', b'1', b'2',
            b'3', b'4', b'5', b'6', b'7', b'8', b'9', b'0', b'1', b'2', b'3', b'4', b'5', b'6',
            b'7', b'8', b'9', b'0', b'1', b'2', b'3', b'4', b'5', b'6', b'7', b'8', b'9', b'0',
            b'1', b'2', b'3', b'4', b'5', b'6', b'7', b'8', b'9', b'0'
        ]),
        vec![
            0x57, 0xed, 0xf4, 0xa2, 0x2b, 0xe3, 0xc9, 0x55, 0xac, 0x49, 0xda, 0x2e, 0x21, 0x07,
            0xb6, 0x7a
        ]
    );
}

#[test]
fn md5_known_answers() {
    assert_eq!(
        md5(b"".to_vec()),
        vec![0xd4, 0x1d, 0x8c, 0xd9, 0x8f, 0x00, 0xb2, 0x04, 0xe9, 0x80, 0x09, 0x98, 0xec, 0xf8, 0x42, 0x7e]
    );
    assert_eq!(
        md5(b"abc".to_vec()),
        vec![0x90, 0x01, 0x50, 0x98, 0x3c, 0xd2, 0x4f, 0xb0, 0xd6, 0x96, 0x3f, 0x7d, 0x28, 0xe1, 0x7f, 0x72]
    );
    assert_eq!(
        md5(b"abcdefghijklmnopqrstuvwxyz".to_vec()),
        vec![0xc3, 0xfc, 0xd3, 0xd7, 0x61, 0x92, 0xe4, 0x00, 0x7d, 0xfb, 0x49, 0x6c, 0xca, 0x67, 0xe1, 0x3b]
    );
}

#[test]
fn md5_block_boundaries() {
    assert_eq!(md5(pattern(55)), vec![0x52, 0xc0, 0xe5, 0x74, 0xe1, 0x19, 0x8d, 0xe5, 0xfe, 0x3f, 0x8f, 0x11, 0x44, 0x0d, 0xcb, 0x1b]);
    assert_eq!(md5(pattern(56)), vec![0x46, 0xc9, 0x90, 0x7f, 0xc9, 0x08, 0xee, 0x68, 0xb1, 0xe7, 0xb8, 0xe7, 0x12, 0x86, 0xa5, 0x18]);
    assert_eq!(md5(pattern(63)), vec![0xa6, 0x2f, 0x6d, 0x59, 0xe8, 0x37, 0x86, 0x76, 0x93, 0xf0, 0x42, 0xf5, 0xb8, 0xf5, 0xa2, 0x36]);
    assert_eq!(md5(pattern(64)), vec![0x71, 0x60, 0xb8, 0xfb, 0x5e, 0x9e, 0x40, 0x23, 0xd5, 0x49, 0xc3, 0x97, 0x1f, 0xba, 0xee, 0xad]);
    assert_eq!(md5(pattern(65)), vec![0x70, 0xbd, 0x66, 0x2e, 0x7a, 0xef, 0xbd, 0xa8, 0x5a, 0x0f, 0x72, 0x44, 0x16, 0x7b, 0x78, 0x97]);
    assert_eq!(md5(pattern(119)), vec![0xe8, 0x49, 0x05, 0xd4, 0x21, 0x4f, 0x4d, 0x1c, 0xa5, 0x6c, 0x2c, 0xdc, 0xc1, 0x52, 0xb1, 0x43]);
    assert_eq!(md5(pattern(120)), vec![0xe3, 0xeb, 0x5a, 0x6c, 0x86, 0x69, 0xea, 0x01, 0xa8, 0xc1, 0x85, 0xb8, 0xab, 0xc8, 0xa5, 0xdc]);
    assert_eq!(md5(pattern(128)), vec![0x10, 0xb2, 0xda, 0x1a, 0x82, 0xf1, 0x6d, 0x99, 0xa8, 0x1a, 0x72, 0x03, 0xfe, 0x9f, 0x02, 0xcb]);
    assert_eq!(md5(pattern(200)), vec![0x4c, 0x79, 0xb8, 0x1a, 0xc9, 0x4b, 0xad, 0x7a, 0x87, 0x55, 0x19, 0xce, 0x6b, 0x96, 0x4c, 0x66]);
}

#[test]
fn md5_digest_is_sixteen_bytes() {
    for n in [0usize, 1, 55, 56, 63, 64, 65, 127, 128, 1000] {
        assert_eq!(md5(pattern(n)).len(), 16);
    }
}

#[test]
fn md5_is_deterministic() {
    for n in [0usize, 3, 64, 200] {
        assert_eq!(md5(pattern(n)), md5(pattern(n)));
    }
}

#[test]
fn md5_single_bit_flip_changes_digest() {
    assert_eq!(
        md5(b"abb".to_vec()),
        vec![0xea, 0x01, 0xe5, 0xfd, 0x8e, 0x4d, 0x88, 0x32, 0x82, 0x5a, 0xcd, 0xd2, 0x0e, 0xac, 0x51, 0x04]
    );
    for n in [1usize, 55, 64, 130] {
        let m = pattern(n);
        for bit in [0usize, 7, 8 * n - 1] {
            let mut flipped = m.clone();
            flipped[bit / 8] ^= 1 << (bit % 8);
            assert_ne!(md5(m.clone()), md5(flipped));
        }
    }
}

#[test]
fn md5_through_mac() {
    assert_eq!(MD5::hash(b"abc".to_vec()), md5(b"abc".to_vec()));
    assert_eq!(MD5::BLOCK_SIZE, 512);
    assert_eq!(MD5::DIGEST_SIZE, 128);
    assert_eq!(MD5::WORD_SIZE, 32);
    assert_eq!(MD5::MAX_SIZE, 0);
}
