use a52::sync::a52_syncinfo;
use a52::{A52_DOLBY, A52_LFE};

fn sync_buf(byte4: u8, byte5: u8, byte6: u8) -> Vec<u8> {
    vec![0x0b, 0x77, 0x00, 0x00, byte4, byte5, byte6]
}

const RATE: [i32; 19] = [
    32, 40, 48, 56, 64, 80, 96, 112, 128, 160, 192, 224, 256, 320, 384, 448, 512, 576, 640,
];

#[test]
fn it_works() {
    assert_eq!(2 + 2, 4);
}

#[test]
fn frame_lengths_48k_family() {
    for i in 0..19u8 {
        for parity in 0..2u8 {
            let buf = sync_buf(2 * i + parity, 0x00, 0x00);
            let si = a52_syncinfo(&buf).unwrap();
            assert_eq!(si.frame_length, 4 * RATE[i as usize]);
            assert_eq!(si.sample_rate, 48000);
            assert_eq!(si.bit_rate, RATE[i as usize] * 1000);
        }
    }
}

#[test]
fn frame_lengths_44k_family() {
    const LEN44: [i32; 19] = [
        138, 174, 208, 242, 278, 348, 416, 486, 556, 696, 834, 974, 1114, 1392, 1670, 1950, 2228,
        2506, 2786,
    ];
    for i in 0..19u8 {
        let even = a52_syncinfo(&sync_buf(0x40 | (2 * i), 0x00, 0x00)).unwrap();
        assert_eq!(even.frame_length, LEN44[i as usize]);
        assert_eq!(even.sample_rate, 44100);
        let odd = a52_syncinfo(&sync_buf(0x40 | (2 * i + 1), 0x00, 0x00)).unwrap();
        assert_eq!(odd.frame_length, LEN44[i as usize] + 2);
    }
}

#[test]
fn frame_lengths_32k_family() {
    for i in 0..19u8 {
        let si = a52_syncinfo(&sync_buf(0x80 | (2 * i), 0x00, 0x00)).unwrap();
        assert_eq!(si.frame_length, 6 * RATE[i as usize]);
        assert_eq!(si.sample_rate, 32000);
    }
}

#[test]
fn half_rate_halving() {
    // rate codes 0x48, 0x50, 0x58 select half-rate exponents 1, 2 and 3
    let one = a52_syncinfo(&sync_buf(28, 0x48, 0x00)).unwrap();
    assert_eq!(one.sample_rate, 24000);
    assert_eq!(one.bit_rate, 384 * 1000 / 2);
    let two = a52_syncinfo(&sync_buf(28, 0x50, 0x00)).unwrap();
    assert_eq!(two.sample_rate, 12000);
    assert_eq!(two.bit_rate, 384 * 1000 / 4);
    let three = a52_syncinfo(&sync_buf(0x40 | 28, 0x58, 0x00)).unwrap();
    assert_eq!(three.sample_rate, 5512);
    assert_eq!(three.bit_rate, 384 * 1000 / 8);
    // frame length does not depend on the half-rate exponent
    assert_eq!(one.frame_length, 4 * 384);
}

#[test]
fn rejects_bad_sync_word() {
    assert!(a52_syncinfo(&[0x0b, 0x78, 0, 0, 0, 0, 0]).is_none());
    assert!(a52_syncinfo(&[0x0c, 0x77, 0, 0, 0, 0, 0]).is_none());
    assert!(a52_syncinfo(&[0, 0, 0, 0, 0, 0, 0]).is_none());
}

#[test]
fn rejects_reserved_size_codes() {
    for code in 38..64u8 {
        for family in [0x00u8, 0x40, 0x80] {
            assert!(a52_syncinfo(&sync_buf(family | code, 0x00, 0x00)).is_none());
        }
    }
}

#[test]
fn rejects_reserved_rate_codes() {
    for byte5 in 0x60..=0xffu16 {
        assert!(a52_syncinfo(&sync_buf(0, byte5 as u8, 0x00)).is_none());
    }
    // the largest accepted rate code still parses
    assert!(a52_syncinfo(&sync_buf(0, 0x5f, 0x00)).is_some());
}

#[test]
fn rejects_reserved_sample_rate_family() {
    assert!(a52_syncinfo(&sync_buf(0xc0, 0x00, 0x00)).is_none());
}

#[test]
fn flags_for_every_channel_mode() {
    const LFE_MASK: [u8; 8] = [0x10, 0x10, 0x04, 0x04, 0x04, 0x01, 0x04, 0x01];
    for acmod in 0..8u8 {
        let plain = a52_syncinfo(&sync_buf(0, 0, acmod << 5)).unwrap();
        if acmod == 2 {
            // a bare stereo mode: no surround bits, no override
            assert_eq!(plain.flags, 2);
        } else {
            assert_eq!(plain.flags, acmod as i32);
        }
        let with_lfe = a52_syncinfo(&sync_buf(0, 0, (acmod << 5) | LFE_MASK[acmod as usize]))
            .unwrap();
        if acmod == 2 {
            assert_eq!(with_lfe.flags, 2 | A52_LFE);
        } else {
            assert_eq!(with_lfe.flags, acmod as i32 | A52_LFE);
        }
    }
}

#[test]
fn dolby_surround_override() {
    // channel mode 2 with the full-surround pattern becomes the pseudo-mode
    let dolby = a52_syncinfo(&sync_buf(0, 0, 0x50)).unwrap();
    assert_eq!(dolby.flags, A52_DOLBY);
    let dolby_lfe = a52_syncinfo(&sync_buf(0, 0, 0x54)).unwrap();
    assert_eq!(dolby_lfe.flags, A52_DOLBY | A52_LFE);
    // the other surround-mode values keep plain stereo
    let plain = a52_syncinfo(&sync_buf(0, 0, 0x48)).unwrap();
    assert_eq!(plain.flags, 2);
}
