use qr_encoder::bch::{ecc_format_u16, ecc_format_u32, ECC_FORMAT_MASK, GEN_POLY_FORMAT, GEN_POLY_VERSION};
use qr_encoder::cell::{Cell, CellType};
use qr_encoder::config::{ECLevel, QRConfig, QrError};
use qr_encoder::qr::QR;

fn hello_data_codewords() -> Vec<u8> {
    vec![0x40, 0x54, 0x84, 0x54, 0xC4, 0xC4, 0xF0, 0xEC, 0x11, 0xEC, 0x11, 0xEC, 0x11, 0xEC, 0x11, 0xEC]
}

fn count(body: &[Cell], kind: CellType) -> usize {
    body.iter().filter(|c| c.module_type == kind).count()
}

#[test]
fn hello_codeword_stream() {
    let mut config = QRConfig::new(1, ECLevel::Medium, b"HELLO".to_vec());
    assert_eq!(config.translate_data(), Ok(()));
    assert_eq!(config.codewords, hello_data_codewords());
    assert_eq!(config.codewords.len(), 16);
}

#[test]
fn hello_error_correction() {
    let mut config = QRConfig::new(1, ECLevel::Medium, b"HELLO".to_vec());
    config.translate_data().unwrap();
    config.encode_error_correction_codewords();
    let mut expected = hello_data_codewords();
    expected.extend_from_slice(&[35, 115, 35, 153, 236, 8, 201, 247, 55, 223]);
    assert_eq!(config.codewords, expected);
    assert_eq!(config.codewords.len(), 26);
}

#[test]
fn hello_placement_fills_the_grid() {
    let mut config = QRConfig::new(1, ECLevel::Medium, b"HELLO".to_vec());
    assert_eq!(config.get_remainder_bit_length(), 0);
    config.translate_data().unwrap();
    config.encode_error_correction_codewords();
    let mut canvas = QR { body: config.create_body() };
    canvas.setup(&config);
    assert_eq!(count(&canvas.body, CellType::Unassigned), 208);
    let track = config.process_data(&mut canvas).ok().unwrap();
    assert_eq!(count(&canvas.body, CellType::Message), 26 * 8);
    assert_eq!(count(&canvas.body, CellType::Unassigned), 0);
    assert_eq!(track.0.len(), track.2.len());
    assert_eq!(track.1.len(), track.2.len());
    assert_eq!(track.2[0], 440);
    assert_eq!(track.2[1], 439);
    assert_eq!(track.2[2], 419);
    assert_eq!(track.0[0], 7);
    assert_eq!(track.0[1], 6);
    assert_eq!(track.1[0], 0);
    assert_eq!(*track.1.last().unwrap(), 25);
    assert_eq!(*track.0.last().unwrap(), 0);
}

#[test]
fn hello_symbol() {
    let mut config = QRConfig::new(1, ECLevel::Medium, b"HELLO".to_vec());
    let (qr, _) = config.gen_qr_code().ok().unwrap();
    assert_eq!(qr.body.len(), 441);
    assert_eq!(count(&qr.body, CellType::Unassigned), 0);
    assert_eq!(count(&qr.body, CellType::Format), 30);
    assert_eq!(count(&qr.body, CellType::Finder), 147);
    assert_eq!(count(&qr.body, CellType::DarkModule), 1);
    assert!(qr.body[13 * 21 + 8].is_black());
}

#[test]
fn version_seven_leaves_no_free_module() {
    let mut config = QRConfig::new(7, ECLevel::Medium, b"Hello, World!".to_vec());
    let (qr, _) = config.gen_qr_code().ok().unwrap();
    assert_eq!(count(&qr.body, CellType::Unassigned), 0);
    assert_eq!(count(&qr.body, CellType::VersionInformation), 36);
    assert_eq!(count(&qr.body, CellType::Message), 196 * 8);
}

#[test]
fn every_version_and_level_encodes() {
    let levels = [ECLevel::Low, ECLevel::Medium, ECLevel::Q, ECLevel::High];
    for version in 1..=40usize {
        for level in levels.iter() {
            let mut config = QRConfig::new(version, *level, b"0123456".to_vec());
            let total = config.codeword_properties.capacity;
            let result = config.gen_qr_code();
            assert!(result.is_ok(), "version {} level {:?}", version, level);
            assert_eq!(config.codewords.len(), total);
            let (qr, _) = result.ok().unwrap();
            let size = 4 * (version - 1) + 21;
            assert_eq!(qr.body.len(), size * size);
            let free = count(&qr.body, CellType::Unassigned);
            if (21..=27).contains(&version) {
                assert_eq!(free, 4);
            } else {
                assert_eq!(free, 0);
            }
        }
    }
}

#[test]
fn message_too_large_is_refused() {
    let mut config = QRConfig::new(1, ECLevel::High, vec![b'a'; 8]);
    assert_eq!(config.verify_version(), Err(QrError::MessageTooLarge));
    assert!(matches!(config.gen_qr_code(), Err(QrError::MessageTooLarge)));
    let mut fits = QRConfig::new(1, ECLevel::High, vec![b'a'; 7]);
    assert_eq!(fits.verify_version(), Ok(()));
    assert!(fits.gen_qr_code().is_ok());
    let mut long = QRConfig::new(10, ECLevel::Low, vec![b'a'; 272]);
    assert_eq!(long.translate_data(), Err(QrError::MessageTooLarge));
    let mut longest = QRConfig::new(10, ECLevel::Low, vec![b'a'; 271]);
    assert_eq!(longest.translate_data(), Ok(()));
    assert_eq!(longest.codewords.len(), 274);
}

#[test]
fn long_length_field_from_version_ten() {
    let mut config = QRConfig::new(10, ECLevel::Medium, b"AB".to_vec());
    config.translate_data().unwrap();
    assert_eq!(&config.codewords[..6], &[0x40, 0x00, 0x24, 0x14, 0x20, 0xEC]);
    let mut nine = QRConfig::new(9, ECLevel::Medium, b"AB".to_vec());
    nine.translate_data().unwrap();
    assert_eq!(&nine.codewords[..5], &[0x40, 0x24, 0x14, 0x20, 0xEC]);
}

#[test]
fn format_string_low_mask_zero() {
    assert_eq!(ecc_format_u16(0b01000, GEN_POLY_FORMAT, ECC_FORMAT_MASK), 0b111011111000100);
    assert_eq!(ecc_format_u16(0b00000, GEN_POLY_FORMAT, ECC_FORMAT_MASK), 0b101010000010010);
    assert_eq!(ecc_format_u16(0b11111, GEN_POLY_FORMAT, ECC_FORMAT_MASK), 0b010101111101101);
}

#[test]
fn version_strings() {
    assert_eq!(ecc_format_u32(7, GEN_POLY_VERSION), 0b000111110010010100);
    assert_eq!(ecc_format_u32(8, GEN_POLY_VERSION), 0b001000010110111100);
    assert_eq!(ecc_format_u32(33, GEN_POLY_VERSION), 0b100001011011110000);
    assert_eq!(ecc_format_u32(40, GEN_POLY_VERSION), 0b101000110001101001);
}

#[test]
fn format_bits_are_written() {
    let config = QRConfig::new(1, ECLevel::Low, b"A".to_vec());
    let mut body = config.create_body();
    let mut canvas = QR { body: body.clone() };
    canvas.setup(&config);
    body = canvas.body;
    config.encode_format_areas(&mut body, 0);
    let expected: u16 = 0b111011111000100;
    let first = [(8, 0), (8, 1), (8, 2), (8, 3), (8, 4), (8, 5), (8, 7), (8, 8), (7, 8), (5, 8), (4, 8), (3, 8), (2, 8), (1, 8), (0, 8)];
    for (k, (r, c)) in first.iter().enumerate() {
        let bit = (expected >> (14 - k)) & 1 == 1;
        assert_eq!(body[r * 21 + c].is_black(), bit, "module ({}, {})", r, c);
    }
    let second = [(20, 8), (19, 8), (18, 8), (17, 8), (16, 8), (15, 8), (14, 8), (8, 13), (8, 14), (8, 15), (8, 16), (8, 17), (8, 18), (8, 19), (8, 20)];
    for (k, (r, c)) in second.iter().enumerate() {
        let bit = (expected >> (14 - k)) & 1 == 1;
        assert_eq!(body[r * 21 + c].is_black(), bit, "module ({}, {})", r, c);
    }
}

#[test]
fn mask_choice_is_deterministic() {
    let mut config = QRConfig::new(3, ECLevel::Q, b"determinism".to_vec());
    config.translate_data().unwrap();
    config.encode_error_correction_codewords();
    let mut canvas = QR { body: config.create_body() };
    canvas.setup(&config);
    config.process_data(&mut canvas).ok().unwrap();
    let mut a = QR { body: canvas.body.clone() };
    let mut b = QR { body: canvas.body.clone() };
    let ma = config.post_process_data(&mut a);
    let mb = config.post_process_data(&mut b);
    assert_eq!(ma, mb);
    assert!(ma < 8);
    assert_eq!(a.body, b.body);
    let mut best = usize::MAX;
    let mut best_index = 0;
    for n in 0..8 {
        let mut copy = canvas.body.clone();
        config.apply_mask_pattern(&mut copy, n);
        let score = config.eval_penalty_scores(&copy);
        if score < best {
            best = score;
            best_index = n;
        }
    }
    assert_eq!(ma, best_index);
}

#[test]
fn empty_message_is_padded() {
    let mut config = QRConfig::new(1, ECLevel::Low, vec![]);
    config.translate_data().unwrap();
    assert_eq!(config.codewords.len(), 19);
    assert_eq!(&config.codewords[..4], &[0x40, 0x00, 0xEC, 0x11]);
    assert!(config.gen_qr_code().is_ok());
}

#[test]
fn placement_without_room_reports_a_mismatch() {
    let mut config = QRConfig::new(1, ECLevel::Medium, b"HELLO".to_vec());
    config.translate_data().unwrap();
    config.encode_error_correction_codewords();
    let mut body = config.create_body();
    for cell in body.iter_mut().take(300) {
        cell.module_type = CellType::Finder;
    }
    let mut canvas = QR { body };
    assert!(matches!(config.process_data(&mut canvas), Err(QrError::LayoutMismatch)));
    // 141 free modules, of which the seven in column 6 lie off the walk
    assert_eq!(count(&canvas.body, CellType::Message), 134);
}
