use qr_encoder::capacity::{
    codeword_info, get_index_value, get_indices_for_dimensions, get_pixel_points, set_color, square_count,
    BlockContent, CodeWord,
};
use qr_encoder::cell::{Cell, CellType, Color, Point};
use qr_encoder::config::{ECLevel, QRConfig};
use qr_encoder::placement::zig_zag_points;

#[test]
fn square_count_of_versions() {
    assert_eq!(square_count(1), 21);
    assert_eq!(square_count(7), 45);
    assert_eq!(square_count(40), 177);
}

#[test]
fn codeword_table_entries() {
    assert_eq!(codeword_info(1, &ECLevel::Medium), CodeWord { ecc_codeword_count: 10, block_count: 1, capacity: 26 });
    assert_eq!(codeword_info(5, &ECLevel::Q), CodeWord { ecc_codeword_count: 72, block_count: 4, capacity: 134 });
    assert_eq!(codeword_info(40, &ECLevel::High), CodeWord { ecc_codeword_count: 2430, block_count: 81, capacity: 3706 });
    assert_eq!(codeword_info(1, &ECLevel::Medium).get_data_codeword_length(), 16);
    let config = QRConfig::new(5, ECLevel::Q, vec![]);
    assert_eq!(config.get_ecc_length(), 72);
}

#[test]
fn block_groups() {
    let cw = codeword_info(5, &ECLevel::Q);
    assert_eq!(cw.get_block_count_for_groups(), (2, 2));
    let (one, two) = cw.get_data_cw_total_for_groups();
    assert_eq!(one, BlockContent { blocks: 2, codewords_per_block: 15 });
    assert_eq!(two, BlockContent { blocks: 2, codewords_per_block: 16 });
    let single = codeword_info(1, &ECLevel::Low);
    let (one, two) = single.get_data_cw_total_for_groups();
    assert_eq!(one, BlockContent { blocks: 1, codewords_per_block: 19 });
    assert_eq!(two, BlockContent { blocks: 0, codewords_per_block: 0 });
}

#[test]
fn interleaved_length_is_capacity() {
    let mut config = QRConfig::new(5, ECLevel::Q, b"group test".to_vec());
    config.translate_data().unwrap();
    let data = config.codewords.clone();
    config.encode_error_correction_codewords();
    assert_eq!(config.codewords.len(), 134);
    // first round: codeword 0 of each of the four blocks (15, 15, 16, 16 long)
    assert_eq!(&config.codewords[..4], &[data[0], data[15], data[30], data[46]]);
    // the sixteenth codeword exists only in the two longer blocks
    assert_eq!(&config.codewords[60..62], &[data[45], data[61]]);
}

#[test]
fn neighbour_index() {
    assert_eq!(get_index_value(22, (1, -1), 21), Some(42));
    assert_eq!(get_index_value(0, (-1, 0), 21), None);
    assert_eq!(get_index_value(20, (0, 1), 21), None);
    assert_eq!(get_index_value(440, (0, 0), 21), Some(440));
}

#[test]
fn tints() {
    assert_eq!(set_color(0), Color { r: 255, g: 120, b: 16 });
    assert_eq!(set_color(6), Color { r: 255, g: 175, b: 16 });
    assert_eq!(set_color(7), Color { r: 0, g: 0, b: 0 });
    assert_eq!(set_color(9), Color { r: 255, g: 255, b: 0 });
}

#[test]
fn pixel_points_of_a_module() {
    let cell = Cell { module_type: CellType::Message, value: 1, point: Point(1, 2), color: Color { r: 0, g: 0, b: 0 } };
    let pixels = get_pixel_points(&cell);
    assert_eq!(pixels.len(), 400);
    assert_eq!(pixels[0], (120, 100, Color { r: 0, g: 0, b: 0 }));
    assert_eq!(pixels[21], (121, 101, Color { r: 0, g: 0, b: 0 }));
    assert_eq!(pixels[399], (139, 119, Color { r: 0, g: 0, b: 0 }));
}

#[test]
fn version_block_indices() {
    let upper = get_indices_for_dimensions(34, 1, 45);
    assert_eq!(upper.len(), 18);
    assert_eq!(&upper[..4], &[34, 35, 36, 79]);
    let lower = get_indices_for_dimensions(34 * 45, 45, 1);
    assert_eq!(&lower[..4], &[1530, 1575, 1620, 1531]);
}

#[test]
fn content_length_field() {
    let mut config = QRConfig::new(1, ECLevel::Low, vec![]);
    assert_eq!(config.get_content_length(), 8);
    config.encoding = 1;
    assert_eq!(config.get_content_length(), 10);
    let mut ten = QRConfig::new(10, ECLevel::Low, vec![]);
    assert_eq!(ten.get_content_length(), 16);
    ten.encoding = 2;
    assert_eq!(ten.get_content_length(), 9);
    let mut eleven = QRConfig::new(11, ECLevel::Low, vec![]);
    eleven.encoding = 1;
    assert_eq!(eleven.get_content_length(), 12);
    let mut thirty = QRConfig::new(30, ECLevel::Low, vec![]);
    thirty.encoding = 8;
    assert_eq!(thirty.get_content_length(), 16);
}

#[test]
fn remainder_bits() {
    let expect = |v: usize| QRConfig::new(v, ECLevel::Low, vec![]).get_remainder_bit_length();
    assert_eq!(expect(1), 0);
    assert_eq!(expect(2), 7);
    assert_eq!(expect(6), 7);
    assert_eq!(expect(7), 0);
    assert_eq!(expect(14), 3);
    assert_eq!(expect(20), 3);
    assert_eq!(expect(21), 0);
    assert_eq!(expect(28), 3);
    assert_eq!(expect(34), 3);
    assert_eq!(expect(35), 0);
}

#[test]
fn zig_zag_walk() {
    let path = zig_zag_points(21);
    assert_eq!(path.len(), 420);
    assert_eq!(&path[..4], &[440, 439, 419, 418]);
    assert_eq!(path[40], 20);
    assert_eq!(path[41], 19);
    assert_eq!(path[42], 18);
    assert_eq!(path[43], 17);
    assert_eq!(path[44], 39);
    assert!(path.iter().all(|i| i % 21 != 6));
    let mut sorted = path.clone();
    sorted.sort();
    sorted.dedup();
    assert_eq!(sorted.len(), 420);
    // the band left of the timing column starts at the top and runs down
    assert_eq!(path[7 * 42], 5);
    assert_eq!(path[9 * 42 + 41], 420);
}

#[test]
fn mask_formulas() {
    let config = QRConfig::new(1, ECLevel::Low, vec![]);
    assert!(config.get_mask_pattern(0, 1, 1));
    assert!(!config.get_mask_pattern(0, 1, 2));
    assert!(!config.get_mask_pattern(1, 1, 0));
    assert!(config.get_mask_pattern(2, 0, 3));
    assert!(config.get_mask_pattern(3, 1, 2));
    assert!(config.get_mask_pattern(4, 2, 3));
    assert!(!config.get_mask_pattern(4, 0, 3));
    assert!(config.get_mask_pattern(5, 2, 3));
    assert!(!config.get_mask_pattern(5, 1, 1));
    assert!(config.get_mask_pattern(6, 1, 1));
    assert!(!config.get_mask_pattern(7, 1, 2));
    assert!(config.get_mask_pattern(7, 0, 0));
}

#[test]
fn cell_helpers() {
    let cell = Cell::new(3, 4);
    assert!(cell.is_free());
    assert!(!cell.is_black());
    assert_eq!(cell.as_point(), Point(3, 4));
    assert_eq!(cell.color, Color { r: 255, g: 255, b: 255 });
}
