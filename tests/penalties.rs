use qr_encoder::cell::{CellType, Color};
use qr_encoder::config::{ECLevel, QRConfig};

const BLACK: Color = Color { r: 0, g: 0, b: 0 };

#[test]
fn penalties_of_a_white_grid() {
    let config = QRConfig::new(1, ECLevel::Low, vec![]);
    let body = config.create_body();
    assert_eq!(config.penalty_score_eval_one(&body), 42 * 19);
    assert_eq!(config.penalty_score_eval_two(&body), 20 * 20 * 3);
    assert_eq!(config.penalty_score_eval_three(&body), 0);
    assert_eq!(config.penalty_score_eval_four(&body), 90);
    assert_eq!(config.eval_penalty_scores(&body), 798 + 1200 + 90);
}

#[test]
fn finder_like_row_costs_forty() {
    let config = QRConfig::new(1, ECLevel::Low, vec![]);
    let mut body = config.create_body();
    for col in [0usize, 2, 3, 4, 6] {
        body[col].color = BLACK;
    }
    assert_eq!(config.penalty_score_eval_three(&body), 40);
    let mut reversed = config.create_body();
    for col in [14usize, 16, 17, 18, 20] {
        reversed[21 * 5 + col].color = BLACK;
    }
    assert_eq!(config.penalty_score_eval_three(&reversed), 40);
}

#[test]
fn runs_and_blocks() {
    let config = QRConfig::new(1, ECLevel::Low, vec![]);
    let mut body = config.create_body();
    // a dark row of six in row 0 splits the white row into runs of 6 and 15
    for col in 0..6 {
        body[col].color = BLACK;
    }
    let rows = (6 - 2) + (15 - 2) + 20 * 19;
    let columns = 6 * (20 - 2) + 15 * 19;
    assert_eq!(config.penalty_score_eval_one(&body), rows + columns);
    // 2 x 2 blocks: the dark strip breaks the five windows below it
    assert_eq!(config.penalty_score_eval_two(&body), (400 - 6) * 3);
}

#[test]
fn dark_share_rule() {
    let config = QRConfig::new(1, ECLevel::Low, vec![]);
    let mut body = config.create_body();
    for i in 0..221 {
        body[i].color = BLACK;
    }
    assert_eq!(config.penalty_score_eval_four(&body), 0);
    let mut all = config.create_body();
    for cell in all.iter_mut() {
        cell.color = BLACK;
    }
    assert_eq!(config.penalty_score_eval_four(&all), 100);
    let mut forty = config.create_body();
    for i in 0..176 {
        forty[i].color = BLACK;
    }
    // 176 / 441 = 39.9 % rounds to 40: 10 from the nearer multiple, 45
    assert_eq!(config.penalty_score_eval_four(&forty), 10);
}

#[test]
fn masks_flip_only_data_modules() {
    let config = QRConfig::new(1, ECLevel::Low, vec![]);
    let mut body = config.create_body();
    body[0].module_type = CellType::Message;
    body[1].module_type = CellType::Message;
    body[1].color = BLACK;
    body[2].module_type = CellType::Finder;
    config.apply_mask_pattern(&mut body, 1);
    assert!(body[0].is_black());
    assert!(!body[1].is_black());
    assert!(!body[2].is_black());
    assert!(!body[21].is_black());
}
