use qr_encoder::cell::{Cell, CellType, Point};
use qr_encoder::config::{ECLevel, QRConfig};
use qr_encoder::qr::QR;

fn built(version: usize) -> (QRConfig, Vec<Cell>) {
    let config = QRConfig::new(version, ECLevel::Medium, vec![]);
    let mut canvas = QR { body: config.create_body() };
    canvas.setup(&config);
    (config, canvas.body)
}

fn count(body: &[Cell], kind: CellType) -> usize {
    body.iter().filter(|c| c.module_type == kind).count()
}

fn alignment_centres(version: usize) -> Vec<(usize, usize)> {
    let config = QRConfig::new(version, ECLevel::Low, vec![]);
    let mut canvas = QR { body: config.create_body() };
    for p in config.finder_points.iter() {
        config.apply_finder_patterns(&mut canvas.body, Point(p.0, p.1));
        config.apply_separators(&mut canvas.body, *p);
    }
    let points = config.get_alignment_points(&canvas.body);
    assert_eq!(points.len() % 25, 0);
    (0..points.len() / 25).map(|k| (points[k * 25 + 12].point.0, points[k * 25 + 12].point.1)).collect()
}

fn coordinates(version: usize) -> Vec<usize> {
    let mut c: Vec<usize> = alignment_centres(version).iter().map(|p| p.1).collect();
    c.push(6);
    c.sort();
    c.dedup();
    c
}

#[test]
fn alignment_positions_match_the_published_table() {
    assert_eq!(coordinates(2), vec![6, 18]);
    assert_eq!(coordinates(7), vec![6, 22, 38]);
    assert_eq!(coordinates(14), vec![6, 26, 46, 66]);
    assert_eq!(coordinates(21), vec![6, 28, 50, 72, 94]);
    assert_eq!(coordinates(28), vec![6, 26, 50, 74, 98, 122]);
    assert_eq!(coordinates(32), vec![6, 34, 60, 86, 112, 138]);
    assert_eq!(coordinates(35), vec![6, 30, 54, 78, 102, 126, 150]);
    assert_eq!(coordinates(40), vec![6, 30, 58, 86, 114, 142, 170]);
}

#[test]
fn alignment_centres_skip_the_finders() {
    assert_eq!(alignment_centres(2), vec![(18, 18)]);
    assert_eq!(alignment_centres(7), vec![(6, 22), (22, 6), (22, 22), (22, 38), (38, 22), (38, 38)]);
}

#[test]
fn fixed_structures_of_every_version() {
    for version in 1..=40usize {
        let (config, body) = built(version);
        let size = config.size;
        assert_eq!(body.len(), size * size);
        assert_eq!(count(&body, CellType::Finder), 147, "version {}", version);
        assert_eq!(count(&body, CellType::Separator), 45, "version {}", version);
        assert_eq!(count(&body, CellType::DarkModule), 1, "version {}", version);
        assert_eq!(count(&body, CellType::Format), 30, "version {}", version);
        assert_eq!(count(&body, CellType::Message), 0);
        let centres = if version == 1 { 0 } else { (version / 7 + 2) * (version / 7 + 2) - 3 };
        assert_eq!(count(&body, CellType::Alignment), 25 * centres, "version {}", version);
        let version_info = if version >= 7 { 36 } else { 0 };
        assert_eq!(count(&body, CellType::VersionInformation), version_info, "version {}", version);
        assert_eq!(body[(4 * version + 9) * size + 8].module_type, CellType::DarkModule);
        assert!(body[(4 * version + 9) * size + 8].is_black());
    }
}

#[test]
fn version_one_has_no_alignment_pattern() {
    let (_, body) = built(1);
    assert_eq!(count(&body, CellType::Alignment), 0);
    assert_eq!(count(&body, CellType::Unassigned), 208);
}

#[test]
fn version_information_starts_at_seven() {
    let (_, six) = built(6);
    assert_eq!(count(&six, CellType::VersionInformation), 0);
    let (config, seven) = built(7);
    assert_eq!(count(&seven, CellType::VersionInformation), 36);
    let size = config.size;
    for k in 0..18 {
        assert_eq!(seven[(size - 11 + k / 6) * size + k % 6].module_type, CellType::VersionInformation);
        assert_eq!(seven[(k % 6) * size + size - 11 + k / 6].module_type, CellType::VersionInformation);
    }
}

#[test]
fn geometry_is_repeatable() {
    for version in [1usize, 6, 7, 20, 40] {
        let (_, a) = built(version);
        let (_, b) = built(version);
        assert_eq!(a, b);
        let other = QRConfig::new(version, ECLevel::High, b"other".to_vec());
        let mut canvas = QR { body: other.create_body() };
        canvas.setup(&other);
        assert_eq!(a, canvas.body);
    }
}

#[test]
fn finder_rings_and_timing() {
    let (_, body) = built(1);
    let dark = |r: usize, c: usize| body[r * 21 + c].is_black();
    for i in 0..7 {
        assert!(dark(0, i) && dark(6, i) && dark(i, 0) && dark(i, 6));
    }
    for i in 1..6 {
        assert!(!dark(1, i) && !dark(5, i));
    }
    for r in 2..5 {
        for c in 2..5 {
            assert!(dark(r, c));
        }
    }
    for i in 0..8 {
        assert_eq!(body[7 * 21 + i].module_type, CellType::Separator);
        assert!(!dark(7, i));
    }
    for c in 8..13 {
        assert_eq!(body[6 * 21 + c].module_type, CellType::Timing);
        assert_eq!(dark(6, c), c % 2 == 0);
        assert_eq!(body[c * 21 + 6].module_type, CellType::Timing);
        assert_eq!(dark(c, 6), c % 2 == 0);
    }
    assert_eq!(body[8 * 21].module_type, CellType::Format);
    assert_eq!(body[8 * 21 + 20].module_type, CellType::Format);
    assert_eq!(body[20 * 21 + 8].module_type, CellType::Format);
}

#[test]
fn spiral_and_combinations() {
    let config = QRConfig::new(2, ECLevel::Low, vec![]);
    let ring = config.plot_spiral(&Point(6, 6), 4, 2);
    assert_eq!(ring.len(), 25);
    assert_eq!(ring[0].point, Point(4, 4));
    assert!(ring[0].color == qr_encoder::cell::Color { r: 0, g: 0, b: 0 });
    assert_eq!(ring[6].point, Point(5, 5));
    assert!(ring[6].color == qr_encoder::cell::Color { r: 255, g: 255, b: 255 });
    assert_eq!(ring[12].point, Point(6, 6));
    assert!(ring[12].color == qr_encoder::cell::Color { r: 0, g: 0, b: 0 });
    let pairs = config.get_point_combinations(vec![6, 18]);
    assert_eq!(pairs, vec![Point(6, 6), Point(6, 18), Point(18, 6), Point(18, 18)]);
}
