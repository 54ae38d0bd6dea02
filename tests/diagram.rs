use voronoi::canvas::Canvas;
use voronoi::disk::{fill_circle, fill_markers};
use voronoi::geometry::{sqr_dist, Point};
use voronoi::markers::{generate_random_markers, point_from_draws};
use voronoi::ppm::encode_ppm;
use voronoi::voronoi::{nearest_marker, render_diagram};

const PALETTE: [u32; 10] = [
    0xFFDFFF00, 0xFFFFBF00, 0xFFFF7F50, 0xFFDE3163, 0xFF9FE2BF, 0xFF40E0D0, 0xFF6495ED, 0xFFCCCCFF,
    0xFF3355FF, 0xFFFF33FF,
];
const BACKGROUND: u32 = 0xFF333333;

fn canvas(w: usize, h: usize, color: u32) -> Canvas {
    Canvas::new(w, h, color).expect("valid size")
}

#[test]
fn sqr_dist_exact() {
    assert_eq!(sqr_dist(0, 3, 0, 4), 25);
    assert_eq!(sqr_dist(-2, 1, 5, 1), 25);
    assert_eq!(sqr_dist(7, 7, -3, -3), 0);
}

#[test]
fn sqr_dist_extreme_coordinates() {
    let d = (i32::MAX as i128 - i32::MIN as i128) as u128;
    assert_eq!(sqr_dist(i32::MIN, i32::MAX, i32::MIN, i32::MAX), 2 * d * d);
}

#[test]
fn canvas_new_rejects_bad_sizes() {
    assert!(Canvas::new(0, 5, 0).is_none());
    assert!(Canvas::new(5, 0, 0).is_none());
    assert!(Canvas::new(0x8000_0000, 1, 0).is_none());
    let c = canvas(3, 2, 7);
    assert_eq!(c.dimensions(), (3, 2));
    assert_eq!(c.width(), 3);
    assert_eq!(c.height(), 2);
    assert_eq!(c.cells(), &[7, 7, 7, 7, 7, 7]);
}

#[test]
fn canvas_set_get_fill() {
    let mut c = canvas(4, 3, 0);
    c.set(3, 1, 9);
    assert_eq!(c.get(3, 1), 9);
    assert_eq!(c.get(1, 3 - 1), 0);
    assert_eq!(c.cells()[1 * 4 + 3], 9);
    c.fill_image(5);
    assert!(c.cells().iter().all(|&p| p == 5));
}

#[test]
fn tie_goes_to_first_marker() {
    let markers = [Point::new(0, 0), Point::new(10, 0)];
    assert_eq!(nearest_marker(&markers, 5, 0), 0);
    let mut c = canvas(11, 1, BACKGROUND);
    render_diagram(&mut c, &markers, &PALETTE);
    assert_eq!(c.get(5, 0), PALETTE[0]);
    assert_eq!(c.get(4, 0), PALETTE[0]);
    assert_eq!(c.get(6, 0), PALETTE[1]);
}

#[test]
fn nearest_marker_picks_closest() {
    let markers = [Point::new(0, 0), Point::new(10, 10), Point::new(3, 4)];
    assert_eq!(nearest_marker(&markers, 4, 4), 2);
    assert_eq!(nearest_marker(&markers, 9, 9), 1);
    assert_eq!(nearest_marker(&markers, -5, -5), 0);
}

#[test]
fn palette_wraps_by_marker_index() {
    let markers: Vec<Point> = (0..12).map(|i| Point::new(i * 10, 0)).collect();
    let mut c = canvas(120, 1, BACKGROUND);
    render_diagram(&mut c, &markers, &PALETTE);
    assert_eq!(c.get(110, 0), PALETTE[1]);
    assert_eq!(c.get(100, 0), PALETTE[0]);
    assert_eq!(c.get(90, 0), PALETTE[9]);
}

#[test]
fn partition_covers_every_pixel() {
    let markers = [Point::new(3, 4), Point::new(30, 2), Point::new(17, 19), Point::new(-4, 40)];
    let mut c = canvas(40, 30, BACKGROUND);
    render_diagram(&mut c, &markers, &PALETTE);
    for &p in c.cells() {
        assert_ne!(p, BACKGROUND);
        assert!(PALETTE[..markers.len()].contains(&p));
    }
}

#[test]
fn single_marker_paints_whole_canvas() {
    let markers = [Point::new(7, 3)];
    let mut c = canvas(25, 15, BACKGROUND);
    render_diagram(&mut c, &markers, &PALETTE);
    assert!(c.cells().iter().all(|&p| p == PALETTE[0]));
}

#[test]
fn render_is_deterministic() {
    let markers = [Point::new(5, 5), Point::new(20, 8), Point::new(12, 25)];
    let mut a = canvas(30, 30, BACKGROUND);
    let mut b = canvas(30, 30, 0);
    render_diagram(&mut a, &markers, &PALETTE);
    fill_markers(&mut a, &markers, 3, 0);
    render_diagram(&mut b, &markers, &PALETTE);
    fill_markers(&mut b, &markers, 3, 0);
    assert_eq!(a.cells(), b.cells());
}

#[test]
fn disk_contains_exactly_its_pixels() {
    let mut c = canvas(20, 20, 1);
    let center = Point::new(10, 10);
    fill_circle(&mut c, &center, 3, 2);
    for y in 0..20usize {
        for x in 0..20usize {
            let d = sqr_dist(10, x as i32, 10, y as i32);
            let in_square = x >= 7 && x < 13 && y >= 7 && y < 13;
            let expected = if in_square && d <= 9 { 2 } else { 1 };
            assert_eq!(c.get(x, y), expected, "pixel ({x}, {y})");
        }
    }
    assert_eq!(c.get(10, 7), 2);
    assert_eq!(c.get(7, 10), 2);
    assert_eq!(c.get(13, 10), 1);
    assert_eq!(c.get(8, 8), 2);
    assert_eq!(c.get(7, 7), 1);
}

#[test]
fn disk_of_radius_zero_paints_nothing() {
    let mut c = canvas(5, 5, 1);
    fill_circle(&mut c, &Point::new(2, 2), 0, 2);
    assert!(c.cells().iter().all(|&p| p == 1));
}

#[test]
fn disk_clipped_at_corner() {
    let mut c = canvas(800, 600, 1);
    fill_circle(&mut c, &Point::new(0, 0), 5, 2);
    let painted = c.cells().iter().filter(|&&p| p == 2).count();
    // x and y in 0..5 with x*x + y*y <= 25
    assert_eq!(painted, 24);
    assert_eq!(c.get(0, 0), 2);
    assert_eq!(c.get(4, 3), 2);
    assert_eq!(c.get(4, 4), 1);
    assert_eq!(c.get(5, 0), 1);
}

#[test]
fn disk_entirely_outside_is_ignored() {
    let mut c = canvas(10, 10, 1);
    fill_circle(&mut c, &Point::new(-50, i32::MAX), 5, 2);
    fill_circle(&mut c, &Point::new(i32::MIN, i32::MIN), usize::MAX, 3);
    assert_eq!(c.get(0, 0), 3);
    fill_circle(&mut c, &Point::new(100, 100), 5, 4);
    assert!(!c.cells().contains(&4));
}

#[test]
fn markers_overwrite_diagram() {
    let markers = [Point::new(2, 2), Point::new(12, 2)];
    let mut c = canvas(15, 5, BACKGROUND);
    render_diagram(&mut c, &markers, &PALETTE);
    fill_markers(&mut c, &markers, 1, 0);
    assert_eq!(c.get(2, 2), 0);
    assert_eq!(c.get(1, 2), 0);
    assert_eq!(c.get(3, 2), PALETTE[0]);
    assert_eq!(c.get(12, 1), 0);
    assert_eq!(c.get(13, 2), PALETTE[1]);
}

#[test]
fn encode_two_by_two() {
    let mut c = canvas(2, 2, 0);
    c.set(0, 0, 0xFFFF0000);
    c.set(1, 0, 0xFF00FF00);
    c.set(0, 1, 0xFF0000FF);
    c.set(1, 1, 0xFFFFFFFF);
    let mut expected = b"P6\n2 2\n255\n".to_vec();
    expected.extend_from_slice(&[
        0xFF, 0x00, 0x00, 0x00, 0xFF, 0x00, 0x00, 0x00, 0xFF, 0xFF, 0xFF, 0xFF,
    ]);
    assert_eq!(encode_ppm(&c), expected);
}

#[test]
fn encode_header_and_length() {
    let c = canvas(800, 600, 0x12345678);
    let bytes = encode_ppm(&c);
    let header = b"P6\n800 600\n255\n";
    assert_eq!(&bytes[..header.len()], header);
    assert_eq!(bytes.len(), header.len() + 800 * 600 * 3);
    assert_eq!(&bytes[header.len()..header.len() + 3], &[0x34, 0x56, 0x78]);
}

#[test]
fn draws_become_points() {
    assert_eq!(point_from_draws(805, 1201, 800, 600), Point::new(5, 1));
    assert_eq!(point_from_draws(usize::MAX, 0, 800, 600), Point::new((usize::MAX % 800) as i32, 0));
}

#[test]
fn random_markers_lie_in_canvas() {
    let ms = generate_random_markers(200, 80, 60);
    assert_eq!(ms.len(), 200);
    assert!(ms.iter().all(|p| p.x >= 0 && p.x < 80 && p.y >= 0 && p.y < 60));
    assert!(generate_random_markers(0, 1, 1).is_empty());
}
