use gcodekit5_ui::raster::line_pixels;

#[test]
fn shallow_line_pixels() {
    assert_eq!(line_pixels(0, 0, 5, 2, 10, 10), vec![(0, 0), (1, 0), (2, 1), (3, 1), (4, 2), (5, 2)]);
    assert_eq!(line_pixels(5, 1, 0, 0, 10, 10), vec![(5, 1), (4, 1), (3, 1), (2, 0), (1, 0), (0, 0)]);
}

#[test]
fn single_point_and_clipping() {
    assert_eq!(line_pixels(3, 4, 3, 4, 10, 10), vec![(3, 4)]);
    // points outside the image are skipped
    assert_eq!(line_pixels(2, -2, -1, 3, 10, 10), vec![(1, 0), (0, 1), (0, 2)]);
    assert_eq!(line_pixels(0, 0, 4, 4, 3, 10), vec![(0, 0), (1, 1), (2, 2)]);
    assert!(line_pixels(0, 0, 9, 9, 0, 0).is_empty());
}

#[test]
fn line_shape_on_many_segments() {
    for (x0, y0, x1, y1) in [(0, 0, 17, 5), (3, 9, 1, 0), (7, 7, 7, 0), (0, 12, 12, 0), (-3, -3, 20, 11)] {
        let ps = line_pixels(x0, y0, x1, y1, 1000, 1000);
        let (dx, dy) = ((x1 - x0).abs(), (y1 - y0).abs());
        let inside = |(x, y): (i32, i32)| x >= 0 && y >= 0;
        if inside((x0, y0)) && inside((x1, y1)) {
            assert_eq!(ps.len() as i32, dx.max(dy) + 1);
            assert_eq!(ps[0], (x0 as u32, y0 as u32));
            assert_eq!(*ps.last().unwrap(), (x1 as u32, y1 as u32));
            for w in ps.windows(2) {
                assert!((w[0].0 as i32 - w[1].0 as i32).abs() <= 1);
                assert!((w[0].1 as i32 - w[1].1 as i32).abs() <= 1);
            }
        }
    }
    // extreme coordinates do not overflow
    let far = line_pixels(i32::MIN, i32::MIN, i32::MIN + 3, i32::MIN + 1, 10, 10);
    assert!(far.is_empty());
    assert_eq!(line_pixels(i32::MAX, 0, i32::MAX - 2, 0, i32::MAX, 1), vec![(i32::MAX as u32 - 1, 0), (i32::MAX as u32 - 2, 0)]);
}
