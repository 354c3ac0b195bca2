use isomap::geometry::Pos;
use isomap::terrace::terrace_centers;

fn demo_map() -> Vec<Vec<i32>> {
    vec![
        vec![0, 0, 0, 0, 0],
        vec![0, 0, 1, 0, 0],
        vec![0, 0, 0, 0, 0],
        vec![-2, -1, 0, -1, -2],
        vec![0, 0, 0, 0, 0],
    ]
}

#[test]
fn terrace_paints_low_levels_first() {
    let centers = terrace_centers(&demo_map(), -10, 10);
    assert_eq!(centers.len(), 25);
    // Level -2: row 3, columns 0 and 4.
    assert_eq!(centers[0], Pos { x: 400, y: 300 - 150 + 40 });
    assert_eq!(centers[1], Pos { x: 800, y: 300 + 50 + 40 });
    // Level -1: row 3, columns 1 and 3.
    assert_eq!(centers[2], Pos { x: 500, y: 300 - 100 + 20 });
    assert_eq!(centers[3], Pos { x: 700, y: 300 + 0 + 20 });
    // Level 0 starts at row 0, column 0.
    assert_eq!(centers[4], Pos { x: 100, y: 300 });
    // The single raised cell comes last.
    assert_eq!(centers[24], Pos { x: 400, y: 300 + 50 - 20 });
}

#[test]
fn terrace_skips_heights_out_of_range() {
    let centers = terrace_centers(&demo_map(), 0, 1);
    assert_eq!(centers.len(), 20);
    assert!(terrace_centers(&demo_map(), 5, 5).is_empty());
    assert!(terrace_centers(&demo_map(), 3, -3).is_empty());
}

#[test]
fn terrace_of_empty_map() {
    assert!(terrace_centers(&Vec::new(), -10, 10).is_empty());
    assert!(terrace_centers(&vec![Vec::new(), vec![12]], -10, 10).is_empty());
    assert_eq!(terrace_centers(&vec![Vec::new(), vec![7]], -10, 10), vec![Pos { x: 200, y: 250 - 140 }]);
}
