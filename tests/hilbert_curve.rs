use amazon_rose_forest::hilbert::HilbertCurve;

#[test]
fn packed_index_concatenates_coordinates() {
    let curve = HilbertCurve::new(2, 4);
    assert_eq!(curve.compute_index(&[3, 5]), 3 | (5 << 4));
    assert_eq!(curve.compute_index(&[]), 0);
}

#[test]
fn hilbert_index_order_one_visits_quadrants_in_curve_order() {
    let curve = HilbertCurve::new(2, 1);
    assert_eq!(curve.compute_index_advanced(&[0, 0]), 0);
    assert_eq!(curve.compute_index_advanced(&[0, 1]), 1);
    assert_eq!(curve.compute_index_advanced(&[1, 1]), 2);
    assert_eq!(curve.compute_index_advanced(&[1, 0]), 3);
}

#[test]
fn hilbert_index_exact_values() {
    assert_eq!(HilbertCurve::new(2, 2).compute_index_advanced(&[3, 0]), 15);
    assert_eq!(HilbertCurve::new(2, 3).compute_index_advanced(&[5, 6]), 39);
    // coordinates wrap around the grid side
    assert_eq!(HilbertCurve::new(2, 2).compute_index_advanced(&[7, 4]), 15);
}

#[test]
fn hilbert_index_of_non_planar_point_is_zero() {
    let curve = HilbertCurve::new(2, 3);
    assert_eq!(curve.compute_index_advanced(&[1, 2, 3]), 0);
    assert_eq!(curve.compute_index_advanced(&[5]), 0);
}

#[test]
fn hilbert_index_is_a_bijection_on_the_grid() {
    let curve = HilbertCurve::new(2, 3);
    let mut seen = vec![false; 64];
    for x in 0..8u32 {
        for y in 0..8u32 {
            let d = curve.compute_index_advanced(&[x, y]) as usize;
            assert!(d < 64);
            assert!(!seen[d]);
            seen[d] = true;
        }
    }
}

#[test]
fn hilbert_index_largest_order() {
    let curve = HilbertCurve::new(1, 31);
    let d = curve.compute_index_advanced(&[u32::MAX, 0]);
    assert!(d < (1u64 << 62));
}

#[test]
fn hilbert_neighbours_stay_close_on_the_curve() {
    let order = 8u32;
    let n = 1u64 << order;
    let curve = HilbertCurve::new(2, order);
    let mut total: u64 = 0;
    let mut pairs: u64 = 0;
    let mut close: u64 = 0;
    for x in 0..n as u32 {
        for y in 0..n as u32 {
            let here = curve.compute_index_advanced(&[x, y]);
            let mut next = Vec::new();
            if (x as u64) + 1 < n {
                next.push([x + 1, y]);
            }
            if (y as u64) + 1 < n {
                next.push([x, y + 1]);
            }
            for p in next {
                let there = curve.compute_index_advanced(&p);
                let gap = if here > there { here - there } else { there - here };
                total += gap;
                pairs += 1;
                if gap <= n {
                    close += 1;
                }
            }
        }
    }
    // mean gap is a small fraction of the index range, and most neighbours are
    // within one row's length of each other
    assert!(total / pairs < n * n / 100);
    assert!(close * 10 >= pairs * 9);
}

#[test]
fn partition_sorts_by_index_and_cuts_equal_groups() {
    let curve = HilbertCurve::new(2, 4);
    let data = vec![(1, [3, 1]), (2, [0, 0]), (3, [1, 2]), (4, [2, 0]), (5, [0, 3])];
    let groups = curve.partition(&data);
    assert_eq!(groups, vec![vec![2, 5, 3], vec![1, 4]]);
}

#[test]
fn partition_follows_the_curve_not_the_rows() {
    let curve = HilbertCurve::new(1, 1);
    // Hilbert indices: (1,0) is 3, (0,1) is 1
    let data = vec![("right", [1, 0]), ("up", [0, 1])];
    assert_eq!(curve.partition(&data), vec![vec!["up", "right"]]);
}

#[test]
fn partition_keeps_input_order_on_equal_indices() {
    let curve = HilbertCurve::new(3, 4);
    let data = vec![("a", [1, 1]), ("b", [1, 1]), ("c", [0, 0]), ("d", [1, 1])];
    let groups = curve.partition(&data);
    assert_eq!(groups, vec![vec!["c", "a"], vec!["b", "d"]]);
}

#[test]
fn partition_of_nothing_is_empty() {
    let curve = HilbertCurve::new(2, 4);
    let data: Vec<(u8, [u32; 2])> = Vec::new();
    assert!(curve.partition(&data).is_empty());
}

#[test]
fn nearest_neighbours_rank_by_curve_distance() {
    let curve = HilbertCurve::new(2, 1);
    // indices: (0,0)=0, (0,1)=1, (1,1)=2, (1,0)=3
    let data = vec![("far", [1, 0]), ("near", [0, 1]), ("same", [0, 0]), ("mid", [1, 1])];
    let found = curve.find_nearest_neighbors([0, 0], &data, 2);
    assert_eq!(found, vec![&"same", &"near"]);
    let all = curve.find_nearest_neighbors([0, 0], &data, 10);
    assert_eq!(all, vec![&"same", &"near", &"mid", &"far"]);
    assert!(curve.find_nearest_neighbors([0, 0], &data, 0).is_empty());
}
