use softpipe::sort::ProjectedTri;
use softpipe::sort::sort_triangles;

fn tri(object: usize, depth: i64, shade: u8) -> ProjectedTri {
    ProjectedTri { object, ax: 0, ay: 0, bx: 1, by: 1, cx: 2, cy: 2, depth, shade }
}

#[test]
fn sort_orders_back_to_front() {
    let input = vec![tri(0, 5, 1), tri(0, 10, 2), tri(0, 7, 3)];
    let out = sort_triangles(input);
    let depths: Vec<i64> = out.iter().map(|t| t.depth).collect();
    assert_eq!(depths, vec![10, 7, 5]);
}

#[test]
fn sort_breaks_ties_by_ascending_object() {
    let input = vec![tri(2, 4, 1), tri(0, 4, 2), tri(1, 4, 3)];
    let out = sort_triangles(input);
    let objects: Vec<usize> = out.iter().map(|t| t.object).collect();
    assert_eq!(objects, vec![0, 1, 2]);
}

#[test]
fn sort_is_idempotent() {
    let input = vec![tri(1, -3, 1), tri(0, 12, 2), tri(0, 12, 3), tri(2, 12, 4), tri(1, 0, 5)];
    let once = sort_triangles(input);
    let twice = sort_triangles(once.clone());
    assert_eq!(once, twice);
}

#[test]
fn sort_keeps_arrival_order_of_equal_keys() {
    // same depth, same object: the shades tell the arrival order apart
    let input = vec![tri(0, 9, 1), tri(0, 9, 2), tri(0, 9, 3)];
    let out = sort_triangles(input);
    let shades: Vec<u8> = out.iter().map(|t| t.shade).collect();
    assert_eq!(shades, vec![1, 2, 3]);
}

#[test]
fn sort_of_empty_list_is_empty() {
    let out = sort_triangles(Vec::new());
    assert!(out.is_empty());
}
