use agredadb::index::{GraphWalk, IndexStats, MAX_WALK_STEPS};

#[test]
fn walk_follows_smallest_neighbor_and_stops_at_cycle() {
    let mut walk = GraphWalk::new(100);
    assert_eq!(walk.next_offset(), Some(100));
    walk.advance(Some(&[300, 200, 250]));
    assert_eq!(walk.next_offset(), Some(200));
    walk.advance(Some(&[900, 100]));
    // 100 was read already: the walk ends.
    assert_eq!(walk.next_offset(), None);
    assert_eq!(walk.next_offset(), None);
    assert_eq!(walk.visited(), &vec![100, 200]);
}

#[test]
fn walk_stops_without_neighbors_or_on_failed_read() {
    let mut walk = GraphWalk::new(0);
    assert_eq!(walk.next_offset(), Some(0));
    walk.advance(Some(&[]));
    assert_eq!(walk.next_offset(), None);

    let mut failed = GraphWalk::new(8);
    assert_eq!(failed.next_offset(), Some(8));
    failed.advance(None);
    assert_eq!(failed.next_offset(), None);
}

#[test]
fn walk_reads_at_most_the_step_limit() {
    let mut walk = GraphWalk::new(0);
    let mut reads = 0;
    while let Some(offset) = walk.next_offset() {
        reads += 1;
        walk.advance(Some(&[offset + 1]));
    }
    assert_eq!(reads, MAX_WALK_STEPS);
    assert_eq!(walk.visited().len(), 20);
}

#[test]
fn index_stats_fields() {
    let s = IndexStats { num_layers: 3, num_nodes: 10, max_connections: 16, ef_construction: 200 };
    let t = s;
    assert_eq!(s, t);
    assert_eq!(t.num_nodes, 10);
}
