use voxel_garden::chunk::{ChunkCoord, CHUNK_SIZE};
use voxel_garden::color::Color;
use voxel_garden::model::InstanceData;
use voxel_garden::point::Point;
use voxel_garden::radius::{draw_chunk_and_around, is_behind, visit};
use voxel_garden::scheduler::{Lifecycle, Scheduler};
use voxel_garden::terrain::GenerationPositions;

fn c(x: i32, z: i32) -> ChunkCoord {
    ChunkCoord { x, z }
}

/// A chunk that can be told apart by `tag`.
fn data(tag: i32) -> GenerationPositions {
    GenerationPositions::new(
        vec![InstanceData::new(Point { x: tag, y: 0, z: 0 }, Color::Grass)],
        Vec::new(),
    )
}

#[test]
fn chunk_size_is_32() {
    assert_eq!(CHUNK_SIZE, 32);
}

#[test]
fn chunk_keys_are_distinct() {
    assert_eq!(c(i32::MIN, i32::MIN).key(), 0);
    assert_eq!(c(i32::MIN, i32::MIN + 1).key(), 1);
    assert_eq!(c(i32::MIN + 1, i32::MIN).key(), 1 << 32);
    assert_eq!(c(0, 0).key(), (1 << 63) + (1 << 31));
    assert_eq!(c(i32::MAX, i32::MAX).key(), u64::MAX);
    assert_ne!(c(1, 0).key(), c(0, 1).key());
}

#[test]
fn chunk_of_a_position_is_the_chunk_that_holds_it() {
    assert_eq!(ChunkCoord::of_position(0, 0), c(0, 0));
    assert_eq!(ChunkCoord::of_position(31, 32), c(0, 1));
    assert_eq!(ChunkCoord::of_position(-1, -32), c(-1, -1));
    assert_eq!(ChunkCoord::of_position(-33, 63), c(-2, 1));
    assert_eq!(ChunkCoord::of_position(i32::MIN, i32::MAX), c(-67108864, 67108863));
    assert_eq!(c(-2, 3).origin(), (-64, 96));
}

#[test]
fn new_scheduler_knows_nothing() {
    let mut s = Scheduler::new();
    assert_eq!(s.state(c(0, 0)), Lifecycle::Unknown);
    assert!(!s.contains(c(0, 0)));
    assert!(!s.is_pending(c(0, 0)));
    assert_eq!(s.queue_depth(), 0);
    assert_eq!(s.next_job(), None);
    assert!(s.try_get(c(0, 0)).is_none());
    assert!(s.get(c(0, 0)).is_none());
}

#[test]
fn request_makes_an_unknown_chunk_pending() {
    let mut s = Scheduler::new();
    assert!(s.request(c(1, 2)));
    assert_eq!(s.state(c(1, 2)), Lifecycle::Pending);
    assert!(s.is_pending(c(1, 2)));
    assert_eq!(s.queue_depth(), 1);
    assert_eq!(s.state(c(2, 1)), Lifecycle::Unknown);
}

#[test]
fn repeated_requests_are_queued_once() {
    let mut s = Scheduler::new();
    assert!(s.request(c(5, -5)));
    for _ in 0..10 {
        assert!(!s.request(c(5, -5)));
    }
    assert_eq!(s.queue_depth(), 1);
    assert_eq!(s.next_job(), Some(c(5, -5)));
    for _ in 0..10 {
        assert!(!s.request(c(5, -5)));
    }
    assert_eq!(s.queue_depth(), 0);
    s.insert(c(5, -5), data(1));
    assert_eq!(s.next_job(), None);
    assert!(!s.request(c(5, -5)));
    assert_eq!(s.queue_depth(), 0);
}

#[test]
fn request_of_a_resident_chunk_does_nothing() {
    let mut s = Scheduler::new();
    s.insert(c(0, 0), data(1));
    assert!(!s.request(c(0, 0)));
    assert_eq!(s.queue_depth(), 0);
    assert!(!s.is_pending(c(0, 0)));
    assert_eq!(s.state(c(0, 0)), Lifecycle::Resident);
}

#[test]
fn jobs_come_in_the_order_of_the_requests() {
    let mut s = Scheduler::new();
    s.request(c(3, 0));
    s.request(c(1, 0));
    s.request(c(2, 0));
    assert_eq!(s.next_job(), Some(c(3, 0)));
    s.insert(c(3, 0), data(3));
    assert_eq!(s.next_job(), Some(c(1, 0)));
    s.insert(c(1, 0), data(1));
    assert_eq!(s.next_job(), Some(c(2, 0)));
    s.insert(c(2, 0), data(2));
    assert_eq!(s.next_job(), None);
}

#[test]
fn a_job_stays_in_flight_until_its_chunk_is_inserted() {
    let mut s = Scheduler::new();
    s.request(c(1, 1));
    s.request(c(2, 2));
    assert_eq!(s.next_job(), Some(c(1, 1)));
    assert_eq!(s.next_job(), Some(c(1, 1)));
    assert_eq!(s.queue_depth(), 1);
    s.insert(c(1, 1), data(1));
    assert_eq!(s.next_job(), Some(c(2, 2)));
    assert_eq!(s.queue_depth(), 0);
}

#[test]
fn requests_for_chunks_that_became_resident_are_skipped() {
    let mut s = Scheduler::new();
    s.request(c(1, 0));
    s.request(c(2, 0));
    s.request(c(3, 0));
    s.insert(c(1, 0), data(1));
    s.insert(c(2, 0), data(2));
    assert_eq!(s.next_job(), Some(c(3, 0)));
    assert_eq!(s.queue_depth(), 0);
}

#[test]
fn try_get_clears_a_resident_chunk_from_the_pending_set() {
    let mut s = Scheduler::new();
    s.request(c(4, 4));
    assert!(s.try_get(c(4, 4)).is_none());
    assert!(s.is_pending(c(4, 4)));
    assert_eq!(s.next_job(), Some(c(4, 4)));
    s.insert(c(4, 4), data(44));
    assert!(s.is_pending(c(4, 4)));
    assert_eq!(s.get(c(4, 4)), Some(&data(44)));
    assert!(s.is_pending(c(4, 4)));
    assert_eq!(s.try_get(c(4, 4)), Some(&data(44)));
    assert!(!s.is_pending(c(4, 4)));
    assert_eq!(s.state(c(4, 4)), Lifecycle::Resident);
}

#[test]
fn a_drained_queue_leaves_every_request_resident() {
    let mut s = Scheduler::new();
    let wanted = [c(0, 0), c(-1, 7), c(100, -100), c(i32::MAX, i32::MIN)];
    for w in wanted {
        s.request(w);
    }
    let mut generated = 0;
    while let Some(job) = s.next_job() {
        s.insert(job, data(job.x));
        generated += 1;
    }
    assert_eq!(generated, 4);
    for w in wanted {
        assert_eq!(s.try_get(w), Some(&data(w.x)));
        assert!(!s.is_pending(w));
        assert_eq!(s.state(w), Lifecycle::Resident);
    }
}

#[test]
fn insert_never_changes_a_resident_chunk() {
    let mut s = Scheduler::new();
    s.insert(c(0, 0), data(1));
    s.insert(c(0, 0), data(2));
    assert_eq!(s.get(c(0, 0)), Some(&data(1)));
}

#[test]
fn reset_forgets_everything() {
    let mut s = Scheduler::new();
    s.insert(c(0, 0), data(1));
    s.request(c(1, 1));
    s.request(c(2, 2));
    s.next_job();
    s.reset();
    assert_eq!(s.state(c(0, 0)), Lifecycle::Unknown);
    assert_eq!(s.state(c(1, 1)), Lifecycle::Unknown);
    assert_eq!(s.queue_depth(), 0);
    assert_eq!(s.next_job(), None);
    assert!(s.request(c(0, 0)));
}

#[test]
fn visit_looks_up_or_requests() {
    let mut s = Scheduler::new();
    s.insert(c(0, 0), data(1));
    assert!(visit(&mut s, c(0, 0)));
    assert_eq!(s.queue_depth(), 0);
    assert!(!visit(&mut s, c(0, 1)));
    assert!(!visit(&mut s, c(0, 1)));
    assert_eq!(s.queue_depth(), 1);
    assert!(s.is_pending(c(0, 1)));
}

#[test]
fn radius_query_requests_exactly_the_missing_chunks_of_the_square() {
    let mut s = Scheduler::new();
    s.insert(c(0, 0), data(0));
    let drawn = draw_chunk_and_around(&mut s, (5, 7), 2, None);
    assert_eq!(drawn, vec![c(0, 0)]);
    assert_eq!(s.queue_depth(), 24);
    assert!(!s.is_pending(c(0, 0)));
    let mut jobs = Vec::new();
    while let Some(job) = s.next_job() {
        jobs.push(job);
        s.insert(job, data(job.x));
    }
    let mut expected = Vec::new();
    for z in -2..=2 {
        for x in -2..=2 {
            if (x, z) != (0, 0) {
                expected.push(c(x, z));
            }
        }
    }
    assert_eq!(jobs, expected);
    for z in -3..=3 {
        for x in -3..=3 {
            let inside = (-2..=2).contains(&x) && (-2..=2).contains(&z);
            assert_eq!(s.contains(c(x, z)), inside);
        }
    }
}

#[test]
fn radius_query_does_not_request_twice() {
    let mut s = Scheduler::new();
    draw_chunk_and_around(&mut s, (0, 0), 1, None);
    assert_eq!(s.queue_depth(), 9);
    draw_chunk_and_around(&mut s, (0, 0), 1, None);
    assert_eq!(s.queue_depth(), 9);
    draw_chunk_and_around(&mut s, (32, 0), 1, None);
    assert_eq!(s.queue_depth(), 12);
}

#[test]
fn radius_query_is_centred_on_the_chunk_of_the_viewer() {
    let mut s = Scheduler::new();
    draw_chunk_and_around(&mut s, (-1, 64), 0, None);
    assert_eq!(s.queue_depth(), 1);
    assert_eq!(s.next_job(), Some(c(-1, 2)));
}

#[test]
fn radius_query_with_a_negative_distance_visits_nothing() {
    let mut s = Scheduler::new();
    s.insert(c(0, 0), data(0));
    assert!(draw_chunk_and_around(&mut s, (0, 0), -1, None).is_empty());
    assert_eq!(s.queue_depth(), 0);
}

#[test]
fn radius_query_draws_what_is_not_behind_the_viewer() {
    let mut s = Scheduler::new();
    for z in -1..=1 {
        for x in -1..=1 {
            s.insert(c(x, z), data(x));
        }
    }
    let ahead = draw_chunk_and_around(&mut s, (0, 0), 1, Some((0, 1000)));
    assert_eq!(ahead, vec![c(-1, 0), c(0, 0), c(1, 0), c(-1, 1), c(0, 1), c(1, 1)]);
    let all = draw_chunk_and_around(&mut s, (0, 0), 1, None);
    assert_eq!(all.len(), 9);
    let diagonal = draw_chunk_and_around(&mut s, (0, 0), 1, Some((-707, -707)));
    assert_eq!(
        diagonal,
        vec![c(-1, -1), c(0, -1), c(1, -1), c(-1, 0), c(0, 0), c(-1, 1)]
    );
}

#[test]
fn radius_query_requests_behind_the_viewer_too() {
    let mut s = Scheduler::new();
    let drawn = draw_chunk_and_around(&mut s, (0, 0), 2, Some((1000, 0)));
    assert!(drawn.is_empty());
    assert_eq!(s.queue_depth(), 25);
}

#[test]
fn cull_is_the_sign_of_the_dot_product() {
    assert!(is_behind((1000, 0), (-1, 0)));
    assert!(!is_behind((1000, 0), (1, 0)));
    assert!(!is_behind((1000, 0), (0, 5)));
    assert!(!is_behind((1000, 0), (0, 0)));
    assert!(is_behind((600, 800), (1, -1)));
    assert!(!is_behind((600, 800), (-1, 1)));
    assert!(!is_behind((600, 800), (4, -3)));
    assert!(is_behind((600, 800), (3, -3)));
}

#[test]
fn cull_does_not_depend_on_the_distance() {
    for (ox, oz) in [(1, -1), (-1, 1), (4, -3), (-2, -5), (0, 0), (7, 0)] {
        for k in [1, 2, 10, 1000, 100_000] {
            assert_eq!(is_behind((600, 800), (k * ox, k * oz)), is_behind((600, 800), (ox, oz)));
            assert_eq!(is_behind((6 * k, 8 * k), (ox, oz)), is_behind((600, 800), (ox, oz)));
        }
    }
    assert!(is_behind((i32::MAX, i32::MAX), (i32::MIN, i32::MIN)));
    assert!(!is_behind((i32::MIN, i32::MIN), (i32::MIN, i32::MIN)));
}

#[test]
fn pending_len_counts_the_chunks_asked_for() {
    let mut s = Scheduler::new();
    assert_eq!(s.pending_len(), 0);
    s.request(c(1, 1));
    s.request(c(2, 2));
    s.request(c(1, 1));
    assert_eq!(s.pending_len(), 2);
    assert_eq!(s.queue_depth(), 2);
    assert_eq!(s.next_job(), Some(c(1, 1)));
    s.insert(c(1, 1), data(1));
    assert_eq!(s.pending_len(), 2);
    assert!(s.try_get(c(1, 1)).is_some());
    assert_eq!(s.pending_len(), 1);
}
