use renderer_engine::eligibility::{
    automatic_playlist_id, automatic_track_eligible, first_automatic_from, first_automatic_wrapping,
    first_available_from, first_available_wrapping, remap_current_index_after_move,
    sequential_automatic_index, sequential_available_index, sequential_next_index, ExclusionStore,
};
use renderer_engine::model::{RepeatMode, TrackRef};
use renderer_engine::planner::{queue_index_valid, QueueError, QueuePlan, QueueRejection, RemoveEffect};

const QUEUE_IDS: [&str; 4] = [
    "0abcdefghijklmnopqrstu",
    "1abcdefghijklmnopqrstu",
    "2abcdefghijklmnopqrstu",
    "3abcdefghijklmnopqrstu",
];

fn contextual_track(id: &str, context: &str) -> TrackRef {
    TrackRef {
        id: id.to_owned(),
        uri: format!("spotify:track:{id}"),
        duration_ms: 180_000,
        context: context.to_owned(),
        ..TrackRef::default()
    }
}

fn unavailable_track(id: &str) -> TrackRef {
    TrackRef {
        id: id.to_owned(),
        uri: format!("spotify:track:{id}"),
        duration_ms: 180_000,
        unavailable: true,
        unavailable_reason: Some("not available in your country".to_owned()),
        ..TrackRef::default()
    }
}

fn playlist_queue(ids: &[&str]) -> Vec<TrackRef> {
    ids.iter()
        .map(|id| contextual_track(id, "playlist:playlist"))
        .collect()
}

fn store_with_exclusions(exclusions: &[(&str, &str)]) -> ExclusionStore {
    let mut store = ExclusionStore::new();
    for &(playlist_id, track_id) in exclusions {
        store.set_excluded(playlist_id, track_id, true);
    }
    store
}

fn plan_with_queue(store: ExclusionStore, queue: Vec<TrackRef>, current: usize) -> QueuePlan {
    QueuePlan {
        queue,
        current_index: Some(current),
        shuffle: false,
        repeat: RepeatMode::Off,
        shuffle_pool: Vec::new(),
        history: Vec::new(),
        random_state: 0x9e37_79b9_7f4a_7c15,
        preview_mode: false,
        exclusions: store,
        queue_revision: 1,
    }
}

fn shuffling_plan(store: ExclusionStore, current: usize, pool: &[usize]) -> QueuePlan {
    let mut plan = plan_with_queue(store, playlist_queue(&QUEUE_IDS), current);
    plan.shuffle = true;
    plan.shuffle_pool = pool.to_vec();
    plan.random_state = 0x2545_f491_4f6c_dd1d;
    plan
}

fn set_excluded(plan: &mut QueuePlan, playlist_id: &str, track_id: &str, excluded: bool) {
    plan.exclusions.set_excluded(playlist_id, track_id, excluded);
    plan.queue_changed();
    plan.repair_shuffle_pool_for_eligibility();
}

fn assert_shuffle_pool_invariants(plan: &QueuePlan) {
    if !plan.shuffle {
        assert!(plan.shuffle_pool.is_empty(), "the bag is empty whenever shuffle is off");
        return;
    }
    let mut seen = std::collections::HashSet::new();
    for index in &plan.shuffle_pool {
        assert!(*index < plan.queue.len(), "bag entry {index} does not index the queue");
        assert!(Some(*index) != plan.current_index, "the bag holds the current row {index}");
        assert!(seen.insert(*index), "the bag holds {index} twice");
    }
}

#[test]
fn moving_queue_items_preserves_the_current_track() {
    assert_eq!(remap_current_index_after_move(2, 2, 0), 0);
    assert_eq!(remap_current_index_after_move(2, 0, 3), 1);
    assert_eq!(remap_current_index_after_move(2, 4, 1), 3);
    assert_eq!(remap_current_index_after_move(2, 0, 1), 2);
    assert_eq!(remap_current_index_after_move(2, 3, 4), 2);
}

#[test]
fn sequential_queue_stops_or_wraps_at_the_end() {
    assert_eq!(sequential_next_index(0, 3, RepeatMode::Off), Some(1));
    assert_eq!(sequential_next_index(2, 3, RepeatMode::Off), None);
    assert_eq!(sequential_next_index(2, 3, RepeatMode::Context), Some(0));
    assert_eq!(sequential_next_index(0, 0, RepeatMode::Context), None);
}

#[test]
fn every_progression_strategy_skips_permanent_unavailability() {
    let playable = TrackRef {
        uri: "spotify:track:1abcdefghijklmnopqrstu".to_owned(),
        ..TrackRef::default()
    };
    let queue = vec![
        playable.clone(),
        unavailable_track("2abcdefghijklmnopqrstu"),
        unavailable_track("3abcdefghijklmnopqrstu"),
        playable,
    ];
    assert_eq!(first_available_from(&queue, 1), Some(3));
    assert_eq!(first_available_wrapping(&queue, 2), Some(3));
    assert_eq!(sequential_available_index(&queue, 0, RepeatMode::Off), Some(3));
    assert_eq!(sequential_available_index(&queue, 3, RepeatMode::Context), Some(0));

    let blocked = vec![
        unavailable_track("4abcdefghijklmnopqrstu"),
        unavailable_track("5abcdefghijklmnopqrstu"),
    ];
    assert_eq!(first_available_from(&blocked, 0), None);
    assert_eq!(sequential_available_index(&blocked, 0, RepeatMode::Context), None);
}

#[test]
fn repeat_context_wraps_only_to_eligible_rows() {
    let excluded_id = "0abcdefghijklmnopqrstu";
    let queue = vec![
        contextual_track(excluded_id, "playlist:playlist"),
        contextual_track("1abcdefghijklmnopqrstu", "playlist:playlist"),
        contextual_track("2abcdefghijklmnopqrstu", "playlist:playlist"),
    ];
    let store = store_with_exclusions(&[("playlist", excluded_id)]);
    let mut plan = plan_with_queue(store, queue, 2);
    plan.repeat = RepeatMode::Context;

    assert_eq!(
        sequential_automatic_index(&plan.queue, 2, RepeatMode::Context, &plan.exclusions),
        Some(1)
    );
    assert_eq!(plan.take_next_index_with_skip(false, false), Some(1));
}

#[test]
fn shuffle_pool_excludes_playlist_preferences() {
    let excluded_id = "1abcdefghijklmnopqrstu";
    let queue = vec![
        contextual_track("0abcdefghijklmnopqrstu", "playlist:playlist"),
        contextual_track(excluded_id, "playlist:playlist"),
        contextual_track("2abcdefghijklmnopqrstu", "playlist:playlist"),
    ];
    let store = store_with_exclusions(&[("playlist", excluded_id)]);
    let mut plan = plan_with_queue(store, queue, 0);
    plan.shuffle = true;
    plan.rebuild_shuffle_pool();

    assert_eq!(plan.shuffle_pool, vec![2], "shuffle only contains non-current eligible rows");
}

#[test]
fn upcoming_is_the_shuffle_pool_in_pop_order() {
    let store = store_with_exclusions(&[("playlist", QUEUE_IDS[2])]);
    let mut plan = plan_with_queue(store, playlist_queue(&QUEUE_IDS), 0);
    plan.shuffle = true;
    plan.rebuild_shuffle_pool();

    let popped: Vec<usize> = plan.shuffle_pool.iter().rev().copied().collect();
    assert_eq!(
        plan.upcoming_indices(),
        popped,
        "upcoming is exactly the order the pool will be popped in"
    );

    plan.shuffle_pool = vec![3, 2, 1];
    assert_eq!(plan.upcoming_indices(), vec![1, 3]);
}

#[test]
fn upcoming_walks_sequentially_past_an_excluded_row() {
    let store = store_with_exclusions(&[("playlist", QUEUE_IDS[2])]);
    let plan = plan_with_queue(store, playlist_queue(&QUEUE_IDS), 0);

    assert_eq!(plan.upcoming_indices(), vec![1, 3]);
}

#[test]
fn upcoming_wraps_through_the_current_row_under_repeat_context() {
    let store = store_with_exclusions(&[("playlist", QUEUE_IDS[1])]);
    let mut plan = plan_with_queue(store, playlist_queue(&QUEUE_IDS), 2);
    plan.repeat = RepeatMode::Context;

    assert_eq!(
        plan.upcoming_indices(),
        vec![3, 0, 2],
        "the wrap is inclusive of the current row, like sequential_automatic_index"
    );
}

#[test]
fn upcoming_ignores_repeat_one() {
    let store = store_with_exclusions(&[]);
    let mut plan = plan_with_queue(store, playlist_queue(&QUEUE_IDS), 0);
    plan.repeat = RepeatMode::Track;

    assert_eq!(
        plan.upcoming_indices(),
        vec![1, 2, 3],
        "repeat-one loops the current row, it does not replan the queue"
    );
}

#[test]
fn upcoming_lists_every_eligible_row_without_a_current() {
    let store = store_with_exclusions(&[("playlist", QUEUE_IDS[1])]);
    let mut plan = plan_with_queue(store, playlist_queue(&QUEUE_IDS), 0);
    plan.current_index = None;

    assert_eq!(plan.upcoming_indices(), vec![0, 2, 3]);
}

#[test]
fn removing_a_row_shifts_the_bag_instead_of_redrawing_it() {
    let store = store_with_exclusions(&[]);
    let mut plan = shuffling_plan(store, 0, &[3, 2, 1]);

    assert_eq!(plan.remove_queue(2), Ok(RemoveEffect::Preload));
    assert_eq!(
        plan.shuffle_pool,
        vec![2, 1],
        "the removed row leaves and the rows above it slide down one"
    );
    assert_eq!(plan.upcoming_indices(), vec![1, 2]);
    assert_shuffle_pool_invariants(&plan);
}

#[test]
fn removing_the_current_row_drops_its_replacement_from_the_bag() {
    let store = store_with_exclusions(&[]);
    let mut plan = shuffling_plan(store, 1, &[3, 2, 0]);

    assert_eq!(
        plan.remove_queue(1),
        Ok(RemoveEffect::Reload),
        "the replacement is current and has to be loaded"
    );
    assert_eq!(plan.current_index, Some(1));
    assert_eq!(
        plan.shuffle_pool,
        vec![2, 0],
        "the promoted replacement leaves the bag, the rest keep their order"
    );
    assert_shuffle_pool_invariants(&plan);
}

#[test]
fn moving_a_row_remaps_the_bag_the_same_way_as_the_current_row() {
    let store = store_with_exclusions(&[]);
    let mut plan = shuffling_plan(store, 1, &[3, 2, 0]);

    assert_eq!(plan.move_queue(0, 3), Ok(()));
    assert_eq!(plan.current_index, Some(0));
    assert_eq!(
        plan.shuffle_pool,
        vec![
            remap_current_index_after_move(3, 0, 3),
            remap_current_index_after_move(2, 0, 3),
            remap_current_index_after_move(0, 0, 3),
        ],
        "one permutation moves the queue, the current row and the bag"
    );
    assert_shuffle_pool_invariants(&plan);
}

#[test]
fn moving_a_row_onto_the_current_row_keeps_it_out_of_the_bag() {
    let store = store_with_exclusions(&[]);
    let mut plan = shuffling_plan(store, 2, &[3, 1, 0]);

    assert_eq!(plan.move_queue(0, 2), Ok(()));
    assert_eq!(plan.current_index, Some(1));
    assert_shuffle_pool_invariants(&plan);
}

#[test]
fn adding_a_row_splices_it_without_reordering_the_survivors() {
    let store = store_with_exclusions(&[]);
    let mut plan = shuffling_plan(store, 0, &[]);
    for ordinal in 4..8u32 {
        plan.queue.push(contextual_track(
            &format!("0abcdefghijklmnopqrst{ordinal}"),
            "playlist:playlist",
        ));
    }
    plan.shuffle_pool = vec![2, 7, 4, 1, 6, 3, 5];

    assert_eq!(plan.add_queue_batch(vec![contextual_track(
        "0abcdefghijklmnopqrst9",
        "playlist:playlist",
    )], ""), Ok(()));
    assert!(plan.shuffle_pool.contains(&8));
    assert_eq!(
        plan.shuffle_pool
            .iter()
            .copied()
            .filter(|index| *index != 8)
            .collect::<Vec<usize>>(),
        vec![2, 7, 4, 1, 6, 3, 5],
        "queueing a track must not redraw the plan already on screen"
    );
    assert_shuffle_pool_invariants(&plan);
}

#[test]
fn a_batch_add_splices_every_new_row_and_keeps_the_survivors_ordered() {
    let store = store_with_exclusions(&[]);
    let mut plan = shuffling_plan(store, 0, &[3, 2, 1]);

    assert_eq!(plan.add_queue_batch(vec![
        contextual_track("4abcdefghijklmnopqrstu", "playlist:playlist"),
        contextual_track("5abcdefghijklmnopqrstu", "playlist:playlist"),
    ], ""), Ok(()));
    assert_eq!(
        plan.shuffle_pool
            .iter()
            .copied()
            .filter(|index| *index < 4)
            .collect::<Vec<usize>>(),
        vec![3, 2, 1]
    );
    assert!(plan.shuffle_pool.contains(&4) && plan.shuffle_pool.contains(&5));
    assert_shuffle_pool_invariants(&plan);
}

#[test]
fn queued_rows_land_somewhere_other_than_one_end_of_the_bag() {
    let store = store_with_exclusions(&[]);
    let mut plan = shuffling_plan(store, 0, &[3, 2, 1]);

    let mut interior = false;
    for ordinal in 4..24u32 {
        let id = format!("{ordinal:02}bcdefghijklmnopqrstu");
        let added = plan.queue.len();
        assert_eq!(plan.add_queue_batch(vec![contextual_track(&id, "playlist:playlist")], ""), Ok(()));
        let at = plan
            .shuffle_pool
            .iter()
            .position(|index| *index == added)
            .expect("the new row joined the bag");
        interior |= at > 0 && at + 1 < plan.shuffle_pool.len();
    }
    assert!(
        interior,
        "appending to an end would make queued tracks always play next or always last"
    );
    assert_shuffle_pool_invariants(&plan);
}

#[test]
fn play_queue_index_drops_only_the_row_it_jumps_to() {
    let store = store_with_exclusions(&[]);
    let mut plan = shuffling_plan(store, 0, &[3, 2, 1]);

    assert_eq!(plan.play_queue_index(2), Ok(()));
    assert_eq!(plan.current_index, Some(2));
    assert_eq!(
        plan.shuffle_pool,
        vec![3, 1],
        "the row jumped to leaves; the row left behind is `previous`'s business"
    );
    assert_shuffle_pool_invariants(&plan);
}

#[test]
fn exclusion_toggles_repair_the_bag_in_both_directions() {
    let store = store_with_exclusions(&[]);
    let mut plan = shuffling_plan(store, 0, &[3, 2, 1]);

    set_excluded(&mut plan, "playlist", QUEUE_IDS[2], true);
    assert_eq!(
        plan.shuffle_pool,
        vec![3, 1],
        "an excluded row leaves without disturbing the others"
    );
    assert_shuffle_pool_invariants(&plan);

    set_excluded(&mut plan, "playlist", QUEUE_IDS[2], false);
    assert!(plan.shuffle_pool.contains(&2));
    assert_eq!(
        plan.shuffle_pool
            .iter()
            .copied()
            .filter(|index| *index != 2)
            .collect::<Vec<usize>>(),
        vec![3, 1],
        "a re-included row is spliced in, it does not trigger a redraw"
    );
    assert_shuffle_pool_invariants(&plan);
}

#[test]
fn an_exclusion_toggle_reaches_every_queue_row_holding_that_track() {
    let repeated = "0abcdefghijklmnopqrstu";
    let queue = vec![
        contextual_track("1abcdefghijklmnopqrstu", "playlist:playlist"),
        contextual_track(repeated, "playlist:playlist"),
        contextual_track("2abcdefghijklmnopqrstu", "playlist:playlist"),
        contextual_track(repeated, "playlist:playlist"),
    ];
    let store = store_with_exclusions(&[]);
    let mut plan = plan_with_queue(store, queue, 0);
    plan.shuffle = true;
    plan.shuffle_pool = vec![3, 2, 1];
    plan.random_state = 0x2545_f491_4f6c_dd1d;

    set_excluded(&mut plan, "playlist", repeated, true);
    assert_eq!(plan.shuffle_pool, vec![2], "both rows carrying the excluded id leave the bag");

    set_excluded(&mut plan, "playlist", repeated, false);
    assert_eq!(plan.shuffle_pool.len(), 3);
    assert!(plan.shuffle_pool.contains(&1) && plan.shuffle_pool.contains(&3));
    assert_shuffle_pool_invariants(&plan);
}

#[test]
fn preview_mode_eligibility_governs_a_repair_like_it_governs_a_redraw() {
    let excluded_id = QUEUE_IDS[2];
    let store = store_with_exclusions(&[("playlist", excluded_id)]);
    let mut plan = shuffling_plan(store, 0, &[3, 1]);
    plan.preview_mode = true;

    plan.repair_shuffle_pool_for_eligibility();
    assert!(plan.shuffle_pool.contains(&2));
    assert_shuffle_pool_invariants(&plan);

    plan.preview_mode = false;
    plan.repair_shuffle_pool_for_eligibility();
    assert_eq!(
        plan.shuffle_pool,
        vec![3, 1],
        "leaving preview puts the exclusion back in force"
    );
}

#[test]
fn a_mutation_leaves_the_drawn_order_of_untouched_rows_alone() {
    let store = store_with_exclusions(&[]);
    let mut plan = plan_with_queue(store, playlist_queue(&QUEUE_IDS), 0);
    plan.shuffle = true;
    plan.random_state = 0x9e37_79b9_7f4a_7c15;
    plan.rebuild_shuffle_pool();
    let drawn = plan.shuffle_pool.clone();

    assert_eq!(plan.add_queue_batch(vec![contextual_track("4abcdefghijklmnopqrstu", "playlist:playlist")], ""), Ok(()));
    assert_eq!(
        plan.shuffle_pool
            .iter()
            .copied()
            .filter(|index| *index != 4)
            .collect::<Vec<usize>>(),
        drawn,
        "this is the regression: a queue mutation used to redraw the whole plan"
    );
}

#[test]
fn repairs_never_resurrect_the_bag_while_shuffle_is_off() {
    let store = store_with_exclusions(&[]);
    let mut plan = plan_with_queue(store, playlist_queue(&QUEUE_IDS), 0);

    for seed in 0..3 {
        plan.shuffle_pool = vec![3, 2, 1];
        match seed {
            0 => assert_eq!(plan.move_queue(1, 2), Ok(())),
            1 => assert_eq!(plan.remove_queue(3), Ok(RemoveEffect::Preload)),
            _ => assert_eq!(plan.add_queue_batch(vec![contextual_track(
                "4abcdefghijklmnopqrstu",
                "playlist:playlist",
            )], ""), Ok(())),
        }
        assert!(plan.shuffle_pool.is_empty(), "an ordered queue has no shuffle plan to repair");
    }
    plan.shuffle_pool = vec![3, 2, 1];
    set_excluded(&mut plan, "playlist", QUEUE_IDS[1], true);
    assert!(plan.shuffle_pool.is_empty());
}

#[test]
fn the_repeat_context_refill_still_draws_a_fresh_lap() {
    let store = store_with_exclusions(&[]);
    let mut plan = shuffling_plan(store, 0, &[]);
    plan.repeat = RepeatMode::Context;

    let next = plan
        .take_next_index_with_skip(false, false)
        .expect("an emptied bag refills under repeat-context");
    assert_ne!(next, 0, "the refill never offers the current row");
    assert_eq!(plan.shuffle_pool.len(), 2, "a new lap is a new draw of every other eligible row");
    assert_shuffle_pool_invariants(&plan);
}

#[test]
fn previous_history_and_ordered_fallback_skip_excluded_rows() {
    let excluded_id = "0abcdefghijklmnopqrstu";
    let queue = vec![
        contextual_track(excluded_id, "playlist:playlist"),
        contextual_track("1abcdefghijklmnopqrstu", "playlist:playlist"),
        contextual_track("2abcdefghijklmnopqrstu", "playlist:playlist"),
    ];
    let store = store_with_exclusions(&[("playlist", excluded_id)]);
    let mut plan = plan_with_queue(store, queue, 2);

    plan.history = vec![1, 0];
    assert_eq!(plan.previous_index(0), Some(1));
    plan.history.clear();
    assert_eq!(plan.previous_index(0), Some(1), "ordered fallback also skips excluded rows");
}

#[test]
fn preload_peek_skips_excluded_rows() {
    let excluded_id = "1abcdefghijklmnopqrstu";
    let queue = vec![
        contextual_track("0abcdefghijklmnopqrstu", "playlist:playlist"),
        contextual_track(excluded_id, "playlist:playlist"),
        contextual_track("2abcdefghijklmnopqrstu", "playlist:playlist"),
    ];
    let store = store_with_exclusions(&[("playlist", excluded_id)]);
    let plan = plan_with_queue(store, queue, 0);

    assert_eq!(plan.peek_next_index(), Some(2), "peek selects the same eligible target used by preload");
}

#[test]
fn repeat_one_continues_a_manually_started_excluded_current() {
    let excluded_id = "0abcdefghijklmnopqrstu";
    let queue = vec![contextual_track(excluded_id, "playlist:playlist")];
    let store = store_with_exclusions(&[("playlist", excluded_id)]);
    let mut plan = plan_with_queue(store, queue, 0);
    plan.repeat = RepeatMode::Track;

    assert_eq!(
        plan.take_next_index_with_skip(true, false),
        Some(0),
        "repeat-one preserves a manually started excluded current"
    );
    assert_eq!(plan.peek_next_index(), Some(0));
}

#[test]
fn all_excluded_automatic_queues_have_no_target() {
    let first = "0abcdefghijklmnopqrstu";
    let second = "1abcdefghijklmnopqrstu";
    let queue = vec![
        contextual_track(first, "playlist:playlist"),
        contextual_track(second, "playlist:playlist"),
    ];
    let store = store_with_exclusions(&[("playlist", first), ("playlist", second)]);
    assert_eq!(first_automatic_from(&queue, 0, &store), None);
    assert_eq!(first_automatic_wrapping(&queue, 1, &store), None);
    assert_eq!(sequential_automatic_index(&queue, 0, RepeatMode::Context, &store), None);
    let mut plan = plan_with_queue(store, queue, 0);
    plan.repeat = RepeatMode::Context;
    assert_eq!(
        plan.take_next_index_with_skip(false, false),
        None,
        "automatic progression has no target when every row is excluded"
    );
}

#[test]
fn playlist_exclusions_are_isolated_from_album_and_other_playlists() {
    let track_id = "0abcdefghijklmnopqrstu";
    let queue = vec![
        contextual_track(track_id, "playlist:one"),
        contextual_track(track_id, "album:one"),
        contextual_track(track_id, "playlist:two"),
    ];
    let store = store_with_exclusions(&[("one", track_id)]);

    assert!(!automatic_track_eligible(&store, &queue[0]));
    assert!(automatic_track_eligible(&store, &queue[1]));
    assert!(automatic_track_eligible(&store, &queue[2]));
    assert_eq!(first_automatic_from(&queue, 0, &store), Some(1));
}

fn one_track_plan() -> QueuePlan {
    let track = TrackRef {
        id: "0123456789ABCDEFGHIJKL".to_owned(),
        uri: "spotify:track:0123456789ABCDEFGHIJKL".to_owned(),
        duration_ms: 240_000,
        ..TrackRef::default()
    };
    plan_with_queue(ExclusionStore::new(), vec![track], 0)
}

#[test]
fn previous_within_restart_window_restarts_the_current_track() {
    let mut plan = one_track_plan();
    assert_eq!(plan.previous_index(0), None);

    assert_eq!(plan.previous_index(5_000), None);

    plan.current_index = Some(1);
    assert_eq!(plan.previous_index(500), Some(0));
}

#[test]
fn previous_pops_history_with_bounds_guard() {
    let mut plan = one_track_plan();
    plan.current_index = Some(1);
    plan.history.push(0);
    assert_eq!(plan.previous_index(0), Some(0));

    plan.history.clear();
    plan.history.push(99);
    assert_eq!(plan.previous_index(0), Some(0), "falls back to current - 1");
    plan.current_index = Some(0);
    plan.history.push(99);
    assert_eq!(plan.previous_index(0), None, "first track: restart in place");
}

#[test]
fn an_automatic_playlist_is_named_by_its_context() {
    assert_eq!(automatic_playlist_id("playlist:37i9dQZF1DXcBWIGoYBM5M"), Some("37i9dQZF1DXcBWIGoYBM5M"));
    assert_eq!(automatic_playlist_id("album:one"), None);
    assert_eq!(automatic_playlist_id("playlist:"), None);
}

#[test]
fn a_move_past_the_end_is_refused_and_changes_nothing() {
    let mut plan = plan_with_queue(ExclusionStore::new(), playlist_queue(&QUEUE_IDS), 1);
    assert_eq!(plan.move_queue(0, 4), Err(QueueError::MoveOutOfRange { from: 0, to: 4 }));
    assert_eq!(plan.current_index, Some(1));
    assert_eq!(plan.remove_queue(9), Err(QueueError::IndexOutOfRange { index: 9 }));
    assert_eq!(plan.queue.len(), 4);
}

#[test]
fn removing_the_last_row_stops_on_an_empty_queue() {
    let mut plan = plan_with_queue(ExclusionStore::new(), playlist_queue(&QUEUE_IDS[..1]), 0);
    assert_eq!(plan.remove_queue(0), Ok(RemoveEffect::StopEmpty));
    assert_eq!(plan.current_index, None);
}

#[test]
fn restore_installs_the_first_available_row_and_skips_a_blocked_index() {
    let playable = TrackRef {
        uri: "spotify:track:1abcdefghijklmnopqrstu".to_owned(),
        duration_ms: 240_000,
        ..TrackRef::default()
    };
    let queue = vec![unavailable_track("0abcdefghijklmnopqrstu"), playable];
    let mut plan = plan_with_queue(ExclusionStore::new(), playlist_queue(&QUEUE_IDS), 2);
    plan.preview_mode = true;
    plan.history = vec![1];

    assert_eq!(plan.restore_queue(queue, 0, ""), Ok(Some(1)));
    assert_eq!(plan.current_index, Some(1));
    assert!(!plan.preview_mode);
    assert!(plan.history.is_empty());
}

#[test]
fn restore_preserves_an_excluded_requested_row() {
    let excluded_id = "0abcdefghijklmnopqrstu";
    let queue = vec![
        contextual_track(excluded_id, "playlist:playlist"),
        contextual_track("1abcdefghijklmnopqrstu", "playlist:playlist"),
    ];
    let store = store_with_exclusions(&[("playlist", excluded_id)]);
    let mut plan = plan_with_queue(store, Vec::new(), 0);
    plan.current_index = None;
    assert_eq!(
        plan.restore_queue(queue, 0, ""),
        Ok(Some(0)),
        "restore is not automatic playback and keeps the requested row"
    );
    assert_eq!(plan.restore_queue(Vec::new(), 0, ""), Ok(None));
}

#[test]
fn guarded_restore_is_a_noop_after_real_queue_wins() {
    assert!(renderer_engine::planner::restore_is_stale(true, false, 0, 1));
    assert!(renderer_engine::planner::restore_is_stale(true, true, 2, 1));
    assert!(renderer_engine::planner::restore_is_stale(true, true, 0, 0));
    assert!(!renderer_engine::planner::restore_is_stale(true, true, 1, 1));
    assert!(!renderer_engine::planner::restore_is_stale(false, false, 0, 0));
}

#[test]
fn automatic_start_skips_excluded_but_direct_play_and_index_accept_it() {
    let excluded_id = "0abcdefghijklmnopqrstu";
    let queue = vec![
        contextual_track(excluded_id, "playlist:playlist"),
        contextual_track("1abcdefghijklmnopqrstu", "playlist:playlist"),
    ];

    let mut automatic = plan_with_queue(store_with_exclusions(&[("playlist", excluded_id)]), Vec::new(), 0);
    automatic.current_index = None;
    assert_eq!(automatic.play_queue(queue.clone(), 0, true, false), Ok(Some(1)));
    assert_eq!(automatic.current_index, Some(1), "automatic starts skip the excluded requested row");

    let mut direct = plan_with_queue(store_with_exclusions(&[("playlist", excluded_id)]), Vec::new(), 0);
    direct.current_index = None;
    assert_eq!(direct.play_queue(queue.clone(), 0, false, false), Ok(Some(0)));
    assert_eq!(direct.current_index, Some(0), "direct queue playback accepts the excluded requested row");

    let mut index = plan_with_queue(store_with_exclusions(&[("playlist", excluded_id)]), queue, 1);
    assert_eq!(index.play_queue_index(0), Ok(()));
    assert_eq!(index.current_index, Some(0), "direct index playback accepts the excluded row");
}

#[test]
fn a_queue_with_nothing_to_play_is_installed_with_nothing_current() {
    let queue = vec![unavailable_track("0abcdefghijklmnopqrstu")];
    let mut plan = shuffling_plan(ExclusionStore::new(), 0, &[3, 2, 1]);
    assert_eq!(plan.play_queue(queue, 0, false, true), Ok(None));
    assert_eq!(plan.current_index, None);
    assert!(plan.shuffle_pool.is_empty());
    assert!(plan.preview_mode);
}

#[test]
fn a_queue_index_must_name_a_row() {
    assert_eq!(queue_index_valid(0, 0), Ok(()));
    assert_eq!(queue_index_valid(0, 1), Err(QueueError::NonzeroIndexForEmptyQueue { index: 1 }));
    assert_eq!(queue_index_valid(3, 2), Ok(()));
    assert_eq!(queue_index_valid(3, 3), Err(QueueError::IndexOutOfRange { index: 3 }));
}

#[test]
fn same_value_setters_are_no_ops() {
    let mut plan = plan_with_queue(ExclusionStore::new(), playlist_queue(&QUEUE_IDS), 0);
    plan.history.push(3);
    let revision = plan.queue_revision;
    assert!(!plan.set_shuffle(false));
    assert!(!plan.set_repeat(RepeatMode::Off));
    assert_eq!(plan.history, vec![3]);
    assert_eq!(plan.queue_revision, revision);
}

#[test]
fn changed_shuffle_and_repeat_values_still_update_state() {
    let mut plan = plan_with_queue(ExclusionStore::new(), playlist_queue(&QUEUE_IDS), 0);
    plan.history.push(3);
    assert!(plan.set_shuffle(true));
    assert!(plan.shuffle);
    assert!(plan.history.is_empty(), "a new plan forgets the old navigation");
    assert_eq!(plan.shuffle_pool.len(), 3);
    assert_shuffle_pool_invariants(&plan);
    assert!(plan.set_repeat(RepeatMode::Context));
    assert_eq!(plan.repeat, RepeatMode::Context);
    assert!(plan.set_shuffle(false));
    assert!(plan.shuffle_pool.is_empty());
}

#[test]
fn ordered_next_and_eof_skip_excluded_rows() {
    let excluded_id = "1abcdefghijklmnopqrstu";
    let queue = vec![
        contextual_track("0abcdefghijklmnopqrstu", "playlist:playlist"),
        contextual_track(excluded_id, "playlist:playlist"),
        contextual_track("2abcdefghijklmnopqrstu", "playlist:playlist"),
    ];
    let mut plan = plan_with_queue(store_with_exclusions(&[("playlist", excluded_id)]), queue, 0);
    assert_eq!(plan.advance_with_current_skip(false, false), Ok(Some(2)), "Next skips excluded rows");
    assert_eq!(plan.current_index, Some(2));
    assert_eq!(plan.history, vec![0]);
    assert_eq!(plan.advance_with_current_skip(true, false), Ok(None), "the end of an ordered queue stops");
    assert_eq!(plan.current_index, Some(2));
}

#[test]
fn advancing_without_a_current_row_is_refused() {
    let mut plan = plan_with_queue(ExclusionStore::new(), playlist_queue(&QUEUE_IDS), 0);
    plan.current_index = None;
    assert_eq!(plan.advance_with_current_skip(false, false), Err(QueueError::NoCurrentTrack));
}

#[test]
fn blank_contexts_take_the_queue_context() {
    let mut queue = vec![
        contextual_track("0abcdefghijklmnopqrstu", "  "),
        contextual_track("1abcdefghijklmnopqrstu", "album:kept"),
    ];
    renderer_engine::eligibility::fill_queue_context(&mut queue, " playlist:given ");
    assert_eq!(queue[0].context, "playlist:given");
    assert_eq!(queue[1].context, "album:kept");
    let mut untouched = vec![contextual_track("0abcdefghijklmnopqrstu", "")];
    renderer_engine::eligibility::fill_queue_context(&mut untouched, "   ");
    assert_eq!(untouched[0].context, "");
}

#[test]
fn invalid_restore_leaves_the_preview_and_the_current_queue_alone() {
    let mut plan = plan_with_queue(ExclusionStore::new(), playlist_queue(&QUEUE_IDS), 2);
    plan.preview_mode = true;
    plan.history = vec![1];
    let revision = plan.queue_revision;

    let queue = playlist_queue(&QUEUE_IDS[..2]);
    assert_eq!(
        plan.restore_queue(queue, 2, ""),
        Err(QueueRejection::Index(QueueError::IndexOutOfRange { index: 2 }))
    );
    assert_eq!(
        plan.restore_queue(Vec::new(), 1, ""),
        Err(QueueRejection::Index(QueueError::NonzeroIndexForEmptyQueue { index: 1 }))
    );
    let mut bad = playlist_queue(&QUEUE_IDS[..2]);
    bad[1].uri = "spotify:episode:1abcdefghijklmnopqrstu".to_owned();
    assert_eq!(
        plan.restore_queue(bad, 0, ""),
        Err(QueueRejection::Track(
            "queue item is not a Spotify track URI: spotify:episode:1abcdefghijklmnopqrstu".to_owned()
        ))
    );
    assert!(plan.preview_mode);
    assert_eq!(plan.current_index, Some(2));
    assert_eq!(plan.queue.len(), 4);
    assert_eq!(plan.history, vec![1]);
    assert_eq!(plan.queue_revision, revision);
}

#[test]
fn a_restore_fills_blank_contexts() {
    let mut plan = plan_with_queue(ExclusionStore::new(), Vec::new(), 0);
    plan.current_index = None;
    let queue = vec![contextual_track(QUEUE_IDS[0], " ")];
    assert_eq!(plan.restore_queue(queue, 0, "playlist:mix"), Ok(Some(0)));
    assert_eq!(plan.queue[0].context, "playlist:mix");
}

#[test]
fn playing_an_invalid_queue_changes_nothing() {
    let mut plan = plan_with_queue(ExclusionStore::new(), playlist_queue(&QUEUE_IDS), 1);
    assert_eq!(
        plan.play_queue(playlist_queue(&QUEUE_IDS[..1]), 3, false, false),
        Err(QueueRejection::Index(QueueError::IndexOutOfRange { index: 3 }))
    );
    assert_eq!(plan.current_index, Some(1));
    assert_eq!(plan.queue.len(), 4);
}
