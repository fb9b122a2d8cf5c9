use msg_supabase::cursor::{SyncCursor, SyncCursors, SyncWatermarks};

#[test]
fn fresh_cursor_has_everything_pending() {
    let cursor = SyncCursor::default();
    assert_eq!(cursor.synced(), 0);
    assert_eq!(cursor.pending(&[1, 2, 3]), &[1, 2, 3]);
    assert!(!cursor.is_caught_up(&[1]));
}

#[test]
fn cursor_skips_synced_prefix() {
    let mut cursor = SyncCursor::default();
    cursor.mark_synced(2);
    assert_eq!(cursor.pending(&[1, 2, 3, 4]), &[3, 4]);
}

#[test]
fn cursor_beyond_list_length_yields_nothing() {
    let cursor = SyncCursor::new(9);
    assert_eq!(cursor.pending(&[1, 2]), &[] as &[i32]);
    assert!(cursor.is_caught_up(&[1, 2]));
}

#[test]
fn cursor_only_moves_forward() {
    let mut cursor = SyncCursor::new(5);
    cursor.mark_synced(2);
    assert_eq!(cursor.synced(), 5);
}

#[test]
fn cursor_reset_replays_everything() {
    let mut cursor = SyncCursor::new(3);
    cursor.reset();
    assert_eq!(cursor.pending(&[1, 2, 3]), &[1, 2, 3]);
}

#[test]
fn cursors_track_keys_independently() {
    let mut cursors: SyncCursors<usize> = SyncCursors::new();
    cursors.mark_synced(0, 2);

    assert_eq!(cursors.pending(&0, &[1, 2, 3]), &[3]);
    assert_eq!(cursors.pending(&1, &[1, 2, 3]), &[1, 2, 3]);
    assert_eq!(cursors.len(), 1);
}

#[test]
fn cursors_clear_forgets_progress() {
    let mut cursors: SyncCursors<&str> = SyncCursors::new();
    cursors.mark_synced("run", 4);
    cursors.clear();
    assert!(cursors.is_empty());
    assert_eq!(cursors.synced(&"run"), 0);
}

#[test]
fn watermarks_skip_unchanged_counters() {
    let mut marks: SyncWatermarks<&str> = SyncWatermarks::new();
    marks.mark_synced("fireball", 7);

    assert_eq!(marks.synced(&"fireball"), 7);
    assert!(!marks.is_ahead(&"fireball", 7));
    assert!(marks.is_ahead(&"fireball", 8));
    assert!(marks.is_ahead(&"icebolt", 1));
}

#[test]
fn watermarks_keep_the_highest_value() {
    let mut marks: SyncWatermarks<&str> = SyncWatermarks::new();
    marks.mark_synced("fireball", 7);
    marks.mark_synced("fireball", 3);
    assert_eq!(marks.synced(&"fireball"), 7);
}

#[test]
fn watermarks_accept_composite_keys() {
    let mut marks: SyncWatermarks<(usize, String)> = SyncWatermarks::new();
    marks.mark_synced((0, "fireball".to_string()), 2);
    assert!(!marks.is_ahead(&(0, "fireball".to_string()), 2));
    assert!(marks.is_ahead(&(1, "fireball".to_string()), 1));
}

#[test]
fn a_list_of_kills_is_pushed_in_two_parts() {
    let kills = ["goblin", "troll", "dragon"];
    let mut cursor = SyncCursor::default();

    assert_eq!(cursor.pending(&kills), &kills[..]);
    cursor.mark_synced(2);
    assert_eq!(cursor.pending(&kills), &["dragon"]);
}

#[test]
fn synced_and_pending_items_are_all_items() {
    let items = [4, 5, 6, 7];
    let cursor = SyncCursor::new(3);
    let mut whole = items[..cursor.synced()].to_vec();
    whole.extend_from_slice(cursor.pending(&items));
    assert_eq!(whole, items);
}

#[test]
fn appended_items_are_what_the_next_push_carries() {
    let mut list = vec![1, 2, 3];
    let mut cursor = SyncCursor::new(1);
    cursor.mark_synced(list.len());
    assert!(cursor.is_caught_up(&list));
    list.extend([8, 9]);
    assert_eq!(cursor.pending(&list), &[8, 9]);
}

#[test]
fn reported_counts_may_come_in_any_order() {
    let mut early = SyncCursor::new(1);
    early.mark_synced(4);
    early.mark_synced(2);
    let mut late = SyncCursor::new(1);
    late.mark_synced(2);
    late.mark_synced(4);
    assert_eq!(early, late);
    assert_eq!(early.synced(), 4);
}

#[test]
fn an_empty_list_is_always_caught_up() {
    let nothing: [u8; 0] = [];
    assert!(SyncCursor::default().is_caught_up(&nothing));
    assert!(SyncCursor::new(usize::MAX).is_caught_up(&nothing));
}

#[test]
fn one_cursor_per_run() {
    let mut cursors: SyncCursors<usize> = SyncCursors::default();
    let run_kills = ["goblin", "troll"];

    assert!(cursors.is_empty());
    assert_eq!(cursors.pending(&0, &run_kills).len(), 2);
    cursors.mark_synced(0, run_kills.len());
    assert!(cursors.pending(&0, &run_kills).is_empty());
    assert_eq!(cursors.cursor(&0), SyncCursor::new(2));
    assert_eq!(cursors.cursor(&5), SyncCursor::new(0));
    cursors.mark_synced(0, 1);
    assert_eq!(cursors.synced(&0), 2);
    assert!(!cursors.is_empty());
}

#[test]
fn a_copy_of_the_cursors_goes_its_own_way() {
    let mut cursors: SyncCursors<String> = SyncCursors::new();
    cursors.mark_synced("a".to_string(), 3);
    let copy = cursors.clone();
    cursors.mark_synced("a".to_string(), 5);
    assert_eq!(copy.synced(&"a".to_string()), 3);
    assert_eq!(cursors.synced(&"a".to_string()), 5);
}

#[test]
fn a_marked_value_is_no_longer_ahead() {
    let mut casts: SyncWatermarks<String> = SyncWatermarks::default();

    assert!(casts.is_ahead(&"fireball".to_string(), 3));
    casts.mark_synced("fireball".to_string(), 3);
    assert!(!casts.is_ahead(&"fireball".to_string(), 3));
    assert!(casts.is_ahead(&"fireball".to_string(), 4));
}

#[test]
fn watermarks_start_at_the_default() {
    let mut marks: SyncWatermarks<u8, i64> = SyncWatermarks::new();
    assert_eq!(marks.synced(&1), 0);
    assert!(!marks.is_ahead(&1, -4));
    marks.mark_synced(1, -4);
    assert_eq!(marks.synced(&1), 0);
    assert_eq!(marks.len(), 1);
    let copy = marks.clone();
    marks.clear();
    assert!(marks.is_empty());
    assert_eq!(copy.len(), 1);
}

#[test]
fn the_length_counts_the_keys() {
    let mut cursors: SyncCursors<usize> = SyncCursors::new();
    assert_eq!(cursors.len(), 0);
    cursors.mark_synced(4, 0);
    assert_eq!(cursors.len(), 1);
    assert!(!cursors.is_empty());
    cursors.mark_synced(4, 9);
    assert_eq!(cursors.len(), 1);
    cursors.mark_synced(5, 9);
    assert_eq!(cursors.len(), 2);
}

#[test]
fn marking_one_watermark_leaves_the_others() {
    let mut marks: SyncWatermarks<usize> = SyncWatermarks::new();
    marks.mark_synced(1, 5);
    marks.mark_synced(2, 3);
    assert_eq!(marks.synced(&1), 5);
    assert_eq!(marks.synced(&2), 3);
    assert_eq!(marks.synced(&3), 0);
    assert_eq!(marks.len(), 2);
}
