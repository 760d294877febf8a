use macroquad_fun::animator::{animation_frame, animation_is_done};
use macroquad_fun::font::glyph_source;
use macroquad_fun::attachment::{AttachCandidate, AttachmentComponent};
use macroquad_fun::collision::{collision_resolution_loop, CollisionFlags, CollisionResolutionResult};
use macroquad_fun::gem_counter::{count_total_and_remaining_gems, gem_counter_message, GemCounterMessage};
use macroquad_fun::push::PushSystem;
use macroquad_fun::switch::{SwitchAction, SwitchComponent, TriggerType};
use macroquad_fun::text::{visible_line_lengths, TextComponent, MAX_TEXT_CHARS};
use macroquad_fun::time::looping_frame_number;
use macroquad_fun::z_index::{sort_by_z_index, ZIndexComponent, ZIndexedDrawingSystem};

#[test]
fn switch_flips_and_triggers() {
    let mut switch = SwitchComponent { trigger: Some((TriggerType::ToggleRoute, 9)), ..Default::default() };
    let update = switch.update(true);
    assert!(update.changed);
    assert!(update.first_switched_on);
    assert_eq!(update.action, Some(SwitchAction::ToggleRoute { id: 9, move_towards_start: false }));
    let update = switch.update(true);
    assert!(!update.changed);
    assert_eq!(update.action, None);
    let update = switch.update(false);
    assert!(update.changed);
    assert!(!update.first_switched_on);
    assert_eq!(update.action, Some(SwitchAction::ToggleRoute { id: 9, move_towards_start: true }));
    let update = switch.update(true);
    assert!(!update.first_switched_on);
    assert!(switch.has_been_switched_on);
}

#[test]
fn destroy_trigger() {
    let mut switch = SwitchComponent { trigger: Some((TriggerType::Destroy, 4)), ..Default::default() };
    assert_eq!(switch.update(true).action, Some(SwitchAction::Destroy(4)));
    let mut plain = SwitchComponent::default();
    let update = plain.update(true);
    assert!(update.changed && update.first_switched_on && update.action.is_none());
}

#[test]
fn attachment_rides_and_lets_go() {
    let mut a = AttachmentComponent::default();
    assert!(!a.is_attached());
    let candidates = vec![
        AttachCandidate { id: 1, attachable: false, overlaps: true },
        AttachCandidate { id: 2, attachable: true, overlaps: false },
        AttachCandidate { id: 3, attachable: true, overlaps: true },
        AttachCandidate { id: 4, attachable: true, overlaps: true },
    ];
    assert_eq!(a.maybe_attach_to_entity(true, &candidates, |_| true), None);
    assert_eq!(a.maybe_attach_to_entity(false, &candidates, |id| id != 3), Some(4));
    assert_eq!(a.attached_entity_id(), Some(4));
    assert!(!a.update_while_attached(true));
    assert!(!a.update_while_attached(false));
    assert!(!a.update_while_attached(true));
    assert!(!a.update_while_attached(true));
    assert!(a.update_while_attached(true));
    assert!(!a.is_attached());
    // It will not attach to the carrier it just let go of.
    assert_eq!(a.maybe_attach_to_entity(false, &candidates, |id| id != 3), None);
    assert!(!a.reset());
    assert_eq!(a.maybe_attach_to_entity(false, &candidates, |_| true), Some(3));
    a.detach();
    assert!(!a.is_attached());
}

#[test]
fn text_appears_one_character_per_frame() {
    let mut text = TextComponent::default();
    text.update(true, 5);
    text.update(true, 5);
    assert_eq!(text.max_chars(), 1);
    text.update(true, 6);
    assert_eq!(text.max_chars(), 2);
    text.update(false, 7);
    assert_eq!(text.max_chars(), 0);
    for frame in 1..=(MAX_TEXT_CHARS as u64 + 10) {
        text.update(true, frame);
    }
    assert_eq!(text.max_chars(), MAX_TEXT_CHARS);
}

#[test]
fn text_lines_are_cut_at_the_shown_length() {
    assert_eq!(visible_line_lengths(&vec![5, 3, 4], 7), vec![5, 2, 0]);
    assert_eq!(visible_line_lengths(&vec![5, 3, 4], 100), vec![5, 3, 4]);
    assert_eq!(visible_line_lengths(&vec![5, 3], 0), vec![0, 0]);
    assert_eq!(visible_line_lengths(&vec![], 3), Vec::<usize>::new());
}

#[test]
fn gems_are_counted() {
    let entities = vec![(true, true), (false, true), (true, false), (true, true), (false, false)];
    assert_eq!(count_total_and_remaining_gems(&entities), (3, 2));
    assert_eq!(gem_counter_message(3, 3), None);
    assert_eq!(gem_counter_message(0, 0), None);
    assert_eq!(gem_counter_message(3, 0), Some(GemCounterMessage::AllCollected));
    assert_eq!(gem_counter_message(3, 1), Some(GemCounterMessage::OneRemains));
    assert_eq!(gem_counter_message(5, 2), Some(GemCounterMessage::SomeRemain(2)));
}

#[test]
fn z_order_is_stable() {
    let sorted = sort_by_z_index(&vec![(1, 5), (2, -1), (3, 5), (4, 0), (5, -1)]);
    assert_eq!(sorted, vec![(2, -1), (5, -1), (4, 0), (1, 5), (3, 5)]);
    let mut system = ZIndexedDrawingSystem::with_capacity(4);
    assert!(system.entity_z_indices().is_empty());
    system.update_entity_z_indices(&vec![(7, ZIndexComponent::new(600).value()), (8, ZIndexComponent::default().value())]);
    assert_eq!(system.entity_z_indices(), &vec![(8, 0), (7, 600)]);
}

#[test]
fn pushers_are_collected_in_order() {
    let mut push = PushSystem::with_capacity(3);
    push.collect_pushers(&vec![(3, true), (1, false), (2, true)]);
    assert_eq!(push.entities_to_process(), &vec![3, 2]);
    push.collect_pushers(&vec![]);
    assert!(push.entities_to_process().is_empty());
}

#[test]
fn collision_resolution_gives_up_after_thirty_displacements() {
    let mut calls = Vec::new();
    let result = collision_resolution_loop(|d| {
        calls.push(d);
        d < 3
    });
    assert_eq!(result, CollisionResolutionResult { displacements: 3, aborted: false });
    assert_eq!(calls, vec![0, 1, 2, 3]);
    let result = collision_resolution_loop(|_| true);
    assert_eq!(result, CollisionResolutionResult { displacements: 31, aborted: true });
}

#[test]
fn collision_flags() {
    let env = CollisionFlags::environment();
    let player = CollisionFlags::player_only();
    assert!(env.intersects(env));
    assert!(!env.intersects(player));
    assert!(env.union(player).intersects(player));
    assert_eq!(CollisionFlags::default(), env);
    assert!(CollisionFlags::empty().is_empty());
}

#[test]
fn looping_frames_wrap() {
    assert_eq!(looping_frame_number(10, 4), 2);
    assert_eq!(looping_frame_number(3, 8), 3);
    assert_eq!(looping_frame_number(u64::MAX, 1), 0);
}

#[test]
fn glyphs_are_found_row_by_row() {
    assert_eq!(glyph_source(' ', 16, 6, 8), Some((0, 0)));
    assert_eq!(glyph_source('A', 16, 6, 8), Some((6, 16)));
    assert_eq!(glyph_source('~', 16, 6, 8), Some((84, 40)));
    assert_eq!(glyph_source('é', 16, 6, 8), None);
}

#[test]
fn animation_stops_on_its_last_frame() {
    assert_eq!(animation_frame(0, 3, false), 0);
    assert_eq!(animation_frame(2, 3, false), 2);
    assert_eq!(animation_frame(7, 3, false), 3);
    assert!(!animation_is_done(3, 3));
    assert!(animation_is_done(4, 3));
}

#[test]
fn reversed_animation_counts_down() {
    assert_eq!(animation_frame(0, 3, true), 3);
    assert_eq!(animation_frame(1, 3, true), 2);
    assert_eq!(animation_frame(9, 3, true), 0);
}
