use bell::configuration::EventTrigger;
use bell::notification::SurfaceId;
use bell::wayland::{
    format_shm_name, handle_pointer_event, ButtonOutcome, DrawAction, LeaveOutcome,
    LinuxButtonCode, PointerFocus, PoolLayout, SurfaceState, WaylandState,
};

fn surface(id: u64) -> SurfaceState {
    SurfaceState::new(SurfaceId(id), "eDP-1".to_owned(), 260, 125)
}

#[test]
fn button_codes() {
    assert_eq!(LinuxButtonCode::from(0x110u32), LinuxButtonCode::Left);
    assert_eq!(LinuxButtonCode::from(0x111u32), LinuxButtonCode::Right);
    assert_eq!(LinuxButtonCode::from(0x112u32), LinuxButtonCode::Middle);
    assert_eq!(LinuxButtonCode::from(0x113u32), LinuxButtonCode::Unknown(0x113));
    assert_eq!(EventTrigger::try_from(LinuxButtonCode::Right), Ok(EventTrigger::OnRightClick));
    assert_eq!(EventTrigger::try_from(LinuxButtonCode::Unknown(7)), Err(7));
    assert_eq!(handle_pointer_event(LinuxButtonCode::Left, true), Ok(Some(EventTrigger::OnLeftClick)));
    assert_eq!(handle_pointer_event(LinuxButtonCode::Left, false), Ok(None));
}

#[test]
fn shm_names_are_zero_padded() {
    assert_eq!(format_shm_name(0), "/wl_shm_bell-00000000\0");
    assert_eq!(format_shm_name(42), "/wl_shm_bell-00000042\0");
    assert_eq!(format_shm_name(65535), "/wl_shm_bell-00065535\0");
}

#[test]
fn pool_sizes() {
    let p = PoolLayout { width: 260, height: 125, bit_depth: 4, buffer_scale: 2 };
    assert_eq!(p.page_size(), Some(130000));
    assert_eq!(p.size(), Some(520000));
    assert_eq!(p.buffer_geometry(), Some((520, 250, 2080)));
    let huge = PoolLayout { width: 70000, height: 70000, bit_depth: 4, buffer_scale: 1 };
    assert_eq!(huge.page_size(), None);
}

#[test]
fn surfaces_draw_when_requested_released_and_configured() {
    let mut s = surface(1);
    assert_eq!(s.request_draw(), DrawAction::Nothing);
    assert_eq!(s.set_configured(), DrawAction::Draw);
    assert!(!s.is_dirty);
    assert_eq!(s.request_draw(), DrawAction::Nothing);
    assert_eq!(s.set_ready_to_draw(), DrawAction::Draw);
    s.destroy_later();
    assert!(s.will_destroy_later());
    assert_eq!(s.request_draw(), DrawAction::Nothing);
    assert_eq!(s.set_ready_to_draw(), DrawAction::Destroy);
    assert!(s.is_destroyed());
    assert!(!s.will_destroy_later());
    s.destroy_later();
    assert!(!s.will_destroy_later());
}

#[test]
fn buffer_scale_makes_a_new_pool_once() {
    let mut s = surface(1);
    assert_eq!(s.get_buffer_scale(), 1);
    assert_eq!(s.write(), None);
    assert!(s.set_buffer_scale(1));
    assert!(!s.set_buffer_scale(1));
    assert!(s.set_buffer_scale(2));
    assert_eq!(s.get_buffer_scale(), 2);
    assert_eq!(s.damage_extent(), Some((520, 250)));
    assert_eq!(s.write(), Some(DrawAction::Nothing));
}

#[test]
fn marking_for_destruction_dirties_every_surface() {
    let mut w = WaylandState::new();
    w.insert_surface(surface(1));
    w.insert_surface(surface(2));
    w.surfaces[0].is_dirty = false;
    w.surfaces[1].is_dirty = false;
    assert!(w.mark_surface_for_destruction(SurfaceId(2)));
    assert!(w.surfaces.iter().all(|s| s.is_dirty));
    assert!(w.get_surface(SurfaceId(2)).unwrap().will_destroy_later());
    assert!(!w.mark_surface_for_destruction(SurfaceId(9)));
    let gone = w.destroy_scheduled_surfaces();
    assert_eq!(gone.len(), 1);
    assert_eq!(gone[0].id, SurfaceId(2));
    assert_eq!(w.surfaces.len(), 1);
}

#[test]
fn surface_events_by_id() {
    let mut w = WaylandState::new();
    w.insert_surface(surface(1));
    assert_eq!(w.set_configured(SurfaceId(1)), Some(DrawAction::Nothing));
    assert_eq!(w.set_buffer_scale(SurfaceId(1), 1), Some(true));
    assert_eq!(w.write(SurfaceId(1)), Some(Some(DrawAction::Draw)));
    assert_eq!(w.set_ready_to_draw(SurfaceId(3)), None);
    w.add_output("eDP-1".to_owned());
    w.add_output("eDP-1".to_owned());
    assert_eq!(w.get_output_names(), &vec!["eDP-1".to_owned()]);
    w.await_output_data();
    assert_eq!(w.pending_data_amount, 2);
    w.data_received();
    w.data_received();
    assert_eq!(w.pending_data_amount, 0);
}

#[test]
fn clicks_are_queued_per_surface() {
    let mut w = WaylandState::new();
    w.insert_surface(surface(1));
    assert_eq!(w.handle_pointer_button(SurfaceId(1), 0x110, true), ButtonOutcome::Recorded(EventTrigger::OnLeftClick));
    assert_eq!(w.handle_pointer_button(SurfaceId(1), 0x112, true), ButtonOutcome::Recorded(EventTrigger::OnMiddleClick));
    assert_eq!(w.handle_pointer_button(SurfaceId(1), 0x110, false), ButtonOutcome::Released);
    assert_eq!(w.handle_pointer_button(SurfaceId(1), 0x200, true), ButtonOutcome::UnknownButton(0x200));
    assert_eq!(w.handle_pointer_button(SurfaceId(4), 0x110, true), ButtonOutcome::NoSurface);
    let queued = w.consume_trigger_events();
    assert_eq!(queued.len(), 1);
    assert_eq!(queued[0].0, SurfaceId(1));
    assert_eq!(queued[0].1, vec![EventTrigger::OnLeftClick, EventTrigger::OnMiddleClick]);
    assert!(w.consume_trigger_events().is_empty());
}

#[test]
fn pointer_focus_follows_enter_and_leave() {
    let mut p = PointerFocus::new();
    assert_eq!(p.leave(1, SurfaceId(1)), LeaveOutcome::NotEntered);
    p.enter(5, SurfaceId(1));
    assert_eq!(p.button_target(5), None);
    assert_eq!(p.button_target(6), Some(SurfaceId(1)));
    assert_eq!(p.leave(6, SurfaceId(2)), LeaveOutcome::Mismatch);
    assert_eq!(p.leave(4, SurfaceId(1)), LeaveOutcome::Mismatch);
    assert_eq!(p.leave(7, SurfaceId(1)), LeaveOutcome::Left);
    assert_eq!(p.button_target(9), None);
}
