use rebar::flyout::{accepts_generation, Generational};
use rebar::flyout::{FlyoutAction, FlyoutState, WallpaperWatch, WidgetKind};

fn is_show(a: &FlyoutAction<u32>, w: u32, g: u64) -> bool {
    matches!(a, FlyoutAction::Show { window, generation } if *window == w && *generation == g)
}

#[test]
fn first_click_opens_a_window() {
    let mut f: FlyoutState<u32> = FlyoutState::new();
    let a = f.select_widget(WidgetKind::Network, true);
    assert!(matches!(a, FlyoutAction::OpenWindow));
    assert!(f.target_open);
    assert!(!f.visible);
    assert_eq!(f.generation, 1);
    assert_eq!(f.active_widget, Some(WidgetKind::Network));
    f.window_created(7);
    let a = f.window_opened(7);
    assert!(matches!(a, FlyoutAction::Sync { window: 7, visible: true, generation: 1 }));
    assert!(f.visible);
}

#[test]
fn click_without_anchor_does_nothing_but_select() {
    let mut f: FlyoutState<u32> = FlyoutState::new();
    let a = f.select_widget(WidgetKind::Audio, false);
    assert!(matches!(a, FlyoutAction::AnchorNotReady));
    assert!(!f.target_open);
    assert_eq!(f.generation, 0);
    assert_eq!(f.active_widget, Some(WidgetKind::Audio));
}

#[test]
fn second_click_closes_and_other_widget_switches() {
    let mut f: FlyoutState<u32> = FlyoutState::new();
    f.window_created(3);
    let a = f.select_widget(WidgetKind::System, true);
    assert!(is_show(&a, 3, 1));
    let a = f.select_widget(WidgetKind::Media, true);
    assert!(is_show(&a, 3, 2));
    assert_eq!(f.active_widget, Some(WidgetKind::Media));
    let a = f.select_widget(WidgetKind::Media, true);
    assert!(matches!(a, FlyoutAction::Hide { window: 3, generation: 3 }));
    assert!(!f.target_open);
    assert!(f.visible);
}

#[test]
fn frames_hide_a_closed_flyout_once_still() {
    let mut f: FlyoutState<u32> = FlyoutState::new();
    f.window_created(9);
    f.select_widget(WidgetKind::Device, true);
    f.close_flyout();
    let a = f.tick(true);
    assert!(matches!(a, FlyoutAction::Sync { window: 9, visible: true, generation: 2 }));
    assert!(f.visible);
    let a = f.tick(false);
    assert!(matches!(a, FlyoutAction::Sync { window: 9, visible: false, generation: 2 }));
    assert!(!f.visible);
    assert!(matches!(f.tick(false), FlyoutAction::Nothing));
}

#[test]
fn focus_loss_and_close_requests() {
    let mut f: FlyoutState<u32> = FlyoutState::new();
    f.window_created(1);
    f.select_widget(WidgetKind::System, true);
    assert!(matches!(f.unfocused(false), FlyoutAction::Nothing));
    assert!(f.target_open);
    assert!(matches!(f.unfocused(true), FlyoutAction::Hide { .. }));
    assert!(!f.target_open);
    assert!(matches!(f.close_requested(), FlyoutAction::Nothing));
    f.window_closed();
    assert_eq!(f.window, None);
    assert!(!f.visible);
    assert!(matches!(f.refresh_visible_flyout(), FlyoutAction::Nothing));
    assert!(matches!(f.sync_flyout_size(), FlyoutAction::Nothing));
}

#[test]
fn resizing_follows_visibility() {
    let mut f: FlyoutState<u32> = FlyoutState::new();
    f.window_created(4);
    assert!(matches!(f.sync_flyout_size(), FlyoutAction::Resize { window: 4 }));
    f.select_widget(WidgetKind::Network, true);
    assert!(matches!(f.sync_flyout_size(), FlyoutAction::ResizeAndSync { window: 4, generation: 1 }));
    assert!(matches!(f.refresh_visible_flyout(), FlyoutAction::Sync { window: 4, visible: true, generation: 1 }));
}

#[test]
fn generation_skips_zero() {
    let mut f: FlyoutState<u32> = FlyoutState::new();
    f.generation = u64::MAX;
    assert_eq!(f.next_flyout_generation(), 1);
    assert_eq!(f.next_flyout_generation(), 2);
}

#[test]
fn wallpaper_checks_wait_for_reloads() {
    let mut w = WallpaperWatch::new();
    assert!(!w.check());
    w.palette_loaded();
    assert!(w.check());
    assert!(!w.signature_loaded(false));
    assert!(w.check());
    assert!(w.signature_loaded(true));
    assert!(!w.check());
    w.palette_loaded();
    assert!(w.check());
}

#[test]
fn frames_run_until_a_closed_flyout_is_hidden() {
    let mut f: FlyoutState<u32> = FlyoutState::new();
    assert!(!f.needs_frames(false));
    assert!(f.needs_frames(true));
    f.window_created(4);
    f.select_widget(WidgetKind::Network, true);
    assert!(!f.needs_frames(false));
    f.close_flyout();
    assert!(f.needs_frames(false));
    f.tick(false);
    assert!(!f.needs_frames(false));
}

#[test]
fn stale_generations_are_dropped() {
    assert!(accepts_generation(3, 3));
    assert!(accepts_generation(3, 4));
    assert!(!accepts_generation(3, 2));
    assert!(accepts_generation(0, 1));
}

#[test]
fn window_updates_keep_the_newest_generation() {
    let mut w = Generational::new("open", 2);
    assert!(!w.offer("stale", 1));
    assert_eq!((w.value, w.generation), ("open", 2));
    assert!(w.offer("same", 2));
    assert_eq!((w.value, w.generation), ("same", 2));
    assert!(w.offer("closing", 5));
    assert_eq!((w.value, w.generation), ("closing", 5));
}
