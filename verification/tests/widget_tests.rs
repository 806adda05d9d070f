use tw_components::accordion::content_height;
use tw_components::accordion::AccordionState;
use tw_components::carousel::CarouselState;
use tw_components::formlist::FormListState;
use tw_components::pagination;
use tw_components::theme::ThemeMode;
use tw_components::toast::Toast;
use tw_components::toast::ToastAnimation;
use tw_components::toast::ToastColor;
use tw_components::toast::ToastState;
use tw_components::toast::ToasterState;
use tw_components::toggles::DropdownState;
use tw_components::toggles::HoverState;
use tw_components::toggles::ModalState;
use tw_components::toggles::SidePanelState;

#[test]
fn accordion_single_open_replaces() {
    let mut acc = AccordionState::new(false);
    assert!(!acc.is_active("a"));
    acc.on_trigger_click("a".to_string());
    assert!(acc.is_active("a"));
    acc.on_trigger_click("b".to_string());
    assert!(acc.is_active("b"));
    assert!(!acc.is_active("a"));
    assert_eq!(acc.active_items, vec!["b".to_string()]);
}

#[test]
fn accordion_multi_open_accumulates() {
    let mut acc = AccordionState::new(true);
    acc.on_trigger_click("a".to_string());
    acc.on_trigger_click("b".to_string());
    assert!(acc.is_active("a"));
    assert!(acc.is_active("b"));
    acc.on_trigger_click("a".to_string());
    assert!(!acc.is_active("a"));
    assert!(acc.is_active("b"));
}

#[test]
fn accordion_remove_keeps_order() {
    let mut acc = AccordionState::new(true);
    acc.add_id("x".to_string());
    acc.add_id("y".to_string());
    acc.add_id("x".to_string());
    acc.add_id("z".to_string());
    acc.remove_id("x".to_string());
    assert_eq!(acc.active_items, vec!["y".to_string(), "z".to_string()]);
    acc.set_id("only".to_string());
    assert_eq!(acc.active_items, vec!["only".to_string()]);
}

#[test]
fn accordion_labels() {
    let mut acc = AccordionState::new(false);
    assert_eq!(acc.active_label("a"), "inactive");
    acc.add_id("a".to_string());
    assert_eq!(acc.active_label("a"), "active");
}

#[test]
fn formlist_counter_is_clamped() {
    let mut list = FormListState::new(1);
    assert_eq!(list.get_max_size(), 1);
    assert_eq!(list.get_current_size(), 1);
    list.set_max_size(3);
    list.add_one();
    list.add_one();
    assert_eq!(list.get_current_size(), 3);
    list.add_one();
    assert_eq!(list.get_current_size(), 3);
    list.remove_one();
    list.remove_one();
    assert_eq!(list.get_current_size(), 1);
    list.remove_one();
    assert_eq!(list.get_current_size(), 1);
}

#[test]
fn toggles_flip_and_label() {
    let mut modal = ModalState::new(false);
    modal.toggle();
    assert!(modal.is_active);
    assert_eq!(modal.state_label(), "active");
    modal.toggle();
    assert_eq!(modal.state_label(), "inactive");

    let mut hover = HoverState::new();
    assert!(!hover.is_active);
    hover.open();
    assert!(hover.is_active);
    hover.close();
    assert!(!hover.is_active);
    hover.toggle();
    assert!(hover.is_active);

    let mut drop = DropdownState::new();
    assert!(!drop.get_is_active());
    drop.toggle();
    assert!(drop.get_is_active());
    drop.close();
    assert!(!drop.get_is_active());

    let mut panel = SidePanelState::new(true);
    assert!(panel.is_active);
    panel.close();
    assert!(!panel.is_active);
    panel.open();
    assert!(panel.is_active);
    panel.toggle();
    assert_eq!(panel.state_label(), "inactive");
}

#[test]
fn theme_mode_toggles_between_dark_and_light() {
    let mode = ThemeMode::default();
    assert!(mode.is_dark());
    assert!(!mode.is_light());
    assert_eq!(mode.as_str(), "dark");
    let flipped = mode.toggle();
    assert!(flipped.is_light());
    assert_eq!(flipped.as_str(), "light");
    assert_eq!(flipped.toggle(), ThemeMode::Dark);
}

#[test]
fn carousel_scroll_steps_and_wraps() {
    let mut c = CarouselState::new(0, true, 0);
    c.increment_carousel_size();
    c.increment_carousel_size();
    c.increment_carousel_size();
    assert_eq!(c.carousel_size, 3);
    c.scroll(true);
    assert_eq!(c.current_item_key, 1);
    c.scroll(true);
    assert_eq!(c.current_item_key, 2);
    c.scroll(true);
    assert_eq!(c.current_item_key, 0);
    c.scroll(false);
    assert_eq!(c.current_item_key, 2);
}

#[test]
fn carousel_without_wrap_stops_at_ends() {
    let mut c = CarouselState::new(0, false, 0);
    c.increment_carousel_size();
    c.increment_carousel_size();
    c.scroll(false);
    assert_eq!(c.current_item_key, 0);
    c.scroll(true);
    c.scroll(true);
    assert_eq!(c.current_item_key, 1);
}

#[test]
fn carousel_translation_is_key_times_width() {
    let mut c = CarouselState::new(2, false, 0);
    c.set_content_size(640);
    c.translate();
    assert_eq!(c.get_current_translation(), 1280);
    c.set_current_translation(5);
    assert_eq!(c.get_current_translation(), 5);
    assert!(c.is_active(2));
    assert_eq!(c.active_label(2), "active");
    assert_eq!(c.active_label(0), "inactive");
}

#[test]
fn pagination_page_count_and_window() {
    assert_eq!(pagination::max_pages(0, 10), 1);
    assert_eq!(pagination::max_pages(95, 10), 10);
    assert_eq!(pagination::max_pages(100, 10), 11);
    assert_eq!(pagination::page_window(1, 10), (1, 2));
    assert_eq!(pagination::page_window(5, 10), (4, 6));
    assert_eq!(pagination::page_window(10, 10), (9, 10));
    assert_eq!(pagination::page_window(0, 3), (1, 1));
}

#[test]
fn pagination_jump_shortcuts() {
    assert!(!pagination::shows_leading_jump(1));
    assert!(!pagination::shows_leading_jump(2));
    assert!(pagination::shows_leading_jump(3));
    assert!(pagination::shows_trailing_jump(1, 10));
    assert!(pagination::shows_trailing_jump(8, 10));
    assert!(!pagination::shows_trailing_jump(9, 10));
    assert!(!pagination::shows_trailing_jump(1, 1));
}

#[test]
fn toast_defaults_and_builders() {
    let t: Toast<&str> = Toast::new("id-1".to_string(), "body");
    assert_eq!(t.id, "id-1");
    assert_eq!(t.title, "");
    assert_eq!(t.duration_in_ms, 6000);
    assert!(t.is_closable);
    assert_eq!(t.color, ToastColor::Neutral);
    assert_eq!(t.animation, ToastAnimation::Full);
    assert_eq!(t.state, ToastState::Opening);

    let t = t
        .title("Hi".to_string())
        .color(ToastColor::Secondary)
        .animation(ToastAnimation::Light)
        .duration_in_ms(250)
        .is_closable(false)
        .description("other");
    assert_eq!(t.title, "Hi");
    assert_eq!(t.color, ToastColor::Secondary);
    assert_eq!(t.animation, ToastAnimation::Light);
    assert_eq!(t.duration_in_ms, 250);
    assert!(!t.is_closable);
    assert_eq!(t.description, "other");
}

#[test]
fn toast_shorthand_constructors() {
    let s: Toast<u8> = Toast::success("a".to_string(), 1);
    assert_eq!(s.title, "Success");
    assert_eq!(s.color, ToastColor::Success);
    let e: Toast<u8> = Toast::error("b".to_string(), 2);
    assert_eq!(e.title, "Error");
    assert_eq!(e.color, ToastColor::Destructive);
    let l: Toast<u8> = Toast::loading("c".to_string(), 3);
    assert_eq!(l.title, "Loading");
    assert_eq!(l.color, ToastColor::Primary);
}

#[test]
fn toast_labels() {
    assert_eq!(ToastColor::Neutral.as_str(), "default");
    assert_eq!(ToastColor::Primary.as_str(), "primary");
    assert_eq!(ToastColor::Secondary.as_str(), "secondary");
    assert_eq!(ToastColor::Destructive.as_str(), "destructive");
    assert_eq!(ToastColor::Success.as_str(), "success");
    assert_eq!(ToastAnimation::Off.as_str(), "none");
    assert_eq!(ToastAnimation::Light.as_str(), "light");
    assert_eq!(ToastAnimation::Full.as_str(), "full");
    assert_eq!(ToastState::Opening.as_str(), "opening");
    assert_eq!(ToastState::Open.as_str(), "open");
    assert_eq!(ToastState::Closing.as_str(), "closing");
    assert_eq!(ToastState::default(), ToastState::Opening);
    assert_eq!(ToastAnimation::default(), ToastAnimation::Full);
    assert_eq!(ToastColor::default(), ToastColor::Neutral);
}

#[test]
fn accordion_content_height_decision() {
    let given = "120px".to_string();
    let measured = "80px".to_string();
    let empty = String::new();
    assert_eq!(content_height(false, &given, &measured), "0");
    assert_eq!(content_height(true, &given, &measured), "120px");
    assert_eq!(content_height(true, &empty, &measured), "80px");
}

#[test]
fn toast_open_phase_duration() {
    let t: Toast<u8> = Toast::new("i".to_string(), 0).duration_in_ms(6000);
    assert_eq!(t.open_phase_ms(), 5850);
    let s: Toast<u8> = Toast::new("j".to_string(), 0).duration_in_ms(100);
    assert_eq!(s.open_phase_ms(), 0);
}

#[test]
fn toaster_render_swaps_shape_onto_screen() {
    let shape: Toast<u8> = Toast::new("t-1".to_string(), 0).title("First".to_string());
    let mut toaster = ToasterState::new(shape);
    assert!(toaster.toast.is_none());
    let fresh: Toast<u8> = Toast::new("t-2".to_string(), 0);
    toaster.render(fresh);
    assert_eq!(toaster.toast.as_ref().map(|t| t.title.as_str()), Some("First"));
    assert_eq!(toaster.shape.id, "t-2");
    toaster.dismiss();
    assert!(toaster.toast.is_none());
    assert_eq!(toaster.shape.id, "t-2");
}
