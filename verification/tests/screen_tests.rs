use funpedals::chain::locate_param;
use funpedals::screen::{page_count, param_tab_width, plot_heights, Pointer, Screen, ScreenAction};

#[test]
fn pages_of_ten() {
    assert_eq!(page_count(0), 1);
    assert_eq!(page_count(1), 1);
    assert_eq!(page_count(10), 1);
    assert_eq!(page_count(11), 2);
    assert_eq!(page_count(20), 2);
    assert_eq!(page_count(21), 3);
}

#[test]
fn layout_sizes() {
    assert_eq!(plot_heights(), (214, 214));
    assert_eq!(param_tab_width(0), 100);
    assert_eq!(param_tab_width(3), 240);
    assert_eq!(param_tab_width(7), 102);
    assert_eq!(param_tab_width(720), 1);
    assert_eq!(param_tab_width(721), 0);
    assert_eq!(param_tab_width(100_000), 0);
}

#[test]
fn clamp_brings_page_back() {
    let mut s = Screen::new();
    s.preset_page = 4;
    s.clamp_page(25);
    assert_eq!(s.preset_page, 2);
    s.clamp_page(25);
    assert_eq!(s.preset_page, 2);
    s.clamp_page(0);
    assert_eq!(s.preset_page, 0);
}

#[test]
fn main_screen_taps() {
    let mut s = Screen::new();
    assert_eq!(s.on_main_press(10, 10, 20), ScreenAction::Minimize);
    assert_eq!(s.on_main_press(100, 100, 20), ScreenAction::Nothing);
    // second page tab of two (each 110 wide)
    assert_eq!(s.on_main_press(700, 10, 20), ScreenAction::Nothing);
    assert_eq!(s.preset_page, 1);
    // third row on page two: preset 12
    assert_eq!(s.on_main_press(600, 30 + 2 * 41 + 5, 20), ScreenAction::LoadPreset(12));
    assert_eq!(s.selected, Some(12));
    // past the end of the list
    assert_eq!(s.on_main_press(600, 30 + 2 * 41 + 5, 12), ScreenAction::Nothing);
    assert_eq!(s.on_main_press(600, 460, 20), ScreenAction::OpenParams);
    assert!(s.param_mode);
    assert_eq!(s.param_tab, 0);
    let mut t = Screen::new();
    assert_eq!(t.on_main_press(750, 460, 20), ScreenAction::ReloadPresets);
    assert!(!t.param_mode);
}

#[test]
fn last_pixel_rows_reach_the_next_page() {
    let mut s = Screen::new();
    // rows are 41 high and the list 414: its last four pixels make an eleventh row
    assert_eq!(s.on_main_press(600, 30 + 411, 20), ScreenAction::LoadPreset(10));
    assert_eq!(s.selected, Some(10));
    assert_eq!(s.on_main_press(600, 30 + 409, 20), ScreenAction::LoadPreset(9));
    assert_eq!(s.on_main_press(600, 30 + 411, 10), ScreenAction::Nothing);
}

#[test]
fn param_screen_tabs_and_buttons() {
    let counts = vec![1usize, 7, 5];
    let mut s = Screen::new();
    s.param_mode = true;
    assert_eq!(s.on_param_event(Pointer::MousePress, 250, 10, &counts), ScreenAction::Nothing);
    assert_eq!(s.param_tab, 1);
    assert_eq!(s.on_param_event(Pointer::MousePress, -50, 10, &counts), ScreenAction::Nothing);
    assert_eq!(s.param_tab, 0);
    assert_eq!(s.on_param_event(Pointer::MousePress, 790, 10, &counts), ScreenAction::Nothing);
    assert_eq!(s.param_tab, 0);
    assert_eq!(s.on_param_event(Pointer::FingerPress, 100, 470, &counts), ScreenAction::SaveParams);
    assert!(!s.param_mode);
    s.param_mode = true;
    assert_eq!(s.on_param_event(Pointer::MousePress, 500, 470, &counts), ScreenAction::CancelParams);
    assert!(!s.param_mode);
    assert_eq!(s.drag_param, None);
}

#[test]
fn param_screen_sliders() {
    let counts = vec![1usize, 7, 5];
    let mut s = Screen::new();
    s.param_mode = true;
    s.param_tab = 1;
    // third slider of the second tab: track at 44 + 2 * 56 + 30 = 186
    assert_eq!(
        s.on_param_event(Pointer::MousePress, 300, 190, &counts),
        ScreenAction::SetParam { index: 3, local: 2 }
    );
    assert_eq!(s.drag_param, Some(3));
    // dragging far away keeps the held slider
    assert_eq!(
        s.on_param_event(Pointer::MouseDrag, 300, 400, &counts),
        ScreenAction::SetParam { index: 3, local: 2 }
    );
    // between two tracks
    assert_eq!(s.on_param_event(Pointer::MousePress, 300, 214, &counts), ScreenAction::Nothing);
    // a finger reaches 20 pixels; the mouse 16
    assert_eq!(
        s.on_param_event(Pointer::FingerMove, 300, 186 + 19, &counts),
        ScreenAction::SetParam { index: 3, local: 2 }
    );
    assert_eq!(s.on_param_event(Pointer::MousePress, 300, 186 + 17, &counts), ScreenAction::Nothing);
}

#[test]
fn page_tab_labels() {
    assert_eq!(funpedals::screen::page_span(0, 25), (1, 10));
    assert_eq!(funpedals::screen::page_span(2, 25), (21, 25));
    assert_eq!(funpedals::screen::page_span(0, 0), (1, 0));
}

#[test]
fn slider_rows_that_fit() {
    assert_eq!(funpedals::screen::slider_rows_shown(3), 3);
    assert_eq!(funpedals::screen::slider_rows_shown(7), 7);
    // the equalizer's seven rows fit; an eighth would not
    assert_eq!(funpedals::screen::slider_rows_shown(8), 7);
    assert_eq!(funpedals::screen::slider_rows_shown(0), 0);
}

#[test]
fn every_main_press_keeps_a_valid_page() {
    for n in [0usize, 1, 10, 11, 25, 120] {
        for page in 0..page_count(n) {
            for x in (0..800).step_by(7) {
                for y in (0..480).step_by(5) {
                    let mut s = Screen::new();
                    s.preset_page = page;
                    let a = s.on_main_press(x, y, n);
                    assert!(s.preset_page < page_count(n));
                    if let ScreenAction::LoadPreset(i) = a {
                        assert!(i < n);
                        assert_eq!(s.selected, Some(i));
                    }
                }
            }
        }
    }
}

#[test]
fn every_slider_sets_a_parameter_of_its_tab() {
    let counts = vec![1usize, 7, 5];
    for tab in 0..counts.len() {
        for y in 44..436 {
            for ev in [Pointer::MousePress, Pointer::FingerPress, Pointer::FingerMove] {
                let mut s = Screen::new();
                s.param_mode = true;
                s.param_tab = tab;
                if let ScreenAction::SetParam { index, local } = s.on_param_event(ev, 300, y, &counts) {
                    assert_eq!(locate_param(&counts, index), Some((tab, local)));
                }
            }
        }
    }
}
