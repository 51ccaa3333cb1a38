//! The touchscreen: its layout and what a tap or a drag does on the main
//! screen (preset browser) and on the parameter screen.

use vstd::prelude::*;
use crate::chain::{sum_counts, offset_of, lands_at, param_offset};

verus! {

/// Width of the screen in pixels.
pub const WIDTH: i32 = 800;
/// Height of the screen in pixels.
pub const HEIGHT: i32 = 480;
/// Width of the left area (waveform and spectrum).
pub const LEFT_W: i32 = 580;
/// Width of the right column (preset browser).
pub const RIGHT_W: i32 = 220;
/// Height of the title bar.
pub const TITLE_H: i32 = 30;
/// Height of the frequency label strip under the spectrum.
pub const LABEL_H: i32 = 22;
/// Height of the [PARAM] [RELOAD] buttons.
pub const BTN_H: i32 = 36;
/// Height of the page tabs above the preset buttons.
pub const PAGE_TAB_H: i32 = 30;
/// Height of the list of preset buttons.
pub const LIST_H: i32 = 414;
/// Height of one preset button.
pub const ROW_H: i32 = 41;
/// Presets on one page.
pub const PAGE_SIZE: usize = 10;
/// Height of the tab bar of the parameter screen.
pub const PARAM_TAB_H: i32 = 44;
/// Height of the [SAVE] [CANCEL] bar of the parameter screen.
pub const PARAM_BOT_H: i32 = 44;
/// Height of one slider row.
pub const SLIDER_H: i32 = 56;
/// Distance from the top of a slider row to its track.
pub const TRACK_OFFSET: i32 = 30;

/// The state of the screen between events.
pub struct Screen {
    /// Whether the parameter screen is shown (else the main screen).
    pub param_mode: bool,
    /// The selected tab (effect) of the parameter screen.
    pub param_tab: usize,
    /// The chain-wide index of the parameter whose slider is being dragged.
    pub drag_param: Option<usize>,
    /// The position of the highlighted preset.
    pub selected: Option<usize>,
    /// The page of the preset browser.
    pub preset_page: usize,
}

/// How a pointer event came.
#[derive(Clone, Copy, Debug, PartialEq, Eq, Structural)]
pub enum Pointer {
    /// A mouse button went down.
    MousePress,
    /// The mouse moved with its left button held.
    MouseDrag,
    /// A finger touched the screen.
    FingerPress,
    /// A finger moved on the screen.
    FingerMove,
}

/// What the program around the screen is asked to do after an event.
#[derive(Clone, Copy, Debug, PartialEq, Eq, Structural)]
pub enum ScreenAction {
    /// Nothing beyond the new state.
    Nothing,
    /// Minimize the window.
    Minimize,
    /// Build the preset at this position and make it the current effect.
    LoadPreset(usize),
    /// Record the current parameter values and show the parameter screen.
    OpenParams,
    /// Read the preset file again.
    ReloadPresets,
    /// Save the current parameters under the current chain's name.
    SaveParams,
    /// Put back the recorded parameter values.
    CancelParams,
    /// Set parameter `index` of the chain, the slider `local` of the current
    /// tab, from the pointer's horizontal position.
    SetParam { index: usize, local: usize },
}

/// The number of pages of the preset browser.
pub open spec fn page_count_of(n: nat) -> nat {
    if n == 0 {
        1
    } else {
        ((n + 9) / 10) as nat
    }
}

/// The number of pages of the preset browser: ten presets a page, and at
/// least one page.
pub fn page_count(n_presets: usize) -> (r: usize)
    requires
        n_presets <= usize::MAX - 9,
    ensures
        r == page_count_of(n_presets as nat),
        r >= 1,
{
    let p = (n_presets + 9) / 10;
    if p < 1 {
        1
    } else {
        p
    }
}

/// The width of one page tab.
pub open spec fn page_tab_w(n: nat) -> int {
    (RIGHT_W as int) / (page_count_of(n) as int)
}

/// The width of one tab of the parameter screen.
pub open spec fn param_tab_w(n_tabs: nat) -> int {
    if n_tabs > 0 {
        (WIDTH - 80) / (n_tabs as int)
    } else {
        100
    }
}

/// The width of one tab of the parameter screen (the tabs share the width
/// left of an 80-pixel margin).
pub fn param_tab_width(n_tabs: usize) -> (r: i32)
    requires
        n_tabs <= u32::MAX,
    ensures
        r == param_tab_w(n_tabs as nat),
        n_tabs > 720 ==> r == 0,
{
    if n_tabs == 0 {
        100
    } else if n_tabs > 720 {
        assert(720int / (n_tabs as int) == 0) by (nonlinear_arith)
            requires
                n_tabs > 720,
        ;
        0
    } else {
        (720 / n_tabs) as i32
    }
}

/// The height of the waveform area.
pub open spec fn wave_h() -> int {
    (HEIGHT - TITLE_H - LABEL_H) / 2
}

/// The height of the spectrum area.
pub open spec fn spec_h() -> int {
    HEIGHT - TITLE_H - wave_h() - LABEL_H
}

/// The heights of the waveform area and the spectrum area.
pub fn plot_heights() -> (r: (i32, i32))
    ensures
        r.0 == wave_h(),
        r.1 == spec_h(),
        r.0 + r.1 + TITLE_H + LABEL_H == HEIGHT,
{
    let w = (HEIGHT - TITLE_H - LABEL_H) / 2;
    (w, HEIGHT - TITLE_H - w - LABEL_H)
}

/// The vertical position of the track of slider `i`.
pub open spec fn slider_y(i: int) -> int {
    PARAM_TAB_H + i * SLIDER_H + TRACK_OFFSET
}

/// Whether a point is on the [≡] icon that minimizes the window.
pub open spec fn on_menu_icon(x: int, y: int) -> bool {
    y < TITLE_H && 2 <= x < 42
}

/// The tab of the parameter screen under horizontal position `x`, reading
/// `x / width` with the quotient cut toward zero.
pub open spec fn tab_under(x: int, w: int, n_tabs: nat) -> Option<nat> {
    if x >= 0 && x / w < n_tabs {
        Some((x / w) as nat)
    } else if -w < x < 0 && n_tabs > 0 {
        Some(0)
    } else {
        None
    }
}

/// The distance between two positions.
pub open spec fn dist(a: int, b: int) -> int {
    if a >= b {
        a - b
    } else {
        b - a
    }
}

/// The first slider, from `i` on among `count`, that a pointer at height
/// `y` reaches (within `tol` of its track) or that is being dragged; -1 when
/// there is none.
pub open spec fn first_slider(
    y: int,
    tol: int,
    dragged: Option<usize>,
    off: int,
    count: int,
    i: int,
) -> int
    decreases count - i,
{
    if 0 <= i < count {
        if dragged == Some((off + i) as usize) || dist(y, slider_y(i)) < tol {
            i
        } else {
            first_slider(y, tol, dragged, off, count, i + 1)
        }
    } else {
        -1
    }
}

/// What a press (mouse or finger) on the main screen does. A press on the
/// list picks row `(y - 30) / 41` of the page; the list is 414 pixels high,
/// so its last four pixels, below the tenth button, give row 10: the first
/// preset of the next page.
pub open spec fn main_press(s: Screen, x: int, y: int, n: nat) -> (Screen, ScreenAction) {
    if on_menu_icon(x, y) {
        (s, ScreenAction::Minimize)
    } else if x >= LEFT_W {
        if y < PAGE_TAB_H {
            let p = (x - LEFT_W) / page_tab_w(n);
            if p < page_count_of(n) {
                (Screen { preset_page: p as usize, ..s }, ScreenAction::Nothing)
            } else {
                (s, ScreenAction::Nothing)
            }
        } else if y < PAGE_TAB_H + LIST_H {
            let idx = s.preset_page * 10 + (y - PAGE_TAB_H) / (ROW_H as int);
            if idx < n {
                (
                    Screen { selected: Some(idx as usize), ..s },
                    ScreenAction::LoadPreset(idx as usize),
                )
            } else {
                (s, ScreenAction::Nothing)
            }
        } else if x < LEFT_W + RIGHT_W / 2 {
            (Screen { param_mode: true, param_tab: 0, ..s }, ScreenAction::OpenParams)
        } else {
            (s, ScreenAction::ReloadPresets)
        }
    } else {
        (s, ScreenAction::Nothing)
    }
}

/// What a pointer event on the parameter screen does; `counts` are the
/// parameter counts of its tabs.
pub open spec fn param_event(s: Screen, ev: Pointer, x: int, y: int, counts: Seq<usize>) -> (
    Screen,
    ScreenAction,
) {
    let n_tabs = counts.len();
    let mouse = ev == Pointer::MousePress;
    if ev != Pointer::MouseDrag && y < PARAM_TAB_H {
        match tab_under(x, param_tab_w(n_tabs), n_tabs) {
            Some(t) => (
                Screen {
                    param_tab: t as usize,
                    drag_param: if mouse {
                        None
                    } else {
                        s.drag_param
                    },
                    ..s
                },
                ScreenAction::Nothing,
            ),
            None => (s, ScreenAction::Nothing),
        }
    } else if ev != Pointer::MouseDrag && y >= HEIGHT - PARAM_BOT_H {
        (
            Screen { param_mode: false, drag_param: None, ..s },
            if x < WIDTH / 2 {
                ScreenAction::SaveParams
            } else {
                ScreenAction::CancelParams
            },
        )
    } else if s.param_tab < n_tabs {
        let off = offset_of(counts, s.param_tab as int);
        let tol: int = if mouse || ev == Pointer::MouseDrag {
            16
        } else {
            20
        };
        let dragged = if ev == Pointer::MouseDrag {
            s.drag_param
        } else {
            None
        };
        let i = first_slider(y, tol, dragged, off as int, counts[s.param_tab as int] as int, 0);
        if i >= 0 {
            (
                Screen {
                    drag_param: if ev == Pointer::MousePress || ev == Pointer::MouseDrag {
                        Some((off + i) as usize)
                    } else {
                        s.drag_param
                    },
                    ..s
                },
                ScreenAction::SetParam { index: (off + i) as usize, local: i as usize },
            )
        } else {
            (s, ScreenAction::Nothing)
        }
    } else {
        (s, ScreenAction::Nothing)
    }
}

/// The first slider from `i` on, once it is known whether it exists.
pub proof fn lemma_first_slider(
    y: int,
    tol: int,
    dragged: Option<usize>,
    off: int,
    count: int,
    i: int,
)
    requires
        0 <= i,
    ensures
        first_slider(y, tol, dragged, off, count, i) == -1 || i <= first_slider(
            y,
            tol,
            dragged,
            off,
            count,
            i,
        ) < count,
    decreases count - i,
{
    if 0 <= i < count && !(dragged == Some((off + i) as usize) || dist(y, slider_y(i)) < tol) {
        lemma_first_slider(y, tol, dragged, off, count, i + 1);
    }
}

impl Screen {
    /// The screen at start: the main screen, the first preset highlighted.
    pub fn new() -> (r: Screen)
        ensures
            !r.param_mode,
            r.param_tab == 0,
            r.drag_param is None,
            r.selected == Some(0usize),
            r.preset_page == 0,
    {
        Screen { param_mode: false, param_tab: 0, drag_param: None, selected: Some(0), preset_page: 0 }
    }

    /// Brings the preset page back onto the last page when the list has
    /// become shorter.
    pub fn clamp_page(&mut self, n_presets: usize)
        requires
            n_presets <= usize::MAX - 9,
        ensures
            final(self).preset_page == if old(self).preset_page < page_count_of(n_presets as nat) {
                old(self).preset_page as int
            } else {
                page_count_of(n_presets as nat) - 1
            },
            final(self).preset_page < page_count_of(n_presets as nat),
            final(self).param_mode == old(self).param_mode,
            final(self).param_tab == old(self).param_tab,
            final(self).drag_param == old(self).drag_param,
            final(self).selected == old(self).selected,
    {
        let n_pages = page_count(n_presets);
        if self.preset_page >= n_pages {
            self.preset_page = n_pages - 1;
        }
    }

    /// Handles a press (mouse or finger) on the main screen, with
    /// `n_presets` presets in the list: the [≡] icon, a page tab, a preset
    /// button, [PARAM] or [RELOAD].
    pub fn on_main_press(&mut self, x: i32, y: i32, n_presets: usize) -> (r: ScreenAction)
        requires
            n_presets <= usize::MAX - 9,
            old(self).preset_page < usize::MAX / 10,
            x >= LEFT_W && y < PAGE_TAB_H ==> page_count_of(n_presets as nat) <= RIGHT_W,
        ensures
            (*final(self), r) == main_press(*old(self), x as int, y as int, n_presets as nat),
    {
        if y < TITLE_H && x >= 2 && x < 42 {
            return ScreenAction::Minimize;
        }
        if x >= LEFT_W {
            let n_pages = page_count(n_presets);
            if y < PAGE_TAB_H {
                assert(220int / (n_pages as int) >= 1) by (nonlinear_arith)
                    requires
                        1 <= n_pages <= 220,
                ;
                let tab_w: u32 = (220 / n_pages) as u32;
                let p = (((x - LEFT_W) as u32) / tab_w) as usize;
                if p < n_pages {
                    self.preset_page = p;
                }
                ScreenAction::Nothing
            } else if y < PAGE_TAB_H + LIST_H {
                let row = (((y - PAGE_TAB_H) as u32) / (ROW_H as u32)) as usize;
                let idx = self.preset_page * 10 + row;
                if idx < n_presets {
                    self.selected = Some(idx);
                    ScreenAction::LoadPreset(idx)
                } else {
                    ScreenAction::Nothing
                }
            } else if x < LEFT_W + RIGHT_W / 2 {
                self.param_mode = true;
                self.param_tab = 0;
                ScreenAction::OpenParams
            } else {
                ScreenAction::ReloadPresets
            }
        } else {
            ScreenAction::Nothing
        }
    }

    /// Handles a pointer event on the parameter screen, whose tabs have the
    /// parameter counts `counts`: a tab, [SAVE] or [CANCEL], or a slider.
    pub fn on_param_event(&mut self, ev: Pointer, x: i32, y: i32, counts: &Vec<usize>) -> (r:
        ScreenAction)
        requires
            sum_counts(counts@) <= usize::MAX,
            ev != Pointer::MouseDrag && y < PARAM_TAB_H ==> counts@.len() <= 720,
            old(self).param_tab < counts@.len() ==> slider_y(
                counts@[old(self).param_tab as int] as int,
            ) <= i32::MAX,
        ensures
            (*final(self), r) == param_event(*old(self), ev, x as int, y as int, counts@),
    {
        let n_tabs = counts.len();
        let mouse = match ev {
            Pointer::MousePress => true,
            _ => false,
        };
        let drag = match ev {
            Pointer::MouseDrag => true,
            _ => false,
        };
        if !drag && y < PARAM_TAB_H {
            let w = param_tab_width(n_tabs);
            assert(720int / (n_tabs as int) >= 1 || n_tabs == 0) by (nonlinear_arith)
                requires
                    n_tabs <= 720,
            ;
            let hit: Option<usize> = if x >= 0 {
                let q = ((x as u32) / (w as u32)) as usize;
                if q < n_tabs {
                    Some(q)
                } else {
                    None
                }
            } else if (x as i64) > -(w as i64) && n_tabs > 0 {
                Some(0)
            } else {
                None
            };
            match hit {
                Some(t) => {
                    self.param_tab = t;
                    if mouse {
                        self.drag_param = None;
                    }
                },
                None => {},
            }
            return ScreenAction::Nothing;
        }
        if !drag && y >= HEIGHT - PARAM_BOT_H {
            self.param_mode = false;
            self.drag_param = None;
            if x < WIDTH / 2 {
                return ScreenAction::SaveParams;
            } else {
                return ScreenAction::CancelParams;
            }
        }
        if self.param_tab >= n_tabs {
            return ScreenAction::Nothing;
        }
        let off = param_offset(counts, self.param_tab);
        let count = counts[self.param_tab];
        let tol: i64 = if mouse || drag {
            16
        } else {
            20
        };
        let dragged: Option<usize> = if drag {
            self.drag_param
        } else {
            None
        };
        proof {
            crate::chain::lemma_offset_step(counts@, self.param_tab as int);
            crate::chain::lemma_offset_monotone(
                counts@,
                self.param_tab as int + 1,
                counts@.len() as int,
            );
        }
        let mut i: usize = 0;
        while i < count
            invariant
                *self == *old(self),
                mouse == (ev == Pointer::MousePress),
                drag == (ev == Pointer::MouseDrag),
                tol == (if mouse || drag {
                    16int
                } else {
                    20int
                }),
                dragged == (if drag {
                    old(self).drag_param
                } else {
                    None
                }),
                old(self).param_tab < counts@.len(),
                drag || y >= PARAM_TAB_H,
                drag || y < HEIGHT - PARAM_BOT_H,
                off == offset_of(counts@, old(self).param_tab as int),
                count == counts@[old(self).param_tab as int],
                i <= count,
                off + count <= usize::MAX,
                slider_y(count as int) <= i32::MAX,
                first_slider(y as int, tol as int, dragged, off as int, count as int, 0)
                    == first_slider(y as int, tol as int, dragged, off as int, count as int, i as int),
            decreases count - i,
        {
            let sy: i64 = (PARAM_TAB_H as i64) + (i as i64) * (SLIDER_H as i64) + (TRACK_OFFSET as i64);
            let d: i64 = if (y as i64) >= sy {
                (y as i64) - sy
            } else {
                sy - (y as i64)
            };
            let is_dragged = match dragged {
                Some(g) => g == off + i,
                None => false,
            };
            if is_dragged || d < tol {
                let index = off + i;
                if mouse || drag {
                    self.drag_param = Some(index);
                }
                return ScreenAction::SetParam { index, local: i };
            }
            i = i + 1;
        }
        ScreenAction::Nothing
    }
}

/// A press on the main screen leaves the browser on an existing page, loads
/// only a preset that exists and highlights it, and opens the parameter
/// screen on its first tab.
pub proof fn law_main_press_is_sound(s: Screen, x: int, y: int, n: nat)
    requires
        s.preset_page < page_count_of(n),
        page_count_of(n) <= RIGHT_W,
    ensures
        ({
            let (t, a) = main_press(s, x, y, n);
            &&& t.preset_page < page_count_of(n)
            &&& (a matches ScreenAction::LoadPreset(i) ==> i < n && t.selected == Some(i)
                && s.preset_page * 10 <= i <= s.preset_page * 10 + 10)
            &&& (a is OpenParams ==> t.param_mode && t.param_tab == 0)
            &&& (!(a is OpenParams) ==> t.param_mode == s.param_mode)
        }),
{
    if x >= LEFT_W && y < PAGE_TAB_H && !on_menu_icon(x, y) {
        assert(page_tab_w(n) >= 1) by (nonlinear_arith)
            requires
                1 <= page_count_of(n) <= 220,
                page_tab_w(n) == 220int / (page_count_of(n) as int),
        ;
    }
}

/// [SAVE] and [CANCEL] always go back to the main screen with no slider
/// held, and a slider always sets the parameter that the chain routes to
/// the current tab's unit at the slider's own index.
pub proof fn law_param_event_is_sound(s: Screen, ev: Pointer, x: int, y: int, counts: Seq<usize>)
    requires
        sum_counts(counts) <= usize::MAX,
    ensures
        ({
            let (t, a) = param_event(s, ev, x, y, counts);
            &&& (a is SaveParams || a is CancelParams) ==> !t.param_mode && t.drag_param is None
            &&& (a matches ScreenAction::SetParam { index, local } ==> lands_at(
                counts,
                index as int,
                s.param_tab as int,
                local as int,
            ) && t.param_tab == s.param_tab)
        }),
{
    let (t, a) = param_event(s, ev, x, y, counts);
    if s.param_tab < counts.len() {
        let off = offset_of(counts, s.param_tab as int);
        let tol: int = if ev == Pointer::MousePress || ev == Pointer::MouseDrag {
            16
        } else {
            20
        };
        let dragged = if ev == Pointer::MouseDrag {
            s.drag_param
        } else {
            None
        };
        lemma_first_slider(y, tol, dragged, off as int, counts[s.param_tab as int] as int, 0);
        crate::chain::lemma_offset_step(counts, s.param_tab as int);
        crate::chain::lemma_offset_monotone(counts, s.param_tab as int + 1, counts.len() as int);
    }
}

/// A press on a preset button always loads and highlights that preset,
/// whatever preset was highlighted before: on row `r` of page `p`, preset
/// `p * 10 + r` where it exists; a press on a row past the last preset
/// changes nothing.
pub proof fn law_preset_press_loads_it(s: Screen, x: int, y: int, n: nat)
    requires
        LEFT_W <= x,
        PAGE_TAB_H <= y < PAGE_TAB_H + LIST_H,
    ensures
        ({
            let idx = s.preset_page * 10 + (y - PAGE_TAB_H) / 41;
            &&& idx < n ==> main_press(s, x, y, n) == (
                Screen { selected: Some(idx as usize), ..s },
                ScreenAction::LoadPreset(idx as usize),
            )
            &&& idx >= n ==> main_press(s, x, y, n) == (s, ScreenAction::Nothing)
        }),
{
}

/// A press in the tab bar of the parameter screen (a mouse press, a finger
/// touch or a finger move alike) selects the tab under it: with `n_tabs`
/// tabs sharing 720 pixels, the tab `x / (720 / n_tabs)` where that tab
/// exists, and nothing else changes but a mouse press letting go of a held
/// slider.
pub proof fn law_tab_press_selects_tab(s: Screen, ev: Pointer, x: int, y: int, counts: Seq<usize>)
    requires
        ev != Pointer::MouseDrag,
        y < PARAM_TAB_H,
        0 < counts.len() <= 720,
        0 <= x,
        x / (720int / (counts.len() as int)) < counts.len(),
    ensures
        ({
            let t = x / (720int / (counts.len() as int));
            param_event(s, ev, x, y, counts) == (
                Screen {
                    param_tab: t as usize,
                    drag_param: if ev == Pointer::MousePress {
                        None
                    } else {
                        s.drag_param
                    },
                    ..s
                },
                ScreenAction::Nothing,
            )
        }),
{
    let n = counts.len() as int;
    let w = 720int / n;
    assert(w >= 1) by (nonlinear_arith)
        requires
            0 < n <= 720,
            w == 720int / n,
    ;
    assert(x / w >= 0) by (nonlinear_arith)
        requires
            x >= 0,
            w >= 1,
    ;
    assert(param_tab_w(counts.len()) == w);
    assert(tab_under(x, w, counts.len()) == Some((x / w) as nat));
}

/// The presets named on the tab of page `page`: numbers `start` to `end`,
/// one-based, the last page ending with the last preset.
pub fn page_span(page: usize, n_presets: usize) -> (r: (usize, usize))
    requires
        page < usize::MAX / 10,
    ensures
        r.0 == page * 10 + 1,
        r.1 == if (page + 1) * 10 <= n_presets {
            (page + 1) * 10
        } else {
            n_presets as int
        },
{
    let end = (page + 1) * 10;
    (page * 10 + 1, if end <= n_presets {
        end
    } else {
        n_presets
    })
}

/// How many slider rows of a tab with `count` parameters fit above the
/// [SAVE] [CANCEL] bar: rows are shown in order while a whole row fits.
pub fn slider_rows_shown(count: usize) -> (r: usize)
    ensures
        r <= count,
        PARAM_TAB_H + r * SLIDER_H <= HEIGHT - PARAM_BOT_H,
        r < count ==> PARAM_TAB_H + (r + 1) * SLIDER_H > HEIGHT - PARAM_BOT_H,
{
    if count < 7 {
        count
    } else {
        7
    }
}

} // verus!
