//! The menu-bar tray: its icons, the label of its window toggle, and what
//! its menu items ask for.
use vstd::prelude::*;

verus! {

/// A request to the shell's window lifecycle.
#[derive(Clone, Copy, Debug, PartialEq, Eq, Structural)]
pub enum LifecycleRequest {
    HideAllWindows,
    ShowAllWindows,
    QuitVmux,
}

/// A control of the running recording.
#[derive(Clone, Copy, Debug, PartialEq, Eq, Structural)]
pub enum RecordingControl {
    Pause,
    Resume,
    Done,
}

/// The label of the window toggle: it closes the windows while one is
/// visible and opens them otherwise.
pub fn toggle_label(any_visible: bool) -> (label: &'static str)
    ensures
        label@ == (if any_visible {
            "Close Window"@
        } else {
            "Open Window"@
        }),
{
    if any_visible {
        "Close Window"
    } else {
        "Open Window"
    }
}

/// What the window toggle asks for: hiding the windows while one is
/// visible, showing them otherwise.
pub fn toggle_lifecycle_event(any_visible: bool) -> (r: LifecycleRequest)
    ensures
        r == (if any_visible {
            LifecycleRequest::HideAllWindows
        } else {
            LifecycleRequest::ShowAllWindows
        }),
{
    if any_visible {
        LifecycleRequest::HideAllWindows
    } else {
        LifecycleRequest::ShowAllWindows
    }
}

/// An entry of the tray menu.
#[derive(Clone, Copy, Debug, PartialEq, Eq, Structural)]
pub enum TrayMenuEntry {
    /// The window toggle, labelled for visible windows at start.
    Toggle,
    PauseRecording,
    ResumeRecording,
    FinishRecording,
    Quit,
    Separator,
}

/// The tray menu: the toggle, the recording controls in builds that record,
/// and Quit, set apart by separators.
pub fn tray_menu_entries(recording: bool) -> (es: Vec<TrayMenuEntry>)
    ensures
        es@ == (if recording {
            seq![
                TrayMenuEntry::Toggle,
                TrayMenuEntry::Separator,
                TrayMenuEntry::PauseRecording,
                TrayMenuEntry::ResumeRecording,
                TrayMenuEntry::FinishRecording,
                TrayMenuEntry::Separator,
                TrayMenuEntry::Quit,
            ]
        } else {
            seq![TrayMenuEntry::Toggle, TrayMenuEntry::Separator, TrayMenuEntry::Quit]
        }),
{
    let mut es: Vec<TrayMenuEntry> = Vec::new();
    es.push(TrayMenuEntry::Toggle);
    es.push(TrayMenuEntry::Separator);
    if recording {
        es.push(TrayMenuEntry::PauseRecording);
        es.push(TrayMenuEntry::ResumeRecording);
        es.push(TrayMenuEntry::FinishRecording);
        es.push(TrayMenuEntry::Separator);
    }
    es.push(TrayMenuEntry::Quit);
    proof {
        if recording {
            assert(es@ =~= seq![
                TrayMenuEntry::Toggle,
                TrayMenuEntry::Separator,
                TrayMenuEntry::PauseRecording,
                TrayMenuEntry::ResumeRecording,
                TrayMenuEntry::FinishRecording,
                TrayMenuEntry::Separator,
                TrayMenuEntry::Quit,
            ]);
        } else {
            assert(es@ =~= seq![TrayMenuEntry::Toggle, TrayMenuEntry::Separator, TrayMenuEntry::Quit]);
        }
    }
    es
}

/// The label of a tray menu entry; a separator has none.
pub fn tray_entry_label(e: TrayMenuEntry) -> (l: Option<&'static str>)
    ensures
        match e {
            TrayMenuEntry::Toggle => l matches Some(x) && x@ == "Close Window"@,
            TrayMenuEntry::PauseRecording => l matches Some(x) && x@ == "Pause Recording"@,
            TrayMenuEntry::ResumeRecording => l matches Some(x) && x@ == "Resume Recording"@,
            TrayMenuEntry::FinishRecording => l matches Some(x) && x@ == "Finish Recording"@,
            TrayMenuEntry::Quit => l matches Some(x) && x@ == "Quit Vmux"@,
            TrayMenuEntry::Separator => l is None,
        },
{
    match e {
        TrayMenuEntry::Toggle => Some(toggle_label(true)),
        TrayMenuEntry::PauseRecording => Some("Pause Recording"),
        TrayMenuEntry::ResumeRecording => Some("Resume Recording"),
        TrayMenuEntry::FinishRecording => Some("Finish Recording"),
        TrayMenuEntry::Quit => Some("Quit Vmux"),
        TrayMenuEntry::Separator => None,
    }
}

/// Keeps the toggle's label in step with the windows: the label to set when
/// their visibility changed since the last frame, nothing otherwise.
pub fn sync_tray_menu_state(last_any_visible: &mut Option<bool>, any_visible: bool) -> (set: Option<
    &'static str,
>)
    ensures
        *final(last_any_visible) == Some(any_visible),
        *old(last_any_visible) == Some(any_visible) ==> set is None,
        *old(last_any_visible) != Some(any_visible) ==> (set matches Some(l) && l@ == (if any_visible {
            "Close Window"@
        } else {
            "Open Window"@
        })),
{
    if *last_any_visible == Some(any_visible) {
        return None;
    }
    *last_any_visible = Some(any_visible);
    Some(toggle_label(any_visible))
}

/// Whether the tray icon is drawn as a template image (monochrome, following
/// the menu bar): always, except while recording, when the red dot must show.
pub fn icon_as_template(recording: bool) -> (t: bool)
    ensures
        t == !recording,
{
    !recording
}

/// The ids of the tray's menu items.
#[derive(Clone, Copy, Debug, PartialEq, Eq, Structural)]
pub struct TrayMenuIds {
    pub toggle: u64,
    pub quit: u64,
    pub pause: u64,
    pub resume: u64,
    pub done: u64,
}

/// What a click on a tray menu item asks for.
#[derive(Clone, Copy, Debug, PartialEq, Eq, Structural)]
pub enum TrayRequest {
    Lifecycle(LifecycleRequest),
    Recording(RecordingControl),
    Unhandled,
}

/// What a click on the menu item `id` asks for: the toggle by the windows'
/// visibility, quitting, or a recording control; any other id nothing.
pub fn classify_tray_event(id: u64, ids: &TrayMenuIds, any_visible: bool) -> (r: TrayRequest)
    ensures
        r == (if id == ids.toggle {
            TrayRequest::Lifecycle(
                if any_visible {
                    LifecycleRequest::HideAllWindows
                } else {
                    LifecycleRequest::ShowAllWindows
                },
            )
        } else if id == ids.quit {
            TrayRequest::Lifecycle(LifecycleRequest::QuitVmux)
        } else if id == ids.pause {
            TrayRequest::Recording(RecordingControl::Pause)
        } else if id == ids.resume {
            TrayRequest::Recording(RecordingControl::Resume)
        } else if id == ids.done {
            TrayRequest::Recording(RecordingControl::Done)
        } else {
            TrayRequest::Unhandled
        }),
{
    if id == ids.toggle {
        TrayRequest::Lifecycle(toggle_lifecycle_event(any_visible))
    } else if id == ids.quit {
        TrayRequest::Lifecycle(LifecycleRequest::QuitVmux)
    } else if id == ids.pause {
        TrayRequest::Recording(RecordingControl::Pause)
    } else if id == ids.resume {
        TrayRequest::Recording(RecordingControl::Resume)
    } else if id == ids.done {
        TrayRequest::Recording(RecordingControl::Done)
    } else {
        TrayRequest::Unhandled
    }
}

/// Whether pixel (`x`, `y`) of the 16x16 tray icon is drawn: two strokes
/// meeting at the bottom, a 'V', over rows 3 to 13.
pub open spec fn icon_pixel_on(x: int, y: int) -> bool {
    let dy = y - 3;
    0 <= dy <= 10 && ((-1 <= x - (3 + dy / 2) <= 1) || (-1 <= x - (12 - dy / 2) <= 1))
}

/// Whether pixel (`x`, `y`) of the 16x16 recording icon is inside the red
/// dot of radius 5.5 about (7.5, 7.5), written in whole numbers.
pub open spec fn dot_pixel_on(x: int, y: int) -> bool {
    (2 * x - 15) * (2 * x - 15) + (2 * y - 15) * (2 * y - 15) <= 121
}

/// The 16x16 RGBA image whose pixel `i` (row by row) is `on` or `off`
/// according to `lit`.
pub open spec fn icon_bytes_ok(bytes: Seq<u8>, lit: spec_fn(int, int) -> bool, on: Seq<u8>, off: Seq<u8>) -> bool {
    &&& bytes.len() == 1024
    &&& forall|i: int, c: int|
        0 <= i < 256 && 0 <= c < 4 ==> #[trigger] bytes[4 * i + c] == (if lit(i % 16, i / 16) {
            on[c]
        } else {
            off[c]
        })
}

/// The tray icon: black where `icon_pixel_on`, clear elsewhere.
pub fn tray_icon_rgba() -> (rgba: Vec<u8>)
    ensures
        icon_bytes_ok(
            rgba@,
            |x: int, y: int| icon_pixel_on(x, y),
            seq![0u8, 0, 0, 255],
            seq![0u8, 0, 0, 0],
        ),
{
    let ghost lit = |x: int, y: int| icon_pixel_on(x, y);
    let ghost on = seq![0u8, 0, 0, 255];
    let ghost off = seq![0u8, 0, 0, 0];
    let mut rgba: Vec<u8> = Vec::new();
    let mut y: i32 = 0;
    while y < 16
        invariant
            0 <= y <= 16,
            lit == (|x: int, y: int| icon_pixel_on(x, y)),
            on == seq![0u8, 0, 0, 255],
            off == seq![0u8, 0, 0, 0],
            rgba@.len() == 64 * y,
            forall|i: int, c: int|
                0 <= i < 16 * y && 0 <= c < 4 ==> #[trigger] rgba@[4 * i + c] == (if lit(
                    i % 16,
                    i / 16,
                ) {
                    on[c]
                } else {
                    off[c]
                }),
        decreases 16 - y,
    {
        let mut x: i32 = 0;
        while x < 16
            invariant
                0 <= y < 16,
                0 <= x <= 16,
                lit == (|x: int, y: int| icon_pixel_on(x, y)),
                on == seq![0u8, 0, 0, 255],
                off == seq![0u8, 0, 0, 0],
                rgba@.len() == 64 * y + 4 * x,
                forall|i: int, c: int|
                    0 <= i < 16 * y + x && 0 <= c < 4 ==> #[trigger] rgba@[4 * i + c] == (if lit(
                        i % 16,
                        i / 16,
                    ) {
                        on[c]
                    } else {
                        off[c]
                    }),
            decreases 16 - x,
        {
            let dy = y - 3;
            let visible = 0 <= dy && dy <= 10 && ((-1 <= x - (3 + dy / 2) && x - (3 + dy / 2) <= 1)
                || (-1 <= x - (12 - dy / 2) && x - (12 - dy / 2) <= 1));
            assert(visible == lit(x as int, y as int));
            let ghost before = rgba@;
            let a: u8 = if visible {
                255
            } else {
                0
            };
            rgba.push(0);
            rgba.push(0);
            rgba.push(0);
            rgba.push(a);
            let ghost i0 = 16 * y + x;
            assert(i0 % 16 == x && i0 / 16 == y);
            assert forall|i: int, c: int|
                0 <= i < 16 * y + x + 1 && 0 <= c < 4 implies #[trigger] rgba@[4 * i + c] == (if lit(
                i % 16,
                i / 16,
            ) {
                on[c]
            } else {
                off[c]
            }) by {
                if i < i0 {
                    assert(rgba@[4 * i + c] == before[4 * i + c]);
                } else {
                    assert(i == i0);
                }
            }
            x = x + 1;
        }
        y = y + 1;
    }
    rgba
}

/// The recording icon: red where `dot_pixel_on`, clear elsewhere.
pub fn tray_icon_recording_rgba() -> (rgba: Vec<u8>)
    ensures
        icon_bytes_ok(
            rgba@,
            |x: int, y: int| dot_pixel_on(x, y),
            seq![224u8, 38, 38, 255],
            seq![0u8, 0, 0, 0],
        ),
{
    let ghost lit = |x: int, y: int| dot_pixel_on(x, y);
    let ghost on = seq![224u8, 38, 38, 255];
    let ghost off = seq![0u8, 0, 0, 0];
    let mut rgba: Vec<u8> = Vec::new();
    let mut y: i32 = 0;
    while y < 16
        invariant
            0 <= y <= 16,
            lit == (|x: int, y: int| dot_pixel_on(x, y)),
            on == seq![224u8, 38, 38, 255],
            off == seq![0u8, 0, 0, 0],
            rgba@.len() == 64 * y,
            forall|i: int, c: int|
                0 <= i < 16 * y && 0 <= c < 4 ==> #[trigger] rgba@[4 * i + c] == (if lit(
                    i % 16,
                    i / 16,
                ) {
                    on[c]
                } else {
                    off[c]
                }),
        decreases 16 - y,
    {
        let mut x: i32 = 0;
        while x < 16
            invariant
                0 <= y < 16,
                0 <= x <= 16,
                lit == (|x: int, y: int| dot_pixel_on(x, y)),
                on == seq![224u8, 38, 38, 255],
                off == seq![0u8, 0, 0, 0],
                rgba@.len() == 64 * y + 4 * x,
                forall|i: int, c: int|
                    0 <= i < 16 * y + x && 0 <= c < 4 ==> #[trigger] rgba@[4 * i + c] == (if lit(
                        i % 16,
                        i / 16,
                    ) {
                        on[c]
                    } else {
                        off[c]
                    }),
            decreases 16 - x,
        {
            let dx = 2 * x - 15;
            let dy = 2 * y - 15;
            assert(0 <= dx * dx <= 225) by (nonlinear_arith)
                requires
                    -15 <= dx <= 15,
            ;
            assert(0 <= dy * dy <= 225) by (nonlinear_arith)
                requires
                    -15 <= dy <= 15,
            ;
            let inside = dx * dx + dy * dy <= 121;
            assert(inside == lit(x as int, y as int));
            let ghost before = rgba@;
            if inside {
                rgba.push(224);
                rgba.push(38);
                rgba.push(38);
                rgba.push(255);
            } else {
                rgba.push(0);
                rgba.push(0);
                rgba.push(0);
                rgba.push(0);
            }
            let ghost i0 = 16 * y + x;
            assert(i0 % 16 == x && i0 / 16 == y);
            assert forall|i: int, c: int|
                0 <= i < 16 * y + x + 1 && 0 <= c < 4 implies #[trigger] rgba@[4 * i + c] == (if lit(
                i % 16,
                i / 16,
            ) {
                on[c]
            } else {
                off[c]
            }) by {
                if i < i0 {
                    assert(rgba@[4 * i + c] == before[4 * i + c]);
                } else {
                    assert(i == i0);
                }
            }
            x = x + 1;
        }
        y = y + 1;
    }
    rgba
}

} // verus!
