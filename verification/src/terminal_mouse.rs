//! Terminal mouse handling: SGR encoding and the click/drag selection state machine.
use crate::decimal::{decimal_digits, push_decimal};
use vstd::prelude::*;

verus! {

/// Modifier keys held during a terminal mouse event.
#[derive(Clone, Copy, Debug, PartialEq, Eq)]
pub struct TermModifiers {
    pub shift: bool,
    pub alt: bool,
    pub ctrl: bool,
}

/// A mouse event reported by the terminal page, in cell coordinates.
#[derive(Clone, Copy, Debug, PartialEq, Eq)]
pub struct TermMouseEvent {
    pub button: u8,
    pub col: u16,
    pub row: u16,
    pub modifiers: TermModifiers,
    pub pressed: bool,
    pub moving: bool,
}

/// A selection range in cell coordinates.
#[derive(Clone, Copy, Debug, PartialEq, Eq)]
pub struct TermSelectionRange {
    pub start_col: u16,
    pub start_row: u16,
    pub end_col: u16,
    pub end_row: u16,
    pub is_block: bool,
}

/// What a mouse event asks of the terminal service.
#[derive(Clone, Debug, PartialEq, Eq)]
pub enum MouseTerminalAction {
    ForwardInput(Vec<u8>),
    EnterCopyMode,
    ExitCopyMode,
    SetSelection(Option<TermSelectionRange>),
    ExtendSelectionTo { col: u16, row: u16 },
    SelectWordAt { col: u16, row: u16 },
    SelectLineAt { row: u16 },
}

/// The most recent mouse-down, for click-count detection. `when_ns` is a
/// monotonic timestamp in nanoseconds.
#[derive(Clone, Copy, Debug, PartialEq, Eq)]
pub struct MouseClickRecord {
    pub when_ns: u64,
    pub col: u16,
    pub row: u16,
    pub count: u8,
}

/// Per-process mouse selection state.
#[derive(Clone, Copy, Debug, PartialEq, Eq)]
pub struct MouseSessionState {
    pub last_click: Option<MouseClickRecord>,
    pub drag_active: bool,
    pub drag_visual_active: bool,
    pub last_extend_cell: Option<(u16, u16)>,
    pub pending_anchor: Option<(u16, u16)>,
}

impl MouseSessionState {
    /// The state of a process that has seen no mouse event yet.
    pub fn new() -> (s: Self)
        ensures
            s == MouseSessionState::initial(),
    {
        MouseSessionState {
            last_click: None,
            drag_active: false,
            drag_visual_active: false,
            last_extend_cell: None,
            pending_anchor: None,
        }
    }

    pub open spec fn initial() -> Self {
        MouseSessionState {
            last_click: None,
            drag_active: false,
            drag_visual_active: false,
            last_extend_cell: None,
            pending_anchor: None,
        }
    }
}

/// Longest gap between two mouse-downs of one multi-click, in nanoseconds.
pub const MULTI_CLICK_WINDOW_NS: u64 = 300_000_000;

/// Largest cell distance between two mouse-downs of one multi-click.
pub const MULTI_CLICK_CELL_TOLERANCE: u16 = 1;

/// The SGR button code: the button plus 4 for shift, 8 for alt, 16 for ctrl.
pub open spec fn sgr_code(button: u8, m: TermModifiers) -> nat {
    button as nat + (if m.shift { 4nat } else { 0 }) + (if m.alt { 8nat } else { 0 }) + (if m.ctrl {
        16nat
    } else {
        0
    })
}

/// `ESC [ < code ; col+1 ; row+1 M` for a press, with a final `m` for a release.
pub open spec fn sgr_bytes(button: u8, col: u16, row: u16, m: TermModifiers, pressed: bool) -> Seq<
    u8,
> {
    seq![0x1bu8, 0x5bu8, 0x3cu8] + decimal_digits(sgr_code(button, m)) + seq![0x3bu8]
        + decimal_digits(col as nat + 1) + seq![0x3bu8] + decimal_digits(row as nat + 1) + seq![
        if pressed {
            0x4du8
        } else {
            0x6du8
        },
    ]
}

/// A forwarded mouse event is reported as `ESC [ <` , the button code, `;`,
/// the 1-based column, `;`, the 1-based row, and `M` for a press or `m` for a
/// release; the button code is the button plus 4 with shift, 8 with alt and
/// 16 with ctrl. Each modifier adds its own amount whatever the others are,
/// so ctrl, alt and shift can each be told apart in the report.
pub proof fn law_sgr_report_layout(button: u8, col: u16, row: u16, m: TermModifiers, pressed: bool)
    ensures
        sgr_bytes(button, col, row, m, pressed) == seq![0x1bu8, 0x5bu8, 0x3cu8] + decimal_digits(
            button as nat + (if m.shift {
                4nat
            } else {
                0nat
            }) + (if m.alt {
                8nat
            } else {
                0nat
            }) + (if m.ctrl {
                16nat
            } else {
                0nat
            }),
        ) + seq![0x3bu8] + decimal_digits(col as nat + 1) + seq![0x3bu8] + decimal_digits(row as nat + 1)
            + seq![
            if pressed {
                0x4du8
            } else {
                0x6du8
            },
        ],
        sgr_code(button, TermModifiers { ctrl: true, ..m }) == sgr_code(
            button,
            TermModifiers { ctrl: false, ..m },
        ) + 16,
        sgr_code(button, TermModifiers { alt: true, ..m }) == sgr_code(
            button,
            TermModifiers { alt: false, ..m },
        ) + 8,
        sgr_code(button, TermModifiers { shift: true, ..m }) == sgr_code(
            button,
            TermModifiers { shift: false, ..m },
        ) + 4,
        sgr_code(button, TermModifiers { shift: false, alt: false, ctrl: false }) == button as nat,
{
}

/// Encodes a mouse event as an SGR escape sequence.
pub fn sgr_mouse_sequence(button: u8, col: u16, row: u16, modifiers: TermModifiers, pressed: bool) -> (res:
    Vec<u8>)
    requires
        col < u16::MAX,
        row < u16::MAX,
    ensures
        res@ == sgr_bytes(button, col, row, modifiers, pressed),
{
    let mut cb: u32 = button as u32;
    if modifiers.shift {
        cb = cb + 4;
    }
    if modifiers.alt {
        cb = cb + 8;
    }
    if modifiers.ctrl {
        cb = cb + 16;
    }
    let mut out: Vec<u8> = Vec::new();
    out.push(0x1b);
    out.push(0x5b);
    out.push(0x3c);
    push_decimal(&mut out, cb as u64);
    out.push(0x3b);
    push_decimal(&mut out, col as u64 + 1);
    out.push(0x3b);
    push_decimal(&mut out, row as u64 + 1);
    out.push(if pressed {
        0x4d
    } else {
        0x6d
    });
    proof {
        assert(cb as nat == sgr_code(button, modifiers));
        assert(out@ =~= sgr_bytes(button, col, row, modifiers, pressed));
    }
    out
}

/// The absolute difference of two cell coordinates.
pub open spec fn cell_distance(a: u16, b: u16) -> int {
    if a >= b {
        a - b
    } else {
        b - a
    }
}

/// Nanoseconds from `earlier` to `now`, zero when `now` is not later.
pub open spec fn elapsed_ns(now: u64, earlier: u64) -> int {
    if now >= earlier {
        now - earlier
    } else {
        0
    }
}

/// Whether a left press is selection (rather than forwarded to the application):
/// the application does not capture the mouse, or shift is held.
pub open spec fn is_select_mode(event: TermMouseEvent, mouse_capture: bool) -> bool {
    event.button == 0 && (!mouse_capture || event.modifiers.shift)
}

/// The click count of a press: one more than the previous press when it came
/// within the multi-click window and cell tolerance, wrapping after three.
pub open spec fn click_count(last: Option<MouseClickRecord>, event: TermMouseEvent, now_ns: u64) -> u8 {
    match last {
        Some(prev) => if elapsed_ns(now_ns, prev.when_ns) <= MULTI_CLICK_WINDOW_NS
            && cell_distance(prev.col, event.col) <= MULTI_CLICK_CELL_TOLERANCE
            && cell_distance(prev.row, event.row) <= MULTI_CLICK_CELL_TOLERANCE {
            if prev.count >= 3 {
                1
            } else {
                (prev.count + 1) as u8
            }
        } else {
            1
        },
        None => 1,
    }
}

/// State and actions of a selection-mode event (see `is_select_mode`).
pub open spec fn select_step(s: MouseSessionState, e: TermMouseEvent, now_ns: u64) -> (
    MouseSessionState,
    Seq<MouseTerminalAction>,
) {
    if e.pressed && !e.moving {
        let count = click_count(s.last_click, e, now_ns);
        let base = MouseSessionState {
            last_click: Some(MouseClickRecord { when_ns: now_ns, col: e.col, row: e.row, count }),
            drag_active: count == 1,
            drag_visual_active: false,
            last_extend_cell: Some((e.col, e.row)),
            pending_anchor: None,
        };
        if count == 1 && e.modifiers.shift {
            (base, seq![MouseTerminalAction::ExtendSelectionTo { col: e.col, row: e.row }])
        } else if count == 1 {
            (
                MouseSessionState { pending_anchor: Some((e.col, e.row)), ..base },
                seq![MouseTerminalAction::SetSelection(None)],
            )
        } else if count == 2 {
            (base, seq![MouseTerminalAction::SelectWordAt { col: e.col, row: e.row }])
        } else {
            (base, seq![MouseTerminalAction::SelectLineAt { row: e.row }])
        }
    } else if e.moving && s.drag_active {
        if s.last_extend_cell == Some((e.col, e.row)) {
            (s, Seq::empty())
        } else {
            match s.pending_anchor {
                Some(anchor) => (
                    MouseSessionState {
                        last_extend_cell: Some((e.col, e.row)),
                        pending_anchor: None,
                        drag_visual_active: true,
                        ..s
                    },
                    seq![
                        MouseTerminalAction::EnterCopyMode,
                        MouseTerminalAction::SetSelection(
                            Some(
                                TermSelectionRange {
                                    start_col: anchor.0,
                                    start_row: anchor.1,
                                    end_col: e.col,
                                    end_row: e.row,
                                    is_block: false,
                                },
                            ),
                        ),
                    ],
                ),
                None => (
                    MouseSessionState { last_extend_cell: Some((e.col, e.row)), ..s },
                    seq![MouseTerminalAction::ExtendSelectionTo { col: e.col, row: e.row }],
                ),
            }
        }
    } else if !e.pressed {
        (
            MouseSessionState {
                drag_active: false,
                drag_visual_active: false,
                last_extend_cell: None,
                pending_anchor: None,
                ..s
            },
            if s.drag_visual_active {
                seq![MouseTerminalAction::ExitCopyMode]
            } else {
                Seq::empty()
            },
        )
    } else {
        (s, Seq::empty())
    }
}

/// Translates a terminal mouse event into service actions, updating the
/// per-process selection state.
///
/// Outside selection mode the event is forwarded as an SGR sequence (motion adds
/// 32 to the button). In selection mode a press counts clicks (word on the
/// second, line on the third), a drag after a single click enters copy mode
/// with a selection from the press cell, and a release ends the drag.
pub fn mouse_terminal_actions(
    entry: &mut MouseSessionState,
    event: &TermMouseEvent,
    mouse_capture: bool,
    now_ns: u64,
) -> (res: Vec<MouseTerminalAction>)
    requires
        !is_select_mode(*event, mouse_capture) ==> (event.col < u16::MAX && event.row < u16::MAX),
        event.moving ==> event.button <= 223,
    ensures
        !is_select_mode(*event, mouse_capture) ==> {
            &&& *final(entry) == *old(entry)
            &&& res@.len() == 1
            &&& res@[0] matches MouseTerminalAction::ForwardInput(bytes) && bytes@ == sgr_bytes(
                (if event.moving {
                    event.button + 32
                } else {
                    event.button as int
                }) as u8,
                event.col,
                event.row,
                event.modifiers,
                event.pressed,
            )
        },
        is_select_mode(*event, mouse_capture) ==> {
            &&& *final(entry) == select_step(*old(entry), *event, now_ns).0
            &&& res@ == select_step(*old(entry), *event, now_ns).1
        },
{
    let shift = event.modifiers.shift;
    let is_left = event.button == 0;
    let select_mode = is_left && (!mouse_capture || shift);

    if !select_mode {
        let button = if event.moving {
            event.button + 32
        } else {
            event.button
        };
        let mut out: Vec<MouseTerminalAction> = Vec::new();
        out.push(
            MouseTerminalAction::ForwardInput(
                sgr_mouse_sequence(button, event.col, event.row, event.modifiers, event.pressed),
            ),
        );
        return out;
    }
    let ghost s0 = *entry;
    if event.pressed && !event.moving {
        let count: u8 = match entry.last_click {
            Some(prev) => {
                let elapsed: u64 = if now_ns >= prev.when_ns {
                    now_ns - prev.when_ns
                } else {
                    0
                };
                let dc: u16 = if prev.col >= event.col {
                    prev.col - event.col
                } else {
                    event.col - prev.col
                };
                let dr: u16 = if prev.row >= event.row {
                    prev.row - event.row
                } else {
                    event.row - prev.row
                };
                if elapsed <= MULTI_CLICK_WINDOW_NS && dc <= MULTI_CLICK_CELL_TOLERANCE && dr
                    <= MULTI_CLICK_CELL_TOLERANCE {
                    if prev.count >= 3 {
                        1
                    } else {
                        prev.count + 1
                    }
                } else {
                    1
                }
            },
            None => 1,
        };
        assert(count == click_count(s0.last_click, *event, now_ns));
        entry.last_click = Some(
            MouseClickRecord { when_ns: now_ns, col: event.col, row: event.row, count },
        );
        entry.drag_active = count == 1;
        entry.drag_visual_active = false;
        entry.last_extend_cell = Some((event.col, event.row));
        let mut out: Vec<MouseTerminalAction> = Vec::new();
        if count == 1 && shift {
            entry.pending_anchor = None;
            out.push(MouseTerminalAction::ExtendSelectionTo { col: event.col, row: event.row });
        } else if count == 1 {
            entry.pending_anchor = Some((event.col, event.row));
            out.push(MouseTerminalAction::SetSelection(None));
        } else if count == 2 {
            entry.pending_anchor = None;
            out.push(MouseTerminalAction::SelectWordAt { col: event.col, row: event.row });
        } else {
            entry.pending_anchor = None;
            out.push(MouseTerminalAction::SelectLineAt { row: event.row });
        }
        proof {
            assert(out@ =~= select_step(s0, *event, now_ns).1);
        }
        out
    } else if event.moving && entry.drag_active {
        if entry.last_extend_cell == Some((event.col, event.row)) {
            return Vec::new();
        }
        entry.last_extend_cell = Some((event.col, event.row));
        let mut out: Vec<MouseTerminalAction> = Vec::new();
        match entry.pending_anchor {
            Some(anchor) => {
                entry.pending_anchor = None;
                entry.drag_visual_active = true;
                out.push(MouseTerminalAction::EnterCopyMode);
                out.push(
                    MouseTerminalAction::SetSelection(
                        Some(
                            TermSelectionRange {
                                start_col: anchor.0,
                                start_row: anchor.1,
                                end_col: event.col,
                                end_row: event.row,
                                is_block: false,
                            },
                        ),
                    ),
                );
            },
            None => {
                out.push(MouseTerminalAction::ExtendSelectionTo { col: event.col, row: event.row });
            },
        }
        proof {
            assert(out@ =~= select_step(s0, *event, now_ns).1);
        }
        out
    } else if !event.pressed {
        let mut out: Vec<MouseTerminalAction> = Vec::new();
        if entry.drag_visual_active {
            out.push(MouseTerminalAction::ExitCopyMode);
        }
        entry.drag_active = false;
        entry.drag_visual_active = false;
        entry.last_extend_cell = None;
        entry.pending_anchor = None;
        proof {
            assert(out@ =~= select_step(s0, *event, now_ns).1);
        }
        out
    } else {
        Vec::new()
    }
}

/// The wheel report for scrolling: button 64 scrolls up (a negative line
/// count), 65 down, each as a press at the first cell with no modifiers.
pub open spec fn scroll_report(lines: i32) -> Seq<u8> {
    sgr_bytes(
        if lines < 0 {
            64u8
        } else {
            65u8
        },
        0,
        0,
        TermModifiers { shift: false, alt: false, ctrl: false },
        true,
    )
}

/// What scrolling by `lines` sends: for each target in turn, the wheel
/// report once per line; nothing for no lines.
pub open spec fn scroll_inputs(targets: Seq<u128>, lines: i32) -> Seq<(u128, Seq<u8>)>
    decreases targets.len(),
{
    if targets.len() == 0 || lines == 0 {
        Seq::empty()
    } else {
        scroll_inputs(targets.drop_last(), lines) + Seq::new(
            (if lines < 0 {
                -(lines as int)
            } else {
                lines as int
            }) as nat,
            |_i: int| (targets.last(), scroll_report(lines)),
        )
    }
}

/// The wheel reports that scrolling by `lines` sends to the target processes
/// (see `scroll_inputs`).
pub fn scroll_terminal_inputs(targets: &Vec<u128>, lines: i32) -> (out: Vec<(u128, Vec<u8>)>)
    ensures
        out@.map_values(|o: (u128, Vec<u8>)| (o.0, o.1@)) == scroll_inputs(targets@, lines),
{
    let mut out: Vec<(u128, Vec<u8>)> = Vec::new();
    if lines == 0 {
        proof {
            if targets@.len() > 0 {
                assert(scroll_inputs(targets@, lines) =~= Seq::<(u128, Seq<u8>)>::empty());
            }
            assert(out@.map_values(|o: (u128, Vec<u8>)| (o.0, o.1@)) =~= scroll_inputs(targets@, lines));
        }
        return out;
    }
    let button: u8 = if lines < 0 {
        64
    } else {
        65
    };
    let report = sgr_mouse_sequence(button, 0, 0, TermModifiers { shift: false, alt: false, ctrl: false }, true);
    let wide: i64 = lines as i64;
    let count: u32 = (if wide < 0 {
        -wide
    } else {
        wide
    }) as u32;
    let ghost n: nat = (if lines < 0 {
        -(lines as int)
    } else {
        lines as int
    }) as nat;
    assert(count as nat == n);
    let mut t: usize = 0;
    proof {
        assert(out@.map_values(|o: (u128, Vec<u8>)| (o.0, o.1@)) =~= scroll_inputs(
            targets@.subrange(0, 0),
            lines,
        ));
    }
    while t < targets.len()
        invariant
            t <= targets@.len(),
            lines != 0,
            report@ == scroll_report(lines),
            count as nat == n,
            n == (if lines < 0 {
                -(lines as int)
            } else {
                lines as int
            }) as nat,
            out@.map_values(|o: (u128, Vec<u8>)| (o.0, o.1@)) == scroll_inputs(
                targets@.subrange(0, t as int),
                lines,
            ),
        decreases targets@.len() - t,
    {
        let p = targets[t];
        let ghost before = out@.map_values(|o: (u128, Vec<u8>)| (o.0, o.1@));
        let mut k: u32 = 0;
        while k < count
            invariant
                k <= count,
                report@ == scroll_report(lines),
                out@.map_values(|o: (u128, Vec<u8>)| (o.0, o.1@)) == before + Seq::new(
                    k as nat,
                    |_i: int| (p, scroll_report(lines)),
                ),
            decreases count - k,
        {
            let ghost prev = out@;
            out.push((p, report.clone()));
            proof {
                assert(out@.map_values(|o: (u128, Vec<u8>)| (o.0, o.1@)) =~= prev.map_values(
                    |o: (u128, Vec<u8>)| (o.0, o.1@),
                ).push((p, scroll_report(lines))));
                assert(before + Seq::new((k + 1) as nat, |_i: int| (p, scroll_report(lines))) =~= (before
                    + Seq::new(k as nat, |_i: int| (p, scroll_report(lines)))).push(
                    (p, scroll_report(lines)),
                ));
            }
            k = k + 1;
        }
        proof {
            let ghost sub = targets@.subrange(0, t + 1);
            assert(sub.drop_last() =~= targets@.subrange(0, t as int));
            assert(sub.last() == p);
        }
        t = t + 1;
    }
    proof {
        assert(targets@.subrange(0, targets@.len() as int) =~= targets@);
    }
    out
}

} // verus!
