//! The decision logic of the frame loop.
//!
//! Each loop iteration runs two phases: an update phase, which hands the
//! accumulated input state to the application and asks whether to continue,
//! and a draw phase, which lends the application the live frame and asks
//! whether anything changed. The loop redraws the window only when the draw
//! step reports a change, clears the one-shot input fields after every
//! update, and recognises two reserved key combinations of its own before
//! the application sees any input.

use vstd::prelude::*;

use crate::app::{KeyState, PresentResult, TickResult};

verus! {

/// The key code of the reserved exit key.
pub const KEY_ESCAPE: u32 = 27;

/// The key code of the key that, together with alt, toggles fullscreen.
pub const KEY_RETURN: u32 = 13;

/// What the loop does with a key event before the application's update step
/// runs.
pub enum KeyDisposition {
    /// The reserved exit key: terminate the loop at once, bypassing the
    /// application.
    Exit,
    /// The reserved fullscreen chord: switch the window's display mode,
    /// bypassing the application.
    ToggleFullscreen,
    /// Any other event: forward it to the application unfiltered.
    Forward,
}

/// Classify a key event against the two reserved combinations: pressing the
/// exit key (whatever the modifiers) exits; pressing the return key with alt
/// held, no other modifier and no character toggles fullscreen; everything
/// else is forwarded to the application.
pub fn intercept_key(key: &KeyState) -> (d: KeyDisposition)
    ensures
        d is Exit <==> key.pressed && key.vkey == Some(KEY_ESCAPE),
        d is ToggleFullscreen <==> !(key.pressed && key.vkey == Some(KEY_ESCAPE)) && key.pressed
            && !key.shift && !key.ctrl && key.alt && key.vkey == Some(KEY_RETURN)
            && key.code is None,
{
    match key.vkey {
        Some(k) => {
            if key.pressed && k == KEY_ESCAPE {
                KeyDisposition::Exit
            } else if key.pressed && !key.shift && !key.ctrl && key.alt && k == KEY_RETURN
                && key.code.is_none() {
                KeyDisposition::ToggleFullscreen
            } else {
                KeyDisposition::Forward
            }
        },
        None => KeyDisposition::Forward,
    }
}

/// Record a key transition in the input state, leaving the modifier flags
/// untouched.
pub fn apply_key_event(key: &mut KeyState, pressed: bool, vkey: Option<u32>)
    ensures
        final(key).pressed == pressed,
        final(key).vkey == vkey,
        final(key).shift == old(key).shift,
        final(key).ctrl == old(key).ctrl,
        final(key).alt == old(key).alt,
        final(key).code == old(key).code,
{
    key.pressed = pressed;
    key.vkey = vkey;
}

/// Record a modifier change in the input state, leaving the one-shot fields
/// untouched.
pub fn apply_modifiers(key: &mut KeyState, shift: bool, ctrl: bool, alt: bool)
    ensures
        final(key).shift == shift,
        final(key).ctrl == ctrl,
        final(key).alt == alt,
        final(key).pressed == old(key).pressed,
        final(key).vkey == old(key).vkey,
        final(key).code == old(key).code,
{
    key.shift = shift;
    key.ctrl = ctrl;
    key.alt = alt;
}

/// Clear the one-shot input fields at the end of a loop iteration; the
/// modifier flags persist until the next modifier change.
pub fn clear_transient(key: &mut KeyState)
    ensures
        final(key).pressed == false,
        final(key).vkey is None,
        final(key).code is None,
        final(key).shift == old(key).shift,
        final(key).ctrl == old(key).ctrl,
        final(key).alt == old(key).alt,
{
    key.pressed = false;
    key.vkey = None;
    key.code = None;
}

/// The character-grid dimensions of a window: its pixel size divided by the
/// glyph cell size, floored.
pub fn chars_size(pixel_width: u32, pixel_height: u32, font_width: u32, font_height: u32) -> (r: (
    u32,
    u32,
))
    requires
        font_width > 0,
        font_height > 0,
    ensures
        r.0 == pixel_width as int / font_width as int,
        r.1 == pixel_height as int / font_height as int,
{
    (pixel_width / font_width, pixel_height / font_height)
}

/// One axis of the initial window size: at least 20 glyph cells, rounded
/// down from the requested size so that glyph cells tile it exactly.
pub fn fit_length(requested: u32, font: u32) -> (r: u32)
    requires
        font > 0,
        20 * font <= u32::MAX,
    ensures
        r == ({
            let m = if 20 * font as int > requested as int {
                20 * font as int
            } else {
                requested as int
            };
            (m / font as int) * font as int
        }),
        r as int % font as int == 0,
{
    let m = if 20 * font > requested {
        20 * font
    } else {
        requested
    };
    proof {
        assert((m as int / font as int) * font as int <= m as int && m as int % font as int == (
        m as int - (m as int / font as int) * font as int)) by (nonlinear_arith)
            requires
                font > 0,
        ;
        vstd::arithmetic::div_mod::lemma_mod_multiples_basic(m as int / font as int, font as int);
    }
    m / font * font
}

/// On a window resize, the frame buffer is invalidated and replaced exactly
/// when the character-grid dimensions derived from the new pixel size
/// differ from the current ones: then the new dimensions, else `None` and
/// the current planes are kept.
pub fn grid_replacement(
    current: (u32, u32),
    pixel_width: u32,
    pixel_height: u32,
    font_width: u32,
    font_height: u32,
) -> (r: Option<(u32, u32)>)
    requires
        font_width > 0,
        font_height > 0,
    ensures
        (r is Some) <==> !(current.0 == pixel_width as int / font_width as int && current.1
            == pixel_height as int / font_height as int),
        r matches Some(g) ==> g.0 == pixel_width as int / font_width as int && g.1 == pixel_height
            as int / font_height as int,
{
    let grid = chars_size(pixel_width, pixel_height, font_width, font_height);
    if grid.0 == current.0 && grid.1 == current.1 {
        None
    } else {
        Some(grid)
    }
}

/// How the loop reacts to the outcome of pushing a frame to the display.
pub enum RenderStatus {
    /// The frame was presented.
    Completed,
    /// The display surface was lost; it can be rebuilt.
    SurfaceLost,
    /// The renderer ran out of memory; unrecoverable.
    OutOfMemory,
    /// Any other, non-fatal error.
    OtherError,
}

/// The action the loop takes after a render attempt.
pub enum RenderRecovery {
    /// Carry on with the next iteration.
    Proceed,
    /// Rebuild the display surface at the current window size, then carry
    /// on.
    RebuildSurface,
    /// Terminate the loop.
    Halt,
}

/// A lost surface is recovered locally by rebuilding it; out of memory ends
/// the loop; any other outcome, fatal or not, lets the loop carry on.
pub fn render_recovery(status: &RenderStatus) -> (r: RenderRecovery)
    ensures
        r is RebuildSurface <==> status is SurfaceLost,
        r is Halt <==> status is OutOfMemory,
        r is Proceed <==> status is Completed || status is OtherError,
{
    match status {
        RenderStatus::Completed => RenderRecovery::Proceed,
        RenderStatus::SurfaceLost => RenderRecovery::RebuildSurface,
        RenderStatus::OutOfMemory => RenderRecovery::Halt,
        RenderStatus::OtherError => RenderRecovery::Proceed,
    }
}

/// How many iterations a loop fed these update results performs: it stops
/// after the first `Stop`, and otherwise runs once per result.
pub open spec fn iterations_run(ticks: Seq<TickResult>) -> int
    decreases ticks.len(),
{
    if ticks.len() == 0 {
        0
    } else if ticks[0] is Stop {
        1
    } else {
        1 + iterations_run(ticks.drop_first())
    }
}

/// How many renders a loop issues across its first `n` draw phases: one per
/// `Changed` report, none for `NoChanges`.
pub open spec fn renders_issued(presents: Seq<PresentResult>, n: int) -> int
    decreases n,
{
    if n <= 0 {
        0
    } else {
        renders_issued(presents, n - 1) + if presents[n - 1] is Changed {
            1int
        } else {
            0int
        }
    }
}

/// Law: an update step that returns `Stop` ends the loop after its own
/// iteration; no further update or draw phase runs.
pub proof fn lemma_stop_ends_loop(ticks: Seq<TickResult>, i: int)
    requires
        0 <= i < ticks.len(),
        ticks[i] is Stop,
        forall|j: int| 0 <= j < i ==> ticks[j] is Continue,
    ensures
        iterations_run(ticks) == i + 1,
    decreases i,
{
    if i > 0 {
        lemma_stop_ends_loop(ticks.drop_first(), i - 1);
    }
}

/// A loop whose update step never asks to stop runs once per result.
pub proof fn lemma_no_stop_runs_all(ticks: Seq<TickResult>)
    requires
        forall|j: int| 0 <= j < ticks.len() ==> ticks[j] is Continue,
    ensures
        iterations_run(ticks) == ticks.len(),
    decreases ticks.len(),
{
    if ticks.len() > 0 {
        lemma_no_stop_runs_all(ticks.drop_first());
    }
}

/// Law: across draw phases that all report `NoChanges`, no render is
/// issued.
pub proof fn lemma_no_change_no_render(presents: Seq<PresentResult>, n: int)
    requires
        0 <= n <= presents.len(),
        forall|j: int| 0 <= j < n ==> presents[j] is NoChanges,
    ensures
        renders_issued(presents, n) == 0,
    decreases n,
{
    if n > 0 {
        lemma_no_change_no_render(presents, n - 1);
    }
}

/// Law: a span of draw phases with exactly one `Changed` report issues
/// exactly one render.
pub proof fn lemma_one_change_one_render(presents: Seq<PresentResult>, n: int, k: int)
    requires
        0 <= k < n <= presents.len(),
        presents[k] is Changed,
        forall|j: int| 0 <= j < n && j != k ==> presents[j] is NoChanges,
    ensures
        renders_issued(presents, n) == 1,
    decreases n,
{
    if n - 1 > k {
        lemma_one_change_one_render(presents, n - 1, k);
    } else {
        lemma_no_change_no_render(presents, n - 1);
    }
}

/// What one run of the frame loop did: how many update and draw phases ran
/// and how many times the frame was pushed to the display.
pub struct LoopTrace {
    /// Update phases performed.
    pub updates: usize,
    /// Draw phases performed.
    pub draws: usize,
    /// Renders issued to the display.
    pub renders: usize,
}

/// The frame loop over a fixed script of phase results: iteration `i` runs
/// an update phase answered by `ticks[i]`, then a draw phase answered by
/// `presents[i]`, renders exactly when the answer is `Changed`, and stops
/// after the first `Stop`. Both phases run once per iteration, and nothing
/// runs after the loop ends.
pub fn run_iterations(ticks: &Vec<TickResult>, presents: &Vec<PresentResult>) -> (t: LoopTrace)
    requires
        presents@.len() == ticks@.len(),
    ensures
        t.updates == iterations_run(ticks@),
        t.draws == iterations_run(ticks@),
        t.renders == renders_issued(presents@, iterations_run(ticks@)),
{
    let n = ticks.len();
    let mut i: usize = 0;
    let mut renders: usize = 0;
    let mut stopped = false;
    while i < n && !stopped
        invariant
            i <= n,
            n == ticks@.len(),
            presents@.len() == n,
            renders == renders_issued(presents@, i as int),
            renders <= i,
            !stopped ==> forall|j: int| 0 <= j < i ==> ticks@[j] is Continue,
            stopped ==> i >= 1 && ticks@[i - 1] is Stop && forall|j: int|
                0 <= j < i - 1 ==> ticks@[j] is Continue,
        decreases n - i,
    {
        // Update phase: the application's answer decides whether this is
        // the last iteration.
        let stop = match ticks[i] {
            TickResult::Stop => true,
            TickResult::Continue => false,
        };
        // Draw phase: runs in the same iteration even when it is the last;
        // a render is issued only on a reported change.
        let changed = match presents[i] {
            PresentResult::Changed => true,
            PresentResult::NoChanges => false,
        };
        if changed {
            renders = renders + 1;
        }
        if stop {
            stopped = true;
        }
        i = i + 1;
    }
    proof {
        if stopped {
            lemma_stop_ends_loop(ticks@, i as int - 1);
        } else {
            lemma_no_stop_runs_all(ticks@);
        }
    }
    LoopTrace { updates: i, draws: i, renders }
}

} // verus!
