use crate::errors::PixelsError;
use crate::interface::{
    ChannelBuilder, Controller, ControllerBuilder, RawColor, StripType,
};
use vstd::prelude::*;

verus! {

/// The only channel in use.
pub const LED_CHANNEL: usize = 0;

/// The signal frequency of WS2812 strips, in hertz.
pub const LED_FREQUENCY: u32 = 800000;

/// The DMA channel that drives the signal.
pub const LED_DMA_CHANNEL: i32 = 10;

/// The brightness the strip starts with.
pub const LED_BRIGHTNESS: u8 = 255;

/// Whether the signal is inverted.
pub const LED_INVERT: bool = false;

/// The GPIO pin of the data line (GPIO 18, pin 12 on a Raspberry Pi).
pub const LED_PIN: i32 = 18;

/// A command to the pixel manager.
#[derive(Clone, Copy, Debug, PartialEq, Eq)]
pub enum Action {
    /// Sets the color of one pixel.
    SetPixel { index: u16, r: u8, g: u8, b: u8 },
    /// Sets every pixel to one color.
    Fill { r: u8, g: u8, b: u8 },
    /// Sets the brightness.
    Brightness(u8),
    /// Commits the buffer to the strip.
    Show,
    /// Stops the pixel manager.
    Shutdown,
}

/// A pixel as the driver stores it: blue, green, red, then a reserved zero.
pub open spec fn raw_color(r: u8, g: u8, b: u8) -> RawColor {
    [b, g, r, 0u8]
}

/// The buffer and brightness after one action. A `Set` past the end of the
/// buffer changes nothing.
pub open spec fn step(st: (Seq<RawColor>, u8), a: Action) -> (Seq<RawColor>, u8) {
    match a {
        Action::SetPixel { index, r, g, b } => if (index as int) < st.0.len() {
            (st.0.update(index as int, raw_color(r, g, b)), st.1)
        } else {
            st
        },
        Action::Fill { r, g, b } => (Seq::new(st.0.len(), |i: int| raw_color(r, g, b)), st.1),
        Action::Brightness(level) => (st.0, level),
        Action::Show | Action::Shutdown => st,
    }
}

/// The buffer and brightness after a sequence of actions, in order.
pub open spec fn run(st: (Seq<RawColor>, u8), acts: Seq<Action>) -> (Seq<RawColor>, u8)
    decreases acts.len(),
{
    if acts.len() == 0 {
        st
    } else {
        step(run(st, acts.drop_last()), acts.last())
    }
}

/// What the strip displays after a sequence of actions: the buffer and
/// brightness at the last `Show`, or `shown` when there was none.
pub open spec fn displayed(
    st: (Seq<RawColor>, u8),
    shown: (Seq<RawColor>, u8),
    acts: Seq<Action>,
) -> (Seq<RawColor>, u8)
    decreases acts.len(),
{
    if acts.len() == 0 {
        shown
    } else if acts.last() == Action::Show {
        run(st, acts)
    } else {
        displayed(st, shown, acts.drop_last())
    }
}

/// The writes of a sequence of actions: all but its `Show`s.
pub open spec fn writes(acts: Seq<Action>) -> Seq<Action> {
    acts.filter(|a: Action| a != Action::Show)
}

/// The controller's state in the model.
pub open spec fn state_of(c: Controller) -> (Seq<RawColor>, u8) {
    (c.leds@, c.brightness)
}

proof fn lemma_run_skips_shows(st: (Seq<RawColor>, u8), acts: Seq<Action>)
    ensures
        run(st, acts) == run(st, writes(acts)),
    decreases acts.len(),
{
    reveal(Seq::filter);
    if acts.len() > 0 {
        lemma_run_skips_shows(st, acts.drop_last());
        let f = |a: Action| a != Action::Show;
        assert(acts.drop_last().filter(f) == writes(acts.drop_last()));
        if acts.last() == Action::Show {
            assert(writes(acts) == writes(acts.drop_last()));
        } else {
            let w = writes(acts);
            assert(w.drop_last() == writes(acts.drop_last()));
            assert(w.last() == acts.last());
        }
    }
}

/// Once a sequence of actions ends with `Show`, the strip displays what the
/// writes of the sequence, applied in order to the starting buffer, produce:
/// the `Show`s in between make no difference.
pub proof fn lemma_show_commits_writes(
    st: (Seq<RawColor>, u8),
    shown: (Seq<RawColor>, u8),
    acts: Seq<Action>,
)
    requires
        acts.len() > 0,
        acts.last() == Action::Show,
    ensures
        displayed(st, shown, acts) == run(st, writes(acts)),
{
    lemma_run_skips_shows(st, acts);
}

/// Builds the controller for a strip of `leds` pixels with the fixed channel
/// settings.
pub fn build_controller(leds: u16) -> (r: Result<Controller, PixelsError>)
    ensures
        r is Ok,
        r->Ok_0.leds@ == Seq::new(leds as nat, |i: int| [0u8, 0u8, 0u8, 0u8]),
        r->Ok_0.brightness == LED_BRIGHTNESS,
{
    let mut channel = ChannelBuilder::new();
    let settings = channel.pin(LED_PIN).count(leds as i32).strip_type(StripType::Ws2812).brightness(
        LED_BRIGHTNESS,
    ).invert(LED_INVERT).build();
    let mut builder = ControllerBuilder::new();
    let built = builder.freq(LED_FREQUENCY).dma(LED_DMA_CHANNEL).channel(LED_CHANNEL, settings).build();
    match built {
        Ok(c) => Ok(c),
        Err(e) => Err(PixelsError::from(e)),
    }
}

/// Applies one action to the controller. Returns `false` once the manager is
/// to stop, on `Shutdown`.
pub fn apply_action(controller: &mut Controller, action: Action) -> (r: bool)
    ensures
        state_of(*final(controller)) == step(state_of(*old(controller)), action),
        r == (action != Action::Shutdown),
{
    match action {
        Action::Shutdown => false,
        Action::SetPixel { index, r, g, b } => {
            let pixels = controller.leds_mut(LED_CHANNEL);
            if (index as usize) < pixels.len() {
                pixels[index as usize] = [b, g, r, 0u8];
            }
            true
        },
        Action::Fill { r, g, b } => {
            let pixels = controller.leds_mut(LED_CHANNEL);
            let n = pixels.len();
            let ghost start = pixels@;
            let mut i: usize = 0;
            while i < n
                invariant
                    n == pixels@.len(),
                    start.len() == n,
                    i <= n,
                    forall|k: int| 0 <= k < i ==> pixels@[k] == raw_color(r, g, b),
                decreases n - i,
            {
                pixels[i] = [b, g, r, 0u8];
                i = i + 1;
            }
            assert(pixels@ =~= Seq::new(start.len(), |k: int| raw_color(r, g, b)));
            true
        },
        Action::Brightness(level) => {
            controller.set_brightness(LED_CHANNEL, level);
            true
        },
        Action::Show => {
            let _ = controller.render();
            true
        },
    }
}

} // verus!
