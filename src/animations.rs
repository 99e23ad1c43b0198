//! Animations as the controller stores and schedules them: their kinds, the
//! file format of the store, the errors of each stage, and the decisions of
//! the animator that runs one animation at a time.

use crate::pixels::Action;
use vstd::prelude::*;

verus! {

/// The kinds of animation.
#[derive(Clone, Copy, Debug, PartialEq, Eq)]
pub enum AnimationKind {
    /// A compiled WebAssembly module.
    Wasm,
    /// An interpreted Flow program.
    Flow,
}

/// The byte that marks a kind at the start of a stored animation.
pub open spec fn tag_of(kind: AnimationKind) -> u8 {
    match kind {
        AnimationKind::Wasm => 1,
        AnimationKind::Flow => 2,
    }
}

/// The kind a byte marks, if any.
pub open spec fn kind_of_tag(tag: u8) -> Option<AnimationKind> {
    if tag == 1 {
        Some(AnimationKind::Wasm)
    } else if tag == 2 {
        Some(AnimationKind::Flow)
    } else {
        None
    }
}

impl AnimationKind {
    /// The byte that marks the kind.
    pub fn to_tag(&self) -> (r: u8)
        ensures
            r == tag_of(*self),
    {
        match self {
            AnimationKind::Wasm => 1,
            AnimationKind::Flow => 2,
        }
    }

    /// The kind a byte marks.
    pub fn from_tag(tag: u8) -> (r: Option<AnimationKind>)
        ensures
            r == kind_of_tag(tag),
    {
        if tag == 1 {
            Some(AnimationKind::Wasm)
        } else if tag == 2 {
            Some(AnimationKind::Flow)
        } else {
            None
        }
    }
}

/// Why an animation could not be built.
#[derive(Clone, Copy, Debug, PartialEq, Eq)]
pub enum BuildKind {
    /// The bytes are not a program of the kind.
    Parsing,
    /// The module did not compile.
    Compilation,
    /// The module could not be instantiated, or lacks its frame function.
    Finalization,
}

/// Why a stored animation could not be loaded.
#[derive(Clone, Copy, Debug, PartialEq, Eq)]
pub enum LoadKind {
    NotFound,
    UnknownType,
    Loading,
    IO,
    Finalization,
}

/// Why an animation could not be stored.
#[derive(Clone, Copy, Debug, PartialEq, Eq)]
pub enum SaveKind {
    IO,
    Serialization,
}

/// Why registering an animation failed.
#[derive(Clone, Copy, Debug, PartialEq, Eq)]
pub enum RegistrationError {
    BuildError(BuildKind),
    SaveError(SaveKind),
}

impl BuildKind {
    /// The message shown for the error.
    pub fn message(&self) -> &'static str {
        match self {
            BuildKind::Parsing => "unable to load from bytes",
            BuildKind::Compilation => "failed to compile animation",
            BuildKind::Finalization => "failed to finalize instance",
        }
    }
}

impl LoadKind {
    /// The message shown for the error.
    pub fn message(&self) -> &'static str {
        match self {
            LoadKind::NotFound => "animation not found",
            LoadKind::UnknownType => "unknown animation type",
            LoadKind::Loading => "failed to load from bytes",
            LoadKind::IO => "failed to read file",
            LoadKind::Finalization => "failed to finalize instance",
        }
    }
}

impl SaveKind {
    /// The message shown for the error.
    pub fn message(&self) -> &'static str {
        match self {
            SaveKind::IO => "failed to write to string",
            SaveKind::Serialization => "failed to serialize animation",
        }
    }
}

/// The stored form of an animation: its kind's byte, then the payload.
pub open spec fn encode_spec(kind: AnimationKind, payload: Seq<u8>) -> Seq<u8> {
    seq![tag_of(kind)] + payload
}

/// The kind and payload of a stored animation; `UnknownType` when the first
/// byte marks no kind or there is none.
pub open spec fn decode_spec(content: Seq<u8>) -> Result<(AnimationKind, Seq<u8>), LoadKind> {
    if content.len() == 0 {
        Err(LoadKind::UnknownType)
    } else {
        match kind_of_tag(content[0]) {
            Some(kind) => Ok((kind, content.drop_first())),
            None => Err(LoadKind::UnknownType),
        }
    }
}

/// The stored form of an animation.
pub fn encode_animation(kind: AnimationKind, payload: &Vec<u8>) -> (r: Vec<u8>)
    ensures
        r@ == encode_spec(kind, payload@),
{
    let mut content: Vec<u8> = Vec::new();
    content.push(kind.to_tag());
    let mut i: usize = 0;
    while i < payload.len()
        invariant
            i <= payload@.len(),
            content@ == seq![tag_of(kind)] + payload@.subrange(0, i as int),
        decreases payload@.len() - i,
    {
        content.push(payload[i]);
        i = i + 1;
        assert(content@ =~= seq![tag_of(kind)] + payload@.subrange(0, i as int));
    }
    assert(payload@.subrange(0, i as int) =~= payload@);
    content
}

/// The kind and payload of a stored animation.
pub fn decode_animation(content: &Vec<u8>) -> (r: Result<(AnimationKind, Vec<u8>), LoadKind>)
    ensures
        match decode_spec(content@) {
            Ok((kind, payload)) => r is Ok && r->Ok_0.0 == kind && r->Ok_0.1@ == payload,
            Err(e) => r == Err::<(AnimationKind, Vec<u8>), LoadKind>(e),
        },
{
    if content.len() == 0 {
        return Err(LoadKind::UnknownType);
    }
    let kind = match AnimationKind::from_tag(content[0]) {
        Some(k) => k,
        None => {
            return Err(LoadKind::UnknownType);
        },
    };
    let mut payload: Vec<u8> = Vec::new();
    let mut i: usize = 1;
    while i < content.len()
        invariant
            1 <= i <= content@.len(),
            payload@ == content@.subrange(1, i as int),
        decreases content@.len() - i,
    {
        payload.push(content[i]);
        i = i + 1;
        assert(payload@ =~= content@.subrange(1, i as int));
    }
    assert(content@.drop_first() =~= content@.subrange(1, i as int));
    Ok((kind, payload))
}

/// Loading what was saved gives back the kind and the payload.
pub proof fn lemma_store_round_trip(kind: AnimationKind, payload: Seq<u8>)
    ensures
        decode_spec(encode_spec(kind, payload)) == Ok::<(AnimationKind, Seq<u8>), LoadKind>(
            (kind, payload),
        ),
{
    let c = encode_spec(kind, payload);
    assert(c[0] == tag_of(kind));
    assert(c.drop_first() =~= payload);
}

/// A command to the animator.
#[derive(Clone, Debug, PartialEq, Eq)]
pub enum Command {
    /// Load the animation with the id and run it.
    Start(String),
    /// Stop the running animation.
    Stop,
    /// Stop the animator.
    Shutdown,
}

/// What the animator does next.
#[derive(Clone, Debug, PartialEq, Eq)]
pub enum Directive {
    /// Load the animation with the id; it replaces the running one once loaded.
    Load(String),
    /// Drop the running animation, if any.
    Clear,
    /// Go on: wait for a command when idle, run the next frame otherwise.
    Proceed,
    /// Leave the loop.
    Exit,
}

/// The state of the animator: whether an animation is loaded and runs.
#[derive(Clone, Copy, Debug, PartialEq, Eq)]
pub struct Executor {
    pub running: bool,
}

impl Executor {
    /// An animator with no animation.
    pub fn new() -> (r: Executor)
        ensures
            !r.running,
    {
        Executor { running: false }
    }

    /// Whether the animator waits for a command rather than running a frame.
    pub fn waits(&self) -> (r: bool)
        ensures
            r == !self.running,
    {
        !self.running
    }

    /// Reacts to a command, or to the channel's end (`None`): `Start` loads,
    /// `Stop` empties the slot, `Shutdown` and the end of the channel exit.
    pub fn on_command(&mut self, command: Option<Command>) -> (r: Directive)
        ensures
            match command {
                Some(Command::Start(id)) => r == Directive::Load(id) && final(self).running == old(
                    self,
                ).running,
                Some(Command::Stop) => r == Directive::Clear && !final(self).running,
                Some(Command::Shutdown) | None => r == Directive::Exit && final(self).running == old(
                    self,
                ).running,
            },
    {
        match command {
            Some(Command::Start(id)) => Directive::Load(id),
            Some(Command::Stop) => {
                self.running = false;
                Directive::Clear
            },
            Some(Command::Shutdown) | None => Directive::Exit,
        }
    }

    /// Reacts to a load: a loaded animation runs, replacing any other; a
    /// failed load leaves the slot as it was.
    pub fn on_load(&mut self, loaded: bool)
        ensures
            final(self).running == (loaded || old(self).running),
    {
        if loaded {
            self.running = true;
        }
    }

    /// Reacts to a frame: a frame that failed empties the slot.
    pub fn on_frame(&mut self, succeeded: bool) -> (r: Directive)
        ensures
            succeeded ==> r == Directive::Proceed && final(self).running == old(self).running,
            !succeeded ==> r == Directive::Clear && !final(self).running,
    {
        if succeeded {
            Directive::Proceed
        } else {
            self.running = false;
            Directive::Clear
        }
    }
}

/// The pixel command for the host call `set(index, r, g, b)` of a module,
/// each argument clamped into its range.
pub fn host_set(index: i32, r: i32, g: i32, b: i32) -> (a: Action)
    ensures
        a == (Action::SetPixel {
            index: clamp_i32_u16(index),
            r: clamp_i32_u8(r),
            g: clamp_i32_u8(g),
            b: clamp_i32_u8(b),
        }),
{
    Action::SetPixel { index: to_u16(index), r: to_u8(r), g: to_u8(g), b: to_u8(b) }
}

/// The pixel command for the host call `fill(r, g, b)` of a module.
pub fn host_fill(r: i32, g: i32, b: i32) -> (a: Action)
    ensures
        a == (Action::Fill { r: clamp_i32_u8(r), g: clamp_i32_u8(g), b: clamp_i32_u8(b) }),
{
    Action::Fill { r: to_u8(r), g: to_u8(g), b: to_u8(b) }
}

/// The pixel command for the host call `brightness(level)` of a module.
pub fn host_brightness(level: i32) -> (a: Action)
    ensures
        a == Action::Brightness(clamp_i32_u8(level)),
{
    Action::Brightness(to_u8(level))
}

/// An integer clamped to the range of `u8`.
pub open spec fn clamp_i32_u8(v: i32) -> u8 {
    if v < 0 {
        0
    } else if v > 255 {
        255
    } else {
        v as u8
    }
}

/// An integer clamped to the range of `u16`.
pub open spec fn clamp_i32_u16(v: i32) -> u16 {
    if v < 0 {
        0
    } else if v > 65535 {
        65535
    } else {
        v as u16
    }
}

fn to_u8(v: i32) -> (r: u8)
    ensures
        r == clamp_i32_u8(v),
{
    if v < 0 {
        0
    } else if v > 255 {
        255
    } else {
        v as u8
    }
}

fn to_u16(v: i32) -> (r: u16)
    ensures
        r == clamp_i32_u16(v),
{
    if v < 0 {
        0
    } else if v > 65535 {
        65535
    } else {
        v as u16
    }
}

} // verus!
