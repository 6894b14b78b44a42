use vstd::prelude::*;

verus! {

/// The keys the frame loop reacts to.
#[derive(Clone, Copy, Debug, PartialEq, Eq, Structural)]
pub enum Key {
    Escape,
    W,
    S,
    A,
    D,
    Other,
}

/// What the window reports between two frames, as far as the frame loop
/// cares.
#[derive(Clone, Copy, Debug, PartialEq, Eq, Structural)]
pub enum InputEvent {
    /// The window is closed.
    Quit,
    /// A key is pressed; `None` when the key has no key code.
    KeyDown(Option<Key>),
    /// The window is resized to a width and a height.
    Resized(i32, i32),
    /// Anything else.
    Other,
}

/// What the frame loop does in answer to an event.
#[derive(Clone, Copy, Debug, PartialEq, Eq, Structural)]
pub enum Action {
    /// Leave the loop.
    Exit,
    StepForward,
    StepBackward,
    StepRight,
    StepLeft,
    /// The window's size changed: recompute what depends on it.
    Resize,
    /// Nothing to do.
    Ignore,
}

/// The answer to an event. The `A` key steps right and the `D` key steps
/// left.
pub open spec fn action_for(event: InputEvent) -> Action {
    match event {
        InputEvent::Quit => Action::Exit,
        InputEvent::KeyDown(Some(Key::Escape)) => Action::Exit,
        InputEvent::KeyDown(Some(Key::W)) => Action::StepForward,
        InputEvent::KeyDown(Some(Key::S)) => Action::StepBackward,
        InputEvent::KeyDown(Some(Key::A)) => Action::StepRight,
        InputEvent::KeyDown(Some(Key::D)) => Action::StepLeft,
        InputEvent::Resized(_, _) => Action::Resize,
        _ => Action::Ignore,
    }
}

/// Every resize is answered with `Resize`, whatever the new width and height;
/// quitting and the escape key exit; `W`, `S`, `A`, `D` step forward, backward,
/// right and left; every other key, and every other event, is ignored.
pub proof fn lemma_answers(w: i32, h: i32, key: Key)
    ensures
        action_for(InputEvent::Resized(w, h)) == Action::Resize,
        action_for(InputEvent::Quit) == Action::Exit,
        action_for(InputEvent::KeyDown(Some(Key::Escape))) == Action::Exit,
        action_for(InputEvent::KeyDown(Some(Key::W))) == Action::StepForward,
        action_for(InputEvent::KeyDown(Some(Key::S))) == Action::StepBackward,
        action_for(InputEvent::KeyDown(Some(Key::A))) == Action::StepRight,
        action_for(InputEvent::KeyDown(Some(Key::D))) == Action::StepLeft,
        action_for(InputEvent::KeyDown(Some(Key::Other))) == Action::Ignore,
        action_for(InputEvent::KeyDown(None)) == Action::Ignore,
        action_for(InputEvent::Other) == Action::Ignore,
        action_for(InputEvent::KeyDown(Some(key))) != Action::Resize,
{
}

/// The size of the window, in pixels, as the frame loop knows it.
pub struct WindowSize {
    pub width: u32,
    pub height: u32,
}

impl WindowSize {
    pub fn new(width: u32, height: u32) -> (size: WindowSize)
        ensures
            size.width == width,
            size.height == height,
    {
        WindowSize { width, height }
    }

    /// Answers one event. A resize takes the reported width and height, each
    /// read as a `u32` bit for bit; every other event leaves the size as it is.
    pub fn handle_event(&mut self, event: InputEvent) -> (action: Action)
        ensures
            action == action_for(event),
            event is Quit ==> action == Action::Exit,
            event == InputEvent::KeyDown(Some(Key::Escape)) ==> action == Action::Exit,
            event == InputEvent::KeyDown(Some(Key::W)) ==> action == Action::StepForward,
            event == InputEvent::KeyDown(Some(Key::S)) ==> action == Action::StepBackward,
            event == InputEvent::KeyDown(Some(Key::A)) ==> action == Action::StepRight,
            event == InputEvent::KeyDown(Some(Key::D)) ==> action == Action::StepLeft,
            event == InputEvent::KeyDown(Some(Key::Other)) ==> action == Action::Ignore,
            event == InputEvent::KeyDown(None) ==> action == Action::Ignore,
            event is Resized ==> action == Action::Resize,
            event is Other ==> action == Action::Ignore,
            event matches InputEvent::Resized(w, h) ==> final(self).width == w as u32
                && final(self).height == h as u32,
            !(event is Resized) ==> final(self).width == old(self).width && final(self).height
                == old(self).height,
    {
        match event {
            InputEvent::Quit => Action::Exit,
            InputEvent::KeyDown(Some(Key::Escape)) => Action::Exit,
            InputEvent::KeyDown(Some(Key::W)) => Action::StepForward,
            InputEvent::KeyDown(Some(Key::S)) => Action::StepBackward,
            InputEvent::KeyDown(Some(Key::A)) => Action::StepRight,
            InputEvent::KeyDown(Some(Key::D)) => Action::StepLeft,
            InputEvent::Resized(w, h) => {
                self.width = w as u32;
                self.height = h as u32;
                Action::Resize
            },
            _ => Action::Ignore,
        }
    }

    /// The point the mouse is put back to after each frame: the middle of
    /// the window, rounded down.
    pub fn mouse_anchor(&self) -> (anchor: (u32, u32))
        ensures
            anchor.0 == self.width / 2,
            anchor.1 == self.height / 2,
    {
        (self.width / 2, self.height / 2)
    }
}

/// How long the frame loop sleeps after each frame, in nanoseconds, to run at
/// `frame_rate` frames a second.
pub fn frame_sleep_nanos(frame_rate: u32) -> (nanos: u32)
    requires
        frame_rate > 0,
    ensures
        nanos == 1_000_000_000int / (frame_rate as int),
{
    1_000_000_000u32 / frame_rate
}

/// Whether the frame loop runs a physics step: when more time has passed
/// since the last step than one step's length, both in nanoseconds.
pub fn should_step_physics(elapsed_nanos: u128, step_nanos: u128) -> (step: bool)
    ensures
        step == (elapsed_nanos > step_nanos),
{
    elapsed_nanos > step_nanos
}

/// The extent of the texture the scene is first drawn into, from the
/// window's size as the window reports it, `(width, height)`: the reported
/// height over four becomes the texture's width, and the reported width over
/// four its height.
pub fn texture_extent(window_size: (u32, u32)) -> (extent: (u32, u32))
    ensures
        extent.0 == window_size.1 / 4,
        extent.1 == window_size.0 / 4,
{
    let (h, w) = window_size;
    (w / 4, h / 4)
}

} // verus!
