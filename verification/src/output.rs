//! Display outputs: the descriptor that announces one, and the entry that
//! is kept for it.

use vstd::prelude::*;

use crate::geometry::Point;
use crate::geometry::Size;

verus! {

/// A video mode: pixel dimensions and refresh rate.
#[derive(Debug, Clone, Copy, PartialEq, Eq, Structural)]
pub struct OutputMode {
    pub width: i32,
    pub height: i32,
    pub refresh: i32,
}

/// How the physical subpixels of an output are laid out.
#[derive(Debug, Clone, Copy, PartialEq, Eq, Structural)]
pub enum SubpixelLayout {
    Unknown,
    Absent,
    HorizontalRgb,
    HorizontalBgr,
    VerticalRgb,
    VerticalBgr,
}

/// Rotation and flip applied to an output's contents.
#[derive(Debug, Clone, Copy, PartialEq, Eq, Structural)]
pub enum OutputTransform {
    Normal,
    Rotated90,
    Rotated180,
    Rotated270,
    Flipped,
    Flipped90,
    Flipped180,
    Flipped270,
}

/// The mode part of an output descriptor.
#[derive(Debug, Clone, Copy, PartialEq, Eq, Structural)]
pub struct ModeInfo {
    pub dimensions: Size,
    pub refresh_rate: i32,
    pub preferred: bool,
}

impl ModeInfo {
    /// The video mode that this descriptor part announces.
    pub open spec fn mode(self) -> OutputMode {
        OutputMode {
            width: self.dimensions.w,
            height: self.dimensions.h,
            refresh: self.refresh_rate,
        }
    }
}

/// An externally supplied description of one output.
#[derive(Debug, Clone)]
pub struct OutputInfo {
    pub id: u32,
    pub name: Option<String>,
    pub physical_size: Size,
    pub subpixel: SubpixelLayout,
    pub make: String,
    pub model: String,
    pub mode: ModeInfo,
    pub transform: OutputTransform,
    pub scale_factor: i32,
    pub location: Point,
}

/// The test that a mode passes unless it is `mode`.
pub open spec fn other_than(mode: OutputMode) -> spec_fn(OutputMode) -> bool {
    |m: OutputMode| m != mode
}

/// What an output entry holds.
pub struct OutputState {
    pub name: Seq<char>,
    pub physical_size: Size,
    pub subpixel: SubpixelLayout,
    pub make: Seq<char>,
    pub model: Seq<char>,
    /// The known modes, in the order in which they were first seen.
    pub modes: Seq<OutputMode>,
    pub current: Option<OutputMode>,
    pub preferred: Option<OutputMode>,
    pub transform: OutputTransform,
    /// The integer scale advertised to clients.
    pub scale: i32,
    pub location: Point,
}

impl OutputState {
    /// A freshly created output: no modes, identity transform, scale 1, at
    /// the origin.
    pub open spec fn fresh(
        name: Seq<char>,
        physical_size: Size,
        subpixel: SubpixelLayout,
        make: Seq<char>,
        model: Seq<char>,
    ) -> OutputState {
        OutputState {
            name,
            physical_size,
            subpixel,
            make,
            model,
            modes: Seq::empty(),
            current: None,
            preferred: None,
            transform: OutputTransform::Normal,
            scale: 1,
            location: Point { x: 0, y: 0 },
        }
    }

    /// The known modes with `mode` appended unless it is already among them.
    pub open spec fn modes_with(self, mode: OutputMode) -> Seq<OutputMode> {
        if self.modes.contains(mode) {
            self.modes
        } else {
            self.modes.push(mode)
        }
    }

    /// `mode` is forgotten: it leaves the known modes, and the current and
    /// preferred modes are cleared where they were `mode`.
    pub open spec fn without_mode(self, mode: OutputMode) -> OutputState {
        OutputState {
            modes: self.modes.filter(other_than(mode)),
            current: if self.current == Some(mode) {
                None
            } else {
                self.current
            },
            preferred: if self.preferred == Some(mode) {
                None
            } else {
                self.preferred
            },
            ..self
        }
    }

    /// `mode` becomes the current mode (and a known one), together with the
    /// given transform, scale and location.
    pub open spec fn with_current(
        self,
        mode: OutputMode,
        transform: OutputTransform,
        scale: i32,
        location: Point,
    ) -> OutputState {
        OutputState {
            modes: self.modes_with(mode),
            current: Some(mode),
            transform,
            scale,
            location,
            ..self
        }
    }

    /// `mode` becomes the preferred mode (and a known one).
    pub open spec fn with_preferred(self, mode: OutputMode) -> OutputState {
        OutputState { modes: self.modes_with(mode), preferred: Some(mode), ..self }
    }
}

/// One output: its fixed properties and its changing state.
#[derive(Debug)]
pub struct OutputEntry {
    name: String,
    physical_size: Size,
    subpixel: SubpixelLayout,
    make: String,
    model: String,
    modes: Vec<OutputMode>,
    current: Option<OutputMode>,
    preferred: Option<OutputMode>,
    transform: OutputTransform,
    scale: i32,
    location: Point,
}

impl View for OutputEntry {
    type V = OutputState;

    closed spec fn view(&self) -> OutputState {
        OutputState {
            name: self.name@,
            physical_size: self.physical_size,
            subpixel: self.subpixel,
            make: self.make@,
            model: self.model@,
            modes: self.modes@,
            current: self.current,
            preferred: self.preferred,
            transform: self.transform,
            scale: self.scale,
            location: self.location,
        }
    }
}

/// Whether `mode` is among `modes`.
fn knows_mode(modes: &Vec<OutputMode>, mode: OutputMode) -> (known: bool)
    ensures
        known == modes@.contains(mode),
{
    let mut i: usize = 0;
    while i < modes.len()
        invariant
            i <= modes.len(),
            forall|j: int| 0 <= j < i ==> modes@[j] != mode,
        decreases modes.len() - i,
    {
        if modes[i] == mode {
            return true;
        }
        i += 1;
    }
    false
}

impl OutputEntry {
    /// An output with the given name and physical properties, and nothing
    /// else set.
    pub fn new(
        name: String,
        physical_size: Size,
        subpixel: SubpixelLayout,
        make: String,
        model: String,
    ) -> (entry: Self)
        ensures
            entry@ == OutputState::fresh(name@, physical_size, subpixel, make@, model@),
    {
        OutputEntry {
            name,
            physical_size,
            subpixel,
            make,
            model,
            modes: Vec::new(),
            current: None,
            preferred: None,
            transform: OutputTransform::Normal,
            scale: 1,
            location: Point { x: 0, y: 0 },
        }
    }

    /// The name that the output was created with.
    pub fn name(&self) -> (name: &String)
        ensures
            name@ == self@.name,
    {
        &self.name
    }

    /// The physical size, in millimetres.
    pub fn physical_size(&self) -> (size: Size)
        ensures
            size == self@.physical_size,
    {
        self.physical_size
    }

    /// The subpixel layout.
    pub fn subpixel(&self) -> (layout: SubpixelLayout)
        ensures
            layout == self@.subpixel,
    {
        self.subpixel
    }

    /// The make of the monitor.
    pub fn make(&self) -> (make: &String)
        ensures
            make@ == self@.make,
    {
        &self.make
    }

    /// The model of the monitor.
    pub fn model(&self) -> (model: &String)
        ensures
            model@ == self@.model,
    {
        &self.model
    }

    /// The known modes, in the order in which they were first seen.
    pub fn modes(&self) -> (modes: &Vec<OutputMode>)
        ensures
            modes@ == self@.modes,
    {
        &self.modes
    }

    /// The current mode, if one was set and not deleted since.
    pub fn current_mode(&self) -> (mode: Option<OutputMode>)
        ensures
            mode == self@.current,
    {
        self.current
    }

    /// The preferred mode, if one was set and not deleted since.
    pub fn preferred_mode(&self) -> (mode: Option<OutputMode>)
        ensures
            mode == self@.preferred,
    {
        self.preferred
    }

    /// The current transform.
    pub fn current_transform(&self) -> (transform: OutputTransform)
        ensures
            transform == self@.transform,
    {
        self.transform
    }

    /// The current integer scale.
    pub fn current_scale(&self) -> (scale: i32)
        ensures
            scale == self@.scale,
    {
        self.scale
    }

    /// The current logical position.
    pub fn current_location(&self) -> (location: Point)
        ensures
            location == self@.location,
    {
        self.location
    }

    /// Forgets a mode: it leaves the known modes, and the current and the
    /// preferred mode are cleared where they were that mode.
    pub fn delete_mode(&mut self, mode: OutputMode)
        ensures
            final(self)@ == old(self)@.without_mode(mode),
    {
        let ghost pred = other_than(mode);
        let mut kept: Vec<OutputMode> = Vec::new();
        let mut i: usize = 0;
        proof {
            reveal(Seq::filter);
            assert(self.modes@.take(0) =~= Seq::<OutputMode>::empty());
        }
        while i < self.modes.len()
            invariant
                i <= self.modes.len(),
                pred == other_than(mode),
                kept@ == self.modes@.take(i as int).filter(pred),
                *self == *old(self),
            decreases self.modes.len() - i,
        {
            let m = self.modes[i];
            proof {
                reveal(Seq::filter);
                let next = self.modes@.take(i + 1);
                assert(next.drop_last() =~= self.modes@.take(i as int));
                assert(next.last() == m);
            }
            if m != mode {
                kept.push(m);
            }
            i += 1;
        }
        assert(self.modes@.take(i as int) =~= self.modes@);
        self.modes = kept;
        let current_gone = match self.current {
            Some(m) => m == mode,
            None => false,
        };
        if current_gone {
            self.current = None;
        }
        let preferred_gone = match self.preferred {
            Some(m) => m == mode,
            None => false,
        };
        if preferred_gone {
            self.preferred = None;
        }
    }

    /// Makes a mode the current one, and a known one if it was not, and
    /// replaces transform, scale and location, all at once.
    pub fn change_current_state(
        &mut self,
        mode: OutputMode,
        transform: OutputTransform,
        scale: i32,
        location: Point,
    )
        ensures
            final(self)@ == old(self)@.with_current(mode, transform, scale, location),
    {
        if !knows_mode(&self.modes, mode) {
            self.modes.push(mode);
        }
        self.current = Some(mode);
        self.transform = transform;
        self.scale = scale;
        self.location = location;
    }

    /// Makes a mode the preferred one, and a known one if it was not.
    pub fn set_preferred(&mut self, mode: OutputMode)
        ensures
            final(self)@ == old(self)@.with_preferred(mode),
    {
        if !knows_mode(&self.modes, mode) {
            self.modes.push(mode);
        }
        self.preferred = Some(mode);
    }
}

} // verus!
