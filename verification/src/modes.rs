//! What a viewer of the flow shows, and how its keys walk through the
//! choices.

use vstd::prelude::*;

verus! {

/// How values become colours.
#[derive(Clone, Copy, Debug, PartialEq, Eq, Structural)]
pub enum ColorMode {
    Color,
    Grayscale,
    Obstacle,
}

/// Which fields are on screen.
#[derive(Clone, Copy, Debug, PartialEq, Eq, Structural)]
pub enum VisualizationMode {
    Smoke,
    Pressure,
    Speed,
    SmokePressure,
    SmokeSpeed,
}

/// One field of the simulation, as a viewer asks for it.
#[derive(Clone, Copy, Debug, PartialEq, Eq, Structural)]
pub enum Layer {
    Smoke,
    Pressure,
    Speed,
    Cells,
}

impl ColorMode {
    /// The mode after this one: colour, grey, obstacle, and round again.
    pub open spec fn next_spec(self) -> Self {
        match self {
            ColorMode::Color => ColorMode::Grayscale,
            ColorMode::Grayscale => ColorMode::Obstacle,
            ColorMode::Obstacle => ColorMode::Color,
        }
    }

    /// The mode before this one.
    pub open spec fn previous_spec(self) -> Self {
        match self {
            ColorMode::Grayscale => ColorMode::Color,
            ColorMode::Obstacle => ColorMode::Grayscale,
            ColorMode::Color => ColorMode::Obstacle,
        }
    }

    /// The mode after this one.
    pub fn next(self) -> (r: Self)
        ensures
            r == self.next_spec(),
    {
        match self {
            ColorMode::Color => ColorMode::Grayscale,
            ColorMode::Grayscale => ColorMode::Obstacle,
            ColorMode::Obstacle => ColorMode::Color,
        }
    }

    /// The mode before this one.
    pub fn previous(self) -> (r: Self)
        ensures
            r == self.previous_spec(),
    {
        match self {
            ColorMode::Grayscale => ColorMode::Color,
            ColorMode::Obstacle => ColorMode::Grayscale,
            ColorMode::Color => ColorMode::Obstacle,
        }
    }

    /// Going on and going back undo each other.
    pub proof fn lemma_round_trip(self)
        ensures
            self.next_spec().previous_spec() == self,
            self.previous_spec().next_spec() == self,
    {
    }
}

impl VisualizationMode {
    /// The mode after this one: pressure, smoke, speed, smoke under
    /// pressure, smoke under speed, and round again.
    pub open spec fn next_spec(self) -> Self {
        match self {
            VisualizationMode::Pressure => VisualizationMode::Smoke,
            VisualizationMode::Smoke => VisualizationMode::Speed,
            VisualizationMode::Speed => VisualizationMode::SmokePressure,
            VisualizationMode::SmokePressure => VisualizationMode::SmokeSpeed,
            VisualizationMode::SmokeSpeed => VisualizationMode::Pressure,
        }
    }

    /// The mode before this one.
    pub open spec fn previous_spec(self) -> Self {
        match self {
            VisualizationMode::Smoke => VisualizationMode::Pressure,
            VisualizationMode::Speed => VisualizationMode::Smoke,
            VisualizationMode::SmokePressure => VisualizationMode::Speed,
            VisualizationMode::SmokeSpeed => VisualizationMode::SmokePressure,
            VisualizationMode::Pressure => VisualizationMode::SmokeSpeed,
        }
    }

    /// The field whose values choose the hue.
    pub open spec fn image_spec(self) -> Layer {
        match self {
            VisualizationMode::Pressure | VisualizationMode::SmokePressure => Layer::Pressure,
            VisualizationMode::Speed | VisualizationMode::SmokeSpeed => Layer::Speed,
            VisualizationMode::Smoke => Layer::Smoke,
        }
    }

    /// The field whose values choose the brightness.
    pub open spec fn mask_spec(self) -> Layer {
        match self {
            VisualizationMode::Pressure | VisualizationMode::Speed | VisualizationMode::Smoke =>
                Layer::Cells,
            VisualizationMode::SmokeSpeed | VisualizationMode::SmokePressure => Layer::Smoke,
        }
    }

    /// The mode after this one.
    pub fn next(self) -> (r: Self)
        ensures
            r == self.next_spec(),
    {
        match self {
            VisualizationMode::Pressure => VisualizationMode::Smoke,
            VisualizationMode::Smoke => VisualizationMode::Speed,
            VisualizationMode::Speed => VisualizationMode::SmokePressure,
            VisualizationMode::SmokePressure => VisualizationMode::SmokeSpeed,
            VisualizationMode::SmokeSpeed => VisualizationMode::Pressure,
        }
    }

    /// The mode before this one.
    pub fn previous(self) -> (r: Self)
        ensures
            r == self.previous_spec(),
    {
        match self {
            VisualizationMode::Smoke => VisualizationMode::Pressure,
            VisualizationMode::Speed => VisualizationMode::Smoke,
            VisualizationMode::SmokePressure => VisualizationMode::Speed,
            VisualizationMode::SmokeSpeed => VisualizationMode::SmokePressure,
            VisualizationMode::Pressure => VisualizationMode::SmokeSpeed,
        }
    }

    /// The field whose values choose the hue.
    pub fn image(self) -> (r: Layer)
        ensures
            r == self.image_spec(),
    {
        match self {
            VisualizationMode::Pressure | VisualizationMode::SmokePressure => Layer::Pressure,
            VisualizationMode::Speed | VisualizationMode::SmokeSpeed => Layer::Speed,
            VisualizationMode::Smoke => Layer::Smoke,
        }
    }

    /// The field whose values choose the brightness.
    pub fn mask(self) -> (r: Layer)
        ensures
            r == self.mask_spec(),
    {
        match self {
            VisualizationMode::Pressure | VisualizationMode::Speed | VisualizationMode::Smoke =>
                Layer::Cells,
            VisualizationMode::SmokeSpeed | VisualizationMode::SmokePressure => Layer::Smoke,
        }
    }

    /// Going on and going back undo each other.
    pub proof fn lemma_round_trip(self)
        ensures
            self.next_spec().previous_spec() == self,
            self.previous_spec().next_spec() == self,
    {
    }
}

/// How many screen pixels wide and high a cell is drawn, so that a grid of
/// `width` by `height` cells fills a screen of 2880 by 1864 pixels as far as
/// whole pixels allow.
pub open spec fn pixel_scale_spec(width: u32, height: u32) -> int {
    if 1864int / (height as int) < 2880int / (width as int) {
        1864int / (height as int)
    } else {
        2880int / (width as int)
    }
}

/// How many screen pixels wide and high a cell is drawn.
pub fn pixel_scale(width: u32, height: u32) -> (r: u32)
    requires
        0 < width,
        0 < height,
    ensures
        r == pixel_scale_spec(width, height),
        r * width <= 2880,
        r * height <= 1864,
{
    let by_height: u32 = 1864 / height;
    let by_width: u32 = 2880 / width;
    proof {
        assert(by_height * height <= 1864) by (nonlinear_arith)
            requires
                by_height == 1864int / (height as int),
                0 < height,
        ;
        assert(by_width * width <= 2880) by (nonlinear_arith)
            requires
                by_width == 2880int / (width as int),
                0 < width,
        ;
    }
    if by_height < by_width {
        proof {
            assert(by_height * width <= by_width * width) by (nonlinear_arith)
                requires
                    by_height < by_width,
                    0 < width,
            ;
        }
        by_height
    } else {
        proof {
            assert(by_width * height <= by_height * height) by (nonlinear_arith)
                requires
                    by_width <= by_height,
                    0 < height,
            ;
        }
        by_width
    }
}

} // verus!
