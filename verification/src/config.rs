//! Configuration errors shared by the validated parameter sets.

use vstd::prelude::*;

verus! {

/// Why a set of parameters is refused.
#[derive(Clone, Copy, Debug, PartialEq, Eq, Structural)]
pub enum ConfigError {
    /// A ray needs at least one step per unit of distance.
    ZeroPrecision,
    /// A ray must be allowed at least one step.
    ZeroStepBound,
    /// The screen has no column or no row.
    EmptyScreen,
    /// A strip must be at least one pixel wide.
    ZeroResolutionScale,
    /// A wall as tall as the projection constant must fit in half the screen.
    ProjectionTooTall,
    /// The observer must move by some distance.
    ZeroSpeed,
    /// A rotation must turn by at least one degree and by less than a full turn.
    BadRotationStep,
    /// A step and its probe must stay within one cell.
    StepTooLong,
}

/// The geometry of the screen: its size in pixels, the width of the strip
/// that one ray paints, and the height in rows of half a wall at distance 1.0.
#[derive(Clone, Copy, Debug)]
pub struct ScreenConfig {
    width: u16,
    height: u16,
    resolution_scale: u16,
    projection_constant: u16,
}

/// The first reason, if any, for which a screen geometry is refused.
pub open spec fn screen_defect(
    width: int,
    height: int,
    resolution_scale: int,
    projection_constant: int,
) -> Option<ConfigError> {
    if width == 0 || height == 0 {
        Some(ConfigError::EmptyScreen)
    } else if resolution_scale == 0 {
        Some(ConfigError::ZeroResolutionScale)
    } else if projection_constant > height / 2 {
        Some(ConfigError::ProjectionTooTall)
    } else {
        None
    }
}

impl ScreenConfig {
    /// Number of pixel columns.
    pub closed spec fn spec_width(&self) -> u16 {
        self.width
    }

    /// Number of pixel rows.
    pub closed spec fn spec_height(&self) -> u16 {
        self.height
    }

    /// Number of pixel columns that one ray paints.
    pub closed spec fn spec_resolution_scale(&self) -> u16 {
        self.resolution_scale
    }

    /// Height in rows of half a wall at distance 1.0.
    pub closed spec fn spec_projection_constant(&self) -> u16 {
        self.projection_constant
    }

    /// The geometry has no defect.
    #[verifier::type_invariant]
    pub open spec fn wf(self) -> bool {
        screen_defect(
            self.width() as int,
            self.height() as int,
            self.resolution_scale() as int,
            self.projection_constant() as int,
        ) is None
    }

    /// The row in the middle of the screen.
    pub open spec fn half_height(self) -> int {
        self.height() as int / 2
    }

    /// Number of strips, and so of rays, that cover the screen.
    pub open spec fn strips(self) -> int {
        (self.width() as int + self.resolution_scale() as int - 1) / (
        self.resolution_scale() as int)
    }

    /// A screen of `width` by `height` pixels that is painted in strips of
    /// `resolution_scale` columns, with walls of `projection_constant` rows
    /// to either side of the middle at distance 1.0.
    pub fn new(width: u16, height: u16, resolution_scale: u16, projection_constant: u16) -> (res:
        Result<ScreenConfig, ConfigError>)
        ensures
            match res {
                Ok(s) => screen_defect(
                    width as int,
                    height as int,
                    resolution_scale as int,
                    projection_constant as int,
                ) is None && s.width() == width && s.height() == height && s.resolution_scale()
                    == resolution_scale && s.projection_constant() == projection_constant
                    && s.wf(),
                Err(e) => screen_defect(
                    width as int,
                    height as int,
                    resolution_scale as int,
                    projection_constant as int,
                ) == Some(e),
            },
    {
        if width == 0 || height == 0 {
            return Err(ConfigError::EmptyScreen);
        }
        if resolution_scale == 0 {
            return Err(ConfigError::ZeroResolutionScale);
        }
        if projection_constant > height / 2 {
            return Err(ConfigError::ProjectionTooTall);
        }
        Ok(ScreenConfig { width, height, resolution_scale, projection_constant })
    }

    /// Number of pixel columns.
    #[verifier::when_used_as_spec(spec_width)]
    pub fn width(&self) -> (w: u16)
        ensures
            w == self.width(),
            w >= 1,
    {
        proof {
            use_type_invariant(self);
        }
        self.width
    }

    /// Number of pixel rows.
    #[verifier::when_used_as_spec(spec_height)]
    pub fn height(&self) -> (h: u16)
        ensures
            h == self.height(),
            h >= 1,
    {
        proof {
            use_type_invariant(self);
        }
        self.height
    }

    /// Number of pixel columns that one ray paints.
    #[verifier::when_used_as_spec(spec_resolution_scale)]
    pub fn resolution_scale(&self) -> (s: u16)
        ensures
            s == self.resolution_scale(),
            s >= 1,
    {
        proof {
            use_type_invariant(self);
        }
        self.resolution_scale
    }

    /// Height in rows of half a wall at distance 1.0.
    #[verifier::when_used_as_spec(spec_projection_constant)]
    pub fn projection_constant(&self) -> (p: u16)
        ensures
            p == self.projection_constant(),
            p <= self.half_height(),
    {
        proof {
            use_type_invariant(self);
        }
        self.projection_constant
    }

    /// Number of strips, and so of rays, that cover the screen.
    pub fn strip_count(&self) -> (n: u32)
        ensures
            n == self.strips(),
            1 <= n <= self.width(),
            (n - 1) * self.resolution_scale() < self.width() <= n * self.resolution_scale(),
    {
        proof {
            use_type_invariant(self);
        }
        let w: u32 = self.width as u32;
        let s: u32 = self.resolution_scale as u32;
        let n: u32 = (w + s - 1) / s;
        assert(1 <= n <= w && (n - 1) * s < w <= n * s) by (nonlinear_arith)
            requires
                n == (w + s - 1) / (s as int),
                w >= 1,
                s >= 1,
        ;
        n
    }
}

} // verus!
