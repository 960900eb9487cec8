//! Size and scale of the output that nested clients see.

use vstd::prelude::*;

use crate::number::Real64;

verus! {

/// Refresh rate that a nested output advertises.
pub const NESTED_REFRESH_MILLIHERTZ: i32 = 60_000;

/// Why an output cannot have the given size and scale.
#[derive(Clone, Copy, Debug, PartialEq, Eq, Structural)]
pub enum OutputMetricsError {
    ZeroSize,
    InvalidScale,
    WidthTooLarge,
    HeightTooLarge,
}

/// A mode that an output advertises.
#[derive(Clone, Copy, Debug, PartialEq, Eq, Structural)]
pub struct OutputMode {
    pub width: i32,
    pub height: i32,
    pub refresh: i32,
}

/// Physical size of the host window and the logical scale advertised to nested
/// clients.
#[derive(Clone, Copy, Debug)]
pub struct NestedOutputMetrics {
    physical_width: i32,
    physical_height: i32,
    scale_factor: Real64,
}

/// What [`NestedOutputMetrics`] hold.
pub struct MetricsModel {
    pub width: i32,
    pub height: i32,
    pub scale_factor: Real64,
}

impl View for NestedOutputMetrics {
    type V = MetricsModel;

    closed spec fn view(&self) -> MetricsModel {
        MetricsModel {
            width: self.physical_width,
            height: self.physical_height,
            scale_factor: self.scale_factor,
        }
    }
}

impl MetricsModel {
    pub open spec fn wf(self) -> bool {
        self.width > 0 && self.height > 0 && self.scale_factor.finite() && self.scale_factor.rank()
            > 0
    }

    pub open spec fn mode(self) -> OutputMode {
        OutputMode { width: self.width, height: self.height, refresh: NESTED_REFRESH_MILLIHERTZ }
    }

    /// Same size and numerically same scale.
    pub open spec fn same(self, other: MetricsModel) -> bool {
        self.width == other.width && self.height == other.height && self.scale_factor.same(
            other.scale_factor,
        )
    }
}

impl NestedOutputMetrics {
    #[verifier::type_invariant]
    spec fn inv(self) -> bool {
        self@.wf()
    }

    /// Accepts sizes that are not empty and scales that are finite and positive.
    pub fn new(physical_width: u32, physical_height: u32, scale_factor: Real64) -> (metrics: Result<
        Self,
        OutputMetricsError,
    >)
        ensures
            if physical_width == 0 || physical_height == 0 {
                metrics == Err::<Self, _>(OutputMetricsError::ZeroSize)
            } else if !scale_factor.finite() || scale_factor.rank() <= 0 {
                metrics == Err::<Self, _>(OutputMetricsError::InvalidScale)
            } else if physical_width > i32::MAX {
                metrics == Err::<Self, _>(OutputMetricsError::WidthTooLarge)
            } else if physical_height > i32::MAX {
                metrics == Err::<Self, _>(OutputMetricsError::HeightTooLarge)
            } else {
                &&& metrics is Ok
                &&& metrics->Ok_0@.width == physical_width
                &&& metrics->Ok_0@.height == physical_height
                &&& metrics->Ok_0@.scale_factor == scale_factor
                &&& metrics->Ok_0@.wf()
            },
    {
        if physical_width == 0 || physical_height == 0 {
            return Err(OutputMetricsError::ZeroSize);
        }
        if !scale_factor.is_finite() || !Real64::zero().less_than(scale_factor) {
            return Err(OutputMetricsError::InvalidScale);
        }
        if physical_width > i32::MAX as u32 {
            return Err(OutputMetricsError::WidthTooLarge);
        }
        if physical_height > i32::MAX as u32 {
            return Err(OutputMetricsError::HeightTooLarge);
        }
        Ok(
            NestedOutputMetrics {
                physical_width: physical_width as i32,
                physical_height: physical_height as i32,
                scale_factor,
            },
        )
    }

    /// The mode to advertise.
    pub fn mode(self) -> (mode: OutputMode)
        ensures
            mode == self@.mode(),
            mode.width > 0 && mode.height > 0,
    {
        proof {
            use_type_invariant(&self);
        }
        OutputMode {
            width: self.physical_width,
            height: self.physical_height,
            refresh: NESTED_REFRESH_MILLIHERTZ,
        }
    }

    pub fn scale_factor(self) -> (scale_factor: Real64)
        ensures
            scale_factor == self@.scale_factor,
            scale_factor.finite() && scale_factor.rank() > 0,
    {
        proof {
            use_type_invariant(&self);
        }
        self.scale_factor
    }

    pub fn physical_width(self) -> (width: u32)
        ensures
            width == self@.width,
            width > 0,
    {
        proof {
            use_type_invariant(&self);
        }
        self.physical_width as u32
    }

    pub fn physical_height(self) -> (height: u32)
        ensures
            height == self@.height,
            height > 0,
    {
        proof {
            use_type_invariant(&self);
        }
        self.physical_height as u32
    }

    /// Whether other metrics say the same.
    pub fn equals(self, other: NestedOutputMetrics) -> (same: bool)
        ensures
            same == self@.same(other@),
    {
        self.physical_width == other.physical_width && self.physical_height == other.physical_height
            && self.scale_factor.equals(other.scale_factor)
    }
}

/// What is to be done to the output when its metrics are replaced.
#[derive(Clone, Copy, Debug, PartialEq, Eq, Structural)]
pub struct MetricsChange {
    /// The mode that becomes the current and the preferred one.
    pub install: OutputMode,
    /// The mode that is withdrawn after that.
    pub retire: Option<OutputMode>,
}

/// Plans the replacement of an output's metrics; none if they say the same. The
/// old mode is withdrawn unless it is also the new one.
pub fn replace_metrics(previous: NestedOutputMetrics, next: NestedOutputMetrics) -> (change: Option<
    MetricsChange,
>)
    ensures
        change == (if previous@.same(next@) {
            None
        } else {
            Some(
                MetricsChange {
                    install: next@.mode(),
                    retire: if previous@.mode() == next@.mode() {
                        None
                    } else {
                        Some(previous@.mode())
                    },
                },
            )
        }),
{
    if previous.equals(next) {
        return None;
    }
    let install = next.mode();
    let before = previous.mode();
    Some(
        MetricsChange {
            install,
            retire: if before == install {
                None
            } else {
                Some(before)
            },
        },
    )
}

/// Modes that an output has listed after a change.
pub open spec fn modes_after(modes: Set<OutputMode>, change: MetricsChange) -> Set<OutputMode> {
    match change.retire {
        Some(mode) => modes.insert(change.install).remove(mode),
        None => modes.insert(change.install),
    }
}

/// An output that lists just the mode of its metrics still does so after they
/// are replaced.
pub proof fn one_mode_stays_listed(previous: MetricsModel, next: MetricsModel)
    ensures
        ({
            let change = MetricsChange {
                install: next.mode(),
                retire: if previous.mode() == next.mode() {
                    None
                } else {
                    Some(previous.mode())
                },
            };
            modes_after(Set::empty().insert(previous.mode()), change) == Set::empty().insert(
                next.mode(),
            )
        }),
{
    let change = MetricsChange {
        install: next.mode(),
        retire: if previous.mode() == next.mode() {
            None
        } else {
            Some(previous.mode())
        },
    };
    assert(modes_after(Set::empty().insert(previous.mode()), change) =~= Set::empty().insert(
        next.mode(),
    ));
}

/// The mode of an output is its size at the rate of nested outputs; metrics are
/// the same just if they agree in size and, as numbers, in scale.
pub proof fn modes_have_the_size_of_the_window(first: MetricsModel, second: MetricsModel)
    ensures
        first.mode().width == first.width,
        first.mode().height == first.height,
        first.mode().refresh == 60_000,
        first.same(second) <==> first.width == second.width && first.height == second.height
            && first.scale_factor.same(second.scale_factor),
        first.wf() <==> first.width > 0 && first.height > 0 && first.scale_factor.finite()
            && first.scale_factor.rank() > 0,
{
}

/// After a change the new mode is listed unless it is the one that is retired,
/// and the retired one is not; other modes stay as they are.
pub proof fn changes_list_the_new_mode(
    modes: Set<OutputMode>,
    change: MetricsChange,
    mode: OutputMode,
)
    ensures
        change.retire != Some(change.install) ==> modes_after(modes, change).contains(
            change.install,
        ),
        change.retire matches Some(retired) ==> !modes_after(modes, change).contains(retired),
        mode != change.install && change.retire != Some(mode) ==> (modes_after(
            modes,
            change,
        ).contains(mode) <==> modes.contains(mode)),
{
}

} // verus!
