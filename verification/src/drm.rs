//! Choice of the graphics device, connector, mode and plane to present on, and
//! the state of the connector while the compositor runs.

use vstd::prelude::*;

verus! {

/// Largest refresh difference, in millihertz, between two descriptions of what
/// counts as one mode.
pub const MAX_REFRESH_DELTA: u64 = 1_000;

/// Device numbers that a graphics adapter reports for its device nodes.
#[derive(Clone, Copy, Debug)]
pub struct AdapterNodes {
    pub primary: Option<(i64, i64)>,
    pub render: Option<(i64, i64)>,
}

impl AdapterNodes {
    /// One of the nodes has the given major and minor number.
    pub open spec fn has_node(&self, major: u32, minor: u32) -> bool {
        ||| self.primary == Some((major as i64, minor as i64))
        ||| self.render == Some((major as i64, minor as i64))
    }
}

/// Whether an adapter belongs to the device with the given numbers.
pub fn adapter_matches_device(nodes: &AdapterNodes, major: u32, minor: u32) -> (matching: bool)
    ensures
        matching == nodes.has_node(major, minor),
{
    let selected_major: i64 = major as i64;
    let selected_minor: i64 = minor as i64;
    let primary = match nodes.primary {
        Some((node_major, node_minor)) => node_major == selected_major && node_minor
            == selected_minor,
        None => false,
    };
    let render = match nodes.render {
        Some((node_major, node_minor)) => node_major == selected_major && node_minor
            == selected_minor,
        None => false,
    };
    primary || render
}

/// The first adapter that belongs to the device with the given numbers.
pub fn select_adapter(adapters: &Vec<AdapterNodes>, major: u32, minor: u32) -> (selected: Option<usize>)
    ensures
        match selected {
            Some(index) => {
                &&& index < adapters@.len()
                &&& adapters@[index as int].has_node(major, minor)
                &&& forall|earlier: int|
                    0 <= earlier < index ==> !(#[trigger] adapters@[earlier]).has_node(major, minor)
            },
            None => forall|i: int|
                0 <= i < adapters@.len() ==> !(#[trigger] adapters@[i]).has_node(major, minor),
        },
{
    let mut i: usize = 0;
    while i < adapters.len()
        invariant
            i <= adapters@.len(),
            forall|earlier: int|
                0 <= earlier < i ==> !(#[trigger] adapters@[earlier]).has_node(major, minor),
        decreases adapters@.len() - i,
    {
        if adapter_matches_device(&adapters[i], major, minor) {
            return Some(i);
        }
        i = i + 1;
    }
    None
}

/// The first entry that is marked, or else the first one.
pub fn preferred_or_first(marked: &Vec<bool>) -> (selected: Option<usize>)
    ensures
        (selected is None) == (marked@.len() == 0),
        match selected {
            Some(index) => {
                &&& index < marked@.len()
                &&& marked@[index as int] || (index == 0 && forall|i: int|
                    0 <= i < marked@.len() ==> !(#[trigger] marked@[i]))
                &&& forall|earlier: int| 0 <= earlier < index ==> !(#[trigger] marked@[earlier])
            },
            None => true,
        },
{
    let mut i: usize = 0;
    while i < marked.len()
        invariant
            i <= marked@.len(),
            forall|earlier: int| 0 <= earlier < i ==> !(#[trigger] marked@[earlier]),
        decreases marked@.len() - i,
    {
        if marked[i] {
            return Some(i);
        }
        i = i + 1;
    }
    if marked.len() == 0 {
        None
    } else {
        Some(0)
    }
}

/// What a scan says of one connector.
#[derive(Clone, Copy, Debug, PartialEq, Eq, Structural)]
pub struct ScannedConnector {
    pub connected: bool,
    pub has_crtc: bool,
    pub modes: usize,
}

impl ScannedConnector {
    pub open spec fn usable(&self) -> bool {
        self.connected && self.has_crtc && self.modes > 0
    }
}

/// The first connected connector that has a CRTC and a mode.
pub fn select_connector(scan: &Vec<ScannedConnector>) -> (selected: Option<usize>)
    ensures
        match selected {
            Some(index) => {
                &&& index < scan@.len()
                &&& scan@[index as int].usable()
                &&& forall|earlier: int| 0 <= earlier < index ==> !(#[trigger] scan@[earlier]).usable()
            },
            None => forall|i: int| 0 <= i < scan@.len() ==> !(#[trigger] scan@[i]).usable(),
        },
{
    let mut i: usize = 0;
    while i < scan.len()
        invariant
            i <= scan@.len(),
            forall|earlier: int| 0 <= earlier < i ==> !(#[trigger] scan@[earlier]).usable(),
        decreases scan@.len() - i,
    {
        let connector = scan[i];
        if connector.connected && connector.has_crtc && connector.modes > 0 {
            return Some(i);
        }
        i = i + 1;
    }
    None
}

/// A display mode as the graphics API describes it.
#[derive(Clone, Copy, Debug, PartialEq, Eq, Structural)]
pub struct DisplayMode {
    pub width: u32,
    pub height: u32,
    pub refresh_millihertz: u32,
}

impl DisplayMode {
    pub open spec fn has_size(&self, width: u16, height: u16) -> bool {
        self.width == width && self.height == height
    }

    /// Distance to a refresh rate.
    pub open spec fn refresh_delta(&self, millihertz: i32) -> nat {
        if self.refresh_millihertz >= millihertz {
            (self.refresh_millihertz - millihertz) as nat
        } else {
            (millihertz - self.refresh_millihertz) as nat
        }
    }
}

/// Why no mode could be chosen.
#[derive(Clone, Copy, Debug, PartialEq, Eq, Structural)]
pub enum ModeError {
    /// No mode has the size asked for.
    NoMatchingSize,
    /// The closest mode refreshes too differently, by this many millihertz.
    RefreshDiffers(u64),
}

/// `index` is the first of the modes of a given size that come closest to a
/// refresh rate.
pub open spec fn closest_mode(
    modes: Seq<DisplayMode>,
    width: u16,
    height: u16,
    millihertz: i32,
    index: int,
) -> bool {
    &&& 0 <= index < modes.len()
    &&& modes[index].has_size(width, height)
    &&& forall|i: int|
        0 <= i < modes.len() && (#[trigger] modes[i]).has_size(width, height)
            ==> modes[index].refresh_delta(millihertz) <= modes[i].refresh_delta(millihertz)
    &&& forall|i: int|
        0 <= i < index && (#[trigger] modes[i]).has_size(width, height)
            ==> modes[index].refresh_delta(millihertz) < modes[i].refresh_delta(millihertz)
}

fn refresh_delta(mode: &DisplayMode, millihertz: i32) -> (delta: u64)
    ensures
        delta == mode.refresh_delta(millihertz),
{
    let rate: i64 = mode.refresh_millihertz as i64;
    let target: i64 = millihertz as i64;
    if rate >= target {
        (rate - target) as u64
    } else {
        (target - rate) as u64
    }
}

/// Chooses the mode of the given size whose refresh rate is closest to the one
/// asked for, the first of equally close ones.
pub fn select_display_mode(
    modes: &Vec<DisplayMode>,
    width: u16,
    height: u16,
    refresh_millihertz: i32,
) -> (selected: Result<usize, ModeError>)
    ensures
        match selected {
            Ok(index) => {
                &&& closest_mode(modes@, width, height, refresh_millihertz, index as int)
                &&& modes@[index as int].refresh_delta(refresh_millihertz) <= MAX_REFRESH_DELTA
            },
            Err(ModeError::NoMatchingSize) => forall|i: int|
                0 <= i < modes@.len() ==> !(#[trigger] modes@[i]).has_size(width, height),
            Err(ModeError::RefreshDiffers(delta)) => {
                &&& delta > MAX_REFRESH_DELTA
                &&& exists|index: int|
                    #[trigger] closest_mode(modes@, width, height, refresh_millihertz, index)
                        && modes@[index].refresh_delta(refresh_millihertz) == delta
            },
        },
{
    let mut best: Option<usize> = None;
    let mut i: usize = 0;
    while i < modes.len()
        invariant
            i <= modes@.len(),
            match best {
                Some(index) => closest_mode(
                    modes@.take(i as int),
                    width,
                    height,
                    refresh_millihertz,
                    index as int,
                ),
                None => forall|j: int|
                    0 <= j < i ==> !(#[trigger] modes@[j]).has_size(width, height),
            },
        decreases modes@.len() - i,
    {
        let ghost seen = modes@.take(i as int);
        let ghost next = modes@.take(i + 1);
        assert(forall|j: int| 0 <= j < i ==> seen[j] == modes@[j] && next[j] == modes@[j]);
        assert(next[i as int] == modes@[i as int]);
        let mode = modes[i];
        if mode.width == width as u32 && mode.height == height as u32 {
            match best {
                Some(index) => {
                    if refresh_delta(&mode, refresh_millihertz) < refresh_delta(
                        &modes[index],
                        refresh_millihertz,
                    ) {
                        best = Some(i);
                    }
                },
                None => {
                    best = Some(i);
                },
            }
        }
        i = i + 1;
    }
    assert(modes@.take(i as int) =~= modes@);
    match best {
        Some(index) => {
            let delta: u64 = refresh_delta(&modes[index], refresh_millihertz);
            if delta > MAX_REFRESH_DELTA {
                Err(ModeError::RefreshDiffers(delta))
            } else {
                Ok(index)
            }
        },
        None => Err(ModeError::NoMatchingSize),
    }
}

/// What the graphics API says of one display plane.
#[derive(Clone, Debug)]
pub struct DisplayPlane {
    /// The display that the plane is bound to.
    pub current_display: Option<u64>,
    /// The displays that it can show on; none where they could not be listed.
    pub supported_displays: Option<Vec<u64>>,
}

impl DisplayPlane {
    pub open spec fn can_show(&self, display: u64) -> bool {
        &&& self.current_display is None || self.current_display == Some(display)
        &&& self.supported_displays is Some
        &&& self.supported_displays->0@.contains(display)
    }
}

fn lists(displays: &Vec<u64>, display: u64) -> (listed: bool)
    ensures
        listed == displays@.contains(display),
{
    let mut i: usize = 0;
    while i < displays.len()
        invariant
            i <= displays@.len(),
            forall|j: int| 0 <= j < i ==> displays@[j] != display,
        decreases displays@.len() - i,
    {
        if displays[i] == display {
            return true;
        }
        i = i + 1;
    }
    false
}

/// The first plane that is free for the display, or already bound to it, and
/// supports it. Planes beyond the range of an index are out of reach.
pub fn select_plane(planes: &Vec<DisplayPlane>, display: u64) -> (selected: Option<u32>)
    ensures
        match selected {
            Some(index) => {
                &&& index < planes@.len()
                &&& planes@[index as int].can_show(display)
                &&& forall|earlier: int|
                    0 <= earlier < index ==> !(#[trigger] planes@[earlier]).can_show(display)
            },
            None => forall|i: int|
                0 <= i < planes@.len() && i <= u32::MAX ==> !(#[trigger] planes@[i]).can_show(display),
        },
{
    let mut i: usize = 0;
    while i < planes.len()
        invariant
            i <= planes@.len(),
            forall|earlier: int|
                0 <= earlier < i ==> !(#[trigger] planes@[earlier]).can_show(display),
        decreases planes@.len() - i,
    {
        if i > u32::MAX as usize {
            return None;
        }
        let plane = &planes[i];
        let available = match plane.current_display {
            Some(current) => current == display,
            None => true,
        };
        let supported = match &plane.supported_displays {
            Some(displays) => lists(displays, display),
            None => false,
        };
        if available && supported {
            return Some(i as u32);
        }
        i = i + 1;
    }
    None
}

/// Why a surface cannot be presented on.
#[derive(Clone, Copy, Debug, PartialEq, Eq, Structural)]
pub enum SurfaceConfigError {
    NoSrgbFormat,
    NoFifoPresentation,
}

/// Chooses the first sRGB format of a surface that can present in order.
/// `srgb` tells of each format whether it is one.
pub fn select_surface_format(srgb: &Vec<bool>, fifo_supported: bool) -> (selected: Result<
    usize,
    SurfaceConfigError,
>)
    ensures
        match selected {
            Ok(index) => {
                &&& fifo_supported
                &&& index < srgb@.len()
                &&& srgb@[index as int]
                &&& forall|earlier: int| 0 <= earlier < index ==> !(#[trigger] srgb@[earlier])
            },
            Err(SurfaceConfigError::NoSrgbFormat) => forall|i: int|
                0 <= i < srgb@.len() ==> !(#[trigger] srgb@[i]),
            Err(SurfaceConfigError::NoFifoPresentation) => {
                &&& !fifo_supported
                &&& srgb@.contains(true)
            },
        },
{
    let mut i: usize = 0;
    while i < srgb.len()
        invariant
            i <= srgb@.len(),
            forall|earlier: int| 0 <= earlier < i ==> !(#[trigger] srgb@[earlier]),
        decreases srgb@.len() - i,
    {
        if srgb[i] {
            return if fifo_supported {
                Ok(i)
            } else {
                Err(SurfaceConfigError::NoFifoPresentation)
            };
        }
        i = i + 1;
    }
    Err(SurfaceConfigError::NoSrgbFormat)
}

/// Why the size of an output cannot be described.
#[derive(Clone, Copy, Debug, PartialEq, Eq, Structural)]
pub enum OutputSizeError {
    NegativeWidth,
    NegativeHeight,
    PhysicalWidthTooLarge,
    PhysicalHeightTooLarge,
}

/// Size of an output in pixels and in millimetres.
#[derive(Clone, Copy, Debug, PartialEq, Eq, Structural)]
pub struct OutputSize {
    pub width: u32,
    pub height: u32,
    pub physical_width: i32,
    pub physical_height: i32,
}

/// Describes the size of an output. A connector that knows no physical size
/// has one of zero.
pub fn output_size(width: i32, height: i32, physical: Option<(u32, u32)>) -> (size: Result<
    OutputSize,
    OutputSizeError,
>)
    ensures
        ({
            let millimetres = match physical {
                Some(size) => size,
                None => (0, 0),
            };
            if width < 0 {
                size == Err::<OutputSize, _>(OutputSizeError::NegativeWidth)
            } else if height < 0 {
                size == Err::<OutputSize, _>(OutputSizeError::NegativeHeight)
            } else if millimetres.0 > i32::MAX {
                size == Err::<OutputSize, _>(OutputSizeError::PhysicalWidthTooLarge)
            } else if millimetres.1 > i32::MAX {
                size == Err::<OutputSize, _>(OutputSizeError::PhysicalHeightTooLarge)
            } else {
                &&& size is Ok
                &&& size->Ok_0.width == width
                &&& size->Ok_0.height == height
                &&& size->Ok_0.physical_width == millimetres.0
                &&& size->Ok_0.physical_height == millimetres.1
            }
        }),
{
    if width < 0 {
        return Err(OutputSizeError::NegativeWidth);
    }
    if height < 0 {
        return Err(OutputSizeError::NegativeHeight);
    }
    let millimetres = match physical {
        Some(size) => size,
        None => (0, 0),
    };
    if millimetres.0 > i32::MAX as u32 {
        return Err(OutputSizeError::PhysicalWidthTooLarge);
    }
    if millimetres.1 > i32::MAX as u32 {
        return Err(OutputSizeError::PhysicalHeightTooLarge);
    }
    Ok(
        OutputSize {
            width: width as u32,
            height: height as u32,
            physical_width: millimetres.0 as i32,
            physical_height: millimetres.1 as i32,
        },
    )
}

/// An adapter belongs to a device just if one of its nodes has both numbers of
/// the device.
pub proof fn adapters_belong_by_both_numbers(nodes: AdapterNodes, major: u32, minor: u32)
    ensures
        nodes.has_node(major, minor) <==> {
            ||| nodes.primary is Some && (nodes.primary->0).0 == major && (nodes.primary->0).1
                == minor
            ||| nodes.render is Some && (nodes.render->0).0 == major && (nodes.render->0).1 == minor
        },
{
}

/// A connector can be used just if it is connected, has a CRTC, and has a mode.
pub proof fn usable_connectors_have_all_they_need(connector: ScannedConnector)
    ensures
        connector.usable() ==> connector.connected && connector.has_crtc && connector.modes >= 1,
        connector.connected && connector.has_crtc && connector.modes >= 1 ==> connector.usable(),
{
}

/// The distance of a mode to a refresh rate is the same from both sides, and zero
/// just at the rate itself. A mode has a size just if both extents agree.
pub proof fn refresh_distances_are_symmetric(mode: DisplayMode, width: u16, height: u16, rate: i32)
    ensures
        mode.refresh_delta(rate) == 0 <==> mode.refresh_millihertz == rate,
        mode.refresh_millihertz == rate + mode.refresh_delta(rate) || rate
            == mode.refresh_millihertz + mode.refresh_delta(rate),
        mode.has_size(width, height) ==> mode.width == width && mode.height == height,
        mode.width == width && mode.height == height ==> mode.has_size(width, height),
{
}

/// There is only one closest mode: it has the size asked for, no mode of that
/// size is closer, and none before it is as close.
pub proof fn the_closest_mode_is_unique(
    modes: Seq<DisplayMode>,
    width: u16,
    height: u16,
    rate: i32,
    index: int,
    other: int,
)
    requires
        closest_mode(modes, width, height, rate, index),
        0 <= other < modes.len(),
        modes[other].width == width,
        modes[other].height == height,
    ensures
        0 <= index < modes.len(),
        modes[index].width == width && modes[index].height == height,
        modes[index].refresh_delta(rate) <= modes[other].refresh_delta(rate),
        other < index ==> modes[index].refresh_delta(rate) < modes[other].refresh_delta(rate),
        closest_mode(modes, width, height, rate, other) ==> other == index,
{
    assert(modes[other].has_size(width, height));
}

/// A plane can show a display just if it lists the display and is not bound to
/// another one.
pub proof fn planes_show_the_displays_they_list(plane: DisplayPlane, display: u64)
    ensures
        plane.can_show(display) ==> plane.supported_displays is Some && (
        plane.supported_displays->0)@.contains(display) && (plane.current_display matches Some(
            bound,
        ) ==> bound == display),
        plane.supported_displays is Some && (plane.supported_displays->0)@.contains(display) && (
        plane.current_display is None || plane.current_display == Some(display)) ==> plane.can_show(
            display,
        ),
{
}

/// The size of an output is told in full: its pixels as they are, and its extent
/// in millimetres, or none where it is unknown. It is refused just if a number
/// does not fit.
pub proof fn output_sizes_are_told_in_full(
    width: i32,
    height: i32,
    physical: Option<(u32, u32)>,
    size: Result<OutputSize, OutputSizeError>,
)
    requires
        call_ensures(output_size, (width, height, physical), size),
    ensures
        size matches Ok(told) ==> {
            &&& told.width == width && told.height == height
            &&& physical is None ==> told.physical_width == 0 && told.physical_height == 0
            &&& physical is Some ==> told.physical_width == (physical->0).0 && told.physical_height
                == (physical->0).1
        },
        size is Ok <==> width >= 0 && height >= 0 && (physical is Some ==> (physical->0).0
            <= i32::MAX && (physical->0).1 <= i32::MAX),
        size matches Err(OutputSizeError::NegativeWidth) ==> width < 0,
        size matches Err(OutputSizeError::NegativeHeight) ==> height < 0 && width >= 0,
        size matches Err(OutputSizeError::PhysicalWidthTooLarge) ==> physical is Some && (
        physical->0).0 > i32::MAX,
        size matches Err(OutputSizeError::PhysicalHeightTooLarge) ==> physical is Some && (
        physical->0).1 > i32::MAX,
{
}

/// The connector that is taken is a marked one wherever there is one, and no
/// earlier one is marked.
pub proof fn marked_ones_are_preferred(marked: &Vec<bool>, selected: Option<usize>, i: int)
    requires
        call_ensures(preferred_or_first, (marked,), selected),
        0 <= i < marked@.len(),
    ensures
        selected is Some && selected->0 < marked@.len(),
        marked@[i] ==> marked@[selected->0 as int] && selected->0 <= i,
        (forall|j: int| 0 <= j < marked@.len() ==> !#[trigger] marked@[j]) ==> selected
            == Some(0usize),
{
}

/// A surface that is configured uses its first format for colours, and only where
/// frames can be shown one after the other.
pub proof fn surfaces_use_the_first_colour_format(
    srgb: &Vec<bool>,
    fifo: bool,
    selected: Result<usize, SurfaceConfigError>,
    i: int,
)
    requires
        call_ensures(select_surface_format, (srgb, fifo), selected),
        0 <= i < srgb@.len(),
        srgb@[i],
    ensures
        selected matches Ok(index) ==> fifo && index <= i && srgb@[index as int],
        selected matches Err(error) ==> (error is NoFifoPresentation ==> !fifo),
        !fifo ==> selected is Err,
{
}

} // verus!
