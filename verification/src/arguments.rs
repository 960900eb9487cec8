//! Command-line configuration: values that options take, and how the options
//! of one session go together.

use vstd::prelude::*;

use crate::text::{parse_unsigned, same_text};
#[allow(unused_imports)]
use crate::text::{decimal, unsigned_number};

verus! {

/// Largest side of a headless output or window.
pub const MAX_EXTENT: u32 = 8192;

/// Highest refresh rate of a headless output, in hertz.
pub const MAX_REFRESH: u32 = 240;

/// Longest startup budget for a peer, in seconds.
pub const MAX_PEER_TIMEOUT: u64 = 3600;

/// Highest bitrate target, in megabits per second.
pub const MAX_BITRATE_TARGET: u64 = 18_446_744_073_709;

/// Peer startup budget, in seconds, where none is given.
pub const DEFAULT_PEER_TIMEOUT: u64 = 120;

/// Fallback for clients that take no key repeat from the compositor.
#[derive(Clone, Copy, Debug, PartialEq, Eq, Structural)]
pub enum LegacyKeyRepeatArgument {
    Client,
    Disabled,
    Emulated,
}

impl Default for LegacyKeyRepeatArgument {
    fn default() -> (argument: Self)
        ensures
            argument == LegacyKeyRepeatArgument::Client,
    {
        LegacyKeyRepeatArgument::Client
    }
}

/// Who repeats keys that are held.
#[derive(Clone, Copy, Debug, PartialEq, Eq, Structural)]
pub enum KeyboardRepeatModeArgument {
    Client,
    Compositor,
}

#[derive(Clone, Copy, Debug, PartialEq, Eq, Structural)]
pub enum BackendKind {
    Auto,
    Nested,
    Drm,
    Headless,
}

impl Default for BackendKind {
    fn default() -> (backend: Self)
        ensures
            backend == BackendKind::Auto,
    {
        BackendKind::Auto
    }
}

/// Backends that draw.
#[derive(Clone, Copy, Debug, PartialEq, Eq, Structural)]
pub enum Backend {
    Auto,
    Nested,
    Drm,
}

/// The host that a session runs in. The headless one draws nothing.
#[derive(Clone, Copy, Debug, PartialEq, Eq, Structural)]
pub enum HostSelection {
    Bevy(Backend),
    Headless,
}

impl BackendKind {
    /// The host that a backend stands for.
    pub open spec fn host(self) -> HostSelection {
        match self {
            BackendKind::Auto => HostSelection::Bevy(Backend::Auto),
            BackendKind::Nested => HostSelection::Bevy(Backend::Nested),
            BackendKind::Drm => HostSelection::Bevy(Backend::Drm),
            BackendKind::Headless => HostSelection::Headless,
        }
    }

    pub fn selection(self) -> (selection: HostSelection)
        ensures
            selection == self.host(),
    {
        match self {
            BackendKind::Auto => HostSelection::Bevy(Backend::Auto),
            BackendKind::Nested => HostSelection::Bevy(Backend::Nested),
            BackendKind::Drm => HostSelection::Bevy(Backend::Drm),
            BackendKind::Headless => HostSelection::Headless,
        }
    }
}

/// How surfaces travel to a local peer.
#[derive(Clone, Copy, Debug, PartialEq, Eq, Structural)]
pub enum HoistSurfaceMode {
    Native,
    EncodedOpaque,
}

#[derive(Clone, Copy, Debug, PartialEq, Eq, Structural)]
pub enum HoistCodec {
    Av1,
    H264,
}

impl Default for HoistCodec {
    fn default() -> (codec: Self)
        ensures
            codec == HoistCodec::H264,
    {
        HoistCodec::H264
    }
}

/// How surfaces travel to a local peer, with the codec where they are encoded.
#[derive(Clone, Copy, Debug, PartialEq, Eq, Structural)]
pub enum LocalSurfaceMode {
    Native,
    EncodedOpaque(HoistCodec),
}

impl HoistSurfaceMode {
    pub fn local(self, codec: HoistCodec) -> (mode: LocalSurfaceMode)
        ensures
            mode == (match self {
                HoistSurfaceMode::Native => LocalSurfaceMode::Native,
                HoistSurfaceMode::EncodedOpaque => LocalSurfaceMode::EncodedOpaque(codec),
            }),
    {
        match self {
            HoistSurfaceMode::Native => LocalSurfaceMode::Native,
            HoistSurfaceMode::EncodedOpaque => LocalSurfaceMode::EncodedOpaque(codec),
        }
    }
}

#[derive(Clone, Copy, Debug, PartialEq, Eq, Structural)]
pub enum IrohNetworkKind {
    Direct,
    N0,
}

impl Default for IrohNetworkKind {
    fn default() -> (network: Self)
        ensures
            network == IrohNetworkKind::Direct,
    {
        IrohNetworkKind::Direct
    }
}

/// A text that is none of the values of an option.
#[derive(Clone, Copy, Debug, PartialEq, Eq, Structural)]
pub struct InvalidVariant;

/// The value that a text names.
pub open spec fn named_repeat(text: Seq<char>) -> Option<LegacyKeyRepeatArgument> {
    if text == "client"@ {
        Some(LegacyKeyRepeatArgument::Client)
    } else if text == "disabled"@ {
        Some(LegacyKeyRepeatArgument::Disabled)
    } else if text == "emulated"@ {
        Some(LegacyKeyRepeatArgument::Emulated)
    } else {
        None
    }
}

/// Chooses the key repeat fallback: the option, else what the environment says,
/// else the default. An environment that names none of the values is an error,
/// but only where it is asked.
pub fn resolve_legacy_repeat(
    argument: Option<LegacyKeyRepeatArgument>,
    environment: Option<&str>,
) -> (resolved: Result<LegacyKeyRepeatArgument, InvalidVariant>)
    ensures
        resolved == (match argument {
            Some(argument) => Ok::<_, InvalidVariant>(argument),
            None => match environment {
                None => Ok(LegacyKeyRepeatArgument::Client),
                Some(text) => match named_repeat(text@) {
                    Some(named) => Ok(named),
                    None => Err(InvalidVariant),
                },
            },
        }),
{
    if let Some(argument) = argument {
        return Ok(argument);
    }
    let text = match environment {
        Some(text) => text,
        None => {
            return Ok(LegacyKeyRepeatArgument::default());
        },
    };
    if same_text(text, "client") {
        Ok(LegacyKeyRepeatArgument::Client)
    } else if same_text(text, "disabled") {
        Ok(LegacyKeyRepeatArgument::Disabled)
    } else if same_text(text, "emulated") {
        Ok(LegacyKeyRepeatArgument::Emulated)
    } else {
        Err(InvalidVariant)
    }
}

/// A size in pixels.
#[derive(Clone, Copy, Debug, PartialEq, Eq, Structural)]
pub struct Extent {
    pub width: u32,
    pub height: u32,
}

/// Why a text is not a size.
#[derive(Clone, Copy, Debug, PartialEq, Eq, Structural)]
pub enum ExtentError {
    /// There is no `x` in it.
    MissingSeparator,
    InvalidWidth,
    InvalidHeight,
    OutOfRange,
}

/// `index` is where the first `x` of a text stands.
pub open spec fn first_separator(text: Seq<char>, index: int) -> bool {
    &&& 0 <= index < text.len()
    &&& text[index] == 'x'
    &&& forall|i: int| 0 <= i < index ==> text[i] != 'x'
}

pub open spec fn in_extent_range(side: nat) -> bool {
    1 <= side <= MAX_EXTENT
}

/// The size that the two sides of a separator write.
pub open spec fn extent_of(width: Seq<char>, height: Seq<char>) -> Result<(nat, nat), ExtentError> {
    match unsigned_number(width, u32::MAX as nat) {
        None => Err(ExtentError::InvalidWidth),
        Some(width) => match unsigned_number(height, u32::MAX as nat) {
            None => Err(ExtentError::InvalidHeight),
            Some(height) => if in_extent_range(width) && in_extent_range(height) {
                Ok((width, height))
            } else {
                Err(ExtentError::OutOfRange)
            },
        },
    }
}

/// Reads a size written as `WIDTHxHEIGHT`.
pub fn parse_extent(value: &str) -> (extent: Result<Extent, ExtentError>)
    ensures
        match extent {
            Ok(extent) => exists|index: int| #[trigger]
                first_separator(value@, index) && extent_of(
                    value@.subrange(0, index),
                    value@.subrange(index + 1, value@.len() as int),
                ) == Ok::<_, ExtentError>((extent.width as nat, extent.height as nat)),
            Err(ExtentError::MissingSeparator) => forall|i: int|
                0 <= i < value@.len() ==> #[trigger] value@[i] != 'x',
            Err(error) => exists|index: int| #[trigger]
                first_separator(value@, index) && extent_of(
                    value@.subrange(0, index),
                    value@.subrange(index + 1, value@.len() as int),
                ) == Err::<(nat, nat), _>(error),
        },
{
    let length: usize = value.unicode_len();
    let mut index: usize = 0;
    while index < length && value.get_char(index) != 'x'
        invariant
            index <= length,
            length == value@.len(),
            forall|i: int| 0 <= i < index ==> value@[i] != 'x',
        decreases length - index,
    {
        index = index + 1;
    }
    if index == length {
        return Err(ExtentError::MissingSeparator);
    }
    assert(first_separator(value@, index as int));
    let width: u64 = match parse_unsigned(value, 0, index, u32::MAX as u64) {
        Some(width) => width,
        None => {
            return Err(ExtentError::InvalidWidth);
        },
    };
    let height: u64 = match parse_unsigned(value, index + 1, length, u32::MAX as u64) {
        Some(height) => height,
        None => {
            return Err(ExtentError::InvalidHeight);
        },
    };
    if width < 1 || width > MAX_EXTENT as u64 || height < 1 || height > MAX_EXTENT as u64 {
        return Err(ExtentError::OutOfRange);
    }
    Ok(Extent { width: width as u32, height: height as u32 })
}

/// Why a text is not a number that an option takes.
#[derive(Clone, Copy, Debug, PartialEq, Eq, Structural)]
pub enum NumberError {
    NotANumber,
    OutOfRange,
}

/// The number that a text writes, where it is within bounds.
pub open spec fn ranged_number(text: Seq<char>, low: nat, high: nat) -> Result<nat, NumberError> {
    match unsigned_number(text, u64::MAX as nat) {
        None => Err(NumberError::NotANumber),
        Some(number) => if low <= number <= high {
            Ok(number)
        } else {
            Err(NumberError::OutOfRange)
        },
    }
}

fn parse_ranged(value: &str, low: u64, high: u64) -> (number: Result<u64, NumberError>)
    ensures
        match number {
            Ok(number) => ranged_number(value@, low as nat, high as nat) == Ok::<_, NumberError>(
                number as nat,
            ),
            Err(error) => ranged_number(value@, low as nat, high as nat) == Err::<nat, _>(error),
        },
{
    let length: usize = value.unicode_len();
    assert(value@.subrange(0, length as int) =~= value@);
    match parse_unsigned(value, 0, length, u64::MAX) {
        Some(number) => if low <= number && number <= high {
            Ok(number)
        } else {
            Err(NumberError::OutOfRange)
        },
        None => Err(NumberError::NotANumber),
    }
}

/// Reads the refresh rate of a headless output, in hertz.
pub fn parse_refresh(value: &str) -> (refresh: Result<u32, NumberError>)
    ensures
        match refresh {
            Ok(refresh) => ranged_number(value@, 1, MAX_REFRESH as nat) == Ok::<_, NumberError>(
                refresh as nat,
            ),
            Err(error) => ranged_number(value@, 1, MAX_REFRESH as nat) == Err::<nat, _>(error),
        },
{
    match parse_ranged(value, 1, MAX_REFRESH as u64) {
        Ok(refresh) => Ok(refresh as u32),
        Err(error) => Err(error),
    }
}

/// Reads the startup budget for a peer, in seconds.
pub fn parse_peer_timeout(value: &str) -> (seconds: Result<u64, NumberError>)
    ensures
        match seconds {
            Ok(seconds) => ranged_number(value@, 1, MAX_PEER_TIMEOUT as nat) == Ok::<
                _,
                NumberError,
            >(seconds as nat),
            Err(error) => ranged_number(value@, 1, MAX_PEER_TIMEOUT as nat) == Err::<nat, _>(error),
        },
{
    parse_ranged(value, 1, MAX_PEER_TIMEOUT)
}

/// Reads a bitrate target, in megabits per second: one that a number of bits
/// per second can hold.
pub fn parse_bitrate_target(value: &str) -> (megabits: Result<u64, NumberError>)
    ensures
        match megabits {
            Ok(megabits) => ranged_number(value@, 1, MAX_BITRATE_TARGET as nat) == Ok::<
                _,
                NumberError,
            >(megabits as nat),
            Err(error) => ranged_number(value@, 1, MAX_BITRATE_TARGET as nat) == Err::<nat, _>(
                error,
            ),
        },
{
    parse_ranged(value, 1, MAX_BITRATE_TARGET)
}

/// The options of one session, as far as they bear on each other. Paths and
/// names are given as text.
#[derive(Debug)]
pub struct AppArguments {
    pub legacy_key_repeat: Option<LegacyKeyRepeatArgument>,
    pub keyboard_repeat_mode: Option<KeyboardRepeatModeArgument>,
    pub backend: BackendKind,
    pub headless_output: Option<Extent>,
    pub headless_window_size: Option<Extent>,
    pub headless_refresh: Option<u32>,
    pub remote_debug: Option<String>,
    pub screenshot: Option<String>,
    pub wayland_socket: Option<String>,
    pub hoist_listen: Option<String>,
    pub hoist_connect: Option<String>,
    pub hoist_iroh_listen: Option<String>,
    pub hoist_all: bool,
    pub hoist_iroh_connect: Option<String>,
    pub hoist_iroh_expect_peer: Option<String>,
    pub hoist_iroh_publish_identity: Option<String>,
    pub hoist_iroh_device_dir: Option<String>,
    pub hoist_iroh_publish_profile: Option<String>,
    pub hoist_iroh_timeout: Option<u64>,
    pub hoist_iroh_network: Option<IrohNetworkKind>,
    pub hoist_surface_mode: Option<HoistSurfaceMode>,
    pub hoist_codec: Option<HoistCodec>,
    pub hoist_bitrate_target_mbps: Option<u64>,
    pub hoist_encoded_dump_dir: Option<String>,
}

/// Why options do not go together.
#[derive(Clone, Copy, Debug, PartialEq, Eq, Structural)]
pub enum ArgumentConflict {
    /// `--hoist-all` needs the headless backend.
    HoistAllNeedsHeadless,
    /// Headless output, window and refresh options need the headless backend.
    HeadlessOptionsNeedHeadless,
    /// Headless sessions have neither screenshots nor remote debugging.
    HeadlessHasNoPresenter,
    /// Headless sessions have only an Iroh source transport.
    HeadlessTransport,
    /// Hosting a headless session over Iroh needs `--hoist-all`, and the other
    /// way round.
    HeadlessNeedsConsent,
    /// Codec, bitrate target and encoded diagnostics need an encoded source.
    EncodedSourceRequired,
}

/// An option that another one needs beside it.
#[derive(Clone, Copy, Debug, PartialEq, Eq, Structural)]
pub enum NeededOption {
    HoistListen,
    IrohListen,
    IrohConnect,
    IrohExpectPeer,
    IrohPublishIdentity,
    /// An Iroh peer in either role.
    IrohPeer,
}

/// Why a command line is refused before a session is thought of.
#[derive(Clone, Copy, Debug, PartialEq, Eq, Structural)]
pub enum RelationError {
    /// More than one peer is named.
    SeveralPeers,
    /// An option stands without one that it needs.
    Missing(NeededOption),
}

impl AppArguments {
    /// Surfaces leave this session encoded.
    pub open spec fn encoded_source(&self) -> bool {
        self.hoist_iroh_listen is Some || (self.hoist_listen is Some && self.hoist_surface_mode
            == Some(HoistSurfaceMode::EncodedOpaque))
    }

    /// An option is given that only an encoded source has a use for.
    pub open spec fn encoded_options(&self) -> bool {
        self.hoist_codec is Some || self.hoist_encoded_dump_dir is Some
            || self.hoist_bitrate_target_mbps is Some
    }

    /// An option is given that only a headless session has a use for.
    pub open spec fn headless_options(&self) -> bool {
        self.headless_output is Some || self.headless_window_size is Some || self.headless_refresh
            is Some
    }

    /// The first rule for hoisting that the options break.
    pub open spec fn hoist_conflict(&self) -> Option<ArgumentConflict> {
        if self.encoded_options() && !self.encoded_source() {
            Some(ArgumentConflict::EncodedSourceRequired)
        } else {
            None
        }
    }

    /// The first rule for sessions that the options break.
    pub open spec fn session_conflict(&self) -> Option<ArgumentConflict> {
        if !(self.backend is Headless) {
            if self.hoist_all {
                Some(ArgumentConflict::HoistAllNeedsHeadless)
            } else if self.headless_options() {
                Some(ArgumentConflict::HeadlessOptionsNeedHeadless)
            } else {
                None
            }
        } else if self.screenshot is Some || self.remote_debug is Some {
            Some(ArgumentConflict::HeadlessHasNoPresenter)
        } else if self.hoist_listen is Some || self.hoist_connect is Some || self.hoist_iroh_connect
            is Some {
            Some(ArgumentConflict::HeadlessTransport)
        } else if self.hoist_iroh_listen is Some != self.hoist_all {
            Some(ArgumentConflict::HeadlessNeedsConsent)
        } else {
            self.hoist_conflict()
        }
    }

    /// How many peers are named.
    pub open spec fn peers(&self) -> nat {
        ((if self.hoist_listen is Some {
            1nat
        } else {
            0
        }) + (if self.hoist_connect is Some {
            1nat
        } else {
            0
        }) + (if self.hoist_iroh_listen is Some {
            1nat
        } else {
            0
        }) + (if self.hoist_iroh_connect is Some {
            1nat
        } else {
            0
        }))
    }

    /// An Iroh peer is named, in either role.
    pub open spec fn iroh_peer(&self) -> bool {
        self.hoist_iroh_listen is Some || self.hoist_iroh_connect is Some
    }

    /// An option that can stand only beside `needed` is given.
    pub open spec fn asks_for(&self, needed: NeededOption) -> bool {
        match needed {
            NeededOption::HoistListen => self.hoist_surface_mode is Some,
            NeededOption::IrohListen => self.hoist_all || self.hoist_iroh_expect_peer is Some
                || self.hoist_iroh_publish_profile is Some,
            NeededOption::IrohConnect => self.hoist_iroh_publish_identity is Some,
            NeededOption::IrohExpectPeer => self.hoist_iroh_listen is Some,
            NeededOption::IrohPublishIdentity => self.hoist_iroh_connect is Some,
            NeededOption::IrohPeer => self.hoist_iroh_device_dir is Some || self.hoist_iroh_timeout
                is Some || self.hoist_iroh_network is Some,
        }
    }

    /// `needed` is given.
    pub open spec fn gives(&self, needed: NeededOption) -> bool {
        match needed {
            NeededOption::HoistListen => self.hoist_listen is Some,
            NeededOption::IrohListen => self.hoist_iroh_listen is Some,
            NeededOption::IrohConnect => self.hoist_iroh_connect is Some,
            NeededOption::IrohExpectPeer => self.hoist_iroh_expect_peer is Some,
            NeededOption::IrohPublishIdentity => self.hoist_iroh_publish_identity is Some,
            NeededOption::IrohPeer => self.iroh_peer(),
        }
    }

    /// `needed` is asked for and not given.
    pub open spec fn lacks(&self, needed: NeededOption) -> bool {
        self.asks_for(needed) && !self.gives(needed)
    }

    /// The first relation between options that is broken.
    pub open spec fn broken_relation(&self) -> Option<RelationError> {
        if self.peers() > 1 {
            Some(RelationError::SeveralPeers)
        } else if self.lacks(NeededOption::IrohExpectPeer) {
            Some(RelationError::Missing(NeededOption::IrohExpectPeer))
        } else if self.lacks(NeededOption::IrohListen) {
            Some(RelationError::Missing(NeededOption::IrohListen))
        } else if self.lacks(NeededOption::IrohPublishIdentity) {
            Some(RelationError::Missing(NeededOption::IrohPublishIdentity))
        } else if self.lacks(NeededOption::IrohConnect) {
            Some(RelationError::Missing(NeededOption::IrohConnect))
        } else if self.lacks(NeededOption::IrohPeer) {
            Some(RelationError::Missing(NeededOption::IrohPeer))
        } else if self.lacks(NeededOption::HoistListen) {
            Some(RelationError::Missing(NeededOption::HoistListen))
        } else {
            None
        }
    }

    /// Checks how the options on the command line go together: at most one peer
    /// is named, and each option has beside it what it needs.
    pub fn check_relations(&self) -> (result: Result<(), RelationError>)
        ensures
            result == (match self.broken_relation() {
                Some(error) => Err::<(), _>(error),
                None => Ok(()),
            }),
    {
        let listens = self.hoist_iroh_listen.is_some();
        let connects = self.hoist_iroh_connect.is_some();
        let mut peers: u8 = 0;
        if self.hoist_listen.is_some() {
            peers = peers + 1;
        }
        if self.hoist_connect.is_some() {
            peers = peers + 1;
        }
        if listens {
            peers = peers + 1;
        }
        if connects {
            peers = peers + 1;
        }
        if peers > 1 {
            return Err(RelationError::SeveralPeers);
        }
        if listens && self.hoist_iroh_expect_peer.is_none() {
            return Err(RelationError::Missing(NeededOption::IrohExpectPeer));
        }
        if !listens && (self.hoist_all || self.hoist_iroh_expect_peer.is_some()
            || self.hoist_iroh_publish_profile.is_some()) {
            return Err(RelationError::Missing(NeededOption::IrohListen));
        }
        if connects && self.hoist_iroh_publish_identity.is_none() {
            return Err(RelationError::Missing(NeededOption::IrohPublishIdentity));
        }
        if !connects && self.hoist_iroh_publish_identity.is_some() {
            return Err(RelationError::Missing(NeededOption::IrohConnect));
        }
        if !listens && !connects && (self.hoist_iroh_device_dir.is_some()
            || self.hoist_iroh_timeout.is_some() || self.hoist_iroh_network.is_some()) {
            return Err(RelationError::Missing(NeededOption::IrohPeer));
        }
        if self.hoist_surface_mode.is_some() && self.hoist_listen.is_none() {
            return Err(RelationError::Missing(NeededOption::HoistListen));
        }
        Ok(())
    }

    pub(crate) fn is_encoded_source(&self) -> (encoded: bool)
        ensures
            encoded == self.encoded_source(),
    {
        self.hoist_iroh_listen.is_some() || (self.hoist_listen.is_some() && matches!(
            self.hoist_surface_mode,
            Some(HoistSurfaceMode::EncodedOpaque)
        ))
    }

    /// Checks the options for hoisting.
    pub fn validate_hoist_arguments(&self) -> (result: Result<(), ArgumentConflict>)
        ensures
            result == (match self.hoist_conflict() {
                Some(conflict) => Err::<(), _>(conflict),
                None => Ok(()),
            }),
    {
        let encoded_options = self.hoist_codec.is_some() || self.hoist_encoded_dump_dir.is_some()
            || self.hoist_bitrate_target_mbps.is_some();
        if encoded_options && !self.is_encoded_source() {
            return Err(ArgumentConflict::EncodedSourceRequired);
        }
        Ok(())
    }

    /// Checks the options that a backend limits, and for a headless session
    /// those for hoisting too.
    pub fn validate_session_arguments(&self) -> (result: Result<(), ArgumentConflict>)
        ensures
            result == (match self.session_conflict() {
                Some(conflict) => Err::<(), _>(conflict),
                None => Ok(()),
            }),
    {
        if !matches!(self.backend, BackendKind::Headless) {
            if self.hoist_all {
                return Err(ArgumentConflict::HoistAllNeedsHeadless);
            }
            if self.headless_output.is_some() || self.headless_window_size.is_some()
                || self.headless_refresh.is_some() {
                return Err(ArgumentConflict::HeadlessOptionsNeedHeadless);
            }
            return Ok(());
        }
        if self.screenshot.is_some() || self.remote_debug.is_some() {
            return Err(ArgumentConflict::HeadlessHasNoPresenter);
        }
        if self.hoist_listen.is_some() || self.hoist_connect.is_some()
            || self.hoist_iroh_connect.is_some() {
            return Err(ArgumentConflict::HeadlessTransport);
        }
        if self.hoist_iroh_listen.is_some() != self.hoist_all {
            return Err(ArgumentConflict::HeadlessNeedsConsent);
        }
        self.validate_hoist_arguments()
    }

    /// Who repeats keys in a headless session: as asked for, else the
    /// compositor where windows are hosted over Iroh, else the clients.
    pub fn headless_repeat_mode(&self) -> (mode: KeyboardRepeatModeArgument)
        ensures
            mode == (match self.keyboard_repeat_mode {
                Some(mode) => mode,
                None => if self.hoist_iroh_listen is Some {
                    KeyboardRepeatModeArgument::Compositor
                } else {
                    KeyboardRepeatModeArgument::Client
                },
            }),
    {
        match self.keyboard_repeat_mode {
            Some(mode) => mode,
            None => if self.hoist_iroh_listen.is_some() {
                KeyboardRepeatModeArgument::Compositor
            } else {
                KeyboardRepeatModeArgument::Client
            },
        }
    }

    /// The headless session that the options ask for.
    pub fn runtime_options(&self) -> (options: RuntimeOptions)
        ensures
            options.output == (match self.headless_output {
                Some(extent) => extent,
                None => Extent { width: 1920, height: 1080 },
            }),
            options.refresh == (match self.headless_refresh {
                Some(refresh) => refresh,
                None => 60,
            }),
            options.window_size == (match self.headless_window_size {
                Some(extent) => extent,
                None => Extent { width: 960, height: 640 },
            }),
            options.repeat_mode == (match self.keyboard_repeat_mode {
                Some(mode) => mode,
                None => if self.hoist_iroh_listen is Some {
                    KeyboardRepeatModeArgument::Compositor
                } else {
                    KeyboardRepeatModeArgument::Client
                },
            }),
            options.legacy_repeat == (match self.legacy_key_repeat {
                Some(repeat) => repeat,
                None => LegacyKeyRepeatArgument::Client,
            }),
    {
        RuntimeOptions {
            output: match self.headless_output {
                Some(extent) => extent,
                None => Extent { width: 1920, height: 1080 },
            },
            refresh: match self.headless_refresh {
                Some(refresh) => refresh,
                None => 60,
            },
            window_size: match self.headless_window_size {
                Some(extent) => extent,
                None => Extent { width: 960, height: 640 },
            },
            repeat_mode: self.headless_repeat_mode(),
            legacy_repeat: match self.legacy_key_repeat {
                Some(repeat) => repeat,
                None => LegacyKeyRepeatArgument::default(),
            },
        }
    }

    /// The peer transport to open, the first that is asked for.
    pub fn transport(&self) -> (transport: HoistTransport)
        ensures
            transport == (if self.hoist_listen is Some {
                HoistTransport::LocalSource
            } else if self.hoist_connect is Some {
                HoistTransport::LocalDestination
            } else if self.hoist_iroh_listen is Some {
                HoistTransport::IrohSource
            } else if self.hoist_iroh_connect is Some {
                HoistTransport::IrohDestination
            } else {
                HoistTransport::Loopback
            }),
    {
        if self.hoist_listen.is_some() {
            HoistTransport::LocalSource
        } else if self.hoist_connect.is_some() {
            HoistTransport::LocalDestination
        } else if self.hoist_iroh_listen.is_some() {
            HoistTransport::IrohSource
        } else if self.hoist_iroh_connect.is_some() {
            HoistTransport::IrohDestination
        } else {
            HoistTransport::Loopback
        }
    }

    /// How surfaces travel to a local peer.
    pub fn local_surface_mode(&self) -> (mode: LocalSurfaceMode)
        ensures
            mode == (if self.hoist_surface_mode == Some(HoistSurfaceMode::EncodedOpaque) {
                LocalSurfaceMode::EncodedOpaque(
                    match self.hoist_codec {
                        Some(codec) => codec,
                        None => HoistCodec::H264,
                    },
                )
            } else {
                LocalSurfaceMode::Native
            }),
    {
        let codec = match self.hoist_codec {
            Some(codec) => codec,
            None => HoistCodec::default(),
        };
        match self.hoist_surface_mode {
            Some(mode) => mode.local(codec),
            None => LocalSurfaceMode::Native,
        }
    }

    /// Startup budget for a peer, in seconds.
    pub fn peer_timeout(&self) -> (seconds: u64)
        ensures
            seconds == (match self.hoist_iroh_timeout {
                Some(seconds) => seconds,
                None => DEFAULT_PEER_TIMEOUT,
            }),
    {
        match self.hoist_iroh_timeout {
            Some(seconds) => seconds,
            None => DEFAULT_PEER_TIMEOUT,
        }
    }
}

/// What a headless session runs with.
#[derive(Clone, Copy, Debug, PartialEq, Eq, Structural)]
pub struct RuntimeOptions {
    pub output: Extent,
    pub refresh: u32,
    pub window_size: Extent,
    pub repeat_mode: KeyboardRepeatModeArgument,
    pub legacy_repeat: LegacyKeyRepeatArgument,
}

/// How windows are exchanged with a peer.
#[derive(Clone, Copy, Debug, PartialEq, Eq, Structural)]
pub enum HoistTransport {
    LocalSource,
    LocalDestination,
    IrohSource,
    IrohDestination,
    /// No peer: windows can be hoisted within this session.
    Loopback,
}

impl HoistTransport {
    /// Whether this session decides which windows to hoist: not where it only
    /// receives them.
    pub fn enables_hoist_policy(self) -> (enables: bool)
        ensures
            enables == !(self is LocalDestination || self is IrohDestination),
    {
        !matches!(self, HoistTransport::LocalDestination | HoistTransport::IrohDestination)
    }
}

/// What a media device is asked to do.
#[derive(Clone, Copy, Debug, PartialEq, Eq, Structural)]
pub enum MediaOperation {
    Encode,
    Decode,
}

/// What a media device can do, per codec.
#[derive(Clone, Copy, Debug, PartialEq, Eq, Structural)]
pub struct MediaCapabilities {
    pub encodes_av1: bool,
    pub encodes_h264: bool,
    pub decodes_av1: bool,
    pub decodes_h264: bool,
}

impl MediaCapabilities {
    /// The device can do what it is asked to.
    pub open spec fn supports(self, codec: HoistCodec, operation: MediaOperation) -> bool {
        match (operation, codec) {
            (MediaOperation::Encode, HoistCodec::Av1) => self.encodes_av1,
            (MediaOperation::Encode, HoistCodec::H264) => self.encodes_h264,
            (MediaOperation::Decode, HoistCodec::Av1) => self.decodes_av1,
            (MediaOperation::Decode, HoistCodec::H264) => self.decodes_h264,
        }
    }
}

/// Whether a media device can do what it is asked to.
pub fn media_supported(media: MediaCapabilities, codec: HoistCodec, operation: MediaOperation) -> (supported:
    bool)
    ensures
        supported == media.supports(codec, operation),
{
    match (operation, codec) {
        (MediaOperation::Encode, HoistCodec::Av1) => media.encodes_av1,
        (MediaOperation::Encode, HoistCodec::H264) => media.encodes_h264,
        (MediaOperation::Decode, HoistCodec::Av1) => media.decodes_av1,
        (MediaOperation::Decode, HoistCodec::H264) => media.decodes_h264,
    }
}

/// Why a codec cannot be used.
#[derive(Clone, Copy, Debug, PartialEq, Eq, Structural)]
pub enum MediaError {
    /// The GPU cannot import client buffers.
    NoImport,
    /// The media device cannot do what it is asked to.
    Unsupported,
}

/// Checks that a codec can be used. `media` is what the media device can do;
/// none where the GPU cannot import client buffers.
pub fn validate_encoded_capabilities(
    media: Option<MediaCapabilities>,
    codec: HoistCodec,
    operation: MediaOperation,
) -> (result: Result<(), MediaError>)
    ensures
        result == (match media {
            None => Err::<(), _>(MediaError::NoImport),
            Some(media) => if media.supports(codec, operation) {
                Ok(())
            } else {
                Err(MediaError::Unsupported)
            },
        }),
{
    match media {
        None => Err(MediaError::NoImport),
        Some(media) => if media_supported(media, codec, operation) {
            Ok(())
        } else {
            Err(MediaError::Unsupported)
        },
    }
}

/// Whether a peer that agreed on `mode` has the channels that go with it:
/// encoded surfaces need one for media, native ones have none.
pub fn channels_agree(mode: LocalSurfaceMode, has_media: bool) -> (agree: bool)
    ensures
        agree == (mode is EncodedOpaque == has_media),
{
    match mode {
        LocalSurfaceMode::Native => !has_media,
        LocalSurfaceMode::EncodedOpaque(_) => has_media,
    }
}

/// The codecs that a destination offers to decode, in order of preference.
pub fn decodable_codecs(media: MediaCapabilities) -> (codecs: Vec<HoistCodec>)
    ensures
        codecs@ == (if media.decodes_av1 {
            seq![HoistCodec::Av1]
        } else {
            Seq::<HoistCodec>::empty()
        }) + (if media.decodes_h264 {
            seq![HoistCodec::H264]
        } else {
            Seq::<HoistCodec>::empty()
        }),
{
    let mut codecs: Vec<HoistCodec> = Vec::new();
    if media.decodes_av1 {
        codecs.push(HoistCodec::Av1);
    }
    if media.decodes_h264 {
        codecs.push(HoistCodec::H264);
    }
    codecs
}

/// On a command line whose relations hold nothing that is asked for is lacking,
/// and a session is with one peer at most: an Iroh source knows whom to admit, an
/// Iroh destination where to publish its identity, and neither role's files are
/// named without the role.
pub proof fn related_options_are_complete(arguments: AppArguments)
    requires
        arguments.broken_relation() is None,
    ensures
        forall|needed: NeededOption| !#[trigger] arguments.lacks(needed),
        arguments.peers() <= 1,
        arguments.hoist_iroh_listen is Some == arguments.hoist_iroh_expect_peer is Some,
        arguments.hoist_iroh_connect is Some == arguments.hoist_iroh_publish_identity is Some,
        arguments.hoist_surface_mode is Some ==> arguments.hoist_iroh_listen is None
            && arguments.hoist_connect is None && arguments.hoist_iroh_connect is None,
{
    assert forall|needed: NeededOption| !#[trigger] arguments.lacks(needed) by {
        match needed {
            NeededOption::HoistListen => {},
            NeededOption::IrohListen => {},
            NeededOption::IrohConnect => {},
            NeededOption::IrohExpectPeer => {},
            NeededOption::IrohPublishIdentity => {},
            NeededOption::IrohPeer => {},
        }
    }
}

/// A headless session that passes has no presenter, no transport but an Iroh
/// source, and hosts over Iroh only with consent.
pub proof fn headless_sessions_are_consented(arguments: AppArguments)
    requires
        arguments.session_conflict() is None,
        arguments.backend is Headless,
    ensures
        arguments.screenshot is None && arguments.remote_debug is None,
        arguments.hoist_listen is None && arguments.hoist_connect is None
            && arguments.hoist_iroh_connect is None,
        arguments.hoist_iroh_listen is Some == arguments.hoist_all,
        arguments.encoded_options() ==> arguments.encoded_source(),
{
}

/// Where the session draws, no headless option and no session-wide consent
/// passes.
pub proof fn other_sessions_take_no_headless_options(arguments: AppArguments)
    requires
        arguments.session_conflict() is None,
        !(arguments.backend is Headless),
    ensures
        !arguments.hoist_all,
        !arguments.headless_options(),
{
}

/// Each backend stands for its own host: only the headless one for a session that
/// draws nothing, the others for the drawing backend of their name.
pub proof fn backends_stand_for_their_host(kind: BackendKind)
    ensures
        kind.host() is Headless <==> kind is Headless,
        kind.host() == HostSelection::Bevy(Backend::Auto) <==> kind is Auto,
        kind.host() == HostSelection::Bevy(Backend::Nested) <==> kind is Nested,
        kind.host() == HostSelection::Bevy(Backend::Drm) <==> kind is Drm,
{
}

/// A key repeat fallback goes by its own name and by no other.
pub proof fn fallbacks_go_by_their_name(text: Seq<char>)
    ensures
        named_repeat("client"@) == Some(LegacyKeyRepeatArgument::Client),
        named_repeat("disabled"@) == Some(LegacyKeyRepeatArgument::Disabled),
        named_repeat("emulated"@) == Some(LegacyKeyRepeatArgument::Emulated),
        named_repeat(text) is Some ==> text == "client"@ || text == "disabled"@ || text
            == "emulated"@,
{
    reveal_strlit("client");
    reveal_strlit("disabled");
    reveal_strlit("emulated");
    assert("client"@[0] == 'c' && "disabled"@[0] == 'd' && "emulated"@[0] == 'e');
}

/// A size is read side by side: the first number is the width and the second one
/// the height. Both are at least one pixel and at most the largest extent.
pub proof fn sizes_are_read_side_by_side(width: Seq<char>, height: Seq<char>)
    ensures
        extent_of(width, height) matches Ok((across, down)) ==> {
            &&& unsigned_number(width, u32::MAX as nat) == Some(across)
            &&& unsigned_number(height, u32::MAX as nat) == Some(down)
            &&& 1 <= across <= MAX_EXTENT && 1 <= down <= MAX_EXTENT
        },
        unsigned_number(width, u32::MAX as nat) is None ==> extent_of(width, height) == Err::<
            (nat, nat),
            _,
        >(ExtentError::InvalidWidth),
        unsigned_number(width, u32::MAX as nat) is Some && unsigned_number(height, u32::MAX as nat)
            is None ==> extent_of(width, height) == Err::<(nat, nat), _>(
            ExtentError::InvalidHeight,
        ),
        unsigned_number(width, u32::MAX as nat) is Some && unsigned_number(height, u32::MAX as nat)
            is Some ==> (extent_of(width, height) is Ok <==> 1 <= unsigned_number(
            width,
            u32::MAX as nat,
        )->0 <= MAX_EXTENT && 1 <= unsigned_number(height, u32::MAX as nat)->0 <= MAX_EXTENT),
{
}

/// A size that is written out is read back.
pub proof fn written_sizes_are_read_back(width: nat, height: nat)
    requires
        1 <= width <= MAX_EXTENT,
        1 <= height <= MAX_EXTENT,
    ensures
        extent_of(decimal(width), decimal(height)) == Ok::<_, ExtentError>((width, height)),
{
    crate::text::numbers_read_back(width, u32::MAX as nat);
    crate::text::numbers_read_back(height, u32::MAX as nat);
}

/// Where a text has a separator there is only one first.
pub proof fn the_first_separator_is_unique(text: Seq<char>, first: int, other: int)
    requires
        first_separator(text, first),
        first_separator(text, other),
    ensures
        first == other,
        text[first] == 'x',
        !text.take(first).contains('x'),
{
    if text.take(first).contains('x') {
        let i = choose|i: int| 0 <= i < text.take(first).len() && text.take(first)[i] == 'x';
        assert(text[i] == 'x');
    }
}

/// A number that an option takes is read as it is written, and is within the
/// option's bounds; a number outside of them is told from what is no number.
pub proof fn numbers_stay_within_bounds(number: nat, low: nat, high: nat, text: Seq<char>)
    requires
        number <= u64::MAX,
    ensures
        low <= number <= high ==> ranged_number(decimal(number), low, high) == Ok::<_, NumberError>(
            number,
        ),
        !(low <= number <= high) ==> ranged_number(decimal(number), low, high) == Err::<nat, _>(
            NumberError::OutOfRange,
        ),
        ranged_number(text, low, high) matches Ok(read) ==> low <= read <= high,
        unsigned_number(text, u64::MAX as nat) is None ==> ranged_number(text, low, high) == Err::<
            nat,
            _,
        >(NumberError::NotANumber),
{
    crate::text::numbers_read_back(number, u64::MAX as nat);
}

/// Surfaces leave a session encoded just where it hosts over Iroh, or listens
/// locally and is told to encode. An option about encoding anywhere else is a
/// conflict.
pub proof fn encoding_needs_a_source(arguments: AppArguments)
    ensures
        arguments.hoist_iroh_listen is Some ==> arguments.encoded_source(),
        arguments.hoist_iroh_listen is None ==> (arguments.encoded_source()
            <==> arguments.hoist_listen is Some && arguments.hoist_surface_mode == Some(
            HoistSurfaceMode::EncodedOpaque,
        )),
        arguments.encoded_options() <==> arguments.hoist_codec is Some
            || arguments.hoist_bitrate_target_mbps is Some || arguments.hoist_encoded_dump_dir
            is Some,
        arguments.hoist_conflict() is Some <==> arguments.encoded_options()
            && !arguments.encoded_source(),
        arguments.hoist_conflict() matches Some(conflict) ==> conflict is EncodedSourceRequired,
{
}

/// Each conflict of a session has its own reason.
pub proof fn session_conflicts_say_why(arguments: AppArguments)
    ensures
        ({
            let conflict = arguments.session_conflict();
            let headless = arguments.backend is Headless;
            &&& conflict == Some(ArgumentConflict::HoistAllNeedsHeadless) <==> !headless
                && arguments.hoist_all
            &&& conflict == Some(ArgumentConflict::HeadlessOptionsNeedHeadless) <==> !headless
                && !arguments.hoist_all && (arguments.headless_output is Some
                || arguments.headless_window_size is Some || arguments.headless_refresh is Some)
            &&& conflict == Some(ArgumentConflict::HeadlessHasNoPresenter) <==> headless && (
            arguments.screenshot is Some || arguments.remote_debug is Some)
            &&& conflict == Some(ArgumentConflict::HeadlessTransport) <==> headless
                && arguments.screenshot is None && arguments.remote_debug is None && (
            arguments.hoist_listen is Some || arguments.hoist_connect is Some
                || arguments.hoist_iroh_connect is Some)
            &&& conflict == Some(ArgumentConflict::HeadlessNeedsConsent) ==> headless && (
            arguments.hoist_iroh_listen is Some) != arguments.hoist_all
            &&& conflict == Some(ArgumentConflict::EncodedSourceRequired) ==> headless
                && arguments.encoded_options() && !arguments.encoded_source()
        }),
{
}

/// Naming two peers is an error, whichever they are; naming one is none in
/// itself.
pub proof fn at_most_one_peer_is_named(arguments: AppArguments)
    ensures
        arguments.broken_relation() == Some(RelationError::SeveralPeers) <==> {
            ||| arguments.hoist_listen is Some && arguments.hoist_connect is Some
            ||| arguments.hoist_listen is Some && arguments.hoist_iroh_listen is Some
            ||| arguments.hoist_listen is Some && arguments.hoist_iroh_connect is Some
            ||| arguments.hoist_connect is Some && arguments.hoist_iroh_listen is Some
            ||| arguments.hoist_connect is Some && arguments.hoist_iroh_connect is Some
            ||| arguments.hoist_iroh_listen is Some && arguments.hoist_iroh_connect is Some
        },
{
}

/// An option that is said to be missing is asked for by another one and not
/// there.
pub proof fn missing_options_are_asked_for(arguments: AppArguments)
    ensures
        arguments.broken_relation() == Some(RelationError::Missing(NeededOption::IrohExpectPeer))
            ==> arguments.hoist_iroh_listen is Some && arguments.hoist_iroh_expect_peer is None,
        arguments.broken_relation() == Some(RelationError::Missing(NeededOption::IrohListen))
            ==> arguments.hoist_iroh_listen is None && (arguments.hoist_all
            || arguments.hoist_iroh_expect_peer is Some || arguments.hoist_iroh_publish_profile
            is Some),
        arguments.broken_relation() == Some(
            RelationError::Missing(NeededOption::IrohPublishIdentity),
        ) ==> arguments.hoist_iroh_connect is Some && arguments.hoist_iroh_publish_identity is None,
        arguments.broken_relation() == Some(RelationError::Missing(NeededOption::IrohConnect))
            ==> arguments.hoist_iroh_connect is None && arguments.hoist_iroh_publish_identity
            is Some,
        arguments.broken_relation() == Some(RelationError::Missing(NeededOption::IrohPeer))
            ==> arguments.hoist_iroh_listen is None && arguments.hoist_iroh_connect is None && (
        arguments.hoist_iroh_device_dir is Some || arguments.hoist_iroh_timeout is Some
            || arguments.hoist_iroh_network is Some),
        arguments.broken_relation() == Some(RelationError::Missing(NeededOption::HoistListen))
            ==> arguments.hoist_listen is None && arguments.hoist_surface_mode is Some,
{
}

/// With its relations in order a command line has beside each option what that
/// option needs.
pub proof fn options_have_what_they_need(arguments: AppArguments)
    requires
        arguments.broken_relation() is None,
    ensures
        arguments.hoist_surface_mode is Some ==> arguments.hoist_listen is Some,
        arguments.hoist_all ==> arguments.hoist_iroh_listen is Some,
        arguments.hoist_iroh_publish_profile is Some ==> arguments.hoist_iroh_listen is Some,
        arguments.hoist_iroh_listen is Some ==> arguments.hoist_iroh_expect_peer is Some,
        arguments.hoist_iroh_connect is Some ==> arguments.hoist_iroh_publish_identity is Some,
        arguments.hoist_iroh_device_dir is Some || arguments.hoist_iroh_timeout is Some
            || arguments.hoist_iroh_network is Some ==> arguments.hoist_iroh_listen is Some
            || arguments.hoist_iroh_connect is Some,
{
}

/// A media device supports a codec for an operation just if it can do that very
/// operation with that very codec.
pub proof fn media_devices_do_what_they_can(media: MediaCapabilities)
    ensures
        media.supports(HoistCodec::Av1, MediaOperation::Encode) == media.encodes_av1,
        media.supports(HoistCodec::H264, MediaOperation::Encode) == media.encodes_h264,
        media.supports(HoistCodec::Av1, MediaOperation::Decode) == media.decodes_av1,
        media.supports(HoistCodec::H264, MediaOperation::Decode) == media.decodes_h264,
{
}

/// A session takes the side of the connection that the command line names: it
/// listens only where an address to listen on is given, connects only where one
/// to connect to is, and goes over the network only where that address is one of
/// the network. Only sessions that connect leave the placing of windows to the
/// other side.
pub proof fn transports_are_those_asked_for(
    arguments: &AppArguments,
    transport: HoistTransport,
    policy: bool,
)
    requires
        call_ensures(AppArguments::transport, (arguments,), transport),
        call_ensures(HoistTransport::enables_hoist_policy, (transport,), policy),
    ensures
        transport is LocalSource ==> arguments.hoist_listen is Some,
        transport is LocalDestination ==> arguments.hoist_connect is Some,
        transport is IrohSource ==> arguments.hoist_iroh_listen is Some,
        transport is IrohDestination ==> arguments.hoist_iroh_connect is Some,
        transport is Loopback <==> arguments.hoist_listen is None && arguments.hoist_connect is None
            && arguments.hoist_iroh_listen is None && arguments.hoist_iroh_connect is None,
        !policy ==> arguments.hoist_connect is Some || arguments.hoist_iroh_connect is Some,
        arguments.hoist_connect is None && arguments.hoist_iroh_connect is None ==> policy,
        transport is LocalSource || transport is IrohSource || transport is Loopback ==> policy,
{
}

/// Every option that is given is the one in use, and the session without options
/// shows a full HD output at sixty frames a second.
pub proof fn given_options_are_used(
    arguments: &AppArguments,
    options: RuntimeOptions,
    mode: KeyboardRepeatModeArgument,
    seconds: u64,
)
    requires
        call_ensures(AppArguments::runtime_options, (arguments,), options),
        call_ensures(AppArguments::headless_repeat_mode, (arguments,), mode),
        call_ensures(AppArguments::peer_timeout, (arguments,), seconds),
    ensures
        arguments.headless_output is Some ==> arguments.headless_output == Some(options.output),
        arguments.headless_output is None ==> options.output.width == 1920 && options.output.height
            == 1080,
        arguments.headless_refresh is Some ==> arguments.headless_refresh == Some(options.refresh),
        arguments.headless_refresh is None ==> options.refresh == 60,
        arguments.headless_window_size is Some ==> arguments.headless_window_size == Some(
            options.window_size,
        ),
        arguments.headless_window_size is None ==> options.window_size.width == 960
            && options.window_size.height == 640,
        options.repeat_mode == mode,
        arguments.keyboard_repeat_mode is Some ==> arguments.keyboard_repeat_mode == Some(mode),
        arguments.keyboard_repeat_mode is None ==> (mode is Compositor
            <==> arguments.hoist_iroh_listen is Some),
        arguments.legacy_key_repeat is Some ==> arguments.legacy_key_repeat == Some(
            options.legacy_repeat,
        ),
        arguments.legacy_key_repeat is None ==> options.legacy_repeat is Client,
        arguments.hoist_iroh_timeout is Some ==> arguments.hoist_iroh_timeout == Some(seconds),
        arguments.hoist_iroh_timeout is None ==> seconds == 120,
{
}

/// Surfaces are sent encoded just if that is asked for, with the codec that is
/// asked for; only then is there a channel for media.
pub proof fn surfaces_are_encoded_on_request(
    arguments: &AppArguments,
    mode: LocalSurfaceMode,
    has_media: bool,
    agree: bool,
)
    requires
        call_ensures(AppArguments::local_surface_mode, (arguments,), mode),
        call_ensures(channels_agree, (mode, has_media), agree),
    ensures
        mode is EncodedOpaque <==> arguments.hoist_surface_mode == Some(
            HoistSurfaceMode::EncodedOpaque,
        ),
        mode matches LocalSurfaceMode::EncodedOpaque(codec) ==> (arguments.hoist_codec is Some
            ==> arguments.hoist_codec == Some(codec)),
        mode matches LocalSurfaceMode::EncodedOpaque(codec) ==> (arguments.hoist_codec is None
            ==> codec is H264),
        agree && has_media ==> mode is EncodedOpaque,
        agree && !has_media ==> mode is Native,
        !agree && has_media ==> mode is Native,
        !agree && !has_media ==> mode is EncodedOpaque,
{
}

/// A surface mode keeps its kind when it is applied, and an encoded one the codec
/// that it is given.
pub proof fn surface_modes_keep_their_kind(
    asked: HoistSurfaceMode,
    codec: HoistCodec,
    mode: LocalSurfaceMode,
)
    requires
        call_ensures(HoistSurfaceMode::local, (asked, codec), mode),
    ensures
        asked is Native <==> mode is Native,
        mode matches LocalSurfaceMode::EncodedOpaque(used) ==> used == codec,
{
}

} // verus!
