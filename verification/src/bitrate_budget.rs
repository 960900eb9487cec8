//! The bitrate target that the encoders of a session share.

use vstd::prelude::*;

use crate::arguments::{AppArguments, HoistCodec};
#[allow(unused_imports)]
use crate::arguments::{ranged_number, NumberError, MAX_BITRATE_TARGET};
use crate::text::parse_unsigned;
#[allow(unused_imports)]
use crate::text::unsigned_number;

verus! {

/// Bits in a megabit.
pub const MEGABIT: u64 = 1_000_000;

/// Where a target comes from.
#[derive(Clone, Copy, Debug, PartialEq, Eq, Structural)]
pub enum TargetOrigin {
    Flag,
    Environment,
    Default,
}

/// A target in bits per second.
#[derive(Clone, Copy, Debug, PartialEq, Eq, Structural)]
pub struct BitrateTarget {
    pub bits_per_second: u64,
    pub origin: TargetOrigin,
}

/// Why there is no target.
#[derive(Clone, Copy, Debug, PartialEq, Eq, Structural)]
pub enum BitrateError {
    /// A target was asked for where nothing is encoded.
    NoEncodedSource,
    InvalidEncoding,
    InvalidNumber,
    NotPositive,
    Overflow,
}

/// What the environment says of the target.
pub enum EnvironmentTarget<'a> {
    Absent,
    /// Something that is not text.
    NotText,
    Text(&'a str),
}

/// The target of a codec, in megabits per second, where none is asked for.
pub open spec fn default_megabits(codec: Option<HoistCodec>) -> nat {
    if codec == Some(HoistCodec::Av1) {
        8
    } else {
        16
    }
}

/// Checks a number of megabits per second.
pub open spec fn checked_target(megabits: nat, origin: TargetOrigin) -> Result<
    (nat, TargetOrigin),
    BitrateError,
> {
    if megabits == 0 {
        Err(BitrateError::NotPositive)
    } else if megabits * MEGABIT > u64::MAX {
        Err(BitrateError::Overflow)
    } else {
        Ok((megabits * MEGABIT as nat, origin))
    }
}

/// The target for an encoded source: the option, else the environment, else
/// the default of the codec.
pub open spec fn encoded_target(arguments: AppArguments, environment: EnvironmentTarget<'_>) -> Result<
    (nat, TargetOrigin),
    BitrateError,
> {
    match arguments.hoist_bitrate_target_mbps {
        Some(megabits) => checked_target(megabits as nat, TargetOrigin::Flag),
        None => match environment {
            EnvironmentTarget::NotText => Err(BitrateError::InvalidEncoding),
            EnvironmentTarget::Text(text) => match unsigned_number(text@, u64::MAX as nat) {
                Some(megabits) => checked_target(megabits, TargetOrigin::Environment),
                None => Err(BitrateError::InvalidNumber),
            },
            EnvironmentTarget::Absent => checked_target(
                default_megabits(arguments.hoist_codec),
                TargetOrigin::Default,
            ),
        },
    }
}

/// Whether the environment bears on the target at all.
pub fn asks_environment(arguments: &AppArguments) -> (asks: bool)
    ensures
        asks == (arguments.encoded_source() && arguments.hoist_bitrate_target_mbps is None),
{
    arguments.is_encoded_source() && arguments.hoist_bitrate_target_mbps.is_none()
}

fn target(megabits: u64, origin: TargetOrigin) -> (target: Result<BitrateTarget, BitrateError>)
    ensures
        match target {
            Ok(target) => checked_target(megabits as nat, origin) == Ok::<_, BitrateError>(
                (target.bits_per_second as nat, target.origin),
            ),
            Err(error) => checked_target(megabits as nat, origin) == Err::<
                (nat, TargetOrigin),
                _,
            >(error),
        },
{
    if megabits == 0 {
        return Err(BitrateError::NotPositive);
    }
    match megabits.checked_mul(MEGABIT) {
        Some(bits_per_second) => Ok(BitrateTarget { bits_per_second, origin }),
        None => Err(BitrateError::Overflow),
    }
}

/// Works out the shared target. Without an encoded source there is none, and
/// asking for one is an error; what the environment says then is of no account.
pub fn resolve(arguments: &AppArguments, environment: EnvironmentTarget<'_>) -> (resolved: Result<
    Option<BitrateTarget>,
    BitrateError,
>)
    ensures
        !arguments.encoded_source() ==> resolved == (if arguments.hoist_bitrate_target_mbps is Some {
            Err::<Option<BitrateTarget>, _>(BitrateError::NoEncodedSource)
        } else {
            Ok(None)
        }),
        arguments.encoded_source() ==> match resolved {
            Ok(Some(target)) => encoded_target(*arguments, environment) == Ok::<_, BitrateError>(
                (target.bits_per_second as nat, target.origin),
            ),
            Ok(None) => false,
            Err(error) => encoded_target(*arguments, environment) == Err::<(nat, TargetOrigin), _>(
                error,
            ),
        },
{
    if !arguments.is_encoded_source() {
        if arguments.hoist_bitrate_target_mbps.is_some() {
            return Err(BitrateError::NoEncodedSource);
        }
        return Ok(None);
    }
    let resolved = match arguments.hoist_bitrate_target_mbps {
        Some(megabits) => target(megabits, TargetOrigin::Flag),
        None => match environment {
            EnvironmentTarget::NotText => Err(BitrateError::InvalidEncoding),
            EnvironmentTarget::Text(text) => {
                let length: usize = text.unicode_len();
                assert(text@.subrange(0, length as int) =~= text@);
                match parse_unsigned(text, 0, length, u64::MAX) {
                    Some(megabits) => target(megabits, TargetOrigin::Environment),
                    None => Err(BitrateError::InvalidNumber),
                }
            },
            EnvironmentTarget::Absent => {
                let megabits: u64 = match arguments.hoist_codec {
                    Some(HoistCodec::Av1) => 8,
                    _ => 16,
                };
                target(megabits, TargetOrigin::Default)
            },
        },
    };
    match resolved {
        Ok(target) => Ok(Some(target)),
        Err(error) => Err(error),
    }
}

/// A target that the command line accepts fits in bits per second.
pub proof fn accepted_targets_fit(text: Seq<char>, megabits: nat)
    requires
        ranged_number(text, 1, MAX_BITRATE_TARGET as nat) == Ok::<_, NumberError>(megabits),
    ensures
        checked_target(megabits, TargetOrigin::Flag) is Ok,
{
}

/// Options that pass the checks for hoisting are never refused a target for
/// want of an encoded source.
pub proof fn checked_options_have_a_source(arguments: AppArguments)
    requires
        arguments.hoist_conflict() is None,
        arguments.hoist_bitrate_target_mbps is Some,
    ensures
        arguments.encoded_source(),
{
}

/// The option on the command line wins over the environment, and that over the
/// default; the target says where it comes from.
pub proof fn targets_say_where_they_come_from(
    arguments: AppArguments,
    environment: EnvironmentTarget<'_>,
)
    ensures
        encoded_target(arguments, environment) matches Ok((bits, origin)) ==> {
            &&& origin is Flag <==> arguments.hoist_bitrate_target_mbps is Some
            &&& origin is Environment <==> arguments.hoist_bitrate_target_mbps is None
                && environment is Text
            &&& origin is Default <==> arguments.hoist_bitrate_target_mbps is None && environment
                is Absent
            &&& arguments.hoist_bitrate_target_mbps matches Some(megabits) ==> bits == megabits
                * 1_000_000
            &&& origin is Default && arguments.hoist_codec == Some(HoistCodec::Av1) ==> bits
                == 8_000_000
            &&& origin is Default && arguments.hoist_codec != Some(HoistCodec::Av1) ==> bits
                == 16_000_000
            &&& 0 < bits <= u64::MAX
        },
{
}

/// A number of megabits is taken as a million bits each; none at all, and more
/// than can be counted in bits, are told apart.
pub proof fn megabits_are_a_million_bits(megabits: nat, origin: TargetOrigin)
    ensures
        megabits == 0 ==> checked_target(megabits, origin) == Err::<(nat, TargetOrigin), _>(
            BitrateError::NotPositive,
        ),
        megabits * 1_000_000 > u64::MAX ==> checked_target(megabits, origin) == Err::<
            (nat, TargetOrigin),
            _,
        >(BitrateError::Overflow),
        0 < megabits && megabits * 1_000_000 <= u64::MAX ==> checked_target(megabits, origin)
            == Ok::<_, BitrateError>((megabits * 1_000_000, origin)),
{
}

/// What the environment says is refused just if it is not text, not a number, or
/// no target; with the option on the command line it is not asked.
pub proof fn bad_environments_are_refused(
    arguments: AppArguments,
    environment: EnvironmentTarget<'_>,
)
    ensures
        encoded_target(arguments, environment) == Err::<(nat, TargetOrigin), _>(
            BitrateError::InvalidEncoding,
        ) <==> arguments.hoist_bitrate_target_mbps is None && environment is NotText,
        encoded_target(arguments, environment) == Err::<(nat, TargetOrigin), _>(
            BitrateError::InvalidNumber,
        ) <==> arguments.hoist_bitrate_target_mbps is None && (environment matches
            EnvironmentTarget::Text(text) && unsigned_number(text@, u64::MAX as nat) is None),
{
}

} // verus!
