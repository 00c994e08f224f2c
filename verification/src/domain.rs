//! Shared, platform-neutral domain types for Battery Dashboard.
//!
//! Platform adapters translate their readings into these types; nothing here
//! touches the operating system, storage or scheduling.

use vstd::prelude::*;
use crate::text::trim;
use crate::text::chars_of;
use crate::text::trim_bounds;
use crate::text::string_from_range;

verus! {

/// The current charging state reported by a battery provider.
#[derive(Clone, Copy, Debug, PartialEq, Eq, Structural)]
pub enum BatteryState {
    /// The battery is receiving energy.
    Charging,
    /// The battery is supplying energy.
    Discharging,
    /// The battery reports that it is fully charged.
    Full,
    /// The battery is neither charging nor discharging.
    Idle,
    /// The provider cannot determine the state.
    Unknown,
}

impl BatteryState {
    /// Returns whether this state describes energy transfer.
    pub fn is_active(self) -> (r: bool)
        ensures
            r == (self == BatteryState::Charging || self == BatteryState::Discharging),
    {
        match self {
            BatteryState::Charging | BatteryState::Discharging => true,
            _ => false,
        }
    }
}

impl Default for BatteryState {
    fn default() -> (r: Self)
        ensures
            r == BatteryState::Unknown,
    {
        BatteryState::Unknown
    }
}

/// An identifier for one physical battery as supplied by a platform adapter.
///
/// The string is opaque: adapters may use names such as `BAT0`, but
/// consumers must not derive platform-specific meaning from it. It is never
/// empty and never starts or ends with white space.
#[derive(Clone, Debug, PartialEq, Eq, Hash, PartialOrd, Ord)]
pub struct BatteryId {
    value: String,
}

/// The error returned when a [`BatteryId`] is empty.
#[derive(Clone, Copy, Debug, PartialEq, Eq, Structural)]
pub struct InvalidBatteryId;

impl View for BatteryId {
    type V = Seq<char>;

    closed spec fn view(&self) -> Seq<char> {
        self.value@
    }
}

impl BatteryId {
    /// Creates an identifier when `value` is non-empty after trimming.
    ///
    /// The value is kept as given, except that leading and trailing
    /// white space is removed.
    pub fn new(value: &str) -> (r: Result<BatteryId, InvalidBatteryId>)
        ensures
            trim(value@).len() == 0 ==> r is Err,
            trim(value@).len() != 0 ==> (r matches Ok(id) && id@ == trim(value@)),
    {
        let cs = chars_of(value);
        let (a, b) = trim_bounds(cs.as_slice(), 0, cs.len());
        assert(cs@.subrange(0, cs@.len() as int) =~= cs@);
        if a == b {
            return Err(InvalidBatteryId);
        }
        Ok(BatteryId { value: string_from_range(cs.as_slice(), a, b) })
    }

    /// Returns the adapter-provided identifier.
    pub fn as_str(&self) -> (r: &str)
        ensures
            r@ == self@,
    {
        self.value.as_str()
    }
}

/// Trimming is idempotent, so an identifier rebuilt from its own text is
/// the same identifier.
pub proof fn lemma_battery_id_is_stable(value: Seq<char>)
    ensures
        trim(trim(value)) == trim(value),
{
    crate::text::lemma_trim_idempotent(value);
}

/// Returns the crate version embedded at build time.
pub fn version() -> (r: &'static str)
    ensures
        r@ == "0.1.0"@,
{
    "0.1.0"
}

} // verus!
