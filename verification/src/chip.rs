//! The devices that can be flashed, and the compilation targets they belong to.

use vstd::prelude::*;
use vstd::string::StringSliceAdditionalSpecFns;
use crate::config::scan::same_bytes;

verus! {

/// A device model known to the flashing tool.
#[derive(Clone, Copy, Debug, PartialEq, Eq)]
pub enum Chip {
    /// The nRF51822 in its xxAA variant.
    Nrf51822,
}

/// The bytes of a text that holds ASCII characters only.
pub open spec fn ascii_bytes(text: Seq<char>) -> Seq<u8> {
    Seq::new(text.len(), |i: int| text[i] as u8)
}

/// The table of recognised compilation targets. It is deliberately small:
/// a target that is not listed has no chip.
pub open spec fn chip_for(target: Seq<u8>) -> Option<Chip> {
    if target == ascii_bytes("thumbv6m-none-eabi"@) {
        Some(Chip::Nrf51822)
    } else {
        None
    }
}

impl Chip {
    /// The identifier under which the flashing tool knows the chip.
    pub open spec fn identifier(self) -> Seq<char> {
        match self {
            Chip::Nrf51822 => "nRF51822_xxAA"@,
        }
    }

    /// The identifier under which the flashing tool knows the chip.
    pub fn name(&self) -> (name: &'static str)
        ensures
            name@ == self.identifier(),
    {
        match self {
            Chip::Nrf51822 => "nRF51822_xxAA",
        }
    }
}

/// The bytes of a string that holds ASCII characters only.
pub(crate) fn ascii(text: &str) -> (bytes: &[u8])
    requires
        text.is_ascii(),
    ensures
        bytes@ == ascii_bytes(text@),
{
    proof {
        vstd::string::is_ascii_spec_bytes(text);
        assert(text.spec_bytes() =~= ascii_bytes(text@));
    }
    text.as_bytes()
}

/// Looks a compilation target up in the table of recognised targets.
pub fn chip_for_target(target: &[u8]) -> (chip: Option<Chip>)
    ensures
        chip == chip_for(target@),
{
    proof {
        reveal_strlit("thumbv6m-none-eabi");
    }
    if same_bytes(target, ascii("thumbv6m-none-eabi")) {
        Some(Chip::Nrf51822)
    } else {
        None
    }
}

} // verus!
