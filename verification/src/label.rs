//! Which thermal sensors belong to the CPU cores.
//!
//! Sensors are told apart by name alone: the sensors of the CPU cores carry
//! the prefix `coretemp`; disks, network adapters, batteries and every other
//! thermal zone do not.

use vstd::prelude::*;

verus! {

/// The prefix that the names of the CPU-core sensors share.
pub open spec fn core_prefix() -> Seq<char> {
    "coretemp"@
}

/// Whether a sensor of this name is a CPU-core sensor.
pub open spec fn is_core_label(label: Seq<char>) -> bool {
    core_prefix().is_prefix_of(label)
}

/// Whether `text` begins with `prefix`, character for character.
pub fn starts_with(text: &str, prefix: &str) -> (found: bool)
    ensures
        found == prefix@.is_prefix_of(text@),
{
    let wanted = prefix.unicode_len();
    if text.unicode_len() < wanted {
        return false;
    }
    let mut at: usize = 0;
    while at < wanted
        invariant
            wanted == prefix@.len(),
            wanted <= text@.len(),
            at <= wanted,
            forall|i: int| 0 <= i < at ==> text@[i] == prefix@[i],
        decreases wanted - at,
    {
        if text.get_char(at) != prefix.get_char(at) {
            assert(text@.subrange(0, wanted as int)[at as int] != prefix@[at as int]);
            return false;
        }
        at += 1;
    }
    assert(prefix@ =~= text@.subrange(0, wanted as int));
    true
}

/// Whether a sensor of this name is a CPU-core sensor.
pub fn is_core_sensor(label: &str) -> (core: bool)
    ensures
        core == is_core_label(label@),
{
    starts_with(label, "coretemp")
}

} // verus!
