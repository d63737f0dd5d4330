use vstd::prelude::*;

verus! {

/// Pointer paths, followed from the engine's world object, to the game's
/// values: each path is a base offset and the offsets of the hops after it.
pub struct Offsets {
    pub centiseconds: [u64; 6],
    pub last_shrine: [u64; 3],
    pub cutscene: [u64; 5],
    pub events_array: [u64; 3],
    pub events_size: [u64; 3],
}

/// The pointer paths of the game version this splitter supports.
pub fn get_offsets() -> (o: Offsets)
    ensures
        o.centiseconds@ == seq![0u64, 0x30, 0xE8, 0x258, 0x10B8, 0x260],
        o.last_shrine@ == seq![0u64, 0x188, 0x351],
        o.cutscene@ == seq![0u64, 0x30, 0xE8, 0x258, 0xe70],
        o.events_array@ == seq![0u64, 0x188, 0x308],
        o.events_size@ == seq![0u64, 0x188, 0x310],
{
    Offsets {
        centiseconds: [0, 0x30, 0xE8, 0x258, 0x10B8, 0x260],
        last_shrine: [0, 0x188, 0x351],
        cutscene: [0, 0x30, 0xE8, 0x258, 0xe70],
        events_array: [0, 0x188, 0x300 + 0x8],
        events_size: [0, 0x188, 0x300 + 0x8 + 0x8],
    }
}

} // verus!
