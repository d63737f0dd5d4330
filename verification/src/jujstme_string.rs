use vstd::prelude::*;
use crate::utf16::{decode_utf16, utf16_decode};
use crate::text::chars_to_string;

verus! {

/// An address in the 64-bit address space of the game's process.
#[derive(Clone, Copy, Debug, PartialEq, Eq, Structural)]
pub struct Address64(pub u64);

impl Address64 {
    /// The address `value`.
    pub fn new(value: u64) -> (a: Self)
        ensures
            a.0 == value,
    {
        Address64(value)
    }

    /// The address as a number.
    pub fn value(&self) -> (v: u64)
        ensures
            v == self.0,
    {
        self.0
    }

    /// The address `offset` bytes further on.
    pub fn add(self, offset: u64) -> (a: Self)
        requires
            self.0 + offset <= u64::MAX,
        ensures
            a.0 == self.0 + offset,
    {
        Address64(self.0 + offset)
    }
}

/// A failed read of the game's memory, or contents that are not what was
/// expected there.
#[derive(Clone, Copy, Debug, PartialEq, Eq, Structural)]
pub struct Error {}

/// The part of `units` before its first NUL unit (all of it if there is none).
pub open spec fn before_nul(units: Seq<u16>) -> Seq<u16>
    decreases units.len(),
{
    if units.len() == 0 || units[0] == 0 {
        Seq::empty()
    } else {
        seq![units[0]] + before_nul(units.subrange(1, units.len() as int))
    }
}

/// The part before the first NUL is a prefix of the units, holds no NUL, and
/// ends where the units end or at a NUL: so units without a NUL are kept
/// whole, and units followed by a NUL are exactly what comes back.
pub proof fn lemma_before_nul(units: Seq<u16>, rest: Seq<u16>)
    ensures
        before_nul(units).len() <= units.len(),
        before_nul(units) == units.subrange(0, before_nul(units).len() as int),
        !before_nul(units).contains(0),
        before_nul(units).len() < units.len() ==> units[before_nul(units).len() as int] == 0,
        !units.contains(0) ==> before_nul(units) == units,
        !units.contains(0) ==> before_nul(units + seq![0u16] + rest) == units,
    decreases units.len(),
{
    if units.len() == 0 {
        assert(units.subrange(0, 0) =~= units);
        assert(units + seq![0u16] + rest =~= seq![0u16] + rest);
    } else if units[0] == 0 {
        assert(units.contains(0)) by {
            assert(units[0] == 0);
        }
        assert(units.subrange(0, 0) =~= Seq::<u16>::empty());
    } else {
        let tail = units.subrange(1, units.len() as int);
        lemma_before_nul(tail, rest);
        let b = before_nul(units);
        let bt = before_nul(tail);
        assert(b == seq![units[0]] + bt);
        assert(b =~= units.subrange(0, b.len() as int)) by {
            assert(bt =~= tail.subrange(0, bt.len() as int));
        }
        assert(!b.contains(0)) by {
            if b.contains(0) {
                let k = choose|k: int| 0 <= k < b.len() && b[k] == 0;
                if k > 0 {
                    assert(bt[k - 1] == 0);
                }
            }
        }
        if bt.len() < tail.len() {
            assert(units[b.len() as int] == tail[bt.len() as int]);
        }
        if !units.contains(0) {
            assert(!tail.contains(0)) by {
                if tail.contains(0) {
                    let k = choose|k: int| 0 <= k < tail.len() && tail[k] == 0;
                    assert(units[k + 1] == 0);
                }
            }
            assert(b =~= units);
            let whole = units + seq![0u16] + rest;
            assert(whole.len() > 0 && whole[0] == units[0]);
            assert(whole.subrange(1, whole.len() as int) =~= tail + seq![0u16] + rest);
            assert(before_nul(whole) == seq![units[0]] + before_nul(tail + seq![0u16] + rest));
            assert(before_nul(whole) =~= units);
        }
    }
}

/// A UTF-16 string of at most `N` code units, as it lies in the game's
/// memory: it ends at its first NUL unit, or fills all `N` units.
pub struct ArrayWString<const N: usize> {
    units: [u16; N],
}

impl<const N: usize> ArrayWString<N> {
    /// The raw units of the string's storage, NUL terminator and what follows
    /// it included.
    pub closed spec fn storage(&self) -> Seq<u16> {
        self.units@
    }

    /// The units of the string itself.
    pub open spec fn text(&self) -> Seq<u16> {
        before_nul(self.storage())
    }

    /// The string stored in `units`.
    pub fn from_units(units: [u16; N]) -> (s: Self)
        ensures
            s.storage() == units@,
    {
        ArrayWString { units }
    }

    /// The string's code units, up to (not including) the first NUL unit.
    pub fn as_units(&self) -> (r: Vec<u16>)
        ensures
            r@ == self.text(),
    {
        let mut r: Vec<u16> = Vec::new();
        let mut i: usize = 0;
        let ghost all = self.units@;
        assert(all.subrange(0, N as int) =~= all);
        while i < N && self.units[i] != 0
            invariant
                all == self.units@,
                all.len() == N,
                i <= N,
                before_nul(all) == r@ + before_nul(all.subrange(i as int, N as int)),
            decreases N - i,
        {
            let ghost rest = all.subrange(i as int, N as int);
            let ghost before = r@;
            r.push(self.units[i]);
            i = i + 1;
            assert(rest.subrange(1, rest.len() as int) =~= all.subrange(i as int, N as int));
            assert(before + (seq![rest[0]] + before_nul(all.subrange(i as int, N as int)))
                =~= r@ + before_nul(all.subrange(i as int, N as int)));
        }
        assert(before_nul(all.subrange(i as int, N as int)) =~= Seq::<u16>::empty());
        assert(r@ + Seq::<u16>::empty() =~= r@);
        r
    }
}

/// A .NET string object in the game's memory: its length (a 32-bit count of
/// UTF-16 units) lies 0x10 bytes past the object's address, its UTF-16 units
/// 0x14 bytes past it.
#[derive(Clone, Copy, Debug)]
pub struct CSharpString {
    address: Address64,
}

/// The most UTF-16 units read for one string.
pub const MAX_STRING_UNITS: usize = 255;

impl CSharpString {
    /// The object's address.
    pub closed spec fn object_address(&self) -> u64 {
        self.address.0
    }

    /// The string object at `address`.
    pub fn from_address(address: Address64) -> (s: Self)
        ensures
            s.object_address() == address.0,
    {
        CSharpString { address }
    }

    /// The object's address.
    pub fn address(&self) -> (a: Address64)
        ensures
            a.0 == self.object_address(),
    {
        self.address
    }

    /// Where the string's length is stored.
    pub fn length_address(&self) -> (a: Address64)
        requires
            self.object_address() + 0x10 <= u64::MAX,
        ensures
            a.0 == self.object_address() + 0x10,
    {
        self.address.add(0x10)
    }

    /// Where the string's UTF-16 units start.
    pub fn content_address(&self) -> (a: Address64)
        requires
            self.object_address() + 0x14 <= u64::MAX,
        ensures
            a.0 == self.object_address() + 0x14,
    {
        self.address.add(0x14)
    }

    /// The string's content, from the `N` units read at
    /// [`CSharpString::content_address`]; a failed read stays a failure.
    pub fn read<const N: usize>(&self, contents: Result<[u16; N], Error>) -> (r: Result<
        ArrayWString<N>,
        Error,
    >)
        ensures
            match contents {
                Ok(units) => r matches Ok(s) && s.storage() == units@,
                Err(e) => r == Err::<ArrayWString<N>, Error>(e),
            },
    {
        match contents {
            Ok(units) => Ok(ArrayWString::from_units(units)),
            Err(e) => Err(e),
        }
    }

    /// The string's length, from the 32-bit value read at
    /// [`CSharpString::length_address`].
    pub fn get_length(&self, stored: Result<u32, Error>) -> (r: Result<usize, Error>)
        ensures
            match stored {
                Ok(x) => r == Ok::<usize, Error>(x as usize),
                Err(_) => r == Err::<usize, Error>(Error {}),
            },
    {
        match stored {
            Ok(x) => Ok(x as usize),
            _ => Err(Error {}),
        }
    }

    /// How many units to read for a string of `length` units: at most
    /// [`MAX_STRING_UNITS`].
    pub fn units_to_read(length: usize) -> (n: usize)
        ensures
            n == if length < MAX_STRING_UNITS { length } else { MAX_STRING_UNITS },
    {
        if length < MAX_STRING_UNITS {
            length
        } else {
            MAX_STRING_UNITS
        }
    }

    /// What to do after the string's length was read: stop with the read's
    /// error where it failed, else read [`CSharpString::units_to_read`] units.
    pub fn read_count(length: Result<usize, Error>) -> (r: Result<usize, Error>)
        ensures
            match length {
                Ok(n) => r == Ok::<usize, Error>(
                    if n < MAX_STRING_UNITS { n } else { MAX_STRING_UNITS },
                ),
                Err(e) => r == Err::<usize, Error>(e),
            },
    {
        match length {
            Ok(n) => Ok(Self::units_to_read(n)),
            Err(e) => Err(e),
        }
    }

    /// The string's text, from the units read at
    /// [`CSharpString::content_address`]: an error where the read failed or
    /// the units are not well-formed UTF-16.
    pub fn read_as_string(&self, units: Result<Vec<u16>, Error>) -> (r: Result<String, Error>)
        ensures
            match units {
                Ok(u) => match utf16_decode(u@) {
                    Some(chars) => r matches Ok(s) && s@ == chars,
                    None => r == Err::<String, Error>(Error {}),
                },
                Err(e) => r == Err::<String, Error>(e),
            },
    {
        match units {
            Ok(u) => match decode_utf16(u.as_slice()) {
                Some(chars) => Ok(chars_to_string(chars.as_slice())),
                None => Err(Error {}),
            },
            Err(e) => Err(e),
        }
    }
}

} // verus!
