//! The addressable byte memory: 4096 bytes, the first 80 of which hold the
//! sprite font (16 glyphs of 5 rows each), with the program region starting
//! at offset 0x200.

use vstd::prelude::*;
use vstd::string::StringExecFns;

verus! {

/// Size of the memory in bytes.
pub const RAM_SIZE: usize = 4096;

/// Size of the reserved font region at the bottom of memory.
pub const RESERVED_SIZE: usize = 80;

/// Offset at which a loaded program is placed.
pub const PROGRAM_START_OFFSET: usize = 0x200;

/// Errors raised by memory accesses.
#[derive(Clone, Copy, Debug, PartialEq, Eq, Structural)]
pub enum RamError {
    /// The program image does not fit between the program offset and the end
    /// of memory.
    NotEnoughSpace,
    /// An access would touch an address at or past the end of memory.
    OutOfBound,
}

impl RamError {
    /// The diagnostic line shown for this error.
    pub fn message(&self) -> (r: String)
        ensures
            r@ == match *self {
                RamError::NotEnoughSpace => "Not enough space to load program!"@,
                RamError::OutOfBound => "Out of bound memory!"@,
            },
    {
        match *self {
            RamError::NotEnoughSpace => String::from_str("Not enough space to load program!"),
            RamError::OutOfBound => String::from_str("Out of bound memory!"),
        }
    }
}

/// The 16-glyph sprite font: 5 bytes per glyph, one 8-bit row each, for the
/// hexadecimal digits 0 through F.
pub open spec fn font_seq() -> Seq<u8> {
    seq![
        0xF0u8, 0x90, 0x90, 0x90, 0xF0, // 0
        0x20, 0x60, 0x20, 0x20, 0x70, // 1
        0xF0, 0x10, 0xF0, 0x80, 0xF0, // 2
        0xF0, 0x10, 0xF0, 0x10, 0xF0, // 3
        0x90, 0x90, 0xF0, 0x10, 0x10, // 4
        0xF0, 0x80, 0xF0, 0x10, 0xF0, // 5
        0xF0, 0x80, 0xF0, 0x90, 0xF0, // 6
        0xF0, 0x10, 0x20, 0x40, 0x40, // 7
        0xF0, 0x90, 0xF0, 0x90, 0xF0, // 8
        0xF0, 0x90, 0xF0, 0x10, 0xF0, // 9
        0xF0, 0x90, 0xF0, 0x90, 0x90, // A
        0xE0, 0x90, 0xE0, 0x90, 0xE0, // B
        0xF0, 0x80, 0x80, 0x80, 0xF0, // C
        0xE0, 0x90, 0x90, 0x90, 0xE0, // D
        0xF0, 0x80, 0xF0, 0x80, 0xF0, // E
        0xF0, 0x80, 0xF0, 0x80, 0x80, // F
    ]
}

/// The 16-bit word stored as two bytes, high byte first.
pub open spec fn word_of(hi: u8, lo: u8) -> u16 {
    ((hi as u16) << 8) | (lo as u16)
}

/// The high byte of a 16-bit word.
pub open spec fn hi_byte(w: u16) -> u8 {
    (w >> 8) as u8
}

/// The low byte of a 16-bit word.
pub open spec fn lo_byte(w: u16) -> u8 {
    w as u8
}

/// Splitting a word into its big-endian bytes and reassembling them yields
/// the word back: the round trip through `write_word` and `read_word`.
pub proof fn lemma_word_round_trip(w: u16)
    ensures
        word_of(hi_byte(w), lo_byte(w)) == w,
{
    assert(((((w >> 8) as u8) as u16) << 8) | ((w as u8) as u16) == w) by (bit_vector);
}

/// Writing a word at an in-bound address and reading a word back there
/// yields the word written: the two stored bytes sit in big-endian order,
/// high byte first, and reassemble to the original value.
pub proof fn lemma_write_read_word(m: Seq<u8>, a: int, w: u16)
    requires
        m.len() == RAM_SIZE,
        0 <= a < RAM_SIZE - 1,
    ensures
        ({
            let m2 = m.update(a, hi_byte(w)).update(a + 1, lo_byte(w));
            &&& m2[a] == hi_byte(w)
            &&& m2[a + 1] == lo_byte(w)
            &&& word_of(m2[a], m2[a + 1]) == w
        }),
{
    lemma_word_round_trip(w);
}

/// The memory store.
pub struct Ram {
    data: Vec<u8>,
}

impl View for Ram {
    type V = Seq<u8>;

    closed spec fn view(&self) -> Seq<u8> {
        self.data@
    }
}

impl Ram {
    /// The memory always spans exactly `RAM_SIZE` bytes.
    pub open spec fn wf(&self) -> bool {
        self@.len() == RAM_SIZE
    }

    /// Fresh memory: the font in the reserved region, zeroes everywhere else.
    pub fn new() -> (r: Ram)
        ensures
            r.wf(),
            forall|i: int| 0 <= i < RESERVED_SIZE ==> r@[i] == font_seq()[i],
            forall|i: int| RESERVED_SIZE <= i < RAM_SIZE ==> r@[i] == 0,
    {
        let mut data: Vec<u8> = Vec::new();
        data.push(0xF0); data.push(0x90); data.push(0x90); data.push(0x90); data.push(0xF0);
        data.push(0x20); data.push(0x60); data.push(0x20); data.push(0x20); data.push(0x70);
        data.push(0xF0); data.push(0x10); data.push(0xF0); data.push(0x80); data.push(0xF0);
        data.push(0xF0); data.push(0x10); data.push(0xF0); data.push(0x10); data.push(0xF0);
        data.push(0x90); data.push(0x90); data.push(0xF0); data.push(0x10); data.push(0x10);
        data.push(0xF0); data.push(0x80); data.push(0xF0); data.push(0x10); data.push(0xF0);
        data.push(0xF0); data.push(0x80); data.push(0xF0); data.push(0x90); data.push(0xF0);
        data.push(0xF0); data.push(0x10); data.push(0x20); data.push(0x40); data.push(0x40);
        data.push(0xF0); data.push(0x90); data.push(0xF0); data.push(0x90); data.push(0xF0);
        data.push(0xF0); data.push(0x90); data.push(0xF0); data.push(0x10); data.push(0xF0);
        data.push(0xF0); data.push(0x90); data.push(0xF0); data.push(0x90); data.push(0x90);
        data.push(0xE0); data.push(0x90); data.push(0xE0); data.push(0x90); data.push(0xE0);
        data.push(0xF0); data.push(0x80); data.push(0x80); data.push(0x80); data.push(0xF0);
        data.push(0xE0); data.push(0x90); data.push(0x90); data.push(0x90); data.push(0xE0);
        data.push(0xF0); data.push(0x80); data.push(0xF0); data.push(0x80); data.push(0xF0);
        data.push(0xF0); data.push(0x80); data.push(0xF0); data.push(0x80); data.push(0x80);
        proof {
            assert(data@ =~= font_seq());
        }
        while data.len() < RAM_SIZE
            invariant
                RESERVED_SIZE <= data@.len() <= RAM_SIZE,
                forall|i: int| 0 <= i < RESERVED_SIZE ==> data@[i] == font_seq()[i],
                forall|i: int| RESERVED_SIZE <= i < data@.len() ==> data@[i] == 0,
            decreases RAM_SIZE - data@.len(),
        {
            data.push(0);
        }
        Ram { data }
    }

    /// Copies a program image into memory starting at the program offset;
    /// refuses an image that would run past the end of memory. The font
    /// region and every byte past the image are left untouched.
    pub fn load(&mut self, data: &[u8]) -> (r: Result<(), RamError>)
        requires
            old(self).wf(),
        ensures
            final(self).wf(),
            data@.len() <= RAM_SIZE - PROGRAM_START_OFFSET ==> {
                &&& r == Ok::<(), RamError>(())
                &&& final(self)@.len() == RAM_SIZE
                &&& forall|i: int|
                    0 <= i < data@.len()
                        ==> final(self)@[PROGRAM_START_OFFSET + i] == data@[i]
                &&& forall|i: int|
                    0 <= i < RAM_SIZE && !(PROGRAM_START_OFFSET <= i
                        < PROGRAM_START_OFFSET + data@.len()) ==> final(self)@[i] == old(
                        self,
                    )@[i]
            },
            data@.len() > RAM_SIZE - PROGRAM_START_OFFSET ==> {
                &&& r == Err::<(), RamError>(RamError::NotEnoughSpace)
                &&& final(self)@ == old(self)@
            },
    {
        if data.len() <= RAM_SIZE - PROGRAM_START_OFFSET {
            let mut i: usize = 0;
            while i < data.len()
                invariant
                    self@.len() == RAM_SIZE,
                    i <= data@.len(),
                    data@.len() <= RAM_SIZE - PROGRAM_START_OFFSET,
                    forall|j: int|
                        0 <= j < i ==> self@[PROGRAM_START_OFFSET + j] == data@[j],
                    forall|j: int|
                        0 <= j < RAM_SIZE && !(PROGRAM_START_OFFSET <= j
                            < PROGRAM_START_OFFSET + i) ==> self@[j] == old(self)@[j],
                decreases data@.len() - i,
            {
                self.data[PROGRAM_START_OFFSET + i] = data[i];
                i = i + 1;
            }
            Ok(())
        } else {
            Err(RamError::NotEnoughSpace)
        }
    }

    /// Reads the byte at `address`; fails with `OutOfBound` past the end.
    pub fn read_byte(&self, address: usize) -> (r: Result<u8, RamError>)
        requires
            self.wf(),
        ensures
            address < RAM_SIZE ==> r == Ok::<u8, RamError>(self@[address as int]),
            address >= RAM_SIZE ==> r == Err::<u8, RamError>(RamError::OutOfBound),
    {
        if address < RAM_SIZE {
            Ok(self.data[address])
        } else {
            Err(RamError::OutOfBound)
        }
    }

    /// Writes `value` at `address`; fails with `OutOfBound` past the end, and
    /// then leaves the memory unchanged.
    pub fn write_byte(&mut self, address: usize, value: u8) -> (r: Result<(), RamError>)
        requires
            old(self).wf(),
        ensures
            final(self).wf(),
            address < RAM_SIZE ==> {
                &&& r == Ok::<(), RamError>(())
                &&& final(self)@ == old(self)@.update(address as int, value)
            },
            address >= RAM_SIZE ==> {
                &&& r == Err::<(), RamError>(RamError::OutOfBound)
                &&& final(self)@ == old(self)@
            },
    {
        if address < RAM_SIZE {
            self.data[address] = value;
            Ok(())
        } else {
            Err(RamError::OutOfBound)
        }
    }

    /// Reads `count` consecutive bytes starting at `start`, all in bound.
    pub(crate) fn read_range(&self, start: usize, count: usize) -> (r: Vec<u8>)
        requires
            self.wf(),
            start + count <= RAM_SIZE,
        ensures
            r@ == self@.subrange(start as int, start + count),
    {
        let mut r: Vec<u8> = Vec::new();
        let mut j: usize = 0;
        while j < count
            invariant
                self.wf(),
                j <= count,
                start + count <= RAM_SIZE,
                r@ == self@.subrange(start as int, start + j),
            decreases count - j,
        {
            r.push(self.data[start + j]);
            proof {
                assert(r@ =~= self@.subrange(start as int, start + j + 1));
            }
            j = j + 1;
        }
        r
    }

    /// Copies the first `count` bytes of `src` into memory starting at
    /// `start`, all in bound; every other byte keeps its value.
    pub(crate) fn copy_from(&mut self, start: usize, src: &Vec<u8>, count: usize)
        requires
            old(self).wf(),
            count <= src@.len(),
            start + count <= RAM_SIZE,
        ensures
            final(self).wf(),
            forall|k: int| 0 <= k < count ==> final(self)@[start + k] == src@[k],
            forall|k: int|
                0 <= k < RAM_SIZE && !(start <= k < start + count) ==> final(self)@[k] == old(
                    self,
                )@[k],
    {
        let mut j: usize = 0;
        while j < count
            invariant
                self@.len() == RAM_SIZE,
                j <= count,
                count <= src@.len(),
                start + count <= RAM_SIZE,
                forall|k: int| 0 <= k < j ==> self@[start + k] == src@[k],
                forall|k: int|
                    0 <= k < RAM_SIZE && !(start <= k < start + j) ==> self@[k] == old(self)@[k],
            decreases count - j,
        {
            self.data[start + j] = src[j];
            j = j + 1;
        }
    }

    /// Reads the big-endian 16-bit word whose high byte sits at `address`;
    /// both bytes must be in bound.
    pub fn read_word(&self, address: usize) -> (r: Result<u16, RamError>)
        requires
            self.wf(),
        ensures
            address < RAM_SIZE - 1 ==> r == Ok::<u16, RamError>(
                word_of(self@[address as int], self@[address + 1]),
            ),
            address >= RAM_SIZE - 1 ==> r == Err::<u16, RamError>(RamError::OutOfBound),
    {
        if address < RAM_SIZE - 1 {
            Ok((self.data[address] as u16) << 8 | self.data[address + 1] as u16)
        } else {
            Err(RamError::OutOfBound)
        }
    }

    /// Writes `value` as two bytes, high byte at `address`, low byte after
    /// it; both bytes must be in bound.
    pub fn write_word(&mut self, address: usize, value: u16) -> (r: Result<(), RamError>)
        requires
            old(self).wf(),
        ensures
            final(self).wf(),
            address < RAM_SIZE - 1 ==> {
                &&& r == Ok::<(), RamError>(())
                &&& final(self)@ == old(self)@.update(address as int, hi_byte(value)).update(
                    address + 1,
                    lo_byte(value),
                )
            },
            address >= RAM_SIZE - 1 ==> {
                &&& r == Err::<(), RamError>(RamError::OutOfBound)
                &&& final(self)@ == old(self)@
            },
    {
        if address < RAM_SIZE - 1 {
            self.data[address] = (value >> 8) as u8;
            self.data[address + 1] = value as u8;
            Ok(())
        } else {
            Err(RamError::OutOfBound)
        }
    }
}

} // verus!
