use vstd::prelude::*;

verus! {

/// Number of words in the address space.
pub const MEMORY_SIZE: usize = 65536;

/// Address of the keyboard status register.
pub const KBSR_ADDR: u16 = 0xFE00;

/// Address of the keyboard data register.
pub const KBDR_ADDR: u16 = 0xFE02;

/// Keyboard status word after a key has been latched.
pub const KEY_READY: u16 = 0x8000;

/// The memory-mapped device registers.
#[derive(Debug, Clone, Copy, PartialEq, Eq, Structural)]
pub enum MemoryMappedRegisters {
    /// Keyboard status.
    KBSR,
    /// Keyboard data.
    KBDR,
}

impl MemoryMappedRegisters {
    pub open spec fn spec_address(self) -> u16 {
        match self {
            MemoryMappedRegisters::KBSR => KBSR_ADDR,
            MemoryMappedRegisters::KBDR => KBDR_ADDR,
        }
    }

    /// The address at which the device register is mapped.
    pub fn address(&self) -> (r: u16)
        ensures
            r == self.spec_address(),
    {
        match self {
            MemoryMappedRegisters::KBSR => KBSR_ADDR,
            MemoryMappedRegisters::KBDR => KBDR_ADDR,
        }
    }
}

/// The address space, and the keyboard bytes that have arrived and not yet
/// been taken by a poll or a trap (oldest first).
pub struct Memory {
    pub cells: Vec<u16>,
    pub keys: Vec<u8>,
}

impl View for Memory {
    type V = (Seq<u16>, Seq<u8>);

    open spec fn view(&self) -> (Seq<u16>, Seq<u8>) {
        (self.cells@, self.keys@)
    }
}

/// The memory and pending keys after a read of `addr`. A read of the
/// keyboard status register polls the keyboard: it takes the oldest pending
/// byte, if any; a nonzero byte is latched into the data register and marks
/// the status register ready, while a zero byte or no byte clears the status
/// register. A read of any other address changes nothing.
pub open spec fn after_read(addr: u16, m: (Seq<u16>, Seq<u8>)) -> (Seq<u16>, Seq<u8>) {
    if addr == KBSR_ADDR {
        if m.1.len() > 0 && m.1[0] != 0 {
            (
                m.0.update(KBSR_ADDR as int, KEY_READY).update(KBDR_ADDR as int, m.1[0] as u16),
                m.1.drop_first(),
            )
        } else if m.1.len() > 0 {
            (m.0.update(KBSR_ADDR as int, 0), m.1.drop_first())
        } else {
            (m.0.update(KBSR_ADDR as int, 0), m.1)
        }
    } else {
        m
    }
}

/// The word that a read of `addr` returns.
pub open spec fn read_value(addr: u16, m: (Seq<u16>, Seq<u8>)) -> u16 {
    after_read(addr, m).0[addr as int]
}

impl Memory {
    /// The address space has exactly `MEMORY_SIZE` words.
    pub open spec fn wf(&self) -> bool {
        self.cells@.len() == MEMORY_SIZE
    }

    /// Zero-filled memory with no pending keys.
    pub fn new() -> (r: Memory)
        ensures
            r.wf(),
            r.cells@ == Seq::new(MEMORY_SIZE as nat, |i: int| 0u16),
            r.keys@.len() == 0,
    {
        let mut cells: Vec<u16> = Vec::new();
        let mut i: usize = 0;
        while i < MEMORY_SIZE
            invariant
                i <= MEMORY_SIZE,
                cells@ == Seq::new(i as nat, |j: int| 0u16),
            decreases MEMORY_SIZE - i,
        {
            cells.push(0);
            i = i + 1;
        }
        Memory { cells, keys: Vec::new() }
    }

    /// Queues a byte that arrived from the keyboard.
    pub fn push_key(&mut self, key: u8)
        ensures
            final(self).cells@ == old(self).cells@,
            final(self).keys@ == old(self).keys@.push(key),
    {
        self.keys.push(key);
    }
}

/// Reads the word at `address`, with the keyboard poll that a read of the
/// status register performs.
pub fn mem_read(address: u16, memory: &mut Memory) -> (r: u16)
    requires
        old(memory).wf(),
    ensures
        final(memory).wf(),
        final(memory)@ == after_read(address, old(memory)@),
        r == read_value(address, old(memory)@),
{
    if address == KBSR_ADDR {
        if memory.keys.len() > 0 {
            let key = memory.keys.remove(0);
            if key != 0 {
                memory.cells.set(KBSR_ADDR as usize, KEY_READY);
                memory.cells.set(KBDR_ADDR as usize, key as u16);
            } else {
                memory.cells.set(KBSR_ADDR as usize, 0);
            }
        } else {
            memory.cells.set(KBSR_ADDR as usize, 0);
        }
    }
    memory.cells[address as usize]
}

/// Stores `value` at `address`; no address has a side effect on write.
pub fn mem_write(address: u16, value: u16, memory: &mut Memory)
    requires
        old(memory).wf(),
    ensures
        final(memory).wf(),
        final(memory).cells@ == old(memory).cells@.update(address as int, value),
        final(memory).keys@ == old(memory).keys@,
{
    memory.cells.set(address as usize, value);
}

/// Why an image could not be loaded.
#[derive(Debug, Clone, Copy, PartialEq, Eq, Structural)]
pub enum LoadError {
    /// The image is shorter than its two-byte origin word.
    MissingOrigin,
    /// The image's words would run past the top of the address space.
    TooLarge { origin: u16, words: usize },
}

/// The word that two bytes form, most significant first.
pub open spec fn be_word(hi: u8, lo: u8) -> u16 {
    (hi as int * 256 + lo as int) as u16
}

/// The origin word of an image of at least two bytes.
pub open spec fn image_origin(data: Seq<u8>) -> u16 {
    be_word(data[0], data[1])
}

/// The number of whole words that follow the origin word.
pub open spec fn image_len(data: Seq<u8>) -> int {
    (data.len() - 2) / 2
}

/// The `i`-th word after the origin word.
pub open spec fn image_word(data: Seq<u8>, i: int) -> u16 {
    be_word(data[2 + 2 * i], data[3 + 2 * i])
}

/// The cells after the image's words are placed from its origin on.
pub open spec fn loaded(cells: Seq<u16>, data: Seq<u8>) -> Seq<u16> {
    Seq::new(
        cells.len(),
        |a: int|
            if image_origin(data) <= a < image_origin(data) + image_len(data) {
                image_word(data, a - image_origin(data))
            } else {
                cells[a]
            },
    )
}

/// Decodes a big-endian word.
fn word_from_be(hi: u8, lo: u8) -> (r: u16)
    ensures
        r == be_word(hi, lo),
{
    hi as u16 * 256 + lo as u16
}

/// Loads an image: a big-endian origin word, then big-endian words that are
/// placed from the origin on. A trailing odd byte is ignored. An image whose
/// words would reach past address 0xFFFF is refused and memory is left as it was.
pub fn load_image(data: &Vec<u8>, memory: &mut Memory) -> (r: Result<(), LoadError>)
    requires
        old(memory).wf(),
    ensures
        final(memory).wf(),
        final(memory).keys@ == old(memory).keys@,
        data@.len() < 2 ==> r == Err::<(), LoadError>(LoadError::MissingOrigin),
        data@.len() >= 2 && image_origin(data@) + image_len(data@) > 0xFFFF ==> r == Err::<
            (),
            LoadError,
        >(LoadError::TooLarge { origin: image_origin(data@), words: image_len(data@) as usize }),
        r is Err ==> final(memory)@ == old(memory)@,
        data@.len() >= 2 && image_origin(data@) + image_len(data@) <= 0xFFFF ==> r is Ok
            && final(memory).cells@ == loaded(old(memory).cells@, data@),
{
    if data.len() < 2 {
        return Err(LoadError::MissingOrigin);
    }
    let origin = word_from_be(data[0], data[1]);
    let words: usize = (data.len() - 2) / 2;
    if origin as usize + words > 0xFFFF {
        return Err(LoadError::TooLarge { origin, words });
    }
    let ghost before = memory.cells@;
    let mut i: usize = 0;
    while i < words
        invariant
            data@.len() >= 2,
            origin == image_origin(data@),
            words == image_len(data@),
            origin + words <= 0xFFFF,
            i <= words,
            before.len() == MEMORY_SIZE,
            memory.wf(),
            memory.keys@ == old(memory).keys@,
            before == old(memory).cells@,
            memory.cells@ == Seq::new(
                MEMORY_SIZE as nat,
                |a: int|
                    if origin <= a < origin + i {
                        image_word(data@, a - origin)
                    } else {
                        before[a]
                    },
            ),
        decreases words - i,
    {
        let w = word_from_be(data[2 + 2 * i], data[3 + 2 * i]);
        memory.cells.set(origin as usize + i, w);
        i = i + 1;
        assert(memory.cells@ =~= Seq::new(
            MEMORY_SIZE as nat,
            |a: int|
                if origin <= a < origin + i {
                    image_word(data@, a - origin)
                } else {
                    before[a]
                },
        ));
    }
    assert(memory.cells@ =~= loaded(before, data@));
    Ok(())
}

} // verus!
