//! The 4 KiB byte-addressed memory of the machine.
use vstd::prelude::*;

verus! {

/// Number of bytes of memory.
pub const MEMORY_SIZE: usize = 4096;

/// Memory: a fixed block of `MEMORY_SIZE` bytes.
pub struct Memory {
    slots: Vec<u8>,
}

impl View for Memory {
    type V = Seq<u8>;

    closed spec fn view(&self) -> Seq<u8> {
        self.slots@
    }
}

/// The lower-case hexadecimal digit of a value below 16.
pub open spec fn hex_digit(d: int) -> char {
    seq!['0', '1', '2', '3', '4', '5', '6', '7', '8', '9', 'a', 'b', 'c', 'd', 'e', 'f'][d]
}

/// The two lower-case hexadecimal digits of a byte, high nibble first.
pub open spec fn hex_pair(b: u8) -> Seq<char> {
    seq![hex_digit(b as int / 16), hex_digit(b as int % 16)]
}

/// The text of a dump of the first `n` bytes: each byte as two hexadecimal
/// digits and a space, with a line break after every sixteenth byte.
pub open spec fn dump_text(bytes: Seq<u8>, n: int) -> Seq<char>
    decreases n,
{
    if n <= 0 {
        Seq::empty()
    } else {
        let line_end: Seq<char> = if n % 16 == 0 { seq!['\n'] } else { Seq::empty() };
        dump_text(bytes, n - 1) + hex_pair(bytes[n - 1]) + seq![' '] + line_end
    }
}

/// The dump of the first `n` bytes shows byte `k` at position `3k + k / 16`
/// as its high hexadecimal digit, its low digit and a space, with a line break
/// right after every sixteenth byte; it has no other characters.
pub proof fn law_dump_text(bytes: Seq<u8>, n: int)
    requires
        0 <= n <= bytes.len(),
    ensures
        dump_text(bytes, n).len() == 3 * n + n / 16,
        forall|k: int| #![trigger bytes[k]] 0 <= k < n ==> {
            let at = 3 * k + k / 16;
            &&& dump_text(bytes, n)[at] == hex_digit(bytes[k] as int / 16)
            &&& dump_text(bytes, n)[at + 1] == hex_digit(bytes[k] as int % 16)
            &&& dump_text(bytes, n)[at + 2] == ' '
            &&& (k + 1) % 16 == 0 ==> dump_text(bytes, n)[at + 3] == '\n'
        },
    decreases n,
{
    if n > 0 {
        law_dump_text(bytes, n - 1);
        let prev = dump_text(bytes, n - 1);
        let d = dump_text(bytes, n);
        assert((n - 1) / 16 + (if n % 16 == 0 { 1int } else { 0 }) == n / 16);
        assert forall|k: int| #![trigger bytes[k]] 0 <= k < n implies {
            let at = 3 * k + k / 16;
            &&& d[at] == hex_digit(bytes[k] as int / 16)
            &&& d[at + 1] == hex_digit(bytes[k] as int % 16)
            &&& d[at + 2] == ' '
            &&& (k + 1) % 16 == 0 ==> d[at + 3] == '\n'
        } by {
            let at = 3 * k + k / 16;
            if k < n - 1 {
                assert(k / 16 <= (n - 2) / 16);
                assert(at + 2 < prev.len());
                assert(d[at] == prev[at]);
                assert(d[at + 1] == prev[at + 1]);
                assert(d[at + 2] == prev[at + 2]);
                if (k + 1) % 16 == 0 {
                    assert(k / 16 + 1 == (k + 1) / 16);
                    assert(at + 3 < prev.len());
                    assert(d[at + 3] == prev[at + 3]);
                }
            } else {
                assert(at == prev.len());
            }
        }
    }
}

/// `hex::encode` on a single byte: the crate maps each byte to its high and
/// then its low nibble through the table `0123456789abcdef`.
#[verifier::external_body]
fn encode_byte(b: u8) -> (s: String)
    ensures
        s@ == hex_pair(b),
{
    hex::encode([b])
}

impl Memory {
    /// Memory holds exactly `MEMORY_SIZE` bytes.
    pub open spec fn wf(&self) -> bool {
        self@.len() == MEMORY_SIZE
    }

    /// Zeroed memory.
    pub fn new() -> (m: Memory)
        ensures
            m.wf(),
            forall|i: int| 0 <= i < MEMORY_SIZE ==> #[trigger] m@[i] == 0,
    {
        let mut slots: Vec<u8> = Vec::new();
        let mut i: usize = 0;
        while i < MEMORY_SIZE
            invariant
                i <= MEMORY_SIZE,
                slots@.len() == i,
                forall|j: int| 0 <= j < i ==> #[trigger] slots@[j] == 0,
            decreases MEMORY_SIZE - i,
        {
            slots.push(0);
            i = i + 1;
        }
        Memory { slots }
    }

    /// The byte at `address`.
    pub fn get(&self, address: usize) -> (r: u8)
        requires
            self.wf(),
            address < MEMORY_SIZE,
        ensures
            r == self@[address as int],
    {
        self.slots[address]
    }

    /// The `length` bytes from `address` on.
    pub fn get_block(&self, address: usize, length: usize) -> (r: Vec<u8>)
        requires
            self.wf(),
            address + length <= MEMORY_SIZE,
        ensures
            r@ == self@.subrange(address as int, address + length),
    {
        let mut r: Vec<u8> = Vec::new();
        let mut i: usize = 0;
        while i < length
            invariant
                self.wf(),
                address + length <= MEMORY_SIZE,
                i <= length,
                r@ == self@.subrange(address as int, address + i),
            decreases length - i,
        {
            r.push(self.slots[address + i]);
            i = i + 1;
        }
        r
    }

    /// Writes `value` at `address`; a read there then gives `value` back, and
    /// every other byte is as it was.
    pub fn set(&mut self, address: usize, value: u8)
        requires
            old(self).wf(),
            address < MEMORY_SIZE,
        ensures
            final(self).wf(),
            final(self)@ == old(self)@.update(address as int, value),
            final(self)@[address as int] == value,
            forall|i: int|
                0 <= i < MEMORY_SIZE && i != address ==> #[trigger] final(self)@[i] == old(self)@[i],
    {
        self.slots.set(address, value);
    }

    /// The text that a dump of the memory shows: every byte in hexadecimal,
    /// sixteen to a line.
    pub fn dump_memory(&self) -> (s: String)
        requires
            self.wf(),
        ensures
            s@ == dump_text(self@, MEMORY_SIZE as int),
    {
        let mut s = String::new();
        let mut i: usize = 0;
        while i < self.slots.len()
            invariant
                self.wf(),
                i <= MEMORY_SIZE,
                s@ == dump_text(self@, i as int),
            decreases MEMORY_SIZE - i,
        {
            let pair = encode_byte(self.slots[i]);
            s.append(pair.as_str());
            s.append(" ");
            proof {
                reveal_strlit(" ");
            }
            if (i + 1) % 16 == 0 {
                s.append("\n");
                proof {
                    reveal_strlit("\n");
                }
            }
            i = i + 1;
        }
        s
    }
}

} // verus!
