//! The cartridge header found at fixed offsets of the fixed ROM bank.
use vstd::prelude::*;

verus! {

/// First byte of the title field.
pub const TITLE_START: usize = 0x134;

/// One past the last byte of the title field (16 bytes in all).
pub const TITLE_END: usize = 0x144;

/// Offset of the cartridge type code.
pub const CARTRIDGE_TYPE_AT: usize = 0x147;

/// Offset of the ROM size code.
pub const ROM_SIZE_AT: usize = 0x148;

/// Offset of the RAM size code.
pub const RAM_SIZE_AT: usize = 0x149;

/// The text that a permissive UTF-8 decoding makes of `bytes`.
pub uninterp spec fn lossy_text(bytes: Seq<u8>) -> Seq<char>;

/// Relies on `String::from_utf8_lossy`: the text is a function of the bytes
/// alone, and a malformed sequence is replaced rather than rejected.
#[verifier::external_body]
fn decode_lossy(bytes: &[u8]) -> (r: String)
    ensures
        r@ == lossy_text(bytes@),
{
    String::from_utf8_lossy(bytes).into_owned()
}

/// `b` without the zero bytes at its start and at its end.
pub open spec fn trim_zeros(b: Seq<u8>) -> Seq<u8>
    decreases b.len(),
{
    if b.len() == 0 {
        b
    } else if b[0] == 0 {
        trim_zeros(b.drop_first())
    } else if b.last() == 0 {
        trim_zeros(b.drop_last())
    } else {
        b
    }
}

/// Trimming keeps exactly the bytes from the first non-zero byte to the last.
proof fn lemma_trim_zeros(b: Seq<u8>, start: int, end: int)
    requires
        0 <= start <= end <= b.len(),
        forall|k: int| 0 <= k < start ==> b[k] == 0,
        forall|k: int| end <= k < b.len() ==> b[k] == 0,
        start < end ==> b[start] != 0 && b[end - 1] != 0,
    ensures
        trim_zeros(b) == b.subrange(start, end),
    decreases b.len(),
{
    if b.len() == 0 {
        assert(b.subrange(start, end) =~= b);
    } else if b[0] == 0 {
        let rest = b.drop_first();
        if start == 0 {
            assert(end == 0);
            lemma_trim_zeros(rest, 0, 0);
            assert(b.subrange(0, 0) =~= rest.subrange(0, 0));
        } else {
            lemma_trim_zeros(rest, start - 1, end - 1);
            assert(b.subrange(start, end) =~= rest.subrange(start - 1, end - 1));
        }
    } else if b.last() == 0 {
        assert(start == 0);
        assert(end < b.len());
        let rest = b.drop_last();
        lemma_trim_zeros(rest, start, end);
        assert(b.subrange(start, end) =~= rest.subrange(start, end));
    } else {
        assert(start == 0);
        assert(end == b.len());
        assert(b.subrange(start, end) =~= b);
    }
}

/// Copies `b` without its leading and trailing zero bytes.
fn strip_zero_bytes(b: &[u8]) -> (r: Vec<u8>)
    ensures
        r@ == trim_zeros(b@),
{
    let mut start: usize = 0;
    while start < b.len() && b[start] == 0
        invariant
            start <= b@.len(),
            forall|k: int| 0 <= k < start ==> b@[k] == 0,
        decreases b@.len() - start,
    {
        start = start + 1;
    }
    let mut end: usize = b.len();
    while end > start && b[end - 1] == 0
        invariant
            start <= end <= b@.len(),
            forall|k: int| 0 <= k < start ==> b@[k] == 0,
            forall|k: int| end <= k < b@.len() ==> b@[k] == 0,
            start < b@.len() ==> b@[start as int] != 0,
        decreases end,
    {
        end = end - 1;
    }
    let mut r: Vec<u8> = Vec::new();
    let mut i: usize = start;
    while i < end
        invariant
            start <= i <= end <= b@.len(),
            r@ == b@.subrange(start as int, i as int),
        decreases end - i,
    {
        r.push(b[i]);
        i = i + 1;
        assert(r@ =~= b@.subrange(start as int, i as int));
    }
    proof {
        lemma_trim_zeros(b@, start as int, end as int);
    }
    r
}

/// What the loader reads from the header of a cartridge.
#[derive(Debug)]
pub struct CartridgeHeader {
    pub title: String,
    pub cartridge_type: u8,
    pub rom_size: u8,
    pub ram_size: u8,
}

impl CartridgeHeader {
    /// Whether this header is the one that `bank` holds: the title is the
    /// title field, zero bytes trimmed at both ends and decoded permissively;
    /// the three codes are copied verbatim.
    pub open spec fn describes(self, bank: Seq<u8>) -> bool {
        &&& self.title@ == lossy_text(trim_zeros(bank.subrange(TITLE_START as int, TITLE_END as int)))
        &&& self.cartridge_type == bank[CARTRIDGE_TYPE_AT as int]
        &&& self.rom_size == bank[ROM_SIZE_AT as int]
        &&& self.ram_size == bank[RAM_SIZE_AT as int]
    }

    /// Reads the header out of the fixed ROM bank.
    pub fn parse(bank: &[u8]) -> (h: CartridgeHeader)
        requires
            bank@.len() > RAM_SIZE_AT,
        ensures
            h.describes(bank@),
    {
        let mut raw: Vec<u8> = Vec::new();
        let mut i: usize = TITLE_START;
        while i < TITLE_END
            invariant
                TITLE_START <= i <= TITLE_END,
                TITLE_END < bank@.len(),
                raw@ == bank@.subrange(TITLE_START as int, i as int),
            decreases TITLE_END - i,
        {
            raw.push(bank[i]);
            i = i + 1;
            assert(raw@ =~= bank@.subrange(TITLE_START as int, i as int));
        }
        let trimmed = strip_zero_bytes(raw.as_slice());
        let title = decode_lossy(trimmed.as_slice());
        CartridgeHeader {
            title,
            cartridge_type: bank[CARTRIDGE_TYPE_AT],
            rom_size: bank[ROM_SIZE_AT],
            ram_size: bank[RAM_SIZE_AT],
        }
    }
}

} // verus!
