//! The UEFI types the boot stub shares with the firmware, and the text it
//! hands to the firmware console.

use vstd::prelude::*;

verus! {

/// A UEFI status code; zero is success.
#[derive(Clone, Copy, Debug, Eq, PartialEq, Structural)]
pub struct Status(usize);

impl Status {
    /// The raw code.
    pub closed spec fn code(self) -> usize {
        self.0
    }

    /// The status with code `code`.
    pub fn new(code: usize) -> (r: Self)
        ensures
            r.code() == code,
    {
        Status(code)
    }

    /// Success is `Ok`; any other status is the error.
    pub fn to_result(self) -> (r: Result<(), Self>)
        ensures
            r is Ok <==> self.code() == 0,
            r matches Err(e) ==> e == self,
    {
        if self.0 == 0 {
            Ok(())
        } else {
            Err(self)
        }
    }
}

/// The common header that all UEFI tables begin with.
#[derive(Clone, Copy, Debug, Default, PartialEq, Eq, PartialOrd, Ord, Hash, Structural)]
pub struct Header {
    /// Unique identifier for this table.
    pub signature: u64,
    /// Revision of the specification this table conforms to.
    pub revision: u32,
    /// The size in bytes of the entire table.
    pub size: u32,
    /// CRC-32-Castagnoli of the entire table, computed with this field 0.
    pub crc: u32,
    /// Reserved; must be 0.
    pub reserved: u32,
}

/// An ABI-compatible UEFI boolean: any nonzero byte is true.
#[derive(Copy, Clone, Debug, Default, PartialEq, Ord, PartialOrd, Eq, Hash, Structural)]
pub struct Boolean(pub u8);

impl From<bool> for Boolean {
    fn from(value: bool) -> (r: Self) {
        if value {
            Boolean(1)
        } else {
            Boolean(0)
        }
    }
}

impl vstd::std_specs::convert::FromSpecImpl<bool> for Boolean {
    open spec fn obeys_from_spec() -> bool {
        true
    }

    open spec fn from_spec(v: bool) -> Boolean {
        if v {
            Boolean(1)
        } else {
            Boolean(0)
        }
    }
}

impl From<Boolean> for bool {
    fn from(value: Boolean) -> (r: bool) {
        value.0 != 0
    }
}

impl vstd::std_specs::convert::FromSpecImpl<Boolean> for bool {
    open spec fn obeys_from_spec() -> bool {
        true
    }

    open spec fn from_spec(v: Boolean) -> bool {
        v.0 != 0
    }
}

/// A `bool` turned into a [`Boolean`] and back is itself.
pub proof fn lemma_boolean_round_trip(b: bool)
    ensures
        <bool as vstd::std_specs::convert::FromSpec<Boolean>>::from_spec(
            <Boolean as vstd::std_specs::convert::FromSpec<bool>>::from_spec(b),
        ) == b,
{
}

/// The mode of a text console.
#[derive(Clone, Copy, Debug, Default, Eq, PartialEq, Structural)]
pub struct SimpleTextOutputMode {
    pub max_mode: i32,
    pub mode: i32,
    pub attribute: i32,
    pub cursor_column: i32,
    pub cursor_row: i32,
    pub cursor_visible: Boolean,
}

/// Whether a configuration table entry with GUID `guid` holds the ACPI root
/// pointer.
pub open spec fn is_acpi_guid(guid: u128, acpi2_guid: u128, acpi_guid: u128) -> bool {
    guid == acpi2_guid || guid == acpi_guid
}

/// The address of the ACPI root pointer in the firmware's configuration
/// table, given as (GUID, address) pairs: that of the first entry with the
/// ACPI 2.0 or the ACPI 1.0 GUID, whichever comes first.
pub fn acpi_rsdp(entries: &[(u128, usize)], acpi2_guid: u128, acpi_guid: u128) -> (r: Option<usize>)
    ensures
        match r {
            Some(addr) => exists|i: int|
                0 <= i < entries@.len() && is_acpi_guid(entries@[i].0, acpi2_guid, acpi_guid)
                    && entries@[i].1 == addr && forall|j: int|
                    0 <= j < i ==> !is_acpi_guid(#[trigger] entries@[j].0, acpi2_guid, acpi_guid),
            None => forall|i: int|
                0 <= i < entries@.len() ==> !is_acpi_guid(#[trigger] entries@[i].0, acpi2_guid, acpi_guid),
        },
{
    let mut i: usize = 0;
    while i < entries.len()
        invariant
            i <= entries@.len(),
            forall|j: int| 0 <= j < i ==> !is_acpi_guid(#[trigger] entries@[j].0, acpi2_guid, acpi_guid),
        decreases entries@.len() - i,
    {
        let (guid, addr) = entries[i];
        if guid == acpi2_guid || guid == acpi_guid {
            return Some(addr);
        }
        i = i + 1;
    }
    None
}

/// The UTF-16 code units of one character.
pub open spec fn utf16_of_char(c: char) -> Seq<u16> {
    let v = c as u32;
    if v < 0x1_0000 {
        seq![v as u16]
    } else {
        let u = (v - 0x1_0000) as u32;
        seq![(0xd800 + (u >> 10u32)) as u16, (0xdc00 + (u & 0x3ffu32)) as u16]
    }
}

/// The UTF-16 encoding of a string.
pub open spec fn utf16_spec(s: Seq<char>) -> Seq<u16>
    decreases s.len(),
{
    if s.len() == 0 {
        Seq::empty()
    } else {
        utf16_spec(s.drop_last()) + utf16_of_char(s.last())
    }
}

/// std's `str::encode_utf16`, collected: the string as UTF-16 code units.
#[verifier::external_body]
fn encode_utf16(s: &str) -> (r: Vec<u16>)
    ensures
        r@ == utf16_spec(s@),
{
    s.encode_utf16().collect()
}

/// How many code units the console takes per call.
pub const CONSOLE_CHUNK: usize = 256;

/// Code unit `j` of chunk `i` when `units` is cut into chunks of 256: the
/// unit itself, or a terminating zero past the end.
pub open spec fn chunk_unit(units: Seq<u16>, i: int, j: int) -> u16 {
    if 256 * i + j < units.len() {
        units[256 * i + j]
    } else {
        0
    }
}

/// Cuts `units` into chunks of 256: every full chunk, then the rest padded
/// with zeros, which is a chunk of zeros when nothing is left.
pub fn console_chunks(units: &[u16]) -> (r: Vec<[u16; 256]>)
    ensures
        r@.len() == units@.len() / 256 + 1,
        forall|i: int, j: int|
            0 <= i < r@.len() && 0 <= j < 256 ==> (#[trigger] r@[i]@[j]) == chunk_unit(units@, i, j),
{
    let n = units.len();
    let mut out: Vec<[u16; 256]> = Vec::new();
    let mut pos: usize = 0;
    loop
        invariant_except_break
            pos == 256 * out@.len(),
            pos <= n,
        invariant
            n == units@.len(),
            forall|i: int, j: int|
                0 <= i < out@.len() && 0 <= j < 256 ==> (#[trigger] out@[i]@[j]) == chunk_unit(
                    units@,
                    i,
                    j,
                ),
        ensures
            out@.len() == n / 256 + 1,
        decreases n - pos,
    {
        let mut buf: [u16; 256] = [0u16; 256];
        let mut j: usize = 0;
        while j < 256
            invariant
                j <= 256,
                n == units@.len(),
                pos <= n,
                pos == 256 * out@.len(),
                forall|k: int| 0 <= k < j ==> buf@[k] == chunk_unit(units@, out@.len() as int, k),
                forall|k: int| j <= k < 256 ==> buf@[k] == 0,
            decreases 256 - j,
        {
            if pos + j < n {
                buf[j] = units[pos + j];
            }
            j = j + 1;
        }
        proof {
            assert forall|i: int, k: int|
                0 <= i < out@.len() + 1 && 0 <= k < 256 implies (#[trigger] out@.push(buf)[i]@[k])
                == chunk_unit(units@, i, k) by {
                if i < out@.len() {
                    assert(out@.push(buf)[i] == out@[i]);
                }
            }
        }
        out.push(buf);
        if n - pos >= 256 {
            pos = pos + 256;
        } else {
            proof {
                let c = out@.len() - 1;
                assert(n / 256 == c) by (nonlinear_arith)
                    requires
                        pos == 256 * c,
                        pos <= n < pos + 256,
                ;
            }
            break;
        }
    }
    out
}

/// The chunks in which the console is handed the string `s`.
pub fn console_output_chunks(s: &str) -> (r: Vec<[u16; 256]>)
    ensures
        r@.len() == utf16_spec(s@).len() / 256 + 1,
        forall|i: int, j: int|
            0 <= i < r@.len() && 0 <= j < 256 ==> (#[trigger] r@[i]@[j]) == chunk_unit(
                utf16_spec(s@),
                i,
                j,
            ),
{
    let units = encode_utf16(s);
    console_chunks(units.as_slice())
}

} // verus!
