//! Address types and the errors of the paging layer.

use vstd::prelude::*;
use vstd::string::StringExecFns;

verus! {

/// A virtual address.
#[derive(Clone, Copy, Debug, PartialEq, Eq, Structural)]
pub struct VirtAddr(usize);

/// A physical address.
#[derive(Clone, Copy, Debug, PartialEq, Eq, Structural)]
pub struct PhysAddr(usize);

impl View for VirtAddr {
    type V = usize;

    closed spec fn view(&self) -> usize {
        self.0
    }
}

impl View for PhysAddr {
    type V = usize;

    closed spec fn view(&self) -> usize {
        self.0
    }
}

impl VirtAddr {
    /// Wraps a raw virtual address.
    pub fn new(raw: usize) -> (r: Self)
        ensures
            r@ == raw,
    {
        VirtAddr(raw)
    }

    /// The raw value of the address.
    pub fn raw(&self) -> (r: usize)
        ensures
            r == self@,
    {
        self.0
    }

    /// The address `offset` bytes further; the sum must not overflow.
    pub fn add(self, offset: usize) -> (r: Self)
        requires
            self@ + offset <= usize::MAX,
        ensures
            r@ == self@ + offset,
    {
        VirtAddr(self.0 + offset)
    }
}

impl PhysAddr {
    /// Wraps a raw physical address.
    pub fn new(raw: usize) -> (r: Self)
        ensures
            r@ == raw,
    {
        PhysAddr(raw)
    }

    /// The raw value of the address.
    pub fn raw(&self) -> (r: usize)
        ensures
            r == self@,
    {
        self.0
    }

    /// The address `offset` bytes further; the sum must not overflow.
    pub fn add(self, offset: usize) -> (r: Self)
        requires
            self@ + offset <= usize::MAX,
        ensures
            r@ == self@ + offset,
    {
        PhysAddr(self.0 + offset)
    }
}

/// The lowercase hexadecimal digit of `d`.
pub open spec fn hex_char(d: nat) -> char {
    if d < 10 {
        ((d + 48) as u8) as char
    } else {
        ((d + 87) as u8) as char
    }
}

/// The hexadecimal digits of `x`, most significant first, without leading
/// zeros.
pub open spec fn hex_digits(x: nat) -> Seq<char>
    decreases x,
{
    if x < 16 {
        seq![hex_char(x)]
    } else {
        hex_digits(x / 16) + seq![hex_char(x % 16)]
    }
}

/// `x` as the alternate hexadecimal form prints it: `0x`, then its digits.
pub open spec fn hex_spec(x: nat) -> Seq<char> {
    seq!['0', 'x'] + hex_digits(x)
}

fn hex_digit_str(d: usize) -> (r: &'static str)
    requires
        d < 16,
    ensures
        r@ == seq![hex_char(d as nat)],
{
    proof {
        reveal_strlit("0");
        reveal_strlit("1");
        reveal_strlit("2");
        reveal_strlit("3");
        reveal_strlit("4");
        reveal_strlit("5");
        reveal_strlit("6");
        reveal_strlit("7");
        reveal_strlit("8");
        reveal_strlit("9");
        reveal_strlit("a");
        reveal_strlit("b");
        reveal_strlit("c");
        reveal_strlit("d");
        reveal_strlit("e");
        reveal_strlit("f");
    }
    match d {
        0 => "0",
        1 => "1",
        2 => "2",
        3 => "3",
        4 => "4",
        5 => "5",
        6 => "6",
        7 => "7",
        8 => "8",
        9 => "9",
        10 => "a",
        11 => "b",
        12 => "c",
        13 => "d",
        14 => "e",
        _ => "f",
    }
}

/// Appends `x` in the alternate hexadecimal form.
pub fn push_hex(out: &mut String, x: usize)
    ensures
        final(out)@ == old(out)@ + hex_spec(x as nat),
{
    let mut digits: Vec<usize> = Vec::new();
    let mut v = x;
    loop
        invariant
            hex_digits(x as nat) == hex_digits(v as nat) + digits@.reverse().map_values(
                |d: usize| hex_char(d as nat),
            ),
            forall|i: int| 0 <= i < digits@.len() ==> digits@[i] < 16,
        ensures
            hex_digits(x as nat) == seq![hex_char(v as nat)] + digits@.reverse().map_values(
                |d: usize| hex_char(d as nat),
            ),
            v < 16,
        decreases v,
    {
        if v < 16 {
            break;
        }
        let ghost old_digits = digits@;
        let ghost old_v = v;
        digits.push(v % 16);
        v = v / 16;
        proof {
            assert(hex_digits(old_v as nat) == hex_digits(v as nat) + seq![hex_char((old_v % 16) as nat)]);
            assert(digits@.reverse() =~= seq![old_v % 16] + old_digits.reverse());
            assert(digits@.reverse().map_values(|d: usize| hex_char(d as nat)) =~= seq![hex_char(
                (old_v % 16) as nat,
            )] + old_digits.reverse().map_values(|d: usize| hex_char(d as nat)));
        }
    }
    out.append("0x");
    proof {
        reveal_strlit("0x");
    }
    out.append(hex_digit_str(v));
    let mut k = digits.len();
    let ghost start = old(out)@;
    while k > 0
        invariant
            k <= digits@.len(),
            forall|i: int| 0 <= i < digits@.len() ==> digits@[i] < 16,
            out@ == start + seq!['0', 'x'] + seq![hex_char(v as nat)] + digits@.subrange(
                k as int,
                digits@.len() as int,
            ).reverse().map_values(|d: usize| hex_char(d as nat)),
        decreases k,
    {
        k = k - 1;
        let ghost before = out@;
        out.append(hex_digit_str(digits[k]));
        proof {
            assert(digits@.subrange(k as int, digits@.len() as int).reverse() =~= digits@.subrange(
                k + 1,
                digits@.len() as int,
            ).reverse().push(digits@[k as int]));
        }
    }
    assert(digits@.subrange(0, digits@.len() as int) =~= digits@);
}

/// The ways a mapping request can fail.
#[derive(Clone, Copy, Debug, PartialEq, Eq)]
pub enum PagingError {
    /// The frame allocator had no frame left.
    NoMemory,
    /// An address is not aligned as required.
    AlignmentError { details: &'static str },
    /// The virtual address is already mapped.
    MappingConflict { vaddr: VirtAddr, existing_paddr: PhysAddr },
    /// An address range wraps around the address space.
    AddressOverflow { details: &'static str },
    /// The size of the request is not acceptable.
    InvalidSize { details: &'static str },
    /// A table would have to be placed below a huge page.
    HierarchyError { details: &'static str },
}

/// The result of a paging operation.
pub type PagingResult<T> = Result<T, PagingError>;

impl PagingError {
    /// An alignment error with the given explanation.
    pub fn alignment_error(details: &'static str) -> (r: Self)
        ensures
            r == (PagingError::AlignmentError { details }),
    {
        PagingError::AlignmentError { details }
    }

    /// A conflict with an existing mapping of `vaddr` to `existing_paddr`.
    pub fn mapping_conflict(vaddr: VirtAddr, existing_paddr: PhysAddr) -> (r: Self)
        ensures
            r == (PagingError::MappingConflict { vaddr, existing_paddr }),
    {
        PagingError::MappingConflict { vaddr, existing_paddr }
    }

    /// An address overflow with the given explanation.
    pub fn address_overflow(details: &'static str) -> (r: Self)
        ensures
            r == (PagingError::AddressOverflow { details }),
    {
        PagingError::AddressOverflow { details }
    }

    /// An invalid size with the given explanation.
    pub fn invalid_size(details: &'static str) -> (r: Self)
        ensures
            r == (PagingError::InvalidSize { details }),
    {
        PagingError::InvalidSize { details }
    }

    /// The text of the error.
    pub open spec fn message_spec(self) -> Seq<char> {
        match self {
            PagingError::NoMemory => "Memory allocation failed"@,
            PagingError::AlignmentError { details } => "Address alignment error: "@ + details@,
            PagingError::MappingConflict { vaddr, existing_paddr } => "Mapping conflict: virtual address "@
                + hex_spec(vaddr@ as nat) + " already mapped to physical address "@ + hex_spec(
                existing_paddr@ as nat,
            ),
            PagingError::AddressOverflow { details } => "Address overflow detected: "@ + details@,
            PagingError::InvalidSize { details } => "Invalid mapping size: "@ + details@,
            PagingError::HierarchyError { details } => "Page table hierarchy error: "@ + details@,
        }
    }

    /// The text of the error, addresses in hexadecimal.
    pub fn message(&self) -> (r: String)
        ensures
            r@ == self.message_spec(),
    {
        match self {
            PagingError::NoMemory => String::from_str("Memory allocation failed"),
            PagingError::AlignmentError { details } => String::from_str(
                "Address alignment error: ",
            ).concat(details),
            PagingError::MappingConflict { vaddr, existing_paddr } => {
                let mut out = String::from_str("Mapping conflict: virtual address ");
                push_hex(&mut out, vaddr.raw());
                out.append(" already mapped to physical address ");
                push_hex(&mut out, existing_paddr.raw());
                out
            },
            PagingError::AddressOverflow { details } => String::from_str(
                "Address overflow detected: ",
            ).concat(details),
            PagingError::InvalidSize { details } => String::from_str("Invalid mapping size: ").concat(
                details,
            ),
            PagingError::HierarchyError { details } => String::from_str(
                "Page table hierarchy error: ",
            ).concat(details),
        }
    }

    /// A table hierarchy error with the given explanation.
    pub fn hierarchy_error(details: &'static str) -> (r: Self)
        ensures
            r == (PagingError::HierarchyError { details }),
    {
        PagingError::HierarchyError { details }
    }
}

} // verus!
