//! Addresses, permissions and address spaces, as far as process management looks at them.
use vstd::prelude::*;
use crate::config::PAGE_SIZE;

verus! {

/// A virtual address.
#[derive(Clone, Copy, Debug, PartialEq, Eq, Structural)]
pub struct VirtAddr(pub usize);

/// The number of a virtual page.
#[derive(Clone, Copy, Debug, PartialEq, Eq, Structural)]
pub struct VirtPageNum(pub usize);

impl VirtAddr {
    /// The page that holds this address.
    pub open spec fn floor_page(self) -> VirtPageNum {
        VirtPageNum(self.0 / PAGE_SIZE)
    }

    /// The first page that starts at this address or after it.
    pub open spec fn ceil_page(self) -> VirtPageNum {
        if self.0 % PAGE_SIZE == 0 {
            VirtPageNum(self.0 / PAGE_SIZE)
        } else {
            VirtPageNum((self.0 / PAGE_SIZE + 1) as usize)
        }
    }

    /// The page that holds this address.
    pub fn floor(&self) -> (vpn: VirtPageNum)
        ensures
            vpn == self.floor_page(),
    {
        VirtPageNum(self.0 / PAGE_SIZE)
    }

    /// The first page that starts at this address or after it.
    pub fn ceil(&self) -> (vpn: VirtPageNum)
        ensures
            vpn == self.ceil_page(),
    {
        if self.0 % PAGE_SIZE == 0 {
            VirtPageNum(self.0 / PAGE_SIZE)
        } else {
            VirtPageNum(self.0 / PAGE_SIZE + 1)
        }
    }
}

/// A range of bytes is covered by the pages from the floor of its start to the ceiling of its
/// end, and by no fewer.
pub proof fn law_pages_cover_bytes(start: usize, end: usize)
    requires
        start < end,
    ensures
        ({
            let first = VirtAddr(start).floor_page().0;
            let past = VirtAddr(end).ceil_page().0;
            &&& first * PAGE_SIZE <= start < (first + 1) * PAGE_SIZE
            &&& (past - 1) * PAGE_SIZE < end <= past * PAGE_SIZE
            &&& first < past
        }),
{
}

/// The access rights of a mapped area, one bit per right.
#[derive(Clone, Copy, Debug, PartialEq, Eq, Structural)]
pub struct MapPermission {
    pub bits: u8,
}

impl MapPermission {
    /// Every right there is: read (bit 1), write (bit 2), execute (bit 3), user (bit 4).
    pub const ALL: u8 = 0x1e;

    /// The rights that `bits` name, or `None` if a bit of it names no right.
    pub fn from_bits(bits: u8) -> (r: Option<MapPermission>)
        ensures
            r is Some <==> bits & !Self::ALL == 0,
            r matches Some(p) ==> p.bits == bits,
    {
        if bits & !Self::ALL == 0 {
            Some(MapPermission { bits })
        } else {
            None
        }
    }
}

/// A user address space, known by the token of its page table.
#[derive(Clone, Copy, Debug, PartialEq, Eq, Structural)]
pub struct MemorySet {
    pub token: usize,
}

impl MemorySet {
    /// The token that selects this address space.
    pub fn token(&self) -> (token: usize)
        ensures
            token == self.token,
    {
        self.token
    }
}

/// The page that holds an address starts at the address or below it, less than a page away; the
/// first page from an address on starts at the address or above it, less than a page away.
pub proof fn law_page_of_address(va: VirtAddr, floor: VirtPageNum, ceil: VirtPageNum)
    requires
        call_ensures(VirtAddr::floor, (&va,), floor),
        call_ensures(VirtAddr::ceil, (&va,), ceil),
    ensures
        floor.0 * PAGE_SIZE <= va.0 < floor.0 * PAGE_SIZE + PAGE_SIZE,
        va.0 <= ceil.0 * PAGE_SIZE < va.0 + PAGE_SIZE,
{
}

/// The bits that name rights are bits 1 to 4: bits name rights if and only if the number that
/// they spell is even and below 32, and the rights they name are just those bits.
pub proof fn law_rights_of_bits(bits: u8, r: Option<MapPermission>)
    requires
        call_ensures(MapPermission::from_bits, (bits,), r),
    ensures
        r is Some <==> bits % 2 == 0 && bits < 32,
        r matches Some(p) ==> p.bits == bits,
{
    assert(bits & !0x1e == 0 <==> bits % 2 == 0 && bits < 32) by (bit_vector);
}

/// An address space is known by its token.
pub proof fn law_token(m: MemorySet, token: usize)
    requires
        call_ensures(MemorySet::token, (&m,), token),
    ensures
        m == (MemorySet { token }),
{
}

} // verus!
