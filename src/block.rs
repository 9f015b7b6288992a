use crate::align::{lemma_round_down_max, lemma_rounding, saturating_round_up, Alignment};
use vstd::arithmetic::div_mod::{lemma_add_mod_noop, lemma_mod_pos_bound, lemma_small_mod};
use vstd::arithmetic::power2::is_pow2;
use vstd::layout::{size_of, valid_layout};
use vstd::prelude::*;
use vstd::std_specs::convert::TryIntoSpec;

verus! {

/// Width in bytes of the header stored in front of each payload: one `usize`.
pub open spec fn header_width_spec() -> nat {
    size_of::<usize>()
}

/// Total size of the block that backs a payload of `size` bytes: the header,
/// plus the payload rounded up to the alignment, with both additions stopping
/// at `usize::MAX`.
pub open spec fn block_total(size: int, a: int) -> int {
    let sum = header_width_spec() + saturating_round_up(size, a);
    if sum <= usize::MAX {
        sum
    } else {
        usize::MAX as int
    }
}

/// The pair handed to the external allocator to obtain or release a block.
#[derive(Clone, Copy, PartialEq, Eq, Structural, Debug)]
pub struct BlockLayout {
    /// Total size of the block, header included.
    pub size: usize,
    /// Alignment of the block's start address.
    pub align: usize,
}

/// The layout planned for a request of `size` payload bytes at alignment `a`:
/// none for zero bytes, or where the allocator would not accept the total.
pub open spec fn planned_layout(size: int, a: int) -> Option<BlockLayout> {
    if size == 0 || !valid_layout(block_total(size, a) as usize, a as usize) {
        None
    } else {
        Some(BlockLayout { size: block_total(size, a) as usize, align: a as usize })
    }
}

/// The layout recovered from a header that holds `header`: the total size
/// it stores, at alignment `a`.
pub open spec fn recovered_layout(header: int, a: int) -> BlockLayout {
    BlockLayout { size: header as usize, align: a as usize }
}

/// The payload size reported for a header that holds `header`: the total size
/// less the header itself, and zero where there is no block.
pub open spec fn reported_size(header: Option<usize>) -> int {
    match header {
        None => 0,
        Some(h) => if h >= header_width_spec() {
            h - header_width_spec()
        } else {
            0
        },
    }
}

/// What a resize asks of the external allocator.
#[derive(Clone, Copy, PartialEq, Eq, Structural, Debug)]
pub struct ResizePlan {
    /// The layout of the block being resized, or `None` where there is no
    /// block yet and a fresh one is to be allocated.
    pub old: Option<BlockLayout>,
    /// The layout of the block after the resize.
    pub new: BlockLayout,
}

/// The plan for resizing the block whose header holds `header` (none: no
/// block) to `new_size` payload bytes: none where a fresh request of
/// `new_size` bytes would be refused.
pub open spec fn planned_resize(header: Option<usize>, new_size: int, a: int) -> Option<ResizePlan> {
    match planned_layout(new_size, a) {
        None => None,
        Some(l) => Some(
            ResizePlan {
                old: match header {
                    None => None,
                    Some(h) => Some(recovered_layout(h as int, a)),
                },
                new: l,
            },
        ),
    }
}

/// Platform families, each with the default alignment that its native
/// allocator guarantees.
#[derive(Clone, Copy, PartialEq, Eq, Structural, Debug)]
pub enum Platform {
    MacOs,
    Windows64,
    Other,
}

/// The default alignment on `platform`: 16 where the native allocator
/// guarantees it, 8 elsewhere.
pub open spec fn default_alignment_value(platform: Platform) -> nat {
    match platform {
        Platform::MacOs => 16,
        Platform::Windows64 => 16,
        Platform::Other => 8,
    }
}

/// The default alignment of blocks on `platform`.
pub fn default_alignment(platform: Platform) -> (r: Alignment)
    ensures
        r@ == default_alignment_value(platform),
{
    proof {
        reveal_with_fuel(is_pow2, 5);
    }
    match platform {
        Platform::MacOs => Alignment::new(16),
        Platform::Windows64 => Alignment::new(16),
        Platform::Other => Alignment::new(8),
    }
}

/// Width in bytes of the header stored in front of each payload.
pub fn header_width() -> (r: usize)
    ensures
        r == header_width_spec(),
{
    core::mem::size_of::<usize>()
}

/// Relies on `core::alloc::Layout::from_size_align`: it succeeds exactly when
/// `align` is a power of two and `size`, rounded up to `align`, is at most
/// `isize::MAX`.
#[verifier::external_body]
fn layout_accepts(size: usize, align: usize) -> (r: bool)
    ensures
        r == valid_layout(size, align),
{
    core::alloc::Layout::from_size_align(size, align).is_ok()
}

/// Total size of the block that backs a payload of `size` bytes.
pub fn block_size(size: usize, align: &Alignment) -> (r: usize)
    ensures
        r == block_total(size as int, align@ as int),
{
    header_width().saturating_add(align.next(size))
}

/// Plans the block for a request of `size` payload bytes: `None` for zero
/// bytes or for a total that the allocator would not accept.
pub fn plan_block(size: usize, align: &Alignment) -> (r: Option<BlockLayout>)
    ensures
        r == planned_layout(size as int, align@ as int),
{
    if size == 0 {
        return None;
    }
    let total = block_size(size, align);
    let a = align.into_raw();
    if layout_accepts(total, a) {
        Some(BlockLayout { size: total, align: a })
    } else {
        None
    }
}

/// Recovers the layout of a block from the total size stored in its header.
pub fn recover_layout(header: usize, align: &Alignment) -> (r: BlockLayout)
    ensures
        r == recovered_layout(header as int, align@ as int),
{
    BlockLayout { size: header, align: align.into_raw() }
}

/// The payload size backing a pointer whose header holds `header`, or zero
/// where there is no block.
pub fn payload_size(header: Option<usize>) -> (r: usize)
    ensures
        r == reported_size(header),
{
    match header {
        None => 0,
        Some(h) => h.saturating_sub(header_width()),
    }
}

/// Plans resizing the block whose header holds `header` (`None`: there is no
/// block) to `new_size` payload bytes: `None` for zero bytes or for a total
/// that the allocator would not accept.
pub fn plan_resize(header: Option<usize>, new_size: usize, align: &Alignment) -> (r: Option<
    ResizePlan,
>)
    ensures
        r == planned_resize(header, new_size as int, align@ as int),
{
    match plan_block(new_size, align) {
        None => None,
        Some(new) => {
            let old = match header {
                None => None,
                Some(h) => Some(recover_layout(h, align)),
            };
            Some(ResizePlan { old, new })
        },
    }
}

/// Converts a requested size of any integer type to `usize`, or `None` where
/// the value does not fit.
pub fn try_requested_size<T: TryInto<usize>>(size: T) -> (r: Option<usize>)
    ensures
        T::obeys_try_into_spec() ==> r == match size.try_into_spec() {
            Ok(n) => Some(n),
            Err(_) => None,
        },
{
    match size.try_into() {
        Ok(n) => Some(n),
        Err(_) => None,
    }
}

/// A block that was planned for a non-empty request round-trips through its
/// header: the layout recovered from the stored total is the planned one, and
/// the size reported back is the request rounded up to the alignment, so it
/// is a multiple of the alignment and at least the request. Where the block
/// starts on a multiple of the alignment and the header width is one too, so
/// does the payload.
pub proof fn lemma_allocation_round_trip(size: usize, a: nat, block_start: nat)
    requires
        is_pow2(a as int),
        a <= usize::MAX,
        size > 0,
        planned_layout(size as int, a as int) is Some,
    ensures
        ({
            let l = planned_layout(size as int, a as int).unwrap();
            &&& recovered_layout(l.size as int, a as int) == l
            &&& reported_size(Some(l.size)) == saturating_round_up(size as int, a as int)
            &&& reported_size(Some(l.size)) >= size
            &&& reported_size(Some(l.size)) % (a as int) == 0
            &&& block_start % a == 0 && header_width_spec() % a == 0 ==> (block_start as int
                + header_width_spec() as int) % (a as int) == 0
        }),
{
    lemma_rounding(a, size);
    lemma_round_down_max(a as usize);
    lemma_mod_pos_bound(isize::MAX as int, a as int);
    if block_start % a == 0 && header_width_spec() % a == 0 {
        lemma_add_mod_noop(block_start as int, header_width_spec() as int, a as int);
        lemma_small_mod(0, a);
    }
}

/// Requests of zero bytes, and of more than `isize::MAX` bytes, are refused,
/// whether for a fresh block or for a resize.
pub proof fn lemma_zero_and_oversized_refused(size: usize, a: nat, header: Option<usize>)
    requires
        is_pow2(a as int),
        a <= usize::MAX,
    ensures
        planned_layout(0, a as int) is None,
        planned_resize(header, 0, a as int) is None,
        size > isize::MAX ==> planned_layout(size as int, a as int) is None,
        size > isize::MAX ==> planned_resize(header, size as int, a as int) is None,
{
    lemma_rounding(a, size);
    lemma_round_down_max(a as usize);
}

} // verus!
