//! Memory layouts, and the size classes that task memory is kept in.
use vstd::arithmetic::power2::pow2;
use vstd::prelude::*;

verus! {

/// The size and alignment of a block of memory, in bytes.
#[derive(Debug, Clone, Copy, PartialEq, Eq, Structural)]
pub struct Layout {
    pub size: usize,
    pub align: usize,
}

/// How many size classes there are: 32 bytes, 64 bytes, and so on up to 32 kilobytes.
pub const NUM_CLASSES: usize = 11;

/// The size of the largest class.
pub const MAX_CLASS_SIZE: usize = 32_768;

/// The alignment of a block of any class.
pub const CLASS_ALIGN: usize = 16;

/// The size of the blocks of class `class`: 32 bytes, doubled `class` times.
pub open spec fn class_size(class: int) -> int
    decreases class,
{
    if class <= 0 {
        32
    } else {
        2 * class_size(class - 1)
    }
}

/// `class` is the smallest class whose blocks hold `size` bytes.
pub open spec fn is_class_of(size: int, class: int) -> bool {
    &&& 0 <= class < NUM_CLASSES
    &&& size <= class_size(class)
    &&& class > 0 ==> class_size(class - 1) < size
}

/// The classes end at 32 kilobytes.
pub proof fn class_sizes_end()
    ensures
        class_size(NUM_CLASSES - 1) == MAX_CLASS_SIZE,
{
    reveal_with_fuel(class_size, 11);
}

pub proof fn class_size_grows(a: int, b: int)
    requires
        a <= b,
    ensures
        32 <= class_size(a) <= class_size(b),
        0 <= a < b ==> class_size(a) < class_size(b),
    decreases b,
{
    if b > 0 {
        if a < b {
            class_size_grows(a, b - 1);
        } else {
            class_size_grows(b - 1, b - 1);
        }
    }
}

/// A size has no more than one class.
pub proof fn law_class_is_unique(size: int, a: int, b: int)
    requires
        is_class_of(size, a),
        is_class_of(size, b),
    ensures
        a == b,
{
    if a < b {
        class_size_grows(a, b - 1);
    } else if b < a {
        class_size_grows(b, a - 1);
    }
}

/// The class of a size that has one.
pub open spec fn spec_class_of(size: int) -> int {
    choose|class: int| is_class_of(size, class)
}

proof fn class_found(size: int, from: int) -> (class: int)
    requires
        size <= MAX_CLASS_SIZE,
        0 <= from < NUM_CLASSES,
        from > 0 ==> class_size(from - 1) < size,
    ensures
        is_class_of(size, class),
    decreases NUM_CLASSES - from,
{
    if size <= class_size(from) {
        from
    } else {
        class_sizes_end();
        class_size_grows(from, NUM_CLASSES - 1);
        class_found(size, from + 1)
    }
}

/// Every size up to the largest class has a class.
pub proof fn law_class_exists(size: int)
    requires
        size <= MAX_CLASS_SIZE,
    ensures
        is_class_of(size, spec_class_of(size)),
{
    let class = class_found(size, 0);
    assert(is_class_of(size, class));
}

/// The smallest class whose blocks hold `size` bytes.
pub fn class_of(size: usize) -> (class: usize)
    requires
        size <= MAX_CLASS_SIZE,
    ensures
        is_class_of(size as int, class as int),
        class == spec_class_of(size as int),
{
    proof {
        class_sizes_end();
    }
    let mut class: usize = 0;
    let mut block: usize = 32;
    while block < size
        invariant
            class < NUM_CLASSES,
            size <= MAX_CLASS_SIZE,
            block == class_size(class as int),
            class > 0 ==> class_size(class - 1) < size,
            class_size(NUM_CLASSES - 1) == MAX_CLASS_SIZE,
        decreases NUM_CLASSES - class,
    {
        proof {
            if class == NUM_CLASSES - 1 {
                assert(block == MAX_CLASS_SIZE);
            }
        }
        block = block * 2;
        class += 1;
    }
    proof {
        law_class_is_unique(size as int, class as int, spec_class_of(size as int));
    }
    class
}

/// The size of the blocks of a class.
pub fn block_size(class: usize) -> (size: usize)
    requires
        class < NUM_CLASSES,
    ensures
        size == class_size(class as int),
        32 <= size <= MAX_CLASS_SIZE,
{
    proof {
        class_sizes_end();
        class_size_grows(class as int, NUM_CLASSES - 1);
    }
    let mut size: usize = 32;
    let mut i: usize = 0;
    while i < class
        invariant
            i <= class < NUM_CLASSES,
            size == class_size(i as int),
            class_size(class as int) <= MAX_CLASS_SIZE,
        decreases class - i,
    {
        proof {
            class_size_grows(i + 1, class as int);
        }
        size = size * 2;
        i += 1;
    }
    size
}

/// `value` rounded up to a multiple of `align`.
pub open spec fn rounded_up(value: int, align: int) -> int {
    if value % align == 0 {
        value
    } else {
        value + (align - value % align)
    }
}

fn round_up(value: usize, align: usize) -> (rounded: usize)
    requires
        align > 0,
        value + align <= usize::MAX,
    ensures
        rounded == rounded_up(value as int, align as int),
        value <= rounded < value + align,
{
    let rest: usize = value % align;
    if rest == 0 {
        value
    } else {
        value + (align - rest)
    }
}

pub open spec fn max_of(a: usize, b: usize) -> usize {
    if a < b {
        b
    } else {
        a
    }
}

fn larger(a: usize, b: usize) -> (m: usize)
    ensures
        m == max_of(a, b),
{
    if a < b {
        b
    } else {
        a
    }
}

impl Layout {
    /// A layout that fits a value of either layout.
    pub open spec fn spec_either(self, other: Layout) -> Layout {
        Layout { size: max_of(self.size, other.size), align: max_of(self.align, other.align) }
    }

    pub fn either(self, other: Layout) -> (layout: Layout)
        ensures
            layout == self.spec_either(other),
    {
        Layout { size: larger(self.size, other.size), align: larger(self.align, other.align) }
    }

    /// The offset at which a value of layout `next` follows one of this layout.
    pub open spec fn spec_offset(self, next: Layout) -> int {
        rounded_up(self.size as int, next.align as int)
    }

    /// The layout is one that memory can have: it is aligned to something, and no larger than
    /// memory can be, rounded up to its alignment.
    pub open spec fn valid(self) -> bool {
        &&& self.align > 0
        &&& self.size + self.align <= isize::MAX + 1
    }

    /// Where a value of this layout followed by one of layout `next` ends.
    pub open spec fn spec_end(self, next: Layout) -> int {
        self.spec_offset(next) + next.size
    }

    /// Lays `next` out behind this layout, padded so that the whole can stand in an array. Returns
    /// the whole, and the offset of `next` in it; `None` if that is more than memory can be.
    pub fn extend(self, next: Layout) -> (joint: Option<(Layout, usize)>)
        requires
            self.valid(),
            next.valid(),
        ensures
            joint is Some <==> self.spec_end(next) + max_of(self.align, next.align) <= isize::MAX + 1,
            joint matches Some((whole, offset)) ==> {
                &&& offset == self.spec_offset(next)
                &&& whole.align == max_of(self.align, next.align)
                &&& whole.size == rounded_up(offset + next.size, whole.align as int)
                &&& self.size <= offset
                &&& offset + next.size <= whole.size
            },
    {
        let align: usize = larger(self.align, next.align);
        let offset: usize = round_up(self.size, next.align);
        let limit: usize = (isize::MAX as usize) + 1 - align;
        if next.size > limit || offset > limit - next.size {
            return None;
        }
        let end: usize = offset + next.size;
        Some((Layout { size: round_up(end, align), align }, offset))
    }
}

/// What follows in a joint layout is aligned as it has to be, if the whole is: its offset is a
/// multiple of its alignment.
pub proof fn law_offset_is_aligned(first: Layout, next: Layout)
    requires
        next.align > 0,
    ensures
        first.spec_offset(next) % (next.align as int) == 0,
        first.size <= first.spec_offset(next) < first.size + next.align,
{
    let size = first.size as int;
    let align = next.align as int;
    let rest = size % align;
    if rest != 0 {
        assert((size + (align - rest)) % align == 0) by (nonlinear_arith)
            requires
                align > 0,
                rest == size % align,
                0 <= size,
        ;
    }
    assert(0 <= rest < align) by (nonlinear_arith)
        requires
            align > 0,
            rest == size % align,
    ;
}

/// The blocks of the classes are 32 bytes, and twice as large from each class to the next.
pub proof fn law_classes_double(class: int)
    requires
        0 <= class,
    ensures
        class_size(class) == 32 * pow2(class as nat),
    decreases class,
{
    if class == 0 {
        vstd::arithmetic::power2::lemma2_to64();
    } else {
        law_classes_double(class - 1);
        vstd::arithmetic::power2::lemma_pow2_unfold(class as nat);
    }
}

/// The class of a size is the only one whose blocks are large enough while those of the class before
/// are not; no block is more than twice as large as what it is for, but for the smallest.
pub proof fn law_class_is_tight(size: int, class: int)
    requires
        0 < size <= 32_768,
    ensures
        spec_class_of(size) == class <==> {
            &&& 0 <= class <= 10
            &&& size <= 32 * pow2(class as nat)
            &&& class == 0 || 32 * pow2((class - 1) as nat) < size
        },
        0 <= spec_class_of(size) <= 10,
        spec_class_of(size) > 0 ==> class_size(spec_class_of(size)) < 2 * size,
{
    let found = spec_class_of(size);
    law_class_exists(size);
    law_classes_double(found);
    if found > 0 {
        law_classes_double(found - 1);
    }
    if 0 <= class <= 10 {
        law_classes_double(class);
        if class > 0 {
            law_classes_double(class - 1);
        }
        if size <= 32 * pow2(class as nat) && (class == 0 || 32 * pow2((class - 1) as nat) < size) {
            assert(is_class_of(size, class));
            law_class_is_unique(size, class, found);
        }
    }
}

/// Rounding up gives the first multiple that is not below the value.
pub proof fn law_rounding_is_up(value: int, align: int, other: int)
    requires
        0 <= value,
        0 < align,
    ensures
        rounded_up(value, align) % align == 0,
        value <= rounded_up(value, align) < value + align,
        other % align == 0 && value <= other ==> rounded_up(value, align) <= other,
{
    let rounded = rounded_up(value, align);
    let rest = value % align;
    assert(0 <= rest < align) by (nonlinear_arith)
        requires
            0 < align,
            rest == value % align,
    ;
    if rest != 0 {
        assert((value + (align - rest)) % align == 0) by (nonlinear_arith)
            requires
                0 < align,
                rest == value % align,
                0 <= value,
        ;
    }
    if other % align == 0 && value <= other && other < rounded {
        assert(other == align * (other / align)) by (nonlinear_arith)
            requires
                0 < align,
                other % align == 0,
        ;
        assert(rounded == align * (rounded / align)) by (nonlinear_arith)
            requires
                0 < align,
                rounded % align == 0,
        ;
        assert(rounded - other >= align) by (nonlinear_arith)
            requires
                0 < align,
                other < rounded,
                other == align * (other / align),
                rounded == align * (rounded / align),
        ;
    }
}

/// A layout that fits either of two is large enough and aligned strictly enough for both, and no more
/// than one of them asks for.
pub proof fn law_either_fits_both(a: Layout, b: Layout)
    ensures
        ({
            let both = a.spec_either(b);
            &&& a.size <= both.size && b.size <= both.size
            &&& a.align <= both.align && b.align <= both.align
            &&& both.size == a.size || both.size == b.size
            &&& both.align == a.align || both.align == b.align
        }),
        max_of(a.size, b.size) >= a.size && max_of(a.size, b.size) >= b.size,
        max_of(a.size, b.size) == a.size || max_of(a.size, b.size) == b.size,
{
}

/// What follows a layout begins at the first place behind it that is aligned as it has to be, and ends
/// where it is large enough.
pub proof fn law_next_follows_closely(first: Layout, next: Layout, other: int)
    requires
        0 < next.align,
    ensures
        first.spec_end(next) - first.spec_offset(next) == next.size,
        first.size <= first.spec_offset(next),
        first.spec_offset(next) % (next.align as int) == 0,
        other % (next.align as int) == 0 && first.size <= other ==> first.spec_offset(next) <= other,
{
    law_rounding_is_up(first.size as int, next.align as int, other);
}

/// A layout is one that memory can have exactly if it is aligned to something and, rounded up to that,
/// not larger than memory can be.
pub proof fn law_valid_layout_can_be(layout: Layout)
    ensures
        layout.valid() <==> layout.align >= 1 && layout.size <= isize::MAX - (layout.align - 1),
{
}

} // verus!
