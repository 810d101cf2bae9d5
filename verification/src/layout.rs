//! # Data layouts
//!
//! How the data behind a reference is laid out, the layouts of the integer
//! types, of arrays, slices and references to them, and the conversions
//! between layouts of any size and layouts of a known size.
use vstd::prelude::*;

verus! {

#[verifier::external_type_specification]
#[verifier::external_body]
pub struct ExLayout(core::alloc::Layout);

/// The layout of a reference's target, and whether the reference is shared
/// or unique.
#[derive(Debug, Eq, PartialEq)]
pub enum ReferenceLayout {
    Shared(DataLayout),
    Unique(DataLayout),
}

/// The layout of data of any size.
#[derive(Debug, Eq, PartialEq)]
pub enum DataLayout {
    Array(ArrayLayout),
    Block(core::alloc::Layout),
    Slice(SliceLayout),
    Struct(StructLayout),
    Unit,
}

/// The layout of data whose size is known.
#[derive(Debug, Eq, PartialEq)]
pub enum SizedDataLayout {
    Array(ArrayLayout),
    Block(core::alloc::Layout),
    Struct(StructLayout),
    Unit,
}

#[derive(Debug, Eq, PartialEq)]
pub struct ArrayLayout {
    pub length: usize,
    pub element_layout: Box<SizedDataLayout>,
}

#[derive(Debug, Eq, PartialEq)]
pub struct SliceLayout {
    pub element_layout: SizedDataLayout,
}

#[derive(Debug, Eq, PartialEq)]
pub struct StructLayout {
    pub layout: core::alloc::Layout,
    pub fields: Vec<DataLayout>,
}

#[derive(Debug, Eq, PartialEq)]
pub struct FieldLayout {
    pub layout: core::alloc::Layout,
    pub offset: usize,
}

/// The layout of known size that `d` is, if its size is known: every layout
/// but a slice's.
pub open spec fn sized_of(d: DataLayout) -> Option<SizedDataLayout> {
    match d {
        DataLayout::Array(l) => Some(SizedDataLayout::Array(l)),
        DataLayout::Block(l) => Some(SizedDataLayout::Block(l)),
        DataLayout::Slice(_) => None,
        DataLayout::Struct(l) => Some(SizedDataLayout::Struct(l)),
        DataLayout::Unit => Some(SizedDataLayout::Unit),
    }
}

/// The layout of any size that `s` is.
pub open spec fn unsized_of(s: SizedDataLayout) -> DataLayout {
    match s {
        SizedDataLayout::Array(l) => DataLayout::Array(l),
        SizedDataLayout::Block(l) => DataLayout::Block(l),
        SizedDataLayout::Struct(l) => DataLayout::Struct(l),
        SizedDataLayout::Unit => DataLayout::Unit,
    }
}

impl DataLayout {
    /// This layout as one of known size; `None` for a slice.
    pub fn to_sized(self) -> (r: Option<SizedDataLayout>)
        ensures
            r == sized_of(self),
    {
        match self {
            Self::Array(layout) => Some(SizedDataLayout::Array(layout)),
            Self::Block(layout) => Some(SizedDataLayout::Block(layout)),
            Self::Slice(_layout) => None,
            Self::Struct(layout) => Some(SizedDataLayout::Struct(layout)),
            Self::Unit => Some(SizedDataLayout::Unit),
        }
    }
}

impl SizedDataLayout {
    /// This layout as one of any size.
    pub fn to_unsized(self) -> (r: DataLayout)
        ensures
            r == unsized_of(self),
    {
        match self {
            Self::Array(layout) => DataLayout::Array(layout),
            Self::Block(layout) => DataLayout::Block(layout),
            Self::Struct(layout) => DataLayout::Struct(layout),
            Self::Unit => DataLayout::Unit,
        }
    }
}

/// A layout of known size, taken as one of any size, is still of known size
/// and the same; a layout of any size that is of known size, taken back as
/// one of any size, is the same.
pub proof fn lemma_sized_round_trip(s: SizedDataLayout, d: DataLayout)
    ensures
        sized_of(unsized_of(s)) == Some(s),
        sized_of(d) matches Some(t) ==> unsized_of(t) == d,
        sized_of(d) is None <==> d is Slice,
{
}

/// The layout with size `size` and alignment `align`: what
/// `core::alloc::Layout::new` gives for a type of that size and alignment.
pub uninterp spec fn layout_with(size: nat, align: nat) -> core::alloc::Layout;

/// `core::alloc::Layout::new::<T>()`: the layout of a value of type `T`, of
/// its size and alignment (two layouts with the same size and alignment are
/// equal). The layout itself is named, not stated.
#[verifier::external_body]
fn layout_new<T>() -> (r: core::alloc::Layout)
    ensures
        r == layout_with(vstd::layout::size_of::<T>(), vstd::layout::align_of::<T>()),
{
    core::alloc::Layout::new::<T>()
}

/// A type whose values have a known size, with the layout of a value.
pub trait SizedDataType: Sized {
    /// The layout of a value of this type.
    spec fn spec_sized_layout() -> SizedDataLayout;

    /// The layout of a value of this type.
    fn sized_layout() -> (r: SizedDataLayout)
        ensures
            r == Self::spec_sized_layout(),
    ;
}

/// A type with the layout of its values.
pub trait DataType {
    /// The layout of a value of this type.
    spec fn spec_data_layout() -> DataLayout;

    /// The layout of a value of this type.
    fn data_layout() -> (r: DataLayout)
        ensures
            r == Self::spec_data_layout(),
    ;
}

/// A reference type, with the layout of its target and whether it is shared
/// or unique.
pub trait ReferenceType {
    /// The layout behind a reference of this type.
    spec fn spec_reference_layout() -> ReferenceLayout;

    /// The layout behind a reference of this type.
    fn reference_layout() -> (r: ReferenceLayout)
        ensures
            r == Self::spec_reference_layout(),
    ;
}

impl<T: ?Sized + DataType> ReferenceType for &T {
    open spec fn spec_reference_layout() -> ReferenceLayout {
        ReferenceLayout::Shared(T::spec_data_layout())
    }

    fn reference_layout() -> (r: ReferenceLayout) {
        ReferenceLayout::Shared(T::data_layout())
    }
}

impl<T: ?Sized + DataType> ReferenceType for &mut T {
    open spec fn spec_reference_layout() -> ReferenceLayout {
        ReferenceLayout::Unique(T::spec_data_layout())
    }

    fn reference_layout() -> (r: ReferenceLayout) {
        ReferenceLayout::Unique(T::data_layout())
    }
}

impl<T: SizedDataType> DataType for T {
    open spec fn spec_data_layout() -> DataLayout {
        unsized_of(T::spec_sized_layout())
    }

    fn data_layout() -> (r: DataLayout) {
        T::sized_layout().to_unsized()
    }
}

impl<T: SizedDataType> DataType for [T] {
    open spec fn spec_data_layout() -> DataLayout {
        DataLayout::Slice(SliceLayout { element_layout: T::spec_sized_layout() })
    }

    fn data_layout() -> (r: DataLayout) {
        DataLayout::Slice(SliceLayout { element_layout: T::sized_layout() })
    }
}

impl<T: SizedDataType, const N: usize> SizedDataType for [T; N] {
    open spec fn spec_sized_layout() -> SizedDataLayout {
        SizedDataLayout::Array(ArrayLayout { length: N, element_layout: Box::new(T::spec_sized_layout()) })
    }

    fn sized_layout() -> (r: SizedDataLayout) {
        SizedDataLayout::Array(ArrayLayout { length: N, element_layout: Box::new(T::sized_layout()) })
    }
}

impl SizedDataType for u8 {
    open spec fn spec_sized_layout() -> SizedDataLayout {
        SizedDataLayout::Block(layout_with(vstd::layout::size_of::<u8>(), vstd::layout::align_of::<u8>()))
    }

    fn sized_layout() -> (r: SizedDataLayout) {
        SizedDataLayout::Block(layout_new::<u8>())
    }
}

impl SizedDataType for u16 {
    open spec fn spec_sized_layout() -> SizedDataLayout {
        SizedDataLayout::Block(layout_with(vstd::layout::size_of::<u16>(), vstd::layout::align_of::<u16>()))
    }

    fn sized_layout() -> (r: SizedDataLayout) {
        SizedDataLayout::Block(layout_new::<u16>())
    }
}

impl SizedDataType for u32 {
    open spec fn spec_sized_layout() -> SizedDataLayout {
        SizedDataLayout::Block(layout_with(vstd::layout::size_of::<u32>(), vstd::layout::align_of::<u32>()))
    }

    fn sized_layout() -> (r: SizedDataLayout) {
        SizedDataLayout::Block(layout_new::<u32>())
    }
}

impl SizedDataType for u64 {
    open spec fn spec_sized_layout() -> SizedDataLayout {
        SizedDataLayout::Block(layout_with(vstd::layout::size_of::<u64>(), vstd::layout::align_of::<u64>()))
    }

    fn sized_layout() -> (r: SizedDataLayout) {
        SizedDataLayout::Block(layout_new::<u64>())
    }
}

impl SizedDataType for u128 {
    open spec fn spec_sized_layout() -> SizedDataLayout {
        SizedDataLayout::Block(layout_with(vstd::layout::size_of::<u128>(), vstd::layout::align_of::<u128>()))
    }

    fn sized_layout() -> (r: SizedDataLayout) {
        SizedDataLayout::Block(layout_new::<u128>())
    }
}

impl SizedDataType for i8 {
    open spec fn spec_sized_layout() -> SizedDataLayout {
        SizedDataLayout::Block(layout_with(vstd::layout::size_of::<i8>(), vstd::layout::align_of::<i8>()))
    }

    fn sized_layout() -> (r: SizedDataLayout) {
        SizedDataLayout::Block(layout_new::<i8>())
    }
}

impl SizedDataType for i16 {
    open spec fn spec_sized_layout() -> SizedDataLayout {
        SizedDataLayout::Block(layout_with(vstd::layout::size_of::<i16>(), vstd::layout::align_of::<i16>()))
    }

    fn sized_layout() -> (r: SizedDataLayout) {
        SizedDataLayout::Block(layout_new::<i16>())
    }
}

impl SizedDataType for i32 {
    open spec fn spec_sized_layout() -> SizedDataLayout {
        SizedDataLayout::Block(layout_with(vstd::layout::size_of::<i32>(), vstd::layout::align_of::<i32>()))
    }

    fn sized_layout() -> (r: SizedDataLayout) {
        SizedDataLayout::Block(layout_new::<i32>())
    }
}

impl SizedDataType for i64 {
    open spec fn spec_sized_layout() -> SizedDataLayout {
        SizedDataLayout::Block(layout_with(vstd::layout::size_of::<i64>(), vstd::layout::align_of::<i64>()))
    }

    fn sized_layout() -> (r: SizedDataLayout) {
        SizedDataLayout::Block(layout_new::<i64>())
    }
}

impl SizedDataType for i128 {
    open spec fn spec_sized_layout() -> SizedDataLayout {
        SizedDataLayout::Block(layout_with(vstd::layout::size_of::<i128>(), vstd::layout::align_of::<i128>()))
    }

    fn sized_layout() -> (r: SizedDataLayout) {
        SizedDataLayout::Block(layout_new::<i128>())
    }
}

} // verus!
