// Immediate mode drawing in the style of Blender's GPU module: the
// bookkeeping of vertex formats, attribute bindings and the streaming
// vertex buffer. The OpenGL calls themselves are made by the caller, which
// hands the values it gets from OpenGL in and performs what the
// functions here decide.
use vstd::prelude::*;

verus! {

/// Number of vertex attributes an attribute binding can hold.
pub const GPU_VERT_ATTR_MAX_LEN: usize = 16;

/// Size in bytes of the streaming vertex buffer unless a draw needs more.
pub const IMM_DEFAULT_BUFFER_SIZE: usize = 4194304;

#[derive(Debug, Clone, Copy, PartialEq, Eq, Structural)]
pub enum GPUVertCompType {
    I8,
    U8,
    I16,
    U16,
    I32,
    U32,
    F32,
    I10,
    Unset,
}

#[derive(Debug, Clone, Copy, PartialEq, Eq, Structural)]
pub enum GPUVertFetchMode {
    Float,
    Int,
    IntToFloatUnit,  // eg: 127 (ubyte) -> 0.5
    IntToFloat,  // eg: 127 (ubyte) -> 127.0
    Unset,
}

#[derive(Debug, Clone, Copy, PartialEq, Eq, Structural)]
pub enum GPUPrimType {
    Points,
    Lines,
    Tris,
    LineStrip,
    LineLoop,
    TriStrip,
    TriFan,
    LinesAdj,
    TrisAdj,
    LineStripAdj,
    Unset,
}

/// Size in bytes of one component of the given type.
pub open spec fn comp_size(t: GPUVertCompType) -> nat {
    match t {
        GPUVertCompType::I8 => 1,
        GPUVertCompType::U8 => 1,
        GPUVertCompType::I16 => 2,
        GPUVertCompType::U16 => 2,
        GPUVertCompType::I32 => 4,
        GPUVertCompType::U32 => 4,
        GPUVertCompType::F32 => 4,
        GPUVertCompType::I10 => 4,
        GPUVertCompType::Unset => 0,
    }
}

/// The bytes needed to move `offset` up to a multiple of `alignment`.
pub open spec fn padding_spec(offset: int, alignment: int) -> int {
    if offset % alignment == 0 {
        0
    } else {
        alignment - offset % alignment
    }
}

/// The bytes needed to move `offset` up to a multiple of `alignment`.
pub fn padding(offset: usize, alignment: usize) -> (res: usize)
    requires
        alignment > 0,
    ensures
        res == padding_spec(offset as int, alignment as int),
{
    let m = offset % alignment;
    if m == 0 {
        0
    } else {
        alignment - m
    }
}

/// Padding moves an offset to the next multiple of the alignment and
/// never by a whole alignment or more.
pub proof fn law_padding_aligns(offset: nat, alignment: nat)
    requires
        alignment > 0,
    ensures
        0 <= padding_spec(offset as int, alignment as int) < alignment,
        (offset + padding_spec(offset as int, alignment as int)) % (alignment as int) == 0,
{
    let m = offset % alignment;
    if m != 0 {
        let q = offset / alignment;
        vstd::arithmetic::div_mod::lemma_fundamental_div_mod(offset as int, alignment as int);
        assert(offset + (alignment - m) == (q + 1) * alignment) by (nonlinear_arith)
            requires
                offset == alignment * q + m,
        ;
        vstd::arithmetic::div_mod::lemma_mod_multiples_basic((q + 1) as int, alignment as int);
    }
}

/// The location bits after writing `location` for attribute `index`:
/// the four bits of that attribute replaced, all others kept.
pub open spec fn written_loc_bits(loc_bits: u64, index: u64, location: u64) -> u64 {
    (loc_bits & !(0xFu64 << (4 * index))) | (location << (4 * index))
}

/// The location stored for attribute `index` in the location bits.
pub open spec fn read_loc_bits(loc_bits: u64, index: u64) -> u64 {
    (loc_bits >> (4 * index)) & 0xFu64
}

/// Where each of up to 16 vertex attributes is bound (4 bits each) and
/// which of them are enabled (1 bit each).
#[derive(Debug, Clone, Copy)]
pub struct GPUAttrBinding {
    loc_bits: u64,
    enabled_bits: u16,
}

impl GPUAttrBinding {
    pub closed spec fn spec_loc_bits(&self) -> u64 {
        self.loc_bits
    }

    pub closed spec fn spec_enabled_bits(&self) -> u16 {
        self.enabled_bits
    }

    pub fn new() -> (res: Self)
        ensures
            res.spec_loc_bits() == 0,
            res.spec_enabled_bits() == 0,
    {
        GPUAttrBinding { loc_bits: 0, enabled_bits: 0 }
    }

    pub fn clear(&mut self)
        ensures
            final(self).spec_loc_bits() == 0,
            final(self).spec_enabled_bits() == 0,
    {
        self.loc_bits = 0;
        self.enabled_bits = 0;
    }

    /// Binds attribute `attr_index` to `location` and enables it.
    pub fn write_attr_location(&mut self, attr_index: usize, location: usize)
        requires
            attr_index < GPU_VERT_ATTR_MAX_LEN,
        ensures
            final(self).spec_loc_bits() == written_loc_bits(
                old(self).spec_loc_bits(),
                attr_index as u64,
                location as u64,
            ),
            final(self).spec_enabled_bits() == old(self).spec_enabled_bits() | (1u16 << (
            attr_index as u16)),
    {
        let shift: u64 = 4 * (attr_index as u64);
        let mask: u64 = 0xFu64 << shift;
        self.loc_bits = (self.loc_bits & !mask) | ((location as u64) << shift);
        self.enabled_bits = self.enabled_bits | (1u16 << (attr_index as u16));
    }

    /// The location attribute `attr_index` is bound to.
    pub fn read_attr_location(&self, attr_index: usize) -> (res: usize)
        requires
            attr_index < GPU_VERT_ATTR_MAX_LEN,
        ensures
            res == read_loc_bits(self.spec_loc_bits(), attr_index as u64),
    {
        let shift: u64 = 4 * (attr_index as u64);
        let all: u64 = self.loc_bits;
        let bits: u64 = (all >> shift) & 0xFu64;
        proof {
            assert(bits <= 15) by (bit_vector)
                requires
                    bits == (all >> shift) & 0xFu64,
            ;
        }
        bits as usize
    }
}

/// Reading an attribute's location gives back the location last
/// written for it (a location fits in four bits), and writing one
/// attribute leaves the locations of all other attributes unchanged.
pub proof fn law_read_after_write_location(loc_bits: u64, index: u64, other: u64, location: u64)
    requires
        index < 16,
        other < 16,
        other != index,
        location < 16,
    ensures
        read_loc_bits(written_loc_bits(loc_bits, index, location), index) == location,
        read_loc_bits(written_loc_bits(loc_bits, index, location), other) == read_loc_bits(
            loc_bits,
            other,
        ),
{
    assert(((((loc_bits & !(0xFu64 << (4 * index))) | (location << (4 * index))) >> (4 * index))
        & 0xFu64) == location) by (bit_vector)
        requires
            index < 16,
            location < 16,
    ;
    assert(((((loc_bits & !(0xFu64 << (4 * index))) | (location << (4 * index))) >> (4 * other))
        & 0xFu64) == ((loc_bits >> (4 * other)) & 0xFu64)) by (bit_vector)
        requires
            index < 16,
            other < 16,
            other != index,
            location < 16,
    ;
}

/// Size in bytes of an attribute of `comp_len` components of type `t`.
pub open spec fn attr_size_spec(t: GPUVertCompType, comp_len: nat) -> nat {
    if t == GPUVertCompType::I10 {
        4  // always packed as 10_10_10_2

    } else {
        comp_len * comp_size(t)
    }
}

/// Alignment in bytes of an attribute of `comp_len` components of type `t`.
pub open spec fn attr_align_spec(t: GPUVertCompType, comp_len: nat) -> nat {
    if t == GPUVertCompType::I10 {
        4  // always packed as 10_10_10_2

    } else if comp_len == 3 && comp_size(t) < 2 {
        4 * comp_size(t)  // AMD HW can't fetch these well, so pad it out

    } else {
        comp_size(t)  // most fetches are ok if components are naturally aligned

    }
}

/// One attribute of a vertex format.
#[derive(Debug, Clone)]
pub struct GPUVertAttr {
    pub fetch_mode: GPUVertFetchMode,
    pub comp_type: GPUVertCompType,
    pub comp_len: u8,
    pub sz: u8,
    pub offset: u8,
    pub name: String,
}

impl GPUVertAttr {
    /// The attribute's components have a type and its size matches
    /// them.
    pub open spec fn well_formed(&self) -> bool {
        &&& self.comp_type != GPUVertCompType::Unset
        &&& self.sz == attr_size_spec(self.comp_type, self.comp_len as nat)
    }

    /// The attribute's alignment.
    pub open spec fn align(&self) -> nat {
        attr_align_spec(self.comp_type, self.comp_len as nat)
    }

    pub fn new() -> (res: Self)
        ensures
            res.fetch_mode == GPUVertFetchMode::Unset,
            res.comp_type == GPUVertCompType::Unset,
            res.comp_len == 0,
            res.sz == 0,
            res.offset == 0,
            res.name@ == Seq::<char>::empty(),
    {
        GPUVertAttr {
            fetch_mode: GPUVertFetchMode::Unset,
            comp_type: GPUVertCompType::Unset,
            comp_len: 0,
            sz: 0,
            offset: 0,
            name: String::new(),
        }
    }

    /// Size in bytes of one component of type `t`.
    pub fn comp_sz(&self, t: &GPUVertCompType) -> (res: u8)
        requires
            *t != GPUVertCompType::Unset,
        ensures
            res == comp_size(*t),
    {
        match t {
            GPUVertCompType::I8 => 1,
            GPUVertCompType::U8 => 1,
            GPUVertCompType::I16 => 2,
            GPUVertCompType::U16 => 2,
            GPUVertCompType::I32 => 4,
            GPUVertCompType::U32 => 4,
            GPUVertCompType::F32 => 4,
            GPUVertCompType::I10 => 4,
            GPUVertCompType::Unset => vstd::pervasive::unreached(),
        }
    }

    /// Size in bytes of the attribute.
    pub fn attr_sz(&self) -> (res: u8)
        requires
            self.comp_type != GPUVertCompType::Unset,
            attr_size_spec(self.comp_type, self.comp_len as nat) <= u8::MAX,
        ensures
            res == attr_size_spec(self.comp_type, self.comp_len as nat),
    {
        if let GPUVertCompType::I10 = self.comp_type {
            4  // always packed as 10_10_10_2

        } else {
            self.comp_len * self.comp_sz(&self.comp_type)
        }
    }

    /// Alignment in bytes of the attribute.
    pub fn attr_align(&self) -> (res: usize)
        requires
            self.comp_type != GPUVertCompType::Unset,
        ensures
            res == self.align(),
            res >= 1,
    {
        if let GPUVertCompType::I10 = self.comp_type {
            4  // always packed as 10_10_10_2

        } else {
            let c = self.comp_sz(&self.comp_type);
            if self.comp_len == 3 && c < 2 {
                (4 * c) as usize  // AMD HW can't fetch these well, so pad it out

            } else {
                c as usize  // most fetches are ok if components are naturally aligned

            }
        }
    }
}

/// Offset in bytes of attribute `k` when the attributes are packed in
/// order, each at the next offset aligned for it.
pub open spec fn packed_offset(attrs: Seq<GPUVertAttr>, k: nat) -> int
    decreases k,
{
    if k == 0 {
        0
    } else {
        let end = packed_offset(attrs, (k - 1) as nat) + attrs[k - 1].sz;
        end + padding_spec(end, attrs[k as int].align() as int)
    }
}

/// The stride of packed attributes: the end of the last attribute
/// padded to the alignment of the first.
pub open spec fn packed_stride(attrs: Seq<GPUVertAttr>) -> int {
    let last = (attrs.len() - 1) as nat;
    let end = packed_offset(attrs, last) + attrs[last as int].sz;
    end + padding_spec(end, attrs[0].align() as int)
}

/// Packing the attributes is possible: there is one, and the offsets
/// and the stride fit their fields.
pub open spec fn packable(attrs: Seq<GPUVertAttr>) -> bool {
    &&& attrs.len() > 0
    &&& forall|k: nat| k < attrs.len() ==> #[trigger] packed_offset(attrs, k) <= u8::MAX
    &&& packed_stride(attrs) <= u16::MAX
}

/// `new` is `old` packed: the same attributes, each at its packed
/// offset, and the packed stride.
pub open spec fn is_packing_of(new: GPUVertFormat, old: GPUVertFormat) -> bool {
    &&& new.spec_packed()
    &&& new.spec_stride() == packed_stride(old.spec_attrs())
    &&& new.spec_attrs().len() == old.spec_attrs().len()
    &&& forall|k: int|
        0 <= k < new.spec_attrs().len() ==> {
            let a = #[trigger] new.spec_attrs()[k];
            let b = old.spec_attrs()[k];
            &&& a.offset == packed_offset(old.spec_attrs(), k as nat)
            &&& a == GPUVertAttr { offset: a.offset, ..b }
        }
}

/// A vertex format: its attributes, where they lie in a vertex and the
/// size of a vertex.
#[derive(Debug, Clone)]
pub struct GPUVertFormat {
    stride: u16,  // stride in bytes 1 to 1024
    packed: bool,  // has the format been packed
    attrs: Vec<GPUVertAttr>,
}

impl GPUVertFormat {
    pub closed spec fn spec_stride(&self) -> u16 {
        self.stride
    }

    pub closed spec fn spec_packed(&self) -> bool {
        self.packed
    }

    pub closed spec fn spec_attrs(&self) -> Seq<GPUVertAttr> {
        self.attrs@
    }

    /// Every attribute is well formed.
    pub open spec fn well_formed(&self) -> bool {
        forall|k: int| 0 <= k < self.spec_attrs().len() ==> #[trigger] self.spec_attrs()[k].well_formed()
    }

    pub fn new() -> (res: Self)
        ensures
            res.spec_stride() == 0,
            !res.spec_packed(),
            res.spec_attrs() == Seq::<GPUVertAttr>::empty(),
            res.well_formed(),
    {
        GPUVertFormat { stride: 0, packed: false, attrs: Vec::new() }
    }

    /// The attributes of the format.
    pub fn get_attrs(&self) -> (res: &[GPUVertAttr])
        ensures
            res@ == self.spec_attrs(),
    {
        self.attrs.as_slice()
    }

    /// The stride of the format.
    pub fn get_stride(&self) -> (res: u16)
        ensures
            res == self.spec_stride(),
    {
        self.stride
    }

    /// Whether the format has been packed since its last change.
    pub fn is_packed(&self) -> (res: bool)
        ensures
            res == self.spec_packed(),
    {
        self.packed
    }

    /// Bytes needed for `vertex_len` vertices of this format.
    pub fn vertex_buffer_size(&self, vertex_len: usize) -> (res: usize)
        requires
            self.spec_stride() * vertex_len <= usize::MAX,
        ensures
            res == self.spec_stride() * vertex_len,
    {
        self.stride as usize * vertex_len
    }

    /// Adds an attribute at the end of the format and returns its
    /// index. Its offset is set when the format is packed.
    pub fn add_attribute(
        &mut self,
        name: String,
        comp_type: GPUVertCompType,
        comp_len: usize,
        fetch_mode: GPUVertFetchMode,
    ) -> (res: usize)
        requires
            old(self).well_formed(),
            comp_type != GPUVertCompType::Unset,
            comp_len <= u8::MAX,
            attr_size_spec(comp_type, comp_len as nat) <= u8::MAX,
        ensures
            final(self).well_formed(),
            res == old(self).spec_attrs().len(),
            final(self).spec_stride() == old(self).spec_stride(),
            final(self).spec_packed() == old(self).spec_packed(),
            final(self).spec_attrs() == old(self).spec_attrs().push(
                GPUVertAttr {
                    fetch_mode,
                    comp_type,
                    comp_len: if comp_type == GPUVertCompType::I10 {
                        4
                    } else {
                        comp_len as u8
                    },
                    sz: attr_size_spec(comp_type, comp_len as nat) as u8,
                    offset: 0,
                    name,
                },
            ),
    {
        let mut attr = GPUVertAttr::new();
        attr.name = name;
        attr.comp_type = comp_type;
        attr.comp_len = comp_len as u8;
        if let GPUVertCompType::I10 = attr.comp_type {
            attr.comp_len = 4;
        }
        attr.sz = attr.attr_sz();
        attr.offset = 0;  // will be calculated during pack()
        attr.fetch_mode = fetch_mode;
        self.attrs.push(attr);
        proof {
            assert forall|k: int| 0 <= k < self.attrs@.len() implies #[trigger] self.attrs@[k].well_formed() by {
                if k < old(self).spec_attrs().len() {
                    assert(old(self).spec_attrs()[k].well_formed());
                }
            }
        }
        self.attrs.len() - 1
    }

    /// Removes all attributes; the format must be packed again.
    pub fn clear(&mut self)
        ensures
            final(self).well_formed(),
            final(self).spec_attrs() == Seq::<GPUVertAttr>::empty(),
            !final(self).spec_packed(),
            final(self).spec_stride() == old(self).spec_stride(),
    {
        self.attrs.clear();
        self.packed = false;
    }

    /// The stride that packing would give, when the attributes can be
    /// packed: there is at least one, and every packed offset fits in a
    /// byte and the stride in 16 bits. `None` when they cannot.
    pub fn packing_stride(&self) -> (res: Option<u16>)
        requires
            self.well_formed(),
        ensures
            res is Some <==> packable(self.spec_attrs()),
            res matches Some(stride) ==> stride == packed_stride(self.spec_attrs()),
    {
        let ghost attrs = self.attrs@;
        assert forall|m: int| 0 <= m < attrs.len() implies #[trigger] attrs[m].well_formed() by {
            assert(self.spec_attrs()[m].well_formed());
        }
        let n = self.attrs.len();
        if n == 0 {
            return None;
        }
        let mut offset: usize = 0;
        let mut k: usize = 0;
        while k < n
            invariant
                attrs == self.attrs@,
                n == attrs.len(),
                n > 0,
                forall|m: int| 0 <= m < attrs.len() ==> #[trigger] attrs[m].well_formed(),
                k <= n,
                k > 0 ==> offset == packed_offset(attrs, (k - 1) as nat) + attrs[k - 1].sz,
                k == 0 ==> offset == 0,
                offset <= 510,
                forall|m: nat| m < k ==> #[trigger] packed_offset(attrs, m) <= u8::MAX,
            decreases n - k,
        {
            let a = &self.attrs[k];
            assert(attrs[k as int].well_formed());
            let start: usize = if k == 0 {
                0
            } else {
                let align = a.attr_align();
                proof {
                    law_padding_aligns(offset as nat, align as nat);
                }
                offset + padding(offset, align)
            };
            assert(start == packed_offset(attrs, k as nat));
            if start > 255 {
                assert(!packable(attrs));
                return None;
            }
            offset = start + a.sz as usize;
            k = k + 1;
        }
        assert(attrs[0].well_formed());
        let align0 = self.attrs[0].attr_align();
        proof {
            law_padding_aligns(offset as nat, align0 as nat);
        }
        let end = offset + padding(offset, align0);
        assert(end == packed_stride(attrs));
        if end <= 65535 {
            Some(end as u16)
        } else {
            None
        }
    }

    /// Lays the attributes out in the order they were added, each at
    /// the next offset aligned for it, and sets the stride.
    pub fn pack(&mut self)
        requires
            old(self).well_formed(),
            packable(old(self).spec_attrs()),
        ensures
            final(self).well_formed(),
            is_packing_of(*final(self), *old(self)),
    {
        let ghost attrs0 = self.attrs@;
        let n = self.attrs.len();
        let mut attrs: Vec<GPUVertAttr> = Vec::new();
        std::mem::swap(&mut attrs, &mut self.attrs);
        let mut packed_attrs: Vec<GPUVertAttr> = Vec::with_capacity(n);
        let mut offset: usize = 0;
        let mut k: usize = 0;
        assert(attrs@.subrange(0, n as int) =~= attrs0);
        while k < n
            invariant
                attrs@ == attrs0.subrange(k as int, n as int),
                n == attrs0.len(),
                packable(attrs0),
                forall|m: int| 0 <= m < attrs0.len() ==> #[trigger] attrs0[m].well_formed(),
                k <= n,
                packed_attrs@.len() == k,
                k > 0 ==> offset == packed_offset(attrs0, (k - 1) as nat) + attrs0[k - 1].sz,
                k == 0 ==> offset == 0,
                forall|m: int|
                    0 <= m < k ==> {
                        let a = #[trigger] packed_attrs@[m];
                        &&& a.offset == packed_offset(attrs0, m as nat)
                        &&& a == GPUVertAttr { offset: a.offset, ..attrs0[m] }
                    },
            decreases n - k,
        {
            let mut a = attrs.remove(0);
            assert(a == attrs0[k as int]);
            assert(attrs@ =~= attrs0.subrange(k + 1, n as int));
            assert(a.well_formed());
            if k > 0 {
                let mid_padding = padding(offset, a.attr_align());
                offset = offset + mid_padding;
            }
            assert(offset == packed_offset(attrs0, k as nat));
            assert(packed_offset(attrs0, k as nat) <= u8::MAX);
            a.offset = offset as u8;
            offset = offset + a.sz as usize;
            packed_attrs.push(a);
            k = k + 1;
        }
        proof {
            assert(packed_attrs@[0] == GPUVertAttr { offset: packed_attrs@[0].offset, ..attrs0[0] });
            assert forall|m: int| 0 <= m < packed_attrs@.len() implies #[trigger] packed_attrs@[m].well_formed() by {
                assert(packed_attrs@[m] == GPUVertAttr { offset: packed_attrs@[m].offset, ..attrs0[m] });
                assert(attrs0[m].well_formed());
            }
            assert(packed_attrs@[0].well_formed());
        }
        let end_padding = padding(offset, packed_attrs[0].attr_align());
        self.stride = (offset + end_padding) as u16;
        self.attrs = packed_attrs;
        self.packed = true;
    }
}

/// Packing places every attribute at an offset aligned for it, after
/// the end of the attribute before it, and the stride is a multiple of
/// the first attribute's alignment past the end of the last one.
pub proof fn law_packing_is_aligned(attrs: Seq<GPUVertAttr>, k: nat)
    requires
        attrs.len() > 0,
        forall|m: int| 0 <= m < attrs.len() ==> #[trigger] attrs[m].well_formed(),
        k < attrs.len(),
    ensures
        packed_offset(attrs, k) % (attrs[k as int].align() as int) == 0,
        k > 0 ==> packed_offset(attrs, k) >= packed_offset(attrs, (k - 1) as nat)
            + attrs[k - 1].sz,
        packed_stride(attrs) % (attrs[0].align() as int) == 0,
        packed_stride(attrs) >= packed_offset(attrs, (attrs.len() - 1) as nat)
            + attrs[attrs.len() - 1].sz,
{
    assert(attrs[k as int].well_formed());
    assert(attrs[0].well_formed());
    lemma_align_positive(attrs[k as int]);
    lemma_align_positive(attrs[0]);
    if k > 0 {
        lemma_packed_offset_nonneg(attrs, (k - 1) as nat);
        let end = packed_offset(attrs, (k - 1) as nat) + attrs[k - 1].sz;
        law_padding_aligns(end as nat, attrs[k as int].align());
    } else {
        vstd::arithmetic::div_mod::lemma_small_mod(0, attrs[0].align());
    }
    let last = (attrs.len() - 1) as nat;
    lemma_packed_offset_nonneg(attrs, last);
    let end = packed_offset(attrs, last) + attrs[last as int].sz;
    law_padding_aligns(end as nat, attrs[0].align());
}

/// Packed attributes lie inside one vertex: every attribute ends at or
/// before the stride, so the bytes of a vertex's attributes never reach
/// into the next vertex.
pub proof fn law_attributes_fit_in_vertex(attrs: Seq<GPUVertAttr>, k: nat)
    requires
        attrs.len() > 0,
        forall|m: int| 0 <= m < attrs.len() ==> #[trigger] attrs[m].well_formed(),
        k < attrs.len(),
    ensures
        0 <= packed_offset(attrs, k),
        packed_offset(attrs, k) + attrs[k as int].sz <= packed_stride(attrs),
    decreases attrs.len() - k,
{
    lemma_packed_offset_nonneg(attrs, k);
    if k + 1 < attrs.len() {
        law_attributes_fit_in_vertex(attrs, k + 1);
        law_packing_is_aligned(attrs, k + 1);
    } else {
        law_packing_is_aligned(attrs, k);
    }
}

proof fn lemma_align_positive(a: GPUVertAttr)
    requires
        a.well_formed(),
    ensures
        a.align() >= 1,
{
}

proof fn lemma_packed_offset_nonneg(attrs: Seq<GPUVertAttr>, k: nat)
    requires
        k < attrs.len(),
        forall|m: int| 0 <= m < attrs.len() ==> #[trigger] attrs[m].well_formed(),
    ensures
        packed_offset(attrs, k) >= 0,
    decreases k,
{
    if k > 0 {
        lemma_packed_offset_nonneg(attrs, (k - 1) as nat);
        assert(attrs[k as int].well_formed());
        lemma_align_positive(attrs[k as int]);
        let end = packed_offset(attrs, (k - 1) as nat) + attrs[k - 1].sz;
        law_padding_aligns(end as nat, attrs[k as int].align());
    }
}

/// Whether bit `loc` of `bits` is set.
pub open spec fn bit_set(bits: u16, loc: u16) -> bool {
    (bits & (1u16 << loc)) != 0
}

/// The vertex attribute arrays to enable (`true`) or disable (`false`)
/// to go from the enabled set `was` to `is`, by increasing location
/// from `loc` on.
pub open spec fn attr_toggles(is: u16, was: u16, loc: nat) -> Seq<(usize, bool)>
    decreases 16 - loc,
{
    if loc >= 16 {
        Seq::empty()
    } else {
        let rest = attr_toggles(is, was, loc + 1);
        if bit_set(is, loc as u16) && !bit_set(was, loc as u16) {
            seq![(loc as usize, true)] + rest
        } else if bit_set(was, loc as u16) && !bit_set(is, loc as u16) {
            seq![(loc as usize, false)] + rest
        } else {
            rest
        }
    }
}

/// How one attribute is fed to OpenGL when drawing: its location, its
/// components, whether it is read as normalized or as integers, the
/// stride and its byte offset into the buffer.
#[derive(Debug, Clone, Copy, PartialEq, Eq, Structural)]
pub struct AttribPointer {
    pub location: usize,
    pub comp_len: u8,
    pub comp_type: GPUVertCompType,
    pub normalized: bool,
    pub integer: bool,
    pub stride: u16,
    pub offset: usize,
}

/// What `begin` asks of the caller: whether to allocate a new buffer
/// store of `buffer_size` bytes, then to map `bytes` bytes at `offset`,
/// with explicit flushing when the number of vertices is an upper bound.
#[derive(Debug, Clone, Copy, PartialEq, Eq, Structural)]
pub struct BeginPlan {
    pub reallocate: bool,
    pub buffer_size: usize,
    pub offset: usize,
    pub bytes: usize,
    pub explicit_flush: bool,
}

/// What `end` asks of the caller: the bytes to flush (when the number
/// of vertices was an upper bound), then, when there is something to
/// draw, the arrays to enable or disable, the attribute pointers, the
/// primitive type and the number of vertices.
#[derive(Debug, Clone)]
pub struct EndPlan {
    pub flush_bytes: Option<usize>,
    pub draw: bool,
    pub toggles: Vec<(usize, bool)>,
    pub pointers: Vec<AttribPointer>,
    pub prim_type: GPUPrimType,
    pub vertex_count: usize,
}

/// The pointer of an attribute for drawing, as `draw_setup` computes it.
pub open spec fn attrib_pointer_spec(
    a: GPUVertAttr,
    location: usize,
    stride: u16,
    buffer_offset: usize,
) -> AttribPointer {
    AttribPointer {
        location,
        comp_len: a.comp_len,
        comp_type: a.comp_type,
        normalized: a.fetch_mode == GPUVertFetchMode::IntToFloatUnit,
        integer: a.fetch_mode == GPUVertFetchMode::Int,
        stride,
        offset: (buffer_offset + a.offset) as usize,
    }
}

/// The location bits after binding attributes `0..k` to `locations`.
pub open spec fn bound_loc_bits(locations: Seq<usize>, k: nat) -> u64
    decreases k,
{
    if k == 0 {
        0
    } else {
        written_loc_bits(
            bound_loc_bits(locations, (k - 1) as nat),
            (k - 1) as u64,
            locations[k - 1] as u64,
        )
    }
}

/// The enabled bits after binding attributes `0..k`.
pub open spec fn bound_enabled_bits(k: nat) -> u16
    decreases k,
{
    if k == 0 {
        0
    } else {
        bound_enabled_bits((k - 1) as nat) | (1u16 << ((k - 1) as u16))
    }
}

/// Where `begin` places the vertices: the new buffer size, whether a
/// new buffer store is needed and the offset of the mapped range.
pub open spec fn plan_buffer(
    buffer_size: usize,
    buffer_offset: usize,
    bytes_needed: usize,
    stride: usize,
) -> (usize, bool, usize) {
    let available = buffer_size - buffer_offset;
    let (size, recreate) = if bytes_needed > buffer_size {
        (bytes_needed, true)
    } else if bytes_needed < IMM_DEFAULT_BUFFER_SIZE && buffer_size > IMM_DEFAULT_BUFFER_SIZE {
        (IMM_DEFAULT_BUFFER_SIZE, true)
    } else {
        (buffer_size, false)
    };
    let pre_padding = padding_spec(buffer_offset as int, stride as int);
    if !recreate && bytes_needed + pre_padding <= available {
        (size, false, (buffer_offset + pre_padding) as usize)
    } else {
        (size, true, 0)
    }
}

/// The (offset, size) of each attribute among `attrs[k..]` that has no
/// value yet for the current vertex (its bit is set in `unassigned`),
/// so that it takes the previous vertex's value.
pub open spec fn attr_copies(attrs: Seq<GPUVertAttr>, unassigned: u16, k: nat) -> Seq<(usize, usize)>
    decreases attrs.len() - k,
{
    if k >= attrs.len() {
        Seq::empty()
    } else {
        let rest = attr_copies(attrs, unassigned, k + 1);
        if (unassigned >> (k as u16)) & 1u16 != 0 {
            seq![(attrs[k as int].offset as usize, attrs[k as int].sz as usize)] + rest
        } else {
            rest
        }
    }
}

/// The state of an immediate mode drawing session: the streaming
/// buffer, the current vertex format and the vertices written so far.
/// The buffer itself and the OpenGL objects are held by the caller.
#[derive(Debug, Clone)]
pub struct GPUImmediateState {
    buffer_offset: usize,
    buffer_bytes_mapped: usize,
    vertex_len: usize,
    strict_vertex_len: bool,
    prim_type: GPUPrimType,
    buffer_size: usize,
    vertex_format: GPUVertFormat,
    vertex_idx: usize,
    unassigned_attr_bits: u16,  // which attributes of the current vertex have not been given values
    attr_binding: GPUAttrBinding,
    prev_enabled_attr_bits: u16,  // affects only this vao
}

impl GPUImmediateState {
    pub closed spec fn spec_buffer_offset(&self) -> usize {
        self.buffer_offset
    }

    pub closed spec fn spec_buffer_bytes_mapped(&self) -> usize {
        self.buffer_bytes_mapped
    }

    pub closed spec fn spec_vertex_len(&self) -> usize {
        self.vertex_len
    }

    pub closed spec fn spec_strict_vertex_len(&self) -> bool {
        self.strict_vertex_len
    }

    pub closed spec fn spec_prim_type(&self) -> GPUPrimType {
        self.prim_type
    }

    pub closed spec fn spec_buffer_size(&self) -> usize {
        self.buffer_size
    }

    pub closed spec fn spec_vertex_format(&self) -> GPUVertFormat {
        self.vertex_format
    }

    pub closed spec fn spec_vertex_idx(&self) -> usize {
        self.vertex_idx
    }

    pub closed spec fn spec_unassigned_attr_bits(&self) -> u16 {
        self.unassigned_attr_bits
    }

    pub closed spec fn spec_attr_binding(&self) -> GPUAttrBinding {
        self.attr_binding
    }

    pub closed spec fn spec_prev_enabled_attr_bits(&self) -> u16 {
        self.prev_enabled_attr_bits
    }

    /// The same state with another vertex format.
    pub closed spec fn with_vertex_format(self, vertex_format: GPUVertFormat) -> Self {
        GPUImmediateState { vertex_format, ..self }
    }

    /// The same state with other unassigned attribute bits.
    pub closed spec fn with_unassigned_attr_bits(self, bits: u16) -> Self {
        GPUImmediateState { unassigned_attr_bits: bits, ..self }
    }

    /// The same state moved on to the next vertex, whose attributes all
    /// await values.
    pub closed spec fn with_next_vertex(self) -> Self {
        GPUImmediateState {
            vertex_idx: (self.vertex_idx + 1) as usize,
            unassigned_attr_bits: self.attr_binding.enabled_bits,
            ..self
        }
    }

    /// The buffer bookkeeping is consistent: the write offset lies in
    /// the buffer and, while drawing, the mapped range fits after it and
    /// holds exactly the promised vertices.
    pub open spec fn well_formed(&self) -> bool {
        &&& self.spec_vertex_format().well_formed()
        &&& self.spec_buffer_offset() <= self.spec_buffer_size()
        &&& self.spec_prim_type() != GPUPrimType::Unset ==> {
            &&& self.spec_buffer_offset() + self.spec_buffer_bytes_mapped()
                <= self.spec_buffer_size()
            &&& self.spec_buffer_bytes_mapped() == self.spec_vertex_format().spec_stride()
                * self.spec_vertex_len()
        }
    }

    /// A fresh state with an empty format and a buffer of the default
    /// size, not drawing.
    pub fn new() -> (res: Self)
        ensures
            res.well_formed(),
            res.spec_buffer_offset() == 0,
            res.spec_buffer_bytes_mapped() == 0,
            res.spec_vertex_len() == 0,
            res.spec_strict_vertex_len(),
            res.spec_prim_type() == GPUPrimType::Unset,
            res.spec_buffer_size() == IMM_DEFAULT_BUFFER_SIZE,
            res.spec_vertex_format().spec_attrs() == Seq::<GPUVertAttr>::empty(),
            !res.spec_vertex_format().spec_packed(),
            res.spec_vertex_format().spec_stride() == 0,
            res.spec_vertex_idx() == 0,
            res.spec_unassigned_attr_bits() == 0,
            res.spec_attr_binding().spec_loc_bits() == 0,
            res.spec_attr_binding().spec_enabled_bits() == 0,
            res.spec_prev_enabled_attr_bits() == 0,
    {
        GPUImmediateState {
            buffer_offset: 0,
            buffer_bytes_mapped: 0,
            vertex_len: 0,
            strict_vertex_len: true,
            prim_type: GPUPrimType::Unset,
            buffer_size: IMM_DEFAULT_BUFFER_SIZE,
            vertex_format: GPUVertFormat::new(),
            vertex_idx: 0,
            unassigned_attr_bits: 0,
            attr_binding: GPUAttrBinding::new(),
            prev_enabled_attr_bits: 0,
        }
    }

    /// The stride that `begin` will use: the current one when the format
    /// is packed, else the one packing will give.
    pub open spec fn stride_for_begin(&self) -> int {
        if self.spec_vertex_format().spec_packed() {
            self.spec_vertex_format().spec_stride() as int
        } else {
            packed_stride(self.spec_vertex_format().spec_attrs())
        }
    }

    /// `after` is `before` once a primitive of `vertex_len` vertices of
    /// `prim_type` has begun with the attribute locations
    /// `attr_locations`, and `res` is what the caller is asked to do.
    pub open spec fn begins(
        before: Self,
        after: Self,
        prim_type: GPUPrimType,
        vertex_len: usize,
        attr_locations: Seq<usize>,
        res: BeginPlan,
        explicit_flush: bool,
    ) -> bool {
        let bytes = before.stride_for_begin() * vertex_len;
        let plan = plan_buffer(
            before.spec_buffer_size(),
            before.spec_buffer_offset(),
            bytes as usize,
            before.stride_for_begin() as usize,
        );
        &&& after.well_formed()
        &&& before.spec_vertex_format().spec_packed() ==> after.spec_vertex_format()
            == before.spec_vertex_format()
        &&& !before.spec_vertex_format().spec_packed() ==> is_packing_of(
            after.spec_vertex_format(),
            before.spec_vertex_format(),
        )
        &&& after.spec_attr_binding().spec_loc_bits() == bound_loc_bits(
            attr_locations,
            attr_locations.len() as nat,
        )
        &&& after.spec_attr_binding().spec_enabled_bits() == bound_enabled_bits(
            attr_locations.len() as nat,
        )
        &&& after.spec_prim_type() == prim_type
        &&& after.spec_vertex_len() == vertex_len
        &&& after.spec_vertex_idx() == 0
        &&& after.spec_unassigned_attr_bits() == bound_enabled_bits(attr_locations.len() as nat)
        &&& after.spec_buffer_bytes_mapped() == bytes
        &&& after.spec_buffer_size() == plan.0
        &&& after.spec_buffer_offset() == plan.2
        &&& res == BeginPlan {
            reallocate: plan.1,
            buffer_size: plan.0,
            offset: plan.2,
            bytes: bytes as usize,
            explicit_flush,
        }
        &&& after.spec_prev_enabled_attr_bits() == before.spec_prev_enabled_attr_bits()
    }

    /// Starts drawing `vertex_len` vertices of primitive `prim_type`.
    /// `attr_locations` gives, for each attribute of the format, its
    /// location in the shader. Packs the format when needed, binds the
    /// attributes and decides where in the buffer the vertices go.
    pub fn begin(&mut self, prim_type: GPUPrimType, vertex_len: usize, attr_locations: &[usize]) -> (res: BeginPlan)
        requires
            old(self).well_formed(),
            vertex_len != 0,
            !old(self).spec_vertex_format().spec_packed() ==> packable(
                old(self).spec_vertex_format().spec_attrs(),
            ),
            attr_locations@.len() == old(self).spec_vertex_format().spec_attrs().len(),
            attr_locations@.len() <= GPU_VERT_ATTR_MAX_LEN,
            old(self).stride_for_begin() > 0,
            old(self).stride_for_begin() * vertex_len <= usize::MAX,
        ensures
            Self::begins(
                *old(self),
                *final(self),
                prim_type,
                vertex_len,
                attr_locations@,
                res,
                !old(self).spec_strict_vertex_len(),
            ),
            final(self).spec_strict_vertex_len() == old(self).spec_strict_vertex_len(),
            ({
                let bytes = old(self).stride_for_begin() * vertex_len;
                res.buffer_size == (if bytes > old(self).spec_buffer_size() {
                    bytes
                } else if bytes < IMM_DEFAULT_BUFFER_SIZE && old(self).spec_buffer_size()
                    > IMM_DEFAULT_BUFFER_SIZE {
                    IMM_DEFAULT_BUFFER_SIZE as int
                } else {
                    old(self).spec_buffer_size() as int
                })
            }),
    {
        if !self.vertex_format.packed {
            self.vertex_format.pack();
        }
        self.attr_binding.clear();
        let ghost s1 = *self;
        assert(self.vertex_format.stride == old(self).stride_for_begin());
        let n = self.vertex_format.attrs.len();
        let mut attr_index: usize = 0;
        while attr_index < n
            invariant
                self.vertex_format == s1.vertex_format,
                self.buffer_size == s1.buffer_size,
                self.buffer_offset == s1.buffer_offset,
                self.strict_vertex_len == s1.strict_vertex_len,
                self.prev_enabled_attr_bits == s1.prev_enabled_attr_bits,
                n == attr_locations@.len(),
                n <= GPU_VERT_ATTR_MAX_LEN,
                attr_index <= n,
                self.attr_binding.spec_loc_bits() == bound_loc_bits(
                    attr_locations@,
                    attr_index as nat,
                ),
                self.attr_binding.spec_enabled_bits() == bound_enabled_bits(attr_index as nat),
            decreases n - attr_index,
        {
            self.attr_binding.write_attr_location(attr_index, attr_locations[attr_index]);
            attr_index = attr_index + 1;
        }
        self.prim_type = prim_type;
        self.vertex_len = vertex_len;
        self.vertex_idx = 0;
        self.unassigned_attr_bits = self.attr_binding.enabled_bits;

        let bytes_needed = self.vertex_format.vertex_buffer_size(self.vertex_len);
        proof {
            law_begin_buffer_size(
                self.buffer_size,
                self.buffer_offset,
                bytes_needed,
                self.vertex_format.stride as usize,
            );
        }
        let available_bytes = self.buffer_size - self.buffer_offset;

        let recreate_buffer;
        if bytes_needed > self.buffer_size {
            // expand buffer
            self.buffer_size = bytes_needed;
            recreate_buffer = true;
        } else if bytes_needed < IMM_DEFAULT_BUFFER_SIZE && self.buffer_size > IMM_DEFAULT_BUFFER_SIZE {
            // shrink buffer
            self.buffer_size = IMM_DEFAULT_BUFFER_SIZE;
            recreate_buffer = true;
        } else {
            // no change to size of buffer
            recreate_buffer = false;
        }

        let pre_padding = padding(self.buffer_offset, self.vertex_format.stride as usize);

        let reallocate;
        if !recreate_buffer && pre_padding <= available_bytes && bytes_needed <= available_bytes
            - pre_padding {
            self.buffer_offset = self.buffer_offset + pre_padding;
            reallocate = false;
        } else {
            // create a new buffer
            self.buffer_offset = 0;
            reallocate = true;
        }

        self.buffer_bytes_mapped = bytes_needed;
        BeginPlan {
            reallocate,
            buffer_size: self.buffer_size,
            offset: self.buffer_offset,
            bytes: bytes_needed,
            explicit_flush: !self.strict_vertex_len,
        }
    }

    /// Starts drawing at most `vertex_len` vertices of primitive
    /// `prim_type`: as `begin`, except that fewer vertices may be given
    /// before `end`, so the mapped range is flushed explicitly.
    pub fn begin_at_most(
        &mut self,
        prim_type: GPUPrimType,
        vertex_len: usize,
        attr_locations: &[usize],
    ) -> (res: BeginPlan)
        requires
            old(self).well_formed(),
            vertex_len != 0,
            !old(self).spec_vertex_format().spec_packed() ==> packable(
                old(self).spec_vertex_format().spec_attrs(),
            ),
            attr_locations@.len() == old(self).spec_vertex_format().spec_attrs().len(),
            attr_locations@.len() <= GPU_VERT_ATTR_MAX_LEN,
            old(self).stride_for_begin() > 0,
            old(self).stride_for_begin() * vertex_len <= usize::MAX,
        ensures
            Self::begins(*old(self), *final(self), prim_type, vertex_len, attr_locations@, res, true),
            !final(self).spec_strict_vertex_len(),
    {
        self.strict_vertex_len = false;
        self.begin(prim_type, vertex_len, attr_locations)
    }

    /// The attribute pointers for drawing, one per attribute of the
    /// format: its bound location, its components, how it is fetched,
    /// the stride and its offset in the buffer.
    pub open spec fn pointers_spec(&self) -> Seq<AttribPointer> {
        Seq::new(
            self.spec_vertex_format().spec_attrs().len(),
            |i: int|
                attrib_pointer_spec(
                    self.spec_vertex_format().spec_attrs()[i],
                    read_loc_bits(self.spec_attr_binding().spec_loc_bits(), i as u64) as usize,
                    self.spec_vertex_format().spec_stride(),
                    self.spec_buffer_offset(),
                ),
        )
    }

    /// What drawing needs: the attributes can be read back from the
    /// binding, each is fetched in a known way and its offset into the
    /// buffer fits.
    pub open spec fn draw_ready(&self) -> bool {
        &&& self.spec_vertex_format().spec_attrs().len() <= GPU_VERT_ATTR_MAX_LEN
        &&& forall|i: int|
            0 <= i < self.spec_vertex_format().spec_attrs().len() ==> {
                let a = #[trigger] self.spec_vertex_format().spec_attrs()[i];
                &&& a.fetch_mode != GPUVertFetchMode::Unset
                &&& self.spec_buffer_offset() + a.offset <= usize::MAX
            }
    }

    /// Brings the enabled vertex attribute arrays in line with the
    /// binding and computes the attribute pointers.
    fn draw_setup(&mut self) -> (res: (Vec<(usize, bool)>, Vec<AttribPointer>))
        requires
            old(self).draw_ready(),
        ensures
            res.0@ == (if old(self).spec_attr_binding().spec_enabled_bits()
                != old(self).spec_prev_enabled_attr_bits() {
                attr_toggles(
                    old(self).spec_attr_binding().spec_enabled_bits(),
                    old(self).spec_prev_enabled_attr_bits(),
                    0,
                )
            } else {
                Seq::empty()
            }),
            res.1@ == old(self).pointers_spec(),
            *final(self) == (GPUImmediateState {
                prev_enabled_attr_bits: old(self).attr_binding.enabled_bits,
                ..*old(self)
            }),
    {
        let mut toggles: Vec<(usize, bool)> = Vec::new();
        let enabled = self.attr_binding.enabled_bits;
        let prev = self.prev_enabled_attr_bits;
        if enabled != prev {
            let mut loc: usize = 0;
            assert(toggles@ + attr_toggles(enabled, prev, 0) =~= attr_toggles(enabled, prev, 0));
            while loc < GPU_VERT_ATTR_MAX_LEN
                invariant
                    loc <= GPU_VERT_ATTR_MAX_LEN,
                    toggles@ + attr_toggles(enabled, prev, loc as nat) == attr_toggles(
                        enabled,
                        prev,
                        0,
                    ),
                decreases GPU_VERT_ATTR_MAX_LEN - loc,
            {
                let ghost old_toggles = toggles@;
                let is_enabled: bool = (enabled & (1u16 << (loc as u16))) != 0;
                let was_enabled: bool = (prev & (1u16 << (loc as u16))) != 0;
                if is_enabled && !was_enabled {
                    toggles.push((loc, true));
                } else if was_enabled && !is_enabled {
                    toggles.push((loc, false));
                }
                assert(old_toggles + attr_toggles(enabled, prev, loc as nat) =~= toggles@
                    + attr_toggles(enabled, prev, (loc + 1) as nat));
                loc = loc + 1;
            }
            assert(attr_toggles(enabled, prev, 16) =~= Seq::<(usize, bool)>::empty());
            assert(toggles@ =~= attr_toggles(enabled, prev, 0));
            self.prev_enabled_attr_bits = enabled;
        }
        let stride = self.vertex_format.stride;
        let attrs = self.vertex_format.attrs.as_slice();
        let mut pointers: Vec<AttribPointer> = Vec::with_capacity(attrs.len());
        let mut attr_index: usize = 0;
        while attr_index < attrs.len()
            invariant
                attrs@ == old(self).spec_vertex_format().spec_attrs(),
                stride == old(self).spec_vertex_format().spec_stride(),
                old(self).draw_ready(),
                self.attr_binding == old(self).attr_binding,
                self.buffer_offset == old(self).buffer_offset,
                attr_index <= attrs@.len(),
                pointers@ == old(self).pointers_spec().subrange(0, attr_index as int),
            decreases attrs@.len() - attr_index,
        {
            let a = &attrs[attr_index];
            assert(a.fetch_mode != GPUVertFetchMode::Unset && self.buffer_offset + a.offset
                <= usize::MAX);
            let offset = self.buffer_offset + a.offset as usize;
            let loc = self.attr_binding.read_attr_location(attr_index);
            let (normalized, integer) = match a.fetch_mode {
                GPUVertFetchMode::Float | GPUVertFetchMode::IntToFloat => (false, false),
                GPUVertFetchMode::IntToFloatUnit => (true, false),
                GPUVertFetchMode::Int => (false, true),
                GPUVertFetchMode::Unset => vstd::pervasive::unreached(),
            };
            pointers.push(
                AttribPointer {
                    location: loc,
                    comp_len: a.comp_len,
                    comp_type: a.comp_type,
                    normalized,
                    integer,
                    stride,
                    offset,
                },
            );
            assert(pointers@ =~= old(self).pointers_spec().subrange(0, attr_index + 1));
            attr_index = attr_index + 1;
        }
        assert(pointers@ =~= old(self).pointers_spec());
        (toggles, pointers)
    }

    /// Finishes the primitive: decides what to flush, whether to draw
    /// and with which attribute setup, moves past the written vertices
    /// and leaves the drawing state.
    pub fn end(&mut self) -> (res: EndPlan)
        requires
            old(self).well_formed(),
            old(self).spec_prim_type() != GPUPrimType::Unset,
            old(self).spec_strict_vertex_len() ==> old(self).spec_vertex_idx()
                == old(self).spec_vertex_len(),
            !old(self).spec_strict_vertex_len() ==> old(self).spec_vertex_idx()
                <= old(self).spec_vertex_len(),
            old(self).spec_vertex_idx() > 0 ==> old(self).draw_ready(),
        ensures
            final(self).well_formed(),
            ({
                let vertex_count = if old(self).spec_strict_vertex_len() {
                    old(self).spec_vertex_len()
                } else {
                    old(self).spec_vertex_idx()
                };
                let bytes_used = if old(self).spec_vertex_idx() == old(self).spec_vertex_len() {
                    old(self).spec_buffer_bytes_mapped() as int
                } else {
                    old(self).spec_vertex_format().spec_stride() * vertex_count
                };
                let drawn = vertex_count > 0;
                &&& res.flush_bytes == (if old(self).spec_strict_vertex_len() {
                    None
                } else {
                    Some(bytes_used as usize)
                })
                &&& res.draw == drawn
                &&& res.prim_type == old(self).spec_prim_type()
                &&& res.vertex_count == vertex_count
                &&& final(self).spec_vertex_len() == vertex_count
                &&& final(self).spec_buffer_offset() == (if drawn {
                    old(self).spec_buffer_offset() + bytes_used
                } else {
                    old(self).spec_buffer_offset() as int
                })
                &&& drawn ==> res.pointers@ == old(self).pointers_spec()
                &&& drawn ==> res.toggles@ == (if old(self).spec_attr_binding().spec_enabled_bits()
                    != old(self).spec_prev_enabled_attr_bits() {
                    attr_toggles(
                        old(self).spec_attr_binding().spec_enabled_bits(),
                        old(self).spec_prev_enabled_attr_bits(),
                        0,
                    )
                } else {
                    Seq::empty()
                })
                &&& drawn ==> final(self).spec_prev_enabled_attr_bits()
                    == old(self).spec_attr_binding().spec_enabled_bits()
                &&& drawn ==> forall|loc: usize|
                    loc < 16 ==> (res.toggles@.contains((loc, false)) <==> ((
                    old(self).spec_prev_enabled_attr_bits() & (1u16 << (loc as u16))) != 0 && (
                    old(self).spec_attr_binding().spec_enabled_bits() & (1u16 << (loc as u16)))
                        == 0))
                &&& drawn ==> forall|loc: usize|
                    loc < 16 ==> (res.toggles@.contains((loc, true)) <==> ((
                    old(self).spec_attr_binding().spec_enabled_bits() & (1u16 << (loc as u16)))
                        != 0 && (old(self).spec_prev_enabled_attr_bits() & (1u16 << (loc as u16)))
                        == 0))
                &&& drawn ==> forall|k: int|
                    0 <= k < res.toggles@.len() ==> (#[trigger] res.toggles@[k]).0 < 16
                &&& drawn ==> res.pointers@.len() == old(self).spec_vertex_format().spec_attrs().len()
                &&& drawn ==> forall|i: int|
                    0 <= i < res.pointers@.len() ==> {
                        let p = #[trigger] res.pointers@[i];
                        let a = old(self).spec_vertex_format().spec_attrs()[i];
                        &&& p.normalized == (a.fetch_mode == GPUVertFetchMode::IntToFloatUnit)
                        &&& p.integer == (a.fetch_mode == GPUVertFetchMode::Int)
                        &&& p.comp_len == a.comp_len
                        &&& p.comp_type == a.comp_type
                        &&& p.stride == old(self).spec_vertex_format().spec_stride()
                        &&& p.offset == old(self).spec_buffer_offset() + a.offset
                        &&& p.location == read_loc_bits(
                            old(self).spec_attr_binding().spec_loc_bits(),
                            i as u64,
                        ) as usize
                    }
                &&& !drawn ==> res.pointers@.len() == 0 && res.toggles@.len() == 0
                    && final(self).spec_prev_enabled_attr_bits()
                    == old(self).spec_prev_enabled_attr_bits()
            }),
            final(self).spec_prim_type() == GPUPrimType::Unset,
            final(self).spec_strict_vertex_len(),
            final(self).spec_buffer_size() == old(self).spec_buffer_size(),
            final(self).spec_buffer_bytes_mapped() == old(self).spec_buffer_bytes_mapped(),
            final(self).spec_vertex_format() == old(self).spec_vertex_format(),
            final(self).spec_vertex_idx() == old(self).spec_vertex_idx(),
            final(self).spec_unassigned_attr_bits() == old(self).spec_unassigned_attr_bits(),
            final(self).spec_attr_binding() == old(self).spec_attr_binding(),
    {
        let prim_type = self.prim_type;
        let buffer_bytes_used: usize;
        let flush_bytes: Option<usize>;
        if self.strict_vertex_len {
            buffer_bytes_used = self.buffer_bytes_mapped;
            flush_bytes = None;
        } else {
            if self.vertex_idx == self.vertex_len {
                buffer_bytes_used = self.buffer_bytes_mapped;
            } else {
                self.vertex_len = self.vertex_idx;
                proof {
                    vstd::arithmetic::mul::lemma_mul_inequality(
                        self.vertex_idx as int,
                        old(self).vertex_len as int,
                        self.vertex_format.stride as int,
                    );
                    vstd::arithmetic::mul::lemma_mul_is_commutative(
                        self.vertex_idx as int,
                        self.vertex_format.stride as int,
                    );
                    vstd::arithmetic::mul::lemma_mul_is_commutative(
                        old(self).vertex_len as int,
                        self.vertex_format.stride as int,
                    );
                }
                buffer_bytes_used = self.vertex_format.vertex_buffer_size(self.vertex_len);
            }
            flush_bytes = Some(buffer_bytes_used);
        }
        let mut toggles: Vec<(usize, bool)> = Vec::new();
        let mut pointers: Vec<AttribPointer> = Vec::new();
        let draw = self.vertex_len > 0;
        if draw {
            let (t, p) = self.draw_setup();
            proof {
                law_draw_toggles_changed_arrays(
                    old(self).attr_binding.enabled_bits,
                    old(self).prev_enabled_attr_bits,
                    t@,
                );
                law_draw_pointers_follow_attributes(*old(self));
            }
            toggles = t;
            pointers = p;
            self.buffer_offset = self.buffer_offset + buffer_bytes_used;
        }
        // setup for next begin
        self.prim_type = GPUPrimType::Unset;
        self.strict_vertex_len = true;
        EndPlan { flush_bytes, draw, toggles, pointers, prim_type, vertex_count: self.vertex_len }
    }

    /// The current vertex format.
    pub fn get_vertex_format(&self) -> (res: &GPUVertFormat)
        ensures
            *res == self.spec_vertex_format(),
    {
        &self.vertex_format
    }

    /// The primitive being drawn (`Unset` when not drawing).
    pub fn get_prim_type(&self) -> (res: GPUPrimType)
        ensures
            res == self.spec_prim_type(),
    {
        self.prim_type
    }

    /// Whether exactly the promised number of vertices must be given.
    pub fn is_strict_vertex_len(&self) -> (res: bool)
        ensures
            res == self.spec_strict_vertex_len(),
    {
        self.strict_vertex_len
    }

    /// The number of vertices promised for the current primitive.
    pub fn get_vertex_len(&self) -> (res: usize)
        ensures
            res == self.spec_vertex_len(),
    {
        self.vertex_len
    }

    /// The number of vertices given so far for the current primitive.
    pub fn get_vertex_idx(&self) -> (res: usize)
        ensures
            res == self.spec_vertex_idx(),
    {
        self.vertex_idx
    }

    /// The attributes of the current vertex that have no value yet.
    pub fn get_unassigned_attr_bits(&self) -> (res: u16)
        ensures
            res == self.spec_unassigned_attr_bits(),
    {
        self.unassigned_attr_bits
    }

    /// The offset in the buffer where the current primitive's vertices
    /// start.
    pub fn get_buffer_offset(&self) -> (res: usize)
        ensures
            res == self.spec_buffer_offset(),
    {
        self.buffer_offset
    }

    /// Empties the vertex format and gives access to it, to add the
    /// attributes of the next primitive.
    pub fn get_cleared_vertex_format(&mut self) -> (res: &mut GPUVertFormat)
        ensures
            res.well_formed(),
            res.spec_attrs() == Seq::<GPUVertAttr>::empty(),
            !res.spec_packed(),
            res.spec_stride() == old(self).spec_vertex_format().spec_stride(),
            *final(self) == old(self).with_vertex_format(*final(res)),
    {
        self.vertex_format.clear();
        &mut self.vertex_format
    }

    /// Records that attribute `attr_id` of the current vertex has been
    /// given a value.
    pub fn set_attr_value_bit(&mut self, attr_id: usize)
        requires
            attr_id < GPU_VERT_ATTR_MAX_LEN,
        ensures
            *final(self) == old(self).with_unassigned_attr_bits(
                old(self).spec_unassigned_attr_bits() & !(1u16 << (attr_id as u16)),
            ),
    {
        let mask: u16 = 1u16 << (attr_id as u16);
        self.unassigned_attr_bits = self.unassigned_attr_bits & !mask;
    }

    /// Records a value for attribute `attr_id` of the current vertex and
    /// returns the byte offset of that attribute within the vertex.
    pub fn attr_value_offset(&mut self, attr_id: usize) -> (res: usize)
        requires
            attr_id < GPU_VERT_ATTR_MAX_LEN,
            attr_id < old(self).spec_vertex_format().spec_attrs().len(),
        ensures
            res == old(self).spec_vertex_format().spec_attrs()[attr_id as int].offset,
            *final(self) == old(self).with_unassigned_attr_bits(
                old(self).spec_unassigned_attr_bits() & !(1u16 << (attr_id as u16)),
            ),
    {
        self.set_attr_value_bit(attr_id);
        self.vertex_format.attrs[attr_id].offset as usize
    }

    /// Finishes the current vertex: returns the (offset, size) of every
    /// attribute that was given no value, to be copied from the
    /// previous vertex, and moves on to the next vertex.
    pub fn end_vertex(&mut self) -> (res: Vec<(usize, usize)>)
        requires
            old(self).spec_unassigned_attr_bits() != 0 ==> old(self).spec_vertex_idx() > 0
                && old(self).spec_vertex_format().spec_attrs().len() <= GPU_VERT_ATTR_MAX_LEN,
            old(self).spec_vertex_idx() < usize::MAX,
        ensures
            res@ == (if old(self).spec_unassigned_attr_bits() != 0 {
                attr_copies(
                    old(self).spec_vertex_format().spec_attrs(),
                    old(self).spec_unassigned_attr_bits(),
                    0,
                )
            } else {
                Seq::empty()
            }),
            old(self).spec_unassigned_attr_bits() != 0 ==> exists|idx: Seq<int>|
                {
                    let attrs = old(self).spec_vertex_format().spec_attrs();
                    let unassigned = old(self).spec_unassigned_attr_bits();
                    &&& #[trigger] idx.len() == res@.len()
                    &&& forall|m: int|
                        0 <= m < idx.len() ==> {
                            &&& 0 <= #[trigger] idx[m] < attrs.len()
                            &&& (unassigned >> (idx[m] as u16)) & 1u16 != 0
                            &&& res@[m] == (attrs[idx[m]].offset as usize, attrs[idx[m]].sz as usize)
                        }
                    &&& forall|m1: int, m2: int|
                        0 <= m1 < m2 < idx.len() ==> #[trigger] idx[m1] < #[trigger] idx[m2]
                    &&& forall|j: int|
                        0 <= j < attrs.len() && (unassigned >> (j as u16)) & 1u16 != 0
                            ==> #[trigger] idx.contains(j)
                },
            *final(self) == old(self).with_next_vertex(),
    {
        let mut copies: Vec<(usize, usize)> = Vec::new();
        let unassigned = self.unassigned_attr_bits;
        if unassigned != 0 {
            let attrs = self.vertex_format.attrs.as_slice();
            let mut attr_index: usize = 0;
            assert(copies@ + attr_copies(attrs@, unassigned, 0) =~= attr_copies(
                attrs@,
                unassigned,
                0,
            ));
            while attr_index < attrs.len()
                invariant
                    attrs@.len() <= GPU_VERT_ATTR_MAX_LEN,
                    attr_index <= attrs@.len(),
                    copies@ + attr_copies(attrs@, unassigned, attr_index as nat) == attr_copies(
                        attrs@,
                        unassigned,
                        0,
                    ),
                decreases attrs@.len() - attr_index,
            {
                let ghost old_copies = copies@;
                let a = &attrs[attr_index];
                if (unassigned >> (attr_index as u16)) & 1u16 != 0 {
                    copies.push((a.offset as usize, a.sz as usize));
                }
                assert(old_copies + attr_copies(attrs@, unassigned, attr_index as nat) =~= copies@
                    + attr_copies(attrs@, unassigned, (attr_index + 1) as nat));
                attr_index = attr_index + 1;
            }
            assert(copies@ =~= attr_copies(attrs@, unassigned, 0));
            proof {
                law_vertex_copies_unassigned_attributes(attrs@, unassigned, copies@);
            }
        }
        self.vertex_idx = self.vertex_idx + 1;
        self.unassigned_attr_bits = self.attr_binding.enabled_bits;
        copies
    }
}


/// `begin` places the vertices inside the buffer, and at a multiple of
/// the stride: either after the previous vertices (padded to the
/// stride) or at the start of a new buffer store large enough for them.
pub proof fn law_begin_places_vertices_in_buffer(
    buffer_size: usize,
    buffer_offset: usize,
    bytes_needed: usize,
    stride: usize,
)
    requires
        stride > 0,
        buffer_offset <= buffer_size,
    ensures
        ({
            let (size, reallocate, offset) = plan_buffer(
                buffer_size,
                buffer_offset,
                bytes_needed,
                stride,
            );
            &&& offset + bytes_needed <= size
            &&& offset % stride == 0
            &&& size >= bytes_needed
            &&& !reallocate ==> size == buffer_size && offset >= buffer_offset
        }),
{
    law_padding_aligns(buffer_offset as nat, stride as nat);
    vstd::arithmetic::div_mod::lemma_small_mod(0, stride as nat);
}

/// After binding attributes `0..n` to locations that fit in four bits,
/// the location read back for each of them is the one it was bound to.
pub proof fn law_bound_locations_read_back(locations: Seq<usize>, n: nat, i: nat)
    requires
        n <= locations.len(),
        n <= 16,
        i < n,
        forall|k: int| 0 <= k < n ==> #[trigger] locations[k] < 16,
    ensures
        read_loc_bits(bound_loc_bits(locations, n), i as u64) == locations[i as int],
    decreases n,
{
    let prev = bound_loc_bits(locations, (n - 1) as nat);
    if i == n - 1 {
        let other: u64 = if n - 1 == 0 {
            1
        } else {
            0
        };
        law_read_after_write_location(prev, (n - 1) as u64, other, locations[n - 1] as u64);
    } else {
        law_bound_locations_read_back(locations, (n - 1) as nat, i);
        law_read_after_write_location(prev, (n - 1) as u64, i as u64, locations[n - 1] as u64);
    }
}
proof fn lemma_toggles_contents(is: u16, was: u16, l: nat)
    requires
        l <= 16,
    ensures
        forall|e: (usize, bool)|
            #[trigger] attr_toggles(is, was, l).contains(e) <==> (l <= e.0 < 16 && ((e.1 && bit_set(
                is,
                e.0 as u16,
            ) && !bit_set(was, e.0 as u16)) || (!e.1 && bit_set(was, e.0 as u16) && !bit_set(
                is,
                e.0 as u16,
            )))),
    decreases 16 - l,
{
    if l < 16 {
        lemma_toggles_contents(is, was, l + 1);
        let rest = attr_toggles(is, was, l + 1);
        let t = attr_toggles(is, was, l);
        assert forall|e: (usize, bool)| #[trigger] t.contains(e) <==> (l <= e.0 < 16 && ((e.1
            && bit_set(is, e.0 as u16) && !bit_set(was, e.0 as u16)) || (!e.1 && bit_set(
            was,
            e.0 as u16,
        ) && !bit_set(is, e.0 as u16)))) by {
            if bit_set(is, l as u16) && !bit_set(was, l as u16) {
                let head = seq![(l as usize, true)];
                assert(t == head + rest);
                if t.contains(e) {
                    let k = choose|k: int| 0 <= k < t.len() && t[k] == e;
                    if k > 0 {
                        assert(rest[k - 1] == e);
                        assert(rest.contains(e));
                    }
                }
                if rest.contains(e) {
                    let k = choose|k: int| 0 <= k < rest.len() && rest[k] == e;
                    assert(t[k + 1] == e);
                }
                if e == (l as usize, true) {
                    assert(t[0] == e);
                }
            } else if bit_set(was, l as u16) && !bit_set(is, l as u16) {
                let head = seq![(l as usize, false)];
                assert(t == head + rest);
                if t.contains(e) {
                    let k = choose|k: int| 0 <= k < t.len() && t[k] == e;
                    if k > 0 {
                        assert(rest[k - 1] == e);
                        assert(rest.contains(e));
                    }
                }
                if rest.contains(e) {
                    let k = choose|k: int| 0 <= k < rest.len() && rest[k] == e;
                    assert(t[k + 1] == e);
                }
                if e == (l as usize, false) {
                    assert(t[0] == e);
                }
            } else {
                assert(t == rest);
            }
        }
    } else {
        assert forall|e: (usize, bool)| !#[trigger] attr_toggles(is, was, l).contains(e) by {}
    }
}

/// Drawing switches exactly the vertex attribute arrays whose state
/// changes: given the arrays enabled before (`was`) and the ones bound now
/// (`is`), an array is disabled exactly when it was enabled and is no
/// longer bound, enabled exactly when it is bound and was not enabled, and
/// no other array is touched.
pub proof fn law_draw_toggles_changed_arrays(is: u16, was: u16, toggles: Seq<(usize, bool)>)
    requires
        toggles == (if is != was {
            attr_toggles(is, was, 0)
        } else {
            Seq::empty()
        }),
    ensures
        forall|loc: usize|
            loc < 16 ==> (toggles.contains((loc, false)) <==> ((was & (1u16 << (loc as u16))) != 0
                && (is & (1u16 << (loc as u16))) == 0)),
        forall|loc: usize|
            loc < 16 ==> (toggles.contains((loc, true)) <==> ((is & (1u16 << (loc as u16))) != 0
                && (was & (1u16 << (loc as u16))) == 0)),
        forall|k: int| 0 <= k < toggles.len() ==> (#[trigger] toggles[k]).0 < 16,
{
    lemma_toggles_contents(is, was, 0);
    if is != was {
        assert forall|k: int| 0 <= k < toggles.len() implies (#[trigger] toggles[k]).0 < 16 by {
            assert(toggles.contains(toggles[k]));
        }
    }
}


/// Each attribute is drawn through a pointer at its bound location, with
/// its own components, the format's stride and its offset past the start
/// of the vertices in the buffer. The pointer reads normalized values
/// exactly when the attribute is fetched as `IntToFloatUnit`, and integer
/// values exactly when it is fetched as `Int`: `Float` and `IntToFloat`
/// attributes are neither.
pub proof fn law_draw_pointers_follow_attributes(s: GPUImmediateState)
    ensures
        s.pointers_spec().len() == s.spec_vertex_format().spec_attrs().len(),
        forall|i: int|
            0 <= i < s.pointers_spec().len() ==> {
                let p = #[trigger] s.pointers_spec()[i];
                let a = s.spec_vertex_format().spec_attrs()[i];
                &&& p.normalized == (a.fetch_mode == GPUVertFetchMode::IntToFloatUnit)
                &&& p.integer == (a.fetch_mode == GPUVertFetchMode::Int)
                &&& p.comp_len == a.comp_len
                &&& p.comp_type == a.comp_type
                &&& p.stride == s.spec_vertex_format().spec_stride()
                &&& p.offset == (s.spec_buffer_offset() + a.offset) as usize
                &&& p.location == read_loc_bits(s.spec_attr_binding().spec_loc_bits(), i as u64) as usize
            },
{
}

/// The positions among `k..n` whose bit is set in `unassigned`, in
/// increasing order.
spec fn unassigned_positions(n: nat, unassigned: u16, k: nat) -> Seq<int>
    decreases n - k,
{
    if k >= n {
        Seq::empty()
    } else {
        let rest = unassigned_positions(n, unassigned, k + 1);
        if (unassigned >> (k as u16)) & 1u16 != 0 {
            seq![k as int] + rest
        } else {
            rest
        }
    }
}

proof fn lemma_copies_follow_positions(attrs: Seq<GPUVertAttr>, unassigned: u16, k: nat)
    requires
        k <= attrs.len(),
    ensures
        ({
            let idx = unassigned_positions(attrs.len(), unassigned, k);
            let c = attr_copies(attrs, unassigned, k);
            &&& c.len() == idx.len()
            &&& forall|m: int|
                0 <= m < idx.len() ==> {
                    &&& k <= #[trigger] idx[m] < attrs.len()
                    &&& (unassigned >> (idx[m] as u16)) & 1u16 != 0
                    &&& c[m] == (attrs[idx[m]].offset as usize, attrs[idx[m]].sz as usize)
                }
            &&& forall|m1: int, m2: int|
                0 <= m1 < m2 < idx.len() ==> #[trigger] idx[m1] < #[trigger] idx[m2]
            &&& forall|j: int|
                k <= j < attrs.len() && (unassigned >> (j as u16)) & 1u16 != 0
                    ==> #[trigger] idx.contains(j)
        }),
    decreases attrs.len() - k,
{
    if k < attrs.len() {
        lemma_copies_follow_positions(attrs, unassigned, k + 1);
        let rest = unassigned_positions(attrs.len(), unassigned, k + 1);
        let idx = unassigned_positions(attrs.len(), unassigned, k);
        if (unassigned >> (k as u16)) & 1u16 != 0 {
            assert forall|j: int|
                k <= j < attrs.len() && (unassigned >> (j as u16)) & 1u16 != 0
                    implies #[trigger] idx.contains(j) by {
                if j == k {
                    assert(idx[0] == j);
                } else {
                    assert(rest.contains(j));
                    let m = choose|m: int| 0 <= m < rest.len() && rest[m] == j;
                    assert(idx[m + 1] == j);
                }
            }
            assert forall|m1: int, m2: int|
                0 <= m1 < m2 < idx.len() implies #[trigger] idx[m1] < #[trigger] idx[m2] by {
                if m1 > 0 {
                    assert(idx[m1] == rest[m1 - 1]);
                }
                assert(idx[m2] == rest[m2 - 1]);
            }
        }
    }
}

/// Finishing a vertex copies, in attribute order, exactly the attributes
/// that were given no value: one (offset, size) for each attribute `k`
/// whose bit is set in the unassigned bits, and nothing else, so there
/// are as many copies as such attributes.
pub proof fn law_vertex_copies_unassigned_attributes(
    attrs: Seq<GPUVertAttr>,
    unassigned: u16,
    copies: Seq<(usize, usize)>,
)
    requires
        copies == attr_copies(attrs, unassigned, 0),
    ensures
        exists|idx: Seq<int>|
            {
                &&& #[trigger] idx.len() == copies.len()
                &&& forall|m: int|
                    0 <= m < idx.len() ==> {
                        &&& 0 <= #[trigger] idx[m] < attrs.len()
                        &&& (unassigned >> (idx[m] as u16)) & 1u16 != 0
                        &&& copies[m] == (attrs[idx[m]].offset as usize, attrs[idx[m]].sz as usize)
                    }
                &&& forall|m1: int, m2: int|
                    0 <= m1 < m2 < idx.len() ==> #[trigger] idx[m1] < #[trigger] idx[m2]
                &&& forall|j: int|
                    0 <= j < attrs.len() && (unassigned >> (j as u16)) & 1u16 != 0
                        ==> #[trigger] idx.contains(j)
            },
{
    lemma_copies_follow_positions(attrs, unassigned, 0);
    let idx = unassigned_positions(attrs.len(), unassigned, 0);
    assert(idx.len() == copies.len());
}

/// The size of the streaming buffer that `begin` asks for: the bytes
/// needed when they exceed the current buffer (it grows), the default
/// size when the buffer is larger than the default and fewer bytes are
/// needed (it shrinks back), and otherwise the current size, whether or
/// not a new store is made. A buffer of unchanged size is reused, after
/// the previous vertices padded to the stride, exactly when the vertices
/// fit there; otherwise (and whenever the size changes) a new store is
/// made and the vertices go at its start.
pub proof fn law_begin_buffer_size(
    buffer_size: usize,
    buffer_offset: usize,
    bytes_needed: usize,
    stride: usize,
)
    requires
        stride > 0,
        buffer_offset <= buffer_size,
    ensures
        ({
            let (size, reallocate, offset) = plan_buffer(
                buffer_size,
                buffer_offset,
                bytes_needed,
                stride,
            );
            let padded = buffer_offset + padding_spec(buffer_offset as int, stride as int);
            &&& size == (if bytes_needed > buffer_size {
                bytes_needed
            } else if bytes_needed < IMM_DEFAULT_BUFFER_SIZE && buffer_size
                > IMM_DEFAULT_BUFFER_SIZE {
                IMM_DEFAULT_BUFFER_SIZE
            } else {
                buffer_size
            })
            &&& size != buffer_size ==> reallocate
            &&& size == buffer_size ==> (reallocate <==> padded + bytes_needed > buffer_size)
            &&& reallocate ==> offset == 0
            &&& !reallocate ==> offset == padded
        }),
{
}

} // verus!
