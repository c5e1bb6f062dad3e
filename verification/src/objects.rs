use vstd::prelude::*;

verus! {

/// One attribute of an interleaved vertex layout: a run of integer or
/// of floating components, four bytes each.
#[derive(Clone, Copy, Debug, PartialEq, Eq, Structural)]
pub enum VertexArrayElement {
    Integers { count: u32 },
    Floats { count: u32, normalized: bool },
}

/// The total bytes of a prefix of attributes.
pub open spec fn stride_of(s: Seq<VertexArrayElement>) -> int
    decreases s.len(),
{
    if s.len() == 0 {
        0
    } else {
        stride_of(s.drop_last()) + 4 * s.last().count_spec()
    }
}

/// The stride of a prefix never exceeds the stride of the whole
/// layout, and strides are never negative.
pub proof fn lemma_stride_prefix(s: Seq<VertexArrayElement>, i: int)
    requires
        0 <= i <= s.len(),
    ensures
        0 <= stride_of(s.subrange(0, i)) <= stride_of(s),
    decreases s.len() - i,
{
    if i == s.len() {
        assert(s.subrange(0, i) =~= s);
        lemma_stride_nonneg(s);
    } else {
        lemma_stride_prefix(s, i + 1);
        lemma_stride_nonneg(s.subrange(0, i));
        assert(s.subrange(0, i + 1).drop_last() =~= s.subrange(0, i));
        assert(stride_of(s.subrange(0, i + 1)) == stride_of(s.subrange(0, i)) + 4 * s.subrange(
            0,
            i + 1,
        ).last().count_spec());
    }
}

/// Strides are never negative.
pub proof fn lemma_stride_nonneg(s: Seq<VertexArrayElement>)
    ensures
        stride_of(s) >= 0,
    decreases s.len(),
{
    if s.len() > 0 {
        lemma_stride_nonneg(s.drop_last());
    }
}

impl VertexArrayElement {
    /// The number of components, as a spec value.
    pub open spec fn count_spec(self) -> u32 {
        match self {
            VertexArrayElement::Integers { count } => count,
            VertexArrayElement::Floats { count, .. } => count,
        }
    }

    /// The number of components in this attribute.
    pub fn count(&self) -> (r: u32)
        ensures
            r == self.count_spec(),
    {
        match self {
            VertexArrayElement::Integers { count } => *count,
            VertexArrayElement::Floats { count, .. } => *count,
        }
    }

    /// The byte width of one component; both kinds are four bytes.
    pub fn element_size(&self) -> (r: u32)
        ensures
            r == 4,
    {
        match self {
            VertexArrayElement::Integers { .. } => 4,
            VertexArrayElement::Floats { .. } => 4,
        }
    }

    /// The total byte width of the attribute.
    pub fn size(&self) -> (r: u32)
        requires
            4 * self.count_spec() <= u32::MAX,
        ensures
            r == 4 * self.count_spec(),
    {
        self.element_size() * self.count()
    }

    /// Whether a floating attribute is normalized on upload.
    pub fn normalized(&self) -> (r: bool)
        ensures
            r == self.normalized_spec(),
    {
        match self {
            VertexArrayElement::Floats { normalized, .. } => *normalized,
            _ => false,
        }
    }

    /// Whether the attribute is normalized, as a spec value.
    pub open spec fn normalized_spec(self) -> bool {
        match self {
            VertexArrayElement::Floats { normalized, .. } => normalized,
            _ => false,
        }
    }
}

/// The packed offsets of an interleaved layout: the byte offset of
/// each attribute and the stride of one whole vertex.
pub fn vertex_layout(format: &Vec<VertexArrayElement>) -> (r: (Vec<u32>, u32))
    requires
        stride_of(format@) <= u32::MAX,
    ensures
        r.1 == stride_of(format@),
        r.0@.len() == format@.len(),
        forall|i: int|
            0 <= i < format@.len() ==> (#[trigger] r.0@[i]) == stride_of(format@.subrange(0, i)),
{
    let mut offsets: Vec<u32> = Vec::new();
    let mut offset: u32 = 0;
    let mut i: usize = 0;
    while i < format.len()
        invariant
            0 <= i <= format@.len(),
            stride_of(format@) <= u32::MAX,
            offset == stride_of(format@.subrange(0, i as int)),
            offsets@.len() == i,
            forall|k: int|
                0 <= k < i ==> (#[trigger] offsets@[k]) == stride_of(format@.subrange(0, k)),
        decreases format@.len() - i,
    {
        proof {
            lemma_stride_prefix(format@, i + 1);
            assert(format@.subrange(0, i + 1).drop_last() =~= format@.subrange(0, i as int));
            assert(format@.subrange(0, i + 1).last() == format@[i as int]);
        }
        offsets.push(offset);
        let sz = format[i].size();
        offset = offset + sz;
        i = i + 1;
    }
    proof {
        assert(format@.subrange(0, format@.len() as int) =~= format@);
    }
    (offsets, offset)
}

} // verus!
