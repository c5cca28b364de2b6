//! Mesh geometry as the asset source holds it, and its serialisation into the
//! bytes of a vertex buffer and of an index buffer.

use vstd::prelude::*;
use vstd::arithmetic::div_mod::lemma_fundamental_div_mod_converse;
use crate::layout::IndexFormat;
use crate::layout::VertexAttribute;
use crate::layout::VertexFormat;
use crate::layout::VertexLayout;
use crate::resource::ProvisionError;

verus! {

/// The values of one attribute for all vertices of a mesh, one after the
/// other, each in the bytes of its format.
#[derive(Clone, Debug, PartialEq, Eq)]
pub struct MeshAttribute {
    pub name: String,
    pub format: VertexFormat,
    pub data: Vec<u8>,
}

impl MeshAttribute {
    /// Whether this attribute can fill `wanted` for `count` vertices: it has
    /// the name and the format asked for, and one value for each vertex.
    pub open spec fn supplies(&self, wanted: &VertexAttribute, count: usize) -> bool {
        &&& self.name@ == wanted.name@
        &&& self.format == wanted.format
        &&& self.data@.len() == count * wanted.format.spec_size()
    }
}

/// Geometry of one mesh: the attributes of its vertices and, optionally, its
/// indices. The asset source owns it; it is only read here.
#[derive(Clone, Debug, PartialEq, Eq)]
pub struct MeshAsset {
    pub vertex_count: usize,
    pub attributes: Vec<MeshAttribute>,
    pub indices: Option<Vec<u16>>,
}

/// Byte `k` of an index written in little-endian order; bytes past the second
/// are zero.
pub open spec fn index_byte(index: u16, k: int) -> u8 {
    if k == 0 {
        (index % 256) as u8
    } else if k == 1 {
        (index / 256) as u8
    } else {
        0u8
    }
}

impl MeshAsset {
    /// Whether attribute `i` of the mesh is the one that fills `wanted`: the
    /// first that supplies it.
    pub open spec fn is_source(&self, wanted: &VertexAttribute, i: int) -> bool {
        &&& 0 <= i < self.attributes@.len()
        &&& self.attributes@[i].supplies(wanted, self.vertex_count)
        &&& forall|j: int|
            0 <= j < i ==> !(#[trigger] self.attributes@[j]).supplies(wanted, self.vertex_count)
    }

    /// The attribute of the mesh that fills `wanted`, if the mesh has one.
    pub open spec fn source_of(&self, wanted: &VertexAttribute) -> Option<int> {
        if exists|i: int| self.is_source(wanted, i) {
            Some(choose|i: int| self.is_source(wanted, i))
        } else {
            None
        }
    }

    /// Whether the vertex data can be laid out as `layout` asks: every
    /// attribute of the layout ends within the stride, the mesh has an
    /// attribute that fills it, and the records of all vertices together are
    /// no longer than a buffer in memory can be.
    pub open spec fn serializable(&self, layout: &VertexLayout) -> bool {
        &&& layout.fits()
        &&& forall|k: int|
            0 <= k < layout.attributes@.len() ==> self.source_of(
                #[trigger] &layout.attributes@[k],
            ) is Some
        &&& self.vertex_count * layout.stride <= isize::MAX
    }

    /// Byte `at` of the record of vertex `vertex` under `layout`: the byte of
    /// the attribute value that covers it, or zero where none does.
    pub open spec fn vertex_byte(&self, layout: &VertexLayout, vertex: int, at: int) -> u8 {
        match layout.covering(at, layout.attributes@.len() as int) {
            Some(k) => {
                let wanted = &layout.attributes@[k];
                let source = self.attributes@[self.source_of(wanted).unwrap()];
                source.data@[vertex * wanted.format.spec_size() + (at - wanted.offset)]
            },
            None => 0u8,
        }
    }

    /// The bytes of the mesh's vertex buffer under `layout`: the records of
    /// its vertices, one after the other, each `layout.stride` bytes long.
    /// `None` where the vertex data cannot be laid out so.
    pub open spec fn spec_vertex_bytes(&self, layout: &VertexLayout) -> Option<Seq<u8>> {
        if self.serializable(layout) {
            Some(
                Seq::new(
                    (self.vertex_count * layout.stride) as nat,
                    |p: int|
                        self.vertex_byte(layout, p / (layout.stride as int), p % (layout.stride as int)),
                ),
            )
        } else {
            None
        }
    }

    /// The bytes of the mesh's index buffer in `format`: its indices, one
    /// after the other, each in little-endian order. `None` where the mesh
    /// has no indices.
    pub open spec fn spec_index_bytes(&self, format: IndexFormat) -> Option<Seq<u8>> {
        match self.indices {
            Some(indices) => Some(
                Seq::new(
                    indices@.len() * format.spec_width(),
                    |p: int|
                        index_byte(
                            indices@[p / (format.spec_width() as int)],
                            p % (format.spec_width() as int),
                        ),
                ),
            ),
            None => None,
        }
    }

    /// At most one attribute is the source of a layout attribute.
    pub proof fn lemma_source_is_unique(&self, wanted: &VertexAttribute, i: int)
        requires
            self.is_source(wanted, i),
        ensures
            self.source_of(wanted) == Some(i),
    {
        let chosen = choose|c: int| self.is_source(wanted, c);
        assert(self.is_source(wanted, chosen));
        if chosen < i {
            assert(!self.attributes@[chosen].supplies(wanted, self.vertex_count));
        }
        if i < chosen {
            assert(!self.attributes@[i].supplies(wanted, self.vertex_count));
        }
    }

    /// Finds the attribute of the mesh that fills `wanted`.
    pub fn find_source(&self, wanted: &VertexAttribute) -> (found: Option<usize>)
        ensures
            match found {
                Some(i) => self.source_of(wanted) == Some(i as int) && self.is_source(
                    wanted,
                    i as int,
                ),
                None => self.source_of(wanted) is None,
            },
    {
        let needed: Option<usize> = self.vertex_count.checked_mul(wanted.format.size());
        let mut i: usize = 0;
        while i < self.attributes.len()
            invariant
                i <= self.attributes@.len(),
                match needed {
                    Some(n) => n == self.vertex_count * wanted.format.spec_size(),
                    None => self.vertex_count * wanted.format.spec_size() > usize::MAX,
                },
                forall|j: int|
                    0 <= j < i ==> !(#[trigger] self.attributes@[j]).supplies(
                        wanted,
                        self.vertex_count,
                    ),
            decreases self.attributes@.len() - i,
        {
            let attribute = &self.attributes[i];
            let held: usize = attribute.data.len();
            let has_values: bool = match needed {
                Some(n) => held == n,
                None => false,
            };
            if has_values && attribute.format == wanted.format && attribute.name == wanted.name {
                proof {
                    self.lemma_source_is_unique(wanted, i as int);
                }
                return Some(i);
            }
            i = i + 1;
        }
        assert forall|c: int| !self.is_source(wanted, c) by {
            if 0 <= c < self.attributes@.len() {
                assert(!self.attributes@[c].supplies(wanted, self.vertex_count));
            }
        }
        None
    }

    /// Byte `at` of the record of vertex `vertex`, given the source of each
    /// attribute of the layout.
    fn record_byte(&self, layout: &VertexLayout, sources: &Vec<usize>, vertex: usize, at: usize) -> (byte: u8)
        requires
            vertex < self.vertex_count,
            sources@.len() == layout.attributes@.len(),
            forall|k: int|
                0 <= k < sources@.len() ==> self.is_source(
                    #[trigger] &layout.attributes@[k],
                    sources@[k] as int,
                ),
        ensures
            byte == self.vertex_byte(layout, vertex as int, at as int),
    {
        match layout.covering_attribute(at) {
            Some(k) => {
                let wanted = &layout.attributes[k];
                assert(self.is_source(&layout.attributes@[k as int], sources@[k as int] as int));
                proof {
                    self.lemma_source_is_unique(wanted, sources@[k as int] as int);
                    lemma_covering_covers(layout, at as int, layout.attributes@.len() as int);
                }
                let source = &self.attributes[sources[k]];
                let size: usize = wanted.format.size();
                let within: usize = at - wanted.offset;
                let held: usize = source.data.len();
                assert(held == self.vertex_count * size);
                assert(vertex * size + within < self.vertex_count * size) by (nonlinear_arith)
                    requires
                        vertex < self.vertex_count,
                        within < size,
                ;
                assert(vertex * size <= vertex * size + within);
                let first: usize = vertex * size;
                source.data[first + within]
            },
            None => 0u8,
        }
    }

    /// Lays the vertex data out as `layout` asks. Fails with `LayoutMismatch`
    /// where an attribute of the layout does not end within the stride, where
    /// the mesh has no attribute of its name and format with a value for each
    /// vertex, and where the whole would be longer than a buffer in memory
    /// can be.
    pub fn extract_vertex_bytes(&self, layout: &VertexLayout) -> (bytes: Result<Vec<u8>, ProvisionError>)
        ensures
            match bytes {
                Ok(b) => self.spec_vertex_bytes(layout) == Some(b@),
                Err(e) => e == ProvisionError::LayoutMismatch && self.spec_vertex_bytes(layout) is None,
            },
    {
        let mut sources: Vec<usize> = Vec::new();
        let mut k: usize = 0;
        while k < layout.attributes.len()
            invariant
                k <= layout.attributes@.len(),
                sources@.len() == k,
                forall|j: int| 0 <= j < k ==> (#[trigger] layout.attributes@[j]).within(layout.stride),
                forall|j: int|
                    0 <= j < k ==> self.is_source(#[trigger] &layout.attributes@[j], sources@[j] as int),
                forall|j: int|
                    0 <= j < k ==> self.source_of(#[trigger] &layout.attributes@[j]) is Some,
            decreases layout.attributes@.len() - k,
        {
            let wanted = &layout.attributes[k];
            let size: usize = wanted.format.size();
            if size > layout.stride || wanted.offset > layout.stride - size {
                assert(!layout.attributes@[k as int].within(layout.stride));
                return Err(ProvisionError::LayoutMismatch);
            }
            match self.find_source(wanted) {
                Some(i) => {
                    sources.push(i);
                },
                None => {
                    assert(self.source_of(&layout.attributes@[k as int]) is None);
                    return Err(ProvisionError::LayoutMismatch);
                },
            }
            k = k + 1;
        }
        let fitting: bool = match self.vertex_count.checked_mul(layout.stride) {
            Some(length) => length <= isize::MAX as usize,
            None => false,
        };
        if !fitting {
            return Err(ProvisionError::LayoutMismatch);
        }
        assert(self.serializable(layout));
        let ghost stride = layout.stride as int;
        let mut out: Vec<u8> = Vec::new();
        let mut vertex: usize = 0;
        while vertex < self.vertex_count
            invariant
                vertex <= self.vertex_count,
                stride == layout.stride,
                sources@.len() == layout.attributes@.len(),
                forall|j: int|
                    0 <= j < sources@.len() ==> self.is_source(
                        #[trigger] &layout.attributes@[j],
                        sources@[j] as int,
                    ),
                out@.len() == vertex * stride,
                forall|p: int|
                    0 <= p < out@.len() ==> #[trigger] out@[p] == self.vertex_byte(
                        layout,
                        p / stride,
                        p % stride,
                    ),
            decreases self.vertex_count - vertex,
        {
            let mut at: usize = 0;
            while at < layout.stride
                invariant
                    at <= layout.stride,
                    vertex < self.vertex_count,
                    stride == layout.stride,
                    sources@.len() == layout.attributes@.len(),
                    forall|j: int|
                        0 <= j < sources@.len() ==> self.is_source(
                            #[trigger] &layout.attributes@[j],
                            sources@[j] as int,
                        ),
                    out@.len() == vertex * stride + at,
                    forall|p: int|
                        0 <= p < out@.len() ==> #[trigger] out@[p] == self.vertex_byte(
                            layout,
                            p / stride,
                            p % stride,
                        ),
                decreases layout.stride - at,
            {
                let byte: u8 = self.record_byte(layout, &sources, vertex, at);
                proof {
                    lemma_fundamental_div_mod_converse(
                        vertex * stride + at,
                        stride,
                        vertex as int,
                        at as int,
                    );
                }
                out.push(byte);
                at = at + 1;
            }
            assert(vertex * stride + stride == (vertex + 1) * stride) by (nonlinear_arith);
            vertex = vertex + 1;
        }
        assert(out@ =~= self.spec_vertex_bytes(layout).unwrap());
        Ok(out)
    }

    /// The mesh's indices as the bytes of an index buffer in `format`, or
    /// `None` where the mesh has no indices.
    pub fn extract_index_bytes(&self, format: IndexFormat) -> (bytes: Option<Vec<u8>>)
        ensures
            match bytes {
                Some(b) => self.spec_index_bytes(format) == Some(b@),
                None => self.spec_index_bytes(format) is None,
            },
    {
        match &self.indices {
            Some(indices) => {
                let width: usize = format.width();
                let ghost w = width as int;
                let mut out: Vec<u8> = Vec::new();
                let mut i: usize = 0;
                while i < indices.len()
                    invariant
                        i <= indices@.len(),
                        w == format.spec_width(),
                        width == w,
                        out@.len() == i * w,
                        forall|p: int|
                            0 <= p < out@.len() ==> #[trigger] out@[p] == index_byte(
                                indices@[p / w],
                                p % w,
                            ),
                    decreases indices@.len() - i,
                {
                    let index: u16 = indices[i];
                    let mut k: usize = 0;
                    while k < width
                        invariant
                            k <= width,
                            i < indices@.len(),
                            index == indices@[i as int],
                            w == format.spec_width(),
                            width == w,
                            out@.len() == i * w + k,
                            forall|p: int|
                                0 <= p < out@.len() ==> #[trigger] out@[p] == index_byte(
                                    indices@[p / w],
                                    p % w,
                                ),
                        decreases width - k,
                    {
                        let byte: u8 = if k == 0 {
                            (index % 256) as u8
                        } else if k == 1 {
                            (index / 256) as u8
                        } else {
                            0u8
                        };
                        proof {
                            lemma_fundamental_div_mod_converse(i * w + k, w, i as int, k as int);
                        }
                        out.push(byte);
                        k = k + 1;
                    }
                    assert(i * w + w == (i + 1) * w) by (nonlinear_arith);
                    i = i + 1;
                }
                assert(out@ =~= self.spec_index_bytes(format).unwrap());
                Some(out)
            },
            None => None,
        }
    }
}

/// The attribute that `covering` finds does cover the byte.
pub proof fn lemma_covering_covers(layout: &VertexLayout, at: int, n: int)
    requires
        n <= layout.attributes@.len(),
    ensures
        match layout.covering(at, n) {
            Some(k) => 0 <= k < n && layout.attributes@[k].covers(at),
            None => true,
        },
    decreases n,
{
    if n > 0 && !layout.attributes@[n - 1].covers(at) {
        lemma_covering_covers(layout, at, n - 1);
    }
}

} // verus!
