//! Vertex layouts, the index format, and the registry of the one layout that
//! is active in a run.

use vstd::prelude::*;

verus! {

/// Format of one vertex attribute.
#[derive(Clone, Copy, Debug, PartialEq, Eq, Structural, Hash)]
pub enum VertexFormat {
    Uchar4,
    Float,
    Float2,
    Float3,
    Float4,
}

impl VertexFormat {
    /// Bytes that one value of this format takes.
    pub open spec fn spec_size(self) -> nat {
        match self {
            VertexFormat::Uchar4 => 4,
            VertexFormat::Float => 4,
            VertexFormat::Float2 => 8,
            VertexFormat::Float3 => 12,
            VertexFormat::Float4 => 16,
        }
    }

    /// Bytes that one value of this format takes.
    pub fn size(self) -> (bytes: usize)
        ensures
            bytes == self.spec_size(),
    {
        match self {
            VertexFormat::Uchar4 => 4,
            VertexFormat::Float => 4,
            VertexFormat::Float2 => 8,
            VertexFormat::Float3 => 12,
            VertexFormat::Float4 => 16,
        }
    }
}

/// One attribute of a vertex layout: where in a vertex's record its value
/// stands.
#[derive(Clone, Debug, PartialEq, Eq)]
pub struct VertexAttribute {
    pub name: String,
    pub format: VertexFormat,
    pub offset: usize,
}

impl VertexAttribute {
    /// Whether byte `at` of a vertex's record belongs to this attribute's value.
    pub open spec fn covers(&self, at: int) -> bool {
        self.offset <= at < self.offset + self.format.spec_size()
    }

    /// Whether this attribute's value ends within a record of `stride` bytes.
    pub open spec fn within(&self, stride: usize) -> bool {
        self.offset + self.format.spec_size() <= stride
    }
}

/// How the attributes of one vertex are laid out in a vertex buffer: `stride`
/// bytes for each vertex, each attribute at its offset.
#[derive(Clone, Debug, PartialEq, Eq)]
pub struct VertexLayout {
    pub name: String,
    pub stride: usize,
    pub attributes: Vec<VertexAttribute>,
}

impl VertexLayout {
    /// Whether every attribute's value ends within the stride.
    pub open spec fn fits(&self) -> bool {
        forall|k: int|
            0 <= k < self.attributes@.len() ==> (#[trigger] self.attributes@[k]).within(self.stride)
    }

    /// Among the first `n` attributes, the one whose value holds byte `at` of
    /// a vertex's record. Where several cover the byte, it is the last of
    /// them.
    pub open spec fn covering(&self, at: int, n: int) -> Option<int>
        decreases n,
    {
        if n <= 0 {
            None
        } else if self.attributes@[n - 1].covers(at) {
            Some(n - 1)
        } else {
            self.covering(at, n - 1)
        }
    }

    /// The attribute whose value holds byte `at` of a vertex's record, if any
    /// does.
    pub fn covering_attribute(&self, at: usize) -> (found: Option<usize>)
        ensures
            match found {
                Some(k) => self.covering(at as int, self.attributes@.len() as int) == Some(k as int)
                    && k < self.attributes@.len(),
                None => self.covering(at as int, self.attributes@.len() as int) is None,
            },
    {
        let mut k: usize = self.attributes.len();
        while k > 0
            invariant
                k <= self.attributes@.len(),
                self.covering(at as int, self.attributes@.len() as int) == self.covering(
                    at as int,
                    k as int,
                ),
            decreases k,
        {
            k = k - 1;
            let attribute = &self.attributes[k];
            let size: usize = attribute.format.size();
            if attribute.offset <= at && at - attribute.offset < size {
                return Some(k);
            }
        }
        None
    }
}

/// Format of the entries of an index buffer.
#[derive(Clone, Copy, Debug, PartialEq, Eq, Structural, Hash)]
pub enum IndexFormat {
    Uint16,
    Uint32,
}

/// The format in which index data is uploaded. It is fixed: no mesh chooses
/// its own.
pub const INDEX_FORMAT: IndexFormat = IndexFormat::Uint16;

/// Record of the one vertex layout that is active. Every mesh's vertex buffer
/// is created under it.
#[derive(Debug)]
pub struct VertexLayoutRegistry {
    pub active: Option<VertexLayout>,
}

impl IndexFormat {
    /// Bytes that one index takes in this format.
    pub open spec fn spec_width(self) -> nat {
        match self {
            IndexFormat::Uint16 => 2,
            IndexFormat::Uint32 => 4,
        }
    }

    /// Bytes that one index takes in this format.
    pub fn width(self) -> (bytes: usize)
        ensures
            bytes == self.spec_width(),
    {
        match self {
            IndexFormat::Uint16 => 2,
            IndexFormat::Uint32 => 4,
        }
    }
}

impl VertexLayoutRegistry {
    /// A registry in which no layout has been registered yet.
    pub fn new() -> (registry: Self)
        ensures
            registry.active is None,
    {
        VertexLayoutRegistry { active: None }
    }

    /// Makes `layout` the active layout, in place of any earlier one.
    pub fn register(&mut self, layout: VertexLayout)
        ensures
            final(self).active == Some(layout),
    {
        self.active = Some(layout);
    }
}

} // verus!
