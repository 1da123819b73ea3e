//! Bookkeeping of the device-resident key/value cache.
//!
//! The slabs themselves live on the device. The host keeps their shapes, their
//! capacity in positions and the number of positions that hold a token.

use vstd::prelude::*;

use crate::layer::{max_int, max_usize, FullPipelineLayer};

verus! {

/// Positions that a cache has room for unless a caller asks for more.
pub const DEFAULT_CUDA_KV_CACHE_MAX_SEQ: usize = 4096;

/// Slab of one layer: `max_seq * num_kv_heads * head_dim` elements, for keys and for
/// values.
#[derive(Clone, Copy, Debug, PartialEq, Eq, Structural)]
pub struct CudaKvLayer {
    pub num_kv_heads: usize,
    pub head_dim: usize,
    pub k_len: usize,
    pub v_len: usize,
}

#[derive(Debug)]
pub struct CudaKvCache {
    pub max_seq: usize,
    pub len: usize,
    pub layers: Vec<CudaKvLayer>,
}

/// Slabs that the device is asked for: heads and head width of each layer, and the
/// number of positions.
#[derive(Debug)]
pub struct KvAlloc {
    pub shapes: Vec<(usize, usize)>,
    pub max_seq: usize,
}

/// Elements of a slab.
pub open spec fn slab_elems(shape: (usize, usize), max_seq: usize) -> int {
    max_seq * shape.0 * shape.1
}

/// Every slab length can be held in a `usize`.
pub open spec fn slabs_fit(shapes: Seq<(usize, usize)>, max_seq: usize) -> bool {
    forall|i: int|
        0 <= i < shapes.len() ==> {
            &&& max_seq * (#[trigger] shapes[i]).0 <= usize::MAX
            &&& slab_elems(shapes[i], max_seq) <= usize::MAX
        }
}

/// The shapes of a cache's layers.
pub open spec fn shapes_of(layers: Seq<CudaKvLayer>) -> Seq<(usize, usize)> {
    Seq::new(layers.len(), |i: int| (layers[i].num_kv_heads, layers[i].head_dim))
}

impl CudaKvCache {
    /// Every layer's slabs have the length that its shape and the capacity demand.
    pub open spec fn wf(self) -> bool {
        forall|i: int|
            0 <= i < self.layers@.len() ==> {
                let l = #[trigger] self.layers@[i];
                &&& l.k_len == slab_elems((l.num_kv_heads, l.head_dim), self.max_seq)
                &&& l.v_len == l.k_len
            }
    }

    pub open spec fn shapes(self) -> Seq<(usize, usize)> {
        shapes_of(self.layers@)
    }

    /// Holds slabs of exactly these shapes and this capacity.
    pub open spec fn fits(self, shapes: Seq<(usize, usize)>, max_seq: usize) -> bool {
        self.max_seq == max_seq && self.shapes() == shapes
    }

    /// The cache that freshly allocated slabs make up: no position holds a token.
    pub fn new_device(shapes: &[(usize, usize)], max_seq: usize) -> (c: CudaKvCache)
        requires
            slabs_fit(shapes@, max_seq),
        ensures
            c.wf(),
            c.fits(shapes@, max_seq),
            c.len == 0,
            forall|i: int|
                0 <= i < shapes@.len() ==> {
                    let l = #[trigger] c.layers@[i];
                    &&& l.num_kv_heads == shapes@[i].0 && l.head_dim == shapes@[i].1
                    &&& l.k_len == max_seq * shapes@[i].0 * shapes@[i].1 && l.v_len == l.k_len
                },
            c.layers@.len() == shapes@.len() && c.max_seq == max_seq,
    {
        let mut layers: Vec<CudaKvLayer> = Vec::new();
        let mut i: usize = 0;
        while i < shapes.len()
            invariant
                i <= shapes@.len(),
                layers@.len() == i,
                slabs_fit(shapes@, max_seq),
                forall|k: int|
                    0 <= k < i ==> {
                        let l = #[trigger] layers@[k];
                        &&& (l.num_kv_heads, l.head_dim) == shapes@[k]
                        &&& l.k_len == slab_elems(shapes@[k], max_seq)
                        &&& l.v_len == l.k_len
                    },
            decreases shapes@.len() - i,
        {
            let shape = shapes[i];
            assert(shapes@[i as int] == shape);
            let n: usize = max_seq * shape.0 * shape.1;
            layers.push(
                CudaKvLayer { num_kv_heads: shape.0, head_dim: shape.1, k_len: n, v_len: n },
            );
            i = i + 1;
        }
        let c = CudaKvCache { max_seq, len: 0, layers };
        assert(c.shapes() =~= shapes@);
        c
    }

    /// Whether the slabs have these shapes and this capacity.
    pub fn matches_shape(&self, shapes: &[(usize, usize)], max_seq: usize) -> (r: bool)
        ensures
            r == self.fits(shapes@, max_seq),
            r <==> self.max_seq == max_seq && self.layers@.len() == shapes@.len() && forall|i: int|
                0 <= i < shapes@.len() ==> (#[trigger] self.layers@[i]).num_kv_heads == shapes@[i].0
                    && self.layers@[i].head_dim == shapes@[i].1,
    {
        if self.max_seq != max_seq || self.layers.len() != shapes.len() {
            return false;
        }
        let mut i: usize = 0;
        while i < shapes.len()
            invariant
                i <= shapes@.len(),
                self.layers@.len() == shapes@.len(),
                forall|k: int| 0 <= k < i ==> self.shapes()[k] == #[trigger] shapes@[k],
            decreases shapes@.len() - i,
        {
            let got = self.layers[i];
            let want = shapes[i];
            if got.num_kv_heads != want.0 || got.head_dim != want.1 {
                assert(self.shapes()[i as int] != shapes@[i as int]);
                return false;
            }
            i = i + 1;
        }
        assert(self.shapes() =~= shapes@);
        true
    }
}

/// The shape that a layer alone asks for.
pub open spec fn own_shape(l: FullPipelineLayer) -> (usize, usize) {
    (max_int(l.num_kv_heads as int, 1) as usize, max_int(l.head_dim as int, 1) as usize)
}

/// The shape that a layer and the caller's dimensions ask for together.
pub open spec fn joint_shape(l: FullPipelineLayer, num_kv_heads: usize, head_dim: usize) -> (
    usize,
    usize,
) {
    (
        max_int(max_int(l.num_kv_heads as int, num_kv_heads as int), 1) as usize,
        max_int(max_int(l.head_dim as int, head_dim as int), 1) as usize,
    )
}

pub open spec fn own_shapes(layers: Seq<FullPipelineLayer>) -> Seq<(usize, usize)> {
    layers.map_values(|l: FullPipelineLayer| own_shape(l))
}

pub open spec fn joint_shapes(
    layers: Seq<FullPipelineLayer>,
    num_kv_heads: usize,
    head_dim: usize,
) -> Seq<(usize, usize)> {
    layers.map_values(|l: FullPipelineLayer| joint_shape(l, num_kv_heads, head_dim))
}

fn own_shapes_of(layers: &[FullPipelineLayer]) -> (shapes: Vec<(usize, usize)>)
    ensures
        shapes@ == own_shapes(layers@),
{
    let mut shapes: Vec<(usize, usize)> = Vec::new();
    let mut i: usize = 0;
    while i < layers.len()
        invariant
            i <= layers@.len(),
            shapes@.len() == i,
            forall|k: int| 0 <= k < i ==> #[trigger] shapes@[k] == own_shape(layers@[k]),
        decreases layers@.len() - i,
    {
        let l = layers[i];
        shapes.push((max_usize(l.num_kv_heads, 1), max_usize(l.head_dim, 1)));
        i = i + 1;
    }
    assert(shapes@ =~= own_shapes(layers@));
    shapes
}

fn joint_shapes_of(layers: &[FullPipelineLayer], num_kv_heads: usize, head_dim: usize) -> (shapes:
    Vec<(usize, usize)>)
    ensures
        shapes@ == joint_shapes(layers@, num_kv_heads, head_dim),
{
    let mut shapes: Vec<(usize, usize)> = Vec::new();
    let mut i: usize = 0;
    while i < layers.len()
        invariant
            i <= layers@.len(),
            shapes@.len() == i,
            forall|k: int|
                0 <= k < i ==> #[trigger] shapes@[k] == joint_shape(
                    layers@[k],
                    num_kv_heads,
                    head_dim,
                ),
        decreases layers@.len() - i,
    {
        let l = layers[i];
        shapes.push(
            (
                max_usize(max_usize(l.num_kv_heads, num_kv_heads), 1),
                max_usize(max_usize(l.head_dim, head_dim), 1),
            ),
        );
        i = i + 1;
    }
    assert(shapes@ =~= joint_shapes(layers@, num_kv_heads, head_dim));
    shapes
}

/// The place that holds the cache, empty until slabs have been allocated.
#[derive(Debug)]
pub struct KvCacheSlot {
    pub cache: Option<CudaKvCache>,
}

/// The capacity that a cache is brought to: its own, but at least the default.
pub open spec fn ready_max_seq(c: CudaKvCache) -> usize {
    max_int(c.max_seq as int, DEFAULT_CUDA_KV_CACHE_MAX_SEQ as int) as usize
}

impl KvCacheSlot {
    pub open spec fn wf(self) -> bool {
        self.cache matches Some(c) ==> c.wf()
    }

    /// The number of positions that hold a token.
    pub open spec fn positions(self) -> nat {
        match self.cache {
            Some(c) => c.len as nat,
            None => 0,
        }
    }

    /// The slabs are those of another slot: at most the count of positions differs.
    pub open spec fn same_slabs(self, o: KvCacheSlot) -> bool {
        &&& self.cache is Some == o.cache is Some
        &&& self.cache matches Some(c) ==> c.max_seq == o.cache->0.max_seq && c.layers
            == o.cache->0.layers
    }

    /// No more positions are counted than the slabs have room for.
    pub open spec fn bounded(self) -> bool {
        self.cache matches Some(c) ==> c.len <= c.max_seq
    }

    /// The cache is there and fits the layers.
    pub open spec fn ready(self, layers: Seq<FullPipelineLayer>) -> bool {
        self.cache matches Some(c) && c.fits(own_shapes(layers), ready_max_seq(c))
    }

    /// What has to be allocated next before the layers can run: slabs for the layers
    /// and the caller's dimensions where there are none, slabs for the layers alone
    /// where those that are there do not fit.
    pub open spec fn wanted(
        self,
        layers: Seq<FullPipelineLayer>,
        num_kv_heads: usize,
        head_dim: usize,
    ) -> Option<(Seq<(usize, usize)>, usize)> {
        match self.cache {
            None => Some(
                (joint_shapes(layers, num_kv_heads, head_dim), DEFAULT_CUDA_KV_CACHE_MAX_SEQ),
            ),
            Some(c) => if c.fits(own_shapes(layers), ready_max_seq(c)) {
                None
            } else {
                Some((own_shapes(layers), ready_max_seq(c)))
            },
        }
    }

    pub fn new() -> (s: KvCacheSlot)
        ensures
            s.cache is None,
            s.wf(),
            s.bounded(),
    {
        KvCacheSlot { cache: None }
    }

    /// Forgets every position; the slabs stay.
    pub fn reset_kv_cache(&mut self)
        requires
            old(self).wf(),
        ensures
            final(self).wf(),
            final(self).bounded(),
            final(self).positions() == 0,
            final(self).same_slabs(*old(self)),
    {
        if let Some(c) = &mut self.cache {
            c.len = 0;
        }
    }

    /// The number of positions that hold a token.
    pub fn kv_cache_len(&self) -> (n: usize)
        ensures
            n == self.positions(),
            self.cache matches Some(c) ==> n == c.len,
            self.cache is None ==> n == 0,
    {
        match &self.cache {
            Some(c) => c.len,
            None => 0,
        }
    }

    /// Forgets the positions from `len` on.
    pub fn truncate_kv_cache(&mut self, len: usize)
        requires
            old(self).wf(),
        ensures
            final(self).wf(),
            old(self).bounded() ==> final(self).bounded(),
            final(self).positions() == if len < old(self).positions() {
                len as nat
            } else {
                old(self).positions()
            },
            final(self).same_slabs(*old(self)),
    {
        if let Some(c) = &mut self.cache {
            if len < c.len {
                c.len = len;
            }
        }
    }

    /// Counts the positions below `len` as filled.
    pub fn advance(&mut self, len: usize)
        requires
            old(self).wf(),
            old(self).cache is Some,
        ensures
            final(self).wf(),
            final(self).positions() == len,
            final(self).same_slabs(*old(self)),
            len <= old(self).cache->0.max_seq ==> final(self).bounded(),
    {
        if let Some(c) = &mut self.cache {
            c.len = len;
        }
    }

    /// There are no slabs of exactly these shapes and this capacity.
    pub open spec fn lacks(self, shapes: Seq<(usize, usize)>, max_seq: usize) -> bool {
        !(self.cache matches Some(c) && c.fits(shapes, max_seq))
    }

    /// Whether slabs of these shapes have to be allocated (`replace` takes over the
    /// outcome). Where they are there already, every position is forgotten instead.
    pub fn preallocate_kv_cache_per_layer(
        &mut self,
        shapes: &[(usize, usize)],
        max_seq: usize,
    ) -> (r: bool)
        requires
            old(self).wf(),
        ensures
            r == old(self).lacks(shapes@, max_seq),
            r ==> *final(self) == *old(self),
            !r ==> {
                &&& final(self).wf()
                &&& final(self).bounded()
                &&& final(self).positions() == 0
                &&& final(self).same_slabs(*old(self))
                &&& !final(self).lacks(shapes@, max_seq)
            },
    {
        let fits: bool = match &self.cache {
            Some(c) => c.matches_shape(shapes, max_seq),
            None => false,
        };
        if fits {
            let ghost before = self.cache->0;
            self.reset_kv_cache();
            assert(self.cache->0.shapes() =~= before.shapes());
        }
        !fits
    }

    /// Takes over the outcome of an allocation that replaces whatever was there: the
    /// fresh slabs, or nothing if the device refused.
    pub fn replace(&mut self, shapes: &[(usize, usize)], max_seq: usize, allocated: bool)
        requires
            slabs_fit(shapes@, max_seq),
        ensures
            final(self).wf(),
            final(self).bounded(),
            final(self).positions() == 0,
            allocated ==> !final(self).lacks(shapes@, max_seq),
            !allocated ==> final(self).cache is None,
    {
        if allocated {
            self.cache = Some(CudaKvCache::new_device(shapes, max_seq));
        } else {
            self.cache = None;
        }
    }

    /// The allocation that has to be made next before the layers can run.
    pub fn next_alloc(
        &self,
        layers: &[FullPipelineLayer],
        num_kv_heads: usize,
        head_dim: usize,
    ) -> (r: Option<KvAlloc>)
        ensures
            match r {
                Some(a) => self.wanted(layers@, num_kv_heads, head_dim) == Some(
                    (a.shapes@, a.max_seq),
                ),
                None => self.wanted(layers@, num_kv_heads, head_dim) is None,
            },
            r is None ==> self.ready(layers@),
            r matches Some(a) ==> a.shapes@.len() == layers@.len() && a.max_seq >= 4096,
            r is Some && self.cache is None ==> r->0.max_seq == 4096,
    {
        match &self.cache {
            None => Some(
                KvAlloc {
                    shapes: joint_shapes_of(layers, num_kv_heads, head_dim),
                    max_seq: DEFAULT_CUDA_KV_CACHE_MAX_SEQ,
                },
            ),
            Some(c) => {
                let shapes: Vec<(usize, usize)> = own_shapes_of(layers);
                let max_seq: usize = max_usize(c.max_seq, DEFAULT_CUDA_KV_CACHE_MAX_SEQ);
                if c.matches_shape(shapes.as_slice(), max_seq) {
                    None
                } else {
                    Some(KvAlloc { shapes, max_seq })
                }
            },
        }
    }

    /// Takes over the outcome of an allocation that `next_alloc` asked for. Slabs that
    /// were there stay if the device refused.
    pub fn ensure_for_layers(&mut self, alloc: &KvAlloc, allocated: bool)
        requires
            old(self).wf(),
            slabs_fit(alloc.shapes@, alloc.max_seq),
        ensures
            final(self).wf(),
            allocated ==> (final(self).cache matches Some(c) && c.fits(
                alloc.shapes@,
                alloc.max_seq,
            ) && c.len == 0),
            !allocated ==> *final(self) == *old(self),
    {
        if allocated {
            self.cache = Some(CudaKvCache::new_device(alloc.shapes.as_slice(), alloc.max_seq));
        }
    }

    /// Whether seeding layer `layer` needs slabs that are not there.
    pub open spec fn seed_needs_alloc(self, layer: usize) -> bool {
        match self.cache {
            Some(c) => c.layers@.len() <= layer,
            None => true,
        }
    }

    /// The shapes that seeding layer `layer` asks for: those that are there, and the
    /// seeded shape for every layer up to and including `layer`.
    pub open spec fn seed_shapes(self, layer: usize, shape: (usize, usize)) -> Seq<(usize, usize)> {
        let have = match self.cache {
            Some(c) => c.shapes(),
            None => Seq::empty(),
        };
        Seq::new(
            (layer + 1) as nat,
            |i: int|
                if i < have.len() {
                    have[i]
                } else {
                    shape
                },
        )
    }

    /// The allocation that has to be made, by `replace`, before layer `layer` can be
    /// seeded.
    pub fn seed_alloc(&self, layer: usize, seq_len: usize, num_kv_heads: usize, head_dim: usize)
        -> (r: Option<KvAlloc>)
        requires
            layer < usize::MAX,
        ensures
            r is Some == self.seed_needs_alloc(layer),
            r matches Some(a) ==> a.shapes@ == self.seed_shapes(layer, (num_kv_heads, head_dim))
                && a.max_seq == max_int(seq_len as int, DEFAULT_CUDA_KV_CACHE_MAX_SEQ as int),
            r matches Some(a) ==> a.max_seq >= seq_len && a.max_seq >= 4096 && (a.max_seq == seq_len
                || a.max_seq == 4096) && a.shapes@.len() == layer + 1,
    {
        let mut shapes: Vec<(usize, usize)> = Vec::new();
        if let Some(c) = &self.cache {
            if c.layers.len() > layer {
                return None;
            }
            let mut i: usize = 0;
            while i < c.layers.len()
                invariant
                    i <= c.layers@.len(),
                    shapes@.len() == i,
                    forall|k: int| 0 <= k < i ==> #[trigger] shapes@[k] == c.shapes()[k],
                decreases c.layers@.len() - i,
            {
                let l = c.layers[i];
                shapes.push((l.num_kv_heads, l.head_dim));
                i = i + 1;
            }
        }
        while shapes.len() <= layer
            invariant
                layer < usize::MAX,
                self.seed_needs_alloc(layer),
                shapes@.len() <= layer + 1,
                self.cache matches Some(c) ==> shapes@.len() >= c.layers@.len(),
                forall|k: int|
                    0 <= k < shapes@.len() ==> #[trigger] shapes@[k] == self.seed_shapes(
                        layer,
                        (num_kv_heads, head_dim),
                    )[k],
            decreases layer + 1 - shapes@.len(),
        {
            shapes.push((num_kv_heads, head_dim));
        }
        assert(shapes@ =~= self.seed_shapes(layer, (num_kv_heads, head_dim)));
        Some(KvAlloc { shapes, max_seq: max_usize(seq_len, DEFAULT_CUDA_KV_CACHE_MAX_SEQ) })
    }

    /// Whether `seq_len` rows of the given shape can be seeded into layer `layer` from
    /// host data of the given lengths.
    pub open spec fn seedable(
        self,
        layer: usize,
        k_data_len: usize,
        v_data_len: usize,
        seq_len: usize,
        num_kv_heads: usize,
        head_dim: usize,
    ) -> bool {
        let n = seq_len * num_kv_heads * head_dim;
        &&& self.cache matches Some(c) && {
            &&& layer < c.layers@.len()
            &&& c.layers@[layer as int].num_kv_heads == num_kv_heads
            &&& c.layers@[layer as int].head_dim == head_dim
            &&& n <= c.layers@[layer as int].k_len
            &&& n <= c.layers@[layer as int].v_len
        }
        &&& n <= k_data_len
        &&& n <= v_data_len
    }

    /// The number of elements that go from the host data to the front of the slabs of
    /// layer `layer`; `None` where the data or the slabs do not fit.
    pub fn populate_kv_layer(
        &self,
        layer: usize,
        k_data_len: usize,
        v_data_len: usize,
        seq_len: usize,
        num_kv_heads: usize,
        head_dim: usize,
    ) -> (r: Option<usize>)
        requires
            seq_len * num_kv_heads <= usize::MAX,
            seq_len * num_kv_heads * head_dim <= usize::MAX,
        ensures
            r is Some == self.seedable(
                layer,
                k_data_len,
                v_data_len,
                seq_len,
                num_kv_heads,
                head_dim,
            ),
            r matches Some(n) ==> n == seq_len * num_kv_heads * head_dim,
    {
        let c = match &self.cache {
            Some(c) => c,
            None => return None,
        };
        let n: usize = seq_len * num_kv_heads * head_dim;
        if k_data_len < n || v_data_len < n || layer >= c.layers.len() {
            return None;
        }
        let slot = c.layers[layer];
        if slot.num_kv_heads != num_kv_heads || slot.head_dim != head_dim || slot.k_len < n
            || slot.v_len < n {
            return None;
        }
        Some(n)
    }

    /// Counts seeded rows: the cache is as long as its longest seeded layer.
    pub fn seeded(&mut self, seq_len: usize)
        requires
            old(self).wf(),
            old(self).cache is Some,
        ensures
            final(self).wf(),
            final(self).positions() == max_int(old(self).positions() as int, seq_len as int),
            final(self).same_slabs(*old(self)),
    {
        if let Some(c) = &mut self.cache {
            c.len = max_usize(c.len, seq_len);
        }
    }
}

/// Preallocation is idempotent: once slabs of the shapes are there, and as long as only the
/// count of positions changes, the same call asks for no allocation. One for other shapes or
/// another capacity does.
pub proof fn law_preallocation_is_idempotent(
    first: KvCacheSlot,
    later: KvCacheSlot,
    shapes: Seq<(usize, usize)>,
    max_seq: usize,
    other_shapes: Seq<(usize, usize)>,
    other_max_seq: usize,
)
    requires
        !first.lacks(shapes, max_seq),
        later.same_slabs(first),
    ensures
        !later.lacks(shapes, max_seq),
        other_shapes != shapes || other_max_seq != max_seq ==> later.lacks(
            other_shapes,
            other_max_seq,
        ),
{
    assert(later.cache->0.shapes() =~= first.cache->0.shapes());
}

/// Once the allocation that `next_alloc` asks for on an empty slot has been made, at
/// most one more is asked for, and after that the cache is ready.
pub proof fn law_two_allocations_suffice(
    s0: KvCacheSlot,
    s1: KvCacheSlot,
    s2: KvCacheSlot,
    layers: Seq<FullPipelineLayer>,
    num_kv_heads: usize,
    head_dim: usize,
)
    requires
        s0.wanted(layers, num_kv_heads, head_dim) matches Some(a) && s1.cache matches Some(c)
            && c.fits(a.0, a.1),
        s1.wanted(layers, num_kv_heads, head_dim) matches Some(a) ==> (s2.cache matches Some(c)
            && c.fits(a.0, a.1)),
        s1.wanted(layers, num_kv_heads, head_dim) is None ==> s2 == s1,
    ensures
        s2.wanted(layers, num_kv_heads, head_dim) is None,
        s2.ready(layers),
{
}

/// Where the caller's head counts and widths do not exceed those of the layers, one
/// allocation is enough.
pub proof fn law_one_allocation_where_layers_lead(
    s0: KvCacheSlot,
    s1: KvCacheSlot,
    layers: Seq<FullPipelineLayer>,
    num_kv_heads: usize,
    head_dim: usize,
)
    requires
        forall|i: int|
            0 <= i < layers.len() ==> num_kv_heads <= max_int(
                (#[trigger] layers[i]).num_kv_heads as int,
                1,
            ) && head_dim <= max_int(layers[i].head_dim as int, 1),
        s0.wanted(layers, num_kv_heads, head_dim) matches Some(a) && s1.cache matches Some(c)
            && c.fits(a.0, a.1),
    ensures
        s1.wanted(layers, num_kv_heads, head_dim) is None,
{
    assert(joint_shapes(layers, num_kv_heads, head_dim) =~= own_shapes(layers));
}

/// Seeding never counts more positions than the slabs have room for, where heads and
/// head width are not zero.
pub proof fn law_seeding_stays_bounded(
    s: KvCacheSlot,
    layer: usize,
    k_data_len: usize,
    v_data_len: usize,
    seq_len: usize,
    num_kv_heads: usize,
    head_dim: usize,
)
    requires
        s.wf(),
        s.seedable(layer, k_data_len, v_data_len, seq_len, num_kv_heads, head_dim),
        num_kv_heads > 0,
        head_dim > 0,
    ensures
        seq_len <= s.cache->0.max_seq,
{
    let c = s.cache->0;
    assert(c.layers@[layer as int].k_len == slab_elems((num_kv_heads, head_dim), c.max_seq));
    assert(seq_len <= c.max_seq) by (nonlinear_arith)
        requires
            seq_len * num_kv_heads * head_dim <= c.max_seq * num_kv_heads * head_dim,
            num_kv_heads > 0,
            head_dim > 0,
    ;
}

/// A slab has an element for each position, head and place in a head: as many for each position
/// as heads times width.
pub proof fn law_slab_elems(shape: (usize, usize), max_seq: usize)
    ensures
        slab_elems(shape, max_seq) == max_seq * (shape.0 * shape.1),
        max_seq > 0 ==> slab_elems(shape, max_seq) == slab_elems(shape, (max_seq - 1) as usize)
            + shape.0 * shape.1,
        slab_elems(shape, 0) == 0,
{
    assert(max_seq * shape.0 * shape.1 == max_seq * (shape.0 * shape.1)) by (nonlinear_arith);
    if max_seq > 0 {
        let m = (max_seq - 1) as usize;
        assert(m * shape.0 * shape.1 == max_seq * (shape.0 * shape.1) - shape.0 * shape.1)
            by (nonlinear_arith)
            requires
                m == max_seq - 1,
        ;
    }
    assert(0 * shape.0 * shape.1 == 0) by (nonlinear_arith);
}

/// Position `p` has room in the slabs of a well-formed cache just if it is below its capacity,
/// where heads and width are not zero.
pub proof fn law_positions_have_room(c: CudaKvCache, i: int, p: int)
    requires
        c.wf(),
        0 <= i < c.layers@.len(),
        0 <= p,
        c.layers@[i].num_kv_heads > 0,
        c.layers@[i].head_dim > 0,
    ensures
        ({
            let row = c.layers@[i].num_kv_heads * c.layers@[i].head_dim;
            &&& (p + 1) * row <= c.layers@[i].k_len <==> p < c.max_seq
            &&& (p + 1) * row <= c.layers@[i].v_len <==> p < c.max_seq
        }),
{
    let l = c.layers@[i];
    let row = l.num_kv_heads * l.head_dim;
    law_slab_elems((l.num_kv_heads, l.head_dim), c.max_seq);
    assert(row > 0) by (nonlinear_arith)
        requires
            row == l.num_kv_heads * l.head_dim,
            l.num_kv_heads > 0,
            l.head_dim > 0,
    ;
    assert((p + 1) * row <= c.max_seq * row <==> p + 1 <= c.max_seq) by (nonlinear_arith)
        requires
            row > 0,
    ;
}

/// The shape that a layer asks for has at least one head and one element, and its own numbers
/// where those are larger; together with the caller's it covers both.
pub proof fn law_shapes_cover(l: FullPipelineLayer, num_kv_heads: usize, head_dim: usize)
    ensures
        ({
            let own = own_shape(l);
            let both = joint_shape(l, num_kv_heads, head_dim);
            &&& own.0 >= 1 && own.1 >= 1
            &&& l.num_kv_heads >= 1 ==> own.0 == l.num_kv_heads
            &&& l.head_dim >= 1 ==> own.1 == l.head_dim
            &&& l.num_kv_heads == 0 ==> own.0 == 1
            &&& l.head_dim == 0 ==> own.1 == 1
            &&& both.0 >= own.0 && both.0 >= num_kv_heads && (both.0 == own.0 || both.0
                == num_kv_heads)
            &&& both.1 >= own.1 && both.1 >= head_dim && (both.1 == own.1 || both.1 == head_dim)
        }),
{
}

/// What an empty slot asks for covers every layer and the caller: a slab for each layer that is
/// no smaller in heads or width than the layer or the call, and room for 4096 positions.
pub proof fn law_first_allocation_covers(
    s: KvCacheSlot,
    layers: Seq<FullPipelineLayer>,
    num_kv_heads: usize,
    head_dim: usize,
    i: int,
)
    requires
        s.cache is None,
        0 <= i < layers.len(),
    ensures
        s.wanted(layers, num_kv_heads, head_dim) matches Some((shapes, max_seq)) && {
            &&& shapes.len() == layers.len()
            &&& max_seq == 4096
            &&& shapes[i].0 >= num_kv_heads && shapes[i].0 >= layers[i].num_kv_heads && shapes[i].0
                >= 1
            &&& shapes[i].1 >= head_dim && shapes[i].1 >= layers[i].head_dim && shapes[i].1 >= 1
            &&& shapes[i].0 == num_kv_heads || shapes[i].0 == layers[i].num_kv_heads
                || shapes[i].0 == 1
            &&& shapes[i].1 == head_dim || shapes[i].1 == layers[i].head_dim || shapes[i].1 == 1
        },
{
}

/// A cache is left alone just where its slabs have the layers' own shapes and it has room for
/// 4096 positions at least. Else slabs of those shapes are asked for, with the room that it had,
/// but for no fewer than 4096 positions.
pub proof fn law_refit(
    s: KvCacheSlot,
    layers: Seq<FullPipelineLayer>,
    num_kv_heads: usize,
    head_dim: usize,
)
    requires
        s.cache is Some,
    ensures
        s.wanted(layers, num_kv_heads, head_dim) is None <==> s.cache->0.max_seq >= 4096
            && s.cache->0.shapes() == own_shapes(layers),
        s.wanted(layers, num_kv_heads, head_dim) matches Some((shapes, max_seq)) ==> {
            &&& shapes == own_shapes(layers)
            &&& max_seq >= s.cache->0.max_seq && max_seq >= 4096
            &&& max_seq == s.cache->0.max_seq || max_seq == 4096
        },
        s.ready(layers) <==> s.wanted(layers, num_kv_heads, head_dim) is None,
        own_shapes(layers).len() == layers.len(),
        forall|i: int|
            0 <= i < layers.len() ==> #[trigger] own_shapes(layers)[i] == own_shape(layers[i]),
{
}

/// Seeding a layer keeps the shapes of the layers that are there and gives the seeded shape to
/// every layer from there up to it. It asks for slabs just where the layer has none.
pub proof fn law_seed_shapes(s: KvCacheSlot, layer: usize, shape: (usize, usize), i: int)
    requires
        0 <= i <= layer,
    ensures
        s.seed_shapes(layer, shape).len() == layer + 1,
        s.cache is None ==> s.seed_shapes(layer, shape)[i] == shape && s.seed_needs_alloc(layer),
        s.cache matches Some(c) ==> {
            &&& i < c.layers@.len() ==> s.seed_shapes(layer, shape)[i] == (
                c.layers@[i].num_kv_heads,
                c.layers@[i].head_dim,
            )
            &&& i >= c.layers@.len() ==> s.seed_shapes(layer, shape)[i] == shape
            &&& s.seed_needs_alloc(layer) <==> layer >= c.layers@.len()
        },
{
}

/// Rows can be seeded into a layer just where it is there with their shape and all their elements
/// are in the data and have room in the slabs.
pub proof fn law_seedable(
    s: KvCacheSlot,
    layer: usize,
    k_data_len: usize,
    v_data_len: usize,
    seq_len: usize,
    shape: (usize, usize),
)
    requires
        s.wf(),
        s.cache is Some,
        shape.0 > 0,
        shape.1 > 0,
    ensures
        s.seedable(layer, k_data_len, v_data_len, seq_len, shape.0, shape.1) <==> {
            &&& layer < s.cache->0.layers@.len()
            &&& s.cache->0.layers@[layer as int].num_kv_heads == shape.0
            &&& s.cache->0.layers@[layer as int].head_dim == shape.1
            &&& seq_len <= s.cache->0.max_seq
            &&& k_data_len >= seq_len * (shape.0 * shape.1)
            &&& v_data_len >= seq_len * (shape.0 * shape.1)
        },
{
    let c = s.cache->0;
    let row = shape.0 * shape.1;
    assert(seq_len * shape.0 * shape.1 == seq_len * row) by (nonlinear_arith)
        requires
            row == shape.0 * shape.1,
    ;
    assert(row > 0) by (nonlinear_arith)
        requires
            row == shape.0 * shape.1,
            shape.0 > 0,
            shape.1 > 0,
    ;
    law_slab_elems(shape, c.max_seq);
    assert(seq_len * row <= c.max_seq * row <==> seq_len <= c.max_seq) by (nonlinear_arith)
        requires
            row > 0,
    ;
}

/// The positions of a slot are those that its cache counts, none without a cache, and they are
/// bounded by what the slabs have room for. Slots with the same slabs differ in nothing else.
pub proof fn law_positions(s: KvCacheSlot, o: KvCacheSlot)
    requires
        s.same_slabs(o),
    ensures
        s.cache matches Some(c) ==> s.positions() == c.len && (s.bounded() <==> s.positions()
            <= c.max_seq),
        s.cache is None ==> s.positions() == 0 && s.bounded() && o.cache is None,
        s.cache is Some ==> o.cache is Some && s.cache->0.max_seq == o.cache->0.max_seq
            && s.cache->0.layers == o.cache->0.layers && s.cache->0.shapes() == o.cache->0.shapes(),
        s.positions() == o.positions() ==> s == o,
{
}

} // verus!
