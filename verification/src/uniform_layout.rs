//! Layout of uniform blocks: each uniform is padded to its std140 alignment, and every
//! uniform block gets a buffer large enough for all of its uniforms.

use vstd::prelude::*;

verus! {

/// The type of data a uniform holds; arrays give their number of elements.
#[derive(Copy, Clone, Debug)]
pub enum UniformType {
    Vec3,
    Vec4,
    Mat4x4Float,
    Int,
    UInt,
    Float,
    UIntArray(u16),
    FloatArray(u16),
    Vec3Array(u16),
    Vec4Array(u16),
    Mat4Array(u16),
}

/// The size in bytes a uniform of type `t` takes.
pub open spec fn uniform_size(t: UniformType) -> nat {
    match t {
        UniformType::Mat4x4Float => 64,
        UniformType::UInt | UniformType::Int | UniformType::Float => 4,
        UniformType::FloatArray(i) => (i * 16) as nat,
        UniformType::Vec3 => 12,
        UniformType::Vec4 => 16,
        UniformType::UIntArray(i) => (i * 16) as nat,
        UniformType::Vec3Array(i) => (i * 16) as nat,
        UniformType::Vec4Array(i) => (i * 16) as nat,
        UniformType::Mat4Array(i) => (i * 64) as nat,
    }
}

/// The alignment in bytes of a uniform of type `t`: scalars align to 4 bytes, everything
/// else to 16.
pub open spec fn uniform_alignment(t: UniformType) -> nat {
    match t {
        UniformType::UInt | UniformType::Int | UniformType::Float => 4,
        _ => 16,
    }
}

/// The padding in bytes after each element of an array uniform of type `t`.
pub open spec fn uniform_sub_padding(t: UniformType) -> int {
    match t {
        UniformType::FloatArray(_) | UniformType::UIntArray(_) => 12,
        UniformType::Vec3Array(_) => 4,
        _ => 0,
    }
}

/// The padding that rounds `n` up to a multiple of `m`; `n` itself when `m` is 0.
pub open spec fn spec_padding(n: nat, m: nat) -> nat {
    if m == 0 {
        n
    } else if n % m == 0 {
        0
    } else {
        (m - n % m) as nat
    }
}

/// The number of bytes the first `k` uniforms of a block with types `types` take, with
/// each uniform padded to its alignment.
pub open spec fn block_end(types: Seq<UniformType>, k: nat) -> nat
    decreases k,
{
    if k == 0 {
        0
    } else {
        let before = block_end(types, (k - 1) as nat);
        before + spec_padding(before, uniform_alignment(types[k - 1])) + uniform_size(types[k - 1])
    }
}

/// The byte offset of the uniform at position `k` of a block with types `types`.
pub open spec fn uniform_offset(types: Seq<UniformType>, k: nat) -> nat {
    block_end(types, k) + spec_padding(block_end(types, k), uniform_alignment(types[k as int]))
}

/// The std140 array rule: each element of an array uniform takes a slot of its element
/// type's size rounded up to 16 bytes, so an array of `n` elements takes `n` such slots
/// (16 bytes per float, uint, vec3 or vec4 element, 64 per mat4 element); the padding after
/// each element fills its slot.
pub proof fn lemma_array_uniform_sizes(n: u16)
    ensures
        uniform_size(UniformType::FloatArray(n)) == 16 * n,
        uniform_size(UniformType::UIntArray(n)) == 16 * n,
        uniform_size(UniformType::Vec3Array(n)) == 16 * n,
        uniform_size(UniformType::Vec4Array(n)) == 16 * n,
        uniform_size(UniformType::Mat4Array(n)) == 64 * n,
        uniform_size(UniformType::FloatArray(n)) == n * (uniform_size(UniformType::Float) + spec_padding(
            uniform_size(UniformType::Float),
            16,
        )),
        uniform_size(UniformType::UIntArray(n)) == n * (uniform_size(UniformType::UInt) + spec_padding(
            uniform_size(UniformType::UInt),
            16,
        )),
        uniform_size(UniformType::Vec3Array(n)) == n * (uniform_size(UniformType::Vec3) + spec_padding(
            uniform_size(UniformType::Vec3),
            16,
        )),
        uniform_size(UniformType::Vec4Array(n)) == n * (uniform_size(UniformType::Vec4) + spec_padding(
            uniform_size(UniformType::Vec4),
            16,
        )),
        uniform_size(UniformType::Mat4Array(n)) == n * (uniform_size(UniformType::Mat4x4Float) + spec_padding(
            uniform_size(UniformType::Mat4x4Float),
            16,
        )),
        uniform_size(UniformType::Float) + uniform_sub_padding(UniformType::FloatArray(n)) == 16,
        uniform_size(UniformType::UInt) + uniform_sub_padding(UniformType::UIntArray(n)) == 16,
        uniform_size(UniformType::Vec3) + uniform_sub_padding(UniformType::Vec3Array(n)) == 16,
        uniform_size(UniformType::Vec4) + uniform_sub_padding(UniformType::Vec4Array(n)) == 16,
        uniform_size(UniformType::Mat4x4Float) + uniform_sub_padding(UniformType::Mat4Array(n)) == 64,
{
}

/// The sizes of the single values follow GLSL: 4 bytes per scalar component.
pub proof fn lemma_single_uniform_sizes()
    ensures
        uniform_size(UniformType::Float) == 4,
        uniform_size(UniformType::Int) == 4,
        uniform_size(UniformType::UInt) == 4,
        uniform_size(UniformType::Vec3) == 3 * 4,
        uniform_size(UniformType::Vec4) == 4 * 4,
        uniform_size(UniformType::Mat4x4Float) == 16 * 4,
{
}

/// Specifies a uniform: its name and the data it holds.
#[derive(Clone)]
pub struct Uniform {
    pub name: String,
    pub uniform_type: UniformType,
}

/// The uniforms in one uniform block, and the number of backing buffers used to avoid
/// stalling when the uniforms are updated.
#[derive(Clone)]
pub struct UniformBlock {
    pub block_name: String,
    pub number_buffers: usize,
    pub uniforms: Vec<Uniform>,
}

/// The types of the uniforms of a block, in order.
pub open spec fn block_types(block: UniformBlock) -> Seq<UniformType> {
    block.uniforms@.map_values(|u: Uniform| u.uniform_type)
}

/// Where a uniform's data is written: which block buffer, at which byte offset, and the
/// padding after each array element.
#[derive(Copy, Clone, Debug)]
pub struct UniformDataLocation {
    pub mapped_buffer_index: usize,
    pub offset_bytes: isize,
    pub sub_padding_bytes: isize,
}

/// The layout of a sequence of uniform blocks.
pub struct UniformLayout {
    /// The size in bytes of each block's buffer.
    pub block_sizes: Vec<usize>,
    /// The location of each uniform, by block and position in the block.
    pub locations: Vec<Vec<UniformDataLocation>>,
}

impl Uniform {
    /// Specifies a uniform.
    pub fn new(name: String, uniform_type: UniformType) -> (r: Uniform)
        ensures
            r.name == name,
            r.uniform_type == uniform_type,
    {
        Uniform { name, uniform_type }
    }

    /// The size in bytes of a uniform of the given type.
    pub fn size_uniform_bytes(uniform_type: UniformType) -> (r: usize)
        ensures
            r == uniform_size(uniform_type),
    {
        match uniform_type {
            UniformType::Mat4x4Float => 64,
            UniformType::UInt | UniformType::Int | UniformType::Float => 4,
            UniformType::FloatArray(i) => i as usize * 16,
            UniformType::Vec3 => 12,
            UniformType::Vec4 => 16,
            UniformType::UIntArray(i) => i as usize * 16,
            UniformType::Vec3Array(i) => i as usize * 16,
            UniformType::Vec4Array(i) => i as usize * 16,
            UniformType::Mat4Array(i) => i as usize * 64,
        }
    }
}

impl UniformBlock {
    /// Specifies a uniform block holding the given uniforms.
    pub fn new(block_name: String, number_buffers: usize, uniforms: Vec<Uniform>) -> (r: UniformBlock)
        ensures
            r.block_name == block_name,
            r.number_buffers == number_buffers,
            r.uniforms == uniforms,
    {
        UniformBlock { block_name, number_buffers, uniforms }
    }
}

/// The number of bytes of padding that round `number_to_round` up to a multiple of
/// `multiple`; `number_to_round` itself when `multiple` is 0.
pub fn padding_required(number_to_round: usize, multiple: usize) -> (r: usize)
    requires
        multiple != 0 && number_to_round % multiple != 0 ==> number_to_round + multiple <= usize::MAX,
    ensures
        r == spec_padding(number_to_round as nat, multiple as nat),
{
    if multiple == 0 {
        return number_to_round;
    }
    let remainder = number_to_round % multiple;
    if remainder == 0 {
        return remainder;
    }
    (number_to_round + multiple - remainder) - number_to_round
}

/// Padding to a non-zero multiple ends on a multiple, and is less than the multiple.
pub proof fn lemma_padding_aligns(n: nat, m: nat)
    requires
        m > 0,
    ensures
        (n + spec_padding(n, m)) % m == 0,
        spec_padding(n, m) < m,
{
    if n % m != 0 {
        let q: int = (n / m) as int;
        let r: int = (n % m) as int;
        vstd::arithmetic::div_mod::lemma_fundamental_div_mod(n as int, m as int);
        assert(n == m * q + r);
        assert(n + (m - r) == (q + 1) * m) by (nonlinear_arith)
            requires
                n == m * q + r,
        ;
        vstd::arithmetic::div_mod::lemma_mod_multiples_basic(q + 1, m as int);
        assert(((q + 1) * m) % (m as int) == 0);
    }
}

/// Within a block, every uniform starts at a multiple of its alignment, after the end of the
/// uniform before it, and the uniforms do not overlap.
pub proof fn lemma_uniforms_aligned_and_disjoint(types: Seq<UniformType>, k: nat)
    requires
        k < types.len(),
    ensures
        uniform_offset(types, k) % uniform_alignment(types[k as int]) == 0,
        block_end(types, k) <= uniform_offset(types, k),
        uniform_offset(types, k) + uniform_size(types[k as int]) == block_end(types, k + 1),
{
    lemma_padding_aligns(block_end(types, k), uniform_alignment(types[k as int]));
}

/// The space taken by a prefix of a block's uniforms never exceeds the space of a longer prefix.
pub proof fn lemma_block_end_monotone(types: Seq<UniformType>, j: nat, k: nat)
    requires
        j <= k,
    ensures
        block_end(types, j) <= block_end(types, k),
    decreases k,
{
    if j < k {
        lemma_block_end_monotone(types, j, (k - 1) as nat);
    }
}

/// The uniform at `k`'s alignment.
fn alignment_of(t: UniformType) -> (r: usize)
    ensures
        r == uniform_alignment(t),
{
    match t {
        UniformType::UInt | UniformType::Int | UniformType::Float => 4,
        _ => 16,
    }
}

/// The uniform at `k`'s sub padding.
fn sub_padding_of(t: UniformType) -> (r: isize)
    ensures
        r == uniform_sub_padding(t),
{
    match t {
        UniformType::FloatArray(_) | UniformType::UIntArray(_) => 12,
        UniformType::Vec3Array(_) => 4,
        _ => 0,
    }
}

/// The locations of a block's uniforms in the buffer `buffer_index`, and the block's size.
fn layout_block(block: &UniformBlock, buffer_index: usize) -> (r: (Vec<UniformDataLocation>, usize))
    requires
        block_end(block_types(*block), block.uniforms.len() as nat) <= isize::MAX,
    ensures
        r.1 == block_end(block_types(*block), block.uniforms.len() as nat),
        r.0.len() == block.uniforms.len(),
        forall|j: int|
            0 <= j < r.0.len() ==> (#[trigger] r.0@[j]).mapped_buffer_index == buffer_index && r.0@[j].offset_bytes
                == uniform_offset(block_types(*block), j as nat) && r.0@[j].sub_padding_bytes == uniform_sub_padding(
                block.uniforms@[j].uniform_type,
            ),
{
    let ghost types = block_types(*block);
    let ghost total = block_end(types, block.uniforms.len() as nat);
    let mut locations: Vec<UniformDataLocation> = Vec::new();
    let mut uniform_buffer_size: usize = 0;
    let mut j: usize = 0;
    while j < block.uniforms.len()
        invariant
            types == block_types(*block),
            total == block_end(types, block.uniforms.len() as nat),
            total <= isize::MAX,
            j <= block.uniforms.len(),
            uniform_buffer_size == block_end(types, j as nat),
            locations.len() == j,
            forall|k: int|
                0 <= k < j ==> (#[trigger] locations@[k]).mapped_buffer_index == buffer_index && locations@[k].offset_bytes
                    == uniform_offset(types, k as nat) && locations@[k].sub_padding_bytes == uniform_sub_padding(
                    block.uniforms@[k].uniform_type,
                ),
        decreases block.uniforms.len() - j,
    {
        let uniform_type = block.uniforms[j].uniform_type;
        proof {
            assert(types[j as int] == uniform_type);
            lemma_block_end_monotone(types, (j + 1) as nat, block.uniforms.len() as nat);
            lemma_block_end_monotone(types, j as nat, block.uniforms.len() as nat);
        }
        let size_uniform = Uniform::size_uniform_bytes(uniform_type);
        let alignment = alignment_of(uniform_type);
        uniform_buffer_size = uniform_buffer_size + padding_required(uniform_buffer_size, alignment);
        locations.push(
            UniformDataLocation {
                mapped_buffer_index: buffer_index,
                offset_bytes: uniform_buffer_size as isize,
                sub_padding_bytes: sub_padding_of(uniform_type),
            },
        );
        uniform_buffer_size = uniform_buffer_size + size_uniform;
        j = j + 1;
    }
    (locations, uniform_buffer_size)
}

/// The blocks' names of uniforms are all different.
pub open spec fn uniform_names_distinct(blocks: Seq<UniformBlock>) -> bool {
    forall|a: int, i: int, b: int, j: int|
        0 <= a < blocks.len() && 0 <= b < blocks.len() && 0 <= i < blocks[a].uniforms.len() && 0 <= j
            < blocks[b].uniforms.len() && (a != b || i != j) ==> (#[trigger] blocks[a].uniforms@[i]).name@
            != (#[trigger] blocks[b].uniforms@[j]).name@
}

/// Lays out the uniform blocks of a vertex shader followed by those of a fragment shader:
/// block `b` of the combined sequence gets buffer `b`, each uniform is placed after the one
/// before it at its alignment, and each buffer is as large as its block's uniforms.
pub fn create_padded_uniform_block(
    vertex_shader_uniforms: &Vec<UniformBlock>,
    fragment_shader_uniforms: &Vec<UniformBlock>,
) -> (r: UniformLayout)
    requires
        vertex_shader_uniforms.len() + fragment_shader_uniforms.len() <= usize::MAX,
        uniform_names_distinct(vertex_shader_uniforms@ + fragment_shader_uniforms@),
        forall|b: int| 0 <= b < (vertex_shader_uniforms@ + fragment_shader_uniforms@).len() ==> block_end(
            block_types(#[trigger] (vertex_shader_uniforms@ + fragment_shader_uniforms@)[b]),
            (vertex_shader_uniforms@ + fragment_shader_uniforms@)[b].uniforms.len() as nat,
        ) <= isize::MAX,
    ensures
        ({
            let blocks = vertex_shader_uniforms@ + fragment_shader_uniforms@;
            &&& r.block_sizes.len() == blocks.len()
            &&& r.locations.len() == blocks.len()
            &&& forall|b: int|
                0 <= b < blocks.len() ==> #[trigger] r.block_sizes@[b] == block_end(
                    block_types(blocks[b]),
                    blocks[b].uniforms.len() as nat,
                ) && r.locations@[b].len() == blocks[b].uniforms.len()
            &&& forall|b: int, j: int|
                0 <= b < blocks.len() && 0 <= j < blocks[b].uniforms.len() ==> (#[trigger] r.locations@[b]@[j]).mapped_buffer_index
                    == b && r.locations@[b]@[j].offset_bytes == uniform_offset(block_types(blocks[b]), j as nat)
                    && r.locations@[b]@[j].sub_padding_bytes == uniform_sub_padding(blocks[b].uniforms@[j].uniform_type)
        }),
{
    let ghost blocks = vertex_shader_uniforms@ + fragment_shader_uniforms@;
    let mut block_sizes: Vec<usize> = Vec::new();
    let mut locations: Vec<Vec<UniformDataLocation>> = Vec::new();
    let mut b: usize = 0;
    let number_blocks = vertex_shader_uniforms.len() + fragment_shader_uniforms.len();
    while b < number_blocks
        invariant
            number_blocks == blocks.len(),
            blocks == vertex_shader_uniforms@ + fragment_shader_uniforms@,
            forall|k: int| 0 <= k < blocks.len() ==> block_end(
                block_types(#[trigger] blocks[k]),
                blocks[k].uniforms.len() as nat,
            ) <= isize::MAX,
            b <= blocks.len(),
            block_sizes.len() == b,
            locations.len() == b,
            forall|k: int|
                0 <= k < b ==> #[trigger] block_sizes@[k] == block_end(block_types(blocks[k]), blocks[k].uniforms.len() as nat)
                    && locations@[k].len() == blocks[k].uniforms.len(),
            forall|k: int, j: int|
                0 <= k < b && 0 <= j < blocks[k].uniforms.len() ==> (#[trigger] locations@[k]@[j]).mapped_buffer_index
                    == k && locations@[k]@[j].offset_bytes == uniform_offset(block_types(blocks[k]), j as nat)
                    && locations@[k]@[j].sub_padding_bytes == uniform_sub_padding(blocks[k].uniforms@[j].uniform_type),
        decreases blocks.len() - b,
    {
        let block = if b < vertex_shader_uniforms.len() {
            &vertex_shader_uniforms[b]
        } else {
            &fragment_shader_uniforms[b - vertex_shader_uniforms.len()]
        };
        proof {
            assert(*block == blocks[b as int]);
        }
        let (block_locations, size) = layout_block(block, b);
        block_sizes.push(size);
        locations.push(block_locations);
        b = b + 1;
    }
    UniformLayout { block_sizes, locations }
}

} // verus!
