use vstd::prelude::*;

verus! {

/// Index of a render system a model was uploaded into.
#[derive(Debug, Copy, Clone, Hash, PartialEq, Eq)]
pub struct RenderSystemIndex {
    pub index: usize,
}

/// Uniquely represents a model that was uploaded to a render system.
/// Bits [25, 31] of `model_index` are reserved for the level of view index.
#[derive(Debug, Copy, Clone, Hash, PartialEq, Eq)]
pub struct ModelId {
    pub model_index: u32,
    pub render_system_index: RenderSystemIndex,
}

/// Maximum number of levels of view a model can have.
pub const NUMBER_MODEL_LEVEL_OF_VIEWS: u32 = 8;

/// Bit position at which the level of view index is stored in a model index.
pub const LEVEL_OF_VIEW_SHIFT: u32 = 25;

/// The model index after the level of view `level` was applied to `id`.
pub open spec fn spec_apply_level_of_view(id: u32, level: u32) -> u32 {
    id | ((if level < 7 { level } else { 7u32 }) << 25u32)
}

impl ModelId {
    /// Creates a new model ID.
    pub fn new(model_index: u32, render_system_index: RenderSystemIndex) -> (r: ModelId)
        ensures
            r.model_index == model_index,
            r.render_system_index == render_system_index,
    {
        ModelId { model_index, render_system_index }
    }

    /// Adjusts the model ID to the level of view at `level_of_view_position`, the position of
    /// the level of view whose distance range holds the instance's distance, or `None` when no
    /// level of view holds it (the last level of view is then used).
    pub fn level_of_view_adjusted_model_index(id: ModelId, level_of_view_position: Option<usize>) -> (r: ModelId)
        requires
            level_of_view_position matches Some(i) ==> i < NUMBER_MODEL_LEVEL_OF_VIEWS,
        ensures
            r.render_system_index == id.render_system_index,
            r.model_index == spec_apply_level_of_view(
                id.model_index,
                match level_of_view_position {
                    Some(i) => i as u32,
                    None => (NUMBER_MODEL_LEVEL_OF_VIEWS - 1) as u32,
                },
            ),
    {
        let mut adjusted = id;
        match level_of_view_position {
            Some(i) => {
                ModelId::apply_level_of_view(&mut adjusted.model_index, i as u32);
            },
            None => {
                ModelId::apply_level_of_view(&mut adjusted.model_index, NUMBER_MODEL_LEVEL_OF_VIEWS - 1);
            },
        }
        adjusted
    }

    /// Modifies the model ID according to the level of view index; indexes above the last
    /// level of view are treated as the last one.
    pub fn apply_level_of_view(id: &mut u32, level_of_view_index: u32)
        ensures
            *final(id) == spec_apply_level_of_view(*old(id), level_of_view_index),
            *final(id) & 0x1FF_FFFFu32 == *old(id) & 0x1FF_FFFFu32,
            *old(id) < 0x200_0000u32 ==> *final(id) >> 25u32 == (if level_of_view_index < 7 {
                level_of_view_index
            } else {
                7u32
            }),
    {
        let level = if level_of_view_index < NUMBER_MODEL_LEVEL_OF_VIEWS - 1 {
            level_of_view_index
        } else {
            NUMBER_MODEL_LEVEL_OF_VIEWS - 1
        };
        let before = *id;
        *id = before | (level << LEVEL_OF_VIEW_SHIFT);
        proof {
            assert(level <= 7);
            assert((before | (level << 25u32)) & 0x1FF_FFFFu32 == before & 0x1FF_FFFFu32) by (bit_vector)
                requires
                    level <= 7u32,
            ;
            assert(before < 0x200_0000u32 ==> (before | (level << 25u32)) >> 25u32 == level) by (bit_vector)
                requires
                    level <= 7u32,
            ;
        }
    }
}

/// Texture kinds whose locations a `TextureLocation` packs.
pub const DIFFUSE_INDEX: u128 = 0;
pub const DISSOLVE_INDEX: u128 = 1;
pub const NORMAL_INDEX: u128 = 2;
pub const SHININESS_INDEX: u128 = 3;
pub const SPECULAR_INDEX: u128 = 4;

/// Number of bits each texture kind occupies.
pub const SIZE_TEXTURE_BITS: u128 = 16;
/// Bit offset of the array index within a texture kind's bits.
pub const SIZE_TEXTURE_INDEX_OFFSET: u128 = 10;

/// The four words of a texture location read as one little-endian 128-bit value.
pub open spec fn packed_words(d0: u32, d1: u32, d2: u32, d3: u32) -> u128 {
    (d0 as u128) | ((d1 as u128) << 32u128) | ((d2 as u128) << 64u128) | ((d3 as u128) << 96u128)
}

/// The packed value after the location (`array_index`, `index_offset`) was written for the
/// texture kind `texture`: the kind's 6 array-index bits and 10 offset bits are cleared, then
/// both values are shifted into place and OR-ed in without masking.
pub open spec fn spec_write_texture(packed: u128, texture: u128, array_index: u128, index_offset: u128) -> u128 {
    let base = (texture * 16) as u128;
    ((packed & !(0xFC00u128 << base)) & !(0x3FFu128 << base)) | (array_index << ((base + 10) as u128)) | (
    index_offset << base)
}

/// The 6-bit array index stored for the texture kind `texture`.
pub open spec fn spec_array_index_field(packed: u128, texture: u128) -> u128 {
    (packed >> ((texture * 16 + 10) as u128)) & 0x3Fu128
}

/// The 10-bit index offset stored for the texture kind `texture`.
pub open spec fn spec_index_offset_field(packed: u128, texture: u128) -> u128 {
    (packed >> ((texture * 16) as u128)) & 0x3FFu128
}

/// The packed value of `TextureLocation::place_holder`: every texture kind points at array 0,
/// with the kind's own number as its index offset.
pub open spec fn spec_place_holder_packed() -> u128 {
    0x0000_0000_0000_0004_0003_0002_0001_0000u128
}

/// Stores the location of each texture kind of a mesh within a texture array.
#[derive(Clone)]
pub struct TextureLocation {
    data: [u32; 4],
}

impl TextureLocation {
    /// The four words read as one little-endian 128-bit value.
    pub closed spec fn packed(&self) -> u128 {
        packed_words(self.data[0], self.data[1], self.data[2], self.data[3])
    }

    /// Creates a location whose texture kinds all point to the error texture array.
    pub fn place_holder() -> (r: TextureLocation)
        ensures
            r.packed() == spec_place_holder_packed(),
    {
        let mut texture_location = TextureLocation { data: [0, 0, 0, 0] };
        proof {
            assert(packed_words(0, 0, 0, 0) == 0u128) by (bit_vector);
        }
        texture_location.write_diffuse(0, 0);
        texture_location.write_dissolve(0, 1);
        texture_location.write_normal(0, 2);
        texture_location.write_shininess(0, 3);
        texture_location.write_specular(0, 4);
        proof {
            assert(spec_write_texture(0u128, 0u128, 0u128, 0u128) == 0u128) by (bit_vector);
            assert(spec_write_texture(0u128, 1u128, 0u128, 1u128) == 0x1_0000u128) by (bit_vector);
            assert(spec_write_texture(0x1_0000u128, 2u128, 0u128, 2u128) == 0x2_0001_0000u128)
                by (bit_vector);
            assert(spec_write_texture(0x2_0001_0000u128, 3u128, 0u128, 3u128) == 0x3_0002_0001_0000u128)
                by (bit_vector);
            assert(spec_write_texture(0x3_0002_0001_0000u128, 4u128, 0u128, 4u128)
                == spec_place_holder_packed()) by (bit_vector);
        }
        texture_location
    }

    /// The four words of this location; words 0 to 2 hold two texture kinds each.
    pub fn data(&self) -> (r: [u32; 4])
        ensures
            packed_words(r[0], r[1], r[2], r[3]) == self.packed(),
    {
        self.data
    }

    fn load(&self) -> (r: u128)
        ensures
            r == self.packed(),
    {
        (self.data[0] as u128) | ((self.data[1] as u128) << 32u128) | ((self.data[2] as u128) << 64u128) | ((
        self.data[3] as u128) << 96u128)
    }

    fn store(&mut self, value: u128)
        ensures
            final(self).packed() == value,
    {
        let d0 = value as u32;
        let d1 = (value >> 32u128) as u32;
        let d2 = (value >> 64u128) as u32;
        let d3 = (value >> 96u128) as u32;
        self.data = [d0, d1, d2, d3];
        proof {
            assert(packed_words(value as u32, (value >> 32u128) as u32, (value >> 64u128) as u32, (value
                >> 96u128) as u32) == value) by (bit_vector);
        }
    }

    /// Writes the location of the texture kind `texture`.
    fn write_texture(&mut self, texture: u128, array_index: usize, offset_index: i32)
        requires
            texture <= SPECULAR_INDEX,
        ensures
            final(self).packed() == spec_write_texture(
                old(self).packed(),
                texture,
                array_index as u128,
                offset_index as u128,
            ),
    {
        let packed = self.load();
        let base = texture * SIZE_TEXTURE_BITS;
        let cleared_array = packed & !(0xFC00u128 << base);
        let cleared = cleared_array & !(0x3FFu128 << base);
        let with_array = cleared | ((array_index as u128) << (base + SIZE_TEXTURE_INDEX_OFFSET));
        let written = with_array | ((offset_index as u128) << base);
        self.store(written);
    }

    /// Writes the location of the diffuse texture.
    pub fn write_diffuse(&mut self, array_index: usize, offset_index: i32)
        ensures
            final(self).packed() == spec_write_texture(
                old(self).packed(),
                DIFFUSE_INDEX,
                array_index as u128,
                offset_index as u128,
            ),
    {
        self.write_texture(DIFFUSE_INDEX, array_index, offset_index);
    }

    /// Writes the location of the dissolve texture.
    pub fn write_dissolve(&mut self, array_index: usize, offset_index: i32)
        ensures
            final(self).packed() == spec_write_texture(
                old(self).packed(),
                DISSOLVE_INDEX,
                array_index as u128,
                offset_index as u128,
            ),
    {
        self.write_texture(DISSOLVE_INDEX, array_index, offset_index);
    }

    /// Writes the location of the normal texture.
    pub fn write_normal(&mut self, array_index: usize, offset_index: i32)
        ensures
            final(self).packed() == spec_write_texture(
                old(self).packed(),
                NORMAL_INDEX,
                array_index as u128,
                offset_index as u128,
            ),
    {
        self.write_texture(NORMAL_INDEX, array_index, offset_index);
    }

    /// Writes the location of the shininess texture.
    pub fn write_shininess(&mut self, array_index: usize, offset_index: i32)
        ensures
            final(self).packed() == spec_write_texture(
                old(self).packed(),
                SHININESS_INDEX,
                array_index as u128,
                offset_index as u128,
            ),
    {
        self.write_texture(SHININESS_INDEX, array_index, offset_index);
    }

    /// Writes the location of the specular texture.
    pub fn write_specular(&mut self, array_index: usize, offset_index: i32)
        ensures
            final(self).packed() == spec_write_texture(
                old(self).packed(),
                SPECULAR_INDEX,
                array_index as u128,
                offset_index as u128,
            ),
    {
        self.write_texture(SPECULAR_INDEX, array_index, offset_index);
    }
}

/// Writing a texture kind's location with an array index below 64 and an index offset below
/// 1024 reads back as written, and leaves the location of every other texture kind unchanged.
pub proof fn lemma_write_texture_reads_back(
    packed: u128,
    texture: u128,
    other: u128,
    array_index: u128,
    index_offset: u128,
)
    requires
        texture <= 4,
        other <= 7,
        other != texture,
        array_index < 64,
        index_offset < 1024,
    ensures
        spec_array_index_field(spec_write_texture(packed, texture, array_index, index_offset), texture)
            == array_index,
        spec_index_offset_field(spec_write_texture(packed, texture, array_index, index_offset), texture)
            == index_offset,
        spec_array_index_field(spec_write_texture(packed, texture, array_index, index_offset), other)
            == spec_array_index_field(packed, other),
        spec_index_offset_field(spec_write_texture(packed, texture, array_index, index_offset), other)
            == spec_index_offset_field(packed, other),
{
    lemma_write_texture_reads_back_bits(packed, texture, other, array_index, index_offset);
}

proof fn lemma_write_texture_reads_back_bits(
    packed: u128,
    texture: u128,
    other: u128,
    array_index: u128,
    index_offset: u128,
)
    by (bit_vector)
    requires
        texture <= 4,
        other <= 7,
        other != texture,
        array_index < 64,
        index_offset < 1024,
    ensures
        (((((packed & !(0xFC00u128 << (texture * 16) as u128)) & !(0x3FFu128 << (texture * 16) as u128)) | (
        array_index << (texture * 16 + 10) as u128) | (index_offset << (texture * 16) as u128)) >> (texture
            * 16 + 10) as u128) & 0x3Fu128) == array_index,
        (((((packed & !(0xFC00u128 << (texture * 16) as u128)) & !(0x3FFu128 << (texture * 16) as u128)) | (
        array_index << (texture * 16 + 10) as u128) | (index_offset << (texture * 16) as u128)) >> (texture
            * 16) as u128) & 0x3FFu128) == index_offset,
        (((((packed & !(0xFC00u128 << (texture * 16) as u128)) & !(0x3FFu128 << (texture * 16) as u128)) | (
        array_index << (texture * 16 + 10) as u128) | (index_offset << (texture * 16) as u128)) >> (other
            * 16 + 10) as u128) & 0x3Fu128) == ((packed >> (other * 16 + 10) as u128) & 0x3Fu128),
        (((((packed & !(0xFC00u128 << (texture * 16) as u128)) & !(0x3FFu128 << (texture * 16) as u128)) | (
        array_index << (texture * 16 + 10) as u128) | (index_offset << (texture * 16) as u128)) >> (other
            * 16) as u128) & 0x3FFu128) == ((packed >> (other * 16) as u128) & 0x3FFu128),
{
}

/// The 32-bit number held little-endian in the 4 bytes of `b` from `at`.
pub open spec fn le_u32(b: Seq<u8>, at: int) -> u32 {
    (b[at] as u32) | ((b[at + 1] as u32) << 8u32) | ((b[at + 2] as u32) << 16u32) | ((b[at + 3] as u32) << 24u32)
}

/// The 64-bit number held little-endian in the 8 bytes of `b` from `at`.
pub open spec fn le_u64(b: Seq<u8>, at: int) -> u64 {
    (b[at] as u64) | ((b[at + 1] as u64) << 8u64) | ((b[at + 2] as u64) << 16u64) | ((b[at + 3] as u64) << 24u64) | ((b[at
        + 4] as u64) << 32u64) | ((b[at + 5] as u64) << 40u64) | ((b[at + 6] as u64) << 48u64) | ((b[at + 7] as u64)
        << 56u64)
}

/// The bytes of a model ID as the model component of an entity holds them: the model index
/// in 4 little-endian bytes, then the render system index in 8.
pub open spec fn model_id_bytes(id: ModelId) -> Seq<u8> {
    let x = id.model_index;
    let y = id.render_system_index.index as u64;
    seq![
        x as u8,
        (x >> 8u32) as u8,
        (x >> 16u32) as u8,
        (x >> 24u32) as u8,
        y as u8,
        (y >> 8u64) as u8,
        (y >> 16u64) as u8,
        (y >> 24u64) as u8,
        (y >> 32u64) as u8,
        (y >> 40u64) as u8,
        (y >> 48u64) as u8,
        (y >> 56u64) as u8,
    ]
}

/// The model ID that the bytes `b` of a model component hold, if they hold one.
pub open spec fn decode_model_id(b: Seq<u8>) -> Option<ModelId> {
    if b.len() == 12 && le_u64(b, 4) <= usize::MAX {
        Some(
            ModelId {
                model_index: le_u32(b, 0),
                render_system_index: RenderSystemIndex { index: le_u64(b, 4) as usize },
            },
        )
    } else {
        None
    }
}

proof fn lemma_u32_bytes(x: u32)
    by (bit_vector)
    ensures
        ((x as u8) as u32) | ((((x >> 8u32) as u8) as u32) << 8u32) | ((((x >> 16u32) as u8) as u32) << 16u32) | ((((x
            >> 24u32) as u8) as u32) << 24u32) == x,
{
}

proof fn lemma_u64_bytes(y: u64)
    by (bit_vector)
    ensures
        ((y as u8) as u64) | ((((y >> 8u64) as u8) as u64) << 8u64) | ((((y >> 16u64) as u8) as u64) << 16u64) | ((((y
            >> 24u64) as u8) as u64) << 24u64) | ((((y >> 32u64) as u8) as u64) << 32u64) | ((((y >> 40u64) as u8) as u64)
            << 40u64) | ((((y >> 48u64) as u8) as u64) << 48u64) | ((((y >> 56u64) as u8) as u64) << 56u64) == y,
{
}

/// A model ID written as a model component reads back as the same model ID.
pub proof fn lemma_model_id_bytes_round_trip(id: ModelId)
    ensures
        decode_model_id(model_id_bytes(id)) == Some(id),
{
    let b = model_id_bytes(id);
    lemma_u32_bytes(id.model_index);
    lemma_u64_bytes(id.render_system_index.index as u64);
    assert(le_u32(b, 0) == id.model_index);
    assert(le_u64(b, 4) == id.render_system_index.index as u64);
}

impl ModelId {
    /// The bytes of this model ID as the model component of an entity holds them.
    pub fn to_component_bytes(&self) -> (r: Vec<u8>)
        ensures
            r@ == model_id_bytes(*self),
    {
        let x = self.model_index;
        let y = self.render_system_index.index as u64;
        let r = vec![
            x as u8,
            (x >> 8u32) as u8,
            (x >> 16u32) as u8,
            (x >> 24u32) as u8,
            y as u8,
            (y >> 8u64) as u8,
            (y >> 16u64) as u8,
            (y >> 24u64) as u8,
            (y >> 32u64) as u8,
            (y >> 40u64) as u8,
            (y >> 48u64) as u8,
            (y >> 56u64) as u8,
        ];
        assert(r@ =~= model_id_bytes(*self));
        r
    }

    /// The model ID that the bytes of a model component hold, if they hold one.
    pub fn from_component_bytes(b: &Vec<u8>) -> (r: Option<ModelId>)
        ensures
            r == decode_model_id(b@),
    {
        if b.len() != 12 {
            return None;
        }
        let model_index = (b[0] as u32) | ((b[1] as u32) << 8u32) | ((b[2] as u32) << 16u32) | ((b[3] as u32) << 24u32);
        let index = (b[4] as u64) | ((b[5] as u64) << 8u64) | ((b[6] as u64) << 16u64) | ((b[7] as u64) << 24u64) | ((
        b[8] as u64) << 32u64) | ((b[9] as u64) << 40u64) | ((b[10] as u64) << 48u64) | ((b[11] as u64) << 56u64);
        if index > usize::MAX as u64 {
            return None;
        }
        Some(ModelId { model_index, render_system_index: RenderSystemIndex { index: index as usize } })
    }
}

} // verus!
