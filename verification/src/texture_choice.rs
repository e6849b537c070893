use vstd::prelude::*;
use crate::shader_text::TextureFormat;

verus! {

/// How much room a texture array has: the size and format of its layers, how many layers it
/// has and how many of them already hold a texture.
#[derive(Copy, Clone, Debug)]
pub struct TextureArraySpace {
    pub width: i32,
    pub height: i32,
    pub format: TextureFormat,
    pub number_textures: i32,
    pub number_textures_held: i32,
}

/// The pixels of a layer that a texture would leave unused, and whether its three channels
/// would be stored in a layer of four (which wastes a quarter more).
#[derive(Copy, Clone, Debug, PartialEq, Eq, Structural)]
pub struct UnusedSpace {
    pub unused_pixels: i32,
    pub widened_channels: bool,
}

/// The array cannot take the texture: it is full, the texture needs an alpha channel that
/// the array lacks, or the texture is wider or higher than a layer.
pub open spec fn cannot_take(array: TextureArraySpace, width: i32, height: i32, nr_channels: i32) -> bool {
    ||| array.number_textures_held == array.number_textures
    ||| (array.format == TextureFormat::RGB && nr_channels == 4)
    ||| array.width < width
    ||| array.height < height
}

/// Whether the unused width and height of a layer, and their product, fit in an `i32`.
pub open spec fn unused_product_fits(array: TextureArraySpace, width: i32, height: i32) -> bool {
    &&& array.width - width <= i32::MAX
    &&& array.height - height <= i32::MAX
    &&& (array.width - width) * (array.height - height) <= i32::MAX
}

/// The space a texture of `width` by `height` pixels with `nr_channels` channels would leave
/// unused in the array: `Err` where the array cannot take the texture.
pub fn unused_space(array: &TextureArraySpace, width: i32, height: i32, nr_channels: i32) -> (r: Result<UnusedSpace, ()>)
    requires
        !cannot_take(*array, width, height, nr_channels) ==> unused_product_fits(*array, width, height),
    ensures
        cannot_take(*array, width, height, nr_channels) <==> r is Err,
        r matches Ok(space) ==> space.unused_pixels == (array.width - width) * (array.height - height)
            && space.widened_channels == (array.format == TextureFormat::RGBA && nr_channels == 3),
{
    if array.number_textures_held == array.number_textures {
        return Err(());
    }
    if array.format == TextureFormat::RGB && nr_channels == 4 {
        return Err(());
    }
    if array.width < width || array.height < height {
        return Err(());
    }
    let wasted_width = array.width - width;
    let wasted_height = array.height - height;
    assert(0 <= wasted_width * wasted_height) by (nonlinear_arith)
        requires
            0 <= wasted_width,
            0 <= wasted_height,
    ;
    let widened_channels = array.format == TextureFormat::RGBA && nr_channels == 3;
    Ok(UnusedSpace { unused_pixels: wasted_width * wasted_height, widened_channels })
}

/// Whether index `i` holds the least wasted space, strictly less than every earlier one and
/// no more than every later one, and less than `usize::MAX`.
pub open spec fn least_waste_at(wasted: Seq<Option<usize>>, i: int) -> bool {
    &&& 0 <= i < wasted.len()
    &&& wasted[i] matches Some(w) && w < usize::MAX
        && (forall|j: int| 0 <= j < i ==> (#[trigger] wasted[j] matches Some(v) ==> w < v))
        && (forall|j: int| i < j < wasted.len() ==> (#[trigger] wasted[j] matches Some(v) ==> w <= v))
}

/// The texture array to upload a texture to, given the space each array would waste (`None`
/// where an array cannot take it): the first of those that waste least. `None` where no array
/// can take the texture (or every one would waste `usize::MAX`).
pub fn least_wasteful_array(wasted: &Vec<Option<usize>>) -> (r: Option<usize>)
    ensures
        r matches Some(i) ==> least_waste_at(wasted@, i as int),
        r is None <==> forall|j: int| 0 <= j < wasted@.len() ==> (#[trigger] wasted@[j] matches Some(v) ==> v == usize::MAX),
{
    let mut most_suitable: Option<usize> = None;
    let mut least_found: usize = usize::MAX;
    let mut k: usize = 0;
    while k < wasted.len()
        invariant
            k <= wasted.len(),
            most_suitable matches Some(i) ==> i < k && wasted@[i as int] == Some(least_found) && least_found < usize::MAX
                && (forall|j: int| 0 <= j < i ==> (#[trigger] wasted@[j] matches Some(v) ==> least_found < v))
                && (forall|j: int| i < j < k ==> (#[trigger] wasted@[j] matches Some(v) ==> least_found <= v)),
            most_suitable is None ==> least_found == usize::MAX && forall|j: int| 0 <= j < k ==> (#[trigger] wasted@[j] matches Some(v) ==> v == usize::MAX),
        decreases wasted.len() - k,
    {
        if let Some(w) = wasted[k] {
            if w < least_found {
                most_suitable = Some(k);
                least_found = w;
            }
        }
        k = k + 1;
    }
    most_suitable
}

} // verus!
