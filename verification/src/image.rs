//! The images that the ray traversal shader works on.

use vstd::prelude::*;

use crate::extent::Extent;

verus! {

/// The bytes of a texel, in either format.
pub const TEXEL_BYTES: u32 = 4;

/// The length of the voxel grid along each axis.
pub const GRID_SIDE: u32 = 4;

/// How many axes an image has.
#[derive(Debug, Clone, Copy, PartialEq, Eq, Structural)]
pub enum ImageDimension {
    Dim2d,
    Dim3d,
}

/// What a texel is: four bytes, red, green, blue and alpha.
#[derive(Debug, Clone, Copy, PartialEq, Eq, Structural)]
pub enum TexelFormat {
    /// Each byte stands for a fraction of one.
    Rgba8Unorm,
    /// Each byte stands for itself.
    Rgba8Uint,
}

/// What an image may be used for.
#[derive(Debug, Clone, Copy, PartialEq, Eq, Structural)]
pub struct ImageUses {
    pub storage: bool,
    pub transfer_src: bool,
    pub transfer_dst: bool,
    pub color_attachment: bool,
}

/// A size along three axes.
#[derive(Debug, Clone, Copy, PartialEq, Eq, Structural)]
pub struct Extent3 {
    pub width: u32,
    pub height: u32,
    pub depth: u32,
}

/// How to make an image, and where the shader finds it.
#[derive(Debug, Clone, Copy, PartialEq, Eq, Structural)]
pub struct ImagePlan {
    pub dimension: ImageDimension,
    pub format: TexelFormat,
    pub extent: Extent3,
    pub uses: ImageUses,
    /// The descriptor set that holds the image.
    pub set: usize,
    /// The binding of the image in its descriptor set.
    pub binding: u32,
}

impl ImagePlan {
    /// The bytes that the texels take, tightly packed.
    pub open spec fn byte_len(self) -> int {
        self.extent.width * self.extent.height * self.extent.depth * TEXEL_BYTES
    }
}

/// The image that the shader draws into: as large as the window, read back and copied to the
/// screen.
pub open spec fn render_image_of(extent: Extent) -> ImagePlan {
    ImagePlan {
        dimension: ImageDimension::Dim2d,
        format: TexelFormat::Rgba8Unorm,
        extent: Extent3 { width: extent.width, height: extent.height, depth: 1 },
        uses: ImageUses {
            storage: true,
            transfer_src: true,
            transfer_dst: false,
            color_attachment: false,
        },
        set: 0,
        binding: 0,
    }
}

/// The plan of the image that the shader draws into.
pub fn render_image(extent: Extent) -> (r: ImagePlan)
    ensures
        r == render_image_of(extent),
{
    ImagePlan {
        dimension: ImageDimension::Dim2d,
        format: TexelFormat::Rgba8Unorm,
        extent: Extent3 { width: extent.width, height: extent.height, depth: 1 },
        uses: ImageUses {
            storage: true,
            transfer_src: true,
            transfer_dst: false,
            color_attachment: false,
        },
        set: 0,
        binding: 0,
    }
}

/// The image that holds the voxels: filled once and read by the shader.
pub open spec fn voxel_image_plan() -> ImagePlan {
    ImagePlan {
        dimension: ImageDimension::Dim3d,
        format: TexelFormat::Rgba8Uint,
        extent: Extent3 { width: GRID_SIDE, height: GRID_SIDE, depth: GRID_SIDE },
        uses: ImageUses {
            storage: true,
            transfer_src: false,
            transfer_dst: true,
            color_attachment: false,
        },
        set: 1,
        binding: 0,
    }
}

/// The plan of the image that holds the voxels.
pub fn voxel_image() -> (r: ImagePlan)
    ensures
        r == voxel_image_plan(),
{
    ImagePlan {
        dimension: ImageDimension::Dim3d,
        format: TexelFormat::Rgba8Uint,
        extent: Extent3 { width: GRID_SIDE, height: GRID_SIDE, depth: GRID_SIDE },
        uses: ImageUses {
            storage: true,
            transfer_src: false,
            transfer_dst: true,
            color_attachment: false,
        },
        set: 1,
        binding: 0,
    }
}

/// The voxels of the scene that are filled, by their place in the grid: along the width first,
/// then the height, then the depth.
pub open spec fn is_filled(place: int) -> bool {
    ||| place == 0
    ||| place == 12
    ||| place == 15
    ||| place == 12 + 16
    ||| place == 12 + 16 * 2 + 3
    ||| place == 12 + 16 * 3 + 3
    ||| place == 12 + 16 * 3
}

/// Whether the texels show the scene: one for each voxel of the grid, one where the voxel is
/// filled and zero where it is not.
pub open spec fn is_scene(texels: Seq<u32>) -> bool {
    &&& texels.len() == 64
    &&& forall|place: int|
        0 <= place < 64 ==> #[trigger] texels[place] == if is_filled(place) {
            1u32
        } else {
            0u32
        }
}

/// The texels of the scene.
pub fn scene_voxels() -> (r: Vec<u32>)
    ensures
        is_scene(r@),
{
    let mut voxels: Vec<u32> = Vec::new();
    let mut place: usize = 0;
    while place < 64
        invariant
            place <= 64,
            voxels@.len() == place,
            forall|i: int| 0 <= i < place ==> voxels@[i] == 0,
        decreases 64 - place,
    {
        voxels.push(0);
        place = place + 1;
    }
    voxels.set(0, 1);
    voxels.set(12, 1);
    voxels.set(15, 1);
    voxels.set(12 + 16, 1);
    voxels.set(12 + 16 * 2 + 3, 1);
    voxels.set(12 + 16 * 3 + 3, 1);
    voxels.set(12 + 16 * 3, 1);
    voxels
}

/// The scene fills the voxel image: its texels have as many bytes as the image takes.
pub proof fn law_scene_fills_the_voxel_image(texels: Seq<u32>)
    requires
        is_scene(texels),
    ensures
        texels.len() * TEXEL_BYTES == voxel_image_plan().byte_len(),
{
    assert(GRID_SIDE * GRID_SIDE * GRID_SIDE == 64) by (nonlinear_arith)
        requires
            GRID_SIDE == 4,
    ;
}

/// Whether the bytes of an image of this size can be counted.
pub open spec fn is_readable(extent: Extent) -> bool {
    extent.width * extent.height * TEXEL_BYTES <= u32::MAX
}

/// Whether the bytes of an image of this size can be counted.
pub fn can_read_back(extent: Extent) -> (r: bool)
    ensures
        r == is_readable(extent),
{
    assert(0 <= extent.width * extent.height <= 0xffff_ffff * 0xffff_ffff) by (nonlinear_arith)
        requires
            0 <= extent.width <= 0xffff_ffff,
            0 <= extent.height <= 0xffff_ffff,
    ;
    extent.width as u64 * extent.height as u64 <= (u32::MAX / TEXEL_BYTES) as u64
}

/// The length of the buffer that the drawn image is read back into.
pub fn readback_len(extent: Extent) -> (r: u32)
    requires
        is_readable(extent),
    ensures
        r == extent.width * extent.height * TEXEL_BYTES,
        r == render_image_of(extent).byte_len(),
{
    assert(0 <= extent.width * extent.height <= u32::MAX && extent.width * extent.height * 1 * 4
        == extent.width * extent.height * 4) by (nonlinear_arith)
        requires
            extent.width * extent.height * 4 <= u32::MAX,
    ;
    extent.width * extent.height * TEXEL_BYTES
}

/// The render image has the width and the height of the window, and is one texel deep: four bytes
/// for each pixel of the window.
pub proof fn law_render_image_is_as_large_as_the_window(extent: Extent, r: ImagePlan)
    requires
        call_ensures(render_image, (extent,), r),
    ensures
        r.extent.width == extent.width,
        r.extent.height == extent.height,
        r.extent.depth == 1,
        r.byte_len() == 4 * (extent.width * extent.height),
        render_image_of(extent).extent.width == extent.width,
        render_image_of(extent).extent.height == extent.height,
        render_image_of(extent).extent.depth == 1,
{
    assert(extent.width * extent.height * 1 * 4 == 4 * (extent.width * extent.height))
        by (nonlinear_arith);
}

/// The render image is flat, drawn into by the shader, and copied from; that does not depend on
/// the window.
pub proof fn law_render_images_differ_in_size_alone(
    a: Extent,
    b: Extent,
    of_a: ImagePlan,
    of_b: ImagePlan,
)
    requires
        call_ensures(render_image, (a,), of_a),
        call_ensures(render_image, (b,), of_b),
    ensures
        of_b == (ImagePlan { extent: of_b.extent, ..of_a }),
        of_a == of_b <==> a == b,
        of_a.dimension is Dim2d,
        of_a.format is Rgba8Unorm,
        of_a.uses.storage && of_a.uses.transfer_src,
        !of_a.uses.transfer_dst && !of_a.uses.color_attachment,
        of_a.set == 0 && of_a.binding == 0,
{
}

/// The voxel image is a cube, filled by a copy and read by the shader. The shader finds it in
/// another descriptor set than the render image.
pub proof fn law_voxel_image_is_a_cube(extent: Extent, rendered: ImagePlan, voxels: ImagePlan)
    requires
        call_ensures(render_image, (extent,), rendered),
        call_ensures(voxel_image, (), voxels),
    ensures
        voxels.dimension is Dim3d,
        voxels.extent.width == 4 && voxels.extent.height == 4 && voxels.extent.depth == 4,
        voxels.format is Rgba8Uint,
        voxels.uses.storage && voxels.uses.transfer_dst,
        !voxels.uses.transfer_src && !voxels.uses.color_attachment,
        voxels.set != rendered.set,
        voxels.set == 1 && voxels.binding == 0,
{
}

/// The filled voxels by their coordinates: one in the corner where the grid begins, all others in
/// the last row of their layer, at its two ends.
pub proof fn law_where_the_scene_is_filled(texels: Vec<u32>, x: int, y: int, z: int)
    requires
        call_ensures(scene_voxels, (), texels),
        0 <= x < 4,
        0 <= y < 4,
        0 <= z < 4,
    ensures
        texels@.len() == 64,
        texels@[x + 4 * y + 16 * z] <= 1,
        texels@[x + 4 * y + 16 * z] == 1 ==> x == 0 || x == 3,
        texels@[x + 4 * y + 16 * z] == 1 ==> y == 3 || (x == 0 && y == 0 && z == 0),
        x == 0 && y == 0 && z == 0 ==> texels@[x + 4 * y + 16 * z] == 1,
        x == 0 && y == 3 ==> (texels@[x + 4 * y + 16 * z] == 1 <==> z != 2),
        x == 3 && y == 3 ==> (texels@[x + 4 * y + 16 * z] == 1 <==> z != 1),
{
    let place = x + 4 * y + 16 * z;
    assert(0 <= place < 64);
    assert(texels@[place] == if is_filled(place) {
        1u32
    } else {
        0u32
    });
}

/// The render image can be read back exactly if its bytes can be counted. Where a window's image
/// can be read back, so can that of any window that is no wider and no higher.
pub proof fn law_which_images_can_be_read_back(
    extent: Extent,
    rendered: ImagePlan,
    readable: bool,
    smaller: Extent,
)
    requires
        call_ensures(render_image, (extent,), rendered),
        call_ensures(can_read_back, (extent,), readable),
    ensures
        readable <==> rendered.byte_len() <= u32::MAX,
        readable <==> is_readable(extent),
        readable && smaller.width <= extent.width && smaller.height <= extent.height
            ==> is_readable(smaller),
{
    assert(extent.width * extent.height * 1 * 4 == extent.width * extent.height * 4)
        by (nonlinear_arith);
    if smaller.width <= extent.width && smaller.height <= extent.height {
        assert(smaller.width * smaller.height * 4 <= extent.width * extent.height * 4)
            by (nonlinear_arith)
            requires
                0 <= smaller.width <= extent.width,
                0 <= smaller.height <= extent.height,
        ;
    }
}

/// The buffer that an image is read back into has one byte for each byte of the image, four for
/// each pixel of the window.
pub proof fn law_readback_holds_the_render_image(extent: Extent, rendered: ImagePlan, len: u32)
    requires
        is_readable(extent),
        call_ensures(render_image, (extent,), rendered),
        call_ensures(readback_len, (extent,), len),
    ensures
        len == rendered.byte_len(),
        len == 4 * (extent.width * extent.height),
{
    assert(extent.width * extent.height * 4 == 4 * (extent.width * extent.height))
        by (nonlinear_arith);
}

} // verus!
