use crate::texture::{TextureAtlasInfo, TextureRef};
use vstd::prelude::*;

verus! {

/// Why an atlas could not be laid out.
#[derive(Debug, Clone, Copy, PartialEq, Eq, Structural)]
pub enum TextureAtlasBuildError {
    /// A texture does not fit into the atlas at its place, or the atlas would
    /// be larger than an image can be.
    InvalidImage,
}

/// An image that is to become a texture of an atlas: its name and its size in
/// texels.
#[derive(Debug, Clone, PartialEq, Eq)]
pub struct RawImageReference {
    pub name: String,
    pub width: u32,
    pub height: u32,
}

/// Collects the images of an atlas and the size of the largest of them.
#[derive(Debug, PartialEq)]
pub struct TextureAtlasBuilder {
    pub textures: Vec<RawImageReference>,
    pub max_width: u32,
    pub max_height: u32,
}

/// Whether `side` is the least number whose square is at least `count`: the
/// number of slots along each edge of a square atlas for `count` textures.
pub open spec fn is_side(count: int, side: int) -> bool {
    &&& 0 <= side
    &&& side * side >= count
    &&& side == 0 || (side - 1) * (side - 1) < count
}

/// The number of slots along each edge of a square atlas for `count` textures.
pub open spec fn spec_side_of(count: int) -> int {
    choose|side: int| is_side(count, side)
}

/// The place of the texture with the number `i`, in texels from the top left
/// corner of the atlas. The textures fill the atlas row by row: a texture
/// stands one slot to the right of the one before it, or at the start of the
/// next row where the row is full.
pub open spec fn slot(max_width: int, max_height: int, image_width: int, i: int) -> (int, int)
    decreases i,
{
    if i <= 0 {
        (0, 0)
    } else {
        let (x, y) = slot(max_width, max_height, image_width, i - 1);
        if x + max_width >= image_width {
            (0, y + max_height)
        } else {
            (x + max_width, y)
        }
    }
}

/// Whether the first `n` textures lie inside an atlas of the given size, each
/// at its place.
pub open spec fn textures_fit(
    textures: Seq<RawImageReference>,
    max_width: int,
    max_height: int,
    image_width: int,
    image_height: int,
    n: int,
) -> bool {
    forall|i: int|
        0 <= i < n ==> {
            &&& slot(max_width, max_height, image_width, i).0 + (#[trigger] textures[i]).width
                <= image_width
            &&& slot(max_width, max_height, image_width, i).1 + textures[i].height <= image_height
        }
}

/// Whether the textures of a builder can be laid out in a square atlas with
/// `side` slots along each edge.
pub open spec fn layout_fits(builder: TextureAtlasBuilder, side: int) -> bool {
    &&& builder.textures@.len() <= u32::MAX
    &&& side * builder.max_width <= u32::MAX
    &&& side * builder.max_height <= u32::MAX
    &&& textures_fit(
        builder.textures@,
        builder.max_width as int,
        builder.max_height as int,
        side * builder.max_width,
        side * builder.max_height,
        builder.textures@.len() as int,
    )
}

/// Whether an atlas is the layout of a builder with `side` slots along each
/// edge: it has a slot for each texture, and each texture stands at its place
/// under its name and with its size.
pub open spec fn is_layout(info: TextureAtlasInfo, builder: TextureAtlasBuilder, side: int) -> bool {
    &&& info.width == side * builder.max_width
    &&& info.height == side * builder.max_height
    &&& info.texture_width == builder.max_width
    &&& info.texture_height == builder.max_height
    &&& info.textures@.len() == builder.textures@.len()
    &&& forall|i: int|
        0 <= i < info.textures@.len() ==> {
            &&& (#[trigger] info.textures@[i]).name@ == builder.textures@[i].name@
            &&& info.textures@[i].width == builder.textures@[i].width
            &&& info.textures@[i].height == builder.textures@[i].height
            &&& info.textures@[i].x == slot(
                builder.max_width as int,
                builder.max_height as int,
                side * builder.max_width,
                i,
            ).0
            &&& info.textures@[i].y == slot(
                builder.max_width as int,
                builder.max_height as int,
                side * builder.max_width,
                i,
            ).1
        }
}

/// Where the slots have a width, the textures stand in a grid: the texture
/// with the number `i` stands in the column `i % side` of the row `i / side`.
pub proof fn lemma_slot_grid(max_width: int, max_height: int, side: int, i: int)
    requires
        0 < max_width,
        0 < side,
        0 <= i,
    ensures
        slot(max_width, max_height, side * max_width, i) == ((i % side) * max_width, (i / side)
            * max_height),
    decreases i,
{
    if i > 0 {
        lemma_slot_grid(max_width, max_height, side, i - 1);
        let column = (i - 1) % side;
        let row = (i - 1) / side;
        assert(i - 1 == row * side + column && 0 <= column < side) by (nonlinear_arith)
            requires
                column == (i - 1) % side,
                row == (i - 1) / side,
                0 < side,
        ;
        if column + 1 == side {
            assert(i == (row + 1) * side) by (nonlinear_arith)
                requires
                    i - 1 == row * side + column,
                    column + 1 == side,
            ;
            assert(i % side == 0 && i / side == row + 1) by (nonlinear_arith)
                requires
                    i == (row + 1) * side,
                    0 < side,
            ;
            assert(column * max_width + max_width >= side * max_width) by (nonlinear_arith)
                requires
                    column + 1 == side,
            ;
            assert((row + 1) * max_height == row * max_height + max_height) by (nonlinear_arith);
            assert(0int * max_width == 0);
        } else {
            assert(i % side == column + 1 && i / side == row) by (nonlinear_arith)
                requires
                    i == row * side + (column + 1),
                    0 <= column + 1 < side,
            ;
            assert(column * max_width + max_width < side * max_width) by (nonlinear_arith)
                requires
                    column + 1 < side,
                    0 < max_width,
            ;
            assert((column + 1) * max_width == column * max_width + max_width)
                by (nonlinear_arith);
        }
    } else {
        assert(0int % side == 0 && 0int / side == 0) by (nonlinear_arith)
            requires
                0 < side,
        ;
        assert(0int * max_width == 0 && 0int * max_height == 0);
    }
}

/// There is one number of slots along the edge for each number of textures.
pub proof fn lemma_side_unique(count: int, a: int, b: int)
    requires
        is_side(count, a),
        is_side(count, b),
    ensures
        a == b,
{
    if a < b {
        assert(a * a <= (b - 1) * (b - 1)) by (nonlinear_arith)
            requires
                0 <= a <= b - 1,
        ;
    } else if b < a {
        assert(b * b <= (a - 1) * (a - 1)) by (nonlinear_arith)
            requires
                0 <= b <= a - 1,
        ;
    }
}

/// The number of slots along each edge of a square atlas for `count` textures.
pub fn side_of(count: u32) -> (side: u32)
    ensures
        is_side(count as int, side as int),
        side == spec_side_of(count as int),
        side <= 65536,
{
    let mut side: u64 = 0;
    while side * side < count as u64
        invariant
            side <= 65536,
            side == 0 || (side - 1) * (side - 1) < count,
            side * side <= 0x1_0000_0000,
        decreases 65536 - side,
    {
        proof {
            let s = side as int;
            assert(s < 65536) by (nonlinear_arith)
                requires
                    0 <= s <= 65536,
                    s * s < 0x1_0000_0000,
            ;
            assert((s + 1) * (s + 1) <= 0x1_0000_0000) by (nonlinear_arith)
                requires
                    0 <= s < 65536,
            ;
        }
        side += 1;
    }
    proof {
        assert(is_side(count as int, side as int));
        lemma_side_unique(count as int, side as int, spec_side_of(count as int));
    }
    side as u32
}

impl TextureAtlasBuilder {
    pub fn new() -> (builder: TextureAtlasBuilder)
        ensures
            builder.textures@ == Seq::<RawImageReference>::empty(),
            builder.max_width == 0,
            builder.max_height == 0,
    {
        Self { textures: Vec::new(), max_width: 0, max_height: 0 }
    }

    /// Takes one more image and widens the slots to hold it.
    pub fn add_texture(&mut self, texture: RawImageReference)
        ensures
            final(self).textures@ == old(self).textures@.push(texture),
            final(self).max_width == if texture.width > old(self).max_width {
                texture.width
            } else {
                old(self).max_width
            },
            final(self).max_height == if texture.height > old(self).max_height {
                texture.height
            } else {
                old(self).max_height
            },
    {
        if texture.width > self.max_width {
            self.max_width = texture.width;
        }
        if texture.height > self.max_height {
            self.max_height = texture.height;
        }
        self.textures.push(texture);
    }

    /// Lays the textures out in a square atlas.
    ///
    /// The atlas has as many slots along each edge as it takes to hold all
    /// textures, and each slot is as large as the largest texture.
    pub fn build(self) -> (result: Result<TextureAtlasInfo, TextureAtlasBuildError>)
        ensures
            result is Ok == layout_fits(self, spec_side_of(self.textures@.len() as int)),
            result matches Ok(info) ==> is_layout(
                info,
                self,
                spec_side_of(self.textures@.len() as int),
            ),
            result matches Err(error) ==> error == TextureAtlasBuildError::InvalidImage,
    {
        if self.textures.len() > u32::MAX as usize {
            return Err(TextureAtlasBuildError::InvalidImage);
        }
        let number_of_textures: u32 = self.textures.len() as u32;
        let half: u32 = side_of(number_of_textures);
        let ghost side = spec_side_of(self.textures@.len() as int);
        assert(half == side);
        proof {
            let (h, w, t) = (half as int, self.max_width as int, self.max_height as int);
            assert(h * w <= 65536 * 0x1_0000_0000 && h * t <= 65536 * 0x1_0000_0000)
                by (nonlinear_arith)
                requires
                    0 <= h <= 65536,
                    0 <= w < 0x1_0000_0000,
                    0 <= t < 0x1_0000_0000,
            ;
        }
        let wide: u64 = half as u64 * self.max_width as u64;
        let high: u64 = half as u64 * self.max_height as u64;
        if wide > u32::MAX as u64 || high > u32::MAX as u64 {
            return Err(TextureAtlasBuildError::InvalidImage);
        }
        let image_width: u32 = wide as u32;
        let image_height: u32 = high as u32;
        let mut textures: Vec<TextureRef> = Vec::with_capacity(self.textures.len());
        // Stitches the textures together
        let mut x: u64 = 0;
        let mut y: u64 = 0;
        let mut i: usize = 0;
        while i < self.textures.len()
            invariant
                i <= self.textures.len(),
                self.textures.len() <= u32::MAX,
                side == spec_side_of(self.textures@.len() as int),
                image_width == side * self.max_width,
                image_height == side * self.max_height,
                (x as int, y as int) == slot(
                    self.max_width as int,
                    self.max_height as int,
                    image_width as int,
                    i as int,
                ),
                x <= u32::MAX,
                y <= u32::MAX + self.max_height,
                textures_fit(
                    self.textures@,
                    self.max_width as int,
                    self.max_height as int,
                    image_width as int,
                    image_height as int,
                    i as int,
                ),
                textures.len() == i,
                forall|j: int|
                    0 <= j < i ==> {
                        &&& (#[trigger] textures@[j]).name@ == self.textures@[j].name@
                        &&& textures@[j].width == self.textures@[j].width
                        &&& textures@[j].height == self.textures@[j].height
                        &&& textures@[j].x == slot(
                            self.max_width as int,
                            self.max_height as int,
                            image_width as int,
                            j,
                        ).0
                        &&& textures@[j].y == slot(
                            self.max_width as int,
                            self.max_height as int,
                            image_width as int,
                            j,
                        ).1
                    },
            decreases self.textures.len() - i,
        {
            let raw_image = &self.textures[i];
            if x + raw_image.width as u64 > image_width as u64 || y + raw_image.height as u64
                > image_height as u64 {
                proof {
                    let place = slot(
                        self.max_width as int,
                        self.max_height as int,
                        image_width as int,
                        i as int,
                    );
                    assert(place.0 + self.textures@[i as int].width > image_width || place.1
                        + self.textures@[i as int].height > image_height);
                    assert(!textures_fit(
                        self.textures@,
                        self.max_width as int,
                        self.max_height as int,
                        image_width as int,
                        image_height as int,
                        self.textures@.len() as int,
                    ));
                    assert(!layout_fits(self, side));
                }
                return Err(TextureAtlasBuildError::InvalidImage);
            }
            let texture_ref = TextureRef {
                name: raw_image.name.clone(),
                width: raw_image.width,
                height: raw_image.height,
                x: x as u32,
                y: y as u32,
            };
            textures.push(texture_ref);
            if x + self.max_width as u64 >= image_width as u64 {
                y += self.max_height as u64;
                x = 0;
            } else {
                x += self.max_width as u64;
            }
            i += 1;
        }
        let info = TextureAtlasInfo {
            textures,
            width: image_width,
            height: image_height,
            texture_width: self.max_width,
            texture_height: self.max_height,
        };
        proof {
            assert(layout_fits(self, side));
            assert(is_layout(info, self, side));
        }
        Ok(info)
    }
}

} // verus!
