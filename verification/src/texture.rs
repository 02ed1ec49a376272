use crate::face::Face;
use vstd::prelude::*;

verus! {

/// A point of the atlas image, in texels from its top left corner.
#[derive(Debug, Clone, Copy, PartialEq, Eq, Hash, Structural)]
pub struct TextureCoordinates {
    pub x: u64,
    pub y: u64,
}

/// The four corners of the rectangle that a texture takes up in the atlas.
#[derive(Debug, Clone, Copy, PartialEq, Eq, Hash, Structural)]
pub struct UVCoordinates {
    pub top_left: TextureCoordinates,
    pub top_right: TextureCoordinates,
    pub bottom_left: TextureCoordinates,
    pub bottom_right: TextureCoordinates,
}

impl UVCoordinates {
    /// The rectangle with all four corners at the origin of the atlas.
    pub open spec fn spec_default() -> UVCoordinates {
        let origin = TextureCoordinates { x: 0, y: 0 };
        UVCoordinates {
            top_left: origin,
            top_right: origin,
            bottom_left: origin,
            bottom_right: origin,
        }
    }

    /// The corners in the order top left, top right, bottom left, bottom right.
    pub open spec fn corners(&self) -> Seq<TextureCoordinates> {
        seq![self.top_left, self.top_right, self.bottom_left, self.bottom_right]
    }

    /// The corner at a place of that order; places past the fourth wrap round.
    pub fn index(&self, index: usize) -> (corner: TextureCoordinates)
        ensures
            corner == self.corners()[index as int % 4],
    {
        let index: usize = if index > 3 {
            index % 4
        } else {
            index
        };
        if index == 0 {
            self.top_left
        } else if index == 1 {
            self.top_right
        } else if index == 2 {
            self.bottom_left
        } else {
            self.bottom_right
        }
    }

    /// The four corners in order.
    pub fn iter(&self) -> (corners: Vec<TextureCoordinates>)
        ensures
            corners@ == self.corners(),
    {
        let corners = vec![self.top_left, self.top_right, self.bottom_left, self.bottom_right];
        assert(corners@ =~= self.corners());
        corners
    }
}

impl Default for UVCoordinates {
    fn default() -> (uv: UVCoordinates)
        ensures
            uv == UVCoordinates::spec_default(),
    {
        let origin = TextureCoordinates { x: 0, y: 0 };
        UVCoordinates {
            top_left: origin,
            top_right: origin,
            bottom_left: origin,
            bottom_right: origin,
        }
    }
}

/// Textures given for some of the faces of a cube, at most one for each.
#[derive(Debug, Clone, Copy, PartialEq, Eq, Hash, Structural)]
pub struct FaceTextures {
    pub north: Option<UVCoordinates>,
    pub top: Option<UVCoordinates>,
    pub bottom: Option<UVCoordinates>,
    pub west: Option<UVCoordinates>,
    pub east: Option<UVCoordinates>,
    pub south: Option<UVCoordinates>,
}

impl FaceTextures {
    pub open spec fn spec_get(&self, face: Face) -> Option<UVCoordinates> {
        match face {
            Face::North => self.north,
            Face::Top => self.top,
            Face::Bottom => self.bottom,
            Face::West => self.west,
            Face::East => self.east,
            Face::South => self.south,
        }
    }

    /// No face has a texture.
    pub fn new() -> (textures: FaceTextures)
        ensures
            forall|face: Face| textures.spec_get(face) is None,
    {
        FaceTextures { north: None, top: None, bottom: None, west: None, east: None, south: None }
    }

    #[verifier::when_used_as_spec(spec_get)]
    pub fn get(&self, face: Face) -> (uv: Option<UVCoordinates>)
        ensures
            uv == self.spec_get(face),
    {
        match face {
            Face::North => self.north,
            Face::Top => self.top,
            Face::Bottom => self.bottom,
            Face::West => self.west,
            Face::East => self.east,
            Face::South => self.south,
        }
    }

    /// Gives a face its texture and returns the one it had.
    pub fn insert(&mut self, face: Face, uv: UVCoordinates) -> (previous: Option<UVCoordinates>)
        ensures
            previous == old(self).spec_get(face),
            final(self).spec_get(face) == Some(uv),
            forall|other: Face| other != face ==> final(self).spec_get(other) == old(self).spec_get(other),
    {
        let previous = self.get(face);
        match face {
            Face::North => {
                self.north = Some(uv);
            },
            Face::Top => {
                self.top = Some(uv);
            },
            Face::Bottom => {
                self.bottom = Some(uv);
            },
            Face::West => {
                self.west = Some(uv);
            },
            Face::East => {
                self.east = Some(uv);
            },
            Face::South => {
                self.south = Some(uv);
            },
        }
        previous
    }
}

/// The textures of a block, resolved to rectangles of the atlas.
#[derive(Debug, Clone, Copy, PartialEq, Eq, Hash, Structural)]
pub enum LoadedCubeTexture {
    /// One texture on every face.
    SingleTexture(UVCoordinates),
    /// A texture of their own for some faces, a common one for the rest.
    MultiTexture { textures: FaceTextures, default_texture: UVCoordinates },
    /// A texture of its own for every face.
    MultiTextureAllSet {
        front: UVCoordinates,
        back: UVCoordinates,
        top: UVCoordinates,
        bottom: UVCoordinates,
        left: UVCoordinates,
        right: UVCoordinates,
    },
}

impl LoadedCubeTexture {
    /// The rectangle that a face of the block shows.
    pub open spec fn spec_index(&self, face: Face) -> UVCoordinates {
        match *self {
            LoadedCubeTexture::SingleTexture(texture) => texture,
            LoadedCubeTexture::MultiTexture { textures, default_texture } => match textures.spec_get(
                face,
            ) {
                Some(texture) => texture,
                None => default_texture,
            },
            LoadedCubeTexture::MultiTextureAllSet { front, back, top, bottom, left, right } => match face {
                Face::North => front,
                Face::South => back,
                Face::Top => top,
                Face::Bottom => bottom,
                Face::West => left,
                Face::East => right,
            },
        }
    }

    #[verifier::when_used_as_spec(spec_index)]
    pub fn index(&self, index: Face) -> (uv: UVCoordinates)
        ensures
            uv == self.spec_index(index),
    {
        match self {
            LoadedCubeTexture::SingleTexture(texture) => *texture,
            LoadedCubeTexture::MultiTexture { textures, default_texture } => {
                match textures.get(index) {
                    Some(texture) => texture,
                    None => *default_texture,
                }
            },
            LoadedCubeTexture::MultiTextureAllSet { front, back, top, bottom, left, right } => match index {
                Face::North => *front,
                Face::South => *back,
                Face::Top => *top,
                Face::Bottom => *bottom,
                Face::West => *left,
                Face::East => *right,
            },
        }
    }
}

/// Where a texture lies in the atlas image, in texels.
#[derive(Debug, Clone, PartialEq, Eq)]
pub struct TextureRef {
    pub name: String,
    pub width: u32,
    pub height: u32,
    pub x: u32,
    pub y: u32,
}

impl TextureRef {
    /// The top left corner of the texture.
    pub fn coordinates(&self) -> (corner: TextureCoordinates)
        ensures
            corner == (TextureCoordinates { x: self.x as u64, y: self.y as u64 }),
    {
        TextureCoordinates { x: self.x as u64, y: self.y as u64 }
    }

    /// The rectangle that the texture takes up in the atlas.
    pub open spec fn spec_uv(&self) -> UVCoordinates {
        let left = self.x as u64;
        let right = (self.x + self.width) as u64;
        let top = self.y as u64;
        let bottom = (self.y + self.height) as u64;
        UVCoordinates {
            top_left: TextureCoordinates { x: left, y: top },
            top_right: TextureCoordinates { x: right, y: top },
            bottom_left: TextureCoordinates { x: left, y: bottom },
            bottom_right: TextureCoordinates { x: right, y: bottom },
        }
    }

    #[verifier::when_used_as_spec(spec_uv)]
    pub fn uv(&self) -> (uv: UVCoordinates)
        ensures
            uv == self.spec_uv(),
    {
        let left: u64 = self.x as u64;
        let right: u64 = self.x as u64 + self.width as u64;
        let top: u64 = self.y as u64;
        let bottom: u64 = self.y as u64 + self.height as u64;
        UVCoordinates {
            top_left: TextureCoordinates { x: left, y: top },
            top_right: TextureCoordinates { x: right, y: top },
            bottom_left: TextureCoordinates { x: left, y: bottom },
            bottom_right: TextureCoordinates { x: right, y: bottom },
        }
    }
}

/// The texture of a name among textures that were entered one after the other:
/// the one entered last under that name.
pub open spec fn find_texture(textures: Seq<TextureRef>, name: Seq<char>) -> Option<TextureRef>
    decreases textures.len(),
{
    if textures.len() == 0 {
        None
    } else if textures.last().name@ == name {
        Some(textures.last())
    } else {
        find_texture(textures.drop_last(), name)
    }
}

/// What an atlas holds: the size of its image, the size of a slot, and the
/// textures in the order in which they were entered. A texture entered later
/// takes the place of one entered before under the same name.
#[derive(Debug, Clone, PartialEq, Eq)]
pub struct TextureAtlasInfo {
    pub textures: Vec<TextureRef>,
    pub width: u32,
    pub height: u32,
    pub texture_width: u32,
    pub texture_height: u32,
}

impl TextureAtlasInfo {
    pub open spec fn spec_get_texture(&self, name: Seq<char>) -> Option<TextureRef> {
        find_texture(self.textures@, name)
    }

    /// The texture entered last under a name, if there is one.
    pub fn get_texture(&self, name: &str) -> (texture: Option<&TextureRef>)
        ensures
            match texture {
                Some(t) => self.spec_get_texture(name@) == Some(*t),
                None => self.spec_get_texture(name@) is None,
            },
    {
        let wanted = name.to_owned();
        let mut found: Option<&TextureRef> = None;
        let mut i: usize = 0;
        while i < self.textures.len()
            invariant
                i <= self.textures.len(),
                wanted@ == name@,
                match found {
                    Some(t) => find_texture(self.textures@.take(i as int), name@) == Some(*t),
                    None => find_texture(self.textures@.take(i as int), name@) is None,
                },
            decreases self.textures.len() - i,
        {
            proof {
                assert(self.textures@.take(i as int + 1).drop_last() =~= self.textures@.take(
                    i as int,
                ));
            }
            if self.textures[i].name == wanted {
                found = Some(&self.textures[i]);
            }
            i += 1;
        }
        proof {
            assert(self.textures@.take(i as int) =~= self.textures@);
        }
        found
    }

    /// The rectangle in the atlas of the texture of a name, if there is one.
    pub open spec fn spec_uv_for_texture(&self, name: Seq<char>) -> Option<UVCoordinates> {
        match self.spec_get_texture(name) {
            Some(texture) => Some(texture.spec_uv()),
            None => None,
        }
    }

    /// Gets the UV coordinates for a texture
    /// 4 UV coordinates are returned in the following order:
    /// TOP LEFT, TOP RIGHT, BOTTOM LEFT, BOTTOM RIGHT
    pub fn get_uv_for_texture(&self, name: &str) -> (uv: Option<UVCoordinates>)
        ensures
            uv == self.spec_uv_for_texture(name@),
    {
        match self.get_texture(name) {
            Some(texture) => Some(texture.uv()),
            None => None,
        }
    }
}

/// The names of the textures given for some of the faces of a cube.
#[derive(Debug, Clone, PartialEq, Eq)]
pub struct FaceNames {
    pub north: Option<String>,
    pub top: Option<String>,
    pub bottom: Option<String>,
    pub west: Option<String>,
    pub east: Option<String>,
    pub south: Option<String>,
}

impl FaceNames {
    /// Whether every face has a name.
    pub open spec fn is_full(&self) -> bool {
        &&& self.north is Some
        &&& self.top is Some
        &&& self.bottom is Some
        &&& self.west is Some
        &&& self.east is Some
        &&& self.south is Some
    }

    /// The number of faces that have a name.
    pub fn len(&self) -> (n: usize)
        ensures
            n <= 6,
            n == 6 <==> self.is_full(),
    {
        let mut n: usize = 0;
        if self.north.is_some() {
            n += 1;
        }
        if self.top.is_some() {
            n += 1;
        }
        if self.bottom.is_some() {
            n += 1;
        }
        if self.west.is_some() {
            n += 1;
        }
        if self.east.is_some() {
            n += 1;
        }
        if self.south.is_some() {
            n += 1;
        }
        n
    }
}

/// The textures of a block by name, before they are looked up in an atlas.
#[derive(Debug, Clone, PartialEq, Eq)]
pub enum CubeTextures {
    SingleTexture(String),
    MultiTexture(FaceNames),
    Transparent,
}

/// The rectangle in the atlas of an optional name.
pub open spec fn named_uv(atlas: TextureAtlasInfo, name: Option<String>) -> Option<UVCoordinates> {
    match name {
        Some(name) => atlas.spec_uv_for_texture(name@),
        None => None,
    }
}

impl CubeTextures {
    /// The textures looked up in an atlas: `None` where there are none to
    /// look up, where a face is left without a name or where the atlas lacks
    /// one of them.
    pub open spec fn spec_coordinates(&self, atlas: TextureAtlasInfo) -> Option<LoadedCubeTexture> {
        match self {
            CubeTextures::SingleTexture(texture) => match atlas.spec_uv_for_texture(texture@) {
                Some(uv) => Some(LoadedCubeTexture::SingleTexture(uv)),
                None => None,
            },
            CubeTextures::MultiTexture(names) => {
                let front = named_uv(atlas, names.north);
                let back = named_uv(atlas, names.south);
                let top = named_uv(atlas, names.top);
                let bottom = named_uv(atlas, names.bottom);
                let left = named_uv(atlas, names.west);
                let right = named_uv(atlas, names.east);
                if front is Some && back is Some && top is Some && bottom is Some && left is Some
                    && right is Some {
                    Some(
                        LoadedCubeTexture::MultiTextureAllSet {
                            front: front.unwrap(),
                            back: back.unwrap(),
                            top: top.unwrap(),
                            bottom: bottom.unwrap(),
                            left: left.unwrap(),
                            right: right.unwrap(),
                        },
                    )
                } else {
                    None
                }
            },
            CubeTextures::Transparent => None,
        }
    }

    /// Looks the textures up in an atlas.
    pub fn get_coordinates(&self, texture_atlas: &TextureAtlasInfo) -> (loaded: Option<
        LoadedCubeTexture,
    >)
        ensures
            loaded == self.spec_coordinates(*texture_atlas),
    {
        match self {
            CubeTextures::SingleTexture(texture) => {
                let uv = texture_atlas.get_uv_for_texture(texture.as_str())?;
                Some(LoadedCubeTexture::SingleTexture(uv))
            },
            CubeTextures::MultiTexture(textures) => {
                let front = lookup_face(texture_atlas, &textures.north)?;
                let back = lookup_face(texture_atlas, &textures.south)?;
                let top = lookup_face(texture_atlas, &textures.top)?;
                let bottom = lookup_face(texture_atlas, &textures.bottom)?;
                let left = lookup_face(texture_atlas, &textures.west)?;
                let right = lookup_face(texture_atlas, &textures.east)?;

                Some(LoadedCubeTexture::MultiTextureAllSet { front, back, top, bottom, left, right })
            },
            CubeTextures::Transparent => None,
        }
    }
}

fn lookup_face(texture_atlas: &TextureAtlasInfo, name: &Option<String>) -> (uv: Option<
    UVCoordinates,
>)
    ensures
        uv == named_uv(*texture_atlas, *name),
{
    match name {
        Some(name) => texture_atlas.get_uv_for_texture(name.as_str()),
        None => None,
    }
}

} // verus!
