//! What the renderer is told about textures, uniforms and vertices, and
//! the checks that need no graphics context.

use vstd::prelude::*;

verus! {

/// An error of the graphics context, with its message.
#[derive(Debug)]
pub struct GLError(pub String);

/// How the pixels of a texture are stored.
#[derive(Debug, Clone, Copy, PartialEq, Eq, Structural)]
pub enum TextureFormat {
    RFloat,
    RInt,
    RGFloat,
    RGInt,
    RGBFloat,
    RGBInt,
    BGRFloat,
    BGRInt,
    RGBAFloat,
    RGBAInt,
    BGRAFloat,
    BGRAInt,
}

/// The channels of a texture format, in their order.
#[derive(Debug, Clone, Copy, PartialEq, Eq, Structural)]
pub enum Channels {
    R,
    RG,
    RGB,
    BGR,
    RGBA,
    BGRA,
}

/// The type of a uniform of a shader program.
#[derive(Clone, Copy, Debug, PartialEq, Eq, Structural)]
pub enum UniformType {
    Texture,
    Int,
    Int2,
    Int3,
    Int4,
    Float,
    Float2,
    Float3,
    Float4,
    Mat2,
    Mat3,
    Mat4,
}

/// A uniform that a shader program declares.
#[derive(Clone, Debug)]
pub struct UniformEntry<'a> {
    pub name: &'a str,
    pub ty: UniformType,
}

/// The type of the components of a vertex attribute.
#[derive(Clone, Copy, Debug, PartialEq, Eq, Structural)]
pub enum VertexAttributeType {
    Int,
    Uint,
    Float,
}

/// One attribute of a vertex: `size` components of type `ty`, `offset`
/// bytes into the vertex.
#[derive(Clone)]
pub struct VertexAttribute<'a> {
    pub name: &'a str,
    pub ty: VertexAttributeType,
    pub size: u32,
    pub offset: u32,
}

/// The layout of a vertex: its length in bytes, and its attributes.
pub struct VertexFormat<'a> {
    pub stride: usize,
    pub attributes: &'a [VertexAttribute<'a>],
}

/// Why a value cannot be given to a uniform.
#[derive(Clone, Copy, Debug, PartialEq, Eq, Structural)]
pub enum UniformFault {
    /// The program has no uniform of this index.
    OutOfRange { index: usize },
    /// The uniform has another type than the value.
    WrongType { expected: UniformType, got: UniformType },
}

impl TextureFormat {
    /// The channels of the format.
    pub open spec fn channels_of(self) -> Channels {
        match self {
            TextureFormat::RFloat | TextureFormat::RInt => Channels::R,
            TextureFormat::RGFloat | TextureFormat::RGInt => Channels::RG,
            TextureFormat::RGBFloat | TextureFormat::RGBInt => Channels::RGB,
            TextureFormat::BGRFloat | TextureFormat::BGRInt => Channels::BGR,
            TextureFormat::RGBAFloat | TextureFormat::RGBAInt => Channels::RGBA,
            TextureFormat::BGRAFloat | TextureFormat::BGRAInt => Channels::BGRA,
        }
    }

    /// Whether the shader reads the texture as integers.
    pub open spec fn integer(self) -> bool {
        match self {
            TextureFormat::RInt
            | TextureFormat::RGInt
            | TextureFormat::RGBInt
            | TextureFormat::BGRInt
            | TextureFormat::RGBAInt
            | TextureFormat::BGRAInt => true,
            _ => false,
        }
    }

    /// The channels of the format: what a texture of it is stored as.
    pub fn channels(self) -> (c: Channels)
        ensures
            c == self.channels_of(),
    {
        match self {
            TextureFormat::RFloat | TextureFormat::RInt => Channels::R,
            TextureFormat::RGFloat | TextureFormat::RGInt => Channels::RG,
            TextureFormat::RGBFloat | TextureFormat::RGBInt => Channels::RGB,
            TextureFormat::BGRFloat | TextureFormat::BGRInt => Channels::BGR,
            TextureFormat::RGBAFloat | TextureFormat::RGBAInt => Channels::RGBA,
            TextureFormat::BGRAFloat | TextureFormat::BGRAInt => Channels::BGRA,
        }
    }

    /// Whether the shader reads the texture as integers.
    pub fn is_integer(self) -> (b: bool)
        ensures
            b == self.integer(),
    {
        match self {
            TextureFormat::RInt
            | TextureFormat::RGInt
            | TextureFormat::RGBInt
            | TextureFormat::BGRInt
            | TextureFormat::RGBAInt
            | TextureFormat::BGRAInt => true,
            _ => false,
        }
    }
}

/// Whether a value of type `got` can be given to uniform `index` of a
/// program whose uniforms have the types `entry_types`.
pub open spec fn uniform_fault(entry_types: Seq<UniformType>, index: int, got: UniformType) -> Option<
    UniformFault,
> {
    if index < 0 || index >= entry_types.len() {
        Some(UniformFault::OutOfRange { index: index as usize })
    } else if entry_types[index] != got {
        Some(UniformFault::WrongType { expected: entry_types[index], got })
    } else {
        None
    }
}

/// Checks that a value of type `got` can be given to uniform `index`.
pub fn check_uniform(entry_types: &Vec<UniformType>, index: usize, got: UniformType) -> (r: Result<
    (),
    UniformFault,
>)
    ensures
        r is Ok <==> uniform_fault(entry_types@, index as int, got) is None,
        r is Err ==> Some(r->Err_0) == uniform_fault(entry_types@, index as int, got),
{
    if index >= entry_types.len() {
        return Err(UniformFault::OutOfRange { index });
    }
    let expected = entry_types[index];
    if expected != got {
        return Err(UniformFault::WrongType { expected, got });
    }
    Ok(())
}

/// The index of the first uniform that has no value yet, if there is one.
/// A program can only be rendered once every uniform has a value.
pub fn first_unset(set: &Vec<bool>) -> (r: Option<usize>)
    ensures
        match r {
            Some(i) => i < set@.len() && !set@[i as int] && forall|j: int|
                0 <= j < i ==> set@[j],
            None => forall|j: int| 0 <= j < set@.len() ==> set@[j],
        },
{
    let mut i: usize = 0;
    while i < set.len()
        invariant
            i <= set@.len(),
            forall|j: int| 0 <= j < i ==> set@[j],
        decreases set@.len() - i,
    {
        if !set[i] {
            return Some(i);
        }
        i = i + 1;
    }
    None
}

} // verus!
