//! Translation tables from surface syntax to the representation: operator
//! tags, and the surface type descriptor to type shape mapping, including the
//! texture-sampler compound names.

use vstd::prelude::*;
use crate::arena::{Arena, intern_post};
use crate::error::ErrorKind;
use crate::ir::{
    BinaryOperator, ImageDimension, ImageFlags, ScalarKind, Type, TypeInner, UnaryOperator,
    VectorSize,
};
use crate::text::{chars_of, slice_matches, string_eq_literal};

verus! {

/// A surface unary operator as the grammar knows it.
#[derive(Clone, Copy, PartialEq, Eq, Structural, Debug)]
pub enum UnaryOp {
    Inc,
    Dec,
    Add,
    Minus,
    Not,
    Complement,
}

/// A surface binary operator as the grammar knows it.
#[derive(Clone, Copy, PartialEq, Eq, Structural, Debug)]
pub enum BinaryOp {
    Or,
    Xor,
    And,
    BitOr,
    BitXor,
    BitAnd,
    Equal,
    NonEqual,
    LT,
    GT,
    LTE,
    GTE,
    LShift,
    RShift,
    Add,
    Sub,
    Mult,
    Div,
    Mod,
}

/// A surface type descriptor: one nonarray type specifier. Compound
/// texture-sampler names arrive as `TypeName`.
pub enum TypeSpecifierNonArray {
    Void,
    Bool,
    Int,
    UInt,
    Float,
    Double,
    Vec2,
    Vec3,
    Vec4,
    DVec2,
    DVec3,
    DVec4,
    BVec2,
    BVec3,
    BVec4,
    IVec2,
    IVec3,
    IVec4,
    UVec2,
    UVec3,
    UVec4,
    Mat2,
    Mat3,
    Mat4,
    Mat23,
    Mat24,
    Mat32,
    Mat34,
    Mat42,
    Mat43,
    DMat2,
    DMat3,
    DMat4,
    DMat23,
    DMat24,
    DMat32,
    DMat34,
    DMat42,
    DMat43,
    TypeName(String),
}

/// What the unary operator table answers: the matching tag, or a refusal for
/// the operators that must fail rather than be silently dropped.
pub open spec fn unary_op_mapping(op: UnaryOp) -> Result<UnaryOperator, ErrorKind> {
    match op {
        UnaryOp::Minus => Ok(UnaryOperator::Negate),
        UnaryOp::Not => Ok(UnaryOperator::Not),
        _ => Err(ErrorKind::UnsupportedOperator),
    }
}

/// Maps a surface unary operator to its tag; increment, decrement, unary plus
/// and bitwise complement are explicitly unsupported.
pub fn glsl_to_spirv_unary_op(op: UnaryOp) -> (r: Result<UnaryOperator, ErrorKind>)
    ensures
        r == unary_op_mapping(op),
{
    match op {
        UnaryOp::Minus => Ok(UnaryOperator::Negate),
        UnaryOp::Not => Ok(UnaryOperator::Not),
        _ => Err(ErrorKind::UnsupportedOperator),
    }
}

/// What the binary operator table answers: the matching tag, or a refusal for
/// logical xor, which the representation does not have.
pub open spec fn binary_op_mapping(op: BinaryOp) -> Result<BinaryOperator, ErrorKind> {
    match op {
        BinaryOp::Or => Ok(BinaryOperator::LogicalOr),
        BinaryOp::Xor => Err(ErrorKind::UnsupportedOperator),
        BinaryOp::And => Ok(BinaryOperator::LogicalAnd),
        BinaryOp::BitOr => Ok(BinaryOperator::InclusiveOr),
        BinaryOp::BitXor => Ok(BinaryOperator::ExclusiveOr),
        BinaryOp::BitAnd => Ok(BinaryOperator::And),
        BinaryOp::Equal => Ok(BinaryOperator::Equal),
        BinaryOp::NonEqual => Ok(BinaryOperator::NotEqual),
        BinaryOp::LT => Ok(BinaryOperator::Less),
        BinaryOp::GT => Ok(BinaryOperator::Greater),
        BinaryOp::LTE => Ok(BinaryOperator::LessEqual),
        BinaryOp::GTE => Ok(BinaryOperator::GreaterEqual),
        BinaryOp::LShift => Ok(BinaryOperator::ShiftLeftLogical),
        BinaryOp::RShift => Ok(BinaryOperator::ShiftRightArithmetic),
        BinaryOp::Add => Ok(BinaryOperator::Add),
        BinaryOp::Sub => Ok(BinaryOperator::Subtract),
        BinaryOp::Mult => Ok(BinaryOperator::Multiply),
        BinaryOp::Div => Ok(BinaryOperator::Divide),
        BinaryOp::Mod => Ok(BinaryOperator::Modulo),
    }
}

/// Maps a surface binary operator to its tag; logical xor is explicitly
/// unsupported.
pub fn glsl_to_spirv_binary_op(op: BinaryOp) -> (r: Result<BinaryOperator, ErrorKind>)
    ensures
        r == binary_op_mapping(op),
{
    match op {
        BinaryOp::Or => Ok(BinaryOperator::LogicalOr),
        BinaryOp::Xor => Err(ErrorKind::UnsupportedOperator),
        BinaryOp::And => Ok(BinaryOperator::LogicalAnd),
        BinaryOp::BitOr => Ok(BinaryOperator::InclusiveOr),
        BinaryOp::BitXor => Ok(BinaryOperator::ExclusiveOr),
        BinaryOp::BitAnd => Ok(BinaryOperator::And),
        BinaryOp::Equal => Ok(BinaryOperator::Equal),
        BinaryOp::NonEqual => Ok(BinaryOperator::NotEqual),
        BinaryOp::LT => Ok(BinaryOperator::Less),
        BinaryOp::GT => Ok(BinaryOperator::Greater),
        BinaryOp::LTE => Ok(BinaryOperator::LessEqual),
        BinaryOp::GTE => Ok(BinaryOperator::GreaterEqual),
        BinaryOp::LShift => Ok(BinaryOperator::ShiftLeftLogical),
        BinaryOp::RShift => Ok(BinaryOperator::ShiftRightArithmetic),
        BinaryOp::Add => Ok(BinaryOperator::Add),
        BinaryOp::Sub => Ok(BinaryOperator::Subtract),
        BinaryOp::Mult => Ok(BinaryOperator::Multiply),
        BinaryOp::Div => Ok(BinaryOperator::Divide),
        BinaryOp::Mod => Ok(BinaryOperator::Modulo),
    }
}

/// The fixed shape table for every descriptor that is not a compound name:
/// `Some(None)` is void, `Some(Some(shape))` a shape, `None` means the
/// descriptor is a `TypeName` and falls to the compound-name rules.
pub open spec fn plain_shape(d: TypeSpecifierNonArray) -> Option<Option<TypeInner>> {
    match d {
        TypeSpecifierNonArray::Void => Some(None),
        TypeSpecifierNonArray::Bool => Some(
            Some(TypeInner::Scalar { kind: ScalarKind::Bool, width: 1 }),
        ),
        TypeSpecifierNonArray::Int => Some(
            Some(TypeInner::Scalar { kind: ScalarKind::Sint, width: 4 }),
        ),
        TypeSpecifierNonArray::UInt => Some(
            Some(TypeInner::Scalar { kind: ScalarKind::Uint, width: 4 }),
        ),
        TypeSpecifierNonArray::Float => Some(
            Some(TypeInner::Scalar { kind: ScalarKind::Float, width: 4 }),
        ),
        TypeSpecifierNonArray::Double => Some(
            Some(TypeInner::Scalar { kind: ScalarKind::Float, width: 8 }),
        ),
        TypeSpecifierNonArray::Vec2 => Some(
            Some(TypeInner::Vector { size: VectorSize::Bi, kind: ScalarKind::Float, width: 4 }),
        ),
        TypeSpecifierNonArray::Vec3 => Some(
            Some(TypeInner::Vector { size: VectorSize::Tri, kind: ScalarKind::Float, width: 4 }),
        ),
        TypeSpecifierNonArray::Vec4 => Some(
            Some(TypeInner::Vector { size: VectorSize::Quad, kind: ScalarKind::Float, width: 4 }),
        ),
        TypeSpecifierNonArray::DVec2 => Some(
            Some(TypeInner::Vector { size: VectorSize::Bi, kind: ScalarKind::Float, width: 8 }),
        ),
        TypeSpecifierNonArray::DVec3 => Some(
            Some(TypeInner::Vector { size: VectorSize::Tri, kind: ScalarKind::Float, width: 8 }),
        ),
        TypeSpecifierNonArray::DVec4 => Some(
            Some(TypeInner::Vector { size: VectorSize::Quad, kind: ScalarKind::Float, width: 8 }),
        ),
        TypeSpecifierNonArray::BVec2 => Some(
            Some(TypeInner::Vector { size: VectorSize::Bi, kind: ScalarKind::Bool, width: 1 }),
        ),
        TypeSpecifierNonArray::BVec3 => Some(
            Some(TypeInner::Vector { size: VectorSize::Tri, kind: ScalarKind::Bool, width: 1 }),
        ),
        TypeSpecifierNonArray::BVec4 => Some(
            Some(TypeInner::Vector { size: VectorSize::Quad, kind: ScalarKind::Bool, width: 1 }),
        ),
        TypeSpecifierNonArray::IVec2 => Some(
            Some(TypeInner::Vector { size: VectorSize::Bi, kind: ScalarKind::Sint, width: 4 }),
        ),
        TypeSpecifierNonArray::IVec3 => Some(
            Some(TypeInner::Vector { size: VectorSize::Tri, kind: ScalarKind::Sint, width: 4 }),
        ),
        TypeSpecifierNonArray::IVec4 => Some(
            Some(TypeInner::Vector { size: VectorSize::Quad, kind: ScalarKind::Sint, width: 4 }),
        ),
        TypeSpecifierNonArray::UVec2 => Some(
            Some(TypeInner::Vector { size: VectorSize::Bi, kind: ScalarKind::Uint, width: 4 }),
        ),
        TypeSpecifierNonArray::UVec3 => Some(
            Some(TypeInner::Vector { size: VectorSize::Tri, kind: ScalarKind::Uint, width: 4 }),
        ),
        TypeSpecifierNonArray::UVec4 => Some(
            Some(TypeInner::Vector { size: VectorSize::Quad, kind: ScalarKind::Uint, width: 4 }),
        ),
        TypeSpecifierNonArray::Mat2 => Some(
            Some(
                TypeInner::Matrix {
                    columns: VectorSize::Bi,
                    rows: VectorSize::Bi,
                    kind: ScalarKind::Float,
                    width: 4,
                },
            ),
        ),
        TypeSpecifierNonArray::Mat3 => Some(
            Some(
                TypeInner::Matrix {
                    columns: VectorSize::Tri,
                    rows: VectorSize::Tri,
                    kind: ScalarKind::Float,
                    width: 4,
                },
            ),
        ),
        TypeSpecifierNonArray::Mat4 => Some(
            Some(
                TypeInner::Matrix {
                    columns: VectorSize::Quad,
                    rows: VectorSize::Quad,
                    kind: ScalarKind::Float,
                    width: 4,
                },
            ),
        ),
        TypeSpecifierNonArray::Mat23 => Some(
            Some(
                TypeInner::Matrix {
                    columns: VectorSize::Bi,
                    rows: VectorSize::Tri,
                    kind: ScalarKind::Float,
                    width: 4,
                },
            ),
        ),
        TypeSpecifierNonArray::Mat24 => Some(
            Some(
                TypeInner::Matrix {
                    columns: VectorSize::Bi,
                    rows: VectorSize::Quad,
                    kind: ScalarKind::Float,
                    width: 4,
                },
            ),
        ),
        TypeSpecifierNonArray::Mat32 => Some(
            Some(
                TypeInner::Matrix {
                    columns: VectorSize::Tri,
                    rows: VectorSize::Bi,
                    kind: ScalarKind::Float,
                    width: 4,
                },
            ),
        ),
        TypeSpecifierNonArray::Mat34 => Some(
            Some(
                TypeInner::Matrix {
                    columns: VectorSize::Tri,
                    rows: VectorSize::Quad,
                    kind: ScalarKind::Float,
                    width: 4,
                },
            ),
        ),
        TypeSpecifierNonArray::Mat42 => Some(
            Some(
                TypeInner::Matrix {
                    columns: VectorSize::Quad,
                    rows: VectorSize::Bi,
                    kind: ScalarKind::Float,
                    width: 4,
                },
            ),
        ),
        TypeSpecifierNonArray::Mat43 => Some(
            Some(
                TypeInner::Matrix {
                    columns: VectorSize::Quad,
                    rows: VectorSize::Tri,
                    kind: ScalarKind::Float,
                    width: 4,
                },
            ),
        ),
        TypeSpecifierNonArray::DMat2 => Some(
            Some(
                TypeInner::Matrix {
                    columns: VectorSize::Bi,
                    rows: VectorSize::Bi,
                    kind: ScalarKind::Float,
                    width: 8,
                },
            ),
        ),
        TypeSpecifierNonArray::DMat3 => Some(
            Some(
                TypeInner::Matrix {
                    columns: VectorSize::Tri,
                    rows: VectorSize::Tri,
                    kind: ScalarKind::Float,
                    width: 8,
                },
            ),
        ),
        TypeSpecifierNonArray::DMat4 => Some(
            Some(
                TypeInner::Matrix {
                    columns: VectorSize::Quad,
                    rows: VectorSize::Quad,
                    kind: ScalarKind::Float,
                    width: 8,
                },
            ),
        ),
        TypeSpecifierNonArray::DMat23 => Some(
            Some(
                TypeInner::Matrix {
                    columns: VectorSize::Bi,
                    rows: VectorSize::Tri,
                    kind: ScalarKind::Float,
                    width: 8,
                },
            ),
        ),
        TypeSpecifierNonArray::DMat24 => Some(
            Some(
                TypeInner::Matrix {
                    columns: VectorSize::Bi,
                    rows: VectorSize::Quad,
                    kind: ScalarKind::Float,
                    width: 8,
                },
            ),
        ),
        TypeSpecifierNonArray::DMat32 => Some(
            Some(
                TypeInner::Matrix {
                    columns: VectorSize::Tri,
                    rows: VectorSize::Bi,
                    kind: ScalarKind::Float,
                    width: 8,
                },
            ),
        ),
        TypeSpecifierNonArray::DMat34 => Some(
            Some(
                TypeInner::Matrix {
                    columns: VectorSize::Tri,
                    rows: VectorSize::Quad,
                    kind: ScalarKind::Float,
                    width: 8,
                },
            ),
        ),
        TypeSpecifierNonArray::DMat42 => Some(
            Some(
                TypeInner::Matrix {
                    columns: VectorSize::Quad,
                    rows: VectorSize::Bi,
                    kind: ScalarKind::Float,
                    width: 8,
                },
            ),
        ),
        TypeSpecifierNonArray::DMat43 => Some(
            Some(
                TypeInner::Matrix {
                    columns: VectorSize::Quad,
                    rows: VectorSize::Tri,
                    kind: ScalarKind::Float,
                    width: 8,
                },
            ),
        ),
        TypeSpecifierNonArray::TypeName(_) => None,
    }
}

/// The characters `texture` stand at position `i` of `s`.
pub open spec fn texture_at(s: Seq<char>, i: int) -> bool {
    0 <= i && i + 7 <= s.len() && s.subrange(i, i + 7) == "texture"@
}

pub open spec fn has_texture(s: Seq<char>) -> bool {
    exists|i: int| texture_at(s, i)
}

/// `i` is the first position of `s` where `texture` stands.
pub open spec fn first_texture_at(s: Seq<char>, i: int) -> bool {
    texture_at(s, i) && forall|j: int| 0 <= j < i ==> !texture_at(s, j)
}

/// The scalar kind a texture-name prefix of length `p` selects, if any:
/// empty is float, `i` signed, `u` unsigned.
pub open spec fn texture_prefix_kind(s: Seq<char>, p: int) -> Option<ScalarKind> {
    if p == 0 {
        Some(ScalarKind::Float)
    } else if p == 1 && s[0] == 'i' {
        Some(ScalarKind::Sint)
    } else if p == 1 && s[0] == 'u' {
        Some(ScalarKind::Uint)
    } else {
        None
    }
}

/// The dimension and flags a texture-name suffix selects, if any.
pub open spec fn texture_suffix_shape(r: Seq<char>) -> Option<(ImageDimension, ImageFlags)> {
    if r == "1D"@ {
        Some((ImageDimension::D1, sampled_flags(false, false)))
    } else if r == "2D"@ {
        Some((ImageDimension::D2, sampled_flags(false, false)))
    } else if r == "3D"@ {
        Some((ImageDimension::D3, sampled_flags(false, false)))
    } else if r == "1DArray"@ {
        Some((ImageDimension::D1, sampled_flags(true, false)))
    } else if r == "2DArray"@ {
        Some((ImageDimension::D2, sampled_flags(true, false)))
    } else if r == "3DArray"@ {
        Some((ImageDimension::D3, sampled_flags(true, false)))
    } else if r == "2DMS"@ {
        Some((ImageDimension::D2, sampled_flags(false, true)))
    } else if r == "2DMSArray"@ {
        Some((ImageDimension::D2, sampled_flags(true, true)))
    } else if r == "Cube"@ {
        Some((ImageDimension::Cube, sampled_flags(false, false)))
    } else if r == "CubeArray"@ {
        Some((ImageDimension::Cube, sampled_flags(true, false)))
    } else {
        None
    }
}

/// Image flags: always sampled, with the given array and multisample bits.
pub open spec fn sampled_flags(arrayed: bool, multisampled: bool) -> ImageFlags {
    ImageFlags { sampled: true, arrayed, multisampled }
}

/// The base scalar type a texture interns: the selected kind at a fixed
/// 4-byte width, whatever the kind.
pub open spec fn image_base_type(kind: ScalarKind) -> Type {
    Type { name: None, inner: TypeInner::Scalar { kind, width: 4 } }
}

/// What mapping a compound `TypeName` comes to, position `p` being the first
/// `texture` occurrence when there is one.
pub open spec fn texture_mapping(s: Seq<char>, p: int) -> Result<
    (ScalarKind, ImageDimension, ImageFlags),
    ErrorKind,
> {
    match texture_prefix_kind(s, p) {
        Some(kind) => match texture_suffix_shape(s.subrange(p + 7, s.len() as int)) {
            Some((dim, flags)) => Ok((kind, dim, flags)),
            None => Err(ErrorKind::UnrecognizedType),
        },
        None => Err(ErrorKind::UnrecognizedType),
    }
}

/// The full contract of the descriptor-to-shape mapping: `s0` is the type
/// store before, `s1` after, `r` the answer.
pub open spec fn type_mapping_post(
    d: TypeSpecifierNonArray,
    s0: Seq<Type>,
    s1: Seq<Type>,
    r: Result<Option<TypeInner>, ErrorKind>,
) -> bool {
    match plain_shape(d) {
        Some(shape) => s1 == s0 && r == Ok::<Option<TypeInner>, ErrorKind>(shape),
        None => match d {
            TypeSpecifierNonArray::TypeName(nm) => {
                let s = nm@;
                if has_texture(s) {
                    forall|p: int| first_texture_at(s, p) ==> texture_post(s, p, s0, s1, r)
                } else if s == "sampler"@ {
                    s1 == s0 && r == Ok::<Option<TypeInner>, ErrorKind>(
                        Some(TypeInner::Sampler { comparison: false }),
                    )
                } else if s == "samplerShadow"@ {
                    s1 == s0 && r == Ok::<Option<TypeInner>, ErrorKind>(
                        Some(TypeInner::Sampler { comparison: true }),
                    )
                } else {
                    s1 == s0 && r == Err::<Option<TypeInner>, ErrorKind>(
                        ErrorKind::UnimplementedType,
                    )
                }
            },
            _ => false,
        },
    }
}

/// The texture case of `type_mapping_post`: on success the base scalar type
/// is interned and the answer is the image shape over it.
pub open spec fn texture_post(
    s: Seq<char>,
    p: int,
    s0: Seq<Type>,
    s1: Seq<Type>,
    r: Result<Option<TypeInner>, ErrorKind>,
) -> bool {
    match texture_mapping(s, p) {
        Ok((kind, dim, flags)) => {
            &&& r matches Ok(Some(TypeInner::Image { base, dim: rd, flags: rf })) && rd == dim
                && rf == flags && intern_post(s0, s1, image_base_type(kind), base.idx())
        },
        Err(e) => s1 == s0 && r == Err::<Option<TypeInner>, ErrorKind>(e),
    }
}

/// Maps a surface type descriptor to a type shape, or `None` for void.
/// Texture names intern their base scalar type into `types`; every failure
/// leaves `types` unchanged.
pub fn glsl_to_spirv_type(ty: TypeSpecifierNonArray, types: &mut Arena<Type>) -> (r: Result<
    Option<TypeInner>,
    ErrorKind,
>)
    ensures
        type_mapping_post(ty, old(types)@, final(types)@, r),
{
    match ty {
        TypeSpecifierNonArray::Void => Ok(None),
        TypeSpecifierNonArray::Bool => Ok(
            Some(TypeInner::Scalar { kind: ScalarKind::Bool, width: 1 }),
        ),
        TypeSpecifierNonArray::Int => Ok(
            Some(TypeInner::Scalar { kind: ScalarKind::Sint, width: 4 }),
        ),
        TypeSpecifierNonArray::UInt => Ok(
            Some(TypeInner::Scalar { kind: ScalarKind::Uint, width: 4 }),
        ),
        TypeSpecifierNonArray::Float => Ok(
            Some(TypeInner::Scalar { kind: ScalarKind::Float, width: 4 }),
        ),
        TypeSpecifierNonArray::Double => Ok(
            Some(TypeInner::Scalar { kind: ScalarKind::Float, width: 8 }),
        ),
        TypeSpecifierNonArray::Vec2 => Ok(
            Some(TypeInner::Vector { size: VectorSize::Bi, kind: ScalarKind::Float, width: 4 }),
        ),
        TypeSpecifierNonArray::Vec3 => Ok(
            Some(TypeInner::Vector { size: VectorSize::Tri, kind: ScalarKind::Float, width: 4 }),
        ),
        TypeSpecifierNonArray::Vec4 => Ok(
            Some(TypeInner::Vector { size: VectorSize::Quad, kind: ScalarKind::Float, width: 4 }),
        ),
        TypeSpecifierNonArray::DVec2 => Ok(
            Some(TypeInner::Vector { size: VectorSize::Bi, kind: ScalarKind::Float, width: 8 }),
        ),
        TypeSpecifierNonArray::DVec3 => Ok(
            Some(TypeInner::Vector { size: VectorSize::Tri, kind: ScalarKind::Float, width: 8 }),
        ),
        TypeSpecifierNonArray::DVec4 => Ok(
            Some(TypeInner::Vector { size: VectorSize::Quad, kind: ScalarKind::Float, width: 8 }),
        ),
        TypeSpecifierNonArray::BVec2 => Ok(
            Some(TypeInner::Vector { size: VectorSize::Bi, kind: ScalarKind::Bool, width: 1 }),
        ),
        TypeSpecifierNonArray::BVec3 => Ok(
            Some(TypeInner::Vector { size: VectorSize::Tri, kind: ScalarKind::Bool, width: 1 }),
        ),
        TypeSpecifierNonArray::BVec4 => Ok(
            Some(TypeInner::Vector { size: VectorSize::Quad, kind: ScalarKind::Bool, width: 1 }),
        ),
        TypeSpecifierNonArray::IVec2 => Ok(
            Some(TypeInner::Vector { size: VectorSize::Bi, kind: ScalarKind::Sint, width: 4 }),
        ),
        TypeSpecifierNonArray::IVec3 => Ok(
            Some(TypeInner::Vector { size: VectorSize::Tri, kind: ScalarKind::Sint, width: 4 }),
        ),
        TypeSpecifierNonArray::IVec4 => Ok(
            Some(TypeInner::Vector { size: VectorSize::Quad, kind: ScalarKind::Sint, width: 4 }),
        ),
        TypeSpecifierNonArray::UVec2 => Ok(
            Some(TypeInner::Vector { size: VectorSize::Bi, kind: ScalarKind::Uint, width: 4 }),
        ),
        TypeSpecifierNonArray::UVec3 => Ok(
            Some(TypeInner::Vector { size: VectorSize::Tri, kind: ScalarKind::Uint, width: 4 }),
        ),
        TypeSpecifierNonArray::UVec4 => Ok(
            Some(TypeInner::Vector { size: VectorSize::Quad, kind: ScalarKind::Uint, width: 4 }),
        ),
        TypeSpecifierNonArray::Mat2 => Ok(
            Some(
                TypeInner::Matrix {
                    columns: VectorSize::Bi,
                    rows: VectorSize::Bi,
                    kind: ScalarKind::Float,
                    width: 4,
                },
            ),
        ),
        TypeSpecifierNonArray::Mat3 => Ok(
            Some(
                TypeInner::Matrix {
                    columns: VectorSize::Tri,
                    rows: VectorSize::Tri,
                    kind: ScalarKind::Float,
                    width: 4,
                },
            ),
        ),
        TypeSpecifierNonArray::Mat4 => Ok(
            Some(
                TypeInner::Matrix {
                    columns: VectorSize::Quad,
                    rows: VectorSize::Quad,
                    kind: ScalarKind::Float,
                    width: 4,
                },
            ),
        ),
        TypeSpecifierNonArray::Mat23 => Ok(
            Some(
                TypeInner::Matrix {
                    columns: VectorSize::Bi,
                    rows: VectorSize::Tri,
                    kind: ScalarKind::Float,
                    width: 4,
                },
            ),
        ),
        TypeSpecifierNonArray::Mat24 => Ok(
            Some(
                TypeInner::Matrix {
                    columns: VectorSize::Bi,
                    rows: VectorSize::Quad,
                    kind: ScalarKind::Float,
                    width: 4,
                },
            ),
        ),
        TypeSpecifierNonArray::Mat32 => Ok(
            Some(
                TypeInner::Matrix {
                    columns: VectorSize::Tri,
                    rows: VectorSize::Bi,
                    kind: ScalarKind::Float,
                    width: 4,
                },
            ),
        ),
        TypeSpecifierNonArray::Mat34 => Ok(
            Some(
                TypeInner::Matrix {
                    columns: VectorSize::Tri,
                    rows: VectorSize::Quad,
                    kind: ScalarKind::Float,
                    width: 4,
                },
            ),
        ),
        TypeSpecifierNonArray::Mat42 => Ok(
            Some(
                TypeInner::Matrix {
                    columns: VectorSize::Quad,
                    rows: VectorSize::Bi,
                    kind: ScalarKind::Float,
                    width: 4,
                },
            ),
        ),
        TypeSpecifierNonArray::Mat43 => Ok(
            Some(
                TypeInner::Matrix {
                    columns: VectorSize::Quad,
                    rows: VectorSize::Tri,
                    kind: ScalarKind::Float,
                    width: 4,
                },
            ),
        ),
        TypeSpecifierNonArray::DMat2 => Ok(
            Some(
                TypeInner::Matrix {
                    columns: VectorSize::Bi,
                    rows: VectorSize::Bi,
                    kind: ScalarKind::Float,
                    width: 8,
                },
            ),
        ),
        TypeSpecifierNonArray::DMat3 => Ok(
            Some(
                TypeInner::Matrix {
                    columns: VectorSize::Tri,
                    rows: VectorSize::Tri,
                    kind: ScalarKind::Float,
                    width: 8,
                },
            ),
        ),
        TypeSpecifierNonArray::DMat4 => Ok(
            Some(
                TypeInner::Matrix {
                    columns: VectorSize::Quad,
                    rows: VectorSize::Quad,
                    kind: ScalarKind::Float,
                    width: 8,
                },
            ),
        ),
        TypeSpecifierNonArray::DMat23 => Ok(
            Some(
                TypeInner::Matrix {
                    columns: VectorSize::Bi,
                    rows: VectorSize::Tri,
                    kind: ScalarKind::Float,
                    width: 8,
                },
            ),
        ),
        TypeSpecifierNonArray::DMat24 => Ok(
            Some(
                TypeInner::Matrix {
                    columns: VectorSize::Bi,
                    rows: VectorSize::Quad,
                    kind: ScalarKind::Float,
                    width: 8,
                },
            ),
        ),
        TypeSpecifierNonArray::DMat32 => Ok(
            Some(
                TypeInner::Matrix {
                    columns: VectorSize::Tri,
                    rows: VectorSize::Bi,
                    kind: ScalarKind::Float,
                    width: 8,
                },
            ),
        ),
        TypeSpecifierNonArray::DMat34 => Ok(
            Some(
                TypeInner::Matrix {
                    columns: VectorSize::Tri,
                    rows: VectorSize::Quad,
                    kind: ScalarKind::Float,
                    width: 8,
                },
            ),
        ),
        TypeSpecifierNonArray::DMat42 => Ok(
            Some(
                TypeInner::Matrix {
                    columns: VectorSize::Quad,
                    rows: VectorSize::Bi,
                    kind: ScalarKind::Float,
                    width: 8,
                },
            ),
        ),
        TypeSpecifierNonArray::DMat43 => Ok(
            Some(
                TypeInner::Matrix {
                    columns: VectorSize::Quad,
                    rows: VectorSize::Tri,
                    kind: ScalarKind::Float,
                    width: 8,
                },
            ),
        ),
        TypeSpecifierNonArray::TypeName(nm) => map_type_name(nm, types),
    }
}

/// The compound-name rules of the descriptor mapping.
fn map_type_name(nm: String, types: &mut Arena<Type>) -> (r: Result<Option<TypeInner>, ErrorKind>)
    ensures
        type_mapping_post(TypeSpecifierNonArray::TypeName(nm), old(types)@, final(types)@, r),
{
    let cs = chars_of(nm.as_str());
    match find_texture(&cs) {
        Some(p) => {
            let kind: ScalarKind = if p == 0 {
                ScalarKind::Float
            } else if p == 1 && cs[0] == 'i' {
                ScalarKind::Sint
            } else if p == 1 && cs[0] == 'u' {
                ScalarKind::Uint
            } else {
                return Err(ErrorKind::UnrecognizedType);
            };
            let q = p + 7;
            let n = cs.len();
            let (dim, flags): (ImageDimension, ImageFlags) = if slice_matches(&cs, q, n, "1D") {
                (ImageDimension::D1, ImageFlags { sampled: true, arrayed: false, multisampled: false })
            } else if slice_matches(&cs, q, n, "2D") {
                (ImageDimension::D2, ImageFlags { sampled: true, arrayed: false, multisampled: false })
            } else if slice_matches(&cs, q, n, "3D") {
                (ImageDimension::D3, ImageFlags { sampled: true, arrayed: false, multisampled: false })
            } else if slice_matches(&cs, q, n, "1DArray") {
                (ImageDimension::D1, ImageFlags { sampled: true, arrayed: true, multisampled: false })
            } else if slice_matches(&cs, q, n, "2DArray") {
                (ImageDimension::D2, ImageFlags { sampled: true, arrayed: true, multisampled: false })
            } else if slice_matches(&cs, q, n, "3DArray") {
                (ImageDimension::D3, ImageFlags { sampled: true, arrayed: true, multisampled: false })
            } else if slice_matches(&cs, q, n, "2DMS") {
                (ImageDimension::D2, ImageFlags { sampled: true, arrayed: false, multisampled: true })
            } else if slice_matches(&cs, q, n, "2DMSArray") {
                (ImageDimension::D2, ImageFlags { sampled: true, arrayed: true, multisampled: true })
            } else if slice_matches(&cs, q, n, "Cube") {
                (ImageDimension::Cube, ImageFlags { sampled: true, arrayed: false, multisampled: false })
            } else if slice_matches(&cs, q, n, "CubeArray") {
                (ImageDimension::Cube, ImageFlags { sampled: true, arrayed: true, multisampled: false })
            } else {
                return Err(ErrorKind::UnrecognizedType);
            };
            let base = types.fetch_or_append(
                Type { name: None, inner: TypeInner::Scalar { kind, width: 4 } },
            );
            Ok(Some(TypeInner::Image { base, dim, flags }))
        },
        None => {
            if string_eq_literal(&nm, "sampler") {
                Ok(Some(TypeInner::Sampler { comparison: false }))
            } else if string_eq_literal(&nm, "samplerShadow") {
                Ok(Some(TypeInner::Sampler { comparison: true }))
            } else {
                Err(ErrorKind::UnimplementedType)
            }
        },
    }
}

/// Finds the first position where the characters `texture` stand, if any.
fn find_texture(cs: &Vec<char>) -> (o: Option<usize>)
    ensures
        match o {
            Some(p) => first_texture_at(cs@, p as int),
            None => !has_texture(cs@),
        },
{
    let n = cs.len();
    if n < 7 {
        proof {
            assert(forall|i: int| texture_at(cs@, i) ==> i + 7 <= cs@.len());
        }
        return None;
    }
    let mut p: usize = 0;
    while p <= n - 7
        invariant
            n == cs@.len(),
            7 <= n,
            0 <= p <= n - 7 + 1,
            forall|j: int| 0 <= j < p ==> !texture_at(cs@, j),
        decreases n - p,
    {
        if slice_matches(cs, p, p + 7, "texture") {
            proof {
                reveal_strlit("texture");
                assert(texture_at(cs@, p as int));
            }
            return Some(p);
        }
        proof {
            reveal_strlit("texture");
            assert(!texture_at(cs@, p as int));
        }
        p = p + 1;
    }
    proof {
        assert(forall|i: int| texture_at(cs@, i) ==> i + 7 <= cs@.len());
    }
    None
}

} // verus!
