use glsl_front::arena::Arena;
use glsl_front::error::ErrorKind;
use glsl_front::helpers::{
    BinaryOp, TypeSpecifierNonArray, UnaryOp, glsl_to_spirv_binary_op, glsl_to_spirv_type,
    glsl_to_spirv_unary_op,
};
use glsl_front::ir::{
    BinaryOperator, ImageDimension, ScalarKind, Type, TypeInner, UnaryOperator, VectorSize,
};

fn map_named(name: &str, types: &mut Arena<Type>) -> Result<Option<TypeInner>, ErrorKind> {
    glsl_to_spirv_type(TypeSpecifierNonArray::TypeName(name.to_string()), types)
}

#[test]
fn unary_op_table() {
    assert!(matches!(glsl_to_spirv_unary_op(UnaryOp::Minus), Ok(UnaryOperator::Negate)));
    assert!(matches!(glsl_to_spirv_unary_op(UnaryOp::Not), Ok(UnaryOperator::Not)));
    assert!(matches!(glsl_to_spirv_unary_op(UnaryOp::Inc), Err(ErrorKind::UnsupportedOperator)));
    assert!(matches!(glsl_to_spirv_unary_op(UnaryOp::Dec), Err(ErrorKind::UnsupportedOperator)));
    assert!(matches!(glsl_to_spirv_unary_op(UnaryOp::Add), Err(ErrorKind::UnsupportedOperator)));
    assert!(matches!(
        glsl_to_spirv_unary_op(UnaryOp::Complement),
        Err(ErrorKind::UnsupportedOperator)
    ));
}

#[test]
fn binary_op_table() {
    let cases = [
        (BinaryOp::Or, BinaryOperator::LogicalOr),
        (BinaryOp::And, BinaryOperator::LogicalAnd),
        (BinaryOp::BitOr, BinaryOperator::InclusiveOr),
        (BinaryOp::BitXor, BinaryOperator::ExclusiveOr),
        (BinaryOp::BitAnd, BinaryOperator::And),
        (BinaryOp::Equal, BinaryOperator::Equal),
        (BinaryOp::NonEqual, BinaryOperator::NotEqual),
        (BinaryOp::LT, BinaryOperator::Less),
        (BinaryOp::GT, BinaryOperator::Greater),
        (BinaryOp::LTE, BinaryOperator::LessEqual),
        (BinaryOp::GTE, BinaryOperator::GreaterEqual),
        (BinaryOp::LShift, BinaryOperator::ShiftLeftLogical),
        (BinaryOp::RShift, BinaryOperator::ShiftRightArithmetic),
        (BinaryOp::Add, BinaryOperator::Add),
        (BinaryOp::Sub, BinaryOperator::Subtract),
        (BinaryOp::Mult, BinaryOperator::Multiply),
        (BinaryOp::Div, BinaryOperator::Divide),
        (BinaryOp::Mod, BinaryOperator::Modulo),
    ];
    for (surface, expected) in cases {
        assert_eq!(glsl_to_spirv_binary_op(surface), Ok(expected));
    }
    assert!(matches!(glsl_to_spirv_binary_op(BinaryOp::Xor), Err(ErrorKind::UnsupportedOperator)));
}

#[test]
fn scalar_shapes() {
    let mut types = Arena::<Type>::new();
    assert!(matches!(glsl_to_spirv_type(TypeSpecifierNonArray::Void, &mut types), Ok(None)));
    // The shape table gives booleans one byte.
    assert!(matches!(
        glsl_to_spirv_type(TypeSpecifierNonArray::Bool, &mut types),
        Ok(Some(TypeInner::Scalar { kind: ScalarKind::Bool, width: 1 }))
    ));
    assert!(matches!(
        glsl_to_spirv_type(TypeSpecifierNonArray::Int, &mut types),
        Ok(Some(TypeInner::Scalar { kind: ScalarKind::Sint, width: 4 }))
    ));
    assert!(matches!(
        glsl_to_spirv_type(TypeSpecifierNonArray::UInt, &mut types),
        Ok(Some(TypeInner::Scalar { kind: ScalarKind::Uint, width: 4 }))
    ));
    assert!(matches!(
        glsl_to_spirv_type(TypeSpecifierNonArray::Double, &mut types),
        Ok(Some(TypeInner::Scalar { kind: ScalarKind::Float, width: 8 }))
    ));
    assert_eq!(types.len(), 0);
}

#[test]
fn vector_and_matrix_shapes() {
    let mut types = Arena::<Type>::new();
    assert!(matches!(
        glsl_to_spirv_type(TypeSpecifierNonArray::Vec3, &mut types),
        Ok(Some(TypeInner::Vector { size: VectorSize::Tri, kind: ScalarKind::Float, width: 4 }))
    ));
    assert!(matches!(
        glsl_to_spirv_type(TypeSpecifierNonArray::BVec2, &mut types),
        Ok(Some(TypeInner::Vector { size: VectorSize::Bi, kind: ScalarKind::Bool, width: 1 }))
    ));
    assert!(matches!(
        glsl_to_spirv_type(TypeSpecifierNonArray::UVec4, &mut types),
        Ok(Some(TypeInner::Vector { size: VectorSize::Quad, kind: ScalarKind::Uint, width: 4 }))
    ));
    assert!(matches!(
        glsl_to_spirv_type(TypeSpecifierNonArray::Mat23, &mut types),
        Ok(Some(TypeInner::Matrix {
            columns: VectorSize::Bi,
            rows: VectorSize::Tri,
            kind: ScalarKind::Float,
            width: 4,
        }))
    ));
    assert!(matches!(
        glsl_to_spirv_type(TypeSpecifierNonArray::DMat42, &mut types),
        Ok(Some(TypeInner::Matrix {
            columns: VectorSize::Quad,
            rows: VectorSize::Bi,
            kind: ScalarKind::Float,
            width: 8,
        }))
    ));
}

#[test]
fn texture_names() {
    let mut types = Arena::<Type>::new();
    let r = map_named("texture2D", &mut types).unwrap().unwrap();
    match r {
        TypeInner::Image { base, dim, flags } => {
            assert!(matches!(dim, ImageDimension::D2));
            assert!(flags.sampled && !flags.arrayed && !flags.multisampled);
            match &types.get(base).inner {
                TypeInner::Scalar { kind, width } => {
                    assert!(matches!(kind, ScalarKind::Float));
                    assert_eq!(*width, 4);
                }
                _ => panic!("base is not a scalar"),
            }
        }
        _ => panic!("not an image"),
    }
    let r = map_named("itexture1DArray", &mut types).unwrap().unwrap();
    match r {
        TypeInner::Image { base, dim, flags } => {
            assert!(matches!(dim, ImageDimension::D1));
            assert!(flags.sampled && flags.arrayed && !flags.multisampled);
            match &types.get(base).inner {
                TypeInner::Scalar { kind, width } => {
                    assert!(matches!(kind, ScalarKind::Sint));
                    assert_eq!(*width, 4);
                }
                _ => panic!("base is not a scalar"),
            }
        }
        _ => panic!("not an image"),
    }
    let r = map_named("utexture2DMSArray", &mut types).unwrap().unwrap();
    match r {
        TypeInner::Image { base: _, dim, flags } => {
            assert!(matches!(dim, ImageDimension::D2));
            assert!(flags.sampled && flags.arrayed && flags.multisampled);
        }
        _ => panic!("not an image"),
    }
    let r = map_named("textureCubeArray", &mut types).unwrap().unwrap();
    match r {
        TypeInner::Image { base: _, dim, flags } => {
            assert!(matches!(dim, ImageDimension::Cube));
            assert!(flags.sampled && flags.arrayed && !flags.multisampled);
        }
        _ => panic!("not an image"),
    }
    let r = map_named("texture2DMS", &mut types).unwrap().unwrap();
    match r {
        TypeInner::Image { base: _, dim, flags } => {
            assert!(matches!(dim, ImageDimension::D2));
            assert!(flags.sampled && !flags.arrayed && flags.multisampled);
        }
        _ => panic!("not an image"),
    }
}

#[test]
fn sampler_names() {
    let mut types = Arena::<Type>::new();
    assert!(matches!(
        map_named("sampler", &mut types),
        Ok(Some(TypeInner::Sampler { comparison: false }))
    ));
    assert!(matches!(
        map_named("samplerShadow", &mut types),
        Ok(Some(TypeInner::Sampler { comparison: true }))
    ));
    assert_eq!(types.len(), 0);
}

#[test]
fn unrecognized_texture_prefix_fails() {
    let mut types = Arena::<Type>::new();
    assert!(matches!(map_named("xtexture2D", &mut types), Err(ErrorKind::UnrecognizedType)));
    assert_eq!(types.len(), 0);
}

#[test]
fn unrecognized_texture_suffix_fails() {
    let mut types = Arena::<Type>::new();
    assert!(matches!(map_named("texture4D", &mut types), Err(ErrorKind::UnrecognizedType)));
    assert_eq!(types.len(), 0);
}

#[test]
fn unknown_type_name_fails() {
    let mut types = Arena::<Type>::new();
    assert!(matches!(map_named("whatever", &mut types), Err(ErrorKind::UnimplementedType)));
}

#[test]
fn texture_base_interning_is_idempotent() {
    let mut types = Arena::<Type>::new();
    let first = match map_named("texture2D", &mut types).unwrap().unwrap() {
        TypeInner::Image { base, .. } => base,
        _ => panic!("not an image"),
    };
    let second = match map_named("texture3D", &mut types).unwrap().unwrap() {
        TypeInner::Image { base, .. } => base,
        _ => panic!("not an image"),
    };
    // Both float textures intern one and the same base scalar.
    assert!(first == second);
    assert_eq!(types.len(), 1);
    // A different base kind gets a distinct handle.
    let third = match map_named("itexture2D", &mut types).unwrap().unwrap() {
        TypeInner::Image { base, .. } => base,
        _ => panic!("not an image"),
    };
    assert!(!(first == third));
    assert_eq!(types.len(), 2);
}

#[test]
fn arena_interning_discriminates_fields() {
    let mut types = Arena::<Type>::new();
    let a = types.fetch_or_append(Type {
        name: None,
        inner: TypeInner::Scalar { kind: ScalarKind::Float, width: 4 },
    });
    let b = types.fetch_or_append(Type {
        name: None,
        inner: TypeInner::Scalar { kind: ScalarKind::Float, width: 4 },
    });
    let c = types.fetch_or_append(Type {
        name: None,
        inner: TypeInner::Scalar { kind: ScalarKind::Float, width: 8 },
    });
    let d = types.fetch_or_append(Type {
        name: Some("half".to_string()),
        inner: TypeInner::Scalar { kind: ScalarKind::Float, width: 4 },
    });
    let e = types.fetch_or_append(Type {
        name: Some("half".to_string()),
        inner: TypeInner::Scalar { kind: ScalarKind::Float, width: 4 },
    });
    assert!(a == b);
    assert!(!(a == c));
    assert!(!(a == d));
    assert!(d == e);
    assert_eq!(types.len(), 3);
}
