use tile_platformer::gl::{
    check_uniform, first_unset, Channels, GLError, TextureFormat, UniformEntry, UniformFault,
    UniformType, VertexAttribute, VertexAttributeType, VertexFormat,
};

#[test]
fn formats_have_their_channels() {
    let all = [
        (TextureFormat::RFloat, Channels::R, false),
        (TextureFormat::RInt, Channels::R, true),
        (TextureFormat::RGFloat, Channels::RG, false),
        (TextureFormat::RGInt, Channels::RG, true),
        (TextureFormat::RGBFloat, Channels::RGB, false),
        (TextureFormat::RGBInt, Channels::RGB, true),
        (TextureFormat::BGRFloat, Channels::BGR, false),
        (TextureFormat::BGRInt, Channels::BGR, true),
        (TextureFormat::RGBAFloat, Channels::RGBA, false),
        (TextureFormat::RGBAInt, Channels::RGBA, true),
        (TextureFormat::BGRAFloat, Channels::BGRA, false),
        (TextureFormat::BGRAInt, Channels::BGRA, true),
    ];
    for (format, channels, integer) in all.iter() {
        assert_eq!(format.channels(), *channels);
        assert_eq!(format.is_integer(), *integer);
    }
}

#[test]
fn a_uniform_takes_a_value_of_its_type_only() {
    let types = vec![UniformType::Mat3, UniformType::Texture, UniformType::Float];
    assert_eq!(check_uniform(&types, 0, UniformType::Mat3), Ok(()));
    assert_eq!(check_uniform(&types, 1, UniformType::Texture), Ok(()));
    assert_eq!(check_uniform(&types, 2, UniformType::Float), Ok(()));
    assert_eq!(
        check_uniform(&types, 2, UniformType::Int),
        Err(UniformFault::WrongType { expected: UniformType::Float, got: UniformType::Int })
    );
    assert_eq!(
        check_uniform(&types, 3, UniformType::Float),
        Err(UniformFault::OutOfRange { index: 3 })
    );
    assert_eq!(
        check_uniform(&types, usize::MAX, UniformType::Float),
        Err(UniformFault::OutOfRange { index: usize::MAX })
    );
    assert_eq!(
        check_uniform(&Vec::new(), 0, UniformType::Float),
        Err(UniformFault::OutOfRange { index: 0 })
    );
}

#[test]
fn the_first_uniform_without_a_value_is_found() {
    assert_eq!(first_unset(&vec![true, true, true]), None);
    assert_eq!(first_unset(&vec![true, false, false]), Some(1));
    assert_eq!(first_unset(&vec![false]), Some(0));
    assert_eq!(first_unset(&Vec::new()), None);
}

#[test]
fn descriptors_hold_what_they_are_given() {
    let entry = UniformEntry { name: "u_transform", ty: UniformType::Mat3 };
    assert_eq!(entry.clone().name, "u_transform");
    assert_eq!(entry.ty, UniformType::Mat3);
    let attributes = [
        VertexAttribute { name: "a_pos", ty: VertexAttributeType::Float, size: 2, offset: 0 },
        VertexAttribute { name: "a_uv", ty: VertexAttributeType::Float, size: 2, offset: 8 },
        VertexAttribute { name: "a_color", ty: VertexAttributeType::Float, size: 4, offset: 16 },
    ];
    let format = VertexFormat { stride: 32, attributes: &attributes };
    assert_eq!(format.stride, 32);
    assert_eq!(format.attributes.len(), 3);
    assert_eq!(format.attributes[2].name, "a_color");
    assert_eq!(format.attributes[2].size, 4);
    assert_eq!(format.attributes[1].offset, 8);
    assert_eq!(format.attributes[0].ty, VertexAttributeType::Float);
    let error = GLError(String::from("no context"));
    assert_eq!(error.0, "no context");
}
