use map_chunk::vk::descriptor::{
    BufferUsage, BufferViewUsage, DescriptorBufferDesc, DescriptorDesc, DescriptorDescTy,
    DescriptorImageDesc, DescriptorImageDescArray, DescriptorImageDescDimensions, DescriptorType,
    Format, ImageViewInfo, PipelineLayoutDesc,
};
use map_chunk::vk::persistent::{
    image_match_desc, index_u32, DescriptorWrite, OomError, PersistentDescriptorSet,
    PersistentDescriptorSetBuf, PersistentDescriptorSetBufView, PersistentDescriptorSetBuildError,
    PersistentDescriptorSetBuilder, PersistentDescriptorSetError, PersistentDescriptorSetImg,
    PersistentDescriptorSetImgArray, PersistentDescriptorSetResources,
    PersistentDescriptorSetSampler,
};

const RGBA8: Format = Format { code: 37 };
const R32F: Format = Format { code: 100 };

fn image_desc(sampled: bool) -> DescriptorImageDesc {
    DescriptorImageDesc {
        sampled,
        dimensions: DescriptorImageDescDimensions::TwoDimensional,
        format: Some(RGBA8),
        multisampled: false,
        array_layers: DescriptorImageDescArray::NonArrayed,
    }
}

fn view() -> ImageViewInfo {
    ImageViewInfo {
        usage_sampled: true,
        usage_storage: true,
        usage_input_attachment: true,
        dimensions: DescriptorImageDescDimensions::TwoDimensional,
        array_layers: 1,
        format: RGBA8,
        samples: 1,
        can_be_sampled: true,
    }
}

fn one(ty: DescriptorDescTy) -> Option<DescriptorDesc> {
    Some(DescriptorDesc { ty, array_count: 1 })
}

fn buffer_ty(storage: bool) -> DescriptorDescTy {
    DescriptorDescTy::Buffer(DescriptorBufferDesc { dynamic: Some(false), storage })
}

fn start(bindings: Vec<Option<DescriptorDesc>>) -> PersistentDescriptorSetBuilder<()> {
    PersistentDescriptorSet::start(PipelineLayoutDesc { sets: vec![vec![], bindings] }, 1)
}

const BOTH: BufferUsage = BufferUsage { storage_buffer: true, uniform_buffer: true };

fn write(binding: u32, element: u32, ty: DescriptorType) -> DescriptorWrite {
    DescriptorWrite { binding, first_array_element: element, ty }
}

#[test]
fn layout_lookups() {
    let layout = PipelineLayoutDesc {
        sets: vec![vec![one(DescriptorDescTy::Sampler), None], vec![]],
    };
    assert_eq!(layout.num_sets(), 2);
    assert_eq!(layout.num_bindings_in_set(0), Some(2));
    assert_eq!(layout.num_bindings_in_set(1), Some(0));
    assert_eq!(layout.num_bindings_in_set(2), None);
    assert_eq!(layout.descriptor(0, 0), one(DescriptorDescTy::Sampler));
    assert_eq!(layout.descriptor(0, 1), None);
    assert_eq!(layout.descriptor(0, 2), None);
    assert_eq!(layout.descriptor(1, 0), None);
    assert_eq!(layout.descriptor(2, 0), None);
}

#[test]
fn descriptor_types() {
    assert_eq!(DescriptorDescTy::Sampler.ty(), Some(DescriptorType::Sampler));
    assert_eq!(
        DescriptorDescTy::CombinedImageSampler(image_desc(true)).ty(),
        Some(DescriptorType::CombinedImageSampler)
    );
    assert_eq!(DescriptorDescTy::Image(image_desc(true)).ty(), Some(DescriptorType::SampledImage));
    assert_eq!(DescriptorDescTy::Image(image_desc(false)).ty(), Some(DescriptorType::StorageImage));
    assert_eq!(
        DescriptorDescTy::TexelBuffer { storage: true, format: None }.ty(),
        Some(DescriptorType::StorageTexelBuffer)
    );
    assert_eq!(
        DescriptorDescTy::TexelBuffer { storage: false, format: Some(R32F) }.ty(),
        Some(DescriptorType::UniformTexelBuffer)
    );
    assert_eq!(
        DescriptorDescTy::InputAttachment {
            multisampled: true,
            array_layers: DescriptorImageDescArray::NonArrayed
        }
        .ty(),
        Some(DescriptorType::InputAttachment)
    );
    let buffer = |dynamic, storage| {
        DescriptorDescTy::Buffer(DescriptorBufferDesc { dynamic, storage }).ty()
    };
    assert_eq!(buffer(Some(false), false), Some(DescriptorType::UniformBuffer));
    assert_eq!(buffer(Some(false), true), Some(DescriptorType::StorageBuffer));
    assert_eq!(buffer(Some(true), false), Some(DescriptorType::UniformBufferDynamic));
    assert_eq!(buffer(Some(true), true), Some(DescriptorType::StorageBufferDynamic));
    assert_eq!(buffer(None, false), None);
    assert_eq!(buffer(None, true), None);
}

#[test]
fn index_keeps_the_low_32_bits() {
    assert_eq!(index_u32(0), 0);
    assert_eq!(index_u32(7), 7);
    assert_eq!(index_u32(u32::MAX as usize), u32::MAX);
}

#[test]
fn image_matches() {
    assert_eq!(image_match_desc(&view(), &image_desc(true)), Ok(()));
    assert_eq!(image_match_desc(&view(), &image_desc(false)), Ok(()));
    let unnamed = DescriptorImageDesc { format: None, ..image_desc(true) };
    assert_eq!(image_match_desc(&ImageViewInfo { format: R32F, ..view() }, &unnamed), Ok(()));
}

#[test]
fn image_missing_usage() {
    let unsampled = ImageViewInfo { usage_sampled: false, ..view() };
    assert_eq!(
        image_match_desc(&unsampled, &image_desc(true)),
        Err(PersistentDescriptorSetError::MissingUsage)
    );
    assert_eq!(image_match_desc(&unsampled, &image_desc(false)), Ok(()));
    let no_storage = ImageViewInfo { usage_storage: false, ..view() };
    assert_eq!(
        image_match_desc(&no_storage, &image_desc(false)),
        Err(PersistentDescriptorSetError::MissingUsage)
    );
    assert_eq!(image_match_desc(&no_storage, &image_desc(true)), Ok(()));
}

#[test]
fn image_type_mismatch() {
    let cube = ImageViewInfo { dimensions: DescriptorImageDescDimensions::Cube, ..view() };
    assert_eq!(
        image_match_desc(&cube, &image_desc(true)),
        Err(PersistentDescriptorSetError::ImageViewTypeMismatch {
            expected: DescriptorImageDescDimensions::TwoDimensional,
            obtained: DescriptorImageDescDimensions::Cube,
        })
    );
}

#[test]
fn image_format_mismatch() {
    let other = ImageViewInfo { format: R32F, ..view() };
    assert_eq!(
        image_match_desc(&other, &image_desc(true)),
        Err(PersistentDescriptorSetError::ImageViewFormatMismatch {
            expected: RGBA8,
            obtained: R32F,
        })
    );
}

#[test]
fn image_sampling_mismatch() {
    let multi = ImageViewInfo { samples: 4, ..view() };
    assert_eq!(
        image_match_desc(&multi, &image_desc(true)),
        Err(PersistentDescriptorSetError::UnexpectedMultisampled)
    );
    let wants_multi = DescriptorImageDesc { multisampled: true, ..image_desc(true) };
    assert_eq!(
        image_match_desc(&view(), &wants_multi),
        Err(PersistentDescriptorSetError::ExpectedMultisampled)
    );
    assert_eq!(image_match_desc(&multi, &wants_multi), Ok(()));
}

#[test]
fn image_layers_mismatch() {
    let layered = ImageViewInfo { array_layers: 5, ..view() };
    assert_eq!(
        image_match_desc(&layered, &image_desc(true)),
        Err(PersistentDescriptorSetError::ArrayLayersMismatch { expected: 1, obtained: 5 })
    );
    let up_to_four = DescriptorImageDesc {
        array_layers: DescriptorImageDescArray::Arrayed { max_layers: Some(4) },
        ..image_desc(true)
    };
    assert_eq!(
        image_match_desc(&layered, &up_to_four),
        Err(PersistentDescriptorSetError::ArrayLayersMismatch { expected: 4, obtained: 5 })
    );
    assert_eq!(image_match_desc(&ImageViewInfo { array_layers: 4, ..view() }, &up_to_four), Ok(()));
    let any = DescriptorImageDesc {
        array_layers: DescriptorImageDescArray::Arrayed { max_layers: None },
        ..image_desc(true)
    };
    assert_eq!(image_match_desc(&layered, &any), Ok(()));
}

#[test]
fn image_checks_come_in_order() {
    // Everything is wrong with this view; the usage is found first.
    let bad = ImageViewInfo {
        usage_sampled: false,
        dimensions: DescriptorImageDescDimensions::Cube,
        format: R32F,
        samples: 2,
        array_layers: 9,
        ..view()
    };
    assert_eq!(
        image_match_desc(&bad, &image_desc(true)),
        Err(PersistentDescriptorSetError::MissingUsage)
    );
    let bad = ImageViewInfo { usage_sampled: true, ..bad };
    assert!(matches!(
        image_match_desc(&bad, &image_desc(true)),
        Err(PersistentDescriptorSetError::ImageViewTypeMismatch { .. })
    ));
    let bad = ImageViewInfo { dimensions: DescriptorImageDescDimensions::TwoDimensional, ..bad };
    assert!(matches!(
        image_match_desc(&bad, &image_desc(true)),
        Err(PersistentDescriptorSetError::ImageViewFormatMismatch { .. })
    ));
    let bad = ImageViewInfo { format: RGBA8, ..bad };
    assert_eq!(
        image_match_desc(&bad, &image_desc(true)),
        Err(PersistentDescriptorSetError::UnexpectedMultisampled)
    );
}

#[test]
fn whole_set() {
    let bindings = vec![
        one(buffer_ty(false)),
        Some(DescriptorDesc { ty: DescriptorDescTy::Image(image_desc(true)), array_count: 2 }),
        None,
        one(DescriptorDescTy::Sampler),
        one(DescriptorDescTy::CombinedImageSampler(image_desc(true))),
        one(DescriptorDescTy::TexelBuffer { storage: true, format: None }),
        one(DescriptorDescTy::InputAttachment {
            multisampled: false,
            array_layers: DescriptorImageDescArray::NonArrayed,
        }),
        one(buffer_ty(true)),
        one(DescriptorDescTy::Image(image_desc(false))),
    ];
    let set = start(bindings)
        .add_buffer("uniforms", BOTH)
        .unwrap()
        .add_images(vec!["a", "b"], &vec![view(), view()])
        .unwrap()
        .add_empty()
        .unwrap()
        .add_sampler("nearest")
        .unwrap()
        .add_sampled_images(vec!["c"], &vec![view()], "linear")
        .unwrap()
        .add_buffer_view(
            "texels",
            BufferViewUsage { storage_texel_buffer: true, uniform_texel_buffer: false },
        )
        .unwrap()
        .add_images(vec!["d"], &vec![view()])
        .unwrap()
        .add_buffer("storage", BOTH)
        .unwrap()
        .add_images(vec!["e"], &vec![view()])
        .unwrap()
        .build()
        .unwrap();

    assert_eq!(
        set.descriptor_writes(),
        &vec![
            write(0, 0, DescriptorType::UniformBuffer),
            write(1, 0, DescriptorType::SampledImage),
            write(1, 1, DescriptorType::SampledImage),
            write(3, 0, DescriptorType::Sampler),
            write(4, 0, DescriptorType::CombinedImageSampler),
            write(5, 0, DescriptorType::StorageTexelBuffer),
            write(6, 0, DescriptorType::InputAttachment),
            write(7, 0, DescriptorType::StorageBuffer),
            write(8, 0, DescriptorType::StorageImage),
        ]
    );
    assert_eq!(set.num_bindings(), 9);
    assert_eq!(set.descriptor(3), one(DescriptorDescTy::Sampler));
    assert_eq!(set.descriptor(2), None);
    assert_eq!(set.descriptor(9), None);

    assert_eq!(set.num_buffers(), 3);
    assert_eq!(set.buffer(0), Some(0));
    assert_eq!(set.buffer(1), Some(5));
    assert_eq!(set.buffer(2), Some(7));
    assert_eq!(set.buffer(3), None);
    assert_eq!(set.buffer(usize::MAX), None);

    assert_eq!(set.num_images(), 5);
    assert_eq!(set.image(0), Some(1));
    assert_eq!(set.image(1), Some(1));
    assert_eq!(set.image(2), Some(4));
    assert_eq!(set.image(3), Some(6));
    assert_eq!(set.image(4), Some(8));
    assert_eq!(set.image(5), None);
    assert_eq!(set.image(usize::MAX), None);

    let resources = set.bound_resources();
    assert_eq!(resources.1.images, vec!["e"]);
    assert_eq!(resources.1.descriptor_num, 8);
    assert_eq!((resources.0).1.buffer, "storage");
    assert_eq!((resources.0).1.descriptor_num, 7);
    assert_eq!(resources.num_buffers(), 3);
    assert_eq!(resources.0.num_images(), 4);
}

#[test]
fn nothing_bound() {
    let set = start(vec![]).build().unwrap();
    assert!(set.descriptor_writes().is_empty());
    assert_eq!(set.num_bindings(), 0);
    assert_eq!(set.num_buffers(), 0);
    assert_eq!(set.num_images(), 0);
    assert_eq!(set.buffer(0), None);
    assert_eq!(set.image(0), None);
    assert_eq!(().num_buffers(), 0);
    assert_eq!(().image(0), None);
}

#[test]
fn array_filled_element_by_element() {
    let bindings =
        vec![Some(DescriptorDesc { ty: buffer_ty(true), array_count: 3 })];
    let set = start(bindings)
        .enter_array()
        .unwrap()
        .add_buffer(10u8, BOTH)
        .unwrap()
        .add_buffer(11u8, BOTH)
        .unwrap()
        .add_buffer(12u8, BOTH)
        .unwrap()
        .leave_array()
        .unwrap()
        .build()
        .unwrap();
    assert_eq!(
        set.descriptor_writes(),
        &vec![
            write(0, 0, DescriptorType::StorageBuffer),
            write(0, 1, DescriptorType::StorageBuffer),
            write(0, 2, DescriptorType::StorageBuffer),
        ]
    );
    assert_eq!(set.num_buffers(), 3);
    assert_eq!(set.buffer(2), Some(0));
}

#[test]
fn missing_descriptors() {
    let bindings = vec![one(buffer_ty(false)), one(DescriptorDescTy::Sampler), None];
    let r = start(bindings).add_buffer((), BOTH).unwrap().build();
    assert_eq!(
        r.err(),
        Some(PersistentDescriptorSetBuildError::MissingDescriptors { expected: 3, obtained: 1 })
    );
    let r = start(vec![None]).build();
    assert_eq!(
        r.err(),
        Some(PersistentDescriptorSetBuildError::MissingDescriptors { expected: 1, obtained: 0 })
    );
}

#[test]
fn passing_the_last_binding_still_builds() {
    let set = start(vec![None]).add_empty().unwrap().add_empty().unwrap().build().unwrap();
    assert_eq!(set.num_bindings(), 1);
    assert!(set.descriptor_writes().is_empty());
}

#[test]
fn empty_expected() {
    let r = start(vec![None]).add_buffer((), BOTH);
    assert_eq!(r.err(), Some(PersistentDescriptorSetError::EmptyExpected));
    let r = start(vec![]).enter_array();
    assert_eq!(r.err(), Some(PersistentDescriptorSetError::EmptyExpected));
    let r = start(vec![]).add_sampler(());
    assert_eq!(r.err(), Some(PersistentDescriptorSetError::EmptyExpected));
    let r = start(vec![None]).add_images(vec![()], &vec![view()]);
    assert_eq!(r.err(), Some(PersistentDescriptorSetError::EmptyExpected));
}

#[test]
fn add_empty_on_a_descriptor() {
    let r = start(vec![one(buffer_ty(true))]).add_empty();
    assert_eq!(
        r.err(),
        Some(PersistentDescriptorSetError::WrongDescriptorTy {
            expected: DescriptorType::StorageBuffer
        })
    );
}

#[test]
fn wrong_descriptor_type() {
    let r = start(vec![one(DescriptorDescTy::Sampler)]).add_buffer((), BOTH);
    assert_eq!(
        r.err(),
        Some(PersistentDescriptorSetError::WrongDescriptorTy { expected: DescriptorType::Sampler })
    );
    let r = start(vec![one(DescriptorDescTy::Image(image_desc(false)))]).add_buffer_view(
        (),
        BufferViewUsage { storage_texel_buffer: true, uniform_texel_buffer: true },
    );
    assert_eq!(
        r.err(),
        Some(PersistentDescriptorSetError::WrongDescriptorTy {
            expected: DescriptorType::StorageImage
        })
    );
    let r = start(vec![one(buffer_ty(false))]).add_images(vec![()], &vec![view()]);
    assert_eq!(
        r.err(),
        Some(PersistentDescriptorSetError::WrongDescriptorTy {
            expected: DescriptorType::UniformBuffer
        })
    );
    let r = start(vec![one(DescriptorDescTy::Image(image_desc(true)))])
        .add_sampled_images(vec![()], &vec![view()], ());
    assert_eq!(
        r.err(),
        Some(PersistentDescriptorSetError::WrongDescriptorTy {
            expected: DescriptorType::SampledImage
        })
    );
    let r = start(vec![one(DescriptorDescTy::TexelBuffer { storage: false, format: None })])
        .add_sampler(());
    assert_eq!(
        r.err(),
        Some(PersistentDescriptorSetError::WrongDescriptorTy {
            expected: DescriptorType::UniformTexelBuffer
        })
    );
}

#[test]
fn array_out_of_bounds() {
    let none_wanted = vec![Some(DescriptorDesc { ty: buffer_ty(false), array_count: 0 })];
    let r = start(none_wanted).add_buffer((), BOTH);
    assert_eq!(r.err(), Some(PersistentDescriptorSetError::ArrayOutOfBounds));

    let r = start(vec![one(buffer_ty(false))])
        .enter_array()
        .unwrap()
        .add_buffer((), BOTH)
        .unwrap()
        .add_buffer((), BOTH);
    assert_eq!(r.err(), Some(PersistentDescriptorSetError::ArrayOutOfBounds));

    let r = start(vec![one(DescriptorDescTy::Sampler)])
        .enter_array()
        .unwrap()
        .add_sampler(())
        .unwrap()
        .add_sampler(());
    assert_eq!(r.err(), Some(PersistentDescriptorSetError::ArrayOutOfBounds));
}

#[test]
fn missing_array_elements() {
    let two = vec![Some(DescriptorDesc { ty: buffer_ty(false), array_count: 2 })];
    let r = start(two).add_buffer((), BOTH);
    assert_eq!(
        r.err(),
        Some(PersistentDescriptorSetError::MissingArrayElements { expected: 2, obtained: 1 })
    );
    let three = vec![Some(DescriptorDesc {
        ty: DescriptorDescTy::Image(image_desc(true)),
        array_count: 3,
    })];
    let r = start(three).enter_array().unwrap().leave_array();
    assert_eq!(
        r.err(),
        Some(PersistentDescriptorSetError::MissingArrayElements { expected: 3, obtained: 0 })
    );
}

#[test]
fn buffer_missing_usage() {
    let uniform_only = BufferUsage { storage_buffer: false, uniform_buffer: true };
    let storage_only = BufferUsage { storage_buffer: true, uniform_buffer: false };
    let r = start(vec![one(buffer_ty(true))]).add_buffer((), uniform_only);
    assert_eq!(r.err(), Some(PersistentDescriptorSetError::MissingUsage));
    let r = start(vec![one(buffer_ty(false))]).add_buffer((), storage_only);
    assert_eq!(r.err(), Some(PersistentDescriptorSetError::MissingUsage));
    assert!(start(vec![one(buffer_ty(true))]).add_buffer((), storage_only).is_ok());
    assert!(start(vec![one(buffer_ty(false))]).add_buffer((), uniform_only).is_ok());
}

#[test]
fn buffer_with_unknown_dynamic_is_bound() {
    let ty = DescriptorDescTy::Buffer(DescriptorBufferDesc { dynamic: None, storage: true });
    let set = start(vec![one(ty)]).add_buffer((), BOTH).unwrap().build().unwrap();
    assert_eq!(set.descriptor_writes(), &vec![write(0, 0, DescriptorType::StorageBuffer)]);
}

#[test]
fn buffer_view_usage() {
    let ty = |storage| one(DescriptorDescTy::TexelBuffer { storage, format: None });
    let uniform = BufferViewUsage { storage_texel_buffer: false, uniform_texel_buffer: true };
    let storage = BufferViewUsage { storage_texel_buffer: true, uniform_texel_buffer: false };
    let r = start(vec![ty(true)]).add_buffer_view((), uniform);
    assert_eq!(r.err(), Some(PersistentDescriptorSetError::MissingUsage));
    let r = start(vec![ty(false)]).add_buffer_view((), storage);
    assert_eq!(r.err(), Some(PersistentDescriptorSetError::MissingUsage));
    let set = start(vec![ty(false)]).add_buffer_view((), uniform).unwrap().build().unwrap();
    assert_eq!(set.descriptor_writes(), &vec![write(0, 0, DescriptorType::UniformTexelBuffer)]);
    assert_eq!(set.num_buffers(), 1);
    assert_eq!(set.buffer(0), Some(0));
}

#[test]
fn sampler_must_fit_the_view() {
    let bindings = vec![one(DescriptorDescTy::CombinedImageSampler(image_desc(true)))];
    let unfit = ImageViewInfo { can_be_sampled: false, ..view() };
    let r = start(bindings).add_sampled_images(vec![()], &vec![unfit], ());
    assert_eq!(r.err(), Some(PersistentDescriptorSetError::IncompatibleImageViewSampler));

    // The sampler is looked at before the type of the descriptor.
    let r = start(vec![one(DescriptorDescTy::Sampler)])
        .add_sampled_images(vec![()], &vec![unfit], ());
    assert_eq!(r.err(), Some(PersistentDescriptorSetError::IncompatibleImageViewSampler));
}

#[test]
fn first_faulty_view_decides() {
    let bindings = vec![Some(DescriptorDesc {
        ty: DescriptorDescTy::Image(image_desc(true)),
        array_count: 3,
    })];
    let multi = ImageViewInfo { samples: 8, ..view() };
    let unused = ImageViewInfo { usage_sampled: false, ..view() };
    let r = start(bindings).add_images(vec![1, 2, 3], &vec![view(), multi, unused]);
    assert_eq!(r.err(), Some(PersistentDescriptorSetError::UnexpectedMultisampled));
}

#[test]
fn input_attachment_checks() {
    let attach = |multisampled, array_layers| {
        vec![one(DescriptorDescTy::InputAttachment { multisampled, array_layers })]
    };
    let plain = DescriptorImageDescArray::NonArrayed;
    let unused = ImageViewInfo { usage_input_attachment: false, ..view() };
    let r = start(attach(false, plain)).add_images(vec![()], &vec![unused]);
    assert_eq!(r.err(), Some(PersistentDescriptorSetError::MissingUsage));
    let r = start(attach(true, plain)).add_images(vec![()], &vec![view()]);
    assert_eq!(r.err(), Some(PersistentDescriptorSetError::ExpectedMultisampled));
    let multi = ImageViewInfo { samples: 2, ..view() };
    let r = start(attach(false, plain)).add_images(vec![()], &vec![multi]);
    assert_eq!(r.err(), Some(PersistentDescriptorSetError::UnexpectedMultisampled));
    let layered = ImageViewInfo { array_layers: 3, ..view() };
    let r = start(attach(false, plain)).add_images(vec![()], &vec![layered]);
    assert_eq!(
        r.err(),
        Some(PersistentDescriptorSetError::ArrayLayersMismatch { expected: 1, obtained: 3 })
    );
    let two = DescriptorImageDescArray::Arrayed { max_layers: Some(2) };
    let r = start(attach(false, two)).add_images(vec![()], &vec![layered]);
    assert_eq!(
        r.err(),
        Some(PersistentDescriptorSetError::ArrayLayersMismatch { expected: 2, obtained: 3 })
    );
    // An input attachment does not ask for a format or a kind of image.
    let odd = ImageViewInfo {
        format: R32F,
        dimensions: DescriptorImageDescDimensions::Cube,
        usage_sampled: false,
        usage_storage: false,
        ..view()
    };
    assert!(start(attach(false, plain)).add_images(vec![()], &vec![odd]).is_ok());
}

#[test]
fn no_views_are_no_elements() {
    let bindings = vec![one(DescriptorDescTy::Image(image_desc(true)))];
    let r = start(bindings).add_images(Vec::<()>::new(), &vec![]);
    assert_eq!(
        r.err(),
        Some(PersistentDescriptorSetError::MissingArrayElements { expected: 1, obtained: 0 })
    );
    // With no view to look at, the type of the descriptor is not looked at either.
    let array = start(vec![one(DescriptorDescTy::Sampler)])
        .enter_array()
        .unwrap()
        .add_images(Vec::<()>::new(), &vec![])
        .unwrap();
    let set = array.add_sampler(()).unwrap().leave_array().unwrap().build().unwrap();
    assert_eq!(set.descriptor_writes(), &vec![write(0, 0, DescriptorType::Sampler)]);
    assert_eq!(set.num_images(), 0);
}

#[test]
fn more_views_than_elements() {
    let bindings = vec![
        Some(DescriptorDesc { ty: DescriptorDescTy::Image(image_desc(false)), array_count: 2 }),
    ];
    let set = start(bindings)
        .add_images(vec![1, 2, 3], &vec![view(), view(), view()])
        .unwrap()
        .build()
        .unwrap();
    assert_eq!(
        set.descriptor_writes(),
        &vec![
            write(0, 0, DescriptorType::StorageImage),
            write(0, 1, DescriptorType::StorageImage),
            write(0, 2, DescriptorType::StorageImage),
        ]
    );
    assert_eq!(set.num_images(), 3);
}

#[test]
fn descriptions() {
    let e = PersistentDescriptorSetError::WrongDescriptorTy { expected: DescriptorType::Sampler };
    assert_eq!(e.description(), "expected one type of resource but got another");
    assert_eq!(
        PersistentDescriptorSetError::EmptyExpected.description(),
        "expected an empty descriptor but got something"
    );
    assert_eq!(
        PersistentDescriptorSetError::ArrayOutOfBounds.description(),
        "tried to add too many elements to an array"
    );
    let e = PersistentDescriptorSetError::MissingArrayElements { expected: 2, obtained: 1 };
    assert_eq!(e.description(), "didn't fill all the elements of an array before leaving");
    assert_eq!(
        PersistentDescriptorSetError::IncompatibleImageViewSampler.description(),
        "the image view isn't compatible with the sampler"
    );
    assert_eq!(
        PersistentDescriptorSetError::MissingUsage.description(),
        "the buffer or image is missing the correct usage"
    );
    assert_eq!(
        PersistentDescriptorSetError::ExpectedMultisampled.description(),
        "expected a multisampled image, but got a single-sampled image"
    );
    assert_eq!(
        PersistentDescriptorSetError::UnexpectedMultisampled.description(),
        "expected a single-sampled image, but got a multisampled image"
    );
    let e = PersistentDescriptorSetError::ArrayLayersMismatch { expected: 1, obtained: 2 };
    assert_eq!(
        e.description(),
        "the number of array layers of an image doesn't match what was expected"
    );
    let e = PersistentDescriptorSetError::ImageViewFormatMismatch { expected: RGBA8, obtained: R32F };
    assert_eq!(e.description(), "the format of an image view doesn't match what was expected");
    let e = PersistentDescriptorSetError::ImageViewTypeMismatch {
        expected: DescriptorImageDescDimensions::Cube,
        obtained: DescriptorImageDescDimensions::OneDimensional,
    };
    assert_eq!(e.description(), "the type of an image view doesn't match what was expected");
}

#[test]
fn build_error_descriptions_and_conversion() {
    let e = PersistentDescriptorSetBuildError::MissingDescriptors { expected: 2, obtained: 1 };
    assert_eq!(e.description(), "didn't fill all the descriptors before building");
    let e = PersistentDescriptorSetBuildError::from(OomError::OutOfDeviceMemory);
    assert_eq!(e, PersistentDescriptorSetBuildError::OomError(OomError::OutOfDeviceMemory));
    assert_eq!(e.description(), "not enough memory available");
    let e: PersistentDescriptorSetBuildError = OomError::OutOfHostMemory.into();
    assert_eq!(e, PersistentDescriptorSetBuildError::OomError(OomError::OutOfHostMemory));
}

#[test]
fn resources_by_index() {
    let resources = (
        (
            (
                (
                    ((), PersistentDescriptorSetBuf { buffer: "b0", descriptor_num: 4 }),
                    PersistentDescriptorSetImg { image: "i0", descriptor_num: 5 },
                ),
                PersistentDescriptorSetImgArray { images: vec!["i1", "i2"], descriptor_num: 6 },
            ),
            PersistentDescriptorSetSampler { sampler: "s" },
        ),
        PersistentDescriptorSetBufView { view: "b1", descriptor_num: 8 },
    );
    assert_eq!(resources.num_buffers(), 2);
    assert_eq!(resources.buffer(0), Some(4));
    assert_eq!(resources.buffer(1), Some(8));
    assert_eq!(resources.buffer(2), None);
    assert_eq!(resources.num_images(), 3);
    assert_eq!(resources.image(0), Some(5));
    assert_eq!(resources.image(1), Some(6));
    assert_eq!(resources.image(2), Some(6));
    assert_eq!(resources.image(3), None);
    assert_eq!(resources.image(usize::MAX), None);

    let inner = &((resources.0).0).0;
    assert_eq!(inner.num_buffers(), 1);
    assert_eq!(inner.num_images(), 1);
    assert_eq!(inner.image(0), Some(5));
    assert_eq!(inner.image(1), None);
    assert_eq!(inner.buffer(1), None);
}

#[test]
fn empty_image_array_adds_no_image() {
    let resources =
        ((), PersistentDescriptorSetImgArray { images: Vec::<u8>::new(), descriptor_num: 2 });
    assert_eq!(resources.num_images(), 0);
    assert_eq!(resources.image(0), None);
    assert_eq!(resources.num_buffers(), 0);
    assert_eq!(resources.buffer(0), None);
}
