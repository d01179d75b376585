use strided_slice::{
    get_byte_offset, AttrType, Slice, SliceBuilder, SliceError, SliceIterator, Slicer,
};

const BASE: usize = 4096;

fn f32_bytes(vals: &[f32]) -> Vec<u8> {
    let mut out: Vec<u8> = Vec::new();
    for v in vals {
        out.extend_from_slice(&v.to_le_bytes());
    }
    out
}

fn f32s(b: &[u8]) -> Vec<f32> {
    let mut out: Vec<f32> = Vec::new();
    let mut i = 0usize;
    while i + 4 <= b.len() {
        out.push(f32::from_le_bytes([b[i], b[i + 1], b[i + 2], b[i + 3]]));
        i += 4;
    }
    out
}

fn collect_f32s(mut it: SliceIterator) -> Vec<Vec<f32>> {
    let mut out: Vec<Vec<f32>> = Vec::new();
    while let Some(b) = it.next() {
        out.push(f32s(b));
    }
    out
}

// Three records of {position: [f32; 3], uv: [f32; 2]}, 20 bytes each.
fn data() -> Vec<u8> {
    f32_bytes(&[
        0.0, 1.0, 2.0, 3.0, 4.0, 5.0, 6.0, 7.0, 8.0, 9.0, 10.0, 11.0, 12.0, 13.0, 14.0,
    ])
}

#[test]
fn slice_first_attribute() {
    let vertices = data();
    let attr = AttrType { size: 12, align: 4 };

    // The position field of record 2 lives at BASE + 2 * 20.
    let slice = SliceBuilder::new(BASE + 40, 1, attr).build(&vertices, BASE, 20);
    assert_eq!(slice.len(), 1);
    let slice = SliceBuilder::new(BASE + 20, 1, attr).build(&vertices, BASE, 20);
    assert_eq!(slice.len(), 2);

    let slice = SliceBuilder::new(BASE, 1, attr).build(&vertices, BASE, 20);
    assert_eq!(slice.len(), 3);
    assert_eq!(
        collect_f32s(slice.iter()),
        vec![vec![0.0, 1.0, 2.0], vec![5.0, 6.0, 7.0], vec![10.0, 11.0, 12.0]],
    );
}

#[test]
fn slice_attribute() {
    let vertices = data();
    let attr = AttrType { size: 8, align: 4 };

    // The uv field of record k lives at BASE + k * 20 + 12.
    let slice = SliceBuilder::new(BASE + 40 + 12, 1, attr).build(&vertices, BASE, 20);
    assert_eq!(slice.len(), 1);
    let slice = SliceBuilder::new(BASE + 20 + 12, 1, attr).build(&vertices, BASE, 20);
    assert_eq!(slice.len(), 2);
    let slice = SliceBuilder::new(BASE + 12, 1, attr).build(&vertices, BASE, 20);
    assert_eq!(slice.len(), 3);
    assert_eq!(
        collect_f32s(slice.iter()),
        vec![vec![3.0, 4.0], vec![8.0, 9.0], vec![13.0, 14.0]],
    );
}

#[test]
fn slice() {
    let vertices = data();
    let attr = AttrType { size: 4, align: 4 };

    // A single-float view of the position field of record 1.
    let byte_offset = get_byte_offset(BASE, vertices.len(), BASE + 20);
    let slice = Slice::new(&vertices, BASE, byte_offset, 20, attr);
    assert_eq!(slice.len(), 2);
    assert_eq!(collect_f32s(slice.iter()), vec![vec![5.0], vec![10.0]]);

    // A single-float view of the uv field of record 0.
    let byte_offset = get_byte_offset(BASE, vertices.len(), BASE + 12);
    let slice = Slice::new(&vertices, BASE, byte_offset, 20, attr);
    assert_eq!(slice.len(), 3);
    assert_eq!(collect_f32s(slice.iter()), vec![vec![3.0], vec![8.0], vec![13.0]]);
}

#[test]
fn slicer_builds_views() {
    let vertices = data();
    let attr = AttrType { size: 12, align: 4 };

    // With no recorded field the view starts at the buffer's first byte.
    let slice = Slicer::new().build(&vertices, BASE, 20, attr);
    assert_eq!(slice.len(), 3);

    // A recorded field address becomes the view's offset.
    let slice = Slicer::new()
        .offset_of(BASE + 20)
        .try_build(&vertices, BASE, 20, attr)
        .unwrap();
    assert_eq!(slice.len(), 2);
    assert_eq!(f32s(slice.index(0)), vec![5.0, 6.0, 7.0]);

    // An element-count stride multiplies the byte stride.
    let wide = Slicer::new()
        .stride(2)
        .try_build(&vertices, BASE, 20, attr)
        .unwrap();
    assert_eq!(wide.len(), 2);
    assert_eq!(f32s(wide.index(1)), vec![10.0, 11.0, 12.0]);
}

#[test]
fn slicer_rejects_foreign_address() {
    let vertices = data();
    let attr = AttrType { size: 12, align: 4 };

    // An address below the buffer does not belong to it.
    let r = Slicer::new().offset_of(BASE - 4).try_build(&vertices, BASE, 20, attr);
    assert_eq!(r.err(), Some(SliceError::OffsetOutOfBounds { size: 60, offset: 0 }));

    // Neither does the one-past-the-end address.
    let r = Slicer::new().offset_of(BASE + 60).try_build(&vertices, BASE, 20, attr);
    assert_eq!(r.err(), Some(SliceError::OffsetOutOfBounds { size: 60, offset: 60 }));
}

#[test]
fn slicer_reports_layout_errors() {
    let vertices = data();

    // A misaligned recorded field surfaces as an alignment fault.
    let r = Slicer::new().offset_of(BASE + 1).try_build(
        &vertices,
        BASE,
        20,
        AttrType { size: 4, align: 4 },
    );
    assert_eq!(r.err(), Some(SliceError::AlignmentFault { offset: 1, align: 4 }));

    // An attribute wider than one record cannot fit the stride.
    let r = Slicer::new().try_build(&vertices, BASE, 20, AttrType { size: 24, align: 4 });
    assert_eq!(
        r.err(),
        Some(SliceError::AttributeLargerThanStride { attr: 24, stride: 20 }),
    );
}

#[test]
fn slicer_builds_mutable_views() {
    let vertices = data();
    let attr = AttrType { size: 8, align: 4 };

    let mut slice = Slicer::new()
        .offset_of(BASE + 12)
        .try_build_mut(vertices, BASE, 20, attr)
        .unwrap_or_else(|_| panic!("layout should be valid"));
    assert_eq!(slice.len(), 3);
    slice.set(0, &f32_bytes(&[40.0, 41.0]));
    assert_eq!(f32s(slice.index(0)), vec![40.0, 41.0]);
    assert_eq!(f32s(slice.index(1)), vec![8.0, 9.0]);

    // The error path hands the buffer back.
    let vertices = slice.into_inner();
    let r = Slicer::new().offset_of(BASE - 8).try_build_mut(vertices, BASE, 20, attr);
    let (e, returned) = r.err().unwrap();
    assert_eq!(e, SliceError::OffsetOutOfBounds { size: 60, offset: 0 });
    assert_eq!(returned.len(), 60);
}

#[test]
fn builder_builds_mutable_views() {
    let vertices = data();
    let attr = AttrType { size: 12, align: 4 };

    let mut slice = SliceBuilder::new(BASE + 20, 1, attr).build_mut(vertices, BASE, 20);
    assert_eq!(slice.len(), 2);
    slice.set(1, &f32_bytes(&[50.0, 51.0, 52.0]));
    assert_eq!(f32s(slice.index(0)), vec![5.0, 6.0, 7.0]);
    assert_eq!(f32s(slice.index(1)), vec![50.0, 51.0, 52.0]);
}

#[test]
fn get_byte_offset_measures_from_buffer_start() {
    assert_eq!(get_byte_offset(BASE, 60, BASE), 0);
    assert_eq!(get_byte_offset(BASE, 60, BASE + 32), 32);
    assert_eq!(get_byte_offset(BASE, 60, BASE + 59), 59);
}
