use strided_slice::{AttrType, SliceBase, SliceError};

const BASE: usize = 4096;

fn u32_bytes(vals: &[u32]) -> Vec<u8> {
    let mut out: Vec<u8> = Vec::new();
    for v in vals {
        out.extend_from_slice(&v.to_le_bytes());
    }
    out
}

#[test]
fn len_formula() {
    // An empty buffer at offset 0 is the one out-of-range offset that is
    // allowed, and yields an empty view.
    let attr = AttrType { size: 4, align: 4 };
    let base = SliceBase::new(BASE, 0, 0, 4, attr, false).unwrap();
    assert_eq!(base.len(), 0);
    assert!(base.is_empty());

    // len() == ceil((L - O) / T).
    let attr12 = AttrType { size: 12, align: 4 };
    let base = SliceBase::new(BASE, 60, 0, 20, attr12, false).unwrap();
    assert_eq!(base.len(), 3);
    assert!(!base.is_empty());
    assert_eq!(base.stride(), 20);

    let attr8 = AttrType { size: 8, align: 4 };
    let base = SliceBase::new(BASE, 60, 12, 20, attr8, false).unwrap();
    assert_eq!(base.len(), 3); // ceil(48 / 20)

    let base = SliceBase::new(BASE, 60, 12, 40, attr8, false).unwrap();
    assert_eq!(base.len(), 2); // ceil(48 / 40)

    // A trailing partial stride still yields one element when the
    // attribute fits in it.
    let attr2 = AttrType { size: 2, align: 2 };
    let base = SliceBase::new(BASE, 10, 0, 4, attr2, false).unwrap();
    assert_eq!(base.len(), 3); // ceil(10 / 4)
}

#[test]
fn new_typed_multiplies_stride() {
    let attr = AttrType { size: 8, align: 4 };
    let base = SliceBase::new_typed(BASE, 60, 12, 20, 2, attr).unwrap();
    assert_eq!(base.stride(), 40);
    assert_eq!(base.len(), 2);
}

#[test]
fn attribute_larger_than_stride() {
    let attr = AttrType { size: 4, align: 4 };
    let r = SliceBase::new(BASE, 16, 0, 2, attr, false);
    assert_eq!(r, Err(SliceError::AttributeLargerThanStride { attr: 4, stride: 2 }));

    // A zero-byte stride can hold no attribute either.
    let r = SliceBase::new(BASE, 16, 0, 0, attr, false);
    assert_eq!(r, Err(SliceError::AttributeLargerThanStride { attr: 4, stride: 0 }));
}

#[test]
fn offset_out_of_bounds() {
    let attr = AttrType { size: 4, align: 4 };

    // Offset exactly at the end is out of bounds ...
    let r = SliceBase::new(BASE, 16, 16, 4, attr, false);
    assert_eq!(r, Err(SliceError::OffsetOutOfBounds { size: 16, offset: 16 }));

    // ... and so is one beyond it.
    let r = SliceBase::new(BASE, 16, 20, 4, attr, false);
    assert_eq!(r, Err(SliceError::OffsetOutOfBounds { size: 16, offset: 20 }));

    // A non-zero offset on an empty buffer is out of bounds.
    let r = SliceBase::new(BASE, 0, 4, 4, attr, false);
    assert_eq!(r, Err(SliceError::OffsetOutOfBounds { size: 0, offset: 4 }));
}

#[test]
fn alignment_fault() {
    let attr = AttrType { size: 4, align: 4 };

    // BASE is 4-byte aligned, so an offset of 1 lands off-grid.
    let r = SliceBase::new(BASE, 16, 1, 4, attr, false);
    assert_eq!(r, Err(SliceError::AlignmentFault { offset: 1, align: 4 }));

    // A misaligned buffer start faults even at offset 0 ...
    let r = SliceBase::new(BASE + 1, 16, 0, 4, attr, false);
    assert_eq!(r, Err(SliceError::AlignmentFault { offset: 0, align: 4 }));

    // ... and an offset that brings the start back on-grid passes.
    let r = SliceBase::new(BASE + 1, 15, 3, 4, attr, false);
    assert!(r.is_ok());
    assert_eq!(r.unwrap().len(), 3);
}

#[test]
fn stride_mismatch_on_raw_path_only() {
    let attr = AttrType { size: 2, align: 2 };

    // 10 bytes is not a whole number of 4-byte strides: the raw path
    // rejects it ...
    let r = SliceBase::new(BASE, 10, 0, 4, attr, true);
    assert_eq!(r, Err(SliceError::StrideMismatch { size: 10, stride: 4 }));

    // ... while the typed path accepts it with a final partial stride.
    let base = SliceBase::new(BASE, 10, 0, 4, attr, false).unwrap();
    assert_eq!(base.len(), 3);
}

#[test]
fn trailing_attribute_must_fit() {
    // 10 bytes, stride 4: the final element has only 2 bytes, so a 4-byte
    // attribute cannot fit there and construction is rejected.
    let attr = AttrType { size: 4, align: 2 };
    let r = SliceBase::new(BASE, 10, 0, 4, attr, false);
    assert_eq!(r, Err(SliceError::AttributeLargerThanStride { attr: 4, stride: 2 }));
}

#[test]
fn error_messages() {
    let e = SliceError::OffsetOutOfBounds { size: 16, offset: 20 };
    assert_eq!(e.message(), "byte offset is out of bounds of the slice");
    let e = SliceError::AttributeLargerThanStride { attr: 4, stride: 2 };
    assert_eq!(e.message(), "attribute is larger than the stride it must fit in");
    let e = SliceError::AlignmentFault { offset: 1, align: 4 };
    assert_eq!(e.message(), "attribute isn't aligned to the byte offset");
    let e = SliceError::StrideMismatch { size: 10, stride: 4 };
    assert_eq!(e.message(), "slice size isn't a multiple of the stride");
}

#[test]
fn validator_has_no_side_effects() {
    // The validator never reads or writes the buffer: it decides from the
    // numbers alone, so the same numbers give the same answer for any
    // buffer contents.
    let a = u32_bytes(&[1, 2, 3, 4]);
    let b = u32_bytes(&[9, 9, 9, 9]);
    let attr = AttrType { size: 4, align: 4 };
    let ra = SliceBase::new(BASE, a.len(), 4, 4, attr, false);
    let rb = SliceBase::new(BASE, b.len(), 4, 4, attr, false);
    assert_eq!(ra, rb);
    assert_eq!(ra.unwrap().len(), 3);
}
