use maybe_nan::F32Bits;
use maybe_nan::F64Bits;
use maybe_nan::MaybeNan;
use maybe_nan::MaybeNanValue;
use maybe_nan::NotNone;

fn f32_vec(values: &[f32]) -> Vec<F32Bits> {
    values.iter().map(|v| F32Bits { bits: v.to_bits() }).collect()
}

#[test]
fn removes_nans_from_floats() {
    let mut v = f32_vec(&[f32::NAN, 1.0, f32::NAN, 2.0, f32::NAN]);
    let out = F32Bits::remove_nan_mut(&mut v);
    assert_eq!(out.len(), 2);
    let mut kept: Vec<f32> = out.iter().map(|w| f32::from_bits(w.bits())).collect();
    assert!(kept.iter().all(|x| !x.is_nan()));
    kept.sort_by(|a, b| a.partial_cmp(b).unwrap());
    assert_eq!(kept, vec![1.0, 2.0]);
    assert_eq!(v.len(), 5);
}

#[test]
fn removes_nothing_from_empty() {
    let mut v: Vec<F32Bits> = f32_vec(&[]);
    let out = F32Bits::remove_nan_mut(&mut v);
    assert_eq!(out.len(), 0);
    assert_eq!(v.len(), 0);
}

#[test]
fn keeps_all_present_values_in_order() {
    let mut v: Vec<Option<i32>> = vec![Some(1), Some(2), Some(3)];
    let out = <Option<i32>>::remove_nan_mut(&mut v);
    let kept: Vec<i32> = out.iter().map(|w| w.unwrap()).collect();
    assert_eq!(kept, vec![1, 2, 3]);
    assert_eq!(v, vec![Some(1), Some(2), Some(3)]);
}

#[test]
fn removes_all_absent_values() {
    let mut v: Vec<Option<i32>> = vec![None, None, None];
    let out = <Option<i32>>::remove_nan_mut(&mut v);
    assert_eq!(out.len(), 0);
    assert_eq!(v.len(), 3);
    assert!(v.iter().all(|x| x.is_none()));
}

#[test]
fn remove_nan_mut_idempotent() {
    for pattern in 0u32..256 {
        let mut values: Vec<Option<i32>> = (0..8)
            .map(|k| if pattern & (1 << k) != 0 { None } else { Some(k as i32) })
            .collect();
        let first = <Option<i32>>::remove_nan_mut(&mut values);
        let mut copy: Vec<Option<i32>> =
            first.iter().map(|w| <Option<i32>>::from_not_nan(*w)).collect();
        let second = <Option<i32>>::remove_nan_mut(&mut copy);
        let first_inner: Vec<Option<i32>> = first.iter().map(|w| w.into_inner()).collect();
        let second_inner: Vec<Option<i32>> = second.iter().map(|w| w.into_inner()).collect();
        assert_eq!(first_inner, second_inner);
    }
}

#[test]
fn remove_nan_mut_only_nan_remaining() {
    for pattern in 0u32..256 {
        let mut values: Vec<Option<i32>> = (0..8)
            .map(|k| if pattern & (1 << k) != 0 { None } else { Some(k as i32) })
            .collect();
        let out = <Option<i32>>::remove_nan_mut(&mut values);
        assert!(out.iter().all(|w| w.into_inner().is_some()));
    }
}

#[test]
fn remove_nan_mut_keep_all_non_nan() {
    for pattern in 0u32..256 {
        let original: Vec<Option<i32>> = (0..8)
            .map(|k| if pattern & (1 << k) != 0 { None } else { Some(k as i32) })
            .collect();
        let expected = original.iter().filter(|x| x.is_some()).count();
        let mut values = original.clone();
        let out = <Option<i32>>::remove_nan_mut(&mut values);
        assert_eq!(out.len(), expected);
        let mut kept: Vec<i32> = out.iter().map(|w| w.unwrap()).collect();
        let mut wanted: Vec<i32> =
            original.iter().filter_map(|x| x.as_ref().copied()).collect();
        kept.sort();
        wanted.sort();
        assert_eq!(kept, wanted);
    }
}

#[test]
fn prefix_count_matches_free_partition() {
    let mut v: Vec<Option<u8>> = vec![None, Some(7), None, Some(9), Some(4), None];
    let n = maybe_nan::maybe_nan::remove_nan_mut(&mut v);
    assert_eq!(n, 3);
    assert_eq!(v.len(), 6);
    assert!(v[..n].iter().all(|x| x.is_some()));
    assert!(v[n..].iter().all(|x| x.is_none()));
}

#[test]
fn partition_of_doubles() {
    let mut v: Vec<F64Bits> =
        [f64::NAN, -0.5, 3.25].iter().map(|x| F64Bits { bits: x.to_bits() }).collect();
    let out = F64Bits::remove_nan_mut(&mut v);
    let mut kept: Vec<f64> = out.iter().map(|w| f64::from_bits(w.bits())).collect();
    kept.sort_by(|a, b| a.partial_cmp(b).unwrap());
    assert_eq!(kept, vec![-0.5, 3.25]);
}

#[test]
fn not_none_wraps_and_unwraps() {
    let w = NotNone::new(42u64);
    assert_eq!(w.into_inner(), Some(42));
    assert_eq!(w.unwrap(), 42);
    assert!(NotNone::try_new(None::<u64>).is_none());
    let t = NotNone::try_new(Some(5i16)).unwrap();
    assert_eq!(t.unwrap(), 5);
}
