use maybe_nan::F32Bits;
use maybe_nan::F64Bits;
use maybe_nan::MaybeNanValue;
use maybe_nan::MaybeNanExt;
use maybe_nan::N64Bits;
use maybe_nan::NotNone;

#[test]
fn round_trip_f32() {
    for x in [0.0f32, -1.5, 1.0e-38, f32::INFINITY, f32::NEG_INFINITY, -0.0] {
        let v = F32Bits { bits: x.to_bits() };
        assert!(!v.is_nan());
        let w = v.try_as_not_nan().unwrap();
        let back = F32Bits::from_not_nan(w);
        assert_eq!(back.bits, v.bits);
    }
    let nan = F32Bits { bits: f32::NAN.to_bits() };
    assert!(nan.is_nan());
    assert!(nan.try_as_not_nan().is_none());
}

#[test]
fn round_trip_f64() {
    for x in [0.0f64, 2.5, -1.0e300, f64::INFINITY] {
        let v = F64Bits { bits: x.to_bits() };
        let w = v.try_as_not_nan().unwrap();
        assert_eq!(F64Bits::from_not_nan(w).bits, v.bits);
    }
    let nan = F64Bits { bits: f64::NAN.to_bits() };
    assert!(nan.is_nan());
    assert!(nan.try_as_not_nan().is_none());
}

#[test]
fn round_trip_optional() {
    let v: Option<u8> = Some(200);
    assert!(!v.is_nan());
    let w = v.try_as_not_nan().unwrap();
    assert_eq!(<Option<u8>>::from_not_nan(w), Some(200));
    let absent: Option<u8> = None;
    assert!(absent.is_nan());
    assert!(absent.try_as_not_nan().is_none());
}

#[test]
fn canonical_nan_on_absent() {
    let r32 = F32Bits::from_not_nan_opt(None);
    assert_eq!(r32.bits, 0x7fc0_0000);
    assert!(f32::from_bits(r32.bits).is_nan());
    let r64 = F64Bits::from_not_nan_opt(None);
    assert_eq!(r64.bits, 0x7ff8_0000_0000_0000);
    assert!(f64::from_bits(r64.bits).is_nan());
    assert_eq!(<Option<i64>>::from_not_nan_opt(None), None);
    assert_eq!(<Option<i64>>::from_not_nan_ref_opt(None), None);
    assert_eq!(F32Bits::from_not_nan_ref_opt(None).bits, 0x7fc0_0000);
}

#[test]
fn conversion_of_present_values() {
    let w = NotNone::new(9u32);
    assert_eq!(<Option<u32>>::from_not_nan_opt(Some(w)), Some(9));
    assert_eq!(<Option<u32>>::from_not_nan_ref_opt(Some(&w)), Some(9));
    let n = N64Bits::new(F64Bits { bits: 4.5f64.to_bits() });
    assert_eq!(F64Bits::from_not_nan_opt(Some(n)).bits, 4.5f64.to_bits());
    assert_eq!(F64Bits::from_not_nan_ref_opt(Some(&n)).bits, 4.5f64.to_bits());
}

#[test]
fn fold_skipnan_sums_non_nan() {
    let v: Vec<F64Bits> =
        [f64::NAN, 3.0, f64::NAN, 5.0].iter().map(|x| F64Bits { bits: x.to_bits() }).collect();
    let sum = v.fold_skipnan(0.0f64, |acc, w| acc + f64::from_bits(w.bits()));
    assert_eq!(sum, 8.0);
}

#[test]
fn fold_skipnan_of_all_nan_is_init() {
    let v: Vec<F32Bits> = vec![F32Bits { bits: f32::NAN.to_bits() }; 4];
    let sum = v.fold_skipnan(17.0f32, |acc, w| acc + f32::from_bits(w.bits()));
    assert_eq!(sum, 17.0);
    let empty: Vec<Option<i32>> = Vec::new();
    let count = empty.fold_skipnan(0usize, |acc, _| acc + 1);
    assert_eq!(count, 0);
}

#[test]
fn fold_skipnan_of_optionals() {
    let v: Vec<Option<i32>> = vec![Some(4), None, Some(-1), None, Some(10)];
    let sum = v.fold_skipnan(0i64, |acc, w| acc + w.unwrap() as i64);
    assert_eq!(sum, 13);
    let count = v.fold_skipnan(0usize, |acc, _| acc + 1);
    assert_eq!(count, 3);
}
