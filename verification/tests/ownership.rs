use tea_dyn::sole;
use tea_dyn::Backend;
use tea_dyn::Data;
use tea_dyn::DataType;
use tea_dyn::DynArray;
use tea_dyn::DynVec;
use tea_dyn::Error;
use tea_dyn::GetDtype;
use tea_dyn::Scalar;
use std::sync::Arc;

fn ints(values: &[i32]) -> DynVec<'static> {
    DynVec::from_vec(values.to_vec())
}

fn matrix() -> DynArray<'static> {
    let items = (1..=6).map(Scalar::I64).collect();
    DynArray::from_shape_vec(DataType::I64, vec![2, 3], items).unwrap()
}

#[test]
fn sole_maps_a_shared_handle_to_the_error() {
    let alone = Arc::new(5u8);
    assert_eq!(sole(Arc::try_unwrap(alone)), Ok(5));
    let shared = Arc::new(5u8);
    let other = Arc::clone(&shared);
    assert_eq!(sole(Arc::try_unwrap(shared)), Err(Error::SharedOwnership));
    assert_eq!(*other, 5);
}

#[test]
fn shared_iterator_cannot_be_consumed() {
    let data = Data::from_titer(ints(&[1, 2]).into_titer().unwrap());
    let other = data.clone();
    assert_eq!(data.into_titer().err(), Some(Error::SharedOwnership));
    // the last handle may
    assert_eq!(other.into_titer().unwrap().collect_vec().unwrap().i32().unwrap(), vec![1, 2]);
}

#[test]
fn shared_iterator_is_handed_back_untouched() {
    let data = Data::from_titer(ints(&[1, 2]).into_titer().unwrap());
    let other = data.clone();
    let back = match data.try_into_iter() {
        Err(d) => d,
        Ok(_) => panic!("a shared iterator was consumed"),
    };
    assert!(back.is_trust_iter());
    assert_eq!(back.into_vec().err(), Some(Error::SharedOwnership));
    assert_eq!(other.into_vec().unwrap().i32().unwrap(), vec![1, 2]);
}

#[test]
fn iterator_cannot_be_walked_through_a_reference() {
    let data = Data::from_titer(ints(&[1]).into_titer().unwrap());
    assert_eq!(data.try_titer().err(), Some(Error::UnsupportedOperation));
    let data = Data::from_vec(ints(&[1, 2]));
    assert_eq!(data.try_titer().unwrap().collect_vec().unwrap().i32().unwrap(), vec![1, 2]);
    let data = Data::from_scalar(Scalar::I32(3));
    assert_eq!(data.try_titer().unwrap().collect_vec().unwrap().i32().unwrap(), vec![3]);
    let data = Data::from_array(matrix());
    assert_eq!(data.try_titer().err(), Some(Error::ShapeMismatch));
}

#[test]
fn shared_handle_gives_no_iterator() {
    let data = Data::from_vec(ints(&[1, 2, 3]));
    let other = data.clone();
    assert_eq!(data.into_titer().err(), Some(Error::SharedOwnership));
    // what the other handle holds is untouched, and it is the only one now
    let it = other.into_titer().unwrap();
    assert_eq!(it.dtype(), DataType::I32);
    assert_eq!(it.len(), 3);
    assert_eq!(it.collect_vec().unwrap().i32().unwrap(), vec![1, 2, 3]);
    let data = Data::from_scalar(Scalar::I32(7));
    let other = data.clone();
    assert_eq!(data.into_titer().err(), Some(Error::SharedOwnership));
    assert_eq!(other.into_titer().unwrap().collect_vec().unwrap().i32().unwrap(), vec![7]);
    let flat = DynArray::from_vec(ints(&[4, 5])).unwrap();
    let data = Data::from_array(flat);
    let other = data.clone();
    assert_eq!(data.into_titer().err(), Some(Error::SharedOwnership));
    assert_eq!(other.into_titer().unwrap().collect_vec().unwrap().i32().unwrap(), vec![4, 5]);
    let data = Data::from_array(matrix());
    let other = data.clone();
    assert_eq!(data.into_titer().err(), Some(Error::ShapeMismatch));
    assert_eq!(other.into_titer().err(), Some(Error::ShapeMismatch));
}

#[test]
fn consuming_is_for_the_only_handle() {
    let first = Data::from_vec(ints(&[1, 2, 3]));
    let second = first.clone();
    let third = first.clone();
    assert_eq!(first.into_vec().err(), Some(Error::SharedOwnership));
    assert_eq!(second.into_titer().err(), Some(Error::SharedOwnership));
    assert_eq!(third.into_vec().unwrap().i32().unwrap(), vec![1, 2, 3]);
    let first = Data::from_titer(ints(&[1, 2]).into_titer().unwrap());
    let second = first.clone();
    let third = first.clone();
    assert_eq!(first.into_titer().err(), Some(Error::SharedOwnership));
    assert_eq!(second.into_vec().err(), Some(Error::SharedOwnership));
    assert_eq!(third.into_titer().unwrap().collect_vec().unwrap().i32().unwrap(), vec![1, 2]);
}

#[test]
fn shared_handle_is_handed_back_untouched() {
    let data = Data::from_vec(ints(&[1, 2, 3]));
    let other = data.clone();
    let back = match data.try_into_iter() {
        Err(d) => d,
        Ok(_) => panic!("a shared sequence was consumed"),
    };
    assert!(back.is_vec());
    assert_eq!(back.len(), 3);
    drop(other);
    let it = match back.try_into_iter() {
        Ok(it) => it,
        Err(_) => panic!("the only handle was refused"),
    };
    assert_eq!(it.collect_vec().unwrap().i32().unwrap(), vec![1, 2, 3]);
}

#[test]
fn shared_array_is_taken_as_a_copy() {
    let data = Data::from_array(matrix());
    let other = data.clone();
    let a = data.into_array().unwrap();
    assert_eq!(a.dims(), vec![2, 3]);
    assert_eq!(other.into_vec().err(), Some(Error::ShapeMismatch));
    let data = Data::from_array(matrix());
    let other = data.clone();
    assert_eq!(data.into_vec().err(), Some(Error::SharedOwnership));
    drop(other);
}

#[test]
fn into_array_goes_through_the_flat_sequence() {
    let a = Data::from_vec(ints(&[1, 2])).into_array().unwrap();
    assert_eq!(a.dims(), vec![2]);
    let a = Data::from_titer(ints(&[1, 2, 3]).into_titer().unwrap()).into_array().unwrap();
    assert_eq!(a.dims(), vec![3]);
    let r = Data::from_scalar(Scalar::I32(1)).into_array();
    assert_eq!(r.err(), Some(Error::UnsupportedOperation));
    assert_eq!(
        Data::from_scalar(Scalar::I32(1)).into_vec().err(),
        Some(Error::UnsupportedOperation)
    );
}

#[test]
fn scalar_comes_out_of_single_values() {
    assert_eq!(Data::from_vec(ints(&[7])).into_scalar().unwrap().i32().unwrap(), 7);
    assert_eq!(Data::from_vec(ints(&[7, 8])).into_scalar().err(), Some(Error::ShapeMismatch));
    let one = DynArray::from_shape_vec(DataType::I32, vec![1, 1], vec![Scalar::I32(4)]).unwrap();
    assert_eq!(Data::from_array(one).into_scalar().unwrap().i32().unwrap(), 4);
    assert_eq!(Data::from_array(matrix()).into_scalar().err(), Some(Error::ShapeMismatch));
    let it = Data::from_titer(ints(&[9]).into_titer().unwrap());
    assert_eq!(it.into_scalar().unwrap().i32().unwrap(), 9);
    let it = Data::from_titer(ints(&[9, 10]).into_titer().unwrap());
    match it.try_into_scalar() {
        Err(d) => {
            assert!(d.is_vec());
            assert_eq!(d.into_vec().unwrap().i32().unwrap(), vec![9, 10]);
        }
        Ok(_) => panic!("two values gave a scalar"),
    }
}

#[test]
fn shared_scalar_is_copied_unless_it_is_an_index_vector() {
    let data = Data::from_scalar(Scalar::String("s".to_owned()));
    let other = data.clone();
    assert_eq!(data.into_scalar().unwrap().string().unwrap(), "s");
    drop(other);
    let data = Data::from_scalar(Scalar::VecUsize(vec![1, 2]));
    let other = data.clone();
    assert_eq!(data.into_scalar().err(), Some(Error::SharedOwnership));
    assert_eq!(other.into_scalar().unwrap().vec_usize().unwrap(), vec![1, 2]);
}

#[test]
fn into_result_forces_only_iterators() {
    let it = Data::from_titer(ints(&[1, 2]).into_titer().unwrap());
    let d = it.into_result(Some(Backend::Vec)).unwrap();
    assert!(d.is_vec());
    let it = Data::from_titer(ints(&[1, 2]).into_titer().unwrap());
    let d = it.into_result(None).unwrap();
    assert!(d.is_vec());
    assert_eq!(d.into_vec().unwrap().i32().unwrap(), vec![1, 2]);
    let it = Data::from_titer(ints(&[1, 2]).into_titer().unwrap());
    let d = it.into_result(Some(Backend::Numpy)).unwrap();
    assert!(d.is_array());
    let it = Data::from_titer(ints(&[1, 2]).into_titer().unwrap());
    let d = it.into_result(Some(Backend::Pandas)).unwrap();
    assert!(d.is_array());
    let d = Data::from_vec(ints(&[1])).into_result(Some(Backend::Numpy)).unwrap();
    assert!(d.is_vec());
    let it = Data::from_titer(ints(&[1, 2]).into_titer().unwrap());
    let other = it.clone();
    assert_eq!(it.into_result(None).err(), Some(Error::SharedOwnership));
    drop(other);
}

#[test]
fn into_owned_cuts_the_borrow() {
    let items = vec![Scalar::I32(1), Scalar::I32(2)];
    let owned = {
        let borrowed = DynVec::borrowed(DataType::I32, &items).unwrap();
        Data::from_vec(borrowed).into_owned(None).ok().unwrap()
    };
    drop(items);
    assert_eq!(owned.into_vec().unwrap().i32().unwrap(), vec![1, 2]);
    let it = Data::from_titer(ints(&[3]).into_titer().unwrap());
    let d = it.into_owned(None).ok().unwrap();
    assert!(d.is_vec());
    let it = Data::from_titer(ints(&[3]).into_titer().unwrap());
    let d = it.into_owned(Some(Backend::Numpy)).ok().unwrap();
    assert!(d.is_array());
    let shared = Data::from_vec(ints(&[5]));
    let other = shared.clone();
    let d = shared.into_owned(None).ok().unwrap();
    assert_eq!(d.dtype(), DataType::I32);
    assert_eq!(d.into_vec().unwrap().i32().unwrap(), vec![5]);
    drop(other);
    let a = Data::from_array(matrix()).into_owned(None).ok().unwrap();
    assert_eq!(a.into_array().unwrap().dims(), vec![2, 3]);
    let s = Data::from_scalar(Scalar::I32(1)).into_owned(None).ok().unwrap();
    assert!(s.is_scalar());
}

#[test]
fn alias_leaves_the_data_alone() {
    let d = Data::from_vec(ints(&[1])).alias(Some("name"));
    assert_eq!(d.into_vec().unwrap().i32().unwrap(), vec![1]);
}
