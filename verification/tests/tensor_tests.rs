use llama_engine::shape::{copy_shape, element_count};
use llama_engine::tensor::{repeated, Tensor, TensorSlice};

#[test]
fn element_count_multiplies_dimensions() {
    assert_eq!(element_count(&vec![2, 3, 4]), Some(24));
    assert_eq!(element_count(&vec![7]), Some(7));
    assert_eq!(element_count(&vec![]), Some(1));
}

#[test]
fn element_count_reports_what_does_not_fit() {
    assert_eq!(element_count(&vec![usize::MAX, 2]), None);
    assert_eq!(element_count(&vec![usize::MAX / 2 + 1, 2]), None);
    assert_eq!(element_count(&vec![usize::MAX, 1, 1]), Some(usize::MAX));
}

#[test]
fn element_count_of_a_zero_dimension_is_zero() {
    assert_eq!(element_count(&vec![usize::MAX, 2, 0]), Some(0));
    assert_eq!(element_count(&vec![0, usize::MAX, usize::MAX]), Some(0));
    assert_eq!(element_count(&vec![0]), Some(0));
}

#[test]
fn copy_shape_copies() {
    assert_eq!(copy_shape(&vec![4, 5, 6]), vec![4, 5, 6]);
    assert_eq!(copy_shape(&vec![]), Vec::<usize>::new());
}

#[test]
fn repeated_fills_every_position() {
    assert_eq!(repeated(2.5f32, 3), vec![2.5f32, 2.5, 2.5]);
    assert_eq!(repeated(9u32, 0), Vec::<u32>::new());
}

#[test]
fn tensor_keeps_data_and_shape() {
    let t = Tensor::<f32>::new(vec![1.0, 2.0, 3.0, 4.0, 5.0, 6.0], &vec![2, 3]);
    assert_eq!(t.shape(), &vec![2, 3]);
    assert_eq!(t.size(), 6);
    assert_eq!(t.data(), &[1.0, 2.0, 3.0, 4.0, 5.0, 6.0]);
    assert_eq!(t.get(4), 5.0);
}

#[test]
fn tensor_default_is_uniform() {
    let t = Tensor::<f32>::default(&vec![2, 2, 2]);
    assert_eq!(t.size(), 8);
    assert_eq!(t.shape(), &vec![2, 2, 2]);
    assert!(t.data().iter().all(|x| *x == 0.0));
    let u = Tensor::<u32>::default(&vec![3]);
    assert_eq!(u.data(), &[0, 0, 0]);
}

#[test]
fn tensor_filled_holds_the_value() {
    let t = Tensor::<u32>::filled(&vec![2, 3], 7);
    assert_eq!(t.data(), &[7, 7, 7, 7, 7, 7]);
    let empty = Tensor::<u32>::filled(&vec![4, 0], 7);
    assert_eq!(empty.size(), 0);
    assert_eq!(empty.shape(), &vec![4, 0]);
}

#[test]
fn tensor_set_changes_one_element() {
    let mut t = Tensor::<u32>::new(vec![1, 2, 3, 4], &vec![2, 2]);
    t.set(2, 30);
    assert_eq!(t.data(), &[1, 2, 30, 4]);
    assert_eq!(t.shape(), &vec![2, 2]);
}

#[test]
fn tensor_reshape_moves_nothing() {
    let mut t = Tensor::<u32>::new(vec![1, 2, 3, 4, 5, 6], &vec![2, 3]);
    t.reshape(&vec![3, 2]);
    assert_eq!(t.shape(), &vec![3, 2]);
    assert_eq!(t.data(), &[1, 2, 3, 4, 5, 6]);
    t.reshape(&vec![6]);
    assert_eq!(t.shape(), &vec![6]);
    assert_eq!(t.data(), &[1, 2, 3, 4, 5, 6]);
}

#[test]
fn tensor_slice_is_a_window() {
    let t = Tensor::<u32>::new(vec![10, 11, 12, 13, 14, 15, 16, 17], &vec![4, 2]);
    let s = t.slice(2, &vec![2, 2]);
    assert_eq!(s.data(), &[12, 13, 14, 15]);
    assert_eq!(s.shape(), &vec![2, 2]);
    assert_eq!(s.size(), 4);
    assert_eq!(s.get(3), 15);
    let last = t.slice(6, &vec![1, 2]);
    assert_eq!(last.data(), &[16, 17]);
    let whole = t.slice(0, &vec![8]);
    assert_eq!(whole.data(), t.data());
    let none = t.slice(8, &vec![0]);
    assert_eq!(none.size(), 0);
}

#[test]
fn tensor_slice_copies_into_a_tensor() {
    let t = Tensor::<u32>::new(vec![10, 11, 12, 13, 14, 15], &vec![3, 2]);
    let copy = t.slice(2, &vec![2, 2]).to_tensor();
    assert_eq!(copy.data(), &[12, 13, 14, 15]);
    assert_eq!(copy.shape(), &vec![2, 2]);
}

#[test]
fn tensor_slice_over_borrowed_data() {
    let data: Vec<f32> = vec![1.0, 2.0, 3.0];
    let s = TensorSlice::new(&data, &vec![3]);
    assert_eq!(s.data(), &[1.0, 2.0, 3.0]);
    assert_eq!(s.shape(), &vec![3]);
}

#[test]
fn rows_of_a_tensor() {
    let t = Tensor::<u32>::new((0..24).collect(), &vec![2, 3, 4]);
    assert_eq!(t.row_width(), 4);
    assert_eq!(t.rows(), 6);
    assert_eq!(t.row(0), &[0, 1, 2, 3]);
    assert_eq!(t.row(5), &[20, 21, 22, 23]);
    let flat = Tensor::<u32>::new(vec![7, 8, 9], &vec![3]);
    assert_eq!(flat.rows(), 1);
    assert_eq!(flat.row(0), &[7, 8, 9]);
    let scalar = Tensor::<u32>::new(vec![7], &vec![]);
    assert_eq!(scalar.row_width(), 1);
    assert_eq!(scalar.rows(), 1);
    assert_eq!(scalar.row(0), &[7]);
    let empty = Tensor::<u32>::new(vec![], &vec![5, 0]);
    assert_eq!(empty.row_width(), 0);
    assert_eq!(empty.rows(), 0);
}

#[test]
fn rows_of_a_window() {
    let t = Tensor::<u32>::new((0..12).collect(), &vec![4, 3]);
    let s = t.slice(3, &vec![2, 3]);
    assert_eq!(s.row_width(), 3);
    assert_eq!(s.rows(), 2);
    assert_eq!(s.row(0), &[3, 4, 5]);
    assert_eq!(s.row(1), &[6, 7, 8]);
}

#[test]
fn row_of_a_buffer() {
    let data: Vec<f32> = vec![1.0, 2.0, 3.0, 4.0, 5.0, 6.0];
    assert_eq!(llama_engine::tensor::row_of(&data, 2, 0), &[1.0, 2.0]);
    assert_eq!(llama_engine::tensor::row_of(&data, 2, 2), &[5.0, 6.0]);
    assert_eq!(llama_engine::tensor::row_of(&data, 3, 1), &[4.0, 5.0, 6.0]);
    assert_eq!(llama_engine::tensor::row_of(&data, 0, 9), &[] as &[f32]);
}

#[test]
fn tensor_copy_is_its_own() {
    let mut t = Tensor::<u32>::new(vec![1, 2, 3, 4], &vec![2, 2]);
    let copy = t.copy();
    t.set(0, 9);
    assert_eq!(copy.data(), &[1, 2, 3, 4]);
    assert_eq!(copy.shape(), &vec![2, 2]);
    assert_eq!(t.data(), &[9, 2, 3, 4]);
}
