//! The boundary to the `safetensors` crate, which reads the weight container.
//! Nothing in this file is proved: each contract states what the crate's
//! source shows of the function that the item calls.

use crate::header::header_is_plain;
use vstd::prelude::*;

verus! {

/// `safetensors::SafeTensors`: a parsed container that borrows the bytes it
/// was parsed from.
#[verifier::external_type_specification]
#[verifier::external_body]
pub struct ExSafeTensors<'data>(safetensors::SafeTensors<'data>);

/// `safetensors::SafeTensorError`: why a container could not be read.
#[verifier::external_type_specification]
#[verifier::external_body]
pub struct ExSafeTensorError(safetensors::SafeTensorError);

/// What a parsed container holds: for each tensor name the tensor's shape
/// and its bytes.
pub uninterp spec fn container_tensors(container: safetensors::SafeTensors<'_>) -> Map<
    Seq<char>,
    (Seq<usize>, Seq<u8>),
>;

/// What `SafeTensors::deserialize` makes of a byte buffer: the tensors of the
/// container that the bytes encode, or nothing where it refuses them.
pub uninterp spec fn parsed_container(bytes: Seq<u8>) -> Option<
    Map<Seq<char>, (Seq<usize>, Seq<u8>)>,
>;

/// `SafeTensors::deserialize`. The outcome depends on the bytes alone: the
/// same bytes are accepted or refused every time, and where they are accepted
/// the container holds the same tensors every time. The crate adds the end of
/// the data that the header declares, the header's length and eight without a
/// check. The end of the data is a number that the header spells out in
/// digits, and the crate refuses a header of more than `MAX_HEADER_SIZE`
/// bytes before it reads one, so on a plain header the sum fits in a machine
/// word.
#[verifier::external_body]
pub(crate) fn open_container<'data>(bytes: &'data [u8]) -> (r: Result<
    safetensors::SafeTensors<'data>,
    safetensors::SafeTensorError,
>)
    requires
        header_is_plain(bytes@),
    ensures
        match r {
            Ok(container) => parsed_container(bytes@) == Some(container_tensors(container)),
            Err(_) => parsed_container(bytes@) is None,
        },
{
    safetensors::SafeTensors::deserialize(bytes)
}

/// `SafeTensors::tensor`, with the view it returns taken apart by
/// `TensorView::shape` and `TensorView::data`: the shape and the bytes stored
/// under `name`, or nothing where the container has no tensor of that name.
#[verifier::external_body]
pub(crate) fn stored_tensor<'data>(container: &safetensors::SafeTensors<'data>, name: &str) -> (r:
    Option<(Vec<usize>, &'data [u8])>)
    ensures
        match r {
            Some(found) => container_tensors(*container).contains_key(name@) && container_tensors(
                *container,
            )[name@] == (found.0@, found.1@),
            None => !container_tensors(*container).contains_key(name@),
        },
{
    match container.tensor(name) {
        Ok(view) => {
            let shape = view.shape().to_vec();
            Some((shape, view.data()))
        },
        Err(_) => None,
    }
}

/// The `Display` text of a `SafeTensorError`. Nothing is claimed of it.
#[verifier::external_body]
pub(crate) fn describe(error: &safetensors::SafeTensorError) -> String {
    format!("{}", error)
}

} // verus!
