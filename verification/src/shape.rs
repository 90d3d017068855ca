//! Shapes: ordered lists of dimension sizes, and the number of elements they
//! describe.

use vstd::prelude::*;

verus! {

/// Number of elements that a shape describes: the product of its dimensions.
/// The empty shape describes a single element.
pub open spec fn shape_size(shape: Seq<usize>) -> nat
    decreases shape.len(),
{
    if shape.len() == 0 {
        1
    } else {
        shape_size(shape.drop_last()) * (shape.last() as nat)
    }
}

/// A shape with a dimension of size zero describes no element.
pub proof fn lemma_zero_dimension(shape: Seq<usize>, k: int)
    requires
        0 <= k < shape.len(),
        shape[k] == 0,
    ensures
        shape_size(shape) == 0,
    decreases shape.len(),
{
    if k < shape.len() - 1 {
        lemma_zero_dimension(shape.drop_last(), k);
    }
    assert(shape_size(shape.drop_last()) * (shape.last() as nat) == 0) by (nonlinear_arith)
        requires
            shape_size(shape.drop_last()) == 0 || shape.last() == 0,
    ;
}

/// Where no dimension is zero, a prefix of a shape describes at most as many
/// elements as the whole shape.
pub proof fn lemma_prefix_size(shape: Seq<usize>, k: int)
    requires
        0 <= k <= shape.len(),
        forall|i: int| 0 <= i < shape.len() ==> shape[i] > 0,
    ensures
        1 <= shape_size(shape.take(k)) <= shape_size(shape),
    decreases shape.len() - k,
{
    if k == shape.len() {
        assert(shape.take(k) == shape);
        lemma_positive_size(shape);
    } else {
        lemma_prefix_size(shape, k + 1);
        let longer = shape.take(k + 1);
        assert(longer.drop_last() == shape.take(k));
        assert(longer.last() == shape[k]);
        lemma_positive_size(shape.take(k));
        assert(shape_size(shape.take(k)) <= shape_size(shape.take(k)) * (shape[k] as nat))
            by (nonlinear_arith)
            requires
                shape[k] > 0,
        ;
    }
}

/// A shape without a zero dimension describes at least one element.
pub proof fn lemma_positive_size(shape: Seq<usize>)
    requires
        forall|i: int| 0 <= i < shape.len() ==> shape[i] > 0,
    ensures
        shape_size(shape) >= 1,
    decreases shape.len(),
{
    if shape.len() > 0 {
        lemma_positive_size(shape.drop_last());
        assert(shape_size(shape.drop_last()) * (shape.last() as nat) >= 1) by (nonlinear_arith)
            requires
                shape_size(shape.drop_last()) >= 1,
                shape.last() > 0,
        ;
    }
}

/// A shape with one more dimension at its end describes that many times
/// the elements.
pub proof fn lemma_size_push(shape: Seq<usize>, last: usize)
    ensures
        shape_size(shape.push(last)) == shape_size(shape) * last,
{
    assert(shape.push(last).drop_last() == shape);
    assert(shape.push(last).last() == last);
}

/// The size of a four-dimensional shape.
pub proof fn lemma_size_of_four(a: usize, b: usize, c: usize, d: usize)
    ensures
        shape_size(seq![a, b, c, d]) == a * b * c * d,
{
    lemma_size_of_pair(a, b);
    lemma_size_push(seq![a, b], c);
    assert(seq![a, b].push(c) == seq![a, b, c]);
    lemma_size_push(seq![a, b, c], d);
    assert(seq![a, b, c].push(d) == seq![a, b, c, d]);
}

/// The size of a two-dimensional shape.
pub proof fn lemma_size_of_pair(rows: usize, cols: usize)
    ensures
        shape_size(seq![rows, cols]) == rows * cols,
{
    let s = seq![rows, cols];
    assert(s.drop_last() == seq![rows]);
    lemma_size_of_single(rows);
    assert(shape_size(s) == shape_size(seq![rows]) * (cols as nat));
}

/// The size of a one-dimensional shape.
pub proof fn lemma_size_of_single(n: usize)
    ensures
        shape_size(seq![n]) == n,
{
    let s = seq![n];
    assert(s.drop_last() == Seq::<usize>::empty());
    assert(shape_size(s.drop_last()) == 1);
    assert(shape_size(s) == shape_size(s.drop_last()) * (s.last() as nat));
}

/// Whether some dimension of the shape is zero.
fn has_zero_dimension(shape: &Vec<usize>) -> (r: bool)
    ensures
        r == exists|i: int| 0 <= i < shape@.len() && shape@[i] == 0,
{
    let mut i: usize = 0;
    while i < shape.len()
        invariant
            i <= shape.len(),
            forall|j: int| 0 <= j < i ==> shape@[j] != 0,
        decreases shape.len() - i,
    {
        if shape[i] == 0 {
            return true;
        }
        i += 1;
    }
    false
}

/// Computes the number of elements of a shape, or reports that the number
/// does not fit in a machine word.
pub fn element_count(shape: &Vec<usize>) -> (r: Option<usize>)
    ensures
        match r {
            Some(n) => n == shape_size(shape@),
            None => shape_size(shape@) > usize::MAX,
        },
{
    if has_zero_dimension(shape) {
        proof {
            let k = choose|i: int| 0 <= i < shape@.len() && shape@[i] == 0;
            lemma_zero_dimension(shape@, k);
        }
        return Some(0);
    }
    let mut total: usize = 1;
    let mut i: usize = 0;
    proof {
        assert(shape@.take(0) == Seq::<usize>::empty());
    }
    while i < shape.len()
        invariant
            i <= shape.len(),
            forall|j: int| 0 <= j < shape@.len() ==> shape@[j] > 0,
            total == shape_size(shape@.take(i as int)),
        decreases shape.len() - i,
    {
        proof {
            let longer = shape@.take(i + 1);
            assert(longer.drop_last() == shape@.take(i as int));
            assert(longer.last() == shape@[i as int]);
            lemma_prefix_size(shape@, i + 1);
        }
        match total.checked_mul(shape[i]) {
            Some(next) => {
                total = next;
            },
            None => {
                return None;
            },
        }
        i += 1;
    }
    proof {
        assert(shape@.take(shape@.len() as int) == shape@);
    }
    Some(total)
}

/// Copies a shape.
pub fn copy_shape(shape: &Vec<usize>) -> (r: Vec<usize>)
    ensures
        r@ == shape@,
{
    let mut out: Vec<usize> = Vec::new();
    let mut i: usize = 0;
    while i < shape.len()
        invariant
            i <= shape.len(),
            out@ == shape@.take(i as int),
        decreases shape.len() - i,
    {
        out.push(shape[i]);
        proof {
            assert(shape@.take(i + 1) == shape@.take(i as int).push(shape@[i as int]));
        }
        i += 1;
    }
    proof {
        assert(shape@.take(shape@.len() as int) == shape@);
    }
    out
}

} // verus!
