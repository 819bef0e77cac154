//! Checks of what a pipeline is given to draw with, and where each vertex
//! buffer is bound.

use vstd::prelude::*;

verus! {

/// Number of vertex buffer slots a pipeline checks by type.
pub const TYPED_VERTEX_SLOTS: usize = 8;

/// Why a draw with a pipeline was refused.
#[derive(Clone, Copy, PartialEq, Eq, Debug, Structural)]
pub enum BindingError {
    /// The vertex buffer of this slot is required but was not given.
    MissingVertexBuffer(usize),
    /// The vertex buffer of this slot was given but is not used.
    UnexpectedVertexBuffer(usize),
    /// The count of untyped vertex buffers differs from the pipeline's.
    ExtraBufferCount { expected: usize, given: usize },
    /// The pipeline draws indexed but no index buffer was given.
    MissingIndexBuffer,
    /// The pipeline does not draw indexed but an index buffer was given.
    UnexpectedIndexBuffer,
    /// An indexed draw was asked without a base vertex.
    MissingBaseVertex,
    /// A draw that is not indexed was given a base vertex.
    UnexpectedBaseVertex,
}

/// Where the vertex buffers of a draw are bound.
#[derive(PartialEq, Eq, Debug)]
pub struct BindingPlan {
    /// For each typed slot, the binding index of its buffer when one is given.
    pub slot_bindings: Vec<Option<u32>>,
    /// The binding index of the first untyped buffer; the others follow.
    pub extra_first: u32,
}

/// The first typed slot, from `from` on, whose buffer is given when it is
/// not required or missing when it is.
pub open spec fn slot_error(required: Seq<bool>, given: Seq<bool>, from: int) -> Option<BindingError>
    decreases TYPED_VERTEX_SLOTS - from,
{
    if from < 0 || from >= TYPED_VERTEX_SLOTS {
        None
    } else if required[from] && !given[from] {
        Some(BindingError::MissingVertexBuffer(from as usize))
    } else if !required[from] && given[from] {
        Some(BindingError::UnexpectedVertexBuffer(from as usize))
    } else {
        slot_error(required, given, from + 1)
    }
}

/// How many of the first `n` slots have a buffer given.
pub open spec fn given_before(given: Seq<bool>, n: int) -> nat
    decreases n,
{
    if n <= 0 {
        0
    } else {
        given_before(given, n - 1) + if given[n - 1] {
            1nat
        } else {
            0nat
        }
    }
}

/// What a draw with these arguments leads to: the first check that fails,
/// in the order the pipeline makes them, or where each buffer is bound.
pub open spec fn binding_check(
    required: Seq<bool>,
    given: Seq<bool>,
    extra_expected: usize,
    extra_given: usize,
    indexed: bool,
    index_given: bool,
    base_vertex_given: bool,
) -> Result<(Seq<Option<u32>>, u32), BindingError> {
    if slot_error(required, given, 0) is Some {
        Err(slot_error(required, given, 0)->0)
    } else if extra_expected != extra_given {
        Err(BindingError::ExtraBufferCount { expected: extra_expected, given: extra_given })
    } else if indexed && !index_given {
        Err(BindingError::MissingIndexBuffer)
    } else if !indexed && index_given {
        Err(BindingError::UnexpectedIndexBuffer)
    } else if indexed && !base_vertex_given {
        Err(BindingError::MissingBaseVertex)
    } else if !indexed && base_vertex_given {
        Err(BindingError::UnexpectedBaseVertex)
    } else {
        Ok(
            (
                Seq::new(
                    TYPED_VERTEX_SLOTS as nat,
                    |i: int|
                        if given[i] {
                            Some(given_before(given, i) as u32)
                        } else {
                            None
                        },
                ),
                given_before(given, TYPED_VERTEX_SLOTS as int) as u32,
            ),
        )
    }
}

proof fn lemma_given_before_bound(given: Seq<bool>, n: int)
    requires
        0 <= n,
    ensures
        given_before(given, n) <= n,
    decreases n,
{
    if n > 0 {
        lemma_given_before_bound(given, n - 1);
    }
}

/// Checks what a draw is given against what the pipeline needs:
/// `required[i]` tells that typed slot `i` needs a buffer and `given[i]` that
/// one was given. On success, the given typed buffers are bound in slot
/// order from 0 on, and the untyped ones after them.
pub fn check_bindings(
    required: [bool; 8],
    given: [bool; 8],
    extra_expected: usize,
    extra_given: usize,
    indexed: bool,
    index_given: bool,
    base_vertex_given: bool,
) -> (res: Result<BindingPlan, BindingError>)
    ensures
        match binding_check(
            required@,
            given@,
            extra_expected,
            extra_given,
            indexed,
            index_given,
            base_vertex_given,
        ) {
            Ok((slots, first)) => res matches Ok(plan) && plan.slot_bindings@ == slots
                && plan.extra_first == first,
            Err(e) => res == Err::<BindingPlan, BindingError>(e),
        },
{
    let mut i: usize = 0;
    while i < 8
        invariant
            i <= 8,
            slot_error(required@, given@, 0) == slot_error(required@, given@, i as int),
        decreases 8 - i,
    {
        if required[i] && !given[i] {
            return Err(BindingError::MissingVertexBuffer(i));
        } else if !required[i] && given[i] {
            return Err(BindingError::UnexpectedVertexBuffer(i));
        }
        i = i + 1;
    }
    if extra_expected != extra_given {
        return Err(BindingError::ExtraBufferCount { expected: extra_expected, given: extra_given });
    }
    if indexed && !index_given {
        return Err(BindingError::MissingIndexBuffer);
    }
    if !indexed && index_given {
        return Err(BindingError::UnexpectedIndexBuffer);
    }
    if indexed && !base_vertex_given {
        return Err(BindingError::MissingBaseVertex);
    }
    if !indexed && base_vertex_given {
        return Err(BindingError::UnexpectedBaseVertex);
    }
    let mut slot_bindings: Vec<Option<u32>> = Vec::new();
    let mut next: u32 = 0;
    let mut j: usize = 0;
    while j < 8
        invariant
            j <= 8,
            next == given_before(given@, j as int),
            slot_bindings@.len() == j,
            forall|k: int|
                0 <= k < j ==> #[trigger] slot_bindings@[k] == (if given@[k] {
                    Some(given_before(given@, k) as u32)
                } else {
                    None
                }),
        decreases 8 - j,
    {
        proof {
            lemma_given_before_bound(given@, j as int);
        }
        if given[j] {
            slot_bindings.push(Some(next));
            next = next + 1;
        } else {
            slot_bindings.push(None);
        }
        j = j + 1;
    }
    let ghost expected = Seq::new(
        TYPED_VERTEX_SLOTS as nat,
        |k: int|
            if given@[k] {
                Some(given_before(given@, k) as u32)
            } else {
                None
            },
    );
    assert(slot_bindings@ =~= expected);
    Ok(BindingPlan { slot_bindings, extra_first: next })
}

/// No slot from `from` on is in error exactly when every such slot has a
/// buffer given if and only if it is required.
proof fn lemma_slot_error_none(required: Seq<bool>, given: Seq<bool>, from: int)
    requires
        0 <= from <= TYPED_VERTEX_SLOTS,
    ensures
        slot_error(required, given, from) is None <==> forall|i: int|
            from <= i < TYPED_VERTEX_SLOTS ==> #[trigger] required[i] == given[i],
    decreases TYPED_VERTEX_SLOTS - from,
{
    if from < TYPED_VERTEX_SLOTS {
        lemma_slot_error_none(required, given, from + 1);
    }
}

/// A draw is accepted exactly when every typed slot has a buffer given if and
/// only if the pipeline requires it, as many untyped buffers are given as the
/// pipeline has, and an index buffer and a base vertex are given if and only
/// if the pipeline draws indexed.
pub proof fn law_bindings_accepted_iff_matching(
    required: Seq<bool>,
    given: Seq<bool>,
    extra_expected: usize,
    extra_given: usize,
    indexed: bool,
    index_given: bool,
    base_vertex_given: bool,
)
    ensures
        binding_check(
            required,
            given,
            extra_expected,
            extra_given,
            indexed,
            index_given,
            base_vertex_given,
        ) is Ok <==> {
            &&& forall|i: int| 0 <= i < TYPED_VERTEX_SLOTS ==> #[trigger] required[i] == given[i]
            &&& extra_expected == extra_given
            &&& indexed == index_given
            &&& indexed == base_vertex_given
        },
{
    lemma_slot_error_none(required, given, 0);
}

/// The number of slots counted so far is the number of `true`s among them.
proof fn lemma_given_before_counts(given: Seq<bool>, n: int)
    requires
        0 <= n <= given.len(),
    ensures
        given_before(given, n) == given.take(n).filter(|b: bool| b).len(),
    decreases n,
{
    reveal(Seq::filter);
    if n > 0 {
        lemma_given_before_counts(given, n - 1);
        let t = given.take(n);
        assert(t.drop_last() =~= given.take(n - 1));
        assert(t.last() == given[n - 1]);
    } else {
        assert(given.take(0).len() == 0);
    }
}

/// More slots counted never count fewer given buffers.
proof fn lemma_given_before_grows(given: Seq<bool>, a: int, b: int)
    requires
        0 <= a <= b,
    ensures
        given_before(given, a) <= given_before(given, b),
        a < b && given[a] ==> given_before(given, a) < given_before(given, b),
    decreases b - a,
{
    if a < b {
        lemma_given_before_grows(given, a, b - 1);
    }
}

/// On success, each typed slot with a buffer is bound at the number of
/// typed slots with a buffer before it, a slot without one is not bound, and
/// the untyped buffers start right after the typed ones: the given typed
/// buffers take the bindings from 0 on, one each, in slot order.
pub proof fn law_bindings_in_slot_order(
    required: Seq<bool>,
    given: Seq<bool>,
    extra_expected: usize,
    extra_given: usize,
    indexed: bool,
    index_given: bool,
    base_vertex_given: bool,
)
    requires
        given.len() == TYPED_VERTEX_SLOTS,
    ensures
        binding_check(required, given, extra_expected, extra_given, indexed, index_given, base_vertex_given)
            matches Ok((slots, extra_first)) ==> {
            &&& slots.len() == TYPED_VERTEX_SLOTS
            &&& forall|i: int|
                0 <= i < TYPED_VERTEX_SLOTS ==> #[trigger] slots[i] == if given[i] {
                    Some(given.take(i).filter(|b: bool| b).len() as u32)
                } else {
                    None::<u32>
                }
            &&& extra_first == given.filter(|b: bool| b).len()
            &&& forall|i: int, k: int|
                0 <= i < k < TYPED_VERTEX_SLOTS && given[i] && given[k] ==> #[trigger] slots[i]->0
                    < #[trigger] slots[k]->0
            &&& forall|i: int|
                0 <= i < TYPED_VERTEX_SLOTS && given[i] ==> #[trigger] slots[i]->0 < extra_first
        },
{
    if binding_check(required, given, extra_expected, extra_given, indexed, index_given, base_vertex_given) is Ok {
        assert forall|i: int| 0 <= i < TYPED_VERTEX_SLOTS implies given_before(given, i)
            == given.take(i).filter(|b: bool| b).len() by {
            lemma_given_before_counts(given, i);
        }
        lemma_given_before_counts(given, TYPED_VERTEX_SLOTS as int);
        assert(given.take(TYPED_VERTEX_SLOTS as int) =~= given);
        lemma_given_before_bound(given, TYPED_VERTEX_SLOTS as int);
        assert forall|i: int, k: int| 0 <= i < k < TYPED_VERTEX_SLOTS && given[i] && given[k] implies
            given_before(given, i) < given_before(given, k) by {
            lemma_given_before_grows(given, i, k);
        }
        assert forall|i: int| 0 <= i < TYPED_VERTEX_SLOTS && given[i] implies given_before(given, i)
            < given_before(given, TYPED_VERTEX_SLOTS as int) by {
            lemma_given_before_grows(given, i, TYPED_VERTEX_SLOTS as int);
        }
    }
}

/// The slot `slot_error` reports from `from` on is the first that does not
/// match, and it is reported as missing or unexpected as it is.
proof fn lemma_slot_error_first(required: Seq<bool>, given: Seq<bool>, from: int)
    requires
        0 <= from <= TYPED_VERTEX_SLOTS,
    ensures
        slot_error(required, given, from) matches Some(e) ==> match e {
            BindingError::MissingVertexBuffer(i) => from <= i < TYPED_VERTEX_SLOTS && required[i as int]
                && !given[i as int] && forall|j: int| from <= j < i ==> #[trigger] required[j] == given[j],
            BindingError::UnexpectedVertexBuffer(i) => from <= i < TYPED_VERTEX_SLOTS && !required[i as int]
                && given[i as int] && forall|j: int| from <= j < i ==> #[trigger] required[j] == given[j],
            _ => false,
        },
    decreases TYPED_VERTEX_SLOTS - from,
{
    if from < TYPED_VERTEX_SLOTS {
        lemma_slot_error_first(required, given, from + 1);
    }
}

/// A refused draw names the first thing that does not match, in this order:
/// the first typed slot whose buffer is missing or not used, then the count
/// of untyped buffers, then the index buffer, then the base vertex.
pub proof fn law_first_mismatch_reported(
    required: Seq<bool>,
    given: Seq<bool>,
    extra_expected: usize,
    extra_given: usize,
    indexed: bool,
    index_given: bool,
    base_vertex_given: bool,
)
    ensures
        binding_check(required, given, extra_expected, extra_given, indexed, index_given, base_vertex_given)
            matches Err(e) ==> match e {
            BindingError::MissingVertexBuffer(i) => i < TYPED_VERTEX_SLOTS && required[i as int]
                && !given[i as int] && forall|j: int| 0 <= j < i ==> #[trigger] required[j] == given[j],
            BindingError::UnexpectedVertexBuffer(i) => i < TYPED_VERTEX_SLOTS && !required[i as int]
                && given[i as int] && forall|j: int| 0 <= j < i ==> #[trigger] required[j] == given[j],
            BindingError::ExtraBufferCount { expected, given: count } => expected == extra_expected
                && count == extra_given && extra_expected != extra_given && forall|j: int|
                0 <= j < TYPED_VERTEX_SLOTS ==> #[trigger] required[j] == given[j],
            BindingError::MissingIndexBuffer => indexed && !index_given && extra_expected == extra_given
                && forall|j: int| 0 <= j < TYPED_VERTEX_SLOTS ==> #[trigger] required[j] == given[j],
            BindingError::UnexpectedIndexBuffer => !indexed && index_given && extra_expected == extra_given
                && forall|j: int| 0 <= j < TYPED_VERTEX_SLOTS ==> #[trigger] required[j] == given[j],
            BindingError::MissingBaseVertex => indexed && index_given && !base_vertex_given
                && extra_expected == extra_given && forall|j: int|
                0 <= j < TYPED_VERTEX_SLOTS ==> #[trigger] required[j] == given[j],
            BindingError::UnexpectedBaseVertex => !indexed && !index_given && base_vertex_given
                && extra_expected == extra_given && forall|j: int|
                0 <= j < TYPED_VERTEX_SLOTS ==> #[trigger] required[j] == given[j],
        },
{
    lemma_slot_error_first(required, given, 0);
    lemma_slot_error_none(required, given, 0);
}

} // verus!
