//! The fixed-capacity buffer (`heapless::Vec`) that holds magnetometer
//! samples during calibration, seen through what its methods do to the
//! samples it holds.
use vstd::prelude::*;

verus! {

#[verifier::external_type_specification]
#[verifier::external_body]
#[verifier::reject_recursive_types(T)]
pub struct ExHeaplessVec<T, const N: usize>(heapless::Vec<T, N>);

/// The samples that a buffer of capacity 1000 holds, oldest first.
pub uninterp spec fn held_samples(buffer: heapless::Vec<i32, 1000>) -> Seq<i32>;

/// `heapless::Vec::new`: the buffer it makes holds nothing.
#[verifier::external_body]
pub(crate) fn empty_buffer() -> (buffer: heapless::Vec<i32, 1000>)
    ensures
        held_samples(buffer) == Seq::<i32>::empty(),
{
    heapless::Vec::new()
}

/// `heapless::Vec::push`: below capacity the sample goes at the end and `Ok`
/// comes back; a full buffer is left as it was and hands the sample back in
/// `Err`.
#[verifier::external_body]
pub(crate) fn push_sample(buffer: &mut heapless::Vec<i32, 1000>, sample: i32) -> (r: Result<(), i32>)
    ensures
        held_samples(*old(buffer)).len() < 1000 ==> {
            &&& r == Ok::<(), i32>(())
            &&& held_samples(*final(buffer)) == held_samples(*old(buffer)).push(sample)
        },
        held_samples(*old(buffer)).len() >= 1000 ==> {
            &&& r == Err::<(), i32>(sample)
            &&& held_samples(*final(buffer)) == held_samples(*old(buffer))
        },
{
    buffer.push(sample)
}

/// `heapless::Vec::as_slice`: the slice holds the buffer's samples, in order.
#[verifier::external_body]
pub(crate) fn buffer_slice(buffer: &heapless::Vec<i32, 1000>) -> (samples: &[i32])
    ensures
        samples@ == held_samples(*buffer),
{
    buffer.as_slice()
}

} // verus!
