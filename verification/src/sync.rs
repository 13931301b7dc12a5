//! The channels that carry calls and their results between tasks.
//!
//! The channels are those of the `futures` crate. What this crate relies on
//! of them is declared here and is taken on trust: it is not proved.

use futures::channel::{mpsc, oneshot};
use vstd::prelude::*;

verus! {

/// The sending half of `futures::channel::oneshot`. Nothing is known of what
/// is inside it.
#[verifier::external_type_specification]
#[verifier::external_body]
#[verifier::reject_recursive_types(T)]
pub struct ExOneshotSender<T>(oneshot::Sender<T>);

/// The receiving half of `futures::channel::oneshot`. Nothing is known of
/// what is inside it.
#[verifier::external_type_specification]
#[verifier::external_body]
#[verifier::reject_recursive_types(T)]
pub struct ExOneshotReceiver<T>(oneshot::Receiver<T>);

/// The error of `futures::channel::oneshot` for a sending half that went
/// away without sending.
#[verifier::external_type_specification]
#[verifier::external_body]
pub struct ExCanceled(oneshot::Canceled);

/// The sending half of `futures::channel::mpsc`. Nothing is known of what is
/// inside it.
#[verifier::external_type_specification]
#[verifier::external_body]
#[verifier::reject_recursive_types(T)]
pub struct ExMpscSender<T>(mpsc::Sender<T>);

/// The receiving half of `futures::channel::mpsc`. Nothing is known of what
/// is inside it.
#[verifier::external_type_specification]
#[verifier::external_body]
#[verifier::reject_recursive_types(T)]
pub struct ExMpscReceiver<T>(mpsc::Receiver<T>);

/// `futures::channel::oneshot::channel` makes the two halves of a channel
/// for a single value. It takes nothing and does not fail. Nothing is
/// claimed of the halves it returns.
pub assume_specification<T>[ oneshot::channel::<T> ]() -> (halves: (
    oneshot::Sender<T>,
    oneshot::Receiver<T>,
));

/// `futures::channel::oneshot::Sender::send` hands `t` to the receiving
/// half, or fails where the receiving half is gone. Claimed is only what
/// holds either way: a failed send gives back the very `t` that it was
/// given.
pub assume_specification<T>[ oneshot::Sender::<T>::send ](sender: oneshot::Sender<T>, t: T) -> (sent:
    Result<(), T>)
    ensures
        sent matches Err(returned) ==> returned == t,
;

/// `futures::channel::mpsc::channel` makes the two halves of a channel that
/// holds up to `buffer` values, and one more for each sender. It panics
/// where `buffer` is not below the largest buffer it allows, which is a
/// quarter of the largest `usize`, rounded down; such a `buffer` is ruled
/// out here. Nothing is claimed of the halves it returns.
pub assume_specification<T>[ mpsc::channel::<T> ](buffer: usize) -> (halves: (
    mpsc::Sender<T>,
    mpsc::Receiver<T>,
))
    requires
        buffer < usize::MAX / 4,
;

} // verus!
