//! The channel that carries findings to the datastore.

use vstd::arithmetic::div_mod::lemma_fundamental_div_mod;
use vstd::layout::{align_of, size_of};
use vstd::prelude::*;

verus! {

/// The sending half of a `crossbeam_channel` channel.
#[verifier::external_type_specification]
#[verifier::external_body]
#[verifier::reject_recursive_types(T)]
pub struct ExSender<T>(crossbeam_channel::Sender<T>);

/// The receiving half of a `crossbeam_channel` channel.
#[verifier::external_type_specification]
#[verifier::external_body]
#[verifier::reject_recursive_types(T)]
pub struct ExReceiver<T>(crossbeam_channel::Receiver<T>);

/// How many messages the channel has room for per job.
pub const MESSAGES_PER_JOB: usize = 1024;

/// The fewest jobs that a channel makes room for.
pub const LEAST_JOBS: usize = 16;

/// The room in the channel for a number of jobs.
pub open spec fn channel_room(num_jobs: nat) -> nat {
    if num_jobs < LEAST_JOBS {
        (LEAST_JOBS * MESSAGES_PER_JOB) as nat
    } else {
        num_jobs * MESSAGES_PER_JOB as nat
    }
}

/// No fewer bytes than a message takes up in a channel: its own, a stamp of eight, and what aligns
/// the two.
pub open spec fn slot_bytes<T>() -> nat {
    size_of::<T>() + align_of::<T>() + 16
}

/// Whether a channel for a number of jobs fits in memory at all.
pub open spec fn channel_fits<T>(num_jobs: nat) -> bool {
    channel_room(num_jobs) * slot_bytes::<T>() <= isize::MAX
}

/// `crossbeam_channel::Sender::capacity`: the room that the channel was made with, or `None`
/// for a channel without a bound. What it gives for a bounded channel is stated where such a
/// channel is made.
pub assume_specification<T>[ crossbeam_channel::Sender::<T>::capacity ](
    sender: &crossbeam_channel::Sender<T>,
) -> (capacity: Option<usize>)
;

/// `crossbeam_channel::Receiver::capacity`: the room that the channel was made with, or `None`
/// for a channel without a bound. What it gives for a bounded channel is stated where such a
/// channel is made.
pub assume_specification<T>[ crossbeam_channel::Receiver::<T>::capacity ](
    receiver: &crossbeam_channel::Receiver<T>,
) -> (capacity: Option<usize>)
;

/// Whether the two halves of a channel, asked for its capacity, give no other than this one.
pub open spec fn has_room<T>(
    ends: (crossbeam_channel::Sender<T>, crossbeam_channel::Receiver<T>),
    room: nat,
) -> bool {
    &&& forall|c: Option<usize>| #[trigger]
        call_ensures(crossbeam_channel::Sender::<T>::capacity, (&ends.0,), c) ==> c == Some(
            room as usize,
        )
    &&& forall|c: Option<usize>| #[trigger]
        call_ensures(crossbeam_channel::Receiver::<T>::capacity, (&ends.1,), c) ==> c == Some(
            room as usize,
        )
}

/// `crossbeam_channel::bounded`: the two halves of one channel with room for `cap` messages, which
/// is the capacity that both give. The call panics where the slots cannot be laid out in memory,
/// which the requirement leaves out. What a channel holds changes while its halves are only
/// borrowed, so nothing is said of its contents.
pub assume_specification<T>[ crossbeam_channel::bounded::<T> ](cap: usize) -> (ends: (
    crossbeam_channel::Sender<T>,
    crossbeam_channel::Receiver<T>,
))
    requires
        cap * slot_bytes::<T>() <= isize::MAX,
    ensures
        has_room(ends, cap as nat),
;

/// Whether a sender and a receiver are the two halves of one channel: one call, for so much room,
/// gave both.
pub open spec fn are_halves_of_one_channel<T>(
    ends: (crossbeam_channel::Sender<T>, crossbeam_channel::Receiver<T>),
    room: nat,
) -> bool {
    call_ensures(crossbeam_channel::bounded::<T>, (room as usize,), ends)
}

/// Tells whether a channel for a number of jobs fits in memory at all.
pub fn datastore_channel_fits<T>(num_jobs: usize) -> (fits: bool)
    ensures
        fits == channel_fits::<T>(num_jobs as nat),
{
    let jobs: u128 = if num_jobs < LEAST_JOBS {
        LEAST_JOBS as u128
    } else {
        num_jobs as u128
    };
    let room: u128 = jobs * MESSAGES_PER_JOB as u128;
    let slot: u128 = core::mem::size_of::<T>() as u128 + core::mem::align_of::<T>() as u128 + 16;
    let most: u128 = isize::MAX as u128;
    let slots: u128 = most / slot;
    proof {
        let (q, r) = (slots as int, most % slot);
        lemma_fundamental_div_mod(most as int, slot as int);
        assert(room <= q <==> room * slot <= most) by (nonlinear_arith)
            requires
                most == slot * q + r,
                0 <= r < slot,
                room >= 0,
        ;
    }
    room <= slots
}

/// Opens the channel to the datastore and hands out its two halves. It has room for a batch of
/// messages for every job, and for at least sixteen such batches. A channel that does not fit in
/// memory cannot be asked for.
pub fn create_datastore_channel<T>(num_jobs: usize) -> (ends: (
    crossbeam_channel::Sender<T>,
    crossbeam_channel::Receiver<T>,
))
    requires
        channel_fits::<T>(num_jobs as nat),
    ensures
        are_halves_of_one_channel(ends, channel_room(num_jobs as nat)),
        has_room(ends, channel_room(num_jobs as nat)),
        channel_room(num_jobs as nat) <= usize::MAX,
{
    proof {
        let room = channel_room(num_jobs as nat) as int;
        let slot = slot_bytes::<T>() as int;
        assert(room <= room * slot) by (nonlinear_arith)
            requires
                slot >= 1,
                room >= 0,
        ;
    }
    let wanted: usize = num_jobs * MESSAGES_PER_JOB;
    let least: usize = LEAST_JOBS * MESSAGES_PER_JOB;
    let room: usize = if wanted < least {
        least
    } else {
        wanted
    };
    crossbeam_channel::bounded(room)
}

/// A channel has room for at least sixteen batches of messages and for one batch per job, and for
/// no more than the greater of the two.
pub proof fn law_channel_has_room_for_every_job(num_jobs: nat)
    ensures
        channel_room(num_jobs) >= LEAST_JOBS * MESSAGES_PER_JOB,
        channel_room(num_jobs) >= num_jobs * MESSAGES_PER_JOB,
        channel_room(num_jobs) == LEAST_JOBS * MESSAGES_PER_JOB || channel_room(num_jobs)
            == num_jobs * MESSAGES_PER_JOB,
{
}

/// If a channel for so many jobs fits in memory, one for fewer jobs does.
pub proof fn law_smaller_channels_fit<T>(few: nat, many: nat)
    requires
        few <= many,
        channel_fits::<T>(many),
    ensures
        channel_fits::<T>(few),
        channel_room(few) <= channel_room(many),
{
    let slot = slot_bytes::<T>() as int;
    let (less, more) = (channel_room(few) as int, channel_room(many) as int);
    assert(less * slot <= more * slot) by (nonlinear_arith)
        requires
            0 <= less <= more,
            slot >= 0,
    ;
}

/// A channel fits in memory just when there is room for as many messages as it takes, each with its
/// own bytes, those that align it, and sixteen more.
pub proof fn law_channels_fit_when_their_messages_do<T>(num_jobs: nat)
    ensures
        num_jobs >= 16 ==> (channel_fits::<T>(num_jobs) <==> (num_jobs * 1024) * (size_of::<T>()
            + align_of::<T>() + 16) <= isize::MAX),
        num_jobs < 16 ==> (channel_fits::<T>(num_jobs) <==> 16384 * (size_of::<T>()
            + align_of::<T>() + 16) <= isize::MAX),
{
}

} // verus!
