//! Passive key grabs: which modifier masks to grab, and what a refusal means.

use crate::x11::{lock_mask, mask_union, LOCK};
use vstd::prelude::*;
use x11rb::errors::ReplyError;
use x11rb::protocol::ErrorKind;

verus! {

/// Whether the server refused because another client holds the grab.
pub open spec fn is_conflict(error: ReplyError) -> bool {
    error matches ReplyError::X11Error(packet) && packet.error_kind is Access
}

/// True when the server refused a passive grab because another client holds it.
/// `GrabKey` with a conflicting grab fails with `BadAccess` (`Access`); any
/// other error (connection loss, bad value) must stay fatal.
pub fn is_grab_conflict(error: &ReplyError) -> (conflict: bool)
    ensures
        conflict == is_conflict(*error),
{
    match error {
        ReplyError::X11Error(packet) => matches!(packet.error_kind, ErrorKind::Access),
        ReplyError::ConnectionError(_) => false,
    }
}

/// The masks under which a key is grabbed, so that Caps Lock and Num Lock do
/// not matter: a passive grab matches its mask exactly.
pub open spec fn variants(base: u16, num_lock: u16) -> Seq<u16> {
    seq![base, base | LOCK, base | num_lock, base | LOCK | num_lock]
}

/// The modifiers `base` with and without Caps Lock and Num Lock.
pub fn lock_variants(base: u16, num_lock: u16) -> (masks: [u16; 4])
    ensures
        masks@ == variants(base, num_lock),
{
    let lock = lock_mask();
    [
        base,
        mask_union(base, lock),
        mask_union(base, num_lock),
        mask_union(mask_union(base, lock), num_lock),
    ]
}

/// Every variant asks for the configured modifiers, and for nothing else but
/// the two locks.
pub proof fn law_variants_preserve_the_modifiers(base: u16, num_lock: u16, i: int)
    requires
        0 <= i < 4,
    ensures
        variants(base, num_lock)[i] & base == base,
        variants(base, num_lock)[i] | (base | LOCK | num_lock) == (base | LOCK | num_lock),
{
    assert(base & base == base) by (bit_vector);
    assert((base | 0x2) & base == base) by (bit_vector);
    assert((base | num_lock) & base == base) by (bit_vector);
    assert((base | 0x2 | num_lock) & base == base) by (bit_vector);
    assert(base | (base | 0x2 | num_lock) == (base | 0x2 | num_lock)) by (bit_vector);
    assert((base | 0x2) | (base | 0x2 | num_lock) == (base | 0x2 | num_lock)) by (bit_vector);
    assert((base | num_lock) | (base | 0x2 | num_lock) == (base | 0x2 | num_lock)) by (bit_vector);
    assert((base | 0x2 | num_lock) | (base | 0x2 | num_lock) == (base | 0x2 | num_lock))
        by (bit_vector);
}

/// Whichever of the two locks are on, the modifiers together with them are one
/// of the variants.
pub proof fn law_variants_cover_the_locks(base: u16, num_lock: u16, caps_on: bool, num_on: bool)
    ensures
        variants(base, num_lock).contains(
            base | (if caps_on {
                LOCK
            } else {
                0
            }) | (if num_on {
                num_lock
            } else {
                0
            }),
        ),
{
    let masks = variants(base, num_lock);
    assert(base | 0 | 0 == base) by (bit_vector);
    assert(base | 0x2 | 0 == base | 0x2) by (bit_vector);
    assert(base | 0 | num_lock == base | num_lock) by (bit_vector);
    assert(masks[0] == base && masks[1] == base | LOCK && masks[2] == base | num_lock && masks[3]
        == base | LOCK | num_lock);
}

/// What came of grabbing a key under one mask.
#[derive(Clone, Copy, Debug, Eq, PartialEq, Structural)]
pub enum GrabReply {
    /// The server granted the grab.
    Granted,
    /// The server refused it.
    Refused,
    /// The request did not get through.
    NotSent,
}

/// What to do about the grabs of a key.
#[derive(Debug)]
pub enum GrabStep {
    /// Grab the key under this mask.
    Grab(u16),
    /// Nothing more: the key is grabbed under every mask.
    Done,
    /// Give the grabs under these masks up again, and fail.
    RollBack(Vec<u16>),
    /// Fail at once.
    Abandon,
}

/// The grabs of one key under several masks: all of them or, after a refusal,
/// none.
#[derive(Debug)]
pub struct VariantGrabs {
    masks: Vec<u16>,
    grabbed: usize,
}

impl VariantGrabs {
    /// The masks to grab the key under.
    pub closed spec fn masks(&self) -> Seq<u16> {
        self.masks@
    }

    /// The masks under which the key is grabbed, in the order of the grants.
    pub closed spec fn grabbed(&self) -> Seq<u16> {
        self.masks@.take(self.grabbed as int)
    }

    /// The masks are grabbed in order.
    pub closed spec fn well_formed(&self) -> bool {
        self.grabbed <= self.masks.len()
    }

    /// No grab is made yet.
    pub fn new(masks: &[u16]) -> (grabs: VariantGrabs)
        ensures
            grabs.well_formed(),
            grabs.masks() == masks@,
            grabs.grabbed() == Seq::<u16>::empty(),
    {
        let mut copy: Vec<u16> = Vec::new();
        for i in 0..masks.len()
            invariant
                copy@ == masks@.take(i as int),
        {
            copy.push(masks[i]);
        }
        VariantGrabs { masks: copy, grabbed: 0 }
    }

    /// The next grab to make, if one is left.
    pub fn next_grab(&self) -> (step: GrabStep)
        requires
            self.well_formed(),
        ensures
            step == next_step(self.masks(), self.grabbed()),
    {
        if self.grabbed < self.masks.len() {
            GrabStep::Grab(self.masks[self.grabbed])
        } else {
            GrabStep::Done
        }
    }

    /// The masks under which the key is grabbed and has to be given back.
    pub fn held(&self) -> (list: Vec<u16>)
        requires
            self.well_formed(),
        ensures
            list@ == self.grabbed(),
    {
        let mut list: Vec<u16> = Vec::new();
        for i in 0..self.grabbed
            invariant
                self.grabbed <= self.masks.len(),
                list@ == self.masks@.take(i as int),
        {
            list.push(self.masks[i]);
        }
        list
    }

    /// Takes in what came of the grab that was asked for last.
    pub fn reply(&mut self, reply: GrabReply) -> (step: GrabStep)
        requires
            old(self).well_formed(),
            old(self).grabbed().len() < old(self).masks().len(),
        ensures
            final(self).well_formed(),
            final(self).masks() == old(self).masks(),
            final(self).grabbed() == grabbed_after(old(self).masks(), old(self).grabbed(), reply),
            reply is Granted ==> final(self).grabbed() == old(self).masks().take(
                (old(self).grabbed().len() + 1) as int,
            ),
            reply is Refused ==> final(self).grabbed().len() == 0,
            reply is NotSent ==> final(self).grabbed() == old(self).grabbed(),
            match reply {
                GrabReply::Granted => step == next_step(
                    final(self).masks(),
                    final(self).grabbed(),
                ),
                GrabReply::Refused => step matches GrabStep::RollBack(list) && list@ == old(
                    self,
                ).grabbed(),
                GrabReply::NotSent => step is Abandon,
            },
    {
        match reply {
            GrabReply::Granted => {
                self.grabbed = self.grabbed + 1;
                assert(self.masks@.take(self.grabbed as int) =~= self.masks@.take(
                    self.grabbed - 1,
                ).push(self.masks@[self.grabbed - 1]));
                self.next_grab()
            },
            GrabReply::Refused => {
                let list = self.held();
                self.grabbed = 0;
                GrabStep::RollBack(list)
            },
            GrabReply::NotSent => GrabStep::Abandon,
        }
    }
}

/// The next grab to make, with the key grabbed under these masks.
pub open spec fn next_step(masks: Seq<u16>, grabbed: Seq<u16>) -> GrabStep {
    if grabbed.len() < masks.len() {
        GrabStep::Grab(masks[grabbed.len() as int])
    } else {
        GrabStep::Done
    }
}

/// The masks under which the key counts as grabbed once a reply has been acted
/// on.
pub open spec fn grabbed_after(masks: Seq<u16>, grabbed: Seq<u16>, reply: GrabReply) -> Seq<u16> {
    match reply {
        GrabReply::Granted => grabbed.push(masks[grabbed.len() as int]),
        GrabReply::Refused => Seq::empty(),
        GrabReply::NotSent => grabbed,
    }
}

/// Once no grab is left to make, the key is held under exactly the masks that
/// were asked for: these are what leaving gives back.
pub proof fn law_done_holds_every_mask(grabs: VariantGrabs)
    requires
        grabs.well_formed(),
        next_step(grabs.masks(), grabs.grabbed()) is Done,
    ensures
        grabs.grabbed() == grabs.masks(),
{
    assert(grabs.masks@.take(grabs.masks@.len() as int) =~= grabs.masks@);
}

/// The masks under which the key counts as grabbed after several replies.
pub open spec fn grabbed_after_all(masks: Seq<u16>, replies: Seq<GrabReply>) -> Seq<u16>
    decreases replies.len(),
{
    if replies.len() == 0 {
        Seq::empty()
    } else {
        grabbed_after(masks, grabbed_after_all(masks, replies.drop_last()), replies.last())
    }
}

/// As long as the server grants, the masks are grabbed in order until none is
/// left; a refusal at any point leaves none grabbed.
pub proof fn law_grabs_are_all_or_none(masks: Seq<u16>, replies: Seq<GrabReply>)
    requires
        replies.len() <= masks.len(),
        forall|i: int| 0 <= i < replies.len() ==> #[trigger] replies[i] == GrabReply::Granted,
    ensures
        grabbed_after_all(masks, replies) == masks.take(replies.len() as int),
        replies.len() < masks.len() ==> next_step(masks, grabbed_after_all(masks, replies))
            == GrabStep::Grab(masks[replies.len() as int]),
        replies.len() == masks.len() ==> {
            &&& grabbed_after_all(masks, replies) == masks
            &&& next_step(masks, grabbed_after_all(masks, replies)) is Done
        },
        grabbed_after_all(masks, replies.push(GrabReply::Refused)) == Seq::<u16>::empty(),
    decreases replies.len(),
{
    if replies.len() > 0 {
        let earlier = replies.drop_last();
        assert forall|i: int| 0 <= i < earlier.len() implies #[trigger] earlier[i]
            == GrabReply::Granted by {
            assert(earlier[i] == replies[i]);
        }
        law_grabs_are_all_or_none(masks, earlier);
        assert(replies[replies.len() - 1] == GrabReply::Granted);
    }
    assert(replies.push(GrabReply::Refused).last() == GrabReply::Refused);
    assert(grabbed_after_all(masks, replies) =~= masks.take(replies.len() as int));
}

/// A refusal is a conflict exactly where the server denied access; the rest of
/// its error does not matter, and a lost connection is none.
pub proof fn law_conflicts_are_denied_access(error: ReplyError, conflict: bool)
    requires
        call_ensures(is_grab_conflict, (&error,), conflict),
    ensures
        error matches ReplyError::X11Error(packet) ==> (conflict <==> packet.error_kind
            == ErrorKind::Access),
        error is ConnectionError ==> !conflict,
{
}

/// Bit by bit: a variant has the bits of the modifiers, every second one that
/// of Caps Lock, which is bit one, and the last two those of Num Lock.
pub proof fn law_variants_differ_in_the_locks_alone(
    base: u16,
    num_lock: u16,
    masks: [u16; 4],
    i: int,
    bit: u16,
)
    requires
        call_ensures(lock_variants, (base, num_lock), masks),
        0 <= i < 4,
        bit < 16,
    ensures
        masks@.len() == 4,
        (masks@[i] >> bit) & 1 == 1 <==> {
            ||| (base >> bit) & 1 == 1
            ||| i % 2 == 1 && bit == 1
            ||| i >= 2 && (num_lock >> bit) & 1 == 1
        },
{
    assert(bit < 16 ==> (((base | 2) >> bit) & 1 == 1 <==> (base >> bit) & 1 == 1 || bit == 1))
        by (bit_vector);
    assert(((base | num_lock) >> bit) & 1 == 1 <==> (base >> bit) & 1 == 1 || (num_lock >> bit) & 1
        == 1) by (bit_vector);
    assert(bit < 16 ==> (((base | 2 | num_lock) >> bit) & 1 == 1 <==> (base >> bit) & 1 == 1 || bit
        == 1 || (num_lock >> bit) & 1 == 1)) by (bit_vector);
}

/// With the first `n` masks grabbed, the next to grab is mask `n`, and nothing
/// more once there is none. A grant adds that mask, a refusal leaves none, and
/// a request that did not get through changes nothing.
pub proof fn law_masks_are_grabbed_in_order(masks: Seq<u16>, n: int)
    requires
        0 <= n <= masks.len(),
    ensures
        n < masks.len() ==> next_step(masks, masks.take(n)) == GrabStep::Grab(masks[n]),
        n == masks.len() ==> next_step(masks, masks.take(n)) is Done,
        n < masks.len() ==> grabbed_after(masks, masks.take(n), GrabReply::Granted) == masks.take(
            n + 1,
        ),
        grabbed_after(masks, masks.take(n), GrabReply::Refused).len() == 0,
        grabbed_after(masks, masks.take(n), GrabReply::NotSent) == masks.take(n),
{
    if n < masks.len() {
        assert(masks.take(n + 1) =~= masks.take(n).push(masks[n]));
    }
}

/// What is grabbed is always the first of the masks that were asked for; the
/// next grab is the mask after them, and what is held is what is grabbed.
pub proof fn law_grabs_follow_the_masks(grabs: VariantGrabs, step: GrabStep, list: Vec<u16>)
    requires
        grabs.well_formed(),
        call_ensures(VariantGrabs::next_grab, (&grabs,), step),
        call_ensures(VariantGrabs::held, (&grabs,), list),
    ensures
        list@.len() <= grabs.masks().len(),
        list@ == grabs.masks().take(list@.len() as int),
        list@ == grabs.grabbed(),
        list@.len() < grabs.masks().len() ==> step == GrabStep::Grab(
            grabs.masks()[list@.len() as int],
        ),
        list@.len() == grabs.masks().len() ==> step is Done,
{
}

/// Nothing is grabbed at first, and the masks are those that were given.
pub proof fn law_grabs_begin_with_nothing_held(masks: &[u16], grabs: VariantGrabs)
    requires
        call_ensures(VariantGrabs::new, (masks,), grabs),
    ensures
        grabs.well_formed(),
        grabs.masks() == masks@,
        grabs.grabbed().len() == 0,
{
}

} // verus!
