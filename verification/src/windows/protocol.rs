//! Why the background thread can free a timer's context.
//!
//! The context is shared with the system, which hands it back with each completion. It must be
//! freed once the timer is gone, but not while the system can still hand it back.

use vstd::prelude::*;

use crate::windows::background::{BackgroundTimerThread, Entry};
use crate::windows::firing;

verus! {

/// What an entry on its way to the background thread is about.
pub enum Message {
    /// The timer has fired, and its packet had been associated in the given generation, counted
    /// from 0.
    Fire(nat),
    /// The timer is gone.
    Gone,
}

/// What there is of a timer.
pub struct Protocol {
    /// The entries with the timer's context that the background thread has not gone through yet,
    /// in order.
    pub queue: Seq<Message>,
    /// The generation in which the packet was associated, if it is, so that the system adds an
    /// entry when the timer fires.
    pub associated: Option<nat>,
    /// How often the timer has been cleared.
    pub generation: nat,
    /// Whether the timer has its packet.
    pub packet: bool,
    /// Whether the timer is gone.
    pub gone: bool,
    /// How often the context has been freed.
    pub freed: nat,
}

/// The entry of a message, if the context is at the address `context`. The key of a firing is that
/// of its generation.
pub open spec fn entry_of(message: Message, context: usize) -> Entry {
    Entry {
        completion_key: match message {
            Message::Fire(generation) => firing::generation_after(0, generation),
            Message::Gone => BackgroundTimerThread::DROP_KEY,
        },
        overlapped: context,
    }
}

impl Protocol {
    /// A timer whose packet has just been associated.
    pub open spec fn begins(self) -> bool {
        &&& self.queue.len() == 0
        &&& self.associated == Some(0nat)
        &&& self.generation == 0
        &&& self.packet
        &&& !self.gone
        &&& self.freed == 0
    }

    /// The timer fires, and the system adds an entry. That ends the association.
    pub open spec fn fires(self, post: Protocol) -> bool {
        &&& self.associated is Some
        &&& post == (Protocol {
            queue: self.queue.push(Message::Fire(self.associated->0)),
            associated: None,
            ..self
        })
    }

    /// The timer is cleared, and a new generation begins. Its packet may or may not be taken back;
    /// if it is, that ends the association, and may take back entries that are on their way.
    pub open spec fn clears(self, post: Protocol) -> bool {
        &&& !self.gone
        &&& forall|i: int| 0 <= i < post.queue.len() ==> #[trigger] post.queue[i] is Fire
        &&& post.associated is None || post.associated == self.associated
        &&& post == (Protocol {
            queue: post.queue,
            associated: post.associated,
            generation: self.generation + 1,
            ..self
        })
    }

    /// The packet is associated again, after the timer was cleared.
    pub open spec fn is_watched_again(self, post: Protocol) -> bool {
        &&& !self.gone && self.packet
        &&& self.associated is None
        &&& post == (Protocol { associated: Some(self.generation), ..self })
    }

    /// The timer goes. Its packet is taken back, which ends the association and may or may not take
    /// back entries that are on their way; then an entry is posted.
    pub open spec fn goes(self, post: Protocol) -> bool {
        &&& !self.gone
        &&& exists|left: Seq<Message>|
            #![trigger left.push(Message::Gone)]
            {
                &&& left.len() <= self.queue.len()
                &&& forall|i: int| 0 <= i < left.len() ==> #[trigger] left[i] is Fire
                &&& post == (Protocol {
                    queue: left.push(Message::Gone),
                    associated: None,
                    packet: false,
                    gone: true,
                    ..self
                })
            }
    }

    /// The background thread goes through the first entry. The state is found or not, as `found`
    /// says; to associate the packet again can fail, as `associates` says.
    pub open spec fn processes(
        self,
        context: usize,
        found: bool,
        associates: bool,
        post: Protocol,
    ) -> bool {
        &&& self.queue.len() > 0
        &&& {
            let disposal = BackgroundTimerThread::disposal(
                0,
                1,
                entry_of(self.queue[0], context),
                found,
                self.packet && self.queue[0] == Message::Fire(self.generation),
                0,
            );
            post == (Protocol {
                queue: self.queue.drop_first(),
                associated: if disposal.reassociates && associates {
                    Some(self.generation)
                } else {
                    self.associated
                },
                freed: if disposal.frees {
                    self.freed + 1
                } else {
                    self.freed
                },
                ..self
            })
        }
    }

    /// Whether something happens that leads to `post`.
    pub open spec fn steps(self, context: usize, post: Protocol) -> bool {
        ||| self.fires(post)
        ||| self.clears(post)
        ||| self.is_watched_again(post)
        ||| self.goes(post)
        ||| exists|found: bool, associates: bool|
            #[trigger] self.processes(context, found, associates, post)
    }

    /// What is true at any time: as long as the timer is there, nothing tells to free the context;
    /// when it is gone, the one entry that does is the last that there is.
    pub open spec fn inv(self) -> bool {
        &&& forall|i: int|
            0 <= i < self.queue.len() ==> (#[trigger] self.queue[i] is Gone <==> self.gone && i
                == self.queue.len() - 1)
        &&& !self.gone ==> self.freed == 0
        &&& self.gone ==> !self.packet && self.associated is None
        &&& self.gone ==> self.freed == if self.queue.len() > 0 {
            0nat
        } else {
            1nat
        }
    }
}

/// Whether `states` is a possible course of events, from the moment at which the packet has been
/// associated.
pub open spec fn is_course(context: usize, states: Seq<Protocol>) -> bool {
    &&& states.len() > 0
    &&& states[0].begins()
    &&& forall|i: int|
        #![trigger states[i]]
        0 <= i < states.len() - 1 ==> states[i].steps(context, states[i + 1])
}

proof fn lemma_key_is_even(generation: nat)
    ensures
        firing::generation_after(0, generation) % 2 == 0,
    decreases generation,
{
    if generation > 0 {
        lemma_key_is_even((generation - 1) as nat);
    }
}

proof fn lemma_step_keeps_invariant(context: usize, pre: Protocol, post: Protocol)
    requires
        context != 0,
        pre.inv(),
        pre.steps(context, post),
    ensures
        post.inv(),
{
    if pre.fires(post) || pre.clears(post) || pre.is_watched_again(post) {
    } else if pre.goes(post) {
        let left = choose|left: Seq<Message>|
            #![trigger left.push(Message::Gone)]
            {
                &&& left.len() <= pre.queue.len()
                &&& forall|i: int| 0 <= i < left.len() ==> #[trigger] left[i] is Fire
                &&& post == (Protocol {
                    queue: left.push(Message::Gone),
                    associated: None,
                    packet: false,
                    gone: true,
                    ..pre
                })
            };
        assert forall|i: int| 0 <= i < post.queue.len() implies (#[trigger] post.queue[i] is Gone
            <==> i == post.queue.len() - 1) by {
            if i < left.len() {
                assert(left[i] is Fire);
            }
        }
    } else {
        assert(pre.queue[0] is Gone <==> pre.gone && pre.queue.len() == 1);
        if let Message::Fire(generation) = pre.queue[0] {
            lemma_key_is_even(generation);
        }
        assert forall|i: int| 0 <= i < post.queue.len() implies (#[trigger] post.queue[i] is Gone
            <==> post.gone && i == post.queue.len() - 1) by {
            assert(post.queue[i] == pre.queue[i + 1]);
        }
    }
}

proof fn lemma_invariant(context: usize, states: Seq<Protocol>, i: int)
    requires
        context != 0,
        is_course(context, states),
        0 <= i < states.len(),
    ensures
        states[i].inv(),
    decreases i,
{
    if i > 0 {
        lemma_invariant(context, states, i - 1);
        lemma_step_keeps_invariant(context, states[i - 1], states[i]);
    }
}

/// The context is there as long as an entry with it is on its way or the system can add one: the
/// background thread never uses a context that has been freed.
pub proof fn law_context_is_not_used_after_it_is_freed(
    context: usize,
    states: Seq<Protocol>,
    i: int,
)
    requires
        context != 0,
        is_course(context, states),
        0 <= i < states.len(),
        states[i].queue.len() > 0 || states[i].associated is Some,
    ensures
        states[i].freed == 0,
{
    lemma_invariant(context, states, i);
}

/// The context is freed at most once, and not before the timer is gone. When the timer is gone and
/// all its entries have been gone through, the context has been freed.
pub proof fn law_context_is_freed_once(context: usize, states: Seq<Protocol>, i: int)
    requires
        context != 0,
        is_course(context, states),
        0 <= i < states.len(),
    ensures
        states[i].freed <= 1,
        states[i].freed == 1 <==> states[i].gone && states[i].queue.len() == 0,
{
    lemma_invariant(context, states, i);
}

} // verus!
