//! What holds of every conversation with a client.
use crate::haptic::{DeviceCommandView, IncomingMessage, Link, SocketEvent};
use vstd::prelude::*;

verus! {

/// One event of a conversation, and what a command would meet at that moment.
pub struct Moment {
    pub event: SocketEvent,
    pub link: Option<Link>,
}

/// One thing that is done for a client.
pub enum Deed {
    /// The device at this place is told something.
    Tell(int, DeviceCommandView),
    /// The watchdog is fed.
    Feed,
}

/// What the devices are told, device by device.
pub open spec fn tells(plan: Seq<Seq<DeviceCommandView>>) -> Seq<Deed>
    decreases plan.len(),
{
    if plan.len() == 0 {
        Seq::empty()
    } else {
        tells(plan.drop_last()) + plan.last().map_values(
            |command: DeviceCommandView| Deed::Tell(plan.len() - 1, command),
        )
    }
}

/// What is done for a command: the devices are told, and then the watchdog is fed,
/// if the command was understood.
pub open spec fn deeds_of(link: Option<Link>, command: Seq<char>) -> Seq<Deed> {
    let reaction = crate::haptic::command_reaction(link, command);
    if reaction.feed_watchdog {
        tells(reaction.plan).push(Deed::Feed)
    } else {
        tells(reaction.plan)
    }
}

/// How far a conversation has come: what was done, and whether it has ended.
#[verifier::ext_equal]
pub struct Conversation {
    pub deeds: Seq<Deed>,
    pub done: bool,
}

impl Conversation {
    /// The conversation after one more event. After the end nothing is heard.
    pub open spec fn step(self, moment: Moment) -> Conversation {
        let reaction = crate::haptic::socket_reaction(moment.event);
        if self.done {
            self
        } else {
            Conversation {
                deeds: match reaction.command {
                    Some(command) => self.deeds + deeds_of(moment.link, command),
                    None => self.deeds,
                },
                done: reaction.done,
            }
        }
    }
}

/// The conversation after some events.
pub open spec fn converse(moments: Seq<Moment>) -> Conversation
    decreases moments.len(),
{
    if moments.len() == 0 {
        Conversation { deeds: Seq::empty(), done: false }
    } else {
        converse(moments.drop_last()).step(moments.last())
    }
}

/// How often the watchdog is fed.
pub open spec fn feeds(deeds: Seq<Deed>) -> nat
    decreases deeds.len(),
{
    if deeds.len() == 0 {
        0
    } else if deeds.last() is Feed {
        feeds(deeds.drop_last()) + 1
    } else {
        feeds(deeds.drop_last())
    }
}

/// Whether an event is a text that is understood while there is a connection to the
/// device server.
pub open spec fn is_understood(moment: Moment) -> bool {
    &&& moment.event matches SocketEvent::Received(message)
    &&& message.text matches Some(text)
    &&& moment.link matches Some(link)
    &&& crate::command::follow(
        link.tags,
        link.readings,
        crate::command::lines_of(text@),
    ).failure is None
}

/// How many of some events are heard, before the end of the conversation, and
/// understood.
pub open spec fn understood(moments: Seq<Moment>) -> nat
    decreases moments.len(),
{
    if moments.len() == 0 {
        0
    } else {
        let before = understood(moments.drop_last());
        if !converse(moments.drop_last()).done && is_understood(moments.last()) {
            before + 1
        } else {
            before
        }
    }
}

/// The feeds of two lists add up.
proof fn lemma_feeds_add(a: Seq<Deed>, b: Seq<Deed>)
    ensures
        feeds(a + b) == feeds(a) + feeds(b),
    decreases b.len(),
{
    if b.len() == 0 {
        assert(a + b =~= a);
    } else {
        assert((a + b).drop_last() =~= a + b.drop_last());
        lemma_feeds_add(a, b.drop_last());
    }
}

/// Telling devices something feeds nobody.
proof fn lemma_tells_feed_nothing(deeds: Seq<Deed>)
    requires
        forall|i: int| 0 <= i < deeds.len() ==> (#[trigger] deeds[i]) is Tell,
    ensures
        feeds(deeds) == 0,
    decreases deeds.len(),
{
    if deeds.len() > 0 {
        assert(deeds[deeds.len() - 1] is Tell);
        lemma_tells_feed_nothing(deeds.drop_last());
    }
}

/// What the devices are told is told to devices.
proof fn lemma_tells_tell(plan: Seq<Seq<DeviceCommandView>>)
    ensures
        forall|i: int| 0 <= i < tells(plan).len() ==> (#[trigger] tells(plan)[i]) is Tell,
    decreases plan.len(),
{
    if plan.len() > 0 {
        let before = tells(plan.drop_last());
        lemma_tells_tell(plan.drop_last());
        assert forall|i: int| 0 <= i < tells(plan).len() implies (#[trigger] tells(plan)[i])
            is Tell by {
            if i < before.len() {
                assert(tells(plan)[i] == before[i]);
            }
        }
    }
}

/// A command that is understood ends with one feed, behind everything that the
/// devices are told; any other feeds nobody and tells no device anything.
pub proof fn law_feed_comes_last(link: Option<Link>, command: Seq<char>)
    ensures
        ({
            let fed = link matches Some(link) && crate::command::follow(
                link.tags,
                link.readings,
                crate::command::lines_of(command),
            ).failure is None;
            &&& fed ==> deeds_of(link, command).len() > 0 && deeds_of(link, command).last()
                == Deed::Feed && feeds(deeds_of(link, command)) == 1
            &&& !fed ==> deeds_of(link, command).len() == 0
        }),
{
    let plan = crate::haptic::command_reaction(link, command).plan;
    lemma_tells_tell(plan);
    lemma_tells_feed_nothing(tells(plan));
    assert(tells(plan).push(Deed::Feed).drop_last() =~= tells(plan));
}

/// In a conversation the watchdog is fed exactly once for each text that is heard
/// and understood while there is a connection to the device server, and at no other
/// time.
pub proof fn law_one_feed_per_understood_text(moments: Seq<Moment>)
    ensures
        feeds(converse(moments).deeds) == understood(moments),
    decreases moments.len(),
{
    if moments.len() > 0 {
        let before = converse(moments.drop_last());
        let moment = moments.last();
        law_one_feed_per_understood_text(moments.drop_last());
        if let Some(command) = crate::haptic::socket_reaction(moment.event).command {
            law_feed_comes_last(moment.link, command);
            lemma_feeds_add(before.deeds, deeds_of(moment.link, command));
        }
    }
}

/// Whether a message is passed over: it is no text, and it does not close the
/// connection. Binary messages, pings and pongs are such.
pub open spec fn is_idle(message: IncomingMessage) -> bool {
    message.text is None && (message.is_binary || !message.is_close)
}

/// Whether an event is a message that is passed over.
pub open spec fn is_idle_moment(moment: Moment) -> bool {
    moment.event matches SocketEvent::Received(message) && is_idle(message)
}

/// Some events without the messages that are passed over.
pub open spec fn without_idle(moments: Seq<Moment>) -> Seq<Moment>
    decreases moments.len(),
{
    if moments.len() == 0 {
        Seq::empty()
    } else if is_idle_moment(moments.last()) {
        without_idle(moments.drop_last())
    } else {
        without_idle(moments.drop_last()).push(moments.last())
    }
}

/// Leaving out what is passed over changes nothing.
proof fn lemma_without_idle(moments: Seq<Moment>)
    ensures
        converse(without_idle(moments)) == converse(moments),
    decreases moments.len(),
{
    if moments.len() > 0 {
        let shorter = without_idle(moments.drop_last());
        lemma_without_idle(moments.drop_last());
        if !is_idle_moment(moments.last()) {
            assert(shorter.push(moments.last()).drop_last() =~= shorter);
        }
    }
}

/// Two conversations that differ only by binary messages, pings and pongs come to
/// the same: the same is told to the same devices in the same order, the watchdog is
/// fed as often, and both go on or both have ended.
pub proof fn law_idle_messages_change_nothing(some: Seq<Moment>, other: Seq<Moment>)
    requires
        without_idle(some) == without_idle(other),
    ensures
        converse(some) == converse(other),
        feeds(converse(some).deeds) == feeds(converse(other).deeds),
{
    lemma_without_idle(some);
    lemma_without_idle(other);
}

/// A binary message, a ping or a pong can be put in anywhere.
pub proof fn law_idle_message_can_be_inserted(
    first: Seq<Moment>,
    idle: Moment,
    more: Seq<Moment>,
)
    requires
        is_idle_moment(idle),
    ensures
        converse(first.push(idle) + more) == converse(first + more),
    decreases more.len(),
{
    if more.len() == 0 {
        assert(first.push(idle) + more =~= first.push(idle));
        assert(first.push(idle).drop_last() =~= first);
        assert(first + more =~= first);
    } else {
        assert((first.push(idle) + more).drop_last() =~= first.push(idle) + more.drop_last());
        assert((first + more).drop_last() =~= first + more.drop_last());
        law_idle_message_can_be_inserted(first, idle, more.drop_last());
    }
}

} // verus!
