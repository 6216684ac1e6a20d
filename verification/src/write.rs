//! Eager serialization of an event sequence into a text sink.

use crate::event::lemma_rendered_events_push;
use crate::event::rendered_events;
use crate::event::Event;
use vstd::prelude::*;

verus! {

/// Serializes a sequence of `Event`s to a sink by writing each event's
/// rendered text in order.
pub struct HtmlWriter {
    events: Vec<Event>,
}

impl View for HtmlWriter {
    type V = Seq<Event>;

    closed spec fn view(&self) -> Seq<Event> {
        self.events@
    }
}

impl HtmlWriter {
    /// Wrap a sequence of events for writing.
    pub fn new(events: Vec<Event>) -> (r: HtmlWriter)
        ensures
            r@ == events@,
    {
        HtmlWriter { events }
    }

    /// Render every event, in order, appending the text to `w`.  The
    /// events are consumed; the result is always zero.
    pub fn write_to(self, w: &mut String) -> (r: usize)
        ensures
            final(w)@ == old(w)@ + rendered_events(self@),
            r == 0,
    {
        proof {
            assert(self.events@.take(0) =~= Seq::<Event>::empty());
            assert(old(w)@ + rendered_events(self.events@.take(0)) =~= old(w)@);
        }
        let n = self.events.len();
        let mut i: usize = 0;
        while i < n
            invariant
                n == self.events@.len(),
                i <= n,
                w@ == old(w)@ + rendered_events(self.events@.take(i as int)),
            decreases n - i,
        {
            let ev = &self.events[i];
            ev.write_to(w);
            proof {
                assert(self.events@.take(i as int + 1) =~= self.events@.take(i as int).push(
                    self.events@[i as int],
                ));
                lemma_rendered_events_push(self.events@.take(i as int), self.events@[i as int]);
                assert(w@ =~= old(w)@ + rendered_events(self.events@.take(i as int + 1)));
            }
            i = i + 1;
        }
        proof {
            assert(self.events@.take(n as int) =~= self.events@);
        }
        0
    }
}

} // verus!
