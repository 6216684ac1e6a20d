//! Incremental, pull-based serialization of an event sequence.
//!
//! A `ReadHtml` hands the rendered text out in bounded-size chunks.  A
//! single rendered event can exceed the size one call asks for, so text
//! already rendered but not yet delivered is buffered across calls, and a
//! partially drained buffer is shifted to the front; no character is ever
//! delivered twice or dropped.

use crate::event::lemma_rendered_events_skip;
use crate::event::rendered_event;
use crate::event::rendered_events;
use crate::event::Event;
use vstd::math::min;
use vstd::prelude::*;

verus! {

/// One refill of the reader, at the spec level: with text already pending
/// (or no event left) nothing happens; otherwise events are rendered in
/// order until one yields text, events that render to nothing being
/// consumed along the way.  The first component is the text the drain
/// rule then applies to, the second what is left of the events.
pub open spec fn refilled(buffer: Seq<char>, events: Seq<Event>) -> (Seq<char>, Seq<Event>)
    decreases events.len(),
{
    if buffer.len() > 0 || events.len() == 0 {
        (buffer, events)
    } else {
        refilled(rendered_event(events[0]), events.drop_first())
    }
}

/// Refilling rearranges no text: the pending chunk followed by the
/// rendering of the leftover events is still the whole remaining text.
pub proof fn lemma_refilled_remaining(buffer: Seq<char>, events: Seq<Event>)
    ensures
        refilled(buffer, events).0 + rendered_events(refilled(buffer, events).1) == buffer
            + rendered_events(events),
    decreases events.len(),
{
    if buffer.len() > 0 || events.len() == 0 {
    } else {
        lemma_refilled_remaining(rendered_event(events[0]), events.drop_first());
        assert(buffer + rendered_events(events) =~= rendered_event(events[0]) + rendered_events(
            events.drop_first(),
        ));
    }
}

/// Pull mode agrees with eager mode: a reader that still holds the whole
/// rendering of `events` — as a fresh `ReadHtml::new(events)` does — has
/// exactly the text that `HtmlStreamer::stream` or `HtmlWriter::write_to`
/// would append to a sink for the same events; each later `read` hands
/// out a prefix of the remaining text and leaves precisely the rest, so
/// the chunks concatenate back to that same text.
pub proof fn lemma_pull_matches_eager(
    remaining: Seq<char>,
    events: Seq<Event>,
    sink0: Seq<char>,
    sink1: Seq<char>,
    delivered: Seq<char>,
)
    requires
        remaining == rendered_events(events),
        sink1 == sink0 + rendered_events(events),
        delivered.len() <= remaining.len(),
        delivered == remaining.take(delivered.len() as int),
    ensures
        sink1 == sink0 + remaining,
        delivered + remaining.skip(delivered.len() as int) == remaining,
{
    assert(delivered + remaining.skip(delivered.len() as int) =~= remaining);
}

/// Pull-based reader over the rendered text of a sequence of events.
pub struct ReadHtml {
    events: Vec<Event>,
    pos: usize,
    buffer: String,
}

impl ReadHtml {
    /// Text already rendered but not yet delivered.
    pub closed spec fn buffered(&self) -> Seq<char> {
        self.buffer@
    }

    /// The events not yet rendered, in order.
    pub closed spec fn unrendered(&self) -> Seq<Event> {
        self.events@.skip(self.pos as int)
    }

    /// All text still to be delivered: what is buffered, followed by the
    /// rendering of the events not yet rendered.
    pub open spec fn remaining(&self) -> Seq<char> {
        self.buffered() + rendered_events(self.unrendered())
    }

    /// Internal consistency: the position of the next event to render
    /// never passes the end of the sequence.
    pub closed spec fn wf(&self) -> bool {
        self.pos <= self.events@.len()
    }

    /// Wrap a sequence of events for incremental reading.
    pub fn new(events: Vec<Event>) -> (r: ReadHtml)
        ensures
            r.wf(),
            r.buffered() == Seq::<char>::empty(),
            r.unrendered() == events@,
            r.remaining() == rendered_events(events@),
    {
        let r = ReadHtml { events, pos: 0, buffer: String::new() };
        proof {
            assert(r.buffer@ =~= Seq::<char>::empty());
            assert(r.events@.skip(0) =~= r.events@);
            assert(r.buffer@ + rendered_events(r.events@) =~= rendered_events(r.events@));
        }
        r
    }

    /// Deliver up to `limit` characters of the rendered stream, in order.
    ///
    /// When already-rendered text is pending, no event is touched: the
    /// first `limit` characters of the pending text (all of it, if it is
    /// shorter) are handed out and the rest stays pending, shifted to the
    /// front.  With nothing pending, events are rendered in order until
    /// one yields text — an event that renders to nothing is consumed
    /// silently — and that text is drained the same way.  So the result
    /// is a prefix of what remained before the call, what remains
    /// afterwards is exactly the rest, and nothing is ever dropped or
    /// delivered twice.  An empty result with a nonzero `limit` signals
    /// that the stream is exhausted, and every later call stays empty.
    pub fn read(&mut self, limit: usize) -> (out: String)
        requires
            old(self).wf(),
        ensures
            final(self).wf(),
            out@.len() <= limit,
            out@.len() <= old(self).remaining().len(),
            out@ == old(self).remaining().take(out@.len() as int),
            final(self).remaining() == old(self).remaining().skip(out@.len() as int),
            (out@.len() == 0) <==> (old(self).remaining().len() == 0 || limit == 0),
            ({
                let (chunk, rest) = refilled(old(self).buffered(), old(self).unrendered());
                &&& out@.len() == min(limit as int, chunk.len() as int)
                &&& out@ == chunk.take(out@.len() as int)
                &&& final(self).buffered() == chunk.skip(out@.len() as int)
                &&& final(self).unrendered() == rest
            }),
    {
        while self.buffer.as_str().is_empty() && self.pos < self.events.len()
            invariant
                self.wf(),
                refilled(self.buffered(), self.unrendered()) == refilled(
                    old(self).buffered(),
                    old(self).unrendered(),
                ),
            decreases self.events@.len() - self.pos,
        {
            let ghost p = self.pos as int;
            let ghost buf0 = self.buffer@;
            let ghost evs = self.events@;
            let ev = &self.events[self.pos];
            ev.write_to(&mut self.buffer);
            self.pos = self.pos + 1;
            proof {
                assert(self.buffer@ =~= rendered_event(evs[p]));
                assert(evs.skip(p)[0] == evs[p]);
                assert(evs.skip(p).drop_first() =~= evs.skip(p + 1));
                assert(refilled(buf0, evs.skip(p)) == refilled(
                    rendered_event(evs[p]),
                    evs.skip(p + 1),
                ));
            }
        }
        proof {
            assert(refilled(self.buffered(), self.unrendered()) == (
                self.buffered(),
                self.unrendered(),
            ));
            lemma_refilled_remaining(old(self).buffered(), old(self).unrendered());
        }
        let ghost chunk = refilled(old(self).buffered(), old(self).unrendered()).0;
        let ghost rest = refilled(old(self).buffered(), old(self).unrendered()).1;
        let blen = self.buffer.unicode_len();
        if blen == 0 {
            proof {
                assert(rest =~= Seq::<Event>::empty());
                assert(rendered_events(Seq::<Event>::empty()) == Seq::<char>::empty());
                assert(old(self).remaining() =~= Seq::<char>::empty());
                assert(old(self).remaining().take(0) =~= Seq::<char>::empty());
                assert(old(self).remaining().skip(0) =~= old(self).remaining());
                assert(chunk.take(0) =~= Seq::<char>::empty());
                assert(chunk.skip(0) =~= chunk);
            }
            String::new()
        } else {
            let n = if limit < blen {
                limit
            } else {
                blen
            };
            let out = self.buffer.as_str().substring_char(0, n).to_owned();
            let rest_text = self.buffer.as_str().substring_char(n, blen).to_owned();
            self.buffer = rest_text;
            proof {
                let tail = rendered_events(rest);
                assert(out@ =~= chunk.take(n as int));
                assert(self.buffer@ =~= chunk.skip(n as int));
                assert(out@ =~= (chunk + tail).take(n as int));
                assert(self.buffer@ + tail =~= (chunk + tail).skip(n as int));
                assert(old(self).remaining().len() > 0);
            }
            out
        }
    }

    /// Append everything still to be delivered to `buf`, leaving the
    /// stream exhausted, and report how many characters were appended.
    pub fn read_to_end(&mut self, buf: &mut String) -> (r: usize)
        requires
            old(self).wf(),
        ensures
            final(self).wf(),
            final(buf)@ == old(buf)@ + old(self).remaining(),
            final(self).buffered() == Seq::<char>::empty(),
            final(self).unrendered() == Seq::<Event>::empty(),
            final(self).remaining().len() == 0,
            r == old(self).remaining().len(),
    {
        let start = buf.unicode_len();
        buf.append(self.buffer.as_str());
        self.buffer = String::new();
        while self.pos < self.events.len()
            invariant
                self.wf(),
                self.buffer@.len() == 0,
                buf@ + rendered_events(self.events@.skip(self.pos as int)) == old(buf)@ + old(
                    self,
                ).remaining(),
            decreases self.events@.len() - self.pos,
        {
            let ghost p = self.pos as int;
            let ghost buf0 = buf@;
            let ev = &self.events[self.pos];
            ev.write_to(buf);
            self.pos = self.pos + 1;
            proof {
                lemma_rendered_events_skip(self.events@, p);
                assert(buf@ + rendered_events(self.events@.skip(p + 1)) =~= buf0
                    + rendered_events(self.events@.skip(p)));
            }
        }
        proof {
            assert(self.buffer@ =~= Seq::<char>::empty());
            assert(self.unrendered() =~= Seq::<Event>::empty());
            assert(rendered_events(Seq::<Event>::empty()) == Seq::<char>::empty());
            assert(buf@ =~= old(buf)@ + old(self).remaining());
            assert(self.remaining() =~= Seq::<char>::empty());
        }
        let end = buf.unicode_len();
        end - start
    }
}

} // verus!
