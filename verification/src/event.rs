//! Structural events for streaming an HTML document.
//!
//! An `Event` is one unit of a forward-only document stream: a start tag
//! with its attributes, an end tag, escaped text, or raw markup.  The
//! serializers in `stream`, `write` and `read` consume sequences of
//! events.

use crate::attribute::attr_pairs;
use crate::attribute_set::AttributeSet;
use crate::escape::escaped;
use crate::escape::Escaped;
use crate::fmt::lemma_rendered_attr_list_push;
use crate::fmt::rendered_attr_list;
use vstd::prelude::*;

verus! {

/// One structural event of an HTML document stream.
#[derive(Clone, Debug)]
pub enum Event {
    /// A start tag with its attributes.
    StartTag {
        /// The element's tag name, written verbatim.
        name: String,
        /// The attributes, written in order.
        attrs: AttributeSet,
        /// Marker indicating self-closing tags such as `<br />`.
        self_closing: bool,
    },
    /// An end tag.
    EndTag {
        /// The element's tag name, written verbatim.
        name: String,
    },
    /// Text, escaped when written.
    Text(String),
    /// Markup written as-is; the caller guarantees it is safe.
    RawHtml(String),
}

/// The exact text one event renders to.
pub open spec fn rendered_event(e: Event) -> Seq<char> {
    match e {
        Event::StartTag { name, attrs, self_closing } => "<"@ + name@ + rendered_attr_list(
            attr_pairs(attrs.attrs@),
        ) + (if self_closing {
            " />"@
        } else {
            ">"@
        }),
        Event::EndTag { name } => "</"@ + name@ + ">"@,
        Event::Text(text) => escaped(text@),
        Event::RawHtml(html) => html@,
    }
}

/// The text a whole sequence of events renders to, in order.
pub open spec fn rendered_events(evs: Seq<Event>) -> Seq<char>
    decreases evs.len(),
{
    if evs.len() == 0 {
        Seq::empty()
    } else {
        rendered_event(evs[0]) + rendered_events(evs.drop_first())
    }
}

/// Rendering from position `i` on is the event at `i` followed by the
/// rendering from `i + 1` on.
pub proof fn lemma_rendered_events_skip(evs: Seq<Event>, i: int)
    requires
        0 <= i < evs.len(),
    ensures
        rendered_events(evs.skip(i)) == rendered_event(evs[i]) + rendered_events(evs.skip(i + 1)),
{
    assert(evs.skip(i).drop_first() =~= evs.skip(i + 1));
    assert(evs.skip(i)[0] == evs[i]);
}

/// Rendering a sequence extended by one event appends that event's text.
pub proof fn lemma_rendered_events_push(evs: Seq<Event>, e: Event)
    ensures
        rendered_events(evs.push(e)) == rendered_events(evs) + rendered_event(e),
    decreases evs.len(),
{
    if evs.len() == 0 {
        assert(evs.push(e).drop_first() =~= Seq::<Event>::empty());
        assert(rendered_events(Seq::<Event>::empty()) == Seq::<char>::empty());
        assert(evs.push(e)[0] == e);
        assert(rendered_events(evs.push(e)) =~= rendered_events(evs) + rendered_event(e));
    } else {
        assert(evs.push(e).drop_first() =~= evs.drop_first().push(e));
        lemma_rendered_events_push(evs.drop_first(), e);
        assert(evs.push(e)[0] == evs[0]);
        assert(rendered_events(evs.push(e)) =~= rendered_events(evs) + rendered_event(e));
    }
}

impl Event {
    /// Create a `StartTag` event with the given element name and
    /// attributes; use `closed()` to set the `self_closing` flag.
    pub fn start_tag(name: &str, attrs: AttributeSet) -> (r: Event)
        ensures
            r matches Event::StartTag { name: n, attrs: a, self_closing: sc } && n@ == name@ && a
                == attrs && sc == false,
    {
        Event::StartTag { name: name.to_owned(), attrs, self_closing: false }
    }

    /// Create an `EndTag` event with the given element name.
    pub fn end_tag(name: &str) -> (r: Event)
        ensures
            r matches Event::EndTag { name: n } && n@ == name@,
    {
        Event::EndTag { name: name.to_owned() }
    }

    /// Create a `Text` event with the given text content.
    pub fn text(s: &str) -> (r: Event)
        ensures
            r matches Event::Text(t) && t@ == s@,
    {
        Event::Text(s.to_owned())
    }

    /// Create a `RawHtml` event with the given markup.
    pub fn raw_html(s: &str) -> (r: Event)
        ensures
            r matches Event::RawHtml(t) && t@ == s@,
    {
        Event::RawHtml(s.to_owned())
    }

    /// If `self` is a `StartTag`, the same event with `self_closing` set
    /// to `true`; any other event is handed back unchanged.
    pub fn closed(self) -> (r: Event)
        ensures
            self matches Event::StartTag { name, attrs, self_closing } ==> r == (Event::StartTag {
                name,
                attrs,
                self_closing: true,
            }),
            !(self matches Event::StartTag { .. }) ==> r == self,
    {
        if let Event::StartTag { name, attrs, .. } = self {
            Event::StartTag { name, attrs, self_closing: true }
        } else {
            self
        }
    }

    /// Append this event's rendered text to `w`.
    pub fn write_to(&self, w: &mut String)
        ensures
            final(w)@ == old(w)@ + rendered_event(*self),
    {
        match self {
            Event::StartTag { name, attrs, self_closing } => {
                w.append("<");
                w.append(name.as_str());
                let n = attrs.attrs.len();
                let mut i: usize = 0;
                while i < n
                    invariant
                        n == attrs.attrs@.len(),
                        i <= n,
                        w@ == old(w)@ + "<"@ + name@ + rendered_attr_list(
                            attr_pairs(attrs.attrs@.take(i as int)),
                        ),
                    decreases n - i,
                {
                    let a = &attrs.attrs[i];
                    w.append(" ");
                    a.write_to(w);
                    proof {
                        let p = (attrs.attrs@[i as int].name@, attrs.attrs@[i as int].value@);
                        assert(attr_pairs(attrs.attrs@.take(i as int + 1)) =~= attr_pairs(
                            attrs.attrs@.take(i as int),
                        ).push(p));
                        lemma_rendered_attr_list_push(attr_pairs(attrs.attrs@.take(i as int)), p);
                        assert(w@ =~= old(w)@ + "<"@ + name@ + rendered_attr_list(
                            attr_pairs(attrs.attrs@.take(i as int + 1)),
                        ));
                    }
                    i = i + 1;
                }
                proof {
                    assert(attrs.attrs@.take(n as int) =~= attrs.attrs@);
                }
                if *self_closing {
                    w.append(" />");
                } else {
                    w.append(">");
                }
                proof {
                    assert(w@ =~= old(w)@ + rendered_event(*self));
                }
            },
            Event::EndTag { name } => {
                w.append("</");
                w.append(name.as_str());
                w.append(">");
                proof {
                    assert(w@ =~= old(w)@ + rendered_event(*self));
                }
            },
            Event::Text(text) => {
                Escaped(text.as_str()).write_to(w);
            },
            Event::RawHtml(html) => {
                w.append(html.as_str());
            },
        }
    }
}

} // verus!
