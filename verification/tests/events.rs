use hamlet::attribute::Attribute;
use hamlet::attribute_set::AttributeSet;
use hamlet::read::ReadHtml;
use hamlet::stream::HtmlStreamer;
use hamlet::write::HtmlWriter;
use hamlet::Event;

fn sample_events() -> Vec<Event> {
    vec![
        Event::start_tag(
            "h1",
            AttributeSet::new(vec![
                Attribute::new("id", "hello"),
                Attribute::new("class", "fun"),
            ]),
        ),
        Event::text("Hello, "),
        Event::raw_html(""),
        Event::start_tag("small", AttributeSet::empty()),
        Event::text("world"),
        Event::end_tag("small"),
        Event::start_tag("img", AttributeSet::new(vec![Attribute::new("src", "foo-link")]))
            .closed(),
        Event::end_tag("h1"),
    ]
}

const SAMPLE_HTML: &str =
    "<h1 id=\"hello\" class=\"fun\">Hello, <small>world</small><img src=\"foo-link\" /></h1>";

#[test]
fn read_test() {
    let events = sample_events();
    let mut result = String::new();
    let mut reader = ReadHtml::new(events);
    reader.read_to_end(&mut result);
    assert_eq!(result, SAMPLE_HTML);
}

#[test]
fn streamer_writes_everything() {
    let events = vec![
        Event::text("Hello, "),
        Event::start_tag("small", AttributeSet::empty()),
        Event::text("world!"),
        Event::end_tag("small"),
    ];
    let mut result = String::new();
    let n = HtmlStreamer::new(events).stream(&mut result);
    assert_eq!(result, "Hello, <small>world!</small>");
    assert_eq!(n, 0);
}

#[test]
fn writer_writes_everything() {
    let events = vec![
        Event::text("Hello, "),
        Event::start_tag("small", AttributeSet::empty()),
        Event::text("world!"),
        Event::end_tag("small"),
    ];
    let mut result = String::new();
    HtmlWriter::new(events).write_to(&mut result);
    assert_eq!(result, "Hello, <small>world!</small>");
}

#[test]
fn pull_reads_of_size_one_match_eager_output() {
    let mut eager = String::new();
    HtmlStreamer::new(sample_events()).stream(&mut eager);

    let mut reader = ReadHtml::new(sample_events());
    let mut pulled = String::new();
    loop {
        let chunk = reader.read(1);
        if chunk.is_empty() {
            break;
        }
        assert_eq!(chunk.chars().count(), 1);
        pulled.push_str(&chunk);
    }
    assert_eq!(pulled, eager);
    assert_eq!(pulled, SAMPLE_HTML);
    assert!(reader.read(1).is_empty());
    assert!(reader.read(64).is_empty());
}

#[test]
fn pull_reads_of_other_sizes_match_eager_output() {
    for size in [2usize, 3, 5, 7, 64] {
        let mut eager = String::new();
        HtmlStreamer::new(sample_events()).stream(&mut eager);
        let mut reader = ReadHtml::new(sample_events());
        let mut pulled = String::new();
        loop {
            let chunk = reader.read(size);
            if chunk.is_empty() {
                break;
            }
            assert!(chunk.chars().count() <= size);
            pulled.push_str(&chunk);
        }
        assert_eq!(pulled, eager);
    }
}

#[test]
fn read_on_empty_stream_returns_nothing() {
    let mut reader = ReadHtml::new(Vec::new());
    assert!(reader.read(8).is_empty());
    let mut out = String::new();
    assert_eq!(reader.read_to_end(&mut out), 0);
    assert_eq!(out, "");
}

#[test]
fn read_drains_one_rendering_at_a_time() {
    let mut reader = ReadHtml::new(sample_events());
    // nothing is pending, so the first event is rendered and drained whole,
    // even though the capacity would take more
    assert_eq!(reader.read(64), "<h1 id=\"hello\" class=\"fun\">");
    // a bounded read takes the front of the next rendering ...
    assert_eq!(reader.read(3), "Hel");
    // ... and the rest stays pending for the next call
    assert_eq!(reader.read(64), "lo, ");
    // an event that renders to nothing is consumed silently
    assert_eq!(reader.read(64), "<small>");
}

#[test]
fn read_to_end_after_partial_reads_loses_nothing() {
    let mut reader = ReadHtml::new(sample_events());
    let first = reader.read(3);
    assert_eq!(first, "<h1");
    let mut rest = String::new();
    reader.read_to_end(&mut rest);
    let whole = format!("{}{}", first, rest);
    assert_eq!(whole, SAMPLE_HTML);
}

#[test]
fn event_closed_is_a_no_op_off_start_tags() {
    assert!(matches!(Event::end_tag("p").closed(), Event::EndTag { .. }));
    let text = Event::text("hi").closed();
    match text {
        Event::Text(t) => assert_eq!(t, "hi"),
        _ => panic!("closed changed the event's kind"),
    }
}

#[test]
fn event_rendering_matches_token_grammar() {
    let mut out = String::new();
    Event::start_tag("br", AttributeSet::empty()).closed().write_to(&mut out);
    assert_eq!(out, "<br />");
    let mut out2 = String::new();
    Event::raw_html("<svg>").write_to(&mut out2);
    assert_eq!(out2, "<svg>");
    let mut out3 = String::new();
    Event::text("<svg>").write_to(&mut out3);
    assert_eq!(out3, "&lt;svg&gt;");
}
