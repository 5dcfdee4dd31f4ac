//! Event-level XML serialization of the resource types.  The library
//! builds the element structure as plain data — open an element, write
//! character data, close an element — and proves exactly which events each
//! value produces; the binary that links us renders the events with an
//! XML writer.

use vstd::prelude::*;

verus! {

/// One XML writer event.
#[derive(Debug, PartialEq, Eq)]
pub enum XmlEvent {
    /// Opens an element with the given name.
    Start(String),
    /// Writes character data inside the innermost open element.
    Text(String),
    /// Closes the innermost open element.
    End,
}

/// The mathematical content of one event.
pub enum XmlEventView {
    Start(Seq<char>),
    Text(Seq<char>),
    End,
}

impl View for XmlEvent {
    type V = XmlEventView;

    open spec fn view(&self) -> XmlEventView {
        match self {
            XmlEvent::Start(s) => XmlEventView::Start(s@),
            XmlEvent::Text(s) => XmlEventView::Text(s@),
            XmlEvent::End => XmlEventView::End,
        }
    }
}

/// The view of an event sequence.
pub open spec fn event_views(s: Seq<XmlEvent>) -> Seq<XmlEventView> {
    Seq::new(s.len(), |i: int| s[i]@)
}

/// An XML writer that records the events given to it, in order.
pub struct XmlWriter {
    pub events: Vec<XmlEvent>,
}

impl View for XmlWriter {
    type V = Seq<XmlEventView>;

    open spec fn view(&self) -> Seq<XmlEventView> {
        event_views(self.events@)
    }
}

/// The three events of a leaf element: open, text, close.
pub open spec fn spec_element(label: Seq<char>, content: Seq<char>) -> Seq<XmlEventView> {
    seq![XmlEventView::Start(label), XmlEventView::Text(content), XmlEventView::End]
}

/// The events of an optional string leaf element: nothing when absent.
pub open spec fn opt_string_element(label: Seq<char>, content: Option<String>) -> Seq<
    XmlEventView,
> {
    match content {
        Some(c) => spec_element(label, c@),
        None => Seq::empty(),
    }
}

/// The events of an optional boolean leaf element: nothing when absent.
pub open spec fn opt_bool_element(label: Seq<char>, content: Option<bool>) -> Seq<XmlEventView> {
    match content {
        Some(b) => spec_element(label, spec_bool_text(b)),
        None => Seq::empty(),
    }
}

/// Event-sequence concatenation is associative.
pub proof fn lemma_events_assoc(a: Seq<XmlEventView>, b: Seq<XmlEventView>, c: Seq<XmlEventView>)
    ensures
        (a + b) + c == a + (b + c),
{
    assert((a + b) + c =~= a + (b + c));
}

/// The text of a boolean, `"true"` or `"false"`.
pub open spec fn spec_bool_text(b: bool) -> Seq<char> {
    if b {
        "true"@
    } else {
        "false"@
    }
}

impl XmlWriter {
    /// A writer that has recorded nothing yet.
    pub fn new() -> (r: XmlWriter)
        ensures
            r@ == Seq::<XmlEventView>::empty(),
    {
        let r = XmlWriter { events: Vec::new() };
        proof {
            assert(r@ =~= Seq::<XmlEventView>::empty());
        }
        r
    }

    /// Records character data.
    pub fn write(&mut self, text: &str)
        ensures
            final(self)@ == old(self)@.push(XmlEventView::Text(text@)),
    {
        self.events.push(XmlEvent::Text(text.to_owned()));
        proof {
            assert(self@ =~= old(self)@.push(XmlEventView::Text(text@)));
        }
    }

    /// Opens an element.
    pub fn start_element(&mut self, element: &str)
        ensures
            final(self)@ == old(self)@.push(XmlEventView::Start(element@)),
    {
        self.events.push(XmlEvent::Start(element.to_owned()));
        proof {
            assert(self@ =~= old(self)@.push(XmlEventView::Start(element@)));
        }
    }

    /// Closes the innermost open element.
    pub fn end_element(&mut self)
        ensures
            final(self)@ == old(self)@.push(XmlEventView::End),
    {
        self.events.push(XmlEvent::End);
        proof {
            assert(self@ =~= old(self)@.push(XmlEventView::End));
        }
    }

    /// Records a leaf element holding the given text.
    pub fn element(&mut self, label: &str, content: &str)
        ensures
            final(self)@ == old(self)@ + spec_element(label@, content@),
    {
        self.start_element(label);
        self.write(content);
        self.end_element();
        proof {
            assert(self@ =~= old(self)@ + spec_element(label@, content@));
        }
    }

    /// Records a leaf element holding the given text, when it is present.
    pub fn element_opt(&mut self, label: &str, content: &Option<String>)
        ensures
            final(self)@ == old(self)@ + opt_string_element(label@, *content),
    {
        match content {
            Some(c) => {
                let text = c.clone();
                self.element(label, text.as_str());
            },
            None => {
                proof {
                    assert(self@ =~= old(self)@ + Seq::<XmlEventView>::empty());
                }
            },
        }
    }

    /// Records a leaf element holding `"true"` or `"false"`, when present.
    pub fn element_opt_bool(&mut self, label: &str, content: &Option<bool>)
        ensures
            final(self)@ == old(self)@ + opt_bool_element(label@, *content),
    {
        match content {
            Some(b) => {
                if *b {
                    self.element(label, "true");
                } else {
                    self.element(label, "false");
                }
            },
            None => {
                proof {
                    assert(self@ =~= old(self)@ + Seq::<XmlEventView>::empty());
                }
            },
        }
    }
}

} // verus!
