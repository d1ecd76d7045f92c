//! Messages of the binary EventStream protocol, after framing.

use crate::text::text_eq;
use bytes::Bytes;
use vstd::map::*;
use vstd::prelude::*;

verus! {

/// The value of one message header.
#[derive(Debug, Clone, PartialEq, Eq)]
pub enum StreamHeaderValue {
    /// A text value.
    String(String),
    /// A binary value.
    Bytes(Bytes),
}

/// The headers of a message: at most one value for each name.
#[derive(Debug)]
pub struct MessageHeaders {
    entries: Vec<(String, StreamHeaderValue)>,
}

/// The position of `name` among `entries`.
spec fn is_at(entries: Seq<(String, StreamHeaderValue)>, name: Seq<char>, i: int) -> bool {
    0 <= i < entries.len() && entries[i].0@ == name
}

spec fn names_differ(entries: Seq<(String, StreamHeaderValue)>) -> bool {
    forall|i: int, j: int|
        0 <= i < j < entries.len() ==> #[trigger] entries[i].0@ != #[trigger] entries[j].0@
}

spec fn as_map(entries: Seq<(String, StreamHeaderValue)>) -> Map<Seq<char>, StreamHeaderValue> {
    Map::new(
        |name: Seq<char>| exists|i: int| is_at(entries, name, i),
        |name: Seq<char>| entries[choose|i: int| is_at(entries, name, i)].1,
    )
}

impl View for MessageHeaders {
    type V = Map<Seq<char>, StreamHeaderValue>;

    closed spec fn view(&self) -> Map<Seq<char>, StreamHeaderValue> {
        as_map(self.entries@)
    }
}

impl MessageHeaders {
    #[verifier::type_invariant]
    spec fn well_formed(self) -> bool {
        names_differ(self.entries@)
    }

    /// No headers.
    pub fn new() -> (r: Self)
        ensures
            r@ == Map::<Seq<char>, StreamHeaderValue>::empty(),
    {
        let r = MessageHeaders { entries: Vec::new() };
        assert forall|name: Seq<char>| !r@.contains_key(name) by {
            assert(forall|i: int| !is_at(r.entries@, name, i));
        }
        assert(r@ =~= Map::<Seq<char>, StreamHeaderValue>::empty());
        r
    }

    /// The value of the header `name`.
    pub fn get(&self, name: &str) -> (r: Option<&StreamHeaderValue>)
        ensures
            match r {
                Some(value) => self@.contains_key(name@) && *value == self@[name@],
                None => !self@.contains_key(name@),
            },
    {
        proof {
            use_type_invariant(self);
        }
        let mut i: usize = 0;
        while i < self.entries.len()
            invariant
                i <= self.entries.len(),
                names_differ(self.entries@),
                forall|j: int| 0 <= j < i ==> (#[trigger] self.entries@[j]).0@ != name@,
            decreases self.entries.len() - i,
        {
            if text_eq(self.entries[i].0.as_str(), name) {
                proof {
                    assert(is_at(self.entries@, name@, i as int));
                    let j = choose|j: int| is_at(self.entries@, name@, j);
                    assert(self.entries@[j].0@ == self.entries@[i as int].0@);
                }
                return Some(&self.entries[i].1);
            }
            i += 1;
        }
        assert(forall|j: int| !is_at(self.entries@, name@, j));
        None
    }

    /// Gives the header `name` the value `value`, in place of any that it had.
    pub fn insert(&mut self, name: String, value: StreamHeaderValue)
        ensures
            final(self)@ == old(self)@.insert(name@, value),
    {
        proof {
            use_type_invariant(&*self);
        }
        let ghost before = self.entries@;
        let mut rest: Vec<(String, StreamHeaderValue)> = Vec::new();
        std::mem::swap(&mut rest, &mut self.entries);
        let mut i: usize = 0;
        while i < rest.len() && !text_eq(rest[i].0.as_str(), name.as_str())
            invariant
                i <= rest.len(),
                rest@ == before,
                forall|j: int| 0 <= j < i ==> (#[trigger] rest@[j]).0@ != name@,
            decreases rest.len() - i,
        {
            i += 1;
        }
        if i < rest.len() {
            rest.set(i, (name, value));
        } else {
            rest.push((name, value));
        }
        let ghost after = rest@;
        proof {
            assert(names_differ(after));
            assert(is_at(after, name@, i as int));
            assert_maps_equal!(as_map(after), as_map(before).insert(name@, value), k => {
                if k == name@ {
                    let m = choose|m: int| is_at(after, k, m);
                    assert(after[m].0@ == after[i as int].0@);
                } else {
                    if as_map(before).contains_key(k) {
                        let j = choose|j: int| is_at(before, k, j);
                        assert(is_at(after, k, j));
                        let m = choose|m: int| is_at(after, k, m);
                        assert(after[j].0@ == after[m].0@);
                    }
                    if as_map(after).contains_key(k) {
                        let j = choose|j: int| is_at(after, k, j);
                        assert(is_at(before, k, j));
                    }
                }
            });
        }
        self.entries = rest;
    }
}

/// One message of a stream.
#[derive(Debug)]
pub struct EventStreamMessage {
    /// The headers.
    pub headers: MessageHeaders,
    /// The payload.
    pub payload: Bytes,
}

/// The text of the header `name`, where it has one and it is text.
pub open spec fn text_header(headers: Map<Seq<char>, StreamHeaderValue>, name: Seq<char>) -> Option<
    Seq<char>,
> {
    if headers.contains_key(name) {
        match headers[name] {
            StreamHeaderValue::String(s) => Some(s@),
            StreamHeaderValue::Bytes(_) => None,
        }
    } else {
        None
    }
}

impl EventStreamMessage {
    /// What [`Self::message_type`] returns.
    pub open spec fn message_type_text(&self) -> Option<Seq<char>> {
        text_header(self.headers@, ":message-type"@)
    }

    /// What [`Self::event_type`] returns.
    pub open spec fn event_type_text(&self) -> Option<Seq<char>> {
        text_header(self.headers@, ":event-type"@)
    }

    fn text_of(&self, name: &str) -> (r: Option<&str>)
        ensures
            match r {
                Some(s) => text_header(self.headers@, name@) == Some(s@),
                None => text_header(self.headers@, name@) is None,
            },
    {
        match self.headers.get(name) {
            Some(StreamHeaderValue::String(s)) => Some(s.as_str()),
            _ => None,
        }
    }

    /// The `:message-type` header, where it is text.
    pub fn message_type(&self) -> (r: Option<&str>)
        ensures
            match r {
                Some(s) => self.message_type_text() == Some(s@),
                None => self.message_type_text() is None,
            },
    {
        self.text_of(":message-type")
    }

    /// The `:event-type` header, where it is text.
    pub fn event_type(&self) -> (r: Option<&str>)
        ensures
            match r {
                Some(s) => self.event_type_text() == Some(s@),
                None => self.event_type_text() is None,
            },
    {
        self.text_of(":event-type")
    }
}

/// The type and the event type of a message are the texts of its headers
/// `:message-type` and `:event-type`; a header that is not there, or that is
/// binary, gives none, and no other header plays a part.
pub proof fn law_types_are_headers(message: EventStreamMessage, text: String, binary: Bytes)
    ensures
        ({
            let headers = message.headers@;
            let name = ":message-type"@;
            &&& !headers.contains_key(name) ==> message.message_type_text() is None
            &&& headers.contains_key(name) && headers[name] == StreamHeaderValue::String(text)
                ==> message.message_type_text() == Some(text@)
            &&& headers.contains_key(name) && headers[name] == StreamHeaderValue::Bytes(binary)
                ==> message.message_type_text() is None
        }),
        ({
            let headers = message.headers@;
            let name = ":event-type"@;
            &&& !headers.contains_key(name) ==> message.event_type_text() is None
            &&& headers.contains_key(name) && headers[name] == StreamHeaderValue::String(text)
                ==> message.event_type_text() == Some(text@)
            &&& headers.contains_key(name) && headers[name] == StreamHeaderValue::Bytes(binary)
                ==> message.event_type_text() is None
        }),
{
}

} // verus!
