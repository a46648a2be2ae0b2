//! Request headers as the handlers read them.

use vstd::prelude::*;
use vstd::string::*;

use crate::text::same;

verus! {

/// A header: its name in lower case, and its value where that is plain text.
#[derive(Debug, PartialEq, Eq)]
pub struct Header {
    pub name: String,
    pub value: Option<String>,
}

/// The headers of a request, in the order in which they came.
#[derive(Debug, PartialEq, Eq)]
pub struct Headers {
    pub entries: Vec<Header>,
}

pub open spec fn header_view(header: Header) -> (Seq<char>, Option<Seq<char>>) {
    (
        header.name@,
        match header.value {
            Some(v) => Some(v@),
            None => None,
        },
    )
}

impl View for Headers {
    type V = Seq<(Seq<char>, Option<Seq<char>>)>;

    open spec fn view(&self) -> Seq<(Seq<char>, Option<Seq<char>>)> {
        self.entries@.map_values(|h: Header| header_view(h))
    }
}

/// Whether there is a header of that name.
pub open spec fn has_header(
    headers: Seq<(Seq<char>, Option<Seq<char>>)>,
    name: Seq<char>,
) -> bool {
    exists|i: int| 0 <= i < headers.len() && #[trigger] headers[i].0 == name
}

/// The value of the first header of that name, where it is plain text.
pub open spec fn header_text(
    headers: Seq<(Seq<char>, Option<Seq<char>>)>,
    name: Seq<char>,
) -> Option<Seq<char>>
    decreases headers.len(),
{
    if headers.len() == 0 {
        None
    } else if headers[0].0 == name {
        headers[0].1
    } else {
        header_text(headers.skip(1), name)
    }
}

impl Headers {
    /// The position of the first header of that name.
    fn position(&self, name: &str) -> (r: Option<usize>)
        ensures
            match r {
                Some(i) => i < self@.len() && self@[i as int].0 == name@ && header_text(self@, name@)
                    == self@[i as int].1,
                None => !has_header(self@, name@) && header_text(self@, name@) is None,
            },
    {
        let mut i: usize = 0;
        proof {
            assert(self@.skip(0) =~= self@);
        }
        while i < self.entries.len()
            invariant
                i <= self.entries@.len(),
                self@.len() == self.entries@.len(),
                header_text(self@, name@) == header_text(self@.skip(i as int), name@),
                forall|j: int| 0 <= j < i ==> #[trigger] self@[j].0 != name@,
            decreases self.entries@.len() - i,
        {
            assert(self@[i as int] == header_view(self.entries@[i as int]));
            if same(self.entries[i].name.as_str(), name) {
                return Some(i);
            }
            assert(self@.skip(i as int).skip(1) =~= self@.skip(i + 1));
            i = i + 1;
        }
        None
    }

    /// Tells whether there is a header of that name.
    pub fn contains(&self, name: &str) -> (r: bool)
        ensures
            r == has_header(self@, name@),
    {
        match self.position(name) {
            Some(i) => {
                assert(self@[i as int].0 == name@);
                true
            },
            None => false,
        }
    }

    /// The value of the first header of that name, where it is plain text.
    pub fn get(&self, name: &str) -> (r: Option<&str>)
        ensures
            match r {
                Some(v) => header_text(self@, name@) == Some(v@),
                None => header_text(self@, name@) is None,
            },
    {
        match self.position(name) {
            Some(i) => {
                assert(self@[i as int] == header_view(self.entries@[i as int]));
                match &self.entries[i].value {
                    Some(v) => Some(v.as_str()),
                    None => None,
                }
            },
            None => None,
        }
    }
}

/// A character that can stand in a header value.
pub open spec fn header_char(c: char) -> bool {
    (' ' <= c && c != '\u{7f}') || c == '\t'
}

/// A text that can be sent as a header value.
pub open spec fn is_header_value(s: Seq<char>) -> bool {
    forall|i: int| 0 <= i < s.len() ==> header_char(#[trigger] s[i])
}

/// Tells whether a text can be sent as a header value.
pub fn valid_header_value(s: &str) -> (r: bool)
    ensures
        r == is_header_value(s@),
{
    for c in it: s.chars()
        invariant
            it.seq() == s@,
            forall|i: int| 0 <= i < it.index() ==> header_char(#[trigger] s@[i]),
    {
        if !((' ' <= c && c != '\u{7f}') || c == '\t') {
            assert(!header_char(s@[it.index()]));
            return false;
        }
    }
    true
}

/// A header is read by its name: the first of that name counts, whatever other headers stand before
/// it and whatever comes behind it. Where there is none of that name, nothing is read.
pub proof fn first_header_of_a_name_counts(
    before: Seq<(Seq<char>, Option<Seq<char>>)>,
    name: Seq<char>,
    value: Option<Seq<char>>,
    after: Seq<(Seq<char>, Option<Seq<char>>)>,
)
    requires
        forall|i: int| 0 <= i < before.len() ==> (#[trigger] before[i]).0 != name,
    ensures
        header_text(before.push((name, value)) + after, name) == value,
        has_header(before.push((name, value)) + after, name),
        header_text(before, name) is None,
        !has_header(before, name),
    decreases before.len(),
{
    let all = before.push((name, value)) + after;
    assert(all[before.len() as int].0 == name);
    if before.len() > 0 {
        let rest = before.skip(1);
        assert forall|i: int| 0 <= i < rest.len() implies (#[trigger] rest[i]).0 != name by {
            assert(rest[i] == before[i + 1]);
        }
        first_header_of_a_name_counts(rest, name, value, after);
        assert(all[0] == before[0]);
        assert(all.skip(1) =~= rest.push((name, value)) + after);
    }
}

/// A header that can be read is there.
pub proof fn read_headers_are_there(headers: Seq<(Seq<char>, Option<Seq<char>>)>, name: Seq<char>)
    ensures
        header_text(headers, name) matches Some(value) ==> headers.contains((name, Some(value)))
            && has_header(headers, name),
    decreases headers.len(),
{
    if headers.len() > 0 {
        if headers[0].0 == name {
            assert(headers.contains(headers[0]));
        } else {
            let rest = headers.skip(1);
            read_headers_are_there(rest, name);
            if header_text(headers, name) is Some {
                let item = (name, header_text(headers, name));
                let i = choose|i: int| 0 <= i < rest.len() && rest[i] == item;
                assert(headers[i + 1] == item);
                assert(headers[i + 1].0 == name);
            }
        }
    }
}

/// A text without control characters can be sent as a header value, and so can a tab; a line end, an
/// end of text and a delete cannot.
pub proof fn control_characters_cannot_be_sent(c: char)
    ensures
        header_char(c) == ((c as u32 >= 32 && c as u32 != 127) || c as u32 == 9),
{
}

} // verus!
