//! One task of the list: its text, whether it is done, and its line in the
//! checklist file and on screen.
use crate::style::{blue, blue_code, paint, painted, yellow, yellow_code};
use crate::text::{after_prefix, contains, occurs_at, contains_text, dec, decimal, strip_prefix};
use std::cmp::Ordering;
use std::collections::hash_map::DefaultHasher;
use std::hash::{BuildHasher, BuildHasherDefault};
use vstd::prelude::*;

verus! {

/// What the standard library's default hasher gives for a text.
pub uninterp spec fn fingerprint_of(s: Seq<char>) -> u64;

/// Relies on `BuildHasher::hash_one` with the default hasher built by
/// `BuildHasherDefault<DefaultHasher>`: a fixed-key hash of the text.
#[verifier::external_body]
fn fingerprint(s: &String) -> (r: u64)
    ensures
        r == fingerprint_of(s@),
{
    BuildHasherDefault::<DefaultHasher>::default().hash_one(s)
}

#[derive(PartialEq, Eq, Structural, Clone, Copy, Debug)]
pub enum State {
    Todo,
    Done,
}

pub struct Item {
    pub description: String,
    pub state: State,
    pub hash: u64,
}

/// An item as shown on screen: its 1-based position, its coloured text and what
/// follows it.
pub struct Line {
    pub index: usize,
    pub string: String,
    pub suffix: Option<String>,
}

/// `"- [ ] "`, the mark of an open item in the checklist file.
pub open spec fn open_mark() -> Seq<char> {
    seq!['-', ' ', '[', ' ', ']', ' ']
}

/// `"- [x] "`, the mark of a finished item in the checklist file.
pub open spec fn done_mark() -> Seq<char> {
    seq!['-', ' ', '[', 'x', ']', ' ']
}

/// `"- [ ]"`: a line holding this anywhere is read as an open item.
pub open spec fn open_box() -> Seq<char> {
    seq!['-', ' ', '[', ' ', ']']
}

/// `" (done)"`, shown after a finished item.
pub open spec fn done_suffix() -> Seq<char> {
    seq![' ', '(', 'd', 'o', 'n', 'e', ')']
}

pub open spec fn mark_of(state: State) -> Seq<char> {
    match state {
        State::Todo => open_mark(),
        State::Done => done_mark(),
    }
}

pub open spec fn colour_of(state: State) -> Seq<char> {
    match state {
        State::Todo => yellow_code(),
        State::Done => blue_code(),
    }
}

pub open spec fn suffix_of(state: State) -> Seq<char> {
    match state {
        State::Todo => Seq::empty(),
        State::Done => done_suffix(),
    }
}

/// The other state.
pub open spec fn flipped(state: State) -> State {
    match state {
        State::Todo => State::Done,
        State::Done => State::Todo,
    }
}

/// The line that stands for an item in the checklist file.
pub open spec fn file_line(desc: Seq<char>, state: State) -> Seq<char> {
    mark_of(state) + desc
}

/// The state read from a line of the checklist file.
pub open spec fn parsed_state(line: Seq<char>) -> State {
    if contains(line, open_box()) {
        State::Todo
    } else {
        State::Done
    }
}

/// The text read from a line of the checklist file: the line without its mark, or
/// nothing where the mark is missing.
pub open spec fn parsed_description(line: Seq<char>) -> Seq<char> {
    match after_prefix(line, mark_of(parsed_state(line))) {
        Some(t) => t,
        None => Seq::empty(),
    }
}

/// The item at 0-based position `pos` as shown on screen, with colours on or off.
pub open spec fn shown_line(desc: Seq<char>, state: State, pos: nat, on: bool) -> Seq<char> {
    dec(pos + 1) + seq![' '] + paint(desc, colour_of(state), on) + suffix_of(state)
}

/// Reading back the file line of an item gives its text and state again, unless a
/// finished item's text holds `"- [ ]"`, which would read as an open item.
pub proof fn lemma_parse_round_trip(desc: Seq<char>, state: State)
    requires
        state == State::Done ==> !contains(desc, open_box()),
    ensures
        parsed_state(file_line(desc, state)) == state,
        parsed_description(file_line(desc, state)) == desc,
{
    let line = file_line(desc, state);
    match state {
        State::Todo => {
            assert(line.subrange(0, 5) =~= open_box());
            assert(occurs_at(line, open_box(), 0));
            assert(line.subrange(6, line.len() as int) =~= desc);
            assert(line.subrange(0, 6) =~= open_mark());
        },
        State::Done => {
            assert forall|i: int| !occurs_at(line, open_box(), i) by {
                if occurs_at(line, open_box(), i) {
                    let w = line.subrange(i, i + 5);
                    if i >= 6 {
                        assert(desc.subrange(i - 6, i - 6 + 5) =~= w);
                        assert(occurs_at(desc, open_box(), i - 6));
                    } else if i == 0 {
                        assert(w[3] == open_box()[3]);
                    } else {
                        assert(w[0] == open_box()[0]);
                    }
                }
            }
            assert(line.subrange(6, line.len() as int) =~= desc);
            assert(line.subrange(0, 6) =~= done_mark());
        },
    }
}

/// Toggles between the two states.
pub fn flip(state: State) -> (r: State)
    ensures
        r == flipped(state),
{
    match state {
        State::Todo => State::Done,
        State::Done => State::Todo,
    }
}

impl Item {
    /// An open item with this text.
    pub fn new(description: String) -> (r: Item)
        ensures
            r.description@ == description@,
            r.state == State::Todo,
            r.hash == fingerprint_of(description@),
    {
        let hash = fingerprint(&description);
        Item { description, state: State::Todo, hash }
    }

    /// Reads an item from a line of the checklist file.
    pub fn parse(string: &str) -> (r: Item)
        ensures
            r.description@ == parsed_description(string@),
            r.state == parsed_state(string@),
            r.hash == fingerprint_of(r.description@),
    {
        proof {
            reveal_strlit("- [ ]");
            reveal_strlit("- [ ] ");
            reveal_strlit("- [x] ");
        }
        if contains_text(string, "- [ ]") {
            let stripped = match strip_prefix(string, "- [ ] ") {
                Some(t) => t,
                None => String::new(),
            };
            assert("- [ ]"@ == open_box());
            assert("- [ ] "@ == open_mark());
            Item::new(stripped)
        } else {
            let stripped = match strip_prefix(string, "- [x] ") {
                Some(t) => t,
                None => String::new(),
            };
            assert("- [ ]"@ == open_box());
            assert("- [x] "@ == done_mark());
            let mut item = Item::new(stripped);
            item.state = State::Done;
            item
        }
    }

    /// The item as shown on screen at 0-based position `index`.
    pub fn to_line(&self, index: usize) -> (r: Line)
        requires
            index < usize::MAX,
        ensures
            r.index == index + 1,
            painted(r.string@, self.description@, colour_of(self.state)),
            r.suffix matches Some(s) ==> s@ == done_suffix(),
            r.suffix is Some <==> self.state == State::Done,
    {
        let string = if self.state == State::Done {
            blue(self.description.as_str())
        } else {
            yellow(self.description.as_str())
        };
        let suffix = if self.state == State::Done {
            proof {
                reveal_strlit(" (done)");
            }
            assert(" (done)"@ == done_suffix());
            Some(String::from_str(" (done)"))
        } else {
            None
        };
        Line { index: index + 1, string, suffix }
    }

    /// The item's line in the checklist file.
    pub fn to_string(&self) -> (r: String)
        ensures
            r@ == file_line(self.description@, self.state),
    {
        proof {
            reveal_strlit("- [ ] ");
            reveal_strlit("- [x] ");
        }
        match &self.state {
            State::Todo => {
                assert("- [ ] "@ == open_mark());
                String::from_str("- [ ] ").concat(self.description.as_str())
            },
            State::Done => {
                assert("- [x] "@ == done_mark());
                String::from_str("- [x] ").concat(self.description.as_str())
            },
        }
    }
}

impl Line {
    /// The on-screen text of the line: position, a space, the text, the suffix.
    pub fn into_text(self) -> (r: String)
        ensures
            r@ == dec(self.index as nat) + seq![' '] + self.string@ + match self.suffix {
                Some(s) => s@,
                None => Seq::empty(),
            },
    {
        let mut string = decimal(self.index);
        proof {
            reveal_strlit(" ");
        }
        string.append(" ");
        string.append(self.string.as_str());
        match self.suffix {
            Some(suffix) => {
                string.append(suffix.as_str());
                string
            },
            None => string,
        }
    }
}

/// Two items are equal when their texts are.
impl PartialEq for Item {
    fn eq(&self, other: &Item) -> (r: bool)
        ensures
            r == (self.description@ == other.description@),
    {
        self.description == other.description
    }
}

impl vstd::std_specs::cmp::PartialEqSpecImpl for Item {
    open spec fn obeys_eq_spec() -> bool {
        true
    }

    open spec fn eq_spec(&self, other: &Item) -> bool {
        self.description@ == other.description@
    }
}

impl Eq for Item {

}

/// The order of two texts character by character, a proper prefix first; the
/// order of `String`, as UTF-8 keeps the order of code points.
pub open spec fn text_order(a: Seq<char>, b: Seq<char>) -> Ordering
    decreases a.len(),
{
    if a.len() == 0 && b.len() == 0 {
        Ordering::Equal
    } else if a.len() == 0 {
        Ordering::Less
    } else if b.len() == 0 {
        Ordering::Greater
    } else if (a[0] as u32) < (b[0] as u32) {
        Ordering::Less
    } else if (a[0] as u32) > (b[0] as u32) {
        Ordering::Greater
    } else {
        text_order(a.drop_first(), b.drop_first())
    }
}

/// Compares two texts in `text_order`.
pub fn compare_text(a: &str, b: &str) -> (r: Ordering)
    ensures
        r == text_order(a@, b@),
{
    let n = a.unicode_len();
    let m = b.unicode_len();
    let mut i: usize = 0;
    assert(a@.subrange(0, n as int) =~= a@ && b@.subrange(0, m as int) =~= b@);
    while i < n && i < m
        invariant
            n == a@.len(),
            m == b@.len(),
            i <= n,
            i <= m,
            text_order(a@, b@) == text_order(
                a@.subrange(i as int, n as int),
                b@.subrange(i as int, m as int),
            ),
        decreases n - i,
    {
        let x = a.get_char(i) as u32;
        let y = b.get_char(i) as u32;
        let ghost sa = a@.subrange(i as int, n as int);
        let ghost sb = b@.subrange(i as int, m as int);
        assert(sa[0] == a@[i as int] && sb[0] == b@[i as int]);
        if x < y {
            return Ordering::Less;
        }
        if x > y {
            return Ordering::Greater;
        }
        assert(sa.drop_first() =~= a@.subrange(i + 1, n as int));
        assert(sb.drop_first() =~= b@.subrange(i + 1, m as int));
        i = i + 1;
    }
    if i == n && i == m {
        Ordering::Equal
    } else if i == n {
        Ordering::Less
    } else {
        Ordering::Greater
    }
}

/// Items are ordered by their texts.
impl PartialOrd for Item {
    fn partial_cmp(&self, other: &Item) -> (r: Option<Ordering>)
        ensures
            r == Some(text_order(self.description@, other.description@)),
    {
        Some(compare_text(self.description.as_str(), other.description.as_str()))
    }
}

impl vstd::std_specs::cmp::PartialOrdSpecImpl for Item {
    open spec fn obeys_partial_cmp_spec() -> bool {
        true
    }

    open spec fn partial_cmp_spec(&self, other: &Item) -> Option<Ordering> {
        Some(text_order(self.description@, other.description@))
    }
}

} // verus!
