//! The outcome of one command: what kind it is, the text to show, and the
//! checklist file contents to write first, if any.
use crate::item::{file_line, shown_line, Item};
use crate::style::{blue, blue_code, paint, painted, red, red_code, yellow, yellow_code};
use vstd::prelude::*;

verus! {

#[derive(PartialEq, Eq, Structural, Clone, Copy, Debug)]
pub enum ResponseType {
    Exit,
    Continue,
    Error,
}

pub struct Output {
    pub kind: ResponseType,
    pub value: String,
    /// The checklist file contents to write, in full, before `value` is shown.
    pub persist: Option<String>,
}

/// The list on screen, one line per item, each line with colours on or off as
/// `flags` says.
pub open spec fn list_text(items: Seq<Item>, flags: Seq<bool>) -> Seq<char>
    decreases items.len(),
{
    if items.len() == 0 || flags.len() == 0 {
        Seq::empty()
    } else {
        let k = (items.len() - 1) as nat;
        list_text(items.drop_last(), flags.drop_last()) + shown_line(
            items.last().description@,
            items.last().state,
            k,
            flags.last(),
        ) + seq!['\n']
    }
}

/// `t` shows the list.
pub open spec fn shows_list(t: Seq<char>, items: Seq<Item>) -> bool {
    exists|flags: Seq<bool>| flags.len() == items.len() && t == list_text(items, flags)
}

/// `t` shows the list, then the message in red.
pub open spec fn shows_error(t: Seq<char>, items: Seq<Item>, msg: Seq<char>) -> bool {
    exists|flags: Seq<bool>, on: bool|
        flags.len() == items.len() && t == list_text(items, flags) + paint(msg, red_code(), on)
}

/// The checklist file for the list: each item's line, each followed by a newline.
pub open spec fn file_text(items: Seq<Item>) -> Seq<char>
    decreases items.len(),
{
    if items.len() == 0 {
        Seq::empty()
    } else {
        file_text(items.drop_last()) + file_line(items.last().description@, items.last().state)
            + seq!['\n']
    }
}

/// `"wrote list to TODO.md"`, shown after the list is saved.
pub open spec fn saved_note() -> Seq<char> {
    seq![
        'w', 'r', 'o', 't', 'e', ' ', 'l', 'i', 's', 't', ' ', 't', 'o', ' ', 'T', 'O', 'D', 'O',
        '.', 'm', 'd',
    ]
}

/// The list on screen.
pub fn render_list(list: &Vec<Item>) -> (r: String)
    ensures
        shows_list(r@, list@),
{
    let mut string = String::new();
    let mut i: usize = 0;
    let ghost mut flags: Seq<bool> = Seq::empty();
    while i < list.len()
        invariant
            i <= list@.len(),
            flags.len() == i,
            string@ == list_text(list@.subrange(0, i as int), flags),
        decreases list@.len() - i,
    {
        let line = list[i].to_line(i);
        let ghost on = line.string@ == paint(list@[i as int].description@, crate::item::colour_of(list@[i as int].state), true);
        let text = line.into_text();
        string.append(text.as_str());
        proof {
            reveal_strlit("\n");
        }
        string.append("\n");
        proof {
            let next = list@.subrange(0, i + 1);
            assert(next.drop_last() =~= list@.subrange(0, i as int));
            assert(flags.push(on).drop_last() =~= flags);
            assert(text@ =~= shown_line(list@[i as int].description@, list@[i as int].state, i as nat, on));
            flags = flags.push(on);
            assert(string@ =~= list_text(next, flags));
        }
        i = i + 1;
    }
    proof {
        assert(list@.subrange(0, i as int) =~= list@);
    }
    string
}

/// The checklist file contents for the list.
pub fn render_file(list: &Vec<Item>) -> (r: String)
    ensures
        r@ == file_text(list@),
{
    let mut string = String::new();
    let mut i: usize = 0;
    while i < list.len()
        invariant
            i <= list@.len(),
            string@ == file_text(list@.subrange(0, i as int)),
        decreases list@.len() - i,
    {
        let line = list[i].to_string();
        string.append(line.as_str());
        proof {
            reveal_strlit("\n");
        }
        string.append("\n");
        proof {
            assert(list@.subrange(0, i + 1).drop_last() =~= list@.subrange(0, i as int));
        }
        i = i + 1;
    }
    proof {
        assert(list@.subrange(0, i as int) =~= list@);
    }
    string
}

/// Turns a command's result into an `Output`.
pub trait Respond {
    /// `out` is a faithful rendering of this result.
    spec fn answers(&self, out: &Output) -> bool;

    fn to_output(&self) -> (r: Output)
        ensures
            self.answers(&r),
    ;
}

/// A fixed text, shown as it is.
pub struct StringResponse<'a> {
    pub str: &'a str,
}

impl<'a> Respond for StringResponse<'a> {
    open spec fn answers(&self, out: &Output) -> bool {
        &&& out.kind == ResponseType::Continue
        &&& out.value@ == self.str@
        &&& out.persist is None
    }

    fn to_output(&self) -> (r: Output) {
        Output { kind: ResponseType::Continue, value: String::from_str(self.str), persist: None }
    }
}

/// The list, then an error message in red.
pub struct ErrorResponse<'a> {
    pub list: &'a Vec<Item>,
    pub error_msg: String,
}

impl<'a> Respond for ErrorResponse<'a> {
    open spec fn answers(&self, out: &Output) -> bool {
        &&& out.kind == ResponseType::Error
        &&& shows_error(out.value@, self.list@, self.error_msg@)
        &&& out.persist is None
    }

    fn to_output(&self) -> (r: Output) {
        let mut string = render_list(self.list);
        let msg = red(self.error_msg.as_str());
        let ghost listed = string@;
        string.append(msg.as_str());
        proof {
            let flags = choose|flags: Seq<bool>|
                flags.len() == self.list@.len() && listed == list_text(self.list@, flags);
            if msg@ == paint(self.error_msg@, red_code(), true) {
                assert(string@ == list_text(self.list@, flags) + paint(self.error_msg@, red_code(), true));
            } else {
                assert(string@ == list_text(self.list@, flags) + paint(self.error_msg@, red_code(), false));
            }
        }
        Output { kind: ResponseType::Error, value: string, persist: None }
    }
}

/// Nothing to show.
pub struct NoResponse;

impl Respond for NoResponse {
    open spec fn answers(&self, out: &Output) -> bool {
        &&& out.kind == ResponseType::Continue
        &&& out.value@.len() == 0
        &&& out.persist is None
    }

    fn to_output(&self) -> (r: Output) {
        Output { kind: ResponseType::Continue, value: String::new(), persist: None }
    }
}

/// Saves the list and ends the session with a farewell in blue.
pub struct ExitResponse<'a> {
    pub list: &'a Vec<Item>,
    pub exit_msg: &'a str,
}

impl<'a> Respond for ExitResponse<'a> {
    open spec fn answers(&self, out: &Output) -> bool {
        &&& out.kind == ResponseType::Exit
        &&& painted(out.value@, self.exit_msg@, blue_code())
        &&& out.persist matches Some(f) && f@ == file_text(self.list@)
    }

    fn to_output(&self) -> (r: Output) {
        let file = render_file(self.list);
        Output { kind: ResponseType::Exit, value: blue(self.exit_msg), persist: Some(file) }
    }
}

/// A help text in yellow.
pub struct HelpResponse<'a> {
    pub help_msg: &'a str,
}

impl<'a> Respond for HelpResponse<'a> {
    open spec fn answers(&self, out: &Output) -> bool {
        &&& out.kind == ResponseType::Continue
        &&& painted(out.value@, self.help_msg@, yellow_code())
        &&& out.persist is None
    }

    fn to_output(&self) -> (r: Output) {
        Output { kind: ResponseType::Continue, value: yellow(self.help_msg), persist: None }
    }
}

/// The list.
pub struct ListResponse<'a> {
    pub list: &'a Vec<Item>,
}

impl<'a> Respond for ListResponse<'a> {
    open spec fn answers(&self, out: &Output) -> bool {
        &&& out.kind == ResponseType::Continue
        &&& shows_list(out.value@, self.list@)
        &&& out.persist is None
    }

    fn to_output(&self) -> (r: Output) {
        Output { kind: ResponseType::Continue, value: render_list(self.list), persist: None }
    }
}

/// Saves the list, then shows it with a note that it was written.
pub struct SaveResponse<'a> {
    pub list: &'a Vec<Item>,
}

impl<'a> Respond for SaveResponse<'a> {
    open spec fn answers(&self, out: &Output) -> bool {
        &&& out.kind == ResponseType::Continue
        &&& exists|t: Seq<char>| shows_list(t, self.list@) && out.value@ == t + saved_note()
        &&& out.persist matches Some(f) && f@ == file_text(self.list@)
    }

    fn to_output(&self) -> (r: Output) {
        let file = render_file(self.list);
        let mut string = render_list(self.list);
        let ghost listed = string@;
        proof {
            reveal_strlit("wrote list to TODO.md");
        }
        string.append("wrote list to TODO.md");
        assert(string@ == listed + saved_note());
        Output { kind: ResponseType::Continue, value: string, persist: Some(file) }
    }
}

} // verus!
