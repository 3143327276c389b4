//! The list of a session and the command language over it.
use crate::item::{
    file_line, fingerprint_of, flip, flipped, lemma_parse_round_trip, open_box,
    parsed_description, parsed_state, Item, State,
};
use crate::response::{
    file_text, saved_note, shows_error, shows_list, ErrorResponse, ExitResponse, HelpResponse,
    ListResponse, NoResponse, Output, Respond, ResponseType, SaveResponse,
};
use crate::style::{blue_code, painted, yellow_code};
use crate::text::{
    all_ws, contains, dec, decimal, lemma_scan_line, scan, is_blank, join, join_from, lower_of, lowercase, nonempty_lines,
    parse_index, read_index, same_text, split_pieces, words,
};
use vstd::prelude::*;

verus! {

/// The usage text that `help` shows.
pub const HELP_TEXT: &'static str = "Available commands:
help    | h                                 Displays this help message
list    | l                                 Display the todo list
add     | a  <todo item description>        Adds the item to the todo list
remove  | rm <item index or description>    Removes the item from the todo list
done    | d  <item index or description>    Marks the item as done
flip    | f  <item index or description>    Flips the items done state
save    | s                                 Saves the entire list to `TODO.md`
quit    | q                                 Exit the program";

pub struct Todo {
    pub item_vec: Vec<Item>,
}

/// `it` is what reading `line` from the checklist file gives.
pub open spec fn read_from(it: Item, line: Seq<char>) -> bool {
    &&& it.description@ == parsed_description(line)
    &&& it.state == parsed_state(line)
    &&& it.hash == fingerprint_of(it.description@)
}

/// The item with its state flipped.
pub open spec fn toggled(it: Item) -> Item {
    Item { description: it.description, state: flipped(it.state), hash: it.hash }
}

/// The first position at or after `i` whose item has the text `d`, or the length
/// of the list where there is none.
pub open spec fn first_with(items: Seq<Item>, d: Seq<char>, i: int) -> int
    decreases items.len() - i,
{
    if i >= items.len() {
        items.len() as int
    } else if items[i].description@ == d {
        i
    } else {
        first_with(items, d, i + 1)
    }
}

/// The list without the items whose text is `d`, the others in order.
pub open spec fn without(items: Seq<Item>, d: Seq<char>) -> Seq<Item>
    decreases items.len(),
{
    if items.len() == 0 {
        Seq::empty()
    } else {
        let rest = without(items.drop_last(), d);
        if items.last().description@ == d {
            rest
        } else {
            rest.push(items.last())
        }
    }
}

/// `out` shows the list and nothing else happens.
pub open spec fn listing(out: Output, items: Seq<Item>) -> bool {
    &&& out.kind == ResponseType::Continue
    &&& shows_list(out.value@, items)
    &&& out.persist is None
}

/// `out` shows the list and the error message.
pub open spec fn failing(out: Output, items: Seq<Item>, msg: Seq<char>) -> bool {
    &&& out.kind == ResponseType::Error
    &&& shows_error(out.value@, items, msg)
    &&& out.persist is None
}

pub open spec fn not_found(what: Seq<char>) -> Seq<char> {
    "unable to find item "@ + what
}

pub open spec fn is_help(v: Seq<char>) -> bool {
    v == "help"@ || v == "h"@
}

pub open spec fn is_list(v: Seq<char>) -> bool {
    v == "list"@ || v == "l"@
}

pub open spec fn is_save(v: Seq<char>) -> bool {
    v == "save"@ || v == "s"@
}

pub open spec fn is_quit(v: Seq<char>) -> bool {
    v == "quit"@ || v == "exit"@ || v == "q"@ || v == "e"@
}

pub open spec fn is_add(v: Seq<char>) -> bool {
    v == "add"@ || v == "a"@
}

pub open spec fn is_flip(v: Seq<char>) -> bool {
    v == "done"@ || v == "d"@ || v == "flip"@ || v == "f"@
}

pub open spec fn is_remove(v: Seq<char>) -> bool {
    v == "remove"@ || v == "rem"@ || v == "rm"@
}

/// Running the normalised command line `line` on the list `old` leaves the list
/// `new` and answers `out`. A position out of range is an error for `remove` as it
/// is for `done`: the list is left as it was.
pub open spec fn obeys(old: Seq<Item>, line: Seq<char>, new: Seq<Item>, out: Output) -> bool {
    let ws = words(line);
    if ws.len() == 0 {
        new == old && failing(out, old, "no argument made"@)
    } else {
        let verb = ws[0];
        let tail = join(ws.subrange(1, ws.len() as int));
        if is_help(verb) {
            &&& new == old
            &&& out.kind == ResponseType::Continue
            &&& painted(out.value@, HELP_TEXT@, yellow_code())
            &&& out.persist is None
        } else if is_list(verb) {
            new == old && listing(out, old)
        } else if is_save(verb) {
            &&& new == old
            &&& out.kind == ResponseType::Continue
            &&& exists|t: Seq<char>| shows_list(t, old) && out.value@ == t + saved_note()
            &&& out.persist matches Some(f) && f@ == file_text(old)
        } else if is_quit(verb) {
            &&& new == old
            &&& out.kind == ResponseType::Exit
            &&& painted(out.value@, "buh-bye!"@, blue_code())
            &&& out.persist matches Some(f) && f@ == file_text(old)
        } else if is_add(verb) {
            if tail.len() == 0 {
                new == old && failing(out, old, "Please enter description"@)
            } else {
                &&& new.len() == old.len() + 1
                &&& new.drop_last() == old
                &&& new.last().description@ == tail
                &&& new.last().state == State::Todo
                &&& new.last().hash == fingerprint_of(tail)
                &&& listing(out, new)
            }
        } else if is_flip(verb) || is_remove(verb) {
            match parse_index(tail) {
                Some(n) => if 1 <= n <= old.len() {
                    &&& if is_flip(verb) {
                        new == old.update(n - 1, toggled(old[n - 1]))
                    } else {
                        new == old.remove(n - 1)
                    }
                    &&& listing(out, new)
                } else {
                    new == old && failing(out, old, not_found(dec(n)))
                },
                None => if is_flip(verb) {
                    let j = first_with(old, tail, 0);
                    if j < old.len() {
                        new == old.update(j, toggled(old[j])) && listing(out, new)
                    } else {
                        new == old && failing(out, old, not_found(tail))
                    }
                } else {
                    new == without(old, tail) && listing(out, new)
                },
            }
        } else {
            new == old && failing(out, old, "unknown argument: "@ + verb)
        }
    }
}

/// The checklist file of a list is read back, line by line, as the items it was
/// written from, each with its text and state, provided no text holds a newline
/// and no finished item's text holds `"- [ ]"`.
pub proof fn lemma_save_reload(items: Seq<Item>)
    requires
        forall|i: int|
            0 <= i < items.len() ==> !(#[trigger] items[i]).description@.contains('\n'),
        forall|i: int|
            0 <= i < items.len() ==> (#[trigger] items[i]).state == State::Done ==> !contains(
                items[i].description@,
                open_box(),
            ),
    ensures
        nonempty_lines(file_text(items)).len() == items.len(),
        forall|i: int|
            0 <= i < items.len() ==> {
                let line = #[trigger] nonempty_lines(file_text(items))[i];
                &&& parsed_description(line) == items[i].description@
                &&& parsed_state(line) == items[i].state
            },
{
    lemma_scan_file(items);
    assert forall|i: int| 0 <= i < items.len() implies {
        let line = #[trigger] nonempty_lines(file_text(items))[i];
        &&& parsed_description(line) == items[i].description@
        &&& parsed_state(line) == items[i].state
    } by {
        lemma_parse_round_trip(items[i].description@, items[i].state);
    }
}

proof fn lemma_scan_file(items: Seq<Item>)
    requires
        forall|i: int|
            0 <= i < items.len() ==> !(#[trigger] items[i]).description@.contains('\n'),
    ensures
        scan(file_text(items), true).1.len() == 0,
        scan(file_text(items), true).0 == items.map_values(
            |it: Item| file_line(it.description@, it.state),
        ),
    decreases items.len(),
{
    if items.len() == 0 {
        assert(items.map_values(|it: Item| file_line(it.description@, it.state)) =~= Seq::<
            Seq<char>,
        >::empty());
    } else {
        let rest = items.drop_last();
        assert forall|i: int|
            0 <= i < rest.len() implies !(#[trigger] rest[i]).description@.contains('\n') by {
            assert(rest[i] == items[i]);
        }
        lemma_scan_file(rest);
        let it = items.last();
        let line = file_line(it.description@, it.state);
        assert(!items[items.len() - 1].description@.contains('\n'));
        assert forall|i: int| 0 <= i < line.len() implies #[trigger] line[i] != '\n' by {
            if i >= 6 {
                assert(line[i] == it.description@[i - 6]);
            }
        }
        lemma_scan_line(file_text(rest), line);
        assert(items.map_values(|it: Item| file_line(it.description@, it.state)) =~= rest.map_values(
            |it: Item| file_line(it.description@, it.state),
        ).push(line));
    }
}

/// The position of the first item with the text `d`, or the length of the list.
fn find_item(items: &Vec<Item>, d: &str) -> (r: usize)
    ensures
        r == first_with(items@, d@, 0),
{
    let mut j: usize = 0;
    while j < items.len()
        invariant
            j <= items@.len(),
            first_with(items@, d@, 0) == first_with(items@, d@, j as int),
        decreases items@.len() - j,
    {
        if same_text(items[j].description.as_str(), d) {
            return j;
        }
        j = j + 1;
    }
    j
}

impl Todo {
    /// An empty list.
    pub fn new() -> (r: Todo)
        ensures
            r.item_vec@.len() == 0,
    {
        Todo { item_vec: Vec::new() }
    }

    /// The list that a checklist file holds: one item for each non-empty line.
    pub fn from_existing(existing_list: String) -> (r: Todo)
        ensures
            r.item_vec@.len() == nonempty_lines(existing_list@).len(),
            forall|i: int|
                0 <= i < r.item_vec@.len() ==> read_from(
                    #[trigger] r.item_vec@[i],
                    nonempty_lines(existing_list@)[i],
                ),
    {
        let item_list = split_pieces(existing_list.as_str(), true);
        let ghost ls = item_list@.map_values(|p: String| p@);
        let mut item_vec: Vec<Item> = Vec::new();
        let mut i: usize = 0;
        while i < item_list.len()
            invariant
                i <= item_list@.len(),
                ls == item_list@.map_values(|p: String| p@),
                ls == nonempty_lines(existing_list@),
                item_vec@.len() == i,
                forall|k: int| 0 <= k < i ==> read_from(#[trigger] item_vec@[k], ls[k]),
            decreases item_list@.len() - i,
        {
            item_vec.push(Item::parse(item_list[i].as_str()));
            i = i + 1;
        }
        Todo { item_vec }
    }

    /// Flips the item at position `j`.
    fn flip_at(&mut self, j: usize)
        requires
            j < old(self).item_vec@.len(),
        ensures
            final(self).item_vec@ == old(self).item_vec@.update(
                j as int,
                toggled(old(self).item_vec@[j as int]),
            ),
    {
        let mut it = self.item_vec.remove(j);
        it.state = flip(it.state);
        self.item_vec.insert(j, it);
        assert(self.item_vec@ =~= old(self).item_vec@.update(
            j as int,
            toggled(old(self).item_vec@[j as int]),
        ));
    }

    /// Takes out every item whose text is `d`.
    fn remove_all(&mut self, d: &str)
        ensures
            final(self).item_vec@ == without(old(self).item_vec@, d@),
    {
        let ghost orig = self.item_vec@;
        let mut i: usize = 0;
        let ghost mut k: int = 0;
        while i < self.item_vec.len()
            invariant
                0 <= k <= orig.len(),
                i <= k,
                i <= self.item_vec@.len(),
                self.item_vec@.subrange(0, i as int) == without(orig.subrange(0, k), d@),
                self.item_vec@.subrange(i as int, self.item_vec@.len() as int) == orig.subrange(
                    k,
                    orig.len() as int,
                ),
            decreases self.item_vec@.len() - i,
        {
            let ghost before = self.item_vec@;
            let ghost rest = before.subrange(i as int, before.len() as int);
            assert(rest.len() == orig.len() - k);
            assert(before[i as int] == rest[0]);
            assert(before.subrange(i + 1, before.len() as int) =~= rest.subrange(1, rest.len() as int));
            assert(orig.subrange(k + 1, orig.len() as int) =~= orig.subrange(k, orig.len() as int).subrange(1, rest.len() as int));
            assert(orig[k] == before[i as int]);
            assert(orig.subrange(0, k + 1).drop_last() =~= orig.subrange(0, k));
            if same_text(self.item_vec[i].description.as_str(), d) {
                self.item_vec.remove(i);
                assert(self.item_vec@.subrange(0, i as int) =~= before.subrange(0, i as int));
                assert(self.item_vec@.subrange(i as int, self.item_vec@.len() as int)
                    =~= before.subrange(i + 1, before.len() as int));
            } else {
                assert(self.item_vec@.subrange(0, i + 1) =~= before.subrange(0, i as int).push(
                    before[i as int],
                ));
                i = i + 1;
                assert(self.item_vec@.subrange(i as int, self.item_vec@.len() as int)
                    =~= before.subrange(i as int, before.len() as int));
            }
            proof {
                k = k + 1;
            }
        }
        assert(orig.subrange(0, k) =~= orig);
        assert(self.item_vec@.subrange(0, i as int) =~= self.item_vec@);
    }

    fn fail(&self, msg: String) -> (r: Output)
        ensures
            failing(r, self.item_vec@, msg@),
    {
        ErrorResponse { list: &self.item_vec, error_msg: msg }.to_output()
    }

    fn show(&self) -> (r: Output)
        ensures
            listing(r, self.item_vec@),
    {
        ListResponse { list: &self.item_vec }.to_output()
    }

    /// Runs one command line that is already in lowercase.
    pub fn execute(&mut self, line: &str) -> (r: Output)
        ensures
            obeys(old(self).item_vec@, line@, final(self).item_vec@, r),
    {
        let ws = split_pieces(line, false);
        let ghost vs = ws@.map_values(|p: String| p@);
        if ws.len() == 0 {
            return self.fail(String::from_str("no argument made"));
        }
        let verb = ws[0].as_str();
        assert(verb@ == vs[0]);
        let tail = join_from(&ws, 1);
        if same_text(verb, "help") || same_text(verb, "h") {
            HelpResponse { help_msg: HELP_TEXT }.to_output()
        } else if same_text(verb, "list") || same_text(verb, "l") {
            self.show()
        } else if same_text(verb, "save") || same_text(verb, "s") {
            SaveResponse { list: &self.item_vec }.to_output()
        } else if same_text(verb, "quit") || same_text(verb, "exit") || same_text(verb, "q")
            || same_text(verb, "e") {
            ExitResponse { list: &self.item_vec, exit_msg: "buh-bye!" }.to_output()
        } else if same_text(verb, "add") || same_text(verb, "a") {
            if tail.unicode_len() == 0 {
                self.fail(String::from_str("Please enter description"))
            } else {
                self.item_vec.push(Item::new(tail));
                assert(self.item_vec@.drop_last() =~= old(self).item_vec@);
                self.show()
            }
        } else if same_text(verb, "done") || same_text(verb, "d") || same_text(verb, "flip")
            || same_text(verb, "f") || same_text(verb, "remove") || same_text(verb, "rem")
            || same_text(verb, "rm") {
            let flipping = same_text(verb, "done") || same_text(verb, "d") || same_text(
                verb,
                "flip",
            ) || same_text(verb, "f");
            match read_index(tail.as_str()) {
                Some(num) => {
                    if num >= 1 && num <= self.item_vec.len() {
                        if flipping {
                            self.flip_at(num - 1);
                        } else {
                            self.item_vec.remove(num - 1);
                        }
                        self.show()
                    } else {
                        self.fail(String::from_str("unable to find item ").concat(
                            decimal(num).as_str(),
                        ))
                    }
                },
                None => {
                    if flipping {
                        let j = find_item(&self.item_vec, tail.as_str());
                        if j < self.item_vec.len() {
                            self.flip_at(j);
                            self.show()
                        } else {
                            self.fail(String::from_str("unable to find item ").concat(
                                tail.as_str(),
                            ))
                        }
                    } else {
                        self.remove_all(tail.as_str());
                        self.show()
                    }
                },
            }
        } else {
            self.fail(String::from_str("unknown argument: ").concat(verb))
        }
    }

    /// Runs one line of input: a blank line does nothing; any other line is put in
    /// lowercase and run as a command.
    pub fn dispatch(&mut self, input: String) -> (r: Output)
        ensures
            all_ws(input@) ==> {
                &&& final(self).item_vec@ == old(self).item_vec@
                &&& r.kind == ResponseType::Continue
                &&& r.value@.len() == 0
                &&& r.persist is None
            },
            !all_ws(input@) ==> obeys(
                old(self).item_vec@,
                lower_of(input@),
                final(self).item_vec@,
                r,
            ),
    {
        if is_blank(input.as_str()) {
            return NoResponse.to_output();
        }
        let lowered = lowercase(input.as_str());
        self.execute(lowered.as_str())
    }
}

} // verus!
