//! The text format of dialogs.
//!
//! ```text
//! @DIALOG:id
//! condition:action:text
//! action:text
//! text
//! @END
//! ```

use crate::data::parser::{holds_content, is_content};
use crate::data::types::{
    lemma_views_push, views, Dialog, DialogAction, DialogActionView, DialogCondition,
    DialogConditionView, DialogLine, DialogLineView, DialogView,
};
use crate::text::{
    chars_of, parse_i32, parsed_i32, pieces, reads, records, records_of, split, split_at,
    split_limited, string_of, strip_prefix, stripped, texts,
};
use vstd::prelude::*;

verus! {

/// The condition that `s` writes: `HAS_QUEST=id`, `QUEST_DONE=id`,
/// `HAS_ITEM=id` or `HAS_GOLD=amount`.
pub open spec fn condition_in(s: Seq<char>) -> Option<DialogConditionView> {
    let parts = split(s, '=');
    if parts.len() != 2 {
        None
    } else if parts[0] == "HAS_QUEST"@ {
        Some(DialogConditionView::HasQuest(parts[1]))
    } else if parts[0] == "QUEST_DONE"@ {
        Some(DialogConditionView::QuestComplete(parts[1]))
    } else if parts[0] == "HAS_ITEM"@ {
        Some(DialogConditionView::HasItem(parts[1]))
    } else if parts[0] == "HAS_GOLD"@ {
        match parsed_i32(parts[1]) {
            Some(n) => Some(DialogConditionView::HasGold(n)),
            None => None,
        }
    } else {
        None
    }
}

/// The action that `s` writes: `GIVE_QUEST=id`, `COMPLETE_QUEST=id`,
/// `GIVE_ITEM=id`, `TAKE_ITEM=id`, `GIVE_GOLD=amount`, `TAKE_GOLD=amount`,
/// `OPEN_SHOP=id` or `HEAL`.
pub open spec fn action_in(s: Seq<char>) -> Option<DialogActionView> {
    let parts = split(s, '=');
    let word = parts[0];
    let given = parts.len() > 1;
    if word == "GIVE_QUEST"@ {
        if given {
            Some(DialogActionView::GiveQuest(parts[1]))
        } else {
            None
        }
    } else if word == "COMPLETE_QUEST"@ {
        if given {
            Some(DialogActionView::CompleteQuest(parts[1]))
        } else {
            None
        }
    } else if word == "GIVE_ITEM"@ {
        if given {
            Some(DialogActionView::GiveItem(parts[1]))
        } else {
            None
        }
    } else if word == "TAKE_ITEM"@ {
        if given {
            Some(DialogActionView::TakeItem(parts[1]))
        } else {
            None
        }
    } else if word == "GIVE_GOLD"@ {
        if given && parsed_i32(parts[1]) is Some {
            Some(DialogActionView::GiveGold(parsed_i32(parts[1])->0))
        } else {
            None
        }
    } else if word == "TAKE_GOLD"@ {
        if given && parsed_i32(parts[1]) is Some {
            Some(DialogActionView::TakeGold(parsed_i32(parts[1])->0))
        } else {
            None
        }
    } else if word == "OPEN_SHOP"@ {
        if given {
            Some(DialogActionView::OpenShop(parts[1]))
        } else {
            None
        }
    } else if word == "HEAL"@ {
        Some(DialogActionView::Heal)
    } else {
        None
    }
}

/// The dialog line that the record `line` holds: `condition:action:text`,
/// `action:text` or the text alone. The text is what follows the second
/// colon, further colons included.
pub open spec fn dialog_line_in(line: Seq<char>) -> DialogLineView {
    let parts = pieces(line, ':', Some(3nat));
    if parts.len() == 3 {
        DialogLineView {
            text: parts[2],
            condition: condition_in(parts[0]),
            action: action_in(parts[1]),
        }
    } else if parts.len() == 2 {
        DialogLineView { text: parts[1], condition: None, action: action_in(parts[0]) }
    } else {
        DialogLineView { text: line, condition: None, action: None }
    }
}

/// The pieces of `s` between `=` signs.
fn words_of(s: &Vec<char>) -> (parts: Vec<Vec<char>>)
    ensures
        parts.len() == split(s@, '=').len(),
        parts.len() >= 1,
        forall|i: int| 0 <= i < parts.len() ==> (#[trigger] parts@[i])@ == split(s@, '=')[i],
{
    let parts = split_at(s, '=');
    assert forall|i: int| 0 <= i < parts.len() implies (#[trigger] parts@[i])@ == split(s@, '=')[i] by {
        assert(texts(parts@)[i] == parts@[i]@);
    }
    parts
}

/// The condition that `s` writes.
pub fn read_condition(s: &Vec<char>) -> (r: Option<DialogCondition>)
    ensures
        match r {
            Some(c) => condition_in(s@) == Some(c@),
            None => condition_in(s@) is None,
        },
{
    let parts = words_of(s);
    if parts.len() != 2 {
        return None;
    }
    if reads(&parts[0], "HAS_QUEST") {
        Some(DialogCondition::HasQuest(string_of(&parts[1])))
    } else if reads(&parts[0], "QUEST_DONE") {
        Some(DialogCondition::QuestComplete(string_of(&parts[1])))
    } else if reads(&parts[0], "HAS_ITEM") {
        Some(DialogCondition::HasItem(string_of(&parts[1])))
    } else if reads(&parts[0], "HAS_GOLD") {
        match parse_i32(&parts[1]) {
            Some(n) => Some(DialogCondition::HasGold(n)),
            None => None,
        }
    } else {
        None
    }
}

/// The action that `s` writes.
pub fn read_action(s: &Vec<char>) -> (r: Option<DialogAction>)
    ensures
        match r {
            Some(a) => action_in(s@) == Some(a@),
            None => action_in(s@) is None,
        },
{
    let parts = words_of(s);
    let given = parts.len() > 1;
    if reads(&parts[0], "GIVE_QUEST") {
        if given {
            Some(DialogAction::GiveQuest(string_of(&parts[1])))
        } else {
            None
        }
    } else if reads(&parts[0], "COMPLETE_QUEST") {
        if given {
            Some(DialogAction::CompleteQuest(string_of(&parts[1])))
        } else {
            None
        }
    } else if reads(&parts[0], "GIVE_ITEM") {
        if given {
            Some(DialogAction::GiveItem(string_of(&parts[1])))
        } else {
            None
        }
    } else if reads(&parts[0], "TAKE_ITEM") {
        if given {
            Some(DialogAction::TakeItem(string_of(&parts[1])))
        } else {
            None
        }
    } else if reads(&parts[0], "GIVE_GOLD") {
        if given {
            match parse_i32(&parts[1]) {
                Some(n) => Some(DialogAction::GiveGold(n)),
                None => None,
            }
        } else {
            None
        }
    } else if reads(&parts[0], "TAKE_GOLD") {
        if given {
            match parse_i32(&parts[1]) {
                Some(n) => Some(DialogAction::TakeGold(n)),
                None => None,
            }
        } else {
            None
        }
    } else if reads(&parts[0], "OPEN_SHOP") {
        if given {
            Some(DialogAction::OpenShop(string_of(&parts[1])))
        } else {
            None
        }
    } else if reads(&parts[0], "HEAL") {
        Some(DialogAction::Heal)
    } else {
        None
    }
}

/// The dialog line that the record `line` holds.
pub fn read_dialog_line(line: &Vec<char>) -> (r: DialogLine)
    ensures
        r@ == dialog_line_in(line@),
{
    let parts = split_limited(line, ':', Some(3));
    assert forall|i: int| 0 <= i < parts.len() implies (#[trigger] parts@[i])@ == pieces(
        line@,
        ':',
        Some(3nat),
    )[i] by {
        assert(texts(parts@)[i] == parts@[i]@);
    }
    if parts.len() == 3 {
        DialogLine {
            text: string_of(&parts[2]),
            condition: read_condition(&parts[0]),
            action: read_action(&parts[1]),
        }
    } else if parts.len() == 2 {
        DialogLine { text: string_of(&parts[1]), condition: None, action: read_action(&parts[0]) }
    } else {
        DialogLine { text: string_of(line), condition: None, action: None }
    }
}

/// A dialog in the making.
pub struct DialogBuilder {
    pub id: String,
    pub lines: Vec<DialogLine>,
}

impl View for DialogBuilder {
    type V = DialogView;

    open spec fn view(&self) -> DialogView {
        DialogView { id: self.id@, lines: views(self.lines@) }
    }
}

impl DialogBuilder {
    pub fn new(id: String) -> (r: Self)
        ensures
            r@ == (DialogView { id: id@, lines: Seq::empty() }),
    {
        let r = DialogBuilder { id, lines: Vec::new() };
        assert(r@.lines =~= Seq::empty());
        r
    }

    /// Adds the line that the record `line` holds.
    pub fn add_line(&mut self, line: &str)
        ensures
            final(self)@ == (DialogView {
                lines: old(self)@.lines.push(dialog_line_in(line@)),
                ..old(self)@
            }),
    {
        let chars = chars_of(line);
        self.add_record(&chars);
    }

    /// Adds the line that the record `line` holds.
    pub fn add_record(&mut self, line: &Vec<char>)
        ensures
            final(self)@ == (DialogView {
                lines: old(self)@.lines.push(dialog_line_in(line@)),
                ..old(self)@
            }),
    {
        let entry = read_dialog_line(line);
        proof {
            lemma_views_push(self.lines@, entry);
        }
        self.lines.push(entry);
    }

    pub fn parse_condition(s: &str) -> (r: Option<DialogCondition>)
        ensures
            match r {
                Some(c) => condition_in(s@) == Some(c@),
                None => condition_in(s@) is None,
            },
    {
        let chars = chars_of(s);
        read_condition(&chars)
    }

    pub fn parse_action(s: &str) -> (r: Option<DialogAction>)
        ensures
            match r {
                Some(a) => action_in(s@) == Some(a@),
                None => action_in(s@) is None,
            },
    {
        let chars = chars_of(s);
        read_action(&chars)
    }

    pub fn build(self) -> (r: Dialog)
        ensures
            r@ == self@,
    {
        Dialog { id: self.id, lines: self.lines }
    }
}

/// The dialogs read so far, and the one being read.
pub struct DialogsRead {
    pub done: Seq<DialogView>,
    pub current: Option<DialogView>,
}

impl DialogsRead {
    /// The dialogs read, the one being read closed.
    pub open spec fn closed(self) -> Seq<DialogView> {
        match self.current {
            Some(d) => self.done.push(d),
            None => self.done,
        }
    }

    /// The state after the record `line`: `@DIALOG:id` closes the dialog
    /// being read and starts the dialog `id`, `@END` closes the dialog
    /// being read, and any other record that holds content is a line of
    /// the dialog being read, if there is one.
    pub open spec fn after(self, line: Seq<char>) -> DialogsRead {
        match stripped(line, "@DIALOG:"@) {
            Some(id) => DialogsRead {
                done: self.closed(),
                current: Some(DialogView { id, lines: Seq::empty() }),
            },
            None => if line == "@END"@ {
                DialogsRead { done: self.closed(), current: None }
            } else if is_content(line) && self.current is Some {
                DialogsRead {
                    done: self.done,
                    current: Some(
                        DialogView {
                            lines: self.current->0.lines.push(dialog_line_in(line)),
                            ..self.current->0
                        },
                    ),
                }
            } else {
                self
            },
        }
    }

    /// The state after the records `lines`, in order.
    pub open spec fn after_all(lines: Seq<Seq<char>>) -> DialogsRead
        decreases lines.len(),
    {
        if lines.len() == 0 {
            DialogsRead { done: Seq::empty(), current: None }
        } else {
            Self::after_all(lines.drop_last()).after(lines.last())
        }
    }
}

/// The dialogs that the text `data` holds; a dialog still being read at
/// the end of the text counts.
pub open spec fn dialogs_in(data: Seq<char>) -> Seq<DialogView> {
    DialogsRead::after_all(records(data)).closed()
}

/// The model of a dialog in the making, if there is one.
pub open spec fn builder_view(b: Option<DialogBuilder>) -> Option<DialogView> {
    match b {
        Some(b) => Some(b@),
        None => None,
    }
}

/// Closes the dialog being read.
fn close_dialog(dialogs: &mut Vec<Dialog>, current: Option<DialogBuilder>)
    ensures
        views(final(dialogs)@) == (DialogsRead {
            done: views(old(dialogs)@),
            current: builder_view(current),
        }).closed(),
{
    match current {
        Some(builder) => {
            let dialog = builder.build();
            proof {
                lemma_views_push(dialogs@, dialog);
            }
            dialogs.push(dialog);
        },
        None => {},
    }
}

/// The dialogs that the text `data` holds.
pub fn parse_dialogs(data: &str) -> (dialogs: Vec<Dialog>)
    ensures
        views(dialogs@) == dialogs_in(data@),
{
    let lines = records_of(data);
    let mut dialogs: Vec<Dialog> = Vec::new();
    let mut current: Option<DialogBuilder> = None;
    let mut i: usize = 0;
    assert(records(data@).take(0) =~= Seq::<Seq<char>>::empty());
    assert(views(dialogs@) =~= Seq::<DialogView>::empty());
    while i < lines.len()
        invariant
            i <= lines.len(),
            texts(lines@) == records(data@),
            (DialogsRead { done: views(dialogs@), current: builder_view(current) })
                == DialogsRead::after_all(records(data@).take(i as int)),
        decreases lines.len() - i,
    {
        let line = &lines[i];
        proof {
            let all = records(data@);
            assert(all.take(i + 1).drop_last() =~= all.take(i as int));
            assert(all.take(i + 1).last() == texts(lines@)[i as int]);
        }
        match strip_prefix(line, "@DIALOG:") {
            Some(id) => {
                close_dialog(&mut dialogs, current);
                current = Some(DialogBuilder::new(string_of(&id)));
            },
            None => {
                if reads(line, "@END") {
                    close_dialog(&mut dialogs, current);
                    current = None;
                } else if holds_content(line) {
                    match &mut current {
                        Some(builder) => {
                            builder.add_record(line);
                        },
                        None => {},
                    }
                }
            },
        }
        i += 1;
    }
    assert(records(data@).take(lines.len() as int) =~= records(data@));
    close_dialog(&mut dialogs, current);
    dialogs
}

} // verus!
