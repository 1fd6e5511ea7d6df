//! Dialog scripting: which lines of a dialog the player gets to see, and
//! how a line of text is broken to fit the dialog box.

use crate::data::types::{
    lemma_views_push, views, Dialog, DialogCondition, DialogConditionView, DialogLine,
    DialogLineView, DialogView,
};
use crate::game::player::{Player, PlayerView};
use vstd::prelude::*;
use vstd::string::StrSliceExecFns;

verus! {

/// Whether `player` meets `condition`. A line without a condition is
/// always shown.
pub open spec fn condition_holds(player: PlayerView, condition: Option<DialogConditionView>) -> bool {
    match condition {
        None => true,
        Some(DialogConditionView::HasQuest(id)) => player.has_quest(id),
        Some(DialogConditionView::QuestComplete(id)) => player.quest_complete(id),
        Some(DialogConditionView::HasItem(id)) => player.has_item(id),
        Some(DialogConditionView::HasGold(amount)) => player.stats.gold >= amount,
    }
}

/// The lines of `lines` whose condition `player` meets, in order.
pub open spec fn shown_lines(lines: Seq<DialogLineView>, player: PlayerView) -> Seq<DialogLineView>
    decreases lines.len(),
{
    if lines.len() == 0 {
        Seq::empty()
    } else if condition_holds(player, lines.last().condition) {
        shown_lines(lines.drop_last(), player).push(lines.last())
    } else {
        shown_lines(lines.drop_last(), player)
    }
}

/// `dialog` reduced to the lines that `player` gets to see.
pub open spec fn filtered(dialog: DialogView, player: PlayerView) -> DialogView {
    DialogView { id: dialog.id, lines: shown_lines(dialog.lines, player) }
}

/// Every line that is shown meets its condition.
pub proof fn lemma_shown_lines_hold(lines: Seq<DialogLineView>, player: PlayerView)
    ensures
        forall|i: int|
            0 <= i < shown_lines(lines, player).len() ==> condition_holds(
                player,
                #[trigger] shown_lines(lines, player)[i].condition,
            ),
    decreases lines.len(),
{
    if lines.len() > 0 {
        lemma_shown_lines_hold(lines.drop_last(), player);
    }
}

/// Lines that all meet their condition are all shown.
pub proof fn lemma_shown_lines_all(lines: Seq<DialogLineView>, player: PlayerView)
    requires
        forall|i: int| 0 <= i < lines.len() ==> condition_holds(player, #[trigger] lines[i].condition),
    ensures
        shown_lines(lines, player) == lines,
    decreases lines.len(),
{
    if lines.len() > 0 {
        let front = lines.drop_last();
        assert forall|i: int| 0 <= i < front.len() implies condition_holds(
            player,
            #[trigger] front[i].condition,
        ) by {
            assert(front[i] == lines[i]);
        }
        lemma_shown_lines_all(front, player);
        assert(front.push(lines.last()) =~= lines);
    } else {
        assert(lines =~= Seq::empty());
    }
}

/// Filtering is idempotent: a dialog that was filtered for a player is
/// left as it is when it is filtered for the same player again.
pub proof fn lemma_filter_idempotent(dialog: DialogView, player: PlayerView)
    ensures
        filtered(filtered(dialog, player), player) == filtered(dialog, player),
{
    lemma_shown_lines_hold(dialog.lines, player);
    lemma_shown_lines_all(shown_lines(dialog.lines, player), player);
}

/// Whether `player` meets the condition of `line`.
pub fn line_shown(line: &DialogLine, player: &Player) -> (r: bool)
    ensures
        r == condition_holds(player@, line@.condition),
{
    match &line.condition {
        None => true,
        Some(DialogCondition::HasQuest(id)) => player.has_quest(id.as_str()),
        Some(DialogCondition::QuestComplete(id)) => player.is_quest_complete(id.as_str()),
        Some(DialogCondition::HasItem(id)) => player.has_item(id.as_str()),
        Some(DialogCondition::HasGold(amount)) => player.stats.gold >= *amount,
    }
}

/// `dialog` reduced to the lines that `player` gets to see.
pub fn filter_dialog(dialog: &Dialog, player: &Player) -> (r: Dialog)
    ensures
        r@ == filtered(dialog@, player@),
{
    let mut lines: Vec<DialogLine> = Vec::new();
    let mut i: usize = 0;
    assert(views(lines@) =~= shown_lines(views(dialog.lines@).take(0), player@));
    while i < dialog.lines.len()
        invariant
            i <= dialog.lines.len(),
            views(lines@) == shown_lines(views(dialog.lines@).take(i as int), player@),
        decreases dialog.lines.len() - i,
    {
        proof {
            let all = views(dialog.lines@);
            assert(all.take(i + 1).drop_last() =~= all.take(i as int));
            assert(all.take(i + 1).last() == dialog.lines@[i as int]@);
        }
        if line_shown(&dialog.lines[i], player) {
            let line = dialog.lines[i].clone();
            proof {
                lemma_views_push(lines@, line);
            }
            lines.push(line);
        }
        i += 1;
    }
    proof {
        let all = views(dialog.lines@);
        assert(all.take(all.len() as int) =~= all);
    }
    Dialog { id: dialog.id.clone(), lines }
}

/// `text` cut into rows of `max_chars` characters, the last one holding
/// what is left; one empty row for an empty text.
pub open spec fn wrapped(text: Seq<char>, max_chars: nat) -> Seq<Seq<char>>
    decreases text.len(),
{
    if text.len() == 0 {
        seq![Seq::empty()]
    } else if max_chars == 0 || text.len() <= max_chars {
        seq![text]
    } else {
        seq![text.take(max_chars as int)] + wrapped(text.skip(max_chars as int), max_chars)
    }
}

/// `text` cut into rows of at most `max_chars` characters.
pub fn wrap_text(text: &str, max_chars: usize) -> (rows: Vec<&str>)
    requires
        max_chars > 0,
    ensures
        views(rows@) == wrapped(text@, max_chars as nat),
{
    let n = text.unicode_len();
    let mut rows: Vec<&str> = Vec::new();
    if n == 0 {
        rows.push("");
        proof {
            reveal_strlit("");
            assert(""@ =~= Seq::<char>::empty());
            assert(views(rows@) =~= seq![Seq::<char>::empty()]);
        }
        return rows;
    }
    let mut start: usize = 0;
    assert(text@.skip(0) =~= text@);
    while n - start > max_chars
        invariant
            start < n,
            n == text@.len(),
            max_chars > 0,
            wrapped(text@, max_chars as nat) == views(rows@) + wrapped(
                text@.skip(start as int),
                max_chars as nat,
            ),
        decreases n - start,
    {
        let end = start + max_chars;
        let row = text.substring_char(start, end);
        proof {
            let rest = text@.skip(start as int);
            assert(rest.take(max_chars as int) =~= row@);
            assert(rest.skip(max_chars as int) =~= text@.skip(end as int));
            assert(views(rows@.push(row)) =~= views(rows@).push(row@));
            assert(views(rows@) + (seq![row@] + wrapped(text@.skip(end as int), max_chars as nat))
                =~= views(rows@).push(row@) + wrapped(text@.skip(end as int), max_chars as nat));
        }
        rows.push(row);
        start = end;
    }
    let row = text.substring_char(start, n);
    proof {
        assert(text@.skip(start as int) =~= row@);
        assert(views(rows@.push(row)) =~= views(rows@).push(row@));
        assert(views(rows@) + seq![row@] =~= views(rows@).push(row@));
    }
    rows.push(row);
    rows
}

} // verus!
