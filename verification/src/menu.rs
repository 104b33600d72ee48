//! The tray menu: which clippings it lists and how, and what a click on one
//! of its items does.

use std::collections::VecDeque;
use vstd::prelude::*;
use crate::clipping::Clipping;
use crate::config::Config;
use crate::text::{chars_of, push_char};

verus! {

/// How many of the listed clippings get a keyboard shortcut.
pub const SHORTCUT_COUNT: usize = 9;

/// A preview as the menu shows it: line breaks become spaces.
pub open spec fn menu_label(preview: Seq<char>) -> Seq<char> {
    preview.map_values(|c: char| if c == '\n' { ' ' } else { c })
}

/// The digits that name the shortcuts, in order.
pub open spec fn shortcut_digits() -> Seq<char> {
    seq!['1', '2', '3', '4', '5', '6', '7', '8', '9']
}

/// The accelerator text of the `i`-th listed clipping (from 0): command and
/// the digit `i + 1`.
pub open spec fn shortcut_text(i: int) -> Seq<char> {
    seq!['c', 'm', 'd', '+', 'D', 'i', 'g', 'i', 't'].push(shortcut_digits()[i])
}

/// How many clippings the menu lists.
pub open spec fn listed_count(history_len: int, display: int) -> int {
    if history_len < display {
        history_len
    } else {
        display
    }
}

/// The menu lists as many clippings as the history holds, but at most
/// `display` of them.
pub proof fn lemma_listed_count_is_min(history_len: int, display: int)
    ensures
        listed_count(history_len, display) == (if history_len <= display { history_len } else { display }),
{
}

/// One listed clipping.
pub struct MenuEntry {
    pub label: String,
    pub shortcut: Option<String>,
}

/// Everything the menu shows that depends on the history and the settings.
/// After the listed clippings come, in this order: the note "History is
/// empty" (when `show_empty_note`), a separator, "Clear History" (enabled
/// when `clear_enabled`), a separator, "Preferences..." and "Quit OpenClip".
pub struct MenuPlan {
    pub entries: Vec<MenuEntry>,
    pub show_empty_note: bool,
    pub clear_enabled: bool,
}

/// `preview` with each line break replaced by a space.
pub fn label_for(preview: &str) -> (r: String)
    ensures
        r@ == menu_label(preview@),
        r@.len() == preview@.len(),
        forall|i: int|
            0 <= i < r@.len() ==> #[trigger] r@[i] == if preview@[i] == '\n' {
                ' '
            } else {
                preview@[i]
            },
{
    let cs = chars_of(preview);
    let mut out = String::new();
    let mut i: usize = 0;
    while i < cs.len()
        invariant
            cs@ == preview@,
            i <= cs.len(),
            out@ == menu_label(preview@).take(i as int),
        decreases cs.len() - i,
    {
        let c = cs[i];
        if c == '\n' {
            push_char(&mut out, ' ');
        } else {
            push_char(&mut out, c);
        }
        i = i + 1;
        assert(out@ =~= menu_label(preview@).take(i as int));
    }
    assert(out@ =~= menu_label(preview@));
    out
}

/// The accelerator text for the `i`-th listed clipping.
fn shortcut_for(i: usize) -> (r: String)
    requires
        i < SHORTCUT_COUNT,
    ensures
        r@ == shortcut_text(i as int),
{
    let prefix = "cmd+Digit";
    let digits = "123456789";
    proof {
        reveal_strlit("cmd+Digit");
        reveal_strlit("123456789");
    }
    let r = String::from_str(prefix).concat(digits.substring_char(i, i + 1));
    assert(r@ =~= shortcut_text(i as int));
    r
}

/// Whether `plan` is the menu for `history` under `config`.
pub open spec fn plans(plan: MenuPlan, history: Seq<Clipping>, config: Config) -> bool {
    &&& plan.entries@.len() == listed_count(history.len() as int, config.display_clippings as int)
    &&& forall|i: int|
        0 <= i < plan.entries@.len() ==> {
            &&& (#[trigger] plan.entries@[i]).label@ == menu_label(history[i].preview@)
            &&& if i < SHORTCUT_COUNT {
                plan.entries@[i].shortcut matches Some(s) && s@ == shortcut_text(i)
            } else {
                plan.entries@[i].shortcut is None
            }
        }
    &&& plan.show_empty_note == (history.len() == 0)
    &&& plan.clear_enabled == (history.len() > 0)
}

/// The menu for the current history: the newest `display_clippings`
/// clippings, the first nine with a shortcut.
pub fn plan_menu(history: &VecDeque<Clipping>, config: &Config) -> (plan: MenuPlan)
    ensures
        plans(plan, history@, *config),
        plan.entries@.len() == if history@.len() <= config.display_clippings {
            history@.len() as int
        } else {
            config.display_clippings as int
        },
        plan.show_empty_note == (history@.len() == 0),
        plan.clear_enabled == (history@.len() > 0),
        forall|i: int|
            0 <= i < plan.entries@.len() ==> {
                &&& (#[trigger] plan.entries@[i]).label@.len() == history@[i].preview@.len()
                &&& forall|j: int|
                    0 <= j < plan.entries@[i].label@.len() ==> #[trigger] plan.entries@[i].label@[j]
                        == if history@[i].preview@[j] == '\n' {
                        ' '
                    } else {
                        history@[i].preview@[j]
                    }
                &&& (i < 9 <==> plan.entries@[i].shortcut is Some)
                &&& plan.entries@[i].shortcut matches Some(s) ==> s@.len() == 10
                    && s@.take(9) == seq!['c', 'm', 'd', '+', 'D', 'i', 'g', 'i', 't']
                    && s@[9] as int == '1' as int + i
            },
{
    let n = if history.len() < config.display_clippings {
        history.len()
    } else {
        config.display_clippings
    };
    let mut entries: Vec<MenuEntry> = Vec::new();
    let mut i: usize = 0;
    while i < n
        invariant
            n == listed_count(history@.len() as int, config.display_clippings as int),
            n <= history@.len(),
            i <= n,
            entries@.len() == i,
            forall|k: int|
                0 <= k < i ==> {
                    &&& (#[trigger] entries@[k]).label@ == menu_label(history@[k].preview@)
                    &&& if k < SHORTCUT_COUNT {
                        entries@[k].shortcut matches Some(s) && s@ == shortcut_text(k)
                    } else {
                        entries@[k].shortcut is None
                    }
                },
        decreases n - i,
    {
        let label = label_for(history[i].preview.as_str());
        let shortcut = if i < SHORTCUT_COUNT {
            Some(shortcut_for(i))
        } else {
            None
        };
        entries.push(MenuEntry { label, shortcut });
        i = i + 1;
    }
    let empty = history.len() == 0;
    MenuPlan { entries, show_empty_note: empty, clear_enabled: !empty }
}


/// The id of the "Preferences..." item.
pub fn preferences_id() -> (r: &'static str)
    ensures
        r@ == seq!['p', 'r', 'e', 'f', 's'],
{
    proof {
        reveal_strlit("prefs");
    }
    "prefs"
}

/// The id of the "Clear History" item.
pub fn clear_id() -> (r: &'static str)
    ensures
        r@ == seq!['c', 'l', 'e', 'a', 'r'],
{
    proof {
        reveal_strlit("clear");
    }
    "clear"
}

/// The id of the "Quit OpenClip" item.
pub fn quit_id() -> (r: &'static str)
    ensures
        r@ == seq!['q', 'u', 'i', 't'],
{
    proof {
        reveal_strlit("quit");
    }
    "quit"
}

/// What the daemon does after a click on a menu item.
pub enum MenuAction {
    /// Start the preferences window.
    OpenPreferences,
    /// The history was cleared: save it and rebuild the menu.
    HistoryCleared,
    /// Leave the event loop.
    Quit,
    /// Put this text on the clipboard.
    Paste(String),
    /// Nothing to do.
    Nothing,
}

/// The index of the first of `ids` from `i` on that equals `id`, or `ids.len()`.
pub open spec fn position_from(ids: Seq<Seq<char>>, id: Seq<char>, i: int) -> int
    decreases ids.len() - i,
{
    if i < 0 || i >= ids.len() {
        ids.len() as int
    } else if ids[i] == id {
        i
    } else {
        position_from(ids, id, i + 1)
    }
}

/// What a click on the item `id` must do, where `item_ids` are the ids of
/// the listed clippings in menu order.
pub open spec fn menu_outcome(
    action: MenuAction,
    before: Seq<Clipping>,
    after: Seq<Clipping>,
    id: Seq<char>,
    item_ids: Seq<Seq<char>>,
) -> bool {
    if id == seq!['p', 'r', 'e', 'f', 's'] {
        action is OpenPreferences && after == before
    } else if id == seq!['c', 'l', 'e', 'a', 'r'] {
        action is HistoryCleared && after.len() == 0
    } else if id == seq!['q', 'u', 'i', 't'] {
        action is Quit && after == before
    } else {
        let p = position_from(item_ids, id, 0);
        &&& after == before
        &&& if p < item_ids.len() && p < before.len() && before[p].text() is Some {
            action matches MenuAction::Paste(s) && Some(s@) == before[p].text()
        } else {
            action is Nothing
        }
    }
}

/// No id occurs twice in `ids`.
pub open spec fn distinct_ids(ids: Seq<Seq<char>>) -> bool {
    forall|a: int, b: int| 0 <= a < b < ids.len() ==> ids[a] != ids[b]
}

/// A click on the `i`-th listed clipping finds that clipping: with distinct
/// item ids, the id at index `i` is found at index `i`, so
/// `handle_menu_event` pastes the text of the `i`-th clipping.
pub proof fn lemma_click_finds_entry(ids: Seq<Seq<char>>, i: int)
    requires
        distinct_ids(ids),
        0 <= i < ids.len(),
    ensures
        position_from(ids, ids[i], 0) == i,
{
    lemma_position_from_skips(ids, i, 0);
}

proof fn lemma_position_from_skips(ids: Seq<Seq<char>>, i: int, j: int)
    requires
        distinct_ids(ids),
        0 <= j <= i < ids.len(),
    ensures
        position_from(ids, ids[i], j) == i,
    decreases i - j,
{
    if j < i {
        assert(ids[j] != ids[i]);
        lemma_position_from_skips(ids, i, j + 1);
    }
}

fn same_text(a: &str, b: &str) -> (r: bool)
    ensures
        r == (a@ == b@),
{
    String::from_str(a) == String::from_str(b)
}

/// Handles a click on the menu item `id`. `item_ids` are the ids of the
/// listed clippings, in the order `plan_menu` listed them.
pub fn handle_menu_event(history: &mut VecDeque<Clipping>, id: &str, item_ids: &Vec<String>) -> (action: MenuAction)
    ensures
        menu_outcome(action, old(history)@, final(history)@, id@, item_ids.deep_view()),
        forall|i: int|
            0 <= i < item_ids@.len() && i < old(history)@.len() && (#[trigger] item_ids@[i])@
                == id@ && (forall|a: int, b: int|
                0 <= a < b < item_ids@.len() ==> item_ids@[a]@ != item_ids@[b]@) && id@ != seq![
                'p',
                'r',
                'e',
                'f',
                's',
            ] && id@ != seq!['c', 'l', 'e', 'a', 'r'] && id@ != seq!['q', 'u', 'i', 't']
                && old(history)@[i].text() is Some ==> (action matches MenuAction::Paste(s) && Some(
                s@,
            ) == old(history)@[i].text()) && final(history)@ == old(history)@,
{
    if same_text(id, preferences_id()) {
        return MenuAction::OpenPreferences;
    }
    if same_text(id, clear_id()) {
        history.clear();
        return MenuAction::HistoryCleared;
    }
    if same_text(id, quit_id()) {
        return MenuAction::Quit;
    }
    let ghost ids = item_ids.deep_view();
    let mut p: usize = 0;
    while p < item_ids.len() && !same_text(item_ids[p].as_str(), id)
        invariant
            ids == item_ids.deep_view(),
            ids.len() == item_ids.len(),
            p <= item_ids.len(),
            position_from(ids, id@, 0) == position_from(ids, id@, p as int),
        decreases item_ids.len() - p,
    {
        assert(ids[p as int] == item_ids@[p as int]@);
        p = p + 1;
    }
    if p < item_ids.len() {
        assert(ids[p as int] == item_ids@[p as int]@);
    }
    proof {
        assert forall|i: int|
            0 <= i < item_ids@.len() && (#[trigger] item_ids@[i])@ == id@ && (forall|a: int, b: int|
                0 <= a < b < item_ids@.len() ==> item_ids@[a]@ != item_ids@[b]@) implies p == i by {
            assert forall|a: int, b: int| 0 <= a < b < ids.len() implies ids[a] != ids[b] by {
                assert(ids[a] == item_ids@[a]@ && ids[b] == item_ids@[b]@);
            }
            assert(ids[i] == item_ids@[i]@);
            lemma_click_finds_entry(ids, i);
        }
    }
    if p < item_ids.len() && p < history.len() {
        match history[p].decompress() {
            Some(text) => MenuAction::Paste(text),
            None => MenuAction::Nothing,
        }
    } else {
        MenuAction::Nothing
    }
}

} // verus!
