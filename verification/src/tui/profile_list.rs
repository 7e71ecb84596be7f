//! The profile list: selection, the search filter, delete confirmation, and the keys that act
//! on them.
use vstd::prelude::*;

use vstd::arithmetic::div_mod::{lemma_add_mod_noop, lemma_mod_self_0, lemma_small_mod};

use crate::hardware::mib;
use crate::text::{concat, concat3, copy_str, decimal, decimal_string, pop_char, without_last};
use crate::tui::profile_edit::{field_views, new_form, profile_form, EditState, FieldView};
use crate::tui::{
    editor_wf, first_row, lemma_shown_in_range, list_wf, shown_of, App, Key, Screen,
};

verus! {

/// The list's state; `selected` is the highlighted row.
#[derive(Debug, Clone, PartialEq, Eq)]
pub struct ListState {
    pub selected: Option<usize>,
    pub filter: String,
    pub filtering: bool,
    pub confirm_delete: bool,
}

impl ListState {
    /// A list of `count` profiles: the first selected if there is one, no filter.
    pub fn new(count: usize) -> (r: ListState)
        ensures
            r.selected == (if count > 0 {
                Some(0usize)
            } else {
                None
            }),
            r.filter@.len() == 0,
            !r.filtering,
            !r.confirm_delete,
    {
        ListState {
            selected: if count > 0 {
                Some(0)
            } else {
                None
            },
            filter: String::new(),
            filtering: false,
            confirm_delete: false,
        }
    }
}

/// What the list asks of its caller after a key: nothing, or to delete the profile with this
/// slug (and then to report the outcome with `App::on_delete_result`).
#[derive(Debug, Clone, PartialEq, Eq)]
pub enum ListAction {
    Nothing,
    Delete(String),
}

pub open spec fn is_quit_key(key: Key) -> bool {
    key == Key::Esc || key == Key::Char('q')
}

pub open spec fn is_down_key(key: Key) -> bool {
    key == Key::Down || key == Key::Char('j')
}

pub open spec fn is_up_key(key: Key) -> bool {
    key == Key::Up || key == Key::Char('k')
}

pub open spec fn is_open_key(key: Key) -> bool {
    key == Key::Enter || key == Key::Char('e')
}

/// The search filter after `key` while it is typed: Esc clears it, Backspace drops its last
/// character, a character is appended, anything else leaves it.
pub open spec fn filter_after(filter: Seq<char>, key: Key) -> Seq<char> {
    match key {
        Key::Esc => Seq::empty(),
        Key::Backspace => without_last(filter),
        Key::Char(c) => filter.push(c),
        _ => filter,
    }
}

/// The selection after one step down (`down`) or up in a list of `count` rows, wrapping
/// around at both ends; no selection counts as the first row, and an empty list keeps it.
pub open spec fn moved(sel: Option<usize>, count: nat, down: bool) -> Option<usize> {
    if count == 0 {
        sel
    } else {
        let i: int = match sel {
            Some(i) => i as int,
            None => 0,
        };
        Some(
            (if down {
                (i + 1) % (count as int)
            } else if i == 0 {
                count - 1
            } else {
                i - 1
            }) as usize,
        )
    }
}

/// A freshly opened editor over `form`.
pub open spec fn opened(e: EditState, form: Seq<FieldView>, is_new: bool) -> bool {
    &&& e.is_new == is_new
    &&& field_views(e.fields@) == form
    &&& e.selected == 0
    &&& !e.editing_text
}

/// `b` keeps everything of `a` outside the list's own state.
pub open spec fn same_outside_list(a: App, b: App) -> bool {
    &&& b.profiles == a.profiles
    &&& b.hardware == a.hardware
    &&& b.view == a.view
    &&& b.edit_state == a.edit_state
    &&& b.should_quit == a.should_quit
    &&& b.status_message == a.status_message
}

/// Whether a key typed into the filter changes it (Esc clears it, Backspace and characters
/// edit it).
pub open spec fn edits_filter(key: Key) -> bool {
    key == Key::Esc || key == Key::Backspace || key is Char
}

/// A key while the filter is typed: the filter and whether it is typed change; when the key
/// edits the filter, the selection starts over on the first row that the new filter shows.
pub open spec fn filter_key_effect(a: App, b: App, key: Key, act: ListAction) -> bool {
    &&& same_outside_list(a, b)
    &&& b.list_state.filter@ == filter_after(a.list_state.filter@, key)
    &&& b.list_state.filtering == !(key == Key::Esc || key == Key::Enter)
    &&& b.list_state.selected == (if edits_filter(key) {
        first_row(shown_of(b).len())
    } else {
        a.list_state.selected
    })
    &&& b.list_state.confirm_delete == a.list_state.confirm_delete
    &&& act == ListAction::Nothing
}

/// A key while a deletion waits for confirmation: `y` asks to delete the profile of the
/// selected row (nothing when the selection is past the rows shown), any other key cancels;
/// either way the question is closed.
pub open spec fn confirm_key_effect(a: App, b: App, key: Key, act: ListAction) -> bool {
    &&& b.profiles == a.profiles
    &&& b.hardware == a.hardware
    &&& b.view == a.view
    &&& b.edit_state == a.edit_state
    &&& b.should_quit == a.should_quit
    &&& b.list_state.selected == a.list_state.selected
    &&& b.list_state.filter == a.list_state.filter
    &&& b.list_state.filtering == a.list_state.filtering
    &&& !b.list_state.confirm_delete
    &&& if key == Key::Char('y') {
        &&& b.status_message == a.status_message
        &&& match a.list_state.selected {
            Some(i) => if i < shown_of(a).len() {
                act matches ListAction::Delete(s) && s@ == a.profiles@[shown_of(a)[i as int] as int].0@
            } else {
                act == ListAction::Nothing
            },
            None => act == ListAction::Nothing,
        }
    } else {
        &&& b.status_message matches Some(m) && m@ == "Delete cancelled"@
        &&& act == ListAction::Nothing
    }
}

/// A key while browsing: q or Esc quits, j/k or the arrows move the selection over the rows
/// shown with wrap-around, e or Enter opens the profile of the selected row (if it is shown), n
/// opens a new
/// one, d asks to confirm a deletion when a row is selected, / starts a new search (every
/// profile shown, the first one selected).
pub open spec fn browse_key_effect(a: App, b: App, key: Key, act: ListAction) -> bool {
    let sel = a.list_state.selected;
    let shown = shown_of(a);
    &&& b.profiles == a.profiles
    &&& b.hardware == a.hardware
    &&& b.status_message == a.status_message
    &&& act == ListAction::Nothing
    &&& b.should_quit == (a.should_quit || is_quit_key(key))
    &&& b.list_state.selected == (if is_down_key(key) {
        moved(sel, shown.len(), true)
    } else if is_up_key(key) {
        moved(sel, shown.len(), false)
    } else if key == Key::Char('/') {
        first_row(a.profiles@.len())
    } else {
        sel
    })
    &&& b.list_state.confirm_delete == (key == Key::Char('d') && sel is Some)
    &&& b.list_state.filtering == (key == Key::Char('/'))
    &&& if key == Key::Char('/') {
        b.list_state.filter@.len() == 0
    } else {
        b.list_state.filter == a.list_state.filter
    }
    &&& if is_open_key(key) && sel is Some && sel->0 < shown.len() {
        let idx = shown[sel->0 as int];
        &&& b.view == Screen::Edit(idx)
        &&& b.edit_state matches Some(e) && opened(
            e,
            profile_form(a.profiles@[idx as int].0@, a.profiles@[idx as int].1@),
            false,
        )
    } else if key == Key::Char('n') {
        &&& b.view == Screen::New
        &&& b.edit_state matches Some(e) && opened(e, new_form(), true)
    } else {
        &&& b.view == a.view
        &&& b.edit_state == a.edit_state
    }
}

/// The list's answer to a key: the filter's keys while it is typed, else the confirmation's
/// while a deletion waits, else the browsing keys.
pub fn handle_input(app: &mut App, key: Key) -> (r: ListAction)
    ensures
        list_wf(old(app)) ==> list_wf(final(app)),
        editor_wf(old(app)) ==> editor_wf(final(app)),
        old(app).list_state.filtering ==> filter_key_effect(*old(app), *final(app), key, r),
        !old(app).list_state.filtering && old(app).list_state.confirm_delete
            ==> confirm_key_effect(*old(app), *final(app), key, r),
        !old(app).list_state.filtering && !old(app).list_state.confirm_delete
            ==> browse_key_effect(*old(app), *final(app), key, r),
{
    proof {
        lemma_shown_in_range(app.profiles@, app.list_state.filter@);
    }
    if app.list_state.filtering {
        let edits = match key {
            Key::Esc => {
                app.list_state.filtering = false;
                app.list_state.filter = String::new();
                true
            },
            Key::Enter => {
                app.list_state.filtering = false;
                false
            },
            Key::Backspace => {
                pop_char(&mut app.list_state.filter);
                true
            },
            Key::Char(c) => {
                app.list_state.filter.push(c);
                true
            },
            _ => false,
        };
        if edits {
            let rows = app.filtered_indices().len();
            app.list_state.selected = if rows > 0 {
                Some(0)
            } else {
                None
            };
        }
        return ListAction::Nothing;
    }
    if app.list_state.confirm_delete {
        app.list_state.confirm_delete = false;
        let yes = match key {
            Key::Char(c) => c == 'y',
            _ => false,
        };
        if yes {
            return match app.list_state.selected {
                Some(row) => {
                    let shown = app.filtered_indices();
                    if row < shown.len() {
                        let idx = shown[row];
                        ListAction::Delete(app.profiles[idx].0.clone())
                    } else {
                        ListAction::Nothing
                    }
                },
                None => ListAction::Nothing,
            };
        } else {
            app.status_message = Some(copy_str("Delete cancelled"));
            return ListAction::Nothing;
        }
    }
    match key {
        Key::Esc => {
            app.should_quit = true;
        },
        Key::Down => {
            select_next(app);
        },
        Key::Up => {
            select_previous(app);
        },
        Key::Enter => {
            open_selected(app);
        },
        Key::Char(c) => {
            if c == 'q' {
                app.should_quit = true;
            } else if c == 'j' {
                select_next(app);
            } else if c == 'k' {
                select_previous(app);
            } else if c == 'e' {
                open_selected(app);
            } else if c == 'n' {
                let st = EditState::new_profile();
                assert(field_views(st.fields@).len() == st.fields@.len());
                app.edit_state = Some(st);
                app.view = Screen::New;
            } else if c == 'd' {
                if app.list_state.selected.is_some() {
                    app.list_state.confirm_delete = true;
                }
            } else if c == '/' {
                app.list_state.filtering = true;
                app.list_state.filter = String::new();
                app.list_state.selected = if app.profiles.len() > 0 {
                    Some(0)
                } else {
                    None
                };
            }
        },
        _ => {},
    }
    ListAction::Nothing
}

/// Moves the selection one row down among the rows shown, wrapping to the first.
fn select_next(app: &mut App)
    ensures
        list_wf(old(app)) ==> list_wf(final(app)),
        final(app).list_state.selected == moved(
            old(app).list_state.selected,
            shown_of(*old(app)).len(),
            true,
        ),
        final(app).list_state.filter == old(app).list_state.filter,
        final(app).list_state.filtering == old(app).list_state.filtering,
        final(app).list_state.confirm_delete == old(app).list_state.confirm_delete,
        same_outside_list(*old(app), *final(app)),
{
    let count = app.filtered_indices().len();
    if count > 0 {
        let i = match app.list_state.selected {
            Some(i) => i,
            None => 0,
        };
        proof {
            lemma_add_mod_noop(i as int, 1, count as int);
            if count == 1 {
                assert(1int % 1int == 0) by (nonlinear_arith);
            } else {
                lemma_small_mod(1, count as nat);
            }
        }
        app.list_state.selected = Some((i % count + 1) % count);
    }
}

/// Moves the selection one row up among the rows shown, wrapping to the last.
fn select_previous(app: &mut App)
    ensures
        list_wf(old(app)) ==> list_wf(final(app)),
        final(app).list_state.selected == moved(
            old(app).list_state.selected,
            shown_of(*old(app)).len(),
            false,
        ),
        final(app).list_state.filter == old(app).list_state.filter,
        final(app).list_state.filtering == old(app).list_state.filtering,
        final(app).list_state.confirm_delete == old(app).list_state.confirm_delete,
        same_outside_list(*old(app), *final(app)),
{
    let count = app.filtered_indices().len();
    if count > 0 {
        let i = match app.list_state.selected {
            Some(i) => i,
            None => 0,
        };
        app.list_state.selected = Some(
            if i == 0 {
                count - 1
            } else {
                i - 1
            },
        );
    }
}

/// Opens the profile of the selected row in the editor, if a row is selected.
fn open_selected(app: &mut App)
    ensures
        editor_wf(old(app)) ==> editor_wf(final(app)),
        final(app).profiles == old(app).profiles,
        final(app).hardware == old(app).hardware,
        final(app).list_state == old(app).list_state,
        final(app).should_quit == old(app).should_quit,
        final(app).status_message == old(app).status_message,
        match old(app).list_state.selected {
            Some(row) if row < shown_of(*old(app)).len() => {
                let idx = shown_of(*old(app))[row as int];
                &&& final(app).view == Screen::Edit(idx)
                &&& final(app).edit_state matches Some(e) && opened(
                    e,
                    profile_form(old(app).profiles@[idx as int].0@, old(app).profiles@[idx as int].1@),
                    false,
                )
            },
            _ => final(app).view == old(app).view && final(app).edit_state == old(
                app,
            ).edit_state,
        },
{
    proof {
        lemma_shown_in_range(app.profiles@, app.list_state.filter@);
    }
    if let Some(row) = app.list_state.selected {
        let shown = app.filtered_indices();
        if row >= shown.len() {
            return;
        }
        let idx = shown[row];
        let st = EditState::from_profile(app.profiles[idx].0.clone(), app.profiles[idx].1.copy(), false);
        assert(field_views(st.fields@).len() == st.fields@.len());
        app.edit_state = Some(st);
        app.view = Screen::Edit(idx);
    }
}

// ----- What the list shows -----

/// The list's title: the confirmation question while a deletion waits, else the keys.
pub open spec fn title_text(confirm_delete: bool) -> Seq<char> {
    if confirm_delete {
        " Profiles \u{2014} Press 'y' to confirm delete, any other key to cancel "@
    } else {
        " Profiles \u{2014} (n)ew  (e)dit  (d)elete  (/)search  (q)uit "@
    }
}

/// The list's title (see `title_text`).
pub fn list_title(confirm_delete: bool) -> (r: String)
    ensures
        r@ == title_text(confirm_delete),
{
    if confirm_delete {
        copy_str(" Profiles \u{2014} Press 'y' to confirm delete, any other key to cancel ")
    } else {
        copy_str(" Profiles \u{2014} (n)ew  (e)dit  (d)elete  (/)search  (q)uit ")
    }
}

/// The status bar: the filter being typed, else the last message, else the number of
/// profiles; then the V-Cache CCD (its CPUs and L3 size in MiB) or that none was found.
pub open spec fn status_text(app: App) -> Seq<char> {
    let vc = match app.hardware.vcache {
        Some(v) => "V-Cache: CPUs "@ + v.cpus@ + " ("@ + mib(v.l3_size_kb) + "MB L3)"@,
        None => "V-Cache: not detected"@,
    };
    let first = if app.list_state.filtering {
        "/"@ + app.list_state.filter@
    } else {
        match app.status_message {
            Some(m) => m@,
            None => decimal(app.profiles@.len()) + " profiles"@,
        }
    };
    first + " | "@ + vc
}

/// The status bar's text (see `status_text`).
pub fn status_line(app: &App) -> (r: String)
    ensures
        r@ == status_text(*app),
{
    let vc = match &app.hardware.vcache {
        Some(v) => {
            let m = decimal_string(v.l3_size_kb / 1024);
            let a = concat3("V-Cache: CPUs ", v.cpus.as_str(), " (");
            concat3(a.as_str(), m.as_str(), "MB L3)")
        },
        None => copy_str("V-Cache: not detected"),
    };
    let first = if app.list_state.filtering {
        concat("/", app.list_state.filter.as_str())
    } else {
        match &app.status_message {
            Some(m) => m.clone(),
            None => concat(decimal_string(app.profiles.len() as u64).as_str(), " profiles"),
        }
    };
    concat3(first.as_str(), " | ", vc.as_str())
}

/// Moving the selection down and then up, or up and then down, comes back to the same row.
pub proof fn lemma_moves_undo(i: usize, count: usize)
    requires
        i < count,
    ensures
        moved(moved(Some(i), count as nat, true), count as nat, false) == Some(i),
        moved(moved(Some(i), count as nat, false), count as nat, true) == Some(i),
{
    let c = count as int;
    if i + 1 < c {
        lemma_small_mod((i + 1) as nat, count as nat);
    } else {
        lemma_mod_self_0(c);
    }
    if i == 0 {
        lemma_mod_self_0(c);
    } else {
        lemma_small_mod(i as nat, count as nat);
    }
}

/// Typing a character into the filter and then Backspace leaves the filter as it was.
pub proof fn lemma_filter_type_then_erase(filter: Seq<char>, c: char)
    ensures
        filter_after(filter_after(filter, Key::Char(c)), Key::Backspace) == filter,
{
    assert(filter.push(c).drop_last() =~= filter);
}

} // verus!
