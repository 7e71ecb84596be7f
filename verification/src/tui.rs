//! The interactive profile manager's state and the decisions it makes on each key; drawing
//! and the terminal are the caller's.
pub mod profile_edit;
pub mod profile_list;

use vstd::prelude::*;

use crate::config::{listed_name, Profile};
use crate::hardware::HardwareInfo;
use crate::split::{contains_seq, find_chars};
use crate::text::{char_vec, concat, copy_str};
use crate::tui::profile_edit::EditState;
use crate::tui::profile_list::ListState;
use crate::unicode::{to_lowercase, unicode_lowercase};

verus! {

/// Which screen is shown.
#[derive(Debug, Clone, Copy, PartialEq, Eq)]
pub enum Screen {
    List,
    Edit(usize),
    New,
}

/// A key press, as far as the manager tells keys apart.
#[derive(Debug, Clone, Copy, PartialEq, Eq)]
pub enum Key {
    Esc,
    Enter,
    Backspace,
    Up,
    Down,
    Char(char),
    Other,
}

/// The manager's state.
pub struct App {
    pub profiles: Vec<(String, Profile)>,
    pub hardware: HardwareInfo,
    pub view: Screen,
    pub list_state: ListState,
    pub edit_state: Option<EditState>,
    pub should_quit: bool,
    pub status_message: Option<String>,
}

/// What became of a requested profile deletion.
#[derive(Debug, Clone, PartialEq, Eq)]
pub enum DeleteOutcome {
    Deleted,
    NotFound,
    Failed(String),
}

/// Whether a profile matches a (lower-cased) filter: its listed name or its slug, lower-cased,
/// contains the filter.
pub open spec fn profile_matches(slug: Seq<char>, p: Profile, filter_lower: Seq<char>) -> bool {
    contains_seq(unicode_lowercase(listed_name(slug, p)), filter_lower) || contains_seq(
        unicode_lowercase(slug),
        filter_lower,
    )
}

/// The indices of the profiles that match a lower-cased filter, in order.
pub open spec fn matching_indices(
    profiles: Seq<(String, Profile)>,
    filter_lower: Seq<char>,
) -> Seq<usize>
    decreases profiles.len(),
{
    if profiles.len() == 0 {
        Seq::empty()
    } else {
        let rest = matching_indices(profiles.drop_last(), filter_lower);
        let last = profiles.last();
        if profile_matches(last.0@, last.1, filter_lower) {
            rest.push((profiles.len() - 1) as usize)
        } else {
            rest
        }
    }
}

/// The indices of the profiles that the list shows: all of them without a filter, else those
/// that match it, case aside.
pub open spec fn shown_indices(profiles: Seq<(String, Profile)>, filter: Seq<char>) -> Seq<usize> {
    if filter.len() == 0 {
        Seq::new(profiles.len(), |i: int| i as usize)
    } else {
        matching_indices(profiles, unicode_lowercase(filter))
    }
}

/// The indices of the profiles that the list shows now, in the order of its rows.
pub open spec fn shown_of(app: App) -> Seq<usize> {
    shown_indices(app.profiles@, app.list_state.filter@)
}

/// The selection that a list of `rows` rows starts with: the first row, or none.
pub open spec fn first_row(rows: nat) -> Option<usize> {
    if rows > 0 {
        Some(0usize)
    } else {
        None
    }
}

/// The list's selection points at a row that the list shows.
pub open spec fn list_wf(app: &App) -> bool {
    app.list_state.selected matches Some(i) ==> i < shown_of(*app).len()
}

/// The editor's selection points at a field of its form.
pub open spec fn editor_wf(app: &App) -> bool {
    app.edit_state matches Some(e) ==> e.selected < e.fields@.len()
}

/// The app's own consistency: both selections point at what they select.
pub open spec fn app_wf(app: &App) -> bool {
    list_wf(app) && editor_wf(app)
}

/// The rows that the list shows stand for profiles, at most one row per profile, in the order
/// of the profiles.
pub proof fn lemma_shown_in_range(profiles: Seq<(String, Profile)>, filter: Seq<char>)
    ensures
        shown_indices(profiles, filter).len() <= profiles.len(),
        forall|k: int|
            0 <= k < shown_indices(profiles, filter).len() ==> #[trigger] shown_indices(
                profiles,
                filter,
            )[k] < profiles.len(),
        profiles.len() <= usize::MAX ==> forall|a: int, b: int|
            0 <= a < b < shown_indices(profiles, filter).len() ==> #[trigger] shown_indices(
                profiles,
                filter,
            )[a] < #[trigger] shown_indices(profiles, filter)[b],
{
    if filter.len() > 0 {
        lemma_matching_in_range(profiles, unicode_lowercase(filter));
    }
}

proof fn lemma_matching_in_range(profiles: Seq<(String, Profile)>, filter_lower: Seq<char>)
    ensures
        matching_indices(profiles, filter_lower).len() <= profiles.len(),
        forall|k: int|
            0 <= k < matching_indices(profiles, filter_lower).len() ==> #[trigger] matching_indices(
                profiles,
                filter_lower,
            )[k] < profiles.len(),
        profiles.len() <= usize::MAX ==> forall|a: int, b: int|
            0 <= a < b < matching_indices(profiles, filter_lower).len() ==> #[trigger] matching_indices(
                profiles,
                filter_lower,
            )[a] < #[trigger] matching_indices(profiles, filter_lower)[b],
    decreases profiles.len(),
{
    if profiles.len() > 0 {
        lemma_matching_in_range(profiles.drop_last(), filter_lower);
        let rest = matching_indices(profiles.drop_last(), filter_lower);
        let m = matching_indices(profiles, filter_lower);
        if profiles.len() <= usize::MAX {
            assert forall|a: int, b: int| 0 <= a < b < m.len() implies #[trigger] m[a] < #[trigger] m[b] by {
                assert(m[a] == rest[a]);
                if b < rest.len() {
                    assert(m[b] == rest[b]);
                } else {
                    assert(m[b] == (profiles.len() - 1) as usize);
                }
            }
        }
    }
}

proof fn lemma_matching_contains(profiles: Seq<(String, Profile)>, filter_lower: Seq<char>, i: int)
    requires
        0 <= i < profiles.len(),
        profiles.len() <= usize::MAX,
    ensures
        matching_indices(profiles, filter_lower).contains(i as usize) <==> (contains_seq(
            unicode_lowercase(listed_name(profiles[i].0@, profiles[i].1)),
            filter_lower,
        ) || contains_seq(unicode_lowercase(profiles[i].0@), filter_lower)),
    decreases profiles.len(),
{
    broadcast use vstd::seq_lib::group_seq_properties;

    let rest = matching_indices(profiles.drop_last(), filter_lower);
    let last = (profiles.len() - 1) as usize;
    lemma_matching_in_range(profiles.drop_last(), filter_lower);
    assert(!rest.contains(last)) by {
        if rest.contains(last) {
            let k = choose|k: int| 0 <= k < rest.len() && rest[k] == last;
            assert(rest[k] < profiles.drop_last().len());
        }
    }
    if i < profiles.len() - 1 {
        lemma_matching_contains(profiles.drop_last(), filter_lower, i);
        assert(profiles.drop_last()[i] == profiles[i]);
        assert(i as usize != last);
    } else {
        assert(i as usize == last);
        assert(profiles.last() == profiles[i]);
    }
}

/// Without a filter the list shows every profile; with one it shows exactly the profiles whose
/// listed name or slug, lower-cased, contains the lower-cased filter, so a profile can be found
/// by its slug as well as by its name.
pub proof fn lemma_shown_by_name_or_slug(profiles: Seq<(String, Profile)>, filter: Seq<char>, i: int)
    requires
        0 <= i < profiles.len(),
        profiles.len() <= usize::MAX,
    ensures
        filter.len() == 0 ==> shown_indices(profiles, filter).contains(i as usize),
        filter.len() > 0 ==> (shown_indices(profiles, filter).contains(i as usize) <==> (
        contains_seq(
            unicode_lowercase(listed_name(profiles[i].0@, profiles[i].1)),
            unicode_lowercase(filter),
        ) || contains_seq(unicode_lowercase(profiles[i].0@), unicode_lowercase(filter)))),
{
    broadcast use vstd::seq_lib::group_seq_properties;

    if filter.len() == 0 {
        assert(shown_indices(profiles, filter)[i] == i as usize);
    } else {
        lemma_matching_contains(profiles, unicode_lowercase(filter), i);
    }
}

impl App {
    /// The manager over the given profiles and hardware, on the list, with nothing selected
    /// when there are no profiles and the first one selected otherwise.
    pub fn new(profiles: Vec<(String, Profile)>, hardware: HardwareInfo) -> (r: App)
        ensures
            r.profiles == profiles,
            r.hardware == hardware,
            r.view == Screen::List,
            r.list_state.selected == first_row(profiles@.len()),
            r.list_state.filter@.len() == 0,
            !r.list_state.filtering,
            !r.list_state.confirm_delete,
            r.edit_state is None,
            !r.should_quit,
            r.status_message is None,
            app_wf(&r),
    {
        let list_state = ListState::new(profiles.len());
        App {
            profiles,
            hardware,
            view: Screen::List,
            list_state,
            edit_state: None,
            should_quit: false,
            status_message: None,
        }
    }

    /// Takes the freshly listed profiles; the list starts over (selection on the first, no
    /// filter).
    pub fn reload_profiles(&mut self, profiles: Vec<(String, Profile)>)
        ensures
            final(self).profiles == profiles,
            final(self).list_state.selected == first_row(profiles@.len()),
            final(self).list_state.filter@.len() == 0,
            !final(self).list_state.filtering,
            !final(self).list_state.confirm_delete,
            final(self).hardware == old(self).hardware,
            final(self).view == old(self).view,
            final(self).edit_state == old(self).edit_state,
            final(self).should_quit == old(self).should_quit,
            final(self).status_message == old(self).status_message,
            list_wf(final(self)),
            editor_wf(old(self)) ==> editor_wf(final(self)),
    {
        self.list_state = ListState::new(profiles.len());
        self.profiles = profiles;
    }

    /// The indices of the profiles that the list shows under its filter.
    pub fn filtered_indices(&self) -> (r: Vec<usize>)
        ensures
            r@ == shown_indices(self.profiles@, self.list_state.filter@),
    {
        let n = self.profiles.len();
        if self.list_state.filter.as_str().is_empty() {
            let mut r: Vec<usize> = Vec::new();
            for i in 0..n
                invariant
                    n == self.profiles@.len(),
                    r@ == Seq::new(i as nat, |k: int| k as usize),
            {
                r.push(i);
                assert(r@ =~= Seq::new((i + 1) as nat, |k: int| k as usize));
            }
            return r;
        }
        let filter = to_lowercase(self.list_state.filter.as_str());
        let fl = char_vec(filter.as_str());
        let mut r: Vec<usize> = Vec::new();
        let ghost ps = self.profiles@;
        assert(ps.take(0) =~= Seq::<(String, Profile)>::empty());
        for i in 0..n
            invariant
                n == self.profiles@.len(),
                ps == self.profiles@,
                fl@ == unicode_lowercase(self.list_state.filter@),
                r@ == matching_indices(ps.take(i as int), fl@),
        {
            let ghost t = ps.take(i + 1);
            assert(t.drop_last() =~= ps.take(i as int));
            assert(t.last() == ps[i as int]);
            let (slug, profile) = &self.profiles[i];
            let name: &str = match &profile.name {
                Some(nm) => nm.as_str(),
                None => slug.as_str(),
            };
            let name_l = char_vec(to_lowercase(name).as_str());
            let slug_l = char_vec(to_lowercase(slug.as_str()).as_str());
            let hit = find_chars(&name_l, &fl).is_some() || find_chars(&slug_l, &fl).is_some();
            if hit {
                r.push(i);
            }
        }
        assert(ps.take(n as int) =~= ps);
        r
    }

    /// Records what became of deleting `slug`; whether the profiles should be listed again.
    pub fn on_delete_result(&mut self, slug: &str, outcome: DeleteOutcome) -> (reload: bool)
        ensures
            reload == (outcome == DeleteOutcome::Deleted),
            final(self).status_message matches Some(m) && m@ == match outcome {
                DeleteOutcome::Deleted => "Deleted '"@ + slug@ + "'"@,
                DeleteOutcome::NotFound => "'"@ + slug@ + "' not found"@,
                DeleteOutcome::Failed(e) => "Error: "@ + e@,
            },
            final(self).profiles == old(self).profiles,
            final(self).list_state == old(self).list_state,
            final(self).view == old(self).view,
            final(self).edit_state == old(self).edit_state,
            final(self).should_quit == old(self).should_quit,
            app_wf(old(self)) ==> app_wf(final(self)),
    {
        match outcome {
            DeleteOutcome::Deleted => {
                self.status_message = Some(concat(concat("Deleted '", slug).as_str(), "'"));
                true
            },
            DeleteOutcome::NotFound => {
                self.status_message = Some(concat(concat("'", slug).as_str(), "' not found"));
                false
            },
            DeleteOutcome::Failed(e) => {
                self.status_message = Some(concat("Error: ", e.as_str()));
                false
            },
        }
    }

    /// Records whether saving the edited profile `slug` worked (`Err` holds the reason); on
    /// success the editor closes. Returns whether the profiles should be listed again.
    pub fn on_save_result(&mut self, slug: &str, result: Result<(), String>) -> (reload: bool)
        ensures
            reload == result is Ok,
            final(self).status_message matches Some(m) && m@ == match result {
                Ok(()) => "Saved profile '"@ + slug@ + "'"@,
                Err(e) => "Save failed: "@ + e@,
            },
            result is Ok ==> final(self).edit_state is None && final(self).view == Screen::List,
            result is Err ==> final(self).edit_state == old(self).edit_state && final(self).view
                == old(self).view,
            final(self).profiles == old(self).profiles,
            final(self).list_state == old(self).list_state,
            final(self).should_quit == old(self).should_quit,
            app_wf(old(self)) ==> app_wf(final(self)),
    {
        match result {
            Ok(()) => {
                self.status_message = Some(concat(concat("Saved profile '", slug).as_str(), "'"));
                self.edit_state = None;
                self.view = Screen::List;
                true
            },
            Err(e) => {
                self.status_message = Some(concat("Save failed: ", e.as_str()));
                false
            },
        }
    }
}

} // verus!
