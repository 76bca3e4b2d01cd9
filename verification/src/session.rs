//! The selection/confirmation state machine: the interactive session's
//! authoritative entry collection, its derived filtered/sorted view, the
//! cursor, the multi-select set of authoritative indices, the pending
//! action awaiting confirmation, and the search buffer. Every transition
//! is a pure state change; the host reads events, performs the backend
//! calls a confirmed action requires, and hands their outcomes back.
use vstd::prelude::*;
use vstd::string::StrSliceExecFns;
use vstd::string::StringExecFns;
use crate::batch::{
    attempt_fails, errors_upto, successes_upto, ActionOutcome, BatchProcessor, BatchResult,
};
use crate::filter::{effective_view, filtered, sort_spec, Filter, FilterView, SortBy};
use crate::filter::sort_entries;
use crate::models::{same_identity, Action, ActionFailure, ErrorKind, StartupEntry};
use crate::stats::ScanStatistics;
use crate::text::{dec_digits, str_eq};
use crate::whitelist::{is_exempt, WhitelistConfig};

verus! {

broadcast use {vstd::seq_lib::group_to_multiset_ensures, vstd::multiset::group_multiset_axioms};

/// The session's interaction states. `Browsing` is initial.
#[derive(Debug, Clone, Copy, PartialEq, Eq, Structural)]
pub enum Mode {
    Browsing,
    Searching,
    PendingConfirmation,
    ViewingStats,
    ViewingHelp,
}

/// The pending action and its authoritative target indices, as values.
pub open spec fn pending_view(p: Option<(Action, Vec<usize>)>) -> Option<(Action, Seq<usize>)> {
    match p {
        Some(pair) => Some((pair.0, pair.1@)),
        None => None,
    }
}

/// The authoritative index the engine resolves an entry to: the first
/// entry with the same `(name, source, command)` identity.
pub open spec fn resolve_idx(all: Seq<StartupEntry>, e: StartupEntry) -> Option<int>
    decreases all.len(),
{
    if all.len() == 0 {
        None
    } else if same_identity(all[0], e) {
        Some(0int)
    } else {
        match resolve_idx(all.skip(1), e) {
            Some(i) => Some(i + 1),
            None => None,
        }
    }
}

/// The first position of `x` in `v`.
pub open spec fn first_index(v: Seq<usize>, x: usize) -> Option<int>
    decreases v.len(),
{
    if v.len() == 0 {
        None
    } else if v[0] == x {
        Some(0int)
    } else {
        match first_index(v.skip(1), x) {
            Some(i) => Some(i + 1),
            None => None,
        }
    }
}

/// The authoritative indices whose attempt succeeded, among the first `p`
/// targets. An `Enable` attempt never succeeds.
pub open spec fn succ_set(
    targets: Seq<usize>,
    action: Action,
    outcomes: Seq<ActionOutcome>,
    p: int,
) -> Set<int>
    decreases p,
{
    if p <= 0 {
        Set::empty()
    } else {
        let rest = succ_set(targets, action, outcomes, p - 1);
        if !attempt_fails(action, outcomes, p - 1) {
            rest.insert(targets[p - 1] as int)
        } else {
            rest
        }
    }
}

/// An entry after a successful disable: only the flag changes.
pub open spec fn disabled_entry(e: StartupEntry) -> StartupEntry {
    StartupEntry { enabled: false, ..e }
}

/// The authoritative collection after the disables at `hit` succeed.
pub open spec fn disable_applied(s: Seq<StartupEntry>, hit: Set<int>) -> Seq<StartupEntry> {
    Seq::new(
        s.len(),
        |i: int|
            if hit.contains(i) {
                disabled_entry(s[i])
            } else {
                s[i]
            },
    )
}

/// The first `n` entries of the collection after the removals at `hit`
/// succeed, in order.
pub open spec fn remove_applied(s: Seq<StartupEntry>, hit: Set<int>, n: int) -> Seq<StartupEntry>
    decreases n,
{
    if n <= 0 {
        Seq::empty()
    } else {
        remove_applied(s, hit, n - 1) + if hit.contains(n - 1) {
            Seq::empty()
        } else {
            seq![s[n - 1]]
        }
    }
}

/// The target entries a pending action resolves to, in target order.
pub open spec fn target_entries(all: Seq<StartupEntry>, targets: Seq<usize>) -> Seq<StartupEntry> {
    Seq::new(targets.len(), |p: int| all[targets[p] as int])
}

/// The word a prompt uses for an action.
pub open spec fn action_word(a: Action) -> Seq<char> {
    match a {
        Action::Disable => "disable"@,
        Action::Remove => "remove"@,
        Action::Enable => "enable"@,
    }
}

/// The confirmation prompt for a multi-select action.
pub open spec fn multi_prompt(a: Action, n: nat) -> Seq<char> {
    "Press 'y' to "@ + action_word(a) + " "@ + dec_digits(n) + " selected entries or 'n' to cancel"@
}

/// The confirmation prompt for a single-entry action.
pub open spec fn single_prompt(a: Action, name: Seq<char>) -> Seq<char> {
    "Press 'y' to "@ + action_word(a) + " '"@ + name + "' or 'n' to cancel"@
}

/// One interactive session: the authoritative collection, the derived
/// view, and the operator's intent.
pub struct App {
    /// The authoritative entry collection, owned by the session for the
    /// process run; mutated only by successful confirmed actions.
    pub all_entries: Vec<StartupEntry>,
    /// The derived view: recomputed from the authoritative collection
    /// after every mutation or query change, never mutated in place.
    pub filtered_entries: Vec<StartupEntry>,
    /// The multi-select set, as authoritative indices, so it survives
    /// view recomputation.
    pub selected_indices: Vec<usize>,
    /// The cursor, as a view index.
    pub selected_index: usize,
    pub mode: Mode,
    pub message: Option<String>,
    /// The action awaiting confirmation and its authoritative targets.
    pub pending_action: Option<(Action, Vec<usize>)>,
    pub search_term: String,
    pub filter: Filter,
    pub stats: ScanStatistics,
    pub sort_by: SortBy,
}

/// The query the view is derived under: the configured filter, narrowed
/// by the live search buffer when one is active.
pub open spec fn app_query(app: App) -> FilterView {
    effective_view(app.filter@, app.search_term@)
}

/// The view is exactly the filtered, sorted derivation of the
/// authoritative collection.
pub open spec fn view_ok(app: App) -> bool {
    app.filtered_entries@ == sort_spec(app.sort_by, filtered(app_query(app), app.all_entries@))
}

/// No authoritative index is marked twice.
pub open spec fn unique_indices(v: Seq<usize>) -> bool {
    forall|j1: int, j2: int| 0 <= j1 < j2 < v.len() ==> v[j1] != v[j2]
}

/// The session's well-formedness: the view is derived, the cursor is in
/// the view (or the view is empty), the multi-select set holds distinct
/// authoritative indices, and every pending target is an authoritative
/// index.
pub open spec fn app_wf(app: App) -> bool {
    &&& view_ok(app)
    &&& app.filtered_entries@.len() == 0 || app.selected_index < app.filtered_entries@.len()
    &&& forall|j: int|
        0 <= j < app.selected_indices@.len() ==> app.selected_indices@[j]
            < app.all_entries@.len()
    &&& unique_indices(app.selected_indices@)
    &&& match pending_view(app.pending_action) {
        Some(pair) => forall|p: int|
            0 <= p < pair.1.len() ==> pair.1[p] < app.all_entries@.len(),
        None => true,
    }
}

/// Which sort key a configuration word names; anything unrecognised means
/// sorting by name.
pub open spec fn sort_key_named(s: Seq<char>) -> SortBy {
    if s == "source"@ {
        SortBy::Source
    } else if s == "status"@ {
        SortBy::Status
    } else if s == "command"@ {
        SortBy::Command
    } else {
        SortBy::Name
    }
}

/// Reads a sort key from its configuration word.
pub fn parse_sort_by(s: &str) -> (k: SortBy)
    ensures
        k == sort_key_named(s@),
{
    if str_eq(s, "source") {
        SortBy::Source
    } else if str_eq(s, "status") {
        SortBy::Status
    } else if str_eq(s, "command") {
        SortBy::Command
    } else {
        SortBy::Name
    }
}

impl App {
    /// Opens a session over the working collection (already
    /// whitelist-excluded), viewing it under the empty query and the
    /// given sort key, in `Browsing` mode with nothing selected.
    pub fn new(entries: Vec<StartupEntry>, sort_by: SortBy) -> (r: App)
        ensures
            r.all_entries@ == entries@,
            r.selected_indices@.len() == 0,
            r.selected_index == 0,
            r.mode == Mode::Browsing,
            r.message is None,
            r.pending_action is None,
            r.search_term@.len() == 0,
            r.filter@.search_term is None,
            r.filter@.source_filter is None,
            r.filter@.enabled_only is None,
            r.filter@.disabled_only is None,
            r.sort_by == sort_by,
            r.stats.total_entries == r.filtered_entries@.len(),
            r.stats.enabled_count == crate::stats::count_enabled(r.filtered_entries@),
            r.stats.enabled_count + r.stats.disabled_count == r.stats.total_entries,
            crate::stats::source_table(r.stats.by_source@, r.filtered_entries@),
            app_wf(r),
    {
        let filter = Filter::new();
        let mut filtered_entries = filter.apply(&entries);
        sort_entries(&mut filtered_entries, sort_by);
        let stats = ScanStatistics::from_entries(&filtered_entries);
        App {
            all_entries: entries,
            filtered_entries,
            selected_indices: Vec::new(),
            selected_index: 0,
            mode: Mode::Browsing,
            message: None,
            pending_action: None,
            search_term: String::new(),
            filter,
            stats,
            sort_by,
        }
    }

    /// Moves the cursor down one row, wrapping at the end; nothing else
    /// changes.
    pub fn next(&mut self)
        requires
            app_wf(*old(self)),
        ensures
            *final(self) == (App {
                selected_index: if old(self).filtered_entries@.len() == 0 {
                    old(self).selected_index
                } else {
                    (((old(self).selected_index + 1) as int) % (
                    old(self).filtered_entries@.len() as int)) as usize
                },
                ..*old(self)
            }),
            app_wf(*final(self)),
    {
        if self.filtered_entries.len() > 0 {
            self.selected_index = (self.selected_index + 1) % self.filtered_entries.len();
        }
    }

    /// Moves the cursor up one row, wrapping at the start; nothing else
    /// changes.
    pub fn previous(&mut self)
        requires
            app_wf(*old(self)),
        ensures
            *final(self) == (App {
                selected_index: if old(self).filtered_entries@.len() == 0 {
                    old(self).selected_index
                } else if old(self).selected_index == 0 {
                    (old(self).filtered_entries@.len() - 1) as usize
                } else {
                    (old(self).selected_index - 1) as usize
                },
                ..*old(self)
            }),
            app_wf(*final(self)),
    {
        if self.filtered_entries.len() > 0 {
            self.selected_index = if self.selected_index == 0 {
                self.filtered_entries.len() - 1
            } else {
                self.selected_index - 1
            };
        }
    }

    /// The entry under the cursor, if the view shows any.
    pub fn get_selected_entry(&self) -> (r: Option<&StartupEntry>)
        ensures
            match r {
                Some(e) => self.selected_index < self.filtered_entries@.len() && *e
                    == self.filtered_entries@[self.selected_index as int],
                None => self.selected_index >= self.filtered_entries@.len(),
            },
    {
        if self.selected_index < self.filtered_entries.len() {
            Some(&self.filtered_entries[self.selected_index])
        } else {
            None
        }
    }

    /// Recomputes the derived view under the current query and sort key,
    /// refreshes the rollup, and clamps the cursor to the new view. The
    /// authoritative collection, the query, and — deliberately — the
    /// multi-select set are untouched: selection is by authoritative
    /// index and survives every view change.
    pub fn apply_filter(&mut self)
        ensures
            final(self).all_entries@ == old(self).all_entries@,
            final(self).filter@ == old(self).filter@,
            final(self).search_term@ == old(self).search_term@,
            final(self).sort_by == old(self).sort_by,
            final(self).selected_indices@ == old(self).selected_indices@,
            final(self).pending_action == old(self).pending_action,
            final(self).mode == old(self).mode,
            final(self).message == old(self).message,
            view_ok(*final(self)),
            final(self).stats.total_entries == final(self).filtered_entries@.len(),
            final(self).stats.enabled_count == crate::stats::count_enabled(
                final(self).filtered_entries@,
            ),
            final(self).stats.enabled_count + final(self).stats.disabled_count == final(
                self
            ).stats.total_entries,
            crate::stats::source_table(
                final(self).stats.by_source@,
                final(self).filtered_entries@,
            ),
            final(self).selected_index == if old(self).selected_index
                < final(self).filtered_entries@.len() || final(self).filtered_entries@.len()
                == 0 {
                old(self).selected_index
            } else {
                (final(self).filtered_entries@.len() - 1) as usize
            },
    {
        let query = if self.search_term.as_str().unicode_len() > 0 {
            self.filter.clone().with_search(self.search_term.clone())
        } else {
            self.filter.clone()
        };
        proof {
            if self.search_term@.len() == 0 {
                assert(self.search_term@ =~= Seq::<char>::empty());
            }
            assert(query@ == app_query(*self));
        }
        let mut view = query.apply(&self.all_entries);
        sort_entries(&mut view, self.sort_by);
        self.filtered_entries = view;
        self.stats = ScanStatistics::from_entries(&self.filtered_entries);
        if self.selected_index >= self.filtered_entries.len() && self.filtered_entries.len() > 0 {
            self.selected_index = self.filtered_entries.len() - 1;
        }
    }

    /// Shows a message to the operator.
    pub fn set_message(&mut self, msg: String)
        ensures
            *final(self) == (App { message: Some(msg), ..*old(self) }),
    {
        self.message = Some(msg);
    }

    /// Clears the operator message.
    pub fn clear_message(&mut self)
        ensures
            *final(self) == (App { message: None, ..*old(self) }),
    {
        self.message = None;
    }

    /// Resolves a view position to its authoritative index by the
    /// `(name, source, command)` identity. Resolution fails closed: a
    /// position that matches no authoritative entry is an `Unresolved`
    /// failure, never a fallback index that could target the wrong entry.
    pub fn get_original_index(&self, filtered_idx: usize) -> (r: Result<usize, ActionFailure>)
        ensures
            match r {
                Ok(i) => filtered_idx < self.filtered_entries@.len() && resolve_idx(
                    self.all_entries@,
                    self.filtered_entries@[filtered_idx as int],
                ) == Some(i as int),
                Err(f) => f.kind == ErrorKind::Unresolved && (filtered_idx
                    >= self.filtered_entries@.len() || resolve_idx(
                    self.all_entries@,
                    self.filtered_entries@[filtered_idx as int],
                ) is None),
            },
    {
        if filtered_idx >= self.filtered_entries.len() {
            return Err(unresolved_failure());
        }
        let entry = &self.filtered_entries[filtered_idx];
        let mut i: usize = 0;
        while i < self.all_entries.len()
            invariant
                i <= self.all_entries@.len(),
                filtered_idx < self.filtered_entries@.len(),
                *entry == self.filtered_entries@[filtered_idx as int],
                forall|k: int|
                    0 <= k < i ==> !same_identity(#[trigger] self.all_entries@[k], *entry),
            decreases self.all_entries@.len() - i,
        {
            if self.all_entries[i].is_same_identity(entry) {
                proof {
                    lemma_resolve_prefix(self.all_entries@, *entry, i as int);
                }
                return Ok(i);
            }
            i += 1;
        }
        proof {
            lemma_resolve_prefix(self.all_entries@, *entry, self.all_entries@.len() as int);
        }
        Err(unresolved_failure())
    }

    /// Toggles the multi-select mark of the entry under the cursor, by
    /// its authoritative index: present, it is withdrawn; absent, it is
    /// added. It fails — closed, with `Unresolved` and no change — exactly
    /// when the cursor is outside the view or the cursor entry's identity
    /// resolves to no authoritative entry.
    pub fn toggle_selection(&mut self) -> (r: Result<(), ActionFailure>)
        requires
            app_wf(*old(self)),
        ensures
            match r {
                Ok(()) => {
                    &&& old(self).selected_index < old(self).filtered_entries@.len()
                    &&& resolve_idx(
                        old(self).all_entries@,
                        old(self).filtered_entries@[old(self).selected_index as int],
                    ) matches Some(idx)
                    &&& match first_index(old(self).selected_indices@, idx as usize) {
                        Some(p) => final(self).selected_indices@ == old(
                            self,
                        ).selected_indices@.remove(p),
                        None => final(self).selected_indices@ == old(
                            self,
                        ).selected_indices@.push(idx as usize),
                    }
                },
                Err(f) => {
                    &&& f.kind == ErrorKind::Unresolved
                    &&& final(self).selected_indices@ == old(self).selected_indices@
                    &&& (old(self).selected_index >= old(self).filtered_entries@.len()
                        || resolve_idx(
                        old(self).all_entries@,
                        old(self).filtered_entries@[old(self).selected_index as int],
                    ) is None)
                },
            },
            final(self).all_entries@ == old(self).all_entries@,
            final(self).filtered_entries@ == old(self).filtered_entries@,
            final(self).selected_index == old(self).selected_index,
            final(self).mode == old(self).mode,
            final(self).pending_action == old(self).pending_action,
            final(self).search_term@ == old(self).search_term@,
            final(self).filter@ == old(self).filter@,
            final(self).sort_by == old(self).sort_by,
            app_wf(*final(self)),
    {
        let idx = match self.get_original_index(self.selected_index) {
            Ok(i) => i,
            Err(f) => {
                return Err(f);
            },
        };
        proof {
            lemma_resolve_in_range(
                self.all_entries@,
                self.filtered_entries@[self.selected_index as int],
            );
        }
        let mut p: usize = 0;
        let n = self.selected_indices.len();
        while p < n
            invariant
                p <= n,
                n == self.selected_indices@.len(),
                *self == *old(self),
                app_wf(*old(self)),
                idx < self.all_entries@.len(),
                old(self).selected_index < old(self).filtered_entries@.len(),
                resolve_idx(
                    old(self).all_entries@,
                    old(self).filtered_entries@[old(self).selected_index as int],
                ) == Some(idx as int),
                forall|k: int| 0 <= k < p ==> self.selected_indices@[k] != idx,
            decreases n - p,
        {
            if self.selected_indices[p] == idx {
                proof {
                    lemma_first_index_prefix(self.selected_indices@, idx, p as int);
                }
                self.selected_indices.remove(p);
                proof {
                    let ghost shifted = |j: int|
                        if j < p {
                            j
                        } else {
                            j + 1
                        };
                    assert forall|j: int|
                        0 <= j < self.selected_indices@.len() implies self.selected_indices@[j]
                        < self.all_entries@.len() by {
                        assert(self.selected_indices@ == old(self).selected_indices@.remove(
                            p as int,
                        ));
                        assert(self.selected_indices@[j] == old(self).selected_indices@[shifted(
                            j,
                        )]);
                    }
                    assert forall|j1: int, j2: int|
                        0 <= j1 < j2 < self.selected_indices@.len() implies self
                        .selected_indices@[j1] != self.selected_indices@[j2] by {
                        assert(self.selected_indices@[j1] == old(self).selected_indices@[shifted(
                            j1,
                        )]);
                        assert(self.selected_indices@[j2] == old(self).selected_indices@[shifted(
                            j2,
                        )]);
                    }
                }
                return Ok(());
            }
            p += 1;
        }
        proof {
            lemma_first_index_prefix(self.selected_indices@, idx, n as int);
        }
        self.selected_indices.push(idx);
        proof {
            assert forall|j1: int, j2: int|
                0 <= j1 < j2 < self.selected_indices@.len() implies self.selected_indices@[j1]
                != self.selected_indices@[j2] by {
                if j2 == self.selected_indices@.len() - 1 {
                    assert(self.selected_indices@[j1] == old(self).selected_indices@[j1]);
                    assert(self.selected_indices@[j2] == idx);
                }
            }
        }
        Ok(())
    }

    /// Opens the search: clears the buffer, restores the unsearched view,
    /// and prompts the operator.
    pub fn begin_search(&mut self)
        requires
            app_wf(*old(self)),
            old(self).mode == Mode::Browsing,
        ensures
            final(self).mode == Mode::Searching,
            final(self).search_term@.len() == 0,
            final(self).all_entries@ == old(self).all_entries@,
            final(self).filter@ == old(self).filter@,
            final(self).sort_by == old(self).sort_by,
            final(self).selected_indices@ == old(self).selected_indices@,
            final(self).pending_action == old(self).pending_action,
            final(self).message matches Some(m) && m@
                == "Enter search term (press Enter to search, Esc to cancel)"@,
            app_wf(*final(self)),
    {
        self.search_term = String::new();
        self.mode = Mode::Searching;
        self.message = Some(
            String::from_str("Enter search term (press Enter to search, Esc to cancel)"),
        );
        self.apply_filter();
    }

    /// One keystroke of search input: appends to the buffer and narrows
    /// the view at once.
    pub fn search_push(&mut self, c: char)
        requires
            app_wf(*old(self)),
            old(self).mode == Mode::Searching,
        ensures
            final(self).mode == Mode::Searching,
            final(self).search_term@ == old(self).search_term@.push(c),
            final(self).all_entries@ == old(self).all_entries@,
            final(self).filter@ == old(self).filter@,
            final(self).sort_by == old(self).sort_by,
            final(self).selected_indices@ == old(self).selected_indices@,
            final(self).pending_action == old(self).pending_action,
            app_wf(*final(self)),
    {
        crate::text::push_char(&mut self.search_term, c);
        self.apply_filter();
    }

    /// One erased keystroke: shortens the buffer and recomputes the view;
    /// with an empty buffer nothing changes.
    pub fn search_backspace(&mut self)
        requires
            app_wf(*old(self)),
            old(self).mode == Mode::Searching,
        ensures
            final(self).mode == Mode::Searching,
            old(self).search_term@.len() == 0 ==> final(self).search_term@ == old(
                self,
            ).search_term@,
            old(self).search_term@.len() > 0 ==> final(self).search_term@ == old(
                self,
            ).search_term@.drop_last(),
            final(self).all_entries@ == old(self).all_entries@,
            final(self).filter@ == old(self).filter@,
            final(self).sort_by == old(self).sort_by,
            final(self).selected_indices@ == old(self).selected_indices@,
            final(self).pending_action == old(self).pending_action,
            app_wf(*final(self)),
    {
        let popped = crate::text::pop_char(&mut self.search_term);
        if popped.is_some() {
            self.apply_filter();
        }
    }

    /// Closes the search keeping the narrowed view.
    pub fn search_confirm(&mut self)
        requires
            app_wf(*old(self)),
            old(self).mode == Mode::Searching,
        ensures
            *final(self) == (App { mode: Mode::Browsing, message: None, ..*old(self) }),
            app_wf(*final(self)),
    {
        self.mode = Mode::Browsing;
        self.message = None;
    }

    /// Abandons the search: clears the buffer and restores the unsearched
    /// — but still whitelist-excluded — view.
    pub fn search_cancel(&mut self)
        requires
            app_wf(*old(self)),
            old(self).mode == Mode::Searching,
        ensures
            final(self).mode == Mode::Browsing,
            final(self).search_term@.len() == 0,
            final(self).message is None,
            final(self).all_entries@ == old(self).all_entries@,
            final(self).filter@ == old(self).filter@,
            final(self).sort_by == old(self).sort_by,
            final(self).selected_indices@ == old(self).selected_indices@,
            final(self).pending_action == old(self).pending_action,
            app_wf(*final(self)),
    {
        self.search_term = String::new();
        self.mode = Mode::Browsing;
        self.message = None;
        self.apply_filter();
    }

    /// Toggles the statistics view.
    pub fn toggle_stats(&mut self)
        requires
            old(self).mode == Mode::Browsing || old(self).mode == Mode::ViewingStats,
            app_wf(*old(self)),
        ensures
            *final(self) == (App {
                mode: if old(self).mode == Mode::ViewingStats {
                    Mode::Browsing
                } else {
                    Mode::ViewingStats
                },
                ..*old(self)
            }),
            app_wf(*final(self)),
    {
        self.mode = if self.mode == Mode::ViewingStats {
            Mode::Browsing
        } else {
            Mode::ViewingStats
        };
    }

    /// Toggles the help view.
    pub fn toggle_help(&mut self)
        requires
            old(self).mode == Mode::Browsing || old(self).mode == Mode::ViewingHelp,
            app_wf(*old(self)),
        ensures
            *final(self) == (App {
                mode: if old(self).mode == Mode::ViewingHelp {
                    Mode::Browsing
                } else {
                    Mode::ViewingHelp
                },
                ..*old(self)
            }),
            app_wf(*final(self)),
    {
        self.mode = if self.mode == Mode::ViewingHelp {
            Mode::Browsing
        } else {
            Mode::ViewingHelp
        };
    }

    /// Orders the view by a new key and recomputes it.
    pub fn set_sort(&mut self, k: SortBy)
        requires
            app_wf(*old(self)),
        ensures
            final(self).sort_by == k,
            final(self).all_entries@ == old(self).all_entries@,
            final(self).filter@ == old(self).filter@,
            final(self).search_term@ == old(self).search_term@,
            final(self).selected_indices@ == old(self).selected_indices@,
            final(self).pending_action == old(self).pending_action,
            final(self).mode == old(self).mode,
            app_wf(*final(self)),
    {
        self.sort_by = k;
        self.apply_filter();
    }

    /// Asks to run `action`: over the whole multi-select set when one is
    /// marked, else over the entry under the cursor, resolved to its
    /// authoritative index. The session awaits confirmation; an empty view
    /// leaves everything as it was, and a cursor that resolves to no
    /// authoritative entry is an `Unresolved` failure — never a guess at
    /// an index.
    pub fn request_action(&mut self, action: Action) -> (r: Result<(), ActionFailure>)
        requires
            app_wf(*old(self)),
            old(self).mode == Mode::Browsing,
        ensures
            old(self).selected_indices@.len() > 0 ==> (r is Ok && final(self).mode
                == Mode::PendingConfirmation && pending_view(final(self).pending_action) == Some(
                (action, old(self).selected_indices@),
            ) && (final(self).message matches Some(m) && m@ == multi_prompt(
                action,
                old(self).selected_indices@.len(),
            ))),
            old(self).selected_indices@.len() == 0 && old(self).selected_index < old(
                self,
            ).filtered_entries@.len() ==> match r {
                Ok(()) => {
                    &&& resolve_idx(
                        old(self).all_entries@,
                        old(self).filtered_entries@[old(self).selected_index as int],
                    ) matches Some(idx)
                    &&& pending_view(final(self).pending_action) == Some(
                        (action, seq![idx as usize]),
                    )
                    &&& final(self).mode == Mode::PendingConfirmation
                    &&& (final(self).message matches Some(m) && m@ == single_prompt(
                        action,
                        old(self).filtered_entries@[old(self).selected_index as int].name@,
                    ))
                },
                Err(f) => f.kind == ErrorKind::Unresolved && *final(self) == *old(self)
                    && resolve_idx(
                    old(self).all_entries@,
                    old(self).filtered_entries@[old(self).selected_index as int],
                ) is None,
            },
            old(self).selected_indices@.len() == 0 && old(self).selected_index >= old(
                self,
            ).filtered_entries@.len() ==> (r is Ok && *final(self) == *old(self)),
            final(self).all_entries@ == old(self).all_entries@,
            final(self).filtered_entries@ == old(self).filtered_entries@,
            final(self).selected_indices@ == old(self).selected_indices@,
            final(self).selected_index == old(self).selected_index,
            final(self).search_term@ == old(self).search_term@,
            final(self).filter@ == old(self).filter@,
            final(self).sort_by == old(self).sort_by,
            app_wf(*final(self)),
    {
        if self.selected_indices.len() > 0 {
            let targets = copy_indices(&self.selected_indices);
            let n = targets.len();
            self.pending_action = Some((action, targets));
            self.mode = Mode::PendingConfirmation;
            let mut m = String::new();
            m.append("Press 'y' to ");
            m.append(action_word_str(action));
            m.append(" ");
            let count = crate::text::u64_to_string(n as u64);
            m.append(count.as_str());
            m.append(" selected entries or 'n' to cancel");
            self.message = Some(m);
            Ok(())
        } else if self.selected_index < self.filtered_entries.len() {
            let idx = match self.get_original_index(self.selected_index) {
                Ok(i) => i,
                Err(f) => {
                    return Err(f);
                },
            };
            proof {
                lemma_resolve_in_range(
                    self.all_entries@,
                    self.filtered_entries@[self.selected_index as int],
                );
            }
            let mut targets: Vec<usize> = Vec::new();
            targets.push(idx);
            proof {
                assert(targets@ =~= seq![idx]);
            }
            self.pending_action = Some((action, targets));
            self.mode = Mode::PendingConfirmation;
            let mut m = String::new();
            m.append("Press 'y' to ");
            m.append(action_word_str(action));
            m.append(" '");
            m.append(self.filtered_entries[self.selected_index].name.as_str());
            m.append("' or 'n' to cancel");
            self.message = Some(m);
            Ok(())
        } else {
            Ok(())
        }
    }

    /// Carries out the pending action. The host has performed the one
    /// backend call per target, in target order, and hands their outcomes
    /// in; an `Enable` action needs no outcomes, since every attempt is
    /// rejected. The session aggregates the outcomes into a report,
    /// applies the state change for each target whose attempt succeeded —
    /// the enabled flag drops on `Disable`, the entry itself on `Remove` —
    /// clears the multi-select set, recomputes the view, surfaces the
    /// report summary, and returns to `Browsing`.
    pub fn confirm_pending(&mut self, outcomes: &Vec<ActionOutcome>) -> (r: BatchResult)
        requires
            app_wf(*old(self)),
            old(self).mode == Mode::PendingConfirmation,
            old(self).pending_action is Some,
            match pending_view(old(self).pending_action) {
                Some(pair) => pair.0 != Action::Enable ==> outcomes@.len() == pair.1.len(),
                None => true,
            },
        ensures
            pending_view(old(self).pending_action) matches Some(pair) ==> ({
                let action = pair.0;
                let targets = pair.1;
                let n = targets.len() as int;
                let tents = target_entries(old(self).all_entries@, targets);
                let hit = succ_set(targets, action, outcomes@, n);
                &&& r.total == n
                &&& r.success == successes_upto(action, outcomes@, n)
                &&& r.success + r.failed == r.total
                &&& r.errors@.map_values(|line: String| line@) == errors_upto(
                    tents,
                    action,
                    outcomes@,
                    n,
                )
                &&& r.errors@.len() == r.failed
                &&& (action == Action::Disable ==> final(self).all_entries@ == disable_applied(
                    old(self).all_entries@,
                    hit,
                ))
                &&& (action == Action::Remove ==> final(self).all_entries@ == remove_applied(
                    old(self).all_entries@,
                    hit,
                    old(self).all_entries@.len() as int,
                ))
                &&& (action == Action::Enable ==> final(self).all_entries@ == old(
                    self,
                ).all_entries@ && r.success == 0 && r.failed == r.total)
            }),
            final(self).mode == Mode::Browsing,
            final(self).pending_action is None,
            final(self).selected_indices@.len() == 0,
            final(self).message matches Some(m) && m@ == crate::batch::summary_view(r),
            final(self).filter@ == old(self).filter@,
            final(self).search_term@ == old(self).search_term@,
            final(self).sort_by == old(self).sort_by,
            app_wf(*final(self)),
    {
        let ghost gall = self.all_entries@;
        proof {
            assert(match pending_view(self.pending_action) {
                Some(pair) => forall|q: int| 0 <= q < pair.1.len() ==> pair.1[q] < gall.len(),
                None => true,
            });
        }
        let pend = self.pending_action.take();
        let (action, targets) = match pend {
            Some(pair) => pair,
            None => vstd::pervasive::unreached(),
        };
        proof {
            assert(forall|q: int| 0 <= q < targets@.len() ==> targets@[q] < gall.len());
        }
        let mut tentries: Vec<StartupEntry> = Vec::new();
        let mut p: usize = 0;
        while p < targets.len()
            invariant
                p <= targets@.len(),
                self.all_entries@ == gall,
                self.pending_action is None,
                forall|q: int| 0 <= q < targets@.len() ==> targets@[q] < gall.len(),
                tentries@.len() == p,
                forall|q: int|
                    0 <= q < p ==> tentries@[q] == gall[#[trigger] targets@[q] as int],
            decreases targets@.len() - p,
        {
            tentries.push(self.all_entries[targets[p]].clone());
            p += 1;
        }
        proof {
            assert(tentries@ =~= target_entries(gall, targets@));
        }
        let processor = BatchProcessor::new(None);
        let result = processor.process_batch(&tentries, action, outcomes);
        if action == Action::Disable {
            let mut q: usize = 0;
            while q < targets.len()
                invariant
                    q <= targets@.len(),
                    outcomes@.len() == targets@.len(),
                    self.pending_action is None,
                    action == Action::Disable,
                    forall|t: int| 0 <= t < targets@.len() ==> targets@[t] < gall.len(),
                    self.all_entries@ == disable_applied(
                        gall,
                        succ_set(targets@, action, outcomes@, q as int),
                    ),
                    self.filter@ == old(self).filter@,
                    self.search_term@ == old(self).search_term@,
                    self.sort_by == old(self).sort_by,
                decreases targets@.len() - q,
            {
                let ghost hit_pre = succ_set(targets@, action, outcomes@, q as int);
                let ghost hit_post = succ_set(targets@, action, outcomes@, q + 1);
                let ok = match &outcomes[q] {
                    Ok(_) => true,
                    Err(_) => false,
                };
                proof {
                    assert(self.all_entries@.len() == gall.len());
                }
                if ok {
                    let idx = targets[q];
                    let ent = self.all_entries.remove(idx);
                    self.all_entries.insert(idx, StartupEntry { enabled: false, ..ent });
                    proof {
                        assert(hit_post == hit_pre.insert(idx as int));
                        assert forall|i: int|
                            0 <= i < gall.len() implies self.all_entries@[i] == disable_applied(
                            gall,
                            hit_post,
                        )[i] by {
                            if i == idx as int {
                                assert(ent == disable_applied(gall, hit_pre)[i]);
                            }
                        }
                        assert(self.all_entries@ =~= disable_applied(gall, hit_post));
                    }
                } else {
                    proof {
                        assert(hit_post == hit_pre);
                    }
                }
                q += 1;
            }
        } else if action == Action::Remove {
            let ghost hit = succ_set(targets@, action, outcomes@, targets@.len() as int);
            let mut kept: Vec<StartupEntry> = Vec::new();
            let mut i: usize = 0;
            while i < self.all_entries.len()
                invariant
                    i <= self.all_entries@.len(),
                    self.all_entries@ == gall,
                    outcomes@.len() == targets@.len(),
                    self.pending_action is None,
                    action == Action::Remove,
                    hit == succ_set(targets@, action, outcomes@, targets@.len() as int),
                    kept@ == remove_applied(gall, hit, i as int),
                    self.filter@ == old(self).filter@,
                    self.search_term@ == old(self).search_term@,
                    self.sort_by == old(self).sort_by,
                decreases self.all_entries@.len() - i,
            {
                let dead = is_hit(&targets, outcomes, action, i);
                if !dead {
                    kept.push(self.all_entries[i].clone());
                    proof {
                        assert(kept@ =~= remove_applied(gall, hit, i as int) + seq![gall[i as int]]);
                    }
                } else {
                    proof {
                        assert(kept@ =~= remove_applied(gall, hit, i as int)
                            + Seq::<StartupEntry>::empty());
                    }
                }
                i += 1;
            }
            self.all_entries = kept;
        }
        self.selected_indices = Vec::new();
        self.mode = Mode::Browsing;
        let msg = result.summary();
        self.message = Some(msg);
        self.apply_filter();
        result
    }

    /// Discards the pending action without any backend call.
    pub fn cancel_pending(&mut self)
        requires
            app_wf(*old(self)),
            old(self).mode == Mode::PendingConfirmation,
        ensures
            *final(self) == (App {
                mode: Mode::Browsing,
                pending_action: None,
                message: None,
                ..*old(self)
            }),
            app_wf(*final(self)),
    {
        self.pending_action = None;
        self.mode = Mode::Browsing;
        self.message = None;
    }
}

/// The word a prompt uses for an action.
fn action_word_str(a: Action) -> (r: &'static str)
    ensures
        r@ == action_word(a),
{
    match a {
        Action::Disable => "disable",
        Action::Remove => "remove",
        Action::Enable => "enable",
    }
}

/// Copies a vector of indices.
fn copy_indices(v: &Vec<usize>) -> (r: Vec<usize>)
    ensures
        r@ == v@,
{
    let mut out: Vec<usize> = Vec::new();
    let mut i: usize = 0;
    while i < v.len()
        invariant
            i <= v@.len(),
            out@ == v@.take(i as int),
        decreases v@.len() - i,
    {
        out.push(v[i]);
        proof {
            assert(out@ =~= v@.take(i + 1));
        }
        i += 1;
    }
    proof {
        assert(v@.take(v@.len() as int) =~= v@);
    }
    out
}

/// Whether authoritative index `i` is a target whose attempt succeeded.
fn is_hit(targets: &Vec<usize>, outcomes: &Vec<ActionOutcome>, action: Action, i: usize) -> (r:
    bool)
    requires
        action != Action::Enable,
        outcomes@.len() == targets@.len(),
    ensures
        r == succ_set(targets@, action, outcomes@, targets@.len() as int).contains(i as int),
{
    let mut found = false;
    let mut p: usize = 0;
    while p < targets.len()
        invariant
            p <= targets@.len(),
            action != Action::Enable,
            outcomes@.len() == targets@.len(),
            found == succ_set(targets@, action, outcomes@, p as int).contains(i as int),
        decreases targets@.len() - p,
    {
        let ok = match &outcomes[p] {
            Ok(_) => true,
            Err(_) => false,
        };
        if ok && targets[p] == i {
            found = true;
        }
        p += 1;
    }
    found
}


/// The failure a position that resolves to no authoritative entry raises.
fn unresolved_failure() -> (f: ActionFailure)
    ensures
        f.kind == ErrorKind::Unresolved,
        f.message@ == "could not resolve the entry to the authoritative collection"@,
{
    ActionFailure {
        kind: ErrorKind::Unresolved,
        message: String::from_str("could not resolve the entry to the authoritative collection"),
    }
}

/// Identity resolution returns the first match: scanning past `i`
/// non-matches pins the result.
proof fn lemma_resolve_prefix(all: Seq<StartupEntry>, e: StartupEntry, i: int)
    requires
        0 <= i <= all.len(),
        forall|k: int| 0 <= k < i ==> !same_identity(#[trigger] all[k], e),
    ensures
        i == all.len() ==> resolve_idx(all, e) is None,
        i < all.len() && same_identity(all[i], e) ==> resolve_idx(all, e) == Some(i),
    decreases i,
{
    if all.len() == 0 {
    } else if i == 0 {
    } else {
        assert(!same_identity(all[0], e));
        let rest = all.skip(1);
        assert(forall|k: int| 0 <= k < i - 1 ==> !same_identity(#[trigger] rest[k], e));
        lemma_resolve_prefix(rest, e, i - 1);
        if i < all.len() && same_identity(all[i], e) {
            assert(rest[i - 1] == all[i]);
        }
    }
}

/// A resolved index is an index of the collection.
pub proof fn lemma_resolve_in_range(all: Seq<StartupEntry>, e: StartupEntry)
    ensures
        resolve_idx(all, e) matches Some(i) ==> 0 <= i < all.len() && same_identity(all[i], e),
    decreases all.len(),
{
    if all.len() > 0 && !same_identity(all[0], e) {
        lemma_resolve_in_range(all.skip(1), e);
    }
}

/// First-occurrence search returns the first match: scanning past `p`
/// non-matches pins the result.
proof fn lemma_first_index_prefix(v: Seq<usize>, x: usize, p: int)
    requires
        0 <= p <= v.len(),
        forall|k: int| 0 <= k < p ==> v[k] != x,
    ensures
        p == v.len() ==> first_index(v, x) is None,
        p < v.len() && v[p] == x ==> first_index(v, x) == Some(p),
    decreases p,
{
    if v.len() == 0 {
    } else if p == 0 {
    } else {
        let rest = v.skip(1);
        lemma_first_index_prefix(rest, x, p - 1);
        if p < v.len() && v[p] == x {
            assert(rest[p - 1] == v[p]);
        }
    }
}


/// What `first_index` returns is the first occurrence: the element is
/// there, nothing before it matches, and `None` means no element matches.
proof fn lemma_first_index_props(v: Seq<usize>, x: usize)
    ensures
        match first_index(v, x) {
            Some(p) => 0 <= p < v.len() && v[p] == x && forall|k: int| 0 <= k < p ==> v[k] != x,
            None => forall|k: int| 0 <= k < v.len() ==> v[k] != x,
        },
    decreases v.len(),
{
    if v.len() == 0 {
    } else if v[0] == x {
    } else {
        let rest = v.skip(1);
        lemma_first_index_props(rest, x);
        match first_index(rest, x) {
            Some(p) => {
                assert(v[p + 1] == rest[p]);
                assert forall|k: int| 0 <= k < p + 1 implies v[k] != x by {
                    if k >= 1 {
                        assert(v[k] == rest[k - 1]);
                    }
                }
            },
            None => {
                assert forall|k: int| 0 <= k < v.len() implies v[k] != x by {
                    if k >= 1 {
                        assert(v[k] == rest[k - 1]);
                    }
                }
            },
        }
    }
}

/// The multi-select toggle is its own inverse: toggling the same
/// authoritative index twice leaves the selection with exactly the
/// contents it had, provided no index is marked twice — which the session
/// maintains. The two toggles are the transitions `toggle_selection`
/// promises when the cursor resolves to `x` both times.
pub proof fn lemma_toggle_twice(v: Seq<usize>, x: usize)
    requires
        unique_indices(v),
    ensures
        ({
            let once = match first_index(v, x) {
                Some(p) => v.remove(p),
                None => v.push(x),
            };
            let twice = match first_index(once, x) {
                Some(q) => once.remove(q),
                None => once.push(x),
            };
            twice.to_multiset() == v.to_multiset()
        }),
{
    lemma_first_index_props(v, x);
    match first_index(v, x) {
        None => {
            let once = v.push(x);
            assert forall|k: int| 0 <= k < v.len() implies #[trigger] once[k] != x by {
                assert(once[k] == v[k]);
            }
            assert(once[v.len() as int] == x);
            lemma_first_index_prefix(once, x, v.len() as int);
            assert(once.remove(v.len() as int) =~= v);
        },
        Some(p) => {
            let once = v.remove(p);
            assert forall|k: int| 0 <= k < once.len() implies #[trigger] once[k] != x by {
                if k < p {
                    assert(once[k] == v[k]);
                } else {
                    assert(once[k] == v[k + 1]);
                    assert(v[p] != v[k + 1]);
                }
            }
            lemma_first_index_prefix(once, x, once.len() as int);
            let twice = once.push(x);
            let a = v.subrange(0, p);
            let b = v.subrange(p + 1, v.len() as int);
            assert(v =~= a + seq![x] + b);
            assert(once =~= a + b);
            vstd::seq_lib::lemma_multiset_commutative(a + seq![x], b);
            vstd::seq_lib::lemma_multiset_commutative(a, seq![x]);
            vstd::seq_lib::lemma_multiset_commutative(a, b);
            assert(seq![x] =~= Seq::<usize>::empty().push(x));
            assert(seq![x].to_multiset() == Seq::<usize>::empty().to_multiset().insert(x));
            assert(twice.to_multiset() =~= v.to_multiset());
        },
    }
}

/// Disabling entries keeps the collection free of exempt entries:
/// exemption never reads the enabled flag.
pub proof fn lemma_no_exempt_after_disable(c: WhitelistConfig, s: Seq<StartupEntry>, hit: Set<int>)
    requires
        forall|i: int| 0 <= i < s.len() ==> !is_exempt(c, #[trigger] s[i]),
    ensures
        forall|i: int|
            0 <= i < disable_applied(s, hit).len() ==> !is_exempt(
                c,
                #[trigger] disable_applied(s, hit)[i],
            ),
{
    assert forall|i: int| 0 <= i < disable_applied(s, hit).len() implies !is_exempt(
        c,
        #[trigger] disable_applied(s, hit)[i],
    ) by {
        if hit.contains(i) {
            crate::whitelist::lemma_exempt_ignores_enabled(c, s[i], disabled_entry(s[i]));
        }
    }
}

/// Removing entries keeps the collection free of exempt entries: what
/// remains was already there.
pub proof fn lemma_no_exempt_after_remove(
    c: WhitelistConfig,
    s: Seq<StartupEntry>,
    hit: Set<int>,
    n: int,
)
    requires
        n <= s.len(),
        forall|i: int| 0 <= i < s.len() ==> !is_exempt(c, #[trigger] s[i]),
    ensures
        forall|j: int|
            0 <= j < remove_applied(s, hit, n).len() ==> !is_exempt(
                c,
                #[trigger] remove_applied(s, hit, n)[j],
            ),
    decreases n,
{
    if n > 0 {
        lemma_no_exempt_after_remove(c, s, hit, n - 1);
        let r0 = remove_applied(s, hit, n - 1);
        assert forall|j: int| 0 <= j < remove_applied(s, hit, n).len() implies !is_exempt(
            c,
            #[trigger] remove_applied(s, hit, n)[j],
        ) by {
            if j < r0.len() {
                assert(remove_applied(s, hit, n)[j] == r0[j]);
            } else {
                assert(remove_applied(s, hit, n)[j] == s[n - 1]);
            }
        }
    }
}

/// An exempt entry never reaches the operator: a session whose
/// authoritative collection is free of exempt entries — as one built from
/// the whitelist gate's working collection is — shows none in its view,
/// whatever filter, search or sort is active.
pub proof fn lemma_view_no_exempt(c: WhitelistConfig, app: App)
    requires
        app_wf(app),
        forall|i: int|
            0 <= i < app.all_entries@.len() ==> !is_exempt(c, #[trigger] app.all_entries@[i]),
    ensures
        forall|j: int|
            0 <= j < app.filtered_entries@.len() ==> !is_exempt(
                c,
                #[trigger] app.filtered_entries@[j],
            ),
{
    let q = app_query(app);
    let base = filtered(q, app.all_entries@);
    crate::filter::lemma_sort_spec_sorted(app.sort_by, base);
    crate::filter::lemma_filtered_subset(q, app.all_entries@);
    assert forall|j: int| 0 <= j < app.filtered_entries@.len() implies !is_exempt(
        c,
        #[trigger] app.filtered_entries@[j],
    ) by {
        let e = app.filtered_entries@[j];
        assert(app.filtered_entries@.contains(e));
        assert(app.filtered_entries@.to_multiset().contains(e));
        assert(base.to_multiset().contains(e));
        assert(base.contains(e));
        assert(app.all_entries@.contains(e));
        let w = choose|w: int| 0 <= w < app.all_entries@.len() && app.all_entries@[w] == e;
        assert(!is_exempt(c, app.all_entries@[w]));
    }
}

} // verus!
