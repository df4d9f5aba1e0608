//! The workspace worker of a language server: which documents it answers for,
//! what it remembers of their diagnostics, and what a change of settings or
//! of watched files asks for. Linting itself is the caller's: the worker is
//! handed what a lint run gave.

use vstd::prelude::*;
use crate::lsp::{
    duplicate_reports, select_reports, selected, text_edits, text_edits_of, Diagnostic,
    DiagnosticReport, Range, TextEdit,
};
use crate::uri::{
    file_path_of_uri, parsable_length, path_has_prefix, path_starts_with, uri_file_path,
};

verus! {

/// When documents are linted.
#[derive(Clone, Copy, Debug, PartialEq, Eq, Structural)]
pub enum Run {
    /// When a document is saved.
    OnSave,
    /// When a document changes.
    OnType,
}

/// The settings of a workspace.
#[derive(Debug, PartialEq, Eq)]
pub struct Options {
    /// When documents are linted.
    pub run: Run,
    /// The configuration file, where one is set.
    pub config_path: Option<String>,
    /// Whether configuration files in nested directories are used.
    pub use_nested_configs: bool,
    /// The kinds of fixes that are offered, as a set of bits.
    pub fix_kind: u8,
}

/// The text of an optional string.
pub open spec fn text_of(s: Option<String>) -> Option<Seq<char>> {
    match s {
        Some(s) => Some(s@),
        None => None,
    }
}

/// Whether two optional strings hold the same text.
fn same_text(a: &Option<String>, b: &Option<String>) -> (r: bool)
    ensures
        r == (text_of(*a) == text_of(*b)),
{
    match a {
        Some(x) => match b {
            Some(y) => *x == *y,
            None => false,
        },
        None => b.is_none(),
    }
}

impl Options {
    /// A copy of these settings.
    pub fn duplicate(&self) -> (copy: Options)
        ensures
            copy == *self,
    {
        let config_path = match &self.config_path {
            Some(path) => Some(path.clone()),
            None => None,
        };
        Options {
            run: self.run,
            config_path,
            use_nested_configs: self.use_nested_configs,
            fix_kind: self.fix_kind,
        }
    }
}

impl Default for Options {
    /// Lint as the document changes, no configuration file set, nested
    /// configuration files used, no kind of fix chosen.
    fn default() -> (options: Options)
        ensures
            options.run == Run::OnType,
            options.config_path is None,
            options.use_nested_configs,
            options.fix_kind == 0,
    {
        Options { run: Run::OnType, config_path: None, use_nested_configs: true, fix_kind: 0 }
    }
}

/// What the client is to be told when the configuration or watched files change.
#[derive(Debug, PartialEq, Eq)]
pub struct ClientNotifications {
    /// The diagnostics are changing for some files: each with its new reports.
    pub diagnostics: Option<Vec<(String, Vec<DiagnosticReport>)>>,
    /// File watchers to add.
    pub add_file_watchers: Option<()>,
    /// File watchers to remove.
    pub remove_file_watchers: Option<()>,
}

/// The code actions to offer for a range of a document, by the places of the
/// reports that they are built from.
#[derive(Debug, PartialEq, Eq)]
pub enum CodeActionPlan {
    /// There is no report for the document: nothing is offered.
    Nothing,
    /// One action that applies the fixes of all these reports together,
    /// where they have any.
    FixAll(Vec<usize>),
    /// For each of these reports in turn: the action that applies its fix,
    /// where it has one, then the one that ignores the rule on this line,
    /// then the one that ignores the rule in the file.
    PerReport(Vec<usize>),
}

/// The uris for which lint outcome `Some` was handed in, in order.
pub open spec fn kept_uris(
    uris: Seq<Seq<char>>,
    linted: Seq<Option<Vec<DiagnosticReport>>>,
) -> Seq<Seq<char>>
    decreases uris.len(),
{
    if uris.len() == 0 || linted.len() == 0 {
        Seq::empty()
    } else {
        let rest = kept_uris(uris.drop_last(), linted.drop_last());
        match linted.last() {
            Some(_) => rest.push(uris.last()),
            None => rest,
        }
    }
}

/// The reports of the lint outcomes that are `Some`, in order.
pub open spec fn kept_reports(linted: Seq<Option<Vec<DiagnosticReport>>>) -> Seq<
    Seq<DiagnosticReport>,
>
    decreases linted.len(),
{
    if linted.len() == 0 {
        Seq::empty()
    } else {
        let rest = kept_reports(linted.drop_last());
        match linted.last() {
            Some(reports) => rest.push(reports@),
            None => rest,
        }
    }
}

/// What a workspace worker is: the uri of its root, whether it has a linter,
/// its settings, and the documents that it holds diagnostics for, each with
/// its reports, in the order in which they came.
pub struct WorkerView {
    pub root_uri: Seq<char>,
    pub has_linter: bool,
    pub options: Options,
    pub uris: Seq<Seq<char>>,
    pub reports: Seq<Seq<DiagnosticReport>>,
}

impl WorkerView {
    /// The invariant of a worker: every document has its reports, and no
    /// document is held twice.
    pub open spec fn wf(self) -> bool {
        &&& self.uris.len() == self.reports.len()
        &&& self.uris.no_duplicates()
    }

    /// Whether the worker holds diagnostics for `uri`.
    pub open spec fn tracks(self, uri: Seq<char>) -> bool {
        self.uris.contains(uri)
    }

    /// The reports held for `uri`.
    pub open spec fn reports_of(self, uri: Seq<char>) -> Seq<DiagnosticReport> {
        self.reports[self.uris.index_of(uri)]
    }

    /// The worker after `reports` were recorded for `uri`: in place of what
    /// was held for it, or as a new document after the others.
    pub open spec fn updated(self, uri: Seq<char>, reports: Seq<DiagnosticReport>) -> WorkerView {
        if self.tracks(uri) {
            WorkerView { reports: self.reports.update(self.uris.index_of(uri), reports), ..self }
        } else {
            WorkerView { uris: self.uris.push(uri), reports: self.reports.push(reports), ..self }
        }
    }

    /// The worker after what it held for `uri` was dropped.
    pub open spec fn removed(self, uri: Seq<char>) -> WorkerView {
        if self.tracks(uri) {
            WorkerView {
                uris: self.uris.remove(self.uris.index_of(uri)),
                reports: self.reports.remove(self.uris.index_of(uri)),
                ..self
            }
        } else {
            self
        }
    }

    /// The worker after every document was linted again, with `linted[i]` the
    /// outcome for the document at `i`: a document with an outcome holds the
    /// new reports, one without is dropped.
    pub open spec fn revalidated(self, linted: Seq<Option<Vec<DiagnosticReport>>>) -> WorkerView {
        WorkerView { uris: kept_uris(self.uris, linted), reports: kept_reports(linted), ..self }
    }

    /// The reports that code actions and text edits for `uri` are made from:
    /// those held for it, or, where none are held, those of `linted`, what
    /// linting the document for the occasion gave. A worker without a linter
    /// has linted nothing: there `linted` is not looked at.
    pub open spec fn reports_for(
        self,
        uri: Seq<char>,
        linted: Seq<DiagnosticReport>,
    ) -> Seq<DiagnosticReport> {
        if self.tracks(uri) {
            self.reports_of(uri)
        } else if self.has_linter {
            linted
        } else {
            Seq::empty()
        }
    }

    /// Whether the worker answers for the document at `uri`: the document has
    /// a file path, and it lies under the file path of the root.
    pub open spec fn responsible_for(self, uri: Seq<char>) -> bool {
        spec_lies_under(uri_file_path(uri), uri_file_path(self.root_uri))
    }
}

/// Whether a change of settings from `old` to `new` asks for a new linter:
/// the configuration file, the use of nested configuration files or the
/// kinds of fixes differ.
pub open spec fn spec_needs_linter_restart(old: Options, new: Options) -> bool {
    ||| text_of(old.config_path) != text_of(new.config_path)
    ||| old.use_nested_configs != new.use_nested_configs
    ||| old.fix_kind != new.fix_kind
}

/// Whether `entries` are the documents `uris`, each with its `reports`.
pub open spec fn entries_match(
    entries: Seq<(String, Vec<DiagnosticReport>)>,
    uris: Seq<Seq<char>>,
    reports: Seq<Seq<DiagnosticReport>>,
) -> bool {
    &&& entries.len() == uris.len()
    &&& entries.len() == reports.len()
    &&& forall|k: int|
        0 <= k < entries.len() ==> (#[trigger] entries[k]).0@ == uris[k] && entries[k].1@
            == reports[k]
}

/// The documents that are kept when all are linted again are documents that
/// were held, none of them twice, each with its reports.
pub proof fn lemma_kept(uris: Seq<Seq<char>>, linted: Seq<Option<Vec<DiagnosticReport>>>)
    requires
        uris.len() == linted.len(),
        uris.no_duplicates(),
    ensures
        kept_uris(uris, linted).no_duplicates(),
        kept_uris(uris, linted).len() == kept_reports(linted).len(),
        kept_uris(uris, linted).len() <= uris.len(),
        forall|k: int|
            0 <= k < kept_uris(uris, linted).len() ==> uris.contains(
                #[trigger] kept_uris(uris, linted)[k],
            ),
        forall|i: int|
            0 <= i < uris.len() ==> (kept_uris(uris, linted).contains(#[trigger] uris[i])
                <==> linted[i] is Some),
    decreases uris.len(),
{
    if uris.len() > 0 {
        let front = uris.drop_last();
        let outcomes = linted.drop_last();
        let n = uris.len() - 1;
        lemma_kept(front, outcomes);
        let rest = kept_uris(front, outcomes);
        let all = kept_uris(uris, linted);
        assert forall|k: int| 0 <= k < rest.len() implies rest[k] != uris[n] by {
            assert(front.contains(rest[k]));
            let j = choose|j: int| 0 <= j < front.len() && front[j] == rest[k];
            assert(uris[j] == rest[k]);
        }
        assert forall|k: int| 0 <= k < all.len() implies uris.contains(#[trigger] all[k]) by {
            if k < rest.len() {
                assert(front.contains(rest[k]));
                let j = choose|j: int| 0 <= j < front.len() && front[j] == rest[k];
                assert(uris[j] == all[k]);
            } else {
                assert(uris[n] == all[k]);
            }
        }
        assert forall|i: int| 0 <= i < uris.len() implies (all.contains(#[trigger] uris[i])
            <==> linted[i] is Some) by {
            if i < n {
                assert(front[i] == uris[i] && outcomes[i] == linted[i]);
                if rest.contains(uris[i]) {
                    let k = choose|k: int| 0 <= k < rest.len() && rest[k] == uris[i];
                    assert(all[k] == uris[i]);
                }
                if all.contains(uris[i]) {
                    let k = choose|k: int| 0 <= k < all.len() && all[k] == uris[i];
                    if k >= rest.len() {
                        assert(all[k] == uris[n]);
                    } else {
                        assert(rest[k] == uris[i]);
                    }
                }
            } else {
                if linted[i] is Some {
                    assert(all[all.len() - 1] == uris[i]);
                } else {
                    if all.contains(uris[i]) {
                        let k = choose|k: int| 0 <= k < all.len() && all[k] == uris[i];
                        assert(rest[k] != uris[n]);
                    }
                }
            }
        }
    }
}

/// Whether `plan` is what is offered for `range` on the reports `value`.
/// Without reports nothing is offered. Otherwise the reports that concern
/// `range` are picked: for one action that fixes all of them where
/// `fix_all` is set, else for the actions of each report.
pub open spec fn planned(
    plan: CodeActionPlan,
    value: Seq<DiagnosticReport>,
    range: Range,
    fix_all: bool,
) -> bool {
    if value.len() == 0 {
        plan == CodeActionPlan::Nothing
    } else if fix_all {
        plan matches CodeActionPlan::FixAll(places) && places@ == selected(value, range)
    } else {
        plan matches CodeActionPlan::PerReport(places) && places@ == selected(value, range)
    }
}

/// Plans the code actions for `range` on the reports `value`.
pub fn plan_code_actions(value: &Vec<DiagnosticReport>, range: &Range, fix_all: bool) -> (plan:
    CodeActionPlan)
    ensures
        planned(plan, value@, *range, fix_all),
{
    if value.len() == 0 {
        return CodeActionPlan::Nothing;
    }
    let places = select_reports(value, range);
    if fix_all {
        return CodeActionPlan::FixAll(places);
    }
    CodeActionPlan::PerReport(places)
}

/// Whether a document with the file path `path`, if it has one, lies under
/// the root with the file path `root`: a document without a file path lies
/// under no root. The root must have a file path where the document has one.
pub open spec fn spec_lies_under(path: Option<Seq<char>>, root: Option<Seq<char>>) -> bool {
    match path {
        Some(path) => path_starts_with(path, root.unwrap()),
        None => false,
    }
}

/// Decides `spec_lies_under` for the file paths of a document and of a root.
pub fn lies_under(path: &Option<String>, root: &Option<String>) -> (b: bool)
    requires
        path is Some ==> root is Some,
    ensures
        b == spec_lies_under(text_of(*path), text_of(*root)),
{
    match path {
        Some(path) => match root {
            Some(root) => path_has_prefix(path.as_str(), root.as_str()),
            None => false,
        },
        None => false,
    }
}

/// The worker of one workspace folder.
pub struct WorkspaceWorker {
    root_uri: String,
    has_linter: bool,
    options: Options,
    uris: Vec<String>,
    reports: Vec<Vec<DiagnosticReport>>,
}

impl View for WorkspaceWorker {
    type V = WorkerView;

    closed spec fn view(&self) -> WorkerView {
        WorkerView {
            root_uri: self.root_uri@,
            has_linter: self.has_linter,
            options: self.options,
            uris: self.uris@.map_values(|uri: String| uri@),
            reports: self.reports@.map_values(|reports: Vec<DiagnosticReport>| reports@),
        }
    }
}

impl WorkspaceWorker {
    /// A worker for the workspace rooted at `root_uri`: without a linter,
    /// with the default settings, holding no diagnostics.
    pub fn new(root_uri: String) -> (worker: WorkspaceWorker)
        ensures
            worker@.wf(),
            worker@.root_uri == root_uri@,
            !worker@.has_linter,
            worker@.options.run == Run::OnType,
            worker@.options.config_path is None,
            worker@.options.use_nested_configs,
            worker@.options.fix_kind == 0,
            worker@.uris.len() == 0,
    {
        WorkspaceWorker {
            root_uri,
            has_linter: false,
            options: Options::default(),
            uris: Vec::new(),
            reports: Vec::new(),
        }
    }

    /// The uri of the workspace's root.
    pub fn get_root_uri(&self) -> (uri: &String)
        ensures
            uri@ == self@.root_uri,
    {
        &self.root_uri
    }

    /// The worker's settings.
    pub fn options(&self) -> (options: &Options)
        ensures
            *options == self@.options,
    {
        &self.options
    }

    /// Whether the worker answers for the document at `uri`. Both uris must
    /// be short enough to be read, and the root must have a file path where
    /// the document has one.
    pub fn is_responsible_for_uri(&self, uri: &str) -> (b: bool)
        requires
            parsable_length(uri@),
            parsable_length(self@.root_uri),
            uri_file_path(uri@) is Some ==> uri_file_path(self@.root_uri) is Some,
        ensures
            b == self@.responsible_for(uri@),
    {
        let path = file_path_of_uri(uri);
        if path.is_none() {
            return false;
        }
        let root = file_path_of_uri(self.root_uri.as_str());
        lies_under(&path, &root)
    }

    /// Whether the worker answers for the document at `uri`; `None` where
    /// the question has no answer: one of the two uris is too long to be
    /// read, or the document has a file path and the root has none.
    pub fn try_is_responsible_for_uri(&self, uri: &str) -> (r: Option<bool>)
        ensures
            r is None == (!parsable_length(uri@) || !parsable_length(self@.root_uri) || (
            uri_file_path(uri@) is Some && uri_file_path(self@.root_uri) is None)),
            r matches Some(b) ==> b == self@.responsible_for(uri@),
    {
        let limit: usize = i32::MAX as usize;
        if uri.as_bytes().len() > limit || self.root_uri.as_str().as_bytes().len() > limit {
            return None;
        }
        if file_path_of_uri(uri).is_some() && file_path_of_uri(self.root_uri.as_str()).is_none() {
            None
        } else {
            Some(self.is_responsible_for_uri(uri))
        }
    }

    /// Records that the worker has a linter, made for `options`, which
    /// become its settings.
    pub fn init_linter(&mut self, options: &Options)
        ensures
            final(self)@ == (WorkerView { has_linter: true, options: *options, ..old(self)@ }),
    {
        self.options = options.duplicate();
        self.has_linter = true;
    }

    /// Whether the worker is still without a linter.
    pub fn needs_init_linter(&self) -> (b: bool)
        ensures
            b == !self@.has_linter,
    {
        !self.has_linter
    }

    /// Whether a change of settings from `old_options` to `new_options` asks
    /// for a new linter.
    pub fn needs_linter_restart(old_options: &Options, new_options: &Options) -> (b: bool)
        ensures
            b == spec_needs_linter_restart(*old_options, *new_options),
    {
        !same_text(&old_options.config_path, &new_options.config_path)
            || old_options.use_nested_configs != new_options.use_nested_configs
            || old_options.fix_kind != new_options.fix_kind
    }

    /// Whether documents are linted on runs of the kind `current_run`.
    pub fn should_lint_on_run_type(&self, current_run: Run) -> (b: bool)
        ensures
            b == (self@.options.run == current_run),
    {
        self.options.run == current_run
    }

    /// The place of `uri` among the documents held.
    fn find(&self, uri: &str) -> (r: Option<usize>)
        requires
            self@.wf(),
        ensures
            r is Some == self@.tracks(uri@),
            r matches Some(i) ==> i < self@.uris.len() && self@.uris[i as int] == uri@
                && self@.uris.index_of(uri@) == i,
    {
        let key = uri.to_owned();
        let mut i: usize = 0;
        while i < self.uris.len()
            invariant
                i <= self.uris.len(),
                key@ == uri@,
                self@.wf(),
                forall|j: int| 0 <= j < i ==> self@.uris[j] != uri@,
            decreases self.uris.len() - i,
        {
            if self.uris[i] == key {
                assert(self@.uris[i as int] == uri@);
                return Some(i);
            }
            i += 1;
        }
        None
    }

    /// Whether the worker holds diagnostics for `uri`.
    pub fn has_diagnostics(&self, uri: &str) -> (b: bool)
        requires
            self@.wf(),
        ensures
            b == self@.tracks(uri@),
    {
        self.find(uri).is_some()
    }

    /// The reports held for `uri`.
    pub fn diagnostics_for(&self, uri: &str) -> (r: Option<&Vec<DiagnosticReport>>)
        requires
            self@.wf(),
        ensures
            r is Some == self@.tracks(uri@),
            r matches Some(reports) ==> reports@ == self@.reports_of(uri@),
    {
        match self.find(uri) {
            Some(i) => Some(&self.reports[i]),
            None => None,
        }
    }

    /// The uris of the documents held, in order.
    pub fn tracked_uris(&self) -> (uris: Vec<String>)
        ensures
            uris@.map_values(|uri: String| uri@) == self@.uris,
    {
        let mut uris: Vec<String> = Vec::new();
        let mut i: usize = 0;
        while i < self.uris.len()
            invariant
                i <= self.uris.len(),
                uris@ == self.uris@.subrange(0, i as int),
            decreases self.uris.len() - i,
        {
            uris.push(self.uris[i].clone());
            i += 1;
            assert(uris@ =~= self.uris@.subrange(0, i as int));
        }
        assert(self.uris@.subrange(0, i as int) =~= self.uris@);
        uris
    }

    /// Records `diagnostics` for `uri`, in place of what was held for it.
    pub fn update_diagnostics(&mut self, uri: &str, diagnostics: Vec<DiagnosticReport>)
        requires
            old(self)@.wf(),
        ensures
            final(self)@.wf(),
            final(self)@ == old(self)@.updated(uri@, diagnostics@),
    {
        match self.find(uri) {
            Some(i) => {
                self.reports.set(i, diagnostics);
                assert(self@.reports =~= old(self)@.reports.update(i as int, diagnostics@));
                assert(self@.uris =~= old(self)@.uris);
            },
            None => {
                self.uris.push(uri.to_owned());
                self.reports.push(diagnostics);
                assert(self@.reports =~= old(self)@.reports.push(diagnostics@));
                assert(self@.uris =~= old(self)@.uris.push(uri@));
            },
        }
    }

    /// Drops what is held for `uri`.
    pub fn remove_diagnostics(&mut self, uri: &str)
        requires
            old(self)@.wf(),
        ensures
            final(self)@.wf(),
            final(self)@ == old(self)@.removed(uri@),
            !final(self)@.tracks(uri@),
    {
        match self.find(uri) {
            Some(i) => {
                self.uris.remove(i);
                self.reports.remove(i);
                assert(self@.reports =~= old(self)@.reports.remove(i as int));
                assert(self@.uris =~= old(self)@.uris.remove(i as int));
                assert forall|j: int| 0 <= j < self@.uris.len() implies self@.uris[j] != uri@ by {
                    if j < i {
                        assert(self@.uris[j] == old(self)@.uris[j]);
                    } else {
                        assert(self@.uris[j] == old(self)@.uris[j + 1]);
                    }
                }
            },
            None => {
                assert(self@.uris =~= old(self)@.uris);
                assert(self@.reports =~= old(self)@.reports);
            },
        }
    }

    /// Takes in what linting the document at `uri` gave. A worker without a
    /// linter has linted nothing: it records nothing and returns `None`.
    /// With a linter, the reports are recorded for the document, where there
    /// are any, and handed back.
    pub fn lint_file(&mut self, uri: &str, linted: Option<Vec<DiagnosticReport>>) -> (r: Option<
        Vec<DiagnosticReport>,
    >)
        requires
            old(self)@.wf(),
        ensures
            final(self)@.wf(),
            !old(self)@.has_linter ==> r is None && final(self)@ == old(self)@,
            old(self)@.has_linter ==> r == linted,
            old(self)@.has_linter && linted is None ==> final(self)@ == old(self)@,
            old(self)@.has_linter ==> (linted matches Some(reports) ==> final(self)@
                == old(self)@.updated(uri@, reports@)),
    {
        if !self.has_linter {
            return None;
        }
        if let Some(reports) = &linted {
            self.update_diagnostics(uri, duplicate_reports(reports));
        }
        linted
    }

    /// For every document held: its uri, with no diagnostics, which clears
    /// what the client shows for it.
    pub fn get_clear_diagnostics(&self) -> (cleared: Vec<(String, Vec<Diagnostic>)>)
        ensures
            cleared@.len() == self@.uris.len(),
            forall|i: int|
                0 <= i < cleared@.len() ==> (#[trigger] cleared@[i]).0@ == self@.uris[i]
                    && cleared@[i].1@.len() == 0,
    {
        let mut cleared: Vec<(String, Vec<Diagnostic>)> = Vec::new();
        let mut i: usize = 0;
        while i < self.uris.len()
            invariant
                i <= self.uris.len(),
                cleared@.len() == i,
                forall|j: int|
                    0 <= j < i ==> (#[trigger] cleared@[j]).0@ == self@.uris[j] && cleared@[j].1@.len()
                        == 0,
            decreases self.uris.len() - i,
        {
            cleared.push((self.uris[i].clone(), Vec::new()));
            i += 1;
        }
        cleared
    }

    /// Takes in what linting every document again gave, `linted[i]` for the
    /// document at `i` of [`WorkspaceWorker::tracked_uris`]. A document with
    /// an outcome holds the new reports, one without is dropped. Returns the
    /// documents that are left, each with its reports. A worker without a
    /// linter changes nothing and returns nothing.
    pub fn revalidate_diagnostics(&mut self, linted: &Vec<Option<Vec<DiagnosticReport>>>) -> (changed:
        Vec<(String, Vec<DiagnosticReport>)>)
        requires
            old(self)@.wf(),
            old(self)@.has_linter ==> linted@.len() == old(self)@.uris.len(),
        ensures
            final(self)@.wf(),
            !old(self)@.has_linter ==> final(self)@ == old(self)@ && changed@.len() == 0,
            old(self)@.has_linter ==> final(self)@ == old(self)@.revalidated(linted@),
            old(self)@.has_linter ==> entries_match(
                changed@,
                kept_uris(old(self)@.uris, linted@),
                kept_reports(linted@),
            ),
    {
        let mut changed: Vec<(String, Vec<DiagnosticReport>)> = Vec::new();
        if !self.has_linter {
            return changed;
        }
        let mut uris: Vec<String> = Vec::new();
        let mut reports: Vec<Vec<DiagnosticReport>> = Vec::new();
        let ghost before = self@;
        let mut i: usize = 0;
        while i < self.uris.len()
            invariant
                i <= self.uris.len(),
                self@ == before,
                linted@.len() == before.uris.len(),
                self.uris@.len() == before.uris.len(),
                uris@.map_values(|uri: String| uri@) == kept_uris(
                    before.uris.subrange(0, i as int),
                    linted@.subrange(0, i as int),
                ),
                reports@.map_values(|r: Vec<DiagnosticReport>| r@) == kept_reports(
                    linted@.subrange(0, i as int),
                ),
                entries_match(
                    changed@,
                    kept_uris(before.uris.subrange(0, i as int), linted@.subrange(0, i as int)),
                    kept_reports(linted@.subrange(0, i as int)),
                ),
            decreases self.uris.len() - i,
        {
            proof {
                assert(before.uris.subrange(0, i + 1).drop_last() =~= before.uris.subrange(
                    0,
                    i as int,
                ));
                assert(linted@.subrange(0, i + 1).drop_last() =~= linted@.subrange(0, i as int));
                assert(before.uris.subrange(0, i + 1).last() == self.uris@[i as int]@);
            }
            if let Some(outcome) = &linted[i] {
                let ghost kept_before = uris@.map_values(|uri: String| uri@);
                let ghost reports_before = reports@.map_values(|r: Vec<DiagnosticReport>| r@);
                uris.push(self.uris[i].clone());
                reports.push(duplicate_reports(outcome));
                changed.push((self.uris[i].clone(), duplicate_reports(outcome)));
                proof {
                    assert(uris@.map_values(|uri: String| uri@) =~= kept_before.push(
                        self.uris@[i as int]@,
                    ));
                    assert(reports@.map_values(|r: Vec<DiagnosticReport>| r@)
                        =~= reports_before.push(outcome@));
                }
            }
            i += 1;
        }
        proof {
            assert(before.uris.subrange(0, i as int) =~= before.uris);
            assert(linted@.subrange(0, i as int) =~= linted@);
            lemma_kept(before.uris, linted@);
        }
        self.uris = uris;
        self.reports = reports;
        changed
    }

    /// Watched files changed: the worker gets a new linter, and every
    /// document is linted again with it; `linted` is what that gave, as
    /// [`WorkspaceWorker::revalidate_diagnostics`] takes it.
    pub fn did_change_watched_files(&mut self, linted: &Vec<Option<Vec<DiagnosticReport>>>) -> (told:
        ClientNotifications)
        requires
            old(self)@.wf(),
            linted@.len() == old(self)@.uris.len(),
        ensures
            final(self)@.wf(),
            final(self)@ == (WorkerView { has_linter: true, ..old(self)@ }).revalidated(linted@),
            told.diagnostics matches Some(changed) && entries_match(
                changed@,
                kept_uris(old(self)@.uris, linted@),
                kept_reports(linted@),
            ),
            told.add_file_watchers is None,
            told.remove_file_watchers is None,
    {
        self.has_linter = true;
        let changed = self.revalidate_diagnostics(linted);
        ClientNotifications {
            diagnostics: Some(changed),
            add_file_watchers: None,
            remove_file_watchers: None,
        }
    }

    /// The settings changed to `changed_options`, which the worker takes
    /// over. Where the change asks for a new linter, the worker gets one and
    /// every document is linted again with it; `linted` is what that gave, as
    /// [`WorkspaceWorker::revalidate_diagnostics`] takes it. Otherwise
    /// `linted` is not looked at, and the client is told nothing.
    pub fn did_change_configuration(
        &mut self,
        changed_options: &Options,
        linted: &Vec<Option<Vec<DiagnosticReport>>>,
    ) -> (told: ClientNotifications)
        requires
            old(self)@.wf(),
            spec_needs_linter_restart(old(self)@.options, *changed_options) ==> linted@.len()
                == old(self)@.uris.len(),
        ensures
            final(self)@.wf(),
            told.add_file_watchers is None,
            told.remove_file_watchers is None,
            spec_needs_linter_restart(old(self)@.options, *changed_options) ==> {
                &&& final(self)@ == (WorkerView {
                    has_linter: true,
                    options: *changed_options,
                    ..old(self)@
                }).revalidated(linted@)
                &&& told.diagnostics matches Some(changed) && entries_match(
                    changed@,
                    kept_uris(old(self)@.uris, linted@),
                    kept_reports(linted@),
                )
            },
            !spec_needs_linter_restart(old(self)@.options, *changed_options) ==> {
                &&& final(self)@ == (WorkerView { options: *changed_options, ..old(self)@ })
                &&& told.diagnostics is None
            },
    {
        let restart = Self::needs_linter_restart(&self.options, changed_options);
        self.options = changed_options.duplicate();
        if restart {
            self.has_linter = true;
            let changed = self.revalidate_diagnostics(linted);
            return ClientNotifications {
                diagnostics: Some(changed),
                add_file_watchers: None,
                remove_file_watchers: None,
            };
        }
        ClientNotifications {
            diagnostics: None,
            add_file_watchers: None,
            remove_file_watchers: None,
        }
    }

    /// A copy of the reports that code actions and text edits for `uri` are
    /// made from, in which the places of a [`CodeActionPlan`] are found.
    pub fn reports_for(&self, uri: &str, linted: &Vec<DiagnosticReport>) -> (value: Vec<
        DiagnosticReport,
    >)
        requires
            self@.wf(),
        ensures
            value@ == self@.reports_for(uri@, linted@),
    {
        match self.diagnostics_for(uri) {
            Some(value) => duplicate_reports(value),
            None => if self.has_linter {
                duplicate_reports(linted)
            } else {
                Vec::new()
            },
        }
    }

    /// The code actions to offer for `range` of the document at `uri`. They
    /// are made from the reports held for the document, or, where none are
    /// held, from `linted`, what linting it for the occasion gave.
    pub fn get_code_actions_or_commands(
        &self,
        uri: &str,
        range: &Range,
        is_source_fix_all_oxc: bool,
        linted: &Vec<DiagnosticReport>,
    ) -> (plan: CodeActionPlan)
        requires
            self@.wf(),
        ensures
            planned(plan, self@.reports_for(uri@, linted@), *range, is_source_fix_all_oxc),
    {
        let nothing: Vec<DiagnosticReport> = Vec::new();
        let value = match self.diagnostics_for(uri) {
            Some(value) => value,
            None => if self.has_linter {
                linted
            } else {
                &nothing
            },
        };
        plan_code_actions(value, range, is_source_fix_all_oxc)
    }

    /// The edits that apply the fixes reported for the document at `uri`:
    /// of the reports held for it, or, where none are held, of `linted`,
    /// what linting it for the occasion gave.
    pub fn get_diagnostic_text_edits(&self, uri: &str, linted: &Vec<DiagnosticReport>) -> (edits:
        Vec<TextEdit>)
        requires
            self@.wf(),
        ensures
            edits@ == text_edits(self@.reports_for(uri@, linted@)),
    {
        let nothing: Vec<DiagnosticReport> = Vec::new();
        let value = match self.diagnostics_for(uri) {
            Some(value) => value,
            None => if self.has_linter {
                linted
            } else {
                &nothing
            },
        };
        if value.len() == 0 {
            return Vec::new();
        }
        text_edits_of(value)
    }
}

} // verus!
