use vstd::prelude::*;

use crate::files::{
    file_views, is_hidden, label, lemma_listing, is_sorted, list_dir, listing, raw_views, DirEntry, EntryModel, File,
};
use crate::path::DirPath;

verus! {

/// Outside work that an operation asks the caller to carry out.
#[derive(Debug, PartialEq, Eq)]
pub enum Request {
    /// Nothing to do.
    Nothing,
    /// Read the children of `dir`, then hand them to `App::refresh_files`
    /// together with `dir` and `show_hidden`.
    List { dir: DirPath, show_hidden: bool },
    /// Open this file with the default application.
    OpenFile(DirPath),
    /// Move this entry to the trash; on success, carry out `App::reload`.
    Trash(DirPath),
    /// Delete this entry for good; on success, carry out `App::reload`.
    Remove(DirPath),
}

pub enum RequestModel {
    Nothing,
    List(Seq<Seq<char>>, bool),
    OpenFile(Seq<Seq<char>>),
    Trash(Seq<Seq<char>>),
    Remove(Seq<Seq<char>>),
}

impl View for Request {
    type V = RequestModel;

    open spec fn view(&self) -> RequestModel {
        match self {
            Request::Nothing => RequestModel::Nothing,
            Request::List { dir, show_hidden } => RequestModel::List(dir@, *show_hidden),
            Request::OpenFile(p) => RequestModel::OpenFile(p@),
            Request::Trash(p) => RequestModel::Trash(p@),
            Request::Remove(p) => RequestModel::Remove(p@),
        }
    }
}

/// What the preview pane shows, before any reading.
#[derive(Debug, PartialEq, Eq)]
pub enum Preview {
    /// No selection: the preview is empty.
    Empty,
    /// A directory is selected: list it with `dir_preview`.
    Dir(DirPath),
    /// A file is selected: read it and show it with `file_preview`.
    File(DirPath),
}

/// The selection after the entries were replaced: the first one, if any.
pub open spec fn first_index(len: nat) -> Option<usize> {
    if len == 0 {
        None
    } else {
        Some(0)
    }
}

/// The selection after moving down, wrapping from the last entry to the first.
pub open spec fn next_index(sel: Option<usize>, len: nat) -> Option<usize> {
    match sel {
        None => None,
        Some(i) => if i + 1 >= len {
            Some(0)
        } else {
            Some((i + 1) as usize)
        },
    }
}

/// The selection after moving up, wrapping from the first entry to the last.
pub open spec fn previous_index(sel: Option<usize>, len: nat) -> Option<usize> {
    match sel {
        None => None,
        Some(i) => if i == 0 || i >= len {
            Some((len - 1) as usize)
        } else {
            Some((i - 1) as usize)
        },
    }
}

/// A selection fits a list of `len` entries.
pub open spec fn selection_ok(sel: Option<usize>, len: nat) -> bool {
    match sel {
        None => len == 0,
        Some(i) => i < len,
    }
}

/// Moving the selection down `k` times.
pub open spec fn next_iter(sel: Option<usize>, len: nat, k: nat) -> Option<usize>
    decreases k,
{
    if k == 0 {
        sel
    } else {
        next_index(next_iter(sel, len, (k - 1) as nat), len)
    }
}

/// Moving the selection up `k` times.
pub open spec fn previous_iter(sel: Option<usize>, len: nat, k: nat) -> Option<usize>
    decreases k,
{
    if k == 0 {
        sel
    } else {
        previous_index(previous_iter(sel, len, (k - 1) as nat), len)
    }
}

/// `after` is `before` with its listing replaced by that of `dir`, whose
/// children are `raw`, under the hidden-flag `show_hidden`.
pub open spec fn refreshed(
    before: App,
    after: App,
    dir: Seq<Seq<char>>,
    show_hidden: bool,
    raw: Seq<EntryModel>,
) -> bool {
    &&& after.wf()
    &&& after.current_dir@ == dir
    &&& after.show_hidden == show_hidden
    &&& file_views(after.files@) == listing(raw, show_hidden)
    &&& after.selected == first_index(after.files.len() as nat)
    &&& after.running == before.running
    &&& after.show_help == before.show_help
    &&& after.help_offset == before.help_offset
    &&& after.help_lines == before.help_lines
}

/// The state of the browser.
#[derive(Debug, PartialEq, Eq)]
pub struct App {
    pub running: bool,
    pub current_dir: DirPath,
    pub files: Vec<File>,
    pub selected: Option<usize>,
    pub show_hidden: bool,
    pub show_help: bool,
    pub help_offset: usize,
    pub help_lines: usize,
}

impl App {
    /// The entries are sorted, carry their labels, hide what the flag hides,
    /// and the selection and help offset are in range.
    pub open spec fn wf(&self) -> bool {
        &&& selection_ok(self.selected, self.files.len() as nat)
        &&& forall|i: int| 0 <= i < self.files.len() ==> (#[trigger] self.files[i]).wf()
        &&& is_sorted(file_views(self.files@))
        &&& !self.show_hidden ==> forall|i: int|
            0 <= i < self.files.len() ==> !is_hidden(#[trigger] self.files[i].name@)
        &&& self.help_offset == 0 || self.help_offset < self.help_lines
    }

    /// The state at startup: `entries` are the children of `current_dir`, and
    /// the help text has `help_lines` lines.
    pub fn new(current_dir: DirPath, entries: &Vec<DirEntry>, help_lines: usize) -> (r: App)
        ensures
            r.wf(),
            r.running,
            r.current_dir@ == current_dir@,
            file_views(r.files@) == listing(raw_views(entries@), false),
            r.selected == first_index(r.files.len() as nat),
            !r.show_hidden,
            !r.show_help,
            r.help_offset == 0,
            r.help_lines == help_lines,
    {
        let files = list_dir(entries, false);
        let selected = if files.len() == 0 {
            None
        } else {
            Some(0)
        };
        proof {
            hidden_filtered(files@);
        }
        App {
            running: true,
            current_dir,
            files,
            selected,
            show_hidden: false,
            show_help: false,
            help_offset: 0,
            help_lines,
        }
    }

    pub fn quit(&mut self)
        ensures
            *final(self) == (App { running: false, ..*old(self) }),
    {
        self.running = false;
    }

    /// Moves the selection down by one, wrapping from the last entry to the first.
    pub fn select_next(&mut self)
        requires
            old(self).wf(),
        ensures
            final(self).wf(),
            *final(self) == (App {
                selected: next_index(old(self).selected, old(self).files.len() as nat),
                ..*old(self)
            }),
    {
        if let Some(i) = self.selected {
            if i + 1 >= self.files.len() {
                self.selected = Some(0);
            } else {
                self.selected = Some(i + 1);
            }
        }
    }

    /// Moves the selection up by one, wrapping from the first entry to the last.
    pub fn select_previous(&mut self)
        requires
            old(self).wf(),
        ensures
            final(self).wf(),
            *final(self) == (App {
                selected: previous_index(old(self).selected, old(self).files.len() as nat),
                ..*old(self)
            }),
    {
        if let Some(i) = self.selected {
            if i == 0 || i >= self.files.len() {
                self.selected = Some(self.files.len() - 1);
            } else {
                self.selected = Some(i - 1);
            }
        }
    }

    /// Replaces the listing: `entries` are the children of `dir`, read after a
    /// `Request::List` carrying `dir` and `show_hidden`.
    pub fn refresh_files(&mut self, dir: DirPath, show_hidden: bool, entries: &Vec<DirEntry>)
        requires
            old(self).wf(),
        ensures
            refreshed(*old(self), *final(self), dir@, show_hidden, raw_views(entries@)),
    {
        let files = list_dir(entries, show_hidden);
        proof {
            if !show_hidden {
                hidden_filtered(files@);
            }
        }
        self.selected = if files.len() == 0 {
            None
        } else {
            Some(0)
        };
        self.files = files;
        self.current_dir = dir;
        self.show_hidden = show_hidden;
    }

    /// Asks for the current directory to be listed again with the flag flipped.
    pub fn toggle_hidden(&self) -> (r: Request)
        ensures
            r@ == RequestModel::List(self.current_dir@, !self.show_hidden),
    {
        Request::List { dir: self.current_dir.duplicate(), show_hidden: !self.show_hidden }
    }

    /// Asks for the current directory to be listed again as it is shown.
    pub fn reload(&self) -> (r: Request)
        ensures
            r@ == RequestModel::List(self.current_dir@, self.show_hidden),
    {
        Request::List { dir: self.current_dir.duplicate(), show_hidden: self.show_hidden }
    }

    /// Asks for the parent directory to be listed; nothing at the root.
    pub fn return_path(&self) -> (r: Request)
        ensures
            self.current_dir@.len() == 0 ==> r@ == RequestModel::Nothing,
            self.current_dir@.len() > 0 ==> r@ == RequestModel::List(
                self.current_dir@.drop_last(),
                self.show_hidden,
            ),
    {
        match self.current_dir.parent() {
            Some(parent) => Request::List { dir: parent, show_hidden: self.show_hidden },
            None => Request::Nothing,
        }
    }

    /// The path of the selected entry.
    pub open spec fn selected_path(&self) -> Seq<Seq<char>>
        recommends
            self.selected is Some,
    {
        self.current_dir@.push(self.files[self.selected->0 as int].name@)
    }

    pub open spec fn selected_is_dir(&self) -> bool
        recommends
            self.selected is Some,
    {
        self.files[self.selected->0 as int].is_dir
    }

    fn selected_file_path(&self) -> (r: DirPath)
        requires
            self.wf(),
            self.selected is Some,
        ensures
            r@ == self.selected_path(),
    {
        let i = self.selected.unwrap();
        self.current_dir.join(&self.files[i].name)
    }

    /// Opens the selection: a directory is listed as the new current one, a
    /// file goes to the default application.
    pub fn open(&self) -> (r: Request)
        requires
            self.wf(),
        ensures
            self.selected is None ==> r@ == RequestModel::Nothing,
            self.selected is Some && self.selected_is_dir() ==> r@ == RequestModel::List(
                self.selected_path(),
                self.show_hidden,
            ),
            self.selected is Some && !self.selected_is_dir() ==> r@ == RequestModel::OpenFile(
                self.selected_path(),
            ),
    {
        match self.selected {
            None => Request::Nothing,
            Some(i) => {
                let path = self.selected_file_path();
                if self.files[i].is_dir {
                    Request::List { dir: path, show_hidden: self.show_hidden }
                } else {
                    Request::OpenFile(path)
                }
            },
        }
    }

    /// Asks for the selection to be moved to the trash.
    pub fn move_to_trash(&self) -> (r: Request)
        requires
            self.wf(),
        ensures
            self.selected is None ==> r@ == RequestModel::Nothing,
            self.selected is Some ==> r@ == RequestModel::Trash(self.selected_path()),
    {
        match self.selected {
            None => Request::Nothing,
            Some(_) => Request::Trash(self.selected_file_path()),
        }
    }

    /// Asks for the selection to be deleted for good.
    pub fn remove_file(&self) -> (r: Request)
        requires
            self.wf(),
        ensures
            self.selected is None ==> r@ == RequestModel::Nothing,
            self.selected is Some ==> r@ == RequestModel::Remove(self.selected_path()),
    {
        match self.selected {
            None => Request::Nothing,
            Some(_) => Request::Remove(self.selected_file_path()),
        }
    }

    pub fn toggle_help(&mut self)
        ensures
            *final(self) == (App { show_help: !old(self).show_help, ..*old(self) }),
    {
        self.show_help = !self.show_help;
    }

    /// Scrolls the help text by one line, down or up, within its lines.
    pub fn scroll_help(&mut self, down: bool)
        requires
            old(self).wf(),
        ensures
            final(self).wf(),
            *final(self) == (App {
                help_offset: if down {
                    if old(self).help_offset + 1 < old(self).help_lines {
                        (old(self).help_offset + 1) as usize
                    } else {
                        old(self).help_offset
                    }
                } else if old(self).help_offset > 0 {
                    (old(self).help_offset - 1) as usize
                } else {
                    0
                },
                ..*old(self)
            }),
    {
        if down {
            if self.help_offset + 1 < self.help_lines {
                self.help_offset = self.help_offset + 1;
            }
        } else if self.help_offset > 0 {
            self.help_offset = self.help_offset - 1;
        }
    }

    /// The labels of the entries, in order.
    pub fn get_file_names(&self) -> (r: Vec<String>)
        requires
            self.wf(),
        ensures
            r.len() == self.files.len(),
            forall|i: int| 0 <= i < r.len() ==> (#[trigger] r[i])@ == self.files[i].formated_name@,
    {
        let mut r: Vec<String> = Vec::new();
        let mut i: usize = 0;
        while i < self.files.len()
            invariant
                i <= self.files.len(),
                r.len() == i,
                forall|k: int| 0 <= k < i ==> (#[trigger] r[k])@ == self.files[k].formated_name@,
            decreases self.files.len() - i,
        {
            r.push(self.files[i].formated_name.clone());
            i = i + 1;
        }
        r
    }

    /// The selected index, or 0 when nothing is selected.
    pub fn get_files_selected(&self) -> (r: usize)
        ensures
            r == match self.selected {
                Some(i) => i,
                None => 0,
            },
    {
        match self.selected {
            Some(i) => i,
            None => 0,
        }
    }

    /// What the preview pane is to show.
    pub fn get_preview(&self) -> (r: Preview)
        requires
            self.wf(),
        ensures
            self.selected is None ==> r is Empty,
            self.selected is Some && self.selected_is_dir() ==> (r matches Preview::Dir(p)
                && p@ == self.selected_path()),
            self.selected is Some && !self.selected_is_dir() ==> (r matches Preview::File(p)
                && p@ == self.selected_path()),
    {
        match self.selected {
            None => Preview::Empty,
            Some(i) => {
                let path = self.selected_file_path();
                if self.files[i].is_dir {
                    Preview::Dir(path)
                } else {
                    Preview::File(path)
                }
            },
        }
    }
}

/// Lines joined by newlines, with none after the last.
pub open spec fn join_lines(s: Seq<Seq<char>>) -> Seq<char>
    decreases s.len(),
{
    if s.len() == 0 {
        Seq::empty()
    } else if s.len() == 1 {
        s[0]
    } else {
        join_lines(s.drop_last()) + seq!['\n'] + s.last()
    }
}

/// The labels of a listing, in order.
pub open spec fn labels(s: Seq<EntryModel>) -> Seq<Seq<char>> {
    s.map_values(|e: EntryModel| label(e.0, e.1))
}

/// Shown when a preview cannot be read.
pub open spec fn unreadable_text() -> Seq<char> {
    "--Cannot read file--"@
}

/// The preview of a directory: the labels of its listing, one per line, or a
/// placeholder when its children could not be read.
pub fn dir_preview(entries: Option<&Vec<DirEntry>>, show_hidden: bool) -> (r: String)
    ensures
        entries is None ==> r@ == unreadable_text(),
        entries matches Some(e) ==> r@ == join_lines(
            labels(listing(raw_views(e@), show_hidden)),
        ),
{
    match entries {
        None => String::from_str("--Cannot read file--"),
        Some(entries) => {
            let files = list_dir(entries, show_hidden);
            let ghost views = file_views(files@);
            let mut out = String::new();
            let mut i: usize = 0;
            assert(labels(views.take(0)) =~= Seq::<Seq<char>>::empty());
            while i < files.len()
                invariant
                    i <= files.len(),
                    views == file_views(files@),
                    forall|k: int| 0 <= k < files.len() ==> (#[trigger] files[k]).wf(),
                    out@ == join_lines(labels(views.take(i as int))),
                decreases files.len() - i,
            {
                let ghost before = labels(views.take(i as int));
                let ghost after = labels(views.take(i + 1));
                assert(after.drop_last() =~= before);
                assert(after.last() == files[i as int].formated_name@);
                if i > 0 {
                    out.append("\n");
                    proof {
                        reveal_strlit("\n");
                    }
                }
                out.append(files[i].formated_name.as_str());
                i = i + 1;
            }
            assert(views.take(files.len() as int) =~= views);
            out
        },
    }
}

/// The preview of a file: its text, or a placeholder when it could not be read.
pub fn file_preview(content: Option<String>) -> (r: String)
    ensures
        content is None ==> r@ == unreadable_text(),
        content matches Some(c) ==> r@ == c@,
{
    match content {
        Some(c) => c,
        None => String::from_str("--Cannot read file--"),
    }
}

proof fn lemma_next_run(i: usize, len: nat, k: nat)
    requires
        i + k < len,
        len <= usize::MAX,
    ensures
        next_iter(Some(i), len, k) == Some((i + k) as usize),
    decreases k,
{
    if k > 0 {
        lemma_next_run(i, len, (k - 1) as nat);
    }
}

proof fn lemma_previous_run(i: usize, len: nat, k: nat)
    requires
        k <= i < len,
        len <= usize::MAX,
    ensures
        previous_iter(Some(i), len, k) == Some((i - k) as usize),
    decreases k,
{
    if k > 0 {
        lemma_previous_run(i, len, (k - 1) as nat);
    }
}

proof fn lemma_next_compose(sel: Option<usize>, len: nat, a: nat, b: nat)
    ensures
        next_iter(sel, len, a + b) == next_iter(next_iter(sel, len, a), len, b),
    decreases b,
{
    if b > 0 {
        lemma_next_compose(sel, len, a, (b - 1) as nat);
        assert(next_iter(sel, len, a + b) == next_index(next_iter(sel, len, (a + b - 1) as nat), len));
    }
}

proof fn lemma_previous_compose(sel: Option<usize>, len: nat, a: nat, b: nat)
    ensures
        previous_iter(sel, len, a + b) == previous_iter(previous_iter(sel, len, a), len, b),
    decreases b,
{
    if b > 0 {
        lemma_previous_compose(sel, len, a, (b - 1) as nat);
        assert(previous_iter(sel, len, a + b) == previous_index(
            previous_iter(sel, len, (a + b - 1) as nat),
            len,
        ));
    }
}

/// Over `len` entries, moving the selection down `len` times comes back to
/// where it started, and so does moving it up `len` times.
pub proof fn lemma_selection_cycle(sel: Option<usize>, len: nat)
    requires
        selection_ok(sel, len),
        len <= usize::MAX,
    ensures
        next_iter(sel, len, len) == sel,
        previous_iter(sel, len, len) == sel,
{
    if let Some(i) = sel {
        let a = (len - 1 - i) as nat;
        lemma_next_run(i, len, a);
        lemma_next_compose(sel, len, a, 1);
        assert(next_iter(sel, len, a + 1) == Some(0usize));
        lemma_next_run(0, len, i as nat);
        lemma_next_compose(sel, len, a + 1, i as nat);
        assert(a + 1 + i == len);

        lemma_previous_run(i, len, i as nat);
        lemma_previous_compose(sel, len, i as nat, 1);
        assert(previous_iter(sel, len, (i + 1) as nat) == Some((len - 1) as usize));
        lemma_previous_run((len - 1) as usize, len, a);
        lemma_previous_compose(sel, len, (i + 1) as nat, a);
    } else {
        assert(next_iter(sel, len, len) == sel) by {
            lemma_none_stays(len, len);
        }
    }
}

proof fn lemma_none_stays(len: nat, k: nat)
    ensures
        next_iter(None, len, k) is None,
        previous_iter(None, len, k) is None,
    decreases k,
{
    if k > 0 {
        lemma_none_stays(len, (k - 1) as nat);
    }
}

/// Moving down from the last entry selects the first; moving up from the
/// first selects the last.
pub proof fn lemma_wraparound(len: nat)
    requires
        0 < len <= usize::MAX,
    ensures
        next_index(Some((len - 1) as usize), len) == Some(0usize),
        previous_index(Some(0usize), len) == Some((len - 1) as usize),
{
}

/// A child whose name starts with a period is left out of a listing that
/// hides such names, and is in one that shows them.
pub proof fn lemma_hidden_filter(raw: Seq<EntryModel>, e: EntryModel)
    requires
        raw.contains(e),
        is_hidden(e.0),
    ensures
        !listing(raw, false).contains(e),
        listing(raw, true).contains(e),
{
    lemma_listing(raw, false);
    lemma_listing(raw, true);
}

/// Toggling hidden entries twice, with the directory's children unchanged,
/// gives back the same entries, flag and directory.
pub proof fn lemma_toggle_twice(a0: App, a1: App, a2: App, raw: Seq<EntryModel>)
    requires
        file_views(a0.files@) == listing(raw, a0.show_hidden),
        refreshed(a0, a1, a0.current_dir@, !a0.show_hidden, raw),
        refreshed(a1, a2, a1.current_dir@, !a1.show_hidden, raw),
    ensures
        file_views(a2.files@) == file_views(a0.files@),
        a2.show_hidden == a0.show_hidden,
        a2.current_dir@ == a0.current_dir@,
{
}

/// Once the only entry of a directory is deleted, its listing is empty and
/// nothing is selected.
pub proof fn lemma_empty_after_delete(a0: App, a1: App, dir: Seq<Seq<char>>, show_hidden: bool)
    requires
        refreshed(a0, a1, dir, show_hidden, Seq::empty()),
    ensures
        a1.files.len() == 0,
        a1.selected is None,
{
    assert(listing(Seq::<EntryModel>::empty(), show_hidden) =~= Seq::<EntryModel>::empty());
}

proof fn hidden_filtered(files: Seq<File>)
    requires
        forall|x: EntryModel| #[trigger]
            file_views(files).contains(x) ==> !is_hidden(x.0),
    ensures
        forall|i: int| 0 <= i < files.len() ==> !is_hidden(#[trigger] files[i].name@),
{
    assert forall|i: int| 0 <= i < files.len() implies !is_hidden(#[trigger] files[i].name@) by {
        assert(file_views(files)[i] == files[i]@);
        assert(file_views(files).contains(files[i]@));
    }
}

} // verus!
