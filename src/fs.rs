//! Directory entries as the explorer lists them, and the events and
//! commands of the filesystem side.
use vstd::prelude::*;

use crate::config::icon_config;
use crate::explorer::{CommandView, ExplorerCommand};
use crate::manifest::{lemma_text_lt_irreflexive, lemma_text_lt_transitive, text_lt};
use crate::paths::{extension, extension_of, file_name, file_name_of, file_stem, opt_view, stem_of};

verus! {

#[derive(Clone, Copy, Debug, PartialEq, Eq, Structural)]
pub enum EntryType {
    Directory,
    File,
    Symlink,
    Unknown,
}

/// Rank of a kind in listings: directories first, then files, then links.
pub open spec fn type_rank(t: EntryType) -> int {
    match t {
        EntryType::Directory => 0,
        EntryType::File => 1,
        EntryType::Symlink => 2,
        EntryType::Unknown => 3,
    }
}

pub open spec fn fs_icon(t: EntryType) -> Seq<char> {
    match t {
        EntryType::Directory => "[D]"@,
        EntryType::File => "[F]"@,
        EntryType::Symlink => "[S]"@,
        EntryType::Unknown => "[?]"@,
    }
}

impl EntryType {
    /// The kind of a file type, asked in this order: directory, file, link.
    pub fn from_file_type(is_dir: bool, is_file: bool, is_symlink: bool) -> (r: EntryType)
        ensures
            r == (if is_dir {
                EntryType::Directory
            } else if is_file {
                EntryType::File
            } else if is_symlink {
                EntryType::Symlink
            } else {
                EntryType::Unknown
            }),
    {
        if is_dir {
            EntryType::Directory
        } else if is_file {
            EntryType::File
        } else if is_symlink {
            EntryType::Symlink
        } else {
            EntryType::Unknown
        }
    }

    pub fn get_icon(&self) -> (r: String)
        ensures
            r@ == fs_icon(*self),
    {
        let icons = icon_config().fs;
        match self {
            EntryType::Directory => icons.directory,
            EntryType::File => icons.file,
            EntryType::Symlink => icons.symlink,
            EntryType::Unknown => icons.unknown,
        }
    }

    pub fn rank(&self) -> (r: u8)
        ensures
            r as int == type_rank(*self),
    {
        match self {
            EntryType::Directory => 0,
            EntryType::File => 1,
            EntryType::Symlink => 2,
            EntryType::Unknown => 3,
        }
    }
}

/// A name and the path it belongs to.
#[derive(Clone, Debug)]
pub struct NodeInfo {
    pub name: String,
    pub path: String,
}

pub open spec fn node_name(path: Seq<char>) -> Seq<char> {
    match file_name_of(path) {
        Some(n) => n,
        None => "Unknown"@,
    }
}

impl NodeInfo {
    /// The node at `path`, named by its last segment, or `Unknown`.
    pub fn from_path(path: String) -> (r: NodeInfo)
        ensures
            r.path@ == path@,
            r.name@ == node_name(path@),
    {
        let name = match file_name(path.as_str()) {
            Some(n) => n,
            None => String::from_str("Unknown"),
        };
        NodeInfo { name, path }
    }
}

#[derive(Clone, Debug)]
pub enum EntryTypeData {
    Directory,
    File,
    /// A link, with what it points to.
    Link(NodeInfo),
}

#[derive(Clone, Debug)]
pub struct ResolvedEntry {
    pub info: NodeInfo,
    pub entry_type: EntryTypeData,
}

pub open spec fn kind_of(d: EntryTypeData) -> EntryType {
    match d {
        EntryTypeData::Directory => EntryType::Directory,
        EntryTypeData::File => EntryType::File,
        EntryTypeData::Link(_) => EntryType::Symlink,
    }
}

/// Listing order: by kind, then by name.
pub open spec fn entry_lt(a: ResolvedEntry, b: ResolvedEntry) -> bool {
    let (ra, rb) = (type_rank(kind_of(a.entry_type)), type_rank(kind_of(b.entry_type)));
    ra < rb || (ra == rb && text_lt(a.info.name@, b.info.name@))
}

/// The entry that a directory listing found, where `name` is its file
/// name and `path` its path: a file, a directory, or else a link whose
/// target could be read. Anything else is left out.
pub fn resolve_entry(
    name: String,
    path: String,
    is_file: bool,
    is_dir: bool,
    link: Option<String>,
) -> (r: Option<ResolvedEntry>)
    ensures
        match r {
            Some(e) => e.info.name@ == name@ && e.info.path@ == path@ && (if is_file {
                e.entry_type is File
            } else if is_dir {
                e.entry_type is Directory
            } else {
                match e.entry_type {
                    EntryTypeData::Link(n) => link is Some && n.path@ == link.unwrap()@
                        && n.name@ == node_name(link.unwrap()@),
                    _ => false,
                }
            }),
            None => !is_file && !is_dir && link.is_none(),
        },
{
    let entry_type = if is_file {
        EntryTypeData::File
    } else if is_dir {
        EntryTypeData::Directory
    } else {
        match link {
            Some(l) => EntryTypeData::Link(NodeInfo::from_path(l)),
            None => {
                return None;
            },
        }
    };
    Some(ResolvedEntry { info: NodeInfo { name, path }, entry_type })
}


/// What a click on an entry asks for: a file is previewed, a directory or
/// a link is entered.
pub open spec fn menu_command_of(e: ResolvedEntry) -> Option<CommandView> {
    match kind_of(e.entry_type) {
        EntryType::File => Some(CommandView::SetPreview(Some(e.info.path@))),
        EntryType::Directory | EntryType::Symlink => Some(CommandView::SetDirectory(e.info.path@)),
        EntryType::Unknown => None,
    }
}

impl ResolvedEntry {
    pub fn path(&self) -> (r: &String)
        ensures
            r@ == self.info.path@,
    {
        &self.info.path
    }

    pub fn entry_type_data(&self) -> (r: &EntryTypeData)
        ensures
            *r == self.entry_type,
    {
        &self.entry_type
    }

    pub fn entry_type(&self) -> (r: EntryType)
        ensures
            r == kind_of(self.entry_type),
    {
        match &self.entry_type {
            EntryTypeData::Directory => EntryType::Directory,
            EntryTypeData::File => EntryType::File,
            EntryTypeData::Link(_) => EntryType::Symlink,
        }
    }

    /// Whether `self` comes before `other` in a listing.
    pub fn less_than(&self, other: &ResolvedEntry) -> (r: bool)
        ensures
            r == entry_lt(*self, *other),
    {
        let a = self.entry_type().rank();
        let b = other.entry_type().rank();
        a < b || (a == b && crate::manifest::text_less(self.info.name.as_str(), other.info.name.as_str()))
    }

    pub fn menu_command(&self) -> (r: Option<ExplorerCommand>)
        ensures
            match r {
                Some(c) => menu_command_of(*self) == Some(c@),
                None => menu_command_of(*self) is None,
            },
    {
        match self.entry_type() {
            EntryType::File => Some(ExplorerCommand::SetPreview(Some(self.info.path.clone()))),
            EntryType::Directory | EntryType::Symlink => Some(
                ExplorerCommand::SetDirectory(self.info.path.clone()),
            ),
            EntryType::Unknown => None,
        }
    }

    /// The file stem shown for the entry, if its path has a file name.
    pub fn stem_label(&self) -> (r: Option<String>)
        ensures
            opt_view(r) == match file_name_of(self.info.path@) {
                Some(n) => Some(stem_of(n)),
                None => None,
            },
    {
        match file_name(self.info.path.as_str()) {
            Some(n) => Some(file_stem(n.as_str())),
            None => None,
        }
    }

    /// The extension shown for the entry, if it has one.
    pub fn extension_label(&self) -> (r: Option<String>)
        ensures
            opt_view(r) == match file_name_of(self.info.path@) {
                Some(n) => extension_of(n),
                None => None,
            },
    {
        match file_name(self.info.path.as_str()) {
            Some(n) => extension(n.as_str()),
            None => None,
        }
    }
}

/// Where `e` goes among `t`, searching from `j`: before the first entry
/// that it comes before.
pub open spec fn entry_slot(t: Seq<ResolvedEntry>, e: ResolvedEntry, j: int) -> int
    decreases t.len() - j,
{
    if j >= t.len() {
        t.len() as int
    } else if entry_lt(e, t[j]) {
        j
    } else {
        entry_slot(t, e, j + 1)
    }
}

/// The entries in listing order; entries that neither precedes keep
/// their order.
pub open spec fn listing_order(s: Seq<ResolvedEntry>) -> Seq<ResolvedEntry>
    decreases s.len(),
{
    if s.len() == 0 {
        Seq::empty()
    } else {
        let t = listing_order(s.drop_last());
        t.insert(entry_slot(t, s.last(), 0), s.last())
    }
}

proof fn lemma_entry_lt_transitive(a: ResolvedEntry, b: ResolvedEntry, c: ResolvedEntry)
    requires
        entry_lt(a, b),
        entry_lt(b, c),
    ensures
        entry_lt(a, c),
{
    if text_lt(a.info.name@, b.info.name@) && text_lt(b.info.name@, c.info.name@) {
        lemma_text_lt_transitive(a.info.name@, b.info.name@, c.info.name@);
    }
}

proof fn lemma_entry_lt_irreflexive(a: ResolvedEntry)
    ensures
        !entry_lt(a, a),
{
    lemma_text_lt_irreflexive(a.info.name@);
}

/// No entry is followed by one that comes before it.
pub open spec fn in_listing_order(t: Seq<ResolvedEntry>) -> bool {
    forall|i: int, j: int| 0 <= i < j < t.len() ==> !entry_lt(#[trigger] t[j], #[trigger] t[i])
}

proof fn lemma_entry_slot_bounds(t: Seq<ResolvedEntry>, e: ResolvedEntry, j: int)
    requires
        0 <= j <= t.len(),
    ensures
        j <= entry_slot(t, e, j) <= t.len(),
        forall|k: int| j <= k < entry_slot(t, e, j) ==> !entry_lt(e, #[trigger] t[k]),
        entry_slot(t, e, j) < t.len() ==> entry_lt(e, t[entry_slot(t, e, j)]),
    decreases t.len() - j,
{
    if j < t.len() && !entry_lt(e, t[j]) {
        lemma_entry_slot_bounds(t, e, j + 1);
    }
}

/// A listing lists directories first, then files, then links, each group
/// ordered by name.
pub proof fn lemma_listing_order_sorted(s: Seq<ResolvedEntry>)
    ensures
        in_listing_order(listing_order(s)),
    decreases s.len(),
{
    if s.len() > 0 {
        lemma_listing_order_sorted(s.drop_last());
        let t = listing_order(s.drop_last());
        let e = s.last();
        let pos = entry_slot(t, e, 0);
        lemma_entry_slot_bounds(t, e, 0);
        let r = listing_order(s);
        assert(r == t.insert(pos, e));
        assert forall|i: int, j: int| 0 <= i < j < r.len() implies !entry_lt(
            #[trigger] r[j],
            #[trigger] r[i],
        ) by {
            if j == pos {
                assert(r[i] == t[i]);
            } else if i == pos {
                let k = j - 1;
                assert(r[j] == t[k]);
                if entry_lt(t[k], e) {
                    if k == pos {
                        lemma_entry_lt_transitive(e, t[k], e);
                        lemma_entry_lt_irreflexive(e);
                    } else {
                        lemma_entry_lt_transitive(t[k], e, t[pos]);
                    }
                }
            } else {
                let a = if i < pos { i } else { i - 1 };
                let b = if j < pos { j } else { j - 1 };
                assert(r[i] == t[a] && r[j] == t[b]);
            }
        }
    }
}

/// A listing holds the entries it was given, each as often as given.
pub proof fn lemma_listing_order_permutes(s: Seq<ResolvedEntry>)
    ensures
        listing_order(s).to_multiset() == s.to_multiset(),
    decreases s.len(),
{
    broadcast use vstd::seq_lib::to_multiset_build, vstd::seq_lib::to_multiset_insert;

    if s.len() > 0 {
        lemma_listing_order_permutes(s.drop_last());
        let t = listing_order(s.drop_last());
        lemma_entry_slot_bounds(t, s.last(), 0);
        assert(s =~= s.drop_last().push(s.last()));
    } else {
        assert(listing_order(s) =~= s);
    }
}

/// Puts a directory listing in the order the explorer shows it.
pub fn sort_entries(entries: Vec<ResolvedEntry>) -> (r: Vec<ResolvedEntry>)
    ensures
        r@ == listing_order(entries@),
{
    let ghost s = entries@;
    let mut rest = entries;
    let mut out: Vec<ResolvedEntry> = Vec::new();
    let ghost mut k: int = 0;
    assert(s.subrange(0, 0) =~= Seq::<ResolvedEntry>::empty());
    while rest.len() > 0
        invariant
            0 <= k <= s.len(),
            rest@ == s.subrange(k, s.len() as int),
            out@ == listing_order(s.subrange(0, k)),
        decreases rest@.len(),
    {
        let e = rest.remove(0);
        proof {
            assert(s.subrange(0, k + 1).drop_last() =~= s.subrange(0, k));
            assert(rest@ =~= s.subrange(k + 1, s.len() as int));
        }
        let ghost t = out@;
        let mut j: usize = 0;
        let mut found = false;
        while j < out.len() && !found
            invariant
                out@ == t,
                j <= t.len(),
                entry_slot(t, e, 0) == entry_slot(t, e, j as int),
                found ==> j < t.len() && entry_slot(t, e, j as int) == j,
            decreases t.len() - j + (if found { 0int } else { 1int }),
        {
            if e.less_than(&out[j]) {
                found = true;
            } else {
                j = j + 1;
            }
        }
        out.insert(j, e);
        proof {
            k = k + 1;
        }
    }
    assert(s.subrange(0, s.len() as int) =~= s);
    out
}


#[derive(Clone, Debug)]
pub enum FsEvent {
    DirectoryChanged(String),
    NotADirectory(String),
    /// The listing of `path` is ready, held by the loaded directory `id`.
    DirectoryResolved { path: String, id: u64 },
    IoError(String),
}

#[derive(Clone, Debug)]
pub enum FsCommand {
    ChangeDirectory(String),
}

/// A directory whose listing was read.
#[derive(Clone, Debug)]
pub struct LoadedDirectory {
    pub id: u64,
    pub path: String,
    pub entries: Vec<ResolvedEntry>,
}

/// What a finished listing of `path` gives: on success the loaded
/// directory `id` and an event that names it, on failure an error event
/// with the message.
pub fn loader_finished(path: String, id: u64, result: Result<Vec<ResolvedEntry>, String>) -> (r: (
    Option<LoadedDirectory>,
    FsEvent,
))
    ensures
        match result {
            Ok(entries) => match r {
                (Some(d), FsEvent::DirectoryResolved { path: p, id: i }) => d.id == id && d.path@
                    == path@ && d.entries@ == entries@ && p@ == path@ && i == id,
                _ => false,
            },
            Err(m) => r.0 is None && r.1 == FsEvent::IoError(m),
        },
{
    match result {
        Ok(entries) => {
            let event = FsEvent::DirectoryResolved { path: path.clone(), id };
            (Some(LoadedDirectory { id, path, entries }), event)
        },
        Err(m) => (None, FsEvent::IoError(m)),
    }
}

/// Index of the first loaded directory with the given id.
pub open spec fn find_loaded(loaded: Seq<LoadedDirectory>, id: u64) -> int
    decreases loaded.len(),
{
    if loaded.len() == 0 {
        -1
    } else if find_loaded(loaded.drop_last(), id) >= 0 {
        find_loaded(loaded.drop_last(), id)
    } else if loaded.last().id == id {
        loaded.len() - 1
    } else {
        -1
    }
}

/// The loaded directory whose entries the listing takes after `events`:
/// the last one named by an event for the current directory `cwd` that
/// was loaded for that same path.
pub open spec fn chosen_listing(
    events: Seq<FsEvent>,
    cwd: Seq<char>,
    loaded: Seq<LoadedDirectory>,
) -> int
    decreases events.len(),
{
    if events.len() == 0 {
        -1
    } else {
        match events.last() {
            FsEvent::DirectoryResolved { path, id } => {
                let i = find_loaded(loaded, id);
                if path@ == cwd && i >= 0 && loaded[i].path@ == path@ {
                    i
                } else {
                    chosen_listing(events.drop_last(), cwd, loaded)
                }
            },
            _ => chosen_listing(events.drop_last(), cwd, loaded),
        }
    }
}

fn loaded_index(loaded: &Vec<LoadedDirectory>, id: u64) -> (r: Option<usize>)
    ensures
        match r {
            Some(i) => i as int == find_loaded(loaded@, id) && i < loaded@.len(),
            None => find_loaded(loaded@, id) == -1,
        },
{
    let mut i: usize = 0;
    assert(loaded@.subrange(0, 0) =~= Seq::<LoadedDirectory>::empty());
    while i < loaded.len()
        invariant
            i <= loaded@.len(),
            find_loaded(loaded@.subrange(0, i as int), id) == -1,
        decreases loaded@.len() - i,
    {
        assert(loaded@.subrange(0, i + 1).drop_last() =~= loaded@.subrange(0, i as int));
        if loaded[i].id == id {
            proof {
                lemma_find_loaded_prefix(loaded@, id, i + 1);
            }
            return Some(i);
        }
        i = i + 1;
    }
    assert(loaded@.subrange(0, loaded@.len() as int) =~= loaded@);
    None
}

proof fn lemma_find_loaded_prefix(loaded: Seq<LoadedDirectory>, id: u64, k: int)
    requires
        0 <= k <= loaded.len(),
        find_loaded(loaded.subrange(0, k), id) >= 0,
    ensures
        find_loaded(loaded, id) == find_loaded(loaded.subrange(0, k), id),
    decreases loaded.len() - k,
{
    if k < loaded.len() {
        assert(loaded.subrange(0, k + 1).drop_last() =~= loaded.subrange(0, k));
        lemma_find_loaded_prefix(loaded, id, k + 1);
    } else {
        assert(loaded.subrange(0, k) =~= loaded);
    }
}

/// Which loaded directory, if any, becomes the listing after `events`.
pub fn update_directory_entries(
    events: &Vec<FsEvent>,
    cwd: &String,
    loaded: &Vec<LoadedDirectory>,
) -> (r: Option<usize>)
    ensures
        match r {
            Some(i) => i as int == chosen_listing(events@, cwd@, loaded@) && i < loaded@.len(),
            None => chosen_listing(events@, cwd@, loaded@) == -1,
        },
{
    let mut k: usize = events.len();
    assert(events@.subrange(0, k as int) =~= events@);
    while k > 0
        invariant
            k <= events@.len(),
            chosen_listing(events@, cwd@, loaded@) == chosen_listing(
                events@.subrange(0, k as int),
                cwd@,
                loaded@,
            ),
        decreases k,
    {
        let ghost pre = events@.subrange(0, k as int);
        assert(pre.drop_last() =~= events@.subrange(0, k - 1));
        if let FsEvent::DirectoryResolved { path, id } = &events[k - 1] {
            if *path == *cwd {
                if let Some(i) = loaded_index(loaded, *id) {
                    if loaded[i].path == *path {
                        return Some(i);
                    }
                }
            }
        }
        k = k - 1;
    }
    assert(events@.subrange(0, 0) =~= Seq::<FsEvent>::empty());
    None
}

} // verus!
