//! The store of link records. The records live in a directory, one file for each
//! link, named by the link's storage key. The library works on an image of that
//! directory, which the driver loads; whatever changes the image names the file
//! that the driver then writes.

use crate::key::{hash_source_target, storage_key};
use crate::link::{LinkRecord, QuickLink};
use crate::paths::{join, joined, parent, parent_of};
use crate::text::same_text;
use vstd::prelude::*;

verus! {

/// The name of the directory that marks the root of a store.
pub open spec fn marker_name() -> Seq<char> {
    ".fslink"@
}

/// The name of the directory, below the marker, that holds the record files.
pub open spec fn records_name() -> Seq<char> {
    "links"@
}

/// Whether one of the names is `name`.
pub open spec fn names_contain(entries: Seq<String>, name: Seq<char>) -> bool {
    exists|i: int| 0 <= i < entries.len() && (#[trigger] entries[i])@ == name
}

/// Tells whether a directory, given by the names of its entries, holds an entry
/// called `target_name`.
pub fn dir_contains(entries: &Vec<String>, target_name: &str) -> (found: bool)
    ensures
        found == names_contain(entries@, target_name@),
{
    let mut i: usize = 0;
    while i < entries.len()
        invariant
            i <= entries.len(),
            forall|k: int| 0 <= k < i ==> (#[trigger] entries@[k])@ != target_name@,
        decreases entries.len() - i,
    {
        if same_text(entries[i].as_str(), target_name) {
            return true;
        }
        i += 1;
    }
    false
}

/// What can go wrong in the store.
#[derive(Clone, Debug, PartialEq, Eq)]
pub enum StoreError {
    /// The search for the marker directory arrived at the root of the file system
    /// without finding it.
    RootNotFound,
    /// The record file of this name does not hold a record.
    CorruptRecord(String),
}

/// What can go wrong in the store, as a mathematical value: the view of a `StoreError`.
pub enum StoreFailure {
    RootNotFound,
    CorruptRecord(Seq<char>),
}

impl View for StoreError {
    type V = StoreFailure;

    open spec fn view(&self) -> StoreFailure {
        match self {
            StoreError::RootNotFound => StoreFailure::RootNotFound,
            StoreError::CorruptRecord(name) => StoreFailure::CorruptRecord(name@),
        }
    }
}

/// One step of the search for the root of a store.
#[derive(Clone, Debug, PartialEq, Eq)]
pub enum Search {
    /// The marker stands in the directory that was listed. Holds the marker's path.
    Found(String),
    /// The marker is not there: the search goes on in the parent, whose path this holds.
    Ascend(String),
}

/// One file of the records directory.
#[derive(Clone, Debug, PartialEq, Eq)]
pub struct StoredFile {
    /// The name of the file.
    pub name: String,
    /// The record that the file holds, or nothing if it could not be read as one.
    pub record: Option<QuickLink>,
}

/// A file of the records directory as a mathematical value.
pub struct FileView {
    pub name: Seq<char>,
    pub record: Option<LinkRecord>,
}

impl View for StoredFile {
    type V = FileView;

    open spec fn view(&self) -> FileView {
        FileView {
            name: self.name@,
            record: match self.record {
                Some(link) => Some(link@),
                None => None,
            },
        }
    }
}

/// Whether the file at `index` is the first one called `name`.
pub open spec fn is_first_named(files: Seq<FileView>, index: int, name: Seq<char>) -> bool {
    &&& 0 <= index < files.len()
    &&& files[index].name == name
    &&& forall|j: int| 0 <= j < index ==> (#[trigger] files[j]).name != name
}

/// Where the file called `name` stands in the listing, if there is one.
pub open spec fn position(files: Seq<FileView>, name: Seq<char>) -> Option<int> {
    if exists|i: int| is_first_named(files, i, name) {
        Some(choose|i: int| is_first_named(files, i, name))
    } else {
        None
    }
}

/// The file called `name`, if there is one.
pub open spec fn lookup(files: Seq<FileView>, name: Seq<char>) -> Option<FileView> {
    match position(files, name) {
        Some(index) => Some(files[index]),
        None => None,
    }
}

/// The listing after `file` was written: in the place of the file of that name if
/// there was one, else at the end.
pub open spec fn stored(files: Seq<FileView>, file: FileView) -> Seq<FileView> {
    match position(files, file.name) {
        Some(index) => files.update(index, file),
        None => files.push(file),
    }
}

/// The records of a listing, in its order, without the files that hold none.
pub open spec fn readable(files: Seq<FileView>) -> Seq<LinkRecord>
    decreases files.len(),
{
    if files.len() == 0 {
        Seq::empty()
    } else {
        let earlier = readable(files.drop_last());
        match files.last().record {
            Some(record) => earlier.push(record),
            None => earlier,
        }
    }
}

/// The records that a sequence of links stands for.
pub open spec fn records_of(links: Seq<QuickLink>) -> Seq<LinkRecord> {
    Seq::new(links.len(), |i: int| links[i]@)
}

/// Whether the record at `index` is the first one whose target is `target`.
pub open spec fn is_first_at_target(records: Seq<LinkRecord>, index: int, target: Seq<char>) -> bool {
    &&& 0 <= index < records.len()
    &&& records[index].target == target
    &&& forall|j: int| 0 <= j < index ==> (#[trigger] records[j]).target != target
}

/// The first record whose target is `target`, if there is one.
pub open spec fn first_at_target(records: Seq<LinkRecord>, target: Seq<char>) -> Option<LinkRecord> {
    if exists|i: int| is_first_at_target(records, i, target) {
        Some(records[choose|i: int| is_first_at_target(records, i, target)])
    } else {
        None
    }
}

/// The file found at `index` is the one that `position` names.
pub proof fn lemma_position_is(files: Seq<FileView>, name: Seq<char>, index: int)
    requires
        is_first_named(files, index, name),
    ensures
        position(files, name) == Some(index),
{
    let chosen = choose|i: int| is_first_named(files, i, name);
    assert(is_first_named(files, chosen, name));
    if chosen < index {
        assert(files[chosen].name != name);
    }
    if index < chosen {
        assert(files[index].name != name);
    }
}

/// Where no file is called `name`, `position` names none.
pub proof fn lemma_position_none(files: Seq<FileView>, name: Seq<char>)
    requires
        forall|i: int| 0 <= i < files.len() ==> (#[trigger] files[i]).name != name,
    ensures
        position(files, name) == None::<int>,
{
}

/// Where `position` names no file, no file is called `name`.
pub proof fn lemma_unnamed(files: Seq<FileView>, name: Seq<char>, index: int)
    requires
        position(files, name) == None::<int>,
        0 <= index < files.len(),
    ensures
        files[index].name != name,
    decreases index,
{
    if files[index].name == name {
        if forall|j: int| 0 <= j < index ==> (#[trigger] files[j]).name != name {
            assert(is_first_named(files, index, name));
        } else {
            let earlier = choose|j: int| 0 <= j < index && (#[trigger] files[j]).name == name;
            lemma_unnamed(files, name, earlier);
        }
    }
}

/// The store as a mathematical value: the view of a `LinkStorage`.
pub struct StoreView {
    /// The path of the marker directory.
    pub folder_path: Seq<char>,
    /// The path of the records directory.
    pub link_folder: Seq<char>,
    /// The files of the records directory, in the order in which they were loaded.
    pub files: Seq<FileView>,
}

/// A store of link records: where it lies, and an image of its records directory.
#[derive(Clone, Debug, PartialEq, Eq)]
pub struct LinkStorage {
    folder_path: String,
    link_folder: String,
    files: Vec<StoredFile>,
}

impl View for LinkStorage {
    type V = StoreView;

    closed spec fn view(&self) -> StoreView {
        StoreView {
            folder_path: self.folder_path@,
            link_folder: self.link_folder@,
            files: Seq::new(self.files@.len(), |i: int| self.files@[i]@),
        }
    }
}

impl LinkStorage {
    /// Binds a store to the marker directory at `folder_path`, whose entries are
    /// named by `entries`. The image starts empty. Beside the store comes the path
    /// of the records directory if the driver has yet to create it.
    pub fn new(folder_path: &str, entries: &Vec<String>) -> (bound: (LinkStorage, Option<String>))
        ensures
            bound.0@.folder_path == folder_path@,
            bound.0@.link_folder == joined(folder_path@, records_name()),
            bound.0@.files == Seq::<FileView>::empty(),
            match bound.1 {
                Some(missing) => !names_contain(entries@, records_name()) && missing@
                    == bound.0@.link_folder,
                None => names_contain(entries@, records_name()),
            },
    {
        let link_folder = join(folder_path, "links");
        let missing = if dir_contains(entries, "links") {
            None
        } else {
            Some(link_folder.clone())
        };
        let storage = LinkStorage {
            folder_path: folder_path.to_owned(),
            link_folder,
            files: Vec::new(),
        };
        assert(storage@.files =~= Seq::<FileView>::empty());
        (storage, missing)
    }

    /// Takes one step of the upward search for the marker directory: looks at the
    /// directory `dir`, whose entries are named by `entries`. The search ends where
    /// the marker is found, goes on in the parent where it is not, and fails in a
    /// directory that has no parent.
    pub fn search(dir: &str, entries: &Vec<String>) -> (step: Result<Search, StoreError>)
        ensures
            match step {
                Ok(Search::Found(folder_path)) => {
                    &&& names_contain(entries@, marker_name())
                    &&& folder_path@ == joined(dir@, marker_name())
                },
                Ok(Search::Ascend(next)) => {
                    &&& !names_contain(entries@, marker_name())
                    &&& parent_of(dir@) == Some(next@)
                },
                Err(error) => {
                    &&& error is RootNotFound
                    &&& !names_contain(entries@, marker_name())
                    &&& parent_of(dir@) is None
                },
            },
    {
        if dir_contains(entries, ".fslink") {
            return Ok(Search::Found(join(dir, ".fslink")));
        }
        match parent(dir) {
            Some(next) => Ok(Search::Ascend(next)),
            None => Err(StoreError::RootNotFound),
        }
    }

    /// Prepares a store in the directory `initial_path`, whose entries are named by
    /// `entries`: gives the path of the marker directory, and says whether the
    /// driver has yet to create it.
    pub fn init(initial_path: &str, entries: &Vec<String>) -> (marker: (String, bool))
        ensures
            marker.0@ == joined(initial_path@, marker_name()),
            marker.1 == !names_contain(entries@, marker_name()),
    {
        let folder_path = join(initial_path, ".fslink");
        let missing = !dir_contains(entries, ".fslink");
        (folder_path, missing)
    }

    /// The path of the marker directory.
    pub fn folder_path(&self) -> (path: &str)
        ensures
            path@ == self@.folder_path,
    {
        self.folder_path.as_str()
    }

    /// The path of the records directory.
    pub fn link_folder(&self) -> (path: &str)
        ensures
            path@ == self@.link_folder,
    {
        self.link_folder.as_str()
    }

    /// The path of the record file called `file_name`.
    pub fn record_path(&self, file_name: &str) -> (path: String)
        ensures
            path@ == joined(self@.link_folder, file_name@),
    {
        join(self.link_folder.as_str(), file_name)
    }

    /// Finds the first file of the image that is called `name`.
    fn find(&self, name: &str) -> (found: Option<usize>)
        ensures
            match found {
                Some(index) => is_first_named(self@.files, index as int, name@) && index
                    < self.files@.len(),
                None => position(self@.files, name@) == None::<int>,
            },
    {
        let mut i: usize = 0;
        while i < self.files.len()
            invariant
                i <= self.files@.len(),
                self@.files.len() == self.files@.len(),
                forall|k: int| 0 <= k < i ==> (#[trigger] self@.files[k]).name != name@,
            decreases self.files.len() - i,
        {
            if same_text(self.files[i].name.as_str(), name) {
                return Some(i);
            }
            i += 1;
        }
        proof {
            lemma_position_none(self@.files, name@);
        }
        None
    }

    /// Takes a file of the records directory into the image, as the driver read it:
    /// its name, and its record if it holds one. A file of the same name is replaced.
    pub fn load(&mut self, name: String, record: Option<QuickLink>)
        ensures
            final(self)@.folder_path == old(self)@.folder_path,
            final(self)@.link_folder == old(self)@.link_folder,
            final(self)@.files == stored(
                old(self)@.files,
                (StoredFile { name, record })@,
            ),
    {
        let file = StoredFile { name, record };
        match self.find(file.name.as_str()) {
            Some(index) => {
                proof {
                    lemma_position_is(self@.files, file.name@, index as int);
                }
                self.files.set(index, file);
            },
            None => {
                self.files.push(file);
            },
        }
        assert(final(self)@.files =~= stored(old(self)@.files, file@));
    }

    /// Looks up the link from `source` to `target`, in the file named by its key.
    /// A file that holds no record is an error, not an absence.
    pub fn get_quicklink(&self, source: &str, target: &str) -> (result: Result<
        Option<QuickLink>,
        StoreError,
    >)
        ensures
            match lookup(self@.files, storage_key(source@, target@)) {
                None => result matches Ok(None),
                Some(file) => match file.record {
                    Some(record) => result matches Ok(Some(link)) && link@ == record,
                    None => result matches Err(StoreError::CorruptRecord(name)) && name@
                        == storage_key(source@, target@),
                },
            },
    {
        let key = hash_source_target(source, target);
        match self.find(key.as_str()) {
            None => Ok(None),
            Some(index) => {
                proof {
                    lemma_position_is(self@.files, key@, index as int);
                }
                match &self.files[index].record {
                    Some(link) => Ok(Some(link.clone())),
                    None => Err(StoreError::CorruptRecord(key)),
                }
            },
        }
    }

    /// Gives every record of the store, in the order of the image. Files that hold
    /// no record are passed over.
    pub fn get_all(&self) -> (links: Vec<QuickLink>)
        ensures
            records_of(links@) == readable(self@.files),
    {
        let mut links: Vec<QuickLink> = Vec::new();
        let mut i: usize = 0;
        assert(self@.files.take(0) =~= Seq::<FileView>::empty());
        while i < self.files.len()
            invariant
                i <= self.files@.len(),
                self@.files.len() == self.files@.len(),
                links@.len() == readable(self@.files.take(i as int)).len(),
                forall|k: int| 0 <= k < links@.len() ==> (#[trigger] links@[k])@ == readable(
                    self@.files.take(i as int),
                )[k],
            decreases self.files.len() - i,
        {
            proof {
                let next = self@.files.take(i + 1);
                assert(next.drop_last() =~= self@.files.take(i as int));
                assert(next.last() == self@.files[i as int]);
            }
            match &self.files[i].record {
                Some(link) => {
                    links.push(link.clone());
                },
                None => {},
            }
            i += 1;
        }
        assert(self@.files.take(i as int) =~= self@.files);
        assert(records_of(links@) =~= readable(self@.files));
        links
    }

    /// Finds the link that stands at `target`: the first record of the store, in
    /// the order of `get_all`, with that target. The store keeps no index by
    /// target, so this looks at every record.
    pub fn find_by_target(&self, target: &str) -> (found: Option<QuickLink>)
        ensures
            match first_at_target(readable(self@.files), target@) {
                Some(record) => found matches Some(link) && link@ == record,
                None => found is None,
            },
    {
        let links = self.get_all();
        let ghost records = readable(self@.files);
        let mut i: usize = 0;
        while i < links.len()
            invariant
                i <= links@.len(),
                records == readable(self@.files),
                records_of(links@) == records,
                forall|k: int| 0 <= k < i ==> (#[trigger] records[k]).target != target@,
            decreases links.len() - i,
        {
            if same_text(links[i].target.as_str(), target) {
                proof {
                    assert(records_of(links@)[i as int] == links@[i as int]@);
                    lemma_first_at_target_is(records, target@, i as int);
                }
                return Some(links[i].clone());
            }
            i += 1;
        }
        None
    }

    /// Puts a link into the store, in the place of the record with the same key if
    /// there is one. Gives the name of the file that the driver now writes the
    /// record to: the link's storage key.
    pub fn save_quicklink(&mut self, link: &QuickLink) -> (file_name: String)
        ensures
            file_name@ == storage_key(link.source@, link.target@),
            final(self)@.folder_path == old(self)@.folder_path,
            final(self)@.link_folder == old(self)@.link_folder,
            final(self)@.files == stored(old(self)@.files, record_file(file_name@, link@)),
    {
        let key = hash_source_target(link.source.as_str(), link.target.as_str());
        self.load(key.clone(), Some(link.clone()));
        key
    }
}

/// The file that holds a record under a name.
pub open spec fn record_file(name: Seq<char>, record: LinkRecord) -> FileView {
    FileView { name, record: Some(record) }
}

/// What was written is what a lookup by its name gives back.
pub proof fn lemma_stored_then_lookup(files: Seq<FileView>, file: FileView)
    ensures
        lookup(stored(files, file), file.name) == Some(file),
{
    let after = stored(files, file);
    match position(files, file.name) {
        Some(index) => {
            assert(is_first_named(files, index, file.name));
            assert forall|j: int| 0 <= j < index implies (#[trigger] after[j]).name
                != file.name by {
                assert(files[j].name != file.name);
            }
            assert(is_first_named(after, index, file.name));
            lemma_position_is(after, file.name, index);
        },
        None => {
            let end = files.len() as int;
            assert forall|j: int| 0 <= j < end implies (#[trigger] after[j]).name != file.name by {
                lemma_unnamed(files, file.name, j);
            }
            assert(is_first_named(after, end, file.name));
            lemma_position_is(after, file.name, end);
        },
    }
}

/// A write leaves the files of other names as they were.
pub proof fn lemma_stored_keeps_others(files: Seq<FileView>, file: FileView, name: Seq<char>)
    requires
        name != file.name,
    ensures
        lookup(stored(files, file), name) == lookup(files, name),
{
    let after = stored(files, file);
    match position(files, name) {
        Some(index) => {
            assert(is_first_named(files, index, name));
            match position(files, file.name) {
                Some(place) => {
                    assert(is_first_named(files, place, file.name));
                    assert forall|j: int| 0 <= j < index implies (#[trigger] after[j]).name
                        != name by {
                        assert(files[j].name != name);
                    }
                },
                None => {
                    assert forall|j: int| 0 <= j < index implies (#[trigger] after[j]).name
                        != name by {
                        assert(files[j].name != name);
                    }
                },
            }
            assert(is_first_named(after, index, name));
            lemma_position_is(after, name, index);
        },
        None => {
            assert forall|j: int| 0 <= j < after.len() implies (#[trigger] after[j]).name
                != name by {
                if j < files.len() {
                    lemma_unnamed(files, name, j);
                }
            }
            lemma_position_none(after, name);
        },
    }
}

/// A record that was put into the store under its key is what a lookup by that
/// key gives back, equal in every field.
pub proof fn lemma_put_then_get(files: Seq<FileView>, record: LinkRecord)
    ensures
        lookup(
            stored(files, record_file(storage_key(record.source, record.target), record)),
            storage_key(record.source, record.target),
        ) == Some(record_file(storage_key(record.source, record.target), record)),
{
    lemma_stored_then_lookup(
        files,
        record_file(storage_key(record.source, record.target), record),
    );
}

/// Whether no two files of a listing share a name, as in a directory.
pub open spec fn distinct_names(files: Seq<FileView>) -> bool {
    forall|i: int, j: int|
        0 <= i < j < files.len() ==> (#[trigger] files[i]).name != (#[trigger] files[j]).name
}

/// A write keeps the names of a listing distinct.
pub proof fn lemma_stored_keeps_names_distinct(files: Seq<FileView>, file: FileView)
    requires
        distinct_names(files),
    ensures
        distinct_names(stored(files, file)),
{
    let after = stored(files, file);
    match position(files, file.name) {
        Some(index) => {
            assert(is_first_named(files, index, file.name));
            assert forall|i: int, j: int| 0 <= i < j < after.len() implies (#[trigger] after[i]).name
                != (#[trigger] after[j]).name by {
                assert(files[i].name != files[j].name);
            }
        },
        None => {
            assert forall|i: int, j: int| 0 <= i < j < after.len() implies (#[trigger] after[i]).name
                != (#[trigger] after[j]).name by {
                if j < files.len() {
                    assert(files[i].name != files[j].name);
                } else {
                    lemma_unnamed(files, file.name, i);
                }
            }
        },
    }
}

/// The record found at `index` is the one that `first_at_target` names.
pub proof fn lemma_first_at_target_is(records: Seq<LinkRecord>, target: Seq<char>, index: int)
    requires
        is_first_at_target(records, index, target),
    ensures
        first_at_target(records, target) == Some(records[index]),
{
    let chosen = choose|i: int| is_first_at_target(records, i, target);
    assert(is_first_at_target(records, chosen, target));
    if chosen < index {
        assert(records[chosen].target != target);
    }
    if index < chosen {
        assert(records[index].target != target);
    }
}

} // verus!
