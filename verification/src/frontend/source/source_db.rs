use super::{FileId, SourceFile};
use vstd::prelude::*;

verus! {

/// In-memory database of source files keyed by stable [`FileId`]: the file
/// with id `n` is the `n`-th file added.
#[derive(Debug)]
pub struct SourceDb {
    files: Vec<SourceFile>,
}

impl View for SourceDb {
    type V = Seq<SourceFile>;

    closed spec fn view(&self) -> Seq<SourceFile> {
        self.files@
    }
}

impl SourceDb {
    /// Each file's id is its position: the file with id `n` is the `n`-th.
    /// Adding files and updating their sources keep this.
    pub open spec fn ids_are_positions(&self) -> bool {
        forall|i: int| 0 <= i < self@.len() ==> (#[trigger] self@[i]).spec_id().0 == i
    }

    /// Creates an empty source database.
    pub fn new() -> (db: Self)
        ensures
            db@ == Seq::<SourceFile>::empty(),
            db.ids_are_positions(),
    {
        SourceDb { files: Vec::new() }
    }

    /// Adds a file and returns its stable id, the number of files before it.
    pub fn add_file(&mut self, path: String, source: String) -> (id: FileId)
        requires
            old(self)@.len() <= u32::MAX,
        ensures
            id.0 == old(self)@.len(),
            final(self)@.len() == old(self)@.len() + 1,
            final(self)@.subrange(0, old(self)@.len() as int) == old(self)@,
            final(self)@.last().spec_id() == id,
            final(self)@.last().spec_path() == path@,
            final(self)@.last().spec_source() == source@,
            old(self).ids_are_positions() ==> final(self).ids_are_positions(),
    {
        let id = FileId::new(self.files.len() as u32);
        let file = SourceFile::new(id, path, source);
        self.files.push(file);
        proof {
            assert(self.files@.subrange(0, old(self)@.len() as int) =~= old(self)@);
            if old(self).ids_are_positions() {
                assert forall|i: int| 0 <= i < self@.len() implies (#[trigger] self@[i]).spec_id().0 == i by {
                    if i < old(self)@.len() {
                        assert(self@[i] == old(self)@[i]);
                    }
                }
            }
        }
        id
    }

    /// Returns a file by id.
    pub fn file(&self, id: FileId) -> (r: Option<&SourceFile>)
        ensures
            match r {
                Some(f) => id.0 < self@.len() && *f == self@[id.0 as int],
                None => id.0 >= self@.len(),
            },
            self.ids_are_positions() ==> (r matches Some(f) ==> f.spec_id() == id),
    {
        let index = id.0 as usize;
        if index < self.files.len() {
            Some(&self.files[index])
        } else {
            None
        }
    }

    /// Returns a mutable file by id.
    pub fn file_mut(&mut self, id: FileId) -> (r: Option<&mut SourceFile>)
        ensures
            match r {
                Some(f) => {
                    &&& id.0 < old(self)@.len()
                    &&& *f == old(self)@[id.0 as int]
                    &&& final(self)@ == old(self)@.update(id.0 as int, *final(f))
                },
                None => id.0 >= old(self)@.len() && final(self)@ == old(self)@,
            },
    {
        let index = id.0 as usize;
        if index < self.files.len() {
            Some(&mut self.files[index])
        } else {
            None
        }
    }

    /// Replaces source text for an existing file id while preserving id and
    /// path; `true` when the file existed and was updated.
    pub fn update_file_source(&mut self, id: FileId, source: String) -> (updated: bool)
        ensures
            updated == (id.0 < old(self)@.len()),
            updated ==> {
                &&& final(self)@.len() == old(self)@.len()
                &&& forall|i: int|
                    0 <= i < old(self)@.len() && i != id.0 ==> #[trigger] final(self)@[i] == old(
                        self,
                    )@[i]
                &&& final(self)@[id.0 as int].spec_id() == id
                &&& final(self)@[id.0 as int].spec_path() == old(self)@[id.0 as int].spec_path()
                &&& final(self)@[id.0 as int].spec_source() == source@
            },
            !updated ==> final(self)@ == old(self)@,
            old(self).ids_are_positions() ==> final(self).ids_are_positions(),
    {
        let index = id.0 as usize;
        if index >= self.files.len() {
            return false;
        }
        let path = self.files[index].path().to_owned();
        let updated = SourceFile::new(id, path, source);
        self.files.set(index, updated);
        proof {
            if old(self).ids_are_positions() {
                assert forall|i: int| 0 <= i < self@.len() implies (#[trigger] self@[i]).spec_id().0 == i by {
                    if i != index {
                        assert(self@[i] == old(self)@[i]);
                    }
                }
            }
        }
        true
    }

    /// Returns all files in insertion order.
    pub fn files(&self) -> (r: &[SourceFile])
        ensures
            r@ == self@,
    {
        self.files.as_slice()
    }

    /// Returns file count.
    pub fn len(&self) -> (n: usize)
        ensures
            n == self@.len(),
    {
        self.files.len()
    }

    /// Returns true when no files are stored.
    pub fn is_empty(&self) -> (b: bool)
        ensures
            b == (self@.len() == 0),
    {
        self.files.len() == 0
    }
}

} // verus!
