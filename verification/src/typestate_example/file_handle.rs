//! A file handle whose state says whether the file is open.
use vstd::prelude::*;
use core::marker::PhantomData;

verus! {

/// State: the file is closed.
pub struct Closed;

/// State: the file is open.
pub struct Open;

/// A file handle; reading and writing are only offered on an open one.
pub struct FileHandle<S> {
    path: String,
    _state: PhantomData<S>,
}

impl<S> FileHandle<S> {
    /// The file's path.
    pub closed spec fn path_of(&self) -> Seq<char> {
        self.path@
    }
}

impl FileHandle<Closed> {
    /// A closed handle on `path`.
    pub fn new(path: String) -> (res: Self)
        ensures
            res.path_of() == path@,
    {
        FileHandle { path, _state: PhantomData }
    }

    /// Opens the file.
    pub fn open(self) -> (res: FileHandle<Open>)
        ensures
            res.path_of() == self.path_of(),
    {
        FileHandle { path: self.path, _state: PhantomData }
    }
}

impl FileHandle<Open> {
    /// Reads the file; this example gives four fixed bytes.
    pub fn read(&self) -> (res: Vec<u8>)
        ensures
            res@ == seq![1u8, 2u8, 3u8, 4u8],
    {
        let v: Vec<u8> = vec![1, 2, 3, 4];
        assert(v@ =~= seq![1u8, 2u8, 3u8, 4u8]);
        v
    }

    /// Writes to the file; this example keeps nothing.
    pub fn write(&mut self, data: &[u8])
        ensures
            final(self).path_of() == old(self).path_of(),
    {
    }

    /// Closes the file.
    pub fn close(self) -> (res: FileHandle<Closed>)
        ensures
            res.path_of() == self.path_of(),
    {
        FileHandle { path: self.path, _state: PhantomData }
    }
}

} // verus!
