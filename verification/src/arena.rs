//! The files of an assembly, kept for as long as it lasts in the order in
//! which they were registered.

use vstd::prelude::*;
use typed_arena::Arena;

verus! {

/// `typed_arena::Arena`: an arena of values of one type, which are freed
/// all at once.
#[verifier::external_type_specification]
#[verifier::external_body]
#[verifier::reject_recursive_types(T)]
pub struct ExArena<T>(Arena<T>);

/// A file: its path and its contents.
#[derive(Debug)]
pub struct FileAndContents {
    pub file: String,
    pub contents: String,
}

/// The files that an arena holds: the path and the contents of each, in the
/// order in which they were allocated.
pub uninterp spec fn arena_files(arena: Arena<FileAndContents>) -> Seq<(Seq<char>, Seq<char>)>;

/// `Arena::new`: an arena that holds nothing.
#[verifier::external_body]
fn arena_new() -> (arena: Arena<FileAndContents>)
    ensures
        arena_files(arena) == Seq::<(Seq<char>, Seq<char>)>::empty(),
{
    Arena::new()
}

/// `Arena::alloc`: the arena holds what it held, and behind that the value
/// allocated. The reference that `alloc` returns is dropped. `alloc` gives
/// up only where a chunk of the arena would have to hold more than half of
/// the values that can be counted, which no memory holds.
#[verifier::external_body]
fn arena_alloc(arena: &mut Arena<FileAndContents>, value: FileAndContents)
    ensures
        arena_files(*final(arena)) == arena_files(*old(arena)).push((value.file@, value.contents@)),
{
    arena.alloc(value);
}

/// `Arena::len`: the number of values that were allocated in the arena.
#[verifier::external_body]
fn arena_len(arena: &Arena<FileAndContents>) -> (n: usize)
    ensures
        n == arena_files(*arena).len(),
{
    arena.len()
}

/// `Arena::into_vec`: the values of the arena, in the order in which they
/// were allocated.
#[verifier::external_body]
fn arena_into_vec(arena: Arena<FileAndContents>) -> (files: Vec<FileAndContents>)
    ensures
        file_views(files@) == arena_files(arena),
{
    arena.into_vec()
}

/// The path and the contents of each file.
pub open spec fn file_views(files: Seq<FileAndContents>) -> Seq<(Seq<char>, Seq<char>)> {
    Seq::new(files.len(), |i: int| (files[i].file@, files[i].contents@))
}

/// The files of an assembly.
pub struct FileArena {
    arena: Arena<FileAndContents>,
}

impl View for FileArena {
    type V = Seq<(Seq<char>, Seq<char>)>;

    closed spec fn view(&self) -> Seq<(Seq<char>, Seq<char>)> {
        arena_files(self.arena)
    }
}

impl FileArena {
    /// The arena without any file.
    pub fn new() -> (res: Self)
        ensures
            res@ == Seq::<(Seq<char>, Seq<char>)>::empty(),
    {
        FileArena { arena: arena_new() }
    }

    /// Registers the file at `path` with the contents `contents`, and gives
    /// the number that it has from now on: the number of files that were
    /// registered before it.
    pub fn add_contents(&mut self, path: String, contents: String) -> (id: usize)
        ensures
            final(self)@ == old(self)@.push((path@, contents@)),
            id == old(self)@.len(),
    {
        let id = arena_len(&self.arena);
        arena_alloc(&mut self.arena, FileAndContents { file: path, contents });
        id
    }

    /// The number of files.
    pub fn len(&self) -> (n: usize)
        ensures
            n == self@.len(),
    {
        arena_len(&self.arena)
    }

    /// The files, in the order in which they were registered.
    pub fn into_files(self) -> (files: Vec<FileAndContents>)
        ensures
            file_views(files@) == self@,
    {
        arena_into_vec(self.arena)
    }
}

} // verus!
