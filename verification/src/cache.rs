//! The write-once file cache: one file per key, holding the key's blob.
//!
//! The files are the caller's to open, read and create. This module says
//! where the file of a key lives and what each answer of the file system
//! means for the cache: a file that is not there is a miss and no error, a
//! file that is there already is never written again, and every other
//! failure is the caller's to report, as it came.

use vstd::prelude::*;

verus! {

/// What kind of failure the file system reported.
#[derive(Clone, Copy, Debug, PartialEq, Eq, Structural)]
pub enum FailureKind {
    /// There is no such file or directory.
    NotFound,
    /// The file or directory exists already.
    AlreadyExists,
    /// Anything else.
    Other,
}

/// How the attempt to read a key's file went. `E` is the file system's
/// error, which the cache hands on and never looks into.
pub enum ReadAnswer<E> {
    /// The file was opened and read to its end.
    Contents(String),
    /// The file could not be opened.
    OpenFailed(FailureKind, E),
    /// The file was opened, and reading it failed.
    ReadFailed(E),
}

/// How the attempt to create a key's file and fill it went. The file has
/// to be created by a call that fails where the file exists.
pub enum WriteAnswer<E> {
    /// The file was created and the blob written to it.
    Written,
    /// The file could not be created.
    CreateFailed(FailureKind, E),
    /// The file was created, and writing to it failed.
    WriteFailed(E),
}

/// A simple file backed cache.
#[derive(Debug)]
pub struct FileCache {}

/// The directory of the cache files.
pub open spec fn cache_dir_text() -> Seq<char> {
    "./cache"@
}

impl FileCache {
    /// The directory of the cache files, which has to exist before a key is
    /// read or written.
    pub fn cache_dir() -> (dir: &'static str)
        ensures
            dir@ == cache_dir_text(),
    {
        "./cache"
    }

    /// Opens the cache, given how creating its directory went. A directory
    /// that was there already is as good as a new one.
    pub fn new<E>(created: Result<(), (FailureKind, E)>) -> (cache: Result<FileCache, E>)
        ensures
            match created {
                Ok(()) => cache == Ok::<FileCache, E>(FileCache {  }),
                Err((kind, error)) => if kind == FailureKind::AlreadyExists {
                    cache == Ok::<FileCache, E>(FileCache {  })
                } else {
                    cache == Err::<FileCache, E>(error)
                },
            },
    {
        match created {
            Ok(()) => Ok(FileCache {  }),
            Err((kind, error)) => {
                if kind == FailureKind::AlreadyExists {
                    Ok(FileCache {  })
                } else {
                    Err(error)
                }
            },
        }
    }

    /// The path of the file of `key`: the key as a file name in the cache
    /// directory.
    pub fn get_cache_file(key: &str) -> (path: String)
        ensures
            path@ == cache_dir_text() + "/"@ + key@,
    {
        String::from_str("./cache").concat("/").concat(key)
    }

    /// What a read of a key's file means: the blob where there is one, a
    /// miss where the file is not there, and an error in every other case.
    pub open spec fn found<E>(answer: ReadAnswer<E>) -> Result<Option<String>, E> {
        match answer {
            ReadAnswer::Contents(blob) => Ok(Some(blob)),
            ReadAnswer::OpenFailed(kind, error) => if kind == FailureKind::NotFound {
                Ok(None)
            } else {
                Err(error)
            },
            ReadAnswer::ReadFailed(error) => Err(error),
        }
    }

    /// What a write of a key's file means: success where the blob was
    /// written and where the file was there already, and an error in every
    /// other case.
    pub open spec fn stored<E>(answer: WriteAnswer<E>) -> Result<(), E> {
        match answer {
            WriteAnswer::Written => Ok(()),
            WriteAnswer::CreateFailed(kind, error) => if kind == FailureKind::AlreadyExists {
                Ok(())
            } else {
                Err(error)
            },
            WriteAnswer::WriteFailed(error) => Err(error),
        }
    }

    /// Says what a read of a key's file means: the blob, a miss, or the
    /// file system's error.
    pub fn get<E>(&self, answer: ReadAnswer<E>) -> (found: Result<Option<String>, E>)
        ensures
            found == Self::found(answer),
    {
        match answer {
            ReadAnswer::Contents(blob) => Ok(Some(blob)),
            ReadAnswer::OpenFailed(kind, error) => {
                if kind == FailureKind::NotFound {
                    Ok(None)
                } else {
                    Err(error)
                }
            },
            ReadAnswer::ReadFailed(error) => Err(error),
        }
    }

    /// Says what a write of a key's file means. A file that exists already
    /// holds the key's first blob, which stays: that is success, and nothing
    /// was written.
    pub fn insert<E>(&self, answer: WriteAnswer<E>) -> (stored: Result<(), E>)
        ensures
            stored == Self::stored(answer),
    {
        match answer {
            WriteAnswer::Written => Ok(()),
            WriteAnswer::CreateFailed(kind, error) => {
                if kind == FailureKind::AlreadyExists {
                    Ok(())
                } else {
                    Err(error)
                }
            },
            WriteAnswer::WriteFailed(error) => Err(error),
        }
    }
}

/// Whether `answer` is what a directory with these files, by key, answers
/// to a read of the file of `key`: the file's contents, or that it is not
/// there.
pub open spec fn answers_read<E>(
    files: Map<Seq<char>, Seq<char>>,
    key: Seq<char>,
    answer: ReadAnswer<E>,
) -> bool {
    if files.contains_key(key) {
        answer matches ReadAnswer::Contents(blob) && blob@ == files[key]
    } else {
        answer matches ReadAnswer::OpenFailed(kind, _) && kind == FailureKind::NotFound
    }
}

/// Whether `answer` is what a directory with these files answers to the
/// creation of the file of `key` with `blob` in it, and `after` the files
/// that it then holds: a file that is there stays as it is, and one that is
/// not there is there afterwards.
pub open spec fn answers_write<E>(
    files: Map<Seq<char>, Seq<char>>,
    key: Seq<char>,
    blob: Seq<char>,
    answer: WriteAnswer<E>,
    after: Map<Seq<char>, Seq<char>>,
) -> bool {
    if files.contains_key(key) {
        &&& answer matches WriteAnswer::CreateFailed(kind, _) && kind
            == FailureKind::AlreadyExists
        &&& after == files
    } else {
        &&& answer is Written
        &&& after == files.insert(key, blob)
    }
}

/// Over a directory that answers as `answers_read` and `answers_write` say,
/// the first blob written for a key is the one that is read back, whatever
/// is written for the key after it; and both writes succeed.
pub proof fn lemma_first_write_wins<E>(
    files: Map<Seq<char>, Seq<char>>,
    key: Seq<char>,
    first: Seq<char>,
    second: Seq<char>,
    first_answer: WriteAnswer<E>,
    then: Map<Seq<char>, Seq<char>>,
    second_answer: WriteAnswer<E>,
    at_last: Map<Seq<char>, Seq<char>>,
    read: ReadAnswer<E>,
)
    requires
        !files.contains_key(key),
        answers_write(files, key, first, first_answer, then),
        answers_write(then, key, second, second_answer, at_last),
        answers_read(at_last, key, read),
    ensures
        FileCache::stored(first_answer).is_ok(),
        FileCache::stored(second_answer).is_ok(),
        FileCache::found(read) matches Ok(Some(blob)) && blob@ == first,
{
}

/// Over such a directory, a key that was never written is a miss: neither
/// a blob nor an error.
pub proof fn lemma_unwritten_key_is_a_miss<E>(
    files: Map<Seq<char>, Seq<char>>,
    key: Seq<char>,
    read: ReadAnswer<E>,
)
    requires
        !files.contains_key(key),
        answers_read(files, key, read),
    ensures
        FileCache::found(read) == Ok::<Option<String>, E>(None),
{
}

/// Over such a directory, a write changes the file of no other key, and
/// never one that is there.
pub proof fn lemma_write_keeps_what_is_there<E>(
    files: Map<Seq<char>, Seq<char>>,
    key: Seq<char>,
    blob: Seq<char>,
    answer: WriteAnswer<E>,
    after: Map<Seq<char>, Seq<char>>,
    other: Seq<char>,
)
    requires
        answers_write(files, key, blob, answer, after),
        files.contains_key(other),
    ensures
        after.contains_key(other),
        after[other] == files[other],
{
}

} // verus!
