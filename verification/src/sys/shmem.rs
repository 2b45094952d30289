//! Checks on a named shared-memory object.

use vstd::prelude::*;

verus! {

/// Why a shared-memory object is refused.
#[derive(Clone, Copy, Debug, PartialEq, Eq, Structural)]
pub enum ShmemError {
    /// The name is empty or the size is zero.
    InvalidArgument,
    /// A size does not fit the type that has to carry it.
    Overflow,
    /// The object reports a negative size.
    BadDescriptor,
}

/// The size handed to the truncate call when an object of `size` bytes named
/// by `name_len` bytes is created.
pub fn check_create(name_len: usize, size: usize) -> (r: Result<i64, ShmemError>)
    ensures
        r == if name_len == 0 || size == 0 {
            Err::<i64, ShmemError>(ShmemError::InvalidArgument)
        } else if size > i64::MAX {
            Err::<i64, ShmemError>(ShmemError::Overflow)
        } else {
            Ok::<i64, ShmemError>(size as i64)
        },
{
    if name_len == 0 || size == 0 {
        return Err(ShmemError::InvalidArgument);
    }
    if size as u64 > 0x7fff_ffff_ffff_ffffu64 {
        return Err(ShmemError::Overflow);
    }
    Ok(size as i64)
}

/// The size of an opened object, from the size that the system reports.
pub fn check_open_size(reported: i64) -> (r: Result<usize, ShmemError>)
    ensures
        r == if reported < 0 {
            Err::<usize, ShmemError>(ShmemError::BadDescriptor)
        } else if reported == 0 {
            Err::<usize, ShmemError>(ShmemError::InvalidArgument)
        } else if reported > usize::MAX {
            Err::<usize, ShmemError>(ShmemError::Overflow)
        } else {
            Ok::<usize, ShmemError>(reported as usize)
        },
{
    if reported < 0 {
        return Err(ShmemError::BadDescriptor);
    }
    if reported == 0 {
        return Err(ShmemError::InvalidArgument);
    }
    if reported as u64 > usize::MAX as u64 {
        return Err(ShmemError::Overflow);
    }
    Ok(reported as usize)
}

/// `s` without the white space at its start and at its end, as `str::trim`
/// removes it.
pub uninterp spec fn trimmed(s: Seq<char>) -> Seq<char>;

/// `s` without the run of `c` at its start.
pub open spec fn strip_leading(s: Seq<char>, c: char) -> Seq<char>
    decreases s.len(),
{
    if s.len() > 0 && s[0] == c {
        strip_leading(s.skip(1), c)
    } else {
        s
    }
}

/// `s` with every `from` replaced by `to`.
pub open spec fn replace_char(s: Seq<char>, from: char, to: char) -> Seq<char> {
    Seq::new(
        s.len(),
        |i: int|
            if s[i] == from {
                to
            } else {
                s[i]
            },
    )
}

/// The name under which the object `name` is known to the system: a slash,
/// followed by `name` without surrounding white space and leading slashes,
/// with every other slash turned into an underscore.
pub open spec fn shmem_name_spec(name: Seq<char>) -> Seq<char> {
    seq!['/'] + replace_char(strip_leading(trimmed(name), '/'), '/', '_')
}

/// Calls `str::trim`, which removes leading and trailing white space.
#[verifier::external_body]
fn trim(s: &str) -> (r: &str)
    ensures
        r@ == trimmed(s@),
{
    s.trim()
}

/// Calls `str::trim_start_matches` with the character `c`, which removes
/// every `c` at the start.
#[verifier::external_body]
fn trim_start_matches(s: &str, c: char) -> (r: &str)
    ensures
        r@ == strip_leading(s@, c),
{
    s.trim_start_matches(c)
}

/// Calls `str::replace` with the character `from` and a string `to` of one
/// character, which puts that character in the place of every `from`.
#[verifier::external_body]
fn replace(s: &str, from: char, to: &str) -> (r: String)
    requires
        to@.len() == 1,
    ensures
        r@ == replace_char(s@, from, to@[0]),
{
    s.replace(from, to)
}

/// Joins two strings, by `format!`.
#[verifier::external_body]
pub(crate) fn concat(head: &str, tail: &str) -> (r: String)
    ensures
        r@ == head@ + tail@,
{
    format!("{}{}", head, tail)
}

/// The name of a shared-memory object.
#[derive(Debug)]
pub struct ShmemName(pub String);

impl ShmemName {
    /// The name under which the object `name` is known to the system.
    pub fn new(name: &str) -> (shmem_name: ShmemName)
        ensures
            shmem_name.0@ == shmem_name_spec(name@),
    {
        proof {
            reveal_strlit("/");
            reveal_strlit("_");
            assert("/"@ =~= seq!['/']);
            assert("_"@ =~= seq!['_']);
        }
        let trimmed = trim(name);
        let stripped = trim_start_matches(trimmed, '/');
        let replaced = replace(stripped, '/', "_");
        ShmemName(concat("/", replaced.as_str()))
    }

    /// The name as a string.
    pub fn as_str(&self) -> (name: &str)
        ensures
            name@ == self.0@,
    {
        self.0.as_str()
    }
}

/// A name starts with its only slash.
pub proof fn lemma_shmem_name_has_one_slash(name: Seq<char>)
    ensures
        shmem_name_spec(name).len() >= 1,
        shmem_name_spec(name)[0] == '/',
        forall|i: int| 1 <= i < shmem_name_spec(name).len() ==> shmem_name_spec(name)[i] != '/',
{
}

} // verus!
