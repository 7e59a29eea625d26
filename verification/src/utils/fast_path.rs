//! A path buffer that grows and shrinks by one segment at a time.

use vstd::prelude::*;
use vstd::string::StringSliceAdditionalSpecFns;

verus! {

/// The byte that separates the segments of a path.
pub const SEPARATOR: u8 = 47;

/// The byte that ends a path handed to the operating system.
pub const NUL: u8 = 0;

/// The place of the last separator of `path`, if it holds one.
pub open spec fn last_separator(path: Seq<u8>) -> Option<nat>
    decreases path.len(),
{
    if path.len() == 0 {
        None
    } else if path.last() == SEPARATOR {
        Some((path.len() - 1) as nat)
    } else {
        last_separator(path.drop_last())
    }
}

/// The length of the parent of `path`: what stands before its last
/// separator. A path without a separator has the empty path as its parent,
/// and a path whose only separator is its first byte has that separator.
/// The empty path and the path that is one separator have no parent.
pub open spec fn parent_len(path: Seq<u8>) -> Option<nat> {
    if path.len() == 0 {
        None
    } else {
        match last_separator(path) {
            None => Some(0),
            Some(at) => if at > 0 {
                Some(at)
            } else if path.len() > 1 {
                Some(1)
            } else {
                None
            },
        }
    }
}

/// `path` with one more segment, `name`.
pub open spec fn spec_push(path: Seq<u8>, name: Seq<u8>) -> Seq<u8> {
    path + seq![SEPARATOR] + name
}

/// Whether a buffer that holds `path`, the last segment of which was pushed
/// at `last_len`, can give a segment up.
pub open spec fn can_pop(path: Seq<u8>, last_len: nat) -> bool {
    path.len() > last_len || parent_len(path) is Some
}

/// `path` without its last segment: cut where that segment was pushed, or,
/// once that place has been used, where its parent ends.
pub open spec fn spec_pop(path: Seq<u8>, last_len: nat) -> Seq<u8> {
    if path.len() > last_len {
        path.take(last_len as int)
    } else {
        path.take(parent_len(path).unwrap() as int)
    }
}

/// Whether `name` is a single segment: it holds no separator.
pub open spec fn is_segment(name: Seq<u8>) -> bool {
    forall|k: int| 0 <= k < name.len() ==> #[trigger] name[k] != SEPARATOR
}

/// The last separator of a path that ends in a pushed segment stands where
/// the push began.
pub proof fn lemma_last_separator_of_push(path: Seq<u8>, name: Seq<u8>)
    requires
        is_segment(name),
    ensures
        last_separator(spec_push(path, name)) == Some(path.len()),
    decreases name.len(),
{
    let pushed = spec_push(path, name);
    if name.len() == 0 {
        assert(pushed.last() == SEPARATOR);
    } else {
        assert(pushed.last() == name.last());
        assert(pushed.drop_last() =~= spec_push(path, name.drop_last()));
        lemma_last_separator_of_push(path, name.drop_last());
    }
}

/// The parent of a path that ends in a pushed segment is the path that the
/// segment was pushed to, unless that path is empty.
pub proof fn lemma_parent_len_of_push(path: Seq<u8>, name: Seq<u8>)
    requires
        is_segment(name),
        path.len() > 0,
    ensures
        parent_len(spec_push(path, name)) == Some(path.len()),
{
    lemma_last_separator_of_push(path, name);
}

/// Law: `pop` undoes `push`, whatever the pushed name holds.
pub proof fn lemma_pop_after_push(path: Seq<u8>, name: Seq<u8>)
    ensures
        can_pop(spec_push(path, name), path.len()),
        spec_pop(spec_push(path, name), path.len()) == path,
{
    assert(spec_push(path, name).take(path.len() as int) =~= path);
}

/// Law: a second `pop` takes away the segment before, found by its
/// separator, when that segment is a single one.
pub proof fn lemma_pop_twice(path: Seq<u8>, first: Seq<u8>, second: Seq<u8>)
    requires
        is_segment(first),
        path.len() > 0,
    ensures
        ({
            let once = spec_pop(spec_push(spec_push(path, first), second), path.len() + 1 + first.len());
            &&& once == spec_push(path, first)
            &&& can_pop(once, path.len() + 1 + first.len())
            &&& spec_pop(once, path.len() + 1 + first.len()) == path
        }),
{
    let one = spec_push(path, first);
    lemma_pop_after_push(one, second);
    lemma_parent_len_of_push(path, first);
    assert(one.take(path.len() as int) =~= path);
}

/// `Vec::capacity`: the number of elements that the vector can hold without
/// allocating again, never less than its length.
#[verifier::external_body]
fn vec_capacity(v: &Vec<u8>) -> (capacity: usize)
    ensures
        capacity >= v@.len(),
{
    v.capacity()
}

/// `Vec::pop` on bytes: the vector loses its last byte, if it has one. The
/// call does not unwind, which a destructor has to show of all that it
/// calls and which the specification that comes with the verifier leaves
/// open.
#[verifier::external_body]
fn drop_last_byte(v: &mut Vec<u8>)
    ensures
        final(v)@ == if old(v)@.len() > 0 {
            old(v)@.drop_last()
        } else {
            old(v)@
        },
    opens_invariants none
    no_unwind
{
    v.pop();
}

/// A path that is built from single segments.
///
/// Only two changes are offered: adding one segment and taking the last
/// one away. The segment pushed last is taken away in constant time.
pub struct FastPathBuf {
    inner: Vec<u8>,
    last_len: usize,
}

impl View for FastPathBuf {
    type V = Seq<u8>;

    closed spec fn view(&self) -> Seq<u8> {
        self.inner@
    }
}

/// A path whose last segment was pushed just now and can be popped again.
pub struct PopGuard<'a>(pub &'a mut FastPathBuf);

/// A path that is ended by a NUL byte for as long as the guard lives. When
/// the guard is dropped, the byte is taken off again.
pub struct CStrFastPathBufGuard<'a> {
    pub buf: &'a mut FastPathBuf,
}

impl FastPathBuf {
    /// The length that the path had before its last segment was pushed.
    pub closed spec fn last_len(&self) -> nat {
        self.last_len as nat
    }

    /// An empty path.
    pub fn new() -> (path: Self)
        ensures
            path@ == Seq::<u8>::empty(),
            path.last_len() == 0,
    {
        Self::with_capacity(0)
    }

    /// An empty path with room for `capacity` bytes.
    pub fn with_capacity(capacity: usize) -> (path: Self)
        ensures
            path@ == Seq::<u8>::empty(),
            path.last_len() == 0,
    {
        FastPathBuf { inner: Vec::with_capacity(capacity), last_len: 0 }
    }

    /// The path that holds `bytes`; its last segment counts as popped.
    pub fn from_bytes(bytes: Vec<u8>) -> (path: Self)
        ensures
            path@ == bytes@,
            path.last_len() == bytes@.len(),
    {
        let last_len: usize = bytes.len();
        FastPathBuf { inner: bytes, last_len }
    }

    /// The bytes of the path, as the vector that held them.
    pub fn into_bytes(self) -> (bytes: Vec<u8>)
        ensures
            bytes@ == self@,
    {
        self.inner
    }

    /// Makes this path the same as `source`, without giving up its buffer.
    pub fn copy_from(&mut self, source: &Self)
        ensures
            final(self)@ == source@,
            final(self).last_len() == source.last_len(),
    {
        self.inner.clear();
        self.inner.extend_from_slice(source.inner.as_slice());
        self.last_len = source.last_len;
        assert(self.inner@ =~= source.inner@);
    }

    /// Number of bytes that the path can hold without allocating again.
    pub fn capacity(&self) -> (capacity: usize)
        ensures
            capacity >= self@.len(),
    {
        vec_capacity(&self.inner)
    }

    /// Makes room for `additional` more bytes.
    pub fn reserve(&mut self, additional: usize)
        ensures
            final(self)@ == old(self)@,
            final(self).last_len() == old(self).last_len(),
    {
        self.inner.reserve(additional);
    }

    /// The bytes of the path.
    pub fn as_bytes(&self) -> (bytes: &[u8])
        ensures
            bytes@ == self@,
    {
        self.inner.as_slice()
    }

    /// Number of bytes in the path.
    pub fn len(&self) -> (len: usize)
        ensures
            len == self@.len(),
    {
        self.inner.len()
    }

    /// Adds the segment `name` and remembers where it starts.
    pub fn push(&mut self, name: &str) -> (guard: PopGuard<'_>)
        ensures
            guard.0@ == spec_push(old(self)@, name.spec_bytes()),
            guard.0.last_len() == old(self)@.len(),
            *final(self) == *final(guard.0),
    {
        PopGuard::push(self, name)
    }

    /// Takes the last segment away.
    ///
    /// The segment pushed last is cut off where it started. When that place
    /// has been used already, the path is cut where its parent ends.
    pub fn pop(&mut self)
        requires
            can_pop(old(self)@, old(self).last_len()),
        ensures
            final(self)@ == spec_pop(old(self)@, old(self).last_len()),
            final(self).last_len() == old(self).last_len(),
    {
        if self.inner.len() > self.last_len {
            self.inner.truncate(self.last_len);
        } else {
            match self.parent_len() {
                Some(parent) => {
                    self.inner.truncate(parent);
                },
                None => {},
            }
        }
    }

    /// Whether `pop` may be called: the last pushed segment is still there,
    /// or the path has a parent.
    pub fn can_pop(&self) -> (possible: bool)
        ensures
            possible == can_pop(self@, self.last_len()),
    {
        self.inner.len() > self.last_len || self.parent_len().is_some()
    }

    /// Replaces the last segment by `name`.
    pub fn set_file_name(&mut self, name: &str)
        requires
            can_pop(old(self)@, old(self).last_len()),
        ensures
            final(self)@ == spec_push(
                spec_pop(old(self)@, old(self).last_len()),
                name.spec_bytes(),
            ),
            final(self).last_len() == spec_pop(old(self)@, old(self).last_len()).len(),
    {
        self.pop();
        self.push(name);
    }

    /// Ends the path with a NUL byte for as long as the guard lives.
    pub fn to_cstr_mut(&mut self) -> (guard: CStrFastPathBufGuard<'_>)
        ensures
            guard.buf@ == old(self)@.push(NUL),
            guard.buf.last_len() == old(self).last_len(),
            *final(self) == *final(guard.buf),
    {
        CStrFastPathBufGuard::new(self)
    }

    /// The place of the last separator of the path, if it holds one.
    fn last_separator(&self) -> (at: Option<usize>)
        ensures
            match at {
                Some(at) => last_separator(self@) == Some(at as nat) && at < self@.len(),
                None => last_separator(self@) is None,
            },
    {
        let mut end: usize = self.inner.len();
        assert(self.inner@.take(end as int) == self.inner@);
        while end > 0
            invariant
                end <= self.inner@.len(),
                last_separator(self.inner@) == last_separator(self.inner@.take(end as int)),
            decreases end,
        {
            if self.inner[end - 1] == SEPARATOR {
                return Some(end - 1);
            }
            assert(self.inner@.take(end as int).drop_last() == self.inner@.take(end - 1));
            end -= 1;
        }
        None
    }

    /// The length of the parent of the path, if it has one.
    pub fn parent_len(&self) -> (parent: Option<usize>)
        ensures
            match parent {
                Some(parent) => parent_len(self@) == Some(parent as nat) && parent < self@.len(),
                None => parent_len(self@) is None,
            },
    {
        if self.inner.len() == 0 {
            return None;
        }
        match self.last_separator() {
            None => Some(0),
            Some(at) => if at > 0 {
                Some(at)
            } else if self.inner.len() > 1 {
                Some(1)
            } else {
                None
            },
        }
    }
}

impl Clone for FastPathBuf {
    fn clone(&self) -> (copy: Self)
        ensures
            copy@ == self@,
            copy.last_len() == self.last_len(),
    {
        FastPathBuf { inner: self.inner.clone(), last_len: self.last_len }
    }
}

impl<'a> PopGuard<'a> {
    /// Adds the segment `name` to `path` and remembers where it starts.
    pub fn push(path: &'a mut FastPathBuf, name: &str) -> (guard: Self)
        ensures
            guard.0@ == spec_push(old(path)@, name.spec_bytes()),
            guard.0.last_len() == old(path)@.len(),
            *final(path) == *final(guard.0),
    {
        path.last_len = path.inner.len();
        // One more byte than the segment needs, for a NUL that may follow.
        path.inner.reserve(name.len().saturating_add(2));
        path.inner.push(SEPARATOR);
        path.inner.extend_from_slice(name.as_bytes());
        assert(path.inner@ =~= spec_push(old(path)@, name.spec_bytes()));
        PopGuard(path)
    }

    /// Takes the pushed segment away again.
    pub fn pop(self)
        requires
            can_pop(old(self.0)@, old(self.0).last_len()),
        ensures
            final(self.0)@ == spec_pop(old(self.0)@, old(self.0).last_len()),
            final(self.0).last_len() == old(self.0).last_len(),
    {
        self.0.pop();
    }
}

impl<'a> CStrFastPathBufGuard<'a> {
    /// Ends `buf` with a NUL byte.
    pub fn new(buf: &'a mut FastPathBuf) -> (guard: Self)
        ensures
            guard.buf@ == old(buf)@.push(NUL),
            guard.buf.last_len() == old(buf).last_len(),
            *final(buf) == *final(guard.buf),
    {
        buf.inner.push(NUL);
        CStrFastPathBufGuard { buf }
    }

    /// The bytes of the path, the closing NUL included.
    pub fn as_bytes_with_nul(&self) -> (bytes: &[u8])
        ensures
            bytes@ == old(self.buf)@,
    {
        self.buf.inner.as_slice()
    }
}

impl Drop for CStrFastPathBufGuard<'_> {
    /// Takes the byte that `new` added off the path again.
    fn drop(&mut self)
        ensures
            final(self).buf@ == if old(self).buf@.len() > 0 {
                old(self).buf@.drop_last()
            } else {
                old(self).buf@
            },
            final(self).buf.last_len() == old(self).buf.last_len(),
        opens_invariants none
        no_unwind
    {
        drop_last_byte(&mut self.buf.inner);
    }
}

} // verus!
