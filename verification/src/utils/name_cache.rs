//! A cache of names that is sized for one run and packs its entries.

use crate::utils::file_names::{
    decimal, dir_suffix, format_u64, lemma_decimal_digits, lemma_name_bytes, spec_dir_name,
    spec_file_name, str_from_utf8,
};
use vstd::prelude::*;
use vstd::slice::slice_subrange;
use vstd::string::StringExecFns;
use vstd::utf8::*;

verus! {

/// The largest number of names that the cache holds: with more, the place of
/// a name would not fit sixteen bits.
pub const MAX_ENTRIES: usize = 15328;

/// Number of digits of `n`, for the numbers that the cache can hold.
pub open spec fn digits(n: nat) -> nat {
    if n < 10 {
        1
    } else if n < 100 {
        2
    } else if n < 1000 {
        3
    } else if n < 10000 {
        4
    } else {
        5
    }
}

/// Where the name of `i` starts among the names: after the names of all
/// smaller numbers.
pub open spec fn text_start(i: nat) -> nat
    decreases i,
{
    if i == 0 {
        0
    } else {
        text_start((i - 1) as nat) + digits((i - 1) as nat)
    }
}

/// Where the place of the names of `i` and its neighbour is kept, and where
/// their lengths are. Four entries share six bytes: two places of two bytes
/// each, and two bytes of lengths.
pub open spec fn spec_index_to_metadata(i: nat) -> (nat, nat) {
    (6 * (i / 4) + 2 * ((i / 2) % 2), 6 * (i / 4) + 4 + (i / 2) % 2)
}

/// The smaller of `i` and its neighbour: the even one.
pub open spec fn even_of(i: nat) -> nat {
    (i - i % 2) as nat
}

/// Whether `buffer`, with its names from `data_start` on, holds the entry
/// of `i`: the place of its pair of names, their lengths, and its name.
pub open spec fn entry_ok(buffer: Seq<u8>, data_start: nat, i: nat) -> bool {
    let (index_index, length_index) = spec_index_to_metadata(i);
    let even = even_of(i);
    &&& index_index + 1 < data_start
    &&& length_index < data_start
    &&& data_start + text_start(i) + digits(i) <= buffer.len()
    &&& buffer[index_index as int] + 256 * buffer[(index_index + 1) as int] == text_start(even)
    &&& buffer[length_index as int] == 16 * digits(even) + digits(even + 1)
    &&& buffer.subrange(
        (data_start + text_start(i)) as int,
        (data_start + text_start(i) + digits(i)) as int,
    ) == encode_utf8(decimal(i))
}

/// The names of the first `n` numbers take as many bytes as this sum says.
pub proof fn lemma_text_start(n: nat)
    requires
        n <= 100000,
    ensures
        text_start(n) == n + (if n > 10 {
            n - 10
        } else {
            0
        }) + (if n > 100 {
            n - 100
        } else {
            0
        }) + (if n > 1000 {
            n - 1000
        } else {
            0
        }) + (if n > 10000 {
            n - 10000
        } else {
            0
        }),
    decreases n,
{
    if n > 0 {
        lemma_text_start((n - 1) as nat);
    }
}

/// A number below 100000 has as many digits as `digits` says.
pub proof fn lemma_digits(n: nat)
    requires
        n < 100000,
    ensures
        decimal(n).len() == digits(n),
        encode_utf8(decimal(n)).len() == digits(n),
{
    reveal_with_fuel(decimal, 5);
    lemma_decimal_digits(n);
    lemma_name_bytes(decimal(n));
}

/// An entry stays what it is when the place and the lengths of a later pair
/// are written.
pub proof fn lemma_marked(before: Seq<u8>, marked: Seq<u8>, data_start: nat, i: nat, j: nat)
    requires
        i % 2 == 0,
        j < i,
        entry_ok(before, data_start, j),
        marked.len() == before.len(),
        forall|m: int|
            0 <= m < before.len() && m != spec_index_to_metadata(i).0 && m
                != spec_index_to_metadata(i).0 + 1 && m != spec_index_to_metadata(i).1
                ==> marked[m] == before[m],
        spec_index_to_metadata(i).1 < data_start,
    ensures
        entry_ok(marked, data_start, j),
{
    let from = (data_start + text_start(j)) as int;
    assert(marked.subrange(from, from + digits(j)) =~= before.subrange(from, from + digits(j)));
}

/// An entry stays what it is when names are added at the end.
pub proof fn lemma_grown(marked: Seq<u8>, full: Seq<u8>, data_start: nat, i: nat, j: nat)
    requires
        j < i,
        entry_ok(marked, data_start, j),
        marked.len() <= full.len(),
        full.subrange(0, marked.len() as int) == marked,
    ensures
        entry_ok(full, data_start, j),
{
    let from = (data_start + text_start(j)) as int;
    assert forall|m: int| 0 <= m < marked.len() implies full[m] == marked[m] by {
        assert(full[m] == full.subrange(0, marked.len() as int)[m]);
    }
    assert(full.subrange(from, from + digits(j)) =~= marked.subrange(from, from + digits(j)));
}

/// The entries of a pair are there when its place and lengths are written
/// and its names stand at the end.
pub proof fn lemma_written(marked: Seq<u8>, full: Seq<u8>, data_start: nat, i: nat)
    requires
        i % 2 == 0,
        i + 1 < 100000,
        marked.len() == data_start + text_start(i),
        full.len() == marked.len() + digits(i) + digits(i + 1),
        full.subrange(0, marked.len() as int) == marked,
        spec_index_to_metadata(i).0 + 1 < data_start,
        spec_index_to_metadata(i).1 < data_start,
        marked[spec_index_to_metadata(i).0 as int] + 256 * marked[(spec_index_to_metadata(i).0
            + 1) as int] == text_start(i),
        marked[spec_index_to_metadata(i).1 as int] == 16 * digits(i) + digits(i + 1),
        full.subrange(marked.len() as int, (marked.len() + digits(i)) as int) == encode_utf8(
            decimal(i),
        ),
        full.subrange((marked.len() + digits(i)) as int, full.len() as int) == encode_utf8(
            decimal(i + 1),
        ),
    ensures
        entry_ok(full, data_start, i),
        entry_ok(full, data_start, i + 1),
{
    assert forall|m: int| 0 <= m < marked.len() implies full[m] == marked[m] by {
        assert(full[m] == full.subrange(0, marked.len() as int)[m]);
    }
    assert(text_start(i + 1) == text_start(i) + digits(i));
    assert(even_of(i) == i);
    assert(even_of(i + 1) == i);
    assert(spec_index_to_metadata(i + 1) == spec_index_to_metadata(i));
}

/// A cache of the names of the first integers, sized for one run.
///
/// All names are written into one buffer, one after the other. Before them
/// stands, for every pair of names, the place where the pair starts, in two
/// bytes, and the lengths of the two names, in one byte.
pub struct FileNameCache {
    buffer: Vec<u8>,
    num_entries: u16,
    data_start: u16,
}

impl FileNameCache {
    #[verifier::type_invariant]
    spec fn wf(&self) -> bool {
        &&& self.num_entries <= MAX_ENTRIES
        &&& self.num_entries % 4 == 0
        &&& self.data_start == self.num_entries + self.num_entries / 2
        &&& self.buffer@.len() == self.data_start + text_start(self.num_entries as nat)
        &&& forall|i: nat|
            i < self.num_entries ==> #[trigger] entry_ok(self.buffer@, self.data_start as nat, i)
    }

    /// Number of names that a cache holds that is asked for `requested`
    /// names: a multiple of four, and no more than fit.
    pub open spec fn spec_num_entries(requested: usize) -> usize {
        let padded = if requested <= usize::MAX - 3 {
            requested + 3
        } else {
            usize::MAX as int
        };
        let rounded = padded - padded % 4;
        if rounded <= MAX_ENTRIES {
            rounded as usize
        } else {
            MAX_ENTRIES
        }
    }

    /// Number of names in the cache.
    pub closed spec fn spec_entries(&self) -> nat {
        self.num_entries as nat
    }

    /// Number of bytes in the cache.
    pub closed spec fn spec_len(&self) -> nat {
        self.buffer@.len()
    }

    /// Where the place of the names of `i` and its neighbour is kept, and
    /// where their lengths are.
    pub fn index_to_metadata(i: usize) -> (places: (usize, usize))
        requires
            spec_index_to_metadata(i as nat).0 + 4 <= usize::MAX,
        ensures
            places.0 == spec_index_to_metadata(i as nat).0,
            places.1 == spec_index_to_metadata(i as nat).1,
    {
        assert((i & !1usize) == i - i % 2 && ((i >> 1) & !1usize) == i / 2 - (i / 2) % 2 && ((i
            >> 1) & 1usize) == (i / 2) % 2) by (bit_vector);
        let metadata_group: usize = (i & !1) + ((i >> 1) & !1);
        (metadata_group, metadata_group + 4 - ((i >> 1) & 1))
    }

    /// A cache for a run that names about `requested` files or directories
    /// in one directory.
    pub fn allocate(requested: usize) -> (cache: Self)
        ensures
            cache.spec_entries() == Self::spec_num_entries(requested),
            cache.spec_len() == cache.spec_entries() + cache.spec_entries() / 2 + text_start(
                cache.spec_entries(),
            ),
    {
        // Round up to a multiple of four: entries come in groups of four.
        let padded: usize = requested.saturating_add(3);
        let rounded: usize = padded & !3;
        assert((padded & !3usize) == padded - padded % 4) by (bit_vector);
        let num_cache_entries: usize = if rounded <= MAX_ENTRIES {
            rounded
        } else {
            MAX_ENTRIES
        };
        assert(num_cache_entries <= 0xffff ==> (num_cache_entries >> 1) == num_cache_entries / 2)
            by (bit_vector);
        let text_bytes_start: usize = num_cache_entries + (num_cache_entries >> 1);
        let text_bytes: usize = Self::text_bytes(num_cache_entries);
        let mut buffer: Vec<u8> = Vec::with_capacity(text_bytes_start + text_bytes);
        let mut filled: usize = 0;
        while filled < text_bytes_start
            invariant
                filled <= text_bytes_start,
                buffer@.len() == filled,
            decreases text_bytes_start - filled,
        {
            buffer.push(0);
            filled += 1;
        }
        let mut i: usize = 0;
        while i < num_cache_entries
            invariant
                i <= num_cache_entries <= MAX_ENTRIES,
                i % 2 == 0,
                num_cache_entries % 4 == 0,
                text_bytes_start == num_cache_entries + num_cache_entries / 2,
                buffer@.len() == text_bytes_start + text_start(i as nat),
                forall|j: nat| j < i ==> #[trigger] entry_ok(buffer@, text_bytes_start as nat, j),
            decreases num_cache_entries - i,
        {
            Self::write_pair(&mut buffer, text_bytes_start, i);
            i += 2;
        }
        FileNameCache {
            buffer,
            num_entries: num_cache_entries as u16,
            data_start: text_bytes_start as u16,
        }
    }

    /// Number of bytes that the names of the first `num_cache_entries`
    /// integers take: for each number of digits, as many bytes as a name
    /// has, for as many names as have that many digits.
    fn text_bytes(num_cache_entries: usize) -> (text_bytes: usize)
        requires
            num_cache_entries <= MAX_ENTRIES,
        ensures
            text_bytes == text_start(num_cache_entries as nat),
            text_bytes <= 5 * MAX_ENTRIES,
    {
        proof {
            lemma_text_start(num_cache_entries as nat);
        }
        let mut remaining: usize = num_cache_entries;
        let five: usize = Self::longer(remaining, 10000);
        remaining -= five;
        let four: usize = Self::longer(remaining, 1000);
        remaining -= four;
        let three: usize = Self::longer(remaining, 100);
        remaining -= three;
        let two: usize = Self::longer(remaining, 10);
        remaining -= two;
        5 * five + 4 * four + 3 * three + 2 * two + remaining
    }

    /// How many of the first `count` integers are no less than `shortest`.
    fn longer(count: usize, shortest: usize) -> (longer: usize)
        ensures
            longer == if count > shortest {
                count - shortest
            } else {
                0
            },
    {
        if count > shortest {
            count - shortest
        } else {
            0
        }
    }

    /// Writes the entries of `i` and its neighbour: where their names
    /// start, how long they are, and the names themselves, at the end.
    fn write_pair(buffer: &mut Vec<u8>, text_bytes_start: usize, i: usize)
        requires
            i % 2 == 0,
            i + 1 < MAX_ENTRIES,
            6 * (i / 4) + 6 <= text_bytes_start <= u16::MAX,
            old(buffer)@.len() == text_bytes_start + text_start(i as nat),
            forall|j: nat| j < i ==> #[trigger] entry_ok(old(buffer)@, text_bytes_start as nat, j),
        ensures
            final(buffer)@.len() == text_bytes_start + text_start((i + 2) as nat),
            forall|j: nat|
                j < i + 2 ==> #[trigger] entry_ok(final(buffer)@, text_bytes_start as nat, j),
    {
        let (index_index, length_index) = Self::index_to_metadata(i);
        let s1 = format_u64(i as u64);
        let s2 = format_u64((i + 1) as u64);
        let b1 = s1.as_str().as_bytes();
        let b2 = s2.as_str().as_bytes();
        proof {
            lemma_digits(i as nat);
            lemma_digits((i + 1) as nat);
            lemma_text_start(i as nat);
        }
        let text_index: usize = buffer.len() - text_bytes_start;
        let ghost before = buffer@;
        let ghost start = text_bytes_start as nat;
        buffer.set(index_index, (text_index % 256) as u8);
        buffer.set(index_index + 1, (text_index / 256) as u8);
        buffer.set(length_index, (b1.len() * 16 + b2.len()) as u8);
        let ghost marked = buffer@;
        proof {
            assert forall|j: nat| j < i implies #[trigger] entry_ok(marked, start, j) by {
                lemma_marked(before, marked, start, i as nat, j);
            }
        }
        let mut k: usize = 0;
        while k < b1.len()
            invariant
                k <= b1@.len(),
                buffer@.len() == marked.len() + k,
                buffer@.subrange(0, marked.len() as int) == marked,
                forall|m: int| 0 <= m < k ==> buffer@[marked.len() + m] == b1@[m],
            decreases b1@.len() - k,
        {
            buffer.push(b1[k]);
            k += 1;
            assert(buffer@.subrange(0, marked.len() as int) == marked);
        }
        let ghost first = buffer@;
        let mut k: usize = 0;
        while k < b2.len()
            invariant
                k <= b2@.len(),
                buffer@.len() == first.len() + k,
                buffer@.subrange(0, first.len() as int) == first,
                forall|m: int| 0 <= m < k ==> buffer@[first.len() + m] == b2@[m],
            decreases b2@.len() - k,
        {
            buffer.push(b2[k]);
            k += 1;
            assert(buffer@.subrange(0, first.len() as int) == first);
        }
        proof {
            let full = buffer@;
            assert(full.subrange(0, marked.len() as int) =~= marked) by {
                assert forall|m: int| 0 <= m < marked.len() implies full[m] == marked[m] by {
                    assert(first[m] == first.subrange(0, marked.len() as int)[m]);
                    assert(full[m] == full.subrange(0, first.len() as int)[m]);
                }
            }
            assert(full.subrange(marked.len() as int, first.len() as int) =~= b1@) by {
                assert forall|m: int| 0 <= m < b1@.len() implies full[marked.len() + m]
                    == b1@[m] by {
                    assert(first[marked.len() + m] == b1@[m]);
                    assert(full[marked.len() + m] == full.subrange(
                        0,
                        first.len() as int,
                    )[marked.len() + m]);
                }
            }
            assert(full.subrange(first.len() as int, full.len() as int) =~= b2@);
            assert forall|j: nat| j < i implies #[trigger] entry_ok(full, start, j) by {
                lemma_grown(marked, full, start, i as nat, j);
            }
            lemma_written(marked, full, start, i as nat);
            assert forall|j: nat| j < i + 2 implies #[trigger] entry_ok(full, start, j) by {
                if j >= i {
                    assert(j == i || j == i + 1);
                }
            }
        }
    }

    /// Gives the cache up.
    pub fn free(self) {
    }

    /// Number of bytes in the cache.
    pub fn len(&self) -> (len: u32)
        ensures
            len == self.spec_len(),
    {
        proof {
            use_type_invariant(self);
            lemma_text_start(self.num_entries as nat);
        }
        self.buffer.len() as u32
    }

    /// Number of names in the cache.
    pub fn num_entries(&self) -> (entries: u16)
        ensures
            entries == self.spec_entries(),
    {
        self.num_entries
    }

    /// The name of the file numbered `i`, read from the cache.
    fn cached_name(&self, i: usize) -> (name: &str)
        requires
            i < self.spec_entries(),
        ensures
            name@ == spec_file_name(i as nat),
    {
        proof {
            use_type_invariant(self);
            assert(entry_ok(self.buffer@, self.data_start as nat, i as nat));
            lemma_digits(i as nat);
            lemma_digits(even_of(i as nat));
            lemma_digits(even_of(i as nat) + 1);
            lemma_text_start(i as nat);
            lemma_text_start(even_of(i as nat));
            lemma_text_start(self.num_entries as nat);
            encode_utf8_valid_utf8(decimal(i as nat));
        }
        let (index_index, length_index) = Self::index_to_metadata(i);
        let index: usize = self.buffer[index_index] as usize + 256 * (self.buffer[index_index
            + 1] as usize);
        let lengths: usize = self.buffer[length_index] as usize;
        let s1_len: usize = lengths / 16;
        let s2_len: usize = lengths % 16;
        let start: usize = self.data_start as usize + index + if i % 2 == 1 {
            s1_len
        } else {
            0
        };
        let len: usize = if i % 2 == 1 {
            s2_len
        } else {
            s1_len
        };
        proof {
            if i % 2 == 1 {
                assert(text_start(i as nat) == text_start((i - 1) as nat) + digits((i - 1) as nat));
            }
        }
        let bytes = slice_subrange(self.buffer.as_slice(), start, start + len);
        match str_from_utf8(bytes) {
            Some(name) => {
                proof {
                    encode_utf8_decode_utf8(name@);
                    encode_utf8_decode_utf8(decimal(i as nat));
                }
                name
            },
            None => {
                assert(false);
                ""
            },
        }
    }

    /// The name of the file numbered `i`.
    pub fn file_name(&self, i: usize) -> (name: String)
        ensures
            name@ == spec_file_name(i as nat),
    {
        if i >= self.num_entries as usize {
            Self::raw_file_name(i)
        } else {
            self.cached_name(i).to_owned()
        }
    }

    /// The name of a file whose number the cache does not hold.
    fn raw_file_name(i: usize) -> (name: String)
        ensures
            name@ == spec_file_name(i as nat),
    {
        format_u64(i as u64)
    }

    /// Hands the name of the file numbered `i` to `f` and returns what `f`
    /// returns.
    pub fn with_file_name<T, F: FnOnce(&str) -> T>(&self, i: usize, f: F) -> (r: T)
        requires
            forall|name: &str| name@ == spec_file_name(i as nat) ==> call_requires(f, (name,)),
        ensures
            exists|name: &str| name@ == spec_file_name(i as nat) && call_ensures(f, (name,), r),
    {
        if i >= self.num_entries as usize {
            let name = Self::raw_file_name(i);
            f(name.as_str())
        } else {
            f(self.cached_name(i))
        }
    }

    /// Hands the name of the subdirectory numbered `i` to `f` and returns
    /// what `f` returns.
    pub fn with_dir_name<T, F: FnOnce(&str) -> T>(&self, i: usize, f: F) -> (r: T)
        requires
            forall|name: &str| name@ == spec_dir_name(i as nat) ==> call_requires(f, (name,)),
        ensures
            exists|name: &str| name@ == spec_dir_name(i as nat) && call_ensures(f, (name,), r),
    {
        let mut name = self.file_name(i);
        proof {
            reveal_strlit(".dir");
            assert(".dir"@ =~= dir_suffix());
        }
        name.append(".dir");
        f(name.as_str())
    }
}

} // verus!
