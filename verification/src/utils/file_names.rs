//! Names of generated entries: a file is named by a decimal number, a
//! directory by a decimal number followed by `.dir`.

use vstd::prelude::*;
use vstd::slice::slice_subrange;
use vstd::string::{StringExecFns, StringSliceAdditionalSpecFns};
use vstd::utf8::*;

verus! {

/// Number of integers whose names are kept in the lookup table.
pub const MAX_CACHE_SIZE: usize = 1000;

/// Bytes that the table sets aside for each cached name.
pub const CACHE_STRIDE: usize = 3;

/// The character of the decimal digit `d`.
pub open spec fn digit(d: nat) -> char
    recommends
        d < 10,
{
    (48 + d) as u8 as char
}

/// The decimal representation of `n`, without leading zeros.
pub open spec fn decimal(n: nat) -> Seq<char>
    decreases n,
{
    if n < 10 {
        seq![digit(n)]
    } else {
        decimal(n / 10).push(digit(n % 10))
    }
}

/// The suffix that tells a directory's name from a file's.
pub open spec fn dir_suffix() -> Seq<char> {
    seq!['.', 'd', 'i', 'r']
}

/// The name of the `i`-th file of a directory.
pub open spec fn spec_file_name(i: nat) -> Seq<char> {
    decimal(i)
}

/// The name of the `i`-th subdirectory of a directory.
pub open spec fn spec_dir_name(i: nat) -> Seq<char> {
    decimal(i) + dir_suffix()
}

/// The bytes of the name of the file numbered `i`.
pub open spec fn file_bytes(i: nat) -> Seq<u8> {
    encode_utf8(spec_file_name(i))
}

/// The bytes of the name of the subdirectory numbered `i`.
pub open spec fn dir_bytes(i: nat) -> Seq<u8> {
    encode_utf8(spec_dir_name(i))
}

/// The length of `decimal(n)` for the numbers that the table holds.
pub open spec fn cached_len(n: nat) -> nat {
    if n < 10 {
        1
    } else if n < 100 {
        2
    } else {
        3
    }
}

/// What `FileNameCache::str_bytes_used` computes, as a formula on bits.
pub open spec fn spec_str_bytes_used(val: u16) -> usize {
    ((((val + 1014) as u16) | ((val + 412) as u16)) >> 9) as usize
}

/// Every character of a decimal representation is a digit, hence ASCII and
/// no separator of path segments.
pub proof fn lemma_decimal_digits(n: nat)
    ensures
        decimal(n).len() >= 1,
        forall|k: int| 0 <= k < decimal(n).len() ==> '0' <= #[trigger] decimal(n)[k] <= '9',
        is_ascii_chars(decimal(n)),
    decreases n,
{
    if n >= 10 {
        lemma_decimal_digits(n / 10);
    }
}

/// Different numbers have different decimal representations.
pub proof fn lemma_decimal_injective(a: nat, b: nat)
    requires
        decimal(a) == decimal(b),
    ensures
        a == b,
    decreases a,
{
    lemma_decimal_digits(a / 10);
    lemma_decimal_digits(b / 10);
    assert(digit(a % 10) as u32 == 48 + a % 10);
    assert(digit(b % 10) as u32 == 48 + b % 10);
    if a < 10 && b < 10 {
        assert(decimal(a)[0] == digit(a));
        assert(decimal(b)[0] == digit(b));
        assert(digit(a) as u32 == digit(b) as u32);
    } else if a >= 10 && b >= 10 {
        assert(decimal(a).last() == digit(a % 10));
        assert(decimal(b).last() == digit(b % 10));
        assert(digit(a % 10) as u32 == digit(b % 10) as u32);
        assert(decimal(a).drop_last() =~= decimal(a / 10));
        assert(decimal(b).drop_last() =~= decimal(b / 10));
        lemma_decimal_injective(a / 10, b / 10);
        assert(a == 10 * (a / 10) + a % 10);
        assert(b == 10 * (b / 10) + b % 10);
    } else {
        assert(decimal(a).len() != decimal(b).len());
    }
}

/// Different subdirectories have different names.
pub proof fn lemma_dir_name_injective(a: nat, b: nat)
    requires
        spec_dir_name(a) == spec_dir_name(b),
    ensures
        a == b,
{
    let name = spec_dir_name(a);
    assert(decimal(a) =~= name.take(name.len() - 4));
    assert(decimal(b) =~= name.take(name.len() - 4));
    lemma_decimal_injective(a, b);
}

/// The numbers below 1000 have one, two or three digits.
pub proof fn lemma_decimal_cached_len(n: nat)
    requires
        n < 1000,
    ensures
        decimal(n).len() == cached_len(n),
{
    reveal_with_fuel(decimal, 3);
}

/// The bytes of a name are its characters, one byte each.
pub proof fn lemma_name_bytes(name: Seq<char>)
    requires
        is_ascii_chars(name),
    ensures
        encode_utf8(name).len() == name.len(),
        forall|k: int| 0 <= k < name.len() ==> #[trigger] encode_utf8(name)[k] == name[k] as u8,
{
    is_ascii_chars_encode_utf8(name);
}

/// A directory's name is ASCII, longer than its suffix, and holds no `/`.
pub proof fn lemma_dir_name_ascii(i: nat)
    ensures
        is_ascii_chars(spec_dir_name(i)),
        spec_dir_name(i).len() == decimal(i).len() + 4,
        forall|k: int| 0 <= k < spec_dir_name(i).len() ==> #[trigger] spec_dir_name(i)[k] != '/',
{
    lemma_decimal_digits(i);
}

/// `itoa::Buffer::format` on a `u64`: the decimal representation of the
/// number, without sign or leading zeros.
#[verifier::external_body]
pub(crate) fn format_u64(i: u64) -> (s: String)
    ensures
        s@ == decimal(i as nat),
{
    itoa::Buffer::new().format(i).to_owned()
}

/// `core::str::from_utf8`: the string slice over the given bytes, where they
/// are valid UTF-8, and nothing where they are not.
#[verifier::external_body]
pub(crate) fn str_from_utf8(bytes: &[u8]) -> (r: Option<&str>)
    ensures
        r is Some <==> valid_utf8(bytes@),
        r matches Some(s) ==> s.spec_bytes() == bytes@,
{
    std::str::from_utf8(bytes).ok()
}

/// The byte at place `k` of the table of names: a byte of the name of the
/// integer `k / 3`, or zero where that name has ended.
pub open spec fn spec_table_byte(k: int) -> u8 {
    let name = file_bytes((k / (CACHE_STRIDE as int)) as nat);
    if k % (CACHE_STRIDE as int) < name.len() {
        name[k % (CACHE_STRIDE as int)]
    } else {
        0
    }
}

/// The table of the names of the integers below 1000, three bytes for each.
pub open spec fn spec_table() -> Seq<u8> {
    Seq::new((MAX_CACHE_SIZE * CACHE_STRIDE) as nat, |k: int| spec_table_byte(k))
}

/// Lookup table of the names of the integers below 1000.
///
/// All names are written into one buffer in which every name has three
/// bytes: the name of `i` starts at offset `3 * i`, and its length follows
/// from the magnitude of `i`.
pub struct FileNameCache {
    table: Vec<u8>,
}

impl View for FileNameCache {
    type V = Seq<u8>;

    closed spec fn view(&self) -> Seq<u8> {
        self.table@
    }
}

impl FileNameCache {
    /// The table holds the decimal representation of every cached integer.
    #[verifier::type_invariant]
    spec fn wf(&self) -> bool {
        &&& self.table@.len() == MAX_CACHE_SIZE * CACHE_STRIDE
        &&& forall|i: int|
            0 <= i < MAX_CACHE_SIZE ==> #[trigger] self.table@.subrange(
                CACHE_STRIDE * i,
                CACHE_STRIDE * i + cached_len(i as nat),
            ) == encode_utf8(decimal(i as nat))
    }

    /// Formats the integers below 1000 once, for all later lookups.
    pub fn new() -> (cache: Self)
        ensures
            cache@ == spec_table(),
    {
        let mut table: Vec<u8> = Vec::new();
        let mut i: usize = 0;
        while i < MAX_CACHE_SIZE
            invariant
                i <= MAX_CACHE_SIZE,
                table@.len() == CACHE_STRIDE * i,
                forall|m: int| 0 <= m < table@.len() ==> table@[m] == spec_table_byte(m),
                forall|j: int|
                    0 <= j < i ==> #[trigger] table@.subrange(
                        CACHE_STRIDE * j,
                        CACHE_STRIDE * j + cached_len(j as nat),
                    ) == encode_utf8(decimal(j as nat)),
            decreases MAX_CACHE_SIZE - i,
        {
            let name = format_u64(i as u64);
            let bytes = name.as_str().as_bytes();
            proof {
                lemma_decimal_digits(i as nat);
                lemma_decimal_cached_len(i as nat);
                lemma_name_bytes(decimal(i as nat));
            }
            let ghost before = table@;
            let mut k: usize = 0;
            while k < CACHE_STRIDE
                invariant
                    k <= CACHE_STRIDE,
                    bytes@.len() == cached_len(i as nat),
                    before.len() == CACHE_STRIDE * i,
                    bytes@ == file_bytes(i as nat),
                    table@.len() == before.len() + k,
                    table@.subrange(0, before.len() as int) == before,
                    forall|j: int|
                        0 <= j < k && j < bytes@.len() ==> table@[before.len() + j] == bytes@[j],
                    forall|m: int|
                        before.len() <= m < before.len() + k ==> table@[m] == spec_table_byte(m),
                decreases CACHE_STRIDE - k,
            {
                let b: u8 = if k < bytes.len() {
                    bytes[k]
                } else {
                    0
                };
                assert(b == spec_table_byte(before.len() + k));
                table.push(b);
                k += 1;
                assert(table@.subrange(0, before.len() as int) == before);
            }
            proof {
                let grown = table@;
                assert forall|m: int| 0 <= m < grown.len() implies grown[m] == spec_table_byte(
                    m,
                ) by {
                    if m < before.len() {
                        assert(grown[m] == grown.subrange(0, before.len() as int)[m]);
                    }
                }
                assert(grown.subrange(
                    CACHE_STRIDE * i,
                    CACHE_STRIDE * i + cached_len(i as nat),
                ) == bytes@);
                assert forall|j: int| 0 <= j < i implies #[trigger] grown.subrange(
                    CACHE_STRIDE * j,
                    CACHE_STRIDE * j + cached_len(j as nat),
                ) == encode_utf8(decimal(j as nat)) by {
                    assert(grown.subrange(
                        CACHE_STRIDE * j,
                        CACHE_STRIDE * j + cached_len(j as nat),
                    ) == before.subrange(
                        CACHE_STRIDE * j,
                        CACHE_STRIDE * j + cached_len(j as nat),
                    ));
                }
            }
            i += 1;
        }
        assert(table@ =~= spec_table());
        FileNameCache { table }
    }

    /// Number of integers, counted from zero, whose names the table holds.
    pub fn max_cache_size() -> (size: u16)
        ensures
            size == MAX_CACHE_SIZE,
    {
        1000
    }

    /// Length of the name of `val`, computed without a branch.
    ///
    /// The result counts the digits of every `val` that the table holds.
    pub fn str_bytes_used(val: u16) -> (used: usize)
        requires
            val <= u16::MAX - 1014,
        ensures
            used == spec_str_bytes_used(val),
            val < MAX_CACHE_SIZE ==> used == cached_len(val as nat),
    {
        let c1: u16 = 1014;
        let c2: u16 = 412;
        assert(val < 10 ==> ((((val + 1014) as u16) | ((val + 412) as u16)) >> 9) == 1)
            by (bit_vector);
        assert(10 <= val < 100 ==> ((((val + 1014) as u16) | ((val + 412) as u16)) >> 9) == 2)
            by (bit_vector);
        assert(100 <= val < 1000 ==> ((((val + 1014) as u16) | ((val + 412) as u16)) >> 9) == 3)
            by (bit_vector);
        (((val + c1) | (val + c2)) >> 9) as usize
    }

    /// The name of the file numbered `i`, read from the table.
    pub fn cached_name(&self, i: u16) -> (name: &str)
        requires
            i < MAX_CACHE_SIZE,
        ensures
            name@ == spec_file_name(i as nat),
    {
        proof {
            use_type_invariant(self);
            encode_utf8_valid_utf8(decimal(i as nat));
        }
        let start: usize = CACHE_STRIDE * (i as usize);
        let used: usize = Self::str_bytes_used(i);
        let bytes = slice_subrange(self.table.as_slice(), start, start + used);
        proof {
            let j: int = i as int;
            assert(self.table@.subrange(CACHE_STRIDE * j, CACHE_STRIDE * j + cached_len(j as nat))
                == encode_utf8(decimal(j as nat)));
            assert(bytes@ == self.table@.subrange(
                CACHE_STRIDE * j,
                CACHE_STRIDE * j + cached_len(j as nat),
            ));
        }
        match str_from_utf8(bytes) {
            Some(name) => {
                proof {
                    encode_utf8_decode_utf8(name@);
                    encode_utf8_decode_utf8(decimal(i as nat));
                }
                name
            },
            None => {
                assert(false);
                ""
            },
        }
    }

    /// Hands the name of the file numbered `i`, read from the table, to `f`.
    pub fn with_file_name<T, F: FnOnce(&str) -> T>(&self, i: u16, f: F) -> (r: T)
        requires
            i < MAX_CACHE_SIZE,
            forall|name: &str| name@ == spec_file_name(i as nat) ==> call_requires(f, (name,)),
        ensures
            exists|name: &str|
                name@ == spec_file_name(i as nat) && call_ensures(f, (name,), r),
    {
        f(self.cached_name(i))
    }
}

/// The name of the file numbered `i`.
pub fn file_name(cache: &FileNameCache, i: u64) -> (name: String)
    ensures
        name@ == spec_file_name(i as nat),
{
    if i < MAX_CACHE_SIZE as u64 {
        cache.cached_name(i as u16).to_owned()
    } else {
        format_u64(i)
    }
}

/// The name of the subdirectory numbered `i`.
pub fn dir_name(cache: &FileNameCache, i: usize) -> (name: String)
    ensures
        name@ == spec_dir_name(i as nat),
{
    let mut name = file_name(cache, i as u64);
    proof {
        reveal_strlit(".dir");
        assert(".dir"@ =~= dir_suffix());
    }
    name.append(".dir");
    name
}

/// Hands the name of the file numbered `i` to `f` and returns what `f` returns.
pub fn with_file_name<T, F: FnOnce(&str) -> T>(cache: &FileNameCache, i: u64, f: F) -> (r: T)
    requires
        forall|name: &str| name@ == spec_file_name(i as nat) ==> call_requires(f, (name,)),
    ensures
        exists|name: &str| name@ == spec_file_name(i as nat) && call_ensures(f, (name,), r),
{
    if i < MAX_CACHE_SIZE as u64 {
        cache.with_file_name(i as u16, f)
    } else {
        let name = format_u64(i);
        f(name.as_str())
    }
}

/// Hands the name of the subdirectory numbered `i` to `f` and returns what
/// `f` returns.
pub fn with_dir_name<T, F: FnOnce(&str) -> T>(cache: &FileNameCache, i: usize, f: F) -> (r: T)
    requires
        forall|name: &str| name@ == spec_dir_name(i as nat) ==> call_requires(f, (name,)),
    ensures
        exists|name: &str| name@ == spec_dir_name(i as nat) && call_ensures(f, (name,), r),
{
    let name = dir_name(cache, i);
    f(name.as_str())
}

} // verus!
