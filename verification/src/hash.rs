use crate::config::HASH_PREFIX_LEN;
use vstd::prelude::*;
use vstd::slice::slice_subrange;

verus! {

/// What `xxhash_rust::xxh3::xxh3_64` returns for the given bytes: the 64-bit
/// XXH3 hash with seed 0 and the default secret.
pub uninterp spec fn xxh3_64_of(data: Seq<u8>) -> u64;

/// Calls `xxhash_rust::xxh3::xxh3_64`. The hash depends on the bytes alone;
/// nothing more is claimed of it.
#[verifier::external_body]
pub(crate) fn xxh3_64(data: &[u8]) -> (h: u64)
    ensures
        h == xxh3_64_of(data@),
{
    xxhash_rust::xxh3::xxh3_64(data)
}

/// The lower-case hexadecimal digit for a value below 16.
pub open spec fn spec_hex_digit(n: int) -> char {
    if n < 10 {
        (('0' as u8) + n) as char
    } else {
        (('a' as u8) + n - 10) as char
    }
}

/// The last `n` hexadecimal digits of `v`, the most significant first, with
/// leading zeros.
pub open spec fn spec_hex(v: nat, n: nat) -> Seq<char>
    decreases n,
{
    if n == 0 {
        Seq::empty()
    } else {
        spec_hex(v / 16, (n - 1) as nat).push(spec_hex_digit((v % 16) as int))
    }
}

/// Whether a character is a lower-case hexadecimal digit.
pub open spec fn is_hex_char(c: char) -> bool {
    ('0' <= c <= '9') || ('a' <= c <= 'f')
}

/// Whether a text has the form of a file hash: sixteen lower-case hexadecimal
/// digits.
pub open spec fn is_hash_text(s: Seq<char>) -> bool {
    s.len() == 16 && forall|i: int| 0 <= i < s.len() ==> is_hex_char(#[trigger] s[i])
}

/// The bytes of a file that take part in its hash: the first 64 KiB, or all
/// of a shorter file.
pub open spec fn hashed_prefix(data: Seq<u8>) -> Seq<u8> {
    if data.len() <= HASH_PREFIX_LEN {
        data
    } else {
        data.take(HASH_PREFIX_LEN as int)
    }
}

/// The text of the hash of a file with the given content.
pub open spec fn spec_file_hash(data: Seq<u8>) -> Seq<char> {
    spec_hex(xxh3_64_of(hashed_prefix(data)) as nat, 16)
}

/// The value of a hexadecimal digit; 0 for any other character.
pub open spec fn spec_digit_value(c: char) -> nat {
    if '0' <= c <= '9' {
        (c as u8 - '0' as u8) as nat
    } else if 'a' <= c <= 'f' {
        (c as u8 - 'a' as u8 + 10) as nat
    } else {
        0
    }
}

/// The number that a text of hexadecimal digits spells.
pub open spec fn spec_hex_value(s: Seq<char>) -> nat
    decreases s.len(),
{
    if s.len() == 0 {
        0
    } else {
        spec_hex_value(s.drop_last()) * 16 + spec_digit_value(s.last())
    }
}

/// Sixteen to the power of `n`.
pub open spec fn sixteen_to(n: nat) -> nat
    decreases n,
{
    if n == 0 {
        1
    } else {
        16 * sixteen_to((n - 1) as nat)
    }
}

/// A text of `n` digits spells a number below sixteen to the power of `n`.
pub proof fn lemma_hex_value_bound(s: Seq<char>)
    ensures
        spec_hex_value(s) < sixteen_to(s.len()),
    decreases s.len(),
{
    if s.len() > 0 {
        lemma_hex_value_bound(s.drop_last());
    }
}

/// The powers of sixteen grow with the exponent.
pub proof fn lemma_sixteen_to_grows(m: nat, n: nat)
    requires
        m <= n,
    ensures
        sixteen_to(m) <= sixteen_to(n),
    decreases n,
{
    if m < n {
        lemma_sixteen_to_grows(m, (n - 1) as nat);
    }
}

/// A text of hexadecimal digits is the rendering of the number it spells:
/// two such texts of one length that spell one number are one text.
pub proof fn lemma_hex_round_trip(s: Seq<char>)
    requires
        forall|i: int| 0 <= i < s.len() ==> is_hex_char(#[trigger] s[i]),
    ensures
        spec_hex(spec_hex_value(s), s.len()) == s,
    decreases s.len(),
{
    if s.len() > 0 {
        let head = s.drop_last();
        assert forall|i: int| 0 <= i < head.len() implies is_hex_char(#[trigger] head[i]) by {
            assert(head[i] == s[i]);
        }
        lemma_hex_round_trip(head);
        let c = s.last();
        assert(is_hex_char(c));
        let d = spec_digit_value(c);
        assert(spec_hex_digit(d as int) == c);
        let v = spec_hex_value(s);
        assert(v / 16 == spec_hex_value(head) && v % 16 == d);
        assert(spec_hex(v, s.len()) =~= head.push(c));
        assert(head.push(c) =~= s);
    } else {
        assert(spec_hex(spec_hex_value(s), 0) =~= s);
    }
}

/// Hexadecimal digits are hexadecimal characters, `n` of them.
pub proof fn lemma_hex_form(v: nat, n: nat)
    ensures
        spec_hex(v, n).len() == n,
        forall|i: int| 0 <= i < n ==> is_hex_char(#[trigger] spec_hex(v, n)[i]),
    decreases n,
{
    if n > 0 {
        lemma_hex_form(v / 16, (n - 1) as nat);
    }
}

/// Two files whose first 64 KiB agree have the same hash.
pub proof fn lemma_hash_reads_prefix_only(a: Seq<u8>, b: Seq<u8>)
    requires
        hashed_prefix(a) == hashed_prefix(b),
    ensures
        spec_file_hash(a) == spec_file_hash(b),
{
}

fn hex_digit(n: u8) -> (c: char)
    requires
        n < 16,
    ensures
        c == spec_hex_digit(n as int),
{
    if n < 10 {
        (48u8 + n) as char
    } else {
        (87u8 + n) as char
    }
}

fn push_hex(v: u64, n: usize, out: &mut String)
    ensures
        final(out)@ == old(out)@ + spec_hex(v as nat, n as nat),
    decreases n,
{
    if n == 0 {
        assert(out@ + Seq::<char>::empty() =~= out@);
    } else {
        push_hex(v / 16, n - 1, out);
            out.push(hex_digit((v % 16) as u8));
        assert(out@ =~= old(out)@ + spec_hex(v as nat, n as nat));
    }
}

/// Renders a 64-bit value as sixteen lower-case hexadecimal digits.
pub fn hex16(v: u64) -> (s: String)
    ensures
        s@ == spec_hex(v as nat, 16),
        is_hash_text(s@),
{
    let mut s = String::new();
    push_hex(v, 16, &mut s);
    proof {
        lemma_hex_form(v as nat, 16);
        assert(s@ =~= spec_hex(v as nat, 16));
    }
    s
}

/// Content hash of a media file: sixteen lower-case hexadecimal digits.
#[derive(Debug)]
pub struct FileHash {
    text: String,
}

impl View for FileHash {
    type V = Seq<char>;

    closed spec fn view(&self) -> Seq<char> {
        self.text@
    }
}

impl Clone for FileHash {
    fn clone(&self) -> (r: Self)
        ensures
            r@ == self@,
    {
        proof {
            use_type_invariant(self);
        }
        FileHash { text: self.text.clone() }
    }
}

impl FileHash {
    #[verifier::type_invariant]
    spec fn well_formed(self) -> bool {
        is_hash_text(self.text@)
    }

    /// Hashes the content of a file: the XXH3 hash of its first 64 KiB (of all
    /// of it where it is shorter), as sixteen hexadecimal digits. `data` is
    /// the file from its first byte on; what lies beyond 64 KiB is not read.
    pub fn compute(data: &[u8]) -> (hash: FileHash)
        ensures
            hash@ == spec_file_hash(data@),
            is_hash_text(hash@),
    {
        let prefix = if data.len() <= HASH_PREFIX_LEN {
            data
        } else {
            slice_subrange(data, 0, HASH_PREFIX_LEN)
        };
        assert(prefix@ == hashed_prefix(data@));
        FileHash { text: hex16(xxh3_64(prefix)) }
    }

    /// Takes a text as a hash where it has the form of one.
    pub fn parse(text: &str) -> (hash: Option<FileHash>)
        ensures
            match hash {
                Some(h) => is_hash_text(text@) && h@ == text@,
                None => !is_hash_text(text@),
            },
    {
        let chars = crate::text::chars_of(text);
        if chars.len() != 16 {
            return None;
        }
        let mut i: usize = 0;
        while i < chars.len()
            invariant
                i <= chars.len(),
                chars@ == text@,
                forall|j: int| 0 <= j < i ==> is_hex_char(#[trigger] chars[j]),
            decreases chars.len() - i,
        {
            let c = chars[i];
            if !(('0' <= c && c <= '9') || ('a' <= c && c <= 'f')) {
                return None;
            }
            i += 1;
        }
        Some(FileHash { text: crate::text::string_of(chars.as_slice()) })
    }

    /// The sixteen digits.
    pub fn as_str(&self) -> (s: &str)
        ensures
            s@ == self@,
            is_hash_text(s@),
    {
        proof {
            use_type_invariant(self);
        }
        self.text.as_str()
    }

    /// The first eight digits, for display.
    pub fn short(&self) -> (s: &str)
        ensures
            s@ == self@.subrange(0, 8),
    {
        proof {
            use_type_invariant(self);
        }
        self.text.as_str().substring_char(0, 8)
    }

    /// The number that the sixteen digits spell.
    pub fn value(&self) -> (v: u64)
        ensures
            v == spec_hex_value(self@),
    {
        proof {
            use_type_invariant(self);
        }
        let chars = crate::text::chars_of(self.text.as_str());
        let mut v: u64 = 0;
        let mut i: usize = 0;
        while i < 16
            invariant
                i <= 16,
                chars@ == self@,
                is_hash_text(chars@),
                v == spec_hex_value(chars@.take(i as int)),
            decreases 16 - i,
        {
            let c = chars[i];
            let d: u64 = if '0' <= c && c <= '9' {
                (c as u8 - 48u8) as u64
            } else {
                (c as u8 - 87u8) as u64
            };
            proof {
                let next = chars@.take(i + 1);
                assert(next.drop_last() =~= chars@.take(i as int));
                assert(next.last() == c);
                lemma_hex_value_bound(next);
                lemma_sixteen_to_grows(next.len(), 16);
                assert(sixteen_to(16) == 0x1_0000_0000_0000_0000) by {
                    reveal_with_fuel(sixteen_to, 17);
                }
            }
            v = v * 16 + d;
            i += 1;
        }
        assert(chars@.take(16) =~= chars@);
        v
    }

    /// Whether two hashes are the same.
    pub fn same(&self, other: &FileHash) -> (r: bool)
        ensures
            r == (self@ == other@),
    {
        self.text == other.text
    }
}

} // verus!
