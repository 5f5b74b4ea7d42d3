//! The names of directory entries: which names are accepted, how a name is
//! held in the fixed-width field of an entry, and how an entry is encoded.
//!
//! An entry takes 22 bytes on disk: the inode number, little-endian, and a
//! field of 14 bytes that holds the UTF-8 encoding of the name, padded with
//! zero bytes.
use crate::device::splice;
use crate::device::zeros;
use crate::device::Block;
use crate::device::DeviceError;
use crate::types::DirEntry;
use crate::types::DirEntryView;
use vstd::bytes::*;
use vstd::prelude::*;
use vstd::slice::slice_subrange;
use vstd::slice::slice_to_vec;
use vstd::string::*;
use vstd::utf8::*;

verus! {

/// What `char::is_alphanumeric` answers for `c`.
pub uninterp spec fn is_alphanumeric(c: char) -> bool;

/// Asks `char::is_alphanumeric` of the standard library whether `c` is
/// alphabetic or numeric under Unicode. The contract claims of the answer
/// only that it depends on `c` alone.
#[verifier::external_body]
fn char_is_alphanumeric(c: char) -> (r: bool)
    ensures
        r == is_alphanumeric(c),
{
    c.is_alphanumeric()
}

/// Appends `c` to `s` with `String::push` of the standard library. The
/// contract claims that the character is added at the end and that the
/// characters before it stay as they were.
#[verifier::external_body]
fn string_push(s: &mut String, c: char)
    ensures
        final(s)@ == old(s)@.push(c),
{
    s.push(c)
}

/// Decodes `bytes` with `String::from_utf8` of the standard library. The
/// contract claims that the call succeeds exactly on valid UTF-8, and that
/// the string it gives is the one whose encoding the bytes are.
#[verifier::external_body]
fn string_from_utf8(bytes: Vec<u8>) -> (r: Option<String>)
    ensures
        r is Some <==> valid_utf8(bytes@),
        r is Some ==> r->Some_0@ == decode_utf8(bytes@),
{
    match String::from_utf8(bytes) {
        Ok(s) => Some(s),
        Err(_) => None,
    }
}

/// Index of the first NUL of `name` at or after `k`, or the length of `name`
/// if there is none.
pub open spec fn nul_from(name: Seq<char>, k: int) -> int
    decreases name.len() - k,
{
    if k >= name.len() {
        name.len() as int
    } else if name[k] == '\0' {
        k
    } else {
        nul_from(name, k + 1)
    }
}

/// The name that a field of characters holds: the characters before the
/// first NUL.
pub open spec fn name_prefix(name: Seq<char>) -> Seq<char> {
    name.subrange(0, nul_from(name, 0))
}

/// `name` followed by NULs, 14 characters in all.
pub open spec fn padded(name: Seq<char>) -> Seq<char> {
    Seq::new(
        14,
        |i: int|
            if i < name.len() {
                name[i]
            } else {
                '\0'
            },
    )
}

/// Every character of `name` is alphanumeric.
pub open spec fn all_alphanumeric(name: Seq<char>) -> bool {
    forall|i: int| 0 <= i < name.len() ==> is_alphanumeric(#[trigger] name[i])
}

/// No character of `name` is NUL.
pub open spec fn nul_free(name: Seq<char>) -> bool {
    forall|i: int| 0 <= i < name.len() ==> #[trigger] name[i] != '\0'
}

/// The rule for names, given whether every character is alphanumeric: a
/// name is not empty, takes at most 14 bytes, and is `.`, `..` or made of
/// alphanumeric characters. A NUL ends a name in its field, so none may
/// stand in it.
pub open spec fn name_rule(name: Seq<char>, alphanumeric: bool) -> bool {
    &&& name.len() > 0
    &&& encode_utf8(name).len() <= 14
    &&& nul_free(name)
    &&& (name == seq!['.'] || name == seq!['.', '.'] || alphanumeric)
}

/// `name` is accepted as the name of a directory entry.
pub open spec fn name_ok(name: Seq<char>) -> bool {
    name_rule(name, all_alphanumeric(name))
}

/// A character takes at least one byte.
pub proof fn lemma_encode_len(chars: Seq<char>)
    ensures
        chars.len() <= encode_utf8(chars).len(),
    decreases chars.len(),
{
    if chars.len() > 0 {
        lemma_encode_len(chars.drop_first());
    }
}

/// The encoding of a concatenation is the concatenation of the encodings.
pub proof fn lemma_encode_concat(a: Seq<char>, b: Seq<char>)
    ensures
        encode_utf8(a + b) == encode_utf8(a) + encode_utf8(b),
    decreases a.len(),
{
    if a.len() == 0 {
        assert(a + b =~= b);
        assert(encode_utf8(a) + encode_utf8(b) =~= encode_utf8(b));
    } else {
        lemma_encode_concat(a.drop_first(), b);
        assert((a + b).drop_first() =~= a.drop_first() + b);
        assert(encode_utf8(a + b) =~= encode_utf8(a) + encode_utf8(b));
    }
}

/// Valid bytes decode to at most as many characters.
pub proof fn lemma_decode_len(bytes: Seq<u8>)
    requires
        valid_utf8(bytes),
    ensures
        decode_utf8(bytes).len() <= bytes.len(),
{
    decode_utf8_encode_utf8(bytes);
    lemma_encode_len(decode_utf8(bytes));
}

/// From `k` on, the first NUL of a padded NUL-free name lies at the name's
/// end.
pub proof fn lemma_nul_from_padded(name: Seq<char>, k: int)
    requires
        nul_free(name),
        name.len() <= 14,
        0 <= k <= name.len(),
    ensures
        nul_from(padded(name), k) == name.len(),
    decreases name.len() - k,
{
    if k < name.len() {
        assert(padded(name)[k] == name[k]);
        lemma_nul_from_padded(name, k + 1);
    }
}

/// A NUL-free name of at most 14 characters is read back from its padded
/// field.
pub proof fn lemma_padded_prefix(name: Seq<char>)
    requires
        nul_free(name),
        name.len() <= 14,
    ensures
        name_prefix(padded(name)) == name,
{
    lemma_nul_from_padded(name, 0);
    assert(name_prefix(padded(name)) =~= name);
}

/// The bytes of the 14-byte name field.
pub open spec fn name_field(name: Seq<char>) -> Seq<u8> {
    let e = encode_utf8(name_prefix(name));
    e + zeros((14 - e.len()) as nat)
}

/// The name of the entry fits in the name field.
pub open spec fn encodable(name: Seq<char>) -> bool {
    encode_utf8(name_prefix(name)).len() <= 14
}

/// The encoding of a directory entry.
pub open spec fn direntry_bytes(de: DirEntryView) -> Seq<u8> {
    spec_u64_to_le_bytes(de.inum) + name_field(de.name)
}

/// The directory entry that 22 bytes encode, if their name field is valid
/// UTF-8.
pub open spec fn direntry_parse(b: Seq<u8>) -> Option<DirEntryView> {
    let field = b.subrange(8, 22);
    if valid_utf8(field) {
        Some(
            DirEntryView {
                inum: spec_u64_from_le_bytes(b.subrange(0, 8)),
                name: padded(decode_utf8(field)),
            },
        )
    } else {
        None
    }
}

/// Decoding an encoded entry gives back its inode number and its name,
/// padded with NULs.
pub proof fn lemma_direntry_roundtrip(de: DirEntryView)
    requires
        encodable(de.name),
    ensures
        direntry_bytes(de).len() == 22,
        direntry_parse(direntry_bytes(de)) == Some(
            DirEntryView { inum: de.inum, name: padded(name_prefix(de.name)) },
        ),
{
    lemma_auto_spec_u64_to_from_le_bytes();
    let b = direntry_bytes(de);
    let p = name_prefix(de.name);
    let e = encode_utf8(p);
    let m = (14 - e.len()) as nat;
    let nuls = Seq::new(m, |i: int| '\0');
    assert(is_ascii_chars(nuls));
    is_ascii_chars_encode_utf8(nuls);
    assert(encode_utf8(nuls) =~= zeros(m));
    lemma_encode_concat(p, nuls);
    encode_utf8_valid_utf8(p + nuls);
    encode_utf8_decode_utf8(p + nuls);
    assert(b.subrange(0, 8) =~= spec_u64_to_le_bytes(de.inum));
    assert(b.subrange(8, 22) =~= name_field(de.name));
    lemma_encode_len(p);
    assert(padded(p + nuls) =~= padded(p));
}

/// The name that the entry holds.
pub fn get_name(de: &DirEntry) -> (r: String)
    ensures
        r@ == name_prefix(de.name@),
{
    let mut s = String::new();
    let mut i: usize = 0;
    while i < 14
        invariant
            i <= 14,
            s@ == de.name@.subrange(0, i as int),
            nul_from(de.name@, 0) == nul_from(de.name@, i as int),
        ensures
            i <= 14,
            s@ == de.name@.subrange(0, i as int),
            nul_from(de.name@, 0) == i,
        decreases 14 - i,
    {
        let c: char = de.name[i];
        if c == '\0' {
            break ;
        }
        string_push(&mut s, c);
        assert(s@ =~= de.name@.subrange(0, i + 1));
        i += 1;
    }
    s
}

/// Whether every character of `name` is alphanumeric.
pub fn every_char_alphanumeric(name: &str) -> (r: bool)
    ensures
        r == all_alphanumeric(name@),
{
    let n: usize = name.unicode_len();
    let mut i: usize = 0;
    while i < n
        invariant
            i <= n,
            n == name@.len(),
            forall|k: int| 0 <= k < i ==> is_alphanumeric(#[trigger] name@[k]),
        decreases n - i,
    {
        let c: char = name.get_char(i);
        if !char_is_alphanumeric(c) {
            return false;
        }
        i += 1;
    }
    true
}

/// Decides whether `name` is accepted, given whether every one of its
/// characters is alphanumeric.
pub fn name_accepted(name: &str, alphanumeric: bool) -> (r: bool)
    ensures
        r == name_rule(name@, alphanumeric),
{
    if name.is_empty() || name.as_bytes().len() > 14 {
        return false;
    }
    proof {
        lemma_encode_len(name@);
    }
    let n: usize = name.unicode_len();
    let mut i: usize = 0;
    while i < n
        invariant
            i <= n,
            n == name@.len(),
            forall|k: int| 0 <= k < i ==> #[trigger] name@[k] != '\0',
        decreases n - i,
    {
        if name.get_char(i) == '\0' {
            return false;
        }
        i += 1;
    }
    let dot: bool = n == 1 && name.get_char(0) == '.';
    let dotdot: bool = n == 2 && name.get_char(0) == '.' && name.get_char(1) == '.';
    proof {
        assert(dot == (name@ =~= seq!['.']));
        assert(dotdot == (name@ =~= seq!['.', '.']));
    }
    dot || dotdot || alphanumeric
}

/// The field of 14 characters that holds `name`.
pub fn name_to_field(name: &str) -> (r: [char; 14])
    requires
        name@.len() <= 14,
    ensures
        r@ == padded(name@),
{
    let n: usize = name.unicode_len();
    let mut field: [char; 14] = ['\0'; 14];
    let mut i: usize = 0;
    while i < n
        invariant
            i <= n <= 14,
            n == name@.len(),
            forall|k: int| 0 <= k < i ==> field@[k] == name@[k],
            forall|k: int| i <= k < 14 ==> field@[k] == '\0',
        decreases n - i,
    {
        field[i] = name.get_char(i);
        i += 1;
    }
    assert(field@ =~= padded(name@));
    field
}

/// Encodes a directory entry, if its name fits in the name field.
pub fn encode_direntry(de: &DirEntry) -> (r: Option<Vec<u8>>)
    ensures
        r is Some <==> encodable(de.name@),
        r is Some ==> r->Some_0@ == direntry_bytes(de@) && r->Some_0@.len() == 22,
{
    let s = get_name(de);
    let bytes = s.as_str().as_bytes();
    let n: usize = bytes.len();
    if n > 14 {
        return None;
    }
    let mut out: Vec<u8> = u64_to_le_bytes(de.inum);
    let ghost head = out@;
    let mut i: usize = 0;
    while i < 14
        invariant
            i <= 14,
            n <= 14,
            n == bytes@.len(),
            out@.len() == 8 + i,
            out@.subrange(0, 8) == head,
            forall|k: int| 0 <= k < i ==> out@[8 + k] == name_field(de.name@)[k],
            bytes@ == encode_utf8(name_prefix(de.name@)),
        decreases 14 - i,
    {
        let b: u8 = if i < n {
            bytes[i]
        } else {
            0u8
        };
        let ghost prev = out@;
        out.push(b);
        assert(out@.subrange(0, 8) =~= prev.subrange(0, 8));
        i += 1;
    }
    assert(out@ =~= direntry_bytes(de@));
    Some(out)
}

/// Decodes the directory entry held by the 22 bytes of `b` from `off` on.
pub fn decode_direntry(b: &Vec<u8>, off: usize) -> (r: Option<DirEntry>)
    requires
        off + 22 <= b@.len(),
    ensures
        match r {
            Some(de) => direntry_parse(b@.subrange(off as int, off + 22)) == Some(de@),
            None => direntry_parse(b@.subrange(off as int, off + 22)) is None,
        },
{
    let len: usize = b.len();
    let ghost s = b@.subrange(off as int, off + 22);
    proof {
        assert(s.subrange(0, 8) =~= b@.subrange(off as int, off + 8));
        assert(s.subrange(8, 22) =~= b@.subrange(off + 8, off + 22));
    }
    let inum: u64 = u64_from_le_bytes(slice_subrange(b.as_slice(), off, off + 8));
    let field: Vec<u8> = slice_to_vec(slice_subrange(b.as_slice(), off + 8, off + 22));
    let text = match string_from_utf8(field) {
        Some(t) => t,
        None => {
            return None;
        },
    };
    proof {
        lemma_decode_len(s.subrange(8, 22));
    }
    let name = name_to_field(text.as_str());
    Some(DirEntry { inum, name })
}

impl Block {
    /// Writes the encoding of `de` into the block from `offset` on.
    pub fn serialize_direntry(&mut self, de: &DirEntry, offset: u64) -> (r: Result<
        (),
        DeviceError,
    >)
        ensures
            final(self).block_no == old(self).block_no,
            match r {
                Ok(()) => {
                    &&& encodable(de.name@)
                    &&& offset + 22 <= old(self)@.len()
                    &&& final(self)@ == splice(old(self)@, offset as int, direntry_bytes(de@))
                },
                Err(DeviceError::Unencodable) => !encodable(de.name@) && final(self)@ == old(
                    self,
                )@,
                Err(DeviceError::OutOfBounds) => {
                    &&& encodable(de.name@)
                    &&& offset + 22 > old(self)@.len()
                    &&& final(self)@ == old(self)@
                },
                Err(_) => false,
            },
    {
        let bytes = match encode_direntry(de) {
            Some(b) => b,
            None => {
                return Err(DeviceError::Unencodable);
            },
        };
        match self.write_data(&bytes, offset) {
            Ok(()) => Ok(()),
            Err(e) => Err(e),
        }
    }

    /// Reads the directory entry encoded in the block from `offset` on.
    pub fn deserialize_direntry(&self, offset: u64) -> (r: Result<DirEntry, DeviceError>)
        ensures
            match r {
                Ok(de) => offset + 22 <= self@.len() && direntry_parse(
                    self@.subrange(offset as int, offset + 22),
                ) == Some(de@),
                Err(DeviceError::OutOfBounds) => offset + 22 > self@.len(),
                Err(DeviceError::Malformed) => offset + 22 <= self@.len() && direntry_parse(
                    self@.subrange(offset as int, offset + 22),
                ) is None,
                Err(_) => false,
            },
    {
        let n: usize = self.contents.len();
        if n < 22 || offset > (n - 22) as u64 {
            return Err(DeviceError::OutOfBounds);
        }
        match decode_direntry(&self.contents, offset as usize) {
            Some(de) => Ok(de),
            None => Err(DeviceError::Malformed),
        }
    }
}

} // verus!
