//! Inode blocks: the metadata hubs of files and directories.
//!
//! A directory or file inode carries a UTF-32 name container, timestamps,
//! size and block accounting, a vector of 16-byte content entries, and a
//! pointer to a linked continuation inode for content that overflows. The
//! linked variants carry only the continuation pointer and their own content
//! entries. Every variant pads to `block_size - 64` and closes with the
//! 64-byte signature.

use vstd::prelude::*;

verus! {

use crate::codec::{le32_at, le64_at, pad_zeros_to, parses_to, push_bytes, push_u32_le, push_u64_le, read_bytes64_at, read_u32_at, read_u64_at, zeros};
use crate::constants::Signature;
use crate::rdfs_errors::RDFSError;
use crate::utils::{char_from_u32, push_char};
use vstd::bytes::{spec_u32_to_le_bytes, spec_u64_to_le_bytes};
use vstd::slice::slice_subrange;
use vstd::string::StrSliceExecFns;

/// What a directory entry points at: a child directory or a regular file.
#[derive(Debug, Clone, Copy, PartialEq, Eq, Structural)]
pub enum InodeType {
    /// A directory inode.
    Dir,
    /// A regular file inode.
    File,
}

/// The on-disk tag of an inode type.
pub open spec fn spec_inode_type_word(t: InodeType) -> u64 {
    match t {
        InodeType::Dir => 0,
        InodeType::File => 1,
    }
}

/// The inode type decoded from an on-disk tag: zero is a directory, any
/// other value reads as a file.
pub open spec fn spec_inode_type_of(w: u64) -> InodeType {
    if w == 0 {
        InodeType::Dir
    } else {
        InodeType::File
    }
}

impl From<u64> for InodeType {
    fn from(value: u64) -> (r: Self) {
        if value == 0 {
            InodeType::Dir
        } else {
            InodeType::File
        }
    }
}

impl vstd::std_specs::convert::FromSpecImpl<u64> for InodeType {
    open spec fn obeys_from_spec() -> bool {
        true
    }

    open spec fn from_spec(v: u64) -> Self {
        spec_inode_type_of(v)
    }
}

impl InodeType {
    /// The on-disk tag of this inode type.
    pub fn word(&self) -> (r: u64)
        ensures
            r == spec_inode_type_word(*self),
    {
        match self {
            InodeType::Dir => 0,
            InodeType::File => 1,
        }
    }
}

/// One 16-byte entry of a directory inode: a block pointer and the type of
/// the inode it points at.
#[derive(Debug, Clone, Copy, PartialEq, Eq, Structural)]
pub struct DirContent {
    /// Pointer to the child inode's block.
    pub pointer: u64,
    /// Whether the child is a directory or a file.
    pub inode_type: InodeType,
}

/// The serialization of one directory entry.
pub open spec fn spec_dir_content_to_bytes(c: DirContent) -> Seq<u8> {
    spec_u64_to_le_bytes(c.pointer) + spec_u64_to_le_bytes(spec_inode_type_word(c.inode_type))
}

/// The directory entry encoded in a 16-byte run.
pub open spec fn spec_dir_content_from_bytes(data: Seq<u8>) -> DirContent {
    DirContent { pointer: le64_at(data, 0), inode_type: spec_inode_type_of(le64_at(data, 8)) }
}

impl DirContent {
    /// Serializes the entry as two little-endian u64 words.
    pub fn to_bytes(&self) -> (r: Vec<u8>)
        ensures
            r@ == spec_dir_content_to_bytes(*self),
            r@.len() == 16,
    {
        proof {
            vstd::bytes::lemma_auto_spec_u64_to_from_le_bytes();
        }
        let mut data: Vec<u8> = Vec::new();
        push_u64_le(&mut data, self.pointer);
        push_u64_le(&mut data, self.inode_type.word());
        data
    }

    /// Parses an entry from a 16-byte run.
    pub fn from_bytes(data: &[u8]) -> (r: Self)
        requires
            data@.len() == 16,
        ensures
            r == spec_dir_content_from_bytes(data@),
    {
        Self {
            pointer: read_u64_at(data, 0),
            inode_type: InodeType::from(read_u64_at(data, 8)),
        }
    }
}

/// One 16-byte entry of a file inode: a block pointer and the extent length
/// in blocks.
#[derive(Debug, Clone, Copy, PartialEq, Eq, Structural)]
pub struct FileContent {
    /// Pointer to the first block of the extent.
    pub pointer: u64,
    /// Number of consecutive blocks of the extent.
    pub blocks: u64,
}

/// The serialization of one file extent entry.
pub open spec fn spec_file_content_to_bytes(c: FileContent) -> Seq<u8> {
    spec_u64_to_le_bytes(c.pointer) + spec_u64_to_le_bytes(c.blocks)
}

/// The file extent entry encoded in a 16-byte run.
pub open spec fn spec_file_content_from_bytes(data: Seq<u8>) -> FileContent {
    FileContent { pointer: le64_at(data, 0), blocks: le64_at(data, 8) }
}

impl FileContent {
    /// Serializes the entry as two little-endian u64 words.
    pub fn to_bytes(&self) -> (r: Vec<u8>)
        ensures
            r@ == spec_file_content_to_bytes(*self),
            r@.len() == 16,
    {
        proof {
            vstd::bytes::lemma_auto_spec_u64_to_from_le_bytes();
        }
        let mut data: Vec<u8> = Vec::new();
        push_u64_le(&mut data, self.pointer);
        push_u64_le(&mut data, self.blocks);
        data
    }

    /// Parses an entry from a 16-byte run.
    pub fn from_bytes(data: &[u8]) -> (r: Self)
        requires
            data@.len() == 16,
        ensures
            r == spec_file_content_from_bytes(data@),
    {
        Self { pointer: read_u64_at(data, 0), blocks: read_u64_at(data, 8) }
    }
}

/// A name container in UTF-32: a 4-byte length (number of used code points,
/// at most 255) followed by 255 little-endian u32 code points, unused slots
/// zero; 1024 bytes in all. UTF-32 keeps names byte-exact across platforms
/// in every language.
#[derive(Debug, Clone, PartialEq, Eq)]
pub struct ContentName {
    /// Number of used code points.
    pub length: u32,
    /// The code points; slots beyond `length` are zero.
    pub name: [u32; 255],
}

/// The mathematical model of a name container.
#[verifier::ext_equal]
pub ghost struct ContentNameV {
    pub length: u32,
    pub name: Seq<u32>,
}

impl View for ContentName {
    type V = ContentNameV;

    open spec fn view(&self) -> ContentNameV {
        ContentNameV { length: self.length, name: self.name@ }
    }
}

/// The concatenation of little-endian encodings of the code points.
pub open spec fn spec_u32s_bytes(s: Seq<u32>) -> Seq<u8>
    decreases s.len(),
{
    if s.len() == 0 {
        Seq::empty()
    } else {
        spec_u32s_bytes(s.drop_last()) + spec_u32_to_le_bytes(s.last())
    }
}

/// The concatenation of `n` code points is `4 * n` bytes long.
pub proof fn lemma_u32s_bytes_len(s: Seq<u32>)
    ensures
        spec_u32s_bytes(s).len() == 4 * s.len(),
    decreases s.len(),
{
    vstd::bytes::lemma_auto_spec_u32_to_from_le_bytes();
    if s.len() > 0 {
        lemma_u32s_bytes_len(s.drop_last());
    }
}

/// Code point `i` sits at bytes `4 * i .. 4 * i + 4` of the concatenation.
pub proof fn lemma_u32s_bytes_at(s: Seq<u32>, i: int)
    requires
        0 <= i < s.len(),
    ensures
        spec_u32s_bytes(s).subrange(4 * i, 4 * i + 4) == spec_u32_to_le_bytes(s[i]),
    decreases s.len(),
{
    vstd::bytes::lemma_auto_spec_u32_to_from_le_bytes();
    lemma_u32s_bytes_len(s);
    if i == s.len() - 1 {
        lemma_u32s_bytes_len(s.drop_last());
        assert(spec_u32s_bytes(s).subrange(4 * i, 4 * i + 4) =~= spec_u32_to_le_bytes(s[i]));
    } else {
        lemma_u32s_bytes_at(s.drop_last(), i);
        lemma_u32s_bytes_len(s.drop_last());
        assert(spec_u32s_bytes(s).subrange(4 * i, 4 * i + 4) =~= spec_u32s_bytes(
            s.drop_last(),
        ).subrange(4 * i, 4 * i + 4));
    }
}

/// The 1024-byte serialization of a name container.
pub open spec fn spec_name_to_bytes(v: ContentNameV) -> Seq<u8> {
    spec_u32_to_le_bytes(v.length) + spec_u32s_bytes(v.name)
}

/// The name container encoded in the first 1024 bytes of a run.
pub open spec fn spec_name_from_bytes(data: Seq<u8>) -> ContentNameV {
    ContentNameV {
        length: le32_at(data, 0),
        name: Seq::new(255, |i: int| le32_at(data, 4 + 4 * i)),
    }
}

/// The name a string is stored as: its first 255 code points, the rest
/// truncated away, unused slots zero.
pub open spec fn spec_name_new(s: Seq<char>) -> ContentNameV {
    let k = if s.len() <= 255 {
        s.len() as int
    } else {
        255int
    };
    ContentNameV {
        length: k as u32,
        name: Seq::new(
            255,
            |i: int|
                if i < k {
                    s[i] as u32
                } else {
                    0u32
                },
        ),
    }
}

/// The characters a stored name renders as: one character per used code
/// point, with any value that is no Unicode scalar rendered as U+FFFD.
pub open spec fn spec_name_chars(v: ContentNameV) -> Seq<char> {
    Seq::new(
        v.length as nat,
        |i: int|
            if vstd::utf8::is_scalar(v.name[i]) {
                v.name[i] as char
            } else {
                '\u{FFFD}'
            },
    )
}

impl ContentName {
    /// Stores the first 255 code points of a string as a name.
    pub fn new(s: &str) -> (r: Self)
        ensures
            r@ == spec_name_new(s@),
            r@.length <= 255,
    {
        let n = s.unicode_len();
        let k = if n > 255 {
            255
        } else {
            n
        };
        let mut name: [u32; 255] = [0u32; 255];
        let mut i: usize = 0;
        while i < k
            invariant
                k <= n == s@.len(),
                k <= 255,
                i <= k,
                name@.len() == 255,
                forall|j: int| 0 <= j < i ==> name@[j] == s@[j] as u32,
                forall|j: int| i <= j < 255 ==> name@[j] == 0u32,
            decreases k - i,
        {
            name[i] = s.get_char(i) as u32;
            i = i + 1;
        }
        let r = Self { length: k as u32, name };
        proof {
            assert(r@.name =~= spec_name_new(s@).name);
        }
        r
    }

    /// Renders the stored name as a string, mapping any code point that is
    /// no Unicode scalar to the replacement character.
    pub fn as_string(&self) -> (r: String)
        requires
            self.length <= 255,
        ensures
            r@ == spec_name_chars(self@),
    {
        let mut r = String::new();
        let n = self.length as usize;
        let mut i: usize = 0;
        while i < n
            invariant
                n == self.length,
                n <= 255,
                i <= n,
                r@ == spec_name_chars(self@).subrange(0, i as int),
            decreases n - i,
        {
            let u = self.name[i];
            let copt = char_from_u32(u);
            let c = match copt {
                Some(c) => c,
                None => '\u{FFFD}',
            };
            proof {
                if copt is Some {
                    vstd::utf8::char_u32_cast(copt->0, u);
                }
                assert(c == spec_name_chars(self@)[i as int]);
            }
            push_char(&mut r, c);
            proof {
                assert(r@ =~= spec_name_chars(self@).subrange(0, i + 1));
            }
            i = i + 1;
        }
        assert(spec_name_chars(self@).subrange(0, n as int) =~= spec_name_chars(self@));
        r
    }

    /// Serializes the name container to its 1024-byte form.
    pub fn to_bytes(&self) -> (r: Vec<u8>)
        ensures
            r@ == spec_name_to_bytes(self@),
            r@.len() == 1024,
    {
        proof {
            vstd::bytes::lemma_auto_spec_u32_to_from_le_bytes();
        }
        let mut buf: Vec<u8> = Vec::new();
        push_u32_le(&mut buf, self.length);
        let ghost all = self.name@;
        let mut i: usize = 0;
        while i < 255
            invariant
                all == self.name@,
                all.len() == 255,
                i <= 255,
                buf@ == spec_u32_to_le_bytes(self.length) + spec_u32s_bytes(
                    all.subrange(0, i as int),
                ),
            decreases 255 - i,
        {
            push_u32_le(&mut buf, self.name[i]);
            proof {
                assert(all.subrange(0, i + 1).drop_last() =~= all.subrange(0, i as int));
                assert(buf@ =~= spec_u32_to_le_bytes(self.length) + spec_u32s_bytes(
                    all.subrange(0, i + 1),
                ));
            }
            i = i + 1;
        }
        proof {
            assert(all.subrange(0, 255) =~= all);
            lemma_u32s_bytes_len(all);
            vstd::bytes::lemma_auto_spec_u32_to_from_le_bytes();
        }
        buf
    }

    /// Parses a name container from the first 1024 bytes of a run.
    pub fn from_bytes(data: &[u8]) -> (r: Self)
        requires
            data@.len() >= 1024,
        ensures
            r@ == spec_name_from_bytes(data@),
    {
        let length = read_u32_at(data, 0);
        let mut name: [u32; 255] = [0u32; 255];
        let mut i: usize = 0;
        while i < 255
            invariant
                data@.len() >= 1024,
                i <= 255,
                name@.len() == 255,
                forall|j: int| 0 <= j < i ==> name@[j] == le32_at(data@, 4 + 4 * j),
            decreases 255 - i,
        {
            name[i] = read_u32_at(data, 4 + i * 4);
            i = i + 1;
        }
        let r = Self { length, name };
        proof {
            assert(r@.name =~= spec_name_from_bytes(data@).name);
            assert(r@ =~= spec_name_from_bytes(data@));
        }
        r
    }
}

/// Serializing a name container with its 255 slots and parsing the result
/// gives the container back.
pub proof fn lemma_name_bytes_round_trip(v: ContentNameV)
    requires
        v.name.len() == 255,
    ensures
        spec_name_from_bytes(spec_name_to_bytes(v)) == v,
{
    vstd::bytes::lemma_auto_spec_u32_to_from_le_bytes();
    let b = spec_name_to_bytes(v);
    lemma_u32s_bytes_len(v.name);
    assert(b.len() == 1024);
    assert(b.subrange(0, 4) =~= spec_u32_to_le_bytes(v.length));
    let parsed = spec_name_from_bytes(b);
    assert(parsed.length == v.length);
    assert forall|i: int| 0 <= i < 255 implies parsed.name[i] == v.name[i] by {
        lemma_u32s_bytes_at(v.name, i);
        assert(b.subrange(4 + 4 * i, 4 + 4 * i + 4) =~= spec_u32s_bytes(v.name).subrange(
            4 * i,
            4 * i + 4,
        ));
    }
    assert(parsed =~= v);
}

/// Two byte runs agreeing on their first 1024 bytes parse to the same name.
pub proof fn lemma_name_from_bytes_prefix(a: Seq<u8>, b: Seq<u8>)
    requires
        a.len() >= 1024,
        b.len() >= 1024,
        forall|j: int| 0 <= j < 1024 ==> a[j] == b[j],
    ensures
        spec_name_from_bytes(a) == spec_name_from_bytes(b),
{
    assert(a.subrange(0, 4) =~= b.subrange(0, 4));
    assert forall|i: int| 0 <= i < 255 implies #[trigger] le32_at(a, 4 + 4 * i) == le32_at(
        b,
        4 + 4 * i,
    ) by {
        assert(a.subrange(4 + 4 * i, 4 + 4 * i + 4) =~= b.subrange(4 + 4 * i, 4 + 4 * i + 4));
    }
    assert(spec_name_from_bytes(a) =~= spec_name_from_bytes(b));
}

/// The concatenation of serialized directory entries, in order.
pub open spec fn spec_dir_contents_bytes(s: Seq<DirContent>) -> Seq<u8>
    decreases s.len(),
{
    if s.len() == 0 {
        Seq::empty()
    } else {
        spec_dir_contents_bytes(s.drop_last()) + spec_dir_content_to_bytes(s.last())
    }
}

/// The concatenation of `n` directory entries is `16 * n` bytes long.
pub proof fn lemma_dir_contents_bytes_len(s: Seq<DirContent>)
    ensures
        spec_dir_contents_bytes(s).len() == 16 * s.len(),
    decreases s.len(),
{
    vstd::bytes::lemma_auto_spec_u64_to_from_le_bytes();
    if s.len() > 0 {
        lemma_dir_contents_bytes_len(s.drop_last());
    }
}

/// Entry `i` sits at bytes `16 * i .. 16 * i + 16` of the concatenation.
pub proof fn lemma_dir_contents_bytes_at(s: Seq<DirContent>, i: int)
    requires
        0 <= i < s.len(),
    ensures
        spec_dir_contents_bytes(s).subrange(16 * i, 16 * i + 16) == spec_dir_content_to_bytes(
            s[i],
        ),
    decreases s.len(),
{
    lemma_dir_contents_bytes_len(s);
    if i == s.len() - 1 {
        lemma_dir_contents_bytes_len(s.drop_last());
        assert(spec_dir_contents_bytes(s).subrange(16 * i, 16 * i + 16)
            =~= spec_dir_content_to_bytes(s[i]));
    } else {
        lemma_dir_contents_bytes_at(s.drop_last(), i);
        lemma_dir_contents_bytes_len(s.drop_last());
        assert(spec_dir_contents_bytes(s).subrange(16 * i, 16 * i + 16)
            =~= spec_dir_contents_bytes(s.drop_last()).subrange(16 * i, 16 * i + 16));
    }
}

/// The concatenation of serialized file extent entries, in order.
pub open spec fn spec_file_contents_bytes(s: Seq<FileContent>) -> Seq<u8>
    decreases s.len(),
{
    if s.len() == 0 {
        Seq::empty()
    } else {
        spec_file_contents_bytes(s.drop_last()) + spec_file_content_to_bytes(s.last())
    }
}

/// The concatenation of `n` file extent entries is `16 * n` bytes long.
pub proof fn lemma_file_contents_bytes_len(s: Seq<FileContent>)
    ensures
        spec_file_contents_bytes(s).len() == 16 * s.len(),
    decreases s.len(),
{
    vstd::bytes::lemma_auto_spec_u64_to_from_le_bytes();
    if s.len() > 0 {
        lemma_file_contents_bytes_len(s.drop_last());
    }
}

/// Entry `i` sits at bytes `16 * i .. 16 * i + 16` of the concatenation.
pub proof fn lemma_file_contents_bytes_at(s: Seq<FileContent>, i: int)
    requires
        0 <= i < s.len(),
    ensures
        spec_file_contents_bytes(s).subrange(16 * i, 16 * i + 16) == spec_file_content_to_bytes(
            s[i],
        ),
    decreases s.len(),
{
    lemma_file_contents_bytes_len(s);
    if i == s.len() - 1 {
        lemma_file_contents_bytes_len(s.drop_last());
        assert(spec_file_contents_bytes(s).subrange(16 * i, 16 * i + 16)
            =~= spec_file_content_to_bytes(s[i]));
    } else {
        lemma_file_contents_bytes_at(s.drop_last(), i);
        lemma_file_contents_bytes_len(s.drop_last());
        assert(spec_file_contents_bytes(s).subrange(16 * i, 16 * i + 16)
            =~= spec_file_contents_bytes(s.drop_last()).subrange(16 * i, 16 * i + 16));
    }
}

/// Parsing a serialized directory entry gives the entry back.
pub proof fn lemma_dir_content_round_trip(c: DirContent)
    ensures
        spec_dir_content_from_bytes(spec_dir_content_to_bytes(c)) == c,
{
    vstd::bytes::lemma_auto_spec_u64_to_from_le_bytes();
    let b = spec_dir_content_to_bytes(c);
    assert(b.subrange(0, 8) =~= spec_u64_to_le_bytes(c.pointer));
    assert(b.subrange(8, 16) =~= spec_u64_to_le_bytes(spec_inode_type_word(c.inode_type)));
}

/// Parsing a serialized file extent entry gives the entry back.
pub proof fn lemma_file_content_round_trip(c: FileContent)
    ensures
        spec_file_content_from_bytes(spec_file_content_to_bytes(c)) == c,
{
    vstd::bytes::lemma_auto_spec_u64_to_from_le_bytes();
    let b = spec_file_content_to_bytes(c);
    assert(b.subrange(0, 8) =~= spec_u64_to_le_bytes(c.pointer));
    assert(b.subrange(8, 16) =~= spec_u64_to_le_bytes(c.blocks));
}

/// Storing a string of at most 255 code points as a name, serializing the
/// container, parsing it back and rendering it gives the string back.
pub proof fn lemma_name_round_trip(s: Seq<char>)
    requires
        s.len() <= 255,
    ensures
        spec_name_chars(spec_name_from_bytes(spec_name_to_bytes(spec_name_new(s)))) == s,
{
    let v = spec_name_new(s);
    lemma_name_bytes_round_trip(v);
    let parsed = spec_name_from_bytes(spec_name_to_bytes(v));
    assert forall|i: int| 0 <= i < s.len() implies spec_name_chars(parsed)[i] == s[i] by {
        vstd::utf8::char_is_scalar(s[i]);
        vstd::utf8::char_u32_cast(s[i], s[i] as u32);
    }
    assert(spec_name_chars(parsed) =~= s);
}

/// A directory inode: name, timestamps, accounting, child entries, and the
/// pointer to a linked continuation inode (zero when none).
#[derive(Debug, Clone, PartialEq, Eq)]
pub struct InodeDir {
    /// Name of the directory.
    pub name: ContentName,
    /// Creation timestamp.
    pub created: u64,
    /// Last-modification timestamp.
    pub modify: u64,
    /// Size accounted to the directory.
    pub size: u64,
    /// Number of blocks accounted to the directory.
    pub total_blocks: u64,
    /// The child entries.
    pub content: Vec<DirContent>,
    /// Pointer to the linked continuation inode, zero when none.
    pub linked: u64,
    /// Signature over the serialized block without its trailing 64 bytes.
    pub signature: Signature,
}

/// The mathematical model of a directory inode.
#[verifier::ext_equal]
pub ghost struct InodeDirV {
    pub name: ContentNameV,
    pub created: u64,
    pub modify: u64,
    pub size: u64,
    pub total_blocks: u64,
    pub content: Seq<DirContent>,
    pub linked: u64,
    pub signature: Seq<u8>,
}

impl View for InodeDir {
    type V = InodeDirV;

    open spec fn view(&self) -> InodeDirV {
        InodeDirV {
            name: self.name@,
            created: self.created,
            modify: self.modify,
            size: self.size,
            total_blocks: self.total_blocks,
            content: self.content@,
            linked: self.linked,
            signature: self.signature@,
        }
    }
}

/// The serialization of a directory inode in a block of `block_size` bytes:
/// the 1072-byte header, the entries, zero padding, the signature.
pub open spec fn spec_inode_dir_to_bytes(v: InodeDirV, block_size: int) -> Seq<u8> {
    spec_name_to_bytes(v.name) + spec_u64_to_le_bytes(v.created) + spec_u64_to_le_bytes(v.modify)
        + spec_u64_to_le_bytes(v.size) + spec_u64_to_le_bytes(v.total_blocks)
        + spec_u64_to_le_bytes(v.linked) + spec_u64_to_le_bytes(v.content.len() as u64)
        + spec_dir_contents_bytes(v.content) + zeros(block_size - 1136 - 16 * v.content.len())
        + v.signature
}

/// Parses a directory inode: the buffer must be exactly `block_size` bytes
/// and declare a content count within the content capacity.
pub open spec fn spec_inode_dir_from_bytes(data: Seq<u8>, block_size: int) -> Result<
    InodeDirV,
    RDFSError,
> {
    if data.len() != block_size {
        Err(RDFSError::InvalidInodeBlockLength)
    } else if block_size < 1136 {
        Err(RDFSError::InvalidEncodedInodeBlockLength)
    } else if le64_at(data, 1064) > (block_size - 1136) / 16 {
        Err(RDFSError::InvalidEncodedInodeBlockLength)
    } else {
        Ok(
            InodeDirV {
                name: spec_name_from_bytes(data),
                created: le64_at(data, 1024),
                modify: le64_at(data, 1032),
                size: le64_at(data, 1040),
                total_blocks: le64_at(data, 1048),
                linked: le64_at(data, 1056),
                content: Seq::new(
                    le64_at(data, 1064) as nat,
                    |i: int| spec_dir_content_from_bytes(
                        data.subrange(1072 + 16 * i, 1072 + 16 * i + 16),
                    ),
                ),
                signature: data.subrange(block_size - 64, block_size),
            },
        )
    }
}

impl InodeDir {
    /// Builds a directory inode; creation and modification start at the same
    /// timestamp and the signature starts zeroed.
    pub fn new(
        name: ContentName,
        timestamp: u64,
        size: u64,
        total_blocks: u64,
        content: Vec<DirContent>,
        linked: u64,
    ) -> (r: Self)
        ensures
            r.name == name,
            r.created == timestamp,
            r.modify == timestamp,
            r.size == size,
            r.total_blocks == total_blocks,
            r.content == content,
            r.linked == linked,
            r.signature@ == zeros(64),
    {
        let r = Self {
            name,
            created: timestamp,
            modify: timestamp,
            size,
            total_blocks,
            content,
            linked,
            signature: [0u8; 64],
        };
        proof {
            assert(r.signature@ =~= zeros(64));
        }
        r
    }

    /// Replaces the trailing signature.
    pub fn add_signature(&mut self, signature: Signature)
        ensures
            *final(self) == (InodeDir { signature, ..*old(self) }),
    {
        self.signature = signature;
    }

    /// Serializes the inode into exactly `block_size` bytes. The entries
    /// must fit the content capacity.
    pub fn to_bytes(&self, block_size: usize) -> (r: Vec<u8>)
        requires
            block_size >= 1136,
            self.content@.len() <= (block_size - 1136) / 16,
        ensures
            r@ == spec_inode_dir_to_bytes(self@, block_size as int),
            r@.len() == block_size,
    {
        proof {
            vstd::bytes::lemma_auto_spec_u64_to_from_le_bytes();
            crate::arith::lemma_mul_le(
                self.content@.len() as int,
                16,
                (block_size - 1136) as int / 16,
                16,
            );
            crate::arith::lemma_div_mul_le((block_size - 1136) as int, 16);
        }
        let mut encoded: Vec<u8> = Vec::new();
        let mut name_bytes = self.name.to_bytes();
        encoded.append(&mut name_bytes);
        push_u64_le(&mut encoded, self.created);
        push_u64_le(&mut encoded, self.modify);
        push_u64_le(&mut encoded, self.size);
        push_u64_le(&mut encoded, self.total_blocks);
        push_u64_le(&mut encoded, self.linked);
        push_u64_le(&mut encoded, self.content.len() as u64);
        let ghost header = encoded@;
        let n = self.content.len();
        let ghost all = self.content@;
        let mut i: usize = 0;
        while i < n
            invariant
                n == all.len(),
                all == self.content@,
                i <= n,
                encoded@ == header + spec_dir_contents_bytes(all.subrange(0, i as int)),
            decreases n - i,
        {
            let mut cb = self.content[i].to_bytes();
            encoded.append(&mut cb);
            proof {
                assert(all.subrange(0, i + 1).drop_last() =~= all.subrange(0, i as int));
                assert(encoded@ =~= header + spec_dir_contents_bytes(all.subrange(0, i + 1)));
            }
            i = i + 1;
        }
        proof {
            assert(all.subrange(0, n as int) =~= all);
            lemma_dir_contents_bytes_len(all);
        }
        pad_zeros_to(&mut encoded, block_size - 64);
        push_bytes(&mut encoded, self.signature.as_slice());
        proof {
            assert(encoded@ =~= spec_inode_dir_to_bytes(self@, block_size as int));
        }
        encoded
    }

    /// Parses a directory inode of the given block size, rejecting a buffer
    /// of the wrong length and a content count beyond the capacity.
    pub fn from_bytes(data: &[u8], block_size: usize) -> (r: Result<Self, RDFSError>)
        ensures
            parses_to(r, spec_inode_dir_from_bytes(data@, block_size as int)),
    {
        if data.len() != block_size {
            return Err(RDFSError::InvalidInodeBlockLength);
        }
        if block_size < 1136 {
            return Err(RDFSError::InvalidEncodedInodeBlockLength);
        }
        let name = ContentName::from_bytes(data);
        let created = read_u64_at(data, 1024);
        let modify = read_u64_at(data, 1032);
        let size = read_u64_at(data, 1040);
        let total_blocks = read_u64_at(data, 1048);
        let linked = read_u64_at(data, 1056);
        let length = read_u64_at(data, 1064);
        if length > ((block_size - 1136) / 16) as u64 {
            return Err(RDFSError::InvalidEncodedInodeBlockLength);
        }
        proof {
            crate::arith::lemma_mul_le(length as int, 16, (block_size - 1136) as int / 16, 16);
            crate::arith::lemma_div_mul_le((block_size - 1136) as int, 16);
        }
        let n = length as usize;
        let mut content: Vec<DirContent> = Vec::new();
        let mut i: usize = 0;
        while i < n
            invariant
                data@.len() == block_size,
                16 * (n as int) <= block_size - 1136,
                i <= n,
                content@.len() == i,
                forall|k: int|
                    0 <= k < i ==> content@[k] == spec_dir_content_from_bytes(
                        data@.subrange(1072 + 16 * k, 1072 + 16 * k + 16),
                    ),
            decreases n - i,
        {
            let c = DirContent::from_bytes(slice_subrange(data, 1072 + i * 16, 1072 + i * 16 + 16));
            content.push(c);
            i = i + 1;
        }
        let signature = read_bytes64_at(data, block_size - 64);
        let r = Self { name, created, modify, size, total_blocks, content, linked, signature };
        proof {
            let s = spec_inode_dir_from_bytes(data@, block_size as int);
            assert(s is Ok);
            assert(r@.content =~= s->Ok_0.content);
            assert(r@ =~= s->Ok_0);
        }
        Ok(r)
    }
}

/// Serializing a directory inode and parsing the result gives the inode
/// back, for every model whose name container and signature have their
/// on-disk widths and whose entries fit the capacity.
pub proof fn lemma_inode_dir_round_trip(v: InodeDirV, block_size: int)
    requires
        v.name.name.len() == 255,
        v.signature.len() == 64,
        1136 <= block_size <= u64::MAX,
        v.content.len() <= (block_size - 1136) / 16,
    ensures
        spec_inode_dir_from_bytes(spec_inode_dir_to_bytes(v, block_size), block_size) == Ok::<
            InodeDirV,
            RDFSError,
        >(v),
{
    vstd::bytes::lemma_auto_spec_u64_to_from_le_bytes();
    vstd::bytes::lemma_auto_spec_u32_to_from_le_bytes();
    lemma_u32s_bytes_len(v.name.name);
    lemma_dir_contents_bytes_len(v.content);
    crate::arith::lemma_mul_le(v.content.len() as int, 16, (block_size - 1136) / 16, 16);
    crate::arith::lemma_div_mul_le(block_size - 1136, 16);
    crate::arith::lemma_mul_comm(v.content.len() as int, 16);
    let b = spec_inode_dir_to_bytes(v, block_size);
    let len = v.content.len() as int;
    assert(b.len() == block_size);
    let nb = spec_name_to_bytes(v.name);
    assert(nb.len() == 1024);
    lemma_name_bytes_round_trip(v.name);
    lemma_name_from_bytes_prefix(b, nb);
    assert(b.subrange(1024, 1032) =~= spec_u64_to_le_bytes(v.created));
    assert(b.subrange(1032, 1040) =~= spec_u64_to_le_bytes(v.modify));
    assert(b.subrange(1040, 1048) =~= spec_u64_to_le_bytes(v.size));
    assert(b.subrange(1048, 1056) =~= spec_u64_to_le_bytes(v.total_blocks));
    assert(b.subrange(1056, 1064) =~= spec_u64_to_le_bytes(v.linked));
    assert(b.subrange(1064, 1072) =~= spec_u64_to_le_bytes(v.content.len() as u64));
    assert(le64_at(b, 1064) == v.content.len());
    assert(b.subrange(block_size - 64, block_size) =~= v.signature);
    let parsed = spec_inode_dir_from_bytes(b, block_size);
    assert(parsed is Ok);
    assert forall|i: int| 0 <= i < len implies parsed->Ok_0.content[i] == v.content[i] by {
        lemma_dir_contents_bytes_at(v.content, i);
        assert(b.subrange(1072 + 16 * i, 1072 + 16 * i + 16) =~= spec_dir_contents_bytes(
            v.content,
        ).subrange(16 * i, 16 * i + 16));
        lemma_dir_content_round_trip(v.content[i]);
    }
    assert(parsed->Ok_0.content =~= v.content);
    assert(parsed->Ok_0 =~= v);
}

/// A file inode: name, timestamps, accounting, extent entries, and the
/// pointer to a linked continuation inode (zero when none).
#[derive(Debug, Clone, PartialEq, Eq)]
pub struct InodeFile {
    /// Name of the file.
    pub name: ContentName,
    /// Creation timestamp.
    pub created: u64,
    /// Last-modification timestamp.
    pub modify: u64,
    /// Size of the file in bytes.
    pub size: u64,
    /// Number of blocks holding the file's data.
    pub total_blocks: u64,
    /// The extent entries.
    pub content: Vec<FileContent>,
    /// Pointer to the linked continuation inode, zero when none.
    pub linked: u64,
    /// Signature over the serialized block without its trailing 64 bytes.
    pub signature: Signature,
}

/// The mathematical model of a file inode.
#[verifier::ext_equal]
pub ghost struct InodeFileV {
    pub name: ContentNameV,
    pub created: u64,
    pub modify: u64,
    pub size: u64,
    pub total_blocks: u64,
    pub content: Seq<FileContent>,
    pub linked: u64,
    pub signature: Seq<u8>,
}

impl View for InodeFile {
    type V = InodeFileV;

    open spec fn view(&self) -> InodeFileV {
        InodeFileV {
            name: self.name@,
            created: self.created,
            modify: self.modify,
            size: self.size,
            total_blocks: self.total_blocks,
            content: self.content@,
            linked: self.linked,
            signature: self.signature@,
        }
    }
}

/// The serialization of a file inode in a block of `block_size` bytes:
/// the 1072-byte header, the entries, zero padding, the signature.
pub open spec fn spec_inode_file_to_bytes(v: InodeFileV, block_size: int) -> Seq<u8> {
    spec_name_to_bytes(v.name) + spec_u64_to_le_bytes(v.created) + spec_u64_to_le_bytes(v.modify)
        + spec_u64_to_le_bytes(v.size) + spec_u64_to_le_bytes(v.total_blocks)
        + spec_u64_to_le_bytes(v.linked) + spec_u64_to_le_bytes(v.content.len() as u64)
        + spec_file_contents_bytes(v.content) + zeros(block_size - 1136 - 16 * v.content.len())
        + v.signature
}

/// Parses a file inode: the buffer must be exactly `block_size` bytes
/// and declare a content count within the content capacity.
pub open spec fn spec_inode_file_from_bytes(data: Seq<u8>, block_size: int) -> Result<
    InodeFileV,
    RDFSError,
> {
    if data.len() != block_size {
        Err(RDFSError::InvalidInodeBlockLength)
    } else if block_size < 1136 {
        Err(RDFSError::InvalidEncodedInodeBlockLength)
    } else if le64_at(data, 1064) > (block_size - 1136) / 16 {
        Err(RDFSError::InvalidEncodedInodeBlockLength)
    } else {
        Ok(
            InodeFileV {
                name: spec_name_from_bytes(data),
                created: le64_at(data, 1024),
                modify: le64_at(data, 1032),
                size: le64_at(data, 1040),
                total_blocks: le64_at(data, 1048),
                linked: le64_at(data, 1056),
                content: Seq::new(
                    le64_at(data, 1064) as nat,
                    |i: int| spec_file_content_from_bytes(
                        data.subrange(1072 + 16 * i, 1072 + 16 * i + 16),
                    ),
                ),
                signature: data.subrange(block_size - 64, block_size),
            },
        )
    }
}

impl InodeFile {
    /// Builds a file inode; creation and modification start at the same
    /// timestamp and the signature starts zeroed.
    pub fn new(
        name: ContentName,
        timestamp: u64,
        size: u64,
        total_blocks: u64,
        content: Vec<FileContent>,
        linked: u64,
    ) -> (r: Self)
        ensures
            r.name == name,
            r.created == timestamp,
            r.modify == timestamp,
            r.size == size,
            r.total_blocks == total_blocks,
            r.content == content,
            r.linked == linked,
            r.signature@ == zeros(64),
    {
        let r = Self {
            name,
            created: timestamp,
            modify: timestamp,
            size,
            total_blocks,
            content,
            linked,
            signature: [0u8; 64],
        };
        proof {
            assert(r.signature@ =~= zeros(64));
        }
        r
    }

    /// Replaces the trailing signature.
    pub fn add_signature(&mut self, signature: Signature)
        ensures
            *final(self) == (InodeFile { signature, ..*old(self) }),
    {
        self.signature = signature;
    }

    /// Serializes the inode into exactly `block_size` bytes. The entries
    /// must fit the content capacity.
    pub fn to_bytes(&self, block_size: usize) -> (r: Vec<u8>)
        requires
            block_size >= 1136,
            self.content@.len() <= (block_size - 1136) / 16,
        ensures
            r@ == spec_inode_file_to_bytes(self@, block_size as int),
            r@.len() == block_size,
    {
        proof {
            vstd::bytes::lemma_auto_spec_u64_to_from_le_bytes();
            crate::arith::lemma_mul_le(
                self.content@.len() as int,
                16,
                (block_size - 1136) as int / 16,
                16,
            );
            crate::arith::lemma_div_mul_le((block_size - 1136) as int, 16);
        }
        let mut encoded: Vec<u8> = Vec::new();
        let mut name_bytes = self.name.to_bytes();
        encoded.append(&mut name_bytes);
        push_u64_le(&mut encoded, self.created);
        push_u64_le(&mut encoded, self.modify);
        push_u64_le(&mut encoded, self.size);
        push_u64_le(&mut encoded, self.total_blocks);
        push_u64_le(&mut encoded, self.linked);
        push_u64_le(&mut encoded, self.content.len() as u64);
        let ghost header = encoded@;
        let n = self.content.len();
        let ghost all = self.content@;
        let mut i: usize = 0;
        while i < n
            invariant
                n == all.len(),
                all == self.content@,
                i <= n,
                encoded@ == header + spec_file_contents_bytes(all.subrange(0, i as int)),
            decreases n - i,
        {
            let mut cb = self.content[i].to_bytes();
            encoded.append(&mut cb);
            proof {
                assert(all.subrange(0, i + 1).drop_last() =~= all.subrange(0, i as int));
                assert(encoded@ =~= header + spec_file_contents_bytes(all.subrange(0, i + 1)));
            }
            i = i + 1;
        }
        proof {
            assert(all.subrange(0, n as int) =~= all);
            lemma_file_contents_bytes_len(all);
        }
        pad_zeros_to(&mut encoded, block_size - 64);
        push_bytes(&mut encoded, self.signature.as_slice());
        proof {
            assert(encoded@ =~= spec_inode_file_to_bytes(self@, block_size as int));
        }
        encoded
    }

    /// Parses a file inode of the given block size, rejecting a buffer
    /// of the wrong length and a content count beyond the capacity.
    pub fn from_bytes(data: &[u8], block_size: usize) -> (r: Result<Self, RDFSError>)
        ensures
            parses_to(r, spec_inode_file_from_bytes(data@, block_size as int)),
    {
        if data.len() != block_size {
            return Err(RDFSError::InvalidInodeBlockLength);
        }
        if block_size < 1136 {
            return Err(RDFSError::InvalidEncodedInodeBlockLength);
        }
        let name = ContentName::from_bytes(data);
        let created = read_u64_at(data, 1024);
        let modify = read_u64_at(data, 1032);
        let size = read_u64_at(data, 1040);
        let total_blocks = read_u64_at(data, 1048);
        let linked = read_u64_at(data, 1056);
        let length = read_u64_at(data, 1064);
        if length > ((block_size - 1136) / 16) as u64 {
            return Err(RDFSError::InvalidEncodedInodeBlockLength);
        }
        proof {
            crate::arith::lemma_mul_le(length as int, 16, (block_size - 1136) as int / 16, 16);
            crate::arith::lemma_div_mul_le((block_size - 1136) as int, 16);
        }
        let n = length as usize;
        let mut content: Vec<FileContent> = Vec::new();
        let mut i: usize = 0;
        while i < n
            invariant
                data@.len() == block_size,
                16 * (n as int) <= block_size - 1136,
                i <= n,
                content@.len() == i,
                forall|k: int|
                    0 <= k < i ==> content@[k] == spec_file_content_from_bytes(
                        data@.subrange(1072 + 16 * k, 1072 + 16 * k + 16),
                    ),
            decreases n - i,
        {
            let c = FileContent::from_bytes(slice_subrange(data, 1072 + i * 16, 1072 + i * 16 + 16));
            content.push(c);
            i = i + 1;
        }
        let signature = read_bytes64_at(data, block_size - 64);
        let r = Self { name, created, modify, size, total_blocks, content, linked, signature };
        proof {
            let s = spec_inode_file_from_bytes(data@, block_size as int);
            assert(s is Ok);
            assert(r@.content =~= s->Ok_0.content);
            assert(r@ =~= s->Ok_0);
        }
        Ok(r)
    }
}

/// Serializing a file inode and parsing the result gives the inode
/// back, for every model whose name container and signature have their
/// on-disk widths and whose entries fit the capacity.
pub proof fn lemma_inode_file_round_trip(v: InodeFileV, block_size: int)
    requires
        v.name.name.len() == 255,
        v.signature.len() == 64,
        1136 <= block_size <= u64::MAX,
        v.content.len() <= (block_size - 1136) / 16,
    ensures
        spec_inode_file_from_bytes(spec_inode_file_to_bytes(v, block_size), block_size) == Ok::<
            InodeFileV,
            RDFSError,
        >(v),
{
    vstd::bytes::lemma_auto_spec_u64_to_from_le_bytes();
    vstd::bytes::lemma_auto_spec_u32_to_from_le_bytes();
    lemma_u32s_bytes_len(v.name.name);
    lemma_file_contents_bytes_len(v.content);
    crate::arith::lemma_mul_le(v.content.len() as int, 16, (block_size - 1136) / 16, 16);
    crate::arith::lemma_div_mul_le(block_size - 1136, 16);
    crate::arith::lemma_mul_comm(v.content.len() as int, 16);
    let b = spec_inode_file_to_bytes(v, block_size);
    let len = v.content.len() as int;
    assert(b.len() == block_size);
    let nb = spec_name_to_bytes(v.name);
    assert(nb.len() == 1024);
    lemma_name_bytes_round_trip(v.name);
    lemma_name_from_bytes_prefix(b, nb);
    assert(b.subrange(1024, 1032) =~= spec_u64_to_le_bytes(v.created));
    assert(b.subrange(1032, 1040) =~= spec_u64_to_le_bytes(v.modify));
    assert(b.subrange(1040, 1048) =~= spec_u64_to_le_bytes(v.size));
    assert(b.subrange(1048, 1056) =~= spec_u64_to_le_bytes(v.total_blocks));
    assert(b.subrange(1056, 1064) =~= spec_u64_to_le_bytes(v.linked));
    assert(b.subrange(1064, 1072) =~= spec_u64_to_le_bytes(v.content.len() as u64));
    assert(le64_at(b, 1064) == v.content.len());
    assert(b.subrange(block_size - 64, block_size) =~= v.signature);
    let parsed = spec_inode_file_from_bytes(b, block_size);
    assert(parsed is Ok);
    assert forall|i: int| 0 <= i < len implies parsed->Ok_0.content[i] == v.content[i] by {
        lemma_file_contents_bytes_at(v.content, i);
        assert(b.subrange(1072 + 16 * i, 1072 + 16 * i + 16) =~= spec_file_contents_bytes(
            v.content,
        ).subrange(16 * i, 16 * i + 16));
        lemma_file_content_round_trip(v.content[i]);
    }
    assert(parsed->Ok_0.content =~= v.content);
    assert(parsed->Ok_0 =~= v);
}



/// A linked directory inode: the continuation block a directory chains to
/// when its content vector overflows. A chain terminates at `linked == 0`.
#[derive(Debug, Clone, PartialEq, Eq)]
pub struct InodeLinkedDir {
    /// The child entries carried by this continuation.
    pub content: Vec<DirContent>,
    /// Pointer to the next continuation inode, zero when none.
    pub linked: u64,
    /// Signature over the serialized block without its trailing 64 bytes.
    pub signature: Signature,
}

/// The mathematical model of a linked directory inode.
#[verifier::ext_equal]
pub ghost struct InodeLinkedDirV {
    pub content: Seq<DirContent>,
    pub linked: u64,
    pub signature: Seq<u8>,
}

impl View for InodeLinkedDir {
    type V = InodeLinkedDirV;

    open spec fn view(&self) -> InodeLinkedDirV {
        InodeLinkedDirV {
            content: self.content@,
            linked: self.linked,
            signature: self.signature@,
        }
    }
}

/// The serialization of a linked directory inode in a block of `block_size`
/// bytes: the 16-byte header, the entries, zero padding, the signature.
pub open spec fn spec_inode_linked_dir_to_bytes(v: InodeLinkedDirV, block_size: int) -> Seq<u8> {
    spec_u64_to_le_bytes(v.linked) + spec_u64_to_le_bytes(v.content.len() as u64)
        + spec_dir_contents_bytes(v.content) + zeros(block_size - 80 - 16 * v.content.len())
        + v.signature
}

/// Parses a linked directory inode: the buffer must be exactly `block_size`
/// bytes and declare a content count within the content capacity.
pub open spec fn spec_inode_linked_dir_from_bytes(data: Seq<u8>, block_size: int) -> Result<
    InodeLinkedDirV,
    RDFSError,
> {
    if data.len() != block_size {
        Err(RDFSError::InvalidInodeBlockLength)
    } else if block_size < 80 {
        Err(RDFSError::InvalidEncodedInodeBlockLength)
    } else if le64_at(data, 8) > (block_size - 80) / 16 {
        Err(RDFSError::InvalidEncodedInodeBlockLength)
    } else {
        Ok(
            InodeLinkedDirV {
                linked: le64_at(data, 0),
                content: Seq::new(
                    le64_at(data, 8) as nat,
                    |i: int| spec_dir_content_from_bytes(
                        data.subrange(16 + 16 * i, 16 + 16 * i + 16),
                    ),
                ),
                signature: data.subrange(block_size - 64, block_size),
            },
        )
    }
}

impl InodeLinkedDir {
    /// Builds a linked directory inode; the signature starts zeroed.
    pub fn new(content: Vec<DirContent>, linked: u64) -> (r: Self)
        ensures
            r.content == content,
            r.linked == linked,
            r.signature@ == zeros(64),
    {
        let r = Self { content, linked, signature: [0u8; 64] };
        proof {
            assert(r.signature@ =~= zeros(64));
        }
        r
    }

    /// Replaces the trailing signature.
    pub fn add_signature(&mut self, signature: Signature)
        ensures
            *final(self) == (InodeLinkedDir { signature, ..*old(self) }),
    {
        self.signature = signature;
    }

    /// Serializes the inode into exactly `block_size` bytes. The entries
    /// must fit the content capacity.
    pub fn to_bytes(&self, block_size: usize) -> (r: Vec<u8>)
        requires
            block_size >= 80,
            self.content@.len() <= (block_size - 80) / 16,
        ensures
            r@ == spec_inode_linked_dir_to_bytes(self@, block_size as int),
            r@.len() == block_size,
    {
        proof {
            vstd::bytes::lemma_auto_spec_u64_to_from_le_bytes();
            crate::arith::lemma_mul_le(
                self.content@.len() as int,
                16,
                (block_size - 80) as int / 16,
                16,
            );
            crate::arith::lemma_div_mul_le((block_size - 80) as int, 16);
        }
        let mut encoded: Vec<u8> = Vec::new();
        push_u64_le(&mut encoded, self.linked);
        push_u64_le(&mut encoded, self.content.len() as u64);
        let ghost header = encoded@;
        let n = self.content.len();
        let ghost all = self.content@;
        let mut i: usize = 0;
        while i < n
            invariant
                n == all.len(),
                all == self.content@,
                i <= n,
                encoded@ == header + spec_dir_contents_bytes(all.subrange(0, i as int)),
            decreases n - i,
        {
            let mut cb = self.content[i].to_bytes();
            encoded.append(&mut cb);
            proof {
                assert(all.subrange(0, i + 1).drop_last() =~= all.subrange(0, i as int));
                assert(encoded@ =~= header + spec_dir_contents_bytes(all.subrange(0, i + 1)));
            }
            i = i + 1;
        }
        proof {
            assert(all.subrange(0, n as int) =~= all);
            lemma_dir_contents_bytes_len(all);
        }
        pad_zeros_to(&mut encoded, block_size - 64);
        push_bytes(&mut encoded, self.signature.as_slice());
        proof {
            assert(encoded@ =~= spec_inode_linked_dir_to_bytes(self@, block_size as int));
        }
        encoded
    }

    /// Parses a linked directory inode of the given block size, rejecting a
    /// buffer of the wrong length and a content count beyond the capacity.
    pub fn from_bytes(data: &[u8], block_size: usize) -> (r: Result<Self, RDFSError>)
        ensures
            parses_to(r, spec_inode_linked_dir_from_bytes(data@, block_size as int)),
    {
        if data.len() != block_size {
            return Err(RDFSError::InvalidInodeBlockLength);
        }
        if block_size < 80 {
            return Err(RDFSError::InvalidEncodedInodeBlockLength);
        }
        let linked = read_u64_at(data, 0);
        let length = read_u64_at(data, 8);
        if length > ((block_size - 80) / 16) as u64 {
            return Err(RDFSError::InvalidEncodedInodeBlockLength);
        }
        proof {
            crate::arith::lemma_mul_le(length as int, 16, (block_size - 80) as int / 16, 16);
            crate::arith::lemma_div_mul_le((block_size - 80) as int, 16);
        }
        let n = length as usize;
        let mut content: Vec<DirContent> = Vec::new();
        let mut i: usize = 0;
        while i < n
            invariant
                data@.len() == block_size,
                16 * (n as int) <= block_size - 80,
                i <= n,
                content@.len() == i,
                forall|k: int|
                    0 <= k < i ==> content@[k] == spec_dir_content_from_bytes(
                        data@.subrange(16 + 16 * k, 16 + 16 * k + 16),
                    ),
            decreases n - i,
        {
            let c = DirContent::from_bytes(slice_subrange(data, 16 + i * 16, 16 + i * 16 + 16));
            content.push(c);
            i = i + 1;
        }
        let signature = read_bytes64_at(data, block_size - 64);
        let r = Self { content, linked, signature };
        proof {
            let s = spec_inode_linked_dir_from_bytes(data@, block_size as int);
            assert(s is Ok);
            assert(r@.content =~= s->Ok_0.content);
            assert(r@ =~= s->Ok_0);
        }
        Ok(r)
    }
}

/// Serializing a linked directory inode and parsing the result gives the
/// inode back, for every model whose signature has its on-disk width and
/// whose entries fit the capacity.
pub proof fn lemma_inode_linked_dir_round_trip(v: InodeLinkedDirV, block_size: int)
    requires
        v.signature.len() == 64,
        80 <= block_size <= u64::MAX,
        v.content.len() <= (block_size - 80) / 16,
    ensures
        spec_inode_linked_dir_from_bytes(spec_inode_linked_dir_to_bytes(v, block_size), block_size)
            == Ok::<InodeLinkedDirV, RDFSError>(v),
{
    vstd::bytes::lemma_auto_spec_u64_to_from_le_bytes();
    lemma_dir_contents_bytes_len(v.content);
    crate::arith::lemma_mul_le(v.content.len() as int, 16, (block_size - 80) / 16, 16);
    crate::arith::lemma_div_mul_le(block_size - 80, 16);
    crate::arith::lemma_mul_comm(v.content.len() as int, 16);
    let b = spec_inode_linked_dir_to_bytes(v, block_size);
    let len = v.content.len() as int;
    assert(b.len() == block_size);
    assert(b.subrange(0, 8) =~= spec_u64_to_le_bytes(v.linked));
    assert(b.subrange(8, 16) =~= spec_u64_to_le_bytes(v.content.len() as u64));
    assert(le64_at(b, 8) == v.content.len());
    assert(b.subrange(block_size - 64, block_size) =~= v.signature);
    let parsed = spec_inode_linked_dir_from_bytes(b, block_size);
    assert(parsed is Ok);
    assert forall|i: int| 0 <= i < len implies parsed->Ok_0.content[i] == v.content[i] by {
        lemma_dir_contents_bytes_at(v.content, i);
        assert(b.subrange(16 + 16 * i, 16 + 16 * i + 16) =~= spec_dir_contents_bytes(
            v.content,
        ).subrange(16 * i, 16 * i + 16));
        lemma_dir_content_round_trip(v.content[i]);
    }
    assert(parsed->Ok_0.content =~= v.content);
    assert(parsed->Ok_0 =~= v);
}


/// A linked file inode: the continuation block a file chains to when its
/// content vector overflows. A chain terminates at `linked == 0`.
#[derive(Debug, Clone, PartialEq, Eq)]
pub struct InodeLinkedFile {
    /// The extent entries carried by this continuation.
    pub content: Vec<FileContent>,
    /// Pointer to the next continuation inode, zero when none.
    pub linked: u64,
    /// Signature over the serialized block without its trailing 64 bytes.
    pub signature: Signature,
}

/// The mathematical model of a linked file inode.
#[verifier::ext_equal]
pub ghost struct InodeLinkedFileV {
    pub content: Seq<FileContent>,
    pub linked: u64,
    pub signature: Seq<u8>,
}

impl View for InodeLinkedFile {
    type V = InodeLinkedFileV;

    open spec fn view(&self) -> InodeLinkedFileV {
        InodeLinkedFileV {
            content: self.content@,
            linked: self.linked,
            signature: self.signature@,
        }
    }
}

/// The serialization of a linked file inode in a block of `block_size`
/// bytes: the 16-byte header, the entries, zero padding, the signature.
pub open spec fn spec_inode_linked_file_to_bytes(v: InodeLinkedFileV, block_size: int) -> Seq<u8> {
    spec_u64_to_le_bytes(v.linked) + spec_u64_to_le_bytes(v.content.len() as u64)
        + spec_file_contents_bytes(v.content) + zeros(block_size - 80 - 16 * v.content.len())
        + v.signature
}

/// Parses a linked file inode: the buffer must be exactly `block_size`
/// bytes and declare a content count within the content capacity.
pub open spec fn spec_inode_linked_file_from_bytes(data: Seq<u8>, block_size: int) -> Result<
    InodeLinkedFileV,
    RDFSError,
> {
    if data.len() != block_size {
        Err(RDFSError::InvalidInodeBlockLength)
    } else if block_size < 80 {
        Err(RDFSError::InvalidEncodedInodeBlockLength)
    } else if le64_at(data, 8) > (block_size - 80) / 16 {
        Err(RDFSError::InvalidEncodedInodeBlockLength)
    } else {
        Ok(
            InodeLinkedFileV {
                linked: le64_at(data, 0),
                content: Seq::new(
                    le64_at(data, 8) as nat,
                    |i: int| spec_file_content_from_bytes(
                        data.subrange(16 + 16 * i, 16 + 16 * i + 16),
                    ),
                ),
                signature: data.subrange(block_size - 64, block_size),
            },
        )
    }
}

impl InodeLinkedFile {
    /// Builds a linked file inode; the signature starts zeroed.
    pub fn new(content: Vec<FileContent>, linked: u64) -> (r: Self)
        ensures
            r.content == content,
            r.linked == linked,
            r.signature@ == zeros(64),
    {
        let r = Self { content, linked, signature: [0u8; 64] };
        proof {
            assert(r.signature@ =~= zeros(64));
        }
        r
    }

    /// Replaces the trailing signature.
    pub fn add_signature(&mut self, signature: Signature)
        ensures
            *final(self) == (InodeLinkedFile { signature, ..*old(self) }),
    {
        self.signature = signature;
    }

    /// Serializes the inode into exactly `block_size` bytes. The entries
    /// must fit the content capacity.
    pub fn to_bytes(&self, block_size: usize) -> (r: Vec<u8>)
        requires
            block_size >= 80,
            self.content@.len() <= (block_size - 80) / 16,
        ensures
            r@ == spec_inode_linked_file_to_bytes(self@, block_size as int),
            r@.len() == block_size,
    {
        proof {
            vstd::bytes::lemma_auto_spec_u64_to_from_le_bytes();
            crate::arith::lemma_mul_le(
                self.content@.len() as int,
                16,
                (block_size - 80) as int / 16,
                16,
            );
            crate::arith::lemma_div_mul_le((block_size - 80) as int, 16);
        }
        let mut encoded: Vec<u8> = Vec::new();
        push_u64_le(&mut encoded, self.linked);
        push_u64_le(&mut encoded, self.content.len() as u64);
        let ghost header = encoded@;
        let n = self.content.len();
        let ghost all = self.content@;
        let mut i: usize = 0;
        while i < n
            invariant
                n == all.len(),
                all == self.content@,
                i <= n,
                encoded@ == header + spec_file_contents_bytes(all.subrange(0, i as int)),
            decreases n - i,
        {
            let mut cb = self.content[i].to_bytes();
            encoded.append(&mut cb);
            proof {
                assert(all.subrange(0, i + 1).drop_last() =~= all.subrange(0, i as int));
                assert(encoded@ =~= header + spec_file_contents_bytes(all.subrange(0, i + 1)));
            }
            i = i + 1;
        }
        proof {
            assert(all.subrange(0, n as int) =~= all);
            lemma_file_contents_bytes_len(all);
        }
        pad_zeros_to(&mut encoded, block_size - 64);
        push_bytes(&mut encoded, self.signature.as_slice());
        proof {
            assert(encoded@ =~= spec_inode_linked_file_to_bytes(self@, block_size as int));
        }
        encoded
    }

    /// Parses a linked file inode of the given block size, rejecting a
    /// buffer of the wrong length and a content count beyond the capacity.
    pub fn from_bytes(data: &[u8], block_size: usize) -> (r: Result<Self, RDFSError>)
        ensures
            parses_to(r, spec_inode_linked_file_from_bytes(data@, block_size as int)),
    {
        if data.len() != block_size {
            return Err(RDFSError::InvalidInodeBlockLength);
        }
        if block_size < 80 {
            return Err(RDFSError::InvalidEncodedInodeBlockLength);
        }
        let linked = read_u64_at(data, 0);
        let length = read_u64_at(data, 8);
        if length > ((block_size - 80) / 16) as u64 {
            return Err(RDFSError::InvalidEncodedInodeBlockLength);
        }
        proof {
            crate::arith::lemma_mul_le(length as int, 16, (block_size - 80) as int / 16, 16);
            crate::arith::lemma_div_mul_le((block_size - 80) as int, 16);
        }
        let n = length as usize;
        let mut content: Vec<FileContent> = Vec::new();
        let mut i: usize = 0;
        while i < n
            invariant
                data@.len() == block_size,
                16 * (n as int) <= block_size - 80,
                i <= n,
                content@.len() == i,
                forall|k: int|
                    0 <= k < i ==> content@[k] == spec_file_content_from_bytes(
                        data@.subrange(16 + 16 * k, 16 + 16 * k + 16),
                    ),
            decreases n - i,
        {
            let c = FileContent::from_bytes(slice_subrange(data, 16 + i * 16, 16 + i * 16 + 16));
            content.push(c);
            i = i + 1;
        }
        let signature = read_bytes64_at(data, block_size - 64);
        let r = Self { content, linked, signature };
        proof {
            let s = spec_inode_linked_file_from_bytes(data@, block_size as int);
            assert(s is Ok);
            assert(r@.content =~= s->Ok_0.content);
            assert(r@ =~= s->Ok_0);
        }
        Ok(r)
    }
}

/// Serializing a linked file inode and parsing the result gives the
/// inode back, for every model whose signature has its on-disk width and
/// whose entries fit the capacity.
pub proof fn lemma_inode_linked_file_round_trip(v: InodeLinkedFileV, block_size: int)
    requires
        v.signature.len() == 64,
        80 <= block_size <= u64::MAX,
        v.content.len() <= (block_size - 80) / 16,
    ensures
        spec_inode_linked_file_from_bytes(spec_inode_linked_file_to_bytes(v, block_size), block_size)
            == Ok::<InodeLinkedFileV, RDFSError>(v),
{
    vstd::bytes::lemma_auto_spec_u64_to_from_le_bytes();
    lemma_file_contents_bytes_len(v.content);
    crate::arith::lemma_mul_le(v.content.len() as int, 16, (block_size - 80) / 16, 16);
    crate::arith::lemma_div_mul_le(block_size - 80, 16);
    crate::arith::lemma_mul_comm(v.content.len() as int, 16);
    let b = spec_inode_linked_file_to_bytes(v, block_size);
    let len = v.content.len() as int;
    assert(b.len() == block_size);
    assert(b.subrange(0, 8) =~= spec_u64_to_le_bytes(v.linked));
    assert(b.subrange(8, 16) =~= spec_u64_to_le_bytes(v.content.len() as u64));
    assert(le64_at(b, 8) == v.content.len());
    assert(b.subrange(block_size - 64, block_size) =~= v.signature);
    let parsed = spec_inode_linked_file_from_bytes(b, block_size);
    assert(parsed is Ok);
    assert forall|i: int| 0 <= i < len implies parsed->Ok_0.content[i] == v.content[i] by {
        lemma_file_contents_bytes_at(v.content, i);
        assert(b.subrange(16 + 16 * i, 16 + 16 * i + 16) =~= spec_file_contents_bytes(
            v.content,
        ).subrange(16 * i, 16 * i + 16));
        lemma_file_content_round_trip(v.content[i]);
    }
    assert(parsed->Ok_0.content =~= v.content);
    assert(parsed->Ok_0 =~= v);
}

} // verus!
