//! The notes: which files of the notes directory are notes, in what order
//! they are listed, and what each is called.

use vstd::prelude::*;

use crate::strings::{opt_chars, parse_unsigned, parse_unsigned_str};

verus! {

broadcast use vstd::seq_lib::group_to_multiset_ensures;

#[verifier::external_type_specification]
#[verifier::external_body]
pub struct ExPathBuf(std::path::PathBuf);

/// A note: its display name, its path and its text.
#[derive(Debug)]
pub struct Note {
    pub name: String,
    pub path: std::path::PathBuf,
    pub content: String,
}

/// An entry of the notes directory: its path, the bytes of its file name
/// as the system gives them, the file name as text (any invalid UTF-8
/// replaced), whether those bytes are valid UTF-8 (then the text is their
/// decoding), and whether the entry is a regular file.
#[derive(Debug)]
pub struct DirEntryInfo {
    pub path: std::path::PathBuf,
    pub name_bytes: Vec<u8>,
    pub file_name: String,
    pub name_is_utf8: bool,
    pub is_file: bool,
}

/// The index of the last `.` of `name`, or -1 when it holds none.
pub open spec fn last_dot(name: Seq<char>) -> int
    decreases name.len(),
{
    if name.len() == 0 {
        -1
    } else if name.last() == '.' {
        name.len() - 1
    } else {
        last_dot(name.drop_last())
    }
}

/// The index of the last `.` byte of `name`, or -1 when it holds none.
pub open spec fn last_dot_byte(name: Seq<u8>) -> int
    decreases name.len(),
{
    if name.len() == 0 {
        -1
    } else if name.last() == 0x2eu8 {
        name.len() - 1
    } else {
        last_dot_byte(name.drop_last())
    }
}

/// The extension of a file name given by its bytes, as `Path::extension`
/// has it: what follows the last `.`, unless there is no `.` or the only
/// one starts the name.
pub open spec fn extension(name: Seq<u8>) -> Option<Seq<u8>> {
    let i = last_dot_byte(name);
    if i > 0 {
        Some(name.subrange(i + 1, name.len() as int))
    } else {
        None
    }
}

/// The bytes of `md`.
pub open spec fn md_bytes() -> Seq<u8> {
    seq![0x6du8, 0x64u8]
}

/// The bytes of `txt`.
pub open spec fn txt_bytes() -> Seq<u8> {
    seq![0x74u8, 0x78u8, 0x74u8]
}

/// The stem of a file name, as `Path::file_stem` has it: what precedes the
/// last `.`, or all the name when there is no `.` or the only one starts it.
pub open spec fn file_stem(name: Seq<char>) -> Seq<char> {
    let i = last_dot(name);
    if i > 0 {
        name.subrange(0, i)
    } else {
        name
    }
}

/// Whether a directory entry is a note: a regular file whose extension is
/// `md` or `txt`.
pub open spec fn is_note_file(e: DirEntryInfo) -> bool {
    &&& e.is_file
    &&& (extension(e.name_bytes@) == Some(md_bytes()) || extension(e.name_bytes@) == Some(
        txt_bytes(),
    ))
}

/// The name a note is listed under: the stem of its file name, or
/// `untitled` when the file name is not valid UTF-8.
pub open spec fn note_name(e: DirEntryInfo) -> Seq<char> {
    if e.name_is_utf8 {
        file_stem(e.file_name@)
    } else {
        seq!['u', 'n', 't', 'i', 't', 'l', 'e', 'd']
    }
}

/// Whether `a` comes before `b` or equals it, byte by byte (the order of
/// `Path` on the file names of one directory).
pub open spec fn bytes_le(a: Seq<u8>, b: Seq<u8>) -> bool
    decreases a.len(),
{
    if a.len() == 0 {
        true
    } else if b.len() == 0 {
        false
    } else if a[0] != b[0] {
        a[0] < b[0]
    } else {
        bytes_le(a.drop_first(), b.drop_first())
    }
}

/// Whether the entries are in the order of the bytes of their file names.
pub open spec fn sorted_by_name(s: Seq<DirEntryInfo>) -> bool {
    forall|i: int, j: int|
        0 <= i < j < s.len() ==> bytes_le(#[trigger] s[i].name_bytes@, #[trigger] s[j].name_bytes@)
}

/// Any two names are ordered one way or the other.
pub proof fn lemma_bytes_le_total(a: Seq<u8>, b: Seq<u8>)
    ensures
        bytes_le(a, b) || bytes_le(b, a),
    decreases a.len(),
{
    if a.len() > 0 && b.len() > 0 && a[0] == b[0] {
        lemma_bytes_le_total(a.drop_first(), b.drop_first());
    }
}

/// The order of names is transitive.
pub proof fn lemma_bytes_le_transitive(a: Seq<u8>, b: Seq<u8>, c: Seq<u8>)
    requires
        bytes_le(a, b),
        bytes_le(b, c),
    ensures
        bytes_le(a, c),
    decreases a.len(),
{
    if a.len() > 0 && b.len() > 0 && c.len() > 0 && a[0] == b[0] && b[0] == c[0] {
        lemma_bytes_le_transitive(a.drop_first(), b.drop_first(), c.drop_first());
    }
}

/// Whether `a` comes before `b` or equals it, byte by byte.
fn name_le(a: &Vec<u8>, b: &Vec<u8>) -> (r: bool)
    ensures
        r == bytes_le(a@, b@),
{
    let mut i: usize = 0;
    assert(a@.skip(0) =~= a@);
    assert(b@.skip(0) =~= b@);
    while i < a.len()
        invariant
            0 <= i <= a@.len(),
            i <= b@.len(),
            bytes_le(a@, b@) == bytes_le(a@.skip(i as int), b@.skip(i as int)),
        decreases a@.len() - i,
    {
        assert(a@.skip(i as int).drop_first() =~= a@.skip(i + 1));
        if i >= b.len() {
            return false;
        }
        assert(b@.skip(i as int).drop_first() =~= b@.skip(i + 1));
        if a[i] != b[i] {
            return a[i] < b[i];
        }
        i = i + 1;
    }
    true
}

/// The last `.` lies inside the name.
proof fn lemma_last_dot_bounds(name: Seq<char>)
    ensures
        -1 <= last_dot(name) < name.len(),
        last_dot(name) >= 0 ==> name[last_dot(name)] == '.',
    decreases name.len(),
{
    if name.len() > 0 && name.last() != '.' {
        lemma_last_dot_bounds(name.drop_last());
    }
}

/// The width of the notes panel that `SN_LEFT_WIDTH` asks for: its value
/// read as a number of 0 to 65535, or 32 when it is unset or no such number.
pub open spec fn panel_width(value: Option<Seq<char>>) -> int {
    match value {
        Some(v) => match parse_unsigned(v, 0xffff) {
            Some(n) => n as int,
            None => 32,
        },
        None => 32,
    }
}

/// The width of the notes panel, given the value of `SN_LEFT_WIDTH` if it
/// is set.
pub fn left_panel_width(value: Option<String>) -> (r: u16)
    ensures
        r as int == panel_width(opt_chars(value)),
{
    match value {
        Some(v) => match parse_unsigned_str(v.as_str(), 0xffff) {
            Some(n) => n,
            None => 32,
        },
        None => 32,
    }
}

/// The index of the last `.` of `s`, if it holds one.
fn last_dot_index(s: &str) -> (r: Option<usize>)
    ensures
        match r {
            Some(i) => i as int == last_dot(s@),
            None => last_dot(s@) == -1,
        },
{
    let n = s.unicode_len();
    let ghost all = s@;
    let mut found: Option<usize> = None;
    let mut i: usize = 0;
    let mut it = s.chars();
    assert(all.take(0) =~= Seq::<char>::empty());
    for c in iter: it
        invariant
            iter.seq() == all,
            n == all.len(),
            i as int == iter.index(),
            match found {
                Some(f) => f as int == last_dot(all.take(iter.index() as int)),
                None => last_dot(all.take(iter.index() as int)) == -1,
            },
    {
        let ghost k = iter.index() as int;
        assert(all.take(k + 1).drop_last() =~= all.take(k));
        assert(all.take(k + 1).last() == c);
        if c == '.' {
            found = Some(i);
        }
        i = i + 1;
    }
    assert(all.take(all.len() as int) =~= all);
    found
}

/// Whether the extension of the file name with bytes `name` is `md` or
/// `txt`.
fn is_note_extension(name: &Vec<u8>) -> (r: bool)
    ensures
        r == (extension(name@) == Some(md_bytes()) || extension(name@) == Some(txt_bytes())),
{
    let n = name.len();
    let mut dot: usize = 0;
    let mut found = false;
    let mut i: usize = 0;
    assert(name@.take(0) =~= Seq::<u8>::empty());
    while i < n
        invariant
            n == name@.len(),
            0 <= i <= n,
            found ==> dot < i && dot as int == last_dot_byte(name@.take(i as int)),
            !found ==> last_dot_byte(name@.take(i as int)) == -1,
        decreases n - i,
    {
        assert(name@.take(i + 1).drop_last() =~= name@.take(i as int));
        if name[i] == 0x2e {
            dot = i;
            found = true;
        }
        i = i + 1;
    }
    assert(name@.take(n as int) =~= name@);
    if !found || dot == 0 {
        return false;
    }
    let len = n - dot - 1;
    proof {
        let ext = name@.subrange(dot + 1, n as int);
        assert(ext.len() == len);
        if len == 2 {
            assert(ext =~= seq![name@[dot + 1], name@[dot + 2]]);
        }
        if len == 3 {
            assert(ext =~= seq![name@[dot + 1], name@[dot + 2], name@[dot + 3]]);
        }
    }
    if len == 2 {
        name[dot + 1] == 0x6d && name[dot + 2] == 0x64
    } else if len == 3 {
        name[dot + 1] == 0x74 && name[dot + 2] == 0x78 && name[dot + 3] == 0x74
    } else {
        false
    }
}

/// The name a note is listed under: the stem of its file name, or
/// `untitled` when the file name is not valid UTF-8.
fn note_name_of(e: &DirEntryInfo) -> (r: String)
    ensures
        r@ == note_name(*e),
{
    if !e.name_is_utf8 {
        proof {
            reveal_strlit("untitled");
        }
        let r = String::from_str("untitled");
        assert(r@ =~= seq!['u', 'n', 't', 'i', 't', 'l', 'e', 'd']);
        return r;
    }
    let name = e.file_name.as_str();
    proof {
        lemma_last_dot_bounds(name@);
    }
    match last_dot_index(name) {
        Some(i) => {
            if i > 0 {
                String::from_str(name.substring_char(0, i))
            } else {
                String::from_str(name)
            }
        },
        None => String::from_str(name),
    }
}

/// The note of a directory entry, given the text read from it.
pub fn note_from_file(entry: DirEntryInfo, content: String) -> (n: Note)
    ensures
        n.name@ == note_name(entry),
        n.path == entry.path,
        n.content == content,
{
    let name = note_name_of(&entry);
    Note { name, path: entry.path, content }
}

/// The notes among the entries of the notes directory, in the order of
/// the bytes of their file names: the regular files whose extension is
/// `md` or `txt`.
pub fn note_files(entries: Vec<DirEntryInfo>) -> (r: Vec<DirEntryInfo>)
    ensures
        r@.to_multiset() == entries@.filter(|e: DirEntryInfo| is_note_file(e)).to_multiset(),
        sorted_by_name(r@),
{
    let ghost pred = |e: DirEntryInfo| is_note_file(e);
    let ghost all = entries@;
    let mut sorted: Vec<DirEntryInfo> = Vec::new();
    proof {
        assert(all.take(0) =~= Seq::<DirEntryInfo>::empty());
        assert(all.take(0).filter(pred) =~= Seq::<DirEntryInfo>::empty());
        assert(sorted@.to_multiset() =~= Seq::<DirEntryInfo>::empty().to_multiset());
    }
    for entry in it: entries
        invariant
            it.seq() == all,
            pred == (|e: DirEntryInfo| is_note_file(e)),
            sorted@.to_multiset() == all.take(it.index() as int).filter(pred).to_multiset(),
            sorted_by_name(sorted@),
    {
        let ghost k = it.index() as int;
        let ghost before = sorted@;
        proof {
            assert(all.take(k + 1) =~= all.take(k).push(entry));
            all.take(k).lemma_filter_push(entry, pred);
        }
        if entry.is_file && is_note_extension(&entry.name_bytes) {
            let mut pos: usize = 0;
            while pos < sorted.len() && name_le(&sorted[pos].name_bytes, &entry.name_bytes)
                invariant
                    sorted@ == before,
                    0 <= pos <= sorted@.len(),
                    forall|j: int| 0 <= j < pos ==> bytes_le(#[trigger] sorted@[j].name_bytes@, entry.name_bytes@),
                decreases sorted@.len() - pos,
            {
                pos = pos + 1;
            }
            proof {
                if pos < before.len() {
                    lemma_bytes_le_total(before[pos as int].name_bytes@, entry.name_bytes@);
                    assert forall|j: int| pos <= j < before.len() implies bytes_le(
                        entry.name_bytes@,
                        #[trigger] before[j].name_bytes@,
                    ) by {
                        if j > pos {
                            lemma_bytes_le_transitive(
                                entry.name_bytes@,
                                before[pos as int].name_bytes@,
                                before[j].name_bytes@,
                            );
                        }
                    }
                }
            }
            sorted.insert(pos, entry);
            proof {
                let ins = sorted@;
                assert(ins =~= before.insert(pos as int, entry));
                assert(ins.remove(pos as int) =~= before);
                assert(ins.contains(entry)) by {
                    assert(ins[pos as int] == entry);
                }
                assert(ins.to_multiset() =~= before.to_multiset().insert(entry)) by {
                    assert(ins.remove(pos as int).to_multiset() =~= ins.to_multiset().remove(entry));
                    assert(ins.to_multiset().count(entry) > 0);
                }
                assert forall|i: int, j: int| 0 <= i < j < ins.len() implies bytes_le(
                    #[trigger] ins[i].name_bytes@,
                    #[trigger] ins[j].name_bytes@,
                ) by {
                    if j < pos {
                        assert(ins[i] == before[i] && ins[j] == before[j]);
                    } else if j == pos {
                        assert(ins[i] == before[i]);
                    } else if i == pos {
                        assert(ins[j] == before[j - 1]);
                    } else if i < pos {
                        assert(ins[i] == before[i] && ins[j] == before[j - 1]);
                    } else {
                        assert(ins[i] == before[i - 1] && ins[j] == before[j - 1]);
                    }
                }
            }
        }
    }
    proof {
        assert(all.take(all.len() as int) =~= all);
    }
    sorted
}

} // verus!
