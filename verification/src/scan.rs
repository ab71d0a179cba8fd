//! Picking the files of a directory that can be loaded.

use vstd::prelude::*;

verus! {

/// How a file is loaded: as one picture, or as the frames of an animation.
#[derive(Clone, Copy, Debug, PartialEq, Eq, Structural)]
pub enum CandidateKind {
    StaticImage,
    AnimatedImage,
}

/// A file that will be loaded.
#[derive(Debug)]
pub struct CandidatePath {
    pub path: String,
    pub kind: CandidateKind,
}

/// One entry of a directory: its path, and whether it is a regular file.
#[derive(Debug)]
pub struct DirEntry {
    pub path: String,
    pub is_file: bool,
}

/// Why a directory was not scanned.
#[derive(Clone, Copy, Debug, PartialEq, Eq, Structural)]
pub enum ScanError {
    /// The path does not exist or is no directory.
    InvalidPath,
}

/// Where `c` last occurs in `s`; -1 where it does not occur.
pub open spec fn last_index_of(s: Seq<char>, c: char) -> int
    decreases s.len(),
{
    if s.len() == 0 {
        -1
    } else if s.last() == c {
        s.len() - 1
    } else {
        last_index_of(s.drop_last(), c)
    }
}

/// `last_index_of` gives an occurrence of `c`, and `c` does not occur after
/// it.
pub proof fn lemma_last_index_of(s: Seq<char>, c: char)
    ensures
        -1 <= last_index_of(s, c) < s.len(),
        last_index_of(s, c) >= 0 ==> s[last_index_of(s, c)] == c,
        forall|j: int| last_index_of(s, c) < j < s.len() ==> s[j] != c,
    decreases s.len(),
{
    if s.len() > 0 && s.last() != c {
        lemma_last_index_of(s.drop_last(), c);
        assert forall|j: int| last_index_of(s, c) < j < s.len() implies s[j] != c by {
            if j < s.len() - 1 {
                assert(s.drop_last()[j] == s[j]);
            }
        }
    }
}

/// Where the name of the file starts in a path: behind the last `/`.
pub open spec fn spec_name_start(path: Seq<char>) -> int {
    last_index_of(path, '/') + 1
}

/// The name of the file that a path leads to: what stands behind the last
/// `/`, or the whole path where nothing stands there.
pub open spec fn spec_file_name(path: Seq<char>) -> Seq<char> {
    if spec_name_start(path) < path.len() {
        path.subrange(spec_name_start(path), path.len() as int)
    } else {
        path
    }
}

/// The extension of a path: what stands behind the last `.` of the file's
/// name. A name without a `.`, or with none but at its start, has no
/// extension.
pub open spec fn spec_extension(path: Seq<char>) -> Option<Seq<char>> {
    let dot = last_index_of(path, '.');
    if dot > spec_name_start(path) {
        Some(path.subrange(dot + 1, path.len() as int))
    } else {
        None
    }
}

/// The extensions of the files that are loaded.
#[derive(Clone, Copy, Debug, PartialEq, Eq, Structural)]
pub enum Extension {
    Jpg,
    Png,
    Gif,
}

/// The extension that a path ends in, where it is `jpg`, `png` or `gif`, in
/// lower case only.
pub open spec fn spec_supported_extension(path: Seq<char>) -> Option<Extension> {
    match spec_extension(path) {
        Some(ext) => if ext == seq!['j', 'p', 'g'] {
            Some(Extension::Jpg)
        } else if ext == seq!['p', 'n', 'g'] {
            Some(Extension::Png)
        } else if ext == seq!['g', 'i', 'f'] {
            Some(Extension::Gif)
        } else {
            None
        },
        None => None,
    }
}

/// The kind of file that a path leads to, by its extension: `jpg` and `png`
/// are still images, `gif` is an animation.
pub open spec fn spec_kind(path: Seq<char>) -> Option<CandidateKind> {
    match spec_supported_extension(path) {
        Some(Extension::Jpg) | Some(Extension::Png) => Some(CandidateKind::StaticImage),
        Some(Extension::Gif) => Some(CandidateKind::AnimatedImage),
        None => None,
    }
}

/// The candidate that an entry of a directory gives: a regular file with
/// one of the three extensions.
pub open spec fn spec_candidate(entry: DirEntry) -> Option<CandidatePath> {
    if entry.is_file {
        match spec_kind(entry.path@) {
            Some(kind) => Some(CandidatePath { path: entry.path, kind }),
            None => None,
        }
    } else {
        None
    }
}

/// The candidates of a listing, in the order of the listing.
pub open spec fn spec_candidates(entries: Seq<DirEntry>) -> Seq<CandidatePath> {
    entries.filter_map(|entry: DirEntry| spec_candidate(entry))
}

/// A candidate as the entry of a directory that it was found as.
pub open spec fn spec_as_entry(candidate: CandidatePath) -> DirEntry {
    DirEntry { path: candidate.path, is_file: true }
}

/// The candidates as entries.
pub open spec fn spec_as_entries(candidates: Seq<CandidatePath>) -> Seq<DirEntry> {
    candidates.map_values(|c: CandidatePath| spec_as_entry(c))
}

/// Scanning is idempotent: a scan of what a scan found finds the same, in
/// the same order.
pub proof fn lemma_scan_idempotent(entries: Seq<DirEntry>)
    ensures
        spec_candidates(spec_as_entries(spec_candidates(entries))) == spec_candidates(entries),
    decreases entries.len(),
{
    if entries.len() > 0 {
        let rest = entries.drop_last();
        let found_before = spec_candidates(rest);
        lemma_scan_idempotent(rest);
        match spec_candidate(entries.last()) {
            Some(candidate) => {
                let found = spec_candidates(entries);
                assert(found == found_before + seq![candidate]);
                let again = spec_as_entries(found);
                assert(again.drop_last() =~= spec_as_entries(found_before));
                assert(again.last() == spec_as_entry(candidate));
                assert(spec_candidate(spec_as_entry(candidate)) == Some(candidate));
                assert(spec_candidates(again) == spec_candidates(again.drop_last()) + seq![
                    candidate,
                ]);
            },
            None => {
                assert(spec_candidates(entries) == found_before);
            },
        }
    } else {
        assert(spec_candidates(entries) =~= Seq::<CandidatePath>::empty());
        assert(spec_as_entries(Seq::<CandidatePath>::empty()) =~= Seq::<DirEntry>::empty());
    }
}

/// A scan keeps the order of the listing and adds nothing: each candidate
/// comes from an entry that is a regular file with that path, and has the
/// kind of its extension.
pub proof fn lemma_candidates_come_from_entries(entries: Seq<DirEntry>, k: int)
    requires
        0 <= k < spec_candidates(entries).len(),
    ensures
        spec_kind(spec_candidates(entries)[k].path@) == Some(spec_candidates(entries)[k].kind),
        exists|i: int|
            0 <= i < entries.len() && (#[trigger] entries[i]).is_file && entries[i].path
                == spec_candidates(entries)[k].path,
    decreases entries.len(),
{
    if entries.len() > 0 {
        let rest = entries.drop_last();
        let found_before = spec_candidates(rest);
        match spec_candidate(entries.last()) {
            Some(candidate) => {
                assert(spec_candidates(entries) == found_before + seq![candidate]);
                if k < found_before.len() {
                    lemma_candidates_come_from_entries(rest, k);
                    let i = choose|i: int|
                        0 <= i < rest.len() && (#[trigger] rest[i]).is_file && rest[i].path
                            == found_before[k].path;
                    assert(entries[i] == rest[i]);
                } else {
                    assert(entries[entries.len() - 1] == entries.last());
                }
            },
            None => {
                assert(spec_candidates(entries) == found_before);
                lemma_candidates_come_from_entries(rest, k);
                let i = choose|i: int|
                    0 <= i < rest.len() && (#[trigger] rest[i]).is_file && rest[i].path
                        == found_before[k].path;
                assert(entries[i] == rest[i]);
            },
        }
    } else {
        assert(spec_candidates(entries) =~= Seq::<CandidatePath>::empty());
    }
}

/// The characters of a string, in a vector.
fn chars_of(s: &str) -> (v: Vec<char>)
    ensures
        v@ == s@,
{
    let mut v: Vec<char> = Vec::new();
    for c in it: s.chars()
        invariant
            v@ == it.seq().take(it.index() as int),
            it.seq() == s@,
    {
        v.push(c);
    }
    v
}

/// Where `c` last occurs in `chars`.
fn last_index(chars: &Vec<char>, c: char) -> (r: Option<usize>)
    ensures
        match r {
            Some(i) => i == last_index_of(chars@, c),
            None => last_index_of(chars@, c) == -1,
        },
{
    let mut found: Option<usize> = None;
    let mut i: usize = 0;
    while i < chars.len()
        invariant
            i <= chars.len(),
            match found {
                Some(at) => at == last_index_of(chars@.take(i as int), c),
                None => last_index_of(chars@.take(i as int), c) == -1,
            },
        decreases chars.len() - i,
    {
        proof {
            assert(chars@.take(i + 1).drop_last() == chars@.take(i as int));
        }
        if chars[i] == c {
            found = Some(i);
        }
        i += 1;
    }
    proof {
        assert(chars@.take(i as int) == chars@);
    }
    found
}

/// The kind of file that `path` leads to, by its extension; `None` for a
/// file that is not loaded.
pub fn classify(path: &str) -> (r: Option<CandidateKind>)
    ensures
        r == spec_kind(path@),
{
    match supported_extension(path) {
        Some(Extension::Jpg) | Some(Extension::Png) => Some(CandidateKind::StaticImage),
        Some(Extension::Gif) => Some(CandidateKind::AnimatedImage),
        None => None,
    }
}

/// The extension that `path` ends in, where it is one of the three that are
/// loaded.
pub fn supported_extension(path: &str) -> (r: Option<Extension>)
    ensures
        r == spec_supported_extension(path@),
{
    let chars = chars_of(path);
    let n = chars.len();
    proof {
        lemma_last_index_of(chars@, '.');
        lemma_last_index_of(chars@, '/');
    }
    let dot = match last_index(&chars, '.') {
        Some(dot) => dot,
        None => {
            return None;
        },
    };
    let name_start = match last_index(&chars, '/') {
        Some(slash) => slash + 1,
        None => 0,
    };
    if dot <= name_start {
        return None;
    }
    let ghost ext = chars@.subrange(dot + 1, n as int);
    if n - dot - 1 != 3 {
        proof {
            assert(ext.len() != 3);
            assert(seq!['j', 'p', 'g'].len() == 3);
            assert(seq!['p', 'n', 'g'].len() == 3);
            assert(seq!['g', 'i', 'f'].len() == 3);
        }
        return None;
    }
    let a = chars[dot + 1];
    let b = chars[dot + 2];
    let c = chars[dot + 3];
    proof {
        assert(ext.len() == 3);
        assert(ext[0] == a && ext[1] == b && ext[2] == c);
        assert(ext =~= seq![a, b, c]);
    }
    proof {
            assert(seq!['j', 'p', 'g'][0] == 'j' && seq!['j', 'p', 'g'][1] == 'p' && seq![
                'j',
                'p',
                'g',
            ][2] == 'g');
            assert(seq!['p', 'n', 'g'][0] == 'p' && seq!['p', 'n', 'g'][1] == 'n' && seq![
                'p',
                'n',
                'g',
            ][2] == 'g');
            assert(seq!['g', 'i', 'f'][0] == 'g' && seq!['g', 'i', 'f'][1] == 'i' && seq![
                'g',
                'i',
                'f',
            ][2] == 'f');
    }
    if a == 'j' && b == 'p' && c == 'g' {
        Some(Extension::Jpg)
    } else if a == 'p' && b == 'n' && c == 'g' {
        Some(Extension::Png)
    } else if a == 'g' && b == 'i' && c == 'f' {
        Some(Extension::Gif)
    } else {
        None
    }
}

/// The name of the file that `path` leads to, as it is shown under the
/// picture.
pub fn file_name(path: &str) -> (r: String)
    ensures
        r@ == spec_file_name(path@),
{
    let chars = chars_of(path);
    let n = chars.len();
    proof {
        lemma_last_index_of(chars@, '/');
    }
    let name_start = match last_index(&chars, '/') {
        Some(slash) => slash + 1,
        None => 0,
    };
    if name_start < n {
        path.substring_char(name_start, n).to_owned()
    } else {
        path.to_owned()
    }
}

/// The files of a listing that are loaded, in the order of the listing:
/// regular files whose extension is `jpg`, `png` or `gif`.
pub fn scan_entries(entries: &Vec<DirEntry>) -> (r: Vec<CandidatePath>)
    ensures
        r@ == spec_candidates(entries@),
{
    let mut found: Vec<CandidatePath> = Vec::new();
    let mut i: usize = 0;
    while i < entries.len()
        invariant
            i <= entries.len(),
            found@ == spec_candidates(entries@.take(i as int)),
        decreases entries.len() - i,
    {
        proof {
            assert(entries@.take(i + 1).drop_last() == entries@.take(i as int));
            assert(entries@.take(i + 1).last() == entries@[i as int]);
        }
        let entry = &entries[i];
        if entry.is_file {
            match classify(entry.path.as_str()) {
                Some(kind) => {
                    found.push(CandidatePath { path: entry.path.clone(), kind });
                    proof {
                        assert(found@ =~= spec_candidates(entries@.take(i as int)) + seq![
                            spec_candidate(entries@[i as int])->Some_0,
                        ]);
                    }
                },
                None => {},
            }
        }
        i += 1;
    }
    proof {
        assert(entries@.take(i as int) == entries@);
    }
    found
}

/// Scans a directory that was listed: `is_directory` says whether the path
/// leads to a directory at all, `entries` are its direct children.
pub fn scan_directory(is_directory: bool, entries: &Vec<DirEntry>) -> (r: Result<
    Vec<CandidatePath>,
    ScanError,
>)
    ensures
        !is_directory ==> r == Err::<Vec<CandidatePath>, ScanError>(ScanError::InvalidPath),
        is_directory ==> r is Ok && r->Ok_0@ == spec_candidates(entries@),
{
    if !is_directory {
        return Err(ScanError::InvalidPath);
    }
    Ok(scan_entries(entries))
}

} // verus!
