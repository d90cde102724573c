//! Where an uploaded video is read from and where its renditions are
//! written: joining paths and taking file names and stems as
//! `std::path::Path` does on Unix.

use vstd::prelude::*;

verus! {

/// Directory under which the uploaded objects are mounted.
pub const S3_MOUNT_POINT: &'static str = "/home/rushikesh/s3_drive";

/// Directory under which each video gets a directory of renditions.
pub const OUTPUT_DIR: &'static str = "/home/rushikesh/s3_drive/processed";

/// The path `base` joined with `path`, as `Path::join` does on Unix: an
/// absolute `path` replaces `base`; otherwise `path` is appended, after a
/// separator unless `base` is empty or already ends with one.
pub open spec fn path_join(base: Seq<char>, path: Seq<char>) -> Seq<char> {
    if path.len() > 0 && path[0] == '/' {
        path
    } else if base.len() > 0 && base.last() != '/' {
        base + seq!['/'] + path
    } else {
        base + path
    }
}

/// The index of the last occurrence of `c` in `s`, or -1 when there is none.
pub open spec fn last_index_of(s: Seq<char>, c: char) -> int
    decreases s.len(),
{
    if s.len() == 0 {
        -1
    } else if s.last() == c {
        s.len() - 1
    } else {
        last_index_of(s.drop_last(), c)
    }
}

/// The final component of `p`, as `Path::file_name` gives it: separators at
/// the end and `.` components are passed over; there is none when the last
/// component is `..`, the root, or when nothing remains.
pub open spec fn path_file_name(p: Seq<char>) -> Option<Seq<char>>
    decreases p.len(),
{
    if p.len() == 0 {
        None
    } else if p.last() == '/' {
        path_file_name(p.drop_last())
    } else {
        let segment = p.subrange(last_index_of(p, '/') + 1, p.len() as int);
        if segment == seq!['.'] {
            path_file_name(p.drop_last())
        } else if segment == seq!['.', '.'] {
            None
        } else {
            Some(segment)
        }
    }
}

/// The stem of a file name, as `Path::file_stem` takes it: the part before
/// the last `.`, or the whole name when it has no `.` or its only `.` is its
/// first character.
pub open spec fn stem_of(name: Seq<char>) -> Seq<char> {
    let dot = last_index_of(name, '.');
    if dot <= 0 {
        name
    } else {
        name.subrange(0, dot)
    }
}

/// The stem of the file name of `p`, as `Path::file_stem` gives it.
pub open spec fn path_file_stem(p: Seq<char>) -> Option<Seq<char>> {
    match path_file_name(p) {
        Some(name) => Some(stem_of(name)),
        None => None,
    }
}

/// Where `last_index_of` stands.
pub proof fn lemma_last_index_of(s: Seq<char>, c: char)
    ensures
        -1 <= last_index_of(s, c) < s.len(),
        last_index_of(s, c) >= 0 ==> s[last_index_of(s, c)] == c,
        forall|k: int| last_index_of(s, c) < k < s.len() ==> s[k] != c,
    decreases s.len(),
{
    if s.len() > 0 && s.last() != c {
        let t = s.drop_last();
        lemma_last_index_of(t, c);
        assert forall|k: int| last_index_of(s, c) < k < s.len() implies s[k] != c by {
            if k < t.len() {
                assert(t[k] == s[k]);
            }
        }
    }
}

/// When no `c` stands at or after `k`, and `k` is 0 or right after a `c`,
/// the last `c` is at `k - 1`.
pub proof fn lemma_last_index_at(s: Seq<char>, c: char, k: int)
    requires
        0 <= k <= s.len(),
        k == 0 || s[k - 1] == c,
        forall|j: int| k <= j < s.len() ==> s[j] != c,
    ensures
        last_index_of(s, c) == k - 1,
    decreases s.len(),
{
    if s.len() > k {
        assert(s.drop_last().len() == s.len() - 1);
        lemma_last_index_at(s.drop_last(), c, k);
    } else if k > 0 {
        assert(s.last() == c);
    }
}

/// `base` joined with `path`, as `Path::new(base).join(path)` gives it.
pub fn join_path(base: &str, path: &str) -> (joined: String)
    ensures
        joined@ == path_join(base@, path@),
{
    let path_len = path.unicode_len();
    if path_len > 0 && path.get_char(0) == '/' {
        String::from_str(path)
    } else {
        let base_len = base.unicode_len();
        let mut joined = String::from_str(base);
        if base_len > 0 && base.get_char(base_len - 1) != '/' {
            proof { reveal_strlit("/"); }
            joined.append("/");
        }
        joined.append(path);
        joined
    }
}

/// The final component of `path`, as `Path::file_name` gives it.
pub fn file_name(path: &str) -> (name: Option<&str>)
    ensures
        match path_file_name(path@) {
            Some(n) => name matches Some(s) && s@ == n,
            None => name is None,
        },
{
    let len = path.unicode_len();
    let mut end: usize = len;
    assert(path@.subrange(0, len as int) =~= path@);
    loop
        invariant
            len == path@.len(),
            end <= len,
            path_file_name(path@) == path_file_name(path@.subrange(0, end as int)),
        decreases end,
    {
        let ghost prefix = path@.subrange(0, end as int);
        if end == 0 {
            return None;
        }
        assert(prefix.drop_last() =~= path@.subrange(0, end - 1));
        if path.get_char(end - 1) == '/' {
            end = end - 1;
        } else {
            let mut start: usize = end - 1;
            while start > 0 && path.get_char(start - 1) != '/'
                invariant
                    len == path@.len(),
                    start < end <= len,
                    forall|j: int| start <= j < end ==> path@[j] != '/',
                decreases start,
            {
                start = start - 1;
            }
            proof {
                lemma_last_index_at(prefix, '/', start as int);
            }
            let segment = path.substring_char(start, end);
            assert(segment@ =~= prefix.subrange(last_index_of(prefix, '/') + 1, prefix.len() as int));
            if end - start == 1 && path.get_char(start) == '.' {
                assert(segment@ =~= seq!['.']);
                end = end - 1;
            } else if end - start == 2 && path.get_char(start) == '.' && path.get_char(start + 1)
                == '.' {
                assert(segment@ =~= seq!['.', '.']);
                return None;
            } else {
                assert(segment@ != seq!['.']) by {
                    if segment@ =~= seq!['.'] {
                        assert(segment@[0] == path@[start as int]);
                    }
                }
                assert(segment@ != seq!['.', '.']) by {
                    if segment@ =~= seq!['.', '.'] {
                        assert(segment@[0] == path@[start as int]);
                        assert(segment@[1] == path@[start + 1]);
                    }
                }
                return Some(segment);
            }
        }
    }
}

/// The stem of the file name `name`, as `Path::file_stem` takes it.
fn stem_of_name(name: &str) -> (stem: &str)
    ensures
        stem@ == stem_of(name@),
{
    let len = name.unicode_len();
    let mut idx: usize = len;
    while idx > 0 && name.get_char(idx - 1) != '.'
        invariant
            len == name@.len(),
            idx <= len,
            forall|j: int| idx <= j < len ==> name@[j] != '.',
        decreases idx,
    {
        idx = idx - 1;
    }
    proof {
        lemma_last_index_at(name@, '.', idx as int);
    }
    if idx <= 1 {
        name
    } else {
        name.substring_char(0, idx - 1)
    }
}

/// The stem of the file name of `path`, as `Path::file_stem` gives it.
pub fn file_stem(path: &str) -> (stem: Option<&str>)
    ensures
        match path_file_stem(path@) {
            Some(s) => stem matches Some(t) && t@ == s,
            None => stem is None,
        },
{
    match file_name(path) {
        Some(name) => Some(stem_of_name(name)),
        None => None,
    }
}

/// The path at which the uploaded object `key` is read: `key` joined onto
/// the mount point.
pub fn input_file_path(key: &str) -> (path: String)
    ensures
        path@ == path_join(S3_MOUNT_POINT@, key@),
{
    join_path(S3_MOUNT_POINT, key)
}

/// The paths of one transcoding job: the input file, the directory that
/// receives its renditions, and the input's file stem, which is also the id
/// of its video record.
#[derive(Debug)]
pub struct FilePaths {
    pub input_file: String,
    pub output_dir: String,
    pub file_name_without_ext: String,
}

/// Why the paths of a job cannot be formed.
#[derive(Debug, PartialEq, Eq)]
pub enum PathError {
    /// The input path has no file name, hence no stem.
    NoFileStem,
}

impl FilePaths {
    /// The paths of the job that reads `input_file`: its stem names the
    /// directory under the output directory that receives the renditions.
    /// Fails when the input path has no file name.
    pub fn for_input(input_file: &str) -> (paths: Result<FilePaths, PathError>)
        ensures
            match path_file_stem(input_file@) {
                Some(stem) => paths matches Ok(p) && p.input_file@ == input_file@
                    && p.file_name_without_ext@ == stem && p.output_dir@ == path_join(
                    OUTPUT_DIR@,
                    stem,
                ),
                None => paths == Err::<FilePaths, PathError>(PathError::NoFileStem),
            },
    {
        match file_stem(input_file) {
            Some(stem) => Ok(
                FilePaths {
                    input_file: String::from_str(input_file),
                    output_dir: join_path(OUTPUT_DIR, stem),
                    file_name_without_ext: String::from_str(stem),
                },
            ),
            None => Err(PathError::NoFileStem),
        }
    }
}

/// Whether `name` is a plain file name: not empty, without separator, and
/// neither `.` nor `..`.
pub open spec fn is_plain_name(name: Seq<char>) -> bool {
    &&& name.len() > 0
    &&& forall|i: int| 0 <= i < name.len() ==> name[i] != '/'
    &&& name != seq!['.']
    &&& name != seq!['.', '.']
}

/// A plain file name joined onto any directory is the file name of the
/// result, and its stem is the stem of the result.
pub proof fn lemma_joined_file_name(base: Seq<char>, name: Seq<char>)
    requires
        is_plain_name(name),
    ensures
        path_file_name(path_join(base, name)) == Some(name),
        path_file_stem(path_join(base, name)) == Some(stem_of(name)),
{
    let p = path_join(base, name);
    let k = p.len() - name.len();
    assert(p.subrange(k, p.len() as int) =~= name);
    assert forall|j: int| k <= j < p.len() implies p[j] != '/' by {
        assert(p[j] == name[j - k]);
    }
    if k > 0 {
        assert(p[k - 1] == '/');
    }
    lemma_last_index_at(p, '/', k);
    assert(p.last() == name.last());
}

/// The job of an uploaded object whose key is a plain file name reads the
/// key under the mount point, takes the key's stem as the video's id, and
/// writes its renditions to the directory of that name under the output
/// directory.
pub proof fn lemma_plain_key_paths(key: Seq<char>)
    requires
        is_plain_name(key),
    ensures
        path_join(S3_MOUNT_POINT@, key) == S3_MOUNT_POINT@ + seq!['/'] + key,
        path_file_stem(path_join(S3_MOUNT_POINT@, key)) == Some(stem_of(key)),
        path_join(OUTPUT_DIR@, stem_of(key)) == OUTPUT_DIR@ + seq!['/'] + stem_of(key),
{
    reveal_strlit("/home/rushikesh/s3_drive");
    reveal_strlit("/home/rushikesh/s3_drive/processed");
    lemma_joined_file_name(S3_MOUNT_POINT@, key);
    lemma_last_index_of(key, '.');
    let stem = stem_of(key);
    assert(stem[0] == key[0]);
    assert(key[0] != '/');
}

/// The stem of a name is the name without its extension: a non-empty base
/// followed by a dot and an extension that holds no dot has the base as its
/// stem, whatever the length of the extension; a name without dot, or whose
/// only dot is its first character, is its own stem.
pub proof fn lemma_stem_strips_extension(base: Seq<char>, ext: Seq<char>)
    requires
        base.len() > 0,
        forall|i: int| 0 <= i < ext.len() ==> ext[i] != '.',
    ensures
        stem_of(base + seq!['.'] + ext) == base,
        stem_of(base + seq!['.'] + ext) + seq!['.'] + ext == base + seq!['.'] + ext,
        stem_of(seq!['.'] + ext) == seq!['.'] + ext,
        (forall|i: int| 0 <= i < base.len() ==> base[i] != '.') ==> stem_of(base) == base,
{
    let n = base + seq!['.'] + ext;
    assert forall|j: int| base.len() + 1 <= j < n.len() implies n[j] != '.' by {
        assert(n[j] == ext[j - base.len() - 1]);
    }
    lemma_last_index_at(n, '.', base.len() as int + 1);
    assert(n.subrange(0, base.len() as int) =~= base);
    let m = seq!['.'] + ext;
    assert forall|j: int| 1 <= j < m.len() implies m[j] != '.' by {
        assert(m[j] == ext[j - 1]);
    }
    lemma_last_index_at(m, '.', 1);
    if forall|i: int| 0 <= i < base.len() ==> base[i] != '.' {
        lemma_last_index_at(base, '.', 0);
    }
}

/// The video id of the job for a key made of a base name and an extension
/// (other than `..`) is the base name, and its renditions go to the directory of that name
/// under the output directory.
pub proof fn lemma_video_id_of_key(base: Seq<char>, ext: Seq<char>)
    requires
        base.len() > 0,
        forall|i: int| 0 <= i < base.len() ==> base[i] != '/',
        forall|i: int| 0 <= i < ext.len() ==> ext[i] != '.' && ext[i] != '/',
        base + seq!['.'] + ext != seq!['.', '.'],
    ensures
        path_file_stem(path_join(S3_MOUNT_POINT@, base + seq!['.'] + ext)) == Some(base),
        path_join(OUTPUT_DIR@, base) == OUTPUT_DIR@ + seq!['/'] + base,
{
    let key = base + seq!['.'] + ext;
    assert forall|i: int| 0 <= i < key.len() implies key[i] != '/' by {
        if i < base.len() {
            assert(key[i] == base[i]);
        } else if i > base.len() {
            assert(key[i] == ext[i - base.len() - 1]);
        }
    }
    assert(key != seq!['.']) by {
        assert(key.len() >= 2);
    }
    lemma_stem_strips_extension(base, ext);
    lemma_plain_key_paths(key);
    reveal_strlit("/home/rushikesh/s3_drive/processed");
    assert(base[0] == key[0]);
}

/// A file name is always a plain name: not empty, without separator, and
/// neither `.` nor `..`.
pub proof fn lemma_file_name_is_plain(p: Seq<char>)
    ensures
        path_file_name(p) matches Some(n) ==> is_plain_name(n),
    decreases p.len(),
{
    if p.len() > 0 {
        if p.last() == '/' {
            lemma_file_name_is_plain(p.drop_last());
        } else {
            lemma_last_index_of(p, '/');
            let start = last_index_of(p, '/') + 1;
            let segment = p.subrange(start, p.len() as int);
            if segment == seq!['.'] {
                lemma_file_name_is_plain(p.drop_last());
            } else if segment != seq!['.', '.'] {
                assert forall|i: int| 0 <= i < segment.len() implies segment[i] != '/' by {
                    assert(segment[i] == p[start + i]);
                }
            }
        }
    }
}

/// Separators at the end of a path, and a `.` component at its end, leave
/// its file name as it is.
pub proof fn lemma_file_name_ignores_trailing(p: Seq<char>)
    ensures
        path_file_name(p + seq!['/']) == path_file_name(p),
        path_file_name(p + seq!['/', '.']) == path_file_name(p),
{
    assert((p + seq!['/']).drop_last() =~= p);
    let q = p + seq!['/', '.'];
    lemma_last_index_at(q, '/', p.len() as int + 1);
    assert(q.subrange(p.len() as int + 1, q.len() as int) =~= seq!['.']);
    assert(q.drop_last() =~= p + seq!['/']);
}

} // verus!
