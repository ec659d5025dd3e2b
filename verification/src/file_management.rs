//! File management: recent files, processing results, export rendering,
//! drag and drop, validation, comparison, backups and templates.
//!
//! Paths are held as text. Two paths name the same file here when their
//! components agree the way `std::path::Path` compares them on Unix: the
//! root, a leading `.`, and the names between separators, ignoring repeated
//! separators, interior `.` components and a trailing separator.

use vstd::prelude::*;
use crate::text::{
    decimal, first_key, is_white_space, joined_lines, lemma_first_key, lemma_first_key_unique, lines_of,
    push_char, push_str, replaced, trim, views,
};

verus! {

// ============================================================================
// Paths
// ============================================================================

/// The pieces of `s` between `sep` characters (one more than there are
/// separators).
pub open spec fn split_pieces(s: Seq<char>, sep: char) -> Seq<Seq<char>>
    decreases s.len(),
{
    if s.len() == 0 {
        seq![Seq::<char>::empty()]
    } else {
        let init = split_pieces(s.drop_last(), sep);
        if s.last() == sep {
            init.push(Seq::<char>::empty())
        } else {
            init.update(init.len() - 1, init.last().push(s.last()))
        }
    }
}

/// There is always at least one piece.
pub proof fn lemma_split_pieces_nonempty(s: Seq<char>, sep: char)
    ensures
        split_pieces(s, sep).len() >= 1,
    decreases s.len(),
{
    if s.len() > 0 {
        lemma_split_pieces_nonempty(s.drop_last(), sep);
    }
}

/// A piece that names a file or directory: not empty and not `.`.
pub open spec fn is_name_piece(p: Seq<char>) -> bool {
    p.len() > 0 && p != seq!['.']
}

/// The naming pieces of `ps`, in order.
pub open spec fn name_pieces(ps: Seq<Seq<char>>) -> Seq<Seq<char>>
    decreases ps.len(),
{
    if ps.len() == 0 {
        Seq::empty()
    } else {
        let r = name_pieces(ps.drop_last());
        if is_name_piece(ps.last()) {
            r.push(ps.last())
        } else {
            r
        }
    }
}

/// The components of a path: `/` for a root, `.` for a relative path that
/// starts with the current directory, then the names between separators.
pub open spec fn path_components(s: Seq<char>) -> Seq<Seq<char>> {
    let ps = split_pieces(s, '/');
    let head = if s.len() > 0 && s[0] == '/' {
        seq![seq!['/']]
    } else if ps[0] == seq!['.'] {
        seq![seq!['.']]
    } else {
        Seq::<Seq<char>>::empty()
    };
    head + name_pieces(ps)
}

/// Two paths name the same file.
pub open spec fn same_path(a: Seq<char>, b: Seq<char>) -> bool {
    path_components(a) == path_components(b)
}

/// The components of a path, computed.
fn components_of(s: &str) -> (v: Vec<Vec<char>>)
    ensures
        v@.map_values(|c: Vec<char>| c@) == path_components(s@),
{
    let chars = crate::text::chars_of(s);
    let mut names: Vec<Vec<char>> = Vec::new();
    let mut cur: Vec<char> = Vec::new();
    let mut first: Option<Vec<char>> = None;
    let ghost mut pieces: Seq<Seq<char>> = Seq::empty();
    let mut i: usize = 0;
    while i < chars.len()
        invariant
            i <= chars@.len(),
            split_pieces(chars@.take(i as int), '/') == pieces.push(cur@),
            names@.map_values(|c: Vec<char>| c@) == name_pieces(pieces),
            pieces.len() == 0 <==> first is None,
            first matches Some(f) ==> pieces[0] == f@,
        decreases chars@.len() - i,
    {
        let c = chars[i];
        proof {
            assert(chars@.take(i + 1).drop_last() == chars@.take(i as int));
            lemma_split_pieces_nonempty(chars@.take(i as int), '/');
        }
        if c == '/' {
            let is_name = cur.len() > 0 && !(cur.len() == 1 && cur[0] == '.');
            proof {
                assert(is_name == is_name_piece(cur@)) by {
                    if cur@.len() == 1 {
                        if cur@[0] == '.' {
                            assert(cur@ =~= seq!['.']);
                        }
                    }
                }
                assert(pieces.push(cur@).drop_last() == pieces);
            }
            if first.is_none() {
                first = Some(cur.clone());
            }
            if is_name {
                proof {
                    assert(names@.push(cur).map_values(|c: Vec<char>| c@)
                        == names@.map_values(|c: Vec<char>| c@).push(cur@));
                }
                names.push(cur);
            }
            proof {
                pieces = pieces.push(cur@);
            }
            cur = Vec::new();
        } else {
            cur.push(c);
        }
        i = i + 1;
    }
    proof {
        assert(chars@.take(chars@.len() as int) == chars@);
        assert(pieces.push(cur@).drop_last() == pieces);
    }
    let is_name = cur.len() > 0 && !(cur.len() == 1 && cur[0] == '.');
    proof {
        assert(is_name == is_name_piece(cur@)) by {
            if cur@.len() == 1 {
                if cur@[0] == '.' {
                    assert(cur@ =~= seq!['.']);
                }
            }
        }
    }
    let first_piece: Vec<char> = match first {
        Some(f) => f,
        None => cur.clone(),
    };
    if is_name {
        proof {
            assert(names@.push(cur).map_values(|c: Vec<char>| c@)
                == names@.map_values(|c: Vec<char>| c@).push(cur@));
        }
        names.push(cur);
    }
    let rooted = chars.len() > 0 && chars[0] == '/';
    let dotted = first_piece.len() == 1 && first_piece[0] == '.';
    proof {
        let ps = split_pieces(chars@, '/');
        assert(ps[0] == first_piece@);
        if first_piece@.len() == 1 {
            if first_piece@[0] == '.' {
                assert(first_piece@ =~= seq!['.']);
            }
        }
    }
    let mut v: Vec<Vec<char>> = Vec::new();
    if rooted {
        let mut root: Vec<char> = Vec::new();
        root.push('/');
        proof {
            assert(root@ =~= seq!['/']);
        }
        v.push(root);
    } else if dotted {
        let mut dot: Vec<char> = Vec::new();
        dot.push('.');
        proof {
            assert(dot@ =~= seq!['.']);
        }
        v.push(dot);
    }
    let ghost head = v@.map_values(|c: Vec<char>| c@);
    let mut k: usize = 0;
    while k < names.len()
        invariant
            k <= names@.len(),
            v@.map_values(|c: Vec<char>| c@) == head + names@.map_values(|c: Vec<char>| c@).take(k as int),
        decreases names@.len() - k,
    {
        let item = names[k].clone();
        proof {
            assert(item@ == names@[k as int]@);
            assert(names@.map_values(|c: Vec<char>| c@).take(k + 1)
                == names@.map_values(|c: Vec<char>| c@).take(k as int).push(names@[k as int]@));
            assert(v@.push(item).map_values(|c: Vec<char>| c@)
                == v@.map_values(|c: Vec<char>| c@).push(item@));
        }
        v.push(item);
        k = k + 1;
    }
    proof {
        assert(names@.map_values(|c: Vec<char>| c@).take(names@.len() as int)
            == names@.map_values(|c: Vec<char>| c@));
        assert(chars@ == s@);
        let ps = split_pieces(s@, '/');
        assert(names@.map_values(|c: Vec<char>| c@) == name_pieces(ps));
        if rooted {
            assert(head =~= seq![seq!['/']]);
        } else if dotted {
            assert(first_piece@ =~= seq!['.']);
            assert(head =~= seq![seq!['.']]);
        } else {
            assert(head =~= Seq::<Seq<char>>::empty());
        }
    }
    v
}

/// Whether two paths name the same file (see the module's notes).
pub fn paths_equal(a: &str, b: &str) -> (r: bool)
    ensures
        r == same_path(a@, b@),
{
    let ca = components_of(a);
    let cb = components_of(b);
    let ghost va = ca@.map_values(|c: Vec<char>| c@);
    let ghost vb = cb@.map_values(|c: Vec<char>| c@);
    if ca.len() != cb.len() {
        assert(va.len() != vb.len());
        assert(va != vb);
        return false;
    }
    let mut i: usize = 0;
    while i < ca.len()
        invariant
            ca@.len() == cb@.len(),
            i <= ca@.len(),
            va == ca@.map_values(|c: Vec<char>| c@),
            vb == cb@.map_values(|c: Vec<char>| c@),
            va == path_components(a@),
            vb == path_components(b@),
            forall|k: int| 0 <= k < i ==> va[k] == vb[k],
        decreases ca@.len() - i,
    {
        if !crate::text::chars_equal(&ca[i], &cb[i]) {
            assert(va[i as int] != vb[i as int]);
            assert(va != vb);
            return false;
        }
        i = i + 1;
    }
    assert(va == vb);
    true
}

/// The final component of a path when it names a file or directory: none for
/// a root, a lone `.`, an empty path, or a path that ends in `..` (as
/// `Path::file_name` documents it).
pub open spec fn file_name(p: Seq<char>) -> Option<Seq<char>> {
    let c = path_components(p);
    if c.len() > 0 && c.last() != seq!['/'] && c.last() != seq!['.'] && c.last() != seq!['.', '.'] {
        Some(c.last())
    } else {
        None
    }
}

/// The final component of a path, when it names a file or directory.
pub fn file_name_of(path: &str) -> (r: Option<String>)
    ensures
        match file_name(path@) {
            Some(n) => r matches Some(s) && s@ == n,
            None => r is None,
        },
{
    let comps = components_of(path);
    let ghost cv = comps@.map_values(|c: Vec<char>| c@);
    let n = comps.len();
    if n == 0 {
        return None;
    }
    let last = &comps[n - 1];
    proof {
        assert(cv.last() == last@);
    }
    let k = last.len();
    let is_root = k == 1 && last[0] == '/';
    let is_dot = k == 1 && last[0] == '.';
    let is_up = k == 2 && last[0] == '.' && last[1] == '.';
    proof {
        if k == 1 {
            assert(last@ =~= seq![last@[0]]);
        }
        if k == 2 {
            assert(last@ =~= seq![last@[0], last@[1]]);
        }
        assert(is_root == (last@ == seq!['/']));
        assert(is_dot == (last@ == seq!['.']));
        assert(is_up == (last@ == seq!['.', '.']));
    }
    if is_root || is_dot || is_up {
        None
    } else {
        Some(crate::text::string_from_chars(last, 0, k))
    }
}

// ============================================================================
// Reading
// ============================================================================

/// File encoding
#[derive(Debug, Clone, Copy, PartialEq, Eq, Structural)]
pub enum FileEncoding {
    UTF8,
    ASCII,
    LATIN1,
}

/// The lines in groups of `n` (the last group may be shorter), each group
/// joined with newlines.
pub open spec fn chunked(lines: Seq<Seq<char>>, n: nat) -> Seq<Seq<char>>
    decreases lines.len(),
{
    if lines.len() == 0 || n == 0 {
        Seq::empty()
    } else if lines.len() <= n {
        seq![joined_lines(lines)]
    } else {
        seq![joined_lines(lines.take(n as int))] + chunked(lines.skip(n as int), n)
    }
}

/// Lines `from..to` of `v` joined with newlines.
fn join_range(v: &Vec<String>, from: usize, to: usize) -> (s: String)
    requires
        from < to <= v.len(),
    ensures
        s@ == joined_lines(views(v@).subrange(from as int, to as int)),
{
    let ghost lv = views(v@);
    let mut s = v[from].clone();
    proof {
        assert(lv.subrange(from as int, from + 1) =~= seq![v@[from as int]@]);
    }
    let mut k = from + 1;
    while k < to
        invariant
            from < k <= to <= v@.len(),
            lv == views(v@),
            s@ == joined_lines(lv.subrange(from as int, k as int)),
        decreases to - k,
    {
        proof {
            assert(lv.subrange(from as int, k + 1).drop_last() == lv.subrange(from as int, k as int));
        }
        push_char(&mut s, '\n');
        push_str(&mut s, v[k].as_str());
        k = k + 1;
    }
    s
}

/// File reader
#[derive(Debug)]
pub struct FileReader;

impl FileReader {
    /// The content in chunks of `chunk_size` lines, each chunk's lines joined
    /// with newlines (what a chunked read of a file with this content gives).
    pub fn chunk_content(content: &str, chunk_size: usize) -> (r: Vec<String>)
        requires
            chunk_size > 0,
        ensures
            views(r@) == chunked(lines_of(content@), chunk_size as nat),
    {
        let lines = crate::text::split_lines(content);
        let ghost lv = views(lines@);
        let ghost n = chunk_size as nat;
        let mut out: Vec<String> = Vec::new();
        let mut i: usize = 0;
        assert(lv.skip(0) == lv);
        while i < lines.len()
            invariant
                i <= lines@.len(),
                lv == views(lines@),
                lv == lines_of(content@),
                n == chunk_size,
                n > 0,
                views(out@) + chunked(lv.skip(i as int), n) == chunked(lv, n),
            decreases lines@.len() - i,
        {
            let rest = lines.len() - i;
            let ghost tail = lv.skip(i as int);
            if rest <= chunk_size {
                let chunk = join_range(&lines, i, lines.len());
                proof {
                    assert(lv.subrange(i as int, lv.len() as int) == tail);
                    assert(views(out@.push(chunk)) == views(out@).push(chunk@));
                    assert(lv.skip(lv.len() as int).len() == 0);
                    assert(views(out@) + chunked(tail, n) == views(out@).push(chunk@));
                }
                out.push(chunk);
                i = lines.len();
            } else {
                let chunk = join_range(&lines, i, i + chunk_size);
                proof {
                    assert(lv.subrange(i as int, i + chunk_size) == tail.take(n as int));
                    assert(tail.skip(n as int) == lv.skip(i + chunk_size));
                    assert(views(out@.push(chunk)) == views(out@).push(chunk@));
                    assert(views(out@) + chunked(tail, n) == views(out@).push(chunk@) + chunked(
                        lv.skip(i + chunk_size),
                        n,
                    ));
                }
                out.push(chunk);
                i = i + chunk_size;
            }
        }
        proof {
            assert(lv.skip(i as int).len() == 0);
        }
        out
    }

    /// The number of lines of the content (what a line count of a file with
    /// this content gives).
    pub fn count_lines(content: &str) -> (n: usize)
        ensures
            n == lines_of(content@).len(),
    {
        let lines = crate::text::split_lines(content);
        proof {
            assert(views(lines@).len() == lines@.len());
        }
        lines.len()
    }
}

// ============================================================================
// Recent files
// ============================================================================

/// Recent file entry
#[derive(Debug)]
pub struct RecentFile {
    /// File path
    pub path: String,
    /// File name
    pub name: String,
    /// Last accessed time
    pub accessed: std::time::SystemTime,
    /// File size
    pub size: u64,
}

/// The name shown for a recent file: its file name, or "Unknown".
pub open spec fn recent_name(path: Seq<char>) -> Seq<char> {
    match file_name(path) {
        Some(n) => n,
        None => "Unknown"@,
    }
}

impl RecentFile {
    /// The name shown for a recent file at this path: its file name, or
    /// "Unknown" when the path does not end in one.
    pub fn name_for(path: &str) -> (r: String)
        ensures
            r@ == recent_name(path@),
    {
        match file_name_of(path) {
            Some(n) => n,
            None => "Unknown".to_owned(),
        }
    }
}

/// The entries of `files` whose path is not the same as `p`, in order.
pub open spec fn without_path(files: Seq<RecentFile>, p: Seq<char>) -> Seq<RecentFile>
    decreases files.len(),
{
    if files.len() == 0 {
        Seq::empty()
    } else {
        let r = without_path(files.drop_last(), p);
        if same_path(files.last().path@, p) {
            r
        } else {
            r.push(files.last())
        }
    }
}

/// The list after `file` was put in front: other entries for the same path
/// go, and the list is cut to its first `max` entries.
pub open spec fn recent_after_add(files: Seq<RecentFile>, file: RecentFile, max: nat) -> Seq<RecentFile> {
    let l = seq![file] + without_path(files, file.path@);
    if l.len() > max {
        l.take(max as int)
    } else {
        l
    }
}

/// Recent files manager
#[derive(Debug)]
pub struct RecentFilesManager {
    /// Recent files list (most recent first)
    pub files: Vec<RecentFile>,
    /// Maximum recent files to track
    pub max_files: usize,
}

impl RecentFilesManager {
    /// Create new recent files manager
    pub fn new(max_files: usize) -> (m: Self)
        ensures
            m.files@.len() == 0,
            m.max_files == max_files,
    {
        RecentFilesManager { files: Vec::new(), max_files }
    }

    /// Removes the entries whose path is the same as `path`.
    fn drop_path(&mut self, path: &str)
        ensures
            final(self).files@ == without_path(old(self).files@, path@),
            final(self).max_files == old(self).max_files,
    {
        let mut old_files: Vec<RecentFile> = Vec::new();
        std::mem::swap(&mut old_files, &mut self.files);
        let ghost all = old_files@;
        let mut kept: Vec<RecentFile> = Vec::new();
        for f in it: old_files
            invariant
                it.seq() == all,
                kept@ == without_path(all.take(it.index() as int), path@),
        {
            proof {
                assert(all.take(it.index() + 1).drop_last() == all.take(it.index() as int));
            }
            if !paths_equal(f.path.as_str(), path) {
                kept.push(f);
            }
        }
        proof {
            assert(all.take(all.len() as int) == all);
        }
        self.files = kept;
    }

    /// Add recent file
    pub fn add(&mut self, file: RecentFile)
        ensures
            final(self).files@ == recent_after_add(old(self).files@, file, old(self).max_files as nat),
            final(self).max_files == old(self).max_files,
    {
        self.drop_path(file.path.as_str());
        self.files.insert(0, file);
        if self.files.len() > self.max_files {
            self.files.truncate(self.max_files);
        }
    }

    /// Get recent files
    pub fn get_recent(&self) -> (r: &[RecentFile])
        ensures
            r@ == self.files@,
    {
        self.files.as_slice()
    }

    /// Clear recent files
    pub fn clear(&mut self)
        ensures
            final(self).files@.len() == 0,
            final(self).max_files == old(self).max_files,
    {
        self.files.clear();
    }

    /// Remove file from recent
    pub fn remove(&mut self, path: &str)
        ensures
            final(self).files@ == without_path(old(self).files@, path@),
            final(self).max_files == old(self).max_files,
    {
        self.drop_path(path);
    }
}

/// No two entries of `files` name the same file.
pub open spec fn distinct_paths(files: Seq<RecentFile>) -> bool {
    forall|i: int, j: int|
        0 <= i < j < files.len() ==> !same_path(#[trigger] files[i].path@, #[trigger] files[j].path@)
}

/// What `without_path` keeps comes from `files`, in order, and names another
/// file than `p`; with distinct paths in `files` the paths stay distinct.
proof fn lemma_without_path(files: Seq<RecentFile>, p: Seq<char>)
    ensures
        forall|k: int|
            0 <= k < without_path(files, p).len() ==> files.contains(#[trigger] without_path(files, p)[k])
                && !same_path(without_path(files, p)[k].path@, p),
        without_path(files, p).len() <= files.len(),
        distinct_paths(files) ==> distinct_paths(without_path(files, p)),
    decreases files.len(),
{
    if files.len() > 0 {
        let init = files.drop_last();
        lemma_without_path(init, p);
        let r = without_path(init, p);
        assert forall|k: int| 0 <= k < r.len() implies files.contains(#[trigger] r[k]) by {
            let j = choose|j: int| 0 <= j < init.len() && init[j] == r[k];
            assert(files[j] == r[k]);
        }
        if !same_path(files.last().path@, p) {
            let w = r.push(files.last());
            assert forall|k: int| 0 <= k < w.len() implies files.contains(#[trigger] w[k])
                && !same_path(w[k].path@, p) by {
                if k == r.len() {
                    assert(files[files.len() - 1] == w[k]);
                }
            }
            if distinct_paths(files) {
                assert forall|i: int, j: int| 0 <= i < j < init.len() implies !same_path(
                    #[trigger] init[i].path@,
                    #[trigger] init[j].path@,
                ) by {
                    assert(init[i] == files[i] && init[j] == files[j]);
                }
                assert forall|i: int, j: int| 0 <= i < j < w.len() implies !same_path(
                    #[trigger] w[i].path@,
                    #[trigger] w[j].path@,
                ) by {
                    if j == r.len() {
                        let a = choose|a: int| 0 <= a < init.len() && init[a] == r[i];
                        assert(files[a] == w[i]);
                        assert(files[files.len() - 1] == w[j]);
                    }
                }
            }
        } else {
            if distinct_paths(files) {
                assert forall|i: int, j: int| 0 <= i < j < init.len() implies !same_path(
                    #[trigger] init[i].path@,
                    #[trigger] init[j].path@,
                ) by {
                    assert(init[i] == files[i] && init[j] == files[j]);
                }
            }
        }
    }
}

/// After a file is added to the recent files, it comes first (unless the
/// list keeps no entries), no other entry names the same file, the list
/// holds at most `max` entries, and entries that named distinct files still
/// do.
pub proof fn law_recent_add(files: Seq<RecentFile>, file: RecentFile, max: nat)
    ensures
        recent_after_add(files, file, max).len() <= max,
        max > 0 ==> recent_after_add(files, file, max)[0] == file,
        forall|k: int|
            0 < k < recent_after_add(files, file, max).len() ==> !same_path(
                #[trigger] recent_after_add(files, file, max)[k].path@,
                file.path@,
            ),
        distinct_paths(files) ==> distinct_paths(recent_after_add(files, file, max)),
{
    lemma_without_path(files, file.path@);
    let w = without_path(files, file.path@);
    let l = seq![file] + w;
    assert forall|k: int| 0 < k < l.len() implies !same_path(#[trigger] l[k].path@, file.path@) by {
        assert(l[k] == w[k - 1]);
    }
    if distinct_paths(files) {
        assert forall|i: int, j: int| 0 <= i < j < l.len() implies !same_path(
            #[trigger] l[i].path@,
            #[trigger] l[j].path@,
        ) by {
            assert(l[j] == w[j - 1]);
            if i > 0 {
                assert(l[i] == w[i - 1]);
            }
        }
    }
}

/// After the entries for a path are removed, no entry names that file, and
/// entries that named distinct files still do.
pub proof fn law_recent_remove(files: Seq<RecentFile>, p: Seq<char>)
    ensures
        forall|k: int|
            0 <= k < without_path(files, p).len() ==> !same_path(#[trigger] without_path(files, p)[k].path@, p),
        distinct_paths(files) ==> distinct_paths(without_path(files, p)),
{
    lemma_without_path(files, p);
}

impl Default for RecentFilesManager {
    fn default() -> (m: Self)
        ensures
            m.files@.len() == 0,
            m.max_files == 10,
    {
        Self::new(10)
    }
}

// ============================================================================
// Processing results
// ============================================================================

/// File processing result
#[derive(Debug, Clone)]
pub struct ProcessingResult {
    /// Original file path
    pub source: String,
    /// Output file path
    pub output: Option<String>,
    /// Processing time (milliseconds)
    pub duration_ms: u32,
    /// Number of lines processed
    pub lines_processed: usize,
    /// Errors encountered
    pub errors: Vec<String>,
    /// Warnings
    pub warnings: Vec<String>,
}

impl ProcessingResult {
    /// Create new processing result
    pub fn new(source: String) -> (r: Self)
        ensures
            r.source == source,
            r.output is None,
            r.duration_ms == 0,
            r.lines_processed == 0,
            r.errors@.len() == 0,
            r.warnings@.len() == 0,
    {
        ProcessingResult {
            source,
            output: None,
            duration_ms: 0,
            lines_processed: 0,
            errors: Vec::new(),
            warnings: Vec::new(),
        }
    }

    /// Check if successful
    pub fn is_successful(&self) -> (b: bool)
        ensures
            b == (self.errors@.len() == 0),
    {
        self.errors.is_empty()
    }
}

// ============================================================================
// Statistics
// ============================================================================

/// The counts as (command, count) values.
pub open spec fn count_views(v: Seq<(String, usize)>) -> Seq<(Seq<char>, int)> {
    v.map_values(|p: (String, usize)| (p.0@, p.1 as int))
}

/// How often `command` was counted.
pub open spec fn count_in(cs: Seq<(Seq<char>, int)>, command: Seq<char>) -> int {
    let k = first_key(cs, command);
    if 0 <= k < cs.len() {
        cs[k].1
    } else {
        0
    }
}

/// The counts after one more `command`: its count goes up by one, or it is
/// added at the end with a count of one.
pub open spec fn with_count(cs: Seq<(Seq<char>, int)>, command: Seq<char>) -> Seq<(Seq<char>, int)> {
    let k = first_key(cs, command);
    if k < cs.len() {
        cs.update(k, (command, cs[k].1 + 1))
    } else {
        cs.push((command, 1))
    }
}

/// G-code command counts, one entry per command in the order first seen
#[derive(Debug)]
pub struct CommandCounts {
    /// (command, count) entries
    pub entries: Vec<(String, usize)>,
}

impl CommandCounts {
    /// No command counted yet
    pub fn new() -> (c: Self)
        ensures
            c.entries@.len() == 0,
    {
        CommandCounts { entries: Vec::new() }
    }

    /// The position of the entry for this command.
    fn position_of(&self, command: &str) -> (k: usize)
        ensures
            k == first_key(count_views(self.entries@), command@),
            k <= self.entries@.len(),
    {
        let target = crate::text::chars_of(command);
        let ghost cv = count_views(self.entries@);
        proof {
            lemma_first_key(cv, command@);
        }
        let mut i: usize = 0;
        while i < self.entries.len()
            invariant
                i <= self.entries@.len(),
                cv == count_views(self.entries@),
                target@ == command@,
                forall|k: int| 0 <= k < i ==> cv[k].0 != command@,
                0 <= first_key(cv, command@) <= cv.len(),
                first_key(cv, command@) < cv.len() ==> cv[first_key(cv, command@)].0 == command@,
                forall|k: int| 0 <= k < first_key(cv, command@) ==> cv[k].0 != command@,
            decreases self.entries@.len() - i,
        {
            let key = crate::text::chars_of(self.entries[i].0.as_str());
            proof {
                assert(cv[i as int].0 == self.entries@[i as int].0@);
            }
            if crate::text::chars_equal(&key, &target) {
                return i;
            }
            i = i + 1;
        }
        i
    }

    /// Count one more occurrence of a command
    pub fn count_command(&mut self, command: &str)
        requires
            count_in(count_views(old(self).entries@), command@) < usize::MAX,
        ensures
            count_views(final(self).entries@) == with_count(count_views(old(self).entries@), command@),
    {
        let ghost cv = count_views(self.entries@);
        let k = self.position_of(command);
        if k < self.entries.len() {
            let n = self.entries[k].1;
            self.entries.set(k, (command.to_owned(), n + 1));
            proof {
                assert(count_views(self.entries@) =~= cv.update(k as int, (command@, n + 1)));
            }
        } else {
            self.entries.push((command.to_owned(), 1));
            proof {
                assert(count_views(self.entries@) =~= cv.push((command@, 1)));
            }
        }
    }

    /// How often a command was counted
    pub fn count_of(&self, command: &str) -> (n: usize)
        ensures
            n == count_in(count_views(self.entries@), command@),
    {
        let k = self.position_of(command);
        if k < self.entries.len() {
            self.entries[k].1
        } else {
            0
        }
    }
}

impl Default for CommandCounts {
    fn default() -> (c: Self)
        ensures
            c.entries@.len() == 0,
    {
        Self::new()
    }
}

/// Counting a command raises its count by one and leaves every other
/// command's count as it was.
pub proof fn law_count_command(cs: Seq<(Seq<char>, int)>, command: Seq<char>, other: Seq<char>)
    ensures
        count_in(with_count(cs, command), command) == count_in(cs, command) + 1,
        other != command ==> count_in(with_count(cs, command), other) == count_in(cs, other),
{
    lemma_first_key(cs, command);
    lemma_first_key(cs, other);
    let k = first_key(cs, command);
    let w = with_count(cs, command);
    lemma_first_key_unique(w, command, k);
    if other != command {
        let j = first_key(cs, other);
        let jw = if j < cs.len() { j } else { w.len() as int };
        if j < cs.len() {
            assert(j != k);
            assert(w[j] == cs[j]);
        }
        assert forall|i: int| 0 <= i < jw implies w[i].0 != other by {
            if i < cs.len() && i != k {
                assert(w[i] == cs[i]);
                assert(cs[i].0 != other);
            }
        }
        lemma_first_key_unique(w, other, jw);
    }
}

// ============================================================================
// Export
// ============================================================================

/// File export format
#[derive(Debug, Clone, Copy, PartialEq, Eq, Structural)]
pub enum ExportFormat {
    /// Standard G-code
    GCode,
    /// CSV format
    CSV,
    /// JSON format
    JSON,
}

/// What `format!("{:?}", s)` gives for a string slice with these
/// characters: the text in double quotes with Rust's debug escapes.
pub uninterp spec fn debug_text(s: Seq<char>) -> Seq<char>;

/// The debug rendering of a string slice (`<str as Debug>::fmt` through
/// `format!`). The contract only names the result as a function of the
/// characters; the escaping rules are not restated.
#[verifier::external_body]
fn debug_quote(s: &str) -> (r: String)
    ensures
        r@ == debug_text(s@),
{
    format!("{:?}", s)
}

/// The CSV rows for `lines`, numbered from `first`: each row is the number,
/// a comma and the line in double quotes with each quote doubled.
pub open spec fn csv_rows(lines: Seq<Seq<char>>, first: nat) -> Seq<char>
    decreases lines.len(),
{
    if lines.len() == 0 {
        Seq::empty()
    } else {
        decimal(first) + seq![',', '"'] + replaced(lines[0], seq!['"'], seq!['"', '"']) + seq!['"', '\n']
            + csv_rows(lines.drop_first(), first + 1)
    }
}

/// The CSV export of `content`: a header row, then one numbered row per line.
pub open spec fn csv_of(content: Seq<char>) -> Seq<char> {
    "Line,Command\n"@ + csv_rows(lines_of(content), 1)
}

/// The debug renderings of `lines`, separated by ", ".
pub open spec fn debug_items(lines: Seq<Seq<char>>) -> Seq<char>
    decreases lines.len(),
{
    if lines.len() == 0 {
        Seq::empty()
    } else if lines.len() == 1 {
        debug_text(lines[0])
    } else {
        debug_items(lines.drop_last()) + seq![',', ' '] + debug_text(lines.last())
    }
}

/// The JSON export of `content`: the number of lines and the lines as a
/// debug-printed list.
pub open spec fn json_of(content: Seq<char>) -> Seq<char> {
    let lines = lines_of(content);
    "{\"lines\": "@ + decimal(lines.len()) + ", \"commands\": ["@ + debug_items(lines) + "]}"@
}

/// What an export writes for `content` in `format`.
pub open spec fn export_text(content: Seq<char>, format: ExportFormat) -> Seq<char> {
    match format {
        ExportFormat::GCode => content,
        ExportFormat::CSV => csv_of(content),
        ExportFormat::JSON => json_of(content),
    }
}

/// File exporter
#[derive(Debug)]
pub struct FileExporter;

impl FileExporter {
    /// The text that an export of `content` in `format` writes to its file.
    pub fn export_content(content: &str, format: ExportFormat) -> (r: String)
        ensures
            r@ == export_text(content@, format),
    {
        match format {
            ExportFormat::GCode => content.to_owned(),
            ExportFormat::CSV => Self::to_csv(content),
            ExportFormat::JSON => Self::to_json(content),
        }
    }

    /// Convert to CSV
    pub fn to_csv(content: &str) -> (r: String)
        ensures
            r@ == csv_of(content@),
    {
        let mut csv = String::new();
        push_str(&mut csv, "Line,Command\n");
        let lines = crate::text::split_lines(content);
        let ghost lv = views(lines@);
        let mut idx: usize = 0;
        assert(lv.subrange(0, lv.len() as int) == lv);
        while idx < lines.len()
            invariant
                idx <= lines@.len(),
                lv == views(lines@),
                lv == lines_of(content@),
                csv@ + csv_rows(lv.subrange(idx as int, lv.len() as int), (idx + 1) as nat) == csv_of(content@),
            decreases lines@.len() - idx,
        {
            let ghost rest = lv.subrange(idx as int, lv.len() as int);
            let ghost before = csv@;
            assert(rest.drop_first() == lv.subrange(idx + 1, lv.len() as int));
            let number = crate::text::decimal_string((idx + 1) as u64);
            push_str(&mut csv, number.as_str());
            push_str(&mut csv, ",\"");
            let quoted = crate::text::replace_all_in(lines[idx].as_str(), "\"", "\"\"");
            push_str(&mut csv, quoted.as_str());
            push_str(&mut csv, "\"\n");
            proof {
                reveal_strlit(",\"");
                reveal_strlit("\"");
                reveal_strlit("\"\"");
                reveal_strlit("\"\n");
                assert(",\""@ =~= seq![',', '"']);
                assert("\""@ =~= seq!['"']);
                assert("\"\""@ =~= seq!['"', '"']);
                assert("\"\n"@ =~= seq!['"', '\n']);
                assert(csv@ == before + decimal((idx + 1) as nat) + seq![',', '"']
                    + replaced(lv[idx as int], seq!['"'], seq!['"', '"']) + seq!['"', '\n']);
            }
            idx = idx + 1;
        }
        proof {
            assert(lv.subrange(idx as int, lv.len() as int).len() == 0);
        }
        csv
    }

    /// Convert to JSON
    pub fn to_json(content: &str) -> (r: String)
        ensures
            r@ == json_of(content@),
    {
        let lines = crate::text::split_lines(content);
        let ghost lv = views(lines@);
        let mut out = String::new();
        push_str(&mut out, "{\"lines\": ");
        let count = crate::text::decimal_string(lines.len() as u64);
        push_str(&mut out, count.as_str());
        push_str(&mut out, ", \"commands\": [");
        let ghost head = out@;
        let mut i: usize = 0;
        while i < lines.len()
            invariant
                i <= lines@.len(),
                lv == views(lines@),
                out@ == head + debug_items(lv.take(i as int)),
            decreases lines@.len() - i,
        {
            let ghost before = out@;
            if i > 0 {
                push_str(&mut out, ", ");
            }
            let item = debug_quote(lines[i].as_str());
            push_str(&mut out, item.as_str());
            proof {
                reveal_strlit(", ");
                assert(", "@ =~= seq![',', ' ']);
                assert(lv.take(i + 1).drop_last() == lv.take(i as int));
                if i == 0 {
                    assert(lv.take(1) =~= seq![lv[0]]);
                }
            }
            i = i + 1;
        }
        push_str(&mut out, "]}");
        proof {
            assert(lv.take(lv.len() as int) == lv);
        }
        out
    }
}

// ============================================================================
// Drag and drop
// ============================================================================

/// Drag and drop event
#[derive(Debug)]
pub struct DragDropEvent {
    /// File paths being dropped
    pub files: Vec<String>,
    /// Drop position (x, y)
    pub position: (i32, i32),
}

impl Clone for DragDropEvent {
    fn clone(&self) -> (r: Self)
        ensures
            r.files@ == self.files@,
            r.position == self.position,
    {
        let mut files: Vec<String> = Vec::new();
        let mut i: usize = 0;
        while i < self.files.len()
            invariant
                i <= self.files@.len(),
                files@ == self.files@.take(i as int),
            decreases self.files@.len() - i,
        {
            files.push(self.files[i].clone());
            proof {
                assert(self.files@.take(i + 1) == self.files@.take(i as int).push(self.files@[i as int]));
            }
            i = i + 1;
        }
        proof {
            assert(self.files@.take(self.files@.len() as int) == self.files@);
        }
        DragDropEvent { files, position: self.position }
    }
}

impl DragDropEvent {
    /// Create new drag and drop event
    pub fn new(files: Vec<String>, position: (i32, i32)) -> (e: Self)
        ensures
            e.files == files,
            e.position == position,
    {
        DragDropEvent { files, position }
    }

    /// Get first file
    pub fn first_file(&self) -> (f: Option<&String>)
        ensures
            self.files@.len() == 0 ==> f is None,
            self.files@.len() > 0 ==> f == Some(&self.files@[0]),
    {
        self.files.first()
    }
}

// ============================================================================
// Validation
// ============================================================================

/// Validation error
#[derive(Debug, Clone)]
pub struct ValidationError {
    /// Line number
    pub line_number: usize,
    /// Error message
    pub message: String,
    /// Suggested fix
    pub suggestion: Option<String>,
}

impl ValidationError {
    /// Create new validation error
    pub fn new(line_number: usize, message: &str) -> (e: Self)
        ensures
            e.line_number == line_number,
            e.message@ == message@,
            e.suggestion is None,
    {
        ValidationError { line_number, message: message.to_owned(), suggestion: None }
    }

    /// Add suggestion
    pub fn with_suggestion(self, suggestion: &str) -> (e: Self)
        ensures
            e.line_number == self.line_number,
            e.message == self.message,
            e.suggestion matches Some(s) && s@ == suggestion@,
    {
        let mut e = self;
        e.suggestion = Some(suggestion.to_owned());
        e
    }
}

/// A line is reported when, trimmed of white space, it is not empty and does
/// not start with G, M or T.
pub open spec fn flagged(line: Seq<char>) -> bool {
    let t = trim(line);
    t.len() > 0 && t[0] != 'G' && t[0] != 'M' && t[0] != 'T'
}

/// The 1-based numbers of the reported lines, in order.
pub open spec fn flagged_lines(lines: Seq<Seq<char>>) -> Seq<nat>
    decreases lines.len(),
{
    if lines.len() == 0 {
        Seq::empty()
    } else {
        let r = flagged_lines(lines.drop_last());
        if flagged(lines.last()) {
            r.push(lines.len())
        } else {
            r
        }
    }
}

/// File validator
#[derive(Debug)]
pub struct FileValidator;

impl FileValidator {
    /// Validate G-code file
    pub fn validate(content: &str) -> (errors: Vec<ValidationError>)
        ensures
            errors@.len() == flagged_lines(lines_of(content@)).len(),
            forall|i: int|
                0 <= i < errors@.len() ==> {
                    &&& #[trigger] errors@[i].line_number == flagged_lines(lines_of(content@))[i]
                    &&& errors@[i].message@ == "Line does not start with G, M, or T"@
                    &&& errors@[i].suggestion matches Some(s)
                        && s@ == "Add valid G-code command at the beginning"@
                },
    {
        let lines = crate::text::split_lines(content);
        let ghost lv = views(lines@);
        let mut errors: Vec<ValidationError> = Vec::new();
        let mut line_num: usize = 0;
        while line_num < lines.len()
            invariant
                line_num <= lines@.len(),
                lv == views(lines@),
                lv == lines_of(content@),
                errors@.len() == flagged_lines(lv.take(line_num as int)).len(),
                forall|i: int|
                    0 <= i < errors@.len() ==> {
                        &&& #[trigger] errors@[i].line_number == flagged_lines(lv.take(line_num as int))[i]
                        &&& errors@[i].message@ == "Line does not start with G, M, or T"@
                        &&& errors@[i].suggestion matches Some(s)
                            && s@ == "Add valid G-code command at the beginning"@
                    },
            decreases lines@.len() - line_num,
        {
            proof {
                assert(lv.take(line_num + 1).drop_last() == lv.take(line_num as int));
            }
            let v = crate::text::chars_of(lines[line_num].as_str());
            let a = crate::text::first_non_white(&v);
            proof {
                assert(lv[line_num as int] == lines@[line_num as int]@);
                assert(lv.take(line_num + 1).last() == lv[line_num as int]);
                assert(flagged(lv[line_num as int]) == (a < v@.len() && v@[a as int] != 'G'
                    && v@[a as int] != 'M' && v@[a as int] != 'T'));
            }
            if a < v.len() && v[a] != 'G' && v[a] != 'M' && v[a] != 'T' {
                let e = ValidationError::new(line_num + 1, "Line does not start with G, M, or T")
                    .with_suggestion("Add valid G-code command at the beginning");
                errors.push(e);
            }
            line_num = line_num + 1;
        }
        proof {
            assert(lv.take(lv.len() as int) == lv);
        }
        errors
    }
}

// ============================================================================
// Comparison
// ============================================================================

/// Diff line
#[derive(Debug, Clone)]
pub enum DiffLine {
    /// Unchanged line
    Unchanged(String),
    /// Added line
    Added(String),
    /// Removed line
    Removed(String),
}

/// Line `i` of the modified text is the same as line `i` of the original.
pub open spec fn same_line(o: Seq<Seq<char>>, m: Seq<Seq<char>>, i: int) -> bool {
    i < o.len() && i < m.len() && o[i] == m[i]
}

/// Entry `i` of the comparison of `o` with `m`: each modified line, in order,
/// is unchanged when the original has the same line at the same number and
/// added otherwise; the original's lines past the end of the modified text
/// follow as removed.
pub open spec fn diff_entry(d: DiffLine, o: Seq<Seq<char>>, m: Seq<Seq<char>>, i: int) -> bool {
    if i < m.len() {
        if same_line(o, m, i) {
            d matches DiffLine::Unchanged(s) && s@ == m[i]
        } else {
            d matches DiffLine::Added(s) && s@ == m[i]
        }
    } else {
        d matches DiffLine::Removed(s) && s@ == o[i]
    }
}

/// How many of the first `n` modified lines are not the same as the
/// original's line at that number.
pub open spec fn added_lines(o: Seq<Seq<char>>, m: Seq<Seq<char>>, n: int) -> nat
    decreases n,
{
    if n <= 0 {
        0
    } else if same_line(o, m, n - 1) {
        added_lines(o, m, n - 1)
    } else {
        added_lines(o, m, n - 1) + 1
    }
}

/// File comparison result
#[derive(Debug, Clone)]
pub struct FileComparison {
    /// Diff lines
    pub lines: Vec<DiffLine>,
    /// Lines added
    pub added_count: usize,
    /// Lines removed
    pub removed_count: usize,
}

/// Whether two strings have the same characters.
fn same_text(a: &String, b: &String) -> (r: bool)
    ensures
        r == (a@ == b@),
{
    a.eq(b)
}

impl FileComparison {
    /// Create new file comparison
    pub fn new() -> (c: Self)
        ensures
            c.lines@.len() == 0,
            c.added_count == 0,
            c.removed_count == 0,
    {
        FileComparison { lines: Vec::new(), added_count: 0, removed_count: 0 }
    }

    /// Simple line-by-line comparison
    pub fn compare(original: &str, modified: &str) -> (c: Self)
        ensures
            ({
                let o = lines_of(original@);
                let m = lines_of(modified@);
                &&& c.lines@.len() == if o.len() > m.len() { o.len() } else { m.len() }
                &&& forall|i: int| 0 <= i < c.lines@.len() ==> diff_entry(#[trigger] c.lines@[i], o, m, i)
                &&& c.added_count == added_lines(o, m, m.len() as int)
                &&& c.removed_count == if o.len() > m.len() { o.len() - m.len() } else { 0 }
            }),
    {
        let mut comparison = Self::new();
        let orig_lines = crate::text::split_lines(original);
        let mod_lines = crate::text::split_lines(modified);
        let ghost o = views(orig_lines@);
        let ghost m = views(mod_lines@);
        let mut i: usize = 0;
        while i < mod_lines.len()
            invariant
                o == views(orig_lines@),
                m == views(mod_lines@),
                i <= m.len(),
                comparison.lines@.len() == i,
                forall|k: int| 0 <= k < i ==> diff_entry(#[trigger] comparison.lines@[k], o, m, k),
                comparison.added_count == added_lines(o, m, i as int),
                comparison.added_count <= i,
                comparison.removed_count == 0,
            decreases m.len() - i,
        {
            let line = &mod_lines[i];
            if i < orig_lines.len() && same_text(&orig_lines[i], line) {
                comparison.lines.push(DiffLine::Unchanged(line.clone()));
            } else {
                comparison.lines.push(DiffLine::Added(line.clone()));
                comparison.added_count = comparison.added_count + 1;
            }
            i = i + 1;
        }
        let mut j: usize = mod_lines.len();
        while j < orig_lines.len()
            invariant
                o == views(orig_lines@),
                m == views(mod_lines@),
                m.len() <= j <= o.len() || (j == m.len() && o.len() <= m.len()),
                comparison.lines@.len() == j,
                forall|k: int| 0 <= k < j ==> diff_entry(#[trigger] comparison.lines@[k], o, m, k),
                comparison.added_count == added_lines(o, m, m.len() as int),
                comparison.removed_count == j - m.len(),
            decreases o.len() - j,
        {
            comparison.lines.push(DiffLine::Removed(orig_lines[j].clone()));
            comparison.removed_count = comparison.removed_count + 1;
            j = j + 1;
        }
        comparison
    }
}

/// Comparing a text with itself finds no added and no removed line: every
/// line is the same at its number.
pub proof fn law_compare_with_itself(o: Seq<Seq<char>>)
    ensures
        added_lines(o, o, o.len() as int) == 0,
        forall|i: int| 0 <= i < o.len() ==> #[trigger] same_line(o, o, i),
{
    lemma_added_lines_same(o, o.len() as int);
}

/// Each modified line is reported unchanged exactly when the original has
/// an equal line at the same number, and added otherwise; every line that
/// is not equal to the original's line at its number adds one to the count
/// of added lines.
pub proof fn law_compare_line_by_line(o: Seq<Seq<char>>, m: Seq<Seq<char>>, d: DiffLine, i: int)
    requires
        0 <= i < m.len(),
        diff_entry(d, o, m, i),
    ensures
        (d is Unchanged) <==> (i < o.len() && o[i] == m[i]),
        (d is Added) <==> !(i < o.len() && o[i] == m[i]),
        added_lines(o, m, i + 1) == added_lines(o, m, i) + if i < o.len() && o[i] == m[i] { 0int } else { 1int },
        added_lines(o, m, m.len() as int) <= m.len(),
{
    lemma_added_lines_bound(o, m, m.len() as int);
}

/// At most `n` of the first `n` lines are added.
proof fn lemma_added_lines_bound(o: Seq<Seq<char>>, m: Seq<Seq<char>>, n: int)
    ensures
        added_lines(o, m, n) <= if n < 0 { 0 } else { n },
    decreases n,
{
    if n > 0 {
        lemma_added_lines_bound(o, m, n - 1);
    }
}

/// No line of a text differs from itself.
proof fn lemma_added_lines_same(o: Seq<Seq<char>>, n: int)
    requires
        n <= o.len(),
    ensures
        added_lines(o, o, n) == 0,
    decreases n,
{
    if n > 0 {
        lemma_added_lines_same(o, n - 1);
        assert(same_line(o, o, n - 1));
    }
}

impl Default for FileComparison {
    fn default() -> (c: Self)
        ensures
            c.lines@.len() == 0,
            c.added_count == 0,
            c.removed_count == 0,
    {
        Self::new()
    }
}

// ============================================================================
// Backup and recovery
// ============================================================================

/// A lower-case hexadecimal digit.
pub open spec fn is_lower_hex(c: char) -> bool {
    ('0' <= c <= '9') || ('a' <= c <= 'f')
}

/// The text of a random (version 4) UUID in hyphenated lower-case form:
/// 36 characters, hyphens at 8, 13, 18 and 23, hexadecimal digits elsewhere,
/// the version digit 4 at 14 and a variant digit 8, 9, a or b at 19.
pub open spec fn is_v4_uuid_text(s: Seq<char>) -> bool {
    &&& s.len() == 36
    &&& forall|i: int|
        0 <= i < 36 ==> if i == 8 || i == 13 || i == 18 || i == 23 {
            #[trigger] s[i] == '-'
        } else {
            is_lower_hex(s[i])
        }
    &&& s[14] == '4'
    &&& (s[19] == '8' || s[19] == '9' || s[19] == 'a' || s[19] == 'b')
}

/// The lower-case hexadecimal digit for `n` (below 16).
pub open spec fn hex_char(n: int) -> char {
    if n < 10 {
        crate::text::digit_char(n)
    } else if n == 10 {
        'a'
    } else if n == 11 {
        'b'
    } else if n == 12 {
        'c'
    } else if n == 13 {
        'd'
    } else if n == 14 {
        'e'
    } else {
        'f'
    }
}

/// Byte `i` of a random UUID made from the bytes `b`: byte 6 keeps its low
/// four bits under the version 4, byte 8 keeps its low six bits under the
/// variant bits 10, the others are kept.
pub open spec fn v4_byte(b: Seq<u8>, i: int) -> u8 {
    if i == 6 {
        (b[6] & 0x0f) | 0x40
    } else if i == 8 {
        (b[8] & 0x3f) | 0x80
    } else {
        b[i]
    }
}

/// The hyphenated lower-case text of the random (version 4) UUID made from
/// the 16 bytes `b`: two hexadecimal digits per byte, high digit first, in
/// groups of 4, 2, 2, 2 and 6 bytes separated by hyphens.
pub open spec fn v4_uuid_text(b: Seq<u8>) -> Seq<char> {
    seq![
        hex_char(v4_byte(b, 0) as int / 16),
        hex_char(v4_byte(b, 0) as int % 16),
        hex_char(v4_byte(b, 1) as int / 16),
        hex_char(v4_byte(b, 1) as int % 16),
        hex_char(v4_byte(b, 2) as int / 16),
        hex_char(v4_byte(b, 2) as int % 16),
        hex_char(v4_byte(b, 3) as int / 16),
        hex_char(v4_byte(b, 3) as int % 16),
        '-',
        hex_char(v4_byte(b, 4) as int / 16),
        hex_char(v4_byte(b, 4) as int % 16),
        hex_char(v4_byte(b, 5) as int / 16),
        hex_char(v4_byte(b, 5) as int % 16),
        '-',
        hex_char(v4_byte(b, 6) as int / 16),
        hex_char(v4_byte(b, 6) as int % 16),
        hex_char(v4_byte(b, 7) as int / 16),
        hex_char(v4_byte(b, 7) as int % 16),
        '-',
        hex_char(v4_byte(b, 8) as int / 16),
        hex_char(v4_byte(b, 8) as int % 16),
        hex_char(v4_byte(b, 9) as int / 16),
        hex_char(v4_byte(b, 9) as int % 16),
        '-',
        hex_char(v4_byte(b, 10) as int / 16),
        hex_char(v4_byte(b, 10) as int % 16),
        hex_char(v4_byte(b, 11) as int / 16),
        hex_char(v4_byte(b, 11) as int % 16),
        hex_char(v4_byte(b, 12) as int / 16),
        hex_char(v4_byte(b, 12) as int % 16),
        hex_char(v4_byte(b, 13) as int / 16),
        hex_char(v4_byte(b, 13) as int % 16),
        hex_char(v4_byte(b, 14) as int / 16),
        hex_char(v4_byte(b, 14) as int % 16),
        hex_char(v4_byte(b, 15) as int / 16),
        hex_char(v4_byte(b, 15) as int % 16),
    ]
}

/// The text of every random UUID has the version 4 format.
pub proof fn lemma_v4_uuid_format(b: Seq<u8>)
    requires
        b.len() == 16,
    ensures
        is_v4_uuid_text(v4_uuid_text(b)),
{
    let t = v4_uuid_text(b);
    assert forall|n: int| 0 <= n < 16 implies is_lower_hex(#[trigger] hex_char(n)) by {
    }
    assert forall|i: int| 0 <= i < 16 implies 0 <= #[trigger] v4_byte(b, i) as int / 16 < 16 && 0 <= v4_byte(b, i) as int % 16 < 16 by {
    }
    let x6 = b[6];
    let x8 = b[8];
    assert(((x6 & 0x0f) | 0x40) / 16 == 4) by (bit_vector);
    assert(((x8 & 0x3f) | 0x80) / 16 == 8 || ((x8 & 0x3f) | 0x80) / 16 == 9 || ((x8 & 0x3f) | 0x80) / 16 == 10
        || ((x8 & 0x3f) | 0x80) / 16 == 11) by (bit_vector);
    assert forall|i: int| 0 <= i < 36 implies if i == 8 || i == 13 || i == 18 || i == 23 {
        #[trigger] t[i] == '-'
    } else {
        is_lower_hex(t[i])
    } by {
        assert(0 <= v4_byte(b, 0) as int / 16 < 16 && 0 <= v4_byte(b, 0) as int % 16 < 16);
    }
}

/// Sixteen bytes from the operating system's random source
/// (`getrandom::fill`), or none when the source gives none. Which bytes come
/// out depends on chance: nothing is stated of them.
#[verifier::external_body]
fn random_bytes() -> Option<[u8; 16]> {
    let mut bytes = [0u8; 16];
    match getrandom::fill(&mut bytes) {
        Ok(()) => Some(bytes),
        Err(_) => None,
    }
}

/// The text of the random UUID made from `bytes`
/// (`uuid::Builder::from_random_bytes`, `into_uuid`, rendered with
/// `to_string`): the builder sets the version and variant bits, and
/// `Display` writes the hyphenated lower-case hexadecimal form.
#[verifier::external_body]
fn uuid_text(bytes: [u8; 16]) -> (r: String)
    ensures
        r@ == v4_uuid_text(bytes@),
{
    uuid::Builder::from_random_bytes(bytes).into_uuid().to_string()
}

/// A fresh random identifier in the version 4 UUID format, or none when the
/// operating system gives no random bytes.
fn new_backup_id() -> (id: Option<String>)
    ensures
        id matches Some(s) ==> is_v4_uuid_text(s@) && exists|b: Seq<u8>| b.len() == 16 && s@ == v4_uuid_text(b),
{
    match random_bytes() {
        Some(bytes) => {
            let s = uuid_text(bytes);
            proof {
                lemma_v4_uuid_format(bytes@);
            }
            Some(s)
        },
        None => None,
    }
}

/// Backup entry
#[derive(Debug)]
pub struct BackupEntry {
    /// Backup ID
    pub id: String,
    /// Original file path
    pub original_path: String,
    /// Backup file path
    pub backup_path: String,
    /// Backup timestamp
    pub timestamp: std::time::SystemTime,
}

impl BackupEntry {
    /// Create new backup entry with a fresh random identifier, or none when
    /// the operating system gives no random bytes for it.
    pub fn new(original_path: String, backup_path: String) -> (r: Option<Self>)
        ensures
            r matches Some(e) ==> {
                &&& is_v4_uuid_text(e.id@)
                &&& e.original_path == original_path
                &&& e.backup_path == backup_path
            },
    {
        match new_backup_id() {
            Some(id) => Some(BackupEntry {
                id,
                original_path,
                backup_path,
                timestamp: crate::clock::system_time_now(),
            }),
            None => None,
        }
    }
}

/// The index of the first entry of `bs` with identifier `id`, or the length
/// when there is none.
pub open spec fn first_backup_with(bs: Seq<BackupEntry>, id: Seq<char>) -> int
    decreases bs.len(),
{
    if bs.len() == 0 {
        0
    } else if bs[0].id@ == id {
        0
    } else {
        1 + first_backup_with(bs.drop_first(), id)
    }
}

/// The path of the backup of `original` in `dir`: the original's file name
/// (empty when it has none) followed by "_backup", joined to the directory
/// with a separator unless the directory is empty or already ends with one.
pub open spec fn backup_path(dir: Seq<char>, original: Seq<char>) -> Seq<char> {
    let name = match file_name(original) {
        Some(n) => n,
        None => Seq::<char>::empty(),
    } + "_backup"@;
    if dir.len() > 0 && dir.last() != '/' {
        dir + seq!['/'] + name
    } else {
        dir + name
    }
}

/// Backup and recovery manager
#[derive(Debug)]
pub struct BackupManager {
    /// Backup entries
    pub backups: Vec<BackupEntry>,
    /// Backup directory
    pub backup_dir: String,
}

impl BackupManager {
    /// Create new backup manager
    pub fn new(backup_dir: String) -> (m: Self)
        ensures
            m.backups@.len() == 0,
            m.backup_dir == backup_dir,
    {
        BackupManager { backups: Vec::new(), backup_dir }
    }

    /// Where a backup of `original` is written: in the backup directory,
    /// named after the original's file name (empty when it has none) with
    /// "_backup" appended.
    pub fn backup_path_for(&self, original: &str) -> (r: String)
        ensures
            r@ == backup_path(self.backup_dir@, original@),
    {
        let mut r = self.backup_dir.clone();
        let dir = crate::text::chars_of(self.backup_dir.as_str());
        if dir.len() > 0 && dir[dir.len() - 1] != '/' {
            push_char(&mut r, '/');
        }
        match file_name_of(original) {
            Some(n) => push_str(&mut r, n.as_str()),
            None => {},
        }
        push_str(&mut r, "_backup");
        proof {
            reveal_strlit("_backup");
        }
        r
    }

    /// Record a backup that was made.
    pub fn record_backup(&mut self, entry: BackupEntry)
        ensures
            final(self).backups@ == old(self).backups@.push(entry),
            final(self).backup_dir == old(self).backup_dir,
    {
        self.backups.push(entry);
    }

    /// The backup that a restore with this identifier copies back: the first
    /// one with that identifier.
    pub fn find_backup(&self, backup_id: &str) -> (r: Option<&BackupEntry>)
        ensures
            ({
                let k = first_backup_with(self.backups@, backup_id@);
                &&& 0 <= k <= self.backups@.len()
                &&& k == self.backups@.len() ==> r is None
                &&& k < self.backups@.len() ==> r == Some(&self.backups@[k])
            }),
    {
        let target = crate::text::chars_of(backup_id);
        proof {
            lemma_first_backup(self.backups@, backup_id@);
        }
        let mut i: usize = 0;
        while i < self.backups.len()
            invariant
                i <= self.backups@.len(),
                target@ == backup_id@,
                forall|k: int| 0 <= k < i ==> self.backups@[k].id@ != backup_id@,
                0 <= first_backup_with(self.backups@, backup_id@) <= self.backups@.len(),
                first_backup_with(self.backups@, backup_id@) < self.backups@.len()
                    ==> self.backups@[first_backup_with(self.backups@, backup_id@)].id@ == backup_id@,
                forall|k: int|
                    0 <= k < first_backup_with(self.backups@, backup_id@) ==> self.backups@[k].id@ != backup_id@,
            decreases self.backups@.len() - i,
        {
            let id = crate::text::chars_of(self.backups[i].id.as_str());
            if crate::text::chars_equal(&id, &target) {
                return Some(&self.backups[i]);
            }
            i = i + 1;
        }
        None
    }
}

/// `first_backup_with` is an index at most the length, and names the first
/// match.
pub proof fn lemma_first_backup(bs: Seq<BackupEntry>, id: Seq<char>)
    ensures
        0 <= first_backup_with(bs, id) <= bs.len(),
        first_backup_with(bs, id) < bs.len() ==> bs[first_backup_with(bs, id)].id@ == id,
        forall|i: int| 0 <= i < first_backup_with(bs, id) ==> bs[i].id@ != id,
    decreases bs.len(),
{
    if bs.len() > 0 && bs[0].id@ != id {
        lemma_first_backup(bs.drop_first(), id);
        assert forall|i: int| 0 <= i < first_backup_with(bs, id) implies bs[i].id@ != id by {
            if i > 0 {
                assert(bs[i] == bs.drop_first()[i - 1]);
            }
        }
    }
}

// ============================================================================
// Templates
// ============================================================================

/// The placeholder for a template variable: its name in double braces.
pub open spec fn placeholder(name: Seq<char>) -> Seq<char> {
    seq!['{', '{'] + name + seq!['}', '}']
}

/// The variables as (name, value) texts.
pub open spec fn var_views(vars: Seq<(String, String)>) -> Seq<(Seq<char>, Seq<char>)> {
    vars.map_values(|p: (String, String)| (p.0@, p.1@))
}

/// The variables after `name` was set to `value`: an existing variable of
/// that name takes the value, otherwise the variable is added at the end.
pub open spec fn with_var(vars: Seq<(Seq<char>, Seq<char>)>, name: Seq<char>, value: Seq<char>) -> Seq<(Seq<char>, Seq<char>)> {
    let k = first_key(vars, name);
    if k < vars.len() {
        vars.update(k, (name, value))
    } else {
        vars.push((name, value))
    }
}

/// `content` with the placeholder of each variable replaced by its value,
/// one variable after the other in the order given.
pub open spec fn expanded(content: Seq<char>, vars: Seq<(Seq<char>, Seq<char>)>) -> Seq<char>
    decreases vars.len(),
{
    if vars.len() == 0 {
        content
    } else {
        expanded(replaced(content, placeholder(vars[0].0), vars[0].1), vars.drop_first())
    }
}

/// No two variables share a name.
pub open spec fn distinct_names(vars: Seq<(Seq<char>, Seq<char>)>) -> bool {
    forall|i: int, j: int| 0 <= i < j < vars.len() ==> vars[i].0 != vars[j].0
}


/// The value of the variable called `name`, if there is one.
pub open spec fn var_value(vars: Seq<(Seq<char>, Seq<char>)>, name: Seq<char>) -> Option<Seq<char>> {
    let k = first_key(vars, name);
    if 0 <= k < vars.len() {
        Some(vars[k].1)
    } else {
        None
    }
}

/// After a variable is set, it has the value it was set to, every other
/// variable keeps its value, and names stay distinct.
pub proof fn law_set_variable_then_value(
    vars: Seq<(Seq<char>, Seq<char>)>,
    name: Seq<char>,
    value: Seq<char>,
    other: Seq<char>,
)
    ensures
        var_value(with_var(vars, name, value), name) == Some(value),
        other != name ==> var_value(with_var(vars, name, value), other) == var_value(vars, other),
        distinct_names(vars) ==> distinct_names(with_var(vars, name, value)),
{
    lemma_first_key(vars, name);
    lemma_first_key(vars, other);
    let k = first_key(vars, name);
    let w = with_var(vars, name, value);
    lemma_first_key_unique(w, name, k);
    if other != name {
        let j = first_key(vars, other);
        let jw = if j < vars.len() { j } else { w.len() as int };
        if j < vars.len() {
            assert(j != k);
            assert(w[j] == vars[j]);
        }
        assert forall|i: int| 0 <= i < jw implies w[i].0 != other by {
            if i < vars.len() && i != k {
                assert(w[i] == vars[i]);
                assert(vars[i].0 != other);
            }
        }
        lemma_first_key_unique(w, other, jw);
    }
    if distinct_names(vars) {
        assert forall|i: int, j: int| 0 <= i < j < w.len() implies w[i].0 != w[j].0 by {
            if j == k || (k == vars.len() && j == vars.len()) {
                assert(vars[i].0 != name);
            } else if i == k {
                assert(vars[k].0 == name);
                assert(vars[i].0 != vars[j].0);
            } else {
                assert(vars[i].0 != vars[j].0);
            }
        }
    }
}

/// File template
#[derive(Debug)]
pub struct FileTemplate {
    /// Template ID
    pub id: String,
    /// Template name
    pub name: String,
    /// Template content
    pub content: String,
    /// Template variables, as (name, value) pairs with distinct names
    pub variables: Vec<(String, String)>,
}

impl FileTemplate {
    /// Create new template
    pub fn new(id: &str, name: &str, content: &str) -> (t: Self)
        ensures
            t.id@ == id@,
            t.name@ == name@,
            t.content@ == content@,
            t.variables@.len() == 0,
    {
        FileTemplate {
            id: id.to_owned(),
            name: name.to_owned(),
            content: content.to_owned(),
            variables: Vec::new(),
        }
    }

    /// Set variable
    pub fn set_variable(&mut self, name: &str, value: &str)
        ensures
            var_views(final(self).variables@) == with_var(var_views(old(self).variables@), name@, value@),
            final(self).id == old(self).id,
            final(self).name == old(self).name,
            final(self).content == old(self).content,
    {
        let target = crate::text::chars_of(name);
        let ghost vv = var_views(self.variables@);
        proof {
            lemma_first_key(vv, name@);
        }
        let mut i: usize = 0;
        while i < self.variables.len()
            invariant
                i <= self.variables@.len(),
                vv == var_views(self.variables@),
                target@ == name@,
                forall|k: int| 0 <= k < i ==> vv[k].0 != name@,
                0 <= first_key(vv, name@) <= vv.len(),
                first_key(vv, name@) < vv.len() ==> vv[first_key(vv, name@)].0 == name@,
                forall|k: int| 0 <= k < first_key(vv, name@) ==> vv[k].0 != name@,
                self.id == old(self).id,
                self.name == old(self).name,
                self.content == old(self).content,
                vv == var_views(old(self).variables@),
            decreases self.variables@.len() - i,
        {
            let key = crate::text::chars_of(self.variables[i].0.as_str());
            proof {
                assert(vv[i as int] == (self.variables@[i as int].0@, self.variables@[i as int].1@));
            }
            if crate::text::chars_equal(&key, &target) {
                proof {
                    assert(first_key(vv, name@) == i);
                }
                let entry = (name.to_owned(), value.to_owned());
                self.variables.set(i, entry);
                proof {
                    assert(var_views(self.variables@) =~= vv.update(i as int, (name@, value@)));
                }
                return;
            }
            i = i + 1;
        }
        proof {
            assert(first_key(vv, name@) == vv.len());
        }
        self.variables.push((name.to_owned(), value.to_owned()));
        proof {
            assert(var_views(self.variables@) =~= vv.push((name@, value@)));
        }
    }

    /// Expand template with variables
    pub fn expand(&self) -> (r: String)
        ensures
            r@ == expanded(self.content@, var_views(self.variables@)),
    {
        let ghost vv = var_views(self.variables@);
        let mut result = self.content.clone();
        let mut i: usize = 0;
        assert(vv.skip(0) == vv);
        while i < self.variables.len()
            invariant
                i <= self.variables@.len(),
                vv == var_views(self.variables@),
                expanded(self.content@, vv) == expanded(result@, vv.skip(i as int)),
            decreases self.variables@.len() - i,
        {
            proof {
                assert(vv.skip(i as int).drop_first() == vv.skip(i + 1));
            }
            let mut ph = String::new();
            push_str(&mut ph, "{{");
            push_str(&mut ph, self.variables[i].0.as_str());
            push_str(&mut ph, "}}");
            proof {
                reveal_strlit("{{");
                reveal_strlit("}}");
                assert(ph@ =~= placeholder(vv[i as int].0));
            }
            result = crate::text::replace_all_in(result.as_str(), ph.as_str(), self.variables[i].1.as_str());
            i = i + 1;
        }
        proof {
            assert(vv.skip(vv.len() as int).len() == 0);
        }
        result
    }
}

/// The index of the first template with identifier `id`, or the length when
/// there is none.
pub open spec fn first_template(ts: Seq<FileTemplate>, id: Seq<char>) -> int
    decreases ts.len(),
{
    if ts.len() == 0 {
        0
    } else if ts[0].id@ == id {
        0
    } else {
        1 + first_template(ts.drop_first(), id)
    }
}

/// `first_template` is an index at most the length, and names the first match.
pub proof fn lemma_first_template(ts: Seq<FileTemplate>, id: Seq<char>)
    ensures
        0 <= first_template(ts, id) <= ts.len(),
        first_template(ts, id) < ts.len() ==> ts[first_template(ts, id)].id@ == id,
        forall|i: int| 0 <= i < first_template(ts, id) ==> ts[i].id@ != id,
    decreases ts.len(),
{
    if ts.len() > 0 && ts[0].id@ != id {
        lemma_first_template(ts.drop_first(), id);
        assert forall|i: int| 0 <= i < first_template(ts, id) implies ts[i].id@ != id by {
            if i > 0 {
                assert(ts[i] == ts.drop_first()[i - 1]);
            }
        }
    }
}

/// The templates after `t` was added: it takes the place of a template with
/// the same identifier, or goes at the end.
pub open spec fn with_template(ts: Seq<FileTemplate>, t: FileTemplate) -> Seq<FileTemplate> {
    let k = first_template(ts, t.id@);
    if k < ts.len() {
        ts.update(k, t)
    } else {
        ts.push(t)
    }
}

/// An index that is at most the length, names a match when it is below the
/// length, and follows only non-matches is `first_template`.
proof fn lemma_first_template_unique(ts: Seq<FileTemplate>, id: Seq<char>, j: int)
    requires
        0 <= j <= ts.len(),
        j < ts.len() ==> ts[j].id@ == id,
        forall|i: int| 0 <= i < j ==> ts[i].id@ != id,
    ensures
        first_template(ts, id) == j,
    decreases ts.len(),
{
    if ts.len() > 0 && j > 0 {
        assert(ts[0].id@ != id);
        assert forall|i: int| 0 <= i < j - 1 implies ts.drop_first()[i].id@ != id by {
            assert(ts.drop_first()[i] == ts[i + 1]);
        }
        lemma_first_template_unique(ts.drop_first(), id, j - 1);
    }
}

/// The template that a lookup of `id` finds, if any.
pub open spec fn template_with(ts: Seq<FileTemplate>, id: Seq<char>) -> Option<FileTemplate> {
    let k = first_template(ts, id);
    if 0 <= k < ts.len() {
        Some(ts[k])
    } else {
        None
    }
}

/// A template that was just added is what a lookup of its identifier finds;
/// lookups of other identifiers find what they found before.
pub proof fn law_add_then_get_template(ts: Seq<FileTemplate>, t: FileTemplate, other: Seq<char>)
    ensures
        template_with(with_template(ts, t), t.id@) == Some(t),
        other != t.id@ ==> template_with(with_template(ts, t), other) == template_with(ts, other),
{
    lemma_first_template(ts, t.id@);
    lemma_first_template(ts, other);
    let k = first_template(ts, t.id@);
    let w = with_template(ts, t);
    lemma_first_template_unique(w, t.id@, k);
    if other != t.id@ {
        let j = first_template(ts, other);
        let jw = if j < ts.len() { j } else { w.len() as int };
        if j < ts.len() {
            assert(j != k);
            assert(w[j] == ts[j]);
        }
        assert forall|i: int| 0 <= i < jw implies w[i].id@ != other by {
            if i < ts.len() && i != k {
                assert(w[i] == ts[i]);
                assert(ts[i].id@ != other);
            }
        }
        lemma_first_template_unique(w, other, jw);
    }
}

/// Template library
#[derive(Debug)]
pub struct TemplateLibrary {
    /// Templates, with distinct identifiers
    pub templates: Vec<FileTemplate>,
}

impl TemplateLibrary {
    /// Create new template library
    pub fn new() -> (l: Self)
        ensures
            l.templates@.len() == 0,
    {
        TemplateLibrary { templates: Vec::new() }
    }

    /// The position of the first template with identifier `id`.
    fn position_of(&self, id: &str) -> (k: usize)
        ensures
            k == first_template(self.templates@, id@),
            k <= self.templates@.len(),
    {
        let target = crate::text::chars_of(id);
        proof {
            lemma_first_template(self.templates@, id@);
        }
        let mut i: usize = 0;
        while i < self.templates.len()
            invariant
                i <= self.templates@.len(),
                target@ == id@,
                forall|k: int| 0 <= k < i ==> self.templates@[k].id@ != id@,
                0 <= first_template(self.templates@, id@) <= self.templates@.len(),
                first_template(self.templates@, id@) < self.templates@.len()
                    ==> self.templates@[first_template(self.templates@, id@)].id@ == id@,
                forall|k: int|
                    0 <= k < first_template(self.templates@, id@) ==> self.templates@[k].id@ != id@,
            decreases self.templates@.len() - i,
        {
            let key = crate::text::chars_of(self.templates[i].id.as_str());
            if crate::text::chars_equal(&key, &target) {
                return i;
            }
            i = i + 1;
        }
        i
    }

    /// Add template
    pub fn add_template(&mut self, template: FileTemplate)
        ensures
            final(self).templates@ == with_template(old(self).templates@, template),
    {
        let k = self.position_of(template.id.as_str());
        if k < self.templates.len() {
            self.templates.set(k, template);
        } else {
            self.templates.push(template);
        }
    }

    /// Get template
    pub fn get_template(&self, id: &str) -> (t: Option<&FileTemplate>)
        ensures
            ({
                let k = first_template(self.templates@, id@);
                &&& k == self.templates@.len() ==> t is None
                &&& k < self.templates@.len() ==> t == Some(&self.templates@[k])
            }),
    {
        let k = self.position_of(id);
        if k < self.templates.len() {
            Some(&self.templates[k])
        } else {
            None
        }
    }

    /// List templates
    pub fn list_templates(&self) -> (v: Vec<&FileTemplate>)
        ensures
            v@.len() == self.templates@.len(),
            forall|i: int| 0 <= i < v@.len() ==> *v@[i] == self.templates@[i],
    {
        let mut v: Vec<&FileTemplate> = Vec::new();
        let mut i: usize = 0;
        while i < self.templates.len()
            invariant
                i <= self.templates@.len(),
                v@.len() == i,
                forall|k: int| 0 <= k < i ==> *v@[k] == self.templates@[k],
            decreases self.templates@.len() - i,
        {
            v.push(&self.templates[i]);
            i = i + 1;
        }
        v
    }
}

impl Default for TemplateLibrary {
    fn default() -> (l: Self)
        ensures
            l.templates@.len() == 0,
    {
        Self::new()
    }
}

} // verus!
