//! The image render engine's logic: target-directory validation,
//! whiteout-marker recognition, and the removal paths each layer's
//! whiteout entries demand. The filesystem work itself (extracting a
//! layer, deleting files) happens outside the crate, driven by the
//! removal lists computed here.

use vstd::prelude::*;
use vstd::string::StrSliceExecFns;
use vstd::string::StringExecFns;

use crate::strutil::{str_eq, str_starts_with};

verus! {

/// Why rendering was refused or aborted.
#[derive(Debug, PartialEq, Eq)]
pub enum RenderError {
    /// The target must be an absolute path to an existing directory.
    WrongTargetPath(String),
    /// An OS-level failure while decompressing, extracting or deleting.
    Io,
}

/// A Unix path is absolute exactly when it starts with `/`.
pub open spec fn spec_is_absolute(p: Seq<char>) -> bool {
    p.len() > 0 && p[0] == '/'
}

/// Is this path absolute?
pub fn path_is_absolute(p: &str) -> (r: bool)
    ensures
        r == spec_is_absolute(p@),
{
    if p.unicode_len() == 0 {
        false
    } else {
        p.get_char(0) == '/'
    }
}

/// The render pre-check: the target must be absolute, exist, and be a
/// directory; otherwise the path is handed back in the error.
pub fn check_target(path: &str, exists: bool, is_dir: bool) -> (r: Result<(), RenderError>)
    ensures
        r is Ok <==> spec_is_absolute(path@) && exists && is_dir,
        r is Err ==> (r->Err_0 matches RenderError::WrongTargetPath(p) && p@ == path@),
{
    if path_is_absolute(path) && exists && is_dir {
        Ok(())
    } else {
        Err(RenderError::WrongTargetPath(path.to_owned()))
    }
}

/// The whiteout prefix `.wh.`.
pub open spec fn wh_prefix() -> Seq<char> {
    seq!['.', 'w', 'h', '.']
}

/// The opaque-directory marker `.wh..wh..opq`.
pub open spec fn opaque_marker() -> Seq<char> {
    seq!['.', 'w', 'h', '.', '.', 'w', 'h', '.', '.', 'o', 'p', 'q']
}

/// Does the name carry the whiteout prefix?
pub open spec fn has_wh_prefix(s: Seq<char>) -> bool {
    s.len() >= 4 && s.subrange(0, 4) == wh_prefix()
}

/// The name with every leading whiteout prefix removed.
pub open spec fn strip_wh(s: Seq<char>) -> Seq<char>
    decreases s.len(),
{
    if has_wh_prefix(s) {
        strip_wh(s.subrange(4, s.len() as int))
    } else {
        s
    }
}

/// The index of the last occurrence of `c` in `s`, if any.
pub open spec fn rfind_idx(s: Seq<char>, c: char) -> Option<int>
    decreases s.len(),
{
    if s.len() == 0 {
        None
    } else if s.last() == c {
        Some(s.len() - 1)
    } else {
        rfind_idx(s.drop_last(), c)
    }
}

/// `rfind_idx` finds exactly the last occurrence.
pub proof fn lemma_rfind_idx(s: Seq<char>, c: char)
    ensures
        match rfind_idx(s, c) {
            Some(i) => 0 <= i < s.len() && s[i] == c && forall|j: int| i < j < s.len() ==> s[j] != c,
            None => forall|j: int| 0 <= j < s.len() ==> s[j] != c,
        },
    decreases s.len(),
{
    if s.len() > 0 && s.last() != c {
        lemma_rfind_idx(s.drop_last(), c);
        assert(forall|j: int| 0 <= j < s.len() - 1 ==> s[j] == s.drop_last()[j]);
    }
}

/// Everything before the last `/`, or empty when there is none.
pub open spec fn spec_parent(s: Seq<char>) -> Seq<char> {
    match rfind_idx(s, '/') {
        Some(i) => s.subrange(0, i),
        None => Seq::<char>::empty(),
    }
}

/// Everything after the last `/`, or the whole name when there is none.
pub open spec fn spec_basename(s: Seq<char>) -> Seq<char> {
    match rfind_idx(s, '/') {
        Some(i) => s.subrange(i + 1, s.len() as int),
        None => s,
    }
}

/// Find the last occurrence of `c` in `s`.
pub fn rfind_char(s: &str, c: char) -> (r: Option<usize>)
    ensures
        match r {
            Some(i) => rfind_idx(s@, c) == Some(i as int),
            None => rfind_idx(s@, c) is None,
        },
{
    proof {
        lemma_rfind_idx(s@, c);
    }
    let len = s.unicode_len();
    let mut i: usize = len;
    while i > 0
        invariant
            len == s@.len(),
            i <= len,
            forall|j: int| i <= j < len ==> s@[j] != c,
        decreases i,
    {
        i = i - 1;
        if s.get_char(i) == c {
            proof {
                lemma_rfind_idx(s@, c);
                match rfind_idx(s@, c) {
                    Some(k) => {
                        if k > i as int {
                            assert(s@[k] != c);
                        }
                        if k < i as int {
                            assert(s@[i as int] != c);
                        }
                        assert(k == i as int);
                    },
                    None => {
                        assert(s@[i as int] != c);
                    },
                }
            }
            return Some(i);
        }
    }
    None
}

/// Strip every leading `.wh.` from a name, as the renderer does when
/// it resolves which sibling a whiteout masks.
pub fn strip_whiteout_prefix(s: &str) -> (r: String)
    ensures
        r@ == strip_wh(s@),
    decreases s@.len(),
{
    proof {
        reveal_strlit(".wh.");
        assert(".wh."@ =~= wh_prefix());
    }
    if str_starts_with(s, ".wh.") {
        let rest = s.substring_char(4, s.unicode_len());
        proof {
            assert(rest@ =~= s@.subrange(4, s@.len() as int));
        }
        strip_whiteout_prefix(rest)
    } else {
        s.to_owned()
    }
}

/// The absolute path the renderer removes: the target directory, a
/// `.` component guarding against absolute entry names, the entry's
/// parent when it has one, and the name.
pub open spec fn spec_abs(target: Seq<char>, parent: Seq<char>, name: Seq<char>) -> Seq<char> {
    target + seq!['/', '.'] + (if parent.len() == 0 {
        Seq::<char>::empty()
    } else {
        seq!['/'] + parent
    }) + seq!['/'] + name
}

/// Build the absolute path under `target` for `name` inside `parent`.
pub fn join_under(target: &str, parent: &str, name: &str) -> (r: String)
    ensures
        r@ == spec_abs(target@, parent@, name@),
{
    let mut out = target.to_owned();
    out.append("/.");
    if parent.unicode_len() > 0 {
        out.append("/");
        out.append(parent);
    }
    out.append("/");
    out.append(name);
    proof {
        reveal_strlit("/.");
        reveal_strlit("/");
        assert("/."@ =~= seq!['/', '.']);
        assert("/"@ =~= seq!['/']);
        assert(out@ =~= spec_abs(target@, parent@, name@));
    }
    out
}

/// What one tar entry name demands to be removed after extraction: a
/// file whiteout `.wh.<X>` removes the masked sibling and then the
/// placeholder itself; the opaque marker removes its own placeholder
/// (the directory's inherited entries are computed separately, from a
/// snapshot: see `spec_opaque_removals`); plain entries remove
/// nothing.
pub open spec fn spec_entry_removals(target: Seq<char>, entry: Seq<char>) -> Seq<Seq<char>> {
    let base = spec_basename(entry);
    if base == opaque_marker() {
        seq![spec_abs(target, spec_parent(entry), base)]
    } else if has_wh_prefix(base) {
        seq![
            spec_abs(target, spec_parent(entry), strip_wh(base)),
            spec_abs(target, spec_parent(entry), base),
        ]
    } else {
        Seq::<Seq<char>>::empty()
    }
}

/// Split an entry name at its last `/` into parent and basename.
pub fn split_entry(entry: &str) -> (r: (String, String))
    ensures
        r.0@ == spec_parent(entry@),
        r.1@ == spec_basename(entry@),
{
    proof {
        lemma_rfind_idx(entry@, '/');
    }
    let len = entry.unicode_len();
    match rfind_char(entry, '/') {
        Some(i) => {
            let p = entry.substring_char(0, i);
            let b = entry.substring_char(i + 1, len);
            (p.to_owned(), b.to_owned())
        },
        None => {
            let p = entry.substring_char(0, 0);
            proof {
                assert(p@ =~= Seq::<char>::empty());
                assert(entry@.subrange(0, entry@.len() as int) =~= entry@);
            }
            let b = entry.substring_char(0, len);
            (p.to_owned(), b.to_owned())
        },
    }
}

/// Append the removal paths one entry demands, in order.
fn append_entry_removals(target: &str, entry: &str, out: &mut Vec<String>)
    ensures
        final(out).deep_view() == old(out).deep_view() + spec_entry_removals(target@, entry@),
{
    let (parent, base) = split_entry(entry);
    proof {
        reveal_strlit(".wh..wh..opq");
        assert(".wh..wh..opq"@ =~= opaque_marker());
        reveal_strlit(".wh.");
        assert(".wh."@ =~= wh_prefix());
    }
    let ghost out0 = out.deep_view();
    if str_eq(base.as_str(), ".wh..wh..opq") {
        let wh_path = join_under(target, parent.as_str(), base.as_str());
        out.push(wh_path);
        proof {
            assert(out.deep_view() =~= out0 + spec_entry_removals(target@, entry@));
        }
    } else if str_starts_with(base.as_str(), ".wh.") {
        let masked = strip_whiteout_prefix(base.as_str());
        let masked_path = join_under(target, parent.as_str(), masked.as_str());
        let wh_path = join_under(target, parent.as_str(), base.as_str());
        out.push(masked_path);
        out.push(wh_path);
        proof {
            assert(out.deep_view() =~= out0 + spec_entry_removals(target@, entry@));
        }
    } else {
        proof {
            assert(out.deep_view() =~= out0 + spec_entry_removals(target@, entry@));
        }
    }
}

/// The removal paths one entry demands, in order.
pub fn entry_removals(target: &str, entry: &str) -> (r: Vec<String>)
    ensures
        r.deep_view() == spec_entry_removals(target@, entry@),
{
    let mut out: Vec<String> = Vec::new();
    append_entry_removals(target, entry, &mut out);
    proof {
        assert(Seq::<Seq<char>>::empty() + spec_entry_removals(target@, entry@)
            =~= spec_entry_removals(target@, entry@));
    }
    out
}

/// The removal paths a whole layer's entry names demand, in entry
/// order.
pub open spec fn spec_removals(target: Seq<char>, entries: Seq<Seq<char>>) -> Seq<Seq<char>>
    decreases entries.len(),
{
    if entries.len() == 0 {
        Seq::<Seq<char>>::empty()
    } else {
        spec_removals(target, entries.drop_last()) + spec_entry_removals(target, entries.last())
    }
}

/// Compute, in order, every path the layer's whiteout entries demand
/// to be removed after the layer is extracted.
pub fn whiteout_removals(target: &str, names: &Vec<String>) -> (r: Vec<String>)
    ensures
        r.deep_view() == spec_removals(target@, names.deep_view()),
{
    let mut out: Vec<String> = Vec::new();
    let mut i: usize = 0;
    while i < names.len()
        invariant
            i <= names@.len(),
            out.deep_view() == spec_removals(target@, names.deep_view().take(i as int)),
        decreases names@.len() - i,
    {
        append_entry_removals(target, names[i].as_str(), &mut out);
        proof {
            assert(names.deep_view().take(i + 1).drop_last() =~= names.deep_view().take(i as int));
            assert(names.deep_view().take(i + 1).last() == names@[i as int]@);
            assert(out.deep_view() =~= spec_removals(target@, names.deep_view().take(i + 1)));
        }
        i = i + 1;
    }
    proof {
        assert(names.deep_view().take(names@.len() as int) =~= names.deep_view());
    }
    out
}

/// Is `path` the same as `prefix`, or strictly below it (its next
/// character after the prefix being a path separator)?
pub open spec fn spec_under_prefix(path: Seq<char>, prefix: Seq<char>) -> bool {
    path == prefix || (prefix.len() < path.len() && path.subrange(0, prefix.len() as int)
        == prefix && path[prefix.len() as int] == '/')
}

/// Does `path` name `prefix` itself or something under it?
pub fn entry_under_prefix(path: &str, prefix: &str) -> (r: bool)
    ensures
        r == (path@ == prefix@ || (prefix@.len() < path@.len() && path@.subrange(
            0,
            prefix@.len() as int,
        ) == prefix@ && path@[prefix@.len() as int] == '/')),
{
    let plen = prefix.unicode_len();
    let len = path.unicode_len();
    if len == plen {
        str_eq(path, prefix)
    } else if plen < len {
        str_starts_with(path, prefix) && path.get_char(plen) == '/'
    } else {
        false
    }
}

/// The entry name of `child` directly inside `dir`.
pub open spec fn spec_dir_child(dir: Seq<char>, child: Seq<char>) -> Seq<char> {
    if dir.len() == 0 {
        child
    } else {
        dir + seq!['/'] + child
    }
}

/// Does some entry of the layer (re)introduce `child` of `dir` — name
/// it, or name something under it?
pub open spec fn spec_layer_introduces(names: Seq<Seq<char>>, dir: Seq<char>, child: Seq<char>) -> bool {
    exists|i: int|
        0 <= i < names.len() && spec_under_prefix(names[i], spec_dir_child(dir, child))
}

fn dir_child(dir: &str, child: &str) -> (r: String)
    ensures
        r@ == spec_dir_child(dir@, child@),
{
    if dir.unicode_len() == 0 {
        child.to_owned()
    } else {
        let mut out = dir.to_owned();
        out.append("/");
        out.append(child);
        proof {
            reveal_strlit("/");
            assert("/"@ =~= seq!['/']);
        }
        out
    }
}

/// Does some entry of the layer (re)introduce `child` of `dir`?
pub fn layer_introduces(names: &Vec<String>, dir: &str, child: &str) -> (r: bool)
    ensures
        r == spec_layer_introduces(names.deep_view(), dir@, child@),
{
    let p = dir_child(dir, child);
    let mut i: usize = 0;
    while i < names.len()
        invariant
            i <= names@.len(),
            p@ == spec_dir_child(dir@, child@),
            forall|k: int|
                0 <= k < i ==> !spec_under_prefix(
                    #[trigger] names.deep_view()[k],
                    spec_dir_child(dir@, child@),
                ),
        decreases names@.len() - i,
    {
        proof {
            assert(names.deep_view()[i as int] == names@[i as int]@);
        }
        if entry_under_prefix(names[i].as_str(), p.as_str()) {
            return true;
        }
        i = i + 1;
    }
    false
}

/// The directories whose inherited contents the layer's opaque
/// markers mask, in entry order.
pub open spec fn spec_opaque_dirs(names: Seq<Seq<char>>) -> Seq<Seq<char>>
    decreases names.len(),
{
    if names.len() == 0 {
        Seq::<Seq<char>>::empty()
    } else {
        spec_opaque_dirs(names.drop_last()) + (if spec_basename(names.last())
            == opaque_marker() {
            seq![spec_parent(names.last())]
        } else {
            Seq::<Seq<char>>::empty()
        })
    }
}

/// List the directories the layer marks opaque. The caller snapshots
/// each one's direct children before extracting the layer, and hands
/// snapshot and entry names to `opaque_removals` afterwards.
pub fn opaque_dirs(names: &Vec<String>) -> (r: Vec<String>)
    ensures
        r.deep_view() == spec_opaque_dirs(names.deep_view()),
{
    let mut out: Vec<String> = Vec::new();
    let mut i: usize = 0;
    while i < names.len()
        invariant
            i <= names@.len(),
            out.deep_view() == spec_opaque_dirs(names.deep_view().take(i as int)),
        decreases names@.len() - i,
    {
        let (parent, base) = split_entry(names[i].as_str());
        proof {
            reveal_strlit(".wh..wh..opq");
            assert(".wh..wh..opq"@ =~= opaque_marker());
        }
        let ghost out0 = out.deep_view();
        if str_eq(base.as_str(), ".wh..wh..opq") {
            out.push(parent);
        }
        proof {
            assert(names.deep_view().take(i + 1).drop_last() =~= names.deep_view().take(i as int));
            assert(names.deep_view().take(i + 1).last() == names@[i as int]@);
            assert(out.deep_view() =~= spec_opaque_dirs(names.deep_view().take(i + 1)));
        }
        i = i + 1;
    }
    proof {
        assert(names.deep_view().take(names@.len() as int) =~= names.deep_view());
    }
    out
}

/// What an opaque marker in `dir` demands to be removed: every child
/// in the pre-layer snapshot of `dir` that no entry of the layer
/// (re)introduces, in snapshot order. Entries of this and later
/// layers stay; everything inherited goes.
pub open spec fn spec_opaque_removals(
    target: Seq<char>,
    dir: Seq<char>,
    snapshot: Seq<Seq<char>>,
    names: Seq<Seq<char>>,
) -> Seq<Seq<char>>
    decreases snapshot.len(),
{
    if snapshot.len() == 0 {
        Seq::<Seq<char>>::empty()
    } else {
        spec_opaque_removals(target, dir, snapshot.drop_last(), names) + (if spec_layer_introduces(
            names,
            dir,
            snapshot.last(),
        ) {
            Seq::<Seq<char>>::empty()
        } else {
            seq![spec_abs(target, dir, snapshot.last())]
        })
    }
}

/// Compute the removal paths an opaque marker in `dir` demands, given
/// the directory's direct children before the layer was extracted and
/// the layer's entry names.
pub fn opaque_removals(target: &str, dir: &str, snapshot: &Vec<String>, names: &Vec<String>) -> (r:
    Vec<String>)
    ensures
        r.deep_view() == spec_opaque_removals(
            target@,
            dir@,
            snapshot.deep_view(),
            names.deep_view(),
        ),
{
    let mut out: Vec<String> = Vec::new();
    let mut i: usize = 0;
    while i < snapshot.len()
        invariant
            i <= snapshot@.len(),
            out.deep_view() == spec_opaque_removals(
                target@,
                dir@,
                snapshot.deep_view().take(i as int),
                names.deep_view(),
            ),
        decreases snapshot@.len() - i,
    {
        let ghost out0 = out.deep_view();
        if !layer_introduces(names, dir, snapshot[i].as_str()) {
            let p = join_under(target, dir, snapshot[i].as_str());
            out.push(p);
        }
        proof {
            assert(snapshot.deep_view().take(i + 1).drop_last() =~= snapshot.deep_view().take(
                i as int,
            ));
            assert(snapshot.deep_view().take(i + 1).last() == snapshot@[i as int]@);
            assert(out.deep_view() =~= spec_opaque_removals(
                target@,
                dir@,
                snapshot.deep_view().take(i + 1),
                names.deep_view(),
            ));
        }
        i = i + 1;
    }
    proof {
        assert(snapshot.deep_view().take(snapshot@.len() as int) =~= snapshot.deep_view());
    }
    out
}

/// What inflating a gzip stream yields, or nothing when the stream is
/// not valid gzip. The value is fixed by the bytes alone; the libflate
/// crate computes it.
pub uninterp spec fn gunzip_of(data: Seq<u8>) -> Option<Seq<u8>>;

/// Relies on libflate's `gzip::Decoder`: inflate a whole in-memory
/// gzip stream; a stream the decoder rejects yields an I/O error.
#[verifier::external_body]
fn gunzip(data: &[u8]) -> (r: Result<Vec<u8>, RenderError>)
    ensures
        r is Ok <==> gunzip_of(data@) is Some,
        r is Ok ==> r->Ok_0@ == gunzip_of(data@)->0,
        r is Err ==> r->Err_0 == RenderError::Io,
{
    let mut dec = libflate::gzip::Decoder::new(data).map_err(|_| RenderError::Io)?;
    let mut out = Vec::new();
    std::io::Read::read_to_end(&mut dec, &mut out).map_err(|_| RenderError::Io)?;
    Ok(out)
}

/// What the entry names of an in-memory tar archive are, in archive
/// order (undecodable bytes replaced, as the tar crate's lossy path
/// rendering does), or nothing when the archive is malformed. The
/// value is fixed by the bytes alone; the tar crate computes it.
pub uninterp spec fn tar_names_of(data: Seq<u8>) -> Option<Seq<Seq<char>>>;

/// Relies on tar's `Archive`: walk an archive held wholly in memory
/// and hand out each entry's path; a malformed archive yields an I/O
/// error.
#[verifier::external_body]
fn tar_entry_names(data: &[u8]) -> (r: Result<Vec<String>, RenderError>)
    ensures
        r is Ok <==> tar_names_of(data@) is Some,
        r is Ok ==> r->Ok_0.deep_view() == tar_names_of(data@)->0,
        r is Err ==> r->Err_0 == RenderError::Io,
{
    let mut archive = tar::Archive::new(data);
    let mut names = Vec::new();
    for entry in archive.entries().map_err(|_| RenderError::Io)? {
        let entry = entry.map_err(|_| RenderError::Io)?;
        let path = entry.path().map_err(|_| RenderError::Io)?;
        names.push(path.to_string_lossy().into_owned());
    }
    Ok(names)
}

/// Decode one gzipped tar layer and compute, in order, every path its
/// whiteout entries demand to be removed after the layer is extracted
/// into `target`.
pub fn layer_whiteout_removals(layer: &[u8], target: &str) -> (r: Result<Vec<String>, RenderError>)
    ensures
        r is Ok <==> gunzip_of(layer@) is Some && tar_names_of(gunzip_of(layer@)->0) is Some,
        r is Ok ==> r->Ok_0.deep_view() == spec_removals(
            target@,
            tar_names_of(gunzip_of(layer@)->0)->0,
        ),
        r is Err ==> r->Err_0 == RenderError::Io,
{
    let names = match layer_entry_names(layer) {
        Ok(n) => n,
        Err(e) => {
            return Err(e);
        },
    };
    Ok(whiteout_removals(target, &names))
}

/// Decode one gzipped tar layer and list its entry names, in archive
/// order.
pub fn layer_entry_names(layer: &[u8]) -> (r: Result<Vec<String>, RenderError>)
    ensures
        r is Ok <==> gunzip_of(layer@) is Some && tar_names_of(gunzip_of(layer@)->0) is Some,
        r is Ok ==> r->Ok_0.deep_view() == tar_names_of(gunzip_of(layer@)->0)->0,
        r is Err ==> r->Err_0 == RenderError::Io,
{
    let tar_bytes = match gunzip(layer) {
        Ok(b) => b,
        Err(e) => {
            return Err(e);
        },
    };
    tar_entry_names(tar_bytes.as_slice())
}

/// A rendered directory, modeled as a map from path to file content;
/// extracting a layer's entries writes each in archive order, later
/// entries overwriting earlier ones.
pub open spec fn spec_apply_entries(
    dir: Map<Seq<char>, Seq<u8>>,
    entries: Seq<(Seq<char>, Seq<u8>)>,
) -> Map<Seq<char>, Seq<u8>>
    decreases entries.len(),
{
    if entries.len() == 0 {
        dir
    } else {
        spec_apply_entries(dir, entries.drop_last()).insert(
            entries.last().0,
            entries.last().1,
        )
    }
}

/// Deleting the computed whiteout paths, in order.
pub open spec fn spec_apply_removals(
    dir: Map<Seq<char>, Seq<u8>>,
    removals: Seq<Seq<char>>,
) -> Map<Seq<char>, Seq<u8>>
    decreases removals.len(),
{
    if removals.len() == 0 {
        dir
    } else {
        spec_apply_removals(dir, removals.drop_last()).remove(removals.last())
    }
}

/// The content of the last entry writing to path `k`, if any entry
/// does.
pub open spec fn spec_last_write(entries: Seq<(Seq<char>, Seq<u8>)>, k: Seq<char>) -> Option<
    Seq<u8>,
>
    decreases entries.len(),
{
    if entries.len() == 0 {
        None
    } else if entries.last().0 == k {
        Some(entries.last().1)
    } else {
        spec_last_write(entries.drop_last(), k)
    }
}

/// Entry order decides: after extracting a layer's entries over `dir`,
/// a path holds the content of the last entry that wrote to it, and a
/// path no entry wrote keeps what it had.
pub proof fn lemma_last_write_wins(
    dir: Map<Seq<char>, Seq<u8>>,
    entries: Seq<(Seq<char>, Seq<u8>)>,
    k: Seq<char>,
)
    ensures
        spec_apply_entries(dir, entries).dom().contains(k) <==> (spec_last_write(entries, k)
            is Some || dir.dom().contains(k)),
        match spec_last_write(entries, k) {
            Some(v) => spec_apply_entries(dir, entries)[k] == v,
            None => dir.dom().contains(k) ==> spec_apply_entries(dir, entries)[k] == dir[k],
        },
    decreases entries.len(),
{
    if entries.len() > 0 {
        lemma_last_write_wins(dir, entries.drop_last(), k);
    }
}

/// Layer ordering: when a layer writing `X` to path `a` is followed by
/// a layer writing `Y` to the same path, the rendered directory holds
/// `Y` there — and any path the later layer leaves alone keeps what
/// the earlier layers gave it.
pub proof fn lemma_layer_ordering(
    dir: Map<Seq<char>, Seq<u8>>,
    a: Seq<char>,
    x: Seq<u8>,
    y: Seq<u8>,
)
    ensures
        spec_apply_entries(spec_apply_entries(dir, seq![(a, x)]), seq![(a, y)])[a] == y,
        spec_apply_entries(spec_apply_entries(dir, seq![(a, x)]), seq![(a, y)]).dom().contains(a),
{
    assert(seq![(a, x)].drop_last() =~= Seq::<(Seq<char>, Seq<u8>)>::empty());
    assert(seq![(a, y)].drop_last() =~= Seq::<(Seq<char>, Seq<u8>)>::empty());
}

/// File whiteout: a root-level entry `.wh.<X>` makes the renderer
/// remove both the masked sibling `X` and the placeholder itself, so
/// neither remains in the rendered directory.
pub proof fn lemma_file_whiteout(dir: Map<Seq<char>, Seq<u8>>, target: Seq<char>, x: Seq<char>)
    requires
        !has_wh_prefix(x),
        rfind_idx(wh_prefix() + x, '/') is None,
        wh_prefix() + x != opaque_marker(),
    ensures
        ({
            let entry = wh_prefix() + x;
            let emptyp = Seq::<char>::empty();
            let rs = spec_entry_removals(target, entry);
            let rendered = spec_apply_removals(dir, rs);
            &&& rs =~= seq![spec_abs(target, emptyp, x), spec_abs(target, emptyp, entry)]
            &&& !rendered.dom().contains(spec_abs(target, emptyp, x))
            &&& !rendered.dom().contains(spec_abs(target, emptyp, entry))
        }),
{
    let entry = wh_prefix() + x;
    assert(spec_basename(entry) == entry);
    assert(spec_parent(entry) =~= Seq::<char>::empty());
    assert(entry.subrange(0, 4) =~= wh_prefix());
    assert(has_wh_prefix(entry));
    assert(entry.subrange(4, entry.len() as int) =~= x);
    assert(strip_wh(entry) == strip_wh(entry.subrange(4, entry.len() as int)));
    assert(strip_wh(x) == x);
    assert(strip_wh(entry) == x);
    let abs_x = spec_abs(target, Seq::<char>::empty(), x);
    let abs_e = spec_abs(target, Seq::<char>::empty(), entry);
    let rs = spec_entry_removals(target, entry);
    assert(rs =~= seq![abs_x, abs_e]);
    assert(rs.last() == abs_e);
    assert(rs.drop_last() =~= seq![abs_x]);
    assert(seq![abs_x].last() == abs_x);
    assert(seq![abs_x].drop_last() =~= Seq::<Seq<char>>::empty());
    assert(spec_apply_removals(dir, Seq::<Seq<char>>::empty()) == dir);
    assert(spec_apply_removals(dir, seq![abs_x]) == dir.remove(abs_x));
    assert(spec_apply_removals(dir, rs) == dir.remove(abs_x).remove(abs_e));
    assert(!dir.remove(abs_x).remove(abs_e).dom().contains(abs_x));
    assert(!dir.remove(abs_x).remove(abs_e).dom().contains(abs_e));
}

/// Appending different suffixes to one prefix gives different strings.
proof fn lemma_append_cancels(p: Seq<char>, n1: Seq<char>, n2: Seq<char>)
    requires
        n1 != n2,
    ensures
        p + n1 != p + n2,
{
    if p + n1 == p + n2 {
        assert((p + n1).len() == (p + n2).len());
        assert forall|i: int| 0 <= i < n1.len() implies n1[i] == n2[i] by {
            assert((p + n1)[p.len() + i] == n1[i]);
            assert((p + n2)[p.len() + i] == n2[i]);
        }
        assert(n1 =~= n2);
    }
}

/// Different names inside the same directory give different removal
/// paths.
proof fn lemma_abs_distinct(target: Seq<char>, parent: Seq<char>, n1: Seq<char>, n2: Seq<char>)
    requires
        n1 != n2,
    ensures
        spec_abs(target, parent, n1) != spec_abs(target, parent, n2),
{
    let stem = target + seq!['/', '.'] + (if parent.len() == 0 {
        Seq::<char>::empty()
    } else {
        seq!['/'] + parent
    }) + seq!['/'];
    assert(spec_abs(target, parent, n1) =~= stem + n1);
    assert(spec_abs(target, parent, n2) =~= stem + n2);
    lemma_append_cancels(stem, n1, n2);
}

/// The basename of `parent + '/' + name` is `name` and its parent is
/// `parent`, when `name` holds no separator.
proof fn lemma_split_of_child(parent: Seq<char>, name: Seq<char>)
    requires
        forall|j: int| 0 <= j < name.len() ==> name[j] != '/',
    ensures
        spec_parent(parent + seq!['/'] + name) == parent,
        spec_basename(parent + seq!['/'] + name) == name,
{
    let e = parent + seq!['/'] + name;
    lemma_rfind_idx(e, '/');
    assert(e[parent.len() as int] == '/');
    assert forall|j: int| parent.len() < j < e.len() implies e[j] != '/' by {
        assert(e[j] == name[j - parent.len() - 1]);
    }
    match rfind_idx(e, '/') {
        Some(i) => {
            if i < parent.len() {
                assert(e[parent.len() as int] != '/');
            }
            if i > parent.len() {
                assert(e[i] != '/');
            }
            assert(i == parent.len());
            assert(e.subrange(0, parent.len() as int) =~= parent);
            assert(e.subrange(parent.len() as int + 1, e.len() as int) =~= name);
        },
        None => {
            assert(e[parent.len() as int] != '/');
        },
    }
}

/// A name without the whiteout prefix and without a separator names a
/// plain entry: it removes nothing.
proof fn lemma_plain_entry(target: Seq<char>, parent: Seq<char>, name: Seq<char>)
    requires
        forall|j: int| 0 <= j < name.len() ==> name[j] != '/',
        !has_wh_prefix(name),
    ensures
        spec_entry_removals(target, parent + seq!['/'] + name) == Seq::<Seq<char>>::empty(),
{
    lemma_split_of_child(parent, name);
    if name == opaque_marker() {
        assert(name.subrange(0, 4) =~= wh_prefix());
    }
}

/// Layer overlay: a base layer writes `x` and `y` inside a directory;
/// the next layer overwrites `y` and whites out `x`. After both
/// layers the rendered directory holds the later content of `y`,
/// while `x` and the whiteout placeholder are gone.
pub proof fn lemma_layer_overlay(
    dir0: Map<Seq<char>, Seq<u8>>,
    target: Seq<char>,
    parent: Seq<char>,
    x: Seq<char>,
    y: Seq<char>,
    content_a: Seq<u8>,
    content_b: Seq<u8>,
    content_s: Seq<u8>,
    marker: Seq<u8>,
)
    requires
        forall|j: int| 0 <= j < x.len() ==> x[j] != '/',
        forall|j: int| 0 <= j < y.len() ==> y[j] != '/',
        !has_wh_prefix(x),
        !has_wh_prefix(y),
        x != y,
    ensures
        ({
            let e_y = parent + seq!['/'] + y;
            let e_x = parent + seq!['/'] + x;
            let e_wh = parent + seq!['/'] + (wh_prefix() + x);
            let k_y = spec_abs(target, parent, y);
            let k_x = spec_abs(target, parent, x);
            let k_wh = spec_abs(target, parent, wh_prefix() + x);
            let base = spec_apply_removals(
                spec_apply_entries(dir0, seq![(k_y, content_a), (k_x, content_s)]),
                spec_removals(target, seq![e_y, e_x]),
            );
            let rendered = spec_apply_removals(
                spec_apply_entries(base, seq![(k_y, content_b), (k_wh, marker)]),
                spec_removals(target, seq![e_y, e_wh]),
            );
            &&& rendered.dom().contains(k_y)
            &&& rendered[k_y] == content_b
            &&& !rendered.dom().contains(k_x)
            &&& !rendered.dom().contains(k_wh)
        }),
{
    let e_y = parent + seq!['/'] + y;
    let e_x = parent + seq!['/'] + x;
    let e_wh = parent + seq!['/'] + (wh_prefix() + x);
    let k_y = spec_abs(target, parent, y);
    let k_x = spec_abs(target, parent, x);
    let k_wh = spec_abs(target, parent, wh_prefix() + x);
    let wx = wh_prefix() + x;

    // The base layer's two entries are plain: it removes nothing.
    lemma_plain_entry(target, parent, y);
    lemma_plain_entry(target, parent, x);
    let names0 = seq![e_y, e_x];
    assert(names0.drop_last() =~= seq![e_y]);
    assert(names0.last() == e_x);
    assert(seq![e_y].drop_last() =~= Seq::<Seq<char>>::empty());
    assert(seq![e_y].last() == e_y);
    assert(spec_removals(target, Seq::<Seq<char>>::empty()) =~= Seq::<Seq<char>>::empty());
    assert(spec_removals(target, seq![e_y]) =~= Seq::<Seq<char>>::empty());
    assert(spec_removals(target, names0) =~= Seq::<Seq<char>>::empty());

    // The upper layer's whiteout entry removes the masked sibling and
    // its own placeholder.
    assert forall|j: int| 0 <= j < wx.len() implies wx[j] != '/' by {
        if j >= 4 {
            assert(wx[j] == x[j - 4]);
        }
    }
    lemma_split_of_child(parent, y);
    lemma_split_of_child(parent, wx);
    assert(wx.subrange(0, 4) =~= wh_prefix());
    assert(has_wh_prefix(wx));
    if wx == opaque_marker() {
        assert(x =~= wx.subrange(4, wx.len() as int));
        assert(x.subrange(0, 4) =~= wh_prefix());
        assert(false);
    }
    assert(wx.subrange(4, wx.len() as int) =~= x);
    assert(strip_wh(wx) == strip_wh(wx.subrange(4, wx.len() as int)));
    assert(strip_wh(x) == x);
    assert(spec_entry_removals(target, e_wh) =~= seq![k_x, k_wh]);
    let names1 = seq![e_y, e_wh];
    assert(names1.drop_last() =~= seq![e_y]);
    assert(names1.last() == e_wh);
    assert(spec_removals(target, names1) =~= seq![k_x, k_wh]);

    // The keys are pairwise distinct.
    if y == wx {
        assert(y.subrange(0, 4) == wh_prefix());
    }
    lemma_abs_distinct(target, parent, y, x);
    lemma_abs_distinct(target, parent, y, wx);

    // Apply the base layer.
    let entries0 = seq![(k_y, content_a), (k_x, content_s)];
    assert(entries0.drop_last() =~= seq![(k_y, content_a)]);
    assert(entries0.last() == (k_x, content_s));
    assert(seq![(k_y, content_a)].drop_last() =~= Seq::<(Seq<char>, Seq<u8>)>::empty());
    assert(seq![(k_y, content_a)].last() == (k_y, content_a));
    assert(spec_apply_entries(dir0, Seq::<(Seq<char>, Seq<u8>)>::empty()) == dir0);
    assert(spec_apply_entries(dir0, seq![(k_y, content_a)]) == dir0.insert(k_y, content_a));
    let d1 = spec_apply_entries(dir0, entries0);
    assert(d1 == dir0.insert(k_y, content_a).insert(k_x, content_s));
    let base = spec_apply_removals(d1, spec_removals(target, names0));
    assert(base == d1);

    // Apply the upper layer.
    let entries1 = seq![(k_y, content_b), (k_wh, marker)];
    assert(entries1.drop_last() =~= seq![(k_y, content_b)]);
    assert(entries1.last() == (k_wh, marker));
    assert(seq![(k_y, content_b)].drop_last() =~= Seq::<(Seq<char>, Seq<u8>)>::empty());
    assert(seq![(k_y, content_b)].last() == (k_y, content_b));
    assert(spec_apply_entries(base, Seq::<(Seq<char>, Seq<u8>)>::empty()) == base);
    assert(spec_apply_entries(base, seq![(k_y, content_b)]) == base.insert(k_y, content_b));
    let d2 = spec_apply_entries(base, entries1);
    assert(d2 == base.insert(k_y, content_b).insert(k_wh, marker));
    let rs = spec_removals(target, names1);
    assert(rs.last() == k_wh);
    assert(rs.drop_last() =~= seq![k_x]);
    assert(seq![k_x].drop_last() =~= Seq::<Seq<char>>::empty());
    assert(seq![k_x].last() == k_x);
    assert(spec_apply_removals(d2, Seq::<Seq<char>>::empty()) == d2);
    assert(spec_apply_removals(d2, seq![k_x]) == d2.remove(k_x));
    let rendered = spec_apply_removals(d2, rs);
    assert(rendered == d2.remove(k_x).remove(k_wh));
    assert(rendered.dom().contains(k_y));
    assert(rendered[k_y] == content_b);
}

} // verus!
