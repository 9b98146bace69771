//! Where the converted glTF goes: a binary `.glb` container, or a `.gltf`
//! JSON file with its buffer in a `.bin` file of the same name beside it.

use vstd::prelude::*;
use std::path::Path;
use vstd::string::StringSliceAdditionalSpecFns;
use vstd::string::StringExecFns;

verus! {

/// `b` in lower case, when it is an ASCII capital letter.
pub open spec fn ascii_lower(b: u8) -> u8 {
    if 0x41 <= b <= 0x5a {
        (b + 0x20) as u8
    } else {
        b
    }
}

/// Whether two byte strings are equal up to ASCII case.
pub open spec fn eq_ignore_ascii_case(a: Seq<u8>, b: Seq<u8>) -> bool {
    &&& a.len() == b.len()
    &&& forall|i: int| 0 <= i < a.len() ==> #[trigger] ascii_lower(a[i]) == ascii_lower(b[i])
}

/// The bytes of `glb`.
pub open spec fn glb_extension() -> Seq<u8> {
    seq![0x67u8, 0x6cu8, 0x62u8]
}

/// The file name of a buffer when the buffer path has none.
pub open spec fn default_buffer_name() -> Seq<char> {
    "buffer.bin"@
}

/// The bytes of `bin`.
pub open spec fn bin_extension() -> Seq<u8> {
    seq![0x62u8, 0x69u8, 0x6eu8]
}

fn lower(b: u8) -> (r: u8)
    ensures
        r == ascii_lower(b),
{
    if 0x41 <= b && b <= 0x5a {
        b + 0x20
    } else {
        b
    }
}

fn extension_is(ext: &str, target: &[u8]) -> (r: bool)
    ensures
        r == eq_ignore_ascii_case(ext.spec_bytes(), target@),
{
    let b = ext.as_bytes();
    if b.len() != target.len() {
        return false;
    }
    let mut i: usize = 0;
    while i < b.len()
        invariant
            0 <= i <= b@.len(),
            b@ == ext.spec_bytes(),
            b@.len() == target@.len(),
            forall|j: int| 0 <= j < i ==> #[trigger] ascii_lower(b@[j]) == ascii_lower(target@[j]),
        decreases b@.len() - i,
    {
        if lower(b[i]) != lower(target[i]) {
            return false;
        }
        i = i + 1;
    }
    true
}

/// Whether a file extension is `glb`, in any ASCII case.
pub fn is_glb_extension(ext: &str) -> (r: bool)
    ensures
        r == eq_ignore_ascii_case(ext.spec_bytes(), glb_extension()),
{
    let g: [u8; 3] = [0x67u8, 0x6cu8, 0x62u8];
    assert(g@ == glb_extension());
    extension_is(ext, &g)
}

/// Whether a file extension is `bin`, in any ASCII case.
pub fn is_bin_extension(ext: &str) -> (r: bool)
    ensures
        r == eq_ignore_ascii_case(ext.spec_bytes(), bin_extension()),
{
    let g: [u8; 3] = [0x62u8, 0x69u8, 0x6eu8];
    assert(g@ == bin_extension());
    extension_is(ext, &g)
}

/// Whether an output path with this extension asks for a binary glTF
/// container: exactly when the extension is `glb`, in any ASCII case.
pub fn glb_requested(extension: Option<&str>) -> (r: bool)
    ensures
        r == match extension {
            Some(e) => eq_ignore_ascii_case(e.spec_bytes(), glb_extension()),
            None => false,
        },
{
    match extension {
        Some(e) => is_glb_extension(e),
        None => false,
    }
}

/// The URI under which the document refers to its `.bin` buffer: the
/// buffer's file name, or `buffer.bin` when its path has none.
pub fn buffer_uri(bin_file_name: Option<&str>) -> (uri: String)
    ensures
        uri@ == match bin_file_name {
            Some(n) => n@,
            None => default_buffer_name(),
        },
{
    match bin_file_name {
        Some(n) => n.to_owned(),
        None => "buffer.bin".to_owned(),
    }
}

/// Where the conversion writes its output.
#[derive(Debug)]
pub struct OutputPlan {
    /// Whether a binary `.glb` container is written (else a `.gltf` JSON file).
    pub write_glb: bool,
    /// The path of the separate buffer file, for a `.gltf` output.
    pub bin_path: Option<String>,
    /// The URI of the buffer in the document, for a `.gltf` output.
    pub buffer_uri: Option<String>,
}

/// The output plan given what the path functions gave: the output path's
/// extension, the output path with extension `bin`, and that path's file name.
pub fn plan_from_parts(extension: Option<&str>, bin_path: String, bin_file_name: Option<&str>) -> (p:
    OutputPlan)
    ensures
        p.write_glb == match extension {
            Some(e) => eq_ignore_ascii_case(e.spec_bytes(), glb_extension()),
            None => false,
        },
        p.write_glb ==> p.bin_path is None && p.buffer_uri is None,
        !p.write_glb ==> (p.bin_path matches Some(b) && b@ == bin_path@),
        !p.write_glb ==> (p.buffer_uri matches Some(u) && u@ == match bin_file_name {
            Some(n) => n@,
            None => default_buffer_name(),
        }),
{
    if glb_requested(extension) {
        OutputPlan { write_glb: true, bin_path: None, buffer_uri: None }
    } else {
        let uri = buffer_uri(bin_file_name);
        OutputPlan { write_glb: false, bin_path: Some(bin_path), buffer_uri: Some(uri) }
    }
}

/// The index of the last `c` in `s`, or -1 when there is none.
pub open spec fn last_index_of(s: Seq<char>, c: char) -> int
    decreases s.len(),
{
    if s.len() == 0 {
        -1
    } else if s.last() == c {
        s.len() - 1
    } else {
        last_index_of(s.drop_last(), c)
    }
}

/// The part of a path after its last `/`.
pub open spec fn last_component(p: Seq<char>) -> Seq<char> {
    p.subrange(last_index_of(p, '/') + 1, p.len() as int)
}

/// Whether `p` reads the same under every platform's path syntax: a path
/// (relative, or absolute with one leading `/`, not the `//` that starts a
/// network prefix on some platforms) with `/` as its only separator (no `\`,
/// no `:` that could
/// start a drive prefix), not ending in a separator, whose last component is
/// a file name (neither `.` nor `..`).
pub open spec fn neutral_path(p: Seq<char>) -> bool {
    &&& p.len() > 0
    &&& !p.contains('\\')
    &&& !p.contains(':')
    &&& (p[0] != '/' || (p.len() > 1 && p[1] != '/'))
    &&& p.last() != '/'
    &&& last_component(p) != seq!['.']
    &&& last_component(p) != seq!['.', '.']
}

/// The extension of a file name, as std documents it: none without an
/// embedded `.`, none when the only `.` starts the name, otherwise what
/// follows the last `.`.
pub open spec fn name_extension(n: Seq<char>) -> Option<Seq<char>> {
    let k = last_index_of(n, '.');
    if k <= 0 {
        None
    } else {
        Some(n.subrange(k + 1, n.len() as int))
    }
}

/// The length of a file name's stem: the name up to its extension's `.`.
pub open spec fn name_stem_len(n: Seq<char>) -> int {
    let k = last_index_of(n, '.');
    if k <= 0 {
        n.len() as int
    } else {
        k
    }
}

/// The extension of a path's file name.
pub open spec fn path_extension_spec(p: Seq<char>) -> Option<Seq<char>> {
    name_extension(last_component(p))
}

/// `.bin`
pub open spec fn dot_bin() -> Seq<char> {
    seq!['.', 'b', 'i', 'n']
}

/// The path with its file name's extension set to `bin`: everything up to
/// the end of the file stem, then `.bin`.
pub open spec fn with_bin_extension(p: Seq<char>) -> Seq<char> {
    p.subrange(0, last_index_of(p, '/') + 1 + name_stem_len(last_component(p))) + dot_bin()
}

/// Whether `c` separates path components on some platform (or ends a
/// drive prefix).
pub open spec fn is_any_separator(c: char) -> bool {
    c == '/' || c == '\\' || c == ':'
}

/// Whether `c` is a slash on some platform.
pub open spec fn is_slash(c: char) -> bool {
    c == '/' || c == '\\'
}

/// The index of the last character of `p` that separates components on some
/// platform, or -1 when there is none.
pub open spec fn last_separator(p: Seq<char>) -> int
    decreases p.len(),
{
    if p.len() == 0 {
        -1
    } else if is_any_separator(p.last()) {
        p.len() - 1
    } else {
        last_separator(p.drop_last())
    }
}

/// Whether every platform's path syntax gives `p` the same extension: its
/// last `.` follows every `/`, `\` and `:` and is not the first character of
/// the name after them, that name is not `..`, and the path does not open
/// with two slashes (a network or device prefix on some platforms).
pub open spec fn portable_extension_path(p: Seq<char>) -> bool {
    let d = last_index_of(p, '.');
    let s = last_separator(p);
    &&& d > s + 1
    &&& p.subrange(s + 1, p.len() as int) != seq!['.', '.']
    &&& !(p.len() >= 2 && is_slash(p[0]) && is_slash(p[1]))
}

/// The extension such a path has on every platform: what follows its last `.`.
pub open spec fn portable_extension(p: Seq<char>) -> Seq<char> {
    p.subrange(last_index_of(p, '.') + 1, p.len() as int)
}

/// Such a path with its extension set to `bin`: everything before its last
/// `.`, then `.bin`.
pub open spec fn portable_with_bin(p: Seq<char>) -> Seq<char> {
    p.subrange(0, last_index_of(p, '.')) + dot_bin()
}

/// Whether the path's extension is `target`, in any ASCII case.
pub open spec fn extension_matches(p: Seq<char>, target: Seq<u8>) -> bool {
    match path_extension_spec(p) {
        Some(e) => eq_ignore_ascii_case(vstd::utf8::encode_utf8(e), target),
        None => false,
    }
}

/// Where the buffer of a `.gltf` output goes: the output path with extension
/// `bin`, or, when the output itself already has extension `bin`, the output
/// path with `.bin` appended, so that the buffer never overwrites the JSON.
pub open spec fn planned_bin_path(p: Seq<char>) -> Seq<char> {
    if extension_matches(p, bin_extension()) {
        p + dot_bin()
    } else {
        with_bin_extension(p)
    }
}

/// Calls `std::path::Path::extension` on `path`. Its result depends on the
/// platform's path syntax; for a path that reads the same on every platform
/// it is, as std documents, the extension of the last component's file name,
/// and for a path whose extension is the same on every platform it is what
/// follows the last `.`.
#[verifier::external_body]
fn path_extension(path: &str) -> (ext: Option<String>)
    ensures
        neutral_path(path@) ==> ext.is_some() == path_extension_spec(path@).is_some(),
        neutral_path(path@) && ext.is_some() ==> ext->0@ == path_extension_spec(path@)->0,
        portable_extension_path(path@) ==> ext.is_some() && ext->0@ == portable_extension(path@),
{
    match Path::new(path).extension() {
        Some(e) => Some(e.to_string_lossy().into_owned()),
        None => None,
    }
}

/// Calls `std::path::Path::with_extension` on `path` with the extension
/// `bin` (which holds no separator, so the call does not panic). For a path
/// that reads the same on every platform the result is, as std documents,
/// the path with its file name's extension replaced by (or extended with)
/// `bin`; for a path whose extension is the same on every platform, it is
/// the path up to its last `.` followed by `.bin`; on other paths nothing is
/// claimed.
#[verifier::external_body]
fn path_with_bin_extension(path: &str) -> (p: String)
    ensures
        neutral_path(path@) ==> p@ == with_bin_extension(path@),
        portable_extension_path(path@) ==> p@ == portable_with_bin(path@),
{
    Path::new(path).with_extension("bin").to_string_lossy().into_owned()
}

/// Calls `std::path::Path::file_name` on `path`. For a path that reads the
/// same on every platform the result is, as std documents, its last
/// component; on other paths nothing is claimed.
#[verifier::external_body]
fn path_file_name(path: &str) -> (name: Option<String>)
    ensures
        neutral_path(path@) ==> name.is_some() && name->0@ == last_component(path@),
{
    match Path::new(path).file_name() {
        Some(n) => Some(n.to_string_lossy().into_owned()),
        None => None,
    }
}

proof fn lemma_last_index_of(s: Seq<char>, c: char)
    ensures
        -1 <= last_index_of(s, c) < s.len(),
        last_index_of(s, c) >= 0 ==> s[last_index_of(s, c)] == c,
        forall|j: int| last_index_of(s, c) < j < s.len() ==> s[j] != c,
        last_index_of(s, c) == -1 <==> !s.contains(c),
    decreases s.len(),
{
    if s.len() > 0 {
        lemma_last_index_of(s.drop_last(), c);
        if s.last() != c {
            assert forall|j: int| last_index_of(s, c) < j < s.len() implies s[j] != c by {
                if j < s.len() - 1 {
                    assert(s.drop_last()[j] == s[j]);
                }
            }
            if s.contains(c) {
                let j = choose|j: int| 0 <= j < s.len() && s[j] == c;
                assert(s.drop_last()[j] == c);
            }
            if s.drop_last().contains(c) {
                let j = choose|j: int| 0 <= j < s.drop_last().len() && s.drop_last()[j] == c;
                assert(s[j] == c);
            }
        } else {
            assert(s[s.len() - 1] == c);
        }
    }
}

proof fn lemma_last_index_of_append(a: Seq<char>, b: Seq<char>, c: char)
    requires
        !b.contains(c),
    ensures
        last_index_of(a + b, c) == last_index_of(a, c),
    decreases b.len(),
{
    if b.len() == 0 {
        assert(a + b =~= a);
    } else {
        assert((a + b).drop_last() =~= a + b.drop_last());
        assert((a + b).last() == b.last());
        assert(b.drop_last().contains(c) ==> b.contains(c)) by {
            if b.drop_last().contains(c) {
                let j = choose|j: int| 0 <= j < b.drop_last().len() && b.drop_last()[j] == c;
                assert(b[j] == c);
            }
        }
        lemma_last_index_of_append(a, b.drop_last(), c);
    }
}

proof fn lemma_no_char_in_range(p: Seq<char>, c: char, a: int, b: int)
    requires
        !p.contains(c),
        0 <= a <= b <= p.len(),
    ensures
        !p.subrange(a, b).contains(c),
{
    if p.subrange(a, b).contains(c) {
        let j = choose|j: int| 0 <= j < b - a && p.subrange(a, b)[j] == c;
        assert(p[a + j] == c);
    }
}

proof fn lemma_dot_bin_chars()
    ensures
        !dot_bin().contains('/'),
        !dot_bin().contains('\\'),
        !dot_bin().contains(':'),
{
    let d = dot_bin();
    assert forall|c: char| c == '/' || c == '\\' || c == ':' implies !d.contains(c) by {
        if d.contains(c) {
            let j = choose|j: int| 0 <= j < d.len() && d[j] == c;
            assert(d[j] == '.' || d[j] == 'b' || d[j] == 'i' || d[j] == 'n');
        }
    }
}

/// Appending `tail` (with no separator, `\` or `:`) to the file name of a
/// neutral path gives a neutral path whose file name is the old one followed
/// by `tail`.
proof fn lemma_extend_name(x: Seq<char>, tail: Seq<char>)
    requires
        x.len() > 0,
        !x.contains('\\'),
        !x.contains(':'),
        x[0] != '/' || (x.len() > 1 && x[1] != '/'),
        x.last() != '/',
        tail == dot_bin(),
    ensures
        neutral_path(x + tail),
        last_index_of(x + tail, '/') == last_index_of(x, '/'),
        last_component(x + tail) == last_component(x) + tail,
{
    lemma_dot_bin_chars();
    lemma_last_index_of_append(x, tail, '/');
    lemma_last_index_of(x, '/');
    let y = x + tail;
    let s = last_index_of(x, '/') + 1;
    assert(last_component(y) =~= last_component(x) + tail);
    assert(!y.contains('\\')) by {
        if y.contains('\\') {
            let j = choose|j: int| 0 <= j < y.len() && y[j] == '\\';
            if j < x.len() {
                assert(x[j] == '\\');
            } else {
                assert(tail[j - x.len()] == '\\');
            }
        }
    }
    assert(!y.contains(':')) by {
        if y.contains(':') {
            let j = choose|j: int| 0 <= j < y.len() && y[j] == ':';
            if j < x.len() {
                assert(x[j] == ':');
            } else {
                assert(tail[j - x.len()] == ':');
            }
        }
    }
    assert(y[0] == x[0]);
    assert(x.len() > 1 ==> y[1] == x[1]);
    assert(y.last() == 'n');
    assert(last_component(y).len() >= 4);
}

/// The buffer path planned for a neutral path is neutral too, and its file
/// name is the output's file stem (or whole file name) followed by `.bin`.
proof fn lemma_planned_bin_path(p: Seq<char>)
    requires
        neutral_path(p),
    ensures
        neutral_path(planned_bin_path(p)),
{
    lemma_last_index_of(p, '/');
    if extension_matches(p, bin_extension()) {
        lemma_extend_name(p, dot_bin());
    } else {
        let n = last_component(p);
        let s = last_index_of(p, '/') + 1;
        lemma_last_index_of(n, '.');
        let l = name_stem_len(n);
        assert(0 < l <= n.len());
        let x = p.subrange(0, s + l);
        let rest = p.subrange(s + l, p.len() as int);
        assert(p =~= x + rest);
        assert(!rest.contains('/')) by {
            if rest.contains('/') {
                let j = choose|j: int| 0 <= j < rest.len() && rest[j] == '/';
                assert(p[s + l + j] == '/');
            }
        }
        lemma_last_index_of_append(x, rest, '/');
        lemma_no_char_in_range(p, '\\', 0, s + l);
        lemma_no_char_in_range(p, ':', 0, s + l);
        lemma_last_index_of(x, '/');
        assert(x.last() == p[s + l - 1]);
        if s + l - 1 >= s {
            assert(p[s + l - 1] != '/');
        }
        assert(x[0] == p[0]);
        assert(p[0] == '/' ==> s >= 1 && x.len() > 1 && x[1] == p[1]);
        lemma_extend_name(x, dot_bin());
    }
}

/// The buffer path of a `.gltf` output, given the output path's extension
/// and the two candidates: the output path with `.bin` appended, and the
/// output path with its extension set to `bin`. The first is taken when the
/// extension already is `bin` (in any ASCII case), so that the buffer never
/// takes the output's own path; the second otherwise.
pub fn choose_bin_path(extension: Option<&str>, appended: String, with_bin: String) -> (b: String)
    ensures
        b@ == (match extension {
            Some(e) => if eq_ignore_ascii_case(e.spec_bytes(), bin_extension()) {
                appended@
            } else {
                with_bin@
            },
            None => with_bin@,
        }),
{
    let is_bin = match extension {
        Some(e) => is_bin_extension(e),
        None => false,
    };
    if is_bin {
        appended
    } else {
        with_bin
    }
}

proof fn lemma_last_separator_is_last_slash(p: Seq<char>)
    requires
        !p.contains('\\'),
        !p.contains(':'),
    ensures
        last_separator(p) == last_index_of(p, '/'),
    decreases p.len(),
{
    if p.len() > 0 {
        let q = p.drop_last();
        assert(!q.contains('\\')) by {
            if q.contains('\\') {
                let j = choose|j: int| 0 <= j < q.len() && q[j] == '\\';
                assert(p[j] == '\\');
            }
        }
        assert(!q.contains(':')) by {
            if q.contains(':') {
                let j = choose|j: int| 0 <= j < q.len() && q[j] == ':';
                assert(p[j] == ':');
            }
        }
        lemma_last_separator_is_last_slash(q);
        assert(p[p.len() - 1] != '\\' && p[p.len() - 1] != ':');
    }
}

proof fn lemma_last_index_of_suffix(p: Seq<char>, s: int, c: char)
    requires
        0 <= s <= p.len(),
        last_index_of(p, c) >= s,
    ensures
        last_index_of(p.subrange(s, p.len() as int), c) == last_index_of(p, c) - s,
    decreases p.len(),
{
    let q = p.subrange(s, p.len() as int);
    lemma_last_index_of(p, c);
    lemma_last_index_of(p.drop_last(), c);
    if p.last() == c {
        assert(q.last() == c);
    } else {
        assert(q.len() > 0);
        assert(q.drop_last() =~= p.drop_last().subrange(s, p.len() - 1));
        lemma_last_index_of(p.drop_last(), c);
        lemma_last_index_of_suffix(p.drop_last(), s, c);
    }
}

/// For paths that read the same on every platform and whose extension is
/// the same on every platform, the two statements of std's path functions
/// agree.
pub proof fn lemma_neutral_portable_agree(p: Seq<char>)
    requires
        neutral_path(p),
        portable_extension_path(p),
    ensures
        path_extension_spec(p) == Some(portable_extension(p)),
        with_bin_extension(p) == portable_with_bin(p),
{
    lemma_last_separator_is_last_slash(p);
    lemma_last_index_of(p, '/');
    lemma_last_index_of(p, '.');
    let s = last_index_of(p, '/') + 1;
    let d = last_index_of(p, '.');
    lemma_last_index_of_suffix(p, s, '.');
    let n = last_component(p);
    assert(last_index_of(n, '.') == d - s);
    assert(n.subrange(d - s + 1, n.len() as int) =~= p.subrange(d + 1, p.len() as int));
    assert(p.subrange(0, s + (d - s)) =~= p.subrange(0, d));
}

/// A `.gltf` output never shares its path with its buffer: for a path that
/// reads the same on every platform, the planned buffer path differs from
/// the output path, so writing the JSON cannot overwrite the buffer.
pub proof fn lemma_buffer_path_differs(p: Seq<char>)
    requires
        neutral_path(p),
    ensures
        planned_bin_path(p) != p,
{
    lemma_last_index_of(p, '/');
    let n = last_component(p);
    let s = last_index_of(p, '/') + 1;
    lemma_last_index_of(n, '.');
    let k = last_index_of(n, '.');
    if !extension_matches(p, bin_extension()) {
        let w = with_bin_extension(p);
        if k <= 0 {
            assert(w.len() == p.len() + 4);
        } else if w == p {
            assert(w.len() == s + k + 4);
            let e = n.subrange(k + 1, n.len() as int);
            assert(e.len() == 3);
            assert(e[0] == w[s + k + 1]);
            assert(e[1] == w[s + k + 2]);
            assert(e[2] == w[s + k + 3]);
            assert(e =~= seq!['b', 'i', 'n']);
            assert(vstd::utf8::is_ascii_chars(e));
            vstd::utf8::is_ascii_chars_encode_utf8(e);
            let eb = vstd::utf8::encode_utf8(e);
            assert(eb[0] == 0x62u8 && eb[1] == 0x69u8 && eb[2] == 0x6eu8);
            assert(eq_ignore_ascii_case(eb, bin_extension()));
            assert(false);
        }
    }
}

proof fn lemma_last_separator_bounds(p: Seq<char>)
    ensures
        -1 <= last_separator(p) < p.len(),
    decreases p.len(),
{
    if p.len() > 0 {
        lemma_last_separator_bounds(p.drop_last());
    }
}

/// For a path whose extension is the same on every platform and is not
/// `bin`, setting the extension to `bin` changes the path.
pub proof fn lemma_portable_with_bin_differs(p: Seq<char>)
    requires
        portable_extension_path(p),
        !eq_ignore_ascii_case(vstd::utf8::encode_utf8(portable_extension(p)), bin_extension()),
    ensures
        portable_with_bin(p) != p,
{
    lemma_last_index_of(p, '.');
    lemma_last_separator_bounds(p);
    let d = last_index_of(p, '.');
    let w = portable_with_bin(p);
    if w == p {
        assert(w.len() == d + 4);
        let e = portable_extension(p);
        assert(e.len() == 3);
        assert(e[0] == w[d + 1]);
        assert(e[1] == w[d + 2]);
        assert(e[2] == w[d + 3]);
        assert(e =~= seq!['b', 'i', 'n']);
        assert(vstd::utf8::is_ascii_chars(e));
        vstd::utf8::is_ascii_chars_encode_utf8(e);
        let eb = vstd::utf8::encode_utf8(e);
        assert(eb[0] == 0x62u8 && eb[1] == 0x69u8 && eb[2] == 0x6eu8);
        assert(eq_ignore_ascii_case(eb, bin_extension()));
    }
}

/// Where converting to `output_path` writes. When the output's extension is
/// `glb` (in any case), a `.glb` container and nothing else. Otherwise a JSON
/// file with its buffer in a separate file: the output path with extension
/// `bin` (or with `.bin` appended, when the output's extension already is
/// `bin`), which the document names by its file name. For a path that reads
/// the same on every platform, all of this is stated against std's documented
/// path functions.
pub fn plan_outputs(output_path: &str) -> (p: OutputPlan)
    ensures
        p.write_glb ==> p.bin_path is None && p.buffer_uri is None,
        !p.write_glb ==> p.bin_path is Some && p.buffer_uri is Some,
        neutral_path(output_path@) ==> p.write_glb == extension_matches(
            output_path@,
            glb_extension(),
        ),
        neutral_path(output_path@) && !p.write_glb ==> p.bin_path->0@ == planned_bin_path(
            output_path@,
        ),
        neutral_path(output_path@) && !p.write_glb ==> p.buffer_uri->0@ == last_component(
            planned_bin_path(output_path@),
        ),
        portable_extension_path(output_path@) ==> p.write_glb == eq_ignore_ascii_case(
            vstd::utf8::encode_utf8(portable_extension(output_path@)),
            glb_extension(),
        ),
        portable_extension_path(output_path@) && !p.write_glb ==> p.bin_path->0@ == (
        if eq_ignore_ascii_case(
            vstd::utf8::encode_utf8(portable_extension(output_path@)),
            bin_extension(),
        ) {
            output_path@ + dot_bin()
        } else {
            portable_with_bin(output_path@)
        }),
        !p.write_glb ==> p.bin_path->0@ != output_path@,
{
    let ext = path_extension(output_path);
    let ext_ref: Option<&str> = match &ext {
        Some(e) => Some(e.as_str()),
        None => None,
    };
    if glb_requested(ext_ref) {
        return plan_from_parts(ext_ref, String::new(), None);
    }
    let mut appended = output_path.to_owned();
    appended.append(".bin");
    proof {
        reveal_strlit(".bin");
        assert(".bin"@ =~= dot_bin());
    }
    let with_bin = path_with_bin_extension(output_path);
    let mut bin_path = choose_bin_path(ext_ref, appended, with_bin);
    proof {
        if portable_extension_path(output_path@) && !eq_ignore_ascii_case(
            vstd::utf8::encode_utf8(portable_extension(output_path@)),
            bin_extension(),
        ) {
            lemma_portable_with_bin_differs(output_path@);
        }
        if neutral_path(output_path@) {
            lemma_buffer_path_differs(output_path@);
        }
    }
    // The buffer never takes the output's own path, whatever the platform's
    // path syntax made of it.
    let out_owned = output_path.to_owned();
    if bin_path == out_owned {
        let mut separate = output_path.to_owned();
        separate.append(".bin");
        bin_path = separate;
    }
    proof {
        if neutral_path(output_path@) {
            lemma_planned_bin_path(output_path@);
            assert(bin_path@ == planned_bin_path(output_path@));
        }
    }
    let name = path_file_name(bin_path.as_str());
    let name_ref: Option<&str> = match &name {
        Some(n) => Some(n.as_str()),
        None => None,
    };
    plan_from_parts(ext_ref, bin_path, name_ref)
}

} // verus!
