//! Path arithmetic on plain strings: trailing file names, hidden-name
//! detection, extensions, ASCII lowercasing, and root-relative paths.
//! Paths use `/` as the separator.

use vstd::prelude::*;
use vstd::string::StrSliceExecFns;

verus! {

/// The characters of `p` after its last `/` (the whole of `p` when it holds
/// no `/`, empty when it ends with one).
pub open spec fn after_last_slash(p: Seq<char>) -> Seq<char>
    decreases p.len(),
{
    if p.len() == 0 {
        Seq::<char>::empty()
    } else if p.last() == '/' {
        Seq::<char>::empty()
    } else {
        after_last_slash(p.drop_last()).push(p.last())
    }
}

/// `p` ends with a lone `.` component.
pub open spec fn ends_with_cur_dir(p: Seq<char>) -> bool {
    p.len() > 0 && p.last() == '.' && (p.len() == 1 || p[p.len() - 2] == '/')
}

/// `p` with trailing separators and trailing `.` components removed, the way
/// std's `Path` ignores both when it looks for the last component.
pub open spec fn trim_trailing(p: Seq<char>) -> Seq<char>
    decreases p.len(),
{
    if p.len() == 0 {
        p
    } else if p.last() == '/' || ends_with_cur_dir(p) {
        trim_trailing(p.drop_last())
    } else {
        p
    }
}

/// A name that spells the parent-directory component `..`.
pub open spec fn is_parent_dir(name: Seq<char>) -> bool {
    name.len() == 2 && name[0] == '.' && name[1] == '.'
}

/// The file name of a path, as std's `Path::file_name` finds it: the last
/// component, with trailing separators and `.` components ignored; a path
/// whose last component is `..` has no file name, rendered here as the
/// empty name.
pub open spec fn file_name_of(p: Seq<char>) -> Seq<char> {
    let name = after_last_slash(trim_trailing(p));
    if is_parent_dir(name) {
        Seq::<char>::empty()
    } else {
        name
    }
}

/// A path is hidden when its own file name starts with the marker `.`.
pub open spec fn hidden_name(p: Seq<char>) -> bool {
    file_name_of(p).len() > 0 && file_name_of(p)[0] == '.'
}

/// The characters of `name` after its last `.` (empty when there is no `.`
/// or when `name` ends with one).
pub open spec fn after_last_dot(name: Seq<char>) -> Seq<char>
    decreases name.len(),
{
    if name.len() == 0 {
        Seq::<char>::empty()
    } else if name.last() == '.' {
        Seq::<char>::empty()
    } else {
        after_last_dot(name.drop_last()).push(name.last())
    }
}

/// A file name carries an extension when a `.` stands after its first
/// character: a single leading `.` marks a hidden name, not an extension.
pub open spec fn has_extension(name: Seq<char>) -> bool {
    exists|i: int| 0 < i < name.len() && name[i] == '.'
}

/// The extension of a file name, without its dot; empty when there is none.
pub open spec fn ext_of(name: Seq<char>) -> Seq<char> {
    if has_extension(name) {
        after_last_dot(name)
    } else {
        Seq::<char>::empty()
    }
}

/// ASCII lowercasing of one character; anything but `A`..`Z` is left alone.
pub open spec fn lower_char(c: char) -> char {
    if 65 <= c as u32 && c as u32 <= 90 {
        ((c as u32 + 32) as u8) as char
    } else {
        c
    }
}

/// ASCII lowercasing of a whole string.
pub open spec fn lower(s: Seq<char>) -> Seq<char> {
    s.map_values(|c: char| lower_char(c))
}

/// A path with the enumeration root stripped: the part after `root`, less a
/// single leading `/`. The path itself is returned when `root` is not a
/// proper prefix of it, or does not end at a component boundary.
pub open spec fn rel_path_of(root: Seq<char>, p: Seq<char>) -> Seq<char> {
    if p.len() > root.len() && p.subrange(0, root.len() as int) == root && (root.len() == 0
        || root.last() == '/' || p[root.len() as int] == '/') {
        let rest = p.subrange(root.len() as int, p.len() as int);
        if rest[0] == '/' {
            rest.subrange(1, rest.len() as int)
        } else {
            rest
        }
    } else {
        p
    }
}

/// Some component of `p` (a segment delimited by `/`) starts with `.`.
pub open spec fn any_hidden_component(p: Seq<char>) -> bool {
    exists|i: int| 0 <= i < p.len() && (i == 0 || p[i - 1] == '/') && #[trigger] p[i] == '.'
}

/// `after_last_slash(p)` is the suffix of `p` that starts at the position
/// right after the last `/`.
proof fn lemma_after_last_slash_from(p: Seq<char>, k: int)
    requires
        0 <= k <= p.len(),
        forall|j: int| k <= j < p.len() ==> p[j] != '/',
        k > 0 ==> p[k - 1] == '/',
    ensures
        after_last_slash(p) == p.subrange(k, p.len() as int),
    decreases p.len(),
{
    if p.len() == k {
        assert(p.subrange(k, p.len() as int) =~= Seq::<char>::empty());
        if k > 0 {
            assert(p.last() == '/');
        }
    } else {
        assert(p[p.len() - 1] != '/');
        lemma_after_last_slash_from(p.drop_last(), k);
        assert(p.drop_last().subrange(k, p.len() - 1).push(p.last()) =~= p.subrange(
            k,
            p.len() as int,
        ));
    }
}

/// `after_last_dot(name)` is the suffix of `name` that starts at the position
/// right after the last `.`.
proof fn lemma_after_last_dot_from(name: Seq<char>, m: int)
    requires
        0 <= m <= name.len(),
        forall|j: int| m <= j < name.len() ==> name[j] != '.',
        m > 0 ==> name[m - 1] == '.',
    ensures
        after_last_dot(name) == name.subrange(m, name.len() as int),
    decreases name.len(),
{
    if name.len() == m {
        assert(name.subrange(m, name.len() as int) =~= Seq::<char>::empty());
    } else {
        assert(name[name.len() - 1] != '.');
        lemma_after_last_dot_from(name.drop_last(), m);
        assert(name.drop_last().subrange(m, name.len() - 1).push(name.last()) =~= name.subrange(
            m,
            name.len() as int,
        ));
    }
}

/// The suffix after the last `/` is never longer than the path, it stands at
/// the path's end, and the character right before it (if any) is a `/`.
pub proof fn lemma_after_last_slash_position(p: Seq<char>)
    ensures
        after_last_slash(p).len() <= p.len(),
        after_last_slash(p) == p.subrange(p.len() - after_last_slash(p).len(), p.len() as int),
        after_last_slash(p).len() < p.len() ==> p[p.len() - after_last_slash(p).len() - 1] == '/',
    decreases p.len(),
{
    if p.len() == 0 {
        assert(p.subrange(0, 0) =~= Seq::<char>::empty());
    } else if p.last() == '/' {
        assert(p.subrange(p.len() as int, p.len() as int) =~= Seq::<char>::empty());
    } else {
        lemma_after_last_slash_position(p.drop_last());
        let q = p.drop_last();
        let n = after_last_slash(q).len() as int;
        assert(after_last_slash(p) == after_last_slash(q).push(p.last()));
        assert(q.subrange(q.len() - n, q.len() as int).push(p.last()) =~= p.subrange(
            p.len() - n - 1,
            p.len() as int,
        ));
    }
}

/// Equality of two string slices, decided character by character.
pub fn str_eq(a: &str, b: &str) -> (r: bool)
    ensures
        r == (a@ == b@),
{
    let n: usize = a.unicode_len();
    if n != b.unicode_len() {
        return false;
    }
    let mut i: usize = 0;
    while i < n
        invariant
            i <= n,
            n == a@.len(),
            n == b@.len(),
            forall|j: int| 0 <= j < i ==> a@[j] == b@[j],
        decreases n - i,
    {
        if a.get_char(i) != b.get_char(i) {
            return false;
        }
        i += 1;
    }
    proof {
        assert(a@ =~= b@);
    }
    true
}

/// The end of the path once trailing separators and `.` components are
/// dropped.
fn trimmed_end(p: &str) -> (e: usize)
    ensures
        e <= p@.len(),
        trim_trailing(p@) == p@.subrange(0, e as int),
{
    let n: usize = p.unicode_len();
    let mut e: usize = n;
    proof {
        assert(p@.subrange(0, n as int) =~= p@);
    }
    while e > 0
        invariant
            e <= n,
            n == p@.len(),
            trim_trailing(p@) == trim_trailing(p@.subrange(0, e as int)),
        decreases e,
    {
        let ghost pre = p@.subrange(0, e as int);
        let c = p.get_char(e - 1);
        proof {
            assert(pre.last() == p@[e - 1]);
            assert(pre.drop_last() =~= p@.subrange(0, e - 1));
        }
        if c == '/' {
            e -= 1;
        } else if c == '.' && (e == 1 || p.get_char(e - 2) == '/') {
            proof {
                assert(ends_with_cur_dir(pre));
            }
            e -= 1;
        } else {
            proof {
                assert(!ends_with_cur_dir(pre));
                assert(trim_trailing(pre) == pre);
            }
            return e;
        }
    }
    proof {
        assert(p@.subrange(0, 0) =~= Seq::<char>::empty());
    }
    0
}

/// The index where the last component inside `p[..e]` starts: right after
/// the last `/` before `e`, or zero.
fn name_start_before(p: &str, e: usize) -> (k: usize)
    requires
        e <= p@.len(),
    ensures
        k <= e,
        forall|j: int| k <= j < e ==> p@[j] != '/',
        k > 0 ==> p@[k - 1] == '/',
{
    let mut k: usize = e;
    while k > 0
        invariant
            k <= e,
            e <= p@.len(),
            forall|j: int| k <= j < e ==> p@[j] != '/',
        decreases k,
    {
        if p.get_char(k - 1) == '/' {
            return k;
        }
        k -= 1;
    }
    0
}

/// The window `p[k..e]` found by `trimmed_end` and `name_start_before` holds
/// exactly the last component of the trimmed path.
proof fn lemma_name_window(p: Seq<char>, k: int, e: int)
    requires
        0 <= k <= e <= p.len(),
        trim_trailing(p) == p.subrange(0, e),
        forall|j: int| k <= j < e ==> p[j] != '/',
        k > 0 ==> p[k - 1] == '/',
    ensures
        after_last_slash(trim_trailing(p)) == p.subrange(k, e),
{
    let t = trim_trailing(p);
    assert(t.len() == e);
    assert(forall|j: int| k <= j < t.len() ==> t[j] == p[j] && p[j] != '/');
    lemma_after_last_slash_from(t, k);
    assert(t.subrange(k, t.len() as int) =~= p.subrange(k, e));
}

/// The file name of a path: its last component, with trailing separators and
/// `.` components ignored, and empty for a final `..`.
pub fn file_name(p: &str) -> (r: String)
    ensures
        r@ == file_name_of(p@),
{
    let e = trimmed_end(p);
    let k = name_start_before(p, e);
    proof {
        lemma_name_window(p@, k as int, e as int);
    }
    if e - k == 2 && p.get_char(k) == '.' && p.get_char(k + 1) == '.' {
        proof {
            assert(is_parent_dir(p@.subrange(k as int, e as int)));
        }
        String::new()
    } else {
        proof {
            assert(!is_parent_dir(p@.subrange(k as int, e as int)));
        }
        let sub = p.substring_char(k, e);
        sub.to_owned()
    }
}

/// Whether the path's own file name starts with the hidden marker `.`.
pub fn is_hidden(p: &str) -> (r: bool)
    ensures
        r == hidden_name(p@),
{
    let e = trimmed_end(p);
    let k = name_start_before(p, e);
    proof {
        lemma_name_window(p@, k as int, e as int);
    }
    if k < e && p.get_char(k) == '.' {
        !(e - k == 2 && p.get_char(k + 1) == '.')
    } else {
        false
    }
}

/// The extension of the path's file name, without the dot and not lowercased;
/// empty when the file name has none.
pub fn extension_of(p: &str) -> (r: String)
    ensures
        r@ == ext_of(file_name_of(p@)),
{
    let e = trimmed_end(p);
    let k = name_start_before(p, e);
    proof {
        lemma_name_window(p@, k as int, e as int);
    }
    if e - k == 2 && p.get_char(k) == '.' && p.get_char(k + 1) == '.' {
        proof {
            assert(is_parent_dir(p@.subrange(k as int, e as int)));
            assert(!has_extension(file_name_of(p@)));
        }
        return String::new();
    }
    let ghost name = file_name_of(p@);
    proof {
        assert(!is_parent_dir(p@.subrange(k as int, e as int)));
        assert(name == p@.subrange(k as int, e as int));
    }
    let mut j: usize = e;
    while j > 0 && j - 1 > k
        invariant
            j <= e,
            k <= e,
            e <= p@.len(),
            name == file_name_of(p@),
            name == p@.subrange(k as int, e as int),
            forall|t: int| j <= t < e ==> p@[t] != '.',
        decreases j,
    {
        if p.get_char(j - 1) == '.' {
            proof {
                assert(name[j - 1 - k] == p@[j - 1]);
                assert(forall|t: int| j - k <= t < name.len() ==> name[t] == p@[k + t]);
                lemma_after_last_dot_from(name, j - k);
                assert(has_extension(name)) by {
                    assert(0 < j - 1 - k < name.len() && name[j - 1 - k] == '.');
                }
                assert(name.subrange(j - k, name.len() as int) =~= p@.subrange(
                    j as int,
                    e as int,
                ));
            }
            let sub = p.substring_char(j, e);
            return sub.to_owned();
        }
        j -= 1;
    }
    proof {
        assert(!has_extension(name)) by {
            assert(forall|i: int| 0 < i < name.len() ==> name[i] == p@[k + i] && p@[k + i] != '.');
        }
    }
    String::new()
}

/// One character, ASCII-lowercased.
pub fn to_lower_char(c: char) -> (r: char)
    ensures
        r == lower_char(c),
{
    let u: u32 = c as u32;
    if 65 <= u && u <= 90 {
        ((u + 32) as u8) as char
    } else {
        c
    }
}

/// A whole string, ASCII-lowercased.
pub fn to_lower(s: &str) -> (r: String)
    ensures
        r@ == lower(s@),
{
    let n: usize = s.unicode_len();
    let mut out = String::new();
    let mut i: usize = 0;
    while i < n
        invariant
            i <= n,
            n == s@.len(),
            out@ == lower(s@.subrange(0, i as int)),
        decreases n - i,
    {
        let c = s.get_char(i);
        push_char(&mut out, to_lower_char(c));
        proof {
            assert(s@.subrange(0, i + 1).map_values(|x: char| lower_char(x)) =~= s@.subrange(
                0,
                i as int,
            ).map_values(|x: char| lower_char(x)).push(lower_char(s@[i as int])));
        }
        i += 1;
    }
    proof {
        assert(s@.subrange(0, n as int) =~= s@);
    }
    out
}

/// Relies on std's `String::push`: it appends the one character at the end
/// of the string.
#[verifier::external_body]
fn push_char(s: &mut String, c: char)
    ensures
        final(s)@ == old(s)@.push(c),
{
    s.push(c);
}

/// The path with `root` stripped off its front, as `rel_path_of` states.
pub fn relative_to(root: &str, p: &str) -> (r: String)
    ensures
        r@ == rel_path_of(root@, p@),
{
    let rn: usize = root.unicode_len();
    let pn: usize = p.unicode_len();
    if pn <= rn {
        return p.to_owned();
    }
    let mut i: usize = 0;
    while i < rn
        invariant
            i <= rn,
            rn == root@.len(),
            pn == p@.len(),
            pn > rn,
            forall|j: int| 0 <= j < i ==> p@[j] == root@[j],
        decreases rn - i,
    {
        if p.get_char(i) != root.get_char(i) {
            proof {
                assert(p@.subrange(0, rn as int)[i as int] != root@[i as int]);
            }
            return p.to_owned();
        }
        i += 1;
    }
    proof {
        assert(p@.subrange(0, rn as int) =~= root@);
    }
    let at_boundary = rn == 0 || root.get_char(rn - 1) == '/' || p.get_char(rn) == '/';
    if !at_boundary {
        return p.to_owned();
    }
    if p.get_char(rn) == '/' {
        proof {
            let rest = p@.subrange(rn as int, pn as int);
            assert(rest[0] == p@[rn as int]);
            assert(rest.subrange(1, rest.len() as int) =~= p@.subrange(rn as int + 1, pn as int));
        }
        let sub = p.substring_char(rn + 1, pn);
        sub.to_owned()
    } else {
        proof {
            let rest = p@.subrange(rn as int, pn as int);
            assert(rest[0] == p@[rn as int]);
        }
        let sub = p.substring_char(rn, pn);
        sub.to_owned()
    }
}

/// Whether some `/`-delimited component of `p` starts with `.`.
#[verifier::rlimit(30)]
pub fn has_hidden_component(p: &str) -> (r: bool)
    ensures
        r == any_hidden_component(p@),
{
    let n: usize = p.unicode_len();
    let mut i: usize = 0;
    while i < n
        invariant
            i <= n,
            n == p@.len(),
            i > 0 ==> p@[0] != '.',
            forall|j: int| 1 <= j < i && p@[j - 1] == '/' ==> #[trigger] p@[j] != '.',
        decreases n - i,
    {
        if p.get_char(i) == '.' {
            if i == 0 {
                return true;
            }
            if p.get_char(i - 1) == '/' {
                return true;
            }
        }
        i += 1;
    }
    false
}

} // verus!
