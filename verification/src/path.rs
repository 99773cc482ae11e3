//! Unix paths held as text.

use vstd::prelude::*;

verus! {

/// A path that starts at the root directory.
pub open spec fn is_absolute(p: Seq<char>) -> bool {
    p.len() > 0 && p[0] == '/'
}

/// `p` adjoined to `base`: an absolute `p` replaces `base`; otherwise `p`
/// follows `base`, with a `/` between them unless `base` is empty or already
/// ends with one.
pub open spec fn join_spec(base: Seq<char>, p: Seq<char>) -> Seq<char> {
    if is_absolute(p) {
        p
    } else if base.len() == 0 || base.last() == '/' {
        base + p
    } else {
        base + seq!['/'] + p
    }
}

/// Adjoins `p` to `base`.
pub fn join(base: &str, p: &str) -> (r: String)
    ensures
        r@ == join_spec(base@, p@),
{
    let p_len = p.unicode_len();
    if p_len > 0 && p.get_char(0) == '/' {
        return String::from_str(p);
    }
    let base_len = base.unicode_len();
    if base_len == 0 || base.get_char(base_len - 1) == '/' {
        String::from_str(base).concat(p)
    } else {
        let sep = "/";
        proof {
            reveal_strlit("/");
        }
        let r = String::from_str(base).concat(sep).concat(p);
        assert(r@ == base@ + seq!['/'] + p@);
        r
    }
}


/// Unicode's `White_Space` property, which `char::is_whitespace` follows.
pub open spec fn is_white_space_spec(c: char) -> bool {
    let u = c as u32;
    ||| 0x09 <= u <= 0x0d
    ||| u == 0x20
    ||| u == 0x85
    ||| u == 0xa0
    ||| u == 0x1680
    ||| 0x2000 <= u <= 0x200a
    ||| u == 0x2028
    ||| u == 0x2029
    ||| u == 0x202f
    ||| u == 0x205f
    ||| u == 0x3000
}

/// Whether `c` is white space in Unicode's sense.
pub fn is_white_space(c: char) -> (r: bool)
    ensures
        r == is_white_space_spec(c),
{
    let u = c as u32;
    (0x09 <= u && u <= 0x0d) || u == 0x20 || u == 0x85 || u == 0xa0 || u == 0x1680 || (0x2000
        <= u && u <= 0x200a) || u == 0x2028 || u == 0x2029 || u == 0x202f || u == 0x205f || u
        == 0x3000
}

/// `s` without its leading white space.
pub open spec fn trim_start_spec(s: Seq<char>) -> Seq<char>
    decreases s.len(),
{
    if s.len() > 0 && is_white_space_spec(s[0]) {
        trim_start_spec(s.drop_first())
    } else {
        s
    }
}

/// `s` without its trailing white space.
pub open spec fn trim_end_spec(s: Seq<char>) -> Seq<char>
    decreases s.len(),
{
    if s.len() > 0 && is_white_space_spec(s.last()) {
        trim_end_spec(s.drop_last())
    } else {
        s
    }
}

/// `s` without its leading and trailing white space, as `str::trim` gives it.
pub open spec fn trim_spec(s: Seq<char>) -> Seq<char> {
    trim_end_spec(trim_start_spec(s))
}

/// Removes the leading and trailing white space of `s`.
pub fn trim(s: &str) -> (r: &str)
    ensures
        r@ == trim_spec(s@),
{
    let n = s.unicode_len();
    let mut i: usize = 0;
    assert(s@.subrange(0, n as int) =~= s@);
    while i < n && is_white_space(s.get_char(i))
        invariant
            n == s@.len(),
            i <= n,
            trim_start_spec(s@) == trim_start_spec(s@.subrange(i as int, n as int)),
        decreases n - i,
    {
        assert(s@.subrange(i as int, n as int).drop_first() =~= s@.subrange(i + 1, n as int));
        i = i + 1;
    }
    assert(trim_start_spec(s@) == s@.subrange(i as int, n as int)) by {
        if i == n {
            assert(s@.subrange(i as int, n as int).len() == 0);
        }
    }
    let mut j: usize = n;
    while j > i && is_white_space(s.get_char(j - 1))
        invariant
            n == s@.len(),
            i <= j <= n,
            trim_spec(s@) == trim_end_spec(s@.subrange(i as int, j as int)),
        decreases j - i,
    {
        assert(s@.subrange(i as int, j as int).drop_last() =~= s@.subrange(i as int, j - 1));
        j = j - 1;
    }
    assert(trim_spec(s@) == s@.subrange(i as int, j as int)) by {
        if i == j {
            assert(s@.subrange(i as int, j as int).len() == 0);
        }
    }
    s.substring_char(i, j)
}


/// Joining an absolute path gives that path, whatever it is joined to.
pub proof fn lemma_join_absolute(base: Seq<char>, p: Seq<char>)
    requires
        is_absolute(p),
    ensures
        join_spec(base, p) == p,
{
}

/// Joining a relative path to a base keeps the base, puts one `/` after it
/// where it does not end in one (and is not empty), and ends with the joined
/// path.
pub proof fn lemma_join_relative(base: Seq<char>, p: Seq<char>)
    requires
        !is_absolute(p),
    ensures
        join_spec(base, p).len() >= p.len(),
        join_spec(base, p).subrange(0, base.len() as int) == base,
        join_spec(base, p).subrange(join_spec(base, p).len() - p.len(), join_spec(base, p).len() as int)
            == p,
        base.len() > 0 && base.last() != '/' ==> join_spec(base, p) == base.push('/') + p,
        base.len() == 0 || base.last() == '/' ==> join_spec(base, p) == base + p,
{
    let j = join_spec(base, p);
    if base.len() == 0 || base.last() == '/' {
        assert(j.subrange(0, base.len() as int) =~= base);
        assert(j.subrange(j.len() - p.len(), j.len() as int) =~= p);
    } else {
        assert(base + seq!['/'] == base.push('/'));
        assert(j.subrange(0, base.len() as int) =~= base);
        assert(j.subrange(j.len() - p.len(), j.len() as int) =~= p);
    }
}

/// Joining anything to an absolute base gives an absolute path.
pub proof fn lemma_join_keeps_absolute(base: Seq<char>, p: Seq<char>)
    requires
        is_absolute(base),
    ensures
        is_absolute(join_spec(base, p)),
{
    if !is_absolute(p) {
        lemma_join_relative(base, p);
        assert(join_spec(base, p)[0] == join_spec(base, p).subrange(0, base.len() as int)[0]);
    }
}

/// Trimming leaves a contiguous part of the text, with no white space at
/// either end, and trimming it again changes nothing.
pub proof fn lemma_trim(s: Seq<char>)
    ensures
        exists|i: int, j: int| 0 <= i <= j <= s.len() && trim_spec(s) == s.subrange(i, j),
        trim_spec(s).len() > 0 ==> !is_white_space_spec(trim_spec(s)[0])
            && !is_white_space_spec(trim_spec(s).last()),
        trim_spec(trim_spec(s)) == trim_spec(s),
{
    lemma_trim_start(s);
    let t = trim_start_spec(s);
    lemma_trim_end(t);
    let i = choose|i: int| 0 <= i <= s.len() && t == s.subrange(i, s.len() as int);
    let j = choose|j: int| 0 <= j <= t.len() && trim_end_spec(t) == t.subrange(0, j);
    assert(trim_spec(s) =~= s.subrange(i, i + j));
    let r = trim_spec(s);
    if r.len() > 0 {
        assert(r[0] == t[0]);
    }
    lemma_trim_start_fixed(r);
    lemma_trim_end_fixed(r);
}

proof fn lemma_trim_start(s: Seq<char>)
    ensures
        exists|i: int| 0 <= i <= s.len() && trim_start_spec(s) == s.subrange(i, s.len() as int),
        trim_start_spec(s).len() > 0 ==> !is_white_space_spec(trim_start_spec(s)[0]),
    decreases s.len(),
{
    if s.len() > 0 && is_white_space_spec(s[0]) {
        lemma_trim_start(s.drop_first());
        let i = choose|i: int|
            0 <= i <= s.drop_first().len() && trim_start_spec(s.drop_first())
                == s.drop_first().subrange(i, s.drop_first().len() as int);
        assert(s.drop_first().subrange(i, s.drop_first().len() as int) =~= s.subrange(
            i + 1,
            s.len() as int,
        ));
    } else {
        assert(s.subrange(0, s.len() as int) =~= s);
    }
}

proof fn lemma_trim_end(s: Seq<char>)
    ensures
        exists|j: int| 0 <= j <= s.len() && trim_end_spec(s) == s.subrange(0, j),
        trim_end_spec(s).len() > 0 ==> !is_white_space_spec(trim_end_spec(s).last()),
        trim_end_spec(s).len() > 0 && s.len() > 0 && !is_white_space_spec(s[0])
            ==> trim_end_spec(s)[0] == s[0],
        s.len() > 0 && !is_white_space_spec(s[0]) ==> trim_end_spec(s).len() > 0,
    decreases s.len(),
{
    if s.len() > 0 && is_white_space_spec(s.last()) {
        lemma_trim_end(s.drop_last());
        let j = choose|j: int|
            0 <= j <= s.drop_last().len() && trim_end_spec(s.drop_last())
                == s.drop_last().subrange(0, j);
        assert(s.drop_last().subrange(0, j) =~= s.subrange(0, j));
        if s.len() > 1 {
            assert(s.drop_last()[0] == s[0]);
        }
    } else {
        assert(s.subrange(0, s.len() as int) =~= s);
    }
}

pub proof fn lemma_trim_start_fixed(s: Seq<char>)
    requires
        s.len() > 0 ==> !is_white_space_spec(s[0]),
    ensures
        trim_start_spec(s) == s,
{
}

pub proof fn lemma_trim_end_fixed(s: Seq<char>)
    requires
        s.len() > 0 ==> !is_white_space_spec(s.last()),
    ensures
        trim_end_spec(s) == s,
{
}

/// The index of the last `/` in `p`; -1 where there is none.
pub open spec fn last_slash(p: Seq<char>) -> int
    decreases p.len(),
{
    if p.len() == 0 {
        -1
    } else if p.last() == '/' {
        p.len() - 1
    } else {
        last_slash(p.drop_last())
    }
}

/// `q` ends in a `.` component.
pub open spec fn ends_in_dot_component(q: Seq<char>) -> bool {
    q.len() > 0 && q.last() == '.' && (q.len() == 1 || q[q.len() - 2] == '/')
}

/// `c` is an ordinary component of a path: not empty, and neither `.` nor
/// `..` (it holds no `/` where it follows the last one).
pub open spec fn is_ordinary_component(c: Seq<char>) -> bool {
    c.len() > 0 && c != seq!['.'] && c != seq!['.', '.']
}

/// The parent of `p` as its text shows it, where the text is plain: `p` is
/// absolute and its final component is an ordinary name after a single `/`.
/// Where that `/` is the root, the parent is the root `/` (as for `/foo`);
/// otherwise it is the text before that `/`, where that text does not end
/// in `/` or in a `.` component. `None` otherwise.
pub open spec fn plain_parent(p: Seq<char>) -> Option<Seq<char>> {
    let k = last_slash(p);
    let q = p.subrange(0, k);
    let c = p.subrange(k + 1, p.len() as int);
    if 0 <= k && p[0] == '/' && is_ordinary_component(c) {
        if k == 0 {
            Some(seq!['/'])
        } else if p[k - 1] != '/' && !ends_in_dot_component(q) {
            Some(q)
        } else {
            None
        }
    } else {
        None
    }
}

/// The final component of `p` as its text shows it, where it is an
/// ordinary name: the text after the last `/` (all of `p` where there is
/// none). `None` otherwise.
pub open spec fn plain_file_name(p: Seq<char>) -> Option<Seq<char>> {
    let c = p.subrange(last_slash(p) + 1, p.len() as int);
    if is_ordinary_component(c) {
        Some(c)
    } else {
        None
    }
}

/// The last `/` of `a`, a `/` and a text without `/` is the `/` after `a`.
pub proof fn lemma_last_slash_after(a: Seq<char>, b: Seq<char>)
    requires
        !b.contains('/'),
    ensures
        last_slash(a + seq!['/'] + b) == a.len(),
    decreases b.len(),
{
    let p = a + seq!['/'] + b;
    if b.len() == 0 {
        assert(p.last() == '/');
    } else {
        assert(!b.drop_last().contains('/')) by {
            if b.drop_last().contains('/') {
                let i = choose|i: int| 0 <= i < b.drop_last().len() && b.drop_last()[i] == '/';
                assert(b[i] == '/');
            }
        }
        assert(b.contains(b.last()));
        assert(p.last() == b.last());
        assert(p.drop_last() =~= a + seq!['/'] + b.drop_last());
        lemma_last_slash_after(a, b.drop_last());
    }
}

/// What `std::path::Path::parent` gives for the path `p`.
pub uninterp spec fn std_path_parent(p: Seq<char>) -> Option<Seq<char>>;

/// What `std::path::Path::file_name` gives for the path `p`.
pub uninterp spec fn std_path_file_name(p: Seq<char>) -> Option<Seq<char>>;

/// Whether `std::path::Path`'s `==` holds of the paths `a` and `b`.
pub uninterp spec fn std_path_eq(a: Seq<char>, b: Seq<char>) -> bool;

/// Calls `std::path::Path::parent`, which gives "the Path without its final
/// component". Its result is taken as the name `std_path_parent` of `p`; of
/// that name this states what the documentation says: the empty path and
/// the root have no parent, and a path whose text is plain (see
/// `plain_parent`) has the text before its final component, or the root,
/// as parent. A
/// parent of a Unicode path is a prefix of it, so the text conversion loses
/// nothing.
#[verifier::external_body]
pub(crate) fn parent(p: &str) -> (r: Option<String>)
    ensures
        r is Some <==> std_path_parent(p@) is Some,
        r matches Some(q) ==> std_path_parent(p@) == Some(q@),
        p@.len() == 0 ==> r is None,
        p@ == seq!['/'] ==> r is None,
        plain_parent(p@) is Some ==> r is Some && r->0@ == plain_parent(p@)->0,
{
    match std::path::Path::new(p).parent() {
        Some(q) => Some(q.to_string_lossy().into_owned()),
        None => None,
    }
}

/// Calls `std::path::Path::file_name`, which gives the final component of a
/// path where it is a normal one. Its result is taken as the name
/// `std_path_file_name` of `p`; of that name this states the plain case
/// (see `plain_file_name`): where the text after the last `/` is an ordinary
/// name, that is the final component. A component of a Unicode path is
/// Unicode, so the text conversion loses nothing.
#[verifier::external_body]
pub(crate) fn file_name(p: &str) -> (r: Option<String>)
    ensures
        r is Some <==> std_path_file_name(p@) is Some,
        r matches Some(q) ==> std_path_file_name(p@) == Some(q@),
        plain_file_name(p@) is Some ==> r is Some && r->0@ == plain_file_name(p@)->0,
{
    match std::path::Path::new(p).file_name() {
        Some(q) => Some(q.to_string_lossy().into_owned()),
        None => None,
    }
}

/// Calls `==` on two `std::path::Path`s, which compares them component by
/// component. Its result is taken as the name `std_path_eq` of the two
/// paths; as `Path` is `Eq`, the same text is always the same path.
#[verifier::external_body]
pub(crate) fn same_path(a: &str, b: &str) -> (r: bool)
    ensures
        r == std_path_eq(a@, b@),
        a@ == b@ ==> r,
{
    std::path::Path::new(a) == std::path::Path::new(b)
}

} // verus!
