//! Verified helpers over strings: equality, prefix and substring tests,
//! joining, trimming, decimal rendering, and line counting.

use vstd::prelude::*;
use vstd::string::*;

verus! {

/// The views of a sequence of strings.
pub open spec fn views(s: Seq<String>) -> Seq<Seq<char>> {
    s.map_values(|x: String| x@)
}

pub fn str_eq(a: &str, b: &str) -> (r: bool)
    ensures
        r == (a@ == b@),
{
    let al = a.unicode_len();
    let bl = b.unicode_len();
    if al != bl {
        return false;
    }
    let mut i: usize = 0;
    while i < al
        invariant
            al == a@.len(),
            al == b@.len(),
            i <= al,
            forall|j: int| 0 <= j < i ==> a@[j] == b@[j],
        decreases al - i,
    {
        if a.get_char(i) != b.get_char(i) {
            return false;
        }
        i = i + 1;
    }
    proof {
        assert(a@ =~= b@);
    }
    true
}

/// `p` stands at the front of `s`.
pub open spec fn spec_starts_with(s: Seq<char>, p: Seq<char>) -> bool {
    p.is_prefix_of(s)
}

pub fn starts_with(s: &str, p: &str) -> (r: bool)
    ensures
        r == spec_starts_with(s@, p@),
{
    let sl = s.unicode_len();
    let pl = p.unicode_len();
    if pl > sl {
        return false;
    }
    let mut i: usize = 0;
    while i < pl
        invariant
            sl == s@.len(),
            pl == p@.len(),
            pl <= sl,
            i <= pl,
            forall|j: int| 0 <= j < i ==> s@[j] == p@[j],
        decreases pl - i,
    {
        if s.get_char(i) != p.get_char(i) {
            proof {
                assert(s@.subrange(0, p@.len() as int)[i as int] == s@[i as int]);
            }
            return false;
        }
        i = i + 1;
    }
    proof {
        assert(p@ =~= s@.subrange(0, p@.len() as int));
    }
    true
}

/// `pre` names a leading run of whole path components of `path`. A
/// trailing separator on `pre` is ignored (so a prefix entry written
/// with or without it names the same components); what remains must be a
/// character prefix of `path` ending at a component boundary — the whole
/// path, a separator in `path` right after it, or the root separator
/// itself. The empty prefix names every path.
pub open spec fn spec_path_prefix(pre: Seq<char>, path: Seq<char>) -> bool {
    let q = if pre.len() > 1 && pre.last() == '/' {
        pre.drop_last()
    } else {
        pre
    };
    spec_starts_with(path, q) && (q.len() == 0 || q.len() == path.len() || (q.len() == 1 && q[0]
        == '/') || path[q.len() as int] == '/')
}

pub fn path_prefix(pre: &str, path: &str) -> (r: bool)
    ensures
        r == spec_path_prefix(pre@, path@),
{
    let pl = pre.unicode_len();
    let ql = if pl > 1 && pre.get_char(pl - 1) == '/' {
        pl - 1
    } else {
        pl
    };
    let q = pre.substring_char(0, ql);
    proof {
        assert(q@ =~= (if pre@.len() > 1 && pre@.last() == '/' {
            pre@.drop_last()
        } else {
            pre@
        }));
    }
    if !starts_with(path, q) {
        return false;
    }
    if ql == 0 || ql == path.unicode_len() {
        return true;
    }
    if ql == 1 && q.get_char(0) == '/' {
        return true;
    }
    path.get_char(ql) == '/'
}

/// `n` occurs contiguously somewhere inside `h`.
pub open spec fn spec_contains(h: Seq<char>, n: Seq<char>) -> bool {
    exists|i: int| 0 <= i <= h.len() - n.len() && #[trigger] h.subrange(i, i + n.len()) =~= n
}

pub fn str_contains(h: &str, n: &str) -> (r: bool)
    ensures
        r == spec_contains(h@, n@),
{
    let hl = h.unicode_len();
    let nl = n.unicode_len();
    if nl > hl {
        return false;
    }
    let mut i: usize = 0;
    while i <= hl - nl
        invariant
            hl == h@.len(),
            nl == n@.len(),
            nl <= hl,
            i <= hl - nl + 1,
            forall|k: int| 0 <= k < i ==> !(#[trigger] h@.subrange(k, k + n@.len()) =~= n@),
        decreases hl - nl - i + 1,
    {
        let mut j: usize = 0;
        let mut matched = true;
        while j < nl
            invariant
                hl == h@.len(),
                nl == n@.len(),
                i + nl <= hl,
                j <= nl,
                matched ==> forall|m: int| 0 <= m < j ==> h@[i + m] == n@[m],
                !matched ==> !(h@.subrange(i as int, i + n@.len()) =~= n@),
            decreases nl - j,
        {
            if h.get_char(i + j) != n.get_char(j) {
                proof {
                    assert(h@.subrange(i as int, i + n@.len())[j as int] == h@[i + j]);
                }
                matched = false;
                j = nl;
            } else {
                j = j + 1;
            }
        }
        if matched {
            proof {
                assert(h@.subrange(i as int, i + n@.len()) =~= n@);
            }
            return true;
        }
        i = i + 1;
    }
    false
}

/// The parts joined by single spaces, in order.
pub open spec fn spec_join_spaces(parts: Seq<Seq<char>>) -> Seq<char>
    decreases parts.len(),
{
    if parts.len() == 0 {
        Seq::empty()
    } else if parts.len() == 1 {
        parts[0]
    } else {
        spec_join_spaces(parts.drop_last()) + " "@ + parts.last()
    }
}

pub fn join_spaces(parts: &Vec<String>) -> (r: String)
    ensures
        r@ == spec_join_spaces(views(parts@)),
{
    let mut r = String::new();
    let n = parts.len();
    let mut i: usize = 0;
    while i < n
        invariant
            n == parts@.len(),
            i <= n,
            r@ == spec_join_spaces(views(parts@.subrange(0, i as int))),
        decreases n - i,
    {
        if i > 0 {
            r.append(" ");
        }
        r.append(parts[i].as_str());
        proof {
            assert(views(parts@.subrange(0, i + 1)).drop_last() =~= views(
                parts@.subrange(0, i as int),
            ));
            assert(views(parts@.subrange(0, i + 1)).last() == parts@[i as int]@);
        }
        i = i + 1;
    }
    proof {
        assert(parts@.subrange(0, n as int) =~= parts@);
    }
    r
}

/// A tool and its arguments rendered as one command line: the tool name,
/// one space, then the space-joined arguments (empty arguments leave a
/// trailing space after the tool name).
pub open spec fn spec_command_line(tool: Seq<char>, args: Seq<Seq<char>>) -> Seq<char> {
    tool + " "@ + spec_join_spaces(args)
}

pub fn command_line(tool: &str, args: &Vec<String>) -> (r: String)
    ensures
        r@ == spec_command_line(tool@, views(args@)),
{
    let joined = join_spaces(args);
    tool.to_owned().concat(" ").concat(joined.as_str())
}

/// The decimal digit `d` as a character.
pub open spec fn spec_digit_char(d: nat) -> char {
    ((d + 48) as u8) as char
}

/// The decimal rendering of `n`, most significant digit first.
pub open spec fn spec_dec(n: nat) -> Seq<char>
    decreases n,
{
    if n < 10 {
        seq![spec_digit_char(n)]
    } else {
        spec_dec(n / 10) + seq![spec_digit_char(n % 10)]
    }
}

fn digit_str(d: usize) -> (r: &'static str)
    requires
        d < 10,
    ensures
        r@ =~= seq![spec_digit_char(d as nat)],
{
    proof {
        reveal_strlit("0");
        reveal_strlit("1");
        reveal_strlit("2");
        reveal_strlit("3");
        reveal_strlit("4");
        reveal_strlit("5");
        reveal_strlit("6");
        reveal_strlit("7");
        reveal_strlit("8");
        reveal_strlit("9");
    }
    match d {
        0 => "0",
        1 => "1",
        2 => "2",
        3 => "3",
        4 => "4",
        5 => "5",
        6 => "6",
        7 => "7",
        8 => "8",
        _ => "9",
    }
}

pub fn usize_to_string(n: usize) -> (r: String)
    ensures
        r@ == spec_dec(n as nat),
    decreases n,
{
    if n < 10 {
        digit_str(n).to_owned()
    } else {
        usize_to_string(n / 10).concat(digit_str(n % 10))
    }
}

/// The characters the trimmers treat as blank: the Unicode White_Space
/// set, as the standard library's trimming functions define whitespace.
pub open spec fn spec_is_space(c: char) -> bool {
    (0x09 <= c as u32 && c as u32 <= 0x0d) || c as u32 == 0x20 || c as u32 == 0x85 || c as u32
        == 0xa0 || c as u32 == 0x1680 || (0x2000 <= c as u32 && c as u32 <= 0x200a) || c as u32
        == 0x2028 || c as u32 == 0x2029 || c as u32 == 0x202f || c as u32 == 0x205f || c as u32
        == 0x3000
}

pub fn is_space(c: char) -> (r: bool)
    ensures
        r == spec_is_space(c),
{
    let u = c as u32;
    (0x09 <= u && u <= 0x0d) || u == 0x20 || u == 0x85 || u == 0xa0 || u == 0x1680 || (0x2000 <= u
        && u <= 0x200a) || u == 0x2028 || u == 0x2029 || u == 0x202f || u == 0x205f || u == 0x3000
}

/// `s` with every leading `>` removed.
pub open spec fn spec_strip_gt(s: Seq<char>) -> Seq<char>
    decreases s.len(),
{
    if s.len() > 0 && s[0] == '>' {
        spec_strip_gt(s.drop_first())
    } else {
        s
    }
}

/// `s` with leading blanks removed.
pub open spec fn spec_trim_front(s: Seq<char>) -> Seq<char>
    decreases s.len(),
{
    if s.len() > 0 && spec_is_space(s[0]) {
        spec_trim_front(s.drop_first())
    } else {
        s
    }
}

/// `s` with trailing blanks removed.
pub open spec fn spec_trim_back(s: Seq<char>) -> Seq<char>
    decreases s.len(),
{
    if s.len() > 0 && spec_is_space(s.last()) {
        spec_trim_back(s.drop_last())
    } else {
        s
    }
}

/// `s` with blanks removed from both ends.
pub open spec fn spec_trim(s: Seq<char>) -> Seq<char> {
    spec_trim_back(spec_trim_front(s))
}

proof fn lemma_strip_gt_subrange(s: Seq<char>, k: int)
    requires
        0 <= k <= s.len(),
        forall|j: int| 0 <= j < k ==> s[j] == '>',
        k == s.len() || s[k] != '>',
    ensures
        spec_strip_gt(s) =~= s.subrange(k, s.len() as int),
    decreases k,
{
    if k == 0 {
        if s.len() > 0 && s[0] == '>' {
        } else {
            assert(spec_strip_gt(s) == s);
            assert(s.subrange(0, s.len() as int) =~= s);
        }
    } else {
        lemma_strip_gt_subrange(s.drop_first(), k - 1);
        assert(s.drop_first().subrange(k - 1, s.drop_first().len() as int) =~= s.subrange(
            k,
            s.len() as int,
        ));
    }
}

proof fn lemma_trim_front_subrange(s: Seq<char>, k: int)
    requires
        0 <= k <= s.len(),
        forall|j: int| 0 <= j < k ==> spec_is_space(s[j]),
        k == s.len() || !spec_is_space(s[k]),
    ensures
        spec_trim_front(s) =~= s.subrange(k, s.len() as int),
    decreases k,
{
    if k == 0 {
        assert(s.subrange(0, s.len() as int) =~= s);
    } else {
        lemma_trim_front_subrange(s.drop_first(), k - 1);
        assert(s.drop_first().subrange(k - 1, s.drop_first().len() as int) =~= s.subrange(
            k,
            s.len() as int,
        ));
    }
}

proof fn lemma_trim_back_subrange(s: Seq<char>, k: int)
    requires
        0 <= k <= s.len(),
        forall|j: int| k <= j < s.len() ==> spec_is_space(s[j]),
        k == 0 || !spec_is_space(s[k - 1]),
    ensures
        spec_trim_back(s) =~= s.subrange(0, k),
    decreases s.len() - k,
{
    if k == s.len() {
        if s.len() > 0 && spec_is_space(s.last()) {
            lemma_trim_back_subrange(s.drop_last(), k - 1);
            assert(s.drop_last().subrange(0, k - 1) =~= s.subrange(0, k - 1));
            assert(false);
        } else {
            assert(s.subrange(0, k) =~= s);
        }
    } else {
        lemma_trim_back_subrange(s.drop_last(), k);
        assert(s.drop_last().subrange(0, k) =~= s.subrange(0, k));
    }
}

/// `s` with its trailing blanks removed.
pub fn trim_end_blanks(s: &str) -> (r: &str)
    ensures
        r@ == spec_trim_back(s@),
{
    let len = s.unicode_len();
    let mut b: usize = len;
    while b > 0 && is_space(s.get_char(b - 1))
        invariant
            len == s@.len(),
            b <= len,
            forall|j: int| b <= j < len ==> spec_is_space(s@[j]),
        decreases b,
    {
        b = b - 1;
    }
    proof {
        lemma_trim_back_subrange(s@, b as int);
    }
    s.substring_char(0, b)
}

/// The target path of a redirect argument: leading `>` markers stripped,
/// then blanks trimmed from both ends.
pub open spec fn spec_redirect_target(s: Seq<char>) -> Seq<char> {
    spec_trim(spec_strip_gt(s))
}

pub fn redirect_target(s: &str) -> (r: String)
    ensures
        r@ == spec_redirect_target(s@),
{
    let len = s.unicode_len();
    let mut lo: usize = 0;
    while lo < len && s.get_char(lo) == '>'
        invariant
            len == s@.len(),
            lo <= len,
            forall|j: int| 0 <= j < lo ==> s@[j] == '>',
        decreases len - lo,
    {
        lo = lo + 1;
    }
    proof {
        lemma_strip_gt_subrange(s@, lo as int);
    }
    let ghost stripped = s@.subrange(lo as int, s@.len() as int);
    let mut a: usize = lo;
    while a < len && is_space(s.get_char(a))
        invariant
            len == s@.len(),
            lo <= a <= len,
            forall|j: int| lo <= j < a ==> spec_is_space(s@[j]),
        decreases len - a,
    {
        a = a + 1;
    }
    proof {
        assert(forall|j: int| 0 <= j < a - lo ==> stripped[j] == s@[j + lo]);
        lemma_trim_front_subrange(stripped, a - lo);
    }
    let ghost fronted = stripped.subrange(a - lo, stripped.len() as int);
    let mut b: usize = len;
    while b > a && is_space(s.get_char(b - 1))
        invariant
            len == s@.len(),
            a <= b <= len,
            forall|j: int| b <= j < len ==> spec_is_space(s@[j]),
        decreases b,
    {
        b = b - 1;
    }
    proof {
        assert(forall|j: int| 0 <= j < fronted.len() ==> fronted[j] == s@[j + a]);
        if a < len && b == a {
            assert(!spec_is_space(s@[a as int]) || !(a < len));
        }
        lemma_trim_back_subrange(fronted, b - a);
        assert(fronted.subrange(0, b - a) =~= s@.subrange(a as int, b as int));
    }
    s.substring_char(a, b).to_owned()
}

/// Relies on String::push: appends exactly one character.
#[verifier::external_body]
pub(crate) fn push_char(s: &mut String, c: char)
    ensures
        final(s)@ == old(s)@.push(c),
{
    s.push(c);
}

/// An element-for-element copy of a byte vector.
pub(crate) fn copy_bytes(v: &Vec<u8>) -> (r: Vec<u8>)
    ensures
        r@ == v@,
{
    let mut r: Vec<u8> = Vec::new();
    let n = v.len();
    let mut i: usize = 0;
    while i < n
        invariant
            n == v@.len(),
            i <= n,
            r@ == v@.subrange(0, i as int),
        decreases n - i,
    {
        r.push(v[i]);
        proof {
            assert(v@.subrange(0, i + 1) =~= v@.subrange(0, i as int).push(v@[i as int]));
        }
        i = i + 1;
    }
    proof {
        assert(v@.subrange(0, n as int) =~= v@);
    }
    r
}

/// An element-for-element copy of a string vector.
pub(crate) fn clone_strings(v: &Vec<String>) -> (r: Vec<String>)
    ensures
        r@ == v@,
{
    let mut r: Vec<String> = Vec::new();
    let n = v.len();
    let mut i: usize = 0;
    while i < n
        invariant
            n == v@.len(),
            i <= n,
            r@ == v@.subrange(0, i as int),
        decreases n - i,
    {
        r.push(v[i].clone());
        proof {
            assert(v@.subrange(0, i + 1) =~= v@.subrange(0, i as int).push(v@[i as int]));
        }
        i = i + 1;
    }
    proof {
        assert(v@.subrange(0, n as int) =~= v@);
    }
    r
}

/// The number of characters equal to `c` in `s`.
pub open spec fn spec_count_char(s: Seq<char>, c: char) -> nat
    decreases s.len(),
{
    if s.len() == 0 {
        0
    } else {
        spec_count_char(s.drop_last(), c) + if s.last() == c {
            1nat
        } else {
            0nat
        }
    }
}

proof fn lemma_count_char_le_len(s: Seq<char>, c: char)
    ensures
        spec_count_char(s, c) <= s.len(),
    decreases s.len(),
{
    if s.len() > 0 {
        lemma_count_char_le_len(s.drop_last(), c);
    }
}

/// How many lines `s` holds, counted as the standard library counts them:
/// separators are newlines, and a trailing newline does not open a final
/// empty line. The empty text has no lines.
pub open spec fn spec_line_count(s: Seq<char>) -> nat {
    if s.len() == 0 {
        0
    } else {
        spec_count_char(s, '\n') + if s.last() == '\n' {
            0nat
        } else {
            1nat
        }
    }
}

pub fn count_lines(s: &str) -> (r: usize)
    ensures
        r as nat == spec_line_count(s@),
{
    let len = s.unicode_len();
    if len == 0 {
        return 0;
    }
    let mut cnt: usize = 0;
    let mut i: usize = 0;
    while i < len
        invariant
            len == s@.len(),
            i <= len,
            cnt as nat == spec_count_char(s@.subrange(0, i as int), '\n'),
            cnt <= i,
        decreases len - i,
    {
        proof {
            assert(s@.subrange(0, i + 1).drop_last() =~= s@.subrange(0, i as int));
            lemma_count_char_le_len(s@.subrange(0, i as int), '\n');
        }
        if s.get_char(i) == '\n' {
            cnt = cnt + 1;
        }
        i = i + 1;
    }
    proof {
        assert(s@.subrange(0, len as int) =~= s@);
    }
    if s.get_char(len - 1) == '\n' {
        cnt
    } else {
        proof {
            lemma_count_char_le_len(s@.drop_last(), '\n');
            assert(spec_count_char(s@, '\n') == spec_count_char(s@.drop_last(), '\n'));
        }
        cnt + 1
    }
}

/// A text without the character holds none of it.
pub proof fn lemma_count_char_zero(s: Seq<char>, c: char)
    requires
        forall|j: int| 0 <= j < s.len() ==> s[j] != c,
    ensures
        spec_count_char(s, c) == 0,
    decreases s.len(),
{
    if s.len() > 0 {
        lemma_count_char_zero(s.drop_last(), c);
    }
}

/// A non-empty text free of newlines is a single line.
pub proof fn lemma_single_line(s: Seq<char>)
    requires
        s.len() > 0,
        forall|j: int| 0 <= j < s.len() ==> s[j] != '\n',
    ensures
        spec_line_count(s) == 1,
{
    lemma_count_char_zero(s, '\n');
}

} // verus!
