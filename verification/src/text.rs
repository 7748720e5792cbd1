use vstd::prelude::*;

verus! {

/// True when `c` is a whitespace character (the `White_Space` set that
/// Rust's `char::is_whitespace` recognises).
pub open spec fn is_ws_char(c: char) -> bool {
    let n = c as u32;
    ||| n == 0x20
    ||| (0x09 <= n && n <= 0x0D)
    ||| n == 0x85
    ||| n == 0xA0
    ||| n == 0x1680
    ||| (0x2000 <= n && n <= 0x200A)
    ||| n == 0x2028
    ||| n == 0x2029
    ||| n == 0x202F
    ||| n == 0x205F
    ||| n == 0x3000
}

/// Executable whitespace test, equivalent to `is_ws_char`.
pub fn is_ws(c: char) -> (b: bool)
    ensures
        b == is_ws_char(c),
{
    let n = c as u32;
    n == 0x20 || (0x09 <= n && n <= 0x0D) || n == 0x85 || n == 0xA0 || n == 0x1680 || (0x2000 <= n
        && n <= 0x200A) || n == 0x2028 || n == 0x2029 || n == 0x202F || n == 0x205F || n == 0x3000
}

/// `n` copies of the character `c` (empty when `n <= 0`).
pub open spec fn repeat_char(c: char, n: int) -> Seq<char> {
    Seq::new(if n <= 0 { 0 } else { n as nat }, |i: int| c)
}

/// `n` spaces.
pub open spec fn spaces(n: int) -> Seq<char> {
    repeat_char(' ', n)
}

/// `f` left-justified in a cell of `n` characters: `f` followed by however
/// many spaces bring the length up to `n`; `f` unchanged when it is already
/// `n` or more characters long.
pub open spec fn pad_right(f: Seq<char>, n: int) -> Seq<char> {
    if f.len() >= n {
        f
    } else {
        f + spaces(n - f.len())
    }
}

/// `s` with every trailing whitespace character removed.
pub open spec fn rtrim(s: Seq<char>) -> Seq<char>
    decreases s.len(),
{
    if s.len() == 0 {
        s
    } else if is_ws_char(s.last()) {
        rtrim(s.drop_last())
    } else {
        s
    }
}

/// How many times the character `c` occurs in `s`.
pub open spec fn count_char(s: Seq<char>, c: char) -> int
    decreases s.len(),
{
    if s.len() == 0 {
        0
    } else {
        count_char(s.drop_last(), c) + if s.last() == c {
            1int
        } else {
            0int
        }
    }
}

/// No field of any record contains a newline character.
pub open spec fn newline_free(rows: Seq<Seq<Seq<char>>>) -> bool {
    forall|k: int, j: int|
        0 <= k < rows.len() && 0 <= j < rows[k].len() ==> count_char(
            #[trigger] rows[k][j],
            '\n',
        ) == 0
}

pub proof fn lemma_repeat_concat(c: char, a: int, b: int)
    requires
        a >= 0,
        b >= 0,
    ensures
        repeat_char(c, a) + repeat_char(c, b) == repeat_char(c, a + b),
{
    assert(repeat_char(c, a) + repeat_char(c, b) =~= repeat_char(c, a + b));
}

pub proof fn lemma_count_concat(a: Seq<char>, b: Seq<char>, c: char)
    ensures
        count_char(a + b, c) == count_char(a, c) + count_char(b, c),
    decreases b.len(),
{
    if b.len() == 0 {
        assert(a + b =~= a);
    } else {
        assert((a + b).drop_last() =~= a + b.drop_last());
        assert((a + b).last() == b.last());
        lemma_count_concat(a, b.drop_last(), c);
    }
}

pub proof fn lemma_count_nonneg(s: Seq<char>, c: char)
    ensures
        count_char(s, c) >= 0,
    decreases s.len(),
{
    if s.len() > 0 {
        lemma_count_nonneg(s.drop_last(), c);
    }
}

pub proof fn lemma_count_zero(s: Seq<char>, c: char)
    ensures
        (count_char(s, c) == 0) <==> (forall|i: int| 0 <= i < s.len() ==> s[i] != c),
    decreases s.len(),
{
    if s.len() > 0 {
        let d = s.drop_last();
        lemma_count_zero(d, c);
        lemma_count_nonneg(d, c);
        if count_char(s, c) == 0 {
            assert forall|i: int| 0 <= i < s.len() implies s[i] != c by {
                if i < s.len() - 1 {
                    assert(s[i] == d[i]);
                    assert(d[i] != c);
                } else {
                    assert(s[i] == s.last());
                }
            }
        } else {
            if s.last() == c {
                assert(s[s.len() - 1] == c);
            } else {
                assert(count_char(d, c) != 0);
                let i = choose|i: int| 0 <= i < d.len() && d[i] == c;
                assert(s[i] == d[i]);
                assert(s[i] == c);
            }
        }
    }
}

pub proof fn lemma_count_repeat_other(c: char, d: char, n: int)
    requires
        c != d,
    ensures
        count_char(repeat_char(c, n), d) == 0,
{
    lemma_count_zero(repeat_char(c, n), d);
}

pub proof fn lemma_count_single(c: char, d: char)
    ensures
        count_char(seq![c], d) == if c == d {
            1int
        } else {
            0int
        },
{
    let s = seq![c];
    assert(s.drop_last() =~= Seq::<char>::empty());
    assert(count_char(s.drop_last(), d) == 0);
    assert(s.last() == c);
}

/// `rtrim(s)` is a prefix of `s`.
pub proof fn lemma_rtrim_prefix(s: Seq<char>)
    ensures
        rtrim(s).len() <= s.len(),
        forall|i: int| 0 <= i < rtrim(s).len() ==> rtrim(s)[i] == s[i],
    decreases s.len(),
{
    if s.len() > 0 && is_ws_char(s.last()) {
        let d = s.drop_last();
        lemma_rtrim_prefix(d);
        assert(rtrim(s) == rtrim(d));
        assert forall|i: int| 0 <= i < rtrim(s).len() implies rtrim(s)[i] == s[i] by {
            assert(rtrim(d)[i] == d[i]);
            assert(d[i] == s[i]);
        }
    }
}

/// A trimmed sequence never ends in whitespace.
pub proof fn lemma_rtrim_no_trailing_ws(s: Seq<char>)
    ensures
        rtrim(s).len() > 0 ==> !is_ws_char(rtrim(s).last()),
    decreases s.len(),
{
    if s.len() > 0 && is_ws_char(s.last()) {
        lemma_rtrim_no_trailing_ws(s.drop_last());
    }
}

/// When everything at or after position `k` is whitespace and position
/// `k - 1` (if any) is not, trimming keeps exactly the first `k` characters.
pub proof fn lemma_rtrim_take(s: Seq<char>, k: int)
    requires
        0 <= k <= s.len(),
        forall|i: int| k <= i < s.len() ==> is_ws_char(#[trigger] s[i]),
        k > 0 ==> !is_ws_char(s[k - 1]),
    ensures
        rtrim(s) == s.take(k),
    decreases s.len(),
{
    if s.len() == 0 {
        assert(rtrim(s) =~= s.take(0));
    } else if k == s.len() {
        assert(!is_ws_char(s.last()));
        assert(rtrim(s) =~= s.take(k));
    } else {
        assert(is_ws_char(s[s.len() - 1]));
        let d = s.drop_last();
        assert(forall|i: int| k <= i < d.len() ==> is_ws_char(#[trigger] d[i]));
        if k > 0 {
            assert(d[k - 1] == s[k - 1]);
        }
        lemma_rtrim_take(d, k);
        assert(d.take(k) =~= s.take(k));
    }
}

/// A character absent from `s` is absent from its trimmed form.
pub proof fn lemma_count_rtrim_zero(s: Seq<char>, c: char)
    requires
        count_char(s, c) == 0,
    ensures
        count_char(rtrim(s), c) == 0,
{
    lemma_count_zero(s, c);
    lemma_rtrim_prefix(s);
    assert forall|i: int| 0 <= i < rtrim(s).len() implies rtrim(s)[i] != c by {
        assert(rtrim(s)[i] == s[i]);
    }
    lemma_count_zero(rtrim(s), c);
}

/// Appends `n` copies of the single character held by `piece`.
pub fn append_repeat(out: &mut String, piece: &str, n: usize)
    requires
        piece@.len() == 1,
    ensures
        final(out)@ == old(out)@ + repeat_char(piece@[0], n as int),
{
    let ghost c = piece@[0];
    let mut i: usize = 0;
    while i < n
        invariant
            i <= n,
            piece@.len() == 1,
            piece@[0] == c,
            out@ == old(out)@ + repeat_char(c, i as int),
        decreases n - i,
    {
        out.append(piece);
        proof {
            assert(piece@ =~= repeat_char(c, 1));
            lemma_repeat_concat(c, i as int, 1);
            assert((old(out)@ + repeat_char(c, i as int)) + repeat_char(c, 1) =~= old(out)@
                + repeat_char(c, i as int + 1));
        }
        i += 1;
    }
    proof {
        assert(out@ == old(out)@ + repeat_char(c, n as int));
    }
}

/// Padding a cell further on the right only lengthens its run of spaces.
pub proof fn lemma_pad_extend(f: Seq<char>, w: int, sp: int)
    requires
        f.len() <= w,
        0 <= sp,
    ensures
        pad_right(f, w) + spaces(sp) == pad_right(f, w + sp),
{
    lemma_repeat_concat(' ', w - f.len(), sp);
    if f.len() < w {
        assert(pad_right(f, w) + spaces(sp) =~= f + (spaces(w - f.len()) + spaces(sp)));
        assert(pad_right(f, w + sp) =~= f + spaces(w + sp - f.len()));
    } else {
        assert(pad_right(f, w) + spaces(sp) =~= pad_right(f, w + sp));
    }
}

/// Padding introduces no character but spaces.
pub proof fn lemma_count_pad(f: Seq<char>, n: int, c: char)
    requires
        c != ' ',
    ensures
        count_char(pad_right(f, n), c) == count_char(f, c),
{
    if f.len() < n {
        lemma_count_concat(f, spaces(n - f.len()), c);
        lemma_count_repeat_other(' ', c, n - f.len());
    }
}

/// Appends `n` spaces.
pub fn append_spaces(out: &mut String, n: usize)
    ensures
        final(out)@ == old(out)@ + spaces(n as int),
{
    proof {
        reveal_strlit(" ");
        assert(" "@ =~= seq![' ']);
    }
    append_repeat(out, " ", n);
}

/// Appends `f` followed by the spaces that left-justify it in a cell of
/// `w` characters.
pub fn append_padded(out: &mut String, f: &str, w: usize)
    requires
        f@.len() <= w,
    ensures
        final(out)@ == old(out)@ + pad_right(f@, w as int),
{
    let flen = f.unicode_len();
    out.append(f);
    append_spaces(out, w - flen);
    proof {
        assert(old(out)@ + f@ + spaces(w as int - f@.len() as int) =~= old(out)@ + pad_right(
            f@,
            w as int,
        ));
    }
}

} // verus!
