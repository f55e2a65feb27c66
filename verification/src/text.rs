//! Character-level text utilities: whitespace splitting, splitting on the
//! pipe delimiter, trimming, joining, and decimal parsing, each tied to a
//! spec-level model over `Seq<char>`.

use vstd::prelude::*;
use vstd::string::StrSliceExecFns;
use vstd::string::StringExecFns;

verus! {

/// One character of Unicode white space, the set that `str::split_whitespace`
/// and `str::trim` go by.
pub open spec fn is_space_char(c: char) -> bool {
    let u = c as u32;
    u == 0x20 || (0x9 <= u && u <= 0xd) || u == 0x85 || u == 0xa0 || u == 0x1680 || (0x2000 <= u
        && u <= 0x200a) || u == 0x2028 || u == 0x2029 || u == 0x202f || u == 0x205f || u == 0x3000
}

pub fn is_space(c: char) -> (b: bool)
    ensures
        b == is_space_char(c),
{
    let u: u32 = c as u32;
    u == 0x20 || (0x9 <= u && u <= 0xd) || u == 0x85 || u == 0xa0 || u == 0x1680 || (0x2000 <= u
        && u <= 0x200a) || u == 0x2028 || u == 0x2029 || u == 0x202f || u == 0x205f || u == 0x3000
}

/// The views of a sequence of strings.
pub open spec fn views_of(q: Seq<String>) -> Seq<Seq<char>> {
    Seq::new(q.len(), |i: int| q[i]@)
}

/// Whitespace splitting as a left-to-right scan: `cur` is the token being
/// built, `acc` the tokens already complete.
pub open spec fn tokens_from(s: Seq<char>, i: int, cur: Seq<char>, acc: Seq<Seq<char>>) -> Seq<
    Seq<char>,
>
    decreases s.len() - i,
{
    if i < 0 || i >= s.len() {
        if cur.len() > 0 {
            acc.push(cur)
        } else {
            acc
        }
    } else if is_space_char(s[i]) {
        if cur.len() > 0 {
            tokens_from(s, i + 1, Seq::empty(), acc.push(cur))
        } else {
            tokens_from(s, i + 1, Seq::empty(), acc)
        }
    } else {
        tokens_from(s, i + 1, cur.push(s[i]), acc)
    }
}

/// The whitespace-split tokens of `s`, in order.
pub open spec fn split_tokens(s: Seq<char>) -> Seq<Seq<char>> {
    tokens_from(s, 0, Seq::empty(), Seq::empty())
}

/// Scanning across a run of non-space characters extends the current token
/// by exactly that run.
proof fn lemma_tokens_scan(s: Seq<char>, i: int, j: int, cur: Seq<char>, acc: Seq<Seq<char>>)
    requires
        0 <= i <= j <= s.len(),
        forall|k: int| i <= k < j ==> !is_space_char(s[k]),
    ensures
        tokens_from(s, i, cur, acc) == tokens_from(s, j, cur + s.subrange(i, j), acc),
    decreases j - i,
{
    if i == j {
        assert(cur + s.subrange(i, i) =~= cur);
    } else {
        lemma_tokens_scan(s, i + 1, j, cur.push(s[i]), acc);
        assert(cur.push(s[i]) + s.subrange(i + 1, j) =~= cur + s.subrange(i, j));
    }
}

/// Splits on whitespace, exactly as the token model says.
pub fn split_whitespace_str(s: &str) -> (r: Vec<String>)
    ensures
        views_of(r@) == split_tokens(s@),
{
    let n: usize = s.unicode_len();
    let mut toks: Vec<String> = Vec::new();
    proof {
        assert(views_of(toks@) =~= Seq::<Seq<char>>::empty());
    }
    let mut i: usize = 0;
    while i < n
        invariant
            i <= n,
            n == s@.len(),
            tokens_from(s@, i as int, Seq::empty(), views_of(toks@)) == split_tokens(s@),
        decreases n - i,
    {
        if is_space(s.get_char(i)) {
            i = i + 1;
        } else {
            let mut j: usize = i + 1;
            while j < n
                invariant_except_break
                    i < j <= n,
                    n == s@.len(),
                    forall|k: int| i <= k < j ==> !is_space_char(s@[k]),
                ensures
                    i < j <= n,
                    n == s@.len(),
                    forall|k: int| i <= k < j ==> !is_space_char(s@[k]),
                    j < n ==> is_space_char(s@[j as int]),
                decreases n - j,
            {
                if is_space(s.get_char(j)) {
                    break ;
                }
                j = j + 1;
            }
            let tok: String = s.substring_char(i, j).to_owned();
            let ghost pre = views_of(toks@);
            proof {
                lemma_tokens_scan(s@, i as int, j as int, Seq::empty(), pre);
                assert(Seq::empty() + s@.subrange(i as int, j as int) =~= s@.subrange(
                    i as int,
                    j as int,
                ));
            }
            toks.push(tok);
            proof {
                assert(views_of(toks@) =~= pre.push(tok@));
            }
            i = j;
        }
    }
    toks
}

/// Splitting on `'|'` as a left-to-right scan; empty segments are kept, and
/// there is always at least one segment.
pub open spec fn segments_from(s: Seq<char>, i: int, cur: Seq<char>, acc: Seq<Seq<char>>) -> Seq<
    Seq<char>,
>
    decreases s.len() - i,
{
    if i < 0 || i >= s.len() {
        acc.push(cur)
    } else if s[i] == '|' {
        segments_from(s, i + 1, Seq::empty(), acc.push(cur))
    } else {
        segments_from(s, i + 1, cur.push(s[i]), acc)
    }
}

/// The segments of `s` between `'|'` delimiters, in order.
pub open spec fn split_pipes(s: Seq<char>) -> Seq<Seq<char>> {
    segments_from(s, 0, Seq::empty(), Seq::empty())
}

proof fn lemma_segments_scan(s: Seq<char>, i: int, j: int, cur: Seq<char>, acc: Seq<Seq<char>>)
    requires
        0 <= i <= j <= s.len(),
        forall|k: int| i <= k < j ==> s[k] != '|',
    ensures
        segments_from(s, i, cur, acc) == segments_from(s, j, cur + s.subrange(i, j), acc),
    decreases j - i,
{
    if i == j {
        assert(cur + s.subrange(i, i) =~= cur);
    } else {
        lemma_segments_scan(s, i + 1, j, cur.push(s[i]), acc);
        assert(cur.push(s[i]) + s.subrange(i + 1, j) =~= cur + s.subrange(i, j));
    }
}

proof fn lemma_segments_from_len(s: Seq<char>, i: int, cur: Seq<char>, acc: Seq<Seq<char>>)
    ensures
        segments_from(s, i, cur, acc).len() > acc.len(),
    decreases s.len() - i,
{
    if i < 0 || i >= s.len() {
    } else if s[i] == '|' {
        lemma_segments_from_len(s, i + 1, Seq::empty(), acc.push(cur));
    } else {
        lemma_segments_from_len(s, i + 1, cur.push(s[i]), acc);
    }
}

/// There is always at least one pipe segment, even of the empty text.
pub proof fn lemma_split_pipes_nonempty(s: Seq<char>)
    ensures
        split_pipes(s).len() >= 1,
{
    lemma_segments_from_len(s, 0, Seq::empty(), Seq::empty());
}

/// Splits on the literal `'|'`, exactly as the segment model says.
pub fn split_pipes_str(s: &str) -> (r: Vec<String>)
    ensures
        views_of(r@) == split_pipes(s@),
        r@.len() >= 1,
{
    let n: usize = s.unicode_len();
    let mut segs: Vec<String> = Vec::new();
    proof {
        assert(views_of(segs@) =~= Seq::<Seq<char>>::empty());
    }
    let mut i: usize = 0;
    loop
        invariant_except_break
            i <= n,
            n == s@.len(),
            segments_from(s@, i as int, Seq::empty(), views_of(segs@)) == split_pipes(s@),
        ensures
            views_of(segs@) == split_pipes(s@),
            segs@.len() >= 1,
        decreases n - i,
    {
        let mut j: usize = i;
        while j < n
            invariant_except_break
                i <= j <= n,
                n == s@.len(),
                forall|k: int| i <= k < j ==> s@[k] != '|',
            ensures
                i <= j <= n,
                n == s@.len(),
                forall|k: int| i <= k < j ==> s@[k] != '|',
                j < n ==> s@[j as int] == '|',
            decreases n - j,
        {
            if s.get_char(j) == '|' {
                break ;
            }
            j = j + 1;
        }
        let seg: String = s.substring_char(i, j).to_owned();
        let ghost pre = views_of(segs@);
        proof {
            lemma_segments_scan(s@, i as int, j as int, Seq::empty(), pre);
            assert(Seq::empty() + s@.subrange(i as int, j as int) =~= s@.subrange(
                i as int,
                j as int,
            ));
        }
        segs.push(seg);
        proof {
            assert(views_of(segs@) =~= pre.push(seg@));
        }
        if j < n {
            i = j + 1;
        } else {
            break ;
        }
    }
    segs
}

proof fn lemma_tokens_shift(s: Seq<char>, i: int, cur: Seq<char>, acc: Seq<Seq<char>>)
    requires
        1 <= i,
        s.len() >= 1,
    ensures
        tokens_from(s, i, cur, acc) == tokens_from(s.drop_first(), i - 1, cur, acc),
    decreases s.len() - i,
{
    if i < s.len() {
        assert(s.drop_first()[i - 1] == s[i]);
        if is_space_char(s[i]) {
            if cur.len() > 0 {
                lemma_tokens_shift(s, i + 1, Seq::empty(), acc.push(cur));
            } else {
                lemma_tokens_shift(s, i + 1, Seq::empty(), acc);
            }
        } else {
            lemma_tokens_shift(s, i + 1, cur.push(s[i]), acc);
        }
    }
}

proof fn lemma_tokens_drop_last_space(s: Seq<char>, i: int, cur: Seq<char>, acc: Seq<Seq<char>>)
    requires
        s.len() >= 1,
        is_space_char(s.last()),
        0 <= i,
    ensures
        tokens_from(s, i, cur, acc) == tokens_from(s.drop_last(), i, cur, acc),
    decreases s.len() - i,
{
    if i == s.len() - 1 {
        if cur.len() > 0 {
            assert(tokens_from(s, i, cur, acc) == tokens_from(s, i + 1, Seq::empty(), acc.push(
                cur,
            )));
        } else {
            assert(tokens_from(s, i, cur, acc) == tokens_from(s, i + 1, Seq::empty(), acc));
        }
    } else if i < s.len() - 1 {
        assert(s.drop_last()[i] == s[i]);
        if is_space_char(s[i]) {
            if cur.len() > 0 {
                lemma_tokens_drop_last_space(s, i + 1, Seq::empty(), acc.push(cur));
            } else {
                lemma_tokens_drop_last_space(s, i + 1, Seq::empty(), acc);
            }
        } else {
            lemma_tokens_drop_last_space(s, i + 1, cur.push(s[i]), acc);
        }
    }
}

/// Trimming the surrounding white space leaves the tokens as they were.
pub proof fn lemma_tokens_trim(s: Seq<char>)
    ensures
        split_tokens(trim_spaces(s)) == split_tokens(s),
    decreases s.len(),
{
    if s.len() == 0 {
    } else if is_space_char(s[0]) {
        lemma_tokens_trim(s.drop_first());
        assert(split_tokens(s) == tokens_from(s, 1, Seq::empty(), Seq::empty()));
        lemma_tokens_shift(s, 1, Seq::empty(), Seq::empty());
    } else if is_space_char(s[s.len() - 1]) {
        lemma_tokens_trim(s.drop_last());
        lemma_tokens_drop_last_space(s, 0, Seq::empty(), Seq::empty());
    }
}

/// Trimming cannot bring a pipe character in.
pub proof fn lemma_trim_no_pipe(s: Seq<char>)
    requires
        forall|k: int| 0 <= k < s.len() ==> s[k] != '|',
    ensures
        forall|k: int| 0 <= k < trim_spaces(s).len() ==> trim_spaces(s)[k] != '|',
    decreases s.len(),
{
    if s.len() == 0 {
    } else if is_space_char(s[0]) {
        assert(forall|k: int|
            0 <= k < s.drop_first().len() ==> s.drop_first()[k] == s[k + 1] && s[k + 1] != '|');
        lemma_trim_no_pipe(s.drop_first());
        assert(trim_spaces(s) == trim_spaces(s.drop_first()));
    } else if is_space_char(s[s.len() - 1]) {
        assert(forall|k: int|
            0 <= k < s.drop_last().len() ==> s.drop_last()[k] == s[k] && s[k] != '|');
        lemma_trim_no_pipe(s.drop_last());
        assert(trim_spaces(s) == trim_spaces(s.drop_last()));
    } else {
        assert(trim_spaces(s) == s);
    }
}

/// Text without a pipe character is a single segment.
pub proof fn lemma_split_pipes_no_pipe(s: Seq<char>)
    requires
        forall|k: int| 0 <= k < s.len() ==> s[k] != '|',
    ensures
        split_pipes(s) == seq![s],
{
    lemma_segments_scan(s, 0, s.len() as int, Seq::empty(), Seq::empty());
    assert(Seq::<char>::empty() + s.subrange(0, s.len() as int) =~= s);
    assert(split_pipes(s) =~= seq![s]);
}

/// `s` with leading and trailing white space removed.
pub open spec fn trim_spaces(s: Seq<char>) -> Seq<char>
    decreases s.len(),
{
    if s.len() == 0 {
        s
    } else if is_space_char(s[0]) {
        trim_spaces(s.drop_first())
    } else if is_space_char(s[s.len() - 1]) {
        trim_spaces(s.drop_last())
    } else {
        s
    }
}

#[verifier::rlimit(30)]
proof fn lemma_trim_subrange(s: Seq<char>, a: int, b: int)
    requires
        0 <= a <= b <= s.len(),
        forall|k: int| 0 <= k < a ==> is_space_char(s[k]),
        forall|k: int| b <= k < s.len() ==> is_space_char(s[k]),
        a < b ==> !is_space_char(s[a]) && !is_space_char(s[b - 1]),
    ensures
        trim_spaces(s) == s.subrange(a, b),
    decreases s.len(),
{
    if a == b {
        if s.len() == 0 {
            assert(s.subrange(a, b) =~= s);
        } else {
            assert(is_space_char(s[0]));
            let t = s.drop_first();
            assert(forall|k: int| 0 <= k < t.len() ==> t[k] == s[k + 1]);
            lemma_trim_subrange(t, 0, 0);
            assert(s.subrange(a, b) =~= t.subrange(0, 0));
        }
    } else {
        if a > 0 {
            let t = s.drop_first();
            lemma_trim_subrange(t, a - 1, b - 1);
            assert(t.subrange(a - 1, b - 1) =~= s.subrange(a, b));
        } else if b < s.len() {
            let t = s.drop_last();
            lemma_trim_subrange(t, a, b);
            assert(t.subrange(a, b) =~= s.subrange(a, b));
        } else {
            assert(s.subrange(0, s.len() as int) =~= s);
        }
    }
}

/// Trims white space from both ends, exactly as the trim model says.
pub fn trim_str(s: &str) -> (r: String)
    ensures
        r@ == trim_spaces(s@),
{
    let n: usize = s.unicode_len();
    let mut a: usize = 0;
    while a < n
        invariant_except_break
            a <= n,
            n == s@.len(),
            forall|k: int| 0 <= k < a ==> is_space_char(s@[k]),
        ensures
            a <= n,
            n == s@.len(),
            forall|k: int| 0 <= k < a ==> is_space_char(s@[k]),
            a < n ==> !is_space_char(s@[a as int]),
        decreases n - a,
    {
        if !is_space(s.get_char(a)) {
            break ;
        }
        a = a + 1;
    }
    if a == n {
        proof {
            lemma_trim_subrange(s@, 0, 0);
            assert(s@.subrange(0, 0) =~= Seq::<char>::empty());
            reveal_strlit("");
            assert(""@ =~= Seq::<char>::empty());
        }
        return "".to_owned();
    }
    let mut b: usize = n;
    while b > a
        invariant_except_break
            a <= b <= n,
            n == s@.len(),
            forall|k: int| b <= k < n ==> is_space_char(s@[k]),
        ensures
            a <= b <= n,
            n == s@.len(),
            forall|k: int| b <= k < n ==> is_space_char(s@[k]),
            a < b ==> !is_space_char(s@[b - 1]),
        decreases b,
    {
        if !is_space(s.get_char(b - 1)) {
            break ;
        }
        b = b - 1;
    }
    proof {
        lemma_trim_subrange(s@, a as int, b as int);
    }
    s.substring_char(a, b).to_owned()
}

/// The tokens joined with a single space between neighbours.
pub open spec fn join_space(ts: Seq<Seq<char>>) -> Seq<char>
    decreases ts.len(),
{
    if ts.len() == 0 {
        Seq::empty()
    } else if ts.len() == 1 {
        ts[0]
    } else {
        ts[0] + seq![' '] + join_space(ts.drop_first())
    }
}

proof fn lemma_join_push(ts: Seq<Seq<char>>, x: Seq<char>)
    ensures
        ts.len() == 0 ==> join_space(ts.push(x)) == x,
        ts.len() > 0 ==> join_space(ts.push(x)) == join_space(ts) + seq![' '] + x,
    decreases ts.len(),
{
    let p = ts.push(x);
    if ts.len() == 0 {
        assert(p.len() == 1);
        assert(p[0] == x);
    } else {
        assert(p.len() >= 2);
        assert(p[0] == ts[0]);
        lemma_join_push(ts.drop_first(), x);
        assert(p.drop_first() =~= ts.drop_first().push(x));
        if ts.len() == 1 {
            assert(join_space(p) == ts[0] + seq![' '] + x);
        }
    }
}

/// Joins `parts[from..]` with single spaces, exactly as the join model says.
pub fn join_with_spaces(parts: &Vec<String>, from: usize) -> (r: String)
    requires
        from <= parts@.len(),
    ensures
        r@ == join_space(views_of(parts@).subrange(from as int, parts@.len() as int)),
{
    let mut r: String = String::new();
    let mut k: usize = from;
    while k < parts.len()
        invariant
            from <= k <= parts@.len(),
            r@ == join_space(views_of(parts@).subrange(from as int, k as int)),
        decreases parts@.len() - k,
    {
        let ghost sofar = views_of(parts@).subrange(from as int, k as int);
        if k > from {
            r.append(" ");
            proof {
                reveal_strlit(" ");
                assert(" "@ =~= seq![' ']);
            }
        }
        r.append(parts[k].as_str());
        proof {
            lemma_join_push(sofar, parts@[k as int]@);
            assert(sofar.push(parts@[k as int]@) =~= views_of(parts@).subrange(
                from as int,
                k + 1 as int,
            ));
        }
        k = k + 1;
    }
    r
}

/// Character-for-character string equality, reflected to the views.
pub fn str_eq(a: &str, b: &str) -> (r: bool)
    ensures
        r == (a@ == b@),
{
    let an: usize = a.unicode_len();
    let bn: usize = b.unicode_len();
    if an != bn {
        return false;
    }
    let mut i: usize = 0;
    while i < an
        invariant
            i <= an,
            an == a@.len(),
            an == b@.len(),
            forall|k: int| 0 <= k < i ==> a@[k] == b@[k],
        decreases an - i,
    {
        if a.get_char(i) != b.get_char(i) {
            return false;
        }
        i = i + 1;
    }
    proof {
        assert(a@ =~= b@);
    }
    true
}

/// A decimal digit.
pub open spec fn is_digit_char(c: char) -> bool {
    0x30 <= c as u32 && c as u32 <= 0x39
}

pub open spec fn digit_val(c: char) -> nat {
    if is_digit_char(c) {
        (c as u32 - 0x30) as nat
    } else {
        0
    }
}

pub open spec fn all_digits(s: Seq<char>) -> bool {
    forall|k: int| 0 <= k < s.len() ==> is_digit_char(s[k])
}

/// The value of a digit string read in base ten.
pub open spec fn dec_value(s: Seq<char>) -> nat
    decreases s.len(),
{
    if s.len() == 0 {
        0
    } else {
        dec_value(s.drop_last()) * 10 + digit_val(s.last())
    }
}

/// A non-empty, all-digit string whose value fits in a `u64`.
pub open spec fn is_u64_digits(s: Seq<char>) -> bool {
    s.len() > 0 && all_digits(s) && dec_value(s) <= u64::MAX
}

/// A non-empty, all-digit string whose value fits in a `u16`.
pub open spec fn is_u16_digits(s: Seq<char>) -> bool {
    s.len() > 0 && all_digits(s) && dec_value(s) <= u16::MAX
}

/// A longer digit string is worth at least as much as its prefix.
proof fn lemma_dec_value_prefix_le(s: Seq<char>, m: int)
    requires
        0 <= m <= s.len(),
    ensures
        dec_value(s.subrange(0, m)) <= dec_value(s),
    decreases s.len() - m,
{
    if m == s.len() {
        assert(s.subrange(0, m) =~= s);
    } else {
        lemma_dec_value_prefix_le(s, m + 1);
        let t = s.subrange(0, m + 1);
        assert(t.drop_last() =~= s.subrange(0, m));
        assert(dec_value(t) == dec_value(s.subrange(0, m)) * 10 + digit_val(t.last()));
        assert(dec_value(s.subrange(0, m)) * 10 >= dec_value(s.subrange(0, m)));
    }
}

/// Reads a base-ten `u64`; yields a value exactly when the whole text is a
/// digit string whose value fits.
pub fn parse_u64_digits(s: &str) -> (r: Option<u64>)
    ensures
        r is Some <==> is_u64_digits(s@),
        r is Some ==> r->0 == dec_value(s@),
{
    let n: usize = s.unicode_len();
    if n == 0 {
        return None;
    }
    let mut acc: u64 = 0;
    let mut i: usize = 0;
    while i < n
        invariant
            i <= n,
            n == s@.len(),
            all_digits(s@.subrange(0, i as int)),
            acc == dec_value(s@.subrange(0, i as int)),
        decreases n - i,
    {
        let c: char = s.get_char(i);
        let u: u32 = c as u32;
        if u < 0x30 || u > 0x39 {
            assert(!is_digit_char(s@[i as int]));
            return None;
        }
        let d: u64 = (u - 0x30) as u64;
        let ghost prefix = s@.subrange(0, i as int);
        let ghost grown = s@.subrange(0, i + 1 as int);
        proof {
            assert(grown.drop_last() =~= prefix);
            assert(grown.last() == s@[i as int]);
        }
        let step: Option<u64> = acc.checked_mul(10);
        let next: Option<u64> = match step {
            Some(v) => v.checked_add(d),
            None => None,
        };
        match next {
            Some(v) => {
                acc = v;
                i = i + 1;
            },
            None => {
                proof {
                    assert(dec_value(grown) > u64::MAX);
                    lemma_dec_value_prefix_le(s@, i + 1);
                }
                return None;
            },
        }
    }
    proof {
        assert(s@.subrange(0, n as int) =~= s@);
    }
    Some(acc)
}

/// Reads a base-ten `u16`; yields a value exactly when the whole text is a
/// digit string whose value fits.
pub fn parse_u16_digits(s: &str) -> (r: Option<u16>)
    ensures
        r is Some <==> is_u16_digits(s@),
        r is Some ==> r->0 == dec_value(s@),
{
    match parse_u64_digits(s) {
        Some(v) => if v <= 0xffff {
            Some(v as u16)
        } else {
            None
        },
        None => None,
    }
}

} // verus!
