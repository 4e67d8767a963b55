//! The launch-arguments file of a game install: arguments separated by spaces.
use vstd::prelude::*;

verus! {

/// The arguments joined with one space between each two.
pub open spec fn join_spec(args: Seq<Seq<char>>) -> Seq<char>
    decreases args.len(),
{
    if args.len() == 0 {
        Seq::empty()
    } else if args.len() == 1 {
        args[0]
    } else {
        join_spec(args.drop_last()) + " "@ + args.last()
    }
}

/// The content written to the launch-arguments file.
pub fn join_launch_arguments(arguments: &Vec<String>) -> (r: String)
    ensures
        r@ == join_spec(arguments@.map_values(|a: String| a@)),
{
    let ghost views = arguments@.map_values(|a: String| a@);
    let mut out = String::new();
    let mut i: usize = 0;
    while i < arguments.len()
        invariant
            i <= arguments@.len(),
            views == arguments@.map_values(|a: String| a@),
            out@ == join_spec(views.subrange(0, i as int)),
        decreases arguments@.len() - i,
    {
        assert(views.subrange(0, i + 1).drop_last() =~= views.subrange(0, i as int));
        if i > 0 {
            out.append(" ");
        }
        out.append(arguments[i].as_str());
        i = i + 1;
    }
    assert(views.subrange(0, i as int) =~= views);
    out
}

/// `c` has the Unicode White_Space property (what `char::is_whitespace` tests).
pub open spec fn is_ws(c: char) -> bool {
    let u = c as u32;
    (0x09 <= u <= 0x0D) || u == 0x20 || u == 0x85 || u == 0xA0 || u == 0x1680 || (0x2000 <= u
        <= 0x200A) || u == 0x2028 || u == 0x2029 || u == 0x202F || u == 0x205F || u == 0x3000
}

fn char_is_ws(c: char) -> (r: bool)
    ensures
        r == is_ws(c),
{
    let u = c as u32;
    (0x09 <= u && u <= 0x0D) || u == 0x20 || u == 0x85 || u == 0xA0 || u == 0x1680 || (0x2000 <= u
        && u <= 0x200A) || u == 0x2028 || u == 0x2029 || u == 0x202F || u == 0x205F || u == 0x3000
}

/// `s[i..j]` is a maximal run of non-whitespace characters.
pub open spec fn token_at(s: Seq<char>, i: int, j: int) -> bool {
    &&& 0 <= i < j <= s.len()
    &&& forall|k: int| i <= k < j ==> !is_ws(#[trigger] s[k])
    &&& (i == 0 || is_ws(s[i - 1]))
    &&& (j == s.len() || is_ws(s[j]))
}

/// `t` is one of the whitespace-separated words of `s`.
pub open spec fn is_token(s: Seq<char>, t: Seq<char>) -> bool {
    exists|i: int, j: int| token_at(s, i, j) && s.subrange(i, j) == t
}

/// Lexicographic order by code point (the order of `str`'s `Ord`).
pub open spec fn seq_lt(a: Seq<char>, b: Seq<char>) -> bool
    decreases a.len(),
{
    if a.len() == 0 {
        b.len() > 0
    } else if b.len() == 0 {
        false
    } else if a[0] != b[0] {
        a[0] < b[0]
    } else {
        seq_lt(a.skip(1), b.skip(1))
    }
}

proof fn lemma_seq_lt_trichotomy(a: Seq<char>, b: Seq<char>)
    ensures
        a == b || seq_lt(a, b) || seq_lt(b, a),
        !(seq_lt(a, b) && seq_lt(b, a)),
        !seq_lt(a, a),
    decreases a.len(),
{
    if a.len() > 0 && b.len() > 0 {
        lemma_seq_lt_trichotomy(a.skip(1), b.skip(1));
        lemma_seq_lt_trichotomy(a.skip(1), a.skip(1));
        assert(seq_lt(a, a) == seq_lt(a.skip(1), a.skip(1)));
        if a[0] == b[0] {
            assert(seq_lt(a, b) == seq_lt(a.skip(1), b.skip(1)));
            assert(seq_lt(b, a) == seq_lt(b.skip(1), a.skip(1)));
            if a.skip(1) == b.skip(1) {
                assert(a =~= seq![a[0]] + a.skip(1));
                assert(b =~= seq![b[0]] + b.skip(1));
            }
        } else {
        }
    } else if a.len() > 0 {
        assert(seq_lt(b, a));
        lemma_seq_lt_trichotomy(a.skip(1), a.skip(1));
        assert(seq_lt(a, a) == seq_lt(a.skip(1), a.skip(1)));
    } else if b.len() == 0 {
        assert(a =~= b);
        assert(!seq_lt(a, a));
    } else {
        assert(seq_lt(a, b));
        assert(!seq_lt(a, a));
    }
}

proof fn lemma_seq_lt_transitive(a: Seq<char>, b: Seq<char>, c: Seq<char>)
    requires
        seq_lt(a, b),
        seq_lt(b, c),
    ensures
        seq_lt(a, c),
    decreases a.len(),
{
    if a.len() > 0 && b.len() > 0 && c.len() > 0 && a[0] == b[0] && b[0] == c[0] {
        lemma_seq_lt_transitive(a.skip(1), b.skip(1), c.skip(1));
    }
}

/// Whether `a` comes before `b` in lexicographic order.
pub fn str_lt(a: &str, b: &str) -> (r: bool)
    ensures
        r == seq_lt(a@, b@),
{
    let n = a.unicode_len();
    let m = b.unicode_len();
    let mut i: usize = 0;
    assert(a@.skip(0) =~= a@);
    assert(b@.skip(0) =~= b@);
    while i < n && i < m && a.get_char(i) == b.get_char(i)
        invariant
            n == a@.len(),
            m == b@.len(),
            i <= n,
            i <= m,
            seq_lt(a@, b@) == seq_lt(a@.skip(i as int), b@.skip(i as int)),
        decreases n - i,
    {
        assert(a@.skip(i as int).skip(1) =~= a@.skip(i + 1));
        assert(b@.skip(i as int).skip(1) =~= b@.skip(i + 1));
        i = i + 1;
    }
    if i == n {
        i < m
    } else if i == m {
        false
    } else {
        a.get_char(i) < b.get_char(i)
    }
}

/// `v` is strictly increasing in lexicographic order.
pub open spec fn strictly_sorted(v: Seq<Seq<char>>) -> bool {
    forall|i: int, j: int| 0 <= i < j < v.len() ==> seq_lt(#[trigger] v[i], #[trigger] v[j])
}

pub open spec fn views_of(v: Seq<String>) -> Seq<Seq<char>> {
    v.map_values(|a: String| a@)
}

/// Adds `x` to a strictly sorted list unless it is there already.
fn insert_sorted(v: &mut Vec<String>, x: String)
    requires
        strictly_sorted(views_of(old(v)@)),
    ensures
        strictly_sorted(views_of(final(v)@)),
        forall|t: Seq<char>| views_of(final(v)@).contains(t) <==> (views_of(old(v)@).contains(t) || t == x@),
{
    let ghost xv = x@;
    let mut p: usize = 0;
    while p < v.len() && str_lt(v[p].as_str(), x.as_str())
        invariant
            p <= v@.len(),
            v@ == old(v)@,
            forall|k: int| 0 <= k < p ==> seq_lt(#[trigger] views_of(v@)[k], xv),
            x@ == xv,
        decreases v@.len() - p,
    {
        p = p + 1;
    }
    if p < v.len() && v[p] == x {
        proof {
            assert(views_of(v@)[p as int] == xv);
            assert forall|t: Seq<char>| views_of(v@).contains(t) <==> (views_of(old(v)@).contains(t) || t == xv) by {
                if t == xv {
                    assert(views_of(v@)[p as int] == t);
                }
            }
        }
        return;
    }
    let ghost before = views_of(v@);
    proof {
        if p < v@.len() {
            lemma_seq_lt_trichotomy(before[p as int], xv);
        }
    }
    v.insert(p, x);
    let ghost after = views_of(v@);
    proof {
        assert(after =~= before.insert(p as int, xv));
        assert forall|i: int, j: int| 0 <= i < j < after.len() implies seq_lt(
            #[trigger] after[i],
            #[trigger] after[j],
        ) by {
            if j < p {
            } else if j == p {
            } else if i < p {
                lemma_seq_lt_transitive(before[i], xv, before[p as int]);
                if j - 1 > p as int {
                    lemma_seq_lt_transitive(before[i], before[p as int], before[j - 1]);
                }
            } else if i == p {
                if j - 1 > p as int {
                    lemma_seq_lt_transitive(xv, before[p as int], before[j - 1]);
                }
            } else {
            }
        }
        assert forall|t: Seq<char>| after.contains(t) <==> (before.contains(t) || t == xv) by {
            if after.contains(t) {
                let k = choose|k: int| 0 <= k < after.len() && after[k] == t;
                if k < p {
                    assert(before[k] == t);
                } else if k > p {
                    assert(before[k - 1] == t);
                }
            }
            if before.contains(t) {
                let k = choose|k: int| 0 <= k < before.len() && before[k] == t;
                if k < p {
                    assert(after[k] == t);
                } else {
                    assert(after[k + 1] == t);
                }
            }
            if t == xv {
                assert(after[p as int] == t);
            }
        }
    }
}

/// `t` is a word of `s` that ends before index `i`.
pub open spec fn token_before(s: Seq<char>, t: Seq<char>, i: int) -> bool {
    exists|i0: int, j0: int| token_at(s, i0, j0) && j0 < i && s.subrange(i0, j0) == t
}

proof fn lemma_token_unique(s: Seq<char>, start: int, i0: int, j: int)
    requires
        token_at(s, i0, j),
        0 <= start < j,
        start == 0 || is_ws(s[start - 1]),
        forall|k: int| start <= k < j ==> !is_ws(#[trigger] s[k]),
    ensures
        i0 == start,
{
    if i0 < start {
        assert(!is_ws(s[start - 1]));
    } else if i0 > start {
        assert(!is_ws(s[i0 - 1]));
    }
}

proof fn lemma_no_token_ends_at(s: Seq<char>, t: Seq<char>, i: int)
    requires
        0 <= i < s.len(),
        !is_ws(s[i]) || i == 0 || is_ws(s[i - 1]),
    ensures
        token_before(s, t, i + 1) == token_before(s, t, i),
{
    if token_before(s, t, i + 1) {
        let (i0, j0) = choose|i0: int, j0: int|
            token_at(s, i0, j0) && j0 < i + 1 && s.subrange(i0, j0) == t;
        if j0 == i {
            assert(!is_ws(s[j0 - 1]));
        }
        assert(token_before(s, t, i));
    }
    if token_before(s, t, i) {
        let (i0, j0) = choose|i0: int, j0: int| token_at(s, i0, j0) && j0 < i && s.subrange(i0, j0) == t;
        assert(token_before(s, t, i + 1));
    }
}

/// The words of the launch-arguments file's content, sorted, without duplicates.
pub fn parse_launch_arguments(data: &str) -> (r: Vec<String>)
    ensures
        strictly_sorted(views_of(r@)),
        forall|t: Seq<char>| views_of(r@).contains(t) <==> is_token(data@, t),
{
    let n = data.unicode_len();
    let ghost s = data@;
    let mut r: Vec<String> = Vec::new();
    let mut start: usize = 0;
    let mut in_tok = false;
    let mut i: usize = 0;
    while i < n
        invariant
            n == s.len(),
            s == data@,
            i <= n,
            strictly_sorted(views_of(r@)),
            in_tok ==> start < i && (start == 0 || is_ws(s[start - 1])) && forall|k: int|
                start <= k < i ==> !is_ws(#[trigger] s[k]),
            !in_tok ==> i == 0 || is_ws(s[i - 1]),
            forall|t: Seq<char>| views_of(r@).contains(t) <==> token_before(s, t, i as int),
        decreases n - i,
    {
        let c = data.get_char(i);
        if char_is_ws(c) {
            if in_tok {
                let word = String::from_str(data.substring_char(start, i));
                let ghost old_r = views_of(r@);
                insert_sorted(&mut r, word);
                proof {
                    assert(token_at(s, start as int, i as int));
                    assert forall|t: Seq<char>| views_of(r@).contains(t) <==> token_before(
                        s,
                        t,
                        i + 1,
                    ) by {
                        if token_before(s, t, i + 1) {
                            let (i0, j0) = choose|i0: int, j0: int|
                                token_at(s, i0, j0) && j0 < i + 1 && s.subrange(i0, j0) == t;
                            if j0 == i {
                                lemma_token_unique(s, start as int, i0, j0);
                            } else {
                                assert(token_before(s, t, i as int));
                            }
                        }
                        if t == s.subrange(start as int, i as int) {
                            assert(token_before(s, t, i + 1));
                        }
                        if token_before(s, t, i as int) {
                            let (i0, j0) = choose|i0: int, j0: int|
                                token_at(s, i0, j0) && j0 < i && s.subrange(i0, j0) == t;
                            assert(token_before(s, t, i + 1));
                        }
                    }
                }
                in_tok = false;
            } else {
                proof {
                    assert forall|t: Seq<char>| views_of(r@).contains(t) <==> token_before(s, t, i + 1) by {
                        lemma_no_token_ends_at(s, t, i as int);
                    }
                }
                assert(forall|t: Seq<char>| views_of(r@).contains(t) <==> token_before(s, t, i + 1));
            }
        } else {
            if !in_tok {
                start = i;
                in_tok = true;
            }
            proof {
                assert forall|t: Seq<char>| views_of(r@).contains(t) <==> token_before(s, t, i + 1) by {
                    lemma_no_token_ends_at(s, t, i as int);
                }
            }
                assert(forall|t: Seq<char>| views_of(r@).contains(t) <==> token_before(s, t, i + 1));
        }
        i = i + 1;
    }
    if in_tok {
        let word = String::from_str(data.substring_char(start, n));
        insert_sorted(&mut r, word);
        proof {
            assert(token_at(s, start as int, n as int));
        }
    }
    proof {
        assert forall|t: Seq<char>| views_of(r@).contains(t) <==> is_token(s, t) by {
            if is_token(s, t) {
                let (i0, j0) = choose|i0: int, j0: int| token_at(s, i0, j0) && s.subrange(i0, j0) == t;
                if j0 == n {
                    assert(in_tok);
                    lemma_token_unique(s, start as int, i0, j0);
                } else {
                    assert(token_before(s, t, n as int));
                }
            }
            if views_of(r@).contains(t) && !(in_tok && t == s.subrange(start as int, n as int)) {
                assert(token_before(s, t, n as int));
                let (i0, j0) = choose|i0: int, j0: int|
                    token_at(s, i0, j0) && j0 < n && s.subrange(i0, j0) == t;
                assert(is_token(s, t));
            }
            if in_tok && t == s.subrange(start as int, n as int) {
                assert(is_token(s, t));
            }
        }
    }
    r
}

} // verus!
