use vstd::prelude::*;
use vstd::std_specs::iter::IteratorSpec;

verus! {

/// Whether `p` occurs in `s` starting at position `i`.
pub open spec fn occurs_at(s: Seq<char>, i: int, p: Seq<char>) -> bool {
    0 <= i && i + p.len() <= s.len() && s.subrange(i, i + p.len()) == p
}

/// Every non-overlapping occurrence of `pat` in `s`, scanned from the left,
/// replaced by `rep`.
pub open spec fn replace_all(s: Seq<char>, pat: Seq<char>, rep: Seq<char>) -> Seq<char>
    decreases s.len(),
{
    if s.len() == 0 || pat.len() == 0 {
        s
    } else if occurs_at(s, 0, pat) {
        rep + replace_all(s.subrange(pat.len() as int, s.len() as int), pat, rep)
    } else {
        seq![s[0]] + replace_all(s.subrange(1, s.len() as int), pat, rep)
    }
}

/// The characters of `s`, in order.
pub fn chars_of(s: &str) -> (r: Vec<char>)
    ensures
        r@ == s@,
{
    let mut it = s.chars();
    let mut out: Vec<char> = Vec::new();
    loop
        invariant
            out@ + it.remaining() == s@,
            it.obeys_prophetic_iter_laws(),
            it.decrease() is Some,
        decreases it.decrease()->0,
    {
        let ghost before = it;
        match it.next() {
            Some(c) => {
                proof {
                    assert(before.remaining().len() > 0);
                    assert(it.remaining() == before.remaining().drop_first());
                }
                out.push(c);
                assert(out@ + it.remaining() =~= s@);
            },
            None => {
                assert(out@ =~= s@);
                return out;
            },
        }
    }
}

/// Whether `p` occurs in `s` starting at position `i`.
pub fn occurs_at_exec(s: &Vec<char>, i: usize, p: &Vec<char>) -> (r: bool)
    ensures
        r == occurs_at(s@, i as int, p@),
{
    if i > s.len() || p.len() > s.len() - i {
        return false;
    }
    let n = s.len();
    let mut j: usize = 0;
    while j < p.len()
        invariant
            n == s@.len(),
            i + p@.len() <= n,
            0 <= j <= p@.len(),
            forall|k: int| 0 <= k < j ==> s@[i + k] == p@[k],
        decreases p@.len() - j,
    {
        if s[i + j] != p[j] {
            assert(s@.subrange(i as int, i + p@.len())[j as int] != p@[j as int]);
            return false;
        }
        j = j + 1;
    }
    assert(s@.subrange(i as int, i + p@.len()) =~= p@);
    true
}

proof fn lemma_replace_step_plain(s: Seq<char>, i: int, pat: Seq<char>, rep: Seq<char>)
    requires
        0 <= i < s.len(),
        pat.len() > 0,
        !occurs_at(s, i, pat),
    ensures
        replace_all(s.subrange(i, s.len() as int), pat, rep) == seq![s[i]] + replace_all(
            s.subrange(i + 1, s.len() as int),
            pat,
            rep,
        ),
{
    let t = s.subrange(i, s.len() as int);
    if occurs_at(t, 0, pat) {
        assert(t.subrange(0, pat.len() as int) =~= s.subrange(i, i + pat.len()));
    }
    assert(t.subrange(1, t.len() as int) =~= s.subrange(i + 1, s.len() as int));
}

proof fn lemma_replace_step_match(s: Seq<char>, i: int, pat: Seq<char>, rep: Seq<char>)
    requires
        0 <= i < s.len(),
        pat.len() > 0,
        occurs_at(s, i, pat),
    ensures
        replace_all(s.subrange(i, s.len() as int), pat, rep) == rep + replace_all(
            s.subrange(i + pat.len(), s.len() as int),
            pat,
            rep,
        ),
{
    let t = s.subrange(i, s.len() as int);
    assert(t.subrange(0, pat.len() as int) =~= s.subrange(i, i + pat.len()));
    assert(t.subrange(pat.len() as int, t.len() as int) =~= s.subrange(
        i + pat.len(),
        s.len() as int,
    ));
}

/// Replaces every non-overlapping occurrence of `pat` in `s`, scanned from the left,
/// by `rep`.
pub fn replace_all_str(s: &str, pat: &str, rep: &str) -> (r: String)
    requires
        pat@.len() > 0,
    ensures
        r@ == replace_all(s@, pat@, rep@),
{
    let cs = chars_of(s);
    let ps = chars_of(pat);
    let n = cs.len();
    let mut out = String::new();
    let mut last: usize = 0;
    let mut i: usize = 0;
    proof {
        assert(s@.subrange(0, 0) =~= Seq::<char>::empty());
        assert(s@.subrange(0, n as int) =~= s@);
        assert(out@ =~= Seq::<char>::empty());
    }
    while i < n
        invariant
            cs@ == s@,
            ps@ == pat@,
            n == s@.len(),
            pat@.len() > 0,
            last <= i <= n,
            replace_all(s@, pat@, rep@) == out@ + s@.subrange(last as int, i as int)
                + replace_all(s@.subrange(i as int, n as int), pat@, rep@),
        decreases n - i,
    {
        if occurs_at_exec(&cs, i, &ps) {
            proof {
                lemma_replace_step_match(s@, i as int, pat@, rep@);
            }
            let piece = s.substring_char(last, i);
            out.append(piece);
            out.append(rep);
            i = i + ps.len();
            last = i;
            assert(s@.subrange(last as int, i as int) =~= Seq::<char>::empty());
        } else {
            proof {
                lemma_replace_step_plain(s@, i as int, pat@, rep@);
                assert(s@.subrange(last as int, i + 1) =~= s@.subrange(last as int, i as int)
                    + seq![s@[i as int]]);
            }
            i = i + 1;
        }
    }
    let piece = s.substring_char(last, n);
    out.append(piece);
    proof {
        assert(s@.subrange(n as int, n as int) =~= Seq::<char>::empty());
    }
    out
}

/// Whether `a` and `b` hold the same characters.
pub fn str_eq(a: &str, b: &str) -> (r: bool)
    ensures
        r == (a@ == b@),
{
    let x = chars_of(a);
    let y = chars_of(b);
    if x.len() != y.len() {
        return false;
    }
    let mut i: usize = 0;
    while i < x.len()
        invariant
            x@ == a@,
            y@ == b@,
            x@.len() == y@.len(),
            0 <= i <= x@.len(),
            forall|k: int| 0 <= k < i ==> x@[k] == y@[k],
        decreases x@.len() - i,
    {
        if x[i] != y[i] {
            return false;
        }
        i = i + 1;
    }
    assert(x@ =~= y@);
    true
}

/// Whether `s` begins with `p`.
pub fn starts_with_str(s: &str, p: &str) -> (r: bool)
    ensures
        r == occurs_at(s@, 0, p@),
{
    let x = chars_of(s);
    let y = chars_of(p);
    occurs_at_exec(&x, 0, &y)
}

/// The parts joined, with `sep` between each two.
pub open spec fn joined(parts: Seq<Seq<char>>, sep: Seq<char>) -> Seq<char>
    decreases parts.len(),
{
    if parts.len() == 0 {
        Seq::empty()
    } else if parts.len() == 1 {
        parts[0]
    } else {
        joined(parts.drop_last(), sep) + sep + parts.last()
    }
}

/// The plain-value view of a list of strings.
pub open spec fn strings_view(v: Seq<String>) -> Seq<Seq<char>> {
    v.map_values(|s: String| s@)
}

/// The strings of `parts` joined, with `sep` between each two.
pub fn join_strings(parts: &Vec<String>, sep: &str) -> (r: String)
    ensures
        r@ == joined(strings_view(parts@), sep@),
{
    let ghost all = strings_view(parts@);
    let mut r = String::new();
    let mut i: usize = 0;
    assert(all.subrange(0, 0).len() == 0);
    while i < parts.len()
        invariant
            all == strings_view(parts@),
            0 <= i <= parts@.len(),
            r@ == joined(all.subrange(0, i as int), sep@),
        decreases parts@.len() - i,
    {
        let ghost before = r@;
        if i > 0 {
            r.append(sep);
        }
        r.append(parts[i].as_str());
        proof {
            let next = all.subrange(0, i + 1);
            assert(next.drop_last() =~= all.subrange(0, i as int));
            assert(next.last() == parts@[i as int]@);
            if i == 0 {
                assert(r@ =~= next[0]);
            } else {
                assert(r@ =~= joined(next.drop_last(), sep@) + sep@ + next.last());
            }
        }
        i = i + 1;
    }
    assert(all.subrange(0, parts@.len() as int) =~= all);
    r
}

/// The decimal digit `d` as a character.
pub open spec fn digit_char(d: nat) -> char {
    seq!['0', '1', '2', '3', '4', '5', '6', '7', '8', '9'][d as int]
}

/// The decimal notation of `n`, without leading zeros.
pub open spec fn decimal(n: nat) -> Seq<char>
    decreases n,
{
    if n < 10 {
        seq![digit_char(n)]
    } else {
        decimal(n / 10) + seq![digit_char(n % 10)]
    }
}

fn digit_str(d: u64) -> (r: &'static str)
    requires
        d < 10,
    ensures
        r@ == seq![digit_char(d as nat)],
{
    proof {
        reveal_strlit("0");
        reveal_strlit("1");
        reveal_strlit("2");
        reveal_strlit("3");
        reveal_strlit("4");
        reveal_strlit("5");
        reveal_strlit("6");
        reveal_strlit("7");
        reveal_strlit("8");
        reveal_strlit("9");
    }
    let r = if d == 0 {
        "0"
    } else if d == 1 {
        "1"
    } else if d == 2 {
        "2"
    } else if d == 3 {
        "3"
    } else if d == 4 {
        "4"
    } else if d == 5 {
        "5"
    } else if d == 6 {
        "6"
    } else if d == 7 {
        "7"
    } else if d == 8 {
        "8"
    } else {
        "9"
    };
    assert(r@ =~= seq![digit_char(d as nat)]);
    r
}

/// The decimal notation of `n`.
pub fn decimal_string(n: u64) -> (r: String)
    ensures
        r@ == decimal(n as nat),
    decreases n,
{
    if n < 10 {
        digit_str(n).to_owned()
    } else {
        let mut r = decimal_string(n / 10);
        r.append(digit_str(n % 10));
        r
    }
}

} // verus!
