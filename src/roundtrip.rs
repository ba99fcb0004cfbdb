use vstd::prelude::*;

use crate::examples::{
    key_run, marker_at, marker_close, marker_free, marker_len, marker_open, placeholder_of, stitch,
    strip_markers,
};
use crate::extract::{
    block_code, example_key, placeholder_offset, with_code, with_placeholders, without_blocks,
};
use crate::text::{decimal, digit_char, occurs_at, replace_all};

verus! {

/// Whether `s` holds no placeholder opener `{{NGL_EX:`.
pub open spec fn no_opener(s: Seq<char>) -> bool {
    forall|i: int| 0 <= i < s.len() ==> !#[trigger] occurs_at(s, i, marker_open())
}

/// Whether no text around the blocks holds a placeholder opener.
pub open spec fn parts_no_opener(
    blocks: Seq<(Seq<char>, Seq<char>, Seq<char>, Seq<char>)>,
    tail: Seq<char>,
) -> bool {
    no_opener(tail) && forall|i: int| 0 <= i < blocks.len() ==> no_opener(#[trigger] blocks[i].0)
}

/// The `(key, stored code)` pairs of the blocks, keys numbered from `start`.
pub open spec fn block_pairs(
    blocks: Seq<(Seq<char>, Seq<char>, Seq<char>, Seq<char>)>,
    start: nat,
    html: bool,
) -> Seq<(Seq<char>, Seq<char>)> {
    Seq::new(blocks.len(), |i: int| (example_key((start + i) as nat), block_code(blocks[i].3, html)))
}

pub open spec fn is_digit(c: char) -> bool {
    '0' <= c <= '9'
}

proof fn lemma_digit_char(d: nat)
    requires
        d < 10,
    ensures
        is_digit(digit_char(d)),
        forall|e: nat| e < 10 && digit_char(e) == digit_char(d) ==> e == d,
{
}

proof fn lemma_decimal_digits(n: nat)
    ensures
        decimal(n).len() >= 1,
        n >= 10 ==> decimal(n).len() >= 2,
        forall|i: int| 0 <= i < decimal(n).len() ==> is_digit(#[trigger] decimal(n)[i]),
    decreases n,
{
    if n < 10 {
        lemma_digit_char(n);
    } else {
        lemma_decimal_digits(n / 10);
        lemma_digit_char(n % 10);
        let d = decimal(n);
        assert forall|i: int| 0 <= i < d.len() implies is_digit(#[trigger] d[i]) by {
            if i < decimal(n / 10).len() {
                assert(d[i] == decimal(n / 10)[i]);
            }
        }
    }
}

proof fn lemma_decimal_injective(a: nat, b: nat)
    requires
        decimal(a) == decimal(b),
    ensures
        a == b,
    decreases a,
{
    lemma_decimal_digits(a);
    lemma_decimal_digits(b);
    if a < 10 && b < 10 {
        lemma_digit_char(a);
        assert(decimal(a)[0] == decimal(b)[0]);
        assert(decimal(a)[0] == digit_char(a));
        assert(decimal(b)[0] == digit_char(b));
        assert(digit_char(b) == digit_char(a));
    } else if a >= 10 && b >= 10 {
        let da = decimal(a / 10);
        let db = decimal(b / 10);
        lemma_decimal_digits(a / 10);
        lemma_decimal_digits(b / 10);
        assert(decimal(a) == da + seq![digit_char(a % 10)]);
        assert(decimal(b) == db + seq![digit_char(b % 10)]);
        assert(decimal(a).last() == digit_char(a % 10));
        assert(decimal(b).last() == digit_char(b % 10));
        assert(decimal(a).drop_last() =~= da);
        assert(decimal(b).drop_last() =~= db);
        lemma_digit_char(a % 10);
        assert(a % 10 == b % 10);
        lemma_decimal_injective(a / 10, b / 10);
        assert(a == (a / 10) * 10 + a % 10);
        assert(b == (b / 10) * 10 + b % 10);
    } else if a < 10 {
        assert(decimal(a).len() == 1);
    } else {
        assert(decimal(b).len() == 1);
    }
}

/// The characters of a placeholder: two opening braces, then none until the closing pair.
proof fn lemma_placeholder_chars(k: nat)
    ensures
        ({
            let ph = placeholder_of(example_key(k));
            &&& ph.len() == 13 + decimal(k).len()
            &&& ph[0] == '{' && ph[1] == '{' && ph[2] == 'N'
            &&& forall|i: int| 2 <= i < ph.len() ==> #[trigger] ph[i] != '{'
            &&& forall|i: int| 11 <= i < 11 + decimal(k).len() ==> is_digit(#[trigger] ph[i])
            &&& ph[11 + decimal(k).len() as int] == '}'
            &&& forall|i: int| 0 <= i < decimal(k).len() ==> #[trigger] ph[11 + i] == decimal(k)[i]
        }),
{
    reveal_strlit("ex");
    lemma_decimal_digits(k);
    let d = decimal(k);
    let ph = placeholder_of(example_key(k));
    assert(ph =~= marker_open() + (seq!['e', 'x'] + d) + marker_close());
    assert forall|i: int| 2 <= i < ph.len() implies #[trigger] ph[i] != '{' by {
        if 11 <= i < 11 + d.len() {
            assert(ph[i] == d[i - 11]);
        }
    }
    assert forall|i: int| 11 <= i < 11 + d.len() implies is_digit(#[trigger] ph[i]) by {
        assert(ph[i] == d[i - 11]);
    }
}

/// Distinct keys: the placeholder of one never starts where the other's stands.
proof fn lemma_keys_apart(j: nat, k: nat, z: Seq<char>)
    requires
        j != k,
    ensures
        !occurs_at(placeholder_of(example_key(k)) + z, 0, placeholder_of(example_key(j))),
{
    let pj = placeholder_of(example_key(j));
    let pk = placeholder_of(example_key(k));
    let s = pk + z;
    lemma_placeholder_chars(j);
    lemma_placeholder_chars(k);
    let dj = decimal(j);
    let dk = decimal(k);
    if occurs_at(s, 0, pj) {
        let w = s.subrange(0, pj.len() as int);
        assert(w == pj);
        if dj.len() == dk.len() {
            assert(dj =~= dk) by {
                assert forall|i: int| 0 <= i < dj.len() implies dj[i] == dk[i] by {
                    assert(pj[11 + i] == w[11 + i]);
                    assert(s[11 + i] == pk[11 + i]);
                }
            }
            lemma_decimal_injective(j, k);
        } else if dj.len() < dk.len() {
            let i: int = 11 + dj.len() as int;
            assert(pj[i] == w[i]);
            assert(s[i] == pk[i]);
            assert(is_digit(pk[i]));
        } else {
            let i: int = 11 + dk.len() as int;
            assert(pj[i] == w[i]);
            assert(s[i] == pk[i]);
            assert(is_digit(pj[i]));
        }
    }
}

/// Replacing in `x + y` passes over `x` where no occurrence starts inside it.
proof fn lemma_replace_passes(x: Seq<char>, y: Seq<char>, p: Seq<char>, c: Seq<char>)
    requires
        p.len() > 0,
        forall|i: int| 0 <= i < x.len() ==> !#[trigger] occurs_at(x + y, i, p),
    ensures
        replace_all(x + y, p, c) == x + replace_all(y, p, c),
    decreases x.len(),
{
    if x.len() == 0 {
        assert(x + y =~= y);
        assert(x + replace_all(y, p, c) =~= replace_all(y, p, c));
    } else {
        let s = x + y;
        assert(!occurs_at(s, 0, p));
        let x1 = x.drop_first();
        assert(s.subrange(1, s.len() as int) =~= x1 + y);
        assert forall|i: int| 0 <= i < x1.len() implies !#[trigger] occurs_at(x1 + y, i, p) by {
            assert(!occurs_at(s, i + 1, p));
            if occurs_at(x1 + y, i, p) {
                assert((x1 + y).subrange(i, i + p.len()) =~= s.subrange(i + 1, i + 1 + p.len()));
            }
        }
        lemma_replace_passes(x1, y, p, c);
        assert(x + replace_all(y, p, c) =~= seq![s[0]] + (x1 + replace_all(y, p, c)));
    }
}

proof fn lemma_key_run(s: Seq<char>, i: int, n: nat)
    requires
        0 <= i,
        i + n < s.len(),
        forall|k: int| i <= k < i + n ==> s[k] != '}',
        s[i + n] == '}',
    ensures
        key_run(s, i) == n,
    decreases n,
{
    if n > 0 {
        lemma_key_run(s, i + 1, (n - 1) as nat);
    }
}

proof fn lemma_strip_placeholder(k: nat, y: Seq<char>)
    ensures
        strip_markers(placeholder_of(example_key(k)) + y) == strip_markers(y),
{
    reveal_strlit("ex");
    let ph = placeholder_of(example_key(k));
    let s = ph + y;
    lemma_placeholder_chars(k);
    let d = decimal(k);
    assert(ph =~= marker_open() + (seq!['e', 'x'] + d) + marker_close());
    assert forall|j: int| 9 <= j < 11 + d.len() implies s[j] != '}' by {
        assert(s[j] == ph[j]);
        if j >= 11 {
            assert(is_digit(ph[j]));
        }
    }
    assert(s[11 + d.len() as int] == ph[11 + d.len() as int]);
    lemma_key_run(s, 9, (2 + d.len()) as nat);
    assert(s.subrange(0, 9) =~= marker_open());
    assert(s.subrange(11 + d.len() as int, 13 + d.len() as int) =~= marker_close());
    assert(marker_at(s, 0));
    assert(marker_len(s, 0) == ph.len());
    assert(s.subrange(ph.len() as int, s.len() as int) =~= y);
}


proof fn lemma_key_run_shift(x: Seq<char>, w: Seq<char>, k: int)
    requires
        0 <= k,
    ensures
        key_run(x + w, x.len() + k) == key_run(w, k),
    decreases w.len() - k,
{
    if k < w.len() {
        assert((x + w)[x.len() + k] == w[k]);
        if w[k] != '}' {
            lemma_key_run_shift(x, w, k + 1);
        }
    }
}

proof fn lemma_occurs_shift(x: Seq<char>, w: Seq<char>, k: int, p: Seq<char>)
    requires
        0 <= k,
    ensures
        occurs_at(x + w, x.len() + k, p) == occurs_at(w, k, p),
{
    if k + p.len() <= w.len() {
        assert((x + w).subrange(x.len() + k, x.len() + k + p.len()) =~= w.subrange(k, k + p.len()));
    }
}

proof fn lemma_marker_shift(x: Seq<char>, w: Seq<char>, k: int)
    requires
        0 <= k,
    ensures
        marker_at(x + w, x.len() + k) == marker_at(w, k),
{
    lemma_occurs_shift(x, w, k, marker_open());
    lemma_key_run_shift(x, w, k + 9);
    lemma_occurs_shift(x, w, k + 9 + key_run(w, k + 9), marker_close());
}


proof fn lemma_no_opener_split(a: Seq<char>, b: Seq<char>)
    requires
        no_opener(a + b),
    ensures
        no_opener(a),
        no_opener(b),
{
    assert forall|i: int| 0 <= i < a.len() implies !#[trigger] occurs_at(a, i, marker_open()) by {
        if occurs_at(a, i, marker_open()) {
            assert((a + b).subrange(i, i + 9) =~= a.subrange(i, i + 9));
            assert(occurs_at(a + b, i, marker_open()));
        }
    }
    assert forall|i: int| 0 <= i < b.len() implies !#[trigger] occurs_at(b, i, marker_open()) by {
        lemma_occurs_shift(a, b, i, marker_open());
    }
}

proof fn lemma_parts_of_code(
    blocks: Seq<(Seq<char>, Seq<char>, Seq<char>, Seq<char>)>,
    tail: Seq<char>,
    html: bool,
)
    requires
        no_opener(with_code(blocks, tail, html)),
    ensures
        parts_no_opener(blocks, tail),
    decreases blocks.len(),
{
    if blocks.len() > 0 {
        let r = blocks.drop_first();
        let b0 = blocks[0].0;
        let c0 = block_code(blocks[0].3, html);
        let w = with_code(r, tail, html);
        assert(with_code(blocks, tail, html) == b0 + c0 + w);
        assert(b0 + c0 + w =~= b0 + (c0 + w));
        lemma_no_opener_split(b0, c0 + w);
        lemma_no_opener_split(c0, w);
        lemma_parts_of_code(r, tail, html);
        assert forall|i: int| 0 <= i < blocks.len() implies no_opener(#[trigger] blocks[i].0) by {
            if i > 0 {
                assert(blocks[i] == r[i - 1]);
            }
        }
    }
}

proof fn lemma_parts_of_text(blocks: Seq<(Seq<char>, Seq<char>, Seq<char>, Seq<char>)>, tail: Seq<char>)
    requires
        no_opener(without_blocks(blocks, tail)),
    ensures
        parts_no_opener(blocks, tail),
    decreases blocks.len(),
{
    if blocks.len() > 0 {
        let r = blocks.drop_first();
        lemma_no_opener_split(blocks[0].0, without_blocks(r, tail));
        lemma_parts_of_text(r, tail);
        assert forall|i: int| 0 <= i < blocks.len() implies no_opener(#[trigger] blocks[i].0) by {
            if i > 0 {
                assert(blocks[i] == r[i - 1]);
            }
        }
    }
}

proof fn lemma_rest_parts(blocks: Seq<(Seq<char>, Seq<char>, Seq<char>, Seq<char>)>, tail: Seq<char>)
    requires
        blocks.len() > 0,
        parts_no_opener(blocks, tail),
    ensures
        parts_no_opener(blocks.drop_first(), tail),
        no_opener(blocks[0].0),
{
    let r = blocks.drop_first();
    assert forall|i: int| 0 <= i < r.len() implies no_opener(#[trigger] r[i].0) by {
        assert(r[i] == blocks[i + 1]);
    }
}

/// A placeholder occurrence begins with the opener.
proof fn lemma_opener_of(s: Seq<char>, i: int, k: nat)
    requires
        occurs_at(s, i, placeholder_of(example_key(k))),
    ensures
        occurs_at(s, i, marker_open()),
{
    let ph = placeholder_of(example_key(k));
    lemma_placeholder_chars(k);
    assert(s.subrange(i, i + 9) =~= ph.subrange(0, 9)) by {
        assert forall|t: int| 0 <= t < 9 implies s.subrange(i, i + 9)[t] == ph.subrange(0, 9)[t] by {
            assert(s.subrange(i, i + ph.len())[t] == ph[t]);
        }
    }
    assert(ph.subrange(0, 9) =~= marker_open());
}

/// An opener that starts in `g` and runs into a placeholder right after it is
/// impossible: it lies wholly inside `g`.
proof fn lemma_opener_inside(g: Seq<char>, k: nat, z: Seq<char>, i: int)
    requires
        0 <= i < g.len(),
        occurs_at(g + placeholder_of(example_key(k)) + z, i, marker_open()),
    ensures
        occurs_at(g, i, marker_open()),
{
    let ph = placeholder_of(example_key(k));
    let s = g + ph + z;
    lemma_placeholder_chars(k);
    let o = marker_open();
    let w = s.subrange(i, i + 9);
    assert(w == o);
    if i + 9 > g.len() {
        let d = g.len() - i;
        assert(s[g.len() as int] == ph[0]);
        assert(w[d] == s[i + d]);
        if d == 1 {
            assert(w[2] == s[g.len() as int + 1]);
            assert(s[g.len() as int + 1] == ph[1]);
        }
    } else {
        assert(g.subrange(i, i + 9) =~= w);
    }
}

/// No opener starts strictly inside a placeholder.
proof fn lemma_no_opener_within(k: nat, z: Seq<char>, i: int)
    requires
        0 < i < placeholder_of(example_key(k)).len(),
    ensures
        !occurs_at(placeholder_of(example_key(k)) + z, i, marker_open()),
{
    let ph = placeholder_of(example_key(k));
    let s = ph + z;
    lemma_placeholder_chars(k);
    if occurs_at(s, i, marker_open()) {
        let w = s.subrange(i, i + 9);
        assert(w[0] == s[i]);
        assert(s[i] == ph[i]);
        if i == 1 {
            assert(w[1] == s[2]);
            assert(s[2] == ph[2]);
        }
    }
}

/// Where no text around the blocks holds an opener, the only openers of the rewritten
/// document start its placeholders.
proof fn lemma_openers_are_placeholders(
    blocks: Seq<(Seq<char>, Seq<char>, Seq<char>, Seq<char>)>,
    tail: Seq<char>,
    start: nat,
    i: int,
)
    requires
        parts_no_opener(blocks, tail),
        0 <= i,
        occurs_at(with_placeholders(blocks, tail, start), i, marker_open()),
    ensures
        exists|j: nat| j < blocks.len() && i == #[trigger] placeholder_offset(blocks, start, j),
    decreases blocks.len(),
{
    let w = with_placeholders(blocks, tail, start);
    if blocks.len() == 0 {
        assert(w == tail);
    } else {
        lemma_rest_parts(blocks, tail);
        let b0 = blocks[0].0;
        let ph = placeholder_of(example_key(start));
        let rest_blocks = blocks.drop_first();
        let rest = with_placeholders(rest_blocks, tail, start + 1);
        assert(w == b0 + ph + rest);
        if i < b0.len() {
            lemma_opener_inside(b0, start, rest, i);
        } else if i == b0.len() {
            assert(placeholder_offset(blocks, start, 0) == i);
        } else if i < b0.len() + ph.len() {
            assert(b0 + ph + rest =~= b0 + (ph + rest));
            lemma_occurs_shift(b0, ph + rest, i - b0.len(), marker_open());
            lemma_no_opener_within(start, rest, i - b0.len());
        } else {
            let k = i - b0.len() - ph.len();
            assert(b0 + ph + rest =~= (b0 + ph) + rest);
            lemma_occurs_shift(b0 + ph, rest, k, marker_open());
            lemma_openers_are_placeholders(rest_blocks, tail, start + 1, k);
            let j = choose|j: nat| j < rest_blocks.len() && k == #[trigger] placeholder_offset(
                rest_blocks,
                start + 1,
                j,
            );
            assert(placeholder_offset(blocks, start, j + 1) == i);
        }
    }
}

/// Replacing key `j` leaves a rewritten document whose keys all come after `j` as it is.
proof fn lemma_later_keys_untouched(
    blocks: Seq<(Seq<char>, Seq<char>, Seq<char>, Seq<char>)>,
    tail: Seq<char>,
    start: nat,
    j: nat,
    c: Seq<char>,
)
    requires
        j < start,
        parts_no_opener(blocks, tail),
    ensures
        replace_all(with_placeholders(blocks, tail, start), placeholder_of(example_key(j)), c)
            == with_placeholders(blocks, tail, start),
    decreases blocks.len(),
{
    let pj = placeholder_of(example_key(j));
    lemma_placeholder_chars(j);
    if blocks.len() == 0 {
        assert forall|i: int| 0 <= i < tail.len() implies !#[trigger] occurs_at(
            tail + Seq::<char>::empty(),
            i,
            pj,
        ) by {
            assert(tail + Seq::<char>::empty() =~= tail);
            if occurs_at(tail, i, pj) {
                lemma_opener_of(tail, i, j);
            }
        }
        assert(tail + Seq::<char>::empty() =~= tail);
        lemma_replace_passes(tail, Seq::empty(), pj, c);
    } else {
        lemma_rest_parts(blocks, tail);
        let b0 = blocks[0].0;
        let pk = placeholder_of(example_key(start));
        let rest_blocks = blocks.drop_first();
        let rest = with_placeholders(rest_blocks, tail, start + 1);
        let x = b0 + pk;
        let s = x + rest;
        assert(b0 + pk + rest =~= s);
        lemma_placeholder_chars(start);
        assert forall|i: int| 0 <= i < x.len() implies !#[trigger] occurs_at(s, i, pj) by {
            if occurs_at(s, i, pj) {
                lemma_opener_of(s, i, j);
                if i < b0.len() {
                    lemma_opener_inside(b0, start, rest, i);
                } else if i == b0.len() {
                    assert(s =~= b0 + (pk + rest));
                    lemma_occurs_shift(b0, pk + rest, 0, pj);
                    lemma_keys_apart(j, start, rest);
                } else {
                    assert(s =~= b0 + (pk + rest));
                    lemma_occurs_shift(b0, pk + rest, i - b0.len(), marker_open());
                    lemma_no_opener_within(start, rest, i - b0.len());
                }
            }
        }
        lemma_replace_passes(x, rest, pj, c);
        lemma_later_keys_untouched(rest_blocks, tail, start + 1, j, c);
    }
}

proof fn lemma_round_trip_from(
    x: Seq<char>,
    blocks: Seq<(Seq<char>, Seq<char>, Seq<char>, Seq<char>)>,
    tail: Seq<char>,
    start: nat,
    html: bool,
)
    requires
        no_opener(x + with_code(blocks, tail, html)),
    ensures
        stitch(x + with_placeholders(blocks, tail, start), block_pairs(blocks, start, html)) == x
            + with_code(blocks, tail, html),
    decreases blocks.len(),
{
    let pairs = block_pairs(blocks, start, html);
    lemma_no_opener_split(x, with_code(blocks, tail, html));
    lemma_parts_of_code(blocks, tail, html);
    if blocks.len() > 0 {
        lemma_rest_parts(blocks, tail);
        let b0 = blocks[0].0;
        let c0 = block_code(blocks[0].3, html);
        let ph = placeholder_of(example_key(start));
        let rest_blocks = blocks.drop_first();
        let rest = with_placeholders(rest_blocks, tail, start + 1);
        let wc = with_code(rest_blocks, tail, html);
        let g = x + b0;
        assert(x + with_code(blocks, tail, html) =~= g + (c0 + wc));
        lemma_no_opener_split(g, c0 + wc);
        lemma_placeholder_chars(start);
        // The first key is replaced at its own placeholder and nowhere else.
        let s = g + (ph + rest);
        assert(x + with_placeholders(blocks, tail, start) =~= s);
        assert forall|i: int| 0 <= i < g.len() implies !#[trigger] occurs_at(s, i, ph) by {
            if occurs_at(s, i, ph) {
                lemma_opener_of(s, i, start);
                assert(s =~= g + ph + rest);
                lemma_opener_inside(g, start, rest, i);
            }
        }
        lemma_replace_passes(g, ph + rest, ph, c0);
        assert(occurs_at(ph + rest, 0, ph)) by {
            assert((ph + rest).subrange(0, ph.len() as int) =~= ph);
        }
        assert((ph + rest).subrange(ph.len() as int, (ph + rest).len() as int) =~= rest);
        lemma_later_keys_untouched(rest_blocks, tail, start + 1, start, c0);
        assert(replace_all(s, ph, c0) =~= (g + c0) + rest);
        // The remaining keys, with the stitched text as the new prefix.
        assert(pairs[0] == (example_key(start), c0));
        assert(pairs.subrange(1, pairs.len() as int) =~= block_pairs(rest_blocks, start + 1, html));
        assert((g + c0) + wc =~= x + with_code(blocks, tail, html));
        lemma_round_trip_from(g + c0, rest_blocks, tail, start + 1, html);
    } else {
        assert(with_placeholders(blocks, tail, start) == tail);
    }
}

/// Taking code blocks out and stitching their stored code back in restores the
/// document, each block's matched text replaced by its stored code (HTML code entity-
/// decoded), provided the restored document holds no placeholder opener `{{NGL_EX:`.
pub proof fn law_stitch_restores_code(
    blocks: Seq<(Seq<char>, Seq<char>, Seq<char>, Seq<char>)>,
    tail: Seq<char>,
    html: bool,
)
    requires
        no_opener(with_code(blocks, tail, html)),
    ensures
        stitch(with_placeholders(blocks, tail, 0), block_pairs(blocks, 0, html)) == with_code(
            blocks,
            tail,
            html,
        ),
{
    assert(Seq::<char>::empty() + with_code(blocks, tail, html) =~= with_code(blocks, tail, html));
    assert(Seq::<char>::empty() + with_placeholders(blocks, tail, 0) =~= with_placeholders(
        blocks,
        tail,
        0,
    ));
    lemma_round_trip_from(Seq::empty(), blocks, tail, 0, html);
}

proof fn lemma_no_opener_marker_free(s: Seq<char>)
    requires
        no_opener(s),
    ensures
        marker_free(s),
{
    assert forall|i: int| 0 <= i < s.len() implies !#[trigger] marker_at(s, i) by {
        assert(!occurs_at(s, i, marker_open()));
    }
}

proof fn lemma_strip_passes(x: Seq<char>, y: Seq<char>)
    requires
        forall|i: int| 0 <= i < x.len() ==> !#[trigger] occurs_at(x + y, i, marker_open()),
    ensures
        strip_markers(x + y) == x + strip_markers(y),
    decreases x.len(),
{
    if x.len() == 0 {
        assert(x + y =~= y);
        assert(x + strip_markers(y) =~= strip_markers(y));
    } else {
        let s = x + y;
        assert(!occurs_at(s, 0, marker_open()));
        let x1 = x.drop_first();
        assert(s.subrange(1, s.len() as int) =~= x1 + y);
        assert forall|i: int| 0 <= i < x1.len() implies !#[trigger] occurs_at(x1 + y, i, marker_open()) by {
            assert(s =~= seq![x[0]] + (x1 + y));
            lemma_occurs_shift(seq![x[0]], x1 + y, i, marker_open());
            assert(!occurs_at(s, i + 1, marker_open()));
        }
        lemma_strip_passes(x1, y);
        assert(x + strip_markers(y) =~= seq![s[0]] + (x1 + strip_markers(y)));
    }
}

proof fn lemma_strip_rewritten(
    blocks: Seq<(Seq<char>, Seq<char>, Seq<char>, Seq<char>)>,
    tail: Seq<char>,
    start: nat,
)
    requires
        parts_no_opener(blocks, tail),
    ensures
        strip_markers(with_placeholders(blocks, tail, start)) == without_blocks(blocks, tail),
    decreases blocks.len(),
{
    if blocks.len() == 0 {
        assert(tail + Seq::<char>::empty() =~= tail);
        lemma_strip_passes(tail, Seq::empty());
        assert(strip_markers(Seq::<char>::empty()) =~= Seq::<char>::empty());
        assert(tail + strip_markers(Seq::<char>::empty()) =~= tail);
    } else {
        lemma_rest_parts(blocks, tail);
        let b0 = blocks[0].0;
        let ph = placeholder_of(example_key(start));
        let rest_blocks = blocks.drop_first();
        let rest = with_placeholders(rest_blocks, tail, start + 1);
        assert(b0 + ph + rest =~= b0 + (ph + rest));
        assert forall|i: int| 0 <= i < b0.len() implies !#[trigger] occurs_at(
            b0 + (ph + rest),
            i,
            marker_open(),
        ) by {
            if occurs_at(b0 + (ph + rest), i, marker_open()) {
                lemma_opener_inside(b0, start, rest, i);
            }
        }
        lemma_strip_passes(b0, ph + rest);
        lemma_strip_placeholder(start, rest);
        lemma_strip_rewritten(rest_blocks, tail, start + 1);
    }
}

/// Stripping a rewritten document deletes exactly its placeholders, and leaves none,
/// provided the document with its blocks removed holds no placeholder opener.
pub proof fn law_strip_leaves_no_placeholder(
    blocks: Seq<(Seq<char>, Seq<char>, Seq<char>, Seq<char>)>,
    tail: Seq<char>,
)
    requires
        no_opener(without_blocks(blocks, tail)),
    ensures
        strip_markers(with_placeholders(blocks, tail, 0)) == without_blocks(blocks, tail),
        marker_free(strip_markers(with_placeholders(blocks, tail, 0))),
{
    lemma_parts_of_text(blocks, tail);
    lemma_strip_rewritten(blocks, tail, 0);
    lemma_no_opener_marker_free(without_blocks(blocks, tail));
}

/// A document written with its examples and read back with their stored code
/// stitched in holds no placeholder, provided the restored document holds no
/// placeholder opener.
pub proof fn law_rehydrated_has_no_placeholder(
    blocks: Seq<(Seq<char>, Seq<char>, Seq<char>, Seq<char>)>,
    tail: Seq<char>,
    html: bool,
)
    requires
        no_opener(with_code(blocks, tail, html)),
    ensures
        marker_free(stitch(with_placeholders(blocks, tail, 0), block_pairs(blocks, 0, html))),
{
    law_stitch_restores_code(blocks, tail, html);
    lemma_no_opener_marker_free(with_code(blocks, tail, html));
}

/// After extraction, every placeholder in the rewritten document is the placeholder
/// of one of the extracted blocks, standing where that block stood; with the law that
/// each block's placeholder stands there, placeholders and join keys match one to one.
/// This holds where no text around the blocks holds a placeholder opener.
pub proof fn law_placeholders_match_examples(
    blocks: Seq<(Seq<char>, Seq<char>, Seq<char>, Seq<char>)>,
    tail: Seq<char>,
    i: int,
)
    requires
        parts_no_opener(blocks, tail),
        0 <= i,
        marker_at(with_placeholders(blocks, tail, 0), i),
    ensures
        exists|j: nat|
            j < blocks.len() && i == #[trigger] placeholder_offset(blocks, 0, j) && occurs_at(
                with_placeholders(blocks, tail, 0),
                i,
                placeholder_of(example_key(j)),
            ),
{
    lemma_openers_are_placeholders(blocks, tail, 0, i);
    let j = choose|j: nat| j < blocks.len() && i == #[trigger] placeholder_offset(blocks, 0, j);
    crate::extract::law_extracted_placeholders_stand(blocks, tail, j);
}

} // verus!
