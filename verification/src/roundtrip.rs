//! The law that ties the two halves of the wire format together: rendering a
//! document and reading the text back yields the document itself, for every
//! document whose integers the wire can carry.

use vstd::prelude::*;

use crate::doc::Jx;
use crate::parse::{
    digit_val, digits_end, digits_val, is_digit, is_ws, jparse, jparse_arr_rest, jparse_number,
    jparse_obj_rest, jparse_string, jparse_val, pow10, skip_ws, unesc,
};
use crate::wire::{
    dec_int_chars, dec_nat_chars, digit_char, esc_chars, esc_one, esc_upto, jdoc_chars,
    jfields_upto, jitems_upto,
};

verus! {

broadcast use vstd::seq::group_seq_axioms;

/// Whether every integer a document holds fits the wire's eighteen digits.
pub open spec fn jx_wire_ints(j: Jx) -> bool
    decreases j,
{
    match j {
        Jx::Null => true,
        Jx::Bool(_) => true,
        Jx::Int(n) => -(pow10(18) as int) < n < pow10(18) as int,
        Jx::Str(_) => true,
        Jx::Arr(items) => forall|k: int|
            0 <= k < items.len() ==> jx_wire_ints(#[trigger] items[k]),
        Jx::Obj(fields) => forall|k: int|
            0 <= k < fields.len() ==> jx_wire_ints(#[trigger] fields[k].1),
    }
}

/// The digits of a value are digits, at least one and at most as many as
/// its size demands.
proof fn lemma_dec_nat_digits(m: nat)
    ensures
        dec_nat_chars(m).len() >= 1,
        forall|k: int| 0 <= k < dec_nat_chars(m).len() ==> is_digit(#[trigger] dec_nat_chars(m)[k]),
        m < pow10(dec_nat_chars(m).len() as nat),
        dec_nat_chars(m).len() > 1 ==> pow10((dec_nat_chars(m).len() - 1) as nat) <= m,
    decreases m,
{
    reveal_with_fuel(pow10, 3);
    if m >= 10 {
        lemma_dec_nat_digits(m / 10);
        vstd::arithmetic::div_mod::lemma_fundamental_div_mod(m as int, 10);
        vstd::arithmetic::div_mod::lemma_mod_bound(m as int, 10);
        assert(m < pow10(dec_nat_chars(m).len() as nat));
    }
}

/// Reading the digit run of a rendered value back gives the value.
proof fn lemma_digits_val_of_render(s: Seq<char>, i: int, m: nat)
    requires
        0 <= i,
        i + dec_nat_chars(m).len() <= s.len(),
        s.subrange(i, i + dec_nat_chars(m).len() as int) == dec_nat_chars(m),
    ensures
        digits_val(s, i, i + dec_nat_chars(m).len() as int) == m,
    decreases m,
{
    let ds = dec_nat_chars(m);
    let e = i + ds.len() as int;
    if m < 10 {
        assert(s[i] == digit_char(m as int)) by {
            assert(dec_nat_chars(m)[0] == s.subrange(i, e)[0]);
        }
        assert(digits_val(s, i, e) == digits_val(s, i, e - 1) * 10 + digit_val(s[e - 1]));
    } else {
        let prefix = dec_nat_chars(m / 10);
        assert(s.subrange(i, i + prefix.len() as int) =~= prefix);
        lemma_digits_val_of_render(s, i, m / 10);
        assert(s[e - 1] == digit_char((m % 10) as int)) by {
            assert(dec_nat_chars(m)[ds.len() - 1] == s.subrange(i, e)[ds.len() - 1]);
        }
        assert(digits_val(s, i, e) == digits_val(s, i, e - 1) * 10 + digit_val(s[e - 1]));
    }
}

/// A run of digits closed by a non-digit ends exactly there.
proof fn lemma_digits_end_exact(s: Seq<char>, i: int, e: int)
    requires
        0 <= i <= e <= s.len(),
        forall|k: int| i <= k < e ==> is_digit(s[k]),
        e == s.len() || !is_digit(s[e]),
    ensures
        digits_end(s, i) == e,
    decreases e - i,
{
    if i < e {
        lemma_digits_end_exact(s, i + 1, e);
    }
}

/// Reading a rendered integer back gives the integer.
proof fn lemma_render_parses_number(s: Seq<char>, i: int, n: int)
    requires
        -(pow10(18) as int) < n < pow10(18) as int,
        0 <= i,
        i + dec_int_chars(n).len() <= s.len(),
        s.subrange(i, i + dec_int_chars(n).len() as int) == dec_int_chars(n),
        i + dec_int_chars(n).len() == s.len() || !is_digit(s[i + dec_int_chars(n).len()]),
    ensures
        jparse_number(s, i) == Some((n, i + dec_int_chars(n).len() as int)),
{
    let ds = dec_int_chars(n);
    let e = i + ds.len() as int;
    if n >= 0 {
        let m = n as nat;
        lemma_dec_nat_digits(m);
        assert(s.subrange(i, e) == dec_nat_chars(m));
        assert(forall|k: int| i <= k < e ==> is_digit(s[k])) by {
            assert(forall|k: int| i <= k < e ==> s[k] == dec_nat_chars(m)[k - i]);
        }
        lemma_digits_end_exact(s, i, e);
        lemma_digits_val_of_render(s, i, m);
        assert(!(s[i] == '-'));
        assert(e - i <= 18) by {
            if ds.len() > 18 {
                crate::parse::lemma_pow10_mono((18) as nat, (ds.len() - 1) as nat);
            }
        }
    } else {
        let m = (-n) as nat;
        assert(ds == seq!['-'] + dec_nat_chars(m));
        lemma_dec_nat_digits(m);
        assert(s[i] == '-') by {
            assert(ds[0] == s.subrange(i, e)[0]);
        }
        assert forall|k: int|
            0 <= k < dec_nat_chars(m).len() implies s.subrange(i + 1, e)[k] == dec_nat_chars(
            m,
        )[k] by {
            assert(ds[k + 1] == s.subrange(i, e)[k + 1]);
            assert(ds[k + 1] == dec_nat_chars(m)[k]);
            assert(s.subrange(i + 1, e)[k] == s[i + 1 + k]);
            assert(s.subrange(i, e)[k + 1] == s[i + 1 + k]);
        }
        assert(s.subrange(i + 1, e) =~= dec_nat_chars(m));
        assert(forall|k: int| i + 1 <= k < e ==> is_digit(s[k])) by {
            assert(forall|k: int| i + 1 <= k < e ==> s[k] == dec_nat_chars(m)[k - (i + 1)]);
        }
        assert(!is_digit('-'));
        lemma_digits_end_exact(s, i + 1, e);
        lemma_digits_val_of_render(s, i + 1, m);
        assert(e - (i + 1) <= 18) by {
            if dec_nat_chars(m).len() > 18 {
                crate::parse::lemma_pow10_mono((18) as nat, (dec_nat_chars(m).len() - 1) as nat);
            }
        }
    }
}

/// A text equal to a rendering holds the rendering's characters in place.
proof fn lemma_sub_index(s: Seq<char>, i: int, t: Seq<char>)
    requires
        0 <= i,
        i + t.len() <= s.len(),
        s.subrange(i, i + t.len() as int) == t,
    ensures
        forall|k: int| 0 <= k < t.len() ==> s[i + k] == #[trigger] t[k],
{
    assert forall|k: int| 0 <= k < t.len() implies s[i + k] == #[trigger] t[k] by {
        assert(t[k] == s.subrange(i, i + t.len() as int)[k]);
    }
}

/// A text equal to a concatenation splits into texts equal to the parts.
proof fn lemma_render_split(s: Seq<char>, i: int, a: Seq<char>, b: Seq<char>)
    requires
        0 <= i,
        i + a.len() + b.len() <= s.len(),
        s.subrange(i, i + a.len() + b.len() as int) == a + b,
    ensures
        s.subrange(i, i + a.len() as int) == a,
        s.subrange(i + a.len() as int, i + a.len() + b.len() as int) == b,
{
    assert forall|k: int| 0 <= k < a.len() implies s.subrange(i, i + a.len() as int)[k]
        == a[k] by {
        assert((a + b)[k] == s.subrange(i, i + a.len() + b.len() as int)[k]);
    }
    assert(s.subrange(i, i + a.len() as int) =~= a);
    assert forall|k: int|
        0 <= k < b.len() implies s.subrange(
        i + a.len() as int,
        i + a.len() + b.len() as int,
    )[k] == b[k] by {
        assert((a + b)[k + a.len()] == s.subrange(i, i + a.len() + b.len() as int)[k + a.len()]);
        assert(s.subrange(i, i + a.len() + b.len() as int)[k + a.len()] == s[i + a.len() + k]);
        assert(s.subrange(i + a.len() as int, i + a.len() + b.len() as int)[k] == s[i + a.len()
            + k]);
    }
    assert(s.subrange(i + a.len() as int, i + a.len() + b.len() as int) =~= b);
}

/// Escaped content renders first-character first.
proof fn lemma_esc_upto_prepend(t: Seq<char>, k: int)
    requires
        1 <= k <= t.len(),
    ensures
        esc_upto(t, k) == esc_one(t[0]) + esc_upto(t.drop_first(), k - 1),
    decreases k,
{
    if k == 1 {
        reveal_with_fuel(esc_upto, 3);
        assert(esc_upto(t, 1) =~= esc_one(t[0]) + esc_upto(t.drop_first(), 0));
    } else {
        lemma_esc_upto_prepend(t, k - 1);
        assert(t.drop_first()[k - 2] == t[k - 1]);
        assert(esc_upto(t, k) =~= esc_one(t[0]) + esc_upto(t.drop_first(), k - 1));
    }
}

/// Reading rendered string content back, up to its closing quote, gives the
/// content.
proof fn lemma_render_parses_string(s: Seq<char>, i: int, t: Seq<char>)
    requires
        0 <= i,
        i + esc_chars(t).len() + 1 <= s.len(),
        s.subrange(i, i + esc_chars(t).len() as int) == esc_chars(t),
        s[i + esc_chars(t).len()] == '"',
    ensures
        jparse_string(s, i) == Some((t, i + esc_chars(t).len() + 1 as int)),
    decreases t.len(),
{
    if t.len() == 0 {
        assert(esc_chars(t).len() == 0);
        assert(t =~= Seq::<char>::empty());
    } else {
        let c = t[0];
        let e1 = esc_one(c);
        let rest = t.drop_first();
        lemma_esc_upto_prepend(t, t.len() as int);
        assert(esc_chars(t) == e1 + esc_chars(rest));
        lemma_render_split(s, i, e1, esc_chars(rest));
        lemma_sub_index(s, i, e1);
        let i2 = i + e1.len() as int;
        lemma_render_parses_string(s, i2, rest);
        if e1.len() == 2 {
            assert(s[i] == e1[0]);
            assert(s[i + 1] == e1[1]);
            assert(s[i] == '\\');
            assert(unesc(s[i + 1]) == Some(c));
            assert(seq![c] + rest =~= t);
        } else {
            assert(e1[0] == c);
            assert(s[i] == e1[0]);
            assert(!(c == '"') && !(c == '\\'));
            assert(seq![c] + rest =~= t);
        }
    }
}

/// The rendering of a list's elements from the `t`-th on: each with its
/// leading comma, then the closing bracket.
pub open spec fn jarr_tail(items: Seq<Jx>, t: int) -> Seq<char>
    decreases items.len() - t,
{
    if t < 0 || t >= items.len() {
        seq![']']
    } else {
        seq![','] + jdoc_chars(items[t]) + jarr_tail(items, t + 1)
    }
}

/// The rendering of a field map's fields from the `t`-th on: each with its
/// leading comma, then the closing brace.
pub open spec fn jobj_tail(fields: Seq<(Seq<char>, Jx)>, t: int) -> Seq<char>
    decreases fields.len() - t,
{
    if t < 0 || t >= fields.len() {
        seq!['}']
    } else {
        seq![','] + seq!['"'] + esc_chars(fields[t].0) + seq!['"', ':'] + jdoc_chars(fields[t].1)
            + jobj_tail(fields, t + 1)
    }
}

/// A rendered list read from its `k`-th element on is the prefix rendering
/// plus the tail rendering.
proof fn lemma_arr_chars_tail(items: Seq<Jx>, k: int)
    requires
        0 <= k < items.len(),
    ensures
        jitems_upto(items, items.len() as int) + seq![']'] == jitems_upto(items, k + 1)
            + jarr_tail(items, k + 1),
    decreases items.len() - k,
{
    if k + 1 == items.len() {
        assert(jitems_upto(items, items.len() as int) + seq![']'] =~= jitems_upto(items, k + 1)
            + jarr_tail(items, k + 1));
    } else {
        lemma_arr_chars_tail(items, k + 1);
        assert(jitems_upto(items, k + 2) + jarr_tail(items, k + 2) =~= jitems_upto(items, k + 1)
            + jarr_tail(items, k + 1));
    }
}

/// A rendered field map read from its `k`-th field on is the prefix
/// rendering plus the tail rendering.
proof fn lemma_obj_chars_tail(fields: Seq<(Seq<char>, Jx)>, k: int)
    requires
        0 <= k < fields.len(),
    ensures
        jfields_upto(fields, fields.len() as int) + seq!['}'] == jfields_upto(fields, k + 1)
            + jobj_tail(fields, k + 1),
    decreases fields.len() - k,
{
    if k + 1 == fields.len() {
        assert(jfields_upto(fields, fields.len() as int) + seq!['}'] =~= jfields_upto(
            fields,
            k + 1,
        ) + jobj_tail(fields, k + 1));
    } else {
        lemma_obj_chars_tail(fields, k + 1);
        assert(jfields_upto(fields, k + 2) + jobj_tail(fields, k + 2) =~= jfields_upto(
            fields,
            k + 1,
        ) + jobj_tail(fields, k + 1));
    }
}

/// Every rendering is non-empty and opens with a character that is neither
/// whitespace nor a closing or separating token.
proof fn lemma_render_head(j: Jx)
    ensures
        jdoc_chars(j).len() >= 1,
        !is_ws(jdoc_chars(j)[0]),
        jdoc_chars(j)[0] != ']',
        jdoc_chars(j)[0] != '}',
        jdoc_chars(j)[0] != ',',
        jdoc_chars(j)[0] != ':',
        jdoc_chars(j)[0] != '"' || j is Str,
{
    match j {
        Jx::Int(n) => {
            if n >= 0 {
                lemma_dec_nat_digits(n as nat);
                assert(is_digit(jdoc_chars(j)[0]));
            } else {
                lemma_dec_nat_digits((-n) as nat);
                assert(jdoc_chars(j)[0] == '-');
            }
        },
        _ => {},
    }
}

/// Reading a rendered document back gives the document: the value grammar
/// accepts exactly the rendering and yields the same value.
#[verifier::rlimit(100)]
proof fn lemma_render_parses_val(s: Seq<char>, i: int, j: Jx)
    requires
        jx_wire_ints(j),
        0 <= i,
        i + jdoc_chars(j).len() <= s.len(),
        s.subrange(i, i + jdoc_chars(j).len() as int) == jdoc_chars(j),
        i + jdoc_chars(j).len() == s.len() || !is_digit(s[i + jdoc_chars(j).len()]),
    ensures
        jparse_val(s, i) == Some((j, i + jdoc_chars(j).len() as int)),
    decreases j, 0int,
{
    let w = jdoc_chars(j);
    let e = i + w.len() as int;
    lemma_render_head(j);
    lemma_sub_index(s, i, w);
    assert(s[i + 0] == w[0]);
    assert(skip_ws(s, i) == i);
    match j {
        Jx::Null => {
            assert(s[i + 1] == 'u' && s[i + 2] == 'l' && s[i + 3] == 'l');
        },
        Jx::Bool(b) => {
            if b {
                assert(s[i + 1] == 'r' && s[i + 2] == 'u' && s[i + 3] == 'e');
            } else {
                assert(s[i + 1] == 'a' && s[i + 2] == 'l' && s[i + 3] == 's' && s[i + 4] == 'e');
            }
        },
        Jx::Int(n) => {
            lemma_render_parses_number(s, i, n);
        },
        Jx::Str(t) => {
            assert(w =~= seq!['"'] + (esc_chars(t) + seq!['"']));
            lemma_render_split(s, i, seq!['"'], esc_chars(t) + seq!['"']);
            lemma_render_split(s, i + 1, esc_chars(t), seq!['"']);
            assert(s[i + 1 + esc_chars(t).len()] == '"') by {
                assert(seq!['"'][0] == s.subrange(
                    i + 1 + esc_chars(t).len() as int,
                    e,
                )[0]);
            }
            lemma_render_parses_string(s, i + 1, t);
        },
        Jx::Arr(items) => {
            assert(w =~= seq!['['] + (jitems_upto(items, items.len() as int) + seq![']']));
            lemma_render_split(s, i, seq!['['], jitems_upto(items, items.len() as int) + seq![']']);
            if items.len() == 0 {
                reveal_with_fuel(jitems_upto, 2);
                assert(s[i + 1] == ']') by {
                    assert((jitems_upto(items, 0) + seq![']'])[0] == s.subrange(i + 1, e)[0]);
                }
                assert(skip_ws(s, i + 1) == i + 1);
                assert(items =~= Seq::<Jx>::empty());
            } else {
                lemma_arr_chars_tail(items, 0);
                reveal_with_fuel(jitems_upto, 2);
                assert(jitems_upto(items, 1) =~= jdoc_chars(items[0]));
                assert(s.subrange(i + 1, e) == jdoc_chars(items[0]) + jarr_tail(items, 1));
                lemma_render_split(s, i + 1, jdoc_chars(items[0]), jarr_tail(items, 1));
                let e0 = i + 1 + jdoc_chars(items[0]).len() as int;
                lemma_tail_head_arr(items, 1);
                lemma_sub_index(s, e0, jarr_tail(items, 1));
                assert(s[e0 + 0] == jarr_tail(items, 1)[0]);
                assert(jx_wire_ints(items[0])) by {
                    assert(forall|k: int|
                        0 <= k < items.len() ==> jx_wire_ints(#[trigger] items[k]));
                }
                lemma_render_parses_val(s, i + 1, items[0]);
                lemma_render_head(items[0]);
                assert(skip_ws(s, i + 1) == i + 1);
                lemma_render_parses_arr_tail(s, e0, items, 1);
                assert(seq![items[0]] + items.subrange(1, items.len() as int) =~= items);
            }
        },
        Jx::Obj(fields) => {
            assert(w =~= seq!['{'] + (jfields_upto(fields, fields.len() as int) + seq!['}']));
            lemma_render_split(
                s,
                i,
                seq!['{'],
                jfields_upto(fields, fields.len() as int) + seq!['}'],
            );
            if fields.len() == 0 {
                reveal_with_fuel(jfields_upto, 2);
                assert(s[i + 1] == '}') by {
                    assert((jfields_upto(fields, 0) + seq!['}'])[0] == s.subrange(i + 1, e)[0]);
                }
                assert(skip_ws(s, i + 1) == i + 1);
                assert(fields =~= Seq::<(Seq<char>, Jx)>::empty());
            } else {
                lemma_obj_chars_tail(fields, 0);
                reveal_with_fuel(jfields_upto, 2);
                assert(jfields_upto(fields, 1) =~= seq!['"'] + esc_chars(fields[0].0) + seq![
                    '"',
                    ':',
                ] + jdoc_chars(fields[0].1));
                let key = fields[0].0;
                let v = fields[0].1;
                assert(s.subrange(i + 1, e) =~= seq!['"'] + esc_chars(key) + seq!['"', ':']
                    + jdoc_chars(v) + jobj_tail(fields, 1));
                lemma_tail_head_obj(fields, 1);
                assert(jx_wire_ints(v)) by {
                    assert(forall|k: int|
                        0 <= k < fields.len() ==> jx_wire_ints(#[trigger] fields[k].1));
                }
                lemma_render_parses_kv(s, i + 1, key, v, jobj_tail(fields, 1));
                assert(skip_ws(s, i + 1) == i + 1);
                let kl = esc_chars(key).len() as int;
                let vl = jdoc_chars(v).len() as int;
                let q = i + 1 + 1 + kl + 2 + vl;
                assert(s.subrange(q, e) == jobj_tail(fields, 1)) by {
                    lemma_render_split(s, i + 1, seq!['"'] + esc_chars(key) + seq!['"', ':']
                        + jdoc_chars(v), jobj_tail(fields, 1));
                }
                lemma_render_parses_obj_tail(s, q, fields, 1);
                assert(seq![(key, v)] + fields.subrange(1, fields.len() as int) =~= fields);
            }
        },
    }
}

/// The first character of a list tail is a comma or the closing bracket,
/// and of a field-map tail a comma or the closing brace.
proof fn lemma_tail_head_arr(items: Seq<Jx>, t: int)
    ensures
        jarr_tail(items, t).len() >= 1,
        jarr_tail(items, t)[0] == ',' || jarr_tail(items, t)[0] == ']',
        !is_digit(jarr_tail(items, t)[0]),
        !is_ws(jarr_tail(items, t)[0]),
{
}

/// As `lemma_tail_head_arr`, for field maps.
proof fn lemma_tail_head_obj(fields: Seq<(Seq<char>, Jx)>, t: int)
    ensures
        jobj_tail(fields, t).len() >= 1,
        jobj_tail(fields, t)[0] == ',' || jobj_tail(fields, t)[0] == '}',
        !is_digit(jobj_tail(fields, t)[0]),
        !is_ws(jobj_tail(fields, t)[0]),
{
}

/// Reading a rendered list tail back gives the remaining elements.
#[verifier::rlimit(100)]
proof fn lemma_render_parses_arr_tail(s: Seq<char>, i: int, items: Seq<Jx>, t: int)
    requires
        forall|k: int| 0 <= k < items.len() ==> jx_wire_ints(#[trigger] items[k]),
        0 <= t <= items.len(),
        0 <= i,
        i + jarr_tail(items, t).len() <= s.len(),
        s.subrange(i, i + jarr_tail(items, t).len() as int) == jarr_tail(items, t),
    ensures
        jparse_arr_rest(s, i) == Some(
            (items.subrange(t, items.len() as int), i + jarr_tail(items, t).len() as int),
        ),
    decreases items, items.len() - t,
{
    let w = jarr_tail(items, t);
    let e = i + w.len() as int;
    lemma_sub_index(s, i, w);
    assert(s[i + 0] == w[0]);
    if t >= items.len() {
        assert(skip_ws(s, i) == i);
        assert(items.subrange(t, items.len() as int) =~= Seq::<Jx>::empty());
    } else {
        assert(s[i] == ',');
        assert(skip_ws(s, i) == i);
        assert(w =~= seq![','] + (jdoc_chars(items[t]) + jarr_tail(items, t + 1)));
        lemma_render_split(s, i, seq![','], jdoc_chars(items[t]) + jarr_tail(items, t + 1));
        lemma_render_split(s, i + 1, jdoc_chars(items[t]), jarr_tail(items, t + 1));
        let e0 = i + 1 + jdoc_chars(items[t]).len() as int;
        lemma_tail_head_arr(items, t + 1);
        lemma_sub_index(s, e0, jarr_tail(items, t + 1));
        assert(s[e0 + 0] == jarr_tail(items, t + 1)[0]);
        assert(jx_wire_ints(items[t]));
        lemma_render_head(items[t]);
        lemma_render_parses_val(s, i + 1, items[t]);
        lemma_render_parses_arr_tail(s, e0, items, t + 1);
        assert(seq![items[t]] + items.subrange(t + 1, items.len() as int) =~= items.subrange(
            t,
            items.len() as int,
        ));
    }
}

/// Reading one rendered `"key": value` field at the position of its opening
/// quote gives the key, the value, and the position after the value.
#[verifier::rlimit(100)]
proof fn lemma_render_parses_kv(
    s: Seq<char>,
    i: int,
    key: Seq<char>,
    v: Jx,
    rest: Seq<char>,
)
    requires
        jx_wire_ints(v),
        0 <= i,
        rest.len() >= 1,
        rest[0] == ',' || rest[0] == '}',
        i + 1 + esc_chars(key).len() + 2 + jdoc_chars(v).len() + rest.len() <= s.len(),
        s.subrange(
            i,
            i + 1 + esc_chars(key).len() + 2 + jdoc_chars(v).len() + rest.len() as int,
        ) == seq!['"'] + esc_chars(key) + seq!['"', ':'] + jdoc_chars(v) + rest,
    ensures
        s[i] == '"',
        jparse_string(s, i + 1) == Some((key, i + 1 + esc_chars(key).len() + 1 as int)),
        skip_ws(s, i + 1 + esc_chars(key).len() + 1 as int) == i + 1 + esc_chars(key).len() + 1,
        s[i + 1 + esc_chars(key).len() + 1] == ':',
        jparse_val(s, i + 1 + esc_chars(key).len() + 2 as int) == Some(
            (v, i + 1 + esc_chars(key).len() + 2 + jdoc_chars(v).len() as int),
        ),
    decreases v, 1int,
{
    let kl = esc_chars(key).len() as int;
    let vl = jdoc_chars(v).len() as int;
    let whole = seq!['"'] + esc_chars(key) + seq!['"', ':'] + jdoc_chars(v) + rest;
    assert(whole =~= seq!['"'] + (esc_chars(key) + (seq!['"', ':'] + (jdoc_chars(v) + rest))));
    lemma_render_split(s, i, seq!['"'], esc_chars(key) + (seq!['"', ':'] + (jdoc_chars(v) + rest)));
    lemma_sub_index(s, i, seq!['"']);
    assert(s[i + 0] == seq!['"'][0]);
    assert(s[i] == '"');
    lemma_render_split(s, i + 1, esc_chars(key), seq!['"', ':'] + (jdoc_chars(v) + rest));
    let q0 = i + 1 + kl;
    lemma_render_split(s, q0, seq!['"', ':'], jdoc_chars(v) + rest);
    lemma_sub_index(s, q0, seq!['"', ':']);
    assert(s[q0 + 0] == '"');
    assert(s[q0 + 1] == ':');
    lemma_render_parses_string(s, i + 1, key);
    lemma_render_split(s, q0 + 2, jdoc_chars(v), rest);
    lemma_sub_index(s, q0 + 2 + vl, rest);
    assert(s[q0 + 2 + vl + 0] == rest[0]);
    lemma_render_parses_val(s, q0 + 2, v);
    assert(skip_ws(s, q0 + 1) == q0 + 1);
}

/// Reading a rendered field-map tail back gives the remaining fields.
#[verifier::rlimit(100)]
proof fn lemma_render_parses_obj_tail(s: Seq<char>, i: int, fields: Seq<(Seq<char>, Jx)>, t: int)
    requires
        forall|k: int| 0 <= k < fields.len() ==> jx_wire_ints(#[trigger] fields[k].1),
        0 <= t <= fields.len(),
        0 <= i,
        i + jobj_tail(fields, t).len() <= s.len(),
        s.subrange(i, i + jobj_tail(fields, t).len() as int) == jobj_tail(fields, t),
    ensures
        jparse_obj_rest(s, i) == Some(
            (fields.subrange(t, fields.len() as int), i + jobj_tail(fields, t).len() as int),
        ),
    decreases fields, fields.len() - t,
{
    let w = jobj_tail(fields, t);
    let e = i + w.len() as int;
    lemma_sub_index(s, i, w);
    assert(s[i + 0] == w[0]);
    if t >= fields.len() {
        assert(skip_ws(s, i) == i);
        assert(fields.subrange(t, fields.len() as int) =~= Seq::<(Seq<char>, Jx)>::empty());
    } else {
        let key = fields[t].0;
        let v = fields[t].1;
        let kv = seq!['"'] + esc_chars(key) + seq!['"', ':'] + jdoc_chars(v) + jobj_tail(
            fields,
            t + 1,
        );
        assert(s[i] == ',');
        assert(skip_ws(s, i) == i);
        assert(w =~= seq![','] + kv);
        lemma_render_split(s, i, seq![','], kv);
        lemma_tail_head_obj(fields, t + 1);
        assert(jx_wire_ints(v));
        lemma_render_parses_kv(s, i + 1, key, v, jobj_tail(fields, t + 1));
        assert(skip_ws(s, i + 1) == i + 1);
        let kl = esc_chars(key).len() as int;
        let vl = jdoc_chars(v).len() as int;
        let q = i + 1 + 1 + kl + 2 + vl;
        assert(s.subrange(q, e) == jobj_tail(fields, t + 1)) by {
            lemma_render_split(s, i + 1, seq!['"'] + esc_chars(key) + seq!['"', ':'] + jdoc_chars(
                v,
            ), jobj_tail(fields, t + 1));
        }
        lemma_render_parses_obj_tail(s, q, fields, t + 1);
        assert(seq![(key, v)] + fields.subrange(t + 1, fields.len() as int) =~= fields.subrange(
            t,
            fields.len() as int,
        ));
    }
}

/// The law that the wire format round-trips: rendering a document and
/// reading the text back yields the document itself, for every document
/// whose integers the wire can carry — an integer of more than eighteen
/// digits has no wire form.
pub proof fn lemma_wire_round_trip(j: Jx)
    requires
        jx_wire_ints(j),
    ensures
        jparse(jdoc_chars(j)) == Some(j),
{
    let s = jdoc_chars(j);
    assert(s.subrange(0, s.len() as int) =~= s);
    lemma_render_parses_val(s, 0, j);
    assert(skip_ws(s, s.len() as int) == s.len());
}

} // verus!
