//! The wire format: how a document is rendered as text before it is handed to
//! the worker. The renderer is canonical — no insignificant whitespace, fields
//! in the order the document holds them, strings with the short escapes — and
//! `jdoc_chars` is its full statement. The parser in `parse` reads the same
//! format back, and also tolerates whitespace between tokens, so that any
//! ordinary worker reply is accepted.

use vstd::prelude::*;
use vstd::string::*;

use crate::doc::{Doc, Jx};

verus! {

broadcast use vstd::std_specs::vec::group_vec_axioms, vstd::seq::group_seq_axioms;

/// The decimal digit character for a value below ten.
pub open spec fn digit_char(d: int) -> char {
    if d == 0 {
        '0'
    } else if d == 1 {
        '1'
    } else if d == 2 {
        '2'
    } else if d == 3 {
        '3'
    } else if d == 4 {
        '4'
    } else if d == 5 {
        '5'
    } else if d == 6 {
        '6'
    } else if d == 7 {
        '7'
    } else if d == 8 {
        '8'
    } else {
        '9'
    }
}

/// The decimal rendering of a non-negative integer, without sign or padding.
pub open spec fn dec_nat_chars(m: nat) -> Seq<char>
    decreases m,
{
    if m < 10 {
        seq![digit_char(m as int)]
    } else {
        dec_nat_chars(m / 10) + seq![digit_char((m % 10) as int)]
    }
}

/// The decimal rendering of an integer: a minus sign for negative values,
/// then the digits of the magnitude.
pub open spec fn dec_int_chars(n: int) -> Seq<char> {
    if n < 0 {
        seq!['-'] + dec_nat_chars((-n) as nat)
    } else {
        dec_nat_chars(n as nat)
    }
}

/// How one character of string content is rendered: the quote, the backslash
/// and the common control characters as two-character escapes, every other
/// character as itself.
pub open spec fn esc_one(c: char) -> Seq<char> {
    if c == '"' {
        seq!['\\', '"']
    } else if c == '\\' {
        seq!['\\', '\\']
    } else if c == '\n' {
        seq!['\\', 'n']
    } else if c == '\r' {
        seq!['\\', 'r']
    } else if c == '\t' {
        seq!['\\', 't']
    } else if c == '\u{0008}' {
        seq!['\\', 'b']
    } else if c == '\u{000C}' {
        seq!['\\', 'f']
    } else {
        seq![c]
    }
}

/// The rendering of the first `k` characters of string content.
pub open spec fn esc_upto(t: Seq<char>, k: int) -> Seq<char>
    decreases k,
{
    if k <= 0 {
        Seq::<char>::empty()
    } else {
        esc_upto(t, k - 1) + esc_one(t[k - 1])
    }
}

/// The rendering of string content, escapes applied, without the quotes.
pub open spec fn esc_chars(t: Seq<char>) -> Seq<char> {
    esc_upto(t, t.len() as int)
}

/// The rendering of the first `k` elements of a list, comma-separated.
pub open spec fn jitems_upto(items: Seq<Jx>, k: int) -> Seq<char>
    decreases items, k,
{
    if k <= 0 || k > items.len() {
        Seq::<char>::empty()
    } else {
        jitems_upto(items, k - 1) + (if k == 1 {
            Seq::<char>::empty()
        } else {
            seq![',']
        }) + jdoc_chars(items[k - 1])
    }
}

/// The rendering of the first `k` fields of a field map: quoted key, colon,
/// value, comma-separated.
pub open spec fn jfields_upto(fields: Seq<(Seq<char>, Jx)>, k: int) -> Seq<char>
    decreases fields, k,
{
    if k <= 0 || k > fields.len() {
        Seq::<char>::empty()
    } else {
        jfields_upto(fields, k - 1) + (if k == 1 {
            Seq::<char>::empty()
        } else {
            seq![',']
        }) + seq!['"'] + esc_chars(fields[k - 1].0) + seq!['"', ':'] + jdoc_chars(fields[k - 1].1)
    }
}

/// The canonical wire text of a document value.
pub open spec fn jdoc_chars(j: Jx) -> Seq<char>
    decreases j, 0int,
{
    match j {
        Jx::Null => seq!['n', 'u', 'l', 'l'],
        Jx::Bool(b) => if b {
            seq!['t', 'r', 'u', 'e']
        } else {
            seq!['f', 'a', 'l', 's', 'e']
        },
        Jx::Int(n) => dec_int_chars(n),
        Jx::Str(t) => seq!['"'] + esc_chars(t) + seq!['"'],
        Jx::Arr(items) => seq!['['] + jitems_upto(items, items.len() as int) + seq![']'],
        Jx::Obj(fields) => seq!['{'] + jfields_upto(fields, fields.len() as int) + seq!['}'],
    }
}

/// Renders a document as its canonical wire text.
pub fn doc_to_json(d: &Doc) -> (s: String)
    ensures
        s@ == jdoc_chars(d.jx()),
{
    let mut out = String::new();
    enc_doc(d, &mut out);
    out
}

/// The two-character string holding one decimal digit as text.
fn digit_str(d: u64) -> (r: &'static str)
    requires
        d < 10,
    ensures
        r@ == seq![digit_char(d as int)],
{
    proof {
        reveal_strlit("0");
        reveal_strlit("1");
        reveal_strlit("2");
        reveal_strlit("3");
        reveal_strlit("4");
        reveal_strlit("5");
        reveal_strlit("6");
        reveal_strlit("7");
        reveal_strlit("8");
        reveal_strlit("9");
    }
    let r = if d == 0 {
        "0"
    } else if d == 1 {
        "1"
    } else if d == 2 {
        "2"
    } else if d == 3 {
        "3"
    } else if d == 4 {
        "4"
    } else if d == 5 {
        "5"
    } else if d == 6 {
        "6"
    } else if d == 7 {
        "7"
    } else if d == 8 {
        "8"
    } else {
        "9"
    };
    proof {
        assert(r@ =~= seq![digit_char(d as int)]);
    }
    r
}

/// Appends the decimal digits of a non-negative value.
fn enc_nat(m: u64, out: &mut String)
    ensures
        final(out)@ == old(out)@ + dec_nat_chars(m as nat),
    decreases m,
{
    if m < 10 {
        out.append(digit_str(m));
    } else {
        enc_nat(m / 10, out);
        out.append(digit_str(m % 10));
        proof {
            assert(final(out)@ =~= old(out)@ + dec_nat_chars(m as nat));
        }
    }
}

/// Appends the decimal rendering of an integer, sign included.
fn enc_int(n: i64, out: &mut String)
    ensures
        final(out)@ == old(out)@ + dec_int_chars(n as int),
{
    proof {
        reveal_strlit("-");
    }
    if n < 0 {
        out.append("-");
        let magnitude: u64 = if n == i64::MIN {
            9_223_372_036_854_775_808u64
        } else {
            (-n) as u64
        };
        enc_nat(magnitude, out);
        proof {
            assert(final(out)@ =~= old(out)@ + dec_int_chars(n as int));
        }
    } else {
        enc_nat(n as u64, out);
    }
}

/// Appends string content with the wire escapes applied, no quotes.
#[verifier::loop_isolation(false)]
fn enc_escaped(s: &str, out: &mut String)
    ensures
        final(out)@ == old(out)@ + esc_chars(s@),
{
    proof {
        reveal_strlit("\\\"");
        reveal_strlit("\\\\");
        reveal_strlit("\\n");
        reveal_strlit("\\r");
        reveal_strlit("\\t");
        reveal_strlit("\\b");
        reveal_strlit("\\f");
    }
    let n = s.unicode_len();
    let mut i: usize = 0;
    while i < n
        invariant
            n == s@.len(),
            0 <= i <= n,
            out@ == old(out)@ + esc_upto(s@, i as int),
        decreases n - i,
    {
        let c = s.get_char(i);
        if c == '"' {
            out.append("\\\"");
        } else if c == '\\' {
            out.append("\\\\");
        } else if c == '\n' {
            out.append("\\n");
        } else if c == '\r' {
            out.append("\\r");
        } else if c == '\t' {
            out.append("\\t");
        } else if c == '\u{0008}' {
            out.append("\\b");
        } else if c == '\u{000C}' {
            out.append("\\f");
        } else {
            let piece = s.substring_char(i, i + 1);
            proof {
                assert(piece@ =~= seq![s@[i as int]]);
            }
            out.append(piece);
        }
        proof {
            assert(esc_upto(s@, i as int + 1) == esc_upto(s@, i as int) + esc_one(s@[i as int]));
            assert(out@ =~= old(out)@ + esc_upto(s@, i as int + 1));
        }
        i = i + 1;
    }
    proof {
        assert(esc_chars(s@) == esc_upto(s@, s@.len() as int));
    }
}

/// Appends the canonical wire text of one document.
#[verifier::loop_isolation(false)]
fn enc_doc(d: &Doc, out: &mut String)
    ensures
        final(out)@ == old(out)@ + jdoc_chars(d.jx()),
    decreases *d,
{
    proof {
        reveal_strlit("null");
        reveal_strlit("true");
        reveal_strlit("false");
        reveal_strlit("\"");
        reveal_strlit("[");
        reveal_strlit("]");
        reveal_strlit("{");
        reveal_strlit("}");
        reveal_strlit(",");
        reveal_strlit(":");
        reveal_strlit("\":");
    }
    match d {
        Doc::Null => {
            out.append("null");
            proof {
                assert(final(out)@ =~= old(out)@ + jdoc_chars(d.jx()));
            }
        },
        Doc::Bool(b) => {
            if *b {
                out.append("true");
            } else {
                out.append("false");
            }
            proof {
                assert(final(out)@ =~= old(out)@ + jdoc_chars(d.jx()));
            }
        },
        Doc::Int(n) => {
            enc_int(*n, out);
        },
        Doc::Text(s) => {
            out.append("\"");
            enc_escaped(s.as_str(), out);
            out.append("\"");
            proof {
                assert(final(out)@ =~= old(out)@ + jdoc_chars(d.jx()));
            }
        },
        Doc::List(v) => {
            let ghost items = d.jx()->Arr_0;
            out.append("[");
            let ghost base = out@;
            let mut k: usize = 0;
            while k < v.len()
                invariant
                    items.len() == v@.len(),
                    forall|t: int| 0 <= t < v@.len() ==> items[t] == v@[t].jx(),
                    0 <= k <= v@.len(),
                    out@ == base + jitems_upto(items, k as int),
                    base == old(out)@ + seq!['['],
                decreases v@.len() - k,
            {
                if k > 0 {
                    out.append(",");
                }
                proof {
                    assert(decreases_to!(*v => v@));
                    assert(decreases_to!(v@ => v@[k as int]));
                    assert(decreases_to!(*d => v@[k as int]));
                }
                enc_doc(&v[k], out);
                proof {
                    assert(jitems_upto(items, k as int + 1) == jitems_upto(items, k as int) + (
                    if k as int + 1 == 1 {
                        Seq::<char>::empty()
                    } else {
                        seq![',']
                    }) + jdoc_chars(items[k as int]));
                    assert(out@ =~= base + jitems_upto(items, k as int + 1));
                }
                k = k + 1;
            }
            out.append("]");
            proof {
                assert(final(out)@ =~= old(out)@ + jdoc_chars(d.jx()));
            }
        },
        Doc::Object(v) => {
            let ghost fields = d.jx()->Obj_0;
            out.append("{");
            let ghost base = out@;
            let mut k: usize = 0;
            while k < v.len()
                invariant
                    fields.len() == v@.len(),
                    forall|t: int| 0 <= t < v@.len() ==> fields[t] == (v@[t].0@, v@[t].1.jx()),
                    0 <= k <= v@.len(),
                    out@ == base + jfields_upto(fields, k as int),
                    base == old(out)@ + seq!['{'],
                decreases v@.len() - k,
            {
                if k > 0 {
                    out.append(",");
                }
                out.append("\"");
                enc_escaped(v[k].0.as_str(), out);
                out.append("\":");
                proof {
                    assert(decreases_to!(*v => v@));
                    assert(decreases_to!(v@ => v@[k as int]));
                    assert(decreases_to!(v@[k as int] => v@[k as int].1));
                    assert(decreases_to!(*d => v@[k as int].1));
                }
                enc_doc(&v[k].1, out);
                proof {
                    assert(jfields_upto(fields, k as int + 1) == jfields_upto(fields, k as int)
                        + (if k as int + 1 == 1 {
                        Seq::<char>::empty()
                    } else {
                        seq![',']
                    }) + seq!['"'] + esc_chars(fields[k as int].0) + seq!['"', ':'] + jdoc_chars(
                        fields[k as int].1,
                    ));
                    assert(out@ =~= base + jfields_upto(fields, k as int + 1));
                }
                k = k + 1;
            }
            out.append("}");
            proof {
                assert(final(out)@ =~= old(out)@ + jdoc_chars(d.jx()));
            }
        },
    }
}

} // verus!
