//! Reading a worker reply back into a document. The grammar is the wire
//! format of `wire`, with whitespace tolerated between tokens: documents are
//! null, true, false, integers of at most eighteen digits, quoted strings
//! with the short escapes, lists in brackets and field maps in braces. The
//! spec functions `jparse*` are the full statement of the grammar, and every
//! executable function returns exactly what its spec function names.

use vstd::prelude::*;
use vstd::string::*;

use crate::doc::{docs_jx, fields_jx, Doc, Jx};

verus! {

broadcast use vstd::std_specs::vec::group_vec_axioms, vstd::seq::group_seq_axioms;

/// The whitespace characters tolerated between tokens.
pub open spec fn is_ws(c: char) -> bool {
    c == ' ' || c == '\n' || c == '\r' || c == '\t'
}

/// The first position at or after `i` that does not hold whitespace.
pub open spec fn skip_ws(s: Seq<char>, i: int) -> int
    decreases s.len() - i,
{
    if 0 <= i < s.len() && is_ws(s[i]) {
        skip_ws(s, i + 1)
    } else {
        i
    }
}

/// A decimal digit character.
pub open spec fn is_digit(c: char) -> bool {
    48 <= c as u32 <= 57
}

/// The value of a decimal digit character.
pub open spec fn digit_val(c: char) -> int {
    c as u32 - 48
}

/// The first position at or after `i` that does not hold a digit.
pub open spec fn digits_end(s: Seq<char>, i: int) -> int
    decreases s.len() - i,
{
    if 0 <= i < s.len() && is_digit(s[i]) {
        digits_end(s, i + 1)
    } else {
        i
    }
}

/// The value of the digit run from `i` up to `e`, read in base ten.
pub open spec fn digits_val(s: Seq<char>, i: int, e: int) -> int
    decreases e - i,
{
    if i >= e {
        0
    } else {
        digits_val(s, i, e - 1) * 10 + digit_val(s[e - 1])
    }
}

/// Ten to the given power.
pub open spec fn pow10(e: nat) -> nat
    decreases e,
{
    if e == 0 {
        1
    } else {
        10 * pow10((e - 1) as nat)
    }
}

/// The character an escape letter stands for, if it is a known escape.
pub open spec fn unesc(c: char) -> Option<char> {
    if c == '"' {
        Some('"')
    } else if c == '\\' {
        Some('\\')
    } else if c == '/' {
        Some('/')
    } else if c == 'n' {
        Some('\n')
    } else if c == 'r' {
        Some('\r')
    } else if c == 't' {
        Some('\t')
    } else if c == 'b' {
        Some('\u{0008}')
    } else if c == 'f' {
        Some('\u{000C}')
    } else {
        None
    }
}

/// The string content and end position read from just after an opening
/// quote: characters up to the unescaped closing quote, escapes decoded.
/// The end position is the position just after the closing quote.
pub open spec fn jparse_string(s: Seq<char>, i: int) -> Option<(Seq<char>, int)>
    decreases s.len() - i,
{
    if i < 0 || i >= s.len() {
        None
    } else if s[i] == '"' {
        Some((Seq::<char>::empty(), i + 1))
    } else if s[i] == '\\' {
        if i + 1 < s.len() {
            match unesc(s[i + 1]) {
                Some(c) => match jparse_string(s, i + 2) {
                    Some((t, e)) => Some((seq![c] + t, e)),
                    None => None,
                },
                None => None,
            }
        } else {
            None
        }
    } else {
        match jparse_string(s, i + 1) {
            Some((t, e)) => Some((seq![s[i]] + t, e)),
            None => None,
        }
    }
}

/// The integer and end position read at `i`: an optional minus sign, then
/// one to eighteen digits. Longer digit runs are not wire values.
pub open spec fn jparse_number(s: Seq<char>, i: int) -> Option<(int, int)> {
    let neg = 0 <= i < s.len() && s[i] == '-';
    let j = if neg {
        i + 1
    } else {
        i
    };
    let e = digits_end(s, j);
    if !(0 <= j < s.len() && is_digit(s[j])) {
        None
    } else if e - j > 18 {
        None
    } else {
        let m = digits_val(s, j, e);
        Some(
            (
                if neg {
                    -m
                } else {
                    m
                },
                e,
            ),
        )
    }
}

/// The document value and end position read at `i`, leading whitespace
/// skipped. Here and below, the checks that a returned position moved
/// forward and stayed within the text only make the grammar's recursion
/// well-founded: a successful read always advances, so they select nothing.
pub open spec fn jparse_val(s: Seq<char>, i: int) -> Option<(Jx, int)>
    decreases s.len() - i, 1int,
{
    let j = skip_ws(s, i);
    if j < i || j >= s.len() {
        None
    } else if s[j] == '{' {
        jparse_obj_body(s, j + 1)
    } else if s[j] == '[' {
        jparse_arr_body(s, j + 1)
    } else if s[j] == '"' {
        match jparse_string(s, j + 1) {
            Some((t, e)) => Some((Jx::Str(t), e)),
            None => None,
        }
    } else if s[j] == 't' {
        if j + 4 <= s.len() && s[j + 1] == 'r' && s[j + 2] == 'u' && s[j + 3] == 'e' {
            Some((Jx::Bool(true), j + 4))
        } else {
            None
        }
    } else if s[j] == 'f' {
        if j + 5 <= s.len() && s[j + 1] == 'a' && s[j + 2] == 'l' && s[j + 3] == 's' && s[j + 4]
            == 'e' {
            Some((Jx::Bool(false), j + 5))
        } else {
            None
        }
    } else if s[j] == 'n' {
        if j + 4 <= s.len() && s[j + 1] == 'u' && s[j + 2] == 'l' && s[j + 3] == 'l' {
            Some((Jx::Null, j + 4))
        } else {
            None
        }
    } else if s[j] == '-' || is_digit(s[j]) {
        match jparse_number(s, j) {
            Some((m, e)) => Some((Jx::Int(m), e)),
            None => None,
        }
    } else {
        None
    }
}

/// The list read from just after an opening bracket: a closing bracket, or
/// a first element followed by the remaining elements.
pub open spec fn jparse_arr_body(s: Seq<char>, i: int) -> Option<(Jx, int)>
    decreases s.len() - i, 2int,
{
    let j = skip_ws(s, i);
    if j < i || j >= s.len() {
        None
    } else if s[j] == ']' {
        Some((Jx::Arr(Seq::<Jx>::empty()), j + 1))
    } else {
        match jparse_val(s, j) {
            Some((v, e)) => if e <= j || e > s.len() {
                None
            } else {
                match jparse_arr_rest(s, e) {
                    Some((rest, e2)) => Some((Jx::Arr(seq![v] + rest), e2)),
                    None => None,
                }
            },
            None => None,
        }
    }
}

/// The elements that follow an element of a list: a closing bracket, or a
/// comma and a further element.
pub open spec fn jparse_arr_rest(s: Seq<char>, i: int) -> Option<(Seq<Jx>, int)>
    decreases s.len() - i, 2int,
{
    let j = skip_ws(s, i);
    if j < i || j >= s.len() {
        None
    } else if s[j] == ']' {
        Some((Seq::<Jx>::empty(), j + 1))
    } else if s[j] == ',' {
        match jparse_val(s, j + 1) {
            Some((v, e)) => if e <= j + 1 || e > s.len() {
                None
            } else {
                match jparse_arr_rest(s, e) {
                    Some((rest, e2)) => Some((seq![v] + rest, e2)),
                    None => None,
                }
            },
            None => None,
        }
    } else {
        None
    }
}

/// The field map read from just after an opening brace: a closing brace, or
/// a first `"key": value` field followed by the remaining fields.
pub open spec fn jparse_obj_body(s: Seq<char>, i: int) -> Option<(Jx, int)>
    decreases s.len() - i, 2int,
{
    let j = skip_ws(s, i);
    if j < i || j >= s.len() {
        None
    } else if s[j] == '}' {
        Some((Jx::Obj(Seq::<(Seq<char>, Jx)>::empty()), j + 1))
    } else if s[j] == '"' {
        match jparse_string(s, j + 1) {
            Some((key, e1)) => if e1 <= j + 1 {
                None
            } else {
                let m = skip_ws(s, e1);
                if m < e1 || m >= s.len() || s[m] != ':' {
                    None
                } else {
                    match jparse_val(s, m + 1) {
                        Some((v, e2)) => if e2 <= m + 1 || e2 > s.len() {
                            None
                        } else {
                            match jparse_obj_rest(s, e2) {
                                Some((rest, e3)) => Some((Jx::Obj(seq![(key, v)] + rest), e3)),
                                None => None,
                            }
                        },
                        None => None,
                    }
                }
            },
            None => None,
        }
    } else {
        None
    }
}

/// The fields that follow a field of a field map: a closing brace, or a
/// comma and a further `"key": value` field.
pub open spec fn jparse_obj_rest(s: Seq<char>, i: int) -> Option<
    (Seq<(Seq<char>, Jx)>, int),
>
    decreases s.len() - i, 2int,
{
    let j = skip_ws(s, i);
    if j < i || j >= s.len() {
        None
    } else if s[j] == '}' {
        Some((Seq::<(Seq<char>, Jx)>::empty(), j + 1))
    } else if s[j] == ',' {
        let k = skip_ws(s, j + 1);
        if k <= j || k >= s.len() || s[k] != '"' {
            None
        } else {
            match jparse_string(s, k + 1) {
                Some((key, e1)) => if e1 <= k + 1 {
                    None
                } else {
                    let m = skip_ws(s, e1);
                    if m < e1 || m >= s.len() || s[m] != ':' {
                        None
                    } else {
                        match jparse_val(s, m + 1) {
                            Some((v, e2)) => if e2 <= m + 1 || e2 > s.len() {
                                None
                            } else {
                                match jparse_obj_rest(s, e2) {
                                    Some((rest, e3)) => Some(
                                        (seq![(key, v)] + rest, e3),
                                    ),
                                    None => None,
                                }
                            },
                            None => None,
                        }
                    }
                },
                None => None,
            }
        }
    } else {
        None
    }
}

/// The document a whole reply holds: one value, with nothing but whitespace
/// around it.
pub open spec fn jparse(s: Seq<char>) -> Option<Jx> {
    match jparse_val(s, 0) {
        Some((v, e)) => if skip_ws(s, e) == s.len() {
            Some(v)
        } else {
            None
        },
        None => None,
    }
}

/// The digit run starting at `i` lies within the text, holds digits only,
/// and ends at a non-digit.
proof fn lemma_digits_end(s: Seq<char>, i: int)
    requires
        0 <= i <= s.len(),
    ensures
        i <= digits_end(s, i) <= s.len(),
        forall|m: int| i <= m < digits_end(s, i) ==> is_digit(s[m]),
        digits_end(s, i) < s.len() ==> !is_digit(s[digits_end(s, i)]),
    decreases s.len() - i,
{
    if 0 <= i < s.len() && is_digit(s[i]) {
        lemma_digits_end(s, i + 1);
    }
}

/// Powers of ten do not shrink as the exponent grows.
pub proof fn lemma_pow10_mono(a: nat, b: nat)
    requires
        a <= b,
    ensures
        pow10(a) <= pow10(b),
    decreases b,
{
    if a < b {
        lemma_pow10_mono(a, (b - 1) as nat);
    }
}

/// Reads a text as one whole document: exactly what the grammar `jparse`
/// names, or nothing when the text is not a well-formed document.
pub fn parse_json(s: &str) -> (r: Option<Doc>)
    ensures
        match r {
            Some(d) => jparse(s@) == Some(d.jx()),
            None => jparse(s@) is None,
        },
{
    let n = s.unicode_len();
    match p_val(s, n, 0) {
        Some((d, e)) => {
            let w = eskip_ws(s, n, e);
            if w == n {
                Some(d)
            } else {
                None
            }
        },
        None => None,
    }
}

/// The first position at or after `i` without whitespace, as `skip_ws` names.
fn eskip_ws(s: &str, n: usize, i: usize) -> (r: usize)
    requires
        n == s@.len(),
        i <= n,
    ensures
        r as int == skip_ws(s@, i as int),
        i <= r <= n,
    decreases n - i,
{
    if i < n {
        let c = s.get_char(i);
        if c == ' ' || c == '\n' || c == '\r' || c == '\t' {
            return eskip_ws(s, n, i + 1);
        }
    }
    i
}

/// The first position at or after `i` without a digit, as `digits_end` names.
fn edigits_end(s: &str, n: usize, i: usize) -> (e: usize)
    requires
        n == s@.len(),
        i <= n,
    ensures
        e as int == digits_end(s@, i as int),
        i <= e <= n,
    decreases n - i,
{
    if i < n {
        let c = s.get_char(i);
        if c as u32 >= 48 && c as u32 <= 57 {
            return edigits_end(s, n, i + 1);
        }
    }
    i
}

/// The one-character text an escape letter stands for, as `unesc` names.
fn unescape_str(c: char) -> (r: Option<&'static str>)
    ensures
        match r {
            Some(t) => unesc(c) matches Some(u) && t@ == seq![u],
            None => unesc(c) is None,
        },
{
    proof {
        reveal_strlit("\"");
        reveal_strlit("\\");
        reveal_strlit("/");
        reveal_strlit("\n");
        reveal_strlit("\r");
        reveal_strlit("\t");
        reveal_strlit("\u{0008}");
        reveal_strlit("\u{000C}");
    }
    if c == '"' {
        Some("\"")
    } else if c == '\\' {
        Some("\\")
    } else if c == '/' {
        Some("/")
    } else if c == 'n' {
        Some("\n")
    } else if c == 'r' {
        Some("\r")
    } else if c == 't' {
        Some("\t")
    } else if c == 'b' {
        Some("\u{0008}")
    } else if c == 'f' {
        Some("\u{000C}")
    } else {
        None
    }
}

/// Reads string content from just after an opening quote, as
/// `jparse_string` names.
fn p_string(s: &str, n: usize, i: usize) -> (r: Option<(String, usize)>)
    requires
        n == s@.len(),
        i <= n,
    ensures
        match r {
            Some(p) => jparse_string(s@, i as int) == Some((p.0@, p.1 as int)) && i < p.1 <= n,
            None => jparse_string(s@, i as int) is None,
        },
    decreases n - i,
{
    if i >= n {
        return None;
    }
    let c = s.get_char(i);
    if c == '"' {
        return Some((String::new(), i + 1));
    }
    if c == '\\' {
        if i + 1 >= n {
            return None;
        }
        let c2 = s.get_char(i + 1);
        match unescape_str(c2) {
            Some(piece) => match p_string(s, n, i + 2) {
                Some((tail, e)) => {
                    let mut t = piece.to_owned();
                    t.append(tail.as_str());
                    Some((t, e))
                },
                None => None,
            },
            None => None,
        }
    } else {
        let piece = s.substring_char(i, i + 1);
        proof {
            assert(piece@ =~= seq![s@[i as int]]);
        }
        match p_string(s, n, i + 1) {
            Some((tail, e)) => {
                let mut t = piece.to_owned();
                t.append(tail.as_str());
                Some((t, e))
            },
            None => None,
        }
    }
}

/// Reads an integer at `i`, as `jparse_number` names.
#[verifier::loop_isolation(false)]
fn p_number(s: &str, n: usize, i: usize) -> (r: Option<(i64, usize)>)
    requires
        n == s@.len(),
        i <= n,
    ensures
        match r {
            Some(p) => jparse_number(s@, i as int) == Some((p.0 as int, p.1 as int)) && i < p.1
                <= n,
            None => jparse_number(s@, i as int) is None,
        },
{
    let (neg, j) = if i < n && s.get_char(i) == '-' {
        (true, i + 1)
    } else {
        (false, i)
    };
    if j >= n {
        return None;
    }
    let c0 = s.get_char(j);
    if !(c0 as u32 >= 48 && c0 as u32 <= 57) {
        return None;
    }
    let e = edigits_end(s, n, j);
    proof {
        lemma_digits_end(s@, j as int);
        lemma_digits_end(s@, j as int + 1);
        reveal_with_fuel(pow10, 20);
        assert(pow10(17 as nat) == 100000000000000000) by {
            reveal_with_fuel(pow10, 20);
        }
        assert(pow10(18 as nat) == 1000000000000000000) by {
            reveal_with_fuel(pow10, 20);
        }
    }
    if e - j > 18 {
        return None;
    }
    let mut acc: u64 = 0;
    let mut k = j;
    while k < e
        invariant
            j <= k <= e,
            acc == digits_val(s@, j as int, k as int),
            acc < pow10((k - j) as nat),
        decreases e - k,
    {
        let c = s.get_char(k);
        let d = (c as u32 - 48) as u64;
        proof {
            lemma_pow10_mono((k - j) as nat, 17 as nat);
        }
        acc = acc * 10 + d;
        k = k + 1;
    }
    proof {
        lemma_pow10_mono((e - j) as nat, 18 as nat);
    }
    let v: i64 = if neg {
        -(acc as i64)
    } else {
        acc as i64
    };
    Some((v, e))
}

/// Reads one document value at `i`, as `jparse_val` names.
fn p_val(s: &str, n: usize, i: usize) -> (r: Option<(Doc, usize)>)
    requires
        n == s@.len(),
        i <= n,
    ensures
        match r {
            Some(p) => jparse_val(s@, i as int) == Some((p.0.jx(), p.1 as int)) && i < p.1 <= n,
            None => jparse_val(s@, i as int) is None,
        },
    decreases n - i, 1int,
{
    let j = eskip_ws(s, n, i);
    if j >= n {
        return None;
    }
    let c = s.get_char(j);
    if c == '{' {
        p_obj_body(s, n, j + 1)
    } else if c == '[' {
        p_arr_body(s, n, j + 1)
    } else if c == '"' {
        match p_string(s, n, j + 1) {
            Some((t, e)) => Some((Doc::Text(t), e)),
            None => None,
        }
    } else if c == 't' {
        if n - j >= 4 && s.get_char(j + 1) == 'r' && s.get_char(j + 2) == 'u' && s.get_char(j + 3)
            == 'e' {
            Some((Doc::Bool(true), j + 4))
        } else {
            None
        }
    } else if c == 'f' {
        if n - j >= 5 && s.get_char(j + 1) == 'a' && s.get_char(j + 2) == 'l' && s.get_char(j + 3)
            == 's' && s.get_char(j + 4) == 'e' {
            Some((Doc::Bool(false), j + 5))
        } else {
            None
        }
    } else if c == 'n' {
        if n - j >= 4 && s.get_char(j + 1) == 'u' && s.get_char(j + 2) == 'l' && s.get_char(j + 3)
            == 'l' {
            Some((Doc::Null, j + 4))
        } else {
            None
        }
    } else if c == '-' || (c as u32 >= 48 && c as u32 <= 57) {
        match p_number(s, n, j) {
            Some((m, e)) => Some((Doc::Int(m), e)),
            None => None,
        }
    } else {
        None
    }
}

/// Reads a list from just after its opening bracket, as `jparse_arr_body`
/// names.
fn p_arr_body(s: &str, n: usize, i: usize) -> (r: Option<(Doc, usize)>)
    requires
        n == s@.len(),
        i <= n,
    ensures
        match r {
            Some(p) => jparse_arr_body(s@, i as int) == Some((p.0.jx(), p.1 as int)) && i < p.1
                <= n,
            None => jparse_arr_body(s@, i as int) is None,
        },
    decreases n - i, 2int,
{
    let j = eskip_ws(s, n, i);
    if j >= n {
        return None;
    }
    let c = s.get_char(j);
    if c == ']' {
        let items: Vec<Doc> = Vec::new();
        proof {
            assert(docs_jx(items@) =~= Seq::<Jx>::empty());
        }
        return Some((Doc::List(items), j + 1));
    }
    match p_val(s, n, j) {
        Some((v, e)) => match p_arr_rest(s, n, e) {
            Some((rest, e2)) => {
                let ghost restview = rest@;
                let mut items = rest;
                items.insert(0, v);
                proof {
                    assert(docs_jx(items@) =~= seq![v.jx()] + docs_jx(restview));
                }
                Some((Doc::List(items), e2))
            },
            None => None,
        },
        None => None,
    }
}

/// Reads the elements that follow a list element, as `jparse_arr_rest`
/// names.
fn p_arr_rest(s: &str, n: usize, i: usize) -> (r: Option<(Vec<Doc>, usize)>)
    requires
        n == s@.len(),
        i <= n,
    ensures
        match r {
            Some(p) => jparse_arr_rest(s@, i as int) == Some((docs_jx(p.0@), p.1 as int)) && i
                < p.1 <= n,
            None => jparse_arr_rest(s@, i as int) is None,
        },
    decreases n - i, 2int,
{
    let j = eskip_ws(s, n, i);
    if j >= n {
        return None;
    }
    let c = s.get_char(j);
    if c == ']' {
        let items: Vec<Doc> = Vec::new();
        proof {
            assert(docs_jx(items@) =~= Seq::<Jx>::empty());
        }
        return Some((items, j + 1));
    }
    if c != ',' {
        return None;
    }
    match p_val(s, n, j + 1) {
        Some((v, e)) => match p_arr_rest(s, n, e) {
            Some((rest, e2)) => {
                let ghost restview = rest@;
                let mut items = rest;
                items.insert(0, v);
                proof {
                    assert(docs_jx(items@) =~= seq![v.jx()] + docs_jx(restview));
                }
                Some((items, e2))
            },
            None => None,
        },
        None => None,
    }
}

/// Reads a field map from just after its opening brace, as
/// `jparse_obj_body` names.
fn p_obj_body(s: &str, n: usize, i: usize) -> (r: Option<(Doc, usize)>)
    requires
        n == s@.len(),
        i <= n,
    ensures
        match r {
            Some(p) => jparse_obj_body(s@, i as int) == Some((p.0.jx(), p.1 as int)) && i < p.1
                <= n,
            None => jparse_obj_body(s@, i as int) is None,
        },
    decreases n - i, 2int,
{
    let j = eskip_ws(s, n, i);
    if j >= n {
        return None;
    }
    let c = s.get_char(j);
    if c == '}' {
        let fields: Vec<(String, Doc)> = Vec::new();
        proof {
            assert(fields_jx(fields@) =~= Seq::<(Seq<char>, Jx)>::empty());
        }
        return Some((Doc::Object(fields), j + 1));
    }
    if c != '"' {
        return None;
    }
    match p_string(s, n, j + 1) {
        Some((key, e1)) => {
            let m = eskip_ws(s, n, e1);
            if m >= n {
                return None;
            }
            if s.get_char(m) != ':' {
                return None;
            }
            match p_val(s, n, m + 1) {
                Some((v, e2)) => match p_obj_rest(s, n, e2) {
                    Some((rest, e3)) => {
                        let ghost restview = rest@;
                        let ghost keyview = key@;
                        let ghost vjx = v.jx();
                        let mut fields = rest;
                        fields.insert(0, (key, v));
                        proof {
                            assert(fields_jx(fields@) =~= seq![(keyview, vjx)] + fields_jx(
                                restview,
                            ));
                        }
                        Some((Doc::Object(fields), e3))
                    },
                    None => None,
                },
                None => None,
            }
        },
        None => None,
    }
}

/// Reads the fields that follow a field of a field map, as
/// `jparse_obj_rest` names.
fn p_obj_rest(s: &str, n: usize, i: usize) -> (r: Option<(Vec<(String, Doc)>, usize)>)
    requires
        n == s@.len(),
        i <= n,
    ensures
        match r {
            Some(p) => jparse_obj_rest(s@, i as int) == Some((fields_jx(p.0@), p.1 as int)) && i
                < p.1 <= n,
            None => jparse_obj_rest(s@, i as int) is None,
        },
    decreases n - i, 2int,
{
    let j = eskip_ws(s, n, i);
    if j >= n {
        return None;
    }
    let c = s.get_char(j);
    if c == '}' {
        let fields: Vec<(String, Doc)> = Vec::new();
        proof {
            assert(fields_jx(fields@) =~= Seq::<(Seq<char>, Jx)>::empty());
        }
        return Some((fields, j + 1));
    }
    if c != ',' {
        return None;
    }
    let k = eskip_ws(s, n, j + 1);
    if k >= n {
        return None;
    }
    if s.get_char(k) != '"' {
        return None;
    }
    match p_string(s, n, k + 1) {
        Some((key, e1)) => {
            let m = eskip_ws(s, n, e1);
            if m >= n {
                return None;
            }
            if s.get_char(m) != ':' {
                return None;
            }
            match p_val(s, n, m + 1) {
                Some((v, e2)) => match p_obj_rest(s, n, e2) {
                    Some((rest, e3)) => {
                        let ghost restview = rest@;
                        let ghost keyview = key@;
                        let ghost vjx = v.jx();
                        let mut fields = rest;
                        fields.insert(0, (key, v));
                        proof {
                            assert(fields_jx(fields@) =~= seq![(keyview, vjx)] + fields_jx(
                                restview,
                            ));
                        }
                        Some((fields, e3))
                    },
                    None => None,
                },
                None => None,
            }
        },
        None => None,
    }
}

} // verus!
