//! The generic tagged document value exchanged with the worker: the union of
//! null, booleans, integers, strings, ordered lists and ordered field maps.
//! Request payloads and response envelopes are both values of this type.

use vstd::prelude::*;
use vstd::string::*;

verus! {

broadcast use vstd::std_specs::vec::group_vec_axioms, vstd::seq::group_seq_axioms;

/// The mathematical shape of a document: what a `Doc` is, with strings as
/// character sequences and integers unbounded.
pub enum Jx {
    Null,
    Bool(bool),
    Int(int),
    Str(Seq<char>),
    Arr(Seq<Jx>),
    Obj(Seq<(Seq<char>, Jx)>),
}

/// One structured document: the request payload sent to the worker and the
/// response envelope read back are both `Doc` values. Field maps are ordered
/// and may hold a key more than once; lookups take the first occurrence.
#[derive(Debug, PartialEq)]
pub enum Doc {
    Null,
    Bool(bool),
    Int(i64),
    Text(String),
    List(Vec<Doc>),
    Object(Vec<(String, Doc)>),
}

impl Doc {
    /// The mathematical value this document holds.
    pub open spec fn jx(self) -> Jx
        decreases self,
    {
        match self {
            Doc::Null => Jx::Null,
            Doc::Bool(b) => Jx::Bool(b),
            Doc::Int(n) => Jx::Int(n as int),
            Doc::Text(s) => Jx::Str(s@),
            Doc::List(v) => Jx::Arr(docs_jx(v@)),
            Doc::Object(v) => Jx::Obj(fields_jx(v@)),
        }
    }
}

/// The values a sequence of documents holds, element by element.
pub open spec fn docs_jx(v: Seq<Doc>) -> Seq<Jx>
    decreases v,
{
    Seq::new(v.len(), |k: int| if 0 <= k < v.len() { v[k].jx() } else { Jx::Null })
}

/// The first value under `key` in a run of fields, looking from field `k` on.
pub open spec fn jlookup_from(fields: Seq<(Seq<char>, Jx)>, key: Seq<char>, k: int) -> Option<Jx>
    decreases fields.len() - k,
{
    if k < 0 || k >= fields.len() {
        None
    } else if fields[k].0 == key {
        Some(fields[k].1)
    } else {
        jlookup_from(fields, key, k + 1)
    }
}

/// The value a document holds under `key`: the first such field of a field
/// map, nothing for any other document.
pub open spec fn jx_get(j: Jx, key: Seq<char>) -> Option<Jx> {
    match j {
        Jx::Obj(fields) => jlookup_from(fields, key, 0),
        _ => None,
    }
}

/// Whether two texts hold the same characters.
#[verifier::loop_isolation(false)]
pub fn str_eq(a: &str, b: &str) -> (r: bool)
    ensures
        r == (a@ == b@),
{
    let na = a.unicode_len();
    let nb = b.unicode_len();
    if na != nb {
        return false;
    }
    let mut i: usize = 0;
    while i < na
        invariant
            na == a@.len(),
            na == b@.len(),
            0 <= i <= na,
            forall|t: int| 0 <= t < i ==> a@[t] == b@[t],
        decreases na - i,
    {
        if a.get_char(i) != b.get_char(i) {
            return false;
        }
        i = i + 1;
    }
    proof {
        assert(a@ =~= b@);
    }
    true
}

/// Looks a field up in a document: the first field under that key when the
/// document is a field map, nothing otherwise.
#[verifier::loop_isolation(false)]
pub fn doc_get<'a>(d: &'a Doc, key: &str) -> (r: Option<&'a Doc>)
    ensures
        match r {
            Some(v) => jx_get(d.jx(), key@) == Some(v.jx()),
            None => jx_get(d.jx(), key@) is None,
        },
{
    match d {
        Doc::Object(fields) => {
            let ghost fx = fields_jx(fields@);
            let n = fields.len();
            let mut k: usize = 0;
            while k < n
                invariant
                    n == fields@.len(),
                    fx == fields_jx(fields@),
                    0 <= k <= n,
                    jlookup_from(fx, key@, 0) == jlookup_from(fx, key@, k as int),
                decreases n - k,
            {
                if str_eq(fields[k].0.as_str(), key) {
                    return Some(&fields[k].1);
                }
                k = k + 1;
            }
            None
        },
        _ => None,
    }
}

/// The values a sequence of named documents holds, field by field.
pub open spec fn fields_jx(v: Seq<(String, Doc)>) -> Seq<(Seq<char>, Jx)>
    decreases v,
{
    Seq::new(
        v.len(),
        |k: int| if 0 <= k < v.len() {
            (v[k].0@, v[k].1.jx())
        } else {
            (Seq::<char>::empty(), Jx::Null)
        },
    )
}

} // verus!
