//! Library JSON model with canonical serialization.
//!
//! Parameters, device state snapshots, and fault details are held in
//! [`JsonValue`]. Numbers carry their JSON token text, so any number a peer
//! can produce round-trips without loss and without floating point.
//! Canonical serialization sorts object keys recursively (arrays keep their
//! order), so every producer and verifier reconstructs identical signing
//! bytes from equal parameter maps.

use vstd::prelude::*;

verus! {

/// A JSON document as plain values.
#[derive(Debug)]
pub enum JsonValue {
    Null,
    Bool(bool),
    /// A JSON number, carried as its literal token text (e.g. `"42"`, `"1.5"`).
    Num(String),
    Str(String),
    Arr(Vec<JsonValue>),
    Obj(Vec<(String, JsonValue)>),
}

/// Ghost deep view of a JSON tree.
#[verifier::ext_equal]
pub enum Jv {
    Null,
    Bool(bool),
    Num(Seq<char>),
    Str(Seq<char>),
    Arr(Seq<Jv>),
    Obj(Seq<(Seq<char>, Jv)>),
}

/// Deep view of a [`JsonValue`].
pub open spec fn jv(v: JsonValue) -> Jv
    decreases v,
{
    match v {
        JsonValue::Null => Jv::Null,
        JsonValue::Bool(b) => Jv::Bool(b),
        JsonValue::Num(s) => Jv::Num(s@),
        JsonValue::Str(s) => Jv::Str(s@),
        JsonValue::Arr(items) => Jv::Arr(jv_seq(items@)),
        JsonValue::Obj(pairs) => Jv::Obj(jv_pairs(pairs@)),
    }
}

pub open spec fn jv_seq(s: Seq<JsonValue>) -> Seq<Jv>
    decreases s,
{
    if s.len() == 0 {
        Seq::empty()
    } else {
        seq![jv(s[0])] + jv_seq(s.drop_first())
    }
}

pub open spec fn jv_pairs(s: Seq<(String, JsonValue)>) -> Seq<(Seq<char>, Jv)>
    decreases s,
{
    if s.len() == 0 {
        Seq::empty()
    } else {
        seq![(s[0].0@, jv(s[0].1))] + jv_pairs(s.drop_first())
    }
}

pub proof fn lemma_jv_seq_index(s: Seq<JsonValue>, i: int)
    requires
        0 <= i < s.len(),
    ensures
        jv_seq(s).len() == s.len(),
        jv_seq(s)[i] == jv(s[i]),
    decreases s,
{
    lemma_jv_seq_len(s);
    if i > 0 {
        lemma_jv_seq_index(s.drop_first(), i - 1);
    }
}

pub proof fn lemma_jv_seq_len(s: Seq<JsonValue>)
    ensures
        jv_seq(s).len() == s.len(),
    decreases s,
{
    if s.len() > 0 {
        lemma_jv_seq_len(s.drop_first());
    }
}

pub proof fn lemma_jv_pairs_index(s: Seq<(String, JsonValue)>, i: int)
    requires
        0 <= i < s.len(),
    ensures
        jv_pairs(s).len() == s.len(),
        jv_pairs(s)[i] == (s[i].0@, jv(s[i].1)),
    decreases s,
{
    lemma_jv_pairs_len(s);
    if i > 0 {
        lemma_jv_pairs_index(s.drop_first(), i - 1);
    }
}

pub proof fn lemma_jv_pairs_len(s: Seq<(String, JsonValue)>)
    ensures
        jv_pairs(s).len() == s.len(),
    decreases s,
{
    if s.len() > 0 {
        lemma_jv_pairs_len(s.drop_first());
    }
}

/// Lexicographic order on character sequences by code point, which is the
/// order `str` comparison uses.
pub open spec fn str_le(a: Seq<char>, b: Seq<char>) -> bool
    decreases a.len(),
{
    if a.len() == 0 {
        true
    } else if b.len() == 0 {
        false
    } else if (a[0] as u32) < (b[0] as u32) {
        true
    } else if (a[0] as u32) > (b[0] as u32) {
        false
    } else {
        str_le(a.drop_first(), b.drop_first())
    }
}

/// Append a single character.
/// Relies on `String::push`, which appends the given char to the string.
#[verifier::external_body]
pub fn push_char(s: &mut String, c: char)
    ensures
        final(s)@ == old(s)@ + seq![c],
{
    s.push(c);
}

/// Append a string slice.
/// Relies on `String::push_str`, which appends the given slice to the string.
#[verifier::external_body]
pub fn push_str(s: &mut String, t: &str)
    ensures
        final(s)@ == old(s)@ + t@,
{
    s.push_str(t);
}

/// Compare two strings lexicographically by code point.
pub fn str_le_exec(a: &str, b: &str) -> (r: bool)
    ensures
        r == str_le(a@, b@),
{
    let a_len: usize = a.unicode_len();
    let b_len: usize = b.unicode_len();
    let mut i: usize = 0;
    proof {
        assert(a@.skip(0) =~= a@);
        assert(b@.skip(0) =~= b@);
    }
    loop
        invariant
            i <= a_len,
            i <= b_len,
            a_len == a@.len(),
            b_len == b@.len(),
            a@.subrange(0, i as int) == b@.subrange(0, i as int),
            str_le(a@, b@) == str_le(a@.skip(i as int), b@.skip(i as int)),
        decreases a_len - i,
    {
        if i >= a_len {
            return true;
        }
        if i >= b_len {
            assert(b@.skip(i as int).len() == 0);
            assert(a@.skip(i as int).len() > 0);
            return false;
        }
        let ca = a.get_char(i);
        let cb = b.get_char(i);
        assert(a@.skip(i as int)[0] == a@[i as int]);
        assert(b@.skip(i as int)[0] == b@[i as int]);
        if (ca as u32) < (cb as u32) {
            return true;
        }
        if (ca as u32) > (cb as u32) {
            return false;
        }
        proof {
            assert(a@.skip(i as int).drop_first() == a@.skip(i + 1));
            assert(b@.skip(i as int).drop_first() == b@.skip(i + 1));
            assert(a@.subrange(0, i + 1) == b@.subrange(0, i + 1)) by {
                assert(a@.subrange(0, i + 1) =~= a@.subrange(0, i as int).push(a@[i as int]));
                assert(b@.subrange(0, i + 1) =~= b@.subrange(0, i as int).push(b@[i as int]));
            }
        }
        i = i + 1;
    }
}

/// An array element stands below the whole tree in the termination order.
pub proof fn lemma_arr_elem_decreases(v: JsonValue, items: Vec<JsonValue>, i: int)
    requires
        v == JsonValue::Arr(items),
        0 <= i < items@.len(),
    ensures
        decreases_to!(v => items@[i]),
{
    assert(decreases_to!(v => v->Arr_0));
    assert(v->Arr_0 == items);
    assert(decreases_to!(items => items@[i]));
}

/// An object member value stands below the whole tree in the termination order.
pub proof fn lemma_obj_val_decreases(v: JsonValue, pairs: Vec<(String, JsonValue)>, i: int)
    requires
        v == JsonValue::Obj(pairs),
        0 <= i < pairs@.len(),
    ensures
        decreases_to!(v => pairs@[i].1),
{
    assert(decreases_to!(v => v->Obj_0));
    assert(v->Obj_0 == pairs);
    assert(decreases_to!(pairs => pairs@[i]));
    assert(decreases_to!(pairs@[i] => pairs@[i].1));
}

impl Clone for JsonValue {
    /// Deep copy with an identical view.
    fn clone(&self) -> (r: JsonValue)
        ensures
            jv(r) == jv(*self),
    {
        json_clone(self)
    }
}

/// Character-wise string equality.
pub fn str_eq(a: &str, b: &str) -> (r: bool)
    ensures
        r == (a@ == b@),
{
    let a_len: usize = a.unicode_len();
    let b_len: usize = b.unicode_len();
    if a_len != b_len {
        return false;
    }
    let mut i: usize = 0;
    while i < a_len
        invariant
            i <= a_len,
            a_len == a@.len(),
            a_len == b@.len(),
            a@.subrange(0, i as int) == b@.subrange(0, i as int),
        decreases a_len - i,
    {
        let ca = a.get_char(i);
        let cb = b.get_char(i);
        if ca != cb {
            assert(a@[i as int] != b@[i as int]);
            return false;
        }
        proof {
            assert(a@.subrange(0, i + 1) =~= a@.subrange(0, i as int).push(a@[i as int]));
            assert(b@.subrange(0, i + 1) =~= b@.subrange(0, i as int).push(b@[i as int]));
        }
        i = i + 1;
    }
    proof {
        assert(a@.subrange(0, a_len as int) =~= a@);
        assert(b@.subrange(0, a_len as int) =~= b@);
    }
    true
}

/// Deep copy of a JSON tree with an identical view.
pub fn json_clone(v: &JsonValue) -> (r: JsonValue)
    ensures
        jv(r) == jv(*v),
    decreases v,
{
    match v {
        JsonValue::Null => JsonValue::Null,
        JsonValue::Bool(b) => JsonValue::Bool(*b),
        JsonValue::Num(s) => JsonValue::Num(s.clone()),
        JsonValue::Str(s) => JsonValue::Str(s.clone()),
        JsonValue::Arr(items) => {
            let mut out: Vec<JsonValue> = Vec::new();
            let n: usize = items.len();
            let mut i: usize = 0;
            while i < n
                invariant
                    i <= n,
                    n == items@.len(),
                    *v == JsonValue::Arr(*items),
                    out@.len() == i,
                    forall|j: int| 0 <= j < i ==> jv(out@[j]) == jv(items@[j]),
                decreases n - i,
            {
                proof {
                    lemma_arr_elem_decreases(*v, *items, i as int);
                }
                let c = json_clone(&items[i]);
                out.push(c);
                i = i + 1;
            }
            proof {
                lemma_jv_seq_ext(out@, items@);
            }
            JsonValue::Arr(out)
        }
        JsonValue::Obj(pairs) => {
            let mut out: Vec<(String, JsonValue)> = Vec::new();
            let n: usize = pairs.len();
            let mut i: usize = 0;
            while i < n
                invariant
                    i <= n,
                    n == pairs@.len(),
                    *v == JsonValue::Obj(*pairs),
                    out@.len() == i,
                    forall|j: int| 0 <= j < i ==> out@[j].0@ == pairs@[j].0@
                        && jv(out@[j].1) == jv(pairs@[j].1),
                decreases n - i,
            {
                proof {
                    lemma_obj_val_decreases(*v, *pairs, i as int);
                }
                let k = pairs[i].0.clone();
                let c = json_clone(&pairs[i].1);
                out.push((k, c));
                i = i + 1;
            }
            proof {
                lemma_jv_pairs_ext(out@, pairs@);
            }
            JsonValue::Obj(out)
        }
    }
}

/// Two element-wise view-equal sequences have equal views.
pub proof fn lemma_jv_seq_ext(a: Seq<JsonValue>, b: Seq<JsonValue>)
    requires
        a.len() == b.len(),
        forall|j: int| 0 <= j < a.len() ==> jv(a[j]) == jv(b[j]),
    ensures
        jv_seq(a) == jv_seq(b),
    decreases a,
{
    if a.len() > 0 {
        lemma_jv_seq_ext(a.drop_first(), b.drop_first());
        assert(forall|j: int| 0 <= j < a.drop_first().len() ==> a.drop_first()[j] == a[j + 1]);
    }
}

pub proof fn lemma_jv_pairs_ext(a: Seq<(String, JsonValue)>, b: Seq<(String, JsonValue)>)
    requires
        a.len() == b.len(),
        forall|j: int| 0 <= j < a.len() ==> a[j].0@ == b[j].0@ && jv(a[j].1) == jv(b[j].1),
    ensures
        jv_pairs(a) == jv_pairs(b),
    decreases a,
{
    if a.len() > 0 {
        lemma_jv_pairs_ext(a.drop_first(), b.drop_first());
    }
}

/// Hex digit character for a nibble value.
pub open spec fn spec_hex_digit(n: int) -> char {
    if n == 0 { '0' } else if n == 1 { '1' } else if n == 2 { '2' } else if n == 3 { '3' }
    else if n == 4 { '4' } else if n == 5 { '5' } else if n == 6 { '6' } else if n == 7 { '7' }
    else if n == 8 { '8' } else if n == 9 { '9' } else if n == 10 { 'a' } else if n == 11 { 'b' }
    else if n == 12 { 'c' } else if n == 13 { 'd' } else if n == 14 { 'e' } else { 'f' }
}

pub fn hex_digit(n: u32) -> (c: char)
    requires
        n < 16,
    ensures
        c == spec_hex_digit(n as int),
{
    if n == 0 { '0' } else if n == 1 { '1' } else if n == 2 { '2' } else if n == 3 { '3' }
    else if n == 4 { '4' } else if n == 5 { '5' } else if n == 6 { '6' } else if n == 7 { '7' }
    else if n == 8 { '8' } else if n == 9 { '9' } else if n == 10 { 'a' } else if n == 11 { 'b' }
    else if n == 12 { 'c' } else if n == 13 { 'd' } else if n == 14 { 'e' } else { 'f' }
}

/// JSON escape of one character inside a string literal.
pub open spec fn escape_char(c: char) -> Seq<char> {
    if c == '"' {
        seq!['\\', '"']
    } else if c == '\\' {
        seq!['\\', '\\']
    } else if c == '\u{8}' {
        seq!['\\', 'b']
    } else if c == '\u{c}' {
        seq!['\\', 'f']
    } else if c == '\n' {
        seq!['\\', 'n']
    } else if c == '\r' {
        seq!['\\', 'r']
    } else if c == '\t' {
        seq!['\\', 't']
    } else if (c as u32) < 0x20 {
        seq!['\\', 'u', '0', '0', spec_hex_digit((c as u32) as int / 16), spec_hex_digit(
            (c as u32) as int % 16,
        )]
    } else {
        seq![c]
    }
}

pub open spec fn escape_text(s: Seq<char>) -> Seq<char>
    decreases s.len(),
{
    if s.len() == 0 {
        Seq::empty()
    } else {
        escape_char(s[0]) + escape_text(s.drop_first())
    }
}

/// A JSON string literal: quotes around the escaped text.
pub open spec fn quote_text(s: Seq<char>) -> Seq<char> {
    seq!['"'] + escape_text(s) + seq!['"']
}

pub proof fn lemma_escape_text_push(s: Seq<char>, c: char)
    ensures
        escape_text(s.push(c)) == escape_text(s) + escape_char(c),
    decreases s.len(),
{
    if s.len() == 0 {
        assert(s.push(c)[0] == c);
        assert(s.push(c).drop_first() =~= s);
        assert(escape_text(s.push(c)) == escape_char(c) + escape_text(s));
        assert(escape_char(c) + escape_text(s) =~= escape_text(s) + escape_char(c));
    } else {
        assert(s.push(c).drop_first() =~= s.drop_first().push(c));
        lemma_escape_text_push(s.drop_first(), c);
        assert(escape_char(s[0]) + (escape_text(s.drop_first()) + escape_char(c)) =~= (escape_char(
            s[0],
        ) + escape_text(s.drop_first())) + escape_char(c));
    }
}

/// Insert a pair into a key-sorted pair sequence, before the first key
/// that is not smaller.
pub open spec fn insert_pair_m(p: (Seq<char>, Jv), s: Seq<(Seq<char>, Jv)>) -> Seq<
    (Seq<char>, Jv),
>
    decreases s.len(),
{
    if s.len() == 0 {
        seq![p]
    } else if str_le(p.0, s[0].0) {
        seq![p] + s
    } else {
        seq![s[0]] + insert_pair_m(p, s.drop_first())
    }
}

pub open spec fn sort_pairs_aux(s: Seq<(Seq<char>, Jv)>, acc: Seq<(Seq<char>, Jv)>) -> Seq<
    (Seq<char>, Jv),
>
    decreases s.len(),
{
    if s.len() == 0 {
        acc
    } else {
        sort_pairs_aux(s.drop_first(), insert_pair_m(s[0], acc))
    }
}

/// Key-sort of an object's pairs by insertion.
pub open spec fn sort_pairs_m(s: Seq<(Seq<char>, Jv)>) -> Seq<(Seq<char>, Jv)> {
    sort_pairs_aux(s, Seq::empty())
}

/// Canonical form of a JSON tree: object keys sorted recursively,
/// arrays kept in order.
pub open spec fn canon_m(m: Jv) -> Jv
    decreases m,
{
    match m {
        Jv::Arr(items) => Jv::Arr(canon_seq_m(items)),
        Jv::Obj(ps) => Jv::Obj(sort_pairs_m(canon_pairs_m(ps))),
        other => other,
    }
}

pub open spec fn canon_seq_m(s: Seq<Jv>) -> Seq<Jv>
    decreases s,
{
    if s.len() == 0 {
        Seq::empty()
    } else {
        seq![canon_m(s[0])] + canon_seq_m(s.drop_first())
    }
}

pub open spec fn canon_pairs_m(s: Seq<(Seq<char>, Jv)>) -> Seq<(Seq<char>, Jv)>
    decreases s,
{
    if s.len() == 0 {
        Seq::empty()
    } else {
        seq![(s[0].0, canon_m(s[0].1))] + canon_pairs_m(s.drop_first())
    }
}

/// Serialized text of a JSON tree, in the given member order.
pub open spec fn text_m(m: Jv) -> Seq<char>
    decreases m,
{
    match m {
        Jv::Null => "null"@,
        Jv::Bool(b) => if b {
            "true"@
        } else {
            "false"@
        },
        Jv::Num(s) => s,
        Jv::Str(s) => quote_text(s),
        Jv::Arr(items) => seq!['['] + text_arr_m(items) + seq![']'],
        Jv::Obj(ps) => seq!['{'] + text_pairs_m(ps) + seq!['}'],
    }
}

pub open spec fn text_arr_m(s: Seq<Jv>) -> Seq<char>
    decreases s,
{
    if s.len() == 0 {
        Seq::empty()
    } else if s.len() == 1 {
        text_m(s[0])
    } else {
        text_m(s[0]) + seq![','] + text_arr_m(s.drop_first())
    }
}

pub open spec fn text_pairs_m(s: Seq<(Seq<char>, Jv)>) -> Seq<char>
    decreases s,
{
    if s.len() == 0 {
        Seq::empty()
    } else if s.len() == 1 {
        quote_text(s[0].0) + seq![':'] + text_m(s[0].1)
    } else {
        quote_text(s[0].0) + seq![':'] + text_m(s[0].1) + seq![','] + text_pairs_m(s.drop_first())
    }
}

/// Canonical serialized text of a JSON value.
pub open spec fn canon_text(v: JsonValue) -> Seq<char> {
    text_m(canon_m(jv(v)))
}


/// Appending a pair appends its view.
pub proof fn lemma_jv_pairs_snoc(s: Seq<(String, JsonValue)>, p: (String, JsonValue))
    ensures
        jv_pairs(s.push(p)) == jv_pairs(s).push((p.0@, jv(p.1))),
    decreases s.len(),
{
    if s.len() == 0 {
        assert(s.push(p)[0] == p);
        assert(s.push(p).drop_first() =~= s);
        assert(jv_pairs(s.push(p)) =~= jv_pairs(s).push((p.0@, jv(p.1))));
    } else {
        assert(s.push(p)[0] == s[0]);
        assert(s.push(p).drop_first() =~= s.drop_first().push(p));
        lemma_jv_pairs_snoc(s.drop_first(), p);
        assert(jv_pairs(s.push(p)) =~= jv_pairs(s).push((p.0@, jv(p.1))));
    }
}

pub proof fn lemma_jv_pairs_cons(p: (String, JsonValue), t: Seq<(String, JsonValue)>)
    ensures
        jv_pairs(seq![p] + t) == seq![(p.0@, jv(p.1))] + jv_pairs(t),
{
    assert((seq![p] + t)[0] == p);
    assert((seq![p] + t).drop_first() =~= t);
}

pub proof fn lemma_canon_seq_index(s: Seq<Jv>, i: int)
    requires
        0 <= i < s.len(),
    ensures
        canon_seq_m(s).len() == s.len(),
        canon_seq_m(s)[i] == canon_m(s[i]),
    decreases s,
{
    lemma_canon_seq_len(s);
    if i > 0 {
        lemma_canon_seq_index(s.drop_first(), i - 1);
    }
}

pub proof fn lemma_canon_seq_len(s: Seq<Jv>)
    ensures
        canon_seq_m(s).len() == s.len(),
    decreases s,
{
    if s.len() > 0 {
        lemma_canon_seq_len(s.drop_first());
    }
}

pub proof fn lemma_canon_pairs_index(s: Seq<(Seq<char>, Jv)>, i: int)
    requires
        0 <= i < s.len(),
    ensures
        canon_pairs_m(s).len() == s.len(),
        canon_pairs_m(s)[i] == (s[i].0, canon_m(s[i].1)),
    decreases s,
{
    lemma_canon_pairs_len(s);
    if i > 0 {
        lemma_canon_pairs_index(s.drop_first(), i - 1);
    }
}

pub proof fn lemma_canon_pairs_len(s: Seq<(Seq<char>, Jv)>)
    ensures
        canon_pairs_m(s).len() == s.len(),
    decreases s,
{
    if s.len() > 0 {
        lemma_canon_pairs_len(s.drop_first());
    }
}

pub proof fn lemma_sort_pairs_aux_snoc(t: Seq<(Seq<char>, Jv)>, x: (Seq<char>, Jv), e: Seq<(Seq<char>, Jv)>)
    ensures
        sort_pairs_aux(t.push(x), e) == insert_pair_m(x, sort_pairs_aux(t, e)),
    decreases t.len(),
{
    if t.len() == 0 {
        assert(t.push(x)[0] == x);
        assert(t.push(x).drop_first() =~= t);
        assert(sort_pairs_aux(t.push(x), e) == sort_pairs_aux(t, insert_pair_m(x, e)));
        assert(sort_pairs_aux(t, insert_pair_m(x, e)) == insert_pair_m(x, e));
        assert(sort_pairs_aux(t, e) == e);
    } else {
        assert(t.push(x)[0] == t[0]);
        assert(t.push(x).drop_first() =~= t.drop_first().push(x));
        lemma_sort_pairs_aux_snoc(t.drop_first(), x, insert_pair_m(t[0], e));
        assert(sort_pairs_aux(t.push(x), e) == sort_pairs_aux(t.drop_first().push(x),
            insert_pair_m(t[0], e)));
        assert(sort_pairs_aux(t.drop_first().push(x), insert_pair_m(t[0], e)) == insert_pair_m(
            x, sort_pairs_aux(t.drop_first(), insert_pair_m(t[0], e))));
        assert(sort_pairs_aux(t, e) == sort_pairs_aux(t.drop_first(), insert_pair_m(t[0], e)));
    }
}

/// Insert a pair into a key-sorted vector, before the first key that is
/// not smaller.
pub fn insert_pair_sorted(p: (String, JsonValue), s: Vec<(String, JsonValue)>) -> (r: Vec<
    (String, JsonValue),
>)
    ensures
        jv_pairs(r@) == insert_pair_m((p.0@, jv(p.1)), jv_pairs(s@)),
    decreases s@.len(),
{
    if s.len() == 0 {
        let mut r: Vec<(String, JsonValue)> = Vec::new();
        r.push(p);
        proof {
            assert(r@ =~= seq![p] + Seq::<(String, JsonValue)>::empty());
            lemma_jv_pairs_cons(p, Seq::empty());
            assert(seq![(p.0@, jv(p.1))] + jv_pairs(Seq::<(String, JsonValue)>::empty()) =~= seq![
                (p.0@, jv(p.1)),
            ]);
        }
        r
    } else if str_le_exec(p.0.as_str(), s[0].0.as_str()) {
        let ghost old_s = s@;
        let ghost pv = (p.0@, jv(p.1));
        let mut r = s;
        r.insert(0, p);
        proof {
            assert(r@ =~= seq![p] + old_s);
            lemma_jv_pairs_cons(p, old_s);
            lemma_jv_pairs_index(old_s, 0);
            assert(jv_pairs(r@) =~= seq![pv] + jv_pairs(old_s));
            assert(insert_pair_m(pv, jv_pairs(old_s)) == seq![pv] + jv_pairs(old_s));
        }
        r
    } else {
        let ghost old_s = s@;
        let ghost pv = (p.0@, jv(p.1));
        let mut s = s;
        let first = s.remove(0);
        proof {
            assert(s@ =~= old_s.drop_first());
            lemma_jv_pairs_index(old_s, 0);
            assert(jv_pairs(old_s).drop_first() =~= jv_pairs(old_s.drop_first())) by {
                lemma_jv_pairs_len(old_s);
                assert(jv_pairs(old_s) == seq![(old_s[0].0@, jv(old_s[0].1))] + jv_pairs(
                    old_s.drop_first(),
                ));
            }
        }
        let rest = insert_pair_sorted(p, s);
        let mut r = rest;
        r.insert(0, first);
        proof {
            assert(r@ =~= seq![first] + rest@);
            lemma_jv_pairs_cons(first, rest@);
            assert(first == old_s[0]);
            assert(insert_pair_m(pv, jv_pairs(old_s)) == seq![(old_s[0].0@, jv(old_s[0].1))]
                + insert_pair_m(pv, jv_pairs(old_s).drop_first()));
        }
        r
    }
}

/// Canonical deep copy: object keys sorted recursively, arrays in order.
pub fn canon_clone(v: &JsonValue) -> (r: JsonValue)
    ensures
        jv(r) == canon_m(jv(*v)),
    decreases *v,
{
    match v {
        JsonValue::Null => JsonValue::Null,
        JsonValue::Bool(b) => JsonValue::Bool(*b),
        JsonValue::Num(s) => JsonValue::Num(s.clone()),
        JsonValue::Str(s) => JsonValue::Str(s.clone()),
        JsonValue::Arr(items) => {
            let mut out: Vec<JsonValue> = Vec::new();
            let n: usize = items.len();
            let mut i: usize = 0;
            while i < n
                invariant
                    i <= n,
                    n == items@.len(),
                    *v == JsonValue::Arr(*items),
                    out@.len() == i,
                    forall|j: int| 0 <= j < i ==> jv(out@[j]) == canon_m(jv(items@[j])),
                decreases n - i,
            {
                proof {
                    lemma_arr_elem_decreases(*v, *items, i as int);
                }
                let c = canon_clone(&items[i]);
                out.push(c);
                i = i + 1;
            }
            proof {
                assert(jv_seq(out@) =~= canon_seq_m(jv_seq(items@))) by {
                    lemma_jv_seq_len(out@);
                    lemma_jv_seq_len(items@);
                    lemma_canon_seq_len(jv_seq(items@));
                    assert forall|j: int| 0 <= j < out@.len() implies jv_seq(out@)[j]
                        == canon_seq_m(jv_seq(items@))[j] by {
                        lemma_jv_seq_index(out@, j);
                        lemma_jv_seq_index(items@, j);
                        lemma_canon_seq_index(jv_seq(items@), j);
                    }
                }
            }
            JsonValue::Arr(out)
        }
        JsonValue::Obj(pairs) => {
            let mut sorted: Vec<(String, JsonValue)> = Vec::new();
            let ghost cp = canon_pairs_m(jv_pairs(pairs@));
            let n: usize = pairs.len();
            let mut i: usize = 0;
            proof {
                assert(cp.take(0) =~= Seq::<(Seq<char>, Jv)>::empty());
                lemma_jv_pairs_len(pairs@);
                lemma_canon_pairs_len(jv_pairs(pairs@));
            }
            while i < n
                invariant
                    i <= n,
                    n == pairs@.len(),
                    *v == JsonValue::Obj(*pairs),
                    cp == canon_pairs_m(jv_pairs(pairs@)),
                    cp.len() == n,
                    jv_pairs(sorted@) == sort_pairs_aux(cp.take(i as int), Seq::empty()),
                decreases n - i,
            {
                proof {
                    lemma_obj_val_decreases(*v, *pairs, i as int);
                }
                let cv = canon_clone(&pairs[i].1);
                let key = pairs[i].0.clone();
                sorted = insert_pair_sorted((key, cv), sorted);
                proof {
                    lemma_jv_pairs_index(pairs@, i as int);
                    lemma_canon_pairs_index(jv_pairs(pairs@), i as int);
                    assert((key@, jv(cv)) == cp[i as int]);
                    lemma_sort_pairs_aux_snoc(cp.take(i as int), cp[i as int], Seq::empty());
                    assert(cp.take(i + 1) =~= cp.take(i as int).push(cp[i as int]));
                }
                i = i + 1;
            }
            proof {
                assert(cp.take(n as int) =~= cp);
            }
            JsonValue::Obj(sorted)
        }
    }
}

/// Write the JSON escape of `s` (without surrounding quotes).
pub fn write_escaped(s: &str, out: &mut String)
    ensures
        final(out)@ == old(out)@ + escape_text(s@),
{
    let n: usize = s.unicode_len();
    let mut i: usize = 0;
    proof {
        assert(s@.subrange(0, 0) =~= Seq::<char>::empty());
        assert(old(out)@ + escape_text(s@.subrange(0, 0)) =~= old(out)@);
    }
    while i < n
        invariant
            i <= n,
            n == s@.len(),
            out@ == old(out)@ + escape_text(s@.subrange(0, i as int)),
        decreases n - i,
    {
        let ghost prev = out@;
        let c = s.get_char(i);
        if c == '"' {
            push_char(out, '\\');
            push_char(out, '"');
        } else if c == '\\' {
            push_char(out, '\\');
            push_char(out, '\\');
        } else if c == '\u{8}' {
            push_char(out, '\\');
            push_char(out, 'b');
        } else if c == '\u{c}' {
            push_char(out, '\\');
            push_char(out, 'f');
        } else if c == '\n' {
            push_char(out, '\\');
            push_char(out, 'n');
        } else if c == '\r' {
            push_char(out, '\\');
            push_char(out, 'r');
        } else if c == '\t' {
            push_char(out, '\\');
            push_char(out, 't');
        } else if (c as u32) < 0x20 {
            let cu = c as u32;
            push_char(out, '\\');
            push_char(out, 'u');
            push_char(out, '0');
            push_char(out, '0');
            push_char(out, hex_digit(cu / 16));
            push_char(out, hex_digit(cu % 16));
        } else {
            push_char(out, c);
        }
        proof {
            assert(out@ =~= prev + escape_char(c));
            lemma_escape_text_push(s@.subrange(0, i as int), c);
            assert(s@.subrange(0, i + 1) =~= s@.subrange(0, i as int).push(s@[i as int]));
            assert(out@ =~= old(out)@ + escape_text(s@.subrange(0, i + 1)));
        }
        i = i + 1;
    }
    proof {
        assert(s@.subrange(0, n as int) =~= s@);
    }
}

pub proof fn lemma_text_arr_snoc(s: Seq<Jv>, x: Jv)
    ensures
        s.len() == 0 ==> text_arr_m(s.push(x)) == text_m(x),
        s.len() > 0 ==> text_arr_m(s.push(x)) == text_arr_m(s) + seq![','] + text_m(x),
    decreases s.len(),
{
    if s.len() == 0 {
        assert(s.push(x)[0] == x);
    } else {
        assert(s.push(x)[0] == s[0]);
        assert(s.push(x).drop_first() =~= s.drop_first().push(x));
        lemma_text_arr_snoc(s.drop_first(), x);
        if s.len() == 1 {
            assert(text_arr_m(s.push(x)) == text_m(s[0]) + seq![','] + text_arr_m(
                s.drop_first().push(x),
            ));
        } else {
            assert(text_m(s[0]) + seq![','] + (text_arr_m(s.drop_first()) + seq![','] + text_m(x))
                =~= (text_m(s[0]) + seq![','] + text_arr_m(s.drop_first())) + seq![','] + text_m(
                x,
            ));
        }
    }
}

pub open spec fn text_pair_m(p: (Seq<char>, Jv)) -> Seq<char> {
    quote_text(p.0) + seq![':'] + text_m(p.1)
}

pub proof fn lemma_text_pairs_snoc(s: Seq<(Seq<char>, Jv)>, x: (Seq<char>, Jv))
    ensures
        s.len() == 0 ==> text_pairs_m(s.push(x)) == text_pair_m(x),
        s.len() > 0 ==> text_pairs_m(s.push(x)) == text_pairs_m(s) + seq![','] + text_pair_m(x),
    decreases s.len(),
{
    if s.len() == 0 {
        assert(s.push(x)[0] == x);
    } else {
        assert(s.push(x)[0] == s[0]);
        assert(s.push(x).drop_first() =~= s.drop_first().push(x));
        lemma_text_pairs_snoc(s.drop_first(), x);
        if s.len() == 1 {
        } else {
            assert(text_pair_m(s[0]) + seq![','] + (text_pairs_m(s.drop_first()) + seq![',']
                + text_pair_m(x)) =~= (text_pair_m(s[0]) + seq![','] + text_pairs_m(
                s.drop_first(),
            )) + seq![','] + text_pair_m(x));
        }
    }
}

/// Write the JSON text of `v` in its present member order.
pub fn write_json(v: &JsonValue, out: &mut String)
    ensures
        final(out)@ == old(out)@ + text_m(jv(*v)),
    decreases *v,
{
    match v {
        JsonValue::Null => {
            push_str(out, "null");
        }
        JsonValue::Bool(b) => {
            if *b {
                push_str(out, "true");
            } else {
                push_str(out, "false");
            }
        }
        JsonValue::Num(s) => {
            push_str(out, s.as_str());
        }
        JsonValue::Str(s) => {
            let ghost start = out@;
            push_char(out, '"');
            write_escaped(s.as_str(), out);
            push_char(out, '"');
            proof {
                assert(out@ =~= start + quote_text(s@));
            }
        }
        JsonValue::Arr(items) => {
            let ghost start = out@;
            push_char(out, '[');
            let n: usize = items.len();
            let mut i: usize = 0;
            proof {
                lemma_jv_seq_len(items@);
                assert(jv_seq(items@).take(0) =~= Seq::<Jv>::empty());
                assert(out@ =~= start + seq!['['] + text_arr_m(jv_seq(items@).take(0)));
            }
            while i < n
                invariant
                    i <= n,
                    n == items@.len(),
                    *v == JsonValue::Arr(*items),
                    jv_seq(items@).len() == n,
                    out@ == start + seq!['['] + text_arr_m(jv_seq(items@).take(i as int)),
                decreases n - i,
            {
                if i > 0 {
                    push_char(out, ',');
                }
                proof {
                    lemma_arr_elem_decreases(*v, *items, i as int);
                }
                write_json(&items[i], out);
                proof {
                    let ghost es = jv_seq(items@);
                    lemma_jv_seq_index(items@, i as int);
                    lemma_text_arr_snoc(es.take(i as int), es[i as int]);
                    assert(es.take(i + 1) =~= es.take(i as int).push(es[i as int]));
                    if i > 0 {
                        assert(out@ =~= start + seq!['['] + text_arr_m(es.take(i + 1)));
                    } else {
                        assert(out@ =~= start + seq!['['] + text_arr_m(es.take(i + 1)));
                    }
                }
                i = i + 1;
            }
            push_char(out, ']');
            proof {
                assert(jv_seq(items@).take(n as int) =~= jv_seq(items@));
                assert(out@ =~= start + text_m(jv(*v)));
            }
        }
        JsonValue::Obj(pairs) => {
            let ghost start = out@;
            push_char(out, '{');
            let n: usize = pairs.len();
            let mut i: usize = 0;
            proof {
                lemma_jv_pairs_len(pairs@);
                assert(jv_pairs(pairs@).take(0) =~= Seq::<(Seq<char>, Jv)>::empty());
                assert(out@ =~= start + seq!['{'] + text_pairs_m(jv_pairs(pairs@).take(0)));
            }
            while i < n
                invariant
                    i <= n,
                    n == pairs@.len(),
                    *v == JsonValue::Obj(*pairs),
                    jv_pairs(pairs@).len() == n,
                    out@ == start + seq!['{'] + text_pairs_m(jv_pairs(pairs@).take(i as int)),
                decreases n - i,
            {
                if i > 0 {
                    push_char(out, ',');
                }
                push_char(out, '"');
                write_escaped(pairs[i].0.as_str(), out);
                push_char(out, '"');
                push_char(out, ':');
                proof {
                    lemma_obj_val_decreases(*v, *pairs, i as int);
                }
                write_json(&pairs[i].1, out);
                proof {
                    let ghost es = jv_pairs(pairs@);
                    lemma_jv_pairs_index(pairs@, i as int);
                    lemma_text_pairs_snoc(es.take(i as int), es[i as int]);
                    assert(es.take(i + 1) =~= es.take(i as int).push(es[i as int]));
                    assert(out@ =~= start + seq!['{'] + text_pairs_m(es.take(i + 1)));
                }
                i = i + 1;
            }
            push_char(out, '}');
            proof {
                assert(jv_pairs(pairs@).take(n as int) =~= jv_pairs(pairs@));
                assert(out@ =~= start + text_m(jv(*v)));
            }
        }
    }
}

/// Canonical JSON text of a parameters value: object keys sorted
/// recursively, arrays kept in order, numbers verbatim. Any producer and
/// any verifier rebuild identical signing bytes from equal parameter maps.
pub fn canonical_parameters_json(parameters: &JsonValue) -> (r: String)
    ensures
        r@ == canon_text(*parameters),
{
    let c = canon_clone(parameters);
    let mut out = String::new();
    write_json(&c, &mut out);
    out
}


/// First position of `c` in `s` at or after `from`; `s.len()` when absent.
pub open spec fn find_char(s: Seq<char>, c: char, from: int) -> int
    decreases s.len() - from,
{
    if from < 0 {
        -1
    } else if from >= s.len() {
        s.len() as int
    } else if s[from] == c {
        from
    } else {
        find_char(s, c, from + 1)
    }
}

pub proof fn lemma_find_char_bounds(s: Seq<char>, c: char, from: int)
    requires
        0 <= from <= s.len(),
    ensures
        from <= find_char(s, c, from) <= s.len(),
    decreases s.len() - from,
{
    if from < s.len() && s[from] != c {
        lemma_find_char_bounds(s, c, from + 1);
    }
}

/// First position of `c` in `s` at or after `from`, as executable code.
pub fn find_char_exec(s: &str, c: char, from: usize) -> (r: usize)
    requires
        from <= s@.len(),
    ensures
        r == find_char(s@, c, from as int),
        from as int <= r <= s@.len(),
        r < s@.len() ==> s@[r as int] == c,
{
    let n: usize = s.unicode_len();
    let mut i: usize = from;
    while i < n
        invariant
            from <= i <= n,
            n == s@.len(),
            find_char(s@, c, from as int) == find_char(s@, c, i as int),
        decreases n - i,
    {
        if s.get_char(i) == c {
            return i;
        }
        i = i + 1;
    }
    n
}

/// Whether `key` equals the characters of `ptr` between `lo` and `hi`.
fn str_eq_range(key: &str, ptr: &str, lo: usize, hi: usize) -> (r: bool)
    requires
        lo <= hi <= ptr@.len(),
    ensures
        r == (key@ == ptr@.subrange(lo as int, hi as int)),
{
    let klen: usize = key.unicode_len();
    if klen != hi - lo {
        return false;
    }
    let mut i: usize = 0;
    while i < klen
        invariant
            i <= klen,
            klen == key@.len(),
            klen == hi - lo,
            lo <= hi <= ptr@.len(),
            forall|j: int| 0 <= j < i ==> key@[j] == ptr@[lo + j],
        decreases klen - i,
    {
        if key.get_char(i) != ptr.get_char(lo + i) {
            assert(key@[i as int] != ptr@.subrange(lo as int, hi as int)[i as int]);
            return false;
        }
        i = i + 1;
    }
    proof {
        assert(key@ =~= ptr@.subrange(lo as int, hi as int));
    }
    true
}

/// Structural equality of two JSON trees by view: objects compare as
/// ordered pair lists and numbers by token text. Canonicalize first for
/// an order-insensitive comparison.
pub fn json_eq(a: &JsonValue, b: &JsonValue) -> (r: bool)
    ensures
        r == (jv(*a) == jv(*b)),
    decreases *a,
{
    match (a, b) {
        (JsonValue::Null, JsonValue::Null) => true,
        (JsonValue::Bool(x), JsonValue::Bool(y)) => x == y,
        (JsonValue::Num(x), JsonValue::Num(y)) => str_eq(x.as_str(), y.as_str()),
        (JsonValue::Str(x), JsonValue::Str(y)) => str_eq(x.as_str(), y.as_str()),
        (JsonValue::Arr(x), JsonValue::Arr(y)) => {
            let n: usize = x.len();
            proof {
                lemma_jv_seq_len(x@);
                lemma_jv_seq_len(y@);
            }
            if n != y.len() {
                return false;
            }
            let mut i: usize = 0;
            while i < n
                invariant
                    i <= n,
                    n == x@.len(),
                    n == y@.len(),
                    *a == JsonValue::Arr(*x),
                    *b == JsonValue::Arr(*y),
                    forall|j: int| 0 <= j < i ==> jv_seq(x@)[j] == jv_seq(y@)[j],
                decreases n - i,
            {
                proof {
                    lemma_arr_elem_decreases(*a, *x, i as int);
                    lemma_jv_seq_index(x@, i as int);
                    lemma_jv_seq_index(y@, i as int);
                }
                if !json_eq(&x[i], &y[i]) {
                    proof {
                        assert(jv_seq(x@)[i as int] != jv_seq(y@)[i as int]);
                    }
                    return false;
                }
                i = i + 1;
            }
            proof {
                assert(jv_seq(x@) =~= jv_seq(y@));
            }
            true
        }
        (JsonValue::Obj(x), JsonValue::Obj(y)) => {
            let n: usize = x.len();
            proof {
                lemma_jv_pairs_len(x@);
                lemma_jv_pairs_len(y@);
            }
            if n != y.len() {
                return false;
            }
            let mut i: usize = 0;
            while i < n
                invariant
                    i <= n,
                    n == x@.len(),
                    n == y@.len(),
                    *a == JsonValue::Obj(*x),
                    *b == JsonValue::Obj(*y),
                    forall|j: int| 0 <= j < i ==> jv_pairs(x@)[j] == jv_pairs(y@)[j],
                decreases n - i,
            {
                proof {
                    lemma_obj_val_decreases(*a, *x, i as int);
                    lemma_jv_pairs_index(x@, i as int);
                    lemma_jv_pairs_index(y@, i as int);
                }
                if !str_eq(x[i].0.as_str(), y[i].0.as_str()) {
                    proof {
                        assert(jv_pairs(x@)[i as int] != jv_pairs(y@)[i as int]);
                    }
                    return false;
                }
                if !json_eq(&x[i].1, &y[i].1) {
                    proof {
                        assert(jv_pairs(x@)[i as int] != jv_pairs(y@)[i as int]);
                    }
                    return false;
                }
                i = i + 1;
            }
            proof {
                assert(jv_pairs(x@) =~= jv_pairs(y@));
            }
            true
        }
        _ => {
            proof {
                assert(jv(*a) != jv(*b)) by {
                    match (a, b) {
                        (JsonValue::Null, _) => {}
                        (JsonValue::Bool(_), _) => {}
                        (JsonValue::Num(_), _) => {}
                        (JsonValue::Str(_), _) => {}
                        (JsonValue::Arr(_), _) => {}
                        (JsonValue::Obj(_), _) => {}
                    }
                }
            }
            false
        }
    }
}

/// Equality of canonical forms: order-insensitive for object members.
pub fn json_canon_eq(a: &JsonValue, b: &JsonValue) -> (r: bool)
    ensures
        r == (canon_m(jv(*a)) == canon_m(jv(*b))),
{
    let ca = canon_clone(a);
    let cb = canon_clone(b);
    json_eq(&ca, &cb)
}

/// A pointer segment with its escapes decoded: `~1` is `/`, `~0` is `~`.
pub open spec fn spec_unescape_seg(s: Seq<char>) -> Seq<char>
    decreases s.len(),
{
    if s.len() == 0 {
        Seq::empty()
    } else if s[0] == '~' && s.len() >= 2 && s[1] == '1' {
        seq!['/'] + spec_unescape_seg(s.skip(2))
    } else if s[0] == '~' && s.len() >= 2 && s[1] == '0' {
        seq!['~'] + spec_unescape_seg(s.skip(2))
    } else {
        seq![s[0]] + spec_unescape_seg(s.skip(1))
    }
}

/// A nonempty run of decimal digits.
pub open spec fn spec_dec_digits(s: Seq<char>) -> bool {
    s.len() > 0 && forall|j: int| 0 <= j < s.len() ==> 48 <= (#[trigger] s[j]) as u32 <= 57
}

pub open spec fn spec_dec_val_acc(s: Seq<char>, acc: int) -> int
    decreases s.len(),
{
    if s.len() == 0 {
        acc
    } else {
        spec_dec_val_acc(s.drop_first(), acc * 10 + ((s[0] as u32) - 48))
    }
}

/// The number a digit run denotes.
pub open spec fn spec_dec_val(s: Seq<char>) -> int {
    spec_dec_val_acc(s, 0)
}

/// The denoted number is no smaller than the accumulator it grows from.
pub proof fn lemma_dec_val_acc_lower(s: Seq<char>, acc: int)
    requires
        acc >= 0,
        spec_dec_digits(s) || s.len() == 0,
    ensures
        spec_dec_val_acc(s, acc) >= acc,
    decreases s.len(),
{
    if s.len() > 0 {
        assert(48 <= s[0] as u32 <= 57);
        assert(forall|j: int|
            0 <= j < s.drop_first().len() ==> 48 <= (#[trigger] s.drop_first()[j]) as u32 <= 57);
        lemma_dec_val_acc_lower(s.drop_first(), acc * 10 + ((s[0] as u32) - 48));
    }
}

/// Decode a pointer segment between `lo` and `hi`.
fn unescape_segment(ptr: &str, lo: usize, hi: usize) -> (r: String)
    requires
        lo <= hi <= ptr@.len(),
    ensures
        r@ == spec_unescape_seg(ptr@.subrange(lo as int, hi as int)),
{
    let mut out = String::new();
    let mut i: usize = lo;
    proof {
        assert(out@ + spec_unescape_seg(ptr@.subrange(lo as int, hi as int)) =~= spec_unescape_seg(
            ptr@.subrange(lo as int, hi as int),
        ));
    }
    while i < hi
        invariant
            lo <= i <= hi,
            hi <= ptr@.len(),
            spec_unescape_seg(ptr@.subrange(lo as int, hi as int)) == out@ + spec_unescape_seg(
                ptr@.subrange(i as int, hi as int),
            ),
        decreases hi - i,
    {
        let ghost rest = ptr@.subrange(i as int, hi as int);
        proof {
            assert(rest[0] == ptr@[i as int]);
            if rest.len() >= 2 {
                assert(rest[1] == ptr@[i + 1]);
            }
            assert(rest.skip(1) =~= ptr@.subrange(i + 1, hi as int));
            if rest.len() >= 2 {
                assert(rest.skip(2) =~= ptr@.subrange(i + 2, hi as int));
            }
        }
        let c = ptr.get_char(i);
        if c == '~' && i + 1 < hi {
            let c2 = ptr.get_char(i + 1);
            if c2 == '1' {
                push_char(&mut out, '/');
                i = i + 2;
                continue;
            }
            if c2 == '0' {
                push_char(&mut out, '~');
                i = i + 2;
                continue;
            }
        }
        push_char(&mut out, c);
        i = i + 1;
    }
    proof {
        assert(ptr@.subrange(i as int, hi as int).len() == 0);
        assert(spec_unescape_seg(ptr@.subrange(i as int, hi as int)) =~= Seq::<char>::empty());
        assert(out@ + spec_unescape_seg(ptr@.subrange(i as int, hi as int)) =~= out@);
    }
    out
}

/// Parse a decimal array index. Yields nothing for a non-digit segment
/// or a number past `usize`.
fn parse_array_index(seg: &str) -> (r: Option<usize>)
    ensures
        match r {
            Some(ix) => spec_dec_digits(seg@) && ix as int == spec_dec_val(seg@),
            None => !spec_dec_digits(seg@) || spec_dec_val(seg@) > usize::MAX,
        },
{
    let n: usize = seg.unicode_len();
    if n == 0 {
        return None;
    }
    let mut acc: u128 = 0;
    let mut i: usize = 0;
    proof {
        assert(seg@.skip(0) =~= seg@);
    }
    while i < n
        invariant
            i <= n,
            n == seg@.len(),
            n > 0,
            acc <= usize::MAX as u128,
            forall|j: int| 0 <= j < i ==> 48 <= (#[trigger] seg@[j]) as u32 <= 57,
            spec_dec_val_acc(seg@, 0) == spec_dec_val_acc(seg@.skip(i as int), acc as int),
        decreases n - i,
    {
        let ghost rest = seg@.skip(i as int);
        proof {
            assert(rest[0] == seg@[i as int]);
            assert(rest.drop_first() =~= seg@.skip(i + 1));
        }
        let c = seg.get_char(i);
        let cu = c as u32;
        if cu < 48 || cu > 57 {
            return None;
        }
        let next: u128 = acc * 10 + (cu - 48) as u128;
        if next > usize::MAX as u128 {
            // every later digit only grows the number
            proof {
                if spec_dec_digits(seg@) {
                    assert(forall|j: int|
                        0 <= j < seg@.skip(i + 1).len() ==> 48 <= (#[trigger] seg@.skip(
                            i + 1,
                        )[j]) as u32 <= 57);
                    lemma_dec_val_acc_lower(seg@.skip(i + 1), next as int);
                }
            }
            return None;
        }
        acc = next;
        i = i + 1;
    }
    proof {
        assert(seg@.skip(n as int).len() == 0);
    }
    Some(acc as usize)
}

/// Object member bound to `key`, scanning in order.
pub open spec fn obj_get_m(m: Jv, key: Seq<char>) -> Option<Jv> {
    match m {
        Jv::Obj(ps) => crate::maps::seq_get(ps, key),
        _ => None,
    }
}

#[via_fn]
proof fn jp_from_dec(m: Jv, ptr: Seq<char>, pos: int) {
    if 0 <= pos < ptr.len() && ptr[pos] == '/' {
        lemma_find_char_bounds(ptr, '/', pos + 1);
    }
}

/// JSON pointer lookup from position `pos` in the pointer text: each
/// `/`-separated segment, with `~1`/`~0` decoded, names an object member
/// or a decimal array index.
pub open spec fn jp_from(m: Jv, ptr: Seq<char>, pos: int) -> Option<Jv>
    decreases ptr.len() - pos,
        via jp_from_dec
{
    if pos < 0 || pos > ptr.len() {
        None
    } else if pos == ptr.len() {
        Some(m)
    } else if ptr[pos] != '/' {
        None
    } else {
        let e = find_char(ptr, '/', pos + 1);
        let seg = spec_unescape_seg(ptr.subrange(pos + 1, e));
        match m {
            Jv::Obj(ps) => match crate::maps::seq_get(ps, seg) {
                None => None,
                Some(child) => jp_from(child, ptr, e),
            },
            Jv::Arr(items) => if spec_dec_digits(seg) && spec_dec_val(seg) < items.len() {
                jp_from(items[spec_dec_val(seg)], ptr, e)
            } else {
                None
            },
            _ => None,
        }
    }
}

/// What `json_pointer` yields: the whole value for an empty pointer, else
/// the member each `/`-separated segment names in turn.
pub open spec fn spec_json_pointer(m: Jv, ptr: Seq<char>) -> Option<Jv> {
    jp_from(m, ptr, 0)
}

fn json_pointer_from<'a>(v: &'a JsonValue, ptr: &str, pos: usize) -> (r: Option<&'a JsonValue>)
    requires
        pos <= ptr@.len(),
    ensures
        match r {
            Some(c) => jp_from(jv(*v), ptr@, pos as int) == Some(jv(*c)),
            None => jp_from(jv(*v), ptr@, pos as int) is None,
        },
    decreases *v,
{
    let n: usize = ptr.unicode_len();
    if pos == n {
        return Some(v);
    }
    if ptr.get_char(pos) != '/' {
        return None;
    }
    let e = find_char_exec(ptr, '/', pos + 1);
    let seg = unescape_segment(ptr, pos + 1, e);
    let ghost gseg = spec_unescape_seg(ptr@.subrange(pos + 1, e as int));
    match v {
        JsonValue::Obj(pairs) => {
            let m: usize = pairs.len();
            proof {
                lemma_jv_pairs_len(pairs@);
            }
            let mut i: usize = 0;
            while i < m
                invariant
                    i <= m,
                    m == pairs@.len(),
                    pos < ptr@.len(),
                    ptr@[pos as int] == '/',
                    pos + 1 <= e <= ptr@.len(),
                    e == find_char(ptr@, '/', pos + 1),
                    seg@ == gseg,
                    gseg == spec_unescape_seg(ptr@.subrange(pos + 1, e as int)),
                    *v == JsonValue::Obj(*pairs),
                    forall|j: int| 0 <= j < i ==> jv_pairs(pairs@)[j].0 != gseg,
                decreases m - i,
            {
                proof {
                    lemma_jv_pairs_index(pairs@, i as int);
                }
                if str_eq(pairs[i].0.as_str(), seg.as_str()) {
                    proof {
                        crate::maps::lemma_seq_get_found(jv_pairs(pairs@), gseg, i as int);
                        lemma_obj_val_decreases(*v, *pairs, i as int);
                    }
                    return json_pointer_from(&pairs[i].1, ptr, e);
                }
                i = i + 1;
            }
            proof {
                crate::maps::lemma_seq_get_absent(jv_pairs(pairs@), gseg, gseg);
            }
            None
        }
        JsonValue::Arr(items) => {
            proof {
                lemma_jv_seq_len(items@);
            }
            match parse_array_index(seg.as_str()) {
                Some(ix) => {
                    if ix < items.len() {
                        proof {
                            lemma_jv_seq_index(items@, ix as int);
                            lemma_arr_elem_decreases(*v, *items, ix as int);
                        }
                        json_pointer_from(&items[ix], ptr, e)
                    } else {
                        None
                    }
                }
                None => None,
            }
        }
        _ => None,
    }
}

/// Look `ptr` up in `v`: an empty pointer yields `v`; otherwise each
/// `/`-separated segment, with `~1` and `~0` decoded, names an object
/// member or a decimal array index in turn.
pub fn json_pointer<'a>(v: &'a JsonValue, ptr: &str) -> (r: Option<&'a JsonValue>)
    ensures
        match r {
            Some(c) => spec_json_pointer(jv(*v), ptr@) == Some(jv(*c)),
            None => spec_json_pointer(jv(*v), ptr@) is None,
        },
{
    json_pointer_from(v, ptr, 0)
}


/// Object member bound to `key`, scanning in order; non-objects have no
/// members.
pub fn json_obj_get<'a>(v: &'a JsonValue, key: &str) -> (r: Option<&'a JsonValue>)
    ensures
        match r {
            Some(c) => obj_get_m(jv(*v), key@) == Some(jv(*c)),
            None => obj_get_m(jv(*v), key@) is None,
        },
{
    match v {
        JsonValue::Obj(pairs) => {
            let m: usize = pairs.len();
            proof {
                lemma_jv_pairs_len(pairs@);
            }
            let mut i: usize = 0;
            while i < m
                invariant
                    i <= m,
                    m == pairs@.len(),
                    *v == JsonValue::Obj(*pairs),
                    forall|j: int| 0 <= j < i ==> jv_pairs(pairs@)[j].0 != key@,
                decreases m - i,
            {
                proof {
                    lemma_jv_pairs_index(pairs@, i as int);
                }
                if str_eq(pairs[i].0.as_str(), key) {
                    proof {
                        crate::maps::lemma_seq_get_found(jv_pairs(pairs@), key@, i as int);
                    }
                    return Some(&pairs[i].1);
                }
                i = i + 1;
            }
            proof {
                crate::maps::lemma_seq_get_absent(jv_pairs(pairs@), key@, key@);
            }
            None
        }
        _ => None,
    }
}


/// Characters with the same code point are the same character.
pub proof fn lemma_char_cast_inj(a: char, b: char)
    requires
        (a as u32) == (b as u32),
    ensures
        a == b,
{
}

pub open spec fn sorted_pairs(s: Seq<(Seq<char>, Jv)>) -> bool {
    forall|i: int, j: int| 0 <= i < j < s.len() ==> str_le(#[trigger] s[i].0, #[trigger] s[j].0)
}

/// `str_le` holds one way or the other.
pub proof fn lemma_str_le_total(a: Seq<char>, b: Seq<char>)
    ensures
        str_le(a, b) || str_le(b, a),
    decreases a.len(),
{
    if a.len() == 0 {
        assert(str_le(a, b));
    } else if b.len() == 0 {
        assert(str_le(b, a));
    } else if (a[0] as u32) < (b[0] as u32) {
        assert(str_le(a, b));
    } else if (a[0] as u32) > (b[0] as u32) {
        assert(str_le(b, a));
    } else {
        lemma_str_le_total(a.drop_first(), b.drop_first());
        assert(str_le(a, b) == str_le(a.drop_first(), b.drop_first()));
        assert(str_le(b, a) == str_le(b.drop_first(), a.drop_first()));
    }
}

/// `str_le` is reflexive.
pub proof fn lemma_str_le_refl(a: Seq<char>)
    ensures
        str_le(a, a),
    decreases a.len(),
{
    if a.len() > 0 {
        lemma_str_le_refl(a.drop_first());
    }
}

/// `str_le` both ways only for equal sequences.
pub proof fn lemma_str_le_antisym(a: Seq<char>, b: Seq<char>)
    requires
        str_le(a, b),
        str_le(b, a),
    ensures
        a == b,
    decreases a.len(),
{
    if a.len() == 0 {
        if b.len() > 0 {
            assert(!str_le(b, a));
        }
        assert(a =~= b);
    } else {
        if b.len() == 0 {
            assert(!str_le(a, b));
        }
        assert(b.len() > 0);
        if (a[0] as u32) < (b[0] as u32) {
            assert(!str_le(b, a));
        }
        if (a[0] as u32) > (b[0] as u32) {
            assert(!str_le(a, b));
        }
        assert((a[0] as u32) == (b[0] as u32));
        lemma_char_cast_inj(a[0], b[0]);
        assert(str_le(a.drop_first(), b.drop_first()));
        assert(str_le(b.drop_first(), a.drop_first()));
        lemma_str_le_antisym(a.drop_first(), b.drop_first());
        assert(a =~= b) by {
            assert(forall|i: int| 1 <= i < a.len() ==> a[i] == a.drop_first()[i - 1]);
            assert(forall|i: int| 1 <= i < b.len() ==> b[i] == b.drop_first()[i - 1]);
        }
    }
}

/// Inserting into a pair sequence adds exactly that pair to its multiset.
pub proof fn lemma_insert_pair_multiset(p: (Seq<char>, Jv), s: Seq<(Seq<char>, Jv)>)
    ensures
        insert_pair_m(p, s).to_multiset() == s.to_multiset().insert(p),
    decreases s.len(),
{
    broadcast use vstd::seq_lib::group_to_multiset_ensures;

    if s.len() == 0 {
        assert(s.push(p) =~= seq![p]);
        assert(insert_pair_m(p, s) =~= s.push(p));
    } else if str_le(p.0, s[0].0) {
        assert(insert_pair_m(p, s) == seq![p] + s);
        vstd::seq_lib::lemma_multiset_commutative(seq![p], s);
        assert(seq![p] =~= Seq::<(Seq<char>, Jv)>::empty().push(p));
        assert(seq![p].to_multiset() =~= Seq::<(Seq<char>, Jv)>::empty().to_multiset().insert(p));
        assert(Seq::<(Seq<char>, Jv)>::empty().to_multiset().insert(p).add(s.to_multiset()) =~= s.to_multiset().insert(p));
    } else {
        lemma_insert_pair_multiset(p, s.drop_first());
        assert(insert_pair_m(p, s) == seq![s[0]] + insert_pair_m(p, s.drop_first()));
        vstd::seq_lib::lemma_multiset_commutative(seq![s[0]], insert_pair_m(p, s.drop_first()));
        vstd::seq_lib::lemma_multiset_commutative(seq![s[0]], s.drop_first());
        assert(s =~= seq![s[0]] + s.drop_first());
        assert(seq![s[0]].to_multiset().add(s.drop_first().to_multiset().insert(p)) =~= (seq![
            s[0],
        ].to_multiset().add(s.drop_first().to_multiset())).insert(p));
    }
}

/// Inserting into a key-sorted pair sequence keeps it key-sorted.
pub proof fn lemma_insert_pair_sorted(p: (Seq<char>, Jv), s: Seq<(Seq<char>, Jv)>)
    requires
        sorted_pairs(s),
    ensures
        sorted_pairs(insert_pair_m(p, s)),
    decreases s.len(),
{
    broadcast use vstd::seq_lib::group_to_multiset_ensures;

    if s.len() == 0 {
    } else if str_le(p.0, s[0].0) {
        let r = seq![p] + s;
        assert forall|i: int, j: int| 0 <= i < j < r.len() implies str_le(
            #[trigger] r[i].0,
            #[trigger] r[j].0,
        ) by {
            if i == 0 {
                if j == 1 {
                } else {
                    lemma_str_le_trans(p.0, s[0].0, s[j - 1].0);
                }
            } else {
                assert(r[i] == s[i - 1]);
                assert(r[j] == s[j - 1]);
            }
        }
    } else {
        lemma_str_le_total(p.0, s[0].0);
        assert(str_le(s[0].0, p.0));
        assert(forall|i: int, j: int|
            0 <= i < j < s.drop_first().len() ==> str_le(
                #[trigger] s.drop_first()[i].0,
                #[trigger] s.drop_first()[j].0,
            ));
        lemma_insert_pair_sorted(p, s.drop_first());
        lemma_insert_pair_multiset(p, s.drop_first());
        let t = insert_pair_m(p, s.drop_first());
        let r = seq![s[0]] + t;
        assert(insert_pair_m(p, s) == r);
        assert forall|i: int, j: int| 0 <= i < j < r.len() implies str_le(
            #[trigger] r[i].0,
            #[trigger] r[j].0,
        ) by {
            if i == 0 {
                let q = r[j];
                assert(q == t[j - 1]);
                assert(t.contains(q));
                assert(t.to_multiset().count(q) > 0);
                assert(s.drop_first().to_multiset().insert(p).count(q) > 0);
                if q == p {
                } else {
                    assert(s.drop_first().to_multiset().count(q) > 0);
                    assert(s.drop_first().contains(q));
                    let m = choose|m: int|
                        0 <= m < s.drop_first().len() && s.drop_first()[m] == q;
                    assert(s[m + 1] == q);
                    assert(str_le(s[0].0, s[m + 1].0));
                }
            } else {
                assert(r[i] == t[i - 1]);
                assert(r[j] == t[j - 1]);
            }
        }
    }
}

/// `str_le` chains.
pub proof fn lemma_str_le_trans(a: Seq<char>, b: Seq<char>, c: Seq<char>)
    requires
        str_le(a, b),
        str_le(b, c),
    ensures
        str_le(a, c),
    decreases a.len(),
{
    if a.len() == 0 {
        assert(str_le(a, c));
    } else {
        if b.len() == 0 {
            assert(!str_le(a, b));
        }
        if c.len() == 0 {
            assert(!str_le(b, c));
        }
        let au = a[0] as u32;
        let bu = b[0] as u32;
        let cu = c[0] as u32;
        if au > bu {
            assert(!str_le(a, b));
        }
        if bu > cu {
            assert(!str_le(b, c));
        }
        if au < cu {
            assert(str_le(a, c));
        } else {
            assert(au == bu && bu == cu);
            assert(str_le(a.drop_first(), b.drop_first()));
            assert(str_le(b.drop_first(), c.drop_first()));
            lemma_str_le_trans(a.drop_first(), b.drop_first(), c.drop_first());
            assert(str_le(a, c) == str_le(a.drop_first(), c.drop_first()));
        }
    }
}

/// Insertion sort yields a key-sorted sequence holding the input pairs
/// and the accumulator pairs, as multisets.
pub proof fn lemma_sort_pairs_aux_props(s: Seq<(Seq<char>, Jv)>, acc: Seq<(Seq<char>, Jv)>)
    requires
        sorted_pairs(acc),
    ensures
        sorted_pairs(sort_pairs_aux(s, acc)),
        sort_pairs_aux(s, acc).to_multiset() == acc.to_multiset().add(s.to_multiset()),
    decreases s.len(),
{
    broadcast use vstd::seq_lib::group_to_multiset_ensures;

    if s.len() == 0 {
        assert(s.to_multiset().len() == 0);
        assert(acc.to_multiset().add(s.to_multiset()) =~= acc.to_multiset());
    } else {
        lemma_insert_pair_sorted(s[0], acc);
        lemma_insert_pair_multiset(s[0], acc);
        lemma_sort_pairs_aux_props(s.drop_first(), insert_pair_m(s[0], acc));
        assert(s =~= seq![s[0]] + s.drop_first());
        vstd::seq_lib::lemma_multiset_commutative(seq![s[0]], s.drop_first());
        assert(seq![s[0]] =~= Seq::<(Seq<char>, Jv)>::empty().push(s[0]));
        assert(acc.to_multiset().insert(s[0]).add(s.drop_first().to_multiset())
            =~= acc.to_multiset().add(s.to_multiset()));
    }
}

/// Two key-sorted pair sequences with distinct keys and the same pairs
/// are identical.
pub proof fn lemma_sorted_pairs_unique_equal(s1: Seq<(Seq<char>, Jv)>, s2: Seq<(Seq<char>, Jv)>)
    requires
        sorted_pairs(s1),
        sorted_pairs(s2),
        crate::maps::keys_unique(s1),
        crate::maps::keys_unique(s2),
        s1.to_multiset() == s2.to_multiset(),
    ensures
        s1 == s2,
    decreases s1.len(),
{
    broadcast use vstd::seq_lib::group_to_multiset_ensures;
    broadcast use vstd::multiset::group_multiset_axioms;

    vstd::seq_lib::to_multiset_len(s1);
    vstd::seq_lib::to_multiset_len(s2);
    assert(s1.to_multiset().len() == s2.to_multiset().len());
    assert(s1.len() == s2.len());
    if s1.len() == 0 {
        assert(s1 =~= s2);
    } else {
        vstd::seq_lib::to_multiset_contains(s1, s1[0]);
        vstd::seq_lib::to_multiset_contains(s2, s1[0]);
        assert(s1.contains(s1[0]));
        assert(s1.to_multiset().count(s1[0]) > 0);
        assert(s2.to_multiset().count(s1[0]) > 0);
        assert(s2.contains(s1[0]));
        let j = choose|j: int| 0 <= j < s2.len() && s2[j] == s1[0];
        vstd::seq_lib::to_multiset_contains(s2, s2[0]);
        vstd::seq_lib::to_multiset_contains(s1, s2[0]);
        assert(s2.contains(s2[0]));
        assert(s2.to_multiset().count(s2[0]) > 0);
        assert(s1.to_multiset().count(s2[0]) > 0);
        assert(s1.contains(s2[0]));
        let k = choose|k: int| 0 <= k < s1.len() && s1[k] == s2[0];
        if k > 0 {
            assert(str_le(s1[0].0, s1[k].0));
        } else {
            lemma_str_le_refl(s1[0].0);
        }
        assert(str_le(s1[0].0, s2[0].0));
        if j > 0 {
            assert(str_le(s2[0].0, s2[j].0));
        } else {
            lemma_str_le_refl(s2[0].0);
        }
        assert(str_le(s2[0].0, s1[0].0));
        lemma_str_le_antisym(s1[0].0, s2[0].0);
        assert(s1[0].0 == s2[0].0);
        if j != 0 {
            assert(s2[j].0 == s2[0].0);
            assert(false);
        }
        assert(s2[0] == s1[0]);
        vstd::seq_lib::to_multiset_remove(s1, 0);
        vstd::seq_lib::to_multiset_remove(s2, 0);
        assert(s1.remove(0).to_multiset() =~= s1.to_multiset().remove(s1[0]));
        assert(s2.remove(0).to_multiset() =~= s2.to_multiset().remove(s2[0]));
        assert(s1.remove(0) =~= s1.drop_first());
        assert(s2.remove(0) =~= s2.drop_first());
        assert(s1.drop_first().to_multiset() == s1.to_multiset().remove(s1[0]));
        assert(s2.drop_first().to_multiset() == s2.to_multiset().remove(s2[0]));
        assert(s1.drop_first().to_multiset() == s2.drop_first().to_multiset());
        assert(forall|a: int, b: int|
            0 <= a < b < s1.drop_first().len() ==> s1.drop_first()[a].0 != s1.drop_first()[b].0);
        assert(forall|a: int, b: int|
            0 <= a < b < s2.drop_first().len() ==> s2.drop_first()[a].0 != s2.drop_first()[b].0);
        assert(forall|a: int, b: int|
            0 <= a < b < s1.drop_first().len() ==> str_le(
                #[trigger] s1.drop_first()[a].0,
                #[trigger] s1.drop_first()[b].0,
            ));
        assert(forall|a: int, b: int|
            0 <= a < b < s2.drop_first().len() ==> str_le(
                #[trigger] s2.drop_first()[a].0,
                #[trigger] s2.drop_first()[b].0,
            ));
        lemma_sorted_pairs_unique_equal(s1.drop_first(), s2.drop_first());
        assert(s1 =~= s2) by {
            assert(forall|i: int| 1 <= i < s1.len() ==> s1[i] == s1.drop_first()[i - 1]);
            assert(forall|i: int| 1 <= i < s2.len() ==> s2[i] == s2.drop_first()[i - 1]);
        }
    }
}

/// A sequence with the same pairs as one with distinct keys has distinct
/// keys itself.
pub proof fn lemma_multiset_keys_unique(s: Seq<(Seq<char>, Jv)>, t: Seq<(Seq<char>, Jv)>)
    requires
        crate::maps::keys_unique(s),
        t.to_multiset() == s.to_multiset(),
    ensures
        crate::maps::keys_unique(t),
{
    broadcast use vstd::seq_lib::group_to_multiset_ensures;

    assert forall|i: int, j: int| 0 <= i < j < t.len() implies t[i].0 != t[j].0 by {
        if t[i].0 == t[j].0 {
            if t[i] == t[j] {
                // the same pair would occur twice, but each pair occurs
                // at most once in a sequence with distinct keys
                assert(forall|a: int, b: int|
                    0 <= a < b < s.len() ==> s[a] != s[b]);
                assert(s.no_duplicates());
                s.lemma_multiset_has_no_duplicates();
                assert(t.remove(j).to_multiset() =~= t.to_multiset().remove(t[j]));
                assert(t.remove(j).contains(t[i])) by {
                    assert(t.remove(j)[i] == t[i]);
                }
                assert(t.remove(j).to_multiset().count(t[i]) > 0);
                assert(t.to_multiset().count(t[i]) >= 2);
                assert(s.to_multiset().contains(t[i]));
                assert(false);
            } else {
                assert(t.contains(t[i]));
                assert(s.to_multiset().count(t[i]) > 0);
                assert(s.contains(t[i]));
                assert(t.contains(t[j]));
                assert(s.to_multiset().count(t[j]) > 0);
                assert(s.contains(t[j]));
                let a = choose|a: int| 0 <= a < s.len() && s[a] == t[i];
                let b = choose|b: int| 0 <= b < s.len() && s[b] == t[j];
                assert(a != b);
                assert(false);
            }
        }
    }
}

/// Canonicalization is stable under reordering of object members: two
/// objects holding the same members (distinct keys, either order, values
/// already agreeing canonically) canonicalize to the same tree, so their
/// canonical text is byte-identical. Applied at every nesting level this
/// makes the canonical signing bytes independent of member order.
pub proof fn lemma_canonical_obj_reorder(ps1: Seq<(Seq<char>, Jv)>, ps2: Seq<(Seq<char>, Jv)>)
    requires
        crate::maps::keys_unique(canon_pairs_m(ps1)),
        canon_pairs_m(ps1).to_multiset() == canon_pairs_m(ps2).to_multiset(),
    ensures
        canon_m(Jv::Obj(ps1)) == canon_m(Jv::Obj(ps2)),
        text_m(canon_m(Jv::Obj(ps1))) == text_m(canon_m(Jv::Obj(ps2))),
{
    let c1 = canon_pairs_m(ps1);
    let c2 = canon_pairs_m(ps2);
    let e = Seq::<(Seq<char>, Jv)>::empty();
    assert(sorted_pairs(e));
    lemma_sort_pairs_aux_props(c1, e);
    lemma_sort_pairs_aux_props(c2, e);
    broadcast use vstd::seq_lib::group_to_multiset_ensures;

    assert(e.to_multiset().len() == 0);
    assert(sort_pairs_m(c1).to_multiset() =~= c1.to_multiset());
    assert(sort_pairs_m(c2).to_multiset() =~= c2.to_multiset());
    lemma_multiset_keys_unique(c1, sort_pairs_m(c1));
    lemma_multiset_keys_unique(c1, sort_pairs_m(c2));
    lemma_sorted_pairs_unique_equal(sort_pairs_m(c1), sort_pairs_m(c2));
}

/// Reordering the members of a parameters object leaves its canonical
/// JSON text unchanged.
pub proof fn lemma_canonical_parameters_reorder(a: JsonValue, b: JsonValue)
    requires
        a matches JsonValue::Obj(p1) && b matches JsonValue::Obj(p2) && crate::maps::keys_unique(
            canon_pairs_m(jv_pairs(p1@)),
        ) && canon_pairs_m(jv_pairs(p1@)).to_multiset() == canon_pairs_m(
            jv_pairs(p2@),
        ).to_multiset(),
    ensures
        canon_text(a) == canon_text(b),
{
    let p1 = a->Obj_0;
    let p2 = b->Obj_0;
    lemma_canonical_obj_reorder(jv_pairs(p1@), jv_pairs(p2@));
}

} // verus!
