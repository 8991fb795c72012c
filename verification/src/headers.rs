//! Case-insensitive, multi-valued header storage.
//!
//! Keys are canonicalized before insertion and lookup: the first letter of
//! each dash-separated segment is upper-cased, the rest lower-cased, so
//! differently-cased spellings of one header coalesce into one entry.

use vstd::prelude::*;

use crate::strutil::{
    is_space_char, lower_char, push_char, str_eq, to_lower_char, to_upper_char, trim, trim_spec,
    upper_char,
};

verus! {

/// The canonical form of a trimmed key: after the start and after each dash
/// the next character is upper-cased, every other character lower-cased.
pub open spec fn canon_rec(s: Seq<char>, up: bool) -> Seq<char>
    decreases s.len(),
{
    if s.len() == 0 {
        s
    } else if s[0] == '-' {
        seq!['-'] + canon_rec(s.skip(1), true)
    } else if up {
        seq![upper_char(s[0])] + canon_rec(s.skip(1), false)
    } else {
        seq![lower_char(s[0])] + canon_rec(s.skip(1), false)
    }
}

/// The canonical form of a header key: trimmed, then case-normalized.
pub open spec fn canon_spec(s: Seq<char>) -> Seq<char> {
    canon_rec(trim_spec(s), true)
}

fn canon_chars(s: &str, up: bool) -> (r: String)
    ensures
        r@ == canon_rec(s@, up),
    decreases s@.len(),
{
    let len = s.unicode_len();
    if len == 0 {
        String::new()
    } else {
        let c = s.get_char(0);
        let rest = s.substring_char(1, len);
        proof {
            assert(rest@ =~= s@.skip(1));
        }
        let x: char;
        let nup: bool;
        if c == '-' {
            x = '-';
            nup = true;
        } else if up {
            x = to_upper_char(c);
            nup = false;
        } else {
            x = to_lower_char(c);
            nup = false;
        }
        let tail = canon_chars(rest, nup);
        let mut out = String::new();
        push_char(&mut out, x);
        out.append(tail.as_str());
        proof {
            assert(out@ =~= seq![x] + tail@);
        }
        out
    }
}

/// Canonicalizes a header key.
pub fn canonicalize(key: &str) -> (r: String)
    ensures
        r@ == canon_spec(key@),
{
    let t = trim(key);
    canon_chars(t, true)
}

/// Two strings that differ only in ASCII letter case.
pub open spec fn eq_ignore_case(a: Seq<char>, b: Seq<char>) -> bool {
    &&& a.len() == b.len()
    &&& forall|i: int| 0 <= i < a.len() ==> lower_char(a[i]) == lower_char(b[i])
}

proof fn lemma_trim_start_case(a: Seq<char>, b: Seq<char>)
    requires
        eq_ignore_case(a, b),
    ensures
        eq_ignore_case(
            crate::strutil::trim_start_spec(a),
            crate::strutil::trim_start_spec(b),
        ),
    decreases a.len(),
{
    if a.len() > 0 {
        assert(lower_char(a[0]) == lower_char(b[0]));
        assert(is_space_char(a[0]) == is_space_char(b[0]));
        if is_space_char(a[0]) {
            assert(eq_ignore_case(a.skip(1), b.skip(1))) by {
                assert(forall|i: int|
                    0 <= i < a.skip(1).len() ==> a.skip(1)[i] == a[i + 1] && b.skip(1)[i] == b[i
                        + 1]);
            }
            lemma_trim_start_case(a.skip(1), b.skip(1));
        }
    }
}

proof fn lemma_trim_end_case(a: Seq<char>, b: Seq<char>)
    requires
        eq_ignore_case(a, b),
    ensures
        eq_ignore_case(crate::strutil::trim_end_spec(a), crate::strutil::trim_end_spec(b)),
    decreases a.len(),
{
    if a.len() > 0 {
        let n = a.len() - 1;
        assert(lower_char(a[n]) == lower_char(b[n]));
        assert(is_space_char(a[n]) == is_space_char(b[n]));
        if is_space_char(a[n]) {
            assert(eq_ignore_case(a.take(n), b.take(n)));
            lemma_trim_end_case(a.take(n), b.take(n));
        }
    }
}

proof fn lemma_canon_rec_case(a: Seq<char>, b: Seq<char>, up: bool)
    requires
        eq_ignore_case(a, b),
    ensures
        canon_rec(a, up) == canon_rec(b, up),
    decreases a.len(),
{
    if a.len() > 0 {
        assert(lower_char(a[0]) == lower_char(b[0]));
        assert((a[0] == '-') == (b[0] == '-'));
        assert(upper_char(a[0]) == upper_char(b[0]));
        assert(eq_ignore_case(a.skip(1), b.skip(1))) by {
            assert(forall|i: int|
                0 <= i < a.skip(1).len() ==> a.skip(1)[i] == a[i + 1] && b.skip(1)[i] == b[i + 1]);
        }
        if a[0] == '-' {
            lemma_canon_rec_case(a.skip(1), b.skip(1), true);
        } else {
            lemma_canon_rec_case(a.skip(1), b.skip(1), false);
        }
    }
}

/// Canonicalization is case-insensitive: two keys that differ only in ASCII
/// letter case canonicalize to the same string, so they name the same entry
/// on insertion and on lookup.
pub proof fn lemma_canonicalize_case_insensitive(a: Seq<char>, b: Seq<char>)
    requires
        eq_ignore_case(a, b),
    ensures
        canon_spec(a) == canon_spec(b),
{
    lemma_trim_start_case(a, b);
    lemma_trim_end_case(crate::strutil::trim_start_spec(a), crate::strutil::trim_start_spec(b));
    lemma_canon_rec_case(trim_spec(a), trim_spec(b), true);
}

/// The position of key `k` in an entry list, or its length if `k` is absent.
pub open spec fn assoc_index(es: Seq<(Seq<char>, Seq<Seq<char>>)>, k: Seq<char>) -> nat
    decreases es.len(),
{
    if es.len() == 0 {
        0
    } else if es[0].0 == k {
        0
    } else {
        1 + assoc_index(es.skip(1), k)
    }
}

/// Whether an entry list holds key `k`.
pub open spec fn assoc_has(es: Seq<(Seq<char>, Seq<Seq<char>>)>, k: Seq<char>) -> bool {
    assoc_index(es, k) < es.len()
}

/// The values stored under key `k`.
pub open spec fn assoc_values(es: Seq<(Seq<char>, Seq<Seq<char>>)>, k: Seq<char>) -> Seq<
    Seq<char>,
> {
    es[assoc_index(es, k) as int].1
}

/// What `assoc_index` returns: the first position whose key is `k`, or the
/// length of the list when no key matches.
pub proof fn lemma_assoc_index(es: Seq<(Seq<char>, Seq<Seq<char>>)>, k: Seq<char>)
    ensures
        assoc_index(es, k) <= es.len(),
        assoc_index(es, k) < es.len() ==> es[assoc_index(es, k) as int].0 == k,
        forall|j: int| 0 <= j < assoc_index(es, k) ==> es[j].0 != k,
    decreases es.len(),
{
    if es.len() == 0 || es[0].0 == k {
    } else {
        lemma_assoc_index(es.skip(1), k);
        let i = assoc_index(es, k);
        assert forall|j: int| 0 <= j < i implies es[j].0 != k by {
            if j > 0 {
                assert(es.skip(1)[j - 1] == es[j]);
            }
        }
        if i < es.len() {
            assert(es.skip(1)[i - 1] == es[i as int]);
        }
    }
}

/// A list of entries after inserting value `v` under key `k`: appended to the
/// values of the existing entry, else a new entry at the end.
pub open spec fn insert_entry(
    es: Seq<(Seq<char>, Seq<Seq<char>>)>,
    k: Seq<char>,
    v: Seq<char>,
) -> Seq<(Seq<char>, Seq<Seq<char>>)> {
    if assoc_has(es, k) {
        es.update(assoc_index(es, k) as int, (k, assoc_values(es, k).push(v)))
    } else {
        es.push((k, seq![v]))
    }
}

/// The view of one stored entry: its key and its values, as sequences.
pub open spec fn entry_view(e: (String, Vec<String>)) -> (Seq<char>, Seq<Seq<char>>) {
    (e.0@, e.1@.map_values(|v: String| v@))
}

/// Mapping from canonicalized header name to the values inserted under it,
/// in insertion order.
#[derive(Debug)]
pub struct HeaderMap {
    entries: Vec<(String, Vec<String>)>,
}

impl View for HeaderMap {
    type V = Seq<(Seq<char>, Seq<Seq<char>>)>;

    closed spec fn view(&self) -> Seq<(Seq<char>, Seq<Seq<char>>)> {
        self.entries@.map_values(|e: (String, Vec<String>)| entry_view(e))
    }
}

impl HeaderMap {
    /// An empty map.
    pub fn new() -> (m: HeaderMap)
        ensures
            m@ == Seq::<(Seq<char>, Seq<Seq<char>>)>::empty(),
    {
        let m = HeaderMap { entries: Vec::new() };
        proof {
            assert(m@ =~= Seq::<(Seq<char>, Seq<Seq<char>>)>::empty());
        }
        m
    }

    /// Adds a value under the canonicalized key, after any values already
    /// stored under it.
    pub fn insert(&mut self, key: &str, value: &str)
        ensures
            final(self)@ == insert_entry(old(self)@, canon_spec(key@), value@),
    {
        let k = canonicalize(key);
        let ghost es0 = self@;
        let ghost kk = canon_spec(key@);
        proof {
            lemma_assoc_index(es0, kk);
        }
        let n = self.entries.len();
        let mut i: usize = 0;
        while i < n
            invariant
                i <= n,
                n == self.entries.len(),
                self@ == es0,
                es0 == old(self)@,
                k@ == kk,
                kk == canon_spec(key@),
                forall|j: int| 0 <= j < i ==> es0[j].0 != kk,
            decreases n - i,
        {
            proof {
                assert(es0[i as int] == entry_view(self.entries@[i as int]));
            }
            if str_eq(self.entries[i].0.as_str(), k.as_str()) {
                proof {
                    lemma_assoc_index(es0, kk);
                    assert(es0[i as int].0 == kk);
                    assert(assoc_index(es0, kk) == i);
                }
                let ghost evec0 = self.entries@;
                let mut entry = self.entries.remove(i);
                let ghost vals0 = entry.1@;
                let sv = String::from_str(value);
                let ghost gsv = sv;
                entry.1.push(sv);
                let ghost gentry = entry;
                self.entries.insert(i, entry);
                proof {
                    let es1 = self@;
                    let target = insert_entry(es0, kk, value@);
                    assert forall|j: int| 0 <= j < es1.len() implies es1[j] == target[j] by {
                        assert(es1[j] == entry_view(self.entries@[j]));
                        if j == i {
                            assert(self.entries@[j] == gentry);
                            assert(gentry.0 == evec0[i as int].0);
                            assert(gentry.1@ == vals0.push(gsv));
                            assert(gentry.1@.map_values(|v: String| v@) =~= es0[i as int].1.push(
                                value@,
                            ));
                            assert(target[j] == (kk, assoc_values(es0, kk).push(value@)));
                        } else if j < i {
                            assert(self.entries@[j] == evec0[j]);
                            assert(target[j] == es0[j]);
                        } else {
                            assert(self.entries@[j] == evec0[j]);
                            assert(target[j] == es0[j]);
                        }
                    }
                    assert(es1 =~= target);
                }
                return ;
            }
            proof {
                assert(es0[i as int].0 != kk);
            }
            i = i + 1;
        }
        proof {
            assert(!assoc_has(es0, kk));
        }
        let mut vs: Vec<String> = Vec::new();
        vs.push(String::from_str(value));
        self.entries.push((k, vs));
        proof {
            let es1 = self@;
            let target = insert_entry(es0, kk, value@);
            assert forall|j: int| 0 <= j < es1.len() implies es1[j] == target[j] by {
                assert(es1[j] == entry_view(self.entries@[j]));
                if j < es0.len() {
                    assert(target[j] == es0[j]);
                } else {
                    assert(vs@.map_values(|v: String| v@) =~= seq![value@]);
                }
            }
            assert(es1 =~= target);
        }
    }

    /// Looks a key up, canonicalizing it first; the values come back in
    /// insertion order.
    pub fn get(&self, key: &str) -> (r: Option<&Vec<String>>)
        ensures
            match r {
                Some(vs) => assoc_has(self@, canon_spec(key@)) && vs@.map_values(|v: String| v@)
                    == assoc_values(self@, canon_spec(key@)),
                None => !assoc_has(self@, canon_spec(key@)),
            },
    {
        let k = canonicalize(key);
        let ghost kk = canon_spec(key@);
        proof {
            lemma_assoc_index(self@, kk);
        }
        let n = self.entries.len();
        let mut i: usize = 0;
        while i < n
            invariant
                i <= n,
                n == self.entries.len(),
                k@ == kk,
                kk == canon_spec(key@),
                forall|j: int| 0 <= j < i ==> self@[j].0 != kk,
            decreases n - i,
        {
            proof {
                assert(self@[i as int] == entry_view(self.entries@[i as int]));
            }
            if str_eq(self.entries[i].0.as_str(), k.as_str()) {
                proof {
                    lemma_assoc_index(self@, kk);
                    assert(self@[i as int].0 == kk);
                    assert(assoc_index(self@, kk) == i);
                }
                return Some(&self.entries[i].1);
            }
            proof {
                assert(self@[i as int].0 != kk);
            }
            i = i + 1;
        }
        proof {
            assert(!assoc_has(self@, kk));
        }
        None
    }

    /// How many distinct (canonical) keys the map holds.
    pub fn len(&self) -> (n: usize)
        ensures
            n == self@.len(),
    {
        self.entries.len()
    }

    /// The entry at a position: its canonical key and its values, in
    /// insertion order.
    pub fn entry_at(&self, i: usize) -> (e: &(String, Vec<String>))
        requires
            i < self@.len(),
        ensures
            e.0@ == self@[i as int].0,
            e.1@.map_values(|v: String| v@) == self@[i as int].1,
    {
        &self.entries[i]
    }
}

impl Default for HeaderMap {
    /// An empty map.
    fn default() -> (m: Self)
        ensures
            m@ == Seq::<(Seq<char>, Seq<Seq<char>>)>::empty(),
    {
        HeaderMap::new()
    }
}

} // verus!
