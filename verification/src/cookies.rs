//! The cookie store of a session: a map from cookie names to values, kept
//! in insertion order, mirrored into a `reqwest` cookie jar for the domain.

use vstd::prelude::*;
use std::sync::Arc;
use crate::text::{decimal, trim, first_index, split_on, chars_of, split_ranges, trim_bounds, find_char, string_of};
use crate::http::{new_jar, parse_url, jar_add_cookie_str};

verus! {

/// Domain every cookie of the session is set for.
pub const COOKIE_DOMAIN: &'static str = ".bilibili.com";

/// Path every cookie of the session is set for.
pub const COOKIE_PATH: &'static str = "/";

/// URL the cookie jar files the cookies under.
pub const COOKIE_URL: &'static str = "https://bilibili.com";

pub type Entries = Seq<(Seq<char>, Seq<char>)>;

pub open spec fn pair_view(p: (String, String)) -> (Seq<char>, Seq<char>) {
    (p.0@, p.1@)
}

/// No name occurs twice.
pub open spec fn keys_distinct(e: Entries) -> bool {
    forall|i: int, j: int| 0 <= i < j < e.len() ==> e[i].0 != e[j].0
}

pub open spec fn has_key(e: Entries, k: Seq<char>) -> bool {
    exists|i: int| 0 <= i < e.len() && e[i].0 == k
}

/// The name-to-value map that a list of entries stands for.
pub open spec fn as_map(e: Entries) -> Map<Seq<char>, Seq<char>> {
    Map::new(
        |k: Seq<char>| has_key(e, k),
        |k: Seq<char>| e[choose|i: int| 0 <= i < e.len() && e[i].0 == k].1,
    )
}

/// Position of `k` in `e`.
pub open spec fn key_pos(e: Entries, k: Seq<char>) -> int {
    choose|i: int| 0 <= i < e.len() && e[i].0 == k
}

/// Setting `k` to `v`: in place where `k` is present, else appended.
pub open spec fn upsert(e: Entries, k: Seq<char>, v: Seq<char>) -> Entries {
    if has_key(e, k) {
        e.update(key_pos(e, k), (k, v))
    } else {
        e.push((k, v))
    }
}

/// Dropping `k` and keeping the order of the rest.
pub open spec fn without(e: Entries, k: Seq<char>) -> Entries {
    if has_key(e, k) {
        e.remove(key_pos(e, k))
    } else {
        e
    }
}

/// Entries in the order of successive `upsert`s of `pairs` on `e`.
pub open spec fn upsert_all(e: Entries, pairs: Entries) -> Entries
    decreases pairs.len(),
{
    if pairs.len() == 0 {
        e
    } else {
        upsert(upsert_all(e, pairs.drop_last()), pairs.last().0, pairs.last().1)
    }
}

/// The map after successive inserts of `pairs`.
pub open spec fn insert_all(m: Map<Seq<char>, Seq<char>>, pairs: Entries) -> Map<Seq<char>, Seq<char>>
    decreases pairs.len(),
{
    if pairs.len() == 0 {
        m
    } else {
        insert_all(m, pairs.drop_last()).insert(pairs.last().0, pairs.last().1)
    }
}

pub proof fn lemma_as_map_at(e: Entries, i: int)
    requires
        keys_distinct(e),
        0 <= i < e.len(),
    ensures
        as_map(e).contains_key(e[i].0),
        as_map(e)[e[i].0] == e[i].1,
        key_pos(e, e[i].0) == i,
{
    let k = e[i].0;
    assert(has_key(e, k));
    let j = key_pos(e, k);
    assert(0 <= j < e.len() && e[j].0 == k);
    if j != i {
        if j < i {
            assert(e[j].0 != e[i].0);
        } else {
            assert(e[i].0 != e[j].0);
        }
    }
}

pub proof fn lemma_upsert(e: Entries, k: Seq<char>, v: Seq<char>)
    requires
        keys_distinct(e),
    ensures
        keys_distinct(upsert(e, k, v)),
        as_map(upsert(e, k, v)) == as_map(e).insert(k, v),
{
    let n = upsert(e, k, v);
    if has_key(e, k) {
        let p = key_pos(e, k);
        assert(keys_distinct(n));
        assert forall|x: Seq<char>| #[trigger] has_key(n, x) == (has_key(e, x) || x == k) by {
            if has_key(e, x) {
                let j = choose|j: int| 0 <= j < e.len() && e[j].0 == x;
                assert(n[j].0 == x);
            }
            if has_key(n, x) {
                let j = choose|j: int| 0 <= j < n.len() && n[j].0 == x;
                if j != p {
                    assert(e[j].0 == x);
                }
            }
        }
        assert forall|x: Seq<char>| #[trigger] has_key(n, x) implies as_map(n)[x] == as_map(
            e,
        ).insert(k, v)[x] by {
            let j = choose|j: int| 0 <= j < n.len() && n[j].0 == x;
            lemma_as_map_at(n, j);
            if x != k {
                assert(e[j].0 == x);
                lemma_as_map_at(e, j);
            }
        }
        assert(as_map(n) =~= as_map(e).insert(k, v));
    } else {
        assert(keys_distinct(n));
        assert forall|x: Seq<char>| #[trigger] has_key(n, x) == (has_key(e, x) || x == k) by {
            if has_key(e, x) {
                let j = choose|j: int| 0 <= j < e.len() && e[j].0 == x;
                assert(n[j].0 == x);
            }
            if x == k {
                assert(n[e.len() as int].0 == k);
            }
        }
        assert forall|x: Seq<char>| #[trigger] has_key(n, x) implies as_map(n)[x] == as_map(
            e,
        ).insert(k, v)[x] by {
            let j = choose|j: int| 0 <= j < n.len() && n[j].0 == x;
            lemma_as_map_at(n, j);
            if x != k {
                assert(j < e.len());
                lemma_as_map_at(e, j);
            }
        }
        assert(as_map(n) =~= as_map(e).insert(k, v));
    }
}

pub proof fn lemma_without(e: Entries, k: Seq<char>)
    requires
        keys_distinct(e),
    ensures
        keys_distinct(without(e, k)),
        as_map(without(e, k)) == as_map(e).remove(k),
{
    let n = without(e, k);
    if has_key(e, k) {
        let p = key_pos(e, k);
        assert forall|i: int, j: int| 0 <= i < j < n.len() implies n[i].0 != n[j].0 by {
            let ii = if i < p { i } else { i + 1 };
            let jj = if j < p { j } else { j + 1 };
            assert(n[i] == e[ii] && n[j] == e[jj]);
        }
        assert forall|x: Seq<char>| #[trigger] has_key(n, x) == (has_key(e, x) && x != k) by {
            if has_key(e, x) && x != k {
                let j = choose|j: int| 0 <= j < e.len() && e[j].0 == x;
                if j < p {
                    assert(n[j].0 == x);
                } else {
                    assert(j != p);
                    assert(n[j - 1].0 == x);
                }
            }
            if has_key(n, x) {
                let j = choose|j: int| 0 <= j < n.len() && n[j].0 == x;
                let jj = if j < p { j } else { j + 1 };
                assert(e[jj].0 == x);
                assert(jj != p);
                lemma_as_map_at(e, jj);
            }
        }
        assert forall|x: Seq<char>| #[trigger] has_key(n, x) implies as_map(n)[x] == as_map(
            e,
        ).remove(k)[x] by {
            let j = choose|j: int| 0 <= j < n.len() && n[j].0 == x;
            lemma_as_map_at(n, j);
            let jj = if j < p { j } else { j + 1 };
            assert(e[jj] == n[j]);
            lemma_as_map_at(e, jj);
        }
        assert(as_map(n) =~= as_map(e).remove(k));
    } else {
        assert(as_map(n) =~= as_map(e).remove(k));
    }
}

pub proof fn lemma_upsert_all(e: Entries, pairs: Entries)
    requires
        keys_distinct(e),
    ensures
        keys_distinct(upsert_all(e, pairs)),
        as_map(upsert_all(e, pairs)) == insert_all(as_map(e), pairs),
    decreases pairs.len(),
{
    if pairs.len() > 0 {
        lemma_upsert_all(e, pairs.drop_last());
        lemma_upsert(upsert_all(e, pairs.drop_last()), pairs.last().0, pairs.last().1);
    }
}

/// `Set-Cookie` text of `name=value` for `path` and `domain`, as
/// `cookie::Cookie` renders it: a leading `.` of the domain is dropped.
pub open spec fn cookie_text(name: Seq<char>, value: Seq<char>, domain: Seq<char>, path: Seq<char>) -> Seq<char> {
    let d = if domain.len() > 0 && domain[0] == '.' { domain.drop_first() } else { domain };
    name + "="@ + value + "; Path="@ + path + "; Domain="@ + d
}

/// `cookie::Cookie::build(name, value).domain(domain).path(path).finish().to_string()`.
#[verifier::external_body]
fn cookie_line(name: &str, value: &str, domain: &str, path: &str) -> (line: String)
    ensures
        line@ == cookie_text(name@, value@, domain@, path@),
{
    cookie::Cookie::build(name, value).domain(domain).path(path).finish().to_string()
}

/// `cookie::Cookie::build(name, "").domain(domain).path(path).max_age(seconds)
/// .finish().to_string()`: the line that makes a jar drop `name`.
#[verifier::external_body]
fn expiring_cookie_line(name: &str, domain: &str, path: &str, max_age_secs: i64) -> (line: String)
    ensures
        line@ == cookie_text(name@, Seq::empty(), domain@, path@) + "; Max-Age="@ + decimal(
            max_age_secs as int,
        ),
{
    cookie::Cookie::build(name, "").domain(domain).path(path).max_age(
        cookie::time::Duration::seconds(max_age_secs),
    ).finish().to_string()
}

/// The cookies of a session.
pub struct CookiesData {
    cookies_map: Vec<(String, String)>,
    cookie_jar: Arc<reqwest::cookie::Jar>,
}

impl View for CookiesData {
    type V = Map<Seq<char>, Seq<char>>;

    open spec fn view(&self) -> Map<Seq<char>, Seq<char>> {
        as_map(self.entries())
    }
}

impl CookiesData {
    /// The cookies in the order they were first set.
    pub closed spec fn entries(&self) -> Entries {
        self.cookies_map@.map_values(|p: (String, String)| pair_view(p))
    }

    pub open spec fn wf(&self) -> bool {
        keys_distinct(self.entries())
    }

    /// A store without cookies.
    pub fn empty() -> (r: Self)
        ensures
            r.wf(),
            r.entries() == Seq::<(Seq<char>, Seq<char>)>::empty(),
            r@ == Map::<Seq<char>, Seq<char>>::empty(),
    {
        let r = CookiesData { cookies_map: Vec::new(), cookie_jar: Arc::new(new_jar()) };
        assert(r.entries() =~= Seq::<(Seq<char>, Seq<char>)>::empty());
        assert(r@ =~= Map::<Seq<char>, Seq<char>>::empty());
        r
    }

    /// Number of cookies held.
    pub fn len(&self) -> (n: usize)
        ensures
            n == self.entries().len(),
    {
        self.cookies_map.len()
    }

    /// The `i`-th cookie in order.
    pub fn entry(&self, i: usize) -> (r: (String, String))
        requires
            i < self.entries().len(),
        ensures
            pair_view(r) == self.entries()[i as int],
    {
        let (k, v) = &self.cookies_map[i];
        (k.clone(), v.clone())
    }

    fn position(&self, key: &String) -> (r: Option<usize>)
        requires
            self.wf(),
        ensures
            match r {
                Some(i) => i < self.entries().len() && self.entries()[i as int].0 == key@ && key_pos(
                    self.entries(),
                    key@,
                ) == i,
                None => !has_key(self.entries(), key@),
            },
    {
        let mut i: usize = 0;
        while i < self.cookies_map.len()
            invariant
                i <= self.cookies_map@.len(),
                self.wf(),
                forall|j: int| 0 <= j < i ==> self.entries()[j].0 != key@,
            decreases self.cookies_map@.len() - i,
        {
            if self.cookies_map[i].0 == *key {
                proof {
                    lemma_as_map_at(self.entries(), i as int);
                }
                return Some(i);
            }
            i = i + 1;
        }
        None
    }

    /// Sets cookie `key` to `value` and files it in the jar.
    pub fn insert(&mut self, key: String, value: String)
        requires
            old(self).wf(),
        ensures
            final(self).wf(),
            final(self).entries() == upsert(old(self).entries(), key@, value@),
            final(self)@ == old(self)@.insert(key@, value@),
    {
        let line = cookie_line(key.as_str(), value.as_str(), COOKIE_DOMAIN, COOKIE_PATH);
        match parse_url(COOKIE_URL) {
            Some(url) => jar_add_cookie_str(&self.cookie_jar, line.as_str(), &url),
            None => {},
        }
        let ghost e = self.entries();
        match self.position(&key) {
            Some(i) => {
                self.cookies_map.set(i, (key, value));
                assert(self.entries() =~= upsert(e, key@, value@));
            },
            None => {
                self.cookies_map.push((key, value));
                assert(self.entries() =~= upsert(e, key@, value@));
            },
        }
        proof {
            lemma_upsert(e, key@, value@);
        }
    }

    /// Value of cookie `key`.
    pub fn get(&self, key: &str) -> (r: Option<String>)
        requires
            self.wf(),
        ensures
            match r {
                Some(v) => self@.contains_key(key@) && self@[key@] == v@,
                None => !self@.contains_key(key@),
            },
    {
        let k = String::from_str(key);
        match self.position(&k) {
            Some(i) => {
                proof {
                    lemma_as_map_at(self.entries(), i as int);
                }
                Some(self.cookies_map[i].1.clone())
            },
            None => None,
        }
    }

    /// Drops cookie `key`, telling the jar to expire it; whether it was held.
    pub fn remove(&mut self, key: &str) -> (existed: bool)
        requires
            old(self).wf(),
        ensures
            final(self).wf(),
            existed == old(self)@.contains_key(key@),
            final(self).entries() == without(old(self).entries(), key@),
            final(self)@ == old(self)@.remove(key@),
    {
        let k = String::from_str(key);
        let ghost e = self.entries();
        proof {
            lemma_without(e, key@);
        }
        match self.position(&k) {
            Some(i) => {
                self.cookies_map.remove(i);
                assert(self.entries() =~= without(e, key@));
                let line = expiring_cookie_line(key, COOKIE_DOMAIN, COOKIE_PATH, -1);
                match parse_url(COOKIE_URL) {
                    Some(url) => jar_add_cookie_str(&self.cookie_jar, line.as_str(), &url),
                    None => {},
                }
                true
            },
            None => false,
        }
    }

    /// Drops every cookie and starts a fresh jar.
    pub fn clear(&mut self)
        ensures
            final(self).wf(),
            final(self).entries() == Seq::<(Seq<char>, Seq<char>)>::empty(),
            final(self)@ == Map::<Seq<char>, Seq<char>>::empty(),
    {
        self.cookies_map.clear();
        self.cookie_jar = Arc::new(new_jar());
        assert(self.entries() =~= Seq::<(Seq<char>, Seq<char>)>::empty());
        assert(self@ =~= Map::<Seq<char>, Seq<char>>::empty());
    }
}


/// The cookie a `name=value` piece of a cookie string stands for: the piece
/// is trimmed, split at its first `=`, and kept only where a value follows.
pub open spec fn cookie_pair(piece: Seq<char>) -> Option<(Seq<char>, Seq<char>)> {
    let t = trim(piece);
    match first_index(t, '=') {
        Some(p) => if p + 1 < t.len() {
            Some((t.subrange(0, p as int), t.subrange((p + 1) as int, t.len() as int)))
        } else {
            None
        },
        None => None,
    }
}

/// The cookies of the `;`-separated pieces, in order.
pub open spec fn pairs_of(pieces: Seq<Seq<char>>) -> Entries
    decreases pieces.len(),
{
    if pieces.len() == 0 {
        Seq::empty()
    } else {
        match cookie_pair(pieces.last()) {
            Some(p) => pairs_of(pieces.drop_last()).push(p),
            None => pairs_of(pieces.drop_last()),
        }
    }
}

/// The cookies a cookie string such as `a=1; b=2` sets, in order.
pub open spec fn cookie_pairs(s: Seq<char>) -> Entries {
    pairs_of(split_on(s, ';'))
}

impl CookiesData {
    /// Sets every cookie that `cookie_str` names, in order.
    pub fn insert_cookie_string(&mut self, cookie_str: &str)
        requires
            old(self).wf(),
        ensures
            final(self).wf(),
            final(self).entries() == upsert_all(old(self).entries(), cookie_pairs(cookie_str@)),
            final(self)@ == insert_all(old(self)@, cookie_pairs(cookie_str@)),
    {
        let v = chars_of(cookie_str);
        let parts = split_ranges(&v, 0, v.len(), ';');
        let ghost pieces = split_on(v@.subrange(0, v@.len() as int), ';');
        assert(v@.subrange(0, v@.len() as int) =~= cookie_str@);
        let ghost e0 = self.entries();
        let mut i: usize = 0;
        while i < parts.len()
            invariant
                i <= parts@.len(),
                pieces == split_on(cookie_str@, ';'),
                parts@.len() == pieces.len(),
                forall|k: int|
                    0 <= k < parts@.len() ==> 0 <= (#[trigger] parts@[k]).0 <= parts@[k].1 <= v@.len()
                        && v@.subrange(parts@[k].0 as int, parts@[k].1 as int) == pieces[k],
                self.wf(),
                self.entries() == upsert_all(e0, pairs_of(pieces.subrange(0, i as int))),
            decreases parts@.len() - i,
        {
            let (lo, hi) = parts[i];
            let (a, b) = trim_bounds(&v, lo, hi);
            let ghost t = v@.subrange(a as int, b as int);
            let ghost prev = pairs_of(pieces.subrange(0, i as int));
            assert(pieces.subrange(0, i + 1).drop_last() =~= pieces.subrange(0, i as int));
            assert(pieces.subrange(0, i + 1).last() == pieces[i as int]);
            assert(t == trim(pieces[i as int]));
            proof {
                match cookie_pair(pieces[i as int]) {
                    Some(pr) => {
                        assert(prev.push(pr).drop_last() =~= prev);
                    },
                    None => {},
                }
            }
            match find_char(&v, a, b, '=') {
                Some(p) => {
                    proof {
                        crate::text::lemma_first_index(t, '=');
                    }
                    if p + 1 < b - a {
                        let key = string_of(&v, a, a + p);
                        let value = string_of(&v, a + p + 1, b);
                        assert(key@ =~= t.subrange(0, p as int));
                        assert(value@ =~= t.subrange(p + 1, t.len() as int));
                        self.insert(key, value);
                    }
                },
                None => {},
            }
            i = i + 1;
        }
        assert(pieces.subrange(0, parts@.len() as int) =~= pieces);
        proof {
            lemma_upsert_all(e0, cookie_pairs(cookie_str@));
        }
    }
}


impl CookiesData {
    /// Sets each of `pairs` in order.
    pub fn insert_pairs(&mut self, pairs: &Vec<(String, String)>)
        requires
            old(self).wf(),
        ensures
            final(self).wf(),
            final(self).entries() == upsert_all(
                old(self).entries(),
                pairs@.map_values(|p: (String, String)| pair_view(p)),
            ),
            final(self)@ == insert_all(old(self)@, pairs@.map_values(|p: (String, String)| pair_view(p))),
    {
        let ghost pv = pairs@.map_values(|p: (String, String)| pair_view(p));
        let ghost e0 = self.entries();
        let mut i: usize = 0;
        while i < pairs.len()
            invariant
                i <= pairs@.len(),
                pv == pairs@.map_values(|p: (String, String)| pair_view(p)),
                self.wf(),
                self.entries() == upsert_all(e0, pv.subrange(0, i as int)),
            decreases pairs@.len() - i,
        {
            let (k, v) = &pairs[i];
            assert(pv.subrange(0, i + 1).drop_last() =~= pv.subrange(0, i as int));
            self.insert(k.clone(), v.clone());
            i = i + 1;
        }
        assert(pv.subrange(0, pairs@.len() as int) =~= pv);
        proof {
            lemma_upsert_all(e0, pv);
        }
    }
}

} // verus!
