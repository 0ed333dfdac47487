//! A logged-in session: its HTTP clients, its identity as a browser or app,
//! and its cookies; and the headers every request of the session carries.

use vstd::prelude::*;
use std::sync::Arc;
use crate::cookies::{CookiesData, Entries, upsert, without, upsert_all, insert_all, cookie_pairs, cookie_pair, pairs_of, lemma_upsert_all};
use crate::text::{split_on, first_index};
use crate::text::{push_str, parse_i64, parse_i64_spec, is_lower_hex_digit};
use crate::cookies::pair_view;
use crate::fe_sign::{WEBVIEW_UA, SCREEN_INFO, get_fe_sign, random_hex_32, spec_fe_sign};
use crate::outside::random_u32_in;
use crate::http::{client_get, client_post, builder_header};

verus! {

/// Identity of an app session.
pub struct AppData {
    pub brand: String,
    pub model: String,
    pub buvid: String,
}

/// Identity of a browser session: its user agent and the device cookies.
pub struct WebData {
    pub browser_version: String,
    pub os_version: String,
    pub ua: String,
    pub buvid3: String,
    pub buvid4: String,
    pub b_nut: String,
    pub buvid_fp: String,
    pub _uuid: String,
    pub bili_ticket: String,
    pub bili_ticket_expires: String,
    pub msource: String,
}

pub struct CookieManager {
    pub client: Arc<reqwest::Client>,
    pub h2_client: Arc<reqwest::Client>,
    /// 0: browser, 1: app.
    pub create_type: usize,
    pub app_data: Option<AppData>,
    pub web_data: Option<WebData>,
    pub cookies: CookiesData,
}

/// `k=v; ` for every cookie, in order (the text of `get_all_cookies`).
pub open spec fn cookie_list_text(e: Entries) -> Seq<char>
    decreases e.len(),
{
    if e.len() == 0 {
        Seq::empty()
    } else {
        cookie_list_text(e.drop_last()) + e.last().0 + "="@ + e.last().1 + "; "@
    }
}

/// `k=v` for every cookie joined by `; ` (the `Cookie` header).
pub open spec fn cookie_header_text(e: Entries) -> Seq<char>
    decreases e.len(),
{
    if e.len() == 0 {
        Seq::empty()
    } else if e.len() == 1 {
        e[0].0 + "="@ + e[0].1
    } else {
        cookie_header_text(e.drop_last()) + "; "@ + e.last().0 + "="@ + e.last().1
    }
}

pub open spec fn names_header(h: Entries, name: Seq<char>) -> bool {
    exists|i: int| 0 <= i < h.len() && h[i].0 == name
}

/// Headers added after the caller's own, by kind of session; each only
/// where the caller did not set it.
pub open spec fn default_headers(create_type: usize, web_ua: Option<Seq<char>>, has_app: bool, custom: Entries) -> Entries {
    if create_type == 0 {
        match web_ua {
            Some(ua) => {
                let a = if names_header(custom, "User-Agent"@) {
                    Seq::empty()
                } else {
                    seq![("User-Agent"@, ua)]
                };
                let b = if names_header(custom, "Referer"@) {
                    Seq::empty()
                } else {
                    seq![("Referer"@, "https://show.bilibili.com/"@)]
                };
                let c = if names_header(custom, "Origin"@) {
                    Seq::empty()
                } else {
                    seq![("Origin"@, "https://show.bilibili.com"@)]
                };
                a + b + c
            },
            None => Seq::empty(),
        }
    } else if create_type == 1 && has_app && !names_header(custom, "x-bili-aurora-zone"@) {
        seq![("x-bili-aurora-zone"@, "sh"@)]
    } else {
        Seq::empty()
    }
}

/// Every header a request carries, in the order they are added: the
/// `cookie` header (where there are cookies), the caller's, the defaults.
pub open spec fn request_headers_spec(
    cookies: Entries,
    custom: Entries,
    create_type: usize,
    web_ua: Option<Seq<char>>,
    has_app: bool,
) -> Entries {
    let ck = if cookies.len() == 0 {
        Seq::empty()
    } else {
        seq![("cookie"@, cookie_header_text(cookies))]
    };
    ck + custom + default_headers(create_type, web_ua, has_app, custom)
}

/// How many of the headers `h` are named `name`.
pub open spec fn header_count(h: Entries, name: Seq<char>) -> nat
    decreases h.len(),
{
    if h.len() == 0 {
        0
    } else {
        header_count(h.drop_last(), name) + if h.last().0 == name {
            1nat
        } else {
            0nat
        }
    }
}

proof fn lemma_header_count_concat(x: Entries, y: Entries, name: Seq<char>)
    ensures
        header_count(x + y, name) == header_count(x, name) + header_count(y, name),
    decreases y.len(),
{
    if y.len() == 0 {
        assert(x + y =~= x);
    } else {
        lemma_header_count_concat(x, y.drop_last(), name);
        assert((x + y).drop_last() =~= x + y.drop_last());
        assert((x + y).last() == y.last());
    }
}

proof fn lemma_header_count_names(h: Entries, name: Seq<char>)
    ensures
        names_header(h, name) <==> header_count(h, name) > 0,
    decreases h.len(),
{
    if h.len() > 0 {
        lemma_header_count_names(h.drop_last(), name);
        let d = h.drop_last();
        if names_header(h, name) && h.last().0 != name {
            let i = choose|i: int| 0 <= i < h.len() && h[i].0 == name;
            assert(d[i] == h[i]);
        }
        if names_header(d, name) {
            let i = choose|i: int| 0 <= i < d.len() && d[i].0 == name;
            assert(h[i] == d[i]);
        }
        if h.last().0 == name {
            assert(h[h.len() - 1].0 == name);
        }
    }
}

proof fn lemma_header_count_one(p: (Seq<char>, Seq<char>), name: Seq<char>)
    ensures
        header_count(seq![p], name) == (if p.0 == name { 1nat } else { 0nat }),
{
    assert(seq![p].drop_last() =~= Seq::<(Seq<char>, Seq<char>)>::empty());
    assert(header_count(seq![p].drop_last(), name) == 0);
    assert(seq![p].last() == p);
}

/// In a browser session each of the headers `User-Agent` (the session's
/// agent), `Referer` and `Origin` (the show site) is carried exactly once
/// where the caller does not set it, with its default value; where the
/// caller sets it, only the caller's are carried and no default is added.
pub proof fn law_browser_default_headers(
    cookies: Entries,
    custom: Entries,
    ua: Seq<char>,
    has_app: bool,
    name: Seq<char>,
    value: Seq<char>,
)
    requires
        (name, value) == ("User-Agent"@, ua) || (name, value) == ("Referer"@, "https://show.bilibili.com/"@)
            || (name, value) == ("Origin"@, "https://show.bilibili.com"@),
    ensures
        ({
            let h = request_headers_spec(cookies, custom, 0, Some(ua), has_app);
            &&& !names_header(custom, name) ==> header_count(h, name) == 1 && h.contains((name, value))
            &&& names_header(custom, name) ==> header_count(h, name) == header_count(custom, name)
        }),
{
    reveal_strlit("User-Agent");
    reveal_strlit("Referer");
    reveal_strlit("Origin");
    reveal_strlit("cookie");
    assert("User-Agent"@.len() == 10 && "Referer"@.len() == 7 && "Origin"@.len() == 6 && "cookie"@.len() == 6);
    assert("Origin"@[0] != "cookie"@[0]);
    let ck: Entries = if cookies.len() == 0 {
        Seq::empty()
    } else {
        seq![("cookie"@, cookie_header_text(cookies))]
    };
    let d = default_headers(0, Some(ua), has_app, custom);
    let h = request_headers_spec(cookies, custom, 0, Some(ua), has_app);
    assert(h == ck + custom + d);
    lemma_header_count_concat(ck + custom, d, name);
    lemma_header_count_concat(ck, custom, name);
    lemma_header_count_names(custom, name);
    if cookies.len() != 0 {
        lemma_header_count_one(("cookie"@, cookie_header_text(cookies)), name);
    }
    let a: Entries = if names_header(custom, "User-Agent"@) {
        Seq::empty()
    } else {
        seq![("User-Agent"@, ua)]
    };
    let b: Entries = if names_header(custom, "Referer"@) {
        Seq::empty()
    } else {
        seq![("Referer"@, "https://show.bilibili.com/"@)]
    };
    let c: Entries = if names_header(custom, "Origin"@) {
        Seq::empty()
    } else {
        seq![("Origin"@, "https://show.bilibili.com"@)]
    };
    assert(d == a + b + c);
    lemma_header_count_concat(a + b, c, name);
    lemma_header_count_concat(a, b, name);
    lemma_header_count_one(("User-Agent"@, ua), name);
    lemma_header_count_one(("Referer"@, "https://show.bilibili.com/"@), name);
    lemma_header_count_one(("Origin"@, "https://show.bilibili.com"@), name);
    if !names_header(custom, name) {
        let i: int = if name == "User-Agent"@ {
            0
        } else if name == "Referer"@ {
            a.len() as int
        } else {
            (a.len() + b.len()) as int
        };
        let j = ck.len() + custom.len() + i;
        assert(d[i] == (name, value));
        assert(h[j] == (name, value));
    }
}

pub open spec fn headers_view(h: Seq<(String, String)>) -> Entries {
    h.map_values(|p: (String, String)| (p.0@, p.1@))
}

fn header_named(custom: &Vec<(String, String)>, name: &str) -> (b: bool)
    ensures
        b == names_header(headers_view(custom@), name@),
{
    let n = String::from_str(name);
    let mut i: usize = 0;
    while i < custom.len()
        invariant
            i <= custom@.len(),
            n@ == name@,
            forall|j: int| 0 <= j < i ==> custom@[j].0@ != name@,
        decreases custom@.len() - i,
    {
        if custom[i].0 == n {
            assert(headers_view(custom@)[i as int].0 == name@);
            return true;
        }
        i = i + 1;
    }
    assert forall|j: int| 0 <= j < headers_view(custom@).len() implies headers_view(custom@)[j].0 != name@ by {
        assert(headers_view(custom@)[j].0 == custom@[j].0@);
    }
    false
}

fn push_header(h: &mut Vec<(String, String)>, name: &str, value: &str)
    ensures
        headers_view(final(h)@) == headers_view(old(h)@).push((name@, value@)),
{
    h.push((String::from_str(name), String::from_str(value)));
    assert(headers_view(h@) =~= headers_view(old(h)@).push((name@, value@)));
}

/// The cookies after taking in the cookie strings `lines`, one after the other.
pub open spec fn absorb_all(e: Entries, lines: Seq<Seq<char>>) -> Entries
    decreases lines.len(),
{
    if lines.len() == 0 {
        e
    } else {
        upsert_all(absorb_all(e, lines.drop_last()), cookie_pairs(lines.last()))
    }
}

impl CookieManager {
    pub open spec fn wf(&self) -> bool {
        self.cookies.wf()
    }

    pub open spec fn web_ua(&self) -> Option<Seq<char>> {
        match self.web_data {
            Some(w) => Some(w.ua@),
            None => None,
        }
    }

    pub open spec fn has_app_data(&self) -> bool {
        self.app_data is Some
    }

    /// The cookies a cookie string such as `a=1; b=2` sets, in a new store.
    pub fn parse_cookie_string(cookie_str: &str) -> (r: CookiesData)
        ensures
            r.wf(),
            r.entries() == upsert_all(Seq::empty(), cookie_pairs(cookie_str@)),
            r@ == insert_all(Map::empty(), cookie_pairs(cookie_str@)),
    {
        let mut r = CookiesData::empty();
        r.insert_cookie_string(cookie_str);
        r
    }

    /// A browser-less session on an existing client, with the given cookies.
    pub fn from_client(client: Arc<reqwest::Client>, original_cookie: &str) -> (r: Self)
        ensures
            r.wf(),
            r.create_type == 0,
            r.web_data is None,
            !r.has_app_data(),
            r.cookies@ == insert_all(Map::empty(), cookie_pairs(original_cookie@)),
    {
        let cookies = Self::parse_cookie_string(original_cookie);
        CookieManager {
            client: client.clone(),
            h2_client: client,
            create_type: 0,
            app_data: None,
            web_data: None,
            cookies,
        }
    }

    /// A session of an unknown kind: treated as a browser without identity.
    pub fn fallback(client: Arc<reqwest::Client>, cookies: CookiesData) -> (r: Self)
        requires
            cookies.wf(),
        ensures
            r.wf(),
            r.create_type == 0,
            r.web_data is None,
            !r.has_app_data(),
            r.cookies == cookies,
    {
        CookieManager {
            client: client.clone(),
            h2_client: client,
            create_type: 0,
            app_data: None,
            web_data: None,
            cookies,
        }
    }

    /// `k=v; ` for every cookie, in the order they were first set.
    pub fn get_all_cookies(&self) -> (s: String)
        requires
            self.wf(),
        ensures
            s@ == cookie_list_text(self.cookies.entries()),
    {
        let mut s = String::new();
        let n = self.cookies.len();
        let mut i: usize = 0;
        while i < n
            invariant
                i <= n == self.cookies.entries().len(),
                s@ == cookie_list_text(self.cookies.entries().subrange(0, i as int)),
            decreases n - i,
        {
            let (k, v) = self.cookies.entry(i);
            push_str(&mut s, k.as_str());
            push_str(&mut s, "=");
            push_str(&mut s, v.as_str());
            push_str(&mut s, "; ");
            assert(self.cookies.entries().subrange(0, i + 1).drop_last() =~= self.cookies.entries().subrange(
                0,
                i as int,
            ));
            i = i + 1;
        }
        assert(self.cookies.entries().subrange(0, n as int) =~= self.cookies.entries());
        s
    }

    /// The `Cookie` header value: `k=v` pairs joined by `; `.
    pub fn cookie_header(&self) -> (s: String)
        requires
            self.wf(),
        ensures
            s@ == cookie_header_text(self.cookies.entries()),
    {
        let mut s = String::new();
        let n = self.cookies.len();
        let mut i: usize = 0;
        while i < n
            invariant
                i <= n == self.cookies.entries().len(),
                s@ == cookie_header_text(self.cookies.entries().subrange(0, i as int)),
            decreases n - i,
        {
            let (k, v) = self.cookies.entry(i);
            if i > 0 {
                push_str(&mut s, "; ");
            }
            push_str(&mut s, k.as_str());
            push_str(&mut s, "=");
            push_str(&mut s, v.as_str());
            assert(self.cookies.entries().subrange(0, i + 1).drop_last() =~= self.cookies.entries().subrange(
                0,
                i as int,
            ));
            i = i + 1;
        }
        assert(self.cookies.entries().subrange(0, n as int) =~= self.cookies.entries());
        s
    }

    /// Sets one cookie.
    pub fn update_cookie(&mut self, key: &str, value: &str)
        requires
            old(self).wf(),
        ensures
            final(self).wf(),
            final(self).cookies.entries() == upsert(old(self).cookies.entries(), key@, value@),
            final(self).cookies@ == old(self).cookies@.insert(key@, value@),
            final(self).web_data == old(self).web_data,
            final(self).create_type == old(self).create_type,
    {
        self.cookies.insert(String::from_str(key), String::from_str(value));
    }

    /// Drops one cookie; whether it was set.
    pub fn remove_cookie(&mut self, key: &str) -> (existed: bool)
        requires
            old(self).wf(),
        ensures
            final(self).wf(),
            existed == old(self).cookies@.contains_key(key@),
            final(self).cookies.entries() == without(old(self).cookies.entries(), key@),
            final(self).cookies@ == old(self).cookies@.remove(key@),
            final(self).web_data == old(self).web_data,
            final(self).create_type == old(self).create_type,
    {
        self.cookies.remove(key)
    }

    /// Sets every cookie a cookie string names.
    pub fn update_cookies(&mut self, cookies_str: &str)
        requires
            old(self).wf(),
        ensures
            final(self).wf(),
            final(self).cookies.entries() == upsert_all(
                old(self).cookies.entries(),
                cookie_pairs(cookies_str@),
            ),
            final(self).cookies@ == insert_all(old(self).cookies@, cookie_pairs(cookies_str@)),
            final(self).web_data == old(self).web_data,
            final(self).create_type == old(self).create_type,
    {
        self.cookies.insert_cookie_string(cookies_str);
    }

    /// Takes in the cookies of a response's `Set-Cookie` lines, in order,
    /// each line read as a cookie string.
    pub fn absorb_set_cookies(&mut self, lines: &Vec<String>)
        requires
            old(self).wf(),
        ensures
            final(self).wf(),
            final(self).cookies.entries() == absorb_all(
                old(self).cookies.entries(),
                lines@.map_values(|l: String| l@),
            ),
            final(self).web_data == old(self).web_data,
            final(self).create_type == old(self).create_type,
    {
        let ghost lv = lines@.map_values(|l: String| l@);
        let ghost start = self.cookies.entries();
        let mut i: usize = 0;
        assert(lv.take(0) =~= Seq::<Seq<char>>::empty());
        while i < lines.len()
            invariant
                i <= lines@.len(),
                lv == lines@.map_values(|l: String| l@),
                self.wf(),
                self.cookies.entries() == absorb_all(start, lv.take(i as int)),
                self.web_data == old(self).web_data,
                self.create_type == old(self).create_type,
            decreases lines.len() - i,
        {
            assert(lv.take(i + 1).drop_last() =~= lv.take(i as int));
            assert(lv.take(i + 1).last() == lines@[i as int]@);
            self.update_cookies(lines[i].as_str());
            i = i + 1;
        }
        assert(lv.take(lines@.len() as int) =~= lv);
    }

    /// Drops every cookie.
    pub fn clear_all_cookies(&mut self)
        ensures
            final(self).wf(),
            final(self).cookies@ == Map::<Seq<char>, Seq<char>>::empty(),
            final(self).web_data == old(self).web_data,
            final(self).create_type == old(self).create_type,
    {
        self.cookies.clear();
    }

    /// Value of one cookie.
    pub fn get_cookie(&self, key: &str) -> (r: Option<String>)
        requires
            self.wf(),
        ensures
            match r {
                Some(v) => self.cookies@.contains_key(key@) && self.cookies@[key@] == v@,
                None => !self.cookies@.contains_key(key@),
            },
    {
        self.cookies.get(key)
    }

    /// The browser user agent of the session.
    pub fn get_ua(&self) -> (r: Option<String>)
        ensures
            match r {
                Some(u) => self.web_ua() == Some(u@),
                None => self.web_ua() is None,
            },
    {
        match &self.web_data {
            Some(w) => Some(w.ua.clone()),
            None => None,
        }
    }

    /// Every header a request of this session carries, the caller's own
    /// `custom` ones taking the place of the defaults they name.
    pub fn request_headers(&self, custom: &Vec<(String, String)>) -> (h: Vec<(String, String)>)
        requires
            self.wf(),
        ensures
            headers_view(h@) == request_headers_spec(
                self.cookies.entries(),
                headers_view(custom@),
                self.create_type,
                self.web_ua(),
                self.has_app_data(),
            ),
    {
        let mut h: Vec<(String, String)> = Vec::new();
        if self.cookies.len() > 0 {
            let c = self.cookie_header();
            push_header(&mut h, "cookie", c.as_str());
        }
        let ghost ck = headers_view(h@);
        let mut i: usize = 0;
        while i < custom.len()
            invariant
                i <= custom@.len(),
                headers_view(h@) == ck + headers_view(custom@).subrange(0, i as int),
            decreases custom@.len() - i,
        {
            let (k, v) = &custom[i];
            push_header(&mut h, k.as_str(), v.as_str());
            assert(headers_view(custom@).subrange(0, i + 1) =~= headers_view(custom@).subrange(
                0,
                i as int,
            ).push((k@, v@)));
            i = i + 1;
        }
        assert(headers_view(custom@).subrange(0, custom@.len() as int) =~= headers_view(custom@));
        let ghost base = headers_view(h@);
        let ghost cv = headers_view(custom@);
        if self.create_type == 0 {
            match &self.web_data {
                Some(w) => {
                    if !header_named(custom, "User-Agent") {
                        push_header(&mut h, "User-Agent", w.ua.as_str());
                    }
                    let ghost ha = headers_view(h@);
                    if !header_named(custom, "Referer") {
                        push_header(&mut h, "Referer", "https://show.bilibili.com/");
                    }
                    let ghost hb = headers_view(h@);
                    if !header_named(custom, "Origin") {
                        push_header(&mut h, "Origin", "https://show.bilibili.com");
                    }
                    assert(headers_view(h@) =~= base + default_headers(
                        self.create_type,
                        self.web_ua(),
                        self.has_app_data(),
                        cv,
                    ));
                },
                None => {
                    assert(headers_view(h@) =~= base + default_headers(
                        self.create_type,
                        self.web_ua(),
                        self.has_app_data(),
                        cv,
                    ));
                },
            }
        } else if self.create_type == 1 && self.app_data.is_some() && !header_named(custom, "x-bili-aurora-zone") {
            push_header(&mut h, "x-bili-aurora-zone", "sh");
            assert(headers_view(h@) =~= base + default_headers(
                self.create_type,
                self.web_ua(),
                self.has_app_data(),
                cv,
            ));
        } else {
            assert(headers_view(h@) =~= base + default_headers(
                self.create_type,
                self.web_ua(),
                self.has_app_data(),
                cv,
            ));
        }
        h
    }

    /// Adds the headers of `request_headers(custom)` to a request, in order.
    fn prepare_request_with_overrides(
        &self,
        request: SessionRequest,
        custom_headers: &Vec<(String, String)>,
    ) -> (r: SessionRequest)
        requires
            self.wf(),
        ensures
            r.url@ == request.url@,
            r.post@ == request.post@,
            r.h2@ == request.h2@,
            r.headers@ == request.headers@ + request_headers_spec(
                self.cookies.entries(),
                headers_view(custom_headers@),
                self.create_type,
                self.web_ua(),
                self.has_app_data(),
            ),
    {
        let h = self.request_headers(custom_headers);
        let ghost hv = headers_view(h@);
        let mut r = request;
        let ghost start = r.headers@;
        let mut i: usize = 0;
        assert(hv.subrange(0, 0) =~= Seq::<(Seq<char>, Seq<char>)>::empty());
        while i < h.len()
            invariant
                i <= h@.len(),
                hv == headers_view(h@),
                r.url@ == request.url@,
                r.post@ == request.post@,
                r.h2@ == request.h2@,
                r.headers@ == start + hv.subrange(0, i as int),
            decreases h@.len() - i,
        {
            r = add_header(r, h[i].0.as_str(), h[i].1.as_str());
            assert(hv.subrange(0, i + 1) =~= hv.subrange(0, i as int).push((h@[i as int].0@, h@[i as int].1@)));
            i = i + 1;
        }
        assert(hv.subrange(0, h@.len() as int) =~= hv);
        r
    }

    /// A request with the session's headers and no others.
    fn prepare_request(&self, request: SessionRequest) -> (r: SessionRequest)
        requires
            self.wf(),
        ensures
            r.url@ == request.url@,
            r.post@ == request.post@,
            r.h2@ == request.h2@,
            r.headers@ == request.headers@ + request_headers_spec(
                self.cookies.entries(),
                Seq::empty(),
                self.create_type,
                self.web_ua(),
                self.has_app_data(),
            ),
    {
        let none: Vec<(String, String)> = Vec::new();
        assert(headers_view(none@) =~= Seq::<(Seq<char>, Seq<char>)>::empty());
        self.prepare_request_with_overrides(request, &none)
    }

    /// A GET request to `url` with the session's headers.
    pub fn get(&self, url: &str) -> (r: SessionRequest)
        requires
            self.wf(),
        ensures
            session_request_ok(*self, r, url@, Seq::empty(), false, false),
    {
        let b = fresh_request(client_get(&self.client, url), url, false, false);
        self.prepare_request(b)
    }

    /// A POST request to `url` with the session's headers.
    pub fn post(&self, url: &str) -> (r: SessionRequest)
        requires
            self.wf(),
        ensures
            session_request_ok(*self, r, url@, Seq::empty(), true, false),
    {
        let b = fresh_request(client_post(&self.client, url), url, true, false);
        self.prepare_request(b)
    }

    /// A GET request whose own headers take the place of the defaults.
    pub fn get_with_headers(&self, url: &str, headers: Vec<(String, String)>) -> (r: SessionRequest)
        requires
            self.wf(),
        ensures
            session_request_ok(*self, r, url@, headers_view(headers@), false, false),
    {
        let b = fresh_request(client_get(&self.client, url), url, false, false);
        self.prepare_request_with_overrides(b, &headers)
    }

    /// A POST request whose own headers take the place of the defaults.
    pub fn post_with_headers(&self, url: &str, headers: Vec<(String, String)>) -> (r: SessionRequest)
        requires
            self.wf(),
        ensures
            session_request_ok(*self, r, url@, headers_view(headers@), true, false),
    {
        let b = fresh_request(client_post(&self.client, url), url, true, false);
        self.prepare_request_with_overrides(b, &headers)
    }

    /// As `post_with_headers`, on the HTTP/2 client.
    pub fn post_with_headers_h2(&self, url: &str, headers: Vec<(String, String)>) -> (r: SessionRequest)
        requires
            self.wf(),
        ensures
            session_request_ok(*self, r, url@, headers_view(headers@), true, true),
    {
        let b = fresh_request(client_post(&self.h2_client, url), url, true, true);
        self.prepare_request_with_overrides(b, &headers)
    }

    /// Overrides the user agent of one request: a `user-agent` header goes on last.
    pub fn with_custom_ua(&self, request: SessionRequest, ua: &str) -> (r: SessionRequest)
        ensures
            r.url@ == request.url@,
            r.post@ == request.post@,
            r.h2@ == request.h2@,
            r.headers@ == request.headers@.push(("user-agent"@, ua@)),
    {
        add_header(request, "user-agent", ua)
    }
}

/// A request of a session: the `reqwest` builder that sends it, and what
/// the library put into it: its URL, whether it is a POST, whether it goes
/// through the HTTP/2 client, and the headers added, in order.
pub struct SessionRequest {
    pub builder: reqwest::RequestBuilder,
    pub url: Ghost<Seq<char>>,
    pub post: Ghost<bool>,
    pub h2: Ghost<bool>,
    pub headers: Ghost<Seq<(Seq<char>, Seq<char>)>>,
}

/// What a session's request to `url` is: the method and client asked for,
/// and the session's headers with the caller's `custom` ones.
pub open spec fn session_request_ok(
    m: CookieManager,
    r: SessionRequest,
    url: Seq<char>,
    custom: Entries,
    post: bool,
    h2: bool,
) -> bool {
    &&& r.url@ == url
    &&& r.post@ == post
    &&& r.h2@ == h2
    &&& r.headers@ == request_headers_spec(m.cookies.entries(), custom, m.create_type, m.web_ua(), m.has_app_data())
}

fn fresh_request(builder: reqwest::RequestBuilder, url: &str, post: bool, h2: bool) -> (r: SessionRequest)
    ensures
        r.url@ == url@,
        r.post@ == post,
        r.h2@ == h2,
        r.headers@ == Seq::<(Seq<char>, Seq<char>)>::empty(),
{
    SessionRequest { builder, url: Ghost(url@), post: Ghost(post), h2: Ghost(h2), headers: Ghost(Seq::empty()) }
}

fn add_header(request: SessionRequest, name: &str, value: &str) -> (r: SessionRequest)
    ensures
        r.url@ == request.url@,
        r.post@ == request.post@,
        r.h2@ == request.h2@,
        r.headers@ == request.headers@.push((name@, value@)),
{
    let SessionRequest { builder, url, post, h2, headers } = request;
    SessionRequest {
        builder: builder_header(builder, name, value),
        url,
        post,
        h2,
        headers: Ghost(headers@.push((name@, value@))),
    }
}

/// Two requests of one session to one URL with the same own headers, one
/// on each client, carry the same method, URL and headers.
pub proof fn law_h2_request_matches(m: CookieManager, a: SessionRequest, b: SessionRequest, url: Seq<char>, custom: Entries)
    requires
        session_request_ok(m, a, url, custom, true, false),
        session_request_ok(m, b, url, custom, true, true),
    ensures
        a.url@ == b.url@,
        a.post@ == b.post@,
        a.headers@ == b.headers@,
        !a.h2@ && b.h2@,
{
}

/// The browser versions a new browser session may claim.
pub open spec fn browser_versions() -> Seq<Seq<char>> {
    seq![
        "Chrome/126.0.6478.55"@,
        "Chrome/127.0.6520.0"@,
        "Chrome/125.0.6422.61"@,
        "Chrome/124.0.6367.60"@,
        "Chrome/135.0.0.0"@,
        "Chrome/126.0.6478.55 Edg/126.0.2578.55"@,
        "Chrome/127.0.6520.0 Edg/127.0.2610.0"@,
        "Chrome/125.0.6422.61 Edg/125.0.2535.51"@,
        "Chrome/124.0.6367.60 Edg/124.0.2478.67"@,
        "Chrome/135.0.0.0, Edg/135.0.0.0"@,
    ]
}

/// The operating systems a new browser session may claim.
pub open spec fn os_versions() -> Seq<Seq<char>> {
    seq!["(Windows NT 10.0; Win64; x64)"@]
}

fn browser_version_at(i: u32) -> (s: String)
    requires
        i < 10,
    ensures
        s@ == browser_versions()[i as int],
{
    if i == 0 {
        String::from_str("Chrome/126.0.6478.55")
    } else if i == 1 {
        String::from_str("Chrome/127.0.6520.0")
    } else if i == 2 {
        String::from_str("Chrome/125.0.6422.61")
    } else if i == 3 {
        String::from_str("Chrome/124.0.6367.60")
    } else if i == 4 {
        String::from_str("Chrome/135.0.0.0")
    } else if i == 5 {
        String::from_str("Chrome/126.0.6478.55 Edg/126.0.2578.55")
    } else if i == 6 {
        String::from_str("Chrome/127.0.6520.0 Edg/127.0.2610.0")
    } else if i == 7 {
        String::from_str("Chrome/125.0.6422.61 Edg/125.0.2535.51")
    } else if i == 8 {
        String::from_str("Chrome/124.0.6367.60 Edg/124.0.2478.67")
    } else {
        String::from_str("Chrome/135.0.0.0, Edg/135.0.0.0")
    }
}

/// A browser version picked at random from `browser_versions()`.
pub fn pick_browser_version() -> (s: String)
    ensures
        browser_versions().contains(s@),
{
    let i = random_u32_in(0, 10);
    let s = browser_version_at(i);
    assert(browser_versions()[i as int] == s@);
    s
}

/// An operating system picked at random from `os_versions()`.
pub fn pick_os_version() -> (s: String)
    ensures
        os_versions().contains(s@),
{
    let _ = random_u32_in(0, 1);
    let s = String::from_str("(Windows NT 10.0; Win64; x64)");
    assert(os_versions()[0] == s@);
    s
}

/// The user agent a browser session presents when none is given.
pub open spec fn default_web_ua_spec(os_version: Seq<char>, browser_version: Seq<char>) -> Seq<char> {
    "Mozilla/5.0 "@ + os_version + " AppleWebKit/537.36 (KHTML, like Gecko) "@ + browser_version
        + " Safari/537.36"@
}

/// The given user agent, or the default one built from the versions.
pub fn choose_web_ua(user_agent: Option<&str>, os_version: &str, browser_version: &str) -> (ua: String)
    ensures
        ua@ == match user_agent {
            Some(u) => u@,
            None => default_web_ua_spec(os_version@, browser_version@),
        },
{
    match user_agent {
        Some(u) => String::from_str(u),
        None => {
            let mut s = String::from_str("Mozilla/5.0 ");
            push_str(&mut s, os_version);
            push_str(&mut s, " AppleWebKit/537.36 (KHTML, like Gecko) ");
            push_str(&mut s, browser_version);
            push_str(&mut s, " Safari/537.36");
            s
        },
    }
}

/// `buvid3`, `buvid4` and `b_nut` of the store, where all three are set.
pub fn existing_buvids(cookies: &CookiesData) -> (r: Option<(String, String, String)>)
    requires
        cookies.wf(),
    ensures
        match r {
            Some((a, b, c)) => cookies@.contains_key("buvid3"@) && cookies@.contains_key("buvid4"@)
                && cookies@.contains_key("b_nut"@) && a@ == cookies@["buvid3"@] && b@
                == cookies@["buvid4"@] && c@ == cookies@["b_nut"@],
            None => !(cookies@.contains_key("buvid3"@) && cookies@.contains_key("buvid4"@)
                && cookies@.contains_key("b_nut"@)),
        },
{
    let a = cookies.get("buvid3");
    let b = cookies.get("buvid4");
    let c = cookies.get("b_nut");
    match (a, b, c) {
        (Some(a), Some(b), Some(c)) => Some((a, b, c)),
        _ => None,
    }
}

/// Whether the store holds a `bili_ticket` whose expiry, a whole number of
/// seconds, is after `now_secs`.
pub open spec fn ticket_still_valid(m: Map<Seq<char>, Seq<char>>, now_secs: i64) -> bool {
    &&& m.contains_key("bili_ticket"@)
    &&& m.contains_key("bili_ticket_expires"@)
    &&& match parse_i64_spec(m["bili_ticket_expires"@]) {
        Some(x) => now_secs < x,
        None => false,
    }
}

/// `bili_ticket` and its expiry from the store, where still valid at `now_secs`.
pub fn existing_ticket(cookies: &CookiesData, now_secs: i64) -> (r: Option<(String, String)>)
    requires
        cookies.wf(),
    ensures
        r is Some <==> ticket_still_valid(cookies@, now_secs),
        r matches Some((t, e)) ==> t@ == cookies@["bili_ticket"@] && e@ == cookies@["bili_ticket_expires"@],
{
    let t = cookies.get("bili_ticket");
    let e = cookies.get("bili_ticket_expires");
    match (t, e) {
        (Some(t), Some(e)) => match parse_i64(e.as_str()) {
            Some(x) => if now_secs < x {
                Some((t, e))
            } else {
                None
            },
            None => None,
        },
        _ => None,
    }
}

/// Value of cookie `key`, or `default` where it is not set.
pub fn cookie_or(cookies: &CookiesData, key: &str, default: &str) -> (v: String)
    requires
        cookies.wf(),
    ensures
        v@ == if cookies@.contains_key(key@) { cookies@[key@] } else { default@ },
{
    match cookies.get(key) {
        Some(v) => v,
        None => String::from_str(default),
    }
}

/// The device cookies of a new browser session.
pub struct WebCookieValues {
    pub buvid3: String,
    pub buvid4: String,
    pub b_nut: String,
    pub buvid_fp: String,
    pub uuid: String,
    pub bili_ticket: String,
    pub bili_ticket_expires: String,
    pub msource: String,
    pub device_fingerprint: String,
}

/// Device identifiers a new browser session takes where the cookies do not
/// already carry them, as the device-identity service handed them out.
pub struct FreshIds {
    pub buvids: (String, String, String),
    pub buvid_fp: String,
    pub uuid: String,
    pub bili_ticket: (String, String),
    pub device_fingerprint: String,
}

/// Value of `key` in `m`, or `default` where it is not set.
pub open spec fn kept_or(m: Map<Seq<char>, Seq<char>>, key: Seq<char>, default: Seq<char>) -> Seq<char> {
    if m.contains_key(key) { m[key] } else { default }
}

/// The device cookies of a browser session made on `cookies` at `now_secs`:
/// the three browser ids where all three are set, else the fresh ones; each
/// single id where set, else the fresh one; the ticket and its expiry where
/// still valid, else the fresh pair; `msource` where set, else `bilibiliapp`.
pub fn web_values(cookies: &CookiesData, fresh: FreshIds, now_secs: i64) -> (v: WebCookieValues)
    requires
        cookies.wf(),
    ensures
        ({
            let m = cookies@;
            let all3 = m.contains_key("buvid3"@) && m.contains_key("buvid4"@) && m.contains_key("b_nut"@);
            &&& v.buvid3@ == (if all3 { m["buvid3"@] } else { fresh.buvids.0@ })
            &&& v.buvid4@ == (if all3 { m["buvid4"@] } else { fresh.buvids.1@ })
            &&& v.b_nut@ == (if all3 { m["b_nut"@] } else { fresh.buvids.2@ })
            &&& v.buvid_fp@ == kept_or(m, "buvid_fp"@, fresh.buvid_fp@)
            &&& v.uuid@ == kept_or(m, "_uuid"@, fresh.uuid@)
            &&& v.bili_ticket@ == (if ticket_still_valid(m, now_secs) { m["bili_ticket"@] } else { fresh.bili_ticket.0@ })
            &&& v.bili_ticket_expires@ == (if ticket_still_valid(m, now_secs) {
                m["bili_ticket_expires"@]
            } else {
                fresh.bili_ticket.1@
            })
            &&& v.msource@ == kept_or(m, "msource"@, "bilibiliapp"@)
            &&& v.device_fingerprint@ == kept_or(m, "deviceFingerprint"@, fresh.device_fingerprint@)
        }),
{
    let FreshIds { buvids, buvid_fp, uuid, bili_ticket, device_fingerprint } = fresh;
    let (buvid3, buvid4, b_nut) = match existing_buvids(cookies) {
        Some(t) => t,
        None => buvids,
    };
    let (ticket, expires) = match existing_ticket(cookies, now_secs) {
        Some(t) => t,
        None => bili_ticket,
    };
    WebCookieValues {
        buvid3,
        buvid4,
        b_nut,
        buvid_fp: cookie_or(cookies, "buvid_fp", buvid_fp.as_str()),
        uuid: cookie_or(cookies, "_uuid", uuid.as_str()),
        bili_ticket: ticket,
        bili_ticket_expires: expires,
        msource: cookie_or(cookies, "msource", "bilibiliapp"),
        device_fingerprint: cookie_or(cookies, "deviceFingerprint", device_fingerprint.as_str()),
    }
}

/// Every cookie a new browser session sets, in order.
pub open spec fn web_cookie_pairs(v: WebCookieValues, fe_sign: Seq<char>) -> Entries {
    seq![
        ("buvid3"@, v.buvid3@),
        ("buvid4"@, v.buvid4@),
        ("b_nut"@, v.b_nut@),
        ("buvid_fp"@, v.buvid_fp@),
        ("_uuid"@, v.uuid@),
        ("bili_ticket"@, v.bili_ticket@),
        ("bili_ticket_expires"@, v.bili_ticket_expires@),
        ("header_theme_version"@, "CLOSE"@),
        ("enable_web_push"@, "DISABLE"@),
        ("enable_feed_channel"@, "ENABLE"@),
        ("msource"@, v.msource@),
        ("deviceFingerprint"@, v.device_fingerprint@),
        ("feSign"@, fe_sign),
        ("screenInfo"@, SCREEN_INFO@),
        ("kfcFrom"@, "mall_home_searchhis"@),
        ("from"@, "mall_search_discovery"@),
        ("kfcSource"@, "bilibiliapp"@),
        ("mSource"@, "bilibiliapp"@),
    ]
}

/// Names of the cookies a browser session sets, in order.
pub open spec fn web_cookie_names() -> Seq<Seq<char>> {
    seq![
        "buvid3"@, "buvid4"@, "b_nut"@, "buvid_fp"@, "_uuid"@, "bili_ticket"@, "bili_ticket_expires"@,
        "header_theme_version"@, "enable_web_push"@, "enable_feed_channel"@, "msource"@, "deviceFingerprint"@,
        "feSign"@, "screenInfo"@, "kfcFrom"@, "from"@, "kfcSource"@, "mSource"@,
    ]
}

/// A browser session made on the cookies `m` with device cookies `v` and
/// signature `fe` holds each device cookie as `v` has it, the fixed page
/// cookies, and every other cookie of `m` as it was.
pub proof fn law_browser_session_cookies(m: Map<Seq<char>, Seq<char>>, v: WebCookieValues, fe: Seq<char>, key: Seq<char>)
    ensures
        ({
            let r = insert_all(m, web_cookie_pairs(v, fe));
            &&& r["buvid3"@] == v.buvid3@ && r["buvid4"@] == v.buvid4@ && r["b_nut"@] == v.b_nut@
            &&& r["buvid_fp"@] == v.buvid_fp@ && r["_uuid"@] == v.uuid@
            &&& r["bili_ticket"@] == v.bili_ticket@ && r["bili_ticket_expires"@] == v.bili_ticket_expires@
            &&& r["msource"@] == v.msource@ && r["deviceFingerprint"@] == v.device_fingerprint@
            &&& r["feSign"@] == fe
            &&& r["header_theme_version"@] == "CLOSE"@ && r["enable_web_push"@] == "DISABLE"@
            &&& r["enable_feed_channel"@] == "ENABLE"@ && r["screenInfo"@] == SCREEN_INFO@
            &&& r["kfcFrom"@] == "mall_home_searchhis"@ && r["from"@] == "mall_search_discovery"@
            &&& r["kfcSource"@] == "bilibiliapp"@ && r["mSource"@] == "bilibiliapp"@
            &&& forall|n: Seq<char>| #[trigger] web_cookie_names().contains(n) ==> r.contains_key(n)
            &&& !web_cookie_names().contains(key) ==> (r.contains_key(key) == m.contains_key(key) && (m.contains_key(key)
                ==> r[key] == m[key]))
        }),
{
    let p = web_cookie_pairs(v, fe);
    reveal_strlit("buvid3");
    reveal_strlit("buvid4");
    reveal_strlit("b_nut");
    reveal_strlit("buvid_fp");
    reveal_strlit("_uuid");
    reveal_strlit("bili_ticket");
    reveal_strlit("bili_ticket_expires");
    reveal_strlit("header_theme_version");
    reveal_strlit("enable_web_push");
    reveal_strlit("enable_feed_channel");
    reveal_strlit("msource");
    reveal_strlit("deviceFingerprint");
    reveal_strlit("feSign");
    reveal_strlit("screenInfo");
    reveal_strlit("kfcFrom");
    reveal_strlit("from");
    reveal_strlit("kfcSource");
    reveal_strlit("mSource");
    reveal_strlit("CLOSE");
    reveal_strlit("DISABLE");
    reveal_strlit("ENABLE");
    reveal_strlit("mall_home_searchhis");
    reveal_strlit("mall_search_discovery");
    reveal_strlit("bilibiliapp");
    assert forall|j: int, i: int| 0 <= j < i < 18 implies #[trigger] p[i].0 != #[trigger] p[j].0 by {
        assert("buvid3"@.len() == 6);
        assert("buvid4"@.len() == 6);
        assert("b_nut"@.len() == 5);
        assert("buvid_fp"@.len() == 8);
        assert("_uuid"@.len() == 5);
        assert("bili_ticket"@.len() == 11);
        assert("bili_ticket_expires"@.len() == 19);
        assert("header_theme_version"@.len() == 20);
        assert("enable_web_push"@.len() == 15);
        assert("enable_feed_channel"@.len() == 19);
        assert("msource"@.len() == 7);
        assert("deviceFingerprint"@.len() == 17);
        assert("feSign"@.len() == 6);
        assert("screenInfo"@.len() == 10);
        assert("kfcFrom"@.len() == 7);
        assert("from"@.len() == 4);
        assert("kfcSource"@.len() == 9);
        assert("mSource"@.len() == 7);
        assert("buvid3"@[5] != "buvid4"@[5]);
        assert("buvid3"@[0] != "feSign"@[0]);
        assert("buvid4"@[0] != "feSign"@[0]);
        assert("b_nut"@[0] != "_uuid"@[0]);
        assert("bili_ticket_expires"@[0] != "enable_feed_channel"@[0]);
        assert("msource"@[0] != "kfcFrom"@[0]);
        assert("msource"@[1] != "mSource"@[1]);
        assert("kfcFrom"@[0] != "mSource"@[0]);
        assert(0 <= i < 18 ==> i == 0 || i == 1 || i == 2 || i == 3 || i == 4 || i == 5 || i == 6 || i == 7 || i == 8
            || i == 9 || i == 10 || i == 11 || i == 12 || i == 13 || i == 14 || i == 15 || i == 16 || i == 17);
        assert(0 <= j < 18 ==> j == 0 || j == 1 || j == 2 || j == 3 || j == 4 || j == 5 || j == 6 || j == 7 || j == 8
            || j == 9 || j == 10 || j == 11 || j == 12 || j == 13 || j == 14 || j == 15 || j == 16 || j == 17);
    }
    assert forall|n: Seq<char>| #[trigger] web_cookie_names().contains(n) implies insert_all(m, p).contains_key(n) by {
        let j = choose|j: int| 0 <= j < 18 && web_cookie_names()[j] == n;
        assert(p[j].0 == n);
        lemma_insert_all_at(m, p, j);
    }
    lemma_insert_all_at(m, p, 0);
    lemma_insert_all_at(m, p, 1);
    lemma_insert_all_at(m, p, 2);
    lemma_insert_all_at(m, p, 3);
    lemma_insert_all_at(m, p, 4);
    lemma_insert_all_at(m, p, 5);
    lemma_insert_all_at(m, p, 6);
    lemma_insert_all_at(m, p, 7);
    lemma_insert_all_at(m, p, 8);
    lemma_insert_all_at(m, p, 9);
    lemma_insert_all_at(m, p, 10);
    lemma_insert_all_at(m, p, 11);
    lemma_insert_all_at(m, p, 12);
    lemma_insert_all_at(m, p, 13);
    lemma_insert_all_at(m, p, 14);
    lemma_insert_all_at(m, p, 15);
    lemma_insert_all_at(m, p, 16);
    lemma_insert_all_at(m, p, 17);
    if !web_cookie_names().contains(key) {
        assert forall|i: int| 0 <= i < 18 implies p[i].0 != key by {
            assert(p[i].0 == web_cookie_names()[i]);
        }
        lemma_insert_all_other(m, p, key);
    }
}

/// In `insert_all`, the value of a name is that of its last pair.
proof fn lemma_insert_all_at(m: Map<Seq<char>, Seq<char>>, pairs: Entries, j: int)
    requires
        0 <= j < pairs.len(),
        forall|i: int| j < i < pairs.len() ==> pairs[i].0 != pairs[j].0,
    ensures
        insert_all(m, pairs).contains_key(pairs[j].0),
        insert_all(m, pairs)[pairs[j].0] == pairs[j].1,
    decreases pairs.len(),
{
    if j < pairs.len() - 1 {
        let d = pairs.drop_last();
        assert forall|i: int| j < i < d.len() implies d[i].0 != d[j].0 by {
            assert(d[i] == pairs[i] && d[j] == pairs[j]);
        }
        lemma_insert_all_at(m, d, j);
        assert(d[j] == pairs[j]);
    }
}

/// `insert_all` leaves alone a name none of its pairs has.
proof fn lemma_insert_all_other(m: Map<Seq<char>, Seq<char>>, pairs: Entries, k: Seq<char>)
    requires
        forall|i: int| 0 <= i < pairs.len() ==> pairs[i].0 != k,
    ensures
        insert_all(m, pairs).contains_key(k) == m.contains_key(k),
        m.contains_key(k) ==> insert_all(m, pairs)[k] == m[k],
    decreases pairs.len(),
{
    if pairs.len() > 0 {
        let d = pairs.drop_last();
        assert forall|i: int| 0 <= i < d.len() implies d[i].0 != k by {
            assert(d[i] == pairs[i]);
        }
        lemma_insert_all_other(m, d, k);
    }
}

/// A `feSign` of the web view with some 32-hex-digit canvas and WebGL fingerprints.
pub open spec fn is_web_fe_sign(s: Seq<char>) -> bool {
    exists|canvas: Seq<char>, webgl: Seq<char>|
        canvas.len() == 32 && webgl.len() == 32 && (forall|i: int| 0 <= i < 32 ==> is_lower_hex_digit(
            #[trigger] canvas[i],
        )) && (forall|i: int| 0 <= i < 32 ==> is_lower_hex_digit(#[trigger] webgl[i])) && s
            == spec_fe_sign(WEBVIEW_UA@, canvas, webgl)
}

fn push_pair(h: &mut Vec<(String, String)>, name: &str, value: &str)
    ensures
        final(h)@.map_values(|p: (String, String)| pair_view(p)) == old(h)@.map_values(
            |p: (String, String)| pair_view(p),
        ).push((name@, value@)),
{
    h.push((String::from_str(name), String::from_str(value)));
    assert(h@.map_values(|p: (String, String)| pair_view(p)) =~= old(h)@.map_values(
        |p: (String, String)| pair_view(p),
    ).push((name@, value@)));
}

impl CookieManager {
    /// A browser session: sets the device cookies `values`, a fresh
    /// `feSign` and the fixed page cookies on top of `cookies`.
    pub fn web_session(
        client: Arc<reqwest::Client>,
        h2_client: Arc<reqwest::Client>,
        cookies: CookiesData,
        ua: String,
        browser_version: String,
        os_version: String,
        values: WebCookieValues,
    ) -> (r: Self)
        requires
            cookies.wf(),
        ensures
            r.wf(),
            r.create_type == 0,
            !r.has_app_data(),
            r.web_ua() == Some(ua@),
            exists|fe: Seq<char>|
                is_web_fe_sign(fe) && r.cookies.entries() == upsert_all(
                    cookies.entries(),
                    web_cookie_pairs(values, fe),
                ) && r.cookies@ == insert_all(cookies@, web_cookie_pairs(values, fe)),
            r.web_data matches Some(w) && w.browser_version@ == browser_version@ && w.os_version@
                == os_version@ && w.buvid3@ == values.buvid3@ && w.buvid4@ == values.buvid4@
                && w.b_nut@ == values.b_nut@ && w.buvid_fp@ == values.buvid_fp@ && w._uuid@
                == values.uuid@ && w.bili_ticket@ == values.bili_ticket@
                && w.bili_ticket_expires@ == values.bili_ticket_expires@ && w.msource@
                == values.msource@,
    {
        let canvas_fp = random_hex_32();
        let webgl_fp = random_hex_32();
        let fe_sign = get_fe_sign(WEBVIEW_UA, canvas_fp.as_str(), webgl_fp.as_str());
        let mut pairs: Vec<(String, String)> = Vec::new();
        push_pair(&mut pairs, "buvid3", values.buvid3.as_str());
        push_pair(&mut pairs, "buvid4", values.buvid4.as_str());
        push_pair(&mut pairs, "b_nut", values.b_nut.as_str());
        push_pair(&mut pairs, "buvid_fp", values.buvid_fp.as_str());
        push_pair(&mut pairs, "_uuid", values.uuid.as_str());
        push_pair(&mut pairs, "bili_ticket", values.bili_ticket.as_str());
        push_pair(&mut pairs, "bili_ticket_expires", values.bili_ticket_expires.as_str());
        push_pair(&mut pairs, "header_theme_version", "CLOSE");
        push_pair(&mut pairs, "enable_web_push", "DISABLE");
        push_pair(&mut pairs, "enable_feed_channel", "ENABLE");
        push_pair(&mut pairs, "msource", values.msource.as_str());
        push_pair(&mut pairs, "deviceFingerprint", values.device_fingerprint.as_str());
        push_pair(&mut pairs, "feSign", fe_sign.as_str());
        push_pair(&mut pairs, "screenInfo", SCREEN_INFO);
        push_pair(&mut pairs, "kfcFrom", "mall_home_searchhis");
        push_pair(&mut pairs, "from", "mall_search_discovery");
        push_pair(&mut pairs, "kfcSource", "bilibiliapp");
        push_pair(&mut pairs, "mSource", "bilibiliapp");
        assert(pairs@.map_values(|p: (String, String)| pair_view(p)) =~= web_cookie_pairs(
            values,
            fe_sign@,
        ));
        let mut cookies = cookies;
        let ghost c0 = cookies;
        cookies.insert_pairs(&pairs);
        proof {
            assert(is_web_fe_sign(fe_sign@));
        }
        let web_data = WebData {
            browser_version,
            os_version,
            ua,
            buvid3: values.buvid3,
            buvid4: values.buvid4,
            b_nut: values.b_nut,
            buvid_fp: values.buvid_fp,
            _uuid: values.uuid,
            bili_ticket: values.bili_ticket,
            bili_ticket_expires: values.bili_ticket_expires,
            msource: values.msource,
        };
        CookieManager {
            client,
            h2_client,
            create_type: 0,
            app_data: None,
            web_data: Some(web_data),
            cookies,
        }
    }
}

/// A cookie that survives being written out and read back: its name has
/// no `=` or `;` and does not start with whitespace, its value is not
/// empty, has no `;` and does not end with whitespace.
pub open spec fn cookie_text_safe(k: Seq<char>, v: Seq<char>) -> bool {
    &&& forall|i: int| 0 <= i < k.len() ==> #[trigger] k[i] != '=' && k[i] != ';'
    &&& forall|i: int| 0 <= i < v.len() ==> #[trigger] v[i] != ';'
    &&& v.len() > 0
    &&& k.len() > 0 ==> !crate::text::is_ws(k[0])
    &&& !crate::text::is_ws(v.last())
}

proof fn lemma_first_index_prefix(x: Seq<char>, z: Seq<char>, c: char)
    requires
        first_index(x, c) is Some,
    ensures
        first_index(x + z, c) == first_index(x, c),
{
    crate::text::lemma_first_index(x, c);
    let i = first_index(x, c).unwrap() as int;
    assert forall|j: int| 0 <= j < i implies (x + z)[j] != c by {
        assert((x + z)[j] == x[j]);
    }
    crate::text::lemma_first_index_char(x + z, c, i);
}

/// Splitting at a `;` splits the two sides apart.
proof fn lemma_split_join(x: Seq<char>, y: Seq<char>)
    ensures
        split_on(x + seq![';'] + y, ';') == split_on(x, ';') + split_on(y, ';'),
    decreases x.len(),
{
    let s = x + seq![';'] + y;
    crate::text::lemma_first_index(x, ';');
    match first_index(x, ';') {
        None => {
            assert forall|j: int| 0 <= j < x.len() implies s[j] != ';' by {
                assert(s[j] == x[j]);
            }
            crate::text::lemma_first_index_char(s, ';', x.len() as int);
            assert(s.subrange(0, x.len() as int) =~= x);
            assert(s.subrange((x.len() + 1) as int, s.len() as int) =~= y);
            assert(split_on(x, ';') == seq![x]);
        },
        Some(i) => {
            lemma_first_index_prefix(x, seq![';'] + y, ';');
            assert(x + seq![';'] + y =~= x + (seq![';'] + y));
            let rest = x.subrange((i + 1) as int, x.len() as int);
            assert(s.subrange(0, i as int) =~= x.subrange(0, i as int));
            assert(s.subrange((i + 1) as int, s.len() as int) =~= rest + seq![';'] + y);
            lemma_split_join(rest, y);
        },
    }
}

proof fn lemma_no_semicolon(x: Seq<char>)
    requires
        forall|j: int| 0 <= j < x.len() ==> x[j] != ';',
    ensures
        split_on(x, ';') == seq![x],
{
    crate::text::lemma_first_index_none(x, ';');
}

/// `k=v` of one cookie.
pub open spec fn cookie_piece(p: (Seq<char>, Seq<char>)) -> Seq<char> {
    p.0 + "="@ + p.1
}

proof fn lemma_piece_reads_back(k: Seq<char>, v: Seq<char>, lead: bool)
    requires
        cookie_text_safe(k, v),
    ensures
        cookie_pair(if lead { seq![' '] + cookie_piece((k, v)) } else { cookie_piece((k, v)) }) == Some((k, v)),
        forall|j: int| 0 <= j < cookie_piece((k, v)).len() ==> #[trigger] cookie_piece((k, v))[j] != ';',
{
    reveal_strlit("=");
    let t = cookie_piece((k, v));
    assert(t =~= k + seq!['='] + v);
    assert(t[k.len() as int] == '=');
    assert(!crate::text::is_ws(t[0])) by {
        if k.len() > 0 {
            assert(t[0] == k[0]);
        }
    }
    assert(t.last() == v.last());
    assert(crate::text::trim_start(t) == t);
    assert(crate::text::trim_end(t) == t);
    if lead {
        let u = seq![' '] + t;
        assert(u.drop_first() =~= t);
        assert(crate::text::trim_start(u) == crate::text::trim_start(t));
    }
    assert(crate::text::trim(t) == t);
    assert forall|j: int| 0 <= j < k.len() implies t[j] != '=' by {
        assert(t[j] == k[j]);
    }
    crate::text::lemma_first_index_char(t, '=', k.len() as int);
    assert(t.subrange(0, k.len() as int) =~= k);
    assert(t.subrange((k.len() + 1) as int, t.len() as int) =~= v);
    assert forall|j: int| 0 <= j < t.len() implies #[trigger] t[j] != ';' by {
        if j < k.len() {
            assert(t[j] == k[j]);
        } else if j > k.len() {
            assert(t[j] == v[j - k.len() - 1]);
        }
    }
}

/// The pieces of the saved text before its final separator.
proof fn lemma_saved_pieces(e: Entries)
    requires
        e.len() > 0,
        forall|i: int| 0 <= i < e.len() ==> cookie_text_safe(#[trigger] e[i].0, e[i].1),
    ensures
        pairs_of(split_on(cookie_list_text(e.drop_last()) + cookie_piece(e.last()), ';')) == e,
    decreases e.len(),
{
    let last = e.last();
    assert(cookie_text_safe(e[e.len() - 1].0, e[e.len() - 1].1));
    lemma_piece_reads_back(last.0, last.1, false);
    lemma_piece_reads_back(last.0, last.1, true);
    let d = e.drop_last();
    if d.len() == 0 {
        assert(cookie_list_text(d) =~= Seq::<char>::empty());
        assert(cookie_list_text(d) + cookie_piece(last) =~= cookie_piece(last));
        lemma_no_semicolon(cookie_piece(last));
        let pieces = seq![cookie_piece(last)];
        assert(pieces.drop_last() =~= Seq::<Seq<char>>::empty());
        assert(pieces.last() == cookie_piece(last));
        assert(pairs_of(Seq::<Seq<char>>::empty()) == Seq::<(Seq<char>, Seq<char>)>::empty());
        assert(pairs_of(pieces) == pairs_of(pieces.drop_last()).push(last));
        assert(e =~= seq![last]);
    } else {
        assert forall|i: int| 0 <= i < d.len() implies cookie_text_safe(#[trigger] d[i].0, d[i].1) by {
            assert(d[i] == e[i]);
        }
        lemma_saved_pieces(d);
        let x = cookie_list_text(d.drop_last()) + cookie_piece(d.last());
        let y = seq![' '] + cookie_piece(last);
        reveal_strlit("; ");
        reveal_strlit("=");
        assert(cookie_list_text(d) =~= x + seq![';'] + seq![' ']);
        assert(cookie_list_text(d) + cookie_piece(last) =~= x + seq![';'] + y);
        lemma_split_join(x, y);
        assert forall|j: int| 0 <= j < y.len() implies y[j] != ';' by {
            if j > 0 {
                assert(y[j] == cookie_piece(last)[j - 1]);
            }
        }
        lemma_no_semicolon(y);
        let pieces = split_on(x, ';') + seq![y];
        assert(pieces.drop_last() =~= split_on(x, ';'));
        assert(pieces.last() == y);
        assert(split_on(cookie_list_text(d) + cookie_piece(last), ';') == pieces);
        assert(pairs_of(pieces) == pairs_of(pieces.drop_last()).push(last));
        assert(d.push(last) =~= e);
    }
}

/// What `get_all_cookies` writes, a cookie string parser reads back as the
/// same cookies in the same order, for cookies that survive the text.
pub proof fn law_saved_cookies_read_back(e: Entries)
    requires
        forall|i: int| 0 <= i < e.len() ==> cookie_text_safe(#[trigger] e[i].0, e[i].1),
    ensures
        cookie_pairs(cookie_list_text(e)) == e,
{
    reveal_strlit("; ");
    if e.len() == 0 {
        assert(cookie_list_text(e) =~= Seq::<char>::empty());
        assert(split_on(Seq::<char>::empty(), ';') == seq![Seq::<char>::empty()]) by {
            lemma_no_semicolon(Seq::<char>::empty());
        }
        assert(crate::text::trim(Seq::<char>::empty()) =~= Seq::<char>::empty());
        crate::text::lemma_first_index_none(Seq::<char>::empty(), '=');
        assert(cookie_pair(Seq::<char>::empty()) is None);
        let pieces = seq![Seq::<char>::empty()];
        assert(pieces.drop_last() =~= Seq::<Seq<char>>::empty());
        assert(pieces.last() == Seq::<char>::empty());
        assert(pairs_of(pieces) == pairs_of(pieces.drop_last()));
        assert(pairs_of(Seq::<Seq<char>>::empty()) == Seq::<(Seq<char>, Seq<char>)>::empty());
    } else {
        lemma_saved_pieces(e);
        let x = cookie_list_text(e.drop_last()) + cookie_piece(e.last());
        reveal_strlit("=");
        assert(cookie_list_text(e) =~= x + seq![';'] + seq![' ']);
        lemma_split_join(x, seq![' ']);
        lemma_no_semicolon(seq![' ']);
        let pieces = split_on(x, ';') + seq![seq![' ']];
        assert(pieces.drop_last() =~= split_on(x, ';'));
        assert(pieces.last() == seq![' ']);
        assert(crate::text::is_ws(' '));
        assert(seq![' '].drop_first() =~= Seq::<char>::empty());
        assert(crate::text::trim_start(Seq::<char>::empty()) == Seq::<char>::empty());
        assert(crate::text::trim_start(seq![' ']) =~= Seq::<char>::empty());
        assert(crate::text::trim_end(Seq::<char>::empty()) == Seq::<char>::empty());
        assert(crate::text::trim(seq![' ']) =~= Seq::<char>::empty());
        crate::text::lemma_first_index_none(Seq::<char>::empty(), '=');
        assert(cookie_pair(seq![' ']) is None);
        assert(split_on(cookie_list_text(e), ';') == pieces);
        assert(pairs_of(pieces) == pairs_of(pieces.drop_last()));
    }
}

} // verus!
