//! Notification settings and the requests that deliver a notification on
//! each configured channel.

use vstd::prelude::*;
use crate::taskmanager::{TaskManagerImpl, TaskRequest, TaskMessage, PushRequest, PushType, TaskKind, registers};
use crate::json::{JsonValue, JsonView, json_view, fields_view, push_field, str_value};
use crate::text::{push_str, chars_of, string_of, split_ranges, find_char, split_on, first_index, lemma_first_index, decimal};

verus! {

/// Gotify server settings.
pub struct GotifyConfig {
    pub gotify_url: String,
    pub gotify_token: String,
}

/// Mail settings.
pub struct SmtpConfig {
    pub smtp_server: String,
    pub smtp_port: String,
    pub smtp_username: String,
    pub smtp_password: String,
    pub smtp_from: String,
    pub smtp_to: String,
}

/// Push tokens of every channel, and whether pushing is on.
pub struct PushConfig {
    pub enabled: bool,
    pub bark_token: String,
    pub pushplus_token: String,
    pub fangtang_token: String,
    pub dingtalk_token: String,
    pub wechat_token: String,
    pub gotify_config: GotifyConfig,
    pub smtp_config: SmtpConfig,
}

impl GotifyConfig {
    pub fn new() -> (r: Self)
        ensures
            r.gotify_url@ == Seq::<char>::empty(),
            r.gotify_token@ == Seq::<char>::empty(),
    {
        GotifyConfig { gotify_url: String::new(), gotify_token: String::new() }
    }

    pub fn duplicate(&self) -> (r: Self)
        ensures
            r == *self,
    {
        GotifyConfig { gotify_url: self.gotify_url.clone(), gotify_token: self.gotify_token.clone() }
    }
}

impl SmtpConfig {
    pub fn new() -> (r: Self)
        ensures
            r.smtp_server@ == Seq::<char>::empty(),
            r.smtp_port@ == Seq::<char>::empty(),
            r.smtp_username@ == Seq::<char>::empty(),
            r.smtp_password@ == Seq::<char>::empty(),
            r.smtp_from@ == Seq::<char>::empty(),
            r.smtp_to@ == Seq::<char>::empty(),
    {
        SmtpConfig {
            smtp_server: String::new(),
            smtp_port: String::new(),
            smtp_username: String::new(),
            smtp_password: String::new(),
            smtp_from: String::new(),
            smtp_to: String::new(),
        }
    }

    pub fn duplicate(&self) -> (r: Self)
        ensures
            r == *self,
    {
        SmtpConfig {
            smtp_server: self.smtp_server.clone(),
            smtp_port: self.smtp_port.clone(),
            smtp_username: self.smtp_username.clone(),
            smtp_password: self.smtp_password.clone(),
            smtp_from: self.smtp_from.clone(),
            smtp_to: self.smtp_to.clone(),
        }
    }
}

/// A notification channel.
#[derive(PartialEq, Eq, Structural, Clone, Copy, Debug)]
pub enum PushChannel {
    Bark,
    PushPlus,
    Fangtang,
    Dingtalk,
    WeChat,
    Smtp,
    Gotify,
}

/// One HTTP POST that delivers a notification.
pub struct PushCall {
    pub channel: PushChannel,
    pub url: String,
    pub headers: Vec<(String, String)>,
    pub body: Vec<(String, JsonValue)>,
}

/// Channels with settings, in the order they are tried.
#[verifier::opaque]
pub open spec fn active_channels_spec(c: PushConfig) -> Seq<PushChannel> {
    (if c.bark_token@.len() > 0 { seq![PushChannel::Bark] } else { Seq::empty() })
        + (if c.pushplus_token@.len() > 0 { seq![PushChannel::PushPlus] } else { Seq::empty() })
        + (if c.fangtang_token@.len() > 0 { seq![PushChannel::Fangtang] } else { Seq::empty() })
        + (if c.dingtalk_token@.len() > 0 { seq![PushChannel::Dingtalk] } else { Seq::empty() })
        + (if c.wechat_token@.len() > 0 { seq![PushChannel::WeChat] } else { Seq::empty() })
        + (if c.smtp_config.smtp_server@.len() > 0 { seq![PushChannel::Smtp] } else { Seq::empty() })
        + (if c.gotify_config.gotify_token@.len() > 0 { seq![PushChannel::Gotify] } else { Seq::empty() })
}

/// Name of a channel in failure reports.
pub open spec fn channel_label(ch: PushChannel) -> Seq<char> {
    match ch {
        PushChannel::Bark => "Bark"@,
        PushChannel::PushPlus => "PushPlus"@,
        PushChannel::Fangtang => "Fangtang"@,
        PushChannel::Dingtalk => "Dingtalk"@,
        PushChannel::WeChat => "WeChat"@,
        PushChannel::Smtp => "SMTP"@,
        PushChannel::Gotify => "Gotify"@,
    }
}

pub fn channel_name(ch: PushChannel) -> (s: &'static str)
    ensures
        s@ == channel_label(ch),
{
    match ch {
        PushChannel::Bark => "Bark",
        PushChannel::PushPlus => "PushPlus",
        PushChannel::Fangtang => "Fangtang",
        PushChannel::Dingtalk => "Dingtalk",
        PushChannel::WeChat => "WeChat",
        PushChannel::Smtp => "SMTP",
        PushChannel::Gotify => "Gotify",
    }
}

/// Jump link of a notification where none is given.
pub open spec fn default_jump_url() -> Seq<char> {
    "bilibili://mall/web?url=https://www.bilibili.com"@
}

/// Whether `pat` occurs in `s`.
pub open spec fn contains_seq(s: Seq<char>, pat: Seq<char>) -> bool {
    exists|i: int| 0 <= i && i + pat.len() <= s.len() && #[trigger] s.subrange(i, i + pat.len()) == pat
}

/// `s.contains(pat)`.
pub fn contains_str(s: &str, pat: &str) -> (b: bool)
    ensures
        b == contains_seq(s@, pat@),
{
    let v = chars_of(s);
    let p = chars_of(pat);
    let n = v.len();
    let m = p.len();
    if m > n {
        assert forall|i: int| 0 <= i && i + p@.len() <= v@.len() implies #[trigger] v@.subrange(
            i,
            i + p@.len(),
        ) != p@ by {}
        return false;
    }
    let mut i: usize = 0;
    while i <= n - m
        invariant
            m <= n,
            n == v@.len(),
            m == p@.len(),
            v@ == s@,
            p@ == pat@,
            forall|k: int| 0 <= k < i ==> #[trigger] v@.subrange(k, k + m) != p@,
        decreases n - m + 1 - i,
    {
        let mut j: usize = 0;
        while j < m && v[i + j] == p[j]
            invariant
                i <= n - m,
                m <= n,
                n == v@.len(),
                m == p@.len(),
                j <= m,
                forall|t: int| 0 <= t < j ==> v@[i + t] == p@[t],
            decreases m - j,
        {
            j = j + 1;
        }
        if j == m {
            assert(v@.subrange(i as int, i + m) =~= p@);
            return true;
        }
        assert(v@.subrange(i as int, i + m)[j as int] != p@[j as int]);
        i = i + 1;
    }
    assert forall|k: int| 0 <= k && k + p@.len() <= v@.len() implies #[trigger] v@.subrange(
        k,
        k + p@.len(),
    ) != p@ by {
        assert(k < i);
    }
    false
}

/// Server address of the Gotify settings: `http://` is put in front where
/// the address does not mention `http`.
pub open spec fn gotify_target_spec(url: Seq<char>) -> Seq<char> {
    if contains_seq(url, "http"@) {
        url
    } else {
        "http://"@ + url
    }
}

/// The extra Bark fields `k=v` that follow a `?` in the token, `&`-separated.
pub open spec fn bark_param(piece: Seq<char>) -> Option<(Seq<char>, Seq<char>)> {
    match first_index(piece, '=') {
        Some(p) => if p < piece.len() {
            Some((piece.subrange(0, p as int), piece.subrange((p + 1) as int, piece.len() as int)))
        } else {
            None
        },
        None => None,
    }
}

pub open spec fn bark_params_of(pieces: Seq<Seq<char>>) -> Seq<(Seq<char>, Seq<char>)>
    decreases pieces.len(),
{
    if pieces.len() == 0 {
        Seq::empty()
    } else {
        match bark_param(pieces.last()) {
            Some(p) => bark_params_of(pieces.drop_last()).push(p),
            None => bark_params_of(pieces.drop_last()),
        }
    }
}

pub open spec fn bark_params_spec(token: Seq<char>) -> Seq<(Seq<char>, Seq<char>)> {
    match first_index(token, '?') {
        Some(q) => if q < token.len() {
            bark_params_of(split_on(token.subrange((q + 1) as int, token.len() as int), '&'))
        } else {
            Seq::empty()
        },
        None => Seq::empty(),
    }
}

/// The `k=v` parameters that follow `?` in a Bark token, in order.
pub fn bark_params(token: &str) -> (r: Vec<(String, String)>)
    ensures
        r@.map_values(|p: (String, String)| (p.0@, p.1@)) == bark_params_spec(token@),
{
    let v = chars_of(token);
    let n = v.len();
    assert(v@.subrange(0, n as int) =~= token@);
    let mut out: Vec<(String, String)> = Vec::new();
    match find_char(&v, 0, n, '?') {
        Some(q) => {
            proof {
                lemma_first_index(token@, '?');
            }
            let parts = split_ranges(&v, q + 1, n, '&');
            let ghost pieces = split_on(v@.subrange(q + 1, n as int), '&');
            let mut i: usize = 0;
            while i < parts.len()
                invariant
                    i <= parts@.len(),
                    q < n == v@.len(),
                    pieces == split_on(v@.subrange(q + 1, n as int), '&'),
                    parts@.len() == pieces.len(),
                    forall|k: int|
                        0 <= k < parts@.len() ==> 0 <= (#[trigger] parts@[k]).0 <= parts@[k].1 <= v@.len()
                            && v@.subrange(parts@[k].0 as int, parts@[k].1 as int) == pieces[k],
                    out@.map_values(|p: (String, String)| (p.0@, p.1@)) == bark_params_of(
                        pieces.subrange(0, i as int),
                    ),
                decreases parts@.len() - i,
            {
                let (lo, hi) = parts[i];
                let ghost piece = v@.subrange(lo as int, hi as int);
                let ghost prev = bark_params_of(pieces.subrange(0, i as int));
                assert(pieces.subrange(0, i + 1).drop_last() =~= pieces.subrange(0, i as int));
                match find_char(&v, lo, hi, '=') {
                    Some(p) => {
                        proof {
                            lemma_first_index(piece, '=');
                        }
                        let key = string_of(&v, lo, lo + p);
                        let value = string_of(&v, lo + p + 1, hi);
                        assert(key@ =~= piece.subrange(0, p as int));
                        assert(value@ =~= piece.subrange(p + 1, piece.len() as int));
                        out.push((key, value));
                        assert(prev.push((key@, value@)).drop_last() =~= prev);
                    },
                    None => {},
                }
                assert(out@.map_values(|p: (String, String)| (p.0@, p.1@)) =~= bark_params_of(
                    pieces.subrange(0, i + 1),
                ));
                i = i + 1;
            }
            assert(pieces.subrange(0, parts@.len() as int) =~= pieces);
            assert(v@.subrange(q + 1, n as int) =~= token@.subrange(q + 1, token@.len() as int));
        },
        None => {
            assert(out@.map_values(|p: (String, String)| (p.0@, p.1@)) =~= Seq::<
                (Seq<char>, Seq<char>),
            >::empty());
        },
    }
    out
}

impl PushConfig {
    /// Pushing off, every token empty.
    pub fn new() -> (r: Self)
        ensures
            !r.enabled,
            r.bark_token@ == Seq::<char>::empty(),
            r.pushplus_token@ == Seq::<char>::empty(),
            r.fangtang_token@ == Seq::<char>::empty(),
            r.dingtalk_token@ == Seq::<char>::empty(),
            r.wechat_token@ == Seq::<char>::empty(),
            r.gotify_config.gotify_url@ == Seq::<char>::empty(),
            r.gotify_config.gotify_token@ == Seq::<char>::empty(),
            r.smtp_config.smtp_server@ == Seq::<char>::empty(),
            r.smtp_config.smtp_port@ == Seq::<char>::empty(),
            r.smtp_config.smtp_username@ == Seq::<char>::empty(),
            r.smtp_config.smtp_password@ == Seq::<char>::empty(),
            r.smtp_config.smtp_from@ == Seq::<char>::empty(),
            r.smtp_config.smtp_to@ == Seq::<char>::empty(),
            active_channels_spec(r) == Seq::<PushChannel>::empty(),
    {
        let r = PushConfig {
            enabled: false,
            bark_token: String::new(),
            pushplus_token: String::new(),
            fangtang_token: String::new(),
            dingtalk_token: String::new(),
            wechat_token: String::new(),
            gotify_config: GotifyConfig::new(),
            smtp_config: SmtpConfig::new(),
        };
        proof {
            reveal(active_channels_spec);
        }
        assert(active_channels_spec(r) =~= Seq::<PushChannel>::empty());
        r
    }

    pub fn duplicate(&self) -> (r: Self)
        ensures
            r == *self,
    {
        PushConfig {
            enabled: self.enabled,
            bark_token: self.bark_token.clone(),
            pushplus_token: self.pushplus_token.clone(),
            fangtang_token: self.fangtang_token.clone(),
            dingtalk_token: self.dingtalk_token.clone(),
            wechat_token: self.wechat_token.clone(),
            gotify_config: self.gotify_config.duplicate(),
            smtp_config: self.smtp_config.duplicate(),
        }
    }

    /// The channels with settings, in the order they are tried.
    pub fn active_channels(&self) -> (r: Vec<PushChannel>)
        ensures
            r@ == active_channels_spec(*self),
    {
        let mut r: Vec<PushChannel> = Vec::new();
        add_if(&mut r, !self.bark_token.as_str().is_empty(), PushChannel::Bark);
        add_if(&mut r, !self.pushplus_token.as_str().is_empty(), PushChannel::PushPlus);
        add_if(&mut r, !self.fangtang_token.as_str().is_empty(), PushChannel::Fangtang);
        add_if(&mut r, !self.dingtalk_token.as_str().is_empty(), PushChannel::Dingtalk);
        add_if(&mut r, !self.wechat_token.as_str().is_empty(), PushChannel::WeChat);
        add_if(&mut r, !self.smtp_config.smtp_server.as_str().is_empty(), PushChannel::Smtp);
        add_if(&mut r, !self.gotify_config.gotify_token.as_str().is_empty(), PushChannel::Gotify);
        proof {
            reveal(active_channels_spec);
        }
        assert(r@ =~= active_channels_spec(*self));
        r
    }
}

fn add_if(r: &mut Vec<PushChannel>, b: bool, ch: PushChannel)
    ensures
        final(r)@ == old(r)@ + (if b { seq![ch] } else { Seq::<PushChannel>::empty() }),
{
    if b {
        r.push(ch);
    }
    assert(final(r)@ =~= old(r)@ + (if b { seq![ch] } else { Seq::<PushChannel>::empty() }));
}


/// Position of the field named `k`.
pub open spec fn field_pos(fv: Seq<(Seq<char>, JsonView)>, k: Seq<char>) -> Option<nat>
    decreases fv.len(),
{
    if fv.len() == 0 {
        None
    } else if fv[0].0 == k {
        Some(0)
    } else {
        match field_pos(fv.drop_first(), k) {
            Some(i) => Some(i + 1),
            None => None,
        }
    }
}

proof fn lemma_field_pos_at(fv: Seq<(Seq<char>, JsonView)>, k: Seq<char>, i: int)
    requires
        0 <= i < fv.len(),
        fv[i].0 == k,
        forall|j: int| 0 <= j < i ==> fv[j].0 != k,
    ensures
        field_pos(fv, k) == Some(i as nat),
    decreases i,
{
    if i > 0 {
        lemma_field_pos_at(fv.drop_first(), k, i - 1);
    }
}

proof fn lemma_field_pos_none(fv: Seq<(Seq<char>, JsonView)>, k: Seq<char>)
    requires
        forall|j: int| 0 <= j < fv.len() ==> fv[j].0 != k,
    ensures
        field_pos(fv, k) is None,
    decreases fv.len(),
{
    if fv.len() > 0 {
        lemma_field_pos_none(fv.drop_first(), k);
    }
}

/// `serde_json::Map::insert` on an object: the field is replaced where
/// present, else added.
pub open spec fn set_field(fv: Seq<(Seq<char>, JsonView)>, k: Seq<char>, v: JsonView) -> Seq<(Seq<char>, JsonView)> {
    match field_pos(fv, k) {
        Some(i) => fv.update(i as int, (k, v)),
        None => fv.push((k, v)),
    }
}

/// String fields set one after the other.
pub open spec fn set_str_fields(fv: Seq<(Seq<char>, JsonView)>, ps: Seq<(Seq<char>, Seq<char>)>) -> Seq<(Seq<char>, JsonView)>
    decreases ps.len(),
{
    if ps.len() == 0 {
        fv
    } else {
        set_field(set_str_fields(fv, ps.drop_last()), ps.last().0, JsonView::Str(ps.last().1))
    }
}

proof fn lemma_fields_view_len(s: Seq<(String, JsonValue)>)
    ensures
        fields_view(s).len() == s.len(),
    decreases s.len(),
{
    if s.len() > 0 {
        lemma_fields_view_len(s.drop_last());
    }
}

proof fn lemma_fields_view_at(s: Seq<(String, JsonValue)>, i: int)
    requires
        0 <= i < s.len(),
    ensures
        fields_view(s).len() == s.len(),
        fields_view(s)[i] == (s[i].0@, json_view(s[i].1)),
    decreases s.len(),
{
    lemma_fields_view_len(s);
    if i < s.len() - 1 {
        lemma_fields_view_at(s.drop_last(), i);
    }
}

proof fn lemma_fields_view_update(s: Seq<(String, JsonValue)>, i: int, x: (String, JsonValue))
    requires
        0 <= i < s.len(),
    ensures
        fields_view(s.update(i, x)) == fields_view(s).update(i, (x.0@, json_view(x.1))),
    decreases s.len(),
{
    lemma_fields_view_len(s);
    lemma_fields_view_len(s.update(i, x));
    if i == s.len() - 1 {
        assert(s.update(i, x).drop_last() =~= s.drop_last());
        assert(fields_view(s.update(i, x)) =~= fields_view(s).update(i, (x.0@, json_view(x.1))));
    } else {
        lemma_fields_view_update(s.drop_last(), i, x);
        assert(s.update(i, x).drop_last() =~= s.drop_last().update(i, x));
        assert(fields_view(s.update(i, x)) =~= fields_view(s).update(i, (x.0@, json_view(x.1))));
    }
}

fn set_str_field(fs: &mut Vec<(String, JsonValue)>, k: &String, v: &String)
    ensures
        fields_view(final(fs)@) == set_field(fields_view(old(fs)@), k@, JsonView::Str(v@)),
{
    let ghost fv = fields_view(fs@);
    proof {
        lemma_fields_view_len(fs@);
    }
    let mut i: usize = 0;
    while i < fs.len()
        invariant
            i <= fs@.len(),
            fs@ == old(fs)@,
            fv == fields_view(fs@),
            fv.len() == fs@.len(),
            forall|j: int| 0 <= j < i ==> fv[j].0 != k@,
        decreases fs@.len() - i,
    {
        proof {
            lemma_fields_view_at(fs@, i as int);
        }
        if fs[i].0 == *k {
            proof {
                lemma_field_pos_at(fv, k@, i as int);
            }
            let ghost before = fs@;
            let item = (k.clone(), JsonValue::Str(v.clone()));
            let ghost gi = item;
            fs.set(i, item);
            proof {
                lemma_fields_view_update(before, i as int, gi);
            }
            return;
        }
        i = i + 1;
    }
    proof {
        lemma_field_pos_none(fv, k@);
    }
    let item = (k.clone(), JsonValue::Str(v.clone()));
    let ghost gi = item;
    fs.push(item);
    assert(fs@.drop_last() =~= old(fs)@);
    assert(fields_view(fs@) == fv.push((gi.0@, json_view(gi.1))));
}

pub open spec fn jstr(s: Seq<char>) -> JsonView {
    JsonView::Str(s)
}

/// Fixed fields of a Bark notification, before the token's own parameters.
pub open spec fn bark_base(title: Seq<char>, message: Seq<char>) -> Seq<(Seq<char>, JsonView)> {
    seq![
        ("title"@, jstr(title)),
        ("body"@, jstr(message)),
        ("level"@, jstr("timeSensitive"@)),
        ("badge"@, JsonView::Int(1)),
        ("icon"@, jstr("https://sr.mihoyo.com/favicon-mi.ico"@)),
        ("group"@, jstr("biliticket"@)),
        ("isArchive"@, JsonView::Int(1)),
    ]
}

/// Text of a DingTalk or WeChat robot message.
pub open spec fn robot_text(title: Seq<char>, message: Seq<char>) -> Seq<char> {
    title + " \n "@ + message
}

pub open spec fn call_url_spec(c: PushConfig, ch: PushChannel) -> Seq<char> {
    match ch {
        PushChannel::Bark => "https://api.day.app/"@ + c.bark_token@,
        PushChannel::PushPlus => "http://www.pushplus.plus/send"@,
        PushChannel::Fangtang => "https://sctapi.ftqq.com/"@ + c.fangtang_token@ + ".send"@,
        PushChannel::Dingtalk => "https://oapi.dingtalk.com/robot/send?access_token="@ + c.dingtalk_token@,
        PushChannel::WeChat => "https://qyapi.weixin.qq.com/cgi-bin/webhook/send?key="@ + c.wechat_token@,
        PushChannel::Smtp => Seq::empty(),
        PushChannel::Gotify => gotify_target_spec(c.gotify_config.gotify_url@) + "/message"@,
    }
}

pub open spec fn call_headers_spec(c: PushConfig, ch: PushChannel) -> Seq<(Seq<char>, Seq<char>)> {
    match ch {
        PushChannel::Dingtalk | PushChannel::WeChat => seq![
            ("Content-Type"@, "application/json"@),
            ("Charset"@, "UTF-8"@),
        ],
        PushChannel::Gotify => seq![
            ("Content-Type"@, "application/json"@),
            ("Authorization"@, "Bearer "@ + c.gotify_config.gotify_token@),
        ],
        _ => Seq::empty(),
    }
}

/// Fields of the JSON body a channel is sent.
pub open spec fn call_body_spec(
    c: PushConfig,
    ch: PushChannel,
    title: Seq<char>,
    message: Seq<char>,
    jump_url: Option<Seq<char>>,
) -> Seq<(Seq<char>, JsonView)> {
    match ch {
        PushChannel::Bark => set_str_fields(bark_base(title, message), bark_params_spec(c.bark_token@)),
        PushChannel::PushPlus => seq![
            ("token"@, jstr(c.pushplus_token@)),
            ("title"@, jstr(title)),
            ("content"@, jstr(message)),
        ],
        PushChannel::Fangtang => seq![
            ("title"@, jstr(title)),
            ("desp"@, jstr(message)),
            ("noip"@, JsonView::Int(1)),
        ],
        PushChannel::Dingtalk | PushChannel::WeChat => seq![
            ("msgtype"@, jstr("text"@)),
            ("text"@, JsonView::Object(seq![("content"@, jstr(robot_text(title, message)))])),
        ],
        PushChannel::Smtp => Seq::empty(),
        PushChannel::Gotify => {
            let jump = match jump_url {
                Some(u) => u,
                None => default_jump_url(),
            };
            seq![
                ("message"@, jstr(message)),
                ("title"@, jstr(title)),
                ("priority"@, JsonView::Int(9)),
                ("extras"@, JsonView::Object(seq![
                    ("client::notification"@, JsonView::Object(seq![
                        ("click"@, JsonView::Object(seq![("url"@, jstr(jump))])),
                    ])),
                    ("android::action"@, JsonView::Object(seq![
                        ("onReceive"@, JsonView::Object(seq![("intentUrl"@, jstr(jump))])),
                    ])),
                ])),
            ]
        },
    }
}

pub open spec fn call_matches(
    r: PushCall,
    c: PushConfig,
    ch: PushChannel,
    title: Seq<char>,
    message: Seq<char>,
    jump_url: Option<Seq<char>>,
) -> bool {
    &&& r.channel == ch
    &&& r.url@ == call_url_spec(c, ch)
    &&& r.headers@.map_values(|p: (String, String)| (p.0@, p.1@)) == call_headers_spec(c, ch)
    &&& fields_view(r.body@) == call_body_spec(c, ch, title, message, jump_url)
}

pub open spec fn opt_view(o: Option<String>) -> Option<Seq<char>> {
    match o {
        Some(s) => Some(s@),
        None => None,
    }
}

fn header_pair(h: &mut Vec<(String, String)>, k: &str, v: &str)
    ensures
        final(h)@.map_values(|p: (String, String)| (p.0@, p.1@)) == old(h)@.map_values(
            |p: (String, String)| (p.0@, p.1@),
        ).push((k@, v@)),
{
    h.push((String::from_str(k), String::from_str(v)));
    assert(h@.map_values(|p: (String, String)| (p.0@, p.1@)) =~= old(h)@.map_values(
        |p: (String, String)| (p.0@, p.1@),
    ).push((k@, v@)));
}

fn object1(k: &str, v: JsonValue) -> (o: JsonValue)
    ensures
        json_view(o) == JsonView::Object(seq![(k@, json_view(v))]),
{
    let ghost gv = v;
    let mut fs: Vec<(String, JsonValue)> = Vec::new();
    assert(fields_view(fs@) =~= Seq::<(Seq<char>, JsonView)>::empty());
    push_field(&mut fs, k, v);
    assert(fields_view(fs@) =~= seq![(k@, json_view(gv))]);
    JsonValue::Object(fs)
}

impl PushConfig {
    /// Whether the given channel has settings.
    pub fn channel_configured(&self, ch: PushChannel) -> (b: bool)
        ensures
            b == active_channels_spec(*self).contains(ch),
    {
        let a = self.active_channels();
        let mut i: usize = 0;
        while i < a.len()
            invariant
                i <= a@.len(),
                a@ == active_channels_spec(*self),
                forall|j: int| 0 <= j < i ==> a@[j] != ch,
            decreases a@.len() - i,
        {
            if a[i] == ch {
                return true;
            }
            i = i + 1;
        }
        false
    }

    /// Gotify server address, with `http://` in front where it names no scheme.
    pub fn gotify_target(&self) -> (r: String)
        ensures
            r@ == gotify_target_spec(self.gotify_config.gotify_url@),
    {
        let u = self.gotify_config.gotify_url.as_str();
        if contains_str(u, "http") {
            String::from_str(u)
        } else {
            let mut s = String::from_str("http://");
            push_str(&mut s, u);
            s
        }
    }

    /// Mail delivery is not available: always a failure with that reason.
    pub fn push_smtp(&self, title: &str, message: &str) -> (r: (bool, String))
        ensures
            !r.0,
            r.1@ == "SMTP推送功能未实现"@,
    {
        (false, String::from_str("SMTP推送功能未实现"))
    }
}

/// Number of delivered notifications among the channel results.
pub open spec fn success_count(rs: Seq<(PushChannel, bool, Seq<char>)>) -> nat
    decreases rs.len(),
{
    if rs.len() == 0 {
        0
    } else {
        success_count(rs.drop_last()) + if rs.last().1 { 1nat } else { 0nat }
    }
}

/// `<channel>推送出错: <reason>` for each failed channel, in order.
pub open spec fn failure_lines(rs: Seq<(PushChannel, bool, Seq<char>)>) -> Seq<Seq<char>>
    decreases rs.len(),
{
    if rs.len() == 0 {
        Seq::empty()
    } else if rs.last().1 {
        failure_lines(rs.drop_last())
    } else {
        failure_lines(rs.drop_last()).push(channel_label(rs.last().0) + "推送出错: "@ + rs.last().2)
    }
}

/// Lines joined by `sep`.
pub open spec fn join(lines: Seq<Seq<char>>, sep: Seq<char>) -> Seq<char>
    decreases lines.len(),
{
    if lines.len() == 0 {
        Seq::empty()
    } else if lines.len() == 1 {
        lines[0]
    } else {
        join(lines.drop_last(), sep) + sep + lines.last()
    }
}

proof fn lemma_counts(rs: Seq<(PushChannel, bool, Seq<char>)>)
    ensures
        success_count(rs) + failure_lines(rs).len() == rs.len(),
    decreases rs.len(),
{
    if rs.len() > 0 {
        lemma_counts(rs.drop_last());
    }
}

/// The overall outcome of a notification from the channel results: a
/// success as soon as one channel delivered it, with the count; else a
/// failure with both counts and every channel's reason.
pub open spec fn push_summary_spec(rs: Seq<(PushChannel, bool, Seq<char>)>) -> (bool, Seq<char>) {
    let s = success_count(rs);
    let f = (rs.len() - s) as int;
    if s == 0 {
        (
            false,
            crate::text::decimal(s as int) + " 成功 / "@ + crate::text::decimal(f) + " 失败。失败详情: "@
                + join(failure_lines(rs), "; "@),
        )
    } else {
        (true, "全部 "@ + crate::text::decimal(s as int) + " 个渠道推送成功"@)
    }
}

pub open spec fn results_view(rs: Seq<(PushChannel, bool, String)>) -> Seq<(PushChannel, bool, Seq<char>)> {
    rs.map_values(|r: (PushChannel, bool, String)| (r.0, r.1, r.2@))
}

/// Overall outcome of a notification from the results of its channels.
pub fn push_summary(results: &Vec<(PushChannel, bool, String)>) -> (r: (bool, String))
    ensures
        r.0 == push_summary_spec(results_view(results@)).0,
        r.1@ == push_summary_spec(results_view(results@)).1,
{
    let ghost rv = results_view(results@);
    let mut ok: u64 = 0;
    let mut failed: u64 = 0;
    let mut details = String::new();
    let mut i: usize = 0;
    while i < results.len()
        invariant
            i <= results@.len(),
            rv == results_view(results@),
            ok == success_count(rv.subrange(0, i as int)),
            failed == failure_lines(rv.subrange(0, i as int)).len(),
            ok + failed == i,
            details@ == join(failure_lines(rv.subrange(0, i as int)), "; "@),
        decreases results@.len() - i,
    {
        let (ch, success, msg) = &results[i];
        let ghost prev = rv.subrange(0, i as int);
        assert(rv.subrange(0, i + 1).drop_last() =~= prev);
        assert(rv.subrange(0, i + 1).last() == (*ch, *success, msg@));
        if *success {
            ok = ok + 1;
        } else {
            let ghost lines = failure_lines(prev);
            let ghost line = channel_label(*ch) + "推送出错: "@ + msg@;
            assert(failure_lines(rv.subrange(0, i + 1)) == lines.push(line));
            assert(lines.push(line).drop_last() =~= lines);
            if failed > 0 {
                push_str(&mut details, "; ");
            }
            push_str(&mut details, channel_name(*ch));
            push_str(&mut details, "推送出错: ");
            push_str(&mut details, msg.as_str());
            failed = failed + 1;
            assert(details@ =~= join(failure_lines(rv.subrange(0, i + 1)), "; "@));
        }
        i = i + 1;
    }
    assert(rv.subrange(0, results@.len() as int) =~= rv);
    proof {
        lemma_counts(rv);
    }
    if ok == 0 {
        let mut m = String::new();
        crate::text::push_decimal(&mut m, ok as i128);
        push_str(&mut m, " 成功 / ");
        crate::text::push_decimal(&mut m, failed as i128);
        push_str(&mut m, " 失败。失败详情: ");
        push_str(&mut m, details.as_str());
        (false, m)
    } else {
        let mut m = String::from_str("全部 ");
        crate::text::push_decimal(&mut m, ok as i128);
        push_str(&mut m, " 个渠道推送成功");
        (true, m)
    }
}

/// Outcome of one channel from what its request brought back.
pub fn channel_outcome(reply: &crate::api::HttpReply) -> (r: (bool, String))
    ensures
        reply matches crate::api::HttpReply::Failed(e) ==> !r.0 && r.1@ == "推送失败: "@ + e@,
        reply matches crate::api::HttpReply::Unread(_, _, e) ==> !r.0 && r.1@ == "读取响应失败: "@ + e@,
        reply matches crate::api::HttpReply::Received(status, shown, _) ==> r.0 == (200 <= *status <= 299) && (r.0
            ==> r.1@ == "推送成功"@) && (!r.0 ==> r.1@ == "推送失败，状态码: "@ + shown@),
{
    match reply {
        crate::api::HttpReply::Failed(e) => {
            let mut m = String::from_str("推送失败: ");
            push_str(&mut m, e.as_str());
            (false, m)
        },
        crate::api::HttpReply::Unread(_, _, e) => {
            let mut m = String::from_str("读取响应失败: ");
            push_str(&mut m, e.as_str());
            (false, m)
        },
        crate::api::HttpReply::Received(status, shown, _) => status_outcome(*status, shown.as_str()),
    }
}

/// Outcome of one channel from the HTTP status of its reply (`status_text`
/// is how the status reads, such as `404 Not Found`).
pub fn status_outcome(status: u16, status_text: &str) -> (r: (bool, String))
    ensures
        r.0 == (200 <= status <= 299),
        r.0 ==> r.1@ == "推送成功"@,
        !r.0 ==> r.1@ == "推送失败，状态码: "@ + status_text@,
{
    if 200 <= status && status <= 299 {
        (true, String::from_str("推送成功"))
    } else {
        let mut m = String::from_str("推送失败，状态码: ");
        push_str(&mut m, status_text);
        (false, m)
    }
}


pub open spec fn is_push_of(
    m: TaskMessage,
    c: PushConfig,
    title: Seq<char>,
    message: Seq<char>,
    jump_url: Option<Seq<char>>,
) -> bool {
    m matches TaskMessage::SubmitTask(TaskRequest::PushRequest(p)) && p.title@ == title && p.message@
        == message && opt_view(p.jump_url) == jump_url && p.push_config == c && p.push_type == PushType::All
}

impl PushConfig {
    /// Where pushing is on, queues a notification on every channel as a task.
    pub fn push_all(&self, title: &str, message: &str, jump_url: &Option<String>, task_manager: &mut TaskManagerImpl)
        ensures
            !self.enabled ==> *final(task_manager) == *old(task_manager),
            self.enabled ==> exists|id: Seq<char>| #[trigger]
                registers(old(task_manager).tasks(), final(task_manager).tasks(), TaskKind::Push, id),
            self.enabled ==> final(task_manager).is_closed() == old(task_manager).is_closed(),
            self.enabled && old(task_manager).is_closed() ==> final(task_manager).pending() == old(
                task_manager,
            ).pending(),
            self.enabled && !old(task_manager).is_closed() ==> final(task_manager).pending().len()
                == old(task_manager).pending().len() + 1 && final(task_manager).pending().drop_last()
                == old(task_manager).pending() && is_push_of(
                final(task_manager).pending().last(),
                *self,
                title@,
                message@,
                opt_view(*jump_url),
            ),
    {
        if !self.enabled {
            return;
        }
        let jump = match jump_url {
            Some(j) => Some(j.clone()),
            None => None,
        };
        let request = TaskRequest::PushRequest(
            PushRequest {
                title: String::from_str(title),
                message: String::from_str(message),
                jump_url: jump,
                push_config: self.duplicate(),
                push_type: PushType::All,
            },
        );
        let ghost req = request;
        let _ = task_manager.submit_task(request);
        proof {
            if !old(task_manager).is_closed() {
                assert(final(task_manager).pending() == old(task_manager).pending().push(TaskMessage::SubmitTask(req)));
                assert(final(task_manager).pending().drop_last() =~= old(task_manager).pending());
            }
        }
    }
}


impl PushConfig {
    /// The request that delivers a notification on channel `ch`; `None` for
    /// mail, which has no request.
    pub fn channel_call(&self, ch: PushChannel, title: &str, message: &str, jump_url: &Option<String>) -> (r: Option<PushCall>)
        ensures
            ch == PushChannel::Smtp ==> r is None,
            ch != PushChannel::Smtp ==> (r matches Some(call) && call_matches(
                call,
                *self,
                ch,
                title@,
                message@,
                opt_view(*jump_url),
            )),
    {
        let mut headers: Vec<(String, String)> = Vec::new();
        let mut body: Vec<(String, JsonValue)> = Vec::new();
        assert(fields_view(body@) =~= Seq::<(Seq<char>, JsonView)>::empty());
        assert(headers@.map_values(|p: (String, String)| (p.0@, p.1@)) =~= Seq::<
            (Seq<char>, Seq<char>),
        >::empty());
        let url: String;
        match ch {
            PushChannel::Bark => {
                let mut u = String::from_str("https://api.day.app/");
                push_str(&mut u, self.bark_token.as_str());
                url = u;
                push_field(&mut body, "title", str_value(title));
                push_field(&mut body, "body", str_value(message));
                push_field(&mut body, "level", str_value("timeSensitive"));
                push_field(&mut body, "badge", JsonValue::Int(1));
                push_field(&mut body, "icon", str_value("https://sr.mihoyo.com/favicon-mi.ico"));
                push_field(&mut body, "group", str_value("biliticket"));
                push_field(&mut body, "isArchive", JsonValue::Int(1));
                assert(fields_view(body@) =~= bark_base(title@, message@));
                let params = bark_params(self.bark_token.as_str());
                let ghost pv = params@.map_values(|p: (String, String)| (p.0@, p.1@));
                let ghost base = fields_view(body@);
                let mut i: usize = 0;
                while i < params.len()
                    invariant
                        i <= params@.len(),
                        pv == params@.map_values(|p: (String, String)| (p.0@, p.1@)),
                        fields_view(body@) == set_str_fields(base, pv.subrange(0, i as int)),
                    decreases params@.len() - i,
                {
                    let (k, v) = &params[i];
                    assert(pv.subrange(0, i + 1).drop_last() =~= pv.subrange(0, i as int));
                    set_str_field(&mut body, k, v);
                    i = i + 1;
                }
                assert(pv.subrange(0, params@.len() as int) =~= pv);
                assert(fields_view(body@) == call_body_spec(*self, ch, title@, message@, opt_view(*jump_url)));
            },
            PushChannel::PushPlus => {
                url = String::from_str("http://www.pushplus.plus/send");
                push_field(&mut body, "token", str_value(self.pushplus_token.as_str()));
                push_field(&mut body, "title", str_value(title));
                push_field(&mut body, "content", str_value(message));
                assert(fields_view(body@) =~= call_body_spec(*self, ch, title@, message@, opt_view(*jump_url)));
            },
            PushChannel::Fangtang => {
                let mut u = String::from_str("https://sctapi.ftqq.com/");
                push_str(&mut u, self.fangtang_token.as_str());
                push_str(&mut u, ".send");
                url = u;
                push_field(&mut body, "title", str_value(title));
                push_field(&mut body, "desp", str_value(message));
                push_field(&mut body, "noip", JsonValue::Int(1));
                assert(fields_view(body@) =~= call_body_spec(*self, ch, title@, message@, opt_view(*jump_url)));
            },
            PushChannel::Dingtalk | PushChannel::WeChat => {
                let mut u = if ch == PushChannel::Dingtalk {
                    String::from_str("https://oapi.dingtalk.com/robot/send?access_token=")
                } else {
                    String::from_str("https://qyapi.weixin.qq.com/cgi-bin/webhook/send?key=")
                };
                if ch == PushChannel::Dingtalk {
                    push_str(&mut u, self.dingtalk_token.as_str());
                } else {
                    push_str(&mut u, self.wechat_token.as_str());
                }
                url = u;
                header_pair(&mut headers, "Content-Type", "application/json");
                header_pair(&mut headers, "Charset", "UTF-8");
                let mut text = String::from_str(title);
                push_str(&mut text, " \n ");
                push_str(&mut text, message);
                push_field(&mut body, "msgtype", str_value("text"));
                push_field(&mut body, "text", object1("content", str_value(text.as_str())));
                assert(fields_view(body@) =~= call_body_spec(*self, ch, title@, message@, opt_view(*jump_url)));
                assert(headers@.map_values(|p: (String, String)| (p.0@, p.1@)) =~= call_headers_spec(*self, ch));
            },
            PushChannel::Smtp => {
                return None;
            },
            PushChannel::Gotify => {
                let mut u = self.gotify_target();
                push_str(&mut u, "/message");
                url = u;
                header_pair(&mut headers, "Content-Type", "application/json");
                let mut auth = String::from_str("Bearer ");
                push_str(&mut auth, self.gotify_config.gotify_token.as_str());
                header_pair(&mut headers, "Authorization", auth.as_str());
                let jump = match jump_url {
                    Some(j) => j.clone(),
                    None => String::from_str("bilibili://mall/web?url=https://www.bilibili.com"),
                };
                push_field(&mut body, "message", str_value(message));
                push_field(&mut body, "title", str_value(title));
                push_field(&mut body, "priority", JsonValue::Int(9));
                let click = object1("click", object1("url", str_value(jump.as_str())));
                let receive = object1("onReceive", object1("intentUrl", str_value(jump.as_str())));
                let mut extras: Vec<(String, JsonValue)> = Vec::new();
                assert(fields_view(extras@) =~= Seq::<(Seq<char>, JsonView)>::empty());
                let ghost gclick = click;
                let ghost greceive = receive;
                push_field(&mut extras, "client::notification", click);
                push_field(&mut extras, "android::action", receive);
                let ghost jv = match opt_view(*jump_url) {
                    Some(u) => u,
                    None => default_jump_url(),
                };
                assert(jump@ == jv);
                assert(fields_view(extras@) =~= seq![
                    ("client::notification"@, json_view(gclick)),
                    ("android::action"@, json_view(greceive)),
                ]);
                let ev = JsonValue::Object(extras);
                assert(json_view(ev) == JsonView::Object(fields_view(extras@)));
                push_field(&mut body, "extras", ev);
                assert(fields_view(body@) =~= call_body_spec(*self, ch, title@, message@, opt_view(*jump_url)));
                assert(headers@.map_values(|p: (String, String)| (p.0@, p.1@)) =~= call_headers_spec(*self, ch));
            },
        }
        let r = PushCall { channel: ch, url, headers, body };
        Some(r)
    }
}

} // verus!
