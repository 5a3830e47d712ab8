//! System configuration: `key=value` text.

use vstd::prelude::*;
use vstd::utf8;

use crate::bytes;
use crate::bytes::{decimal, eq_bytes, find_byte, place_of, text_bytes, utf8_or};

verus! {

pub const SETTINGS_FILE: &'static str = "SETTINGS.TXT";

#[derive(Clone, Copy, PartialEq, Eq, Structural)]
pub struct SystemSettings {
    /// Minutes of idling before sleep; 0 is never.
    pub sleep_timeout: u16,
    /// Partial refreshes before a full one.
    pub ghost_clear_every: u8,
    pub book_font_size_idx: u8,
    pub ui_font_size_idx: u8,
}

pub open spec fn default_settings() -> SystemSettings {
    SystemSettings {
        sleep_timeout: 10,
        ghost_clear_every: 10,
        book_font_size_idx: 2,
        ui_font_size_idx: 2,
    }
}

pub const DEFAULT_MAX_FONT_IDX: u8 = 4;

impl Default for SystemSettings {
    fn default() -> (r: SystemSettings)
        ensures
            r == default_settings(),
    {
        SystemSettings::defaults()
    }
}

impl SystemSettings {
    /// The settings brought into range: at most 120 minutes, 1 to 50 partial
    /// refreshes, and font sizes up to `max_font`.
    pub open spec fn sanitized(self, max_font: u8) -> SystemSettings {
        SystemSettings {
            sleep_timeout: if self.sleep_timeout < 120 {
                self.sleep_timeout
            } else {
                120
            },
            ghost_clear_every: if self.ghost_clear_every < 1 {
                1
            } else if self.ghost_clear_every > 50 {
                50
            } else {
                self.ghost_clear_every
            },
            book_font_size_idx: if self.book_font_size_idx < max_font {
                self.book_font_size_idx
            } else {
                max_font
            },
            ui_font_size_idx: if self.ui_font_size_idx < max_font {
                self.ui_font_size_idx
            } else {
                max_font
            },
        }
    }

    pub fn defaults() -> (r: SystemSettings)
        ensures
            r == default_settings(),
    {
        SystemSettings {
            sleep_timeout: 10,
            ghost_clear_every: 10,
            book_font_size_idx: 2,
            ui_font_size_idx: 2,
        }
    }

    pub fn sanitize(&mut self)
        ensures
            *final(self) == old(self).sanitized(DEFAULT_MAX_FONT_IDX),
    {
        self.sanitize_with_max_font(DEFAULT_MAX_FONT_IDX);
    }

    pub fn sanitize_with_max_font(&mut self, max_font: u8)
        ensures
            *final(self) == old(self).sanitized(max_font),
    {
        if self.sleep_timeout > 120 {
            self.sleep_timeout = 120;
        }
        if self.ghost_clear_every < 1 {
            self.ghost_clear_every = 1;
        } else if self.ghost_clear_every > 50 {
            self.ghost_clear_every = 50;
        }
        if self.book_font_size_idx > max_font {
            self.book_font_size_idx = max_font;
        }
        if self.ui_font_size_idx > max_font {
            self.ui_font_size_idx = max_font;
        }
    }
}

/// Settings brought into range are in range: doing so again changes nothing.
pub proof fn law_sanitize_settles(s: SystemSettings, max_font: u8)
    ensures
        s.sanitized(max_font).sanitized(max_font) == s.sanitized(max_font),
        s.sanitized(max_font).sleep_timeout <= 120,
        1 <= s.sanitized(max_font).ghost_clear_every <= 50,
        s.sanitized(max_font).book_font_size_idx <= max_font,
        s.sanitized(max_font).ui_font_size_idx <= max_font,
{
}

/// A setting that is in range stays what it is, and one that is not becomes the
/// nearest that is.
pub proof fn law_sane_settings_stay(s: SystemSettings, max_font: u8)
    ensures
        ({
            let r = s.sanitized(max_font);
            &&& s.sleep_timeout <= 120 ==> r.sleep_timeout == s.sleep_timeout
            &&& s.sleep_timeout > 120 ==> r.sleep_timeout == 120
            &&& 1 <= s.ghost_clear_every <= 50 ==> r.ghost_clear_every == s.ghost_clear_every
            &&& s.ghost_clear_every < 1 ==> r.ghost_clear_every == 1
            &&& s.ghost_clear_every > 50 ==> r.ghost_clear_every == 50
            &&& s.book_font_size_idx <= max_font ==> r.book_font_size_idx == s.book_font_size_idx
            &&& s.book_font_size_idx > max_font ==> r.book_font_size_idx == max_font
            &&& s.ui_font_size_idx <= max_font ==> r.ui_font_size_idx == s.ui_font_size_idx
            &&& s.ui_font_size_idx > max_font ==> r.ui_font_size_idx == max_font
        }),
{
}

/// The defaults are in range.
pub proof fn law_defaults_are_sane()
    ensures
        default_settings().sanitized(DEFAULT_MAX_FONT_IDX) == default_settings(),
{
}

pub const WIFI_SSID_CAP: usize = 32;

pub const WIFI_PASS_CAP: usize = 63;

/// The credentials of a wireless network.
pub struct WifiConfig {
    ssid: [u8; 32],
    ssid_len: u8,
    pass: [u8; 63],
    pass_len: u8,
}

pub struct WifiView {
    pub ssid: Seq<u8>,
    pub pass: Seq<u8>,
}

impl View for WifiConfig {
    type V = WifiView;

    closed spec fn view(&self) -> WifiView {
        WifiView {
            ssid: self.ssid@.take(self.ssid_len as int),
            pass: self.pass@.take(self.pass_len as int),
        }
    }
}

/// At most `cap` bytes of `s`.
pub open spec fn cut(s: Seq<u8>, cap: int) -> Seq<u8> {
    if s.len() < cap {
        s
    } else {
        s.take(cap)
    }
}

pub open spec fn no_wifi() -> WifiView {
    WifiView { ssid: Seq::empty(), pass: Seq::empty() }
}

impl WifiConfig {
    pub closed spec fn wf(&self) -> bool {
        self.ssid_len <= 32 && self.pass_len <= 63
    }

    pub proof fn lemma_wf(&self)
        requires
            self.wf(),
        ensures
            self@.ssid.len() <= 32,
            self@.pass.len() <= 63,
    {
    }

    pub fn empty() -> (r: WifiConfig)
        ensures
            r.wf(),
            r@ == no_wifi(),
    {
        let w = WifiConfig { ssid: [0u8; 32], ssid_len: 0, pass: [0u8; 63], pass_len: 0 };
        assert(w@.ssid =~= Seq::empty());
        assert(w@.pass =~= Seq::empty());
        w
    }

    /// The name of the network, and nothing where it is not UTF-8.
    pub fn ssid(&self) -> (r: &str)
        requires
            self.wf(),
        ensures
            utf8::valid_utf8(self@.ssid) ==> utf8::encode_utf8(r@) == self@.ssid,
            !utf8::valid_utf8(self@.ssid) ==> r@ == ""@,
    {
        utf8_or(self.ssid_bytes(), "")
    }

    /// The pass phrase, and nothing where it is not UTF-8.
    pub fn password(&self) -> (r: &str)
        requires
            self.wf(),
        ensures
            utf8::valid_utf8(self@.pass) ==> utf8::encode_utf8(r@) == self@.pass,
            !utf8::valid_utf8(self@.pass) ==> r@ == ""@,
    {
        utf8_or(self.pass_bytes(), "")
    }

    pub fn has_credentials(&self) -> (r: bool)
        requires
            self.wf(),
        ensures
            r == (self@.ssid.len() > 0),
    {
        self.ssid_len > 0
    }

    fn ssid_bytes(&self) -> (r: &[u8])
        requires
            self.wf(),
        ensures
            r@ == self@.ssid,
    {
        let whole: &[u8] = &self.ssid;
        let b = &whole[0..self.ssid_len as usize];
        assert(b@ =~= self@.ssid);
        b
    }

    fn pass_bytes(&self) -> (r: &[u8])
        requires
            self.wf(),
        ensures
            r@ == self@.pass,
    {
        let whole: &[u8] = &self.pass;
        let b = &whole[0..self.pass_len as usize];
        assert(b@ =~= self@.pass);
        b
    }

    /// Sets the name of the network, cut to 32 bytes.
    pub fn set_ssid(&mut self, val: &[u8])
        requires
            old(self).wf(),
        ensures
            final(self).wf(),
            final(self)@ == (WifiView { ssid: cut(val@, 32), ..old(self)@ }),
    {
        let n = if val.len() < WIFI_SSID_CAP {
            val.len()
        } else {
            WIFI_SSID_CAP
        };
        let mut i: usize = 0;
        while i < n
            invariant
                i <= n <= 32,
                n <= val@.len(),
                self.pass == old(self).pass,
                self.pass_len == old(self).pass_len,
                forall|j: int| 0 <= j < i ==> self.ssid@[j] == val@[j],
            decreases n - i,
        {
            self.ssid[i] = val[i];
            i += 1;
        }
        self.ssid_len = n as u8;
        assert(self@.ssid =~= cut(val@, 32));
    }

    /// Sets the pass phrase, cut to 63 bytes.
    pub fn set_pass(&mut self, val: &[u8])
        requires
            old(self).wf(),
        ensures
            final(self).wf(),
            final(self)@ == (WifiView { pass: cut(val@, 63), ..old(self)@ }),
    {
        let n = if val.len() < WIFI_PASS_CAP {
            val.len()
        } else {
            WIFI_PASS_CAP
        };
        let mut i: usize = 0;
        while i < n
            invariant
                i <= n <= 63,
                n <= val@.len(),
                self.ssid == old(self).ssid,
                self.ssid_len == old(self).ssid_len,
                forall|j: int| 0 <= j < i ==> self.pass@[j] == val@[j],
            decreases n - i,
        {
            self.pass[i] = val[i];
            i += 1;
        }
        self.pass_len = n as u8;
        assert(self@.pass =~= cut(val@, 63));
    }
}

/// A space, a tab or a carriage return.
pub open spec fn blank(b: u8) -> bool {
    b == 32 || b == 9 || b == 13
}

/// `s` without the blanks at its front.
pub open spec fn without_lead(s: Seq<u8>) -> Seq<u8>
    decreases s.len(),
{
    if s.len() > 0 && blank(s[0]) {
        without_lead(s.skip(1))
    } else {
        s
    }
}

/// `s` without the blanks at its end.
pub open spec fn without_trail(s: Seq<u8>) -> Seq<u8>
    decreases s.len(),
{
    if s.len() > 0 && blank(s.last()) {
        without_trail(s.drop_last())
    } else {
        s
    }
}

/// `s` without the blanks around it.
pub open spec fn trimmed(s: Seq<u8>) -> Seq<u8> {
    without_trail(without_lead(s))
}

fn is_blank(b: u8) -> (r: bool)
    ensures
        r == blank(b),
{
    b == 32 || b == 9 || b == 13
}

pub fn trim(s: &[u8]) -> (r: &[u8])
    ensures
        r@ == trimmed(s@),
{
    let mut start: usize = 0;
    let mut end: usize = s.len();
    assert(s@.skip(0) =~= s@);
    while start < end && is_blank(s[start])
        invariant
            start <= end == s@.len(),
            without_lead(s@) == without_lead(s@.skip(start as int)),
        decreases end - start,
    {
        assert(s@.skip(start as int).skip(1) =~= s@.skip(start + 1));
        start += 1;
    }
    assert(s@.skip(start as int) =~= s@.subrange(start as int, end as int));
    while end > start && is_blank(s[end - 1])
        invariant
            start <= end <= s@.len(),
            trimmed(s@) == without_trail(s@.subrange(start as int, end as int)),
        decreases end - start,
    {
        assert(s@.subrange(start as int, end as int).drop_last() =~= s@.subrange(
            start as int,
            end - 1,
        ));
        end -= 1;
    }
    &s[start..end]
}

pub open spec fn digit(b: u8) -> bool {
    48 <= b <= 57
}

/// The number that the digits of `s` spell.
pub open spec fn number(s: Seq<u8>) -> int
    decreases s.len(),
{
    if s.len() == 0 {
        0
    } else {
        number(s.drop_last()) * 10 + (s.last() - 48)
    }
}

/// The 16-bit number that `s` spells: one digit or more and nothing else.
pub open spec fn parsed_u16(s: Seq<u8>) -> Option<u16> {
    if s.len() > 0 && (forall|i: int| 0 <= i < s.len() ==> digit(#[trigger] s[i])) && number(s)
        <= u16::MAX {
        Some(number(s) as u16)
    } else {
        None
    }
}

proof fn lemma_number_grows(s: Seq<u8>, i: int)
    requires
        0 <= i <= s.len(),
        forall|j: int| 0 <= j < s.len() ==> digit(#[trigger] s[j]),
    ensures
        0 <= number(s.take(i)) <= number(s),
    decreases s.len(),
{
    if i == s.len() {
        assert(s.take(i) =~= s);
        if s.len() > 0 {
            let front = s.drop_last();
            assert forall|j: int| 0 <= j < front.len() implies digit(#[trigger] front[j]) by {
                assert(digit(s[j]));
            }
            lemma_number_grows(front, 0);
            assert(digit(s[s.len() - 1]));
        }
    } else {
        let front = s.drop_last();
        assert forall|j: int| 0 <= j < front.len() implies digit(#[trigger] front[j]) by {
            assert(digit(s[j]));
        }
        lemma_number_grows(front, i);
        assert(front.take(i) =~= s.take(i));
        assert(digit(s[s.len() - 1]));
    }
}

pub fn parse_u16(s: &[u8]) -> (r: Option<u16>)
    ensures
        r == parsed_u16(s@),
{
    if s.is_empty() {
        return None;
    }
    let mut val: u16 = 0;
    let mut i: usize = 0;
    while i < s.len()
        invariant
            s@.len() > 0,
            i <= s@.len(),
            val == number(s@.take(i as int)),
            forall|j: int| 0 <= j < i ==> digit(#[trigger] s@[j]),
        decreases s@.len() - i,
    {
        let b = s[i];
        if !(48 <= b && b <= 57) {
            assert(!digit(s@[i as int]));
            return None;
        }
        let wide = val as u32 * 10 + (b - 48) as u32;
        proof {
            assert(s@.take(i + 1).drop_last() =~= s@.take(i as int));
            assert(wide == number(s@.take(i + 1)));
        }
        if wide > 0xFFFF {
            proof {
                if forall|j: int| 0 <= j < s@.len() ==> digit(#[trigger] s@[j]) {
                    lemma_number_grows(s@, i + 1);
                }
            }
            return None;
        }
        val = wide as u16;
        i += 1;
    }
    assert(s@.take(i as int) =~= s@);
    Some(val)
}

/// All that the settings file is about.
pub struct Config {
    pub settings: SystemSettings,
    pub wifi: WifiView,
}

impl Config {
    /// The configuration after `key` was set to `val`. A key that is not
    /// known, and a number that is none, change nothing.
    pub open spec fn with(self, key: Seq<u8>, val: Seq<u8>) -> Config {
        let s = self.settings;
        if key == text_bytes("sleep_timeout") {
            match parsed_u16(val) {
                Some(v) => Config { settings: SystemSettings { sleep_timeout: v, ..s }, ..self },
                None => self,
            }
        } else if key == text_bytes("ghost_clear") {
            match parsed_u16(val) {
                Some(v) => Config {
                    settings: SystemSettings { ghost_clear_every: (v % 256) as u8, ..s },
                    ..self
                },
                None => self,
            }
        } else if key == text_bytes("book_font") {
            match parsed_u16(val) {
                Some(v) => Config {
                    settings: SystemSettings { book_font_size_idx: (v % 256) as u8, ..s },
                    ..self
                },
                None => self,
            }
        } else if key == text_bytes("ui_font") {
            match parsed_u16(val) {
                Some(v) => Config {
                    settings: SystemSettings { ui_font_size_idx: (v % 256) as u8, ..s },
                    ..self
                },
                None => self,
            }
        } else if key == text_bytes("wifi_ssid") {
            Config { wifi: WifiView { ssid: cut(val, 32), ..self.wifi }, ..self }
        } else if key == text_bytes("wifi_pass") {
            Config { wifi: WifiView { pass: cut(val, 63), ..self.wifi }, ..self }
        } else {
            self
        }
    }

    /// The configuration after one line of the file. Empty lines, lines that
    /// start with `#` and lines without `=` change nothing.
    pub open spec fn with_line(self, line: Seq<u8>) -> Config {
        let l = trimmed(line);
        let eq = place_of(l, 61, 0);
        if l.len() == 0 || l[0] == 35 || eq >= l.len() {
            self
        } else {
            self.with(trimmed(l.take(eq)), trimmed(l.skip(eq + 1)))
        }
    }

    /// The configuration after the lines of `data`.
    pub open spec fn with_text(self, data: Seq<u8>) -> Config
        decreases data.len(),
    {
        let end = place_of(data, 10, 0);
        if 0 <= end < data.len() {
            self.with_line(data.take(end)).with_text(data.skip(end + 1))
        } else {
            self.with_line(data)
        }
    }
}

pub open spec fn config_of(s: SystemSettings, w: WifiConfig) -> Config {
    Config { settings: s, wifi: w@ }
}

pub fn apply_setting(key: &[u8], val: &[u8], s: &mut SystemSettings, w: &mut WifiConfig)
    requires
        old(w).wf(),
    ensures
        final(w).wf(),
        config_of(*final(s), *final(w)) == config_of(*old(s), *old(w)).with(key@, val@),
{
    if eq_bytes(key, "sleep_timeout".as_bytes()) {
        if let Some(v) = parse_u16(val) {
            s.sleep_timeout = v;
        }
    } else if eq_bytes(key, "ghost_clear".as_bytes()) {
        if let Some(v) = parse_u16(val) {
            s.ghost_clear_every = (v % 256) as u8;
        }
    } else if eq_bytes(key, "book_font".as_bytes()) {
        if let Some(v) = parse_u16(val) {
            s.book_font_size_idx = (v % 256) as u8;
        }
    } else if eq_bytes(key, "ui_font".as_bytes()) {
        if let Some(v) = parse_u16(val) {
            s.ui_font_size_idx = (v % 256) as u8;
        }
    } else if eq_bytes(key, "wifi_ssid".as_bytes()) {
        w.set_ssid(val);
    } else if eq_bytes(key, "wifi_pass".as_bytes()) {
        w.set_pass(val);
    }
}

/// Takes in the text of a settings file, line by line.
pub fn parse_settings_txt(data: &[u8], settings: &mut SystemSettings, wifi: &mut WifiConfig)
    requires
        old(wifi).wf(),
    ensures
        final(wifi).wf(),
        config_of(*final(settings), *final(wifi)) == config_of(
            *old(settings),
            *old(wifi),
        ).with_text(data@),
{
    let mut pos: usize = 0;
    let mut more = true;
    assert(data@.skip(0) =~= data@);
    while more
        invariant
            wifi.wf(),
            pos <= data@.len(),
            more ==> config_of(*old(settings), *old(wifi)).with_text(data@) == config_of(
                *settings,
                *wifi,
            ).with_text(data@.skip(pos as int)),
            !more ==> config_of(*old(settings), *old(wifi)).with_text(data@) == config_of(
                *settings,
                *wifi,
            ),
        decreases
                data@.len() - pos,
                if more {
                    1int
                } else {
                    0int
                },
    {
        let rest = &data[pos..data.len()];
        assert(rest@ =~= data@.skip(pos as int));
        let end = find_byte(rest, 10, 0);
        let line = &rest[0..end];
        assert(line@ =~= rest@.take(end as int));
        apply_line(line, settings, wifi);
        if end < rest.len() {
            assert(rest@.skip(end + 1) =~= data@.skip(pos + end + 1));
            pos = pos + end + 1;
        } else {
            assert(rest@.take(end as int) =~= rest@);
            more = false;
        }
    }
}

fn apply_line(line: &[u8], settings: &mut SystemSettings, wifi: &mut WifiConfig)
    requires
        old(wifi).wf(),
    ensures
        final(wifi).wf(),
        config_of(*final(settings), *final(wifi)) == config_of(
            *old(settings),
            *old(wifi),
        ).with_line(line@),
{
    let l = trim(line);
    if l.is_empty() || l[0] == 35 {
        return;
    }
    let eq = find_byte(l, 61, 0);
    if eq < l.len() {
        let front = &l[0..eq];
        let back = &l[eq + 1..l.len()];
        assert(front@ =~= l@.take(eq as int));
        assert(back@ =~= l@.skip(eq + 1));
        apply_setting(trim(front), trim(back), settings, wifi);
    }
}

/// The lines one after another, each with a newline.
pub open spec fn joined(lines: Seq<Seq<u8>>) -> Seq<u8>
    decreases lines.len(),
{
    if lines.len() == 0 {
        Seq::empty()
    } else {
        joined(lines.drop_last()) + lines.last().push(10)
    }
}

/// The line `key=val`.
pub open spec fn pair(key: Seq<u8>, val: Seq<u8>) -> Seq<u8> {
    key.push(61) + val
}

/// The lines of the settings file.
pub open spec fn settings_lines(c: Config) -> Seq<Seq<u8>> {
    Seq::<Seq<u8>>::empty().push(text_bytes("# pulp-os settings")).push(
        text_bytes("# lines starting with # are ignored"),
    ).push(Seq::empty()).push(
        pair(text_bytes("sleep_timeout"), decimal(c.settings.sleep_timeout as nat)),
    ).push(pair(text_bytes("ghost_clear"), decimal(c.settings.ghost_clear_every as nat))).push(
        pair(text_bytes("book_font"), decimal(c.settings.book_font_size_idx as nat)),
    ).push(pair(text_bytes("ui_font"), decimal(c.settings.ui_font_size_idx as nat))).push(
        Seq::empty(),
    ).push(text_bytes("# wifi credentials for upload mode")).push(
        pair(text_bytes("wifi_ssid"), c.wifi.ssid),
    ).push(pair(text_bytes("wifi_pass"), c.wifi.pass))
}

/// The text of the settings file.
pub open spec fn settings_text(c: Config) -> Seq<u8> {
    joined(settings_lines(c))
}

/// `buf`, which was `before`, holds as much of `text` as it has room for.
pub open spec fn filled(buf: Seq<u8>, before: Seq<u8>, pos: int, text: Seq<u8>) -> bool {
    &&& pos == if text.len() < before.len() {
        text.len() as int
    } else {
        before.len() as int
    }
    &&& buf == text.take(pos) + before.skip(pos)
}

/// Writes text into a buffer, dropping what finds no room.
struct TxtWriter {
    pos: usize,
}

impl TxtWriter {
    fn put(
        &mut self,
        buf: &mut [u8],
        data: &[u8],
        Ghost(before): Ghost<Seq<u8>>,
        Ghost(text): Ghost<Seq<u8>>,
    )
        requires
            filled(old(buf)@, before, old(self).pos as int, text),
        ensures
            filled(final(buf)@, before, final(self).pos as int, text + data@),
    {
        let ghost was = buf@;
        assert(was.len() == before.len());
        let room = buf.len() - self.pos;
        let n = if data.len() < room {
            data.len()
        } else {
            room
        };
        let start = self.pos;
        let mut i: usize = 0;
        while i < n
            invariant
                i <= n <= data@.len(),
                start + n <= buf@.len() <= usize::MAX,
                buf@.len() == was.len(),
                forall|j: int| 0 <= j < start ==> buf@[j] == was[j],
                forall|j: int| 0 <= j < i ==> buf@[start + j] == data@[j],
                forall|j: int| start + i <= j < buf@.len() ==> buf@[j] == was[j],
            decreases n - i,
        {
            buf[start + i] = data[i];
            i += 1;
        }
        self.pos = start + n;
        proof {
            let all = text + data@;
            assert forall|j: int| 0 <= j < buf@.len() implies buf@[j] == (all.take(start + n)
                + before.skip(start + n))[j] by {
                if j < start {
                    assert(was[j] == text[j]);
                } else if j < start + n {
                    assert(start == text.len());
                    assert(buf@[start + (j - start)] == data@[j - start]);
                } else {
                    assert(was[j] == before[j]);
                }
            }
            assert(buf@ =~= all.take(start + n) + before.skip(start + n));
        }
    }

    fn put_u16(
        &mut self,
        buf: &mut [u8],
        val: u16,
        Ghost(before): Ghost<Seq<u8>>,
        Ghost(text): Ghost<Seq<u8>>,
    )
        requires
            filled(old(buf)@, before, old(self).pos as int, text),
        ensures
            filled(final(buf)@, before, final(self).pos as int, text + decimal(val as nat)),
    {
        let mut digits: [u8; 5] = [0u8; 5];
        let mut i: usize = 4;
        let mut v = val;
        digits[4] = 48 + (v % 10) as u8;
        assert(digits@.subrange(4, 5) =~= seq![(48 + val % 10) as u8]);
        v = v / 10;
        assert(v > 0 ==> decimal(val as nat) =~= decimal(v as nat) + digits@.subrange(4, 5));
        assert(v == 0 ==> decimal(val as nat) =~= digits@.subrange(4, 5));
        while v > 0
            invariant
                i <= 4,
                i == 4 ==> v <= 6553,
                i == 3 ==> v <= 655,
                i == 2 ==> v <= 65,
                i == 1 ==> v <= 6,
                i == 0 ==> v == 0,
                v > 0 ==> decimal(val as nat) == decimal(v as nat) + digits@.subrange(
                    i as int,
                    5,
                ),
                v == 0 ==> decimal(val as nat) == digits@.subrange(i as int, 5),
            decreases v,
        {
            let ghost tail = digits@.subrange(i as int, 5);
            let ghost now = v as nat;
            i -= 1;
            digits[i] = 48 + (v % 10) as u8;
            v = v / 10;
            proof {
                assert(digits@.subrange(i as int, 5) =~= seq![(48 + now % 10) as u8] + tail);
                if v > 0 {
                    assert(decimal(now) + tail =~= decimal(v as nat) + digits@.subrange(
                        i as int,
                        5,
                    ));
                } else {
                    assert(decimal(now) + tail =~= digits@.subrange(i as int, 5));
                }
            }
        }
        let all: &[u8] = &digits;
        let shown = &all[i..5];
        assert(shown@ =~= digits@.subrange(i as int, 5));
        self.put(buf, shown, Ghost(before), Ghost(text));
    }

    fn line(
        &mut self,
        buf: &mut [u8],
        data: &[u8],
        Ghost(before): Ghost<Seq<u8>>,
        Ghost(lines): Ghost<Seq<Seq<u8>>>,
    )
        requires
            filled(old(buf)@, before, old(self).pos as int, joined(lines)),
        ensures
            filled(final(buf)@, before, final(self).pos as int, joined(lines.push(data@))),
    {
        self.put(buf, data, Ghost(before), Ghost(joined(lines)));
        let nl: [u8; 1] = [10];
        let nl_bytes: &[u8] = &nl;
        self.put(buf, nl_bytes, Ghost(before), Ghost(joined(lines) + data@));
        proof {
            assert(lines.push(data@).drop_last() =~= lines);
            assert(joined(lines) + data@ + nl_bytes@ =~= joined(lines.push(data@)));
        }
    }

    fn key(
        &mut self,
        buf: &mut [u8],
        key: &[u8],
        Ghost(before): Ghost<Seq<u8>>,
        Ghost(text): Ghost<Seq<u8>>,
    )
        requires
            filled(old(buf)@, before, old(self).pos as int, text),
        ensures
            filled(final(buf)@, before, final(self).pos as int, text + key@.push(61)),
    {
        self.put(buf, key, Ghost(before), Ghost(text));
        let eq: [u8; 1] = [61];
        let eq_bytes: &[u8] = &eq;
        self.put(buf, eq_bytes, Ghost(before), Ghost(text + key@));
        assert(text + key@ + eq_bytes@ =~= text + key@.push(61));
    }

    fn kv_num(
        &mut self,
        buf: &mut [u8],
        key: &[u8],
        val: u16,
        Ghost(before): Ghost<Seq<u8>>,
        Ghost(lines): Ghost<Seq<Seq<u8>>>,
    )
        requires
            filled(old(buf)@, before, old(self).pos as int, joined(lines)),
        ensures
            filled(
                final(buf)@,
                before,
                final(self).pos as int,
                joined(lines.push(pair(key@, decimal(val as nat)))),
            ),
    {
        let ghost l = pair(key@, decimal(val as nat));
        self.key(buf, key, Ghost(before), Ghost(joined(lines)));
        self.put_u16(buf, val, Ghost(before), Ghost(joined(lines) + key@.push(61)));
        let nl: [u8; 1] = [10];
        let nl_bytes: &[u8] = &nl;
        assert(joined(lines) + key@.push(61) + decimal(val as nat) =~= joined(lines) + l);
        self.put(buf, nl_bytes, Ghost(before), Ghost(joined(lines) + l));
        proof {
            assert(lines.push(l).drop_last() =~= lines);
            assert(joined(lines) + l + nl_bytes@ =~= joined(lines.push(l)));
        }
    }

    fn kv_str(
        &mut self,
        buf: &mut [u8],
        key: &[u8],
        val: &[u8],
        Ghost(before): Ghost<Seq<u8>>,
        Ghost(lines): Ghost<Seq<Seq<u8>>>,
    )
        requires
            filled(old(buf)@, before, old(self).pos as int, joined(lines)),
        ensures
            filled(
                final(buf)@,
                before,
                final(self).pos as int,
                joined(lines.push(pair(key@, val@))),
            ),
    {
        let ghost l = pair(key@, val@);
        self.key(buf, key, Ghost(before), Ghost(joined(lines)));
        self.put(buf, val, Ghost(before), Ghost(joined(lines) + key@.push(61)));
        let nl: [u8; 1] = [10];
        let nl_bytes: &[u8] = &nl;
        assert(joined(lines) + key@.push(61) + val@ =~= joined(lines) + l);
        self.put(buf, nl_bytes, Ghost(before), Ghost(joined(lines) + l));
        proof {
            assert(lines.push(l).drop_last() =~= lines);
            assert(joined(lines) + l + nl_bytes@ =~= joined(lines.push(l)));
        }
    }
}

/// Writes the text of the settings file into `buf`, as much as it has room
/// for, and returns how many bytes that is.
pub fn write_settings_txt(s: &SystemSettings, w: &WifiConfig, buf: &mut [u8]) -> (r: usize)
    requires
        w.wf(),
    ensures
        filled(final(buf)@, old(buf)@, r as int, settings_text(config_of(*s, *w))),
{
    let ghost before = buf@;
    let ghost mut lines: Seq<Seq<u8>> = Seq::empty();
    let ghost c = config_of(*s, *w);
    let mut wr = TxtWriter { pos: 0 };
    assert(buf@ =~= joined(lines).take(0) + before.skip(0));
    let title = "# pulp-os settings".as_bytes();
    wr.line(buf, title, Ghost(before), Ghost(lines));
    proof {
        lines = lines.push(title@);
    }
    let note = "# lines starting with # are ignored".as_bytes();
    wr.line(buf, note, Ghost(before), Ghost(lines));
    proof {
        lines = lines.push(note@);
    }
    let none: [u8; 0] = [];
    let nothing: &[u8] = &none;
    assert(nothing@ =~= Seq::empty());
    wr.line(buf, nothing, Ghost(before), Ghost(lines));
    proof {
        lines = lines.push(Seq::empty());
    }
    wr.kv_num(
        buf,
        "sleep_timeout".as_bytes(),
        s.sleep_timeout,
        Ghost(before),
        Ghost(lines),
    );
    proof {
        lines = lines.push(pair(text_bytes("sleep_timeout"), decimal(s.sleep_timeout as nat)));
    }
    wr.kv_num(
        buf,
        "ghost_clear".as_bytes(),
        s.ghost_clear_every as u16,
        Ghost(before),
        Ghost(lines),
    );
    proof {
        lines = lines.push(pair(text_bytes("ghost_clear"), decimal(s.ghost_clear_every as nat)));
    }
    wr.kv_num(
        buf,
        "book_font".as_bytes(),
        s.book_font_size_idx as u16,
        Ghost(before),
        Ghost(lines),
    );
    proof {
        lines = lines.push(pair(text_bytes("book_font"), decimal(s.book_font_size_idx as nat)));
    }
    wr.kv_num(
        buf,
        "ui_font".as_bytes(),
        s.ui_font_size_idx as u16,
        Ghost(before),
        Ghost(lines),
    );
    proof {
        lines = lines.push(pair(text_bytes("ui_font"), decimal(s.ui_font_size_idx as nat)));
    }
    wr.line(buf, nothing, Ghost(before), Ghost(lines));
    proof {
        lines = lines.push(Seq::empty());
    }
    let wifi_note = "# wifi credentials for upload mode".as_bytes();
    wr.line(buf, wifi_note, Ghost(before), Ghost(lines));
    proof {
        lines = lines.push(wifi_note@);
    }
    wr.kv_str(buf, "wifi_ssid".as_bytes(), w.ssid_bytes(), Ghost(before), Ghost(lines));
    proof {
        lines = lines.push(pair(text_bytes("wifi_ssid"), w@.ssid));
    }
    wr.kv_str(buf, "wifi_pass".as_bytes(), w.pass_bytes(), Ghost(before), Ghost(lines));
    proof {
        lines = lines.push(pair(text_bytes("wifi_pass"), w@.pass));
        assert(lines == settings_lines(c));
    }
    wr.pos
}

impl Config {
    /// The configuration after a number of lines.
    pub open spec fn with_lines(self, lines: Seq<Seq<u8>>) -> Config
        decreases lines.len(),
    {
        if lines.len() == 0 {
            self
        } else {
            self.with_lines(lines.drop_last()).with_line(lines.last())
        }
    }
}

proof fn lemma_text_then_line(c: Config, data: Seq<u8>, line: Seq<u8>)
    requires
        data.len() > 0 ==> data.last() == 10,
        forall|i: int| 0 <= i < line.len() ==> line[i] != 10,
    ensures
        c.with_text(data + line.push(10)) == c.with_text(data).with_line(line),
    decreases data.len(),
{
    let all = data + line.push(10);
    if data.len() == 0 {
        assert(all =~= line.push(10));
        bytes::lemma_place_of(all, 10, 0, line.len() as int);
        assert(all.take(line.len() as int) =~= line);
        assert(all.skip(line.len() as int + 1) =~= Seq::empty());
        lemma_empty_text(c.with_line(line));
        assert(data =~= Seq::empty());
        lemma_empty_text(c);
    } else {
        let end = place_of(data, 10, 0);
        lemma_place_in_range(data, 10, 0);
        lemma_last_place(data, 0);
        assert(end < data.len());
        assert forall|j: int| 0 <= j < end implies all[j] != 10 by {
            assert(all[j] == data[j]);
        }
        bytes::lemma_place_of(all, 10, 0, end);
        assert(all.take(end) =~= data.take(end));
        let rest = data.skip(end + 1);
        assert(all.skip(end + 1) =~= rest + line.push(10));
        lemma_text_then_line(c.with_line(data.take(end)), rest, line);
    }
}

proof fn lemma_place_in_range(s: Seq<u8>, b: u8, i: int)
    requires
        0 <= i <= s.len(),
    ensures
        i <= place_of(s, b, i) <= s.len(),
        place_of(s, b, i) < s.len() ==> s[place_of(s, b, i)] == b,
        forall|j: int| i <= j < place_of(s, b, i) ==> s[j] != b,
    decreases s.len() - i,
{
    if i < s.len() && s[i] != b {
        lemma_place_in_range(s, b, i + 1);
    }
}

proof fn lemma_last_place(s: Seq<u8>, i: int)
    requires
        0 <= i < s.len(),
        s.last() == 10,
    ensures
        place_of(s, 10, i) < s.len(),
    decreases s.len() - i,
{
    if s[i] != 10 {
        lemma_last_place(s, i + 1);
    }
}

proof fn lemma_empty_text(c: Config)
    ensures
        c.with_text(Seq::empty()) == c,
{
    let e = Seq::<u8>::empty();
    assert(place_of(e, 10, 0) == 0);
    assert(trimmed(e) =~= e);
}

/// Reading lines that were written out one by one gives the same as taking
/// them one by one, as long as none holds a newline.
pub proof fn law_lines_are_independent(c: Config, lines: Seq<Seq<u8>>)
    requires
        forall|i: int, j: int|
            #![trigger lines[i][j]]
            0 <= i < lines.len() && 0 <= j < lines[i].len() ==> lines[i][j] != 10,
    ensures
        c.with_text(joined(lines)) == c.with_lines(lines),
        lines.len() > 0 ==> joined(lines).last() == 10,
    decreases lines.len(),
{
    if lines.len() == 0 {
        lemma_empty_text(c);
    } else {
        let front = lines.drop_last();
        assert forall|i: int, j: int|
            #![trigger front[i][j]]
            0 <= i < front.len() && 0 <= j < front[i].len() implies front[i][j] != 10 by {
            assert(front[i] == lines[i]);
            assert(lines[i][j] != 10);
        }
        law_lines_are_independent(c, front);
        assert forall|j: int| 0 <= j < lines.last().len() implies lines.last()[j] != 10 by {
            assert(lines[lines.len() - 1][j] != 10);
        }
        if front.len() == 0 {
            assert(joined(front) =~= Seq::empty());
        }
        lemma_text_then_line(c, joined(front), lines.last());
    }
}

/// Nothing around `s` would be trimmed off.
pub open spec fn tight(s: Seq<u8>) -> bool {
    s.len() > 0 ==> !blank(s[0]) && !blank(s.last())
}

/// A value that fits on a line of the settings file as it is.
pub open spec fn plain_value(s: Seq<u8>) -> bool {
    tight(s) && forall|i: int| 0 <= i < s.len() ==> s[i] != 10
}

proof fn lemma_tight(s: Seq<u8>)
    requires
        tight(s),
    ensures
        trimmed(s) == s,
{
}

proof fn lemma_pair_line(c: Config, key: Seq<u8>, val: Seq<u8>)
    requires
        key.len() > 0,
        tight(key),
        tight(val),
        key[0] != 35,
        forall|i: int| 0 <= i < key.len() ==> key[i] != 61,
    ensures
        c.with_line(pair(key, val)) == c.with(key, val),
{
    let l = pair(key, val);
    assert(tight(l)) by {
        assert(l[0] == key[0]);
        if val.len() > 0 {
            assert(l.last() == val.last());
        } else {
            assert(l.last() == 61);
        }
    }
    lemma_tight(l);
    bytes::lemma_place_of(l, 61, 0, key.len() as int);
    assert(l.take(key.len() as int) =~= key);
    assert(l.skip(key.len() as int + 1) =~= val);
    lemma_tight(key);
    lemma_tight(val);
}

proof fn lemma_comment_line(c: Config, l: Seq<u8>)
    requires
        l.len() > 0,
        tight(l),
        l[0] == 35,
    ensures
        c.with_line(l) == c,
{
    lemma_tight(l);
}

proof fn lemma_decimal(v: nat)
    ensures
        decimal(v).len() > 0,
        forall|i: int| 0 <= i < decimal(v).len() ==> digit(#[trigger] decimal(v)[i]),
        number(decimal(v)) == v,
    decreases v,
{
    if v < 10 {
        let d = decimal(v);
        assert(d.drop_last() =~= Seq::empty());
        assert(number(d.drop_last()) == 0);
    } else {
        lemma_decimal(v / 10);
        let d = decimal(v);
        assert(d.drop_last() =~= decimal(v / 10));
        assert forall|i: int| 0 <= i < d.len() implies digit(#[trigger] d[i]) by {
            if i < d.len() - 1 {
                assert(d[i] == decimal(v / 10)[i]);
            }
        }
    }
}

proof fn lemma_decimal_value(v: u16)
    ensures
        parsed_u16(decimal(v as nat)) == Some(v),
        tight(decimal(v as nat)),
        plain_value(decimal(v as nat)),
{
    lemma_decimal(v as nat);
    let d = decimal(v as nat);
    assert(digit(d[0]));
    assert(digit(d[d.len() - 1]));
}

proof fn lemma_key_text()
    ensures
        text_bytes("sleep_timeout").len() == 13,
        text_bytes("ghost_clear").len() == 11,
        text_bytes("book_font").len() == 9,
        text_bytes("ui_font").len() == 7,
        text_bytes("wifi_ssid").len() == 9,
        text_bytes("wifi_pass").len() == 9,
        text_bytes("# pulp-os settings").len() == 18,
        text_bytes("# lines starting with # are ignored").len() == 35,
        text_bytes("# wifi credentials for upload mode").len() == 34,
        text_bytes("book_font")[0] == 98,
        text_bytes("wifi_ssid")[0] == 119,
        text_bytes("wifi_ssid")[5] == 115,
        text_bytes("wifi_pass")[0] == 119,
        text_bytes("wifi_pass")[5] == 112,
        key_text(text_bytes("sleep_timeout")),
        key_text(text_bytes("ghost_clear")),
        key_text(text_bytes("book_font")),
        key_text(text_bytes("ui_font")),
        key_text(text_bytes("wifi_ssid")),
        key_text(text_bytes("wifi_pass")),
        note_text(text_bytes("# pulp-os settings")),
        note_text(text_bytes("# lines starting with # are ignored")),
        note_text(text_bytes("# wifi credentials for upload mode")),
{
    reveal_strlit("sleep_timeout");
    reveal_strlit("ghost_clear");
    reveal_strlit("book_font");
    reveal_strlit("ui_font");
    reveal_strlit("wifi_ssid");
    reveal_strlit("wifi_pass");
    reveal_strlit("# pulp-os settings");
    reveal_strlit("# lines starting with # are ignored");
    reveal_strlit("# wifi credentials for upload mode");
    bytes::lemma_ascii_text("sleep_timeout");
    bytes::lemma_ascii_text("ghost_clear");
    bytes::lemma_ascii_text("book_font");
    bytes::lemma_ascii_text("ui_font");
    bytes::lemma_ascii_text("wifi_ssid");
    bytes::lemma_ascii_text("wifi_pass");
    bytes::lemma_ascii_text("# pulp-os settings");
    bytes::lemma_ascii_text("# lines starting with # are ignored");
    bytes::lemma_ascii_text("# wifi credentials for upload mode");
}

/// A word that can stand as a key.
spec fn key_text(s: Seq<u8>) -> bool {
    &&& s.len() > 0
    &&& forall|i: int| 0 <= i < s.len() ==> #[trigger] s[i] > 61
}

/// A comment on one line.
spec fn note_text(s: Seq<u8>) -> bool {
    &&& s.len() > 0
    &&& s[0] == 35
    &&& s.last() > 35
    &&& forall|i: int| 0 <= i < s.len() ==> #[trigger] s[i] != 10
}

/// What was saved is what the next start reads back: the text written for any
/// settings and any credentials that fit on a line, read onto whatever stood
/// before, gives those settings and credentials again.
pub proof fn law_settings_round_trip(saved: Config, before: Config)
    requires
        saved.wifi.ssid.len() <= 32,
        saved.wifi.pass.len() <= 63,
        plain_value(saved.wifi.ssid),
        plain_value(saved.wifi.pass),
    ensures
        before.with_text(settings_text(saved)) == saved,
{
    let s = saved.settings;
    let lines = settings_lines(saved);
    lemma_key_text();
    lemma_decimal_value(s.sleep_timeout);
    lemma_decimal_value(s.ghost_clear_every as u16);
    lemma_decimal_value(s.book_font_size_idx as u16);
    lemma_decimal_value(s.ui_font_size_idx as u16);
    assert forall|i: int, j: int|
        #![trigger lines[i][j]]
        0 <= i < lines.len() && 0 <= j < lines[i].len() implies lines[i][j] != 10 by {
        let l = lines[i];
        if i == 0 || i == 1 || i == 8 {
            assert(note_text(l));
        } else if i == 2 || i == 7 {
        } else {
            if i == 3 {
                lemma_pair_plain(text_bytes("sleep_timeout"), decimal(s.sleep_timeout as nat));
            } else if i == 4 {
                lemma_pair_plain(text_bytes("ghost_clear"), decimal(s.ghost_clear_every as nat));
            } else if i == 5 {
                lemma_pair_plain(text_bytes("book_font"), decimal(s.book_font_size_idx as nat));
            } else if i == 6 {
                lemma_pair_plain(text_bytes("ui_font"), decimal(s.ui_font_size_idx as nat));
            } else if i == 9 {
                lemma_pair_plain(text_bytes("wifi_ssid"), saved.wifi.ssid);
            } else {
                lemma_pair_plain(text_bytes("wifi_pass"), saved.wifi.pass);
            }
        }
    }
    law_lines_are_independent(before, lines);
    lemma_read_lines(saved, before);
}

proof fn lemma_pair_plain(key: Seq<u8>, val: Seq<u8>)
    requires
        key_text(key),
        plain_value(val),
    ensures
        forall|i: int| 0 <= i < pair(key, val).len() ==> #[trigger] pair(key, val)[i] != 10,
{
    assert forall|i: int| 0 <= i < pair(key, val).len() implies #[trigger] pair(key, val)[i]
        != 10 by {
        if i < key.len() {
            assert(key[i] > 61);
        } else if i > key.len() {
            assert(pair(key, val)[i] == val[i - key.len() - 1]);
        }
    }
}

proof fn lemma_with_next(c: Config, lines: Seq<Seq<u8>>, line: Seq<u8>)
    ensures
        c.with_lines(lines.push(line)) == c.with_lines(lines).with_line(line),
{
    assert(lines.push(line).drop_last() =~= lines);
}

proof fn lemma_read_sleep(c: Config, v: u16)
    ensures
        c.with_line(pair(text_bytes("sleep_timeout"), decimal(v as nat))) == (Config {
            settings: SystemSettings { sleep_timeout: v, ..c.settings },
            ..c
        }),
{
    lemma_key_text();
    lemma_decimal_value(v);
    lemma_pair_line(c, text_bytes("sleep_timeout"), decimal(v as nat));
}

proof fn lemma_read_ghost(c: Config, v: u8)
    ensures
        c.with_line(pair(text_bytes("ghost_clear"), decimal(v as nat))) == (Config {
            settings: SystemSettings { ghost_clear_every: v, ..c.settings },
            ..c
        }),
{
    lemma_key_text();
    lemma_decimal_value(v as u16);
    lemma_pair_line(c, text_bytes("ghost_clear"), decimal(v as nat));
}

proof fn lemma_read_book_font(c: Config, v: u8)
    ensures
        c.with_line(pair(text_bytes("book_font"), decimal(v as nat))) == (Config {
            settings: SystemSettings { book_font_size_idx: v, ..c.settings },
            ..c
        }),
{
    lemma_key_text();
    lemma_decimal_value(v as u16);
    lemma_pair_line(c, text_bytes("book_font"), decimal(v as nat));
}

proof fn lemma_read_ui_font(c: Config, v: u8)
    ensures
        c.with_line(pair(text_bytes("ui_font"), decimal(v as nat))) == (Config {
            settings: SystemSettings { ui_font_size_idx: v, ..c.settings },
            ..c
        }),
{
    lemma_key_text();
    lemma_decimal_value(v as u16);
    lemma_pair_line(c, text_bytes("ui_font"), decimal(v as nat));
}

proof fn lemma_read_ssid(c: Config, v: Seq<u8>)
    requires
        v.len() <= 32,
        tight(v),
    ensures
        c.with_line(pair(text_bytes("wifi_ssid"), v)) == (Config {
            wifi: WifiView { ssid: v, ..c.wifi },
            ..c
        }),
{
    lemma_key_text();
    lemma_pair_line(c, text_bytes("wifi_ssid"), v);
    assert(cut(v, 32) =~= v);
}

proof fn lemma_read_pass(c: Config, v: Seq<u8>)
    requires
        v.len() <= 63,
        tight(v),
    ensures
        c.with_line(pair(text_bytes("wifi_pass"), v)) == (Config {
            wifi: WifiView { pass: v, ..c.wifi },
            ..c
        }),
{
    lemma_key_text();
    lemma_pair_line(c, text_bytes("wifi_pass"), v);
    assert(cut(v, 63) =~= v);
}

proof fn lemma_read_notes(c: Config)
    ensures
        c.with_line(text_bytes("# pulp-os settings")) == c,
        c.with_line(text_bytes("# lines starting with # are ignored")) == c,
        c.with_line(text_bytes("# wifi credentials for upload mode")) == c,
        c.with_line(Seq::empty()) == c,
{
    lemma_key_text();
    lemma_comment_line(c, text_bytes("# pulp-os settings"));
    lemma_comment_line(c, text_bytes("# lines starting with # are ignored"));
    lemma_comment_line(c, text_bytes("# wifi credentials for upload mode"));
    lemma_tight(Seq::empty());
}

proof fn lemma_read_lines(saved: Config, before: Config)
    requires
        saved.wifi.ssid.len() <= 32,
        saved.wifi.pass.len() <= 63,
        plain_value(saved.wifi.ssid),
        plain_value(saved.wifi.pass),
    ensures
        before.with_lines(settings_lines(saved)) == saved,
{
    let s = saved.settings;
    let none = Seq::<u8>::empty();
    let l0 = Seq::<Seq<u8>>::empty();
    let l1 = l0.push(text_bytes("# pulp-os settings"));
    let l2 = l1.push(text_bytes("# lines starting with # are ignored"));
    let l3 = l2.push(none);
    let l4 = l3.push(pair(text_bytes("sleep_timeout"), decimal(s.sleep_timeout as nat)));
    let l5 = l4.push(pair(text_bytes("ghost_clear"), decimal(s.ghost_clear_every as nat)));
    let l6 = l5.push(pair(text_bytes("book_font"), decimal(s.book_font_size_idx as nat)));
    let l7 = l6.push(pair(text_bytes("ui_font"), decimal(s.ui_font_size_idx as nat)));
    let l8 = l7.push(none);
    let l9 = l8.push(text_bytes("# wifi credentials for upload mode"));
    let l10 = l9.push(pair(text_bytes("wifi_ssid"), saved.wifi.ssid));
    let l11 = l10.push(pair(text_bytes("wifi_pass"), saved.wifi.pass));
    assert(l11 == settings_lines(saved));
    assert(before.with_lines(l3) == before) by {
        lemma_read_notes(before);
        lemma_with_next(before, l0, text_bytes("# pulp-os settings"));
        lemma_with_next(before, l1, text_bytes("# lines starting with # are ignored"));
        lemma_with_next(before, l2, none);
    }
    let c7 = Config { settings: s, ..before };
    assert(before.with_lines(l7) == c7) by {
        lemma_with_next(
            before,
            l3,
            pair(text_bytes("sleep_timeout"), decimal(s.sleep_timeout as nat)),
        );
        lemma_read_sleep(before, s.sleep_timeout);
        lemma_with_next(
            before,
            l4,
            pair(text_bytes("ghost_clear"), decimal(s.ghost_clear_every as nat)),
        );
        lemma_read_ghost(before.with_lines(l4), s.ghost_clear_every);
        lemma_with_next(
            before,
            l5,
            pair(text_bytes("book_font"), decimal(s.book_font_size_idx as nat)),
        );
        lemma_read_book_font(before.with_lines(l5), s.book_font_size_idx);
        lemma_with_next(
            before,
            l6,
            pair(text_bytes("ui_font"), decimal(s.ui_font_size_idx as nat)),
        );
        lemma_read_ui_font(before.with_lines(l6), s.ui_font_size_idx);
    }
    assert(before.with_lines(l9) == c7) by {
        lemma_read_notes(c7);
        lemma_with_next(before, l7, none);
        lemma_with_next(before, l8, text_bytes("# wifi credentials for upload mode"));
    }
    lemma_with_next(before, l9, pair(text_bytes("wifi_ssid"), saved.wifi.ssid));
    lemma_read_ssid(c7, saved.wifi.ssid);
    lemma_with_next(before, l10, pair(text_bytes("wifi_pass"), saved.wifi.pass));
    lemma_read_pass(before.with_lines(l10), saved.wifi.pass);
}

proof fn lemma_decimal_len(v: nat)
    ensures
        v < 1000 ==> decimal(v).len() <= 3,
        v < 100000 ==> decimal(v).len() <= 5,
{
    reveal_with_fuel(bytes::decimal, 6);
}

proof fn lemma_joined_len(lines: Seq<Seq<u8>>, line: Seq<u8>)
    ensures
        joined(lines.push(line)).len() == joined(lines).len() + line.len() + 1,
{
    assert(lines.push(line).drop_last() =~= lines);
}

pub proof fn lemma_text_is_not_empty(c: Config)
    ensures
        settings_text(c).len() > 0,
{
}

/// The settings file is never longer than 271 bytes.
pub proof fn law_settings_text_is_short(c: Config)
    requires
        c.wifi.ssid.len() <= 32,
        c.wifi.pass.len() <= 63,
    ensures
        settings_text(c).len() <= 271,
{
    let s = c.settings;
    lemma_decimal_len(s.sleep_timeout as nat);
    lemma_decimal_len(s.ghost_clear_every as nat);
    lemma_decimal_len(s.book_font_size_idx as nat);
    lemma_decimal_len(s.ui_font_size_idx as nat);
    lemma_key_text();
    let none = Seq::<u8>::empty();
    let l0 = Seq::<Seq<u8>>::empty();
    let l1 = l0.push(text_bytes("# pulp-os settings"));
    let l2 = l1.push(text_bytes("# lines starting with # are ignored"));
    let l3 = l2.push(none);
    let l4 = l3.push(pair(text_bytes("sleep_timeout"), decimal(s.sleep_timeout as nat)));
    let l5 = l4.push(pair(text_bytes("ghost_clear"), decimal(s.ghost_clear_every as nat)));
    let l6 = l5.push(pair(text_bytes("book_font"), decimal(s.book_font_size_idx as nat)));
    let l7 = l6.push(pair(text_bytes("ui_font"), decimal(s.ui_font_size_idx as nat)));
    let l8 = l7.push(none);
    let l9 = l8.push(text_bytes("# wifi credentials for upload mode"));
    let l10 = l9.push(pair(text_bytes("wifi_ssid"), c.wifi.ssid));
    assert(l10.push(pair(text_bytes("wifi_pass"), c.wifi.pass)) == settings_lines(c));
    lemma_joined_len(l0, l1.last());
    lemma_joined_len(l1, l2.last());
    lemma_joined_len(l2, none);
    lemma_joined_len(l3, l4.last());
    lemma_joined_len(l4, l5.last());
    lemma_joined_len(l5, l6.last());
    lemma_joined_len(l6, l7.last());
    lemma_joined_len(l7, none);
    lemma_joined_len(l8, l9.last());
    lemma_joined_len(l9, l10.last());
    lemma_joined_len(l10, pair(text_bytes("wifi_pass"), c.wifi.pass));
}

proof fn lemma_without_lead(s: Seq<u8>, a: int)
    requires
        0 <= a <= s.len(),
        forall|k: int| 0 <= k < a ==> blank(#[trigger] s[k]),
        a < s.len() ==> !blank(s[a]),
    ensures
        without_lead(s) == s.skip(a),
    decreases s.len(),
{
    if a > 0 {
        let t = s.skip(1);
        assert(blank(s[0]));
        assert forall|k: int| 0 <= k < a - 1 implies blank(#[trigger] t[k]) by {
            assert(t[k] == s[k + 1]);
        }
        lemma_without_lead(t, a - 1);
        assert(t.skip(a - 1) =~= s.skip(a));
    } else {
        assert(s.skip(0) =~= s);
    }
}

proof fn lemma_without_trail(s: Seq<u8>, b: int)
    requires
        0 <= b <= s.len(),
        forall|k: int| b <= k < s.len() ==> blank(#[trigger] s[k]),
        b > 0 ==> !blank(s[b - 1]),
    ensures
        without_trail(s) == s.take(b),
    decreases s.len(),
{
    if b < s.len() {
        let t = s.drop_last();
        assert(blank(s[s.len() - 1]));
        assert forall|k: int| b <= k < t.len() implies blank(#[trigger] t[k]) by {
            assert(t[k] == s[k]);
        }
        lemma_without_trail(t, b);
        assert(t.take(b) =~= s.take(b));
    } else {
        assert(s.take(b) =~= s);
    }
}

/// Trimming takes away the blanks around a text and nothing else.
pub proof fn law_trimming_takes_blanks_only(s: Seq<u8>, a: int, b: int)
    requires
        0 <= a < b <= s.len(),
        forall|k: int| 0 <= k < a ==> blank(#[trigger] s[k]),
        forall|k: int| b <= k < s.len() ==> blank(#[trigger] s[k]),
        !blank(s[a]),
        !blank(s[b - 1]),
    ensures
        trimmed(s) == s.subrange(a, b),
{
    lemma_without_lead(s, a);
    let t = s.skip(a);
    assert forall|k: int| b - a <= k < t.len() implies blank(#[trigger] t[k]) by {
        assert(t[k] == s[a + k]);
    }
    assert(t[b - a - 1] == s[b - 1]);
    lemma_without_trail(t, b - a);
    assert(t.take(b - a) =~= s.subrange(a, b));
}

/// A decimal number is a row of digits that stands for the number, without a
/// zero to lead it unless it is zero.
pub proof fn law_decimal_is_the_number(v: nat)
    ensures
        number(decimal(v)) == v,
        decimal(v).len() > 0,
        forall|i: int| 0 <= i < decimal(v).len() ==> digit(#[trigger] decimal(v)[i]),
        v > 0 ==> decimal(v)[0] != 48,
    decreases v,
{
    lemma_decimal(v);
    if v >= 10 {
        law_decimal_is_the_number(v / 10);
        assert(decimal(v)[0] == decimal(v / 10)[0]);
    }
}

} // verus!
