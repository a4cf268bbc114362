//! System settings (keyboard layout, time zone, host name, language) and the text of
//! the `/etc/mesa.conf` file that holds them.
use vstd::prelude::*;
use crate::text::{chars_of, dec, dec_signed, digit_char, push_char, push_dec_signed, push_str, string_from_chars, string_of};

verus! {

#[derive(Debug, Clone, Copy, PartialEq, Eq, Structural)]
pub enum KbdLayout {
    US,
    ES,
}

#[derive(Debug, Clone, Copy, PartialEq, Eq, Structural)]
pub enum Lang {
    EN,
    ES,
}

pub struct MesaConfig {
    pub kbd_layout: KbdLayout,
    pub tz_offset: i8,
    pub hostname: String,
    pub lang: Lang,
}

/// The settings as plain values.
pub struct ConfigView {
    pub kbd_layout: KbdLayout,
    pub tz_offset: i8,
    pub hostname: Seq<char>,
    pub lang: Lang,
}

impl MesaConfig {
    pub open spec fn view(&self) -> ConfigView {
        ConfigView { kbd_layout: self.kbd_layout, tz_offset: self.tz_offset, hostname: self.hostname@, lang: self.lang }
    }

    /// US keyboard, UTC+1, no host name yet, English.
    pub fn default() -> (res: Self)
        ensures
            res@ == (ConfigView { kbd_layout: KbdLayout::US, tz_offset: 1, hostname: Seq::empty(), lang: Lang::EN }),
    {
        MesaConfig { kbd_layout: KbdLayout::US, tz_offset: 1, hostname: String::new(), lang: Lang::EN }
    }
}

/// The white-space characters (Unicode `White_Space`) that `trim` removes.
pub open spec fn is_ws(c: char) -> bool {
    c == '\t' || c == '\n' || c == '\u{0B}' || c == '\u{0C}' || c == '\r' || c == ' '
        || c == '\u{85}' || c == '\u{A0}' || c == '\u{1680}' || ('\u{2000}' <= c && c <= '\u{200A}')
        || c == '\u{2028}' || c == '\u{2029}' || c == '\u{202F}' || c == '\u{205F}' || c == '\u{3000}'
}

fn is_ws_exec(c: char) -> (res: bool)
    ensures
        res == is_ws(c),
{
    c == '\t' || c == '\n' || c == '\u{0B}' || c == '\u{0C}' || c == '\r' || c == ' '
        || c == '\u{85}' || c == '\u{A0}' || c == '\u{1680}' || ('\u{2000}' <= c && c <= '\u{200A}')
        || c == '\u{2028}' || c == '\u{2029}' || c == '\u{202F}' || c == '\u{205F}' || c == '\u{3000}'
}

/// The first index at or after `i` that is not white space (or `j`).
pub open spec fn skip_ws_front(s: Seq<char>, i: int, j: int) -> int
    decreases j - i,
{
    if i < j && is_ws(s[i]) { skip_ws_front(s, i + 1, j) } else { i }
}

/// The end, at or before `j`, of the text once trailing white space is removed.
pub open spec fn skip_ws_back(s: Seq<char>, i: int, j: int) -> int
    decreases j - i,
{
    if i < j && is_ws(s[j - 1]) { skip_ws_back(s, i, j - 1) } else { j }
}

/// `s[i..j]` without leading and trailing white space.
pub open spec fn trim(s: Seq<char>, i: int, j: int) -> Seq<char> {
    let a = skip_ws_front(s, i, j);
    s.subrange(a, skip_ws_back(s, a, j))
}

/// The lines of a text (split at `\n`; the last line may be empty).
pub open spec fn lines(s: Seq<char>) -> Seq<Seq<char>>
    decreases s.len(),
{
    if s.len() == 0 {
        seq![Seq::<char>::empty()]
    } else {
        let prev = lines(s.drop_last());
        if s.last() == '\n' {
            prev.push(Seq::<char>::empty())
        } else {
            prev.update(prev.len() - 1, prev.last().push(s.last()))
        }
    }
}

/// The value of a decimal digit character.
pub open spec fn digit_val(c: char) -> int {
    c as int - '0' as int
}

pub open spec fn is_digit(c: char) -> bool {
    '0' <= c && c <= '9'
}

/// The value of the digits `s[i..j]`, or `None` if one is not a digit.
pub open spec fn digits_value(s: Seq<char>, i: int, j: int) -> Option<int>
    decreases j - i,
{
    if j <= i {
        Some(0)
    } else {
        match digits_value(s, i, j - 1) {
            Some(v) => if is_digit(s[j - 1]) { Some(v * 10 + digit_val(s[j - 1])) } else { None },
            None => None,
        }
    }
}

/// How `str::parse::<i8>` reads a text: an optional sign and at least one digit, within
/// the range of `i8`.
pub open spec fn parse_i8(s: Seq<char>) -> Option<i8> {
    let neg = s.len() > 0 && s[0] == '-';
    let start: int = if s.len() > 0 && (s[0] == '-' || s[0] == '+') { 1 } else { 0 };
    if s.len() <= start {
        None
    } else {
        match digits_value(s, start, s.len() as int) {
            Some(v) => {
                let w = if neg { -v } else { v };
                if -128 <= w <= 127 { Some(w as i8) } else { None }
            },
            None => None,
        }
    }
}

/// The number of `=` in a line.
pub open spec fn count_eq(s: Seq<char>) -> nat
    decreases s.len(),
{
    if s.len() == 0 { 0 } else { count_eq(s.drop_last()) + if s.last() == '=' { 1nat } else { 0nat } }
}

/// The position of the first `=` in a line.
pub open spec fn first_eq(s: Seq<char>) -> int
    decreases s.len(),
{
    if s.len() == 0 { 0 } else if count_eq(s.drop_last()) > 0 { first_eq(s.drop_last()) } else { s.len() - 1 }
}

/// The settings after one `key=value` line; lines without exactly one `=`, and unknown
/// keys, change nothing.
pub open spec fn apply_line(c: ConfigView, line: Seq<char>) -> ConfigView {
    if count_eq(line) != 1 {
        c
    } else {
        let e = first_eq(line);
        let key = trim(line, 0, e);
        let val = trim(line, e + 1, line.len() as int);
        if key == "kbd"@ {
            ConfigView { kbd_layout: if val == "es"@ { KbdLayout::ES } else { KbdLayout::US }, ..c }
        } else if key == "tz"@ {
            match parse_i8(val) {
                Some(o) => ConfigView { tz_offset: o, ..c },
                None => c,
            }
        } else if key == "host"@ {
            ConfigView { hostname: val, ..c }
        } else if key == "lang"@ {
            ConfigView { lang: if val == "es"@ { Lang::ES } else { Lang::EN }, ..c }
        } else {
            c
        }
    }
}

/// The settings after the lines, in order.
pub open spec fn apply_lines(c: ConfigView, ls: Seq<Seq<char>>) -> ConfigView
    decreases ls.len(),
{
    if ls.len() == 0 { c } else { apply_line(apply_lines(c, ls.drop_last()), ls.last()) }
}

/// The range `[lo, hi)` of `s` without white space at either end.
pub fn trim_range(s: &Vec<char>, lo: usize, hi: usize) -> (res: (usize, usize))
    requires
        lo <= hi <= s@.len(),
    ensures
        res.0 == skip_ws_front(s@, lo as int, hi as int),
        res.1 == skip_ws_back(s@, res.0 as int, hi as int),
        lo <= res.0 <= res.1 <= hi,
{
    let mut a = lo;
    while a < hi && is_ws_exec(s[a])
        invariant
            lo <= a <= hi <= s@.len(),
            skip_ws_front(s@, a as int, hi as int) == skip_ws_front(s@, lo as int, hi as int),
        decreases hi - a,
    {
        a = a + 1;
    }
    let mut b = hi;
    while b > a && is_ws_exec(s[b - 1])
        invariant
            a <= b <= hi <= s@.len(),
            skip_ws_back(s@, a as int, b as int) == skip_ws_back(s@, a as int, hi as int),
        decreases b - a,
    {
        b = b - 1;
    }
    (a, b)
}

/// Whether `s[a..b]` spells the characters of `lit`.
fn range_is(s: &Vec<char>, a: usize, b: usize, lit: &str) -> (res: bool)
    requires
        a <= b <= s@.len(),
    ensures
        res == (s@.subrange(a as int, b as int) == lit@),
{
    let l = chars_of(lit);
    if b - a != l.len() {
        return false;
    }
    let mut i: usize = 0;
    while i < l.len()
        invariant
            l@ == lit@,
            b - a == l@.len(),
            a <= b <= s@.len(),
            i <= l@.len(),
            forall|k: int| 0 <= k < i ==> s@[a + k] == l@[k],
        decreases l@.len() - i,
    {
        if s[a + i] != l[i] {
            assert(s@.subrange(a as int, b as int)[i as int] != lit@[i as int]);
            return false;
        }
        i = i + 1;
    }
    assert(s@.subrange(a as int, b as int) =~= lit@);
    true
}

proof fn lemma_digits_grow(s: Seq<char>, i: int, k: int, j: int)
    requires
        i <= k <= j,
        digits_value(s, i, k) matches Some(v) && v > 128,
    ensures
        digits_value(s, i, j) matches Some(w) ==> w > 128,
    decreases j - k,
{
    if j > k {
        lemma_digits_grow(s, i, k, j - 1);
        lemma_digits_nonneg(s, i, j - 1);
    }
}

proof fn lemma_digits_nonneg(s: Seq<char>, i: int, j: int)
    ensures
        digits_value(s, i, j) matches Some(w) ==> w >= 0,
    decreases j - i,
{
    if j > i {
        lemma_digits_nonneg(s, i, j - 1);
    }
}

/// Reads `s[a..b]` as `str::parse::<i8>` does.
fn parse_i8_range(s: &Vec<char>, a: usize, b: usize) -> (res: Option<i8>)
    requires
        a <= b <= s@.len(),
    ensures
        res == parse_i8(s@.subrange(a as int, b as int)),
{
    let ghost t = s@.subrange(a as int, b as int);
    let neg = b > a && s[a] == '-';
    let start: usize = if b > a && (s[a] == '-' || s[a] == '+') { a + 1 } else { a };
    assert(t.len() == b - a);
    assert(b > a ==> t[0] == s@[a as int]);
    assert(start - a == (if t.len() > 0 && (t[0] == '-' || t[0] == '+') { 1int } else { 0int }));
    assert(neg == (t.len() > 0 && t[0] == '-'));
    if b <= start {
        return None;
    }
    let mut v: i64 = 0;
    let mut j: usize = start;
    while j < b
        invariant
            a <= start <= j <= b <= s@.len(),
            t == s@.subrange(a as int, b as int),
            t.len() == b - a,
            start - a == (if t.len() > 0 && (t[0] == '-' || t[0] == '+') { 1int } else { 0int }),
            neg == (t.len() > 0 && t[0] == '-'),
            0 <= v <= 128,
            digits_value(t, start - a, j - a) == Some(v as int),
        decreases b - j,
    {
        let c = s[j];
        assert(t[j - a] == c);
        if !('0' <= c && c <= '9') {
            assert(digits_value(t, (start - a) as int, (j - a + 1) as int) is None);
            proof { lemma_none_stays(t, (start - a) as int, (j - a + 1) as int, (b - a) as int); }
            assert(digits_value(t, (start - a) as int, t.len() as int) is None);
            assert(parse_i8(t) is None);
            return None;
        }
        let d: i64 = (c as u32 - '0' as u32) as i64;
        v = v * 10 + d;
        assert(digits_value(t, (start - a) as int, (j - a + 1) as int) == Some(v as int));
        if v > 128 {
            proof {
                lemma_digits_grow(t, (start - a) as int, (j - a + 1) as int, (b - a) as int);
            }
            assert(digits_value(t, (start - a) as int, t.len() as int) matches Some(w) ==> w > 128);
            assert(parse_i8(t) is None);
            return None;
        }
        j = j + 1;
    }
    let w: i64 = if neg { -v } else { v };
    if -128 <= w && w <= 127 {
        Some(w as i8)
    } else {
        None
    }
}

proof fn lemma_none_stays(s: Seq<char>, i: int, k: int, j: int)
    requires
        i <= k <= j,
        digits_value(s, i, k) is None,
    ensures
        digits_value(s, i, j) is None,
    decreases j - k,
{
    if j > k {
        lemma_none_stays(s, i, k, j - 1);
    }
}

/// The settings after one line of the file.
fn eq_info(line: &Vec<char>) -> (res: (usize, usize))
    ensures
        res.0 == count_eq(line@),
        res.0 > 0 ==> res.1 == first_eq(line@) && res.1 < line@.len(),
{
    let mut count: usize = 0;
    let mut first: usize = 0;
    let mut j: usize = 0;
    while j < line.len()
        invariant
            j <= line@.len(),
            count == count_eq(line@.subrange(0, j as int)),
            count <= j,
            count > 0 ==> first == first_eq(line@.subrange(0, j as int)) && first < j,
        decreases line@.len() - j,
    {
        proof {
            assert(line@.subrange(0, j + 1).drop_last() =~= line@.subrange(0, j as int));
        }
        if line[j] == '=' {
            if count == 0 {
                first = j;
            }
            count = count + 1;
        }
        j = j + 1;
    }
    assert(line@.subrange(0, line@.len() as int) =~= line@);
    (count, first)
}

fn apply_line_exec(cfg: &mut MesaConfig, line: &Vec<char>)
    ensures
        final(cfg)@ == apply_line(old(cfg)@, line@),
{
    let _n = line.len();
    let (count, first) = eq_info(line);
    if count != 1 {
        return;
    }
    let (ka, kb) = trim_range(line, 0, first);
    assert(first < line@.len());
    let (va, vb) = trim_range(line, first + 1, line.len());
    proof {
        assert(line@.subrange(ka as int, kb as int) == trim(line@, 0, first as int));
    }
    if range_is(line, ka, kb, "kbd") {
        cfg.kbd_layout = if range_is(line, va, vb, "es") { KbdLayout::ES } else { KbdLayout::US };
    } else if range_is(line, ka, kb, "tz") {
        match parse_i8_range(line, va, vb) {
            Some(o) => {
                cfg.tz_offset = o;
            },
            None => {},
        }
    } else if range_is(line, ka, kb, "host") {
        cfg.hostname = string_from_chars(line, va, vb);
    } else if range_is(line, ka, kb, "lang") {
        cfg.lang = if range_is(line, va, vb, "es") { Lang::ES } else { Lang::EN };
    }
}

/// Sets the host name to `mesa`, then applies the lines of the settings file when
/// there is one.
pub fn init(cfg: &mut MesaConfig, content: Option<&str>)
    ensures
        ({
            let base = ConfigView { hostname: "mesa"@, ..old(cfg)@ };
            match content {
                Some(t) => final(cfg)@ == apply_lines(base, lines(t@)),
                None => final(cfg)@ == base,
            }
        }),
{
    cfg.hostname = string_of("mesa");
    let text = match content {
        Some(t) => t,
        None => return,
    };
    let v = chars_of(text);
    let ghost base = cfg@;
    let mut current: Vec<char> = Vec::new();
    let mut i: usize = 0;
    while i < v.len()
        invariant
            i <= v@.len(),
            v@ == text@,
            cfg@ == apply_lines(base, lines(v@.subrange(0, i as int)).drop_last()),
            current@ == lines(v@.subrange(0, i as int)).last(),
            lines(v@.subrange(0, i as int)).len() >= 1,
        decreases v@.len() - i,
    {
        let ghost prefix = v@.subrange(0, i as int);
        proof {
            assert(v@.subrange(0, i + 1).drop_last() =~= prefix);
            lemma_lines_nonempty(prefix);
        }
        if v[i] == '\n' {
            apply_line_exec(cfg, &current);
            current = Vec::new();
            proof {
                let ls = lines(prefix);
                assert(lines(v@.subrange(0, i + 1)) == ls.push(Seq::<char>::empty()));
                assert(ls.push(Seq::<char>::empty()).drop_last() =~= ls);
                assert(ls =~= ls.drop_last().push(ls.last()));
            }
        } else {
            current.push(v[i]);
            proof {
                let ls = lines(prefix);
                let ls2 = ls.update(ls.len() - 1, ls.last().push(v@[i as int]));
                assert(lines(v@.subrange(0, i + 1)) == ls2);
                assert(ls2.drop_last() =~= ls.drop_last());
            }
        }
        i = i + 1;
    }
    apply_line_exec(cfg, &current);
    proof {
        let ls = lines(v@.subrange(0, i as int));
        assert(v@.subrange(0, i as int) =~= text@);
        assert(ls =~= ls.drop_last().push(ls.last()));
    }
}

proof fn lemma_lines_nonempty(s: Seq<char>)
    ensures
        lines(s).len() >= 1,
    decreases s.len(),
{
    if s.len() > 0 {
        lemma_lines_nonempty(s.drop_last());
    }
}

/// The text of the settings file for the settings `c`.
pub open spec fn spec_save(c: ConfigView) -> Seq<char> {
    "kbd="@ + (if c.kbd_layout == KbdLayout::ES { "es"@ } else { "us"@ }) + "\ntz="@
        + dec_signed(c.tz_offset as int) + "\nhost="@ + c.hostname + "\nlang="@
        + (if c.lang == Lang::ES { "es"@ } else { "en"@ }) + "\n"@
}

/// The text to write to `/etc/mesa.conf`.
pub fn save(cfg: &MesaConfig) -> (res: String)
    ensures
        res@ == spec_save(cfg@),
{
    let mut c = String::new();
    push_str(&mut c, "kbd=");
    push_str(&mut c, if cfg.kbd_layout == KbdLayout::ES { "es" } else { "us" });
    push_str(&mut c, "\ntz=");
    push_dec_signed(&mut c, cfg.tz_offset as i64);
    push_str(&mut c, "\nhost=");
    push_str(&mut c, cfg.hostname.as_str());
    push_str(&mut c, "\nlang=");
    push_str(&mut c, if cfg.lang == Lang::ES { "es" } else { "en" });
    push_str(&mut c, "\n");
    assert(c@ =~= spec_save(cfg@));
    c
}

pub fn get_hostname(cfg: &MesaConfig) -> (res: String)
    ensures
        res@ == cfg.hostname@,
{
    cfg.hostname.clone()
}

/// Sets the host name; returns the text to save.
pub fn set_hostname(cfg: &mut MesaConfig, name: &str) -> (res: String)
    ensures
        final(cfg)@ == (ConfigView { hostname: name@, ..old(cfg)@ }),
        res@ == spec_save(final(cfg)@),
{
    cfg.hostname = string_of(name);
    save(cfg)
}

pub fn get_tz_offset(cfg: &MesaConfig) -> (res: i8)
    ensures
        res == cfg.tz_offset,
{
    cfg.tz_offset
}

/// Sets the base time-zone offset; returns the text to save.
pub fn set_tz_offset(cfg: &mut MesaConfig, offset: i8) -> (res: String)
    ensures
        final(cfg)@ == (ConfigView { tz_offset: offset, ..old(cfg)@ }),
        res@ == spec_save(final(cfg)@),
{
    cfg.tz_offset = offset;
    save(cfg)
}

pub fn get_kbd_layout(cfg: &MesaConfig) -> (res: KbdLayout)
    ensures
        res == cfg.kbd_layout,
{
    cfg.kbd_layout
}

/// Sets the keyboard layout; returns the text to save.
pub fn set_kbd_layout(cfg: &mut MesaConfig, layout: KbdLayout) -> (res: String)
    ensures
        final(cfg)@ == (ConfigView { kbd_layout: layout, ..old(cfg)@ }),
        res@ == spec_save(final(cfg)@),
{
    cfg.kbd_layout = layout;
    save(cfg)
}

pub fn get_lang(cfg: &MesaConfig) -> (res: Lang)
    ensures
        res == cfg.lang,
{
    cfg.lang
}

/// Sets the language; returns the text to save.
pub fn set_lang(cfg: &mut MesaConfig, lang: Lang) -> (res: String)
    ensures
        final(cfg)@ == (ConfigView { lang, ..old(cfg)@ }),
        res@ == spec_save(final(cfg)@),
{
    cfg.lang = lang;
    save(cfg)
}


// ---------------------------------------------------------------------------
// Reading back what was saved.

/// Text without a newline extends the last line.
proof fn lemma_lines_extend(p: Seq<char>, t: Seq<char>)
    requires
        forall|k: int| 0 <= k < t.len() ==> t[k] != '\n',
    ensures
        lines(p + t) == lines(p).update(lines(p).len() - 1, lines(p).last() + t),
    decreases t.len(),
{
    lemma_lines_nonempty(p);
    if t.len() == 0 {
        assert(p + t =~= p);
        assert(lines(p).last() + t =~= lines(p).last());
        assert(lines(p).update(lines(p).len() - 1, lines(p).last() + t) =~= lines(p));
    } else {
        let t0 = t.drop_last();
        lemma_lines_extend(p, t0);
        assert((p + t).drop_last() =~= p + t0);
        assert((p + t).last() == t.last());
        let prev = lines(p + t0);
        assert(prev.last() == lines(p).last() + t0);
        assert(prev.last().push(t.last()) =~= lines(p).last() + t);
        assert(prev.update(prev.len() - 1, prev.last().push(t.last())) =~= lines(p).update(lines(p).len() - 1,
            lines(p).last() + t));
    }
}

/// A newline starts a new, empty line.
proof fn lemma_lines_newline(p: Seq<char>)
    ensures
        lines(p + seq!['\n']) == lines(p).push(Seq::<char>::empty()),
{
    assert((p + seq!['\n']).drop_last() =~= p);
}

proof fn lemma_count_eq_append(a: Seq<char>, b: Seq<char>)
    ensures
        count_eq(a + b) == count_eq(a) + count_eq(b),
    decreases b.len(),
{
    if b.len() == 0 {
        assert(a + b =~= a);
    } else {
        lemma_count_eq_append(a, b.drop_last());
        assert((a + b).drop_last() =~= a + b.drop_last());
    }
}

proof fn lemma_count_eq_none(a: Seq<char>)
    requires
        forall|k: int| 0 <= k < a.len() ==> a[k] != '=',
    ensures
        count_eq(a) == 0,
    decreases a.len(),
{
    if a.len() > 0 {
        lemma_count_eq_none(a.drop_last());
    }
}

/// In `key=val` with no `=` in `key`, the first `=` is right after the key.
proof fn lemma_first_eq(key: Seq<char>, val: Seq<char>)
    requires
        forall|k: int| 0 <= k < key.len() ==> key[k] != '=',
    ensures
        first_eq(key + seq!['='] + val) == key.len(),
    decreases val.len(),
{
    let line = key + seq!['='] + val;
    lemma_count_eq_none(key);
    if val.len() == 0 {
        assert(line.drop_last() =~= key);
    } else {
        lemma_first_eq(key, val.drop_last());
        assert(line.drop_last() =~= key + seq!['='] + val.drop_last());
        lemma_count_eq_append(key, seq!['=']);
        lemma_count_eq_append(key + seq!['='], val.drop_last());
        lemma_count_eq_one();
    }
}

proof fn lemma_skip_front_range(s: Seq<char>, i: int, j: int)
    requires
        i <= j,
    ensures
        i <= skip_ws_front(s, i, j) <= j,
    decreases j - i,
{
    if i < j && is_ws(s[i]) {
        lemma_skip_front_range(s, i + 1, j);
    }
}

proof fn lemma_skip_back_range(s: Seq<char>, i: int, j: int)
    requires
        i <= j,
    ensures
        i <= skip_ws_back(s, i, j) <= j,
    decreases j - i,
{
    if i < j && is_ws(s[j - 1]) {
        lemma_skip_back_range(s, i, j - 1);
    }
}

proof fn lemma_skip_front_shift(pre: Seq<char>, h: Seq<char>, i: int, j: int)
    requires
        0 <= i <= j <= h.len(),
    ensures
        skip_ws_front(pre + h, pre.len() + i, pre.len() + j) == pre.len() + skip_ws_front(h, i, j),
    decreases j - i,
{
    if i < j {
        assert((pre + h)[pre.len() + i] == h[i]);
        if is_ws(h[i]) {
            lemma_skip_front_shift(pre, h, i + 1, j);
        }
    }
}

proof fn lemma_skip_back_shift(pre: Seq<char>, h: Seq<char>, i: int, j: int)
    requires
        0 <= i <= j <= h.len(),
    ensures
        skip_ws_back(pre + h, pre.len() + i, pre.len() + j) == pre.len() + skip_ws_back(h, i, j),
    decreases j - i,
{
    if i < j {
        assert((pre + h)[pre.len() + j - 1] == h[j - 1]);
        if is_ws(h[j - 1]) {
            lemma_skip_back_shift(pre, h, i, j - 1);
        }
    }
}

/// A value that `trim` leaves as it is: no white space at either end.
pub open spec fn is_trimmed(h: Seq<char>) -> bool {
    trim(h, 0, h.len() as int) == h
}

/// In `key=val`, trimming the part after the `=` gives `val` back when `val` is trimmed.
proof fn lemma_trim_value(key: Seq<char>, val: Seq<char>)
    requires
        is_trimmed(val),
    ensures
        trim(key + seq!['='] + val, key.len() + 1int, key.len() + 1int + val.len()) == val,
{
    let pre = key + seq!['='];
    let line = pre + val;
    assert(key + seq!['='] + val == line);
    lemma_skip_front_range(val, 0, val.len() as int);
    let a = skip_ws_front(val, 0, val.len() as int);
    lemma_skip_back_range(val, a, val.len() as int);
    let b = skip_ws_back(val, a, val.len() as int);
    assert(val.subrange(a, b).len() == val.len());
    assert(a == 0 && b == val.len());
    lemma_skip_front_shift(pre, val, 0, val.len() as int);
    lemma_skip_back_shift(pre, val, 0, val.len() as int);
    assert(line.subrange(pre.len() as int, pre.len() + val.len() as int) =~= val);
}

/// A key made of letters is its own trimmed text.
proof fn lemma_trim_key(key: Seq<char>, val: Seq<char>)
    requires
        key.len() >= 1,
        !is_ws(key[0]),
        !is_ws(key[key.len() - 1]),
    ensures
        trim(key + seq!['='] + val, 0, key.len() as int) == key,
{
    let line = key + seq!['='] + val;
    assert(line[0] == key[0]);
    assert(line[key.len() - 1] == key[key.len() - 1]);
    assert(skip_ws_front(line, 0, key.len() as int) == 0);
    assert(skip_ws_back(line, 0, key.len() as int) == key.len());
    assert(line.subrange(0, key.len() as int) =~= key);
}

proof fn lemma_digits_prefix(s: Seq<char>, x: char, i: int, j: int)
    requires
        0 <= i <= j <= s.len(),
    ensures
        digits_value(s.push(x), i, j) == digits_value(s, i, j),
    decreases j - i,
{
    if i < j {
        lemma_digits_prefix(s, x, i, j - 1);
        assert(s.push(x)[j - 1] == s[j - 1]);
    }
}

proof fn lemma_digits_shift(c: char, s: Seq<char>, i: int, j: int)
    requires
        0 <= i <= j <= s.len(),
    ensures
        digits_value(seq![c] + s, i + 1, j + 1) == digits_value(s, i, j),
    decreases j - i,
{
    if i < j {
        lemma_digits_shift(c, s, i, j - 1);
        assert((seq![c] + s)[j] == s[j - 1]);
    }
}

/// The decimal digits of `n` read back as `n`.
proof fn lemma_dec_value(n: nat)
    ensures
        digits_value(dec(n), 0, dec(n).len() as int) == Some(n as int),
        dec(n).len() >= 1,
        dec(n)[0] != '-' && dec(n)[0] != '+',
    decreases n,
{
    if n < 10 {
        assert(digits_value(seq![digit_char(n)], 0, 0) == Some(0int));
    } else {
        lemma_dec_value(n / 10);
        let d = dec(n / 10);
        lemma_digits_prefix(d, digit_char(n % 10), 0, d.len() as int);
        assert(dec(n).len() == d.len() + 1);
        assert(dec(n)[d.len() as int] == digit_char(n % 10));
        assert(dec(n)[0] == d[0]);
        assert(digit_val(digit_char(n % 10)) == n % 10);
    }
}

/// `parse_i8` reads back what `dec_signed` wrote.
proof fn lemma_parse_dec_signed(t: i8)
    ensures
        parse_i8(dec_signed(t as int)) == Some(t),
{
    if t < 0 {
        let n = (-t) as nat;
        lemma_dec_value(n);
        let s = seq!['-'] + dec(n);
        lemma_digits_shift('-', dec(n), 0, dec(n).len() as int);
        assert(s.len() == dec(n).len() + 1);
        assert(s[0] == '-');
    } else {
        lemma_dec_value(t as nat);
    }
}

/// The text `save` writes, line by line.
proof fn lemma_save_lines(c: ConfigView)
    requires
        forall|k: int| 0 <= k < c.hostname.len() ==> c.hostname[k] != '\n',
    ensures
        lines(spec_save(c)) == seq![
            "kbd="@ + (if c.kbd_layout == KbdLayout::ES { "es"@ } else { "us"@ }),
            "tz="@ + dec_signed(c.tz_offset as int),
            "host="@ + c.hostname,
            "lang="@ + (if c.lang == Lang::ES { "es"@ } else { "en"@ }),
            Seq::<char>::empty()],
{
    reveal_strlit("kbd=");
    reveal_strlit("\ntz=");
    reveal_strlit("tz=");
    reveal_strlit("\nhost=");
    reveal_strlit("host=");
    reveal_strlit("\nlang=");
    reveal_strlit("lang=");
    reveal_strlit("\n");
    reveal_strlit("es");
    reveal_strlit("us");
    reveal_strlit("en");
    let k = if c.kbd_layout == KbdLayout::ES { "es"@ } else { "us"@ };
    let d = dec_signed(c.tz_offset as int);
    let h = c.hostname;
    let l = if c.lang == Lang::ES { "es"@ } else { "en"@ };
    let nl = seq!['\n'];
    let s1 = "kbd="@ + k;
    let s2 = "tz="@ + d;
    let s3 = "host="@ + h;
    let s4 = "lang="@ + l;
    assert(forall|q: int| 0 <= q < s1.len() ==> s1[q] != '\n');
    assert(forall|q: int| 0 <= q < d.len() ==> d[q] != '\n') by {
        assert forall|q: int| 0 <= q < d.len() implies d[q] != '\n' by {
            lemma_dec_chars(if c.tz_offset < 0 { (-c.tz_offset) as nat } else { c.tz_offset as nat });
        }
    }
    assert(forall|q: int| 0 <= q < s2.len() ==> s2[q] != '\n');
    assert(forall|q: int| 0 <= q < s3.len() ==> s3[q] != '\n');
    assert(forall|q: int| 0 <= q < s4.len() ==> s4[q] != '\n');
    let e = Seq::<char>::empty();
    assert(spec_save(c) =~= e + s1 + nl + s2 + nl + s3 + nl + s4 + nl);
    assert(lines(e) == seq![e]);
    lemma_lines_extend(e, s1);
    assert(e + s1 =~= s1);
    lemma_lines_newline(e + s1);
    lemma_lines_extend(e + s1 + nl, s2);
    lemma_lines_newline(e + s1 + nl + s2);
    lemma_lines_extend(e + s1 + nl + s2 + nl, s3);
    lemma_lines_newline(e + s1 + nl + s2 + nl + s3);
    lemma_lines_extend(e + s1 + nl + s2 + nl + s3 + nl, s4);
    lemma_lines_newline(e + s1 + nl + s2 + nl + s3 + nl + s4);
    assert(lines(e + s1 + nl + s2 + nl + s3 + nl + s4 + nl) =~= seq![s1, s2, s3, s4, e]);
}

/// Decimal digits are digits (no sign, no newline).
proof fn lemma_dec_chars(n: nat)
    ensures
        forall|q: int| 0 <= q < dec(n).len() ==> is_digit(#[trigger] dec(n)[q]),
    decreases n,
{
    if n >= 10 {
        lemma_dec_chars(n / 10);
        assert forall|q: int| 0 <= q < dec(n).len() implies is_digit(#[trigger] dec(n)[q]) by {
            if q < dec(n / 10).len() {
                assert(dec(n)[q] == dec(n / 10)[q]);
            }
        }
    }
}

proof fn lemma_count_eq_one()
    ensures
        count_eq(seq!['=']) == 1,
{
    assert(seq!['='].drop_last() =~= Seq::<char>::empty());
    assert(count_eq(Seq::<char>::empty()) == 0);
    assert(seq!['='].last() == '=');
}

proof fn lemma_two_letters_trimmed(v: Seq<char>)
    requires
        v.len() == 2,
        !is_ws(v[0]),
        !is_ws(v[1]),
        v[0] != '=' && v[1] != '=',
    ensures
        is_trimmed(v),
        forall|q: int| 0 <= q < v.len() ==> v[q] != '=',
{
    assert(skip_ws_front(v, 0, 2) == 0);
    assert(skip_ws_back(v, 0, 2) == 2);
    assert(v.subrange(0, 2) =~= v);
}

proof fn lemma_apply_kbd(x: ConfigView, layout: KbdLayout)
    ensures
        apply_line(x, "kbd="@ + (if layout == KbdLayout::ES { "es"@ } else { "us"@ })) == (ConfigView { kbd_layout: layout, ..x }),
{
    reveal_strlit("kbd=");
    reveal_strlit("kbd");
    reveal_strlit("es");
    reveal_strlit("us");
    let k = if layout == KbdLayout::ES { "es"@ } else { "us"@ };
    lemma_two_letters_trimmed(k);
    lemma_line_applies("kbd"@, k, x);
    assert("kbd="@ + k =~= "kbd"@ + seq!['='] + k);
}

proof fn lemma_apply_tz(x: ConfigView, t: i8)
    ensures
        apply_line(x, "tz="@ + dec_signed(t as int)) == (ConfigView { tz_offset: t, ..x }),
{
    reveal_strlit("tz=");
    reveal_strlit("tz");
    reveal_strlit("kbd");
    let d = dec_signed(t as int);
    let n: nat = if t < 0 { (-t) as nat } else { t as nat };
    lemma_dec_chars(n);
    lemma_dec_value(n);
    assert(forall|q: int| 0 <= q < d.len() ==> d[q] != '=' && !is_ws(d[q])) by {
        assert forall|q: int| 0 <= q < d.len() implies d[q] != '=' && !is_ws(d[q]) by {
            if t < 0 && q > 0 {
                assert(d[q] == dec(n)[q - 1]);
            }
        }
    }
    let m = d.len() as int;
    assert(skip_ws_front(d, 0, m) == 0);
    assert(skip_ws_back(d, 0, m) == m);
    assert(d.subrange(0, m) =~= d);
    lemma_line_applies("tz"@, d, x);
    assert("tz="@ + d =~= "tz"@ + seq!['='] + d);
    lemma_parse_dec_signed(t);
}

proof fn lemma_apply_host(x: ConfigView, h: Seq<char>)
    requires
        forall|k: int| 0 <= k < h.len() ==> h[k] != '=',
        is_trimmed(h),
    ensures
        apply_line(x, "host="@ + h) == (ConfigView { hostname: h, ..x }),
{
    reveal_strlit("host=");
    reveal_strlit("host");
    reveal_strlit("kbd");
    reveal_strlit("tz");
    lemma_line_applies("host"@, h, x);
    assert("host="@ + h =~= "host"@ + seq!['='] + h);
}

proof fn lemma_apply_lang(x: ConfigView, lang: Lang)
    ensures
        apply_line(x, "lang="@ + (if lang == Lang::ES { "es"@ } else { "en"@ })) == (ConfigView { lang, ..x }),
{
    reveal_strlit("lang=");
    reveal_strlit("lang");
    reveal_strlit("kbd");
    reveal_strlit("tz");
    reveal_strlit("host");
    reveal_strlit("es");
    reveal_strlit("en");
    let l = if lang == Lang::ES { "es"@ } else { "en"@ };
    lemma_two_letters_trimmed(l);
    lemma_line_applies("lang"@, l, x);
    assert("lang="@ + l =~= "lang"@ + seq!['='] + l);
}

/// Reading back what `save` wrote restores the settings, whatever they were before,
/// when the host name has no `=`, no newline and no white space at either end.
pub proof fn law_init_after_save(c: ConfigView, before: ConfigView)
    requires
        forall|k: int| 0 <= k < c.hostname.len() ==> c.hostname[k] != '=' && c.hostname[k] != '\n',
        is_trimmed(c.hostname),
    ensures
        apply_lines(before, lines(spec_save(c))) == c,
{
    lemma_save_lines(c);
    let ls = lines(spec_save(c));
    let c1 = apply_line(before, ls[0]);
    lemma_apply_kbd(before, c.kbd_layout);
    let c2 = apply_line(c1, ls[1]);
    lemma_apply_tz(c1, c.tz_offset);
    let c3 = apply_line(c2, ls[2]);
    lemma_apply_host(c2, c.hostname);
    let c4 = apply_line(c3, ls[3]);
    lemma_apply_lang(c3, c.lang);
    assert(count_eq(Seq::<char>::empty()) == 0);
    assert(apply_line(c4, ls[4]) == c4);
    assert(ls.drop_last().drop_last().drop_last().drop_last().drop_last() =~= Seq::<Seq<char>>::empty());
    assert(ls.drop_last().drop_last().drop_last().drop_last() =~= seq![ls[0]]);
    assert(ls.drop_last().drop_last().drop_last() =~= seq![ls[0], ls[1]]);
    assert(ls.drop_last().drop_last() =~= seq![ls[0], ls[1], ls[2]]);
    assert(ls.drop_last() =~= seq![ls[0], ls[1], ls[2], ls[3]]);
    let l0 = ls.drop_last().drop_last().drop_last().drop_last();
    let l1 = ls.drop_last().drop_last().drop_last();
    let l2 = ls.drop_last().drop_last();
    let l3 = ls.drop_last();
    assert(apply_lines(before, l0) == c1) by {
        assert(l0 =~= seq![ls[0]]);
        assert(l0.drop_last() =~= Seq::<Seq<char>>::empty());
        assert(apply_lines(before, l0.drop_last()) == before);
        assert(l0.last() == ls[0]);
    }
    assert(apply_lines(before, l1) == c2) by {
        assert(l1.drop_last() =~= l0);
    }
    assert(apply_lines(before, l2) == c3) by {
        assert(l2.drop_last() =~= l1);
    }
    assert(apply_lines(before, l3) == c4) by {
        assert(l3.drop_last() =~= l2);
    }
    assert(apply_lines(before, ls) == c4);
}

/// A `key=val` line with a plain key and a trimmed value without `=` counts as the
/// setting `key` with the value `val`.
proof fn lemma_line_applies(key: Seq<char>, val: Seq<char>, c: ConfigView)
    requires
        key.len() >= 1,
        !is_ws(key[0]),
        !is_ws(key[key.len() - 1]),
        forall|q: int| 0 <= q < key.len() ==> key[q] != '=',
        forall|q: int| 0 <= q < val.len() ==> val[q] != '=',
        is_trimmed(val),
    ensures
        ({
            let line = key + seq!['='] + val;
            &&& count_eq(line) == 1
            &&& first_eq(line) == key.len()
            &&& trim(line, 0, first_eq(line)) == key
            &&& trim(line, first_eq(line) + 1, line.len() as int) == val
        }),
{
    let line = key + seq!['='] + val;
    lemma_count_eq_none(key);
    lemma_count_eq_none(val);
    lemma_count_eq_append(key, seq!['=']);
    lemma_count_eq_append(key + seq!['='], val);
    lemma_count_eq_one();
    lemma_first_eq(key, val);
    lemma_trim_key(key, val);
    lemma_trim_value(key, val);
}

} // verus!
