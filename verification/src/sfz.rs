//! SFZ text format: tokens, region settings and the `<global>` / `<master>`
//! / `<group>` / `<region>` inheritance stack.

use vstd::prelude::*;

use crate::text::{
    all_digits, chars_of, is_word, find_char, find_char_in, find_comment, find_comment_in, lines,
    line_bounds, lowercase, parse_int, parse_int_spec, string_from_chars, to_lowercase, trim,
    trim_bounds,
};
use crate::wav::decimal;
use crate::text::{comment_at, digits_value, has_content, is_digit, is_ws, trim_hi, trim_lo};
use crate::types::{convert_sample_index, spec_convert_sample_index, KeyRange, LoopMode, Region};

verus! {

/// Errors from loading an SFZ soundfont.
#[derive(Debug)]
pub enum Error {
    Io(std::io::Error, std::path::PathBuf),
    Parse(String),
}

/// A line of SFZ text that means something: a `<header>` or a
/// `key=value` opcode.
pub enum Token {
    Header(String),
    Opcode(String, String),
}

/// A token as text.
pub enum TokenView {
    Header(Seq<char>),
    Opcode(Seq<char>, Seq<char>),
}

impl View for Token {
    type V = TokenView;

    open spec fn view(&self) -> TokenView {
        match self {
            Token::Header(h) => TokenView::Header(h@),
            Token::Opcode(k, v) => TokenView::Opcode(k@, v@),
        }
    }
}

pub open spec fn token_views(ts: Seq<Token>) -> Seq<TokenView> {
    ts.map_values(|t: Token| t@)
}

/// The token of one line of text, if it has one. The line is trimmed;
/// empty lines and `//` comment lines have none; `<name>` is a header
/// (lowercased); otherwise the text up to the first `=` is the key
/// (trimmed, lowercased) and the rest the value (trimmed, cut at an inline
/// `//` comment and trimmed again). A line without `=` has none.
pub open spec fn line_token(raw: Seq<char>) -> Option<TokenView> {
    let line = trim(raw);
    if line.len() == 0 || (line.len() >= 2 && line[0] == '/' && line[1] == '/') {
        None
    } else if line[0] == '<' && line.last() == '>' {
        Some(TokenView::Header(lowercase(line.subrange(1, line.len() - 1))))
    } else {
        match find_char(line, '=') {
            None => None,
            Some(p) => {
                let v0 = trim(line.skip(p + 1));
                let v = match find_comment(v0) {
                    Some(q) => trim(v0.take(q)),
                    None => v0,
                };
                Some(TokenView::Opcode(lowercase(trim(line.take(p))), v))
            },
        }
    }
}

/// The tokens of a sequence of lines, in order.
pub open spec fn tokens_of(ls: Seq<Seq<char>>) -> Seq<TokenView>
    decreases ls.len(),
{
    if ls.len() == 0 {
        Seq::empty()
    } else {
        let rest = tokens_of(ls.drop_last());
        match line_token(ls.last()) {
            Some(t) => rest.push(t),
            None => rest,
        }
    }
}

/// The tokens of SFZ text, line by line.
pub open spec fn tokenize_spec(text: Seq<char>) -> Seq<TokenView> {
    tokens_of(lines(text))
}

/// The characters `s[a..b]`.
fn copy_range(s: &Vec<char>, a: usize, b: usize) -> (r: Vec<char>)
    requires
        a <= b <= s.len(),
    ensures
        r@ == s@.subrange(a as int, b as int),
{
    let mut r: Vec<char> = Vec::new();
    let mut i = a;
    while i < b
        invariant
            a <= i <= b <= s.len(),
            r@ == s@.subrange(a as int, i as int),
        decreases b - i,
    {
        r.push(s[i]);
        i = i + 1;
        assert(r@ =~= s@.subrange(a as int, i as int));
    }
    r
}

fn string_of(s: &Vec<char>, a: usize, b: usize) -> (r: String)
    requires
        a <= b <= s.len(),
    ensures
        r@ == s@.subrange(a as int, b as int),
{
    let v = copy_range(s, a, b);
    string_from_chars(v.as_slice())
}

fn lower_of(s: &Vec<char>, a: usize, b: usize) -> (r: String)
    requires
        a <= b <= s.len(),
    ensures
        r@ == lowercase(s@.subrange(a as int, b as int)),
{
    let t = string_of(s, a, b);
    to_lowercase(t.as_str())
}

/// The token of an already trimmed line.
pub open spec fn trimmed_line_token(line: Seq<char>) -> Option<TokenView> {
    if line.len() == 0 || (line.len() >= 2 && line[0] == '/' && line[1] == '/') {
        None
    } else if line[0] == '<' && line.last() == '>' {
        Some(TokenView::Header(lowercase(line.subrange(1, line.len() - 1))))
    } else {
        match find_char(line, '=') {
            None => None,
            Some(p) => Some(opcode_token(line, p)),
        }
    }
}

/// The opcode of a trimmed line whose first `=` is at `p`.
pub open spec fn opcode_token(line: Seq<char>, p: int) -> TokenView {
    let v0 = trim(line.skip(p + 1));
    let v = match find_comment(v0) {
        Some(q) => trim(v0.take(q)),
        None => v0,
    };
    TokenView::Opcode(lowercase(trim(line.take(p))), v)
}

proof fn lemma_line_token(raw: Seq<char>)
    ensures
        line_token(raw) == trimmed_line_token(trim(raw)),
{
    let line = trim(raw);
    match find_char(line, '=') {
        None => {},
        Some(p) => {
            assert(opcode_token(line, p) == TokenView::Opcode(
                lowercase(trim(line.take(p))),
                match find_comment(trim(line.skip(p + 1))) {
                    Some(q) => trim(trim(line.skip(p + 1)).take(q)),
                    None => trim(line.skip(p + 1)),
                },
            ));
        },
    }
}

/// The value text of the opcode in `s[..lb]` whose `=` is at `p`.
fn opcode_value_at(s: &Vec<char>, p: usize, lb: usize) -> (r: String)
    requires
        p < lb <= s.len(),
    ensures
        ({
            let v0 = trim(s@.subrange(p + 1, lb as int));
            r@ == match find_comment(v0) {
                Some(q) => trim(v0.take(q)),
                None => v0,
            }
        }),
{
    let (va, vb) = trim_bounds(s, p + 1, lb);
    let ghost v0 = s@.subrange(va as int, vb as int);
    let (ca, cb) = match find_comment_in(s, va, vb) {
        Some(q) => {
            let r = trim_bounds(s, va, q);
            assert(v0.take(q - va) =~= s@.subrange(va as int, q as int));
            assert(find_comment(v0) == Some((q - va) as int));
            r
        },
        None => {
            assert(find_comment(v0) is None);
            (va, vb)
        },
    };
    string_of(s, ca, cb)
}

/// The opcode of the trimmed line `s[la..lb]` whose first `=` is at `p`.
fn opcode_at(s: &Vec<char>, la: usize, lb: usize, p: usize) -> (r: Token)
    requires
        la <= p < lb <= s.len(),
    ensures
        r@ == opcode_token(s@.subrange(la as int, lb as int), p - la),
{
    let ghost line = s@.subrange(la as int, lb as int);
    let (ka, kb) = trim_bounds(s, la, p);
    let key = lower_of(s, ka, kb);
    let value = opcode_value_at(s, p, lb);
    proof {
        let pr = p - la;
        assert(line.take(pr) =~= s@.subrange(la as int, p as int));
        assert(line.skip(pr + 1) =~= s@.subrange(p + 1, lb as int));
    }
    Token::Opcode(key, value)
}

/// The token of the trimmed line `s[la..lb]`.
fn trimmed_line_token_at(s: &Vec<char>, la: usize, lb: usize) -> (r: Option<Token>)
    requires
        la <= lb <= s.len(),
    ensures
        match trimmed_line_token(s@.subrange(la as int, lb as int)) {
            Some(t) => r is Some && r->0@ == t,
            None => r is None,
        },
{
    let ghost line = s@.subrange(la as int, lb as int);
    if la == lb {
        return None;
    }
    assert(line[0] == s@[la as int]);
    if lb - la >= 2 && s[la] == '/' && s[la + 1] == '/' {
        assert(line[1] == s@[la + 1]);
        return None;
    }
    if lb - la >= 2 {
        assert(line[1] == s@[la + 1]);
    }
    assert(line.last() == s@[lb - 1]);
    if s[la] == '<' && s[lb - 1] == '>' {
        let h = lower_of(s, la + 1, lb - 1);
        assert(line.subrange(1, line.len() - 1) =~= s@.subrange(la + 1, lb - 1));
        return Some(Token::Header(h));
    }
    match find_char_in(s, la, lb, '=') {
        None => None,
        Some(p) => {
            assert(find_char(line, '=') == Some((p - la) as int));
            Some(opcode_at(s, la, lb, p))
        },
    }
}

/// The token of the line `s[a..b]`.
fn line_token_at(s: &Vec<char>, a: usize, b: usize) -> (r: Option<Token>)
    requires
        a <= b <= s.len(),
    ensures
        match line_token(s@.subrange(a as int, b as int)) {
            Some(t) => r is Some && r->0@ == t,
            None => r is None,
        },
{
    let (la, lb) = trim_bounds(s, a, b);
    proof {
        lemma_line_token(s@.subrange(a as int, b as int));
    }
    trimmed_line_token_at(s, la, lb)
}

/// Splits SFZ text into its tokens, line by line.
pub fn tokenize(text: &str) -> (r: Vec<Token>)
    ensures
        token_views(r@) == tokenize_spec(text@),
{
    let s = chars_of(text);
    let bounds = line_bounds(&s);
    let ghost ls = lines(s@);
    let mut out: Vec<Token> = Vec::new();
    let mut k: usize = 0;
    while k < bounds.len()
        invariant
            k <= bounds@.len(),
            ls == lines(s@),
            bounds@.len() == ls.len(),
            forall|j: int|
                0 <= j < bounds@.len() ==> {
                    let (a, b) = #[trigger] bounds@[j];
                    &&& a <= b <= s@.len()
                    &&& s@.subrange(a as int, b as int) == ls[j]
                },
            token_views(out@) == tokens_of(ls.take(k as int)),
        decreases bounds@.len() - k,
    {
        let (a, b) = bounds[k];
        let t = line_token_at(&s, a, b);
        let ghost before = out@;
        proof {
            assert(ls.take(k + 1).drop_last() =~= ls.take(k as int));
            assert(ls.take(k + 1).last() == ls[k as int]);
        }
        match t {
            Some(tok) => {
                out.push(tok);
                assert(token_views(out@) =~= token_views(before).push(out@.last()@));
            },
            None => {},
        }
        k = k + 1;
    }
    assert(ls.take(ls.len() as int) =~= ls);
    out
}

/// Opcodes whose values are decimal fractions; their text is kept as given.
#[derive(Debug, Clone, Copy, PartialEq, Eq, Structural)]
pub enum FloatOpcode {
    /// `ampeg_delay`, seconds.
    AmpegDelay,
    /// `ampeg_attack`, seconds.
    AmpegAttack,
    /// `ampeg_hold`, seconds.
    AmpegHold,
    /// `ampeg_decay`, seconds.
    AmpegDecay,
    /// `ampeg_sustain`, percent.
    AmpegSustain,
    /// `ampeg_release`, seconds.
    AmpegRelease,
    /// `cutoff`, Hz.
    Cutoff,
    /// `resonance`, dB.
    Resonance,
}

/// Settings of a region being read, inherited from enclosing headers.
///
/// `float_opcodes` lists, in the order they appeared, the fractional
/// opcodes with their text; the last one of a kind whose text parses as a
/// number sets the value (for `cutoff`, the last one sets it, unset when
/// its text is not a number).
pub struct PendingRegion {
    pub sample_filename: String,
    pub default_path: Option<String>,
    pub lokey: i8,
    pub hikey: i8,
    pub lovel: u8,
    pub hivel: u8,
    pub pitch_keycenter: i8,
    /// Decibels.
    pub volume: i16,
    /// -100 to 100.
    pub pan: i8,
    /// Cents.
    pub tune: i16,
    pub loop_mode: LoopMode,
    pub loop_start: u32,
    pub loop_end: u32,
    pub offset: u32,
    pub float_opcodes: Vec<(FloatOpcode, String)>,
}

/// Region settings as values.
pub struct RegionView {
    pub sample_filename: Seq<char>,
    pub default_path: Option<Seq<char>>,
    pub lokey: i8,
    pub hikey: i8,
    pub lovel: u8,
    pub hivel: u8,
    pub pitch_keycenter: i8,
    pub volume: i16,
    pub pan: i8,
    pub tune: i16,
    pub loop_mode: LoopMode,
    pub loop_start: u32,
    pub loop_end: u32,
    pub offset: u32,
    pub float_opcodes: Seq<(FloatOpcode, Seq<char>)>,
}

pub open spec fn opcode_views(v: Seq<(FloatOpcode, String)>) -> Seq<(FloatOpcode, Seq<char>)> {
    v.map_values(|e: (FloatOpcode, String)| (e.0, e.1@))
}

impl View for PendingRegion {
    type V = RegionView;

    open spec fn view(&self) -> RegionView {
        RegionView {
            sample_filename: self.sample_filename@,
            default_path: match self.default_path {
                Some(p) => Some(p@),
                None => None,
            },
            lokey: self.lokey,
            hikey: self.hikey,
            lovel: self.lovel,
            hivel: self.hivel,
            pitch_keycenter: self.pitch_keycenter,
            volume: self.volume,
            pan: self.pan,
            tune: self.tune,
            loop_mode: self.loop_mode,
            loop_start: self.loop_start,
            loop_end: self.loop_end,
            offset: self.offset,
            float_opcodes: opcode_views(self.float_opcodes@),
        }
    }
}

/// The settings a region starts from: all keys and velocities, key center
/// 60, no loop, everything else zero or empty.
pub open spec fn default_region() -> RegionView {
    RegionView {
        sample_filename: Seq::empty(),
        default_path: None,
        lokey: 0,
        hikey: 127,
        lovel: 0,
        hivel: 127,
        pitch_keycenter: 60,
        volume: 0,
        pan: 0,
        tune: 0,
        loop_mode: LoopMode::NoLoop,
        loop_start: 0,
        loop_end: 0,
        offset: 0,
        float_opcodes: Seq::empty(),
    }
}

impl PendingRegion {
    pub fn new() -> (r: PendingRegion)
        ensures
            r@ == default_region(),
    {
        let r = PendingRegion {
            sample_filename: String::new(),
            default_path: None,
            lokey: 0,
            hikey: 127,
            lovel: 0,
            hivel: 127,
            pitch_keycenter: 60,
            volume: 0,
            pan: 0,
            tune: 0,
            loop_mode: LoopMode::NoLoop,
            loop_start: 0,
            loop_end: 0,
            offset: 0,
            float_opcodes: Vec::new(),
        };
        assert(opcode_views(r.float_opcodes@) =~= Seq::empty());
        r
    }

    /// A copy with the same settings.
    pub fn duplicate(&self) -> (r: PendingRegion)
        ensures
            r@ == self@,
    {
        let mut ops: Vec<(FloatOpcode, String)> = Vec::new();
        let mut i: usize = 0;
        while i < self.float_opcodes.len()
            invariant
                i <= self.float_opcodes@.len(),
                opcode_views(ops@) == opcode_views(self.float_opcodes@).take(i as int),
            decreases self.float_opcodes@.len() - i,
        {
            let entry = &self.float_opcodes[i];
            let op = entry.0;
            let text = entry.1.clone();
            let ghost prev = ops@;
            ops.push((op, text));
            proof {
                let all = opcode_views(self.float_opcodes@);
                assert(all[i as int] == (op, text@));
                assert(opcode_views(ops@) =~= opcode_views(prev).push((op, text@)));
                assert(all.take(i + 1) =~= all.take(i as int).push(all[i as int]));
            }
            i = i + 1;
        }
        assert(opcode_views(self.float_opcodes@).take(i as int) =~= opcode_views(
            self.float_opcodes@,
        ));
        let default_path = match &self.default_path {
            Some(p) => Some(p.clone()),
            None => None,
        };
        PendingRegion {
            sample_filename: self.sample_filename.clone(),
            default_path,
            lokey: self.lokey,
            hikey: self.hikey,
            lovel: self.lovel,
            hivel: self.hivel,
            pitch_keycenter: self.pitch_keycenter,
            volume: self.volume,
            pan: self.pan,
            tune: self.tune,
            loop_mode: self.loop_mode,
            loop_start: self.loop_start,
            loop_end: self.loop_end,
            offset: self.offset,
            float_opcodes: ops,
        }
    }
}

/// `s` with every backslash turned into a forward slash.
pub open spec fn forward_slashes(s: Seq<char>) -> Seq<char> {
    s.map_values(|c: char| if c == '\\' { '/' } else { c })
}

fn with_forward_slashes(s: &String) -> (r: String)
    ensures
        r@ == forward_slashes(s@),
{
    let cs = chars_of(s.as_str());
    let mut out: Vec<char> = Vec::new();
    let mut i: usize = 0;
    while i < cs.len()
        invariant
            i <= cs@.len(),
            cs@ == s@,
            out@ == forward_slashes(cs@).take(i as int),
        decreases cs@.len() - i,
    {
        let c = cs[i];
        if c == '\\' {
            out.push('/');
        } else {
            out.push(c);
        }
        i = i + 1;
        assert(out@ =~= forward_slashes(cs@).take(i as int));
    }
    assert(forward_slashes(cs@).take(i as int) =~= forward_slashes(cs@));
    string_from_chars(out.as_slice())
}

/// The value of integer text with bounds, if it parses.
fn parse_value(value: &String, min: i64, max: i64) -> (r: Option<i64>)
    requires
        -0x1_0000_0000 <= min <= 0,
        0 <= max <= 0x1_0000_0000,
    ensures
        match parse_int_spec(value@, min as int, max as int) {
            Some(v) => r == Some(v as i64),
            None => r is None,
        },
{
    let cs = chars_of(value.as_str());
    assert(cs@.subrange(0, cs@.len() as int) =~= cs@);
    parse_int(&cs, 0, cs.len(), min, max)
}

/// The loop mode an SFZ `loop_mode` value names (no loop when unknown).
pub open spec fn loop_mode_named(value: Seq<char>) -> LoopMode {
    if value == "loop_continuous"@ {
        LoopMode::LoopContinuous
    } else if value == "loop_sustain"@ {
        LoopMode::LoopSustain
    } else if value == "one_shot"@ {
        LoopMode::OneShot
    } else {
        LoopMode::NoLoop
    }
}

/// The fractional opcode a key names, if any.
pub open spec fn float_opcode_named(key: Seq<char>) -> Option<FloatOpcode> {
    if key == "ampeg_delay"@ {
        Some(FloatOpcode::AmpegDelay)
    } else if key == "ampeg_attack"@ {
        Some(FloatOpcode::AmpegAttack)
    } else if key == "ampeg_hold"@ {
        Some(FloatOpcode::AmpegHold)
    } else if key == "ampeg_decay"@ {
        Some(FloatOpcode::AmpegDecay)
    } else if key == "ampeg_sustain"@ {
        Some(FloatOpcode::AmpegSustain)
    } else if key == "ampeg_release"@ {
        Some(FloatOpcode::AmpegRelease)
    } else if key == "cutoff"@ {
        Some(FloatOpcode::Cutoff)
    } else if key == "resonance"@ {
        Some(FloatOpcode::Resonance)
    } else {
        None
    }
}

/// Applies one opcode to region settings. Integer opcodes take effect only
/// when their text parses in the range of the field; unknown keys change
/// nothing.
pub open spec fn apply_opcode_spec(r: RegionView, key: Seq<char>, value: Seq<char>) -> RegionView {
    if key == "sample"@ {
        RegionView { sample_filename: forward_slashes(value), ..r }
    } else if key == "default_path"@ {
        RegionView { default_path: Some(forward_slashes(value)), ..r }
    } else if key == "lokey"@ {
        match parse_int_spec(value, -128, 127) {
            Some(v) => RegionView { lokey: v as i8, ..r },
            None => r,
        }
    } else if key == "hikey"@ {
        match parse_int_spec(value, -128, 127) {
            Some(v) => RegionView { hikey: v as i8, ..r },
            None => r,
        }
    } else if key == "key"@ {
        match parse_int_spec(value, -128, 127) {
            Some(v) => RegionView { lokey: v as i8, hikey: v as i8, pitch_keycenter: v as i8, ..r },
            None => r,
        }
    } else if key == "lovel"@ {
        match parse_int_spec(value, 0, 255) {
            Some(v) => RegionView { lovel: v as u8, ..r },
            None => r,
        }
    } else if key == "hivel"@ {
        match parse_int_spec(value, 0, 255) {
            Some(v) => RegionView { hivel: v as u8, ..r },
            None => r,
        }
    } else if key == "pitch_keycenter"@ {
        match parse_int_spec(value, -128, 127) {
            Some(v) => RegionView { pitch_keycenter: v as i8, ..r },
            None => r,
        }
    } else if key == "volume"@ {
        match parse_int_spec(value, -32768, 32767) {
            Some(v) => RegionView { volume: v as i16, ..r },
            None => r,
        }
    } else if key == "pan"@ {
        match parse_int_spec(value, -128, 127) {
            Some(v) => RegionView { pan: v as i8, ..r },
            None => r,
        }
    } else if key == "tune"@ {
        match parse_int_spec(value, -32768, 32767) {
            Some(v) => RegionView { tune: v as i16, ..r },
            None => r,
        }
    } else if key == "loop_mode"@ {
        RegionView { loop_mode: loop_mode_named(value), ..r }
    } else if key == "loop_start"@ {
        match parse_int_spec(value, 0, 4294967295) {
            Some(v) => RegionView { loop_start: v as u32, ..r },
            None => r,
        }
    } else if key == "loop_end"@ {
        match parse_int_spec(value, 0, 4294967295) {
            Some(v) => RegionView { loop_end: v as u32, ..r },
            None => r,
        }
    } else if key == "offset"@ {
        match parse_int_spec(value, 0, 4294967295) {
            Some(v) => RegionView { offset: v as u32, ..r },
            None => r,
        }
    } else {
        match float_opcode_named(key) {
            Some(op) => RegionView { float_opcodes: r.float_opcodes.push((op, value)), ..r },
            None => r,
        }
    }
}

/// Applies one `key=value` opcode to a region's settings.
pub fn apply_opcode(region: &mut PendingRegion, key: &String, value: &String)
    ensures
        final(region)@ == apply_opcode_spec(old(region)@, key@, value@),
{
    if is_word(key, "sample") {
        region.sample_filename = with_forward_slashes(value);
    } else if is_word(key, "default_path") {
        region.default_path = Some(with_forward_slashes(value));
    } else if is_word(key, "lokey") {
        if let Some(v) = parse_value(value, -128, 127) {
            region.lokey = v as i8;
        }
    } else if is_word(key, "hikey") {
        if let Some(v) = parse_value(value, -128, 127) {
            region.hikey = v as i8;
        }
    } else if is_word(key, "key") {
        if let Some(v) = parse_value(value, -128, 127) {
            region.lokey = v as i8;
            region.hikey = v as i8;
            region.pitch_keycenter = v as i8;
        }
    } else if is_word(key, "lovel") {
        if let Some(v) = parse_value(value, 0, 255) {
            region.lovel = v as u8;
        }
    } else if is_word(key, "hivel") {
        if let Some(v) = parse_value(value, 0, 255) {
            region.hivel = v as u8;
        }
    } else if is_word(key, "pitch_keycenter") {
        if let Some(v) = parse_value(value, -128, 127) {
            region.pitch_keycenter = v as i8;
        }
    } else if is_word(key, "volume") {
        if let Some(v) = parse_value(value, -32768, 32767) {
            region.volume = v as i16;
        }
    } else if is_word(key, "pan") {
        if let Some(v) = parse_value(value, -128, 127) {
            region.pan = v as i8;
        }
    } else if is_word(key, "tune") {
        if let Some(v) = parse_value(value, -32768, 32767) {
            region.tune = v as i16;
        }
    } else if is_word(key, "loop_mode") {
        region.loop_mode = if is_word(value, "loop_continuous") {
            LoopMode::LoopContinuous
        } else if is_word(value, "loop_sustain") {
            LoopMode::LoopSustain
        } else if is_word(value, "one_shot") {
            LoopMode::OneShot
        } else {
            LoopMode::NoLoop
        };
    } else if is_word(key, "loop_start") {
        if let Some(v) = parse_value(value, 0, 4294967295) {
            region.loop_start = v as u32;
        }
    } else if is_word(key, "loop_end") {
        if let Some(v) = parse_value(value, 0, 4294967295) {
            region.loop_end = v as u32;
        }
    } else if is_word(key, "offset") {
        if let Some(v) = parse_value(value, 0, 4294967295) {
            region.offset = v as u32;
        }
    } else {
        let op = if is_word(key, "ampeg_delay") {
            Some(FloatOpcode::AmpegDelay)
        } else if is_word(key, "ampeg_attack") {
            Some(FloatOpcode::AmpegAttack)
        } else if is_word(key, "ampeg_hold") {
            Some(FloatOpcode::AmpegHold)
        } else if is_word(key, "ampeg_decay") {
            Some(FloatOpcode::AmpegDecay)
        } else if is_word(key, "ampeg_sustain") {
            Some(FloatOpcode::AmpegSustain)
        } else if is_word(key, "ampeg_release") {
            Some(FloatOpcode::AmpegRelease)
        } else if is_word(key, "cutoff") {
            Some(FloatOpcode::Cutoff)
        } else if is_word(key, "resonance") {
            Some(FloatOpcode::Resonance)
        } else {
            None
        };
        if let Some(op) = op {
            let ghost before = region.float_opcodes@;
            region.float_opcodes.push((op, value.clone()));
            assert(opcode_views(region.float_opcodes@) =~= opcode_views(before).push((op, value@)));
        }
    }
}

pub open spec fn region_views(v: Seq<PendingRegion>) -> Seq<RegionView> {
    v.map_values(|r: PendingRegion| r@)
}

/// Parser state: the inheritance stack (global, master, group, region), the
/// `<control>` flag and the regions read so far.
pub struct ParseState {
    pub stack: Seq<RegionView>,
    pub in_control: bool,
    pub regions: Seq<RegionView>,
}

/// Stack depth that a header opens: 1 for `global` and `master`, 3 for
/// `group`, 4 for `region`; other headers open none.
pub open spec fn header_level(h: Seq<char>) -> Option<int> {
    if h == "global"@ || h == "master"@ {
        Some(1)
    } else if h == "group"@ {
        Some(3)
    } else if h == "region"@ {
        Some(4)
    } else {
        None
    }
}

/// Cuts the stack down to `level` entries, or grows it to `level` with
/// copies of its top entry (the default settings when it is empty).
pub open spec fn resize(stack: Seq<RegionView>, level: int) -> Seq<RegionView> {
    if stack.len() >= level {
        stack.take(level)
    } else {
        let fill = if stack.len() > 0 {
            stack.last()
        } else {
            default_region()
        };
        stack + Seq::new((level - stack.len()) as nat, |_i: int| fill)
    }
}

/// Adds a finished region to the list; a region without a sample file is
/// dropped.
pub open spec fn emit(regions: Seq<RegionView>, r: RegionView) -> Seq<RegionView> {
    if r.sample_filename.len() == 0 {
        regions
    } else {
        regions.push(r)
    }
}

/// One token read by the parser.
pub open spec fn parse_step(st: ParseState, tok: TokenView) -> ParseState {
    match tok {
        TokenView::Header(h) => {
            if h == "control"@ {
                ParseState { in_control: true, ..st }
            } else {
                match header_level(h) {
                    None => ParseState { in_control: false, ..st },
                    Some(level) => {
                        let closes = level == 4 && st.stack.len() >= 4;
                        let stack1 = if closes {
                            st.stack.drop_last()
                        } else {
                            st.stack
                        };
                        let regions1 = if closes {
                            emit(st.regions, st.stack.last())
                        } else {
                            st.regions
                        };
                        ParseState { stack: resize(stack1, level), in_control: false, regions: regions1 }
                    },
                }
            }
        },
        TokenView::Opcode(k, v) => {
            if (st.in_control && k != "default_path"@) || st.stack.len() == 0 {
                st
            } else {
                ParseState {
                    stack: st.stack.update(
                        st.stack.len() - 1,
                        apply_opcode_spec(st.stack.last(), k, v),
                    ),
                    ..st
                }
            }
        },
    }
}

/// The parser state after reading `toks`, starting from one default entry.
pub open spec fn parse_state(toks: Seq<TokenView>) -> ParseState
    decreases toks.len(),
{
    if toks.len() == 0 {
        ParseState { stack: seq![default_region()], in_control: false, regions: Seq::empty() }
    } else {
        parse_step(parse_state(toks.drop_last()), toks.last())
    }
}

/// The regions of a token stream: those closed by a later `<region>`
/// header, then the open one, each kept only when it names a sample file.
pub open spec fn parse_regions_spec(toks: Seq<TokenView>) -> Seq<RegionView> {
    let st = parse_state(toks);
    if st.stack.len() >= 4 {
        emit(st.regions, st.stack.last())
    } else {
        st.regions
    }
}

/// Grows or cuts `stack` to `level` entries.
fn resize_stack(stack: &mut Vec<PendingRegion>, level: usize)
    ensures
        region_views(final(stack)@) == resize(region_views(old(stack)@), level as int),
{
    let ghost orig = region_views(stack@);
    let ghost fill = if orig.len() > 0 {
        orig.last()
    } else {
        default_region()
    };
    while stack.len() < level
        invariant
            orig.len() <= stack@.len() <= level || (orig.len() > level && stack@.len() == orig.len()),
            region_views(stack@) == orig + Seq::new((stack@.len() - orig.len()) as nat, |_i: int| fill),
            fill == (if orig.len() > 0 {
                orig.last()
            } else {
                default_region()
            }),
        decreases level - stack@.len(),
    {
        let parent = match stack.last() {
            Some(p) => p.duplicate(),
            None => PendingRegion::new(),
        };
        let ghost before = region_views(stack@);
        proof {
            if stack@.len() > 0 {
                assert(region_views(stack@).last() == stack@.last()@);
                assert(before.last() == fill);
            }
        }
        stack.push(parent);
        assert(region_views(stack@) =~= before.push(parent@));
        assert(region_views(stack@) =~= orig + Seq::new((stack@.len() - orig.len()) as nat, |_i: int| fill));
    }
    while stack.len() > level
        invariant
            level <= stack@.len() <= orig.len() || (stack@.len() == level),
            stack@.len() > level ==> region_views(stack@) == orig.take(stack@.len() as int),
            stack@.len() <= level ==> region_views(stack@) == resize(orig, level as int),
            orig.len() < level ==> region_views(stack@) == orig + Seq::new((stack@.len() - orig.len()) as nat, |_i: int| fill),
            fill == (if orig.len() > 0 {
                orig.last()
            } else {
                default_region()
            }),
        decreases stack@.len(),
    {
        let ghost before = region_views(stack@);
        stack.pop();
        assert(region_views(stack@) =~= before.drop_last());
        assert(orig.take(stack@.len() as int) =~= before.drop_last());
    }
    proof {
        if orig.len() >= level {
            assert(orig.take(level as int) =~= orig.take(stack@.len() as int));
        }
    }
}

/// Reads SFZ tokens into regions, applying `<global>`, `<master>`,
/// `<group>` and `<region>` inheritance. `<control>` sections take only
/// `default_path`. Regions without a sample file are dropped.
pub fn parse_regions(tokens: &Vec<Token>) -> (r: Vec<PendingRegion>)
    ensures
        region_views(r@) == parse_regions_spec(token_views(tokens@)),
{
    let mut regions: Vec<PendingRegion> = Vec::new();
    let mut stack: Vec<PendingRegion> = Vec::new();
    stack.push(PendingRegion::new());
    let mut in_control = false;
    let ghost toks = token_views(tokens@);
    proof {
        assert(region_views(stack@) =~= seq![default_region()]);
        assert(region_views(regions@) =~= Seq::empty());
    }
    let mut i: usize = 0;
    while i < tokens.len()
        invariant
            i <= tokens@.len(),
            toks == token_views(tokens@),
            ({
                let st = parse_state(toks.take(i as int));
                &&& region_views(stack@) == st.stack
                &&& in_control == st.in_control
                &&& region_views(regions@) == st.regions
            }),
        decreases tokens@.len() - i,
    {
        let ghost st = parse_state(toks.take(i as int));
        let ghost expected = parse_step(st, tokens@[i as int]@);
        proof {
            assert(toks.take(i + 1).drop_last() =~= toks.take(i as int));
            assert(toks.take(i + 1).last() == tokens@[i as int]@);
            assert(parse_state(toks.take(i + 1)) == expected);
        }
        match &tokens[i] {
            Token::Header(h) => {
                if is_word(h, "control") {
                    in_control = true;
                } else {
                    in_control = false;
                    let level: usize = if is_word(h, "global") || is_word(h, "master") {
                        1
                    } else if is_word(h, "group") {
                        3
                    } else if is_word(h, "region") {
                        4
                    } else {
                        0
                    };
                    if level > 0 {
                        if level == 4 && stack.len() >= 4 {
                            let ghost before = region_views(stack@);
                            let ghost rs = region_views(regions@);
                            match stack.pop() {
                                Some(last) => {
                                    assert(region_views(stack@) =~= before.drop_last());
                                    assert(last@ == before.last());
                                    if !last.sample_filename.as_str().is_empty() {
                                        regions.push(last);
                                        assert(region_views(regions@) =~= rs.push(before.last()));
                                    }
                                    assert(region_views(regions@) == emit(rs, before.last()));
                                },
                                None => {},
                            }
                        } else {
                            assert(region_views(stack@).len() == stack@.len());
                        }
                        resize_stack(&mut stack, level);
                        assert(region_views(regions@) == expected.regions);
                    } else {
                        assert(region_views(regions@) == expected.regions);
                    }
                }
            },
            Token::Opcode(k, v) => {
                if !(in_control && !is_word(k, "default_path")) {
                    let ghost before = region_views(stack@);
                    match stack.pop() {
                        Some(mut cur) => {
                            apply_opcode(&mut cur, k, v);
                            stack.push(cur);
                            assert(region_views(stack@) =~= before.update(
                                before.len() - 1,
                                apply_opcode_spec(before.last(), k@, v@),
                            ));
                        },
                        None => {},
                    }
                }
                assert(region_views(regions@) == expected.regions);
            },
        }
        assert(region_views(stack@) == expected.stack);
        assert(in_control == expected.in_control);
        assert(region_views(regions@) == expected.regions);
        i = i + 1;
    }
    assert(toks.take(tokens@.len() as int) =~= toks);
    if stack.len() >= 4 {
        let ghost before = region_views(stack@);
        let ghost rs = region_views(regions@);
        match stack.pop() {
            Some(last) => {
                assert(last@ == before.last());
                if !last.sample_filename.as_str().is_empty() {
                    regions.push(last);
                    assert(region_views(regions@) =~= rs.push(before.last()));
                }
            },
            None => {},
        }
    }
    regions
}

/// The resolved region of SFZ settings whose sample holds `sample_len`
/// frames at the output rate, recorded at `orig_rate`. Key numbers are
/// reinterpreted as unsigned bytes; loop points and the start offset are
/// converted to the output rate and capped at the sample's length.
pub open spec fn sfz_region_spec<P>(r: RegionView, sample_len: usize, orig_rate: u32, sample_rate: u32, sound: P) -> Region<P> {
    let len = sample_len as u32;
    Region {
        key_range: KeyRange { lo: r.lokey as u8, hi: r.hikey as u8 },
        vel_range: KeyRange { lo: r.lovel, hi: r.hivel },
        root_key: r.pitch_keycenter as u8,
        original_sample_rate: orig_rate,
        loop_mode: r.loop_mode,
        loop_start: min_u32(spec_convert_sample_index(r.loop_start, orig_rate, sample_rate) as u32, len),
        loop_end: min_u32(spec_convert_sample_index(r.loop_end, orig_rate, sample_rate) as u32, len),
        sample_end: len,
        offset: min_u32(spec_convert_sample_index(r.offset, orig_rate, sample_rate) as u32, len),
        exclusive_class: None,
        sound,
    }
}

pub open spec fn min_u32(a: u32, b: u32) -> u32 {
    if a <= b {
        a
    } else {
        b
    }
}

/// Builds the region of SFZ settings (see [`sfz_region_spec`]).
pub fn sfz_region<P>(r: &PendingRegion, sample_len: usize, orig_rate: u32, sample_rate: u32, sound: P) -> (out: Region<P>)
    ensures
        out == sfz_region_spec(r@, sample_len, orig_rate, sample_rate, sound),
{
    let len = sample_len as u32;
    let ls = convert_sample_index(r.loop_start, orig_rate, sample_rate);
    let le = convert_sample_index(r.loop_end, orig_rate, sample_rate);
    let off = convert_sample_index(r.offset, orig_rate, sample_rate);
    Region {
        key_range: KeyRange { lo: r.lokey as u8, hi: r.hikey as u8 },
        vel_range: KeyRange { lo: r.lovel, hi: r.hivel },
        root_key: r.pitch_keycenter as u8,
        original_sample_rate: orig_rate,
        loop_mode: r.loop_mode,
        loop_start: if ls <= len { ls } else { len },
        loop_end: if le <= len { le } else { len },
        sample_end: len,
        offset: if off <= len { off } else { len },
        exclusive_class: None,
        sound,
    }
}

/// An SFZ file with no usable region is an error.
pub fn require_regions(count: usize) -> (r: Result<(), Error>)
    ensures
        count > 0 ==> r is Ok,
        count == 0 ==> (r matches Err(Error::Parse(m)) && m@ == "No regions found in SFZ file"@),
{
    if count == 0 {
        Err(Error::Parse("No regions found in SFZ file".to_owned()))
    } else {
        Ok(())
    }
}

/// What a line of SFZ source is to the preprocessor.
pub enum LineKind {
    /// `#include "path"`: the path, with forward slashes.
    Include(String),
    /// `#define`: skipped.
    Define,
    /// Any other line: kept as it is.
    Text,
}

pub enum LineKindView {
    Include(Seq<char>),
    Define,
    Text,
}

impl View for LineKind {
    type V = LineKindView;

    open spec fn view(&self) -> LineKindView {
        match self {
            LineKind::Include(p) => LineKindView::Include(p@),
            LineKind::Define => LineKindView::Define,
            LineKind::Text => LineKindView::Text,
        }
    }
}

pub open spec fn include_word() -> Seq<char> {
    seq!['#', 'i', 'n', 'c', 'l', 'u', 'd', 'e']
}

pub open spec fn define_word() -> Seq<char> {
    seq!['#', 'd', 'e', 'f', 'i', 'n', 'e']
}

pub open spec fn starts_with_chars(s: Seq<char>, p: Seq<char>) -> bool {
    s.len() >= p.len() && s.take(p.len() as int) == p
}

/// `s` without its leading double quotes.
pub open spec fn strip_leading_quotes(s: Seq<char>) -> Seq<char>
    decreases s.len(),
{
    if s.len() > 0 && s[0] == '"' {
        strip_leading_quotes(s.drop_first())
    } else {
        s
    }
}

/// `s` without its trailing double quotes.
pub open spec fn strip_trailing_quotes(s: Seq<char>) -> Seq<char>
    decreases s.len(),
{
    if s.len() > 0 && s.last() == '"' {
        strip_trailing_quotes(s.drop_last())
    } else {
        s
    }
}

/// The preprocessor's reading of a line: after trimming, a line starting
/// with `#include` names the file in the rest of the line (trimmed, with
/// surrounding double quotes removed and backslashes turned into forward
/// slashes); one starting with `#define` is skipped; any other is text.
pub open spec fn classify_line_spec(line: Seq<char>) -> LineKindView {
    let t = trim(line);
    if starts_with_chars(t, include_word()) {
        LineKindView::Include(
            forward_slashes(strip_trailing_quotes(strip_leading_quotes(trim(t.skip(8))))),
        )
    } else if starts_with_chars(t, define_word()) {
        LineKindView::Define
    } else {
        LineKindView::Text
    }
}

fn matches_word(s: &Vec<char>, at: usize, end: usize, w: &Vec<char>) -> (r: bool)
    requires
        at <= end <= s@.len(),
    ensures
        r == starts_with_chars(s@.subrange(at as int, end as int), w@),
{
    if end - at < w.len() {
        return false;
    }
    let mut k: usize = 0;
    while k < w.len()
        invariant
            k <= w@.len(),
            at + w@.len() <= end <= s@.len(),
            forall|j: int| 0 <= j < k ==> s@[at + j] == w@[j],
        decreases w@.len() - k,
    {
        if s[at + k] != w[k] {
            assert(s@.subrange(at as int, end as int).take(w@.len() as int)[k as int] != w@[k as int]);
            return false;
        }
        k = k + 1;
    }
    assert(s@.subrange(at as int, end as int).take(w@.len() as int) =~= w@);
    true
}

/// Reads an SFZ source line for the preprocessor (see
/// [`classify_line_spec`]).
pub fn classify_line(line: &str) -> (r: LineKind)
    ensures
        r@ == classify_line_spec(line@),
{
    let s = chars_of(line);
    assert(s@.subrange(0, s@.len() as int) =~= s@);
    let (la, lb) = trim_bounds(&s, 0, s.len());
    let ghost t = s@.subrange(la as int, lb as int);
    let mut inc: Vec<char> = Vec::new();
    inc.push('#');
    inc.push('i');
    inc.push('n');
    inc.push('c');
    inc.push('l');
    inc.push('u');
    inc.push('d');
    inc.push('e');
    assert(inc@ =~= include_word());
    if matches_word(&s, la, lb, &inc) {
        let (a0, b0) = trim_bounds(&s, la + 8, lb);
        assert(t.skip(8) =~= s@.subrange(la + 8, lb as int));
        let mut a = a0;
        while a < b0 && s[a] == '"'
            invariant
                a0 <= a <= b0 <= s@.len(),
                strip_leading_quotes(s@.subrange(a0 as int, b0 as int)) == strip_leading_quotes(
                    s@.subrange(a as int, b0 as int),
                ),
            decreases b0 - a,
        {
            assert(s@.subrange(a as int, b0 as int).drop_first() =~= s@.subrange(a + 1, b0 as int));
            a = a + 1;
        }
        assert(strip_leading_quotes(s@.subrange(a as int, b0 as int)) == s@.subrange(a as int, b0 as int));
        let mut b = b0;
        while b > a && s[b - 1] == '"'
            invariant
                a <= b <= b0 <= s@.len(),
                strip_trailing_quotes(s@.subrange(a as int, b0 as int)) == strip_trailing_quotes(
                    s@.subrange(a as int, b as int),
                ),
            decreases b - a,
        {
            assert(s@.subrange(a as int, b as int).drop_last() =~= s@.subrange(a as int, b - 1));
            b = b - 1;
        }
        assert(strip_trailing_quotes(s@.subrange(a as int, b as int)) == s@.subrange(a as int, b as int));
        let raw = string_of(&s, a, b);
        return LineKind::Include(with_forward_slashes(&raw));
    }
    let mut def: Vec<char> = Vec::new();
    def.push('#');
    def.push('d');
    def.push('e');
    def.push('f');
    def.push('i');
    def.push('n');
    def.push('e');
    assert(def@ =~= define_word());
    if matches_word(&s, la, lb, &def) {
        LineKind::Define
    } else {
        LineKind::Text
    }
}

pub open spec fn key_views(keys: Seq<Vec<u8>>) -> Seq<Seq<u8>> {
    keys.map_values(|k: Vec<u8>| k@)
}

/// Whether no earlier key equals key `i`.
pub open spec fn first_of_key(keys: Seq<Seq<u8>>, i: int) -> bool {
    forall|m: int| 0 <= m < i ==> keys[m] != keys[i]
}

fn same_bytes(a: &Vec<u8>, b: &Vec<u8>) -> (r: bool)
    ensures
        r == (a@ == b@),
{
    if a.len() != b.len() {
        return false;
    }
    let mut k: usize = 0;
    while k < a.len()
        invariant
            k <= a@.len(),
            a@.len() == b@.len(),
            forall|j: int| 0 <= j < k ==> a@[j] == b@[j],
        decreases a@.len() - k,
    {
        if a[k] != b[k] {
            return false;
        }
        k = k + 1;
    }
    assert(a@ =~= b@);
    true
}

/// Plans one sample buffer per distinct sample file: `keys[i]` identifies
/// the file of region `i`. Returns, for each region, the number of its
/// buffer, and for each buffer the region that first names its file; the
/// buffers come in the order their files first appear.
pub fn plan_sample_buffers(keys: &Vec<Vec<u8>>) -> (r: (Vec<usize>, Vec<usize>))
    ensures
        r.0@.len() == keys@.len(),
        forall|j: int| 0 <= j < r.1@.len() ==> (r.1@[j] as int) < keys@.len() && first_of_key(
            key_views(keys@),
            r.1@[j] as int,
        ),
        forall|j: int, k: int| 0 <= j < k < r.1@.len() ==> r.1@[j] < r.1@[k],
        forall|i: int| 0 <= i < keys@.len() ==> (r.0@[i] as int) < r.1@.len() && keys@[r.1@[r.0@[i] as int] as int]@
            == keys@[i]@,
        forall|i: int| 0 <= i < keys@.len() && #[trigger] first_of_key(key_views(keys@), i) ==> exists|j: int|
            0 <= j < r.1@.len() && r.1@[j] == i,
{
    let ghost ks = key_views(keys@);
    let mut slots: Vec<usize> = Vec::new();
    let mut firsts: Vec<usize> = Vec::new();
    let mut i: usize = 0;
    while i < keys.len()
        invariant
            i <= keys@.len(),
            ks == key_views(keys@),
            slots@.len() == i,
            forall|j: int| 0 <= j < firsts@.len() ==> (firsts@[j] as int) < i && first_of_key(ks, firsts@[j] as int),
            forall|j: int, k: int| 0 <= j < k < firsts@.len() ==> firsts@[j] < firsts@[k],
            forall|a: int| 0 <= a < i ==> (slots@[a] as int) < firsts@.len() && keys@[firsts@[slots@[a] as int] as int]@
                == keys@[a]@,
            forall|a: int| 0 <= a < i && #[trigger] first_of_key(ks, a) ==> exists|j: int| 0 <= j < firsts@.len() && firsts@[j] == a,
        decreases keys@.len() - i,
    {
        let mut found: Option<usize> = None;
        let mut j: usize = 0;
        while j < firsts.len()
            invariant
                j <= firsts@.len(),
                i < keys@.len(),
                forall|q: int| 0 <= q < firsts@.len() ==> (firsts@[q] as int) < i,
                match found {
                    Some(f) => f < firsts@.len() && keys@[firsts@[f as int] as int]@ == keys@[i as int]@,
                    None => forall|q: int| 0 <= q < j ==> keys@[firsts@[q] as int]@ != keys@[i as int]@,
                },
            decreases firsts@.len() - j,
        {
            if found.is_none() && same_bytes(&keys[firsts[j]], &keys[i]) {
                found = Some(j);
            }
            j = j + 1;
        }
        match found {
            Some(f) => {
                slots.push(f);
                proof {
                    assert(!first_of_key(ks, i as int)) by {
                        assert(ks[firsts@[f as int] as int] == ks[i as int]);
                    }
                }
            },
            None => {
                proof {
                    assert forall|m: int| 0 <= m < i implies ks[m] != ks[i as int] by {
                        if ks[m] == ks[i as int] {
                            let q = slots@[m] as int;
                            assert(keys@[firsts@[q] as int]@ == keys@[m]@);
                        }
                    }
                }
                let ghost old_firsts = firsts@;
                slots.push(firsts.len());
                firsts.push(i);
                proof {
                    assert forall|a: int| 0 <= a <= i && #[trigger] first_of_key(ks, a) implies exists|j: int|
                        0 <= j < firsts@.len() && firsts@[j] == a by {
                        if a < i {
                            let j = choose|j: int| 0 <= j < old_firsts.len() && old_firsts[j] == a;
                            assert(firsts@[j] == a);
                        } else {
                            assert(firsts@[firsts@.len() - 1] == a);
                        }
                    }
                }
            },
        }
        i = i + 1;
    }
    (slots, firsts)
}

/// The range an integer opcode's value must lie in, for the keys that set
/// an integer field.
pub open spec fn integer_opcode_range(key: Seq<char>) -> Option<(int, int)> {
    if key == "lokey"@ || key == "hikey"@ || key == "key"@ || key == "pitch_keycenter"@ || key == "pan"@ {
        Some((-128, 127))
    } else if key == "lovel"@ || key == "hivel"@ {
        Some((0, 255))
    } else if key == "volume"@ || key == "tune"@ {
        Some((-32768, 32767))
    } else if key == "loop_start"@ || key == "loop_end"@ || key == "offset"@ {
        Some((0, 4294967295))
    } else {
        None
    }
}

/// An integer opcode whose value does not parse in its field's range
/// changes nothing: no field is reset to zero or to a default.
pub proof fn law_bad_integer_value_ignored(r: RegionView, key: Seq<char>, value: Seq<char>)
    requires
        match integer_opcode_range(key) {
            Some((lo, hi)) => parse_int_spec(value, lo, hi) is None,
            None => false,
        },
    ensures
        apply_opcode_spec(r, key, value) == r,
{
    reveal_strlit("sample");
    reveal_strlit("default_path");
    reveal_strlit("lokey");
    reveal_strlit("hikey");
    reveal_strlit("key");
    reveal_strlit("lovel");
    reveal_strlit("hivel");
    reveal_strlit("pitch_keycenter");
    reveal_strlit("volume");
    reveal_strlit("pan");
    reveal_strlit("tune");
    reveal_strlit("loop_mode");
    reveal_strlit("loop_start");
    reveal_strlit("loop_end");
    reveal_strlit("offset");
    assert("key"@[0] != "pan"@[0]);
    assert("lokey"@[0] != "hikey"@[0]);
    assert("lokey"@[2] != "lovel"@[2]);
    assert("lokey"@[0] != "hivel"@[0]);
    assert("hikey"@[2] != "hivel"@[2]);
    assert("hikey"@[0] != "lovel"@[0]);
    assert("lovel"@[0] != "hivel"@[0]);
    assert("sample"@[0] != "volume"@[0]);
    assert("sample"@[0] != "offset"@[0]);
    assert("volume"@[0] != "offset"@[0]);
    assert("sample"@.len() == 6 && "default_path"@.len() == 12 && "loop_mode"@.len() == 9);
    assert("key"@.len() == 3 && "pan"@.len() == 3 && "tune"@.len() == 4 && "lokey"@.len() == 5);
    assert("hikey"@.len() == 5 && "lovel"@.len() == 5 && "hivel"@.len() == 5 && "volume"@.len() == 6);
    assert("offset"@.len() == 6 && "loop_end"@.len() == 8 && "loop_start"@.len() == 10);
    assert("pitch_keycenter"@.len() == 15);
    if key == "lokey"@ {
        assert(apply_opcode_spec(r, key, value) == r);
    } else if key == "hikey"@ {
        assert(apply_opcode_spec(r, key, value) == r);
    } else if key == "key"@ {
        assert(apply_opcode_spec(r, key, value) == r);
    } else if key == "lovel"@ {
        assert(apply_opcode_spec(r, key, value) == r);
    } else if key == "hivel"@ {
        assert(apply_opcode_spec(r, key, value) == r);
    } else if key == "pitch_keycenter"@ {
        assert(apply_opcode_spec(r, key, value) == r);
    } else if key == "volume"@ {
        assert(apply_opcode_spec(r, key, value) == r);
    } else if key == "pan"@ {
        assert(apply_opcode_spec(r, key, value) == r);
    } else if key == "tune"@ {
        assert(apply_opcode_spec(r, key, value) == r);
    } else if key == "loop_start"@ {
        assert(apply_opcode_spec(r, key, value) == r);
    } else if key == "loop_end"@ {
        assert(apply_opcode_spec(r, key, value) == r);
    } else {
        assert(apply_opcode_spec(r, key, value) == r);
    }
}

/// Integer opcodes set their field to the value their text gives, when
/// it parses within the field's range, and leave every other setting as
/// it was; `key` sets the low key, the high key and the key center at once.
pub proof fn law_integer_opcodes_set_fields(r: RegionView, value: Seq<char>)
    ensures
        parse_int_spec(value, -128, 127) matches Some(v) ==> apply_opcode_spec(r, "pitch_keycenter"@, value)
            == (RegionView { pitch_keycenter: v as i8, ..r }),
        parse_int_spec(value, -128, 127) matches Some(v) ==> apply_opcode_spec(r, "lokey"@, value)
            == (RegionView { lokey: v as i8, ..r }),
        parse_int_spec(value, -128, 127) matches Some(v) ==> apply_opcode_spec(r, "hikey"@, value)
            == (RegionView { hikey: v as i8, ..r }),
        parse_int_spec(value, -128, 127) matches Some(v) ==> apply_opcode_spec(r, "key"@, value)
            == (RegionView { lokey: v as i8, hikey: v as i8, pitch_keycenter: v as i8, ..r }),
        parse_int_spec(value, -128, 127) matches Some(v) ==> apply_opcode_spec(r, "pan"@, value)
            == (RegionView { pan: v as i8, ..r }),
        parse_int_spec(value, 0, 255) matches Some(v) ==> apply_opcode_spec(r, "lovel"@, value)
            == (RegionView { lovel: v as u8, ..r }),
        parse_int_spec(value, 0, 255) matches Some(v) ==> apply_opcode_spec(r, "hivel"@, value)
            == (RegionView { hivel: v as u8, ..r }),
        parse_int_spec(value, -32768, 32767) matches Some(v) ==> apply_opcode_spec(r, "volume"@, value)
            == (RegionView { volume: v as i16, ..r }),
        parse_int_spec(value, -32768, 32767) matches Some(v) ==> apply_opcode_spec(r, "tune"@, value)
            == (RegionView { tune: v as i16, ..r }),
        parse_int_spec(value, 0, 4294967295) matches Some(v) ==> apply_opcode_spec(r, "loop_start"@, value)
            == (RegionView { loop_start: v as u32, ..r }),
        parse_int_spec(value, 0, 4294967295) matches Some(v) ==> apply_opcode_spec(r, "loop_end"@, value)
            == (RegionView { loop_end: v as u32, ..r }),
        parse_int_spec(value, 0, 4294967295) matches Some(v) ==> apply_opcode_spec(r, "offset"@, value)
            == (RegionView { offset: v as u32, ..r }),
{
    reveal_strlit("sample");
    reveal_strlit("default_path");
    reveal_strlit("lokey");
    reveal_strlit("hikey");
    reveal_strlit("key");
    reveal_strlit("lovel");
    reveal_strlit("hivel");
    reveal_strlit("pitch_keycenter");
    reveal_strlit("volume");
    reveal_strlit("pan");
    reveal_strlit("tune");
    reveal_strlit("loop_mode");
    reveal_strlit("loop_start");
    reveal_strlit("loop_end");
    reveal_strlit("offset");
    assert("key"@[0] != "pan"@[0]);
    assert("lokey"@[0] != "hikey"@[0]);
    assert("lokey"@[2] != "lovel"@[2]);
    assert("lokey"@[0] != "hivel"@[0]);
    assert("hikey"@[2] != "hivel"@[2]);
    assert("hikey"@[0] != "lovel"@[0]);
    assert("lovel"@[0] != "hivel"@[0]);
    assert("sample"@[0] != "volume"@[0]);
    assert("sample"@[0] != "offset"@[0]);
    assert("volume"@[0] != "offset"@[0]);
    assert("sample"@.len() == 6 && "default_path"@.len() == 12 && "loop_mode"@.len() == 9);
    assert("key"@.len() == 3 && "pan"@.len() == 3 && "tune"@.len() == 4 && "lokey"@.len() == 5);
    assert("hikey"@.len() == 5 && "lovel"@.len() == 5 && "hivel"@.len() == 5 && "volume"@.len() == 6);
    assert("offset"@.len() == 6 && "loop_end"@.len() == 8 && "loop_start"@.len() == 10);
    assert("pitch_keycenter"@.len() == 15);
}

/// The decimal text of an integer: its digits, after a `-` when negative.
pub open spec fn int_text(n: int) -> Seq<char> {
    if n < 0 {
        seq!['-'] + decimal((-n) as nat)
    } else {
        decimal(n as nat)
    }
}

proof fn lemma_decimal_digits(n: nat)
    ensures
        all_digits(decimal(n)),
        digits_value(decimal(n)) == n,
        decimal(n).len() >= 1,
    decreases n,
{
    if n < 10 {
        let s = decimal(n);
        assert(s.drop_last() =~= Seq::<char>::empty());
        assert(((n + 48) as char) as u32 == n + 48);
        assert(s.last() == (n + 48) as char);
        assert(digits_value(s.drop_last()) == 0);
        assert(digits_value(s) == digits_value(s.drop_last()) * 10 + (s.last() as u32 - 48));
    } else {
        lemma_decimal_digits(n / 10);
        let s = decimal(n);
        assert(s.drop_last() =~= decimal(n / 10));
        assert((((n % 10) + 48) as char) as u32 == (n % 10) + 48);
        assert(s.last() == ((n % 10) + 48) as char);
        assert(digits_value(s) == digits_value(s.drop_last()) * 10 + (s.last() as u32 - 48));
        assert((n / 10) * 10 + n % 10 == n);
    }
}

/// Writing an integer in the range of a field as decimal text and reading
/// it back gives the integer.
pub proof fn law_int_text_parses(n: int, lo: int, hi: int)
    requires
        lo <= n <= hi,
    ensures
        parse_int_spec(int_text(n), lo, hi) == Some(n),
{
    if n < 0 {
        lemma_decimal_digits((-n) as nat);
        let t = int_text(n);
        assert(t.drop_first() =~= decimal((-n) as nat));
    } else {
        lemma_decimal_digits(n as nat);
        let d = decimal(n as nat);
        assert(is_digit(d[0]));
    }
}

/// A region's key center is what a `pitch_keycenter` opcode writes, for
/// every key number, and nothing else changes.
pub proof fn law_keycenter_from_text(r: RegionView, n: int)
    requires
        -128 <= n <= 127,
    ensures
        apply_opcode_spec(r, "pitch_keycenter"@, int_text(n)) == (RegionView { pitch_keycenter: n as i8, ..r }),
        apply_opcode_spec(r, "pitch_keycenter"@, int_text(n)).pitch_keycenter == n,
{
    law_int_text_parses(n, -128, 127);
    law_integer_opcodes_set_fields(r, int_text(n));
}

/// A `loop_mode` opcode sets the loop mode its value names (`no_loop`,
/// `loop_continuous`, `loop_sustain`, `one_shot`), any other value meaning
/// no loop; a `sample` opcode sets the sample's file name to its value with
/// each backslash turned into a slash. Nothing else changes.
pub proof fn law_loop_mode_and_sample_opcodes(r: RegionView, value: Seq<char>)
    ensures
        apply_opcode_spec(r, "loop_mode"@, "no_loop"@) == (RegionView { loop_mode: LoopMode::NoLoop, ..r }),
        apply_opcode_spec(r, "loop_mode"@, "loop_continuous"@) == (RegionView { loop_mode: LoopMode::LoopContinuous, ..r }),
        apply_opcode_spec(r, "loop_mode"@, "loop_sustain"@) == (RegionView { loop_mode: LoopMode::LoopSustain, ..r }),
        apply_opcode_spec(r, "loop_mode"@, "one_shot"@) == (RegionView { loop_mode: LoopMode::OneShot, ..r }),
        value != "loop_continuous"@ && value != "loop_sustain"@ && value != "one_shot"@
            ==> apply_opcode_spec(r, "loop_mode"@, value) == (RegionView { loop_mode: LoopMode::NoLoop, ..r }),
        apply_opcode_spec(r, "sample"@, value).sample_filename.len() == value.len(),
        forall|k: int| 0 <= k < value.len() ==> #[trigger] apply_opcode_spec(r, "sample"@, value).sample_filename[k]
            == (if value[k] == '\\' { '/' } else { value[k] }),
        apply_opcode_spec(r, "sample"@, value) == (RegionView { sample_filename: apply_opcode_spec(r, "sample"@, value).sample_filename, ..r }),
{
    reveal_strlit("sample");
    reveal_strlit("default_path");
    reveal_strlit("lokey");
    reveal_strlit("hikey");
    reveal_strlit("key");
    reveal_strlit("lovel");
    reveal_strlit("hivel");
    reveal_strlit("pitch_keycenter");
    reveal_strlit("volume");
    reveal_strlit("pan");
    reveal_strlit("tune");
    reveal_strlit("loop_mode");
    reveal_strlit("no_loop");
    reveal_strlit("loop_continuous");
    reveal_strlit("loop_sustain");
    reveal_strlit("one_shot");
    assert("sample"@.len() == 6 && "default_path"@.len() == 12 && "loop_mode"@.len() == 9);
    assert("key"@.len() == 3 && "pan"@.len() == 3 && "tune"@.len() == 4 && "lokey"@.len() == 5);
    assert("hikey"@.len() == 5 && "lovel"@.len() == 5 && "hivel"@.len() == 5 && "volume"@.len() == 6);
    assert("pitch_keycenter"@.len() == 15);
    assert("sample"@[0] != "volume"@[0]);
    assert("no_loop"@.len() == 7 && "loop_continuous"@.len() == 15 && "loop_sustain"@.len() == 12 && "one_shot"@.len() == 8);
}

/// The region built from SFZ settings answers the keys `lokey..=hikey`
/// and velocities `lovel..=hivel` (key numbers read as unsigned bytes),
/// is rooted at `pitch_keycenter`, ends at the sample's last frame, keeps
/// its loop mode and has no exclusive class; its loop points and start
/// offset never pass the sample's end, and when the sample is played at the
/// rate it was recorded at they are the settings' values (capped at the
/// end).
pub proof fn law_sfz_region_places_sample<P>(r: RegionView, sample_len: usize, orig_rate: u32, sample_rate: u32, sound: P)
    requires
        sample_len <= u32::MAX,
    ensures
        ({
            let g = sfz_region_spec(r, sample_len, orig_rate, sample_rate, sound);
            &&& g.key_range.lo == r.lokey as u8 && g.key_range.hi == r.hikey as u8
            &&& g.vel_range.lo == r.lovel && g.vel_range.hi == r.hivel
            &&& g.root_key == r.pitch_keycenter as u8
            &&& g.loop_mode == r.loop_mode
            &&& g.sample_end == sample_len
            &&& g.original_sample_rate == orig_rate
            &&& g.exclusive_class is None
            &&& g.loop_start <= sample_len && g.loop_end <= sample_len && g.offset <= sample_len
            &&& orig_rate == sample_rate && sample_rate > 0 ==> {
                &&& g.loop_start == (if r.loop_start <= sample_len { r.loop_start as int } else { sample_len as int })
                &&& g.loop_end == (if r.loop_end <= sample_len { r.loop_end as int } else { sample_len as int })
                &&& g.offset == (if r.offset <= sample_len { r.offset as int } else { sample_len as int })
            }
        }),
{
    if orig_rate == sample_rate && sample_rate > 0 {
        crate::types::law_convert_same_rate(r.loop_start, sample_rate);
        crate::types::law_convert_same_rate(r.loop_end, sample_rate);
        crate::types::law_convert_same_rate(r.offset, sample_rate);
    }
}

/// Header inheritance: a region under a `<group>` starts from the group's
/// settings, and a `<region>` header closes the region before it, so the
/// next region starts again from the enclosing settings and not from the
/// previous region's.
pub proof fn law_region_inheritance(gk: Seq<char>, gv: Seq<char>, rk: Seq<char>, rv: Seq<char>, k2: Seq<char>, v2: Seq<char>)
    ensures
        parse_regions_spec(seq![
            TokenView::Header("group"@),
            TokenView::Opcode(gk, gv),
            TokenView::Header("region"@),
            TokenView::Opcode(rk, rv),
        ]) == emit(Seq::empty(), apply_opcode_spec(apply_opcode_spec(default_region(), gk, gv), rk, rv)),
        parse_regions_spec(seq![
            TokenView::Header("region"@),
            TokenView::Opcode(rk, rv),
            TokenView::Header("region"@),
            TokenView::Opcode(k2, v2),
        ]) == emit(emit(Seq::empty(), apply_opcode_spec(default_region(), rk, rv)), apply_opcode_spec(default_region(), k2, v2)),
{
    reveal_strlit("group");
    reveal_strlit("region");
    reveal_strlit("control");
    reveal_strlit("global");
    reveal_strlit("master");
    assert("group"@[0] != "global"@[0] || "group"@[1] != "global"@[1]);
    assert("region"@[0] != "global"@[0]);
    assert("group"@.len() != "control"@.len() && "region"@.len() != "control"@.len());
    assert("group"@.len() != "master"@.len() && "region"@[0] != "master"@[0]);
    assert("group"@.len() != "region"@.len());
    let d = default_region();
    let t1 = seq![
        TokenView::Header("group"@),
        TokenView::Opcode(gk, gv),
        TokenView::Header("region"@),
        TokenView::Opcode(rk, rv),
    ];
    let s0 = parse_state(Seq::<TokenView>::empty());
    assert(t1.drop_last().drop_last().drop_last().drop_last() =~= Seq::<TokenView>::empty());
    let s1 = parse_state(t1.drop_last().drop_last().drop_last());
    assert(t1.drop_last().drop_last().drop_last() =~= seq![TokenView::Header("group"@)]);
    assert(s1.stack =~= seq![d, d, d]);
    let s2 = parse_state(t1.drop_last().drop_last());
    let g = apply_opcode_spec(d, gk, gv);
    assert(s2.stack =~= seq![d, d, g]);
    let s3 = parse_state(t1.drop_last());
    assert(s3.stack =~= seq![d, d, g, g]);
    let s4 = parse_state(t1);
    assert(s4.stack =~= seq![d, d, g, apply_opcode_spec(g, rk, rv)]);
    let t2 = seq![
        TokenView::Header("region"@),
        TokenView::Opcode(rk, rv),
        TokenView::Header("region"@),
        TokenView::Opcode(k2, v2),
    ];
    assert(t2.drop_last().drop_last().drop_last().drop_last() =~= Seq::<TokenView>::empty());
    let u1 = parse_state(t2.drop_last().drop_last().drop_last());
    assert(u1.stack =~= seq![d, d, d, d]);
    let u2 = parse_state(t2.drop_last().drop_last());
    let a = apply_opcode_spec(d, rk, rv);
    assert(u2.stack =~= seq![d, d, d, a]);
    let u3 = parse_state(t2.drop_last());
    assert(u3.regions == emit(Seq::empty(), a));
    assert(u3.stack =~= seq![d, d, d, d]);
    let u4 = parse_state(t2);
    assert(u4.stack =~= seq![d, d, d, apply_opcode_spec(d, k2, v2)]);
}

proof fn lemma_trim_clean(s: Seq<char>)
    requires
        s.len() > 0,
        !is_ws(s[0]),
        !is_ws(s[s.len() - 1]),
    ensures
        trim(s) == s,
{
    reveal(trim_lo);
    reveal(trim_hi);
    assert(has_content(s));
    let lo = trim_lo(s);
    let hi = trim_hi(s);
    let a = choose|i: int| 0 <= i < s.len() && !is_ws(s[i]) && (forall|j: int| 0 <= j < i ==> is_ws(#[trigger] s[j]));
    assert(0 <= a < s.len() && !is_ws(s[a]) && (forall|j: int| 0 <= j < a ==> is_ws(#[trigger] s[j]))) by {
        assert(0 <= 0 < s.len() && !is_ws(s[0]) && (forall|j: int| 0 <= j < 0 ==> is_ws(#[trigger] s[j])));
    }
    if a > 0 {
        assert(is_ws(s[0]));
    }
    let b = choose|i: int| 0 <= i < s.len() && !is_ws(s[i]) && (forall|j: int| i < j < s.len() ==> is_ws(#[trigger] s[j]));
    assert(0 <= b < s.len() && !is_ws(s[b]) && (forall|j: int| b < j < s.len() ==> is_ws(#[trigger] s[j]))) by {
        let l = s.len() - 1;
        assert(0 <= l < s.len() && !is_ws(s[l]) && (forall|j: int| l < j < s.len() ==> is_ws(#[trigger] s[j])));
    }
    if b < s.len() - 1 {
        assert(is_ws(s[s.len() - 1]));
    }
    assert(lo == 0 && hi == s.len());
    assert(s.subrange(0, s.len() as int) =~= s);
}

proof fn lemma_find_char_at(s: Seq<char>, c: char, p: int)
    requires
        0 <= p < s.len(),
        s[p] == c,
        forall|j: int| 0 <= j < p ==> s[j] != c,
    ensures
        find_char(s, c) == Some(p),
{
    reveal(find_char);
    let q = choose|i: int| 0 <= i < s.len() && s[i] == c && (forall|j: int| 0 <= j < i ==> s[j] != c);
    assert(0 <= q < s.len() && s[q] == c && (forall|j: int| 0 <= j < q ==> s[j] != c));
    if q < p {
        assert(s[q] != c);
    } else if q > p {
        assert(s[p] != c);
    }
}

proof fn lemma_no_comment(s: Seq<char>)
    requires
        forall|i: int| !#[trigger] comment_at(s, i),
    ensures
        find_comment(s) is None,
{
    reveal(find_comment);
}

/// A `<name>` line is a header named by its lowercased text.
pub proof fn law_header_line(h: Seq<char>)
    ensures
        line_token(seq!['<'] + h + seq!['>']) == Some(TokenView::Header(lowercase(h))),
{
    let line = seq!['<'] + h + seq!['>'];
    assert(line[0] == '<' && line[line.len() - 1] == '>');
    lemma_trim_clean(line);
    assert(line.subrange(1, line.len() - 1) =~= h);
}

/// A `key=value` line is an opcode: its key is lowercased, its value kept
/// as written (here with no whitespace around either and no `//` comment
/// in the value, and a key that does not start a header or a comment).
pub proof fn law_opcode_line(k: Seq<char>, v: Seq<char>)
    requires
        k.len() > 0 && v.len() > 0,
        !is_ws(k[0]) && !is_ws(k[k.len() - 1]) && !is_ws(v[0]) && !is_ws(v[v.len() - 1]),
        k[0] != '<' && k[0] != '/',
        forall|i: int| 0 <= i < k.len() ==> k[i] != '=',
        forall|i: int| !#[trigger] comment_at(v, i),
    ensures
        line_token(k + seq!['='] + v) == Some(TokenView::Opcode(lowercase(k), v)),
{
    let line = k + seq!['='] + v;
    assert(line[0] == k[0]);
    assert(line[line.len() - 1] == v[v.len() - 1]);
    lemma_trim_clean(line);
    let p = k.len() as int;
    assert(line[p] == '=');
    assert forall|j: int| 0 <= j < p implies line[j] != '=' by {
        assert(line[j] == k[j]);
    }
    lemma_find_char_at(line, '=', p);
    assert(line.take(p) =~= k);
    assert(line.skip(p + 1) =~= v);
    lemma_trim_clean(k);
    lemma_trim_clean(v);
    lemma_no_comment(v);
}

/// Tokens keep the order of their lines, and lines without a token add
/// none.
pub proof fn law_tokens_in_line_order(a: Seq<char>, b: Seq<char>)
    ensures
        tokens_of(seq![a, b]) == (match (line_token(a), line_token(b)) {
            (Some(x), Some(y)) => seq![x, y],
            (Some(x), None) => seq![x],
            (None, Some(y)) => seq![y],
            (None, None) => Seq::<TokenView>::empty(),
        }),
{
    let ls = seq![a, b];
    assert(ls.drop_last() =~= seq![a]);
    assert(ls.drop_last().drop_last() =~= Seq::<Seq<char>>::empty());
    assert(tokens_of(seq![a]) == (match line_token(a) { Some(x) => seq![x], None => Seq::<TokenView>::empty() })) by {
        assert(seq![a].drop_last() =~= Seq::<Seq<char>>::empty());
        assert(seq![a].last() == a);
        assert(tokens_of(Seq::<Seq<char>>::empty()) == Seq::<TokenView>::empty());
        match line_token(a) {
            Some(x) => assert(Seq::<TokenView>::empty().push(x) =~= seq![x]),
            None => {},
        }
    }
    assert(ls.last() == b);
    match (line_token(a), line_token(b)) {
        (Some(x), Some(y)) => assert(seq![x].push(y) =~= seq![x, y]),
        (None, Some(y)) => assert(Seq::<TokenView>::empty().push(y) =~= seq![y]),
        _ => {},
    }
}

} // verus!
