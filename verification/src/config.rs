//! The files under `~/.switchbot/`: the mode file, the devices file, the
//! `.env` credentials, and the setup of the whole context.
use vstd::prelude::*;
use crate::text::{
    chars_of, concat, decimal, decimal_string, find_char, first_index_of, split_chars, split_on,
    string_from_chars, sub_chars, trim, trim_chars,
};

verus! {

/// The std type of the paths that the context holds.
#[verifier::external_type_specification]
#[verifier::external_body]
pub struct ExPathBuf(std::path::PathBuf);

/// The bulb's colour mode.
#[derive(Debug, Clone, Copy, PartialEq, Eq, Structural)]
pub enum Mode {
    Rgb,
    Temp,
}

/// The public label of a mode: `rgb` or `temp`.
pub open spec fn mode_label(m: Mode) -> Seq<char> {
    match m {
        Mode::Rgb => "rgb"@,
        Mode::Temp => "temp"@,
    }
}

impl Mode {
    /// The public label (`rgb` / `temp`) used in output, JSON and the mode file.
    pub fn as_str(self) -> (s: &'static str)
        ensures
            s@ == mode_label(self),
    {
        match self {
            Mode::Rgb => "rgb",
            Mode::Temp => "temp",
        }
    }
}

/// A mode file whose `mode` value is neither `rgb` nor `temp`.
#[derive(Debug)]
pub struct InvalidModeValue {
    pub value: String,
}

impl InvalidModeValue {
    /// The error's message.
    pub fn message(&self) -> (m: String)
        ensures
            m@ == "invalid mode value '"@ + self.value@ + "': expected 'rgb' or 'temp'"@,
    {
        let mut m = String::from_str("invalid mode value '");
        m.append(self.value.as_str());
        m.append("': expected 'rgb' or 'temp'");
        m
    }
}

/// The mode that a label names: `rgb` or `temp`, nothing else.
pub open spec fn mode_of_label(s: Seq<char>) -> Option<Mode> {
    if s == "rgb"@ {
        Some(Mode::Rgb)
    } else if s == "temp"@ {
        Some(Mode::Temp)
    } else {
        None
    }
}

/// The mode that the `mode` value of the mode file names.
pub fn mode_from_label(value: &str) -> (r: Result<Mode, InvalidModeValue>)
    ensures
        match mode_of_label(value@) {
            Some(m) => r matches Ok(x) && x == m,
            None => r matches Err(e) && e.value@ == value@,
        },
{
    if crate::text::same_text(value, "rgb") {
        Ok(Mode::Rgb)
    } else if crate::text::same_text(value, "temp") {
        Ok(Mode::Temp)
    } else {
        Err(InvalidModeValue { value: String::from_str(value) })
    }
}

/// A mode's label names that mode again: what `write_mode` writes,
/// `read_mode` reads back as the same mode.
pub proof fn law_mode_label_round_trip(m: Mode)
    ensures
        mode_of_label(mode_label(m)) == Some(m),
{
    reveal_strlit("rgb");
    reveal_strlit("temp");
    assert("rgb"@.len() == 3);
    assert("temp"@.len() == 4);
    assert("rgb"@ != "temp"@);
}

/// The text of the mode file for a mode.
pub open spec fn mode_file_text(m: Mode) -> Seq<char> {
    "mode = \""@ + mode_label(m) + "\"\n"@
}

/// The text that the mode file holds for `mode`: `mode = "rgb"` and a newline.
pub fn mode_file_content(mode: Mode) -> (s: String)
    ensures
        s@ == mode_file_text(mode),
{
    let mut s = String::from_str("mode = \"");
    s.append(mode.as_str());
    s.append("\"\n");
    s
}

/// The `[default]` section of the devices file.
#[derive(Debug, Clone)]
pub struct DefaultDevice {
    pub id: String,
    /// The `type` key.
    pub kind: String,
    pub name: String,
}

/// The device that a parsed `[default]` section configures: none when the
/// section is absent or its id is empty after trimming; otherwise the section
/// with its id trimmed.
pub fn select_default_device(section: Option<DefaultDevice>) -> (r: Option<DefaultDevice>)
    ensures
        match section {
            None => r is None,
            Some(d) => if trim(d.id@).len() == 0 {
                r is None
            } else {
                r matches Some(e) && e.id@ == trim(d.id@) && e.kind == d.kind && e.name == d.name
            },
        },
{
    match section {
        None => None,
        Some(d) => {
            let v = chars_of(d.id.as_str());
            let t = trim_chars(&v);
            if t.len() == 0 {
                None
            } else {
                let id = string_from_chars(t.as_slice());
                Some(DefaultDevice { id, kind: d.kind, name: d.name })
            }
        },
    }
}

/// The state of the devices file.
#[derive(Debug)]
pub enum DeviceState {
    /// A `[default]` section whose id is non-empty after trimming.
    Configured(DefaultDevice),
    /// No file, no `[default]` section, or an empty id.
    Unconfigured,
    /// The file is not valid TOML; the message says why.
    Malformed(String),
}

/// The state that loading the devices file leaves: a device, none, or the
/// message of a parse failure.
pub fn device_state(loaded: Result<Option<DefaultDevice>, String>) -> (s: DeviceState)
    ensures
        match loaded {
            Ok(Some(d)) => s == DeviceState::Configured(d),
            Ok(None) => s is Unconfigured,
            Err(m) => s == DeviceState::Malformed(m),
        },
{
    match loaded {
        Ok(Some(d)) => DeviceState::Configured(d),
        Ok(None) => DeviceState::Unconfigured,
        Err(m) => DeviceState::Malformed(m),
    }
}

/// The API token and secret.
#[derive(Debug, Clone)]
pub struct Credentials {
    pub token: String,
    pub secret: String,
}

/// Everything a command needs: credentials, the device, and where the mode
/// file and the log live.
#[derive(Debug)]
pub struct Context {
    pub credentials: Credentials,
    pub device: DeviceState,
    pub mode_path: std::path::PathBuf,
    pub log_path: std::path::PathBuf,
}

/// Why the context could not be loaded: during setup (shown on stderr only)
/// or at run time (also logged and notified).
#[derive(Debug)]
pub enum LoadContextError {
    /// First run or missing home directory: the user is still setting up.
    Setup(String),
    /// An outside cause, such as a failed 1Password lookup.
    Runtime(String),
}

impl LoadContextError {
    /// Whether the error is also logged and notified: run-time errors are, setup errors are not.
    pub fn should_notify(&self) -> (b: bool)
        ensures
            b == (self is Runtime),
    {
        match self {
            LoadContextError::Setup(_) => false,
            LoadContextError::Runtime(_) => true,
        }
    }

    /// The error's message.
    pub fn message(&self) -> (m: String)
        ensures
            match self {
                LoadContextError::Setup(s) => m@ == s@,
                LoadContextError::Runtime(s) => m@ == s@,
            },
    {
        match self {
            LoadContextError::Setup(s) => s.clone(),
            LoadContextError::Runtime(s) => s.clone(),
        }
    }
}

/// Whether a `.env` file's permission bits give the group or others any
/// access (then they are reset to owner read/write only, 0o600).
pub fn env_permissions_too_open(mode: u32) -> (b: bool)
    ensures
        b == (mode & 0o077 != 0),
{
    mode & 0o077 != 0
}

/// The `.env` template written on first run.
pub const ENV_TEMPLATE: &'static str = "\
# 1Password 連携 (推奨):
SWITCHBOT_TOKEN=op://Personal/SwitchBot/token
SWITCHBOT_SECRET=op://Personal/SwitchBot/secret
# 直接値を書く場合 (テスト用途等):
# SWITCHBOT_TOKEN=...
# SWITCHBOT_SECRET=...
";

/// The devices template written on first run.
pub const DEVICES_TEMPLATE: &'static str = "\
# ~/.switchbot/devices
# `switchbot list` の出力をリダイレクトするか、手書きで埋めてください。
[default]
id = \"\"
type = \"Color Bulb\"
";


// ----------------------------------------------------------------- .env files

/// The pairs in order, folded into a map: a later pair of the same key wins.
pub open spec fn pairs_map(e: Seq<(String, String)>) -> Map<Seq<char>, Seq<char>>
    decreases e.len(),
{
    if e.len() == 0 {
        Map::empty()
    } else {
        pairs_map(e.drop_last()).insert(e.last().0@, e.last().1@)
    }
}

/// No key occurs twice.
pub open spec fn keys_unique(e: Seq<(String, String)>) -> bool {
    forall|i: int, j: int| 0 <= i < j < e.len() ==> e[i].0@ != e[j].0@
}

/// The keys of the pairs are the keys of the map.
proof fn lemma_pairs_map_dom(e: Seq<(String, String)>, k: Seq<char>)
    ensures
        pairs_map(e).dom().contains(k) <==> exists|i: int| 0 <= i < e.len() && e[i].0@ == k,
    decreases e.len(),
{
    if e.len() > 0 {
        lemma_pairs_map_dom(e.drop_last(), k);
        if pairs_map(e.drop_last()).dom().contains(k) {
            let i = choose|i: int| 0 <= i < e.drop_last().len() && e.drop_last()[i].0@ == k;
            assert(e[i].0@ == k);
        }
        if exists|i: int| 0 <= i < e.len() && e[i].0@ == k {
            let i = choose|i: int| 0 <= i < e.len() && e[i].0@ == k;
            if i < e.len() - 1 {
                assert(e.drop_last()[i].0@ == k);
            }
        }
    }
}

/// With unique keys, each pair's value is what the map holds for its key.
proof fn lemma_pairs_map_value(e: Seq<(String, String)>, i: int)
    requires
        keys_unique(e),
        0 <= i < e.len(),
    ensures
        pairs_map(e).dom().contains(e[i].0@),
        pairs_map(e)[e[i].0@] == e[i].1@,
    decreases e.len(),
{
    if i < e.len() - 1 {
        lemma_pairs_map_value(e.drop_last(), i);
        assert(e.drop_last()[i] == e[i]);
    }
}

/// With unique keys, the map has one key per pair.
proof fn lemma_pairs_map_len(e: Seq<(String, String)>)
    requires
        keys_unique(e),
    ensures
        pairs_map(e).dom().finite(),
        pairs_map(e).dom().len() == e.len(),
    decreases e.len(),
{
    if e.len() > 0 {
        let d = e.drop_last();
        assert(keys_unique(d));
        lemma_pairs_map_len(d);
        lemma_pairs_map_dom(d, e.last().0@);
        if pairs_map(d).dom().contains(e.last().0@) {
            let i = choose|i: int| 0 <= i < d.len() && d[i].0@ == e.last().0@;
            assert(e[i].0@ == e[e.len() - 1].0@);
        }
    }
}

/// Replacing the value of a key that occurs once updates that key in the map.
proof fn lemma_pairs_map_update(e: Seq<(String, String)>, i: int, p: (String, String))
    requires
        keys_unique(e),
        0 <= i < e.len(),
        p.0@ == e[i].0@,
    ensures
        pairs_map(e.update(i, p)) == pairs_map(e).insert(p.0@, p.1@),
    decreases e.len(),
{
    let u = e.update(i, p);
    if i == e.len() - 1 {
        assert(u.drop_last() == e.drop_last());
        assert(pairs_map(u) =~= pairs_map(e).insert(p.0@, p.1@));
    } else {
        let d = e.drop_last();
        assert(keys_unique(d));
        lemma_pairs_map_update(d, i, p);
        assert(u.drop_last() == d.update(i, p));
        assert(e.last().0@ != p.0@) by {
            assert(e[i].0@ != e[e.len() - 1].0@);
        }
        assert(pairs_map(u) =~= pairs_map(e).insert(p.0@, p.1@));
    }
}

/// The KEY=VALUE pairs of a `.env` file: each key once, the last value of a
/// repeated key kept (as `HashMap::insert` keeps it).
#[derive(Debug)]
pub struct EnvMap {
    entries: Vec<(String, String)>,
}

impl View for EnvMap {
    type V = Map<Seq<char>, Seq<char>>;

    closed spec fn view(&self) -> Map<Seq<char>, Seq<char>> {
        pairs_map(self.entries@)
    }
}

impl EnvMap {
    #[verifier::type_invariant]
    closed spec fn wf(self) -> bool {
        keys_unique(self.entries@)
    }

    /// The empty map.
    pub fn new() -> (m: EnvMap)
        ensures
            m@ == Map::<Seq<char>, Seq<char>>::empty(),
    {
        EnvMap { entries: Vec::new() }
    }

    fn index_of(&self, key: &str) -> (r: Option<usize>)
        ensures
            match r {
                Some(i) => i < self.entries@.len() && self.entries@[i as int].0@ == key@,
                None => forall|i: int|
                    0 <= i < self.entries@.len() ==> (#[trigger] self.entries@[i]).0@ != key@,
            },
    {
        for i in 0..self.entries.len()
            invariant
                forall|k: int| 0 <= k < i ==> (#[trigger] self.entries@[k]).0@ != key@,
        {
            if crate::text::same_text(self.entries[i].0.as_str(), key) {
                return Some(i);
            }
        }
        None
    }

    /// Sets `key` to `value` (`HashMap::insert`).
    pub fn insert(&mut self, key: String, value: String)
        ensures
            final(self)@ == old(self)@.insert(key@, value@),
    {
        proof {
            use_type_invariant(&*self);
        }
        match self.index_of(key.as_str()) {
            Some(i) => {
                proof {
                    lemma_pairs_map_update(self.entries@, i as int, (key, value));
                }
                let ghost e = self.entries@;
                let mut entries: Vec<(String, String)> = Vec::new();
                std::mem::swap(&mut entries, &mut self.entries);
                entries.set(i, (key, value));
                assert(keys_unique(entries@)) by {
                    assert forall|a: int, b: int| 0 <= a < b < entries@.len() implies entries@[a].0@
                        != entries@[b].0@ by {
                        if a != i && b != i {
                            assert(entries@[a] == e[a] && entries@[b] == e[b]);
                        } else if a == i {
                            assert(entries@[b] == e[b]);
                        } else {
                            assert(entries@[a] == e[a]);
                        }
                    }
                }
                self.entries = entries;
            },
            None => {
                let ghost e = self.entries@;
                let mut entries: Vec<(String, String)> = Vec::new();
                std::mem::swap(&mut entries, &mut self.entries);
                entries.push((key, value));
                assert(entries@.drop_last() == e);
                self.entries = entries;
            },
        }
    }

    /// The value of `key`, if any (`HashMap::get`).
    pub fn get(&self, key: &str) -> (r: Option<&String>)
        ensures
            match r {
                Some(v) => self@.dom().contains(key@) && self@[key@] == v@,
                None => !self@.dom().contains(key@),
            },
    {
        proof {
            use_type_invariant(self);
            lemma_pairs_map_dom(self.entries@, key@);
        }
        match self.index_of(key) {
            Some(i) => {
                proof {
                    lemma_pairs_map_value(self.entries@, i as int);
                }
                Some(&self.entries[i].1)
            },
            None => None,
        }
    }

    /// The number of keys.
    pub fn len(&self) -> (n: usize)
        ensures
            self@.dom().finite(),
            n == self@.dom().len(),
    {
        proof {
            use_type_invariant(self);
            lemma_pairs_map_len(self.entries@);
        }
        self.entries.len()
    }
}

/// `s` begins with `p`.
pub open spec fn starts_with(s: Seq<char>, p: Seq<char>) -> bool {
    p.len() <= s.len() && s.take(p.len() as int) == p
}

/// Whether a value of the map is a 1Password reference (starts with `op://`).
pub open spec fn has_op_value(m: Map<Seq<char>, Seq<char>>) -> bool {
    exists|k: Seq<char>| m.dom().contains(k) && starts_with(#[trigger] m[k], "op://"@)
}

fn text_starts_with(s: &str, p: &str) -> (b: bool)
    ensures
        b == starts_with(s@, p@),
{
    let x = chars_of(s);
    let y = chars_of(p);
    if y.len() > x.len() {
        return false;
    }
    for i in 0..y.len()
        invariant
            x@ == s@,
            y@ == p@,
            y@.len() <= x@.len(),
            forall|k: int| 0 <= k < i ==> x@[k] == y@[k],
    {
        if x[i] != y[i] {
            assert(s@.take(p@.len() as int)[i as int] != p@[i as int]);
            return false;
        }
    }
    assert(s@.take(p@.len() as int) =~= p@);
    true
}

/// True when any value starts with `op://`, so that the file must go through
/// `op inject` before its values can be used.
pub fn has_op_reference(env: &EnvMap) -> (b: bool)
    ensures
        b == has_op_value(env@),
{
    proof {
        use_type_invariant(env);
    }
    for i in 0..env.entries.len()
        invariant
            keys_unique(env.entries@),
            forall|k: int| 0 <= k < i ==> !starts_with((#[trigger] env.entries@[k]).1@, "op://"@),
    {
        if text_starts_with(env.entries[i].1.as_str(), "op://") {
            proof {
                lemma_pairs_map_value(env.entries@, i as int);
            }
            return true;
        }
    }
    proof {
        if has_op_value(env@) {
            let k = choose|k: Seq<char>| env@.dom().contains(k) && starts_with(env@[k], "op://"@);
            lemma_pairs_map_dom(env.entries@, k);
            let i = choose|i: int| 0 <= i < env.entries@.len() && env.entries@[i].0@ == k;
            lemma_pairs_map_value(env.entries@, i);
            assert(!starts_with(env.entries@[i].1@, "op://"@));
        }
    }
    false
}


/// The lines of a text (`str::lines`, up to a final `\r` of a line, which
/// trimming removes anyway): the pieces between newlines, without the empty
/// piece after a final newline.
pub open spec fn text_lines(s: Seq<char>) -> Seq<Seq<char>> {
    let pieces = split_on(s, '\n');
    if pieces.len() > 0 && pieces.last().len() == 0 {
        pieces.drop_last()
    } else {
        pieces
    }
}

/// A `.env` line that is skipped: blank or a `#` comment (after trimming).
pub open spec fn is_skipped_line(t: Seq<char>) -> bool {
    t.len() == 0 || t[0] == '#'
}

/// The pairs that the `.env` lines `lines` define, or the 1-based number and
/// the trimmed text of the first line that is neither skipped nor holds `=`.
/// A line `KEY = VALUE` splits at its first `=`; key and value are trimmed.
pub open spec fn env_pairs(lines: Seq<Seq<char>>) -> Result<
    Map<Seq<char>, Seq<char>>,
    (int, Seq<char>),
>
    decreases lines.len(),
{
    if lines.len() == 0 {
        Ok(Map::empty())
    } else {
        match env_pairs(lines.drop_last()) {
            Err(e) => Err(e),
            Ok(m) => {
                let t = trim(lines.last());
                if is_skipped_line(t) {
                    Ok(m)
                } else {
                    match first_index_of(t, '=') {
                        Some(p) => Ok(m.insert(trim(t.take(p)), trim(t.skip(p + 1)))),
                        None => Err((lines.len() as int, t)),
                    }
                }
            },
        }
    }
}

/// A `.env` line that is neither blank nor a comment.
pub open spec fn is_entry_line(l: Seq<char>) -> bool {
    !is_skipped_line(trim(l))
}

/// An entry line without `=`: the parse refuses it.
pub open spec fn is_bad_line(l: Seq<char>) -> bool {
    is_entry_line(l) && first_index_of(trim(l), '=') is None
}

/// The key of an entry line: the trimmed text before its first `=`.
pub open spec fn entry_key(l: Seq<char>) -> Seq<char> {
    trim(trim(l).take(first_index_of(trim(l), '=')->0))
}

/// The value of an entry line: the trimmed text after its first `=`.
pub open spec fn entry_value(l: Seq<char>) -> Seq<char> {
    trim(trim(l).skip(first_index_of(trim(l), '=')->0 + 1))
}

/// The line sets `key`: an entry line with `=` whose key is `key`.
pub open spec fn defines(l: Seq<char>, key: Seq<char>) -> bool {
    is_entry_line(l) && first_index_of(trim(l), '=') is Some && entry_key(l) == key
}

/// The `.env` parse fails exactly when some entry line has no `=`, and then
/// it names the first such line: its 1-based number and its trimmed text.
pub proof fn law_env_first_bad_line(lines: Seq<Seq<char>>)
    ensures
        env_pairs(lines) is Err <==> exists|i: int|
            0 <= i < lines.len() && #[trigger] is_bad_line(lines[i]),
        env_pairs(lines) matches Err((n, t)) ==> 1 <= n <= lines.len() && is_bad_line(
            lines[n - 1],
        ) && t == trim(lines[n - 1]) && forall|i: int|
            0 <= i < n - 1 ==> !#[trigger] is_bad_line(lines[i]),
    decreases lines.len(),
{
    if lines.len() > 0 {
        let d = lines.drop_last();
        law_env_first_bad_line(d);
        let l = lines.last();
        assert(l == lines[lines.len() - 1]);
        match env_pairs(d) {
            Err((n, t)) => {
                let i = choose|i: int| 0 <= i < d.len() && #[trigger] is_bad_line(d[i]);
                assert(d[i] == lines[i]);
                assert(d[n - 1] == lines[n - 1]);
                assert forall|j: int| 0 <= j < n - 1 implies !#[trigger] is_bad_line(lines[j]) by {
                    assert(d[j] == lines[j]);
                    assert(!is_bad_line(d[j]));
                }
            },
            Ok(_) => {
                assert forall|j: int| 0 <= j < d.len() implies !#[trigger] is_bad_line(lines[j]) by {
                    assert(d[j] == lines[j]);
                    if is_bad_line(lines[j]) {
                        assert(is_bad_line(d[j]));
                    }
                }
                if env_pairs(lines) is Err {
                    assert(is_bad_line(lines[lines.len() - 1]));
                }
            },
        }
    }
}

/// When the `.env` parse succeeds, its keys are exactly the keys that the
/// entry lines set, and each key holds the value of the last line that sets
/// it.
pub proof fn law_env_last_line_wins(lines: Seq<Seq<char>>)
    ensures
        env_pairs(lines) matches Ok(m) ==> (forall|k: Seq<char>|
            m.dom().contains(k) <==> exists|i: int|
                0 <= i < lines.len() && #[trigger] defines(lines[i], k)),
        env_pairs(lines) matches Ok(m) ==> (forall|i: int|
            0 <= i < lines.len() && is_entry_line(lines[i]) && (forall|j: int|
                i < j < lines.len() ==> !defines(lines[j], entry_key(lines[i])))
                ==> #[trigger] m[entry_key(lines[i])] == entry_value(lines[i])),
    decreases lines.len(),
{
    if lines.len() > 0 {
        let d = lines.drop_last();
        law_env_last_line_wins(d);
        law_env_first_bad_line(lines);
        let l = lines.last();
        let last = lines.len() - 1;
        assert(l == lines[last]);
        if let (Ok(m), Ok(m0)) = (env_pairs(lines), env_pairs(d)) {
            let tl = trim(l);
            if is_skipped_line(tl) {
                assert(m == m0);
            } else {
                assert(first_index_of(tl, '=') is Some);
                assert(m == m0.insert(entry_key(l), entry_value(l)));
            }
            assert forall|k: Seq<char>| m.dom().contains(k) <==> exists|i: int|
                0 <= i < lines.len() && #[trigger] defines(lines[i], k) by {
                if m.dom().contains(k) {
                    if m0.dom().contains(k) {
                        let i = choose|i: int| 0 <= i < d.len() && #[trigger] defines(d[i], k);
                        assert(d[i] == lines[i]);
                        assert(defines(lines[i], k));
                    } else {
                        assert(defines(lines[last], k));
                    }
                }
                if exists|i: int| 0 <= i < lines.len() && #[trigger] defines(lines[i], k) {
                    let i = choose|i: int| 0 <= i < lines.len() && #[trigger] defines(lines[i], k);
                    if i < last {
                        assert(d[i] == lines[i]);
                        assert(defines(d[i], k));
                    }
                }
            }
            assert forall|i: int|
                0 <= i < lines.len() && is_entry_line(lines[i]) && (forall|j: int|
                    i < j < lines.len() ==> !defines(lines[j], entry_key(lines[i])))
                    implies #[trigger] m[entry_key(lines[i])] == entry_value(lines[i]) by {
                if i < last {
                    assert(d[i] == lines[i]);
                    assert(!defines(lines[last], entry_key(lines[i])));
                    assert forall|j: int| i < j < d.len() implies !defines(
                        d[j],
                        entry_key(d[i]),
                    ) by {
                        assert(d[j] == lines[j]);
                    }
                    assert(m0[entry_key(d[i])] == entry_value(d[i]));
                    if !is_skipped_line(tl) {
                        assert(entry_key(l) != entry_key(lines[i]));
                    }
                } else {
                    assert(!is_bad_line(lines[last]));
                }
            }
        }
    }
}

/// Once a prefix of the lines fails, every longer prefix fails the same way.
proof fn lemma_env_pairs_err_stays(lines: Seq<Seq<char>>, j: int, k: int)
    requires
        0 <= j <= k <= lines.len(),
        env_pairs(lines.take(j)) is Err,
    ensures
        env_pairs(lines.take(k)) == env_pairs(lines.take(j)),
    decreases k - j,
{
    if k > j {
        lemma_env_pairs_err_stays(lines, j, k - 1);
        assert(lines.take(k).drop_last() == lines.take(k - 1));
    }
}

/// A `.env` line without `=`.
#[derive(Debug)]
pub struct EnvParseError {
    /// 1-based line number.
    pub line: usize,
    /// The trimmed line.
    pub content: String,
}

impl EnvParseError {
    /// The error's message.
    pub fn message(&self) -> (m: String)
        ensures
            m@ == "invalid .env line "@ + decimal(self.line as nat) + " (no '=' separator): "@
                + self.content@,
    {
        let mut m = String::from_str("invalid .env line ");
        let n = decimal_string(self.line as u64);
        m.append(n.as_str());
        m.append(" (no '=' separator): ");
        m.append(self.content.as_str());
        m
    }
}

/// Parses `.env` text into KEY=VALUE pairs: blank lines and lines starting
/// with `#` are skipped, any other line without `=` is an error, and `op://`
/// references are kept as they are.
pub fn parse_env_content(content: &str) -> (r: Result<EnvMap, EnvParseError>)
    ensures
        match r {
            Ok(m) => env_pairs(text_lines(content@)) == Ok::<
                Map<Seq<char>, Seq<char>>,
                (int, Seq<char>),
            >(m@),
            Err(e) => env_pairs(text_lines(content@)) == Err::<
                Map<Seq<char>, Seq<char>>,
                (int, Seq<char>),
            >((e.line as int, e.content@)),
        },
{
    let v = chars_of(content);
    let pieces = split_chars(&v, '\n');
    let ghost all = split_on(content@, '\n');
    proof {
        crate::text::lemma_split_on_nonempty(content@, '\n');
    }
    let n = if pieces[pieces.len() - 1].len() == 0 {
        pieces.len() - 1
    } else {
        pieces.len()
    };
    let ghost lines = text_lines(content@);
    assert(lines.len() == n);
    assert(forall|k: int| 0 <= k < n ==> lines[k] == all[k]);
    let mut map = EnvMap::new();
    for i in 0..n
        invariant
            n <= pieces@.len(),
            pieces@.len() == all.len(),
            forall|k: int| 0 <= k < pieces@.len() ==> (#[trigger] pieces@[k])@ == all[k],
            lines == text_lines(content@),
            lines.len() == n,
            forall|k: int| 0 <= k < n ==> lines[k] == all[k],
            env_pairs(lines.take(i as int)) == Ok::<Map<Seq<char>, Seq<char>>, (int, Seq<char>)>(
                map@,
            ),
    {
        assert(lines.take(i + 1).drop_last() == lines.take(i as int));
        assert(lines.take(i + 1).last() == pieces@[i as int]@);
        let t = trim_chars(&pieces[i]);
        let ghost before = map@;
        assert(t@ == trim(lines.take(i + 1).last()));
        if t.len() == 0 || t[0] == '#' {
            assert(is_skipped_line(t@));
            assert(env_pairs(lines.take(i + 1)) == Ok::<Map<Seq<char>, Seq<char>>, (int, Seq<char>)>(map@));
        } else {
            assert(!is_skipped_line(t@));
            match find_char(&t, '=') {
                Some(p) => {
                    let kv = sub_chars(&t, 0, p);
                    let vv = sub_chars(&t, p + 1, t.len());
                    let kt = trim_chars(&kv);
                    let vt = trim_chars(&vv);
                    assert(kv@ == t@.take(p as int));
                    assert(vv@ == t@.skip(p + 1));
                    let ks = string_from_chars(kt.as_slice());
                    let vs = string_from_chars(vt.as_slice());
                    map.insert(ks, vs);
                    assert(map@ == before.insert(trim(t@.take(p as int)), trim(t@.skip(p + 1))));
                    assert(env_pairs(lines.take(i + 1)) == Ok::<Map<Seq<char>, Seq<char>>, (int, Seq<char>)>(map@));
                },
                None => {
                    let content_text = string_from_chars(t.as_slice());
                    assert(lines.take(i + 1).len() == i + 1);
                    proof {
                        lemma_env_pairs_err_stays(lines, i + 1, n as int);
                        assert(lines.take(n as int) == lines);
                    }
                    return Err(EnvParseError { line: i + 1, content: content_text });
                },
            }
        }
    }
    assert(lines.take(n as int) == lines);
    Ok(map)
}


// ---------------------------------------------------------------- credentials

/// Why the credentials could not be had.
#[derive(Debug)]
pub enum CredentialError {
    /// The `.env` text is not KEY=VALUE lines.
    Unparsable(EnvParseError),
    /// The text that `op inject` printed is not KEY=VALUE lines.
    ResolvedUnparsable(EnvParseError),
    /// `SWITCHBOT_TOKEN` is absent or empty.
    MissingToken,
    /// `SWITCHBOT_SECRET` is absent or empty.
    MissingSecret,
}

impl CredentialError {
    /// The error's message; `source` names the `.env` file.
    pub fn message(&self, source: &str) -> (m: String)
        ensures
            match self {
                CredentialError::Unparsable(_) => m@ == "failed to parse "@ + source@,
                CredentialError::ResolvedUnparsable(e) => m@ == "invalid .env line "@ + decimal(
                    e.line as nat,
                ) + " (no '=' separator): "@ + e.content@,
                CredentialError::MissingToken => m@ == "SWITCHBOT_TOKEN is empty or missing in "@
                    + source@,
                CredentialError::MissingSecret => m@
                    == "SWITCHBOT_SECRET is empty or missing in "@ + source@,
            },
    {
        match self {
            CredentialError::Unparsable(_) => concat("failed to parse ", source),
            CredentialError::ResolvedUnparsable(e) => e.message(),
            CredentialError::MissingToken => concat(
                "SWITCHBOT_TOKEN is empty or missing in ",
                source,
            ),
            CredentialError::MissingSecret => concat(
                "SWITCHBOT_SECRET is empty or missing in ",
                source,
            ),
        }
    }
}

/// `key` is present with a non-empty value.
pub open spec fn has_value(m: Map<Seq<char>, Seq<char>>, key: Seq<char>) -> bool {
    m.dom().contains(key) && m[key].len() > 0
}

/// The credentials that pairs hold: a non-empty `SWITCHBOT_TOKEN` and a
/// non-empty `SWITCHBOT_SECRET`.
pub open spec fn credentials_ok(m: Map<Seq<char>, Seq<char>>, c: Credentials) -> bool {
    c.token@ == m["SWITCHBOT_TOKEN"@] && c.secret@ == m["SWITCHBOT_SECRET"@]
}

/// Takes `SWITCHBOT_TOKEN` and `SWITCHBOT_SECRET` from the pairs; each must be
/// present and non-empty, the token checked first.
pub fn credentials_from_env(env: &EnvMap) -> (r: Result<Credentials, CredentialError>)
    ensures
        !has_value(env@, "SWITCHBOT_TOKEN"@) ==> r matches Err(CredentialError::MissingToken),
        has_value(env@, "SWITCHBOT_TOKEN"@) && !has_value(env@, "SWITCHBOT_SECRET"@) ==> r matches Err(
            CredentialError::MissingSecret,
        ),
        has_value(env@, "SWITCHBOT_TOKEN"@) && has_value(env@, "SWITCHBOT_SECRET"@) ==> (r matches Ok(
            c,
        ) && credentials_ok(env@, c)),
{
    let token = match env.get("SWITCHBOT_TOKEN") {
        Some(t) => {
            if t.as_str().is_empty() {
                return Err(CredentialError::MissingToken);
            }
            t.clone()
        },
        None => {
            return Err(CredentialError::MissingToken);
        },
    };
    let secret = match env.get("SWITCHBOT_SECRET") {
        Some(t) => {
            if t.as_str().is_empty() {
                return Err(CredentialError::MissingSecret);
            }
            t.clone()
        },
        None => {
            return Err(CredentialError::MissingSecret);
        },
    };
    Ok(Credentials { token, secret })
}

/// What reading a `.env` file leads to: credentials ready to use, or a
/// file with `op://` references that `op inject` must resolve first.
#[derive(Debug)]
pub enum CredentialPlan {
    Ready(Credentials),
    ResolveWithOp,
}

/// Reads `.env` text: a parse error, or (when any value is an `op://`
/// reference) the need to resolve the file with `op inject`, or the
/// credentials that its pairs hold.
pub fn plan_credentials(raw: &str) -> (r: Result<CredentialPlan, CredentialError>)
    ensures
        match env_pairs(text_lines(raw@)) {
            Err(p) => r matches Err(CredentialError::Unparsable(e)) && p == (
                e.line as int,
                e.content@,
            ),
            Ok(m) => if has_op_value(m) {
                r matches Ok(CredentialPlan::ResolveWithOp)
            } else if !has_value(m, "SWITCHBOT_TOKEN"@) {
                r matches Err(CredentialError::MissingToken)
            } else if !has_value(m, "SWITCHBOT_SECRET"@) {
                r matches Err(CredentialError::MissingSecret)
            } else {
                r matches Ok(CredentialPlan::Ready(c)) && credentials_ok(m, c)
            },
        },
{
    let env = match parse_env_content(raw) {
        Ok(env) => env,
        Err(e) => {
            return Err(CredentialError::Unparsable(e));
        },
    };
    if has_op_reference(&env) {
        return Ok(CredentialPlan::ResolveWithOp);
    }
    match credentials_from_env(&env) {
        Ok(c) => Ok(CredentialPlan::Ready(c)),
        Err(e) => Err(e),
    }
}

/// Reads the text that `op inject` printed: its pairs must hold the
/// credentials.
pub fn credentials_from_op_output(resolved: &str) -> (r: Result<Credentials, CredentialError>)
    ensures
        match env_pairs(text_lines(resolved@)) {
            Err(p) => r matches Err(CredentialError::ResolvedUnparsable(e)) && p == (
                e.line as int,
                e.content@,
            ),
            Ok(m) => if !has_value(m, "SWITCHBOT_TOKEN"@) {
                r matches Err(CredentialError::MissingToken)
            } else if !has_value(m, "SWITCHBOT_SECRET"@) {
                r matches Err(CredentialError::MissingSecret)
            } else {
                r matches Ok(c) && credentials_ok(m, c)
            },
        },
{
    let env = match parse_env_content(resolved) {
        Ok(env) => env,
        Err(e) => {
            return Err(CredentialError::ResolvedUnparsable(e));
        },
    };
    credentials_from_env(&env)
}


// ---------------------------------------------------------- loading context

/// What loading the context has found out so far: the outcome of each step,
/// once performed (an error carries its message).
#[derive(Debug)]
pub struct SetupProgress {
    /// Creating `~/.switchbot/`.
    pub dir: Option<Result<(), String>>,
    /// Creating the `.env` template when missing: whether it was created.
    pub env_template: Option<Result<bool, String>>,
    /// Creating the devices template when missing.
    pub devices_template: Option<Result<bool, String>>,
    /// Tightening the `.env` permissions.
    pub permissions: Option<Result<(), String>>,
    /// Loading the credentials from `.env`.
    pub credentials: Option<Result<Credentials, String>>,
    /// Loading the devices file.
    pub devices: Option<Result<Option<DefaultDevice>, String>>,
}

impl SetupProgress {
    /// Nothing done yet.
    pub fn new() -> (p: SetupProgress)
        ensures
            p.dir is None && p.env_template is None && p.devices_template is None
                && p.permissions is None && p.credentials is None && p.devices is None,
    {
        SetupProgress {
            dir: None,
            env_template: None,
            devices_template: None,
            permissions: None,
            credentials: None,
            devices: None,
        }
    }
}

/// The next step of loading the context.
#[derive(Debug)]
pub enum SetupAction {
    /// Create `~/.switchbot/`; record in `dir`.
    CreateDir,
    /// Create the `.env` template if missing; record in `env_template`.
    CreateEnvTemplate,
    /// Create the devices template if missing; record in `devices_template`.
    CreateDevicesTemplate,
    /// Reset loose `.env` permissions to 0o600; record in `permissions`.
    EnforcePermissions,
    /// Load the credentials; record in `credentials`.
    LoadCredentials,
    /// Load the devices file; record in `devices`.
    LoadDevices,
    /// Loading failed.
    Fail(LoadContextError),
    /// Loading succeeded.
    Ready { credentials: Credentials, device: DeviceState },
}

/// The setup error that asks the user to edit a freshly written `.env`.
pub open spec fn edit_request_text(env_path: Seq<char>) -> Seq<char> {
    env_path + " を編集してください"@
}

/// The device state that an outcome of loading the devices file gives.
pub open spec fn device_state_of(loaded: Result<Option<DefaultDevice>, String>) -> DeviceState {
    match loaded {
        Ok(Some(d)) => DeviceState::Configured(d),
        Ok(None) => DeviceState::Unconfigured,
        Err(m) => DeviceState::Malformed(m),
    }
}

/// A step of loading the context, with error texts as text.
pub enum SetupStep {
    CreateDir,
    CreateEnvTemplate,
    CreateDevicesTemplate,
    EnforcePermissions,
    LoadCredentials,
    LoadDevices,
    /// A setup error (shown, not logged or notified).
    FailSetup(Seq<char>),
    /// A run-time error (shown, logged and notified).
    FailRuntime(Seq<char>),
    Ready(Credentials, DeviceState),
}

/// A setup action as a step.
pub open spec fn setup_action_step(a: SetupAction) -> SetupStep {
    match a {
        SetupAction::CreateDir => SetupStep::CreateDir,
        SetupAction::CreateEnvTemplate => SetupStep::CreateEnvTemplate,
        SetupAction::CreateDevicesTemplate => SetupStep::CreateDevicesTemplate,
        SetupAction::EnforcePermissions => SetupStep::EnforcePermissions,
        SetupAction::LoadCredentials => SetupStep::LoadCredentials,
        SetupAction::LoadDevices => SetupStep::LoadDevices,
        SetupAction::Fail(LoadContextError::Setup(m)) => SetupStep::FailSetup(m@),
        SetupAction::Fail(LoadContextError::Runtime(m)) => SetupStep::FailRuntime(m@),
        SetupAction::Ready { credentials, device } => SetupStep::Ready(credentials, device),
    }
}

/// The next step of loading the context from what has been done so far:
/// create the directory and the two templates, stop with a request to edit
/// a freshly written `.env`, tighten its permissions, load the credentials,
/// load the devices file, and then the context is ready. Failures before
/// `.env` exists for real are setup errors; failures of an existing `.env`
/// are run-time errors; the devices file never fails the load.
pub open spec fn setup_next(p: SetupProgress, env_path: Seq<char>) -> SetupStep {
    match p.dir {
        None => SetupStep::CreateDir,
        Some(Err(m)) => SetupStep::FailSetup(m@),
        Some(Ok(())) => match p.env_template {
            None => SetupStep::CreateEnvTemplate,
            Some(Err(m)) => SetupStep::FailSetup(m@),
            Some(Ok(env_created)) => match p.devices_template {
                None => SetupStep::CreateDevicesTemplate,
                Some(Err(m)) => SetupStep::FailSetup(m@),
                Some(Ok(_)) => if env_created {
                    SetupStep::FailSetup(edit_request_text(env_path))
                } else {
                    match p.permissions {
                        None => SetupStep::EnforcePermissions,
                        Some(Err(m)) => SetupStep::FailRuntime(m@),
                        Some(Ok(())) => match p.credentials {
                            None => SetupStep::LoadCredentials,
                            Some(Err(m)) => SetupStep::FailRuntime(m@),
                            Some(Ok(c)) => match p.devices {
                                None => SetupStep::LoadDevices,
                                Some(d) => SetupStep::Ready(c, device_state_of(d)),
                            },
                        },
                    }
                },
            },
        },
    }
}

/// Decides the next step of loading the context. Failures before the `.env`
/// file exists for real, and the request to edit a freshly written template,
/// are setup errors; failures of an existing `.env` (permissions,
/// credentials) are run-time errors; a devices file that is not TOML does
/// not fail the load but is reported as `DeviceState::Malformed`.
pub fn next_setup_action(p: &SetupProgress, env_path: &str) -> (a: SetupAction)
    ensures
        setup_action_step(a) == setup_next(*p, env_path@),
{
    match &p.dir {
        None => return SetupAction::CreateDir,
        Some(Err(m)) => return SetupAction::Fail(LoadContextError::Setup(m.clone())),
        Some(Ok(())) => {},
    }
    let env_created = match &p.env_template {
        None => return SetupAction::CreateEnvTemplate,
        Some(Err(m)) => return SetupAction::Fail(LoadContextError::Setup(m.clone())),
        Some(Ok(created)) => *created,
    };
    match &p.devices_template {
        None => return SetupAction::CreateDevicesTemplate,
        Some(Err(m)) => return SetupAction::Fail(LoadContextError::Setup(m.clone())),
        Some(Ok(_)) => {},
    }
    if env_created {
        return SetupAction::Fail(LoadContextError::Setup(concat(env_path, " を編集してください")));
    }
    match &p.permissions {
        None => return SetupAction::EnforcePermissions,
        Some(Err(m)) => return SetupAction::Fail(LoadContextError::Runtime(m.clone())),
        Some(Ok(())) => {},
    }
    let credentials = match &p.credentials {
        None => return SetupAction::LoadCredentials,
        Some(Err(m)) => return SetupAction::Fail(LoadContextError::Runtime(m.clone())),
        Some(Ok(c)) => Credentials { token: c.token.clone(), secret: c.secret.clone() },
    };
    match &p.devices {
        None => SetupAction::LoadDevices,
        Some(Ok(Some(d))) => SetupAction::Ready {
            credentials,
            device: DeviceState::Configured(
                DefaultDevice { id: d.id.clone(), kind: d.kind.clone(), name: d.name.clone() },
            ),
        },
        Some(Ok(None)) => SetupAction::Ready { credentials, device: DeviceState::Unconfigured },
        Some(Err(m)) => SetupAction::Ready { credentials, device: DeviceState::Malformed(m.clone()) },
    }
}

/// Every step of loading the context other than failing or being ready
/// asks for an outcome not yet recorded, so loading ends after at most six
/// steps.
pub proof fn law_setup_each_step_fills_a_gap(p: SetupProgress, env_path: Seq<char>)
    ensures
        setup_next(p, env_path) is CreateDir ==> p.dir is None,
        setup_next(p, env_path) is CreateEnvTemplate ==> p.env_template is None,
        setup_next(p, env_path) is CreateDevicesTemplate ==> p.devices_template is None,
        setup_next(p, env_path) is EnforcePermissions ==> p.permissions is None,
        setup_next(p, env_path) is LoadCredentials ==> p.credentials is None,
        setup_next(p, env_path) is LoadDevices ==> p.devices is None,
{
}

/// On a first run, once the directory and the templates are written, loading
/// stops with a setup error (shown, not notified) asking to edit `.env`.
pub proof fn law_setup_first_run_asks_to_edit(p: SetupProgress, env_path: Seq<char>)
    requires
        p.dir == Some(Ok::<(), String>(())),
        p.env_template == Some(Ok::<bool, String>(true)),
        p.devices_template matches Some(Ok(_)),
    ensures
        setup_next(p, env_path) == SetupStep::FailSetup(edit_request_text(env_path)),
{
}

/// With an existing `.env` whose permissions and credentials load, loading
/// succeeds with those credentials whatever the devices file holds: a
/// configured device, none, or (for a file that is not TOML) the parse
/// message; the devices file never fails the load.
pub proof fn law_setup_ready(
    p: SetupProgress,
    env_path: Seq<char>,
    c: Credentials,
    loaded: Result<Option<DefaultDevice>, String>,
)
    requires
        p.dir == Some(Ok::<(), String>(())),
        p.env_template == Some(Ok::<bool, String>(false)),
        p.devices_template matches Some(Ok(_)),
        p.permissions == Some(Ok::<(), String>(())),
        p.credentials == Some(Ok::<Credentials, String>(c)),
        p.devices == Some(loaded),
    ensures
        setup_next(p, env_path) == SetupStep::Ready(c, device_state_of(loaded)),
{
}

/// Run-time errors (logged and notified) come only from an existing `.env`:
/// its permissions or its credentials.
pub proof fn law_setup_runtime_errors(p: SetupProgress, env_path: Seq<char>)
    ensures
        setup_next(p, env_path) is FailRuntime ==> (p.permissions matches Some(Err(_))
            || p.credentials matches Some(Err(_))),
{
}

/// A `.env` needs `op inject` exactly when some value, under whichever key
/// (`SWITCHBOT_TOKEN`, `SWITCHBOT_SECRET` or any other), begins with `op://`.
pub proof fn law_op_reference_under_any_key(m: Map<Seq<char>, Seq<char>>, k: Seq<char>)
    ensures
        m.dom().contains(k) && m[k].len() >= 5 && m[k].take(5) == "op://"@ ==> has_op_value(m),
        has_op_value(m) ==> exists|j: Seq<char>|
            m.dom().contains(j) && (#[trigger] m[j]).len() >= 5 && m[j].take(5) == "op://"@,
{
    reveal_strlit("op://");
}

/// The credentials come from their own keys: the token from
/// `SWITCHBOT_TOKEN` and the secret from `SWITCHBOT_SECRET`.
pub proof fn law_credentials_keys(m: Map<Seq<char>, Seq<char>>, c: Credentials)
    ensures
        credentials_ok(m, c) ==> c.token@ == m["SWITCHBOT_TOKEN"@] && c.secret@
            == m["SWITCHBOT_SECRET"@],
{
}

/// The mode file is one TOML line that sets `mode` to the mode's label.
pub proof fn law_mode_file_text()
    ensures
        mode_file_text(Mode::Rgb) == "mode = \"rgb\"\n"@,
        mode_file_text(Mode::Temp) == "mode = \"temp\"\n"@,
{
    reveal_strlit("mode = \"");
    reveal_strlit("\"\n");
    reveal_strlit("mode = \"rgb\"\n");
    reveal_strlit("mode = \"temp\"\n");
    reveal_strlit("rgb");
    reveal_strlit("temp");
    assert(mode_file_text(Mode::Rgb) =~= "mode = \"rgb\"\n"@);
    assert(mode_file_text(Mode::Temp) =~= "mode = \"temp\"\n"@);
}

} // verus!
