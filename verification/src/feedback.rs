//! The texts of feedback: the log line and the macOS notification script.
use vstd::prelude::*;
use crate::config::text_lines;
use crate::text::{chars_of, push_char, split_on};

verus! {

/// The first line of `msg` as `str::lines().next()` gives it (empty when
/// `msg` is empty): the text before the first newline, without a `\r` that
/// ends it when a newline follows.
pub open spec fn first_line(msg: Seq<char>) -> Seq<char> {
    let pieces = split_on(msg, '\n');
    let p = pieces[0];
    if pieces.len() > 1 && p.len() > 0 && p.last() == '\r' {
        p.drop_last()
    } else {
        p
    }
}

/// `{:5}`: `s` padded on the right with spaces to at least five characters.
pub open spec fn pad5(s: Seq<char>) -> Seq<char> {
    if s.len() >= 5 {
        s
    } else {
        s + Seq::new((5 - s.len()) as nat, |i: int| ' ')
    }
}

/// A log line: timestamp, level padded to five characters, the first line of
/// the message, and a newline.
pub open spec fn log_line(timestamp: Seq<char>, level: Seq<char>, msg: Seq<char>) -> Seq<char> {
    timestamp + seq![' '] + pad5(level) + seq![' '] + first_line(msg) + seq!['\n']
}

proof fn lemma_split_prefix(s: Seq<char>, i: int)
    requires
        0 <= i <= s.len(),
        forall|k: int| 0 <= k < i ==> s[k] != '\n',
    ensures
        split_on(s.take(i), '\n') == seq![s.take(i)],
    decreases i,
{
    if i > 0 {
        lemma_split_prefix(s, i - 1);
        assert(s.take(i).drop_last() == s.take(i - 1));
        assert(s.take(i - 1).push(s[i - 1]) =~= s.take(i));
        assert(seq![s.take(i - 1)].update(0, s.take(i)) =~= seq![s.take(i)]);
    } else {
        assert(s.take(0) =~= Seq::<char>::empty());
    }
}

proof fn lemma_split_first_piece(s: Seq<char>, i: int, j: int)
    requires
        0 <= i < j <= s.len(),
        forall|k: int| 0 <= k < i ==> s[k] != '\n',
        s[i] == '\n',
    ensures
        split_on(s.take(j), '\n')[0] == s.take(i),
        split_on(s.take(j), '\n').len() > 1,
    decreases j - i,
{
    if j == i + 1 {
        lemma_split_prefix(s, i);
        assert(s.take(j).drop_last() == s.take(i));
    } else {
        lemma_split_first_piece(s, i, j - 1);
        assert(s.take(j).drop_last() == s.take(j - 1));
    }
}

/// A log line is exactly one line: it ends with its only newline, whatever
/// the message holds, when the timestamp and the level hold none.
pub proof fn law_log_line_single_line(timestamp: Seq<char>, level: Seq<char>, msg: Seq<char>)
    requires
        forall|i: int| 0 <= i < timestamp.len() ==> #[trigger] timestamp[i] != '\n',
        forall|i: int| 0 <= i < level.len() ==> #[trigger] level[i] != '\n',
    ensures
        log_line(timestamp, level, msg).last() == '\n',
        forall|i: int|
            0 <= i < log_line(timestamp, level, msg).len() - 1 ==> #[trigger] log_line(
                timestamp,
                level,
                msg,
            )[i] != '\n',
{
    crate::text::lemma_split_pieces_free(msg, '\n');
    crate::text::lemma_split_on_nonempty(msg, '\n');
    let f = first_line(msg);
    let p = split_on(msg, '\n')[0];
    assert forall|k: int| 0 <= k < f.len() implies f[k] != '\n' by {
        assert(f[k] == p[k]);
    }
    let pl = pad5(level);
    assert forall|k: int| 0 <= k < pl.len() implies pl[k] != '\n' by {
        if k >= level.len() {
            assert(pl[k] == ' ');
        }
    }
    let line = log_line(timestamp, level, msg);
    let a = timestamp + seq![' '] + pl + seq![' '];
    assert forall|i: int| 0 <= i < line.len() - 1 implies #[trigger] line[i] != '\n' by {
        if i < timestamp.len() {
            assert(line[i] == timestamp[i]);
        } else if i == timestamp.len() {
            assert(line[i] == ' ');
        } else if i < timestamp.len() + 1 + pl.len() {
            assert(line[i] == pl[i - timestamp.len() - 1]);
        } else if i == timestamp.len() + 1 + pl.len() {
            assert(line[i] == ' ');
        } else {
            assert(line[i] == f[i - a.len()]);
        }
    }
}

/// `format!("{} {:5} {}\n", timestamp, level, first line of msg)`.
pub fn format_log_line(timestamp: &str, level: &str, msg: &str) -> (line: String)
    ensures
        line@ == log_line(timestamp@, level@, msg@),
{
    let mut line = String::from_str(timestamp);
    push_char(&mut line, ' ');
    line.append(level);
    let lv = chars_of(level);
    let mut k = lv.len();
    while k < 5
        invariant
            lv@ == level@,
            lv.len() <= k <= 5 || (lv.len() > 5 && k == lv.len()),
            line@ == timestamp@ + seq![' '] + level@ + Seq::new((k - lv.len()) as nat, |i: int| ' '),
        decreases 5 - k,
    {
        push_char(&mut line, ' ');
        k = k + 1;
        assert(Seq::new((k - 1 - lv.len()) as nat, |i: int| ' ').push(' ') =~= Seq::new(
            (k - lv.len()) as nat,
            |i: int| ' ',
        ));
    }
    assert(pad5(level@) =~= level@ + Seq::new((k - lv.len()) as nat, |i: int| ' '));
    push_char(&mut line, ' ');
    let mv = chars_of(msg);
    let mut i: usize = 0;
    while i < mv.len() && mv[i] != '\n'
        invariant
            mv@ == msg@,
            i <= mv.len(),
            forall|k: int| 0 <= k < i ==> mv@[k] != '\n',
        decreases mv.len() - i,
    {
        i = i + 1;
    }
    let mut end = i;
    if i < mv.len() && i > 0 && mv[i - 1] == '\r' {
        end = i - 1;
    }
    proof {
        if i < mv.len() {
            lemma_split_first_piece(msg@, i as int, msg@.len() as int);
        } else {
            lemma_split_prefix(msg@, i as int);
        }
        assert(msg@.take(msg@.len() as int) == msg@);
        assert(first_line(msg@) == msg@.take(end as int));
    }
    for j in 0..end
        invariant
            end <= mv.len(),
            mv@ == msg@,
            line@ == timestamp@ + seq![' '] + pad5(level@) + seq![' '] + msg@.take(j as int),
    {
        push_char(&mut line, mv[j]);
        assert(msg@.take(j + 1) == msg@.take(j as int).push(mv@[j as int]));
    }
    push_char(&mut line, '\n');
    assert(line@ =~= log_line(timestamp@, level@, msg@));
    line
}

/// The text that appending the log lines of `entries` (timestamp, level,
/// message) in order leaves in the log.
pub open spec fn log_text(entries: Seq<(Seq<char>, Seq<char>, Seq<char>)>) -> Seq<char>
    decreases entries.len(),
{
    if entries.len() == 0 {
        seq![]
    } else {
        log_text(entries.drop_last()) + log_line(
            entries.last().0,
            entries.last().1,
            entries.last().2,
        )
    }
}

/// The line that the log shows for an entry: timestamp, padded level and the
/// first line of the message.
pub open spec fn log_entry_line(e: (Seq<char>, Seq<char>, Seq<char>)) -> Seq<char> {
    e.0 + seq![' '] + pad5(e.1) + seq![' '] + first_line(e.2)
}

/// No timestamp and no level holds a newline.
pub open spec fn entries_single_line(entries: Seq<(Seq<char>, Seq<char>, Seq<char>)>) -> bool {
    &&& forall|k: int, i: int|
        0 <= k < entries.len() && 0 <= i < entries[k].0.len() ==> #[trigger] entries[k].0[i]
            != '\n'
    &&& forall|k: int, i: int|
        0 <= k < entries.len() && 0 <= i < entries[k].1.len() ==> #[trigger] entries[k].1[i]
            != '\n'
}

proof fn lemma_log_text_pieces(entries: Seq<(Seq<char>, Seq<char>, Seq<char>)>)
    requires
        entries_single_line(entries),
    ensures
        split_on(log_text(entries), '\n') == entries.map_values(
            |e: (Seq<char>, Seq<char>, Seq<char>)| log_entry_line(e),
        ).push(seq![]),
    decreases entries.len(),
{
    let m = entries.map_values(|e: (Seq<char>, Seq<char>, Seq<char>)| log_entry_line(e));
    if entries.len() == 0 {
        assert(log_text(entries) =~= Seq::<char>::empty());
        assert(m.push(seq![]) =~= seq![seq![]]);
    } else {
        let d = entries.drop_last();
        assert forall|k: int, i: int| 0 <= k < d.len() && 0 <= i < d[k].0.len() implies #[trigger] d[k].0[i]
            != '\n' by {
            assert(d[k] == entries[k]);
        }
        assert forall|k: int, i: int| 0 <= k < d.len() && 0 <= i < d[k].1.len() implies #[trigger] d[k].1[i]
            != '\n' by {
            assert(d[k] == entries[k]);
        }
        lemma_log_text_pieces(d);
        let e = entries.last();
        let k = entries.len() - 1;
        assert(e == entries[k]);
        assert forall|i: int| 0 <= i < e.0.len() implies #[trigger] e.0[i] != '\n' by {
            assert(entries[k].0[i] != '\n');
        }
        assert forall|i: int| 0 <= i < e.1.len() implies #[trigger] e.1[i] != '\n' by {
            assert(entries[k].1[i] != '\n');
        }
        law_log_line_single_line(e.0, e.1, e.2);
        let line = log_line(e.0, e.1, e.2);
        let l = log_entry_line(e);
        assert(line =~= l + seq!['\n']);
        assert forall|i: int| 0 <= i < l.len() implies #[trigger] l[i] != '\n' by {
            assert(l[i] == line[i]);
        }
        let x = log_text(d);
        crate::text::lemma_split_on_extend(x, l, '\n');
        let s = log_text(entries);
        assert(s =~= (x + l).push('\n'));
        assert(s.drop_last() =~= x + l);
        let md = d.map_values(|e: (Seq<char>, Seq<char>, Seq<char>)| log_entry_line(e));
        assert(md.push(seq![]).update(md.len() as int, seq![] + l) =~= md.push(l));
        assert(md.push(l) =~= m);
    }
}

/// Appending the log lines of `n` entries leaves exactly `n` lines in the
/// log, in order, each with its own timestamp, level and message, when no
/// timestamp and no level holds a newline.
pub proof fn law_log_lines_one_per_entry(entries: Seq<(Seq<char>, Seq<char>, Seq<char>)>)
    requires
        entries_single_line(entries),
    ensures
        text_lines(log_text(entries)) == entries.map_values(
            |e: (Seq<char>, Seq<char>, Seq<char>)| log_entry_line(e),
        ),
{
    lemma_log_text_pieces(entries);
    let m = entries.map_values(|e: (Seq<char>, Seq<char>, Seq<char>)| log_entry_line(e));
    assert(m.push(seq![]).drop_last() =~= m);
}

/// The `INFO` line that the log records for `msg` at `timestamp`.
pub fn log_info(timestamp: &str, msg: &str) -> (line: String)
    ensures
        line@ == log_line(timestamp@, "INFO"@, msg@),
{
    format_log_line(timestamp, "INFO", msg)
}

/// The `ERROR` line that the log records for `msg` at `timestamp`.
pub fn log_error(timestamp: &str, msg: &str) -> (line: String)
    ensures
        line@ == log_line(timestamp@, "ERROR"@, msg@),
{
    format_log_line(timestamp, "ERROR", msg)
}

/// The AppleScript string-literal escape of one character: backslash and
/// double quote get a backslash, a carriage return is dropped, a newline
/// becomes a space.
pub open spec fn escape_char(c: char) -> Seq<char> {
    if c == '\\' {
        seq!['\\', '\\']
    } else if c == '"' {
        seq!['\\', '"']
    } else if c == '\r' {
        seq![]
    } else if c == '\n' {
        seq![' ']
    } else {
        seq![c]
    }
}

/// Every character of `s` escaped in turn.
pub open spec fn applescript_escaped(s: Seq<char>) -> Seq<char>
    decreases s.len(),
{
    if s.len() == 0 {
        seq![]
    } else {
        applescript_escaped(s.drop_last()) + escape_char(s.last())
    }
}

/// Escapes `s` for an AppleScript string literal on one line: `\` → `\\`,
/// `"` → `\"`, CR removed, LF → space.
pub fn escape_for_applescript(s: &str) -> (r: String)
    ensures
        r@ == applescript_escaped(s@),
{
    let v = chars_of(s);
    let mut r = String::new();
    for i in 0..v.len()
        invariant
            v@ == s@,
            r@ == applescript_escaped(s@.take(i as int)),
    {
        let c = v[i];
        assert(s@.take(i + 1).drop_last() == s@.take(i as int));
        if c == '\\' {
            push_char(&mut r, '\\');
            push_char(&mut r, '\\');
        } else if c == '"' {
            push_char(&mut r, '\\');
            push_char(&mut r, '"');
        } else if c == '\r' {
        } else if c == '\n' {
            push_char(&mut r, ' ');
        } else {
            push_char(&mut r, c);
        }
        assert(r@ =~= applescript_escaped(s@.take(i + 1)));
    }
    assert(s@.take(v.len() as int) == s@);
    r
}

/// The escaped text holds no line break.
proof fn lemma_escaped_single_line(s: Seq<char>)
    ensures
        forall|i: int|
            0 <= i < applescript_escaped(s).len() ==> #[trigger] applescript_escaped(s)[i] != '\n'
                && applescript_escaped(s)[i] != '\r',
    decreases s.len(),
{
    if s.len() > 0 {
        lemma_escaped_single_line(s.drop_last());
        let a = applescript_escaped(s.drop_last());
        assert forall|i: int| 0 <= i < applescript_escaped(s).len() implies #[trigger] applescript_escaped(
            s,
        )[i] != '\n' && applescript_escaped(s)[i] != '\r' by {
            if i < a.len() {
                assert(applescript_escaped(s)[i] == a[i]);
            }
        }
    }
}

/// Reading an AppleScript string body back: a backslash stands for the
/// character after it, any other character for itself; `None` when the text
/// is not a string body (a lone trailing backslash, or a `"` not escaped).
pub open spec fn applescript_unescaped(t: Seq<char>) -> Option<Seq<char>>
    decreases t.len(),
{
    if t.len() == 0 {
        Some(seq![])
    } else if t[0] == '\\' {
        if t.len() < 2 {
            None
        } else {
            match applescript_unescaped(t.skip(2)) {
                Some(r) => Some(seq![t[1]] + r),
                None => None,
            }
        }
    } else if t[0] == '"' {
        None
    } else {
        match applescript_unescaped(t.skip(1)) {
            Some(r) => Some(seq![t[0]] + r),
            None => None,
        }
    }
}

/// One character of a message as a notification shows it: a carriage
/// return is dropped, a newline becomes a space.
pub open spec fn flat_char(c: char) -> Seq<char> {
    if c == '\r' {
        seq![]
    } else if c == '\n' {
        seq![' ']
    } else {
        seq![c]
    }
}

/// The message on one line: carriage returns removed, newlines as spaces.
pub open spec fn flattened(s: Seq<char>) -> Seq<char>
    decreases s.len(),
{
    if s.len() == 0 {
        seq![]
    } else {
        flattened(s.drop_last()) + flat_char(s.last())
    }
}

proof fn lemma_unescaped_concat(x: Seq<char>, y: Seq<char>)
    requires
        applescript_unescaped(x) is Some,
        applescript_unescaped(y) is Some,
    ensures
        applescript_unescaped(x + y) == Some(
            applescript_unescaped(x)->0 + applescript_unescaped(y)->0,
        ),
    decreases x.len(),
{
    let b = applescript_unescaped(y)->0;
    if x.len() == 0 {
        assert(x + y =~= y);
        assert(applescript_unescaped(x)->0 + b =~= b);
    } else if x[0] == '\\' {
        lemma_unescaped_concat(x.skip(2), y);
        assert((x + y).skip(2) =~= x.skip(2) + y);
        assert((x + y)[1] == x[1]);
        let a2 = applescript_unescaped(x.skip(2))->0;
        assert(seq![x[1]] + (a2 + b) =~= (seq![x[1]] + a2) + b);
    } else {
        lemma_unescaped_concat(x.skip(1), y);
        assert((x + y).skip(1) =~= x.skip(1) + y);
        let a1 = applescript_unescaped(x.skip(1))->0;
        assert(seq![x[0]] + (a1 + b) =~= (seq![x[0]] + a1) + b);
    }
}

proof fn lemma_unescape_char(c: char)
    ensures
        applescript_unescaped(escape_char(c)) == Some(flat_char(c)),
{
    let e = escape_char(c);
    if c == '\\' || c == '"' {
        assert(e.skip(2) =~= Seq::<char>::empty());
        assert(applescript_unescaped(e.skip(2)) == Some(Seq::<char>::empty()));
        assert(seq![e[1]] + Seq::<char>::empty() =~= seq![c]);
    } else if c == '\r' {
    } else {
        assert(e.skip(1) =~= Seq::<char>::empty());
        assert(applescript_unescaped(e.skip(1)) == Some(Seq::<char>::empty()));
        assert(seq![e[0]] + Seq::<char>::empty() =~= e);
    }
}

/// Escaping loses nothing but line breaks: the escaped text holds no line
/// break and is a string body (no `"` stands unescaped, no backslash is left
/// alone), and reading it back gives the message with carriage returns
/// removed and newlines as spaces.
pub proof fn law_applescript_escape_round_trip(s: Seq<char>)
    ensures
        applescript_unescaped(applescript_escaped(s)) == Some(flattened(s)),
        forall|i: int|
            0 <= i < applescript_escaped(s).len() ==> #[trigger] applescript_escaped(s)[i] != '\n'
                && applescript_escaped(s)[i] != '\r',
    decreases s.len(),
{
    lemma_escaped_single_line(s);
    if s.len() == 0 {
        assert(applescript_escaped(s) =~= Seq::<char>::empty());
    } else {
        law_applescript_escape_round_trip(s.drop_last());
        lemma_unescape_char(s.last());
        lemma_unescaped_concat(applescript_escaped(s.drop_last()), escape_char(s.last()));
    }
}

/// A notification script is one line: escaping removes every line break of
/// the message.
pub proof fn law_notification_script_single_line(msg: Seq<char>)
    ensures
        forall|i: int|
            0 <= i < notification_script_text(msg).len() ==> #[trigger] notification_script_text(
                msg,
            )[i] != '\n' && notification_script_text(msg)[i] != '\r',
{
    lemma_escaped_single_line(msg);
    reveal_strlit("display notification \"");
    reveal_strlit("\" with title \"switchbot\"");
    let head = "display notification \""@;
    let e = applescript_escaped(msg);
    let s = notification_script_text(msg);
    assert forall|i: int| 0 <= i < s.len() implies #[trigger] s[i] != '\n' && s[i] != '\r' by {
        if i < head.len() {
            assert(s[i] == head[i]);
        } else if i < head.len() + e.len() {
            assert(s[i] == e[i - head.len()]);
        } else {
            assert(s[i] == "\" with title \"switchbot\""@[i - head.len() - e.len()]);
        }
    }
}

/// The AppleScript that shows `msg` as a notification titled `switchbot`.
pub open spec fn notification_script_text(msg: Seq<char>) -> Seq<char> {
    "display notification \""@ + applescript_escaped(msg) + "\" with title \"switchbot\""@
}

/// `display notification "<escaped msg>" with title "switchbot"`.
pub fn notification_script(msg: &str) -> (s: String)
    ensures
        s@ == notification_script_text(msg@),
{
    let mut s = String::from_str("display notification \"");
    let e = escape_for_applescript(msg);
    s.append(e.as_str());
    s.append("\" with title \"switchbot\"");
    s
}

} // verus!
