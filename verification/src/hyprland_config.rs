//! Reading Hyprland monitor rules: `monitor=` lines of hyprland.conf and
//! `hl.monitor({...})` calls of hyprland.lua, which rule wins for a
//! connector, and how a rule is written. Reading the files is the caller's.
use crate::text::{
    char_index_from, chars_equal, is_sep, is_whitespace, last_char_index, lemma_split_concat,
    lemma_split_no_sep, lemma_trim_plain, rfind_char, chars_of, decimal, find_char, has_char,
    lemma_chars_deep_view, lemma_char_index_from, lemma_leading_ws_bound, lemma_trailing_ws_bound, leading_ws, trailing_ws, matches_at, push_chars, push_decimal, push_str,
    slice_chars, split_chars, split_pieces, starts_at, str_equal, string_of, trim, trim_chars,
    join_path, path_join,
};
use vstd::prelude::*;

verus! {

#[derive(Debug, Clone, PartialEq, Eq)]
pub struct MonitorRule {
    pub path: String,
    pub line_number: usize,
    pub raw: String,
    pub connector: String,
    pub mode: String,
    pub position: Option<String>,
    pub scale: Option<String>,
}

/// A monitor rule as plain values.
pub struct MonitorRuleView {
    pub path: Seq<char>,
    pub line_number: usize,
    pub raw: Seq<char>,
    pub connector: Seq<char>,
    pub mode: Seq<char>,
    pub position: Option<Seq<char>>,
    pub scale: Option<Seq<char>>,
}

impl DeepView for MonitorRule {
    type V = MonitorRuleView;

    open spec fn deep_view(&self) -> MonitorRuleView {
        MonitorRuleView {
            path: self.path@,
            line_number: self.line_number,
            raw: self.raw@,
            connector: self.connector@,
            mode: self.mode@,
            position: self.position.deep_view(),
            scale: self.scale.deep_view(),
        }
    }
}

/// A rule written back as `monitor=CONNECTOR,MODE[,POSITION,SCALE]`; position
/// and scale only when both are given.
pub open spec fn normalized(rule: MonitorRuleView) -> Seq<char> {
    match (rule.position, rule.scale) {
        (Some(position), Some(scale)) => "monitor="@ + rule.connector + seq![','] + rule.mode
            + seq![','] + position + seq![','] + scale,
        _ => "monitor="@ + rule.connector + seq![','] + rule.mode,
    }
}

impl MonitorRule {
    pub fn normalized_rule(&self) -> (r: String)
        ensures
            r@ == normalized(self.deep_view()),
    {
        let mut r = String::from_str("monitor=");
        push_str(&mut r, self.connector.as_str());
        push_str(&mut r, ",");
        push_str(&mut r, self.mode.as_str());
        match (&self.position, &self.scale) {
            (Some(position), Some(scale)) => {
                push_str(&mut r, ",");
                push_str(&mut r, position.as_str());
                push_str(&mut r, ",");
                push_str(&mut r, scale.as_str());
            },
            _ => {},
        }
        proof {
            reveal_strlit(",");
        }
        assert(r@ =~= normalized(self.deep_view()));
        r
    }

    /// `PATH:LINE`, with the path as the caller shows it (home as `~`).
    pub fn location(&self, shown_path: &str) -> (r: String)
        ensures
            r@ == shown_path@ + seq![':'] + decimal(self.line_number as nat),
    {
        let mut r = String::from_str(shown_path);
        push_str(&mut r, ":");
        push_decimal(&mut r, self.line_number as u64);
        proof {
            reveal_strlit(":");
        }
        assert(r@ =~= shown_path@ + seq![':'] + decimal(self.line_number as nat));
        r
    }
}

#[derive(Debug, Clone, PartialEq, Eq)]
pub struct MonitorRuleInspection {
    pub root_path: String,
    pub expected_rule: String,
    pub files_read: usize,
    pub connector_rules: Vec<MonitorRule>,
    pub exact_match: Option<MonitorRule>,
    pub last_connector_rule: Option<MonitorRule>,
    pub read_warnings: Vec<String>,
}

impl MonitorRuleInspection {
    pub open spec fn spec_exact_match_is_effective(&self) -> bool {
        match (self.exact_match, self.last_connector_rule) {
            (Some(exact), Some(last)) => exact.path@ == last.path@ && exact.line_number
                == last.line_number,
            _ => false,
        }
    }

    /// Whether the rule that matches the expected one is also the last rule
    /// for the connector, so that it is the one Hyprland applies.
    pub fn exact_match_is_effective(&self) -> (r: bool)
        ensures
            r == self.spec_exact_match_is_effective(),
    {
        match (&self.exact_match, &self.last_connector_rule) {
            (Some(exact), Some(last)) => {
                let same_path = chars_equal(&chars_of(exact.path.as_str()), &chars_of(last.path.as_str()));
                same_path && exact.line_number == last.line_number
            },
            _ => false,
        }
    }
}

/// `value` as a Lua string literal: double quotes, with backslash, double
/// quote and newline escaped.
pub open spec fn lua_quoted(value: Seq<char>) -> Seq<char> {
    seq!['"'] + lua_escaped(value) + seq!['"']
}

/// The escaped characters of a Lua string literal.
pub open spec fn lua_escaped(value: Seq<char>) -> Seq<char>
    decreases value.len(),
{
    if value.len() == 0 {
        Seq::empty()
    } else {
        lua_escaped(value.drop_last()) + {
            let c = value.last();
            if c == '\\' {
                seq!['\\', '\\']
            } else if c == '"' {
                seq!['\\', '"']
            } else if c == '\n' {
                seq!['\\', 'n']
            } else {
                seq![c]
            }
        }
    }
}

fn push_lua_string(s: &mut String, value: &str)
    ensures
        final(s)@ == old(s)@ + lua_quoted(value@),
{
    let chars = chars_of(value);
    push_str(s, "\"");
    let ghost start = s@;
    let mut i: usize = 0;
    while i < chars.len()
        invariant
            0 <= i <= chars@.len(),
            chars@ == value@,
            s@ == start + lua_escaped(chars@.take(i as int)),
        decreases chars@.len() - i,
    {
        let c = chars[i];
        if c == '\\' {
            push_str(s, "\\\\");
        } else if c == '"' {
            push_str(s, "\\\"");
        } else if c == '\n' {
            push_str(s, "\\n");
        } else {
            let mut one = String::new();
            crate::text::push_char(&mut one, c);
            push_str(s, one.as_str());
        }
        proof {
            reveal_strlit("\\\\");
            reveal_strlit("\\\"");
            reveal_strlit("\\n");
            assert(chars@.take(i + 1).drop_last() =~= chars@.take(i as int));
        }
        i = i + 1;
        assert(s@ =~= start + lua_escaped(chars@.take(i as int)));
    }
    push_str(s, "\"");
    proof {
        reveal_strlit("\"");
    }
    assert(chars@.take(chars@.len() as int) =~= chars@);
    assert(s@ =~= old(s)@ + lua_quoted(value@));
}

/// `value` as a Lua string literal.
pub fn lua_string(value: &str) -> (r: String)
    ensures
        r@ == lua_quoted(value@),
{
    let mut r = String::new();
    push_lua_string(&mut r, value);
    r
}

/// The last non-empty `/`-separated piece of a path.
pub open spec fn last_path_piece(path: Seq<char>) -> Seq<char>
    decreases path.len(),
{
    if path.len() == 0 {
        Seq::empty()
    } else if path.last() == '/' {
        last_path_piece(path.drop_last())
    } else {
        match crate::text::last_char_index(path, '/') {
            Some(i) => path.skip(i + 1),
            None => path,
        }
    }
}

/// Whether a path names a `.lua` file: its last piece has the extension `lua`
/// after a dot that is not its first character.
pub open spec fn has_lua_extension(path: Seq<char>) -> bool {
    let name = last_path_piece(path);
    match crate::text::last_char_index(name, '.') {
        Some(i) => i > 0 && name.skip(i + 1) == "lua"@,
        None => false,
    }
}

fn lua_path(path: &str) -> (r: bool)
    ensures
        r == has_lua_extension(path@),
{
    let chars = chars_of(path);
    let mut end: usize = chars.len();
    assert(chars@.take(chars@.len() as int) =~= chars@);
    while end > 0 && chars[end - 1] == '/'
        invariant
            end <= chars@.len(),
            last_path_piece(chars@) == last_path_piece(chars@.take(end as int)),
        decreases end,
    {
        assert(chars@.take(end as int).drop_last() =~= chars@.take(end - 1));
        end = end - 1;
    }
    let trimmed = slice_chars(&chars, 0, end);
    assert(trimmed@ =~= chars@.take(end as int));
    assert(chars@.take(chars@.len() as int) =~= chars@);
    let ghost t = chars@.take(end as int);
    proof {
        if end == 0 {
            assert(t =~= Seq::<char>::empty());
            assert(last_path_piece(t) == Seq::<char>::empty());
        } else {
            assert(t.last() != '/');
            assert(last_path_piece(t) == match crate::text::last_char_index(t, '/') {
                Some(i) => t.skip(i + 1),
                None => t,
            });
        }
    }
    let name = match crate::text::rfind_char(&trimmed, '/') {
        Some(i) => {
            let n = slice_chars(&trimmed, i + 1, trimmed.len());
            assert(n@ =~= trimmed@.skip(i + 1));
            assert(n@ == last_path_piece(t));
            n
        },
        None => {
            assert(trimmed@ == last_path_piece(t));
            trimmed
        },
    };
    assert(name@ =~= last_path_piece(path@));
    match crate::text::rfind_char(&name, '.') {
        Some(i) => {
            let ext = slice_chars(&name, i + 1, name.len());
            assert(ext@ =~= name@.skip(i + 1));
            i > 0 && chars_equal(&ext, &chars_of("lua"))
        },
        None => false,
    }
}

/// A monitor rule in the syntax of the config at `config_path`: an
/// `hl.monitor({...})` call for a `.lua` config, a `monitor=` line otherwise.
pub open spec fn spec_monitor_rule_text(
    config_path: Seq<char>,
    connector: Seq<char>,
    mode: Seq<char>,
    position: Seq<char>,
    scale: Seq<char>,
) -> Seq<char> {
    if has_lua_extension(config_path) {
        "hl.monitor({ output = "@ + lua_quoted(connector) + ", mode = "@ + lua_quoted(mode)
            + ", position = "@ + lua_quoted(position) + ", scale = "@ + scale + " })"@
    } else {
        "monitor="@ + connector + seq![','] + mode + seq![','] + position + seq![','] + scale
    }
}

pub fn format_monitor_rule_for_path(
    config_path: &str,
    connector: &str,
    mode: &str,
    position: &str,
    scale: &str,
) -> (r: String)
    ensures
        r@ == spec_monitor_rule_text(config_path@, connector@, mode@, position@, scale@),
{
    let mut r = String::new();
    if lua_path(config_path) {
        push_str(&mut r, "hl.monitor({ output = ");
        push_lua_string(&mut r, connector);
        push_str(&mut r, ", mode = ");
        push_lua_string(&mut r, mode);
        push_str(&mut r, ", position = ");
        push_lua_string(&mut r, position);
        push_str(&mut r, ", scale = ");
        push_str(&mut r, scale);
        push_str(&mut r, " })");
    } else {
        push_str(&mut r, "monitor=");
        push_str(&mut r, connector);
        push_str(&mut r, ",");
        push_str(&mut r, mode);
        push_str(&mut r, ",");
        push_str(&mut r, position);
        push_str(&mut r, ",");
        push_str(&mut r, scale);
        proof {
            reveal_strlit(",");
        }
    }
    assert(r@ =~= spec_monitor_rule_text(config_path@, connector@, mode@, position@, scale@));
    r
}

/// A monitor rule for the Hyprland config at `config_path`.
pub fn format_monitor_rule(
    connector: &str,
    mode: &str,
    position: &str,
    scale: &str,
    config_path: &str,
) -> (r: String)
    ensures
        r@ == spec_monitor_rule_text(config_path@, connector@, mode@, position@, scale@),
{
    format_monitor_rule_for_path(config_path, connector, mode, position, scale)
}

/// `line` up to its first `#`.
pub open spec fn spec_strip_comment(line: Seq<char>) -> Seq<char> {
    match char_index_from(line, '#', 0) {
        Some(i) => line.take(i),
        None => line,
    }
}

pub fn strip_comment(line: &Vec<char>) -> (r: Vec<char>)
    ensures
        r@ == spec_strip_comment(line@),
{
    match find_char(line, '#', 0) {
        Some(i) => {
            proof {
                lemma_char_index_from(line@, '#', 0);
            }
            let r = slice_chars(line, 0, i);
            assert(r@ =~= line@.take(i as int));
            r
        },
        None => {
            let r = slice_chars(line, 0, line.len());
            assert(r@ =~= line@);
            r
        },
    }
}

/// `KEY = VALUE` of a config line without its comment, both sides trimmed.
pub open spec fn spec_parse_assignment(line: Seq<char>) -> Option<(Seq<char>, Seq<char>)> {
    let l = trim(spec_strip_comment(line));
    match char_index_from(l, '=', 0) {
        Some(i) => Some((trim(l.take(i)), trim(l.skip(i + 1)))),
        None => None,
    }
}

pub fn parse_assignment(line: &Vec<char>) -> (r: Option<(Vec<char>, Vec<char>)>)
    ensures
        match r {
            Some((k, v)) => spec_parse_assignment(line@) == Some((k@, v@)),
            None => spec_parse_assignment(line@) is None,
        },
{
    let l = trim_chars(&strip_comment(line));
    match find_char(&l, '=', 0) {
        Some(i) => {
            proof {
                lemma_char_index_from(l@, '=', 0);
            }
            assert(i < l.len());
            let key = slice_chars(&l, 0, i);
            let value = slice_chars(&l, i + 1, l.len());
            assert(key@ =~= l@.take(i as int));
            assert(value@ =~= l@.skip(i + 1));
            Some((trim_chars(&key), trim_chars(&value)))
        },
        None => None,
    }
}

/// The trimmed, non-empty pieces among `pieces`.
pub open spec fn nonempty_trimmed(pieces: Seq<Seq<char>>) -> Seq<Seq<char>>
    decreases pieces.len(),
{
    if pieces.len() == 0 {
        Seq::empty()
    } else {
        let prev = nonempty_trimmed(pieces.drop_last());
        if trim(pieces.last()).len() > 0 {
            prev.push(trim(pieces.last()))
        } else {
            prev
        }
    }
}

/// An optional piece `i` of `parts`.
pub open spec fn part_at(parts: Seq<Seq<char>>, i: int) -> Option<Seq<char>> {
    if i < parts.len() {
        Some(parts[i])
    } else {
        None
    }
}

/// The rule a `monitor=` line gives: none for a value that uses a variable
/// (`$`) or has fewer than connector and mode.
pub open spec fn spec_parse_monitor_rule(
    path: Seq<char>,
    line_number: usize,
    raw_line: Seq<char>,
    value: Seq<char>,
) -> Option<MonitorRuleView> {
    let parts = nonempty_trimmed(split_pieces(value, 1));
    if value.contains('$') || parts.len() < 2 {
        None
    } else {
        Some(
            MonitorRuleView {
                path,
                line_number,
                raw: trim(raw_line),
                connector: parts[0],
                mode: parts[1],
                position: part_at(parts, 2),
                scale: part_at(parts, 3),
            },
        )
    }
}

fn optional_part(parts: &Vec<Vec<char>>, i: usize) -> (r: Option<String>)
    ensures
        r.deep_view() == part_at(parts.deep_view(), i as int),
{
    if i < parts.len() {
        proof {
            lemma_chars_deep_view(parts@[i as int]);
        }
        Some(string_of(&parts[i]))
    } else {
        None
    }
}

pub fn parse_monitor_rule(path: &str, line_number: usize, raw_line: &str, value: &str) -> (r: Option<
    MonitorRule,
>)
    ensures
        r.deep_view() == spec_parse_monitor_rule(path@, line_number, raw_line@, value@),
{
    let value_chars = chars_of(value);
    if has_char(&value_chars, '$') {
        return None;
    }
    let pieces = split_chars(&value_chars, 1);
    let ghost pv = pieces.deep_view();
    let mut parts: Vec<Vec<char>> = Vec::new();
    let mut i: usize = 0;
    while i < pieces.len()
        invariant
            pv == pieces.deep_view(),
            0 <= i <= pv.len(),
            parts.deep_view() == nonempty_trimmed(pv.take(i as int)),
        decreases pv.len() - i,
    {
        proof {
            lemma_chars_deep_view(pieces@[i as int]);
            assert(pv.take(i + 1).drop_last() =~= pv.take(i as int));
        }
        let t = trim_chars(&pieces[i]);
        if t.len() > 0 {
            let ghost before = parts.deep_view();
            let ghost tv = t@;
            parts.push(t);
            proof {
                assert forall|k: int| 0 <= k < parts.deep_view().len() implies parts.deep_view()[k]
                    == before.push(tv)[k] by {
                    lemma_chars_deep_view(parts@[k]);
                }
            }
            assert(parts.deep_view() =~= before.push(tv));
        }
        i = i + 1;
    }
    assert(pv.take(pv.len() as int) =~= pv);
    if parts.len() < 2 {
        return None;
    }
    proof {
        lemma_chars_deep_view(parts@[0]);
        lemma_chars_deep_view(parts@[1]);
    }
    let raw_chars = chars_of(raw_line);
    Some(
        MonitorRule {
            path: String::from_str(path),
            line_number,
            raw: string_of(&trim_chars(&raw_chars)),
            connector: string_of(&parts[0]),
            mode: string_of(&parts[1]),
            position: optional_part(&parts, 2),
            scale: optional_part(&parts, 3),
        },
    )
}

/// The state of the wildcard matcher: pattern and value positions, the last
/// `*` seen and the value position it was tried from.
pub open spec fn wildcard_run(
    p: Seq<char>,
    v: Seq<char>,
    pi: int,
    vi: int,
    star: Option<int>,
    svi: int,
) -> bool
    decreases v.len() - svi, v.len() - vi, p.len() - pi,
{
    if !(0 <= pi <= p.len() && 0 <= svi <= vi <= v.len()) || (star matches Some(s) && !(0 <= s
        < pi)) {
        false
    } else if vi < v.len() {
        if pi < p.len() && (p[pi] == '?' || p[pi] == v[vi]) {
            wildcard_run(p, v, pi + 1, vi + 1, star, svi)
        } else if pi < p.len() && p[pi] == '*' {
            wildcard_run(p, v, pi + 1, vi, Some(pi), vi)
        } else {
            match star {
                Some(s) => wildcard_run(p, v, s + 1, svi + 1, star, svi + 1),
                None => false,
            }
        }
    } else {
        forall|k: int| pi <= k < p.len() ==> p[k] == '*'
    }
}

/// Whether `value` matches the shell-style `pattern` (`*` any run, `?` any one
/// character), as the backtracking matcher that keeps only the last `*`
/// decides it; this is `glob_match` whenever the value holds no `*`.
pub open spec fn spec_wildcard_match(pattern: Seq<char>, value: Seq<char>) -> bool {
    wildcard_run(pattern, value, 0, 0, None, 0)
}

/// Whether `value` matches `pattern`: glob matching (`glob_match`) for any
/// value without `*`; a `*` in the value is first taken as the literal
/// character, which the matcher's state (`wildcard_run`) describes in full.
pub fn wildcard_match(pattern: &str, value: &str) -> (r: bool)
    ensures
        r == spec_wildcard_match(pattern@, value@),
        !value@.contains('*') ==> r == glob_match(pattern@, value@),
        r ==> glob_match(pattern@, value@),
{
    proof {
        if !value@.contains('*') {
            lemma_wildcard_match_is_glob_exactly(pattern@, value@);
        }
        if spec_wildcard_match(pattern@, value@) {
            lemma_wildcard_match_is_glob(pattern@, value@);
        }
    }
    let p = chars_of(pattern);
    let v = chars_of(value);
    let mut pi: usize = 0;
    let mut vi: usize = 0;
    let mut star: Option<usize> = None;
    let mut svi: usize = 0;
    while vi < v.len()
        invariant
            p@ == pattern@,
            v@ == value@,
            !value@.contains('*') ==> spec_wildcard_match(pattern@, value@) == glob_match(pattern@, value@),
            spec_wildcard_match(pattern@, value@) ==> glob_match(pattern@, value@),
            0 <= pi <= p@.len(),
            0 <= svi <= vi <= v@.len(),
            star matches Some(s) ==> s < pi,
            spec_wildcard_match(pattern@, value@) == wildcard_run(
                p@,
                v@,
                pi as int,
                vi as int,
                match star {
                    Some(s) => Some(s as int),
                    None => None,
                },
                svi as int,
            ),
        decreases v@.len() - svi, v@.len() - vi, p@.len() - pi,
    {
        if pi < p.len() && (p[pi] == '?' || p[pi] == v[vi]) {
            pi = pi + 1;
            vi = vi + 1;
        } else if pi < p.len() && p[pi] == '*' {
            star = Some(pi);
            pi = pi + 1;
            svi = vi;
        } else {
            match star {
                Some(s) => {
                    pi = s + 1;
                    svi = svi + 1;
                    vi = svi;
                },
                None => return false,
            }
        }
    }
    while pi < p.len() && p[pi] == '*'
        invariant
            0 <= pi <= p@.len(),
            !value@.contains('*') ==> spec_wildcard_match(pattern@, value@) == glob_match(pattern@, value@),
            spec_wildcard_match(pattern@, value@) ==> glob_match(pattern@, value@),
            vi == v@.len(),
            0 <= svi <= vi,
            star matches Some(s) ==> s < pi,
            spec_wildcard_match(pattern@, value@) == (forall|k: int|
                pi <= k < p@.len() ==> p@[k] == '*'),
        decreases p@.len() - pi,
    {
        pi = pi + 1;
    }
    pi == p.len()
}


// ---------------------------------------------------------------------------
// Scanning Lua configs
// ---------------------------------------------------------------------------

/// The first index at or after `from` where `needle` starts in `s`.
pub open spec fn pattern_from(s: Seq<char>, from: int, needle: Seq<char>) -> Option<int>
    decreases s.len() - from,
{
    if from < 0 || needle.len() == 0 || from + needle.len() > s.len() {
        None
    } else if starts_at(s, from, needle) {
        Some(from)
    } else {
        pattern_from(s, from + 1, needle)
    }
}

pub proof fn lemma_pattern_from(s: Seq<char>, from: int, needle: Seq<char>)
    ensures
        pattern_from(s, from, needle) matches Some(i) ==> from <= i && i + needle.len() <= s.len(),
    decreases s.len() - from,
{
    if !(from < 0 || needle.len() == 0 || from + needle.len() > s.len()) && !starts_at(
        s,
        from,
        needle,
    ) {
        lemma_pattern_from(s, from + 1, needle);
    }
}

fn find_pattern(s: &Vec<char>, from: usize, needle: &Vec<char>) -> (r: Option<usize>)
    ensures
        (r is None) == (pattern_from(s@, from as int, needle@) is None),
        r matches Some(i) ==> pattern_from(s@, from as int, needle@) == Some(i as int) && from <= i
            && i + needle@.len() <= s@.len(),
{
    proof {
        lemma_pattern_from(s@, from as int, needle@);
    }
    if needle.len() == 0 {
        return None;
    }
    let mut i: usize = from;
    while i <= s.len() && needle.len() <= s.len() - i
        invariant
            from <= i,
            needle@.len() > 0,
            pattern_from(s@, from as int, needle@) == pattern_from(s@, i as int, needle@),
        decreases s@.len() + 1 - i,
    {
        if matches_at(s, i, needle) {
            return Some(i);
        }
        i = i + 1;
    }
    None
}

/// Where a quoted string that opened before `i` ends: one past the closing
/// `quote`, a backslash escaping the next character; the end of `s` when it
/// does not close.
pub open spec fn quoted_end(s: Seq<char>, quote: char, i: int, escaped: bool) -> int
    decreases s.len() - i,
{
    if i < 0 || i >= s.len() {
        s.len() as int
    } else if escaped {
        quoted_end(s, quote, i + 1, false)
    } else if s[i] == '\\' {
        quoted_end(s, quote, i + 1, true)
    } else if s[i] == quote {
        i + 1
    } else {
        quoted_end(s, quote, i + 1, false)
    }
}

pub proof fn lemma_quoted_end(s: Seq<char>, quote: char, i: int, escaped: bool)
    requires
        0 <= i,
    ensures
        i < quoted_end(s, quote, i, escaped) || (i >= s.len() && quoted_end(s, quote, i, escaped)
            == s.len()),
        quoted_end(s, quote, i, escaped) <= s.len() || i > s.len(),
    decreases s.len() - i,
{
    if i < s.len() {
        lemma_quoted_end(s, quote, i + 1, escaped);
        lemma_quoted_end(s, quote, i + 1, false);
        lemma_quoted_end(s, quote, i + 1, true);
    }
}

/// Where the quoted string that starts at `start` ends.
pub open spec fn skip_quoted(s: Seq<char>, start: int) -> int {
    quoted_end(s, s[start], start + 1, false)
}

fn skip_quoted_lua_string(s: &Vec<char>, start: usize) -> (r: usize)
    requires
        start < s@.len(),
    ensures
        r == skip_quoted(s@, start as int),
        start < r <= s@.len(),
{
    proof {
        lemma_quoted_end(s@, s@[start as int], start + 1, false);
    }
    let quote = s[start];
    assert(start < s.len());
    let mut index = start + 1;
    let mut escaped = false;
    while index < s.len()
        invariant
            start < index,
            index <= s@.len(),
            quote == s@[start as int],
            skip_quoted(s@, start as int) == quoted_end(s@, quote, index as int, escaped),
        decreases s@.len() - index,
    {
        if escaped {
            escaped = false;
        } else if s[index] == '\\' {
            escaped = true;
        } else if s[index] == quote {
            return index + 1;
        }
        index = index + 1;
    }
    s.len()
}

/// One past the end of the line `i` is on (past its newline), or the end of `s`.
pub open spec fn after_line(s: Seq<char>, i: int) -> int {
    match char_index_from(s, '\n', i) {
        Some(j) => j + 1,
        None => s.len() as int,
    }
}

/// Where the next `]]` after `from` ends, or the end of `s`.
pub open spec fn after_long_bracket(s: Seq<char>, from: int) -> int {
    match pattern_from(s, from, "]]"@) {
        Some(e) => e + 2,
        None => s.len() as int,
    }
}

fn next_line(s: &Vec<char>, i: usize) -> (r: usize)
    requires
        i < s@.len(),
    ensures
        r == after_line(s@, i as int),
        i < r <= s@.len(),
{
    proof {
        lemma_char_index_from(s@, '\n', i as int);
    }
    match find_char(s, '\n', i) {
        Some(j) => {
            assert(j < s.len());
            j + 1
        },
        None => s.len(),
    }
}

/// Whether `c` can be part of a Lua identifier.
pub open spec fn is_lua_identifier_char(c: char) -> bool {
    ('a' <= c <= 'z') || ('A' <= c <= 'Z') || ('0' <= c <= '9') || c == '_'
}

fn lua_identifier_char(c: char) -> (r: bool)
    ensures
        r == is_lua_identifier_char(c),
{
    ('a' <= c && c <= 'z') || ('A' <= c && c <= 'Z') || ('0' <= c && c <= '9') || c == '_'
}

/// ASCII whitespace as `u8::is_ascii_whitespace` counts it.
pub open spec fn is_ascii_space(c: char) -> bool {
    c == ' ' || c == '\t' || c == '\n' || c == '\x0C' || c == '\r'
}

/// Where the call whose `(` is at `open` closes: the `)` that brings the
/// depth back to zero, skipping comments, long strings and quoted strings;
/// none when it does not close.
pub open spec fn balanced_from(s: Seq<char>, i: int, depth: nat) -> Option<int>
    decreases s.len() - i,
{
    if i < 0 || i >= s.len() {
        None
    } else if starts_at(s, i, "--[["@) {
        match pattern_from(s, i + 4, "]]"@) {
            None => None,
            Some(e) => if i < e + 2 <= s.len() {
                balanced_from(s, e + 2, depth)
            } else {
                None
            },
        }
    } else if starts_at(s, i, "--"@) {
        if i < after_line(s, i) <= s.len() {
            balanced_from(s, after_line(s, i), depth)
        } else {
            None
        }
    } else if starts_at(s, i, "[["@) {
        match pattern_from(s, i + 2, "]]"@) {
            None => None,
            Some(e) => if i < e + 2 <= s.len() {
                balanced_from(s, e + 2, depth)
            } else {
                None
            },
        }
    } else if s[i] == '\'' || s[i] == '"' {
        if i < skip_quoted(s, i) <= s.len() {
            balanced_from(s, skip_quoted(s, i), depth)
        } else {
            None
        }
    } else if s[i] == '(' {
        balanced_from(s, i + 1, depth + 1)
    } else if s[i] == ')' {
        let d: nat = if depth > 0 {
            (depth - 1) as nat
        } else {
            0
        };
        if d == 0 {
            Some(i)
        } else {
            balanced_from(s, i + 1, d)
        }
    } else {
        balanced_from(s, i + 1, depth)
    }
}

pub proof fn lemma_balanced_from(s: Seq<char>, i: int, depth: nat)
    ensures
        balanced_from(s, i, depth) matches Some(e) ==> i <= e < s.len(),
    decreases s.len() - i,
{
    if !(i < 0 || i >= s.len()) {
        if starts_at(s, i, "--[["@) {
            if let Some(e) = pattern_from(s, i + 4, "]]"@) {
                if i < e + 2 <= s.len() {
                    lemma_balanced_from(s, e + 2, depth);
                }
            }
        } else if starts_at(s, i, "--"@) {
            if i < after_line(s, i) <= s.len() {
                lemma_balanced_from(s, after_line(s, i), depth);
            }
        } else if starts_at(s, i, "[["@) {
            if let Some(e) = pattern_from(s, i + 2, "]]"@) {
                if i < e + 2 <= s.len() {
                    lemma_balanced_from(s, e + 2, depth);
                }
            }
        } else if s[i] == '\'' || s[i] == '"' {
            if i < skip_quoted(s, i) <= s.len() {
                lemma_balanced_from(s, skip_quoted(s, i), depth);
            }
        } else if s[i] == '(' {
            lemma_balanced_from(s, i + 1, depth + 1);
        } else if s[i] == ')' {
            let d: nat = if depth > 0 {
                (depth - 1) as nat
            } else {
                0
            };
            if d != 0 {
                lemma_balanced_from(s, i + 1, d);
            }
        } else {
            lemma_balanced_from(s, i + 1, depth);
        }
    }
}

/// The markers the Lua scanner looks for, as character vectors.
pub struct LuaMarkers {
    pub block_comment: Vec<char>,
    pub line_comment: Vec<char>,
    pub long_string: Vec<char>,
    pub long_end: Vec<char>,
}

impl LuaMarkers {
    pub open spec fn valid(&self) -> bool {
        &&& self.block_comment@ == "--[["@
        &&& self.line_comment@ == "--"@
        &&& self.long_string@ == "[["@
        &&& self.long_end@ == "]]"@
    }

    pub fn new() -> (r: Self)
        ensures
            r.valid(),
    {
        LuaMarkers {
            block_comment: chars_of("--[["),
            line_comment: chars_of("--"),
            long_string: chars_of("[["),
            long_end: chars_of("]]"),
        }
    }
}

fn find_balanced_lua_call(s: &Vec<char>, open: usize, m: &LuaMarkers) -> (r: Option<usize>)
    requires
        m.valid(),
    ensures
        (r is None) == (balanced_from(s@, open as int, 0) is None),
        r matches Some(e) ==> balanced_from(s@, open as int, 0) == Some(e as int) && open <= e
            < s@.len(),
{
    proof {
        lemma_balanced_from(s@, open as int, 0);
    }
    let mut depth: usize = 0;
    let mut index: usize = open;
    while index < s.len()
        invariant
            m.valid(),
            open <= index,
            depth <= index,
            balanced_from(s@, open as int, 0) == balanced_from(s@, index as int, depth as nat),
        decreases s@.len() - index,
    {
        proof {
            reveal_strlit("--[[");
            reveal_strlit("--");
            reveal_strlit("[[");
            reveal_strlit("]]");
        }
        if matches_at(s, index, &m.block_comment) {
            match find_pattern(s, index + 4, &m.long_end) {
                Some(e) => {
                    index = e + 2;
                    continue;
                },
                None => return None,
            }
        }
        if matches_at(s, index, &m.line_comment) {
            index = next_line(s, index);
            continue;
        }
        if matches_at(s, index, &m.long_string) {
            match find_pattern(s, index + 2, &m.long_end) {
                Some(e) => {
                    index = e + 2;
                    continue;
                },
                None => return None,
            }
        }
        if s[index] == '\'' || s[index] == '"' {
            index = skip_quoted_lua_string(s, index);
            continue;
        }
        if s[index] == '(' {
            depth = depth + 1;
        } else if s[index] == ')' {
            depth = if depth > 0 {
                depth - 1
            } else {
                0
            };
            if depth == 0 {
                return Some(index);
            }
        }
        index = index + 1;
    }
    None
}


#[derive(Debug, Clone, Copy, PartialEq, Eq, Structural)]
pub enum LuaCallKind {
    Monitor,
    DoFile,
    Require,
}

/// A call found in a Lua config: what it calls, and where its name starts and
/// its closing parenthesis is.
#[derive(Debug, Clone, Copy, PartialEq, Eq, Structural)]
pub struct LuaCall {
    pub kind: LuaCallKind,
    pub start: usize,
    pub end: usize,
}

impl LuaCall {
    /// The text of the call, from its name to its closing parenthesis.
    pub fn raw(&self, contents: &Vec<char>) -> (r: Vec<char>)
        requires
            self.start <= self.end < contents@.len(),
        ensures
            r@ == contents@.subrange(self.start as int, self.end + 1),
    {
        assert(self.end < contents.len());
        slice_chars(contents, self.start, self.end + 1)
    }
}

/// The name of each kind of call.
pub open spec fn call_name(kind: LuaCallKind) -> Seq<char> {
    match kind {
        LuaCallKind::Monitor => "hl.monitor"@,
        LuaCallKind::DoFile => "dofile"@,
        LuaCallKind::Require => "require"@,
    }
}

/// Whether the name of `kind` stands at `i` as a whole identifier.
pub open spec fn name_at(s: Seq<char>, i: int, kind: LuaCallKind) -> bool {
    let name = call_name(kind);
    &&& starts_at(s, i, name)
    &&& (i == 0 || !is_lua_identifier_char(s[i - 1]))
    &&& (i + name.len() >= s.len() || !is_lua_identifier_char(s[i + name.len()]))
}

/// The call name that stands at `i`, trying `hl.monitor`, `dofile`, `require`.
pub open spec fn call_at(s: Seq<char>, i: int) -> Option<LuaCallKind> {
    if name_at(s, i, LuaCallKind::Monitor) {
        Some(LuaCallKind::Monitor)
    } else if name_at(s, i, LuaCallKind::DoFile) {
        Some(LuaCallKind::DoFile)
    } else if name_at(s, i, LuaCallKind::Require) {
        Some(LuaCallKind::Require)
    } else {
        None
    }
}

/// The first index at or after `i` that is not ASCII whitespace.
pub open spec fn skip_space(s: Seq<char>, i: int) -> int
    decreases s.len() - i,
{
    if i < 0 || i >= s.len() || !is_ascii_space(s[i]) {
        i
    } else {
        skip_space(s, i + 1)
    }
}

/// The calls from `i` on, skipping comments and strings; the scan stops at a
/// call whose parentheses do not close.
pub open spec fn calls_from(s: Seq<char>, i: int) -> Seq<LuaCall>
    decreases s.len() - i,
{
    if i < 0 || i >= s.len() {
        Seq::empty()
    } else if starts_at(s, i, "--[["@) {
        if i < after_long_bracket(s, i + 4) <= s.len() {
            calls_from(s, after_long_bracket(s, i + 4))
        } else {
            Seq::empty()
        }
    } else if starts_at(s, i, "--"@) {
        if i < after_line(s, i) <= s.len() {
            calls_from(s, after_line(s, i))
        } else {
            Seq::empty()
        }
    } else if starts_at(s, i, "[["@) {
        if i < after_long_bracket(s, i + 2) <= s.len() {
            calls_from(s, after_long_bracket(s, i + 2))
        } else {
            Seq::empty()
        }
    } else if s[i] == '\'' || s[i] == '"' {
        if i < skip_quoted(s, i) <= s.len() {
            calls_from(s, skip_quoted(s, i))
        } else {
            Seq::empty()
        }
    } else {
        match call_at(s, i) {
            None => calls_from(s, i + 1),
            Some(kind) => {
                let after_name = i + call_name(kind).len();
                let open = skip_space(s, after_name);
                if open >= s.len() || s[open] != '(' {
                    if i < after_name <= s.len() {
                        calls_from(s, after_name)
                    } else {
                        Seq::empty()
                    }
                } else {
                    match balanced_from(s, open, 0) {
                        None => Seq::empty(),
                        Some(end) => if i < end + 1 <= s.len() {
                            seq![LuaCall { kind, start: i as usize, end: end as usize }]
                                + calls_from(s, end + 1)
                        } else {
                            Seq::empty()
                        },
                    }
                }
            },
        }
    }
}

pub proof fn lemma_skip_space(s: Seq<char>, i: int)
    requires
        0 <= i,
    ensures
        i <= skip_space(s, i),
        i <= s.len() ==> skip_space(s, i) <= s.len(),
    decreases s.len() - i,
{
    if !(i < 0 || i >= s.len() || !is_ascii_space(s[i])) {
        lemma_skip_space(s, i + 1);
    }
}

fn name_matches(s: &Vec<char>, i: usize, name: &Vec<char>) -> (r: bool)
    ensures
        r == (starts_at(s@, i as int, name@) && (i == 0 || !is_lua_identifier_char(s@[i - 1])) && (i
            + name@.len() >= s@.len() || !is_lua_identifier_char(s@[i + name@.len()]))),
{
    if !matches_at(s, i, name) {
        return false;
    }
    if i > 0 && lua_identifier_char(s[i - 1]) {
        return false;
    }
    assert(i + name.len() <= s.len());
    let after = i + name.len();
    !(after < s.len() && lua_identifier_char(s[after]))
}

/// The names of the calls, as character vectors.
pub struct CallNames {
    pub monitor: Vec<char>,
    pub dofile: Vec<char>,
    pub require: Vec<char>,
}

impl CallNames {
    pub open spec fn valid(&self) -> bool {
        &&& self.monitor@ == "hl.monitor"@
        &&& self.dofile@ == "dofile"@
        &&& self.require@ == "require"@
    }

    pub fn new() -> (r: Self)
        ensures
            r.valid(),
    {
        CallNames {
            monitor: chars_of("hl.monitor"),
            dofile: chars_of("dofile"),
            require: chars_of("require"),
        }
    }
}

fn call_kind_at(s: &Vec<char>, i: usize, names: &CallNames) -> (r: Option<(LuaCallKind, usize)>)
    requires
        names.valid(),
        i < s@.len(),
    ensures
        (r is None) == (call_at(s@, i as int) is None),
        r matches Some((kind, len)) ==> call_at(s@, i as int) == Some(kind) && len == call_name(
            kind,
        ).len() && i + len <= s@.len(),
{
    if name_matches(s, i, &names.monitor) {
        Some((LuaCallKind::Monitor, names.monitor.len()))
    } else if name_matches(s, i, &names.dofile) {
        Some((LuaCallKind::DoFile, names.dofile.len()))
    } else if name_matches(s, i, &names.require) {
        Some((LuaCallKind::Require, names.require.len()))
    } else {
        None
    }
}

/// The `hl.monitor`, `dofile` and `require` calls of a Lua config, in order.
pub fn find_lua_calls(s: &Vec<char>) -> (r: Vec<LuaCall>)
    ensures
        r@ == calls_from(s@, 0),
{
    let m = LuaMarkers::new();
    let names = CallNames::new();
    let mut calls: Vec<LuaCall> = Vec::new();
    let mut index: usize = 0;
    while index < s.len()
        invariant
            m.valid(),
            names.valid(),
            index <= s@.len(),
            calls@ + calls_from(s@, index as int) == calls_from(s@, 0),
        ensures
            calls@ == calls_from(s@, 0),
        decreases s@.len() - index,
    {
        proof {
            reveal_strlit("--[[");
            reveal_strlit("--");
            reveal_strlit("[[");
            reveal_strlit("]]");
        }
        if matches_at(s, index, &m.block_comment) {
            let next = match find_pattern(s, index + 4, &m.long_end) {
                Some(e) => e + 2,
                None => s.len(),
            };
            index = next;
            continue;
        }
        if matches_at(s, index, &m.line_comment) {
            index = next_line(s, index);
            continue;
        }
        if matches_at(s, index, &m.long_string) {
            let next = match find_pattern(s, index + 2, &m.long_end) {
                Some(e) => e + 2,
                None => s.len(),
            };
            index = next;
            continue;
        }
        if s[index] == '\'' || s[index] == '"' {
            index = skip_quoted_lua_string(s, index);
            continue;
        }
        let (kind, name_len) = match call_kind_at(s, index, &names) {
            Some(found) => found,
            None => {
                index = index + 1;
                continue;
            },
        };
        proof {
            reveal_strlit("hl.monitor");
            reveal_strlit("dofile");
            reveal_strlit("require");
            lemma_skip_space(s@, (index + name_len) as int);
        }
        let mut open = index + name_len;
        while open < s.len() && (s[open] == ' ' || s[open] == '\t' || s[open] == '\n' || s[open]
            == '\x0C' || s[open] == '\r')
            invariant
                index + name_len <= open <= s@.len(),
                skip_space(s@, (index + name_len) as int) == skip_space(s@, open as int),
            decreases s@.len() - open,
        {
            open = open + 1;
        }
        if open >= s.len() || s[open] != '(' {
            index = index + name_len;
            continue;
        }
        let end = match find_balanced_lua_call(s, open, &m) {
            Some(end) => end,
            None => {
                assert(calls_from(s@, index as int) =~= Seq::<LuaCall>::empty());
                assert(calls@ =~= calls@ + calls_from(s@, index as int));
                break;
            },
        };
        let ghost before = calls@;
        calls.push(LuaCall { kind, start: index, end });
        assert(calls@ + calls_from(s@, end + 1) =~= before + calls_from(s@, index as int));
        index = end + 1;
    }
    calls
}


/// The newlines of `s`, in order.
pub open spec fn newlines_of(s: Seq<char>) -> Seq<char>
    decreases s.len(),
{
    if s.len() == 0 {
        Seq::empty()
    } else if s.last() == '\n' {
        newlines_of(s.drop_last()).push('\n')
    } else {
        newlines_of(s.drop_last())
    }
}

/// `s` from `i` on without its Lua comments: a block comment leaves only its
/// newlines, a line comment disappears up to its newline; strings are kept whole.
pub open spec fn stripped_from(s: Seq<char>, i: int) -> Seq<char>
    decreases s.len() - i,
{
    if i < 0 || i >= s.len() {
        Seq::empty()
    } else if starts_at(s, i, "--[["@) {
        let end = after_long_bracket(s, i + 4);
        if i < end <= s.len() {
            newlines_of(s.subrange(i, end)) + stripped_from(s, end)
        } else {
            Seq::empty()
        }
    } else if starts_at(s, i, "--"@) {
        let end = match char_index_from(s, '\n', i) {
            Some(j) => j,
            None => s.len() as int,
        };
        if i < end <= s.len() {
            stripped_from(s, end)
        } else {
            Seq::empty()
        }
    } else if s[i] == '\'' || s[i] == '"' {
        let end = skip_quoted(s, i);
        if i < end <= s.len() {
            s.subrange(i, end) + stripped_from(s, end)
        } else {
            Seq::empty()
        }
    } else if starts_at(s, i, "[["@) {
        let end = after_long_bracket(s, i + 2);
        if i < end <= s.len() {
            s.subrange(i, end) + stripped_from(s, end)
        } else {
            Seq::empty()
        }
    } else {
        seq![s[i]] + stripped_from(s, i + 1)
    }
}

fn push_range(out: &mut Vec<char>, s: &Vec<char>, from: usize, to: usize, only_newlines: bool)
    requires
        from <= to <= s@.len(),
    ensures
        final(out)@ == old(out)@ + if only_newlines {
            newlines_of(s@.subrange(from as int, to as int))
        } else {
            s@.subrange(from as int, to as int)
        },
{
    let mut i: usize = from;
    while i < to
        invariant
            from <= i <= to <= s@.len(),
            out@ == old(out)@ + if only_newlines {
                newlines_of(s@.subrange(from as int, i as int))
            } else {
                s@.subrange(from as int, i as int)
            },
        decreases to - i,
    {
        proof {
            assert(s@.subrange(from as int, i + 1).drop_last() =~= s@.subrange(from as int, i as int));
        }
        if !only_newlines || s[i] == '\n' {
            out.push(s[i]);
        }
        i = i + 1;
        assert(out@ =~= old(out)@ + if only_newlines {
            newlines_of(s@.subrange(from as int, i as int))
        } else {
            s@.subrange(from as int, i as int)
        });
    }
}

/// A Lua chunk without its comments.
pub fn strip_lua_comments(s: &Vec<char>) -> (r: Vec<char>)
    ensures
        r@ == stripped_from(s@, 0),
{
    let m = LuaMarkers::new();
    let mut cleaned: Vec<char> = Vec::new();
    let mut index: usize = 0;
    while index < s.len()
        invariant
            m.valid(),
            index <= s@.len(),
            cleaned@ + stripped_from(s@, index as int) == stripped_from(s@, 0),
        decreases s@.len() - index,
    {
        proof {
            reveal_strlit("--[[");
            reveal_strlit("--");
            reveal_strlit("[[");
            reveal_strlit("]]");
        }
        let ghost before = cleaned@;
        if matches_at(s, index, &m.block_comment) {
            let end = match find_pattern(s, index + 4, &m.long_end) {
                Some(e) => e + 2,
                None => s.len(),
            };
            push_range(&mut cleaned, s, index, end, true);
            assert(cleaned@ + stripped_from(s@, end as int) =~= before + stripped_from(
                s@,
                index as int,
            ));
            index = end;
            continue;
        }
        if matches_at(s, index, &m.line_comment) {
            proof {
                lemma_char_index_from(s@, '\n', index as int);
                assert(s@[index as int] == "--"@[0]);
            }
            let end = match find_char(s, '\n', index) {
                Some(j) => j,
                None => s.len(),
            };
            index = end;
            continue;
        }
        if s[index] == '\'' || s[index] == '"' {
            let end = skip_quoted_lua_string(s, index);
            push_range(&mut cleaned, s, index, end, false);
            assert(cleaned@ + stripped_from(s@, end as int) =~= before + stripped_from(
                s@,
                index as int,
            ));
            index = end;
            continue;
        }
        if matches_at(s, index, &m.long_string) {
            let end = match find_pattern(s, index + 2, &m.long_end) {
                Some(e) => e + 2,
                None => s.len(),
            };
            push_range(&mut cleaned, s, index, end, false);
            assert(cleaned@ + stripped_from(s@, end as int) =~= before + stripped_from(
                s@,
                index as int,
            ));
            index = end;
            continue;
        }
        cleaned.push(s[index]);
        assert(cleaned@ + stripped_from(s@, index + 1) =~= before + stripped_from(
            s@,
            index as int,
        ));
        index = index + 1;
    }
    assert(cleaned@ =~= cleaned@ + stripped_from(s@, index as int));
    cleaned
}


/// The characters a field value loses at both ends: quotes, `}` and `)`.
pub open spec fn is_value_punct(c: char) -> bool {
    c == '"' || c == '\'' || c == '}' || c == ')'
}

/// `s` without its leading value punctuation.
pub open spec fn drop_front_punct(s: Seq<char>) -> Seq<char>
    decreases s.len(),
{
    if s.len() > 0 && is_value_punct(s[0]) {
        drop_front_punct(s.skip(1))
    } else {
        s
    }
}

/// `s` without its trailing value punctuation.
pub open spec fn drop_back_punct(s: Seq<char>) -> Seq<char>
    decreases s.len(),
{
    if s.len() > 0 && is_value_punct(s.last()) {
        drop_back_punct(s.drop_last())
    } else {
        s
    }
}

fn value_punct(c: char) -> (r: bool)
    ensures
        r == is_value_punct(c),
{
    c == '"' || c == '\'' || c == '}' || c == ')'
}

/// `v` with value punctuation taken off both ends.
fn strip_value_punct(v: &Vec<char>) -> (r: Vec<char>)
    ensures
        r@ == drop_back_punct(drop_front_punct(v@)),
{
    let mut i: usize = 0;
    assert(v@.skip(0) =~= v@);
    while i < v.len() && value_punct(v[i])
        invariant
            i <= v@.len(),
            drop_front_punct(v@) == drop_front_punct(v@.skip(i as int)),
        decreases v@.len() - i,
    {
        assert(v@.skip(i as int).skip(1) =~= v@.skip(i + 1));
        i = i + 1;
    }
    proof {
        if i < v@.len() {
            assert(v@.skip(i as int)[0] == v@[i as int]);
        }
    }
    assert(drop_front_punct(v@) == v@.subrange(i as int, v@.len() as int));
    let mut j: usize = v.len();
    while j > i && value_punct(v[j - 1])
        invariant
            i <= j <= v@.len(),
            drop_back_punct(drop_front_punct(v@)) == drop_back_punct(v@.subrange(i as int, j as int)),
        decreases j,
    {
        assert(v@.subrange(i as int, j as int).drop_last() =~= v@.subrange(i as int, j - 1));
        j = j - 1;
    }
    slice_chars(v, i, j)
}

/// Whether a Lua table key is one that a monitor rule reads.
pub open spec fn is_field_key(k: Seq<char>) -> bool {
    k == "output"@ || k == "mode"@ || k == "position"@ || k == "scale"@ || k == "disabled"@
}

/// The field a `KEY = VALUE` piece of a table gives: the key trimmed, the value
/// trimmed, stripped of quotes, `}` and `)`, and trimmed again; none for a
/// piece without `=` or with another key.
pub open spec fn field_of(part: Seq<char>) -> Option<(Seq<char>, Seq<char>)> {
    match char_index_from(part, '=', 0) {
        Some(i) => {
            let key = trim(part.take(i));
            let value = trim(drop_back_punct(drop_front_punct(trim(part.skip(i + 1)))));
            if is_field_key(key) {
                Some((key, value))
            } else {
                None
            }
        },
        None => None,
    }
}

/// The fields of the pieces `parts`, in order.
pub open spec fn fields_of(parts: Seq<Seq<char>>) -> Seq<(Seq<char>, Seq<char>)>
    decreases parts.len(),
{
    if parts.len() == 0 {
        Seq::empty()
    } else {
        let prev = fields_of(parts.drop_last());
        match field_of(parts.last()) {
            Some(f) => prev.push(f),
            None => prev,
        }
    }
}

/// What lies between the first `{` and the last `}` of `s`, or all of `s`
/// where there is no such pair.
pub open spec fn table_body(s: Seq<char>) -> Seq<char> {
    match char_index_from(s, '{', 0) {
        Some(start) => match last_char_index(s, '}') {
            Some(end) => if end > start {
                s.subrange(start + 1, end)
            } else {
                s
            },
            None => s,
        },
        None => s,
    }
}

/// The monitor fields of a Lua call: its comments stripped, its table split at
/// `,`, `;` and newlines.
pub open spec fn spec_lua_table_fields(raw: Seq<char>) -> Seq<(Seq<char>, Seq<char>)> {
    fields_of(split_pieces(table_body(stripped_from(raw, 0)), 3))
}

/// The plain values of a list of fields.
pub open spec fn fields_view(v: Seq<(Vec<char>, Vec<char>)>) -> Seq<(Seq<char>, Seq<char>)> {
    Seq::new(v.len(), |i: int| (v[i].0@, v[i].1@))
}

fn key_is(k: &Vec<char>, name: &str) -> (r: bool)
    ensures
        r == (k@ == name@),
{
    chars_equal(k, &chars_of(name))
}

fn parse_field(part: &Vec<char>) -> (r: Option<(Vec<char>, Vec<char>)>)
    ensures
        match r {
            Some((k, v)) => field_of(part@) == Some((k@, v@)),
            None => field_of(part@) is None,
        },
{
    match find_char(part, '=', 0) {
        Some(i) => {
            proof {
                lemma_char_index_from(part@, '=', 0);
            }
            assert(i < part.len());
            let key = trim_chars(&slice_chars(part, 0, i));
            let rest = slice_chars(part, i + 1, part.len());
            assert(part@.take(i as int) =~= part@.subrange(0, i as int));
            assert(part@.skip(i + 1) =~= rest@);
            let value = trim_chars(&strip_value_punct(&trim_chars(&rest)));
            if key_is(&key, "output") || key_is(&key, "mode") || key_is(&key, "position")
                || key_is(&key, "scale") || key_is(&key, "disabled") {
                Some((key, value))
            } else {
                None
            }
        },
        None => None,
    }
}

/// The monitor fields of the Lua call `raw`, in order.
pub fn parse_lua_table_fields(raw: &Vec<char>) -> (r: Vec<(Vec<char>, Vec<char>)>)
    ensures
        fields_view(r@) == spec_lua_table_fields(raw@),
{
    let cleaned = strip_lua_comments(raw);
    let table = match find_char(&cleaned, '{', 0) {
        Some(start) => match rfind_char(&cleaned, '}') {
            Some(end) => if end > start {
                slice_chars(&cleaned, start + 1, end)
            } else {
                slice_chars(&cleaned, 0, cleaned.len())
            },
            None => slice_chars(&cleaned, 0, cleaned.len()),
        },
        None => slice_chars(&cleaned, 0, cleaned.len()),
    };
    assert(cleaned@.subrange(0, cleaned@.len() as int) =~= cleaned@);
    assert(table@ == table_body(cleaned@));
    let pieces = split_chars(&table, 3);
    let ghost pv = pieces.deep_view();
    let mut fields: Vec<(Vec<char>, Vec<char>)> = Vec::new();
    let mut i: usize = 0;
    while i < pieces.len()
        invariant
            pv == pieces.deep_view(),
            pv == split_pieces(table@, 3),
            0 <= i <= pv.len(),
            fields_view(fields@) == fields_of(pv.take(i as int)),
        decreases pv.len() - i,
    {
        proof {
            lemma_chars_deep_view(pieces@[i as int]);
            assert(pv.take(i + 1).drop_last() =~= pv.take(i as int));
        }
        match parse_field(&pieces[i]) {
            Some(f) => {
                let ghost before = fields@;
                fields.push(f);
                assert(fields_view(fields@) =~= fields_view(before).push((f.0@, f.1@)));
            },
            None => {},
        }
        i = i + 1;
    }
    assert(pv.take(pv.len() as int) =~= pv);
    fields
}


/// No whitespace character is one of the characters the Lua scanner stops at.
proof fn lemma_ws_not_marker(c: char)
    requires
        is_whitespace(c),
    ensures
        c != '-',
        c != '[',
        c != '\'',
        c != '"',
        c != '(',
        c != ')',
        c != '\\',
{
}

/// A run of whitespace leaves the search for the closing parenthesis where it was.
proof fn lemma_ws_run_balanced(s: Seq<char>, a: int, b: int, depth: nat)
    requires
        0 <= a <= b <= s.len(),
        forall|k: int| a <= k < b ==> is_whitespace(#[trigger] s[k]),
    ensures
        balanced_from(s, a, depth) == balanced_from(s, b, depth),
    decreases b - a,
{
    if a < b {
        lemma_ws_not_marker(s[a]);
        reveal_strlit("--[[");
        reveal_strlit("--");
        reveal_strlit("[[");
        assert(!starts_at(s, a, "--[["@)) by {
            if starts_at(s, a, "--[["@) {
                assert(s.subrange(a, a + 4)[0] == s[a]);
            }
        }
        assert(!starts_at(s, a, "--"@)) by {
            if starts_at(s, a, "--"@) {
                assert(s.subrange(a, a + 2)[0] == s[a]);
            }
        }
        assert(!starts_at(s, a, "[["@)) by {
            if starts_at(s, a, "[["@) {
                assert(s.subrange(a, a + 2)[0] == s[a]);
            }
        }
        lemma_ws_run_balanced(s, a + 1, b, depth);
    }
}

/// A quoted string that opens before a run of whitespace ending in `)` does
/// not close inside it.
proof fn lemma_quote_passes_paren(s: Seq<char>, quote: char, a: int, end: int)
    requires
        0 <= a <= end < s.len(),
        quote == '\'' || quote == '"',
        s[end] == ')',
        forall|k: int| a <= k < end ==> is_whitespace(#[trigger] s[k]),
    ensures
        quoted_end(s, quote, a, false) > end,
    decreases end - a,
{
    if a < end {
        lemma_ws_not_marker(s[a]);
        lemma_quote_passes_paren(s, quote, a + 1, end);
    } else {
        lemma_quoted_end(s, quote, end + 1, false);
    }
}

/// Where the closing parenthesis is found, `s` holds a `)`.
proof fn lemma_balanced_is_paren(s: Seq<char>, i: int, depth: nat)
    ensures
        balanced_from(s, i, depth) matches Some(e) ==> 0 <= e < s.len() && s[e] == ')',
    decreases s.len() - i,
{
    if !(i < 0 || i >= s.len()) {
        if starts_at(s, i, "--[["@) {
            if let Some(e) = pattern_from(s, i + 4, "]]"@) {
                if i < e + 2 <= s.len() {
                    lemma_balanced_is_paren(s, e + 2, depth);
                }
            }
        } else if starts_at(s, i, "--"@) {
            if i < after_line(s, i) <= s.len() {
                lemma_balanced_is_paren(s, after_line(s, i), depth);
            }
        } else if starts_at(s, i, "[["@) {
            if let Some(e) = pattern_from(s, i + 2, "]]"@) {
                if i < e + 2 <= s.len() {
                    lemma_balanced_is_paren(s, e + 2, depth);
                }
            }
        } else if s[i] == '\'' || s[i] == '"' {
            if i < skip_quoted(s, i) <= s.len() {
                lemma_balanced_is_paren(s, skip_quoted(s, i), depth);
            }
        } else if s[i] == '(' {
            lemma_balanced_is_paren(s, i + 1, depth + 1);
        } else if s[i] == ')' {
            let d: nat = if depth > 0 {
                (depth - 1) as nat
            } else {
                0
            };
            if d != 0 {
                lemma_balanced_is_paren(s, i + 1, d);
            }
        } else {
            lemma_balanced_is_paren(s, i + 1, depth);
        }
    }
}

/// A call whose `(` is at `open` and closes at `end` never has a single quote
/// character, and nothing else but whitespace, between its parentheses.
proof fn lemma_no_lone_quote(s: Seq<char>, open: int, end: int, p: int)
    requires
        0 <= open < p < end < s.len(),
        s[open] == '(',
        balanced_from(s, open, 0) == Some(end),
    ensures
        !((s[p] == '\'' || s[p] == '"') && forall|k: int|
            open < k < end && k != p ==> is_whitespace(#[trigger] s[k])),
{
    if (s[p] == '\'' || s[p] == '"') && forall|k: int|
        open < k < end && k != p ==> is_whitespace(#[trigger] s[k]) {
        lemma_lone_quote_contradiction(s, open, end, p);
    }
}

proof fn lemma_lone_quote_contradiction(s: Seq<char>, open: int, end: int, p: int)
    requires
        0 <= open < p < end < s.len(),
        s[open] == '(',
        balanced_from(s, open, 0) == Some(end),
        s[p] == '\'' || s[p] == '"',
        forall|k: int| open < k < end && k != p ==> is_whitespace(#[trigger] s[k]),
    ensures
        balanced_from(s, open, 0) != Some(end),
{
    reveal_strlit("--[[");
    reveal_strlit("--");
    reveal_strlit("[[");
    assert(!starts_at(s, open, "--[["@)) by {
        if starts_at(s, open, "--[["@) {
            assert(s.subrange(open, open + 4)[0] == s[open]);
        }
    }
    assert(!starts_at(s, open, "--"@)) by {
        if starts_at(s, open, "--"@) {
            assert(s.subrange(open, open + 2)[0] == s[open]);
        }
    }
    assert(!starts_at(s, open, "[["@)) by {
        if starts_at(s, open, "[["@) {
            assert(s.subrange(open, open + 2)[0] == s[open]);
        }
    }
    assert(balanced_from(s, open, 0) == balanced_from(s, open + 1, 1));
    lemma_ws_run_balanced(s, open + 1, p, 1);
    assert(!starts_at(s, p, "--[["@)) by {
        if starts_at(s, p, "--[["@) {
            assert(s.subrange(p, p + 4)[0] == s[p]);
        }
    }
    assert(!starts_at(s, p, "--"@)) by {
        if starts_at(s, p, "--"@) {
            assert(s.subrange(p, p + 2)[0] == s[p]);
        }
    }
    assert(!starts_at(s, p, "[["@)) by {
        if starts_at(s, p, "[["@) {
            assert(s.subrange(p, p + 2)[0] == s[p]);
        }
    }
    lemma_balanced_is_paren(s, open, 0);
    lemma_quote_passes_paren(s, s[p], p + 1, end);
    let q = skip_quoted(s, p);
    lemma_quoted_end(s, s[p], p + 1, false);
    if p < q <= s.len() {
        lemma_balanced_from(s, q, 1);
        assert(balanced_from(s, p, 1) == balanced_from(s, q, 1));
    } else {
        assert(balanced_from(s, p, 1) is None);
    }
}


/// At a `(` the search for its closing parenthesis starts one level deeper.
proof fn lemma_open_paren(s: Seq<char>, open: int)
    requires
        0 <= open < s.len(),
        s[open] == '(',
    ensures
        balanced_from(s, open, 0) == balanced_from(s, open + 1, 1),
        balanced_from(s, open, 0) matches Some(e) ==> open < e < s.len(),
{
    reveal_strlit("--[[");
    reveal_strlit("--");
    reveal_strlit("[[");
    assert(!starts_at(s, open, "--[["@)) by {
        if starts_at(s, open, "--[["@) {
            assert(s.subrange(open, open + 4)[0] == s[open]);
        }
    }
    assert(!starts_at(s, open, "--"@)) by {
        if starts_at(s, open, "--"@) {
            assert(s.subrange(open, open + 2)[0] == s[open]);
        }
    }
    assert(!starts_at(s, open, "[["@)) by {
        if starts_at(s, open, "[["@) {
            assert(s.subrange(open, open + 2)[0] == s[open]);
        }
    }
    lemma_balanced_from(s, open + 1, 1);
}

/// What a found call looks like in `s`: its name at `start`, ASCII spaces, the
/// `(` and, at `end`, the `)` that closes it.
pub open spec fn call_shape(s: Seq<char>, c: LuaCall) -> bool {
    let after = c.start + call_name(c.kind).len();
    let open = skip_space(s, after);
    &&& starts_at(s, c.start as int, call_name(c.kind))
    &&& after <= open < s.len()
    &&& s[open] == '('
    &&& forall|k: int| after <= k < open ==> is_ascii_space(#[trigger] s[k])
    &&& balanced_from(s, open, 0) == Some(c.end as int)
    &&& open < c.end < s.len()
}

proof fn lemma_skip_space_run(s: Seq<char>, i: int)
    requires
        0 <= i <= s.len(),
    ensures
        forall|k: int| i <= k < skip_space(s, i) ==> is_ascii_space(#[trigger] s[k]),
    decreases s.len() - i,
{
    if !(i < 0 || i >= s.len() || !is_ascii_space(s[i])) {
        lemma_skip_space_run(s, i + 1);
    }
}

/// Every call the scan finds has the shape of a call.
pub proof fn lemma_calls_from_shape(s: Seq<char>, i: int)
    requires
        0 <= i,
        s.len() <= usize::MAX,
    ensures
        forall|k: int| 0 <= k < calls_from(s, i).len() ==> call_shape(s, #[trigger] calls_from(s, i)[k]),
    decreases s.len() - i,
{
    if i < 0 || i >= s.len() {
    } else if starts_at(s, i, "--[["@) {
        if i < after_long_bracket(s, i + 4) <= s.len() {
            lemma_calls_from_shape(s, after_long_bracket(s, i + 4));
            assert(calls_from(s, i) == calls_from(s, after_long_bracket(s, i + 4)));
        }
    } else if starts_at(s, i, "--"@) {
        if i < after_line(s, i) <= s.len() {
            lemma_calls_from_shape(s, after_line(s, i));
            assert(calls_from(s, i) == calls_from(s, after_line(s, i)));
        }
    } else if starts_at(s, i, "[["@) {
        if i < after_long_bracket(s, i + 2) <= s.len() {
            lemma_calls_from_shape(s, after_long_bracket(s, i + 2));
            assert(calls_from(s, i) == calls_from(s, after_long_bracket(s, i + 2)));
        }
    } else if s[i] == '\'' || s[i] == '"' {
        if i < skip_quoted(s, i) <= s.len() {
            lemma_calls_from_shape(s, skip_quoted(s, i));
            assert(calls_from(s, i) == calls_from(s, skip_quoted(s, i)));
        }
    } else {
        match call_at(s, i) {
            None => {
                lemma_calls_from_shape(s, i + 1);
                assert(calls_from(s, i) == calls_from(s, i + 1));
            },
            Some(kind) => {
                let after_name = i + call_name(kind).len();
                let open = skip_space(s, after_name);
                if open >= s.len() || s[open] != '(' {
                    if i < after_name <= s.len() {
                        lemma_calls_from_shape(s, after_name);
                        assert(calls_from(s, i) == calls_from(s, after_name));
                    }
                } else {
                    match balanced_from(s, open, 0) {
                        None => {},
                        Some(end) => if i < end + 1 <= s.len() {
                            lemma_calls_from_shape(s, end + 1);
                            lemma_skip_space(s, after_name);
                            lemma_skip_space_run(s, after_name);
                            lemma_open_paren(s, open);
                            let c = LuaCall { kind, start: i as usize, end: end as usize };
                            assert(call_shape(s, c));
                            let rest = calls_from(s, end + 1);
                            assert(calls_from(s, i) == seq![c] + rest);
                            assert forall|k: int| 0 <= k < calls_from(s, i).len() implies call_shape(
                                s,
                                #[trigger] calls_from(s, i)[k],
                            ) by {
                                if k > 0 {
                                    assert(calls_from(s, i)[k] == rest[k - 1]);
                                }
                            }
                        },
                    }
                }
            },
        }
    }
}


/// A quote character of a Lua string literal.
pub open spec fn is_quote(c: char) -> bool {
    c == '\'' || c == '"'
}

/// The trimmed text between the first `(` of a call and its last character;
/// none without a `(`, when that range is empty-reversed, or when the last
/// character is not ASCII, so that the range would not end on a character
/// boundary of the UTF-8 text.
pub open spec fn call_argument_text(raw: Seq<char>) -> Option<Seq<char>> {
    match char_index_from(raw, '(', 0) {
        None => None,
        Some(open) => if open + 1 > raw.len() - 1 || (raw.last() as u32) >= 128 {
            None
        } else {
            Some(trim(raw.subrange(open + 1, raw.len() - 1)))
        },
    }
}

/// Whether the argument of a call is a single quote character and nothing
/// else, which the argument reader cannot take apart.
pub open spec fn lone_quote_argument(raw: Seq<char>) -> bool {
    call_argument_text(raw) matches Some(v) && v.len() == 1 && is_quote(v[0])
}

/// What an escaped character stands for: `\n`, `\r`, `\t`, or itself.
pub open spec fn escape_target(c: char) -> char {
    if c == 'n' {
        '\n'
    } else if c == 'r' {
        '\r'
    } else if c == 't' {
        '\t'
    } else {
        c
    }
}

/// The characters read so far from the inside of a string literal, and
/// whether a backslash waits for the next one.
pub open spec fn unescape_state(s: Seq<char>) -> (Seq<char>, bool)
    decreases s.len(),
{
    if s.len() == 0 {
        (Seq::empty(), false)
    } else {
        let (out, esc) = unescape_state(s.drop_last());
        let c = s.last();
        if esc {
            (out.push(escape_target(c)), false)
        } else if c == '\\' {
            (out, true)
        } else {
            (out.push(c), false)
        }
    }
}

/// The inside of a string literal read: a backslash escapes the next
/// character, and a backslash at the very end stays.
pub open spec fn unescaped(s: Seq<char>) -> Seq<char> {
    let (out, esc) = unescape_state(s);
    if esc {
        out.push('\\')
    } else {
        out
    }
}

/// The string a call such as `dofile("x")` takes, when its only argument is
/// a quoted literal.
pub open spec fn spec_literal_call_argument(raw: Seq<char>) -> Option<Seq<char>> {
    match call_argument_text(raw) {
        Some(v) => if v.len() >= 2 && is_quote(v[0]) && v.last() == v[0] {
            Some(unescaped(v.subrange(1, v.len() - 1)))
        } else {
            None
        },
        None => None,
    }
}

pub fn parse_literal_lua_call_argument(raw: &Vec<char>) -> (r: Option<String>)
    requires
        !lone_quote_argument(raw@),
    ensures
        r.deep_view() == spec_literal_call_argument(raw@),
{
    let open = match find_char(raw, '(', 0) {
        Some(o) => o,
        None => return None,
    };
    assert(open < raw.len());
    let hi = raw.len() - 1;
    if open + 1 > hi {
        return None;
    }
    if (raw[hi] as u32) >= 128 {
        return None;
    }
    let value = trim_chars(&slice_chars(raw, open + 1, hi));
    if value.len() == 0 {
        return None;
    }
    let q = value[0];
    if !(q == '\'' || q == '"') || value[value.len() - 1] != q {
        return None;
    }
    assert(value@.len() >= 2);
    let last = value.len() - 1;
    let mut out = String::new();
    let mut escaped = false;
    let mut i: usize = 1;
    assert(value@.subrange(1, 1) =~= Seq::<char>::empty());
    while i < last
        invariant
            1 <= i <= last,
            last == value@.len() - 1,
            (out@, escaped) == unescape_state(value@.subrange(1, i as int)),
        decreases last - i,
    {
        let c = value[i];
        proof {
            assert(value@.subrange(1, i + 1).drop_last() =~= value@.subrange(1, i as int));
            assert(value@.subrange(1, i + 1).last() == c);
        }
        if escaped {
            let t = if c == 'n' {
                '\n'
            } else if c == 'r' {
                '\r'
            } else if c == 't' {
                '\t'
            } else {
                c
            };
            crate::text::push_char(&mut out, t);
            escaped = false;
        } else if c == '\\' {
            escaped = true;
        } else {
            crate::text::push_char(&mut out, c);
        }
        i = i + 1;
    }
    if escaped {
        crate::text::push_char(&mut out, '\\');
    }
    Some(out)
}

/// The value of the first field named `key` from index `i` on.
pub open spec fn first_value(fields: Seq<(Seq<char>, Seq<char>)>, key: Seq<char>, i: int) -> Option<
    Seq<char>,
>
    decreases fields.len() - i,
{
    if i < 0 || i >= fields.len() {
        None
    } else if fields[i].0 == key {
        Some(fields[i].1)
    } else {
        first_value(fields, key, i + 1)
    }
}

/// Whether the fields hold `disabled = true`.
pub open spec fn disabled_flag(fields: Seq<(Seq<char>, Seq<char>)>) -> bool {
    exists|i: int| 0 <= i < fields.len() && #[trigger] fields[i] == ("disabled"@, "true"@)
}

/// The rule an `hl.monitor` call at `start..=end` of `contents` gives: it
/// needs an `output`, and a `mode` or `disabled = true`; its line is one past
/// the newlines before it.
pub open spec fn spec_parse_lua_monitor_rule(
    path: Seq<char>,
    contents: Seq<char>,
    start: int,
    end: int,
) -> Option<MonitorRuleView> {
    let raw = contents.subrange(start, end + 1);
    let fields = spec_lua_table_fields(raw);
    match first_value(fields, "output"@, 0) {
        None => None,
        Some(connector) => {
            let mode = match first_value(fields, "mode"@, 0) {
                Some(m) => Some(m),
                None => if disabled_flag(fields) {
                    Some("disabled"@)
                } else {
                    None
                },
            };
            match mode {
                None => None,
                Some(mode) => Some(
                    MonitorRuleView {
                        path,
                        line_number: (newlines_of(contents.take(start)).len() + 1) as usize,
                        raw,
                        connector,
                        mode,
                        position: first_value(fields, "position"@, 0),
                        scale: first_value(fields, "scale"@, 0),
                    },
                ),
            }
        },
    }
}

fn find_value(fields: &Vec<(Vec<char>, Vec<char>)>, key: &str) -> (r: Option<String>)
    ensures
        r.deep_view() == first_value(fields_view(fields@), key@, 0),
{
    let k = chars_of(key);
    let mut i: usize = 0;
    while i < fields.len()
        invariant
            k@ == key@,
            i <= fields@.len(),
            first_value(fields_view(fields@), key@, 0) == first_value(fields_view(fields@), key@, i as int),
        decreases fields@.len() - i,
    {
        if chars_equal(&fields[i].0, &k) {
            return Some(string_of(&fields[i].1));
        }
        i = i + 1;
    }
    None
}

fn has_disabled_flag(fields: &Vec<(Vec<char>, Vec<char>)>) -> (r: bool)
    ensures
        r == disabled_flag(fields_view(fields@)),
{
    let d = chars_of("disabled");
    let t = chars_of("true");
    let ghost fv = fields_view(fields@);
    let mut i: usize = 0;
    while i < fields.len()
        invariant
            d@ == "disabled"@,
            t@ == "true"@,
            fv == fields_view(fields@),
            i <= fields@.len(),
            forall|j: int| 0 <= j < i ==> #[trigger] fv[j] != ("disabled"@, "true"@),
        decreases fields@.len() - i,
    {
        if chars_equal(&fields[i].0, &d) && chars_equal(&fields[i].1, &t) {
            assert(fv[i as int] == ("disabled"@, "true"@));
            return true;
        }
        assert(fv[i as int] != ("disabled"@, "true"@));
        i = i + 1;
    }
    false
}

/// How many newlines `s[..to]` holds.
fn count_newlines(s: &Vec<char>, to: usize) -> (r: usize)
    requires
        to <= s@.len(),
    ensures
        r == newlines_of(s@.take(to as int)).len(),
        r <= to,
{
    let mut count: usize = 0;
    let mut i: usize = 0;
    while i < to
        invariant
            i <= to <= s@.len(),
            count <= i,
            count == newlines_of(s@.take(i as int)).len(),
        decreases to - i,
    {
        assert(s@.take(i + 1).drop_last() =~= s@.take(i as int));
        if s[i] == '\n' {
            count = count + 1;
        }
        i = i + 1;
    }
    count
}

pub fn parse_lua_monitor_rule(path: &str, contents: &Vec<char>, start: usize, end: usize) -> (r:
    Option<MonitorRule>)
    requires
        start <= end < contents@.len(),
    ensures
        r.deep_view() == spec_parse_lua_monitor_rule(path@, contents@, start as int, end as int),
{
    assert(end < contents.len());
    let raw = slice_chars(contents, start, end + 1);
    let fields = parse_lua_table_fields(&raw);
    let connector = match find_value(&fields, "output") {
        Some(c) => c,
        None => return None,
    };
    let mode = match find_value(&fields, "mode") {
        Some(m) => m,
        None => {
            if has_disabled_flag(&fields) {
                String::from_str("disabled")
            } else {
                return None;
            }
        },
    };
    let line_number = count_newlines(contents, start) + 1;
    Some(
        MonitorRule {
            path: String::from_str(path),
            line_number,
            raw: string_of(&raw),
            connector,
            mode,
            position: find_value(&fields, "position"),
            scale: find_value(&fields, "scale"),
        },
    )
}


proof fn lemma_char_index_exact(s: Seq<char>, c: char, from: int, j: int)
    requires
        0 <= from <= j < s.len(),
        s[j] == c,
        forall|k: int| from <= k < j ==> #[trigger] s[k] != c,
    ensures
        char_index_from(s, c, from) == Some(j),
    decreases j - from,
{
    if from < j {
        lemma_char_index_exact(s, c, from + 1, j);
    }
}

/// The argument of a found call is never a lone quote character.
pub proof fn lemma_shape_no_lone_quote(s: Seq<char>, c: LuaCall)
    requires
        call_shape(s, c),
    ensures
        !lone_quote_argument(s.subrange(c.start as int, c.end + 1)),
{
    let start = c.start as int;
    let end = c.end as int;
    let name = call_name(c.kind);
    let after = start + name.len();
    let open = skip_space(s, after);
    let raw = s.subrange(start, end + 1);
    reveal_strlit("hl.monitor");
    reveal_strlit("dofile");
    reveal_strlit("require");
    assert forall|k: int| 0 <= k < name.len() implies #[trigger] name[k] != '(' by {
        match c.kind {
            LuaCallKind::Monitor => {},
            LuaCallKind::DoFile => {},
            LuaCallKind::Require => {},
        }
    }
    assert forall|k: int| 0 <= k < open - start implies #[trigger] raw[k] != '(' by {
        if k < name.len() {
            assert(raw[k] == s.subrange(start, start + name.len())[k]);
        } else {
            assert(raw[k] == s[start + k]);
            assert(is_ascii_space(s[start + k]));
        }
    }
    lemma_char_index_exact(raw, '(', 0, open - start);
    lemma_balanced_is_paren(s, open, 0);
    assert(raw.last() == ')');
    let x = s.subrange(open + 1, end);
    assert(raw.subrange(open - start + 1, raw.len() - 1) =~= x);
    if lone_quote_argument(raw) {
        lemma_leading_ws_bound(x);
        let a = leading_ws(x) as int;
        let t = x.skip(a);
        lemma_trailing_ws_bound(t);
        let b = trailing_ws(t) as int;
        assert(trim(x) == t.take(t.len() - b));
        assert(t.len() - b == 1);
        let p = open + 1 + a;
        assert(s[p] == x[a]);
        assert(trim(x)[0] == x[a]);
        assert forall|k: int| open < k < end && k != p implies is_whitespace(#[trigger] s[k]) by {
            assert(s[k] == x[k - open - 1]);
            if k < p {
                assert(is_whitespace(x[k - open - 1]));
            } else {
                assert(x[k - open - 1] == t[k - open - 1 - a]);
                assert(is_whitespace(t[k - open - 1 - a]));
            }
        }
        lemma_no_lone_quote(s, open, end, p);
    }
}


/// The first `hl.monitor` call among `calls` from index `i` on.
pub open spec fn first_monitor_call(calls: Seq<LuaCall>, i: int) -> Option<LuaCall>
    decreases calls.len() - i,
{
    if i < 0 || i >= calls.len() {
        None
    } else if calls[i].kind == LuaCallKind::Monitor {
        Some(calls[i])
    } else {
        first_monitor_call(calls, i + 1)
    }
}

/// An expected rule in its normalized form, from a `monitor=` line or from
/// the first `hl.monitor` call of a Lua snippet.
pub open spec fn spec_normalize_monitor_rule(rule: Seq<char>) -> Option<Seq<char>> {
    let r = trim(rule);
    let from_lua = match first_monitor_call(calls_from(r, 0), 0) {
        Some(c) => match spec_parse_lua_monitor_rule("<expected>"@, r, c.start as int, c.end as int) {
            Some(p) => Some(normalized(p)),
            None => None,
        },
        None => None,
    };
    match spec_parse_assignment(r) {
        Some((k, v)) => if k == "monitor"@ {
            match spec_parse_monitor_rule("<expected>"@, 1, r, v) {
                Some(p) => Some(normalized(p)),
                None => None,
            }
        } else {
            from_lua
        },
        None => from_lua,
    }
}

pub fn normalize_monitor_rule(rule: &str) -> (r: Option<String>)
    ensures
        r.deep_view() == spec_normalize_monitor_rule(rule@),
{
    let trimmed = trim_chars(&chars_of(rule));
    let text = string_of(&trimmed);
    if let Some((key, value)) = parse_assignment(&trimmed) {
        if key_is(&key, "monitor") {
            let v = string_of(&value);
            return match parse_monitor_rule("<expected>", 1, text.as_str(), v.as_str()) {
                Some(p) => Some(p.normalized_rule()),
                None => None,
            };
        }
    }
    let calls = find_lua_calls(&trimmed);
    proof {
        lemma_calls_from_shape(trimmed@, 0);
    }
    let mut i: usize = 0;
    while i < calls.len()
        invariant
            calls@ == calls_from(trimmed@, 0),
            i <= calls@.len(),
            first_monitor_call(calls@, 0) == first_monitor_call(calls@, i as int),
            forall|k: int| 0 <= k < calls@.len() ==> call_shape(trimmed@, #[trigger] calls@[k]),
            trimmed@ == trim(rule@),
            match spec_parse_assignment(trimmed@) {
                Some((k, v)) => k != "monitor"@,
                None => true,
            },
        decreases calls@.len() - i,
    {
        if calls[i].kind == LuaCallKind::Monitor {
            assert(call_shape(trimmed@, calls@[i as int]));
            assert(first_monitor_call(calls@, 0) == Some(calls@[i as int]));
            return match parse_lua_monitor_rule("<expected>", &trimmed, calls[i].start, calls[i].end) {
                Some(p) => Some(p.normalized_rule()),
                None => None,
            };
        }
        i = i + 1;
    }
    None
}


// ---------------------------------------------------------------------------
// What a config file asks for, and which rule wins
// ---------------------------------------------------------------------------

/// What one line of hyprland.conf, or one call of hyprland.lua, asks of the
/// reader: a rule to record, a dynamic rule to warn about (by its line), or
/// another file to read (`source =`, `dofile(...)`, `require(...)`).
#[derive(Debug, Clone, PartialEq, Eq)]
pub enum ConfigDirective {
    Rule(MonitorRule),
    DynamicRule(usize),
    Source(String),
    DoFile(String),
    Require(String),
}

/// A directive as plain values.
pub enum DirectiveView {
    Rule(MonitorRuleView),
    DynamicRule(usize),
    Source(Seq<char>),
    DoFile(Seq<char>),
    Require(Seq<char>),
}

impl DeepView for ConfigDirective {
    type V = DirectiveView;

    open spec fn deep_view(&self) -> DirectiveView {
        match self {
            ConfigDirective::Rule(r) => DirectiveView::Rule(r.deep_view()),
            ConfigDirective::DynamicRule(n) => DirectiveView::DynamicRule(*n),
            ConfigDirective::Source(v) => DirectiveView::Source(v@),
            ConfigDirective::DoFile(v) => DirectiveView::DoFile(v@),
            ConfigDirective::Require(v) => DirectiveView::Require(v@),
        }
    }
}

/// What line `line_number` of hyprland.conf asks: a `monitor =` rule, a
/// warning for a monitor value that uses a variable, or a `source =` file.
pub open spec fn conf_line_directive(path: Seq<char>, line_number: usize, line: Seq<char>) -> Option<
    DirectiveView,
> {
    match spec_parse_assignment(line) {
        None => None,
        Some((k, v)) => if k == "monitor"@ {
            match spec_parse_monitor_rule(path, line_number, line, v) {
                Some(rule) => Some(DirectiveView::Rule(rule)),
                None => if v.contains('$') {
                    Some(DirectiveView::DynamicRule(line_number))
                } else {
                    None
                },
            }
        } else if k == "source"@ {
            Some(DirectiveView::Source(v))
        } else {
            None
        },
    }
}

/// The directives of the lines `lines`, numbered from one.
pub open spec fn conf_directives(path: Seq<char>, lines: Seq<Seq<char>>) -> Seq<DirectiveView>
    decreases lines.len(),
{
    if lines.len() == 0 {
        Seq::empty()
    } else {
        let prev = conf_directives(path, lines.drop_last());
        match conf_line_directive(path, lines.len() as usize, lines.last()) {
            Some(d) => prev.push(d),
            None => prev,
        }
    }
}

/// What a call of hyprland.lua asks: an `hl.monitor` rule, or a file named by
/// a literal `dofile` or `require` argument.
pub open spec fn lua_call_directive(path: Seq<char>, contents: Seq<char>, c: LuaCall) -> Option<
    DirectiveView,
> {
    let raw = contents.subrange(c.start as int, c.end + 1);
    match c.kind {
        LuaCallKind::Monitor => match spec_parse_lua_monitor_rule(
            path,
            contents,
            c.start as int,
            c.end as int,
        ) {
            Some(rule) => Some(DirectiveView::Rule(rule)),
            None => None,
        },
        LuaCallKind::DoFile => match spec_literal_call_argument(raw) {
            Some(v) => Some(DirectiveView::DoFile(v)),
            None => None,
        },
        LuaCallKind::Require => match spec_literal_call_argument(raw) {
            Some(v) => Some(DirectiveView::Require(v)),
            None => None,
        },
    }
}

/// The directives of the calls `calls`, in order.
pub open spec fn lua_directives(path: Seq<char>, contents: Seq<char>, calls: Seq<LuaCall>) -> Seq<
    DirectiveView,
>
    decreases calls.len(),
{
    if calls.len() == 0 {
        Seq::empty()
    } else {
        let prev = lua_directives(path, contents, calls.drop_last());
        match lua_call_directive(path, contents, calls.last()) {
            Some(d) => prev.push(d),
            None => prev,
        }
    }
}

/// The directives of a config file: its calls for a `.lua` file, its lines
/// otherwise. The lines are the pieces between newlines: the `\r` that
/// `str::lines` takes off a line end is whitespace, which every use trims, and
/// the empty piece after a final newline holds no assignment.
pub open spec fn spec_config_directives(path: Seq<char>, contents: Seq<char>) -> Seq<DirectiveView> {
    if has_lua_extension(path) {
        lua_directives(path, contents, calls_from(contents, 0))
    } else {
        conf_directives(path, split_pieces(contents, 2))
    }
}

proof fn lemma_directives_deep_view(v: Seq<ConfigDirective>, d: ConfigDirective)
    ensures
        v.push(d).map_values(|x: ConfigDirective| x.deep_view()) =~= v.map_values(
            |x: ConfigDirective| x.deep_view(),
        ).push(d.deep_view()),
{
}

fn conf_file_directives(path: &str, contents: &Vec<char>) -> (r: Vec<ConfigDirective>)
    ensures
        r.deep_view() == conf_directives(path@, split_pieces(contents@, 2)),
{
    let lines = split_chars(contents, 2);
    let ghost lv = lines.deep_view();
    let mut out: Vec<ConfigDirective> = Vec::new();
    let mut i: usize = 0;
    while i < lines.len()
        invariant
            lv == lines.deep_view(),
            lv == split_pieces(contents@, 2),
            i <= lv.len(),
            out.deep_view() == conf_directives(path@, lv.take(i as int)),
        decreases lv.len() - i,
    {
        proof {
            lemma_chars_deep_view(lines@[i as int]);
            assert(lv.take(i + 1).drop_last() =~= lv.take(i as int));
        }
        let line_number = i + 1;
        let ghost before = out@;
        let line = &lines[i];
        match parse_assignment(line) {
            Some((key, value)) => {
                if key_is(&key, "monitor") {
                    let raw = string_of(line);
                    let v = string_of(&value);
                    match parse_monitor_rule(path, line_number, raw.as_str(), v.as_str()) {
                        Some(rule) => {
                            out.push(ConfigDirective::Rule(rule));
                        },
                        None => {
                            if has_char(&value, '$') {
                                out.push(ConfigDirective::DynamicRule(line_number));
                            }
                        },
                    }
                } else if key_is(&key, "source") {
                    out.push(ConfigDirective::Source(string_of(&value)));
                }
            },
            None => {},
        }
        proof {
            if out@.len() > before.len() {
                lemma_directives_deep_view(before, out@.last());
                assert(out@ =~= before.push(out@.last()));
            } else {
                assert(out@ =~= before);
            }
        }
        i = i + 1;
    }
    assert(lv.take(lv.len() as int) =~= lv);
    out
}

fn lua_file_directives(path: &str, contents: &Vec<char>) -> (r: Vec<ConfigDirective>)
    ensures
        r.deep_view() == lua_directives(path@, contents@, calls_from(contents@, 0)),
{
    let calls = find_lua_calls(contents);
    let n = contents.len();
    proof {
        assert(contents@.len() == n);
        lemma_calls_from_shape(contents@, 0);
    }
    let mut out: Vec<ConfigDirective> = Vec::new();
    let mut i: usize = 0;
    while i < calls.len()
        invariant
            calls@ == calls_from(contents@, 0),
            forall|k: int| 0 <= k < calls@.len() ==> call_shape(contents@, #[trigger] calls@[k]),
            i <= calls@.len(),
            out.deep_view() == lua_directives(path@, contents@, calls@.take(i as int)),
        decreases calls@.len() - i,
    {
        let c = calls[i];
        proof {
            assert(calls@.take(i + 1).drop_last() =~= calls@.take(i as int));
            assert(call_shape(contents@, c));
            lemma_shape_no_lone_quote(contents@, c);
        }
        assert(c.end < contents.len());
        let ghost before = out@;
        match c.kind {
            LuaCallKind::Monitor => {
                match parse_lua_monitor_rule(path, contents, c.start, c.end) {
                    Some(rule) => out.push(ConfigDirective::Rule(rule)),
                    None => {},
                }
            },
            LuaCallKind::DoFile => {
                let raw = c.raw(contents);
                match parse_literal_lua_call_argument(&raw) {
                    Some(v) => out.push(ConfigDirective::DoFile(v)),
                    None => {},
                }
            },
            LuaCallKind::Require => {
                let raw = c.raw(contents);
                match parse_literal_lua_call_argument(&raw) {
                    Some(v) => out.push(ConfigDirective::Require(v)),
                    None => {},
                }
            },
        }
        proof {
            if out@.len() > before.len() {
                lemma_directives_deep_view(before, out@.last());
                assert(out@ =~= before.push(out@.last()));
            } else {
                assert(out@ =~= before);
            }
        }
        i = i + 1;
    }
    assert(calls@.take(calls@.len() as int) =~= calls@);
    out
}

/// What a config file asks for, in order; `path` decides between the Lua and
/// the line syntax and is recorded in each rule.
pub fn parse_config_file(path: &str, contents: &str) -> (r: Vec<ConfigDirective>)
    ensures
        r.deep_view() == spec_config_directives(path@, contents@),
{
    let chars = chars_of(contents);
    if lua_path(path) {
        lua_file_directives(path, &chars)
    } else {
        conf_file_directives(path, &chars)
    }
}


/// The rules, files and warnings that reading a config and everything it
/// includes gave, in the order Hyprland reads them.
pub struct ConfigScan {
    pub root_path: String,
    pub files_read: usize,
    pub monitor_rules: Vec<MonitorRule>,
    pub read_warnings: Vec<String>,
}

/// The rules of `rules` for `connector`, in order.
pub open spec fn rules_for(rules: Seq<MonitorRuleView>, connector: Seq<char>) -> Seq<MonitorRuleView>
    decreases rules.len(),
{
    if rules.len() == 0 {
        Seq::empty()
    } else {
        let prev = rules_for(rules.drop_last(), connector);
        if rules.last().connector == connector {
            prev.push(rules.last())
        } else {
            prev
        }
    }
}

/// The last rule of `rules` whose normalized form is `expected`.
pub open spec fn last_matching(rules: Seq<MonitorRuleView>, expected: Seq<char>) -> Option<
    MonitorRuleView,
>
    decreases rules.len(),
{
    if rules.len() == 0 {
        None
    } else if normalized(rules.last()) == expected {
        Some(rules.last())
    } else {
        last_matching(rules.drop_last(), expected)
    }
}

/// The rule that matches the expected one, if the expected rule can be read
/// at all.
pub open spec fn exact_rule(rules: Seq<MonitorRuleView>, expected_rule: Seq<char>) -> Option<
    MonitorRuleView,
> {
    match spec_normalize_monitor_rule(expected_rule) {
        Some(e) => last_matching(rules, e),
        None => None,
    }
}

/// The last rule of a list, which is the one Hyprland applies.
pub open spec fn last_rule(rules: Seq<MonitorRuleView>) -> Option<MonitorRuleView> {
    if rules.len() == 0 {
        None
    } else {
        Some(rules.last())
    }
}

fn copy_rule(r: &MonitorRule) -> (c: MonitorRule)
    ensures
        c.deep_view() == r.deep_view(),
{
    MonitorRule {
        path: r.path.clone(),
        line_number: r.line_number,
        raw: r.raw.clone(),
        connector: r.connector.clone(),
        mode: r.mode.clone(),
        position: match &r.position {
            Some(p) => Some(p.clone()),
            None => None,
        },
        scale: match &r.scale {
            Some(s) => Some(s.clone()),
            None => None,
        },
    }
}

/// Which rules of a scan concern `connector`, the last one that matches the
/// expected rule, and the last one of all, which Hyprland applies.
pub fn inspect_monitor_rule(scan: ConfigScan, connector: &str, expected_rule: &str) -> (r:
    MonitorRuleInspection)
    ensures
        r.root_path@ == scan.root_path@,
        r.expected_rule@ == expected_rule@,
        r.files_read == scan.files_read,
        r.connector_rules.deep_view() == rules_for(scan.monitor_rules.deep_view(), connector@),
        r.exact_match.deep_view() == exact_rule(
            rules_for(scan.monitor_rules.deep_view(), connector@),
            expected_rule@,
        ),
        r.last_connector_rule.deep_view() == last_rule(
            rules_for(scan.monitor_rules.deep_view(), connector@),
        ),
        r.read_warnings@ == scan.read_warnings@,
{
    let expected = normalize_monitor_rule(expected_rule);
    let ghost all = scan.monitor_rules.deep_view();
    let mut connector_rules: Vec<MonitorRule> = Vec::new();
    let mut exact_match: Option<MonitorRule> = None;
    let mut last_connector_rule: Option<MonitorRule> = None;
    let mut i: usize = 0;
    while i < scan.monitor_rules.len()
        invariant
            all == scan.monitor_rules.deep_view(),
            i <= all.len(),
            expected.deep_view() == spec_normalize_monitor_rule(expected_rule@),
            connector_rules.deep_view() == rules_for(all.take(i as int), connector@),
            exact_match.deep_view() == exact_rule(rules_for(all.take(i as int), connector@), expected_rule@),
            last_connector_rule.deep_view() == last_rule(rules_for(all.take(i as int), connector@)),
        decreases all.len() - i,
    {
        let rule = &scan.monitor_rules[i];
        proof {
            assert(all.take(i + 1).drop_last() =~= all.take(i as int));
            assert(all.take(i + 1).last() == rule.deep_view());
        }
        if str_equal(rule.connector.as_str(), connector) {
            let ghost before = connector_rules.deep_view();
            connector_rules.push(copy_rule(rule));
            assert(connector_rules.deep_view() =~= before.push(rule.deep_view()));
            assert(rules_for(all.take(i + 1), connector@) == before.push(rule.deep_view()));
            assert(before.push(rule.deep_view()).drop_last() =~= before);
            last_connector_rule = Some(copy_rule(rule));
            match &expected {
                Some(e) => {
                    let n = rule.normalized_rule();
                    if str_equal(n.as_str(), e.as_str()) {
                        exact_match = Some(copy_rule(rule));
                    }
                    assert(spec_normalize_monitor_rule(expected_rule@) == Some(e@));
                },
                None => {},
            }
        }
        i = i + 1;
    }
    assert(all.take(all.len() as int) =~= all);
    MonitorRuleInspection {
        root_path: scan.root_path,
        expected_rule: String::from_str(expected_rule),
        files_read: scan.files_read,
        connector_rules,
        exact_match,
        last_connector_rule,
        read_warnings: scan.read_warnings,
    }
}

/// Every rule of a scan for `connector`, with no expected rule to match.
pub fn inspect_connector_rules(scan: ConfigScan, connector: &str) -> (r: MonitorRuleInspection)
    ensures
        r.root_path@ == scan.root_path@,
        r.files_read == scan.files_read,
        r.connector_rules.deep_view() == rules_for(scan.monitor_rules.deep_view(), connector@),
        r.exact_match.deep_view() == exact_rule(
            rules_for(scan.monitor_rules.deep_view(), connector@),
            "__drmcru_no_expected_rule__"@,
        ),
        r.last_connector_rule.deep_view() == last_rule(
            rules_for(scan.monitor_rules.deep_view(), connector@),
        ),
        r.read_warnings@ == scan.read_warnings@,
{
    inspect_monitor_rule(scan, connector, "__drmcru_no_expected_rule__")
}


/// Whether a path holds a `*` or `?` wildcard.
pub fn path_contains_simple_glob(path: &str) -> (r: bool)
    ensures
        r == (path@.contains('*') || path@.contains('?')),
{
    let chars = chars_of(path);
    has_char(&chars, '*') || has_char(&chars, '?')
}

/// Whether a path holds a `[` or `]`, a glob form the reader does not expand.
pub fn path_contains_unsupported_glob(path: &str) -> (r: bool)
    ensures
        r == (path@.contains('[') || path@.contains(']')),
{
    let chars = chars_of(path);
    has_char(&chars, '[') || has_char(&chars, ']')
}

/// How a `source =` path is to be read.
#[derive(Debug, Clone, Copy, PartialEq, Eq, Structural)]
pub enum SourceKind {
    /// It holds `[` or `]`: skipped with a warning.
    Unsupported,
    /// It names one file.
    Plain,
    /// It holds `*` or `?`: the matching files are read, sorted.
    Glob,
}

pub open spec fn spec_source_kind(path: Seq<char>) -> SourceKind {
    if path.contains('[') || path.contains(']') {
        SourceKind::Unsupported
    } else if path.contains('*') || path.contains('?') {
        SourceKind::Glob
    } else {
        SourceKind::Plain
    }
}

pub fn source_kind(path: &str) -> (r: SourceKind)
    ensures
        r == spec_source_kind(path@),
{
    if path_contains_unsupported_glob(path) {
        SourceKind::Unsupported
    } else if path_contains_simple_glob(path) {
        SourceKind::Glob
    } else {
        SourceKind::Plain
    }
}

/// `'VALUE' from SHOWN`, the part of a source warning that names the source.
pub open spec fn source_origin(value: Seq<char>, shown_including: Seq<char>) -> Seq<char> {
    "'"@ + value + "' from "@ + shown_including
}

/// The files a `source = VALUE` line of the file shown as `shown_including`
/// reads, once its path is `path` and, for a glob, `matches` holds what
/// expanding it gave; and the warning it leaves, if any.
pub open spec fn spec_resolve_source_paths(
    value: Seq<char>,
    shown_including: Seq<char>,
    path: Seq<char>,
    matches: Result<Seq<Seq<char>>, Seq<char>>,
) -> (Seq<Seq<char>>, Option<Seq<char>>) {
    match spec_source_kind(path) {
        SourceKind::Unsupported => (
            Seq::empty(),
            Some("Skipped unsupported glob source "@ + source_origin(value, shown_including)),
        ),
        SourceKind::Plain => (seq![path], None),
        SourceKind::Glob => match matches {
            Ok(paths) => if paths.len() > 0 {
                (paths, None)
            } else {
                (
                    Seq::empty(),
                    Some("Source glob "@ + source_origin(value, shown_including) + " matched no files"@),
                )
            },
            Err(e) => (
                Seq::empty(),
                Some("Could not expand source glob "@ + source_origin(value, shown_including) + ": "@ + e),
            ),
        },
    }
}

fn push_source_origin(s: &mut String, value: &str, shown_including: &str)
    ensures
        final(s)@ == old(s)@ + source_origin(value@, shown_including@),
{
    push_str(s, "'");
    push_str(s, value);
    push_str(s, "' from ");
    push_str(s, shown_including);
    assert(s@ =~= old(s)@ + source_origin(value@, shown_including@));
}

pub fn resolve_source_paths(
    value: &str,
    shown_including: &str,
    path: &str,
    matches: Result<Vec<String>, String>,
) -> (r: (Vec<String>, Option<String>))
    ensures
        (r.0.deep_view(), r.1.deep_view()) == spec_resolve_source_paths(
            value@,
            shown_including@,
            path@,
            match matches {
                Ok(p) => Ok(p.deep_view()),
                Err(e) => Err(e@),
            },
        ),
{
    match source_kind(path) {
        SourceKind::Unsupported => {
            let mut w = String::from_str("Skipped unsupported glob source ");
            push_source_origin(&mut w, value, shown_including);
            let v: Vec<String> = Vec::new();
            assert(v.deep_view() =~= Seq::<Seq<char>>::empty());
            (v, Some(w))
        },
        SourceKind::Plain => {
            let mut v: Vec<String> = Vec::new();
            v.push(String::from_str(path));
            assert(v.deep_view() =~= seq![path@]);
            (v, None)
        },
        SourceKind::Glob => match matches {
            Ok(paths) => {
                if paths.len() > 0 {
                    (paths, None)
                } else {
                    let mut w = String::from_str("Source glob ");
                    push_source_origin(&mut w, value, shown_including);
                    push_str(&mut w, " matched no files");
                    assert(paths.deep_view() =~= Seq::<Seq<char>>::empty());
                    (paths, Some(w))
                }
            },
            Err(e) => {
                let mut w = String::from_str("Could not expand source glob ");
                push_source_origin(&mut w, value, shown_including);
                push_str(&mut w, ": ");
                push_str(&mut w, e.as_str());
                let v: Vec<String> = Vec::new();
                assert(v.deep_view() =~= Seq::<Seq<char>>::empty());
                (v, Some(w))
            },
        },
    }
}

/// The warning for a file that could not be read.
pub fn read_warning(shown_path: &str, error: &str) -> (r: String)
    ensures
        r@ == "Could not read "@ + shown_path@ + ": "@ + error@,
{
    let mut w = String::from_str("Could not read ");
    push_str(&mut w, shown_path);
    push_str(&mut w, ": ");
    push_str(&mut w, error);
    w
}

/// The warning for a `monitor =` line that uses a variable.
pub fn dynamic_rule_warning(shown_path: &str, line_number: usize) -> (r: String)
    ensures
        r@ == "Skipped dynamic monitor rule at "@ + shown_path@ + seq![':'] + decimal(
            line_number as nat,
        ),
{
    let mut w = String::from_str("Skipped dynamic monitor rule at ");
    push_str(&mut w, shown_path);
    push_str(&mut w, ":");
    push_decimal(&mut w, line_number as u64);
    proof {
        reveal_strlit(":");
    }
    assert(w@ =~= "Skipped dynamic monitor rule at "@ + shown_path@ + seq![':'] + decimal(
        line_number as nat,
    ));
    w
}

/// `module` with its dots as path separators.
pub open spec fn dots_to_slashes(module: Seq<char>) -> Seq<char> {
    Seq::new(module.len(), |i: int| if module[i] == '.' { '/' } else { module[i] })
}

/// The relative path, without extension, that `require(MODULE)` looks for:
/// none for an empty module or one that holds a path separator.
pub open spec fn spec_lua_module_path(module: Seq<char>) -> Option<Seq<char>> {
    if module.len() == 0 || module.contains('/') || module.contains('\\') {
        None
    } else {
        Some(dots_to_slashes(module))
    }
}

pub fn lua_module_path(module: &str) -> (r: Option<String>)
    ensures
        r.deep_view() == spec_lua_module_path(module@),
{
    let chars = chars_of(module);
    if chars.len() == 0 || has_char(&chars, '/') || has_char(&chars, '\\') {
        return None;
    }
    let mut out = String::new();
    let mut i: usize = 0;
    while i < chars.len()
        invariant
            chars@ == module@,
            i <= chars@.len(),
            out@ == dots_to_slashes(module@).take(i as int),
        decreases chars@.len() - i,
    {
        let c = if chars[i] == '.' {
            '/'
        } else {
            chars[i]
        };
        crate::text::push_char(&mut out, c);
        i = i + 1;
        assert(out@ =~= dots_to_slashes(module@).take(i as int));
    }
    assert(dots_to_slashes(module@).take(chars@.len() as int) =~= dots_to_slashes(module@));
    Some(out)
}


/// A pattern of one `*` matches every name that holds no `*` itself (a `*`
/// in the name is first taken as the literal character).
pub proof fn lemma_star_matches_all(v: Seq<char>)
    requires
        !v.contains('*'),
    ensures
        spec_wildcard_match(seq!['*'], v),
{
    let p = seq!['*'];
    if v.len() > 0 {
        assert(v[0] != '*') by {
            if v[0] == '*' {
                assert(v.contains('*'));
            }
        }
        lemma_star_tail(v, 0);
    }
}

proof fn lemma_star_tail(v: Seq<char>, vi: int)
    requires
        0 <= vi <= v.len(),
    ensures
        wildcard_run(seq!['*'], v, 1, vi, Some(0), vi),
    decreases v.len() - vi,
{
    if vi < v.len() {
        lemma_star_tail(v, vi + 1);
    }
}

/// A pattern without `*` or `?` matches exactly the name equal to it.
pub proof fn lemma_literal_pattern(p: Seq<char>, v: Seq<char>)
    requires
        !p.contains('*'),
        !p.contains('?'),
    ensures
        spec_wildcard_match(p, v) == (p == v),
{
    lemma_literal_from(p, v, 0);
    assert(p.subrange(0, p.len() as int) =~= p);
    assert(v.subrange(0, v.len() as int) =~= v);
}

proof fn lemma_literal_from(p: Seq<char>, v: Seq<char>, i: int)
    requires
        !p.contains('*'),
        !p.contains('?'),
        0 <= i <= p.len(),
        i <= v.len(),
    ensures
        wildcard_run(p, v, i, i, None, 0) == (p.subrange(i, p.len() as int) == v.subrange(
            i,
            v.len() as int,
        )),
    decreases v.len() - i,
{
    if i == v.len() {
        if i < p.len() {
            assert(p[i] != '*') by {
                if p[i] == '*' {
                    assert(p.contains('*'));
                }
            }
            assert(p.subrange(i, p.len() as int).len() != v.subrange(i, v.len() as int).len());
        } else {
            assert(p.subrange(i, p.len() as int) =~= v.subrange(i, v.len() as int));
        }
    } else if i < p.len() {
        assert(p[i] != '*') by {
            if p[i] == '*' {
                assert(p.contains('*'));
            }
        }
        assert(p[i] != '?') by {
            if p[i] == '?' {
                assert(p.contains('?'));
            }
        }
        if p[i] == v[i] {
            lemma_literal_from(p, v, i + 1);
            assert(p.subrange(i, p.len() as int) =~= seq![p[i]] + p.subrange(i + 1, p.len() as int));
            assert(v.subrange(i, v.len() as int) =~= seq![v[i]] + v.subrange(i + 1, v.len() as int));
            if p.subrange(i + 1, p.len() as int) == v.subrange(i + 1, v.len() as int) {
            } else {
                assert(p.subrange(i + 1, p.len() as int) =~= p.subrange(i, p.len() as int).skip(1));
                assert(v.subrange(i + 1, v.len() as int) =~= v.subrange(i, v.len() as int).skip(1));
            }
        } else {
            assert(p.subrange(i, p.len() as int)[0] != v.subrange(i, v.len() as int)[0]);
        }
    } else {
        assert(p.subrange(i, p.len() as int).len() != v.subrange(i, v.len() as int).len());
    }
}


/// A part of a `monitor=` line that reads back as written: not empty, no
/// `,`, `#` or `$`, and no whitespace at either end.
pub open spec fn plain_part(x: Seq<char>) -> bool {
    &&& x.len() > 0
    &&& !x.contains(',')
    &&& !x.contains('#')
    &&& !x.contains('$')
    &&& !is_whitespace(x[0])
    &&& !is_whitespace(x.last())
}

proof fn lemma_plain_pieces(x: Seq<char>)
    requires
        plain_part(x),
    ensures
        split_pieces(x, 1) == seq![x],
        trim(x) == x,
{
    assert forall|i: int| 0 <= i < x.len() implies !is_sep(1, #[trigger] x[i]) by {
        if x[i] == ',' {
            assert(x.contains(','));
        }
    }
    lemma_split_no_sep(x, 1);
    lemma_trim_plain(x);
}

proof fn lemma_nonempty_trimmed_plain(xs: Seq<Seq<char>>)
    requires
        forall|i: int| 0 <= i < xs.len() ==> plain_part(#[trigger] xs[i]),
    ensures
        nonempty_trimmed(xs) == xs,
    decreases xs.len(),
{
    if xs.len() > 0 {
        lemma_nonempty_trimmed_plain(xs.drop_last());
        lemma_plain_pieces(xs.last());
        assert(xs.drop_last().push(xs.last()) =~= xs);
    }
}

proof fn lemma_concat_lacks(a: Seq<char>, b: Seq<char>, ch: char)
    requires
        !a.contains(ch),
        !b.contains(ch),
    ensures
        !(a + b).contains(ch),
{
    if (a + b).contains(ch) {
        let i = choose|i: int| 0 <= i < (a + b).len() && (a + b)[i] == ch;
        if i < a.len() {
            assert(a[i] == ch);
        } else {
            assert(b[i - a.len()] == ch);
        }
    }
}

/// The value part of a written rule, `C,M,P,S`.
pub open spec fn rule_value(c: Seq<char>, m: Seq<char>, p: Seq<char>, s: Seq<char>) -> Seq<char> {
    c + seq![','] + m + seq![','] + p + seq![','] + s
}

proof fn lemma_rule_value_lacks(c: Seq<char>, m: Seq<char>, p: Seq<char>, s: Seq<char>, ch: char)
    requires
        ch != ',',
        !c.contains(ch),
        !m.contains(ch),
        !p.contains(ch),
        !s.contains(ch),
    ensures
        !rule_value(c, m, p, s).contains(ch),
{
    let comma = seq![','];
    assert(!comma.contains(ch)) by {
        if comma.contains(ch) {
            let i = choose|i: int| 0 <= i < comma.len() && comma[i] == ch;
            assert(comma[i] == ',');
        }
    }
    lemma_concat_lacks(c, comma, ch);
    lemma_concat_lacks(c + comma, m, ch);
    lemma_concat_lacks(c + comma + m, comma, ch);
    lemma_concat_lacks(c + comma + m + comma, p, ch);
    lemma_concat_lacks(c + comma + m + comma + p, comma, ch);
    lemma_concat_lacks(c + comma + m + comma + p + comma, s, ch);
}

proof fn lemma_rule_line_assignment(c: Seq<char>, m: Seq<char>, p: Seq<char>, s: Seq<char>)
    requires
        plain_part(c),
        plain_part(m),
        plain_part(p),
        plain_part(s),
    ensures
        spec_parse_assignment("monitor="@ + rule_value(c, m, p, s)) == Some(
            ("monitor"@, rule_value(c, m, p, s)),
        ),
        trim("monitor="@ + rule_value(c, m, p, s)) == "monitor="@ + rule_value(c, m, p, s),
{
    reveal_strlit("monitor=");
    reveal_strlit("monitor");
    let value = rule_value(c, m, p, s);
    let t = "monitor="@ + value;
    assert(t[0] == 'm');
    assert(t.last() == s.last());
    lemma_trim_plain(t);
    lemma_rule_value_lacks(c, m, p, s, '#');
    let head = "monitor="@;
    assert(!head.contains('#')) by {
        if head.contains('#') {
            let i = choose|i: int| 0 <= i < head.len() && head[i] == '#';
        }
    }
    lemma_concat_lacks(head, value, '#');
    lemma_char_index_from(t, '#', 0);
    assert(spec_strip_comment(t) == t);
    lemma_char_index_exact(t, '=', 0, 7);
    assert(t.take(7) =~= "monitor"@);
    assert(t.skip(8) =~= value);
    lemma_trim_plain("monitor"@);
    assert(value[0] == c[0]);
    assert(value.last() == s.last());
    lemma_trim_plain(value);
}

proof fn lemma_rule_value_parts(c: Seq<char>, m: Seq<char>, p: Seq<char>, s: Seq<char>)
    requires
        plain_part(c),
        plain_part(m),
        plain_part(p),
        plain_part(s),
    ensures
        nonempty_trimmed(split_pieces(rule_value(c, m, p, s), 1)) == seq![c, m, p, s],
{
    lemma_plain_pieces(c);
    lemma_plain_pieces(m);
    lemma_plain_pieces(p);
    lemma_plain_pieces(s);
    lemma_split_concat(c, ',', m, 1);
    lemma_split_concat(c + seq![','] + m, ',', p, 1);
    lemma_split_concat(c + seq![','] + m + seq![','] + p, ',', s, 1);
    let parts = seq![c, m, p, s];
    assert(split_pieces(rule_value(c, m, p, s), 1) =~= parts);
    lemma_nonempty_trimmed_plain(parts);
}

/// A `monitor=` rule written for a line config reads back as written: its
/// normalized form, as an expected rule is read, is the very text the writer
/// gave.
pub proof fn lemma_conf_rule_round_trip(
    config_path: Seq<char>,
    c: Seq<char>,
    m: Seq<char>,
    p: Seq<char>,
    s: Seq<char>,
)
    requires
        !has_lua_extension(config_path),
        plain_part(c),
        plain_part(m),
        plain_part(p),
        plain_part(s),
    ensures
        spec_normalize_monitor_rule(spec_monitor_rule_text(config_path, c, m, p, s)) == Some(
            spec_monitor_rule_text(config_path, c, m, p, s),
        ),
{
    let value = rule_value(c, m, p, s);
    let t = "monitor="@ + value;
    assert(spec_monitor_rule_text(config_path, c, m, p, s) =~= t);
    lemma_rule_line_assignment(c, m, p, s);
    lemma_rule_value_lacks(c, m, p, s, '$');
    lemma_rule_value_parts(c, m, p, s);
    let view = spec_parse_monitor_rule("<expected>"@, 1, t, value);
    assert(view is Some);
    assert(normalized(view->0) =~= t);
}


/// `s` without the run of `c` at its start.
pub open spec fn strip_start(s: Seq<char>, c: char) -> Seq<char>
    decreases s.len(),
{
    if s.len() > 0 && s[0] == c {
        strip_start(s.drop_first(), c)
    } else {
        s
    }
}

/// `s` without the run of `c` at its end.
pub open spec fn strip_end(s: Seq<char>, c: char) -> Seq<char>
    decreases s.len(),
{
    if s.len() > 0 && s.last() == c {
        strip_end(s.drop_last(), c)
    } else {
        s
    }
}

/// `s` without `c` at either end; `str::trim_matches` with one character.
pub open spec fn trim_char(s: Seq<char>, c: char) -> Seq<char> {
    strip_end(strip_start(s, c), c)
}

fn trim_char_chars(v: &Vec<char>, c: char) -> (r: Vec<char>)
    ensures
        r@ == trim_char(v@, c),
{
    let mut i: usize = 0;
    assert(v@.skip(0) =~= v@);
    while i < v.len() && v[i] == c
        invariant
            i <= v@.len(),
            strip_start(v@, c) == strip_start(v@.skip(i as int), c),
        decreases v@.len() - i,
    {
        assert(v@.skip(i as int).drop_first() =~= v@.skip(i + 1));
        i = i + 1;
    }
    assert(strip_start(v@, c) == v@.skip(i as int));
    let mut j: usize = v.len();
    while j > i && v[j - 1] == c
        invariant
            i <= j <= v@.len(),
            trim_char(v@, c) == strip_end(v@.subrange(i as int, j as int), c),
        decreases j - i,
    {
        assert(v@.subrange(i as int, j as int).drop_last() =~= v@.subrange(i as int, j - 1));
        j = j - 1;
    }
    assert(v@.skip(i as int) =~= v@.subrange(i as int, v@.len() as int));
    slice_chars(v, i, j)
}

/// A `source =` path with its quotes trimmed and a leading `~/`, `$HOME/` or
/// `$XDG_CONFIG_HOME/` expanded when that directory is known.
pub open spec fn spec_expand_config_path(
    value: Seq<char>,
    home: Option<Seq<char>>,
    config_home: Option<Seq<char>>,
) -> Seq<char> {
    let v = trim_char(trim_char(value, '"'), '\'');
    if starts_at(v, 0, "~/"@) && home is Some {
        path_join(home->0, v.skip(2))
    } else if starts_at(v, 0, "$HOME/"@) && home is Some {
        path_join(home->0, v.skip(6))
    } else if starts_at(v, 0, "$XDG_CONFIG_HOME/"@) && config_home is Some {
        path_join(config_home->0, v.skip(17))
    } else {
        v
    }
}

/// Expands a `source =` path; `home` and `config_home` are `$HOME` and
/// `$XDG_CONFIG_HOME` where they are set.
pub fn expand_config_path(value: &str, home: Option<&str>, config_home: Option<&str>) -> (r: String)
    ensures
        r@ == spec_expand_config_path(
            value@,
            match home {
                Some(h) => Some(h@),
                None => None,
            },
            match config_home {
                Some(h) => Some(h@),
                None => None,
            },
        ),
{
    let v = trim_char_chars(&trim_char_chars(&chars_of(value), '"'), '\'');
    let tilde = chars_of("~/");
    let home_var = chars_of("$HOME/");
    let config_var = chars_of("$XDG_CONFIG_HOME/");
    proof {
        reveal_strlit("~/");
        reveal_strlit("$HOME/");
        reveal_strlit("$XDG_CONFIG_HOME/");
    }
    if let Some(h) = home {
        if matches_at(&v, 0, &tilde) {
            let rest = slice_chars(&v, 2, v.len());
            assert(rest@ =~= v@.skip(2));
            return join_path(h, string_of(&rest).as_str());
        }
        if matches_at(&v, 0, &home_var) {
            let rest = slice_chars(&v, 6, v.len());
            assert(rest@ =~= v@.skip(6));
            return join_path(h, string_of(&rest).as_str());
        }
    }
    if let Some(h) = config_home {
        if matches_at(&v, 0, &config_var) {
            let rest = slice_chars(&v, 17, v.len());
            assert(rest@ =~= v@.skip(17));
            return join_path(h, string_of(&rest).as_str());
        }
    }
    string_of(&v)
}


/// Shell-style glob matching, stated directly: `*` matches any run of
/// characters, `?` any one character, and every other character itself.
pub open spec fn glob_match(p: Seq<char>, v: Seq<char>) -> bool
    decreases p.len(), v.len(),
{
    if p.len() == 0 {
        v.len() == 0
    } else if p[0] == '*' {
        glob_match(p.drop_first(), v) || (v.len() > 0 && glob_match(p, v.drop_first()))
    } else {
        v.len() > 0 && (p[0] == '?' || p[0] == v[0]) && glob_match(p.drop_first(), v.drop_first())
    }
}

/// Whether the pattern from `pi` globs the value from `vi`.
pub open spec fn glob_from(p: Seq<char>, v: Seq<char>, pi: int, vi: int) -> bool {
    glob_match(p.skip(pi), v.skip(vi))
}

proof fn lemma_glob_step(p: Seq<char>, v: Seq<char>, pi: int, vi: int)
    requires
        0 <= pi < p.len(),
        0 <= vi < v.len(),
        p[pi] == '?' || p[pi] == v[vi],
        glob_from(p, v, pi + 1, vi + 1),
    ensures
        glob_from(p, v, pi, vi),
{
    assert(p.skip(pi).drop_first() =~= p.skip(pi + 1));
    assert(v.skip(vi).drop_first() =~= v.skip(vi + 1));
    if p[pi] == '*' {
        lemma_glob_star(p, v, pi, vi + 1, vi + 1);
        assert(glob_from(p, v, pi, vi + 1));
    }
}

/// A `*` at `s` takes in the value from `vi` up to `k`.
proof fn lemma_glob_star(p: Seq<char>, v: Seq<char>, s: int, vi: int, k: int)
    requires
        0 <= s < p.len(),
        p[s] == '*',
        0 <= vi <= k <= v.len(),
        glob_from(p, v, s + 1, k),
    ensures
        glob_from(p, v, s, vi),
    decreases k - vi,
{
    assert(p.skip(s).drop_first() =~= p.skip(s + 1));
    if vi < k {
        lemma_glob_star(p, v, s, vi + 1, k);
        assert(v.skip(vi).drop_first() =~= v.skip(vi + 1));
    }
}

proof fn lemma_glob_trailing_stars(p: Seq<char>, v: Seq<char>, pi: int)
    requires
        0 <= pi <= p.len(),
        forall|k: int| pi <= k < p.len() ==> p[k] == '*',
    ensures
        glob_from(p, v, pi, v.len() as int),
    decreases p.len() - pi,
{
    if pi < p.len() {
        lemma_glob_trailing_stars(p, v, pi + 1);
        assert(p.skip(pi).drop_first() =~= p.skip(pi + 1));
    } else {
        assert(p.skip(pi).len() == 0);
    }
    assert(v.skip(v.len() as int).len() == 0);
}

proof fn lemma_run_sound(p: Seq<char>, v: Seq<char>, pi: int, vi: int, star: Option<int>, svi: int, t: bool)
    requires
        wildcard_run(p, v, pi, vi, star, svi),
        glob_from(p, v, pi, vi) ==> t,
        star matches Some(s) ==> 0 <= s < p.len() && p[s] == '*' && forall|k: int|
            svi < k <= v.len() ==> (#[trigger] glob_from(p, v, s + 1, k) ==> t),
    ensures
        t,
    decreases v.len() - svi, v.len() - vi, p.len() - pi,
{
    if vi < v.len() {
        if pi < p.len() && (p[pi] == '?' || p[pi] == v[vi]) {
            if glob_from(p, v, pi + 1, vi + 1) {
                lemma_glob_step(p, v, pi, vi);
            }
            lemma_run_sound(p, v, pi + 1, vi + 1, star, svi, t);
        } else if pi < p.len() && p[pi] == '*' {
            assert forall|k: int| vi < k <= v.len() implies (#[trigger] glob_from(p, v, pi + 1, k) ==> t) by {
                if glob_from(p, v, pi + 1, k) {
                    lemma_glob_star(p, v, pi, vi, k);
                }
            }
            if glob_from(p, v, pi + 1, vi) {
                lemma_glob_star(p, v, pi, vi, vi);
            }
            lemma_run_sound(p, v, pi + 1, vi, Some(pi), vi, t);
        } else {
            match star {
                Some(s) => {
                    assert(glob_from(p, v, s + 1, svi + 1) ==> t);
                    lemma_run_sound(p, v, s + 1, svi + 1, star, svi + 1, t);
                },
                None => {},
            }
        }
    } else {
        lemma_glob_trailing_stars(p, v, pi);
    }
}

/// What `wildcard_match` accepts, the glob pattern matches.
pub proof fn lemma_wildcard_match_is_glob(pattern: Seq<char>, value: Seq<char>)
    requires
        spec_wildcard_match(pattern, value),
    ensures
        glob_match(pattern, value),
{
    assert(pattern.skip(0) =~= pattern);
    assert(value.skip(0) =~= value);
    lemma_run_sound(pattern, value, 0, 0, None, 0, glob_match(pattern, value));
}


proof fn lemma_glob_plain_step(p: Seq<char>, v: Seq<char>, pi: int, vi: int)
    requires
        0 <= pi < p.len(),
        0 <= vi <= v.len(),
        p[pi] != '*',
        glob_from(p, v, pi, vi),
    ensures
        vi < v.len(),
        p[pi] == '?' || p[pi] == v[vi],
        glob_from(p, v, pi + 1, vi + 1),
{
    assert(p.skip(pi).drop_first() =~= p.skip(pi + 1));
    assert(v.skip(vi).len() > 0);
    assert(v.skip(vi).drop_first() =~= v.skip(vi + 1));
}

proof fn lemma_glob_star_split(p: Seq<char>, v: Seq<char>, pi: int, j: int)
    requires
        0 <= pi < p.len(),
        p[pi] == '*',
        0 <= j <= v.len(),
        glob_from(p, v, pi, j),
    ensures
        exists|k: int| j <= k <= v.len() && #[trigger] glob_from(p, v, pi + 1, k),
    decreases v.len() - j,
{
    assert(p.skip(pi).drop_first() =~= p.skip(pi + 1));
    if glob_from(p, v, pi + 1, j) {
        assert(glob_from(p, v, pi + 1, j));
    } else {
        assert(v.skip(j).drop_first() =~= v.skip(j + 1));
        lemma_glob_star_split(p, v, pi, j + 1);
        let k = choose|k: int| j + 1 <= k <= v.len() && #[trigger] glob_from(p, v, pi + 1, k);
        assert(glob_from(p, v, pi + 1, k));
    }
}

proof fn lemma_glob_empty_value(p: Seq<char>, v: Seq<char>, pi: int)
    requires
        0 <= pi <= p.len(),
        glob_from(p, v, pi, v.len() as int),
    ensures
        forall|k: int| pi <= k < p.len() ==> p[k] == '*',
    decreases p.len() - pi,
{
    assert(v.skip(v.len() as int).len() == 0);
    if pi < p.len() {
        assert(p.skip(pi).drop_first() =~= p.skip(pi + 1));
        lemma_glob_empty_value(p, v, pi + 1);
    }
}

/// A star-free stretch of the pattern consumes as many characters.
proof fn lemma_glob_plain_run(p: Seq<char>, v: Seq<char>, a: int, b: int, len: int)
    requires
        0 <= len,
        0 <= a,
        a + len <= p.len(),
        0 <= b <= v.len(),
        forall|i: int| a <= i < a + len ==> p[i] != '*',
        glob_from(p, v, a, b),
    ensures
        b + len <= v.len(),
        glob_from(p, v, a + len, b + len),
    decreases len,
{
    if len > 0 {
        lemma_glob_plain_step(p, v, a, b);
        lemma_glob_plain_run(p, v, a + 1, b + 1, len - 1);
    }
}

proof fn lemma_run_complete(p: Seq<char>, v: Seq<char>, pi: int, vi: int, star: Option<int>, svi: int)
    requires
        forall|i: int| 0 <= i < v.len() ==> v[i] != '*',
        0 <= pi <= p.len(),
        0 <= svi <= vi <= v.len(),
        match star {
            None => glob_from(p, v, pi, vi),
            Some(s) => {
                &&& 0 <= s < pi
                &&& p[s] == '*'
                &&& pi - (s + 1) == vi - svi
                &&& forall|i: int| s + 1 <= i < pi ==> p[i] != '*'
                &&& exists|k: int| svi <= k <= v.len() && #[trigger] glob_from(p, v, s + 1, k)
            },
        },
    ensures
        wildcard_run(p, v, pi, vi, star, svi),
    decreases v.len() - svi, v.len() - vi, p.len() - pi,
{
    if vi < v.len() {
        if pi < p.len() && (p[pi] == '?' || p[pi] == v[vi]) {
            assert(p[pi] != '*');
            if star is None {
                lemma_glob_plain_step(p, v, pi, vi);
            }
            lemma_run_complete(p, v, pi + 1, vi + 1, star, svi);
        } else if pi < p.len() && p[pi] == '*' {
            match star {
                None => {
                    lemma_glob_star_split(p, v, pi, vi);
                },
                Some(s) => {
                    let k = choose|k: int| svi <= k <= v.len() && #[trigger] glob_from(p, v, s + 1, k);
                    lemma_glob_plain_run(p, v, s + 1, k, pi - (s + 1));
                    lemma_glob_star_split(p, v, pi, k + (pi - (s + 1)));
                    let k2 = choose|k2: int| k + (pi - (s + 1)) <= k2 <= v.len() && #[trigger] glob_from(p, v, pi + 1, k2);
                    assert(vi <= k2);
                },
            }
            lemma_run_complete(p, v, pi + 1, vi, Some(pi), vi);
        } else {
            match star {
                None => {
                    if pi < p.len() {
                        lemma_glob_plain_step(p, v, pi, vi);
                    } else {
                        assert(p.skip(pi).len() == 0);
                        assert(v.skip(vi).len() > 0);
                    }
                },
                Some(s) => {
                    let k = choose|k: int| svi <= k <= v.len() && #[trigger] glob_from(p, v, s + 1, k);
                    if k == svi {
                        lemma_glob_plain_run(p, v, s + 1, svi, pi - (s + 1));
                        if pi < p.len() {
                            lemma_glob_plain_step(p, v, pi, vi);
                        } else {
                            assert(p.skip(pi).len() == 0);
                            assert(v.skip(vi).len() > 0);
                        }
                    }
                    assert(svi + 1 <= k);
                    assert(glob_from(p, v, s + 1, k));
                    lemma_run_complete(p, v, s + 1, svi + 1, star, svi + 1);
                },
            }
        }
    } else {
        match star {
            None => lemma_glob_empty_value(p, v, pi),
            Some(s) => {
                let k = choose|k: int| svi <= k <= v.len() && #[trigger] glob_from(p, v, s + 1, k);
                lemma_glob_plain_run(p, v, s + 1, k, pi - (s + 1));
                assert(k == svi);
                lemma_glob_empty_value(p, v, pi);
            },
        }
    }
}

/// For a value without `*`, `wildcard_match` decides exactly glob matching.
pub proof fn lemma_wildcard_match_is_glob_exactly(pattern: Seq<char>, value: Seq<char>)
    requires
        !value.contains('*'),
    ensures
        spec_wildcard_match(pattern, value) == glob_match(pattern, value),
{
    if spec_wildcard_match(pattern, value) {
        lemma_wildcard_match_is_glob(pattern, value);
    }
    if glob_match(pattern, value) {
        assert(pattern.skip(0) =~= pattern);
        assert(value.skip(0) =~= value);
        assert forall|i: int| 0 <= i < value.len() implies value[i] != '*' by {
            if value[i] == '*' {
                assert(value.contains('*'));
            }
        }
        lemma_run_complete(pattern, value, 0, 0, None, 0);
    }
}

} // verus!
