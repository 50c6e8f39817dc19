//! Classification of log lines by level, from rules of the form
//! `level=regex`, one per line.

use crate::chars::{
    find_char, lemma_next_index_bounds, lines, lines_from, next_index_of, spec_is_whitespace,
    str_chars, string_from_chars, strip_cr, trim, trim_bounds, trim_end, trim_start,
};
use crate::text::{decimal, push_decimal};
use crate::level::{all_ascii, ascii_lowercase, parse_level, spec_level_named, spec_parse_level, LogLevel};
use crate::pattern::{
    compile_pattern, pattern_is_match, regex_compiles, regex_error_message, regex_error_text,
    regex_is_match, Pattern,
};
use vstd::prelude::*;

verus! {

/// Why a rule file was refused. Lines count from 1.
#[derive(Debug)]
pub enum RulesError {
    MissingEquals { line: usize },
    UnknownLevel { line: usize, level: String },
    EmptyRegex { line: usize },
    InvalidRegex { line: usize, reason: String },
}

/// The content of a `RulesError`, with its texts as characters.
pub enum RulesErrorView {
    MissingEquals { line: nat },
    UnknownLevel { line: nat, level: Seq<char> },
    EmptyRegex { line: nat },
    InvalidRegex { line: nat, reason: Seq<char> },
}

impl View for RulesError {
    type V = RulesErrorView;

    open spec fn view(&self) -> RulesErrorView {
        match self {
            RulesError::MissingEquals { line } => RulesErrorView::MissingEquals { line: *line as nat },
            RulesError::UnknownLevel { line, level } => RulesErrorView::UnknownLevel {
                line: *line as nat,
                level: level@,
            },
            RulesError::EmptyRegex { line } => RulesErrorView::EmptyRegex { line: *line as nat },
            RulesError::InvalidRegex { line, reason } => RulesErrorView::InvalidRegex {
                line: *line as nat,
                reason: reason@,
            },
        }
    }
}

/// The message that describes `e`.
pub open spec fn rules_error_message(e: RulesErrorView) -> Seq<char> {
    match e {
        RulesErrorView::MissingEquals { line } => "line "@ + decimal(line) + " is missing '='"@,
        RulesErrorView::UnknownLevel { line, level } => "line "@ + decimal(line)
            + " has unknown level '"@ + level + "'"@,
        RulesErrorView::EmptyRegex { line } => "line "@ + decimal(line) + " has an empty regex"@,
        RulesErrorView::InvalidRegex { line, .. } => "line "@ + decimal(line) + " has an invalid regex"@,
    }
}

impl RulesError {
    /// A one-line description of the error, naming the line.
    pub fn message(&self) -> (text: String)
        ensures
            text@ == rules_error_message(self@),
    {
        let mut text = "line ".to_owned();
        match self {
            RulesError::MissingEquals { line } => {
                push_decimal(&mut text, *line as u64);
                text.append(" is missing '='");
            },
            RulesError::UnknownLevel { line, level } => {
                push_decimal(&mut text, *line as u64);
                text.append(" has unknown level '");
                text.append(level.as_str());
                text.append("'");
            },
            RulesError::EmptyRegex { line } => {
                push_decimal(&mut text, *line as u64);
                text.append(" has an empty regex");
            },
            RulesError::InvalidRegex { line, .. } => {
                push_decimal(&mut text, *line as u64);
                text.append(" has an invalid regex");
            },
        }
        text
    }
}

/// What one line of a rule file says.
pub enum LineOutcome {
    /// A blank line.
    Skip,
    /// A rule: the level and the regex text.
    Rule(LogLevel, Seq<char>),
    /// A malformed line.
    Fail(RulesErrorView),
}

/// The meaning of `line`, line number `number` of a rule file: blank after
/// trimming; else `level=regex`, where the level name (trimmed, in any case)
/// names a level and the regex (trimmed) is not empty and compiles. A regex
/// that does not compile is refused with the regex library's explanation.
pub open spec fn spec_parse_line(line: Seq<char>, number: nat) -> LineOutcome {
    let t = trim(line);
    if t.len() == 0 {
        LineOutcome::Skip
    } else {
        let eq = next_index_of(t, '=', 0);
        if eq >= t.len() {
            LineOutcome::Fail(RulesErrorView::MissingEquals { line: number })
        } else {
            let name = trim(t.subrange(0, eq));
            match spec_parse_level(name) {
                None => LineOutcome::Fail(RulesErrorView::UnknownLevel { line: number, level: name }),
                Some(level) => {
                    let pattern = trim(t.subrange(eq + 1, t.len() as int));
                    if pattern.len() == 0 {
                        LineOutcome::Fail(RulesErrorView::EmptyRegex { line: number })
                    } else if !regex_compiles(pattern) {
                        LineOutcome::Fail(
                            RulesErrorView::InvalidRegex {
                                line: number,
                                reason: regex_error_message(pattern),
                            },
                        )
                    } else {
                        LineOutcome::Rule(level, pattern)
                    }
                },
            }
        }
    }
}

/// `rest` with `rules` in front, or the error of `rest`.
pub open spec fn prepend_rules(
    rules: Seq<(LogLevel, Seq<char>)>,
    rest: Result<Seq<(LogLevel, Seq<char>)>, RulesErrorView>,
) -> Result<Seq<(LogLevel, Seq<char>)>, RulesErrorView> {
    match rest {
        Ok(r) => Ok(rules + r),
        Err(e) => Err(e),
    }
}

/// The rules of `ls`, whose first line has number `first`; or the error of
/// the first malformed line.
pub open spec fn spec_parse_lines(ls: Seq<Seq<char>>, first: nat) -> Result<
    Seq<(LogLevel, Seq<char>)>,
    RulesErrorView,
>
    decreases ls.len(),
{
    if ls.len() == 0 {
        Ok(seq![])
    } else {
        match spec_parse_line(ls[0], first) {
            LineOutcome::Skip => spec_parse_lines(ls.drop_first(), first + 1),
            LineOutcome::Fail(e) => Err(e),
            LineOutcome::Rule(level, pattern) => prepend_rules(
                seq![(level, pattern)],
                spec_parse_lines(ls.drop_first(), first + 1),
            ),
        }
    }
}

/// The rules of the rule file `input`, in file order.
pub open spec fn spec_parse_rules(input: Seq<char>) -> Result<
    Seq<(LogLevel, Seq<char>)>,
    RulesErrorView,
> {
    spec_parse_lines(lines(input), 1)
}

/// The level of the first rule whose regex matches `text`, or `Unknown`.
pub open spec fn spec_classify(rules: Seq<(LogLevel, Seq<char>)>, text: Seq<char>) -> LogLevel
    decreases rules.len(),
{
    if rules.len() == 0 {
        LogLevel::Unknown
    } else if regex_is_match(rules[0].1, text) {
        rules[0].0
    } else {
        spec_classify(rules.drop_first(), text)
    }
}

/// A line gets the level of the first rule whose regex matches it, and
/// `Unknown` when no rule matches.
pub proof fn lemma_classify_first_match(rules: Seq<(LogLevel, Seq<char>)>, text: Seq<char>)
    ensures
        (exists|i: int|
            0 <= i < rules.len() && regex_is_match(rules[i].1, text) && (forall|j: int|
                0 <= j < i ==> !regex_is_match(#[trigger] rules[j].1, text)) && spec_classify(
                rules,
                text,
            ) == rules[i].0) || ((forall|i: int|
            0 <= i < rules.len() ==> !regex_is_match(#[trigger] rules[i].1, text)) && spec_classify(
            rules,
            text,
        ) == LogLevel::Unknown),
    decreases rules.len(),
{
    if rules.len() > 0 {
        let rest = rules.drop_first();
        lemma_classify_first_match(rest, text);
        if regex_is_match(rules[0].1, text) {
            assert(regex_is_match(rules[0].1, text) && (forall|j: int|
                0 <= j < 0 ==> !regex_is_match(#[trigger] rules[j].1, text)) && spec_classify(
                rules,
                text,
            ) == rules[0].0);
        } else if exists|i: int|
            0 <= i < rest.len() && regex_is_match(rest[i].1, text) && (forall|j: int|
                0 <= j < i ==> !regex_is_match(#[trigger] rest[j].1, text)) && spec_classify(
                rest,
                text,
            ) == rest[i].0 {
            let i = choose|i: int|
                0 <= i < rest.len() && regex_is_match(rest[i].1, text) && (forall|j: int|
                    0 <= j < i ==> !regex_is_match(#[trigger] rest[j].1, text)) && spec_classify(
                    rest,
                    text,
                ) == rest[i].0;
            assert(rules[i + 1] == rest[i]);
            assert forall|j: int| 0 <= j < i + 1 implies !regex_is_match(#[trigger] rules[j].1, text) by {
                if j > 0 {
                    assert(rules[j] == rest[j - 1]);
                }
            }
        } else {
            assert forall|i: int| 0 <= i < rules.len() implies !regex_is_match(#[trigger] rules[i].1, text) by {
                if i > 0 {
                    assert(rules[i] == rest[i - 1]);
                }
            }
        }
    }
}

/// Whether `name` is made of ASCII letters, at least one.
pub open spec fn ascii_letters(name: Seq<char>) -> bool {
    &&& name.len() > 0
    &&& forall|i: int|
        0 <= i < name.len() ==> {
            let u = #[trigger] name[i] as u32;
            (65 <= u <= 90) || (97 <= u <= 122)
        }
}

/// A rule line names its level in any letter case: where the trimmed line
/// is a level name of ASCII letters, `=` and the rest, the line is refused
/// as naming an unknown level exactly when the name, lowercased, is no
/// level's name, and a rule it gives has the level of that name. So
/// `ERROR=x`, `Error=x` and `error=x` give the same rule.
pub proof fn lemma_level_name_any_case(line: Seq<char>, name: Seq<char>, rest: Seq<char>, number: nat)
    requires
        trim(line) == name + "="@ + rest,
        ascii_letters(name),
    ensures
        (spec_parse_line(line, number) matches LineOutcome::Fail(e) && e is UnknownLevel)
            <==> spec_level_named(ascii_lowercase(name)) is None,
        spec_parse_line(line, number) matches LineOutcome::Rule(level, _) ==> spec_level_named(
            ascii_lowercase(name),
        ) == Some(level),
        spec_parse_line(line, number) !is Skip,
        spec_parse_line(line, number) matches LineOutcome::Fail(e) ==> !(e is MissingEquals),
{
    reveal_strlit("=");
    let t = trim(line);
    let n = name.len() as int;
    assert(t[n] == '=');
    assert forall|j: int| 0 <= j < n implies t[j] != '=' by {
        assert(t[j] == name[j]);
        let u = name[j] as u32;
        assert((65 <= u <= 90) || (97 <= u <= 122));
    }
    lemma_next_index_from_scan(t, '=', 0, n);
    assert(t.subrange(0, n) =~= name);
    assert(!spec_is_whitespace(name[0])) by {
        let u = name[0] as u32;
        assert((65 <= u <= 90) || (97 <= u <= 122));
    }
    assert(!spec_is_whitespace(name.last())) by {
        let u = name[n - 1] as u32;
        assert((65 <= u <= 90) || (97 <= u <= 122));
    }
    assert(trim_start(name) == name);
    assert(trim_end(name) == name);
    assert(trim(name) == name);
    assert(all_ascii(name)) by {
        assert forall|i: int| 0 <= i < name.len() implies (#[trigger] name[i] as u32) < 128 by {
            let u = name[i] as u32;
            assert((65 <= u <= 90) || (97 <= u <= 122));
        }
    }
}

/// One rule: a level and the regex that selects it.
pub struct Rule {
    level: LogLevel,
    pattern: Pattern,
}

impl Rule {
    /// The rule's level and regex text.
    pub closed spec fn view_pair(self) -> (LogLevel, Seq<char>) {
        (self.level, self.pattern@)
    }
}

/// The levels and regex texts of `rules`.
pub open spec fn rules_view(rules: Seq<Rule>) -> Seq<(LogLevel, Seq<char>)> {
    rules.map_values(|r: Rule| r.view_pair())
}

/// What one line of a rule file gave.
enum LineResult {
    Skip,
    Rule(Rule),
    Fail(RulesError),
}

/// Where the scan of `t` for `c` from `k` stops at `r`, `next_index_of` is
/// `r`.
proof fn lemma_next_index_from_scan(t: Seq<char>, c: char, k: int, r: int)
    requires
        0 <= k <= r <= t.len(),
        forall|j: int| k <= j < r ==> t[j] != c,
        r < t.len() ==> t[r] == c,
    ensures
        next_index_of(t, c, k) == r,
    decreases r - k,
{
    if k < r {
        lemma_next_index_from_scan(t, c, k + 1, r);
    }
}

/// Parses the line `v[a..b]`, number `number` of a rule file.
fn parse_line(v: &Vec<char>, a: usize, b: usize, number: usize) -> (res: LineResult)
    requires
        a <= b <= v@.len(),
    ensures
        match spec_parse_line(v@.subrange(a as int, b as int), number as nat) {
            LineOutcome::Skip => res is Skip,
            LineOutcome::Rule(level, pattern) => res matches LineResult::Rule(r) && r.level == level
                && r.pattern@ == pattern,
            LineOutcome::Fail(e) => res matches LineResult::Fail(err) && err@ == e,
        },
{
    let ghost line = v@.subrange(a as int, b as int);
    let (ta, tb) = trim_bounds(v, a, b);
    let ghost t = trim(line);
    assert(t == v@.subrange(ta as int, tb as int));
    if ta == tb {
        return LineResult::Skip;
    }
    let eq = find_char(v, '=', ta, tb);
    proof {
        lemma_next_index_from_scan(t, '=', 0, eq - ta);
    }
    if eq == tb {
        return LineResult::Fail(RulesError::MissingEquals { line: number });
    }
    assert(t.subrange(0, eq - ta) =~= v@.subrange(ta as int, eq as int));
    assert(t.subrange(eq - ta + 1, t.len() as int) =~= v@.subrange(eq + 1, tb as int));
    let (la, lb) = trim_bounds(v, ta, eq);
    let name = string_from_chars(v, la, lb);
    let level = match parse_level(name.as_str()) {
        Some(level) => level,
        None => {
            return LineResult::Fail(RulesError::UnknownLevel { line: number, level: name });
        },
    };
    let (pa, pb) = trim_bounds(v, eq + 1, tb);
    if pa == pb {
        return LineResult::Fail(RulesError::EmptyRegex { line: number });
    }
    let source = string_from_chars(v, pa, pb);
    match compile_pattern(source.as_str()) {
        Ok(pattern) => LineResult::Rule(Rule { level, pattern }),
        Err(err) => LineResult::Fail(
            RulesError::InvalidRegex { line: number, reason: regex_error_text(&err) },
        ),
    }
}

/// Rules that assign levels to log lines.
pub struct LogClassifier {
    rules: Vec<Rule>,
}

impl View for LogClassifier {
    type V = Seq<(LogLevel, Seq<char>)>;

    closed spec fn view(&self) -> Seq<(LogLevel, Seq<char>)> {
        rules_view(self.rules@)
    }
}

impl LogClassifier {
    /// A classifier without rules: every line is `Unknown`.
    pub fn new() -> (c: Self)
        ensures
            c@ == Seq::<(LogLevel, Seq<char>)>::empty(),
    {
        let c = LogClassifier { rules: Vec::new() };
        assert(c@ =~= Seq::<(LogLevel, Seq<char>)>::empty());
        c
    }

    /// Reads the rules of a rule file: one `level=regex` per line, blank
    /// lines ignored, surrounding whitespace trimmed, level names in any
    /// letter case. Refuses the file at its first malformed line.
    pub fn from_str(input: &str) -> (res: Result<Self, RulesError>)
        ensures
            match spec_parse_rules(input@) {
                Ok(rules) => res matches Ok(c) && c@ == rules,
                Err(e) => res matches Err(err) && err@ == e,
            },
    {
        let v = str_chars(input);
        let n = v.len();
        let mut rules: Vec<Rule> = Vec::new();
        let mut pos: usize = 0;
        let mut idx: usize = 0;
        assert(lines(v@) == lines_from(v@, 0));
        while pos < n
            invariant
                n == v@.len(),
                v@ == input@,
                pos <= n,
                idx <= pos,
                spec_parse_rules(input@) == prepend_rules(
                    rules_view(rules@),
                    spec_parse_lines(lines_from(v@, pos as int), (idx + 1) as nat),
                ),
            decreases n - pos,
        {
            let number = idx + 1;
            let e = find_char(&v, '\n', pos, n);
            proof {
                lemma_next_index_bounds(v@, '\n', pos as int);
            }
            let ghost ls = lines_from(v@, pos as int);
            let line_end = if e < n && e > pos && v[e - 1] == '\r' {
                e - 1
            } else {
                e
            };
            let ghost line = v@.subrange(pos as int, line_end as int);
            let next: usize = if e < n {
                e + 1
            } else {
                n
            };
            proof {
                if e < n {
                    assert(strip_cr(v@.subrange(pos as int, e as int)) =~= line);
                    assert(ls == seq![line] + lines_from(v@, e + 1));
                } else {
                    assert(line =~= v@.subrange(pos as int, n as int));
                    assert(ls == seq![line]);
                    assert(lines_from(v@, n as int) =~= Seq::<Seq<char>>::empty());
                }
                assert(ls.drop_first() =~= lines_from(v@, next as int));
                assert(ls[0] == line);
            }
            let outcome = parse_line(&v, pos, line_end, number);
            let ghost rest = spec_parse_lines(lines_from(v@, next as int), (number + 1) as nat);
            match outcome {
                LineResult::Skip => {
                    assert(spec_parse_lines(ls, number as nat) == rest);
                },
                LineResult::Fail(err) => {
                    return Err(err);
                },
                LineResult::Rule(rule) => {
                    let ghost before = rules_view(rules@);
                    let ghost item = rule.view_pair();
                    rules.push(rule);
                    proof {
                        assert(rules_view(rules@) =~= before + seq![item]);
                        assert(spec_parse_lines(ls, number as nat) == prepend_rules(
                            seq![item],
                            rest,
                        ));
                        match rest {
                            Ok(r) => {
                                assert(before + seq![item] + r =~= before + (seq![item] + r));
                            },
                            Err(_) => {},
                        }
                    }
                },
            }
            pos = next;
            idx = idx + 1;
        }
        proof {
            assert(lines_from(v@, pos as int) =~= Seq::<Seq<char>>::empty());
            assert(rules_view(rules@) + Seq::<(LogLevel, Seq<char>)>::empty() =~= rules_view(rules@));
        }
        let c = LogClassifier { rules };
        assert(c@ =~= rules_view(c.rules@));
        Ok(c)
    }

    /// The level of the first rule whose regex matches `log`, or `Unknown`
    /// where none does.
    pub fn classify(&self, log: &str) -> (level: LogLevel)
        ensures
            level == spec_classify(self@, log@),
    {
        let n = self.rules.len();
        let mut i: usize = 0;
        assert(self@.subrange(0, n as int) =~= self@);
        while i < n
            invariant
                n == self.rules@.len(),
                n == self@.len(),
                i <= n,
                spec_classify(self@, log@) == spec_classify(self@.subrange(i as int, n as int), log@),
            decreases n - i,
        {
            let rule = &self.rules[i];
            assert(self@.subrange(i as int, n as int)[0] == (rule.level, rule.pattern@));
            assert(self@.subrange(i as int, n as int).drop_first() =~= self@.subrange(
                i + 1,
                n as int,
            ));
            if pattern_is_match(&rule.pattern, log) {
                return rule.level;
            }
            i = i + 1;
        }
        LogLevel::Unknown
    }
}

} // verus!
