//! Parsing and evaluation of per-host crawl-permission policies.
//!
//! The policy text is the standard line-oriented convention: `User-agent:`
//! lines open a section naming one or more agents, and `Allow:` /
//! `Disallow:` lines add path rules to the open section. The exact dialect
//! read here is:
//!
//! - lines are separated by `\n`; one trailing `\r` is dropped from a line;
//! - everything from the first `#` of a line on is a comment;
//! - a line without a `:` (outside a comment) closes the open section, and a
//!   comment-only line is skipped;
//! - keys are compared ASCII-case-insensitively; keys other than
//!   `user-agent`, `allow` and `disallow` are ignored;
//! - keys and values are trimmed of ASCII blanks (space and tab);
//! - a `user-agent` line that follows rule lines closes the open section and
//!   starts a new one, so consecutive `user-agent` lines share one section.
//!
//! A section applies to an agent name when one of its agent patterns occurs
//! in the name, ASCII-case-insensitively. The section consulted for an agent
//! is the first that applies; when none applies, the first section whose
//! agents include `*` — a deliberate choice: a policy with several wildcard
//! sections is judged by the first alone, they are not merged. When there is
//! no wildcard section either, an empty rule list applies, which allows
//! everything. Within a rule list the first rule whose
//! path is an ASCII-case-insensitive prefix of the requested path decides; a
//! rule with an empty path allows everything; no matching rule allows.
//!
//! The crawler is deliberately conservative: [`robots_ok`] requires the
//! verdict for the wildcard agent `*` and the verdict for the crawler's own
//! agent name to both permit the path (conjunction, not fallback).

use vstd::prelude::*;
use vstd::string::StringSliceAdditionalSpecFns;
use vstd::slice::slice_to_vec;

use crate::url::{spec_find_byte, find_byte, lemma_find_byte, subrange_bytes, clone_bytes};

verus! {

/// One `Allow` (`allow == true`) or `Disallow` (`allow == false`) line.
#[derive(Debug)]
pub struct Rule {
    pub allow: bool,
    pub prefix: Vec<u8>,
}

/// A group of agent patterns and the rules that apply to them.
#[derive(Debug)]
pub struct Section {
    pub agents: Vec<Vec<u8>>,
    pub rules: Vec<Rule>,
}

/// A parsed robots policy: its sections, in order of appearance.
#[derive(Debug)]
pub struct RobotsPolicy {
    pub sections: Vec<Section>,
}

#[verifier::ext_equal]
pub ghost struct RuleV {
    pub allow: bool,
    pub prefix: Seq<u8>,
}

#[verifier::ext_equal]
pub ghost struct SectionV {
    pub agents: Seq<Seq<u8>>,
    pub rules: Seq<RuleV>,
}

impl View for Rule {
    type V = RuleV;

    open spec fn view(&self) -> RuleV {
        RuleV { allow: self.allow, prefix: self.prefix@ }
    }
}

impl View for Section {
    type V = SectionV;

    open spec fn view(&self) -> SectionV {
        SectionV {
            agents: self.agents@.map_values(|a: Vec<u8>| a@),
            rules: self.rules@.map_values(|r: Rule| r@),
        }
    }
}

impl View for RobotsPolicy {
    type V = Seq<SectionV>;

    open spec fn view(&self) -> Seq<SectionV> {
        self.sections@.map_values(|s: Section| s@)
    }
}

// ---------------------------------------------------------------------------
// Byte-level helpers.
// ---------------------------------------------------------------------------

/// ASCII lower-casing of one byte.
pub open spec fn spec_lower(b: u8) -> u8 {
    if 65 <= b <= 90 {
        (b + 32) as u8
    } else {
        b
    }
}

/// An ASCII blank: space or horizontal tab.
pub open spec fn is_blank(b: u8) -> bool {
    b == 32 || b == 9
}

/// Equality of two byte strings up to ASCII case.
pub open spec fn ci_eq(a: Seq<u8>, b: Seq<u8>) -> bool {
    a.len() == b.len() && forall|i: int| 0 <= i < a.len() ==> spec_lower(a[i]) == spec_lower(b[i])
}

/// Whether `pat` occurs in `s`, up to ASCII case.
pub open spec fn contains_ci(s: Seq<u8>, pat: Seq<u8>) -> bool {
    exists|j: int| 0 <= j <= s.len() - pat.len() && ci_eq(#[trigger] s.subrange(j, j + pat.len()), pat)
}

/// Whether `p` is a prefix of `s`, up to ASCII case.
pub open spec fn is_prefix_ci(p: Seq<u8>, s: Seq<u8>) -> bool {
    p.len() <= s.len() && ci_eq(s.subrange(0, p.len() as int), p)
}

/// `s` without leading ASCII blanks.
pub open spec fn trim_start_b(s: Seq<u8>) -> Seq<u8>
    decreases s.len(),
{
    if s.len() > 0 && is_blank(s[0]) {
        trim_start_b(s.drop_first())
    } else {
        s
    }
}

/// `s` without trailing ASCII blanks.
pub open spec fn trim_end_b(s: Seq<u8>) -> Seq<u8>
    decreases s.len(),
{
    if s.len() > 0 && is_blank(s.last()) {
        trim_end_b(s.drop_last())
    } else {
        s
    }
}

/// `s` without leading and trailing ASCII blanks.
pub open spec fn trim_b(s: Seq<u8>) -> Seq<u8> {
    trim_end_b(trim_start_b(s))
}

proof fn lemma_trim_start(s: Seq<u8>, i: int)
    requires
        0 <= i <= s.len(),
        forall|j: int| 0 <= j < i ==> is_blank(s[j]),
        i < s.len() ==> !is_blank(s[i]),
    ensures
        trim_start_b(s) == s.skip(i),
    decreases i,
{
    if i == 0 {
        assert(s.skip(0) =~= s);
    } else {
        lemma_trim_start(s.drop_first(), i - 1);
        assert(s.drop_first().skip(i - 1) =~= s.skip(i));
    }
}

proof fn lemma_trim_end(s: Seq<u8>, i: int)
    requires
        0 <= i <= s.len(),
        forall|j: int| i <= j < s.len() ==> is_blank(s[j]),
        i > 0 ==> !is_blank(s[i - 1]),
    ensures
        trim_end_b(s) == s.take(i),
    decreases s.len() - i,
{
    if i == s.len() {
        assert(s.take(i) =~= s);
    } else {
        assert(is_blank(s.last()));
        lemma_trim_end(s.drop_last(), i);
        assert(s.drop_last().take(i) =~= s.take(i));
    }
}

/// ASCII lower-casing of one byte.
pub fn lower(b: u8) -> (r: u8)
    ensures
        r == spec_lower(b),
{
    if 65 <= b && b <= 90 {
        b + 32
    } else {
        b
    }
}

/// Equality of two byte strings up to ASCII case, by a linear scan.
pub fn ci_eq_bytes(a: &[u8], b: &[u8]) -> (r: bool)
    ensures
        r == ci_eq(a@, b@),
{
    if a.len() != b.len() {
        return false;
    }
    let mut i: usize = 0;
    while i < a.len()
        invariant
            0 <= i <= a@.len(),
            a@.len() == b@.len(),
            forall|j: int| 0 <= j < i ==> spec_lower(a@[j]) == spec_lower(b@[j]),
        decreases a@.len() - i,
    {
        if lower(a[i]) != lower(b[i]) {
            return false;
        }
        i = i + 1;
    }
    true
}

/// Whether `p` is a prefix of `s` up to ASCII case, by a linear scan.
pub fn prefix_ci_bytes(p: &[u8], s: &[u8]) -> (r: bool)
    ensures
        r == is_prefix_ci(p@, s@),
{
    if p.len() > s.len() {
        return false;
    }
    let mut i: usize = 0;
    while i < p.len()
        invariant
            0 <= i <= p@.len() <= s@.len(),
            forall|j: int| 0 <= j < i ==> spec_lower(s@[j]) == spec_lower(p@[j]),
        decreases p@.len() - i,
    {
        if lower(p[i]) != lower(s[i]) {
            assert(!ci_eq(s@.subrange(0, p@.len() as int), p@));
            return false;
        }
        i = i + 1;
    }
    assert(ci_eq(s@.subrange(0, p@.len() as int), p@));
    true
}

/// Whether `pat` occurs in `s` up to ASCII case, by trying every offset.
pub fn contains_ci_bytes(s: &[u8], pat: &[u8]) -> (r: bool)
    ensures
        r == contains_ci(s@, pat@),
{
    if pat.len() > s.len() {
        assert(!contains_ci(s@, pat@));
        return false;
    }
    let mut j: usize = 0;
    while j <= s.len() - pat.len()
        invariant
            pat@.len() <= s@.len() <= usize::MAX,
            0 <= j <= s@.len() - pat@.len() + 1,
            forall|k: int| 0 <= k < j ==> !ci_eq(#[trigger] s@.subrange(k, k + pat@.len()), pat@),
        decreases s@.len() + 1 - j,
    {
        let mut i: usize = 0;
        let mut all: bool = true;
        while i < pat.len()
            invariant
                pat@.len() <= s@.len() <= usize::MAX,
                0 <= j <= s@.len() - pat@.len(),
                0 <= i <= pat@.len(),
                all == forall|k: int| 0 <= k < i ==> spec_lower(s@[j + k]) == spec_lower(pat@[k]),
            decreases pat@.len() - i,
        {
            if lower(s[j + i]) != lower(pat[i]) {
                all = false;
                i = pat.len();
            } else {
                i = i + 1;
            }
        }
        if all {
            assert(ci_eq(s@.subrange(j as int, j + pat@.len()), pat@));
            return true;
        }
        assert(!ci_eq(s@.subrange(j as int, j + pat@.len()), pat@));
        j = j + 1;
    }
    false
}

/// `v` without leading and trailing ASCII blanks.
pub fn trim_bytes(v: &Vec<u8>) -> (r: Vec<u8>)
    ensures
        r@ == trim_b(v@),
{
    let mut from: usize = 0;
    while from < v.len() && (v[from] == 32 || v[from] == 9)
        invariant
            0 <= from <= v@.len(),
            forall|j: int| 0 <= j < from ==> is_blank(v@[j]),
        decreases v@.len() - from,
    {
        from = from + 1;
    }
    proof {
        lemma_trim_start(v@, from as int);
    }
    let mut to: usize = v.len();
    while to > from && (v[to - 1] == 32 || v[to - 1] == 9)
        invariant
            from <= to <= v@.len(),
            forall|j: int| to <= j < v@.len() ==> is_blank(v@[j]),
            forall|j: int| 0 <= j < from ==> is_blank(v@[j]),
        decreases to,
    {
        to = to - 1;
    }
    let r = subrange_bytes(v, from, to);
    proof {
        let st = v@.skip(from as int);
        if to == from {
            // everything after `from` is blank
            lemma_trim_end(st, 0);
        } else {
            lemma_trim_end(st, to - from);
        }
        assert(st.take(to - from) =~= v@.subrange(from as int, to as int));
    }
    r
}

// ---------------------------------------------------------------------------
// Splitting the policy text into lines.
// ---------------------------------------------------------------------------

/// The lines of `b`, split at `\n` (the separator is not part of a line).
pub open spec fn spec_lines(b: Seq<u8>) -> Seq<Seq<u8>>
    decreases b.len(),
{
    match spec_find_byte(b, 10) {
        None => seq![b],
        Some(i) => {
            if 0 <= i < b.len() {
                seq![b.take(i)] + spec_lines(b.skip(i + 1))
            } else {
                seq![b]
            }
        },
    }
}

/// The lines of `v`, by repeated scans for `\n`.
pub fn split_lines(v: &Vec<u8>) -> (r: Vec<Vec<u8>>)
    ensures
        r@.map_values(|l: Vec<u8>| l@) == spec_lines(v@),
{
    let mut rest: Vec<u8> = clone_bytes(v);
    let mut r: Vec<Vec<u8>> = Vec::new();
    loop
        invariant
            spec_lines(v@) == r@.map_values(|l: Vec<u8>| l@) + spec_lines(rest@),
        decreases rest@.len(),
    {
        proof {
            lemma_find_byte(rest@, 10);
        }
        let ghost pre = r@.map_values(|l: Vec<u8>| l@);
        match find_byte(&rest, 10) {
            None => {
                r.push(rest);
                proof {
                    assert(r@.map_values(|l: Vec<u8>| l@) =~= pre + seq![rest@]);
                }
                return r;
            },
            Some(i) => {
                let line = subrange_bytes(&rest, 0, i);
                let tail = subrange_bytes(&rest, i + 1, rest.len());
                proof {
                    assert(rest@.take(i as int) =~= rest@.subrange(0, i as int));
                    assert(rest@.skip(i + 1) =~= rest@.subrange(i + 1, rest@.len() as int));
                    assert(spec_lines(rest@) =~= seq![line@] + spec_lines(tail@));
                }
                r.push(line);
                proof {
                    assert(r@.map_values(|l: Vec<u8>| l@) =~= pre + seq![line@]);
                    assert((pre + seq![line@]) + spec_lines(tail@) =~= pre + (seq![line@]
                        + spec_lines(tail@)));
                }
                rest = tail;
            },
        }
    }
}

// ---------------------------------------------------------------------------
// Reading one line.
// ---------------------------------------------------------------------------

/// What one line of policy text means.
pub ghost enum DirectiveV {
    /// A `user-agent` line naming one agent pattern.
    Agent(Seq<u8>),
    /// An `allow` or `disallow` line with a path prefix.
    PathRule { allow: bool, prefix: Seq<u8> },
    /// A line that closes the open section.
    SectionBreak,
    /// A line without effect (comments, unknown keys).
    Nothing,
}

/// Exec-side image of [`DirectiveV`].
pub enum Directive {
    Agent(Vec<u8>),
    PathRule { allow: bool, prefix: Vec<u8> },
    SectionBreak,
    Nothing,
}

impl View for Directive {
    type V = DirectiveV;

    open spec fn view(&self) -> DirectiveV {
        match self {
            Directive::Agent(a) => DirectiveV::Agent(a@),
            Directive::PathRule { allow, prefix } => DirectiveV::PathRule {
                allow: *allow,
                prefix: prefix@,
            },
            Directive::SectionBreak => DirectiveV::SectionBreak,
            Directive::Nothing => DirectiveV::Nothing,
        }
    }
}

/// `line` without one trailing carriage return.
pub open spec fn strip_cr(line: Seq<u8>) -> Seq<u8> {
    if line.len() > 0 && line.last() == 13 {
        line.drop_last()
    } else {
        line
    }
}

/// The meaning of one raw line (before `\r` stripping, comment stripping,
/// and key lookup).
pub open spec fn classify_line(raw: Seq<u8>) -> DirectiveV {
    let line = strip_cr(raw);
    let had_comment = spec_find_byte(line, 35) is Some;
    let body = match spec_find_byte(line, 35) {
        Some(i) => line.take(i),
        None => line,
    };
    match spec_find_byte(body, 58) {
        None => if had_comment {
            DirectiveV::Nothing
        } else {
            DirectiveV::SectionBreak
        },
        Some(i) => {
            let key = trim_b(body.take(i));
            let val = trim_b(body.skip(i + 1));
            if ci_eq(key, "user-agent".spec_bytes()) {
                DirectiveV::Agent(val)
            } else if ci_eq(key, "disallow".spec_bytes()) {
                DirectiveV::PathRule { allow: false, prefix: val }
            } else if ci_eq(key, "allow".spec_bytes()) {
                DirectiveV::PathRule { allow: true, prefix: val }
            } else {
                DirectiveV::Nothing
            }
        },
    }
}

/// Reads one raw line.
pub fn classify(raw: &Vec<u8>) -> (d: Directive)
    ensures
        d@ == classify_line(raw@),
{
    let line: Vec<u8> = if raw.len() > 0 && raw[raw.len() - 1] == 13 {
        let l = subrange_bytes(raw, 0, raw.len() - 1);
        proof {
            assert(l@ =~= strip_cr(raw@));
        }
        l
    } else {
        let l = clone_bytes(raw);
        proof {
            assert(l@ =~= strip_cr(raw@));
        }
        l
    };
    let body: Vec<u8>;
    let had_comment: bool;
    proof {
        lemma_find_byte(line@, 35);
    }
    match find_byte(&line, 35) {
        Some(i) => {
            let b = subrange_bytes(&line, 0, i);
            proof {
                assert(b@ =~= line@.take(i as int));
            }
            body = b;
            had_comment = true;
        },
        None => {
            body = line;
            had_comment = false;
        },
    }
    proof {
        lemma_find_byte(body@, 58);
    }
    match find_byte(&body, 58) {
        None => {
            if had_comment {
                Directive::Nothing
            } else {
                Directive::SectionBreak
            }
        },
        Some(i) => {
            let rawkey = subrange_bytes(&body, 0, i);
            let rawval = subrange_bytes(&body, i + 1, body.len());
            proof {
                assert(rawkey@ =~= body@.take(i as int));
                assert(rawval@ =~= body@.skip(i + 1));
            }
            let key = trim_bytes(&rawkey);
            let val = trim_bytes(&rawval);
            if ci_eq_bytes(key.as_slice(), "user-agent".as_bytes()) {
                Directive::Agent(val)
            } else if ci_eq_bytes(key.as_slice(), "disallow".as_bytes()) {
                Directive::PathRule { allow: false, prefix: val }
            } else if ci_eq_bytes(key.as_slice(), "allow".as_bytes()) {
                Directive::PathRule { allow: true, prefix: val }
            } else {
                Directive::Nothing
            }
        },
    }
}

// ---------------------------------------------------------------------------
// Folding the lines into sections.
// ---------------------------------------------------------------------------

/// Parser state: finished sections and the open section.
#[verifier::ext_equal]
pub ghost struct ParseSt {
    pub done: Seq<SectionV>,
    pub agents: Seq<Seq<u8>>,
    pub rules: Seq<RuleV>,
}

pub open spec fn empty_st() -> ParseSt {
    ParseSt { done: seq![], agents: seq![], rules: seq![] }
}

/// Closes the open section, unless it is empty.
pub open spec fn close_st(st: ParseSt) -> ParseSt {
    if st.agents.len() == 0 && st.rules.len() == 0 {
        st
    } else {
        ParseSt {
            done: st.done.push(SectionV { agents: st.agents, rules: st.rules }),
            agents: seq![],
            rules: seq![],
        }
    }
}

/// One line applied to the parser state.
pub open spec fn step_line(st: ParseSt, raw: Seq<u8>) -> ParseSt {
    match classify_line(raw) {
        DirectiveV::Agent(a) => {
            if st.rules.len() > 0 {
                let c = close_st(st);
                ParseSt { done: c.done, agents: seq![a], rules: seq![] }
            } else {
                ParseSt { done: st.done, agents: st.agents.push(a), rules: st.rules }
            }
        },
        DirectiveV::PathRule { allow, prefix } => ParseSt {
            done: st.done,
            agents: st.agents,
            rules: st.rules.push(RuleV { allow, prefix }),
        },
        DirectiveV::SectionBreak => close_st(st),
        DirectiveV::Nothing => st,
    }
}

pub open spec fn fold_lines(st: ParseSt, lines: Seq<Seq<u8>>) -> ParseSt
    decreases lines.len(),
{
    if lines.len() == 0 {
        st
    } else {
        fold_lines(step_line(st, lines[0]), lines.drop_first())
    }
}

/// The sections of a policy text.
pub open spec fn parse_robots_spec(b: Seq<u8>) -> Seq<SectionV> {
    close_st(fold_lines(empty_st(), spec_lines(b))).done
}

/// Parses a policy text into its sections.
pub fn parse_robots(body: &Vec<u8>) -> (p: RobotsPolicy)
    ensures
        p@ == parse_robots_spec(body@),
{
    let lines = split_lines(body);
    let mut sections: Vec<Section> = Vec::new();
    let mut agents: Vec<Vec<u8>> = Vec::new();
    let mut rules: Vec<Rule> = Vec::new();
    let ghost all = spec_lines(body@);
    proof {
        assert(cur_st(sections@, agents@, rules@) =~= empty_st());
        assert(all.skip(0) =~= all);
    }
    let mut i: usize = 0;
    while i < lines.len()
        invariant
            lines@.map_values(|l: Vec<u8>| l@) == all,
            0 <= i <= lines@.len(),
            fold_lines(empty_st(), all) == fold_lines(cur_st(sections@, agents@, rules@), all.skip(i as int)),
        decreases lines@.len() - i,
    {
        let ghost st = cur_st(sections@, agents@, rules@);
        let ghost raw = all[i as int];
        proof {
            assert(all.skip(i as int)[0] == raw);
            assert(all.skip(i as int).drop_first() =~= all.skip(i + 1));
        }
        match classify(&lines[i]) {
            Directive::Agent(a) => {
                if rules.len() > 0 {
                    sections.push(Section { agents, rules });
                    agents = Vec::new();
                    rules = Vec::new();
                    proof {
                        assert(sections@.map_values(|s: Section| s@).last() =~= (SectionV {
                            agents: st.agents,
                            rules: st.rules,
                        }));
                        assert(sections@.map_values(|s: Section| s@) =~= close_st(st).done);
                    }
                }
                agents.push(a);
                proof {
                    assert(cur_st(sections@, agents@, rules@) =~= step_line(st, raw));
                }
            },
            Directive::PathRule { allow, prefix } => {
                rules.push(Rule { allow, prefix });
                proof {
                    assert(rules@.map_values(|r: Rule| r@) =~= st.rules.push(
                        RuleV { allow, prefix: prefix@ },
                    ));
                    assert(cur_st(sections@, agents@, rules@) =~= step_line(st, raw));
                }
            },
            Directive::SectionBreak => {
                if agents.len() > 0 || rules.len() > 0 {
                    sections.push(Section { agents, rules });
                    agents = Vec::new();
                    rules = Vec::new();
                    proof {
                        assert(sections@.map_values(|s: Section| s@).last() =~= (SectionV {
                            agents: st.agents,
                            rules: st.rules,
                        }));
                        assert(sections@.map_values(|s: Section| s@) =~= close_st(st).done);
                    }
                }
                proof {
                    assert(cur_st(sections@, agents@, rules@) =~= step_line(st, raw));
                }
            },
            Directive::Nothing => {
                proof {
                    assert(cur_st(sections@, agents@, rules@) =~= step_line(st, raw));
                }
            },
        }
        i = i + 1;
    }
    let ghost st = cur_st(sections@, agents@, rules@);
    proof {
        assert(all.skip(i as int) =~= Seq::<Seq<u8>>::empty());
    }
    if agents.len() > 0 || rules.len() > 0 {
        sections.push(Section { agents, rules });
        proof {
            assert(sections@.map_values(|s: Section| s@).last() =~= (SectionV {
                agents: st.agents,
                rules: st.rules,
            }));
            assert(sections@.map_values(|s: Section| s@) =~= close_st(st).done);
        }
    }
    let p = RobotsPolicy { sections };
    proof {
        assert(p@ =~= parse_robots_spec(body@));
    }
    p
}

/// The parser state built from the exec-side pieces.
pub open spec fn cur_st(sections: Seq<Section>, agents: Seq<Vec<u8>>, rules: Seq<Rule>) -> ParseSt {
    ParseSt {
        done: sections.map_values(|s: Section| s@),
        agents: agents.map_values(|a: Vec<u8>| a@),
        rules: rules.map_values(|r: Rule| r@),
    }
}

// ---------------------------------------------------------------------------
// Evaluating a policy.
// ---------------------------------------------------------------------------

/// Whether a section applies to `agent`: one of its patterns occurs in the
/// agent name, up to ASCII case.
pub open spec fn section_matches(sec: SectionV, agent: Seq<u8>) -> bool {
    exists|i: int| 0 <= i < sec.agents.len() && contains_ci(agent, sec.agents[i])
}

/// Whether a section is a wildcard section (one of its agents is `*`).
pub open spec fn section_is_wildcard(sec: SectionV) -> bool {
    exists|i: int| 0 <= i < sec.agents.len() && sec.agents[i] == "*".spec_bytes()
}

/// The first section of `sections` that applies to `agent`.
pub open spec fn first_matching(sections: Seq<SectionV>, agent: Seq<u8>) -> Option<SectionV>
    decreases sections.len(),
{
    if sections.len() == 0 {
        None
    } else if section_matches(sections[0], agent) {
        Some(sections[0])
    } else {
        first_matching(sections.drop_first(), agent)
    }
}

/// The first wildcard section of `sections`.
pub open spec fn first_wildcard(sections: Seq<SectionV>) -> Option<SectionV>
    decreases sections.len(),
{
    if sections.len() == 0 {
        None
    } else if section_is_wildcard(sections[0]) {
        Some(sections[0])
    } else {
        first_wildcard(sections.drop_first())
    }
}

/// The rules consulted for `agent`: the first section that applies, else the
/// first wildcard section, else no rules at all.
pub open spec fn rules_for(sections: Seq<SectionV>, agent: Seq<u8>) -> Seq<RuleV> {
    match first_matching(sections, agent) {
        Some(s) => s.rules,
        None => match first_wildcard(sections) {
            Some(s) => s.rules,
            None => seq![],
        },
    }
}

/// The verdict of a rule list on a path: the first applicable rule decides;
/// an empty rule path, or no applicable rule, allows.
pub open spec fn rule_verdict(rules: Seq<RuleV>, path: Seq<u8>) -> bool
    decreases rules.len(),
{
    if rules.len() == 0 {
        true
    } else if rules[0].prefix.len() == 0 {
        true
    } else if is_prefix_ci(rules[0].prefix, path) {
        rules[0].allow
    } else {
        rule_verdict(rules.drop_first(), path)
    }
}

/// Whether a parsed policy permits `agent` to fetch `path`.
pub open spec fn spec_allowed(sections: Seq<SectionV>, agent: Seq<u8>, path: Seq<u8>) -> bool {
    rule_verdict(rules_for(sections, agent), path)
}

/// The agent name this crawler announces in robots lookups.
pub open spec fn crawler_agent() -> Seq<u8> {
    "scrapeprice".spec_bytes()
}

/// Whether a policy text permits this crawler to fetch `path`: the verdicts
/// for the wildcard agent and for the crawler's own agent name must both
/// permit it.
pub open spec fn spec_robots_ok(robots: Seq<u8>, path: Seq<u8>) -> bool {
    let sections = parse_robots_spec(robots);
    spec_allowed(sections, "*".spec_bytes(), path) && spec_allowed(sections, crawler_agent(), path)
}

impl RobotsPolicy {
    /// The verdict of this policy on `agent` fetching `path`.
    pub fn allowed(&self, agent: &[u8], path: &[u8]) -> (r: bool)
        ensures
            r == spec_allowed(self@, agent@, path@),
    {
        let sec = self.find_section(agent);
        let star: Vec<u8> = slice_to_vec("*".as_bytes());
        match sec {
            Some(idx) => self.verdict(idx, path),
            None => {
                let wild = self.find_star(&star);
                match wild {
                    Some(idx) => self.verdict(idx, path),
                    None => true,
                }
            },
        }
    }

    /// The index of the first section that applies to `agent`.
    fn find_section(&self, agent: &[u8]) -> (r: Option<usize>)
        ensures
            match r {
                Some(i) => 0 <= i < self@.len() && first_matching(self@, agent@) == Some(
                    self@[i as int],
                ),
                None => first_matching(self@, agent@) is None,
            },
    {
        proof {
            assert(self@.skip(0) =~= self@);
        }
        let mut i: usize = 0;
        while i < self.sections.len()
            invariant
                0 <= i <= self@.len(),
                self@.len() == self.sections@.len(),
                forall|k: int| 0 <= k < self@.len() ==> self@[k] == self.sections@[k]@,
                first_matching(self@, agent@) == first_matching(self@.skip(i as int), agent@),
            decreases self@.len() - i,
        {
            let sec = &self.sections[i];
            let mut k: usize = 0;
            let mut m: bool = false;
            while k < sec.agents.len() && !m
                invariant
                    0 <= k <= sec.agents@.len(),
                    m ==> section_matches(sec@, agent@),
                    !m ==> forall|j: int| 0 <= j < k ==> !contains_ci(agent@, sec@.agents[j]),
                decreases sec.agents@.len() - k + (if m { 0int } else { 1int }),
            {
                if contains_ci_bytes(agent, sec.agents[k].as_slice()) {
                    m = true;
                    proof {
                        assert(sec@.agents[k as int] == sec.agents@[k as int]@);
                    }
                } else {
                    k = k + 1;
                }
            }
            proof {
                assert(self@.skip(i as int)[0] == self@[i as int]);
                assert(self@.skip(i as int).drop_first() =~= self@.skip(i + 1));
            }
            if m {
                return Some(i);
            }
            proof {
                assert(!section_matches(self@[i as int], agent@));
            }
            i = i + 1;
        }
        proof {
            assert(self@.skip(i as int) =~= Seq::<SectionV>::empty());
        }
        None
    }

    /// The index of the first wildcard section; `star` must hold `*`.
    fn find_star(&self, star: &Vec<u8>) -> (r: Option<usize>)
        requires
            star@ == "*".spec_bytes(),
        ensures
            match r {
                Some(i) => 0 <= i < self@.len() && first_wildcard(self@) == Some(self@[i as int]),
                None => first_wildcard(self@) is None,
            },
    {
        proof {
            assert(self@.skip(0) =~= self@);
        }
        let mut i: usize = 0;
        while i < self.sections.len()
            invariant
                star@ == "*".spec_bytes(),
                0 <= i <= self@.len(),
                self@.len() == self.sections@.len(),
                forall|k: int| 0 <= k < self@.len() ==> self@[k] == self.sections@[k]@,
                first_wildcard(self@) == first_wildcard(self@.skip(i as int)),
            decreases self@.len() - i,
        {
            let sec = &self.sections[i];
            let mut k: usize = 0;
            let mut m: bool = false;
            while k < sec.agents.len() && !m
                invariant
                    star@ == "*".spec_bytes(),
                    0 <= k <= sec.agents@.len(),
                    m ==> section_is_wildcard(sec@),
                    !m ==> forall|j: int| 0 <= j < k ==> sec@.agents[j] != "*".spec_bytes(),
                decreases sec.agents@.len() - k + (if m { 0int } else { 1int }),
            {
                if crate::url::bytes_eq(&sec.agents[k], star) {
                    m = true;
                    proof {
                        assert(sec@.agents[k as int] == sec.agents@[k as int]@);
                    }
                } else {
                    k = k + 1;
                }
            }
            proof {
                assert(self@.skip(i as int)[0] == self@[i as int]);
                assert(self@.skip(i as int).drop_first() =~= self@.skip(i + 1));
            }
            if m {
                return Some(i);
            }
            i = i + 1;
        }
        proof {
            assert(self@.skip(i as int) =~= Seq::<SectionV>::empty());
        }
        None
    }

    /// The verdict of section `idx`'s rules on `path`.
    fn verdict(&self, idx: usize, path: &[u8]) -> (r: bool)
        requires
            idx < self@.len(),
        ensures
            r == rule_verdict(self@[idx as int].rules, path@),
    {
        let rules = &self.sections[idx].rules;
        let ghost rv = self@[idx as int].rules;
        proof {
            assert(self@[idx as int] == self.sections@[idx as int]@);
            assert(rv.skip(0) =~= rv);
        }
        let mut i: usize = 0;
        while i < rules.len()
            invariant
                idx < self@.len(),
                rv == self@[idx as int].rules,
                0 <= i <= rules@.len(),
                rv.len() == rules@.len(),
                forall|k: int| 0 <= k < rv.len() ==> rv[k] == rules@[k]@,
                rule_verdict(rv, path@) == rule_verdict(rv.skip(i as int), path@),
            decreases rules@.len() - i,
        {
            proof {
                assert(rv[i as int] == rules@[i as int]@);
                assert(rv.skip(i as int)[0] == rv[i as int]);
                assert(rv.skip(i as int).drop_first() =~= rv.skip(i + 1));
            }
            if rules[i].prefix.len() == 0 {
                assert(rule_verdict(rv.skip(i as int), path@));
                return true;
            }
            if prefix_ci_bytes(rules[i].prefix.as_slice(), path) {
                assert(rule_verdict(rv.skip(i as int), path@) == rv[i as int].allow);
                return rules[i].allow;
            }
            i = i + 1;
        }
        proof {
            assert(rv.skip(i as int) =~= Seq::<RuleV>::empty());
        }
        true
    }
}

/// Whether the policy text `robots` permits this crawler to fetch `path`.
///
/// Both the wildcard agent's verdict and the crawler's own agent's verdict
/// must permit the path.
pub fn robots_ok(robots: &Vec<u8>, path: &[u8]) -> (r: bool)
    ensures
        r == spec_robots_ok(robots@, path@),
{
    let policy = parse_robots(robots);
    let star: Vec<u8> = slice_to_vec("*".as_bytes());
    let me: Vec<u8> = slice_to_vec("scrapeprice".as_bytes());
    let a = policy.allowed(star.as_slice(), path);
    let b = policy.allowed(me.as_slice(), path);
    a && b
}

/// A policy that denies a path to the crawler's own agent denies it
/// overall, whatever the wildcard verdict says: permission is the
/// conjunction of the two verdicts, not a fallback.
pub proof fn lemma_agent_denial_overrides(robots: Seq<u8>, path: Seq<u8>)
    ensures
        !spec_allowed(parse_robots_spec(robots), crawler_agent(), path) ==> !spec_robots_ok(
            robots,
            path,
        ),
        !spec_allowed(parse_robots_spec(robots), "*".spec_bytes(), path) ==> !spec_robots_ok(
            robots,
            path,
        ),
{
}

} // verus!
