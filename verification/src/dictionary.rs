//! The custom dictionary: user rules that rewrite words the recogniser
//! consistently gets wrong. Rules are applied in order; a rule is either a
//! literal replacement or a case-insensitive one that goes through `regex`.
use vstd::prelude::*;

use regex::{Regex, RegexBuilder};

use crate::text::{chars_of, string_from};

verus! {

/// One replacement rule.
pub struct DictRule {
    pub from: String,
    pub to: String,
    pub case_insensitive: bool,
    pub enabled: bool,
}

/// The value an absent `enabled` flag takes when rules are read from settings.
pub fn default_true() -> (r: bool)
    ensures
        r == true,
{
    true
}

// ---------------------------------------------------------------------------
// Literal replacement
// ---------------------------------------------------------------------------

/// Whether `pat` occurs in `s` at position `i`.
pub open spec fn occurs_at(s: Seq<char>, pat: Seq<char>, i: int) -> bool {
    0 <= i && i + pat.len() <= s.len() && s.subrange(i, i + pat.len()) == pat
}

/// Replaces every occurrence of the non-empty `from` in `s` by `to`, scanning
/// left to right; occurrences do not overlap and text produced by a
/// replacement is not scanned again (what `str::replace` does).
pub open spec fn replace_all(s: Seq<char>, from: Seq<char>, to: Seq<char>) -> Seq<char>
    decreases s.len(),
{
    if from.len() == 0 || s.len() < from.len() {
        s
    } else if s.take(from.len() as int) == from {
        to + replace_all(s.skip(from.len() as int), from, to)
    } else {
        seq![s[0]] + replace_all(s.skip(1), from, to)
    }
}

/// Whether `pat` occurs in `s` at `i`, checked on vectors.
fn matches_at(s: &Vec<char>, i: usize, pat: &Vec<char>) -> (r: bool)
    requires
        i + pat.len() <= s.len(),
    ensures
        r == (s@.subrange(i as int, i + pat.len()) == pat@),
{
    let mut j: usize = 0;
    while j < pat.len()
        invariant
            j <= pat.len(),
            i + pat.len() <= s.len(),
            forall|k: int| 0 <= k < j ==> s@[i + k] == pat@[k],
        decreases pat.len() - j,
    {
        if s[i + j] != pat[j] {
            assert(s@.subrange(i as int, i + pat.len())[j as int] != pat@[j as int]);
            return false;
        }
        j += 1;
    }
    assert(s@.subrange(i as int, i + pat.len()) =~= pat@);
    true
}

/// Literal replacement on character vectors.
fn replace_chars(s: &Vec<char>, from: &Vec<char>, to: &Vec<char>) -> (out: Vec<char>)
    requires
        from.len() > 0,
    ensures
        out@ == replace_all(s@, from@, to@),
{
    let mut out: Vec<char> = Vec::new();
    let mut i: usize = 0;
    assert(s@.skip(0) =~= s@);
    while i < s.len()
        invariant
            i <= s.len(),
            from.len() > 0,
            out@ + replace_all(s@.skip(i as int), from@, to@) == replace_all(s@, from@, to@),
        decreases s.len() - i,
    {
        let ghost rest = s@.skip(i as int);
        if from.len() <= s.len() - i && matches_at(s, i, from) {
            assert(rest.take(from.len() as int) =~= s@.subrange(i as int, i + from.len()));
            assert(rest.skip(from.len() as int) =~= s@.skip(i + from.len()));
            let ghost before = out@;
            let mut k: usize = 0;
            while k < to.len()
                invariant
                    k <= to.len(),
                    out@ == before + to@.take(k as int),
                decreases to.len() - k,
            {
                out.push(to[k]);
                k += 1;
                assert(out@ =~= before + to@.take(k as int));
            }
            assert(to@.take(to.len() as int) =~= to@);
            assert(out@ + replace_all(s@.skip(i + from.len()), from@, to@) =~= before + (to@
                + replace_all(rest.skip(from.len() as int), from@, to@)));
            i = i + from.len();
        } else {
            if from.len() <= s.len() - i {
                assert(rest.take(from.len() as int) =~= s@.subrange(i as int, i + from.len()));
            }
            assert(rest.skip(1) =~= s@.skip(i + 1));
            assert(rest =~= seq![s@[i as int]] + s@.skip(i + 1));
            let ghost before = out@;
            out.push(s[i]);
            assert(out@ + replace_all(s@.skip(i + 1), from@, to@) =~= before + (seq![s@[i as int]]
                + replace_all(rest.skip(1), from@, to@)));
            i = i + 1;
        }
    }
    assert(s@.skip(s.len() as int) =~= Seq::<char>::empty());
    assert(out@ + Seq::<char>::empty() =~= out@);
    out
}

/// `str::replace` for a non-empty pattern.
pub fn replace_literal(text: &str, from: &str, to: &str) -> (out: String)
    requires
        from@.len() > 0,
    ensures
        out@ == replace_all(text@, from@, to@),
{
    let s = chars_of(text);
    let f = chars_of(from);
    let t = chars_of(to);
    let r = replace_chars(&s, &f, &t);
    string_from(&r)
}

// ---------------------------------------------------------------------------
// Case-insensitive replacement through `regex`
// ---------------------------------------------------------------------------

/// `regex::Regex`, a compiled regular expression, carried opaquely.
#[verifier::external_type_specification]
#[verifier::external_body]
pub struct ExRegex(Regex);

/// `regex::RegexBuilder`, carried opaquely.
#[verifier::external_type_specification]
#[verifier::external_body]
pub struct ExRegexBuilder(RegexBuilder);

/// `regex::Error`, the reason a pattern does not compile, carried opaquely.
#[verifier::external_type_specification]
#[verifier::external_body]
pub struct ExRegexError(regex::Error);

/// The characters that `regex::escape` prefixes with a backslash.
pub open spec fn is_meta_character(c: char) -> bool {
    c == '\\' || c == '.' || c == '+' || c == '*' || c == '?' || c == '(' || c == ')' || c == '|'
        || c == '[' || c == ']' || c == '{' || c == '}' || c == '^' || c == '$' || c == '#'
        || c == '&' || c == '-' || c == '~'
}

/// `s` with every meta character preceded by a backslash.
pub open spec fn escaped(s: Seq<char>) -> Seq<char>
    decreases s.len(),
{
    if s.len() == 0 {
        s
    } else {
        let head = if is_meta_character(s[0]) {
            seq!['\\', s[0]]
        } else {
            seq![s[0]]
        };
        head + escaped(s.skip(1))
    }
}

/// The pattern a `RegexBuilder` was made from.
pub uninterp spec fn builder_pattern(b: RegexBuilder) -> Seq<char>;

/// Whether a `RegexBuilder` has case-insensitive matching switched on.
pub uninterp spec fn builder_case_insensitive(b: RegexBuilder) -> bool;

/// Whether `RegexBuilder::build` succeeds on a pattern with the given
/// case-insensitivity flag and all other settings at their defaults.
pub uninterp spec fn regex_builds(pattern: Seq<char>, case_insensitive: bool) -> bool;

/// The pattern a compiled `Regex` was built from.
pub uninterp spec fn regex_pattern(re: Regex) -> Seq<char>;

/// Whether a compiled `Regex` matches case-insensitively.
pub uninterp spec fn regex_case_insensitive(re: Regex) -> bool;

/// What `Regex::replace_all` returns for a regex built from `pattern` with the
/// given case-insensitivity flag, on `haystack`, when every match is replaced
/// by `replacement` taken literally (through `regex::NoExpand`).
pub uninterp spec fn regex_replace_all(
    pattern: Seq<char>,
    case_insensitive: bool,
    haystack: Seq<char>,
    replacement: Seq<char>,
) -> Seq<char>;

/// Whether `c` is one of the characters that `regex::escape` escapes.
fn is_meta(c: char) -> (r: bool)
    ensures
        r == is_meta_character(c),
{
    c == '\\' || c == '.' || c == '+' || c == '*' || c == '?' || c == '(' || c == ')' || c == '|'
        || c == '[' || c == ']' || c == '{' || c == '}' || c == '^' || c == '$' || c == '#'
        || c == '&' || c == '-' || c == '~'
}

/// The pattern that matches `s` literally, as `regex::escape` writes it:
/// each meta character preceded by a backslash.
fn regex_escape(s: &str) -> (r: String)
    ensures
        r@ == escaped(s@),
{
    let chars = chars_of(s);
    let ghost t = chars@;
    let mut out: Vec<char> = Vec::new();
    let mut i: usize = 0;
    assert(t.skip(0) =~= t);
    while i < chars.len()
        invariant
            i <= chars.len(),
            chars@ == t,
            out@ + escaped(t.skip(i as int)) == escaped(t),
        decreases chars.len() - i,
    {
        let c = chars[i];
        let ghost before = out@;
        assert(t.skip(i as int).skip(1) =~= t.skip(i + 1));
        assert(t.skip(i as int)[0] == c);
        if is_meta(c) {
            out.push('\\');
        }
        out.push(c);
        assert(out@ + escaped(t.skip(i + 1)) =~= before + escaped(t.skip(i as int)));
        i += 1;
    }
    assert(t.skip(i as int) =~= Seq::<char>::empty());
    assert(out@ + escaped(t.skip(i as int)) =~= out@);
    string_from(&out)
}

/// `RegexBuilder::new`: a builder for `pattern`, case-sensitive by default.
#[verifier::external_body]
fn regex_builder(pattern: &str) -> (b: RegexBuilder)
    ensures
        builder_pattern(b) == pattern@,
        builder_case_insensitive(b) == false,
{
    RegexBuilder::new(pattern)
}

/// `RegexBuilder::case_insensitive`: sets the case-insensitivity flag and
/// leaves the pattern alone.
#[verifier::external_body]
fn regex_builder_case_insensitive(b: &mut RegexBuilder, yes: bool)
    ensures
        builder_pattern(*final(b)) == builder_pattern(*old(b)),
        builder_case_insensitive(*final(b)) == yes,
{
    b.case_insensitive(yes);
}

/// `RegexBuilder::build`: compiles the pattern with the builder's flags.
#[verifier::external_body]
fn regex_build(b: &RegexBuilder) -> (r: Result<Regex, regex::Error>)
    ensures
        r is Ok <==> regex_builds(builder_pattern(*b), builder_case_insensitive(*b)),
        r matches Ok(re) ==> regex_pattern(re) == builder_pattern(*b)
            && regex_case_insensitive(re) == builder_case_insensitive(*b),
{
    b.build()
}

/// `Regex::replace_all` with `regex::NoExpand(replacement)`: every match is
/// replaced by the replacement text as it is, `$` included; the result made
/// owned.
#[verifier::external_body]
fn regex_replace(re: &Regex, haystack: &str, replacement: &str) -> (r: String)
    ensures
        r@ == regex_replace_all(
            regex_pattern(*re),
            regex_case_insensitive(*re),
            haystack@,
            replacement@,
        ),
{
    re.replace_all(haystack, regex::NoExpand(replacement)).into_owned()
}

// ---------------------------------------------------------------------------
// Applying rules
// ---------------------------------------------------------------------------

/// Whether a rule takes part in rewriting at all.
pub open spec fn rule_active(r: DictRule) -> bool {
    r.enabled && r.from@.len() > 0
}

/// The text after one rule: inactive rules change nothing; literal rules
/// replace every occurrence; case-insensitive rules replace every match of the
/// escaped `from` through `regex`, and change nothing when the regex cannot be
/// built.
pub open spec fn apply_rule(text: Seq<char>, r: DictRule) -> Seq<char> {
    if !rule_active(r) {
        text
    } else if r.case_insensitive {
        if regex_builds(escaped(r.from@), true) {
            regex_replace_all(escaped(r.from@), true, text, r.to@)
        } else {
            text
        }
    } else {
        replace_all(text, r.from@, r.to@)
    }
}

/// The text after all rules, first rule first.
pub open spec fn apply_rules(text: Seq<char>, rules: Seq<DictRule>) -> Seq<char>
    decreases rules.len(),
{
    if rules.len() == 0 {
        text
    } else {
        apply_rule(apply_rules(text, rules.drop_last()), rules.last())
    }
}

/// Rewrites `text` with one rule.
fn apply_one(text: String, rule: &DictRule) -> (out: String)
    ensures
        out@ == apply_rule(text@, *rule),
{
    if !rule.enabled || rule.from.as_str().is_empty() {
        return text;
    }
    if rule.case_insensitive {
        let pattern = regex_escape(rule.from.as_str());
        let mut builder = regex_builder(pattern.as_str());
        regex_builder_case_insensitive(&mut builder, true);
        match regex_build(&builder) {
            Ok(re) => regex_replace(&re, text.as_str(), rule.to.as_str()),
            Err(_) => text,
        }
    } else {
        replace_literal(text.as_str(), rule.from.as_str(), rule.to.as_str())
    }
}

/// Rewrites `text` with every rule, in order.
pub fn apply(text: &str, rules: &[DictRule]) -> (out: String)
    ensures
        out@ == apply_rules(text@, rules@),
{
    let mut out = String::from_str(text);
    let mut i: usize = 0;
    assert(rules@.take(0) =~= Seq::<DictRule>::empty());
    while i < rules.len()
        invariant
            i <= rules@.len(),
            out@ == apply_rules(text@, rules@.take(i as int)),
        decreases rules.len() - i,
    {
        out = apply_one(out, &rules[i]);
        assert(rules@.take(i + 1).drop_last() =~= rules@.take(i as int));
        i += 1;
    }
    assert(rules@.take(rules@.len() as int) =~= rules@);
    out
}

// ---------------------------------------------------------------------------
// Laws
// ---------------------------------------------------------------------------

/// Rules apply in a fixed order: applying `first` and then `second` is the
/// same as applying the concatenated list.
pub proof fn law_rules_compose(text: Seq<char>, first: Seq<DictRule>, second: Seq<DictRule>)
    ensures
        apply_rules(text, first + second) == apply_rules(apply_rules(text, first), second),
    decreases second.len(),
{
    if second.len() == 0 {
        assert(first + second =~= first);
    } else {
        assert((first + second).drop_last() =~= first + second.drop_last());
        assert((first + second).last() == second.last());
        law_rules_compose(text, first, second.drop_last());
    }
}

/// A disabled rule, or one with an empty `from`, can be removed from the list
/// without changing the result.
pub proof fn law_inactive_rule_skipped(
    text: Seq<char>,
    before: Seq<DictRule>,
    r: DictRule,
    after: Seq<DictRule>,
)
    requires
        !r.enabled || r.from@.len() == 0,
    ensures
        apply_rules(text, before.push(r) + after) == apply_rules(text, before + after),
{
    law_rules_compose(text, before.push(r), after);
    law_rules_compose(text, before, after);
    assert(before.push(r).drop_last() =~= before);
}

/// A literal replacement leaves text in which `from` does not occur unchanged.
pub proof fn law_literal_absent_unchanged(s: Seq<char>, from: Seq<char>, to: Seq<char>)
    requires
        from.len() > 0,
        forall|i: int| !occurs_at(s, from, i),
    ensures
        replace_all(s, from, to) == s,
    decreases s.len(),
{
    if s.len() >= from.len() {
        assert(s.take(from.len() as int) =~= s.subrange(0, from.len() as int));
        assert(!occurs_at(s, from, 0));
        let t = s.skip(1);
        assert forall|i: int| !occurs_at(t, from, i) by {
            if occurs_at(t, from, i) {
                assert(s.subrange(i + 1, i + 1 + from.len()) =~= t.subrange(i, i + from.len()));
                assert(occurs_at(s, from, i + 1));
            }
        }
        law_literal_absent_unchanged(t, from, to);
        assert(s =~= seq![s[0]] + t);
    }
}

proof fn lemma_replace_at_first(s: Seq<char>, from: Seq<char>, to: Seq<char>, i: int)
    requires
        from.len() > 0,
        occurs_at(s, from, i),
        forall|j: int| 0 <= j < i ==> !occurs_at(s, from, j),
    ensures
        replace_all(s, from, to) == s.take(i) + to + replace_all(s.skip(i + from.len()), from, to),
    decreases i,
{
    let m = from.len() as int;
    assert(s.take(m) =~= s.subrange(0, m));
    if i == 0 {
        assert(s.take(0) =~= Seq::<char>::empty());
        assert(s.take(0) + to =~= to);
    } else {
        assert(!occurs_at(s, from, 0));
        let t = s.skip(1);
        assert(t.subrange(i - 1, i - 1 + m) =~= s.subrange(i, i + m));
        assert(occurs_at(t, from, i - 1));
        assert forall|j: int| 0 <= j < i - 1 implies !occurs_at(t, from, j) by {
            if occurs_at(t, from, j) {
                assert(s.subrange(j + 1, j + 1 + m) =~= t.subrange(j, j + m));
                assert(occurs_at(s, from, j + 1));
            }
        }
        lemma_replace_at_first(t, from, to, i - 1);
        assert(t.skip(i - 1 + m) =~= s.skip(i + m));
        assert(s.take(i) =~= seq![s[0]] + t.take(i - 1));
        assert(s.take(i) + to + replace_all(s.skip(i + m), from, to) =~= seq![s[0]] + (t.take(i - 1) + to
            + replace_all(t.skip(i - 1 + m), from, to)));
    }
}

/// An enabled case-sensitive rule replaces every occurrence of its `from`,
/// left to right: the text before the first occurrence is kept, that
/// occurrence becomes `to`, and the text after it is rewritten by the same
/// rule.
pub proof fn law_literal_rule_replaces_first_then_rest(text: Seq<char>, r: DictRule, i: int)
    requires
        r.enabled,
        !r.case_insensitive,
        r.from@.len() > 0,
        occurs_at(text, r.from@, i),
        forall|j: int| 0 <= j < i ==> !occurs_at(text, r.from@, j),
    ensures
        apply_rule(text, r) == text.take(i) + r.to@ + apply_rule(text.skip(i + r.from@.len()), r),
{
    lemma_replace_at_first(text, r.from@, r.to@, i);
}

/// An enabled case-sensitive rule leaves a text in which its `from` does not
/// occur unchanged.
pub proof fn law_literal_rule_without_occurrence(text: Seq<char>, r: DictRule)
    requires
        r.enabled,
        !r.case_insensitive,
        r.from@.len() > 0,
        forall|i: int| !occurs_at(text, r.from@, i),
    ensures
        apply_rule(text, r) == text,
{
    law_literal_absent_unchanged(text, r.from@, r.to@);
}

/// Replacing a word by itself changes nothing.
pub proof fn law_literal_identity(s: Seq<char>, from: Seq<char>)
    ensures
        replace_all(s, from, from) == s,
    decreases s.len(),
{
    if from.len() == 0 || s.len() < from.len() {
    } else if s.take(from.len() as int) == from {
        law_literal_identity(s.skip(from.len() as int), from);
        assert(s =~= s.take(from.len() as int) + s.skip(from.len() as int));
    } else {
        law_literal_identity(s.skip(1), from);
        assert(s =~= seq![s[0]] + s.skip(1));
    }
}

} // verus!
