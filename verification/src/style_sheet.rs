//! Style sheets declared once per class name, and class names derived from module paths.

use vstd::prelude::*;
use vstd::string::*;

use crate::css::{declarations_text, RespoStyle};
use crate::text::{append_str, push_char};

verus! {

/// The characters of a string slice, in order.
pub fn chars_of(s: &str) -> (v: Vec<char>)
    ensures
        v@ == s@,
{
    let mut v: Vec<char> = Vec::new();
    for c in it: s.chars()
        invariant
            v@ == it.seq().take(it.index() as int),
            it.seq() == s@,
    {
        v.push(c);
    }
    v
}

/// A `String` holding the given characters.
pub fn string_of(v: &Vec<char>) -> (s: String)
    ensures
        s@ == v@,
{
    let mut s = String::new();
    let mut i: usize = 0;
    while i < v.len()
        invariant
            i <= v@.len(),
            s@ == v@.subrange(0, i as int),
        decreases v@.len() - i,
    {
        push_char(&mut s, v[i]);
        assert(v@.subrange(0, i + 1) =~= v@.subrange(0, i as int).push(v@[i as int]));
        i = i + 1;
    }
    assert(v@.subrange(0, v@.len() as int) =~= v@);
    s
}

/// Every occurrence of `pat`, scanning from the left without overlaps, replaced by `rep`.
pub open spec fn replace_all(s: Seq<char>, pat: Seq<char>, rep: Seq<char>) -> Seq<char>
    decreases s.len(),
{
    if s.len() == 0 {
        Seq::empty()
    } else if pat.len() > 0 && pat.len() <= s.len() && s.subrange(0, pat.len() as int) == pat {
        rep + replace_all(s.skip(pat.len() as int), pat, rep)
    } else {
        seq![s[0]] + replace_all(s.skip(1), pat, rep)
    }
}

/// `s` without `prefix` when it starts with it.
pub open spec fn strip_prefix(s: Seq<char>, prefix: Seq<char>) -> Seq<char> {
    if prefix.len() <= s.len() && s.subrange(0, prefix.len() as int) == prefix {
        s.skip(prefix.len() as int)
    } else {
        s
    }
}

/// `s` without `suffix` when it ends with it.
pub open spec fn strip_suffix(s: Seq<char>, suffix: Seq<char>) -> Seq<char> {
    if suffix.len() <= s.len() && s.subrange(s.len() - suffix.len(), s.len() as int) == suffix {
        s.subrange(0, s.len() - suffix.len())
    } else {
        s
    }
}

/// Every `/` and `.` replaced by `_`.
pub open spec fn underscore_separators(s: Seq<char>) -> Seq<char> {
    s.map_values(|c: char| if c == '/' || c == '.' { '_' } else { c })
}

/// The class-name stem of a module or file path: without a leading `src/` and a
/// trailing `.rs`, with `::`, `/` and `.` turned into `_`.
pub open spec fn css_name_of_path(p: Seq<char>) -> Seq<char> {
    underscore_separators(
        replace_all(strip_suffix(strip_prefix(p, "src/"@), ".rs"@), "::"@, "_"@),
    )
}

fn starts_with_at(s: &Vec<char>, at: usize, pat: &Vec<char>) -> (b: bool)
    requires
        at <= s@.len(),
    ensures
        b == (pat@.len() <= s@.len() - at && s@.subrange(at as int, at + pat@.len()) == pat@),
{
    if pat.len() > s.len() - at {
        return false;
    }
    let n = s.len();
    let mut j: usize = 0;
    while j < pat.len()
        invariant
            n == s@.len(),
            pat@.len() <= s@.len() - at,
            at + pat@.len() <= s@.len(),
            j <= pat@.len(),
            forall|k: int| 0 <= k < j ==> s@[at + k] == pat@[k],
        decreases pat@.len() - j,
    {
        assert(at + j < s@.len());
        let idx: usize = at + j;
        if s[idx] != pat[j] {
            assert(s@.subrange(at as int, at + pat@.len())[j as int] != pat@[j as int]);
            return false;
        }
        j = j + 1;
    }
    assert(s@.subrange(at as int, at + pat@.len()) =~= pat@);
    true
}

proof fn lemma_skip_subrange(s: Seq<char>, i: int, n: int)
    requires
        0 <= i,
        0 <= n,
        i + n <= s.len(),
    ensures
        s.skip(i).subrange(0, n) == s.subrange(i, i + n),
        s.skip(i).skip(n) == s.skip(i + n),
{
    assert(s.skip(i).subrange(0, n) =~= s.subrange(i, i + n));
    assert(s.skip(i).skip(n) =~= s.skip(i + n));
}

/// Replaces every occurrence of `pat` by `rep`, scanning from the left.
pub fn replace_chars(s: &Vec<char>, pat: &Vec<char>, rep: &Vec<char>) -> (r: Vec<char>)
    ensures
        r@ == replace_all(s@, pat@, rep@),
{
    let mut out: Vec<char> = Vec::new();
    let mut i: usize = 0;
    assert(s@.skip(0) =~= s@);
    assert(out@ + replace_all(s@, pat@, rep@) =~= replace_all(s@, pat@, rep@));
    while i < s.len()
        invariant
            i <= s@.len(),
            out@ + replace_all(s@.skip(i as int), pat@, rep@) == replace_all(s@, pat@, rep@),
        decreases s@.len() - i,
    {
        let ghost rest = s@.skip(i as int);
        if pat.len() > 0 && starts_with_at(s, i, pat) {
            proof {
                lemma_skip_subrange(s@, i as int, pat@.len() as int);
            }
            let mut j: usize = 0;
            let ghost before = out@;
            while j < rep.len()
                invariant
                    j <= rep@.len(),
                    out@ == before + rep@.subrange(0, j as int),
                decreases rep@.len() - j,
            {
                out.push(rep[j]);
                assert(rep@.subrange(0, j + 1) =~= rep@.subrange(0, j as int).push(rep@[j as int]));
                j = j + 1;
            }
            assert(rep@.subrange(0, rep@.len() as int) =~= rep@);
            assert(before + rep@ + replace_all(rest.skip(pat@.len() as int), pat@, rep@) == before + (
            rep@ + replace_all(rest.skip(pat@.len() as int), pat@, rep@)));
            i = i + pat.len();
        } else {
            proof {
                lemma_skip_subrange(s@, i as int, 1);
                if pat@.len() > 0 && pat@.len() <= rest.len() {
                    lemma_skip_subrange(s@, i as int, pat@.len() as int);
                }
            }
            let ghost before = out@;
            out.push(s[i]);
            assert(before.push(s@[i as int]) + replace_all(rest.skip(1), pat@, rep@) == before + (seq![
                rest[0],
            ] + replace_all(rest.skip(1), pat@, rep@)));
            i = i + 1;
        }
    }
    assert(s@.skip(s@.len() as int) =~= Seq::<char>::empty());
    assert(out@ + Seq::<char>::empty() =~= out@);
    out
}

/// Turns `src/a/b.rs` into `a_b` and `app::ui` into `app_ui`, for naming generated classes.
pub fn css_name_from_path(p: &str) -> (r: String)
    ensures
        r@ == css_name_of_path(p@),
{
    let mut s = chars_of(p);
    let prefix = chars_of("src/");
    if starts_with_at(&s, 0, &prefix) {
        let mut t: Vec<char> = Vec::new();
        let mut i: usize = prefix.len();
        while i < s.len()
            invariant
                prefix@.len() <= i <= s@.len(),
                t@ == s@.subrange(prefix@.len() as int, i as int),
            decreases s@.len() - i,
        {
            t.push(s[i]);
            assert(s@.subrange(prefix@.len() as int, i + 1) =~= s@.subrange(
                prefix@.len() as int,
                i as int,
            ).push(s@[i as int]));
            i = i + 1;
        }
        assert(t@ =~= s@.skip(prefix@.len() as int));
        s = t;
    }
    assert(s@ == strip_prefix(p@, "src/"@));
    let suffix = chars_of(".rs");
    if suffix.len() <= s.len() && starts_with_at(&s, s.len() - suffix.len(), &suffix) {
        s.truncate(s.len() - suffix.len());
    }
    let ghost stripped = s@;
    assert(stripped == strip_suffix(strip_prefix(p@, "src/"@), ".rs"@));
    let colons = chars_of("::");
    let under = chars_of("_");
    let replaced = replace_chars(&s, &colons, &under);
    let mut out: Vec<char> = Vec::new();
    let mut i: usize = 0;
    while i < replaced.len()
        invariant
            i <= replaced@.len(),
            out@ == underscore_separators(replaced@).subrange(0, i as int),
        decreases replaced@.len() - i,
    {
        let c = replaced[i];
        if c == '/' || c == '.' {
            out.push('_');
        } else {
            out.push(c);
        }
        assert(underscore_separators(replaced@).subrange(0, i + 1) =~= underscore_separators(
            replaced@,
        ).subrange(0, i as int).push(underscore_separators(replaced@)[i as int]));
        i = i + 1;
    }
    assert(underscore_separators(replaced@).subrange(0, replaced@.len() as int) =~= underscore_separators(
        replaced@,
    ));
    string_of(&out)
}


/// The text of one rule of a declared sheet: in `query`, `$0` and `&` stand for the
/// class selector `.name`; the rule body holds the declarations.
pub open spec fn sheet_rule_text(
    name: Seq<char>,
    query: Seq<char>,
    rules: Seq<(Seq<char>, Seq<char>)>,
) -> Seq<char> {
    let selector = "."@ + name;
    replace_all(replace_all(query, "$0"@, selector), "&"@, selector) + " {\n"@ + declarations_text(rules)
        + "}\n"@
}

/// The text of a sheet: its rules one after the other.
pub open spec fn static_sheet_text(name: Seq<char>, rules: Seq<(String, RespoStyle)>) -> Seq<char>
    decreases rules.len(),
{
    if rules.len() == 0 {
        Seq::empty()
    } else {
        static_sheet_text(name, rules.drop_last()) + sheet_rule_text(
            name,
            rules.last().0@,
            rules.last().1.rules(),
        )
    }
}

/// The text of a sheet whose rules may sit inside an at-rule such as `@container (...)`:
/// one rule after the other, a rule that carries an at-rule written inside it as
/// `wrapper {`, the rule, `}`.
pub open spec fn contained_sheet_text(
    name: Seq<char>,
    rules: Seq<(Option<String>, String, RespoStyle)>,
) -> Seq<char>
    decreases rules.len(),
{
    if rules.len() == 0 {
        Seq::empty()
    } else {
        let rule = sheet_rule_text(name, rules.last().1@, rules.last().2.rules());
        contained_sheet_text(name, rules.drop_last()) + match rules.last().0 {
            Some(wrapper) => wrapper@ + " {\n"@ + rule + "\n}"@,
            None => rule,
        }
    }
}

/// Adding a rule to a sheet keeps the text of the earlier rules in front, as it was.
pub proof fn law_static_sheet_appends(name: Seq<char>, rules: Seq<(String, RespoStyle)>, more: (String, RespoStyle))
    ensures
        static_sheet_text(name, rules) == static_sheet_text(name, rules.push(more)).take(
            static_sheet_text(name, rules).len() as int,
        ),
        static_sheet_text(name, rules).len() <= static_sheet_text(name, rules.push(more)).len(),
{
    assert(rules.push(more).drop_last() =~= rules);
    let a = static_sheet_text(name, rules);
    let b = static_sheet_text(name, rules.push(more));
    assert(b.take(a.len() as int) =~= a);
}

/// Adding a rule to a sheet with at-rules keeps the text of the earlier rules in front, as
/// it was; a rule carrying an at-rule adds the same text as without it, wrapped as
/// `wrapper {`, that text, `}`.
pub proof fn law_contained_sheet_appends(
    name: Seq<char>,
    rules: Seq<(Option<String>, String, RespoStyle)>,
    wrapper: String,
    query: String,
    style: RespoStyle,
)
    ensures
        ({
            let before = contained_sheet_text(name, rules);
            let plain = contained_sheet_text(name, rules.push((None, query, style)));
            let wrapped = contained_sheet_text(name, rules.push((Some(wrapper), query, style)));
            &&& plain.take(before.len() as int) == before
            &&& before.len() <= plain.len()
            &&& wrapped == before + wrapper@ + " {\n"@ + plain.skip(before.len() as int) + "\n}"@
        }),
{
    assert(rules.push((None, query, style)).drop_last() =~= rules);
    assert(rules.push((Some(wrapper), query, style)).drop_last() =~= rules);
    let before = contained_sheet_text(name, rules);
    let plain = contained_sheet_text(name, rules.push((None, query, style)));
    let wrapped = contained_sheet_text(name, rules.push((Some(wrapper), query, style)));
    let rule = sheet_rule_text(name, query@, style.rules());
    assert(plain == before + rule);
    assert(plain.take(before.len() as int) =~= before);
    assert(plain.skip(before.len() as int) =~= rule);
    assert(wrapped =~= before + wrapper@ + " {\n"@ + plain.skip(before.len() as int) + "\n}"@);
}

fn append_sheet_rule(s: &mut String, name: &str, query: &String, style: &RespoStyle)
    ensures
        final(s)@ == old(s)@ + sheet_rule_text(name@, query@, style.rules()),
{
    let mut selector = String::from_str(".");
    append_str(&mut selector, name);
    let selector_chars = chars_of(selector.as_str());
    let q = chars_of(query.as_str());
    let q1 = replace_chars(&q, &chars_of("$0"), &selector_chars);
    let q2 = replace_chars(&q1, &chars_of("&"), &selector_chars);
    let head = string_of(&q2);
    append_str(s, head.as_str());
    append_str(s, " {\n");
    let body = style.to_css_string();
    append_str(s, body.as_str());
    append_str(s, "}\n");
}

/// The text of a sheet of rules for the class `name`.
pub fn static_style_text(name: &str, rules: &[(String, RespoStyle)]) -> (s: String)
    ensures
        s@ == static_sheet_text(name@, rules@),
{
    let mut s = String::new();
    let mut i: usize = 0;
    while i < rules.len()
        invariant
            i <= rules@.len(),
            s@ == static_sheet_text(name@, rules@.subrange(0, i as int)),
        decreases rules@.len() - i,
    {
        let (query, style) = &rules[i];
        append_sheet_rule(&mut s, name, query, style);
        assert(rules@.subrange(0, i + 1).drop_last() =~= rules@.subrange(0, i as int));
        i = i + 1;
    }
    assert(rules@.subrange(0, rules@.len() as int) =~= rules@);
    s
}

/// The text of a sheet of rules for the class `name`, some of them inside at-rules.
pub fn contained_style_text(name: &str, rules: &[(Option<String>, String, RespoStyle)]) -> (s: String)
    ensures
        s@ == contained_sheet_text(name@, rules@),
{
    let mut s = String::new();
    let mut i: usize = 0;
    while i < rules.len()
        invariant
            i <= rules@.len(),
            s@ == contained_sheet_text(name@, rules@.subrange(0, i as int)),
        decreases rules@.len() - i,
    {
        let (wrapper, query, style) = &rules[i];
        match wrapper {
            Some(w) => {
                append_str(&mut s, w.as_str());
                append_str(&mut s, " {\n");
                append_sheet_rule(&mut s, name, query, style);
                append_str(&mut s, "\n}");
            },
            None => {
                append_sheet_rule(&mut s, name, query, style);
            },
        }
        assert(rules@.subrange(0, i + 1).drop_last() =~= rules@.subrange(0, i as int));
        i = i + 1;
    }
    assert(rules@.subrange(0, rules@.len() as int) =~= rules@);
    s
}

/// Class names whose sheets were already produced; each sheet is produced once.
pub struct StyleRegistry {
    defined: Vec<String>,
}

impl StyleRegistry {
    /// The class names declared so far.
    pub closed spec fn names(&self) -> Set<Seq<char>> {
        self.defined@.map_values(|n: String| n@).to_set()
    }

    /// A registry in which no class is declared.
    pub fn new() -> (r: Self)
        ensures
            r.names() == Set::<Seq<char>>::empty(),
    {
        let r = StyleRegistry { defined: Vec::new() };
        assert(r.defined@.map_values(|n: String| n@).to_set() =~= Set::<Seq<char>>::empty());
        r
    }

    /// Whether the class `name` is declared.
    pub fn is_defined(&self, name: &str) -> (b: bool)
        ensures
            b == self.names().contains(name@),
    {
        let target = name.to_owned();
        let mut i: usize = 0;
        while i < self.defined.len()
            invariant
                i <= self.defined@.len(),
                target@ == name@,
                forall|j: int| 0 <= j < i ==> self.defined@[j]@ != name@,
            decreases self.defined@.len() - i,
        {
            if self.defined[i] == target {
                assert(self.defined@.map_values(|n: String| n@)[i as int] == name@);
                return true;
            }
            i = i + 1;
        }
        proof {
            let names = self.defined@.map_values(|n: String| n@);
            assert forall|k: int| 0 <= k < names.len() implies names[k] != name@ by {
                assert(self.defined@[k]@ != name@);
            }
            assert(!names.contains(name@));
        }
        false
    }

    fn record(&mut self, name: &str)
        ensures
            final(self).names() == old(self).names().insert(name@),
    {
        let ghost before = self.defined@;
        self.defined.push(name.to_owned());
        assert(self.defined@.map_values(|n: String| n@) =~= before.map_values(|n: String| n@).push(
            name@,
        ));
        proof {
            before.map_values(|n: String| n@).lemma_push_to_set_commute(name@);
        }
        assert(self.defined@.map_values(|n: String| n@).to_set() =~= before.map_values(
            |n: String| n@,
        ).to_set().insert(name@));
    }

    /// Declares the sheet of the class `name`: the first time, records the class and
    /// returns the sheet's text to be injected; afterwards returns `None` and changes nothing.
    pub fn declare_static_style(&mut self, name: &str, rules: &[(String, RespoStyle)]) -> (r: Option<
        String,
    >)
        ensures
            old(self).names().contains(name@) ==> r is None && final(self).names() == old(
                self,
            ).names(),
            !old(self).names().contains(name@) ==> r is Some && r->0@ == static_sheet_text(
                name@,
                rules@,
            ) && final(self).names() == old(self).names().insert(name@),
    {
        if self.is_defined(name) {
            None
        } else {
            let text = static_style_text(name, rules);
            self.record(name);
            Some(text)
        }
    }

    /// Like `declare_static_style`, for sheets whose rules may sit inside at-rules.
    pub fn declare_contained_style(
        &mut self,
        name: &str,
        rules: &[(Option<String>, String, RespoStyle)],
    ) -> (r: Option<String>)
        ensures
            old(self).names().contains(name@) ==> r is None && final(self).names() == old(
                self,
            ).names(),
            !old(self).names().contains(name@) ==> r is Some && r->0@ == contained_sheet_text(
                name@,
                rules@,
            ) && final(self).names() == old(self).names().insert(name@),
    {
        if self.is_defined(name) {
            None
        } else {
            let text = contained_style_text(name, rules);
            self.record(name);
            Some(text)
        }
    }
}

} // verus!
