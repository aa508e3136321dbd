//! Filetypes and their comment syntax.
//!
//! A comment syntax is parsed once from vim's `commentstring` form
//! (`"// %s"` becomes prefix `"// "` and suffix `""`), so line and block
//! comment styles are handled the same way everywhere.

use vstd::prelude::*;
use crate::text::{chars_of, string_of, slice_vec, push_str, starts_with, ends_with, str_eq, is_prefix, is_suffix, is_ws, trim_end_ws, trim_start_ws, trailing_ws_len, leading_ws_len, lemma_trim_end_ws, lemma_trim_start_ws};

verus! {

/// A comment syntax: what goes before and after the commented content.
#[derive(Debug, Clone, PartialEq, Eq)]
pub struct CommentString {
    pub prefix: String,
    pub suffix: String,
}

/// `s` has the `%s` placeholder starting at `i`.
pub open spec fn placeholder_at(s: Seq<char>, i: int) -> bool {
    0 <= i && i + 1 < s.len() && s[i] == '%' && s[i + 1] == 's'
}

/// `i` is where the first `%s` of `s` starts.
pub open spec fn first_placeholder(s: Seq<char>, i: int) -> bool {
    placeholder_at(s, i) && forall|j: int| j < i ==> !placeholder_at(s, j)
}

/// The `(prefix, suffix)` a commentstring parses to: the text before and
/// after its first `%s`; `None` when it has none.
pub open spec fn spec_comment(s: Seq<char>) -> Option<(Seq<char>, Seq<char>)> {
    if exists|i: int| first_placeholder(s, i) {
        let i = choose|i: int| first_placeholder(s, i);
        Some((s.subrange(0, i), s.subrange(i + 2, s.len() as int)))
    } else {
        None
    }
}

/// A parsed comment syntax as its prefix and suffix.
pub open spec fn comment_view(c: Option<CommentString>) -> Option<(Seq<char>, Seq<char>)> {
    match c {
        Some(c) => Some((c.prefix@, c.suffix@)),
        None => None,
    }
}

/// A blank for the purpose of indentation: space or tab.
pub open spec fn is_blank(c: char) -> bool {
    c == ' ' || c == '\t'
}

/// `s` without its leading spaces and tabs.
pub open spec fn trim_start_blank(s: Seq<char>) -> Seq<char>
    decreases s.len(),
{
    if s.len() > 0 && is_blank(s[0]) {
        trim_start_blank(s.drop_first())
    } else {
        s
    }
}

/// What stripping the comment syntax `(prefix, suffix)` off `line` gives:
/// the line's indentation is skipped, the prefix (without its trailing
/// whitespace) must follow, then exactly one separating space is
/// removed; a suffix (without its leading whitespace) is removed if
/// present, along with one space before it.
pub open spec fn spec_strip(line: Seq<char>, prefix: Seq<char>, suffix: Seq<char>) -> Option<
    Seq<char>,
> {
    let body = trim_start_blank(line);
    let p = trim_end_ws(prefix);
    if !is_prefix(p, body) {
        None
    } else {
        let b1 = body.subrange(p.len() as int, body.len() as int);
        let b2 = if b1.len() > 0 && b1[0] == ' ' {
            b1.subrange(1, b1.len() as int)
        } else {
            b1
        };
        let s = trim_start_ws(suffix);
        if s.len() == 0 {
            Some(b2)
        } else {
            let cut = if is_suffix(s, b2) {
                b2.subrange(0, b2.len() - s.len())
            } else {
                b2
            };
            Some(
                if cut.len() > 0 && cut.last() == ' ' {
                    cut.subrange(0, cut.len() - 1)
                } else {
                    cut
                },
            )
        }
    }
}

/// Index of the first character of `v` that is not a space or tab.
fn blank_prefix_len(v: &Vec<char>) -> (k: usize)
    ensures
        k <= v@.len(),
        v@.subrange(k as int, v@.len() as int) == trim_start_blank(v@),
{
    let mut k: usize = 0;
    assert(v@.subrange(0, v@.len() as int) =~= v@);
    while k < v.len() && (v[k] == ' ' || v[k] == '\t')
        invariant
            k <= v@.len(),
            trim_start_blank(v@.subrange(k as int, v@.len() as int)) == trim_start_blank(v@),
        decreases v@.len() - k,
    {
        assert(v@.subrange(k as int, v@.len() as int).drop_first() =~= v@.subrange(
            k + 1,
            v@.len() as int,
        ));
        k += 1;
    }
    k
}

impl CommentString {
    /// Parse a `commentstring`, splitting at the first `%s`. `None` when
    /// there is no placeholder: such a string cannot say where the content
    /// goes.
    pub fn parse(s: &str) -> (r: Option<Self>)
        ensures
            comment_view(r) == spec_comment(s@),
            r is None <==> (forall|i: int| !placeholder_at(s@, i)),
            r matches Some(c) ==> exists|i: int|
                placeholder_at(s@, i) && (forall|j: int| j < i ==> !placeholder_at(s@, j))
                    && c.prefix@ == s@.subrange(0, i) && c.suffix@ == s@.subrange(
                    i + 2,
                    s@.len() as int,
                ),
    {
        let v = chars_of(s);
        let n = v.len();
        if n < 2 {
            return None;
        }
        let mut i: usize = 0;
        while i < n - 1
            invariant
                n == v@.len(),
                n >= 2,
                i <= n - 1,
                v@ == s@,
                forall|j: int| j < i ==> !placeholder_at(s@, j),
            decreases n - i,
        {
            if v[i] == '%' && v[i + 1] == 's' {
                let prefix = string_of(&slice_vec(&v, 0, i));
                let suffix = string_of(&slice_vec(&v, i + 2, n));
                assert(placeholder_at(s@, i as int));
                proof {
                    assert(first_placeholder(s@, i as int));
                    let k = choose|k: int| first_placeholder(s@, k);
                    assert(k == i) by {
                        if k < i {
                            assert(!placeholder_at(s@, k));
                        } else if k > i {
                            assert(!placeholder_at(s@, i as int));
                        }
                    }
                }
                return Some(Self { prefix, suffix });
            }
            i += 1;
        }
        None
    }

    /// `content` wrapped in this comment syntax.
    pub fn wrap(&self, content: &str) -> (s: String)
        ensures
            s@ == self.prefix@ + content@ + self.suffix@,
    {
        let mut out = String::new();
        push_str(&mut out, self.prefix.as_str());
        push_str(&mut out, content);
        push_str(&mut out, self.suffix.as_str());
        assert(out@ =~= self.prefix@ + content@ + self.suffix@);
        out
    }

    /// Strip this comment syntax from `line`, if it is commented.
    ///
    /// Tolerant: `//x`, `// x` and `    // x` are all commented. Exactly
    /// one separating space is removed, so deliberate alignment survives.
    #[verifier::rlimit(80)]
    pub fn strip<'a>(&self, line: &'a str) -> (r: Option<&'a str>)
        ensures
            match r {
                Some(b) => spec_strip(line@, self.prefix@, self.suffix@) == Some(b@),
                None => spec_strip(line@, self.prefix@, self.suffix@) is None,
            },
    {
        let v = chars_of(line);
        let n = v.len();
        let k = blank_prefix_len(&v);
        let body = slice_vec(&v, k, n);
        let pv = chars_of(self.prefix.as_str());
        let pt = pv.len() - trailing_ws_len(&pv);
        proof {
            lemma_trim_end_ws(pv@);
        }
        let p = slice_vec(&pv, 0, pt);
        assert(p@ == trim_end_ws(self.prefix@));
        if !starts_with(&body, &p) {
            return None;
        }
        let mut a = k + pt;
        if a < n && v[a] == ' ' {
            a = a + 1;
        }
        let mut b = n;
        let sv = chars_of(self.suffix.as_str());
        let sl = leading_ws_len(&sv);
        proof {
            lemma_trim_start_ws(sv@);
        }
        let st = slice_vec(&sv, sl, sv.len());
        assert(st@ == trim_start_ws(self.suffix@));
        if st.len() > 0 {
            let b2 = slice_vec(&v, a, n);
            if ends_with(&b2, &st) {
                b = n - st.len();
            }
            if b > a && v[b - 1] == ' ' {
                b = b - 1;
            }
        }
        proof {
            let body_s = line@.subrange(k as int, n as int);
            let b1 = body_s.subrange(pt as int, body_s.len() as int);
            assert(b1 =~= line@.subrange(k + pt, n as int));
            let b2 = if b1.len() > 0 && b1[0] == ' ' {
                b1.subrange(1, b1.len() as int)
            } else {
                b1
            };
            assert(b2 =~= line@.subrange(a as int, n as int));
            if st@.len() > 0 {
                let cut = if is_suffix(st@, b2) {
                    b2.subrange(0, b2.len() - st@.len())
                } else {
                    b2
                };
                assert(cut =~= line@.subrange(a as int, (if is_suffix(st@, b2) {
                    n - st@.len()
                } else {
                    n as int
                })));
            }
        }
        let r = line.substring_char(a, b);
        proof {
            let body_s = line@.subrange(k as int, n as int);
            let b1 = body_s.subrange(pt as int, body_s.len() as int);
            let b2 = if b1.len() > 0 && b1[0] == ' ' {
                b1.subrange(1, b1.len() as int)
            } else {
                b1
            };
            if st@.len() > 0 {
                let cut = if is_suffix(st@, b2) {
                    b2.subrange(0, b2.len() - st@.len())
                } else {
                    b2
                };
                if cut.len() > 0 && cut.last() == ' ' {
                    assert(cut.subrange(0, cut.len() - 1) =~= r@);
                } else {
                    assert(cut =~= r@);
                }
            } else {
                assert(b2 =~= r@);
            }
        }
        Some(r)
    }

    /// Is `line` already commented in this syntax?
    pub fn is_commented(&self, line: &str) -> (b: bool)
        ensures
            b == (spec_strip(line@, self.prefix@, self.suffix@) is Some),
    {
        self.strip(line).is_some()
    }
}

/// Wrapping then stripping gives the content back, for the usual shapes of
/// comment syntax: a prefix that starts with a non-blank and ends in exactly
/// one space after a non-whitespace character, and a suffix that is empty
/// or one space followed by a non-whitespace character.
pub proof fn lemma_wrap_strip_round_trip(pc: Seq<char>, suffix: Seq<char>, content: Seq<char>)
    requires
        pc.len() > 0,
        !is_blank(pc[0]),
        !is_ws(pc.last()),
        suffix.len() == 0 || (suffix.len() > 1 && suffix[0] == ' ' && !is_ws(suffix[1])),
    ensures
        spec_strip(pc.push(' ') + content + suffix, pc.push(' '), suffix) == Some(content),
{
    let prefix = pc.push(' ');
    let line = prefix + content + suffix;
    assert(line[0] == pc[0]);
    assert(trim_start_blank(line) == line);
    assert(prefix.drop_last() =~= pc);
    assert(trim_end_ws(prefix) == trim_end_ws(pc));
    assert(trim_end_ws(pc) == pc);
    assert(line.subrange(0, pc.len() as int) =~= pc);
    let b1 = line.subrange(pc.len() as int, line.len() as int);
    assert(b1 =~= seq![' '] + content + suffix);
    let b2 = b1.subrange(1, b1.len() as int);
    assert(b2 =~= content + suffix);
    if suffix.len() == 0 {
        assert(trim_start_ws(suffix) == suffix);
        assert(content + suffix =~= content);
    } else {
        let sc = suffix.drop_first();
        assert(trim_start_ws(suffix) == trim_start_ws(sc));
        assert(sc[0] == suffix[1]);
        assert(trim_start_ws(sc) == sc);
        assert(b2.subrange(b2.len() - sc.len(), b2.len() as int) =~= sc);
        let cut = b2.subrange(0, b2.len() - sc.len());
        assert(cut =~= content.push(' '));
        assert(cut.subrange(0, cut.len() - 1) =~= content);
    }
}

/// A commentstring whose first `%s` is at `i`, after a non-blank prefix
/// that ends in one space, parses to the text around the `%s`, and
/// wrapping then stripping with it gives the content back.
proof fn lemma_commentstring_round_trip(cs: Seq<char>, i: int, content: Seq<char>)
    requires
        first_placeholder(cs, i),
        i >= 2,
        cs[i - 1] == ' ',
        !is_blank(cs[0]),
        !is_ws(cs[i - 2]),
        i + 2 == cs.len() || (i + 3 < cs.len() && cs[i + 2] == ' ' && !is_ws(cs[i + 3])),
    ensures
        spec_comment(cs) == Some((cs.subrange(0, i), cs.subrange(i + 2, cs.len() as int))),
        spec_strip(
            cs.subrange(0, i) + content + cs.subrange(i + 2, cs.len() as int),
            cs.subrange(0, i),
            cs.subrange(i + 2, cs.len() as int),
        ) == Some(content),
{
    let k = choose|k: int| first_placeholder(cs, k);
    if k < i {
        assert(!placeholder_at(cs, k));
    }
    if k > i {
        assert(!placeholder_at(cs, i));
    }
    let pc = cs.subrange(0, i - 1);
    assert(pc.push(' ') =~= cs.subrange(0, i));
    assert(pc[0] == cs[0]);
    assert(pc.last() == cs[i - 2]);
    let suffix = cs.subrange(i + 2, cs.len() as int);
    if suffix.len() > 0 {
        assert(suffix[0] == cs[i + 2] && suffix[1] == cs[i + 3]);
    }
    lemma_wrap_strip_round_trip(pc, suffix, content);
}

/// The commentstrings of the usual languages parse to their prefix and
/// suffix, and wrapping then stripping any content with them gives the
/// content back.
pub proof fn lemma_known_commentstrings_round_trip(content: Seq<char>)
    ensures
        spec_comment("// %s"@) == Some(("// "@, ""@)),
        spec_strip("// "@ + content + ""@, "// "@, ""@) == Some(content),
        spec_comment("<!-- %s -->"@) == Some(("<!-- "@, " -->"@)),
        spec_strip("<!-- "@ + content + " -->"@, "<!-- "@, " -->"@) == Some(content),
        spec_comment(";; %s"@) == Some((";; "@, ""@)),
        spec_strip(";; "@ + content + ""@, ";; "@, ""@) == Some(content),
        spec_comment("# %s"@) == Some(("# "@, ""@)),
        spec_strip("# "@ + content + ""@, "# "@, ""@) == Some(content),
{
    reveal_strlit("// %s");
    reveal_strlit("// ");
    reveal_strlit("");
    reveal_strlit("<!-- %s -->");
    reveal_strlit("<!-- ");
    reveal_strlit(" -->");
    reveal_strlit(";; %s");
    reveal_strlit(";; ");
    reveal_strlit("# %s");
    reveal_strlit("# ");
    let a = "// %s"@;
    assert(first_placeholder(a, 3)) by {
        assert forall|j: int| j < 3 implies !placeholder_at(a, j) by {}
    }
    lemma_commentstring_round_trip(a, 3, content);
    assert(a.subrange(0, 3) =~= "// "@);
    assert(a.subrange(5, 5) =~= ""@);
    let b = "<!-- %s -->"@;
    assert(first_placeholder(b, 5)) by {
        assert forall|j: int| j < 5 implies !placeholder_at(b, j) by {}
    }
    lemma_commentstring_round_trip(b, 5, content);
    assert(b.subrange(0, 5) =~= "<!-- "@);
    assert(b.subrange(7, 11) =~= " -->"@);
    let c = ";; %s"@;
    assert(first_placeholder(c, 3)) by {
        assert forall|j: int| j < 3 implies !placeholder_at(c, j) by {}
    }
    lemma_commentstring_round_trip(c, 3, content);
    assert(c.subrange(0, 3) =~= ";; "@);
    assert(c.subrange(5, 5) =~= ""@);
    let d = "# %s"@;
    assert(first_placeholder(d, 2)) by {
        assert forall|j: int| j < 2 implies !placeholder_at(d, j) by {}
    }
    lemma_commentstring_round_trip(d, 2, content);
    assert(d.subrange(0, 2) =~= "# "@);
    assert(d.subrange(4, 4) =~= ""@);
}

/// One filetype's editor-facing facts.
#[derive(Debug, Clone, PartialEq, Eq)]
pub struct Filetype {
    /// The mode name — `"rust"`, `"lisp"`.
    pub name: String,
    /// Extensions that select it, without a leading dot.
    pub extensions: Vec<String>,
    /// Comment syntax, if the mode declared a usable one.
    pub comment: Option<CommentString>,
}

/// Does filetype `f` claim extension `ext`?
pub open spec fn claims_ext(f: Filetype, ext: Seq<char>) -> bool {
    exists|j: int| 0 <= j < f.extensions@.len() && (#[trigger] f.extensions@[j])@ == ext
}

/// `es` without the entries named `name`, in order.
pub open spec fn without_name(es: Seq<Filetype>, name: Seq<char>) -> Seq<Filetype>
    decreases es.len(),
{
    if es.len() == 0 {
        es
    } else {
        let r = without_name(es.drop_last(), name);
        if es.last().name@ == name {
            r
        } else {
            r.push(es.last())
        }
    }
}

/// The extension std's `Path::extension` reports for `path`: the part of
/// the final path component after its last `.`, if it has one.
pub uninterp spec fn path_extension_of(path: Seq<char>) -> Option<Seq<char>>;

/// std's `Path::extension`, read as UTF-8.
#[verifier::external_body]
fn path_extension(path: &str) -> (r: Option<String>)
    ensures
        match r {
            Some(e) => path_extension_of(path@) == Some(e@),
            None => path_extension_of(path@) is None,
        },
{
    std::path::Path::new(path).extension().and_then(|e| e.to_str()).map(|e| e.to_string())
}

/// No two filetypes of `es` share a name.
pub open spec fn ft_names_unique(es: Seq<Filetype>) -> bool {
    forall|i: int, j: int| 0 <= i < j < es.len() ==> (#[trigger] es[i]).name@ != (#[trigger] es[j]).name@
}

/// Some filetype of `es` is named `name`.
pub open spec fn has_ft_name(es: Seq<Filetype>, name: Seq<char>) -> bool {
    exists|i: int| 0 <= i < es.len() && (#[trigger] es[i]).name@ == name
}

/// Dropping the entries named `name` from a table with unique names keeps
/// the names unique, leaves none named `name`, keeps only entries of the
/// table, and removes one entry exactly when one had that name.
pub proof fn lemma_without_name(es: Seq<Filetype>, name: Seq<char>)
    requires
        ft_names_unique(es),
    ensures
        ft_names_unique(without_name(es, name)),
        !has_ft_name(without_name(es, name), name),
        forall|k: int|
            0 <= k < without_name(es, name).len() ==> exists|i: int|
                0 <= i < es.len() && es[i] == #[trigger] without_name(es, name)[k],
        without_name(es, name).len() == es.len() - (if has_ft_name(es, name) {
            1int
        } else {
            0int
        }),
    decreases es.len(),
{
    if es.len() > 0 {
        let d = es.drop_last();
        assert(ft_names_unique(d)) by {
            assert forall|i: int, j: int| 0 <= i < j < d.len() implies (#[trigger] d[i]).name@
                != (#[trigger] d[j]).name@ by {
                assert(d[i] == es[i] && d[j] == es[j]);
            }
        }
        lemma_without_name(d, name);
        let r = without_name(d, name);
        let l = es.last();
        if l.name@ == name {
            assert(!has_ft_name(d, name)) by {
                if has_ft_name(d, name) {
                    let i = choose|i: int| 0 <= i < d.len() && (#[trigger] d[i]).name@ == name;
                    assert(es[i] == d[i]);
                    assert(es[es.len() - 1] == l);
                }
            }
            assert forall|k: int| 0 <= k < r.len() implies exists|i: int|
                0 <= i < es.len() && es[i] == #[trigger] r[k] by {
                let i = choose|i: int| 0 <= i < d.len() && d[i] == r[k];
                assert(es[i] == d[i]);
            }
        } else {
            let w = r.push(l);
            assert(has_ft_name(es, name) == has_ft_name(d, name)) by {
                if has_ft_name(es, name) {
                    let i = choose|i: int| 0 <= i < es.len() && (#[trigger] es[i]).name@ == name;
                    assert(i < d.len());
                    assert(d[i] == es[i]);
                }
                if has_ft_name(d, name) {
                    let i = choose|i: int| 0 <= i < d.len() && (#[trigger] d[i]).name@ == name;
                    assert(es[i] == d[i]);
                }
            }
            assert forall|k: int| 0 <= k < w.len() implies exists|i: int|
                0 <= i < es.len() && es[i] == #[trigger] w[k] by {
                if k < r.len() {
                    let i = choose|i: int| 0 <= i < d.len() && d[i] == r[k];
                    assert(es[i] == d[i]);
                } else {
                    assert(es[es.len() - 1] == w[k]);
                }
            }
            assert forall|i: int, j: int| 0 <= i < j < w.len() implies (#[trigger] w[i]).name@
                != (#[trigger] w[j]).name@ by {
                if j == r.len() {
                    let a = choose|a: int| 0 <= a < d.len() && d[a] == r[i];
                    assert(es[a] == d[a]);
                    assert(es[es.len() - 1] == l);
                } else {
                    assert(w[i] == r[i] && w[j] == r[j]);
                }
            }
            assert(!has_ft_name(w, name)) by {
                if has_ft_name(w, name) {
                    let k = choose|k: int| 0 <= k < w.len() && (#[trigger] w[k]).name@ == name;
                    if k < r.len() {
                        assert(w[k] == r[k]);
                    }
                }
            }
        }
    }
}

/// The first filetype of `es` named `name`, if any.
pub open spec fn named(es: Seq<Filetype>, name: Seq<char>) -> Option<Filetype>
    decreases es.len(),
{
    if es.len() == 0 {
        None
    } else {
        match named(es.drop_last(), name) {
            Some(f) => Some(f),
            None => if es.last().name@ == name {
                Some(es.last())
            } else {
                None
            },
        }
    }
}

/// `named` finds nothing exactly when no entry has the name, and otherwise
/// the first entry that has it.
proof fn lemma_named(es: Seq<Filetype>, name: Seq<char>)
    ensures
        named(es, name) is None <==> forall|k: int| 0 <= k < es.len() ==> (#[trigger] es[k]).name@ != name,
        forall|i: int|
            0 <= i < es.len() && (#[trigger] es[i]).name@ == name && (forall|k: int|
                0 <= k < i ==> (#[trigger] es[k]).name@ != name) ==> named(es, name) == Some(es[i]),
    decreases es.len(),
{
    if es.len() > 0 {
        let d = es.drop_last();
        lemma_named(d, name);
        assert forall|k: int| 0 <= k < d.len() implies d[k] == es[k] by {}
        if named(d, name) is None {
            if es.last().name@ != name {
                assert forall|k: int| 0 <= k < es.len() implies (#[trigger] es[k]).name@ != name by {
                    if k < d.len() {
                        assert(d[k] == es[k]);
                    }
                }
            }
        }
        assert forall|i: int|
            0 <= i < es.len() && (#[trigger] es[i]).name@ == name && (forall|k: int|
                0 <= k < i ==> (#[trigger] es[k]).name@ != name) implies named(es, name) == Some(es[i]) by {
            if i < d.len() {
                assert(d[i] == es[i]);
                assert forall|k: int| 0 <= k < i implies (#[trigger] d[k]).name@ != name by {
                    assert(d[k] == es[k]);
                }
            } else {
                assert forall|k: int| 0 <= k < d.len() implies (#[trigger] d[k]).name@ != name by {
                    assert(d[k] == es[k]);
                }
            }
        }
    }
}

/// Inserting a filetype leaves the lookup of every other name as it was,
/// and its own name then finds it.
pub proof fn lemma_insert_keeps_other_names(es: Seq<Filetype>, ft: Filetype, n: Seq<char>)
    ensures
        n != ft.name@ ==> named(without_name(es, ft.name@).push(ft), n) == named(es, n),
        named(without_name(es, ft.name@).push(ft), ft.name@) == Some(ft),
    decreases es.len(),
{
    let w = without_name(es, ft.name@);
    let p = w.push(ft);
    assert(p.drop_last() =~= w);
    lemma_without_name_named(es, ft.name@, n);
    lemma_without_name_named(es, ft.name@, ft.name@);
}

proof fn lemma_without_name_named(es: Seq<Filetype>, name: Seq<char>, n: Seq<char>)
    ensures
        n != name ==> named(without_name(es, name), n) == named(es, n),
        named(without_name(es, name), name) is None,
    decreases es.len(),
{
    if es.len() > 0 {
        let d = es.drop_last();
        lemma_without_name_named(d, name, n);
        let r = without_name(d, name);
        if es.last().name@ != name {
            assert(r.push(es.last()).drop_last() =~= r);
        }
    }
}

/// Extension → filetype. Later entries win.
#[derive(Debug, Clone, Default, PartialEq, Eq)]
pub struct FiletypeTable {
    entries: Vec<Filetype>,
}

impl FiletypeTable {
    /// The filetypes, oldest first.
    pub closed spec fn spec_entries(&self) -> Seq<Filetype> {
        self.entries@
    }

    /// No two filetypes share a name.
    pub open spec fn wf(&self) -> bool {
        ft_names_unique(self.spec_entries())
    }

    pub fn new() -> (t: Self)
        ensures
            t.wf(),
            t.spec_entries() == Seq::<Filetype>::empty(),
    {
        Self { entries: Vec::new() }
    }

    /// Add a filetype, replacing any earlier entry of the same name.
    pub fn insert(&mut self, ft: Filetype)
        ensures
            final(self).spec_entries() == without_name(old(self).spec_entries(), ft.name@).push(ft),
            old(self).wf() ==> final(self).wf(),
            old(self).wf() ==> final(self).spec_entries().len() == old(self).spec_entries().len() + (if has_ft_name(
                old(self).spec_entries(),
                ft.name@,
            ) {
                0int
            } else {
                1int
            }),
    {
        proof {
            if ft_names_unique(self.entries@) {
                lemma_without_name(self.entries@, ft.name@);
                let w = without_name(self.entries@, ft.name@);
                let p = w.push(ft);
                assert forall|i: int, j: int| 0 <= i < j < p.len() implies (#[trigger] p[i]).name@
                    != (#[trigger] p[j]).name@ by {
                    if j == w.len() {
                        assert(p[i] == w[i]);
                        assert(!has_ft_name(w, ft.name@));
                    } else {
                        assert(p[i] == w[i] && p[j] == w[j]);
                    }
                }
            }
        }
        let mut rest: Vec<Filetype> = Vec::new();
        std::mem::swap(&mut rest, &mut self.entries);
        let ghost es = rest@;
        let total = rest.len();
        let mut out: Vec<Filetype> = Vec::new();
        let mut i: usize = 0;
        while rest.len() > 0
            invariant
                i + rest@.len() == es.len(),
                total == es.len(),
                rest@ == es.subrange(i as int, es.len() as int),
                out@ == without_name(es.subrange(0, i as int), ft.name@),
            decreases rest@.len(),
        {
            let e = rest.remove(0);
            assert(es.subrange(0, i + 1).drop_last() =~= es.subrange(0, i as int));
            let same = str_eq(e.name.as_str(), ft.name.as_str());
            if !same {
                out.push(e);
            }
            i += 1;
            assert(rest@ =~= es.subrange(i as int, es.len() as int));
        }
        assert(es.subrange(0, i as int) =~= es);
        out.push(ft);
        self.entries = out;
    }

    pub fn len(&self) -> (n: usize)
        ensures
            n == self.spec_entries().len(),
    {
        self.entries.len()
    }

    pub fn is_empty(&self) -> (b: bool)
        ensures
            b == (self.spec_entries().len() == 0),
    {
        self.entries.len() == 0
    }

    /// The latest filetype claiming extension `ext`.
    pub fn resolve_ext(&self, ext: &str) -> (r: Option<&Filetype>)
        ensures
            match r {
                Some(f) => exists|i: int|
                    0 <= i < self.spec_entries().len() && self.spec_entries()[i] == *f
                        && claims_ext(*f, ext@) && forall|k: int|
                        i < k < self.spec_entries().len() ==> !claims_ext(
                            #[trigger] self.spec_entries()[k],
                            ext@,
                        ),
                None => forall|k: int|
                    0 <= k < self.spec_entries().len() ==> !claims_ext(
                        #[trigger] self.spec_entries()[k],
                        ext@,
                    ),
            },
    {
        let mut i = self.entries.len();
        while i > 0
            invariant
                i <= self.entries@.len(),
                forall|k: int|
                    i <= k < self.entries@.len() ==> !claims_ext(
                        #[trigger] self.entries@[k],
                        ext@,
                    ),
            decreases i,
        {
            let f = &self.entries[i - 1];
            let mut j: usize = 0;
            while j < f.extensions.len()
                invariant
                    j <= f.extensions@.len(),
                    0 < i <= self.entries@.len(),
                    *f == self.entries@[i - 1],
                    forall|k: int|
                        i <= k < self.entries@.len() ==> !claims_ext(
                            #[trigger] self.entries@[k],
                            ext@,
                        ),
                    forall|m: int| 0 <= m < j ==> (#[trigger] f.extensions@[m])@ != ext@,
                decreases f.extensions@.len() - j,
            {
                if str_eq(f.extensions[j].as_str(), ext) {
                    assert(f.extensions@[j as int]@ == ext@);
                    assert(claims_ext(*f, ext@));
                    assert(self.spec_entries() == self.entries@);
                    let ghost w = (i - 1) as int;
                    assert(self.spec_entries()[w] == *f);
                    assert(forall|k: int|
                        w < k < self.spec_entries().len() ==> !claims_ext(
                            #[trigger] self.spec_entries()[k],
                            ext@,
                        ));
                    return Some(f);
                }
                j += 1;
            }
            i -= 1;
        }
        None
    }

    /// The filetype for the file at `path`, by its extension.
    pub fn resolve(&self, path: &str) -> (r: Option<&Filetype>)
        ensures
            match path_extension_of(path@) {
                None => r is None,
                Some(ext) => match r {
                    Some(f) => exists|i: int|
                        0 <= i < self.spec_entries().len() && self.spec_entries()[i] == *f
                            && claims_ext(*f, ext) && forall|k: int|
                            i < k < self.spec_entries().len() ==> !claims_ext(
                                #[trigger] self.spec_entries()[k],
                                ext,
                            ),
                    None => forall|k: int|
                        0 <= k < self.spec_entries().len() ==> !claims_ext(
                            #[trigger] self.spec_entries()[k],
                            ext,
                        ),
                },
            },
    {
        match path_extension(path) {
            None => None,
            Some(ext) => self.resolve_ext(ext.as_str()),
        }
    }

    /// The first filetype named `name`.
    pub fn by_name(&self, name: &str) -> (r: Option<&Filetype>)
        ensures
            match r {
                Some(f) => exists|i: int|
                    0 <= i < self.spec_entries().len() && self.spec_entries()[i] == *f && f.name@
                        == name@ && forall|k: int|
                        0 <= k < i ==> (#[trigger] self.spec_entries()[k]).name@ != name@,
                None => forall|k: int|
                    0 <= k < self.spec_entries().len() ==> (
                    #[trigger] self.spec_entries()[k]).name@ != name@,
            },
            match r {
                Some(f) => named(self.spec_entries(), name@) == Some(*f),
                None => named(self.spec_entries(), name@) is None,
            },
    {
        proof {
            lemma_named(self.entries@, name@);
        }
        let mut i: usize = 0;
        while i < self.entries.len()
            invariant
                i <= self.entries@.len(),
                forall|k: int| 0 <= k < i ==> (#[trigger] self.entries@[k]).name@ != name@,
            decreases self.entries@.len() - i,
        {
            if str_eq(self.entries[i].name.as_str(), name) {
                proof {
                    let es = self.entries@;
                    lemma_named(es, name@);
                    assert(es[i as int].name@ == name@);
                    assert(forall|k: int| 0 <= k < i ==> (#[trigger] es[k]).name@ != name@);
                    assert(named(es, name@) == Some(es[i as int]));
                }
                return Some(&self.entries[i]);
            }
            i += 1;
        }
        None
    }
}

} // verus!
