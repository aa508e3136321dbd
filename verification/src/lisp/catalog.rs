//! The plugin catalog: one `(defescribaplugin …)` manifest per catalog
//! source, and the Lisp it emits for packaging and for the plugin loader.

use vstd::prelude::*;
use vstd::utf8::encode_utf8;
use crate::text::{
    str_eq, owned, push_str, push_char, trim_ws, trim_start_ws, trim_str, trim_start_str,
    eq_ignore_ascii_case, str_eq_ignore_ascii_case, string_views, lower_ascii, to_ascii_lower,
    first_index, find_char, chars_of, slice_vec, string_of, decimal, push_decimal,
};
use crate::lisp::plugin::{is_known_category, KNOWN_CATEGORIES};
use crate::lisp::sexp::{Sexp, rendered, escaped, join_space, rendered_each, lemma_rendered_list};

verus! {

/// One `(defescribaplugin …)` manifest form.
#[derive(Debug, Clone, PartialEq, Eq, Default)]
pub struct EscribaPluginSpec {
    pub name: String,
    pub version: String,
    pub description: String,
    pub category: String,
    pub blnvim_origin: String,
    /// Activation triggers (`"Command: Oil"`, `"event: BufEnter"`, …);
    /// none, `startup` or `eager` loads the plugin at startup.
    pub ativar_em: Vec<String>,
    pub tags: Vec<String>,
    pub priority: i32,
}

/// `acc` with `s` appended, unless `s` is empty or already there.
pub open spec fn push_unique(acc: Seq<Seq<char>>, s: Seq<char>) -> Seq<Seq<char>> {
    if s.len() > 0 && !acc.contains(s) {
        acc.push(s)
    } else {
        acc
    }
}

/// `acc` with each of `cands` appended in turn by [`push_unique`].
pub open spec fn push_all_unique(acc: Seq<Seq<char>>, cands: Seq<Seq<char>>) -> Seq<Seq<char>>
    decreases cands.len(),
{
    if cands.len() == 0 {
        acc
    } else {
        push_all_unique(push_unique(acc, cands[0]), cands.drop_first())
    }
}

/// A trigger that loads the plugin at startup.
pub open spec fn is_eager_trigger(t: Seq<char>) -> bool {
    eq_ignore_ascii_case(trim_ws(t), "startup"@) || eq_ignore_ascii_case(trim_ws(t), "eager"@)
}

/// A string literal holding `s`.
pub open spec fn quoted(s: Seq<char>) -> Seq<char> {
    seq!['"'] + escaped(s) + seq!['"']
}

/// A keyword `:k`.
pub open spec fn keyword(k: Seq<char>) -> Seq<char> {
    seq![':'] + k
}

/// `n` in decimal, with a `-` when negative.
pub open spec fn int_text(n: int) -> Seq<char> {
    if n < 0 {
        seq!['-'] + decimal((-n) as nat)
    } else {
        decimal(n as nat)
    }
}

/// The written atoms a trigger lowers to: `kind: arg` with `kind` (trimmed,
/// any case) one of `event`, `command`/`cmd`, `filetype`/`ft` gives the
/// matching `:on-…` keyword and the trimmed `arg`; anything else nothing.
pub open spec fn trigger_parts(t: Seq<char>) -> Seq<Seq<char>> {
    match first_index(t, ':') {
        None => Seq::<Seq<char>>::empty(),
        Some(k) => {
            let kind = lower_ascii(trim_ws(t.subrange(0, k as int)));
            let arg = trim_ws(t.subrange(k as int + 1, t.len() as int));
            if kind == "event"@ {
                seq![keyword("on-event"@), quoted(arg)]
            } else if kind == "command"@ || kind == "cmd"@ {
                seq![keyword("on-command"@), quoted(arg)]
            } else if kind == "filetype"@ || kind == "ft"@ {
                seq![keyword("on-filetype"@), quoted(arg)]
            } else {
                Seq::<Seq<char>>::empty()
            }
        },
    }
}

/// The written atoms of all of `ts`, in order.
pub open spec fn triggers_parts(ts: Seq<Seq<char>>) -> Seq<Seq<char>>
    decreases ts.len(),
{
    if ts.len() == 0 {
        Seq::<Seq<char>>::empty()
    } else {
        triggers_parts(ts.drop_last()) + trigger_parts(ts.last())
    }
}

/// The comment block that opens an emitted `caixa.lisp`.
pub open spec fn caixa_header() -> Seq<char> {
    ";; GENERATED by `escriba plugin forge` from the catalog source.\n;; Edit the `.escribaplugin.lisp` catalog source, never this file.\n"@
}

/// One field line of the `defcaixa` form.
pub open spec fn caixa_line(key: Seq<char>, value: Seq<char>) -> Seq<char> {
    "          "@ + keyword(key) + seq![' '] + value
}

impl EscribaPluginSpec {
    /// The tags a caixa carries: `escriba-plugin`, then the category, the
    /// origin and the tags, each once and only if non-empty.
    pub open spec fn spec_etiquetas(&self) -> Seq<Seq<char>> {
        push_all_unique(
            seq!["escriba-plugin"@],
            seq![self.category@, self.blnvim_origin@] + string_views(self.tags@),
        )
    }

    /// The plugin loads at startup.
    pub open spec fn spec_is_eager(&self) -> bool {
        self.ativar_em@.len() == 0 || exists|i: int|
            0 <= i < self.ativar_em@.len() && is_eager_trigger(#[trigger] self.ativar_em@[i]@)
    }

    /// The version in force.
    pub open spec fn spec_version(&self) -> Seq<char> {
        if self.version@.len() == 0 {
            "0.1.0"@
        } else {
            self.version@
        }
    }

    /// The version in force: `0.1.0` when none is given.
    pub fn effective_version(&self) -> (s: &str)
        ensures
            s@ == self.spec_version(),
    {
        if self.version.as_str().is_empty() {
            "0.1.0"
        } else {
            self.version.as_str()
        }
    }

    /// The plugin loads at startup: it has no trigger, or one that reads
    /// `startup` or `eager` (trimmed, any case).
    pub fn is_eager(&self) -> (b: bool)
        ensures
            b == self.spec_is_eager(),
    {
        if self.ativar_em.len() == 0 {
            return true;
        }
        let mut i: usize = 0;
        while i < self.ativar_em.len()
            invariant
                i <= self.ativar_em@.len(),
                forall|k: int| 0 <= k < i ==> !is_eager_trigger(#[trigger] self.ativar_em@[k]@),
            decreases self.ativar_em@.len() - i,
        {
            let t = trim_str(self.ativar_em[i].as_str());
            if str_eq_ignore_ascii_case(t.as_str(), "startup") || str_eq_ignore_ascii_case(
                t.as_str(),
                "eager",
            ) {
                assert(is_eager_trigger(self.ativar_em@[i as int]@));
                return true;
            }
            i += 1;
        }
        false
    }

    /// The tags a caixa carries, deduplicated, in first-seen order.
    pub fn etiquetas(&self) -> (v: Vec<String>)
        ensures
            string_views(v@) == self.spec_etiquetas(),
            string_views(v@).no_duplicates(),
            string_views(v@)[0] == "escriba-plugin"@,
    {
        let mut out: Vec<String> = Vec::new();
        out.push(owned("escriba-plugin"));
        let mut cands: Vec<&str> = Vec::new();
        cands.push(self.category.as_str());
        cands.push(self.blnvim_origin.as_str());
        let mut t: usize = 0;
        while t < self.tags.len()
            invariant
                t <= self.tags@.len(),
                cands@.len() == t + 2,
                cands@[0]@ == self.category@,
                cands@[1]@ == self.blnvim_origin@,
                forall|k: int| 0 <= k < t ==> (#[trigger] cands@[k + 2])@ == self.tags@[k]@,
            decreases self.tags@.len() - t,
        {
            cands.push(self.tags[t].as_str());
            t += 1;
        }
        let ghost all = seq![self.category@, self.blnvim_origin@] + string_views(self.tags@);
        assert forall|k: int| 0 <= k < cands@.len() implies cands@.map_values(|s: &str| s@)[k]
            == all[k] by {
            if k >= 2 {
                assert(cands@[(k - 2) + 2]@ == self.tags@[k - 2]@);
            }
        }
        assert(cands@.map_values(|s: &str| s@) =~= all);
        proof {
            assert(string_views(out@) =~= seq!["escriba-plugin"@]);
            lemma_push_all_unique_keeps(seq!["escriba-plugin"@], all);
        }
        let n = cands.len();
        let mut i: usize = 0;
        assert(all.subrange(0, n as int) =~= all);
        while i < n
            invariant
                i <= n,
                n == cands@.len(),
                cands@.map_values(|s: &str| s@) == all,
                push_all_unique(string_views(out@), all.subrange(i as int, n as int))
                    == push_all_unique(seq!["escriba-plugin"@], all),
                string_views(out@).len() >= 1,
                string_views(out@)[0] == "escriba-plugin"@,
            decreases n - i,
        {
            let s = cands[i];
            let ghost before = string_views(out@);
            assert(all[i as int] == s@);
            assert(all.subrange(i as int, n as int).drop_first() =~= all.subrange(i + 1, n as int));
            if !s.is_empty() {
                let mut present = false;
                let mut j: usize = 0;
                while j < out.len()
                    invariant
                        j <= out@.len(),
                        present == exists|k: int| 0 <= k < j && (#[trigger] out@[k])@ == s@,
                    decreases out@.len() - j,
                {
                    if str_eq(out[j].as_str(), s) {
                        present = true;
                    }
                    j += 1;
                }
                proof {
                    if present {
                        let k = choose|k: int| 0 <= k < out@.len() && (#[trigger] out@[k])@ == s@;
                        assert(before[k] == s@);
                    } else {
                        assert forall|k: int| 0 <= k < before.len() implies before[k] != s@ by {
                            assert(before[k] == out@[k]@);
                        }
                    }
                }
                if !present {
                    out.push(owned(s));
                    assert(string_views(out@) =~= before.push(s@));
                }
            }
            i += 1;
        }
        proof {
            assert(all.subrange(n as int, n as int) =~= Seq::<Seq<char>>::empty());
        }
        out
    }
}

/// Pushing uniquely keeps what was there first and never repeats an entry.
pub proof fn lemma_push_all_unique_keeps(acc: Seq<Seq<char>>, cands: Seq<Seq<char>>)
    ensures
        push_all_unique(acc, cands).len() >= acc.len(),
        forall|i: int| 0 <= i < acc.len() ==> push_all_unique(acc, cands)[i] == #[trigger] acc[i],
        acc.no_duplicates() ==> push_all_unique(acc, cands).no_duplicates(),
    decreases cands.len(),
{
    if cands.len() > 0 {
        let next = push_unique(acc, cands[0]);
        lemma_push_all_unique_keeps(next, cands.drop_first());
        assert forall|i: int| 0 <= i < acc.len() implies push_all_unique(acc, cands)[i]
            == #[trigger] acc[i] by {
            assert(next[i] == acc[i]);
        }
        if acc.no_duplicates() && next != acc {
            assert(next.no_duplicates()) by {
                assert forall|i: int, j: int| 0 <= i < next.len() && 0 <= j < next.len() && i != j
                    implies next[i] != next[j] by {
                    if i == acc.len() as int {
                        assert(!acc.contains(cands[0]));
                        assert(acc[j] == next[j]);
                    } else if j == acc.len() as int {
                        assert(!acc.contains(cands[0]));
                        assert(acc[i] == next[i]);
                    }
                }
            }
        }
    }
}

/// `n` in decimal, with a `-` when negative.
fn int_string(n: i32) -> (s: String)
    ensures
        s@ == int_text(n as int),
{
    let mut s = String::new();
    if n < 0 {
        push_char(&mut s, '-');
        let m: i64 = n as i64;
        push_decimal(&mut s, (-m) as u64);
    } else {
        push_decimal(&mut s, n as u64);
    }
    s
}

/// The atoms one activation trigger lowers to.
fn trigger_atoms(t: &str, items: &mut Vec<Sexp>)
    ensures
        rendered_each(final(items)@) == rendered_each(old(items)@) + trigger_parts(t@),
{
    let v = chars_of(t);
    match find_char(&v, ':') {
        None => {
            assert(rendered_each(items@) =~= rendered_each(old(items)@) + trigger_parts(t@));
        },
        Some(k) => {
            assert(k < v.len());
            let kind_raw = string_of(&slice_vec(&v, 0, k));
            let arg_raw = string_of(&slice_vec(&v, k + 1, v.len()));
            let kind_t = trim_str(kind_raw.as_str());
            let kind = to_ascii_lower(kind_t.as_str());
            let arg = trim_str(arg_raw.as_str());
            let k_s = kind.as_str();
            let ghost before = rendered_each(items@);
            if str_eq(k_s, "event") {
                items.push(Sexp::kw("on-event"));
                items.push(Sexp::str(arg.as_str()));
            } else if str_eq(k_s, "command") || str_eq(k_s, "cmd") {
                items.push(Sexp::kw("on-command"));
                items.push(Sexp::str(arg.as_str()));
            } else if str_eq(k_s, "filetype") || str_eq(k_s, "ft") {
                items.push(Sexp::kw("on-filetype"));
                items.push(Sexp::str(arg.as_str()));
            }
            assert(rendered_each(items@) =~= before + trigger_parts(t@));
        },
    }
}

/// The `(defplugin …)` descriptor the plugin loader reads for this entry,
/// as written atoms: name, then description and category when given, the
/// activation triggers, the priority when non-zero, and `:lazy #t` when
/// the plugin is not eager.
pub open spec fn descriptor_parts(spec: EscribaPluginSpec) -> Seq<Seq<char>> {
    seq!["defplugin"@, keyword("name"@), quoted(spec.name@)] + (if spec.description@.len() > 0 {
        seq![keyword("description"@), quoted(spec.description@)]
    } else {
        Seq::<Seq<char>>::empty()
    }) + (if spec.category@.len() > 0 {
        seq![keyword("category"@), quoted(spec.category@)]
    } else {
        Seq::<Seq<char>>::empty()
    }) + triggers_parts(string_views(spec.ativar_em@)) + (if spec.priority != 0 {
        seq![keyword("priority"@), int_text(spec.priority as int)]
    } else {
        Seq::<Seq<char>>::empty()
    }) + (if !spec.spec_is_eager() {
        seq![keyword("lazy"@), "#t"@]
    } else {
        Seq::<Seq<char>>::empty()
    })
}

/// The `caixa.lisp` manifest for a catalog entry: a comment block, then a
/// `defcaixa` form with name, version, kind `Biblioteca`, description and
/// tags, one field per line.
pub open spec fn caixa_text(spec: EscribaPluginSpec) -> Seq<char> {
    caixa_header() + "(defcaixa"@ + seq![' '] + trim_start_ws(
        caixa_line("nome"@, quoted(spec.name@)),
    ) + seq!['\n'] + caixa_line("versao"@, quoted(spec.spec_version())) + seq!['\n']
        + caixa_line("kind"@, "Biblioteca"@) + seq!['\n'] + caixa_line(
        "descricao"@,
        quoted(spec.description@),
    ) + seq!['\n'] + caixa_line(
        "etiquetas"@,
        seq!['('] + join_space(spec.spec_etiquetas().map_values(|t: Seq<char>| quoted(t)))
            + seq![')'],
    ) + ")\n"@
}

/// One field line: padding, the keyword, a space, the value.
fn field_line(key: &str, value: &Sexp) -> (s: String)
    ensures
        s@ == caixa_line(key@, rendered(*value)),
{
    let mut s = owned("          ");
    push_str(&mut s, Sexp::kw(key).render().as_str());
    push_char(&mut s, ' ');
    push_str(&mut s, value.render().as_str());
    assert(s@ =~= caixa_line(key@, rendered(*value)));
    s
}

/// The `caixa.lisp` manifest for a catalog entry.
pub fn emit_caixa_lisp(spec: &EscribaPluginSpec) -> (s: String)
    ensures
        s@ == caixa_text(*spec),
{
    let nome = Sexp::str(spec.name.as_str());
    let versao = Sexp::str(spec.effective_version());
    let descricao = Sexp::str(spec.description.as_str());
    let tags = spec.etiquetas();
    let etiquetas = Sexp::str_list(tags);
    proof {
        lemma_rendered_list(etiquetas->List_0);
        assert(rendered_each(etiquetas->List_0@) =~= spec.spec_etiquetas().map_values(
            |t: Seq<char>| quoted(t),
        ));
    }
    let line0 = field_line("nome", &nome);
    let line1 = field_line("versao", &versao);
    let line2 = field_line("kind", &Sexp::sym("Biblioteca"));
    let line3 = field_line("descricao", &descricao);
    let line4 = field_line("etiquetas", &etiquetas);
    let mut out = owned(
        ";; GENERATED by `escriba plugin forge` from the catalog source.\n;; Edit the `.escribaplugin.lisp` catalog source, never this file.\n",
    );
    push_str(&mut out, "(defcaixa");
    push_char(&mut out, ' ');
    push_str(&mut out, trim_start_str(line0.as_str()).as_str());
    push_char(&mut out, '\n');
    push_str(&mut out, line1.as_str());
    push_char(&mut out, '\n');
    push_str(&mut out, line2.as_str());
    push_char(&mut out, '\n');
    push_str(&mut out, line3.as_str());
    push_char(&mut out, '\n');
    push_str(&mut out, line4.as_str());
    push_str(&mut out, ")\n");
    assert(out@ =~= caixa_text(*spec));
    out
}

/// The `(defplugin …)` descriptor the plugin loader reads for this entry.
pub fn emit_defplugin_descriptor(spec: &EscribaPluginSpec) -> (s: String)
    ensures
        s@ == seq!['('] + join_space(descriptor_parts(*spec)) + seq![')'],
{
    let mut items: Vec<Sexp> = Vec::new();
    items.push(Sexp::sym("defplugin"));
    items.push(Sexp::kw("name"));
    items.push(Sexp::str(spec.name.as_str()));
    assert(rendered_each(items@) =~= seq!["defplugin"@, keyword("name"@), quoted(spec.name@)]);
    if !spec.description.as_str().is_empty() {
        let ghost b = rendered_each(items@);
        items.push(Sexp::kw("description"));
        items.push(Sexp::str(spec.description.as_str()));
        assert(rendered_each(items@) =~= b + seq![keyword("description"@), quoted(spec.description@)]);
    }
    if !spec.category.as_str().is_empty() {
        let ghost b = rendered_each(items@);
        items.push(Sexp::kw("category"));
        items.push(Sexp::str(spec.category.as_str()));
        assert(rendered_each(items@) =~= b + seq![keyword("category"@), quoted(spec.category@)]);
    }
    let ghost head = rendered_each(items@);
    let mut i: usize = 0;
    while i < spec.ativar_em.len()
        invariant
            i <= spec.ativar_em@.len(),
            rendered_each(items@) == head + triggers_parts(
                string_views(spec.ativar_em@).subrange(0, i as int),
            ),
        decreases spec.ativar_em@.len() - i,
    {
        trigger_atoms(spec.ativar_em[i].as_str(), &mut items);
        proof {
            let ts = string_views(spec.ativar_em@);
            assert(ts.subrange(0, i + 1).drop_last() =~= ts.subrange(0, i as int));
        }
        i += 1;
        assert(rendered_each(items@) =~= head + triggers_parts(
            string_views(spec.ativar_em@).subrange(0, i as int),
        ));
    }
    assert(string_views(spec.ativar_em@).subrange(0, spec.ativar_em@.len() as int) =~= string_views(
        spec.ativar_em@,
    ));
    let ghost mid = rendered_each(items@);
    if spec.priority != 0 {
        items.push(Sexp::kw("priority"));
        items.push(Sexp::sym(int_string(spec.priority).as_str()));
        assert(rendered_each(items@) =~= mid + seq![keyword("priority"@), int_text(spec.priority as int)]);
    }
    let ghost late = rendered_each(items@);
    if !spec.is_eager() {
        items.push(Sexp::kw("lazy"));
        items.push(Sexp::sym("#t"));
        assert(rendered_each(items@) =~= late + seq![keyword("lazy"@), "#t"@]);
    }
    assert(rendered_each(items@) =~= descriptor_parts(*spec));
    let form = Sexp::list(items);
    proof {
        lemma_rendered_list(form->List_0);
    }
    form.render()
}

/// Why a catalog source has no usable manifest.
#[derive(Debug, Clone, PartialEq, Eq)]
pub enum CatalogError {
    /// No `(defescribaplugin …)` form.
    MissingMeta,
    /// More than one, with the count.
    MultipleMeta(usize),
    /// The manifest's `:name` is empty.
    EmptyName,
    /// The manifest's `:name` is not a slug (letters, digits, `-`, `_`).
    InvalidName(String),
    /// The source did not read as Lisp.
    Parse(String),
}

/// The text a [`CatalogError`] is shown with.
pub open spec fn catalog_message(e: CatalogError) -> Seq<char> {
    match e {
        CatalogError::MissingMeta => "catalog source has no (defescribaplugin …) manifest form"@,
        CatalogError::MultipleMeta(n) => "catalog source has "@ + decimal(n as nat)
            + " (defescribaplugin …) forms — expected exactly 1"@,
        CatalogError::EmptyName => "(defescribaplugin …) has empty :name"@,
        CatalogError::InvalidName(n) => "(defescribaplugin …) :name `"@ + n@
            + "` is not a clean slug (allowed: letters, digits, `-`, `_`)"@,
        CatalogError::Parse(e) => "catalog parse error: "@ + e@,
    }
}

impl CatalogError {
    /// The error as text.
    pub fn message(&self) -> (m: String)
        ensures
            m@ == catalog_message(*self),
    {
        let mut m = String::new();
        match self {
            CatalogError::MissingMeta => {
                push_str(&mut m, "catalog source has no (defescribaplugin …) manifest form");
            },
            CatalogError::MultipleMeta(n) => {
                push_str(&mut m, "catalog source has ");
                push_decimal(&mut m, *n as u64);
                push_str(&mut m, " (defescribaplugin …) forms — expected exactly 1");
            },
            CatalogError::EmptyName => {
                push_str(&mut m, "(defescribaplugin …) has empty :name");
            },
            CatalogError::InvalidName(n) => {
                push_str(&mut m, "(defescribaplugin …) :name `");
                push_str(&mut m, n.as_str());
                push_str(&mut m, "` is not a clean slug (allowed: letters, digits, `-`, `_`)");
            },
            CatalogError::Parse(e) => {
                push_str(&mut m, "catalog parse error: ");
                push_str(&mut m, e.as_str());
            },
        }
        assert(m@ =~= catalog_message(*self));
        m
    }
}

/// A byte of a slug: an ASCII letter or digit, `-` or `_`.
pub open spec fn is_slug_byte(b: u8) -> bool {
    (48 <= b <= 57) || (65 <= b <= 90) || (97 <= b <= 122) || b == 45 || b == 95
}

/// `s` is a clean slug.
pub open spec fn is_slug(s: Seq<char>) -> bool {
    forall|i: int| 0 <= i < encode_utf8(s).len() ==> is_slug_byte(#[trigger] encode_utf8(s)[i])
}

fn slug_ok(s: &str) -> (b: bool)
    ensures
        b == is_slug(s@),
{
    let bytes = s.as_bytes();
    let mut i: usize = 0;
    while i < bytes.len()
        invariant
            i <= bytes@.len(),
            bytes@ == encode_utf8(s@),
            forall|k: int| 0 <= k < i ==> is_slug_byte(#[trigger] bytes@[k]),
        decreases bytes@.len() - i,
    {
        let c = bytes[i];
        if !((48u8 <= c && c <= 57u8) || (65u8 <= c && c <= 90u8) || (97u8 <= c && c <= 122u8) || c
            == 45u8 || c == 95u8) {
            return false;
        }
        i += 1;
    }
    true
}

/// The manifest among the `(defescribaplugin …)` forms read from a catalog
/// source: there must be exactly one, and its name must be a non-empty
/// slug.
pub fn check_catalog_meta(specs: Vec<EscribaPluginSpec>) -> (r: Result<EscribaPluginSpec, CatalogError>)
    ensures
        specs@.len() == 0 ==> r == Err::<EscribaPluginSpec, CatalogError>(CatalogError::MissingMeta),
        specs@.len() > 1 ==> r == Err::<EscribaPluginSpec, CatalogError>(CatalogError::MultipleMeta(specs@.len() as usize)),
        specs@.len() == 1 && specs@[0].name@.len() == 0 ==> r == Err::<EscribaPluginSpec, CatalogError>(
            CatalogError::EmptyName,
        ),
        specs@.len() == 1 && specs@[0].name@.len() > 0 && !is_slug(specs@[0].name@) ==> (r matches Err(
            CatalogError::InvalidName(n),
        ) && n@ == specs@[0].name@),
        specs@.len() == 1 && specs@[0].name@.len() > 0 && is_slug(specs@[0].name@) ==> r == Ok::<
            EscribaPluginSpec,
            CatalogError,
        >(specs@[0]),
{
    let n = specs.len();
    if n == 0 {
        return Err(CatalogError::MissingMeta);
    }
    if n > 1 {
        return Err(CatalogError::MultipleMeta(n));
    }
    let mut specs = specs;
    let spec = specs.pop().unwrap();
    if spec.name.as_str().is_empty() {
        return Err(CatalogError::EmptyName);
    }
    if !slug_ok(spec.name.as_str()) {
        return Err(CatalogError::InvalidName(spec.name));
    }
    Ok(spec)
}

/// The category is empty or one of the known categories.
pub fn category_is_canonical(spec: &EscribaPluginSpec) -> (b: bool)
    ensures
        b == (spec.category@.len() == 0 || exists|i: int|
            0 <= i < KNOWN_CATEGORIES@.len() && eq_ignore_ascii_case(
                #[trigger] crate::text::views(KNOWN_CATEGORIES@)[i],
                spec.category@,
            )),
{
    spec.category.as_str().is_empty() || is_known_category(spec.category.as_str())
}

} // verus!
