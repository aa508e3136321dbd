//! The plan an rc file declares: every form found, validated, in one typed
//! bundle that later passes apply to the live editor.

use vstd::prelude::*;
use crate::text::{owned, push_str, push_decimal, decimal, views};
use crate::lisp::keybind::KeybindSpec;
use crate::lisp::cmd::CmdSpec;
use crate::lisp::option::OptionSpec;
use crate::lisp::hook::{HookSpec, KNOWN_EVENTS, is_known_event};
use crate::lisp::filetype::FiletypeSpec;
use crate::lisp::abbrev::AbbrevSpec;
use crate::lisp::snippet::SnippetSpec;
use crate::lisp::mode_spec::MajorModeSpec;
use crate::lisp::plugin::PluginSpec;
use crate::lisp::highlight::HighlightSpec;
use crate::text::contains_str;

verus! {

/// One `(deftheme …)` form.
#[derive(Debug, Clone, PartialEq, Eq, Default)]
pub struct ThemeSpec {
    /// A built-in preset (`nord`, …) or a `defpalette` name; empty for
    /// none.
    pub preset: String,
}

/// The built-in theme presets.
pub const KNOWN_PRESETS: [&'static str; 4] = ["nord", "gruvbox-dark", "tokyo-night", "catppuccin-mocha"];

/// Is `name` one of [`KNOWN_PRESETS`]?
pub fn is_known_preset(name: &str) -> (b: bool)
    ensures
        b == views(KNOWN_PRESETS@).contains(name@),
{
    contains_str(&KNOWN_PRESETS, name)
}

/// One segment of the status line.
#[derive(Debug, Clone, PartialEq, Eq, Default)]
pub struct StatusSegment {
    /// Which segment (`mode`, `file`, `branch`, …).
    pub segment: String,
    pub prefix: String,
    pub suffix: String,
    pub highlight: String,
    /// A format string, for segments that take one (`time`).
    pub format: String,
}

/// One `(defstatusline …)` form: three alignment slots.
#[derive(Debug, Clone, PartialEq, Eq, Default)]
pub struct StatusLineSpec {
    pub left: Vec<StatusSegment>,
    pub center: Vec<StatusSegment>,
    pub right: Vec<StatusSegment>,
}

impl StatusLineSpec {
    /// How many segments the line shows, across its three slots.
    pub fn segment_count(&self) -> (n: usize)
        requires
            self.left@.len() + self.center@.len() + self.right@.len() <= usize::MAX,
        ensures
            n == self.left@.len() + self.center@.len() + self.right@.len(),
    {
        self.left.len() + self.center.len() + self.right.len()
    }
}

/// Why an rc file could not be loaded.
#[derive(Debug)]
pub enum LispError {
    /// The file could not be read.
    Io { path: String, source: std::io::Error },
    /// The reader or the typed compiler refused the source.
    Parse(String),
    /// A `defhook` names an event outside [`KNOWN_EVENTS`].
    UnknownHook(String),
    /// A `deftheme` names a preset outside [`KNOWN_PRESETS`].
    UnknownTheme(String),
    /// A `defkeybind` names a mode escriba does not have.
    UnknownMode(String),
}

/// The words of `list`, each followed by `", "` but the last.
pub open spec fn comma_list(list: Seq<Seq<char>>) -> Seq<char>
    decreases list.len(),
{
    if list.len() == 0 {
        Seq::<char>::empty()
    } else if list.len() == 1 {
        list[0]
    } else {
        comma_list(list.drop_last()) + ", "@ + list.last()
    }
}

fn push_comma_list(out: &mut String, list: &[&'static str])
    ensures
        final(out)@ == old(out)@ + comma_list(views(list@)),
{
    let ghost start = out@;
    let mut i: usize = 0;
    while i < list.len()
        invariant
            i <= list@.len(),
            out@ == start + comma_list(views(list@.subrange(0, i as int))),
        decreases list@.len() - i,
    {
        let ghost pre = views(list@.subrange(0, i as int));
        assert(views(list@.subrange(0, i + 1)) =~= pre.push(list@[i as int]@));
        assert(views(list@.subrange(0, i + 1)).drop_last() =~= pre);
        if i > 0 {
            push_str(out, ", ");
        }
        push_str(out, list[i]);
        i += 1;
        assert(out@ =~= start + comma_list(views(list@.subrange(0, i as int))));
    }
    assert(list@.subrange(0, i as int) =~= list@);
}

impl LispError {
    /// The message shown to the operator.
    pub fn message(&self, io_text: &str) -> (m: String)
        ensures
            m@ == match *self {
                LispError::Io { path, source } => "io error reading rc file "@ + path@ + ": "@ + io_text@,
                LispError::Parse(s) => "tatara-lisp parse error: "@ + s@,
                LispError::UnknownHook(s) => "unknown hook event: "@ + s@ + " (valid: "@ + comma_list(
                    views(KNOWN_EVENTS@),
                ) + ")"@,
                LispError::UnknownTheme(s) => "unknown theme preset: "@ + s@ + " (valid: "@ + comma_list(
                    views(KNOWN_PRESETS@),
                ) + ")"@,
                LispError::UnknownMode(s) => "unknown mode name: "@ + s@
                    + " (valid: normal, insert, visual, visual-line, command)"@,
            },
    {
        let mut m = String::new();
        match self {
            LispError::Io { path, source: _ } => {
                push_str(&mut m, "io error reading rc file ");
                push_str(&mut m, path.as_str());
                push_str(&mut m, ": ");
                push_str(&mut m, io_text);
            },
            LispError::Parse(s) => {
                push_str(&mut m, "tatara-lisp parse error: ");
                push_str(&mut m, s.as_str());
            },
            LispError::UnknownHook(s) => {
                push_str(&mut m, "unknown hook event: ");
                push_str(&mut m, s.as_str());
                push_str(&mut m, " (valid: ");
                push_comma_list(&mut m, &KNOWN_EVENTS);
                push_str(&mut m, ")");
            },
            LispError::UnknownTheme(s) => {
                push_str(&mut m, "unknown theme preset: ");
                push_str(&mut m, s.as_str());
                push_str(&mut m, " (valid: ");
                push_comma_list(&mut m, &KNOWN_PRESETS);
                push_str(&mut m, ")");
            },
            LispError::UnknownMode(s) => {
                push_str(&mut m, "unknown mode name: ");
                push_str(&mut m, s.as_str());
                push_str(&mut m, " (valid: normal, insert, visual, visual-line, command)");
            },
        }
        m
    }
}

/// The keybind modes an rc may name.
pub open spec fn is_mode_name(s: Seq<char>) -> bool {
    s == "normal"@ || s == "insert"@ || s == "visual"@ || s == "visual-line"@ || s == "command"@
}

/// `Ok` for a mode escriba has, `UnknownMode` otherwise.
pub fn validate_mode(mode: &str) -> (r: Result<(), LispError>)
    ensures
        r is Ok <==> is_mode_name(mode@),
        r matches Err(LispError::UnknownMode(s)) ==> s@ == mode@,
        r is Err ==> r matches Err(LispError::UnknownMode(_)),
{
    if crate::text::str_eq(mode, "normal") || crate::text::str_eq(mode, "insert") || crate::text::str_eq(
        mode,
        "visual",
    ) || crate::text::str_eq(mode, "visual-line") || crate::text::str_eq(mode, "command") {
        Ok(())
    } else {
        Err(LispError::UnknownMode(owned(mode)))
    }
}

/// A theme preset that is neither empty nor built in.
pub open spec fn bad_preset(t: ThemeSpec) -> bool {
    t.preset@.len() > 0 && !views(KNOWN_PRESETS@).contains(t.preset@)
}

/// A hook event outside the known list.
pub open spec fn bad_event(h: HookSpec) -> bool {
    !views(KNOWN_EVENTS@).contains(h.event@)
}

/// Keybind `i` is the first whose mode escriba does not have.
pub open spec fn first_bad_mode_at(ks: Seq<KeybindSpec>, i: int) -> bool {
    &&& 0 <= i < ks.len()
    &&& !is_mode_name(ks[i].mode@)
    &&& forall|j: int| 0 <= j < i ==> is_mode_name(#[trigger] ks[j].mode@)
}

/// Theme `i` is the first with an unknown preset.
pub open spec fn first_bad_preset_at(ts: Seq<ThemeSpec>, i: int) -> bool {
    &&& 0 <= i < ts.len()
    &&& bad_preset(ts[i])
    &&& forall|j: int| 0 <= j < i ==> !bad_preset(#[trigger] ts[j])
}

/// Hook `i` is the first with an unknown event.
pub open spec fn first_bad_event_at(hs: Seq<HookSpec>, i: int) -> bool {
    &&& 0 <= i < hs.len()
    &&& bad_event(hs[i])
    &&& forall|j: int| 0 <= j < i ==> !bad_event(#[trigger] hs[j])
}

/// Check every keybind's mode; the first unknown one is the error.
pub fn check_keybinds(ks: &Vec<KeybindSpec>) -> (r: Result<(), LispError>)
    ensures
        r is Ok <==> forall|i: int| 0 <= i < ks@.len() ==> is_mode_name(#[trigger] ks@[i].mode@),
        r matches Err(e) ==> exists|i: int|
            first_bad_mode_at(ks@, i) && (e matches LispError::UnknownMode(
                s,
            ) && s@ == ks@[i].mode@),
{
    let mut i: usize = 0;
    while i < ks.len()
        invariant
            i <= ks@.len(),
            forall|j: int| 0 <= j < i ==> is_mode_name(#[trigger] ks@[j].mode@),
        decreases ks@.len() - i,
    {
        match validate_mode(ks[i].mode.as_str()) {
            Ok(()) => {},
            Err(e) => {
                assert(first_bad_mode_at(ks@, i as int));
                return Err(e);
            },
        }
        i += 1;
    }
    Ok(())
}

/// Check every theme's preset; the first unknown one is the error.
pub fn check_themes(ts: &Vec<ThemeSpec>) -> (r: Result<(), LispError>)
    ensures
        r is Ok <==> forall|i: int| 0 <= i < ts@.len() ==> !bad_preset(#[trigger] ts@[i]),
        r matches Err(e) ==> exists|i: int|
            first_bad_preset_at(ts@, i) && (e matches LispError::UnknownTheme(s)
                && s@ == ts@[i].preset@),
{
    let mut i: usize = 0;
    while i < ts.len()
        invariant
            i <= ts@.len(),
            forall|j: int| 0 <= j < i ==> !bad_preset(#[trigger] ts@[j]),
        decreases ts@.len() - i,
    {
        let p = ts[i].preset.as_str();
        if p.unicode_len() != 0 && !is_known_preset(p) {
            assert(first_bad_preset_at(ts@, i as int));
            return Err(LispError::UnknownTheme(owned(p)));
        }
        i += 1;
    }
    Ok(())
}

/// Check every hook's event; the first unknown one is the error.
pub fn check_hooks(hs: &Vec<HookSpec>) -> (r: Result<(), LispError>)
    ensures
        r is Ok <==> forall|i: int| 0 <= i < hs@.len() ==> !bad_event(#[trigger] hs@[i]),
        r matches Err(e) ==> exists|i: int|
            first_bad_event_at(hs@, i) && (e matches LispError::UnknownHook(s) && s@
                == hs@[i].event@),
{
    let mut i: usize = 0;
    while i < hs.len()
        invariant
            i <= hs@.len(),
            forall|j: int| 0 <= j < i ==> !bad_event(#[trigger] hs@[j]),
        decreases hs@.len() - i,
    {
        if !is_known_event(hs[i].event.as_str()) {
            assert(first_bad_event_at(hs@, i as int));
            return Err(LispError::UnknownHook(owned(hs[i].event.as_str())));
        }
        i += 1;
    }
    Ok(())
}

/// Everything the reader found in one source, kind by kind, in source
/// order, before validation.
#[derive(Debug, Clone, Default)]
pub struct ParsedForms {
    pub keybinds: Vec<KeybindSpec>,
    pub commands: Vec<CmdSpec>,
    pub options: Vec<OptionSpec>,
    pub themes: Vec<ThemeSpec>,
    pub hooks: Vec<HookSpec>,
    pub filetypes: Vec<FiletypeSpec>,
    pub abbreviations: Vec<AbbrevSpec>,
    pub snippets: Vec<SnippetSpec>,
    pub major_modes: Vec<MajorModeSpec>,
    pub plugins: Vec<PluginSpec>,
    pub highlights: Vec<HighlightSpec>,
    pub status_lines: Vec<StatusLineSpec>,
}

/// Everything a Lisp rc file can declare, in one typed bundle.
///
/// Each vector keeps source order; `theme` and `status_line` hold the
/// last such form.
#[derive(Debug, Clone, Default)]
pub struct ApplyPlan {
    pub keybinds: Vec<KeybindSpec>,
    pub commands: Vec<CmdSpec>,
    pub options: Vec<OptionSpec>,
    pub theme: Option<ThemeSpec>,
    pub hooks: Vec<HookSpec>,
    pub filetypes: Vec<FiletypeSpec>,
    pub abbreviations: Vec<AbbrevSpec>,
    pub snippets: Vec<SnippetSpec>,
    pub major_modes: Vec<MajorModeSpec>,
    pub plugins: Vec<PluginSpec>,
    pub highlights: Vec<HighlightSpec>,
    pub status_line: Option<StatusLineSpec>,
}

/// The last element of `v`, if any.
pub open spec fn last_of<T>(v: Seq<T>) -> Option<T> {
    if v.len() == 0 {
        None
    } else {
        Some(v.last())
    }
}

fn take_last<T>(v: Vec<T>) -> (r: Option<T>)
    ensures
        r == last_of(v@),
{
    let mut v = v;
    v.pop()
}

/// Validate the forms of one source and bundle them into a plan: keybind
/// modes first, then theme presets, then hook events; the first bad one
/// is the error. The last theme and the last status line win.
pub fn plan_from_forms(forms: ParsedForms) -> (r: Result<ApplyPlan, LispError>)
    ensures
        r is Ok <==> (forall|i: int|
            0 <= i < forms.keybinds@.len() ==> is_mode_name(#[trigger] forms.keybinds@[i].mode@))
            && (forall|i: int| 0 <= i < forms.themes@.len() ==> !bad_preset(#[trigger] forms.themes@[i]))
            && (forall|i: int| 0 <= i < forms.hooks@.len() ==> !bad_event(#[trigger] forms.hooks@[i])),
        r matches Ok(p) ==> {
            &&& p.keybinds@ == forms.keybinds@
            &&& p.commands@ == forms.commands@
            &&& p.options@ == forms.options@
            &&& p.theme == last_of(forms.themes@)
            &&& p.hooks@ == forms.hooks@
            &&& p.filetypes@ == forms.filetypes@
            &&& p.abbreviations@ == forms.abbreviations@
            &&& p.snippets@ == forms.snippets@
            &&& p.major_modes@ == forms.major_modes@
            &&& p.plugins@ == forms.plugins@
            &&& p.highlights@ == forms.highlights@
            &&& p.status_line == last_of(forms.status_lines@)
        },
        r matches Err(e) ==> {
            ||| exists|i: int|
                first_bad_mode_at(forms.keybinds@, i) && (
                e matches LispError::UnknownMode(s) && s@ == forms.keybinds@[i].mode@)
            ||| (forall|i: int|
                0 <= i < forms.keybinds@.len() ==> is_mode_name(#[trigger] forms.keybinds@[i].mode@))
                && exists|i: int|
                first_bad_preset_at(forms.themes@, i) && (
                e matches LispError::UnknownTheme(s) && s@ == forms.themes@[i].preset@)
            ||| (forall|i: int|
                0 <= i < forms.keybinds@.len() ==> is_mode_name(#[trigger] forms.keybinds@[i].mode@))
                && (forall|i: int| 0 <= i < forms.themes@.len() ==> !bad_preset(#[trigger] forms.themes@[i]))
                && exists|i: int|
                first_bad_event_at(forms.hooks@, i) && (
                e matches LispError::UnknownHook(s) && s@ == forms.hooks@[i].event@)
        },
{
    match check_keybinds(&forms.keybinds) {
        Ok(()) => {},
        Err(e) => return Err(e),
    }
    match check_themes(&forms.themes) {
        Ok(()) => {},
        Err(e) => return Err(e),
    }
    match check_hooks(&forms.hooks) {
        Ok(()) => {},
        Err(e) => return Err(e),
    }
    let ParsedForms {
        keybinds,
        commands,
        options,
        themes,
        hooks,
        filetypes,
        abbreviations,
        snippets,
        major_modes,
        plugins,
        highlights,
        status_lines,
    } = forms;
    Ok(
        ApplyPlan {
            keybinds,
            commands,
            options,
            theme: take_last(themes),
            hooks,
            filetypes,
            abbreviations,
            snippets,
            major_modes,
            plugins,
            highlights,
            status_line: take_last(status_lines),
        },
    )
}

/// `b` replaces `a` when it is set.
pub open spec fn later<T>(a: Option<T>, b: Option<T>) -> Option<T> {
    if b is Some {
        b
    } else {
        a
    }
}

/// The counts [`ApplyPlan::summary`] reports.
pub open spec fn summary_text(p: ApplyPlan) -> Seq<char> {
    "keybinds="@ + decimal(p.keybinds@.len()) + " cmds="@ + decimal(p.commands@.len()) + " options="@
        + decimal(p.options@.len()) + " theme="@ + decimal(if p.theme is Some { 1 } else { 0 })
        + " hooks="@ + decimal(p.hooks@.len()) + " filetypes="@ + decimal(p.filetypes@.len())
        + " abbrev="@ + decimal(p.abbreviations@.len()) + " snippets="@ + decimal(p.snippets@.len())
        + " major_modes="@ + decimal(p.major_modes@.len()) + " plugins="@ + decimal(p.plugins@.len())
        + " highlights="@ + decimal(p.highlights@.len()) + " statusline="@ + decimal(
        if p.status_line is Some {
            1
        } else {
            0
        },
    )
}

impl ApplyPlan {
    /// Merge `other` into `self`: every list concatenates in order, and a
    /// theme or status line in `other` replaces this one.
    pub fn merge(&mut self, other: ApplyPlan)
        ensures
            final(self).keybinds@ == old(self).keybinds@ + other.keybinds@,
            final(self).commands@ == old(self).commands@ + other.commands@,
            final(self).options@ == old(self).options@ + other.options@,
            final(self).theme == later(old(self).theme, other.theme),
            final(self).hooks@ == old(self).hooks@ + other.hooks@,
            final(self).filetypes@ == old(self).filetypes@ + other.filetypes@,
            final(self).abbreviations@ == old(self).abbreviations@ + other.abbreviations@,
            final(self).snippets@ == old(self).snippets@ + other.snippets@,
            final(self).major_modes@ == old(self).major_modes@ + other.major_modes@,
            final(self).plugins@ == old(self).plugins@ + other.plugins@,
            final(self).highlights@ == old(self).highlights@ + other.highlights@,
            final(self).status_line == later(old(self).status_line, other.status_line),
    {
        let mut other = other;
        self.keybinds.append(&mut other.keybinds);
        self.commands.append(&mut other.commands);
        self.options.append(&mut other.options);
        if other.theme.is_some() {
            self.theme = other.theme;
        }
        self.hooks.append(&mut other.hooks);
        self.filetypes.append(&mut other.filetypes);
        self.abbreviations.append(&mut other.abbreviations);
        self.snippets.append(&mut other.snippets);
        self.major_modes.append(&mut other.major_modes);
        self.plugins.append(&mut other.plugins);
        self.highlights.append(&mut other.highlights);
        if other.status_line.is_some() {
            self.status_line = other.status_line;
        }
    }

    /// A one-line count of everything declared.
    pub fn summary(&self) -> (s: String)
        ensures
            s@ == summary_text(*self),
    {
        let mut s = owned("keybinds=");
        push_decimal(&mut s, self.keybinds.len() as u64);
        push_str(&mut s, " cmds=");
        push_decimal(&mut s, self.commands.len() as u64);
        push_str(&mut s, " options=");
        push_decimal(&mut s, self.options.len() as u64);
        push_str(&mut s, " theme=");
        push_decimal(&mut s, if self.theme.is_some() { 1 } else { 0 });
        push_str(&mut s, " hooks=");
        push_decimal(&mut s, self.hooks.len() as u64);
        push_str(&mut s, " filetypes=");
        push_decimal(&mut s, self.filetypes.len() as u64);
        push_str(&mut s, " abbrev=");
        push_decimal(&mut s, self.abbreviations.len() as u64);
        push_str(&mut s, " snippets=");
        push_decimal(&mut s, self.snippets.len() as u64);
        push_str(&mut s, " major_modes=");
        push_decimal(&mut s, self.major_modes.len() as u64);
        push_str(&mut s, " plugins=");
        push_decimal(&mut s, self.plugins.len() as u64);
        push_str(&mut s, " highlights=");
        push_decimal(&mut s, self.highlights.len() as u64);
        push_str(&mut s, " statusline=");
        push_decimal(&mut s, if self.status_line.is_some() { 1 } else { 0 });
        assert(s@ =~= summary_text(*self));
        s
    }
}

} // verus!
