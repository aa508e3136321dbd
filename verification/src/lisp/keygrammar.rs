//! The key-string grammar of `defkeybind :key`.
//!
//! A key string is a run of tokens: a bare character, or a `<…>` form.
//! `<leader>` and `<localleader>` stand for the keymap's leader; `<Esc>`,
//! `<CR>`, `<Tab>`, … name keys; `<F1>`…`<F20>` are function keys;
//! `<C-r>`, `<A-f>`/`<M-f>`, `<S-h>` fold one modifier into a key; anything
//! with more modifiers, or with `Super`, becomes a fleet chord.

use vstd::prelude::*;
use crate::keys::{Key, fleet_key_named, fleet_modifiers, hotkey_of, fleet_key_from_name, modifiers_from_bits, hotkey_new};
use crate::text::{
    ascii_lower, ascii_upper, lower_char, upper_char, lower_ascii, chars_of, string_of, slice_vec,
    str_eq, to_ascii_lower, trim_ws, trim_str, first_index, find_char, owned, push_str,
};

verus! {

/// The named keys, by their lowered name.
pub open spec fn spec_named_key(lower: Seq<char>) -> Option<Key> {
    if lower == "esc"@ || lower == "escape"@ {
        Some(Key::Esc)
    } else if lower == "cr"@ || lower == "enter"@ || lower == "return"@ {
        Some(Key::Enter)
    } else if lower == "tab"@ {
        Some(Key::Tab)
    } else if lower == "bs"@ || lower == "backspace"@ {
        Some(Key::Backspace)
    } else if lower == "left"@ {
        Some(Key::Left)
    } else if lower == "right"@ {
        Some(Key::Right)
    } else if lower == "up"@ {
        Some(Key::Up)
    } else if lower == "down"@ {
        Some(Key::Down)
    } else if lower == "home"@ {
        Some(Key::Home)
    } else if lower == "end"@ {
        Some(Key::End)
    } else if lower == "pageup"@ {
        Some(Key::PageUp)
    } else if lower == "pagedown"@ {
        Some(Key::PageDown)
    } else if lower == "space"@ || lower == "spc"@ {
        Some(Key::Char(' '))
    } else {
        None
    }
}

/// The named key a lowered name denotes.
pub fn named_key(lower: &str) -> (r: Option<Key>)
    ensures
        r == spec_named_key(lower@),
{
    if str_eq(lower, "esc") || str_eq(lower, "escape") {
        Some(Key::Esc)
    } else if str_eq(lower, "cr") || str_eq(lower, "enter") || str_eq(lower, "return") {
        Some(Key::Enter)
    } else if str_eq(lower, "tab") {
        Some(Key::Tab)
    } else if str_eq(lower, "bs") || str_eq(lower, "backspace") {
        Some(Key::Backspace)
    } else if str_eq(lower, "left") {
        Some(Key::Left)
    } else if str_eq(lower, "right") {
        Some(Key::Right)
    } else if str_eq(lower, "up") {
        Some(Key::Up)
    } else if str_eq(lower, "down") {
        Some(Key::Down)
    } else if str_eq(lower, "home") {
        Some(Key::Home)
    } else if str_eq(lower, "end") {
        Some(Key::End)
    } else if str_eq(lower, "pageup") {
        Some(Key::PageUp)
    } else if str_eq(lower, "pagedown") {
        Some(Key::PageDown)
    } else if str_eq(lower, "space") || str_eq(lower, "spc") {
        Some(Key::Char(' '))
    } else {
        None
    }
}

/// The one character of `s`, when it has exactly one.
pub open spec fn spec_single_char(s: Seq<char>) -> Option<char> {
    if s.len() == 1 {
        Some(s[0])
    } else {
        None
    }
}

/// The one character of `s`, when it has exactly one.
pub fn single_char(s: &str) -> (r: Option<char>)
    ensures
        r == spec_single_char(s@),
{
    if s.unicode_len() == 1 {
        Some(s.get_char(0))
    } else {
        None
    }
}

/// The character a modifier applies to: a single character, or a named
/// key that is a printable character (`Space`).
pub open spec fn spec_modifier_operand(s: Seq<char>) -> Option<char> {
    match spec_single_char(s) {
        Some(c) => Some(c),
        None => match spec_named_key(lower_ascii(s)) {
            Some(Key::Char(c)) => Some(c),
            _ => None,
        },
    }
}

/// The character a modifier applies to.
pub fn modifier_operand(s: &str) -> (r: Option<char>)
    ensures
        r == spec_modifier_operand(s@),
{
    if let Some(c) = single_char(s) {
        return Some(c);
    }
    let lower = to_ascii_lower(s);
    match named_key(lower.as_str()) {
        Some(Key::Char(c)) => Some(c),
        _ => None,
    }
}

/// Is `c` an ASCII digit?
pub open spec fn is_digit(c: char) -> bool {
    '0' <= c && c <= '9'
}

/// The value of a run of ASCII digits.
pub open spec fn digits_value(d: Seq<char>) -> nat
    decreases d.len(),
{
    if d.len() == 0 {
        0
    } else {
        digits_value(d.drop_last()) * 10 + ((d.last() as nat) - 48) as nat
    }
}

/// `s` without one leading `+`.
pub open spec fn unsigned_digits(s: Seq<char>) -> Seq<char> {
    if s.len() > 0 && s[0] == '+' {
        s.drop_first()
    } else {
        s
    }
}

/// Every character of `d` is an ASCII digit.
pub open spec fn all_digits(d: Seq<char>) -> bool {
    forall|i: int| 0 <= i < d.len() ==> is_digit(#[trigger] d[i])
}

/// What `str::parse::<u8>` reads from `s`: an optional `+`, then one or
/// more ASCII digits whose value fits a byte.
pub open spec fn spec_parse_u8(s: Seq<char>) -> Option<u8> {
    let d = unsigned_digits(s);
    if d.len() > 0 && all_digits(d) && digits_value(d) <= 255 {
        Some(digits_value(d) as u8)
    } else {
        None
    }
}

proof fn lemma_digits_value_grows(d: Seq<char>)
    requires
        forall|i: int| 0 <= i < d.len() ==> is_digit(#[trigger] d[i]),
    ensures
        forall|k: int| 0 <= k <= d.len() ==> digits_value(#[trigger] d.subrange(0, k)) <= digits_value(d),
    decreases d.len(),
{
    if d.len() > 0 {
        let p = d.drop_last();
        assert forall|i: int| 0 <= i < p.len() implies is_digit(#[trigger] p[i]) by {
            assert(p[i] == d[i]);
        }
        lemma_digits_value_grows(p);
        assert forall|k: int| 0 <= k <= d.len() implies digits_value(#[trigger] d.subrange(0, k)) <= digits_value(d) by {
            if k < d.len() {
                assert(d.subrange(0, k) =~= p.subrange(0, k));
                assert(digits_value(p.subrange(0, k)) <= digits_value(p));
            } else {
                assert(d.subrange(0, k) =~= d);
            }
        }
    }
}

/// `str::parse::<u8>`.
pub fn parse_u8(s: &Vec<char>) -> (r: Option<u8>)
    ensures
        r == spec_parse_u8(s@),
{
    let start: usize = if s.len() > 0 && s[0] == '+' {
        1
    } else {
        0
    };
    let ghost d = unsigned_digits(s@);
    assert(d =~= s@.subrange(start as int, s@.len() as int));
    if start >= s.len() {
        return None;
    }
    let mut value: u32 = 0;
    let mut i = start;
    while i < s.len()
        invariant
            start <= i <= s@.len(),
            d == s@.subrange(start as int, s@.len() as int),
            d == unsigned_digits(s@),
            forall|j: int| start <= j < i ==> is_digit(#[trigger] s@[j]),
            value as nat == digits_value(s@.subrange(start as int, i as int)),
            value <= 255,
        decreases s@.len() - i,
    {
        let c = s[i];
        if !('0' <= c && c <= '9') {
            assert(d[i - start] == s@[i as int]);
            assert(!is_digit(d[i - start]));
            assert(!all_digits(d));
            assert(spec_parse_u8(s@) is None);
            return None;
        }
        let ghost pre = s@.subrange(start as int, i as int);
        let ghost cur = s@.subrange(start as int, i + 1);
        assert(cur.drop_last() =~= pre);
        assert(cur.last() == c);
        let next: u32 = value * 10 + ((c as u32) - 48);
        assert(digits_value(cur) == next);
        if next > 255 {
            proof {
                if all_digits(d) {
                    lemma_digits_value_grows(d);
                    assert(d.subrange(0, i + 1 - start) =~= cur);
                    assert(digits_value(d.subrange(0, i + 1 - start)) <= digits_value(d));
                }
            }
            assert(spec_parse_u8(s@) is None);
            return None;
        }
        value = next;
        i += 1;
    }
    assert(s@.subrange(start as int, i as int) =~= d);
    Some(value as u8)
}

/// Both characters of a two-character prefix, the second a `-`, with the
/// first one of `a`/`b`.
pub open spec fn dash_prefix(s: Seq<char>, a: char, b: char) -> bool {
    s.len() >= 2 && (s[0] == a || s[0] == b) && s[1] == '-'
}

/// Does `l` start with the characters of `p`?
pub open spec fn starts(l: Seq<char>, p: Seq<char>) -> bool {
    p.len() <= l.len() && l.subrange(0, p.len() as int) == p
}

/// Strip every modifier prefix from `rest`, in any order and either case,
/// collecting awase's modifier bits (`CMD` 1, `CTRL` 2, `ALT` 4, `SHIFT`
/// 8): the chord's key name and its modifier set.
pub open spec fn chord_mods(rest: Seq<char>, bits: u8) -> (Seq<char>, u8)
    decreases rest.len(),
{
    let l = lower_ascii(rest);
    if l.len() >= 2 && l[0] == 'c' && l[1] == '-' {
        chord_mods(rest.subrange(2, rest.len() as int), bits | 2)
    } else if l.len() >= 2 && (l[0] == 'a' || l[0] == 'm') && l[1] == '-' {
        chord_mods(rest.subrange(2, rest.len() as int), bits | 4)
    } else if l.len() >= 2 && l[0] == 's' && l[1] == '-' {
        chord_mods(rest.subrange(2, rest.len() as int), bits | 8)
    } else if l.len() >= 2 && l[0] == 'd' && l[1] == '-' {
        chord_mods(rest.subrange(2, rest.len() as int), bits | 1)
    } else if l.len() >= 4 && l[0] == 'c' && l[1] == 'm' && l[2] == 'd' && l[3] == '-' {
        chord_mods(rest.subrange(4, rest.len() as int), bits | 1)
    } else if l.len() >= 6 && l[0] == 's' && l[1] == 'u' && l[2] == 'p' && l[3] == 'e' && l[4] == 'r'
        && l[5] == '-' {
        chord_mods(rest.subrange(6, rest.len() as int), bits | 1)
    } else {
        (rest, bits)
    }
}

/// A chord with more than one modifier, or with `Super`: its modifiers
/// stripped, its key looked up by the lowered remainder in awase's names.
pub open spec fn spec_rich_chord(inner: Seq<char>) -> Option<Key> {
    let (rest, bits) = chord_mods(inner, 0);
    if bits == 0 {
        None
    } else {
        match fleet_key_named(lower_ascii(rest)) {
            Some(k) => Some(Key::Chord(hotkey_of(fleet_modifiers(bits), k))),
            None => None,
        }
    }
}

/// A chord with more than one modifier, or with `Super`.
pub fn rich_chord(inner: &str) -> (r: Option<Key>)
    ensures
        r == spec_rich_chord(inner@),
{
    let v = chars_of(inner);
    let n = v.len();
    let mut i: usize = 0;
    let mut bits: u8 = 0;
    assert(v@.subrange(0, n as int) =~= v@);
    while i < n
        invariant
            i <= n,
            n == v@.len(),
            v@ == inner@,
            chord_mods(v@.subrange(i as int, n as int), bits) == chord_mods(inner@, 0),
        ensures
            i <= n,
            chord_mods(inner@, 0) == (v@.subrange(i as int, n as int), bits),
        decreases n - i,
    {
        let ghost rest = v@.subrange(i as int, n as int);
        let ghost l = lower_ascii(rest);
        assert(l.len() == rest.len());
        assert forall|k: int| 0 <= k < l.len() implies #[trigger] l[k] == ascii_lower(v@[i + k]) by {
            assert(rest[k] == v@[i + k]);
        }
        let c0 = lower_char(v[i]);
        let c1 = if i + 1 < n {
            lower_char(v[i + 1])
        } else {
            ' '
        };
        let step: usize;
        let bit: u8;
        if n - i >= 2 && c0 == 'c' && c1 == '-' {
            step = 2;
            bit = 2;
        } else if n - i >= 2 && (c0 == 'a' || c0 == 'm') && c1 == '-' {
            step = 2;
            bit = 4;
        } else if n - i >= 2 && c0 == 's' && c1 == '-' {
            step = 2;
            bit = 8;
        } else if n - i >= 2 && c0 == 'd' && c1 == '-' {
            step = 2;
            bit = 1;
        } else if n - i >= 4 && c0 == 'c' && c1 == 'm' && lower_char(v[i + 2]) == 'd' && lower_char(
            v[i + 3],
        ) == '-' {
            step = 4;
            bit = 1;
        } else if n - i >= 6 && c0 == 's' && c1 == 'u' && lower_char(v[i + 2]) == 'p' && lower_char(
            v[i + 3],
        ) == 'e' && lower_char(v[i + 4]) == 'r' && lower_char(v[i + 5]) == '-' {
            step = 6;
            bit = 1;
        } else {
            assert(chord_mods(rest, bits) == (rest, bits));
            break;
        }
        assert(rest.subrange(step as int, rest.len() as int) =~= v@.subrange(i + step, n as int));
        bits = bits | bit;
        i = i + step;
    }
    if bits == 0 {
        return None;
    }
    let rest = string_of(&slice_vec(&v, i, n));
    let name = to_ascii_lower(rest.as_str());
    match fleet_key_from_name(name.as_str()) {
        Some(k) => Some(Key::Chord(hotkey_new(modifiers_from_bits(bits), k))),
        None => None,
    }
}

/// The key a `<…>` form's inside names (without leader resolution):
/// a named key, a function key `F1`…`F20`, a single-modifier form whose
/// operand is a character, or else a richer chord.
pub open spec fn spec_bracket_key(inner: Seq<char>) -> Option<Key> {
    let lower = lower_ascii(inner);
    let rest = inner.subrange(2, inner.len() as int);
    let fnum = if lower.len() > 0 && lower[0] == 'f' {
        spec_parse_u8(lower.drop_first())
    } else {
        None
    };
    if spec_named_key(lower) is Some {
        spec_named_key(lower)
    } else if fnum matches Some(n) && 1 <= n <= 20 {
        Some(Key::F(fnum->0))
    } else if dash_prefix(inner, 'C', 'c') && spec_modifier_operand(rest) is Some {
        Some(Key::Ctrl(spec_modifier_operand(rest)->0))
    } else if (dash_prefix(inner, 'A', 'a') || dash_prefix(inner, 'M', 'm')) && spec_modifier_operand(
        rest,
    ) is Some {
        Some(Key::Alt(spec_modifier_operand(rest)->0))
    } else if dash_prefix(inner, 'S', 's') && spec_modifier_operand(rest) is Some {
        Some(Key::Char(ascii_upper(spec_modifier_operand(rest)->0)))
    } else {
        spec_rich_chord(inner)
    }
}

/// The key a `<…>` form's inside names.
pub fn parse_bracket_key(inner: &str) -> (r: Option<Key>)
    ensures
        r == spec_bracket_key(inner@),
{
    let lower = to_ascii_lower(inner);
    if let Some(k) = named_key(lower.as_str()) {
        return Some(k);
    }
    let lv = chars_of(lower.as_str());
    if lv.len() > 0 && lv[0] == 'f' {
        let digits = slice_vec(&lv, 1, lv.len());
        assert(digits@ =~= lv@.drop_first());
        if let Some(n) = parse_u8(&digits) {
            if 1 <= n && n <= 20 {
                return Some(Key::F(n));
            }
        }
    }
    let v = chars_of(inner);
    let n = v.len();
    if n < 2 || v[1] != '-' {
        return rich_chord(inner);
    }
    let rest = string_of(&slice_vec(&v, 2, n));
    assert(rest@ =~= inner@.subrange(2, inner@.len() as int));
    let c0 = v[0];
    if c0 == 'C' || c0 == 'c' {
        if let Some(c) = modifier_operand(rest.as_str()) {
            return Some(Key::Ctrl(c));
        }
    }
    if c0 == 'A' || c0 == 'a' || c0 == 'M' || c0 == 'm' {
        if let Some(c) = modifier_operand(rest.as_str()) {
            return Some(Key::Alt(c));
        }
    }
    if c0 == 'S' || c0 == 's' {
        if let Some(c) = modifier_operand(rest.as_str()) {
            return Some(Key::Char(upper_char(c)));
        }
    }
    rich_chord(inner)
}

/// The key one token names: a `<…>` form, `<leader>`/`<localleader>`
/// (any case) standing for `leader`, or a single bare character.
pub open spec fn spec_key_token(tok: Seq<char>, leader: Key) -> Option<Key> {
    if tok.len() >= 2 && tok[0] == '<' && tok.last() == '>' {
        let inner = tok.subrange(1, tok.len() - 1);
        let lower = lower_ascii(inner);
        if lower == "leader"@ || lower == "localleader"@ {
            Some(leader)
        } else {
            spec_bracket_key(inner)
        }
    } else {
        match spec_single_char(tok) {
            Some(c) => Some(Key::Char(c)),
            None => None,
        }
    }
}

/// The key one token names.
pub fn parse_key_token(tok: &str, leader: &Key) -> (r: Option<Key>)
    ensures
        r == spec_key_token(tok@, *leader),
{
    let v = chars_of(tok);
    let n = v.len();
    if n >= 2 && v[0] == '<' && v[n - 1] == '>' {
        let inner = string_of(&slice_vec(&v, 1, n - 1));
        let lower = to_ascii_lower(inner.as_str());
        if str_eq(lower.as_str(), "leader") || str_eq(lower.as_str(), "localleader") {
            return Some(*leader);
        }
        return parse_bracket_key(inner.as_str());
    }
    match single_char(tok) {
        Some(c) => Some(Key::Char(c)),
        None => None,
    }
}

/// Why a key string does not scan.
pub enum ScanError {
    /// A `<` with no `>` after it.
    Unterminated,
    /// A token that names no key.
    Unknown(Seq<char>),
}

/// The keys of the token run `v`, left to right: a `<` opens a token that
/// runs to the first `>`, any other character is a token of its own.
pub open spec fn scan_keys(v: Seq<char>, leader: Key) -> Result<Seq<Key>, ScanError>
    decreases v.len(),
{
    if v.len() == 0 {
        Ok(Seq::<Key>::empty())
    } else if v[0] == '<' {
        match first_index(v, '>') {
            None => Err(ScanError::Unterminated),
            Some(j) => {
                proof {
                    lemma_first_index_bound(v, '>');
                }
                let tok = v.subrange(0, j + 1 as int);
                match spec_key_token(tok, leader) {
                    None => Err(ScanError::Unknown(tok)),
                    Some(k) => match scan_keys(v.subrange(j + 1 as int, v.len() as int), leader) {
                        Ok(ks) => Ok(seq![k] + ks),
                        Err(e) => Err(e),
                    },
                }
            },
        }
    } else {
        match scan_keys(v.drop_first(), leader) {
            Ok(ks) => Ok(seq![Key::Char(v[0])] + ks),
            Err(e) => Err(e),
        }
    }
}

/// What a key string binds: its keys, or the warning for it.
pub open spec fn spec_key_sequence(s: Seq<char>, leader: Key) -> Result<Seq<Key>, Seq<char>> {
    match scan_keys(s, leader) {
        Err(ScanError::Unterminated) => Err("unterminated `<` in key `"@ + s + "`"@),
        Err(ScanError::Unknown(t)) => Err("unknown key token `"@ + t + "` in `"@ + s + "`"@),
        Ok(ks) => if ks.len() == 0 {
            Err("empty key string `"@ + s + "`"@)
        } else {
            Ok(ks)
        },
    }
}

proof fn lemma_push_concat(a: Seq<Key>, x: Key, b: Seq<Key>)
    ensures
        a + (seq![x] + b) == a.push(x) + b,
{
    assert(a + (seq![x] + b) =~= a.push(x) + b);
}

pub proof fn lemma_first_index_bound(v: Seq<char>, c: char)
    ensures
        first_index(v, c) matches Some(j) ==> j < v.len() && v[j as int] == c,
    decreases v.len(),
{
    if v.len() > 0 && v[0] != c {
        lemma_first_index_bound(v.drop_first(), c);
    }
}

proof fn lemma_first_index_shift(v: Seq<char>, i: int, c: char)
    requires
        0 <= i <= v.len(),
        forall|k: int| 0 <= k < i ==> v[k] != c,
    ensures
        first_index(v, c) == match first_index(v.subrange(i, v.len() as int), c) {
            Some(k) => Some((k + i) as nat),
            None => None::<nat>,
        },
    decreases i,
{
    if i == 0 {
        assert(v.subrange(0, v.len() as int) =~= v);
    } else {
        let t = v.drop_first();
        assert forall|k: int| 0 <= k < i - 1 implies t[k] != c by {
            assert(t[k] == v[k + 1]);
        }
        lemma_first_index_shift(t, i - 1, c);
        assert(t.subrange(i - 1, t.len() as int) =~= v.subrange(i, v.len() as int));
    }
}

/// Tokenise a key string and parse each token: `<leader>ff` is
/// `[leader, f, f]`, `gg` is `[g, g]`, `<C-w>h` is `[Ctrl(w), h]`. The
/// error names an unterminated `<`, an unknown token, or an empty string.
pub fn parse_key_sequence(s: &str, leader: &Key) -> (r: Result<Vec<Key>, String>)
    ensures
        match spec_key_sequence(s@, *leader) {
            Ok(ks) => r matches Ok(v) && v@ == ks,
            Err(m) => r matches Err(w) && w@ == m,
        },
{
    let v = chars_of(s);
    let n = v.len();
    let mut keys: Vec<Key> = Vec::new();
    let mut i: usize = 0;
    assert(v@.subrange(0, n as int) =~= v@);
    while i < n
        invariant
            i <= n,
            n == v@.len(),
            v@ == s@,
            scan_keys(s@, *leader) == match scan_keys(v@.subrange(i as int, n as int), *leader) {
                Ok(ks) => Ok(keys@ + ks),
                Err(e) => Err(e),
            },
        decreases n - i,
    {
        let ghost rest = v@.subrange(i as int, n as int);
        if v[i] == '<' {
            let mut j = i;
            while j < n && v[j] != '>'
                invariant
                    i <= j <= n,
                    n == v@.len(),
                    v@[i as int] == '<',
                    forall|k: int| i <= k < j ==> v@[k] != '>',
                decreases n - j,
            {
                j += 1;
            }
            proof {
                lemma_first_index_shift(rest, j - i, '>');
                assert(rest.subrange(j - i, rest.len() as int) =~= v@.subrange(j as int, n as int));
            }
            if j == n {
                proof {
                    assert(v@.subrange(n as int, n as int) =~= Seq::<char>::empty());
                }
                let mut m = owned("unterminated `<` in key `");
                push_str(&mut m, s);
                push_str(&mut m, "`");
                return Err(m);
            }
            proof {
                assert(v@.subrange(j as int, n as int)[0] == '>');
            }
            let tok = string_of(&slice_vec(&v, i, j + 1));
            assert(tok@ =~= rest.subrange(0, j - i + 1));
            match parse_key_token(tok.as_str(), leader) {
                None => {
                    let mut m = owned("unknown key token `");
                    push_str(&mut m, tok.as_str());
                    push_str(&mut m, "` in `");
                    push_str(&mut m, s);
                    push_str(&mut m, "`");
                    return Err(m);
                },
                Some(k) => {
                    proof {
                        assert(rest.subrange(j - i + 1, rest.len() as int) =~= v@.subrange(j + 1, n as int));
                        match scan_keys(v@.subrange(j + 1, n as int), *leader) {
                            Ok(ks) => lemma_push_concat(keys@, k, ks),
                            Err(_) => {},
                        }
                    }
                    keys.push(k);
                    i = j + 1;
                },
            }
        } else {
            let c = v[i];
            proof {
                assert(rest.drop_first() =~= v@.subrange(i + 1, n as int));
                match scan_keys(v@.subrange(i + 1, n as int), *leader) {
                    Ok(ks) => lemma_push_concat(keys@, Key::Char(c), ks),
                    Err(_) => {},
                }
            }
            keys.push(Key::Char(c));
            i += 1;
        }
    }
    assert(v@.subrange(n as int, n as int) =~= Seq::<char>::empty());
    assert(keys@ + Seq::<Key>::empty() =~= keys@);
    if keys.len() == 0 {
        let mut m = owned("empty key string `");
        push_str(&mut m, s);
        push_str(&mut m, "`");
        return Err(m);
    }
    Ok(keys)
}

/// The key a `mapleader` value names: a `<…>` form or a bare character,
/// surrounding whitespace ignored; never `<leader>` itself.
pub open spec fn spec_leader_key(value: Seq<char>) -> Option<Key> {
    let t = trim_ws(value);
    let lower = lower_ascii(t);
    if lower == "<leader>"@ || lower == "<localleader>"@ {
        None
    } else {
        spec_key_token(t, Key::Char(','))
    }
}

/// The key a `mapleader` value names.
pub fn parse_leader_key(value: &str) -> (r: Option<Key>)
    ensures
        r == spec_leader_key(value@),
{
    let trimmed = trim_str(value);
    let lower = to_ascii_lower(trimmed.as_str());
    if str_eq(lower.as_str(), "<leader>") || str_eq(lower.as_str(), "<localleader>") {
        return None;
    }
    parse_key_token(trimmed.as_str(), &Key::Char(','))
}

/// The first `c` of a text whose first `n` chars are not `c` and whose
/// char `n` is.
proof fn lemma_first_index_at(v: Seq<char>, c: char, n: int)
    requires
        0 <= n < v.len(),
        v[n] == c,
        forall|k: int| 0 <= k < n ==> v[k] != c,
    ensures
        first_index(v, c) == Some(n as nat),
    decreases n,
{
    if n > 0 {
        lemma_first_index_at(v.drop_first(), c, n - 1);
    }
}

/// A key string made of one `<…>` token binds exactly the key that token
/// names.
pub proof fn lemma_single_bracket_sequence(tok: Seq<char>, leader: Key)
    requires
        tok.len() >= 2,
        tok[0] == '<',
        tok.last() == '>',
        forall|k: int| 0 <= k < tok.len() - 1 ==> tok[k] != '>',
        spec_key_token(tok, leader) is Some,
    ensures
        spec_key_sequence(tok, leader) == Ok::<Seq<Key>, Seq<char>>(seq![spec_key_token(tok, leader)->0]),
{
    lemma_first_index_at(tok, '>', tok.len() - 1);
    let k = spec_key_token(tok, leader)->0;
    assert(tok.subrange(0, tok.len() as int) =~= tok);
    let rest = tok.subrange(tok.len() as int, tok.len() as int);
    assert(rest =~= Seq::<char>::empty());
    assert(scan_keys(rest, leader) == Ok::<Seq<Key>, ScanError>(Seq::<Key>::empty()));
    assert(seq![k] + Seq::<Key>::empty() =~= seq![k]);
    assert(scan_keys(tok, leader) == Ok::<Seq<Key>, ScanError>(seq![k]));
}

/// Each named key token denotes the key of that name, whatever the leader.
#[verifier::rlimit(80)]
pub proof fn lemma_named_key_tokens(leader: Key)
    ensures
        spec_key_token("<Esc>"@, leader) == Some(Key::Esc),
        spec_key_token("<CR>"@, leader) == Some(Key::Enter),
        spec_key_token("<Tab>"@, leader) == Some(Key::Tab),
        spec_key_token("<BS>"@, leader) == Some(Key::Backspace),
        spec_key_token("<Left>"@, leader) == Some(Key::Left),
        spec_key_token("<Right>"@, leader) == Some(Key::Right),
        spec_key_token("<Up>"@, leader) == Some(Key::Up),
        spec_key_token("<Down>"@, leader) == Some(Key::Down),
        spec_key_token("<Home>"@, leader) == Some(Key::Home),
        spec_key_token("<End>"@, leader) == Some(Key::End),
        spec_key_token("<PageUp>"@, leader) == Some(Key::PageUp),
        spec_key_token("<PageDown>"@, leader) == Some(Key::PageDown),
        spec_key_token("<Space>"@, leader) == Some(Key::Char(' ')),
{
    reveal_strlit("esc");
    reveal_strlit("escape");
    reveal_strlit("cr");
    reveal_strlit("enter");
    reveal_strlit("return");
    reveal_strlit("tab");
    reveal_strlit("bs");
    reveal_strlit("backspace");
    reveal_strlit("left");
    reveal_strlit("right");
    reveal_strlit("up");
    reveal_strlit("down");
    reveal_strlit("home");
    reveal_strlit("end");
    reveal_strlit("pageup");
    reveal_strlit("pagedown");
    reveal_strlit("space");
    reveal_strlit("spc");
    reveal_strlit("leader");
    reveal_strlit("localleader");
    reveal_strlit("<Esc>");
    reveal_strlit("Esc");
    assert("<Esc>"@.subrange(1, "<Esc>"@.len() - 1) =~= "Esc"@);
    assert(lower_ascii("Esc"@) =~= "esc"@);
    reveal_strlit("<CR>");
    reveal_strlit("CR");
    assert("<CR>"@.subrange(1, "<CR>"@.len() - 1) =~= "CR"@);
    assert(lower_ascii("CR"@) =~= "cr"@);
    reveal_strlit("<Tab>");
    reveal_strlit("Tab");
    assert("<Tab>"@.subrange(1, "<Tab>"@.len() - 1) =~= "Tab"@);
    assert(lower_ascii("Tab"@) =~= "tab"@);
    reveal_strlit("<BS>");
    reveal_strlit("BS");
    assert("<BS>"@.subrange(1, "<BS>"@.len() - 1) =~= "BS"@);
    assert(lower_ascii("BS"@) =~= "bs"@);
    reveal_strlit("<Left>");
    reveal_strlit("Left");
    assert("<Left>"@.subrange(1, "<Left>"@.len() - 1) =~= "Left"@);
    assert(lower_ascii("Left"@) =~= "left"@);
    reveal_strlit("<Right>");
    reveal_strlit("Right");
    assert("<Right>"@.subrange(1, "<Right>"@.len() - 1) =~= "Right"@);
    assert(lower_ascii("Right"@) =~= "right"@);
    reveal_strlit("<Up>");
    reveal_strlit("Up");
    assert("<Up>"@.subrange(1, "<Up>"@.len() - 1) =~= "Up"@);
    assert(lower_ascii("Up"@) =~= "up"@);
    reveal_strlit("<Down>");
    reveal_strlit("Down");
    assert("<Down>"@.subrange(1, "<Down>"@.len() - 1) =~= "Down"@);
    assert(lower_ascii("Down"@) =~= "down"@);
    reveal_strlit("<Home>");
    reveal_strlit("Home");
    assert("<Home>"@.subrange(1, "<Home>"@.len() - 1) =~= "Home"@);
    assert(lower_ascii("Home"@) =~= "home"@);
    reveal_strlit("<End>");
    reveal_strlit("End");
    assert("<End>"@.subrange(1, "<End>"@.len() - 1) =~= "End"@);
    assert(lower_ascii("End"@) =~= "end"@);
    reveal_strlit("<PageUp>");
    reveal_strlit("PageUp");
    assert("<PageUp>"@.subrange(1, "<PageUp>"@.len() - 1) =~= "PageUp"@);
    assert(lower_ascii("PageUp"@) =~= "pageup"@);
    reveal_strlit("<PageDown>");
    reveal_strlit("PageDown");
    assert("<PageDown>"@.subrange(1, "<PageDown>"@.len() - 1) =~= "PageDown"@);
    assert(lower_ascii("PageDown"@) =~= "pagedown"@);
    reveal_strlit("<Space>");
    reveal_strlit("Space");
    assert("<Space>"@.subrange(1, "<Space>"@.len() - 1) =~= "Space"@);
    assert(lower_ascii("Space"@) =~= "space"@);
}

/// The left and right arrows: a key string that is one such token binds exactly that key.
#[verifier::rlimit(80)]
pub proof fn lemma_horizontal_arrow_sequences(leader: Key)
    ensures
        spec_key_sequence("<Left>"@, leader) == Ok::<Seq<Key>, Seq<char>>(seq![Key::Left]),
        spec_key_sequence("<Right>"@, leader) == Ok::<Seq<Key>, Seq<char>>(seq![Key::Right]),
{
    lemma_named_key_tokens(leader);
    reveal_strlit("<Left>");
    lemma_single_bracket_sequence("<Left>"@, leader);
    reveal_strlit("<Right>");
    lemma_single_bracket_sequence("<Right>"@, leader);
}

/// The up and down arrows: a key string that is one such token binds exactly that key.
#[verifier::rlimit(80)]
pub proof fn lemma_vertical_arrow_sequences(leader: Key)
    ensures
        spec_key_sequence("<Up>"@, leader) == Ok::<Seq<Key>, Seq<char>>(seq![Key::Up]),
        spec_key_sequence("<Down>"@, leader) == Ok::<Seq<Key>, Seq<char>>(seq![Key::Down]),
{
    lemma_named_key_tokens(leader);
    reveal_strlit("<Up>");
    lemma_single_bracket_sequence("<Up>"@, leader);
    reveal_strlit("<Down>");
    lemma_single_bracket_sequence("<Down>"@, leader);
}

/// Home and End: a key string that is one such token binds exactly that key.
#[verifier::rlimit(80)]
pub proof fn lemma_home_end_sequences(leader: Key)
    ensures
        spec_key_sequence("<Home>"@, leader) == Ok::<Seq<Key>, Seq<char>>(seq![Key::Home]),
        spec_key_sequence("<End>"@, leader) == Ok::<Seq<Key>, Seq<char>>(seq![Key::End]),
{
    lemma_named_key_tokens(leader);
    reveal_strlit("<Home>");
    lemma_single_bracket_sequence("<Home>"@, leader);
    reveal_strlit("<End>");
    lemma_single_bracket_sequence("<End>"@, leader);
}

/// The paging keys: a key string that is one such token binds exactly that key.
#[verifier::rlimit(80)]
pub proof fn lemma_paging_key_sequences(leader: Key)
    ensures
        spec_key_sequence("<PageUp>"@, leader) == Ok::<Seq<Key>, Seq<char>>(seq![Key::PageUp]),
        spec_key_sequence("<PageDown>"@, leader) == Ok::<Seq<Key>, Seq<char>>(seq![Key::PageDown]),
{
    lemma_named_key_tokens(leader);
    reveal_strlit("<PageUp>");
    lemma_single_bracket_sequence("<PageUp>"@, leader);
    reveal_strlit("<PageDown>");
    lemma_single_bracket_sequence("<PageDown>"@, leader);
}

/// Escape and Enter: a key string that is one such token binds exactly that key.
#[verifier::rlimit(80)]
pub proof fn lemma_escape_enter_sequences(leader: Key)
    ensures
        spec_key_sequence("<Esc>"@, leader) == Ok::<Seq<Key>, Seq<char>>(seq![Key::Esc]),
        spec_key_sequence("<CR>"@, leader) == Ok::<Seq<Key>, Seq<char>>(seq![Key::Enter]),
{
    lemma_named_key_tokens(leader);
    reveal_strlit("<Esc>");
    lemma_single_bracket_sequence("<Esc>"@, leader);
    reveal_strlit("<CR>");
    lemma_single_bracket_sequence("<CR>"@, leader);
}

/// Tab and Backspace: a key string that is one such token binds exactly that key.
#[verifier::rlimit(80)]
pub proof fn lemma_tab_backspace_sequences(leader: Key)
    ensures
        spec_key_sequence("<Tab>"@, leader) == Ok::<Seq<Key>, Seq<char>>(seq![Key::Tab]),
        spec_key_sequence("<BS>"@, leader) == Ok::<Seq<Key>, Seq<char>>(seq![Key::Backspace]),
{
    lemma_named_key_tokens(leader);
    reveal_strlit("<Tab>");
    lemma_single_bracket_sequence("<Tab>"@, leader);
    reveal_strlit("<BS>");
    lemma_single_bracket_sequence("<BS>"@, leader);
}

/// Space: a key string that is one such token binds exactly that key.
#[verifier::rlimit(80)]
pub proof fn lemma_space_sequence(leader: Key)
    ensures
        spec_key_sequence("<Space>"@, leader) == Ok::<Seq<Key>, Seq<char>>(seq![Key::Char(' ')]),
{
    lemma_named_key_tokens(leader);
    reveal_strlit("<Space>");
    lemma_single_bracket_sequence("<Space>"@, leader);
}




} // verus!
