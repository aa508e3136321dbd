//! A small S-expression writer for emitting Lisp source.

use vstd::prelude::*;
use crate::text::{owned, push_char, push_str, chars_of};

verus! {

/// An S-expression: a symbol, a keyword, a string, or a list.
#[derive(Debug, PartialEq, Eq)]
pub enum Sexp {
    /// Written as is.
    Sym(String),
    /// Written with a leading `:`.
    Kw(String),
    /// Written in double quotes, `\` and `"` escaped.
    Str(String),
    /// Written in parentheses, items separated by one space.
    List(Vec<Sexp>),
}

/// One char of a string literal's body: `\` and `"` take a backslash.
pub open spec fn escape_char(c: char) -> Seq<char> {
    if c == '\\' {
        seq!['\\', '\\']
    } else if c == '"' {
        seq!['\\', '"']
    } else {
        seq![c]
    }
}

/// The body of a string literal holding `s`.
pub open spec fn escaped(s: Seq<char>) -> Seq<char>
    decreases s.len(),
{
    if s.len() == 0 {
        Seq::<char>::empty()
    } else {
        escaped(s.drop_last()) + escape_char(s.last())
    }
}

/// The items of a list, empty for anything else.
pub open spec fn items_of(x: Sexp) -> Seq<Sexp> {
    match x {
        Sexp::List(items) => items@,
        _ => Seq::<Sexp>::empty(),
    }
}

/// How `x` is written.
pub open spec fn rendered(x: Sexp) -> Seq<char>
    decreases x, 1nat, 0nat,
{
    match x {
        Sexp::Sym(s) => s@,
        Sexp::Kw(k) => seq![':'] + k@,
        Sexp::Str(s) => seq!['"'] + escaped(s@) + seq!['"'],
        Sexp::List(items) => seq!['('] + rendered_items(x, items@.len()) + seq![')'],
    }
}

/// The first `n` items of the list `x`, written and separated by spaces.
pub open spec fn rendered_items(x: Sexp, n: nat) -> Seq<char>
    decreases x, 0nat, n,
{
    let items = items_of(x);
    if n == 0 || n > items.len() {
        Seq::<char>::empty()
    } else if n == 1 {
        proof {
            assert(decreases_to!(x => items[0]));
        }
        rendered(items[0])
    } else {
        proof {
            assert(decreases_to!(x => items[n - 1]));
        }
        rendered_items(x, (n - 1) as nat) + seq![' '] + rendered(items[n - 1])
    }
}

impl Sexp {
    /// A symbol.
    pub fn sym(s: &str) -> (x: Self)
        ensures
            x matches Sexp::Sym(t) && t@ == s@,
    {
        Sexp::Sym(owned(s))
    }

    /// A keyword (written `:name`).
    pub fn kw(s: &str) -> (x: Self)
        ensures
            x matches Sexp::Kw(t) && t@ == s@,
    {
        Sexp::Kw(owned(s))
    }

    /// A string literal.
    pub fn str(s: &str) -> (x: Self)
        ensures
            x matches Sexp::Str(t) && t@ == s@,
    {
        Sexp::Str(owned(s))
    }

    /// A list of `items`.
    pub fn list(items: Vec<Sexp>) -> (x: Self)
        ensures
            x == Sexp::List(items),
    {
        Sexp::List(items)
    }

    /// A list of string literals.
    pub fn str_list(items: Vec<String>) -> (x: Self)
        ensures
            x matches Sexp::List(v) && v@.len() == items@.len() && forall|i: int|
                0 <= i < items@.len() ==> (#[trigger] v@[i] matches Sexp::Str(t) && t@ == items@[i]@),
    {
        let mut v: Vec<Sexp> = Vec::new();
        let mut i: usize = 0;
        while i < items.len()
            invariant
                i <= items@.len(),
                v@.len() == i,
                forall|k: int|
                    0 <= k < i ==> (#[trigger] v@[k] matches Sexp::Str(t) && t@ == items@[k]@),
            decreases items@.len() - i,
        {
            v.push(Sexp::Str(items[i].clone()));
            i += 1;
        }
        Sexp::List(v)
    }

    /// The written form.
    pub fn render(&self) -> (s: String)
        ensures
            s@ == rendered(*self),
    {
        let mut out = String::new();
        self.write_into(&mut out);
        out
    }

    fn write_into(&self, out: &mut String)
        ensures
            final(out)@ == old(out)@ + rendered(*self),
        decreases *self,
    {
        match self {
            Sexp::Sym(s) => {
                push_str(out, s.as_str());
            },
            Sexp::Kw(k) => {
                push_char(out, ':');
                push_str(out, k.as_str());
                assert(out@ =~= old(out)@ + rendered(*self));
            },
            Sexp::Str(s) => {
                push_char(out, '"');
                let v = chars_of(s.as_str());
                let ghost start = out@;
                let mut i: usize = 0;
                while i < v.len()
                    invariant
                        i <= v@.len(),
                        v@ == s@,
                        out@ == start + escaped(v@.subrange(0, i as int)),
                    decreases v@.len() - i,
                {
                    let ch = v[i];
                    if ch == '\\' {
                        push_char(out, '\\');
                        push_char(out, '\\');
                    } else if ch == '"' {
                        push_char(out, '\\');
                        push_char(out, '"');
                    } else {
                        push_char(out, ch);
                    }
                    assert(v@.subrange(0, i + 1).drop_last() =~= v@.subrange(0, i as int));
                    i += 1;
                    assert(out@ =~= start + escaped(v@.subrange(0, i as int)));
                }
                assert(v@.subrange(0, v@.len() as int) =~= s@);
                push_char(out, '"');
                assert(out@ =~= old(out)@ + rendered(*self));
            },
            Sexp::List(items) => {
                push_char(out, '(');
                let ghost start = out@;
                let mut i: usize = 0;
                while i < items.len()
                    invariant
                        i <= items@.len(),
                        *self == Sexp::List(*items),
                        out@ == start + rendered_items(*self, i as nat),
                    decreases items@.len() - i,
                {
                    if i > 0 {
                        push_char(out, ' ');
                    }
                    proof {
                        let ghost v: Vec<Sexp> = (*self)->List_0;
                        assert(decreases_to!(*self => (*self)->List_0));
                        assert(decreases_to!(v => v@));
                        assert(decreases_to!(v@ => v@[i as int]));
                    }
                    items[i].write_into(out);
                    i += 1;
                    assert(out@ =~= start + rendered_items(*self, i as nat));
                }
                push_char(out, ')');
                assert(out@ =~= old(out)@ + rendered(*self));
            },
        }
    }
}

} // verus!

verus! {

/// `parts` joined by single spaces.
pub open spec fn join_space(parts: Seq<Seq<char>>) -> Seq<char>
    decreases parts.len(),
{
    if parts.len() == 0 {
        Seq::<char>::empty()
    } else if parts.len() == 1 {
        parts[0]
    } else {
        join_space(parts.drop_last()) + seq![' '] + parts.last()
    }
}

/// How each of `xs` is written.
pub open spec fn rendered_each(xs: Seq<Sexp>) -> Seq<Seq<char>> {
    xs.map_values(|e: Sexp| rendered(e))
}

/// A list is written as its items, each written and joined by spaces,
/// in parentheses.
pub proof fn lemma_rendered_list(v: Vec<Sexp>)
    ensures
        rendered(Sexp::List(v)) == seq!['('] + join_space(rendered_each(v@)) + seq![')'],
{
    let x = Sexp::List(v);
    lemma_rendered_items(x, v@.len());
    assert(v@.take(v@.len() as int) =~= v@);
}

proof fn lemma_rendered_items(x: Sexp, n: nat)
    requires
        n <= items_of(x).len(),
    ensures
        rendered_items(x, n) == join_space(rendered_each(items_of(x).take(n as int))),
    decreases n,
{
    let items = items_of(x);
    if n >= 2 {
        lemma_rendered_items(x, (n - 1) as nat);
        assert(rendered_each(items.take(n as int)).drop_last() =~= rendered_each(
            items.take(n - 1),
        ));
    } else if n == 1 {
        assert(rendered_each(items.take(1)) =~= seq![rendered(items[0])]);
    } else {
        assert(rendered_each(items.take(0)) =~= Seq::<Seq<char>>::empty());
    }
}

} // verus!
