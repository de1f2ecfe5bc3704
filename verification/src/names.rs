//! Names of the dispatch methods: derived from the name of a type.

use vstd::prelude::*;
use vstd::string::*;
use crate::text::{is_upper, is_uppercase, lower_of, to_lowercase};

verus! {

/// Which of the two traversals is generated.
#[derive(Debug)]
pub struct VisitConfig {
    /// `true` for the traversal that may change the nodes it visits.
    pub mutable: bool,
}

/// Whether a scope separator `::` ends exactly at position `end` of `s`.
pub open spec fn scope_ends_at(s: Seq<char>, end: int) -> bool {
    2 <= end <= s.len() && s[end - 2] == ':' && s[end - 1] == ':'
}

/// The length of the scope in front of the final component of `s`: the
/// position just behind the last `::`, or zero where `s` holds none.
pub open spec fn qualifier_len(s: Seq<char>) -> nat
    decreases s.len(),
{
    if s.len() == 0 {
        0
    } else if scope_ends_at(s, s.len() as int) {
        s.len()
    } else {
        qualifier_len(s.drop_last())
    }
}

/// The final component of a possibly scoped name.
pub open spec fn simple_name(s: Seq<char>) -> Seq<char> {
    s.subrange(qualifier_len(s) as int, s.len() as int)
}

/// What one character of a type name contributes to a method name: an
/// upper-case letter gives an underscore and its lower-case form, any other
/// character stays.
pub open spec fn snake_char(c: char) -> Seq<char> {
    if is_upper(c) {
        seq!['_', lower_of(c)]
    } else {
        seq![c]
    }
}

/// The lower-case, underscore-separated form of a capitalised name.
pub open spec fn snake(s: Seq<char>) -> Seq<char>
    decreases s.len(),
{
    if s.len() == 0 {
        Seq::empty()
    } else {
        snake(s.drop_last()) + snake_char(s.last())
    }
}

/// The name of the dispatch method for the type called `name`.
pub open spec fn method_name(mutable: bool, name: Seq<char>) -> Seq<char> {
    if mutable {
        "visit"@ + snake(simple_name(name)) + "_mut"@
    } else {
        "visit"@ + snake(simple_name(name))
    }
}

/// The final component starts behind a scope separator or at the start of
/// the name, and at no later position does a scope separator end.
pub proof fn lemma_qualifier_is_last_scope(s: Seq<char>)
    ensures
        qualifier_len(s) <= s.len(),
        qualifier_len(s) == 0 || scope_ends_at(s, qualifier_len(s) as int),
        forall|end: int| qualifier_len(s) < end <= s.len() ==> !scope_ends_at(s, end),
    decreases s.len(),
{
    if s.len() != 0 && !scope_ends_at(s, s.len() as int) {
        let front = s.drop_last();
        lemma_qualifier_is_last_scope(front);
        assert forall|end: int| qualifier_len(s) < end <= s.len() implies !scope_ends_at(
            s,
            end,
        ) by {
            if end < s.len() {
                assert(!scope_ends_at(front, end));
            }
        }
    }
}

/// A name without a scope separator is its own final component.
pub proof fn lemma_simple_name_of_plain(s: Seq<char>)
    requires
        forall|end: int| !scope_ends_at(s, end),
    ensures
        simple_name(s) == s,
{
    lemma_qualifier_is_last_scope(s);
    assert(simple_name(s) =~= s);
}

/// Dropping a scope in front of a plain name gives the plain name back.
pub proof fn lemma_simple_name_drops_scope(scope: Seq<char>, plain: Seq<char>)
    requires
        forall|end: int| !scope_ends_at(plain, end),
        plain.len() > 0 ==> plain[0] != ':',
    ensures
        simple_name(scope + seq![':', ':'] + plain) == plain,
{
    let s = scope + seq![':', ':'] + plain;
    let cut = scope.len() + 2;
    lemma_qualifier_is_last_scope(s);
    assert(scope_ends_at(s, cut as int));
    assert forall|end: int| cut < end <= s.len() implies !scope_ends_at(s, end) by {
        if scope_ends_at(s, end) {
            if end == cut + 1 {
                assert(s[end - 1] == plain[0]);
            } else {
                assert(s[end - 2] == plain[end - 2 - cut]);
                assert(s[end - 1] == plain[end - 1 - cut]);
                assert(scope_ends_at(plain, end - cut));
            }
        }
    }
    assert(qualifier_len(s) == cut);
    assert(simple_name(s) =~= plain);
}

/// The scope in front of a plain name plays no part in the method's name.
pub proof fn lemma_method_name_ignores_scope(mutable: bool, scope: Seq<char>, plain: Seq<char>)
    requires
        forall|end: int| !scope_ends_at(plain, end),
        plain.len() > 0 ==> plain[0] != ':',
    ensures
        method_name(mutable, scope + seq![':', ':'] + plain) == method_name(mutable, plain),
{
    lemma_simple_name_drops_scope(scope, plain);
    lemma_simple_name_of_plain(plain);
}

/// The method of the mutating traversal is named like that of the reading
/// one, with `_mut` behind it.
pub proof fn lemma_mutating_name_has_suffix(name: Seq<char>)
    ensures
        method_name(true, name) == method_name(false, name) + "_mut"@,
{
}

/// Finds where the final component of `s` starts.
fn qualifier_end(s: &str) -> (start: usize)
    ensures
        start == qualifier_len(s@),
{
    let n: usize = s.unicode_len();
    let mut start: usize = 0;
    let mut after_colon: bool = false;
    let mut i: usize = 0;
    while i < n
        invariant
            n == s@.len(),
            i <= n,
            start == qualifier_len(s@.take(i as int)),
            after_colon == (i > 0 && s@[i - 1] == ':'),
        decreases n - i,
    {
        let c = s.get_char(i);
        proof {
            assert(s@.take(i + 1).drop_last() =~= s@.take(i as int));
        }
        if after_colon && c == ':' {
            start = i + 1;
        }
        after_colon = c == ':';
        i += 1;
    }
    proof {
        assert(s@.take(n as int) =~= s@);
    }
    start
}

/// Appends to `out` the lower-case, underscore-separated form of the final
/// component of `s`.
pub fn write_fn_name(out: &mut String, s: &str)
    ensures
        final(out)@ == old(out)@ + snake(simple_name(s@)),
{
    let n: usize = s.unicode_len();
    let start: usize = qualifier_end(s);
    proof {
        lemma_qualifier_is_last_scope(s@);
    }
    let mut i: usize = start;
    proof {
        assert(s@.subrange(start as int, i as int) =~= Seq::<char>::empty());
        assert(out@ =~= old(out)@ + snake(s@.subrange(start as int, i as int)));
    }
    while i < n
        invariant
            n == s@.len(),
            start <= i <= n,
            out@ == old(out)@ + snake(s@.subrange(start as int, i as int)),
        decreases n - i,
    {
        let c = s.get_char(i);
        proof {
            assert(s@.subrange(start as int, i + 1).drop_last() =~= s@.subrange(
                start as int,
                i as int,
            ));
        }
        if is_uppercase(c) {
            out.push('_');
            out.push(to_lowercase(c));
        } else {
            out.push(c);
        }
        proof {
            assert(out@ =~= old(out)@ + snake(s@.subrange(start as int, i + 1)));
        }
        i += 1;
    }
}

/// Derives the name of the dispatch method for the type called `s`: the
/// prefix `visit`, the snake form of the final component of `s`, and `_mut`
/// for the mutating traversal.
pub fn visit_fn_name(c: &VisitConfig, s: &str) -> (res: String)
    ensures
        res@ == method_name(c.mutable, s@),
{
    let mut out = String::from_str("visit");
    write_fn_name(&mut out, s);
    if c.mutable {
        out.append("_mut");
    }
    out
}

} // verus!
