//! Text-level specifications and executable helpers.
//!
//! Holds the lexicographic order on character sequences that the
//! canonicalizer sorts by, ASCII case folding, and the detection of
//! placeholder justifications.

use vstd::prelude::*;
use vstd::string::StrSliceExecFns;
use vstd::string::StringExecFns;

verus! {

/// Lexicographic order on character sequences, by code point.
pub open spec fn lex_le(a: Seq<char>, b: Seq<char>) -> bool
    decreases a.len(),
{
    if a.len() == 0 {
        true
    } else if b.len() == 0 {
        false
    } else if a[0] == b[0] {
        lex_le(a.drop_first(), b.drop_first())
    } else {
        (a[0] as u32) < (b[0] as u32)
    }
}

pub proof fn lemma_lex_le_refl(a: Seq<char>)
    ensures
        lex_le(a, a),
    decreases a.len(),
{
    if a.len() > 0 {
        lemma_lex_le_refl(a.drop_first());
    }
}

pub proof fn lemma_lex_le_total(a: Seq<char>, b: Seq<char>)
    ensures
        lex_le(a, b) || lex_le(b, a),
    decreases a.len(),
{
    if a.len() == 0 {
    } else if b.len() == 0 {
    } else if a[0] == b[0] {
        lemma_lex_le_total(a.drop_first(), b.drop_first());
    } else {
        vstd::utf8::char_u32_cast(a[0], a[0] as u32);
        vstd::utf8::char_u32_cast(b[0], b[0] as u32);
        assert((a[0] as u32) != (b[0] as u32));
    }
}

pub proof fn lemma_lex_le_antisym(a: Seq<char>, b: Seq<char>)
    requires
        lex_le(a, b),
        lex_le(b, a),
    ensures
        a == b,
    decreases a.len(),
{
    if a.len() == 0 {
        assert(b.len() == 0);
        assert(a =~= b);
    } else {
        assert(b.len() > 0);
        if a[0] == b[0] {
            lemma_lex_le_antisym(a.drop_first(), b.drop_first());
            assert(a.drop_first().len() == a.len() - 1);
            assert(b.drop_first().len() == b.len() - 1);
            assert forall|i: int| 0 <= i < a.len() implies a[i] == b[i] by {
                if i > 0 {
                    assert(a.drop_first()[i - 1] == a[i]);
                    assert(b.drop_first()[i - 1] == b[i]);
                }
            }
            assert(a =~= b);
        } else {
            assert(false);
        }
    }
}

pub proof fn lemma_lex_le_trans(a: Seq<char>, b: Seq<char>, c: Seq<char>)
    requires
        lex_le(a, b),
        lex_le(b, c),
    ensures
        lex_le(a, c),
    decreases a.len(),
{
    if a.len() == 0 {
    } else {
        assert(b.len() > 0);
        assert(c.len() > 0);
        if a[0] == b[0] && b[0] == c[0] {
            lemma_lex_le_trans(a.drop_first(), b.drop_first(), c.drop_first());
        } else {
            assert((a[0] as u32) <= (b[0] as u32));
            assert((b[0] as u32) <= (c[0] as u32));
            assert((a[0] as u32) < (c[0] as u32));
        }
    }
}

/// If two sequences agree on their first `i` characters, their order is
/// decided by what follows.
pub proof fn lemma_lex_le_skip(a: Seq<char>, b: Seq<char>, i: int)
    requires
        0 <= i <= a.len(),
        i <= b.len(),
        forall|j: int| 0 <= j < i ==> a[j] == b[j],
    ensures
        lex_le(a, b) == lex_le(a.skip(i), b.skip(i)),
    decreases i,
{
    if i == 0 {
        assert(a.skip(0) =~= a);
        assert(b.skip(0) =~= b);
    } else {
        assert(a[0] == b[0]);
        lemma_lex_le_skip(a.drop_first(), b.drop_first(), i - 1);
        assert(a.drop_first().skip(i - 1) =~= a.skip(i));
        assert(b.drop_first().skip(i - 1) =~= b.skip(i));
    }
}

/// Whether two string slices hold the same characters.
pub fn str_eq(a: &str, b: &str) -> (r: bool)
    ensures
        r == (a@ == b@),
{
    let x = String::from_str(a);
    let y = String::from_str(b);
    x == y
}

/// Decides the lexicographic order on two string slices.
pub fn lex_le_exec(a: &str, b: &str) -> (r: bool)
    ensures
        r == lex_le(a@, b@),
{
    let alen = a.unicode_len();
    let blen = b.unicode_len();
    let mut i: usize = 0;
    loop
        invariant
            i <= alen,
            i <= blen,
            alen == a@.len(),
            blen == b@.len(),
            forall|j: int| 0 <= j < i ==> a@[j] == b@[j],
        decreases alen - i,
    {
        if i == alen || i == blen {
            proof {
                lemma_lex_le_skip(a@, b@, i as int);
            }
            return alen <= blen;
        }
        let ca = a.get_char(i);
        let cb = b.get_char(i);
        if ca != cb {
            proof {
                lemma_lex_le_skip(a@, b@, i as int);
                assert(a@.skip(i as int)[0] == a@[i as int]);
                assert(b@.skip(i as int)[0] == b@[i as int]);
            }
            return (ca as u32) < (cb as u32);
        }
        i = i + 1;
    }
}

/// How one character appears inside a rendered string literal: a backslash
/// or a quote gets a backslash before it, everything else stands as it is.
pub open spec fn esc_char(c: char) -> Seq<char> {
    if c == '\\' || c == '"' {
        seq!['\\', c]
    } else {
        seq![c]
    }
}

/// String-literal escaping of a character sequence.  Without it, a crafted
/// condition text could render the same marker type as a different
/// condition set.
pub open spec fn spec_escaped(s: Seq<char>) -> Seq<char>
    decreases s.len(),
{
    if s.len() == 0 {
        Seq::empty()
    } else {
        esc_char(s[0]) + spec_escaped(s.drop_first())
    }
}

/// Escaping distributes over appending one character.
pub proof fn lemma_escaped_push(s: Seq<char>, c: char)
    ensures
        spec_escaped(s.push(c)) == spec_escaped(s) + esc_char(c),
    decreases s.len(),
{
    reveal_with_fuel(spec_escaped, 3);
    if s.len() == 0 {
        assert(s.push(c)[0] == c);
        assert(s.push(c).drop_first() =~= Seq::<char>::empty());
        assert(spec_escaped(s.push(c)) =~= spec_escaped(s) + esc_char(c));
    } else {
        assert(s.push(c)[0] == s[0]);
        assert(s.push(c).drop_first() =~= s.drop_first().push(c));
        lemma_escaped_push(s.drop_first(), c);
        assert(spec_escaped(s.push(c)) =~= spec_escaped(s) + esc_char(c));
    }
}

/// A common prefix cancels on the left of a sequence equation.
pub proof fn lemma_concat_cancel_left(a: Seq<char>, x: Seq<char>, y: Seq<char>)
    requires
        a + x == a + y,
    ensures
        x == y,
{
    assert((a + x).len() == a.len() + x.len());
    assert((a + y).len() == a.len() + y.len());
    assert(x.len() == y.len());
    assert forall|j: int| 0 <= j < x.len() implies x[j] == y[j] by {
        assert((a + x)[a.len() + j] == x[j]);
        assert((a + y)[a.len() + j] == y[j]);
    }
    assert(x =~= y);
}

/// Two sequences with equal heads and equal tails are equal.
proof fn lemma_eq_from_first_and_rest(s1: Seq<char>, s2: Seq<char>)
    requires
        s1.len() > 0,
        s2.len() > 0,
        s1[0] == s2[0],
        s1.drop_first() == s2.drop_first(),
    ensures
        s1 == s2,
{
    assert(s1.drop_first().len() == s1.len() - 1);
    assert(s2.drop_first().len() == s2.len() - 1);
    assert forall|j: int| 0 <= j < s1.len() implies s1[j] == s2[j] by {
        if j > 0 {
            assert(s1.drop_first()[j - 1] == s1[j]);
            assert(s2.drop_first()[j - 1] == s2[j]);
        }
    }
    assert(s1 =~= s2);
}

/// Escaped text followed by a bare quote reads back in only one way: the
/// quote cannot be mistaken for part of the escaped text, so the split
/// between payload and what follows is unambiguous.
pub proof fn lemma_escaped_unambiguous(s1: Seq<char>, s2: Seq<char>, t1: Seq<char>, t2: Seq<char>)
    requires
        spec_escaped(s1) + t1 == spec_escaped(s2) + t2,
        t1.len() > 0,
        t2.len() > 0,
        t1[0] == '"',
        t2[0] == '"',
    ensures
        s1 == s2,
        t1 == t2,
    decreases s1.len(),
{
    reveal_with_fuel(spec_escaped, 2);
    let e1 = spec_escaped(s1);
    let e2 = spec_escaped(s2);
    let cat = e1 + t1;
    if s1.len() == 0 {
        assert(cat[0] == t1[0]);
        if s2.len() > 0 {
            assert(e2 == esc_char(s2[0]) + spec_escaped(s2.drop_first()));
            assert(cat[0] == e2[0]);
            assert(e2[0] == esc_char(s2[0])[0]);
            if s2[0] == '\\' || s2[0] == '"' {
                assert(esc_char(s2[0])[0] == '\\');
                assert(false);
            } else {
                assert(esc_char(s2[0])[0] == s2[0]);
                assert(false);
            }
        }
        assert(s1 =~= s2);
        assert(t1 =~= t2);
    } else if s2.len() == 0 {
        assert(cat[0] == t2[0]);
        assert(e1 == esc_char(s1[0]) + spec_escaped(s1.drop_first()));
        assert(cat[0] == e1[0]);
        assert(e1[0] == esc_char(s1[0])[0]);
        if s1[0] == '\\' || s1[0] == '"' {
            assert(esc_char(s1[0])[0] == '\\');
            assert(false);
        } else {
            assert(esc_char(s1[0])[0] == s1[0]);
            assert(false);
        }
    } else {
        let c1 = s1[0];
        let c2 = s2[0];
        let x1 = spec_escaped(s1.drop_first()) + t1;
        let x2 = spec_escaped(s2.drop_first()) + t2;
        assert(cat =~= esc_char(c1) + x1);
        assert(cat =~= esc_char(c2) + x2);
        let esc1 = c1 == '\\' || c1 == '"';
        let esc2 = c2 == '\\' || c2 == '"';
        if esc1 != esc2 {
            // One side starts with the escape marker, the other with a
            // character that is neither a backslash nor a quote.
            if esc1 {
                assert(cat[0] == '\\');
                assert(cat[0] == c2);
                assert(false);
            } else {
                assert(cat[0] == '\\');
                assert(cat[0] == c1);
                assert(false);
            }
        } else if esc1 {
            assert(cat[1] == c1);
            assert(cat[1] == c2);
            assert(x1 =~= x2) by {
                assert(x1.len() == x2.len());
                assert forall|j: int| 0 <= j < x1.len() implies x1[j] == x2[j] by {
                    assert((esc_char(c1) + x1)[2 + j] == x1[j]);
                    assert((esc_char(c2) + x2)[2 + j] == x2[j]);
                }
            }
            lemma_escaped_unambiguous(s1.drop_first(), s2.drop_first(), t1, t2);
            lemma_eq_from_first_and_rest(s1, s2);
        } else {
            assert(cat[0] == c1);
            assert(cat[0] == c2);
            assert(x1 =~= x2) by {
                assert(x1.len() == x2.len());
                assert forall|j: int| 0 <= j < x1.len() implies x1[j] == x2[j] by {
                    assert((esc_char(c1) + x1)[1 + j] == x1[j]);
                    assert((esc_char(c2) + x2)[1 + j] == x2[j]);
                }
            }
            lemma_escaped_unambiguous(s1.drop_first(), s2.drop_first(), t1, t2);
            lemma_eq_from_first_and_rest(s1, s2);
        }
    }
}

/// Escapes a string for splicing into a rendered string literal.
pub fn escape_text(s: &str) -> (r: String)
    ensures
        r@ == spec_escaped(s@),
{
    let len = s.unicode_len();
    let mut out = String::new();
    let mut i: usize = 0;
    proof {
        assert(s@.take(0) =~= Seq::<char>::empty());
    }
    while i < len
        invariant
            i <= len,
            len == s@.len(),
            out@ == spec_escaped(s@.take(i as int)),
        decreases len - i,
    {
        let c = s.get_char(i);
        if c == '\\' || c == '"' {
            out.append("\\");
            proof {
                reveal_strlit("\\");
            }
        }
        let piece = s.substring_char(i, i + 1);
        out.append(piece);
        proof {
            assert(piece@ =~= seq![s@[i as int]]);
            lemma_escaped_push(s@.take(i as int), s@[i as int]);
            assert(s@.take(i as int).push(s@[i as int]) =~= s@.take(i as int + 1));
            assert(out@ =~= spec_escaped(s@.take(i as int + 1)));
        }
        i = i + 1;
    }
    proof {
        assert(s@.take(len as int) =~= s@);
    }
    out
}

/// ASCII case folding of one character.
pub open spec fn spec_lower_char(c: char) -> char {
    if 65 <= c as u32 && c as u32 <= 90 {
        (((c as u8) + 32) as char)
    } else {
        c
    }
}

/// ASCII case folding of a character sequence.
pub open spec fn spec_to_lower(s: Seq<char>) -> Seq<char> {
    s.map_values(|c: char| spec_lower_char(c))
}

/// ASCII case folding of one character.
pub fn lower_char(c: char) -> (r: char)
    ensures
        r == spec_lower_char(c),
{
    if 65 <= c as u32 && c as u32 <= 90 {
        ((c as u8) + 32) as char
    } else {
        c
    }
}

/// Whether two string slices are equal up to ASCII case.
pub fn eq_ignore_ascii_case(a: &str, b: &str) -> (r: bool)
    ensures
        r == (spec_to_lower(a@) == spec_to_lower(b@)),
{
    let alen = a.unicode_len();
    let blen = b.unicode_len();
    if alen != blen {
        proof {
            assert(spec_to_lower(a@).len() != spec_to_lower(b@).len());
        }
        return false;
    }
    let mut i: usize = 0;
    while i < alen
        invariant
            i <= alen,
            alen == a@.len(),
            alen == b@.len(),
            forall|j: int|
                0 <= j < i ==> spec_lower_char(a@[j]) == spec_lower_char(b@[j]),
        decreases alen - i,
    {
        let ca = lower_char(a.get_char(i));
        let cb = lower_char(b.get_char(i));
        if ca != cb {
            proof {
                assert(spec_to_lower(a@)[i as int] != spec_to_lower(b@)[i as int]);
            }
            return false;
        }
        i = i + 1;
    }
    proof {
        assert(spec_to_lower(a@) =~= spec_to_lower(b@));
    }
    true
}

/// Whether a justification is one of the recognized placeholder strings:
/// the canonical hint, `todo`, or `?`, compared without regard to ASCII case.
pub open spec fn is_placeholder(s: Seq<char>) -> bool {
    ||| spec_to_lower(s) == spec_to_lower("why does this hold?"@)
    ||| spec_to_lower(s) == spec_to_lower("todo"@)
    ||| spec_to_lower(s) == spec_to_lower("?"@)
}

/// Placeholder detection: the canonical hint string, `todo` in any ASCII
/// case, and `?` are placeholders; a string of any other length than those
/// three is not.
pub proof fn lemma_placeholder_values()
    ensures
        is_placeholder("why does this hold?"@),
        is_placeholder("todo"@),
        is_placeholder("TODO"@),
        is_placeholder("?"@),
        !is_placeholder("abc"@),
{
    reveal_strlit("why does this hold?");
    reveal_strlit("todo");
    reveal_strlit("TODO");
    reveal_strlit("?");
    reveal_strlit("abc");
    assert(spec_to_lower("TODO"@) =~= spec_to_lower("todo"@)) by {
        assert(spec_lower_char('T') == 't');
        assert(spec_lower_char('O') == 'o');
        assert(spec_lower_char('D') == 'd');
        assert(spec_to_lower("TODO"@)[0] == spec_to_lower("todo"@)[0]);
        assert(spec_to_lower("TODO"@)[1] == spec_to_lower("todo"@)[1]);
        assert(spec_to_lower("TODO"@)[2] == spec_to_lower("todo"@)[2]);
        assert(spec_to_lower("TODO"@)[3] == spec_to_lower("todo"@)[3]);
    }
    assert(spec_to_lower("abc"@).len() == 3);
    assert(spec_to_lower("why does this hold?"@).len() == 19);
    assert(spec_to_lower("todo"@).len() == 4);
    assert(spec_to_lower("?"@).len() == 1);
}

/// Decides whether a justification is a placeholder.
pub fn is_placeholder_exec(s: &str) -> (r: bool)
    ensures
        r == is_placeholder(s@),
{
    if eq_ignore_ascii_case(s, "why does this hold?") {
        return true;
    }
    if eq_ignore_ascii_case(s, "todo") {
        return true;
    }
    eq_ignore_ascii_case(s, "?")
}

} // verus!
