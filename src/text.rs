use vstd::prelude::*;

verus! {

/// Lexicographic order on character sequences, comparing code points;
/// a proper prefix comes first.
pub open spec fn lex_le(a: Seq<char>, b: Seq<char>) -> bool
    decreases a.len(),
{
    if a.len() == 0 {
        true
    } else if b.len() == 0 {
        false
    } else if a[0] != b[0] {
        (a[0] as int) < (b[0] as int)
    } else {
        lex_le(a.drop_first(), b.drop_first())
    }
}

/// Strictly before in lexicographic order.
pub open spec fn lex_lt(a: Seq<char>, b: Seq<char>) -> bool {
    lex_le(a, b) && a != b
}

pub proof fn lemma_lex_refl(a: Seq<char>)
    ensures
        lex_le(a, a),
    decreases a.len(),
{
    if a.len() > 0 {
        lemma_lex_refl(a.drop_first());
    }
}

/// Strictly before is the negation of after-or-equal.
pub proof fn lemma_lex_lt_iff(a: Seq<char>, b: Seq<char>)
    ensures
        lex_lt(a, b) <==> !lex_le(b, a),
{
    lemma_lex_total(a, b);
    lemma_lex_refl(a);
    if lex_le(a, b) && lex_le(b, a) {
        lemma_lex_antisym(a, b);
    }
}

pub proof fn lemma_lex_total(a: Seq<char>, b: Seq<char>)
    ensures
        lex_le(a, b) || lex_le(b, a),
    decreases a.len(),
{
    if a.len() > 0 && b.len() > 0 {
        if a[0] == b[0] {
            lemma_lex_total(a.drop_first(), b.drop_first());
        } else {
            assert((a[0] as int) != (b[0] as int));
        }
    }
}

pub proof fn lemma_lex_antisym(a: Seq<char>, b: Seq<char>)
    requires
        lex_le(a, b),
        lex_le(b, a),
    ensures
        a == b,
    decreases a.len(),
{
    if a.len() == 0 {
        assert(a =~= b);
    } else {
        if a[0] == b[0] {
            lemma_lex_antisym(a.drop_first(), b.drop_first());
            assert(a =~= seq![a[0]] + a.drop_first());
            assert(b =~= seq![b[0]] + b.drop_first());
        }
    }
}

pub proof fn lemma_lex_trans(a: Seq<char>, b: Seq<char>, c: Seq<char>)
    requires
        lex_le(a, b),
        lex_le(b, c),
    ensures
        lex_le(a, c),
    decreases a.len(),
{
    if a.len() > 0 && b.len() > 0 && c.len() > 0 {
        if a[0] == b[0] && b[0] == c[0] {
            lemma_lex_trans(a.drop_first(), b.drop_first(), c.drop_first());
        }
    }
}

/// Relies on `<String as PartialOrd>::le`: strings compare by their UTF-8
/// bytes, which orders them as their code point sequences.
#[verifier::external_body]
pub(crate) fn text_le(a: &String, b: &String) -> (r: bool)
    ensures
        r == lex_le(a@, b@),
{
    a <= b
}

} // verus!
