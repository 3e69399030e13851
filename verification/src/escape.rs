//! Escaping of text that is placed inside HTML elements and attribute values.

use vstd::prelude::*;

use crate::text::push_char;

verus! {

/// Whether `c` is one of the characters that `html_escape` replaces.
pub open spec fn is_markup_char(c: char) -> bool {
    c == '&' || c == '<' || c == '>' || c == '"'
}

/// The text that stands for `c` in escaped output.
pub open spec fn escape_char(c: char) -> Seq<char> {
    if c == '&' {
        seq!['&', 'a', 'm', 'p', ';']
    } else if c == '<' {
        seq!['&', 'l', 't', ';']
    } else if c == '>' {
        seq!['&', 'g', 't', ';']
    } else if c == '"' {
        seq!['&', 'q', 'u', 'o', 't', ';']
    } else {
        seq![c]
    }
}

/// `s` with each character replaced by its escaped form.
pub open spec fn escape_seq(s: Seq<char>) -> Seq<char>
    decreases s.len(),
{
    if s.len() == 0 {
        Seq::empty()
    } else {
        escape_char(s[0]) + escape_seq(s.drop_first())
    }
}

/// Escaping a text extended by one character extends the escaped text by the
/// escaped form of that character.
pub proof fn lemma_escape_push(s: Seq<char>, c: char)
    ensures
        escape_seq(s.push(c)) == escape_seq(s) + escape_char(c),
    decreases s.len(),
{
    if s.len() == 0 {
        assert(s.push(c).drop_first() =~= Seq::<char>::empty());
        assert(s.push(c)[0] == c);
        assert(escape_seq(Seq::<char>::empty()) =~= Seq::<char>::empty());
        assert(escape_seq(s.push(c)) =~= escape_char(c));
    } else {
        assert(s.push(c).drop_first() =~= s.drop_first().push(c));
        lemma_escape_push(s.drop_first(), c);
        assert(escape_seq(s.push(c)) =~= escape_seq(s) + escape_char(c));
    }
}

/// `s` with `&`, `<`, `>` and `"` replaced by the entities `&amp;`, `&lt;`,
/// `&gt;` and `&quot;`; every other character is kept as it is.
pub fn html_escape(s: &str) -> (escaped: String)
    ensures
        escaped@ == escape_seq(s@),
{
    let mut out = String::new();
    for c in it: s.chars()
        invariant
            it.seq() == s@,
            out@ == escape_seq(it.seq().take(it.index() as int)),
    {
        let ghost before = it.seq().take(it.index() as int);
        proof {
            assert(it.seq().take(it.index() + 1) =~= before.push(c));
            lemma_escape_push(before, c);
            reveal_strlit("&amp;");
            reveal_strlit("&lt;");
            reveal_strlit("&gt;");
            reveal_strlit("&quot;");
            assert("&amp;"@ =~= escape_char('&'));
            assert("&lt;"@ =~= escape_char('<'));
            assert("&gt;"@ =~= escape_char('>'));
            assert("&quot;"@ =~= escape_char('"'));
        }
        if c == '&' {
            out.append("&amp;");
        } else if c == '<' {
            out.append("&lt;");
        } else if c == '>' {
            out.append("&gt;");
        } else if c == '"' {
            out.append("&quot;");
        } else {
            push_char(&mut out, c);
        }
    }
    proof {
        assert(s@.take(s@.len() as int) =~= s@);
    }
    out
}


/// Escaped text holds no `<`, `>` or `"`, so it can neither open or close an
/// element nor end a quoted attribute value.
pub proof fn lemma_escape_no_markup(s: Seq<char>)
    ensures
        forall|i: int|
            0 <= i < escape_seq(s).len() ==> {
                let c = #[trigger] escape_seq(s)[i];
                c != '<' && c != '>' && c != '"'
            },
    decreases s.len(),
{
    if s.len() > 0 {
        lemma_escape_no_markup(s.drop_first());
        let e = escape_char(s[0]);
        let rest = escape_seq(s.drop_first());
        assert forall|i: int| 0 <= i < escape_seq(s).len() implies {
            let c = #[trigger] escape_seq(s)[i];
            c != '<' && c != '>' && c != '"'
        } by {
            if i >= e.len() {
                assert(escape_seq(s)[i] == rest[i - e.len()]);
            }
        }
    }
}

/// Text without `&`, `<`, `>` and `"` is left unchanged: no other character
/// is ever replaced.
pub proof fn lemma_escape_plain_text(s: Seq<char>)
    requires
        forall|i: int|
            0 <= i < s.len() ==> #[trigger] s[i] != '&' && s[i] != '<' && s[i] != '>' && s[i]
                != '"',
    ensures
        escape_seq(s) == s,
    decreases s.len(),
{
    if s.len() > 0 {
        assert(s[0] != '&' && s[0] != '<' && s[0] != '>' && s[0] != '"');
        assert forall|i: int| 0 <= i < s.drop_first().len() implies #[trigger] s.drop_first()[i]
            != '&' && s.drop_first()[i] != '<' && s.drop_first()[i] != '>' && s.drop_first()[i]
            != '"' by {
            assert(s.drop_first()[i] == s[i + 1]);
        }
        lemma_escape_plain_text(s.drop_first());
        assert(escape_seq(s) =~= s);
    }
}

/// Escaping works piece by piece: the escaped form of two texts one after the
/// other is their escaped forms one after the other.
pub proof fn lemma_escape_concat(a: Seq<char>, b: Seq<char>)
    ensures
        escape_seq(a + b) == escape_seq(a) + escape_seq(b),
    decreases b.len(),
{
    if b.len() == 0 {
        assert(a + b =~= a);
        assert(escape_seq(b) =~= Seq::<char>::empty());
        assert(escape_seq(a) + escape_seq(b) =~= escape_seq(a));
    } else {
        let b0 = b.drop_last();
        let c = b.last();
        lemma_escape_concat(a, b0);
        assert(a + b =~= (a + b0).push(c));
        assert(b =~= b0.push(c));
        lemma_escape_push(a + b0, c);
        lemma_escape_push(b0, c);
        assert(escape_seq(a + b) =~= escape_seq(a) + escape_seq(b));
    }
}

/// Each of the four markup characters becomes its named entity, wherever it
/// stands.
pub proof fn lemma_escape_entities(s: Seq<char>)
    ensures
        escape_seq(s.push('&')) == escape_seq(s) + seq!['&', 'a', 'm', 'p', ';'],
        escape_seq(s.push('<')) == escape_seq(s) + seq!['&', 'l', 't', ';'],
        escape_seq(s.push('>')) == escape_seq(s) + seq!['&', 'g', 't', ';'],
        escape_seq(s.push('"')) == escape_seq(s) + seq!['&', 'q', 'u', 'o', 't', ';'],
{
    lemma_escape_push(s, '&');
    lemma_escape_push(s, '<');
    lemma_escape_push(s, '>');
    lemma_escape_push(s, '"');
}

/// Escaping loses nothing: different texts have different escaped forms.
pub proof fn lemma_escape_injective(a: Seq<char>, b: Seq<char>)
    requires
        escape_seq(a) == escape_seq(b),
    ensures
        a == b,
    decreases a.len(),
{
    if a.len() == 0 {
        if b.len() > 0 {
            assert(escape_seq(b).len() >= escape_char(b[0]).len());
        }
        assert(a =~= b);
    } else {
        if b.len() == 0 {
            assert(escape_seq(a).len() >= escape_char(a[0]).len());
        } else {
            let ea = escape_char(a[0]);
            let eb = escape_char(b[0]);
            let ra = escape_seq(a.drop_first());
            let rb = escape_seq(b.drop_first());
            assert(escape_seq(a) == ea + ra);
            assert(escape_seq(b) == eb + rb);
            assert(escape_seq(a)[0] == ea[0]);
            assert(escape_seq(b)[0] == eb[0]);
            if is_markup_char(a[0]) {
                assert(escape_seq(a)[1] == ea[1]);
                assert(escape_seq(b)[1] == eb[1]);
            }
            assert(a[0] == b[0]);
            assert(ra =~= escape_seq(a).skip(ea.len() as int));
            assert(rb =~= escape_seq(b).skip(eb.len() as int));
            lemma_escape_injective(a.drop_first(), b.drop_first());
            assert(a =~= seq![a[0]] + a.drop_first());
            assert(b =~= seq![b[0]] + b.drop_first());
        }
    }
}

} // verus!
