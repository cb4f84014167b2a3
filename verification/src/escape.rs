//! Escaping of the five XML-significant characters in glyph source text
//! before it is embedded in overlay markup.

use vstd::prelude::*;

verus! {

/// The characters of `&amp;`.
pub open spec fn ent_amp() -> Seq<char> {
    seq!['&', 'a', 'm', 'p', ';']
}

/// The characters of `&lt;`.
pub open spec fn ent_lt() -> Seq<char> {
    seq!['&', 'l', 't', ';']
}

/// The characters of `&gt;`.
pub open spec fn ent_gt() -> Seq<char> {
    seq!['&', 'g', 't', ';']
}

/// The characters of `&quot;`.
pub open spec fn ent_quot() -> Seq<char> {
    seq!['&', 'q', 'u', 'o', 't', ';']
}

/// The characters of `&apos;`.
pub open spec fn ent_apos() -> Seq<char> {
    seq!['&', 'a', 'p', 'o', 's', ';']
}

/// What one character becomes in escaped output: each of `& < > " '` turns
/// into its named entity, every other character stands unchanged.
pub open spec fn escape_char(c: char) -> Seq<char> {
    if c == '&' {
        ent_amp()
    } else if c == '<' {
        ent_lt()
    } else if c == '>' {
        ent_gt()
    } else if c == '"' {
        ent_quot()
    } else if c == '\'' {
        ent_apos()
    } else {
        seq![c]
    }
}

/// Escaped form of a whole character string.
pub open spec fn escape_chars(s: Seq<char>) -> Seq<char>
    decreases s.len(),
{
    if s.len() == 0 {
        Seq::empty()
    } else {
        escape_char(s[0]) + escape_chars(s.subrange(1, s.len() as int))
    }
}

/// Escaping distributes over concatenation.
pub proof fn lemma_escape_append(a: Seq<char>, b: Seq<char>)
    ensures
        escape_chars(a + b) == escape_chars(a) + escape_chars(b),
    decreases a.len(),
{
    if a.len() == 0 {
        assert(a + b == b);
        assert(escape_chars(a) + escape_chars(b) == escape_chars(b));
    } else {
        let t = a.subrange(1, a.len() as int);
        lemma_escape_append(t, b);
        assert((a + b).subrange(1, (a + b).len() as int) == t + b);
        assert(escape_char(a[0]) + (escape_chars(t) + escape_chars(b))
            == (escape_char(a[0]) + escape_chars(t)) + escape_chars(b));
    }
}

/// Reading of escaped text: a leading named entity decodes to its character,
/// any other character stands for itself.
pub open spec fn unescape_chars(s: Seq<char>) -> Seq<char>
    decreases s.len(),
{
    if s.len() == 0 {
        Seq::empty()
    } else if s.len() >= 5 && s.subrange(0, 5) == ent_amp() {
        seq!['&'] + unescape_chars(s.skip(5))
    } else if s.len() >= 4 && s.subrange(0, 4) == ent_lt() {
        seq!['<'] + unescape_chars(s.skip(4))
    } else if s.len() >= 4 && s.subrange(0, 4) == ent_gt() {
        seq!['>'] + unescape_chars(s.skip(4))
    } else if s.len() >= 6 && s.subrange(0, 6) == ent_quot() {
        seq!['"'] + unescape_chars(s.skip(6))
    } else if s.len() >= 6 && s.subrange(0, 6) == ent_apos() {
        seq!['\''] + unescape_chars(s.skip(6))
    } else {
        seq![s[0]] + unescape_chars(s.skip(1))
    }
}

/// Escaping loses nothing: reading the escaped form back gives the source
/// exactly, so each of the five significant characters round-trips to its
/// named entity and every other character is untouched.
pub proof fn lemma_unescape_escape(s: Seq<char>)
    ensures
        unescape_chars(escape_chars(s)) == s,
    decreases s.len(),
{
    if s.len() == 0 {
    } else {
        let c = s[0];
        let rest = s.subrange(1, s.len() as int);
        lemma_unescape_escape(rest);
        let e = escape_chars(rest);
        let w = escape_chars(s);
        assert(w == escape_char(c) + e);
        if c == '&' {
            assert(w.subrange(0, 5) =~= ent_amp());
            assert(w.skip(5) =~= e);
            assert(unescape_chars(w) == seq!['&'] + unescape_chars(e));
            assert(seq![c] + rest =~= s);
        } else if c == '<' {
            assert(w[1] == 'l');
            assert(w.len() >= 5 ==> w.subrange(0, 5)[1] == w[1]);
            assert(ent_amp()[1] == 'a');
            assert(w.subrange(0, 4) =~= ent_lt());
            assert(w.skip(4) =~= e);
            assert(unescape_chars(w) == seq!['<'] + unescape_chars(e));
            assert(seq![c] + rest =~= s);
        } else if c == '>' {
            assert(w[1] == 'g');
            assert(w.len() >= 5 ==> w.subrange(0, 5)[1] == w[1]);
            assert(ent_amp()[1] == 'a');
            assert(ent_lt()[1] == 'l');
            assert(w.subrange(0, 4)[1] == w[1]);
            assert(w.subrange(0, 4) =~= ent_gt());
            assert(w.skip(4) =~= e);
            assert(unescape_chars(w) == seq!['>'] + unescape_chars(e));
            assert(seq![c] + rest =~= s);
        } else if c == '"' {
            assert(w[1] == 'q');
            assert(w.len() >= 5 ==> w.subrange(0, 5)[1] == w[1]);
            assert(w.len() >= 4 ==> w.subrange(0, 4)[1] == w[1]);
            assert(ent_amp()[1] == 'a');
            assert(ent_lt()[1] == 'l');
            assert(ent_gt()[1] == 'g');
            assert(w.subrange(0, 6) =~= ent_quot());
            assert(w.skip(6) =~= e);
            assert(unescape_chars(w) == seq!['"'] + unescape_chars(e));
            assert(seq![c] + rest =~= s);
        } else if c == '\'' {
            assert(w[1] == 'a');
            assert(w[2] == 'p');
            assert(w.len() >= 5 ==> w.subrange(0, 5)[2] == w[2]);
            assert(w.len() >= 4 ==> w.subrange(0, 4)[1] == w[1]);
            assert(ent_amp()[2] == 'm');
            assert(ent_lt()[1] == 'l');
            assert(ent_gt()[1] == 'g');
            assert(w.subrange(0, 6)[1] == w[1]);
            assert(ent_quot()[1] == 'q');
            assert(w.subrange(0, 6) =~= ent_apos());
            assert(w.skip(6) =~= e);
            assert(unescape_chars(w) == seq!['\''] + unescape_chars(e));
            assert(seq![c] + rest =~= s);
        } else {
            assert(w == seq![c] + e);
            assert(w[0] == c);
            assert(c != '&');
            assert(w.len() >= 5 ==> w.subrange(0, 5)[0] == w[0]);
            assert(w.len() >= 4 ==> w.subrange(0, 4)[0] == w[0]);
            assert(w.len() >= 6 ==> w.subrange(0, 6)[0] == w[0]);
            assert(ent_amp()[0] == '&');
            assert(ent_lt()[0] == '&');
            assert(ent_gt()[0] == '&');
            assert(ent_quot()[0] == '&');
            assert(ent_apos()[0] == '&');
            assert(unescape_chars(w) == seq![c] + unescape_chars(w.skip(1)));
            assert(w.skip(1) =~= e);
            assert(seq![c] + rest =~= s);
        }
    }
}

/// Escape the five XML-significant characters of `s`, appending to `out`.
pub fn push_escaped(out: &mut Vec<char>, s: &Vec<char>)
    ensures
        final(out)@ == old(out)@ + escape_chars(s@),
{
    let ghost base = out@;
    let mut i: usize = 0;
    while i < s.len()
        invariant
            i <= s.len(),
            out@ == base + escape_chars(s@.take(i as int)),
        decreases s.len() - i,
    {
        let c = s[i];
        if c == '&' {
            out.push('&');
            out.push('a');
            out.push('m');
            out.push('p');
            out.push(';');
        } else if c == '<' {
            out.push('&');
            out.push('l');
            out.push('t');
            out.push(';');
        } else if c == '>' {
            out.push('&');
            out.push('g');
            out.push('t');
            out.push(';');
        } else if c == '"' {
            out.push('&');
            out.push('q');
            out.push('u');
            out.push('o');
            out.push('t');
            out.push(';');
        } else if c == '\'' {
            out.push('&');
            out.push('a');
            out.push('p');
            out.push('o');
            out.push('s');
            out.push(';');
        } else {
            out.push(c);
        }
        proof {
            let pre = s@.take(i as int);
            lemma_escape_append(pre, seq![s@[i as int]]);
            assert(pre + seq![s@[i as int]] == s@.take(i as int + 1));
            let one = seq![s@[i as int]];
            assert(one.subrange(1, 1) =~= Seq::<char>::empty());
            assert(escape_chars(Seq::<char>::empty()) =~= Seq::<char>::empty());
            assert(escape_chars(one) == escape_char(one[0]) + escape_chars(one.subrange(1, 1)));
            assert(escape_chars(one) =~= escape_char(s@[i as int]));
            assert(base + escape_chars(pre) + escape_char(s@[i as int])
                =~= base + escape_chars(s@.take(i as int + 1)));
            assert(out@ =~= base + escape_chars(pre) + escape_char(s@[i as int]));
        }
        i += 1;
    }
    proof {
        assert(s@.take(s@.len() as int) == s@);
    }
}

/// Escaped copy of `s`.
pub fn escape_xml(s: &Vec<char>) -> (r: Vec<char>)
    ensures
        r@ == escape_chars(s@),
{
    let mut r: Vec<char> = Vec::new();
    push_escaped(&mut r, s);
    r
}

} // verus!
