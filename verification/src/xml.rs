//! XML text escaping for the feed serializer. The upstream field values are
//! inserted into a fixed document skeleton; escaping them keeps the
//! document well-formed whatever the values hold.

use vstd::prelude::*;

use crate::text::push_char;

verus! {

/// Replacement for one character of XML text content or attribute values.
pub open spec fn escape_char(c: char) -> Seq<char> {
    if c == '<' {
        seq!['&', 'l', 't', ';']
    } else if c == '>' {
        seq!['&', 'g', 't', ';']
    } else if c == '&' {
        seq!['&', 'a', 'm', 'p', ';']
    } else if c == '"' {
        seq!['&', 'q', 'u', 'o', 't', ';']
    } else {
        seq![c]
    }
}

/// The XML escaping of a text, character by character.
pub open spec fn escape_text(s: Seq<char>) -> Seq<char>
    decreases s.len(),
{
    if s.len() == 0 {
        Seq::empty()
    } else {
        escape_char(s[0]) + escape_text(s.skip(1))
    }
}

/// Escapes `<`, `>`, `&` and `"` as XML entities, leaving every other
/// character as it is.
pub fn escape_xml(s: &str) -> (r: String)
    ensures
        r@ == escape_text(s@),
{
    let n = s.unicode_len();
    let mut out = String::new();
    let mut i: usize = 0;
    proof {
        assert(s@.skip(0) =~= s@);
        assert(out@ + escape_text(s@) =~= escape_text(s@));
    }
    while i < n
        invariant
            0 <= i <= n,
            n == s@.len(),
            out@ + escape_text(s@.skip(i as int)) == escape_text(s@),
        decreases n - i,
    {
        let ghost out0 = out@;
        let c = s.get_char(i);
        if c == '<' {
            out.append("&lt;");
            proof {
                reveal_strlit("&lt;");
                assert(out@ =~= out0 + escape_char(c));
            }
        } else if c == '>' {
            out.append("&gt;");
            proof {
                reveal_strlit("&gt;");
                assert(out@ =~= out0 + escape_char(c));
            }
        } else if c == '&' {
            out.append("&amp;");
            proof {
                reveal_strlit("&amp;");
                assert(out@ =~= out0 + escape_char(c));
            }
        } else if c == '"' {
            out.append("&quot;");
            proof {
                reveal_strlit("&quot;");
                assert(out@ =~= out0 + escape_char(c));
            }
        } else {
            push_char(&mut out, c);
            proof {
                assert(out@ =~= out0 + escape_char(c));
            }
        }
        proof {
            assert(s@.skip(i as int).skip(1) =~= s@.skip(i + 1));
            assert(escape_text(s@.skip(i as int)) == escape_char(s@[i as int]) + escape_text(
                s@.skip(i + 1),
            ));
            assert(out@ + escape_text(s@.skip(i + 1)) =~= out0 + escape_text(s@.skip(i as int)));
        }
        i = i + 1;
    }
    proof {
        assert(s@.skip(n as int) =~= Seq::<char>::empty());
        assert(out@ + Seq::<char>::empty() =~= out@);
    }
    out
}

/// One of the four entities written by the escaping starts at position `i`.
pub open spec fn entity_at(s: Seq<char>, i: int) -> bool {
    ||| (i + 4 <= s.len() && s.subrange(i, i + 4) == seq!['&', 'l', 't', ';'])
    ||| (i + 4 <= s.len() && s.subrange(i, i + 4) == seq!['&', 'g', 't', ';'])
    ||| (i + 5 <= s.len() && s.subrange(i, i + 5) == seq!['&', 'a', 'm', 'p', ';'])
    ||| (i + 6 <= s.len() && s.subrange(i, i + 6) == seq!['&', 'q', 'u', 'o', 't', ';'])
}

/// Text that can stand inside an XML document without breaking its markup:
/// no raw `<` or `"`, and every `&` begins an entity.
pub open spec fn is_escaped_text(s: Seq<char>) -> bool {
    forall|i: int|
        0 <= i < s.len() ==> s[i] != '<' && s[i] != '"' && (s[i] == '&' ==> entity_at(s, i))
}

/// Escaped text never breaks the surrounding markup, whatever characters
/// the input holds: the output has no `<` and no `"`, and each `&` in it
/// begins one of the four entities.
pub proof fn lemma_escape_well_formed(s: Seq<char>)
    ensures
        is_escaped_text(escape_text(s)),
    decreases s.len(),
{
    if s.len() > 0 {
        lemma_escape_well_formed(s.skip(1));
        let e = escape_text(s);
        let h = escape_char(s[0]);
        let rest = escape_text(s.skip(1));
        assert(e == h + rest);
        assert forall|i: int| 0 <= i < e.len() implies e[i] != '<' && e[i] != '"' && (e[i] == '&'
            ==> entity_at(e, i)) by {
            if i < h.len() {
                if s[0] == '<' || s[0] == '>' {
                    if i == 0 {
                        assert(e.subrange(0, 4) =~= h);
                    }
                } else if s[0] == '&' {
                    if i == 0 {
                        assert(e.subrange(0, 5) =~= h);
                    }
                } else if s[0] == '"' {
                    if i == 0 {
                        assert(e.subrange(0, 6) =~= h);
                    }
                }
            } else {
                let j = i - h.len();
                assert(e[i] == rest[j]);
                if rest[j] == '&' {
                    assert(entity_at(rest, j));
                    if j + 4 <= rest.len() && rest.subrange(j, j + 4) == seq!['&', 'l', 't', ';'] {
                        assert(e.subrange(i, i + 4) =~= rest.subrange(j, j + 4));
                    } else if j + 4 <= rest.len() && rest.subrange(j, j + 4) == seq![
                        '&',
                        'g',
                        't',
                        ';',
                    ] {
                        assert(e.subrange(i, i + 4) =~= rest.subrange(j, j + 4));
                    } else if j + 5 <= rest.len() && rest.subrange(j, j + 5) == seq![
                        '&',
                        'a',
                        'm',
                        'p',
                        ';',
                    ] {
                        assert(e.subrange(i, i + 5) =~= rest.subrange(j, j + 5));
                    } else {
                        assert(e.subrange(i, i + 6) =~= rest.subrange(j, j + 6));
                    }
                }
            }
        }
    }
}

} // verus!
