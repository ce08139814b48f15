//! Verified JSON string escaping and its inverse.
//!
//! Escaping handles exactly five character classes: backslash, double quote,
//! newline, carriage return and tab. Other control characters pass through
//! untouched.
use vstd::prelude::*;
use crate::text::push_char;

verus! {

/// Escape sequence for one character; characters outside the five handled
/// classes stand for themselves.
pub open spec fn escape_char(c: char) -> Seq<char> {
    if c == '\\' {
        seq!['\\', '\\']
    } else if c == '"' {
        seq!['\\', '"']
    } else if c == '\n' {
        seq!['\\', 'n']
    } else if c == '\r' {
        seq!['\\', 'r']
    } else if c == '\t' {
        seq!['\\', 't']
    } else {
        seq![c]
    }
}

/// The whole string escaped character by character.
pub open spec fn escape_json_chars(s: Seq<char>) -> Seq<char>
    decreases s.len(),
{
    if s.len() == 0 {
        Seq::empty()
    } else {
        escape_char(s[0]) + escape_json_chars(s.drop_first())
    }
}

/// Escaping distributes over concatenation.
pub proof fn lemma_escape_concat(a: Seq<char>, b: Seq<char>)
    ensures
        escape_json_chars(a + b) == escape_json_chars(a) + escape_json_chars(b),
    decreases a.len(),
{
    if a.len() == 0 {
        assert(a + b =~= b);
        assert(escape_json_chars(a) + escape_json_chars(b) =~= escape_json_chars(b));
    } else {
        lemma_escape_concat(a.drop_first(), b);
        assert((a + b).drop_first() =~= a.drop_first() + b);
        assert((a + b)[0] == a[0]);
        assert(escape_char(a[0]) + (escape_json_chars(a.drop_first()) + escape_json_chars(b))
            =~= (escape_char(a[0]) + escape_json_chars(a.drop_first())) + escape_json_chars(b));
    }
}

proof fn lemma_escape_snoc(s: Seq<char>, i: int)
    requires
        0 <= i < s.len(),
    ensures
        escape_json_chars(s.subrange(0, i + 1)) == escape_json_chars(s.subrange(0, i))
            + escape_char(s[i]),
{
    assert(s.subrange(0, i + 1) =~= s.subrange(0, i) + seq![s[i]]);
    lemma_escape_concat(s.subrange(0, i), seq![s[i]]);
    assert(seq![s[i]].drop_first() =~= Seq::<char>::empty());
    assert(seq![s[i]][0] == s[i]);
    assert(escape_json_chars(seq![s[i]]) == escape_char(s[i]) + escape_json_chars(
        Seq::<char>::empty(),
    ));
    assert(escape_char(s[i]) + escape_json_chars(Seq::<char>::empty()) =~= escape_char(s[i]));
    assert(escape_json_chars(s.subrange(0, i + 1)) == escape_json_chars(s.subrange(0, i))
        + escape_json_chars(seq![s[i]]));
}

/// Escapes backslash, double quote, newline, carriage return and tab.
pub fn escape_json(s: &str) -> (r: String)
    ensures
        r@ == escape_json_chars(s@),
{
    let n = s.unicode_len();
    let mut out = String::new();
    let mut i: usize = 0;
    proof {
        assert(s@.subrange(0, 0) =~= Seq::<char>::empty());
    }
    while i < n
        invariant
            0 <= i <= n,
            n == s@.len(),
            out@ == escape_json_chars(s@.subrange(0, i as int)),
        decreases n - i,
    {
        let c = s.get_char(i);
        proof {
            lemma_escape_snoc(s@, i as int);
        }
        if c == '\\' {
            push_char(&mut out, '\\');
            push_char(&mut out, '\\');
        } else if c == '"' {
            push_char(&mut out, '\\');
            push_char(&mut out, '"');
        } else if c == '\n' {
            push_char(&mut out, '\\');
            push_char(&mut out, 'n');
        } else if c == '\r' {
            push_char(&mut out, '\\');
            push_char(&mut out, 'r');
        } else if c == '\t' {
            push_char(&mut out, '\\');
            push_char(&mut out, 't');
        } else {
            push_char(&mut out, c);
        }
        proof {
            assert(out@ =~= escape_json_chars(s@.subrange(0, i + 1)));
        }
        i += 1;
    }
    proof {
        assert(s@.subrange(0, n as int) =~= s@);
    }
    out
}

/// Character stood for by the code `c` after a backslash, if any.
pub open spec fn unescape_code(c: char) -> Option<char> {
    if c == '\\' {
        Some('\\')
    } else if c == '"' {
        Some('"')
    } else if c == 'n' {
        Some('\n')
    } else if c == 'r' {
        Some('\r')
    } else if c == 't' {
        Some('\t')
    } else {
        None
    }
}

/// Inverse of escaping: reads escape sequences back; fails on a trailing
/// backslash or an unknown code.
pub open spec fn unescape_json_chars(s: Seq<char>) -> Option<Seq<char>>
    decreases s.len(),
{
    if s.len() == 0 {
        Some(Seq::empty())
    } else if s[0] == '\\' {
        if s.len() == 1 {
            None
        } else {
            match (unescape_code(s[1]), unescape_json_chars(s.skip(2))) {
                (Some(uc), Some(rest)) => Some(seq![uc] + rest),
                _ => None,
            }
        }
    } else {
        match unescape_json_chars(s.drop_first()) {
            Some(rest) => Some(seq![s[0]] + rest),
            None => None,
        }
    }
}

/// Reads escape sequences back into the characters they stand for.
pub fn unescape_json(s: &str) -> (r: Option<String>)
    ensures
        r matches Some(v) ==> unescape_json_chars(s@) == Some(v@),
        r is None ==> unescape_json_chars(s@) is None,
{
    let n = s.unicode_len();
    let mut out = String::new();
    let mut i: usize = 0;
    proof {
        assert(s@.skip(0) =~= s@);
        assert(Seq::<char>::empty() + s@ =~= s@);
    }
    while i < n
        invariant
            0 <= i <= n,
            n == s@.len(),
            unescape_json_chars(s@) == (match unescape_json_chars(s@.skip(i as int)) {
                Some(rest) => Some(out@ + rest),
                None => None::<Seq<char>>,
            }),
        decreases n - i,
    {
        let ghost rem = s@.skip(i as int);
        let c = s.get_char(i);
        if c == '\\' {
            if i + 1 >= n {
                return None;
            }
            let code = s.get_char(i + 1);
            proof {
                assert(rem[1] == code);
                assert(rem.skip(2) =~= s@.skip(i + 2));
            }
            let uc: char;
            if code == '\\' {
                uc = '\\';
            } else if code == '"' {
                uc = '"';
            } else if code == 'n' {
                uc = '\n';
            } else if code == 'r' {
                uc = '\r';
            } else if code == 't' {
                uc = '\t';
            } else {
                return None;
            }
            push_char(&mut out, uc);
            proof {
                let ur = unescape_json_chars(s@.skip(i + 2));
                if ur is Some {
                    let rest = ur->Some_0;
                    assert(out@ + rest =~= out@.drop_last() + (seq![uc] + rest));
                }
            }
            i += 2;
        } else {
            proof {
                assert(rem.drop_first() =~= s@.skip(i + 1));
            }
            push_char(&mut out, c);
            proof {
                let ur = unescape_json_chars(s@.skip(i + 1));
                if ur is Some {
                    let rest = ur->Some_0;
                    assert(out@ + rest =~= out@.drop_last() + (seq![c] + rest));
                }
            }
            i += 1;
        }
    }
    proof {
        assert(s@.skip(n as int) =~= Seq::<char>::empty());
        assert(out@ + Seq::<char>::empty() =~= out@);
    }
    Some(out)
}

/// Law: unescaping inverts escaping, for every string — the five handled
/// character classes survive the round trip unchanged.
pub proof fn lemma_escape_unescape(s: Seq<char>)
    ensures
        unescape_json_chars(escape_json_chars(s)) == Some(s),
    decreases s.len(),
{
    if s.len() == 0 {
    } else {
        lemma_escape_unescape(s.drop_first());
        let e = escape_json_chars(s);
        let ec = escape_char(s[0]);
        let tail = escape_json_chars(s.drop_first());
        if s[0] == '\\' || s[0] == '"' || s[0] == '\n' || s[0] == '\r' || s[0] == '\t' {
            assert(e[0] == '\\');
            assert(e.len() >= 2);
            assert(e[1] == ec[1]);
            assert(e.skip(2) =~= tail);
            assert(unescape_code(e[1]) == Some(s[0]));
            assert(seq![s[0]] + s.drop_first() =~= s);
        } else {
            assert(e[0] == s[0]);
            assert(e[0] != '\\');
            assert(e.drop_first() =~= tail);
            assert(seq![s[0]] + s.drop_first() =~= s);
        }
    }
}

} // verus!
