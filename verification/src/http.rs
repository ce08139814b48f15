//! HTTP wire handling: request-line and header extraction from the raw
//! request text, and assembly of full responses with fixed headers.
use vstd::prelude::*;
use vstd::utf8::encode_utf8;
use crate::text::dec_chars_of;
use crate::text::find_char;
use crate::text::is_prefix_of;
use crate::text::str_has_prefix;
use crate::text::u64_to_string;
use crate::json::escape_json;
use crate::json::escape_json_chars;
use crate::query::split_on;
use crate::query::lemma_split_at_first;
use crate::query::lemma_split_no_sep;
use crate::query::lemma_split_len_ge_1;

verus! {

/// Status line choices of the response encoder.
#[derive(Clone, Copy, PartialEq, Eq, Structural)]
pub enum HttpStatus {
    Success,
    Unauthorized,
    Forbidden,
    NotFound,
    ServerError,
}

/// Status line text for each outcome.
pub open spec fn status_line(s: HttpStatus) -> Seq<char> {
    match s {
        HttpStatus::Success => "HTTP/1.1 200 OK"@,
        HttpStatus::Unauthorized => "HTTP/1.1 401 Unauthorized"@,
        HttpStatus::Forbidden => "HTTP/1.1 403 Forbidden"@,
        HttpStatus::NotFound => "HTTP/1.1 404 Not Found"@,
        HttpStatus::ServerError => "HTTP/1.1 500 Error"@,
    }
}

/// Full response text: status line, the fixed headers with the body's UTF-8
/// byte length, a blank line, then the body.
pub open spec fn http_response(status: HttpStatus, body: Seq<char>) -> Seq<char> {
    status_line(status) + "\r\nContent-Type: application/json\r\nContent-Length: "@ + dec_chars_of(
        (encode_utf8(body).len() as usize) as nat,
    ) + "\r\nAccess-Control-Allow-Origin: *\r\n\r\n"@ + body
}

/// Assembles the response around a JSON body. The Content-Length header
/// carries the body's byte length, not its character count.
pub fn create_json_response(json: &str, status: HttpStatus) -> (r: String)
    ensures
        r@ == http_response(status, json@),
{
    let mut r = String::from_str(
        match status {
            HttpStatus::Success => "HTTP/1.1 200 OK",
            HttpStatus::Unauthorized => "HTTP/1.1 401 Unauthorized",
            HttpStatus::Forbidden => "HTTP/1.1 403 Forbidden",
            HttpStatus::NotFound => "HTTP/1.1 404 Not Found",
            HttpStatus::ServerError => "HTTP/1.1 500 Error",
        },
    );
    r.append("\r\nContent-Type: application/json\r\nContent-Length: ");
    let blen = json.len();
    let lenstr = u64_to_string(blen as u64);
    r.append(lenstr.as_str());
    r.append("\r\nAccess-Control-Allow-Origin: *\r\n\r\n");
    r.append(json);
    proof {
        assert(r@ =~= http_response(status, json@));
    }
    r
}

/// The uniform error body shape.
pub open spec fn error_body(msg: Seq<char>) -> Seq<char> {
    "{\"status\": \"error\", \"message\": \""@ + escape_json_chars(msg) + "\"}"@
}

/// Builds the uniform error body around an escaped message.
pub fn make_error_body(msg: &str) -> (r: String)
    ensures
        r@ == error_body(msg@),
{
    let mut r = String::from_str("{\"status\": \"error\", \"message\": \"");
    let esc = escape_json(msg);
    r.append(esc.as_str());
    r.append("\"}");
    proof {
        assert(r@ =~= error_body(msg@));
    }
    r
}

/// The uniform success body shape.
pub open spec fn success_body(msg: Seq<char>) -> Seq<char> {
    "{\"status\": \"success\", \"message\": \""@ + escape_json_chars(msg) + "\"}"@
}

/// Builds the uniform success body around an escaped message.
pub fn make_success_body(msg: &str) -> (r: String)
    ensures
        r@ == success_body(msg@),
{
    let mut r = String::from_str("{\"status\": \"success\", \"message\": \"");
    let esc = escape_json(msg);
    r.append(esc.as_str());
    r.append("\"}");
    proof {
        assert(r@ =~= success_body(msg@));
    }
    r
}

/// Whitespace trimmed around header values.
pub open spec fn is_header_ws(c: char) -> bool {
    c == ' ' || c == '\t'
}

/// `s` without leading whitespace.
pub open spec fn trim_left(s: Seq<char>) -> Seq<char>
    decreases s.len(),
{
    if s.len() > 0 && is_header_ws(s[0]) {
        trim_left(s.drop_first())
    } else {
        s
    }
}

/// `s` without trailing whitespace.
pub open spec fn trim_right(s: Seq<char>) -> Seq<char>
    decreases s.len(),
{
    if s.len() > 0 && is_header_ws(s.last()) {
        trim_right(s.drop_last())
    } else {
        s
    }
}

/// `s` without leading or trailing whitespace.
pub open spec fn trim_ws(s: Seq<char>) -> Seq<char> {
    trim_right(trim_left(s))
}

/// Trims `s[from..to]`.
fn trim_str<'a>(s: &'a str, from: usize, to: usize) -> (r: &'a str)
    requires
        from <= to <= s@.len(),
    ensures
        r@ == trim_ws(s@.subrange(from as int, to as int)),
{
    let ghost orig = s@.subrange(from as int, to as int);
    let mut a: usize = from;
    loop
        invariant_except_break
            from <= a <= to,
            to <= s@.len(),
            trim_left(orig) == trim_left(s@.subrange(a as int, to as int)),
        ensures
            from <= a <= to,
            to <= s@.len(),
            trim_left(orig) == s@.subrange(a as int, to as int),
        decreases to - a,
    {
        if a >= to {
            break ;
        }
        let c = s.get_char(a);
        if c != ' ' && c != '\t' {
            break ;
        }
        proof {
            assert(s@.subrange(a as int, to as int).drop_first() =~= s@.subrange(
                a + 1,
                to as int,
            ));
        }
        a += 1;
    }
    let mut b: usize = to;
    loop
        invariant_except_break
            a <= b <= to,
            to <= s@.len(),
            trim_left(orig) == s@.subrange(a as int, to as int),
            trim_right(s@.subrange(a as int, to as int)) == trim_right(
                s@.subrange(a as int, b as int),
            ),
        ensures
            a <= b <= to,
            to <= s@.len(),
            trim_ws(orig) == s@.subrange(a as int, b as int),
        decreases b,
    {
        if b <= a {
            break ;
        }
        let c = s.get_char(b - 1);
        if c != ' ' && c != '\t' {
            proof {
                assert(!is_header_ws(s@.subrange(a as int, b as int).last()));
            }
            break ;
        }
        proof {
            assert(s@.subrange(a as int, b as int).drop_last() =~= s@.subrange(
                a as int,
                b - 1,
            ));
        }
        b -= 1;
    }
    s.substring_char(a, b)
}

/// Lower-case folding for ASCII letters; all else is unchanged.
pub open spec fn lower_char(c: char) -> char {
    if c == 'A' {
        'a'
    } else if c == 'B' {
        'b'
    } else if c == 'C' {
        'c'
    } else if c == 'D' {
        'd'
    } else if c == 'E' {
        'e'
    } else if c == 'F' {
        'f'
    } else if c == 'G' {
        'g'
    } else if c == 'H' {
        'h'
    } else if c == 'I' {
        'i'
    } else if c == 'J' {
        'j'
    } else if c == 'K' {
        'k'
    } else if c == 'L' {
        'l'
    } else if c == 'M' {
        'm'
    } else if c == 'N' {
        'n'
    } else if c == 'O' {
        'o'
    } else if c == 'P' {
        'p'
    } else if c == 'Q' {
        'q'
    } else if c == 'R' {
        'r'
    } else if c == 'S' {
        's'
    } else if c == 'T' {
        't'
    } else if c == 'U' {
        'u'
    } else if c == 'V' {
        'v'
    } else if c == 'W' {
        'w'
    } else if c == 'X' {
        'x'
    } else if c == 'Y' {
        'y'
    } else if c == 'Z' {
        'z'
    } else {
        c
    }
}

fn lower_char_exec(c: char) -> (r: char)
    ensures
        r == lower_char(c),
{
    match c {
        'A' => 'a',
        'B' => 'b',
        'C' => 'c',
        'D' => 'd',
        'E' => 'e',
        'F' => 'f',
        'G' => 'g',
        'H' => 'h',
        'I' => 'i',
        'J' => 'j',
        'K' => 'k',
        'L' => 'l',
        'M' => 'm',
        'N' => 'n',
        'O' => 'o',
        'P' => 'p',
        'Q' => 'q',
        'R' => 'r',
        'S' => 's',
        'T' => 't',
        'U' => 'u',
        'V' => 'v',
        'W' => 'w',
        'X' => 'x',
        'Y' => 'y',
        'Z' => 'z',
        _ => c,
    }
}

/// A header line that names the Authorization header, compared without
/// regard to letter case.
pub open spec fn is_auth_line(l: Seq<char>) -> bool {
    l.len() >= "authorization:"@.len() && (forall|j: int|
        0 <= j < "authorization:"@.len() ==> lower_char(l[j]) == "authorization:"@[j])
}

/// Tests whether `s[from..to]` starts with the Authorization header name.
fn has_auth_prefix(s: &str, from: usize, to: usize) -> (r: bool)
    requires
        from <= to <= s@.len(),
    ensures
        r == is_auth_line(s@.subrange(from as int, to as int)),
{
    let p = "authorization:";
    proof {
        reveal_strlit("authorization:");
    }
    let plen = p.unicode_len();
    if to - from < plen {
        return false;
    }
    let ghost l = s@.subrange(from as int, to as int);
    let mut j: usize = 0;
    while j < plen
        invariant
            0 <= j <= plen,
            p@ == "authorization:"@,
            plen == "authorization:"@.len(),
            from + plen <= to <= s@.len(),
            l == s@.subrange(from as int, to as int),
            forall|k: int| 0 <= k < j ==> lower_char(l[k]) == "authorization:"@[k],
        decreases plen - j,
    {
        let c = lower_char_exec(s.get_char(from + j));
        let pc = p.get_char(j);
        if c != pc {
            return false;
        }
        j += 1;
    }
    true
}

/// The bearer token carried by an Authorization header line: the text after
/// the colon, trimmed, with a leading `Bearer ` marker stripped if present.
pub open spec fn bearer_of_line(l: Seq<char>) -> Seq<char> {
    let v = trim_ws(l.skip("authorization:"@.len() as int));
    if is_prefix_of("Bearer "@, v) {
        v.skip("Bearer "@.len() as int)
    } else {
        v
    }
}

/// A line without its trailing carriage return, if it has one.
pub open spec fn strip_cr(l: Seq<char>) -> Seq<char> {
    if l.len() > 0 && l.last() == '\r' {
        l.drop_last()
    } else {
        l
    }
}

/// The request text split into lines.
pub open spec fn spec_lines(s: Seq<char>) -> Seq<Seq<char>> {
    split_on(s, '\n').map_values(|l: Seq<char>| strip_cr(l))
}

/// The path token of the request line: the second space-separated token of
/// the first line, defaulting to `/` when there is none.
pub open spec fn request_path(req: Seq<char>) -> Seq<char> {
    let line = spec_lines(req)[0];
    let parts = split_on(line, ' ');
    if parts.len() >= 2 {
        parts[1]
    } else {
        "/"@
    }
}

/// The bearer token of the first Authorization header among the lines after
/// the request line, if any.
pub open spec fn find_auth_from(ls: Seq<Seq<char>>, i: int) -> Option<Seq<char>>
    decreases ls.len() - i,
{
    if i >= ls.len() {
        None
    } else if is_auth_line(ls[i]) {
        Some(bearer_of_line(ls[i]))
    } else {
        find_auth_from(ls, i + 1)
    }
}

/// The bearer token presented by the request, if any.
pub open spec fn request_bearer(req: Seq<char>) -> Option<Seq<char>> {
    find_auth_from(spec_lines(req), 1)
}

/// Character-sequence view of an optional string.
pub open spec fn opt_str_view(o: Option<String>) -> Option<Seq<char>> {
    match o {
        Some(s) => Some(s@),
        None => None,
    }
}

/// What the reader extracts from one raw request: the path token and the
/// bearer token of an Authorization header, if one was sent.
pub struct RequestInfo {
    pub path: String,
    pub bearer: Option<String>,
}

/// Reads the path and the bearer token out of the raw request text. An empty
/// read yields nothing: the connection is abandoned without a response.
pub fn parse_request(req: &str) -> (r: Option<RequestInfo>)
    ensures
        r is Some <==> req@.len() > 0,
        r matches Some(info) ==> info.path@ == request_path(req@) && opt_str_view(info.bearer)
            == request_bearer(req@),
{
    let n = req.unicode_len();
    if n == 0 {
        return None;
    }
    let ghost full = split_on(req@, '\n');
    let ghost ls = spec_lines(req@);

    // The request line and its path token.
    let nl1 = find_char(req, '\n', 0, n);
    let le1 = match nl1 {
        Some(x) => x,
        None => n,
    };
    proof {
        match nl1 {
            Some(x) => {
                lemma_split_at_first(req@, '\n', x as int);
                lemma_split_len_ge_1(req@.skip(x + 1), '\n');
            },
            None => {
                lemma_split_no_sep(req@, '\n');
            },
        }
        assert(full[0] == req@.subrange(0, le1 as int));
    }
    let le1s = if le1 > 0 && req.get_char(le1 - 1) == '\r' {
        le1 - 1
    } else {
        le1
    };
    let ghost line0 = req@.subrange(0, le1s as int);
    proof {
        if le1 > 0 && req@[le1 - 1] == '\r' {
            assert(full[0].drop_last() =~= line0);
        }
        assert(ls[0] == strip_cr(full[0]));
        assert(ls[0] == line0);
    }
    let sp1 = find_char(req, ' ', 0, le1s);
    let path: String;
    match sp1 {
        None => {
            proof {
                assert(forall|j: int| 0 <= j < line0.len() ==> line0[j] == req@[j]);
                lemma_split_no_sep(line0, ' ');
            }
            path = String::from_str("/");
        },
        Some(a) => {
            proof {
                assert(forall|j: int| 0 <= j < line0.len() ==> line0[j] == req@[j]);
                assert(line0[a as int] == ' ');
                lemma_split_at_first(line0, ' ', a as int);
                lemma_split_len_ge_1(line0.skip(a + 1), ' ');
            }
            let ghost tail = line0.skip(a + 1);
            proof {
                assert(forall|j: int| 0 <= j < tail.len() ==> tail[j] == req@[a + 1 + j]);
            }
            let sp2 = find_char(req, ' ', a + 1, le1s);
            let pend = match sp2 {
                Some(b) => b,
                None => le1s,
            };
            proof {
                match sp2 {
                    Some(b) => {
                        assert(tail[b - a - 1] == ' ');
                        lemma_split_at_first(tail, ' ', b - a - 1);
                        assert(tail.subrange(0, b - a - 1) =~= req@.subrange(a + 1, b as int));
                    },
                    None => {
                        lemma_split_no_sep(tail, ' ');
                    },
                }
                assert(split_on(line0, ' ')[1] == split_on(tail, ' ')[0]);
                assert(split_on(tail, ' ')[0] =~= req@.subrange(a + 1, pend as int));
            }
            path = String::from_str(req.substring_char(a + 1, pend));
        },
    }

    // Scan the remaining lines for an Authorization header.
    let mut bearer: Option<String> = None;
    match nl1 {
        None => {
            proof {
                assert(ls.len() == 1);
            }
        },
        Some(first_nl) => {
            let mut start: usize = first_nl + 1;
            let ghost mut k: int = 1;
            proof {
                assert(full =~= full.subrange(0, 1) + split_on(req@.skip(start as int), '\n'));
            }
            loop
                invariant_except_break
                    start <= n,
                    n == req@.len(),
                    1 <= k,
                    full == split_on(req@, '\n'),
                    ls == spec_lines(req@),
                    k == full.len() - split_on(req@.skip(start as int), '\n').len(),
                    full == full.subrange(0, k) + split_on(req@.skip(start as int), '\n'),
                    find_auth_from(ls, 1) == find_auth_from(ls, k),
                    bearer is None,
                ensures
                    opt_str_view(bearer) == find_auth_from(ls, 1),
                decreases n - start,
            {
                let ghost rem = req@.skip(start as int);
                proof {
                    assert(forall|j: int| 0 <= j < rem.len() ==> rem[j] == req@[start + j]);
                    lemma_split_len_ge_1(rem, '\n');
                    assert(full[k] == split_on(rem, '\n')[0]);
                    assert(k < full.len());
                    assert(ls[k] == strip_cr(full[k]));
                }
                let nl = find_char(req, '\n', start, n);
                let le = match nl {
                    Some(x) => x,
                    None => n,
                };
                proof {
                    match nl {
                        Some(x) => {
                            assert(rem[x - start] == '\n');
                            lemma_split_at_first(rem, '\n', x as int - start as int);
                            assert(rem.subrange(0, x - start) =~= req@.subrange(
                                start as int,
                                x as int,
                            ));
                        },
                        None => {
                            lemma_split_no_sep(rem, '\n');
                            assert(rem =~= req@.subrange(start as int, n as int));
                        },
                    }
                    assert(full[k] == req@.subrange(start as int, le as int));
                }
                let les = if le > start && req.get_char(le - 1) == '\r' {
                    le - 1
                } else {
                    le
                };
                let ghost line = req@.subrange(start as int, les as int);
                proof {
                    if le > start && req@[le - 1] == '\r' {
                        assert(full[k].drop_last() =~= line);
                    }
                    assert(ls[k] == line);
                }
                if has_auth_prefix(req, start, les) {
                    proof {
                        reveal_strlit("authorization:");
                        reveal_strlit("Bearer ");
                    }
                    let v = trim_str(req, start + 14, les);
                    proof {
                        assert(line.skip(14) =~= req@.subrange(start + 14, les as int));
                        assert(v@ == trim_ws(line.skip(14)));
                    }
                    let vlen = v.unicode_len();
                    let token: &str = if str_has_prefix(v, "Bearer ") {
                        proof {
                            assert(("Bearer "@).len() == 7);
                        }
                        v.substring_char(7, vlen)
                    } else {
                        v
                    };
                    proof {
                        assert(token@ == bearer_of_line(ls[k]));
                        assert(find_auth_from(ls, k) == Some(bearer_of_line(ls[k])));
                    }
                    bearer = Some(String::from_str(token));
                    break ;
                }
                proof {
                    assert(!is_auth_line(ls[k]));
                    assert(find_auth_from(ls, k) == find_auth_from(ls, k + 1));
                }
                match nl {
                    Some(x) => {
                        proof {
                            let rem2 = req@.skip(x + 1);
                            assert(rem.skip(x - start + 1) =~= rem2);
                            assert(full.subrange(0, k) + (seq![rem.subrange(0, x - start)]
                                + split_on(rem2, '\n')) =~= (full.subrange(0, k) + seq![
                                rem.subrange(0, x - start),
                            ]) + split_on(rem2, '\n'));
                            assert(full.subrange(0, k + 1) =~= full.subrange(0, k) + seq![full[k]]);
                        }
                        start = x + 1;
                        proof {
                            k = k + 1;
                        }
                    },
                    None => {
                        proof {
                            assert(split_on(rem, '\n').len() == 1);
                            assert(ls.len() == full.len());
                            assert(k + 1 >= ls.len());
                            assert(find_auth_from(ls, k + 1) is None);
                        }
                        break ;
                    },
                }
            }
        },
    }
    proof {
        if nl1 is None {
            assert(find_auth_from(ls, 1) is None);
        }
    }
    Some(RequestInfo { path, bearer })
}

} // verus!
