use vstd::prelude::*;
use vstd::utf8::{valid_utf8, decode_utf8};
use crate::files::FileContent;

verus! {

/// Whitespace as Unicode's `White_Space` property lists it.
pub open spec fn is_space(c: char) -> bool {
    let u = c as u32;
    (0x09 <= u && u <= 0x0d) || u == 0x20 || u == 0x85 || u == 0xa0 || u == 0x1680 || (0x2000
        <= u && u <= 0x200a) || u == 0x2028 || u == 0x2029 || u == 0x202f || u == 0x205f || u
        == 0x3000
}

/// A delimiter line: exactly `---`, then nothing but trailing whitespace.
pub open spec fn is_delimiter_line(line: Seq<char>) -> bool {
    &&& line.len() >= 3
    &&& line[0] == '-' && line[1] == '-' && line[2] == '-'
    &&& forall|i: int| 3 <= i < line.len() ==> is_space(#[trigger] line[i])
}

/// `s[a..b]` is a whole line of `s`: it starts the text or follows a newline,
/// holds no newline, and ends at a newline or at the end of the text.
pub open spec fn is_line(s: Seq<char>, a: int, b: int) -> bool {
    &&& 0 <= a <= b <= s.len()
    &&& (a == 0 || s[a - 1] == '\n')
    &&& forall|i: int| a <= i < b ==> #[trigger] s[i] != '\n'
    &&& (b == s.len() || s[b] == '\n')
}

/// The text opens with a delimiter line that ends at `e0`.
pub open spec fn opens_at(s: Seq<char>, e0: int) -> bool {
    is_line(s, 0, e0) && is_delimiter_line(s.subrange(0, e0))
}

/// The first delimiter line after the opening one (which ends at `e0`) is
/// `s[c..e]`.
pub open spec fn closes_at(s: Seq<char>, e0: int, c: int, e: int) -> bool {
    &&& e0 < c
    &&& is_line(s, c, e)
    &&& is_delimiter_line(s.subrange(c, e))
    &&& forall|c2: int, e2: int|
        e0 < c2 < c && is_line(s, c2, e2) ==> !is_delimiter_line(#[trigger] s.subrange(c2, e2))
}

/// A text split into its optional metadata header and its body.
#[derive(Debug)]
pub struct FrontmatterSplit {
    pub header: Option<String>,
    pub body: String,
}

/// How `s` splits into header and body.
///
/// Without an opening delimiter line there is no header and the body is the
/// whole text. With one, the header is the text strictly between it and the
/// next delimiter line, and the body is what follows that line; where no
/// second delimiter line comes, the header runs to the end and the body is
/// empty.
pub open spec fn splits(s: Seq<char>, r: FrontmatterSplit) -> bool {
    if exists|e0: int| opens_at(s, e0) {
        let e0 = choose|e0: int| opens_at(s, e0);
        &&& r.header is Some
        &&& if exists|c: int, e: int| closes_at(s, e0, c, e) {
            let (c, e) = choose|c: int, e: int| closes_at(s, e0, c, e);
            &&& r.header->0@ == (if c == e0 + 1 {
                Seq::empty()
            } else {
                s.subrange(e0 + 1, c - 1)
            })
            &&& r.body@ == (if e == s.len() {
                Seq::empty()
            } else {
                s.subrange(e + 1, s.len() as int)
            })
        } else {
            &&& r.header->0@ == (if e0 == s.len() {
                Seq::empty()
            } else {
                s.subrange(e0 + 1, s.len() as int)
            })
            &&& r.body@ == Seq::<char>::empty()
        }
    } else {
        r.header is None && r.body@ == s
    }
}

/// The characters of a text, in order.
pub fn chars_of(text: &str) -> (r: Vec<char>)
    ensures
        r@ == text@,
{
    let mut v: Vec<char> = Vec::new();
    for c in it: text.chars()
        invariant
            v@ == it.seq().subrange(0, it.index() as int),
    {
        v.push(c);
    }
    v
}

/// Whether `c` is whitespace.
pub fn is_space_char(c: char) -> (r: bool)
    ensures
        r == is_space(c),
{
    let u = c as u32;
    (0x09 <= u && u <= 0x0d) || u == 0x20 || u == 0x85 || u == 0xa0 || u == 0x1680 || (0x2000
        <= u && u <= 0x200a) || u == 0x2028 || u == 0x2029 || u == 0x202f || u == 0x205f || u
        == 0x3000
}

/// Whether `cs[a..b]` is a delimiter line.
fn delimiter_between(cs: &Vec<char>, a: usize, b: usize) -> (r: bool)
    requires
        a <= b <= cs@.len(),
    ensures
        r == is_delimiter_line(cs@.subrange(a as int, b as int)),
{
    let ghost line = cs@.subrange(a as int, b as int);
    if b - a < 3 {
        return false;
    }
    if cs[a] != '-' || cs[a + 1] != '-' || cs[a + 2] != '-' {
        return false;
    }
    let mut i: usize = a + 3;
    while i < b
        invariant
            a + 3 <= i <= b <= cs@.len(),
            line == cs@.subrange(a as int, b as int),
            forall|j: int| 3 <= j < i - a ==> is_space(#[trigger] line[j]),
        decreases b - i,
    {
        if !is_space_char(cs[i]) {
            assert(!is_space(line[i - a]));
            return false;
        }
        i = i + 1;
    }
    true
}

/// Whether a line is a frontmatter delimiter: `---` followed by nothing but
/// whitespace.
pub fn is_frontmatter_delimiter(line: &str) -> (r: bool)
    ensures
        r == is_delimiter_line(line@),
{
    let cs = chars_of(line);
    let n = cs.len();
    let r = delimiter_between(&cs, 0, n);
    assert(cs@.subrange(0, n as int) =~= line@);
    r
}

/// The end of the line that starts at `a`: the next newline, or the end.
fn line_end(cs: &Vec<char>, a: usize, n: usize) -> (e: usize)
    requires
        n == cs@.len(),
        a <= n,
        a == 0 || cs@[a - 1] == '\n',
    ensures
        is_line(cs@, a as int, e as int),
{
    let mut e: usize = a;
    while e < n && cs[e] != '\n'
        invariant
            a <= e <= n,
            n == cs@.len(),
            forall|i: int| a <= i < e ==> #[trigger] cs@[i] != '\n',
        decreases n - e,
    {
        e = e + 1;
    }
    e
}

proof fn lemma_line_end_unique(s: Seq<char>, a: int, b1: int, b2: int)
    requires
        is_line(s, a, b1),
        is_line(s, a, b2),
    ensures
        b1 == b2,
{
    if b1 < b2 {
        assert(s[b1] != '\n');
    } else if b2 < b1 {
        assert(s[b2] != '\n');
    }
}

/// Splits a text into its metadata header, if it opens with one, and its body.
pub fn split_frontmatter(text: &str) -> (r: FrontmatterSplit)
    ensures
        splits(text@, r),
{
    let ghost s = text@;
    let cs = chars_of(text);
    let n = cs.len();
    let e0 = line_end(&cs, 0, n);
    if !delimiter_between(&cs, 0, e0) {
        proof {
            assert forall|x: int| !opens_at(s, x) by {
                if opens_at(s, x) {
                    lemma_line_end_unique(s, 0, x, e0 as int);
                }
            }
        }
        return FrontmatterSplit { header: None, body: text.to_owned() };
    }
    assert(opens_at(s, e0 as int));
    proof {
        assert forall|x: int| opens_at(s, x) implies x == e0 by {
            lemma_line_end_unique(s, 0, x, e0 as int);
        }
    }
    if e0 == n {
        proof {
            assert forall|c3: int, e3: int| !closes_at(s, e0 as int, c3, e3) by {}
        }
        return unclosed(text, e0, n);
    }
    let mut c: usize = e0 + 1;
    while c < n
        invariant
            s == text@,
            cs@ == s,
            n == s.len(),
            e0 < c <= n,
            s[c - 1] == '\n',
            opens_at(s, e0 as int),
            forall|x: int| opens_at(s, x) ==> x == e0,
            forall|c2: int, e2: int|
                e0 < c2 < c && is_line(s, c2, e2) ==> !is_delimiter_line(
                    #[trigger] s.subrange(c2, e2),
                ),
        decreases n - c,
    {
        let e = line_end(&cs, c, n);
        if delimiter_between(&cs, c, e) {
            assert(closes_at(s, e0 as int, c as int, e as int));
            proof {
                assert forall|c3: int, e3: int| closes_at(s, e0 as int, c3, e3) implies c3 == c
                    && e3 == e by {
                    if c3 > c {
                        if c3 - 1 < e {
                            assert(s[c3 - 1] != '\n');
                        }
                    }
                    lemma_line_end_unique(s, c as int, e as int, e3);
                }
            }
            let header = if c == e0 + 1 {
                String::new()
            } else {
                text.substring_char(e0 + 1, c - 1).to_owned()
            };
            let body = if e == n {
                String::new()
            } else {
                text.substring_char(e + 1, n).to_owned()
            };
            return FrontmatterSplit { header: Some(header), body };
        }
        proof {
            assert forall|c2: int, e2: int|
                e0 < c2 < e + 1 && is_line(s, c2, e2) implies !is_delimiter_line(
                s.subrange(c2, e2),
            ) by {
                if c2 == c {
                    lemma_line_end_unique(s, c as int, e as int, e2);
                } else if c2 > c && c2 <= e {
                    assert(s[c2 - 1] != '\n');
                }
            }
        }
        if e == n {
            proof {
                assert forall|c3: int, e3: int| !closes_at(s, e0 as int, c3, e3) by {
                    if closes_at(s, e0 as int, c3, e3) {
                        assert(c3 <= n + 1);
                    }
                }
            }
            return unclosed(text, e0, n);
        }
        c = e + 1;
    }
    proof {
        assert forall|c3: int, e3: int| !closes_at(s, e0 as int, c3, e3) by {
            if closes_at(s, e0 as int, c3, e3) {
                if c3 >= c {
                    assert(e3 == n);
                }
            }
        }
    }
    unclosed(text, e0, n)
}

/// The split of a text whose opening delimiter line, ending at `e0`, is never
/// closed: the header runs to the end, the body is empty.
fn unclosed(text: &str, e0: usize, n: usize) -> (r: FrontmatterSplit)
    requires
        n == text@.len(),
        opens_at(text@, e0 as int),
        forall|x: int| opens_at(text@, x) ==> x == e0,
        forall|c3: int, e3: int| !closes_at(text@, e0 as int, c3, e3),
    ensures
        splits(text@, r),
{
    let header = if e0 == n {
        String::new()
    } else {
        text.substring_char(e0 + 1, n).to_owned()
    };
    FrontmatterSplit { header: Some(header), body: String::new() }
}

/// Relies on `String::from_utf8`: it accepts exactly the valid UTF-8 byte
/// sequences and then holds the characters they encode.
#[verifier::external_body]
fn decode_text(bytes: Vec<u8>) -> (r: Option<String>)
    ensures
        r is Some <==> valid_utf8(bytes@),
        r matches Some(s) ==> s@ == decode_utf8(bytes@),
{
    String::from_utf8(bytes).ok()
}

/// Reads a source file's bytes: non-UTF-8 content is binary; text is split
/// into its metadata header and body.
pub fn parse_source(bytes: Vec<u8>) -> (r: FileContent<FrontmatterSplit>)
    ensures
        r is Binary <==> !valid_utf8(bytes@),
        r matches FileContent::Utf8(split) ==> splits(decode_utf8(bytes@), split),
{
    match decode_text(bytes) {
        Some(text) => FileContent::Utf8(split_frontmatter(text.as_str())),
        None => FileContent::Binary,
    }
}

} // verus!
