//! Character-level helpers on strings, and the HTML escaping the guestbook
//! applies to what visitors write.
use vstd::prelude::*;

verus! {

/// What `html_escape` makes of one character when encoding "safe" text:
/// `&`, `<`, `>`, `"`, `'` and `/` become entities, the rest stays.
pub open spec fn escape_safe_char(c: char) -> Seq<char> {
    if c == '&' {
        seq!['&', 'a', 'm', 'p', ';']
    } else if c == '<' {
        seq!['&', 'l', 't', ';']
    } else if c == '>' {
        seq!['&', 'g', 't', ';']
    } else if c == '"' {
        seq!['&', 'q', 'u', 'o', 't', ';']
    } else if c == '\'' {
        seq!['&', '#', 'x', '2', '7', ';']
    } else if c == '/' {
        seq!['&', '#', 'x', '2', 'F', ';']
    } else {
        seq![c]
    }
}

/// Safe escaping of a whole text: each character escaped in place.
pub open spec fn escape_safe(s: Seq<char>) -> Seq<char>
    decreases s.len(),
{
    if s.len() == 0 {
        Seq::empty()
    } else {
        escape_safe(s.drop_last()) + escape_safe_char(s.last())
    }
}


/// What `html_escape` makes of one character when encoding plain HTML text:
/// `&`, `<` and `>` become entities, the rest stays.
pub open spec fn escape_text_char(c: char) -> Seq<char> {
    if c == '&' {
        seq!['&', 'a', 'm', 'p', ';']
    } else if c == '<' {
        seq!['&', 'l', 't', ';']
    } else if c == '>' {
        seq!['&', 'g', 't', ';']
    } else {
        seq![c]
    }
}

/// Text escaping of a whole text: each character escaped in place.
pub open spec fn escape_text(s: Seq<char>) -> Seq<char>
    decreases s.len(),
{
    if s.len() == 0 {
        Seq::empty()
    } else {
        escape_text(s.drop_last()) + escape_text_char(s.last())
    }
}

/// The first `n` characters of `s`, or all of them where `s` is shorter.
pub open spec fn prefix(s: Seq<char>, n: int) -> Seq<char> {
    if n <= s.len() {
        s.take(n)
    } else {
        s
    }
}

/// `s` begins with `p`.
pub open spec fn starts_with(s: Seq<char>, p: Seq<char>) -> bool {
    p.len() <= s.len() && s.take(p.len() as int) == p
}

/// Every non-overlapping occurrence of `pat`, found from the left, replaced
/// by `rep`; `pat` is not empty.
pub open spec fn replace_all(s: Seq<char>, pat: Seq<char>, rep: Seq<char>) -> Seq<char>
    recommends
        pat.len() > 0,
    decreases s.len(),
{
    if pat.len() == 0 || s.len() < pat.len() {
        s
    } else if s.take(pat.len() as int) == pat {
        rep + replace_all(s.skip(pat.len() as int), pat, rep)
    } else {
        seq![s[0]] + replace_all(s.skip(1), pat, rep)
    }
}

/// The lower-case hexadecimal digit of a number below 16.
pub open spec fn hex_digit(n: int) -> char {
    if n < 10 {
        (n + 48) as char
    } else {
        (n + 87) as char
    }
}

/// Bytes written as lower-case hexadecimal, two digits per byte, high half first.
pub open spec fn lower_hex(bytes: Seq<u8>) -> Seq<char>
    decreases bytes.len(),
{
    if bytes.len() == 0 {
        Seq::empty()
    } else {
        lower_hex(bytes.drop_last()) + seq![
            hex_digit(bytes.last() as int / 16),
            hex_digit(bytes.last() as int % 16),
        ]
    }
}

/// A lower-case hexadecimal digit.
pub open spec fn is_lower_hex_digit(c: char) -> bool {
    ('0' <= c && c <= '9') || ('a' <= c && c <= 'f')
}

/// `String::push`: appends one character.
#[verifier::external_body]
pub(crate) fn push_char(s: &mut String, c: char)
    ensures
        final(s)@ == old(s)@.push(c),
{
    s.push(c);
}

/// The characters of a string, one by one.
pub fn chars_of(s: &str) -> (r: Vec<char>)
    ensures
        r@ == s@,
{
    let mut r: Vec<char> = Vec::new();
    for c in it: s.chars()
        invariant
            r@ == it.seq().take(it.index() as int),
    {
        r.push(c);
    }
    r
}


/// A string holding the given characters.
pub fn string_of(cs: &Vec<char>) -> (r: String)
    ensures
        r@ == cs@,
{
    let mut r = String::new();
    let mut i: usize = 0;
    while i < cs.len()
        invariant
            i <= cs.len(),
            r@ == cs@.take(i as int),
        decreases cs.len() - i,
    {
        push_char(&mut r, cs[i]);
        assert(cs@.take(i as int).push(cs@[i as int]) =~= cs@.take(i + 1));
        i += 1;
    }
    assert(cs@.take(cs.len() as int) =~= cs@);
    r
}

/// Whether `s` begins with `p`.
pub fn has_prefix(s: &str, p: &str) -> (r: bool)
    ensures
        r == starts_with(s@, p@),
{
    let cs = chars_of(s);
    let ps = chars_of(p);
    assert(cs@.skip(0) =~= cs@);
    matches_at(&cs, 0, &ps)
}

/// Whether `pat` occurs in `cs` at position `at`.
fn matches_at(cs: &Vec<char>, at: usize, pat: &Vec<char>) -> (r: bool)
    requires
        at <= cs.len(),
    ensures
        r == starts_with(cs@.skip(at as int), pat@),
{
    let ghost rest = cs@.skip(at as int);
    if pat.len() > cs.len() - at {
        return false;
    }
    let mut i: usize = 0;
    while i < pat.len()
        invariant
            pat.len() <= cs.len() - at,
            i <= pat.len(),
            rest == cs@.skip(at as int),
            forall|j: int| 0 <= j < i ==> rest[j] == pat@[j],
        decreases pat.len() - i,
    {
        if cs[at + i] != pat[i] {
            assert(rest.take(pat.len() as int)[i as int] != pat@[i as int]);
            return false;
        }
        i += 1;
    }
    assert(rest.take(pat.len() as int) =~= pat@);
    true
}

/// Whether `c` occurs in `s`.
pub fn has_char(s: &str, c: char) -> (r: bool)
    ensures
        r == s@.contains(c),
{
    let cs = chars_of(s);
    let mut i: usize = 0;
    while i < cs.len()
        invariant
            i <= cs.len(),
            cs@ == s@,
            forall|j: int| 0 <= j < i ==> cs@[j] != c,
        decreases cs.len() - i,
    {
        if cs[i] == c {
            assert(s@[i as int] == c);
            return true;
        }
        i += 1;
    }
    false
}

/// The first `n` characters of `s`, or all of them where `s` is shorter.
pub fn take_chars(s: &str, n: usize) -> (r: String)
    ensures
        r@ == prefix(s@, n as int),
{
    let cs = chars_of(s);
    let mut r = String::new();
    let mut i: usize = 0;
    while i < cs.len() && i < n
        invariant
            i <= cs.len(),
            i <= n,
            cs@ == s@,
            r@ == cs@.take(i as int),
        decreases cs.len() - i,
    {
        push_char(&mut r, cs[i]);
        assert(cs@.take(i as int).push(cs@[i as int]) =~= cs@.take(i + 1));
        i += 1;
    }
    if i == cs.len() {
        assert(cs@.take(i as int) =~= cs@);
    }
    r
}

proof fn lemma_replace_all_step(s: Seq<char>, pat: Seq<char>, rep: Seq<char>, i: int)
    requires
        pat.len() > 0,
        0 <= i <= s.len(),
    ensures
        s.skip(i).len() < pat.len() ==> replace_all(s.skip(i), pat, rep) == s.skip(i),
        s.skip(i).len() >= pat.len() && starts_with(s.skip(i), pat) ==> replace_all(s.skip(i), pat, rep)
            == rep + replace_all(s.skip(i + pat.len()), pat, rep),
        s.skip(i).len() >= pat.len() && !starts_with(s.skip(i), pat) ==> replace_all(s.skip(i), pat, rep)
            == seq![s[i]] + replace_all(s.skip(i + 1), pat, rep),
{
    if s.skip(i).len() >= pat.len() {
        assert(s.skip(i).skip(pat.len() as int) =~= s.skip(i + pat.len()));
        assert(s.skip(i).skip(1) =~= s.skip(i + 1));
    }
}

/// `s` with every non-overlapping occurrence of `pat`, found from the left,
/// replaced by `rep`, as `str::replace` does for a non-empty pattern.
pub fn replace_all_of(s: &str, pat: &str, rep: &str) -> (r: String)
    requires
        pat@.len() > 0,
    ensures
        r@ == replace_all(s@, pat@, rep@),
{
    let cs = chars_of(s);
    let ps = chars_of(pat);
    let mut r = String::new();
    let mut i: usize = 0;
    assert(cs@.skip(0) =~= cs@);
    assert(r@ + replace_all(cs@, ps@, rep@) =~= replace_all(cs@, ps@, rep@));
    while i < cs.len()
        invariant
            i <= cs.len(),
            cs@ == s@,
            ps@ == pat@,
            ps@.len() > 0,
            r@ + replace_all(cs@.skip(i as int), ps@, rep@) == replace_all(cs@, ps@, rep@),
        decreases cs.len() - i,
    {
        proof {
            lemma_replace_all_step(cs@, ps@, rep@, i as int);
        }
        if ps.len() <= cs.len() - i && matches_at(&cs, i, &ps) {
            let ghost before = r@;
            r.append(rep);
            assert(before + (rep@ + replace_all(cs@.skip(i + ps@.len()), ps@, rep@)) =~= r@
                + replace_all(cs@.skip(i + ps@.len()), ps@, rep@));
            i += ps.len();
        } else if ps.len() > cs.len() - i {
            assert(cs@.skip(i as int).len() < ps@.len());
            assert(replace_all(cs@.skip(i as int), ps@, rep@) == cs@.skip(i as int));
            while i < cs.len()
                invariant
                    i <= cs.len(),
                    r@ + cs@.skip(i as int) == replace_all(cs@, ps@, rep@),
                decreases cs.len() - i,
            {
                let ghost b = r@;
                push_char(&mut r, cs[i]);
                assert(cs@.skip(i as int) =~= seq![cs@[i as int]] + cs@.skip(i + 1));
                assert(b + cs@.skip(i as int) =~= r@ + cs@.skip(i + 1));
                i += 1;
            }
            assert(cs@.skip(i as int) =~= Seq::<char>::empty());
            assert(r@ =~= r@ + cs@.skip(i as int));
            return r;
        } else {
            let ghost before = r@;
            push_char(&mut r, cs[i]);
            assert(before + (seq![cs@[i as int]] + replace_all(cs@.skip(i + 1), ps@, rep@)) =~= r@
                + replace_all(cs@.skip(i + 1), ps@, rep@));
            i += 1;
        }
    }
    assert(cs@.skip(i as int) =~= Seq::<char>::empty());
    assert(r@ =~= r@ + replace_all(cs@.skip(i as int), ps@, rep@));
    r
}

/// The lower-case hexadecimal digit of a number below 16.
fn hex_digit_of(n: u8) -> (c: char)
    requires
        n < 16,
    ensures
        c == hex_digit(n as int),
        is_lower_hex_digit(c),
{
    if n < 10 {
        (n + 48) as char
    } else {
        (n + 87) as char
    }
}

/// Bytes written as lower-case hexadecimal, two digits per byte.
pub fn to_lower_hex(bytes: &Vec<u8>) -> (r: String)
    ensures
        r@ == lower_hex(bytes@),
{
    let mut r = String::new();
    let mut i: usize = 0;
    while i < bytes.len()
        invariant
            i <= bytes.len(),
            r@ == lower_hex(bytes@.take(i as int)),
        decreases bytes.len() - i,
    {
        let b = bytes[i];
        push_char(&mut r, hex_digit_of(b / 16));
        push_char(&mut r, hex_digit_of(b % 16));
        assert(bytes@.take(i + 1).drop_last() =~= bytes@.take(i as int));
        i += 1;
    }
    assert(bytes@.take(bytes.len() as int) =~= bytes@);
    r
}

/// Lower-case hexadecimal of `n` bytes is `2 n` lower-case hexadecimal digits.
pub proof fn lemma_lower_hex_shape(bytes: Seq<u8>)
    ensures
        lower_hex(bytes).len() == 2 * bytes.len(),
        forall|i: int| 0 <= i < lower_hex(bytes).len() ==> is_lower_hex_digit(#[trigger] lower_hex(bytes)[i]),
    decreases bytes.len(),
{
    if bytes.len() > 0 {
        lemma_lower_hex_shape(bytes.drop_last());
        let b = bytes.last() as int;
        assert(is_lower_hex_digit(hex_digit(b / 16)));
        assert(is_lower_hex_digit(hex_digit(b % 16)));
        let l = lower_hex(bytes);
        let m = lower_hex(bytes.drop_last());
        assert forall|i: int| 0 <= i < l.len() implies is_lower_hex_digit(#[trigger] l[i]) by {
            if i < m.len() {
                assert(l[i] == m[i]);
            }
        }
    }
}


/// Characters that never survive safe escaping as themselves.
pub open spec fn is_markup_char(c: char) -> bool {
    c == '<' || c == '>' || c == '"' || c == '\'' || c == '/'
}

/// Safely escaped text holds no `<`, `>`, `"`, `'` or `/`, and is at most six
/// times as long as the text it escapes.
pub proof fn lemma_escape_safe_no_markup(s: Seq<char>)
    ensures
        forall|i: int| 0 <= i < escape_safe(s).len() ==> !is_markup_char(#[trigger] escape_safe(s)[i]),
        escape_safe(s).len() <= 6 * s.len(),
        s.len() <= escape_safe(s).len(),
    decreases s.len(),
{
    if s.len() > 0 {
        lemma_escape_safe_no_markup(s.drop_last());
        let e = escape_safe(s);
        let d = escape_safe(s.drop_last());
        let t = escape_safe_char(s.last());
        assert(e == d + t);
        assert forall|i: int| 0 <= i < e.len() implies !is_markup_char(#[trigger] e[i]) by {
            if i < d.len() {
                assert(e[i] == d[i]);
            } else {
                assert(e[i] == t[i - d.len()]);
            }
        }
    }
}

/// Text-escaped text holds no `<` or `>`.
pub proof fn lemma_escape_text_no_tags(s: Seq<char>)
    ensures
        forall|i: int| 0 <= i < escape_text(s).len() ==> #[trigger] escape_text(s)[i] != '<'
            && escape_text(s)[i] != '>',
    decreases s.len(),
{
    if s.len() > 0 {
        lemma_escape_text_no_tags(s.drop_last());
        let e = escape_text(s);
        let d = escape_text(s.drop_last());
        let t = escape_text_char(s.last());
        assert forall|i: int| 0 <= i < e.len() implies #[trigger] e[i] != '<' && e[i] != '>' by {
            if i < d.len() {
                assert(e[i] == d[i]);
            } else {
                assert(e[i] == t[i - d.len()]);
            }
        }
    }
}


/// Whether two strings hold the same characters.
pub fn same_text(a: &str, b: &str) -> (r: bool)
    ensures
        r == (a@ == b@),
{
    let cs = chars_of(a);
    let ds = chars_of(b);
    if cs.len() != ds.len() {
        return false;
    }
    assert(cs@.skip(0) =~= cs@);
    let r = matches_at(&cs, 0, &ds);
    assert(r ==> cs@.take(ds@.len() as int) =~= cs@);
    r
}


/// Characters that safe escaping rewrites.
pub open spec fn is_escaped_char(c: char) -> bool {
    c == '&' || c == '<' || c == '>' || c == '"' || c == '\'' || c == '/'
}

/// Safe escaping leaves a text without `&`, `<`, `>`, `"`, `'` and `/` exactly
/// as it is.
pub proof fn lemma_escape_safe_plain(s: Seq<char>)
    requires
        forall|i: int| 0 <= i < s.len() ==> !is_escaped_char(#[trigger] s[i]),
    ensures
        escape_safe(s) == s,
    decreases s.len(),
{
    if s.len() > 0 {
        let d = s.drop_last();
        assert forall|i: int| 0 <= i < d.len() implies !is_escaped_char(#[trigger] d[i]) by {
            assert(d[i] == s[i]);
        }
        lemma_escape_safe_plain(d);
        assert(!is_escaped_char(s[s.len() - 1]));
        assert(escape_safe(s) =~= s);
    }
}

/// Text escaping leaves a text without `&`, `<` and `>` exactly as it is.
pub proof fn lemma_escape_text_plain(s: Seq<char>)
    requires
        forall|i: int| 0 <= i < s.len() ==> #[trigger] s[i] != '&' && s[i] != '<' && s[i] != '>',
    ensures
        escape_text(s) == s,
    decreases s.len(),
{
    if s.len() > 0 {
        let d = s.drop_last();
        assert forall|i: int| 0 <= i < d.len() implies #[trigger] d[i] != '&' && d[i] != '<' && d[i]
            != '>' by {
            assert(d[i] == s[i]);
        }
        lemma_escape_text_plain(d);
        assert(escape_text(s) =~= s);
    }
}

/// The first `n` characters of `s` are `min(n, |s|)` characters, `s`'s own, in
/// order.
pub proof fn lemma_prefix(s: Seq<char>, n: int)
    requires
        n >= 0,
    ensures
        prefix(s, n).len() == (if n <= s.len() { n } else { s.len() as int }),
        forall|i: int| 0 <= i < prefix(s, n).len() ==> #[trigger] prefix(s, n)[i] == s[i],
        s.len() <= n ==> prefix(s, n) == s,
{
}

/// The value of a lower-case hexadecimal digit.
pub open spec fn hex_value(c: char) -> int {
    if '0' <= c && c <= '9' {
        c as int - 48
    } else {
        c as int - 87
    }
}

/// Lower-case hexadecimal reads back as the bytes it was written from: digits
/// `2 i` and `2 i + 1` are the high and low halves of byte `i`.
pub proof fn lemma_lower_hex_decodes(bytes: Seq<u8>)
    ensures
        lower_hex(bytes).len() == 2 * bytes.len(),
        forall|i: int|
            0 <= i < bytes.len() ==> 16 * hex_value(#[trigger] lower_hex(bytes)[2 * i]) + hex_value(
                lower_hex(bytes)[2 * i + 1],
            ) == bytes[i],
    decreases bytes.len(),
{
    lemma_lower_hex_shape(bytes);
    if bytes.len() > 0 {
        let d = bytes.drop_last();
        lemma_lower_hex_decodes(d);
        let l = lower_hex(bytes);
        let m = lower_hex(d);
        assert forall|i: int| 0 <= i < bytes.len() implies 16 * hex_value(#[trigger] l[2 * i])
            + hex_value(l[2 * i + 1]) == bytes[i] by {
            if i < d.len() {
                assert(l[2 * i] == m[2 * i]);
                assert(l[2 * i + 1] == m[2 * i + 1]);
                assert(16 * hex_value(m[2 * i]) + hex_value(m[2 * i + 1]) == d[i]);
            } else {
                let b = bytes.last() as int;
                assert(l[2 * i] == hex_digit(b / 16));
                assert(l[2 * i + 1] == hex_digit(b % 16));
            }
        }
    }
}


/// `s` begins with `p` exactly when `p` is no longer than `s` and each of its
/// characters is `s`'s at the same place.
pub proof fn lemma_starts_with(s: Seq<char>, p: Seq<char>)
    ensures
        starts_with(s, p) <==> (p.len() <= s.len() && forall|i: int| 0 <= i < p.len() ==> s[i] == p[i]),
{
    if p.len() <= s.len() && forall|i: int| 0 <= i < p.len() ==> s[i] == p[i] {
        assert(s.take(p.len() as int) =~= p);
    }
    if starts_with(s, p) {
        assert forall|i: int| 0 <= i < p.len() implies s[i] == p[i] by {
            assert(s.take(p.len() as int)[i] == s[i]);
        }
    }
}

/// A text in which `pat` occurs nowhere is left as it is by `replace_all`.
pub proof fn lemma_replace_all_absent(s: Seq<char>, pat: Seq<char>, rep: Seq<char>)
    requires
        pat.len() > 0,
        forall|k: int| 0 <= k <= s.len() - pat.len() ==> !starts_with(#[trigger] s.skip(k), pat),
    ensures
        replace_all(s, pat, rep) == s,
    decreases s.len(),
{
    if s.len() >= pat.len() {
        assert(s.skip(0) =~= s);
        assert(!starts_with(s.skip(0), pat));
        let t = s.skip(1);
        assert forall|k: int| 0 <= k <= t.len() - pat.len() implies !starts_with(#[trigger] t.skip(k), pat) by {
            assert(t.skip(k) =~= s.skip(k + 1));
            assert(!starts_with(s.skip(k + 1), pat));
        }
        lemma_replace_all_absent(t, pat, rep);
        assert(seq![s[0]] + t =~= s);
    }
}


/// Safe escaping works character by character: escaping two texts one after
/// the other is escaping them joined.
pub proof fn lemma_escape_safe_concat(a: Seq<char>, b: Seq<char>)
    ensures
        escape_safe(a + b) == escape_safe(a) + escape_safe(b),
    decreases b.len(),
{
    if b.len() == 0 {
        assert(a + b =~= a);
        assert(escape_safe(a) + escape_safe(b) =~= escape_safe(a));
    } else {
        lemma_escape_safe_concat(a, b.drop_last());
        assert((a + b).drop_last() =~= a + b.drop_last());
        assert((a + b).last() == b.last());
        assert(escape_safe(a + b) =~= escape_safe(a) + escape_safe(b));
    }
}

/// What safe escaping makes of each character it rewrites, and of any other.
pub proof fn lemma_escape_safe_entities(c: char)
    ensures
        escape_safe(seq!['&']) == seq!['&', 'a', 'm', 'p', ';'],
        escape_safe(seq!['<']) == seq!['&', 'l', 't', ';'],
        escape_safe(seq!['>']) == seq!['&', 'g', 't', ';'],
        escape_safe(seq!['"']) == seq!['&', 'q', 'u', 'o', 't', ';'],
        escape_safe(seq!['\'']) == seq!['&', '#', 'x', '2', '7', ';'],
        escape_safe(seq!['/']) == seq!['&', '#', 'x', '2', 'F', ';'],
        !is_escaped_char(c) ==> escape_safe(seq![c]) == seq![c],
{
    assert forall|d: char| #[trigger] escape_safe(seq![d]) == escape_safe_char(d) by {
        assert(seq![d].len() == 1);
        assert(seq![d].last() == d);
        assert(seq![d].drop_last() =~= Seq::<char>::empty());
        assert(escape_safe(seq![d].drop_last()) == Seq::<char>::empty());
        assert(Seq::<char>::empty() + escape_safe_char(d) =~= escape_safe_char(d));
    }
    assert(escape_safe(seq!['&']) == escape_safe_char('&'));
    assert(escape_safe(seq!['<']) == escape_safe_char('<'));
    assert(escape_safe(seq!['>']) == escape_safe_char('>'));
    assert(escape_safe(seq!['"']) == escape_safe_char('"'));
    assert(escape_safe(seq!['\'']) == escape_safe_char('\''));
    assert(escape_safe(seq!['/']) == escape_safe_char('/'));
    assert(escape_safe(seq![c]) == escape_safe_char(c));
}

/// Text escaping works character by character.
pub proof fn lemma_escape_text_concat(a: Seq<char>, b: Seq<char>)
    ensures
        escape_text(a + b) == escape_text(a) + escape_text(b),
    decreases b.len(),
{
    if b.len() == 0 {
        assert(a + b =~= a);
        assert(escape_text(a) + escape_text(b) =~= escape_text(a));
    } else {
        lemma_escape_text_concat(a, b.drop_last());
        assert((a + b).drop_last() =~= a + b.drop_last());
        assert((a + b).last() == b.last());
        assert(escape_text(a + b) =~= escape_text(a) + escape_text(b));
    }
}

/// What text escaping makes of each character it rewrites, and of any other.
pub proof fn lemma_escape_text_entities(c: char)
    ensures
        escape_text(seq!['&']) == seq!['&', 'a', 'm', 'p', ';'],
        escape_text(seq!['<']) == seq!['&', 'l', 't', ';'],
        escape_text(seq!['>']) == seq!['&', 'g', 't', ';'],
        c != '&' && c != '<' && c != '>' ==> escape_text(seq![c]) == seq![c],
{
    assert forall|d: char| #[trigger] escape_text(seq![d]) == escape_text_char(d) by {
        assert(seq![d].len() == 1);
        assert(seq![d].last() == d);
        assert(seq![d].drop_last() =~= Seq::<char>::empty());
        assert(escape_text(seq![d].drop_last()) == Seq::<char>::empty());
        assert(Seq::<char>::empty() + escape_text_char(d) =~= escape_text_char(d));
    }
    assert(escape_text(seq!['&']) == escape_text_char('&'));
    assert(escape_text(seq!['<']) == escape_text_char('<'));
    assert(escape_text(seq!['>']) == escape_text_char('>'));
    assert(escape_text(seq![c]) == escape_text_char(c));
}

} // verus!
