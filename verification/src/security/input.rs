use vstd::prelude::*;
use vstd::string::StringSliceAdditionalSpecFns;

verus! {

broadcast use vstd::string::group_string_axioms;

/// The characters of a string, in order.
pub fn chars_of(s: &str) -> (out: Vec<char>)
    ensures
        out@ == s@,
{
    let mut out: Vec<char> = Vec::new();
    for c in iter: s.chars()
        invariant
            out@ == iter.seq().take(iter.index() as int),
    {
        out.push(c);
    }
    out
}

/// The Unicode `White_Space` property, which `char::is_whitespace` tests:
/// tab to carriage return, space, next line, no-break space, ogham space
/// mark, the spaces from en quad to hair space, line and paragraph separator,
/// narrow no-break space, medium mathematical space and ideographic space.
pub open spec fn unicode_white_space(c: char) -> bool {
    let u = c as u32;
    ||| (0x9 <= u && u <= 0xD)
    ||| u == 0x20
    ||| u == 0x85
    ||| u == 0xA0
    ||| u == 0x1680
    ||| (0x2000 <= u && u <= 0x200A)
    ||| u == 0x2028
    ||| u == 0x2029
    ||| u == 0x202F
    ||| u == 0x205F
    ||| u == 0x3000
}

/// Whether `c` is white space, as `char::is_whitespace` decides.
fn is_whitespace(c: char) -> (res: bool)
    ensures
        res == unicode_white_space(c),
{
    let u = c as u32;
    (0x9 <= u && u <= 0xD) || u == 0x20 || u == 0x85 || u == 0xA0 || u == 0x1680 || (0x2000 <= u && u <= 0x200A)
        || u == 0x2028 || u == 0x2029 || u == 0x202F || u == 0x205F || u == 0x3000
}

/// `String::push`: appends one character.
#[verifier::external_body]
pub(crate) fn push_char(s: &mut String, c: char)
    ensures
        final(s)@ == old(s)@.push(c),
{
    s.push(c)
}

/// Appends the characters of `t` to `s`.
pub(crate) fn append_str(s: &mut String, t: &str)
    ensures
        final(s)@ == old(s)@ + t@,
{
    let chars = chars_of(t);
    let ghost start = s@;
    let mut i: usize = 0;
    while i < chars.len()
        invariant
            chars@ == t@,
            0 <= i <= chars.len(),
            s@ == start + t@.take(i as int),
        decreases chars.len() - i,
    {
        push_char(s, chars[i]);
        i = i + 1;
        assert(s@ =~= start + t@.take(i as int));
    }
    assert(t@.take(chars.len() as int) =~= t@);
}

/// `s` without its leading white space.
pub open spec fn trim_start_spec(s: Seq<char>) -> Seq<char>
    decreases s.len(),
{
    if s.len() > 0 && unicode_white_space(s[0]) {
        trim_start_spec(s.drop_first())
    } else {
        s
    }
}

/// `s` without its trailing white space.
pub open spec fn trim_end_spec(s: Seq<char>) -> Seq<char>
    decreases s.len(),
{
    if s.len() > 0 && unicode_white_space(s.last()) {
        trim_end_spec(s.drop_last())
    } else {
        s
    }
}

/// `s` without leading and trailing white space, as `str::trim` leaves it.
pub open spec fn trim_spec(s: Seq<char>) -> Seq<char> {
    trim_end_spec(trim_start_spec(s))
}

/// `chars` as a string, without leading and trailing white space.
pub fn trim_chars(chars: &Vec<char>) -> (out: String)
    ensures
        out@ == trim_spec(chars@),
{
    let ghost e = chars@;
    // Trim leading white space.
    let mut start: usize = 0;
    assert(e.subrange(0, e.len() as int) =~= e);
    while start < chars.len() && is_whitespace(chars[start])
        invariant
            chars@ == e,
            0 <= start <= chars.len(),
            trim_start_spec(e) == trim_start_spec(e.subrange(start as int, e.len() as int)),
        decreases chars.len() - start,
    {
        proof {
            let rest = e.subrange(start as int, e.len() as int);
            assert(rest.drop_first() =~= e.subrange(start + 1, e.len() as int));
        }
        start = start + 1;
    }
    let ghost front = e.subrange(start as int, e.len() as int);
    assert(trim_start_spec(front) == front);
    // Trim trailing white space.
    let mut end: usize = chars.len();
    while end > start && is_whitespace(chars[end - 1])
        invariant
            chars@ == e,
            start <= end <= chars.len(),
            front == e.subrange(start as int, e.len() as int),
            trim_end_spec(front) == trim_end_spec(e.subrange(start as int, end as int)),
        decreases end - start,
    {
        proof {
            let mid = e.subrange(start as int, end as int);
            assert(mid.drop_last() =~= e.subrange(start as int, end - 1));
            assert(mid.last() == e[end - 1]);
        }
        end = end - 1;
    }
    proof {
        let mid = e.subrange(start as int, end as int);
        if end > start {
            assert(mid.last() == e[end - 1]);
        }
        assert(trim_end_spec(mid) == mid);
    }
    let mut out = String::new();
    let mut k: usize = start;
    while k < end
        invariant
            chars@ == e,
            start <= k <= end <= chars.len(),
            out@ == e.subrange(start as int, k as int),
        decreases end - k,
    {
        push_char(&mut out, chars[k]);
        k = k + 1;
        assert(out@ =~= e.subrange(start as int, k as int));
    }
    out
}

proof fn lemma_trim_start_is_suffix(s: Seq<char>)
    ensures
        exists|i: int| 0 <= i <= s.len() && trim_start_spec(s) == #[trigger] s.subrange(i, s.len() as int),
    decreases s.len(),
{
    if s.len() > 0 && unicode_white_space(s[0]) {
        lemma_trim_start_is_suffix(s.drop_first());
        let i = choose|i: int|
            0 <= i <= s.drop_first().len() && trim_start_spec(s.drop_first()) == #[trigger] s.drop_first().subrange(
                i,
                s.drop_first().len() as int,
            );
        assert(s.drop_first().subrange(i, s.drop_first().len() as int) =~= s.subrange(i + 1, s.len() as int));
    } else {
        assert(s.subrange(0, s.len() as int) =~= s);
    }
}

proof fn lemma_trim_end_is_prefix(s: Seq<char>)
    ensures
        exists|j: int| 0 <= j <= s.len() && trim_end_spec(s) == #[trigger] s.subrange(0, j),
    decreases s.len(),
{
    if s.len() > 0 && unicode_white_space(s.last()) {
        lemma_trim_end_is_prefix(s.drop_last());
        let j = choose|j: int|
            0 <= j <= s.drop_last().len() && trim_end_spec(s.drop_last()) == #[trigger] s.drop_last().subrange(0, j);
        assert(s.drop_last().subrange(0, j) =~= s.subrange(0, j));
    } else {
        assert(s.subrange(0, s.len() as int) =~= s);
    }
}

/// Trimming keeps a contiguous slice of the text.
pub proof fn lemma_trim_is_slice(s: Seq<char>)
    ensures
        exists|st: int, en: int| 0 <= st <= en <= s.len() && trim_spec(s) == s.subrange(st, en),
{
    lemma_trim_start_is_suffix(s);
    let i = choose|i: int| 0 <= i <= s.len() && trim_start_spec(s) == #[trigger] s.subrange(i, s.len() as int);
    let t = trim_start_spec(s);
    lemma_trim_end_is_prefix(t);
    let j = choose|j: int| 0 <= j <= t.len() && trim_end_spec(t) == #[trigger] t.subrange(0, j);
    assert(t.subrange(0, j) =~= s.subrange(i, i + j));
}

/// Every character of `s` is white space.
pub open spec fn all_white(s: Seq<char>) -> bool {
    forall|i: int| 0 <= i < s.len() ==> unicode_white_space(#[trigger] s[i])
}

/// `s` neither starts nor ends with white space.
pub open spec fn is_trimmed(s: Seq<char>) -> bool {
    s.len() > 0 ==> !unicode_white_space(s[0]) && !unicode_white_space(s.last())
}

/// Leading white space, then what trimming the start leaves.
proof fn lemma_trim_start_parts(s: Seq<char>)
    ensures
        exists|i: int|
            0 <= i <= s.len() && all_white(#[trigger] s.take(i)) && trim_start_spec(s) == s.skip(i),
        trim_start_spec(s).len() > 0 ==> !unicode_white_space(trim_start_spec(s)[0]),
    decreases s.len(),
{
    if s.len() > 0 && unicode_white_space(s[0]) {
        let t = s.drop_first();
        lemma_trim_start_parts(t);
        let i = choose|i: int| 0 <= i <= t.len() && all_white(#[trigger] t.take(i)) && trim_start_spec(t) == t.skip(i);
        assert(s.take(i + 1) =~= seq![s[0]] + t.take(i));
        assert(all_white(s.take(i + 1))) by {
            assert forall|k: int| 0 <= k < s.take(i + 1).len() implies unicode_white_space(
                #[trigger] s.take(i + 1)[k],
            ) by {
                if k > 0 {
                    assert(s.take(i + 1)[k] == t.take(i)[k - 1]);
                }
            }
        }
        assert(t.skip(i) =~= s.skip(i + 1));
    } else {
        assert(s.take(0) =~= Seq::<char>::empty());
        assert(s.skip(0) =~= s);
    }
}

/// What trimming the end leaves, then trailing white space.
proof fn lemma_trim_end_parts(s: Seq<char>)
    ensures
        exists|j: int|
            0 <= j <= s.len() && all_white(#[trigger] s.skip(j)) && trim_end_spec(s) == s.take(j),
        trim_end_spec(s).len() > 0 ==> !unicode_white_space(trim_end_spec(s).last()),
    decreases s.len(),
{
    if s.len() > 0 && unicode_white_space(s.last()) {
        let t = s.drop_last();
        lemma_trim_end_parts(t);
        let j = choose|j: int| 0 <= j <= t.len() && all_white(#[trigger] t.skip(j)) && trim_end_spec(t) == t.take(j);
        assert(s.skip(j) =~= t.skip(j).push(s.last()));
        assert(all_white(s.skip(j))) by {
            assert forall|k: int| 0 <= k < s.skip(j).len() implies unicode_white_space(#[trigger] s.skip(j)[k]) by {
                if k < t.skip(j).len() {
                    assert(s.skip(j)[k] == t.skip(j)[k]);
                }
            }
        }
        assert(t.take(j) =~= s.take(j));
    } else {
        assert(s.skip(s.len() as int) =~= Seq::<char>::empty());
        assert(s.take(s.len() as int) =~= s);
    }
}

/// Text is its trim between leading and trailing white space.
proof fn lemma_trim_parts(s: Seq<char>)
    ensures
        is_trimmed(trim_spec(s)),
        exists|l: Seq<char>, r: Seq<char>| all_white(l) && all_white(r) && s == l + trim_spec(s) + r,
{
    lemma_trim_start_parts(s);
    let i = choose|i: int| 0 <= i <= s.len() && all_white(#[trigger] s.take(i)) && trim_start_spec(s) == s.skip(i);
    let u = trim_start_spec(s);
    lemma_trim_end_parts(u);
    let j = choose|j: int| 0 <= j <= u.len() && all_white(#[trigger] u.skip(j)) && trim_end_spec(u) == u.take(j);
    let m = trim_spec(s);
    if m.len() > 0 {
        assert(m[0] == u[0]);
    }
    assert(s =~= s.take(i) + m + u.skip(j));
}

/// White space before and after trimmed text is trimmed away.
proof fn lemma_trim_around(l: Seq<char>, e: Seq<char>, r: Seq<char>)
    requires
        all_white(l),
        all_white(r),
        is_trimmed(e),
    ensures
        trim_spec(l + e + r) == e,
    decreases l.len(), r.len(),
{
    if l.len() > 0 {
        assert((l + e + r).drop_first() =~= l.drop_first() + e + r);
        assert(all_white(l.drop_first())) by {
            assert forall|k: int| 0 <= k < l.drop_first().len() implies unicode_white_space(
                #[trigger] l.drop_first()[k],
            ) by {
                assert(l.drop_first()[k] == l[k + 1]);
            }
        }
        assert(unicode_white_space((l + e + r)[0])) by {
            assert((l + e + r)[0] == l[0]);
        }
        lemma_trim_around(l.drop_first(), e, r);
    } else if r.len() > 0 {
        assert(l + e + r =~= e + r);
        lemma_trim_start_of(e, r);
        if e.len() == 0 {
            lemma_trim_end_white(r);
        } else {
            lemma_trim_end_of(e, r);
        }
    } else {
        assert(l + e + r =~= e);
        if e.len() > 0 {
            assert(trim_start_spec(e) == e);
            assert(trim_end_spec(e) == e);
        }
    }
}

/// Trimming the start of trimmed text followed by white space changes nothing,
/// or leaves nothing when the text is empty.
proof fn lemma_trim_start_of(e: Seq<char>, r: Seq<char>)
    requires
        all_white(r),
        is_trimmed(e),
    ensures
        e.len() > 0 ==> trim_start_spec(e + r) == e + r,
        e.len() == 0 ==> trim_start_spec(e + r) == Seq::<char>::empty(),
    decreases r.len(),
{
    if e.len() > 0 {
        assert((e + r)[0] == e[0]);
    } else if r.len() > 0 {
        assert(e + r =~= r);
        assert(unicode_white_space(r[0]));
        assert((e + r).drop_first() =~= e + r.drop_first());
        assert(all_white(r.drop_first())) by {
            assert forall|k: int| 0 <= k < r.drop_first().len() implies unicode_white_space(
                #[trigger] r.drop_first()[k],
            ) by {
                assert(r.drop_first()[k] == r[k + 1]);
            }
        }
        lemma_trim_start_of(e, r.drop_first());
    } else {
        assert(e + r =~= Seq::<char>::empty());
    }
}

/// Trimming the end of white space leaves nothing.
proof fn lemma_trim_end_white(r: Seq<char>)
    requires
        all_white(r),
    ensures
        trim_end_spec(r) == Seq::<char>::empty(),
    decreases r.len(),
{
    if r.len() > 0 {
        assert(unicode_white_space(r[r.len() - 1]));
        assert(all_white(r.drop_last())) by {
            assert forall|k: int| 0 <= k < r.drop_last().len() implies unicode_white_space(
                #[trigger] r.drop_last()[k],
            ) by {
                assert(r.drop_last()[k] == r[k]);
            }
        }
        lemma_trim_end_white(r.drop_last());
    }
}

/// Trimming the end of non-empty trimmed text followed by white space gives
/// the text.
proof fn lemma_trim_end_of(e: Seq<char>, r: Seq<char>)
    requires
        all_white(r),
        is_trimmed(e),
        e.len() > 0,
    ensures
        trim_end_spec(e + r) == e,
    decreases r.len(),
{
    if r.len() > 0 {
        assert((e + r).last() == r.last());
        assert(unicode_white_space(r[r.len() - 1]));
        assert((e + r).drop_last() =~= e + r.drop_last());
        assert(all_white(r.drop_last())) by {
            assert forall|k: int| 0 <= k < r.drop_last().len() implies unicode_white_space(
                #[trigger] r.drop_last()[k],
            ) by {
                assert(r.drop_last()[k] == r[k]);
            }
        }
        lemma_trim_end_of(e, r.drop_last());
    } else {
        assert(e + r =~= e);
        assert(!unicode_white_space(e.last()));
    }
}

/// The HTML escape of one character.
pub open spec fn escape_char(c: char) -> Seq<char> {
    if c == '<' {
        "&lt;"@
    } else if c == '>' {
        "&gt;"@
    } else if c == '"' {
        "&quot;"@
    } else if c == '\'' {
        "&#x27;"@
    } else {
        seq![c]
    }
}

/// `s` with `<`, `>`, `"` and `'` replaced by their HTML entities.
pub open spec fn escape_html(s: Seq<char>) -> Seq<char>
    decreases s.len(),
{
    if s.len() == 0 {
        Seq::empty()
    } else {
        escape_html(s.drop_last()) + escape_char(s.last())
    }
}

/// A character that could open markup or end an attribute value.
pub open spec fn is_markup_char(c: char) -> bool {
    c == '<' || c == '>' || c == '"' || c == '\''
}

proof fn lemma_escape_char_safe(c: char)
    ensures
        forall|k: int| 0 <= k < escape_char(c).len() ==> !is_markup_char(#[trigger] escape_char(c)[k]),
{
    reveal_strlit("&lt;");
    reveal_strlit("&gt;");
    reveal_strlit("&quot;");
    reveal_strlit("&#x27;");
}

proof fn lemma_escape_html_safe(s: Seq<char>)
    ensures
        forall|k: int| 0 <= k < escape_html(s).len() ==> !is_markup_char(#[trigger] escape_html(s)[k]),
    decreases s.len(),
{
    if s.len() > 0 {
        lemma_escape_html_safe(s.drop_last());
        lemma_escape_char_safe(s.last());
        let a = escape_html(s.drop_last());
        let b = escape_char(s.last());
        assert forall|k: int| 0 <= k < escape_html(s).len() implies !is_markup_char(
            #[trigger] escape_html(s)[k],
        ) by {
            if k < a.len() {
                assert(escape_html(s)[k] == a[k]);
            } else {
                assert(escape_html(s)[k] == b[k - a.len()]);
            }
        }
    }
}

proof fn lemma_escape_concat(a: Seq<char>, b: Seq<char>)
    ensures
        escape_html(a + b) == escape_html(a) + escape_html(b),
    decreases b.len(),
{
    if b.len() == 0 {
        assert(a + b =~= a);
        assert(escape_html(a) + escape_html(b) =~= escape_html(a));
    } else {
        assert((a + b).drop_last() =~= a + b.drop_last());
        assert((a + b).last() == b.last());
        lemma_escape_concat(a, b.drop_last());
        assert(escape_html(a) + escape_html(b) =~= escape_html(a) + escape_html(b.drop_last()) + escape_char(
            b.last(),
        ));
    }
}

/// Text without markup characters escapes to itself.
proof fn lemma_escape_plain(s: Seq<char>)
    requires
        forall|i: int| 0 <= i < s.len() ==> !is_markup_char(#[trigger] s[i]),
    ensures
        escape_html(s) == s,
    decreases s.len(),
{
    if s.len() > 0 {
        assert(!is_markup_char(s[s.len() - 1]));
        lemma_escape_plain(s.drop_last());
        assert(s.drop_last() + seq![s.last()] =~= s);
    }
}

proof fn lemma_white_is_plain(s: Seq<char>)
    requires
        all_white(s),
    ensures
        escape_html(s) == s,
{
    assert forall|i: int| 0 <= i < s.len() implies !is_markup_char(#[trigger] s[i]) by {
        assert(unicode_white_space(s[i]));
    }
    lemma_escape_plain(s);
}

/// Escaping keeps trimmed text trimmed: an entity starts with `&` and ends
/// with `;`.
proof fn lemma_escape_trimmed(m: Seq<char>)
    requires
        is_trimmed(m),
    ensures
        is_trimmed(escape_html(m)),
{
    reveal_strlit("&lt;");
    reveal_strlit("&gt;");
    reveal_strlit("&quot;");
    reveal_strlit("&#x27;");
    if m.len() > 0 {
        let first = escape_char(m[0]);
        let last = escape_char(m.last());
        assert(first.len() > 0 && !unicode_white_space(first[0]));
        assert(last.len() > 0 && !unicode_white_space(last.last()));
        assert(m =~= seq![m[0]] + m.drop_first());
        lemma_escape_concat(seq![m[0]], m.drop_first());
        assert(seq![m[0]].drop_last() =~= Seq::<char>::empty());
        assert(seq![m[0]].last() == m[0]);
        assert(escape_html(Seq::<char>::empty()) == Seq::<char>::empty());
        assert(escape_html(seq![m[0]]) == Seq::<char>::empty() + first);
        assert(escape_html(seq![m[0]]) =~= first);
        let e = escape_html(m);
        assert(e[0] == first[0]);
        assert(e == escape_html(m.drop_last()) + last);
        assert(e.last() == last.last());
    }
}

/// Law: sanitizing is idempotent. Sanitized text comes back unchanged from a
/// second sanitization: nothing is escaped twice.
pub proof fn lemma_sanitize_idempotent(s: Seq<char>)
    ensures
        trim_spec(escape_html(trim_spec(escape_html(s)))) == trim_spec(escape_html(s)),
{
    let e = escape_html(s);
    let o = trim_spec(e);
    lemma_escape_html_safe(s);
    lemma_trim_is_slice(e);
    let (st, en) = choose|st: int, en: int| 0 <= st <= en <= e.len() && trim_spec(e) == e.subrange(st, en);
    assert forall|k: int| 0 <= k < o.len() implies !is_markup_char(#[trigger] o[k]) by {
        assert(o[k] == e[st + k]);
    }
    lemma_escape_plain(o);
    lemma_trim_parts(e);
    lemma_trim_around(Seq::empty(), o, Seq::empty());
    assert(Seq::<char>::empty() + o + Seq::<char>::empty() =~= o);
}

/// Law: sanitizing ignores surrounding white space. Text and its trim
/// sanitize to the same result.
pub proof fn lemma_sanitize_ignores_surrounding_space(s: Seq<char>)
    ensures
        trim_spec(escape_html(trim_spec(s))) == trim_spec(escape_html(s)),
{
    let m = trim_spec(s);
    lemma_trim_parts(s);
    let (l, r) = choose|l: Seq<char>, r: Seq<char>| all_white(l) && all_white(r) && s == l + m + r;
    lemma_escape_concat(l + m, r);
    lemma_escape_concat(l, m);
    lemma_white_is_plain(l);
    lemma_white_is_plain(r);
    lemma_escape_trimmed(m);
    let em = escape_html(m);
    assert(escape_html(s) == l + em + r);
    lemma_trim_around(l, em, r);
    let empty = Seq::<char>::empty();
    assert(all_white(empty));
    lemma_trim_around(empty, em, empty);
    assert(empty + em + empty =~= em);
}

/// What `regex::Regex::new(pattern)` followed by `is_match(text)` gives: `None`
/// when the pattern does not compile, else whether the text matches.
pub uninterp spec fn regex_is_match(pattern: Seq<char>, text: Seq<char>) -> Option<bool>;

/// The username pattern: 3 to 20 ASCII letters, digits or underscores.
pub open spec fn username_pattern() -> Seq<char> {
    "^[a-zA-Z0-9_]{3,20}$"@
}

/// The printable-ASCII pattern: every character from space to tilde.
pub open spec fn printable_ascii_pattern() -> Seq<char> {
    "^[\\x20-\\x7E]*$"@
}

/// A character of the class `[a-zA-Z0-9_]`.
pub open spec fn is_word_char(c: char) -> bool {
    ('a' <= c && c <= 'z') || ('A' <= c && c <= 'Z') || ('0' <= c && c <= '9') || c == '_'
}

/// An ASCII letter or digit.
pub open spec fn is_ascii_alphanumeric(c: char) -> bool {
    ('a' <= c && c <= 'z') || ('A' <= c && c <= 'Z') || ('0' <= c && c <= '9')
}

/// A character of the class `[\x20-\x7E]`.
pub open spec fn is_printable_ascii(c: char) -> bool {
    ' ' <= c && c <= '~'
}

/// `regex::Regex::new(pattern)` then `Regex::is_match(text)`. Per the regex
/// syntax, `^` and `$` anchor at the ends of the text, a class matches one
/// character, `{3,20}` repeats 3 to 20 times and `*` any number of times; so
/// for the two patterns this library uses the match is stated outright.
#[verifier::external_body]
fn regex_match(pattern: &str, text: &str) -> (res: Option<bool>)
    ensures
        res == regex_is_match(pattern@, text@),
        pattern@ == username_pattern() ==> res == Some(
            3 <= text@.len() <= 20 && forall|i: int| 0 <= i < text@.len() ==> is_word_char(#[trigger] text@[i]),
        ),
        pattern@ == printable_ascii_pattern() ==> res == Some(
            forall|i: int| 0 <= i < text@.len() ==> is_printable_ascii(#[trigger] text@[i]),
        ),
{
    match regex::Regex::new(pattern) {
        Ok(re) => Some(re.is_match(text)),
        Err(_) => None,
    }
}

proof fn lemma_printable_byte_len(s: &str)
    ensures
        (forall|i: int| 0 <= i < s@.len() ==> is_printable_ascii(#[trigger] s@[i])) ==> s.spec_bytes().len()
            == s@.len(),
{
    if forall|i: int| 0 <= i < s@.len() ==> is_printable_ascii(#[trigger] s@[i]) {
        assert(vstd::string::is_ascii(s)) by {
            assert forall|i: int| 0 <= i < s@.len() implies '\0' <= #[trigger] s@[i] <= '\u{7f}' by {
                assert(is_printable_ascii(s@[i]));
            }
        }
    }
}

/// The username rules: 3 to 20 ASCII letters, digits or underscores.
pub open spec fn valid_username(u: Seq<char>) -> bool {
    3 <= u.len() <= 20 && forall|i: int| 0 <= i < u.len() ==> is_word_char(#[trigger] u[i])
}

/// The password rules: 8 to 128 characters, all printable ASCII, with an
/// uppercase letter, a lowercase letter, a digit and a character that is
/// neither letter nor digit.
pub open spec fn strong_password(p: Seq<char>) -> bool {
    &&& 8 <= p.len() <= 128
    &&& forall|i: int| 0 <= i < p.len() ==> is_printable_ascii(#[trigger] p[i])
    &&& exists|i: int| 0 <= i < p.len() && 'A' <= #[trigger] p[i] && p[i] <= 'Z'
    &&& exists|i: int| 0 <= i < p.len() && 'a' <= #[trigger] p[i] && p[i] <= 'z'
    &&& exists|i: int| 0 <= i < p.len() && '0' <= #[trigger] p[i] && p[i] <= '9'
    &&& exists|i: int| 0 <= i < p.len() && !is_ascii_alphanumeric(#[trigger] p[i])
}

/// Service: input sanitization and validation.
pub struct InputValidator;

impl InputValidator {
    /// Validates a username: 3 to 20 ASCII letters, digits or underscores.
    pub fn validate_username(username: &str) -> (ok: bool)
        ensures
            ok == valid_username(username@),
    {
        match regex_match("^[a-zA-Z0-9_]{3,20}$", username) {
            Some(m) => m,
            None => false,
        }
    }

    /// Validates password complexity: 8 to 128 printable ASCII characters with
    /// at least one uppercase letter, one lowercase letter, one digit and one
    /// special character.
    pub fn validate_password(password: &str) -> (ok: bool)
        ensures
            ok == strong_password(password@),
    {
        let byte_len = password.len();
        if byte_len < 8 || byte_len > 128 {
            proof {
                lemma_printable_byte_len(password);
            }
            return false;
        }
        let printable = match regex_match("^[\\x20-\\x7E]*$", password) {
            Some(m) => m,
            None => false,
        };
        if !printable {
            return false;
        }
        proof {
            lemma_printable_byte_len(password);
        }
        let chars = chars_of(password);
        let mut has_upper = false;
        let mut has_lower = false;
        let mut has_number = false;
        let mut has_special = false;
        let mut i: usize = 0;
        while i < chars.len()
            invariant
                chars@ == password@,
                0 <= i <= chars.len(),
                has_upper == exists|j: int| 0 <= j < i && 'A' <= #[trigger] chars@[j] && chars@[j] <= 'Z',
                has_lower == exists|j: int| 0 <= j < i && 'a' <= #[trigger] chars@[j] && chars@[j] <= 'z',
                has_number == exists|j: int| 0 <= j < i && '0' <= #[trigger] chars@[j] && chars@[j] <= '9',
                has_special == exists|j: int| 0 <= j < i && !is_ascii_alphanumeric(#[trigger] chars@[j]),
            decreases chars.len() - i,
        {
            let c = chars[i];
            if 'A' <= c && c <= 'Z' {
                has_upper = true;
            }
            if 'a' <= c && c <= 'z' {
                has_lower = true;
            }
            if '0' <= c && c <= '9' {
                has_number = true;
            }
            if !(('a' <= c && c <= 'z') || ('A' <= c && c <= 'Z') || ('0' <= c && c <= '9')) {
                has_special = true;
            }
            i = i + 1;
        }
        has_upper && has_lower && has_number && has_special
    }

    /// Sanitizes free text against basic XSS: `<`, `>`, `"` and `'` become
    /// their HTML entities, then surrounding white space is trimmed.
    pub fn sanitize_text(input: &str) -> (out: String)
        ensures
            out@ == trim_spec(escape_html(input@)),
            forall|k: int| 0 <= k < out@.len() ==> !is_markup_char(#[trigger] out@[k]),
    {
        let chars = chars_of(input);
        let mut escaped: Vec<char> = Vec::new();
        let mut i: usize = 0;
        assert(chars@.take(0) =~= Seq::<char>::empty());
        while i < chars.len()
            invariant
                chars@ == input@,
                0 <= i <= chars.len(),
                escaped@ == escape_html(chars@.take(i as int)),
            decreases chars.len() - i,
        {
            let c = chars[i];
            let ghost before = escaped@;
            if c == '<' {
                escaped.push('&');
                escaped.push('l');
                escaped.push('t');
                escaped.push(';');
            } else if c == '>' {
                escaped.push('&');
                escaped.push('g');
                escaped.push('t');
                escaped.push(';');
            } else if c == '"' {
                escaped.push('&');
                escaped.push('q');
                escaped.push('u');
                escaped.push('o');
                escaped.push('t');
                escaped.push(';');
            } else if c == '\'' {
                escaped.push('&');
                escaped.push('#');
                escaped.push('x');
                escaped.push('2');
                escaped.push('7');
                escaped.push(';');
            } else {
                escaped.push(c);
            }
            proof {
                reveal_strlit("&lt;");
                reveal_strlit("&gt;");
                reveal_strlit("&quot;");
                reveal_strlit("&#x27;");
                assert(chars@.take(i + 1).drop_last() =~= chars@.take(i as int));
                assert(chars@.take(i + 1).last() == c);
                assert(escaped@ =~= before + escape_char(c));
            }
            i = i + 1;
        }
        assert(chars@.take(chars.len() as int) =~= chars@);
        let out = trim_chars(&escaped);
        proof {
            lemma_escape_html_safe(input@);
            lemma_trim_is_slice(escaped@);
            let (st, en) = choose|st: int, en: int| 0 <= st <= en <= escaped@.len() && trim_spec(escaped@) == escaped@.subrange(st, en);
            assert forall|k: int| 0 <= k < out@.len() implies !is_markup_char(#[trigger] out@[k]) by {
                assert(out@[k] == escaped@[st + k]);
            }
        }
        out
    }
}
} // verus!
