//! Text helpers shared with the surrounding application: validation of
//! contact fields, normalisation for duplicate detection, file-name
//! sanitising, and edit distance.
//!
//! Whitespace, letters and lowercasing follow std's Unicode semantics,
//! stated through trusted contracts for `char::is_whitespace`,
//! `char::is_alphanumeric` and `str::to_lowercase`; digit tests are the
//! exact ASCII range, as the callers use `char::is_ascii_digit`. The edit
//! distance works over the UTF-8 bytes of its arguments.

use vstd::prelude::*;
use vstd::string::StrSliceExecFns;
use vstd::string::StringExecFns;
use vstd::string::StringSliceAdditionalSpecFns;

verus! {

/// What std's `char::is_whitespace` returns: whether the character has the
/// Unicode whitespace property, a function of the character alone.
pub uninterp spec fn unicode_whitespace(c: char) -> bool;

/// What std's `char::is_alphanumeric` returns: whether the character is a
/// Unicode letter or number, a function of the character alone.
pub uninterp spec fn unicode_alphanumeric(c: char) -> bool;

/// What std's `str::to_lowercase` produces for a string: its Unicode
/// lowercase form, a function of the characters alone.
pub uninterp spec fn lower_of(s: Seq<char>) -> Seq<char>;

/// Relies on std's `char::is_whitespace`.
#[verifier::external_body]
pub fn is_space(c: char) -> (r: bool)
    ensures
        r == unicode_whitespace(c),
{
    c.is_whitespace()
}

/// Relies on std's `char::is_alphanumeric`.
#[verifier::external_body]
pub fn is_alnum(c: char) -> (r: bool)
    ensures
        r == unicode_alphanumeric(c),
{
    c.is_alphanumeric()
}

/// Relies on std's `str::to_lowercase`: the result depends on the
/// characters alone, and the empty string stays empty.
#[verifier::external_body]
pub fn to_lowercase(s: &str) -> (r: String)
    ensures
        r@ == lower_of(s@),
        s@.len() == 0 ==> r@.len() == 0,
{
    s.to_lowercase()
}

/// ASCII digit — the exact range `char::is_ascii_digit` accepts.
pub open spec fn is_digit_char(c: char) -> bool {
    '0' <= c && c <= '9'
}

/// Executable form of [`is_digit_char`].
pub fn is_digit(c: char) -> (r: bool)
    ensures
        r == is_digit_char(c),
{
    '0' <= c && c <= '9'
}

/// Every character is whitespace (true of the empty sequence).
pub open spec fn all_space(s: Seq<char>) -> bool {
    forall|i: int| 0 <= i < s.len() ==> unicode_whitespace(#[trigger] s[i])
}

/// The sequence without its leading whitespace.
pub open spec fn trim_front(s: Seq<char>) -> Seq<char>
    decreases s.len(),
{
    if s.len() > 0 && unicode_whitespace(s[0]) {
        trim_front(s.drop_first())
    } else {
        s
    }
}

/// The sequence without its trailing whitespace.
pub open spec fn trim_back(s: Seq<char>) -> Seq<char>
    decreases s.len(),
{
    if s.len() > 0 && unicode_whitespace(s.last()) {
        trim_back(s.drop_last())
    } else {
        s
    }
}

/// The sequence without leading and trailing whitespace — what `str::trim`
/// leaves, which trims by `char::is_whitespace`.
pub open spec fn trim_seq(s: Seq<char>) -> Seq<char> {
    trim_back(trim_front(s))
}

proof fn lemma_trim_front_at(s: Seq<char>, i: int)
    requires
        0 <= i <= s.len(),
        forall|k: int| 0 <= k < i ==> unicode_whitespace(#[trigger] s[k]),
        i < s.len() ==> !unicode_whitespace(s[i]),
    ensures
        trim_front(s) == s.subrange(i, s.len() as int),
    decreases i,
{
    if i == 0 {
        assert(s.subrange(0, s.len() as int) =~= s);
    } else {
        let t = s.drop_first();
        assert(forall|k: int| 0 <= k < i - 1 ==> unicode_whitespace(#[trigger] t[k]));
        lemma_trim_front_at(t, i - 1);
        assert(t.subrange(i - 1, t.len() as int) =~= s.subrange(i, s.len() as int));
    }
}

proof fn lemma_trim_back_at(s: Seq<char>, j: int)
    requires
        0 <= j <= s.len(),
        forall|k: int| j <= k < s.len() ==> unicode_whitespace(#[trigger] s[k]),
        j > 0 ==> !unicode_whitespace(s[j - 1]),
    ensures
        trim_back(s) == s.subrange(0, j),
    decreases s.len() - j,
{
    if j == s.len() {
        assert(s.subrange(0, s.len() as int) =~= s);
    } else {
        let t = s.drop_last();
        assert(forall|k: int| j <= k < t.len() ==> unicode_whitespace(#[trigger] t[k]));
        lemma_trim_back_at(t, j);
        assert(t.subrange(0, j) =~= s.subrange(0, j));
    }
}

/// Relies on std's `String::push`: appends the character to the string.
#[verifier::external_body]
pub fn push_char(s: &mut String, c: char)
    ensures
        final(s)@ == old(s)@.push(c),
{
    s.push(c);
}

/// The characters of a string slice, as a vector.
pub fn chars_of(s: &str) -> (r: Vec<char>)
    ensures
        r@ == s@,
{
    let n = s.unicode_len();
    let mut r: Vec<char> = Vec::new();
    let mut i: usize = 0;
    while i < n
        invariant
            i <= n == s@.len(),
            r@ == s@.subrange(0, i as int),
        decreases n - i,
    {
        r.push(s.get_char(i));
        proof {
            assert(s@.subrange(0, i + 1 as int) =~= s@.subrange(0, i as int).push(s@[i as int]));
        }
        i = i + 1;
    }
    proof {
        assert(s@.subrange(0, n as int) =~= s@);
    }
    r
}

/// A string holding exactly the given characters.
pub fn chars_to_string(v: &Vec<char>) -> (r: String)
    ensures
        r@ == v@,
{
    let mut r = String::new();
    let mut i: usize = 0;
    while i < v.len()
        invariant
            i <= v@.len(),
            r@ == v@.subrange(0, i as int),
        decreases v@.len() - i,
    {
        push_char(&mut r, v[i]);
        proof {
            assert(v@.subrange(0, i + 1 as int) =~= v@.subrange(0, i as int).push(v@[i as int]));
        }
        i = i + 1;
    }
    proof {
        assert(v@.subrange(0, v@.len() as int) =~= v@);
    }
    r
}

/// Drops leading and trailing whitespace.
pub fn trim_chars(v: &Vec<char>) -> (r: Vec<char>)
    ensures
        r@ == trim_seq(v@),
{
    let n = v.len();
    let mut start: usize = 0;
    while start < n && is_space(v[start])
        invariant
            start <= n == v@.len(),
            forall|k: int| 0 <= k < start ==> unicode_whitespace(#[trigger] v@[k]),
        decreases n - start,
    {
        start = start + 1;
    }
    proof {
        lemma_trim_front_at(v@, start as int);
    }
    let ghost fronted = v@.subrange(start as int, n as int);
    let mut end: usize = n;
    while end > start && is_space(v[end - 1])
        invariant
            start <= end <= n == v@.len(),
            forall|k: int| end <= k < n ==> unicode_whitespace(#[trigger] v@[k]),
        decreases end,
    {
        end = end - 1;
    }
    proof {
        assert(forall|k: int| #![auto] (end - start) <= k < fronted.len() ==> unicode_whitespace(
            fronted[k],
        ));
        lemma_trim_back_at(fronted, end - start);
    }
    let mut r: Vec<char> = Vec::new();
    let mut i: usize = start;
    while i < end
        invariant
            start <= i <= end <= v@.len(),
            r@ == v@.subrange(start as int, i as int),
        decreases end - i,
    {
        r.push(v[i]);
        proof {
            assert(v@.subrange(start as int, i + 1 as int) =~= v@.subrange(
                start as int,
                i as int,
            ).push(v@[i as int]));
        }
        i = i + 1;
    }
    proof {
        assert(r@ =~= fronted.subrange(0, end - start));
    }
    r
}

/// Executable form of [`all_space`] on a character vector.
pub fn all_space_chars(v: &Vec<char>) -> (r: bool)
    ensures
        r == all_space(v@),
{
    let mut i: usize = 0;
    while i < v.len()
        invariant
            i <= v@.len(),
            forall|k: int| 0 <= k < i ==> unicode_whitespace(#[trigger] v@[k]),
        decreases v@.len() - i,
    {
        if !is_space(v[i]) {
            return false;
        }
        i = i + 1;
    }
    true
}

} // verus!

verus! {

/// The view of an optional string.
pub open spec fn opt_str_view(v: Option<String>) -> Option<Seq<char>> {
    match v {
        None => None,
        Some(s) => Some(s@),
    }
}

/// `s` starts with `prefix`.
pub open spec fn starts_with_spec(s: Seq<char>, prefix: Seq<char>) -> bool {
    s.len() >= prefix.len() && s.subrange(0, prefix.len() as int) == prefix
}

/// `s` ends with `suffix`.
pub open spec fn ends_with_spec(s: Seq<char>, suffix: Seq<char>) -> bool {
    s.len() >= suffix.len() && s.subrange(s.len() - suffix.len(), s.len() as int) == suffix
}

/// Whether the character vector starts with the given string.
pub fn starts_with_chars(v: &Vec<char>, prefix: &str) -> (r: bool)
    ensures
        r == starts_with_spec(v@, prefix@),
{
    let m = prefix.unicode_len();
    if v.len() < m {
        return false;
    }
    let mut j: usize = 0;
    while j < m
        invariant
            j <= m == prefix@.len() <= v@.len(),
            forall|k: int| 0 <= k < j ==> v@[k] == prefix@[k],
        decreases m - j,
    {
        if v[j] != prefix.get_char(j) {
            assert(v@.subrange(0, m as int)[j as int] != prefix@[j as int]);
            return false;
        }
        j = j + 1;
    }
    proof {
        assert(v@.subrange(0, m as int) =~= prefix@);
    }
    true
}

/// Whether the character vector ends with the given string.
pub fn ends_with_chars(v: &Vec<char>, suffix: &str) -> (r: bool)
    ensures
        r == ends_with_spec(v@, suffix@),
{
    let m = suffix.unicode_len();
    let n = v.len();
    if n < m {
        return false;
    }
    let mut j: usize = 0;
    while j < m
        invariant
            j <= m == suffix@.len() <= n == v@.len(),
            forall|k: int| 0 <= k < j ==> v@[n - m + k] == suffix@[k],
        decreases m - j,
    {
        if v[n - m + j] != suffix.get_char(j) {
            assert(v@.subrange(n - m, n as int)[j as int] != suffix@[j as int]);
            return false;
        }
        j = j + 1;
    }
    proof {
        assert(v@.subrange(n - m, n as int) =~= suffix@);
    }
    true
}

/// What sanitising an attachment file name produces: every path separator
/// becomes an underscore, and a name that is empty or whitespace-only is
/// replaced by a fixed fallback.
pub open spec fn sanitize_file_name_spec(name: Seq<char>) -> Seq<char> {
    let mapped = Seq::new(
        name.len(),
        |i: int| if name[i] == '\\' || name[i] == '/' { '_' } else { name[i] },
    );
    if all_space(mapped) {
        "attachment"@
    } else {
        mapped
    }
}

/// Replaces path separators in an attachment file name and falls back to a
/// fixed name when nothing printable is left.
pub fn sanitize_file_name(name: &str) -> (r: String)
    ensures
        r@ == sanitize_file_name_spec(name@),
{
    let cs = chars_of(name);
    let mut out: Vec<char> = Vec::new();
    let mut i: usize = 0;
    while i < cs.len()
        invariant
            i <= cs@.len(),
            out@.len() == i,
            forall|k: int| 0 <= k < i ==> out@[k] == (if cs@[k] == '\\' || cs@[k] == '/' {
                '_'
            } else {
                cs@[k]
            }),
        decreases cs@.len() - i,
    {
        let c = cs[i];
        if c == '\\' || c == '/' {
            out.push('_');
        } else {
            out.push(c);
        }
        i = i + 1;
    }
    proof {
        assert(out@ =~= Seq::new(
            name@.len(),
            |i: int| if name@[i] == '\\' || name@[i] == '/' { '_' } else { name@[i] },
        ));
    }
    if all_space_chars(&out) {
        String::from_str("attachment")
    } else {
        chars_to_string(&out)
    }
}

/// Whether a file name (lowercased as `str::to_lowercase` does) carries
/// one of the accepted document suffixes.
pub open spec fn is_allowed_attachment_spec(name: Seq<char>) -> bool {
    let l = lower_of(name);
    ends_with_spec(l, ".pdf"@) || ends_with_spec(l, ".doc"@) || ends_with_spec(l, ".docx"@)
        || ends_with_spec(l, ".ppt"@) || ends_with_spec(l, ".pptx"@)
}

/// Accepts only the document formats attachments may have.
pub fn is_allowed_attachment(file_name: &str) -> (r: bool)
    ensures
        r == is_allowed_attachment_spec(file_name@),
{
    let lowered = to_lowercase(file_name);
    let low = chars_of(lowered.as_str());
    ends_with_chars(&low, ".pdf") || ends_with_chars(&low, ".doc") || ends_with_chars(
        &low,
        ".docx",
    ) || ends_with_chars(&low, ".ppt") || ends_with_chars(&low, ".pptx")
}

} // verus!

verus! {

/// The ASCII digits of a sequence, in order.
pub open spec fn digits_of(s: Seq<char>) -> Seq<char>
    decreases s.len(),
{
    if s.len() == 0 {
        Seq::empty()
    } else if is_digit_char(s.last()) {
        digits_of(s.drop_last()).push(s.last())
    } else {
        digits_of(s.drop_last())
    }
}

/// Collects the ASCII digits of a character vector.
pub fn digit_chars(v: &Vec<char>) -> (r: Vec<char>)
    ensures
        r@ == digits_of(v@),
{
    let mut r: Vec<char> = Vec::new();
    let mut i: usize = 0;
    while i < v.len()
        invariant
            i <= v@.len(),
            r@ == digits_of(v@.subrange(0, i as int)),
        decreases v@.len() - i,
    {
        proof {
            assert(v@.subrange(0, i + 1 as int).drop_last() =~= v@.subrange(0, i as int));
            assert(v@.subrange(0, i + 1 as int).last() == v@[i as int]);
        }
        if is_digit(v[i]) {
            r.push(v[i]);
        }
        i = i + 1;
    }
    proof {
        assert(v@.subrange(0, v@.len() as int) =~= v@);
    }
    r
}

/// What normalising an email for duplicate detection produces: trimmed and
/// lowercased, or nothing when absent or when nothing is left.
pub open spec fn normalize_email_spec(v: Option<Seq<char>>) -> Option<Seq<char>> {
    match v {
        None => None,
        Some(s) => {
            let t = lower_of(trim_seq(s));
            if t.len() == 0 {
                None
            } else {
                Some(t)
            }
        },
    }
}

/// Normalises an email address for duplicate detection.
pub fn normalize_email(value: &Option<String>) -> (r: Option<String>)
    ensures
        opt_str_view(r) == normalize_email_spec(opt_str_view(*value)),
{
    match value {
        None => None,
        Some(s) => {
            let cs = chars_of(s.as_str());
            let t = trim_chars(&cs);
            let trimmed = chars_to_string(&t);
            let low = to_lowercase(trimmed.as_str());
            if low.as_str().unicode_len() == 0 {
                None
            } else {
                Some(low)
            }
        },
    }
}

/// What normalising a phone number produces: its ASCII digits, or nothing
/// when absent or when fewer than six digits remain.
pub open spec fn normalize_phone_spec(v: Option<Seq<char>>) -> Option<Seq<char>> {
    match v {
        None => None,
        Some(s) => {
            let d = digits_of(s);
            if d.len() < 6 {
                None
            } else {
                Some(d)
            }
        },
    }
}

/// Normalises a phone number for duplicate detection.
pub fn normalize_phone(value: &Option<String>) -> (r: Option<String>)
    ensures
        opt_str_view(r) == normalize_phone_spec(opt_str_view(*value)),
{
    match value {
        None => None,
        Some(s) => {
            let cs = chars_of(s.as_str());
            let d = digit_chars(&cs);
            if d.len() < 6 {
                None
            } else {
                Some(chars_to_string(&d))
            }
        },
    }
}

/// The longest slash-free prefix of a sequence.
pub open spec fn before_slash(s: Seq<char>) -> Seq<char>
    decreases s.len(),
{
    if s.len() == 0 {
        s
    } else if s[0] == '/' {
        Seq::empty()
    } else {
        seq![s[0]] + before_slash(s.drop_first())
    }
}

proof fn lemma_before_slash_at(s: Seq<char>, i: int)
    requires
        0 <= i <= s.len(),
        forall|k: int| 0 <= k < i ==> s[k] != '/',
        i < s.len() ==> s[i] == '/',
    ensures
        before_slash(s) == s.subrange(0, i),
    decreases i,
{
    if s.len() == 0 {
        assert(s.subrange(0, 0) =~= s);
    } else if i == 0 {
        assert(s.subrange(0, 0) =~= Seq::<char>::empty());
    } else {
        let t = s.drop_first();
        assert(forall|k: int| 0 <= k < i - 1 ==> t[k] != '/');
        lemma_before_slash_at(t, i - 1);
        assert(seq![s[0]] + t.subrange(0, i - 1) =~= s.subrange(0, i));
    }
}

/// The sequence with a leading URL scheme removed.
pub open spec fn strip_scheme(s: Seq<char>) -> Seq<char> {
    if starts_with_spec(s, "https://"@) {
        s.subrange("https://"@.len() as int, s.len() as int)
    } else if starts_with_spec(s, "http://"@) {
        s.subrange("http://"@.len() as int, s.len() as int)
    } else {
        s
    }
}

/// What normalising a company domain produces: trimmed, scheme stripped,
/// cut at the first slash and trimmed again; nothing when absent or when
/// nothing is left.
pub open spec fn normalize_domain_spec(v: Option<Seq<char>>) -> Option<Seq<char>> {
    match v {
        None => None,
        Some(s) => {
            let t = trim_seq(s);
            if t.len() == 0 {
                None
            } else {
                let host = trim_seq(before_slash(strip_scheme(t)));
                if host.len() == 0 {
                    None
                } else {
                    Some(host)
                }
            }
        },
    }
}

/// Copies `v[start..]` into a fresh vector.
fn tail_chars(v: &Vec<char>, start: usize) -> (r: Vec<char>)
    requires
        start <= v@.len(),
    ensures
        r@ == v@.subrange(start as int, v@.len() as int),
{
    let mut r: Vec<char> = Vec::new();
    let mut i: usize = start;
    while i < v.len()
        invariant
            start <= i <= v@.len(),
            r@ == v@.subrange(start as int, i as int),
        decreases v@.len() - i,
    {
        r.push(v[i]);
        proof {
            assert(v@.subrange(start as int, i + 1 as int) =~= v@.subrange(
                start as int,
                i as int,
            ).push(v@[i as int]));
        }
        i = i + 1;
    }
    r
}

/// The prefix of `v` before its first slash.
fn before_slash_chars(v: &Vec<char>) -> (r: Vec<char>)
    ensures
        r@ == before_slash(v@),
{
    let mut i: usize = 0;
    while i < v.len() && v[i] != '/'
        invariant
            i <= v@.len(),
            forall|k: int| 0 <= k < i ==> v@[k] != '/',
        decreases v@.len() - i,
    {
        i = i + 1;
    }
    proof {
        lemma_before_slash_at(v@, i as int);
    }
    let mut r: Vec<char> = Vec::new();
    let mut j: usize = 0;
    while j < i
        invariant
            j <= i <= v@.len(),
            r@ == v@.subrange(0, j as int),
        decreases i - j,
    {
        r.push(v[j]);
        proof {
            assert(v@.subrange(0, j + 1 as int) =~= v@.subrange(0, j as int).push(v@[j as int]));
        }
        j = j + 1;
    }
    r
}

/// Normalises a company web domain: trims it, strips an `http://` or
/// `https://` scheme, and keeps only the host part before any path.
pub fn normalize_domain(domain: &Option<String>) -> (r: Option<String>)
    ensures
        opt_str_view(r) == normalize_domain_spec(opt_str_view(*domain)),
{
    match domain {
        None => None,
        Some(s) => {
            let cs = chars_of(s.as_str());
            let t = trim_chars(&cs);
            if t.len() == 0 {
                return None;
            }
            let stripped = if starts_with_chars(&t, "https://") {
                let m = "https://".unicode_len();
                tail_chars(&t, m)
            } else if starts_with_chars(&t, "http://") {
                let m = "http://".unicode_len();
                tail_chars(&t, m)
            } else {
                tail_chars(&t, 0)
            };
            proof {
                assert(t@.subrange(0, t@.len() as int) =~= t@);
            }
            let host = trim_chars(&before_slash_chars(&stripped));
            if host.len() == 0 {
                None
            } else {
                Some(chars_to_string(&host))
            }
        },
    }
}

} // verus!

verus! {

/// How many times `c` occurs in `s`.
pub open spec fn count_char(s: Seq<char>, c: char) -> nat
    decreases s.len(),
{
    if s.len() == 0 {
        0
    } else if s.last() == c {
        count_char(s.drop_last(), c) + 1
    } else {
        count_char(s.drop_last(), c)
    }
}

proof fn lemma_count_char_at_least_one(s: Seq<char>, c: char, a: int)
    requires
        0 <= a < s.len(),
        s[a] == c,
    ensures
        count_char(s, c) >= 1,
    decreases s.len(),
{
    if a < s.len() - 1 {
        lemma_count_char_at_least_one(s.drop_last(), c, a);
    }
}

proof fn lemma_count_char_at_least_two(s: Seq<char>, c: char, a: int, b: int)
    requires
        0 <= a < b < s.len(),
        s[a] == c,
        s[b] == c,
    ensures
        count_char(s, c) >= 2,
    decreases s.len(),
{
    if b == s.len() - 1 {
        lemma_count_char_at_least_one(s.drop_last(), c, a);
    } else {
        lemma_count_char_at_least_two(s.drop_last(), c, a, b);
    }
}

/// A trimmed, non-empty email is well formed when it has exactly one `@`
/// and a dot somewhere after it.
pub open spec fn email_shape_ok(t: Seq<char>) -> bool {
    count_char(t, '@') == 1 && exists|i: int, j: int|
        0 <= i < j < t.len() && t[i] == '@' && t[j] == '.'
}

/// What email validation accepts: an absent or blank value passes (the
/// field is optional), and otherwise the trimmed value must have exactly
/// one `@` with a dot after it.
pub open spec fn is_valid_email_spec(v: Option<Seq<char>>) -> bool {
    match v {
        None => true,
        Some(s) => {
            let t = trim_seq(s);
            t.len() == 0 || email_shape_ok(t)
        },
    }
}

/// Validates an optional email field.
#[verifier::loop_isolation(false)]
pub fn is_valid_email(v: &Option<String>) -> (r: bool)
    ensures
        r == is_valid_email_spec(opt_str_view(*v)),
{
    let s = match v {
        None => { return true; },
        Some(s) => s,
    };
    let cs = chars_of(s.as_str());
    let t = trim_chars(&cs);
    let n = t.len();
    if n == 0 {
        return true;
    }
    let mut count: usize = 0;
    let mut at: usize = 0;
    let mut i: usize = 0;
    while i < n
        invariant
            i <= n == t@.len(),
            count == count_char(t@.subrange(0, i as int), '@'),
            count <= i,
            count > 0 ==> at < i && t@[at as int] == '@',
            count == 0 ==> forall|k: int| 0 <= k < i ==> t@[k] != '@',
        decreases n - i,
    {
        proof {
            assert(t@.subrange(0, i + 1 as int).drop_last() =~= t@.subrange(0, i as int));
            assert(t@.subrange(0, i + 1 as int).last() == t@[i as int]);
        }
        if t[i] == '@' {
            if count == 0 {
                at = i;
            }
            count = count + 1;
        }
        i = i + 1;
    }
    proof {
        assert(t@.subrange(0, n as int) =~= t@);
    }
    if count != 1 {
        proof {
            if email_shape_ok(t@) {
            }
        }
        return false;
    }
    let mut j: usize = at + 1;
    while j < n
        invariant
            at < j <= n == t@.len(),
            t@ == trim_seq(s@),
            t@[at as int] == '@',
            count_char(t@, '@') == 1,
            forall|k: int| at < k < j ==> t@[k] != '.',
        decreases n - j,
    {
        if t[j] == '.' {
            proof {
                let tt = trim_seq(s@);
                assert(tt == t@);
                assert(tt[at as int] == '@' && tt[j as int] == '.');
                assert(email_shape_ok(tt));
            }
            return true;
        }
        j = j + 1;
    }
    proof {
        if email_shape_ok(t@) {
            let (i0, j0) = choose|i0: int, j0: int|
                0 <= i0 < j0 < t@.len() && t@[i0] == '@' && t@[j0] == '.';
            if i0 != at {
                if i0 < at {
                    lemma_count_char_at_least_two(t@, '@', i0, at as int);
                } else {
                    lemma_count_char_at_least_two(t@, '@', at as int, i0);
                }
            }
        }
    }
    false
}

/// The characters a phone number may hold.
pub open spec fn is_phone_char(c: char) -> bool {
    is_digit_char(c) || c == '+' || c == '(' || c == ')' || c == '-' || c == ' ' || c == '.'
}

/// What phone validation accepts: an absent or blank value passes, and
/// otherwise the trimmed value must hold only ASCII digits and `+()- .`
/// punctuation, with at least six digits.
pub open spec fn is_valid_phone_spec(v: Option<Seq<char>>) -> bool {
    match v {
        None => true,
        Some(s) => {
            let t = trim_seq(s);
            t.len() == 0 || ((forall|i: int| 0 <= i < t.len() ==> is_phone_char(#[trigger] t[i]))
                && digits_of(t).len() >= 6)
        },
    }
}

/// Validates an optional phone field.
#[verifier::loop_isolation(false)]
pub fn is_valid_phone(v: &Option<String>) -> (r: bool)
    ensures
        r == is_valid_phone_spec(opt_str_view(*v)),
{
    let s = match v {
        None => { return true; },
        Some(s) => s,
    };
    let cs = chars_of(s.as_str());
    let t = trim_chars(&cs);
    let n = t.len();
    if n == 0 {
        return true;
    }
    let mut i: usize = 0;
    while i < n
        invariant
            i <= n == t@.len(),
            t@ == trim_seq(s@),
            forall|k: int| 0 <= k < i ==> is_phone_char(#[trigger] t@[k]),
        decreases n - i,
    {
        let c = t[i];
        if !(is_digit(c) || c == '+' || c == '(' || c == ')' || c == '-' || c == ' ' || c == '.') {
            proof {
                let tt = trim_seq(s@);
                assert(tt == t@);
                assert(!is_phone_char(tt[i as int]));
            }
            return false;
        }
        i = i + 1;
    }
    let d = digit_chars(&t);
    d.len() >= 6
}

} // verus!

verus! {

/// The characters kept when normalising a name: Unicode letters and
/// numbers, and whitespace.
pub open spec fn keep_name_char(c: char) -> bool {
    unicode_alphanumeric(c) || unicode_whitespace(c)
}

/// The subsequence of name characters (letters, numbers, whitespace).
pub open spec fn name_chars(s: Seq<char>) -> Seq<char>
    decreases s.len(),
{
    if s.len() == 0 {
        Seq::empty()
    } else if keep_name_char(s.last()) {
        name_chars(s.drop_last()).push(s.last())
    } else {
        name_chars(s.drop_last())
    }
}

/// Folds a sequence into its whitespace-collapsed form: words separated by
/// a single space, no leading or trailing whitespace. `out` is what was
/// already emitted and `pending` records whether whitespace was seen since
/// the last word character.
pub open spec fn collapse_from(s: Seq<char>, out: Seq<char>, pending: bool) -> Seq<char>
    decreases s.len(),
{
    if s.len() == 0 {
        out
    } else {
        let c = s[0];
        if unicode_whitespace(c) {
            collapse_from(s.drop_first(), out, true)
        } else if pending && out.len() > 0 {
            collapse_from(s.drop_first(), out + seq![' ', c], false)
        } else {
            collapse_from(s.drop_first(), out.push(c), false)
        }
    }
}

/// The whitespace-collapsed form of a sequence.
pub open spec fn collapse_spaces(s: Seq<char>) -> Seq<char> {
    collapse_from(s, Seq::empty(), false)
}

/// What normalising a person's name produces: first and last name joined
/// by a space, everything but letters, numbers and whitespace dropped,
/// lowercased as `str::to_lowercase` does, and whitespace collapsed to
/// single separators.
pub open spec fn normalize_name_spec(first: Seq<char>, last: Seq<char>) -> Seq<char> {
    collapse_spaces(lower_of(name_chars(first + seq![' '] + last)))
}

/// Normalises a person's name for duplicate detection.
#[verifier::loop_isolation(false)]
pub fn normalize_name(first: &str, last: &str) -> (r: String)
    ensures
        r@ == normalize_name_spec(first@, last@),
{
    let f = chars_of(first);
    let l = chars_of(last);
    let mut joined: Vec<char> = f;
    joined.push(' ');
    let mut i: usize = 0;
    while i < l.len()
        invariant
            i <= l@.len(),
            joined@ == first@ + seq![' '] + l@.subrange(0, i as int),
        decreases l@.len() - i,
    {
        joined.push(l[i]);
        proof {
            assert(first@ + seq![' '] + l@.subrange(0, i + 1 as int) =~= (first@ + seq![' ']
                + l@.subrange(0, i as int)).push(l@[i as int]));
        }
        i = i + 1;
    }
    proof {
        assert(l@.subrange(0, l@.len() as int) =~= l@);
    }
    let mut kept: Vec<char> = Vec::new();
    let mut i: usize = 0;
    while i < joined.len()
        invariant
            i <= joined@.len(),
            kept@ == name_chars(joined@.subrange(0, i as int)),
        decreases joined@.len() - i,
    {
        proof {
            assert(joined@.subrange(0, i + 1 as int).drop_last() =~= joined@.subrange(0, i as int));
            assert(joined@.subrange(0, i + 1 as int).last() == joined@[i as int]);
        }
        let c = joined[i];
        if is_alnum(c) || is_space(c) {
            kept.push(c);
        }
        i = i + 1;
    }
    proof {
        assert(joined@.subrange(0, joined@.len() as int) =~= joined@);
    }
    let kept_str = chars_to_string(&kept);
    let lowered = to_lowercase(kept_str.as_str());
    let low = chars_of(lowered.as_str());
    let ghost full = low@;
    let mut out: Vec<char> = Vec::new();
    let mut pending = false;
    let mut i: usize = 0;
    proof {
        assert(full.subrange(0, full.len() as int) =~= full);
    }
    while i < low.len()
        invariant
            i <= full.len() == low@.len(),
            low@ == full,
            collapse_spaces(full) == collapse_from(
                full.subrange(i as int, full.len() as int),
                out@,
                pending,
            ),
        decreases low@.len() - i,
    {
        let ghost rest = full.subrange(i as int, full.len() as int);
        proof {
            assert(rest.len() > 0);
            assert(rest[0] == full[i as int]);
            assert(rest.drop_first() =~= full.subrange(i + 1 as int, full.len() as int));
        }
        let c = low[i];
        if is_space(c) {
            pending = true;
        } else if pending && out.len() > 0 {
            let ghost prev = out@;
            out.push(' ');
            out.push(c);
            proof {
                assert(out@ =~= prev + seq![' ', c]);
            }
            pending = false;
        } else {
            out.push(c);
            pending = false;
        }
        i = i + 1;
    }
    proof {
        assert(full.subrange(full.len() as int, full.len() as int) =~= Seq::<char>::empty());
    }
    chars_to_string(&out)
}

} // verus!

verus! {

/// The smaller of two naturals.
pub open spec fn min_nat(a: nat, b: nat) -> nat {
    if a <= b {
        a
    } else {
        b
    }
}

/// The Levenshtein (edit) distance between two byte sequences: the least
/// number of insertions, deletions and substitutions turning one into the
/// other.
pub open spec fn lev(a: Seq<u8>, b: Seq<u8>) -> nat
    decreases a.len() + b.len(),
{
    if a.len() == 0 {
        b.len()
    } else if b.len() == 0 {
        a.len()
    } else {
        let sub_cost: nat = if a.last() == b.last() {
            0
        } else {
            1
        };
        min_nat(
            min_nat(lev(a.drop_last(), b) + 1, lev(a, b.drop_last()) + 1),
            lev(a.drop_last(), b.drop_last()) + sub_cost,
        )
    }
}

/// The distance never exceeds the two lengths together.
pub proof fn lemma_lev_bound(a: Seq<u8>, b: Seq<u8>)
    ensures
        lev(a, b) <= a.len() + b.len(),
    decreases a.len() + b.len(),
{
    if a.len() > 0 && b.len() > 0 {
        lemma_lev_bound(a.drop_last(), b);
        lemma_lev_bound(a, b.drop_last());
        lemma_lev_bound(a.drop_last(), b.drop_last());
    }
}

/// A UTF-8 encoding never takes more than four bytes per character.
pub(crate) proof fn lemma_encode_utf8_len(chars: Seq<char>)
    ensures
        vstd::utf8::encode_utf8(chars).len() <= 4 * chars.len(),
    decreases chars.len(),
{
    if chars.len() > 0 {
        lemma_encode_utf8_len(chars.drop_first());
        assert(vstd::utf8::encode_scalar(chars[0] as u32).len() <= 4);
    }
}

/// The edit distance between two strings, over their UTF-8 bytes.
#[verifier::loop_isolation(false)]
pub fn levenshtein(a: &str, b: &str) -> (r: usize)
    requires
        4 * (a@.len() + b@.len()) < usize::MAX,
    ensures
        r == lev(a.spec_bytes(), b.spec_bytes()),
{
    proof {
        lemma_encode_utf8_len(a@);
        lemma_encode_utf8_len(b@);
        assert(a.spec_bytes().len() <= 4 * a@.len());
        assert(b.spec_bytes().len() <= 4 * b@.len());
        assert(a.spec_bytes().len() + b.spec_bytes().len() < usize::MAX);
    }
    let av = a.as_bytes_vec();
    let bv = b.as_bytes_vec();
    let ghost ab = a.spec_bytes();
    let ghost bb = b.spec_bytes();
    let m = av.len();
    let n = bv.len();
    if m == 0 {
        proof {
            assert(ab =~= Seq::<u8>::empty());
        }
        return n;
    }
    if n == 0 {
        proof {
            assert(bb =~= Seq::<u8>::empty());
        }
        return m;
    }
    let mut prev: Vec<usize> = Vec::new();
    let mut j: usize = 0;
    while j <= n
        invariant
            j <= n + 1,
            prev@.len() == j,
            forall|k: int| 0 <= k < j ==> prev@[k] == lev(ab.subrange(0, 0), bb.subrange(0, k)),
        decreases n + 1 - j,
    {
        proof {
            assert(ab.subrange(0, 0) =~= Seq::<u8>::empty());
            assert(bb.subrange(0, j as int).len() == j);
        }
        prev.push(j);
        j = j + 1;
    }
    let mut i: usize = 0;
    while i < m
        invariant
            i < m,
            prev@.len() == n + 1,
            forall|k: int| 0 <= k <= n ==> prev@[k] == lev(
                ab.subrange(0, i as int),
                bb.subrange(0, k),
            ),
        decreases m - i,
    {
        let mut curr: Vec<usize> = Vec::new();
        proof {
            assert(bb.subrange(0, 0) =~= Seq::<u8>::empty());
            assert(ab.subrange(0, i + 1 as int).len() == i + 1);
        }
        curr.push(i + 1);
        let mut j: usize = 0;
        while j < n
            invariant
                j <= n,
                curr@.len() == j + 1,
                forall|k: int| 0 <= k <= j ==> curr@[k] == lev(
                    ab.subrange(0, i + 1 as int),
                    bb.subrange(0, k),
                ),
            decreases n - j,
        {
            let ghost ap = ab.subrange(0, i + 1 as int);
            let ghost bp = bb.subrange(0, j + 1 as int);
            proof {
                assert(ap.drop_last() =~= ab.subrange(0, i as int));
                assert(bp.drop_last() =~= bb.subrange(0, j as int));
                assert(ap.last() == ab[i as int]);
                assert(bp.last() == bb[j as int]);
                lemma_lev_bound(ap.drop_last(), bp);
                lemma_lev_bound(ap, bp.drop_last());
                lemma_lev_bound(ap.drop_last(), bp.drop_last());
            }
            let cost: usize = if av[i] == bv[j] {
                0
            } else {
                1
            };
            let del = prev[j + 1] + 1;
            let ins = curr[j] + 1;
            let sub = prev[j] + cost;
            let mut best = if del <= ins {
                del
            } else {
                ins
            };
            if sub < best {
                best = sub;
            }
            curr.push(best);
            j = j + 1;
        }
        prev = curr;
        i = i + 1;
        if i == m {
            proof {
                assert(ab.subrange(0, m as int) =~= ab);
                assert(bb.subrange(0, n as int) =~= bb);
            }
            return prev[n];
        }
    }
    proof {
        assert(false);
    }
    0
}

} // verus!
