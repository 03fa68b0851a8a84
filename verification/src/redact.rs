//! Redaction of session values from text that the user interface may show.
use vstd::prelude::*;
use crate::text::{chars_of, contains_seq, find_chars, find_from, lemma_find_from, occurs_at, string_of};

verus! {

/// The Unicode `White_Space` characters, which `char::is_whitespace` accepts.
pub open spec fn is_white_space(c: char) -> bool {
    ||| ('\u{9}' <= c && c <= '\u{d}')
    ||| c == ' '
    ||| c == '\u{85}'
    ||| c == '\u{a0}'
    ||| c == '\u{1680}'
    ||| ('\u{2000}' <= c && c <= '\u{200a}')
    ||| c == '\u{2028}'
    ||| c == '\u{2029}'
    ||| c == '\u{202f}'
    ||| c == '\u{205f}'
    ||| c == '\u{3000}'
}

/// Whether the character has the Unicode `White_Space` property, as
/// `char::is_whitespace` decides it.
fn char_is_whitespace(c: char) -> (r: bool)
    ensures
        r == is_white_space(c),
{
    ('\u{9}' <= c && c <= '\u{d}') || c == ' ' || c == '\u{85}' || c == '\u{a0}' || c == '\u{1680}'
        || ('\u{2000}' <= c && c <= '\u{200a}') || c == '\u{2028}' || c == '\u{2029}'
        || c == '\u{202f}' || c == '\u{205f}' || c == '\u{3000}'
}

/// A character that ends a redacted value.
pub open spec fn is_value_end(c: char) -> bool {
    c == '&' || c == ' ' || c == '"' || c == '\'' || c == ')' || c == ','
}

/// Number of white-space characters at the start of the text.
pub open spec fn leading_white_space(s: Seq<char>) -> nat
    decreases s.len(),
{
    if s.len() > 0 && is_white_space(s[0]) {
        1 + leading_white_space(s.skip(1))
    } else {
        0
    }
}

/// Position of the first character that ends a value, or the length when there is none.
pub open spec fn value_end(s: Seq<char>) -> nat
    decreases s.len(),
{
    if s.len() == 0 {
        0
    } else if is_value_end(s[0]) {
        0
    } else {
        1 + value_end(s.skip(1))
    }
}

/// The white space counted at the start is white space, followed by something else.
pub proof fn lemma_leading_white_space(s: Seq<char>)
    ensures
        leading_white_space(s) <= s.len(),
        forall|j: int| 0 <= j < leading_white_space(s) ==> is_white_space(#[trigger] s[j]),
        leading_white_space(s) < s.len() ==> !is_white_space(s[leading_white_space(s) as int]),
    decreases s.len(),
{
    if s.len() > 0 && is_white_space(s[0]) {
        lemma_leading_white_space(s.skip(1));
        assert forall|j: int| 0 <= j < leading_white_space(s) implies is_white_space(#[trigger] s[j]) by {
            if j > 0 {
                assert(s[j] == s.skip(1)[j - 1]);
            }
        }
    }
}

/// A value runs up to its first end character.
pub proof fn lemma_value_end(s: Seq<char>)
    ensures
        value_end(s) <= s.len(),
        forall|j: int| 0 <= j < value_end(s) ==> !is_value_end(#[trigger] s[j]),
        value_end(s) < s.len() ==> is_value_end(s[value_end(s) as int]),
    decreases s.len(),
{
    if s.len() > 0 && !is_value_end(s[0]) {
        lemma_value_end(s.skip(1));
        assert forall|j: int| 0 <= j < value_end(s) implies !is_value_end(#[trigger] s[j]) by {
            if j > 0 {
                assert(s[j] == s.skip(1)[j - 1]);
            }
        }
    }
}

/// The text with the value after each occurrence of `key` replaced by `[redacted]`:
/// white space right after the key is kept, and the value runs up to the next `&`,
/// space, quote, apostrophe, closing parenthesis or comma.
pub open spec fn redact_after(value: Seq<char>, key: Seq<char>) -> Seq<char>
    decreases value.len(),
{
    if key.len() == 0 {
        value
    } else {
        match find_from(value, key, 0) {
            None => value,
            Some(i) => {
                proof {
                    lemma_find_from(value, key, 0);
                    lemma_leading_white_space(value.skip(i + key.len()));
                }
                let after = value.skip(i + key.len());
                let w = leading_white_space(after);
                let rest = after.skip(w as int);
                proof {
                    lemma_value_end(rest);
                }
                let e = value_end(rest);
                value.take(i) + key + after.take(w as int) + "[redacted]"@ + redact_after(
                    rest.skip(e as int),
                    key,
                )
            },
        }
    }
}

/// The keys whose values are redacted, in the order they are handled.
pub open spec fn redact_sensitive_spec(value: Seq<char>) -> Seq<char> {
    let r1 = redact_after(value, "clientId="@);
    let r2 = redact_after(r1, "dsid="@);
    let r3 = redact_after(r2, "clientBuildNumber="@);
    let r4 = redact_after(r3, "clientMasteringNumber="@);
    let r5 = redact_after(r4, "Cookie:"@);
    redact_after(r5, "cookie:"@)
}

fn copy_chars(v: &[char], lo: usize, hi: usize) -> (r: Vec<char>)
    requires
        lo <= hi <= v@.len(),
    ensures
        r@ == v@.subrange(lo as int, hi as int),
{
    let mut r: Vec<char> = Vec::new();
    let mut i = lo;
    while i < hi
        invariant
            lo <= i <= hi,
            hi <= v@.len(),
            r@ == v@.subrange(lo as int, i as int),
        decreases hi - i,
    {
        r.push(v[i]);
        i = i + 1;
        assert(r@ =~= v@.subrange(lo as int, i as int));
    }
    r
}

fn append_chars(out: &mut Vec<char>, more: &[char])
    ensures
        final(out)@ == old(out)@ + more@,
{
    let ghost start = out@;
    let mut i: usize = 0;
    while i < more.len()
        invariant
            i <= more@.len(),
            out@ == start + more@.take(i as int),
        decreases more@.len() - i,
    {
        out.push(more[i]);
        i = i + 1;
        assert(out@ =~= start + more@.take(i as int));
    }
    assert(more@.take(i as int) =~= more@);
}

/// Replaces the value after each occurrence of `key` by `[redacted]`.
pub fn redact_after_key(value: &str, key: &str) -> (r: String)
    requires
        key@.len() > 0,
    ensures
        r@ == redact_after(value@, key@),
{
    let k = chars_of(key);
    let marker = chars_of("[redacted]");
    let mut out: Vec<char> = Vec::new();
    let mut rem = chars_of(value);
    assert(out@ + rem@ =~= value@);
    proof {
        assert(out@ + redact_after(rem@, key@) =~= redact_after(value@, key@));
    }
    loop
        invariant
            k@ == key@,
            key@.len() > 0,
            marker@ == "[redacted]"@,
            out@ + redact_after(rem@, key@) == redact_after(value@, key@),
        ensures
            out@ + redact_after(rem@, key@) == redact_after(value@, key@),
            find_from(rem@, key@, 0) is None,
        decreases rem@.len(),
    {
        let found = find_chars(rem.as_slice(), k.as_slice(), 0);
        let i = match found {
            None => {
                break;
            },
            Some(i) => i,
        };
        let ghost r0 = rem@;
        proof {
            lemma_find_from(r0, key@, 0);
            assert(find_from(r0, key@, 0) == Some(i as int));
            assert(i + key@.len() <= r0.len());
        }
        let rem_len = rem.len();
        let key_len = k.len();
        assert(i + key_len <= rem_len);
        let start = i + key_len;
        let after = copy_chars(rem.as_slice(), start, rem.len());
        let mut w: usize = 0;
        assert(after@.skip(0) =~= after@);
        while w < after.len() && char_is_whitespace(after[w])
            invariant
                w <= after@.len(),
                leading_white_space(after@) == w + leading_white_space(after@.skip(w as int)),
            decreases after@.len() - w,
        {
            assert(after@.skip(w as int).skip(1) =~= after@.skip(w + 1));
            w = w + 1;
        }
        proof {
            assert(leading_white_space(after@.skip(w as int)) == 0);
        }
        let rest = copy_chars(after.as_slice(), w, after.len());
        let mut e: usize = 0;
        assert(rest@.skip(0) =~= rest@);
        while e < rest.len() && !(rest[e] == '&' || rest[e] == ' ' || rest[e] == '"' || rest[e] == '\''
            || rest[e] == ')' || rest[e] == ',')
            invariant
                e <= rest@.len(),
                value_end(rest@) == e + value_end(rest@.skip(e as int)),
            decreases rest@.len() - e,
        {
            assert(rest@.skip(e as int).skip(1) =~= rest@.skip(e + 1));
            e = e + 1;
        }
        proof {
            assert(value_end(rest@.skip(e as int)) == 0);
        }
        let prefix = copy_chars(rem.as_slice(), 0, i);
        let ws = copy_chars(after.as_slice(), 0, w);
        let ghost out0 = out@;
        append_chars(&mut out, prefix.as_slice());
        append_chars(&mut out, k.as_slice());
        append_chars(&mut out, ws.as_slice());
        append_chars(&mut out, marker.as_slice());
        let next = copy_chars(rest.as_slice(), e, rest.len());
        proof {
            assert(after@ =~= r0.skip(start as int));
            assert(rest@ =~= after@.skip(w as int));
            assert(next@ =~= rest@.skip(e as int));
            assert(prefix@ =~= r0.take(i as int));
            assert(ws@ =~= after@.take(w as int));
            assert(redact_after(r0, key@) == r0.take(i as int) + key@ + after@.take(w as int)
                + "[redacted]"@ + redact_after(next@, key@));
            assert(out@ =~= out0 + r0.take(i as int) + key@ + after@.take(w as int) + "[redacted]"@);
        }
        rem = next;
    }
    proof {
        assert(redact_after(rem@, key@) == rem@);
    }
    append_chars(&mut out, rem.as_slice());
    string_of(out.as_slice())
}

/// Replaces the values of the iCloud session parameters and cookies in a text by
/// `[redacted]`.
pub fn redact_sensitive(value: &str) -> (r: String)
    ensures
        r@ == redact_sensitive_spec(value@),
{
    proof {
        reveal_strlit("clientId=");
        reveal_strlit("dsid=");
        reveal_strlit("clientBuildNumber=");
        reveal_strlit("clientMasteringNumber=");
        reveal_strlit("Cookie:");
        reveal_strlit("cookie:");
    }
    let r1 = redact_after_key(value, "clientId=");
    let r2 = redact_after_key(r1.as_str(), "dsid=");
    let r3 = redact_after_key(r2.as_str(), "clientBuildNumber=");
    let r4 = redact_after_key(r3.as_str(), "clientMasteringNumber=");
    let r5 = redact_after_key(r4.as_str(), "Cookie:");
    redact_after_key(r5.as_str(), "cookie:")
}

/// A text in which the key does not occur is left as it is.
pub proof fn law_redact_without_key(value: Seq<char>, key: Seq<char>)
    requires
        !contains_seq(value, key),
    ensures
        redact_after(value, key) == value,
{
    crate::text::lemma_find_from_zero(value, key);
}

/// The marker that stands for a redacted value.
pub open spec fn marker() -> Seq<char> {
    seq!['[', 'r', 'e', 'd', 'a', 'c', 't', 'e', 'd', ']']
}

/// Past the white space that follows position `p`, the text begins with the marker.
pub open spec fn marked_at(s: Seq<char>, p: int) -> bool {
    let a = s.skip(p);
    marker().is_prefix_of(a.skip(leading_white_space(a) as int))
}

/// Every occurrence of the key in the text is followed by the marker.
pub open spec fn all_values_hidden(s: Seq<char>, key: Seq<char>) -> bool {
    forall|j: int| #[trigger] occurs_at(s, key, j) ==> marked_at(s, j + key.len())
}

/// A key for which redaction cannot create an occurrence of its own: it is not empty,
/// does not start with white space, holds no `]`, and its last character, which is not a
/// character of the marker, occurs nowhere else in it.
pub open spec fn key_is_separable(key: Seq<char>) -> bool {
    &&& key.len() > 0
    &&& !is_white_space(key[0])
    &&& !key.contains(']')
    &&& !marker().contains(key.last())
    &&& forall|j: int| 0 <= j < key.len() - 1 ==> #[trigger] key[j] != key.last()
}

proof fn lemma_leading_ws_concat(w: Seq<char>, x: Seq<char>)
    requires
        forall|j: int| 0 <= j < w.len() ==> is_white_space(#[trigger] w[j]),
    ensures
        leading_white_space(w + x) == w.len() + leading_white_space(x),
    decreases w.len(),
{
    if w.len() > 0 {
        assert((w + x).skip(1) =~= w.skip(1) + x);
        assert((w + x)[0] == w[0]);
        lemma_leading_ws_concat(w.skip(1), x);
    } else {
        assert(w + x =~= x);
    }
}

/// The pieces of one step of a redaction pass: the text before the first occurrence of
/// the key, the key, the white space after it, the marker, and the redacted rest.
proof fn lemma_redact_step(value: Seq<char>, key: Seq<char>, i: int)
    requires
        key.len() > 0,
        find_from(value, key, 0) == Some(i),
    ensures
        ({
            let after = value.skip(i + key.len());
            let w = leading_white_space(after);
            let rest = after.skip(w as int);
            let next = rest.skip(value_end(rest) as int);
            &&& 0 <= i && i + key.len() <= value.len()
            &&& w <= after.len()
            &&& next.len() < value.len()
            &&& forall|j: int| 0 <= j < w ==> is_white_space(#[trigger] after[j])
            &&& forall|j: int| 0 <= j < i ==> !occurs_at(value, key, j)
            &&& redact_after(value, key) == value.take(i) + key + after.take(w as int) + marker()
                + redact_after(next, key)
        }),
{
    reveal_strlit("[redacted]");
    assert("[redacted]"@ =~= marker());
    lemma_find_from(value, key, 0);
    let after = value.skip(i + key.len());
    lemma_leading_white_space(after);
    let rest = after.skip(leading_white_space(after) as int);
    lemma_value_end(rest);
}

/// Occurrences of a separable key in `t + key + ws + marker + r`, where the key does not
/// occur in `t + key` before the end of `t`, `ws` is white space and every occurrence in
/// `r` is followed by the marker, are all followed by the marker.
proof fn lemma_hidden_concat(t: Seq<char>, key: Seq<char>, ws: Seq<char>, r: Seq<char>)
    requires
        key_is_separable(key),
        forall|j: int| 0 <= j < t.len() ==> !occurs_at(t + key, key, j),
        forall|j: int| 0 <= j < ws.len() ==> is_white_space(#[trigger] ws[j]),
        all_values_hidden(r, key),
    ensures
        all_values_hidden(t + key + ws + marker() + r, key),
{
    let out = t + key + ws + marker() + r;
    let i = t.len() as int;
    let a = i + key.len();
    let b = a + ws.len();
    let c = b + 10;
    assert forall|j: int| #[trigger] occurs_at(out, key, j) implies marked_at(out, j + key.len()) by {
        if j < i {
            lemma_before_key(t, key, ws, r, j);
        } else if j == i {
            lemma_at_key(t, key, ws, r);
        } else if j < c {
            lemma_no_occurrence_in_middle(t, key, ws, r, j);
        } else {
            lemma_in_rest(t, key, ws, r, key, j);
        }
    }
}

proof fn lemma_before_key(t: Seq<char>, key: Seq<char>, ws: Seq<char>, r: Seq<char>, j: int)
    requires
        key.len() > 0,
        0 <= j < t.len(),
        forall|q: int| 0 <= q < t.len() ==> !occurs_at(t + key, key, q),
    ensures
        !occurs_at(t + key + ws + marker() + r, key, j),
{
    let out = t + key + ws + marker() + r;
    let pre = t + key;
    if !occurs_at(out, key, j) {
        return;
    }
    assert(pre.subrange(j, j + key.len()) =~= out.subrange(j, j + key.len())) by {
        assert forall|m: int| 0 <= m < key.len() implies #[trigger] pre.subrange(j, j + key.len())[m] == out.subrange(j, j + key.len())[m] by {
            assert(out[j + m] == pre[j + m]);
        }
    }
    assert(occurs_at(pre, key, j));
}

proof fn lemma_at_key(t: Seq<char>, key: Seq<char>, ws: Seq<char>, r: Seq<char>)
    requires
        forall|j: int| 0 <= j < ws.len() ==> is_white_space(#[trigger] ws[j]),
    ensures
        marked_at(t + key + ws + marker() + r, t.len() + key.len() as int),
{
    let out = t + key + ws + marker() + r;
    let tail = out.skip(t.len() + key.len() as int);
    assert(tail =~= ws + (marker() + r));
    lemma_leading_ws_concat(ws, marker() + r);
    assert((marker() + r)[0] == '[');
    assert(leading_white_space(marker() + r) == 0);
    assert(tail.skip(ws.len() as int) =~= marker() + r);
    assert((marker() + r).take(10) =~= marker());
}

proof fn lemma_no_occurrence_in_middle(t: Seq<char>, key: Seq<char>, ws: Seq<char>, r: Seq<char>, j: int)
    requires
        key_is_separable(key),
        forall|q: int| 0 <= q < ws.len() ==> is_white_space(#[trigger] ws[q]),
        t.len() < j < t.len() + key.len() + ws.len() + 10,
    ensures
        !occurs_at(t + key + ws + marker() + r, key, j),
{
    let out = t + key + ws + marker() + r;
    if !occurs_at(out, key, j) {
        return;
    }
    let i = t.len() as int;
    let a = i + key.len();
    let b = a + ws.len();
    let n = key.len() as int;
    let win = out.subrange(j, j + n);
    assert(win == key);
    if j < a {
        let d = j - i;
        assert(out[a - 1] == key[n - 1]);
        assert(win[n - 1 - d] == out[a - 1]);
        assert(key[n - 1 - d] == key.last());
        assert(false);
    } else if j < b {
        assert(out[j] == ws[j - a]);
        assert(win[0] == out[j]);
        assert(false);
    } else {
        let m = j - b;
        if j + n <= b + 10 {
            assert(out[j + n - 1] == marker()[m + n - 1]);
            assert(win[n - 1] == out[j + n - 1]);
            assert(marker().contains(key.last()));
        } else {
            let q = b + 9 - j;
            assert(out[b + 9] == ']');
            assert(win[q] == out[b + 9]);
            assert(key[q] == ']');
            assert(key.contains(']'));
        }
        assert(false);
    }
}

proof fn lemma_in_rest(t: Seq<char>, mid: Seq<char>, ws: Seq<char>, r: Seq<char>, key: Seq<char>, j: int)
    requires
        all_values_hidden(r, key),
        j >= t.len() + mid.len() + ws.len() + 10,
        occurs_at(t + mid + ws + marker() + r, key, j),
    ensures
        marked_at(t + mid + ws + marker() + r, j + key.len()),
{
    let out = t + mid + ws + marker() + r;
    let c = t.len() + mid.len() + ws.len() + 10;
    let jr = j - c;
    assert(r.subrange(jr, jr + key.len()) =~= out.subrange(j, j + key.len())) by {
        assert forall|q: int| 0 <= q < key.len() implies #[trigger] r.subrange(jr, jr + key.len())[q] == out.subrange(j, j + key.len())[q] by {
            assert(out[j + q] == r[jr + q]);
        }
    }
    assert(occurs_at(r, key, jr));
    assert(out.skip(j + key.len()) =~= r.skip(jr + key.len()));
}

/// After a redaction pass with a separable key, every occurrence of the key in the
/// result is followed by `[redacted]`: no value after the key survives.
pub proof fn law_redact_hides_values(value: Seq<char>, key: Seq<char>)
    requires
        key_is_separable(key),
    ensures
        all_values_hidden(redact_after(value, key), key),
    decreases value.len(),
{
    lemma_find_from(value, key, 0);
    match find_from(value, key, 0) {
        None => {
        },
        Some(i) => {
            lemma_redact_step(value, key, i);
            let after = value.skip(i + key.len());
            let w = leading_white_space(after);
            let rest = after.skip(w as int);
            let next = rest.skip(value_end(rest) as int);
            law_redact_hides_values(next, key);
            let t = value.take(i);
            let ws = after.take(w as int);
            assert(t + key =~= value.take(i + key.len()));
            assert forall|j: int| 0 <= j < t.len() implies !occurs_at(t + key, key, j) by {
                if occurs_at(t + key, key, j) {
                    assert(value.subrange(j, j + key.len()) =~= (t + key).subrange(j, j + key.len()));
                    assert(occurs_at(value, key, j));
                }
            }
            assert forall|j: int| 0 <= j < ws.len() implies is_white_space(#[trigger] ws[j]) by {
                assert(ws[j] == after[j]);
            }
            lemma_hidden_concat(t, key, ws, redact_after(next, key));
        },
    }
}

/// A separable key with no white space and no `[` anywhere in it.
pub open spec fn key_is_plain(key: Seq<char>) -> bool {
    &&& key_is_separable(key)
    &&& forall|j: int| 0 <= j < key.len() ==> !is_white_space(#[trigger] key[j])
    &&& !key.contains('[')
}

proof fn lemma_lws_exact(s: Seq<char>, n: int)
    requires
        0 <= n < s.len(),
        forall|j: int| 0 <= j < n ==> is_white_space(#[trigger] s[j]),
        !is_white_space(s[n]),
    ensures
        leading_white_space(s) == n,
    decreases n,
{
    if n > 0 {
        assert(is_white_space(s[0]));
        assert forall|j: int| 0 <= j < n - 1 implies is_white_space(#[trigger] s.skip(1)[j]) by {
            assert(s.skip(1)[j] == s[j + 1]);
        }
        lemma_lws_exact(s.skip(1), n - 1);
    }
}

proof fn lemma_marked_transfer(s1: Seq<char>, s2: Seq<char>, p: int)
    requires
        0 <= p <= s1.len(),
        marked_at(s1, p),
        p + leading_white_space(s1.skip(p)) + 10 <= s1.len(),
        p + leading_white_space(s1.skip(p)) + 10 <= s2.len(),
        forall|q: int| p <= q < p + leading_white_space(s1.skip(p)) + 10 ==> #[trigger] s1[q] == s2[q],
    ensures
        marked_at(s2, p),
{
    let a1 = s1.skip(p);
    let a2 = s2.skip(p);
    let w = leading_white_space(a1) as int;
    lemma_leading_white_space(a1);
    assert(a1.skip(w).take(10) == marker());
    assert(a1[w] == marker()[0]);
    assert forall|j: int| 0 <= j < w implies is_white_space(#[trigger] a2[j]) by {
        assert(a2[j] == s2[p + j]);
        assert(a1[j] == s1[p + j]);
    }
    assert(a2[w] == s2[p + w]);
    assert(a1[w] == s1[p + w]);
    lemma_lws_exact(a2, w);
    assert(a2.skip(w).take(10) =~= marker()) by {
        assert forall|q: int| 0 <= q < 10 implies #[trigger] a2.skip(w).take(10)[q] == marker()[q] by {
            assert(a2.skip(w)[q] == s2[p + w + q]);
            assert(a1.skip(w)[q] == s1[p + w + q]);
            assert(a1.skip(w).take(10)[q] == marker()[q]);
        }
    }
}

/// Occurrences of a key in a suffix of a text are occurrences in the text, so if every
/// occurrence in the text is followed by the marker, so is every occurrence in the suffix.
proof fn lemma_hidden_suffix(v: Seq<char>, key: Seq<char>, s: int)
    requires
        0 <= s <= v.len(),
        all_values_hidden(v, key),
    ensures
        all_values_hidden(v.skip(s), key),
{
    let x = v.skip(s);
    assert forall|j: int| #[trigger] occurs_at(x, key, j) implies marked_at(x, j + key.len()) by {
        assert(v.subrange(s + j, s + j + key.len()) =~= x.subrange(j, j + key.len()));
        assert(occurs_at(v, key, s + j));
        assert(v.skip(s + j + key.len()) =~= x.skip(j + key.len()));
    }
}

/// Redacting with one plain key keeps the values after another plain key hidden, in
/// one step: `v` begins with `t + k2 + ws`, and the rest after the marker already hides
/// its values.
proof fn lemma_preserve_concat(v: Seq<char>, t: Seq<char>, k2: Seq<char>, ws: Seq<char>, r: Seq<char>, k1: Seq<char>)
    requires
        key_is_plain(k1),
        key_is_plain(k2),
        t.len() + k2.len() + ws.len() <= v.len(),
        v.take((t.len() + k2.len() + ws.len()) as int) == t + k2 + ws,
        forall|j: int| 0 <= j < ws.len() ==> is_white_space(#[trigger] ws[j]),
        all_values_hidden(v, k1),
        all_values_hidden(r, k1),
    ensures
        all_values_hidden(t + k2 + ws + marker() + r, k1),
{
    let out = t + k2 + ws + marker() + r;
    let e2 = (t.len() + k2.len()) as int;
    let c = e2 + ws.len() + 10;
    assert forall|j: int| #[trigger] occurs_at(out, k1, j) implies marked_at(out, j + k1.len()) by {
        let win = out.subrange(j, j + k1.len());
        if j + k1.len() <= e2 {
            lemma_preserved_before(v, t, k2, ws, r, k1, j);
        } else if j < e2 {
            let q = e2 - j;
            assert(win == k1);
            assert(win[q] == out[e2]);
            if ws.len() > 0 {
                assert(out[e2] == ws[0]);
                assert(is_white_space(ws[0]));
                assert(k1[q] == ws[0]);
                assert(!is_white_space(k1[q]));
            } else {
                assert(out[e2] == '[');
                assert(k1[q] == '[');
                assert(k1.contains('['));
            }
        } else if j < c {
            assert(win == k1);
            if j < e2 + ws.len() {
                assert(out[j] == ws[j - e2]);
                assert(is_white_space(ws[j - e2]));
                assert(win[0] == out[j]);
                assert(k1[0] == win[0]);
            } else {
                let n = k1.len() as int;
                let m = j - e2 - ws.len();
                if j + n <= c {
                    assert(out[j + n - 1] == marker()[m + n - 1]);
                    assert(win[n - 1] == out[j + n - 1]);
                    assert(marker().contains(k1.last()));
                } else {
                    let q = c - 1 - j;
                    assert(out[c - 1] == ']');
                    assert(win[q] == out[c - 1]);
                    assert(k1.contains(']'));
                }
            }
        } else {
            lemma_in_rest(t, k2, ws, r, k1, j);
        }
    }
}

proof fn lemma_preserved_before(v: Seq<char>, t: Seq<char>, k2: Seq<char>, ws: Seq<char>, r: Seq<char>, k1: Seq<char>, j: int)
    requires
        key_is_plain(k1),
        key_is_plain(k2),
        t.len() + k2.len() + ws.len() <= v.len(),
        v.take((t.len() + k2.len() + ws.len()) as int) == t + k2 + ws,
        forall|q: int| 0 <= q < ws.len() ==> is_white_space(#[trigger] ws[q]),
        all_values_hidden(v, k1),
        0 <= j,
        j + k1.len() <= t.len() + k2.len(),
        occurs_at(t + k2 + ws + marker() + r, k1, j),
    ensures
        marked_at(t + k2 + ws + marker() + r, j + k1.len()),
{
    let out = t + k2 + ws + marker() + r;
    let e2 = (t.len() + k2.len()) as int;
    let p = j + k1.len();
    assert forall|q: int| 0 <= q < e2 + ws.len() implies #[trigger] out[q] == v[q] by {
        assert(v.take(e2 + ws.len() as int)[q] == v[q]);
        assert((t + k2 + ws)[q] == out[q]);
    }
    assert(v.subrange(j, p) =~= out.subrange(j, p));
    assert(occurs_at(v, k1, j));
    assert(marked_at(v, p));
    if p == e2 {
        lemma_at_key(t, k2, ws, r);
    } else {
        let a = v.skip(p);
        lemma_leading_white_space(a);
        let w = leading_white_space(a) as int;
        assert(a.skip(w).take(10) == marker());
        assert(a.skip(w)[0] == '[');
        assert(a[w] == v[p + w]);
        if p >= t.len() {
            let d = p - t.len();
            assert(v[p] == out[p]);
            assert(out[p] == k2[d]);
            if w == 0 {
                assert(k2.contains('['));
            } else {
                assert(a[0] == v[p]);
            }
        } else if p + w + 10 > t.len() {
            let tl = t.len() as int;
            assert(v[tl] == out[tl]);
            assert(out[tl] == k2[0]);
            if tl < p + w {
                assert(a[tl - p] == v[tl]);
            } else {
                let m = tl - p - w;
                let n = k2.len() as int;
                if m + n <= 10 {
                    assert(out[tl + n - 1] == k2[n - 1]);
                    assert(v[tl + n - 1] == out[tl + n - 1]);
                    assert(a.skip(w).take(10)[m + n - 1] == v[tl + n - 1]);
                    assert(marker().contains(k2.last()));
                } else {
                    let q = 9 - m;
                    assert(out[tl + q] == k2[q]);
                    assert(v[tl + q] == out[tl + q]);
                    assert(a.skip(w).take(10)[9] == v[tl + q]);
                    assert(k2.contains(']'));
                }
            }
        } else {
            lemma_marked_transfer(v, out, p);
        }
    }
}

/// Redacting with one plain key keeps hidden the values after another plain key.
pub proof fn law_redact_keeps_hidden(value: Seq<char>, k2: Seq<char>, k1: Seq<char>)
    requires
        key_is_plain(k1),
        key_is_plain(k2),
        all_values_hidden(value, k1),
    ensures
        all_values_hidden(redact_after(value, k2), k1),
    decreases value.len(),
{
    lemma_find_from(value, k2, 0);
    match find_from(value, k2, 0) {
        None => {
        },
        Some(i) => {
            lemma_redact_step(value, k2, i);
            let after = value.skip(i + k2.len());
            let w = leading_white_space(after);
            let rest = after.skip(w as int);
            let e = value_end(rest);
            let next = rest.skip(e as int);
            lemma_value_end(rest);
            assert(next =~= value.skip(i + k2.len() + w + e));
            lemma_hidden_suffix(value, k1, i + k2.len() + w + e);
            law_redact_keeps_hidden(next, k2, k1);
            let t = value.take(i);
            let ws = after.take(w as int);
            assert(value.take((t.len() + k2.len() + ws.len()) as int) =~= t + k2 + ws);
            assert forall|j: int| 0 <= j < ws.len() implies is_white_space(#[trigger] ws[j]) by {
                assert(ws[j] == after[j]);
            }
            lemma_preserve_concat(value, t, k2, ws, redact_after(next, k2), k1);
        },
    }
}

/// The keys that the user interface redacts can each be redacted safely.
pub proof fn law_sensitive_keys_separable()
    ensures
        key_is_plain("clientId="@),
        key_is_plain("dsid="@),
        key_is_plain("clientBuildNumber="@),
        key_is_plain("clientMasteringNumber="@),
        key_is_plain("Cookie:"@),
        key_is_plain("cookie:"@),
{
    reveal_strlit("clientId=");
    reveal_strlit("dsid=");
    reveal_strlit("clientBuildNumber=");
    reveal_strlit("clientMasteringNumber=");
    reveal_strlit("Cookie:");
    reveal_strlit("cookie:");
}

/// After the user-interface redaction, every occurrence of a session key in the text is
/// followed by `[redacted]`: no session value or cookie survives after its key.
pub proof fn law_redact_sensitive_hides_values(value: Seq<char>)
    ensures
        all_values_hidden(redact_sensitive_spec(value), "clientId="@),
        all_values_hidden(redact_sensitive_spec(value), "dsid="@),
        all_values_hidden(redact_sensitive_spec(value), "clientBuildNumber="@),
        all_values_hidden(redact_sensitive_spec(value), "clientMasteringNumber="@),
        all_values_hidden(redact_sensitive_spec(value), "Cookie:"@),
        all_values_hidden(redact_sensitive_spec(value), "cookie:"@),
{
    law_sensitive_keys_separable();
    let k1 = "clientId="@;
    let k2 = "dsid="@;
    let k3 = "clientBuildNumber="@;
    let k4 = "clientMasteringNumber="@;
    let k5 = "Cookie:"@;
    let k6 = "cookie:"@;
    let r1 = redact_after(value, k1);
    let r2 = redact_after(r1, k2);
    let r3 = redact_after(r2, k3);
    let r4 = redact_after(r3, k4);
    let r5 = redact_after(r4, k5);
    let r6 = redact_after(r5, k6);
    law_redact_hides_values(value, k1);
    law_redact_keeps_hidden(r1, k2, k1);
    law_redact_keeps_hidden(r2, k3, k1);
    law_redact_keeps_hidden(r3, k4, k1);
    law_redact_keeps_hidden(r4, k5, k1);
    law_redact_keeps_hidden(r5, k6, k1);
    law_redact_hides_values(r1, k2);
    law_redact_keeps_hidden(r2, k3, k2);
    law_redact_keeps_hidden(r3, k4, k2);
    law_redact_keeps_hidden(r4, k5, k2);
    law_redact_keeps_hidden(r5, k6, k2);
    law_redact_hides_values(r2, k3);
    law_redact_keeps_hidden(r3, k4, k3);
    law_redact_keeps_hidden(r4, k5, k3);
    law_redact_keeps_hidden(r5, k6, k3);
    law_redact_hides_values(r3, k4);
    law_redact_keeps_hidden(r4, k5, k4);
    law_redact_keeps_hidden(r5, k6, k4);
    law_redact_hides_values(r4, k5);
    law_redact_keeps_hidden(r5, k6, k5);
    law_redact_hides_values(r5, k6);
}

} // verus!
