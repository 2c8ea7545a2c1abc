//! Text out of fragments of HTML.

use vstd::prelude::*;

use crate::text::{
    begins_with, chars_of, lemma_trimmed_holds, matches_at, occurs_at, string_of, trim_of, trimmed,
};

verus! {

// ── Tags ─────────────────────────────────────────────────────────

/// The characters outside of tags. A tag runs from `<` to the next `>`; `in_tag` says whether the
/// text begins inside of one.
pub open spec fn outside_tags(s: Seq<char>, in_tag: bool) -> Seq<char>
    decreases s.len(),
{
    if s.len() == 0 {
        Seq::empty()
    } else if s[0] == '<' {
        outside_tags(s.drop_first(), true)
    } else if s[0] == '>' {
        outside_tags(s.drop_first(), false)
    } else if in_tag {
        outside_tags(s.drop_first(), true)
    } else {
        seq![s[0]] + outside_tags(s.drop_first(), false)
    }
}

/// The text of a fragment: what stands outside of tags, without white space at either end.
pub open spec fn tag_free(s: Seq<char>) -> Seq<char> {
    trimmed(outside_tags(s, false))
}

/// Removes the tags from a fragment, and white space from both ends.
pub fn strip_html_tags(html: &str) -> (r: String)
    ensures
        r@ == tag_free(html@),
{
    let v = chars_of(html);
    let mut kept: Vec<char> = Vec::new();
    let mut in_tag = false;
    let mut i: usize = 0;
    assert(v@.skip(0) =~= html@);
    while i < v.len()
        invariant
            i <= v.len(),
            v@ == html@,
            kept@ + outside_tags(v@.skip(i as int), in_tag) == outside_tags(html@, false),
        decreases v.len() - i,
    {
        let ghost rest = v@.skip(i as int);
        let ghost before = kept@;
        assert(rest.drop_first() =~= v@.skip(i + 1));
        if v[i] == '<' {
            in_tag = true;
        } else if v[i] == '>' {
            in_tag = false;
        } else if !in_tag {
            kept.push(v[i]);
            assert(kept@ + outside_tags(rest.drop_first(), false) =~= before + (seq![rest[0]]
                + outside_tags(rest.drop_first(), false)));
        }
        i += 1;
    }
    assert(kept@ + Seq::empty() =~= kept@);
    assert(kept@.subrange(0, kept@.len() as int) =~= kept@);
    trim_of(&kept, 0, kept.len())
}

// ── Character references ─────────────────────────────────────────

/// The character reference that stands at position `i`: its length and the character it is for.
pub open spec fn reference_at(s: Seq<char>, i: int) -> Option<(int, char)> {
    if occurs_at(s, "&amp;"@, i) {
        Some((5, '&'))
    } else if occurs_at(s, "&lt;"@, i) {
        Some((4, '<'))
    } else if occurs_at(s, "&gt;"@, i) {
        Some((4, '>'))
    } else if occurs_at(s, "&quot;"@, i) {
        Some((6, '"'))
    } else if occurs_at(s, "&#x27;"@, i) {
        Some((6, '\''))
    } else if occurs_at(s, "&#39;"@, i) {
        Some((5, '\''))
    } else if occurs_at(s, "&nbsp;"@, i) {
        Some((6, ' '))
    } else {
        None
    }
}

/// The text from position `i` on, with its character references replaced.
pub open spec fn dereferenced(s: Seq<char>, i: int) -> Seq<char>
    decreases
            if i <= s.len() {
                s.len() - i
            } else {
                0
            },
{
    if i < 0 || i >= s.len() {
        Seq::empty()
    } else {
        match reference_at(s, i) {
            Some((len, c)) => seq![c] + dereferenced(s, i + len),
            None => seq![s[i]] + dereferenced(s, i + 1),
        }
    }
}

/// Whether `pat` stands at position `i`.
fn reads(v: &Vec<char>, i: usize, pat: &str) -> (r: bool)
    requires
        i <= v.len(),
    ensures
        r == occurs_at(v@, pat@, i as int),
{
    let p = chars_of(pat);
    p.len() <= v.len() - i && matches_at(v, &p, i)
}

fn reference(v: &Vec<char>, i: usize) -> (r: Option<(usize, char)>)
    requires
        i < v.len(),
    ensures
        match r {
            Some((len, c)) => reference_at(v@, i as int) == Some((len as int, c)) && i + len
                <= v.len() && len > 0,
            None => reference_at(v@, i as int) is None,
        },
{
    proof {
        reveal_strlit("&amp;");
        reveal_strlit("&lt;");
        reveal_strlit("&gt;");
        reveal_strlit("&quot;");
        reveal_strlit("&#x27;");
        reveal_strlit("&#39;");
        reveal_strlit("&nbsp;");
    }
    if reads(v, i, "&amp;") {
        Some((5, '&'))
    } else if reads(v, i, "&lt;") {
        Some((4, '<'))
    } else if reads(v, i, "&gt;") {
        Some((4, '>'))
    } else if reads(v, i, "&quot;") {
        Some((6, '"'))
    } else if reads(v, i, "&#x27;") {
        Some((6, '\''))
    } else if reads(v, i, "&#39;") {
        Some((5, '\''))
    } else if reads(v, i, "&nbsp;") {
        Some((6, ' '))
    } else {
        None
    }
}

/// Replaces the character references in a text, from left to right. What a replacement yields is
/// not read again.
pub fn html_decode(s: &str) -> (r: String)
    ensures
        r@ == dereferenced(s@, 0),
{
    let v = chars_of(s);
    let mut out: Vec<char> = Vec::new();
    let mut i: usize = 0;
    assert(out@ + dereferenced(s@, 0) =~= dereferenced(s@, 0));
    while i < v.len()
        invariant
            i <= v.len(),
            v@ == s@,
            out@ + dereferenced(s@, i as int) == dereferenced(s@, 0),
        decreases v.len() - i,
    {
        let ghost before = out@;
        match reference(&v, i) {
            Some((len, c)) => {
                out.push(c);
                i += len;
                assert(out@ + dereferenced(s@, i as int) =~= before + (seq![c] + dereferenced(
                    s@,
                    i as int,
                )));
            },
            None => {
                let c = v[i];
                out.push(c);
                i += 1;
                assert(out@ + dereferenced(s@, i as int) =~= before + (seq![c] + dereferenced(
                    s@,
                    i as int,
                )));
            },
        }
    }
    assert(out@ + Seq::empty() =~= out@);
    assert(out@.subrange(0, out@.len() as int) =~= out@);
    string_of(&out, 0, out.len())
}

// ── Laws ─────────────────────────────────────────────────────────

proof fn lemma_outside_tags(s: Seq<char>, in_tag: bool)
    ensures
        !outside_tags(s, in_tag).contains('<'),
        !outside_tags(s, in_tag).contains('>'),
    decreases s.len(),
{
    if s.len() > 0 {
        let rest = s.drop_first();
        lemma_outside_tags(rest, true);
        lemma_outside_tags(rest, false);
        let all = seq![s[0]] + outside_tags(rest, false);
        assert forall|i: int| 0 <= i < all.len() && s[0] != '<' && s[0] != '>' implies (
        #[trigger] all[i]) != '<' && all[i] != '>' by {
            if i > 0 {
                assert(all[i] == outside_tags(rest, false)[i - 1]);
            }
        }
    }
}

/// The text of a fragment holds neither `<` nor `>`.
pub proof fn stripped_text_holds_no_tags(s: Seq<char>)
    ensures
        !tag_free(s).contains('<'),
        !tag_free(s).contains('>'),
{
    lemma_outside_tags(s, false);
    lemma_trimmed_holds(outside_tags(s, false), '<');
    lemma_trimmed_holds(outside_tags(s, false), '>');
}

/// A text that is not empty is not empty with its character references replaced.
pub proof fn decoded_text_is_not_empty(s: Seq<char>)
    requires
        s.len() > 0,
    ensures
        dereferenced(s, 0).len() > 0,
{
}

proof fn lemma_outside_of_plain(a: Seq<char>, b: Seq<char>, in_tag: bool)
    requires
        !a.contains('<'),
        !a.contains('>'),
    ensures
        outside_tags(a + b, in_tag) == (if in_tag {
            Seq::empty()
        } else {
            a
        }) + outside_tags(b, in_tag),
    decreases a.len(),
{
    if a.len() == 0 {
        assert(a + b =~= b);
        assert(Seq::<char>::empty() + outside_tags(b, in_tag) =~= outside_tags(b, in_tag));
    } else {
        let s = a + b;
        let rest = a.drop_first();
        assert(a.contains(a[0]));
        assert forall|c: char| rest.contains(c) implies a.contains(c) by {
            let i = choose|i: int| 0 <= i < rest.len() && rest[i] == c;
            assert(a[i + 1] == c);
        }
        lemma_outside_of_plain(rest, b, in_tag);
        assert(s[0] == a[0]);
        assert(s.drop_first() =~= rest + b);
        if !in_tag {
            assert(seq![a[0]] + (rest + outside_tags(b, in_tag)) =~= a + outside_tags(b, in_tag));
        }
    }
}

/// A tag is taken out whole and the text around it stays: of a plain text, a tag and more, the
/// plain text stays with what stays of the rest. A tag that is never closed takes all with it, and
/// a sign that closes none is taken out alone.
pub proof fn tags_are_taken_out(before: Seq<char>, tag: Seq<char>, after: Seq<char>)
    requires
        !before.contains('<'),
        !before.contains('>'),
        !tag.contains('<'),
        !tag.contains('>'),
    ensures
        outside_tags(before, false) == before,
        outside_tags(before + seq!['<'] + tag + seq!['>'] + after, false) == before
            + outside_tags(after, false),
        outside_tags(before + seq!['<'] + tag, false) == before,
        outside_tags(before + seq!['>'] + after, false) == before + outside_tags(after, false),
{
    let none = Seq::<char>::empty();
    lemma_outside_of_plain(before, none, false);
    assert(before + none =~= before);
    let closed = seq!['>'] + after;
    assert(closed.drop_first() =~= after);
    let open = seq!['<'] + (tag + closed);
    assert(open.drop_first() =~= tag + closed);
    lemma_outside_of_plain(tag, closed, true);
    assert(none + outside_tags(closed, true) =~= outside_tags(closed, true));
    lemma_outside_of_plain(before, open, false);
    assert(before + seq!['<'] + tag + seq!['>'] + after =~= before + open);
    let unclosed = seq!['<'] + tag;
    assert(unclosed.drop_first() =~= tag + none);
    lemma_outside_of_plain(tag, none, true);
    lemma_outside_of_plain(before, unclosed, false);
    assert(before + seq!['<'] + tag =~= before + unclosed);
    assert(outside_tags(unclosed, false) =~= none);
    lemma_outside_of_plain(before, closed, false);
    assert(before + seq!['>'] + after =~= before + closed);
}

/// The text of a fragment is what stands outside of its tags, trimmed.
pub proof fn fragments_are_trimmed(s: Seq<char>)
    ensures
        tag_free(s) == trimmed(outside_tags(s, false)),
{
}

proof fn lemma_reference_within(a: Seq<char>, b: Seq<char>, k: int)
    requires
        0 <= k,
    ensures
        reference_at(a + b, a.len() + k) == reference_at(b, k),
{
    assert forall|pat: Seq<char>| #[trigger]
        occurs_at(a + b, pat, a.len() + k) == occurs_at(b, pat, k) by {
        if k + pat.len() <= b.len() {
            assert((a + b).subrange(a.len() + k, a.len() + k + pat.len()) =~= b.subrange(
                k,
                k + pat.len(),
            ));
        }
    }
}

proof fn lemma_dereferenced_within(a: Seq<char>, b: Seq<char>, k: int)
    requires
        0 <= k,
    ensures
        dereferenced(a + b, a.len() + k) == dereferenced(b, k),
    decreases
            if k <= b.len() {
                b.len() - k
            } else {
                0
            },
{
    if k < b.len() {
        lemma_reference_within(a, b, k);
        match reference_at(b, k) {
            Some((len, c)) => {
                lemma_dereferenced_within(a, b, k + len);
                assert(a.len() + k + len == a.len() + (k + len));
            },
            None => {
                lemma_dereferenced_within(a, b, k + 1);
                assert(a.len() + k + 1 == a.len() + (k + 1));
            },
        }
    }
}

proof fn lemma_no_reference(s: Seq<char>, i: int)
    requires
        0 <= i < s.len(),
        s[i] != '&',
    ensures
        reference_at(s, i) is None,
{
    reveal_strlit("&amp;");
    reveal_strlit("&lt;");
    reveal_strlit("&gt;");
    reveal_strlit("&quot;");
    reveal_strlit("&#x27;");
    reveal_strlit("&#39;");
    reveal_strlit("&nbsp;");
    assert forall|pat: Seq<char>| pat.len() > 0 && pat[0] == '&' implies !#[trigger] occurs_at(
        s,
        pat,
        i,
    ) by {
        if occurs_at(s, pat, i) {
            assert(s.subrange(i, i + pat.len())[0] == s[i]);
        }
    }
}

proof fn lemma_dereferenced_plain(a: Seq<char>, b: Seq<char>)
    requires
        !a.contains('&'),
    ensures
        dereferenced(a + b, 0) == a + dereferenced(b, 0),
    decreases a.len(),
{
    if a.len() == 0 {
        assert(a + b =~= b);
        assert(a + dereferenced(b, 0) =~= dereferenced(b, 0));
    } else {
        let first = a.take(1);
        let rest = a.drop_first();
        assert(a.contains(a[0]));
        assert forall|c: char| rest.contains(c) implies a.contains(c) by {
            let i = choose|i: int| 0 <= i < rest.len() && rest[i] == c;
            assert(a[i + 1] == c);
        }
        lemma_dereferenced_plain(rest, b);
        assert(a + b =~= first + (rest + b));
        lemma_no_reference(a + b, 0);
        lemma_dereferenced_within(first, rest + b, 0);
        assert(seq![a[0]] + (rest + dereferenced(b, 0)) =~= a + dereferenced(b, 0));
    }
}

proof fn lemma_dereferenced_reference(a: Seq<char>, reference: Seq<char>, c: char, b: Seq<char>)
    requires
        !a.contains('&'),
        reference_at(reference + b, 0) == Some((reference.len() as int, c)),
        reference.len() > 0,
    ensures
        dereferenced(a + reference + b, 0) == a + seq![c] + dereferenced(b, 0),
{
    assert(a + reference + b =~= a + (reference + b));
    lemma_dereferenced_plain(a, reference + b);
    lemma_dereferenced_within(reference, b, 0);
    assert(a + (seq![c] + dereferenced(b, 0)) =~= a + seq![c] + dereferenced(b, 0));
}

/// Each character reference gives its character, and the text around it stays: of a text without
/// an ampersand, a reference and more, the text stays, then comes the character, and then what the
/// rest gives by itself. A text without an ampersand stays as it is.
pub proof fn references_give_their_characters(before: Seq<char>, after: Seq<char>)
    requires
        !before.contains('&'),
    ensures
        dereferenced(before, 0) == before,
        dereferenced(before + "&amp;"@ + after, 0) == before + seq!['&'] + dereferenced(after, 0),
        dereferenced(before + "&lt;"@ + after, 0) == before + seq!['<'] + dereferenced(after, 0),
        dereferenced(before + "&gt;"@ + after, 0) == before + seq!['>'] + dereferenced(after, 0),
        dereferenced(before + "&quot;"@ + after, 0) == before + seq!['"'] + dereferenced(after, 0),
        dereferenced(before + "&#x27;"@ + after, 0) == before + seq!['\''] + dereferenced(after, 0),
        dereferenced(before + "&#39;"@ + after, 0) == before + seq!['\''] + dereferenced(after, 0),
        dereferenced(before + "&nbsp;"@ + after, 0) == before + seq![' '] + dereferenced(after, 0),
{
    let none = Seq::<char>::empty();
    lemma_dereferenced_plain(before, none);
    assert(before + none =~= before);
    reveal_strlit("&amp;");
    reveal_strlit("&lt;");
    reveal_strlit("&gt;");
    reveal_strlit("&quot;");
    reveal_strlit("&#x27;");
    reveal_strlit("&#39;");
    reveal_strlit("&nbsp;");
    assert(("&amp;"@ + after).subrange(0, 5) =~= "&amp;"@);
    lemma_dereferenced_reference(before, "&amp;"@, '&', after);
    assert(("&lt;"@ + after).subrange(0, 4) =~= "&lt;"@);
    assert(("&lt;"@ + after)[1] == 'l');
    assert(!occurs_at("&lt;"@ + after, "&amp;"@, 0)) by {
        if occurs_at("&lt;"@ + after, "&amp;"@, 0) {
            assert(("&lt;"@ + after).subrange(0, 5)[1] == 'l');
        }
    }
    lemma_dereferenced_reference(before, "&lt;"@, '<', after);
    assert(("&gt;"@ + after).subrange(0, 4) =~= "&gt;"@);
    assert(("&gt;"@ + after)[1] == 'g');
    assert(!occurs_at("&gt;"@ + after, "&amp;"@, 0)) by {
        if occurs_at("&gt;"@ + after, "&amp;"@, 0) {
            assert(("&gt;"@ + after).subrange(0, 5)[1] == 'g');
        }
    }
    assert(("&gt;"@ + after)[1] == 'g');
    assert(!occurs_at("&gt;"@ + after, "&lt;"@, 0)) by {
        if occurs_at("&gt;"@ + after, "&lt;"@, 0) {
            assert(("&gt;"@ + after).subrange(0, 4)[1] == 'g');
        }
    }
    lemma_dereferenced_reference(before, "&gt;"@, '>', after);
    assert(("&quot;"@ + after).subrange(0, 6) =~= "&quot;"@);
    assert(("&quot;"@ + after)[1] == 'q');
    assert(!occurs_at("&quot;"@ + after, "&amp;"@, 0)) by {
        if occurs_at("&quot;"@ + after, "&amp;"@, 0) {
            assert(("&quot;"@ + after).subrange(0, 5)[1] == 'q');
        }
    }
    assert(("&quot;"@ + after)[1] == 'q');
    assert(!occurs_at("&quot;"@ + after, "&lt;"@, 0)) by {
        if occurs_at("&quot;"@ + after, "&lt;"@, 0) {
            assert(("&quot;"@ + after).subrange(0, 4)[1] == 'q');
        }
    }
    assert(("&quot;"@ + after)[1] == 'q');
    assert(!occurs_at("&quot;"@ + after, "&gt;"@, 0)) by {
        if occurs_at("&quot;"@ + after, "&gt;"@, 0) {
            assert(("&quot;"@ + after).subrange(0, 4)[1] == 'q');
        }
    }
    lemma_dereferenced_reference(before, "&quot;"@, '"', after);
    assert(("&#x27;"@ + after).subrange(0, 6) =~= "&#x27;"@);
    assert(("&#x27;"@ + after)[1] == '#');
    assert(!occurs_at("&#x27;"@ + after, "&amp;"@, 0)) by {
        if occurs_at("&#x27;"@ + after, "&amp;"@, 0) {
            assert(("&#x27;"@ + after).subrange(0, 5)[1] == '#');
        }
    }
    assert(("&#x27;"@ + after)[1] == '#');
    assert(!occurs_at("&#x27;"@ + after, "&lt;"@, 0)) by {
        if occurs_at("&#x27;"@ + after, "&lt;"@, 0) {
            assert(("&#x27;"@ + after).subrange(0, 4)[1] == '#');
        }
    }
    assert(("&#x27;"@ + after)[1] == '#');
    assert(!occurs_at("&#x27;"@ + after, "&gt;"@, 0)) by {
        if occurs_at("&#x27;"@ + after, "&gt;"@, 0) {
            assert(("&#x27;"@ + after).subrange(0, 4)[1] == '#');
        }
    }
    assert(("&#x27;"@ + after)[1] == '#');
    assert(!occurs_at("&#x27;"@ + after, "&quot;"@, 0)) by {
        if occurs_at("&#x27;"@ + after, "&quot;"@, 0) {
            assert(("&#x27;"@ + after).subrange(0, 6)[1] == '#');
        }
    }
    lemma_dereferenced_reference(before, "&#x27;"@, '\'', after);
    assert(("&#39;"@ + after).subrange(0, 5) =~= "&#39;"@);
    assert(("&#39;"@ + after)[1] == '#');
    assert(!occurs_at("&#39;"@ + after, "&amp;"@, 0)) by {
        if occurs_at("&#39;"@ + after, "&amp;"@, 0) {
            assert(("&#39;"@ + after).subrange(0, 5)[1] == '#');
        }
    }
    assert(("&#39;"@ + after)[1] == '#');
    assert(!occurs_at("&#39;"@ + after, "&lt;"@, 0)) by {
        if occurs_at("&#39;"@ + after, "&lt;"@, 0) {
            assert(("&#39;"@ + after).subrange(0, 4)[1] == '#');
        }
    }
    assert(("&#39;"@ + after)[1] == '#');
    assert(!occurs_at("&#39;"@ + after, "&gt;"@, 0)) by {
        if occurs_at("&#39;"@ + after, "&gt;"@, 0) {
            assert(("&#39;"@ + after).subrange(0, 4)[1] == '#');
        }
    }
    assert(("&#39;"@ + after)[1] == '#');
    assert(!occurs_at("&#39;"@ + after, "&quot;"@, 0)) by {
        if occurs_at("&#39;"@ + after, "&quot;"@, 0) {
            assert(("&#39;"@ + after).subrange(0, 6)[1] == '#');
        }
    }
    assert(("&#39;"@ + after)[2] == '3');
    assert(!occurs_at("&#39;"@ + after, "&#x27;"@, 0)) by {
        if occurs_at("&#39;"@ + after, "&#x27;"@, 0) {
            assert(("&#39;"@ + after).subrange(0, 6)[2] == '3');
        }
    }
    lemma_dereferenced_reference(before, "&#39;"@, '\'', after);
    assert(("&nbsp;"@ + after).subrange(0, 6) =~= "&nbsp;"@);
    assert(("&nbsp;"@ + after)[1] == 'n');
    assert(!occurs_at("&nbsp;"@ + after, "&amp;"@, 0)) by {
        if occurs_at("&nbsp;"@ + after, "&amp;"@, 0) {
            assert(("&nbsp;"@ + after).subrange(0, 5)[1] == 'n');
        }
    }
    assert(("&nbsp;"@ + after)[1] == 'n');
    assert(!occurs_at("&nbsp;"@ + after, "&lt;"@, 0)) by {
        if occurs_at("&nbsp;"@ + after, "&lt;"@, 0) {
            assert(("&nbsp;"@ + after).subrange(0, 4)[1] == 'n');
        }
    }
    assert(("&nbsp;"@ + after)[1] == 'n');
    assert(!occurs_at("&nbsp;"@ + after, "&gt;"@, 0)) by {
        if occurs_at("&nbsp;"@ + after, "&gt;"@, 0) {
            assert(("&nbsp;"@ + after).subrange(0, 4)[1] == 'n');
        }
    }
    assert(("&nbsp;"@ + after)[1] == 'n');
    assert(!occurs_at("&nbsp;"@ + after, "&quot;"@, 0)) by {
        if occurs_at("&nbsp;"@ + after, "&quot;"@, 0) {
            assert(("&nbsp;"@ + after).subrange(0, 6)[1] == 'n');
        }
    }
    assert(("&nbsp;"@ + after)[1] == 'n');
    assert(!occurs_at("&nbsp;"@ + after, "&#x27;"@, 0)) by {
        if occurs_at("&nbsp;"@ + after, "&#x27;"@, 0) {
            assert(("&nbsp;"@ + after).subrange(0, 6)[1] == 'n');
        }
    }
    assert(("&nbsp;"@ + after)[1] == 'n');
    assert(!occurs_at("&nbsp;"@ + after, "&#39;"@, 0)) by {
        if occurs_at("&nbsp;"@ + after, "&#39;"@, 0) {
            assert(("&nbsp;"@ + after).subrange(0, 5)[1] == 'n');
        }
    }
    lemma_dereferenced_reference(before, "&nbsp;"@, ' ', after);
}

/// An ampersand that begins no character reference stays as it is.
pub proof fn other_ampersands_stay(before: Seq<char>, after: Seq<char>)
    requires
        !before.contains('&'),
        !begins_with(seq!['&'] + after, "&amp;"@),
        !begins_with(seq!['&'] + after, "&lt;"@),
        !begins_with(seq!['&'] + after, "&gt;"@),
        !begins_with(seq!['&'] + after, "&quot;"@),
        !begins_with(seq!['&'] + after, "&#x27;"@),
        !begins_with(seq!['&'] + after, "&#39;"@),
        !begins_with(seq!['&'] + after, "&nbsp;"@),
    ensures
        dereferenced(before + seq!['&'] + after, 0) == before + seq!['&'] + dereferenced(after, 0),
{
    let s = seq!['&'] + after;
    assert(before + seq!['&'] + after =~= before + s);
    lemma_dereferenced_plain(before, s);
    lemma_dereferenced_within(seq!['&'], after, 0);
    assert(reference_at(s, 0) is None);
    assert(before + (seq!['&'] + dereferenced(after, 0)) =~= before + seq!['&'] + dereferenced(
        after,
        0,
    ));
}

} // verus!
