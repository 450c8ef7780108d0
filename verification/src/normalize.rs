//! Text normalization: lowercasing, deletion of characters outside the word
//! character class, whitespace trimming, and splitting on whitespace runs.
//!
//! Deleted characters are removed outright, never replaced by a separator, so
//! two words joined only by punctuation merge into one token.

use vstd::prelude::*;

verus! {

/// A character with the Unicode `White_Space` property.
pub open spec fn is_ws(c: char) -> bool {
    let u = c as u32;
    (0x09 <= u && u <= 0x0D) || u == 0x20 || u == 0x85 || u == 0xA0 || u == 0x1680 || (0x2000 <= u
        && u <= 0x200A) || u == 0x2028 || u == 0x2029 || u == 0x202F || u == 0x205F || u == 0x3000
}

/// A character the normalizer keeps inside tokens: an ASCII lowercase
/// letter, an ASCII digit, or a Latin-1 accented letter (the inclusive
/// range from 'À' to 'ÿ').
pub open spec fn is_word_char(c: char) -> bool {
    let u = c as u32;
    (0x61 <= u && u <= 0x7A) || (0x30 <= u && u <= 0x39) || (0xC0 <= u && u <= 0xFF)
}

/// `s` with every character deleted that is neither a word character nor
/// whitespace.
pub open spec fn filtered(s: Seq<char>) -> Seq<char>
    decreases s.len(),
{
    if s.len() == 0 {
        Seq::empty()
    } else if is_word_char(s.last()) || is_ws(s.last()) {
        filtered(s.drop_last()).push(s.last())
    } else {
        filtered(s.drop_last())
    }
}

/// The maximal runs of non-whitespace characters of `s`, in order: splitting
/// on runs of whitespace, with no empty tokens.
pub open spec fn split_ws(s: Seq<char>) -> Seq<Seq<char>>
    decreases s.len(),
{
    if s.len() == 0 {
        Seq::empty()
    } else {
        let rest = split_ws(s.drop_last());
        let c = s.last();
        if is_ws(c) {
            rest
        } else if s.len() >= 2 && !is_ws(s[s.len() - 2]) {
            rest.update(rest.len() - 1, rest.last().push(c))
        } else {
            rest.push(seq![c])
        }
    }
}

/// The token sequence of already-lowercased text: delete characters outside
/// the word class, then split on whitespace runs.
pub open spec fn clean_spec(s: Seq<char>) -> Seq<Seq<char>> {
    split_ws(filtered(s))
}

/// `s` without its leading whitespace.
pub open spec fn trim_front(s: Seq<char>) -> Seq<char>
    decreases s.len(),
{
    if s.len() > 0 && is_ws(s.first()) {
        trim_front(s.drop_first())
    } else {
        s
    }
}

/// `s` without its trailing whitespace.
pub open spec fn trim_back(s: Seq<char>) -> Seq<char>
    decreases s.len(),
{
    if s.len() > 0 && is_ws(s.last()) {
        trim_back(s.drop_last())
    } else {
        s
    }
}

/// `s` without leading and trailing whitespace.
pub open spec fn trim_of(s: Seq<char>) -> Seq<char> {
    trim_back(trim_front(s))
}

/// The Unicode lowercase mapping of a character sequence, as
/// `str::to_lowercase` computes it.
pub uninterp spec fn lower_of(s: Seq<char>) -> Seq<char>;

/// Relies on `str::to_lowercase`: the Unicode lowercase mapping of the
/// input, a function of the characters alone; an empty input stays empty.
#[verifier::external_body]
pub(crate) fn lowercase(s: &str) -> (r: String)
    ensures
        r@ == lower_of(s@),
        s@.len() == 0 ==> r@.len() == 0,
{
    s.to_lowercase()
}

/// Relies on `String`'s `FromIterator<&char>`: collecting characters yields
/// the string of exactly those characters, in order.
#[verifier::external_body]
pub(crate) fn string_of_chars(cs: &Vec<char>) -> (r: String)
    ensures
        r@ == cs@,
{
    cs.iter().collect()
}

/// Whether `c` has the Unicode `White_Space` property.
pub(crate) fn ws_char(c: char) -> (b: bool)
    ensures
        b == is_ws(c),
{
    let u = c as u32;
    (0x09 <= u && u <= 0x0D) || u == 0x20 || u == 0x85 || u == 0xA0 || u == 0x1680 || (0x2000 <= u
        && u <= 0x200A) || u == 0x2028 || u == 0x2029 || u == 0x202F || u == 0x205F || u == 0x3000
}

/// Whether the normalizer keeps `c` inside tokens.
pub(crate) fn word_char(c: char) -> (b: bool)
    ensures
        b == is_word_char(c),
{
    let u = c as u32;
    (0x61 <= u && u <= 0x7A) || (0x30 <= u && u <= 0x39) || (0xC0 <= u && u <= 0xFF)
}

/// The characters of `s`, in order, as a vector.
pub(crate) fn chars_vec(s: &str) -> (r: Vec<char>)
    ensures
        r@ == s@,
{
    let n: usize = s.unicode_len();
    let mut r: Vec<char> = Vec::new();
    let mut i: usize = 0;
    while i < n
        invariant
            i <= n,
            n == s@.len(),
            r@ == s@.take(i as int),
        decreases n - i,
    {
        let c = s.get_char(i);
        r.push(c);
        i = i + 1;
        proof {
            assert(r@ =~= s@.take(i as int));
        }
    }
    proof {
        assert(r@ =~= s@);
    }
    r
}

/// Deletes every character of `cs` outside the word and whitespace classes.
pub(crate) fn filter_chars(cs: &Vec<char>) -> (r: Vec<char>)
    ensures
        r@ == filtered(cs@),
{
    let mut r: Vec<char> = Vec::new();
    let mut i: usize = 0;
    while i < cs.len()
        invariant
            i <= cs@.len(),
            r@ == filtered(cs@.take(i as int)),
        decreases cs@.len() - i,
    {
        let c = cs[i];
        if word_char(c) || ws_char(c) {
            r.push(c);
        }
        i = i + 1;
        proof {
            let p = cs@.take(i as int);
            assert(p.drop_last() =~= cs@.take(i as int - 1));
            assert(p.last() == cs@[i as int - 1]);
        }
    }
    proof {
        assert(cs@.take(cs@.len() as int) =~= cs@);
    }
    r
}

/// Splits `fs` into its maximal non-whitespace runs, in order.
pub(crate) fn split_tokens(fs: &Vec<char>) -> (r: Vec<String>)
    ensures
        r@.map_values(|t: String| t@) == split_ws(fs@),
{
    let mut out: Vec<String> = Vec::new();
    let mut cur: Vec<char> = Vec::new();
    let mut i: usize = 0;
    while i < fs.len()
        invariant
            i <= fs@.len(),
            cur@.len() > 0 ==> i > 0 && !is_ws(fs@[i as int - 1]),
            cur@.len() == 0 ==> i == 0 || is_ws(fs@[i as int - 1]),
            cur@.len() > 0 ==> out@.map_values(|t: String| t@).push(cur@) == split_ws(
                fs@.take(i as int),
            ),
            cur@.len() == 0 ==> out@.map_values(|t: String| t@) == split_ws(fs@.take(i as int)),
        decreases fs@.len() - i,
    {
        let ghost prev_out = out@.map_values(|t: String| t@);
        let ghost prev_cur = cur@;
        let c = fs[i];
        if ws_char(c) {
            if cur.len() > 0 {
                let t = string_of_chars(&cur);
                out.push(t);
                cur = Vec::new();
            }
        } else {
            cur.push(c);
        }
        i = i + 1;
        proof {
            let p = fs@.take(i as int);
            assert(p.drop_last() =~= fs@.take(i as int - 1));
            assert(p.last() == fs@[i as int - 1]);
            if i >= 2 {
                assert(p[p.len() - 2] == fs@[i as int - 2]);
            }
            assert(out@.map_values(|t: String| t@) =~= if prev_cur.len() > 0 && is_ws(c) {
                prev_out.push(prev_cur)
            } else {
                prev_out
            });
            if !is_ws(c) && prev_cur.len() == 0 {
                assert(cur@ =~= seq![c]);
                assert(split_ws(p) == prev_out.push(seq![c]));
            }
            if !is_ws(c) && prev_cur.len() > 0 {
                assert(split_ws(p) =~= prev_out.push(prev_cur).update(
                    prev_out.len() as int,
                    prev_cur.push(c),
                ));
                assert(prev_out.push(prev_cur).update(prev_out.len() as int, prev_cur.push(c))
                    =~= prev_out.push(prev_cur.push(c)));
                assert(cur@ =~= prev_cur.push(c));
            }
        }
    }
    if cur.len() > 0 {
        let t = string_of_chars(&cur);
        out.push(t);
        proof {
            assert(out@.map_values(|t: String| t@) =~= out@.map_values(
                |t: String| t@,
            ).drop_last().push(cur@));
        }
    }
    proof {
        assert(fs@.take(fs@.len() as int) =~= fs@);
    }
    out
}

/// `cs` without leading and trailing whitespace.
pub(crate) fn trim_chars(cs: &Vec<char>) -> (r: Vec<char>)
    ensures
        r@ == trim_of(cs@),
{
    let n = cs.len();
    let mut a: usize = 0;
    while a < n && ws_char(cs[a])
        invariant
            a <= n,
            n == cs@.len(),
            forall|j: int| 0 <= j < a ==> is_ws(cs@[j]),
        decreases n - a,
    {
        a = a + 1;
    }
    let mut b: usize = n;
    while b > a && ws_char(cs[b - 1])
        invariant
            a <= b <= n,
            n == cs@.len(),
            forall|j: int| b <= j < n ==> is_ws(cs@[j]),
        decreases b,
    {
        b = b - 1;
    }
    let mut r: Vec<char> = Vec::new();
    let mut i: usize = a;
    while i < b
        invariant
            a <= i <= b <= n,
            n == cs@.len(),
            r@ == cs@.subrange(a as int, i as int),
        decreases b - i,
    {
        r.push(cs[i]);
        i = i + 1;
        proof {
            assert(r@ =~= cs@.subrange(a as int, i as int));
        }
    }
    proof {
        lemma_trim_front_skip(cs@, a as int);
        lemma_trim_back_take(cs@.skip(a as int), b - a);
        assert(cs@.skip(a as int).take(b - a) =~= cs@.subrange(a as int, b as int));
    }
    r
}

/// A sequence ending in a non-whitespace character splits into at least one
/// token.
proof fn lemma_split_ws_nonempty(t: Seq<char>)
    requires
        t.len() > 0,
        !is_ws(t.last()),
    ensures
        split_ws(t).len() >= 1,
    decreases t.len(),
{
    if t.len() >= 2 && !is_ws(t[t.len() - 2]) {
        lemma_split_ws_nonempty(t.drop_last());
    }
}

/// Every token of a whitespace split is non-empty and made of
/// non-whitespace characters drawn from the input.
proof fn lemma_split_ws_wf(t: Seq<char>)
    ensures
        forall|i: int| 0 <= i < split_ws(t).len() ==> (#[trigger] split_ws(t)[i]).len() > 0,
        forall|i: int, j: int|
            0 <= i < split_ws(t).len() && 0 <= j < split_ws(t)[i].len() ==> !is_ws(
                #[trigger] split_ws(t)[i][j],
            ) && t.contains(split_ws(t)[i][j]),
    decreases t.len(),
{
    if t.len() > 0 {
        lemma_split_ws_wf(t.drop_last());
        assert forall|x: char| t.drop_last().contains(x) implies t.contains(x) by {
            let k = choose|k: int| 0 <= k < t.drop_last().len() && t.drop_last()[k] == x;
            assert(t[k] == x);
        }
        if !is_ws(t.last()) {
            assert(t[t.len() - 1] == t.last());
            assert(t.contains(t.last()));
            if t.len() >= 2 && !is_ws(t[t.len() - 2]) {
                lemma_split_ws_nonempty(t.drop_last());
            }
        }
    }
}

/// Every character the filter keeps is a word character or whitespace.
proof fn lemma_filtered_wf(s: Seq<char>)
    ensures
        forall|k: int|
            0 <= k < filtered(s).len() ==> is_word_char(#[trigger] filtered(s)[k]) || is_ws(
                filtered(s)[k],
            ),
    decreases s.len(),
{
    if s.len() > 0 {
        lemma_filtered_wf(s.drop_last());
        assert forall|k: int| 0 <= k < filtered(s).len() implies is_word_char(
            #[trigger] filtered(s)[k],
        ) || is_ws(filtered(s)[k]) by {
            if (is_word_char(s.last()) || is_ws(s.last())) && k == filtered(s).len() - 1 {
                assert(filtered(s)[k] == s.last());
            } else {
                assert(filtered(s)[k] == filtered(s.drop_last())[k]);
            }
        }
    }
}

/// Every token the normalizer yields is non-empty and consists only of word
/// characters: ASCII lowercase letters, ASCII digits, and the Latin-1
/// accented range. Whitespace and deleted characters never appear in one.
pub proof fn lemma_clean_tokens_wellformed(s: Seq<char>)
    ensures
        forall|i: int| 0 <= i < clean_spec(s).len() ==> (#[trigger] clean_spec(s)[i]).len() > 0,
        forall|i: int, j: int|
            0 <= i < clean_spec(s).len() && 0 <= j < clean_spec(s)[i].len() ==> is_word_char(
                #[trigger] clean_spec(s)[i][j],
            ),
{
    lemma_split_ws_wf(filtered(s));
    lemma_filtered_wf(s);
    assert forall|i: int, j: int|
        0 <= i < clean_spec(s).len() && 0 <= j < clean_spec(s)[i].len() implies is_word_char(
        #[trigger] clean_spec(s)[i][j],
    ) by {
        let x = clean_spec(s)[i][j];
        assert(filtered(s).contains(x));
        let k = choose|k: int| 0 <= k < filtered(s).len() && filtered(s)[k] == x;
    }
}

/// When the first `k` characters are whitespace and the next one (if any) is
/// not, trimming the front drops exactly those `k` characters.
proof fn lemma_trim_front_skip(s: Seq<char>, k: int)
    requires
        0 <= k <= s.len(),
        forall|j: int| 0 <= j < k ==> is_ws(s[j]),
        k == s.len() || !is_ws(s[k]),
    ensures
        trim_front(s) == s.skip(k),
    decreases k,
{
    if k == 0 {
        assert(s.skip(0) =~= s);
    } else {
        lemma_trim_front_skip(s.drop_first(), k - 1);
        assert(s.drop_first().skip(k - 1) =~= s.skip(k));
    }
}

/// When the characters from position `k` on are whitespace and the one
/// before (if any) is not, trimming the back keeps exactly the first `k`.
proof fn lemma_trim_back_take(s: Seq<char>, k: int)
    requires
        0 <= k <= s.len(),
        forall|j: int| k <= j < s.len() ==> is_ws(s[j]),
        k == 0 || !is_ws(s[k - 1]),
    ensures
        trim_back(s) == s.take(k),
    decreases s.len() - k,
{
    if k == s.len() {
        assert(s.take(k) =~= s);
    } else {
        lemma_trim_back_take(s.drop_last(), k);
        assert(s.drop_last().take(k) =~= s.take(k));
    }
}

} // verus!
