use vstd::prelude::*;
use vstd::utf8::encode_utf8;
use vstd::string::StringSliceAdditionalSpecFns;

use crate::text::{chars_of, string_of};

verus! {

broadcast use vstd::string::group_string_axioms;

/// The pieces of `s` between line breaks (`'\n'`), empty ones included.
pub open spec fn split_lines(s: Seq<char>) -> Seq<Seq<char>>
    decreases s.len(),
{
    if s.len() == 0 {
        seq![seq![]]
    } else {
        let p = split_lines(s.drop_last());
        if s.last() == '\n' {
            p.push(seq![])
        } else {
            p.update(p.len() - 1, p.last().push(s.last()))
        }
    }
}

/// The non-empty lines of `s`: the words of a word list.
pub open spec fn word_lines(s: Seq<char>) -> Seq<Seq<char>> {
    split_lines(s).filter(|w: Seq<char>| w.len() > 0)
}

/// Whether `w` occurs in `s` at index `i`.
pub open spec fn occurs_at(s: Seq<char>, w: Seq<char>, i: int) -> bool {
    0 <= i && i + w.len() <= s.len() && s.subrange(i, i + w.len()) == w
}

/// The first index at or after `from` where `w` occurs in `s`.
pub open spec fn find_from(s: Seq<char>, w: Seq<char>, from: int) -> Option<int>
    decreases s.len() + 1 - from,
{
    if from < 0 || from + w.len() > s.len() {
        None
    } else if occurs_at(s, w, from) {
        Some(from)
    } else {
        find_from(s, w, from + 1)
    }
}

/// `n` asterisks.
pub open spec fn stars(n: nat) -> Seq<char> {
    Seq::new(n, |i: int| '*')
}

/// The number of characters of `s` other than `'*'`.
pub open spec fn non_stars(s: Seq<char>) -> nat
    decreases s.len(),
{
    if s.len() == 0 {
        0
    } else {
        non_stars(s.drop_last()) + if s.last() != '*' { 1nat } else { 0nat }
    }
}

/// A word that the filter can mask: it holds a character other than `'*'`.
pub open spec fn maskable(w: Seq<char>) -> bool {
    exists|i: int| 0 <= i < w.len() && w[i] != '*'
}

/// `s` with the `len` characters at `i` replaced by `by`.
pub open spec fn splice(s: Seq<char>, i: int, len: int, by: Seq<char>) -> Seq<char> {
    s.subrange(0, i) + by + s.subrange(i + len, s.len() as int)
}

proof fn lemma_non_stars_add(a: Seq<char>, b: Seq<char>)
    ensures
        non_stars(a + b) == non_stars(a) + non_stars(b),
    decreases b.len(),
{
    if b.len() == 0 {
        assert(a + b =~= a);
    } else {
        lemma_non_stars_add(a, b.drop_last());
        assert((a + b).drop_last() =~= a + b.drop_last());
    }
}

proof fn lemma_non_stars_of_stars(n: nat)
    ensures
        non_stars(stars(n)) == 0,
    decreases n,
{
    if n > 0 {
        assert(stars(n).drop_last() =~= stars((n - 1) as nat));
        lemma_non_stars_of_stars((n - 1) as nat);
    }
}

proof fn lemma_non_stars_positive(w: Seq<char>)
    requires
        maskable(w),
    ensures
        non_stars(w) > 0,
    decreases w.len(),
{
    let i = choose|i: int| 0 <= i < w.len() && w[i] != '*';
    if w.last() == '*' {
        assert(w.drop_last()[i] == w[i]);
        lemma_non_stars_positive(w.drop_last());
    }
}

/// Masking an occurrence of a maskable word removes at least one non-`'*'` character.
pub proof fn lemma_mask_decreases(s: Seq<char>, w: Seq<char>, i: int, n: nat)
    requires
        occurs_at(s, w, i),
        maskable(w),
    ensures
        non_stars(splice(s, i, w.len() as int, stars(n))) < non_stars(s),
{
    let pre = s.subrange(0, i);
    let post = s.subrange(i + w.len(), s.len() as int);
    assert(s =~= pre + w + post);
    lemma_non_stars_add(pre + w, post);
    lemma_non_stars_add(pre, w);
    lemma_non_stars_add(pre + stars(n), post);
    lemma_non_stars_add(pre, stars(n));
    lemma_non_stars_of_stars(n);
    lemma_non_stars_positive(w);
}

/// Masks, left to right, each occurrence of `w` in `s` found at or after
/// `from` with as many `'*'` as `w` has UTF-8 bytes; after each mask the
/// search goes on from where the masked occurrence began.
pub open spec fn mask_from(s: Seq<char>, w: Seq<char>, from: int) -> Seq<char>
    decreases non_stars(s),
    when maskable(w)
{
    match find_from(s, w, from) {
        None => s,
        Some(i) => {
            proof {
                lemma_find_from_occurs(s, w, from);
                lemma_mask_decreases(s, w, i, encode_utf8(w).len());
            }
            mask_from(splice(s, i, w.len() as int, stars(encode_utf8(w).len())), w, i)
        },
    }
}

pub proof fn lemma_find_from_occurs(s: Seq<char>, w: Seq<char>, from: int)
    ensures
        find_from(s, w, from) matches Some(i) ==> occurs_at(s, w, i) && from <= i,
    decreases s.len() + 1 - from,
{
    if from < 0 || from + w.len() > s.len() {
    } else if occurs_at(s, w, from) {
    } else {
        lemma_find_from_occurs(s, w, from + 1);
    }
}

/// Masks the words of `words` one after another, each over the whole text.
pub open spec fn mask_all(s: Seq<char>, words: Seq<Seq<char>>) -> Seq<char>
    decreases words.len(),
{
    if words.len() == 0 {
        s
    } else {
        mask_all(mask_from(s, words[0], 0), words.drop_first())
    }
}

proof fn lemma_filter_push(s: Seq<Seq<char>>, keep: spec_fn(Seq<char>) -> bool, x: Seq<char>)
    ensures
        s.push(x).filter(keep) == if keep(x) { s.filter(keep).push(x) } else { s.filter(keep) },
{
    reveal_with_fuel(Seq::<_>::filter, 1);
    assert(s.push(x).drop_last() =~= s);
}

proof fn lemma_encode_add(a: Seq<char>, b: Seq<char>)
    ensures
        encode_utf8(a + b).len() == encode_utf8(a).len() + encode_utf8(b).len(),
    decreases a.len(),
{
    if a.len() > 0 {
        assert((a + b).drop_first() =~= a.drop_first() + b);
        assert((a + b)[0] == a[0]);
        lemma_encode_add(a.drop_first(), b);
    } else {
        assert(a + b =~= b);
    }
}

proof fn lemma_encode_stars(n: nat)
    ensures
        encode_utf8(stars(n)).len() == n,
    decreases n,
{
    if n > 0 {
        assert(stars(n).drop_first() =~= stars((n - 1) as nat));
        assert(stars(n)[0] == '*');
        assert(('*' as u32) == 42u32);
        assert(vstd::utf8::has_width_1_encoding(42u32));
        lemma_encode_stars((n - 1) as nat);
    }
}

/// Masking one word keeps the text's UTF-8 length: each occurrence is
/// replaced by as many `'*'` as it has bytes.
pub proof fn lemma_mask_from_keeps_length(s: Seq<char>, w: Seq<char>, from: int)
    requires
        maskable(w),
    ensures
        encode_utf8(mask_from(s, w, from)).len() == encode_utf8(s).len(),
    decreases non_stars(s),
{
    match find_from(s, w, from) {
        None => {},
        Some(i) => {
            lemma_find_from_occurs(s, w, from);
            let n = encode_utf8(w).len();
            lemma_mask_decreases(s, w, i, n);
            let t = splice(s, i, w.len() as int, stars(n));
            lemma_mask_from_keeps_length(t, w, i);
            let pre = s.subrange(0, i);
            let post = s.subrange(i + w.len(), s.len() as int);
            assert(s =~= pre + w + post);
            lemma_encode_add(pre + w, post);
            lemma_encode_add(pre, w);
            lemma_encode_add(pre + stars(n), post);
            lemma_encode_add(pre, stars(n));
            lemma_encode_stars(n);
        },
    }
}

/// Masking never changes how many UTF-8 bytes a text has.
pub proof fn lemma_mask_all_keeps_length(s: Seq<char>, words: Seq<Seq<char>>)
    requires
        forall|i: int| 0 <= i < words.len() ==> maskable(#[trigger] words[i]),
    ensures
        encode_utf8(mask_all(s, words)).len() == encode_utf8(s).len(),
    decreases words.len(),
{
    if words.len() > 0 {
        lemma_mask_from_keeps_length(s, words[0], 0);
        assert forall|i: int| 0 <= i < words.drop_first().len() implies maskable(#[trigger] words.drop_first()[i]) by {
            assert(words.drop_first()[i] == words[i + 1]);
        };
        lemma_mask_all_keeps_length(mask_from(s, words[0], 0), words.drop_first());
    }
}

/// A text in which none of the words occurs comes out unchanged.
pub proof fn lemma_mask_all_clean_text(s: Seq<char>, words: Seq<Seq<char>>)
    requires
        forall|i: int| 0 <= i < words.len() ==> maskable(#[trigger] words[i]),
        forall|i: int, k: int| 0 <= i < words.len() ==> !#[trigger] occurs_at(s, words[i], k),
    ensures
        mask_all(s, words) == s,
    decreases words.len(),
{
    if words.len() > 0 {
        lemma_find_from_occurs(s, words[0], 0);
        assert(!occurs_at(s, words[0], 0));
        assert(find_from(s, words[0], 0) is None) by {
            if find_from(s, words[0], 0) is Some {
                let k = find_from(s, words[0], 0)->0;
                assert(!occurs_at(s, words[0], k));
            }
        };
        assert forall|i: int| 0 <= i < words.drop_first().len() implies maskable(#[trigger] words.drop_first()[i]) by {
            assert(words.drop_first()[i] == words[i + 1]);
        };
        assert forall|i: int, k: int| 0 <= i < words.drop_first().len() implies !#[trigger] occurs_at(s, words.drop_first()[i], k) by {
            assert(words.drop_first()[i] == words[i + 1]);
        };
        lemma_mask_all_clean_text(s, words.drop_first());
    }
}

/// A word that masking can never bring back: non-empty, without `'*'`.
pub open spec fn star_free(w: Seq<char>) -> bool {
    w.len() > 0 && forall|i: int| 0 <= i < w.len() ==> w[i] != '*'
}

/// `w` occurs nowhere in `s`.
pub open spec fn absent(s: Seq<char>, w: Seq<char>) -> bool {
    forall|k: int| !#[trigger] occurs_at(s, w, k)
}

proof fn lemma_star_free_maskable(w: Seq<char>)
    requires
        star_free(w),
    ensures
        maskable(w),
{
    assert(w[0] != '*');
}

proof fn lemma_encode_nonempty(w: Seq<char>)
    requires
        w.len() > 0,
    ensures
        encode_utf8(w).len() > 0,
{
    assert(encode_utf8(w) == vstd::utf8::encode_scalar(w[0] as u32) + encode_utf8(w.drop_first()));
}

/// What `find_from` passes over holds no occurrence.
proof fn lemma_find_from_first(s: Seq<char>, w: Seq<char>, from: int)
    requires
        0 <= from,
    ensures
        find_from(s, w, from) matches Some(i) ==> forall|k: int| from <= k < i ==> !#[trigger] occurs_at(s, w, k),
        find_from(s, w, from) is None ==> forall|k: int| from <= k ==> !#[trigger] occurs_at(s, w, k),
    decreases s.len() + 1 - from,
{
    if from + w.len() > s.len() {
    } else if occurs_at(s, w, from) {
    } else {
        lemma_find_from_first(s, w, from + 1);
    }
}

/// The characters of `splice(s, i, len, stars(n))`, position by position.
proof fn lemma_splice_index(s: Seq<char>, i: int, len: int, n: nat)
    requires
        0 <= i,
        0 <= len,
        i + len <= s.len(),
    ensures
        splice(s, i, len, stars(n)).len() == s.len() - len + n,
        forall|p: int| 0 <= p < i ==> #[trigger] splice(s, i, len, stars(n))[p] == s[p],
        forall|p: int| i <= p < i + n ==> #[trigger] splice(s, i, len, stars(n))[p] == '*',
        forall|p: int| i + n <= p < s.len() - len + n ==> #[trigger] splice(s, i, len, stars(n))[p] == s[p - n + len],
{
}

/// Masking one occurrence of any word keeps a star-free word `v` absent.
proof fn lemma_splice_keeps_absent(s: Seq<char>, v: Seq<char>, i: int, len: int, n: nat)
    requires
        0 <= i,
        0 <= len,
        i + len <= s.len(),
        n > 0,
        star_free(v),
        absent(s, v),
    ensures
        absent(splice(s, i, len, stars(n)), v),
{
    let t = splice(s, i, len, stars(n));
    lemma_splice_index(s, i, len, n);
    let m = v.len() as int;
    assert forall|k: int| !#[trigger] occurs_at(t, v, k) by {
        if occurs_at(t, v, k) {
            assert forall|j: int| 0 <= j < m implies #[trigger] t[k + j] == v[j] by {
                assert(t.subrange(k, k + m)[j] == t[k + j]);
            };
            if k + m <= i {
                assert forall|j: int| 0 <= j < m implies #[trigger] s[k + j] == v[j] by {
                    assert(t[k + j] == v[j]);
                };
                assert(s.subrange(k, k + m) =~= v);
                assert(occurs_at(s, v, k));
            } else if k >= i + n {
                let k2 = k - n + len;
                assert forall|j: int| 0 <= j < m implies #[trigger] s[k2 + j] == v[j] by {
                    assert(t[k + j] == v[j]);
                };
                assert(s.subrange(k2, k2 + m) =~= v);
                assert(occurs_at(s, v, k2));
            } else {
                let p = if k >= i { k } else { i };
                assert(t[k + (p - k)] == v[p - k]);
                assert(t[p] == '*');
            }
        }
    };
}

/// Masking a word keeps a star-free word `v` absent.
proof fn lemma_mask_from_keeps_absent(s: Seq<char>, w: Seq<char>, from: int, v: Seq<char>)
    requires
        maskable(w),
        star_free(v),
        absent(s, v),
    ensures
        absent(mask_from(s, w, from), v),
    decreases non_stars(s),
{
    match find_from(s, w, from) {
        None => {},
        Some(i) => {
            lemma_find_from_occurs(s, w, from);
            let n = encode_utf8(w).len();
            lemma_encode_nonempty(w);
            lemma_mask_decreases(s, w, i, n);
            lemma_splice_keeps_absent(s, v, i, w.len() as int, n);
            lemma_mask_from_keeps_absent(splice(s, i, w.len() as int, stars(n)), w, i, v);
        },
    }
}

/// Masking a star-free word from `from` on, where it does not occur before
/// `from`, leaves it nowhere.
proof fn lemma_mask_from_clears(s: Seq<char>, w: Seq<char>, from: int)
    requires
        star_free(w),
        0 <= from,
        forall|k: int| k < from ==> !#[trigger] occurs_at(s, w, k),
    ensures
        absent(mask_from(s, w, from), w),
    decreases non_stars(s),
{
    lemma_star_free_maskable(w);
    lemma_find_from_first(s, w, from);
    match find_from(s, w, from) {
        None => {
            assert forall|k: int| !#[trigger] occurs_at(s, w, k) by {
                if k < from {
                } else {
                }
            };
        },
        Some(i) => {
            lemma_find_from_occurs(s, w, from);
            let n = encode_utf8(w).len();
            lemma_encode_nonempty(w);
            lemma_mask_decreases(s, w, i, n);
            let m = w.len() as int;
            let t = splice(s, i, m, stars(n));
            lemma_splice_index(s, i, m, n);
            assert forall|k: int| k < i implies !#[trigger] occurs_at(t, w, k) by {
                if occurs_at(t, w, k) {
                    assert forall|j: int| 0 <= j < m implies #[trigger] t[k + j] == w[j] by {
                        assert(t.subrange(k, k + m)[j] == t[k + j]);
                    };
                    if k + m <= i {
                        assert forall|j: int| 0 <= j < m implies #[trigger] s[k + j] == w[j] by {
                            assert(t[k + j] == w[j]);
                        };
                        assert(s.subrange(k, k + m) =~= w);
                        assert(occurs_at(s, w, k));
                    } else {
                        assert(t[k + (i - k)] == w[i - k]);
                        assert(t[i] == '*');
                    }
                }
            };
            lemma_mask_from_clears(t, w, i);
        },
    }
}

/// Masking a list of words keeps a star-free word `v` absent.
proof fn lemma_mask_all_keeps_absent(s: Seq<char>, words: Seq<Seq<char>>, v: Seq<char>)
    requires
        forall|i: int| 0 <= i < words.len() ==> maskable(#[trigger] words[i]),
        star_free(v),
        absent(s, v),
    ensures
        absent(mask_all(s, words), v),
    decreases words.len(),
{
    if words.len() > 0 {
        lemma_mask_from_keeps_absent(s, words[0], 0, v);
        assert forall|i: int| 0 <= i < words.drop_first().len() implies maskable(#[trigger] words.drop_first()[i]) by {
            assert(words.drop_first()[i] == words[i + 1]);
        };
        lemma_mask_all_keeps_absent(mask_from(s, words[0], 0), words.drop_first(), v);
    }
}

/// With words that hold no `'*'`, a filtered text holds none of the words,
/// so filtering it again changes nothing.
pub proof fn lemma_filter_idempotent(s: Seq<char>, words: Seq<Seq<char>>)
    requires
        forall|i: int| 0 <= i < words.len() ==> star_free(#[trigger] words[i]),
    ensures
        forall|j: int, k: int| 0 <= j < words.len() ==> !#[trigger] occurs_at(mask_all(s, words), words[j], k),
        mask_all(mask_all(s, words), words) == mask_all(s, words),
    decreases words.len(),
{
    assert forall|i: int| 0 <= i < words.len() implies maskable(#[trigger] words[i]) by {
        lemma_star_free_maskable(words[i]);
    };
    if words.len() > 0 {
        let rest = words.drop_first();
        let s1 = mask_from(s, words[0], 0);
        lemma_mask_from_clears(s, words[0], 0);
        assert forall|i: int| 0 <= i < rest.len() implies star_free(#[trigger] rest[i]) by {
            assert(rest[i] == words[i + 1]);
        };
        assert forall|i: int| 0 <= i < rest.len() implies maskable(#[trigger] rest[i]) by {
            assert(rest[i] == words[i + 1]);
        };
        lemma_filter_idempotent(s1, rest);
        lemma_mask_all_keeps_absent(s1, rest, words[0]);
        assert(mask_all(s, words) == mask_all(s1, rest));
        assert forall|j: int, k: int| 0 <= j < words.len() implies !#[trigger] occurs_at(mask_all(s, words), words[j], k) by {
            if j > 0 {
                assert(words[j] == rest[j - 1]);
            }
        };
    }
    lemma_mask_all_clean_text(mask_all(s, words), words);
}

/// A filter that masks a list of words in chat messages.
pub struct Filter {
    pub word_list: Vec<String>,
}

impl View for Filter {
    type V = Seq<Seq<char>>;

    open spec fn view(&self) -> Seq<Seq<char>> {
        self.word_list@.map_values(|w: String| w@)
    }
}

impl Filter {
    /// Whether every word can be masked (holds a character other than `'*'`).
    pub open spec fn all_maskable(&self) -> bool {
        forall|i: int| 0 <= i < self@.len() ==> maskable(#[trigger] self@[i])
    }

    /// The filter of the non-empty lines of `word_str`.
    pub fn from(word_str: &str) -> (res: Filter)
        ensures
            res@ == word_lines(word_str@),
    {
        let chars = chars_of(word_str);
        let mut words: Vec<String> = Vec::new();
        let mut cur: Vec<char> = Vec::new();
        let mut i: usize = 0;
        let ghost keep = |w: Seq<char>| w.len() > 0;
        assert(chars@.take(0) =~= seq![]);
        assert(split_lines(seq![]) =~= seq![seq![]]);
        while i < chars.len()
            invariant
                i <= chars@.len(),
                chars@ == word_str@,
                keep == (|w: Seq<char>| w.len() > 0),
                split_lines(chars@.take(i as int)).len() > 0,
                split_lines(chars@.take(i as int)).last() == cur@,
                words@.map_values(|w: String| w@) == split_lines(chars@.take(i as int)).drop_last().filter(keep),
            decreases chars@.len() - i,
        {
            let c = chars[i];
            let ghost before = split_lines(chars@.take(i as int));
            assert(chars@.take(i + 1).drop_last() =~= chars@.take(i as int));
            if c == '\n' {
                if cur.len() > 0 {
                    let w = string_of(&cur);
                    words.push(w);
                } else {
                }
                proof {
                    let after = before.push(seq![]);
                    assert(after.drop_last() =~= before);
                    assert(before =~= before.drop_last().push(before.last()));
                    lemma_filter_push(before.drop_last(), keep, before.last());
                    assert(words@.map_values(|w: String| w@) =~= before.filter(keep));
                }
                cur = Vec::new();
                assert(cur@ =~= seq![]);
            } else {
                cur.push(c);
                proof {
                    let after = before.update(before.len() - 1, before.last().push(c));
                    assert(after.drop_last() =~= before.drop_last());
                }
            }
            i += 1;
        }
        let ghost all = split_lines(chars@.take(i as int));
        assert(chars@.take(i as int) =~= word_str@);
        if cur.len() > 0 {
            let w = string_of(&cur);
            words.push(w);
        }
        proof {
            assert(all =~= all.drop_last().push(all.last()));
            lemma_filter_push(all.drop_last(), keep, all.last());
            assert(words@.map_values(|w: String| w@) =~= all.filter(keep));
        }
        Filter { word_list: words }
    }

    /// The filter of the non-empty lines of the word list text `word_str`.
    pub fn new(word_str: &str) -> (res: Filter)
        ensures
            res@ == word_lines(word_str@),
    {
        Self::from(word_str)
    }

    /// `str` with every word of the list masked, word by word in list order.
    pub fn filter(&self, str: String) -> (res: String)
        requires
            self.all_maskable(),
        ensures
            res@ == mask_all(str@, self@),
    {
        let mut s = chars_of(str.as_str());
        let mut k: usize = 0;
        assert(self@.skip(0) =~= self@);
        while k < self.word_list.len()
            invariant
                k <= self@.len(),
                self.all_maskable(),
                mask_all(str@, self@) == mask_all(s@, self@.skip(k as int)),
            decreases self@.len() - k,
        {
            let word = &self.word_list[k];
            let w = chars_of(word.as_str());
            let n = word.as_str().as_bytes().len();
            assert(maskable(self@[k as int]));
            let ghost start = s@;
            mask_word(&mut s, &w, n);
            proof {
                assert(self@.skip(k as int).drop_first() =~= self@.skip(k + 1));
                assert(self@.skip(k as int)[0] == w@);
            }
            k += 1;
        }
        assert(self@.skip(k as int) =~= seq![]);
        string_of(&s)
    }
}

/// The first index at or after `from` where `w` occurs in `s`.
fn find_word(s: &Vec<char>, w: &Vec<char>, from: usize) -> (res: Option<usize>)
    requires
        from <= s@.len(),
    ensures
        res matches Some(p) ==> find_from(s@, w@, from as int) == Some(p as int),
        res is None ==> find_from(s@, w@, from as int) is None,
{
    if w.len() > s.len() {
        return None;
    }
    let sl = s.len();
    let last = sl - w.len();
    let mut i = from;
    while i <= last
        invariant
            from <= i,
            sl == s@.len(),
            last == s@.len() - w@.len(),
            find_from(s@, w@, from as int) == find_from(s@, w@, i as int),
        decreases last + 1 - i,
    {
        let mut j: usize = 0;
        let mut same = true;
        while j < w.len()
            invariant
                sl == s@.len(),
                i <= last,
                last == s@.len() - w@.len(),
                i + w@.len() <= s@.len(),
                j <= w@.len(),
                same == (forall|t: int| 0 <= t < j ==> s@[i + t] == w@[t]),
            decreases w@.len() - j,
        {
            if s[i + j] != w[j] {
                same = false;
            }
            j += 1;
        }
        if same {
            assert(s@.subrange(i as int, i + w@.len()) =~= w@);
            return Some(i);
        }
        assert(!occurs_at(s@, w@, i as int)) by {
            if occurs_at(s@, w@, i as int) {
                assert forall|t: int| 0 <= t < w@.len() implies s@[i + t] == w@[t] by {
                    assert(s@.subrange(i as int, i + w@.len())[t] == s@[i + t]);
                };
            }
        };
        if i == last {
            assert(find_from(s@, w@, i + 1) is None);
            return None;
        }
        i += 1;
    }
    None
}

/// Masks the occurrences of `w` in `s` as `mask_from` does from index 0;
/// `n` is the number of UTF-8 bytes of `w`.
fn mask_word(s: &mut Vec<char>, w: &Vec<char>, n: usize)
    requires
        maskable(w@),
        n == encode_utf8(w@).len(),
    ensures
        final(s)@ == mask_from(old(s)@, w@, 0),
{
    let mut now_pos: usize = 0;
    loop
        invariant
            now_pos <= s@.len(),
            maskable(w@),
            n == encode_utf8(w@).len(),
            mask_from(old(s)@, w@, 0) == mask_from(s@, w@, now_pos as int),
        decreases non_stars(s@),
    {
        match find_word(s, w, now_pos) {
            None => {
                assert(mask_from(s@, w@, now_pos as int) == s@);
                return;
            },
            Some(pos) => {
                proof {
                    lemma_find_from_occurs(s@, w@, now_pos as int);
                    lemma_mask_decreases(s@, w@, pos as int, n as nat);
                }
                let ghost before = s@;
                let slen = s.len();
                let mut next: Vec<char> = Vec::new();
                let mut t: usize = 0;
                while t < pos
                    invariant
                        t <= pos,
                        pos + w@.len() <= s@.len(),
                        next@ == s@.subrange(0, t as int),
                    decreases pos - t,
                {
                    next.push(s[t]);
                    t += 1;
                    assert(next@ =~= s@.subrange(0, t as int));
                }
                let mut t: usize = 0;
                while t < n
                    invariant
                        t <= n,
                        pos + w@.len() <= s@.len(),
                        next@ == s@.subrange(0, pos as int) + stars(t as nat),
                    decreases n - t,
                {
                    next.push('*');
                    t += 1;
                    assert(next@ =~= s@.subrange(0, pos as int) + stars(t as nat));
                }
                let mut t: usize = pos + w.len();
                while t < s.len()
                    invariant
                        pos + w@.len() <= t <= s@.len(),
                        next@ == s@.subrange(0, pos as int) + stars(n as nat)
                            + s@.subrange(pos + w@.len(), t as int),
                    decreases s@.len() - t,
                {
                    next.push(s[t]);
                    t += 1;
                    assert(next@ =~= s@.subrange(0, pos as int) + stars(n as nat)
                        + s@.subrange(pos + w@.len(), t as int));
                }
                *s = next;
                now_pos = pos;
                assert(s@ =~= splice(before, pos as int, w@.len() as int, stars(n as nat)));
            },
        }
    }
}

} // verus!
