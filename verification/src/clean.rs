//! The cleaning transform: dropping quote and backslash characters.
//!
//! A value is gathered as JSON text, so a string arrives inside double quotes
//! and with its escapes written out. Cleaning removes every double quote and
//! then every backslash, wherever they stand. It is lossy on purpose: it does
//! not undo escapes, it only takes their markers away.

use crate::result_set::ResultSet;
use crate::text::{push_char, texts};
use vstd::prelude::*;

verus! {

/// The double quote, the first of the two characters that cleaning removes.
pub const QUOTE: char = '"';

/// The backslash, the second of the two characters that cleaning removes.
pub const BACKSLASH: char = '\\';

/// The test that holds of every character but `c`.
pub open spec fn other_than(c: char) -> spec_fn(char) -> bool {
    |x: char| x != c
}

/// The characters of `s` other than `c`, in their order.
pub open spec fn without(s: Seq<char>, c: char) -> Seq<char> {
    s.filter(other_than(c))
}

/// The clean form of `s`: every double quote is taken out, then every
/// backslash.
pub open spec fn cleaned(s: Seq<char>) -> Seq<char> {
    without(without(s, QUOTE), BACKSLASH)
}

/// Whether `s` holds neither a double quote nor a backslash.
pub open spec fn is_clean(s: Seq<char>) -> bool {
    !s.contains(QUOTE) && !s.contains(BACKSLASH)
}

/// The clean forms of the members of `s`, as a set.
pub open spec fn clean_values(s: Set<Seq<char>>) -> Set<Seq<char>> {
    Set::new(|c: Seq<char>| exists|t: Seq<char>| #[trigger] s.contains(t) && c == cleaned(t))
}

/// Copies `s` without the occurrences of `c`.
pub fn strip(s: &str, c: char) -> (r: String)
    ensures
        r@ == without(s@, c),
{
    let mut r = String::new();
    for x in it: s.chars()
        invariant
            it.seq() == s@,
            r@ == without(s@.take(it.index()), c),
    {
        proof {
            let done = s@.take(it.index());
            assert(s@.take(it.index() + 1) == done.push(x));
            done.lemma_filter_push(x, other_than(c));
        }
        if x != c {
            push_char(&mut r, x);
        }
    }
    assert(s@.take(s@.len() as int) == s@);
    r
}

/// Cleans one value: the result is `s` with its double quotes removed and
/// then its backslashes.
pub fn clean(s: &str) -> (r: String)
    ensures
        r@ == cleaned(s@),
        is_clean(r@),
{
    let unquoted = strip(s, QUOTE);
    let r = strip(unquoted.as_str(), BACKSLASH);
    proof {
        lemma_cleaned_is_clean(s@);
    }
    r
}

/// Cleans every value of a list and keeps each clean form once.
pub fn clean_all(values: &Vec<String>) -> (set: ResultSet)
    ensures
        set.values() == clean_values(texts(values@).to_set()),
        set@.no_duplicates(),
{
    let mut set = ResultSet::new();
    let ghost raw = texts(values@);
    let n: usize = values.len();
    let mut i: usize = 0;
    proof {
        use_type_invariant(&set);
        lemma_clean_values_empty();
        assert(raw.take(0).to_set() =~= Set::<Seq<char>>::empty());
        assert(set.values() =~= Set::<Seq<char>>::empty());
    }
    while i < n
        invariant
            n == values.len(),
            i <= n,
            raw == texts(values@),
            set.values() == clean_values(raw.take(i as int).to_set()),
            set@.no_duplicates(),
        decreases n - i,
    {
        proof {
            let done = raw.take(i as int);
            assert(raw.take(i + 1) == done.push(values[i as int]@));
            done.lemma_push_to_set_commute(values[i as int]@);
            lemma_clean_values_insert(done.to_set(), values[i as int]@);
        }
        set.insert(clean(values[i].as_str()));
        i += 1;
    }
    assert(raw.take(n as int) == raw);
    set
}

/// Nothing has no clean forms.
pub proof fn lemma_clean_values_empty()
    ensures
        clean_values(Set::<Seq<char>>::empty()) == Set::<Seq<char>>::empty(),
{
    assert(clean_values(Set::<Seq<char>>::empty()) =~= Set::<Seq<char>>::empty());
}

/// One more member adds its clean form to the clean forms of the others.
pub proof fn lemma_clean_values_insert(s: Set<Seq<char>>, t: Seq<char>)
    ensures
        clean_values(s.insert(t)) == clean_values(s).insert(cleaned(t)),
{
    let more = s.insert(t);
    assert forall|c: Seq<char>| clean_values(more).contains(c) implies clean_values(s).insert(
        cleaned(t),
    ).contains(c) by {
        let u = choose|u: Seq<char>| #[trigger] more.contains(u) && c == cleaned(u);
        if u != t {
            assert(s.contains(u));
        }
    }
    assert forall|c: Seq<char>| clean_values(s).insert(cleaned(t)).contains(
        c,
    ) implies clean_values(more).contains(c) by {
        if c == cleaned(t) {
            assert(more.contains(t));
        } else {
            let u = choose|u: Seq<char>| #[trigger] s.contains(u) && c == cleaned(u);
            assert(more.contains(u));
        }
    }
    assert(clean_values(more) =~= clean_values(s).insert(cleaned(t)));
}

/// What `without` leaves: no `c`, nothing that `s` did not hold, and all of
/// `s` when `s` holds no `c`.
pub proof fn lemma_without(s: Seq<char>, c: char)
    ensures
        !without(s, c).contains(c),
        forall|x: char| without(s, c).contains(x) ==> s.contains(x),
        !s.contains(c) ==> without(s, c) == s,
    decreases s.len(),
{
    let t = without(s, c);
    assert forall|i: int| 0 <= i < t.len() implies t[i] != c by {
        s.lemma_filter_pred(other_than(c), i);
    }
    assert forall|x: char| t.contains(x) implies s.contains(x) by {
        s.lemma_filter_contains_rev(other_than(c), x);
    }
    if !s.contains(c) && s.len() > 0 {
        let front = s.drop_last();
        assert(s == front.push(s.last()));
        assert forall|i: int| 0 <= i < front.len() implies front[i] != c by {
            assert(front[i] == s[i]);
        }
        assert(s.last() == s[s.len() - 1]);
        lemma_without(front, c);
        front.lemma_filter_push(s.last(), other_than(c));
    } else if s.len() == 0 {
        reveal(Seq::filter);
    }
}

/// The clean form of any text holds neither a double quote nor a backslash.
pub proof fn lemma_cleaned_is_clean(s: Seq<char>)
    ensures
        is_clean(cleaned(s)),
{
    lemma_without(s, QUOTE);
    lemma_without(without(s, QUOTE), BACKSLASH);
}

/// Cleaning changes nothing in a text that is already clean.
pub proof fn lemma_clean_keeps_clean(s: Seq<char>)
    requires
        is_clean(s),
    ensures
        cleaned(s) == s,
{
    lemma_without(s, QUOTE);
    lemma_without(s, BACKSLASH);
}

/// Cleaning is idempotent: cleaning a second time gives what the first gave.
pub proof fn lemma_clean_idempotent(s: Seq<char>)
    ensures
        cleaned(cleaned(s)) == cleaned(s),
{
    lemma_cleaned_is_clean(s);
    lemma_clean_keeps_clean(cleaned(s));
}

/// The two removals amount to one: the clean form keeps exactly the characters
/// that are neither a double quote nor a backslash.
pub proof fn lemma_cleaned_as_one_filter(s: Seq<char>)
    ensures
        cleaned(s) == s.filter(|x: char| x != QUOTE && x != BACKSLASH),
    decreases s.len(),
{
    let both = |x: char| x != QUOTE && x != BACKSLASH;
    if s.len() == 0 {
        reveal(Seq::filter);
        assert(without(s, QUOTE) == s);
    } else {
        let front = s.drop_last();
        let x = s.last();
        assert(s == front.push(x));
        lemma_cleaned_as_one_filter(front);
        front.lemma_filter_push(x, other_than(QUOTE));
        front.lemma_filter_push(x, both);
        if x != QUOTE {
            without(front, QUOTE).lemma_filter_push(x, other_than(BACKSLASH));
        }
    }
}

} // verus!
